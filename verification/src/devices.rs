//! Adopted devices: search, selection, and one device's status.

use vstd::prelude::*;
use vstd::string::*;

use crate::clients::{
    address_is, entries_of, has_address, holds, is_filter, some_row, text_holds, text_is,
    NameEntry,
};
use crate::display::{mac_form, name_key, normalize_mac, sort_key};
use crate::error::{invalid_params, is_invalid_params, ErrorKind, ToolError};
use crate::order::{rows_of, sort_keyed, stable_sort, Key, Rank};
use crate::paging::{
    as_slice, filter_accepted, filter_text, limit_accepted, next_offset, next_page,
    offset_accepted, opt_int, page, page_refused, query_accepted, take_page, trim_query,
    validate_filter, validate_page,
};
use crate::rows::{any, convert, flag_if, keep, shown_if};
use crate::text::{decimal, join2, lowercase, opt_string, opt_text, same_text, to_decimal,
    to_lowercase, trimmed};

verus! {

/// Ceiling on a summarized port table.
pub const PORT_TABLE_CEILING: usize = 128;

/// Ceiling on a summarized radio table.
pub const RADIO_TABLE_CEILING: usize = 16;

/// A floating-point number, carried by its bit pattern and never computed
/// with.
#[derive(Debug, Clone, Copy, PartialEq, Eq, Structural)]
pub struct Real {
    pub bits: u64,
}

/// A device as the inventory lists it.
pub struct DeviceSummary {
    pub id: String,
    pub name: Option<String>,
    pub model: Option<String>,
    pub mac_address: Option<String>,
    pub ip_address: Option<String>,
    pub state: Option<String>,
    pub firmware_version: Option<String>,
}

/// What a search for devices asks for.
pub struct DevicesSearchInput {
    pub query: Option<String>,
    pub state: Option<String>,
    pub offset: u16,
    pub limit: u16,
}

/// One device row.
pub struct DeviceRow {
    pub id: String,
    pub name: Option<String>,
    pub model: Option<String>,
    pub mac: Option<String>,
    pub ip: Option<String>,
    pub state: Option<String>,
    pub firmware_version: Option<String>,
}

/// One page of devices.
pub struct DevicesSearchOutput {
    pub devices: Vec<DeviceRow>,
    pub total_matches: u64,
    pub next_offset: Option<u16>,
    pub inventory_truncated: Option<bool>,
}

/// One switch port of a device.
pub struct DevicePort {
    pub idx: Option<u32>,
    pub state: Option<String>,
    pub connector: Option<String>,
    pub speed_mbps: Option<u32>,
}

/// One radio of a device.
pub struct DeviceRadio {
    pub wlan_standard: Option<String>,
    pub frequency_g_hz: Option<Real>,
    pub channel: Option<u32>,
    pub channel_width_m_hz: Option<u32>,
}

/// The interface tables of a device.
pub struct DeviceInterfaces {
    pub ports: Vec<DevicePort>,
    pub radios: Vec<DeviceRadio>,
}

/// A device in detail.
pub struct DeviceDetail {
    pub id: String,
    pub name: Option<String>,
    pub model: Option<String>,
    pub mac_address: Option<String>,
    pub ip_address: Option<String>,
    pub state: Option<String>,
    pub firmware_version: Option<String>,
    pub interfaces: Option<DeviceInterfaces>,
}

/// The uplink rates of a device.
pub struct DeviceUplink {
    pub tx_rate_bps: Option<u64>,
    pub rx_rate_bps: Option<u64>,
}

/// The latest statistics of a device.
pub struct DeviceStatistics {
    pub uptime_sec: Option<u64>,
    pub cpu_utilization_pct: Option<Real>,
    pub memory_utilization_pct: Option<Real>,
    pub uplink: Option<DeviceUplink>,
}

/// The statistics a status shows.
pub struct DeviceStatisticsView {
    pub uptime_seconds: Option<u64>,
    pub cpu_utilization_pct: Option<Real>,
    pub memory_utilization_pct: Option<Real>,
    pub uplink_tx_rate_bps: Option<u64>,
    pub uplink_rx_rate_bps: Option<u64>,
}

/// One row of the port table.
pub struct DevicePortRow {
    pub idx: Option<u32>,
    pub state: Option<String>,
    pub connector: Option<String>,
    pub speed_mbps: Option<u32>,
}

/// One row of the radio table.
pub struct DeviceRadioRow {
    pub wlan_standard: Option<String>,
    pub frequency_ghz: Option<Real>,
    pub channel: Option<u32>,
    pub channel_width_mhz: Option<u32>,
}

/// One device's bounded status.
pub struct DeviceStatusOutput {
    pub id: String,
    pub name: Option<String>,
    pub model: Option<String>,
    pub mac: Option<String>,
    pub ip: Option<String>,
    pub state: Option<String>,
    pub firmware_version: Option<String>,
    pub statistics: Option<DeviceStatisticsView>,
    pub ports: Vec<DevicePortRow>,
    pub ports_truncated: Option<bool>,
    pub radios: Vec<DeviceRadioRow>,
    pub radios_truncated: Option<bool>,
}

// ---------------------------------------------------------------------------
// Names
// ---------------------------------------------------------------------------

/// The entry a device adds to the names by address.
pub open spec fn name_entry(device: DeviceSummary) -> Option<(Seq<char>, String)> {
    match (device.mac_address, device.name) {
        (Some(mac), Some(name)) => Some((mac_form(mac@), name)),
        _ => None,
    }
}

/// Access point and switch names by comparable address.
pub open spec fn device_entries(devices: Seq<DeviceSummary>) -> Seq<(Seq<char>, String)> {
    devices.filter_map(|device: DeviceSummary| name_entry(device))
}

/// Access point and switch names keyed by normalized MAC. A device without an
/// address or a name stays unresolved: absent, never wrong.
pub fn device_names_by_mac(devices: &Vec<DeviceSummary>) -> (entries: Vec<NameEntry>)
    ensures
        entries_of(entries@) == device_entries(devices@),
{
    let mut entries: Vec<NameEntry> = Vec::new();
    let mut i: usize = 0;
    assert(entries_of(entries@) =~= device_entries(devices@.take(0)));
    while i < devices.len()
        invariant
            i <= devices@.len(),
            entries_of(entries@) == device_entries(devices@.take(i as int)),
        decreases devices@.len() - i,
    {
        let ghost prior = entries_of(entries@);
        assert(devices@.take(i + 1).drop_last() =~= devices@.take(i as int));
        assert(devices@.take(i + 1).last() == devices@[i as int]);
        if let (Some(mac), Some(name)) = (&devices[i].mac_address, &devices[i].name) {
            let entry = NameEntry { key: normalize_mac(mac.as_str()), name: name.clone() };
            let ghost added = (entry.key@, entry.name);
            entries.push(entry);
            assert(entries_of(entries@) =~= prior + seq![added]);
        }
        i += 1;
    }
    assert(devices@.take(i as int) =~= devices@);
    entries
}

// ---------------------------------------------------------------------------
// Search
// ---------------------------------------------------------------------------

/// Whether a device meets the filters.
pub open spec fn device_meets(
    device: DeviceSummary,
    query: Option<Seq<char>>,
    state: Option<Seq<char>>,
) -> bool {
    &&& query matches Some(needle) ==> (holds(opt_string(device.name), needle) || holds(
        opt_string(device.model),
        needle,
    ) || holds(opt_string(device.mac_address), needle) || holds(
        opt_string(device.ip_address),
        needle,
    ))
    &&& state matches Some(wanted) ==> is_filter(opt_string(device.state), wanted)
}

/// Whether a device meets the filters.
pub fn device_matches(device: &DeviceSummary, query: Option<&str>, state: Option<&str>) -> (result:
    bool)
    ensures
        result == device_meets(*device, opt_text(query), opt_text(state)),
{
    if let Some(query) = query {
        if !(text_holds(&device.name, query) || text_holds(&device.model, query) || text_holds(
            &device.mac_address,
            query,
        ) || text_holds(&device.ip_address, query)) {
            return false;
        }
    }
    if let Some(state) = state {
        if !text_is(&device.state, state) {
            return false;
        }
    }
    true
}

/// The filter a search applies.
pub open spec fn device_filter(query: Option<Seq<char>>, state: Option<Seq<char>>) -> spec_fn(
    DeviceSummary,
) -> bool {
    |device: DeviceSummary| device_meets(device, query, state)
}

/// What devices are ordered by: name, then id.
pub open spec fn device_rank(device: DeviceSummary) -> Rank {
    Rank { rank: 0, first: name_key(opt_string(device.name)), second: Some(device.id@) }
}

/// The order of devices.
pub open spec fn device_order() -> spec_fn(DeviceSummary) -> Rank {
    |device: DeviceSummary| device_rank(device)
}

/// The devices a search finds, in order.
pub open spec fn found_devices(devices: Seq<DeviceSummary>, input: DevicesSearchInput) -> Seq<
    DeviceSummary,
> {
    stable_sort(
        devices.filter(
            device_filter(filter_text(opt_string(input.query)), filter_text(opt_string(input.state))),
        ),
        device_order(),
    )
}

/// Whether a search may be made at all.
pub open spec fn device_search_accepted(input: DevicesSearchInput) -> bool {
    &&& limit_accepted(input.limit as int)
    &&& offset_accepted(input.offset as int)
    &&& filter_accepted(opt_string(input.query))
    &&& filter_accepted(opt_string(input.state))
}

/// Refuses a search whose page or filters are out of bounds.
pub fn check_devices_search(input: &DevicesSearchInput) -> (result: Result<(), ToolError>)
    ensures
        result is Ok <==> device_search_accepted(*input),
        result matches Err(error) ==> page_refused(error, input.offset as int, input.limit as int),
{
    if let Err(error) = validate_page(input.offset, input.limit) {
        return Err(error);
    }
    if let Err(error) = validate_filter(as_slice(&input.query)) {
        return Err(error);
    }
    if let Err(error) = validate_filter(as_slice(&input.state)) {
        return Err(error);
    }
    Ok(())
}

/// The row a device is shown as.
pub open spec fn device_row_of(device: DeviceSummary) -> DeviceRow {
    DeviceRow {
        id: device.id,
        name: device.name,
        model: device.model,
        mac: device.mac_address,
        ip: device.ip_address,
        state: device.state,
        firmware_version: device.firmware_version,
    }
}

/// The row a device is shown as.
pub fn device_row(device: DeviceSummary) -> (row: DeviceRow)
    ensures
        row == device_row_of(device),
{
    DeviceRow {
        id: device.id,
        name: device.name,
        model: device.model,
        mac: device.mac_address,
        ip: device.ip_address,
        state: device.state,
        firmware_version: device.firmware_version,
    }
}

/// The page of devices a search asks for, or the refusal of the search.
pub fn devices_search(
    devices: Vec<DeviceSummary>,
    inventory_truncated: bool,
    input: &DevicesSearchInput,
) -> (result: Result<DevicesSearchOutput, ToolError>)
    ensures
        result is Ok <==> device_search_accepted(*input),
        result matches Err(error) ==> page_refused(error, input.offset as int, input.limit as int),
        result matches Ok(output) ==> {
            let found = found_devices(devices@, *input);
            let shown = page(found, input.offset as int, input.limit as int);
            &&& output.devices@ == shown.map_values(|device: DeviceSummary| device_row_of(device))
            &&& output.total_matches == found.len()
            &&& opt_int(output.next_offset) == next_page(
                input.offset as int,
                shown.len() as int,
                found.len() as int,
            )
            &&& output.inventory_truncated == shown_if(inventory_truncated)
        },
{
    if let Err(error) = check_devices_search(input) {
        return Err(error);
    }
    let query = match validate_filter(as_slice(&input.query)) {
        Ok(query) => query,
        Err(error) => {
            return Err(error);
        },
    };
    let state = match validate_filter(as_slice(&input.state)) {
        Ok(state) => state,
        Err(error) => {
            return Err(error);
        },
    };
    let query = as_slice(&query);
    let state = as_slice(&state);
    let test = |device: &DeviceSummary| -> (answer: bool)
        ensures
            answer == device_meets(*device, opt_text(query), opt_text(state))
    {
        device_matches(device, query, state)
    };
    let kept = keep(devices, test, Ghost(device_filter(opt_text(query), opt_text(state))));
    let ghost all = kept@;
    let keying = |device: DeviceSummary| -> (pair: (Key, DeviceSummary))
        ensures
            pair.1 == device && pair.0@ == device_rank(device)
    {
        let first = sort_key(as_slice(&device.name));
        (Key { rank: 0, first, second: Some(device.id.clone()) }, device)
    };
    let keyed = convert(kept, keying);
    assert(rows_of(keyed@) =~= all);
    let sorted = sort_keyed(keyed, Ghost(device_order()));
    let total: usize = sorted.len();
    let offset: usize = input.offset as usize;
    let shown = take_page(sorted, offset, input.limit as usize);
    let ghost taken = shown@;
    let next = next_offset(offset, shown.len(), total);
    let conversion = |device: DeviceSummary| -> (row: DeviceRow)
        ensures
            row == device_row_of(device)
    {
        device_row(device)
    };
    let rows = convert(shown, conversion);
    assert(rows@ =~= taken.map_values(|device: DeviceSummary| device_row_of(device)));
    Ok(
        DevicesSearchOutput {
            devices: rows,
            total_matches: total as u64,
            next_offset: next,
            inventory_truncated: flag_if(inventory_truncated),
        },
    )
}

// ---------------------------------------------------------------------------
// One device
// ---------------------------------------------------------------------------

/// Trims the selector of one device; refuses one that is empty or oversized.
pub fn device_selector(raw: &str) -> (result: Result<String, ToolError>)
    ensures
        result is Ok <==> query_accepted(raw@),
        result matches Ok(selector) ==> selector@ == trimmed(raw@),
        result matches Err(error) ==> is_invalid_params(
            error,
            "device selector must be an id, MAC, or name"@,
        ),
{
    match trim_query(raw) {
        Some(selector) => Ok(selector),
        None => Err(invalid_params("device selector must be an id, MAC, or name")),
    }
}

/// The test for a device by id.
pub open spec fn device_by_id(selector: Seq<char>) -> spec_fn(DeviceSummary) -> bool {
    |device: DeviceSummary| device.id@ == selector
}

/// The test for a device by address.
pub open spec fn device_by_address(selector: Seq<char>) -> spec_fn(DeviceSummary) -> bool {
    |device: DeviceSummary| has_address(opt_string(device.mac_address), selector)
}

/// The test for a device by exact name.
pub open spec fn device_by_name(selector: Seq<char>) -> spec_fn(DeviceSummary) -> bool {
    |device: DeviceSummary| is_filter(opt_string(device.name), lowercase(selector))
}

/// The devices a selector names and whether by an identifier: those of that
/// id where there are any, else those at that address where there are any,
/// else those of that name.
pub open spec fn selected_devices(inventory: Seq<DeviceSummary>, selector: Seq<char>) -> (
    Seq<DeviceSummary>,
    bool,
) {
    if some_row(inventory, device_by_id(selector)) {
        (inventory.filter(device_by_id(selector)), true)
    } else if some_row(inventory, device_by_address(selector)) {
        (inventory.filter(device_by_address(selector)), true)
    } else {
        (inventory.filter(device_by_name(selector)), false)
    }
}

/// Tiered device selection: id, then MAC, then name, so a colliding name
/// can never shadow an identifier. The boolean reports whether the match
/// came from a globally unique identifier tier.
pub fn select_devices(inventory: Vec<DeviceSummary>, selector: &str) -> (named: (
    Vec<DeviceSummary>,
    bool,
))
    ensures
        (named.0@, named.1) == selected_devices(inventory@, selector@),
{
    let of_id = |device: &DeviceSummary| -> (answer: bool)
        ensures
            answer == (device.id@ == selector@)
    {
        same_text(device.id.as_str(), selector)
    };
    if any(&inventory, of_id, Ghost(device_by_id(selector@))) {
        return (keep(inventory, of_id, Ghost(device_by_id(selector@))), true);
    }
    let at_address = |device: &DeviceSummary| -> (answer: bool)
        ensures
            answer == has_address(opt_string(device.mac_address), selector@)
    {
        address_is(&device.mac_address, selector)
    };
    if any(&inventory, at_address, Ghost(device_by_address(selector@))) {
        return (keep(inventory, at_address, Ghost(device_by_address(selector@))), true);
    }
    let lower = to_lowercase(selector);
    let wanted = lower.as_str();
    let of_name = |device: &DeviceSummary| -> (answer: bool)
        ensures
            answer == is_filter(opt_string(device.name), wanted@)
    {
        text_is(&device.name, wanted)
    };
    (keep(inventory, of_name, Ghost(device_by_name(selector@))), false)
}

/// The refusal where no device matches.
pub open spec fn no_device_message(truncated: bool) -> Seq<char> {
    if truncated {
        "no adopted device matches the selector within the scanned inventory ceiling; use devices.search and select by id or MAC"@
    } else {
        "no adopted device matches the selector; use devices.search and select by id or MAC"@
    }
}

/// The refusal where several devices match.
pub open spec fn several_devices_message(count: nat) -> Seq<char> {
    decimal(count) + " devices match; select by id or MAC"@
}

/// The refusal of a name that may not be unique.
pub open spec fn unproven_name_message() -> Seq<char> {
    "a name selector cannot be proven unique on a truncated inventory;                  select by id or MAC"@
}

/// The one device a selector names. Ids and MACs are globally unique; a name
/// matched only within a truncated prefix cannot be proven unique across the
/// catalog.
pub fn pick_device(inventory: Vec<DeviceSummary>, truncated: bool, selector: &str) -> (result:
    Result<DeviceSummary, ToolError>)
    ensures
        ({
            let (named, by_identifier) = selected_devices(inventory@, selector@);
            match result {
                Ok(device) => named == seq![device] && (by_identifier || !truncated),
                Err(error) => if named.len() == 0 {
                    is_invalid_params(error, no_device_message(truncated))
                } else if named.len() > 1 {
                    is_invalid_params(error, several_devices_message(named.len()))
                } else {
                    truncated && !by_identifier && is_invalid_params(
                        error,
                        unproven_name_message(),
                    )
                },
            }
        }),
{
    let (named, by_identifier) = select_devices(inventory, selector);
    let mut named = named;
    if named.len() == 0 {
        return Err(
            if truncated {
                invalid_params(
                    "no adopted device matches the selector within the scanned inventory ceiling; use devices.search and select by id or MAC",
                )
            } else {
                invalid_params(
                    "no adopted device matches the selector; use devices.search and select by id or MAC",
                )
            },
        );
    }
    if named.len() > 1 {
        let count = to_decimal(named.len() as u64);
        let message = join2(count.as_str(), " devices match; select by id or MAC");
        return Err(ToolError { kind: ErrorKind::InvalidParams, message });
    }
    if truncated && !by_identifier {
        return Err(
            invalid_params(
                "a name selector cannot be proven unique on a truncated inventory;                  select by id or MAC",
            ),
        );
    }
    let ghost all = named@;
    let device = named.remove(0);
    assert(all =~= seq![device]);
    Ok(device)
}

/// What a status shows of statistics.
pub open spec fn statistics_of(statistics: DeviceStatistics) -> DeviceStatisticsView {
    DeviceStatisticsView {
        uptime_seconds: statistics.uptime_sec,
        cpu_utilization_pct: statistics.cpu_utilization_pct,
        memory_utilization_pct: statistics.memory_utilization_pct,
        uplink_tx_rate_bps: match statistics.uplink {
            Some(uplink) => uplink.tx_rate_bps,
            None => None,
        },
        uplink_rx_rate_bps: match statistics.uplink {
            Some(uplink) => uplink.rx_rate_bps,
            None => None,
        },
    }
}

/// What a status shows of statistics.
pub fn statistics_view(statistics: &DeviceStatistics) -> (view: DeviceStatisticsView)
    ensures
        view == statistics_of(*statistics),
{
    let (tx, rx): (Option<u64>, Option<u64>) = match &statistics.uplink {
        Some(uplink) => (uplink.tx_rate_bps, uplink.rx_rate_bps),
        None => (None, None),
    };
    DeviceStatisticsView {
        uptime_seconds: statistics.uptime_sec,
        cpu_utilization_pct: statistics.cpu_utilization_pct,
        memory_utilization_pct: statistics.memory_utilization_pct,
        uplink_tx_rate_bps: tx,
        uplink_rx_rate_bps: rx,
    }
}

/// The row a port is shown as.
pub open spec fn port_row(port: DevicePort) -> DevicePortRow {
    DevicePortRow {
        idx: port.idx,
        state: port.state,
        connector: port.connector,
        speed_mbps: port.speed_mbps,
    }
}

/// The row a radio is shown as.
pub open spec fn radio_row(radio: DeviceRadio) -> DeviceRadioRow {
    DeviceRadioRow {
        wlan_standard: radio.wlan_standard,
        frequency_ghz: radio.frequency_g_hz,
        channel: radio.channel,
        channel_width_mhz: radio.channel_width_m_hz,
    }
}

/// The rows of a bounded radio table.
pub open spec fn radio_rows(radios: Seq<DeviceRadio>) -> Seq<DeviceRadioRow> {
    page(radios, 0, RADIO_TABLE_CEILING as int).map_values(|radio: DeviceRadio| radio_row(radio))
}

/// The rows of a bounded port table.
pub open spec fn port_rows(ports: Seq<DevicePort>) -> Seq<DevicePortRow> {
    page(ports, 0, PORT_TABLE_CEILING as int).map_values(|port: DevicePort| port_row(port))
}

/// The rows of a bounded radio table.
pub fn summarize_radios(radios: Vec<DeviceRadio>) -> (rows: Vec<DeviceRadioRow>)
    ensures
        rows@ == radio_rows(radios@),
{
    let shown = take_page(radios, 0, RADIO_TABLE_CEILING);
    let ghost taken = shown@;
    let conversion = |radio: DeviceRadio| -> (row: DeviceRadioRow)
        ensures
            row == radio_row(radio)
    {
        DeviceRadioRow {
            wlan_standard: radio.wlan_standard,
            frequency_ghz: radio.frequency_g_hz,
            channel: radio.channel,
            channel_width_mhz: radio.channel_width_m_hz,
        }
    };
    let rows = convert(shown, conversion);
    assert(rows@ =~= taken.map_values(|radio: DeviceRadio| radio_row(radio)));
    rows
}

/// The rows of a bounded port table.
pub fn summarize_ports(ports: Vec<DevicePort>) -> (rows: Vec<DevicePortRow>)
    ensures
        rows@ == port_rows(ports@),
{
    let shown = take_page(ports, 0, PORT_TABLE_CEILING);
    let ghost taken = shown@;
    let conversion = |port: DevicePort| -> (row: DevicePortRow)
        ensures
            row == port_row(port)
    {
        DevicePortRow {
            idx: port.idx,
            state: port.state,
            connector: port.connector,
            speed_mbps: port.speed_mbps,
        }
    };
    let rows = convert(shown, conversion);
    assert(rows@ =~= taken.map_values(|port: DevicePort| port_row(port)));
    rows
}

/// The ports of a device; a device without interfaces has none.
pub open spec fn ports_of(interfaces: Option<DeviceInterfaces>) -> Seq<DevicePort> {
    match interfaces {
        Some(tables) => tables.ports@,
        None => Seq::empty(),
    }
}

/// The radios of a device; a device without interfaces has none.
pub open spec fn radios_of(interfaces: Option<DeviceInterfaces>) -> Seq<DeviceRadio> {
    match interfaces {
        Some(tables) => tables.radios@,
        None => Seq::empty(),
    }
}

/// The statistics a status shows, where there are any.
pub open spec fn opt_statistics(statistics: Option<DeviceStatistics>) -> Option<
    DeviceStatisticsView,
> {
    match statistics {
        Some(inner) => Some(statistics_of(inner)),
        None => None,
    }
}

/// One device's status. Statistics are best-effort: an offline device still
/// reports identity and state, with `statistics` absent.
pub fn devices_status(detail: DeviceDetail, statistics: Option<DeviceStatistics>) -> (output:
    DeviceStatusOutput)
    ensures
        output == (DeviceStatusOutput {
            id: detail.id,
            name: detail.name,
            model: detail.model,
            mac: detail.mac_address,
            ip: detail.ip_address,
            state: detail.state,
            firmware_version: detail.firmware_version,
            statistics: opt_statistics(statistics),
            ports: output.ports,
            ports_truncated: shown_if(ports_of(detail.interfaces).len() > PORT_TABLE_CEILING),
            radios: output.radios,
            radios_truncated: shown_if(radios_of(detail.interfaces).len() > RADIO_TABLE_CEILING),
        }),
        output.ports@ == port_rows(ports_of(detail.interfaces)),
        output.radios@ == radio_rows(radios_of(detail.interfaces)),
{
    let interfaces = match detail.interfaces {
        Some(tables) => tables,
        None => DeviceInterfaces { ports: Vec::new(), radios: Vec::new() },
    };
    let ports_truncated = interfaces.ports.len() > PORT_TABLE_CEILING;
    let radios_truncated = interfaces.radios.len() > RADIO_TABLE_CEILING;
    let statistics = match &statistics {
        Some(inner) => Some(statistics_view(inner)),
        None => None,
    };
    DeviceStatusOutput {
        id: detail.id,
        name: detail.name,
        model: detail.model,
        mac: detail.mac_address,
        ip: detail.ip_address,
        state: detail.state,
        firmware_version: detail.firmware_version,
        statistics,
        ports: summarize_ports(interfaces.ports),
        ports_truncated: flag_if(ports_truncated),
        radios: summarize_radios(interfaces.radios),
        radios_truncated: flag_if(radios_truncated),
    }
}

/// A name never shadows an identifier: where some device has the selected id,
/// every device selected has it; where none has and some device is at the
/// selected address, every device selected is at it.
pub proof fn law_name_never_shadows_an_identifier(
    inventory: Seq<DeviceSummary>,
    selector: Seq<char>,
    i: int,
)
    requires
        0 <= i < selected_devices(inventory, selector).0.len(),
    ensures
        ({
            let (named, by_identifier) = selected_devices(inventory, selector);
            &&& some_row(inventory, device_by_id(selector)) ==> named[i].id@ == selector
            &&& by_identifier ==> named[i].id@ == selector || has_address(
                opt_string(named[i].mac_address),
                selector,
            )
            &&& by_identifier <==> some_row(inventory, device_by_id(selector)) || some_row(
                inventory,
                device_by_address(selector),
            )
        }),
{
    broadcast use Seq::lemma_filter_pred;

    let (named, by_identifier) = selected_devices(inventory, selector);
    if some_row(inventory, device_by_id(selector)) {
        assert(device_by_id(selector)(inventory.filter(device_by_id(selector))[i]));
    } else if some_row(inventory, device_by_address(selector)) {
        assert(device_by_address(selector)(inventory.filter(device_by_address(selector))[i]));
    }
}

} // verus!
