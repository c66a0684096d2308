//! What holds of searches for devices and of one device's status.

use vstd::prelude::*;
use vstd::string::*;

use crate::clients::{entries_of, name_at, NameEntry};
use crate::devices::{
    check_devices_search, device_entries, device_filter, device_matches, device_names_by_mac,
    device_order, device_row, device_selector, devices_search, devices_status, found_devices,
    pick_device, select_devices, statistics_view, summarize_ports, summarize_radios, DeviceDetail,
    DevicePortRow, DeviceRadioRow, DeviceRow, DeviceStatistics, DeviceStatisticsView,
    DeviceStatusOutput, DeviceSummary, DevicesSearchInput, DevicesSearchOutput,
};
use crate::display::mac_form;
use crate::error::{ErrorKind, ToolError};
use crate::order::{lemma_filter_count, lemma_sorted_matches};
use crate::paging::filter_text;
use crate::text::{byte_len, contains, lowercase, opt_string, precedes, trimmed};
use crate::text_laws::is_blank;

verus! {

/// A query finds a device by its name, model, MAC or IP address, whatever the
/// case, and a state filter by its whole state. Every device that meets what
/// is asked is found as often as it stands in the inventory, and no other.
pub proof fn law_device_search_finds_exactly_what_is_asked_for(
    devices: Seq<DeviceSummary>,
    input: DevicesSearchInput,
    device: DeviceSummary,
)
    ensures
        ({
            let by_query = input.query matches Some(query) ==> {
                let needle = lowercase(trimmed(query@));
                ||| device.name matches Some(name) && contains(lowercase(name@), needle)
                ||| device.model matches Some(model) && contains(lowercase(model@), needle)
                ||| device.mac_address matches Some(mac) && contains(lowercase(mac@), needle)
                ||| device.ip_address matches Some(ip) && contains(lowercase(ip@), needle)
            };
            let by_state = input.state matches Some(state) ==> device.state is Some && lowercase(
                device.state->Some_0@,
            ) == lowercase(trimmed(state@));
            found_devices(devices, input).to_multiset().count(device) == if by_query && by_state {
                devices.to_multiset().count(device)
            } else {
                0
            }
        }),
{
    let test = device_filter(
        filter_text(opt_string(input.query)),
        filter_text(opt_string(input.state)),
    );
    lemma_sorted_matches(devices, test, device_order(), device);
}

/// Found devices stand by name in lowercase, those without one first, and
/// those of one name by id.
pub proof fn law_found_devices_stand_by_name_and_id(
    devices: Seq<DeviceSummary>,
    input: DevicesSearchInput,
    i: int,
    j: int,
)
    requires
        0 <= i < j < found_devices(devices, input).len(),
    ensures
        ({
            let first = found_devices(devices, input)[i];
            let second = found_devices(devices, input)[j];
            let a = lowercase(
                if first.name is Some {
                    first.name->Some_0@
                } else {
                    Seq::empty()
                },
            );
            let b = lowercase(
                if second.name is Some {
                    second.name->Some_0@
                } else {
                    Seq::empty()
                },
            );
            &&& !precedes(b, a)
            &&& a == b ==> !precedes(second.id@, first.id@)
        }),
{
    let test = device_filter(
        filter_text(opt_string(input.query)),
        filter_text(opt_string(input.state)),
    );
    let found = found_devices(devices, input);
    lemma_sorted_matches(devices, test, device_order(), found[i]);
    assert(!crate::order::before(device_order()(found[j]), device_order()(found[i])));
}

/// A device search is made exactly where its page and filters are in bounds;
/// its page shows each found device from its offset on with the device's own
/// fields, its total counts them all, and the next page begins behind its
/// last row.
pub proof fn law_device_page_shows_what_was_found(
    devices: Vec<DeviceSummary>,
    inventory_truncated: bool,
    input: &DevicesSearchInput,
    result: Result<DevicesSearchOutput, ToolError>,
)
    requires
        call_ensures(devices_search, (devices, inventory_truncated, input), result),
    ensures
        result is Ok <==> {
            &&& 1 <= input.limit <= 200
            &&& input.offset <= 10_000
            &&& input.query matches Some(query) ==> !is_blank(query@) && byte_len(trimmed(query@))
                <= 128
            &&& input.state matches Some(state) ==> !is_blank(state@) && byte_len(trimmed(state@))
                <= 128
        },
        result matches Err(error) ==> error.kind == ErrorKind::InvalidParams,
        result matches Ok(output) ==> {
            let found = found_devices(devices@, *input);
            let rows = output.devices@;
            &&& output.total_matches == found.len()
            &&& rows.len() <= input.limit
            &&& rows.len() < input.limit ==> input.offset + rows.len() >= found.len()
            &&& forall|i: int|
                #![trigger rows[i]]
                0 <= i < rows.len() ==> {
                    let device = found[input.offset + i];
                    &&& rows[i].id == device.id
                    &&& rows[i].name == device.name
                    &&& rows[i].model == device.model
                    &&& rows[i].mac == device.mac_address
                    &&& rows[i].ip == device.ip_address
                    &&& rows[i].state == device.state
                    &&& rows[i].firmware_version == device.firmware_version
                }
            &&& output.next_offset is Some <==> input.offset + rows.len() < found.len()
                && input.offset + rows.len() <= 10_000
            &&& output.next_offset matches Some(next) ==> next == input.offset + rows.len()
            &&& output.inventory_truncated == if inventory_truncated {
                Some(true)
            } else {
                None
            }
        },
{
    if let Some(text) = input.query {
        crate::text_laws::law_trimming_takes_white_space_off_the_ends(text@);
    }
    if let Some(text) = input.state {
        crate::text_laws::law_trimming_takes_white_space_off_the_ends(text@);
    }
}

/// A row shows its device's own fields.
pub proof fn law_device_row_shows_its_device(device: DeviceSummary, row: DeviceRow)
    requires
        call_ensures(device_row, (device,), row),
    ensures
        row.id == device.id,
        row.name == device.name,
        row.model == device.model,
        row.mac == device.mac_address,
        row.ip == device.ip_address,
        row.state == device.state,
        row.firmware_version == device.firmware_version,
{
}

/// A selector names the device of its id; else those at its address; else
/// those of its name, whatever the case. Only the first two are identifiers.
pub proof fn law_device_selector_names_by_id_address_or_name(
    inventory: Vec<DeviceSummary>,
    selector: &str,
    named: (Vec<DeviceSummary>, bool),
    device: DeviceSummary,
)
    requires
        call_ensures(select_devices, (inventory, selector), named),
    ensures
        ({
            let known = exists|k: int|
                0 <= k < inventory@.len() && (#[trigger] inventory@[k]).id@ == selector@;
            let addressed = exists|k: int|
                0 <= k < inventory@.len() && (#[trigger] inventory@[k]).mac_address is Some
                    && mac_form(inventory@[k].mac_address->Some_0@) == mac_form(selector@);
            let here = device.mac_address is Some && mac_form(device.mac_address->Some_0@)
                == mac_form(selector@);
            let called = device.name is Some && lowercase(device.name->Some_0@) == lowercase(
                selector@,
            );
            &&& named.1 <==> known || addressed
            &&& named.0@.to_multiset().count(device) == if (known && device.id@ == selector@) || (
            !known && addressed && here) || (!known && !addressed && called) {
                inventory@.to_multiset().count(device)
            } else {
                0
            }
        }),
{
    let by_id = crate::devices::device_by_id(selector@);
    let at = crate::devices::device_by_address(selector@);
    let of = crate::devices::device_by_name(selector@);
    lemma_filter_count(inventory@, by_id, device);
    lemma_filter_count(inventory@, at, device);
    lemma_filter_count(inventory@, of, device);
    if crate::clients::some_row(inventory@, by_id) {
        let k = choose|k: int| 0 <= k < inventory@.len() && by_id(#[trigger] inventory@[k]);
        assert(inventory@[k].id@ == selector@);
    }
    if crate::clients::some_row(inventory@, at) {
        let k = choose|k: int| 0 <= k < inventory@.len() && at(#[trigger] inventory@[k]);
        assert(inventory@[k].mac_address is Some);
    }
    if exists|k: int| 0 <= k < inventory@.len() && (#[trigger] inventory@[k]).id@ == selector@ {
        let k = choose|k: int|
            0 <= k < inventory@.len() && (#[trigger] inventory@[k]).id@ == selector@;
        assert(by_id(inventory@[k]));
    }
    if exists|k: int|
        0 <= k < inventory@.len() && (#[trigger] inventory@[k]).mac_address is Some && mac_form(
            inventory@[k].mac_address->Some_0@,
        ) == mac_form(selector@) {
        let k = choose|k: int|
            0 <= k < inventory@.len() && (#[trigger] inventory@[k]).mac_address is Some
                && mac_form(inventory@[k].mac_address->Some_0@) == mac_form(selector@);
        assert(at(inventory@[k]));
    }
}

/// One device is picked exactly where a selector names one and only one, by
/// an identifier or from a whole inventory.
pub proof fn law_one_device_is_picked_where_one_is_named(
    inventory: Vec<DeviceSummary>,
    truncated: bool,
    selector: &str,
    named: (Vec<DeviceSummary>, bool),
    result: Result<DeviceSummary, ToolError>,
)
    requires
        call_ensures(select_devices, (inventory, selector), named),
        call_ensures(pick_device, (inventory, truncated, selector), result),
    ensures
        result is Ok <==> named.0@.len() == 1 && (named.1 || !truncated),
        result matches Ok(device) ==> device == named.0@[0],
        result matches Err(error) ==> error.kind == ErrorKind::InvalidParams,
{
}

/// A device selector is taken without the white space around it, and refused
/// where it is blank or too long.
pub proof fn law_device_selectors_are_bounded(raw: &str, result: Result<String, ToolError>)
    requires
        call_ensures(device_selector, (raw,), result),
    ensures
        result is Ok <==> !is_blank(raw@) && byte_len(trimmed(raw@)) <= 128,
        result matches Ok(selector) ==> selector@ == trimmed(raw@),
        result matches Err(error) ==> error.kind == ErrorKind::InvalidParams,
{
    crate::text_laws::law_trimming_takes_white_space_off_the_ends(raw@);
}

/// Statistics are shown under their own names, and the rates of an uplink
/// only where there is one.
pub proof fn law_statistics_are_shown_as_reported(
    statistics: &DeviceStatistics,
    view: DeviceStatisticsView,
)
    requires
        call_ensures(statistics_view, (statistics,), view),
    ensures
        view.uptime_seconds == statistics.uptime_sec,
        view.cpu_utilization_pct == statistics.cpu_utilization_pct,
        view.memory_utilization_pct == statistics.memory_utilization_pct,
        statistics.uplink is None ==> view.uplink_tx_rate_bps is None
            && view.uplink_rx_rate_bps is None,
        statistics.uplink matches Some(uplink) ==> view.uplink_tx_rate_bps == uplink.tx_rate_bps
            && view.uplink_rx_rate_bps == uplink.rx_rate_bps,
{
}

/// The status of a device shows the device's own fields, the statistics as
/// they would be shown alone, and its first 128 ports and 16 radios in the
/// order they were reported, saying where there are more.
pub proof fn law_status_shows_the_device(
    detail: DeviceDetail,
    statistics: Option<DeviceStatistics>,
    output: DeviceStatusOutput,
)
    requires
        call_ensures(devices_status, (detail, statistics), output),
    ensures
        output.id == detail.id,
        output.name == detail.name,
        output.model == detail.model,
        output.mac == detail.mac_address,
        output.ip == detail.ip_address,
        output.state == detail.state,
        output.firmware_version == detail.firmware_version,
        output.statistics is Some <==> statistics is Some,
        statistics matches Some(given) ==> {
            let shown = output.statistics->Some_0;
            &&& shown.uptime_seconds == given.uptime_sec
            &&& shown.cpu_utilization_pct == given.cpu_utilization_pct
            &&& shown.memory_utilization_pct == given.memory_utilization_pct
            &&& given.uplink is None ==> shown.uplink_tx_rate_bps is None
                && shown.uplink_rx_rate_bps is None
            &&& given.uplink is Some ==> shown.uplink_tx_rate_bps
                == given.uplink->Some_0.tx_rate_bps && shown.uplink_rx_rate_bps
                == given.uplink->Some_0.rx_rate_bps
        },
        detail.interfaces is None ==> output.ports@.len() == 0 && output.radios@.len() == 0
            && output.ports_truncated is None && output.radios_truncated is None,
        detail.interfaces matches Some(tables) ==> {
            let ports = tables.ports@;
            let radios = tables.radios@;
            &&& output.ports@.len() == if ports.len() < 128 {
                ports.len()
            } else {
                128
            }
            &&& output.ports_truncated == if ports.len() > 128 {
                Some(true)
            } else {
                None
            }
            &&& forall|i: int|
                #![trigger output.ports@[i]]
                0 <= i < output.ports@.len() ==> {
                    &&& output.ports@[i].idx == ports[i].idx
                    &&& output.ports@[i].state == ports[i].state
                    &&& output.ports@[i].connector == ports[i].connector
                    &&& output.ports@[i].speed_mbps == ports[i].speed_mbps
                }
            &&& output.radios@.len() == if radios.len() < 16 {
                radios.len()
            } else {
                16
            }
            &&& output.radios_truncated == if radios.len() > 16 {
                Some(true)
            } else {
                None
            }
            &&& forall|i: int|
                #![trigger output.radios@[i]]
                0 <= i < output.radios@.len() ==> {
                    &&& output.radios@[i].wlan_standard == radios[i].wlan_standard
                    &&& output.radios@[i].frequency_ghz == radios[i].frequency_g_hz
                    &&& output.radios@[i].channel == radios[i].channel
                    &&& output.radios@[i].channel_width_mhz == radios[i].channel_width_m_hz
                }
        },
{
}

/// The name under an address is that of a device at that address which has a
/// name, and none is found where there is no such device.
pub proof fn law_device_names_stand_under_their_addresses(
    devices: &Vec<DeviceSummary>,
    entries: Vec<NameEntry>,
    form: Seq<char>,
)
    requires
        call_ensures(device_names_by_mac, (devices,), entries),
    ensures
        ({
            let name = name_at(entries_of(entries@), form);
            &&& name is Some <==> exists|k: int| #[trigger] is_named_at(devices@, k, form)
            &&& name is Some ==> exists|k: int|
                #[trigger] is_named_at(devices@, k, form) && devices@[k].name == name
        }),
{
    lemma_device_names(devices@, form);
}

/// Whether the device at a position has a name and the comparable address.
pub open spec fn is_named_at(devices: Seq<DeviceSummary>, k: int, form: Seq<char>) -> bool {
    &&& 0 <= k < devices.len()
    &&& devices[k].name is Some
    &&& devices[k].mac_address is Some
    &&& mac_form(devices[k].mac_address->Some_0@) == form
}

proof fn lemma_device_names(devices: Seq<DeviceSummary>, form: Seq<char>)
    ensures
        ({
            let name = name_at(device_entries(devices), form);
            &&& name is Some <==> exists|k: int| #[trigger] is_named_at(devices, k, form)
            &&& name is Some ==> exists|k: int|
                #[trigger] is_named_at(devices, k, form) && devices[k].name == name
        }),
    decreases devices.len(),
{
    if devices.len() > 0 {
        let rest = devices.drop_last();
        let last = devices.last();
        let end = devices.len() - 1;
        let all = device_entries(devices);
        let prior = device_entries(rest);
        lemma_device_names(rest, form);
        assert forall|k: int| 0 <= k < rest.len() implies rest[k] == devices[k] by {}
        if last.name is Some && last.mac_address is Some {
            assert(all.last() == (mac_form(last.mac_address->Some_0@), last.name->Some_0));
            assert(all.drop_last() =~= prior);
        } else {
            assert(all =~= prior);
        }
        if is_named_at(devices, end, form) {
            assert(name_at(all, form) == last.name);
        } else {
            assert(name_at(all, form) == name_at(prior, form));
            if name_at(prior, form) is Some {
                let k = choose|k: int|
                    #[trigger] is_named_at(rest, k, form) && rest[k].name == name_at(prior, form);
                assert(is_named_at(devices, k, form));
            } else if exists|k: int| #[trigger] is_named_at(devices, k, form) {
                let k = choose|k: int| #[trigger] is_named_at(devices, k, form);
                assert(is_named_at(rest, k, form));
            }
        }
    }
}

/// A device meets a query where its name, model, MAC or IP address holds it in
/// lowercase, and a state where its own is the same in lowercase.
pub proof fn law_a_device_is_matched_by_its_fields(
    device: &DeviceSummary,
    query: Option<&str>,
    state: Option<&str>,
    result: bool,
)
    requires
        call_ensures(device_matches, (device, query, state), result),
    ensures
        result <==> {
            &&& query is Some ==> {
                ||| device.name is Some && contains(lowercase(device.name->Some_0@), query->Some_0@)
                ||| device.model is Some && contains(
                    lowercase(device.model->Some_0@),
                    query->Some_0@,
                )
                ||| device.mac_address is Some && contains(
                    lowercase(device.mac_address->Some_0@),
                    query->Some_0@,
                )
                ||| device.ip_address is Some && contains(
                    lowercase(device.ip_address->Some_0@),
                    query->Some_0@,
                )
            }
            &&& state is Some ==> device.state is Some && lowercase(device.state->Some_0@)
                == state->Some_0@
        },
{
}

/// A search is checked as it is made: what the check refuses, the search
/// refuses.
pub proof fn law_the_check_of_a_device_search_decides_it(
    devices: Vec<DeviceSummary>,
    truncated: bool,
    input: &DevicesSearchInput,
    checked: Result<(), ToolError>,
    result: Result<DevicesSearchOutput, ToolError>,
)
    requires
        call_ensures(check_devices_search, (input,), checked),
        call_ensures(devices_search, (devices, truncated, input), result),
    ensures
        checked is Ok <==> result is Ok,
{
}

/// Ports and radios are shown alone as they are shown in a status.
pub proof fn law_ports_and_radios_are_shown_alone_alike(
    detail: DeviceDetail,
    statistics: Option<DeviceStatistics>,
    output: DeviceStatusOutput,
    ports: Vec<DevicePortRow>,
    radios: Vec<DeviceRadioRow>,
)
    requires
        detail.interfaces is Some,
        call_ensures(devices_status, (detail, statistics), output),
        call_ensures(summarize_ports, (detail.interfaces->Some_0.ports,), ports),
        call_ensures(summarize_radios, (detail.interfaces->Some_0.radios,), radios),
    ensures
        output.ports@ == ports@,
        output.radios@ == radios@,
{
}

/// Found devices of one name and one id stand in the order they came in.
pub proof fn law_equal_devices_keep_their_order(
    devices: Seq<DeviceSummary>,
    input: DevicesSearchInput,
    text: Seq<char>,
    id: Seq<char>,
)
    ensures
        ({
            let alike = |device: DeviceSummary|
                lowercase(
                    if device.name is Some {
                        device.name->Some_0@
                    } else {
                        Seq::empty()
                    },
                ) == text && device.id@ == id;
            found_devices(devices, input).filter(alike) == devices.filter(
                device_filter(
                    filter_text(opt_string(input.query)),
                    filter_text(opt_string(input.state)),
                ),
            ).filter(alike)
        }),
{
    let test = device_filter(
        filter_text(opt_string(input.query)),
        filter_text(opt_string(input.state)),
    );
    let alike = |device: DeviceSummary|
        lowercase(
            if device.name is Some {
                device.name->Some_0@
            } else {
                Seq::empty()
            },
        ) == text && device.id@ == id;
    let rank = crate::order::Rank { rank: 0, first: text, second: Some(id) };
    crate::order::law_sorting_is_stable(devices.filter(test), device_order(), rank);
    assert(crate::order::with_key(device_order(), rank) =~= alike);
}

/// A refused device selection says why: no device, how many, or that a name
/// proves nothing in a truncated inventory.
pub proof fn law_device_refusals_say_why(
    inventory: Vec<DeviceSummary>,
    truncated: bool,
    selector: &str,
    named: (Vec<DeviceSummary>, bool),
    result: Result<DeviceSummary, ToolError>,
)
    requires
        call_ensures(select_devices, (inventory, selector), named),
        call_ensures(pick_device, (inventory, truncated, selector), result),
        result is Err,
    ensures
        named.0@.len() == 0 && !truncated ==> result->Err_0.message@
            == "no adopted device matches the selector; use devices.search and select by id or MAC"@,
        named.0@.len() == 0 && truncated ==> result->Err_0.message@
            == "no adopted device matches the selector within the scanned inventory ceiling; use devices.search and select by id or MAC"@,
        named.0@.len() > 1 ==> result->Err_0.message@ == crate::text::decimal(named.0@.len())
            + " devices match; select by id or MAC"@,
{
}

} // verus!
