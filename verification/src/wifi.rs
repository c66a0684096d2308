//! One bounded wireless health snapshot.

use vstd::prelude::*;
use vstd::string::*;

use crate::clients::{
    client_name, entries_of, find_name, resolved_name, shown_name, ActiveClient, NameEntry,
};
use crate::devices::{
    radio_rows, radios_of, summarize_radios, DeviceDetail,
    DeviceRadio, DeviceRadioRow, DeviceSummary, RADIO_TABLE_CEILING,
};
use crate::display::{normalize_option, opt_mac_form};
use crate::error::{invalid_params, is_invalid_params, ToolError};
use crate::order::{by_number, number_key, rows_of, sort_keyed, stable_sort, Key, Rank};
use crate::paging::{page, take_page};
use crate::rows::{convert, flag_if, shown_if};
use crate::text::{opt_string, same_text};

verus! {

/// Signal below which a client counts as weak where the caller does not say.
pub const DEFAULT_WEAK_SIGNAL_DBM: i32 = -75;

/// Weak clients listed.
pub const WEAK_CLIENT_CEILING: usize = 50;

/// Neighboring access points listed.
pub const ROGUE_AP_CEILING: usize = 100;

/// Devices read in detail.
pub const AP_DETAIL_CEILING: usize = 16;

/// One access point with its load.
pub struct AccessPointHealth {
    pub name: Option<String>,
    pub mac: Option<String>,
    pub state: Option<String>,
    pub radios: Vec<DeviceRadioRow>,
    pub radios_truncated: Option<bool>,
    pub clients: u32,
    pub weak_clients: u32,
}

/// One client with a weak signal.
pub struct WeakClientRow {
    pub name: Option<String>,
    pub mac: Option<String>,
    pub ssid: Option<String>,
    pub ap_name: Option<String>,
    pub signal_dbm: i32,
    pub rssi: Option<i32>,
}

/// A neighboring access point as the controller reports it.
pub struct RogueAp {
    pub essid: Option<String>,
    pub bssid: Option<String>,
    pub channel: Option<u32>,
    pub rssi: Option<i32>,
}

/// One neighboring access point.
pub struct RogueApRow {
    pub ssid: Option<String>,
    pub bssid: Option<String>,
    pub channel: Option<u32>,
    pub rssi: Option<i32>,
}

/// The wireless health snapshot.
pub struct WifiDiagnoseOutput {
    pub weak_signal_threshold_dbm: i32,
    pub access_points_truncated: Option<bool>,
    pub access_points: Vec<AccessPointHealth>,
    pub weak_clients: Vec<WeakClientRow>,
    pub rogue_aps: Vec<RogueApRow>,
    pub rogue_aps_truncated: Option<bool>,
}

/// The signal floor a diagnosis works with.
pub open spec fn threshold_of(requested: Option<i32>) -> i32 {
    match requested {
        Some(threshold) => threshold,
        None => DEFAULT_WEAK_SIGNAL_DBM,
    }
}

/// The signal floor a diagnosis works with; refuses one outside -100 to -30.
pub fn weak_threshold(requested: Option<i32>) -> (result: Result<i32, ToolError>)
    ensures
        result is Ok <==> -100 <= threshold_of(requested) <= -30,
        result matches Ok(threshold) ==> threshold == threshold_of(requested),
        result matches Err(error) ==> is_invalid_params(
            error,
            "weakSignalThresholdDbm must be between -100 and -30"@,
        ),
{
    let threshold: i32 = match requested {
        Some(threshold) => threshold,
        None => DEFAULT_WEAK_SIGNAL_DBM,
    };
    if threshold < -100 || threshold > -30 {
        return Err(invalid_params("weakSignalThresholdDbm must be between -100 and -30"));
    }
    Ok(threshold)
}

// ---------------------------------------------------------------------------
// Load
// ---------------------------------------------------------------------------

/// Whether a client counts as wireless: a client that omits its type does.
pub open spec fn is_wireless(client: ActiveClient) -> bool {
    client.is_wired != Some(true)
}

/// Whether a client's signal is below the floor. A client that reports none
/// is not weak.
pub open spec fn is_weak(client: ActiveClient, threshold: int) -> bool {
    client.signal matches Some(signal) && signal < threshold
}

/// The association of a wireless client with an access point: its comparable
/// address, and whether the client is weak.
pub struct Association {
    pub ap: String,
    pub weak: bool,
}

/// The content of an [`Association`] of a client, where it has one.
pub open spec fn association_of(client: ActiveClient, threshold: int) -> Option<(Seq<char>, bool)> {
    match (is_wireless(client), opt_mac_form(opt_string(client.ap_mac))) {
        (true, Some(ap)) => Some((ap, is_weak(client, threshold))),
        _ => None,
    }
}

/// The associations of a list of clients.
pub open spec fn associations(clients: Seq<ActiveClient>, threshold: int) -> Seq<(Seq<char>, bool)> {
    clients.filter_map(|client: ActiveClient| association_of(client, threshold))
}

/// The contents of a list of associations.
pub open spec fn pairs_of(list: Seq<Association>) -> Seq<(Seq<char>, bool)> {
    list.map_values(|association: Association| (association.ap@, association.weak))
}

/// The row of a weak client, where a client is one. Weakness is judged
/// before association: a weak client with no reported access point counts.
pub open spec fn weak_row(
    client: ActiveClient,
    threshold: int,
    entries: Seq<(Seq<char>, String)>,
) -> Option<WeakClientRow> {
    if is_wireless(client) && is_weak(client, threshold) {
        Some(
            WeakClientRow {
                name: shown_name(client),
                mac: client.mac,
                ssid: client.essid,
                ap_name: resolved_name(entries, opt_string(client.ap_mac)),
                signal_dbm: client.signal->Some_0,
                rssi: client.rssi,
            },
        )
    } else {
        None
    }
}

/// The order of weak clients: the weakest first.
pub open spec fn signal_order() -> spec_fn(WeakClientRow) -> Rank {
    |row: WeakClientRow| by_number(row.signal_dbm as int)
}

/// The weak clients of a list, in the order of the list.
pub open spec fn weak_rows(
    clients: Seq<ActiveClient>,
    threshold: int,
    entries: Seq<(Seq<char>, String)>,
) -> Seq<WeakClientRow> {
    clients.filter_map(|client: ActiveClient| weak_row(client, threshold, entries))
}

/// The weakest clients, worst first and bounded.
pub open spec fn weakest(
    clients: Seq<ActiveClient>,
    threshold: int,
    entries: Seq<(Seq<char>, String)>,
) -> Seq<WeakClientRow> {
    page(
        stable_sort(weak_rows(clients, threshold, entries), signal_order()),
        0,
        WEAK_CLIENT_CEILING as int,
    )
}

/// The load of a wireless network: the associations, and the weakest
/// clients.
pub struct WirelessLoad {
    pub associations: Vec<Association>,
    pub weak_clients: Vec<WeakClientRow>,
}

/// Collects the associations of wireless clients, and the weakest of them,
/// worst first and bounded.
pub fn wireless_load(clients: &Vec<ActiveClient>, threshold: i32, entries: &Vec<NameEntry>) -> (load:
    WirelessLoad)
    ensures
        pairs_of(load.associations@) == associations(clients@, threshold as int),
        load.weak_clients@ == weakest(clients@, threshold as int, entries_of(entries@)),
{
    let ghost names = entries_of(entries@);
    let mut found: Vec<Association> = Vec::new();
    let mut weak_clients: Vec<(Key, WeakClientRow)> = Vec::new();
    let mut i: usize = 0;
    assert(pairs_of(found@) =~= associations(clients@.take(0), threshold as int));
    assert(rows_of(weak_clients@) =~= weak_rows(clients@.take(0), threshold as int, names));
    while i < clients.len()
        invariant
            i <= clients@.len(),
            names == entries_of(entries@),
            pairs_of(found@) == associations(clients@.take(i as int), threshold as int),
            crate::order::keyed_by(weak_clients@, signal_order()),
            rows_of(weak_clients@) == weak_rows(clients@.take(i as int), threshold as int, names),
        decreases clients@.len() - i,
    {
        let client = &clients[i];
        let ghost prior = pairs_of(found@);
        let ghost prior_weak = rows_of(weak_clients@);
        assert(clients@.take(i + 1).drop_last() =~= clients@.take(i as int));
        assert(clients@.take(i + 1).last() == clients@[i as int]);
        let wired = match client.is_wired {
            Some(wired) => wired,
            None => false,
        };
        if !wired {
            let weak = match client.signal {
                Some(signal) => signal < threshold,
                None => false,
            };
            let ap = normalize_option(&client.ap_mac);
            if weak {
                let ap_name = match &ap {
                    Some(form) => find_name(entries, form.as_str()),
                    None => None,
                };
                let signal_dbm: i32 = match client.signal {
                    Some(signal) => signal,
                    None => threshold,
                };
                let row = WeakClientRow {
                    name: client_name(client),
                    mac: client.mac.clone(),
                    ssid: client.essid.clone(),
                    ap_name,
                    signal_dbm,
                    rssi: client.rssi,
                };
                let ghost added = row;
                assert(weak_row(*client, threshold as int, names) == Some(row));
                weak_clients.push((number_key(signal_dbm as i128), row));
                assert(rows_of(weak_clients@) =~= prior_weak + seq![added]);
            }
            if let Some(ap) = ap {
                let ghost added = (ap@, weak);
                found.push(Association { ap, weak });
                assert(pairs_of(found@) =~= prior + seq![added]);
            }
        }
        i += 1;
    }
    assert(clients@.take(i as int) =~= clients@);
    let sorted = sort_keyed(weak_clients, Ghost(signal_order()));
    let weak_clients = take_page(sorted, 0, WEAK_CLIENT_CEILING);
    WirelessLoad { associations: found, weak_clients }
}

/// The associations with one access point.
pub open spec fn at_ap(mac: Seq<char>) -> spec_fn((Seq<char>, bool)) -> bool {
    |pair: (Seq<char>, bool)| pair.0 == mac
}

/// The associations of weak clients with one access point.
pub open spec fn weak_at_ap(mac: Seq<char>) -> spec_fn((Seq<char>, bool)) -> bool {
    |pair: (Seq<char>, bool)| pair.0 == mac && pair.1
}

/// Whether some wireless client is associated with a device.
pub open spec fn carries_clients(device: DeviceSummary, pairs: Seq<(Seq<char>, bool)>) -> bool {
    match opt_mac_form(opt_string(device.mac_address)) {
        Some(mac) => pairs.filter(at_ap(mac)).len() > 0,
        None => false,
    }
}

/// How many wireless clients are associated with a device, and how many of
/// them are weak.
pub open spec fn load_of(device: DeviceSummary, pairs: Seq<(Seq<char>, bool)>) -> (nat, nat) {
    match opt_mac_form(opt_string(device.mac_address)) {
        Some(mac) => (pairs.filter(at_ap(mac)).len(), pairs.filter(weak_at_ap(mac)).len()),
        None => (0, 0),
    }
}

fn count_load(device: &DeviceSummary, list: &Vec<Association>) -> (load: (usize, usize))
    ensures
        load.0 == load_of(*device, pairs_of(list@)).0,
        load.1 == load_of(*device, pairs_of(list@)).1,
        load.0 <= list@.len(),
        load.1 <= list@.len(),
{
    let mac = match normalize_option(&device.mac_address) {
        Some(mac) => mac,
        None => {
            return (0, 0);
        },
    };
    let ghost pairs = pairs_of(list@);
    let ghost all = at_ap(mac@);
    let ghost weak = weak_at_ap(mac@);
    let mut total: usize = 0;
    let mut below: usize = 0;
    let mut i: usize = 0;
    proof {
        reveal(Seq::filter);
    }
    while i < list.len()
        invariant
            i <= list@.len(),
            total <= i,
            below <= i,
            pairs == pairs_of(list@),
            all == at_ap(mac@),
            weak == weak_at_ap(mac@),
            total == pairs.take(i as int).filter(all).len(),
            below == pairs.take(i as int).filter(weak).len(),
        decreases list@.len() - i,
    {
        proof {
            reveal(Seq::filter);
            assert(pairs.take(i + 1).drop_last() =~= pairs.take(i as int));
            assert(pairs.take(i + 1).last() == (list@[i as int].ap@, list@[i as int].weak));
        }
        if same_text(list[i].ap.as_str(), mac.as_str()) {
            total += 1;
            if list[i].weak {
                below += 1;
            }
        }
        i += 1;
    }
    assert(pairs.take(i as int) =~= pairs);
    (total, below)
}

// ---------------------------------------------------------------------------
// Access points
// ---------------------------------------------------------------------------

/// The order devices are read in: those that carry clients first.
pub open spec fn scan_rank(pairs: Seq<(Seq<char>, bool)>) -> spec_fn(DeviceSummary) -> Rank {
    |device: DeviceSummary|
        by_number(
            if carries_clients(device, pairs) {
                0
            } else {
                1
            },
        )
}

/// The devices read in detail: those that carry clients first, bounded.
pub open spec fn scanned_devices(
    inventory: Seq<DeviceSummary>,
    pairs: Seq<(Seq<char>, bool)>,
) -> Seq<DeviceSummary> {
    page(stable_sort(inventory, scan_rank(pairs)), 0, AP_DETAIL_CEILING as int)
}

/// Which devices to read in detail. Detail reads are bounded; devices
/// carrying clients are read first so they are never the ones cut off.
pub fn devices_to_scan(inventory: Vec<DeviceSummary>, list: &Vec<Association>) -> (devices: Vec<
    DeviceSummary,
>)
    ensures
        devices@ == scanned_devices(inventory@, pairs_of(list@)),
{
    let ghost all = inventory@;
    let keying = |device: DeviceSummary| -> (pair: (Key, DeviceSummary))
        ensures
            pair.1 == device && pair.0@ == scan_rank(pairs_of(list@))(device)
    {
        let load = count_load(&device, list);
        let rank: i128 = if load.0 > 0 {
            0
        } else {
            1
        };
        (number_key(rank), device)
    };
    let keyed = convert(inventory, keying);
    assert(rows_of(keyed@) =~= all);
    let sorted = sort_keyed(keyed, Ghost(scan_rank(pairs_of(list@))));
    take_page(sorted, 0, AP_DETAIL_CEILING)
}

/// Whether a row shows an access point: its radios bounded, and the load of
/// the inventory row it was read for.
pub open spec fn shows_access_point(
    row: AccessPointHealth,
    device: DeviceSummary,
    detail: DeviceDetail,
    pairs: Seq<(Seq<char>, bool)>,
) -> bool {
    &&& row.name == detail.name
    &&& row.mac == detail.mac_address
    &&& row.state == detail.state
    &&& row.radios@ == radio_rows(radios_of(detail.interfaces))
    &&& row.radios_truncated == shown_if(
        radios_of(detail.interfaces).len() > RADIO_TABLE_CEILING,
    )
    &&& row.clients == load_of(device, pairs).0
    &&& row.weak_clients == load_of(device, pairs).1
}

/// Whether a device is an access point: one has radios, so an idle access
/// point appears with zero load and a switch does not appear.
pub open spec fn is_access_point(detail: DeviceDetail) -> bool {
    radios_of(detail.interfaces).len() > 0
}

/// The row of a device read in detail, where it is an access point.
pub fn access_point_health(
    device: &DeviceSummary,
    detail: DeviceDetail,
    list: &Vec<Association>,
) -> (row: Option<AccessPointHealth>)
    requires
        list@.len() <= u32::MAX,
    ensures
        row is Some <==> is_access_point(detail),
        row matches Some(shown) ==> shows_access_point(shown, *device, detail, pairs_of(list@)),
{
    let all_radios: Vec<DeviceRadio> = match detail.interfaces {
        Some(tables) => tables.radios,
        None => Vec::new(),
    };
    let radios_truncated = all_radios.len() > RADIO_TABLE_CEILING;
    let radios = summarize_radios(all_radios);
    if radios.len() == 0 {
        return None;
    }
    let load = count_load(device, list);
    Some(
        AccessPointHealth {
            name: detail.name,
            mac: detail.mac_address,
            state: detail.state,
            radios,
            radios_truncated: flag_if(radios_truncated),
            clients: load.0 as u32,
            weak_clients: load.1 as u32,
        },
    )
}

/// The access points among devices read in detail.
pub open spec fn access_points(read: Seq<(DeviceSummary, DeviceDetail)>) -> Seq<
    (DeviceSummary, DeviceDetail),
> {
    read.filter(|pair: (DeviceSummary, DeviceDetail)| is_access_point(pair.1))
}

/// The row of a neighboring access point.
pub open spec fn rogue_row(rogue: RogueAp) -> RogueApRow {
    RogueApRow {
        ssid: rogue.essid,
        bssid: rogue.bssid,
        channel: rogue.channel,
        rssi: rogue.rssi,
    }
}

/// The bounded neighboring-access-point list with its truncation signal.
pub fn rogue_section(rogues: Vec<RogueAp>) -> (section: (Vec<RogueApRow>, bool))
    ensures
        section.0@ == page(rogues@, 0, ROGUE_AP_CEILING as int).map_values(
            |rogue: RogueAp| rogue_row(rogue),
        ),
        section.1 == (rogues@.len() > ROGUE_AP_CEILING),
{
    let truncated = rogues.len() > ROGUE_AP_CEILING;
    let shown = take_page(rogues, 0, ROGUE_AP_CEILING);
    let ghost taken = shown@;
    let conversion = |rogue: RogueAp| -> (row: RogueApRow)
        ensures
            row == rogue_row(rogue)
    {
        RogueApRow {
            ssid: rogue.essid,
            bssid: rogue.bssid,
            channel: rogue.channel,
            rssi: rogue.rssi,
        }
    };
    let rows = convert(shown, conversion);
    assert(rows@ =~= taken.map_values(|rogue: RogueAp| rogue_row(rogue)));
    (rows, truncated)
}

/// The wireless health snapshot, from the load, the devices read in detail in
/// scan order, and the neighbors. Whether the access points are visibly
/// partial is known from the inventory.
pub fn wifi_diagnose(
    threshold: i32,
    load: WirelessLoad,
    read: Vec<(DeviceSummary, DeviceDetail)>,
    inventory_len: usize,
    inventory_truncated: bool,
    rogues: Vec<RogueAp>,
) -> (output: WifiDiagnoseOutput)
    requires
        load.associations@.len() <= u32::MAX,
    ensures
        output.weak_signal_threshold_dbm == threshold,
        output.access_points_truncated == shown_if(
            inventory_truncated || inventory_len > AP_DETAIL_CEILING,
        ),
        ({
            let points = access_points(read@);
            &&& output.access_points@.len() == points.len()
            &&& forall|i: int|
                0 <= i < points.len() ==> shows_access_point(
                    #[trigger] output.access_points@[i],
                    points[i].0,
                    points[i].1,
                    pairs_of(load.associations@),
                )
        }),
        output.weak_clients == load.weak_clients,
        output.rogue_aps@ == page(rogues@, 0, ROGUE_AP_CEILING as int).map_values(
            |rogue: RogueAp| rogue_row(rogue),
        ),
        output.rogue_aps_truncated == shown_if(rogues@.len() > ROGUE_AP_CEILING),
{
    let ghost all = read@;
    let ghost pairs = pairs_of(load.associations@);
    let list = load.associations;
    let mut points: Vec<AccessPointHealth> = Vec::new();
    let ghost pred = |pair: (DeviceSummary, DeviceDetail)| is_access_point(pair.1);
    proof {
        reveal(Seq::filter);
    }
    for pair in it: read
        invariant
            it.seq() == all,
            list@.len() <= u32::MAX,
            pairs == pairs_of(list@),
            pred == (|pair: (DeviceSummary, DeviceDetail)| is_access_point(pair.1)),
            points@.len() == all.take(it.index() as int).filter(pred).len(),
            forall|i: int|
                0 <= i < points@.len() ==> shows_access_point(
                    #[trigger] points@[i],
                    all.take(it.index() as int).filter(pred)[i].0,
                    all.take(it.index() as int).filter(pred)[i].1,
                    pairs,
                ),
    {
        let ghost done = it.index() as int;
        proof {
            reveal(Seq::filter);
            assert(all.take(done + 1).drop_last() =~= all.take(done));
            assert(all.take(done + 1).last() == pair);
        }
        let (device, detail) = pair;
        if let Some(row) = access_point_health(&device, detail, &list) {
            points.push(row);
        }
    }
    assert(all.take(all.len() as int) =~= all);
    let partial = inventory_truncated || inventory_len > AP_DETAIL_CEILING;
    let (rogue_aps, rogues_truncated) = rogue_section(rogues);
    WifiDiagnoseOutput {
        weak_signal_threshold_dbm: threshold,
        access_points_truncated: flag_if(partial),
        access_points: points,
        weak_clients: load.weak_clients,
        rogue_aps,
        rogue_aps_truncated: flag_if(rogues_truncated),
    }
}

/// A device that carries clients is cut off only by devices that carry
/// clients too.
pub proof fn law_loaded_devices_are_scanned_first(
    inventory: Seq<DeviceSummary>,
    pairs: Seq<(Seq<char>, bool)>,
    device: DeviceSummary,
    i: int,
)
    requires
        inventory.contains(device),
        carries_clients(device, pairs),
        !scanned_devices(inventory, pairs).contains(device),
        0 <= i < scanned_devices(inventory, pairs).len(),
    ensures
        carries_clients(scanned_devices(inventory, pairs)[i], pairs),
{
    broadcast use vstd::seq_lib::group_to_multiset_ensures;

    let key = scan_rank(pairs);
    let sorted = stable_sort(inventory, key);
    let scanned = scanned_devices(inventory, pairs);
    crate::order::law_sorting_orders_and_keeps_the_rows(inventory, key);
    assert(inventory.to_multiset().count(device) > 0);
    assert(sorted.contains(device));
    let k = choose|k: int| 0 <= k < sorted.len() && sorted[k] == device;
    if k < scanned.len() {
        assert(scanned[k] == device);
    }
    assert(scanned[i] == sorted[i]);
    assert(!crate::order::before(key(sorted[k]), key(sorted[i])));
}

/// The weak clients shown stand worst first, are bounded in number, and each
/// is below the floor.
pub proof fn law_weak_clients_stand_worst_first(
    clients: Seq<ActiveClient>,
    threshold: int,
    entries: Seq<(Seq<char>, String)>,
    i: int,
    j: int,
)
    requires
        0 <= i <= j < weakest(clients, threshold, entries).len(),
    ensures
        weakest(clients, threshold, entries)[i].signal_dbm <= weakest(
            clients,
            threshold,
            entries,
        )[j].signal_dbm < threshold,
        weakest(clients, threshold, entries).len() <= WEAK_CLIENT_CEILING,
{
    broadcast use vstd::seq_lib::group_to_multiset_ensures;

    let rows = weak_rows(clients, threshold, entries);
    let sorted = stable_sort(rows, signal_order());
    let shown = weakest(clients, threshold, entries);
    crate::order::law_sorting_orders_and_keeps_the_rows(rows, signal_order());
    assert(shown[i] == sorted[i] && shown[j] == sorted[j]);
    if i < j {
        assert(!crate::order::before(signal_order()(sorted[j]), signal_order()(sorted[i])));
    }
    assert(sorted.contains(sorted[j]));
    assert(rows.to_multiset().count(sorted[j]) > 0);
    assert(rows.contains(sorted[j]));
    let k = choose|k: int| 0 <= k < rows.len() && rows[k] == sorted[j];
    lemma_weak_rows_are_weak(clients, threshold, entries, k);
}

proof fn lemma_weak_rows_are_weak(
    clients: Seq<ActiveClient>,
    threshold: int,
    entries: Seq<(Seq<char>, String)>,
    k: int,
)
    requires
        0 <= k < weak_rows(clients, threshold, entries).len(),
    ensures
        weak_rows(clients, threshold, entries)[k].signal_dbm < threshold,
    decreases clients.len(),
{
    if clients.len() > 0 {
        let rest = weak_rows(clients.drop_last(), threshold, entries);
        if k < rest.len() {
            lemma_weak_rows_are_weak(clients.drop_last(), threshold, entries, k);
        }
    }
}

} // verus!
