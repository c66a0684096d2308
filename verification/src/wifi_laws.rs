//! What holds of the wireless health snapshot.

use vstd::prelude::*;
use vstd::string::*;

use crate::clients::{entries_of, name_at, ActiveClient, NameEntry};
use crate::devices::{DeviceDetail, DeviceSummary};
use crate::display::mac_form;
use crate::error::{ErrorKind, ToolError};
use crate::order::{law_sorting_orders_and_keeps_the_rows, stable_sort};
use crate::wifi::{
    access_point_health, associations, at_ap, devices_to_scan, pairs_of, rogue_section,
    signal_order, weak_at_ap, weak_rows, weak_threshold, wifi_diagnose, wireless_load,
    AccessPointHealth, Association, RogueAp, RogueApRow, WeakClientRow, WifiDiagnoseOutput,
    WirelessLoad,
};

verus! {

/// The floor is the one asked for, or else -75; it must lie between -100 and
/// -30.
pub proof fn law_the_signal_floor_is_the_one_asked_for(
    requested: Option<i32>,
    result: Result<i32, ToolError>,
)
    requires
        call_ensures(weak_threshold, (requested,), result),
    ensures
        requested is None ==> result is Ok && result->Ok_0 == -75,
        requested matches Some(floor) ==> {
            &&& result is Ok <==> -100 <= floor <= -30
            &&& result is Ok ==> result->Ok_0 == floor
        },
        result matches Err(error) ==> error.kind == ErrorKind::InvalidParams,
{
}

// ---------------------------------------------------------------------------
// Weak clients
// ---------------------------------------------------------------------------

/// The clients that are not wired and report a signal below a floor.
pub open spec fn below(clients: Seq<ActiveClient>, floor: int) -> Seq<ActiveClient> {
    clients.filter(
        |client: ActiveClient|
            client.is_wired != Some(true) && client.signal is Some && client.signal->Some_0 < floor,
    )
}

/// Whether a row shows a client by its own name or else hostname, its
/// address, SSID, signal and strength, and the name of its access point.
pub open spec fn shows_weak_client(
    row: WeakClientRow,
    client: ActiveClient,
    entries: Seq<(Seq<char>, String)>,
) -> bool {
    &&& row.name == if client.name is Some {
        client.name
    } else {
        client.hostname
    }
    &&& row.mac == client.mac
    &&& row.ssid == client.essid
    &&& client.ap_mac is None ==> row.ap_name is None
    &&& client.ap_mac is Some ==> row.ap_name == name_at(entries, mac_form(client.ap_mac->Some_0@))
    &&& Some(row.signal_dbm) == client.signal
    &&& row.rssi == client.rssi
}

proof fn lemma_weak_rows(
    clients: Seq<ActiveClient>,
    floor: int,
    entries: Seq<(Seq<char>, String)>,
)
    ensures
        weak_rows(clients, floor, entries).len() == below(clients, floor).len(),
        forall|i: int|
            0 <= i < below(clients, floor).len() ==> shows_weak_client(
                #[trigger] weak_rows(clients, floor, entries)[i],
                below(clients, floor)[i],
                entries,
            ),
    decreases clients.len(),
{
    reveal(Seq::filter);
    if clients.len() > 0 {
        let rest = clients.drop_last();
        lemma_weak_rows(rest, floor, entries);
        let rows = weak_rows(clients, floor, entries);
        let prior = weak_rows(rest, floor, entries);
        let all = below(clients, floor);
        assert forall|i: int| 0 <= i < all.len() implies shows_weak_client(
            #[trigger] rows[i],
            all[i],
            entries,
        ) by {
            if i < prior.len() {
                assert(rows[i] == prior[i]);
                assert(all[i] == below(rest, floor)[i]);
                assert(shows_weak_client(prior[i], below(rest, floor)[i], entries));
            }
        }
    }
}

/// Before the ceiling, the weak rows are the clients that are not wired and
/// report a signal below the floor: every one of them and no other, each
/// shown as it is, whatever the floor.
pub proof fn law_weak_rows_are_the_clients_below_the_floor(
    clients: Seq<ActiveClient>,
    floor: int,
    entries: Seq<(Seq<char>, String)>,
    client: ActiveClient,
)
    requires
        clients.contains(client),
        client.is_wired != Some(true),
        client.signal is Some,
    ensures
        client.signal->Some_0 < floor ==> exists|k: int|
            0 <= k < weak_rows(clients, floor, entries).len() && shows_weak_client(
                #[trigger] weak_rows(clients, floor, entries)[k],
                client,
                entries,
            ),
        forall|k: int|
            0 <= k < weak_rows(clients, floor, entries).len() ==> (#[trigger] weak_rows(
                clients,
                floor,
                entries,
            )[k]).signal_dbm < floor,
        weak_rows(clients, floor, entries).len() == clients.filter(
            |other: ActiveClient|
                other.is_wired != Some(true) && other.signal is Some && other.signal->Some_0
                    < floor,
        ).len(),
{
    let test = |other: ActiveClient|
        other.is_wired != Some(true) && other.signal is Some && other.signal->Some_0 < floor;
    let rows = weak_rows(clients, floor, entries);
    lemma_weak_rows(clients, floor, entries);
    assert(below(clients, floor) == clients.filter(test));
    crate::rows::lemma_filter_contains(clients, test, client);
    if client.signal->Some_0 < floor {
        let k = choose|k: int|
            0 <= k < below(clients, floor).len() && below(clients, floor)[k] == client;
        assert(shows_weak_client(rows[k], client, entries));
    }
    assert forall|k: int| 0 <= k < rows.len() implies (#[trigger] rows[k]).signal_dbm < floor by {
        assert(shows_weak_client(rows[k], below(clients, floor)[k], entries));
        let one = below(clients, floor)[k];
        assert(below(clients, floor).contains(one));
        crate::rows::lemma_filter_contains(clients, test, one);
    }
}

/// A diagnosis lists the weakest of the clients below the floor, up to fifty:
/// each row shows one of them; every one of them is shown, or fifty rows are
/// no stronger than it; and the weakest stand first.
pub proof fn law_load_lists_the_weakest_clients(
    clients: &Vec<ActiveClient>,
    floor: i32,
    entries: &Vec<NameEntry>,
    load: WirelessLoad,
)
    requires
        call_ensures(wireless_load, (clients, floor, entries), load),
    ensures
        ({
            let weak = clients@.filter(
                |client: ActiveClient|
                    client.is_wired != Some(true) && client.signal is Some && client.signal->Some_0
                        < floor,
            );
            let rows = load.weak_clients@;
            let names = entries_of(entries@);
            &&& rows.len() == if weak.len() < 50 {
                weak.len()
            } else {
                50
            }
            &&& forall|i: int|
                0 <= i < rows.len() ==> exists|k: int|
                    0 <= k < weak.len() && shows_weak_client(
                        #[trigger] rows[i],
                        #[trigger] weak[k],
                        names,
                    )
            &&& forall|k: int|
                #![trigger weak[k]]
                0 <= k < weak.len() ==> (exists|i: int|
                    0 <= i < rows.len() && shows_weak_client(#[trigger] rows[i], weak[k], names))
                    || (rows.len() == 50 && forall|i: int|
                    0 <= i < rows.len() ==> (#[trigger] rows[i]).signal_dbm
                        <= weak[k].signal->Some_0)
            &&& forall|i: int, j: int|
                0 <= i < j < rows.len() ==> (#[trigger] rows[i]).signal_dbm <= (
                #[trigger] rows[j]).signal_dbm
        }),
{
    broadcast use vstd::seq_lib::group_to_multiset_ensures;

    let names = entries_of(entries@);
    let weak = below(clients@, floor as int);
    let all = weak_rows(clients@, floor as int, names);
    let sorted = stable_sort(all, signal_order());
    let rows = load.weak_clients@;
    assert(weak == clients@.filter(
        |client: ActiveClient|
            client.is_wired != Some(true) && client.signal is Some && client.signal->Some_0 < floor,
    )) by {
        assert((|client: ActiveClient|
            client.is_wired != Some(true) && client.signal is Some && client.signal->Some_0
                < floor as int) =~= (|client: ActiveClient|
            client.is_wired != Some(true) && client.signal is Some && client.signal->Some_0
                < floor));
    }
    lemma_weak_rows(clients@, floor as int, names);
    law_sorting_orders_and_keeps_the_rows(all, signal_order());
    assert forall|i: int| 0 <= i < rows.len() implies rows[i] == sorted[i] by {}
    assert forall|i: int| 0 <= i < rows.len() implies exists|k: int|
        0 <= k < weak.len() && shows_weak_client(#[trigger] rows[i], #[trigger] weak[k], names) by {
        assert(sorted.contains(sorted[i]));
        assert(all.to_multiset().count(sorted[i]) > 0);
        assert(all.contains(sorted[i]));
        let k = choose|k: int| 0 <= k < all.len() && all[k] == sorted[i];
        assert(shows_weak_client(all[k], weak[k], names));
    }
    assert forall|k: int| #![trigger weak[k]] 0 <= k < weak.len() implies (exists|i: int|
        0 <= i < rows.len() && shows_weak_client(#[trigger] rows[i], weak[k], names)) || (rows.len()
        == 50 && forall|i: int|
        0 <= i < rows.len() ==> (#[trigger] rows[i]).signal_dbm <= weak[k].signal->Some_0) by {
        assert(shows_weak_client(all[k], weak[k], names));
        assert(all.contains(all[k]));
        assert(sorted.to_multiset().count(all[k]) > 0);
        assert(sorted.contains(all[k]));
        let at = choose|at: int| 0 <= at < sorted.len() && sorted[at] == all[k];
        if at < rows.len() {
            assert(shows_weak_client(rows[at], weak[k], names));
        } else {
            assert forall|i: int| 0 <= i < rows.len() implies (#[trigger] rows[i]).signal_dbm
                <= weak[k].signal->Some_0 by {
                assert(rows[i] == sorted[i]);
                assert(!crate::order::before(
                    signal_order()(sorted[at]),
                    signal_order()(sorted[i]),
                ));
            }
        }
    }
    assert forall|i: int, j: int| 0 <= i < j < rows.len() implies (#[trigger] rows[i]).signal_dbm
        <= (#[trigger] rows[j]).signal_dbm by {
        assert(!crate::order::before(signal_order()(sorted[j]), signal_order()(sorted[i])));
    }
}

// ---------------------------------------------------------------------------
// Load of access points
// ---------------------------------------------------------------------------

/// Whether a client that is not wired is associated with the access point at
/// a comparable address.
pub open spec fn is_at(client: ActiveClient, ap: Seq<char>) -> bool {
    client.is_wired != Some(true) && client.ap_mac is Some && mac_form(client.ap_mac->Some_0@) == ap
}

proof fn lemma_load(clients: Seq<ActiveClient>, floor: int, ap: Seq<char>)
    ensures
        associations(clients, floor).filter(at_ap(ap)).len() == clients.filter(
            |client: ActiveClient| is_at(client, ap),
        ).len(),
        associations(clients, floor).filter(weak_at_ap(ap)).len() == clients.filter(
            |client: ActiveClient|
                is_at(client, ap) && client.signal is Some && client.signal->Some_0 < floor,
        ).len(),
    decreases clients.len(),
{
    reveal(Seq::filter);
    if clients.len() > 0 {
        let rest = clients.drop_last();
        lemma_load(rest, floor, ap);
        let pairs = associations(clients, floor);
        let prior = associations(rest, floor);
        if pairs != prior {
            assert(pairs.drop_last() =~= prior);
        }
    }
}

/// An access point counts the clients that are not wired and are associated
/// with its address, and as weak those of them that report a signal below
/// the floor, whatever the floor.
pub proof fn law_access_points_count_their_clients(
    clients: &Vec<ActiveClient>,
    floor: i32,
    entries: &Vec<NameEntry>,
    load: WirelessLoad,
    device: &DeviceSummary,
    detail: DeviceDetail,
    row: Option<AccessPointHealth>,
)
    requires
        call_ensures(wireless_load, (clients, floor, entries), load),
        call_ensures(access_point_health, (device, detail, &load.associations), row),
        row is Some,
        device.mac_address is Some,
    ensures
        ({
            let ap = mac_form(device.mac_address->Some_0@);
            &&& row->Some_0.clients == clients@.filter(
                |client: ActiveClient|
                    client.is_wired != Some(true) && client.ap_mac is Some && mac_form(
                        client.ap_mac->Some_0@,
                    ) == ap,
            ).len()
            &&& row->Some_0.weak_clients == clients@.filter(
                |client: ActiveClient|
                    client.is_wired != Some(true) && client.ap_mac is Some && mac_form(
                        client.ap_mac->Some_0@,
                    ) == ap && client.signal is Some && client.signal->Some_0 < floor,
            ).len()
        }),
{
    let ap = mac_form(device.mac_address->Some_0@);
    lemma_load(clients@, floor as int, ap);
    let here = |client: ActiveClient|
        client.is_wired != Some(true) && client.ap_mac is Some && mac_form(client.ap_mac->Some_0@)
            == ap;
    let weak = |client: ActiveClient|
        client.is_wired != Some(true) && client.ap_mac is Some && mac_form(client.ap_mac->Some_0@)
            == ap && client.signal is Some && client.signal->Some_0 < floor;
    assert((|client: ActiveClient| is_at(client, ap)) =~= here);
    assert((|client: ActiveClient|
        is_at(client, ap) && client.signal is Some && client.signal->Some_0 < floor as int)
        =~= weak);
}

/// A device with a radio is an access point and any other is not; its row
/// shows the name, address and state it was read with, and its first sixteen
/// radios; one that reports no address carries no load.
pub proof fn law_access_point_rows_show_the_device(
    device: &DeviceSummary,
    detail: DeviceDetail,
    list: &Vec<Association>,
    row: Option<AccessPointHealth>,
)
    requires
        call_ensures(access_point_health, (device, detail, list), row),
    ensures
        row is Some <==> detail.interfaces is Some && detail.interfaces->Some_0.radios@.len() > 0,
        row matches Some(shown) ==> {
            let radios = detail.interfaces->Some_0.radios@;
            &&& shown.name == detail.name
            &&& shown.mac == detail.mac_address
            &&& shown.state == detail.state
            &&& shown.radios@.len() == if radios.len() < 16 {
                radios.len()
            } else {
                16
            }
            &&& shown.radios_truncated == if radios.len() > 16 {
                Some(true)
            } else {
                None
            }
            &&& forall|i: int|
                #![trigger shown.radios@[i]]
                0 <= i < shown.radios@.len() ==> {
                    &&& shown.radios@[i].wlan_standard == radios[i].wlan_standard
                    &&& shown.radios@[i].frequency_ghz == radios[i].frequency_g_hz
                    &&& shown.radios@[i].channel == radios[i].channel
                    &&& shown.radios@[i].channel_width_mhz == radios[i].channel_width_m_hz
                }
            &&& device.mac_address is None ==> shown.clients == 0 && shown.weak_clients == 0
            &&& shown.weak_clients <= shown.clients
        },
{
    if row is Some && device.mac_address is Some {
        lemma_weak_among_all(pairs_of(list@), mac_form(device.mac_address->Some_0@));
    }
}

proof fn lemma_weak_among_all(pairs: Seq<(Seq<char>, bool)>, ap: Seq<char>)
    ensures
        pairs.filter(weak_at_ap(ap)).len() <= pairs.filter(at_ap(ap)).len(),
    decreases pairs.len(),
{
    reveal(Seq::filter);
    if pairs.len() > 0 {
        lemma_weak_among_all(pairs.drop_last(), ap);
    }
}

// ---------------------------------------------------------------------------
// Devices read, neighbors and the whole
// ---------------------------------------------------------------------------

/// Up to sixteen devices are read, each of the inventory and as often as it
/// stands there; all of them where there are no more.
pub proof fn law_devices_read_come_from_the_inventory(
    inventory: Vec<DeviceSummary>,
    list: &Vec<Association>,
    devices: Vec<DeviceSummary>,
    device: DeviceSummary,
)
    requires
        call_ensures(devices_to_scan, (inventory, list), devices),
    ensures
        devices@.len() == if inventory@.len() < 16 {
            inventory@.len()
        } else {
            16
        },
        devices@.contains(device) ==> inventory@.contains(device),
        inventory@.len() <= 16 ==> devices@.to_multiset() == inventory@.to_multiset(),
{
    broadcast use vstd::seq_lib::group_to_multiset_ensures;

    let key = crate::wifi::scan_rank(pairs_of(list@));
    let sorted = stable_sort(inventory@, key);
    law_sorting_orders_and_keeps_the_rows(inventory@, key);
    if devices@.contains(device) {
        let k = choose|k: int| 0 <= k < devices@.len() && devices@[k] == device;
        assert(sorted[k] == device);
        assert(sorted.contains(device));
        assert(inventory@.to_multiset().count(device) > 0);
    }
    if inventory@.len() <= 16 {
        assert(devices@ =~= sorted);
    }
}

/// Whether some client that is not wired is associated with a device.
pub open spec fn has_client(clients: Seq<ActiveClient>, device: DeviceSummary) -> bool {
    device.mac_address is Some && exists|i: int|
        0 <= i < clients.len() && is_at(
            #[trigger] clients[i],
            mac_form(device.mac_address->Some_0@),
        )
}

proof fn lemma_has_client(clients: Seq<ActiveClient>, floor: int, device: DeviceSummary)
    ensures
        crate::wifi::carries_clients(device, associations(clients, floor)) == has_client(
            clients,
            device,
        ),
{
    if device.mac_address is Some {
        let ap = mac_form(device.mac_address->Some_0@);
        let test = |client: ActiveClient| is_at(client, ap);
        lemma_load(clients, floor, ap);
        let kept = clients.filter(test);
        if kept.len() > 0 {
            assert(kept.contains(kept[0]));
            crate::rows::lemma_filter_contains(clients, test, kept[0]);
            let i = choose|i: int| 0 <= i < clients.len() && clients[i] == kept[0];
            assert(is_at(clients[i], ap));
        }
        if has_client(clients, device) {
            let i = choose|i: int| 0 <= i < clients.len() && is_at(#[trigger] clients[i], ap);
            assert(clients.contains(clients[i]));
            crate::rows::lemma_filter_contains(clients, test, clients[i]);
            assert(kept.len() > 0);
        }
    }
}

/// A device that some client is associated with is left unread only where
/// sixteen devices are read that all have one.
pub proof fn law_devices_with_clients_are_read_first(
    clients: &Vec<ActiveClient>,
    floor: i32,
    entries: &Vec<NameEntry>,
    load: WirelessLoad,
    inventory: Vec<DeviceSummary>,
    devices: Vec<DeviceSummary>,
    device: DeviceSummary,
    i: int,
)
    requires
        call_ensures(wireless_load, (clients, floor, entries), load),
        call_ensures(devices_to_scan, (inventory, &load.associations), devices),
        inventory@.contains(device),
        has_client(clients@, device),
        !devices@.contains(device),
        0 <= i < devices@.len(),
    ensures
        devices@.len() == 16,
        has_client(clients@, devices@[i]),
{
    broadcast use vstd::seq_lib::group_to_multiset_ensures;

    let pairs = pairs_of(load.associations@);
    lemma_has_client(clients@, floor as int, device);
    lemma_has_client(clients@, floor as int, devices@[i]);
    crate::wifi::law_loaded_devices_are_scanned_first(inventory@, pairs, device, i);
    law_devices_read_come_from_the_inventory(inventory, &load.associations, devices, device);
    if inventory@.len() < 16 {
        assert(inventory@.to_multiset().count(device) > 0);
        assert(devices@.to_multiset().count(device) > 0);
    }
}

/// The first hundred neighbors are listed as they were reported, and the
/// signal says whether there were more.
pub proof fn law_neighbors_are_listed_as_reported(
    rogues: Vec<RogueAp>,
    section: (Vec<RogueApRow>, bool),
)
    requires
        call_ensures(rogue_section, (rogues,), section),
    ensures
        section.0@.len() == if rogues@.len() < 100 {
            rogues@.len()
        } else {
            100
        },
        forall|i: int|
            #![trigger section.0@[i]]
            0 <= i < section.0@.len() ==> {
                &&& section.0@[i].ssid == rogues@[i].essid
                &&& section.0@[i].bssid == rogues@[i].bssid
                &&& section.0@[i].channel == rogues@[i].channel
                &&& section.0@[i].rssi == rogues@[i].rssi
            },
        section.1 <==> rogues@.len() > 100,
{
}

/// A snapshot states the floor it worked with, hands on the weak clients,
/// says where its access points are partial, and lists the neighbors.
pub proof fn law_snapshot_holds_its_parts(
    floor: i32,
    load: WirelessLoad,
    read: Vec<(DeviceSummary, DeviceDetail)>,
    inventory_len: usize,
    inventory_truncated: bool,
    rogues: Vec<RogueAp>,
    output: WifiDiagnoseOutput,
    section: (Vec<RogueApRow>, bool),
)
    requires
        call_ensures(
            wifi_diagnose,
            (floor, load, read, inventory_len, inventory_truncated, rogues),
            output,
        ),
        call_ensures(rogue_section, (rogues,), section),
    ensures
        output.weak_signal_threshold_dbm == floor,
        output.weak_clients@ == load.weak_clients@,
        output.access_points_truncated == if inventory_truncated || inventory_len > 16 {
            Some(true)
        } else {
            None
        },
        output.rogue_aps@ == section.0@,
        output.rogue_aps_truncated == if section.1 {
            Some(true)
        } else {
            None
        },
        output.access_points@.len() == read@.filter(
            |pair: (DeviceSummary, DeviceDetail)|
                pair.1.interfaces is Some && pair.1.interfaces->Some_0.radios@.len() > 0,
        ).len(),
{
    let radios = |pair: (DeviceSummary, DeviceDetail)|
        pair.1.interfaces is Some && pair.1.interfaces->Some_0.radios@.len() > 0;
    assert((|pair: (DeviceSummary, DeviceDetail)| crate::wifi::is_access_point(pair.1)) =~= radios);
}

/// Each access point of a snapshot is shown as it is alone, in the order the
/// devices were read.
pub proof fn law_snapshot_shows_each_access_point(
    floor: i32,
    load: WirelessLoad,
    read: Vec<(DeviceSummary, DeviceDetail)>,
    inventory_len: usize,
    inventory_truncated: bool,
    rogues: Vec<RogueAp>,
    output: WifiDiagnoseOutput,
    i: int,
    row: Option<AccessPointHealth>,
)
    requires
        call_ensures(
            wifi_diagnose,
            (floor, load, read, inventory_len, inventory_truncated, rogues),
            output,
        ),
        0 <= i < read@.len(),
        forall|k: int|
            0 <= k < read@.len() ==> (#[trigger] read@[k]).1.interfaces is Some
                && read@[k].1.interfaces->Some_0.radios@.len() > 0,
        call_ensures(access_point_health, (&read@[i].0, read@[i].1, &load.associations), row),
    ensures
        output.access_points@.len() == read@.len(),
        row matches Some(alone) && {
            let shown = output.access_points@[i];
            &&& shown.name == alone.name
            &&& shown.mac == alone.mac
            &&& shown.state == alone.state
            &&& shown.radios@ == alone.radios@
            &&& shown.radios_truncated == alone.radios_truncated
            &&& shown.clients == alone.clients
            &&& shown.weak_clients == alone.weak_clients
        },
{
    let test = |pair: (DeviceSummary, DeviceDetail)| crate::wifi::is_access_point(pair.1);
    assert forall|k: int| 0 <= k < read@.len() implies test(#[trigger] read@[k]) by {}
    lemma_all_kept(read@, test);
    assert(crate::wifi::shows_access_point(
        output.access_points@[i],
        read@[i].0,
        read@[i].1,
        pairs_of(load.associations@),
    ));
}

proof fn lemma_all_kept<T>(rows: Seq<T>, test: spec_fn(T) -> bool)
    requires
        forall|k: int| 0 <= k < rows.len() ==> test(#[trigger] rows[k]),
    ensures
        rows.filter(test) == rows,
    decreases rows.len(),
{
    reveal(Seq::filter);
    if rows.len() > 0 {
        let rest = rows.drop_last();
        assert forall|k: int| 0 <= k < rest.len() implies test(#[trigger] rest[k]) by {
            assert(rest[k] == rows[k]);
        }
        lemma_all_kept(rest, test);
        assert(rest.push(rows.last()) =~= rows);
    }
}

} // verus!
