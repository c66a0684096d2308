//! What holds of searches for connected clients and of one client's context.

use vstd::prelude::*;
use vstd::string::*;

use crate::clients::{
    address_is, check_clients_search, client_events, client_is_connected, client_matches,
    client_name, client_order, client_row, client_selector, clients_context, clients_page,
    clients_search, concerns, connection_matches, entries_of, find_name, found_clients, name_at,
    needs_access_points, newest_first, pick_client, recent_events, resolve_name, search_filter,
    select_clients, text_holds, text_is, ActiveClient, ClientContextOutput, ClientPage, ClientRow,
    ClientsSearchInput, ClientsSearchOutput, ConnectionKind, DetailLevel, LegacyEvent, NameEntry,
};
use crate::display::mac_form;
use crate::error::{ErrorKind, ToolError};
use crate::order::lemma_sorted_matches;
use crate::paging::filter_text;
use crate::text::{byte_len, contains, lowercase, opt_string, precedes, trimmed};
use crate::text_laws::is_blank;

verus! {

// ---------------------------------------------------------------------------
// Search
// ---------------------------------------------------------------------------

/// A search is made exactly where its page is in bounds and each filter it
/// has is neither blank nor too long.
pub proof fn law_client_searches_are_checked(
    clients: Vec<ActiveClient>,
    input: &ClientsSearchInput,
    result: Result<ClientPage, ToolError>,
)
    requires
        call_ensures(clients_page, (clients, input), result),
    ensures
        result is Ok <==> {
            &&& 1 <= input.limit <= 200
            &&& input.offset <= 10_000
            &&& input.query matches Some(query) ==> !is_blank(query@) && byte_len(trimmed(query@))
                <= 128
            &&& input.ssid matches Some(ssid) ==> !is_blank(ssid@) && byte_len(trimmed(ssid@))
                <= 128
        },
        result matches Err(error) ==> error.kind == ErrorKind::InvalidParams,
{
    if let Some(query) = input.query {
        crate::text_laws::law_trimming_takes_white_space_off_the_ends(query@);
    }
    if let Some(ssid) = input.ssid {
        crate::text_laws::law_trimming_takes_white_space_off_the_ends(ssid@);
    }
}

/// A query finds a client by its name, its hostname, its MAC or its IP
/// address, whatever the case, and by nothing else; an SSID is matched whole,
/// a VLAN by its number, and a medium only where the client states it. Every
/// client that meets all of what is asked is found as often as it is
/// connected, and no other.
pub proof fn law_client_search_finds_exactly_what_is_asked_for(
    clients: Seq<ActiveClient>,
    input: ClientsSearchInput,
    client: ActiveClient,
)
    ensures
        ({
            let by_query = input.query matches Some(query) ==> {
                let needle = lowercase(trimmed(query@));
                ||| client.name matches Some(name) && contains(lowercase(name@), needle)
                ||| client.hostname matches Some(host) && contains(lowercase(host@), needle)
                ||| client.mac matches Some(mac) && contains(lowercase(mac@), needle)
                ||| client.ip matches Some(ip) && contains(lowercase(ip@), needle)
            };
            let by_ssid = input.ssid matches Some(ssid) ==> client.essid is Some && lowercase(
                client.essid->Some_0@,
            ) == lowercase(trimmed(ssid@));
            let by_vlan = input.vlan matches Some(vlan) ==> client.vlan == Some(vlan);
            let by_medium = match input.connection {
                None => true,
                Some(ConnectionKind::Wired) => client.is_wired == Some(true),
                Some(ConnectionKind::Wireless) => client.is_wired == Some(false),
            };
            found_clients(clients, input).to_multiset().count(client) == if by_query && by_ssid
                && by_vlan && by_medium {
                clients.to_multiset().count(client)
            } else {
                0
            }
        }),
{
    let test = search_filter(
        filter_text(opt_string(input.query)),
        filter_text(opt_string(input.ssid)),
        input.vlan,
        input.connection,
    );
    lemma_sorted_matches(clients, test, client_order(), client);
}

/// A search with a query alone finds a client exactly where one of its name,
/// hostname, MAC or IP address holds the query.
pub proof fn law_query_finds_by_each_field(
    clients: Seq<ActiveClient>,
    input: ClientsSearchInput,
    client: ActiveClient,
    needle: Seq<char>,
)
    requires
        clients.contains(client),
        input.query is Some,
        needle == lowercase(trimmed(input.query->Some_0@)),
        input.ssid is None,
        input.vlan is None,
        input.connection is None,
    ensures
        client.name is Some && contains(lowercase(client.name->Some_0@), needle) ==> found_clients(
            clients,
            input,
        ).contains(client),
        client.hostname is Some && contains(lowercase(client.hostname->Some_0@), needle)
            ==> found_clients(clients, input).contains(client),
        client.mac is Some && contains(lowercase(client.mac->Some_0@), needle) ==> found_clients(
            clients,
            input,
        ).contains(client),
        client.ip is Some && contains(lowercase(client.ip->Some_0@), needle) ==> found_clients(
            clients,
            input,
        ).contains(client),
        found_clients(clients, input).contains(client) ==> {
            ||| client.name is Some && contains(lowercase(client.name->Some_0@), needle)
            ||| client.hostname is Some && contains(lowercase(client.hostname->Some_0@), needle)
            ||| client.mac is Some && contains(lowercase(client.mac->Some_0@), needle)
            ||| client.ip is Some && contains(lowercase(client.ip->Some_0@), needle)
        },
{
    let test = search_filter(Some(needle), None, None, None);
    lemma_sorted_matches(clients, test, client_order(), client);
}

/// The text clients are ordered by: the name, or else the hostname, in
/// lowercase.
pub open spec fn order_text(client: ActiveClient) -> Seq<char> {
    lowercase(
        if client.name is Some {
            client.name->Some_0@
        } else if client.hostname is Some {
            client.hostname->Some_0@
        } else {
            Seq::empty()
        },
    )
}

/// Found clients stand by name, or else hostname, in lowercase; those of one
/// name stand by their MAC, and those without one first.
pub proof fn law_found_clients_stand_by_name_and_address(
    clients: Seq<ActiveClient>,
    input: ClientsSearchInput,
    i: int,
    j: int,
)
    requires
        0 <= i < j < found_clients(clients, input).len(),
    ensures
        ({
            let first = found_clients(clients, input)[i];
            let second = found_clients(clients, input)[j];
            &&& !precedes(order_text(second), order_text(first))
            &&& order_text(second) == order_text(first) && first.mac is Some ==> second.mac is Some
                && !precedes(second.mac->Some_0@, first.mac->Some_0@)
        }),
{
    let test = search_filter(
        filter_text(opt_string(input.query)),
        filter_text(opt_string(input.ssid)),
        input.vlan,
        input.connection,
    );
    let found = found_clients(clients, input);
    lemma_sorted_matches(clients, test, client_order(), found[i]);
    assert(!crate::order::before(client_order()(found[j]), client_order()(found[i])));
}

/// The page of a search holds the found clients from its offset on, its total
/// counts them all, and the next page begins behind its last row.
pub proof fn law_client_page_shows_what_was_found(
    clients: Vec<ActiveClient>,
    input: &ClientsSearchInput,
    result: Result<ClientPage, ToolError>,
)
    requires
        call_ensures(clients_page, (clients, input), result),
        result is Ok,
    ensures
        ({
            let found = found_clients(clients@, *input);
            let shown = result->Ok_0;
            let rows = shown.clients@;
            &&& shown.total == found.len()
            &&& forall|i: int| 0 <= i < rows.len() ==> #[trigger] rows[i] == found[input.offset + i]
            &&& rows.len() <= input.limit
            &&& rows.len() < input.limit ==> input.offset + rows.len() >= found.len()
            &&& shown.next_offset is Some <==> input.offset + rows.len() < found.len()
                && input.offset + rows.len() <= 10_000
            &&& shown.next_offset matches Some(next) ==> next == input.offset + rows.len()
        }),
{
}

/// A row shows its client: each field stands for the client's own field of
/// that meaning, and the fields of an association only at full detail.
pub proof fn law_client_row_shows_its_client(
    client: ActiveClient,
    entries: &Vec<NameEntry>,
    detail: DetailLevel,
    row: ClientRow,
)
    requires
        call_ensures(client_row, (client, entries, detail), row),
    ensures
        client.name is Some ==> row.name == client.name,
        client.name is None ==> row.name == client.hostname,
        row.hostname == client.hostname,
        row.mac == client.mac,
        row.ip == client.ip,
        client.is_wired == Some(true) ==> row.connection@ == "wired"@,
        client.is_wired == Some(false) ==> row.connection@ == "wireless"@,
        client.is_wired is None ==> row.connection@ == "unknown"@,
        row.ssid == client.essid,
        row.vlan == client.vlan,
        client.ap_mac is None ==> row.ap_name is None,
        client.ap_mac matches Some(ap) ==> row.ap_name == name_at(
            entries_of(entries@),
            mac_form(ap@),
        ),
        detail == DetailLevel::Full ==> {
            &&& row.signal_dbm == client.signal
            &&& row.network == client.network
            &&& row.oui == client.oui
            &&& row.uptime_seconds == client.uptime
            &&& row.tx_bytes == client.tx_bytes
            &&& row.rx_bytes == client.rx_bytes
            &&& row.fixed_ip == client.fixed_ip
        },
        detail == DetailLevel::Concise ==> {
            &&& row.signal_dbm is None
            &&& row.network is None
            &&& row.oui is None
            &&& row.uptime_seconds is None
            &&& row.tx_bytes is None
            &&& row.rx_bytes is None
            &&& row.fixed_ip is None
        },
{
}

/// A search shows a row for each client of its page, in order, as that client
/// is shown alone, and hands on its total and its next page.
pub proof fn law_client_rows_stand_for_the_page(
    shown: ClientPage,
    entries: &Vec<NameEntry>,
    truncated: bool,
    detail: DetailLevel,
    output: ClientsSearchOutput,
    i: int,
    row: ClientRow,
)
    requires
        call_ensures(clients_search, (shown, entries, truncated, detail), output),
        0 <= i < shown.clients@.len(),
        call_ensures(client_row, (shown.clients@[i], entries, detail), row),
    ensures
        output.clients@.len() == shown.clients@.len(),
        output.clients@[i] == row,
        output.total_matches == shown.total,
        output.next_offset == shown.next_offset,
        output.ap_lookup_truncated == if truncated {
            Some(true)
        } else {
            None
        },
{
}

/// Access points are looked up exactly where a row of the page has one.
pub proof fn law_access_points_are_read_where_a_row_has_one(
    clients: &Vec<ActiveClient>,
    needed: bool,
)
    requires
        call_ensures(needs_access_points, (clients,), needed),
    ensures
        !needed <==> forall|i: int| 0 <= i < clients@.len() ==> (#[trigger] clients@[i]).ap_mac is None,
{
}

/// The name found under a key is that of the last entry for it, and none is
/// found where there is no entry for it.
pub proof fn law_names_are_found_under_their_keys(
    entries: &Vec<NameEntry>,
    key: &str,
    name: Option<String>,
)
    requires
        call_ensures(find_name, (entries, key), name),
    ensures
        name is None <==> forall|i: int|
            0 <= i < entries@.len() ==> (#[trigger] entries@[i]).key@ != key@,
        name matches Some(found) ==> exists|k: int|
            {
                &&& 0 <= k < entries@.len()
                &&& (#[trigger] entries@[k]).key@ == key@
                &&& entries@[k].name == found
                &&& forall|i: int| k < i < entries@.len() ==> (#[trigger] entries@[i]).key@ != key@
            },
{
    lemma_last_entry(entries@, key@);
}

proof fn lemma_last_entry(entries: Seq<NameEntry>, key: Seq<char>)
    ensures
        ({
            let name = name_at(entries_of(entries), key);
            &&& name is None <==> forall|i: int|
                0 <= i < entries.len() ==> (#[trigger] entries[i]).key@ != key
            &&& name matches Some(found) ==> exists|k: int|
                {
                    &&& 0 <= k < entries.len()
                    &&& (#[trigger] entries[k]).key@ == key
                    &&& entries[k].name == found
                    &&& forall|i: int| k < i < entries.len() ==> (#[trigger] entries[i]).key@ != key
                }
        }),
    decreases entries.len(),
{
    if entries.len() > 0 {
        let all = entries_of(entries);
        let rest = entries.drop_last();
        assert(all.last() == (entries.last().key@, entries.last().name));
        assert(all.drop_last() =~= entries_of(rest));
        lemma_last_entry(rest, key);
        if entries.last().key@ == key {
            assert(entries[entries.len() - 1].key@ == key);
        } else {
            assert forall|i: int| 0 <= i < rest.len() implies rest[i] == entries[i] by {}
            if name_at(entries_of(rest), key) is Some {
                let found = name_at(entries_of(rest), key)->Some_0;
                let k = choose|k: int|
                    {
                        &&& 0 <= k < rest.len()
                        &&& (#[trigger] rest[k]).key@ == key
                        &&& rest[k].name == found
                        &&& forall|i: int| k < i < rest.len() ==> (#[trigger] rest[i]).key@ != key
                    };
                assert(entries[k].key@ == key);
                assert forall|i: int| k < i < entries.len() implies (#[trigger] entries[i]).key@
                    != key by {
                    if i < rest.len() {
                        assert(rest[i] == entries[i]);
                    }
                }
            } else {
                assert forall|i: int| 0 <= i < entries.len() implies (#[trigger] entries[i]).key@
                    != key by {
                    if i < rest.len() {
                        assert(rest[i] == entries[i]);
                    }
                }
            }
        }
    }
}

// ---------------------------------------------------------------------------
// Selection
// ---------------------------------------------------------------------------

/// A selector names the clients at its address, whatever the case; only where
/// there are none does it name those whose name or hostname is the selector,
/// whatever the case. Each is named as often as it is connected, and no other.
pub proof fn law_selector_names_by_address_or_else_by_name(
    clients: Vec<ActiveClient>,
    selector: &str,
    named: Vec<ActiveClient>,
    client: ActiveClient,
)
    requires
        call_ensures(select_clients, (clients, selector), named),
    ensures
        ({
            let addressed = exists|i: int|
                0 <= i < clients@.len() && (#[trigger] clients@[i]).mac is Some && mac_form(
                    clients@[i].mac->Some_0@,
                ) == mac_form(selector@);
            let here = client.mac is Some && mac_form(client.mac->Some_0@) == mac_form(selector@);
            let called = {
                ||| client.name is Some && lowercase(client.name->Some_0@) == lowercase(selector@)
                ||| client.hostname is Some && lowercase(client.hostname->Some_0@) == lowercase(
                    selector@,
                )
            };
            named@.to_multiset().count(client) == if (addressed && here) || (!addressed && called) {
                clients@.to_multiset().count(client)
            } else {
                0
            }
        }),
{
    let at = crate::clients::by_address(selector@);
    let of = crate::clients::by_name(selector@);
    crate::order::lemma_filter_count(clients@, at, client);
    crate::order::lemma_filter_count(clients@, of, client);
    let addressed = exists|i: int|
        0 <= i < clients@.len() && (#[trigger] clients@[i]).mac is Some && mac_form(
            clients@[i].mac->Some_0@,
        ) == mac_form(selector@);
    if crate::clients::some_row(clients@, at) {
        let i = choose|i: int| 0 <= i < clients@.len() && at(#[trigger] clients@[i]);
        assert(clients@[i].mac is Some);
    }
    if addressed {
        let i = choose|i: int|
            0 <= i < clients@.len() && (#[trigger] clients@[i]).mac is Some && mac_form(
                clients@[i].mac->Some_0@,
            ) == mac_form(selector@);
        assert(at(clients@[i]));
    }
}

/// One client is picked exactly where a selector names one and only one; the
/// refusal otherwise is the caller's to mend.
pub proof fn law_one_client_is_picked_where_one_is_named(
    clients: Vec<ActiveClient>,
    selector: &str,
    named: Vec<ActiveClient>,
    result: Result<ActiveClient, ToolError>,
)
    requires
        call_ensures(select_clients, (clients, selector), named),
        call_ensures(pick_client, (clients, selector), result),
    ensures
        result is Ok <==> named@.len() == 1,
        result matches Ok(client) ==> client == named@[0],
        result matches Err(error) ==> error.kind == ErrorKind::InvalidParams,
        named@.len() > 1 ==> result->Err_0.message@ == crate::text::decimal(named@.len())
            + " connected clients match; select by MAC"@,
        named@.len() == 0 ==> result->Err_0.message@
            == "no connected client matches the selector; use clients.search to list connected clients and select by MAC"@,
{
}

/// A selector is taken without the white space around it, and refused where
/// it is blank or too long.
pub proof fn law_client_selectors_are_bounded(raw: &str, result: Result<String, ToolError>)
    requires
        call_ensures(client_selector, (raw,), result),
    ensures
        result is Ok <==> !is_blank(raw@) && byte_len(trimmed(raw@)) <= 128,
        result matches Ok(selector) ==> selector@ == trimmed(raw@),
        result matches Err(error) ==> error.kind == ErrorKind::InvalidParams,
{
    crate::text_laws::law_trimming_takes_white_space_off_the_ends(raw@);
}

// ---------------------------------------------------------------------------
// Context
// ---------------------------------------------------------------------------

/// A context shows its client: each field stands for the client's own field
/// of that meaning.
pub proof fn law_context_shows_its_client(
    client: ActiveClient,
    entries: &Vec<NameEntry>,
    lookup_truncated: bool,
    events: Vec<LegacyEvent>,
    output: ClientContextOutput,
)
    requires
        call_ensures(clients_context, (client, entries, lookup_truncated, events), output),
    ensures
        output.tx_bytes == client.tx_bytes,
        output.rx_bytes == client.rx_bytes,
        client.name is Some ==> output.name == client.name,
        client.name is None ==> output.name == client.hostname,
        output.hostname == client.hostname,
        output.mac == client.mac,
        output.ip == client.ip,
        output.oui == client.oui,
        client.is_wired == Some(true) ==> output.connection@ == "wired"@,
        client.is_wired == Some(false) ==> output.connection@ == "wireless"@,
        client.is_wired is None ==> output.connection@ == "unknown"@,
        output.ssid == client.essid,
        output.vlan == client.vlan,
        output.network == client.network,
        output.ap_mac == client.ap_mac,
        client.ap_mac is None ==> output.ap_name is None,
        client.ap_mac matches Some(ap) ==> output.ap_name == name_at(
            entries_of(entries@),
            mac_form(ap@),
        ),
        output.channel == client.channel,
        output.radio == client.radio,
        output.signal_dbm == client.signal,
        output.rssi == client.rssi,
        output.uptime_seconds == client.uptime,
        output.last_seen == client.last_seen,
        output.use_fixed_ip == client.use_fixedip,
        output.fixed_ip == client.fixed_ip,
        output.recent_events_truncated == if events@.len() >= 200 {
            Some(true)
        } else {
            None
        },
        output.ap_lookup_truncated == if lookup_truncated {
            Some(true)
        } else {
            None
        },
{
}

/// A client's context agrees with its row in a search at full detail on every
/// field both have.
pub proof fn law_context_agrees_with_the_full_row(
    client: ActiveClient,
    entries: &Vec<NameEntry>,
    lookup_truncated: bool,
    events: Vec<LegacyEvent>,
    output: ClientContextOutput,
    row: ClientRow,
)
    requires
        call_ensures(clients_context, (client, entries, lookup_truncated, events), output),
        call_ensures(client_row, (client, entries, DetailLevel::Full), row),
    ensures
        output.name == row.name,
        output.hostname == row.hostname,
        output.mac == row.mac,
        output.ip == row.ip,
        output.connection == row.connection,
        output.ssid == row.ssid,
        output.vlan == row.vlan,
        output.ap_name == row.ap_name,
        output.signal_dbm == row.signal_dbm,
        output.network == row.network,
        output.oui == row.oui,
        output.uptime_seconds == row.uptime_seconds,
        output.tx_bytes == row.tx_bytes,
        output.rx_bytes == row.rx_bytes,
        output.fixed_ip == row.fixed_ip,
{
}

/// The events of a client are those whose user is at its address, whatever
/// the case, each as often as it was read; a client without an address has
/// none.
pub proof fn law_events_of_a_client_are_those_at_its_address(
    events: Seq<LegacyEvent>,
    mac: Option<String>,
    event: LegacyEvent,
)
    ensures
        client_events(events, opt_string(mac)).to_multiset().count(event) == if mac is Some
            && event.user is Some && mac_form(event.user->Some_0@) == mac_form(mac->Some_0@) {
            events.to_multiset().count(event)
        } else {
            0
        },
{
    lemma_sorted_matches(events, concerns(opt_string(mac)), newest_first(), event);
}

/// The events in a context are the client's newest, up to twenty: each row
/// shows the time, the key and the bounded message of its event, a row with a
/// time never stands behind a row without one or an older one, and fewer than
/// twenty are shown only where the client has no more.
pub proof fn law_context_shows_the_newest_events(
    client: ActiveClient,
    entries: &Vec<NameEntry>,
    lookup_truncated: bool,
    events: Vec<LegacyEvent>,
    output: ClientContextOutput,
)
    requires
        call_ensures(clients_context, (client, entries, lookup_truncated, events), output),
    ensures
        ({
            let own = client_events(events@, opt_string(client.mac));
            let rows = output.recent_events@;
            &&& rows.len() == if own.len() < 20 {
                own.len()
            } else {
                20
            }
            &&& forall|i: int|
                #![trigger rows[i]]
                0 <= i < rows.len() ==> {
                    &&& rows[i].time == own[i].time
                    &&& rows[i].key == own[i].key
                    &&& rows[i].message is Some <==> own[i].msg is Some
                    &&& own[i].msg is Some && own[i].msg->Some_0@.len() <= 256
                        ==> rows[i].message->Some_0@ == own[i].msg->Some_0@
                    &&& own[i].msg is Some && own[i].msg->Some_0@.len() > 256
                        ==> rows[i].message->Some_0@ == own[i].msg->Some_0@.take(255).push(
                        '\u{2026}',
                    )
                }
            &&& forall|i: int, j: int|
                #![trigger rows[i], own[j]]
                0 <= i < rows.len() && i < j < own.len() && own[j].time is Some
                    ==> rows[i].time is Some && own[j].time->Some_0 <= rows[i].time->Some_0
        }),
{
    let mac = opt_string(client.mac);
    let own = client_events(events@, mac);
    let shown = recent_events(events@, mac);
    let rows = output.recent_events@;
    lemma_sorted_matches(events@, concerns(mac), newest_first(), events@[0]);
    assert forall|i: int| 0 <= i < rows.len() implies shown[i] == own[i] by {}
    assert forall|i: int, j: int|
        #![trigger rows[i], own[j]]
        0 <= i < rows.len() && i < j < own.len() && own[j].time is Some implies rows[i].time is Some
        && own[j].time->Some_0 <= rows[i].time->Some_0 by {
        assert(crate::clients::shows_event(rows[i], shown[i]));
        assert(!crate::order::before(newest_first()(own[j]), newest_first()(own[i])));
    }
    assert forall|i: int| #![trigger rows[i]] 0 <= i < rows.len() implies {
        &&& rows[i].time == own[i].time
        &&& rows[i].key == own[i].key
        &&& rows[i].message is Some <==> own[i].msg is Some
    } by {
        assert(crate::clients::shows_event(rows[i], shown[i]));
    }
}

/// An address is connected exactly where some client's comparable address is
/// it.
pub proof fn law_connected_addresses_are_those_of_clients(
    clients: &Vec<ActiveClient>,
    mac: &str,
    connected: bool,
)
    requires
        call_ensures(client_is_connected, (clients, mac), connected),
    ensures
        !connected <==> forall|i: int|
            0 <= i < clients@.len() && (#[trigger] clients@[i]).mac is Some ==> mac_form(
                clients@[i].mac->Some_0@,
            ) != mac@,
{
    if !connected {
        assert forall|i: int|
            0 <= i < clients@.len() && (#[trigger] clients@[i]).mac is Some implies mac_form(
            clients@[i].mac->Some_0@,
        ) != mac@ by {
            assert(crate::display::opt_mac_form(opt_string(clients@[i].mac)) != Some(mac@));
        }
    }
}

// ---------------------------------------------------------------------------
// Single tests
// ---------------------------------------------------------------------------

/// A client meets a query where its name, its hostname, its MAC or its IP
/// address holds it in lowercase, an SSID where its own is the same in
/// lowercase, and a VLAN where it reports that number.
pub proof fn law_a_client_is_matched_by_its_fields(
    client: &ActiveClient,
    query: Option<&str>,
    ssid: Option<&str>,
    vlan: Option<u16>,
    result: bool,
)
    requires
        call_ensures(client_matches, (client, query, ssid, vlan), result),
    ensures
        result <==> {
            &&& query is Some ==> {
                ||| client.name is Some && contains(lowercase(client.name->Some_0@), query->Some_0@)
                ||| client.hostname is Some && contains(
                    lowercase(client.hostname->Some_0@),
                    query->Some_0@,
                )
                ||| client.mac is Some && contains(lowercase(client.mac->Some_0@), query->Some_0@)
                ||| client.ip is Some && contains(lowercase(client.ip->Some_0@), query->Some_0@)
            }
            &&& ssid is Some ==> client.essid is Some && lowercase(client.essid->Some_0@)
                == ssid->Some_0@
            &&& vlan is Some ==> client.vlan is Some && client.vlan->Some_0 == vlan->Some_0
        },
{
}

/// A medium is met only by a client that states it.
pub proof fn law_a_medium_is_met_by_clients_that_state_it(
    client: &ActiveClient,
    connection: Option<ConnectionKind>,
    result: bool,
)
    requires
        call_ensures(connection_matches, (client, connection), result),
    ensures
        connection is None ==> result,
        connection == Some(ConnectionKind::Wired) ==> (result <==> client.is_wired == Some(true)),
        connection == Some(ConnectionKind::Wireless) ==> (result <==> client.is_wired == Some(
            false,
        )),
{
}

/// A text holds a filter, or is it, once it is in lowercase; an absent text
/// does neither.
pub proof fn law_texts_are_compared_in_lowercase(
    value: &Option<String>,
    filter: &str,
    held: bool,
    whole: bool,
)
    requires
        call_ensures(text_holds, (value, filter), held),
        call_ensures(text_is, (value, filter), whole),
    ensures
        held <==> value is Some && contains(lowercase(value->Some_0@), filter@),
        whole <==> value is Some && lowercase(value->Some_0@) == filter@,
{
}

/// A client is shown by its name, or else by its hostname.
pub proof fn law_clients_are_shown_by_name(client: &ActiveClient, name: Option<String>)
    requires
        call_ensures(client_name, (client,), name),
    ensures
        client.name is Some ==> name == client.name,
        client.name is None ==> name == client.hostname,
{
}

/// An address is that of a selector where both have one comparable form, and
/// the name at an address is found under that form.
pub proof fn law_addresses_are_compared_in_one_form(
    mac: &Option<String>,
    selector: &str,
    is: bool,
    entries: &Vec<NameEntry>,
    name: Option<String>,
)
    requires
        call_ensures(address_is, (mac, selector), is),
        call_ensures(resolve_name, (entries, mac), name),
    ensures
        is <==> mac is Some && mac_form(mac->Some_0@) == mac_form(selector@),
        mac is None ==> name is None,
        mac is Some ==> name == name_at(entries_of(entries@), mac_form(mac->Some_0@)),
{
}

/// A search is checked as it is made: what the check refuses, the search
/// refuses.
pub proof fn law_the_check_of_a_client_search_decides_it(
    clients: Vec<ActiveClient>,
    input: &ClientsSearchInput,
    checked: Result<(), ToolError>,
    result: Result<ClientPage, ToolError>,
)
    requires
        call_ensures(check_clients_search, (input,), checked),
        call_ensures(clients_page, (clients, input), result),
    ensures
        checked is Ok <==> result is Ok,
        checked matches Err(error) ==> error.kind == ErrorKind::InvalidParams,
{
}

// ---------------------------------------------------------------------------
// Ties
// ---------------------------------------------------------------------------

/// Found clients of one name and one address stand in the order they came in.
pub proof fn law_equal_clients_keep_their_order(
    clients: Seq<ActiveClient>,
    input: ClientsSearchInput,
    text: Seq<char>,
    mac: Option<Seq<char>>,
)
    ensures
        ({
            let alike = |client: ActiveClient|
                order_text(client) == text && opt_string(client.mac) == mac;
            found_clients(clients, input).filter(alike) == clients.filter(
                search_filter(
                    filter_text(opt_string(input.query)),
                    filter_text(opt_string(input.ssid)),
                    input.vlan,
                    input.connection,
                ),
            ).filter(alike)
        }),
{
    let test = search_filter(
        filter_text(opt_string(input.query)),
        filter_text(opt_string(input.ssid)),
        input.vlan,
        input.connection,
    );
    let alike = |client: ActiveClient|
        order_text(client) == text && opt_string(client.mac) == mac;
    let rank = crate::order::Rank { rank: 0, first: text, second: mac };
    crate::order::law_sorting_is_stable(clients.filter(test), client_order(), rank);
    assert(crate::order::with_key(client_order(), rank) =~= alike);
}

/// Events of a client at one time stand in the order they came in.
pub proof fn law_client_events_of_one_time_keep_their_order(
    events: Seq<LegacyEvent>,
    mac: Option<Seq<char>>,
    time: Option<u64>,
)
    ensures
        client_events(events, mac).filter(|event: LegacyEvent| event.time == time)
            == events.filter(concerns(mac)).filter(|event: LegacyEvent| event.time == time),
{
    let rank = match time {
        Some(at) => crate::order::by_number(-(at as int)),
        None => crate::order::by_number(1),
    };
    let alike = |event: LegacyEvent| event.time == time;
    crate::order::law_sorting_is_stable(events.filter(concerns(mac)), newest_first(), rank);
    assert(crate::order::with_key(newest_first(), rank) =~= alike);
}

} // verus!
