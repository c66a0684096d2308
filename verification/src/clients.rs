//! Connected clients: search, selection, and one client's context.

use vstd::prelude::*;
use vstd::string::*;

use crate::display::{
    bounded_option, connection_text, connection_word, mac_form, name_key, normalize_mac,
    normalize_option, opt_bounded, opt_mac_form, sort_key,
};
use crate::error::{invalid_params, is_invalid_params, ErrorKind, ToolError};
use crate::order::{by_number, number_key, rows_of, sort_keyed, stable_sort, Key, Rank};
use crate::paging::{
    as_slice, filter_accepted, filter_text, limit_accepted, next_offset, next_page,
    offset_accepted, opt_int, page, page_refused, query_accepted, take_page, trim_query,
    validate_filter, validate_page,
};
use crate::rows::{any, convert, flag_if, keep, shown_if};
use crate::text::{
    contains, decimal, join2, lowercase, opt_string, opt_text, same_text, text_contains,
    to_decimal, to_lowercase, trimmed,
};

verus! {

/// Legacy event rows scanned when building one client's recent events.
pub const EVENT_SCAN_LIMIT: usize = 200;

/// Recent events returned for one client.
pub const CONTEXT_EVENT_LIMIT: usize = 20;

/// A currently connected client, as the controller reports it.
pub struct ActiveClient {
    pub mac: Option<String>,
    pub name: Option<String>,
    pub hostname: Option<String>,
    pub ip: Option<String>,
    pub oui: Option<String>,
    pub is_wired: Option<bool>,
    pub essid: Option<String>,
    pub vlan: Option<u16>,
    pub network: Option<String>,
    pub ap_mac: Option<String>,
    pub channel: Option<u16>,
    pub radio: Option<String>,
    pub signal: Option<i32>,
    pub rssi: Option<i32>,
    pub uptime: Option<u64>,
    pub last_seen: Option<u64>,
    pub use_fixedip: Option<bool>,
    pub fixed_ip: Option<String>,
    pub tx_bytes: Option<u64>,
    pub rx_bytes: Option<u64>,
}

/// How much of a client a row shows.
#[derive(Debug, Clone, Copy, PartialEq, Eq, Structural)]
pub enum DetailLevel {
    Concise,
    Full,
}

/// How a client may be asked to be connected.
#[derive(Debug, Clone, Copy, PartialEq, Eq, Structural)]
pub enum ConnectionKind {
    Wired,
    Wireless,
}

/// What a search for connected clients asks for.
pub struct ClientsSearchInput {
    pub query: Option<String>,
    pub ssid: Option<String>,
    pub vlan: Option<u16>,
    pub connection: Option<ConnectionKind>,
    pub offset: u16,
    pub limit: u16,
    pub detail: DetailLevel,
}

/// One client row; association fields populate only at full detail.
pub struct ClientRow {
    pub name: Option<String>,
    pub hostname: Option<String>,
    pub mac: Option<String>,
    pub ip: Option<String>,
    pub connection: &'static str,
    pub ssid: Option<String>,
    pub vlan: Option<u16>,
    pub ap_name: Option<String>,
    pub signal_dbm: Option<i32>,
    pub network: Option<String>,
    pub oui: Option<String>,
    pub uptime_seconds: Option<u64>,
    pub tx_bytes: Option<u64>,
    pub rx_bytes: Option<u64>,
    pub fixed_ip: Option<String>,
}

/// One page of connected clients.
pub struct ClientsSearchOutput {
    pub clients: Vec<ClientRow>,
    pub total_matches: u64,
    pub next_offset: Option<u16>,
    pub ap_lookup_truncated: Option<bool>,
}

// ---------------------------------------------------------------------------
// Names by key
// ---------------------------------------------------------------------------

/// A name by what it is found under, such as an address in comparable form.
pub struct NameEntry {
    pub key: String,
    pub name: String,
}

/// The keys and names of a list of entries.
pub open spec fn entries_of(list: Seq<NameEntry>) -> Seq<(Seq<char>, String)> {
    list.map_values(|entry: NameEntry| (entry.key@, entry.name))
}

/// The name under a key: the last entry for it counts.
pub open spec fn name_at(entries: Seq<(Seq<char>, String)>, key: Seq<char>) -> Option<String>
    decreases entries.len(),
{
    if entries.len() == 0 {
        None
    } else if entries.last().0 == key {
        Some(entries.last().1)
    } else {
        name_at(entries.drop_last(), key)
    }
}

/// The name of the device at an optional address.
pub open spec fn resolved_name(
    entries: Seq<(Seq<char>, String)>,
    mac: Option<Seq<char>>,
) -> Option<String> {
    match mac {
        Some(text) => name_at(entries, mac_form(text)),
        None => None,
    }
}

/// The name under a key.
pub fn find_name(entries: &Vec<NameEntry>, key: &str) -> (name: Option<String>)
    ensures
        name == name_at(entries_of(entries@), key@),
{
    let mut left: usize = entries.len();
    let ghost all = entries_of(entries@);
    assert(all.take(all.len() as int) =~= all);
    while left > 0
        invariant
            left <= entries@.len(),
            all == entries_of(entries@),
            name_at(all, key@) == name_at(all.take(left as int), key@),
        decreases left,
    {
        let ghost here = all.take(left as int);
        assert(here.last() == (entries@[left - 1].key@, entries@[left - 1].name));
        if same_text(entries[left - 1].key.as_str(), key) {
            return Some(entries[left - 1].name.clone());
        }
        assert(here.drop_last() =~= all.take(left - 1));
        left -= 1;
    }
    None
}

/// The name of the device at an optional address.
pub fn resolve_name(entries: &Vec<NameEntry>, mac: &Option<String>) -> (name: Option<String>)
    ensures
        name == resolved_name(entries_of(entries@), opt_string(*mac)),
{
    match mac {
        Some(text) => {
            let form = normalize_mac(text.as_str());
            find_name(entries, form.as_str())
        },
        None => None,
    }
}

// ---------------------------------------------------------------------------
// Search
// ---------------------------------------------------------------------------

/// Whether an optional text holds a filter once lowercase.
pub open spec fn holds(value: Option<Seq<char>>, needle: Seq<char>) -> bool {
    value matches Some(text) && contains(lowercase(text), needle)
}

/// Whether an optional text is a filter once lowercase.
pub open spec fn is_filter(value: Option<Seq<char>>, wanted: Seq<char>) -> bool {
    value matches Some(text) && lowercase(text) == wanted
}

/// Whether an optional text holds a filter once lowercase.
pub fn text_holds(value: &Option<String>, needle: &str) -> (result: bool)
    ensures
        result == holds(opt_string(*value), needle@),
{
    match value {
        Some(text) => {
            let lower = to_lowercase(text.as_str());
            text_contains(lower.as_str(), needle)
        },
        None => false,
    }
}

/// Whether an optional text is a filter once lowercase.
pub fn text_is(value: &Option<String>, wanted: &str) -> (result: bool)
    ensures
        result == is_filter(opt_string(*value), wanted@),
{
    match value {
        Some(text) => {
            let lower = to_lowercase(text.as_str());
            same_text(lower.as_str(), wanted)
        },
        None => false,
    }
}

/// Whether a client meets the text and VLAN filters.
pub open spec fn meets_filters(
    client: ActiveClient,
    query: Option<Seq<char>>,
    ssid: Option<Seq<char>>,
    vlan: Option<u16>,
) -> bool {
    &&& query matches Some(needle) ==> (holds(opt_string(client.name), needle) || holds(
        opt_string(client.hostname),
        needle,
    ) || holds(opt_string(client.mac), needle) || holds(opt_string(client.ip), needle))
    &&& ssid matches Some(wanted) ==> is_filter(opt_string(client.essid), wanted)
    &&& vlan is Some ==> client.vlan == vlan
}

/// Whether a client meets the text and VLAN filters.
pub fn client_matches(
    client: &ActiveClient,
    query: Option<&str>,
    ssid: Option<&str>,
    vlan: Option<u16>,
) -> (result: bool)
    ensures
        result == meets_filters(*client, opt_text(query), opt_text(ssid), vlan),
{
    if let Some(query) = query {
        if !(text_holds(&client.name, query) || text_holds(&client.hostname, query) || text_holds(
            &client.mac,
            query,
        ) || text_holds(&client.ip, query)) {
            return false;
        }
    }
    if let Some(ssid) = ssid {
        if !text_is(&client.essid, ssid) {
            return false;
        }
    }
    match (vlan, client.vlan) {
        (None, _) => true,
        (Some(wanted), Some(reported)) => wanted == reported,
        (Some(_), None) => false,
    }
}

/// Whether a client is connected as asked: a filter matches only rows that
/// state their type.
pub open spec fn is_connected_as(client: ActiveClient, connection: Option<ConnectionKind>) -> bool {
    match connection {
        None => true,
        Some(ConnectionKind::Wired) => client.is_wired == Some(true),
        Some(ConnectionKind::Wireless) => client.is_wired == Some(false),
    }
}

/// A connection filter matches only rows that state their type; rows with
/// the field absent appear in unfiltered results only.
pub fn connection_matches(client: &ActiveClient, connection: Option<ConnectionKind>) -> (result:
    bool)
    ensures
        result == is_connected_as(*client, connection),
{
    match (connection, client.is_wired) {
        (None, _) => true,
        (Some(ConnectionKind::Wired), Some(wired)) => wired,
        (Some(ConnectionKind::Wireless), Some(wired)) => !wired,
        _ => false,
    }
}

/// The name a client is shown under: its alias, else its hostname.
pub open spec fn shown_name(client: ActiveClient) -> Option<String> {
    match client.name {
        Some(name) => Some(name),
        None => client.hostname,
    }
}

/// The name a client is shown under: its alias, else its hostname.
pub fn client_name(client: &ActiveClient) -> (name: Option<String>)
    ensures
        name == shown_name(*client),
{
    match &client.name {
        Some(name) => Some(name.clone()),
        None => client.hostname.clone(),
    }
}

/// What clients are ordered by: the name they are shown under, then the
/// address.
pub open spec fn client_rank(client: ActiveClient) -> Rank {
    Rank {
        rank: 0,
        first: name_key(opt_string(shown_name(client))),
        second: opt_string(client.mac),
    }
}

/// The order of clients.
pub open spec fn client_order() -> spec_fn(ActiveClient) -> Rank {
    |client: ActiveClient| client_rank(client)
}

/// Orders clients by shown name, then by address.
pub fn sort_clients(clients: Vec<ActiveClient>) -> (sorted: Vec<ActiveClient>)
    ensures
        sorted@ == stable_sort(clients@, client_order()),
{
    let keying = |client: ActiveClient| -> (pair: (Key, ActiveClient))
        ensures
            pair.1 == client && pair.0@ == client_rank(client)
    {
        let name = client_name(&client);
        let first = sort_key(as_slice(&name));
        (Key { rank: 0, first, second: client.mac.clone() }, client)
    };
    let keyed = convert(clients, keying);
    assert(rows_of(keyed@) =~= clients@);
    sort_keyed(keyed, Ghost(client_order()))
}

/// The filter a search applies.
pub open spec fn search_filter(
    query: Option<Seq<char>>,
    ssid: Option<Seq<char>>,
    vlan: Option<u16>,
    connection: Option<ConnectionKind>,
) -> spec_fn(ActiveClient) -> bool {
    |client: ActiveClient|
        meets_filters(client, query, ssid, vlan) && is_connected_as(client, connection)
}

/// The clients a search finds, in order.
pub open spec fn found_clients(clients: Seq<ActiveClient>, input: ClientsSearchInput) -> Seq<
    ActiveClient,
> {
    stable_sort(
        clients.filter(
            search_filter(
                filter_text(opt_string(input.query)),
                filter_text(opt_string(input.ssid)),
                input.vlan,
                input.connection,
            ),
        ),
        client_order(),
    )
}

/// The page of a search, before access points are named.
pub struct ClientPage {
    pub clients: Vec<ActiveClient>,
    pub total: u64,
    pub next_offset: Option<u16>,
}

/// Whether a search may be made at all.
pub open spec fn search_accepted(input: ClientsSearchInput) -> bool {
    &&& limit_accepted(input.limit as int)
    &&& offset_accepted(input.offset as int)
    &&& filter_accepted(opt_string(input.query))
    &&& filter_accepted(opt_string(input.ssid))
}

/// Refuses a search whose page or filters are out of bounds.
pub fn check_clients_search(input: &ClientsSearchInput) -> (result: Result<(), ToolError>)
    ensures
        result is Ok <==> search_accepted(*input),
        result matches Err(error) ==> page_refused(error, input.offset as int, input.limit as int),
{
    if let Err(error) = validate_page(input.offset, input.limit) {
        return Err(error);
    }
    if let Err(error) = validate_filter(as_slice(&input.query)) {
        return Err(error);
    }
    if let Err(error) = validate_filter(as_slice(&input.ssid)) {
        return Err(error);
    }
    Ok(())
}

/// The page of connected clients a search asks for, or the refusal of the
/// search.
pub fn clients_page(clients: Vec<ActiveClient>, input: &ClientsSearchInput) -> (result: Result<
    ClientPage,
    ToolError,
>)
    ensures
        result is Ok <==> search_accepted(*input),
        result matches Err(error) ==> page_refused(error, input.offset as int, input.limit as int),
        result matches Ok(shown) ==> {
            let found = found_clients(clients@, *input);
            &&& shown.clients@ == page(found, input.offset as int, input.limit as int)
            &&& shown.total == found.len()
            &&& opt_int(shown.next_offset) == next_page(
                input.offset as int,
                shown.clients@.len() as int,
                found.len() as int,
            )
        },
{
    if let Err(error) = check_clients_search(input) {
        return Err(error);
    }
    let query = match validate_filter(as_slice(&input.query)) {
        Ok(query) => query,
        Err(error) => {
            return Err(error);
        },
    };
    let ssid = match validate_filter(as_slice(&input.ssid)) {
        Ok(ssid) => ssid,
        Err(error) => {
            return Err(error);
        },
    };
    let query = as_slice(&query);
    let ssid = as_slice(&ssid);
    let test = |client: &ActiveClient| -> (answer: bool)
        ensures
            answer == (meets_filters(*client, opt_text(query), opt_text(ssid), input.vlan)
                && is_connected_as(*client, input.connection))
    {
        client_matches(client, query, ssid, input.vlan) && connection_matches(
            client,
            input.connection,
        )
    };
    let kept = keep(
        clients,
        test,
        Ghost(search_filter(opt_text(query), opt_text(ssid), input.vlan, input.connection)),
    );
    let sorted = sort_clients(kept);
    let total: usize = sorted.len();
    let offset: usize = input.offset as usize;
    let clients = take_page(sorted, offset, input.limit as usize);
    let next = next_offset(offset, clients.len(), total);
    Ok(ClientPage { clients, total: total as u64, next_offset: next })
}

/// Whether a row of a page names an access point to resolve.
pub fn needs_access_points(clients: &Vec<ActiveClient>) -> (result: bool)
    ensures
        result == exists|i: int| 0 <= i < clients@.len() && (#[trigger] clients@[i]).ap_mac is Some,
{
    let test = |client: &ActiveClient| -> (answer: bool)
        ensures
            answer == client.ap_mac is Some
    {
        client.ap_mac.is_some()
    };
    any(clients, test, Ghost(|client: ActiveClient| client.ap_mac is Some))
}

/// A value shown only at full detail.
pub open spec fn at_full<T>(value: Option<T>, detail: DetailLevel) -> Option<T> {
    if detail == DetailLevel::Full {
        value
    } else {
        None
    }
}

fn only_full<T>(value: Option<T>, detail: DetailLevel) -> (shown: Option<T>)
    ensures
        shown == at_full(value, detail),
{
    if detail == DetailLevel::Full {
        value
    } else {
        None
    }
}

/// The row a client is shown as.
pub open spec fn row_of(
    client: ActiveClient,
    entries: Seq<(Seq<char>, String)>,
    detail: DetailLevel,
) -> ClientRow {
    ClientRow {
        name: shown_name(client),
        hostname: client.hostname,
        mac: client.mac,
        ip: client.ip,
        connection: connection_text(client.is_wired),
        ssid: client.essid,
        vlan: client.vlan,
        ap_name: resolved_name(entries, opt_string(client.ap_mac)),
        signal_dbm: at_full(client.signal, detail),
        network: at_full(client.network, detail),
        oui: at_full(client.oui, detail),
        uptime_seconds: at_full(client.uptime, detail),
        tx_bytes: at_full(client.tx_bytes, detail),
        rx_bytes: at_full(client.rx_bytes, detail),
        fixed_ip: at_full(client.fixed_ip, detail),
    }
}

/// The row a client is shown as.
pub fn client_row(client: ActiveClient, entries: &Vec<NameEntry>, detail: DetailLevel) -> (row:
    ClientRow)
    ensures
        row == row_of(client, entries_of(entries@), detail),
{
    let ap_name = resolve_name(entries, &client.ap_mac);
    let name = client_name(&client);
    ClientRow {
        name,
        hostname: client.hostname,
        mac: client.mac,
        ip: client.ip,
        connection: connection_word(client.is_wired),
        ssid: client.essid,
        vlan: client.vlan,
        ap_name,
        signal_dbm: only_full(client.signal, detail),
        network: only_full(client.network, detail),
        oui: only_full(client.oui, detail),
        uptime_seconds: only_full(client.uptime, detail),
        tx_bytes: only_full(client.tx_bytes, detail),
        rx_bytes: only_full(client.rx_bytes, detail),
        fixed_ip: only_full(client.fixed_ip, detail),
    }
}

/// The result of a search, once access points are named.
pub fn clients_search(
    shown: ClientPage,
    entries: &Vec<NameEntry>,
    truncated: bool,
    detail: DetailLevel,
) -> (output: ClientsSearchOutput)
    ensures
        output.clients@ == shown.clients@.map_values(
            |client: ActiveClient| row_of(client, entries_of(entries@), detail),
        ),
        output.total_matches == shown.total,
        output.next_offset == shown.next_offset,
        output.ap_lookup_truncated == shown_if(truncated),
{
    let ghost all = shown.clients@;
    let conversion = |client: ActiveClient| -> (row: ClientRow)
        ensures
            row == row_of(client, entries_of(entries@), detail)
    {
        client_row(client, entries, detail)
    };
    let clients = convert(shown.clients, conversion);
    assert(clients@ =~= all.map_values(
        |client: ActiveClient| row_of(client, entries_of(entries@), detail),
    ));
    ClientsSearchOutput {
        clients,
        total_matches: shown.total,
        next_offset: shown.next_offset,
        ap_lookup_truncated: flag_if(truncated),
    }
}

// ---------------------------------------------------------------------------
// One client
// ---------------------------------------------------------------------------

/// A controller event.
pub struct LegacyEvent {
    pub key: Option<String>,
    pub time: Option<u64>,
    pub msg: Option<String>,
    pub subsystem: Option<String>,
    pub user: Option<String>,
}

/// One recent event of a client.
pub struct ClientEvent {
    pub time: Option<u64>,
    pub key: Option<String>,
    pub message: Option<String>,
}

/// One connected client end to end.
pub struct ClientContextOutput {
    pub name: Option<String>,
    pub hostname: Option<String>,
    pub mac: Option<String>,
    pub oui: Option<String>,
    pub connection: &'static str,
    pub ssid: Option<String>,
    pub vlan: Option<u16>,
    pub network: Option<String>,
    pub ap_name: Option<String>,
    pub ap_mac: Option<String>,
    pub channel: Option<u16>,
    pub radio: Option<String>,
    pub signal_dbm: Option<i32>,
    pub rssi: Option<i32>,
    pub uptime_seconds: Option<u64>,
    pub last_seen: Option<u64>,
    pub ip: Option<String>,
    pub use_fixed_ip: Option<bool>,
    pub fixed_ip: Option<String>,
    pub tx_bytes: Option<u64>,
    pub rx_bytes: Option<u64>,
    pub recent_events: Vec<ClientEvent>,
    pub recent_events_truncated: Option<bool>,
    pub ap_lookup_truncated: Option<bool>,
}

/// Trims the selector of one client; refuses one that is empty or oversized.
pub fn client_selector(raw: &str) -> (result: Result<String, ToolError>)
    ensures
        result is Ok <==> query_accepted(raw@),
        result matches Ok(selector) ==> selector@ == trimmed(raw@),
        result matches Err(error) ==> is_invalid_params(
            error,
            "client selector must be a MAC, name, or hostname"@,
        ),
{
    match trim_query(raw) {
        Some(selector) => Ok(selector),
        None => Err(invalid_params("client selector must be a MAC, name, or hostname")),
    }
}

/// Whether an optional address is that of a selector.
pub open spec fn has_address(mac: Option<Seq<char>>, selector: Seq<char>) -> bool {
    mac matches Some(text) && mac_form(text) == mac_form(selector)
}

/// Whether an optional address is that of a selector.
pub fn address_is(mac: &Option<String>, selector: &str) -> (result: bool)
    ensures
        result == has_address(opt_string(*mac), selector@),
{
    match mac {
        Some(text) => {
            let form = normalize_mac(text.as_str());
            let wanted = normalize_mac(selector);
            form == wanted
        },
        None => false,
    }
}

/// The test for a client by address.
pub open spec fn by_address(selector: Seq<char>) -> spec_fn(ActiveClient) -> bool {
    |client: ActiveClient| has_address(opt_string(client.mac), selector)
}

/// The test for a client by exact name or hostname.
pub open spec fn by_name(selector: Seq<char>) -> spec_fn(ActiveClient) -> bool {
    |client: ActiveClient|
        is_filter(opt_string(client.name), lowercase(selector)) || is_filter(
            opt_string(client.hostname),
            lowercase(selector),
        )
}

/// Whether some row meets a test.
pub open spec fn some_row<T>(rows: Seq<T>, pred: spec_fn(T) -> bool) -> bool {
    exists|i: int| 0 <= i < rows.len() && pred(#[trigger] rows[i])
}

/// The clients a selector names: those at that address where there are any,
/// else those of that name or hostname.
pub open spec fn selected_clients(clients: Seq<ActiveClient>, selector: Seq<char>) -> Seq<
    ActiveClient,
> {
    if some_row(clients, by_address(selector)) {
        clients.filter(by_address(selector))
    } else {
        clients.filter(by_name(selector))
    }
}

/// Tiered client selection: the globally unique MAC is authoritative and a
/// name or hostname is consulted only when no MAC matches, so a colliding
/// name can never shadow an identifier.
pub fn select_clients(clients: Vec<ActiveClient>, selector: &str) -> (matches: Vec<ActiveClient>)
    ensures
        matches@ == selected_clients(clients@, selector@),
{
    let at_address = |client: &ActiveClient| -> (answer: bool)
        ensures
            answer == has_address(opt_string(client.mac), selector@)
    {
        address_is(&client.mac, selector)
    };
    if any(&clients, at_address, Ghost(by_address(selector@))) {
        return keep(clients, at_address, Ghost(by_address(selector@)));
    }
    let lower = to_lowercase(selector);
    let wanted = lower.as_str();
    let of_name = |client: &ActiveClient| -> (answer: bool)
        ensures
            answer == (is_filter(opt_string(client.name), wanted@) || is_filter(
                opt_string(client.hostname),
                wanted@,
            ))
    {
        text_is(&client.name, wanted) || text_is(&client.hostname, wanted)
    };
    keep(clients, of_name, Ghost(by_name(selector@)))
}

/// The refusal where no client matches.
pub open spec fn no_client_message() -> Seq<char> {
    "no connected client matches the selector; use clients.search to list connected clients and select by MAC"@
}

/// The refusal where several clients match.
pub open spec fn several_clients_message(count: nat) -> Seq<char> {
    decimal(count) + " connected clients match; select by MAC"@
}

/// The one client a selector names.
pub fn pick_client(clients: Vec<ActiveClient>, selector: &str) -> (result: Result<
    ActiveClient,
    ToolError,
>)
    ensures
        ({
            let named = selected_clients(clients@, selector@);
            match result {
                Ok(client) => named == seq![client],
                Err(error) => if named.len() == 0 {
                    is_invalid_params(error, no_client_message())
                } else {
                    named.len() > 1 && is_invalid_params(
                        error,
                        several_clients_message(named.len()),
                    )
                },
            }
        }),
{
    let mut matches = select_clients(clients, selector);
    if matches.len() == 0 {
        return Err(
            invalid_params(
                "no connected client matches the selector; use clients.search to list connected clients and select by MAC",
            ),
        );
    }
    if matches.len() > 1 {
        let count = to_decimal(matches.len() as u64);
        let message = join2(count.as_str(), " connected clients match; select by MAC");
        return Err(ToolError { kind: ErrorKind::InvalidParams, message });
    }
    let ghost named = matches@;
    let client = matches.remove(0);
    assert(named =~= seq![client]);
    Ok(client)
}

/// The test for the events of a client.
pub open spec fn concerns(mac: Option<Seq<char>>) -> spec_fn(LegacyEvent) -> bool {
    |event: LegacyEvent|
        mac is Some && opt_mac_form(opt_string(event.user)) == opt_mac_form(mac)
}

/// Whether a row shows an event.
pub open spec fn shows_event(row: ClientEvent, event: LegacyEvent) -> bool {
    &&& row.time == event.time
    &&& row.key == event.key
    &&& opt_string(row.message) == opt_bounded(opt_string(event.msg))
}

/// What a client's events are ordered by: the newest first, and those without
/// a time last.
pub open spec fn event_rank(event: LegacyEvent) -> Rank {
    match event.time {
        Some(time) => by_number(-(time as int)),
        None => by_number(1),
    }
}

/// The order of a client's events.
pub open spec fn newest_first() -> spec_fn(LegacyEvent) -> Rank {
    |event: LegacyEvent| event_rank(event)
}

/// The events that concern a client, the newest first.
pub open spec fn client_events(events: Seq<LegacyEvent>, mac: Option<Seq<char>>) -> Seq<
    LegacyEvent,
> {
    stable_sort(events.filter(concerns(mac)), newest_first())
}

/// The events of a client that are shown: the newest of those that concern
/// it, the newest first.
pub open spec fn recent_events(events: Seq<LegacyEvent>, mac: Option<Seq<char>>) -> Seq<
    LegacyEvent,
> {
    page(client_events(events, mac), 0, CONTEXT_EVENT_LIMIT as int)
}

/// One client's context around a list of its recent events.
pub open spec fn context_of(
    client: ActiveClient,
    entries: Seq<(Seq<char>, String)>,
    lookup_truncated: bool,
    scanned: nat,
    events: Vec<ClientEvent>,
) -> ClientContextOutput {
    ClientContextOutput {
        name: shown_name(client),
        hostname: client.hostname,
        mac: client.mac,
        oui: client.oui,
        connection: connection_text(client.is_wired),
        ssid: client.essid,
        vlan: client.vlan,
        network: client.network,
        ap_name: resolved_name(entries, opt_string(client.ap_mac)),
        ap_mac: client.ap_mac,
        channel: client.channel,
        radio: client.radio,
        signal_dbm: client.signal,
        rssi: client.rssi,
        uptime_seconds: client.uptime,
        last_seen: client.last_seen,
        ip: client.ip,
        use_fixed_ip: client.use_fixedip,
        fixed_ip: client.fixed_ip,
        tx_bytes: client.tx_bytes,
        rx_bytes: client.rx_bytes,
        recent_events: events,
        recent_events_truncated: shown_if(scanned >= EVENT_SCAN_LIMIT),
        ap_lookup_truncated: shown_if(lookup_truncated),
    }
}

/// Whether an optional address is another one in comparable form.
fn same_address(a: &Option<String>, form: &Option<String>) -> (result: bool)
    ensures
        result == (opt_mac_form(opt_string(*a)) == opt_string(*form)),
{
    match (normalize_option(a), form) {
        (Some(x), Some(y)) => x == *y,
        (None, None) => true,
        _ => false,
    }
}

/// One client's context, from the client, the device names and one scanned
/// page of events, of which its newest are shown, in whatever order the page
/// came. A full page may not reach the client's older events, and
/// the result says so.
pub fn clients_context(
    client: ActiveClient,
    entries: &Vec<NameEntry>,
    lookup_truncated: bool,
    events: Vec<LegacyEvent>,
) -> (output: ClientContextOutput)
    ensures
        output == context_of(
            client,
            entries_of(entries@),
            lookup_truncated,
            events@.len(),
            output.recent_events,
        ),
        ({
            let shown = recent_events(events@, opt_string(client.mac));
            &&& output.recent_events@.len() == shown.len()
            &&& forall|i: int|
                0 <= i < shown.len() ==> shows_event(
                    #[trigger] output.recent_events@[i],
                    shown[i],
                )
        }),
{
    let events_truncated = events.len() >= EVENT_SCAN_LIMIT;
    let form = normalize_option(&client.mac);
    let wanted = &form;
    let test = |event: &LegacyEvent| -> (answer: bool)
        ensures
            answer == (wanted is Some && opt_mac_form(opt_string(event.user)) == opt_string(
                *wanted,
            ))
    {
        wanted.is_some() && same_address(&event.user, wanted)
    };
    let kept = keep(events, test, Ghost(concerns(opt_string(client.mac))));
    let ghost all = kept@;
    let keying = |event: LegacyEvent| -> (pair: (Key, LegacyEvent))
        ensures
            pair.1 == event && pair.0@ == event_rank(event)
    {
        let rank: i128 = match event.time {
            Some(time) => 0 - time as i128,
            None => 1,
        };
        (number_key(rank), event)
    };
    let keyed = convert(kept, keying);
    assert(rows_of(keyed@) =~= all);
    let sorted = sort_keyed(keyed, Ghost(newest_first()));
    let shown = take_page(sorted, 0, CONTEXT_EVENT_LIMIT);
    let conversion = |event: LegacyEvent| -> (row: ClientEvent)
        ensures
            shows_event(row, event)
    {
        ClientEvent { time: event.time, key: event.key, message: bounded_option(event.msg) }
    };
    let recent_events = convert(shown, conversion);
    let ap_name = resolve_name(entries, &client.ap_mac);
    let name = client_name(&client);
    ClientContextOutput {
        name,
        hostname: client.hostname,
        mac: client.mac,
        oui: client.oui,
        connection: connection_word(client.is_wired),
        ssid: client.essid,
        vlan: client.vlan,
        network: client.network,
        ap_name,
        ap_mac: client.ap_mac,
        channel: client.channel,
        radio: client.radio,
        signal_dbm: client.signal,
        rssi: client.rssi,
        uptime_seconds: client.uptime,
        last_seen: client.last_seen,
        ip: client.ip,
        use_fixed_ip: client.use_fixedip,
        fixed_ip: client.fixed_ip,
        tx_bytes: client.tx_bytes,
        rx_bytes: client.rx_bytes,
        recent_events,
        recent_events_truncated: flag_if(events_truncated),
        ap_lookup_truncated: flag_if(lookup_truncated),
    }
}

/// Whether some connected client is at an address in comparable form.
pub open spec fn connected_at(clients: Seq<ActiveClient>, mac: Seq<char>) -> bool {
    exists|i: int|
        0 <= i < clients.len() && opt_mac_form(opt_string((#[trigger] clients[i]).mac)) == Some(mac)
}

/// Whether one address is in the controller's connected-client list.
pub fn client_is_connected(clients: &Vec<ActiveClient>, mac: &str) -> (result: bool)
    ensures
        result == connected_at(clients@, mac@),
{
    let test = |client: &ActiveClient| -> (answer: bool)
        ensures
            answer == (opt_mac_form(opt_string(client.mac)) == Some(mac@))
    {
        match normalize_option(&client.mac) {
            Some(form) => same_text(form.as_str(), mac),
            None => false,
        }
    };
    any(
        clients,
        test,
        Ghost(|client: ActiveClient| opt_mac_form(opt_string(client.mac)) == Some(mac@)),
    )
}

// ---------------------------------------------------------------------------
// Laws
// ---------------------------------------------------------------------------

/// A name never shadows an address: where some client is at the selected
/// address, every client selected is at it.
pub proof fn law_name_never_shadows_an_address(
    clients: Seq<ActiveClient>,
    selector: Seq<char>,
    i: int,
)
    requires
        some_row(clients, by_address(selector)),
        0 <= i < selected_clients(clients, selector).len(),
    ensures
        has_address(opt_string(selected_clients(clients, selector)[i].mac), selector),
        clients.contains(selected_clients(clients, selector)[i]),
{
    broadcast use Seq::lemma_filter_pred, Seq::lemma_filter_contains_rev;

    let named = selected_clients(clients, selector);
    assert(by_address(selector)(clients.filter(by_address(selector))[i]));
    assert(named.contains(named[i]));
}

/// A search finds every client that meets its filters and no other.
pub proof fn law_search_finds_what_matches(
    clients: Seq<ActiveClient>,
    input: ClientsSearchInput,
    client: ActiveClient,
)
    ensures
        found_clients(clients, input).contains(client) <==> clients.contains(client)
            && meets_filters(
            client,
            filter_text(opt_string(input.query)),
            filter_text(opt_string(input.ssid)),
            input.vlan,
        ) && is_connected_as(client, input.connection),
{
    broadcast use vstd::seq_lib::group_to_multiset_ensures;

    let test = search_filter(
        filter_text(opt_string(input.query)),
        filter_text(opt_string(input.ssid)),
        input.vlan,
        input.connection,
    );
    let kept = clients.filter(test);
    crate::order::law_sorting_orders_and_keeps_the_rows(kept, client_order());
    let sorted = stable_sort(kept, client_order());
    assert(sorted.contains(client) <==> sorted.to_multiset().count(client) > 0);
    assert(kept.contains(client) <==> kept.to_multiset().count(client) > 0);
    crate::rows::lemma_filter_contains(clients, test, client);
}

/// Whether an event is no newer than another; one without a time is newer than
/// none.
pub open spec fn no_newer(event: LegacyEvent, other: LegacyEvent) -> bool {
    match (event.time, other.time) {
        (Some(time), Some(bound)) => time <= bound,
        (None, _) => true,
        (Some(_), None) => false,
    }
}

/// The events shown of a client are its newest, newest first: no event shown
/// is newer than one before it, and no event of the client that is left out
/// is newer than one that is shown.
pub proof fn law_recent_events_are_the_newest(
    events: Seq<LegacyEvent>,
    mac: Option<Seq<char>>,
    i: int,
    j: int,
)
    requires
        0 <= i < recent_events(events, mac).len(),
        i <= j < client_events(events, mac).len(),
    ensures
        client_events(events, mac).to_multiset() == events.filter(concerns(mac)).to_multiset(),
        recent_events(events, mac)[i] == client_events(events, mac)[i],
        no_newer(client_events(events, mac)[j], recent_events(events, mac)[i]),
        recent_events(events, mac).len() <= CONTEXT_EVENT_LIMIT,
        recent_events(events, mac).len() < CONTEXT_EVENT_LIMIT ==> recent_events(events, mac)
            == client_events(events, mac),
{
    let kept = events.filter(concerns(mac));
    let sorted = client_events(events, mac);
    crate::order::law_sorting_orders_and_keeps_the_rows(kept, newest_first());
    if i < j {
        assert(!crate::order::before(newest_first()(sorted[j]), newest_first()(sorted[i])));
    }
    if recent_events(events, mac).len() < CONTEXT_EVENT_LIMIT {
        assert(recent_events(events, mac) =~= sorted);
    }
}

} // verus!
