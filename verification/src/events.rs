//! Recent controller events and active alarms in one bounded window.

use vstd::prelude::*;
use vstd::string::*;

use crate::clients::{holds, text_holds, LegacyEvent};
use crate::clock::{start_of_window, window_start};
use crate::display::{
    bounded_option, normalize_option, opt_bounded, opt_mac_form,
};
use crate::error::{invalid_params, is_invalid_params, ToolError};
use crate::order::{by_number, number_key, rows_of, sort_keyed, stable_sort, Key, Rank};
use crate::overview::{alarm_is_active, is_active, LegacyAlarm};
use crate::paging::{
    as_slice, filter_accepted, filter_text, limit_accepted, next_offset, next_page,
    offset_accepted, opt_int, page, page_refused, take_page, validate_filter, validate_page,
};
use crate::rows::{convert, flag_if, keep, shown_if};
use crate::text::{opt_string, opt_text, same_text};

verus! {

/// Hours an event window spans where the caller does not say.
pub const DEFAULT_EVENT_WINDOW_HOURS: u32 = 24;

/// Most hours an event window may span.
pub const MAXIMUM_EVENT_WINDOW_HOURS: u32 = 168;

/// Rows fetched from each source.
pub const EVENT_FETCH_LIMIT: u32 = 1000;

/// Which sources a search reads.
#[derive(Debug, Clone, Copy, PartialEq, Eq, Structural)]
pub enum EventKind {
    All,
    Events,
    Alarms,
}

/// What a search for events asks for.
pub struct EventsSearchInput {
    pub kind: EventKind,
    pub last_hours: Option<u32>,
    pub category: Option<String>,
    pub client: Option<String>,
    pub offset: u16,
    pub limit: u16,
}

/// One event row.
pub struct EventRow {
    pub kind: &'static str,
    pub time: Option<u64>,
    pub key: Option<String>,
    pub message: Option<String>,
    pub subsystem: Option<String>,
    pub client_mac: Option<String>,
}

/// One page of events and alarms.
pub struct EventsSearchOutput {
    pub rows: Vec<EventRow>,
    pub total_matches: u64,
    pub next_offset: Option<u16>,
    pub fetch_window_truncated: Option<bool>,
}

/// What one row is made of.
pub enum EventSource {
    Event(LegacyEvent),
    Alarm(LegacyAlarm),
}

/// When a row happened.
pub open spec fn time_of(source: EventSource) -> Option<u64> {
    match source {
        EventSource::Event(event) => event.time,
        EventSource::Alarm(alarm) => alarm.time,
    }
}

/// The key of a row.
pub open spec fn key_of(source: EventSource) -> Option<String> {
    match source {
        EventSource::Event(event) => event.key,
        EventSource::Alarm(alarm) => alarm.key,
    }
}

/// The subsystem of a row: an alarm names none.
pub open spec fn subsystem_of(source: EventSource) -> Option<String> {
    match source {
        EventSource::Event(event) => event.subsystem,
        EventSource::Alarm(_) => None,
    }
}

/// The client a row concerns: an alarm names none.
pub open spec fn client_of(source: EventSource) -> Option<String> {
    match source {
        EventSource::Event(event) => event.user,
        EventSource::Alarm(_) => None,
    }
}

/// The message of a row.
pub open spec fn text_of(source: EventSource) -> Option<String> {
    match source {
        EventSource::Event(event) => event.msg,
        EventSource::Alarm(alarm) => alarm.msg,
    }
}

/// Whether a search reads controller events.
pub open spec fn wants_events(kind: EventKind) -> bool {
    kind != EventKind::Alarms
}

/// Whether a search reads alarms.
pub open spec fn wants_alarms(kind: EventKind) -> bool {
    kind != EventKind::Events
}

/// Whether a search reads controller events.
pub fn reads_events(kind: EventKind) -> (result: bool)
    ensures
        result == wants_events(kind),
{
    kind != EventKind::Alarms
}

/// Whether a search reads alarms.
pub fn reads_alarms(kind: EventKind) -> (result: bool)
    ensures
        result == wants_alarms(kind),
{
    kind != EventKind::Events
}

/// The hours a search spans.
pub open spec fn window_hours(input: EventsSearchInput) -> u32 {
    match input.last_hours {
        Some(hours) => hours,
        None => DEFAULT_EVENT_WINDOW_HOURS,
    }
}

/// Whether a number of hours is accepted as a window.
pub open spec fn hours_accepted(hours: int) -> bool {
    1 <= hours <= MAXIMUM_EVENT_WINDOW_HOURS
}

/// The refusal of a window.
pub open spec fn hours_message() -> Seq<char> {
    "lastHours must be between 1 and 168"@
}

/// Whether a search may be made at all.
pub open spec fn events_search_accepted(input: EventsSearchInput) -> bool {
    &&& limit_accepted(input.limit as int)
    &&& offset_accepted(input.offset as int)
    &&& filter_accepted(opt_string(input.category))
    &&& filter_accepted(opt_string(input.client))
    &&& hours_accepted(window_hours(input) as int)
}

/// The refusal of a search: of its page, else of its filters, else of its
/// window.
pub open spec fn events_search_refused(error: ToolError, input: EventsSearchInput) -> bool {
    if !limit_accepted(input.limit as int) || !offset_accepted(input.offset as int)
        || !filter_accepted(opt_string(input.category)) || !filter_accepted(
        opt_string(input.client),
    ) {
        page_refused(error, input.offset as int, input.limit as int)
    } else {
        is_invalid_params(error, hours_message())
    }
}

/// Refuses a search whose page, filters or window are out of bounds, and
/// gives the hours of the window.
pub fn check_events_search(input: &EventsSearchInput) -> (result: Result<u32, ToolError>)
    ensures
        result is Ok <==> events_search_accepted(*input),
        result matches Ok(hours) ==> hours == window_hours(*input),
        result matches Err(error) ==> events_search_refused(error, *input),
{
    if let Err(error) = validate_page(input.offset, input.limit) {
        return Err(error);
    }
    if let Err(error) = validate_filter(as_slice(&input.category)) {
        return Err(error);
    }
    if let Err(error) = validate_filter(as_slice(&input.client)) {
        return Err(error);
    }
    let hours: u32 = match input.last_hours {
        Some(hours) => hours,
        None => DEFAULT_EVENT_WINDOW_HOURS,
    };
    if hours < 1 || hours > MAXIMUM_EVENT_WINDOW_HOURS {
        return Err(invalid_params("lastHours must be between 1 and 168"));
    }
    Ok(hours)
}

/// Whether a search of a kind shows a row at all: controller events where it
/// reads them, and active alarms where it reads those.
pub open spec fn is_shown(source: EventSource, kind: EventKind) -> bool {
    match source {
        EventSource::Event(_) => wants_events(kind),
        EventSource::Alarm(alarm) => wants_alarms(kind) && is_active(alarm),
    }
}

/// Whether a row is of a kind the search shows, lies in the window and meets
/// the filters. A row without a timestamp lies in no window.
pub open spec fn source_meets(
    source: EventSource,
    kind: EventKind,
    start: int,
    end: int,
    category: Option<Seq<char>>,
    client: Option<Seq<char>>,
) -> bool {
    &&& is_shown(source, kind)
    &&& time_of(source) matches Some(time) && start <= time <= end
    &&& category matches Some(needle) ==> holds(opt_string(key_of(source)), needle) || holds(
        opt_string(subsystem_of(source)),
        needle,
    )
    &&& client is Some ==> opt_mac_form(opt_string(client_of(source))) == client
}

/// The filter a search applies.
pub open spec fn source_filter(
    kind: EventKind,
    start: int,
    end: int,
    category: Option<Seq<char>>,
    client: Option<Seq<char>>,
) -> spec_fn(EventSource) -> bool {
    |source: EventSource| source_meets(source, kind, start, end, category, client)
}

/// What rows are ordered by: the newest first.
pub open spec fn source_rank(source: EventSource) -> Rank {
    match time_of(source) {
        Some(time) => by_number(-(time as int)),
        None => by_number(1),
    }
}

/// The order of rows.
pub open spec fn source_order() -> spec_fn(EventSource) -> Rank {
    |source: EventSource| source_rank(source)
}

/// Controller events as rows.
pub open spec fn event_sources(events: Seq<LegacyEvent>) -> Seq<EventSource> {
    events.map_values(|event: LegacyEvent| EventSource::Event(event))
}

/// Alarms as rows.
pub open spec fn alarm_sources(alarms: Seq<LegacyAlarm>) -> Seq<EventSource> {
    alarms.map_values(|alarm: LegacyAlarm| EventSource::Alarm(alarm))
}

/// The rows a search finds, newest first; events stand before alarms of the
/// same time.
pub open spec fn found_events(
    events: Seq<LegacyEvent>,
    alarms: Seq<LegacyAlarm>,
    now: int,
    input: EventsSearchInput,
) -> Seq<EventSource> {
    stable_sort(
        (event_sources(events) + alarm_sources(alarms)).filter(
            source_filter(
                input.kind,
                window_start(now, window_hours(input) as int),
                now,
                filter_text(opt_string(input.category)),
                filter_text(opt_string(input.client)),
            ),
        ),
        source_order(),
    )
}

/// Whether a row shows a source.
pub open spec fn shows_source(row: EventRow, source: EventSource) -> bool {
    &&& row.kind == (match source {
        EventSource::Event(_) => "event",
        EventSource::Alarm(_) => "alarm",
    })
    &&& row.time == time_of(source)
    &&& row.key == key_of(source)
    &&& opt_string(row.message) == opt_bounded(opt_string(text_of(source)))
    &&& row.subsystem == subsystem_of(source)
    &&& row.client_mac == client_of(source)
}

/// The row a source is shown as.
pub fn show_source(source: EventSource) -> (row: EventRow)
    ensures
        shows_source(row, source),
{
    match source {
        EventSource::Event(event) => EventRow {
            kind: "event",
            time: event.time,
            key: event.key,
            message: bounded_option(event.msg),
            subsystem: event.subsystem,
            client_mac: event.user,
        },
        EventSource::Alarm(alarm) => EventRow {
            kind: "alarm",
            time: alarm.time,
            key: alarm.key,
            message: bounded_option(alarm.msg),
            subsystem: None,
            client_mac: None,
        },
    }
}

fn is_client(mac: &Option<String>, client: &str) -> (result: bool)
    ensures
        result == (opt_mac_form(opt_string(*mac)) == Some(client@)),
{
    match normalize_option(mac) {
        Some(form) => same_text(form.as_str(), client),
        None => false,
    }
}

fn source_matches(
    source: &EventSource,
    kind: EventKind,
    start: u64,
    end: u64,
    category: Option<&str>,
    client: Option<&str>,
) -> (result: bool)
    ensures
        result == source_meets(
            *source,
            kind,
            start as int,
            end as int,
            opt_text(category),
            opt_text(client),
        ),
{
    let shown = match source {
        EventSource::Event(_) => reads_events(kind),
        EventSource::Alarm(alarm) => reads_alarms(kind) && alarm_is_active(alarm),
    };
    if !shown {
        return false;
    }
    let time: Option<u64> = match source {
        EventSource::Event(event) => event.time,
        EventSource::Alarm(alarm) => alarm.time,
    };
    let inside = match time {
        Some(time) => start <= time && time <= end,
        None => false,
    };
    if !inside {
        return false;
    }
    if let Some(category) = category {
        let found = match source {
            EventSource::Event(event) => text_holds(&event.key, category) || text_holds(
                &event.subsystem,
                category,
            ),
            EventSource::Alarm(alarm) => text_holds(&alarm.key, category),
        };
        if !found {
            return false;
        }
    }
    match client {
        Some(client) => match source {
            EventSource::Event(event) => is_client(&event.user, client),
            EventSource::Alarm(_) => false,
        },
        None => true,
    }
}

fn join_sources(events: Vec<LegacyEvent>, alarms: Vec<LegacyAlarm>) -> (sources: Vec<EventSource>)
    ensures
        sources@ == event_sources(events@) + alarm_sources(alarms@),
{
    let ghost all_events = events@;
    let ghost all_alarms = alarms@;
    let from_event = |event: LegacyEvent| -> (source: EventSource)
        ensures
            source == EventSource::Event(event)
    {
        EventSource::Event(event)
    };
    let from_alarm = |alarm: LegacyAlarm| -> (source: EventSource)
        ensures
            source == EventSource::Alarm(alarm)
    {
        EventSource::Alarm(alarm)
    };
    let mut sources = convert(events, from_event);
    let mut more = convert(alarms, from_alarm);
    assert(sources@ =~= event_sources(all_events));
    assert(more@ =~= alarm_sources(all_alarms));
    sources.append(&mut more);
    sources
}

/// The page of events and alarms a search asks for, from the rows each source
/// returned and the time they were read at, or the refusal of the search. Only
/// the kinds the search reads are shown, and of alarms only the active ones; a
/// source that returned a full page may hold more than was scanned, and the
/// result says so.
pub fn events_search(
    events: Vec<LegacyEvent>,
    alarms: Vec<LegacyAlarm>,
    now_ms: u64,
    input: &EventsSearchInput,
) -> (result: Result<EventsSearchOutput, ToolError>)
    ensures
        result is Ok <==> events_search_accepted(*input),
        result matches Err(error) ==> events_search_refused(error, *input),
        result matches Ok(output) ==> {
            let found = found_events(events@, alarms@, now_ms as int, *input);
            let shown = page(found, input.offset as int, input.limit as int);
            &&& output.rows@.len() == shown.len()
            &&& forall|i: int|
                0 <= i < shown.len() ==> shows_source(#[trigger] output.rows@[i], shown[i])
            &&& output.total_matches == found.len()
            &&& opt_int(output.next_offset) == next_page(
                input.offset as int,
                shown.len() as int,
                found.len() as int,
            )
            &&& output.fetch_window_truncated == shown_if(
                (wants_events(input.kind) && events@.len() >= EVENT_FETCH_LIMIT) || (wants_alarms(
                    input.kind,
                ) && alarms@.len() >= EVENT_FETCH_LIMIT),
            )
        },
{
    let hours: u32 = match check_events_search(input) {
        Ok(hours) => hours,
        Err(error) => {
            return Err(error);
        },
    };
    let category = match validate_filter(as_slice(&input.category)) {
        Ok(category) => category,
        Err(error) => {
            return Err(error);
        },
    };
    let client = match validate_filter(as_slice(&input.client)) {
        Ok(client) => client,
        Err(error) => {
            return Err(error);
        },
    };
    let start: u64 = start_of_window(now_ms, hours);
    let truncated = (reads_events(input.kind) && events.len() >= EVENT_FETCH_LIMIT as usize) || (
    reads_alarms(input.kind) && alarms.len() >= EVENT_FETCH_LIMIT as usize);
    let sources = join_sources(events, alarms);
    let category = as_slice(&category);
    let client = as_slice(&client);
    let test = |source: &EventSource| -> (answer: bool)
        ensures
            answer == source_meets(
                *source,
                input.kind,
                start as int,
                now_ms as int,
                opt_text(category),
                opt_text(client),
            )
    {
        source_matches(source, input.kind, start, now_ms, category, client)
    };
    let kept = keep(
        sources,
        test,
        Ghost(
            source_filter(
                input.kind,
                start as int,
                now_ms as int,
                opt_text(category),
                opt_text(client),
            ),
        ),
    );
    let ghost all = kept@;
    let keying = |source: EventSource| -> (pair: (Key, EventSource))
        ensures
            pair.1 == source && pair.0@ == source_rank(source)
    {
        let time: Option<u64> = match &source {
            EventSource::Event(event) => event.time,
            EventSource::Alarm(alarm) => alarm.time,
        };
        let rank: i128 = match time {
            Some(time) => 0 - time as i128,
            None => 1,
        };
        (number_key(rank), source)
    };
    let keyed = convert(kept, keying);
    assert(rows_of(keyed@) =~= all);
    let sorted = sort_keyed(keyed, Ghost(source_order()));
    let total: usize = sorted.len();
    let offset: usize = input.offset as usize;
    let shown = take_page(sorted, offset, input.limit as usize);
    let next = next_offset(offset, shown.len(), total);
    let conversion = |source: EventSource| -> (row: EventRow)
        ensures
            shows_source(row, source)
    {
        show_source(source)
    };
    let rows = convert(shown, conversion);
    Ok(
        EventsSearchOutput {
            rows,
            total_matches: total as u64,
            next_offset: next,
            fetch_window_truncated: flag_if(truncated),
        },
    )
}

/// Every row a search finds is of a kind it shows and lies inside its window,
/// and no row is newer than one before it.
pub proof fn law_found_events_are_recent_and_newest_first(
    events: Seq<LegacyEvent>,
    alarms: Seq<LegacyAlarm>,
    now: int,
    input: EventsSearchInput,
    i: int,
    j: int,
)
    requires
        0 <= i <= j < found_events(events, alarms, now, input).len(),
    ensures
        ({
            let found = found_events(events, alarms, now, input);
            &&& is_shown(found[i], input.kind)
            &&& time_of(found[i]) is Some && time_of(found[j]) is Some
            &&& window_start(now, window_hours(input) as int) <= time_of(found[j])->Some_0
            &&& time_of(found[j])->Some_0 <= time_of(found[i])->Some_0 <= now
        }),
{
    broadcast use vstd::seq_lib::group_to_multiset_ensures;

    let pred = source_filter(
        input.kind,
        window_start(now, window_hours(input) as int),
        now,
        filter_text(opt_string(input.category)),
        filter_text(opt_string(input.client)),
    );
    let kept = (event_sources(events) + alarm_sources(alarms)).filter(pred);
    let found = found_events(events, alarms, now, input);
    crate::order::law_sorting_orders_and_keeps_the_rows(kept, source_order());
    assert forall|k: int| 0 <= k < found.len() implies pred(#[trigger] found[k]) by {
        assert(found.contains(found[k]));
        assert(found.to_multiset().count(found[k]) > 0);
        assert(kept.contains(found[k]));
        crate::rows::lemma_filter_contains(
            event_sources(events) + alarm_sources(alarms),
            pred,
            found[k],
        );
    }
    assert(pred(found[i]) && pred(found[j]));
    if i < j {
        assert(!crate::order::before(source_order()(found[j]), source_order()(found[i])));
    }
}

} // verus!
