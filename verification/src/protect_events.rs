//! Historical Protect detections in a bounded, caller-pageable window.

use vstd::prelude::*;
use vstd::string::*;

use crate::camera_tools::{
    camera_by_id, camera_by_name, camera_name_matches, camera_selector, camera_selector_accepted,
    camera_selector_message, has_camera_id, incomplete_names_message, no_camera_message,
    selected_cameras, several_cameras_message, wrong_count,
};
use crate::cameras::{CameraView, LocalEnrichmentState};
use crate::clients::{entries_of, find_name, name_at, some_row, NameEntry};
use crate::clock::{current_time_ms, is_clock_error, start_of_window, window_start, HOUR_MS};
use crate::display::{
    bounded, bounded_option, bounded_text, opt_bounded, EVENT_MESSAGE_CEILING,
};
use crate::error::{invalid_params, is_invalid_params, ToolError};
use crate::events::{
    hours_accepted, hours_message, DEFAULT_EVENT_WINDOW_HOURS, MAXIMUM_EVENT_WINDOW_HOURS,
};
use crate::order::{by_number, number_key, rows_of, sort_keyed, stable_sort, Key, Rank};
use crate::paging::{
    as_slice, filter_accepted, filter_message, filter_text, limit_accepted, validate_filter,
    validate_page,
};
use crate::rows::{any, convert, keep};
use crate::text::{
    byte_len, count_bytes, eq_ignoring_ascii_case, lowercase, opt_string, opt_text,
    same_ignoring_ascii_case, same_text, texts, to_lowercase, trimmed,
};

verus! {

/// Where a search goes on: the frozen window and filters, and the time-key
/// upper bound of the next page.
pub struct ProtectEventsCursor {
    pub window_start: u64,
    pub window_end: u64,
    pub next_end: u64,
    pub camera_id: Option<String>,
    pub detection: Option<String>,
}

/// What a search for detections asks for.
pub struct ProtectEventsInput {
    pub last_hours: Option<u32>,
    pub start: Option<u64>,
    pub end: Option<u64>,
    pub camera: Option<String>,
    pub detection: Option<String>,
    pub cursor: Option<ProtectEventsCursor>,
    pub limit: u16,
}

/// A detection as the console reports it.
pub struct ProtectEvent {
    pub id: String,
    pub kind: String,
    pub start: u64,
    pub end: Option<u64>,
    pub score: Option<u32>,
    pub camera: Option<String>,
    pub smart_detect_types: Vec<String>,
}

/// One page of detections as the console reports it: the rows, how many were
/// inspected, and where the next page ends, where there is one.
pub struct ProtectEventPage {
    pub events: Vec<ProtectEvent>,
    pub scanned_rows: usize,
    pub next_end: Option<u64>,
}

/// One detection.
pub struct ProtectEventView {
    pub id: String,
    pub kind: String,
    pub start: u64,
    pub end: Option<u64>,
    pub score: Option<u32>,
    pub camera_id: Option<String>,
    pub camera_name: Option<String>,
    pub detection_types: Vec<String>,
}

/// One page of detections.
pub struct ProtectEventsOutput {
    pub rows: Vec<ProtectEventView>,
    pub window_start: u64,
    pub window_end: u64,
    pub scanned_rows: usize,
    pub complete: bool,
    pub next_cursor: Option<ProtectEventsCursor>,
}

/// What a search reads: a window, filters, and where to go on from.
pub struct ResolvedProtectEventQuery {
    pub window_start: u64,
    pub window_end: u64,
    pub camera_id: Option<String>,
    pub detection: Option<String>,
    pub continuation: Option<u64>,
}

// ---------------------------------------------------------------------------
// Windows
// ---------------------------------------------------------------------------

/// The refusal of a window, where it is refused.
pub open spec fn window_refusal(start: int, end: int) -> Option<Seq<char>> {
    if start > end {
        Some("Protect event start is after end"@)
    } else if end - start > MAXIMUM_EVENT_WINDOW_HOURS * HOUR_MS {
        Some(
            "Protect event windows may span at most 168 hours; use adjacent windows for older history"@,
        )
    } else {
        None
    }
}

/// Refuses a window that is reversed or too long.
pub fn validate_protect_window(start: u64, end: u64) -> (result: Result<(), ToolError>)
    ensures
        result is Err <==> window_refusal(start as int, end as int) is Some,
        result matches Err(error) ==> is_invalid_params(
            error,
            window_refusal(start as int, end as int)->Some_0,
        ),
{
    if start > end {
        return Err(invalid_params("Protect event start is after end"));
    }
    let maximum: u64 = MAXIMUM_EVENT_WINDOW_HOURS as u64 * HOUR_MS;
    if end - start > maximum {
        return Err(
            invalid_params(
                "Protect event windows may span at most 168 hours; use adjacent windows for older history",
            ),
        );
    }
    Ok(())
}

// ---------------------------------------------------------------------------
// Cameras
// ---------------------------------------------------------------------------

/// The refusal of a camera filter, where it is refused.
pub open spec fn camera_refusal(raw: Option<Seq<char>>, cameras: Seq<CameraView>) -> Option<Seq<char>> {
    match raw {
        None => None,
        Some(text) => if !camera_selector_accepted(text) {
            Some(camera_selector_message())
        } else {
            let named = selected_cameras(cameras, trimmed(text));
            if named.len() == 1 {
                None
            } else if named.len() == 0 {
                Some(no_camera_message())
            } else {
                Some(several_cameras_message(named.len()))
            }
        },
    }
}

/// The id a camera filter stands for.
pub open spec fn resolved_camera(raw: Option<Seq<char>>, cameras: Seq<CameraView>) -> Option<Seq<char>> {
    match raw {
        None => None,
        Some(text) => Some(selected_cameras(cameras, trimmed(text))[0].id@),
    }
}

fn matching_ids(cameras: &Vec<CameraView>, selector: &str) -> (ids: Vec<String>)
    ensures
        ids@.len() == selected_cameras(cameras@, selector@).len(),
        forall|i: int|
            0 <= i < ids@.len() ==> (#[trigger] ids@[i])@ == selected_cameras(cameras@, selector@)[i].id@,
{
    let by_id = has_camera_id(cameras, selector);
    let lower = to_lowercase(selector);
    let ghost pred = if by_id {
        camera_by_id(selector@)
    } else {
        camera_by_name(selector@)
    };
    let mut ids: Vec<String> = Vec::new();
    let mut i: usize = 0;
    proof {
        reveal(Seq::filter);
    }
    while i < cameras.len()
        invariant
            i <= cameras@.len(),
            lower@ == lowercase(selector@),
            pred == if by_id {
                camera_by_id(selector@)
            } else {
                camera_by_name(selector@)
            },
            ids@.len() == cameras@.take(i as int).filter(pred).len(),
            forall|k: int|
                0 <= k < ids@.len() ==> (#[trigger] ids@[k])@ == cameras@.take(i as int).filter(
                    pred,
                )[k].id@,
        decreases cameras@.len() - i,
    {
        proof {
            reveal(Seq::filter);
            assert(cameras@.take(i + 1).drop_last() =~= cameras@.take(i as int));
            assert(cameras@.take(i + 1).last() == cameras@[i as int]);
        }
        let matches = if by_id {
            same_text(cameras[i].id.as_str(), selector)
        } else {
            let by_name = match &cameras[i].name {
                Some(name) => camera_name_matches(name.as_str(), lower.as_str()),
                None => false,
            };
            by_name || camera_name_matches(cameras[i].display_name.as_str(), lower.as_str())
        };
        if matches {
            ids.push(cameras[i].id.clone());
        }
        i += 1;
    }
    assert(cameras@.take(i as int) =~= cameras@);
    ids
}

/// The id a camera filter stands for.
pub fn resolve_camera_id(raw: Option<&str>, inventory: &Vec<CameraView>) -> (result: Result<
    Option<String>,
    ToolError,
>)
    ensures
        result is Err <==> camera_refusal(opt_text(raw), inventory@) is Some,
        result matches Err(error) ==> is_invalid_params(
            error,
            camera_refusal(opt_text(raw), inventory@)->Some_0,
        ),
        result matches Ok(id) ==> opt_string(id) == resolved_camera(opt_text(raw), inventory@),
{
    let raw = match raw {
        Some(raw) => raw,
        None => {
            return Ok(None);
        },
    };
    let selector = match camera_selector(raw) {
        Ok(selector) => selector,
        Err(error) => {
            return Err(error);
        },
    };
    let mut ids = matching_ids(inventory, selector.as_str());
    if ids.len() != 1 {
        return Err(wrong_count(ids.len()));
    }
    Ok(Some(ids.remove(0)))
}

/// Whether the cameras' names must be read before a search can be resolved:
/// its camera filter is no public id.
pub open spec fn names_needed(input: ProtectEventsInput, public: Seq<CameraView>) -> bool {
    &&& input.cursor is None
    &&& input.camera matches Some(raw) && !some_row(public, camera_by_id(trimmed(raw@)))
}

/// Whether the cameras' names must be read before a search can be resolved;
/// refuses a page size or selector that is out of bounds.
pub fn plan_protect_events(input: &ProtectEventsInput, public: &Vec<CameraView>) -> (result: Result<
    bool,
    ToolError,
>)
    ensures
        result is Ok <==> limit_accepted(input.limit as int) && (input.camera matches Some(raw)
            ==> camera_selector_accepted(raw@)),
        result matches Ok(needed) ==> needed == names_needed(*input, public@),
        result matches Err(error) ==> if !limit_accepted(input.limit as int) {
            is_invalid_params(error, "limit must be between 1 and 200"@)
        } else {
            is_invalid_params(error, camera_selector_message())
        },
{
    if let Err(error) = validate_page(0, input.limit) {
        return Err(error);
    }
    match &input.camera {
        None => Ok(false),
        Some(raw) => match camera_selector(raw.as_str()) {
            Ok(selector) => Ok(
                input.cursor.is_none() && !has_camera_id(public, selector.as_str()),
            ),
            Err(error) => Err(error),
        },
    }
}

/// The refusal of a search on a server without a local session.
pub open spec fn no_session_message() -> Seq<char> {
    "no local Protect session is configured on this server, so historical detections cannot be read; configure the dedicated Protect username and password"@
}

/// Refuses a search where no local session is configured: the public
/// interface has no history.
pub fn require_event_session(configured: bool) -> (result: Result<(), ToolError>)
    ensures
        result is Ok <==> configured,
        result matches Err(error) ==> is_invalid_params(error, no_session_message()),
{
    if !configured {
        return Err(
            invalid_params(
                "no local Protect session is configured on this server, so historical detections cannot be read; configure the dedicated Protect username and password",
            ),
        );
    }
    Ok(())
}

/// Refuses a camera name where the local inventory does not cover every
/// camera.
pub fn require_camera_names(state: LocalEnrichmentState) -> (result: Result<(), ToolError>)
    ensures
        result is Ok <==> state == LocalEnrichmentState::Available,
        result matches Err(error) ==> is_invalid_params(error, incomplete_names_message()),
{
    if state != LocalEnrichmentState::Available {
        return Err(
            invalid_params(
                "camera name selection requires complete local Protect inventory; select by id",
            ),
        );
    }
    Ok(())
}

// ---------------------------------------------------------------------------
// Resolving
// ---------------------------------------------------------------------------

/// Whether a cursor stands beside a field that it replaces.
pub open spec fn cursor_combined(input: ProtectEventsInput) -> bool {
    input.last_hours is Some || input.start is Some || input.end is Some || input.camera is Some
        || input.detection is Some
}

/// Whether a cursor points inside its own window and names a camera sensibly.
pub open spec fn cursor_sound(cursor: ProtectEventsCursor) -> bool {
    &&& cursor.window_start <= cursor.next_end <= cursor.window_end
    &&& cursor.camera_id matches Some(id) ==> id@.len() > 0 && byte_len(id@)
        <= EVENT_MESSAGE_CEILING
}

/// The refusal of a cursor, where it is refused.
pub open spec fn cursor_refusal(
    cursor: ProtectEventsCursor,
    input: ProtectEventsInput,
) -> Option<Seq<char>> {
    if cursor_combined(input) {
        Some("cursor cannot be combined with window or filter fields"@)
    } else if window_refusal(cursor.window_start as int, cursor.window_end as int) is Some {
        window_refusal(cursor.window_start as int, cursor.window_end as int)
    } else if !cursor_sound(cursor) {
        Some("Protect event cursor is invalid"@)
    } else if !filter_accepted(opt_string(cursor.detection)) {
        Some(filter_message())
    } else {
        None
    }
}

/// The hours of a relative window.
pub open spec fn relative_hours(input: ProtectEventsInput) -> u32 {
    match input.last_hours {
        Some(hours) => hours,
        None => DEFAULT_EVENT_WINDOW_HOURS,
    }
}

/// Whether the window ends now.
pub open spec fn is_relative(input: ProtectEventsInput) -> bool {
    input.start is None && input.end is None
}

/// Whether the window is given by its two ends.
pub open spec fn is_explicit(input: ProtectEventsInput) -> bool {
    input.start is Some && input.end is Some && input.last_hours is None
}

/// The window of a search that is no continuation.
pub open spec fn first_window(input: ProtectEventsInput, now: int) -> (int, int) {
    if is_explicit(input) {
        (input.start->Some_0 as int, input.end->Some_0 as int)
    } else {
        (window_start(now, relative_hours(input) as int), now)
    }
}

/// The refusal of a search that is no continuation, where it is refused.
pub open spec fn first_refusal(
    input: ProtectEventsInput,
    cameras: Seq<CameraView>,
    now: int,
) -> Option<Seq<char>> {
    let (start, end) = first_window(input, now);
    if !filter_accepted(opt_string(input.detection)) {
        Some(filter_message())
    } else if !is_explicit(input) && !is_relative(input) {
        Some("start and end must be supplied together and cannot be combined with lastHours"@)
    } else if is_relative(input) && !hours_accepted(relative_hours(input) as int) {
        Some(hours_message())
    } else if window_refusal(start, end) is Some {
        window_refusal(start, end)
    } else {
        camera_refusal(opt_string(input.camera), cameras)
    }
}

/// The refusal of a search at a time, where it is refused.
pub open spec fn query_refusal(
    input: ProtectEventsInput,
    cameras: Seq<CameraView>,
    now: int,
) -> Option<Seq<char>> {
    match input.cursor {
        Some(cursor) => cursor_refusal(cursor, input),
        None => first_refusal(input, cameras, now),
    }
}

/// Whether a query is what a search asks for at a time. A cursor freezes the
/// window and the filters of the page it came from.
pub open spec fn is_query(
    query: ResolvedProtectEventQuery,
    input: ProtectEventsInput,
    cameras: Seq<CameraView>,
    now: int,
) -> bool {
    match input.cursor {
        Some(cursor) => {
            &&& query.window_start == cursor.window_start
            &&& query.window_end == cursor.window_end
            &&& query.camera_id == cursor.camera_id
            &&& opt_string(query.detection) == filter_text(opt_string(cursor.detection))
            &&& query.continuation == Some(cursor.next_end)
        },
        None => {
            &&& (query.window_start as int, query.window_end as int) == first_window(input, now)
            &&& opt_string(query.camera_id) == resolved_camera(opt_string(input.camera), cameras)
            &&& opt_string(query.detection) == filter_text(opt_string(input.detection))
            &&& query.continuation is None
        },
    }
}

/// What was asked for and what came of it, at a time.
pub open spec fn answers(
    result: Result<ResolvedProtectEventQuery, ToolError>,
    input: ProtectEventsInput,
    cameras: Seq<CameraView>,
    now: int,
) -> bool {
    match result {
        Ok(query) => query_refusal(input, cameras, now) is None && is_query(
            query,
            input,
            cameras,
            now,
        ),
        Err(error) => query_refusal(input, cameras, now) is Some && is_invalid_params(
            error,
            query_refusal(input, cameras, now)->Some_0,
        ),
    }
}

/// Whether resolving a search reads the clock: it is no continuation, its
/// window is relative, and nothing before the window refuses it.
pub open spec fn reads_clock(input: ProtectEventsInput) -> bool {
    &&& input.cursor is None
    &&& is_relative(input)
    &&& filter_accepted(opt_string(input.detection))
    &&& hours_accepted(relative_hours(input) as int)
}

/// Resolves a search at a time.
pub fn resolve_protect_event_query_at(
    input: ProtectEventsInput,
    inventory: &Vec<CameraView>,
    now: u64,
) -> (result: Result<ResolvedProtectEventQuery, ToolError>)
    ensures
        answers(result, input, inventory@, now as int),
{
    match input.cursor {
        Some(cursor) => {
            if input.last_hours.is_some() || input.start.is_some() || input.end.is_some()
                || input.camera.is_some() || input.detection.is_some() {
                return Err(
                    invalid_params("cursor cannot be combined with window or filter fields"),
                );
            }
            if let Err(error) = validate_protect_window(cursor.window_start, cursor.window_end) {
                return Err(error);
            }
            let camera_sound = match &cursor.camera_id {
                Some(id) => !id.as_str().is_empty() && count_bytes(id.as_str())
                    <= EVENT_MESSAGE_CEILING,
                None => true,
            };
            if cursor.next_end < cursor.window_start || cursor.next_end > cursor.window_end
                || !camera_sound {
                return Err(invalid_params("Protect event cursor is invalid"));
            }
            match validate_filter(as_slice(&cursor.detection)) {
                Err(error) => Err(error),
                Ok(detection) => Ok(
                    ResolvedProtectEventQuery {
                        window_start: cursor.window_start,
                        window_end: cursor.window_end,
                        camera_id: cursor.camera_id,
                        detection,
                        continuation: Some(cursor.next_end),
                    },
                ),
            }
        },
        None => {
            let detection = match validate_filter(as_slice(&input.detection)) {
                Ok(detection) => detection,
                Err(error) => {
                    return Err(error);
                },
            };
            let (start, end): (u64, u64) = match (input.start, input.end, input.last_hours) {
                (Some(start), Some(end), None) => (start, end),
                (None, None, last_hours) => {
                    let hours: u32 = match last_hours {
                        Some(hours) => hours,
                        None => DEFAULT_EVENT_WINDOW_HOURS,
                    };
                    if hours < 1 || hours > MAXIMUM_EVENT_WINDOW_HOURS {
                        return Err(invalid_params("lastHours must be between 1 and 168"));
                    }
                    (start_of_window(now, hours), now)
                },
                _ => {
                    return Err(
                        invalid_params(
                            "start and end must be supplied together and cannot be combined with lastHours",
                        ),
                    );
                },
            };
            if let Err(error) = validate_protect_window(start, end) {
                return Err(error);
            }
            match resolve_camera_id(as_slice(&input.camera), inventory) {
                Err(error) => Err(error),
                Ok(camera_id) => Ok(
                    ResolvedProtectEventQuery {
                        window_start: start,
                        window_end: end,
                        camera_id,
                        detection,
                        continuation: None,
                    },
                ),
            }
        },
    }
}

/// Resolves a search, reading the clock only for a relative window. Whatever
/// the clock says, the answer is that of some time, or the clock's refusal.
pub fn resolve_protect_event_query(input: ProtectEventsInput, inventory: &Vec<CameraView>) -> (result:
    Result<ResolvedProtectEventQuery, ToolError>)
    ensures
        (exists|now: u64| #[trigger] answers(result, input, inventory@, now as int)) || (
        reads_clock(input) && result is Err && is_clock_error(result->Err_0)),
{
    let relative = input.cursor.is_none() && input.start.is_none() && input.end.is_none();
    let hours: u32 = match input.last_hours {
        Some(hours) => hours,
        None => DEFAULT_EVENT_WINDOW_HOURS,
    };
    let mut now: u64 = 0;
    if relative && validate_filter(as_slice(&input.detection)).is_ok() && hours >= 1 && hours
        <= MAXIMUM_EVENT_WINDOW_HOURS {
        match current_time_ms() {
            Ok(time) => {
                now = time;
            },
            Err(error) => {
                return Err(error);
            },
        }
    }
    let result = resolve_protect_event_query_at(input, inventory, now);
    assert(answers(result, input, inventory@, now as int));
    result
}

// ---------------------------------------------------------------------------
// Pages
// ---------------------------------------------------------------------------

/// Whether a detection meets the filters of a query.
pub open spec fn event_meets(
    event: ProtectEvent,
    camera_id: Option<Seq<char>>,
    detection: Option<Seq<char>>,
) -> bool {
    &&& camera_id is Some ==> opt_string(event.camera) == camera_id
    &&& detection matches Some(wanted) ==> (eq_ignoring_ascii_case(event.kind@, wanted)
        || exists|i: int|
        0 <= i < event.smart_detect_types@.len() && eq_ignoring_ascii_case(
            (#[trigger] event.smart_detect_types@[i])@,
            wanted,
        ))
}

/// The filter of a query.
pub open spec fn event_filter(query: ResolvedProtectEventQuery) -> spec_fn(ProtectEvent) -> bool {
    |event: ProtectEvent|
        event_meets(event, opt_string(query.camera_id), opt_string(query.detection))
}

fn event_matches(event: &ProtectEvent, camera_id: Option<&str>, detection: Option<&str>) -> (result:
    bool)
    ensures
        result == event_meets(*event, opt_text(camera_id), opt_text(detection)),
{
    if let Some(wanted) = camera_id {
        let same = match &event.camera {
            Some(camera) => same_text(camera.as_str(), wanted),
            None => false,
        };
        if !same {
            return false;
        }
    }
    match detection {
        None => true,
        Some(wanted) => {
            let test = |label: &String| -> (answer: bool)
                ensures
                    answer == eq_ignoring_ascii_case(label@, wanted@)
            {
                same_ignoring_ascii_case(label.as_str(), wanted)
            };
            same_ignoring_ascii_case(event.kind.as_str(), wanted) || any(
                &event.smart_detect_types,
                test,
                Ghost(|label: String| eq_ignoring_ascii_case(label@, wanted@)),
            )
        },
    }
}

/// The names of an inventory by camera id.
pub open spec fn camera_entry(camera: CameraView) -> Option<(Seq<char>, String)> {
    match camera.name {
        Some(name) => Some((camera.id@, name)),
        None => None,
    }
}

/// The names of an inventory by camera id.
pub open spec fn camera_entries(cameras: Seq<CameraView>) -> Seq<(Seq<char>, String)> {
    cameras.filter_map(|camera: CameraView| camera_entry(camera))
}

/// The reported names of an inventory by camera id.
pub fn names_by_camera(cameras: &Vec<CameraView>) -> (entries: Vec<NameEntry>)
    ensures
        entries_of(entries@) == camera_entries(cameras@),
{
    let mut entries: Vec<NameEntry> = Vec::new();
    let mut i: usize = 0;
    assert(entries_of(entries@) =~= camera_entries(cameras@.take(0)));
    while i < cameras.len()
        invariant
            i <= cameras@.len(),
            entries_of(entries@) == camera_entries(cameras@.take(i as int)),
        decreases cameras@.len() - i,
    {
        let ghost prior = entries_of(entries@);
        assert(cameras@.take(i + 1).drop_last() =~= cameras@.take(i as int));
        assert(cameras@.take(i + 1).last() == cameras@[i as int]);
        if let Some(name) = &cameras[i].name {
            let entry = NameEntry { key: cameras[i].id.clone(), name: name.clone() };
            let ghost added = (entry.key@, entry.name);
            entries.push(entry);
            assert(entries_of(entries@) =~= prior + seq![added]);
        }
        i += 1;
    }
    assert(cameras@.take(i as int) =~= cameras@);
    entries
}

/// The labels of a detection, each bounded and none cut off.
pub open spec fn bounded_labels(labels: Seq<Seq<char>>) -> Seq<Seq<char>> {
    labels.map_values(|label: Seq<char>| bounded(label))
}

/// Whether a row shows a detection.
pub open spec fn shows_event(
    row: ProtectEventView,
    event: ProtectEvent,
    entries: Seq<(Seq<char>, String)>,
) -> bool {
    &&& row.id == event.id
    &&& row.kind@ == bounded(event.kind@)
    &&& row.start == event.start
    &&& row.end == event.end
    &&& row.score == event.score
    &&& opt_string(row.camera_id) == opt_bounded(opt_string(event.camera))
    &&& row.camera_name == (match event.camera {
        Some(id) => name_at(entries, id@),
        None => None,
    })
    &&& texts(row.detection_types@) == bounded_labels(texts(event.smart_detect_types@))
}

fn event_view(event: ProtectEvent, entries: &Vec<NameEntry>) -> (row: ProtectEventView)
    ensures
        shows_event(row, event, entries_of(entries@)),
{
    let camera_name = match &event.camera {
        Some(id) => find_name(entries, id.as_str()),
        None => None,
    };
    let ghost labels = event.smart_detect_types@;
    let conversion = |label: String| -> (shown: String)
        ensures
            shown@ == bounded(label@)
    {
        bounded_text(label)
    };
    let detection_types = convert(event.smart_detect_types, conversion);
    assert(texts(detection_types@) =~= bounded_labels(texts(labels)));
    ProtectEventView {
        id: event.id,
        kind: bounded_text(event.kind),
        start: event.start,
        end: event.end,
        score: event.score,
        camera_id: bounded_option(event.camera),
        camera_name,
        detection_types,
    }
}

/// The cursor behind a page of a query.
pub open spec fn cursor_after(query: ResolvedProtectEventQuery, next_end: u64) -> ProtectEventsCursor {
    ProtectEventsCursor {
        window_start: query.window_start,
        window_end: query.window_end,
        next_end,
        camera_id: query.camera_id,
        detection: query.detection,
    }
}

/// The order of detections: the newest start first.
pub open spec fn latest_first() -> spec_fn(ProtectEvent) -> Rank {
    |event: ProtectEvent| by_number(-(event.start as int))
}

/// The detections of a page that meet a query's filters, the newest first.
pub open spec fn found_detections(
    events: Seq<ProtectEvent>,
    query: ResolvedProtectEventQuery,
) -> Seq<ProtectEvent> {
    stable_sort(events.filter(event_filter(query)), latest_first())
}

/// One page of detections: the rows of the page that meet the query's
/// filters, the newest first, and the cursor behind them. The window is complete exactly where
/// the console reports no next page.
pub fn protect_events_search(
    query: ResolvedProtectEventQuery,
    inventory: &Vec<CameraView>,
    found: ProtectEventPage,
) -> (output: ProtectEventsOutput)
    ensures
        ({
            let kept = found_detections(found.events@, query);
            &&& output.rows@.len() == kept.len()
            &&& forall|i: int|
                0 <= i < kept.len() ==> shows_event(
                    #[trigger] output.rows@[i],
                    kept[i],
                    camera_entries(inventory@),
                )
        }),
        output.window_start == query.window_start,
        output.window_end == query.window_end,
        output.scanned_rows == found.scanned_rows,
        output.complete <==> found.next_end is None,
        match found.next_end {
            Some(next_end) => output.next_cursor == Some(cursor_after(query, next_end)),
            None => output.next_cursor is None,
        },
{
    let entries = names_by_camera(inventory);
    let names = &entries;
    let camera_id = as_slice(&query.camera_id);
    let detection = as_slice(&query.detection);
    let test = |event: &ProtectEvent| -> (answer: bool)
        ensures
            answer == event_meets(*event, opt_text(camera_id), opt_text(detection))
    {
        event_matches(event, camera_id, detection)
    };
    let kept = keep(found.events, test, Ghost(event_filter(query)));
    let ghost all = kept@;
    let keying = |event: ProtectEvent| -> (pair: (Key, ProtectEvent))
        ensures
            pair.1 == event && pair.0@ == by_number(-(event.start as int))
    {
        (number_key(0 - event.start as i128), event)
    };
    let keyed = convert(kept, keying);
    assert(rows_of(keyed@) =~= all);
    let kept = sort_keyed(keyed, Ghost(latest_first()));
    let conversion = |event: ProtectEvent| -> (row: ProtectEventView)
        ensures
            shows_event(row, event, entries_of(names@))
    {
        event_view(event, names)
    };
    let rows = convert(kept, conversion);
    let next_cursor = match found.next_end {
        Some(next_end) => Some(
            ProtectEventsCursor {
                window_start: query.window_start,
                window_end: query.window_end,
                next_end,
                camera_id: query.camera_id.clone(),
                detection: query.detection.clone(),
            },
        ),
        None => None,
    };
    ProtectEventsOutput {
        rows,
        window_start: query.window_start,
        window_end: query.window_end,
        scanned_rows: found.scanned_rows,
        complete: found.next_end.is_none(),
        next_cursor,
    }
}

// ---------------------------------------------------------------------------
// Laws
// ---------------------------------------------------------------------------

/// Every search that is answered covers a window that is not reversed and
/// spans at most the allowed hours.
pub proof fn law_windows_are_bounded(
    result: Result<ResolvedProtectEventQuery, ToolError>,
    input: ProtectEventsInput,
    cameras: Seq<CameraView>,
    now: int,
)
    requires
        answers(result, input, cameras, now),
        result is Ok,
    ensures
        result->Ok_0.window_start <= result->Ok_0.window_end,
        result->Ok_0.window_end - result->Ok_0.window_start <= MAXIMUM_EVENT_WINDOW_HOURS
            * HOUR_MS,
{
}

/// Passing a cursor back unchanged continues the same search: the same
/// window, camera and detection, from where the page ended. This holds of
/// every page end inside the window, where the camera id is one a cursor may
/// carry and the detection filter is its own normal form.
pub proof fn law_cursor_continues_the_same_search(
    query: ResolvedProtectEventQuery,
    next_end: u64,
    input: ProtectEventsInput,
    next: ResolvedProtectEventQuery,
    cameras: Seq<CameraView>,
    now: int,
)
    requires
        window_refusal(query.window_start as int, query.window_end as int) is None,
        cursor_sound(cursor_after(query, next_end)),
        filter_accepted(opt_string(query.detection)),
        filter_text(opt_string(query.detection)) == opt_string(query.detection),
        input.cursor == Some(cursor_after(query, next_end)),
        !cursor_combined(input),
        is_query(next, input, cameras, now),
    ensures
        query_refusal(input, cameras, now) is None,
        next.window_start == query.window_start,
        next.window_end == query.window_end,
        next.camera_id == query.camera_id,
        opt_string(next.detection) == opt_string(query.detection),
        next.continuation == Some(next_end),
{
}

/// A search by cursor asks for the same whatever the time and whatever the
/// cameras are called now.
pub proof fn law_cursor_ignores_time_and_names(
    result: Result<ResolvedProtectEventQuery, ToolError>,
    input: ProtectEventsInput,
    cameras: Seq<CameraView>,
    others: Seq<CameraView>,
    now: int,
    later: int,
)
    requires
        input.cursor is Some,
    ensures
        answers(result, input, cameras, now) <==> answers(result, input, others, later),
{
}

/// A page shows the detections that meet its filters and no other, and none
/// starts later than one before it.
pub proof fn law_detections_stand_newest_first(
    events: Seq<ProtectEvent>,
    query: ResolvedProtectEventQuery,
    i: int,
    j: int,
)
    requires
        0 <= i <= j < found_detections(events, query).len(),
    ensures
        found_detections(events, query)[j].start <= found_detections(events, query)[i].start,
        found_detections(events, query).to_multiset() == events.filter(
            event_filter(query),
        ).to_multiset(),
{
    let found = found_detections(events, query);
    crate::order::law_sorting_orders_and_keeps_the_rows(
        events.filter(event_filter(query)),
        latest_first(),
    );
    if i < j {
        assert(!crate::order::before(latest_first()(found[j]), latest_first()(found[i])));
    }
}

} // verus!
