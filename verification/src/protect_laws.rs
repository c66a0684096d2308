//! What holds of searches for cameras and for detections.

use vstd::prelude::*;
use vstd::string::*;

use crate::camera_tools::{
    camera_name_matches, camera_selector, cameras_search, cameras_status, check_cameras_search,
    class_filter_available, class_report, found_cameras, has_camera_id, protect_capabilities,
    protect_overview, select_cameras, selected_cameras, CamerasSearchInput, CamerasSearchOutput,
    ProtectCapabilitiesView, ProtectOverviewOutput,
};
use crate::cameras::{CameraView, LocalEnrichmentState};
use crate::error::{ErrorKind, ToolError};
use crate::inventory::CameraInventory;
use crate::order::{lemma_filter_count, lemma_sorted_matches};
use crate::protect_events::{
    camera_entries, event_filter, found_detections, latest_first, plan_protect_events,
    protect_events_search, require_camera_names, require_event_session, resolve_camera_id,
    resolve_protect_event_query, resolve_protect_event_query_at, validate_protect_window,
    ProtectEvent, ProtectEventPage, ProtectEventsCursor, ProtectEventsInput, ProtectEventsOutput,
    ResolvedProtectEventQuery,
};
use crate::recorder::{recorder_view, ProtectLocalNvr, ProtectNvr, RecorderView};
use crate::text::{ascii_lower, byte_len, contains, lowercase, opt_string, precedes, texts, trimmed};
use crate::text_laws::is_blank;

verus! {

// ---------------------------------------------------------------------------
// Detections
// ---------------------------------------------------------------------------

/// Whether two texts are the same letter for letter, but for the case of
/// ASCII letters.
pub open spec fn same_letters(a: Seq<char>, b: Seq<char>) -> bool {
    a.len() == b.len() && forall|i: int|
        0 <= i < a.len() ==> ascii_lower(#[trigger] a[i]) == ascii_lower(b[i])
}

/// Comparing without ASCII case is comparing letter by letter.
pub proof fn lemma_same_letters(a: Seq<char>, b: Seq<char>)
    ensures
        crate::text::eq_ignoring_ascii_case(a, b) == same_letters(a, b),
{
    let x = crate::text::ascii_lowercase(a);
    let y = crate::text::ascii_lowercase(b);
    assert(x.len() == a.len() && y.len() == b.len());
    if x == y {
        assert forall|i: int| 0 <= i < a.len() implies ascii_lower(#[trigger] a[i]) == ascii_lower(
            b[i],
        ) by {
            assert(x[i] == y[i]);
        }
    }
    if same_letters(a, b) {
        assert forall|i: int| 0 <= i < x.len() implies x[i] == y[i] by {
            assert(ascii_lower(a[i]) == ascii_lower(b[i]));
        }
        assert(x =~= y);
    }
}

/// A detection filter finds an event by its kind, or by one of its labels,
/// whatever the case; a camera filter by its camera alone. Every event of the
/// page that meets both is found as often as it stands there, and no other.
pub proof fn law_detections_are_found_by_kind_or_label(
    events: Seq<ProtectEvent>,
    query: ResolvedProtectEventQuery,
    event: ProtectEvent,
)
    ensures
        ({
            let on_camera = query.camera_id matches Some(id) ==> event.camera is Some
                && event.camera->Some_0@ == id@;
            let detected = query.detection matches Some(wanted) ==> {
                ||| same_letters(event.kind@, wanted@)
                ||| exists|i: int|
                    0 <= i < event.smart_detect_types@.len() && same_letters(
                        (#[trigger] event.smart_detect_types@[i])@,
                        wanted@,
                    )
            };
            found_detections(events, query).to_multiset().count(event) == if on_camera && detected {
                events.to_multiset().count(event)
            } else {
                0
            }
        }),
{
    lemma_sorted_matches(events, event_filter(query), latest_first(), event);
    if let Some(wanted) = query.detection {
        lemma_same_letters(event.kind@, wanted@);
        assert forall|i: int| 0 <= i < event.smart_detect_types@.len() implies same_letters(
            (#[trigger] event.smart_detect_types@[i])@,
            wanted@,
        ) == crate::text::eq_ignoring_ascii_case(event.smart_detect_types@[i]@, wanted@) by {
            lemma_same_letters(event.smart_detect_types@[i]@, wanted@);
        }
    }
}

/// An event whose kind is the wanted detection is found, and so is one with a
/// label that is, where no camera is named.
pub proof fn law_kinds_and_labels_each_find_an_event(
    events: Seq<ProtectEvent>,
    query: ResolvedProtectEventQuery,
    event: ProtectEvent,
    wanted: Seq<char>,
    label: int,
)
    requires
        events.contains(event),
        query.camera_id is None,
        query.detection is Some,
        query.detection->Some_0@ == wanted,
    ensures
        same_letters(event.kind@, wanted) ==> found_detections(events, query).contains(event),
        0 <= label < event.smart_detect_types@.len() && same_letters(
            event.smart_detect_types@[label]@,
            wanted,
        ) ==> found_detections(events, query).contains(event),
{
    lemma_sorted_matches(events, event_filter(query), latest_first(), event);
    lemma_same_letters(event.kind@, wanted);
    if 0 <= label < event.smart_detect_types@.len() {
        lemma_same_letters(event.smart_detect_types@[label]@, wanted);
    }
}

/// A search shows one row for each found detection, the latest first: with
/// its own id, times and score, its kind, camera and labels bounded, and the
/// name of its camera. It restates the window, counts the rows that were
/// scanned, and offers a cursor over the same window and filters exactly
/// where the scan stopped short.
pub proof fn law_detection_rows_show_their_events(
    query: ResolvedProtectEventQuery,
    inventory: &Vec<CameraView>,
    found: ProtectEventPage,
    output: ProtectEventsOutput,
)
    requires
        call_ensures(protect_events_search, (query, inventory, found), output),
    ensures
        ({
            let kept = found_detections(found.events@, query);
            let rows = output.rows@;
            &&& rows.len() == kept.len()
            &&& forall|i: int|
                #![trigger rows[i]]
                0 <= i < rows.len() ==> {
                    &&& rows[i].id == kept[i].id
                    &&& rows[i].start == kept[i].start
                    &&& rows[i].end == kept[i].end
                    &&& rows[i].score == kept[i].score
                    &&& kept[i].kind@.len() <= 256 ==> rows[i].kind@ == kept[i].kind@
                    &&& rows[i].camera_id is Some <==> kept[i].camera is Some
                    &&& kept[i].camera is Some && kept[i].camera->Some_0@.len() <= 256
                        ==> rows[i].camera_id->Some_0@ == kept[i].camera->Some_0@
                    &&& rows[i].detection_types@.len() == kept[i].smart_detect_types@.len()
                    &&& forall|k: int|
                        0 <= k < kept[i].smart_detect_types@.len() && (
                        #[trigger] kept[i].smart_detect_types@[k])@.len() <= 256
                            ==> rows[i].detection_types@[k]@ == kept[i].smart_detect_types@[k]@
                }
            &&& forall|i: int, j: int|
                0 <= i < j < rows.len() ==> (#[trigger] rows[i]).start >= (
                #[trigger] rows[j]).start
        }),
        output.window_start == query.window_start,
        output.window_end == query.window_end,
        output.scanned_rows == found.scanned_rows,
        output.complete <==> found.next_end is None,
        output.next_cursor is Some <==> found.next_end is Some,
        output.next_cursor matches Some(cursor) ==> {
            &&& cursor.window_start == query.window_start
            &&& cursor.window_end == query.window_end
            &&& Some(cursor.next_end) == found.next_end
            &&& cursor.camera_id == query.camera_id
            &&& cursor.detection == query.detection
        },
{
    let kept = found_detections(found.events@, query);
    let rows = output.rows@;
    lemma_sorted_matches(found.events@, event_filter(query), latest_first(), kept[0]);
    assert forall|i: int| #![trigger rows[i]] 0 <= i < rows.len() implies {
        &&& rows[i].start == kept[i].start
        &&& rows[i].detection_types@.len() == kept[i].smart_detect_types@.len()
        &&& forall|k: int|
            0 <= k < kept[i].smart_detect_types@.len() && (
            #[trigger] kept[i].smart_detect_types@[k])@.len() <= 256
                ==> rows[i].detection_types@[k]@ == kept[i].smart_detect_types@[k]@
    } by {
        assert(crate::protect_events::shows_event(rows[i], kept[i], camera_entries(inventory@)));
        let shown = texts(rows[i].detection_types@);
        let given = texts(kept[i].smart_detect_types@);
        assert(shown.len() == given.len());
        assert forall|k: int|
            0 <= k < kept[i].smart_detect_types@.len() && (
            #[trigger] kept[i].smart_detect_types@[k])@.len() <= 256 implies rows[i].detection_types@[k]@
            == kept[i].smart_detect_types@[k]@ by {
            assert(shown[k] == crate::display::bounded(given[k]));
        }
    }
    assert forall|i: int, j: int| 0 <= i < j < rows.len() implies (#[trigger] rows[i]).start >= (
    #[trigger] rows[j]).start by {
        assert(!crate::order::before(latest_first()(kept[j]), latest_first()(kept[i])));
    }
}

/// The camera of a row is named as the inventory names the last camera of
/// that id which has a name.
pub proof fn law_detection_rows_name_their_camera(
    query: ResolvedProtectEventQuery,
    inventory: &Vec<CameraView>,
    found: ProtectEventPage,
    output: ProtectEventsOutput,
    i: int,
)
    requires
        call_ensures(protect_events_search, (query, inventory, found), output),
        0 <= i < output.rows@.len(),
    ensures
        ({
            let event = found_detections(found.events@, query)[i];
            let row = output.rows@[i];
            &&& event.camera is None ==> row.camera_name is None
            &&& event.camera matches Some(id) ==> {
                &&& row.camera_name is None <==> forall|k: int|
                    0 <= k < inventory@.len() && (#[trigger] inventory@[k]).id@ == id@
                        ==> inventory@[k].name is None
                &&& row.camera_name matches Some(name) ==> exists|k: int|
                    0 <= k < inventory@.len() && (#[trigger] inventory@[k]).id@ == id@
                        && inventory@[k].name == Some(name)
            }
        }),
{
    let event = found_detections(found.events@, query)[i];
    assert(crate::protect_events::shows_event(
        output.rows@[i],
        event,
        camera_entries(inventory@),
    ));
    if let Some(id) = event.camera {
        lemma_camera_name(inventory@, id@);
    }
}

proof fn lemma_camera_name(cameras: Seq<CameraView>, id: Seq<char>)
    ensures
        ({
            let name = crate::clients::name_at(camera_entries(cameras), id);
            &&& name is None <==> forall|k: int|
                0 <= k < cameras.len() && (#[trigger] cameras[k]).id@ == id ==> cameras[k].name is None
            &&& name matches Some(found) ==> exists|k: int|
                0 <= k < cameras.len() && (#[trigger] cameras[k]).id@ == id && cameras[k].name
                    == Some(found)
        }),
    decreases cameras.len(),
{
    if cameras.len() > 0 {
        let rest = cameras.drop_last();
        let last = cameras.last();
        lemma_camera_name(rest, id);
        let all = camera_entries(cameras);
        let prior = camera_entries(rest);
        assert forall|k: int| 0 <= k < rest.len() implies rest[k] == cameras[k] by {}
        if last.name is Some {
            assert(all.last() == (last.id@, last.name->Some_0));
            assert(all.drop_last() =~= prior);
        } else {
            assert(all =~= prior);
        }
        let name = crate::clients::name_at(all, id);
        if last.name is Some && last.id@ == id {
            assert(cameras[cameras.len() - 1].name == Some(name->Some_0));
        } else {
            assert(name == crate::clients::name_at(prior, id));
            if name is Some {
                let k = choose|k: int|
                    0 <= k < rest.len() && (#[trigger] rest[k]).id@ == id && rest[k].name == name;
                assert(cameras[k].name == name);
            } else {
                assert forall|k: int|
                    0 <= k < cameras.len() && (#[trigger] cameras[k]).id@ == id implies cameras[k].name is None by {
                    if k < rest.len() {
                        assert(rest[k] == cameras[k]);
                    }
                }
            }
        }
    }
}

/// A window is accepted exactly where it does not end before it starts and
/// spans at most 168 hours.
pub proof fn law_event_windows_span_a_week(start: u64, end: u64, result: Result<(), ToolError>)
    requires
        call_ensures(validate_protect_window, (start, end), result),
    ensures
        result is Ok <==> start <= end && end - start <= 168 * 3_600_000,
        result matches Err(error) ==> error.kind == ErrorKind::InvalidParams,
{
}

/// Detections are read only with a configured session.
pub proof fn law_detections_need_a_session(configured: bool, result: Result<(), ToolError>)
    requires
        call_ensures(require_event_session, (configured,), result),
    ensures
        result is Ok <==> configured,
        result matches Err(error) ==> error.kind == ErrorKind::InvalidParams,
{
}

/// A search without a cursor looks back 24 hours where nothing is said, as
/// many hours as are asked for, or over the window that is given, and never
/// both; its detection is compared in lowercase and its camera by id.
pub proof fn law_first_queries_say_what_was_asked(
    input: ProtectEventsInput,
    inventory: &Vec<CameraView>,
    now: u64,
    result: Result<ResolvedProtectEventQuery, ToolError>,
)
    requires
        call_ensures(resolve_protect_event_query_at, (input, inventory, now), result),
        input.cursor is None,
        result is Ok,
    ensures
        ({
            let query = result->Ok_0;
            &&& query.continuation is None
            &&& input.start is Some <==> input.end is Some
            &&& input.start is Some ==> input.last_hours is None && query.window_start
                == input.start->Some_0 && query.window_end == input.end->Some_0
            &&& input.start is None ==> {
                let hours = if input.last_hours is Some {
                    input.last_hours->Some_0
                } else {
                    24
                };
                &&& query.window_end == now
                &&& query.window_start == if now >= hours * 3_600_000 {
                    now - hours * 3_600_000
                } else {
                    0
                }
                &&& 1 <= hours <= 168
            }
            &&& query.window_start <= query.window_end
            &&& query.window_end - query.window_start <= 168 * 3_600_000
            &&& input.detection is None ==> query.detection is None
            &&& input.detection matches Some(text) ==> query.detection is Some
                && query.detection->Some_0@ == lowercase(trimmed(text@))
            &&& input.camera is None ==> query.camera_id is None
            &&& input.camera matches Some(raw) ==> query.camera_id is Some && exists|k: int|
                0 <= k < inventory@.len() && (#[trigger] inventory@[k]).id@
                    == query.camera_id->Some_0@
        }),
{
    let query = result->Ok_0;
    if let Some(raw) = input.camera {
        let named = selected_cameras(inventory@, trimmed(raw@));
        assert(named.contains(named[0]));
        crate::rows::lemma_filter_contains(
            inventory@,
            crate::camera_tools::camera_by_id(trimmed(raw@)),
            named[0],
        );
        crate::rows::lemma_filter_contains(
            inventory@,
            crate::camera_tools::camera_by_name(trimmed(raw@)),
            named[0],
        );
        let k = choose|k: int| 0 <= k < inventory@.len() && inventory@[k] == named[0];
        assert(inventory@[k].id@ == query.camera_id->Some_0@);
    }
}

/// A cursor is followed exactly where nothing else is asked for with it, its
/// window is in bounds and holds its continuation, and its filters are
/// bounded; the query is then over its window, camera and detection, from
/// its continuation.
pub proof fn law_cursors_are_followed(
    input: ProtectEventsInput,
    inventory: &Vec<CameraView>,
    now: u64,
    result: Result<ResolvedProtectEventQuery, ToolError>,
    cursor: ProtectEventsCursor,
)
    requires
        call_ensures(resolve_protect_event_query_at, (input, inventory, now), result),
        input.cursor == Some(cursor),
    ensures
        result is Ok <==> {
            &&& input.last_hours is None && input.start is None && input.end is None
            &&& input.camera is None && input.detection is None
            &&& cursor.window_start <= cursor.next_end <= cursor.window_end
            &&& cursor.window_end - cursor.window_start <= 168 * 3_600_000
            &&& cursor.camera_id matches Some(id) ==> id@.len() > 0 && byte_len(id@) <= 256
            &&& cursor.detection matches Some(text) ==> !is_blank(text@) && byte_len(trimmed(text@))
                <= 128
        },
        result matches Ok(query) ==> {
            &&& query.window_start == cursor.window_start
            &&& query.window_end == cursor.window_end
            &&& query.camera_id == cursor.camera_id
            &&& query.continuation == Some(cursor.next_end)
            &&& query.detection is Some <==> cursor.detection is Some
            &&& cursor.detection matches Some(text) ==> query.detection->Some_0@ == lowercase(
                trimmed(text@),
            )
        },
        result matches Err(error) ==> error.kind == ErrorKind::InvalidParams,
{
    if let Some(text) = cursor.detection {
        crate::text_laws::law_trimming_takes_white_space_off_the_ends(text@);
    }
}

/// Local names are needed exactly where a first search names a camera that is
/// not the id of a public one.
pub proof fn law_names_are_needed_where_no_id_matches(
    input: &ProtectEventsInput,
    public: &Vec<CameraView>,
    result: Result<bool, ToolError>,
)
    requires
        call_ensures(plan_protect_events, (input, public), result),
        result is Ok,
    ensures
        1 <= input.limit <= 200,
        result->Ok_0 <==> {
            &&& input.cursor is None
            &&& input.camera is Some
            &&& forall|k: int|
                0 <= k < public@.len() ==> (#[trigger] public@[k]).id@ != trimmed(
                    input.camera->Some_0@,
                )
        },
{
    if input.camera is Some {
        let test = crate::camera_tools::camera_by_id(trimmed(input.camera->Some_0@));
        if crate::clients::some_row(public@, test) {
            let k = choose|k: int| 0 <= k < public@.len() && test(#[trigger] public@[k]);
            assert(public@[k].id@ == trimmed(input.camera->Some_0@));
        }
        if exists|k: int|
            0 <= k < public@.len() && (#[trigger] public@[k]).id@ == trimmed(
                input.camera->Some_0@,
            ) {
            let k = choose|k: int|
                0 <= k < public@.len() && (#[trigger] public@[k]).id@ == trimmed(
                    input.camera->Some_0@,
                );
            assert(test(public@[k]));
        }
    }
}

// ---------------------------------------------------------------------------
// Cameras
// ---------------------------------------------------------------------------

/// A query finds a camera by its id, its reported name or its displayed name,
/// whatever the case; a model filter by part of its hardware model, a class
/// filter by one of its classes, a state filter by its whole state. Every
/// camera that meets all of what is asked is found as often as it stands in
/// the inventory, and no other.
pub proof fn law_camera_search_finds_exactly_what_is_asked_for(
    cameras: Seq<CameraView>,
    input: CamerasSearchInput,
    camera: CameraView,
)
    ensures
        ({
            let by_query = input.query matches Some(query) ==> {
                let needle = lowercase(trimmed(query@));
                ||| contains(lowercase(camera.id@), needle)
                ||| camera.name is Some && contains(lowercase(camera.name->Some_0@), needle)
                ||| contains(lowercase(camera.display_name@), needle)
            };
            let by_model = input.model matches Some(model) ==> camera.hardware_model is Some
                && contains(
                lowercase(camera.hardware_model->Some_0@),
                lowercase(trimmed(model@)),
            );
            let by_class = input.class_filter matches Some(class) ==> camera.classes is Some
                && exists|k: int|
                0 <= k < camera.classes->Some_0@.len() && (#[trigger] camera.classes->Some_0@[k])@
                    == lowercase(trimmed(class@));
            let by_state = input.state matches Some(state) ==> lowercase(camera.state@)
                == lowercase(trimmed(state@));
            found_cameras(cameras, input).to_multiset().count(camera) == if by_query && by_model
                && by_class && by_state {
                cameras.to_multiset().count(camera)
            } else {
                0
            }
        }),
{
    lemma_filter_count(cameras, crate::camera_tools::camera_filter(input), camera);
    if let Some(class) = input.class_filter {
        if let Some(list) = camera.classes {
            let wanted = lowercase(trimmed(class@));
            let all = texts(list@);
            if all.contains(wanted) {
                let k = choose|k: int| 0 <= k < all.len() && all[k] == wanted;
                assert(camera.classes->Some_0@[k]@ == wanted);
            }
            if exists|k: int|
                0 <= k < camera.classes->Some_0@.len() && (#[trigger] camera.classes->Some_0@[k])@
                    == wanted {
                let k = choose|k: int|
                    0 <= k < camera.classes->Some_0@.len() && (
                    #[trigger] camera.classes->Some_0@[k])@ == wanted;
                assert(all[k] == wanted);
            }
        }
    }
}

/// A search with a query alone finds every camera whose id holds it, every
/// camera whose reported name holds it, every camera whose displayed name
/// holds it, and no other.
pub proof fn law_query_finds_cameras_by_each_name(
    cameras: Seq<CameraView>,
    input: CamerasSearchInput,
    camera: CameraView,
    needle: Seq<char>,
)
    requires
        cameras.contains(camera),
        input.query is Some,
        needle == lowercase(trimmed(input.query->Some_0@)),
        input.model is None,
        input.class_filter is None,
        input.state is None,
    ensures
        contains(lowercase(camera.id@), needle) ==> found_cameras(cameras, input).contains(camera),
        camera.name is Some && contains(lowercase(camera.name->Some_0@), needle) ==> found_cameras(
            cameras,
            input,
        ).contains(camera),
        contains(lowercase(camera.display_name@), needle) ==> found_cameras(
            cameras,
            input,
        ).contains(camera),
        found_cameras(cameras, input).contains(camera) ==> {
            ||| contains(lowercase(camera.id@), needle)
            ||| camera.name is Some && contains(lowercase(camera.name->Some_0@), needle)
            ||| contains(lowercase(camera.display_name@), needle)
        },
{
    crate::rows::lemma_filter_contains(
        cameras,
        crate::camera_tools::camera_filter(input),
        camera,
    );
}

/// The page of a camera search holds the found cameras from its offset on, in
/// the order of the inventory, its total counts them all, and the next page
/// begins behind its last row.
pub proof fn law_camera_page_shows_what_was_found(
    inventory: CameraInventory,
    input: &CamerasSearchInput,
    result: Result<CamerasSearchOutput, ToolError>,
)
    requires
        call_ensures(cameras_search, (inventory, input), result),
        result is Ok,
    ensures
        ({
            let found = found_cameras(inventory.cameras@, *input);
            let output = result->Ok_0;
            let rows = output.cameras@;
            &&& 1 <= input.limit <= 200 && input.offset <= 10_000
            &&& output.total == found.len()
            &&& forall|i: int| 0 <= i < rows.len() ==> #[trigger] rows[i] == found[input.offset + i]
            &&& rows.len() <= input.limit
            &&& rows.len() < input.limit ==> input.offset + rows.len() >= found.len()
            &&& output.next_offset is Some <==> input.offset + rows.len() < found.len()
                && input.offset + rows.len() <= 10_000
            &&& output.next_offset matches Some(next) ==> next == input.offset + rows.len()
        }),
{
}

/// A model or class filter is answered only from a complete local inventory,
/// where every camera reports what is asked for; everything else is answered
/// from the public one.
pub proof fn law_local_filters_need_complete_local_data(
    inventory: CameraInventory,
    input: &CamerasSearchInput,
    result: Result<CamerasSearchOutput, ToolError>,
)
    requires
        call_ensures(cameras_search, (inventory, input), result),
    ensures
        result is Ok && input.model is Some ==> inventory.local_state
            == LocalEnrichmentState::Available && forall|k: int|
            0 <= k < inventory.cameras@.len() ==> (
            #[trigger] inventory.cameras@[k]).hardware_model is Some,
        result is Ok && input.class_filter is Some ==> inventory.local_state
            == LocalEnrichmentState::Available && forall|k: int|
            0 <= k < inventory.cameras@.len() ==> class_report(
                #[trigger] inventory.cameras@[k],
                lowercase(trimmed(input.class_filter->Some_0@)),
            ) is Some,
        input.model is None && input.class_filter is None ==> (result is Ok <==> {
            &&& 1 <= input.limit <= 200
            &&& input.offset <= 10_000
            &&& input.query matches Some(query) ==> !is_blank(query@) && byte_len(trimmed(query@))
                <= 128
            &&& input.state matches Some(state) ==> !is_blank(state@) && byte_len(trimmed(state@))
                <= 128
        }),
        result matches Err(error) ==> error.kind == ErrorKind::InvalidParams,
{
    if let Some(text) = input.query {
        crate::text_laws::law_trimming_takes_white_space_off_the_ends(text@);
    }
    if let Some(text) = input.state {
        crate::text_laws::law_trimming_takes_white_space_off_the_ends(text@);
    }
}

/// What a camera reports of a class is what its own feature of that name
/// says; the microphone is reported by its audio.
pub proof fn law_classes_are_reported_by_their_features(camera: CameraView)
    requires
        camera.features is Some,
        camera.audio is Some,
    ensures
        ({
            let features = camera.features->Some_0;
            &&& class_report(camera, "doorbell"@) == features.doorbell
            &&& class_report(camera, "ptz"@) == features.ptz
            &&& class_report(camera, "third-party"@) == features.third_party
            &&& class_report(camera, "package-camera"@) == features.package_camera
            &&& class_report(camera, "ai-paired"@) == features.ai_paired
            &&& class_report(camera, "speaker"@) == features.speaker
            &&& class_report(camera, "microphone"@) == camera.audio->Some_0.supported
            &&& class_report(camera, "2k"@) == features.two_k
            &&& class_report(camera, "4k"@) == features.four_k
            &&& class_report(camera, "wifi"@) == features.wifi
            &&& class_report(camera, "smart-detect"@) == features.smart_detect
            &&& class_report(camera, "optical-zoom"@) == features.optical_zoom
        }),
{
    reveal_strlit("doorbell");
    reveal_strlit("ptz");
    reveal_strlit("third-party");
    reveal_strlit("package-camera");
    reveal_strlit("ai-paired");
    reveal_strlit("speaker");
    reveal_strlit("microphone");
    reveal_strlit("2k");
    reveal_strlit("4k");
    reveal_strlit("wifi");
    reveal_strlit("smart-detect");
    reveal_strlit("optical-zoom");
    assert("doorbell"@.len() == 8 && "ptz"@.len() == 3 && "third-party"@.len() == 11);
    assert("package-camera"@.len() == 14 && "ai-paired"@.len() == 9 && "speaker"@.len() == 7);
    assert("microphone"@.len() == 10 && "2k"@.len() == 2 && "4k"@.len() == 2);
    assert("wifi"@.len() == 4 && "smart-detect"@.len() == 12 && "optical-zoom"@.len() == 12);
    assert("2k"@[0] == '2' && "4k"@[0] == '4');
    assert("smart-detect"@[0] == 's' && "optical-zoom"@[0] == 'o');
}

/// A selector names the camera of its id; only where there is none does it
/// name those whose reported or displayed name is the selector, whatever the
/// case and the white space around it.
pub proof fn law_camera_selector_names_by_id_or_else_by_name(
    cameras: Vec<CameraView>,
    selector: &str,
    named: Vec<CameraView>,
    camera: CameraView,
)
    requires
        call_ensures(select_cameras, (cameras, selector), named),
    ensures
        ({
            let known = exists|k: int|
                0 <= k < cameras@.len() && (#[trigger] cameras@[k]).id@ == selector@;
            let called = {
                ||| camera.name is Some && lowercase(trimmed(camera.name->Some_0@)) == lowercase(
                    selector@,
                )
                ||| lowercase(trimmed(camera.display_name@)) == lowercase(selector@)
            };
            named@.to_multiset().count(camera) == if (known && camera.id@ == selector@) || (!known
                && called) {
                cameras@.to_multiset().count(camera)
            } else {
                0
            }
        }),
{
    let at = crate::camera_tools::camera_by_id(selector@);
    let of = crate::camera_tools::camera_by_name(selector@);
    lemma_filter_count(cameras@, at, camera);
    lemma_filter_count(cameras@, of, camera);
    if crate::clients::some_row(cameras@, at) {
        let k = choose|k: int| 0 <= k < cameras@.len() && at(#[trigger] cameras@[k]);
        assert(cameras@[k].id@ == selector@);
    }
    if exists|k: int| 0 <= k < cameras@.len() && (#[trigger] cameras@[k]).id@ == selector@ {
        let k = choose|k: int|
            0 <= k < cameras@.len() && (#[trigger] cameras@[k]).id@ == selector@;
        assert(at(cameras@[k]));
    }
}

/// A camera selector is accepted where it is not blank and, without the white
/// space around it, has at most 256 characters and 1,024 bytes.
pub proof fn law_camera_selectors_are_bounded(raw: &str, result: Result<String, ToolError>)
    requires
        call_ensures(camera_selector, (raw,), result),
    ensures
        result is Ok <==> !is_blank(raw@) && trimmed(raw@).len() <= 256 && byte_len(trimmed(raw@))
            <= 1024,
        result matches Ok(selector) ==> selector@ == trimmed(raw@),
        result matches Err(error) ==> error.kind == ErrorKind::InvalidParams,
{
    crate::text_laws::law_trimming_takes_white_space_off_the_ends(raw@);
}

/// The status of a camera is that of the one and only camera its selector
/// names; a name is trusted only where the local inventory is complete or
/// none is configured.
pub proof fn law_camera_status_is_of_the_one_named(
    inventory: CameraInventory,
    camera: &str,
    result: Result<CameraView, ToolError>,
)
    requires
        call_ensures(cameras_status, (inventory, camera), result),
    ensures
        ({
            let selector = trimmed(camera@);
            let named = selected_cameras(inventory.cameras@, selector);
            let known = exists|k: int|
                0 <= k < inventory.cameras@.len() && (#[trigger] inventory.cameras@[k]).id@
                    == selector;
            &&& result is Ok <==> {
                &&& !is_blank(camera@) && selector.len() <= 256 && byte_len(selector) <= 1024
                &&& named.len() == 1
                &&& known || inventory.local_state == LocalEnrichmentState::Available
                    || inventory.local_state == LocalEnrichmentState::NotConfigured
            }
            &&& result is Ok ==> result->Ok_0 == named[0]
            &&& result is Err ==> result->Err_0.kind == ErrorKind::InvalidParams
        }),
{
    crate::text_laws::law_trimming_takes_white_space_off_the_ends(camera@);
    let at = crate::camera_tools::camera_by_id(trimmed(camera@));
    let cameras = inventory.cameras@;
    if crate::clients::some_row(cameras, at) {
        let k = choose|k: int| 0 <= k < cameras.len() && at(#[trigger] cameras[k]);
        assert(inventory.cameras@[k].id@ == trimmed(camera@));
    }
    if exists|k: int|
        0 <= k < inventory.cameras@.len() && (#[trigger] inventory.cameras@[k]).id@ == trimmed(
            camera@,
        ) {
        let k = choose|k: int|
            0 <= k < inventory.cameras@.len() && (#[trigger] inventory.cameras@[k]).id@
                == trimmed(camera@);
        assert(at(cameras[k]));
    }
}

/// The capabilities state the local inventory as it was found: it is a source
/// only where it could be read, a reason is given exactly where it is not
/// complete, and detections are configured exactly where a session is.
pub proof fn law_capabilities_state_the_local_inventory(
    state: LocalEnrichmentState,
    view: ProtectCapabilitiesView,
)
    requires
        call_ensures(protect_capabilities, (state,), view),
    ensures
        view.public_inventory,
        view.public_inventory_source@ == "integrationApi"@,
        view.snapshot_consistency@ == "sequentialRequestSnapshots"@,
        view.local_enrichment@ == match state {
            LocalEnrichmentState::Available => "available"@,
            LocalEnrichmentState::Partial => "partial"@,
            LocalEnrichmentState::NotConfigured => "notConfigured"@,
            LocalEnrichmentState::Unavailable => "unavailable"@,
        },
        view.local_inventory_source is Some <==> state == LocalEnrichmentState::Available || state
            == LocalEnrichmentState::Partial,
        view.local_inventory_source matches Some(source) ==> source@
            == "authenticatedLocalBootstrap"@,
        view.local_unavailable_reason is None <==> state == LocalEnrichmentState::Available,
        view.historical_events_configured <==> state != LocalEnrichmentState::NotConfigured,
{
}

/// The overview counts every camera, and those in each state; it lists the
/// cameras that are known not to record only where every camera reports
/// whether it does, up to a hundred, and counts them all.
pub proof fn law_overview_counts_the_cameras(
    console: &str,
    inventory: CameraInventory,
    nvr: ProtectNvr,
    output: ProtectOverviewOutput,
)
    requires
        call_ensures(protect_overview, (console, inventory, nvr), output),
    ensures
        ({
            let cameras = inventory.cameras@;
            let known = forall|k: int|
                0 <= k < cameras.len() ==> (#[trigger] cameras[k]).recording is Some;
            let idle = cameras.filter(|camera: CameraView| camera.recording == Some(false));
            &&& output.console@ == console@
            &&& output.application_version == inventory.application_version
            &&& output.camera_count == cameras.len()
            &&& output.recorders@.len() == 1
            &&& output.not_recording is Some <==> known
            &&& output.not_recording_count is Some <==> known
            &&& output.not_recording_count matches Some(count) ==> count == idle.len()
            &&& output.not_recording_truncated == if known && idle.len() > 100 {
                Some(true)
            } else {
                None
            }
            &&& output.not_recording matches Some(list) ==> {
                &&& list@.len() == if idle.len() < 100 {
                    idle.len()
                } else {
                    100
                }
                &&& forall|i: int|
                    #![trigger list@[i]]
                    0 <= i < list@.len() ==> list@[i].id == idle[i].id && list@[i].name
                        == idle[i].name
            }
            &&& forall|i: int|
                #![trigger output.cameras_by_state@[i]]
                0 <= i < output.cameras_by_state@.len() ==> {
                    let row = output.cameras_by_state@[i];
                    &&& row.count > 0
                    &&& row.count == cameras.filter(
                        |camera: CameraView| camera.state@ == row.state@,
                    ).len()
                }
            &&& forall|k: int|
                #![trigger cameras[k]]
                0 <= k < cameras.len() ==> exists|i: int|
                    0 <= i < output.cameras_by_state@.len() && (
                    #[trigger] output.cameras_by_state@[i]).state@ == cameras[k].state@
        }),
{
    let cameras = inventory.cameras@;
    assert(crate::camera_tools::idle() =~= (|camera: CameraView| camera.recording == Some(false)));
    assert forall|i: int|
        #![trigger output.cameras_by_state@[i]]
        0 <= i < output.cameras_by_state@.len() implies {
        let row = output.cameras_by_state@[i];
        &&& row.count > 0
        &&& row.count == cameras.filter(|camera: CameraView| camera.state@ == row.state@).len()
    } by {
        let row = output.cameras_by_state@[i];
        assert(crate::camera_tools::in_state(row.state@) =~= (|camera: CameraView|
            camera.state@ == row.state@));
    }
    assert forall|k: int| #![trigger cameras[k]] 0 <= k < cameras.len() implies exists|i: int|
        0 <= i < output.cameras_by_state@.len() && (
        #[trigger] output.cameras_by_state@[i]).state@ == cameras[k].state@ by {
        assert(crate::camera_tools::has_row(output.cameras_by_state@, cameras[k].state@));
    }
}

// ---------------------------------------------------------------------------
// Classes and requests
// ---------------------------------------------------------------------------

/// A class may be asked for exactly where it is one of the twelve, and it can
/// be answered where every camera reports it.
pub proof fn law_classes_can_be_asked_for(
    cameras: &Vec<CameraView>,
    wanted: &str,
    result: Result<bool, ToolError>,
)
    requires
        call_ensures(class_filter_available, (cameras, wanted), result),
    ensures
        result is Ok <==> crate::camera_laws::class_names().contains(wanted@),
        result matches Ok(complete) ==> (complete <==> forall|k: int|
            0 <= k < cameras@.len() ==> class_report(#[trigger] cameras@[k], wanted@) is Some),
        result matches Err(error) ==> error.kind == ErrorKind::InvalidParams,
{
    let names = crate::camera_laws::class_names();
    assert(names[0] == "doorbell"@ && names[1] == "ptz"@ && names[2] == "third-party"@);
    assert(names[3] == "package-camera"@ && names[4] == "ai-paired"@ && names[5] == "speaker"@);
    assert(names[6] == "microphone"@ && names[7] == "2k"@ && names[8] == "4k"@);
    assert(names[9] == "wifi"@ && names[10] == "smart-detect"@ && names[11] == "optical-zoom"@);
}

/// The request of a camera search is refused where its page or one of its
/// filters is out of bounds, and only there.
pub proof fn law_camera_requests_are_checked(
    input: &CamerasSearchInput,
    result: Result<(), ToolError>,
)
    requires
        call_ensures(check_cameras_search, (input,), result),
    ensures
        result is Ok <==> {
            &&& 1 <= input.limit <= 200
            &&& input.offset <= 10_000
            &&& input.query matches Some(text) ==> !is_blank(text@) && byte_len(trimmed(text@))
                <= 128
            &&& input.model matches Some(text) ==> !is_blank(text@) && byte_len(trimmed(text@))
                <= 128
            &&& input.class_filter matches Some(text) ==> !is_blank(text@) && byte_len(
                trimmed(text@),
            ) <= 128
            &&& input.state matches Some(text) ==> !is_blank(text@) && byte_len(trimmed(text@))
                <= 128
        },
{
    if let Some(text) = input.query {
        crate::text_laws::law_trimming_takes_white_space_off_the_ends(text@);
    }
    if let Some(text) = input.model {
        crate::text_laws::law_trimming_takes_white_space_off_the_ends(text@);
    }
    if let Some(text) = input.class_filter {
        crate::text_laws::law_trimming_takes_white_space_off_the_ends(text@);
    }
    if let Some(text) = input.state {
        crate::text_laws::law_trimming_takes_white_space_off_the_ends(text@);
    }
}

/// A model filter is answered where the local inventory is complete and every
/// camera reports its model; a class filter where it is complete, the class is
/// known and every camera reports it.
pub proof fn law_local_filters_are_answered_from_complete_data(
    inventory: CameraInventory,
    input: &CamerasSearchInput,
    checked: Result<(), ToolError>,
    result: Result<CamerasSearchOutput, ToolError>,
)
    requires
        call_ensures(check_cameras_search, (input,), checked),
        call_ensures(cameras_search, (inventory, input), result),
    ensures
        result is Ok <==> {
            &&& checked is Ok
            &&& input.model is Some || input.class_filter is Some ==> inventory.local_state
                == LocalEnrichmentState::Available
            &&& input.model is Some ==> forall|k: int|
                0 <= k < inventory.cameras@.len() ==> (
                #[trigger] inventory.cameras@[k]).hardware_model is Some
            &&& input.class_filter matches Some(text) ==> {
                &&& crate::camera_laws::class_names().contains(lowercase(trimmed(text@)))
                &&& forall|k: int|
                    0 <= k < inventory.cameras@.len() ==> class_report(
                        #[trigger] inventory.cameras@[k],
                        lowercase(trimmed(text@)),
                    ) is Some
            }
        },
{
    let names = crate::camera_laws::class_names();
    assert(names[0] == "doorbell"@ && names[1] == "ptz"@ && names[2] == "third-party"@);
    assert(names[3] == "package-camera"@ && names[4] == "ai-paired"@ && names[5] == "speaker"@);
    assert(names[6] == "microphone"@ && names[7] == "2k"@ && names[8] == "4k"@);
    assert(names[9] == "wifi"@ && names[10] == "smart-detect"@ && names[11] == "optical-zoom"@);
}

/// A camera is of a name whatever the case and the white space around it.
pub proof fn law_camera_names_are_compared_trimmed_and_lowered(
    candidate: &str,
    selector: &str,
    result: bool,
)
    requires
        call_ensures(camera_name_matches, (candidate, selector), result),
    ensures
        result <==> lowercase(trimmed(candidate@)) == selector@,
{
}

/// Whether an id stands among the cameras is answered by their ids.
pub proof fn law_camera_ids_are_found(cameras: &Vec<CameraView>, selector: &str, result: bool)
    requires
        call_ensures(has_camera_id, (cameras, selector), result),
    ensures
        !result <==> forall|k: int| 0 <= k < cameras@.len() ==> (#[trigger] cameras@[k]).id@
            != selector@,
{
    let test = crate::camera_tools::camera_by_id(selector@);
    if result {
        let k = choose|k: int| 0 <= k < cameras@.len() && test(#[trigger] cameras@[k]);
        assert(cameras@[k].id@ == selector@);
    } else {
        assert forall|k: int| 0 <= k < cameras@.len() implies (#[trigger] cameras@[k]).id@
            != selector@ by {
            assert(!test(cameras@[k]));
        }
    }
}

/// A camera filter of detections resolves to the id of the one camera its
/// selector names; without one there is none.
pub proof fn law_camera_filters_resolve_to_one_id(
    raw: Option<&str>,
    inventory: &Vec<CameraView>,
    result: Result<Option<String>, ToolError>,
    named: Vec<CameraView>,
    selector: &str,
    owned: Vec<CameraView>,
)
    requires
        call_ensures(resolve_camera_id, (raw, inventory), result),
        raw is Some ==> selector@ == trimmed(raw->Some_0@),
        owned@ == inventory@,
        call_ensures(select_cameras, (owned, selector), named),
    ensures
        raw is None ==> result is Ok && result->Ok_0 is None,
        raw is Some ==> (result is Ok <==> !is_blank(raw->Some_0@) && selector@.len() <= 256
            && byte_len(selector@) <= 1024 && named@.len() == 1),
        raw is Some && result is Ok ==> result->Ok_0 is Some && result->Ok_0->Some_0@
            == named@[0].id@,
        result matches Err(error) ==> error.kind == ErrorKind::InvalidParams,
{
    if let Some(text) = raw {
        crate::text_laws::law_trimming_takes_white_space_off_the_ends(text@);
    }
}

/// Names of cameras are trusted for a search only where the local inventory is
/// complete.
pub proof fn law_names_need_a_complete_inventory(
    state: LocalEnrichmentState,
    result: Result<(), ToolError>,
)
    requires
        call_ensures(require_camera_names, (state,), result),
    ensures
        result is Ok <==> state == LocalEnrichmentState::Available,
        result matches Err(error) ==> error.kind == ErrorKind::InvalidParams,
{
}

/// A search without a cursor is refused exactly where its detection is out of
/// bounds, its window is not given one way, is out of bounds, or its camera
/// does not resolve.
pub proof fn law_first_queries_are_refused_for_a_reason(
    input: ProtectEventsInput,
    inventory: &Vec<CameraView>,
    now: u64,
    result: Result<ResolvedProtectEventQuery, ToolError>,
    camera: Option<&str>,
    resolved: Result<Option<String>, ToolError>,
)
    requires
        call_ensures(resolve_protect_event_query_at, (input, inventory, now), result),
        input.cursor is None,
        camera is Some <==> input.camera is Some,
        camera is Some ==> camera->Some_0@ == input.camera->Some_0@,
        call_ensures(resolve_camera_id, (camera, inventory), resolved),
    ensures
        result is Ok <==> {
            &&& input.detection matches Some(text) ==> !is_blank(text@) && byte_len(trimmed(text@))
                <= 128
            &&& input.start is Some <==> input.end is Some
            &&& input.start is Some ==> input.last_hours is None && input.start->Some_0
                <= input.end->Some_0 && input.end->Some_0 - input.start->Some_0 <= 168 * 3_600_000
            &&& input.last_hours is Some ==> 1 <= input.last_hours->Some_0 <= 168
            &&& resolved is Ok
        },
        result matches Ok(query) ==> opt_string(query.camera_id) == opt_string(resolved->Ok_0),
        result matches Err(error) ==> error.kind == ErrorKind::InvalidParams,
{
    if let Some(text) = input.detection {
        crate::text_laws::law_trimming_takes_white_space_off_the_ends(text@);
    }
}

/// A query is resolved by the clock only where it is a first one over the last
/// hours; any other is resolved alike at every time.
pub proof fn law_the_clock_decides_relative_windows_alone(
    input: ProtectEventsInput,
    inventory: &Vec<CameraView>,
    now: u64,
    result: Result<ResolvedProtectEventQuery, ToolError>,
    at: Result<ResolvedProtectEventQuery, ToolError>,
)
    requires
        call_ensures(resolve_protect_event_query, (input, inventory), result),
        call_ensures(resolve_protect_event_query_at, (input, inventory, now), at),
        input.cursor is Some || input.start is Some || input.end is Some,
    ensures
        result is Ok <==> at is Ok,
        result matches Ok(query) ==> {
            &&& query.window_start == at->Ok_0.window_start
            &&& query.window_end == at->Ok_0.window_end
            &&& query.continuation == at->Ok_0.continuation
            &&& opt_string(query.camera_id) == opt_string(at->Ok_0.camera_id)
            &&& opt_string(query.detection) == opt_string(at->Ok_0.detection)
        },
{
    let then = choose|then: u64|
        #[trigger] crate::protect_events::answers(result, input, inventory@, then as int);
    assert(crate::protect_events::answers(result, input, inventory@, then as int));
}

// ---------------------------------------------------------------------------
// Order
// ---------------------------------------------------------------------------

/// Detections that start at one time stand in the order they came in.
pub proof fn law_detections_of_one_start_keep_their_order(
    events: Seq<ProtectEvent>,
    query: ResolvedProtectEventQuery,
    start: u64,
)
    ensures
        found_detections(events, query).filter(|event: ProtectEvent| event.start == start)
            == events.filter(event_filter(query)).filter(
            |event: ProtectEvent| event.start == start,
        ),
{
    let alike = |event: ProtectEvent| event.start == start;
    let rank = crate::order::by_number(-(start as int));
    crate::order::law_sorting_is_stable(events.filter(event_filter(query)), latest_first(), rank);
    assert(crate::order::with_key(latest_first(), rank) =~= alike);
}

/// Found cameras stand in the order of the inventory: the cameras of a search
/// with a query alone are the inventory without the others.
pub proof fn law_found_cameras_keep_the_order_of_the_inventory(
    cameras: Seq<CameraView>,
    input: CamerasSearchInput,
    needle: Seq<char>,
)
    requires
        input.query is Some,
        needle == lowercase(trimmed(input.query->Some_0@)),
        input.model is None,
        input.class_filter is None,
        input.state is None,
    ensures
        found_cameras(cameras, input) == cameras.filter(
            |camera: CameraView|
                {
                    ||| contains(lowercase(camera.id@), needle)
                    ||| camera.name is Some && contains(lowercase(camera.name->Some_0@), needle)
                    ||| contains(lowercase(camera.display_name@), needle)
                },
        ),
{
    let test = |camera: CameraView|
        {
            ||| contains(lowercase(camera.id@), needle)
            ||| camera.name is Some && contains(lowercase(camera.name->Some_0@), needle)
            ||| contains(lowercase(camera.display_name@), needle)
        };
    assert(crate::camera_tools::camera_filter(input) =~= test);
}

/// A search without filters finds the whole inventory, in its order.
pub proof fn law_a_search_without_filters_finds_every_camera(
    cameras: Seq<CameraView>,
    input: CamerasSearchInput,
)
    requires
        input.query is None,
        input.model is None,
        input.class_filter is None,
        input.state is None,
    ensures
        found_cameras(cameras, input) == cameras,
{
    lemma_keep_all(cameras, crate::camera_tools::camera_filter(input));
}

proof fn lemma_keep_all(cameras: Seq<CameraView>, test: spec_fn(CameraView) -> bool)
    requires
        forall|camera: CameraView| #[trigger] test(camera),
    ensures
        cameras.filter(test) == cameras,
    decreases cameras.len(),
{
    reveal(Seq::filter);
    if cameras.len() > 0 {
        lemma_keep_all(cameras.drop_last(), test);
        assert(cameras.drop_last().push(cameras.last()) =~= cameras);
    }
}

/// The overview lists each state once, in dictionary order.
pub proof fn law_states_are_counted_in_order(
    console: &str,
    inventory: CameraInventory,
    nvr: ProtectNvr,
    output: ProtectOverviewOutput,
    i: int,
    j: int,
)
    requires
        call_ensures(protect_overview, (console, inventory, nvr), output),
        0 <= i < j < output.cameras_by_state@.len(),
    ensures
        precedes(output.cameras_by_state@[i].state@, output.cameras_by_state@[j].state@),
        output.cameras_by_state@[i].state@ != output.cameras_by_state@[j].state@,
{
    assert(precedes(output.cameras_by_state@[i].state@, output.cameras_by_state@[j].state@));
    crate::text::lemma_precedes_irreflexive(output.cameras_by_state@[i].state@);
}

/// The overview shows the recorder as it is shown alone, and states the
/// capabilities as they are stated alone.
pub proof fn law_overview_shows_the_recorder(
    console: &str,
    inventory: CameraInventory,
    nvr: ProtectNvr,
    output: ProtectOverviewOutput,
    local: &ProtectLocalNvr,
    alone: RecorderView,
    capabilities: ProtectCapabilitiesView,
)
    requires
        call_ensures(protect_overview, (console, inventory, nvr), output),
        inventory.local_nvr == Some(*local),
        call_ensures(recorder_view, (nvr, Some(local)), alone),
        call_ensures(protect_capabilities, (inventory.local_state,), capabilities),
    ensures
        ({
            let shown = output.recorders@[0];
            &&& shown.id == alone.id
            &&& opt_string(shown.name) == opt_string(alone.name)
            &&& shown.display_name@ == alone.display_name@
            &&& opt_string(shown.mac) == opt_string(alone.mac)
            &&& opt_string(shown.protect_version) == opt_string(alone.protect_version)
            &&& shown.recording_disabled == alone.recording_disabled
            &&& shown.audio_disabled == alone.audio_disabled
            &&& shown.camera_utilization == alone.camera_utilization
            &&& shown.enriched == alone.enriched
        }),
        output.capabilities.local_enrichment@ == capabilities.local_enrichment@,
        output.capabilities.historical_events_configured
            == capabilities.historical_events_configured,
        opt_string(output.capabilities.local_inventory_source) == opt_string(
            capabilities.local_inventory_source,
        ),
        opt_string(output.capabilities.local_unavailable_reason) == opt_string(
            capabilities.local_unavailable_reason,
        ),
{
}

/// The clock can fail only a first query over the last hours that is otherwise
/// in bounds.
pub proof fn law_the_clock_fails_relative_windows_alone(
    input: ProtectEventsInput,
    inventory: &Vec<CameraView>,
    result: Result<ResolvedProtectEventQuery, ToolError>,
)
    requires
        call_ensures(resolve_protect_event_query, (input, inventory), result),
        result is Err,
        result->Err_0.kind == ErrorKind::Internal,
    ensures
        input.cursor is None && input.start is None && input.end is None,
        input.last_hours matches Some(hours) ==> 1 <= hours <= 168,
        input.detection matches Some(text) ==> !is_blank(text@) && byte_len(trimmed(text@)) <= 128,
{
    if let Some(text) = input.detection {
        crate::text_laws::law_trimming_takes_white_space_off_the_ends(text@);
    }
    if exists|now: u64| #[trigger] crate::protect_events::answers(
        result,
        input,
        inventory@,
        now as int,
    ) {
        let now = choose|now: u64|
            #[trigger] crate::protect_events::answers(result, input, inventory@, now as int);
        assert(crate::protect_events::answers(result, input, inventory@, now as int));
    }
}

/// A camera without features reports no class but its microphone, one without
/// audio no microphone, and no camera reports a class that is none of the
/// twelve.
pub proof fn law_classes_without_reports_are_unknown(camera: CameraView, wanted: Seq<char>)
    ensures
        camera.audio is None ==> class_report(camera, "microphone"@) is None,
        camera.features is None && wanted != "microphone"@ ==> class_report(camera, wanted) is None,
        !crate::camera_laws::class_names().contains(wanted) ==> class_report(camera, wanted) is None,
{
    let names = crate::camera_laws::class_names();
    assert(names[0] == "doorbell"@ && names[1] == "ptz"@ && names[2] == "third-party"@);
    assert(names[3] == "package-camera"@ && names[4] == "ai-paired"@ && names[5] == "speaker"@);
    assert(names[6] == "microphone"@ && names[7] == "2k"@ && names[8] == "4k"@);
    assert(names[9] == "wifi"@ && names[10] == "smart-detect"@ && names[11] == "optical-zoom"@);
}

/// A refused camera status says why: the selector, the names that cannot be
/// trusted, no camera, or how many.
pub proof fn law_camera_refusals_say_why(
    inventory: CameraInventory,
    camera: &str,
    result: Result<CameraView, ToolError>,
)
    requires
        call_ensures(cameras_status, (inventory, camera), result),
        result is Err,
        !is_blank(camera@),
        trimmed(camera@).len() <= 256,
        byte_len(trimmed(camera@)) <= 1024,
        inventory.local_state == LocalEnrichmentState::Available,
    ensures
        ({
            let named = selected_cameras(inventory.cameras@, trimmed(camera@));
            &&& named.len() == 0 ==> result->Err_0.message@
                == "no camera on this console has that id or name"@
            &&& named.len() > 1 ==> result->Err_0.message@ == crate::text::decimal(named.len())
                + " cameras share that name; select by id"@
        }),
{
    crate::text_laws::law_trimming_takes_white_space_off_the_ends(camera@);
}

} // verus!
