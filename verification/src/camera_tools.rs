//! The camera tools: search, one camera, and the console snapshot.

use vstd::prelude::*;
use vstd::string::*;

use crate::cameras::{opt_texts, CameraView, LocalEnrichmentState};
use crate::error::{invalid_params, is_invalid_params, ErrorKind, ToolError};
use crate::inventory::CameraInventory;
use crate::paging::{
    as_slice, filter_accepted, filter_message, filter_text, limit_accepted, next_offset, next_page,
    offset_accepted, opt_int, page, take_page, validate_filter, validate_page,
};
use crate::recorder::{recorder_view, shows_recorder, ProtectNvr, RecorderView};
use crate::rows::{any, convert, count, flag_if, keep, shown_if};
use crate::clients::{holds, some_row, text_holds};
use crate::text::{
    byte_len, chars_of, contains, count_bytes, decimal, join2, join5, lemma_precedes_irreflexive,
    lemma_precedes_total, lemma_precedes_transitive, listed, lowercase, opt_string, opt_text,
    precedes, same_text, text_contains, text_precedes, to_decimal, to_lowercase, trim, trimmed,
};

verus! {

/// Longest accepted camera selector, in characters: camera names are returned
/// at this ceiling and must remain usable as selectors.
pub const MAXIMUM_CAMERA_SELECTOR_CHARACTERS: usize = 256;

/// Longest accepted camera selector, in bytes.
pub const MAXIMUM_CAMERA_SELECTOR_BYTES: usize = 1024;

/// Camera references listed as not recording.
pub const IDLE_CAMERA_LIST_CEILING: usize = 100;

/// What a search for cameras asks for.
pub struct CamerasSearchInput {
    pub query: Option<String>,
    pub model: Option<String>,
    pub class_filter: Option<String>,
    pub state: Option<String>,
    pub offset: u16,
    pub limit: u16,
}

/// What the console can report, and from where.
pub struct ProtectCapabilitiesView {
    pub public_inventory: bool,
    pub public_inventory_source: String,
    pub local_enrichment: String,
    pub local_inventory_source: Option<String>,
    pub snapshot_consistency: String,
    pub historical_events_configured: bool,
    pub local_unavailable_reason: Option<String>,
}

/// One page of cameras.
pub struct CamerasSearchOutput {
    pub cameras: Vec<CameraView>,
    pub total: usize,
    pub next_offset: Option<u16>,
    pub capabilities: ProtectCapabilitiesView,
}

/// How many cameras are in a state.
pub struct CameraCountRow {
    pub state: String,
    pub count: usize,
}

/// A camera by id and name.
pub struct CameraReferenceView {
    pub id: String,
    pub name: Option<String>,
}

/// One console snapshot.
pub struct ProtectOverviewOutput {
    pub console: String,
    pub application_version: String,
    pub cameras_by_state: Vec<CameraCountRow>,
    pub camera_count: usize,
    pub not_recording: Option<Vec<CameraReferenceView>>,
    pub not_recording_truncated: Option<bool>,
    pub not_recording_count: Option<usize>,
    pub recorders: Vec<RecorderView>,
    pub capabilities: ProtectCapabilitiesView,
}

// ---------------------------------------------------------------------------
// Capabilities
// ---------------------------------------------------------------------------

/// The word for how much of the local inventory was read.
pub open spec fn local_word(state: LocalEnrichmentState) -> Seq<char> {
    match state {
        LocalEnrichmentState::Available => "available"@,
        LocalEnrichmentState::Partial => "partial"@,
        LocalEnrichmentState::NotConfigured => "notConfigured"@,
        LocalEnrichmentState::Unavailable => "unavailable"@,
    }
}

/// Where the local inventory came from, where it was read.
pub open spec fn local_source(state: LocalEnrichmentState) -> Option<Seq<char>> {
    match state {
        LocalEnrichmentState::Available | LocalEnrichmentState::Partial => Some(
            "authenticatedLocalBootstrap"@,
        ),
        _ => None,
    }
}

/// Why the local inventory is not complete, where it is not.
pub open spec fn local_reason(state: LocalEnrichmentState) -> Option<Seq<char>> {
    match state {
        LocalEnrichmentState::Available => None,
        LocalEnrichmentState::Partial => Some(
            "the local Protect inventory did not contain every public camera"@,
        ),
        LocalEnrichmentState::NotConfigured => Some(
            "local Protect credentials are not configured"@,
        ),
        LocalEnrichmentState::Unavailable => Some(
            "the configured local Protect session could not be read"@,
        ),
    }
}

/// Whether a view states the capabilities of a console in a state.
pub open spec fn states_capabilities(
    view: ProtectCapabilitiesView,
    state: LocalEnrichmentState,
) -> bool {
    &&& view.public_inventory
    &&& view.public_inventory_source@ == "integrationApi"@
    &&& view.local_enrichment@ == local_word(state)
    &&& opt_string(view.local_inventory_source) == local_source(state)
    &&& view.snapshot_consistency@ == "sequentialRequestSnapshots"@
    &&& view.historical_events_configured == (state != LocalEnrichmentState::NotConfigured)
    &&& opt_string(view.local_unavailable_reason) == local_reason(state)
}

/// The capabilities of a console.
pub fn protect_capabilities(state: LocalEnrichmentState) -> (view: ProtectCapabilitiesView)
    ensures
        states_capabilities(view, state),
{
    let (word, source, reason): (&'static str, Option<String>, Option<String>) = match state {
        LocalEnrichmentState::Available => (
            "available",
            Some("authenticatedLocalBootstrap".to_owned()),
            None,
        ),
        LocalEnrichmentState::Partial => (
            "partial",
            Some("authenticatedLocalBootstrap".to_owned()),
            Some("the local Protect inventory did not contain every public camera".to_owned()),
        ),
        LocalEnrichmentState::NotConfigured => (
            "notConfigured",
            None,
            Some("local Protect credentials are not configured".to_owned()),
        ),
        LocalEnrichmentState::Unavailable => (
            "unavailable",
            None,
            Some("the configured local Protect session could not be read".to_owned()),
        ),
    };
    ProtectCapabilitiesView {
        public_inventory: true,
        public_inventory_source: "integrationApi".to_owned(),
        local_enrichment: word.to_owned(),
        local_inventory_source: source,
        snapshot_consistency: "sequentialRequestSnapshots".to_owned(),
        historical_events_configured: state != LocalEnrichmentState::NotConfigured,
        local_unavailable_reason: reason,
    }
}

// ---------------------------------------------------------------------------
// Classes
// ---------------------------------------------------------------------------

/// What a camera reports of a functional class: nothing of an unknown one.
pub open spec fn class_report(camera: CameraView, wanted: Seq<char>) -> Option<bool> {
    if wanted == "microphone"@ {
        match camera.audio {
            Some(audio) => audio.supported,
            None => None,
        }
    } else {
        match camera.features {
            None => None,
            Some(features) => if wanted == "doorbell"@ {
                features.doorbell
            } else if wanted == "ptz"@ {
                features.ptz
            } else if wanted == "third-party"@ {
                features.third_party
            } else if wanted == "package-camera"@ {
                features.package_camera
            } else if wanted == "ai-paired"@ {
                features.ai_paired
            } else if wanted == "speaker"@ {
                features.speaker
            } else if wanted == "2k"@ {
                features.two_k
            } else if wanted == "4k"@ {
                features.four_k
            } else if wanted == "wifi"@ {
                features.wifi
            } else if wanted == "smart-detect"@ {
                features.smart_detect
            } else if wanted == "optical-zoom"@ {
                features.optical_zoom
            } else {
                None
            },
        }
    }
}

/// Whether a functional class is known.
pub open spec fn known_class(wanted: Seq<char>) -> bool {
    ||| wanted == "doorbell"@
    ||| wanted == "ptz"@
    ||| wanted == "third-party"@
    ||| wanted == "package-camera"@
    ||| wanted == "ai-paired"@
    ||| wanted == "speaker"@
    ||| wanted == "microphone"@
    ||| wanted == "2k"@
    ||| wanted == "4k"@
    ||| wanted == "wifi"@
    ||| wanted == "smart-detect"@
    ||| wanted == "optical-zoom"@
}

/// The refusal of an unknown class.
pub open spec fn unknown_class_message() -> Seq<char> {
    "class must be doorbell, ptz, third-party, package-camera, ai-paired, speaker, microphone, 2k, 4k, wifi, smart-detect, or optical-zoom"@
}

fn reported_class(camera: &CameraView, wanted: &str) -> (report: Option<bool>)
    ensures
        report == class_report(*camera, wanted@),
{
    if same_text(wanted, "microphone") {
        return match &camera.audio {
            Some(audio) => audio.supported,
            None => None,
        };
    }
    match &camera.features {
        None => None,
        Some(features) => if same_text(wanted, "doorbell") {
            features.doorbell
        } else if same_text(wanted, "ptz") {
            features.ptz
        } else if same_text(wanted, "third-party") {
            features.third_party
        } else if same_text(wanted, "package-camera") {
            features.package_camera
        } else if same_text(wanted, "ai-paired") {
            features.ai_paired
        } else if same_text(wanted, "speaker") {
            features.speaker
        } else if same_text(wanted, "2k") {
            features.two_k
        } else if same_text(wanted, "4k") {
            features.four_k
        } else if same_text(wanted, "wifi") {
            features.wifi
        } else if same_text(wanted, "smart-detect") {
            features.smart_detect
        } else if same_text(wanted, "optical-zoom") {
            features.optical_zoom
        } else {
            None
        },
    }
}

/// Whether every camera reports a class.
pub open spec fn class_complete(cameras: Seq<CameraView>, wanted: Seq<char>) -> bool {
    forall|i: int| 0 <= i < cameras.len() ==> class_report(#[trigger] cameras[i], wanted) is Some
}

/// Whether every camera reports a class; refuses an unknown class.
pub fn class_filter_available(cameras: &Vec<CameraView>, wanted: &str) -> (result: Result<
    bool,
    ToolError,
>)
    ensures
        result is Ok <==> known_class(wanted@),
        result matches Ok(complete) ==> complete == class_complete(cameras@, wanted@),
        result matches Err(error) ==> is_invalid_params(error, unknown_class_message()),
{
    let known = same_text(wanted, "doorbell") || same_text(wanted, "ptz") || same_text(
        wanted,
        "third-party",
    ) || same_text(wanted, "package-camera") || same_text(wanted, "ai-paired") || same_text(
        wanted,
        "speaker",
    ) || same_text(wanted, "microphone") || same_text(wanted, "2k") || same_text(wanted, "4k")
        || same_text(wanted, "wifi") || same_text(wanted, "smart-detect") || same_text(
        wanted,
        "optical-zoom",
    );
    if !known {
        return Err(
            invalid_params(
                "class must be doorbell, ptz, third-party, package-camera, ai-paired, speaker, microphone, 2k, 4k, wifi, smart-detect, or optical-zoom",
            ),
        );
    }
    let mut i: usize = 0;
    while i < cameras.len()
        invariant
            i <= cameras@.len(),
            known_class(wanted@),
            forall|k: int|
                0 <= k < i ==> class_report(#[trigger] cameras@[k], wanted@) is Some,
        decreases cameras@.len() - i,
    {
        if reported_class(&cameras[i], wanted).is_none() {
            assert(class_report(cameras@[i as int], wanted@) is None);
            return Ok(false);
        }
        i += 1;
    }
    Ok(true)
}

// ---------------------------------------------------------------------------
// Search
// ---------------------------------------------------------------------------

/// The refusal of a filter whose data the console did not supply.
pub open spec fn unavailable_filter_message(field: Seq<char>) -> Seq<char> {
    "camera "@ + field
        + " filtering is unavailable because this console supplied no complete "@ + field
        + " data"@
}

/// Refuses a filter whose data the console did not supply.
pub fn unavailable_camera_filter(field: &str) -> (error: ToolError)
    ensures
        is_invalid_params(error, unavailable_filter_message(field@)),
{
    let message = join5(
        "camera ",
        field,
        " filtering is unavailable because this console supplied no complete ",
        field,
        " data",
    );
    ToolError { kind: ErrorKind::InvalidParams, message }
}

/// Whether a camera meets the filters.
pub open spec fn camera_meets(
    camera: CameraView,
    query: Option<Seq<char>>,
    model: Option<Seq<char>>,
    class: Option<Seq<char>>,
    state: Option<Seq<char>>,
) -> bool {
    &&& query matches Some(needle) ==> (contains(lowercase(camera.id@), needle) || holds(
        opt_string(camera.name),
        needle,
    ) || contains(lowercase(camera.display_name@), needle))
    &&& model matches Some(needle) ==> holds(opt_string(camera.hardware_model), needle)
    &&& class matches Some(wanted) ==> (opt_texts(camera.classes) matches Some(classes)
        && classes.contains(wanted))
    &&& state matches Some(wanted) ==> lowercase(camera.state@) == wanted
}

fn camera_matches(
    camera: &CameraView,
    query: Option<&str>,
    model: Option<&str>,
    class: Option<&str>,
    state: Option<&str>,
) -> (result: bool)
    ensures
        result == camera_meets(
            *camera,
            opt_text(query),
            opt_text(model),
            opt_text(class),
            opt_text(state),
        ),
{
    if let Some(needle) = query {
        let id = to_lowercase(camera.id.as_str());
        let display = to_lowercase(camera.display_name.as_str());
        if !(text_contains(id.as_str(), needle) || text_holds(&camera.name, needle)
            || text_contains(display.as_str(), needle)) {
            return false;
        }
    }
    if let Some(needle) = model {
        if !text_holds(&camera.hardware_model, needle) {
            return false;
        }
    }
    if let Some(wanted) = class {
        let present = match &camera.classes {
            Some(classes) => listed(classes, wanted),
            None => false,
        };
        if !present {
            return false;
        }
    }
    if let Some(wanted) = state {
        let lower = to_lowercase(camera.state.as_str());
        if !same_text(lower.as_str(), wanted) {
            return false;
        }
    }
    true
}

/// The filter a search applies.
pub open spec fn camera_filter(input: CamerasSearchInput) -> spec_fn(CameraView) -> bool {
    |camera: CameraView|
        camera_meets(
            camera,
            filter_text(opt_string(input.query)),
            filter_text(opt_string(input.model)),
            filter_text(opt_string(input.class_filter)),
            filter_text(opt_string(input.state)),
        )
}

/// The cameras a search finds, in display order.
pub open spec fn found_cameras(cameras: Seq<CameraView>, input: CamerasSearchInput) -> Seq<
    CameraView,
> {
    cameras.filter(camera_filter(input))
}

/// The refusal of a search that can be told from the request alone.
pub open spec fn camera_request_refusal(input: CamerasSearchInput) -> Option<Seq<char>> {
    if !limit_accepted(input.limit as int) {
        Some("limit must be between 1 and 200"@)
    } else if !offset_accepted(input.offset as int) {
        Some("offset must not exceed 10000"@)
    } else if !filter_accepted(opt_string(input.query)) || !filter_accepted(
        opt_string(input.model),
    ) || !filter_accepted(opt_string(input.class_filter)) || !filter_accepted(
        opt_string(input.state),
    ) {
        Some(filter_message())
    } else {
        None
    }
}

/// Refuses a search whose page or filters are out of bounds.
pub fn check_cameras_search(input: &CamerasSearchInput) -> (result: Result<(), ToolError>)
    ensures
        result is Err <==> camera_request_refusal(*input) is Some,
        result matches Err(error) ==> is_invalid_params(
            error,
            camera_request_refusal(*input)->Some_0,
        ),
{
    if let Err(error) = validate_page(input.offset, input.limit) {
        return Err(error);
    }
    if let Err(error) = validate_filter(as_slice(&input.query)) {
        return Err(error);
    }
    if let Err(error) = validate_filter(as_slice(&input.model)) {
        return Err(error);
    }
    if let Err(error) = validate_filter(as_slice(&input.class_filter)) {
        return Err(error);
    }
    if let Err(error) = validate_filter(as_slice(&input.state)) {
        return Err(error);
    }
    Ok(())
}

/// Whether every camera reports its hardware model.
pub open spec fn models_complete(cameras: Seq<CameraView>) -> bool {
    forall|i: int| 0 <= i < cameras.len() ==> (#[trigger] cameras[i]).hardware_model is Some
}

/// The refusal of a search, where it is refused: a filter whose data is
/// incomplete is refused, never answered with a false empty page.
pub open spec fn camera_search_refusal(
    inventory: CameraInventory,
    input: CamerasSearchInput,
) -> Option<Seq<char>> {
    let available = inventory.local_state == LocalEnrichmentState::Available;
    if camera_request_refusal(input) is Some {
        camera_request_refusal(input)
    } else if input.model is Some && !(available && models_complete(inventory.cameras@)) {
        Some(unavailable_filter_message("model"@))
    } else {
        match filter_text(opt_string(input.class_filter)) {
            Some(wanted) => if !known_class(wanted) {
                Some(unknown_class_message())
            } else if !(available && class_complete(inventory.cameras@, wanted)) {
                Some(unavailable_filter_message("class"@))
            } else {
                None
            },
            None => None,
        }
    }
}

fn filter_of(value: &Option<String>) -> (filter: Option<String>)
    requires
        filter_accepted(opt_string(*value)),
    ensures
        opt_string(filter) == filter_text(opt_string(*value)),
{
    match validate_filter(as_slice(value)) {
        Ok(filter) => filter,
        Err(_) => None,
    }
}

/// Cameras by id, name, hardware model, class, or state, paged. Filters
/// whose source is unavailable fail explicitly.
pub fn cameras_search(inventory: CameraInventory, input: &CamerasSearchInput) -> (result: Result<
    CamerasSearchOutput,
    ToolError,
>)
    ensures
        result is Err <==> camera_search_refusal(inventory, *input) is Some,
        result matches Err(error) ==> is_invalid_params(
            error,
            camera_search_refusal(inventory, *input)->Some_0,
        ),
        result matches Ok(output) ==> {
            let found = found_cameras(inventory.cameras@, *input);
            &&& output.cameras@ == page(found, input.offset as int, input.limit as int)
            &&& output.total == found.len()
            &&& opt_int(output.next_offset) == next_page(
                input.offset as int,
                output.cameras@.len() as int,
                found.len() as int,
            )
            &&& states_capabilities(output.capabilities, inventory.local_state)
        },
{
    if let Err(error) = check_cameras_search(input) {
        return Err(error);
    }
    let available = inventory.local_state == LocalEnrichmentState::Available;
    let query = filter_of(&input.query);
    let model = filter_of(&input.model);
    let class = filter_of(&input.class_filter);
    let state = filter_of(&input.state);
    let test_model = |camera: &CameraView| -> (answer: bool)
        ensures
            answer == (camera.hardware_model is None)
    {
        camera.hardware_model.is_none()
    };
    if model.is_some() && (!available || any(
        &inventory.cameras,
        test_model,
        Ghost(|camera: CameraView| camera.hardware_model is None),
    )) {
        return Err(unavailable_camera_filter("model"));
    }
    if let Some(wanted) = &class {
        match class_filter_available(&inventory.cameras, wanted.as_str()) {
            Err(error) => {
                return Err(error);
            },
            Ok(complete) => {
                if !available || !complete {
                    return Err(unavailable_camera_filter("class"));
                }
            },
        }
    }
    let capabilities = protect_capabilities(inventory.local_state);
    let query = as_slice(&query);
    let model = as_slice(&model);
    let class = as_slice(&class);
    let state = as_slice(&state);
    let test = |camera: &CameraView| -> (answer: bool)
        ensures
            answer == camera_meets(
                *camera,
                opt_text(query),
                opt_text(model),
                opt_text(class),
                opt_text(state),
            )
    {
        camera_matches(camera, query, model, class, state)
    };
    let matched = keep(inventory.cameras, test, Ghost(camera_filter(*input)));
    let total: usize = matched.len();
    let offset: usize = input.offset as usize;
    let cameras = take_page(matched, offset, input.limit as usize);
    let next = next_offset(offset, cameras.len(), total);
    Ok(CamerasSearchOutput { cameras, total, next_offset: next, capabilities })
}

// ---------------------------------------------------------------------------
// One camera
// ---------------------------------------------------------------------------

/// Whether a camera selector holds something and not too much, once trimmed.
pub open spec fn camera_selector_accepted(raw: Seq<char>) -> bool {
    let selector = trimmed(raw);
    &&& selector.len() > 0
    &&& byte_len(selector) <= MAXIMUM_CAMERA_SELECTOR_BYTES
    &&& selector.len() <= MAXIMUM_CAMERA_SELECTOR_CHARACTERS
}

/// The refusal of a camera selector.
pub open spec fn camera_selector_message() -> Seq<char> {
    "camera selector must be an id or exact name of at most 256 characters"@
}

/// Trims a camera selector; refuses one that is empty or oversized.
pub fn camera_selector(raw: &str) -> (result: Result<String, ToolError>)
    ensures
        result is Ok <==> camera_selector_accepted(raw@),
        result matches Ok(selector) ==> selector@ == trimmed(raw@),
        result matches Err(error) ==> is_invalid_params(error, camera_selector_message()),
{
    let selector = trim(raw);
    if selector.as_str().is_empty() || count_bytes(selector.as_str())
        > MAXIMUM_CAMERA_SELECTOR_BYTES || chars_of(selector.as_str()).len()
        > MAXIMUM_CAMERA_SELECTOR_CHARACTERS {
        return Err(
            invalid_params("camera selector must be an id or exact name of at most 256 characters"),
        );
    }
    Ok(selector)
}

/// Whether a name is a selector in lowercase form, once trimmed.
pub open spec fn is_camera_name(candidate: Seq<char>, normalized: Seq<char>) -> bool {
    lowercase(trimmed(candidate)) == normalized
}

/// Whether a name is a selector in lowercase form, once trimmed.
pub fn camera_name_matches(candidate: &str, normalized_selector: &str) -> (result: bool)
    ensures
        result == is_camera_name(candidate@, normalized_selector@),
{
    let inner = trim(candidate);
    let lower = to_lowercase(inner.as_str());
    same_text(lower.as_str(), normalized_selector)
}

/// The test for a camera by id.
pub open spec fn camera_by_id(selector: Seq<char>) -> spec_fn(CameraView) -> bool {
    |camera: CameraView| camera.id@ == selector
}

/// The test for a camera by reported or displayed name.
pub open spec fn camera_by_name(selector: Seq<char>) -> spec_fn(CameraView) -> bool {
    |camera: CameraView|
        (camera.name matches Some(name) && is_camera_name(name@, lowercase(selector)))
            || is_camera_name(camera.display_name@, lowercase(selector))
}

/// The cameras a selector names: those of that id where there are any, else
/// those of that name.
pub open spec fn selected_cameras(cameras: Seq<CameraView>, selector: Seq<char>) -> Seq<CameraView> {
    if some_row(cameras, camera_by_id(selector)) {
        cameras.filter(camera_by_id(selector))
    } else {
        cameras.filter(camera_by_name(selector))
    }
}

/// Whether a camera has an id.
pub fn has_camera_id(cameras: &Vec<CameraView>, selector: &str) -> (result: bool)
    ensures
        result == some_row(cameras@, camera_by_id(selector@)),
{
    let test = |camera: &CameraView| -> (answer: bool)
        ensures
            answer == (camera.id@ == selector@)
    {
        same_text(camera.id.as_str(), selector)
    };
    any(cameras, test, Ghost(camera_by_id(selector@)))
}

/// The cameras a selector names.
pub fn select_cameras(cameras: Vec<CameraView>, selector: &str) -> (named: Vec<CameraView>)
    ensures
        named@ == selected_cameras(cameras@, selector@),
{
    if has_camera_id(&cameras, selector) {
        let of_id = |camera: &CameraView| -> (answer: bool)
            ensures
                answer == (camera.id@ == selector@)
        {
            same_text(camera.id.as_str(), selector)
        };
        return keep(cameras, of_id, Ghost(camera_by_id(selector@)));
    }
    let lower = to_lowercase(selector);
    let wanted = lower.as_str();
    let of_name = |camera: &CameraView| -> (answer: bool)
        ensures
            answer == ((camera.name matches Some(name) && is_camera_name(name@, wanted@))
                || is_camera_name(camera.display_name@, wanted@))
    {
        let by_name = match &camera.name {
            Some(name) => camera_name_matches(name.as_str(), wanted),
            None => false,
        };
        by_name || camera_name_matches(camera.display_name.as_str(), wanted)
    };
    keep(cameras, of_name, Ghost(camera_by_name(selector@)))
}

/// The refusal of a name where the local inventory is not complete.
pub open spec fn incomplete_names_message() -> Seq<char> {
    "camera name selection requires complete local Protect inventory; select by id"@
}

/// The refusal where no camera matches.
pub open spec fn no_camera_message() -> Seq<char> {
    "no camera on this console has that id or name"@
}

/// The refusal where several cameras match.
pub open spec fn several_cameras_message(count: nat) -> Seq<char> {
    decimal(count) + " cameras share that name; select by id"@
}

/// Refuses a list of named cameras that does not hold exactly one, and gives
/// the message.
pub(crate) fn wrong_count(count: usize) -> (error: ToolError)
    requires
        count != 1,
    ensures
        count == 0 ==> is_invalid_params(error, no_camera_message()),
        count > 1 ==> is_invalid_params(error, several_cameras_message(count as nat)),
{
    if count == 0 {
        return invalid_params("no camera on this console has that id or name");
    }
    let number = to_decimal(count as u64);
    let message = join2(number.as_str(), " cameras share that name; select by id");
    ToolError { kind: ErrorKind::InvalidParams, message }
}

/// Whether a name can be trusted to be unique in a state: where a local
/// session is configured, only once it covers every camera.
pub open spec fn names_usable(state: LocalEnrichmentState) -> bool {
    state == LocalEnrichmentState::Available || state == LocalEnrichmentState::NotConfigured
}

/// One camera by id or exact name. An id is unique on the console; a name is
/// only unique if it happens to be, so an ambiguous name is refused rather
/// than resolved by position.
pub fn cameras_status(inventory: CameraInventory, camera: &str) -> (result: Result<
    CameraView,
    ToolError,
>)
    ensures
        ({
            let selector = trimmed(camera@);
            let cameras = inventory.cameras@;
            let named = selected_cameras(cameras, selector);
            if !camera_selector_accepted(camera@) {
                result is Err && is_invalid_params(result->Err_0, camera_selector_message())
            } else if !some_row(cameras, camera_by_id(selector)) && !names_usable(
                inventory.local_state,
            ) {
                result is Err && is_invalid_params(result->Err_0, incomplete_names_message())
            } else if named.len() == 1 {
                result == Ok::<CameraView, ToolError>(named[0])
            } else if named.len() == 0 {
                result is Err && is_invalid_params(result->Err_0, no_camera_message())
            } else {
                result is Err && is_invalid_params(
                    result->Err_0,
                    several_cameras_message(named.len()),
                )
            }
        }),
{
    let selector = match camera_selector(camera) {
        Ok(selector) => selector,
        Err(error) => {
            return Err(error);
        },
    };
    let usable = inventory.local_state == LocalEnrichmentState::Available || inventory.local_state
        == LocalEnrichmentState::NotConfigured;
    if !usable && !has_camera_id(&inventory.cameras, selector.as_str()) {
        return Err(
            invalid_params(
                "camera name selection requires complete local Protect inventory; select by id",
            ),
        );
    }
    let mut named = select_cameras(inventory.cameras, selector.as_str());
    if named.len() != 1 {
        return Err(wrong_count(named.len()));
    }
    Ok(named.remove(0))
}

// ---------------------------------------------------------------------------
// Snapshot
// ---------------------------------------------------------------------------

/// The test for a camera in a state.
pub open spec fn in_state(state: Seq<char>) -> spec_fn(CameraView) -> bool {
    |camera: CameraView| camera.state@ == state
}

/// Whether some row counts a state.
pub open spec fn has_row(rows: Seq<CameraCountRow>, state: Seq<char>) -> bool {
    exists|i: int| 0 <= i < rows.len() && (#[trigger] rows[i]).state@ == state
}

/// Whether rows count the cameras of each reported state: the states
/// ascending, each with how many cameras are in it, and no state left out.
pub open spec fn counts_states(rows: Seq<CameraCountRow>, cameras: Seq<CameraView>) -> bool {
    &&& forall|i: int, j: int|
        0 <= i < j < rows.len() ==> precedes(
            (#[trigger] rows[i]).state@,
            (#[trigger] rows[j]).state@,
        )
    &&& forall|i: int|
        0 <= i < rows.len() ==> (#[trigger] rows[i]).count == cameras.filter(
            in_state(rows[i].state@),
        ).len() && rows[i].count > 0
    &&& forall|k: int|
        0 <= k < cameras.len() ==> has_row(rows, (#[trigger] cameras[k]).state@)
}

proof fn lemma_filter_next(cameras: Seq<CameraView>, camera: CameraView, state: Seq<char>)
    ensures
        cameras.push(camera).filter(in_state(state)).len() == cameras.filter(in_state(state)).len()
            + if camera.state@ == state {
            1nat
        } else {
            0nat
        },
{
    reveal(Seq::filter);
    assert(cameras.push(camera).drop_last() =~= cameras);
    assert(cameras.push(camera).last() == camera);
}

proof fn lemma_state_absent(
    rows: Seq<CameraCountRow>,
    cameras: Seq<CameraView>,
    state: Seq<char>,
)
    requires
        counts_states(rows, cameras),
        forall|i: int| 0 <= i < rows.len() ==> (#[trigger] rows[i]).state@ != state,
    ensures
        cameras.filter(in_state(state)).len() == 0,
    decreases cameras.len(),
{
    let kept = cameras.filter(in_state(state));
    if kept.len() > 0 {
        assert(kept.contains(kept[0]));
        crate::rows::lemma_filter_contains(cameras, in_state(state), kept[0]);
        let k = choose|k: int| 0 <= k < cameras.len() && cameras[k] == kept[0];
        let i = choose|i: int|
            0 <= i < rows.len() && (#[trigger] rows[i]).state@ == cameras[k].state@;
        assert(rows[i].state@ == state);
    }
}

/// How many cameras are in each reported state, sorted by state.
pub fn count_states(cameras: &Vec<CameraView>) -> (rows: Vec<CameraCountRow>)
    ensures
        counts_states(rows@, cameras@),
{
    let mut rows: Vec<CameraCountRow> = Vec::new();
    let mut k: usize = 0;
    proof {
        reveal(Seq::filter);
    }
    while k < cameras.len()
        invariant
            k <= cameras@.len(),
            counts_states(rows@, cameras@.take(k as int)),
            forall|i: int| 0 <= i < rows@.len() ==> (#[trigger] rows@[i]).count <= k,
        decreases cameras@.len() - k,
    {
        let ghost done = cameras@.take(k as int);
        let ghost camera = cameras@[k as int];
        let ghost prior = rows@;
        let ghost state = camera.state@;
        assert(cameras@.take(k + 1) =~= done.push(camera));
        let mut at: usize = 0;
        while at < rows.len() && text_precedes(rows[at].state.as_str(), cameras[k].state.as_str())
            invariant
                k < cameras@.len(),
                at <= rows@.len(),
                rows@ == prior,
                state == cameras@[k as int].state@,
                forall|i: int| 0 <= i < at ==> precedes((#[trigger] prior[i]).state@, state),
            decreases rows@.len() - at,
        {
            at += 1;
        }
        if at < rows.len() && same_text(rows[at].state.as_str(), cameras[k].state.as_str()) {
            let next: usize = rows[at].count + 1;
            let row = CameraCountRow { state: rows[at].state.clone(), count: next };
            rows.set(at, row);
            proof {
                assert forall|i: int| 0 <= i < rows@.len() implies (#[trigger] rows@[i]).state@
                    == prior[i].state@ by {}
                assert forall|i: int| 0 <= i < rows@.len() implies (#[trigger] rows@[i]).count
                    == done.push(camera).filter(in_state(rows@[i].state@)).len()
                    && rows@[i].count > 0 by {
                    lemma_filter_next(done, camera, prior[i].state@);
                    if i < at {
                        assert(precedes(prior[i].state@, prior[at as int].state@));
                        lemma_precedes_irreflexive(state);
                    } else if i > at {
                        assert(precedes(prior[at as int].state@, prior[i].state@));
                        lemma_precedes_irreflexive(state);
                    }
                }
                assert forall|i: int, j: int| 0 <= i < j < rows@.len() implies precedes(
                    (#[trigger] rows@[i]).state@,
                    (#[trigger] rows@[j]).state@,
                ) by {
                    assert(precedes(prior[i].state@, prior[j].state@));
                }
                assert forall|c: int| 0 <= c < done.push(camera).len() implies has_row(
                    rows@,
                    (#[trigger] done.push(camera)[c]).state@,
                ) by {
                    if c < done.len() {
                        assert(done[c] == done.push(camera)[c]);
                        let i = choose|i: int|
                            0 <= i < prior.len() && (#[trigger] prior[i]).state@ == done[c].state@;
                        assert(rows@[i].state@ == prior[i].state@);
                    } else {
                        assert(rows@[at as int].state@ == state);
                    }
                }
                assert(counts_states(rows@, done.push(camera)));
            }
        } else {
            proof {
                assert forall|i: int| at <= i < prior.len() implies precedes(
                    state,
                    (#[trigger] prior[i]).state@,
                ) by {
                    lemma_precedes_total(prior[at as int].state@, state);
                    if i > at {
                        assert(precedes(prior[at as int].state@, prior[i].state@));
                        lemma_precedes_transitive(state, prior[at as int].state@, prior[i].state@);
                    }
                }
                assert forall|i: int| 0 <= i < prior.len() implies (#[trigger] prior[i]).state@
                    != state by {
                    lemma_precedes_irreflexive(state);
                    if i < at {
                        assert(precedes(prior[i].state@, state));
                    } else {
                        assert(precedes(state, prior[i].state@));
                    }
                }
                lemma_state_absent(prior, done, state);
            }
            rows.insert(at, CameraCountRow { state: cameras[k].state.clone(), count: 1 });
            proof {
                assert forall|i: int| 0 <= i < rows@.len() implies (#[trigger] rows@[i]).count
                    == done.push(camera).filter(in_state(rows@[i].state@)).len()
                    && rows@[i].count > 0 by {
                    if i < at {
                        assert(rows@[i] == prior[i]);
                        lemma_filter_next(done, camera, prior[i].state@);
                    } else if i > at {
                        assert(rows@[i] == prior[i - 1]);
                        lemma_filter_next(done, camera, prior[i - 1].state@);
                    } else {
                        lemma_filter_next(done, camera, state);
                    }
                }
                assert forall|i: int, j: int| 0 <= i < j < rows@.len() implies precedes(
                    (#[trigger] rows@[i]).state@,
                    (#[trigger] rows@[j]).state@,
                ) by {
                    if j < at {
                        assert(precedes(prior[i].state@, prior[j].state@));
                    } else if j == at {
                        assert(precedes(prior[i].state@, state));
                    } else if i < at {
                        assert(precedes(prior[i].state@, prior[j - 1].state@));
                    } else if i == at {
                        assert(precedes(state, prior[j - 1].state@));
                    } else {
                        assert(precedes(prior[i - 1].state@, prior[j - 1].state@));
                    }
                }
                assert forall|c: int| 0 <= c < done.push(camera).len() implies has_row(
                    rows@,
                    (#[trigger] done.push(camera)[c]).state@,
                ) by {
                    if c < done.len() {
                        assert(done[c] == done.push(camera)[c]);
                        let i = choose|i: int|
                            0 <= i < prior.len() && (#[trigger] prior[i]).state@ == done[c].state@;
                        if i < at {
                            assert(rows@[i] == prior[i]);
                        } else {
                            assert(rows@[i + 1] == prior[i]);
                        }
                    } else {
                        assert(rows@[at as int].state@ == state);
                    }
                }
                assert(counts_states(rows@, done.push(camera)));
            }
        }
        k += 1;
    }
    assert(cameras@.take(k as int) =~= cameras@);
    rows
}

/// The test for a camera that reports it is not recording.
pub open spec fn idle() -> spec_fn(CameraView) -> bool {
    |camera: CameraView| camera.recording == Some(false)
}

/// A camera by id and name.
pub open spec fn reference_to(camera: CameraView) -> CameraReferenceView {
    CameraReferenceView { id: camera.id, name: camera.name }
}

/// Whether every camera reports whether it is recording.
pub open spec fn recording_known(cameras: Seq<CameraView>) -> bool {
    forall|i: int| 0 <= i < cameras.len() ==> (#[trigger] cameras[i]).recording is Some
}

/// References to the first of the idle cameras.
pub open spec fn idle_references(cameras: Seq<CameraView>) -> Seq<CameraReferenceView> {
    page(cameras.filter(idle()), 0, IDLE_CAMERA_LIST_CEILING as int).map_values(
        |camera: CameraView| reference_to(camera),
    )
}

/// One console snapshot: version, cameras grouped by their reported state,
/// the recorder, and explicit source capabilities. The list of cameras that
/// do not record is given only where every camera reports whether it does,
/// so a partial report cannot look like a complete list.
pub fn protect_overview(console: &str, inventory: CameraInventory, nvr: ProtectNvr) -> (output:
    ProtectOverviewOutput)
    ensures
        ({
            let cameras = inventory.cameras@;
            let known = recording_known(cameras);
            let total = cameras.filter(idle()).len();
            &&& output.console@ == console@
            &&& output.application_version == inventory.application_version
            &&& counts_states(output.cameras_by_state@, cameras)
            &&& output.camera_count == cameras.len()
            &&& output.not_recording is Some <==> known
            &&& known ==> output.not_recording->Some_0@ == idle_references(cameras)
            &&& output.not_recording_truncated == shown_if(
                known && total > IDLE_CAMERA_LIST_CEILING,
            )
            &&& output.not_recording_count is Some <==> known
            &&& known ==> output.not_recording_count->Some_0 == total
            &&& output.recorders@.len() == 1
            &&& shows_recorder(output.recorders@[0], nvr, inventory.local_nvr)
            &&& states_capabilities(output.capabilities, inventory.local_state)
        }),
{
    let cameras_by_state = count_states(&inventory.cameras);
    let camera_count: usize = inventory.cameras.len();
    let unknown = |camera: &CameraView| -> (answer: bool)
        ensures
            answer == (camera.recording is None)
    {
        camera.recording.is_none()
    };
    let known = !any(
        &inventory.cameras,
        unknown,
        Ghost(|camera: CameraView| camera.recording is None),
    );
    let is_idle = |camera: &CameraView| -> (answer: bool)
        ensures
            answer == (camera.recording == Some(false))
    {
        match camera.recording {
            Some(recording) => !recording,
            None => false,
        }
    };
    let kept = keep(inventory.cameras, is_idle, Ghost(idle()));
    let total: usize = kept.len();
    let shown = take_page(kept, 0, IDLE_CAMERA_LIST_CEILING);
    let ghost taken = shown@;
    let conversion = |camera: CameraView| -> (reference: CameraReferenceView)
        ensures
            reference == reference_to(camera)
    {
        CameraReferenceView { id: camera.id, name: camera.name }
    };
    let references = convert(shown, conversion);
    assert(references@ =~= taken.map_values(|camera: CameraView| reference_to(camera)));
    let recorder = match &inventory.local_nvr {
        Some(local) => recorder_view(nvr, Some(local)),
        None => recorder_view(nvr, None),
    };
    let mut recorders: Vec<RecorderView> = Vec::new();
    recorders.push(recorder);
    let truncated = known && total > IDLE_CAMERA_LIST_CEILING;
    let (not_recording, not_recording_count): (Option<Vec<CameraReferenceView>>, Option<usize>) =
        if known {
        (Some(references), Some(total))
    } else {
        (None, None)
    };
    ProtectOverviewOutput {
        console: console.to_owned(),
        application_version: inventory.application_version,
        cameras_by_state,
        camera_count,
        not_recording,
        not_recording_truncated: flag_if(truncated),
        not_recording_count,
        recorders,
        capabilities: protect_capabilities(inventory.local_state),
    }
}

// ---------------------------------------------------------------------------
// Laws
// ---------------------------------------------------------------------------

/// How many cameras a list of rows counts.
pub open spec fn counted(rows: Seq<CameraCountRow>) -> nat
    decreases rows.len(),
{
    if rows.len() == 0 {
        0
    } else {
        counted(rows.drop_last()) + rows.last().count as nat
    }
}

/// Every camera is counted once: the counts of all states come to the number
/// of cameras.
pub proof fn law_every_camera_is_counted_once(
    rows: Seq<CameraCountRow>,
    cameras: Seq<CameraView>,
)
    requires
        counts_states(rows, cameras),
    ensures
        counted(rows) == cameras.len(),
    decreases rows.len(),
{
    if rows.len() == 0 {
        if cameras.len() > 0 {
            let camera = cameras[0];
            assert(has_row(rows, camera.state@));
        }
    } else {
        let state = rows.last().state@;
        let others = not_in_state(state);
        let rest = rows.drop_last();
        let left = cameras.filter(others);
        lemma_states_split(cameras, state);
        assert forall|i: int, j: int| 0 <= i < j < rest.len() implies precedes(
            (#[trigger] rest[i]).state@,
            (#[trigger] rest[j]).state@,
        ) by {
            assert(rest[i] == rows[i] && rest[j] == rows[j]);
        }
        assert forall|i: int| 0 <= i < rest.len() implies (#[trigger] rest[i]).count
            == left.filter(in_state(rest[i].state@)).len() && rest[i].count > 0 by {
            assert(rest[i] == rows[i]);
            assert(precedes(rows[i].state@, rows[rows.len() - 1].state@));
            lemma_precedes_irreflexive(state);
            lemma_other_states_stay(cameras, state, rest[i].state@);
        }
        assert forall|k: int| 0 <= k < left.len() implies has_row(
            rest,
            (#[trigger] left[k]).state@,
        ) by {
            assert(left.contains(left[k]));
            crate::rows::lemma_filter_contains(cameras, others, left[k]);
            let c = choose|c: int| 0 <= c < cameras.len() && cameras[c] == left[k];
            assert(has_row(rows, cameras[c].state@));
            let i = choose|i: int|
                0 <= i < rows.len() && (#[trigger] rows[i]).state@ == cameras[c].state@;
            assert(i < rest.len());
            assert(rest[i] == rows[i]);
        }
        assert(counts_states(rest, left));
        law_every_camera_is_counted_once(rest, left);
        assert(rows[rows.len() - 1].count == cameras.filter(in_state(state)).len());
    }
}

/// The test for a camera in another state.
pub open spec fn not_in_state(state: Seq<char>) -> spec_fn(CameraView) -> bool {
    |camera: CameraView| camera.state@ != state
}

proof fn lemma_states_split(cameras: Seq<CameraView>, state: Seq<char>)
    ensures
        cameras.filter(in_state(state)).len() + cameras.filter(not_in_state(state)).len()
            == cameras.len(),
    decreases cameras.len(),
{
    reveal(Seq::filter);
    if cameras.len() > 0 {
        lemma_states_split(cameras.drop_last(), state);
    }
}

proof fn lemma_other_states_stay(cameras: Seq<CameraView>, state: Seq<char>, other: Seq<char>)
    requires
        other != state,
    ensures
        cameras.filter(not_in_state(state)).filter(in_state(other)) == cameras.filter(
            in_state(other),
        ),
    decreases cameras.len(),
{
    reveal(Seq::filter);
    if cameras.len() > 0 {
        let rest = cameras.drop_last();
        let kept = rest.filter(not_in_state(state));
        lemma_other_states_stay(rest, state, other);
        if cameras.last().state@ != state {
            assert(kept.push(cameras.last()).drop_last() =~= kept);
        }
    }
}

} // verus!
