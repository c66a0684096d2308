//! The camera inventory of a Protect console: joining the public and the
//! local records.

use vstd::prelude::*;
use vstd::string::*;

use crate::cameras::{
    camera_names, camera_view, display_of, facts_of, shows_camera, CameraView, LocalEnrichmentState,
    ProtectCamera, ProtectLocalCamera, RecorderSwitches,
};
use crate::display::{bounded, bounded_text};
use crate::error::{internal_error, invalid_params, is_internal, is_invalid_params, ToolError};
use crate::order::{by_text, rows_of, sort_keyed, stable_sort, text_key, Key, Rank};
use crate::recorder::{
    conflicting_optional_identity, identities_conflict, recorder_conflict_message,
    recorder_switches, recorders_conflict, reject_conflicting_recorder_identity, switches_of,
    ProtectLocalNvr, ProtectNvr,
};
use crate::rows::{any, convert, find, first_where, owned};
use crate::text::{contains, opt_string, same_text};

verus! {

/// The whole local inventory.
pub struct ProtectBootstrap {
    pub cameras: Vec<ProtectLocalCamera>,
    pub nvr: ProtectLocalNvr,
}

/// What was read of the local inventory.
pub enum LocalReading {
    /// No local session is configured, or none was asked for.
    NotConfigured,
    /// The configured session could not be read.
    Unavailable,
    /// The cameras alone.
    Cameras(Vec<ProtectLocalCamera>),
    /// The cameras and the recorder.
    Full(ProtectBootstrap),
}

/// The joined inventory of a console.
pub struct CameraInventory {
    pub application_version: String,
    pub cameras: Vec<CameraView>,
    pub public_nvr: Option<ProtectNvr>,
    pub local_nvr: Option<ProtectLocalNvr>,
    pub local_state: LocalEnrichmentState,
}

/// The refusal of a console without the integration API.
pub open spec fn unsupported_console_message() -> Seq<char> {
    "this console does not expose the Protect integration API, so its cameras cannot be read; that is not the same as a console with no cameras"@
}

/// The version of a console that exposes the integration API. A console
/// without it is refused, never returned as a console with no cameras.
pub fn require_integration(available: Option<String>) -> (result: Result<String, ToolError>)
    ensures
        match available {
            Some(version) => result == Ok::<String, ToolError>(version),
            None => result is Err && is_invalid_params(
                result->Err_0,
                unsupported_console_message(),
            ),
        },
{
    match available {
        Some(version) => Ok(version),
        None => Err(
            invalid_params(
                "this console does not expose the Protect integration API, so its cameras cannot be read; that is not the same as a console with no cameras",
            ),
        ),
    }
}

// ---------------------------------------------------------------------------
// Joining
// ---------------------------------------------------------------------------

/// Whether no two public records share an id.
pub open spec fn public_distinct(cameras: Seq<ProtectCamera>) -> bool {
    forall|i: int, j: int|
        0 <= i < j < cameras.len() ==> (#[trigger] cameras[i]).id@ != (#[trigger] cameras[j]).id@
}

/// Whether no two local records share an id.
pub open spec fn local_distinct(cameras: Seq<ProtectLocalCamera>) -> bool {
    forall|i: int, j: int|
        0 <= i < j < cameras.len() ==> (#[trigger] cameras[i]).id@ != (#[trigger] cameras[j]).id@
}

/// Refuses a public inventory in which two records share an id.
pub fn reject_duplicate_camera_ids(cameras: &Vec<ProtectCamera>) -> (result: Result<(), ToolError>)
    ensures
        result is Ok <==> public_distinct(cameras@),
        result matches Err(error) ==> is_internal(
            error,
            "Protect public camera inventory contains duplicate ids"@,
        ),
{
    let mut j: usize = 0;
    while j < cameras.len()
        invariant
            j <= cameras@.len(),
            forall|a: int, b: int|
                0 <= a < b < j ==> (#[trigger] cameras@[a]).id@ != (#[trigger] cameras@[b]).id@,
        decreases cameras@.len() - j,
    {
        let mut i: usize = 0;
        while i < j
            invariant
                i <= j < cameras@.len(),
                forall|a: int| 0 <= a < i ==> (#[trigger] cameras@[a]).id@ != cameras@[j as int].id@,
            decreases j - i,
        {
            if same_text(cameras[i].id.as_str(), cameras[j].id.as_str()) {
                return Err(
                    internal_error("Protect public camera inventory contains duplicate ids"),
                );
            }
            i += 1;
        }
        j += 1;
    }
    Ok(())
}

/// Refuses a local inventory in which two records share an id.
pub fn reject_duplicate_local_camera_ids(cameras: &Vec<ProtectLocalCamera>) -> (result: Result<
    (),
    ToolError,
>)
    ensures
        result is Ok <==> local_distinct(cameras@),
        result matches Err(error) ==> is_internal(
            error,
            "Protect local camera inventory contains duplicate ids"@,
        ),
{
    let mut j: usize = 0;
    while j < cameras.len()
        invariant
            j <= cameras@.len(),
            forall|a: int, b: int|
                0 <= a < b < j ==> (#[trigger] cameras@[a]).id@ != (#[trigger] cameras@[b]).id@,
        decreases cameras@.len() - j,
    {
        let mut i: usize = 0;
        while i < j
            invariant
                i <= j < cameras@.len(),
                forall|a: int| 0 <= a < i ==> (#[trigger] cameras@[a]).id@ != cameras@[j as int].id@,
            decreases j - i,
        {
            if same_text(cameras[i].id.as_str(), cameras[j].id.as_str()) {
                return Err(internal_error("Protect local camera inventory contains duplicate ids"));
            }
            i += 1;
        }
        j += 1;
    }
    Ok(())
}

/// The test for a local record by id.
pub open spec fn local_id(id: Seq<char>) -> spec_fn(ProtectLocalCamera) -> bool {
    |camera: ProtectLocalCamera| camera.id@ == id
}

/// The local record of a camera: the one under the same id.
pub open spec fn record_for(locals: Seq<ProtectLocalCamera>, id: Seq<char>) -> Option<
    ProtectLocalCamera,
> {
    first_where(locals, local_id(id))
}

fn find_record<'a>(locals: &'a Vec<ProtectLocalCamera>, id: &str) -> (record: Option<
    &'a ProtectLocalCamera,
>)
    ensures
        owned(record) == record_for(locals@, id@),
{
    let test = |camera: &ProtectLocalCamera| -> (answer: bool)
        ensures
            answer == (camera.id@ == id@)
    {
        same_text(camera.id.as_str(), id)
    };
    match find(locals, test, Ghost(local_id(id@))) {
        Some(at) => Some(&locals[at]),
        None => None,
    }
}

/// Whether the records joined under one id disagree on what hardware it is.
/// One physical device can expose several logical cameras, so hardware
/// identity is compared only under the same id.
pub open spec fn joined_conflict(camera: ProtectCamera, local: Option<ProtectLocalCamera>) -> bool {
    match local {
        Some(record) => identities_conflict(opt_string(camera.guid), opt_string(record.facts.guid))
            || identities_conflict(opt_string(camera.mac), opt_string(record.facts.mac)),
        None => false,
    }
}

/// Whether any camera's records disagree.
pub open spec fn cameras_conflict(
    public: Seq<ProtectCamera>,
    locals: Seq<ProtectLocalCamera>,
) -> bool {
    exists|i: int|
        0 <= i < public.len() && joined_conflict(
            #[trigger] public[i],
            record_for(locals, public[i].id@),
        )
}

/// The refusal of cameras that disagree.
pub open spec fn camera_conflict_message() -> Seq<char> {
    "Protect public and local camera identities conflict"@
}

/// Refuses inventories whose records joined under one id disagree.
pub fn reject_conflicting_camera_identity(
    public: &Vec<ProtectCamera>,
    locals: &Vec<ProtectLocalCamera>,
) -> (result: Result<(), ToolError>)
    ensures
        result is Err <==> cameras_conflict(public@, locals@),
        result matches Err(error) ==> is_internal(error, camera_conflict_message()),
{
    let mut i: usize = 0;
    while i < public.len()
        invariant
            i <= public@.len(),
            forall|k: int|
                0 <= k < i ==> !joined_conflict(
                    #[trigger] public@[k],
                    record_for(locals@, public@[k].id@),
                ),
        decreases public@.len() - i,
    {
        if let Some(record) = find_record(locals, public[i].id.as_str()) {
            if conflicting_optional_identity(&public[i].guid, &record.facts.guid)
                || conflicting_optional_identity(&public[i].mac, &record.facts.mac) {
                assert(joined_conflict(
                    public@[i as int],
                    record_for(locals@, public@[i as int].id@),
                ));
                return Err(internal_error("Protect public and local camera identities conflict"));
            }
        }
        i += 1;
    }
    Ok(())
}

/// Whether every public camera has a local record.
pub open spec fn all_joined(public: Seq<ProtectCamera>, locals: Seq<ProtectLocalCamera>) -> bool {
    forall|i: int|
        0 <= i < public.len() ==> record_for(locals, (#[trigger] public[i]).id@) is Some
}

/// The local cameras of a reading.
pub open spec fn locals_of(reading: LocalReading) -> Seq<ProtectLocalCamera> {
    match reading {
        LocalReading::Cameras(cameras) => cameras@,
        LocalReading::Full(bootstrap) => bootstrap.cameras@,
        _ => Seq::empty(),
    }
}

/// How far a reading covers the public inventory: completely where the two
/// hold the same ids.
pub open spec fn state_of(public: Seq<ProtectCamera>, reading: LocalReading) -> LocalEnrichmentState {
    match reading {
        LocalReading::NotConfigured => LocalEnrichmentState::NotConfigured,
        LocalReading::Unavailable => LocalEnrichmentState::Unavailable,
        _ => if public.len() == locals_of(reading).len() && all_joined(public, locals_of(reading)) {
            LocalEnrichmentState::Available
        } else {
            LocalEnrichmentState::Partial
        },
    }
}

fn every_joined(public: &Vec<ProtectCamera>, locals: &Vec<ProtectLocalCamera>) -> (result: bool)
    ensures
        result == all_joined(public@, locals@),
{
    let mut i: usize = 0;
    while i < public.len()
        invariant
            i <= public@.len(),
            forall|k: int|
                0 <= k < i ==> record_for(locals@, (#[trigger] public@[k]).id@) is Some,
        decreases public@.len() - i,
    {
        if find_record(locals, public[i].id.as_str()).is_none() {
            assert(record_for(locals@, public@[i as int].id@) is None);
            return false;
        }
        i += 1;
    }
    true
}

/// The refusal of an inventory that cannot be joined, where it cannot.
pub open spec fn join_refusal(public: Seq<ProtectCamera>, reading: LocalReading) -> Option<Seq<char>> {
    if !public_distinct(public) {
        Some("Protect public camera inventory contains duplicate ids"@)
    } else if !local_distinct(locals_of(reading)) {
        Some("Protect local camera inventory contains duplicate ids"@)
    } else if cameras_conflict(public, locals_of(reading)) {
        Some(camera_conflict_message())
    } else {
        None
    }
}

/// How far a reading covers the public inventory, or why the two cannot be
/// joined.
pub fn join_state(public: &Vec<ProtectCamera>, reading: &LocalReading) -> (result: Result<
    LocalEnrichmentState,
    ToolError,
>)
    ensures
        result is Err <==> join_refusal(public@, *reading) is Some,
        result matches Err(error) ==> is_internal(error, join_refusal(public@, *reading)->Some_0),
        result matches Ok(state) ==> state == state_of(public@, *reading),
{
    if let Err(error) = reject_duplicate_camera_ids(public) {
        return Err(error);
    }
    let none: Vec<ProtectLocalCamera> = Vec::new();
    let locals: &Vec<ProtectLocalCamera> = match reading {
        LocalReading::Cameras(cameras) => cameras,
        LocalReading::Full(bootstrap) => &bootstrap.cameras,
        _ => &none,
    };
    assert(locals@ =~= locals_of(*reading));
    if let Err(error) = reject_duplicate_local_camera_ids(locals) {
        return Err(error);
    }
    if let Err(error) = reject_conflicting_camera_identity(public, locals) {
        return Err(error);
    }
    match reading {
        LocalReading::NotConfigured => Ok(LocalEnrichmentState::NotConfigured),
        LocalReading::Unavailable => Ok(LocalEnrichmentState::Unavailable),
        _ => if public.len() == locals.len() && every_joined(public, locals) {
            Ok(LocalEnrichmentState::Available)
        } else {
            Ok(LocalEnrichmentState::Partial)
        },
    }
}

/// The local recorder of a reading.
pub open spec fn local_nvr_of(reading: LocalReading) -> Option<ProtectLocalNvr> {
    match reading {
        LocalReading::Full(bootstrap) => Some(bootstrap.nvr),
        _ => None,
    }
}

/// What cameras are ordered by: the name they are displayed under.
pub open spec fn camera_order(locals: Seq<ProtectLocalCamera>) -> spec_fn(ProtectCamera) -> Rank {
    |camera: ProtectCamera| by_text(shown_name_of(camera, locals))
}

/// The name a camera is displayed under.
pub open spec fn shown_name_of(camera: ProtectCamera, locals: Seq<ProtectLocalCamera>) -> Seq<char> {
    let facts = facts_of(record_for(locals, camera.id@));
    display_of(
        camera.id@,
        opt_string(camera.name),
        opt_string(facts.name),
        opt_string(facts.market_name),
        opt_string(facts.device_type),
    ).0
}

/// Whether a list shows the public cameras in display order, each joined with
/// its local record.
pub open spec fn shows_inventory(
    views: Seq<CameraView>,
    public: Seq<ProtectCamera>,
    reading: LocalReading,
) -> bool {
    let sorted = stable_sort(public, camera_order(locals_of(reading)));
    &&& views.len() == sorted.len()
    &&& forall|i: int|
        0 <= i < sorted.len() ==> shows_camera(
            #[trigger] views[i],
            sorted[i],
            record_for(locals_of(reading), sorted[i].id@),
            switches_of(local_nvr_of(reading)),
            state_of(public, reading),
        )
}

/// The refusal of an inventory, where it is refused: one that cannot be
/// joined, or whose recorders disagree.
pub open spec fn inventory_refusal(
    public: Seq<ProtectCamera>,
    reading: LocalReading,
    public_nvr: Option<ProtectNvr>,
) -> Option<Seq<char>> {
    if join_refusal(public, reading) is Some {
        join_refusal(public, reading)
    } else {
        match (public_nvr, local_nvr_of(reading)) {
            (Some(nvr), Some(local)) => if recorders_conflict(nvr, local) {
                Some(recorder_conflict_message())
            } else {
                None
            },
            _ => None,
        }
    }
}

fn show_cameras(
    public: Vec<ProtectCamera>,
    locals: &Vec<ProtectLocalCamera>,
    switches: RecorderSwitches,
    state: LocalEnrichmentState,
) -> (views: Vec<CameraView>)
    ensures
        ({
            let sorted = stable_sort(public@, camera_order(locals@));
            &&& views@.len() == sorted.len()
            &&& forall|i: int|
                0 <= i < sorted.len() ==> shows_camera(
                    #[trigger] views@[i],
                    sorted[i],
                    record_for(locals@, sorted[i].id@),
                    switches,
                    state,
                )
        }),
{
    let ghost all = public@;
    let keying = |camera: ProtectCamera| -> (pair: (Key, ProtectCamera))
        ensures
            pair.1 == camera && pair.0@ == by_text(shown_name_of(camera, locals@))
    {
        let names = camera_names(&camera, find_record(locals, camera.id.as_str()));
        (text_key(names.1.name), camera)
    };
    let keyed = convert(public, keying);
    assert(rows_of(keyed@) =~= all);
    let sorted = sort_keyed(keyed, Ghost(camera_order(locals@)));
    let conversion = |camera: ProtectCamera| -> (view: CameraView)
        ensures
            shows_camera(view, camera, record_for(locals@, camera.id@), switches, state)
    {
        let record = find_record(locals, camera.id.as_str());
        camera_view(camera, record, switches, state)
    };
    convert(sorted, conversion)
}

/// Every camera on the console, reduced to the view and joined with what was
/// read locally. The recorder's global switches count only where the local
/// recorder is the public one.
pub fn camera_inventory(
    application_version: String,
    public: Vec<ProtectCamera>,
    reading: LocalReading,
    public_nvr: Option<ProtectNvr>,
) -> (result: Result<CameraInventory, ToolError>)
    ensures
        result is Err <==> inventory_refusal(public@, reading, public_nvr) is Some,
        result matches Err(error) ==> is_internal(
            error,
            inventory_refusal(public@, reading, public_nvr)->Some_0,
        ),
        result matches Ok(inventory) ==> {
            &&& inventory.application_version@ == bounded(application_version@)
            &&& shows_inventory(inventory.cameras@, public@, reading)
            &&& inventory.public_nvr == public_nvr
            &&& inventory.local_nvr == local_nvr_of(reading)
            &&& inventory.local_state == state_of(public@, reading)
        },
{
    let state = match join_state(&public, &reading) {
        Ok(state) => state,
        Err(error) => {
            return Err(error);
        },
    };
    if let (Some(nvr), LocalReading::Full(bootstrap)) = (&public_nvr, &reading) {
        if let Err(error) = reject_conflicting_recorder_identity(nvr, &bootstrap.nvr) {
            return Err(error);
        }
    }
    let none: Vec<ProtectLocalCamera> = Vec::new();
    let cameras: Vec<CameraView> = match &reading {
        LocalReading::Cameras(locals) => show_cameras(
            public,
            locals,
            recorder_switches(None),
            state,
        ),
        LocalReading::Full(bootstrap) => show_cameras(
            public,
            &bootstrap.cameras,
            recorder_switches(Some(&bootstrap.nvr)),
            state,
        ),
        _ => {
            assert(none@ =~= locals_of(reading));
            show_cameras(public, &none, recorder_switches(None), state)
        },
    };
    let local_nvr = match reading {
        LocalReading::Full(bootstrap) => Some(bootstrap.nvr),
        _ => None,
    };
    Ok(
        CameraInventory {
            application_version: bounded_text(application_version),
            cameras,
            public_nvr,
            local_nvr,
            local_state: state,
        },
    )
}

} // verus!
