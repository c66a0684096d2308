//! The recorder of a Protect console.

use vstd::prelude::*;
use vstd::string::*;

use crate::cameras::{
    display_name, display_of, either, nonblank_option, opt_nonblank, RecorderSwitches,
};
use crate::devices::Real;
use crate::display::{bounded_option, opt_bounded};
use crate::error::{internal_error, is_internal, ToolError};
use crate::paging::page;
use crate::rows::{flag_if, owned, shown_if};
use crate::text::{
    eq_ignoring_ascii_case, opt_string, same_ignoring_ascii_case, same_text,
};

verus! {

/// Storage distribution rows returned for each dimension of the recorder.
pub const STORAGE_DISTRIBUTION_CEILING: usize = 32;

/// The recorder as the public inventory reports it.
pub struct ProtectNvr {
    pub id: String,
    pub guid: Option<String>,
    pub mac: Option<String>,
    pub name: Option<String>,
    pub device_type: Option<String>,
}

/// How many cameras a recorder can serve at each resolution.
#[derive(Debug, Clone, Copy, PartialEq, Eq, Structural)]
pub struct CameraCapacity {
    pub four_k: Option<u16>,
    pub two_k: Option<u16>,
    pub hd: Option<u16>,
}

/// The recording space of a recorder in bytes.
#[derive(Debug, Clone, Copy, PartialEq, Eq, Structural)]
pub struct RecordingSpace {
    pub total: Option<u64>,
    pub used: Option<u64>,
    pub available: Option<u64>,
}

/// One row of a storage distribution: a recording type or a resolution.
pub struct DistributionRow {
    pub category: Option<String>,
    pub size: Option<u64>,
    pub percentage: Option<Real>,
}

/// The storage of a recorder.
pub struct ProtectStorageStats {
    pub capacity: Option<u64>,
    pub remaining_capacity: Option<u64>,
    pub utilization: Option<Real>,
    pub recording_space: Option<RecordingSpace>,
    pub recording_types: Option<Vec<DistributionRow>>,
    pub resolutions: Option<Vec<DistributionRow>>,
}

/// What a local record adds to the recorder.
pub struct LocalNvrFacts {
    pub guid: Option<String>,
    pub mac: Option<String>,
    pub name: Option<String>,
    pub device_type: Option<String>,
    pub market_name: Option<String>,
    pub version: Option<String>,
    pub ucore_version: Option<String>,
    pub is_db_available: Option<bool>,
    pub is_recording_disabled: Option<bool>,
    pub is_recording_motion_only: Option<bool>,
    pub disable_audio: Option<bool>,
    pub is_recycling: Option<bool>,
    pub corruption_state: Option<String>,
    pub hard_drive_state: Option<String>,
    pub camera_utilization: Option<u16>,
    pub max_camera_capacity: Option<CameraCapacity>,
    pub last_drive_slow_event: Option<u64>,
    pub storage_stats: Option<ProtectStorageStats>,
}

/// The recorder as the local inventory reports it.
pub struct ProtectLocalNvr {
    pub id: String,
    pub facts: LocalNvrFacts,
}

/// One row of a shown storage distribution.
pub struct RecorderDistributionView {
    pub category: Option<String>,
    pub size_bytes: Option<u64>,
    pub percentage: Option<Real>,
}

/// The shown recording space of a recorder.
#[derive(Debug, Clone, Copy, PartialEq, Eq, Structural)]
pub struct RecorderSpaceView {
    pub total_bytes: Option<u64>,
    pub used_bytes: Option<u64>,
    pub available_bytes: Option<u64>,
}

/// The shown storage of a recorder.
pub struct RecorderStorageView {
    pub capacity_ms: Option<u64>,
    pub remaining_capacity_ms: Option<u64>,
    pub utilization: Option<Real>,
    pub recording_space: Option<RecorderSpaceView>,
    pub recording_type_distribution: Option<Vec<RecorderDistributionView>>,
    pub recording_type_distribution_truncated: Option<bool>,
    pub resolution_distribution: Option<Vec<RecorderDistributionView>>,
    pub resolution_distribution_truncated: Option<bool>,
}

/// The shown recorder.
pub struct RecorderView {
    pub id: String,
    pub guid: Option<String>,
    pub mac: Option<String>,
    pub name: Option<String>,
    pub display_name: String,
    pub display_name_source: String,
    pub product_type: Option<String>,
    pub hardware_model: Option<String>,
    pub protect_version: Option<String>,
    pub console_version: Option<String>,
    pub database_available: Option<bool>,
    pub recording_disabled: Option<bool>,
    pub recording_motion_only: Option<bool>,
    pub audio_disabled: Option<bool>,
    pub recycling: Option<bool>,
    pub corruption_state: Option<String>,
    pub hard_drive_state: Option<String>,
    pub camera_utilization: Option<u16>,
    pub max_camera_capacity: Option<CameraCapacity>,
    pub last_drive_slow_event_ms: Option<u64>,
    pub storage: Option<RecorderStorageView>,
    pub enriched: bool,
}

// ---------------------------------------------------------------------------
// Identity
// ---------------------------------------------------------------------------

/// Whether two optional identities disagree: both are there, and differ by
/// more than case.
pub open spec fn identities_conflict(public: Option<Seq<char>>, local: Option<Seq<char>>) -> bool {
    match (public, local) {
        (Some(a), Some(b)) => !eq_ignoring_ascii_case(a, b),
        _ => false,
    }
}

/// Whether two optional identities disagree.
pub fn conflicting_optional_identity(public: &Option<String>, local: &Option<String>) -> (result:
    bool)
    ensures
        result == identities_conflict(opt_string(*public), opt_string(*local)),
{
    match (public, local) {
        (Some(a), Some(b)) => !same_ignoring_ascii_case(a.as_str(), b.as_str()),
        _ => false,
    }
}

/// Whether the public and the local record of the recorder disagree.
pub open spec fn recorders_conflict(public: ProtectNvr, local: ProtectLocalNvr) -> bool {
    ||| local.id@ != public.id@
    ||| identities_conflict(opt_string(public.guid), opt_string(local.facts.guid))
    ||| identities_conflict(opt_string(public.mac), opt_string(local.facts.mac))
}

/// The refusal of recorders that disagree.
pub open spec fn recorder_conflict_message() -> Seq<char> {
    "Protect public and local recorder identities conflict"@
}

/// Refuses a local recorder that is not the public one.
pub fn reject_conflicting_recorder_identity(public: &ProtectNvr, local: &ProtectLocalNvr) -> (result:
    Result<(), ToolError>)
    ensures
        result is Err <==> recorders_conflict(*public, *local),
        result matches Err(error) ==> is_internal(error, recorder_conflict_message()),
{
    if !same_text(local.id.as_str(), public.id.as_str()) || conflicting_optional_identity(
        &public.guid,
        &local.facts.guid,
    ) || conflicting_optional_identity(&public.mac, &local.facts.mac) {
        return Err(internal_error("Protect public and local recorder identities conflict"));
    }
    Ok(())
}

// ---------------------------------------------------------------------------
// Storage
// ---------------------------------------------------------------------------

/// Whether a row shows a row of a distribution.
pub open spec fn shows_distribution_row(
    view: RecorderDistributionView,
    row: DistributionRow,
) -> bool {
    &&& opt_string(view.category) == opt_bounded(opt_string(row.category))
    &&& view.size_bytes == row.size
    &&& view.percentage == row.percentage
}

/// Whether a list shows a distribution, bounded.
pub open spec fn shows_distribution(
    view: Option<Vec<RecorderDistributionView>>,
    rows: Option<Vec<DistributionRow>>,
) -> bool {
    match (view, rows) {
        (None, None) => true,
        (Some(shown), Some(all)) => {
            let kept = page(all@, 0, STORAGE_DISTRIBUTION_CEILING as int);
            &&& shown@.len() == kept.len()
            &&& forall|i: int|
                0 <= i < kept.len() ==> shows_distribution_row(#[trigger] shown@[i], kept[i])
        },
        _ => false,
    }
}

/// Whether a distribution has more rows than are shown.
pub open spec fn distribution_cut(rows: Option<Vec<DistributionRow>>) -> bool {
    rows matches Some(all) && all@.len() > STORAGE_DISTRIBUTION_CEILING
}

fn show_distribution(rows: &Option<Vec<DistributionRow>>) -> (shown: (
    Option<Vec<RecorderDistributionView>>,
    Option<bool>,
))
    ensures
        shows_distribution(shown.0, *rows),
        shown.1 == shown_if(distribution_cut(*rows)),
{
    let all = match rows {
        Some(all) => all,
        None => {
            return (None, None);
        },
    };
    let mut views: Vec<RecorderDistributionView> = Vec::new();
    let mut i: usize = 0;
    while i < all.len() && i < STORAGE_DISTRIBUTION_CEILING
        invariant
            i <= all@.len(),
            i <= STORAGE_DISTRIBUTION_CEILING,
            views@.len() == i,
            forall|k: int| 0 <= k < i ==> shows_distribution_row(#[trigger] views@[k], all@[k]),
        decreases all@.len() - i,
    {
        views.push(
            RecorderDistributionView {
                category: bounded_option(all[i].category.clone()),
                size_bytes: all[i].size,
                percentage: all[i].percentage,
            },
        );
        i += 1;
    }
    let cut = all.len() > STORAGE_DISTRIBUTION_CEILING;
    (Some(views), flag_if(cut))
}

/// The space a storage view shows.
pub open spec fn space_of(space: Option<RecordingSpace>) -> Option<RecorderSpaceView> {
    match space {
        Some(inner) => Some(
            RecorderSpaceView {
                total_bytes: inner.total,
                used_bytes: inner.used,
                available_bytes: inner.available,
            },
        ),
        None => None,
    }
}

/// Whether a view shows the storage of a recorder.
pub open spec fn shows_storage(view: RecorderStorageView, storage: ProtectStorageStats) -> bool {
    &&& view.capacity_ms == storage.capacity
    &&& view.remaining_capacity_ms == storage.remaining_capacity
    &&& view.utilization == storage.utilization
    &&& view.recording_space == space_of(storage.recording_space)
    &&& shows_distribution(view.recording_type_distribution, storage.recording_types)
    &&& view.recording_type_distribution_truncated == shown_if(
        distribution_cut(storage.recording_types),
    )
    &&& shows_distribution(view.resolution_distribution, storage.resolutions)
    &&& view.resolution_distribution_truncated == shown_if(distribution_cut(storage.resolutions))
}

/// The storage of a recorder, with each distribution bounded.
pub fn recorder_storage_view(storage: &ProtectStorageStats) -> (view: RecorderStorageView)
    ensures
        shows_storage(view, *storage),
{
    let (types, types_cut) = show_distribution(&storage.recording_types);
    let (resolutions, resolutions_cut) = show_distribution(&storage.resolutions);
    let recording_space = match &storage.recording_space {
        Some(inner) => Some(
            RecorderSpaceView {
                total_bytes: inner.total,
                used_bytes: inner.used,
                available_bytes: inner.available,
            },
        ),
        None => None,
    };
    RecorderStorageView {
        capacity_ms: storage.capacity,
        remaining_capacity_ms: storage.remaining_capacity,
        utilization: storage.utilization,
        recording_space,
        recording_type_distribution: types,
        recording_type_distribution_truncated: types_cut,
        resolution_distribution: resolutions,
        resolution_distribution_truncated: resolutions_cut,
    }
}

// ---------------------------------------------------------------------------
// The view
// ---------------------------------------------------------------------------

/// The facts where there is no local record: none.
pub open spec fn no_nvr_facts() -> LocalNvrFacts {
    LocalNvrFacts {
        guid: None,
        mac: None,
        name: None,
        device_type: None,
        market_name: None,
        version: None,
        ucore_version: None,
        is_db_available: None,
        is_recording_disabled: None,
        is_recording_motion_only: None,
        disable_audio: None,
        is_recycling: None,
        corruption_state: None,
        hard_drive_state: None,
        camera_utilization: None,
        max_camera_capacity: None,
        last_drive_slow_event: None,
        storage_stats: None,
    }
}

/// The facts the recorder has from a local record, where there is one.
pub open spec fn nvr_facts_of(local: Option<ProtectLocalNvr>) -> LocalNvrFacts {
    match local {
        Some(record) => record.facts,
        None => no_nvr_facts(),
    }
}

fn absent_nvr_facts() -> (facts: LocalNvrFacts)
    ensures
        facts == no_nvr_facts(),
{
    LocalNvrFacts {
        guid: None,
        mac: None,
        name: None,
        device_type: None,
        market_name: None,
        version: None,
        ucore_version: None,
        is_db_available: None,
        is_recording_disabled: None,
        is_recording_motion_only: None,
        disable_audio: None,
        is_recycling: None,
        corruption_state: None,
        hard_drive_state: None,
        camera_utilization: None,
        max_camera_capacity: None,
        last_drive_slow_event: None,
        storage_stats: None,
    }
}

/// The switches of the recorder that govern every camera.
pub open spec fn switches_of(local: Option<ProtectLocalNvr>) -> RecorderSwitches {
    RecorderSwitches {
        disable_audio: nvr_facts_of(local).disable_audio,
        is_recording_disabled: nvr_facts_of(local).is_recording_disabled,
    }
}

/// The switches of the recorder that govern every camera.
pub fn recorder_switches(local: Option<&ProtectLocalNvr>) -> (switches: RecorderSwitches)
    ensures
        switches == switches_of(owned(local)),
{
    match local {
        Some(record) => RecorderSwitches {
            disable_audio: record.facts.disable_audio,
            is_recording_disabled: record.facts.is_recording_disabled,
        },
        None => RecorderSwitches { disable_audio: None, is_recording_disabled: None },
    }
}

/// Whether a view shows the recorder: public identity is authoritative, and
/// the local record supplies the rest.
pub open spec fn shows_recorder(
    view: RecorderView,
    nvr: ProtectNvr,
    local: Option<ProtectLocalNvr>,
) -> bool {
    let facts = nvr_facts_of(local);
    &&& view.id == nvr.id
    &&& opt_string(view.guid) == opt_bounded(opt_string(either(nvr.guid, facts.guid)))
    &&& opt_string(view.mac) == opt_bounded(opt_string(either(nvr.mac, facts.mac)))
    &&& opt_string(view.name) == opt_bounded(opt_string(nvr.name))
    &&& (view.display_name@, view.display_name_source@) == display_of(
        nvr.id@,
        opt_string(nvr.name),
        opt_string(facts.name),
        opt_string(facts.market_name),
        opt_string(facts.device_type),
    )
    &&& opt_string(view.product_type) == opt_bounded(
        opt_string(either(nvr.device_type, facts.device_type)),
    )
    &&& opt_string(view.hardware_model) == opt_nonblank(opt_string(facts.market_name))
    &&& opt_string(view.protect_version) == opt_bounded(opt_string(facts.version))
    &&& opt_string(view.console_version) == opt_bounded(opt_string(facts.ucore_version))
    &&& view.database_available == facts.is_db_available
    &&& view.recording_disabled == facts.is_recording_disabled
    &&& view.recording_motion_only == facts.is_recording_motion_only
    &&& view.audio_disabled == facts.disable_audio
    &&& view.recycling == facts.is_recycling
    &&& opt_string(view.corruption_state) == opt_bounded(opt_string(facts.corruption_state))
    &&& opt_string(view.hard_drive_state) == opt_bounded(opt_string(facts.hard_drive_state))
    &&& view.camera_utilization == facts.camera_utilization
    &&& view.max_camera_capacity == facts.max_camera_capacity
    &&& view.last_drive_slow_event_ms == facts.last_drive_slow_event
    &&& view.storage is Some <==> facts.storage_stats is Some
    &&& view.storage matches Some(storage) ==> shows_storage(
        storage,
        facts.storage_stats->Some_0,
    )
    &&& view.enriched == local is Some
}

fn either_or(first: Option<String>, second: &Option<String>) -> (text: Option<String>)
    ensures
        text == either(first, *second),
{
    match first {
        Some(value) => Some(value),
        None => second.clone(),
    }
}

/// The recorder, enriched by its local record where there is one.
pub fn recorder_view(nvr: ProtectNvr, local: Option<&ProtectLocalNvr>) -> (view: RecorderView)
    ensures
        shows_recorder(view, nvr, owned(local)),
{
    let none = absent_nvr_facts();
    let facts: &LocalNvrFacts = match local {
        Some(record) => &record.facts,
        None => &none,
    };
    let shown = display_name(
        &nvr.id,
        &nvr.name,
        &facts.name,
        &facts.market_name,
        &facts.device_type,
    );
    let storage = match &facts.storage_stats {
        Some(stats) => Some(recorder_storage_view(stats)),
        None => None,
    };
    RecorderView {
        id: nvr.id,
        guid: bounded_option(either_or(nvr.guid, &facts.guid)),
        mac: bounded_option(either_or(nvr.mac, &facts.mac)),
        name: bounded_option(nvr.name),
        display_name: shown.name,
        display_name_source: shown.source.to_owned(),
        product_type: bounded_option(either_or(nvr.device_type, &facts.device_type)),
        hardware_model: nonblank_option(&facts.market_name),
        protect_version: bounded_option(facts.version.clone()),
        console_version: bounded_option(facts.ucore_version.clone()),
        database_available: facts.is_db_available,
        recording_disabled: facts.is_recording_disabled,
        recording_motion_only: facts.is_recording_motion_only,
        audio_disabled: facts.disable_audio,
        recycling: facts.is_recycling,
        corruption_state: bounded_option(facts.corruption_state.clone()),
        hard_drive_state: bounded_option(facts.hard_drive_state.clone()),
        camera_utilization: facts.camera_utilization,
        max_camera_capacity: facts.max_camera_capacity,
        last_drive_slow_event_ms: facts.last_drive_slow_event,
        storage,
        enriched: local.is_some(),
    }
}

} // verus!
