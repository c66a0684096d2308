//! What holds of the views of cameras and recorders, and of the inventory
//! they stand in.

use vstd::prelude::*;
use vstd::string::*;

use crate::cameras::{
    camera_classes, camera_connection, camera_features, camera_names, camera_view, display_name,
    effective_switch, local_enrichment_word, nonblank_option, recording_mode_configured,
    CameraConnectionView, CameraFeaturesView, CameraView, DisplayName, LocalCameraFacts,
    LocalEnrichmentState, ProtectCamera, ProtectLocalCamera, RecorderSwitches,
};
use crate::display::bounded;
use crate::error::{ErrorKind, ToolError};
use crate::inventory::{
    camera_inventory, join_state, reject_conflicting_camera_identity, reject_duplicate_camera_ids,
    reject_duplicate_local_camera_ids, require_integration, CameraInventory, LocalReading,
};
use crate::order::{law_sorting_orders_and_keeps_the_rows, stable_sort};
use crate::protect_laws::{lemma_same_letters, same_letters};
use crate::recorder::{
    conflicting_optional_identity, recorder_storage_view, recorder_switches, recorder_view,
    reject_conflicting_recorder_identity, ProtectLocalNvr, ProtectNvr, ProtectStorageStats,
    RecorderStorageView, RecorderView,
};
use crate::text::{opt_string, precedes, texts};
use crate::text_laws::is_blank;

verus! {

/// Whether a shown text stands for a given one: absent where that is, and
/// otherwise the text itself, or its first 255 characters and an ellipsis
/// where it has more than 256.
pub open spec fn stands_for(shown: Option<String>, given: Option<String>) -> bool {
    &&& shown is Some <==> given is Some
    &&& given is Some && given->Some_0@.len() <= 256 ==> shown->Some_0@ == given->Some_0@
    &&& given is Some && given->Some_0@.len() > 256 ==> shown->Some_0@ == given->Some_0@.take(
        255,
    ).push('\u{2026}')
}

/// Whether a shown text stands for one of two given ones: the first where it
/// is there, else the second.
pub open spec fn stands_for_either(
    shown: Option<String>,
    first: Option<String>,
    second: Option<String>,
) -> bool {
    if first is Some {
        stands_for(shown, first)
    } else {
        stands_for(shown, second)
    }
}

/// Whether a text is there and is more than white space.
pub open spec fn is_filled(text: Option<String>) -> bool {
    text is Some && !is_blank(text->Some_0@)
}

// ---------------------------------------------------------------------------
// Names
// ---------------------------------------------------------------------------

/// A camera is displayed by its public name, else its local name, else its
/// market name, else its product type, each where it is more than white
/// space, and else by its id; the source says which.
pub proof fn law_displayed_names_fall_back_in_order(
    id: &String,
    public_name: &Option<String>,
    local_name: &Option<String>,
    market_name: &Option<String>,
    product_type: &Option<String>,
    shown: DisplayName,
)
    requires
        call_ensures(
            display_name,
            (id, public_name, local_name, market_name, product_type),
            shown,
        ),
        public_name is Some ==> public_name->Some_0@.len() <= 256,
    ensures
        is_filled(*public_name) ==> shown.source@ == "publicName"@ && stands_for(
            Some(shown.name),
            *public_name,
        ),
        !is_filled(*public_name) && is_filled(*local_name) ==> shown.source@ == "localName"@
            && stands_for(Some(shown.name), *local_name),
        !is_filled(*public_name) && !is_filled(*local_name) && is_filled(*market_name)
            ==> shown.source@ == "localMarketName"@ && stands_for(Some(shown.name), *market_name),
        !is_filled(*public_name) && !is_filled(*local_name) && !is_filled(*market_name)
            && is_filled(*product_type) ==> shown.source@ == "localProductType"@ && stands_for(
            Some(shown.name),
            *product_type,
        ),
        !is_filled(*public_name) && !is_filled(*local_name) && !is_filled(*market_name)
            && !is_filled(*product_type) ==> shown.source@ == "id"@ && stands_for(
            Some(shown.name),
            Some(*id),
        ),
{
    if let Some(text) = public_name {
        crate::text_laws::law_trimming_takes_white_space_off_the_ends(text@);
    }
    if let Some(text) = local_name {
        crate::text_laws::law_trimming_takes_white_space_off_the_ends(text@);
    }
    if let Some(text) = market_name {
        crate::text_laws::law_trimming_takes_white_space_off_the_ends(text@);
    }
    if let Some(text) = product_type {
        crate::text_laws::law_trimming_takes_white_space_off_the_ends(text@);
    }
}

// ---------------------------------------------------------------------------
// Switches
// ---------------------------------------------------------------------------

/// A mode that always records or records detections is configured to record,
/// one that never does is not, whatever the case, and of any other it is not
/// known.
pub proof fn law_recording_modes(mode: &str, configured: Option<bool>)
    requires
        call_ensures(recording_mode_configured, (mode,), configured),
    ensures
        configured == Some(true) <==> same_letters(mode@, "always"@) || same_letters(
            mode@,
            "detections"@,
        ),
        configured == Some(false) <==> same_letters(mode@, "never"@),
{
    reveal_strlit("always");
    reveal_strlit("detections");
    reveal_strlit("never");
    assert("always"@.len() == 6 && "detections"@.len() == 10 && "never"@.len() == 5);
    lemma_same_letters(mode@, "always"@);
    lemma_same_letters(mode@, "detections"@);
    lemma_same_letters(mode@, "never"@);
    if let Some(flag) = configured {
        assert(configured == Some(flag));
    }
}

/// A switch is in effect where it is on and nothing turns it off for all, is
/// not where it is off or turned off for all, and is otherwise not known.
pub proof fn law_switches_in_effect(
    enabled: Option<bool>,
    globally_disabled: Option<bool>,
    result: Option<bool>,
)
    requires
        call_ensures(effective_switch, (enabled, globally_disabled), result),
    ensures
        result == Some(true) <==> enabled == Some(true) && globally_disabled == Some(false),
        result == Some(false) <==> enabled == Some(false) || globally_disabled == Some(true),
{
}

/// A camera with a local record is enriched; one without says why it is not.
pub proof fn law_enrichment_is_stated(
    local: Option<&ProtectLocalCamera>,
    state: LocalEnrichmentState,
    word: &'static str,
)
    requires
        call_ensures(local_enrichment_word, (local, state), word),
    ensures
        local is Some ==> word@ == "available"@,
        local is None && (state == LocalEnrichmentState::Available || state
            == LocalEnrichmentState::Partial) ==> word@ == "noMatchingRecord"@,
        local is None && state == LocalEnrichmentState::NotConfigured ==> word@
            == "notConfigured"@,
        local is None && state == LocalEnrichmentState::Unavailable ==> word@ == "unavailable"@,
{
}

// ---------------------------------------------------------------------------
// Views of cameras
// ---------------------------------------------------------------------------

/// A camera without a local record is shown by what the public inventory
/// reports of it and nothing else.
pub proof fn law_cameras_without_a_record_show_public_facts_alone(
    camera: ProtectCamera,
    switches: RecorderSwitches,
    state: LocalEnrichmentState,
    view: CameraView,
)
    requires
        call_ensures(
            camera_view,
            (camera, Option::<&ProtectLocalCamera>::None, switches, state),
            view,
        ),
    ensures
        view.id == camera.id,
        stands_for(view.guid, camera.guid),
        stands_for(view.mac, camera.mac),
        stands_for(view.name, camera.name),
        stands_for(view.product_type, camera.device_type),
        stands_for(Some(view.state), Some(camera.state)),
        view.hardware_model is None,
        view.classes is None,
        view.recording is None,
        view.recording_configured is None,
        view.recording_globally_disabled == switches.is_recording_disabled,
        view.has_recordings is None,
        view.poor_network is None,
        view.firmware_version is None,
        view.latest_firmware_version is None,
        view.hardware_revision is None,
        view.connected_since_ms is None,
        view.last_seen_ms is None,
        view.last_disconnect_ms is None,
        view.uptime_ms is None,
        view.updating is None,
        view.rebooting is None,
        view.restoring is None,
        view.downloading_firmware is None,
        view.attempting_to_connect is None,
        view.video_mode is None,
        view.recording_mode is None,
        view.features is None,
        view.connection is None,
        view.audio is Some <==> camera.is_mic_enabled is Some || camera.mic_volume is Some
            || switches.disable_audio is Some,
        view.audio matches Some(audio) ==> {
            &&& audio.supported is None
            &&& audio.enabled == camera.is_mic_enabled
            &&& audio.volume == camera.mic_volume
            &&& audio.globally_disabled == switches.disable_audio
        },
{
    let facts = crate::cameras::no_facts();
    let reports = crate::cameras::class_reports(facts);
    assert forall|i: int| 0 <= i < reports.len() implies (#[trigger] reports[i]).0 is None by {}
}

/// A camera with a local record is shown by what that record reports of it;
/// what the public inventory reports too is taken from there first.
pub proof fn law_camera_view_shows_the_camera(
    camera: ProtectCamera,
    local: &ProtectLocalCamera,
    switches: RecorderSwitches,
    state: LocalEnrichmentState,
    view: CameraView,
)
    requires
        call_ensures(camera_view, (camera, Some(local), switches, state), view),
    ensures
        view.id == camera.id,
        stands_for_either(view.guid, camera.guid, local.facts.guid),
        stands_for_either(view.mac, camera.mac, local.facts.mac),
        stands_for(view.name, camera.name),
        stands_for_either(view.product_type, camera.device_type, local.facts.device_type),
        is_filled(local.facts.market_name) ==> stands_for(
            view.hardware_model,
            local.facts.market_name,
        ),
        !is_filled(local.facts.market_name) ==> view.hardware_model is None,
        stands_for(Some(view.state), Some(camera.state)),
        view.recording == local.facts.is_recording,
        view.recording_globally_disabled == switches.is_recording_disabled,
        view.has_recordings == local.facts.has_recordings,
        view.poor_network == local.facts.is_poor_network,
        stands_for(view.firmware_version, local.facts.firmware_version),
        stands_for(view.latest_firmware_version, local.facts.latest_firmware_version),
        stands_for(view.hardware_revision, local.facts.hardware_revision),
        view.connected_since_ms == local.facts.connected_since,
        view.last_seen_ms == local.facts.last_seen,
        view.last_disconnect_ms == local.facts.last_disconnect,
        view.uptime_ms == local.facts.uptime,
        view.updating == local.facts.is_updating,
        view.rebooting == local.facts.is_rebooting,
        view.restoring == local.facts.is_restoring,
        view.downloading_firmware == local.facts.is_downloading_fw,
        view.attempting_to_connect == local.facts.is_attempting_to_connect,
        stands_for(view.video_mode, local.facts.video_mode),
        stands_for(view.recording_mode, local.facts.recording_mode),
        view.local_enrichment@ == "available"@,
{
    if let Some(text) = local.facts.market_name {
        crate::text_laws::law_trimming_takes_white_space_off_the_ends(text@);
    }
}

/// The recording switches of a view follow from its mode and the recorder's
/// switch.
pub proof fn law_recording_follows_from_mode_and_recorder(
    camera: ProtectCamera,
    local: &ProtectLocalCamera,
    switches: RecorderSwitches,
    state: LocalEnrichmentState,
    view: CameraView,
)
    requires
        call_ensures(camera_view, (camera, Some(local), switches, state), view),
        local.facts.recording_mode is Some,
        local.facts.recording_mode->Some_0@.len() <= 256,
    ensures
        ({
            let mode = local.facts.recording_mode->Some_0@;
            let on = same_letters(mode, "always"@) || same_letters(mode, "detections"@);
            let off = same_letters(mode, "never"@);
            &&& view.recording_configured == Some(true) <==> on
            &&& view.recording_configured == Some(false) <==> off
            &&& view.recording_enabled == Some(true) <==> on && switches.is_recording_disabled
                == Some(false)
            &&& view.recording_enabled == Some(false) <==> off || switches.is_recording_disabled
                == Some(true)
        }),
{
    let mode = local.facts.recording_mode->Some_0@;
    reveal_strlit("always");
    reveal_strlit("detections");
    reveal_strlit("never");
    assert("always"@.len() == 6 && "detections"@.len() == 10 && "never"@.len() == 5);
    lemma_same_letters(mode, "always"@);
    lemma_same_letters(mode, "detections"@);
    lemma_same_letters(mode, "never"@);
}

/// The audio of a view is shown where anything of it is reported: supported
/// where the camera has a microphone, enabled and loud as the public inventory
/// or else the local record says, and in effect as the switches say.
pub proof fn law_audio_is_shown_where_reported(
    camera: ProtectCamera,
    local: &ProtectLocalCamera,
    switches: RecorderSwitches,
    state: LocalEnrichmentState,
    view: CameraView,
)
    requires
        call_ensures(camera_view, (camera, Some(local), switches, state), view),
    ensures
        ({
            let supported = if local.facts.feature_flags is Some {
                local.facts.feature_flags->Some_0.flags.has_mic
            } else {
                None
            };
            let enabled = if camera.is_mic_enabled is Some {
                camera.is_mic_enabled
            } else {
                local.facts.is_mic_enabled
            };
            let volume = if camera.mic_volume is Some {
                camera.mic_volume
            } else {
                local.facts.mic_volume
            };
            &&& view.audio is Some <==> supported is Some || enabled is Some || volume is Some
                || switches.disable_audio is Some
            &&& view.audio matches Some(audio) ==> {
                &&& audio.supported == supported
                &&& audio.enabled == enabled
                &&& audio.volume == volume
                &&& audio.globally_disabled == switches.disable_audio
                &&& audio.effectively_enabled == Some(true) <==> enabled == Some(true)
                    && switches.disable_audio == Some(false)
                &&& audio.effectively_enabled == Some(false) <==> enabled == Some(false)
                    || switches.disable_audio == Some(true)
            }
        }),
{
}

/// The parts of a view are what is shown of its record alone.
pub proof fn law_camera_view_holds_its_parts(
    camera: ProtectCamera,
    local: &ProtectLocalCamera,
    switches: RecorderSwitches,
    state: LocalEnrichmentState,
    view: CameraView,
    features: Option<CameraFeaturesView>,
    classes: Option<Vec<String>>,
)
    requires
        call_ensures(camera_view, (camera, Some(local), switches, state), view),
        call_ensures(camera_features, (&local.facts,), features),
        call_ensures(camera_classes, (&local.facts,), classes),
    ensures
        view.features is Some <==> features is Some,
        features matches Some(alone) ==> {
            let shown = view.features->Some_0;
            &&& shown.doorbell == alone.doorbell
            &&& shown.speaker == alone.speaker
            &&& shown.wifi == alone.wifi
            &&& shown.hdr == alone.hdr
            &&& shown.package_camera == alone.package_camera
            &&& shown.smart_detect == alone.smart_detect
            &&& shown.optical_zoom == alone.optical_zoom
            &&& shown.status_led == alone.status_led
            &&& shown.automatic_ir_only == alone.automatic_ir_only
            &&& shown.ptz == alone.ptz
            &&& shown.two_k == alone.two_k
            &&& shown.four_k == alone.four_k
            &&& shown.third_party == alone.third_party
            &&& shown.ai_paired == alone.ai_paired
            &&& texts(shown.smart_detect_types@) == texts(alone.smart_detect_types@)
            &&& shown.smart_detect_types_truncated == alone.smart_detect_types_truncated
            &&& texts(shown.smart_detect_audio_types@) == texts(alone.smart_detect_audio_types@)
            &&& shown.smart_detect_audio_types_truncated
                == alone.smart_detect_audio_types_truncated
        },
        view.classes is Some <==> classes is Some,
        classes matches Some(alone) ==> texts(view.classes->Some_0@) == texts(alone@),
{
}

/// The features of a camera are shown each under its own name, with its first
/// 32 labels of each sort, saying where there are more.
pub proof fn law_features_are_shown_as_reported(
    facts: &LocalCameraFacts,
    shown: Option<CameraFeaturesView>,
)
    requires
        call_ensures(camera_features, (facts,), shown),
        facts.feature_flags is Some,
    ensures
        ({
            let given = facts.feature_flags->Some_0;
            let flags = given.flags;
            &&& shown is None ==> {
                &&& flags.is_doorbell is None && flags.has_speaker is None && flags.has_wifi is None
                &&& flags.has_hdr is None && flags.has_package_camera is None
                &&& flags.has_smart_detect is None && flags.can_optical_zoom is None
                &&& flags.has_led_status is None && flags.has_auto_icr_only is None
                &&& flags.is_ptz is None && facts.is_2k is None && facts.is_4k is None
                &&& facts.is_third_party_camera is None && facts.is_paired_with_ai_port is None
                &&& given.smart_detect_types@.len() == 0
                &&& given.smart_detect_audio_types@.len() == 0
            }
            &&& shown matches Some(view) ==> {
                &&& view.doorbell == flags.is_doorbell
                &&& view.speaker == flags.has_speaker
                &&& view.wifi == flags.has_wifi
                &&& view.hdr == flags.has_hdr
                &&& view.package_camera == flags.has_package_camera
                &&& view.smart_detect == flags.has_smart_detect
                &&& view.optical_zoom == flags.can_optical_zoom
                &&& view.status_led == flags.has_led_status
                &&& view.automatic_ir_only == flags.has_auto_icr_only
                &&& view.ptz == flags.is_ptz
                &&& view.two_k == facts.is_2k
                &&& view.four_k == facts.is_4k
                &&& view.third_party == facts.is_third_party_camera
                &&& view.ai_paired == facts.is_paired_with_ai_port
                &&& shows_labels(view.smart_detect_types@, given.smart_detect_types@)
                &&& shows_labels(view.smart_detect_audio_types@, given.smart_detect_audio_types@)
                &&& view.smart_detect_types_truncated == if given.smart_detect_types@.len() > 32 {
                    Some(true)
                } else {
                    None
                }
                &&& view.smart_detect_audio_types_truncated
                    == if given.smart_detect_audio_types@.len() > 32 {
                    Some(true)
                } else {
                    None
                }
            }
        }),
{
    let given = facts.feature_flags->Some_0;
    assert(crate::cameras::video_labels(*facts).len() == given.smart_detect_types@.len());
    assert(crate::cameras::audio_labels(*facts).len() == given.smart_detect_audio_types@.len());
    if let Some(view) = shown {
        lemma_labels(view.smart_detect_types@, given.smart_detect_types@);
        lemma_labels(view.smart_detect_audio_types@, given.smart_detect_audio_types@);
    }
}

/// Whether the first 32 labels are shown in order, each bounded.
pub open spec fn shows_labels(shown: Seq<String>, given: Seq<String>) -> bool {
    &&& shown.len() == if given.len() < 32 {
        given.len()
    } else {
        32
    }
    &&& forall|i: int|
        0 <= i < shown.len() ==> stands_for(Some(#[trigger] shown[i]), Some(given[i]))
}

proof fn lemma_labels(shown: Seq<String>, given: Seq<String>)
    requires
        texts(shown) == crate::cameras::shown_labels(texts(given)),
    ensures
        shows_labels(shown, given),
{
    let a = texts(shown);
    let b = texts(given);
    assert(a.len() == shown.len() && b.len() == given.len());
    assert forall|i: int| 0 <= i < shown.len() implies stands_for(
        Some(#[trigger] shown[i]),
        Some(given[i]),
    ) by {
        assert(a[i] == bounded(b[i]));
    }
}

/// The names of the classes.
pub open spec fn class_names() -> Seq<Seq<char>> {
    seq![
        "doorbell"@,
        "ptz"@,
        "third-party"@,
        "package-camera"@,
        "ai-paired"@,
        "speaker"@,
        "microphone"@,
        "2k"@,
        "4k"@,
        "wifi"@,
        "smart-detect"@,
        "optical-zoom"@,
    ]
}

/// A camera has a class exactly where its record reports it so, under the name
/// of that class; the classes are known where any of them is reported.
pub proof fn law_classes_are_those_reported(
    facts: &LocalCameraFacts,
    classes: Option<Vec<String>>,
    i: int,
)
    requires
        call_ensures(camera_classes, (facts,), classes),
        facts.feature_flags is Some,
        0 <= i < 12,
    ensures
        ({
            let flags = facts.feature_flags->Some_0.flags;
            let report = seq![
                flags.is_doorbell,
                flags.is_ptz,
                facts.is_third_party_camera,
                flags.has_package_camera,
                facts.is_paired_with_ai_port,
                flags.has_speaker,
                flags.has_mic,
                facts.is_2k,
                facts.is_4k,
                flags.has_wifi,
                flags.has_smart_detect,
                flags.can_optical_zoom,
            ][i];
            let name = class_names()[i];
            &&& report is Some ==> classes is Some
            &&& classes is Some ==> (texts(classes->Some_0@).contains(name) <==> report == Some(
                true,
            ))
        }),
{
    let reports = crate::cameras::class_reports(*facts);
    assert(reports.len() == 12);
    if reports[i].0 is Some {
        assert(crate::cameras::classes_of(*facts) is Some);
    }
    if classes is Some {
        let list = texts(classes->Some_0@);
        lemma_present(reports, reports[i].1);
        lemma_class_names_differ();
        if reports[i].0 == Some(true) {
            assert(list.contains(reports[i].1));
        }
        if list.contains(reports[i].1) {
            let k = choose|k: int|
                0 <= k < reports.len() && (#[trigger] reports[k]).0 == Some(true) && reports[k].1
                    == reports[i].1;
            assert(reports[k].1 == class_names()[k] && reports[i].1 == class_names()[i]);
            assert(k == i);
        }
    }
}

proof fn lemma_present(reports: Seq<(Option<bool>, Seq<char>)>, name: Seq<char>)
    ensures
        reports.filter_map(
            |report: (Option<bool>, Seq<char>)| crate::cameras::present_class(report),
        ).contains(name) <==> exists|k: int|
            0 <= k < reports.len() && (#[trigger] reports[k]).0 == Some(true) && reports[k].1
                == name,
    decreases reports.len(),
{
    let pick = |report: (Option<bool>, Seq<char>)| crate::cameras::present_class(report);
    let all = reports.filter_map(pick);
    if reports.len() > 0 {
        let rest = reports.drop_last();
        let prior = rest.filter_map(pick);
        let last = reports.last();
        lemma_present(rest, name);
        assert forall|k: int| 0 <= k < rest.len() implies #[trigger] rest[k] == reports[k] by {}
        if last.0 == Some(true) {
            assert(all =~= prior.push(last.1));
        } else {
            assert(all =~= prior);
        }
        if prior.contains(name) {
            let k = choose|k: int| 0 <= k < prior.len() && prior[k] == name;
            assert(all[k] == name);
            let m = choose|m: int|
                0 <= m < rest.len() && (#[trigger] rest[m]).0 == Some(true) && rest[m].1 == name;
            assert(reports[m].1 == name);
        }
        if last.0 == Some(true) && last.1 == name {
            assert(all[prior.len() as int] == name);
            assert(reports[reports.len() - 1].1 == name);
        }
        if all.contains(name) && !prior.contains(name) {
            let k = choose|k: int| 0 <= k < all.len() && all[k] == name;
            if k < prior.len() {
                assert(prior[k] == name);
            }
        }
        if exists|k: int|
            0 <= k < reports.len() && (#[trigger] reports[k]).0 == Some(true) && reports[k].1
                == name {
            let k = choose|k: int|
                0 <= k < reports.len() && (#[trigger] reports[k]).0 == Some(true) && reports[k].1
                    == name;
            if k < rest.len() {
                assert(rest[k].1 == name);
            }
        }
    }
}

proof fn lemma_class_names_differ()
    ensures
        ({
            let names = class_names();
            forall|i: int, k: int|
                0 <= i < 12 && 0 <= k < 12 && #[trigger] names[i] == #[trigger] names[k] ==> i == k
        }),
{
    reveal_strlit("doorbell");
    reveal_strlit("ptz");
    reveal_strlit("third-party");
    reveal_strlit("package-camera");
    reveal_strlit("ai-paired");
    reveal_strlit("speaker");
    reveal_strlit("microphone");
    reveal_strlit("2k");
    reveal_strlit("4k");
    reveal_strlit("wifi");
    reveal_strlit("smart-detect");
    reveal_strlit("optical-zoom");
    assert("doorbell"@.len() == 8 && "ptz"@.len() == 3 && "third-party"@.len() == 11);
    assert("package-camera"@.len() == 14 && "ai-paired"@.len() == 9 && "speaker"@.len() == 7);
    assert("microphone"@.len() == 10 && "2k"@.len() == 2 && "4k"@.len() == 2);
    assert("wifi"@.len() == 4 && "smart-detect"@.len() == 12 && "optical-zoom"@.len() == 12);
    assert("2k"@[0] == '2' && "4k"@[0] == '4');
    assert("smart-detect"@[0] == 's' && "optical-zoom"@[0] == 'o');
}

/// A wired connection is shown by its rate alone, a wireless one by what it
/// reports, and a wired one is the one shown where both are reported.
pub proof fn law_connections_are_shown_as_reported(
    facts: &LocalCameraFacts,
    view: Option<CameraConnectionView>,
)
    requires
        call_ensures(camera_connection, (facts,), view),
    ensures
        view is Some <==> facts.wired_connection_state is Some
            || facts.wifi_connection_state is Some,
        facts.wired_connection_state matches Some(wired) ==> {
            let shown = view->Some_0;
            &&& shown.kind@ == "wired"@
            &&& shown.physical_rate == wired.phy_rate
            &&& shown.transmit_rate is None && shown.signal_quality is None
            &&& shown.signal_strength_dbm is None && shown.channel is None
            &&& shown.frequency_mhz is None && shown.experience is None
            &&& shown.connectivity is None
        },
        facts.wired_connection_state is None && facts.wifi_connection_state is Some ==> {
            let shown = view->Some_0;
            let wifi = facts.wifi_connection_state->Some_0;
            &&& shown.kind@ == "wifi"@
            &&& shown.physical_rate == wifi.phy_rate
            &&& shown.transmit_rate == wifi.tx_rate
            &&& shown.signal_quality == wifi.signal_quality
            &&& shown.signal_strength_dbm == wifi.signal_strength
            &&& shown.channel == wifi.channel
            &&& shown.frequency_mhz == wifi.frequency
            &&& stands_for(shown.experience, wifi.experience)
            &&& stands_for(shown.connectivity, wifi.connectivity)
        },
{
}

// ---------------------------------------------------------------------------
// Recorders
// ---------------------------------------------------------------------------

/// Two reports of an identity conflict where both are there and differ in
/// more than the case of ASCII letters.
pub proof fn law_identities_conflict_where_they_differ(
    public: &Option<String>,
    local: &Option<String>,
    conflict: bool,
)
    requires
        call_ensures(conflicting_optional_identity, (public, local), conflict),
    ensures
        conflict <==> public is Some && local is Some && !same_letters(
            public->Some_0@,
            local->Some_0@,
        ),
{
    if public is Some && local is Some {
        lemma_same_letters(public->Some_0@, local->Some_0@);
    }
}

/// A public and a local recorder are taken for one exactly where they have the
/// same id and neither their guids nor their addresses conflict.
pub proof fn law_recorders_are_one_where_nothing_conflicts(
    public: &ProtectNvr,
    local: &ProtectLocalNvr,
    result: Result<(), ToolError>,
)
    requires
        call_ensures(reject_conflicting_recorder_identity, (public, local), result),
    ensures
        result is Ok <==> {
            &&& public.id@ == local.id@
            &&& public.guid is Some && local.facts.guid is Some ==> same_letters(
                public.guid->Some_0@,
                local.facts.guid->Some_0@,
            )
            &&& public.mac is Some && local.facts.mac is Some ==> same_letters(
                public.mac->Some_0@,
                local.facts.mac->Some_0@,
            )
        },
        result matches Err(error) ==> error.kind == ErrorKind::Internal,
{
    if public.guid is Some && local.facts.guid is Some {
        lemma_same_letters(public.guid->Some_0@, local.facts.guid->Some_0@);
    }
    if public.mac is Some && local.facts.mac is Some {
        lemma_same_letters(public.mac->Some_0@, local.facts.mac->Some_0@);
    }
}

/// The switches of a recorder are those its local record reports, and none
/// are known without one.
pub proof fn law_recorder_switches_are_those_reported(
    local: Option<&ProtectLocalNvr>,
    switches: RecorderSwitches,
)
    requires
        call_ensures(recorder_switches, (local,), switches),
    ensures
        local is None ==> switches.disable_audio is None && switches.is_recording_disabled is None,
        local matches Some(record) ==> switches.disable_audio == record.facts.disable_audio
            && switches.is_recording_disabled == record.facts.is_recording_disabled,
{
}

/// The view of a recorder with a local record shows what that record reports,
/// each under its own name; what the public inventory reports too is taken
/// from there first.
pub proof fn law_recorder_view_shows_the_recorder(
    nvr: ProtectNvr,
    local: &ProtectLocalNvr,
    view: RecorderView,
)
    requires
        call_ensures(recorder_view, (nvr, Some(local)), view),
    ensures
        view.id == nvr.id,
        stands_for_either(view.guid, nvr.guid, local.facts.guid),
        stands_for_either(view.mac, nvr.mac, local.facts.mac),
        stands_for(view.name, nvr.name),
        stands_for_either(view.product_type, nvr.device_type, local.facts.device_type),
        is_filled(local.facts.market_name) ==> stands_for(
            view.hardware_model,
            local.facts.market_name,
        ),
        !is_filled(local.facts.market_name) ==> view.hardware_model is None,
        stands_for(view.protect_version, local.facts.version),
        stands_for(view.console_version, local.facts.ucore_version),
        view.database_available == local.facts.is_db_available,
        view.recording_disabled == local.facts.is_recording_disabled,
        view.recording_motion_only == local.facts.is_recording_motion_only,
        view.audio_disabled == local.facts.disable_audio,
        view.recycling == local.facts.is_recycling,
        stands_for(view.corruption_state, local.facts.corruption_state),
        stands_for(view.hard_drive_state, local.facts.hard_drive_state),
        view.camera_utilization == local.facts.camera_utilization,
        view.max_camera_capacity == local.facts.max_camera_capacity,
        view.last_drive_slow_event_ms == local.facts.last_drive_slow_event,
        view.storage is Some <==> local.facts.storage_stats is Some,
        view.enriched,
{
    if let Some(text) = local.facts.market_name {
        crate::text_laws::law_trimming_takes_white_space_off_the_ends(text@);
    }
}

/// A recorder without a local record is shown by what the public inventory
/// reports of it and nothing else.
pub proof fn law_recorders_without_a_record_show_public_facts_alone(
    nvr: ProtectNvr,
    view: RecorderView,
)
    requires
        call_ensures(recorder_view, (nvr, Option::<&ProtectLocalNvr>::None), view),
    ensures
        view.id == nvr.id,
        stands_for(view.guid, nvr.guid),
        stands_for(view.mac, nvr.mac),
        stands_for(view.name, nvr.name),
        stands_for(view.product_type, nvr.device_type),
        view.hardware_model is None,
        view.protect_version is None,
        view.console_version is None,
        view.database_available is None,
        view.recording_disabled is None,
        view.recording_motion_only is None,
        view.audio_disabled is None,
        view.recycling is None,
        view.corruption_state is None,
        view.hard_drive_state is None,
        view.camera_utilization is None,
        view.max_camera_capacity is None,
        view.last_drive_slow_event_ms is None,
        view.storage is None,
        !view.enriched,
{
}

/// The storage of a recorder is shown as it is reported, each measure under
/// its own name and each distribution up to its ceiling.
pub proof fn law_storage_is_shown_as_reported(
    storage: &ProtectStorageStats,
    view: RecorderStorageView,
)
    requires
        call_ensures(recorder_storage_view, (storage,), view),
    ensures
        view.capacity_ms == storage.capacity,
        view.remaining_capacity_ms == storage.remaining_capacity,
        view.utilization == storage.utilization,
        view.recording_space is Some <==> storage.recording_space is Some,
        storage.recording_space matches Some(space) ==> {
            let shown = view.recording_space->Some_0;
            &&& shown.total_bytes == space.total
            &&& shown.used_bytes == space.used
            &&& shown.available_bytes == space.available
        },
        view.recording_type_distribution is Some <==> storage.recording_types is Some,
        view.resolution_distribution is Some <==> storage.resolutions is Some,
        storage.recording_types matches Some(rows) ==> {
            let shown = view.recording_type_distribution->Some_0@;
            &&& shown.len() <= rows@.len()
            &&& view.recording_type_distribution_truncated is Some <==> shown.len() < rows@.len()
            &&& forall|i: int|
                #![trigger shown[i]]
                0 <= i < shown.len() ==> stands_for(shown[i].category, rows@[i].category)
                    && shown[i].size_bytes == rows@[i].size && shown[i].percentage
                    == rows@[i].percentage
        },
        storage.resolutions matches Some(rows) ==> {
            let shown = view.resolution_distribution->Some_0@;
            &&& shown.len() <= rows@.len()
            &&& view.resolution_distribution_truncated is Some <==> shown.len() < rows@.len()
            &&& forall|i: int|
                #![trigger shown[i]]
                0 <= i < shown.len() ==> stands_for(shown[i].category, rows@[i].category)
                    && shown[i].size_bytes == rows@[i].size && shown[i].percentage
                    == rows@[i].percentage
        },
{
    if let Some(rows) = storage.recording_types {
        let shown = view.recording_type_distribution->Some_0@;
        let kept = crate::paging::page(
            rows@,
            0,
            crate::recorder::STORAGE_DISTRIBUTION_CEILING as int,
        );
        assert forall|i: int| #![trigger shown[i]] 0 <= i < shown.len() implies
            crate::recorder::shows_distribution_row(shown[i], rows@[i]) by {
            assert(kept[i] == rows@[i]);
        }
    }
    if let Some(rows) = storage.resolutions {
        let shown = view.resolution_distribution->Some_0@;
        let kept = crate::paging::page(
            rows@,
            0,
            crate::recorder::STORAGE_DISTRIBUTION_CEILING as int,
        );
        assert forall|i: int| #![trigger shown[i]] 0 <= i < shown.len() implies
            crate::recorder::shows_distribution_row(shown[i], rows@[i]) by {
            assert(kept[i] == rows@[i]);
        }
    }
}

// ---------------------------------------------------------------------------
// Inventory
// ---------------------------------------------------------------------------

/// A console without the integration API is refused, and any other gives its
/// version.
pub proof fn law_consoles_without_the_api_are_refused(
    available: Option<String>,
    result: Result<String, ToolError>,
)
    requires
        call_ensures(require_integration, (available,), result),
    ensures
        result is Ok <==> available is Some,
        result matches Ok(version) ==> Some(version) == available,
        result matches Err(error) ==> error.kind == ErrorKind::InvalidParams,
{
}

/// The local cameras of a reading.
pub open spec fn local_cameras(reading: LocalReading) -> Seq<ProtectLocalCamera> {
    match reading {
        LocalReading::Full(bootstrap) => bootstrap.cameras@,
        LocalReading::Cameras(cameras) => cameras@,
        LocalReading::NotConfigured => Seq::empty(),
        LocalReading::Unavailable => Seq::empty(),
    }
}

/// The public and the local cameras are joined exactly where no id stands
/// twice on either side and no two records of one id conflict. The join is
/// complete where there is a local record for every public camera and no
/// other.
pub proof fn law_inventories_join_where_nothing_conflicts(
    public: &Vec<ProtectCamera>,
    reading: &LocalReading,
    result: Result<LocalEnrichmentState, ToolError>,
)
    requires
        call_ensures(join_state, (public, reading), result),
    ensures
        ({
            let locals = local_cameras(*reading);
            &&& result is Ok <==> {
                &&& forall|i: int, j: int|
                    0 <= i < j < public@.len() ==> (#[trigger] public@[i]).id@ != (
                    #[trigger] public@[j]).id@
                &&& forall|i: int, j: int|
                    0 <= i < j < locals.len() ==> (#[trigger] locals[i]).id@ != (
                    #[trigger] locals[j]).id@
                &&& forall|i: int, j: int|
                    0 <= i < public@.len() && 0 <= j < locals.len() && (#[trigger] public@[i]).id@
                        == (#[trigger] locals[j]).id@ ==> agree(public@[i], locals[j])
            }
            &&& result is Err ==> result->Err_0.kind == ErrorKind::Internal
            &&& result is Ok ==> {
                let state = result->Ok_0;
                &&& state == LocalEnrichmentState::NotConfigured <==> reading is NotConfigured
                &&& state == LocalEnrichmentState::Unavailable <==> reading is Unavailable
                &&& state == LocalEnrichmentState::Available <==> {
                    &&& reading is Full || reading is Cameras
                    &&& public@.len() == locals.len()
                    &&& forall|i: int|
                        0 <= i < public@.len() ==> has_record(locals, (#[trigger] public@[i]).id@)
                }
            }
        }),
{
    let locals = local_cameras(*reading);
    assert(locals == crate::inventory::locals_of(*reading));
    assert forall|i: int| 0 <= i < public@.len() implies {
        &&& crate::inventory::record_for(locals, (#[trigger] public@[i]).id@) is Some
            <==> has_record(locals, public@[i].id@)
        &&& crate::inventory::record_for(locals, public@[i].id@) matches Some(record) ==> exists|
            k: int,
        |
            0 <= k < locals.len() && #[trigger] locals[k] == record && record.id@ == public@[i].id@
    } by {
        lemma_record(locals, public@[i].id@);
    }
    assert forall|i: int, j: int|
        0 <= i < public@.len() && 0 <= j < locals.len() && (#[trigger] public@[i]).id@ == (
        #[trigger] locals[j]).id@ implies (agree(public@[i], locals[j])
        == !crate::inventory::joined_conflict(public@[i], Some(locals[j]))) by {
        lemma_agree(public@[i], locals[j]);
    }
    if crate::inventory::public_distinct(public@) && crate::inventory::local_distinct(locals) {
        assert forall|i: int, j: int|
            0 <= i < public@.len() && 0 <= j < locals.len() && (#[trigger] public@[i]).id@ == (
            #[trigger] locals[j]).id@ implies crate::inventory::record_for(locals, public@[i].id@)
            == Some(locals[j]) by {
            assert(has_record(locals, public@[i].id@));
            let record = crate::inventory::record_for(locals, public@[i].id@)->Some_0;
            let k = choose|k: int|
                0 <= k < locals.len() && #[trigger] locals[k] == record && record.id@
                    == public@[i].id@;
            if k < j {
                assert(locals[k].id@ != locals[j].id@);
            } else if j < k {
                assert(locals[j].id@ != locals[k].id@);
            }
        }
        if crate::inventory::cameras_conflict(public@, locals) {
            let i = choose|i: int|
                0 <= i < public@.len() && crate::inventory::joined_conflict(
                    #[trigger] public@[i],
                    crate::inventory::record_for(locals, public@[i].id@),
                );
            let record = crate::inventory::record_for(locals, public@[i].id@)->Some_0;
            let k = choose|k: int|
                0 <= k < locals.len() && #[trigger] locals[k] == record && record.id@
                    == public@[i].id@;
            assert(!agree(public@[i], locals[k]));
        } else {
            assert forall|i: int, j: int|
                0 <= i < public@.len() && 0 <= j < locals.len() && (#[trigger] public@[i]).id@ == (
                #[trigger] locals[j]).id@ implies agree(public@[i], locals[j]) by {
                assert(crate::inventory::record_for(locals, public@[i].id@) == Some(locals[j]));
                assert(!crate::inventory::joined_conflict(
                    public@[i],
                    crate::inventory::record_for(locals, public@[i].id@),
                ));
            }
        }
    }
}

/// Whether a public camera and a local record report no different guid or
/// address.
pub open spec fn agree(camera: ProtectCamera, record: ProtectLocalCamera) -> bool {
    &&& camera.guid is Some && record.facts.guid is Some ==> same_letters(
        camera.guid->Some_0@,
        record.facts.guid->Some_0@,
    )
    &&& camera.mac is Some && record.facts.mac is Some ==> same_letters(
        camera.mac->Some_0@,
        record.facts.mac->Some_0@,
    )
}

/// Whether some local record has an id.
pub open spec fn has_record(locals: Seq<ProtectLocalCamera>, id: Seq<char>) -> bool {
    exists|k: int| 0 <= k < locals.len() && (#[trigger] locals[k]).id@ == id
}

proof fn lemma_agree(camera: ProtectCamera, record: ProtectLocalCamera)
    ensures
        agree(camera, record) == !crate::inventory::joined_conflict(camera, Some(record)),
{
    if camera.guid is Some && record.facts.guid is Some {
        lemma_same_letters(camera.guid->Some_0@, record.facts.guid->Some_0@);
    }
    if camera.mac is Some && record.facts.mac is Some {
        lemma_same_letters(camera.mac->Some_0@, record.facts.mac->Some_0@);
    }
}

proof fn lemma_record(locals: Seq<ProtectLocalCamera>, id: Seq<char>)
    ensures
        crate::inventory::record_for(locals, id) is Some <==> has_record(locals, id),
        crate::inventory::record_for(locals, id) matches Some(record) ==> exists|k: int|
            0 <= k < locals.len() && #[trigger] locals[k] == record && record.id@ == id,
{
    let test = crate::inventory::local_id(id);
    crate::paging_laws::law_the_first_match_is_the_first(locals, test);
    if has_record(locals, id) {
        let k = choose|k: int| 0 <= k < locals.len() && (#[trigger] locals[k]).id@ == id;
        assert(test(locals[k]));
    }
    if crate::inventory::record_for(locals, id) is Some {
        let record = crate::inventory::record_for(locals, id)->Some_0;
        let k = choose|k: int|
            {
                &&& 0 <= k < locals.len()
                &&& #[trigger] locals[k] == record
                &&& test(record)
                &&& forall|i: int| 0 <= i < k ==> !test(#[trigger] locals[i])
            };
        assert(locals[k].id@ == id);
    }
}

/// The inventory shows every public camera once, joined with the local record
/// of its id and no other, ordered by the displayed name; it keeps the
/// recorders and states how the join came out.
pub proof fn law_inventory_shows_every_public_camera(
    application_version: String,
    public: Vec<ProtectCamera>,
    reading: LocalReading,
    public_nvr: Option<ProtectNvr>,
    result: Result<CameraInventory, ToolError>,
    joined: Result<LocalEnrichmentState, ToolError>,
)
    requires
        call_ensures(
            camera_inventory,
            (application_version, public, reading, public_nvr),
            result,
        ),
        call_ensures(join_state, (&public, &reading), joined),
        result is Ok,
    ensures
        joined is Ok,
        ({
            let inventory = result->Ok_0;
            &&& stands_for(Some(inventory.application_version), Some(application_version))
            &&& inventory.public_nvr == public_nvr
            &&& inventory.local_state == joined->Ok_0
            &&& inventory.local_nvr == match reading {
                LocalReading::Full(bootstrap) => Some(bootstrap.nvr),
                _ => None,
            }
            &&& inventory.cameras@.len() == public@.len()
            &&& forall|i: int|
                0 <= i < inventory.cameras@.len() ==> exists|k: int|
                    0 <= k < public@.len() && (#[trigger] inventory.cameras@[i]).id@ == (
                    #[trigger] public@[k]).id@
            &&& forall|k: int|
                0 <= k < public@.len() ==> exists|i: int|
                    0 <= i < inventory.cameras@.len() && (#[trigger] inventory.cameras@[i]).id@ == (
                    #[trigger] public@[k]).id@
            &&& forall|i: int, j: int|
                0 <= i < j < inventory.cameras@.len() ==> !precedes(
                    (#[trigger] inventory.cameras@[j]).display_name@,
                    (#[trigger] inventory.cameras@[i]).display_name@,
                )
        }),
{
    broadcast use vstd::seq_lib::group_to_multiset_ensures;

    let views = result->Ok_0.cameras@;
    let locals = crate::inventory::locals_of(reading);
    let key = crate::inventory::camera_order(locals);
    let sorted = stable_sort(public@, key);
    law_sorting_orders_and_keeps_the_rows(public@, key);
    assert forall|i: int| 0 <= i < views.len() implies crate::cameras::shows_camera(
        #[trigger] views[i],
        sorted[i],
        crate::inventory::record_for(locals, sorted[i].id@),
        crate::recorder::switches_of(crate::inventory::local_nvr_of(reading)),
        crate::inventory::state_of(public@, reading),
    ) by {}
    assert forall|i: int| 0 <= i < views.len() implies exists|k: int|
        0 <= k < public@.len() && (#[trigger] views[i]).id@ == (#[trigger] public@[k]).id@ by {
        assert(sorted.contains(sorted[i]));
        assert(public@.to_multiset().count(sorted[i]) > 0);
        assert(public@.contains(sorted[i]));
        let k = choose|k: int| 0 <= k < public@.len() && public@[k] == sorted[i];
        assert(views[i].id@ == public@[k].id@);
    }
    assert forall|k: int| 0 <= k < public@.len() implies exists|i: int|
        0 <= i < views.len() && (#[trigger] views[i]).id@ == (#[trigger] public@[k]).id@ by {
        assert(public@.contains(public@[k]));
        assert(sorted.to_multiset().count(public@[k]) > 0);
        assert(sorted.contains(public@[k]));
        let i = choose|i: int| 0 <= i < sorted.len() && sorted[i] == public@[k];
        assert(views[i].id@ == public@[k].id@);
    }
    assert forall|i: int, j: int| 0 <= i < j < views.len() implies !precedes(
        (#[trigger] views[j]).display_name@,
        (#[trigger] views[i]).display_name@,
    ) by {
        assert(!crate::order::before(key(sorted[j]), key(sorted[i])));
    }
}

/// Each camera of the inventory is shown by the facts of the local record of
/// its id, where there is one, and by public facts alone where there is none.
pub proof fn law_inventory_joins_each_camera_with_its_own_record(
    application_version: String,
    public: Vec<ProtectCamera>,
    reading: LocalReading,
    public_nvr: Option<ProtectNvr>,
    result: Result<CameraInventory, ToolError>,
    i: int,
)
    requires
        call_ensures(
            camera_inventory,
            (application_version, public, reading, public_nvr),
            result,
        ),
        result is Ok,
        0 <= i < result->Ok_0.cameras@.len(),
    ensures
        ({
            let view = result->Ok_0.cameras@[i];
            let locals = local_cameras(reading);
            &&& !has_record(locals, view.id@) ==> {
                &&& view.recording is None && view.uptime_ms is None && view.classes is None
                &&& view.features is None && view.connection is None
                &&& view.firmware_version is None && view.hardware_model is None
                &&& view.recording_mode is None && view.last_seen_ms is None
                &&& view.local_enrichment@ != "available"@
            }
            &&& has_record(locals, view.id@) ==> exists|k: int|
                0 <= k < locals.len() && (#[trigger] locals[k]).id@ == view.id@ && view.recording
                    == locals[k].facts.is_recording && view.uptime_ms == locals[k].facts.uptime
                    && view.last_seen_ms == locals[k].facts.last_seen && stands_for(
                    view.firmware_version,
                    locals[k].facts.firmware_version,
                ) && stands_for(view.recording_mode, locals[k].facts.recording_mode)
                    && view.local_enrichment@ == "available"@
        }),
{
    let view = result->Ok_0.cameras@[i];
    let locals = crate::inventory::locals_of(reading);
    let key = crate::inventory::camera_order(locals);
    let sorted = stable_sort(public@, key);
    law_sorting_orders_and_keeps_the_rows(public@, key);
    let record = crate::inventory::record_for(locals, sorted[i].id@);
    assert(crate::cameras::shows_camera(
        result->Ok_0.cameras@[i],
        sorted[i],
        record,
        crate::recorder::switches_of(crate::inventory::local_nvr_of(reading)),
        crate::inventory::state_of(public@, reading),
    ));
    lemma_record(locals, sorted[i].id@);
    reveal_strlit("available");
    reveal_strlit("noMatchingRecord");
    reveal_strlit("notConfigured");
    reveal_strlit("unavailable");
    assert("available"@.len() == 9 && "noMatchingRecord"@.len() == 16);
    assert("notConfigured"@.len() == 13 && "unavailable"@.len() == 11);
    if record is Some {
        let k = choose|k: int|
            0 <= k < locals.len() && #[trigger] locals[k] == record->Some_0 && record->Some_0.id@
                == sorted[i].id@;
        assert(locals[k].id@ == view.id@);
    } else {
        let reports = crate::cameras::class_reports(crate::cameras::no_facts());
        assert forall|n: int| 0 <= n < reports.len() implies (#[trigger] reports[n]).0 is None by {}
    }
}

/// The recorders of an inventory are joined only where they are one.
pub proof fn law_recorders_of_an_inventory_are_one(
    application_version: String,
    public: Vec<ProtectCamera>,
    reading: LocalReading,
    nvr: ProtectNvr,
    result: Result<CameraInventory, ToolError>,
    joined: Result<LocalEnrichmentState, ToolError>,
    checked: Result<(), ToolError>,
    local: ProtectLocalNvr,
)
    requires
        call_ensures(camera_inventory, (application_version, public, reading, Some(nvr)), result),
        call_ensures(join_state, (&public, &reading), joined),
        reading matches LocalReading::Full(bootstrap) && bootstrap.nvr == local,
        call_ensures(reject_conflicting_recorder_identity, (&nvr, &local), checked),
    ensures
        result is Ok <==> joined is Ok && checked is Ok,
        result matches Err(error) ==> error.kind == ErrorKind::Internal,
{
}

/// A text of white space alone is left out, and any other is shown.
pub proof fn law_blank_options_are_absent(text: &Option<String>, shown: Option<String>)
    requires
        call_ensures(nonblank_option, (text,), shown),
    ensures
        is_filled(*text) ==> stands_for(shown, *text),
        !is_filled(*text) ==> shown is None,
{
    if let Some(inner) = text {
        crate::text_laws::law_trimming_takes_white_space_off_the_ends(inner@);
    }
}

/// A camera is named by its public name, and displayed as its record and it
/// together say.
pub proof fn law_camera_names_are_public_or_displayed(
    camera: &ProtectCamera,
    local: &ProtectLocalCamera,
    names: (Option<String>, DisplayName),
    shown: DisplayName,
)
    requires
        call_ensures(camera_names, (camera, Some(local)), names),
        call_ensures(
            display_name,
            (
                &camera.id,
                &camera.name,
                &local.facts.name,
                &local.facts.market_name,
                &local.facts.device_type,
            ),
            shown,
        ),
    ensures
        stands_for(names.0, camera.name),
        names.1.name@ == shown.name@,
        names.1.source@ == shown.source@,
{
}

/// The displayed name of a view is that of its camera and record.
pub proof fn law_views_display_the_camera_by_name(
    camera: ProtectCamera,
    local: &ProtectLocalCamera,
    switches: RecorderSwitches,
    state: LocalEnrichmentState,
    view: CameraView,
    shown: DisplayName,
)
    requires
        call_ensures(camera_view, (camera, Some(local), switches, state), view),
        call_ensures(
            display_name,
            (
                &camera.id,
                &camera.name,
                &local.facts.name,
                &local.facts.market_name,
                &local.facts.device_type,
            ),
            shown,
        ),
    ensures
        view.display_name@ == shown.name@,
        view.display_name_source@ == shown.source@,
{
}

/// The displayed name of a recorder is that of its public and local records.
pub proof fn law_views_display_the_recorder_by_name(
    nvr: ProtectNvr,
    local: &ProtectLocalNvr,
    view: RecorderView,
    shown: DisplayName,
    storage: RecorderStorageView,
)
    requires
        call_ensures(recorder_view, (nvr, Some(local)), view),
        call_ensures(
            display_name,
            (
                &nvr.id,
                &nvr.name,
                &local.facts.name,
                &local.facts.market_name,
                &local.facts.device_type,
            ),
            shown,
        ),
        local.facts.storage_stats is Some,
        call_ensures(recorder_storage_view, (&local.facts.storage_stats->Some_0,), storage),
    ensures
        view.display_name@ == shown.name@,
        view.display_name_source@ == shown.source@,
        ({
            let held = view.storage->Some_0;
            &&& held.capacity_ms == storage.capacity_ms
            &&& held.remaining_capacity_ms == storage.remaining_capacity_ms
            &&& held.utilization == storage.utilization
            &&& held.recording_space == storage.recording_space
            &&& held.recording_type_distribution_truncated
                == storage.recording_type_distribution_truncated
            &&& held.resolution_distribution_truncated
                == storage.resolution_distribution_truncated
        }),
{
}

/// The connection of a view is that of its record.
pub proof fn law_views_show_the_connection(
    camera: ProtectCamera,
    local: &ProtectLocalCamera,
    switches: RecorderSwitches,
    state: LocalEnrichmentState,
    view: CameraView,
    alone: Option<CameraConnectionView>,
)
    requires
        call_ensures(camera_view, (camera, Some(local), switches, state), view),
        call_ensures(camera_connection, (&local.facts,), alone),
    ensures
        view.connection is Some <==> alone is Some,
        alone matches Some(shown) ==> {
            let held = view.connection->Some_0;
            &&& held.kind@ == shown.kind@
            &&& held.physical_rate == shown.physical_rate
            &&& held.transmit_rate == shown.transmit_rate
            &&& held.signal_quality == shown.signal_quality
            &&& held.signal_strength_dbm == shown.signal_strength_dbm
            &&& held.channel == shown.channel
            &&& held.frequency_mhz == shown.frequency_mhz
            &&& opt_string(held.experience) == opt_string(shown.experience)
            &&& opt_string(held.connectivity) == opt_string(shown.connectivity)
        },
{
}

/// An inventory with an id twice, or with two records of one id that conflict,
/// is refused.
pub proof fn law_doubtful_inventories_are_refused(
    public: &Vec<ProtectCamera>,
    locals: &Vec<ProtectLocalCamera>,
    doubled: Result<(), ToolError>,
    local_doubled: Result<(), ToolError>,
    conflicting: Result<(), ToolError>,
)
    requires
        call_ensures(reject_duplicate_camera_ids, (public,), doubled),
        call_ensures(reject_duplicate_local_camera_ids, (locals,), local_doubled),
        call_ensures(reject_conflicting_camera_identity, (public, locals), conflicting),
    ensures
        doubled is Ok <==> forall|i: int, j: int|
            0 <= i < j < public@.len() ==> (#[trigger] public@[i]).id@ != (
            #[trigger] public@[j]).id@,
        local_doubled is Ok <==> forall|i: int, j: int|
            0 <= i < j < locals@.len() ==> (#[trigger] locals@[i]).id@ != (
            #[trigger] locals@[j]).id@,
        conflicting is Err && local_doubled is Ok ==> exists|i: int, j: int|
            0 <= i < public@.len() && 0 <= j < locals@.len() && (#[trigger] public@[i]).id@ == (
            #[trigger] locals@[j]).id@ && !agree(public@[i], locals@[j]),
        doubled matches Err(error) ==> error.kind == ErrorKind::Internal,
        local_doubled matches Err(error) ==> error.kind == ErrorKind::Internal,
        conflicting matches Err(error) ==> error.kind == ErrorKind::Internal,
{
    if conflicting is Err {
        let i = choose|i: int|
            0 <= i < public@.len() && crate::inventory::joined_conflict(
                #[trigger] public@[i],
                crate::inventory::record_for(locals@, public@[i].id@),
            );
        lemma_record(locals@, public@[i].id@);
        let record = crate::inventory::record_for(locals@, public@[i].id@)->Some_0;
        let k = choose|k: int|
            0 <= k < locals@.len() && #[trigger] locals@[k] == record && record.id@
                == public@[i].id@;
        lemma_agree(public@[i], locals@[k]);
        assert(public@[i].id@ == locals@[k].id@ && !agree(public@[i], locals@[k]));
    }
}

/// Each camera of the inventory is shown as its public camera is shown alone
/// with the local record of its id.
pub proof fn law_inventory_shows_each_camera_as_alone(
    application_version: String,
    public: Vec<ProtectCamera>,
    reading: LocalReading,
    public_nvr: Option<ProtectNvr>,
    result: Result<CameraInventory, ToolError>,
    i: int,
    k: int,
    j: int,
    switches: RecorderSwitches,
    alone: CameraView,
)
    requires
        call_ensures(
            camera_inventory,
            (application_version, public, reading, public_nvr),
            result,
        ),
        result is Ok,
        0 <= i < result->Ok_0.cameras@.len(),
        0 <= k < public@.len(),
        0 <= j < local_cameras(reading).len(),
        result->Ok_0.cameras@[i].id@ == public@[k].id@,
        local_cameras(reading)[j].id@ == public@[k].id@,
        switches == crate::recorder::switches_of(
            match reading {
                LocalReading::Full(bootstrap) => Some(bootstrap.nvr),
                _ => None,
            },
        ),
        call_ensures(
            camera_view,
            (public@[k], Some(&local_cameras(reading)[j]), switches, result->Ok_0.local_state),
            alone,
        ),
    ensures
        ({
            let view = result->Ok_0.cameras@[i];
            &&& view.id@ == alone.id@
            &&& opt_string(view.guid) == opt_string(alone.guid)
            &&& opt_string(view.mac) == opt_string(alone.mac)
            &&& opt_string(view.name) == opt_string(alone.name)
            &&& view.display_name@ == alone.display_name@
            &&& view.display_name_source@ == alone.display_name_source@
            &&& opt_string(view.product_type) == opt_string(alone.product_type)
            &&& opt_string(view.hardware_model) == opt_string(alone.hardware_model)
            &&& view.state@ == alone.state@
            &&& view.recording == alone.recording
            &&& view.recording_configured == alone.recording_configured
            &&& view.recording_enabled == alone.recording_enabled
            &&& view.recording_globally_disabled == alone.recording_globally_disabled
            &&& view.has_recordings == alone.has_recordings
            &&& view.poor_network == alone.poor_network
            &&& opt_string(view.firmware_version) == opt_string(alone.firmware_version)
            &&& view.connected_since_ms == alone.connected_since_ms
            &&& view.last_seen_ms == alone.last_seen_ms
            &&& view.last_disconnect_ms == alone.last_disconnect_ms
            &&& view.uptime_ms == alone.uptime_ms
            &&& view.updating == alone.updating
            &&& opt_string(view.recording_mode) == opt_string(alone.recording_mode)
            &&& view.audio == alone.audio
            &&& view.local_enrichment@ == alone.local_enrichment@
        }),
{
    broadcast use vstd::seq_lib::group_to_multiset_ensures;

    let locals = crate::inventory::locals_of(reading);
    let key = crate::inventory::camera_order(locals);
    let sorted = stable_sort(public@, key);
    law_sorting_orders_and_keeps_the_rows(public@, key);
    assert(sorted.contains(sorted[i]));
    assert(public@.to_multiset().count(sorted[i]) > 0);
    assert(public@.contains(sorted[i]));
    let at = choose|at: int| 0 <= at < public@.len() && public@[at] == sorted[i];
    assert(crate::cameras::shows_camera(
        result->Ok_0.cameras@[i],
        sorted[i],
        crate::inventory::record_for(locals, sorted[i].id@),
        crate::recorder::switches_of(crate::inventory::local_nvr_of(reading)),
        crate::inventory::state_of(public@, reading),
    ));
    if at < k {
        assert(public@[at].id@ != public@[k].id@);
    } else if k < at {
        assert(public@[k].id@ != public@[at].id@);
    }
    lemma_record(locals, public@[k].id@);
    assert(has_record(locals, locals[j].id@));
    let record = crate::inventory::record_for(locals, public@[k].id@)->Some_0;
    let r = choose|r: int|
        0 <= r < locals.len() && #[trigger] locals[r] == record && record.id@ == public@[k].id@;
    if r < j {
        assert(locals[r].id@ != locals[j].id@);
    } else if j < r {
        assert(locals[j].id@ != locals[r].id@);
    }
}

} // verus!
