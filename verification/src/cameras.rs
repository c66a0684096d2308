//! Cameras of a Protect console: one view joined from the public inventory
//! and, where a local session supplies it, the local record.

use vstd::prelude::*;
use vstd::string::*;

use crate::devices::Real;
use crate::display::{
    bounded, bounded_nonblank, bounded_nonblank_text, bounded_option, bounded_text, opt_bounded,
};
use crate::paging::page;
use crate::rows::{flag_if, owned, shown_if};
use crate::text::{
    eq_ignoring_ascii_case, opt_string, same_ignoring_ascii_case, texts, trim, trimmed,
};

verus! {

/// Detection labels returned for each camera and label family.
pub const CAMERA_FEATURE_LABEL_CEILING: usize = 32;

/// A camera as the public inventory reports it.
pub struct ProtectCamera {
    pub id: String,
    pub guid: Option<String>,
    pub mac: Option<String>,
    pub name: Option<String>,
    pub device_type: Option<String>,
    pub state: String,
    pub is_mic_enabled: Option<bool>,
    pub mic_volume: Option<u8>,
}

/// The feature flags of a camera that are switches.
#[derive(Debug, Clone, Copy, PartialEq, Eq, Structural)]
pub struct CameraFlags {
    pub is_doorbell: Option<bool>,
    pub is_ptz: Option<bool>,
    pub has_package_camera: Option<bool>,
    pub has_wifi: Option<bool>,
    pub has_speaker: Option<bool>,
    pub has_mic: Option<bool>,
    pub has_hdr: Option<bool>,
    pub has_smart_detect: Option<bool>,
    pub has_led_status: Option<bool>,
    pub can_optical_zoom: Option<bool>,
    pub has_auto_icr_only: Option<bool>,
}

/// The feature flags of a camera.
pub struct ProtectCameraFeatureFlags {
    pub flags: CameraFlags,
    pub smart_detect_types: Vec<String>,
    pub smart_detect_audio_types: Vec<String>,
}

/// How a wireless camera is connected.
pub struct WifiConnectionState {
    pub signal_quality: Option<i32>,
    pub signal_strength: Option<i32>,
    pub phy_rate: Option<Real>,
    pub tx_rate: Option<Real>,
    pub channel: Option<u16>,
    pub frequency: Option<u32>,
    pub experience: Option<String>,
    pub connectivity: Option<String>,
}

/// How a wired camera is connected.
pub struct WiredConnectionState {
    pub phy_rate: Option<Real>,
}

/// What a local record adds to a camera.
pub struct LocalCameraFacts {
    pub guid: Option<String>,
    pub mac: Option<String>,
    pub name: Option<String>,
    pub device_type: Option<String>,
    pub market_name: Option<String>,
    pub firmware_version: Option<String>,
    pub latest_firmware_version: Option<String>,
    pub hardware_revision: Option<String>,
    pub connected_since: Option<u64>,
    pub last_seen: Option<u64>,
    pub last_disconnect: Option<u64>,
    pub uptime: Option<u64>,
    pub is_updating: Option<bool>,
    pub is_rebooting: Option<bool>,
    pub is_restoring: Option<bool>,
    pub is_downloading_fw: Option<bool>,
    pub is_attempting_to_connect: Option<bool>,
    pub is_recording: Option<bool>,
    pub has_recordings: Option<bool>,
    pub is_poor_network: Option<bool>,
    pub video_mode: Option<String>,
    pub is_2k: Option<bool>,
    pub is_4k: Option<bool>,
    pub is_third_party_camera: Option<bool>,
    pub is_paired_with_ai_port: Option<bool>,
    pub is_mic_enabled: Option<bool>,
    pub mic_volume: Option<u8>,
    pub recording_mode: Option<String>,
    pub feature_flags: Option<ProtectCameraFeatureFlags>,
    pub wired_connection_state: Option<WiredConnectionState>,
    pub wifi_connection_state: Option<WifiConnectionState>,
}

/// A camera as the local inventory reports it.
pub struct ProtectLocalCamera {
    pub id: String,
    pub facts: LocalCameraFacts,
}

/// How much of the local inventory was read.
#[derive(Debug, Clone, Copy, PartialEq, Eq, Structural)]
pub enum LocalEnrichmentState {
    Available,
    Partial,
    NotConfigured,
    Unavailable,
}

/// The audio of a camera.
#[derive(Debug, Clone, Copy, PartialEq, Eq, Structural)]
pub struct CameraAudioView {
    pub supported: Option<bool>,
    pub enabled: Option<bool>,
    pub volume: Option<u8>,
    pub globally_disabled: Option<bool>,
    pub effectively_enabled: Option<bool>,
}

/// The features of a camera.
pub struct CameraFeaturesView {
    pub doorbell: Option<bool>,
    pub speaker: Option<bool>,
    pub wifi: Option<bool>,
    pub hdr: Option<bool>,
    pub package_camera: Option<bool>,
    pub smart_detect: Option<bool>,
    pub optical_zoom: Option<bool>,
    pub status_led: Option<bool>,
    pub automatic_ir_only: Option<bool>,
    pub ptz: Option<bool>,
    pub two_k: Option<bool>,
    pub four_k: Option<bool>,
    pub third_party: Option<bool>,
    pub ai_paired: Option<bool>,
    pub smart_detect_types: Vec<String>,
    pub smart_detect_types_truncated: Option<bool>,
    pub smart_detect_audio_types: Vec<String>,
    pub smart_detect_audio_types_truncated: Option<bool>,
}

/// The connection of a camera.
pub struct CameraConnectionView {
    pub kind: String,
    pub physical_rate: Option<Real>,
    pub transmit_rate: Option<Real>,
    pub signal_quality: Option<i32>,
    pub signal_strength_dbm: Option<i32>,
    pub channel: Option<u16>,
    pub frequency_mhz: Option<u32>,
    pub experience: Option<String>,
    pub connectivity: Option<String>,
}

/// One camera as this surface reports it. No image, stream URL, or talkback
/// handle appears here.
pub struct CameraView {
    pub id: String,
    pub guid: Option<String>,
    pub mac: Option<String>,
    pub name: Option<String>,
    pub display_name: String,
    pub display_name_source: String,
    pub product_type: Option<String>,
    pub hardware_model: Option<String>,
    pub classes: Option<Vec<String>>,
    pub state: String,
    pub recording: Option<bool>,
    pub recording_configured: Option<bool>,
    pub recording_enabled: Option<bool>,
    pub recording_globally_disabled: Option<bool>,
    pub has_recordings: Option<bool>,
    pub poor_network: Option<bool>,
    pub firmware_version: Option<String>,
    pub latest_firmware_version: Option<String>,
    pub hardware_revision: Option<String>,
    pub connected_since_ms: Option<u64>,
    pub last_seen_ms: Option<u64>,
    pub last_disconnect_ms: Option<u64>,
    pub uptime_ms: Option<u64>,
    pub updating: Option<bool>,
    pub rebooting: Option<bool>,
    pub restoring: Option<bool>,
    pub downloading_firmware: Option<bool>,
    pub attempting_to_connect: Option<bool>,
    pub video_mode: Option<String>,
    pub recording_mode: Option<String>,
    pub audio: Option<CameraAudioView>,
    pub features: Option<CameraFeaturesView>,
    pub connection: Option<CameraConnectionView>,
    pub local_enrichment: String,
}

/// The switches of the recorder that govern every camera.
#[derive(Debug, Clone, Copy, PartialEq, Eq, Structural)]
pub struct RecorderSwitches {
    pub disable_audio: Option<bool>,
    pub is_recording_disabled: Option<bool>,
}

// ---------------------------------------------------------------------------
// Facts and flags
// ---------------------------------------------------------------------------

/// The facts where there is no local record: none.
pub open spec fn no_facts() -> LocalCameraFacts {
    LocalCameraFacts {
        guid: None,
        mac: None,
        name: None,
        device_type: None,
        market_name: None,
        firmware_version: None,
        latest_firmware_version: None,
        hardware_revision: None,
        connected_since: None,
        last_seen: None,
        last_disconnect: None,
        uptime: None,
        is_updating: None,
        is_rebooting: None,
        is_restoring: None,
        is_downloading_fw: None,
        is_attempting_to_connect: None,
        is_recording: None,
        has_recordings: None,
        is_poor_network: None,
        video_mode: None,
        is_2k: None,
        is_4k: None,
        is_third_party_camera: None,
        is_paired_with_ai_port: None,
        is_mic_enabled: None,
        mic_volume: None,
        recording_mode: None,
        feature_flags: None,
        wired_connection_state: None,
        wifi_connection_state: None,
    }
}

/// The facts a camera has from a local record, where there is one.
pub open spec fn facts_of(local: Option<ProtectLocalCamera>) -> LocalCameraFacts {
    match local {
        Some(record) => record.facts,
        None => no_facts(),
    }
}

fn absent_facts() -> (facts: LocalCameraFacts)
    ensures
        facts == no_facts(),
{
    LocalCameraFacts {
        guid: None,
        mac: None,
        name: None,
        device_type: None,
        market_name: None,
        firmware_version: None,
        latest_firmware_version: None,
        hardware_revision: None,
        connected_since: None,
        last_seen: None,
        last_disconnect: None,
        uptime: None,
        is_updating: None,
        is_rebooting: None,
        is_restoring: None,
        is_downloading_fw: None,
        is_attempting_to_connect: None,
        is_recording: None,
        has_recordings: None,
        is_poor_network: None,
        video_mode: None,
        is_2k: None,
        is_4k: None,
        is_third_party_camera: None,
        is_paired_with_ai_port: None,
        is_mic_enabled: None,
        mic_volume: None,
        recording_mode: None,
        feature_flags: None,
        wired_connection_state: None,
        wifi_connection_state: None,
    }
}

/// The switches where no flags are reported: none.
pub open spec fn no_flags() -> CameraFlags {
    CameraFlags {
        is_doorbell: None,
        is_ptz: None,
        has_package_camera: None,
        has_wifi: None,
        has_speaker: None,
        has_mic: None,
        has_hdr: None,
        has_smart_detect: None,
        has_led_status: None,
        can_optical_zoom: None,
        has_auto_icr_only: None,
    }
}

/// The switches among the feature flags of a local record.
pub open spec fn flags_of(facts: LocalCameraFacts) -> CameraFlags {
    match facts.feature_flags {
        Some(features) => features.flags,
        None => no_flags(),
    }
}

fn flags(facts: &LocalCameraFacts) -> (switches: CameraFlags)
    ensures
        switches == flags_of(*facts),
{
    match &facts.feature_flags {
        Some(features) => features.flags,
        None => CameraFlags {
            is_doorbell: None,
            is_ptz: None,
            has_package_camera: None,
            has_wifi: None,
            has_speaker: None,
            has_mic: None,
            has_hdr: None,
            has_smart_detect: None,
            has_led_status: None,
            can_optical_zoom: None,
            has_auto_icr_only: None,
        },
    }
}

/// The first of two optional values that is there.
pub open spec fn either<T>(first: Option<T>, second: Option<T>) -> Option<T> {
    match first {
        Some(value) => Some(value),
        None => second,
    }
}

fn either_text(first: Option<String>, second: &Option<String>) -> (text: Option<String>)
    ensures
        text == either(first, *second),
{
    match first {
        Some(value) => Some(value),
        None => second.clone(),
    }
}

// ---------------------------------------------------------------------------
// Names
// ---------------------------------------------------------------------------

/// A bounded optional text, absent where it is blank.
pub open spec fn opt_nonblank(text: Option<Seq<char>>) -> Option<Seq<char>> {
    match text {
        Some(inner) => bounded_nonblank(inner),
        None => None,
    }
}

/// Bounds an optional text that is not blank.
pub fn nonblank_option(text: &Option<String>) -> (shown: Option<String>)
    ensures
        opt_string(shown) == opt_nonblank(opt_string(*text)),
{
    match text {
        Some(inner) => bounded_nonblank_text(inner.clone()),
        None => None,
    }
}

/// The name something is displayed under, and which field supplied it: the
/// public name, then the local name, market name or product type, then the
/// id. A blank name is passed over.
pub open spec fn display_of(
    id: Seq<char>,
    public_name: Option<Seq<char>>,
    local_name: Option<Seq<char>>,
    market_name: Option<Seq<char>>,
    product_type: Option<Seq<char>>,
) -> (Seq<char>, Seq<char>) {
    let shown = opt_bounded(public_name);
    if shown is Some && trimmed(shown->Some_0).len() > 0 {
        (shown->Some_0, "publicName"@)
    } else if opt_nonblank(local_name) is Some {
        (opt_nonblank(local_name)->Some_0, "localName"@)
    } else if opt_nonblank(market_name) is Some {
        (opt_nonblank(market_name)->Some_0, "localMarketName"@)
    } else if opt_nonblank(product_type) is Some {
        (opt_nonblank(product_type)->Some_0, "localProductType"@)
    } else {
        (bounded(id), "id"@)
    }
}

/// A name something is displayed under.
pub struct DisplayName {
    pub name: String,
    pub source: &'static str,
}

/// The name something is displayed under, and which field supplied it.
pub fn display_name(
    id: &String,
    public_name: &Option<String>,
    local_name: &Option<String>,
    market_name: &Option<String>,
    product_type: &Option<String>,
) -> (shown: DisplayName)
    ensures
        (shown.name@, shown.source@) == display_of(
            id@,
            opt_string(*public_name),
            opt_string(*local_name),
            opt_string(*market_name),
            opt_string(*product_type),
        ),
{
    if let Some(name) = bounded_option(public_name.clone()) {
        let inner = trim(name.as_str());
        if !inner.as_str().is_empty() {
            return DisplayName { name, source: "publicName" };
        }
    }
    if let Some(name) = nonblank_option(local_name) {
        return DisplayName { name, source: "localName" };
    }
    if let Some(name) = nonblank_option(market_name) {
        return DisplayName { name, source: "localMarketName" };
    }
    if let Some(name) = nonblank_option(product_type) {
        return DisplayName { name, source: "localProductType" };
    }
    DisplayName { name: bounded_text(id.clone()), source: "id" }
}

/// The public name of a camera, the name it is displayed under, and which
/// field supplied that.
pub fn camera_names(camera: &ProtectCamera, local: Option<&ProtectLocalCamera>) -> (names: (
    Option<String>,
    DisplayName,
))
    ensures
        opt_string(names.0) == opt_bounded(opt_string(camera.name)),
        (names.1.name@, names.1.source@) == display_of(
            camera.id@,
            opt_string(camera.name),
            opt_string(facts_of(owned(local)).name),
            opt_string(facts_of(owned(local)).market_name),
            opt_string(facts_of(owned(local)).device_type),
        ),
{
    let none = absent_facts();
    let facts: &LocalCameraFacts = match local {
        Some(record) => &record.facts,
        None => &none,
    };
    let public_name = bounded_option(camera.name.clone());
    let shown = display_name(
        &camera.id,
        &camera.name,
        &facts.name,
        &facts.market_name,
        &facts.device_type,
    );
    (public_name, shown)
}

// ---------------------------------------------------------------------------
// Switches
// ---------------------------------------------------------------------------

/// Whether a recording mode enables recording, where it is a known one.
pub open spec fn mode_records(mode: Seq<char>) -> Option<bool> {
    if eq_ignoring_ascii_case(mode, "always"@) || eq_ignoring_ascii_case(mode, "detections"@) {
        Some(true)
    } else if eq_ignoring_ascii_case(mode, "never"@) {
        Some(false)
    } else {
        None
    }
}

/// Whether a recording mode enables recording, where it is a known one.
pub fn recording_mode_configured(mode: &str) -> (configured: Option<bool>)
    ensures
        configured == mode_records(mode@),
{
    if same_ignoring_ascii_case(mode, "always") || same_ignoring_ascii_case(mode, "detections") {
        Some(true)
    } else if same_ignoring_ascii_case(mode, "never") {
        Some(false)
    } else {
        None
    }
}

/// What a switch comes to under a global one that disables: off where either
/// says so, on only where both allow it, else unknown.
pub open spec fn effective(enabled: Option<bool>, globally_disabled: Option<bool>) -> Option<bool> {
    if enabled == Some(false) || globally_disabled == Some(true) {
        Some(false)
    } else if enabled == Some(true) && globally_disabled == Some(false) {
        Some(true)
    } else {
        None
    }
}

/// What a switch comes to under a global one that disables.
pub fn effective_switch(enabled: Option<bool>, globally_disabled: Option<bool>) -> (result: Option<
    bool,
>)
    ensures
        result == effective(enabled, globally_disabled),
{
    match (enabled, globally_disabled) {
        (Some(false), _) => Some(false),
        (_, Some(true)) => Some(false),
        (Some(true), Some(false)) => Some(true),
        _ => None,
    }
}

/// The word for how a camera was enriched.
pub open spec fn enrichment_text(joined: bool, state: LocalEnrichmentState) -> &'static str {
    match (joined, state) {
        (true, _) => "available",
        (false, LocalEnrichmentState::Available) => "noMatchingRecord",
        (false, LocalEnrichmentState::Partial) => "noMatchingRecord",
        (false, LocalEnrichmentState::NotConfigured) => "notConfigured",
        (false, LocalEnrichmentState::Unavailable) => "unavailable",
    }
}

/// The word for how a camera was enriched.
pub fn local_enrichment_word(local: Option<&ProtectLocalCamera>, state: LocalEnrichmentState) -> (word:
    &'static str)
    ensures
        word == enrichment_text(local is Some, state),
{
    match (local, state) {
        (Some(_), _) => "available",
        (None, LocalEnrichmentState::Available) => "noMatchingRecord",
        (None, LocalEnrichmentState::Partial) => "noMatchingRecord",
        (None, LocalEnrichmentState::NotConfigured) => "notConfigured",
        (None, LocalEnrichmentState::Unavailable) => "unavailable",
    }
}

/// The audio of a camera: absent where nothing is known of it.
pub open spec fn audio_of(
    camera: ProtectCamera,
    facts: LocalCameraFacts,
    disable_audio: Option<bool>,
) -> Option<CameraAudioView> {
    let supported = flags_of(facts).has_mic;
    let enabled = either(camera.is_mic_enabled, facts.is_mic_enabled);
    let volume = either(camera.mic_volume, facts.mic_volume);
    if supported is Some || enabled is Some || volume is Some || disable_audio is Some {
        Some(
            CameraAudioView {
                supported,
                enabled,
                volume,
                globally_disabled: disable_audio,
                effectively_enabled: effective(enabled, disable_audio),
            },
        )
    } else {
        None
    }
}

fn camera_audio(camera: &ProtectCamera, facts: &LocalCameraFacts, disable_audio: Option<bool>) -> (audio:
    Option<CameraAudioView>)
    ensures
        audio == audio_of(*camera, *facts, disable_audio),
{
    let supported: Option<bool> = flags(facts).has_mic;
    let enabled: Option<bool> = match camera.is_mic_enabled {
        Some(flag) => Some(flag),
        None => facts.is_mic_enabled,
    };
    let volume: Option<u8> = match camera.mic_volume {
        Some(level) => Some(level),
        None => facts.mic_volume,
    };
    if supported.is_some() || enabled.is_some() || volume.is_some() || disable_audio.is_some() {
        Some(
            CameraAudioView {
                supported,
                enabled,
                volume,
                globally_disabled: disable_audio,
                effectively_enabled: effective_switch(enabled, disable_audio),
            },
        )
    } else {
        None
    }
}

// ---------------------------------------------------------------------------
// Features
// ---------------------------------------------------------------------------

/// The labels shown of a list: bounded in number and in length.
pub open spec fn shown_labels(labels: Seq<Seq<char>>) -> Seq<Seq<char>> {
    page(labels, 0, CAMERA_FEATURE_LABEL_CEILING as int).map_values(
        |label: Seq<char>| bounded(label),
    )
}

/// The smart-detection labels of a camera.
pub open spec fn video_labels(facts: LocalCameraFacts) -> Seq<Seq<char>> {
    match facts.feature_flags {
        Some(features) => texts(features.smart_detect_types@),
        None => Seq::empty(),
    }
}

/// The audio smart-detection labels of a camera.
pub open spec fn audio_labels(facts: LocalCameraFacts) -> Seq<Seq<char>> {
    match facts.feature_flags {
        Some(features) => texts(features.smart_detect_audio_types@),
        None => Seq::empty(),
    }
}

fn show_labels(labels: &Vec<String>) -> (shown: Vec<String>)
    ensures
        texts(shown@) == shown_labels(texts(labels@)),
{
    let mut shown: Vec<String> = Vec::new();
    let mut i: usize = 0;
    while i < labels.len() && i < CAMERA_FEATURE_LABEL_CEILING
        invariant
            i <= labels@.len(),
            i <= CAMERA_FEATURE_LABEL_CEILING,
            shown@.len() == i,
            forall|k: int| 0 <= k < i ==> (#[trigger] shown@[k])@ == bounded(labels@[k]@),
        decreases labels@.len() - i,
    {
        shown.push(bounded_text(labels[i].clone()));
        i += 1;
    }
    assert(texts(shown@) =~= shown_labels(texts(labels@)));
    shown
}

/// Whether a view shows the features a local record reports.
pub open spec fn shows_features(view: CameraFeaturesView, facts: LocalCameraFacts) -> bool {
    let switches = flags_of(facts);
    &&& view.doorbell == switches.is_doorbell
    &&& view.speaker == switches.has_speaker
    &&& view.wifi == switches.has_wifi
    &&& view.hdr == switches.has_hdr
    &&& view.package_camera == switches.has_package_camera
    &&& view.smart_detect == switches.has_smart_detect
    &&& view.optical_zoom == switches.can_optical_zoom
    &&& view.status_led == switches.has_led_status
    &&& view.automatic_ir_only == switches.has_auto_icr_only
    &&& view.ptz == switches.is_ptz
    &&& view.two_k == facts.is_2k
    &&& view.four_k == facts.is_4k
    &&& view.third_party == facts.is_third_party_camera
    &&& view.ai_paired == facts.is_paired_with_ai_port
    &&& texts(view.smart_detect_types@) == shown_labels(video_labels(facts))
    &&& view.smart_detect_types_truncated == shown_if(
        video_labels(facts).len() > CAMERA_FEATURE_LABEL_CEILING,
    )
    &&& texts(view.smart_detect_audio_types@) == shown_labels(audio_labels(facts))
    &&& view.smart_detect_audio_types_truncated == shown_if(
        audio_labels(facts).len() > CAMERA_FEATURE_LABEL_CEILING,
    )
}

/// Whether a local record reports any feature at all.
pub open spec fn any_feature(facts: LocalCameraFacts) -> bool {
    let switches = flags_of(facts);
    ||| switches.is_doorbell is Some
    ||| switches.has_speaker is Some
    ||| switches.has_wifi is Some
    ||| switches.has_hdr is Some
    ||| switches.has_package_camera is Some
    ||| switches.has_smart_detect is Some
    ||| switches.can_optical_zoom is Some
    ||| switches.has_led_status is Some
    ||| switches.has_auto_icr_only is Some
    ||| switches.is_ptz is Some
    ||| facts.is_2k is Some
    ||| facts.is_4k is Some
    ||| facts.is_third_party_camera is Some
    ||| facts.is_paired_with_ai_port is Some
    ||| video_labels(facts).len() > 0
    ||| audio_labels(facts).len() > 0
}

/// The features of a camera: absent where none is reported.
pub fn camera_features(facts: &LocalCameraFacts) -> (features: Option<CameraFeaturesView>)
    ensures
        features is Some <==> any_feature(*facts),
        features matches Some(view) ==> shows_features(view, *facts),
{
    let switches = flags(facts);
    let (video, video_truncated, audio, audio_truncated): (Vec<String>, bool, Vec<String>, bool) =
        match &facts.feature_flags {
        Some(features) => (
            show_labels(&features.smart_detect_types),
            features.smart_detect_types.len() > CAMERA_FEATURE_LABEL_CEILING,
            show_labels(&features.smart_detect_audio_types),
            features.smart_detect_audio_types.len() > CAMERA_FEATURE_LABEL_CEILING,
        ),
        None => (Vec::new(), false, Vec::new(), false),
    };
    proof {
        assert(texts(video@) =~= shown_labels(video_labels(*facts)));
        assert(texts(audio@) =~= shown_labels(audio_labels(*facts)));
        assert(texts(video@).len() == video@.len());
        assert(texts(audio@).len() == audio@.len());
    }
    let reported = switches.is_doorbell.is_some() || switches.has_speaker.is_some()
        || switches.has_wifi.is_some() || switches.has_hdr.is_some()
        || switches.has_package_camera.is_some() || switches.has_smart_detect.is_some()
        || switches.can_optical_zoom.is_some() || switches.has_led_status.is_some()
        || switches.has_auto_icr_only.is_some() || switches.is_ptz.is_some()
        || facts.is_2k.is_some() || facts.is_4k.is_some() || facts.is_third_party_camera.is_some()
        || facts.is_paired_with_ai_port.is_some() || video.len() > 0 || audio.len() > 0;
    if !reported {
        return None;
    }
    Some(
        CameraFeaturesView {
            doorbell: switches.is_doorbell,
            speaker: switches.has_speaker,
            wifi: switches.has_wifi,
            hdr: switches.has_hdr,
            package_camera: switches.has_package_camera,
            smart_detect: switches.has_smart_detect,
            optical_zoom: switches.can_optical_zoom,
            status_led: switches.has_led_status,
            automatic_ir_only: switches.has_auto_icr_only,
            ptz: switches.is_ptz,
            two_k: facts.is_2k,
            four_k: facts.is_4k,
            third_party: facts.is_third_party_camera,
            ai_paired: facts.is_paired_with_ai_port,
            smart_detect_types: video,
            smart_detect_types_truncated: flag_if(video_truncated),
            smart_detect_audio_types: audio,
            smart_detect_audio_types_truncated: flag_if(audio_truncated),
        },
    )
}

/// What a local record reports of each functional class, in display order.
pub open spec fn class_reports(facts: LocalCameraFacts) -> Seq<(Option<bool>, Seq<char>)> {
    let switches = flags_of(facts);
    seq![
        (switches.is_doorbell, "doorbell"@),
        (switches.is_ptz, "ptz"@),
        (facts.is_third_party_camera, "third-party"@),
        (switches.has_package_camera, "package-camera"@),
        (facts.is_paired_with_ai_port, "ai-paired"@),
        (switches.has_speaker, "speaker"@),
        (switches.has_mic, "microphone"@),
        (facts.is_2k, "2k"@),
        (facts.is_4k, "4k"@),
        (switches.has_wifi, "wifi"@),
        (switches.has_smart_detect, "smart-detect"@),
        (switches.can_optical_zoom, "optical-zoom"@),
    ]
}

/// The name of a class that is reported present.
pub open spec fn present_class(report: (Option<bool>, Seq<char>)) -> Option<Seq<char>> {
    if report.0 == Some(true) {
        Some(report.1)
    } else {
        None
    }
}

/// The classes of a camera: those reported present, absent as a whole where
/// nothing is reported of any.
pub open spec fn classes_of(facts: LocalCameraFacts) -> Option<Seq<Seq<char>>> {
    if exists|i: int|
        0 <= i < class_reports(facts).len() && (#[trigger] class_reports(facts)[i]).0 is Some {
        Some(
            class_reports(facts).filter_map(
                |report: (Option<bool>, Seq<char>)| present_class(report),
            ),
        )
    } else {
        None
    }
}

/// The texts of an optional list.
pub open spec fn opt_texts(list: Option<Vec<String>>) -> Option<Seq<Seq<char>>> {
    match list {
        Some(inner) => Some(texts(inner@)),
        None => None,
    }
}

/// The classes of a camera, derived from explicit feature flags.
pub fn camera_classes(facts: &LocalCameraFacts) -> (classes: Option<Vec<String>>)
    ensures
        opt_texts(classes) == classes_of(*facts),
{
    let switches = flags(facts);
    let reports: Vec<(Option<bool>, &'static str)> = vec![
        (switches.is_doorbell, "doorbell"),
        (switches.is_ptz, "ptz"),
        (facts.is_third_party_camera, "third-party"),
        (switches.has_package_camera, "package-camera"),
        (facts.is_paired_with_ai_port, "ai-paired"),
        (switches.has_speaker, "speaker"),
        (switches.has_mic, "microphone"),
        (facts.is_2k, "2k"),
        (facts.is_4k, "4k"),
        (switches.has_wifi, "wifi"),
        (switches.has_smart_detect, "smart-detect"),
        (switches.can_optical_zoom, "optical-zoom"),
    ];
    let ghost all = class_reports(*facts);
    let ghost pick = |report: (Option<bool>, Seq<char>)| present_class(report);
    assert forall|k: int| 0 <= k < all.len() implies #[trigger] all[k] == (
        reports@[k].0,
        reports@[k].1@,
    ) by {}
    let mut known = false;
    let mut classes: Vec<String> = Vec::new();
    let mut i: usize = 0;
    assert(texts(classes@) =~= all.take(0).filter_map(pick));
    while i < reports.len()
        invariant
            i <= reports@.len() == all.len(),
            all == class_reports(*facts),
            pick == (|report: (Option<bool>, Seq<char>)| present_class(report)),
            forall|k: int|
                0 <= k < all.len() ==> #[trigger] all[k] == (reports@[k].0, reports@[k].1@),
            known == exists|k: int| 0 <= k < i && (#[trigger] all[k]).0 is Some,
            texts(classes@) == all.take(i as int).filter_map(pick),
        decreases reports@.len() - i,
    {
        let ghost prior = texts(classes@);
        assert(all.take(i + 1).drop_last() =~= all.take(i as int));
        assert(all.take(i + 1).last() == all[i as int]);
        if let Some(present) = reports[i].0 {
            assert(all[i as int].0 is Some);
            known = true;
            if present {
                classes.push(reports[i].1.to_owned());
                assert(texts(classes@) =~= prior + seq![all[i as int].1]);
            }
        }
        i += 1;
    }
    assert(all.take(i as int) =~= all);
    if known {
        Some(classes)
    } else {
        None
    }
}

/// Whether a view shows the connection a local record reports.
pub open spec fn shows_connection(
    view: Option<CameraConnectionView>,
    facts: LocalCameraFacts,
) -> bool {
    match (facts.wired_connection_state, facts.wifi_connection_state) {
        (Some(wired), _) => view matches Some(shown) && {
            &&& shown.kind@ == "wired"@
            &&& shown.physical_rate == wired.phy_rate
            &&& shown.transmit_rate is None
            &&& shown.signal_quality is None
            &&& shown.signal_strength_dbm is None
            &&& shown.channel is None
            &&& shown.frequency_mhz is None
            &&& shown.experience is None
            &&& shown.connectivity is None
        },
        (None, Some(wifi)) => view matches Some(shown) && {
            &&& shown.kind@ == "wifi"@
            &&& shown.physical_rate == wifi.phy_rate
            &&& shown.transmit_rate == wifi.tx_rate
            &&& shown.signal_quality == wifi.signal_quality
            &&& shown.signal_strength_dbm == wifi.signal_strength
            &&& shown.channel == wifi.channel
            &&& shown.frequency_mhz == wifi.frequency
            &&& opt_string(shown.experience) == opt_bounded(opt_string(wifi.experience))
            &&& opt_string(shown.connectivity) == opt_bounded(opt_string(wifi.connectivity))
        },
        (None, None) => view is None,
    }
}

/// The connection of a camera: a wired one where it reports one, else a
/// wireless one.
pub fn camera_connection(facts: &LocalCameraFacts) -> (view: Option<CameraConnectionView>)
    ensures
        shows_connection(view, *facts),
{
    if let Some(wired) = &facts.wired_connection_state {
        return Some(
            CameraConnectionView {
                kind: "wired".to_owned(),
                physical_rate: wired.phy_rate,
                transmit_rate: None,
                signal_quality: None,
                signal_strength_dbm: None,
                channel: None,
                frequency_mhz: None,
                experience: None,
                connectivity: None,
            },
        );
    }
    match &facts.wifi_connection_state {
        Some(wifi) => Some(
            CameraConnectionView {
                kind: "wifi".to_owned(),
                physical_rate: wifi.phy_rate,
                transmit_rate: wifi.tx_rate,
                signal_quality: wifi.signal_quality,
                signal_strength_dbm: wifi.signal_strength,
                channel: wifi.channel,
                frequency_mhz: wifi.frequency,
                experience: bounded_option(wifi.experience.clone()),
                connectivity: bounded_option(wifi.connectivity.clone()),
            },
        ),
        None => None,
    }
}

// ---------------------------------------------------------------------------
// The view
// ---------------------------------------------------------------------------

/// Whether the configured mode of a camera enables recording.
pub open spec fn recording_configured(facts: LocalCameraFacts) -> Option<bool> {
    match opt_bounded(opt_string(facts.recording_mode)) {
        Some(mode) => mode_records(mode),
        None => None,
    }
}

/// Whether a view shows a camera: public identity and state are
/// authoritative, and the local record supplies the operational fields the
/// public inventory does not promise.
pub open spec fn shows_camera(
    view: CameraView,
    camera: ProtectCamera,
    local: Option<ProtectLocalCamera>,
    switches: RecorderSwitches,
    state: LocalEnrichmentState,
) -> bool {
    let facts = facts_of(local);
    &&& view.id == camera.id
    &&& opt_string(view.guid) == opt_bounded(opt_string(either(camera.guid, facts.guid)))
    &&& opt_string(view.mac) == opt_bounded(opt_string(either(camera.mac, facts.mac)))
    &&& opt_string(view.name) == opt_bounded(opt_string(camera.name))
    &&& (view.display_name@, view.display_name_source@) == display_of(
        camera.id@,
        opt_string(camera.name),
        opt_string(facts.name),
        opt_string(facts.market_name),
        opt_string(facts.device_type),
    )
    &&& opt_string(view.product_type) == opt_bounded(
        opt_string(either(camera.device_type, facts.device_type)),
    )
    &&& opt_string(view.hardware_model) == opt_nonblank(opt_string(facts.market_name))
    &&& opt_texts(view.classes) == classes_of(facts)
    &&& view.state@ == bounded(camera.state@)
    &&& view.recording == facts.is_recording
    &&& view.recording_configured == recording_configured(facts)
    &&& view.recording_enabled == effective(
        recording_configured(facts),
        switches.is_recording_disabled,
    )
    &&& view.recording_globally_disabled == switches.is_recording_disabled
    &&& view.has_recordings == facts.has_recordings
    &&& view.poor_network == facts.is_poor_network
    &&& opt_string(view.firmware_version) == opt_bounded(opt_string(facts.firmware_version))
    &&& opt_string(view.latest_firmware_version) == opt_bounded(
        opt_string(facts.latest_firmware_version),
    )
    &&& opt_string(view.hardware_revision) == opt_bounded(opt_string(facts.hardware_revision))
    &&& view.connected_since_ms == facts.connected_since
    &&& view.last_seen_ms == facts.last_seen
    &&& view.last_disconnect_ms == facts.last_disconnect
    &&& view.uptime_ms == facts.uptime
    &&& view.updating == facts.is_updating
    &&& view.rebooting == facts.is_rebooting
    &&& view.restoring == facts.is_restoring
    &&& view.downloading_firmware == facts.is_downloading_fw
    &&& view.attempting_to_connect == facts.is_attempting_to_connect
    &&& opt_string(view.video_mode) == opt_bounded(opt_string(facts.video_mode))
    &&& opt_string(view.recording_mode) == opt_bounded(opt_string(facts.recording_mode))
    &&& view.audio == audio_of(camera, facts, switches.disable_audio)
    &&& view.features is Some <==> any_feature(facts)
    &&& view.features matches Some(features) ==> shows_features(features, facts)
    &&& shows_connection(view.connection, facts)
    &&& view.local_enrichment@ == enrichment_text(local is Some, state)@
}

/// Public identity and state remain authoritative. The local record supplies
/// operational fields that the public contract does not promise.
pub fn camera_view(
    camera: ProtectCamera,
    local: Option<&ProtectLocalCamera>,
    switches: RecorderSwitches,
    state: LocalEnrichmentState,
) -> (view: CameraView)
    ensures
        shows_camera(view, camera, owned(local), switches, state),
{
    let none = absent_facts();
    let facts: &LocalCameraFacts = match local {
        Some(record) => &record.facts,
        None => &none,
    };
    let (name, shown) = camera_names(&camera, local);
    let audio = camera_audio(&camera, facts, switches.disable_audio);
    let recording_mode = bounded_option(facts.recording_mode.clone());
    let configured: Option<bool> = match &recording_mode {
        Some(mode) => recording_mode_configured(mode.as_str()),
        None => None,
    };
    CameraView {
        id: camera.id,
        guid: bounded_option(either_text(camera.guid, &facts.guid)),
        mac: bounded_option(either_text(camera.mac, &facts.mac)),
        name,
        display_name: shown.name,
        display_name_source: shown.source.to_owned(),
        product_type: bounded_option(either_text(camera.device_type, &facts.device_type)),
        hardware_model: nonblank_option(&facts.market_name),
        classes: camera_classes(facts),
        state: bounded_text(camera.state),
        recording: facts.is_recording,
        recording_configured: configured,
        recording_enabled: effective_switch(configured, switches.is_recording_disabled),
        recording_globally_disabled: switches.is_recording_disabled,
        has_recordings: facts.has_recordings,
        poor_network: facts.is_poor_network,
        firmware_version: bounded_option(facts.firmware_version.clone()),
        latest_firmware_version: bounded_option(facts.latest_firmware_version.clone()),
        hardware_revision: bounded_option(facts.hardware_revision.clone()),
        connected_since_ms: facts.connected_since,
        last_seen_ms: facts.last_seen,
        last_disconnect_ms: facts.last_disconnect,
        uptime_ms: facts.uptime,
        updating: facts.is_updating,
        rebooting: facts.is_rebooting,
        restoring: facts.is_restoring,
        downloading_firmware: facts.is_downloading_fw,
        attempting_to_connect: facts.is_attempting_to_connect,
        video_mode: bounded_option(facts.video_mode.clone()),
        recording_mode,
        audio,
        features: camera_features(facts),
        connection: camera_connection(facts),
        local_enrichment: local_enrichment_word(local, state).to_owned(),
    }
}

} // verus!
