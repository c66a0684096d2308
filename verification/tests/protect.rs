use unifi_mcp::camera_tools::{
    camera_selector, cameras_search, cameras_status, check_cameras_search, count_states,
    protect_capabilities, protect_overview, CamerasSearchInput, CamerasSearchOutput,
};
use unifi_mcp::cameras::{
    camera_classes, recording_mode_configured, CameraFlags, CameraView, LocalCameraFacts,
    LocalEnrichmentState, ProtectCamera, ProtectCameraFeatureFlags, ProtectLocalCamera,
    WifiConnectionState, WiredConnectionState,
};
use unifi_mcp::devices::Real;
use unifi_mcp::error::ToolError;
use unifi_mcp::inventory::{
    camera_inventory, require_integration, CameraInventory, LocalReading, ProtectBootstrap,
};
use unifi_mcp::protect_events::{
    plan_protect_events, protect_events_search, require_camera_names, require_event_session,
    resolve_protect_event_query, resolve_protect_event_query_at, validate_protect_window,
    ProtectEvent, ProtectEventPage, ProtectEventsCursor, ProtectEventsInput,
    ResolvedProtectEventQuery,
};
use unifi_mcp::recorder::{
    CameraCapacity, DistributionRow, LocalNvrFacts, ProtectLocalNvr, ProtectNvr,
    ProtectStorageStats, RecordingSpace,
};

fn some(text: &str) -> Option<String> {
    Some(text.to_owned())
}

fn good<T>(result: Result<T, ToolError>) -> T {
    match result {
        Ok(value) => value,
        Err(error) => panic!("{}", error.message),
    }
}

fn refusal<T>(result: Result<T, ToolError>) -> String {
    match result {
        Ok(_) => panic!("refused"),
        Err(error) => error.message,
    }
}

fn camera(id: &str, name: Option<&str>, kind: &str, state: &str) -> ProtectCamera {
    ProtectCamera {
        id: id.to_owned(),
        guid: None,
        mac: None,
        name: name.map(str::to_owned),
        device_type: some(kind),
        state: state.to_owned(),
        is_mic_enabled: None,
        mic_volume: None,
    }
}

fn sample_cameras() -> Vec<ProtectCamera> {
    let mut front = camera("cam-front", Some("Front Door"), "G4 Doorbell", "CONNECTED");
    front.is_mic_enabled = Some(true);
    front.mic_volume = Some(80);
    vec![
        front,
        camera("cam-back", Some("Back Garden"), "G5 Bullet", "DISCONNECTED"),
        camera("cam-shed", Some("Shed"), "G5 Bullet", "CONNECTED"),
    ]
}

fn no_flags() -> CameraFlags {
    CameraFlags {
        is_doorbell: Some(false),
        is_ptz: Some(false),
        has_package_camera: Some(false),
        has_wifi: Some(false),
        has_speaker: Some(false),
        has_mic: Some(true),
        has_hdr: None,
        has_smart_detect: Some(true),
        has_led_status: None,
        can_optical_zoom: Some(false),
        has_auto_icr_only: None,
    }
}

fn facts(market_name: &str, recording: Option<bool>, mode: &str) -> LocalCameraFacts {
    LocalCameraFacts {
        guid: None,
        mac: None,
        name: None,
        device_type: None,
        market_name: some(market_name),
        firmware_version: None,
        latest_firmware_version: None,
        hardware_revision: None,
        connected_since: None,
        last_seen: None,
        last_disconnect: None,
        uptime: None,
        is_updating: None,
        is_rebooting: None,
        is_restoring: None,
        is_downloading_fw: None,
        is_attempting_to_connect: None,
        is_recording: recording,
        has_recordings: None,
        is_poor_network: None,
        video_mode: None,
        is_2k: Some(true),
        is_4k: Some(false),
        is_third_party_camera: Some(false),
        is_paired_with_ai_port: Some(false),
        is_mic_enabled: None,
        mic_volume: None,
        recording_mode: some(mode),
        feature_flags: Some(ProtectCameraFeatureFlags {
            flags: no_flags(),
            smart_detect_types: Vec::new(),
            smart_detect_audio_types: Vec::new(),
        }),
        wired_connection_state: None,
        wifi_connection_state: None,
    }
}

fn front_facts() -> LocalCameraFacts {
    let mut front = facts("G4 Doorbell Pro", Some(true), "always");
    front.name = some("Local Front Door");
    front.firmware_version = some("4.72.44");
    front.is_mic_enabled = Some(true);
    front.mic_volume = Some(80);
    let mut flags = no_flags();
    flags.is_doorbell = Some(true);
    flags.has_wifi = Some(true);
    flags.has_package_camera = Some(true);
    front.feature_flags = Some(ProtectCameraFeatureFlags {
        flags,
        smart_detect_types: (0..33).map(|i| format!("video-{i}")).collect(),
        smart_detect_audio_types: (0..33).map(|i| format!("audio-{i}")).collect(),
    });
    front.wifi_connection_state = Some(WifiConnectionState {
        signal_quality: Some(92),
        signal_strength: Some(-47),
        phy_rate: Some(Real { bits: 866.7f64.to_bits() }),
        tx_rate: None,
        channel: Some(44),
        frequency: Some(5220),
        experience: some("excellent"),
        connectivity: some("full"),
    });
    front
}

fn locals() -> Vec<ProtectLocalCamera> {
    let mut back = facts("G5 Bullet", Some(false), "detections");
    back.wired_connection_state = Some(WiredConnectionState {
        phy_rate: Some(Real { bits: 1000.0f64.to_bits() }),
    });
    vec![
        ProtectLocalCamera { id: "cam-front".to_owned(), facts: front_facts() },
        ProtectLocalCamera { id: "cam-back".to_owned(), facts: back },
        ProtectLocalCamera {
            id: "cam-shed".to_owned(),
            facts: facts("G5 Bullet", Some(true), "always"),
        },
    ]
}

fn local_nvr() -> ProtectLocalNvr {
    ProtectLocalNvr {
        id: "nvr-1".to_owned(),
        facts: LocalNvrFacts {
            guid: None,
            mac: None,
            name: some("Local Recorder"),
            device_type: some("UNVR"),
            market_name: some("Network Video Recorder Pro"),
            version: some("7.1.87"),
            ucore_version: some("4.1.13"),
            is_db_available: Some(true),
            is_recording_disabled: Some(false),
            is_recording_motion_only: Some(false),
            disable_audio: Some(false),
            is_recycling: Some(true),
            corruption_state: some("normal"),
            hard_drive_state: some("normal"),
            camera_utilization: Some(37),
            max_camera_capacity: Some(CameraCapacity {
                four_k: Some(15),
                two_k: Some(25),
                hd: Some(50),
            }),
            last_drive_slow_event: Some(1234),
            storage_stats: Some(ProtectStorageStats {
                capacity: Some(7_776_000_000),
                remaining_capacity: Some(2_592_000_000),
                utilization: Some(Real { bits: 0.66f64.to_bits() }),
                recording_space: Some(RecordingSpace {
                    total: Some(1_000_000),
                    used: Some(660_000),
                    available: Some(340_000),
                }),
                recording_types: Some(
                    (0..33)
                        .map(|i| DistributionRow {
                            category: Some(format!("type-{i}")),
                            size: Some(i),
                            percentage: None,
                        })
                        .collect(),
                ),
                resolutions: None,
            }),
        },
    }
}

fn nvr() -> ProtectNvr {
    ProtectNvr {
        id: "nvr-1".to_owned(),
        guid: None,
        mac: None,
        name: some("CloudKey"),
        device_type: some("UNVR"),
    }
}

fn bootstrap(cameras: Vec<ProtectLocalCamera>) -> LocalReading {
    LocalReading::Full(ProtectBootstrap { cameras, nvr: local_nvr() })
}

fn try_join(public: Vec<ProtectCamera>, reading: LocalReading) -> Result<CameraInventory, ToolError> {
    camera_inventory("7.1.87".to_owned(), public, reading, Some(nvr()))
}

fn join(public: Vec<ProtectCamera>, reading: LocalReading) -> CameraInventory {
    good(try_join(public, reading))
}

fn public_only() -> CameraInventory {
    join(sample_cameras(), LocalReading::NotConfigured)
}

fn enriched() -> CameraInventory {
    join(sample_cameras(), bootstrap(locals()))
}

fn search() -> CamerasSearchInput {
    CamerasSearchInput {
        query: None,
        model: None,
        class_filter: None,
        state: None,
        offset: 0,
        limit: 50,
    }
}

fn ids(output: &CamerasSearchOutput) -> Vec<&str> {
    output.cameras.iter().map(|camera| camera.id.as_str()).collect()
}

#[test]
fn cameras_search_reports_public_inventory_without_inventing_local_state() {
    let output = good(cameras_search(public_only(), &search()));
    assert_eq!(output.total, 3);
    assert_eq!(ids(&output), ["cam-back", "cam-front", "cam-shed"]);
    assert_eq!(output.cameras[0].state, "DISCONNECTED");
    assert_eq!(output.cameras[1].product_type.as_deref(), Some("G4 Doorbell"));
    assert_eq!(output.cameras[1].audio.as_ref().expect("audio").enabled, Some(true));
    assert!(output.cameras[1].recording.is_none());
    assert!(output.cameras[1].classes.is_none());
    assert!(output.cameras[1].features.is_none());
    assert!(output.capabilities.public_inventory);
    assert_eq!(output.capabilities.local_enrichment, "notConfigured");
    assert_eq!(output.capabilities.public_inventory_source, "integrationApi");
}

#[test]
fn local_bootstrap_restores_camera_filters_and_operational_state() {
    let mut input = search();
    input.model = some("doorbell");
    input.class_filter = some("doorbell");
    let output = good(cameras_search(enriched(), &input));
    assert_eq!(output.total, 1);
    let front = &output.cameras[0];
    assert_eq!(front.id, "cam-front");
    assert_eq!(front.hardware_model.as_deref(), Some("G4 Doorbell Pro"));
    assert_eq!(front.name.as_deref(), Some("Front Door"));
    assert_eq!(front.display_name_source, "publicName");
    assert!(front.classes.as_ref().expect("classes").contains(&"doorbell".to_owned()));
    assert_eq!(front.recording, Some(true));
    assert_eq!(front.recording_enabled, Some(true));
    assert_eq!(front.recording_globally_disabled, Some(false));
    assert_eq!(front.recording_mode.as_deref(), Some("always"));
    let audio = front.audio.as_ref().expect("audio");
    assert_eq!(audio.supported, Some(true));
    assert_eq!(audio.effectively_enabled, Some(true));
    let features = front.features.as_ref().expect("features");
    assert_eq!(features.two_k, Some(true));
    assert_eq!(features.smart_detect_types[0], "video-0");
    assert_eq!(features.smart_detect_types.len(), 32);
    assert_eq!(features.smart_detect_types_truncated, Some(true));
    assert_eq!(features.smart_detect_audio_types.len(), 32);
    assert_eq!(features.smart_detect_audio_types_truncated, Some(true));
    let connection = front.connection.as_ref().expect("connection");
    assert_eq!(connection.kind, "wifi");
    assert_eq!(connection.signal_quality, Some(92));
    assert_eq!(front.firmware_version.as_deref(), Some("4.72.44"));
    assert_eq!(front.local_enrichment, "available");
    assert_eq!(output.capabilities.local_enrichment, "available");
    assert_eq!(
        output.capabilities.local_inventory_source.as_deref(),
        Some("authenticatedLocalBootstrap")
    );
}

#[test]
fn cameras_search_filters_by_query_and_state() {
    let mut input = search();
    input.query = some("garden");
    let output = good(cameras_search(public_only(), &input));
    assert_eq!(output.total, 1);
    assert_eq!(ids(&output), ["cam-back"]);
    let mut input = search();
    input.state = some("connected");
    let output = good(cameras_search(public_only(), &input));
    assert_eq!(output.total, 2);
    assert_eq!(output.cameras[0].name.as_deref(), Some("Front Door"));
}

#[test]
fn a_bounded_page_names_its_continuation() {
    let mut input = search();
    input.limit = 2;
    let output = good(cameras_search(public_only(), &input));
    assert_eq!(output.cameras.len(), 2);
    assert_eq!(output.total, 3);
    assert_eq!(output.next_offset, Some(2));
    input.offset = 2;
    let output = good(cameras_search(public_only(), &input));
    assert_eq!(output.cameras.len(), 1);
    assert!(output.next_offset.is_none());
}

#[test]
fn cameras_status_selects_by_id_or_exact_name() {
    let mut cameras = sample_cameras();
    cameras[0].name = some("\u{c9}tage");
    let shed = good(cameras_status(join(cameras, LocalReading::NotConfigured), "cam-shed"));
    assert_eq!(shed.name.as_deref(), Some("Shed"));
    let mut cameras = sample_cameras();
    cameras[0].name = some("\u{c9}tage");
    let front = good(cameras_status(join(cameras, LocalReading::NotConfigured), "\u{e9}tage"));
    assert_eq!(front.id, "cam-front");
    assert_eq!(front.local_enrichment, "notConfigured");
}

#[test]
fn a_blank_public_name_keeps_a_separate_usable_local_display_name() {
    let public = vec![camera("cam-front", Some("  "), "G4", "CONNECTED")];
    let mut local = locals();
    local.truncate(1);
    let view = good(cameras_status(join(public, bootstrap(local)), "Local Front Door"));
    assert_eq!(view.name.as_deref(), Some("  "));
    assert_eq!(view.display_name, "Local Front Door");
    assert_eq!(view.display_name_source, "localName");
}

#[test]
fn a_returned_256_character_camera_name_remains_selectable() {
    let name = "\u{e9}".repeat(256);
    let public = vec![camera("cam-long-name", Some(&name), "G4", "CONNECTED")];
    let view = good(cameras_status(join(public, LocalReading::NotConfigured), &name));
    assert_eq!(view.id, "cam-long-name");
    assert!(camera_selector(&"\u{e9}".repeat(257)).is_err());
    assert!(camera_selector("  ").is_err());
}

#[test]
fn an_ambiguous_camera_name_is_refused_rather_than_resolved_by_position() {
    let public = vec![
        camera("cam-a", Some("Side"), "G4", "CONNECTED"),
        camera("cam-b", Some("Side"), "G4", "CONNECTED"),
    ];
    let message = refusal(cameras_status(join(public, LocalReading::NotConfigured), "Side"));
    assert!(message.contains("share that name"), "{message}");
    let message = refusal(cameras_status(public_only(), "nowhere"));
    assert!(message.contains("no camera"), "{message}");
}

#[test]
fn duplicate_public_camera_ids_fail_instead_of_merging_records() {
    let public = vec![
        camera("cam-a", Some("One"), "G4", "CONNECTED"),
        camera("cam-a", Some("Two"), "G4", "DISCONNECTED"),
    ];
    assert!(refusal(try_join(public, LocalReading::NotConfigured)).contains("duplicate ids"));
}

#[test]
fn public_cameras_may_share_a_physical_hardware_identity() {
    let mut public = vec![
        camera("cam-a", Some("One"), "G4", "CONNECTED"),
        camera("cam-b", Some("Two"), "G4", "CONNECTED"),
    ];
    public[0].guid = some("shared");
    public[1].guid = some("SHARED");
    assert_eq!(join(public, LocalReading::NotConfigured).cameras.len(), 2);
}

#[test]
fn protect_overview_groups_by_the_consoles_own_state_words() {
    let output = protect_overview("cameras", public_only(), nvr());
    assert_eq!(output.console, "cameras");
    assert_eq!(output.application_version, "7.1.87");
    assert_eq!(output.camera_count, 3);
    assert_eq!(output.cameras_by_state[0].state, "CONNECTED");
    assert_eq!(output.cameras_by_state[0].count, 2);
    assert_eq!(output.cameras_by_state[1].state, "DISCONNECTED");
    assert!(output.not_recording.is_none());
    assert_eq!(output.recorders[0].name.as_deref(), Some("CloudKey"));
    assert_eq!(output.recorders[0].product_type.as_deref(), Some("UNVR"));
    assert!(!output.recorders[0].enriched);
    assert_eq!(output.capabilities.local_enrichment, "notConfigured");
}

#[test]
fn protect_overview_reports_enriched_recorder_storage_and_recording_state() {
    let output = protect_overview("cameras", enriched(), nvr());
    assert_eq!(output.not_recording_count, Some(1));
    assert_eq!(output.not_recording.expect("idle")[0].id, "cam-back");
    let recorder = &output.recorders[0];
    assert_eq!(recorder.name.as_deref(), Some("CloudKey"));
    assert_eq!(recorder.hardware_model.as_deref(), Some("Network Video Recorder Pro"));
    assert_eq!(recorder.protect_version.as_deref(), Some("7.1.87"));
    assert_eq!(recorder.console_version.as_deref(), Some("4.1.13"));
    assert_eq!(recorder.database_available, Some(true));
    assert_eq!(recorder.recording_disabled, Some(false));
    assert_eq!(recorder.audio_disabled, Some(false));
    assert_eq!(recorder.max_camera_capacity.as_ref().expect("capacity").four_k, Some(15));
    let storage = recorder.storage.as_ref().expect("storage");
    let space = storage.recording_space.as_ref().expect("space");
    assert_eq!(space.available_bytes, Some(340_000));
    let rows = storage.recording_type_distribution.as_ref().expect("rows");
    assert_eq!(rows[0].category.as_deref(), Some("type-0"));
    assert_eq!(rows.len(), 32);
    assert_eq!(storage.recording_type_distribution_truncated, Some(true));
    assert!(storage.resolution_distribution.is_none());
    assert!(recorder.enriched);
}

#[test]
fn local_inventory_identity_conflicts_and_duplicates_fail_loudly() {
    let mut local = locals();
    local.push(ProtectLocalCamera { id: "cam-front".to_owned(), facts: front_facts() });
    let message = refusal(try_join(sample_cameras(), bootstrap(local)));
    assert!(message.contains("local camera inventory contains duplicate ids"), "{message}");
}

#[test]
fn logical_cameras_may_share_hardware_identity_across_sources() {
    let mut public = sample_cameras();
    let mut local = locals();
    for i in 0..2 {
        public[i].guid = some("shared-guid");
        local[i].facts.guid = some("shared-guid");
    }
    let inventory = join(public, bootstrap(local));
    assert_eq!(inventory.cameras.len(), 3);
    assert_eq!(inventory.local_state, LocalEnrichmentState::Available);
}

#[test]
fn the_same_camera_id_with_conflicting_hardware_identity_fails_loudly() {
    let mut public = sample_cameras();
    let mut local = locals();
    public[0].guid = some("public-guid");
    local[0].facts.guid = some("local-guid");
    let message = refusal(try_join(public, bootstrap(local)));
    assert!(message.contains("camera identities conflict"), "{message}");
}

#[test]
fn a_conflicting_local_recorder_cannot_supply_camera_global_state() {
    let mut other = local_nvr();
    other.id = "different-nvr".to_owned();
    let reading = LocalReading::Full(ProtectBootstrap { cameras: locals(), nvr: other });
    let message = refusal(try_join(sample_cameras(), reading));
    assert!(message.contains("recorder identities conflict"), "{message}");
}

#[test]
fn partial_local_inventory_never_turns_model_filter_into_a_false_empty_result() {
    let partial = || {
        let mut local = locals();
        local.pop();
        join(sample_cameras(), bootstrap(local))
    };
    let mut input = search();
    input.model = some("G5");
    let message = refusal(cameras_search(partial(), &input));
    assert!(message.contains("model filtering is unavailable"), "{message}");
    let output = good(cameras_search(partial(), &search()));
    assert_eq!(output.total, 3);
    assert_eq!(output.capabilities.local_enrichment, "partial");
    assert_eq!(output.cameras[2].local_enrichment, "noMatchingRecord");
}

#[test]
fn a_blank_local_market_name_is_not_complete_model_data() {
    let blank = || {
        let mut local = locals();
        local[2].facts.market_name = some("  ");
        local[2].facts.recording_mode = some("future-mode");
        join(sample_cameras(), bootstrap(local))
    };
    let mut input = search();
    input.model = some("G5");
    let message = refusal(cameras_search(blank(), &input));
    assert!(message.contains("model filtering is unavailable"), "{message}");
    let shed = good(cameras_status(blank(), "Shed"));
    assert_eq!(shed.recording_mode.as_deref(), Some("future-mode"));
    assert!(shed.recording_configured.is_none());
    assert!(shed.recording_enabled.is_none());
}

#[test]
fn recording_modes_are_recognized_or_unknown() {
    assert_eq!(recording_mode_configured("always"), Some(true));
    assert_eq!(recording_mode_configured("never"), Some(false));
    assert_eq!(recording_mode_configured("future-mode"), None);
}

#[test]
fn an_unknown_recording_flag_suppresses_the_mixed_overview_summary() {
    let mut local = locals();
    local[2].facts.is_recording = None;
    let output = protect_overview("cameras", join(sample_cameras(), bootstrap(local)), nvr());
    assert!(output.not_recording.is_none());
    assert!(output.not_recording_count.is_none());
    assert_eq!(output.camera_count, 3);
}

#[test]
fn classes_follow_explicit_flags() {
    let classes = camera_classes(&front_facts()).expect("classes");
    assert!(classes.contains(&"doorbell".to_owned()));
    let mut flagless = front_facts();
    flagless.feature_flags = None;
    assert!(!camera_classes(&flagless).unwrap_or_default().contains(&"doorbell".to_owned()));
}

#[test]
fn states_are_counted_in_the_order_of_their_words() {
    let inventory = public_only();
    let rows = count_states(&inventory.cameras);
    let shown: Vec<(&str, usize)> =
        rows.iter().map(|row| (row.state.as_str(), row.count)).collect();
    assert_eq!(shown, [("CONNECTED", 2), ("DISCONNECTED", 1)]);
}

#[test]
fn configured_local_session_reports_unavailable_when_bootstrap_cannot_be_read() {
    let output =
        good(cameras_search(join(sample_cameras(), LocalReading::Unavailable), &search()));
    assert_eq!(output.capabilities.local_enrichment, "unavailable");
    assert_eq!(output.cameras[0].local_enrichment, "unavailable");
    assert!(output.capabilities.local_unavailable_reason.is_some());
    assert!(protect_capabilities(LocalEnrichmentState::Available)
        .local_unavailable_reason
        .is_none());
}

#[test]
fn a_console_without_the_integration_api_is_refused_by_every_camera_tool() {
    let message = refusal(require_integration(None));
    assert!(message.contains("does not expose the Protect integration"), "{message}");
    assert!(message.contains("not the same as a console with no cameras"), "{message}");
    assert_eq!(good(require_integration(some("7.1.87"))), "7.1.87");
}

#[test]
fn unavailable_model_and_class_filters_fail_explicitly() {
    let nameless = || {
        join(
            vec![camera("cam-a", None, "G4", "CONNECTED")],
            LocalReading::NotConfigured,
        )
    };
    let output = good(cameras_search(nameless(), &search()));
    assert_eq!(ids(&output), ["cam-a"]);
    assert!(output.cameras[0].name.is_none());
    let mut input = search();
    input.model = some("G5");
    assert!(refusal(cameras_search(nameless(), &input)).contains("model filtering is unavailable"));
    let mut input = search();
    input.class_filter = some("doorbell");
    assert!(refusal(cameras_search(nameless(), &input)).contains("class filtering is unavailable"));
    let mut input = search();
    input.limit = 201;
    assert!(check_cameras_search(&input).is_err());
}

#[test]
fn camera_name_selection_refuses_an_extra_local_camera_namespace() {
    let extra = || {
        let mut local = locals();
        let mut only = facts("G5", None, "always");
        only.name = some("Front Door");
        local.push(ProtectLocalCamera { id: "cam-local-only".to_owned(), facts: only });
        join(sample_cameras(), bootstrap(local))
    };
    let message = refusal(cameras_status(extra(), "Front Door"));
    assert!(
        message.contains("camera name selection requires complete local Protect inventory"),
        "{message}"
    );
    let message = refusal(require_camera_names(extra().local_state));
    assert!(
        message.contains("camera name selection requires complete local Protect inventory"),
        "{message}"
    );
    // An id needs no name.
    assert_eq!(good(cameras_status(extra(), "cam-front")).id, "cam-front");
}

// ---------------------------------------------------------------------------
// Events
// ---------------------------------------------------------------------------

fn event_input() -> ProtectEventsInput {
    ProtectEventsInput {
        last_hours: None,
        start: Some(1000),
        end: Some(2000),
        camera: None,
        detection: None,
        cursor: None,
        limit: 50,
    }
}

fn event(id: &str, start: u64, camera: &str, kinds: &[&str]) -> ProtectEvent {
    ProtectEvent {
        id: id.to_owned(),
        kind: "motion".to_owned(),
        start,
        end: None,
        score: None,
        camera: some(camera),
        smart_detect_types: kinds.iter().map(|kind| (*kind).to_owned()).collect(),
    }
}

const NOW: u64 = 10_000_000_000;

fn resolve(input: ProtectEventsInput, cameras: &Vec<CameraView>) -> ResolvedProtectEventQuery {
    good(resolve_protect_event_query_at(input, cameras, NOW))
}

#[test]
fn protect_events_filters_and_continues_without_a_hidden_scan_ceiling() {
    let mut public = sample_cameras();
    public[0].name = some(" Front Door ");
    let cameras = join(public, LocalReading::NotConfigured).cameras;
    let mut input = event_input();
    input.camera = some("cam-front");
    input.detection = some("person");
    input.limit = 2;
    // An id needs no local names.
    assert!(!good(plan_protect_events(&input, &cameras)));
    let query = resolve(input, &cameras);
    assert_eq!((query.window_start, query.window_end), (1000, 2000));
    assert_eq!(query.camera_id.as_deref(), Some("cam-front"));
    let mut labels: Vec<String> = (0..20).map(|i| format!("label-{i}")).collect();
    labels[0] = "person".to_owned();
    let mut first = event("event-3", 1900, "cam-front", &[]);
    first.smart_detect_types = labels;
    let output = protect_events_search(
        query,
        &cameras,
        ProtectEventPage {
            events: vec![first, event("event-2", 1800, "cam-back", &[])],
            scanned_rows: 2,
            next_end: Some(1799),
        },
    );
    assert_eq!(output.rows.len(), 1);
    assert_eq!(output.rows[0].camera_name.as_deref(), Some(" Front Door "));
    assert_eq!(output.rows[0].detection_types.len(), 20);
    assert_eq!(output.scanned_rows, 2);
    assert!(!output.complete);
    let cursor = output.next_cursor.expect("cursor");
    assert_eq!((cursor.window_start, cursor.window_end, cursor.next_end), (1000, 2000, 1799));

    let next = ProtectEventsInput {
        start: None,
        end: None,
        cursor: Some(cursor),
        ..event_input()
    };
    let query = resolve(next, &cameras);
    assert_eq!((query.window_start, query.window_end), (1000, 2000));
    assert_eq!(query.continuation, Some(1799));
    let output = protect_events_search(
        query,
        &cameras,
        ProtectEventPage {
            events: vec![event("event-1", 1100, "cam-front", &["person"])],
            scanned_rows: 1,
            next_end: None,
        },
    );
    assert_eq!(output.rows.len(), 1);
    assert_eq!(output.rows[0].id, "event-1");
    assert_eq!(output.rows[0].detection_types, ["person"]);
    assert!(output.complete);
    assert!(output.next_cursor.is_none());
}

#[test]
fn detections_stand_newest_first_whatever_order_they_came_in() {
    let cameras = enriched().cameras;
    let output = protect_events_search(
        resolve(event_input(), &cameras),
        &cameras,
        ProtectEventPage {
            events: vec![
                event("oldest", 1100, "cam-front", &[]),
                event("newest", 1900, "cam-front", &[]),
                event("middle", 1500, "cam-front", &[]),
                event("middle-too", 1500, "cam-front", &[]),
            ],
            scanned_rows: 4,
            next_end: None,
        },
    );
    let ids: Vec<&str> = output.rows.iter().map(|row| row.id.as_str()).collect();
    assert_eq!(ids, ["newest", "middle", "middle-too", "oldest"]);
}

#[test]
fn protect_events_keep_an_empty_detection_label_list() {
    let cameras = enriched().cameras;
    let output = protect_events_search(
        resolve(event_input(), &cameras),
        &cameras,
        ProtectEventPage {
            events: vec![event("event-without-labels", 1500, "cam-front", &[])],
            scanned_rows: 1,
            next_end: None,
        },
    );
    assert_eq!(output.rows.len(), 1);
    assert!(output.rows[0].detection_types.is_empty());
}

#[test]
fn protect_events_accepts_the_local_display_name_reported_by_search() {
    let public = vec![
        camera("cam-front", None, "G4", "CONNECTED"),
        camera("cam-back", Some("Public Front"), "G4", "CONNECTED"),
        camera("cam-shed", None, "G4", "CONNECTED"),
    ];
    let mut local = locals();
    local[0].facts.name = some(" \u{c9}TAGE ");
    local[2].facts.name = some(" Public Front ");
    let cameras = join(public, bootstrap(local)).cameras;
    let mut input = event_input();
    input.camera = some(" \u{e9}tage ");
    assert!(good(plan_protect_events(&input, &cameras)));
    assert_eq!(resolve(input, &cameras).camera_id.as_deref(), Some("cam-front"));
    let mut input = event_input();
    input.camera = some("Public Front");
    let message = refusal(resolve_protect_event_query_at(input, &cameras, NOW));
    assert!(message.contains("2 cameras share that name"), "{message}");
}

#[test]
fn protect_events_refuses_name_selection_from_partial_local_inventory() {
    for state in [
        LocalEnrichmentState::Partial,
        LocalEnrichmentState::Unavailable,
        LocalEnrichmentState::NotConfigured,
    ] {
        let message = refusal(require_camera_names(state));
        assert!(
            message.contains("camera name selection requires complete local Protect inventory"),
            "{message}"
        );
    }
    good(require_camera_names(LocalEnrichmentState::Available));
}

#[test]
fn protect_events_names_missing_local_session_credentials() {
    let message = refusal(require_event_session(false));
    assert!(message.contains("no local Protect session is configured"), "{message}");
    good(require_event_session(true));
}

#[test]
fn a_window_is_ordered_and_bounded() {
    assert!(validate_protect_window(1000, 2000).is_ok());
    assert!(validate_protect_window(2000, 1000).is_err());
    let cameras = Vec::new();
    // No start: the default day ends now.
    let mut input = event_input();
    input.start = None;
    input.end = None;
    let query = resolve(input, &cameras);
    assert_eq!(query.window_end, NOW);
    assert_eq!(query.window_start, NOW - 24 * 3_600_000);
    let mut input = event_input();
    input.last_hours = Some(1);
    assert!(resolve_protect_event_query_at(input, &cameras, NOW).is_err());
    let mut input = event_input();
    input.start = None;
    input.end = None;
    input.last_hours = Some(2);
    assert_eq!(resolve(input, &cameras).window_start, NOW - 2 * 3_600_000);
}

#[test]
fn a_cursor_stands_alone() {
    let cameras = Vec::new();
    let cursor = || ProtectEventsCursor {
        window_start: 1000,
        window_end: 2000,
        next_end: 1500,
        camera_id: None,
        detection: None,
    };
    let input = ProtectEventsInput { cursor: Some(cursor()), ..event_input() };
    assert!(resolve_protect_event_query_at(input, &cameras, NOW).is_err());
    let mut outside = cursor();
    outside.next_end = 2500;
    let input = ProtectEventsInput {
        start: None,
        end: None,
        cursor: Some(outside),
        ..event_input()
    };
    assert!(resolve_protect_event_query_at(input, &cameras, NOW).is_err());
    let input = ProtectEventsInput {
        start: None,
        end: None,
        cursor: Some(cursor()),
        ..event_input()
    };
    assert_eq!(resolve(input, &cameras).continuation, Some(1500));
}

#[test]
fn an_open_window_ends_at_the_present() {
    let input = ProtectEventsInput { start: None, end: None, ..event_input() };
    let query = good(resolve_protect_event_query(input, &Vec::new()));
    // Later than the first second of 2020, and a day wide.
    assert!(query.window_end > 1_577_836_800_000);
    assert_eq!(query.window_end - query.window_start, 24 * 3_600_000);
}
