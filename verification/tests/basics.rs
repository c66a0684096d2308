use unifi_mcp::display::{
    bounded_nonblank_text, bounded_option, bounded_text, normalize_mac, sort_key,
};
use unifi_mcp::error::{ApiError, ErrorKind};
use unifi_mcp::clock::{clock_reading, current_time_ms, start_of_window};
use unifi_mcp::paging::{next_offset, take_page, trim_query, validate_filter, validate_page};
use unifi_mcp::scan::{
    begin_scan, count_probe, gather_page, page_at, Scan, ScanStep, DEVICE_INVENTORY_CEILING,
};
use unifi_mcp::site::{begin_site, begin_site_scan, keep_site, site_page, Site, SiteStep};
use unifi_mcp::system_log::{
    event_row, log_window, message, read_error, SystemLogEntity, SystemLogEntry,
    SystemLogParameters,
};
use unifi_mcp::text::{
    count_bytes, same_ignoring_ascii_case, text_contains, text_precedes, to_ascii_lowercase,
    to_decimal, trim, white_space,
};

fn some(text: &str) -> Option<String> {
    Some(text.to_owned())
}

// ---------------------------------------------------------------------------
// Text
// ---------------------------------------------------------------------------

#[test]
fn white_space_is_what_the_standard_library_calls_white_space() {
    for c in '\0'..=char::MAX {
        assert_eq!(white_space(c), c.is_whitespace(), "{c:?}");
    }
}

#[test]
fn text_operations_agree_with_the_standard_library() {
    let samples = [
        "", " ", "a", " a b ", "\u{2003}x\u{a0}", "\u{130}stanbul", "\u{c9}TAGE", "aab", "AaB",
        "\u{20ac}uro", "tab\tend\n", "aaa", "z", "\u{1f600}",
    ];
    for a in samples {
        assert_eq!(trim(a), a.trim(), "{a:?}");
        assert_eq!(to_ascii_lowercase(a), a.to_ascii_lowercase(), "{a:?}");
        assert_eq!(count_bytes(a), a.len(), "{a:?}");
        for b in samples {
            assert_eq!(text_contains(a, b), a.contains(b), "{a:?} {b:?}");
            assert_eq!(text_precedes(a, b), a < b, "{a:?} {b:?}");
            assert_eq!(
                same_ignoring_ascii_case(a, b),
                a.eq_ignore_ascii_case(b),
                "{a:?} {b:?}"
            );
        }
    }
    for n in [0, 7, 10, 99, 100, 1_000_000, u64::MAX] {
        assert_eq!(to_decimal(n), n.to_string());
    }
}

#[test]
fn filters_are_trimmed_and_compared_without_case() {
    assert_eq!(validate_filter(Some("  \u{c9}TAGE ")).expect("filter"), some("\u{e9}tage"));
    assert_eq!(validate_filter(Some("\u{130}")).expect("filter"), Some("\u{130}".to_lowercase()));
    assert_eq!(validate_filter(None).expect("absent"), None);
    for wrong in ["", "   ", "\u{2003}"] {
        let error = validate_filter(Some(wrong)).expect_err("refused");
        assert_eq!(error.message, "filters must be 1-128 characters");
    }
    assert_eq!(trim_query(&"\u{20ac}".repeat(42)).map(|text| text.len()), Some(126));
    assert_eq!(trim_query(&"\u{20ac}".repeat(43)), None);
}

#[test]
fn bounded_text_marks_a_cut() {
    assert_eq!(bounded_text("short".to_owned()), "short");
    assert_eq!(bounded_text("x".repeat(256)).chars().count(), 256);
    let cut = bounded_text("\u{e9}".repeat(257));
    assert_eq!(cut.chars().count(), 256);
    assert_eq!(cut, format!("{}\u{2026}", "\u{e9}".repeat(255)));
    assert_eq!(bounded_option(None), None);
    assert_eq!(bounded_nonblank_text("  ".to_owned()), None);
    assert_eq!(bounded_nonblank_text(" a ".to_owned()), some(" a "));
}

#[test]
fn addresses_and_names_are_compared_in_one_form() {
    assert_eq!(normalize_mac("AA:BB:CC:DD:EE:FF"), "aa:bb:cc:dd:ee:ff");
    assert_eq!(sort_key(Some("Printer")), sort_key(Some("printer")));
    assert!(text_precedes(&sort_key(Some("a")), &sort_key(Some("B"))));
}

// ---------------------------------------------------------------------------
// Pages and scans
// ---------------------------------------------------------------------------

#[test]
fn page_bounds_name_what_is_wrong() {
    assert_eq!(
        validate_page(0, 0).expect_err("limit").message,
        "limit must be between 1 and 200"
    );
    assert!(validate_page(10_001, 1).expect_err("offset").message.contains("offset"));
    assert!(validate_page(10_000, 200).is_ok());
    assert_eq!(take_page(vec![1, 2, 3, 4], 1, 2), [2, 3]);
    assert!(take_page(vec![1, 2], 5, 2).is_empty());
    assert_eq!(next_offset(9_999, 1, 20_000), Some(10_000));
}

#[test]
fn a_scan_gathers_pages_until_the_total_or_the_ceiling() {
    let mut scan: Scan<u32> = begin_scan(0, 3);
    assert_eq!(gather_page(&mut scan, vec![1, 2], 3), ScanStep::Continue);
    assert_eq!(scan.offset, 2);
    assert_eq!(gather_page(&mut scan, vec![3], 3), ScanStep::Complete);
    assert_eq!(scan.items, [1, 2, 3]);

    let mut scan: Scan<u32> = begin_scan(0, 3);
    assert_eq!(gather_page(&mut scan, vec![1, 2, 3], 9), ScanStep::Truncated);

    // An empty page ends a scan that was promised more.
    let mut scan: Scan<u32> = begin_scan(5, 3);
    assert_eq!(gather_page(&mut scan, Vec::new(), 9), ScanStep::Complete);
    assert!(scan.items.is_empty());

    let mut scan: Scan<u64> = begin_scan(0, DEVICE_INVENTORY_CEILING);
    let mut steps = 0;
    loop {
        let from = scan.offset;
        steps += 1;
        match gather_page(&mut scan, (from..from + 100).collect(), 1500) {
            ScanStep::Continue => continue,
            step => {
                assert_eq!(step, ScanStep::Truncated);
                break;
            }
        }
    }
    assert_eq!(steps, 10);
    assert_eq!(scan.items.len(), 1000);
    assert_eq!(page_at(100).offset, 100);
    assert_eq!((count_probe().offset, count_probe().limit), (0, 1));
}

fn site(id: &str, reference: Option<&str>) -> Site {
    Site {
        id: id.to_owned(),
        internal_reference: reference.map(str::to_owned),
    }
}

#[test]
fn site_resolution_scans_past_the_first_page() {
    let mut scan = begin_site_scan();
    let first = (0..100).map(|i| site(&format!("s{i}"), Some("other"))).collect();
    match site_page(&mut scan, "default", first, 150) {
        SiteStep::Fetch(request) => assert_eq!((request.offset, request.limit), (100, 100)),
        _ => panic!("another page"),
    }
    let second = vec![site("s100", None), site("target", Some("default"))];
    match site_page(&mut scan, "default", second, 150) {
        SiteStep::Found(id) => assert_eq!(id, "target"),
        _ => panic!("found"),
    }
}

#[test]
fn the_sole_site_needs_no_reference() {
    let mut scan = begin_site_scan();
    match site_page(&mut scan, "default", vec![site("only", None)], 1) {
        SiteStep::Found(id) => assert_eq!(id, "only"),
        _ => panic!("found"),
    }
    let mut scan = begin_site_scan();
    match site_page(&mut scan, "default", vec![site("a", None), site("b", None)], 2) {
        SiteStep::Refused(error) => {
            assert_eq!(error.kind, ErrorKind::Internal);
            assert_eq!(error.message, "configured site was not found on the controller");
        }
        _ => panic!("refused"),
    }
    let mut scan = begin_site_scan();
    assert!(matches!(
        site_page(&mut scan, "default", Vec::new(), 50),
        SiteStep::Refused(_)
    ));
}

#[test]
fn the_first_match_of_the_whole_catalog_is_the_site() {
    let mut scan = begin_site_scan();
    for page in 0..2 {
        let rows = (0..100).map(|i| site(&format!("s{page}-{i}"), Some("other"))).collect();
        assert!(matches!(site_page(&mut scan, "default", rows, 250), SiteStep::Fetch(_)));
    }
    let rows = vec![
        site("by-nothing", None),
        site("first", Some("default")),
        site("second", Some("default")),
    ];
    match site_page(&mut scan, "default", rows, 250) {
        SiteStep::Found(id) => assert_eq!(id, "first"),
        _ => panic!("found"),
    }
}

#[test]
fn only_a_resolved_site_is_kept_and_it_stays() {
    // Nothing is kept yet: the catalog is read from its first page.
    let first = begin_site(None);
    match &first {
        SiteStep::Fetch(request) => assert_eq!((request.offset, request.limit), (0, 100)),
        _ => panic!("a request"),
    }
    assert_eq!(keep_site(None, &first), None);
    // A refusal keeps nothing, so the next call reads again.
    let refused = site_page(&mut begin_site_scan(), "default", Vec::new(), 0);
    assert!(matches!(refused, SiteStep::Refused(_)));
    let kept = keep_site(None, &refused);
    assert_eq!(kept, None);
    assert!(matches!(begin_site(kept), SiteStep::Fetch(_)));
    // A resolved id answers every later call with no request.
    let found = site_page(&mut begin_site_scan(), "default", vec![site("s1", Some("default"))], 1);
    let kept = keep_site(None, &found);
    assert_eq!(kept.as_deref(), Some("s1"));
    match begin_site(kept.clone()) {
        SiteStep::Found(id) => assert_eq!(id, "s1"),
        _ => panic!("the kept id"),
    }
    let other = site_page(&mut begin_site_scan(), "default", vec![site("s2", Some("default"))], 1);
    assert_eq!(keep_site(kept.clone(), &other).as_deref(), Some("s1"));
    assert_eq!(keep_site(kept, &refused).as_deref(), Some("s1"));
}

#[test]
fn a_last_page_of_one_row_is_no_catalog_of_one() {
    let mut scan = begin_site_scan();
    let rows = (0..100).map(|i| site(&format!("s{i}"), Some("other"))).collect();
    assert!(matches!(site_page(&mut scan, "default", rows, 101), SiteStep::Fetch(_)));
    match site_page(&mut scan, "default", vec![site("last", None)], 101) {
        SiteStep::Refused(error) => {
            assert_eq!(error.message, "configured site was not found on the controller")
        }
        _ => panic!("refused"),
    }
}

#[test]
fn a_catalog_larger_than_the_scan_ceiling_is_refused_not_truncated() {
    let mut scan = begin_site_scan();
    let mut pages = 0;
    loop {
        let rows = (0..100).map(|i| site(&format!("s{i}"), Some("other"))).collect();
        pages += 1;
        match site_page(&mut scan, "default", rows, 1_000_000) {
            SiteStep::Fetch(_) => continue,
            SiteStep::Refused(error) => {
                assert!(error.message.contains("site-scan ceiling"), "{}", error.message);
                break;
            }
            SiteStep::Found(_) => panic!("not there"),
        }
    }
    assert_eq!(pages, 100);
}

// ---------------------------------------------------------------------------
// The clock and the system log
// ---------------------------------------------------------------------------

#[test]
fn a_window_never_starts_before_the_epoch() {
    assert_eq!(start_of_window(10 * 3_600_000, 3), 7 * 3_600_000);
    assert_eq!(start_of_window(1000, 168), 0);
    assert_eq!(clock_reading(Some(5)).expect("reading"), 5);
    assert!(clock_reading(None).is_err());
    assert!(clock_reading(Some(u128::MAX)).is_err());
    let before = std::time::SystemTime::now()
        .duration_since(std::time::UNIX_EPOCH)
        .expect("after the epoch")
        .as_millis();
    let now = u128::from(current_time_ms().expect("clock"));
    assert!(now >= before && now < before + 60_000);
    let (start, end) = log_window(24).expect("window");
    assert_eq!(end - start, 24 * 3_600_000);
}

fn entity(id: Option<&str>, name: Option<&str>) -> Option<SystemLogEntity> {
    Some(SystemLogEntity {
        id: id.map(str::to_owned),
        name: name.map(str::to_owned),
    })
}

fn entry(message_raw: &str) -> SystemLogEntry {
    SystemLogEntry {
        timestamp: Some(1),
        key: None,
        event: some("EVT"),
        message_raw: some(message_raw),
        title_raw: None,
        category: some("clients"),
        severity: some("low"),
        parameters: SystemLogParameters {
            client: entity(Some("aa:bb:cc:dd:ee:01"), Some("{WLAN}")),
            device: None,
            device_from: None,
            device_to: None,
            wlan: entity(None, Some("Guest")),
            network: None,
        },
    }
}

#[test]
fn message_substitution_is_literal_allowlisted_and_bounded() {
    let mut long = entry("{CLIENT} joined {WLAN}; {PASSWORD}");
    assert_eq!(
        message(&long).as_deref(),
        Some("{WLAN} joined Guest; {PASSWORD}")
    );
    long.parameters.client = entity(None, Some(&"\u{e9}".repeat(1000)));
    let rendered = message(&long).expect("message");
    assert_eq!(rendered.chars().count(), 256);
    assert!(rendered.ends_with('\u{2026}'));

    long.message_raw = Some(String::new());
    long.title_raw = some("{DEVICE}");
    long.parameters.device = entity(Some("device-id"), Some(""));
    assert_eq!(message(&long).as_deref(), Some("device-id"));
}

#[test]
fn an_unclosed_token_stays_as_it_is() {
    assert_eq!(message(&entry("a {CLIENT")).as_deref(), Some("a {CLIENT"));
    assert_eq!(message(&entry("{DEVICE} is gone")).as_deref(), Some("{DEVICE} is gone"));
    let mut silent = entry("");
    silent.title_raw = None;
    assert_eq!(message(&silent), None);
}

#[test]
fn a_log_entry_names_its_client_and_falls_back_to_its_event() {
    let row = event_row(entry("{WLAN}"));
    assert_eq!(row.key.as_deref(), Some("EVT"));
    assert_eq!(row.message.as_deref(), Some("Guest"));
    assert_eq!(row.category.as_deref(), Some("clients"));
    assert_eq!(row.severity.as_deref(), Some("low"));
    assert_eq!(row.client_mac.as_deref(), Some("aa:bb:cc:dd:ee:01"));
    let error = read_error(ApiError::Status { status: 404 });
    assert_eq!(
        error.message,
        "Network system-log read failed: controller returned HTTP 404"
    );
}
