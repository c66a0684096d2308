use unifi_mcp::mutation::REDACTION_MARKER;
use unifi_mcp::vouchers::{
    voucher_batch, voucher_checks, vouchers_create, vouchers_created, CreatedVoucher, VoucherStep,
    VoucherView, VouchersCreateInput, VouchersCreateOutput,
};

const PASSWORD: &str = "fixture-password";

fn some(text: &str) -> Option<String> {
    Some(text.to_owned())
}

fn input(name: &str, count: u32, minutes: u32, confirm: Option<bool>) -> VouchersCreateInput {
    VouchersCreateInput {
        name: name.to_owned(),
        count,
        time_limit_minutes: minutes,
        guest_limit: Some(3),
        data_limit_megabytes: Some(512),
        confirm,
    }
}

fn minted(codes: &[&str]) -> Vec<CreatedVoucher> {
    codes
        .iter()
        .enumerate()
        .map(|(index, code)| CreatedVoucher {
            id: Some(format!("voucher-{index}")),
            code: some(code),
        })
        .collect()
}

fn settle(count: u32, created: Vec<CreatedVoucher>) -> VouchersCreateOutput {
    let input = input("guests", count, 60, Some(true));
    let batch = voucher_batch(&input).unwrap_or_else(|_| panic!("batch"));
    vouchers_created(&input, batch, created, &vec![PASSWORD.to_owned()])
}

fn codes(output: &VouchersCreateOutput) -> Vec<&str> {
    output
        .vouchers
        .as_ref()
        .expect("vouchers")
        .iter()
        .map(|voucher| voucher.code.as_str())
        .collect()
}

#[test]
fn an_unconfirmed_call_describes_the_batch_and_mints_nothing() {
    for confirm in [None, Some(false)] {
        match vouchers_create(&input("  guests ", 5, 1440, confirm)) {
            Ok(VoucherStep::Answer(output)) => {
                assert!(!output.applied);
                assert_eq!(output.requested, 5);
                assert!(output.vouchers.is_none());
                assert!(output.checks.is_none());
                assert!(output.well_formed.is_none());
                assert_eq!(output.batch.name, "guests");
                assert_eq!(output.batch.count, 5);
                assert_eq!(output.batch.time_limit_minutes, 1440);
                assert_eq!(output.batch.guest_limit, Some(3));
                assert_eq!(output.batch.data_limit_megabytes, Some(512));
                let warnings = output.warnings.join(" ");
                assert!(warnings.contains("only copy"));
                assert!(warnings.contains("credential"));
            }
            _ => panic!("a description"),
        }
    }
}

#[test]
fn a_confirmed_call_sends_the_batch_and_returns_every_code() {
    match vouchers_create(&input("guests", 3, 1440, Some(true))) {
        Ok(VoucherStep::Mint(order)) => {
            assert_eq!(order.name, "guests");
            assert_eq!(order.count, 3);
            assert_eq!(order.time_limit_minutes, 1440);
            assert_eq!(order.authorized_guest_limit, Some(3));
            assert_eq!(order.data_usage_limit_m_bytes, Some(512));
        }
        _ => panic!("an order"),
    }
    let output = settle(3, minted(&["1234567890", "2345678901", "3456789012"]));
    assert!(output.applied);
    assert_eq!(output.well_formed, Some(true));
    assert_eq!(codes(&output), ["1234567890", "2345678901", "3456789012"]);
    let checks = output.checks.expect("checks");
    assert!(checks.count_matches);
    assert_eq!(checks.code_lengths, [10]);
    assert_eq!(output.warnings.len(), 2);
}

#[test]
fn a_batch_that_fails_a_check_still_returns_its_codes() {
    for (label, list) in [
        ("count", vec!["1234567890", "2345678901"]),
        ("distinct", vec!["1234567890", "1234567890", "3456789012"]),
        ("formed", vec!["1234567890", "2345 78901", "3456789012"]),
        ("identified", vec!["1234567890", "", "3456789012"]),
    ] {
        let output = settle(3, minted(&list));
        assert_eq!(output.well_formed, Some(false), "{label}");
        assert_eq!(codes(&output), list, "{label}");
        let checks = output.checks.expect("checks");
        let failed = match label {
            "count" => checks.count_matches,
            "distinct" => checks.all_distinct,
            "formed" => checks.all_well_formed,
            _ => checks.all_identified,
        };
        assert!(!failed, "{label}");
    }
}

#[test]
fn a_row_the_controller_did_not_identify_still_yields_its_code() {
    let output = settle(
        2,
        vec![
            CreatedVoucher { id: some("voucher-0"), code: some("1234567890") },
            CreatedVoucher { id: None, code: some("2345678901") },
        ],
    );
    assert_eq!(codes(&output), ["1234567890", "2345678901"]);
    assert!(output.vouchers.expect("vouchers")[1].id.is_none());
    assert!(!output.checks.expect("checks").all_identified);
}

#[test]
fn a_voucher_without_a_code_keeps_its_row() {
    let output = settle(1, vec![CreatedVoucher { id: some("v"), code: None }]);
    assert_eq!(codes(&output), [""]);
    let checks = output.checks.expect("checks");
    assert!(!checks.all_identified);
    assert!(!checks.all_well_formed);
    assert_eq!(checks.code_lengths, [0]);
}

#[test]
fn a_voucher_whose_id_was_redacted_is_not_described_as_recoverable() {
    let output = settle(
        1,
        vec![CreatedVoucher {
            id: Some(format!("v-{PASSWORD}-1")),
            code: some(PASSWORD),
        }],
    );
    assert_eq!(codes(&output), [REDACTION_MARKER]);
    assert!(output.warnings[2].contains("can be neither used nor found"));
    assert!(output.vouchers.expect("vouchers")[0].id.is_none());
    assert!(!output.checks.expect("checks").all_identified);
}

#[test]
fn a_code_the_credential_scrub_rewrote_is_reported_rather_than_passed_off() {
    let output = settle(2, minted(&["1234567890", PASSWORD]));
    assert_eq!(codes(&output), ["1234567890", "[redacted]"]);
    assert_eq!(output.well_formed, Some(false));
    assert_eq!(output.warnings.len(), 3);
    assert!(output.warnings[2].contains("configured credential material"));
    assert!(output.warnings[2].contains("revoke it on the controller"));
    assert!(!output.checks.expect("checks").all_well_formed);
    assert_eq!(
        output.vouchers.expect("vouchers")[1].id.as_deref(),
        Some("voucher-1")
    );
}

#[test]
fn a_batch_that_cannot_be_satisfied_is_refused_before_it_is_minted() {
    let long = "g".repeat(129);
    let wide = "\u{20ac}".repeat(43);
    for (name, count, minutes, expected) in [
        ("g", 0, 60, "count must be between 1 and 100"),
        ("g", 101, 60, "count must be between 1 and 100"),
        ("g", 1, 0, "timeLimitMinutes must be between 1 and 10080"),
        ("g", 1, 10081, "timeLimitMinutes must be between 1 and 10080"),
        ("   ", 1, 60, "name must be 1-128 UTF-8 bytes once trimmed"),
        (long.as_str(), 1, 60, "name must be 1-128 UTF-8 bytes once trimmed"),
        (wide.as_str(), 1, 60, "name must be 1-128 UTF-8 bytes once trimmed"),
    ] {
        for confirm in [None, Some(true)] {
            match vouchers_create(&input(name, count, minutes, confirm)) {
                Err(error) => assert_eq!(error.message, expected),
                Ok(_) => panic!("{expected}"),
            }
        }
    }
    assert!(vouchers_create(&input(&"g".repeat(128), 100, 10080, None)).is_ok());
}

fn view(id: Option<&str>, code: &str) -> VoucherView {
    VoucherView { id: id.map(str::to_owned), code: code.to_owned() }
}

#[test]
fn lengths_are_listed_once_in_order() {
    let vouchers = vec![
        view(Some("a"), "12345"),
        view(Some("b"), "1"),
        view(Some("c"), "54321"),
        view(Some("d"), "\u{20ac}\u{20ac}"),
    ];
    let checks = voucher_checks(4, &vouchers);
    assert_eq!(checks.code_lengths, [1, 2, 5]);
    assert!(checks.count_matches && checks.all_identified && checks.all_distinct);
    assert!(checks.all_well_formed);
}

#[test]
fn a_code_is_well_formed_up_to_its_ceiling() {
    assert!(voucher_checks(1, &vec![view(Some("a"), &"1".repeat(64))]).all_well_formed);
    assert!(!voucher_checks(1, &vec![view(Some("a"), &"1".repeat(65))]).all_well_formed);
    assert!(!voucher_checks(1, &vec![view(Some("a"), "12\u{2003}34")]).all_well_formed);
    assert!(!voucher_checks(1, &vec![view(Some("a"), "12[redacted]")]).all_well_formed);
    assert!(!voucher_checks(1, &vec![view(Some(""), "1234")]).all_identified);
    assert!(voucher_checks(0, &Vec::new()).count_matches);
}
