use serde_json::Value;
use unifi_mcp::changes::{
    reject_unknown_change_fields, unrequested_changes, wire_name, WireName,
};
use unifi_mcp::display::connection_word;
use unifi_mcp::error::ErrorKind;
use unifi_mcp::firewall::{PolicyView, PortForwardView};
use unifi_mcp::json::render;
use unifi_mcp::networks::{encode_wlan_view, wlan_view, WlanConf, WlanView};
use unifi_mcp::paging::next_offset;
use unifi_mcp::policies::{
    check_policy_arguments, encode_policies_update, encode_policy_view, firewall_policies_update,
    firewall_policies_updated, firewall_policy_change_fields, parsed_record, policy_wire_names,
    project, wanted_position, whole_number, FirewallPoliciesUpdateInput, FirewallPolicyChanges, Layer,
    PolicyStep, RawProperty, Reading,
};
use unifi_mcp::port_forwards::{
    check_port_forward_arguments, encode_forward_view, encode_port_forwards_update,
    plan_port_forwards_update, port_forward_change_fields, port_forward_wire_names,
    port_forwards_update, port_forwards_updated, requested_port_forward_fields,
    PortForwardChanges, PortForwardStep, PortForwardsUpdateInput,
};
use unifi_mcp::tree::{Json, Member};
use unifi_mcp::wlans::{
    check_wlan_arguments, plan_wlans_update, requested_fields, wlan_change_fields,
    wlan_wire_names, wlans_update, wlans_updated, WlanChanges, WlanSecurity, WlanStep,
    WlansUpdateInput,
};

fn json(value: &Value) -> Json {
    match value {
        Value::Null => Json::Null,
        Value::Bool(flag) => Json::Bool(*flag),
        Value::Number(number) => Json::Number(number.to_string()),
        Value::String(text) => Json::Text(text.clone()),
        Value::Array(items) => Json::Array(items.iter().map(json).collect()),
        Value::Object(map) => Json::Object(
            map.iter()
                .map(|(name, value)| Member {
                    name: name.clone(),
                    value: json(value),
                })
                .collect(),
        ),
    }
}

fn read(text: &str) -> Json {
    json(&serde_json::from_str(text).expect("valid JSON"))
}

fn value(json: &Json) -> Value {
    serde_json::from_str(&render(json)).expect("rendered JSON")
}

fn some(text: &str) -> Option<String> {
    Some(text.to_owned())
}

fn property_names(json: &Json) -> Vec<String> {
    match json {
        Json::Object(members) => members.iter().map(|member| member.name.clone()).collect(),
        _ => panic!("object"),
    }
}

fn field_names(members: &[Member]) -> Vec<String> {
    members.iter().map(|member| member.name.clone()).collect()
}

#[test]
fn pagination_never_advertises_an_unreachable_page() {
    assert_eq!(next_offset(0, 50, 100), Some(50));
    assert_eq!(next_offset(0, 100, 100), None);
    // More rows match, but the continuation would exceed the accepted offset
    // bound, so no next page is advertised.
    assert_eq!(next_offset(10_000, 50, 20_000), None);
}

#[test]
fn an_omitted_connection_type_is_never_fabricated() {
    assert_eq!(connection_word(None), "unknown");
    assert_eq!(connection_word(Some(true)), "wired");
    assert_eq!(connection_word(Some(false)), "wireless");
}

#[test]
fn every_field_a_write_accepts_has_a_controller_property_name() {
    for (tool, accepted, wire_names) in [
        ("wlans.update", wlan_change_fields(), wlan_wire_names()),
        (
            "port_forwards.update",
            port_forward_change_fields(),
            port_forward_wire_names(),
        ),
        (
            "firewall.policies.update",
            firewall_policy_change_fields(),
            policy_wire_names(),
        ),
    ] {
        for field in &accepted {
            assert!(
                wire_name(&wire_names, field).is_some(),
                "{tool} accepts {field} with no controller property name"
            );
        }
        // The reverse, so a mapping cannot keep an entry for a field the write
        // no longer accepts.
        for entry in &wire_names {
            assert!(
                accepted.contains(&entry.field),
                "{tool} maps unaccepted {}",
                entry.field
            );
        }
    }
    assert_eq!(wire_name(&wlan_wire_names(), "hidden"), Some("hide_ssid"));
    assert_eq!(wire_name(&wlan_wire_names(), "hide_ssid"), None);
}

#[test]
fn every_write_names_its_fields_as_the_matching_read_emits_them() {
    let wlan_read = encode_wlan_view(&WlanView {
        id: "w1".to_owned(),
        ssid: None,
        enabled: None,
        security: None,
        hidden: None,
        network: None,
        passphrase: some("[redacted]"),
    });
    let wlan_write = requested_fields(&WlanChanges {
        ssid: some("Home"),
        enabled: Some(true),
        security: Some(WlanSecurity::Open),
        hidden: Some(false),
        passphrase: some("key"),
    });
    let forward_read = encode_forward_view(&PortForwardView {
        id: "f1".to_owned(),
        name: None,
        enabled: None,
        source: None,
        forward_to: None,
        forward_port: None,
        destination_port: None,
        protocol: None,
    });
    let forward_write = requested_port_forward_fields(&PortForwardChanges {
        name: some("ssh"),
        enabled: Some(true),
    });
    let policy_read = encode_policy_view(&PolicyView {
        id: "p1".to_owned(),
        name: None,
        enabled: None,
        action: None,
        index: Some(1),
        ip_protocol_scope: some("IPV4"),
        source_zone_id: some("z1"),
        source_port: some("1"),
        destination_zone_id: some("z2"),
        destination_port: some("2"),
    });
    for (write_tool, read_tool, read, write, declared) in [
        (
            "wlans.update",
            "networks.read",
            property_names(&wlan_read),
            field_names(&wlan_write),
            wlan_change_fields(),
        ),
        (
            "port_forwards.update",
            "firewall.read",
            property_names(&forward_read),
            field_names(&forward_write),
            port_forward_change_fields(),
        ),
        (
            "firewall.policies.update",
            "firewall.read",
            property_names(&policy_read),
            vec!["enabled".to_owned()],
            firewall_policy_change_fields(),
        ),
    ] {
        for field in &write {
            assert!(
                read.contains(field),
                "{write_tool} accepts {field}, which {read_tool} never emits"
            );
        }
        // The diagnostic list is what a caller is told.
        let mut declared: Vec<String> = declared.iter().map(|f| (*f).to_owned()).collect();
        declared.sort();
        let mut actual = write;
        actual.sort();
        assert_eq!(declared, actual, "{write_tool}");
    }
}

// ---------------------------------------------------------------------------
// Wireless networks
// ---------------------------------------------------------------------------

fn no_changes() -> WlanChanges {
    WlanChanges {
        ssid: None,
        enabled: None,
        security: None,
        hidden: None,
        passphrase: None,
    }
}

fn wlan_input(changes: WlanChanges, confirm: Option<bool>) -> WlansUpdateInput {
    WlansUpdateInput {
        wlan: "w1".to_owned(),
        changes,
        confirm,
    }
}

fn home(passphrase: Option<&str>) -> WlanConf {
    WlanConf {
        id: "w1".to_owned(),
        name: some("Home"),
        enabled: Some(true),
        security: some(if passphrase.is_some() { "wpapsk" } else { "open" }),
        hide_ssid: Some(false),
        networkconf_id: some("n1"),
        x_passphrase: passphrase.map(str::to_owned),
    }
}

fn preview_of(input: &WlansUpdateInput, current: &WlanConf) -> Value {
    let update = plan_wlans_update(input).expect("accepted");
    match wlans_update(input, update, current).expect("kept") {
        WlanStep::Answer(answer) => value(&answer),
        WlanStep::Send(_) => panic!("nothing was confirmed"),
    }
}

#[test]
fn write_tools_an_unconfirmed_change_describes_itself_and_writes_nothing() {
    for confirm in [None, Some(false)] {
        let mut changes = no_changes();
        changes.ssid = some("House");
        changes.enabled = Some(false);
        let result = preview_of(&wlan_input(changes, confirm), &home(Some("old-key")));
        assert_eq!(result["applied"], false);
        assert_eq!(result["wlan"], "w1");
        assert_eq!(result["ssid"], "Home");
        assert_eq!(result["changes"].as_array().expect("changes").len(), 2);
        assert_eq!(result["changes"][0]["field"], "enabled");
        assert_eq!(result["changes"][0]["from"], true);
        assert_eq!(result["changes"][0]["to"], false);
        assert_eq!(result["changes"][1]["field"], "ssid");
        assert_eq!(
            result["warnings"],
            serde_json::from_str::<Value>(
                r#"["disabling the network drops every client on it",
                    "every client must reconnect after this change"]"#
            )
            .expect("list")
        );
        assert!(result.get("fields").is_none());
        assert!(result.get("verified").is_none());
        assert!(result.get("unexpectedChanges").is_none());
    }
}

#[test]
fn a_confirmed_change_is_applied_and_verified_by_reading_it_back() {
    let mut changes = no_changes();
    changes.ssid = some("House");
    let input = wlan_input(changes, Some(true));
    let update = plan_wlans_update(&input).expect("accepted");
    let before = home(None);
    let patch = match wlans_update(&input, update, &before).expect("step") {
        WlanStep::Send(patch) => patch,
        WlanStep::Answer(_) => panic!("confirmed"),
    };
    // Only the named field is sent, under the controller's own name.
    assert_eq!(patch.name.as_deref(), Some("House"));
    assert!(patch.enabled.is_none());
    assert!(patch.security.is_none());
    assert!(patch.x_passphrase.is_none());
    assert!(patch.hide_ssid.is_none());
    let mut after = home(None);
    after.name = some("House");
    let result = wlans_updated(&input, &before, &after, vec!["name".to_owned()]).expect("kept");
    let result = value(&result);
    assert_eq!(result["applied"], true);
    assert_eq!(result["ssid"], "House");
    assert_eq!(result["verified"], true);
    assert_eq!(result["fields"][0]["status"], "persisted");
    assert_eq!(result["unexpectedChanges"].as_array().expect("list").len(), 0);
    assert!(result.get("changes").is_none());
}

#[test]
fn a_field_the_controller_discarded_reads_dropped_though_the_write_succeeded() {
    let mut changes = no_changes();
    changes.hidden = Some(true);
    let input = wlan_input(changes, Some(true));
    let result = wlans_updated(&input, &home(None), &home(None), Vec::new()).expect("kept");
    let result = value(&result);
    assert_eq!(result["fields"][0]["status"], "dropped");
    assert_eq!(result["fields"][0]["requested"], true);
    assert_eq!(result["fields"][0]["observed"], false);
    assert_eq!(result["verified"], false);
}

#[test]
fn a_property_this_server_does_not_model_cannot_be_cleared_unnoticed() {
    let mut changes = no_changes();
    changes.ssid = some("House");
    let input = wlan_input(changes, Some(true));
    let mut after = home(None);
    after.name = some("House");
    let moved = vec!["name".to_owned(), "radius_profile".to_owned()];
    let result = value(&wlans_updated(&input, &home(None), &after, moved).expect("kept"));
    assert_eq!(result["unexpectedChanges"][0], "radius_profile");
    assert_eq!(result["unexpectedChanges"].as_array().expect("list").len(), 1);
    assert_eq!(result["fields"][0]["status"], "persisted");
    assert_eq!(result["verified"], false);
}

#[test]
fn a_passphrase_change_reports_its_outcome_without_either_value() {
    let mut changes = no_changes();
    changes.passphrase = some("brand-new-key");
    let input = wlan_input(changes, Some(true));
    let before = home(Some("previous-key"));
    let after = home(Some("brand-new-key"));
    let result = wlans_updated(&input, &before, &after, vec!["x_passphrase".to_owned()])
        .expect("kept");
    let text = render(&result);
    assert!(!text.contains("brand-new-key"), "{text}");
    assert!(!text.contains("previous-key"), "{text}");
    let result = value(&result);
    assert_eq!(result["fields"][0]["field"], "passphrase");
    assert_eq!(result["fields"][0]["status"], "persisted");
    assert!(result["fields"][0].get("requested").is_none());
    assert_eq!(result["verified"], true);
}

#[test]
fn encrypting_a_network_requires_the_key_in_the_same_call() {
    for confirm in [None, Some(true)] {
        let mut changes = no_changes();
        changes.security = Some(WlanSecurity::Wpapsk);
        let error = match plan_wlans_update(&wlan_input(changes, confirm)) {
            Err(error) => error,
            Ok(_) => panic!("refused"),
        };
        assert_eq!(error.kind, ErrorKind::InvalidParams);
        assert_eq!(
            error.message,
            "setting security to wpapsk requires the passphrase in the same call, so the network is never left encrypted without a key"
        );
    }
}

#[test]
fn encryption_and_its_key_travel_in_one_request() {
    let mut changes = no_changes();
    changes.security = Some(WlanSecurity::Wpapsk);
    changes.passphrase = some("a-stated-key");
    let input = wlan_input(changes, Some(true));
    let update = plan_wlans_update(&input).expect("accepted");
    match wlans_update(&input, update, &home(None)).expect("step") {
        WlanStep::Send(patch) => {
            assert_eq!(patch.security, Some("wpapsk"));
            assert_eq!(patch.x_passphrase.as_deref(), Some("a-stated-key"));
        }
        WlanStep::Answer(_) => panic!("confirmed"),
    }
}

#[test]
fn opening_a_network_warns_that_it_loses_its_encryption() {
    let mut changes = no_changes();
    changes.security = Some(WlanSecurity::Open);
    let result = preview_of(&wlan_input(changes, None), &home(Some("key-in-use")));
    assert_eq!(
        result["warnings"],
        serde_json::from_str::<Value>(
            r#"["switching to open removes encryption from this network",
                "every client must reconnect after this change"]"#
        )
        .expect("list")
    );
    // Already open: nothing changes, so nothing is warned of.
    let mut changes = no_changes();
    changes.security = Some(WlanSecurity::Open);
    let result = preview_of(&wlan_input(changes, None), &home(None));
    assert!(result.get("warnings").is_none());
    assert_eq!(result["changes"].as_array().expect("changes").len(), 0);
}

#[test]
fn a_redacted_read_written_back_is_refused_before_any_controller_call() {
    let error = check_wlan_arguments(&read(
        r#"{"wlan": "w1", "changes": {"passphrase": "[redacted]"}, "confirm": true}"#,
    ))
    .expect_err("refused");
    assert!(error.message.contains("redaction marker"));
    check_wlan_arguments(&read(r#"{"wlan": "w1", "changes": {"ssid": "x"}}"#)).expect("accepted");
}

#[test]
fn what_a_redacted_read_shows_cannot_be_written_back() {
    let shown = wlan_view(home(Some("stored-key")), &Vec::new(), false);
    let text = format!(
        r#"{{"wlan": "w1", "changes": {{"passphrase": "{}"}}}}"#,
        shown.passphrase.expect("marker")
    );
    assert!(check_wlan_arguments(&read(&text)).is_err());
    let shown = wlan_view(home(Some("stored-key")), &Vec::new(), true);
    let text = format!(
        r#"{{"wlan": "w1", "changes": {{"passphrase": "{}"}}}}"#,
        shown.passphrase.expect("key")
    );
    assert!(check_wlan_arguments(&read(&text)).is_ok());
}

#[test]
fn a_keyless_network_cannot_be_encrypted_without_a_stated_key() {
    let mut changes = no_changes();
    changes.security = Some(WlanSecurity::Wpapsk);
    assert!(plan_wlans_update(&wlan_input(changes, Some(true))).is_err());
    let mut changes = no_changes();
    changes.security = Some(WlanSecurity::Open);
    assert!(plan_wlans_update(&wlan_input(changes, Some(true))).is_ok());
}

#[test]
fn a_change_set_naming_nothing_is_refused_before_any_controller_call() {
    let error = match plan_wlans_update(&wlan_input(no_changes(), None)) {
        Err(error) => error,
        Ok(_) => panic!("refused"),
    };
    assert_eq!(error.message, "changes names no field to change");
}

#[test]
fn a_secret_reused_as_a_visible_value_is_still_kept_out_of_the_result() {
    let mut changes = no_changes();
    changes.ssid = some("my-shared-key");
    changes.passphrase = some("my-shared-key");
    let result = preview_of(&wlan_input(changes, None), &home(Some("stored-key")));
    let text = result.to_string();
    assert!(!text.contains("my-shared-key"), "{text}");
    assert!(!text.contains("stored-key"), "{text}");
    assert_eq!(result["changes"][1]["to"], "[redacted]");
}

#[test]
fn a_misspelled_change_field_is_named_along_with_the_accepted_ones() {
    let error = check_wlan_arguments(&read(r#"{"wlan": "w1", "changes": {"hide_ssid": true}}"#))
        .expect_err("refused");
    assert_eq!(
        error.message,
        "changes does not accept hide_ssid; the accepted fields are ssid, enabled, security, hidden, passphrase"
    );
    let error = check_wlan_arguments(&read(r#"{"changes": {"vlan": 1, "ssid": "x", "key": 2}}"#))
        .expect_err("refused");
    assert!(error.message.starts_with("changes does not accept key, vlan;"));
}

#[test]
fn overlapping_secrets_leave_no_fragment_in_a_result() {
    let mut changes = no_changes();
    changes.ssid = some("abcdef");
    changes.passphrase = some("abcd");
    let result = preview_of(&wlan_input(changes, None), &home(Some("cdef")));
    assert_eq!(result["changes"][1]["to"], "[redacted]");
}

#[test]
fn a_secret_the_marker_would_reintroduce_withholds_the_result() {
    let mut changes = no_changes();
    changes.ssid = some("the redacted one");
    changes.passphrase = some("redacted");
    let input = wlan_input(changes, None);
    let update = plan_wlans_update(&input).expect("accepted");
    match wlans_update(&input, update, &home(None)) {
        Err(error) => assert!(error.message.contains("result withheld")),
        Ok(_) => panic!("withheld"),
    }
}

// ---------------------------------------------------------------------------
// Port forwards
// ---------------------------------------------------------------------------

fn ssh(enabled: bool, name: &str) -> unifi_mcp::firewall::PortForward {
    unifi_mcp::firewall::PortForward {
        id: "f1".to_owned(),
        name: some(name),
        enabled: Some(enabled),
        src: some("any"),
        fwd: some("10.0.0.5"),
        fwd_port: some("22"),
        dst_port: some("2222"),
        proto: some("tcp"),
    }
}

fn forward_input(
    name: Option<&str>,
    enabled: Option<bool>,
    confirm: Option<bool>,
) -> PortForwardsUpdateInput {
    PortForwardsUpdateInput {
        port_forward: "f1".to_owned(),
        changes: PortForwardChanges {
            name: name.map(str::to_owned),
            enabled,
        },
        confirm,
    }
}

fn forward_preview(input: &PortForwardsUpdateInput, enabled: bool) -> Value {
    let update = plan_port_forwards_update(input).expect("accepted");
    match port_forwards_update(input, update, ssh(enabled, "ssh")) {
        PortForwardStep::Answer(output) => value(&encode_port_forwards_update(&output)),
        PortForwardStep::Send(_) => panic!("nothing was confirmed"),
    }
}

#[test]
fn port_forward_update_an_unconfirmed_change_describes_itself_and_writes_nothing() {
    let result = forward_preview(&forward_input(None, Some(true), None), false);
    assert_eq!(result["applied"], false);
    assert_eq!(result["forward"]["id"], "f1");
    assert_eq!(result["forward"]["forwardTo"], "10.0.0.5");
    assert_eq!(result["forward"]["destinationPort"], "2222");
    assert_eq!(result["changes"][0]["field"], "enabled");
    assert_eq!(result["changes"][0]["from"], false);
    assert_eq!(result["changes"][0]["to"], true);
    assert!(result["warnings"][0]
        .as_str()
        .expect("warning")
        .contains("whole internet"));
}

#[test]
fn a_confirmed_change_sends_only_the_named_fields_and_reads_the_result_back() {
    let input = forward_input(None, Some(true), Some(true));
    let update = plan_port_forwards_update(&input).expect("accepted");
    match port_forwards_update(&input, update, ssh(false, "ssh")) {
        PortForwardStep::Send(patch) => {
            assert!(patch.name.is_none());
            assert_eq!(patch.enabled, Some(true));
        }
        PortForwardStep::Answer(_) => panic!("confirmed"),
    }
    let output = port_forwards_updated(
        &input,
        &ssh(false, "ssh"),
        ssh(true, "ssh"),
        vec!["enabled".to_owned()],
    );
    let result = value(&encode_port_forwards_update(&output));
    assert_eq!(result["applied"], true);
    assert_eq!(result["verified"], true);
    assert_eq!(result["forward"]["enabled"], true);
}

#[test]
fn a_confirmed_rename_verifies_instead_of_reporting_itself_as_collateral() {
    let input = forward_input(Some("bastion"), None, Some(true));
    let output = port_forwards_updated(
        &input,
        &ssh(true, "ssh"),
        ssh(true, "bastion"),
        vec!["name".to_owned()],
    );
    assert_eq!(output.report.verified, Some(true));
    assert_eq!(output.report.unexpected_changes, Some(Vec::new()));
    assert!(output.report.warnings.is_empty());
}

#[test]
fn a_property_that_moved_without_being_asked_for_is_named() {
    let input = forward_input(None, Some(true), Some(true));
    let output = port_forwards_updated(
        &input,
        &ssh(false, "ssh"),
        ssh(true, "ssh"),
        vec!["enabled".to_owned(), "fwd".to_owned()],
    );
    assert_eq!(output.report.unexpected_changes, Some(vec!["fwd".to_owned()]));
    assert_eq!(output.report.verified, Some(false));
}

#[test]
fn disabling_a_rule_says_what_stops_working() {
    let result = forward_preview(&forward_input(None, Some(false), None), true);
    assert!(result["warnings"][0]
        .as_str()
        .expect("warning")
        .contains("stops forwarding"));
    // Already disabled: nothing stops.
    let result = forward_preview(&forward_input(None, Some(false), None), false);
    assert!(result.get("warnings").is_none());
}

#[test]
fn port_forward_update_a_request_that_changes_nothing_is_refused_before_any_controller_call() {
    let error = match plan_port_forwards_update(&forward_input(None, None, Some(true))) {
        Err(error) => error,
        Ok(_) => panic!("refused"),
    };
    assert_eq!(error.message, "changes names no field to change");
    let error = check_port_forward_arguments(&read(r#"{"changes": {"fwd": "10.0.0.9"}}"#))
        .expect_err("refused");
    assert_eq!(
        error.message,
        "changes does not accept fwd; the accepted fields are name, enabled"
    );
}

#[test]
fn a_name_carrying_the_redaction_marker_is_refused_before_any_controller_call() {
    let error =
        check_port_forward_arguments(&read(r#"{"changes": {"name": "web [redacted]"}}"#))
            .expect_err("refused");
    assert!(error.message.contains("redaction marker"));
}

// ---------------------------------------------------------------------------
// Policies
// ---------------------------------------------------------------------------

fn raw(properties: &[(&str, &str)]) -> Vec<RawProperty> {
    properties
        .iter()
        .map(|(name, text)| RawProperty {
            name: (*name).to_owned(),
            text: (*text).to_owned(),
        })
        .collect()
}

fn blocking(enabled: &str) -> Vec<RawProperty> {
    raw(&[
        ("action", "\"BLOCK\""),
        ("destination", r#"{"zoneId":"z2","port":"443"}"#),
        ("enabled", enabled),
        ("id", "\"p1\""),
        ("index", "2001"),
        ("ipProtocolScope", "\"IPV4\""),
        ("name", "\"Block IoT\""),
        ("schedule", r#"{"mode":"ALWAYS","weight":1.10}"#),
        ("source", r#"{"zoneId":"z1","list":[1]}"#),
    ])
}

fn policy_input(enabled: Option<bool>, confirm: Option<bool>) -> FirewallPoliciesUpdateInput {
    FirewallPoliciesUpdateInput {
        policy: "asked".to_owned(),
        changes: FirewallPolicyChanges { enabled },
        confirm,
    }
}

fn policy_preview(record: &Vec<RawProperty>, wanted: bool) -> Value {
    match firewall_policies_update(&policy_input(Some(wanted), None), wanted, record) {
        PolicyStep::Answer(output) => value(&encode_policies_update(&output)),
        PolicyStep::Send(_) => panic!("nothing was confirmed"),
    }
}

#[test]
fn firewall_policy_update_an_unconfirmed_change_describes_itself_and_writes_nothing() {
    let result = policy_preview(&blocking("true"), false);
    assert_eq!(result["applied"], false);
    assert_eq!(result["policy"]["id"], "p1");
    assert_eq!(result["policy"]["name"], "Block IoT");
    assert_eq!(result["policy"]["enabled"], true);
    assert_eq!(result["policy"]["action"], "BLOCK");
    assert_eq!(result["policy"]["index"], 2001);
    assert_eq!(result["policy"]["ipProtocolScope"], "IPV4");
    assert_eq!(result["policy"]["sourceZoneId"], "z1");
    assert!(result["policy"].get("sourcePort").is_none());
    assert_eq!(result["policy"]["destinationZoneId"], "z2");
    assert_eq!(result["policy"]["destinationPort"], "443");
    assert_eq!(result["changes"][0]["field"], "enabled");
    assert_eq!(result["changes"][0]["from"], true);
    assert_eq!(result["changes"][0]["to"], false);
}

#[test]
fn the_whole_policy_is_resent_with_only_the_switch_altered() {
    let record = blocking("true");
    match firewall_policies_update(&policy_input(Some(false), Some(true)), false, &record) {
        PolicyStep::Send(sent) => {
            assert_eq!(sent.len(), record.len());
            for (sent, held) in sent.iter().zip(&record) {
                assert_eq!(sent.name, held.name);
                if sent.name == "enabled" {
                    assert_eq!(sent.text, "false");
                } else {
                    assert_eq!(sent.text, held.text);
                }
            }
        }
        PolicyStep::Answer(_) => panic!("confirmed"),
    }
}

#[test]
fn a_property_no_value_model_represents_exactly_is_resent_unchanged() {
    let record = raw(&[
        ("big", "12345678901234567890123.000"),
        ("enabled", "false"),
        ("odd", "not json"),
        ("spaced", r#"{ "a" :  1 }"#),
    ]);
    match firewall_policies_update(&policy_input(Some(true), Some(true)), true, &record) {
        PolicyStep::Send(sent) => {
            let texts: Vec<&str> = sent.iter().map(|property| property.text.as_str()).collect();
            assert_eq!(
                texts,
                ["12345678901234567890123.000", "true", "not json", r#"{ "a" :  1 }"#]
            );
        }
        PolicyStep::Answer(_) => panic!("confirmed"),
    }
}

#[test]
fn a_policy_without_a_switch_gets_one_in_its_place() {
    let record = raw(&[("action", "\"ALLOW\""), ("id", "\"p\"")]);
    match firewall_policies_update(&policy_input(Some(true), Some(true)), true, &record) {
        PolicyStep::Send(sent) => {
            let names: Vec<&str> = sent.iter().map(|property| property.name.as_str()).collect();
            assert_eq!(names, ["action", "enabled", "id"]);
            assert_eq!(sent[1].text, "true");
        }
        PolicyStep::Answer(_) => panic!("confirmed"),
    }
}

#[test]
fn a_switch_the_controller_discarded_is_reported_as_dropped() {
    let input = policy_input(Some(false), Some(true));
    let output = firewall_policies_updated(
        &input,
        false,
        &blocking("true"),
        &blocking("true"),
        Vec::new(),
    );
    let result = value(&encode_policies_update(&output));
    assert_eq!(result["applied"], true);
    assert_eq!(result["fields"][0]["status"], "dropped");
    assert_eq!(result["verified"], false);
}

#[test]
fn a_property_the_controller_moved_on_its_own_is_named() {
    let input = policy_input(Some(false), Some(true));
    let output = firewall_policies_updated(
        &input,
        false,
        &blocking("true"),
        &blocking("false"),
        vec!["enabled".to_owned(), "index".to_owned()],
    );
    assert_eq!(output.policy.enabled, Some(false));
    assert_eq!(output.report.unexpected_changes, Some(vec!["index".to_owned()]));
    assert_eq!(output.report.verified, Some(false));
    let clean = firewall_policies_updated(
        &input,
        false,
        &blocking("true"),
        &blocking("false"),
        vec!["enabled".to_owned()],
    );
    assert_eq!(clean.report.verified, Some(true));
}

#[test]
fn the_preview_says_which_direction_the_change_moves_traffic() {
    for (action, wanted, part) in [
        ("\"BLOCK\"", false, "stops this policy from blocking"),
        ("\"Reject\"", true, "enabling it blocks whatever"),
        ("\"drop\"", true, "enabling it blocks whatever"),
        ("\"ALLOW\"", false, "withdraws this policy's allowance"),
        ("\"accept\"", true, "enabling it allows whatever"),
    ] {
        let held = if wanted { "false" } else { "true" };
        let record = raw(&[("action", action), ("enabled", held)]);
        let result = policy_preview(&record, wanted);
        let warning = result["warnings"][0].as_str().expect("warning");
        assert!(warning.contains(part), "{action}: {warning}");
        assert!(result["warnings"][1]
            .as_str()
            .expect("note")
            .contains("resends the whole policy"));
        // The record states no id, so the one asked for is shown.
        assert_eq!(result["policy"]["id"], "asked");
    }
}

#[test]
fn an_action_this_server_does_not_recognize_states_no_direction() {
    for action in ["\"QUARANTINE\"", "7", "null", "{\"type\":\"BLOCK\"}"] {
        let record = raw(&[("action", action), ("enabled", "true")]);
        let result = policy_preview(&record, false);
        let warning = result["warnings"][0].as_str().expect("warning");
        assert!(warning.contains("could not be stated"), "{action}: {warning}");
    }
}

#[test]
fn confirming_a_change_the_policy_already_holds_sends_nothing() {
    let record = blocking("true");
    match firewall_policies_update(&policy_input(Some(true), Some(true)), true, &record) {
        PolicyStep::Answer(output) => {
            let result = value(&encode_policies_update(&output));
            assert_eq!(result["applied"], false);
            assert_eq!(result["changes"].as_array().expect("changes").len(), 0);
            assert_eq!(
                result["warnings"][0],
                "the policy already holds that value, so nothing was sent"
            );
        }
        PolicyStep::Send(_) => panic!("nothing to send"),
    }
    let result = policy_preview(&record, true);
    assert!(result.get("warnings").is_none());
}

#[test]
fn firewall_policy_update_a_request_that_changes_nothing_is_refused_before_any_controller_call() {
    let error = wanted_position(&policy_input(None, Some(true))).expect_err("refused");
    assert_eq!(error.message, "changes names no field to change");
    assert_eq!(wanted_position(&policy_input(Some(true), None)).expect("wanted"), true);
    let error =
        check_policy_arguments(&read(r#"{"changes": {"action": "ALLOW"}}"#)).expect_err("refused");
    assert_eq!(
        error.message,
        "changes does not accept action; the accepted fields are enabled"
    );
}

#[test]
fn an_index_beyond_the_model_is_absent() {
    for (text, shown) in [
        ("4294967295", Some(4_294_967_295)),
        ("4294967296", None),
        ("-1", None),
        ("1.0", None),
        ("\"1\"", None),
    ] {
        let record = raw(&[("index", text)]);
        match firewall_policies_update(&policy_input(Some(true), None), true, &record) {
            PolicyStep::Answer(output) => assert_eq!(output.policy.index, shown, "{text}"),
            PolicyStep::Send(_) => panic!("nothing was confirmed"),
        }
    }
}

#[test]
fn a_record_is_read_one_value_at_a_time() {
    let record = parsed_record(&raw(&[
        ("flag", " true "),
        ("text", r#""a\u0062""#),
        ("number", "18446744073709551615"),
        ("large", "18446744073709551616"),
        ("nothing", "null"),
        ("list", "[1]"),
        ("side", r#"{"zone_id": "z1", "port": 80, "inner": {"a": "b"}}"#),
        ("broken", "{"),
    ]));
    let names: Vec<&str> = record.iter().map(|property| property.name.as_str()).collect();
    assert_eq!(names, ["flag", "text", "number", "large", "nothing", "list", "side"]);
    assert!(matches!(&record[0].reading, Reading::Flag(true)));
    assert!(matches!(&record[1].reading, Reading::Text(text) if text == "ab"));
    assert!(matches!(&record[2].reading, Reading::Number(Some(u64::MAX))));
    assert!(matches!(&record[3].reading, Reading::Number(None)));
    assert!(matches!(&record[4].reading, Reading::Other));
    assert!(matches!(&record[5].reading, Reading::Other));
    match &record[6].reading {
        Reading::Object(sides) => {
            let read: Vec<(&str, Option<&str>)> =
                sides.iter().map(|side| (side.name.as_str(), side.text.as_deref())).collect();
            assert_eq!(read, [("inner", None), ("port", None), ("zone_id", Some("z1"))]);
        }
        _ => panic!("an object"),
    }
}

#[test]
fn a_layer_is_projected_to_what_the_views_show() {
    assert!(matches!(project(Layer::Null), Reading::Other));
    assert!(matches!(project(Layer::Array(vec!["1".to_owned()])), Reading::Other));
    assert!(matches!(project(Layer::Flag(false)), Reading::Flag(false)));
    assert!(matches!(project(Layer::Number("7".to_owned())), Reading::Number(Some(7))));
    assert!(matches!(project(Layer::Number("7.0".to_owned())), Reading::Number(None)));
    assert_eq!(whole_number("00012"), Some(12));
    assert_eq!(whole_number(""), None);
    assert_eq!(whole_number("-1"), None);
    assert_eq!(whole_number("18446744073709551615"), Some(u64::MAX));
    assert_eq!(whole_number("18446744073709551616"), None);
}

// ---------------------------------------------------------------------------
// Shared
// ---------------------------------------------------------------------------

#[test]
fn a_change_set_that_is_no_object_is_left_to_the_schema() {
    let accepted = vec!["enabled"];
    for text in ["{}", r#"{"changes": 7}"#, r#"{"changes": null}"#, "[]"] {
        reject_unknown_change_fields(&read(text), &accepted).expect("left alone");
    }
}

#[test]
fn what_moved_less_what_was_asked_for_is_collateral() {
    let names = vec![
        WireName { field: "hidden", property: "hide_ssid" },
        WireName { field: "ssid", property: "name" },
    ];
    let requested = vec![Member {
        name: "hidden".to_owned(),
        value: Json::Bool(true),
    }];
    let moved = vec!["hide_ssid".to_owned(), "name".to_owned(), "x".to_owned()];
    assert_eq!(
        unrequested_changes(moved, &requested, &names),
        ["name".to_owned(), "x".to_owned()]
    );
}
