use serde_json::Value;
use unifi_mcp::error::ErrorKind;
use unifi_mcp::json::{render, same};
use unifi_mcp::mutation::{
    every_persisted, plan, reject_redacted_input, verify, FieldStatus, REDACTION_MARKER,
};
use unifi_mcp::report::{encode_change, encode_outcome};
use unifi_mcp::survives_its_own_redaction;
use unifi_mcp::tree::{Json, Member};

fn json(value: &Value) -> Json {
    match value {
        Value::Null => Json::Null,
        Value::Bool(flag) => Json::Bool(*flag),
        Value::Number(number) => Json::Number(number.to_string()),
        Value::String(text) => Json::Text(text.clone()),
        Value::Array(items) => Json::Array(items.iter().map(json).collect()),
        Value::Object(map) => Json::Object(
            map.iter()
                .map(|(name, value)| Member {
                    name: name.clone(),
                    value: json(value),
                })
                .collect(),
        ),
    }
}

fn read(text: &str) -> Json {
    json(&serde_json::from_str(text).expect("valid JSON"))
}

fn fields(text: &str) -> Vec<Member> {
    match read(text) {
        Json::Object(members) => members,
        _ => panic!("object"),
    }
}

#[test]
fn a_write_echoing_a_redacted_read_is_refused_wherever_the_marker_sits() {
    for arguments in [
        format!(r#"{{"passphrase": "{REDACTION_MARKER}"}}"#),
        format!(r#"{{"nested": {{"passphrase": "{REDACTION_MARKER}"}}}}"#),
        format!(r#"{{"list": [{{"passphrase": "prefix{REDACTION_MARKER}"}}]}}"#),
    ] {
        let error = reject_redacted_input(&read(&arguments)).expect_err("marker must be refused");
        assert_eq!(error.kind, ErrorKind::InvalidParams);
        assert_eq!(
            error.message,
            "a value contains the redaction marker [redacted]; state the intended value or omit the field"
        );
    }
    reject_redacted_input(&read(r#"{"name": "redacted guests"}"#)).expect("unrelated text");
    // A property name is not a value.
    reject_redacted_input(&read(r#"{"[redacted]": 1}"#)).expect("a name");
}

#[test]
fn a_plan_lists_only_fields_that_would_move_and_hides_secret_values() {
    let current = read(r#"{"enabled": true, "ssid": "Home", "passphrase": "old"}"#);
    let changes = plan(
        &fields(r#"{"enabled": true, "ssid": "House", "passphrase": "new"}"#),
        &current,
        &vec!["passphrase".to_owned()],
    );
    assert_eq!(changes.len(), 2);
    let ssid = changes.iter().find(|c| c.field == "ssid").expect("ssid");
    assert_eq!(ssid.from.as_ref().map(render), Some("\"Home\"".to_owned()));
    assert_eq!(ssid.to.as_ref().map(render), Some("\"House\"".to_owned()));
    let rendered: Vec<String> = changes.iter().map(|c| render(&encode_change(c))).collect();
    let rendered = rendered.join(",");
    assert!(!rendered.contains("old"), "{rendered}");
    assert!(!rendered.contains("new"), "{rendered}");
}

#[test]
fn a_field_the_resource_lacks_moves_from_null() {
    let changes = plan(
        &fields(r#"{"hidden": true}"#),
        &read("{}"),
        &Vec::new(),
    );
    assert_eq!(
        render(&encode_change(&changes[0])),
        r#"{"field":"hidden","from":null,"to":true}"#
    );
}

#[test]
fn read_back_separates_persisted_from_dropped_and_coerced() {
    let before = read(r#"{"ssid": "Home", "enabled": true, "security": "open"}"#);
    // Kept the rename, ignored the disable, rewrote the security mode.
    let after = read(r#"{"ssid": "House", "enabled": true, "security": "wpapsk"}"#);
    let outcomes = verify(
        &fields(r#"{"ssid": "House", "enabled": false, "security": "wpa3"}"#),
        &before,
        &after,
        &Vec::new(),
    );
    let status = |field: &str| {
        outcomes
            .iter()
            .find(|entry| entry.field == field)
            .unwrap_or_else(|| panic!("{field} missing"))
            .status
    };
    assert_eq!(status("ssid"), FieldStatus::Persisted);
    assert_eq!(status("enabled"), FieldStatus::Dropped);
    assert_eq!(status("security"), FieldStatus::Coerced);
    assert!(!every_persisted(&outcomes));
}

#[test]
fn a_verified_secret_field_carries_its_status_and_neither_value() {
    let outcomes = verify(
        &fields(r#"{"passphrase": "new-secret"}"#),
        &read(r#"{"passphrase": "old-secret"}"#),
        &read(r#"{"passphrase": "new-secret"}"#),
        &vec!["passphrase".to_owned()],
    );
    assert_eq!(outcomes[0].status, FieldStatus::Persisted);
    assert!(every_persisted(&outcomes));
    let rendered = render(&encode_outcome(&outcomes[0]));
    assert_eq!(rendered, r#"{"field":"passphrase","status":"persisted"}"#);
}

#[test]
fn a_part_of_the_marker_survives_its_own_redaction() {
    for part in ["[redacted]", "redacted", "edact", "[", "]"] {
        assert!(survives_its_own_redaction(part), "{part}");
    }
    for other in ["", "[redacted]x", "super-secret", "Redacted"] {
        assert!(!survives_its_own_redaction(other), "{other}");
    }
}

fn object(members: &[(&str, Json)]) -> Json {
    Json::Object(
        members
            .iter()
            .map(|(name, value)| Member {
                name: (*name).to_owned(),
                value: unifi_mcp::json::copy(value),
            })
            .collect(),
    )
}

#[test]
fn equality_of_values_is_that_of_the_parsed_values() {
    let texts = [
        "null", "true", "false", "0", "-0", "0.0", "-0.0", "1", "1.0", "1e0", "10e-1", "-1", "1.5",
        "18446744073709551615", "18446744073709551616", "\"\"", "\"0\"", "[]", "[0.0]", "[-0.0]",
        "[0]", "[1, 2]", "[2, 1]", "{}", r#"{"a": 0.0}"#, r#"{"a": -0.0}"#, r#"{"a": null}"#,
        r#"{"a": 1, "b": 2}"#, r#"{"b": 2, "a": 1}"#, r#"{"a": 1, "b": 3}"#, r#"{"a": 1}"#,
    ];
    for a in texts {
        for b in texts {
            let left: Value = serde_json::from_str(a).expect("valid JSON");
            let right: Value = serde_json::from_str(b).expect("valid JSON");
            assert_eq!(same(&json(&left), &json(&right)), left == right, "{a} and {b}");
        }
    }
}

#[test]
fn the_order_of_properties_is_no_change() {
    let one = || Json::Number("1".to_owned());
    let two = || Json::Number("2".to_owned());
    let forward = object(&[("a", one()), ("b", two())]);
    let backward = object(&[("b", two()), ("a", one())]);
    assert!(same(&forward, &backward));
    assert!(!same(&forward, &object(&[("a", one())])));
    assert!(!same(&object(&[("a", one())]), &forward));
    let requested = vec![Member { name: "side".to_owned(), value: forward }];
    let current = object(&[("side", backward)]);
    assert!(plan(&requested, &current, &Vec::new()).is_empty());
    let outcomes = verify(&requested, &read("{}"), &current, &Vec::new());
    assert_eq!(outcomes[0].status, FieldStatus::Persisted);
}

#[test]
fn the_two_zeros_are_one_value() {
    let requested = fields(r#"{"gain": 0.0}"#);
    let negative = read(r#"{"gain": -0.0}"#);
    assert!(plan(&requested, &negative, &Vec::new()).is_empty());
    let outcomes = verify(&requested, &negative, &negative, &Vec::new());
    assert!(every_persisted(&outcomes));
    let whole = read(r#"{"gain": 0}"#);
    assert_eq!(plan(&requested, &whole, &Vec::new()).len(), 1);
}

#[test]
fn every_character_is_written_as_the_json_string_it_is() {
    for code in (0..0x100).chain([0x2028, 0xd7ff, 0xe000, 0x1f600]) {
        let c = char::from_u32(code).expect("a character");
        let expected = match code {
            0x08 => "\"\\b\"".to_owned(),
            0x09 => "\"\\t\"".to_owned(),
            0x0a => "\"\\n\"".to_owned(),
            0x0c => "\"\\f\"".to_owned(),
            0x0d => "\"\\r\"".to_owned(),
            0x22 => "\"\\\"\"".to_owned(),
            0x5c => "\"\\\\\"".to_owned(),
            0..=0x1f => format!("\"\\u{code:04x}\""),
            _ => format!("\"{c}\""),
        };
        assert_eq!(render(&Json::Text(c.to_string())), expected, "{code:#x}");
    }
}
