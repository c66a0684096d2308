use serde_json::Value;
use unifi_mcp::error::ErrorKind;
use unifi_mcp::json::{get, render};
use unifi_mcp::redaction::{
    finalize, scrub_text, text_discloses, trust_annotated, within_budget, ToolResult,
    MAXIMUM_RESULT_BYTES, TRUST_ANNOTATIONS_KEY,
};
use unifi_mcp::tree::{Json, Member};
use unifi_mcp::ToolBehavior;

fn json(value: &Value) -> Json {
    match value {
        Value::Null => Json::Null,
        Value::Bool(flag) => Json::Bool(*flag),
        Value::Number(number) => Json::Number(number.to_string()),
        Value::String(text) => Json::Text(text.clone()),
        Value::Array(items) => Json::Array(items.iter().map(json).collect()),
        Value::Object(map) => Json::Object(
            map.iter()
                .map(|(name, value)| Member {
                    name: name.clone(),
                    value: json(value),
                })
                .collect(),
        ),
    }
}

fn structured(value: Json) -> ToolResult {
    ToolResult {
        structured_content: Some(value),
        meta: Vec::new(),
    }
}

fn read(text: &str) -> ToolResult {
    structured(json(&serde_json::from_str(text).expect("valid JSON")))
}

fn content(result: &ToolResult) -> &Json {
    result.structured_content.as_ref().expect("structured")
}

fn text_of(result: &ToolResult, name: &str) -> String {
    match get(content(result), name) {
        Some(Json::Text(text)) => text.clone(),
        _ => panic!("{name} is no text"),
    }
}

fn secrets(list: &[&str]) -> Vec<String> {
    list.iter().map(|secret| (*secret).to_owned()).collect()
}

#[test]
fn over_budget_results_return_the_recovery_error_not_a_dump() {
    // The budget applies to the final scrubbed form, so a result that grows
    // past the ceiling during redaction is still refused.
    let rows = vec!["x".repeat(1024); MAXIMUM_RESULT_BYTES / 1024 + 2];
    let oversized = structured(Json::Array(rows.into_iter().map(Json::Text).collect()));
    let error = match finalize(oversized, &Vec::new(), ToolBehavior::read()) {
        Err(error) => error,
        Ok(_) => panic!("over budget"),
    };
    assert!(error.message.contains("narrow the query"));
    let small = structured(Json::Array(vec![Json::Text("small".to_owned())]));
    assert!(finalize(small, &Vec::new(), ToolBehavior::read()).is_ok());
}

#[test]
fn the_budget_is_a_ceiling_on_bytes() {
    // Two quotes and the text.
    let fits = structured(Json::Text("x".repeat(MAXIMUM_RESULT_BYTES - 2)));
    assert!(finalize(fits, &Vec::new(), ToolBehavior::read()).is_ok());
    let over = structured(Json::Text("x".repeat(MAXIMUM_RESULT_BYTES - 1)));
    assert!(finalize(over, &Vec::new(), ToolBehavior::read()).is_err());
    // Three bytes each.
    let wide = structured(Json::Text("\u{20ac}".repeat(MAXIMUM_RESULT_BYTES / 2)));
    assert!(finalize(wide, &Vec::new(), ToolBehavior::read()).is_err());
    // A result that cannot be produced again is returned whatever its size.
    let minted = structured(Json::Text("x".repeat(MAXIMUM_RESULT_BYTES * 2)));
    let behavior = ToolBehavior::write(false).result_irreplaceable();
    assert!(finalize(minted, &Vec::new(), behavior).is_ok());
}

#[test]
fn surviving_credentials_withhold_the_result_fail_closed() {
    // A credential that is a substring of the redaction marker survives
    // replacement; the independent verification must withhold the result.
    let survivor = secrets(&["edacted"]);
    let reflected = read(r#"{"version": "9.x+edacted"}"#);
    let error = match finalize(reflected, &survivor, ToolBehavior::read()) {
        Err(error) => error,
        Ok(_) => panic!("withheld result"),
    };
    assert!(error.message.contains("result withheld"));
    assert_eq!(error.kind, ErrorKind::Internal);
    // An ordinary reflected credential is scrubbed and the result kept.
    let ordinary = secrets(&["super-secret-key"]);
    let scrubbed = read(r#"{"version": "9.x+super-secret-key"}"#);
    let kept = finalize(scrubbed, &ordinary, ToolBehavior::read()).expect("kept result");
    assert_eq!(text_of(&kept, "version"), "9.x+[redacted]");
}

#[test]
fn a_substitution_that_composes_another_secret_resolves_without_withholding() {
    for (list, text) in [
        (secrets(&["X", "[redacted]Y"]), "XY"),
        (secrets(&["[redacted]A"]), "[redacted]AAAAAAAAAA"),
    ] {
        let result = read(&format!(r#"{{"code": "{text}"}}"#));
        let kept = finalize(result, &list, ToolBehavior::read()).expect("kept result");
        let code = text_of(&kept, "code");
        for secret in &list {
            assert!(!code.contains(secret.as_str()), "{code}");
        }
    }
}

#[test]
fn a_credential_spelling_a_property_name_does_not_withhold_the_result() {
    let list = secrets(&["allIdentified"]);
    let result = read(r#"{"allIdentified": true, "code": "1234567890"}"#);
    let kept = finalize(result, &list, ToolBehavior::read()).expect("kept result");
    assert_eq!(
        render(content(&kept)),
        r#"{"allIdentified":true,"code":"1234567890"}"#
    );
}

#[test]
fn results_carry_the_declared_trust_labels() {
    let result = read(r#"{"ok": true}"#);
    let annotated = trust_annotated(result, ToolBehavior::read());
    let meta = Json::Object(annotated.meta);
    let trust = get(&meta, TRUST_ANNOTATIONS_KEY).expect("trust labels");
    assert_eq!(render(trust), r#"{"sensitive":false,"untrusted":true}"#);
    let labeled = trust_annotated(
        read("{}"),
        ToolBehavior::write(true).result_sensitive(),
    );
    assert_eq!(
        render(&labeled.meta[0].value),
        r#"{"sensitive":true,"untrusted":true}"#
    );
}

#[test]
fn a_result_without_content_is_labeled_only() {
    let bare = ToolResult {
        structured_content: None,
        meta: Vec::new(),
    };
    let done = finalize(bare, &secrets(&["edacted"]), ToolBehavior::read()).expect("kept");
    assert!(done.structured_content.is_none());
    assert_eq!(done.meta.len(), 1);
    assert_eq!(done.meta[0].name, TRUST_ANNOTATIONS_KEY);
}

#[test]
fn overlapping_occurrences_leave_no_fragment() {
    let list = secrets(&["abcd", "cdef"]);
    assert_eq!(scrub_text("xabcdefx", &list), Some("x[redacted]x".to_owned()));
    // A longer secret that holds a shorter one is replaced whole.
    let list = secrets(&["key", "key-long"]);
    assert_eq!(scrub_text("a key-long b key c", &list), Some("a [redacted] b [redacted] c".to_owned()));
    // Runs that only touch stay two.
    let list = secrets(&["ab"]);
    assert_eq!(scrub_text("abab", &list), Some("[redacted][redacted]".to_owned()));
    // An occurrence that overlaps itself is one run.
    let list = secrets(&["aa"]);
    assert_eq!(scrub_text("aaa", &list), Some("[redacted]".to_owned()));
    assert_eq!(scrub_text("nothing here", &list), None);
}

#[test]
fn an_empty_secret_matches_nothing() {
    let list = secrets(&[""]);
    assert!(!text_discloses("anything", &list));
    assert_eq!(scrub_text("anything", &list), None);
}

#[test]
fn scrubbing_keeps_the_shape_and_every_other_value() {
    let list = secrets(&["hush"]);
    let result = read(r#"{"a": ["hush", 1, null, {"b": "say hush twice: hush"}], "c": 1.50}"#);
    let kept = finalize(result, &list, ToolBehavior::read()).expect("kept");
    assert_eq!(
        render(content(&kept)),
        r#"{"a":["[redacted]",1,null,{"b":"say [redacted] twice: [redacted]"}],"c":1.5}"#
    );
}

#[test]
fn rendering_writes_what_serde_json_writes() {
    for text in [
        r#"{"a":[1,2,{"b":null}],"c":"quote \" slash \\ tab \t bell \u0007 euro €"}"#,
        r#"[]"#,
        r#"{}"#,
        r#"[true,false,null,-1,0.25,18446744073709551615]"#,
        r#""""#,
    ] {
        let value: Value = serde_json::from_str(text).expect("valid JSON");
        assert_eq!(render(&json(&value)), serde_json::to_string(&value).expect("text"));
    }
}

#[test]
fn a_result_is_refused_only_over_the_budget_and_where_it_can_be_asked_for_again() {
    let value = || Json::Bool(true);
    assert!(within_budget(value(), MAXIMUM_RESULT_BYTES, ToolBehavior::read()).is_ok());
    match within_budget(value(), MAXIMUM_RESULT_BYTES + 1, ToolBehavior::read()) {
        Err(error) => {
            assert_eq!(error.kind, ErrorKind::InvalidParams);
            assert_eq!(
                error.message,
                "result exceeds the response budget; narrow the query or lower the limit"
            );
        }
        Ok(_) => panic!("over budget"),
    }
    let minted = ToolBehavior::write(false).result_irreplaceable();
    assert!(within_budget(value(), usize::MAX, minted).is_ok());
}
