use serde_json::Value;
use unifi_mcp::json::{get, remove_field, render, set_field};
use unifi_mcp::schema::{is_writable, normalize_portable_schema};
use unifi_mcp::tree::{Json, Member};

fn json(value: &Value) -> Json {
    match value {
        Value::Null => Json::Null,
        Value::Bool(flag) => Json::Bool(*flag),
        Value::Number(number) => Json::Number(number.to_string()),
        Value::String(text) => Json::Text(text.clone()),
        Value::Array(items) => Json::Array(items.iter().map(json).collect()),
        Value::Object(map) => Json::Object(
            map.iter()
                .map(|(name, value)| Member {
                    name: name.clone(),
                    value: json(value),
                })
                .collect(),
        ),
    }
}

fn read(text: &str) -> Value {
    serde_json::from_str(text).expect("valid JSON")
}

fn portable_under(raw: &Value, keyword: Option<&str>) -> Value {
    let mut schema = json(raw);
    assert!(is_writable(&schema));
    normalize_portable_schema(&mut schema, keyword);
    read(&render(&schema))
}

fn portable(raw: &Value) -> Value {
    portable_under(raw, None)
}

fn validates(schema: &Value, instance: &Value) -> bool {
    jsonschema::validator_for(schema)
        .expect("published schema compiles")
        .is_valid(instance)
}

#[test]
fn portable_schemas_preserve_free_form_and_nullable_value_domains() {
    for raw in [Value::Bool(true), Value::Bool(false)] {
        let portable = portable(&raw);
        for instance in ["null", "true", "7", "\"value\"", "[1, 2]", r#"{"nested": true}"#] {
            let instance = read(instance);
            assert_eq!(
                validates(&raw, &instance),
                validates(&portable, &instance),
                "boolean schema normalization changed the value domain for {instance}"
            );
        }
    }

    let raw = read(r#"{"type": ["string", "null"], "anyOf": [{"maxLength": 3}]}"#);
    let split = portable(&raw);
    for instance in ["null", "\"ok\"", "\"long\"", "7", "{}"] {
        let instance = read(instance);
        assert_eq!(
            validates(&raw, &instance),
            validates(&split, &instance),
            "type-union normalization changed the value domain for {instance}"
        );
    }
    assert!(split.get("type").is_none());
    assert!(split["allOf"][0]["anyOf"].is_array());

    // The schema of a field outcome: `requested` and `observed` are free-form.
    let raw_outcome = read(
        r##"{
            "type": "object",
            "properties": {
                "field": {"type": "string"},
                "status": {"$ref": "#/$defs/FieldStatus"},
                "requested": true,
                "observed": true
            },
            "required": ["field", "status"],
            "$defs": {
                "FieldStatus": {
                    "oneOf": [
                        {"type": "string", "const": "persisted"},
                        {"type": "string", "const": "dropped"},
                        {"type": "string", "const": "coerced"}
                    ]
                }
            }
        }"##,
    );
    let portable_outcome = portable(&raw_outcome);
    for requested in [
        None,
        Some("null"),
        Some("false"),
        Some("42"),
        Some("\"ssid\""),
        Some("[1, 2]"),
        Some(r#"{"nested": true}"#),
    ] {
        let mut instance = read(r#"{"field": "ssid", "status": "persisted"}"#);
        if let Some(requested) = requested {
            instance["requested"] = read(requested);
        }
        assert!(validates(&raw_outcome, &instance), "{instance}");
        assert!(validates(&portable_outcome, &instance), "{instance}");
    }

    // The schema of a search input: every filter is nullable.
    let clients_search = portable(&read(
        r#"{
            "type": "object",
            "properties": {
                "query": {"type": ["string", "null"]},
                "limit": {"type": "integer", "format": "uint16", "minimum": 0, "maximum": 65535}
            },
            "additionalProperties": false
        }"#,
    ));
    assert!(validates(&clients_search, &read("{}")));
    assert!(validates(&clients_search, &read(r#"{"query": null}"#)));
    assert!(validates(&clients_search, &read(r#"{"query": "access point"}"#)));
    assert!(!validates(&clients_search, &read(r#"{"query": 7}"#)));
    assert_eq!(clients_search["additionalProperties"], false);
}

#[test]
fn a_boolean_schema_stays_where_clients_take_one() {
    for keyword in [
        "additionalProperties",
        "unevaluatedProperties",
        "additionalItems",
        "unevaluatedItems",
    ] {
        assert_eq!(portable_under(&Value::Bool(false), Some(keyword)), Value::Bool(false));
    }
    assert_eq!(
        portable_under(&Value::Bool(false), Some("items")),
        read(r#"{"not": {}}"#)
    );
    assert_eq!(
        portable(&Value::Bool(true)),
        read(
            r#"{"anyOf": [{"type": "null"}, {"type": "boolean"}, {"type": "object"},
                {"type": "array"}, {"type": "number"}, {"type": "string"}, {"type": "integer"}]}"#
        )
    );
}

#[test]
fn a_union_becomes_alternatives_in_order() {
    assert_eq!(
        portable(&read(r#"{"type": ["integer", "null"], "minimum": 0}"#)),
        read(r#"{"anyOf": [{"type": "integer"}, {"type": "null"}], "minimum": 0}"#)
    );
    assert_eq!(
        portable(&read(
            r#"{"type": ["string"], "anyOf": [true], "allOf": [{"minLength": 1}]}"#
        ))["allOf"],
        read(r#"[{"minLength": 1}, {"anyOf": [{"type": "string"}]}]"#)
    );
}

#[test]
fn what_is_no_union_of_types_stays() {
    for text in [
        r#"{"type": "string"}"#,
        r#"{"type": []}"#,
        r#"{"type": ["string", "string"]}"#,
        r#"{"type": ["string", "date"]}"#,
        r#"{"type": ["string", 7]}"#,
        r#"{"const": true}"#,
        r#"7"#,
    ] {
        assert_eq!(portable(&read(text)), read(text), "{text}");
    }
}

#[test]
fn subschemas_are_reached_under_every_keyword() {
    for (text, at) in [
        (r#"{"$defs": {"a": {"type": ["null"]}}}"#, "/$defs/a/anyOf/0/type"),
        (r#"{"properties": {"a": {"type": ["null"]}}}"#, "/properties/a/anyOf/0/type"),
        (r#"{"dependencies": {"a": {"type": ["null"]}}}"#, "/dependencies/a/anyOf/0/type"),
        (r#"{"oneOf": [{"type": ["null"]}]}"#, "/oneOf/0/anyOf/0/type"),
        (r#"{"prefixItems": [{"type": ["null"]}]}"#, "/prefixItems/0/anyOf/0/type"),
        (r#"{"items": [{"type": ["null"]}]}"#, "/items/0/anyOf/0/type"),
        (r#"{"items": {"type": ["null"]}}"#, "/items/anyOf/0/type"),
        (r#"{"not": {"type": ["null"]}}"#, "/not/anyOf/0/type"),
        (r#"{"if": {"then": {"type": ["null"]}}}"#, "/if/then/anyOf/0/type"),
        (
            r#"{"additionalProperties": {"type": ["null"]}}"#,
            "/additionalProperties/anyOf/0/type",
        ),
    ] {
        let value = portable(&read(text));
        assert_eq!(value.pointer(at), Some(&Value::String("null".to_owned())), "{value}");
    }
    // A keyword that holds no schema is left alone.
    let text = r#"{"default": {"type": ["null"]}, "examples": [true]}"#;
    assert_eq!(portable(&read(text)), read(text));
}

#[test]
fn a_portable_schema_is_a_fixed_point() {
    let once = portable(&read(
        r#"{"type": ["object", "null"], "properties": {"a": true, "b": {"type": ["string", "null"],
            "anyOf": [false]}}, "items": [true, false], "additionalProperties": true}"#,
    ));
    assert_eq!(portable(&once), once);
}

#[test]
fn an_all_of_that_is_no_list_takes_no_condition() {
    let odd = json(&read(r#"{"type": ["string"], "anyOf": [true], "allOf": {}}"#));
    assert!(!is_writable(&odd));
    let nested = json(&read(
        r#"{"properties": {"a": {"type": ["string"], "anyOf": [true], "allOf": 7}}}"#,
    ));
    assert!(!is_writable(&nested));
    let unread = json(&read(r#"{"default": {"type": ["string"], "anyOf": [], "allOf": 7}}"#));
    assert!(is_writable(&unread));
}

#[test]
fn properties_are_set_and_removed_in_the_order_of_their_names() {
    let mut members = Vec::new();
    for (name, number) in [("m", "1"), ("b", "2"), ("z", "3"), ("a", "4"), ("m", "5")] {
        set_field(&mut members, name, Json::Number(number.to_owned()));
    }
    let object = Json::Object(members);
    assert_eq!(render(&object), r#"{"a":4,"b":2,"m":5,"z":3}"#);
    assert_eq!(get(&object, "m").map(render), Some("5".to_owned()));
    assert!(get(&object, "n").is_none());
    let mut members = match object {
        Json::Object(members) => members,
        _ => panic!("object"),
    };
    remove_field(&mut members, "b");
    remove_field(&mut members, "nothing");
    assert_eq!(render(&Json::Object(members)), r#"{"a":4,"m":5,"z":3}"#);
}

#[test]
fn keywords_that_go_by_their_neighbours_keep_their_values() {
    let schemas = [
        r#"{"type": ["object", "null"], "properties": {"a": {"type": ["string", "null"]}},
            "patternProperties": {"^x": true}, "additionalProperties": false}"#,
        r#"{"type": ["object", "array"], "anyOf": [{"properties": {"a": true}}, {"minItems": 1}],
            "unevaluatedProperties": false}"#,
        r#"{"if": {"type": ["object", "null"]}, "then": {"required": ["a"]}, "else": false}"#,
        r#"{"prefixItems": [{"type": ["string", "null"]}], "items": false}"#,
        r#"{"contains": {"type": ["integer", "null"]}, "minContains": 2}"#,
        r#"{"oneOf": [{"type": ["integer", "null"]}, {"type": ["number", "null"]}]}"#,
        r#"{"propertyNames": {"type": ["string", "null"], "maxLength": 1}}"#,
        r#"{"dependentSchemas": {"a": {"type": ["null", "string"]}}}"#,
        r#"{"not": {"type": ["string", "null"]}}"#,
    ];
    let instances = [
        "null", "7", "1.5", "\"b\"", "[]", "[null]", "[null, 1]", "[\"s\", 2]", "{}",
        r#"{"a": null}"#, r#"{"a": 1}"#, r#"{"a": "s", "xy": 2}"#, r#"{"b": 1}"#,
    ];
    for schema in schemas {
        let raw = read(schema);
        let split = portable(&raw);
        assert_ne!(raw, split, "{schema}");
        for instance in instances {
            let instance = read(instance);
            assert_eq!(
                validates(&raw, &instance),
                validates(&split, &instance),
                "{schema} on {instance}"
            );
        }
    }
}
