use goose_providers::complete::ensure_valid_json_schema;
use goose_providers::json::JsonValue;
use goose_providers::tool_schema::{
    normalize_responses_tool_schemas, normalize_schema_for_compatible_provider,
    validate_tool_schemas,
};

fn s(v: &str) -> JsonValue {
    JsonValue::Str(v.to_string())
}

fn obj(pairs: Vec<(&str, JsonValue)>) -> JsonValue {
    JsonValue::Obj(pairs.into_iter().map(|(k, v)| (k.to_string(), v)).collect())
}

fn arr(items: Vec<JsonValue>) -> JsonValue {
    JsonValue::Arr(items)
}

fn get<'a>(v: &'a JsonValue, key: &str) -> Option<&'a JsonValue> {
    v.get(key)
}

#[test]
fn test_normalize_responses_tool_schemas_inlines_defs_and_nullable_types() {
    let mut tools = vec![obj(vec![
        ("type", s("function")),
        ("name", s("test")),
        (
            "parameters",
            obj(vec![
                (
                    "$schema",
                    s("https://json-schema.org/draft/2020-12/schema"),
                ),
                ("title", s("Root")),
                ("type", s("object")),
                (
                    "properties",
                    obj(vec![
                        ("extension_name", obj(vec![("type", arr(vec![s("string"), s("null")]))])),
                        ("action", obj(vec![("$ref", s("#/$defs/ManageExtensionAction"))])),
                    ]),
                ),
                (
                    "$defs",
                    obj(vec![(
                        "ManageExtensionAction",
                        obj(vec![
                            ("type", s("string")),
                            ("enum", arr(vec![s("enable"), s("disable")])),
                        ]),
                    )]),
                ),
                ("required", arr(vec![s("action")])),
            ]),
        ),
    ])];

    normalize_responses_tool_schemas(&mut tools);

    let params = get(&tools[0], "parameters").unwrap();
    assert!(get(params, "$schema").is_none());
    assert!(get(params, "title").is_none());
    assert!(get(params, "$defs").is_none());
    let props = get(params, "properties").unwrap();
    let ext = get(props, "extension_name").unwrap();
    assert_eq!(get(ext, "type").unwrap(), &s("string"));
    let action = get(props, "action").unwrap();
    assert_eq!(get(action, "type").unwrap(), &s("string"));
    assert_eq!(
        get(action, "enum").unwrap(),
        &arr(vec![s("enable"), s("disable")])
    );
}

#[test]
fn test_validate_tool_schemas_adds_missing_object_fields() {
    let mut actual = vec![obj(vec![
        ("type", s("function")),
        (
            "function",
            obj(vec![
                ("name", s("test_func")),
                ("description", s("test description")),
                ("parameters", obj(vec![("type", s("object"))])),
            ]),
        ),
    ])];

    validate_tool_schemas(&mut actual);
    let function = get(&actual[0], "function").unwrap();
    let params = get(function, "parameters").unwrap();
    assert_eq!(get(params, "type").unwrap(), &s("object"));
    assert_eq!(get(params, "properties").unwrap(), &obj(vec![]));
    assert_eq!(get(params, "required").unwrap(), &arr(vec![]));
}

#[test]
fn normalize_is_idempotent_on_sample() {
    let make = || {
        obj(vec![
            ("type", s("object")),
            (
                "properties",
                obj(vec![
                    ("a", obj(vec![("type", arr(vec![s("integer"), s("null")]))])),
                    ("b", obj(vec![("$ref", s("#/$defs/B")), ("title", s("B ref"))])),
                ]),
            ),
            ("$defs", obj(vec![("B", obj(vec![("type", s("boolean"))]))])),
        ])
    };
    let mut once = make();
    normalize_schema_for_compatible_provider(&mut once);
    let mut twice = make();
    normalize_schema_for_compatible_provider(&mut twice);
    normalize_schema_for_compatible_provider(&mut twice);
    assert_eq!(once, twice);
}

#[test]
fn complete_is_idempotent_on_sample() {
    let make = || {
        obj(vec![
            ("description", s("outer")),
            (
                "properties",
                obj(vec![(
                    "inner",
                    obj(vec![("type", s("object")), ("description", s("inner"))]),
                )]),
            ),
        ])
    };
    let mut once = make();
    ensure_valid_json_schema(&mut once);
    let mut twice = make();
    ensure_valid_json_schema(&mut twice);
    ensure_valid_json_schema(&mut twice);
    assert_eq!(once, twice);
}

#[test]
fn nullable_string_union_collapses_to_string() {
    let mut schema = obj(vec![("type", arr(vec![s("string"), s("null")]))]);
    normalize_schema_for_compatible_provider(&mut schema);
    assert_eq!(get(&schema, "type").unwrap(), &s("string"));
}

#[test]
fn null_only_and_empty_unions_fall_back_to_string() {
    let mut null_only = obj(vec![("type", arr(vec![s("null")]))]);
    normalize_schema_for_compatible_provider(&mut null_only);
    assert_eq!(get(&null_only, "type").unwrap(), &s("string"));

    let mut empty = obj(vec![("type", arr(vec![]))]);
    normalize_schema_for_compatible_provider(&mut empty);
    assert_eq!(get(&empty, "type").unwrap(), &s("string"));
}

#[test]
fn multi_type_union_keeps_first_name() {
    let mut schema = obj(vec![("type", arr(vec![s("integer"), s("string")]))]);
    normalize_schema_for_compatible_provider(&mut schema);
    assert_eq!(get(&schema, "type").unwrap(), &s("integer"));
}

#[test]
fn unresolvable_ref_survives_the_pass() {
    let mut schema = obj(vec![
        ("type", s("object")),
        ("properties", obj(vec![("p", obj(vec![("$ref", s("#/$defs/Missing"))]))])),
    ]);
    normalize_schema_for_compatible_provider(&mut schema);
    let p = get(get(&schema, "properties").unwrap(), "p").unwrap();
    assert_eq!(get(p, "$ref").unwrap(), &s("#/$defs/Missing"));
}

#[test]
fn defs_are_inlined_and_dropped_everywhere() {
    let mut schema = obj(vec![
        ("type", s("object")),
        (
            "properties",
            obj(vec![("p", obj(vec![("$ref", s("#/$defs/Foo"))]))]),
        ),
        (
            "$defs",
            obj(vec![(
                "Foo",
                obj(vec![("type", s("string")), ("enum", arr(vec![s("a"), s("b")]))]),
            )]),
        ),
    ]);
    normalize_schema_for_compatible_provider(&mut schema);
    assert!(get(&schema, "$defs").is_none());
    let p = get(get(&schema, "properties").unwrap(), "p").unwrap();
    assert_eq!(
        p,
        &obj(vec![("type", s("string")), ("enum", arr(vec![s("a"), s("b")]))])
    );
    assert!(get(p, "$defs").is_none());
}

#[test]
fn completion_inserts_without_altering_siblings() {
    let mut schema = obj(vec![("type", s("object")), ("description", s("kept"))]);
    ensure_valid_json_schema(&mut schema);
    assert_eq!(
        schema,
        obj(vec![
            ("type", s("object")),
            ("description", s("kept")),
            ("properties", obj(vec![])),
            ("required", arr(vec![])),
        ])
    );
}

#[test]
fn completion_defaults_absent_type_to_object() {
    let mut schema = obj(vec![]);
    ensure_valid_json_schema(&mut schema);
    assert_eq!(
        schema,
        obj(vec![
            ("properties", obj(vec![])),
            ("required", arr(vec![])),
            ("type", s("object")),
        ])
    );
}

#[test]
fn completion_leaves_non_object_properties_untouched() {
    let mut schema = obj(vec![
        ("type", s("object")),
        (
            "properties",
            obj(vec![("n", obj(vec![("type", s("integer"))]))]),
        ),
    ]);
    ensure_valid_json_schema(&mut schema);
    let n = get(get(&schema, "properties").unwrap(), "n").unwrap();
    assert_eq!(n, &obj(vec![("type", s("integer"))]));
}

#[test]
fn end_to_end_normalize_then_complete() {
    let mut schema = obj(vec![
        ("type", s("object")),
        (
            "properties",
            obj(vec![("x", obj(vec![("type", arr(vec![s("integer"), s("null")]))]))]),
        ),
        ("$defs", obj(vec![])),
    ]);
    normalize_schema_for_compatible_provider(&mut schema);
    ensure_valid_json_schema(&mut schema);
    assert_eq!(
        schema,
        obj(vec![
            ("type", s("object")),
            (
                "properties",
                obj(vec![("x", obj(vec![("type", s("integer"))]))]),
            ),
            ("required", arr(vec![])),
        ])
    );
}

#[test]
fn scalars_and_arrays_are_not_schemas() {
    let mut scalar = s("just a string");
    normalize_schema_for_compatible_provider(&mut scalar);
    assert_eq!(scalar, s("just a string"));

    let mut sequence = arr(vec![obj(vec![("title", s("kept"))])]);
    normalize_schema_for_compatible_provider(&mut sequence);
    assert_eq!(sequence, arr(vec![obj(vec![("title", s("kept"))])]));
}
