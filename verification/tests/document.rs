use schema_migrations::document::{field_patch_json, get_field_value, object_to_json, value_to_json, DocumentValue};
use schema_migrations::json::Json;

fn render(j: &Json) -> String {
    match j {
        Json::Null => "null".to_string(),
        Json::Bool(b) => b.to_string(),
        Json::Number(n) => n.clone(),
        Json::Str(s) => format!("{:?}", s),
        Json::Array(items) => format!(
            "[{}]",
            items.iter().map(render).collect::<Vec<_>>().join(",")
        ),
        Json::Object(members) => format!(
            "{{{}}}",
            members
                .iter()
                .map(|(k, v)| format!("{:?}:{}", k, render(v)))
                .collect::<Vec<_>>()
                .join(",")
        ),
    }
}

fn num(n: &str) -> Json {
    Json::Number(n.to_string())
}

fn doc() -> Vec<(String, DocumentValue)> {
    vec![
        ("name".to_string(), DocumentValue::Other(Json::Str("ada".to_string()))),
        (
            "profile".to_string(),
            DocumentValue::Object(vec![
                ("age".to_string(), DocumentValue::Other(num("36"))),
                (
                    "address".to_string(),
                    DocumentValue::Object(vec![(
                        "city".to_string(),
                        DocumentValue::Other(Json::Str("london".to_string())),
                    )]),
                ),
            ]),
        ),
        (
            "count".to_string(),
            DocumentValue::Other(Json::Object(vec![("integer".to_string(), Json::Str("AQ==".to_string()))])),
        ),
    ]
}

#[test]
fn document_json_keeps_fields_in_order() {
    assert_eq!(
        render(&object_to_json(&doc())),
        r#"{"name":"ada","profile":{"age":36,"address":{"city":"london"}},"count":{"integer":"AQ=="}}"#
    );
    assert_eq!(render(&value_to_json(&DocumentValue::Other(Json::Bool(true)))), "true");
}

#[test]
fn field_value_found_at_top_and_nested() {
    let (v, missing) = get_field_value(&doc(), "name").unwrap();
    assert_eq!((render(&v), missing), ("\"ada\"".to_string(), false));
    let (v, missing) = get_field_value(&doc(), "profile.age").unwrap();
    assert_eq!((render(&v), missing), ("36".to_string(), false));
    let (v, missing) = get_field_value(&doc(), "profile.address").unwrap();
    assert_eq!((render(&v), missing), (r#"{"city":"london"}"#.to_string(), false));
    let (v, missing) = get_field_value(&doc(), "profile.address.city").unwrap();
    assert_eq!((render(&v), missing), ("\"london\"".to_string(), false));
}

#[test]
fn field_value_missing() {
    let (v, missing) = get_field_value(&doc(), "absent").unwrap();
    assert_eq!((render(&v), missing), ("null".to_string(), true));
    let (v, missing) = get_field_value(&doc(), "profile.absent").unwrap();
    assert_eq!((render(&v), missing), ("null".to_string(), true));
    // A step through a value that is not an object finds nothing.
    let (v, missing) = get_field_value(&doc(), "name.first").unwrap();
    assert_eq!((render(&v), missing), ("null".to_string(), true));
    // A value exported as a JSON object is not a document object.
    let (v, missing) = get_field_value(&doc(), "count.integer").unwrap();
    assert_eq!((render(&v), missing), ("null".to_string(), true));
}

#[test]
fn field_value_refuses_bad_paths() {
    let err = get_field_value(&doc(), "profile..age").unwrap_err();
    assert_eq!(err.message(), "Invalid identifier \"profile..age\"");
    assert!(get_field_value(&doc(), "").is_err());
}

#[test]
fn patch_nests_value_under_field_path() {
    assert_eq!(render(&field_patch_json("value", num("2"))), r#"{"value":2}"#);
    assert_eq!(
        render(&field_patch_json("profile.address.city", Json::Str("paris".to_string()))),
        r#"{"profile":{"address":{"city":"paris"}}}"#
    );
}

#[test]
fn patch_then_lookup_finds_value() {
    // The patch placed at a path holds the value there.
    let patch = field_patch_json("a.b", num("7"));
    let as_doc = match patch {
        Json::Object(members) => members
            .into_iter()
            .map(|(k, v)| {
                let inner = match v {
                    Json::Object(m) => DocumentValue::Object(
                        m.into_iter().map(|(k2, v2)| (k2, DocumentValue::Other(v2))).collect(),
                    ),
                    other => DocumentValue::Other(other),
                };
                (k, inner)
            })
            .collect::<Vec<_>>(),
        _ => panic!("patch is an object"),
    };
    let (v, missing) = get_field_value(&as_doc, "a.b").unwrap();
    assert_eq!((render(&v), missing), ("7".to_string(), false));
}
