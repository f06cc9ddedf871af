use cyberflow::json::{array_of, entry, json_str, object_of, JsonValue};

fn sample() -> JsonValue {
    object_of(vec![
        entry("name", json_str("mstsc_connect")),
        entry("arguments", object_of(vec![entry("ip", json_str("10.0.0.5"))])),
        entry("count", JsonValue::Number("3".to_string())),
        entry("name", json_str("second")),
    ])
}

#[test]
fn member_lookup() {
    let v = sample();
    assert_eq!(v.get("name"), Some(&JsonValue::Str("mstsc_connect".to_string())));
    assert_eq!(v.get("missing"), None);
    assert_eq!(v.string_field("name").map(|s| s.as_str()), Some("mstsc_connect"));
    assert_eq!(v.string_field("count"), None);
    assert_eq!(v.get("arguments").and_then(|a| a.string_field("ip")).map(|s| s.as_str()), Some("10.0.0.5"));
    assert_eq!(json_str("x").get("x"), None);
    assert_eq!(JsonValue::Null.string_field("x"), None);
}

#[test]
fn copies_are_equal() {
    let v = array_of(vec![sample(), JsonValue::Bool(true), JsonValue::Null]);
    assert_eq!(v.duplicate(), v);
    assert_eq!(json_str("a").as_str().map(|s| s.as_str()), Some("a"));
    assert_eq!(JsonValue::Bool(false).as_str(), None);
}
