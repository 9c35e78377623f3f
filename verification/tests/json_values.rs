use rmcp::json::{clone_object, JsonObject, JsonValue};
use rmcp::string_map::{key_order, same_text, KeyOrder, StringMap};

fn text(value: &str) -> JsonValue {
    JsonValue::String(value.to_string())
}

fn sample() -> serde_json::Value {
    serde_json::from_str("{\"b\":[1,-2,2.5,null],\"a\":{\"x\":true,\"\\u00e9\":\"s\"},\"\":{}}")
        .expect("JSON")
}

#[test]
fn outside_values_round_trip() {
    let value = JsonValue::from_serde(sample());
    assert_eq!(value.to_serde(), sample());
    assert_eq!(value.clone(), value);
    assert_eq!(value.to_text(), sample().to_string());
    assert_eq!(value.to_debug_text(), format!("{:?}", sample()));
}

#[test]
fn outside_values_keep_their_shape() {
    let JsonValue::Object(members) = JsonValue::from_serde(sample()) else {
        panic!("an object");
    };
    assert_eq!(members.len(), 3);
    assert_eq!(members.get(""), Some(&JsonValue::Object(StringMap::new())));
    let Some(JsonValue::Array(elements)) = members.get("b") else {
        panic!("an array");
    };
    assert_eq!(elements.len(), 4);
    assert_eq!(elements[0], JsonValue::from_u32(1));
    assert_eq!(elements[3], JsonValue::Null);
    let Some(JsonValue::Object(inner)) = members.get("a") else {
        panic!("an object");
    };
    assert_eq!(inner.get("x"), Some(&JsonValue::Bool(true)));
    assert_eq!(inner.get("\u{e9}"), Some(&text("s")));
    assert_eq!(clone_object(inner), *inner);
}

#[test]
fn texts_are_compact() {
    assert_eq!(JsonValue::Object(StringMap::new()).to_text(), "{}");
    assert_eq!(JsonValue::from_u32(4_294_967_295).to_text(), "4294967295");
    assert_eq!(text("a\"b").to_text(), "\"a\\\"b\"");
    assert_eq!(JsonValue::Null.to_debug_text(), "Null");
    assert!(text("a").is_string("a"));
    assert!(!text("a").is_string("b"));
    assert!(!JsonValue::Null.is_string("a"));
}

#[test]
fn maps_are_walked_in_byte_order() {
    let mut map: JsonObject = StringMap::default();
    for key in ["b", "a", "aa", "", "\u{e9}", "Z"] {
        assert_eq!(map.insert(key.to_string(), text(key)), None);
    }
    let keys: Vec<&str> = map.entries().iter().map(|e| e.0.as_str()).collect();
    assert_eq!(keys, vec!["", "Z", "a", "aa", "b", "\u{e9}"]);
    assert_eq!(map.insert("a".to_string(), JsonValue::Null), Some(text("a")));
    assert_eq!(map.len(), 6);
    assert_eq!(map.remove("a"), Some(JsonValue::Null));
    assert_eq!(map.remove("a"), None);
    assert_eq!(map.get("a"), None);
    assert!(!map.contains_key("a"));
    assert_eq!(map.get("aa"), Some(&text("aa")));
    assert_eq!(map.len(), 5);
    assert!(!map.is_empty());
}

#[test]
fn the_last_of_two_equal_keys_stays() {
    let map = StringMap::from_entries(vec![("k".to_string(), 1u8), ("k".to_string(), 2u8)]);
    assert_eq!(map.len(), 1);
    assert_eq!(map.get("k"), Some(&2));
    assert_eq!(map.clone(), map);
}

#[test]
fn keys_are_ordered_by_their_bytes() {
    assert!(matches!(key_order("a", "b"), KeyOrder::Before));
    assert!(matches!(key_order("b", "a"), KeyOrder::After));
    assert!(matches!(key_order("a", "aa"), KeyOrder::Before));
    assert!(matches!(key_order("\u{e9}", "\u{e9}"), KeyOrder::Same));
    assert!(same_text("x", "x"));
    assert!(!same_text("x", ""));
}
