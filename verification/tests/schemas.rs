use std::any::TypeId;
use std::borrow::Cow;
use std::collections::BTreeMap;
use std::sync::Arc;

use rmcp::handler::server::common::{schema_for_empty_input, schema_for_output, schema_for_type};
use rmcp::handler::server::schema::{
    check_output_schema, replace_bool_subschemas, root_schema, try_schema_for_output,
    try_schema_for_type, SchemaCache,
};
use rmcp::json::{JsonObject, JsonValue};
use rmcp::string_map::StringMap;
use schemars::{JsonSchema, Schema, SchemaGenerator};

fn type_schema<T: JsonSchema + 'static>(cache: &mut SchemaCache) -> Arc<JsonObject> {
    schema_for_type(cache, TypeId::of::<T>(), |g: SchemaGenerator| g.into_root_schema_for::<T>())
}

fn output_schema<T: JsonSchema + 'static>(
    cache: &mut SchemaCache,
) -> Result<Arc<JsonObject>, String> {
    schema_for_output(cache, TypeId::of::<T>(), |g: SchemaGenerator| g.into_root_schema_for::<T>())
}

fn text(value: &str) -> JsonValue {
    JsonValue::String(value.to_string())
}

fn members(entries: Vec<(&str, JsonValue)>) -> JsonObject {
    StringMap::from_entries(entries.into_iter().map(|(k, v)| (k.to_string(), v)).collect())
}

fn object(entries: Vec<(&str, JsonValue)>) -> JsonValue {
    JsonValue::Object(members(entries))
}

fn schema_of(value: JsonValue) -> Schema {
    Schema::try_from(value.to_serde()).expect("a schema")
}

/// The schema of a struct with the given fields, all of them required.
fn struct_schema(fields: Vec<(&str, Schema)>) -> Schema {
    let mut properties = serde_json::Map::new();
    let mut required: Vec<serde_json::Value> = Vec::new();
    for (name, schema) in fields {
        properties.insert(name.to_string(), schema.to_value());
        required.push(serde_json::Value::String(name.to_string()));
    }
    let mut root = serde_json::Map::new();
    root.insert("type".to_string(), serde_json::Value::String("object".to_string()));
    root.insert("properties".to_string(), serde_json::Value::Object(properties));
    root.insert("required".to_string(), serde_json::Value::Array(required));
    Schema::from(root)
}

struct TestObject;

impl JsonSchema for TestObject {
    fn schema_name() -> Cow<'static, str> {
        Cow::Borrowed("TestObject")
    }

    fn json_schema(generator: &mut SchemaGenerator) -> Schema {
        let value = generator.subschema_for::<i32>();
        struct_schema(vec![("value", value)])
    }
}

struct AnotherTestObject;

impl JsonSchema for AnotherTestObject {
    fn schema_name() -> Cow<'static, str> {
        Cow::Borrowed("AnotherTestObject")
    }

    fn json_schema(generator: &mut SchemaGenerator) -> Schema {
        let value = generator.subschema_for::<i32>();
        struct_schema(vec![("value", value)])
    }
}

#[test]
fn test_schema_for_type_handles_primitive() {
    let mut cache = SchemaCache::new();
    let schema = type_schema::<i32>(&mut cache);

    assert_eq!(schema.get("type"), Some(&text("integer")));
}

#[test]
fn test_schema_for_type_handles_array() {
    let mut cache = SchemaCache::new();
    let schema = type_schema::<Vec<i32>>(&mut cache);

    assert_eq!(schema.get("type"), Some(&text("array")));
    let items = as_object(schema.get("items"));
    assert_eq!(items.unwrap().get("type"), Some(&text("integer")));
}

#[test]
fn test_schema_for_type_handles_struct() {
    let mut cache = SchemaCache::new();
    let schema = type_schema::<TestObject>(&mut cache);

    assert_eq!(schema.get("type"), Some(&text("object")));
    let properties = as_object(schema.get("properties"));
    assert!(properties.unwrap().contains_key("value"));
}

#[test]
fn test_schema_for_type_caches_primitive_types() {
    let mut cache = SchemaCache::new();
    let schema1 = type_schema::<i32>(&mut cache);
    let schema2 = type_schema::<i32>(&mut cache);

    assert!(Arc::ptr_eq(&schema1, &schema2));
}

#[test]
fn test_schema_for_type_caches_struct_types() {
    let mut cache = SchemaCache::new();
    let schema1 = type_schema::<TestObject>(&mut cache);
    let schema2 = type_schema::<TestObject>(&mut cache);

    assert!(Arc::ptr_eq(&schema1, &schema2));
}

#[test]
fn test_schema_for_type_different_types_different_schemas() {
    let mut cache = SchemaCache::new();
    let schema1 = type_schema::<TestObject>(&mut cache);
    let schema2 = type_schema::<AnotherTestObject>(&mut cache);

    assert!(!Arc::ptr_eq(&schema1, &schema2));
}

#[test]
fn test_schema_for_type_arc_can_be_shared() {
    let mut cache = SchemaCache::new();
    let schema = type_schema::<TestObject>(&mut cache);
    let cloned = schema.clone();

    assert!(Arc::ptr_eq(&schema, &cloned));
}

#[test]
fn test_schema_for_output_rejects_primitive() {
    let mut cache = SchemaCache::new();
    let result = output_schema::<i32>(&mut cache);
    assert!(result.is_err(),);
}

#[test]
fn test_schema_for_output_accepts_object() {
    let mut cache = SchemaCache::new();
    let result = output_schema::<TestObject>(&mut cache);
    assert!(result.is_ok(),);
}

fn as_object(value: Option<&JsonValue>) -> Option<&JsonObject> {
    match value {
        Some(JsonValue::Object(object)) => Some(object),
        _ => None,
    }
}

fn is_boolean(value: &JsonValue) -> bool {
    matches!(value, JsonValue::Bool(_))
}

/// The paths of the boolean subschemas in a schema.
fn find_bool_subschemas(node: &JsonValue, path: &str) -> Vec<String> {
    const OBJECT_OF_SCHEMAS: &[&str] = &["properties", "patternProperties", "$defs", "definitions"];
    const ARRAY_OF_SCHEMAS: &[&str] = &["oneOf", "anyOf", "allOf", "prefixItems"];
    const SINGLE_SCHEMA: &[&str] = &[
        "items",
        "additionalProperties",
        "additionalItems",
        "not",
        "if",
        "then",
        "else",
        "contains",
        "propertyNames",
    ];
    let mut offenders = Vec::new();
    let JsonValue::Object(obj) = node else {
        return offenders;
    };
    for (key, value) in obj.entries() {
        let k = key.as_str();
        if OBJECT_OF_SCHEMAS.contains(&k) {
            if let JsonValue::Object(map) = value {
                for (k2, v2) in map.entries() {
                    let p = format!("{path}.{k}.{k2}");
                    if is_boolean(v2) {
                        offenders.push(p);
                    } else {
                        offenders.extend(find_bool_subschemas(v2, &p));
                    }
                }
            }
        } else if ARRAY_OF_SCHEMAS.contains(&k) {
            if let JsonValue::Array(arr) = value {
                for (i, v2) in arr.iter().enumerate() {
                    let p = format!("{path}.{k}[{i}]");
                    if is_boolean(v2) {
                        offenders.push(p);
                    } else {
                        offenders.extend(find_bool_subschemas(v2, &p));
                    }
                }
            }
        } else if SINGLE_SCHEMA.contains(&k) {
            let p = format!("{path}.{k}");
            if is_boolean(value) {
                offenders.push(p);
            } else {
                offenders.extend(find_bool_subschemas(value, &p));
            }
        }
    }
    offenders
}

struct ValueFieldHolder;

impl JsonSchema for ValueFieldHolder {
    fn schema_name() -> Cow<'static, str> {
        Cow::Borrowed("ValueFieldHolder")
    }

    fn json_schema(generator: &mut SchemaGenerator) -> Schema {
        let v = generator.subschema_for::<serde_json::Value>();
        struct_schema(vec![("v", v)])
    }
}

#[test]
fn value_field_normalised_to_empty_object() {
    let mut cache = SchemaCache::new();
    let schema = type_schema::<ValueFieldHolder>(&mut cache);
    let properties = as_object(schema.get("properties")).expect("properties");
    let v_schema = properties.get("v").expect("properties.v");
    assert_eq!(
        v_schema,
        &object(vec![]),
        "properties.v must be normalised to `{{}}`, was {v_schema:?}"
    );
}

struct VecValueHolder;

impl JsonSchema for VecValueHolder {
    fn schema_name() -> Cow<'static, str> {
        Cow::Borrowed("VecValueHolder")
    }

    fn json_schema(generator: &mut SchemaGenerator) -> Schema {
        let xs = generator.subschema_for::<Vec<serde_json::Value>>();
        struct_schema(vec![("xs", xs)])
    }
}

#[test]
fn vec_value_items_normalised() {
    let mut cache = SchemaCache::new();
    let schema = type_schema::<VecValueHolder>(&mut cache);
    let xs_schema = as_object(schema.get("properties"))
        .and_then(|p| as_object(p.get("xs")))
        .expect("properties.xs");
    let items = xs_schema.get("items").expect("properties.xs.items");
    assert_eq!(
        items,
        &object(vec![]),
        "properties.xs.items must be normalised to `{{}}`, was {items:?}"
    );
    let value = JsonValue::Object((*schema).clone());
    let offenders = find_bool_subschemas(&value, "root");
    assert!(
        offenders.is_empty(),
        "no bare bool subschemas allowed; offenders: {offenders:?}"
    );
}

struct OptionValueHolder;

impl JsonSchema for OptionValueHolder {
    fn schema_name() -> Cow<'static, str> {
        Cow::Borrowed("OptionValueHolder")
    }

    fn json_schema(generator: &mut SchemaGenerator) -> Schema {
        let v = generator.subschema_for::<Option<serde_json::Value>>();
        struct_schema(vec![("v", v)])
    }
}

#[test]
fn option_value_normalised() {
    let mut cache = SchemaCache::new();
    let schema = type_schema::<OptionValueHolder>(&mut cache);
    let value = JsonValue::Object((*schema).clone());
    let offenders = find_bool_subschemas(&value, "root");
    assert!(
        offenders.is_empty(),
        "no bare bool subschemas allowed; offenders: {offenders:?}; schema: {value:?}"
    );
}

struct MapValueHolder;

impl JsonSchema for MapValueHolder {
    fn schema_name() -> Cow<'static, str> {
        Cow::Borrowed("MapValueHolder")
    }

    fn json_schema(generator: &mut SchemaGenerator) -> Schema {
        let m = generator.subschema_for::<BTreeMap<String, serde_json::Value>>();
        struct_schema(vec![("m", m)])
    }
}

#[test]
fn map_value_additional_properties_normalised() {
    let mut cache = SchemaCache::new();
    let schema = type_schema::<MapValueHolder>(&mut cache);
    let m_schema = as_object(schema.get("properties"))
        .and_then(|p| as_object(p.get("m")))
        .expect("properties.m");
    let ap = m_schema
        .get("additionalProperties")
        .expect("properties.m.additionalProperties");
    assert_eq!(
        ap,
        &object(vec![]),
        "properties.m.additionalProperties must be `{{}}` not `true`, was {ap:?}"
    );
}

struct DenyUnknownFieldsStruct;

impl JsonSchema for DenyUnknownFieldsStruct {
    fn schema_name() -> Cow<'static, str> {
        Cow::Borrowed("DenyUnknownFieldsStruct")
    }

    fn json_schema(generator: &mut SchemaGenerator) -> Schema {
        let x = generator.subschema_for::<i32>();
        let mut schema = struct_schema(vec![("x", x)]);
        schema.insert("additionalProperties".to_string(), serde_json::Value::Bool(false));
        schema
    }
}

#[test]
fn deny_unknown_fields_normalised_to_not_empty_object() {
    let mut cache = SchemaCache::new();
    let schema = type_schema::<DenyUnknownFieldsStruct>(&mut cache);
    let ap = schema
        .get("additionalProperties")
        .expect("root.additionalProperties");
    assert_eq!(
        ap,
        &object(vec![("not", object(vec![]))]),
        "root.additionalProperties must be `{{\"not\":{{}}}}` not `false`, was {ap:?}"
    );
}

struct InnerWithValue;

impl JsonSchema for InnerWithValue {
    fn schema_name() -> Cow<'static, str> {
        Cow::Borrowed("InnerWithValue")
    }

    fn json_schema(generator: &mut SchemaGenerator) -> Schema {
        let v = generator.subschema_for::<serde_json::Value>();
        struct_schema(vec![("v", v)])
    }
}

struct OuterWithInner;

impl JsonSchema for OuterWithInner {
    fn schema_name() -> Cow<'static, str> {
        Cow::Borrowed("OuterWithInner")
    }

    fn json_schema(generator: &mut SchemaGenerator) -> Schema {
        let inner = generator.subschema_for::<InnerWithValue>();
        struct_schema(vec![("inner", inner)])
    }
}

#[test]
fn nested_value_inside_struct() {
    let mut cache = SchemaCache::new();
    let schema = type_schema::<OuterWithInner>(&mut cache);
    let value = JsonValue::Object((*schema).clone());
    let offenders = find_bool_subschemas(&value, "root");
    assert!(
        offenders.is_empty(),
        "no bare bool subschemas allowed in nested struct; offenders: {offenders:?}; schema: {value:?}"
    );
}

struct DefsHostA;

impl JsonSchema for DefsHostA {
    fn schema_name() -> Cow<'static, str> {
        Cow::Borrowed("DefsHostA")
    }

    fn json_schema(generator: &mut SchemaGenerator) -> Schema {
        let a = generator.subschema_for::<ValueFieldHolder>();
        let b = generator.subschema_for::<ValueFieldHolder>();
        struct_schema(vec![("a", a), ("b", b)])
    }
}

#[test]
fn defs_subschema_booleans_normalised() {
    let mut cache = SchemaCache::new();
    let schema = type_schema::<DefsHostA>(&mut cache);
    assert!(schema.contains_key("$defs"));
    let value = JsonValue::Object((*schema).clone());
    let offenders = find_bool_subschemas(&value, "root");
    assert!(
        offenders.is_empty(),
        "no bare bool subschemas allowed in $defs; offenders: {offenders:?}; schema: {value:?}"
    );
}

#[test]
fn oneof_anyof_allof_arms_normalised() {
    let mut cache = SchemaCache::new();
    let schema = type_schema::<OptionValueHolder>(&mut cache);
    let value = JsonValue::Object((*schema).clone());
    let offenders = find_bool_subschemas(&value, "root");
    assert!(
        offenders.is_empty(),
        "no bare bool in oneOf/anyOf/allOf arms; offenders: {offenders:?}; schema: {value:?}"
    );
}

#[test]
fn idempotent() {
    let mut cache = SchemaCache::new();
    let schema1 = type_schema::<ValueFieldHolder>(&mut cache);
    let schema2 = type_schema::<ValueFieldHolder>(&mut cache);
    assert!(
        Arc::ptr_eq(&schema1, &schema2),
        "cache must return the same Arc"
    );

    let value_before = JsonValue::Object((*schema1).clone()).to_serde();
    let mut as_schema: Schema = value_before
        .clone()
        .try_into()
        .expect("post-transform schema must be a valid object schema");
    let mut replace = schemars::transform::ReplaceBoolSchemas::default();
    schemars::transform::transform_subschemas(&mut replace, &mut as_schema);
    let value_after = serde_json::to_value(&as_schema).expect("serialize back");
    assert_eq!(
        value_before, value_after,
        "second pass of ReplaceBoolSchemas must be a no-op"
    );
    let again = replace_bool_subschemas(schema_of(JsonValue::Object((*schema1).clone())));
    assert_eq!(again, Ok((*schema1).clone()));
}

#[test]
fn degenerate_json_value_output_still_rejected() {
    let mut cache = SchemaCache::new();
    let result = output_schema::<serde_json::Value>(&mut cache);
    assert!(
        result.is_err(),
        "schema_for_output::<serde_json::Value>() must reject: root has no `\"type\": \"object\"`. Got: {result:?}"
    );
}

#[test]
fn output_schema_walk_has_no_boolean_subschemas() {
    let mut cache = SchemaCache::new();
    let result = output_schema::<ValueFieldHolder>(&mut cache)
        .expect("ValueFieldHolder is an object schema");
    let value = JsonValue::Object((*result).clone());
    let offenders = find_bool_subschemas(&value, "outputSchema");
    assert!(
        offenders.is_empty(),
        "outputSchema must contain no bare bool subschemas; offenders: {offenders:?}; schema: {value:?}"
    );
}

#[test]
fn schemas_name_their_dialect() {
    let mut cache = SchemaCache::new();
    let schema = type_schema::<i32>(&mut cache);
    assert_eq!(
        schema.get("$schema"),
        Some(&text("https://json-schema.org/draft/2020-12/schema"))
    );
}

#[test]
fn a_kept_schema_is_not_generated_again() {
    let mut cache = SchemaCache::default();
    let of = TypeId::of::<TestObject>();
    let first = type_schema::<TestObject>(&mut cache);
    let other = type_schema::<i32>(&mut cache);
    let again = schema_for_type(&mut cache, of, |_: SchemaGenerator| panic!("generated again"));
    assert!(Arc::ptr_eq(&first, &again));
    let output = schema_for_output(&mut cache, of, |_: SchemaGenerator| panic!("generated again"));
    assert!(Arc::ptr_eq(&first, &output.expect("an object")));
    assert!(Arc::ptr_eq(&other, &type_schema::<i32>(&mut cache)));
}

#[test]
fn the_check_of_an_output_is_kept() {
    let mut cache = SchemaCache::new();
    let first = output_schema::<i32>(&mut cache);
    let again = output_schema::<i32>(&mut cache);
    assert_eq!(
        first,
        Err(
            "MCP specification requires tool outputSchema to have root type 'object', but found 'integer'."
                .to_string()
        )
    );
    assert_eq!(again, first);
    let accepted = output_schema::<TestObject>(&mut cache).expect("an object");
    let kept = output_schema::<TestObject>(&mut cache).expect("an object");
    assert!(Arc::ptr_eq(&accepted, &kept));
    assert!(Arc::ptr_eq(&accepted, &type_schema::<TestObject>(&mut cache)));
}

#[test]
fn output_errors_say_what_was_found() {
    assert_eq!(check_output_schema(&members(vec![("type", text("object"))])), Ok(()));
    assert_eq!(
        check_output_schema(&members(vec![("type", text("array"))])),
        Err(
            "MCP specification requires tool outputSchema to have root type 'object', but found 'array'."
                .to_string()
        )
    );
    assert_eq!(
        check_output_schema(&members(vec![])),
        Err(
            "Schema is missing 'type' field. MCP specification requires outputSchema to have root type 'object'."
                .to_string()
        )
    );
    let union = JsonValue::Array(vec![text("object"), text("null")]);
    assert_eq!(
        check_output_schema(&members(vec![("type", union)])),
        Err(
            "Schema 'type' field has unexpected format: Array [String(\"object\"), String(\"null\")]. Expected \"object\"."
                .to_string()
        )
    );
}

#[test]
fn booleans_are_replaced_in_schema_positions_alone() {
    let root = object(vec![
        ("default", JsonValue::Bool(true)),
        ("not", JsonValue::Bool(false)),
        ("items", JsonValue::Array(vec![JsonValue::Bool(true), JsonValue::from_u32(1)])),
        ("anyOf", JsonValue::Array(vec![object(vec![("if", JsonValue::Bool(false))])])),
        (
            "properties",
            object(vec![
                ("a", JsonValue::Bool(false)),
                ("b", object(vec![("const", JsonValue::Bool(true)), ("items", JsonValue::Bool(true))])),
            ]),
        ),
    ]);
    let never = || object(vec![("not", object(vec![]))]);
    let expected = members(vec![
        ("default", JsonValue::Bool(true)),
        ("not", never()),
        ("items", JsonValue::Array(vec![object(vec![]), JsonValue::from_u32(1)])),
        ("anyOf", JsonValue::Array(vec![object(vec![("if", never())])])),
        (
            "properties",
            object(vec![
                ("a", never()),
                ("b", object(vec![("const", JsonValue::Bool(true)), ("items", object(vec![]))])),
            ]),
        ),
    ]);
    assert_eq!(replace_bool_subschemas(schema_of(root)), Ok(expected));
}

#[test]
fn empty_input_is_an_object_without_properties() {
    let schema = schema_for_empty_input();
    assert_eq!(
        *schema,
        members(vec![("type", text("object")), ("properties", object(vec![]))])
    );
    assert_eq!(check_output_schema(&schema), Ok(()));
}

#[test]
fn a_root_that_is_no_object_is_an_error_and_is_not_kept() {
    let mut cache = SchemaCache::new();
    let of = TypeId::of::<TestObject>();
    let bare = |_: SchemaGenerator| Schema::from(true);
    assert_eq!(try_schema_for_type(&mut cache, of, bare), Err(JsonValue::Bool(true)));
    assert_eq!(try_schema_for_output(&mut cache, of, bare), Err(JsonValue::Bool(true)));
    let schema = type_schema::<TestObject>(&mut cache);
    let kept = try_schema_for_type(&mut cache, of, bare).expect("the kept schema");
    assert!(Arc::ptr_eq(&schema, &kept));
    assert_eq!(replace_bool_subschemas(Schema::from(false)), Err(JsonValue::Bool(false)));
}

#[test]
fn schemas_are_looked_up_and_kept_by_type() {
    let mut cache = SchemaCache::new();
    let of = TypeId::of::<TestObject>();
    assert_eq!(cache.schema_of(of), None);
    let root = root_schema(|g: SchemaGenerator| g.into_root_schema_for::<ValueFieldHolder>());
    let kept = cache.keep_schema(of, root).expect("an object");
    assert_eq!(find_bool_subschemas(&JsonValue::Object((*kept).clone()), "root").len(), 0);
    let found = cache.schema_of(of).expect("kept");
    assert!(Arc::ptr_eq(&kept, &found));
    let again = cache.keep_schema(of, Schema::from(true)).expect("the kept schema");
    assert!(Arc::ptr_eq(&kept, &again));
    assert_eq!(
        cache.keep_schema(TypeId::of::<i32>(), Schema::from(true)),
        Err(JsonValue::Bool(true))
    );
    assert_eq!(cache.schema_of(TypeId::of::<i32>()), None);
}
