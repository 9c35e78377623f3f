use rmcp::handler::server::tool::IntoCallToolResult;
use rmcp::handler::server::wrapper::json::{Json, JsonAndArtifact};
use rmcp::json::{Encoded, JsonValue};
use rmcp::model::{Content, RawResource};
use rmcp::string_map::StringMap;

fn object(entries: Vec<(&str, JsonValue)>) -> JsonValue {
    let entries = entries.into_iter().map(|(k, v)| (k.to_string(), v)).collect();
    JsonValue::Object(StringMap::from_entries(entries))
}

struct DummyResp {
    count: u32,
}

fn encoded(value: DummyResp) -> Encoded<DummyResp> {
    let json = Ok(object(vec![("count", JsonValue::from_u32(value.count))]));
    Encoded { value, json }
}

#[test]
fn json_and_artifact_no_extras_matches_json_shape() {
    let value = encoded(DummyResp { count: 7 });
    let result = JsonAndArtifact { value, extras: vec![] }
        .into_call_tool_result()
        .unwrap();

    assert!(result.structured_content.is_some());
    let stored = result.structured_content.as_ref().unwrap();
    assert_eq!(stored, &object(vec![("count", JsonValue::from_u32(7))]));
    assert_eq!(result.content.len(), 1, "auto-pushed JSON dump only");
    assert_eq!(
        result.content[0].as_text().unwrap().text,
        object(vec![("count", JsonValue::from_u32(7))]).to_text()
    );
    let plain = Json(encoded(DummyResp { count: 7 })).into_call_tool_result();
    assert_eq!(plain, Ok(result));
}

#[test]
fn json_and_artifact_with_resource_link_appends_to_content() {
    let value = encoded(DummyResp { count: 3 });
    let raw = RawResource::new(
        "studio://download/uuid/file.png".to_string(),
        "file.png".to_string(),
    );
    let link = Content::resource_link(raw);
    let result = JsonAndArtifact { value, extras: vec![link] }
        .into_call_tool_result()
        .unwrap();

    assert!(result.structured_content.is_some());
    assert_eq!(result.content.len(), 2, "JSON dump + resource_link");
    assert!(
        result.content[1].raw.as_resource_link().is_some(),
        "second block is a resource_link"
    );
}

#[test]
fn json_and_artifact_preserves_extras_order() {
    let value = encoded(DummyResp { count: 1 });
    let raw = RawResource::new("studio://download/uuid/a.png".to_string(), "a.png".to_string());
    let extras = vec![Content::resource_link(raw), Content::text("summary".to_string())];
    let result = JsonAndArtifact { value, extras }
        .into_call_tool_result()
        .unwrap();

    assert_eq!(result.content.len(), 3);
    assert!(result.content[1].raw.as_resource_link().is_some());
    assert_eq!(result.content[2].as_text().unwrap().text, "summary");
}

#[test]
fn structured_results_are_successes_without_meta() {
    let result = Json(object(vec![("b", JsonValue::Null), ("a", JsonValue::Array(vec![]))]))
        .into_call_tool_result()
        .unwrap();
    assert_eq!(result.is_error, Some(false));
    assert_eq!(result.meta, None);
    assert_eq!(result.content[0].as_text().unwrap().text, "{\"a\":[],\"b\":null}");
}

#[test]
fn what_has_no_json_form_is_an_internal_error() {
    let broken: Encoded<()> = Encoded { value: (), json: Err("key must be a string".to_string()) };
    let error = Json(broken).into_call_tool_result().unwrap_err();
    assert_eq!(error.code, -32603);
    assert_eq!(
        error.message,
        "Failed to serialize structured content: key must be a string"
    );
    let broken: Encoded<()> = Encoded { value: (), json: Err("x".to_string()) };
    let extras = vec![Content::text("summary".to_string())];
    let error = JsonAndArtifact { value: broken, extras }.into_call_tool_result().unwrap_err();
    assert_eq!(error.message, "Failed to serialize structured content: x");
    assert_eq!(error.data, None);
}
