use std::sync::Arc;

use rmcp::json::{JsonObject, JsonValue};
use rmcp::model::{Meta, Tool};
use rmcp::sep2243_draft::{
    mcp_header_param_meta, record_header_param, McpHttpHeaders, MCP_METHOD_HEADER, MCP_NAME_HEADER,
    X_MCP_HEADER_NAME, X_MCP_HEADER_PARAM_META_KEY,
};

fn sample_tool() -> Tool {
    Tool::new("t".to_string(), "d".to_string(), Arc::new(JsonObject::new()))
}

fn text(value: &str) -> JsonValue {
    JsonValue::String(value.to_string())
}

#[test]
fn with_mcp_header_param_stores_single_string() {
    let tool = sample_tool().with_mcp_header_param("trace_id".to_string());
    let meta = tool.meta.expect("meta");
    let stored = meta.0.get(X_MCP_HEADER_PARAM_META_KEY).cloned().unwrap();
    assert_eq!(stored, text("trace_id"));
}

#[test]
fn with_mcp_header_param_upgrades_to_array_on_second_call() {
    let tool = sample_tool()
        .with_mcp_header_param("trace_id".to_string())
        .with_mcp_header_param("tenant_id".to_string());
    let meta = tool.meta.expect("meta");
    let stored = meta.0.get(X_MCP_HEADER_PARAM_META_KEY).cloned().unwrap();
    assert_eq!(
        stored,
        JsonValue::Array(vec![text("trace_id"), text("tenant_id")])
    );
}

#[test]
fn with_mcp_header_param_dedupes_repeats() {
    let tool = sample_tool()
        .with_mcp_header_param("trace_id".to_string())
        .with_mcp_header_param("trace_id".to_string());
    let meta = tool.meta.expect("meta");
    let stored = meta.0.get(X_MCP_HEADER_PARAM_META_KEY).cloned().unwrap();
    // Second identical call keeps the single-string form.
    assert_eq!(stored, text("trace_id"));
}

#[test]
fn a_third_mark_goes_last_and_repeats_change_nothing() {
    let tool = sample_tool()
        .with_mcp_header_param("a".to_string())
        .with_mcp_header_param("b".to_string())
        .with_mcp_header_param("a".to_string())
        .with_mcp_header_param("c".to_string())
        .with_mcp_header_param("c".to_string());
    let meta = tool.meta.expect("meta");
    let stored = meta.0.get(X_MCP_HEADER_PARAM_META_KEY).cloned().unwrap();
    assert_eq!(stored, JsonValue::Array(vec![text("a"), text("b"), text("c")]));
}

#[test]
fn any_number_of_repeats_of_one_mark_stays_a_string() {
    let mut tool = sample_tool();
    for _ in 0..4 {
        tool = tool.with_mcp_header_param("a".to_string());
    }
    let meta = tool.meta.expect("meta");
    assert_eq!(meta.0.get(X_MCP_HEADER_PARAM_META_KEY), Some(&text("a")));
}

#[test]
fn marks_keep_other_entries_and_values_of_other_shapes() {
    let mut tool = sample_tool();
    let mut meta = Meta::new();
    meta.0.insert("other".to_string(), JsonValue::Bool(true));
    meta.0.insert(X_MCP_HEADER_PARAM_META_KEY.to_string(), JsonValue::from_u32(5));
    tool.meta = Some(meta);
    let meta = tool.with_mcp_header_param("p".to_string()).meta.expect("meta");
    assert_eq!(meta.0.len(), 2);
    assert_eq!(meta.0.get("other"), Some(&JsonValue::Bool(true)));
    assert_eq!(
        meta.0.get(X_MCP_HEADER_PARAM_META_KEY),
        Some(&JsonValue::Array(vec![JsonValue::from_u32(5), text("p")]))
    );
    assert_eq!(record_header_param(None, "p".to_string()), text("p"));
    assert_eq!(
        record_header_param(Some(JsonValue::Null), "p".to_string()),
        JsonValue::Array(vec![JsonValue::Null, text("p")])
    );
}

#[test]
fn mcp_header_param_meta_builds_standalone_meta() {
    let meta = mcp_header_param_meta("correlation_id".to_string());
    assert_eq!(meta.0.len(), 1);
    assert_eq!(
        meta.0.get(X_MCP_HEADER_PARAM_META_KEY).cloned().unwrap(),
        text("correlation_id")
    );
    let tool = sample_tool().with_mcp_header_param("correlation_id".to_string());
    assert_eq!(tool.meta, Some(meta));
}

#[test]
fn extract_headers_from_http_header_map() {
    let mut headers = http::HeaderMap::new();
    headers.insert(MCP_METHOD_HEADER, "tools/call".parse().unwrap());
    headers.insert(MCP_NAME_HEADER, "search_assets".parse().unwrap());

    let extracted = McpHttpHeaders::from_header_map(&headers);
    assert!(extracted.is_populated());
    assert_eq!(extracted.method.as_deref(), Some("tools/call"));
    assert_eq!(extracted.name.as_deref(), Some("search_assets"));
}

#[test]
fn extract_headers_tolerates_absence() {
    let headers = http::HeaderMap::new();
    let extracted = McpHttpHeaders::from_header_map(&headers);
    assert!(!extracted.is_populated());
    assert!(extracted.method.is_none());
    assert!(extracted.name.is_none());
    assert_eq!(extracted, McpHttpHeaders::default());
}

#[test]
fn header_constants_are_as_the_draft_has_them() {
    assert_eq!(MCP_METHOD_HEADER, "Mcp-Method");
    assert_eq!(MCP_NAME_HEADER, "Mcp-Name");
    assert_eq!(X_MCP_HEADER_NAME, "x-mcp-header");
    assert_eq!(
        X_MCP_HEADER_PARAM_META_KEY,
        "io.modelcontextprotocol/x-mcp-header-param"
    );
}

#[test]
fn header_names_are_read_in_any_case() {
    let mut headers = http::HeaderMap::new();
    headers.insert("MCP-METHOD", "tools/list".parse().unwrap());
    let extracted = McpHttpHeaders::from_header_map(&headers);
    assert_eq!(extracted.method.as_deref(), Some("tools/list"));
    assert_eq!(extracted.name, None);
    assert!(extracted.is_populated());
}

#[test]
fn the_first_of_several_values_counts() {
    let mut headers = http::HeaderMap::new();
    headers.append("mcp-name", "first".parse().unwrap());
    headers.append("mcp-name", "second".parse().unwrap());
    let extracted = McpHttpHeaders::from_header_map(&headers);
    assert_eq!(extracted.name.as_deref(), Some("first"));
}

#[test]
fn values_that_are_not_text_are_left_out() {
    let mut headers = http::HeaderMap::new();
    headers.insert("mcp-method", http::HeaderValue::from_bytes(b"caf\xc3\xa9").unwrap());
    headers.insert("mcp-name", http::HeaderValue::from_bytes(b"a\tb c~").unwrap());
    let extracted = McpHttpHeaders::from_header_map(&headers);
    assert_eq!(extracted.method, None);
    assert_eq!(extracted.name.as_deref(), Some("a\tb c~"));
}
