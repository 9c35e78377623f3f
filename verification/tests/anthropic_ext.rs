use std::sync::Arc;

use rmcp::anthropic_ext::test_support::request_context_for_test;
use rmcp::anthropic_ext::{
    anthropic_max_result_size_chars_meta, claude_channel_capability,
    claude_channel_notification_method, claude_channel_permission_capability,
    claude_channel_permission_method, claude_channel_permission_request_method,
    insert_claude_channel, insert_claude_channel_permission, lint, normalize_call_tool_result,
    structured_with_text_fallback, ClaudeChannelNotificationParam, ClaudeChannelPermissionParam,
    ClaudeChannelPermissionRequestParam, ClaudeChannelPermissionVerdict,
    MAX_RESULT_SIZE_CHARS_CEILING, MAX_RESULT_SIZE_CHARS_META_KEY,
};
use rmcp::json::{Encoded, FromJson, JsonObject, JsonValue, PayloadError, ToJson};
use rmcp::model::{
    CallToolResult, Content, CustomNotification, ExperimentalCapabilities, NumberOrString,
    RawResource, ServerCapabilities, ServerNotification, Tool,
};
use rmcp::service::{Peer, RoleServer};
use rmcp::string_map::StringMap;

const CLIENT: &str = "client";

fn sample_tool() -> Tool {
    Tool::new("t".to_string(), "d".to_string(), Arc::new(JsonObject::new()))
}

fn text(value: &str) -> JsonValue {
    JsonValue::String(value.to_string())
}

fn object(members: Vec<(&str, JsonValue)>) -> JsonValue {
    let entries = members.into_iter().map(|(k, v)| (k.to_string(), v)).collect();
    JsonValue::Object(StringMap::from_entries(entries))
}

fn member<'a>(value: &'a JsonValue, name: &str) -> Option<&'a JsonValue> {
    match value {
        JsonValue::Object(members) => members.get(name),
        _ => None,
    }
}

#[test]
fn max_result_size_chars_is_clamped() {
    let tool = sample_tool().with_anthropic_max_result_size_chars(1_000_000);
    let meta = tool.meta.expect("meta set");
    let stored = meta.0.get(MAX_RESULT_SIZE_CHARS_META_KEY).expect("key present");
    assert_eq!(stored, &JsonValue::from_u32(MAX_RESULT_SIZE_CHARS_CEILING));
}

#[test]
fn max_result_size_chars_under_ceiling_kept_verbatim() {
    let tool = sample_tool().with_anthropic_max_result_size_chars(100_000);
    let stored = tool
        .meta
        .expect("meta")
        .0
        .get(MAX_RESULT_SIZE_CHARS_META_KEY)
        .cloned()
        .expect("key");
    assert_eq!(stored, JsonValue::from_u32(100_000));
}

#[test]
fn max_result_size_chars_has_its_exact_key_and_number() {
    assert_eq!(MAX_RESULT_SIZE_CHARS_META_KEY, "anthropic/maxResultSizeChars");
    assert_eq!(MAX_RESULT_SIZE_CHARS_CEILING, 500_000);
    let at = anthropic_max_result_size_chars_meta(500_000);
    let above = anthropic_max_result_size_chars_meta(500_001);
    assert_eq!(JsonValue::Object(at.0).to_text(), "{\"anthropic/maxResultSizeChars\":500000}");
    assert_eq!(JsonValue::Object(above.0).to_text(), "{\"anthropic/maxResultSizeChars\":500000}");
}

#[test]
fn the_last_size_counts_and_other_entries_stay() {
    let tool = sample_tool()
        .with_mcp_header_param("trace_id".to_string())
        .with_anthropic_max_result_size_chars(7)
        .with_anthropic_max_result_size_chars(9);
    let other = sample_tool()
        .with_anthropic_max_result_size_chars(9)
        .with_mcp_header_param("trace_id".to_string());
    assert_eq!(tool, other);
    let meta = tool.meta.expect("meta");
    assert_eq!(meta.0.len(), 2);
    assert_eq!(meta.0.get(MAX_RESULT_SIZE_CHARS_META_KEY), Some(&JsonValue::from_u32(9)));
    assert_eq!(tool.name, "t");
    assert_eq!(tool.description, Some("d".to_string()));
}

#[test]
fn claude_channel_capability_inserted_empty() {
    let mut experimental = ExperimentalCapabilities::new();
    insert_claude_channel(&mut experimental, CLIENT);
    let stored = experimental
        .get(&claude_channel_capability(CLIENT))
        .expect("capability set");
    assert!(stored.is_empty(), "expected empty settings object");
}

#[test]
fn claude_channel_capability_lands_on_experimental_builder_field() {
    let mut experimental = ExperimentalCapabilities::new();
    insert_claude_channel(&mut experimental, CLIENT);
    let caps = ServerCapabilities::builder()
        .enable_experimental_with(experimental)
        .build();

    let experimental = caps.experimental.expect("experimental populated");
    assert!(
        experimental.contains_key(&claude_channel_capability(CLIENT)),
        "channel key must land on `capabilities.experimental`, not `.extensions`"
    );
    assert!(
        caps.extensions.is_none(),
        "extensions field must stay empty when only `experimental` was populated"
    );
}

#[test]
fn claude_channel_permission_coexists_with_channel() {
    let mut experimental = ExperimentalCapabilities::new();
    insert_claude_channel(&mut experimental, CLIENT);
    insert_claude_channel_permission(&mut experimental, CLIENT);
    assert!(experimental.contains_key(&claude_channel_capability(CLIENT)));
    assert!(experimental.contains_key(&claude_channel_permission_capability(CLIENT)));
    assert_eq!(experimental.len(), 2);
}

#[test]
fn capabilities_are_named_after_the_client() {
    assert_eq!(claude_channel_capability(CLIENT), "client/channel");
    assert_eq!(claude_channel_permission_capability(CLIENT), "client/channel/permission");
    assert_eq!(claude_channel_notification_method(CLIENT), "notifications/client/channel");
}

#[test]
fn declaring_a_capability_again_resets_its_settings_alone() {
    let mut experimental = ExperimentalCapabilities::new();
    let mut settings = JsonObject::new();
    settings.insert("on".to_string(), JsonValue::Bool(true));
    experimental.insert("other".to_string(), settings.clone());
    experimental.insert(claude_channel_capability(CLIENT), settings.clone());
    insert_claude_channel(&mut experimental, CLIENT);
    insert_claude_channel(&mut experimental, CLIENT);
    assert_eq!(experimental.len(), 2);
    assert!(experimental.get("client/channel").expect("channel").is_empty());
    assert_eq!(experimental.get("other"), Some(&settings));
}

#[test]
fn channel_notification_param_round_trips() {
    let param = ClaudeChannelNotificationParam::new("hello".to_string())
        .with_meta("chat_id".to_string(), "42".to_string())
        .with_meta("severity".to_string(), "high".to_string());

    let json = param.to_json().expect("serialize");
    assert_eq!(member(&json, "content"), Some(&text("hello")));
    let meta = member(&json, "meta").expect("meta");
    assert_eq!(member(meta, "chat_id"), Some(&text("42")));
    assert_eq!(member(meta, "severity"), Some(&text("high")));

    let back = ClaudeChannelNotificationParam::from_json(&json).expect("deserialize");
    assert_eq!(back.content, "hello");
    let meta = back.meta.expect("meta preserved");
    assert_eq!(meta.get("chat_id").map(String::as_str), Some("42"));
    assert_eq!(meta.get("severity").map(String::as_str), Some("high"));
}

#[test]
fn channel_notification_param_omits_meta_when_empty() {
    let param = ClaudeChannelNotificationParam::new("ping".to_string());
    let json = param.to_json().expect("serialize");
    assert_eq!(member(&json, "content"), Some(&text("ping")));
    assert!(
        member(&json, "meta").is_none(),
        "meta key should be omitted when None via skip_serializing_if"
    );
}

#[test]
fn channel_notification_param_has_its_exact_text() {
    let param = ClaudeChannelNotificationParam::new("hi".to_string())
        .with_meta("b".to_string(), "2".to_string())
        .with_meta("a".to_string(), "0".to_string())
        .with_meta("a".to_string(), "1".to_string());
    let copy = param.clone();
    assert_eq!(copy, param);
    let json = param.to_json().expect("serialize");
    assert_eq!(json.to_text(), "{\"content\":\"hi\",\"meta\":{\"a\":\"1\",\"b\":\"2\"}}");
    let emptied = copy.with_meta_map(StringMap::new());
    let json = emptied.to_json().expect("serialize");
    assert_eq!(json.to_text(), "{\"content\":\"hi\",\"meta\":{}}");
}

#[test]
fn channel_notification_param_reads_the_accepted_shapes() {
    let plain = ClaudeChannelNotificationParam::new("x".to_string());
    let null_meta = object(vec![
        ("content", text("x")),
        ("meta", JsonValue::Null),
        ("more", JsonValue::Bool(true)),
    ]);
    assert_eq!(ClaudeChannelNotificationParam::from_json(&null_meta), Ok(plain.clone()));
    let alone = JsonValue::Array(vec![text("x")]);
    assert_eq!(ClaudeChannelNotificationParam::from_json(&alone), Ok(plain.clone()));
    let pair = JsonValue::Array(vec![text("x"), object(vec![("k", text("v"))])]);
    assert_eq!(
        ClaudeChannelNotificationParam::from_json(&pair),
        Ok(plain.with_meta("k".to_string(), "v".to_string()))
    );
}

#[test]
fn channel_notification_param_refuses_other_shapes() {
    let refused = vec![
        JsonValue::Null,
        text("x"),
        object(vec![]),
        object(vec![("content", JsonValue::from_u32(1))]),
        object(vec![("content", text("x")), ("meta", text("y"))]),
        object(vec![
            ("content", text("x")),
            ("meta", object(vec![("k", JsonValue::from_u32(1))])),
        ]),
        JsonValue::Array(vec![]),
        JsonValue::Array(vec![text("x"), JsonValue::Null, JsonValue::Null]),
    ];
    for value in refused {
        assert_eq!(ClaudeChannelNotificationParam::from_json(&value), Err(PayloadError));
    }
}

#[test]
fn anthropic_max_result_size_chars_meta_under_ceiling() {
    let meta = anthropic_max_result_size_chars_meta(100_000);
    let stored = meta
        .0
        .get(MAX_RESULT_SIZE_CHARS_META_KEY)
        .cloned()
        .expect("key present");
    assert_eq!(stored, JsonValue::from_u32(100_000));
}

#[test]
fn anthropic_max_result_size_chars_meta_clamps_above_ceiling() {
    let meta = anthropic_max_result_size_chars_meta(1_000_000);
    let stored = meta
        .0
        .get(MAX_RESULT_SIZE_CHARS_META_KEY)
        .cloned()
        .expect("key present");
    assert_eq!(stored, JsonValue::from_u32(MAX_RESULT_SIZE_CHARS_CEILING));
}

#[test]
fn anthropic_max_result_size_chars_meta_is_standalone() {
    let meta = anthropic_max_result_size_chars_meta(100_000);
    assert_eq!(meta.0.len(), 1, "helper should only emit the size key");
}

#[test]
fn warn_if_over_2kb_returns_true_above_limit() {
    let body = "x".repeat(lint::SIZE_LIMIT_BYTES + 1);
    assert!(lint::warn_if_over_2kb("test", &body));
}

#[test]
fn warn_if_over_2kb_returns_false_at_limit() {
    let body = "x".repeat(lint::SIZE_LIMIT_BYTES);
    assert!(!lint::warn_if_over_2kb("test", &body));
}

#[test]
fn sizes_are_counted_in_bytes() {
    assert_eq!(lint::SIZE_LIMIT_BYTES, 2048);
    let body = "\u{e9}".repeat(1025);
    let warning = lint::size_warning("tool", &body).expect("over the limit");
    assert_eq!(warning.label, "tool");
    assert_eq!(warning.size, 2050);
    assert_eq!(warning.limit, 2048);
    assert!(lint::size_warning("tool", &"\u{e9}".repeat(1024)).is_none());
}

struct Resp {
    count: u32,
}

#[test]
fn structured_with_text_fallback_appends_summary() {
    let encoded = Encoded {
        value: Resp { count: 3 },
        json: Ok(object(vec![("count", JsonValue::from_u32(3))])),
    };
    let result =
        structured_with_text_fallback(encoded, |r: &Encoded<Resp>| format!("{} items", r.value.count))
            .expect("structured result");

    assert!(
        result.structured_content.is_some(),
        "structured content set"
    );
    // One text entry for the serialized JSON, and a second human-readable summary.
    assert_eq!(result.content.len(), 2, "serialized JSON + summary");

    let last_text = result
        .content
        .last()
        .expect("content non-empty")
        .as_text()
        .expect("final entry is text");
    assert_eq!(last_text.text, "3 items");
    assert_eq!(result.content[0].as_text().expect("text").text, "{\"count\":3}");
}

#[test]
fn structured_with_text_fallback_reports_what_has_no_json_form() {
    let broken: Encoded<()> = Encoded { value: (), json: Err("no form".to_string()) };
    let error = structured_with_text_fallback(broken, |_: &Encoded<()>| "s".to_string())
        .expect_err("an error");
    assert_eq!(error.code, -32603);
    assert_eq!(error.message, "Failed to serialize structured content: no form");
    assert_eq!(error.data, None);
}

#[test]
fn normalize_strips_empty_object() {
    let mut result = CallToolResult::structured(object(vec![]));
    assert!(
        result.structured_content.is_some(),
        "test setup: structured starts populated"
    );
    normalize_call_tool_result(&mut result);
    assert!(
        result.structured_content.is_none(),
        "empty `{{}}` envelope must be stripped so that content[] is shown"
    );
    assert_eq!(result.content[0].as_text().expect("text").text, "{}");
}

#[test]
fn normalize_keeps_populated_structured() {
    let mut result = CallToolResult::structured(object(vec![("k", text("v"))]));
    normalize_call_tool_result(&mut result);
    let stored = result
        .structured_content
        .as_ref()
        .expect("populated structured must survive normalization");
    assert_eq!(stored, &object(vec![("k", text("v"))]));
}

#[test]
fn normalize_keeps_populated_structured_alongside_extras() {
    let mut result = CallToolResult::structured(object(vec![("k", text("v"))]));
    let raw = RawResource::new(
        "studio://download/uuid/file.png".to_string(),
        "file.png".to_string(),
    );
    result.content.push(Content::resource_link(raw));

    normalize_call_tool_result(&mut result);

    assert!(
        result.structured_content.is_some(),
        "populated structuredContent survives alongside content[] extras"
    );
    assert_eq!(result.content.len(), 2);
}

#[test]
fn normalize_leaves_none_structured_alone() {
    let mut result = CallToolResult::success(vec![Content::text("hi".to_string())]);
    assert!(result.structured_content.is_none());
    normalize_call_tool_result(&mut result);
    assert!(
        result.structured_content.is_none(),
        "None structured stays None"
    );
}

#[test]
fn normalize_leaves_non_object_structured_alone() {
    let mut result = CallToolResult::structured(JsonValue::Array(vec![]));
    normalize_call_tool_result(&mut result);
    assert!(
        result.structured_content.is_some(),
        "non-object structured (array, scalar, etc.) is left untouched"
    );
    normalize_call_tool_result(&mut result);
    assert_eq!(result, CallToolResult::structured(JsonValue::Array(vec![])));
}

#[test]
fn test_support_request_context_constructs() {
    let ctx = request_context_for_test();
    match ctx.id {
        NumberOrString::Number(n) => assert_eq!(n, 1),
        NumberOrString::String(_) => {
            panic!("request_context_for_test() should produce a numeric id")
        }
    }
}

#[test]
fn test_context_has_nothing_attached_and_sends_nothing() {
    let ctx = request_context_for_test();
    assert!(ctx.meta.0.is_empty());
    assert!(ctx.extensions.is_empty());
    assert!(!ctx.ct.is_cancelled());
    let event = ClaudeChannelNotificationParam::new("x".to_string());
    assert_eq!(ctx.peer.notify_claude_channel(CLIENT, event), None);
    let answer = ClaudeChannelPermissionParam::deny("x".to_string());
    assert_eq!(ctx.peer.notify_claude_channel_permission(CLIENT, answer), None);
}

#[test]
fn permission_method_constants_match_spec() {
    assert_eq!(
        claude_channel_permission_request_method(CLIENT),
        format!("notifications/{CLIENT}/channel/permission_request")
    );
    assert_eq!(
        claude_channel_permission_method(CLIENT),
        format!("notifications/{CLIENT}/channel/permission")
    );
}

#[test]
fn permission_request_param_deserializes_from_claude_code_payload() {
    let raw = object(vec![
        ("request_id", text("abcde")),
        ("tool_name", text("Bash")),
        ("description", text("list the files in this directory")),
        ("input_preview", text("{\"command\": \"ls\"}")),
    ]);
    let parsed = ClaudeChannelPermissionRequestParam::from_json(&raw).expect("deserialize");
    assert_eq!(parsed.request_id, "abcde");
    assert_eq!(parsed.tool_name, "Bash");
    assert_eq!(parsed.description, "list the files in this directory");
    assert_eq!(parsed.input_preview, "{\"command\": \"ls\"}");
    assert_eq!(parsed.clone().to_json(), Ok(raw));
    let listed = JsonValue::Array(vec![
        text("abcde"),
        text("Bash"),
        text("list the files in this directory"),
        text("{\"command\": \"ls\"}"),
    ]);
    assert_eq!(ClaudeChannelPermissionRequestParam::from_json(&listed), Ok(parsed));
}

#[test]
fn permission_request_param_refuses_other_shapes() {
    let three = vec![text("a"), text("b"), text("c")];
    let refused = vec![
        JsonValue::Null,
        object(vec![("request_id", text("a")), ("tool_name", text("b"))]),
        object(vec![
            ("request_id", text("a")),
            ("tool_name", text("b")),
            ("description", JsonValue::Null),
            ("input_preview", text("d")),
        ]),
        JsonValue::Array(three),
    ];
    for value in refused {
        assert_eq!(ClaudeChannelPermissionRequestParam::from_json(&value), Err(PayloadError));
    }
}

#[test]
fn permission_verdict_serializes_snake_case() {
    let allow = ClaudeChannelPermissionVerdict::Allow.to_json().expect("serialize");
    let deny = ClaudeChannelPermissionVerdict::Deny.to_json().expect("serialize");
    assert_eq!(allow, text("allow"));
    assert_eq!(deny, text("deny"));
}

#[test]
fn permission_verdict_round_trips() {
    for v in [
        ClaudeChannelPermissionVerdict::Allow,
        ClaudeChannelPermissionVerdict::Deny,
    ] {
        let json = v.to_json().expect("serialize");
        let back = ClaudeChannelPermissionVerdict::from_json(&json).expect("deserialize");
        assert_eq!(back, v);
    }
}

#[test]
fn permission_verdict_reads_a_lone_null_member() {
    let deny = object(vec![("deny", JsonValue::Null)]);
    assert_eq!(
        ClaudeChannelPermissionVerdict::from_json(&deny),
        Ok(ClaudeChannelPermissionVerdict::Deny)
    );
    let refused = vec![
        text("Allow"),
        object(vec![]),
        object(vec![("allow", JsonValue::Bool(true))]),
        object(vec![("allow", JsonValue::Null), ("deny", JsonValue::Null)]),
        object(vec![("maybe", JsonValue::Null)]),
        JsonValue::Array(vec![text("allow")]),
    ];
    for value in refused {
        assert_eq!(ClaudeChannelPermissionVerdict::from_json(&value), Err(PayloadError));
    }
}

#[test]
fn permission_param_wire_shape_matches_spec() {
    let param = ClaudeChannelPermissionParam::allow("abcde".to_string());
    let json = param.to_json().expect("serialize");
    assert_eq!(member(&json, "request_id"), Some(&text("abcde")));
    assert_eq!(member(&json, "behavior"), Some(&text("allow")));
    let members = match &json {
        JsonValue::Object(members) => Some(members.len()),
        _ => None,
    };
    assert_eq!(
        members,
        Some(2),
        "payload carries exactly `request_id` and `behavior`"
    );
}

#[test]
fn permission_param_round_trips() {
    let param = ClaudeChannelPermissionParam::new(
        "fghij".to_string(),
        ClaudeChannelPermissionVerdict::Deny,
    );
    let json = param.clone().to_json().expect("serialize");
    assert_eq!(json.to_text(), "{\"behavior\":\"deny\",\"request_id\":\"fghij\"}");
    assert_eq!(ClaudeChannelPermissionParam::from_json(&json), Ok(param.clone()));
    let listed = JsonValue::Array(vec![text("fghij"), text("deny")]);
    assert_eq!(ClaudeChannelPermissionParam::from_json(&listed), Ok(param));
    let unknown = object(vec![("request_id", text("fghij")), ("behavior", text("maybe"))]);
    assert_eq!(ClaudeChannelPermissionParam::from_json(&unknown), Err(PayloadError));
}

#[test]
fn permission_param_allow_and_deny_constructors() {
    let allow = ClaudeChannelPermissionParam::allow("fghij".to_string());
    assert_eq!(allow.request_id, "fghij");
    assert_eq!(allow.behavior, ClaudeChannelPermissionVerdict::Allow);

    let deny = ClaudeChannelPermissionParam::deny("klmno".to_string());
    assert_eq!(deny.request_id, "klmno");
    assert_eq!(deny.behavior, ClaudeChannelPermissionVerdict::Deny);
}

#[test]
fn permission_request_parseable_via_custom_notification_params_as() {
    let payload = object(vec![
        ("request_id", text("pqrst")),
        ("tool_name", text("Write")),
        ("description", text("Create new file README.md")),
        ("input_preview", text("{\"path\":\"./README.md\",\"content\":\"# Proj...\"}")),
    ]);
    let notification = CustomNotification::new(
        claude_channel_permission_request_method(CLIENT),
        Some(payload.clone()),
    );
    assert_eq!(
        notification.method,
        claude_channel_permission_request_method(CLIENT)
    );

    let parsed: ClaudeChannelPermissionRequestParam = notification
        .params_as()
        .expect("params_as succeeds")
        .expect("params were Some");
    assert_eq!(parsed.request_id, "pqrst");
    assert_eq!(parsed.tool_name, "Write");
}

#[test]
fn params_as_tells_absence_from_a_wrong_shape() {
    let bare = CustomNotification::new("m".to_string(), None);
    assert_eq!(bare.params_as::<ClaudeChannelPermissionParam>(), Ok(None));
    let wrong = CustomNotification::new("m".to_string(), Some(JsonValue::Null));
    assert_eq!(wrong.params_as::<ClaudeChannelPermissionParam>(), Err(PayloadError));
}

#[test]
fn notifications_go_out_on_the_channel_of_the_peer() {
    let peer = Peer::new(RoleServer, Some(5));
    let event = ClaudeChannelNotificationParam::new("hello".to_string());
    let sent = peer.notify_claude_channel(CLIENT, event.clone()).expect("sent");
    assert_eq!(sent.channel, 5);
    let ServerNotification::CustomNotification(custom) = sent.notification;
    assert_eq!(custom.method, "notifications/client/channel");
    assert_eq!(custom.params_as(), Ok(Some(event)));

    let answer = ClaudeChannelPermissionParam::allow("abcde".to_string());
    let sent = peer.notify_claude_channel_permission(CLIENT, answer.clone()).expect("sent");
    let ServerNotification::CustomNotification(custom) = sent.notification;
    assert_eq!(custom.method, "notifications/client/channel/permission");
    assert_eq!(custom.params_as(), Ok(Some(answer)));
}
