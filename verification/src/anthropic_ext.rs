//! Extensions of the protocol that one client understands, and that every other client ignores:
//!
//! - `anthropic/maxResultSizeChars`, a `_meta` entry that raises the size up to which the text
//!   output of a tool is shown whole;
//! - `<client>/channel` and `<client>/channel/permission`, experimental capabilities of servers
//!   that push events into a session and take part in tool approvals, with the notifications that
//!   go with them. The name of the client, which is a part of these names, is a parameter;
//! - results of tools that carry a readable summary beside the structured content, and the removal
//!   of empty structured content, behind which the client hides every content block;
//! - a test for texts that the client would cut off.

pub mod lint;
pub mod payload;
pub mod test_support;

use vstd::prelude::*;

pub use crate::anthropic_ext::payload::{
    ClaudeChannelNotificationParam, ClaudeChannelPermissionParam,
    ClaudeChannelPermissionRequestParam, ClaudeChannelPermissionVerdict,
};
use crate::anthropic_ext::payload::{
    answer_json, answers_round_trip, event_json, events_round_trip,
};
use crate::handler::server::tool::{outcome_view, IntoCallToolResult};
use crate::handler::server::wrapper::json::{json_result, Json, JsonAndArtifact};
use crate::json::{
    json_text, lemma_object_insert, lemma_object_view, FromJson, JsonObject, JsonValue, JsonView,
    NumberView, ToJson,
};
use crate::model::{
    capabilities_view, contents_view, meta_entries, structured_result, CallToolResult,
    CallToolResultView, Content, ContentView, CustomNotification, CustomNotificationView,
    ErrorData, ExperimentalCapabilities, Meta, ServerNotification, Tool,
};
use crate::service::{Outbound, Peer, RoleServer};
use crate::sep2243_draft::{with_header_param, X_MCP_HEADER_PARAM_META_KEY};
use crate::string_map::StringMap;

verus! {

/// `_meta` key by which a tool raises the size up to which its text output is shown whole.
pub const MAX_RESULT_SIZE_CHARS_META_KEY: &'static str = "anthropic/maxResultSizeChars";

/// The highest size that [`MAX_RESULT_SIZE_CHARS_META_KEY`] can ask for.
pub const MAX_RESULT_SIZE_CHARS_CEILING: u32 = 500_000;

/// The entry that asks for a size: the size, or the ceiling where the size is above it.
pub open spec fn size_entry(chars: u32) -> JsonView {
    JsonView::Number(
        NumberView::Integer(
            if chars <= MAX_RESULT_SIZE_CHARS_CEILING {
                chars as int
            } else {
                MAX_RESULT_SIZE_CHARS_CEILING as int
            },
        ),
    )
}

/// The `_meta` entries after a size has been asked for.
pub open spec fn with_size(entries: Map<Seq<char>, JsonView>, chars: u32) -> Map<
    Seq<char>,
    JsonView,
> {
    entries.insert(MAX_RESULT_SIZE_CHARS_META_KEY@, size_entry(chars))
}

/// Asks for a size in `_meta` entries.
fn set_size(meta: &mut Meta, chars: u32)
    ensures
        final(meta)@ == with_size(old(meta)@, chars),
{
    let clamped: u32 = if chars <= MAX_RESULT_SIZE_CHARS_CEILING {
        chars
    } else {
        MAX_RESULT_SIZE_CHARS_CEILING
    };
    let ghost before = meta.0;
    let value = JsonValue::from_u32(clamped);
    let ghost entry = value;
    meta.0.insert(MAX_RESULT_SIZE_CHARS_META_KEY.to_string(), value);
    proof {
        lemma_object_insert(before, meta.0, MAX_RESULT_SIZE_CHARS_META_KEY@, entry);
    }
}

impl Tool {
    /// Raises the size up to which the text output of this tool is shown whole. A size above
    /// [`MAX_RESULT_SIZE_CHARS_CEILING`] asks for the ceiling.
    #[must_use]
    pub fn with_anthropic_max_result_size_chars(self, chars: u32) -> (tool: Tool)
        ensures
            tool == (Tool { meta: tool.meta, ..self }),
            tool.meta is Some,
            tool.meta->0@ == with_size(meta_entries(self.meta), chars),
    {
        let mut tool = self;
        let mut meta = match tool.meta {
            Some(meta) => meta,
            None => Meta::new(),
        };
        set_size(&mut meta, chars);
        tool.meta = Some(meta);
        tool
    }
}

/// A [`Meta`] that asks for a size and holds nothing else, for places where a tool is described
/// without its builder methods.
#[must_use]
pub fn anthropic_max_result_size_chars_meta(chars: u32) -> (meta: Meta)
    ensures
        meta@ == Map::empty().insert(MAX_RESULT_SIZE_CHARS_META_KEY@, size_entry(chars)),
{
    let mut meta = Meta::new();
    set_size(&mut meta, chars);
    meta
}

/// No size above the ceiling is asked for, and a size up to the ceiling is asked for as it is.
pub proof fn sizes_stay_under_the_ceiling(entries: Map<Seq<char>, JsonView>, chars: u32)
    ensures
        with_size(entries, chars).get(MAX_RESULT_SIZE_CHARS_META_KEY@) matches Some(
            JsonView::Number(NumberView::Integer(size)),
        ) && size <= MAX_RESULT_SIZE_CHARS_CEILING && (chars <= MAX_RESULT_SIZE_CHARS_CEILING ==> size
            == chars) && (chars > MAX_RESULT_SIZE_CHARS_CEILING ==> size
            == MAX_RESULT_SIZE_CHARS_CEILING),
{
}

/// The last size that was asked for counts.
pub proof fn the_last_size_counts(entries: Map<Seq<char>, JsonView>, first: u32, last: u32)
    ensures
        with_size(with_size(entries, first), last) == with_size(entries, last),
{
    assert(with_size(with_size(entries, first), last) =~= with_size(entries, last));
}

/// Asking for a size leaves every other `_meta` entry as it was.
pub proof fn sizes_keep_other_entries(
    entries: Map<Seq<char>, JsonView>,
    chars: u32,
    key: Seq<char>,
)
    requires
        key != MAX_RESULT_SIZE_CHARS_META_KEY@,
    ensures
        with_size(entries, chars).get(key) == entries.get(key),
{
}

/// A size and a mark for promotion to a header can be set in either order.
pub proof fn sizes_and_marks_commute(
    entries: Map<Seq<char>, JsonView>,
    chars: u32,
    param: Seq<char>,
)
    ensures
        with_header_param(with_size(entries, chars), param) == with_size(
            with_header_param(entries, param),
            chars,
        ),
{
    reveal_strlit("anthropic/maxResultSizeChars");
    reveal_strlit("io.modelcontextprotocol/x-mcp-header-param");
    assert(MAX_RESULT_SIZE_CHARS_META_KEY@[0] == 'a');
    assert(X_MCP_HEADER_PARAM_META_KEY@[0] == 'i');
    assert(with_header_param(with_size(entries, chars), param) =~= with_size(
        with_header_param(entries, param),
        chars,
    ));
}

/// The stand-alone meta is that of a tool without `_meta` for which the size was asked.
pub proof fn standalone_size_agrees_with_the_tool(chars: u32)
    ensures
        with_size(meta_entries(None), chars) == Map::empty().insert(
            MAX_RESULT_SIZE_CHARS_META_KEY@,
            size_entry(chars),
        ),
{
}

/// The experimental capability of a server that pushes events into the session of `client`.
pub open spec fn channel_capability(client: Seq<char>) -> Seq<char> {
    client + "/channel"@
}

/// The experimental capability of a channel that takes part in the tool approvals of `client`.
pub open spec fn channel_permission_capability(client: Seq<char>) -> Seq<char> {
    client + "/channel/permission"@
}

/// The method of the notification by which a channel pushes an event.
pub open spec fn channel_notification_method(client: Seq<char>) -> Seq<char> {
    "notifications/"@ + client + "/channel"@
}

/// The method of the notification by which the client asks a channel for a tool approval.
pub open spec fn channel_permission_request_method(client: Seq<char>) -> Seq<char> {
    "notifications/"@ + client + "/channel/permission_request"@
}

/// The method of the notification by which a channel answers a request for a tool approval.
pub open spec fn channel_permission_method(client: Seq<char>) -> Seq<char> {
    "notifications/"@ + client + "/channel/permission"@
}

/// Experimental capability of a server that pushes events into the session of `client`.
pub fn claude_channel_capability(client: &str) -> (name: String)
    ensures
        name@ == channel_capability(client@),
{
    client.to_string().concat("/channel")
}

/// Experimental capability of a channel that takes part in the tool approvals of `client`. It is
/// declared beside that of [`claude_channel_capability`].
pub fn claude_channel_permission_capability(client: &str) -> (name: String)
    ensures
        name@ == channel_permission_capability(client@),
{
    client.to_string().concat("/channel/permission")
}

/// Method of the notification by which a channel pushes an event.
pub fn claude_channel_notification_method(client: &str) -> (method: String)
    ensures
        method@ == channel_notification_method(client@),
{
    "notifications/".to_string().concat(client).concat("/channel")
}

/// Method of the notification by which the client asks a channel for a tool approval. Its
/// parameters are a [`ClaudeChannelPermissionRequestParam`].
pub fn claude_channel_permission_request_method(client: &str) -> (method: String)
    ensures
        method@ == channel_permission_request_method(client@),
{
    "notifications/".to_string().concat(client).concat("/channel/permission_request")
}

/// Method of the notification by which a channel answers a request for a tool approval.
pub fn claude_channel_permission_method(client: &str) -> (method: String)
    ensures
        method@ == channel_permission_method(client@),
{
    "notifications/".to_string().concat(client).concat("/channel/permission")
}

/// The capabilities with `name` declared, without settings.
pub open spec fn with_capability(
    capabilities: Map<Seq<char>, Map<Seq<char>, JsonView>>,
    name: Seq<char>,
) -> Map<Seq<char>, Map<Seq<char>, JsonView>> {
    capabilities.insert(name, Map::empty())
}

/// Declares a capability without settings.
fn declare(capabilities: &mut ExperimentalCapabilities, name: String)
    ensures
        capabilities_view(*final(capabilities)) == with_capability(
            capabilities_view(*old(capabilities)),
            name@,
        ),
{
    let settings: JsonObject = StringMap::new();
    let ghost none = settings;
    capabilities.insert(name, settings);
    proof {
        crate::json::lemma_empty_object_view(none);
        assert(capabilities_view(*capabilities) =~= with_capability(
            capabilities_view(*old(capabilities)),
            name@,
        ));
    }
}

/// Declares the capability of a channel to `client`, without settings. The client looks for it
/// among the experimental capabilities.
pub fn insert_claude_channel(capabilities: &mut ExperimentalCapabilities, client: &str)
    ensures
        capabilities_view(*final(capabilities)) == with_capability(
            capabilities_view(*old(capabilities)),
            channel_capability(client@),
        ),
{
    declare(capabilities, claude_channel_capability(client));
}

/// Declares the capability of a channel that takes part in the tool approvals of `client`, without
/// settings.
pub fn insert_claude_channel_permission(capabilities: &mut ExperimentalCapabilities, client: &str)
    ensures
        capabilities_view(*final(capabilities)) == with_capability(
            capabilities_view(*old(capabilities)),
            channel_permission_capability(client@),
        ),
{
    declare(capabilities, claude_channel_permission_capability(client));
}

/// The two capabilities are different ones, so that declaring both declares two, in either order.
pub proof fn the_capabilities_coexist(
    capabilities: Map<Seq<char>, Map<Seq<char>, JsonView>>,
    client: Seq<char>,
)
    ensures
        ({
            let channel = channel_capability(client);
            let permission = channel_permission_capability(client);
            let both = with_capability(with_capability(capabilities, channel), permission);
            &&& channel != permission
            &&& both.contains_key(channel)
            &&& both.contains_key(permission)
            &&& both.dom() == capabilities.dom().insert(channel).insert(permission)
            &&& both == with_capability(with_capability(capabilities, permission), channel)
        }),
{
    reveal_strlit("/channel");
    reveal_strlit("/channel/permission");
    let channel = channel_capability(client);
    let permission = channel_permission_capability(client);
    assert(channel.len() != permission.len());
    let both = with_capability(with_capability(capabilities, channel), permission);
    assert(both =~= with_capability(with_capability(capabilities, permission), channel));
    assert(both.dom() =~= capabilities.dom().insert(channel).insert(permission));
}

/// The three notifications of a channel have different methods.
pub proof fn the_methods_differ(client: Seq<char>)
    ensures
        channel_notification_method(client) != channel_permission_request_method(client),
        channel_notification_method(client) != channel_permission_method(client),
        channel_permission_request_method(client) != channel_permission_method(client),
{
    reveal_strlit("/channel");
    reveal_strlit("/channel/permission_request");
    reveal_strlit("/channel/permission");
    let start = "notifications/"@ + client;
    assert(channel_notification_method(client).len() == start.len() + 8);
    assert(channel_permission_request_method(client).len() == start.len() + 27);
    assert(channel_permission_method(client).len() == start.len() + 19);
}

/// A declared capability has no settings, declaring it again changes nothing, and the other
/// capabilities keep theirs.
pub proof fn declaring_sets_one_capability(
    capabilities: Map<Seq<char>, Map<Seq<char>, JsonView>>,
    name: Seq<char>,
    other: Seq<char>,
)
    requires
        other != name,
    ensures
        with_capability(capabilities, name).get(name) == Some(Map::<Seq<char>, JsonView>::empty()),
        with_capability(with_capability(capabilities, name), name) == with_capability(
            capabilities,
            name,
        ),
        with_capability(capabilities, name).get(other) == capabilities.get(other),
{
    assert(with_capability(with_capability(capabilities, name), name) =~= with_capability(
        capabilities,
        name,
    ));
}

/// What goes out when a notification is sent to `peer`: the notification, on the channel of the
/// peer, or nothing where nobody receives on it any more.
pub open spec fn goes_out(
    peer: Peer<RoleServer>,
    notification: CustomNotificationView,
    sent: Option<Outbound>,
) -> bool {
    match peer.outbound {
        Some(channel) => sent matches Some(Outbound {
            channel: on,
            notification: ServerNotification::CustomNotification(custom),
        }) && on == channel && custom@ == notification,
        None => sent is None,
    }
}

impl Peer<RoleServer> {
    /// Pushes an event into the session of `client`.
    pub fn notify_claude_channel(
        &self,
        client: &str,
        params: ClaudeChannelNotificationParam,
    ) -> (sent: Option<Outbound>)
        ensures
            goes_out(
                *self,
                CustomNotificationView {
                    method: channel_notification_method(client@),
                    params: Some(event_json(params@)),
                },
                sent,
            ),
    {
        self.notify(claude_channel_notification_method(client), params)
    }

    /// Answers a request of `client` for a tool approval. The client drops an answer whose `request_id` is
    /// not that of a request that is still open.
    pub fn notify_claude_channel_permission(
        &self,
        client: &str,
        params: ClaudeChannelPermissionParam,
    ) -> (sent: Option<Outbound>)
        ensures
            goes_out(
                *self,
                CustomNotificationView {
                    method: channel_permission_method(client@),
                    params: Some(answer_json(params@)),
                },
                sent,
            ),
    {
        self.notify(claude_channel_permission_method(client), params)
    }

    /// Sends a notification of `method` with a payload.
    fn notify<T: ToJson>(&self, method: String, params: T) -> (sent: Option<Outbound>)
        requires
            params.json() is Ok,
        ensures
            goes_out(
                *self,
                CustomNotificationView { method: method@, params: Some(params.json()->Ok_0) },
                sent,
            ),
    {
        let value = match params.to_json() {
            Ok(value) => value,
            Err(_) => JsonValue::Null,
        };
        let notification = CustomNotification::new(method, Some(value));
        self.send_notification(ServerNotification::CustomNotification(notification))
    }
}

/// The result of a tool that carries a value as structured content, its JSON text as the first
/// content block, and the summary that `text_summary` gives of it as the second. The summary stays
/// readable where the client cannot show the value.
pub fn structured_with_text_fallback<T: ToJson, F: FnOnce(&T) -> String>(
    value: T,
    text_summary: F,
) -> (outcome: Result<CallToolResult, ErrorData>)
    requires
        text_summary.requires((&value,)),
    ensures
        exists|summary: String|
            #![trigger text_summary.ensures((&value,), summary)]
            text_summary.ensures((&value,), summary) && outcome_view(outcome) == json_result(
                value.json(),
                seq![ContentView::Text(summary@)],
            ),
{
    let summary = text_summary(&value);
    let ghost text = summary;
    let mut result = match Json(value).into_call_tool_result() {
        Ok(result) => result,
        Err(error) => {
            proof {
                assert(text_summary.ensures((&value,), text));
            }
            return Err(error);
        },
    };
    let ghost before = result@;
    result.content.push(Content::text(summary));
    proof {
        assert(text_summary.ensures((&value,), text));
        let expected = structured_result(value.json()->Ok_0).content;
        assert(before.content =~= expected);
        assert(result@.content =~= expected + seq![ContentView::Text(text@)]);
    }
    Ok(result)
}

/// A result without structured content that is an empty object.
pub open spec fn normalized(result: CallToolResultView) -> CallToolResultView {
    if result.structured_content == Some(JsonView::Object(Map::empty())) {
        CallToolResultView { structured_content: None, ..result }
    } else {
        result
    }
}

/// Removes structured content that is an empty object: the client would show it in place of the
/// content blocks.
pub fn normalize_call_tool_result(result: &mut CallToolResult)
    ensures
        final(result)@ == normalized(old(result)@),
        final(result).content == old(result).content,
        final(result).is_error == old(result).is_error,
        final(result).meta == old(result).meta,
{
    let is_empty_object = match &result.structured_content {
        Some(JsonValue::Object(object)) => {
            proof {
                lemma_object_view(*object);
                crate::json::lemma_empty_object_view(*object);
            }
            object.is_empty()
        },
        _ => false,
    };
    if is_empty_object {
        result.structured_content = None;
    }
}

/// The client reads the event back that was sent, and one from a peer without a receiver is not
/// sent at all.
pub proof fn sent_events_are_read_back(
    peer: Peer<RoleServer>,
    client: Seq<char>,
    params: ClaudeChannelNotificationParam,
    sent: Option<Outbound>,
)
    requires
        goes_out(
            peer,
            CustomNotificationView {
                method: channel_notification_method(client),
                params: Some(event_json(params@)),
            },
            sent,
        ),
    ensures
        sent is Some <==> peer.outbound is Some,
        sent matches Some(Outbound {
            notification: ServerNotification::CustomNotification(custom),
            ..
        }) ==> ClaudeChannelNotificationParam::decoded(custom@.params->0) == Some(params@),
{
    events_round_trip(params@);
}

/// The client reads the answer back that was sent, with the id of the request unchanged, and one
/// from a peer without a receiver is not sent at all.
pub proof fn sent_answers_are_read_back(
    peer: Peer<RoleServer>,
    client: Seq<char>,
    params: ClaudeChannelPermissionParam,
    sent: Option<Outbound>,
)
    requires
        goes_out(
            peer,
            CustomNotificationView {
                method: channel_permission_method(client),
                params: Some(answer_json(params@)),
            },
            sent,
        ),
    ensures
        sent is Some <==> peer.outbound is Some,
        sent matches Some(Outbound {
            notification: ServerNotification::CustomNotification(custom),
            ..
        }) ==> ClaudeChannelPermissionParam::decoded(custom@.params->0) == Some(params@),
{
    answers_round_trip(params@);
}

/// A summary is a further text block behind the JSON text.
pub proof fn a_summary_is_a_text_artifact<T: ToJson>(value: T, extras: Vec<Content>, summary: Seq<char>)
    requires
        extras@.len() == 1,
        extras@[0]@ == ContentView::Text(summary),
    ensures
        (JsonAndArtifact { value, extras }).tool_result() == json_result(
            value.json(),
            seq![ContentView::Text(summary)],
        ),
{
    assert(contents_view(extras@) =~= seq![ContentView::Text(summary)]);
}

/// Normalizing removes structured content that is an empty object and keeps any other, and it
/// keeps every content block.
pub proof fn normalizing_removes_the_empty_object_alone(result: CallToolResultView)
    ensures
        normalized(result) == (CallToolResultView {
            structured_content: normalized(result).structured_content,
            ..result
        }),
        normalized(result).structured_content == (match result.structured_content {
            Some(JsonView::Object(members)) => if members == Map::<
                Seq<char>,
                JsonView,
            >::empty() {
                None
            } else {
                result.structured_content
            },
            _ => result.structured_content,
        }),
{
}

/// Normalizing a second time changes nothing.
pub proof fn normalizing_again_changes_nothing(result: CallToolResultView)
    ensures
        normalized(normalized(result)) == normalized(result),
{
}

/// Nothing is lost by normalizing the result of a tool: the JSON text of the value stays the first
/// content block, and the further blocks stay behind it.
pub proof fn normalizing_keeps_the_json_text(
    value: JsonView,
    extras: Seq<ContentView>,
)
    ensures
        json_result(Ok(value), extras) matches Ok(result) && normalized(result).content == seq![
            ContentView::Text(json_text(value)),
        ] + extras,
{
}

} // verus!
