//! Laws of the payloads of channel notifications: which member each field is read from and written
//! to.

use vstd::prelude::*;

use crate::anthropic_ext::payload::{
    texts_view, ClaudeChannelNotificationParam, ClaudeChannelPermissionParam,
    ClaudeChannelPermissionRequestParam, ClaudeChannelPermissionVerdict,
};
use crate::json::{FromJson, JsonValue, JsonView, PayloadError, ToJson};
use crate::laws::channels::holds_texts;
use crate::model::CustomNotification;
use crate::string_map::StringMap;

verus! {

/// A JSON value is the given text.
pub open spec fn is_text(value: JsonView, text: Seq<char>) -> bool {
    value matches JsonView::String(t) && t == text
}

/// A JSON value is an object of texts.
pub open spec fn is_texts(value: JsonView) -> bool {
    value matches JsonView::Object(members) && forall|name: Seq<char>| #[trigger]
        members.contains_key(name) ==> members[name] is String
}

/// An event is written as an object with its body, and with its attributes exactly where it has
/// any, each as it is. There is no other member.
pub proof fn events_are_written_member_by_member(
    event: ClaudeChannelNotificationParam,
    outcome: Result<JsonValue, String>,
)
    requires
        call_ensures(<ClaudeChannelNotificationParam as ToJson>::to_json, (event,), outcome),
    ensures
        outcome matches Ok(value) && value@ matches JsonView::Object(members) && {
            &&& members.contains_key("content"@)
            &&& is_text(members["content"@], event.content@)
            &&& members.contains_key("meta"@) <==> event.meta is Some
            &&& event.meta matches Some(meta) ==> holds_texts(members["meta"@], meta)
            &&& forall|name: Seq<char>| #[trigger]
                members.contains_key(name) ==> name == "content"@ || name == "meta"@
        },
{
    reveal_strlit("content");
    reveal_strlit("meta");
    assert("content"@.len() != "meta"@.len());
}

/// An event is read off an object that has a text as its `content` and, as its `meta`, nothing,
/// null or texts: the body is the former, the attributes are the latter, and other members do not
/// matter. No other object holds an event.
pub proof fn events_are_read_member_by_member(
    value: JsonValue,
    payload: Result<ClaudeChannelNotificationParam, PayloadError>,
    members: Map<Seq<char>, JsonView>,
)
    requires
        call_ensures(
            <ClaudeChannelNotificationParam as FromJson>::from_json,
            (&value,),
            payload,
        ),
        value@ == JsonView::Object(members),
    ensures
        payload is Ok <==> {
            &&& members.contains_key("content"@) && members["content"@] is String
            &&& members.contains_key("meta"@) ==> members["meta"@] is Null || is_texts(
                members["meta"@],
            )
        },
        payload matches Ok(event) ==> {
            &&& is_text(members["content"@], event.content@)
            &&& event.meta is Some <==> members.contains_key("meta"@) && members["meta"@] !is Null
            &&& event.meta matches Some(meta) ==> holds_texts(members["meta"@], meta)
        },
{
    if let Ok(event) = payload {
        if let Some(meta) = event.meta {
            lemma_texts_are_held(members["meta"@], meta);
        }
    }
}

/// An event is read off a list of a body and, where it goes on, attributes or null.
pub proof fn events_are_read_in_order(
    value: JsonValue,
    payload: Result<ClaudeChannelNotificationParam, PayloadError>,
)
    requires
        call_ensures(
            <ClaudeChannelNotificationParam as FromJson>::from_json,
            (&value,),
            payload,
        ),
        value@ !is Object,
    ensures
        payload is Ok <==> (value@ matches JsonView::Array(elements) && {
            &&& 1 <= elements.len() <= 2
            &&& elements[0] is String
            &&& elements.len() == 2 ==> elements[1] is Null || is_texts(elements[1])
        }),
        payload matches Ok(event) ==> (value@ matches JsonView::Array(elements) && {
            &&& is_text(elements[0], event.content@)
            &&& event.meta is Some <==> elements.len() == 2 && elements[1] !is Null
            &&& event.meta matches Some(meta) ==> holds_texts(elements[1], meta)
        }),
{
    if let Ok(event) = payload {
        if let Some(meta) = event.meta {
            lemma_texts_are_held(value@->Array_0[1], meta);
        }
    }
}

/// Texts that were read off a value are its members.
proof fn lemma_texts_are_held(value: JsonView, texts: StringMap<String>)
    requires
        is_texts(value),
        texts_view(texts) == value->Object_0.map_values(|member: JsonView| member->String_0),
    ensures
        holds_texts(value, texts),
{
    let members = value->Object_0;
    let views = texts_view(texts);
    assert forall|name: Seq<char>| #[trigger]
        members.contains_key(name) <==> texts@.contains_key(name) by {
        assert(views.contains_key(name) <==> texts@.contains_key(name));
        assert(views.contains_key(name) <==> members.contains_key(name));
    }
    assert forall|name: Seq<char>| texts@.contains_key(name) implies #[trigger] members[name]
        == JsonView::String(texts@[name]@) by {
        assert(views.contains_key(name));
        assert(views[name] == texts@[name]@);
        assert(members.contains_key(name));
        assert(members[name] is String);
    }
}

/// A fresh event has its body alone.
pub proof fn fresh_events_have_their_body_alone(
    content: String,
    event: ClaudeChannelNotificationParam,
)
    requires
        call_ensures(ClaudeChannelNotificationParam::new, (content,), event),
    ensures
        event.content@ == content@,
        event.meta is None,
{
}

/// Setting an attribute sets that one, and keeps the body and the other attributes.
pub proof fn one_attribute_is_set(
    event: ClaudeChannelNotificationParam,
    key: String,
    value: String,
    after: ClaudeChannelNotificationParam,
)
    requires
        call_ensures(ClaudeChannelNotificationParam::with_meta, (event, key, value), after),
    ensures
        after.content@ == event.content@,
        after.meta matches Some(meta) && {
            &&& meta@.contains_key(key@)
            &&& meta@[key@]@ == value@
            &&& forall|name: Seq<char>| #[trigger]
                meta@.contains_key(name) <==> name == key@ || (event.meta matches Some(before)
                    && before@.contains_key(name))
            &&& event.meta matches Some(before) ==> forall|name: Seq<char>|
                before@.contains_key(name) && name != key@ ==> (#[trigger] meta@[name])@
                    == before@[name]@
        },
{
    let meta = after.meta->0;
    let views = texts_view(meta);
    let earlier = match event.meta {
        Some(before) => texts_view(before),
        None => Map::empty(),
    };
    assert(views == earlier.insert(key@, value@));
    assert forall|name: Seq<char>| #[trigger] meta@.contains_key(name) <==> name == key@ || (
    event.meta matches Some(before) && before@.contains_key(name)) by {
        assert(views.contains_key(name) <==> meta@.contains_key(name));
        if let Some(before) = event.meta {
            assert(earlier.contains_key(name) <==> before@.contains_key(name));
        }
    }
    assert(meta@.contains_key(key@));
    assert(views[key@] == meta@[key@]@);
    if let Some(before) = event.meta {
        assert forall|name: Seq<char>| before@.contains_key(name) && name != key@ implies (
        #[trigger] meta@[name])@ == before@[name]@ by {
            assert(meta@.contains_key(name));
            assert(views[name] == meta@[name]@);
            assert(earlier[name] == before@[name]@);
        }
    }
}

/// Replacing the attributes puts the given ones in the place of all that were there, and keeps the
/// body; a copy has the same body and the same attributes.
pub proof fn attributes_are_replaced_and_copied(
    event: ClaudeChannelNotificationParam,
    meta: StringMap<String>,
    after: ClaudeChannelNotificationParam,
    copy: ClaudeChannelNotificationParam,
)
    requires
        call_ensures(ClaudeChannelNotificationParam::with_meta_map, (event, meta), after),
        call_ensures(<ClaudeChannelNotificationParam as Clone>::clone, (&event,), copy),
    ensures
        after.content@ == event.content@,
        after.meta matches Some(new) && same_texts(new, meta),
        copy.content@ == event.content@,
        match (copy.meta, event.meta) {
            (Some(new), Some(old_meta)) => same_texts(new, old_meta),
            (None, None) => true,
            _ => false,
        },
{
    lemma_same_texts(after.meta->0, meta);
    if let (Some(new), Some(old_meta)) = (copy.meta, event.meta) {
        lemma_same_texts(new, old_meta);
    }
}

/// Two maps hold the same texts under the same keys.
pub open spec fn same_texts(one: StringMap<String>, other: StringMap<String>) -> bool {
    &&& forall|name: Seq<char>| #[trigger]
        one@.contains_key(name) <==> other@.contains_key(name)
    &&& forall|name: Seq<char>|
        one@.contains_key(name) ==> (#[trigger] one@[name])@ == other@[name]@
}

proof fn lemma_same_texts(one: StringMap<String>, other: StringMap<String>)
    requires
        texts_view(one) == texts_view(other),
    ensures
        same_texts(one, other),
{
    let views = texts_view(one);
    assert forall|name: Seq<char>| #[trigger]
        one@.contains_key(name) <==> other@.contains_key(name) by {
        assert(views.contains_key(name) <==> one@.contains_key(name));
        assert(texts_view(other).contains_key(name) <==> other@.contains_key(name));
    }
    assert forall|name: Seq<char>| one@.contains_key(name) implies (#[trigger] one@[name])@
        == other@[name]@ by {
        assert(views[name] == one@[name]@);
        assert(other@.contains_key(name));
        assert(texts_view(other)[name] == other@[name]@);
    }
}

/// A request is written as an object with exactly its four members, each the text of the field of
/// its name.
pub proof fn requests_are_written_member_by_member(
    request: ClaudeChannelPermissionRequestParam,
    outcome: Result<JsonValue, String>,
)
    requires
        call_ensures(<ClaudeChannelPermissionRequestParam as ToJson>::to_json, (request,), outcome),
    ensures
        outcome matches Ok(value) && value@ matches JsonView::Object(members) && {
            &&& members.contains_key("request_id"@)
            &&& is_text(members["request_id"@], request.request_id@)
            &&& members.contains_key("tool_name"@)
            &&& is_text(members["tool_name"@], request.tool_name@)
            &&& members.contains_key("description"@)
            &&& is_text(members["description"@], request.description@)
            &&& members.contains_key("input_preview"@)
            &&& is_text(members["input_preview"@], request.input_preview@)
            &&& forall|name: Seq<char>| #[trigger]
                members.contains_key(name) ==> name == "request_id"@ || name == "tool_name"@ || name
                    == "description"@ || name == "input_preview"@
        },
{
    reveal_strlit("request_id");
    reveal_strlit("tool_name");
    reveal_strlit("description");
    reveal_strlit("input_preview");
    assert("request_id"@.len() == 10 && "tool_name"@.len() == 9 && "description"@.len() == 11
        && "input_preview"@.len() == 13);
}

/// A request is read off every object in which the four members are texts, each field from the
/// member of its name, and off no other object.
pub proof fn requests_are_read_member_by_member(
    value: JsonValue,
    payload: Result<ClaudeChannelPermissionRequestParam, PayloadError>,
    members: Map<Seq<char>, JsonView>,
)
    requires
        call_ensures(
            <ClaudeChannelPermissionRequestParam as FromJson>::from_json,
            (&value,),
            payload,
        ),
        value@ == JsonView::Object(members),
    ensures
        payload is Ok <==> {
            &&& members.contains_key("request_id"@) && members["request_id"@] is String
            &&& members.contains_key("tool_name"@) && members["tool_name"@] is String
            &&& members.contains_key("description"@) && members["description"@] is String
            &&& members.contains_key("input_preview"@) && members["input_preview"@] is String
        },
        payload matches Ok(request) ==> {
            &&& is_text(members["request_id"@], request.request_id@)
            &&& is_text(members["tool_name"@], request.tool_name@)
            &&& is_text(members["description"@], request.description@)
            &&& is_text(members["input_preview"@], request.input_preview@)
        },
{
}

/// A request is read off a list of four texts, the fields in their order.
pub proof fn requests_are_read_in_order(
    value: JsonValue,
    payload: Result<ClaudeChannelPermissionRequestParam, PayloadError>,
)
    requires
        call_ensures(
            <ClaudeChannelPermissionRequestParam as FromJson>::from_json,
            (&value,),
            payload,
        ),
        value@ !is Object,
    ensures
        payload is Ok <==> (value@ matches JsonView::Array(elements) && elements.len() == 4
            && elements[0] is String && elements[1] is String && elements[2] is String
            && elements[3] is String),
        payload matches Ok(request) ==> (value@ matches JsonView::Array(elements) && {
            &&& is_text(elements[0], request.request_id@)
            &&& is_text(elements[1], request.tool_name@)
            &&& is_text(elements[2], request.description@)
            &&& is_text(elements[3], request.input_preview@)
        }),
{
}

/// A verdict is written as its word, and is read off its word or off an object whose only member
/// is its word with null, and off nothing else.
pub proof fn verdicts_are_their_words(
    verdict: ClaudeChannelPermissionVerdict,
    outcome: Result<JsonValue, String>,
    value: JsonValue,
    payload: Result<ClaudeChannelPermissionVerdict, PayloadError>,
)
    requires
        call_ensures(<ClaudeChannelPermissionVerdict as ToJson>::to_json, (verdict,), outcome),
        call_ensures(
            <ClaudeChannelPermissionVerdict as FromJson>::from_json,
            (&value,),
            payload,
        ),
    ensures
        outcome matches Ok(word) && is_text(
            word@,
            if verdict is Allow {
                "allow"@
            } else {
                "deny"@
            },
        ),
        payload == Ok::<ClaudeChannelPermissionVerdict, PayloadError>(
            ClaudeChannelPermissionVerdict::Allow,
        ) <==> is_text(value@, "allow"@) || is_lone_null(value@, "allow"@),
        payload == Ok::<ClaudeChannelPermissionVerdict, PayloadError>(
            ClaudeChannelPermissionVerdict::Deny,
        ) <==> is_text(value@, "deny"@) || is_lone_null(value@, "deny"@),
{
    reveal_strlit("allow");
    reveal_strlit("deny");
    assert("allow"@.len() != "deny"@.len());
    lemma_lone_null(value@, "allow"@);
    lemma_lone_null(value@, "deny"@);
    assert(!(is_lone_null(value@, "allow"@) && is_lone_null(value@, "deny"@)));
}

/// A JSON value is an object whose only member has the given name and is null.
pub open spec fn is_lone_null(value: JsonView, name: Seq<char>) -> bool {
    value matches JsonView::Object(members) && members.contains_key(name) && members[name] is Null
        && forall|other: Seq<char>| #[trigger] members.contains_key(other) ==> other == name
}

proof fn lemma_lone_null(value: JsonView, name: Seq<char>)
    ensures
        is_lone_null(value, name) <==> value == JsonView::Object(
            Map::empty().insert(name, JsonView::Null),
        ),
{
    if is_lone_null(value, name) {
        assert(value->Object_0 =~= Map::empty().insert(name, JsonView::Null));
    }
}

/// An answer is written as an object with exactly the id of the request, as it is, and the word
/// for the verdict.
pub proof fn answers_are_written_member_by_member(
    answer: ClaudeChannelPermissionParam,
    outcome: Result<JsonValue, String>,
)
    requires
        call_ensures(<ClaudeChannelPermissionParam as ToJson>::to_json, (answer,), outcome),
    ensures
        outcome matches Ok(value) && value@ matches JsonView::Object(members) && {
            &&& members.contains_key("request_id"@)
            &&& is_text(members["request_id"@], answer.request_id@)
            &&& members.contains_key("behavior"@)
            &&& is_text(
                members["behavior"@],
                if answer.behavior is Allow {
                    "allow"@
                } else {
                    "deny"@
                },
            )
            &&& forall|name: Seq<char>| #[trigger]
                members.contains_key(name) ==> name == "request_id"@ || name == "behavior"@
        },
{
    reveal_strlit("request_id");
    reveal_strlit("behavior");
    assert("request_id"@.len() != "behavior"@.len());
}

/// An answer is read off every object with a text as its `request_id` and a verdict as its
/// `behavior`, each field from the member of its name, and off no other object.
pub proof fn answers_are_read_member_by_member(
    value: JsonValue,
    payload: Result<ClaudeChannelPermissionParam, PayloadError>,
    members: Map<Seq<char>, JsonView>,
)
    requires
        call_ensures(
            <ClaudeChannelPermissionParam as FromJson>::from_json,
            (&value,),
            payload,
        ),
        value@ == JsonView::Object(members),
    ensures
        payload is Ok <==> {
            &&& members.contains_key("request_id"@) && members["request_id"@] is String
            &&& members.contains_key("behavior"@) && (means_allow(members["behavior"@])
                || means_deny(members["behavior"@]))
        },
        payload matches Ok(answer) ==> {
            &&& is_text(members["request_id"@], answer.request_id@)
            &&& answer.behavior is Allow <==> means_allow(members["behavior"@])
            &&& answer.behavior is Deny <==> means_deny(members["behavior"@])
        },
{
    lemma_verdicts(members["behavior"@]);
}

/// An answer is read off a list of a text and a verdict, in this order.
pub proof fn answers_are_read_in_order(
    value: JsonValue,
    payload: Result<ClaudeChannelPermissionParam, PayloadError>,
)
    requires
        call_ensures(
            <ClaudeChannelPermissionParam as FromJson>::from_json,
            (&value,),
            payload,
        ),
        value@ !is Object,
    ensures
        payload is Ok <==> (value@ matches JsonView::Array(elements) && elements.len() == 2
            && elements[0] is String && (means_allow(elements[1]) || means_deny(elements[1]))),
        payload matches Ok(answer) ==> (value@ matches JsonView::Array(elements) && {
            &&& is_text(elements[0], answer.request_id@)
            &&& answer.behavior is Allow <==> means_allow(elements[1])
            &&& answer.behavior is Deny <==> means_deny(elements[1])
        }),
{
    if let JsonView::Array(elements) = value@ {
        lemma_verdicts(elements[1]);
    }
}

/// A JSON value says that a call may go on.
pub open spec fn means_allow(value: JsonView) -> bool {
    is_text(value, "allow"@) || is_lone_null(value, "allow"@)
}

/// A JSON value says that a call is rejected.
pub open spec fn means_deny(value: JsonView) -> bool {
    is_text(value, "deny"@) || is_lone_null(value, "deny"@)
}

proof fn lemma_verdicts(value: JsonView)
    ensures
        crate::anthropic_ext::payload::verdict_in(value) == Some(
            ClaudeChannelPermissionVerdict::Allow,
        ) <==> means_allow(value),
        crate::anthropic_ext::payload::verdict_in(value) == Some(
            ClaudeChannelPermissionVerdict::Deny,
        ) <==> means_deny(value),
{
    reveal_strlit("allow");
    reveal_strlit("deny");
    assert("allow"@.len() != "deny"@.len());
    lemma_lone_null(value, "allow"@);
    lemma_lone_null(value, "deny"@);
    assert(!(is_lone_null(value, "allow"@) && is_lone_null(value, "deny"@)));
}

/// An answer holds the id that is given, and the verdict that its constructor names.
pub proof fn answers_hold_what_is_given(
    request_id: String,
    behavior: ClaudeChannelPermissionVerdict,
    answer: ClaudeChannelPermissionParam,
    allow: ClaudeChannelPermissionParam,
    deny: ClaudeChannelPermissionParam,
    copy: ClaudeChannelPermissionParam,
)
    requires
        call_ensures(ClaudeChannelPermissionParam::new, (request_id, behavior), answer),
        call_ensures(ClaudeChannelPermissionParam::allow, (request_id,), allow),
        call_ensures(ClaudeChannelPermissionParam::deny, (request_id,), deny),
        call_ensures(<ClaudeChannelPermissionParam as Clone>::clone, (&answer,), copy),
    ensures
        answer.request_id@ == request_id@,
        answer.behavior == behavior,
        allow.request_id@ == request_id@,
        allow.behavior is Allow,
        deny.request_id@ == request_id@,
        deny.behavior is Deny,
        copy == answer,
{
}

/// A copy of a request has the same fields.
pub proof fn requests_are_copied(
    request: ClaudeChannelPermissionRequestParam,
    copy: ClaudeChannelPermissionRequestParam,
)
    requires
        call_ensures(<ClaudeChannelPermissionRequestParam as Clone>::clone, (&request,), copy),
    ensures
        copy.request_id@ == request.request_id@,
        copy.tool_name@ == request.tool_name@,
        copy.description@ == request.description@,
        copy.input_preview@ == request.input_preview@,
{
}

/// A payload that is asked for as the parameters of a notification is read off them in the same
/// way: each field from the member of its name.
pub proof fn parameters_are_read_member_by_member(
    notification: CustomNotification,
    members: Map<Seq<char>, JsonView>,
    request: Result<Option<ClaudeChannelPermissionRequestParam>, PayloadError>,
    answer: Result<Option<ClaudeChannelPermissionParam>, PayloadError>,
    event: Result<Option<ClaudeChannelNotificationParam>, PayloadError>,
)
    requires
        notification.params matches Some(value) && value@ == JsonView::Object(members),
        call_ensures(
            CustomNotification::params_as::<ClaudeChannelPermissionRequestParam>,
            (&notification,),
            request,
        ),
        call_ensures(
            CustomNotification::params_as::<ClaudeChannelPermissionParam>,
            (&notification,),
            answer,
        ),
        call_ensures(
            CustomNotification::params_as::<ClaudeChannelNotificationParam>,
            (&notification,),
            event,
        ),
    ensures
        request is Ok <==> {
            &&& members.contains_key("request_id"@) && members["request_id"@] is String
            &&& members.contains_key("tool_name"@) && members["tool_name"@] is String
            &&& members.contains_key("description"@) && members["description"@] is String
            &&& members.contains_key("input_preview"@) && members["input_preview"@] is String
        },
        request matches Ok(read) ==> (read matches Some(r) && {
            &&& is_text(members["request_id"@], r.request_id@)
            &&& is_text(members["tool_name"@], r.tool_name@)
            &&& is_text(members["description"@], r.description@)
            &&& is_text(members["input_preview"@], r.input_preview@)
        }),
        answer is Ok <==> {
            &&& members.contains_key("request_id"@) && members["request_id"@] is String
            &&& members.contains_key("behavior"@) && (means_allow(members["behavior"@])
                || means_deny(members["behavior"@]))
        },
        answer matches Ok(read) ==> (read matches Some(a) && {
            &&& is_text(members["request_id"@], a.request_id@)
            &&& a.behavior is Allow <==> means_allow(members["behavior"@])
            &&& a.behavior is Deny <==> means_deny(members["behavior"@])
        }),
        event is Ok <==> {
            &&& members.contains_key("content"@) && members["content"@] is String
            &&& members.contains_key("meta"@) ==> members["meta"@] is Null || is_texts(
                members["meta"@],
            )
        },
        event matches Ok(read) ==> (read matches Some(e) && {
            &&& is_text(members["content"@], e.content@)
            &&& e.meta is Some <==> members.contains_key("meta"@) && members["meta"@] !is Null
            &&& e.meta matches Some(meta) ==> holds_texts(members["meta"@], meta)
        }),
{
    lemma_verdicts(members["behavior"@]);
    if let Ok(Some(e)) = event {
        if let Some(meta) = e.meta {
            lemma_texts_are_held(members["meta"@], meta);
        }
    }
}

} // verus!
