//! The payloads of the channel notifications, and their shapes on the wire.

use vstd::prelude::*;

use crate::json::{
    lemma_array_view, lemma_object_insert, lemma_object_view, object_view, FromJson, JsonObject,
    JsonValue, JsonView, PayloadError, ToJson,
};
use crate::string_map::{ascending, lemma_key_stands_once, same_text, StringMap};

verus! {

/// What a map of strings stands for.
pub open spec fn texts_view(texts: StringMap<String>) -> Map<Seq<char>, Seq<char>> {
    texts@.map_values(|text: String| text@)
}

/// The JSON object of a map of strings.
pub open spec fn texts_json(texts: Map<Seq<char>, Seq<char>>) -> JsonView {
    JsonView::Object(texts.map_values(|text: Seq<char>| JsonView::String(text)))
}

/// The map of strings that a JSON value holds, where it is an object of strings.
pub open spec fn texts_in(value: JsonView) -> Option<Map<Seq<char>, Seq<char>>> {
    match value {
        JsonView::Object(members) => if forall|k: Seq<char>| #[trigger]
            members.contains_key(k) ==> members[k] is String {
            Some(members.map_values(|member: JsonView| member->String_0))
        } else {
            None
        },
        _ => None,
    }
}

/// Turns a map of strings into a JSON object.
fn texts_to_json(texts: &StringMap<String>) -> (object: JsonObject)
    ensures
        JsonView::Object(object_view(object)) == texts_json(texts_view(*texts)),
{
    let entries = texts.entries();
    let mut members: Vec<(String, JsonValue)> = Vec::new();
    let mut i: usize = 0;
    while i < entries.len()
        invariant
            i <= entries@.len(),
            members@.len() == i,
            forall|j: int|
                0 <= j < i ==> (#[trigger] members@[j]).0@ == entries@[j].0@ && members@[j].1
                    == JsonValue::String(entries@[j].1),
        decreases entries@.len() - i,
    {
        members.push((entries[i].0.clone(), JsonValue::String(entries[i].1.clone())));
        i = i + 1;
    }
    proof {
        assert(members@.map_values(|e: (String, JsonValue)| e.0@) =~= texts.keys());
    }
    let object = StringMap::from_ascending(members);
    proof {
        let keys = texts.keys();
        assert forall|k: Seq<char>| texts@.contains_key(k) implies #[trigger] object@[k]
            == JsonValue::String(texts@[k]) by {
            let i = keys.index_of(k);
            assert(keys[i] == k);
            assert(object.values()[i] == JsonValue::String(texts.values()[i]));
        }
        assert(object_view(object) =~= texts_json(texts_view(*texts))->Object_0);
    }
    object
}

/// Reads a map of strings off a JSON object.
fn texts_from_json(object: &JsonObject) -> (texts: Option<StringMap<String>>)
    ensures
        match texts_in(JsonView::Object(object_view(*object))) {
            Some(found) => texts matches Some(t) && texts_view(t) == found,
            None => texts is None,
        },
{
    let members = object.entries();
    let mut entries: Vec<(String, String)> = Vec::new();
    let mut i: usize = 0;
    while i < members.len()
        invariant
            i <= members@.len(),
            object.keys() == members@.map_values(|e: (String, JsonValue)| e.0@),
            object.values() == members@.map_values(|e: (String, JsonValue)| e.1),
            ascending(object.keys()),
            entries@.len() == i,
            forall|j: int|
                0 <= j < i ==> (#[trigger] entries@[j]).0@ == members@[j].0@ && members@[j].1
                    == JsonValue::String(entries@[j].1),
        decreases members@.len() - i,
    {
        match &members[i].1 {
            JsonValue::String(text) => {
                entries.push((members[i].0.clone(), text.clone()));
            },
            _ => {
                proof {
                    let k = object.keys()[i as int];
                    assert(k == members@[i as int].0@);
                    lemma_key_stands_once(object.keys(), i as int);
                    assert(object@.contains_key(k));
                    assert(object@[k] == members@[i as int].1);
                    assert(object_view(*object).contains_key(k));
                    assert(object_view(*object)[k] !is String);
                }
                return None;
            },
        }
        i = i + 1;
    }
    proof {
        assert(entries@.map_values(|e: (String, String)| e.0@) =~= object.keys());
    }
    let texts = StringMap::from_ascending(entries);
    proof {
        let keys = object.keys();
        let views = object_view(*object);
        assert forall|k: Seq<char>| #[trigger] views.contains_key(k) implies texts@.contains_key(k)
            && views[k] == JsonView::String(texts@[k]@) by {
            let i = keys.index_of(k);
            assert(keys[i] == k);
            assert(members@[i].1 == JsonValue::String(entries@[i].1));
            assert(texts.values()[i] == entries@[i].1);
        }
        assert(texts_view(texts) =~= texts_in(JsonView::Object(views))->0);
    }
    Some(texts)
}

/// The payload of a channel event.
#[derive(Debug, PartialEq)]
pub struct ClaudeChannelNotificationParam {
    /// Body of the event.
    pub content: String,
    /// Attributes of the event. The client drops an attribute whose name holds anything but
    /// letters, digits and underscores.
    pub meta: Option<StringMap<String>>,
}

/// What a [`ClaudeChannelNotificationParam`] stands for.
pub struct ChannelEvent {
    pub content: Seq<char>,
    pub meta: Option<Map<Seq<char>, Seq<char>>>,
}

impl View for ClaudeChannelNotificationParam {
    type V = ChannelEvent;

    open spec fn view(&self) -> ChannelEvent {
        ChannelEvent {
            content: self.content@,
            meta: match self.meta {
                Some(meta) => Some(texts_view(meta)),
                None => None,
            },
        }
    }
}

impl ClaudeChannelNotificationParam {
    /// An event with a body alone.
    pub fn new(content: String) -> (param: ClaudeChannelNotificationParam)
        ensures
            param@ == (ChannelEvent { content: content@, meta: None }),
    {
        ClaudeChannelNotificationParam { content, meta: None }
    }

    /// Sets an attribute.
    #[must_use]
    pub fn with_meta(self, key: String, value: String) -> (param: ClaudeChannelNotificationParam)
        ensures
            param@ == with_attribute(self@, key@, value@),
    {
        let mut param = self;
        let mut meta: StringMap<String> = match param.meta {
            Some(meta) => meta,
            None => StringMap::new(),
        };
        let ghost before = meta;
        meta.insert(key, value);
        proof {
            assert(texts_view(meta) =~= texts_view(before).insert(key@, value@));
            if self.meta is None {
                assert(texts_view(before) =~= Map::<Seq<char>, Seq<char>>::empty());
            }
        }
        param.meta = Some(meta);
        param
    }

    /// Replaces the attributes.
    #[must_use]
    pub fn with_meta_map(self, meta: StringMap<String>) -> (param: ClaudeChannelNotificationParam)
        ensures
            param@ == (ChannelEvent { meta: Some(texts_view(meta)), ..self@ }),
    {
        let mut param = self;
        param.meta = Some(meta);
        param
    }
}

/// An event with an attribute set.
pub open spec fn with_attribute(event: ChannelEvent, key: Seq<char>, value: Seq<char>) -> ChannelEvent {
    ChannelEvent {
        meta: Some(
            (match event.meta {
                Some(meta) => meta,
                None => Map::empty(),
            }).insert(key, value),
        ),
        ..event
    }
}

impl Clone for ClaudeChannelNotificationParam {
    fn clone(&self) -> (copy: ClaudeChannelNotificationParam)
        ensures
            copy@ == self@,
    {
        let meta = match &self.meta {
            Some(meta) => {
                let copy = meta.clone();
                proof {
                    assert forall|k: Seq<char>| meta@.contains_key(k) implies #[trigger] copy@[k]
                        == meta@[k] by {
                        let i = meta.keys().index_of(k);
                        assert(meta.keys()[i] == k);
                        crate::string_map::lemma_values_len(*meta);
                        assert(copy.values()[i] == meta.values()[i]);
                    }
                    assert(texts_view(copy) =~= texts_view(*meta));
                }
                Some(copy)
            },
            None => None,
        };
        ClaudeChannelNotificationParam { content: self.content.clone(), meta }
    }
}

/// An event on the wire: an object with its body, and with its attributes where it has any.
pub open spec fn event_json(event: ChannelEvent) -> JsonView {
    let body = Map::empty().insert("content"@, JsonView::String(event.content));
    match event.meta {
        Some(meta) => JsonView::Object(body.insert("meta"@, texts_json(meta))),
        None => JsonView::Object(body),
    }
}

/// The attributes that a member holds: none where it is absent or null, and otherwise the strings
/// of an object. The outer option is empty where the member has another shape.
pub open spec fn attributes_in(member: Option<JsonView>) -> Option<Option<Map<Seq<char>, Seq<char>>>> {
    match member {
        None => Some(None),
        Some(JsonView::Null) => Some(None),
        Some(value) => match texts_in(value) {
            Some(texts) => Some(Some(texts)),
            None => None,
        },
    }
}

/// The event that a body and attributes make.
pub open spec fn event_of(content: JsonView, meta: Option<JsonView>) -> Option<ChannelEvent> {
    match (content, attributes_in(meta)) {
        (JsonView::String(text), Some(attributes)) => Some(
            ChannelEvent { content: text, meta: attributes },
        ),
        _ => None,
    }
}

/// The event that a JSON value holds: an object with the members by name, whatever else it
/// holds, or an array with the body and, where it goes on, the attributes.
pub open spec fn event_in(value: JsonView) -> Option<ChannelEvent> {
    match value {
        JsonView::Object(members) => match members.get("content"@) {
            Some(content) => event_of(content, members.get("meta"@)),
            None => None,
        },
        JsonView::Array(elements) => if elements.len() == 1 {
            event_of(elements[0], None)
        } else if elements.len() == 2 {
            event_of(elements[0], Some(elements[1]))
        } else {
            None
        },
        _ => None,
    }
}

impl ToJson for ClaudeChannelNotificationParam {
    open spec fn json(&self) -> Result<JsonView, Seq<char>> {
        Ok(event_json(self@))
    }

    fn to_json(self) -> (outcome: Result<JsonValue, String>) {
        let mut object: JsonObject = StringMap::new();
        let ghost empty = object;
        let content = JsonValue::String(self.content);
        let ghost content_entry = content;
        object.insert("content".to_string(), content);
        let ghost body = object;
        proof {
            crate::json::lemma_empty_object_view(empty);
            lemma_object_insert(empty, body, "content"@, content_entry);
        }
        match &self.meta {
            Some(meta) => {
                let texts = texts_to_json(meta);
                proof {
                    lemma_object_view(texts);
                }
                let attributes = JsonValue::Object(texts);
                let ghost attributes_entry = attributes;
                object.insert("meta".to_string(), attributes);
                proof {
                    lemma_object_insert(body, object, "meta"@, attributes_entry);
                }
            },
            None => {},
        }
        proof {
            lemma_object_view(object);
        }
        Ok(JsonValue::Object(object))
    }
}

/// Reads an event off its body and its attributes.
fn read_event(content: &JsonValue, meta: Option<&JsonValue>) -> (event: Option<
    ClaudeChannelNotificationParam,
>)
    ensures
        match event_of(
            content@,
            match meta {
                Some(value) => Some(value@),
                None => None,
            },
        ) {
            Some(found) => event matches Some(e) && e@ == found,
            None => event is None,
        },
{
    let text = match content {
        JsonValue::String(text) => text.clone(),
        _ => {
            return None;
        },
    };
    let attributes = match meta {
        None => None,
        Some(JsonValue::Null) => None,
        Some(JsonValue::Object(object)) => {
            proof {
                lemma_object_view(*object);
            }
            match texts_from_json(object) {
                Some(texts) => Some(texts),
                None => {
                    return None;
                },
            }
        },
        Some(_) => {
            return None;
        },
    };
    Some(ClaudeChannelNotificationParam { content: text, meta: attributes })
}

impl FromJson for ClaudeChannelNotificationParam {
    open spec fn decoded(value: JsonView) -> Option<ChannelEvent> {
        event_in(value)
    }

    fn from_json(value: &JsonValue) -> (payload: Result<Self, PayloadError>) {
        let event = match value {
            JsonValue::Object(object) => {
                proof {
                    lemma_object_view(*object);
                }
                match object.get("content") {
                    Some(content) => read_event(content, object.get("meta")),
                    None => None,
                }
            },
            JsonValue::Array(elements) => {
                proof {
                    lemma_array_view(*elements);
                }
                if elements.len() == 1 {
                    read_event(&elements[0], None)
                } else if elements.len() == 2 {
                    read_event(&elements[0], Some(&elements[1]))
                } else {
                    None
                }
            },
            _ => None,
        };
        match event {
            Some(event) => Ok(event),
            None => Err(PayloadError),
        }
    }
}

/// Reading back what was written gives the event.
pub proof fn events_round_trip(event: ChannelEvent)
    ensures
        event_in(event_json(event)) == Some(event),
{
    reveal_strlit("content");
    reveal_strlit("meta");
    assert("content"@.len() != "meta"@.len());
    if let Some(meta) = event.meta {
        let members = texts_json(meta)->Object_0;
        assert(members.map_values(|member: JsonView| member->String_0) =~= meta);
    }
}

/// An event without attributes is written without the member for them, and one with attributes
/// holds exactly the two members.
pub proof fn absent_attributes_are_not_written(event: ChannelEvent)
    ensures
        event_json(event) matches JsonView::Object(members) && members.dom() == (if event.meta
            is Some {
            set!["content"@, "meta"@]
        } else {
            set!["content"@]
        }),
{
    let members = event_json(event)->Object_0;
    if event.meta is Some {
        assert(members.dom() =~= set!["content"@, "meta"@]);
    } else {
        assert(members.dom() =~= set!["content"@]);
    }
}

/// Setting an attribute leaves the body and the other attributes as they were, and the last value
/// that was set counts.
pub proof fn attributes_are_set_one_by_one(
    event: ChannelEvent,
    key: Seq<char>,
    first: Seq<char>,
    last: Seq<char>,
    other: Seq<char>,
)
    requires
        other != key,
    ensures
        with_attribute(event, key, last).content == event.content,
        with_attribute(event, key, last).meta->0.get(key) == Some(last),
        with_attribute(event, key, last).meta->0.get(other) == (match event.meta {
            Some(meta) => meta.get(other),
            None => None,
        }),
        with_attribute(with_attribute(event, key, first), key, last) == with_attribute(
            event,
            key,
            last,
        ),
{
    assert(with_attribute(with_attribute(event, key, first), key, last).meta->0 =~= with_attribute(
        event,
        key,
        last,
    ).meta->0);
}

/// The payload of an inbound request for a tool approval. A verdict on it must carry its
/// `request_id` unchanged.
#[derive(Debug, PartialEq)]
pub struct ClaudeChannelPermissionRequestParam {
    /// The id that the client gave to the request.
    pub request_id: String,
    /// The tool to be called.
    pub tool_name: String,
    /// Summary of the call.
    pub description: String,
    /// The arguments of the call as JSON text, cut off by the client.
    pub input_preview: String,
}

/// What a [`ClaudeChannelPermissionRequestParam`] stands for.
pub struct PermissionRequest {
    pub request_id: Seq<char>,
    pub tool_name: Seq<char>,
    pub description: Seq<char>,
    pub input_preview: Seq<char>,
}

impl View for ClaudeChannelPermissionRequestParam {
    type V = PermissionRequest;

    open spec fn view(&self) -> PermissionRequest {
        PermissionRequest {
            request_id: self.request_id@,
            tool_name: self.tool_name@,
            description: self.description@,
            input_preview: self.input_preview@,
        }
    }
}

impl Clone for ClaudeChannelPermissionRequestParam {
    fn clone(&self) -> (copy: ClaudeChannelPermissionRequestParam)
        ensures
            copy == *self,
    {
        ClaudeChannelPermissionRequestParam {
            request_id: self.request_id.clone(),
            tool_name: self.tool_name.clone(),
            description: self.description.clone(),
            input_preview: self.input_preview.clone(),
        }
    }
}

/// A request on the wire: an object with its four members.
pub open spec fn request_json(request: PermissionRequest) -> JsonView {
    JsonView::Object(
        Map::empty().insert("request_id"@, JsonView::String(request.request_id)).insert(
            "tool_name"@,
            JsonView::String(request.tool_name),
        ).insert("description"@, JsonView::String(request.description)).insert(
            "input_preview"@,
            JsonView::String(request.input_preview),
        ),
    )
}

/// The request that four members make.
pub open spec fn request_of(
    request_id: Option<JsonView>,
    tool_name: Option<JsonView>,
    description: Option<JsonView>,
    input_preview: Option<JsonView>,
) -> Option<PermissionRequest> {
    match (request_id, tool_name, description, input_preview) {
        (
            Some(JsonView::String(request_id)),
            Some(JsonView::String(tool_name)),
            Some(JsonView::String(description)),
            Some(JsonView::String(input_preview)),
        ) => Some(PermissionRequest { request_id, tool_name, description, input_preview }),
        _ => None,
    }
}

/// The request that a JSON value holds: an object with the members by name, whatever else it
/// holds, or an array of the four members.
pub open spec fn request_in(value: JsonView) -> Option<PermissionRequest> {
    match value {
        JsonView::Object(members) => request_of(
            members.get("request_id"@),
            members.get("tool_name"@),
            members.get("description"@),
            members.get("input_preview"@),
        ),
        JsonView::Array(elements) => if elements.len() == 4 {
            request_of(Some(elements[0]), Some(elements[1]), Some(elements[2]), Some(elements[3]))
        } else {
            None
        },
        _ => None,
    }
}

/// The text of a member, where it is there and is a string.
fn text_of(member: Option<&JsonValue>) -> (text: Option<String>)
    ensures
        match member {
            Some(value) => match value@ {
                JsonView::String(found) => text matches Some(t) && t@ == found,
                _ => text is None,
            },
            None => text is None,
        },
{
    match member {
        Some(JsonValue::String(text)) => Some(text.clone()),
        _ => None,
    }
}

/// What a member stands for.
spec fn member_view(member: Option<&JsonValue>) -> Option<JsonView> {
    match member {
        Some(value) => Some(value@),
        None => None,
    }
}

/// Reads a request off its four members.
fn read_request(
    request_id: Option<&JsonValue>,
    tool_name: Option<&JsonValue>,
    description: Option<&JsonValue>,
    input_preview: Option<&JsonValue>,
) -> (request: Option<ClaudeChannelPermissionRequestParam>)
    ensures
        match request_of(
            member_view(request_id),
            member_view(tool_name),
            member_view(description),
            member_view(input_preview),
        ) {
            Some(found) => request matches Some(r) && r@ == found,
            None => request is None,
        },
{
    match (text_of(request_id), text_of(tool_name), text_of(description), text_of(input_preview)) {
        (Some(request_id), Some(tool_name), Some(description), Some(input_preview)) => Some(
            ClaudeChannelPermissionRequestParam {
                request_id,
                tool_name,
                description,
                input_preview,
            },
        ),
        _ => None,
    }
}

impl ToJson for ClaudeChannelPermissionRequestParam {
    open spec fn json(&self) -> Result<JsonView, Seq<char>> {
        Ok(request_json(self@))
    }

    fn to_json(self) -> (outcome: Result<JsonValue, String>) {
        let mut object: JsonObject = StringMap::new();
        proof {
            crate::json::lemma_empty_object_view(object);
        }
        set_text(&mut object, "request_id", self.request_id);
        set_text(&mut object, "tool_name", self.tool_name);
        set_text(&mut object, "description", self.description);
        set_text(&mut object, "input_preview", self.input_preview);
        proof {
            lemma_object_view(object);
        }
        Ok(JsonValue::Object(object))
    }
}

/// Sets a member of an object to a string.
fn set_text(object: &mut JsonObject, name: &str, text: String)
    ensures
        object_view(*final(object)) == object_view(*old(object)).insert(
            name@,
            JsonView::String(text@),
        ),
{
    let ghost before = *object;
    let value = JsonValue::String(text);
    let ghost member = value;
    object.insert(name.to_string(), value);
    proof {
        lemma_object_insert(before, *object, name@, member);
    }
}

impl FromJson for ClaudeChannelPermissionRequestParam {
    open spec fn decoded(value: JsonView) -> Option<PermissionRequest> {
        request_in(value)
    }

    fn from_json(value: &JsonValue) -> (payload: Result<Self, PayloadError>) {
        let request = match value {
            JsonValue::Object(object) => {
                proof {
                    lemma_object_view(*object);
                }
                read_request(
                    object.get("request_id"),
                    object.get("tool_name"),
                    object.get("description"),
                    object.get("input_preview"),
                )
            },
            JsonValue::Array(elements) => {
                proof {
                    lemma_array_view(*elements);
                }
                if elements.len() == 4 {
                    read_request(
                        Some(&elements[0]),
                        Some(&elements[1]),
                        Some(&elements[2]),
                        Some(&elements[3]),
                    )
                } else {
                    None
                }
            },
            _ => None,
        };
        match request {
            Some(request) => Ok(request),
            None => Err(PayloadError),
        }
    }
}

/// Reading back what was written gives the request.
pub proof fn requests_round_trip(request: PermissionRequest)
    ensures
        request_in(request_json(request)) == Some(request),
{
    reveal_strlit("request_id");
    reveal_strlit("tool_name");
    reveal_strlit("description");
    reveal_strlit("input_preview");
    assert("request_id"@.len() == 10 && "tool_name"@.len() == 9 && "description"@.len() == 11
        && "input_preview"@.len() == 13);
}

/// A verdict on a tool approval.
#[derive(Debug, Clone, Copy, PartialEq, Eq, Structural)]
pub enum ClaudeChannelPermissionVerdict {
    /// Go on with the call.
    Allow,
    /// Reject the call.
    Deny,
}

impl View for ClaudeChannelPermissionVerdict {
    type V = ClaudeChannelPermissionVerdict;

    open spec fn view(&self) -> ClaudeChannelPermissionVerdict {
        *self
    }
}

/// The word for a verdict on the wire.
pub open spec fn verdict_word(verdict: ClaudeChannelPermissionVerdict) -> Seq<char> {
    match verdict {
        ClaudeChannelPermissionVerdict::Allow => "allow"@,
        ClaudeChannelPermissionVerdict::Deny => "deny"@,
    }
}

/// The verdict that a word stands for.
pub open spec fn verdict_of(word: Seq<char>) -> Option<ClaudeChannelPermissionVerdict> {
    if word == "allow"@ {
        Some(ClaudeChannelPermissionVerdict::Allow)
    } else if word == "deny"@ {
        Some(ClaudeChannelPermissionVerdict::Deny)
    } else {
        None
    }
}

/// The verdict that a JSON value holds: its word, or an object whose only member has the word as
/// its name and holds null.
pub open spec fn verdict_in(value: JsonView) -> Option<ClaudeChannelPermissionVerdict> {
    match value {
        JsonView::String(word) => verdict_of(word),
        JsonView::Object(members) => if members == Map::empty().insert("allow"@, JsonView::Null) {
            Some(ClaudeChannelPermissionVerdict::Allow)
        } else if members == Map::empty().insert("deny"@, JsonView::Null) {
            Some(ClaudeChannelPermissionVerdict::Deny)
        } else {
            None
        },
        _ => None,
    }
}

/// Whether the only member of an object is the given one, and holds null.
fn is_lone_null(object: &JsonObject, name: &str) -> (lone: bool)
    ensures
        lone <==> object_view(*object) == Map::empty().insert(name@, JsonView::Null),
{
    let ghost views = object_view(*object);
    let ghost wanted = Map::<Seq<char>, JsonView>::empty().insert(name@, JsonView::Null);
    let len = object.len();
    proof {
        assert(views.dom() =~= object@.dom());
        assert(wanted.dom() =~= set![name@]);
    }
    if len != 1 {
        return false;
    }
    match object.get(name) {
        Some(JsonValue::Null) => {
            proof {
                assert(views.dom().len() == 1);
                assert(views.contains_key(name@));
                vstd::set_lib::lemma_subset_equality(set![name@], views.dom());
                assert(views =~= wanted);
            }
            true
        },
        _ => {
            proof {
                if views == wanted {
                    assert(views.contains_key(name@));
                    assert(views[name@] is Null);
                }
            }
            false
        },
    }
}

impl ToJson for ClaudeChannelPermissionVerdict {
    open spec fn json(&self) -> Result<JsonView, Seq<char>> {
        Ok(JsonView::String(verdict_word(*self)))
    }

    fn to_json(self) -> (outcome: Result<JsonValue, String>) {
        let word = match self {
            ClaudeChannelPermissionVerdict::Allow => "allow",
            ClaudeChannelPermissionVerdict::Deny => "deny",
        };
        Ok(JsonValue::String(word.to_string()))
    }
}

impl FromJson for ClaudeChannelPermissionVerdict {
    open spec fn decoded(value: JsonView) -> Option<ClaudeChannelPermissionVerdict> {
        verdict_in(value)
    }

    fn from_json(value: &JsonValue) -> (payload: Result<Self, PayloadError>) {
        let verdict = match value {
            JsonValue::String(word) => {
                if same_text(word.as_str(), "allow") {
                    Some(ClaudeChannelPermissionVerdict::Allow)
                } else if same_text(word.as_str(), "deny") {
                    Some(ClaudeChannelPermissionVerdict::Deny)
                } else {
                    None
                }
            },
            JsonValue::Object(object) => {
                proof {
                    lemma_object_view(*object);
                }
                if is_lone_null(object, "allow") {
                    Some(ClaudeChannelPermissionVerdict::Allow)
                } else if is_lone_null(object, "deny") {
                    Some(ClaudeChannelPermissionVerdict::Deny)
                } else {
                    None
                }
            },
            _ => None,
        };
        match verdict {
            Some(verdict) => Ok(verdict),
            None => Err(PayloadError),
        }
    }
}

/// Reading back what was written gives the verdict.
pub proof fn verdicts_round_trip(verdict: ClaudeChannelPermissionVerdict)
    ensures
        verdict_in(JsonView::String(verdict_word(verdict))) == Some(verdict),
{
    reveal_strlit("allow");
    reveal_strlit("deny");
    assert("allow"@.len() != "deny"@.len());
}

/// The payload of a verdict on a request for a tool approval.
#[derive(Debug, PartialEq)]
pub struct ClaudeChannelPermissionParam {
    /// The id of the request, as it came.
    pub request_id: String,
    /// The verdict.
    pub behavior: ClaudeChannelPermissionVerdict,
}

/// What a [`ClaudeChannelPermissionParam`] stands for.
pub struct PermissionAnswer {
    pub request_id: Seq<char>,
    pub behavior: ClaudeChannelPermissionVerdict,
}

impl View for ClaudeChannelPermissionParam {
    type V = PermissionAnswer;

    open spec fn view(&self) -> PermissionAnswer {
        PermissionAnswer { request_id: self.request_id@, behavior: self.behavior }
    }
}

impl Clone for ClaudeChannelPermissionParam {
    fn clone(&self) -> (copy: ClaudeChannelPermissionParam)
        ensures
            copy == *self,
    {
        ClaudeChannelPermissionParam { request_id: self.request_id.clone(), behavior: self.behavior }
    }
}

impl ClaudeChannelPermissionParam {
    /// The given verdict on the request with the given id.
    pub fn new(
        request_id: String,
        behavior: ClaudeChannelPermissionVerdict,
    ) -> (param: ClaudeChannelPermissionParam)
        ensures
            param == (ClaudeChannelPermissionParam { request_id, behavior }),
    {
        ClaudeChannelPermissionParam { request_id, behavior }
    }

    /// Lets the request with the given id pass.
    #[must_use]
    pub fn allow(request_id: String) -> (param: ClaudeChannelPermissionParam)
        ensures
            param == (ClaudeChannelPermissionParam {
                request_id,
                behavior: ClaudeChannelPermissionVerdict::Allow,
            }),
    {
        ClaudeChannelPermissionParam::new(request_id, ClaudeChannelPermissionVerdict::Allow)
    }

    /// Rejects the request with the given id.
    #[must_use]
    pub fn deny(request_id: String) -> (param: ClaudeChannelPermissionParam)
        ensures
            param == (ClaudeChannelPermissionParam {
                request_id,
                behavior: ClaudeChannelPermissionVerdict::Deny,
            }),
    {
        ClaudeChannelPermissionParam::new(request_id, ClaudeChannelPermissionVerdict::Deny)
    }
}

/// A verdict on the wire: an object with the id of the request and the word.
pub open spec fn answer_json(answer: PermissionAnswer) -> JsonView {
    JsonView::Object(
        Map::empty().insert("request_id"@, JsonView::String(answer.request_id)).insert(
            "behavior"@,
            JsonView::String(verdict_word(answer.behavior)),
        ),
    )
}

/// The answer that two members make.
pub open spec fn answer_of(request_id: Option<JsonView>, behavior: Option<JsonView>) -> Option<
    PermissionAnswer,
> {
    match (request_id, behavior) {
        (Some(JsonView::String(request_id)), Some(value)) => match verdict_in(value) {
            Some(behavior) => Some(PermissionAnswer { request_id, behavior }),
            None => None,
        },
        _ => None,
    }
}

/// The answer that a JSON value holds: an object with the members by name, whatever else it
/// holds, or an array of the two members.
pub open spec fn answer_in(value: JsonView) -> Option<PermissionAnswer> {
    match value {
        JsonView::Object(members) => answer_of(
            members.get("request_id"@),
            members.get("behavior"@),
        ),
        JsonView::Array(elements) => if elements.len() == 2 {
            answer_of(Some(elements[0]), Some(elements[1]))
        } else {
            None
        },
        _ => None,
    }
}

/// Reads an answer off its two members.
fn read_answer(request_id: Option<&JsonValue>, behavior: Option<&JsonValue>) -> (answer: Option<
    ClaudeChannelPermissionParam,
>)
    ensures
        match answer_of(member_view(request_id), member_view(behavior)) {
            Some(found) => answer matches Some(a) && a@ == found,
            None => answer is None,
        },
{
    match (text_of(request_id), behavior) {
        (Some(request_id), Some(value)) => match ClaudeChannelPermissionVerdict::from_json(value) {
            Ok(behavior) => Some(ClaudeChannelPermissionParam { request_id, behavior }),
            Err(_) => None,
        },
        _ => None,
    }
}

impl ToJson for ClaudeChannelPermissionParam {
    open spec fn json(&self) -> Result<JsonView, Seq<char>> {
        Ok(answer_json(self@))
    }

    fn to_json(self) -> (outcome: Result<JsonValue, String>) {
        let mut object: JsonObject = StringMap::new();
        proof {
            crate::json::lemma_empty_object_view(object);
        }
        set_text(&mut object, "request_id", self.request_id);
        let word = match self.behavior {
            ClaudeChannelPermissionVerdict::Allow => "allow",
            ClaudeChannelPermissionVerdict::Deny => "deny",
        };
        set_text(&mut object, "behavior", word.to_string());
        proof {
            lemma_object_view(object);
        }
        Ok(JsonValue::Object(object))
    }
}

impl FromJson for ClaudeChannelPermissionParam {
    open spec fn decoded(value: JsonView) -> Option<PermissionAnswer> {
        answer_in(value)
    }

    fn from_json(value: &JsonValue) -> (payload: Result<Self, PayloadError>) {
        let answer = match value {
            JsonValue::Object(object) => {
                proof {
                    lemma_object_view(*object);
                }
                read_answer(object.get("request_id"), object.get("behavior"))
            },
            JsonValue::Array(elements) => {
                proof {
                    lemma_array_view(*elements);
                }
                if elements.len() == 2 {
                    read_answer(Some(&elements[0]), Some(&elements[1]))
                } else {
                    None
                }
            },
            _ => None,
        };
        match answer {
            Some(answer) => Ok(answer),
            None => Err(PayloadError),
        }
    }
}

/// Reading back what was written gives the answer.
pub proof fn answers_round_trip(answer: PermissionAnswer)
    ensures
        answer_in(answer_json(answer)) == Some(answer),
{
    reveal_strlit("request_id");
    reveal_strlit("behavior");
    assert("request_id"@.len() != "behavior"@.len());
    verdicts_round_trip(answer.behavior);
}

/// An answer is written as exactly its two members, the id of the request as it is and the word
/// for the verdict.
pub proof fn answers_hold_two_members(answer: PermissionAnswer)
    ensures
        answer_json(answer) matches JsonView::Object(members) && members.dom() == set![
            "request_id"@,
            "behavior"@,
        ] && members.dom().len() == 2 && members["request_id"@] == JsonView::String(
            answer.request_id,
        ) && members["behavior"@] == JsonView::String(verdict_word(answer.behavior)),
{
    let members = answer_json(answer)->Object_0;
    reveal_strlit("request_id");
    reveal_strlit("behavior");
    assert("request_id"@.len() != "behavior"@.len());
    assert(members.dom() =~= set!["request_id"@, "behavior"@]);
}

} // verus!
