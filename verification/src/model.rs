//! The protocol's data types, as far as this library reads and writes them.

use std::sync::Arc;

use vstd::prelude::*;

use crate::json::{
    clone_object, json_text, object_view, FromJson, JsonObject, JsonValue, JsonView, PayloadError,
};
use crate::string_map::StringMap;

verus! {

/// The `_meta` entries of a protocol object, by key.
#[derive(Debug, PartialEq)]
pub struct Meta(pub JsonObject);

impl View for Meta {
    type V = Map<Seq<char>, JsonView>;

    open spec fn view(&self) -> Map<Seq<char>, JsonView> {
        object_view(self.0)
    }
}

impl Meta {
    /// No entries.
    pub fn new() -> (meta: Meta)
        ensures
            meta@ == Map::<Seq<char>, JsonView>::empty(),
    {
        let meta = Meta(StringMap::new());
        proof {
            crate::json::lemma_empty_object_view(meta.0);
        }
        meta
    }
}

impl Default for Meta {
    fn default() -> (meta: Meta)
        ensures
            meta@ == Map::<Seq<char>, JsonView>::empty(),
    {
        Meta::new()
    }
}

impl Clone for Meta {
    fn clone(&self) -> (copy: Meta)
        ensures
            copy@ == self@,
    {
        Meta(clone_object(&self.0))
    }
}

/// The entries of an optional `_meta`.
pub open spec fn meta_entries(meta: Option<Meta>) -> Map<Seq<char>, JsonView> {
    match meta {
        Some(m) => m@,
        None => Map::empty(),
    }
}

/// What an optional `_meta` stands for.
pub open spec fn meta_view(meta: Option<Meta>) -> Option<Map<Seq<char>, JsonView>> {
    match meta {
        Some(m) => Some(m@),
        None => None,
    }
}

/// A tool as a server lists it.
#[derive(Debug, PartialEq)]
pub struct Tool {
    pub name: String,
    pub title: Option<String>,
    pub description: Option<String>,
    pub input_schema: Arc<JsonObject>,
    pub output_schema: Option<Arc<JsonObject>>,
    pub meta: Option<Meta>,
}

impl Tool {
    /// A tool with a name, a description and the schema of its input.
    pub fn new(name: String, description: String, input_schema: Arc<JsonObject>) -> (tool: Tool)
        ensures
            tool == (Tool {
                name,
                title: None,
                description: Some(description),
                input_schema,
                output_schema: None,
                meta: None,
            }),
    {
        Tool {
            name,
            title: None,
            description: Some(description),
            input_schema,
            output_schema: None,
            meta: None,
        }
    }
}

/// The text of a text block.
#[derive(Debug, Clone, PartialEq)]
pub struct RawTextContent {
    pub text: String,
}

/// An image, encoded as text, and its media type.
#[derive(Debug, Clone, PartialEq)]
pub struct RawImageContent {
    pub data: String,
    pub mime_type: String,
}

/// A resource given inline.
#[derive(Debug, Clone, PartialEq)]
pub struct RawEmbeddedResource {
    pub uri: String,
    pub text: String,
}

/// A resource that a link points to.
#[derive(Debug, Clone, PartialEq)]
pub struct RawResource {
    pub uri: String,
    pub name: String,
}

impl RawResource {
    /// The resource `name` at `uri`.
    pub fn new(uri: String, name: String) -> (resource: RawResource)
        ensures
            resource == (RawResource { uri, name }),
    {
        RawResource { uri, name }
    }
}

/// The kinds of content blocks.
#[derive(Debug, Clone, PartialEq)]
pub enum RawContent {
    Text(RawTextContent),
    Image(RawImageContent),
    Resource(RawEmbeddedResource),
    ResourceLink(RawResource),
}

impl RawContent {
    /// The resource that a link block points to.
    pub fn as_resource_link(&self) -> (link: Option<&RawResource>)
        ensures
            link == (match *self {
                RawContent::ResourceLink(resource) => Some(&resource),
                _ => None,
            }),
    {
        match self {
            RawContent::ResourceLink(resource) => Some(resource),
            _ => None,
        }
    }
}

/// A block of a tool's result.
#[derive(Debug, Clone, PartialEq)]
pub struct Content {
    pub raw: RawContent,
}

/// What a content block stands for.
pub enum ContentView {
    Text(Seq<char>),
    Image { data: Seq<char>, mime_type: Seq<char> },
    Resource { uri: Seq<char>, text: Seq<char> },
    ResourceLink { uri: Seq<char>, name: Seq<char> },
}

impl View for Content {
    type V = ContentView;

    open spec fn view(&self) -> ContentView {
        match self.raw {
            RawContent::Text(t) => ContentView::Text(t.text@),
            RawContent::Image(i) => ContentView::Image { data: i.data@, mime_type: i.mime_type@ },
            RawContent::Resource(r) => ContentView::Resource { uri: r.uri@, text: r.text@ },
            RawContent::ResourceLink(r) => ContentView::ResourceLink { uri: r.uri@, name: r.name@ },
        }
    }
}

/// What a sequence of content blocks stands for.
pub open spec fn contents_view(blocks: Seq<Content>) -> Seq<ContentView> {
    blocks.map_values(|c: Content| c@)
}

impl Content {
    /// A text block.
    pub fn text(text: String) -> (content: Content)
        ensures
            content@ == ContentView::Text(text@),
    {
        Content { raw: RawContent::Text(RawTextContent { text }) }
    }

    /// A block that links to a resource.
    pub fn resource_link(resource: RawResource) -> (content: Content)
        ensures
            content@ == (ContentView::ResourceLink { uri: resource.uri@, name: resource.name@ }),
    {
        Content { raw: RawContent::ResourceLink(resource) }
    }

    /// The text block, where this is one.
    pub fn as_text(&self) -> (text: Option<&RawTextContent>)
        ensures
            text is Some <==> self@ is Text,
            text matches Some(t) ==> self@ == ContentView::Text(t.text@),
    {
        match &self.raw {
            RawContent::Text(text) => Some(text),
            _ => None,
        }
    }
}

/// What a tool call came to.
#[derive(Debug, PartialEq)]
pub struct CallToolResult {
    pub content: Vec<Content>,
    pub structured_content: Option<JsonValue>,
    pub is_error: Option<bool>,
    pub meta: Option<Meta>,
}

/// What a [`CallToolResult`] stands for.
pub struct CallToolResultView {
    pub content: Seq<ContentView>,
    pub structured_content: Option<JsonView>,
    pub is_error: Option<bool>,
    pub meta: Option<Map<Seq<char>, JsonView>>,
}

impl View for CallToolResult {
    type V = CallToolResultView;

    open spec fn view(&self) -> CallToolResultView {
        CallToolResultView {
            content: contents_view(self.content@),
            structured_content: match self.structured_content {
                Some(value) => Some(value@),
                None => None,
            },
            is_error: self.is_error,
            meta: meta_view(self.meta),
        }
    }
}

/// The result that carries `value` as structured content and its JSON text as its only block.
pub open spec fn structured_result(value: JsonView) -> CallToolResultView {
    CallToolResultView {
        content: seq![ContentView::Text(json_text(value))],
        structured_content: Some(value),
        is_error: Some(false),
        meta: None,
    }
}

impl CallToolResult {
    /// A successful result of content blocks alone.
    pub fn success(content: Vec<Content>) -> (result: CallToolResult)
        ensures
            result@ == (CallToolResultView {
                content: contents_view(content@),
                structured_content: None,
                is_error: Some(false),
                meta: None,
            }),
    {
        CallToolResult { content, structured_content: None, is_error: Some(false), meta: None }
    }

    /// A successful result that carries `value` as structured content and, as its only block,
    /// the JSON text of `value`.
    pub fn structured(value: JsonValue) -> (result: CallToolResult)
        ensures
            result@ == structured_result(value@),
            value@ == JsonView::Object(Map::empty()) ==> result@.content == seq![
                ContentView::Text("{}"@),
            ],
    {
        let mut content: Vec<Content> = Vec::new();
        content.push(Content::text(value.to_text()));
        let result = CallToolResult {
            content,
            structured_content: Some(value),
            is_error: Some(false),
            meta: None,
        };
        proof {
            assert(result@.content =~= seq![ContentView::Text(json_text(value@))]);
        }
        result
    }
}

/// The code of an error in the parameters of a request.
pub const INVALID_PARAMS: i32 = -32602;

/// The code of an error inside the server.
pub const INTERNAL_ERROR: i32 = -32603;

/// An error as the protocol reports it.
#[derive(Debug, PartialEq)]
pub struct ErrorData {
    pub code: i32,
    pub message: String,
    pub data: Option<JsonValue>,
}

/// What an [`ErrorData`] stands for.
pub struct ErrorDataView {
    pub code: i32,
    pub message: Seq<char>,
    pub data: Option<JsonView>,
}

impl View for ErrorData {
    type V = ErrorDataView;

    open spec fn view(&self) -> ErrorDataView {
        ErrorDataView {
            code: self.code,
            message: self.message@,
            data: match self.data {
                Some(value) => Some(value@),
                None => None,
            },
        }
    }
}

impl ErrorData {
    /// An error in the parameters of a request.
    pub fn invalid_params(message: String, data: Option<JsonValue>) -> (error: ErrorData)
        ensures
            error == (ErrorData { code: INVALID_PARAMS, message, data }),
    {
        ErrorData { code: INVALID_PARAMS, message, data }
    }

    /// An error inside the server.
    pub fn internal_error(message: String, data: Option<JsonValue>) -> (error: ErrorData)
        ensures
            error == (ErrorData { code: INTERNAL_ERROR, message, data }),
    {
        ErrorData { code: INTERNAL_ERROR, message, data }
    }
}

/// A request id as it stands on the wire.
#[derive(Debug, PartialEq)]
pub enum NumberOrString {
    Number(i64),
    String(String),
}

impl Clone for NumberOrString {
    fn clone(&self) -> (copy: NumberOrString)
        ensures
            copy == *self,
    {
        match self {
            NumberOrString::Number(n) => NumberOrString::Number(*n),
            NumberOrString::String(s) => NumberOrString::String(s.clone()),
        }
    }
}

/// A notification outside the protocol's own list.
#[derive(Debug, PartialEq)]
pub struct CustomNotification {
    pub method: String,
    pub params: Option<JsonValue>,
}

/// What a [`CustomNotification`] stands for.
pub struct CustomNotificationView {
    pub method: Seq<char>,
    pub params: Option<JsonView>,
}

impl View for CustomNotification {
    type V = CustomNotificationView;

    open spec fn view(&self) -> CustomNotificationView {
        CustomNotificationView {
            method: self.method@,
            params: match self.params {
                Some(value) => Some(value@),
                None => None,
            },
        }
    }
}

impl CustomNotification {
    /// A notification of `method` with the given parameters.
    pub fn new(method: String, params: Option<JsonValue>) -> (notification: CustomNotification)
        ensures
            notification == (CustomNotification { method, params }),
    {
        CustomNotification { method, params }
    }

    /// The parameters read as a payload: none where the notification carries none, and an error
    /// where they do not have the payload's shape.
    pub fn params_as<T: FromJson>(&self) -> (payload: Result<Option<T>, PayloadError>)
        ensures
            match self@.params {
                None => payload == Ok::<Option<T>, PayloadError>(None),
                Some(value) => match T::decoded(value) {
                    None => payload is Err,
                    Some(decoded) => payload matches Ok(Some(p)) && p@ == decoded,
                },
            },
    {
        match &self.params {
            None => Ok(None),
            Some(value) => match T::from_json(value) {
                Ok(payload) => Ok(Some(payload)),
                Err(error) => Err(error),
            },
        }
    }
}

/// A notification from the server to the client.
#[derive(Debug, PartialEq)]
pub enum ServerNotification {
    CustomNotification(CustomNotification),
}

/// Experimental capabilities by name, each with its settings.
pub type ExperimentalCapabilities = StringMap<JsonObject>;

/// Extension capabilities by name, each with its settings.
pub type ExtensionCapabilities = StringMap<JsonObject>;

/// What capabilities with their settings stand for.
pub open spec fn capabilities_view(capabilities: StringMap<JsonObject>) -> Map<
    Seq<char>,
    Map<Seq<char>, JsonView>,
> {
    capabilities@.map_values(|settings: JsonObject| object_view(settings))
}

/// The capabilities that a server declares.
#[derive(Debug, PartialEq)]
pub struct ServerCapabilities {
    pub experimental: Option<ExperimentalCapabilities>,
    pub extensions: Option<ExtensionCapabilities>,
}

/// Collects the capabilities of a server.
#[derive(Debug, PartialEq)]
pub struct ServerCapabilitiesBuilder {
    pub experimental: Option<ExperimentalCapabilities>,
    pub extensions: Option<ExtensionCapabilities>,
}

impl ServerCapabilities {
    /// A builder with nothing declared.
    pub fn builder() -> (builder: ServerCapabilitiesBuilder)
        ensures
            builder == (ServerCapabilitiesBuilder { experimental: None, extensions: None }),
    {
        ServerCapabilitiesBuilder { experimental: None, extensions: None }
    }
}

impl ServerCapabilitiesBuilder {
    /// Declares the experimental capabilities.
    pub fn enable_experimental_with(
        self,
        experimental: ExperimentalCapabilities,
    ) -> (builder: ServerCapabilitiesBuilder)
        ensures
            builder == (ServerCapabilitiesBuilder { experimental: Some(experimental), ..self }),
    {
        ServerCapabilitiesBuilder { experimental: Some(experimental), extensions: self.extensions }
    }

    /// The capabilities that were declared.
    pub fn build(self) -> (capabilities: ServerCapabilities)
        ensures
            capabilities == (ServerCapabilities {
                experimental: self.experimental,
                extensions: self.extensions,
            }),
    {
        ServerCapabilities { experimental: self.experimental, extensions: self.extensions }
    }
}

} // verus!
