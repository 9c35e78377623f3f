//! Laws of tool results.

use vstd::prelude::*;

use crate::anthropic_ext::{normalize_call_tool_result, structured_with_text_fallback};
use crate::handler::server::tool::IntoCallToolResult;
use crate::handler::server::wrapper::json::{Json, JsonAndArtifact};
use crate::json::{json_text, Encoded, JsonValue, JsonView, ToJson};
use crate::model::{
    contents_view, CallToolResult, Content, ErrorData, RawContent, RawResource,
    RawTextContent,
};

verus! {

/// A value goes into the structured content as it is, and its JSON text into the only block of a
/// successful result without `_meta`. A value without a JSON form is an internal error that says
/// why.
pub proof fn a_value_is_a_structured_success<T: ToJson>(
    wrapped: Json<T>,
    outcome: Result<CallToolResult, ErrorData>,
)
    requires
        call_ensures(
            <Json<T> as IntoCallToolResult>::into_call_tool_result,
            (wrapped,),
            outcome,
        ),
    ensures
        outcome is Ok <==> wrapped.0.json() is Ok,
        outcome matches Ok(result) ==> {
            &&& result.structured_content matches Some(s) && s@ == wrapped.0.json()->Ok_0
            &&& result.content@.len() == 1
            &&& result.content@[0].raw matches RawContent::Text(t) && t.text@ == json_text(
                wrapped.0.json()->Ok_0,
            )
            &&& result.is_error == Some(false)
            &&& result.meta is None
        },
        outcome matches Err(error) ==> {
            &&& error.code == -32603
            &&& error.message@ == "Failed to serialize structured content: "@
                + wrapped.0.json()->Err_0
            &&& error.data is None
        },
{
    if let Ok(result) = outcome {
        lemma_blocks(result.content@);
        let blocks = contents_view(result.content@);
        assert(blocks.len() == 1);
        assert(blocks[0] is Text);
    }
}

/// A value with further blocks gives the result of the value alone, with nothing but the content
/// extended: the result is a success without `_meta` whatever the blocks are, its first block is
/// the JSON text of the value, and the given blocks follow in their order.
pub proof fn artifacts_extend_the_content_alone<T: ToJson>(
    wrapped: JsonAndArtifact<T>,
    outcome: Result<CallToolResult, ErrorData>,
)
    requires
        call_ensures(
            <JsonAndArtifact<T> as IntoCallToolResult>::into_call_tool_result,
            (wrapped,),
            outcome,
        ),
    ensures
        outcome is Ok <==> wrapped.value.json() is Ok,
        outcome matches Ok(result) ==> {
            &&& result.structured_content matches Some(s) && s@ == wrapped.value.json()->Ok_0
            &&& result.content@.len() == wrapped.extras@.len() + 1
            &&& result.content@[0].raw matches RawContent::Text(t) && t.text@ == json_text(
                wrapped.value.json()->Ok_0,
            )
            &&& forall|i: int|
                0 <= i < wrapped.extras@.len() ==> result.content@[i + 1]@
                    == #[trigger] wrapped.extras@[i]@
            &&& result.is_error == Some(false)
            &&& result.meta is None
        },
        outcome matches Err(error) ==> {
            &&& error.code == -32603
            &&& error.message@ == "Failed to serialize structured content: "@
                + wrapped.value.json()->Err_0
            &&& error.data is None
        },
{
    if let Ok(result) = outcome {
        lemma_blocks(result.content@);
        lemma_blocks(wrapped.extras@);
        let blocks = contents_view(result.content@);
        let extras = contents_view(wrapped.extras@);
        assert(blocks.len() == 1 + extras.len());
        assert(blocks[0] is Text);
        assert forall|i: int| 0 <= i < wrapped.extras@.len() implies result.content@[i + 1]@
            == #[trigger] wrapped.extras@[i]@ by {
            assert(blocks[i + 1] == extras[i]);
        }
    }
}

/// What a value came to decides alike whether it is returned with blocks or without: the two
/// results differ in nothing but the content, and the errors are the same.
pub proof fn artifacts_decide_nothing<T: ToJson>(
    plain: Json<T>,
    wrapped: JsonAndArtifact<T>,
    one: Result<CallToolResult, ErrorData>,
    other: Result<CallToolResult, ErrorData>,
)
    requires
        plain.0 == wrapped.value,
        call_ensures(<Json<T> as IntoCallToolResult>::into_call_tool_result, (plain,), one),
        call_ensures(
            <JsonAndArtifact<T> as IntoCallToolResult>::into_call_tool_result,
            (wrapped,),
            other,
        ),
    ensures
        match (one, other) {
            (Ok(r), Ok(s)) => {
                &&& r.structured_content->0@ == s.structured_content->0@
                &&& r.is_error == s.is_error
                &&& r.meta is None && s.meta is None
                &&& r.content@.len() <= s.content@.len()
                &&& r.content@[0]@ == s.content@[0]@
            },
            (Err(e), Err(f)) => e.code == f.code && e.message@ == f.message@ && e.data is None
                && f.data is None,
            _ => false,
        },
{
    a_value_is_a_structured_success(plain, one);
    artifacts_extend_the_content_alone(wrapped, other);
}

/// A value with a summary gives the result of the value alone with one more block, a text block
/// with what the closure says of the value. The result is a success without `_meta`.
pub proof fn a_summary_is_the_second_of_two_blocks<T: ToJson, F: FnOnce(&T) -> String>(
    value: T,
    text_summary: F,
    outcome: Result<CallToolResult, ErrorData>,
)
    requires
        call_ensures(structured_with_text_fallback::<T, F>, (value, text_summary), outcome),
    ensures
        outcome is Ok <==> value.json() is Ok,
        outcome matches Ok(result) ==> {
            &&& result.structured_content matches Some(s) && s@ == value.json()->Ok_0
            &&& result.content@.len() == 2
            &&& result.content@[0].raw matches RawContent::Text(t) && t.text@ == json_text(
                value.json()->Ok_0,
            )
            &&& exists|summary: String| #[trigger]
                text_summary.ensures((&value,), summary) && (result.content@[1].raw matches
                    RawContent::Text(t) && t.text@ == summary@)
            &&& result.is_error == Some(false)
            &&& result.meta is None
        },
        outcome matches Err(error) ==> {
            &&& error.code == -32603
            &&& error.message@ == "Failed to serialize structured content: "@
                + value.json()->Err_0
            &&& error.data is None
        },
{
    if let Ok(result) = outcome {
        lemma_blocks(result.content@);
        let blocks = contents_view(result.content@);
        assert(blocks.len() == 2);
        assert(blocks[0] is Text);
        assert(blocks[1] is Text);
    }
}

/// A JSON value is its own JSON form, and an encoded value comes to what it was encoded as.
pub proof fn encoded_values_come_to_their_json<T>(
    value: JsonValue,
    own: Result<JsonValue, String>,
    encoded: Encoded<T>,
    outcome: Result<JsonValue, String>,
)
    requires
        call_ensures(<JsonValue as ToJson>::to_json, (value,), own),
        call_ensures(<Encoded<T> as ToJson>::to_json, (encoded,), outcome),
    ensures
        value.json() == Ok::<JsonView, Seq<char>>(value@),
        own matches Ok(same) && same@ == value@,
        match encoded.json {
            Ok(json) => encoded.json() == Ok::<JsonView, Seq<char>>(json@) && (outcome matches Ok(
                same,
            ) && same@ == json@),
            Err(message) => encoded.json() == Err::<JsonView, Seq<char>>(message@) && (
            outcome matches Err(same) && same@ == message@),
        },
{
}

/// A structured result is a success with the value and one block of its JSON text, and a plain one
/// is a success with the given blocks alone.
pub proof fn results_are_made_of_what_is_given(
    value: JsonValue,
    structured: CallToolResult,
    content: Vec<Content>,
    success: CallToolResult,
)
    requires
        call_ensures(CallToolResult::structured, (value,), structured),
        call_ensures(CallToolResult::success, (content,), success),
    ensures
        structured.structured_content matches Some(s) && s@ == value@,
        structured.content@.len() == 1,
        structured.content@[0].raw matches RawContent::Text(t) && t.text@ == json_text(value@),
        value@ == JsonView::Object(Map::empty()) ==> (structured.content@[0].raw matches
            RawContent::Text(t) && t.text@ == "{}"@),
        structured.is_error == Some(false),
        structured.meta is None,
        success.structured_content is None,
        success.content@.len() == content@.len(),
        forall|i: int|
            0 <= i < content@.len() ==> (#[trigger] success.content@[i])@ == content@[i]@,
        success.is_error == Some(false),
        success.meta is None,
{
    lemma_blocks(structured.content@);
    lemma_blocks(success.content@);
    lemma_blocks(content@);
    assert(contents_view(structured.content@).len() == 1);
    assert(contents_view(structured.content@)[0] is Text);
    assert(contents_view(success.content@).len() == contents_view(content@).len());
    assert forall|i: int| 0 <= i < content@.len() implies (#[trigger] success.content@[i])@
        == content@[i]@ by {
        assert(contents_view(success.content@)[i] == contents_view(content@)[i]);
    }
}

/// Normalizing takes out structured content exactly where it is an object without members, and
/// changes nothing else.
pub proof fn normalizing_changes_the_empty_object_alone(result: &mut CallToolResult)
    requires
        call_ensures(normalize_call_tool_result, (result,), ()),
    ensures
        final(result).content == old(result).content,
        final(result).is_error == old(result).is_error,
        final(result).meta == old(result).meta,
        match old(result).structured_content {
            Some(value) => match value@ {
                JsonView::Object(members) => if members.dom() =~= Set::<Seq<char>>::empty() {
                    final(result).structured_content is None
                } else {
                    final(result).structured_content matches Some(same) && same@ == value@
                },
                _ => final(result).structured_content matches Some(same) && same@ == value@,
            },
            None => final(result).structured_content is None,
        },
{
    if let Some(value) = old(result).structured_content {
        if let JsonView::Object(members) = value@ {
            if members.dom() =~= Set::<Seq<char>>::empty() {
                assert(members =~= Map::<Seq<char>, JsonView>::empty());
            }
        }
    }
}

/// A text block holds the text, a link block the resource, and each is read back as what it is.
pub proof fn blocks_hold_what_is_given(
    text: String,
    text_block: Content,
    resource: RawResource,
    link_block: Content,
    block: Content,
    read_text: Option<&RawTextContent>,
    read_link: Option<&RawResource>,
)
    requires
        call_ensures(Content::text, (text,), text_block),
        call_ensures(Content::resource_link, (resource,), link_block),
        call_ensures(Content::as_text, (&block,), read_text),
        call_ensures(RawContent::as_resource_link, (&block.raw,), read_link),
    ensures
        text_block.raw matches RawContent::Text(t) && t.text@ == text@,
        link_block.raw matches RawContent::ResourceLink(r) && r.uri@ == resource.uri@ && r.name@
            == resource.name@,
        match block.raw {
            RawContent::Text(t) => read_text matches Some(found) && found.text@ == t.text@,
            _ => read_text is None,
        },
        match block.raw {
            RawContent::ResourceLink(r) => read_link matches Some(found) && found.uri@ == r.uri@
                && found.name@ == r.name@,
            _ => read_link is None,
        },
{
}

/// Two blocks stand for the same only where they are of one sort and hold the same texts.
pub proof fn blocks_are_told_apart(one: Content, other: Content)
    requires
        one@ == other@,
    ensures
        match (one.raw, other.raw) {
            (RawContent::Text(a), RawContent::Text(b)) => a.text@ == b.text@,
            (RawContent::Image(a), RawContent::Image(b)) => a.data@ == b.data@ && a.mime_type@
                == b.mime_type@,
            (RawContent::Resource(a), RawContent::Resource(b)) => a.uri@ == b.uri@ && a.text@
                == b.text@,
            (RawContent::ResourceLink(a), RawContent::ResourceLink(b)) => a.uri@ == b.uri@
                && a.name@ == b.name@,
            _ => false,
        },
{
}

/// Errors carry the message and the data that are given, under the codes of JSON-RPC.
pub proof fn errors_hold_what_is_given(
    message: String,
    data: Option<JsonValue>,
    invalid: ErrorData,
    internal: ErrorData,
)
    requires
        call_ensures(ErrorData::invalid_params, (message, data), invalid),
        call_ensures(ErrorData::internal_error, (message, data), internal),
    ensures
        invalid.code == -32602,
        invalid.message@ == message@,
        invalid.data == data,
        internal.code == -32603,
        internal.message@ == message@,
        internal.data == data,
{
}

/// Each block stands for itself.
proof fn lemma_blocks(blocks: Seq<Content>)
    ensures
        contents_view(blocks).len() == blocks.len(),
        forall|i: int|
            0 <= i < blocks.len() ==> #[trigger] contents_view(blocks)[i] == blocks[i]@,
{
}

} // verus!
