//! Structured results.

use vstd::prelude::*;

use crate::handler::server::tool::{outcome_view, IntoCallToolResult};
use crate::json::{json_text, JsonValue, JsonView, ToJson};
use crate::model::{
    contents_view, structured_result, CallToolResult, CallToolResultView, Content, ContentView,
    ErrorData, ErrorDataView, INTERNAL_ERROR,
};

verus! {

/// A value that a tool returns as structured JSON: it goes to the structured content of the
/// result, and its JSON text to the only content block.
pub struct Json<T>(pub T);

/// A value that a tool returns as structured JSON, with further content blocks, such as a
/// `resource_link` or an image, which follow the block of the JSON text in their order.
pub struct JsonAndArtifact<T> {
    pub value: T,
    pub extras: Vec<Content>,
}

/// The error of a value that has no JSON form.
pub open spec fn serialization_failure(message: Seq<char>) -> ErrorDataView {
    ErrorDataView {
        code: INTERNAL_ERROR,
        message: "Failed to serialize structured content: "@ + message,
        data: None,
    }
}

/// The result of a tool whose value came to `json`, with further blocks.
pub open spec fn json_result(json: Result<JsonView, Seq<char>>, extras: Seq<ContentView>) -> Result<
    CallToolResultView,
    ErrorDataView,
> {
    match json {
        Ok(value) => {
            let result = structured_result(value);
            Ok(CallToolResultView { content: result.content + extras, ..result })
        },
        Err(message) => Err(serialization_failure(message)),
    }
}

/// The result of a tool, given what its value came to.
fn structured(json: Result<JsonValue, String>) -> (outcome: Result<CallToolResult, ErrorData>)
    ensures
        outcome_view(outcome) == json_result(crate::json::serialized_view(json), seq![]),
{
    match json {
        Ok(value) => {
            let result = CallToolResult::structured(value);
            proof {
                assert(result@.content + seq![] =~= result@.content);
            }
            Ok(result)
        },
        Err(message) => {
            let text = "Failed to serialize structured content: ".to_string().concat(
                message.as_str(),
            );
            Err(ErrorData::internal_error(text, None))
        },
    }
}

impl<T: ToJson> IntoCallToolResult for Json<T> {
    open spec fn tool_result(&self) -> Result<CallToolResultView, ErrorDataView> {
        json_result(self.0.json(), seq![])
    }

    fn into_call_tool_result(self) -> (outcome: Result<CallToolResult, ErrorData>) {
        structured(self.0.to_json())
    }
}

impl<T: ToJson> IntoCallToolResult for JsonAndArtifact<T> {
    open spec fn tool_result(&self) -> Result<CallToolResultView, ErrorDataView> {
        json_result(self.value.json(), contents_view(self.extras@))
    }

    fn into_call_tool_result(self) -> (outcome: Result<CallToolResult, ErrorData>) {
        let mut result = match structured(self.value.to_json()) {
            Ok(result) => result,
            Err(error) => {
                return Err(error);
            },
        };
        let ghost before = result@;
        let mut extras = self.extras;
        result.content.append(&mut extras);
        proof {
            let blocks = contents_view(self.extras@);
            assert(before.content =~= structured_result(self.value.json()->Ok_0).content);
            assert(result@.content =~= before.content + blocks);
        }
        Ok(result)
    }
}

/// Without further blocks the two wrappers give the same result.
pub proof fn no_extras_is_plain_json<T: ToJson>(value: T, extras: Vec<Content>)
    requires
        extras@.len() == 0,
    ensures
        (JsonAndArtifact { value, extras }).tool_result() == Json(value).tool_result(),
{
    assert(contents_view(extras@) =~= seq![]);
}

/// The first block is the JSON text of the value, the further blocks follow in their order, and
/// the structured content is the value.
pub proof fn extras_follow_the_json_text<T: ToJson>(wrapped: JsonAndArtifact<T>, value: JsonView)
    requires
        wrapped.value.json() == Ok::<JsonView, Seq<char>>(value),
    ensures
        wrapped.tool_result() matches Ok(result) && {
            &&& result.structured_content == Some(value)
            &&& result.content.len() == wrapped.extras@.len() + 1
            &&& result.content[0] == ContentView::Text(json_text(value))
            &&& forall|i: int|
                0 <= i < wrapped.extras@.len() ==> result.content[i + 1]
                    == #[trigger] wrapped.extras@[i]@
        },
{
}

} // verus!
