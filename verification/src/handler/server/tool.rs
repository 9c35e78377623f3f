//! Return values of tools.

use vstd::prelude::*;

use crate::model::{CallToolResult, CallToolResultView, ErrorData, ErrorDataView};

verus! {

/// What the outcome of a tool call stands for.
pub open spec fn outcome_view(outcome: Result<CallToolResult, ErrorData>) -> Result<
    CallToolResultView,
    ErrorDataView,
> {
    match outcome {
        Ok(result) => Ok(result@),
        Err(error) => Err(error@),
    }
}

/// A value that a tool can return.
pub trait IntoCallToolResult: Sized {
    /// The result of the tool call, or the error that is reported in its place.
    spec fn tool_result(&self) -> Result<CallToolResultView, ErrorDataView>;

    /// Turns the value into the result of the tool call.
    fn into_call_tool_result(self) -> (outcome: Result<CallToolResult, ErrorData>)
        ensures
            outcome_view(outcome) == self.tool_result(),
    ;
}

} // verus!
