//! Events of a streamed Responses reply.

use serde_json::Value;
use vstd::prelude::*;

verus! {

/// One event of a streamed Responses reply, with its JSON payload.
#[derive(Debug)]
pub enum ResponsesEvent {
    /// `response.output_item.added`.
    OutputItemAdded(Value),
    /// `response.function_call_arguments.done`.
    FunctionCallArgumentsDone(Value),
    /// `response.output_item.done`.
    OutputItemDone(Value),
    /// Any other event.
    Other(Value),
}

} // verus!
