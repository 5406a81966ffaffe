//! What is known of the client tools that a request lowered.

use serde_json::Value;
pub use vstd::hash_map::StringHashMap;
use vstd::prelude::*;

verus! {

/// The typed item that a lowered `function_call` restores to.
#[derive(Clone, Copy, Debug, PartialEq, Eq, Structural)]
pub enum ClientToolRestore {
    /// A `custom` tool call.
    Custom,
    /// A member of a `namespace` tool.
    Namespace,
    /// A local `shell` call.
    Shell,
    /// A client-executed `tool_search` call.
    ToolSearch,
}

/// The original of a client tool that was lowered to a private function tool.
#[derive(Debug)]
pub struct LoweredClientTool {
    /// The name the client gave the tool.
    pub original_name: String,
    /// The namespace the tool was a member of.
    pub namespace: Option<String>,
    /// The typed item its calls restore to.
    pub restore: ClientToolRestore,
}

/// What a [`LoweredClientTool`] says.
pub struct LoweredClientToolView {
    /// The name the client gave the tool.
    pub original_name: Seq<char>,
    /// The namespace the tool was a member of.
    pub namespace: Option<Seq<char>>,
    /// The typed item its calls restore to.
    pub restore: ClientToolRestore,
}

/// The text of an optional string.
pub open spec fn optional_text(text: Option<String>) -> Option<Seq<char>> {
    match text {
        Some(inner) => Some(inner@),
        None => None,
    }
}

/// Copy an optional string.
pub fn copy_optional_text(text: &Option<String>) -> (copy: Option<String>)
    ensures
        optional_text(copy) == optional_text(*text),
{
    match text {
        Some(inner) => Some(inner.clone()),
        None => None,
    }
}

impl View for LoweredClientTool {
    type V = LoweredClientToolView;

    open spec fn view(&self) -> LoweredClientToolView {
        LoweredClientToolView {
            original_name: self.original_name@,
            namespace: optional_text(self.namespace),
            restore: self.restore,
        }
    }
}

impl Clone for LoweredClientTool {
    fn clone(&self) -> (copy: Self)
        ensures
            copy@ == self@,
    {
        LoweredClientTool {
            original_name: self.original_name.clone(),
            namespace: copy_optional_text(&self.namespace),
            restore: self.restore,
        }
    }
}

/// The client's own tool declarations, which a reply shows in place of the
/// lowered ones.
#[derive(Debug)]
pub struct ClientToolEcho {
    /// The `tools` array of the request.
    pub tools: Value,
}

} // verus!
