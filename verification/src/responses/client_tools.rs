//! Streaming restoration of lowered client tools.
//!
//! Rich client tools are lowered to private `function` tools on the outbound
//! request. When the model returns a lowered `function_call` in the Responses
//! stream, this module plans how each event is restored before it reaches the
//! client. Planning fails closed on any lifecycle-order violation and where what a
//! restoration needs is missing, so that a private name never reaches the client.
//! With nothing lowered it plans nothing.

use crate::json::{get_member, json_contents, member, text_of, unsigned_of, Json};
use crate::responses::event::ResponsesEvent;
use crate::responses::state::{
    copy_optional_text, optional_text, ClientToolEcho, ClientToolRestore, LoweredClientTool,
    LoweredClientToolView,
};
use crate::sse::SseParseError;
use crate::text::{decimal, decimal_text};
use serde_json::Value;
use vstd::hash_map::StringHashMap;
use vstd::prelude::*;

verus! {

/// Per-item lifecycle progress through a lowered `function_call`'s SSE events.
#[derive(Clone, Copy, Debug, PartialEq, Eq, Structural)]
pub enum ClientToolPhase {
    /// `output_item.added` seen; arguments not yet complete.
    Opened,
    /// `function_call_arguments.done` seen; the arguments are final.
    ArgsComplete,
    /// `output_item.done` seen; the item is finalized.
    Done,
}

/// A lowered client-tool item tracked across its streaming lifecycle.
///
/// Created at `output_item.added` and advanced by later argument and finalizer
/// events, so that planning can enforce lifecycle order.
#[derive(Debug)]
pub struct ClientToolStreamItem {
    /// Stable key matching this item across its lifecycle events (`item:{id}` or
    /// `index:{output_index}`).
    pub key: String,
    /// The private lowered name the backend returned. Never leaked to clients.
    pub private_name: String,
    /// The typed item this lowered `function_call` restores to.
    pub restore: ClientToolRestore,
    /// Lifecycle progress observed so far.
    pub phase: ClientToolPhase,
    /// Absolute output index carried by the item's lifecycle events.
    pub output_index: u64,
    /// The item id (`item.id`), when the backend supplied one.
    pub item_id: Option<String>,
}

/// What a [`ClientToolStreamItem`] says.
pub struct StreamItemView {
    /// Stable key of the item.
    pub key: Seq<char>,
    /// The private lowered name.
    pub private_name: Seq<char>,
    /// The typed item to restore.
    pub restore: ClientToolRestore,
    /// Lifecycle progress.
    pub phase: ClientToolPhase,
    /// Absolute output index.
    pub output_index: u64,
    /// The item id, if any.
    pub item_id: Option<Seq<char>>,
}

impl View for ClientToolStreamItem {
    type V = StreamItemView;

    open spec fn view(&self) -> StreamItemView {
        StreamItemView {
            key: self.key@,
            private_name: self.private_name@,
            restore: self.restore,
            phase: self.phase,
            output_index: self.output_index,
            item_id: optional_text(self.item_id),
        }
    }
}

impl Clone for ClientToolStreamItem {
    fn clone(&self) -> (copy: Self)
        ensures
            copy@ == self@,
    {
        ClientToolStreamItem {
            key: self.key.clone(),
            private_name: self.private_name.clone(),
            restore: self.restore,
            phase: self.phase,
            output_index: self.output_index,
            item_id: copy_optional_text(&self.item_id),
        }
    }
}

/// What the items of a sequence say.
pub open spec fn item_views(items: Seq<ClientToolStreamItem>) -> Seq<StreamItemView> {
    items.map_values(|item: ClientToolStreamItem| item@)
}

/// A completed private `function_call` item captured from accumulated storage at
/// `function_call_arguments.done`.
#[derive(Debug)]
pub struct ClientToolCompletion {
    /// Stable key matching the completion to its tracked stream item.
    pub key: String,
    /// The completed private `function_call` item.
    pub item: Value,
}

impl Clone for ClientToolCompletion {
    fn clone(&self) -> (copy: Self)
        ensures
            copy.key@ == self.key@,
            json_contents(copy.item) == json_contents(self.item),
    {
        ClientToolCompletion { key: self.key.clone(), item: self.item.clone() }
    }
}

/// How one committed SSE event must be restored before it reaches the client.
#[derive(Debug)]
pub enum ClientToolDisposition {
    /// Forward the event unchanged.
    Passthrough,
    /// Drop the event entirely (the typed replacement is synthesized elsewhere).
    Suppress,
    /// Retype the event's `item` in place: set `type`/`name` and re-add or remove
    /// `namespace`.
    RetypeInPlace {
        /// The restored output-item type (`function_call`).
        item_type: &'static str,
        /// The original member name to restore.
        name: String,
        /// The namespace to re-add, or `None` to remove it.
        namespace: Option<String>,
    },
    /// Emit a synthesized `custom_tool_call` `output_item.added`.
    EmitCustomShell {
        /// The synthesized output item.
        item: Value,
    },
    /// Emit a synthesized custom-tool input event.
    EmitCustomInput {
        /// Stable key of the tracked stream item.
        key: String,
        /// The item id to stamp on the synthesized event.
        item_id: String,
        /// The absolute output index.
        output_index: u64,
        /// The unwrapped plain-string input.
        input: String,
    },
    /// Emit a synthesized custom-tool `output_item.done`.
    EmitCustomItemDone {
        /// The synthesized output item.
        item: Value,
    },
    /// Emit a synthesized typed `output_item.added`.
    EmitTypedAdded {
        /// The synthesized output item.
        item: Value,
    },
    /// Emit a synthesized typed `output_item.done`.
    EmitTypedDone {
        /// The synthesized output item.
        item: Value,
    },
    /// Restore the terminal response snapshot's output.
    RestoreSnapshot {
        /// The restored response object.
        response: Value,
    },
}

/// What a [`ClientToolDisposition`] says.
pub enum DispositionView {
    /// Forward the event unchanged.
    Passthrough,
    /// Drop the event.
    Suppress,
    /// Retype the event's `item` in place.
    RetypeInPlace {
        /// The restored output-item type.
        item_type: Seq<char>,
        /// The original member name.
        name: Seq<char>,
        /// The namespace to re-add, if any.
        namespace: Option<Seq<char>>,
    },
    /// Emit a synthesized `custom_tool_call` `output_item.added`.
    EmitCustomShell {
        /// The synthesized output item.
        item: Json,
    },
    /// Emit a synthesized custom-tool input event.
    EmitCustomInput {
        /// Stable key of the tracked stream item.
        key: Seq<char>,
        /// The item id to stamp on the event.
        item_id: Seq<char>,
        /// The absolute output index.
        output_index: u64,
        /// The plain-string input.
        input: Seq<char>,
    },
    /// Emit a synthesized custom-tool `output_item.done`.
    EmitCustomItemDone {
        /// The synthesized output item.
        item: Json,
    },
    /// Emit a synthesized typed `output_item.added`.
    EmitTypedAdded {
        /// The synthesized output item.
        item: Json,
    },
    /// Emit a synthesized typed `output_item.done`.
    EmitTypedDone {
        /// The synthesized output item.
        item: Json,
    },
    /// Restore the terminal response snapshot's output.
    RestoreSnapshot {
        /// The restored response object.
        response: Json,
    },
}

impl View for ClientToolDisposition {
    type V = DispositionView;

    open spec fn view(&self) -> DispositionView {
        match self {
            ClientToolDisposition::Passthrough => DispositionView::Passthrough,
            ClientToolDisposition::Suppress => DispositionView::Suppress,
            ClientToolDisposition::RetypeInPlace { item_type, name, namespace } =>
                DispositionView::RetypeInPlace {
                    item_type: item_type@,
                    name: name@,
                    namespace: optional_text(*namespace),
                },
            ClientToolDisposition::EmitCustomShell { item } => DispositionView::EmitCustomShell {
                item: json_contents(*item),
            },
            ClientToolDisposition::EmitCustomInput { key, item_id, output_index, input } =>
                DispositionView::EmitCustomInput {
                    key: key@,
                    item_id: item_id@,
                    output_index: *output_index,
                    input: input@,
                },
            ClientToolDisposition::EmitCustomItemDone { item } =>
                DispositionView::EmitCustomItemDone { item: json_contents(*item) },
            ClientToolDisposition::EmitTypedAdded { item } => DispositionView::EmitTypedAdded {
                item: json_contents(*item),
            },
            ClientToolDisposition::EmitTypedDone { item } => DispositionView::EmitTypedDone {
                item: json_contents(*item),
            },
            ClientToolDisposition::RestoreSnapshot { response } =>
                DispositionView::RestoreSnapshot { response: json_contents(*response) },
        }
    }
}

impl Clone for ClientToolDisposition {
    fn clone(&self) -> (copy: Self)
        ensures
            copy@ == self@,
    {
        match self {
            ClientToolDisposition::Passthrough => ClientToolDisposition::Passthrough,
            ClientToolDisposition::Suppress => ClientToolDisposition::Suppress,
            ClientToolDisposition::RetypeInPlace { item_type, name, namespace } =>
                ClientToolDisposition::RetypeInPlace {
                    item_type,
                    name: name.clone(),
                    namespace: copy_optional_text(namespace),
                },
            ClientToolDisposition::EmitCustomShell { item } =>
                ClientToolDisposition::EmitCustomShell { item: item.clone() },
            ClientToolDisposition::EmitCustomInput { key, item_id, output_index, input } =>
                ClientToolDisposition::EmitCustomInput {
                    key: key.clone(),
                    item_id: item_id.clone(),
                    output_index: *output_index,
                    input: input.clone(),
                },
            ClientToolDisposition::EmitCustomItemDone { item } =>
                ClientToolDisposition::EmitCustomItemDone { item: item.clone() },
            ClientToolDisposition::EmitTypedAdded { item } =>
                ClientToolDisposition::EmitTypedAdded { item: item.clone() },
            ClientToolDisposition::EmitTypedDone { item } =>
                ClientToolDisposition::EmitTypedDone { item: item.clone() },
            ClientToolDisposition::RestoreSnapshot { response } =>
                ClientToolDisposition::RestoreSnapshot { response: response.clone() },
        }
    }
}

/// What the dispositions of a sequence say.
pub open spec fn disposition_views(dispositions: Seq<ClientToolDisposition>) -> Seq<
    DispositionView,
> {
    dispositions.map_values(|disposition: ClientToolDisposition| disposition@)
}

/// The planned restoration for one committed chunk: one disposition per event,
/// plus the advanced per-item lifecycle state to store back on the owner.
pub struct PlannedRestore {
    /// One disposition per input event, in order.
    pub dispositions: Vec<ClientToolDisposition>,
    /// The tracked stream items after applying this chunk's lifecycle advances.
    pub next_items: Vec<ClientToolStreamItem>,
}

/// What planning reads of an event's payload.
#[derive(Debug)]
pub struct ItemEvent {
    /// The name of the output item, if the payload carries a named item.
    pub name: Option<String>,
    /// Stable key of the item across its lifecycle events.
    pub key: Option<String>,
    /// The output index; zero where the payload carries none.
    pub output_index: u64,
    /// The id of the output item, if any.
    pub item_id: Option<String>,
}

/// What an [`ItemEvent`] says.
pub struct ItemEventView {
    /// The name of the output item, if any.
    pub name: Option<Seq<char>>,
    /// Stable key of the item, if the payload identifies one.
    pub key: Option<Seq<char>>,
    /// The output index.
    pub output_index: u64,
    /// The id of the output item, if any.
    pub item_id: Option<Seq<char>>,
}

impl View for ItemEvent {
    type V = ItemEventView;

    open spec fn view(&self) -> ItemEventView {
        ItemEventView {
            name: optional_text(self.name),
            key: optional_text(self.key),
            output_index: self.output_index,
            item_id: optional_text(self.item_id),
        }
    }
}

/// The text of a member, if it is there and a string.
pub open spec fn member_text(json: Json, name: Seq<char>) -> Option<Seq<char>> {
    match member(json, name) {
        Some(inner) => text_of(inner),
        None => None,
    }
}

/// The text of a member of the payload's `item`.
pub open spec fn item_text(payload: Json, name: Seq<char>) -> Option<Seq<char>> {
    match member(payload, "item"@) {
        Some(item) => member_text(item, name),
        None => None,
    }
}

/// The payload's output index, if it carries one.
pub open spec fn payload_output_index(payload: Json) -> Option<u64> {
    match member(payload, "output_index"@) {
        Some(index) => unsigned_of(index),
        None => None,
    }
}

/// The item id that a payload carries: nested under `item`, else at the top.
pub open spec fn payload_item_id(payload: Json) -> Option<Seq<char>> {
    match item_text(payload, "id"@) {
        Some(id) => Some(id),
        None => member_text(payload, "item_id"@),
    }
}

/// The key of an item with this id.
pub open spec fn id_key(id: Seq<char>) -> Seq<char> {
    "item:"@ + id
}

/// The key of an item without an id.
pub open spec fn index_key(output_index: u64) -> Seq<char> {
    "index:"@ + decimal(output_index as nat)
}

/// The key of the item that a payload is about: by its id, else by its output
/// index.
pub open spec fn event_key(payload: Json) -> Option<Seq<char>> {
    match payload_item_id(payload) {
        Some(id) => Some(id_key(id)),
        None => match payload_output_index(payload) {
            Some(output_index) => Some(index_key(output_index)),
            None => None,
        },
    }
}

/// What planning reads of a payload.
pub open spec fn item_event(payload: Json) -> ItemEventView {
    ItemEventView {
        name: item_text(payload, "name"@),
        key: event_key(payload),
        output_index: match payload_output_index(payload) {
            Some(output_index) => output_index,
            None => 0,
        },
        item_id: item_text(payload, "id"@),
    }
}

/// Copy the text of a member, if it is there and a string.
fn copy_member_text(value: &Value, name: &str) -> (text: Option<String>)
    ensures
        optional_text(text) == member_text(json_contents(*value), name@),
{
    match get_member(value, name) {
        Some(inner) => match inner.as_str() {
            Some(text) => Some(String::from_str(text)),
            None => None,
        },
        None => None,
    }
}

/// Copy the text of a member of the payload's `item`.
fn copy_item_text(payload: &Value, name: &str) -> (text: Option<String>)
    ensures
        optional_text(text) == item_text(json_contents(*payload), name@),
{
    match get_member(payload, "item") {
        Some(item) => copy_member_text(item, name),
        None => None,
    }
}

/// Read the payload's output index.
fn read_output_index(payload: &Value) -> (output_index: Option<u64>)
    ensures
        output_index == payload_output_index(json_contents(*payload)),
{
    match get_member(payload, "output_index") {
        Some(index) => index.as_u64(),
        None => None,
    }
}

/// Stable key matching a lowered client-tool item across its lifecycle events.
///
/// `output_item.added`/`.done` carry the id nested under `item`; the
/// `function_call_arguments.*` events carry a top-level `item_id`. Either id form
/// is preferred over `output_index`, so one key matches the whole lifecycle.
pub fn client_tool_event_key(payload: &Value) -> (key: Option<String>)
    ensures
        optional_text(key) == event_key(json_contents(*payload)),
{
    let nested_id = copy_item_text(payload, "id");
    let id = match nested_id {
        Some(id) => Some(id),
        None => copy_member_text(payload, "item_id"),
    };
    match id {
        Some(id) => {
            let mut key = String::from_str("item:");
            key.append(id.as_str());
            Some(key)
        },
        None => match read_output_index(payload) {
            Some(output_index) => {
                let mut key = String::from_str("index:");
                key.append(decimal_text(output_index).as_str());
                Some(key)
            },
            None => None,
        },
    }
}

/// Read what planning needs of a payload.
pub fn read_item_event(payload: &Value) -> (event: ItemEvent)
    ensures
        event@ == item_event(json_contents(*payload)),
{
    ItemEvent {
        name: copy_item_text(payload, "name"),
        key: client_tool_event_key(payload),
        output_index: match read_output_index(payload) {
            Some(output_index) => output_index,
            None => 0,
        },
        item_id: copy_item_text(payload, "id"),
    }
}

/// The lowering map, its tools replaced by what they say.
pub open spec fn lowering(reverse: Map<Seq<char>, LoweredClientTool>) -> Map<
    Seq<char>,
    LoweredClientToolView,
> {
    reverse.map_values(|tool: LoweredClientTool| tool@)
}

/// `i` is the first item with this key.
pub open spec fn is_first_with_key(items: Seq<StreamItemView>, key: Seq<char>, i: int) -> bool {
    &&& 0 <= i < items.len()
    &&& items[i].key == key
    &&& forall|j: int| 0 <= j < i ==> items[j].key != key
}

/// The first tracked item that an event is about, if any.
pub open spec fn tracked_index(items: Seq<StreamItemView>, key: Option<Seq<char>>) -> Option<int> {
    match key {
        Some(key) => if exists|i: int| is_first_with_key(items, key, i) {
            Some(choose|i: int| is_first_with_key(items, key, i))
        } else {
            None
        },
        None => None,
    }
}

/// The retyping that restores a member of a lowered namespace.
pub open spec fn retyped(tool: LoweredClientToolView) -> DispositionView {
    DispositionView::RetypeInPlace {
        item_type: "function_call"@,
        name: tool.original_name,
        namespace: tool.namespace,
    }
}

/// The item with its lifecycle progress set.
pub open spec fn with_phase(item: StreamItemView, phase: ClientToolPhase) -> StreamItemView {
    StreamItemView { phase, ..item }
}

/// Why the restoration of a client tool fails closed.
#[derive(Clone, Copy, Debug, PartialEq, Eq, Structural)]
pub enum RestoreFault {
    /// `output_item.added` for an item that is tracked already.
    AddedTwice,
    /// `output_item.added` for a lowered member that carries no key to track it by.
    AddedWithoutKey,
    /// `function_call_arguments.done` for an item that is finalized.
    ArgumentsAfterDone,
    /// `output_item.done` for a lowered member that was never added.
    DoneBeforeAdded,
    /// `output_item.done` for an item whose arguments are not complete.
    DoneBeforeArguments,
    /// `output_item.done` for an item that is finalized.
    DoneTwice,
    /// `output_item.done` for an item whose lowering entry is missing.
    LoweringEntryMissing,
}

impl RestoreFault {
    /// The type of the event that the fault came with.
    pub open spec fn event(self) -> Seq<char> {
        match self {
            RestoreFault::AddedTwice => "response.output_item.added"@,
            RestoreFault::AddedWithoutKey => "response.output_item.added"@,
            RestoreFault::ArgumentsAfterDone => "response.function_call_arguments.done"@,
            RestoreFault::DoneBeforeAdded => "response.output_item.done"@,
            RestoreFault::DoneBeforeArguments => "response.output_item.done"@,
            RestoreFault::DoneTwice => "response.output_item.done"@,
            RestoreFault::LoweringEntryMissing => "response.output_item.done"@,
        }
    }

    /// What went wrong.
    pub open spec fn description(self) -> Seq<char> {
        match self {
            RestoreFault::AddedTwice => "output_item.added after output_item.added"@,
            RestoreFault::AddedWithoutKey => "output_item.added without id or output_index"@,
            RestoreFault::ArgumentsAfterDone => "arguments.done after output_item.done"@,
            RestoreFault::DoneBeforeAdded => "output_item.done before output_item.added"@,
            RestoreFault::DoneBeforeArguments => "output_item.done before arguments.done"@,
            RestoreFault::DoneTwice => "output_item.done after output_item.done"@,
            RestoreFault::LoweringEntryMissing => "lowering entry missing"@,
        }
    }

    /// The type of the event that the fault came with.
    fn event_text(self) -> (text: &'static str)
        ensures
            text@ == self.event(),
    {
        match self {
            RestoreFault::AddedTwice => "response.output_item.added",
            RestoreFault::AddedWithoutKey => "response.output_item.added",
            RestoreFault::ArgumentsAfterDone => "response.function_call_arguments.done",
            RestoreFault::DoneBeforeAdded => "response.output_item.done",
            RestoreFault::DoneBeforeArguments => "response.output_item.done",
            RestoreFault::DoneTwice => "response.output_item.done",
            RestoreFault::LoweringEntryMissing => "response.output_item.done",
        }
    }

    /// What went wrong.
    fn description_text(self) -> (text: &'static str)
        ensures
            text@ == self.description(),
    {
        match self {
            RestoreFault::AddedTwice => "output_item.added after output_item.added",
            RestoreFault::AddedWithoutKey => "output_item.added without id or output_index",
            RestoreFault::ArgumentsAfterDone => "arguments.done after output_item.done",
            RestoreFault::DoneBeforeAdded => "output_item.done before output_item.added",
            RestoreFault::DoneBeforeArguments => "output_item.done before arguments.done",
            RestoreFault::DoneTwice => "output_item.done after output_item.done",
            RestoreFault::LoweringEntryMissing => "lowering entry missing",
        }
    }
}

/// A fault, and the key of the item that it is about.
pub struct RestoreFailure {
    /// The key of the item, if the event identifies one.
    pub key: Option<Seq<char>>,
    /// The fault.
    pub fault: RestoreFault,
}

/// The error that reports a failed restoration. It never shows the private name.
pub open spec fn reports_failure(error: SseParseError, failure: RestoreFailure) -> bool {
    &&& error matches SseParseError::MalformedJson { event_type, err }
    &&& event_type@ == failure.fault.event()
    &&& err@ == "client-tool restore for '"@ + shown_key(failure.key) + "': "@
        + failure.fault.description()
}

/// How a key is shown in an error.
pub open spec fn shown_key(key: Option<Seq<char>>) -> Seq<char> {
    match key {
        Some(key) => key,
        None => "unidentified item"@,
    }
}

/// The event names a lowered namespace member.
pub open spec fn names_member(
    reverse: Map<Seq<char>, LoweredClientToolView>,
    event: ItemEventView,
) -> bool {
    &&& event.name matches Some(name)
    &&& reverse.contains_key(name)
    &&& reverse[name].restore == ClientToolRestore::Namespace
}

/// The item that the `output_item.added` of a lowered namespace member opens.
pub open spec fn opened_item(event: ItemEventView) -> StreamItemView {
    StreamItemView {
        key: event.key->0,
        private_name: event.name->0,
        restore: ClientToolRestore::Namespace,
        phase: ClientToolPhase::Opened,
        output_index: event.output_index,
        item_id: event.item_id,
    }
}

/// The plan for an `output_item.added`, and the items after it. A lowered
/// namespace member is opened once, under its key.
pub open spec fn plan_added(
    reverse: Map<Seq<char>, LoweredClientToolView>,
    items: Seq<StreamItemView>,
    event: ItemEventView,
) -> Result<(DispositionView, Seq<StreamItemView>), RestoreFailure> {
    if !names_member(reverse, event) {
        Ok((DispositionView::Passthrough, items))
    } else if event.key is None {
        Err(RestoreFailure { key: None, fault: RestoreFault::AddedWithoutKey })
    } else if tracked_index(items, event.key) is Some {
        Err(RestoreFailure { key: event.key, fault: RestoreFault::AddedTwice })
    } else {
        Ok((retyped(reverse[event.name->0]), items.push(opened_item(event))))
    }
}

/// The items after a `function_call_arguments.done`, which itself passes through.
/// A finalized item takes no arguments.
pub open spec fn plan_arguments(
    items: Seq<StreamItemView>,
    event: ItemEventView,
) -> Result<(DispositionView, Seq<StreamItemView>), RestoreFailure> {
    match tracked_index(items, event.key) {
        Some(i) => if items[i].restore != ClientToolRestore::Namespace {
            Ok((DispositionView::Passthrough, items))
        } else if items[i].phase == ClientToolPhase::Done {
            Err(
                RestoreFailure {
                    key: Some(items[i].key),
                    fault: RestoreFault::ArgumentsAfterDone,
                },
            )
        } else {
            Ok(
                (
                    DispositionView::Passthrough,
                    items.update(i, with_phase(items[i], ClientToolPhase::ArgsComplete)),
                ),
            )
        },
        None => Ok((DispositionView::Passthrough, items)),
    }
}

/// The plan for an `output_item.done`, and the items after it. A lowered namespace
/// member is finalized once, after its arguments, with its lowering entry at hand.
pub open spec fn plan_done(
    reverse: Map<Seq<char>, LoweredClientToolView>,
    items: Seq<StreamItemView>,
    event: ItemEventView,
) -> Result<(DispositionView, Seq<StreamItemView>), RestoreFailure> {
    match tracked_index(items, event.key) {
        Some(i) => {
            let key = Some(items[i].key);
            if items[i].restore != ClientToolRestore::Namespace {
                Ok((DispositionView::Passthrough, items))
            } else if items[i].phase == ClientToolPhase::Opened {
                Err(RestoreFailure { key, fault: RestoreFault::DoneBeforeArguments })
            } else if items[i].phase == ClientToolPhase::Done {
                Err(RestoreFailure { key, fault: RestoreFault::DoneTwice })
            } else if !reverse.contains_key(items[i].private_name) {
                Err(RestoreFailure { key, fault: RestoreFault::LoweringEntryMissing })
            } else {
                Ok(
                    (
                        retyped(reverse[items[i].private_name]),
                        items.update(i, with_phase(items[i], ClientToolPhase::Done)),
                    ),
                )
            }
        },
        None => if names_member(reverse, event) {
            Err(RestoreFailure { key: event.key, fault: RestoreFault::DoneBeforeAdded })
        } else {
            Ok((DispositionView::Passthrough, items))
        },
    }
}

/// What planning reads of an event.
pub enum LifecycleEvent {
    /// `output_item.added`.
    Added(ItemEventView),
    /// `function_call_arguments.done`.
    ArgumentsDone(ItemEventView),
    /// `output_item.done`.
    ItemDone(ItemEventView),
    /// Any other event.
    Other,
}

/// What planning reads of a stream event.
pub open spec fn lifecycle_event(event: ResponsesEvent) -> LifecycleEvent {
    match event {
        ResponsesEvent::OutputItemAdded(payload) => LifecycleEvent::Added(
            item_event(json_contents(payload)),
        ),
        ResponsesEvent::FunctionCallArgumentsDone(payload) => LifecycleEvent::ArgumentsDone(
            item_event(json_contents(payload)),
        ),
        ResponsesEvent::OutputItemDone(payload) => LifecycleEvent::ItemDone(
            item_event(json_contents(payload)),
        ),
        ResponsesEvent::Other(_) => LifecycleEvent::Other,
    }
}

/// What planning reads of the stream events.
pub open spec fn lifecycle_events(events: Seq<ResponsesEvent>) -> Seq<LifecycleEvent> {
    events.map_values(|event: ResponsesEvent| lifecycle_event(event))
}

/// The plan for one event, and the items after it, or why it fails.
pub open spec fn plan_event(
    reverse: Map<Seq<char>, LoweredClientToolView>,
    items: Seq<StreamItemView>,
    event: LifecycleEvent,
) -> Result<(DispositionView, Seq<StreamItemView>), RestoreFailure> {
    match event {
        LifecycleEvent::Added(event) => plan_added(reverse, items, event),
        LifecycleEvent::ArgumentsDone(event) => plan_arguments(items, event),
        LifecycleEvent::ItemDone(event) => plan_done(reverse, items, event),
        LifecycleEvent::Other => Ok((DispositionView::Passthrough, items)),
    }
}

/// The plan for a run of events: one disposition per event, and the items after
/// them; the first failure ends it.
pub open spec fn plan_events(
    reverse: Map<Seq<char>, LoweredClientToolView>,
    items: Seq<StreamItemView>,
    events: Seq<LifecycleEvent>,
) -> Result<(Seq<DispositionView>, Seq<StreamItemView>), RestoreFailure>
    decreases events.len(),
{
    if events.len() == 0 {
        Ok((Seq::empty(), items))
    } else {
        match plan_events(reverse, items, events.drop_last()) {
            Ok((dispositions, current)) => match plan_event(reverse, current, events.last()) {
                Ok((disposition, next)) => Ok((dispositions.push(disposition), next)),
                Err(failure) => Err(failure),
            },
            Err(failure) => Err(failure),
        }
    }
}

/// The plan for a chunk: with nothing lowered, nothing is planned.
pub open spec fn plan_chunk(
    reverse: Map<Seq<char>, LoweredClientToolView>,
    items: Seq<StreamItemView>,
    events: Seq<LifecycleEvent>,
) -> Result<(Seq<DispositionView>, Seq<StreamItemView>), RestoreFailure> {
    if reverse.dom() =~= Set::<Seq<char>>::empty() {
        Ok((Seq::empty(), items))
    } else {
        plan_events(reverse, items, events)
    }
}

/// What planning an event returns and leaves: the plan, or an error that reports
/// the failure and leaves the items as they were.
pub open spec fn event_planned(
    plan: Result<(DispositionView, Seq<StreamItemView>), RestoreFailure>,
    before: Seq<StreamItemView>,
    after: Seq<StreamItemView>,
    result: Result<ClientToolDisposition, SseParseError>,
) -> bool {
    match plan {
        Ok((disposition, next)) => {
            &&& result matches Ok(planned)
            &&& planned@ == disposition
            &&& after == next
        },
        Err(failure) => {
            &&& result matches Err(error)
            &&& reports_failure(error, failure)
            &&& after == before
        },
    }
}

/// Build the error that reports a failed restoration.
fn restore_error(key: &Option<String>, fault: RestoreFault) -> (error: SseParseError)
    ensures
        reports_failure(error, (RestoreFailure { key: optional_text(*key), fault })),
{
    let mut err = String::from_str("client-tool restore for '");
    match key {
        Some(key) => err.append(key.as_str()),
        None => err.append("unidentified item"),
    }
    err.append("': ");
    err.append(fault.description_text());
    SseParseError::MalformedJson { event_type: String::from_str(fault.event_text()), err }
}

/// Copy the tracked items.
fn copy_items(items: &[ClientToolStreamItem]) -> (copy: Vec<ClientToolStreamItem>)
    ensures
        item_views(copy@) == item_views(items@),
{
    let mut copy: Vec<ClientToolStreamItem> = Vec::new();
    let mut i: usize = 0;
    while i < items.len()
        invariant
            i <= items@.len(),
            copy@.len() == i,
            forall|j: int| 0 <= j < i ==> copy@[j]@ == items@[j]@,
        decreases items@.len() - i,
    {
        copy.push(items[i].clone());
        i += 1;
    }
    assert(item_views(copy@) =~= item_views(items@));
    copy
}

/// The first item with a key is the one that an event with that key is about.
pub proof fn lemma_tracked_index(items: Seq<StreamItemView>, key: Seq<char>, i: int)
    requires
        is_first_with_key(items, key, i),
    ensures
        tracked_index(items, Some(key)) == Some(i),
{
    let j = choose|j: int| is_first_with_key(items, key, j);
    assert(is_first_with_key(items, key, j));
    if j < i {
        assert(items[j].key != key);
    } else if i < j {
        assert(items[i].key != key);
    }
}

/// Find the first tracked item that an event is about.
fn find_tracked(items: &Vec<ClientToolStreamItem>, key: &Option<String>) -> (found: Option<usize>)
    ensures
        match tracked_index(item_views(items@), optional_text(*key)) {
            Some(i) => found matches Some(at) && at == i && at < items@.len(),
            None => found is None,
        },
{
    let wanted = match key {
        Some(wanted) => wanted,
        None => {
            return None;
        },
    };
    let ghost views = item_views(items@);
    let mut i: usize = 0;
    while i < items.len()
        invariant
            i <= items@.len(),
            views == item_views(items@),
            optional_text(*key) == Some(wanted@),
            forall|j: int| 0 <= j < i ==> views[j].key != wanted@,
        decreases items@.len() - i,
    {
        if items[i].key == *wanted {
            assert(is_first_with_key(views, wanted@, i as int));
            proof {
                lemma_tracked_index(views, wanted@, i as int);
            }
            return Some(i);
        }
        i += 1;
    }
    None
}

/// The disposition that restores a member of a lowered namespace.
fn retype(tool: &LoweredClientTool) -> (disposition: ClientToolDisposition)
    ensures
        disposition@ == retyped(tool@),
{
    ClientToolDisposition::RetypeInPlace {
        item_type: "function_call",
        name: tool.original_name.clone(),
        namespace: copy_optional_text(&tool.namespace),
    }
}

/// Open tracking for a lowered `Namespace` member and retype it in place.
/// Non-lowered items and other lowered kinds pass through untracked. Fails closed
/// if the member is tracked already or carries no key.
pub fn open_item(
    reverse: &StringHashMap<LoweredClientTool>,
    next_items: &mut Vec<ClientToolStreamItem>,
    event: ItemEvent,
) -> (result: Result<ClientToolDisposition, SseParseError>)
    ensures
        event_planned(
            plan_added(lowering(reverse@), item_views(old(next_items)@), event@),
            item_views(old(next_items)@),
            item_views(final(next_items)@),
            result,
        ),
{
    let name = match event.name {
        Some(name) => name,
        None => {
            return Ok(ClientToolDisposition::Passthrough);
        },
    };
    let lowered = match reverse.get(name.as_str()) {
        Some(lowered) => lowered,
        None => {
            return Ok(ClientToolDisposition::Passthrough);
        },
    };
    if lowered.restore != ClientToolRestore::Namespace {
        return Ok(ClientToolDisposition::Passthrough);
    }
    if find_tracked(next_items, &event.key).is_some() {
        return Err(restore_error(&event.key, RestoreFault::AddedTwice));
    }
    let key = match event.key {
        Some(key) => key,
        None => {
            return Err(restore_error(&None, RestoreFault::AddedWithoutKey));
        },
    };
    let item = ClientToolStreamItem {
        key,
        private_name: name,
        restore: lowered.restore,
        phase: ClientToolPhase::Opened,
        output_index: event.output_index,
        item_id: event.item_id,
    };
    next_items.push(item);
    assert(item_views(next_items@) =~= item_views(old(next_items)@).push(item@));
    Ok(retype(lowered))
}

/// Advance a tracked `Namespace` item to `ArgsComplete`. Fails closed if the item
/// is finalized.
pub fn complete_arguments(
    next_items: &mut Vec<ClientToolStreamItem>,
    event: ItemEvent,
) -> (result: Result<ClientToolDisposition, SseParseError>)
    ensures
        event_planned(
            plan_arguments(item_views(old(next_items)@), event@),
            item_views(old(next_items)@),
            item_views(final(next_items)@),
            result,
        ),
{
    let at = match find_tracked(next_items, &event.key) {
        Some(at) => at,
        None => {
            return Ok(ClientToolDisposition::Passthrough);
        },
    };
    if next_items[at].restore != ClientToolRestore::Namespace {
        return Ok(ClientToolDisposition::Passthrough);
    }
    if next_items[at].phase == ClientToolPhase::Done {
        return Err(restore_error(&event.key, RestoreFault::ArgumentsAfterDone));
    }
    next_items[at].phase = ClientToolPhase::ArgsComplete;
    proof {
        let before = item_views(old(next_items)@);
        assert(item_views(next_items@) =~= before.update(
            at as int,
            with_phase(before[at as int], ClientToolPhase::ArgsComplete),
        ));
    }
    Ok(ClientToolDisposition::Passthrough)
}

/// Finalize a tracked `Namespace` item and retype it in place. Fails closed if the
/// item's arguments are not complete, if it is finalized already, if its lowering
/// entry is missing, or if a lowered member was never opened.
pub fn finish_item(
    reverse: &StringHashMap<LoweredClientTool>,
    next_items: &mut Vec<ClientToolStreamItem>,
    event: ItemEvent,
) -> (result: Result<ClientToolDisposition, SseParseError>)
    ensures
        event_planned(
            plan_done(lowering(reverse@), item_views(old(next_items)@), event@),
            item_views(old(next_items)@),
            item_views(final(next_items)@),
            result,
        ),
{
    let at = match find_tracked(next_items, &event.key) {
        Some(at) => at,
        None => {
            if is_member_name(reverse, &event.name) {
                return Err(restore_error(&event.key, RestoreFault::DoneBeforeAdded));
            }
            return Ok(ClientToolDisposition::Passthrough);
        },
    };
    if next_items[at].restore != ClientToolRestore::Namespace {
        return Ok(ClientToolDisposition::Passthrough);
    }
    match next_items[at].phase {
        ClientToolPhase::Opened => {
            return Err(restore_error(&event.key, RestoreFault::DoneBeforeArguments));
        },
        ClientToolPhase::Done => {
            return Err(restore_error(&event.key, RestoreFault::DoneTwice));
        },
        ClientToolPhase::ArgsComplete => {},
    }
    let lowered = match reverse.get(next_items[at].private_name.as_str()) {
        Some(lowered) => lowered,
        None => {
            return Err(restore_error(&event.key, RestoreFault::LoweringEntryMissing));
        },
    };
    next_items[at].phase = ClientToolPhase::Done;
    proof {
        let before = item_views(old(next_items)@);
        assert(item_views(next_items@) =~= before.update(
            at as int,
            with_phase(before[at as int], ClientToolPhase::Done),
        ));
    }
    Ok(retype(lowered))
}

/// Whether an item name is that of a lowered `Namespace` member.
fn is_member_name(
    reverse: &StringHashMap<LoweredClientTool>,
    name: &Option<String>,
) -> (member: bool)
    ensures
        member == (optional_text(*name) matches Some(chars) && lowering(reverse@).contains_key(
            chars,
        ) && lowering(reverse@)[chars].restore == ClientToolRestore::Namespace),
{
    match name {
        Some(name) => match reverse.get(name.as_str()) {
            Some(lowered) => lowered.restore == ClientToolRestore::Namespace,
            None => false,
        },
        None => false,
    }
}

/// Plan an `output_item.added`: open tracking for a lowered `Namespace` member and
/// retype it in place. Non-lowered items and other lowered kinds pass through
/// unchanged. Fails closed if the member is tracked already or carries no key.
pub fn plan_output_item_added(
    reverse: &StringHashMap<LoweredClientTool>,
    next_items: &mut Vec<ClientToolStreamItem>,
    payload: &Value,
) -> (result: Result<ClientToolDisposition, SseParseError>)
    ensures
        event_planned(
            plan_added(
                lowering(reverse@),
                item_views(old(next_items)@),
                item_event(json_contents(*payload)),
            ),
            item_views(old(next_items)@),
            item_views(final(next_items)@),
            result,
        ),
{
    open_item(reverse, next_items, read_item_event(payload))
}

/// Plan a `function_call_arguments.done`: advance a tracked `Namespace` item to
/// `ArgsComplete`. The arguments frame carries no typed name, so the item is found
/// by its key. Fails closed if the item is finalized.
pub fn plan_arguments_done(
    next_items: &mut Vec<ClientToolStreamItem>,
    payload: &Value,
) -> (result: Result<ClientToolDisposition, SseParseError>)
    ensures
        event_planned(
            plan_arguments(
                item_views(old(next_items)@),
                item_event(json_contents(*payload)),
            ),
            item_views(old(next_items)@),
            item_views(final(next_items)@),
            result,
        ),
{
    complete_arguments(next_items, read_item_event(payload))
}

/// Plan an `output_item.done`: finalize a tracked `Namespace` item and retype it
/// in place. Fails closed unless the item was added, its arguments are complete,
/// it is not finalized yet, and its lowering entry is at hand.
pub fn plan_output_item_done(
    reverse: &StringHashMap<LoweredClientTool>,
    next_items: &mut Vec<ClientToolStreamItem>,
    payload: &Value,
) -> (result: Result<ClientToolDisposition, SseParseError>)
    ensures
        event_planned(
            plan_done(
                lowering(reverse@),
                item_views(old(next_items)@),
                item_event(json_contents(*payload)),
            ),
            item_views(old(next_items)@),
            item_views(final(next_items)@),
            result,
        ),
{
    finish_item(reverse, next_items, read_item_event(payload))
}

/// Plan the restoration for a single committed event, advancing `next_items`.
pub fn plan_one_event(
    reverse: &StringHashMap<LoweredClientTool>,
    next_items: &mut Vec<ClientToolStreamItem>,
    event: &ResponsesEvent,
) -> (result: Result<ClientToolDisposition, SseParseError>)
    ensures
        event_planned(
            plan_event(
                lowering(reverse@),
                item_views(old(next_items)@),
                lifecycle_event(*event),
            ),
            item_views(old(next_items)@),
            item_views(final(next_items)@),
            result,
        ),
{
    match event {
        ResponsesEvent::OutputItemAdded(payload) => plan_output_item_added(
            reverse,
            next_items,
            payload,
        ),
        ResponsesEvent::FunctionCallArgumentsDone(payload) => plan_arguments_done(
            next_items,
            payload,
        ),
        ResponsesEvent::OutputItemDone(payload) => plan_output_item_done(
            reverse,
            next_items,
            payload,
        ),
        ResponsesEvent::Other(_) => Ok(ClientToolDisposition::Passthrough),
    }
}

/// Map each committed-this-chunk event to a restoration disposition, staging the
/// per-item lifecycle advance in `next_items`. Fail closed (`Err`) on any
/// lifecycle-order violation, missing artifact, or lossy restore. Native
/// passthrough (empty `reverse`) returns a plan without dispositions. `echo` and
/// `completions` play no part in retyping in place.
pub fn plan_client_tool_restore(
    reverse: &StringHashMap<LoweredClientTool>,
    echo: Option<&ClientToolEcho>,
    committed: &[ClientToolStreamItem],
    events: &[ResponsesEvent],
    completions: &[ClientToolCompletion],
) -> (result: Result<PlannedRestore, SseParseError>)
    ensures
        match plan_chunk(
            lowering(reverse@),
            item_views(committed@),
            lifecycle_events(events@),
        ) {
            Ok((dispositions, next)) => {
                &&& result matches Ok(plan)
                &&& disposition_views(plan.dispositions@) == dispositions
                &&& item_views(plan.next_items@) == next
            },
            Err(failure) => result matches Err(error) && reports_failure(error, failure),
        },
{
    let mut next_items = copy_items(committed);
    let mut dispositions: Vec<ClientToolDisposition> = Vec::new();
    let ghost map = lowering(reverse@);
    let ghost start = item_views(committed@);
    let ghost all = lifecycle_events(events@);
    assert(disposition_views(dispositions@) =~= Seq::empty());
    if reverse.is_empty() {
        assert(map.dom() =~= Set::empty());
        return Ok(PlannedRestore { dispositions, next_items });
    }
    assert(!(map.dom() =~= Set::<Seq<char>>::empty())) by {
        assert(map.dom() =~= reverse@.dom());
    }
    let mut i: usize = 0;
    while i < events.len()
        invariant
            i <= events@.len(),
            map == lowering(reverse@),
            start == item_views(committed@),
            all == lifecycle_events(events@),
            !(map.dom() =~= Set::<Seq<char>>::empty()),
            plan_events(map, start, all.take(i as int)) == Ok::<
                (Seq<DispositionView>, Seq<StreamItemView>),
                RestoreFailure,
            >((disposition_views(dispositions@), item_views(next_items@))),
        decreases events@.len() - i,
    {
        let ghost before = dispositions@;
        assert(all.take(i + 1).drop_last() =~= all.take(i as int));
        assert(all.take(i + 1).last() == lifecycle_event(events@[i as int]));
        match plan_one_event(reverse, &mut next_items, &events[i]) {
            Ok(disposition) => {
                dispositions.push(disposition);
                assert(disposition_views(dispositions@) =~= disposition_views(before).push(
                    disposition@,
                ));
            },
            Err(error) => {
                proof {
                    lemma_failure_ends_plan(map, start, all, i + 1);
                }
                return Err(error);
            },
        }
        i += 1;
    }
    assert(all.take(i as int) =~= all);
    Ok(PlannedRestore { dispositions, next_items })
}

/// A failure among the first `n` events is the failure of the whole run.
proof fn lemma_failure_ends_plan(
    reverse: Map<Seq<char>, LoweredClientToolView>,
    items: Seq<StreamItemView>,
    events: Seq<LifecycleEvent>,
    n: int,
)
    requires
        0 <= n <= events.len(),
        plan_events(reverse, items, events.take(n)) is Err,
    ensures
        plan_events(reverse, items, events) == plan_events(reverse, items, events.take(n)),
    decreases events.len() - n,
{
    if n == events.len() {
        assert(events.take(n) =~= events);
    } else {
        assert(events.take(n + 1).drop_last() =~= events.take(n));
        lemma_failure_ends_plan(reverse, items, events, n + 1);
    }
}

} // verus!
