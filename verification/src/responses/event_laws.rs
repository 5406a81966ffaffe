//! What holds of single events and of whole plans, said of the JSON payloads that
//! come in and of the plans that go out.

use crate::json::{json_contents, Json};
use crate::responses::client_tools::{
    disposition_views, event_key, event_planned, is_first_with_key, item_event, item_views, lemma_tracked_index,
    lifecycle_event, lifecycle_events, lowering, plan_chunk, plan_event, plan_events,
    reports_failure, retyped, tracked_index, ClientToolDisposition, ClientToolPhase,
    ClientToolStreamItem, DispositionView, ItemEvent, LifecycleEvent, PlannedRestore,
    RestoreFailure, RestoreFault, StreamItemView,
};
use crate::responses::event::ResponsesEvent;
use crate::responses::laws::{
    law_planning_in_parts, law_private_names_do_not_leak, lowers_something, only_members,
    shows_member,
};
use crate::responses::state::{
    optional_text, ClientToolRestore, LoweredClientTool, LoweredClientToolView,
};
use crate::sse::SseParseError;
use crate::text::{decimal, law_numeral_denotes_its_number, numeral_value};
use serde_json::Value;
use vstd::prelude::*;

verus! {

/// The payload is an object with an object `item` that has this text under this
/// name.
pub open spec fn holds_item_text(payload: Json, name: Seq<char>, text: Seq<char>) -> bool {
    &&& payload matches Json::Object(members)
    &&& members.contains_key("item"@)
    &&& members["item"@] matches Json::Object(item)
    &&& item.contains_key(name)
    &&& item[name] == Json::Text(text)
}

/// The payload is an object with this text under this name.
pub open spec fn holds_text(payload: Json, name: Seq<char>, text: Seq<char>) -> bool {
    &&& payload matches Json::Object(members)
    &&& members.contains_key(name)
    &&& members[name] == Json::Text(text)
}

/// The payload is an object with this output index.
pub open spec fn holds_output_index(payload: Json, output_index: u64) -> bool {
    &&& payload matches Json::Object(members)
    &&& members.contains_key("output_index"@)
    &&& members["output_index"@] == Json::Unsigned(output_index)
}

/// The name of an event's item is the text at `item.name`, whatever else the item
/// and the payload hold.
pub proof fn law_item_name_is_read(
    members: Map<Seq<char>, Json>,
    item: Map<Seq<char>, Json>,
    name: Seq<char>,
)
    requires
        members.contains_key("item"@),
        members["item"@] == Json::Object(item),
        item.contains_key("name"@),
        item["name"@] == Json::Text(name),
    ensures
        item_event(Json::Object(members)).name == Some(name),
{
}

/// The id of an event's item is the text at `item.id`, whatever else the item and
/// the payload hold.
pub proof fn law_item_id_is_read(
    members: Map<Seq<char>, Json>,
    item: Map<Seq<char>, Json>,
    id: Seq<char>,
)
    requires
        members.contains_key("item"@),
        members["item"@] == Json::Object(item),
        item.contains_key("id"@),
        item["id"@] == Json::Text(id),
    ensures
        item_event(Json::Object(members)).item_id == Some(id),
{
}

/// Names and ids are never made up: what is read as such stands in the payload's
/// item.
pub proof fn law_names_and_ids_stand_in_the_item(payload: Json)
    ensures
        item_event(payload).name matches Some(name) ==> holds_item_text(payload, "name"@, name),
        item_event(payload).item_id matches Some(id) ==> holds_item_text(payload, "id"@, id),
{
}

/// The output index of an event is the whole number at `output_index`, and zero
/// where there is none.
pub proof fn law_output_index_is_read(payload: Json)
    ensures
        forall|output_index: u64| #[trigger]
            holds_output_index(payload, output_index) ==> item_event(payload).output_index
                == output_index,
        (forall|output_index: u64| !#[trigger] holds_output_index(payload, output_index))
            ==> item_event(payload).output_index == 0,
{
    if item_event(payload).output_index != 0 {
        assert(holds_output_index(payload, item_event(payload).output_index));
    }
}

/// An event whose payload has a text at `item.id` is keyed by that whole text,
/// whatever else the payload holds.
pub proof fn law_nested_id_is_the_key(
    members: Map<Seq<char>, Json>,
    item: Map<Seq<char>, Json>,
    id: Seq<char>,
)
    requires
        members.contains_key("item"@),
        members["item"@] == Json::Object(item),
        item.contains_key("id"@),
        item["id"@] == Json::Text(id),
    ensures
        event_key(Json::Object(members)) == Some("item:"@ + id),
        item_event(Json::Object(members)).key == Some("item:"@ + id),
{
}

/// An event whose payload has no text at `item.id`, but one at `item_id`, is keyed
/// by that whole text.
pub proof fn law_top_level_id_is_the_key(members: Map<Seq<char>, Json>, id: Seq<char>)
    requires
        forall|nested: Seq<char>|
            !#[trigger] holds_item_text(Json::Object(members), "id"@, nested),
        members.contains_key("item_id"@),
        members["item_id"@] == Json::Text(id),
    ensures
        event_key(Json::Object(members)) == Some("item:"@ + id),
        item_event(Json::Object(members)).key == Some("item:"@ + id),
{
    let payload = Json::Object(members);
    lemma_no_item_id(payload);
}

/// Where no text stands at `item.id`, none is read.
proof fn lemma_no_item_id(payload: Json)
    requires
        forall|nested: Seq<char>| !#[trigger] holds_item_text(payload, "id"@, nested),
    ensures
        item_event(payload).item_id is None,
{
    if let Some(id) = item_event(payload).item_id {
        assert(holds_item_text(payload, "id"@, id));
    }
}

/// An event without an id is keyed by its output index, written in decimal, and
/// one without either has no key.
pub proof fn law_output_index_is_the_key_without_an_id(payload: Json)
    requires
        forall|id: Seq<char>| !#[trigger] holds_item_text(payload, "id"@, id),
        forall|id: Seq<char>| !#[trigger] holds_text(payload, "item_id"@, id),
    ensures
        event_key(payload) == item_event(payload).key,
        forall|output_index: u64| #[trigger]
            holds_output_index(payload, output_index) ==> {
                &&& event_key(payload) matches Some(key)
                &&& key.len() > 6
                &&& key.take(6) == "index:"@
                &&& numeral_value(key.skip(6)) == output_index
                &&& key[6] == '0' ==> key.len() == 7
                &&& forall|i: int| 6 <= i < key.len() ==> '0' <= #[trigger] key[i] <= '9'
            },
        (forall|output_index: u64| !#[trigger] holds_output_index(payload, output_index))
            ==> event_key(payload) is None,
{
    lemma_no_item_id(payload);
    if let Json::Object(members) = payload {
        if members.contains_key("item_id"@) {
            if let Json::Text(id) = members["item_id"@] {
                assert(holds_text(payload, "item_id"@, id));
            }
        }
    }
    reveal_strlit("index:");
    assert forall|output_index: u64| #[trigger]
        holds_output_index(payload, output_index) implies {
        &&& event_key(payload) matches Some(key)
        &&& key.len() > 6
        &&& key.take(6) == "index:"@
        &&& numeral_value(key.skip(6)) == output_index
        &&& key[6] == '0' ==> key.len() == 7
        &&& forall|i: int| 6 <= i < key.len() ==> '0' <= #[trigger] key[i] <= '9'
    } by {
        let digits = decimal(output_index as nat);
        let key = event_key(payload)->0;
        law_numeral_denotes_its_number(output_index as nat);
        assert(key =~= "index:"@ + digits);
        assert(key.take(6) =~= "index:"@);
        assert(key.skip(6) =~= digits);
        assert(key[6] == digits[0]);
        assert forall|i: int| 6 <= i < key.len() implies '0' <= #[trigger] key[i] <= '9' by {
            assert(key[i] == digits[i - 6]);
        }
    }
    if let Some(key) = event_key(payload) {
        if let Json::Object(members) = payload {
            assert(members.contains_key("output_index"@));
            assert(holds_output_index(payload, item_event(payload).output_index));
        }
    }
}

/// Events whose payloads have different texts at `item.id` have different keys, so
/// parallel calls are kept apart; with the same text they have the same key.
pub proof fn law_ids_tell_calls_apart(a: Json, b: Json, x: Seq<char>, y: Seq<char>)
    requires
        holds_item_text(a, "id"@, x),
        holds_item_text(b, "id"@, y),
    ensures
        event_key(a) is Some,
        event_key(a) == event_key(b) <==> x == y,
{
    reveal_strlit("item:");
    assert(("item:"@ + x).skip(5) =~= x);
    assert(("item:"@ + y).skip(5) =~= y);
}

/// The arguments event of a call has the key of its `added` event: the one carries
/// at `item_id` what the other carries at `item.id`.
pub proof fn law_arguments_have_the_key_of_their_call(added: Json, arguments: Json, id: Seq<char>)
    requires
        holds_item_text(added, "id"@, id),
        holds_text(arguments, "item_id"@, id),
        forall|nested: Seq<char>| !#[trigger] holds_item_text(arguments, "id"@, nested),
    ensures
        event_key(arguments) is Some,
        event_key(arguments) == event_key(added),
{
    lemma_no_item_id(arguments);
}

/// The event adds an item with this name.
pub open spec fn adds_item_named(event: ResponsesEvent, name: Seq<char>) -> bool {
    event matches ResponsesEvent::OutputItemAdded(payload) && holds_item_text(
        json_contents(payload),
        "name"@,
        name,
    )
}

/// The first `added` of a lowered namespace member is retyped to the name and the
/// namespace that the lowering map has for it, and opens one item behind the
/// others, with all that the event says of it.
pub proof fn law_added_member_is_retyped_and_opened(
    reverse: Map<Seq<char>, LoweredClientToolView>,
    items: Seq<StreamItemView>,
    payload: Value,
    name: Seq<char>,
    key: Seq<char>,
)
    requires
        holds_item_text(json_contents(payload), "name"@, name),
        reverse.contains_key(name),
        reverse[name].restore == ClientToolRestore::Namespace,
        event_key(json_contents(payload)) == Some(key),
        forall|i: int| 0 <= i < items.len() ==> (#[trigger] items[i]).key != key,
    ensures
        plan_event(
            reverse,
            items,
            lifecycle_event(ResponsesEvent::OutputItemAdded(payload)),
        ) matches Ok((disposition, next)) && {
            &&& disposition matches DispositionView::RetypeInPlace {
                item_type,
                name: restored,
                namespace,
            }
            &&& item_type == "function_call"@
            &&& restored == reverse[name].original_name
            &&& namespace == reverse[name].namespace
            &&& next.len() == items.len() + 1
            &&& forall|i: int| 0 <= i < items.len() ==> #[trigger] next[i] == items[i]
            &&& next.last().key == key
            &&& next.last().private_name == name
            &&& next.last().restore == ClientToolRestore::Namespace
            &&& next.last().phase == ClientToolPhase::Opened
            &&& next.last().output_index == item_event(json_contents(payload)).output_index
            &&& next.last().item_id == item_event(json_contents(payload)).item_id
        },
{
    let event = item_event(json_contents(payload));
    if let Some(i) = tracked_index(items, event.key) {
        let found = choose|i: int| is_first_with_key(items, key, i);
        assert(is_first_with_key(items, key, found));
    }
}

/// An `added` under the key of a tracked item fails, and so does one that has no
/// key, if it is of a lowered namespace member.
pub proof fn law_added_member_needs_a_new_key(
    reverse: Map<Seq<char>, LoweredClientToolView>,
    items: Seq<StreamItemView>,
    payload: Value,
    name: Seq<char>,
)
    requires
        holds_item_text(json_contents(payload), "name"@, name),
        reverse.contains_key(name),
        reverse[name].restore == ClientToolRestore::Namespace,
        event_key(json_contents(payload)) matches Some(key) ==> exists|i: int|
            0 <= i < items.len() && (#[trigger] items[i]).key == key,
    ensures
        plan_event(
            reverse,
            items,
            lifecycle_event(ResponsesEvent::OutputItemAdded(payload)),
        ) matches Err(failure) && failure.key == event_key(json_contents(payload))
            && failure.fault == if failure.key is Some {
            RestoreFault::AddedTwice
        } else {
            RestoreFault::AddedWithoutKey
        },
{
    if let Some(key) = event_key(json_contents(payload)) {
        let i = choose|i: int| 0 <= i < items.len() && (#[trigger] items[i]).key == key;
        lemma_first_with_key(items, key, i);
    }
}

/// Where an item has a key, one is the first with it.
proof fn lemma_first_with_key(items: Seq<StreamItemView>, key: Seq<char>, i: int) -> (first: int)
    requires
        0 <= i < items.len(),
        items[i].key == key,
    ensures
        first <= i,
        is_first_with_key(items, key, first),
        tracked_index(items, Some(key)) == Some(first),
    decreases i,
{
    if forall|j: int| 0 <= j < i ==> items[j].key != key {
        assert(is_first_with_key(items, key, i));
        lemma_tracked_index(items, key, i);
        i
    } else {
        let j = choose|j: int| 0 <= j < i && items[j].key == key;
        lemma_first_with_key(items, key, j)
    }
}

/// An `added` of any other item passes through and tracks nothing.
pub proof fn law_added_of_other_items_passes(
    reverse: Map<Seq<char>, LoweredClientToolView>,
    items: Seq<StreamItemView>,
    payload: Value,
)
    requires
        forall|name: Seq<char>| #[trigger]
            holds_item_text(json_contents(payload), "name"@, name) && reverse.contains_key(name)
                ==> reverse[name].restore != ClientToolRestore::Namespace,
    ensures
        plan_event(
            reverse,
            items,
            lifecycle_event(ResponsesEvent::OutputItemAdded(payload)),
        ) == Ok::<(DispositionView, Seq<StreamItemView>), RestoreFailure>(
            (DispositionView::Passthrough, items),
        ),
{
    if let Some(name) = item_event(json_contents(payload)).name {
        assert(holds_item_text(json_contents(payload), "name"@, name));
    }
}

/// `after` is `before` but for the lifecycle progress of item `i`.
pub open spec fn only_advances(
    before: Seq<StreamItemView>,
    after: Seq<StreamItemView>,
    i: int,
    phase: ClientToolPhase,
) -> bool {
    &&& after.len() == before.len()
    &&& forall|j: int| 0 <= j < before.len() && j != i ==> #[trigger] after[j] == before[j]
    &&& after[i].key == before[i].key
    &&& after[i].private_name == before[i].private_name
    &&& after[i].restore == before[i].restore
    &&& after[i].output_index == before[i].output_index
    &&& after[i].item_id == before[i].item_id
    &&& after[i].phase == phase
}

/// A `function_call_arguments.done` passes through. Of the first item under its key
/// it completes the arguments, if that is a namespace member, and leaves all else;
/// if that item is finalized, it fails.
pub proof fn law_arguments_complete_their_call(
    reverse: Map<Seq<char>, LoweredClientToolView>,
    items: Seq<StreamItemView>,
    payload: Value,
    i: int,
)
    requires
        0 <= i < items.len(),
        event_key(json_contents(payload)) == Some(items[i].key),
        forall|j: int| 0 <= j < i ==> (#[trigger] items[j]).key != items[i].key,
    ensures
        ({
            let plan = plan_event(
                reverse,
                items,
                lifecycle_event(ResponsesEvent::FunctionCallArgumentsDone(payload)),
            );
            if items[i].restore == ClientToolRestore::Namespace && items[i].phase
                == ClientToolPhase::Done {
                plan matches Err(failure) && failure.key == Some(items[i].key) && failure.fault
                    == RestoreFault::ArgumentsAfterDone
            } else if items[i].restore == ClientToolRestore::Namespace {
                plan matches Ok((disposition, next)) && disposition
                    == DispositionView::Passthrough && only_advances(
                    items,
                    next,
                    i,
                    ClientToolPhase::ArgsComplete,
                )
            } else {
                plan matches Ok((disposition, next)) && disposition
                    == DispositionView::Passthrough && next == items
            }
        }),
{
    assert(is_first_with_key(items, items[i].key, i));
    lemma_tracked_index(items, items[i].key, i);
}

/// An `output_item.done` of the first item under its key, if that is a namespace
/// member whose arguments are complete, is retyped to the name and the namespace
/// that the lowering map has under the item's private name; it finalizes the item
/// and leaves all else. Without that entry, before the arguments and after another
/// finalizer it fails. If the item is no namespace member, it passes through.
pub proof fn law_done_restores_its_call(
    reverse: Map<Seq<char>, LoweredClientToolView>,
    items: Seq<StreamItemView>,
    payload: Value,
    i: int,
)
    requires
        0 <= i < items.len(),
        event_key(json_contents(payload)) == Some(items[i].key),
        forall|j: int| 0 <= j < i ==> (#[trigger] items[j]).key != items[i].key,
    ensures
        ({
            let plan = plan_event(
                reverse,
                items,
                lifecycle_event(ResponsesEvent::OutputItemDone(payload)),
            );
            let name = items[i].private_name;
            if items[i].restore != ClientToolRestore::Namespace {
                plan matches Ok((disposition, next)) && disposition
                    == DispositionView::Passthrough && next == items
            } else if items[i].phase == ClientToolPhase::ArgsComplete && reverse.contains_key(
                name,
            ) {
                &&& plan matches Ok((disposition, next))
                &&& disposition matches DispositionView::RetypeInPlace {
                    item_type,
                    name: restored,
                    namespace,
                }
                &&& item_type == "function_call"@
                &&& restored == reverse[name].original_name
                &&& namespace == reverse[name].namespace
                &&& only_advances(items, next, i, ClientToolPhase::Done)
            } else {
                &&& plan matches Err(failure)
                &&& failure.key == Some(items[i].key)
                &&& items[i].phase == ClientToolPhase::Opened ==> failure.fault
                    == RestoreFault::DoneBeforeArguments
                &&& items[i].phase == ClientToolPhase::Done ==> failure.fault
                    == RestoreFault::DoneTwice
                &&& items[i].phase == ClientToolPhase::ArgsComplete ==> failure.fault
                    == RestoreFault::LoweringEntryMissing
            }
        }),
{
    assert(is_first_with_key(items, items[i].key, i));
    lemma_tracked_index(items, items[i].key, i);
}

/// Events about items that are not tracked change nothing: the arguments pass
/// through, and so does a finalizer, unless it shows a lowered namespace member,
/// which fails.
pub proof fn law_events_of_untracked_items(
    reverse: Map<Seq<char>, LoweredClientToolView>,
    items: Seq<StreamItemView>,
    payload: Value,
)
    requires
        event_key(json_contents(payload)) matches Some(key) ==> forall|i: int|
            0 <= i < items.len() ==> (#[trigger] items[i]).key != key,
    ensures
        plan_event(
            reverse,
            items,
            lifecycle_event(ResponsesEvent::FunctionCallArgumentsDone(payload)),
        ) == Ok::<(DispositionView, Seq<StreamItemView>), RestoreFailure>(
            (DispositionView::Passthrough, items),
        ),
        ({
            let plan = plan_event(
                reverse,
                items,
                lifecycle_event(ResponsesEvent::OutputItemDone(payload)),
            );
            if exists|name: Seq<char>| #[trigger]
                holds_item_text(json_contents(payload), "name"@, name) && reverse.contains_key(
                    name,
                ) && reverse[name].restore == ClientToolRestore::Namespace {
                plan matches Err(failure) && failure.key == event_key(json_contents(payload))
                    && failure.fault == RestoreFault::DoneBeforeAdded
            } else {
                plan == Ok::<(DispositionView, Seq<StreamItemView>), RestoreFailure>(
                    (DispositionView::Passthrough, items),
                )
            }
        }),
{
    let event = item_event(json_contents(payload));
    if let Some(i) = tracked_index(items, event.key) {
        let key = event.key->0;
        let found = choose|i: int| is_first_with_key(items, key, i);
        assert(is_first_with_key(items, key, found));
    }
    if let Some(name) = event.name {
        assert(holds_item_text(json_contents(payload), "name"@, name));
    }
}

/// Events of any other kind pass through and change nothing.
pub proof fn law_other_events_pass(
    reverse: Map<Seq<char>, LoweredClientToolView>,
    items: Seq<StreamItemView>,
    payload: Value,
)
    ensures
        plan_event(reverse, items, lifecycle_event(ResponsesEvent::Other(payload))) == Ok::<
            (DispositionView, Seq<StreamItemView>),
            RestoreFailure,
        >((DispositionView::Passthrough, items)),
{
}

/// A chunk of no events changes nothing, and a chunk of one event is that event's
/// plan, if anything was lowered.
pub proof fn law_smallest_chunks(
    reverse: Map<Seq<char>, LoweredClientToolView>,
    items: Seq<StreamItemView>,
    event: LifecycleEvent,
)
    ensures
        plan_chunk(reverse, items, Seq::empty()) == Ok::<
            (Seq<DispositionView>, Seq<StreamItemView>),
            RestoreFailure,
        >((Seq::empty(), items)),
        lowers_something(reverse) ==> match plan_event(reverse, items, event) {
            Ok((disposition, next)) => {
                &&& plan_chunk(reverse, items, seq![event]) matches Ok((dispositions, after))
                &&& dispositions == seq![disposition]
                &&& after == next
            },
            Err(failure) => plan_chunk(reverse, items, seq![event]) == Err::<
                (Seq<DispositionView>, Seq<StreamItemView>),
                RestoreFailure,
            >(failure),
        },
{
    let run = seq![event];
    assert(run.drop_last() =~= Seq::empty());
    assert(plan_events(reverse, items, run.drop_last()) == Ok::<
        (Seq<DispositionView>, Seq<StreamItemView>),
        RestoreFailure,
    >((Seq::empty(), items)));
    if let Ok((disposition, next)) = plan_event(reverse, items, event) {
        assert(Seq::<DispositionView>::empty().push(disposition) =~= seq![disposition]);
    }
}

/// Two chunks in a row are planned as one: the second goes on from the items that
/// the first leaves, and a failure of either is the failure of the whole.
pub proof fn law_chunks_in_a_row(
    reverse: Map<Seq<char>, LoweredClientToolView>,
    items: Seq<StreamItemView>,
    first: Seq<LifecycleEvent>,
    second: Seq<LifecycleEvent>,
)
    ensures
        match plan_chunk(reverse, items, first) {
            Ok((dispositions, current)) => match plan_chunk(reverse, current, second) {
                Ok((more, next)) => {
                    &&& plan_chunk(reverse, items, first + second) matches Ok((all, after))
                    &&& all == dispositions + more
                    &&& after == next
                },
                Err(failure) => plan_chunk(reverse, items, first + second) == Err::<
                    (Seq<DispositionView>, Seq<StreamItemView>),
                    RestoreFailure,
                >(failure),
            },
            Err(failure) => plan_chunk(reverse, items, first + second) == Err::<
                (Seq<DispositionView>, Seq<StreamItemView>),
                RestoreFailure,
            >(failure),
        },
{
    law_planning_in_parts(reverse, items, first, second);
}

/// The optional text holds these characters, or is none of them.
pub open spec fn says(text: Option<String>, chars: Option<Seq<char>>) -> bool {
    match text {
        Some(inner) => chars == Some(inner@),
        None => chars is None,
    }
}

/// What planning is told, and what it tells, is all there: the views leave nothing
/// out and change nothing.
pub proof fn law_views_are_faithful(
    item: ClientToolStreamItem,
    event: ItemEvent,
    tool: LoweredClientTool,
    text: Option<String>,
)
    ensures
        says(text, optional_text(text)),
        item@.key == item.key@,
        item@.private_name == item.private_name@,
        item@.restore == item.restore,
        item@.phase == item.phase,
        item@.output_index == item.output_index,
        says(item.item_id, item@.item_id),
        says(event.name, event@.name),
        says(event.key, event@.key),
        event@.output_index == event.output_index,
        says(event.item_id, event@.item_id),
        tool@.original_name == tool.original_name@,
        says(tool.namespace, tool@.namespace),
        tool@.restore == tool.restore,
{
}

/// The view of a disposition is of its kind and says all that it says.
pub proof fn law_disposition_views_are_faithful(disposition: ClientToolDisposition)
    ensures
        match disposition {
            ClientToolDisposition::Passthrough => disposition@ is Passthrough,
            ClientToolDisposition::Suppress => disposition@ is Suppress,
            ClientToolDisposition::RetypeInPlace { item_type, name, namespace } => {
                &&& disposition@ matches DispositionView::RetypeInPlace {
                    item_type: shown_type,
                    name: shown_name,
                    namespace: shown_namespace,
                }
                &&& shown_type == item_type@
                &&& shown_name == name@
                &&& says(namespace, shown_namespace)
            },
            ClientToolDisposition::EmitCustomShell { item } => {
                &&& disposition@ matches DispositionView::EmitCustomShell { item: shown }
                &&& shown == json_contents(item)
            },
            ClientToolDisposition::EmitCustomInput { key, item_id, output_index, input } => {
                &&& disposition@ matches DispositionView::EmitCustomInput {
                    key: shown_key,
                    item_id: shown_id,
                    output_index: shown_index,
                    input: shown_input,
                }
                &&& shown_key == key@
                &&& shown_id == item_id@
                &&& shown_index == output_index
                &&& shown_input == input@
            },
            ClientToolDisposition::EmitCustomItemDone { item } => {
                &&& disposition@ matches DispositionView::EmitCustomItemDone { item: shown }
                &&& shown == json_contents(item)
            },
            ClientToolDisposition::EmitTypedAdded { item } => {
                &&& disposition@ matches DispositionView::EmitTypedAdded { item: shown }
                &&& shown == json_contents(item)
            },
            ClientToolDisposition::EmitTypedDone { item } => {
                &&& disposition@ matches DispositionView::EmitTypedDone { item: shown }
                &&& shown == json_contents(item)
            },
            ClientToolDisposition::RestoreSnapshot { response } => {
                &&& disposition@ matches DispositionView::RestoreSnapshot { response: shown }
                &&& shown == json_contents(response)
            },
        },
{
}

/// Sequences and the lowering map are seen entry by entry, in order and in full.
pub proof fn law_views_are_taken_one_by_one(
    items: Seq<ClientToolStreamItem>,
    dispositions: Seq<ClientToolDisposition>,
    events: Seq<ResponsesEvent>,
    reverse: Map<Seq<char>, LoweredClientTool>,
)
    ensures
        item_views(items).len() == items.len(),
        forall|i: int| 0 <= i < items.len() ==> #[trigger] item_views(items)[i] == items[i]@,
        disposition_views(dispositions).len() == dispositions.len(),
        forall|i: int|
            0 <= i < dispositions.len() ==> #[trigger] disposition_views(dispositions)[i]
                == dispositions[i]@,
        lifecycle_events(events).len() == events.len(),
        forall|i: int|
            0 <= i < events.len() ==> #[trigger] lifecycle_events(events)[i] == lifecycle_event(
                events[i],
            ),
        forall|name: Seq<char>| #[trigger]
            lowering(reverse).contains_key(name) <==> reverse.contains_key(name),
        forall|name: Seq<char>| #[trigger]
            lowering(reverse).contains_key(name) ==> lowering(reverse)[name] == reverse[name]@,
{
}

/// The plan is what planning this chunk gives.
pub open spec fn plans(
    reverse: Map<Seq<char>, LoweredClientTool>,
    committed: Seq<ClientToolStreamItem>,
    events: Seq<ResponsesEvent>,
    plan: PlannedRestore,
) -> bool {
    plan_chunk(lowering(reverse), item_views(committed), lifecycle_events(events)) == Ok::<
        (Seq<DispositionView>, Seq<StreamItemView>),
        RestoreFailure,
    >((disposition_views(plan.dispositions@), item_views(plan.next_items@)))
}

/// The disposition retypes to the original of this tool.
pub open spec fn restores(disposition: ClientToolDisposition, tool: LoweredClientTool) -> bool {
    &&& disposition matches ClientToolDisposition::RetypeInPlace { item_type, name, namespace }
    &&& item_type@ == "function_call"@
    &&& name@ == tool.original_name@
    &&& match (namespace, tool.namespace) {
        (Some(shown), Some(original)) => shown@ == original@,
        (None, None) => true,
        _ => false,
    }
}

/// In every plan, the `added` of each lowered namespace member is retyped to the
/// name and the namespace that the client gave it, whatever else its payload holds.
pub proof fn law_plans_restore_added_members(
    reverse: Map<Seq<char>, LoweredClientTool>,
    committed: Seq<ClientToolStreamItem>,
    events: Seq<ResponsesEvent>,
    plan: PlannedRestore,
    i: int,
    name: Seq<char>,
)
    requires
        plans(reverse, committed, events, plan),
        0 <= i < events.len(),
        adds_item_named(events[i], name),
        reverse.contains_key(name),
        reverse[name].restore == ClientToolRestore::Namespace,
    ensures
        plan.dispositions@.len() == events.len(),
        restores(plan.dispositions@[i], reverse[name]),
{
    let map = lowering(reverse);
    let items = item_views(committed);
    let run = lifecycle_events(events);
    assert(map.contains_key(name));
    assert(map.dom().contains(name));
    law_private_names_do_not_leak(map, items, run);
    let shown = disposition_views(plan.dispositions@);
    assert(shown.len() == run.len());
    assert(run[i] == lifecycle_event(events[i]));
    assert(shown[i] == plan.dispositions@[i]@);
    assert(shown[i] == retyped(map[name]));
}

/// A call that is announced under a fresh key is never refused: alone in a chunk,
/// its `added` is retyped and its item tracked behind the committed ones.
pub proof fn law_fresh_calls_are_restored(
    reverse: Map<Seq<char>, LoweredClientTool>,
    committed: Seq<ClientToolStreamItem>,
    payload: Value,
    name: Seq<char>,
    id: Seq<char>,
)
    requires
        holds_item_text(json_contents(payload), "name"@, name),
        holds_item_text(json_contents(payload), "id"@, id),
        reverse.contains_key(name),
        reverse[name].restore == ClientToolRestore::Namespace,
        forall|i: int|
            0 <= i < committed.len() ==> (#[trigger] committed[i]).key@ != "item:"@ + id,
    ensures
        plan_chunk(
            lowering(reverse),
            item_views(committed),
            lifecycle_events(seq![ResponsesEvent::OutputItemAdded(payload)]),
        ) matches Ok((dispositions, next)) && {
            &&& dispositions.len() == 1
            &&& dispositions[0] matches DispositionView::RetypeInPlace {
                item_type,
                name: restored,
                namespace,
            }
            &&& item_type == "function_call"@
            &&& restored == reverse[name].original_name@
            &&& says(reverse[name].namespace, namespace)
            &&& next.len() == committed.len() + 1
            &&& next.last().key == "item:"@ + id
            &&& next.last().private_name == name
            &&& next.last().phase == ClientToolPhase::Opened
            &&& next.last().item_id == Some(id)
        },
{
    let map = lowering(reverse);
    let items = item_views(committed);
    let event = ResponsesEvent::OutputItemAdded(payload);
    assert(map.contains_key(name));
    assert(map.dom().contains(name));
    assert(lifecycle_events(seq![event]) =~= seq![lifecycle_event(event)]);
    assert forall|i: int| 0 <= i < items.len() implies (#[trigger] items[i]).key != "item:"@
        + id by {
        assert(items[i] == committed[i]@);
    }
    law_added_member_is_retyped_and_opened(map, items, payload, name, "item:"@ + id);
    law_smallest_chunks(map, items, lifecycle_event(event));
}

/// Parallel calls of lowered namespace members, announced under different fresh
/// ids, are both restored and tracked under keys of their own.
pub proof fn law_parallel_calls_are_kept_apart(
    reverse: Map<Seq<char>, LoweredClientToolView>,
    items: Seq<StreamItemView>,
    first: Value,
    second: Value,
    names: (Seq<char>, Seq<char>),
    ids: (Seq<char>, Seq<char>),
)
    requires
        holds_item_text(json_contents(first), "name"@, names.0),
        holds_item_text(json_contents(second), "name"@, names.1),
        holds_item_text(json_contents(first), "id"@, ids.0),
        holds_item_text(json_contents(second), "id"@, ids.1),
        ids.0 != ids.1,
        reverse.contains_key(names.0),
        reverse[names.0].restore == ClientToolRestore::Namespace,
        reverse.contains_key(names.1),
        reverse[names.1].restore == ClientToolRestore::Namespace,
        forall|i: int|
            0 <= i < items.len() ==> (#[trigger] items[i]).key != "item:"@ + ids.0 && items[i].key
                != "item:"@ + ids.1,
    ensures
        plan_chunk(
            reverse,
            items,
            lifecycle_events(
                seq![
                    ResponsesEvent::OutputItemAdded(first),
                    ResponsesEvent::OutputItemAdded(second),
                ],
            ),
        ) matches Ok((dispositions, next)) && {
            &&& dispositions.len() == 2
            &&& dispositions[0] matches DispositionView::RetypeInPlace { name: a, .. }
            &&& a == reverse[names.0].original_name
            &&& dispositions[1] matches DispositionView::RetypeInPlace { name: b, .. }
            &&& b == reverse[names.1].original_name
            &&& next.len() == items.len() + 2
            &&& next[items.len() as int].key == "item:"@ + ids.0
            &&& next.last().key == "item:"@ + ids.1
        },
{
    let a = ResponsesEvent::OutputItemAdded(first);
    let b = ResponsesEvent::OutputItemAdded(second);
    assert(reverse.dom().contains(names.0));
    law_added_member_is_retyped_and_opened(reverse, items, first, names.0, "item:"@ + ids.0);
    let next = plan_event(reverse, items, lifecycle_event(a))->Ok_0.1;
    law_ids_tell_calls_apart(json_contents(first), json_contents(second), ids.0, ids.1);
    assert forall|i: int| 0 <= i < next.len() implies (#[trigger] next[i]).key != "item:"@
        + ids.1 by {
        if i < items.len() {
            assert(next[i] == items[i]);
        }
    }
    law_added_member_is_retyped_and_opened(reverse, next, second, names.1, "item:"@ + ids.1);
    law_smallest_chunks(reverse, items, lifecycle_event(a));
    law_smallest_chunks(reverse, next, lifecycle_event(b));
    law_chunks_in_a_row(reverse, items, seq![lifecycle_event(a)], seq![lifecycle_event(b)]);
    assert(lifecycle_events(seq![a, b]) =~= seq![lifecycle_event(a)] + seq![lifecycle_event(b)]);
}

/// The report of a failure names the event that failed and, by its whole key, the
/// item that it is about, and then says what went wrong.
pub proof fn law_failures_name_event_and_item(error: SseParseError, failure: RestoreFailure)
    requires
        reports_failure(error, failure),
    ensures
        error matches SseParseError::MalformedJson { event_type, err } && {
            let item = match failure.key {
                Some(key) => key,
                None => "unidentified item"@,
            };
            let head = "client-tool restore for '"@ + item + "': "@;
            match failure.fault {
                RestoreFault::AddedTwice => {
                    &&& event_type@ == "response.output_item.added"@
                    &&& err@ == head + "output_item.added after output_item.added"@
                },
                RestoreFault::AddedWithoutKey => {
                    &&& event_type@ == "response.output_item.added"@
                    &&& err@ == head + "output_item.added without id or output_index"@
                },
                RestoreFault::ArgumentsAfterDone => {
                    &&& event_type@ == "response.function_call_arguments.done"@
                    &&& err@ == head + "arguments.done after output_item.done"@
                },
                RestoreFault::DoneBeforeAdded => {
                    &&& event_type@ == "response.output_item.done"@
                    &&& err@ == head + "output_item.done before output_item.added"@
                },
                RestoreFault::DoneBeforeArguments => {
                    &&& event_type@ == "response.output_item.done"@
                    &&& err@ == head + "output_item.done before arguments.done"@
                },
                RestoreFault::DoneTwice => {
                    &&& event_type@ == "response.output_item.done"@
                    &&& err@ == head + "output_item.done after output_item.done"@
                },
                RestoreFault::LoweringEntryMissing => {
                    &&& event_type@ == "response.output_item.done"@
                    &&& err@ == head + "lowering entry missing"@
                },
            }
        },
{
}

/// A planned event returns its disposition and leaves the items of the plan; a
/// failed one returns a report of the failure and leaves the items as they were.
pub proof fn law_planned_events_return_their_plan(
    plan: Result<(DispositionView, Seq<StreamItemView>), RestoreFailure>,
    before: Seq<StreamItemView>,
    after: Seq<StreamItemView>,
    result: Result<ClientToolDisposition, SseParseError>,
)
    requires
        event_planned(plan, before, after, result),
    ensures
        result is Ok <==> plan is Ok,
        result matches Ok(disposition) ==> disposition@ == plan->Ok_0.0 && after
            == plan->Ok_0.1,
        result matches Err(error) ==> reports_failure(error, plan->Err_0) && after == before,
{
}

/// The tracked item that an event is about is the first one under the event's key,
/// and there is one wherever some item has that key.
pub proof fn law_events_are_about_the_first_item_under_their_key(
    items: Seq<StreamItemView>,
    key: Seq<char>,
)
    ensures
        tracked_index(items, None) is None,
        match tracked_index(items, Some(key)) {
            Some(i) => {
                &&& 0 <= i < items.len()
                &&& items[i].key == key
                &&& forall|j: int| 0 <= j < i ==> (#[trigger] items[j]).key != key
            },
            None => forall|j: int| 0 <= j < items.len() ==> (#[trigger] items[j]).key != key,
        },
{
    match tracked_index(items, Some(key)) {
        Some(i) => {
            assert(is_first_with_key(items, key, i));
        },
        None => {
            if exists|j: int| 0 <= j < items.len() && (#[trigger] items[j]).key == key {
                let j = choose|j: int| 0 <= j < items.len() && (#[trigger] items[j]).key == key;
                let first = lemma_first_with_key(items, key, j);
            }
        },
    }
}

/// Reports of one fault differ in the key alone, and reports of one key in the
/// fault: what is said of the fault does not depend on the item.
pub proof fn law_failure_texts_do_not_depend_on_the_item(
    a: SseParseError,
    b: SseParseError,
    fault: RestoreFault,
    x: Seq<char>,
    y: Seq<char>,
)
    requires
        reports_failure(a, (RestoreFailure { key: Some(x), fault })),
        reports_failure(b, (RestoreFailure { key: Some(y), fault })),
    ensures
        ({
            let head = ("client-tool restore for '"@).len();
            let one = a->MalformedJson_err@;
            let other = b->MalformedJson_err@;
            &&& one.len() >= head + x.len()
            &&& one.skip((head + x.len()) as int) == other.skip((head + y.len()) as int)
        }),
{
    let head = "client-tool restore for '"@;
    let one = a->MalformedJson_err@;
    let other = b->MalformedJson_err@;
    let rest = "': "@ + fault.description();
    assert(one =~= head + x + rest);
    assert(other =~= head + y + rest);
    assert((head + x + rest).skip((head.len() + x.len()) as int) =~= rest);
    assert((head + y + rest).skip((head.len() + y.len()) as int) =~= rest);
}

/// The event finalizes an item that it shows under this name.
pub open spec fn finalizes_item_named(event: ResponsesEvent, name: Seq<char>) -> bool {
    event matches ResponsesEvent::OutputItemDone(payload) && holds_item_text(
        json_contents(payload),
        "name"@,
        name,
    )
}

/// In every plan over namespace members, no event that adds or finalizes an item
/// under the private name of a lowered namespace member is passed through: each is
/// retyped.
pub proof fn law_plans_pass_no_private_name_through(
    reverse: Map<Seq<char>, LoweredClientTool>,
    committed: Seq<ClientToolStreamItem>,
    events: Seq<ResponsesEvent>,
    plan: PlannedRestore,
    i: int,
    name: Seq<char>,
)
    requires
        plans(reverse, committed, events, plan),
        forall|k: int|
            0 <= k < committed.len() ==> (#[trigger] committed[k]).restore
                == ClientToolRestore::Namespace,
        0 <= i < events.len(),
        adds_item_named(events[i], name) || finalizes_item_named(events[i], name),
        reverse.contains_key(name),
        reverse[name].restore == ClientToolRestore::Namespace,
    ensures
        plan.dispositions@.len() == events.len(),
        plan.dispositions@[i] is RetypeInPlace,
{
    let map = lowering(reverse);
    let items = item_views(committed);
    let run = lifecycle_events(events);
    assert(map.contains_key(name));
    assert(map.dom().contains(name));
    assert forall|k: int| 0 <= k < items.len() implies (#[trigger] items[k]).restore
        == ClientToolRestore::Namespace by {
        assert(items[k] == committed[k]@);
    }
    assert(only_members(items));
    law_private_names_do_not_leak(map, items, run);
    let shown = disposition_views(plan.dispositions@);
    assert(shown.len() == run.len());
    assert(run[i] == lifecycle_event(events[i]));
    assert(shows_member(map, run[i]));
    assert(shown[i] == plan.dispositions@[i]@);
}

} // verus!
