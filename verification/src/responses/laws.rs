//! What holds of client-tool planning over whole runs of events.

use crate::json::Json;
use crate::responses::client_tools::{
    event_key, id_key, index_key, is_first_with_key, lemma_tracked_index, names_member,
    opened_item, payload_item_id, payload_output_index, plan_chunk, plan_event, plan_events,
    retyped, tracked_index, with_phase, ClientToolPhase, DispositionView, ItemEventView,
    LifecycleEvent, RestoreFailure, RestoreFault, StreamItemView,
};
use crate::responses::state::{ClientToolRestore, LoweredClientToolView};
use crate::text::{decimal, lemma_decimal_injective};
use vstd::prelude::*;

verus! {

/// With nothing lowered, nothing is planned and the tracked items stay as they are.
pub proof fn law_nothing_lowered_plans_nothing(
    items: Seq<StreamItemView>,
    events: Seq<LifecycleEvent>,
)
    ensures
        plan_chunk(Map::empty(), items, events) == Ok::<
            (Seq<DispositionView>, Seq<StreamItemView>),
            RestoreFailure,
        >((Seq::empty(), items)),
{
}

/// How far an item is in its lifecycle.
pub open spec fn progress(phase: ClientToolPhase) -> int {
    match phase {
        ClientToolPhase::Opened => 0,
        ClientToolPhase::ArgsComplete => 1,
        ClientToolPhase::Done => 2,
    }
}

/// `after` is the item `before`, perhaps further in its lifecycle; only a
/// namespace member gets further.
pub open spec fn advanced(before: StreamItemView, after: StreamItemView) -> bool {
    &&& with_phase(before, after.phase) == after
    &&& progress(before.phase) <= progress(after.phase)
    &&& before.restore != ClientToolRestore::Namespace ==> after == before
}

/// The item is a namespace member of the lowering map.
pub open spec fn is_member(
    reverse: Map<Seq<char>, LoweredClientToolView>,
    item: StreamItemView,
) -> bool {
    &&& item.restore == ClientToolRestore::Namespace
    &&& reverse.contains_key(item.private_name)
    &&& reverse[item.private_name].restore == ClientToolRestore::Namespace
}

/// No two tracked items share a key.
pub open spec fn distinct_keys(items: Seq<StreamItemView>) -> bool {
    forall|i: int, j: int|
        0 <= i < j < items.len() ==> (#[trigger] items[i]).key != (#[trigger] items[j]).key
}

/// What a plan makes of the tracked items: none is dropped, each is at most
/// advanced, new ones come last and are namespace members of the map, and keys
/// stay distinct.
pub open spec fn items_kept(
    reverse: Map<Seq<char>, LoweredClientToolView>,
    before: Seq<StreamItemView>,
    after: Seq<StreamItemView>,
) -> bool {
    &&& before.len() <= after.len()
    &&& forall|i: int| 0 <= i < before.len() ==> #[trigger] advanced(before[i], after[i])
    &&& forall|i: int|
        before.len() <= i < after.len() ==> #[trigger] is_member(reverse, after[i])
    &&& distinct_keys(before) ==> distinct_keys(after)
}

/// A plan has one disposition per event, in order. It drops no tracked item and
/// changes nothing of one but its lifecycle progress, which never goes back; only
/// namespace members progress. New items come last, each a namespace member of the
/// lowering map. Tracked keys stay distinct.
pub proof fn law_plan_keeps_events_and_items(
    reverse: Map<Seq<char>, LoweredClientToolView>,
    items: Seq<StreamItemView>,
    events: Seq<LifecycleEvent>,
)
    ensures
        plan_events(reverse, items, events) matches Ok((dispositions, next)) ==> {
            &&& dispositions.len() == events.len()
            &&& next.len() <= items.len() + events.len()
            &&& items_kept(reverse, items, next)
        },
    decreases events.len(),
{
    if events.len() > 0 {
        law_plan_keeps_events_and_items(reverse, items, events.drop_last());
        if let Ok((dispositions, current)) = plan_events(reverse, items, events.drop_last()) {
            if let Ok((disposition, next)) = plan_event(reverse, current, events.last()) {
                lemma_event_keeps_items(reverse, current, events.last());
                assert forall|i: int| 0 <= i < items.len() implies #[trigger] advanced(
                    items[i],
                    next[i],
                ) by {
                    assert(advanced(items[i], current[i]));
                    assert(advanced(current[i], next[i]));
                }
                assert forall|i: int| items.len() <= i < next.len() implies #[trigger] is_member(
                    reverse,
                    next[i],
                ) by {
                    if i < current.len() {
                        assert(is_member(reverse, current[i]));
                        assert(advanced(current[i], next[i]));
                    }
                }
            }
        }
    }
}

/// What one event makes of the tracked items.
proof fn lemma_event_keeps_items(
    reverse: Map<Seq<char>, LoweredClientToolView>,
    items: Seq<StreamItemView>,
    event: LifecycleEvent,
)
    ensures
        plan_event(reverse, items, event) matches Ok((_, next)) ==> {
            &&& next.len() <= items.len() + 1
            &&& items_kept(reverse, items, next)
        },
{
    if let Ok((_, next)) = plan_event(reverse, items, event) {
        lemma_tracked(items, event_item_key(event));
        if distinct_keys(items) {
            assert forall|i: int, j: int| 0 <= i < j < next.len() implies (
            #[trigger] next[i]).key != (#[trigger] next[j]).key by {
                if j < items.len() {
                    assert(items[i].key != items[j].key);
                }
            }
        }
    }
}

/// The key of the item that an event is about.
pub open spec fn event_item_key(event: LifecycleEvent) -> Option<Seq<char>> {
    match event {
        LifecycleEvent::Added(event) => event.key,
        LifecycleEvent::ArgumentsDone(event) => event.key,
        LifecycleEvent::ItemDone(event) => event.key,
        LifecycleEvent::Other => None,
    }
}

/// A tracked index is that of the first item with the key; without one, no item
/// has the key.
proof fn lemma_tracked(items: Seq<StreamItemView>, key: Option<Seq<char>>)
    ensures
        match (key, tracked_index(items, key)) {
            (Some(key), Some(i)) => is_first_with_key(items, key, i),
            (Some(key), None) => is_new_key(items, key),
            (None, found) => found is None,
        },
{
    if let Some(key) = key {
        if tracked_index(items, Some(key)) is None && !is_new_key(items, key) {
            let i = choose|i: int| 0 <= i < items.len() && (#[trigger] items[i]).key == key;
            lemma_first_exists(items, key, i);
        }
    }
}

/// Where some item has a key, some item is the first with it.
proof fn lemma_first_exists(items: Seq<StreamItemView>, key: Seq<char>, i: int)
    requires
        0 <= i < items.len(),
        items[i].key == key,
    ensures
        exists|j: int| is_first_with_key(items, key, j),
    decreases i,
{
    if is_first_with_key(items, key, i) {
    } else {
        let j = choose|j: int| 0 <= j < i && items[j].key == key;
        lemma_first_exists(items, key, j);
    }
}

/// No tracked item has this key.
pub open spec fn is_new_key(items: Seq<StreamItemView>, key: Seq<char>) -> bool {
    forall|i: int| 0 <= i < items.len() ==> (#[trigger] items[i]).key != key
}

/// The items that the first `i` events of a run leave.
pub open spec fn items_after(
    reverse: Map<Seq<char>, LoweredClientToolView>,
    items: Seq<StreamItemView>,
    events: Seq<LifecycleEvent>,
    i: int,
) -> Seq<StreamItemView> {
    match plan_events(reverse, items, events.take(i)) {
        Ok((_, next)) => next,
        Err(_) => items,
    }
}

/// The tracked namespace member that an event is about, if any.
pub open spec fn tracked_member(
    items: Seq<StreamItemView>,
    key: Option<Seq<char>>,
) -> Option<StreamItemView> {
    match tracked_index(items, key) {
        Some(i) => if items[i].restore == ClientToolRestore::Namespace {
            Some(items[i])
        } else {
            None
        },
        None => None,
    }
}

/// What a client sees of an event, given the items tracked when it comes: the
/// `added` of a lowered namespace member and the `done` of a tracked one are
/// retyped to their originals; everything else passes.
pub open spec fn restored(
    reverse: Map<Seq<char>, LoweredClientToolView>,
    items: Seq<StreamItemView>,
    event: LifecycleEvent,
    disposition: DispositionView,
) -> bool {
    match event {
        LifecycleEvent::Added(event) => if names_member(reverse, event) {
            disposition == retyped(reverse[event.name->0])
        } else {
            disposition == DispositionView::Passthrough
        },
        LifecycleEvent::ItemDone(event) => match tracked_member(items, event.key) {
            Some(item) => reverse.contains_key(item.private_name) && disposition == retyped(
                reverse[item.private_name],
            ),
            None => disposition == DispositionView::Passthrough,
        },
        _ => disposition == DispositionView::Passthrough,
    }
}

/// The event shows an item under the name of a lowered namespace member.
pub open spec fn shows_member(
    reverse: Map<Seq<char>, LoweredClientToolView>,
    event: LifecycleEvent,
) -> bool {
    match event {
        LifecycleEvent::Added(event) => names_member(reverse, event),
        LifecycleEvent::ItemDone(event) => names_member(reverse, event),
        _ => false,
    }
}

/// All tracked items are namespace members, as all those that planning opens are.
pub open spec fn only_members(items: Seq<StreamItemView>) -> bool {
    forall|i: int|
        0 <= i < items.len() ==> (#[trigger] items[i]).restore == ClientToolRestore::Namespace
}

/// The private lowered name never reaches the client. In a plan, the `added` of
/// every lowered namespace member and the `done` of every tracked one are retyped
/// to the original name and namespace in the lowering map. So no `added` or `done`
/// that shows an item under such a private name is passed through: it is retyped,
/// or the plan fails.
pub proof fn law_private_names_do_not_leak(
    reverse: Map<Seq<char>, LoweredClientToolView>,
    items: Seq<StreamItemView>,
    events: Seq<LifecycleEvent>,
)
    ensures
        plan_events(reverse, items, events) matches Ok((dispositions, _)) ==> {
            &&& dispositions.len() == events.len()
            &&& forall|i: int|
                0 <= i < events.len() ==> restored(
                    reverse,
                    items_after(reverse, items, events, i),
                    #[trigger] events[i],
                    dispositions[i],
                )
            &&& only_members(items) ==> forall|i: int|
                0 <= i < events.len() && shows_member(reverse, #[trigger] events[i])
                    ==> dispositions[i] is RetypeInPlace
        },
    decreases events.len(),
{
    if events.len() > 0 {
        let before = events.drop_last();
        let last = events.len() - 1;
        law_private_names_do_not_leak(reverse, items, before);
        law_plan_keeps_events_and_items(reverse, items, before);
        if let Ok((dispositions, current)) = plan_events(reverse, items, before) {
            if let Ok((disposition, next)) = plan_event(reverse, current, events.last()) {
                let all = dispositions.push(disposition);
                lemma_tracked(current, event_item_key(events.last()));
                assert(events.take(last) =~= before);
                assert forall|i: int| 0 <= i < events.len() implies restored(
                    reverse,
                    items_after(reverse, items, events, i),
                    #[trigger] events[i],
                    all[i],
                ) by {
                    if i < last {
                        assert(before.take(i) =~= events.take(i));
                        assert(before[i] == events[i]);
                    }
                }
                if only_members(items) {
                    lemma_members_stay(reverse, items, current);
                    assert forall|i: int|
                        0 <= i < events.len() && shows_member(
                            reverse,
                            #[trigger] events[i],
                        ) implies all[i] is RetypeInPlace by {
                        if i < last {
                            assert(before[i] == events[i]);
                        }
                    }
                }
            }
        }
    }
}

/// Where only namespace members were tracked, only such are tracked after a plan.
proof fn lemma_members_stay(
    reverse: Map<Seq<char>, LoweredClientToolView>,
    before: Seq<StreamItemView>,
    after: Seq<StreamItemView>,
)
    requires
        only_members(before),
        items_kept(reverse, before, after),
    ensures
        only_members(after),
{
    assert forall|i: int| 0 <= i < after.len() implies (#[trigger] after[i]).restore
        == ClientToolRestore::Namespace by {
        if i < before.len() {
            assert(advanced(before[i], after[i]));
        } else {
            assert(is_member(reverse, after[i]));
        }
    }
}

/// Planning a run of events in two parts, the second from the items that the first
/// left, is planning it in one.
pub proof fn law_planning_in_parts(
    reverse: Map<Seq<char>, LoweredClientToolView>,
    items: Seq<StreamItemView>,
    first: Seq<LifecycleEvent>,
    second: Seq<LifecycleEvent>,
)
    ensures
        plan_events(reverse, items, first + second) == match plan_events(reverse, items, first) {
            Ok((dispositions, current)) => match plan_events(reverse, current, second) {
                Ok((more, next)) => Ok::<
                    (Seq<DispositionView>, Seq<StreamItemView>),
                    RestoreFailure,
                >((dispositions + more, next)),
                Err(failure) => Err::<
                    (Seq<DispositionView>, Seq<StreamItemView>),
                    RestoreFailure,
                >(failure),
            },
            Err(failure) => Err::<
                (Seq<DispositionView>, Seq<StreamItemView>),
                RestoreFailure,
            >(failure),
        },
    decreases second.len(),
{
    if second.len() == 0 {
        assert(first + second =~= first);
        if let Ok((dispositions, _)) = plan_events(reverse, items, first) {
            assert(dispositions + Seq::<DispositionView>::empty() =~= dispositions);
        }
    } else {
        law_planning_in_parts(reverse, items, first, second.drop_last());
        assert((first + second).drop_last() =~= first + second.drop_last());
        assert((first + second).last() == second.last());
        if let Ok((dispositions, current)) = plan_events(reverse, items, first) {
            if let Ok((more, between)) = plan_events(reverse, current, second.drop_last()) {
                if let Ok((disposition, _)) = plan_event(reverse, between, second.last()) {
                    assert((dispositions + more).push(disposition) =~= dispositions + more.push(
                        disposition,
                    ));
                }
            }
        }
    }
}

/// The plan of a one-event run.
proof fn lemma_single_event(
    reverse: Map<Seq<char>, LoweredClientToolView>,
    items: Seq<StreamItemView>,
    event: LifecycleEvent,
)
    ensures
        plan_events(reverse, items, seq![event]) == match plan_event(reverse, items, event) {
            Ok((disposition, next)) => Ok::<
                (Seq<DispositionView>, Seq<StreamItemView>),
                RestoreFailure,
            >((seq![disposition], next)),
            Err(failure) => Err::<
                (Seq<DispositionView>, Seq<StreamItemView>),
                RestoreFailure,
            >(failure),
        },
{
    let run = seq![event];
    assert(run.drop_last() =~= Seq::empty());
    assert(plan_events(reverse, items, run.drop_last()) == Ok::<
        (Seq<DispositionView>, Seq<StreamItemView>),
        RestoreFailure,
    >((Seq::empty(), items)));
    if let Ok((disposition, next)) = plan_event(reverse, items, event) {
        assert(Seq::<DispositionView>::empty().push(disposition) =~= seq![disposition]);
    }
}

/// The run `before` is planned and leaves these items.
pub open spec fn leaves(
    reverse: Map<Seq<char>, LoweredClientToolView>,
    items: Seq<StreamItemView>,
    before: Seq<LifecycleEvent>,
    current: Seq<StreamItemView>,
) -> bool {
    plan_events(reverse, items, before) matches Ok((_, next)) && next == current
}

/// Something was lowered.
pub open spec fn lowers_something(reverse: Map<Seq<char>, LoweredClientToolView>) -> bool {
    !(reverse.dom() =~= Set::<Seq<char>>::empty())
}

/// Planning the chunk fails with this fault of the item with this key.
pub open spec fn fails(
    reverse: Map<Seq<char>, LoweredClientToolView>,
    items: Seq<StreamItemView>,
    events: Seq<LifecycleEvent>,
    key: Option<Seq<char>>,
    fault: RestoreFault,
) -> bool {
    plan_chunk(reverse, items, events) == Err::<
        (Seq<DispositionView>, Seq<StreamItemView>),
        RestoreFailure,
    >(RestoreFailure { key, fault })
}

/// An event that fails after the events before it fails the whole plan, whatever
/// follows: nothing of the run is planned.
pub proof fn law_failure_ends_the_plan(
    reverse: Map<Seq<char>, LoweredClientToolView>,
    items: Seq<StreamItemView>,
    before: Seq<LifecycleEvent>,
    current: Seq<StreamItemView>,
    event: LifecycleEvent,
    rest: Seq<LifecycleEvent>,
)
    requires
        leaves(reverse, items, before, current),
        plan_event(reverse, current, event) is Err,
    ensures
        plan_events(reverse, items, before.push(event) + rest) == Err::<
            (Seq<DispositionView>, Seq<StreamItemView>),
            RestoreFailure,
        >(plan_event(reverse, current, event)->Err_0),
{
    let run = before.push(event);
    assert(run.drop_last() =~= before);
    law_planning_in_parts(reverse, items, run, rest);
}

/// A finalizer that comes while the arguments of a tracked namespace member are
/// not complete fails the plan, whatever came before and whatever follows.
pub proof fn law_premature_done_fails_closed(
    reverse: Map<Seq<char>, LoweredClientToolView>,
    items: Seq<StreamItemView>,
    before: Seq<LifecycleEvent>,
    current: Seq<StreamItemView>,
    done: ItemEventView,
    rest: Seq<LifecycleEvent>,
)
    requires
        lowers_something(reverse),
        leaves(reverse, items, before, current),
        tracked_member(current, done.key) matches Some(item) && item.phase
            == ClientToolPhase::Opened,
    ensures
        fails(
            reverse,
            items,
            before.push(LifecycleEvent::ItemDone(done)) + rest,
            done.key,
            RestoreFault::DoneBeforeArguments,
        ),
{
    let event = LifecycleEvent::ItemDone(done);
    lemma_tracked(current, done.key);
    law_failure_ends_the_plan(reverse, items, before, current, event, rest);
}

/// A finalized namespace member takes no further event: its arguments and a second
/// finalizer fail the plan, whatever came before and whatever follows.
pub proof fn law_events_after_done_fail_closed(
    reverse: Map<Seq<char>, LoweredClientToolView>,
    items: Seq<StreamItemView>,
    before: Seq<LifecycleEvent>,
    current: Seq<StreamItemView>,
    late: ItemEventView,
    rest: Seq<LifecycleEvent>,
)
    requires
        lowers_something(reverse),
        leaves(reverse, items, before, current),
        tracked_member(current, late.key) matches Some(item) && item.phase
            == ClientToolPhase::Done,
    ensures
        fails(
            reverse,
            items,
            before.push(LifecycleEvent::ArgumentsDone(late)) + rest,
            late.key,
            RestoreFault::ArgumentsAfterDone,
        ),
        fails(
            reverse,
            items,
            before.push(LifecycleEvent::ItemDone(late)) + rest,
            late.key,
            RestoreFault::DoneTwice,
        ),
{
    lemma_tracked(current, late.key);
    law_failure_ends_the_plan(
        reverse,
        items,
        before,
        current,
        LifecycleEvent::ArgumentsDone(late),
        rest,
    );
    law_failure_ends_the_plan(
        reverse,
        items,
        before,
        current,
        LifecycleEvent::ItemDone(late),
        rest,
    );
}

/// A lowered namespace member is added once: a second `added` under a tracked key
/// fails the plan, and so does one without a key.
pub proof fn law_repeated_added_fails_closed(
    reverse: Map<Seq<char>, LoweredClientToolView>,
    items: Seq<StreamItemView>,
    before: Seq<LifecycleEvent>,
    current: Seq<StreamItemView>,
    added: ItemEventView,
    rest: Seq<LifecycleEvent>,
)
    requires
        leaves(reverse, items, before, current),
        names_member(reverse, added),
        tracked_index(current, added.key) is Some || added.key is None,
    ensures
        fails(
            reverse,
            items,
            before.push(LifecycleEvent::Added(added)) + rest,
            added.key,
            if added.key is None {
                RestoreFault::AddedWithoutKey
            } else {
                RestoreFault::AddedTwice
            },
        ),
{
    assert(reverse.dom().contains(added.name->0));
    law_failure_ends_the_plan(
        reverse,
        items,
        before,
        current,
        LifecycleEvent::Added(added),
        rest,
    );
}

/// A finalizer that names a lowered namespace member that was never added fails
/// the plan.
pub proof fn law_unopened_done_fails_closed(
    reverse: Map<Seq<char>, LoweredClientToolView>,
    items: Seq<StreamItemView>,
    before: Seq<LifecycleEvent>,
    current: Seq<StreamItemView>,
    done: ItemEventView,
    rest: Seq<LifecycleEvent>,
)
    requires
        leaves(reverse, items, before, current),
        names_member(reverse, done),
        tracked_index(current, done.key) is None,
    ensures
        fails(
            reverse,
            items,
            before.push(LifecycleEvent::ItemDone(done)) + rest,
            done.key,
            RestoreFault::DoneBeforeAdded,
        ),
{
    assert(reverse.dom().contains(done.name->0));
    law_failure_ends_the_plan(
        reverse,
        items,
        before,
        current,
        LifecycleEvent::ItemDone(done),
        rest,
    );
}

/// A finalizer of a tracked namespace member whose lowering entry is missing fails
/// the plan.
pub proof fn law_missing_entry_fails_closed(
    reverse: Map<Seq<char>, LoweredClientToolView>,
    items: Seq<StreamItemView>,
    before: Seq<LifecycleEvent>,
    current: Seq<StreamItemView>,
    done: ItemEventView,
    rest: Seq<LifecycleEvent>,
)
    requires
        lowers_something(reverse),
        leaves(reverse, items, before, current),
        tracked_member(current, done.key) matches Some(item) && item.phase
            == ClientToolPhase::ArgsComplete && !reverse.contains_key(item.private_name),
    ensures
        fails(
            reverse,
            items,
            before.push(LifecycleEvent::ItemDone(done)) + rest,
            done.key,
            RestoreFault::LoweringEntryMissing,
        ),
{
    lemma_tracked(current, done.key);
    law_failure_ends_the_plan(
        reverse,
        items,
        before,
        current,
        LifecycleEvent::ItemDone(done),
        rest,
    );
}

/// No event of the run is about the item with this key.
pub open spec fn avoids(events: Seq<LifecycleEvent>, key: Seq<char>) -> bool {
    forall|i: int| 0 <= i < events.len() ==> event_item_key(#[trigger] events[i]) != Some(key)
}

/// Events about other items leave an item where it is and as it is.
proof fn lemma_avoided_item_stays(
    reverse: Map<Seq<char>, LoweredClientToolView>,
    items: Seq<StreamItemView>,
    events: Seq<LifecycleEvent>,
    key: Seq<char>,
    at: int,
)
    requires
        is_first_with_key(items, key, at),
        avoids(events, key),
    ensures
        plan_events(reverse, items, events) matches Ok((_, next)) ==> is_first_with_key(
            next,
            key,
            at,
        ) && next[at] == items[at],
    decreases events.len(),
{
    if events.len() > 0 {
        let before = events.drop_last();
        assert forall|i: int| 0 <= i < before.len() implies event_item_key(#[trigger] before[i])
            != Some(key) by {
            assert(before[i] == events[i]);
        }
        lemma_avoided_item_stays(reverse, items, before, key, at);
        if let Ok((_, current)) = plan_events(reverse, items, before) {
            let last = events.last();
            assert(events[events.len() - 1] == last);
            if let Ok((_, next)) = plan_event(reverse, current, last) {
                lemma_tracked(current, event_item_key(last));
                assert(next[at] == current[at]);
                assert forall|j: int| 0 <= j < at implies next[j].key != key by {
                    assert(current[j].key != key);
                }
            }
        }
    }
}

/// The whole lifecycle of a lowered namespace member: its `added` and its `done`
/// are retyped to the original, its arguments pass through, and it ends finalized.
/// Events about other items may come in between; they are planned as they are.
pub proof fn law_full_lifecycle(
    reverse: Map<Seq<char>, LoweredClientToolView>,
    items: Seq<StreamItemView>,
    added: ItemEventView,
    between: Seq<LifecycleEvent>,
    arguments: ItemEventView,
    between_too: Seq<LifecycleEvent>,
    done: ItemEventView,
    first: (Seq<DispositionView>, Seq<StreamItemView>),
    second: (Seq<DispositionView>, Seq<StreamItemView>),
)
    requires
        names_member(reverse, added),
        added.key matches Some(key) && is_new_key(items, key) && avoids(between, key) && avoids(
            between_too,
            key,
        ),
        arguments.key == added.key,
        done.key == added.key,
        plan_events(reverse, items.push(opened_item(added)), between) == Ok::<
            (Seq<DispositionView>, Seq<StreamItemView>),
            RestoreFailure,
        >(first),
        plan_events(
            reverse,
            first.1.update(
                items.len() as int,
                with_phase(opened_item(added), ClientToolPhase::ArgsComplete),
            ),
            between_too,
        ) == Ok::<(Seq<DispositionView>, Seq<StreamItemView>), RestoreFailure>(second),
    ensures
        ({
            let original = seq![retyped(reverse[added.name->0])];
            let passed = seq![DispositionView::Passthrough];
            let finished = with_phase(opened_item(added), ClientToolPhase::Done);
            plan_events(
                reverse,
                items,
                seq![LifecycleEvent::Added(added)] + between + seq![
                    LifecycleEvent::ArgumentsDone(arguments),
                ] + between_too + seq![LifecycleEvent::ItemDone(done)],
            ) == Ok::<(Seq<DispositionView>, Seq<StreamItemView>), RestoreFailure>(
                (
                    original + first.0 + passed + second.0 + original,
                    second.1.update(items.len() as int, finished),
                ),
            )
        }),
{
    let key = added.key->0;
    let at = items.len() as int;
    let item = opened_item(added);
    let complete = with_phase(item, ClientToolPhase::ArgsComplete);
    let opened = seq![LifecycleEvent::Added(added)];
    let completed = seq![LifecycleEvent::ArgumentsDone(arguments)];
    let finalized = seq![LifecycleEvent::ItemDone(done)];

    // The item is opened under its new key.
    lemma_tracked(items, added.key);
    if let Some(i) = tracked_index(items, added.key) {
        assert(items[i].key == key);
        assert(false);
    }
    lemma_single_event(reverse, items, LifecycleEvent::Added(added));
    assert forall|j: int| 0 <= j < at implies items.push(item)[j].key != key by {
        assert(items[j].key != key);
    }
    assert(is_first_with_key(items.push(item), key, at));
    lemma_avoided_item_stays(reverse, items.push(item), between, key, at);

    // Its arguments complete it.
    lemma_tracked_index(first.1, key, at);
    lemma_single_event(reverse, first.1, LifecycleEvent::ArgumentsDone(arguments));
    let current = first.1.update(at, complete);
    assert forall|j: int| 0 <= j < at implies current[j].key != key by {
        assert(first.1[j].key != key);
    }
    assert(is_first_with_key(current, key, at));
    lemma_avoided_item_stays(reverse, current, between_too, key, at);

    // It is finalized.
    lemma_tracked_index(second.1, key, at);
    lemma_single_event(reverse, second.1, LifecycleEvent::ItemDone(done));

    law_planning_in_parts(reverse, items, opened, between);
    law_planning_in_parts(reverse, items, opened + between, completed);
    law_planning_in_parts(reverse, items, opened + between + completed, between_too);
    law_planning_in_parts(
        reverse,
        items,
        opened + between + completed + between_too,
        finalized,
    );
}

/// Where no event shows a lowered namespace member and none is tracked, every
/// event passes through and nothing is tracked.
pub proof fn law_other_items_pass_through(
    reverse: Map<Seq<char>, LoweredClientToolView>,
    events: Seq<LifecycleEvent>,
)
    requires
        forall|i: int| 0 <= i < events.len() ==> !shows_member(reverse, #[trigger] events[i]),
    ensures
        plan_events(reverse, Seq::empty(), events) == Ok::<
            (Seq<DispositionView>, Seq<StreamItemView>),
            RestoreFailure,
        >((Seq::new(events.len(), |i: int| DispositionView::Passthrough), Seq::empty())),
    decreases events.len(),
{
    let nothing = Seq::<StreamItemView>::empty();
    let passes = Seq::new(events.len(), |i: int| DispositionView::Passthrough);
    if events.len() == 0 {
        assert(passes =~= Seq::empty());
    } else {
        let before = events.drop_last();
        assert forall|i: int| 0 <= i < before.len() implies !shows_member(
            reverse,
            #[trigger] before[i],
        ) by {
            assert(before[i] == events[i]);
        }
        law_other_items_pass_through(reverse, before);
        let last = events.last();
        assert(events[events.len() - 1] == last);
        assert(plan_event(reverse, nothing, last) == Ok::<
            (DispositionView, Seq<StreamItemView>),
            RestoreFailure,
        >((DispositionView::Passthrough, nothing)));
        assert(Seq::new(before.len(), |i: int| DispositionView::Passthrough).push(
            DispositionView::Passthrough,
        ) =~= passes);
    }
}

/// One key matches a whole lifecycle: events that carry the same item id have the
/// same key, wherever they carry it and whatever their output index; events
/// without an id have the same key if their output index is the same.
pub proof fn law_one_key_per_lifecycle(a: Json, b: Json)
    ensures
        payload_item_id(a) is Some && payload_item_id(a) == payload_item_id(b) ==> event_key(a)
            == event_key(b) && event_key(a) is Some,
        payload_item_id(a) is None && payload_item_id(b) is None && payload_output_index(a)
            == payload_output_index(b) ==> event_key(a) == event_key(b),
{
}

/// Keys tell items apart: events with the same key carry the same item id, or
/// carry none and have the same output index.
pub proof fn law_keys_tell_items_apart(a: Json, b: Json)
    requires
        event_key(a) is Some,
        event_key(a) == event_key(b),
    ensures
        payload_item_id(a) == payload_item_id(b),
        payload_item_id(a) is None ==> payload_output_index(a) == payload_output_index(b),
{
    reveal_strlit("item:");
    reveal_strlit("index:");
    match (payload_item_id(a), payload_item_id(b)) {
        (Some(x), Some(y)) => {
            assert(id_key(x).skip(5) =~= x);
            assert(id_key(y).skip(5) =~= y);
        },
        (None, None) => {
            let x = payload_output_index(a)->0;
            let y = payload_output_index(b)->0;
            assert(index_key(x).skip(6) =~= decimal(x as nat));
            assert(index_key(y).skip(6) =~= decimal(y as nat));
            lemma_decimal_injective(x as nat, y as nat);
        },
        (Some(x), None) => {
            let y = payload_output_index(b)->0;
            assert(id_key(x)[1] == 't');
            assert(index_key(y)[1] == 'n');
        },
        (None, Some(y)) => {
            let x = payload_output_index(a)->0;
            assert(id_key(y)[1] == 't');
            assert(index_key(x)[1] == 'n');
        },
    }
}

} // verus!
