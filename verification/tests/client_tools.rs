//! Planning of client-tool restoration over streamed events.

use praxis_openai::responses::client_tools::{
    client_tool_event_key, complete_arguments, finish_item, open_item, plan_client_tool_restore,
    ClientToolCompletion, ClientToolDisposition, ClientToolPhase, ClientToolStreamItem, ItemEvent,
    PlannedRestore,
};
use praxis_openai::responses::event::ResponsesEvent;
use praxis_openai::responses::state::{
    ClientToolEcho, ClientToolRestore, LoweredClientTool, StringHashMap,
};
use praxis_openai::sse::SseParseError;
use serde_json::Value;

fn json(text: &str) -> Value {
    serde_json::from_str(text).unwrap()
}

fn lowered(name: &str, namespace: Option<&str>, restore: ClientToolRestore) -> LoweredClientTool {
    LoweredClientTool {
        original_name: name.to_owned(),
        namespace: namespace.map(str::to_owned),
        restore,
    }
}

fn reverse_namespace() -> StringHashMap<LoweredClientTool> {
    let mut m = StringHashMap::new();
    m.insert(
        "agentic_ns__fs__read".to_owned(),
        lowered("read", Some("fs"), ClientToolRestore::Namespace),
    );
    m
}

fn added_event() -> ResponsesEvent {
    ResponsesEvent::OutputItemAdded(json(
        r#"{
            "type": "response.output_item.added",
            "output_index": 0,
            "item": {"type": "function_call", "name": "agentic_ns__fs__read",
                     "call_id": "c1", "id": "fc_1"}
        }"#,
    ))
}

fn args_done_event() -> ResponsesEvent {
    ResponsesEvent::FunctionCallArgumentsDone(json(
        r#"{
            "type": "response.function_call_arguments.done",
            "output_index": 0,
            "item_id": "fc_1",
            "arguments": "{\"path\":\"/etc\"}"
        }"#,
    ))
}

fn item_done_event() -> ResponsesEvent {
    ResponsesEvent::OutputItemDone(json(
        r#"{
            "type": "response.output_item.done",
            "output_index": 0,
            "item": {"type": "function_call", "name": "agentic_ns__fs__read",
                     "call_id": "c1", "id": "fc_1", "status": "completed"}
        }"#,
    ))
}

fn plan(
    reverse: &StringHashMap<LoweredClientTool>,
    committed: &[ClientToolStreamItem],
    events: &[ResponsesEvent],
) -> Result<PlannedRestore, SseParseError> {
    plan_client_tool_restore(reverse, None, committed, events, &[])
}

fn is_retype(disposition: &ClientToolDisposition, expected: &str, within: Option<&str>) -> bool {
    match disposition {
        ClientToolDisposition::RetypeInPlace { item_type, name, namespace } => {
            *item_type == "function_call" && name == expected && namespace.as_deref() == within
        }
        _ => false,
    }
}

#[test]
fn native_passthrough_plans_nothing() {
    let reverse = StringHashMap::new();
    let plan = plan_client_tool_restore(&reverse, None, &[], &[], &[]).unwrap();
    assert!(plan.dispositions.is_empty());
    assert!(plan.next_items.is_empty());
}

#[test]
fn namespace_output_item_added_retypes_in_place() {
    let reverse = reverse_namespace();
    let added = added_event();
    let plan =
        plan_client_tool_restore(&reverse, None, &[], std::slice::from_ref(&added), &[]).unwrap();
    assert_eq!(plan.dispositions.len(), 1);
    match &plan.dispositions[0] {
        ClientToolDisposition::RetypeInPlace { item_type, name, namespace } => {
            assert_eq!(*item_type, "function_call");
            assert_eq!(name, "read");
            assert_eq!(namespace.as_deref(), Some("fs"));
        }
        other => panic!("expected RetypeInPlace, got {other:?}"),
    }
    assert_eq!(plan.next_items.len(), 1);
    assert!(matches!(plan.next_items[0].phase, ClientToolPhase::Opened));
}

#[test]
fn namespace_full_lifecycle_advances_and_retypes_done() {
    let reverse = reverse_namespace();
    let events = [added_event(), args_done_event(), item_done_event()];
    let plan = plan_client_tool_restore(&reverse, None, &[], &events, &[]).unwrap();

    assert_eq!(plan.dispositions.len(), 3);
    assert!(matches!(plan.dispositions[0], ClientToolDisposition::RetypeInPlace { .. }));
    assert!(matches!(plan.dispositions[1], ClientToolDisposition::Passthrough));
    match &plan.dispositions[2] {
        ClientToolDisposition::RetypeInPlace { name, namespace, .. } => {
            assert_eq!(name, "read");
            assert_eq!(namespace.as_deref(), Some("fs"));
        }
        other => panic!("expected RetypeInPlace on done, got {other:?}"),
    }
    assert_eq!(plan.next_items.len(), 1);
    assert!(matches!(plan.next_items[0].phase, ClientToolPhase::Done));
    // The private lowered name is tracked internally but never surfaces in a
    // client-visible disposition.
    assert_eq!(plan.next_items[0].private_name, "agentic_ns__fs__read");
}

#[test]
fn namespace_output_item_done_before_args_done_fails_closed() {
    let reverse = reverse_namespace();
    let events = [added_event(), item_done_event()];
    let result = plan_client_tool_restore(&reverse, None, &[], &events, &[]);
    assert!(result.is_err(), "output_item.done before arguments.done must fail closed");
}

#[test]
fn premature_done_names_the_item() {
    let reverse = reverse_namespace();
    let events = [added_event(), item_done_event(), args_done_event()];
    match plan(&reverse, &[], &events) {
        Err(SseParseError::MalformedJson { event_type, err }) => {
            assert_eq!(event_type, "response.output_item.done");
            assert_eq!(
                err,
                "client-tool restore for 'item:fc_1': output_item.done before arguments.done"
            );
        }
        other => panic!("expected MalformedJson, got {:?}", other.map(|p| p.dispositions)),
    }
}

#[test]
fn tracked_item_records_what_the_event_carries() {
    let reverse = reverse_namespace();
    let added = ResponsesEvent::OutputItemAdded(json(
        r#"{"output_index": 12, "item": {"name": "agentic_ns__fs__read", "id": "fc_9"}}"#,
    ));
    let plan = plan(&reverse, &[], &[added]).unwrap();
    let item = &plan.next_items[0];
    assert_eq!(item.key, "item:fc_9");
    assert_eq!(item.output_index, 12);
    assert_eq!(item.item_id.as_deref(), Some("fc_9"));
    assert_eq!(item.restore, ClientToolRestore::Namespace);
}

#[test]
fn native_passthrough_keeps_committed_items() {
    let committed = plan(&reverse_namespace(), &[], &[added_event()]).unwrap().next_items;
    let events = [args_done_event(), item_done_event()];
    let echo = ClientToolEcho { tools: json("[]") };
    let completion = ClientToolCompletion { key: "item:fc_1".to_owned(), item: json("{}") };
    let plan = plan_client_tool_restore(
        &StringHashMap::new(),
        Some(&echo),
        &committed,
        &events,
        std::slice::from_ref(&completion),
    )
    .unwrap();
    assert!(plan.dispositions.is_empty());
    assert_eq!(plan.next_items.len(), 1);
    assert_eq!(plan.next_items[0].key, "item:fc_1");
    assert_eq!(plan.next_items[0].phase, ClientToolPhase::Opened);
}

#[test]
fn planning_in_two_chunks_matches_planning_in_one() {
    let reverse = reverse_namespace();
    let first = plan(&reverse, &[], &[added_event(), args_done_event()]).unwrap();
    assert_eq!(first.next_items[0].phase, ClientToolPhase::ArgsComplete);
    let second = plan(&reverse, &first.next_items, &[item_done_event()]).unwrap();
    assert_eq!(second.dispositions.len(), 1);
    assert!(is_retype(&second.dispositions[0], "read", Some("fs")));
    assert_eq!(second.next_items[0].phase, ClientToolPhase::Done);
}

#[test]
fn other_lowered_kinds_pass_through_untracked() {
    for restore in [
        ClientToolRestore::Custom,
        ClientToolRestore::Shell,
        ClientToolRestore::ToolSearch,
    ] {
        let mut reverse = StringHashMap::new();
        reverse.insert("agentic_ns__fs__read".to_owned(), lowered("read", None, restore));
        let events = [added_event(), item_done_event()];
        let plan = plan(&reverse, &[], &events).unwrap();
        assert_eq!(plan.dispositions.len(), 2);
        assert!(plan
            .dispositions
            .iter()
            .all(|d| matches!(d, ClientToolDisposition::Passthrough)));
        assert!(plan.next_items.is_empty());
    }
}

#[test]
fn unrelated_events_pass_through() {
    let reverse = reverse_namespace();
    let events = [
        ResponsesEvent::Other(json(r#"{"type": "response.created"}"#)),
        ResponsesEvent::OutputItemAdded(json(r#"{"output_index": 0}"#)),
        ResponsesEvent::OutputItemAdded(json(r#"{"item": {"name": 7}}"#)),
        ResponsesEvent::OutputItemAdded(json(r#"{"item": {"name": "other", "id": "a"}}"#)),
        ResponsesEvent::FunctionCallArgumentsDone(json(r#"{"item_id": "unknown"}"#)),
        ResponsesEvent::FunctionCallArgumentsDone(json("[]")),
        ResponsesEvent::OutputItemDone(json(r#"{"item": {"id": "unknown"}}"#)),
        ResponsesEvent::OutputItemDone(json("null")),
    ];
    let plan = plan(&reverse, &[], &events).unwrap();
    assert_eq!(plan.dispositions.len(), events.len());
    assert!(plan
        .dispositions
        .iter()
        .all(|d| matches!(d, ClientToolDisposition::Passthrough)));
    assert!(plan.next_items.is_empty());
}

#[test]
fn items_without_an_id_are_keyed_by_output_index() {
    let reverse = reverse_namespace();
    let events = [
        ResponsesEvent::OutputItemAdded(json(
            r#"{"output_index": 10, "item": {"name": "agentic_ns__fs__read"}}"#,
        )),
        ResponsesEvent::FunctionCallArgumentsDone(json(r#"{"output_index": 10}"#)),
        ResponsesEvent::OutputItemDone(json(r#"{"output_index": 10, "item": {}}"#)),
    ];
    let plan = plan(&reverse, &[], &events).unwrap();
    assert_eq!(plan.next_items[0].key, "index:10");
    assert_eq!(plan.next_items[0].item_id, None);
    assert_eq!(plan.next_items[0].phase, ClientToolPhase::Done);
    assert!(is_retype(&plan.dispositions[2], "read", Some("fs")));
}

#[test]
fn event_keys_prefer_the_nested_id() {
    let key = |text: &str| client_tool_event_key(&json(text));
    assert_eq!(
        key(r#"{"item": {"id": "a"}, "item_id": "b", "output_index": 1}"#).as_deref(),
        Some("item:a")
    );
    assert_eq!(key(r#"{"item_id": "b", "output_index": 1}"#).as_deref(), Some("item:b"));
    assert_eq!(
        key(r#"{"item": {"id": 5}, "item_id": "b"}"#).as_deref(),
        Some("item:b"),
        "an id that is no string is no id"
    );
    assert_eq!(key(r#"{"output_index": 0}"#).as_deref(), Some("index:0"));
    assert_eq!(
        key(r#"{"output_index": 18446744073709551615}"#).as_deref(),
        Some("index:18446744073709551615")
    );
    assert_eq!(key(r#"{"output_index": -1}"#), None);
    assert_eq!(key(r#"{"output_index": 1.5}"#), None);
    assert_eq!(key("{}"), None);
    assert_eq!(key("3"), None);
}

/// The event type and message of a failed plan.
fn failure<T>(result: Result<T, SseParseError>) -> (String, String) {
    match result {
        Err(SseParseError::MalformedJson { event_type, err }) => (event_type, err),
        Err(other) => panic!("expected MalformedJson, got {other:?}"),
        Ok(_) => panic!("expected a failed plan"),
    }
}

fn report(event_type: &str, key: &str, fault: &str) -> (String, String) {
    (event_type.to_owned(), format!("client-tool restore for '{key}': {fault}"))
}

fn stream_item(private_name: &str, phase: ClientToolPhase) -> ClientToolStreamItem {
    ClientToolStreamItem {
        key: "item:fc_9".to_owned(),
        private_name: private_name.to_owned(),
        restore: ClientToolRestore::Namespace,
        phase,
        output_index: 0,
        item_id: Some("fc_9".to_owned()),
    }
}

#[test]
fn second_added_fails_closed() {
    let events = [added_event(), added_event(), args_done_event()];
    assert_eq!(
        failure(plan(&reverse_namespace(), &[], &events)),
        report(
            "response.output_item.added",
            "item:fc_1",
            "output_item.added after output_item.added"
        )
    );
}

#[test]
fn added_without_a_key_fails_closed() {
    let added = ResponsesEvent::OutputItemAdded(json(
        r#"{"item": {"name": "agentic_ns__fs__read"}}"#,
    ));
    assert_eq!(
        failure(plan(&reverse_namespace(), &[], &[added])),
        report(
            "response.output_item.added",
            "unidentified item",
            "output_item.added without id or output_index"
        )
    );
}

#[test]
fn arguments_after_done_fail_closed() {
    let events = [added_event(), args_done_event(), item_done_event(), args_done_event()];
    assert_eq!(
        failure(plan(&reverse_namespace(), &[], &events)),
        report(
            "response.function_call_arguments.done",
            "item:fc_1",
            "arguments.done after output_item.done"
        )
    );
}

#[test]
fn arguments_done_is_accepted_again_before_the_finalizer() {
    let events = [added_event(), args_done_event(), args_done_event(), item_done_event()];
    let plan = plan(&reverse_namespace(), &[], &events).unwrap();
    assert!(is_retype(&plan.dispositions[3], "read", Some("fs")));
}

#[test]
fn bare_lifecycle_with_late_arguments_fails_closed() {
    let done = || ResponsesEvent::FunctionCallArgumentsDone(json(r#"{"item_id": "fc_1"}"#));
    let events = [
        ResponsesEvent::OutputItemAdded(json(
            r#"{"item": {"name": "agentic_ns__fs__read", "id": "fc_1"}}"#,
        )),
        done(),
        ResponsesEvent::OutputItemDone(json(r#"{"item": {"id": "fc_1"}}"#)),
        done(),
    ];
    assert!(plan(&reverse_namespace(), &[], &events).is_err());
    assert!(plan(&reverse_namespace(), &[], &events[..3]).is_ok());
}

#[test]
fn second_done_fails_closed() {
    let events = [added_event(), args_done_event(), item_done_event(), item_done_event()];
    assert_eq!(
        failure(plan(&reverse_namespace(), &[], &events)),
        report(
            "response.output_item.done",
            "item:fc_1",
            "output_item.done after output_item.done"
        )
    );
}

#[test]
fn done_of_a_member_never_added_fails_closed() {
    assert_eq!(
        failure(plan(&reverse_namespace(), &[], &[item_done_event()])),
        report(
            "response.output_item.done",
            "item:fc_1",
            "output_item.done before output_item.added"
        )
    );
    let keyless = ResponsesEvent::OutputItemDone(json(
        r#"{"item": {"name": "agentic_ns__fs__read"}}"#,
    ));
    assert_eq!(
        failure(plan(&reverse_namespace(), &[], &[keyless])),
        report(
            "response.output_item.done",
            "unidentified item",
            "output_item.done before output_item.added"
        )
    );
}

#[test]
fn premature_done_of_a_committed_item_fails_closed() {
    let committed = [stream_item("agentic_ns__fs__read", ClientToolPhase::Opened)];
    let events = [
        added_event(),
        args_done_event(),
        ResponsesEvent::OutputItemDone(json(r#"{"item": {"id": "fc_9"}}"#)),
    ];
    assert_eq!(
        failure(plan(&reverse_namespace(), &committed, &events)),
        report(
            "response.output_item.done",
            "item:fc_9",
            "output_item.done before arguments.done"
        )
    );
}

#[test]
fn done_without_a_lowering_entry_fails_closed() {
    let committed = [stream_item("agentic_ns__fs__gone", ClientToolPhase::ArgsComplete)];
    let done = ResponsesEvent::OutputItemDone(json(
        r#"{"item": {"id": "fc_9", "name": "agentic_ns__fs__gone"}}"#,
    ));
    let result = plan(&reverse_namespace(), &committed, &[done]);
    assert_eq!(
        failure(result),
        report("response.output_item.done", "item:fc_9", "lowering entry missing")
    );
}

#[test]
fn interleaved_lifecycles_are_restored_apart() {
    let mut reverse = reverse_namespace();
    reverse.insert(
        "agentic_ns__git__log".to_owned(),
        lowered("log", Some("git"), ClientToolRestore::Namespace),
    );
    let events = [
        added_event(),
        ResponsesEvent::OutputItemAdded(json(
            r#"{"output_index": 1, "item": {"name": "agentic_ns__git__log", "id": "fc_2"}}"#,
        )),
        args_done_event(),
        ResponsesEvent::Other(json("{}")),
        ResponsesEvent::FunctionCallArgumentsDone(json(r#"{"item_id": "fc_2"}"#)),
        ResponsesEvent::OutputItemDone(json(r#"{"item": {"id": "fc_2"}}"#)),
        item_done_event(),
    ];
    let plan = plan(&reverse, &[], &events).unwrap();
    assert!(is_retype(&plan.dispositions[0], "read", Some("fs")));
    assert!(is_retype(&plan.dispositions[1], "log", Some("git")));
    for i in 2..5 {
        assert!(matches!(plan.dispositions[i], ClientToolDisposition::Passthrough));
    }
    assert!(is_retype(&plan.dispositions[5], "log", Some("git")));
    assert!(is_retype(&plan.dispositions[6], "read", Some("fs")));
    assert_eq!(plan.next_items.len(), 2);
    assert!(plan.next_items.iter().all(|item| item.phase == ClientToolPhase::Done));
}

#[test]
fn tracked_items_of_other_kinds_keep_their_phase() {
    let committed = [ClientToolStreamItem {
        restore: ClientToolRestore::Custom,
        ..stream_item("agentic_custom__grep", ClientToolPhase::Opened)
    }];
    let events = [
        ResponsesEvent::FunctionCallArgumentsDone(json(r#"{"item_id": "fc_9"}"#)),
        ResponsesEvent::OutputItemDone(json(r#"{"item": {"id": "fc_9"}}"#)),
    ];
    let plan = plan(&reverse_namespace(), &committed, &events).unwrap();
    assert!(plan
        .dispositions
        .iter()
        .all(|d| matches!(d, ClientToolDisposition::Passthrough)));
    assert_eq!(plan.next_items[0].phase, ClientToolPhase::Opened);
}

#[test]
fn tool_without_a_namespace_is_retyped_without_one() {
    let mut reverse = StringHashMap::new();
    reverse.insert("p".to_owned(), lowered("q", None, ClientToolRestore::Namespace));
    let mut items = Vec::new();
    let event = ItemEvent {
        name: Some("p".to_owned()),
        key: Some("item:x".to_owned()),
        output_index: 3,
        item_id: Some("x".to_owned()),
    };
    assert!(is_retype(&open_item(&reverse, &mut items, event).unwrap(), "q", None));
    assert_eq!(items[0].private_name, "p");
}

#[test]
fn failed_steps_leave_the_items_as_they_are() {
    let reverse: StringHashMap<LoweredClientTool> = StringHashMap::new();
    let mut items = vec![stream_item("p", ClientToolPhase::ArgsComplete)];
    let event = || ItemEvent {
        name: None,
        key: Some("item:fc_9".to_owned()),
        output_index: 0,
        item_id: None,
    };
    assert_eq!(
        failure(finish_item(&reverse, &mut items, event())),
        report("response.output_item.done", "item:fc_9", "lowering entry missing")
    );
    assert_eq!(items.len(), 1);
    assert_eq!(items[0].phase, ClientToolPhase::ArgsComplete);
    items[0].phase = ClientToolPhase::Done;
    assert_eq!(
        failure(complete_arguments(&mut items, event())),
        report(
            "response.function_call_arguments.done",
            "item:fc_9",
            "arguments.done after output_item.done"
        )
    );
    assert_eq!(items[0].phase, ClientToolPhase::Done);
}

#[test]
fn copied_dispositions_say_the_same() {
    let snapshot = ClientToolDisposition::RestoreSnapshot { response: json(r#"{"id": "r"}"#) };
    match snapshot.clone() {
        ClientToolDisposition::RestoreSnapshot { response } => {
            assert_eq!(response, json(r#"{"id": "r"}"#));
        }
        other => panic!("expected RestoreSnapshot, got {other:?}"),
    }
}
