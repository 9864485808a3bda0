use devo_server::acp_history::{
    acp_update_from_history_entry, history_meta, user_text_from_content, HistoryEntry, HistoryItem,
    HistoryMeta, HistoryUpdate, PlanStep, PlanStepStatus,
};
use devo_server::inputs::UserInput;

fn read(text: &str) -> serde_json::Value {
    serde_json::from_str(text).expect("json")
}

fn item(item: HistoryItem) -> HistoryEntry {
    HistoryEntry::Item { item }
}

#[test]
fn history_user_updates_include_stable_order_metadata_without_parent() {
    let entry =
        item(HistoryItem::UserMessage { content: vec![UserInput::Text("hello".to_string())] });

    let update = acp_update_from_history_entry(3, &entry, None).expect("history update");

    let HistoryUpdate::UserMessageChunk { message_id, meta, .. } = update else {
        panic!("expected user message chunk");
    };
    assert_eq!(message_id, "history-3".to_string());
    assert_eq!(meta, history_meta(3, None));
}

#[test]
fn history_tool_updates_include_stable_order_and_parent_metadata() {
    let entry = item(HistoryItem::ToolCall {
        call_id: "read-real-a".to_string(),
        tool_name: "Read".to_string(),
        input: None,
    });

    let update =
        acp_update_from_history_entry(4, &entry, Some("history-0")).expect("history update");

    let HistoryUpdate::ToolCall { call, meta } = update else {
        panic!("expected tool call");
    };
    assert_eq!(call.id, "read-real-a");
    assert_eq!(call.title, "Read");
    assert_eq!(call.raw_input, serde_json::Value::Null);
    assert_eq!(meta, history_meta(4, Some("history-0")));
}

#[test]
fn history_turn_summary_includes_duration_metadata() {
    let entry = HistoryEntry::TurnSummary { body: String::new(), duration: Some(42) };

    let update =
        acp_update_from_history_entry(5, &entry, Some("history-0")).expect("history update");

    let HistoryUpdate::AgentThoughtChunk { message_id, meta, .. } = update else {
        panic!("expected agent thought chunk");
    };
    let mut expected = history_meta(5, Some("history-0"));
    expected.duration_ms = Some(42_000);
    assert_eq!(message_id, "history-5".to_string());
    assert_eq!(meta, expected);
}

#[test]
fn long_turns_have_the_longest_duration() {
    let entry = HistoryEntry::TurnSummary { body: "done".to_string(), duration: Some(u64::MAX) };
    let update = acp_update_from_history_entry(0, &entry, None).expect("update");
    let HistoryUpdate::AgentThoughtChunk { text, meta, .. } = update else {
        panic!("expected a thought");
    };
    assert_eq!(text, "done");
    assert_eq!(meta, HistoryMeta { index: 0, parent: None, duration_ms: Some(u64::MAX) });
}

#[test]
fn user_messages_have_no_parent() {
    let entry = item(HistoryItem::UserMessage {
        content: vec![
            UserInput::Text("one".to_string()),
            UserInput::Audio { uri: "a".to_string() },
            UserInput::Text("two".to_string()),
        ],
    });
    let update = acp_update_from_history_entry(9, &entry, Some("history-8")).expect("update");
    let HistoryUpdate::UserMessageChunk { text, meta, .. } = update else {
        panic!("expected user message chunk");
    };
    assert_eq!(text, "one\ntwo");
    assert_eq!(meta.parent, None);
    assert_eq!(user_text_from_content(&vec![]), "");
}

#[test]
fn spoken_items_become_messages_and_thoughts() {
    let entry = item(HistoryItem::AssistantMessage { text: "hi".to_string() });
    let update = acp_update_from_history_entry(1, &entry, Some("p")).expect("update");
    assert!(matches!(update, HistoryUpdate::AgentMessageChunk { text, .. } if text == "hi"));
    let entry = item(HistoryItem::Reasoning { text: "hm".to_string() });
    let update = acp_update_from_history_entry(1, &entry, Some("p")).expect("update");
    assert!(matches!(update, HistoryUpdate::AgentThoughtChunk { text, .. } if text == "hm"));
    let entry = item(HistoryItem::Plan {
        entries: vec![PlanStep { step: "a".to_string(), status: PlanStepStatus::InProgress }],
    });
    let update = acp_update_from_history_entry(1, &entry, Some("p")).expect("update");
    let HistoryUpdate::Plan { entries, meta } = update else { panic!("expected a plan") };
    assert_eq!(entries.len(), 1);
    assert_eq!(entries[0].step, "a");
    assert_eq!(entries[0].status, PlanStepStatus::InProgress);
    assert_eq!(meta.parent.as_deref(), Some("p"));
}

#[test]
fn structured_answers_are_shown_as_json() {
    for (answer, shown) in [
        (Some(read(r#""plain""#)), "plain"),
        (Some(read(r#"{ "a" : [1, true] }"#)), r#"{"a":[1,true]}"#),
        (Some(serde_json::Value::Null), "null"),
        (None, ""),
    ] {
        let entry = item(HistoryItem::HostedToolCall { answer });
        let update = acp_update_from_history_entry(2, &entry, None).expect("update");
        assert!(matches!(update, HistoryUpdate::AgentMessageChunk { text, .. } if text == shown));
    }
}

#[test]
fn tool_results_prefer_what_is_meant_to_be_shown() {
    let of = |call_id: &str, display: Option<&str>, is_error: bool| {
        item(HistoryItem::ToolResult {
            call_id: call_id.to_string(),
            output: read("[1]"),
            display_content: display.map(str::to_owned),
            is_error,
        })
    };
    let update = acp_update_from_history_entry(6, &of("c", Some("shown"), true), None).unwrap();
    let HistoryUpdate::ToolCallUpdate { update, .. } = update else { panic!("expected update") };
    assert_eq!(update.id, "c");
    assert_eq!(update.title, "Tool result");
    assert!(update.failed);
    assert!(!update.executes);
    assert_eq!(update.text, "shown");
    assert_eq!(update.raw_input, None);
    assert_eq!(update.raw_output, Some(read("[1]")));
    let update = acp_update_from_history_entry(6, &of("", None, false), None).unwrap();
    let HistoryUpdate::ToolCallUpdate { update, .. } = update else { panic!("expected update") };
    assert_eq!(update.id, "history-6");
    assert!(!update.failed);
    assert_eq!(update.text, "[1]");
}

#[test]
fn commands_show_their_line_and_output() {
    let entry = item(HistoryItem::CommandExecution {
        call_id: "x".to_string(),
        command: "ls".to_string(),
        input: Some(read(r#"{"cmd":"ls"}"#)),
        result: Some(read(r#""a\nb""#)),
        is_error: false,
    });
    let update = acp_update_from_history_entry(6, &entry, Some("p")).unwrap();
    let HistoryUpdate::ToolCallUpdate { update, meta } = update else {
        panic!("expected update")
    };
    assert_eq!(update.title, "ls");
    assert!(update.executes);
    assert_eq!(update.text, "a\nb");
    assert_eq!(update.raw_input, Some(read(r#"{"cmd":"ls"}"#)));
    assert_eq!(meta, history_meta(6, Some("p")));
}

#[test]
fn failures_are_shown_as_failed_calls() {
    let entry = HistoryEntry::Error { title: "oops".to_string(), body: String::new() };
    let update = acp_update_from_history_entry(7, &entry, None).unwrap();
    let HistoryUpdate::ToolCallUpdate { update, .. } = update else { panic!("expected update") };
    assert_eq!((update.id.as_str(), update.text.as_str()), ("history-7", "oops"));
    let entry = HistoryEntry::Error { title: "oops".to_string(), body: "why".to_string() };
    let update = acp_update_from_history_entry(7, &entry, None).unwrap();
    let HistoryUpdate::ToolCallUpdate { update, .. } = update else { panic!("expected update") };
    assert_eq!((update.title.as_str(), update.text.as_str()), ("oops", "why"));
    let entry =
        item(HistoryItem::Warning { code: "W".to_string(), message: "careful".to_string() });
    let update = acp_update_from_history_entry(7, &entry, None).unwrap();
    let HistoryUpdate::ToolCallUpdate { update, .. } = update else { panic!("expected update") };
    assert_eq!((update.title.as_str(), update.text.as_str()), ("W", "careful"));
    assert!(update.failed);
}

#[test]
fn some_items_are_not_shown() {
    assert!(acp_update_from_history_entry(0, &item(HistoryItem::ContextCompaction), None).is_none());
    assert!(acp_update_from_history_entry(0, &item(HistoryItem::Other), None).is_none());
}
