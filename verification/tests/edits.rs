use devo_server::compaction::{SessionCounters, TurnStatus, UsageTotals};
use devo_server::edit_requests::{
    advance_edit_call, begin_edit_call, EditCall, EditCallAction, EditCallEvent, EditedParts,
};
use devo_server::inputs::{PartRefusal, ResolvedInput, UserInput};
use devo_server::message_edit::{
    advance_edit, check_revision, choose_edit_target, count_user_messages, edited_message,
    find_branch_parent, find_editable_message, find_latest_user_message, find_previous_visible,
    item_revision, supersede_items, EditAction, EditContent, EditEvent, EditIds, EditMode,
    EditNotice, EditPhase, EditRecord, EditRecords, EditRequest, HistoryItem, InputResolution, MessageEntry,
    ReplacementGoal, RestorePolicy, SessionExport, SessionItem, SkillFailure,
};
use devo_server::protocol::{ErrorCode, ItemId, TurnId};
use devo_server::rollback::FileOutcome;
use devo_server::session_metadata::CollaborationMode;
use devo_server::session_state::{ActiveTurn, EndedTurn, SessionState};
use devo_server::sessions::SessionStatus;
use devo_server::turn_cut::CompactionSnapshot;
use devo_server::turn_model::{ModelChoice, TurnModel};
use devo_server::workspace_restore::FileStatus;

fn item(raw: u128) -> ItemId {
    ItemId { raw }
}

fn turn(raw: u128) -> TurnId {
    TurnId { raw }
}

fn request() -> EditRequest {
    EditRequest {
        target: Some(item(21)),
        expected_target: None,
        mode: EditMode::Normal,
        restore: Some(RestorePolicy::Safe),
        content: content(),
        display: "new text".to_string(),
        client: Some("k1".to_string()),
    }
}

fn content() -> Vec<UserInput> {
    vec![UserInput::Text("new".to_string()), UserInput::Other(4)]
}

fn resolved() -> ResolvedInput {
    ResolvedInput {
        text: "new prompt".to_string(),
        messages: vec!["first".to_string(), "second".to_string()],
        images: vec!["/tmp/a.png".to_string()],
    }
}

fn choice() -> ModelChoice {
    ModelChoice {
        binding: Some("bound".to_string()),
        model: Some("small".to_string()),
        effort: Some("low".to_string()),
    }
}

fn model() -> TurnModel {
    TurnModel { binding: None, model: "small-1".to_string(), effort: None }
}

fn entry(turn_id: u128, id: u128, user_message: bool) -> SessionItem {
    SessionItem { turn: turn(turn_id), item: item(id), user_message }
}

fn items() -> Vec<SessionItem> {
    vec![entry(1, 11, true), entry(1, 12, false), entry(2, 21, true), entry(2, 22, false)]
}

fn export() -> SessionExport {
    SessionExport {
        turn_active: false,
        items: items(),
        durable: true,
        latest_sequence: Some(2),
        choice: choice(),
        mode: CollaborationMode::Plan,
    }
}

fn ids() -> EditIds {
    EditIds { edit: 5, replacement_turn: turn(3), replacement_item: item(31) }
}

fn history(id: u128, seq: u64, user_message: bool) -> HistoryItem {
    HistoryItem { id: item(id), seq, revision: 1, user_message, tree_visible: true }
}

fn state() -> SessionState {
    SessionState {
        items: items(),
        turn_count: 2,
        active: None,
        latest: Some(EndedTurn { turn: turn(2), status: TurnStatus::Completed }),
        compaction: Some(CompactionSnapshot {
            turn: turn(1),
            summary_item: item(12),
            occupancy: None,
        }),
        status: SessionStatus::Idle,
        occupancy: None,
        counters: SessionCounters {
            totals: UsageTotals {
                input: 1,
                output: 2,
                total: 3,
                cache_creation: 4,
                cache_read: 5,
            },
            prompt_token_estimate: 6,
            last_turn_tokens: 7,
            last_input_tokens: 8,
            last_query_total_tokens: 9,
            occupancy_total: None,
            loaded_item_count: 4,
            next_item_seq: 5,
        },
        updated_at: 10,
        last_activity_at: 11,
    }
}

fn run_actions(request: EditRequest, events: Vec<EditEvent>) -> Vec<EditAction> {
    let mut phase = EditPhase::Content;
    let mut seen = Vec::new();
    for event in events {
        let (next, action) = advance_edit(&request, phase, event);
        phase = next;
        seen.push(action);
    }
    seen
}

fn run(request: EditRequest, events: Vec<EditEvent>) -> Vec<String> {
    run_actions(request, events)
        .into_iter()
        .map(|action| match action {
            EditAction::Reject(why) => format!("{:?}: {}", why.code, why.message()),
            other => format!("{other:?}"),
        })
        .collect()
}

fn checks() -> Vec<EditEvent> {
    vec![
        EditEvent::Content(EditContent::Ready),
        EditEvent::SessionFound(true),
        EditEvent::ActiveTurn(None),
        EditEvent::Done,
        EditEvent::ActiveTurn(None),
        EditEvent::HookContextFound(true),
        EditEvent::Resolved(InputResolution::Ready(resolved())),
        EditEvent::HookRan(None),
        EditEvent::MentionsDecoded(None),
    ]
}

fn accepted() -> Vec<EditEvent> {
    let mut events = checks();
    events.extend([
        EditEvent::Exported(Some(export())),
        EditEvent::ModelResolved(model()),
        EditEvent::RecordsCreated(EditRecords::Pair(ids())),
        EditEvent::RestorePlanned(Some(9)),
        EditEvent::Written(None),
        EditEvent::Written(None),
        EditEvent::Written(None),
        EditEvent::RestoreApplied(Some(vec![FileOutcome {
            file: "a.txt".to_string(),
            status: FileStatus::Skipped,
        }])),
        EditEvent::Written(None),
        EditEvent::Written(None),
        EditEvent::SequenceAllocated(40),
        EditEvent::TreeRead {
            recorded_parent: Some(item(12)),
            items: vec![],
            leaf_epoch: 6,
        },
        EditEvent::Written(None),
        EditEvent::Written(None),
        EditEvent::Written(None),
        EditEvent::SessionReexported(Some(state()), 90),
        EditEvent::Done,
        EditEvent::Goal(None),
    ]);
    events.extend((0..10).map(|_| EditEvent::Done));
    events
}

#[test]
fn edited_sessions_run_the_replacement() {
    let seen = run_actions(request(), accepted());
    let after = seen
        .iter()
        .find_map(|action| match action {
            EditAction::ReplaceState(after) => Some(after),
            _ => None,
        })
        .expect("replaced");
    assert_eq!(after.prompts, ["first", "second"]);
    let after = &after.session;
    assert_eq!(after.items, vec![entry(1, 11, true), entry(1, 12, false), entry(3, 31, true)]);
    assert_eq!(after.turn_count, 1);
    assert_eq!(after.active, Some(ActiveTurn { turn: turn(3), sequence: 3 }));
    assert_eq!(after.latest, state().latest);
    assert_eq!(after.compaction, None);
    assert_eq!(after.status, SessionStatus::Active);
    assert_eq!((after.updated_at, after.last_activity_at), (90, 90));
    assert!(seen.iter().any(|action| matches!(
        action,
        EditAction::Accept { ids: told, state: "accepted" } if *told == ids()
    )));
}

#[test]
fn edits_put_the_content_in_place() {
    let seen = run_actions(request(), accepted());
    assert!(seen.iter().any(|action| matches!(
        action,
        EditAction::RunPromptHook(text) if text == "new prompt"
    )));
    assert!(seen.iter().any(|action| matches!(
        action,
        EditAction::ResolveModel(selection)
            if selection.model.as_deref() == Some("bound")
                && selection.effort.as_deref() == Some("low")
    )));
    assert!(seen.iter().any(|action| matches!(
        action,
        EditAction::Append(EditRecord::MessageEdit { text, client, .. })
            if text == "new text" && client.as_deref() == Some("k1")
    )));
    assert!(seen.iter().any(|action| matches!(
        action,
        EditAction::Append(EditRecord::ReplacementTurn { model: recorded, .. })
            if *recorded == model() && recorded.provider() == "unknown"
    )));
    let stored = seen
        .iter()
        .find_map(|action| match action {
            EditAction::Append(EditRecord::ReplacementItem { message, .. }) => Some(message),
            _ => None,
        })
        .expect("stored");
    assert_eq!((&stored.input, stored.text.as_str()), (&content(), "new text"));
    assert_eq!(stored.images, ["/tmp/a.png"]);
    assert_eq!(stored.entry, MessageEntry::TurnStart);
    let turn = seen
        .iter()
        .find_map(|action| match action {
            EditAction::SpawnTurn { turn: id, work } if *id == turn(3) => Some(work),
            _ => None,
        })
        .expect("spawned");
    assert_eq!((&turn.input, turn.display.as_str()), (&content(), "new text"));
    assert_eq!(turn.resolved.text, "new prompt");
    assert_eq!(turn.resolved.messages, ["first", "second"]);
    assert_eq!((turn.mode, &turn.model), (CollaborationMode::Plan, &model()));
    assert!(matches!(
        turn.goal,
        ReplacementGoal::StandIn { objective: "message edit replacement", at: 90 }
    ));
    assert!(seen.iter().any(|action| matches!(
        action,
        EditAction::Announce(EditNotice::EditRecorded { preview, .. }) if preview == "new text"
    )));
    assert!(seen.iter().any(|action| matches!(
        action,
        EditAction::Append(EditRecord::RestoreCompleted { outcomes, .. })
            if outcomes.len() == 1 && outcomes[0].file == "a.txt"
    )));
    assert!(seen.iter().any(|action| matches!(
        action,
        EditAction::Announce(EditNotice::RestoreCompleted { succeeded: true, .. })
    )));
    let shown = seen
        .iter()
        .filter(|action| match action {
            EditAction::Announce(
                EditNotice::ItemStarted { message, .. } | EditNotice::ItemCompleted { message, .. },
            ) => message.input == content() && message.text == "new text",
            _ => false,
        })
        .count();
    assert_eq!(shown, 2);
}

#[test]
fn edits_are_recorded_before_they_show() {
    let seen = run(request(), accepted());
    let at = |start: &str| {
        seen.iter().position(|action| action.starts_with(start)).unwrap_or_else(|| panic!("{start}"))
    };
    assert!(at("Append(MessageEdit") < at("Append(TurnSuperseded"));
    assert!(at("Append(RestoreStarted") < at("ApplyRestore"));
    assert!(at("ApplyRestore") < at("Append(RestoreCompleted"));
    assert!(at("Append(ReplacementItem") < at("ReplaceState"));
    assert!(at("ReplaceState") < at("SpawnTurn"));
    assert!(at("SpawnTurn") < at("Announce"));
    assert!(seen[at("Append(ReplacementItem")].starts_with(
        "Append(ReplacementItem { item: ItemId { raw: 31 }, seq: 40, \
         parent: Some(ItemId { raw: 12 }), message: EditedContent"
    ));
    assert_eq!(
        seen[at("Append(SessionLeaf")],
        "Append(SessionLeaf { leaf: ItemId { raw: 31 }, epoch: 7 })"
    );
    assert!(seen.iter().any(|action| action.starts_with("Accept")));
}

#[test]
fn edits_are_refused_for_a_reason() {
    let last = |events: Vec<EditEvent>| run(request(), events).pop().expect("an action");
    assert_eq!(
        last(vec![EditEvent::Content(EditContent::Invalid("x".to_string()))]),
        "InvalidContentParts: invalid session/message/edit content: x"
    );
    assert_eq!(
        last(vec![EditEvent::Content(EditContent::Empty)]),
        "InvalidContentParts: session/message/edit content is empty"
    );
    let mut events = checks();
    events.truncate(6);
    events.push(EditEvent::Resolved(InputResolution::Failed(
        SkillFailure::Ambiguous,
        "two".to_string(),
    )));
    assert_eq!(
        last(events),
        format!(
            "{:?}: failed to resolve session/message/edit input: two",
            SkillFailure::Ambiguous.error_code()
        )
    );
    let mut events = checks();
    events.truncate(8);
    events.push(EditEvent::MentionsDecoded(Some("m".to_string())));
    assert_eq!(last(events), "InvalidMentions: invalid session/message/edit mentions: m");
    let queued = EditRequest { mode: EditMode::QueuedOnly, ..request() };
    assert_eq!(
        run(queued, checks()).pop().unwrap(),
        "WorkspaceRestoreFailedToStart: session/message/edit queued-only edits are not implemented"
    );
    let mut events = checks();
    events.extend([
        EditEvent::Exported(Some(export())),
        EditEvent::ModelResolved(model()),
        EditEvent::RecordsCreated(EditRecords::Pair(ids())),
        EditEvent::RestorePlanned(Some(9)),
        EditEvent::Written(Some("full".to_string())),
        EditEvent::Written(None),
    ]);
    let seen = run(request(), events);
    assert_eq!(
        seen[seen.len() - 2..],
        ["InternalError: failed to persist message edit record: full", "Ignore"]
    );
    let mut events = checks();
    events.push(EditEvent::Exported(Some(export())));
    events.push(EditEvent::ModelResolved(model()));
    events.push(EditEvent::RecordsCreated(EditRecords::WrongCount));
    assert_eq!(
        last(events),
        "InternalError: session/message/edit did not create the expected durable records"
    );
}

#[test]
fn running_turns_are_interrupted_for_their_own_message() {
    let until = |history_items: Vec<HistoryItem>| {
        run(
            request(),
            vec![
                EditEvent::Content(EditContent::Ready),
                EditEvent::SessionFound(true),
                EditEvent::ActiveTurn(Some(turn(2))),
                EditEvent::History(history_items),
            ],
        )
        .pop()
        .expect("an action")
    };
    assert_eq!(
        until(vec![history(11, 1, true), history(21, 2, true)]),
        "InterruptTurn { turn: TurnId { raw: 2 } }"
    );
    assert_eq!(
        until(vec![history(21, 1, true), history(31, 2, true)]),
        "ExpectedTargetMessageMismatch: expected target message does not match the current editable message"
    );
    assert_eq!(
        until(vec![history(12, 1, false)]),
        "OlderMessageRequiresFork: no immediately previous user message is available to edit"
    );
}

#[test]
fn only_the_last_message_is_edited() {
    let target = choose_edit_target(&request(), &export()).expect("target");
    assert_eq!((target.item, target.turn), (item(21), turn(2)));
    let refused = |request: EditRequest, session: SessionExport| {
        choose_edit_target(&request, &session).unwrap_err().code
    };
    let other = EditRequest { target: Some(item(11)), ..request() };
    assert_eq!(refused(other, export()), ErrorCode::ExpectedTargetMessageMismatch);
    assert_eq!(
        refused(request(), SessionExport { turn_active: true, ..export() }),
        ErrorCode::ActiveTurnEditRejected
    );
    assert_eq!(
        refused(request(), SessionExport { items: vec![], ..export() }),
        ErrorCode::OlderMessageRequiresFork
    );
    assert_eq!(
        refused(request(), SessionExport { durable: false, ..export() }),
        ErrorCode::InternalError
    );
    assert_eq!(find_editable_message(&items()), Some(entry(2, 21, true)));
    assert_eq!(find_editable_message(&vec![entry(1, 1, false)]), None);
}

#[test]
fn replaced_turns_leave_the_history() {
    let after = supersede_items(&items(), turn(2), entry(3, 31, true));
    assert_eq!(after, vec![entry(1, 11, true), entry(1, 12, false), entry(3, 31, true)]);
    assert_eq!(count_user_messages(&after), 2);
}

#[test]
fn branches_start_where_the_message_stood() {
    let mut list = vec![history(1, 1, true), history(2, 2, false), history(3, 3, true)];
    assert_eq!(find_latest_user_message(&list), Some(item(3)));
    assert_eq!(find_previous_visible(&list, item(3)), Some(item(2)));
    list[1].tree_visible = false;
    assert_eq!(find_previous_visible(&list, item(3)), Some(item(1)));
    assert_eq!(find_previous_visible(&list, item(1)), None);
    assert_eq!(find_branch_parent(Some(item(9)), &list, item(3)), Some(item(9)));
    assert_eq!(find_branch_parent(None, &list, item(3)), Some(item(1)));
}

#[test]
fn revisions_guard_edits() {
    let list = vec![history(1, 1, true)];
    assert_eq!(item_revision(&list, item(1)), Some(1));
    assert_eq!(item_revision(&list, item(2)), None);
    assert!(check_revision(1, Some(1)).is_none());
    let why = check_revision(1, Some(2)).unwrap();
    assert_eq!(why.code, ErrorCode::WorkspaceVersionConflict);
    assert_eq!(why.message(), "item revision changed; refetch before editing");
    let why = check_revision(1, None).unwrap();
    assert_eq!(why.code, ErrorCode::InvalidContentParts);
    assert_eq!(why.message(), "item does not exist in the canonical history");
    let message = edited_message(EditMode::Normal, &content(), 1, &ids());
    assert_eq!(message.content, content());
    assert_eq!((message.item, message.turn), (item(31), turn(3)));
    assert_eq!(message.revision, 2);
    assert_eq!(message.entry, MessageEntry::TurnStart);
}

fn call(expected_revision: u32) -> EditCall {
    EditCall {
        item: item(21),
        expected_revision,
        mode: EditMode::Normal,
        restore: RestorePolicy::Skip,
        content: content(),
        key: "k7".to_string(),
    }
}

fn run_call(call: EditCall, events: Vec<EditCallEvent>) -> Vec<String> {
    let show = |action: EditCallAction| match action {
        EditCallAction::Reject(why) => format!("{:?}: {}", why.code, why.message()),
        EditCallAction::Edit(request) => {
            assert_eq!(request.target, Some(item(21)));
            assert_eq!(request.restore, Some(RestorePolicy::Skip));
            assert_eq!(request.content, vec![UserInput::Text("a".to_string())]);
            assert_eq!((request.display.as_str(), request.client.as_deref()), ("a", Some("k7")));
            "Edit".to_string()
        }
        EditCallAction::Answer(message) => {
            assert_eq!(message.content, content());
            format!("{} {}", message.item.raw, message.revision)
        }
        other => format!("{other:?}"),
    };
    let (mut phase, first) = begin_edit_call(&call);
    let mut seen = vec![show(first)];
    for event in events {
        let (next, action) = advance_edit_call(&call, phase, event);
        phase = next;
        seen.push(show(action));
    }
    seen
}

#[test]
fn stale_messages_are_not_edited() {
    let read = |items: Option<Vec<HistoryItem>>| {
        run_call(call(1), vec![EditCallEvent::History(items)]).pop().expect("an action")
    };
    assert_eq!(read(Some(vec![history(21, 1, true)])), "ReadContent");
    assert_eq!(
        read(Some(vec![HistoryItem { revision: 2, ..history(21, 1, true) }])),
        "WorkspaceVersionConflict: item revision changed; refetch before editing"
    );
    let missing = "InvalidContentParts: item does not exist in the canonical history";
    assert_eq!(read(Some(vec![history(22, 1, true)])), missing);
    assert_eq!(read(None), missing);
}

#[test]
fn edits_are_answered_with_the_new_message() {
    let content = || {
        EditCallEvent::Content(Ok(EditedParts {
            input: vec![UserInput::Text("a".to_string())],
            display: "a".to_string(),
        }))
    };
    assert_eq!(
        run_call(call(0), vec![content(), EditCallEvent::Edited(Some(ids()))]),
        ["ReadContent", "Edit", "31 1"]
    );
    assert_eq!(
        run_call(call(0), vec![content(), EditCallEvent::Edited(None)]),
        ["ReadContent", "Edit", "PassOn"]
    );
    assert_eq!(
        run_call(
            call(0),
            vec![EditCallEvent::Content(Err(PartRefusal::Audio("a.wav".to_string())))]
        )[1],
        "InvalidParams: invalid canonical session/message/edit content: \
         unsupported input modality for queue: a.wav"
    );
}
