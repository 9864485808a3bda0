use devo_server::inputs::{PartRefusal, ResolvedInput, UserInput};
use devo_server::message_edit::{InputResolution, SkillFailure};
use devo_server::protocol::{ErrorCode, ItemId, Rejection, TurnId};
use devo_server::session_metadata::CollaborationMode;
use devo_server::turn_start::QueuePolicy;
use devo_server::queue::{
    check_queue_input, check_resolution, decide_steer, degraded_entry,
    native_queue_entries, preview, push_to_queue, pushed_position, pushed_preview,
    remove_from_queue, update_queue, PendingItem, PendingKind, PushOutcome,
    QueueRequest, SteerDecision, SteeredTurn,
};
use devo_server::queue_requests::{
    advance_push, advance_queue_change, advance_steer, PushAction, PushEvent, PushPhase,
    PushRequest, QueueChangeAction, QueueChangeEvent, QueueChangePhase, QueueChangeRequest,
    QueueEdit, SteerAction, SteerEvent, SteerFacts, SteerPhase, SteerRequest,
};

fn text(content: &str) -> UserInput {
    UserInput::Text(content.to_string())
}

fn item(id: u128) -> PendingItem {
    PendingItem { id, kind: PendingKind::UserText(format!("text {id}")), metadata: None, created_at: id as i64 }
}

fn resolved() -> ResolvedInput {
    ResolvedInput {
        text: "go now".to_string(),
        messages: vec![],
        images: vec!["/tmp/a.png".to_string()],
    }
}

fn queue(ids: &[u128]) -> Vec<PendingItem> {
    ids.iter().map(|id| item(*id)).collect()
}

fn order(queue: &[PendingItem]) -> Vec<u128> {
    queue.iter().map(|item| item.id).collect()
}

fn told(why: Rejection) -> (ErrorCode, String) {
    (why.code, why.message())
}

#[test]
fn entries_show_the_start_of_their_text() {
    assert_eq!(preview("one\ntwo"), "one\ntwo");
    let entries = native_queue_entries(&vec![PendingItem {
        id: 1,
        kind: PendingKind::UserText("ab\ncd".to_string()),
        metadata: None,
        created_at: 0,
    }]);
    assert_eq!(entries.len(), 1);
    assert_eq!((entries[0].position, entries[0].preview.as_str()), (1, "ab\ncd"));
    assert_eq!(preview(&"\u{e9}".repeat(100)), "\u{e9}".repeat(80));
    assert_eq!(preview(&"x".repeat(80)), "x".repeat(80));
    let entries = native_queue_entries(&vec![
        item(4),
        PendingItem {
            id: 5,
            kind: PendingKind::UserInput {
                input: vec![UserInput::Other(1), text("b")],
                display: "shown\r\nhidden".to_string(),
                resolved: resolved(),
            },
            metadata: None,
            created_at: 50,
        },
        PendingItem { id: 6, kind: PendingKind::Other, metadata: None, created_at: 60 },
    ]);
    assert_eq!(entries[0].position, 1);
    assert_eq!(entries[0].input, vec![text("text 4")]);
    assert_eq!(entries[0].preview, "text 4");
    assert_eq!((entries[1].id, entries[1].position, entries[1].enqueued_at), (5, 2, 50));
    assert_eq!(entries[1].preview, "shown\r\nhidden");
    assert_eq!(entries[1].input.len(), 2);
    assert_eq!(entries[2].preview, "");
    assert!(entries[2].input.is_empty());
}

#[test]
fn entries_move_and_nothing_is_lost() {
    for (position, expected, place) in [
        (1u32, vec![3u128, 1, 2, 4], 1u64),
        (0, vec![3, 1, 2, 4], 1),
        (2, vec![1, 3, 2, 4], 2),
        (3, vec![1, 2, 3, 4], 3),
        (4, vec![1, 2, 4, 3], 4),
        (99, vec![1, 2, 4, 3], 4),
    ] {
        let mut list = queue(&[1, 2, 3, 4]);
        let entry = update_queue(&mut list, 3, None, Some(position)).expect("moved");
        assert_eq!(order(&list), expected);
        assert_eq!(entry.position, place);
    }
    let mut list = queue(&[1, 2]);
    let entry =
        update_queue(&mut list, 2, Some(PendingKind::UserText("new".to_string())), None).unwrap();
    assert_eq!(entry.preview, "new");
    assert_eq!(order(&list), vec![1, 2]);
    assert_eq!(entry.enqueued_at, 2);
    let why = update_queue(&mut list, 9, None, Some(1)).unwrap_err();
    assert_eq!(
        told(why),
        (ErrorCode::QueueItemNotFound, "queue item is no longer queued".to_string())
    );
}

#[test]
fn entries_come_and_go() {
    let mut list = queue(&[1, 2]);
    assert_eq!(push_to_queue(&mut list, item(3)).position, 3);
    assert!(remove_from_queue(&mut list, 2).is_ok());
    assert_eq!(order(&list), vec![1, 3]);
    assert!(remove_from_queue(&mut list, 2).is_err());
    let lost = degraded_entry(&list, &item(8));
    assert_eq!((lost.id, lost.position, lost.preview.as_str()), (8, 2, "text 8"));
    let found = degraded_entry(&list, &list[1]);
    assert_eq!((found.id, found.position, found.preview.as_str()), (3, 2, "text 3"));
    assert_eq!(pushed_position(Some(4)), 4);
    assert_eq!(
        pushed_preview(&vec![UserInput::Other(1), text("first\nmore"), text("second")]),
        "first"
    );
    assert_eq!(pushed_preview(&vec![UserInput::Other(1)]), "");
}

#[test]
fn queue_inputs_are_checked() {
    let check = |request: QueueRequest| {
        told(check_queue_input(request, &Ok(vec![])).expect("refused"))
    };
    assert_eq!(
        check(QueueRequest::Push),
        (ErrorCode::EmptyInput, "queue push input is empty".to_string())
    );
    assert_eq!(
        check(QueueRequest::Update),
        (ErrorCode::EmptyInput, "queue update input is empty".to_string())
    );
    assert_eq!(
        check(QueueRequest::Steer),
        (ErrorCode::EmptyInput, "turn/steer input is empty".to_string())
    );
    assert!(check_queue_input(QueueRequest::Push, &Ok(vec![text("a")])).is_none());
    let refused = Err(PartRefusal::Audio("a.wav".to_string()));
    assert_eq!(
        told(check_queue_input(QueueRequest::Push, &refused).expect("refused")),
        (
            ErrorCode::InvalidParams,
            "unsupported input modality for queue: a.wav".to_string()
        )
    );
    let failed = || InputResolution::Failed(SkillFailure::Disabled, "off".to_string());
    let steer = check_resolution(QueueRequest::Steer, failed()).expect_err("refused");
    assert_eq!(steer.code, SkillFailure::Disabled.error_code());
    assert_eq!(steer.message(), "failed to resolve turn/steer input: off");
    assert_eq!(
        told(check_resolution(QueueRequest::Update, failed()).expect_err("refused")),
        (ErrorCode::InvalidParams, "failed to resolve queue update input: off".to_string())
    );
    let ready = check_resolution(QueueRequest::Push, InputResolution::Ready(resolved()));
    let taken = ready.expect("taken");
    assert_eq!(taken.text, "go now");
    assert_eq!(taken.prompts(), ["go now"]);
    let several = ResolvedInput { messages: vec!["a".to_string(), "b".to_string()], ..taken };
    assert_eq!(several.prompts(), ["a", "b"]);
}

fn push(key: Option<&str>, events: Vec<PushEvent>) -> Vec<String> {
    let request = PushRequest {
        input: vec![UserInput::Other(1), text("first\nmore")],
        key: key.map(str::to_owned),
    };
    let mut phase = PushPhase::Input;
    let mut seen = Vec::new();
    for event in events {
        let (next, action) = advance_push(&request, phase, event);
        phase = next;
        seen.push(match action {
            PushAction::Reject(why) => why.message(),
            PushAction::Admit(asked) => {
                assert_eq!(asked.input, vec![text("go")]);
                assert_eq!(asked.policy, QueuePolicy::Queue);
                assert_eq!(asked.mode, CollaborationMode::Build);
                assert!(asked.choice.model.is_none() && asked.choice.binding.is_none());
                "Admit".to_string()
            }
            PushAction::AnswerQueued(entry) => {
                assert_eq!(entry.input, request.input);
                format!(
                    "{} {} {} {}",
                    entry.id, entry.position, entry.preview, entry.enqueued_at
                )
            }
            other => format!("{other:?}"),
        });
    }
    seen
}

#[test]
fn pushes_are_answered() {
    let input = || PushEvent::Input(Ok(vec![text("go")]));
    let queued = || PushEvent::Admitted(PushOutcome::Queued(4));
    assert_eq!(
        push(
            Some("k1"),
            vec![
                input(),
                queued(),
                PushEvent::Done,
                PushEvent::Placed(Some(3), 99),
                PushEvent::Done
            ]
        ),
        ["Admit", "NoteKey(4, \"k1\")", "ReadLength", "Announce(4)", "4 3 first 99"]
    );
    assert_eq!(
        push(None, vec![input(), queued(), PushEvent::Placed(None, 7), PushEvent::Done])[1..],
        ["ReadLength", "Announce(4)", "4 1 first 7"]
    );
    assert_eq!(
        push(None, vec![input(), PushEvent::Admitted(PushOutcome::Started)])[1],
        "AnswerStarted"
    );
    assert_eq!(
        push(None, vec![input(), PushEvent::Admitted(PushOutcome::Unknown)])[1],
        "unexpected turn/start outcome for queue push"
    );
    assert_eq!(push(None, vec![PushEvent::Input(Ok(vec![]))]), ["queue push input is empty"]);
}

const TURN: TurnId = TurnId { raw: 3 };

#[test]
fn steers_reach_the_expected_turn() {
    let active = |id: u128, regular: bool| Some(SteeredTurn { id: TurnId { raw: id }, regular });
    assert!(matches!(decide_steer(active(3, true), TURN), SteerDecision::Inject(TURN)));
    assert!(matches!(decide_steer(None, TURN), SteerDecision::Degrade));
    let refused = |active: Option<SteeredTurn>| match decide_steer(active, TURN) {
        SteerDecision::Reject(why) => told(why),
        other => panic!("not refused: {other:?}"),
    };
    assert_eq!(
        refused(active(4, false)),
        (
            ErrorCode::ExpectedTurnMismatch,
            "active turn did not match expectedTurnId".to_string()
        )
    );
    assert_eq!(
        refused(active(3, false)),
        (ErrorCode::ActiveTurnNotSteerable, "cannot steer a non-regular turn".to_string())
    );
}

fn steer(events: Vec<SteerEvent>) -> Vec<SteerAction> {
    let request = SteerRequest { expected: TURN, entry: 9, now: 50 };
    let mut phase = SteerPhase::Input;
    let mut seen = Vec::new();
    for event in events {
        let (next, action) = advance_steer(&request, phase, event);
        phase = next;
        seen.push(action);
    }
    seen
}

fn is_sent(item: &PendingItem) -> bool {
    let PendingKind::UserInput { input, display, resolved } = &item.kind else {
        return false;
    };
    item.id == 9
        && item.created_at == 50
        && *input == vec![text("go"), UserInput::Other(2)]
        && display == "go on"
        && resolved.text == "go now"
        && resolved.images == ["/tmp/a.png"]
}

#[test]
fn steered_messages_are_kept() {
    let facts = |active: Option<SteeredTurn>, ephemeral: bool| SteerFacts { active, ephemeral };
    let running = Some(SteeredTurn { id: TURN, regular: true });
    let input = || SteerEvent::Input(Ok(vec![text("go"), UserInput::Other(2)]));
    let rendered = || SteerEvent::Rendered(Some("go on".to_string()));
    let until = |facts: SteerFacts| {
        vec![
            input(),
            rendered(),
            SteerEvent::Session(Some(facts)),
            SteerEvent::Resolved(InputResolution::Ready(resolved())),
        ]
    };
    let mut events = until(facts(running, false));
    events.extend([
        SteerEvent::Done,
        SteerEvent::Written(Some("full".to_string())),
        SteerEvent::Item(ItemId { raw: 8 }),
        SteerEvent::Done,
    ]);
    let seen = steer(events);
    assert!(matches!(&seen[3], SteerAction::PushSteer(item) if is_sent(item)));
    assert!(matches!(seen[4], SteerAction::PersistSteer(9)));
    assert!(matches!(&seen[5], SteerAction::RecordItem(TURN, shown) if shown == "go on"));
    assert!(matches!(seen[6], SteerAction::Notify(TURN)));
    assert!(matches!(seen[7], SteerAction::AnswerInjected(ItemId { raw: 8 })));
    let mut events = until(facts(None, true));
    events.extend([SteerEvent::Done, SteerEvent::Queue(queue(&[4, 9])), SteerEvent::Done]);
    let seen = steer(events);
    assert!(matches!(&seen[3], SteerAction::PushTurn(item) if is_sent(item)));
    assert!(matches!(seen[4], SteerAction::ReadQueue));
    assert!(matches!(seen[5], SteerAction::Announce(9)));
    assert!(matches!(
        &seen[6],
        SteerAction::AnswerDegraded(entry) if entry.id == 9 && entry.position == 2
    ));
    let mut events = until(facts(None, false));
    events.extend([
        SteerEvent::Done,
        SteerEvent::Written(None),
        SteerEvent::Queue(queue(&[4])),
        SteerEvent::Done,
    ]);
    let seen = steer(events);
    assert!(matches!(seen[4], SteerAction::PersistTurn(9)));
    assert!(matches!(
        &seen[7],
        SteerAction::AnswerDegraded(entry)
            if entry.id == 9 && entry.position == 1 && entry.preview == "go on"
                && entry.input.len() == 2
    ));
    let refused = |events: Vec<SteerEvent>| match steer(events).pop() {
        Some(SteerAction::Reject(why)) => told(why),
        other => panic!("not refused: {other:?}"),
    };
    assert_eq!(
        refused(vec![SteerEvent::Input(Err(PartRefusal::Audio("a.wav".to_string())))]),
        (ErrorCode::InvalidParams, "unsupported input modality for queue: a.wav".to_string())
    );
    assert_eq!(refused(vec![input(), SteerEvent::Rendered(None)]).0, ErrorCode::EmptyInput);
    assert_eq!(
        refused(vec![input(), rendered(), SteerEvent::Session(None)]).0,
        ErrorCode::SessionNotFound
    );
}

fn change(edit: QueueEdit, events: Vec<QueueChangeEvent>) -> Vec<String> {
    let request = QueueChangeRequest { entry: 7, edit };
    let mut phase = QueueChangePhase::Session;
    let mut seen = Vec::new();
    for event in events {
        let (next, action) = advance_queue_change(request, phase, event);
        phase = next;
        seen.push(match action {
            QueueChangeAction::Reject(why) => why.message(),
            QueueChangeAction::AnswerUpdated(entry) => {
                format!("{} {} {}", entry.id, entry.position, entry.preview)
            }
            other => format!("{other:?}"),
        });
    }
    seen
}

fn updated() -> QueueChangeEvent {
    let mut list = queue(&[1, 7]);
    QueueChangeEvent::Updated(update_queue(&mut list, 7, None, Some(1)).ok())
}

#[test]
fn queue_changes_are_saved_and_told() {
    let moves = QueueEdit::Update { has_input: false, position: Some(1) };
    assert_eq!(
        change(
            moves,
            vec![
                QueueChangeEvent::Session(Some(false)),
                updated(),
                QueueChangeEvent::Written(Some("full".to_string())),
                QueueChangeEvent::Written(None),
                QueueChangeEvent::Done,
            ]
        ),
        [
            "Update { entry: 7, kind: None, position: Some(1) }",
            "PersistContent(7)",
            "PersistOrder",
            "Announce(Updated, 7)",
            "7 1 text 7"
        ]
    );
    let edits = QueueEdit::Update { has_input: true, position: None };
    let found =
        |resolution: InputResolution| QueueChangeEvent::Resolved(resolution, "go on".to_string());
    assert_eq!(
        change(
            edits,
            vec![
                QueueChangeEvent::Session(Some(true)),
                QueueChangeEvent::Input(Ok(vec![text("go")])),
                found(InputResolution::Ready(resolved())),
                updated(),
                QueueChangeEvent::Done,
            ]
        ),
        [
            "CheckInput",
            "Resolve",
            "Update { entry: 7, kind: Some(UserInput { input: [Text(\"go\")], \
             display: \"go on\", resolved: ResolvedInput { text: \"go now\", messages: [], \
             images: [\"/tmp/a.png\"] } }), position: None }",
            "Announce(Updated, 7)",
            "7 1 text 7"
        ]
    );
    assert_eq!(
        change(
            edits,
            vec![
                QueueChangeEvent::Session(Some(true)),
                QueueChangeEvent::Input(Ok(vec![text("go")])),
                found(InputResolution::Empty),
                updated(),
            ]
        )[2..],
        ["queue update input is empty", "Ignore"]
    );
    assert_eq!(change(moves, vec![QueueChangeEvent::Session(None)]), ["session does not exist"]);
    assert_eq!(
        change(
            moves,
            vec![QueueChangeEvent::Session(Some(false)), QueueChangeEvent::Updated(None)]
        )[1],
        "queue item is no longer queued"
    );
    assert_eq!(
        change(
            edits,
            vec![QueueChangeEvent::Session(Some(true)), QueueChangeEvent::Input(Ok(vec![]))]
        )[1],
        "queue update input is empty"
    );
    assert_eq!(
        change(
            QueueEdit::Remove,
            vec![
                QueueChangeEvent::Session(Some(false)),
                QueueChangeEvent::Removed(true),
                QueueChangeEvent::Written(None),
                QueueChangeEvent::Done,
            ]
        ),
        ["Remove(7)", "PersistRemoval(7)", "Announce(Removed, 7)", "AnswerRemoved"]
    );
    assert_eq!(
        change(
            QueueEdit::Remove,
            vec![QueueChangeEvent::Session(Some(true)), QueueChangeEvent::Removed(false)]
        )[1],
        "queue item is no longer queued"
    );
}
