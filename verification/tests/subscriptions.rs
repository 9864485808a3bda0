use devo_server::paths::Component;
use devo_server::protocol::{ErrorCode, ItemId, SessionId, TurnId};
use devo_server::queue::PendingKind;
use devo_server::session_admin::DeltaChannel;
use devo_server::subscription::{
    advance_create, approval_kind, approval_summary, approval_target, find_seq,
    notification_matches_selectors, prepare_subscription, queue_entry_content, recovery_snapshots,
    selector_stream_id, session_snapshot, subscribes_to_session, waiting_item_head, ApprovalKind,
    ApprovalTarget, CreateAction, CreateEvent, CreatePhase, CreateRequest, DeferredText, EventCursor,
    EventSubscription, NotificationFacts, RecordedItem, ReplayedEvent, StoredEvent, StreamRead,
    StreamSelector, SubscriptionRegistry,
};

fn of_session(raw: u128) -> StreamSelector {
    StreamSelector::Session { session: SessionId { raw }, stream: format!("session:{raw}") }
}

fn path(name: &str) -> Vec<Component> {
    vec![Component::RootDir, Component::Normal(name.to_string())]
}

fn of_list(name: &str) -> StreamSelector {
    StreamSelector::SessionsByCwd { cwd: path(name), stream: format!("sessions:/{name}") }
}

fn of_task(item: &str) -> StreamSelector {
    StreamSelector::BackgroundTask { item: item.to_string() }
}

fn cursor(stream: &str, seq: u64) -> EventCursor {
    EventCursor { stream: stream.to_string(), seq }
}

#[test]
fn notifications_reach_their_subscribers() {
    let selectors = vec![of_session(1), of_list("w"), of_task("t")];
    let facts = |session: Option<u128>, changes_list: bool, cwd: Option<&str>| NotificationFacts {
        session: session.map(|raw| SessionId { raw }),
        changes_list,
        cwd: cwd.map(path),
    };
    assert!(notification_matches_selectors(&selectors, &facts(Some(1), false, None)));
    assert!(!notification_matches_selectors(&selectors, &facts(Some(2), false, Some("w"))));
    assert!(notification_matches_selectors(&selectors, &facts(Some(2), true, Some("w"))));
    assert!(!notification_matches_selectors(&selectors, &facts(None, true, Some("x"))));
    assert!(subscribes_to_session(&selectors, SessionId { raw: 1 }));
    assert!(!subscribes_to_session(&selectors, SessionId { raw: 2 }));
    assert_eq!(selector_stream_id(&selectors[2]), "task:t");
    assert_eq!(selector_stream_id(&selectors[0]), "session:1");
}

fn stored(seqs: &[u64]) -> Vec<StoredEvent> {
    seqs.iter().map(|seq| StoredEvent { seq: *seq, fault: None }).collect()
}

#[test]
fn missed_events_are_sent_again() {
    let selectors = vec![of_session(1), of_session(2)];
    let after = vec![cursor("session:1", 4), cursor("session:1", 9)];
    assert_eq!(find_seq(&after, "session:1"), 4);
    assert_eq!(find_seq(&after, "session:3"), 0);
    let reads = vec![
        StreamRead { barrier: Ok(Some(6)), rows: Ok(stored(&[5, 6])) },
        StreamRead { barrier: Ok(None), rows: Ok(vec![]) },
    ];
    let prepared = prepare_subscription(&selectors, &after, &reads).expect("prepared");
    assert_eq!(
        prepared.replay,
        vec![
            ReplayedEvent { selector: 0, row: 0, seq: 5 },
            ReplayedEvent { selector: 0, row: 1, seq: 6 }
        ]
    );
    let reached: Vec<(&str, u64)> =
        prepared.cursors.iter().map(|cursor| (cursor.stream.as_str(), cursor.seq)).collect();
    assert_eq!(reached, vec![("session:1", 6), ("session:2", 0)]);
}

#[test]
fn unusable_streams_are_refused() {
    let refused = |read: StreamRead| {
        let why =
            prepare_subscription(&vec![of_session(1)], &vec![cursor("session:1", 7)], &vec![read])
                .unwrap_err();
        (why.code(), why.message())
    };
    assert_eq!(
        refused(StreamRead { barrier: Ok(Some(6)), rows: Ok(vec![]) }),
        (
            ErrorCode::CursorExpired,
            "cursor 7 for stream session:1 is past the log barrier 6".to_string()
        )
    );
    assert_eq!(
        refused(StreamRead { barrier: Err("io".to_string()), rows: Ok(vec![]) }),
        (ErrorCode::InternalError, "failed to read stream barrier: io".to_string())
    );
    assert_eq!(
        refused(StreamRead { barrier: Ok(Some(7)), rows: Err("io".to_string()) }),
        (ErrorCode::InternalError, "failed to read event log: io".to_string())
    );
    let broken = vec![
        StoredEvent { seq: 1, fault: None },
        StoredEvent { seq: 2, fault: Some("bad".to_string()) },
        StoredEvent { seq: 3, fault: Some("worse".to_string()) },
    ];
    assert_eq!(
        refused(StreamRead { barrier: Ok(Some(7)), rows: Ok(broken) }),
        (ErrorCode::InternalError, "failed to decode stored event: bad".to_string())
    );
}

#[test]
fn acknowledgements_only_grow() {
    let mut subscription = EventSubscription {
        id: 1,
        connection: 2,
        selectors: vec![of_session(1), of_session(2)],
        acked: vec![],
        last_ack_at: None,
    };
    let barrier = || vec![Ok(Some(10))];
    assert!(subscription.acknowledge(&vec![cursor("session:1", 5)], &barrier(), 100).is_none());
    assert_eq!(find_seq(&subscription.acked, "session:1"), 5);
    assert_eq!(subscription.last_ack_at, Some(100));
    let refused = |subscription: &mut EventSubscription, cursor: EventCursor| {
        let why = subscription.acknowledge(&vec![cursor], &barrier(), 200).expect("refused");
        assert!(why.requires_snapshot());
        (why.code(), why.message())
    };
    assert_eq!(
        refused(&mut subscription, cursor("session:1", 4)),
        (
            ErrorCode::CursorExpired,
            "cursor 4 for stream session:1 is outside (acked 5, barrier 10]".to_string()
        )
    );
    assert_eq!(
        refused(&mut subscription, cursor("session:1", 11)).1,
        "cursor 11 for stream session:1 is outside (acked 5, barrier 10]"
    );
    assert_eq!(
        refused(&mut subscription, cursor("session:3", 1)).1,
        "stream session:3 is not part of the subscription"
    );
    assert_eq!(subscription.last_ack_at, Some(100));
    assert!(subscription.acknowledge(&vec![cursor("session:1", 5)], &barrier(), 300).is_none());
    let two = vec![cursor("session:2", 3), cursor("session:1", 1)];
    assert!(subscription
        .acknowledge(&two, &vec![Ok(Some(10)), Ok(Some(10))], 400)
        .is_some());
    assert_eq!(find_seq(&subscription.acked, "session:2"), 3);
    assert_eq!(find_seq(&subscription.acked, "session:1"), 5);
}

#[test]
fn subscriptions_belong_to_their_connection() {
    let mut registry = SubscriptionRegistry::new();
    registry.insert(1, 4, vec![of_session(1), of_list("w")]);
    registry.insert(2, 5, vec![of_list("x")]);
    assert_eq!(registry.cwd_selector_count(), 2);
    assert!(registry.check_owner(1, 4).is_none());
    let why = registry.check_owner(1, 5).expect("refused");
    assert_eq!(why.code, ErrorCode::InvalidParams);
    assert_eq!(why.message(), "unknown subscription id");
    assert!(registry.update(1, 5, vec![]).is_some());
    assert_eq!(registry.connection_selectors(4).len(), 2);
    assert!(registry.update(1, 4, vec![of_task("t")]).is_none());
    assert_eq!(registry.connection_selectors(4).len(), 1);
    let why = registry
        .acknowledge(1, 5, &vec![cursor("task:t", 1)], &vec![Ok(Some(1))], 0)
        .expect("refused");
    assert_eq!(why.message(), "unknown subscription id");
    assert!(!why.requires_snapshot());
    assert!(registry
        .acknowledge(1, 4, &vec![cursor("task:t", 1)], &vec![Ok(Some(1))], 0)
        .is_none());
    assert!(registry.unsubscribe(9, 4).is_some());
    assert!(registry.unsubscribe(1, 4).is_none());
    assert!(registry.check_owner(1, 4).is_some());
    registry.drop_connection(5);
    assert!(registry.connection_selectors(5).is_empty());
    assert_eq!(registry.cwd_selector_count(), 0);
}

fn create(after: Vec<EventCursor>, events: Vec<CreateEvent>) -> Vec<CreateAction> {
    let request = CreateRequest {
        subscription: 5,
        selectors: vec![of_session(1), of_session(2)],
        after,
        with_snapshots: true,
    };
    let mut phase = CreatePhase::Connection;
    let mut seen = Vec::new();
    for event in events {
        let (next, action) = advance_create(&request, phase, event);
        phase = next;
        seen.push(action);
    }
    seen
}

fn streams() -> CreateEvent {
    CreateEvent::Streams(vec![
        StreamRead { barrier: Ok(Some(6)), rows: Ok(stored(&[5, 6])) },
        StreamRead { barrier: Ok(Some(3)), rows: Ok(vec![]) },
    ])
}

#[test]
fn snapshots_come_before_delivery() {
    let mut seen = create(
        vec![cursor("session:1", 4)],
        vec![
            CreateEvent::Connection(true),
            streams(),
            CreateEvent::Snapshot(None),
            CreateEvent::Snapshot(None),
            CreateEvent::Done,
            CreateEvent::Done,
            CreateEvent::Done,
            CreateEvent::Done,
        ],
    );
    let Some(CreateAction::Answer(prepared)) = seen.pop() else { panic!("no answer") };
    assert_eq!(prepared.replay.len(), 2);
    assert_eq!(find_seq(&prepared.cursors, "session:1"), 6);
    assert_eq!(find_seq(&prepared.cursors, "session:2"), 3);
    let names: Vec<String> = seen.iter().map(|action| format!("{action:?}")).collect();
    assert_eq!(
        names,
        [
            "ReadStreams",
            "BuildSnapshot { place: 0, barrier: 6 }",
            "BuildSnapshot { place: 1, barrier: 3 }",
            "ReadControls",
            "ReadRecovery",
            "Register(5)",
            "ReissueControls"
        ]
    );
    let refused = |after: Vec<EventCursor>, events: Vec<CreateEvent>| {
        match create(after, events).pop() {
            Some(CreateAction::Reject(why)) => (why.message(), why.requires_snapshot()),
            other => panic!("not refused: {other:?}"),
        }
    };
    assert_eq!(
        refused(vec![], vec![CreateEvent::Connection(false)]),
        ("connection is not registered".to_string(), false)
    );
    assert_eq!(
        refused(
            vec![],
            vec![
                CreateEvent::Connection(true),
                streams(),
                CreateEvent::Snapshot(Some("broken".to_string())),
            ]
        ),
        ("broken".to_string(), false)
    );
    assert_eq!(
        refused(vec![cursor("session:1", 7)], vec![CreateEvent::Connection(true), streams()]),
        ("cursor 7 for stream session:1 is past the log barrier 6".to_string(), true)
    );
    let short = CreateEvent::Streams(vec![]);
    assert!(matches!(
        create(vec![], vec![CreateEvent::Connection(true), short]).pop(),
        Some(CreateAction::Ignore)
    ));
}

#[test]
fn waiting_approvals_are_shown_again() {
    assert_eq!(approval_kind(true, true), ApprovalKind::Command);
    assert_eq!(approval_kind(false, true), ApprovalKind::FileChange);
    assert_eq!(approval_kind(false, false), ApprovalKind::Permission);
    let text = |value: &str| Some(value.to_string());
    assert!(matches!(
        approval_target(text("p"), text("h"), text("c")),
        Some(ApprovalTarget::Path(path)) if path == "p"
    ));
    assert!(matches!(approval_target(None, text("h"), text("c")), Some(ApprovalTarget::Host(_))));
    assert!(matches!(approval_target(None, None, text("c")), Some(ApprovalTarget::Command(_))));
    assert!(approval_target(None, None, None).is_none());
    assert_eq!(approval_summary(None, "shell".to_string()), "shell");
    assert_eq!(approval_summary(text("ls"), "shell".to_string()), "ls");
    let recorded = RecordedItem { item: ItemId { raw: 1 }, seq: 6, created_at: 50 };
    let head = waiting_item_head(Some(recorded), ItemId { raw: 2 }, 99);
    assert_eq!((head.item, head.seq, head.created_at, head.updated_at), (ItemId { raw: 1 }, 6, 50, 99));
    let head = waiting_item_head(None, ItemId { raw: 2 }, 99);
    assert_eq!((head.item, head.seq, head.created_at, head.revision), (ItemId { raw: 2 }, 0, 99, 1));
}

#[test]
fn running_turns_are_recovered() {
    let deferred = |raw: u128| {
        Some(DeferredText { item: ItemId { raw }, seq: raw as u64, text: format!("text {raw}") })
    };
    let items =
        recovery_snapshots(SessionId { raw: 1 }, Some(TurnId { raw: 2 }), deferred(3), deferred(4));
    assert_eq!(items.len(), 2);
    assert_eq!((items[0].seq, items[0].channel), (3, DeltaChannel::AssistantMessage));
    assert_eq!((items[1].text.as_str(), items[1].channel), ("text 4", DeltaChannel::Reasoning));
    assert!(recovery_snapshots(SessionId { raw: 1 }, None, deferred(3), None).is_empty());
    assert_eq!(
        queue_entry_content(&PendingKind::UserText("a\nb".to_string())),
        (Some("a\nb".to_string()), "a".to_string())
    );
    assert_eq!(queue_entry_content(&PendingKind::Other), (None, String::new()));
}

#[test]
fn snapshots_need_a_history() {
    assert_eq!(session_snapshot(false, Err("unused".to_string()), None), Ok(false));
    assert_eq!(
        session_snapshot(true, Err("io".to_string()), None),
        Err(("failed to read session history: ", "io".to_string()))
    );
    assert_eq!(
        session_snapshot(true, Ok(true), Some("io".to_string())),
        Err(("failed to read session queue: ", "io".to_string()))
    );
    assert_eq!(session_snapshot(true, Ok(true), None), Ok(true));
}

#[test]
fn streams_are_swapped_only_where_all_can_be_read() {
    let mut registry = SubscriptionRegistry::new();
    registry.insert(1, 4, vec![of_session(1)]);
    let read = |barrier: Result<Option<u64>, String>| StreamRead { barrier, rows: Ok(vec![]) };
    let why = registry
        .resubscribe(1, 5, vec![of_session(2)], &vec![read(Ok(None))])
        .unwrap_err();
    assert_eq!(why.message(), "unknown subscription id");
    let why = registry
        .resubscribe(1, 4, vec![of_session(2)], &vec![read(Err("io".to_string()))])
        .unwrap_err();
    assert_eq!(why.message(), "failed to read stream barrier: io");
    assert!(subscribes_to_session(&registry.connection_selectors(4), SessionId { raw: 1 }));
    let prepared = registry
        .resubscribe(1, 4, vec![of_session(2)], &vec![read(Ok(Some(6)))])
        .expect("swapped");
    assert_eq!(prepared.cursors[0].seq, 6);
    assert!(subscribes_to_session(&registry.connection_selectors(4), SessionId { raw: 2 }));
    assert!(!subscribes_to_session(&registry.connection_selectors(4), SessionId { raw: 1 }));
}
