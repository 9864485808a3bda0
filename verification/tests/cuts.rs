use devo_server::message_edit::SessionItem;
use devo_server::paths::Component;
use devo_server::protocol::{ItemId, TurnId};
use devo_server::sessions::SessionStatus;
use devo_server::turn_cut::{
    build_runtime_session_from_user_turn_cut, dropped_turn_ids, history_fingerprint,
    kept_items_for_user_turn_cut, resolve_cut_occupancy_and_usage, retained_ids, same_fingerprint,
    user_turn_ids, CompactionSnapshot, ContextOccupancy, CutError, CutOptions, CutSession,
    CutSource, LatestTurn, RollbackMode, StandIn, TurnRecord, TurnUsage,
};

fn turn(raw: u128) -> TurnId {
    TurnId { raw }
}

fn user_item(turn_id: TurnId, item: u128) -> SessionItem {
    SessionItem { turn: turn_id, item: ItemId { raw: item }, user_message: true }
}

fn assistant_item(turn_id: TurnId, item: u128) -> SessionItem {
    SessionItem { turn: turn_id, item: ItemId { raw: item }, user_message: false }
}

fn two_turns() -> Vec<SessionItem> {
    vec![
        user_item(turn(1), 11),
        assistant_item(turn(1), 12),
        user_item(turn(2), 21),
        assistant_item(turn(2), 22),
    ]
}

#[test]
fn kept_items_for_user_turn_cut_keeps_selected_turn_in_legacy_mode() {
    let items = two_turns();
    let kept = kept_items_for_user_turn_cut(&items, Some(1), RollbackMode::ThroughUserTurn)
        .expect("keep selected turn");
    assert_eq!(kept, items);
}

#[test]
fn kept_items_for_user_turn_cut_can_drop_selected_turn() {
    let items = two_turns();
    let kept = kept_items_for_user_turn_cut(&items, Some(1), RollbackMode::BeforeUserTurn)
        .expect("drop selected turn");
    assert_eq!(kept, items[..2]);
}

#[test]
fn kept_items_for_user_turn_cut_can_drop_the_first_turn() {
    let items = vec![user_item(turn(1), 11), assistant_item(turn(1), 12)];
    let kept = kept_items_for_user_turn_cut(&items, Some(0), RollbackMode::BeforeUserTurn)
        .expect("drop first turn");
    assert_eq!(kept, Vec::new());
}

fn occupancy(base: u64, conversation: u64) -> ContextOccupancy {
    ContextOccupancy {
        window_tokens: 100_000,
        base_tokens: base,
        skill_tokens: 0,
        builtin_tool_tokens: 0,
        mcp_tool_tokens: 0,
        conversation_tokens: conversation,
        total_tokens: base + conversation,
    }
}

fn usage(input_tokens: u32, output_tokens: u32) -> TurnUsage {
    TurnUsage {
        input_tokens,
        output_tokens,
        display_total: u64::from(input_tokens) + u64::from(output_tokens),
    }
}

#[test]
fn cut_occupancy_uses_cut_turn_not_tip() {
    let turn_a = turn(1);
    let turn_b = turn(2);
    let occupancy_a = occupancy(10_000, 20_000);
    let occupancy_b = occupancy(10_000, 80_000);
    let records = vec![
        TurnRecord {
            turn: turn_a,
            occupancy: Some(occupancy_a),
            latest_query_usage: Some(usage(30, 5)),
            usage: Some(usage(30, 5)),
        },
        TurnRecord {
            turn: turn_b,
            occupancy: Some(occupancy_b),
            latest_query_usage: Some(usage(90, 10)),
            usage: None,
        },
    ];

    let kept = vec![turn_a];
    let cut = resolve_cut_occupancy_and_usage(&kept, Some(turn_a), &records, None);
    assert_eq!(cut.occupancy, Some(occupancy_a));
    assert_eq!(cut.usage.map(|u| u.input_tokens), Some(30));
    assert!(cut.compaction.is_none());

    let tip_only_snapshot = CompactionSnapshot {
        turn: turn_b,
        summary_item: ItemId { raw: 77 },
        occupancy: Some(occupancy_b),
    };
    let cut =
        resolve_cut_occupancy_and_usage(&kept, Some(turn_a), &records, Some(tip_only_snapshot));
    assert_eq!(cut.occupancy, Some(occupancy_a));
    assert_eq!(cut.usage.map(|u| u.input_tokens), Some(30));
    assert!(cut.compaction.is_none());

    let kept_all = vec![turn_a, turn_b];
    let compact_occupancy = occupancy(10_000, 5_000);
    let snapshot = CompactionSnapshot {
        turn: turn_b,
        summary_item: ItemId { raw: 78 },
        occupancy: Some(compact_occupancy),
    };
    let cut = resolve_cut_occupancy_and_usage(&kept_all, Some(turn_b), &records, Some(snapshot));
    assert_eq!(cut.occupancy, Some(compact_occupancy));
    assert_eq!(cut.usage.map(|u| u.input_tokens), Some(90));
    assert_eq!(cut.compaction.as_ref().map(|s| s.turn), Some(turn_b));
}

#[test]
fn missing_turns_cannot_be_cut() {
    let items = two_turns();
    for mode in [RollbackMode::ThroughUserTurn, RollbackMode::BeforeUserTurn] {
        let error = kept_items_for_user_turn_cut(&items, Some(2), mode).unwrap_err();
        assert_eq!(error, CutError::TurnMissing);
        assert_eq!(error.message(), "selected turn does not exist");
        assert_eq!(kept_items_for_user_turn_cut(&items, None, mode), Ok(items.clone()));
    }
}

#[test]
fn turns_are_counted_by_their_messages() {
    let items = vec![
        assistant_item(turn(9), 1),
        user_item(turn(1), 2),
        user_item(turn(1), 3),
        user_item(turn(2), 4),
        user_item(turn(1), 5),
    ];
    assert_eq!(user_turn_ids(&items), vec![turn(1), turn(2), turn(1)]);
    let kept = |index: u32| {
        kept_items_for_user_turn_cut(&items, Some(index), RollbackMode::ThroughUserTurn).unwrap()
    };
    assert_eq!(kept(0), items[..3]);
    assert_eq!(kept(1), items[..4]);
    assert_eq!(kept(2), items[..3]);
}

#[test]
fn dropped_turns_are_listed_once() {
    let items = two_turns();
    assert_eq!(dropped_turn_ids(&items, &items), vec![]);
    assert_eq!(dropped_turn_ids(&items, &items[..2].to_vec()), vec![turn(2)]);
    assert_eq!(dropped_turn_ids(&items, &vec![]), vec![turn(1), turn(2)]);
    let (turns, kept) = retained_ids(&items[..2].to_vec());
    assert_eq!(turns, vec![turn(1)]);
    assert_eq!(kept, vec![ItemId { raw: 11 }, ItemId { raw: 12 }]);
}

#[test]
fn histories_are_told_apart() {
    let items = two_turns();
    let whole = history_fingerprint(&items);
    assert_eq!(whole[2], (turn(2), ItemId { raw: 21 }));
    assert!(same_fingerprint(&whole, &history_fingerprint(&items)));
    assert!(!same_fingerprint(&whole, &history_fingerprint(&items[..3].to_vec())));
}

fn record(id: u128, tokens: u32) -> TurnRecord {
    TurnRecord {
        turn: turn(id),
        occupancy: Some(occupancy(1, u64::from(tokens))),
        latest_query_usage: None,
        usage: Some(usage(tokens, 1)),
    }
}

fn path(name: &str) -> Vec<Component> {
    vec![Component::RootDir, Component::Normal(name.to_string())]
}

fn source() -> CutSource {
    CutSource {
        items: two_turns(),
        records: vec![record(1, 10), record(2, 20)],
        compaction: None,
        latest: Some(turn(2)),
        cwd: path("a"),
        title: Some("work".to_string()),
        model: None,
        binding: Some("bound".to_string()),
        default_model: "small".to_string(),
        ephemeral: false,
        created_at: 100,
        updated_at: 200,
        now: 300,
    }
}

fn options(index: Option<u32>, mode: RollbackMode) -> CutOptions {
    CutOptions { index, mode, cwd: None, title: None, created_at: 150 }
}

fn cut(index: Option<u32>, mode: RollbackMode) -> CutSession {
    let unopened = Err("not asked for".to_string());
    build_runtime_session_from_user_turn_cut(&source(), &options(index, mode), &unopened)
        .expect("cut")
}

#[test]
fn cut_sessions_are_measured_again() {
    let items = two_turns();
    let part = cut(Some(1), RollbackMode::BeforeUserTurn);
    assert_eq!(part.items, items[..2]);
    assert_eq!(part.turn_count, 1);
    assert_eq!(part.loaded_item_count, 2);
    assert_eq!(part.next_item_seq, 5);
    assert_eq!(part.records, vec![record(1, 10)]);
    assert_eq!(part.measures.occupancy, Some(occupancy(1, 10)));
    assert_eq!((part.totals.total, part.last_input_tokens, part.last_turn_tokens), (0, 0, 0));
    assert_eq!(
        part.latest_turn,
        LatestTurn::Synthetic(StandIn {
            turn: turn(1),
            sequence: 1,
            usage: Some(usage(10, 1)),
            model: "small".to_string(),
            selection: "bound".to_string(),
            started_at: 100,
            completed_at: 200,
        })
    );
    assert_eq!((part.created_at, part.updated_at, part.last_activity_at), (150, 300, 300));
    assert_eq!(part.title.as_deref(), Some("work"));
    assert_eq!(format!("{:?}", part.cwd), format!("{:?}", path("a")));
    assert_eq!((part.status, part.active), (SessionStatus::Idle, None));
    let whole = cut(None, RollbackMode::ThroughUserTurn);
    assert_eq!(whole.latest_turn, LatestTurn::AsInSource);
    let empty = cut(Some(0), RollbackMode::BeforeUserTurn);
    assert_eq!(empty.latest_turn, LatestTurn::Absent);
    assert_eq!(empty.measures.occupancy, None);
}

#[test]
fn cuts_may_lead_to_another_directory() {
    let elsewhere = CutOptions {
        cwd: Some(path("b")),
        title: Some("copy".to_string()),
        ..options(Some(0), RollbackMode::ThroughUserTurn)
    };
    let opened = Ok("large".to_string());
    let moved = build_runtime_session_from_user_turn_cut(&source(), &elsewhere, &opened).unwrap();
    assert_eq!(format!("{:?}", moved.cwd), format!("{:?}", path("b")));
    assert_eq!(moved.title.as_deref(), Some("copy"));
    assert!(matches!(
        moved.latest_turn,
        LatestTurn::Synthetic(StandIn { model, .. }) if model == "large"
    ));
    let closed = Err("no such directory".to_string());
    let error =
        build_runtime_session_from_user_turn_cut(&source(), &elsewhere, &closed).unwrap_err();
    assert_eq!(error, CutError::Workspace("no such directory".to_string()));
    assert_eq!(
        error.message(),
        "failed to initialize session workspace: no such directory"
    );
    let missing = CutOptions { index: Some(9), ..elsewhere };
    assert_eq!(
        build_runtime_session_from_user_turn_cut(&source(), &missing, &closed).unwrap_err(),
        CutError::TurnMissing
    );
}
