use devo_server::compaction::UsageTotals;
use devo_server::inputs::UserInput;
use devo_server::message_edit::SessionItem;
use devo_server::paths::Component;
use devo_server::protocol::{ErrorCode, ItemId, SessionId, TurnId};
use devo_server::schedule::{
    change_of, dispatch_due_schedule_jobs, heartbeat_change, push_for_job, refuse_schedule_change,
    refuse_schedule_list, DueJob, HeartbeatAction, ScheduleChange, ScheduleRequest,
};
use devo_server::session_admin::{
    advance_change, advance_interrupt, begin_change, begin_interrupt, find_turn,
    live_item_snapshot, next_version, validate_session_cwd, ChangeAction, ChangeEvent, ChangeKind,
    ChangedSession, CwdError, DeltaChannel, InterruptAction, InterruptEvent, InterruptScope, PathFound,
};
use devo_server::session_fork::{
    advance_durable_fork, fork_lineage, fork_runtime_session, keep_output_references, line_failure,
    rollback_mode_of, write_kept_history, DurableForkAction, DurableForkEvent, DurableForkPhase,
    ForkCopy, ForkCut, ForkLine, ForkOptions,
};
use devo_server::session_metadata::{CollaborationMode, LoadFailure, PermissionPreset};
use devo_server::session_tree::{
    advance_navigate, branch_summary, resolve_target, BranchSummary, NavigateAction, NavigateEvent,
    NavigatePhase, NavigateRequest, TreeItem,
};
use devo_server::sessions::{
    advance_fork, advance_new_session, advance_resume, advance_start_session, begin_fork,
    begin_new_session, begin_start_session, check_session_read, initial_title_state, live_session_fields,
    native_session_from_index_metadata, requested_model, resume_measures, session_lineage, shown_provider, ForkAction, ForkEvent,
    ForkOutcome, ForkRequest, ForkedSession, IndexLineage, IndexedEffort, IndexedSession,
    NewSessionAction, NewSessionEvent, ResumeAction,
    ResumeEvent, ResumePhase, SessionStatus, StartFacts, StartSessionAction,
    StartSessionEvent, StartSessionRequest, StoredStats, TitleState,
};
use devo_server::turn_cut::{ContextOccupancy, CutError, CutSource, RollbackMode};

fn turn(raw: u128) -> TurnId {
    TurnId { raw }
}

fn item(raw: u128) -> ItemId {
    ItemId { raw }
}

fn session(raw: u128) -> SessionId {
    SessionId { raw }
}

fn start_request(ephemeral: bool) -> StartSessionRequest {
    StartSessionRequest {
        session: session(9),
        cwd: vec![Component::RootDir, Component::Normal("w".to_string())],
        directories: vec![],
        title: Some("work".to_string()),
        ephemeral,
        model: Some("m".to_string()),
        binding: Some("b".to_string()),
        now: 40,
    }
}

fn start_facts() -> StartSessionEvent {
    StartSessionEvent::Resolved(StartFacts {
        model: "slug".to_string(),
        binding: None,
        window: 900,
        preset: PermissionPreset::AutoReview,
    })
}

fn start_session(ephemeral: bool, events: Vec<StartSessionEvent>) -> Vec<StartSessionAction> {
    let (mut phase, first) = begin_start_session(start_request(ephemeral));
    let mut seen = vec![first];
    for event in events {
        let (next, action) = advance_start_session(phase, event);
        phase = next;
        seen.push(action);
    }
    seen
}

#[test]
fn sessions_are_recorded_first() {
    let mut seen = start_session(
        false,
        vec![
            StartSessionEvent::Workspace(None),
            start_facts(),
            StartSessionEvent::Written(None),
            StartSessionEvent::Done,
            StartSessionEvent::Done,
            StartSessionEvent::Done,
            StartSessionEvent::Written(None),
            StartSessionEvent::Done,
            StartSessionEvent::Done,
        ],
    );
    assert!(matches!(seen[0], StartSessionAction::OpenWorkspace));
    assert!(matches!(
        &seen[1],
        StartSessionAction::ResolveModel(Some(wanted)) if wanted == "b"
    ));
    assert!(matches!(seen[2], StartSessionAction::AppendMeta));
    assert!(matches!(seen[3], StartSessionAction::InsertSession));
    assert!(matches!(seen[4], StartSessionAction::Subscribe(SessionId { raw: 9 })));
    let Some(StartSessionAction::Answer(summary)) = seen.pop() else { panic!("no answer") };
    assert_eq!(summary.session, session(9));
    assert_eq!(summary.model.as_deref(), Some("slug"));
    assert_eq!(summary.binding, None);
    assert_eq!((summary.window, summary.preset), (Some(900), Some(PermissionPreset::AutoReview)));
    assert_eq!(summary.title_state, TitleState::ExplicitCreate);
    assert_eq!((summary.created_at, summary.updated_at), (40, 40));
    assert_eq!((summary.status, summary.totals.total), (SessionStatus::Idle, 0));
    assert!(summary.parent.is_none() && summary.fork_from.is_none());

    let refused = |events: Vec<StartSessionEvent>| match start_session(false, events).pop() {
        Some(StartSessionAction::Reject(why)) => why.message(),
        other => panic!("not refused: {other:?}"),
    };
    assert_eq!(
        refused(vec![
            StartSessionEvent::Workspace(None),
            start_facts(),
            StartSessionEvent::Written(Some("full".to_string()))
        ]),
        "failed to persist session metadata: full"
    );
    assert_eq!(
        refused(vec![StartSessionEvent::Workspace(Some("gone".to_string()))]),
        "failed to initialize session workspace: gone"
    );
    assert!(matches!(
        start_session(true, vec![StartSessionEvent::Workspace(None), start_facts()]).pop(),
        Some(StartSessionAction::InsertSession)
    ));
    let named = |name: &str| Some(name.to_string());
    assert_eq!(requested_model(&named("b"), &named("m")), named("b"));
    assert_eq!(requested_model(&None, &named("m")), named("m"));
    assert_eq!(requested_model(&None, &None), None);
    assert_eq!(initial_title_state(true), TitleState::ExplicitCreate);
}

fn indexed(parent: Option<u128>, role: Option<&str>) -> IndexedSession {
    IndexedSession {
        session: session(3),
        cwd: vec![Component::RootDir],
        directories: vec![],
        lineage: IndexLineage {
            parent: parent.map(session),
            fork_from: None,
            agent_path: false,
            agent_role: role.map(str::to_owned),
            agent_nickname: false,
        },
        fork_at: Some(turn(4)),
        ephemeral: true,
        title: Some("work".to_string()),
        title_state: TitleState::ExplicitCreate,
        model: None,
        binding: None,
        effort: Some(IndexedEffort { level: None, shown: "odd".to_string() }),
        preset: None,
        mode: CollaborationMode::Plan,
        totals: UsageTotals { input: 1, output: 2, total: 3, cache_creation: 4, cache_read: 5 },
        created_at: 10,
        updated_at: 11,
        last_activity_at: 12,
    }
}

#[test]
fn indexed_sessions_are_shown() {
    let shown = native_session_from_index_metadata(indexed(Some(8), None));
    assert_eq!((shown.session, shown.version), (session(3), 1));
    assert_eq!((shown.parent, shown.fork_from), (None, Some(session(8))));
    assert_eq!((shown.provider.as_str(), shown.model.as_str()), ("unknown", ""));
    assert_eq!((shown.level, shown.effort), (None, Some("odd".to_string())));
    assert_eq!(shown.permission, PermissionPreset::AutoReview);
    assert_eq!((shown.status, shown.archived, shown.queued), (SessionStatus::Idle, false, 0));
    assert_eq!((shown.mode, shown.totals.cache_read), (CollaborationMode::Plan, 5));
    assert_eq!((shown.created_at, shown.updated_at, shown.last_activity_at), (10, 11, 12));
    let agents = native_session_from_index_metadata(indexed(Some(8), Some("scout")));
    assert_eq!(agents.parent, Some((session(8), Some("scout".to_string()))));
    assert_eq!(agents.fork_from, None);
    let bound = IndexedSession {
        binding: Some("b".to_string()),
        model: Some("m".to_string()),
        ..indexed(None, None)
    };
    let bound = native_session_from_index_metadata(bound);
    assert_eq!((bound.provider.as_str(), bound.model.as_str()), ("b", "m"));
}

#[test]
fn repeated_requests_find_their_session() {
    let (phase, action) = begin_new_session(Some(session(3)));
    assert_eq!(action, NewSessionAction::ReadSnapshot(session(3)));
    assert_eq!(
        advance_new_session(phase, NewSessionEvent::SnapshotRead(true)).1,
        NewSessionAction::AnswerSnapshot
    );
    assert_eq!(
        advance_new_session(phase, NewSessionEvent::SnapshotRead(false)).1,
        NewSessionAction::Start
    );
    let (phase, action) = begin_new_session(None);
    assert_eq!(action, NewSessionAction::Start);
    assert_eq!(
        advance_new_session(phase, NewSessionEvent::Started(None)).1,
        NewSessionAction::PassOn
    );
    assert_eq!(
        advance_new_session(phase, NewSessionEvent::Started(Some(session(4)))).1,
        NewSessionAction::Subscribe(session(4))
    );
}

fn lineage(parent: Option<u128>, fork_from: Option<u128>, role: Option<&str>) -> IndexLineage {
    IndexLineage {
        parent: parent.map(session),
        fork_from: fork_from.map(session),
        agent_path: false,
        agent_role: role.map(str::to_owned),
        agent_nickname: false,
    }
}

#[test]
fn lineages_tell_agents_from_copies() {
    assert_eq!(session_lineage(lineage(Some(1), None, None)), (None, Some(session(1))));
    assert_eq!(
        session_lineage(lineage(Some(1), None, Some("scout"))),
        (Some((session(1), Some("scout".to_string()))), None)
    );
    assert_eq!(
        session_lineage(lineage(Some(1), Some(2), Some("scout"))).1,
        Some(session(2))
    );
    assert_eq!(session_lineage(lineage(None, None, Some("scout"))), (None, None));
    assert_eq!(shown_provider(None), "unknown");
    assert_eq!(live_session_fields(Some(turn(1))), (SessionStatus::Active, Some(turn(1))));
    assert_eq!(live_session_fields(None), (SessionStatus::Idle, None));
    let why = check_session_read(false, true).expect("refused");
    assert_eq!(why.message(), "session id is not addressable by this server");
    assert!(check_session_read(true, false).is_some());
    assert!(check_session_read(true, true).is_none());
}

fn resume(brings_tools: bool, events: Vec<ResumeEvent>) -> Vec<String> {
    let mut phase = ResumePhase::Loaded;
    let mut seen = Vec::new();
    for event in events {
        let (next, action) = advance_resume(brings_tools, phase, event);
        phase = next;
        seen.push(match action {
            ResumeAction::Reject(why) => why.message(),
            other => format!("{other:?}"),
        });
    }
    seen
}

#[test]
fn sessions_are_resumed_where_they_were() {
    let seen = resume(
        true,
        vec![
            ResumeEvent::Loaded(None),
            ResumeEvent::Done,
            ResumeEvent::DirectoryMatches(true),
            ResumeEvent::ToolsReplaced(true),
            ResumeEvent::SnapshotRead(true),
            ResumeEvent::Done,
            ResumeEvent::Done,
            ResumeEvent::Done,
        ],
    );
    let at = |name: &str| seen.iter().position(|action| action == name).expect("done");
    assert!(at("ReadDirectory") < at("ReplaceTools"));
    assert!(at("ReplaceTools") < at("Subscribe"));
    assert_eq!(seen.last().unwrap(), "Answer");
    let seen = resume(
        true,
        vec![ResumeEvent::Loaded(None), ResumeEvent::Done, ResumeEvent::DirectoryMatches(false)],
    );
    assert_eq!(seen[2], "session cwd does not match the stored session cwd");
    let refused = |failure: LoadFailure| {
        resume(false, vec![ResumeEvent::Loaded(Some(failure))]).pop().expect("an action")
    };
    assert_eq!(
        refused(LoadFailure::Subagent("p1".to_string())),
        "subagent sessions cannot be resumed directly; resume the parent session p1 instead"
    );
    assert_eq!(
        refused(LoadFailure::RolloutMissing),
        "session metadata exists but rollout file is missing; session cannot be restored"
    );
    assert_eq!(
        refused(LoadFailure::RestoreFailed("io".to_string())),
        "failed to restore session: io"
    );
    assert_eq!(refused(LoadFailure::NotFound), "session does not exist");
}

fn occupancy(total: u64) -> ContextOccupancy {
    ContextOccupancy {
        window_tokens: 100,
        base_tokens: 0,
        skill_tokens: 0,
        builtin_tool_tokens: 0,
        mcp_tool_tokens: 0,
        conversation_tokens: total,
        total_tokens: total,
    }
}

#[test]
fn stored_measures_come_first() {
    let stats = |occupancy: Option<ContextOccupancy>| {
        Some(StoredStats { occupancy, prompt_token_estimate: 7 })
    };
    assert_eq!(
        resume_measures(stats(Some(occupancy(3))), Some(occupancy(4))),
        (Some(occupancy(3)), Some(3))
    );
    assert_eq!(resume_measures(stats(None), Some(occupancy(0))), (Some(occupancy(0)), Some(7)));
    assert_eq!(resume_measures(None, Some(occupancy(0))), (Some(occupancy(0)), None));
    assert_eq!(resume_measures(None, None), (None, None));
}

fn history() -> Vec<SessionItem> {
    [(1u128, 11u128, true), (1, 12, false), (2, 21, true)]
        .iter()
        .map(|(t, i, user_message)| SessionItem {
            turn: turn(*t),
            item: item(*i),
            user_message: *user_message,
        })
        .collect()
}

fn fork(at_turn: Option<Option<u128>>, events: Vec<ForkEvent>) -> Vec<String> {
    let show = |action: ForkAction| match action {
        ForkAction::Reject(why) => format!("{:?}: {}", why.code, why.message()),
        ForkAction::CreateFork(options) => {
            assert_eq!((options.source, options.cut), (session(7), ForkCut::Through));
            assert_eq!(options.at_turn, at_turn.flatten().map(turn));
            format!("CreateFork({:?})", options.index)
        }
        other => format!("{other:?}"),
    };
    let request = ForkRequest {
        session: session(7),
        addressable: true,
        cut: None,
        at_turn: at_turn.map(|at| at.map(turn)),
    };
    let (mut phase, first) = begin_fork(request);
    let mut seen = vec![show(first)];
    for event in events {
        let (next, action) = advance_fork(request, phase, event);
        phase = next;
        seen.push(show(action));
    }
    seen
}

#[test]
fn copies_are_cut_at_the_named_turn() {
    let until = |at: u128, active: Option<u128>| {
        fork(
            Some(Some(at)),
            vec![
                ForkEvent::SessionFound(true),
                ForkEvent::Exported(Some(history())),
                ForkEvent::ActiveTurn(active.map(turn)),
            ],
        )
        .pop()
        .expect("an action")
    };
    assert_eq!(until(2, None), "CreateFork(Some(1))");
    assert_eq!(until(1, Some(2)), "CreateFork(Some(0))");
    assert_eq!(until(2, Some(2)), "ForkTurnNotStable: atTurnId names an in-progress turn");
    assert_eq!(
        until(3, None),
        "ForkTurnNotFound: atTurnId does not name a user turn in this session"
    );
    assert_eq!(
        fork(Some(None), vec![]),
        ["ForkTurnNotFound: turn id is not addressable by this server"]
    );
    let whole = fork(
        None,
        vec![
            ForkEvent::ActiveTurn(Some(turn(2))),
            ForkEvent::Done,
            ForkEvent::SessionFound(true),
            ForkEvent::Exported(Some(history())),
            ForkEvent::Created(ForkOutcome::Failed("selected turn does not exist".to_string())),
        ],
    );
    assert_eq!(whole[1], "InterruptTurn");
    assert_eq!(whole[4], "CreateFork(None)");
    assert_eq!(whole[5], "InvalidParams: selected turn does not exist");
    let failed = fork(
        Some(Some(1)),
        vec![
            ForkEvent::SessionFound(true),
            ForkEvent::Exported(Some(history())),
            ForkEvent::ActiveTurn(None),
            ForkEvent::Created(ForkOutcome::Failed("disk full".to_string())),
        ],
    );
    assert_eq!(failed[4], "InternalError: disk full");
    let copied = fork(
        Some(Some(1)),
        vec![
            ForkEvent::SessionFound(true),
            ForkEvent::Exported(Some(history())),
            ForkEvent::ActiveTurn(None),
            ForkEvent::Created(ForkOutcome::Created(ForkedSession {
                session: session(12),
                kept: true,
                occupancy: None,
                prompt_token_estimate: 30,
            })),
            ForkEvent::Done,
            ForkEvent::Done,
            ForkEvent::Done,
            ForkEvent::Written(None),
        ],
    );
    assert_eq!(copied[5], "Subscribe(SessionId { raw: 12 })");
    assert_eq!(
        copied[8],
        "UpdateStats(SessionId { raw: 12 }, \
         StoredStats { occupancy: None, prompt_token_estimate: 30 })"
    );
}

#[test]
fn copies_are_complete() {
    assert_eq!(
        write_kept_history(&history(), &vec![turn(2), turn(1)], Some(turn(2))),
        vec![
            ForkLine::Turn(turn(1)),
            ForkLine::Item { place: 0, seq: 1 },
            ForkLine::Item { place: 1, seq: 2 },
            ForkLine::Turn(turn(2)),
            ForkLine::Item { place: 2, seq: 3 },
            ForkLine::Compaction,
        ]
    );
    assert_eq!(
        write_kept_history(&history()[..1].to_vec(), &vec![], Some(turn(2))),
        vec![ForkLine::Item { place: 0, seq: 1 }]
    );
    assert_eq!(line_failure(ForkLine::Compaction), None);
    let texts = |list: &[&str]| list.iter().map(|text| text.to_string()).collect::<Vec<_>>();
    assert_eq!(
        keep_output_references(&texts(&["a", "c"]), &texts(&["c", "b", "a", "c"])),
        vec![0, 2, 3]
    );
    assert_eq!(rollback_mode_of(ForkCut::Before), RollbackMode::BeforeUserTurn);
    let lineage = fork_lineage(session(1), Some(turn(2)));
    assert_eq!(lineage.fork_from, Some(session(1)));
    assert_eq!(lineage.at_turn, Some(turn(2)));
}

fn copy(durable: bool, has_context: bool) -> DurableForkEvent {
    DurableForkEvent::Cut(Ok(ForkCopy {
        durable,
        has_context,
        items: history(),
        known: vec![turn(2)],
        compaction: Some(turn(2)),
        calls: vec!["c1".to_string()],
    }))
}

fn write_fork(source_durable: bool, events: Vec<DurableForkEvent>) -> Vec<DurableForkAction> {
    let mut phase = DurableForkPhase::Cut;
    let mut seen = Vec::new();
    for event in events {
        let (next, action) = advance_durable_fork(source_durable, phase, event);
        phase = next;
        seen.push(action);
    }
    seen
}

#[test]
fn copies_are_written_in_order() {
    let written = || DurableForkEvent::Written(None);
    let last = |source_durable: bool, events: Vec<DurableForkEvent>| {
        write_fork(source_durable, events).pop().expect("an action")
    };
    assert!(matches!(
        last(false, vec![copy(false, true)]),
        DurableForkAction::Created(false)
    ));
    let seen = write_fork(false, vec![copy(true, true), written(), written(), written()]);
    assert!(matches!(seen[0], DurableForkAction::AppendMeta));
    assert!(matches!(seen[1], DurableForkAction::AppendContext));
    assert!(matches!(
        &seen[2],
        DurableForkAction::WriteHistory(lines)
            if *lines == write_kept_history(&history(), &vec![turn(2)], Some(turn(2)))
                && lines.len() == 5
    ));
    assert!(matches!(seen[3], DurableForkAction::Created(true)));
    let outputs = ["c0", "c1"].map(|call| call.to_string()).to_vec();
    let seen = write_fork(
        true,
        vec![
            copy(true, false),
            written(),
            written(),
            DurableForkEvent::References(Ok(outputs)),
            written(),
        ],
    );
    assert!(matches!(&seen[3], DurableForkAction::AppendReferences(places) if *places == [1]));
    assert!(matches!(seen[4], DurableForkAction::Created(false)));
    assert!(matches!(
        last(
            true,
            vec![
                copy(true, false),
                written(),
                written(),
                DurableForkEvent::References(Err("io".to_string()))
            ]
        ),
        DurableForkAction::Fail("failed to read fork output references: ", _)
    ));
    assert!(matches!(
        last(true, vec![DurableForkEvent::Cut(Err("no such turn".to_string()))]),
        DurableForkAction::Fail("", message) if message == "no such turn"
    ));
    assert!(matches!(
        last(true, vec![copy(true, false), DurableForkEvent::Written(Some("full".to_string()))]),
        DurableForkAction::Fail("failed to persist forked session metadata: ", _)
    ));
}

#[test]
fn copies_name_their_source() {
    let source = CutSource {
        items: history(),
        records: vec![],
        compaction: None,
        latest: None,
        cwd: vec![Component::RootDir],
        title: Some("work".to_string()),
        model: None,
        binding: None,
        default_model: "small".to_string(),
        ephemeral: false,
        created_at: 1,
        updated_at: 2,
        now: 3,
    };
    let options = |index: u32| ForkOptions {
        source: session(7),
        at_turn: Some(turn(1)),
        index: Some(index),
        cut: ForkCut::Through,
        title: Some("copy".to_string()),
        cwd: None,
    };
    let unopened = Err("not asked for".to_string());
    let copy = fork_runtime_session(&source, options(0), &unopened).expect("copied");
    assert_eq!(copy.items, history()[..2]);
    assert_eq!((copy.parent, copy.fork_from), (None, Some(session(7))));
    assert_eq!(copy.fork_at, Some(turn(1)));
    assert_eq!(copy.title.as_deref(), Some("copy"));
    assert_eq!(copy.created_at, 3);
    assert_eq!(
        fork_runtime_session(&source, options(9), &unopened).unwrap_err(),
        CutError::TurnMissing
    );
}

#[test]
fn moves_in_the_tree_are_numbered() {
    let run = |summary: Option<ItemId>, events: Vec<NavigateEvent>| {
        let request = NavigateRequest {
            entry: item(4),
            shown: "e4".to_string(),
            summary: summary.map(|item| BranchSummary {
                item,
                custom: Some("Try again.".to_string()),
                replace: false,
            }),
        };
        let mut phase = NavigatePhase::ActiveTurn;
        let mut seen = Vec::new();
        for event in events {
            let (next, action) = advance_navigate(&request, phase, event);
            phase = next;
            seen.push(match action {
                NavigateAction::Reject(why) => why.message(),
                other => format!("{other:?}"),
            });
        }
        seen
    };
    let tree = || vec![TreeItem { id: item(4), parent: Some(item(3)), message: None }];
    let seen = run(
        Some(item(9)),
        vec![
            NavigateEvent::TurnActive(false),
            NavigateEvent::History(Ok((tree(), 6))),
            NavigateEvent::RolloutFound(true),
            NavigateEvent::Written(None),
            NavigateEvent::Written(None),
            NavigateEvent::Written(None),
            NavigateEvent::Written(None),
            NavigateEvent::Done,
        ],
    );
    assert_eq!(
        seen[2..7],
        [
            "AppendLeaf(Some(ItemId { raw: 4 }), 7)",
            "AppendEdge(ItemId { raw: 9 }, Some(ItemId { raw: 4 }))",
            "AppendSummary { item: ItemId { raw: 9 }, parent: Some(ItemId { raw: 4 }), \
             text: \"Branched from previous path.\\nTry again.\" }",
            "AppendLeaf(Some(ItemId { raw: 9 }), 8)",
            "SetTip(Some(ItemId { raw: 9 }), 8)"
        ]
    );
    assert_eq!(
        seen[7],
        "Answer { leaf: Some(ItemId { raw: 9 }), text: None, \
         summary: Some((ItemId { raw: 9 }, \"Branched from previous path.\\nTry again.\")) }"
    );
    assert_eq!(
        run(None, vec![NavigateEvent::TurnActive(true)]),
        ["cannot navigate the session tree while a turn is active"]
    );
    assert_eq!(
        run(
            None,
            vec![
                NavigateEvent::TurnActive(false),
                NavigateEvent::History(Ok((vec![], 0)))
            ]
        )[1],
        "tree entry not found: e4"
    );
}

#[test]
fn messages_are_taken_back_for_editing() {
    let items = vec![
        TreeItem { id: item(1), parent: None, message: None },
        TreeItem {
            id: item(2),
            parent: Some(item(1)),
            message: Some(vec![
                UserInput::Text("a".to_string()),
                UserInput::Other(0),
                UserInput::Text("b".to_string()),
            ]),
        },
    ];
    let target = resolve_target(&items, item(2)).expect("target");
    assert_eq!(target.leaf, Some(item(1)));
    assert_eq!(target.text.as_deref(), Some("a\nb"));
    let target = resolve_target(&items, item(1)).expect("target");
    assert_eq!(target.leaf, Some(item(1)));
    assert!(resolve_target(&items, item(3)).is_none());
    assert_eq!(branch_summary(None, true), "Branched from previous path.");
    assert_eq!(branch_summary(Some("why"), false), "Branched from previous path.\nwhy");
    assert_eq!(branch_summary(Some("why"), true), "why");
}

#[test]
fn schedules_change_for_a_reason() {
    assert_eq!(change_of(ScheduleRequest::Delete), ScheduleChange::Deleted);
    let why =
        refuse_schedule_change(ScheduleRequest::Update, "job not found: j1".to_string());
    assert_eq!(why.code, ErrorCode::InvalidParams);
    assert_eq!(why.message(), "job not found: j1");
    let why = refuse_schedule_change(ScheduleRequest::Upsert, "io".to_string());
    assert_eq!(why.code, ErrorCode::InternalError);
    assert_eq!(why.message(), "failed to upsert schedule: io");
    assert_eq!(refuse_schedule_list("io".to_string()).message(), "failed to list schedules: io");
    assert_eq!(heartbeat_change(HeartbeatAction::Begin, true), Some(ScheduleChange::Upserted));
    assert_eq!(heartbeat_change(HeartbeatAction::Begin, false), None);
    assert_eq!(heartbeat_change(HeartbeatAction::Status, true), None);
}

#[test]
fn due_jobs_are_pushed_under_their_own_keys() {
    let job = |prompt: Option<&str>, instruction: Option<&str>| DueJob {
        id: "j1".to_string(),
        prompt: prompt.map(str::to_owned),
        instruction: instruction.map(str::to_owned),
    };
    assert_eq!(
        push_for_job(&job(Some("go"), Some("unused")), 0xff),
        (
            "go".to_string(),
            "schedule:j1:00000000-0000-0000-0000-0000000000ff".to_string()
        )
    );
    let pushes = dispatch_due_schedule_jobs(&vec![job(None, Some("do")), job(None, None)]);
    assert_eq!(pushes[0].0, "do");
    assert_eq!(pushes[1].0, "Scheduled heartbeat.");
    assert!(pushes.iter().all(|(_, key)| key.starts_with("schedule:j1:") && key.len() == 48));
    assert_ne!(pushes[0].1, pushes[1].1);
}

fn place(version: u64) -> ChangedSession {
    ChangedSession { cwd: "/old".to_string(), archived: false, version, durable: true }
}

fn moves() -> ChangeKind {
    ChangeKind::Cwd("/w".to_string())
}

fn change(kind: ChangeKind, events: Vec<ChangeEvent>) -> Vec<String> {
    let show = |action: ChangeAction| match action {
        ChangeAction::Reject(why) => why.message(),
        other => format!("{other:?}"),
    };
    let (mut phase, first) = begin_change(&kind);
    let mut seen = vec![show(first)];
    for event in events {
        let (next, action) = advance_change(&kind, phase, event);
        phase = next;
        seen.push(show(action));
    }
    seen
}

#[test]
fn unrecorded_changes_stay_silent() {
    let opening = || {
        vec![
            ChangeEvent::Directory(PathFound::Directory, "/w".to_string()),
            ChangeEvent::Workspace(None),
            ChangeEvent::Loaded(true),
            ChangeEvent::Profile(Some(PermissionPreset::Default)),
            ChangeEvent::Done,
            ChangeEvent::Done,
            ChangeEvent::Read(Some(place(4))),
        ]
    };
    let mut events = opening();
    events.extend([ChangeEvent::Written(None), ChangeEvent::Done, ChangeEvent::Done]);
    assert_eq!(
        change(moves(), events)[4..],
        [
            "ApplyProfile(Default)",
            "Move(\"/w\")",
            "ReadSession",
            "AppendMeta",
            "UpdateIndex",
            "Announce",
            "Answer(ChangedSession { cwd: \"/w\", archived: false, version: 5, durable: true })"
        ]
    );
    let mut events = opening();
    events.extend([ChangeEvent::Written(Some("full".to_string())), ChangeEvent::Done]);
    assert_eq!(
        change(moves(), events)[8..],
        ["failed to persist session cwd change: full", "Ignore"]
    );
    assert_eq!(
        change(
            moves(),
            vec![ChangeEvent::Directory(PathFound::Denied, "/w".to_string())]
        )[1],
        "cwd is not readable: /w"
    );
    assert_eq!(
        change(
            moves(),
            vec![ChangeEvent::Directory(PathFound::Other, "/w".to_string())]
        )[1],
        "cwd is not an accessible directory: /w"
    );
    assert_eq!(
        change(
            ChangeKind::Archive(true),
            vec![
                ChangeEvent::Loaded(true),
                ChangeEvent::Read(Some(place(4))),
                ChangeEvent::Written(Some("full".to_string()))
            ]
        )[3],
        "failed to persist session archive: full"
    );
    assert_eq!(validate_session_cwd(PathFound::Denied), Err(CwdError::Denied));
    assert_eq!(validate_session_cwd(PathFound::Unreadable), Err(CwdError::Invalid));
    assert_eq!(validate_session_cwd(PathFound::Directory), Ok(()));
}

#[test]
fn turns_and_live_items_are_found() {
    assert_eq!(find_turn(&vec![turn(1), turn(2)], turn(2)).unwrap(), 1);
    let why = find_turn(&vec![turn(1)], turn(2)).unwrap_err();
    assert_eq!((why.code, why.message()), (ErrorCode::TurnNotFound, "turn does not exist".to_string()));
    let live = live_item_snapshot(
        session(1),
        turn(2),
        item(3),
        4,
        DeltaChannel::Reasoning,
        "so far".to_string(),
    );
    assert_eq!((live.seq, live.revision, live.next_chunk), (4, 1, 0));
    assert_eq!(next_version(1), 2);
    assert_eq!(next_version(u64::MAX), u64::MAX);
}

#[test]
fn interrupts_say_whether_anything_ended() {
    let run = |scope: InterruptScope, events: Vec<InterruptEvent>| {
        let (mut phase, first) = begin_interrupt(scope);
        let mut last = first;
        for event in events {
            let (next, action) = advance_interrupt(phase, event);
            phase = next;
            last = action;
        }
        last
    };
    let until = |active: Option<u128>, rest: Vec<InterruptEvent>| {
        let mut events = vec![
            InterruptEvent::SessionFound(true),
            InterruptEvent::ActiveTurn(active.map(turn)),
        ];
        events.extend(rest);
        run(InterruptScope::Session, events)
    };
    assert!(matches!(
        until(
            None,
            vec![InterruptEvent::SavedTurnCanceled(Ok(false)), InterruptEvent::TasksEnded(0)]
        ),
        InterruptAction::Answer(false)
    ));
    assert!(matches!(
        until(
            None,
            vec![InterruptEvent::SavedTurnCanceled(Ok(false)), InterruptEvent::TasksEnded(2)]
        ),
        InterruptAction::Answer(true)
    ));
    assert!(matches!(
        until(
            Some(1),
            vec![InterruptEvent::TurnInterrupted(true), InterruptEvent::TasksEnded(0)]
        ),
        InterruptAction::Answer(true)
    ));
    assert!(matches!(
        until(Some(1), vec![InterruptEvent::TurnInterrupted(false)]),
        InterruptAction::Reject(why) if why.message() == "failed to interrupt active session turn"
    ));
    assert!(matches!(
        run(InterruptScope::Task, vec![InterruptEvent::Delegated(false)]),
        InterruptAction::PassOn
    ));
    assert!(matches!(
        run(InterruptScope::Command, vec![InterruptEvent::Delegated(true)]),
        InterruptAction::Answer(true)
    ));
}
