use devo_server::message_edit::SessionItem;
use devo_server::paths::Component;
use devo_server::protocol::{ErrorCode, ItemId, Rejection, SessionId, TurnId};
use devo_server::rollback::{
    advance_attempt, recovery_action, rollback_record, rolled_back_session, status_for_retry,
    AffectedFile, AttemptAction, AttemptEnd,
    AttemptEvent, AttemptPhase, CommitAction, CommitResult, CommitSource, CommitStart, FileOutcome,
    PlanStatus,
    PlanStore, RestoreFailure, RestoreRecord, StoredPlan, RESTORE_PLAN_STORE_LIMIT,
    RESTORE_PLAN_TOMBSTONE_TTL, RESTORE_PLAN_TTL,
};
use devo_server::rollback_preview::{
    advance_preview, choose_checkpoint, plan_from_draft, CheckpointFailure, CheckpointRecord,
    PlanDraft, PreviewAction, PreviewEvent, PreviewPhase, PreviewRequest,
};
use devo_server::rollback_workspace::{
    advance_commit_restore, begin_commit_restore, restore_completed_record, restored_file_count,
    CommitRestore, CommitRestoreAction, CommitRestoreEvent, CommitRestorePhase,
};
use devo_server::turn_cut::{history_fingerprint, CutSource, LatestTurn, RollbackMode};
use devo_server::workspace_restore::FileStatus;

fn items() -> Vec<SessionItem> {
    vec![SessionItem { turn: TurnId { raw: 1 }, item: ItemId { raw: 2 }, user_message: true }]
}

fn checkpoint(turn: u128, id: &str, backend: Option<&str>) -> CheckpointRecord {
    CheckpointRecord {
        turn: TurnId { raw: turn },
        id: id.to_string(),
        backend: backend.map(str::to_owned),
        workspace_root: Some("/w".to_string()),
    }
}

fn request() -> PreviewRequest {
    PreviewRequest {
        connection: 4,
        session: SessionId { raw: 7 },
        user_turn_index: 0,
        mode: RollbackMode::BeforeUserTurn,
    }
}

fn file(name: &str) -> AffectedFile {
    AffectedFile {
        path: vec![Component::Normal(name.to_string())],
        shown: format!("./{name}"),
    }
}

fn plan(id: u128, with_files: bool) -> StoredPlan {
    let draft = if with_files {
        PlanDraft {
            checkpoint: Some(checkpoint(1, "c1", Some("git_ghost_commit"))),
            workspace_version: Some("v1".to_string()),
            affected_files: Some(vec![file("a"), file("b")]),
            dropped_turns: 1,
            fingerprint: history_fingerprint(&items()),
        }
    } else {
        PlanDraft {
            checkpoint: None,
            workspace_version: None,
            affected_files: None,
            dropped_turns: 1,
            fingerprint: history_fingerprint(&items()),
        }
    };
    plan_from_draft(request(), id, draft)
}

fn refused(start: CommitStart) -> (ErrorCode, String) {
    match start {
        CommitStart::Reject(why) => (why.code, why.message()),
        other => panic!("not refused: {other:?}"),
    }
}

#[test]
fn plans_belong_to_their_connection_and_expire() {
    let mut store = PlanStore::new();
    assert!(store.insert(plan(1, true), 1_000).is_none());
    let missing = (ErrorCode::RestorePlanNotFound, "restore plan does not exist".to_string());
    assert_eq!(refused(store.begin_commit(2, 4, 1_000, "v1")), missing);
    assert_eq!(refused(store.begin_commit(1, 5, 1_000, "v1")), missing);
    assert_eq!(
        refused(store.begin_commit(1, 4, 1_000, "v2")),
        (
            ErrorCode::WorkspaceVersionConflict,
            "expected workspace version does not match the restore plan".to_string()
        )
    );
    assert_eq!(
        refused(store.begin_commit(1, 4, 1_001 + RESTORE_PLAN_TTL, "v1")),
        (ErrorCode::RestorePlanExpired, "restore plan has expired".to_string())
    );
    let last = 1_000 + RESTORE_PLAN_TTL;
    assert!(matches!(
        store.begin_commit(1, 4, last, "v1"),
        CommitStart::Attempt(CommitAction::Full)
    ));
    assert!(matches!(store.begin_commit(1, 4, last, "v1"), CommitStart::Wait));
}

#[test]
fn commits_are_repeated_in_answer_only() {
    let mut store = PlanStore::new();
    store.insert(plan(1, false), 0);
    store.begin_commit(1, 4, 0, "history-only");
    let result = CommitResult { restored_turns: 1, restored_files: 0 };
    assert!(store.finish_commit(1, AttemptEnd::Committed(result)).is_none());
    assert!(matches!(
        store.begin_commit(1, 4, 0, "history-only"),
        CommitStart::Replay(answer) if answer == result
    ));
}

#[test]
fn failed_commits_are_taken_up_where_they_stopped() {
    let mut store = PlanStore::new();
    store.insert(plan(1, true), 0);
    store.begin_commit(1, 4, 0, "v1");
    let pending = PlanStatus::HistoryPending { restored_files: 2 };
    assert!(store.finish_commit(1, AttemptEnd::Failed(pending)).is_none());
    let late = 10 * RESTORE_PLAN_TTL;
    store.prune(late);
    assert!(matches!(
        store.begin_commit(1, 4, late, "v1"),
        CommitStart::Attempt(CommitAction::HistoryPending { restored_files: 2 })
    ));
    store.abandon_commit(1, CommitAction::HistoryPending { restored_files: 2 });
    assert!(matches!(
        store.get(1).unwrap().status,
        PlanStatus::HistoryPending { restored_files: 2 }
    ));
    assert!(recovery_action(PlanStatus::Ready).is_none());
    assert!(matches!(
        recovery_action(status_for_retry(CommitAction::RestoreRetry { version: "v".to_string() })),
        Some(CommitAction::RestoreRetry { version }) if version == "v"
    ));
    assert!(matches!(status_for_retry(CommitAction::Full), PlanStatus::Ready));
}

#[test]
fn the_store_has_a_limit() {
    let mut store = PlanStore::new();
    for id in 0..RESTORE_PLAN_STORE_LIMIT {
        assert!(store.insert(plan(id as u128, false), 0).is_none());
    }
    let why = store.insert(plan(u128::MAX, false), 0).expect("full");
    assert_eq!(why.code, ErrorCode::InternalError);
    assert_eq!(
        why.message(),
        "restore plan store is full; retry after an existing plan expires"
    );
    let end = RESTORE_PLAN_TTL + RESTORE_PLAN_TOMBSTONE_TTL;
    assert!(store.insert(plan(u128::MAX, false), end - 1).is_some());
    assert!(store.insert(plan(u128::MAX, false), end).is_none());
    assert!(store.get(0).is_none());
    assert_eq!(store.get(u128::MAX).unwrap().expires_at, end + RESTORE_PLAN_TTL);
}

#[test]
fn lost_connections_leave_recoveries_behind() {
    let mut store = PlanStore::new();
    store.insert(plan(1, false), 0);
    store.insert(plan(2, false), 0);
    store.insert(plan(3, false), 0);
    store.begin_commit(2, 4, 0, "history-only");
    store.finish_commit(2, AttemptEnd::Failed(PlanStatus::HistoryPending { restored_files: 0 }));
    store.begin_commit(3, 4, 0, "history-only");
    assert!(store.drop_connection(9).is_empty());
    let recoveries = store.drop_connection(4);
    assert_eq!(recoveries.iter().map(|plan| plan.id).collect::<Vec<_>>(), vec![2]);
    assert!(store.get(1).is_none());
    assert!(store.get(3).unwrap().owner_disconnected);
    assert!(matches!(
        store.finish_commit(
            3,
            AttemptEnd::Failed(PlanStatus::RestoreRetry { version: "v2".to_string() })
        ),
        Some(CommitAction::RestoreRetry { version }) if version == "v2"
    ));
    assert!(store.get(3).is_none());
    store.insert(plan(4, false), 0);
    store.begin_commit(4, 4, 0, "history-only");
    store.drop_connection(4);
    store.abandon_commit(4, CommitAction::Full);
    assert!(store.get(4).is_none());
}

fn session(items: Vec<SessionItem>) -> CutSource {
    CutSource {
        items,
        records: vec![],
        compaction: None,
        latest: Some(TurnId { raw: 1 }),
        cwd: vec![Component::RootDir, Component::Normal("w".to_string())],
        title: Some("work".to_string()),
        model: None,
        binding: None,
        default_model: "fast".to_string(),
        ephemeral: false,
        created_at: 10,
        updated_at: 20,
        now: 30,
    }
}

fn exported(items: Vec<SessionItem>) -> AttemptEvent {
    AttemptEvent::Exported(Some(CommitSource { session: session(items), durable: true }))
}

fn actions(
    plan: &StoredPlan,
    action: CommitAction,
    events: Vec<AttemptEvent>,
) -> Vec<AttemptAction> {
    let mut phase = AttemptPhase::ActiveTurn(action);
    let mut seen = Vec::new();
    for event in events {
        let (next, action) = advance_attempt(plan, phase, event);
        phase = next;
        seen.push(action);
    }
    seen
}

fn name(action: &AttemptAction) -> &'static str {
    match action {
        AttemptAction::ReadActiveTurn => "ReadActiveTurn",
        AttemptAction::FindSession => "FindSession",
        AttemptAction::LockState => "LockState",
        AttemptAction::ExportSession => "ExportSession",
        AttemptAction::CompareVersion { .. } => "CompareVersion",
        AttemptAction::WriteCompletion(_) => "WriteCompletion",
        AttemptAction::RestoreFiles { .. } => "RestoreFiles",
        AttemptAction::AppendRollback(_) => "AppendRollback",
        AttemptAction::ReplaceState(_) => "ReplaceState",
        AttemptAction::Committed(_) => "Committed",
        AttemptAction::Fail(_, _) => "Fail",
        AttemptAction::Ignore => "Ignore",
    }
}

fn run(
    plan: &StoredPlan,
    action: CommitAction,
    events: Vec<AttemptEvent>,
) -> (Vec<&'static str>, AttemptAction) {
    let mut seen = actions(plan, action, events);
    let names = seen.iter().map(name).collect();
    (names, seen.pop().unwrap_or(AttemptAction::Ignore))
}

fn checks() -> Vec<AttemptEvent> {
    vec![
        AttemptEvent::TurnActive(false),
        AttemptEvent::SessionFound(true),
        AttemptEvent::Done,
        AttemptEvent::TurnActive(false),
        exported(items()),
    ]
}

#[test]
fn files_are_put_back_before_the_history_is_cut() {
    let plan = plan(1, true);
    let mut events = checks();
    events.extend([
        AttemptEvent::VersionMatches(Ok(true)),
        AttemptEvent::Restored(Ok(2)),
        AttemptEvent::Written(None),
        AttemptEvent::Done,
    ]);
    let (seen, last) = run(&plan, CommitAction::Full, events);
    assert_eq!(
        seen[..8],
        [
            "FindSession",
            "LockState",
            "ReadActiveTurn",
            "ExportSession",
            "CompareVersion",
            "RestoreFiles",
            "AppendRollback",
            "ReplaceState"
        ]
    );
    assert!(matches!(
        last,
        AttemptAction::Committed(CommitResult { restored_turns: 1, restored_files: 2 })
    ));
}

#[test]
fn attempts_say_what_is_kept() {
    let item = |turn: u128, item: u128, user_message: bool| SessionItem {
        turn: TurnId { raw: turn },
        item: ItemId { raw: item },
        user_message,
    };
    let history = vec![item(1, 11, true), item(1, 12, false), item(2, 21, true)];
    let plan = StoredPlan {
        user_turn_index: 1,
        fingerprint: history_fingerprint(&history),
        ..plan(1, true)
    };
    let mut events = checks();
    events.pop();
    events.extend([
        exported(history.clone()),
        AttemptEvent::VersionMatches(Ok(true)),
        AttemptEvent::Restored(Ok(2)),
        AttemptEvent::Written(None),
        AttemptEvent::Done,
    ]);
    let seen = actions(&plan, CommitAction::Full, events);
    assert!(matches!(
        &seen[4],
        AttemptAction::CompareVersion { root, version } if root == "/w" && version == "v1"
    ));
    let AttemptAction::RestoreFiles { checkpoint, files } = &seen[5] else {
        panic!("nothing restored")
    };
    assert_eq!((checkpoint.id.as_str(), checkpoint.workspace_root.as_str()), ("c1", "/w"));
    let shown: Vec<&str> = files.iter().map(|file| file.shown.as_str()).collect();
    assert_eq!(shown, ["./a", "./b"]);
    let AttemptAction::AppendRollback(record) = &seen[6] else { panic!("nothing recorded") };
    assert_eq!(record.turns, vec![TurnId { raw: 1 }]);
    assert_eq!(record.items, vec![ItemId { raw: 11 }, ItemId { raw: 12 }]);
    assert_eq!(record.latest, Some(TurnId { raw: 1 }));
    let AttemptAction::ReplaceState(after) = &seen[7] else { panic!("nothing replaced") };
    assert_eq!(after.items, history[..2]);
    assert_eq!(after.latest_turn, LatestTurn::AsInSource);
    assert_eq!(after.title.as_deref(), Some("work"));
    assert_eq!((after.created_at, after.updated_at), (10, 30));

    let after = rolled_back_session(&plan, &session(history.clone())).expect("cut");
    assert_eq!(after.turn_count, 1);
    let late = StoredPlan { user_turn_index: 2, ..plan };
    assert!(rolled_back_session(&late, &session(history.clone())).is_none());
    assert!(rollback_record(&late, &session(history)).is_none());
}

#[test]
fn retries_compare_with_the_version_that_failed() {
    let plan = plan(1, true);
    let seen = actions(
        &plan,
        CommitAction::RestoreRetry { version: "v9".to_string() },
        checks(),
    );
    assert!(matches!(
        &seen[4],
        AttemptAction::CompareVersion { root, version } if root == "/w" && version == "v9"
    ));
}

#[test]
fn repeated_attempts_skip_what_is_done() {
    let plan = plan(1, true);
    let mut events = checks();
    events.extend([AttemptEvent::Written(None), AttemptEvent::Done]);
    let (_, last) = run(&plan, CommitAction::HistoryPending { restored_files: 5 }, events);
    assert!(matches!(
        last,
        AttemptAction::Committed(CommitResult { restored_turns: 1, restored_files: 5 })
    ));
    let mut events = checks();
    events.extend([AttemptEvent::Written(Some("full".to_string()))]);
    let completed = RestoreRecord { restore: 3, outcomes: vec![] };
    let (seen, last) =
        run(&plan, CommitAction::CompletionPending { completed, restored_files: 1 }, events);
    assert_eq!(seen[4], "WriteCompletion");
    let AttemptAction::Fail(why, PlanStatus::CompletionPending { restored_files: 1, .. }) = last
    else {
        panic!("not failed")
    };
    assert_eq!(why.message(), "failed to persist workspace restore completion: full");
}

fn failure(plan: &StoredPlan, action: CommitAction, events: Vec<AttemptEvent>) -> (ErrorCode, String) {
    match run(plan, action, events).1 {
        AttemptAction::Fail(why, _) => (why.code, why.message()),
        other => panic!("not failed: {other:?}"),
    }
}

#[test]
fn commits_fail_for_a_reason() {
    let plan = plan(1, true);
    assert_eq!(
        failure(&plan, CommitAction::Full, vec![AttemptEvent::TurnActive(true)]),
        (
            ErrorCode::TurnAlreadyRunning,
            "cannot commit rollback while a turn is active".to_string()
        )
    );
    assert_eq!(
        failure(
            &plan,
            CommitAction::Full,
            vec![AttemptEvent::TurnActive(false), AttemptEvent::SessionFound(false)]
        ),
        (ErrorCode::SessionNotFound, "session does not exist".to_string())
    );
    let mut events = checks();
    events.pop();
    events.push(exported(vec![]));
    assert_eq!(
        failure(&plan, CommitAction::Full, events),
        (
            ErrorCode::WorkspaceVersionConflict,
            "session history changed after rollback preview".to_string()
        )
    );
    let version = |action: CommitAction, matches: Result<bool, String>| {
        let mut events = checks();
        events.push(AttemptEvent::VersionMatches(matches));
        failure(&plan, action, events).1
    };
    let retry = || CommitAction::RestoreRetry { version: "v2".to_string() };
    assert_eq!(
        version(CommitAction::Full, Ok(false)),
        "workspace changed after rollback preview"
    );
    assert_eq!(version(retry(), Ok(false)), "workspace changed after the failed restore attempt");
    assert_eq!(
        version(CommitAction::Full, Err("io".to_string())),
        "failed to validate workspace version: io"
    );
    assert_eq!(
        version(retry(), Err("io".to_string())),
        "failed to validate recovery workspace version: io"
    );
    let late = StoredPlan { user_turn_index: 1, ..plan.clone() };
    let mut events = checks();
    events.push(AttemptEvent::VersionMatches(Ok(true)));
    assert_eq!(
        failure(&late, CommitAction::Full, events),
        (ErrorCode::InvalidParams, "selected turn does not exist".to_string())
    );
    let mut events = checks();
    events.extend([
        AttemptEvent::VersionMatches(Ok(true)),
        AttemptEvent::Restored(Ok(0)),
        AttemptEvent::Written(Some("full".to_string())),
    ]);
    assert_eq!(
        failure(&plan, CommitAction::Full, events),
        (ErrorCode::InternalError, "failed to persist session rollback: full".to_string())
    );
}

#[test]
fn failed_restores_decide_what_comes_next() {
    let plan = plan(1, true);
    let status = |completion: Option<(RestoreRecord, u32)>, version: Option<&str>| {
        let why = Rejection {
            code: ErrorCode::InternalError,
            text: "broken",
            detail: None,
            tail: None,
        };
        let mut events = checks();
        events.extend([
            AttemptEvent::VersionMatches(Ok(true)),
                AttemptEvent::Restored(Err(RestoreFailure {
                why,
                completion,
                version: version.map(str::to_owned),
            })),
        ]);
        match run(&plan, CommitAction::Full, events).1 {
            AttemptAction::Fail(_, status) => status,
            other => panic!("not failed: {other:?}"),
        }
    };
    let record = RestoreRecord { restore: 1, outcomes: vec![] };
    assert!(matches!(
        status(Some((record, 2)), Some("v")),
        PlanStatus::CompletionPending { restored_files: 2, .. }
    ));
    assert!(matches!(
        status(None, Some("v")),
        PlanStatus::RestoreRetry { version } if version == "v"
    ));
    assert!(matches!(status(None, None), PlanStatus::Ready));
}

#[test]
fn outcomes_are_recorded_per_file() {
    let record = restore_completed_record(
        3,
        &vec![file("a"), file("b")],
        &vec![vec![Component::Normal("b".to_string())]],
        FileStatus::Failed,
    );
    assert_eq!(record.restore, 3);
    let listed: Vec<(&str, FileStatus)> =
        record.outcomes.iter().map(|outcome| (outcome.file.as_str(), outcome.status)).collect();
    assert_eq!(listed, vec![("./a", FileStatus::Failed), ("./b", FileStatus::Skipped)]);
    let record = RestoreRecord {
        restore: 0,
        outcomes: vec![
            FileOutcome { file: "a".to_string(), status: FileStatus::Restored },
            FileOutcome { file: "b".to_string(), status: FileStatus::Skipped },
            FileOutcome { file: "c".to_string(), status: FileStatus::Restored },
        ],
    };
    assert_eq!(restored_file_count(&record), 2);
}

fn restore_request(durable: bool) -> CommitRestore {
    CommitRestore {
        restore: 8,
        durable,
        checkpoint: plan(1, true).checkpoint.expect("a checkpoint"),
        files: vec![file("a"), file("b")],
    }
}

fn restore_run(
    durable: bool,
    events: Vec<CommitRestoreEvent>,
) -> (Vec<String>, CommitRestoreAction) {
    let request = restore_request(durable);
    let (mut phase, mut last) = begin_commit_restore(&request);
    let mut seen = vec![format!("{last:?}")];
    for event in events {
        let (next, action) = advance_commit_restore(&request, phase, event);
        phase = next;
        seen.push(format!("{action:?}"));
        last = action;
    }
    assert!(matches!(phase, CommitRestorePhase::Finished));
    (seen, last)
}

fn remaining(names: &[&str]) -> CommitRestoreEvent {
    CommitRestoreEvent::Compared(Ok(names
        .iter()
        .map(|name| vec![Component::Normal(name.to_string())])
        .collect()))
}

fn names(seen: &[String]) -> Vec<&str> {
    seen.iter().map(|action| action.split(['(', ' ']).next().unwrap_or("")).collect()
}

#[test]
fn restores_are_announced_once_recorded() {
    let (seen, last) = restore_run(
        true,
        vec![
            CommitRestoreEvent::Written(None),
            CommitRestoreEvent::Done,
            CommitRestoreEvent::Restored(None),
            remaining(&["b"]),
            CommitRestoreEvent::Written(None),
            CommitRestoreEvent::Done,
        ],
    );
    assert_eq!(
        names(&seen[..6]),
        ["AppendStart", "ShowStart", "RestoreCheckpoint", "Compare", "AppendEnd", "ShowEnd"]
    );
    assert_eq!(
        seen[0],
        "AppendStart(RestoreStartRecord { turn: TurnId { raw: 1 }, restore: 8, \
         files: [\"./a\", \"./b\"] })"
    );
    assert_eq!(seen[2], "RestoreCheckpoint { root: \"/w\", checkpoint: \"c1\" }");
    assert_eq!(
        seen[4],
        "AppendEnd(RestoreRecord { restore: 8, outcomes: \
         [FileOutcome { file: \"./a\", status: Restored }, \
         FileOutcome { file: \"./b\", status: Skipped }] })"
    );
    assert!(matches!(last, CommitRestoreAction::Restored(1)));
    let (seen, last) = restore_run(
        false,
        vec![
            CommitRestoreEvent::Done,
            CommitRestoreEvent::Restored(None),
            remaining(&[]),
            CommitRestoreEvent::Done,
        ],
    );
    assert_eq!(names(&seen[..4]), ["ShowStart", "RestoreCheckpoint", "Compare", "ShowEnd"]);
    assert!(matches!(last, CommitRestoreAction::Restored(2)));
}

#[test]
fn broken_restores_say_what_is_left() {
    let fail = |events: Vec<CommitRestoreEvent>| match restore_run(true, events) {
        (seen, CommitRestoreAction::Fail(failure)) => (seen, failure),
        (_, other) => panic!("not failed: {other:?}"),
    };
    let (_, failure) = fail(vec![CommitRestoreEvent::Written(Some("full".to_string()))]);
    assert_eq!(failure.why.code, ErrorCode::WorkspaceRestoreFailedToStart);
    assert_eq!(failure.why.message(), "failed to persist workspace restore start: full");
    let (seen, failure) = fail(vec![
        CommitRestoreEvent::Written(None),
        CommitRestoreEvent::Done,
        CommitRestoreEvent::Restored(Some("git".to_string())),
        CommitRestoreEvent::Written(Some("ignored".to_string())),
        CommitRestoreEvent::Done,
        CommitRestoreEvent::Version(Some("v2".to_string())),
    ]);
    assert_eq!(failure.why.message(), "failed to restore workspace checkpoint: git");
    assert_eq!(failure.version.as_deref(), Some("v2"));
    assert_eq!(
        seen[3],
        "AppendFailure(RestoreRecord { restore: 8, outcomes: \
         [FileOutcome { file: \"./a\", status: Failed }, \
         FileOutcome { file: \"./b\", status: Failed }] })"
    );
    assert_eq!(seen[5], "ReadVersion(\"/w\")");
    let (_, failure) = fail(vec![
        CommitRestoreEvent::Written(None),
        CommitRestoreEvent::Done,
        CommitRestoreEvent::Restored(None),
        CommitRestoreEvent::Compared(Err("git".to_string())),
        CommitRestoreEvent::Written(None),
        CommitRestoreEvent::Done,
        CommitRestoreEvent::Version(None),
    ]);
    assert_eq!(failure.why.message(), "failed to verify workspace restore: git");
    assert!(failure.completion.is_none());
    let (_, failure) = fail(vec![
        CommitRestoreEvent::Written(None),
        CommitRestoreEvent::Done,
        CommitRestoreEvent::Restored(None),
        remaining(&["a"]),
        CommitRestoreEvent::Written(Some("full".to_string())),
        CommitRestoreEvent::Version(None),
    ]);
    assert_eq!(failure.why.message(), "failed to persist workspace restore completion: full");
    let (record, count) = failure.completion.expect("completion");
    assert_eq!((record.restore, record.outcomes.len(), count), (8, 2, 1));
    assert_eq!(record.outcomes[0].status, FileStatus::Skipped);
}

#[test]
fn the_latest_snapshot_of_the_first_dropped_turn_is_used() {
    let ghost = Some("git_ghost_commit");
    let records = vec![
        checkpoint(1, "a", ghost),
        checkpoint(1, "b", ghost),
        checkpoint(1, "c", Some("other")),
        checkpoint(2, "d", ghost),
        CheckpointRecord { workspace_root: None, ..checkpoint(1, "e", ghost) },
        checkpoint(1, "f", None),
    ];
    let turns = |list: &[u128]| list.iter().map(|raw| TurnId { raw: *raw }).collect::<Vec<_>>();
    assert_eq!(choose_checkpoint(&records, &turns(&[1, 2])).unwrap().id, "b");
    assert_eq!(choose_checkpoint(&records, &turns(&[2, 1])).unwrap().id, "d");
    assert!(choose_checkpoint(&records, &turns(&[3, 1])).is_none());
    assert!(choose_checkpoint(&records, &vec![]).is_none());
}

fn preview(events: Vec<PreviewEvent>) -> PreviewAction {
    let mut phase = PreviewPhase::ActiveTurn;
    let mut last = PreviewAction::Ignore;
    for event in events {
        let (next, action) = advance_preview(request(), phase, event);
        phase = next;
        last = action;
    }
    last
}

fn two_turns() -> Vec<SessionItem> {
    [1u128, 2]
        .iter()
        .map(|raw| SessionItem {
            turn: TurnId { raw: *raw },
            item: ItemId { raw: *raw },
            user_message: true,
        })
        .collect()
}

fn preview_checks(durable: bool) -> Vec<PreviewEvent> {
    vec![
        PreviewEvent::TurnActive(false),
        PreviewEvent::SessionFound(true),
        PreviewEvent::Done,
        PreviewEvent::TurnActive(false),
        PreviewEvent::Exported(Some((two_turns(), durable))),
    ]
}

#[test]
fn previews_compare_the_workspace() {
    let mut events = preview_checks(true);
    events.push(PreviewEvent::Checkpoints(Ok(vec![checkpoint(
        1,
        "c",
        Some("git_ghost_commit"),
    )])));
    events.push(PreviewEvent::Compared(Ok(("v1".to_string(), vec![file("a")]))));
    let PreviewAction::StorePlan(draft) = preview(events) else { panic!("no plan") };
    assert_eq!(draft.dropped_turns, 2);
    assert_eq!(draft.fingerprint, history_fingerprint(&two_turns()));
    assert_eq!(draft.workspace_version.as_deref(), Some("v1"));
    let plan = plan_from_draft(request(), 1, draft);
    assert_eq!(plan.checkpoint.as_ref().unwrap().workspace_root, "/w");
    assert_eq!(plan.affected_files.len(), 1);
    assert_eq!(plan.workspace_version, "v1");

    let PreviewAction::StorePlan(draft) = preview(preview_checks(false)) else {
        panic!("no plan")
    };
    assert!(draft.checkpoint.is_none());
    assert_eq!(plan_from_draft(request(), 1, draft).workspace_version, "history-only");
}

#[test]
fn previews_are_refused_for_a_reason() {
    let refusal = |events: Vec<PreviewEvent>| match preview(events) {
        PreviewAction::Reject(why) => why.message(),
        other => panic!("not refused: {other:?}"),
    };
    assert_eq!(
        refusal(vec![PreviewEvent::TurnActive(true)]),
        "cannot preview rollback while a turn is active"
    );
    let mut events = preview_checks(true);
    events.pop();
    events.push(PreviewEvent::Exported(Some((vec![], true))));
    assert_eq!(refusal(events), "selected turn does not exist");
    let with = |read: Result<Vec<CheckpointRecord>, CheckpointFailure>| {
        let mut events = preview_checks(true);
        events.push(PreviewEvent::Checkpoints(read));
        events
    };
    assert_eq!(
        refusal(with(Err(CheckpointFailure::Unreadable("io".to_string())))),
        "failed to read workspace checkpoints: io"
    );
    assert_eq!(
        refusal(with(Err(CheckpointFailure::TaskFailed("gone".to_string())))),
        "workspace checkpoint read task failed: gone"
    );
    let mut events = with(Ok(vec![checkpoint(1, "c", Some("git_ghost_commit"))]));
    events.push(PreviewEvent::Compared(Err("git".to_string())));
    assert_eq!(refusal(events), "failed to preview workspace rollback: git");
}
