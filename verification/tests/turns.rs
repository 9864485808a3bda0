use devo_server::compaction::{
    advance_admission, advance_finalize, advance_recovery, advance_run, begin_finalize,
    begin_recovery, compact_start_answer, compacted_counters, compaction_end, compaction_trigger_hook_label,
    compaction_window, item_failure_message, list_end_notices, list_replaced_notices,
    refuse_admission, run_outcome, summary_limit, terminal_status, AdmissionAction, AdmissionEvent,
    AdmissionPhase, AdmissionStop, AppliedSummary, CompactAnswer, CompactionFailure,
    CompactionEnd, CompactionOutcome, CompactionRun, CompactionReservation, CompactionRunOptions, CompactionSource, CompactionTrigger,
    EndNotice, FinalizeAction, FinalizeEvent, RecoveryAction, RecoveryEvent, RunAction, RunEnd, RunEvent, RunPhase,
    SessionCounters, Summarized, SummaryFacts, TurnStatus, UsageTotals,
};
use devo_server::inputs::{ImageUriError, PartRefusal, ResolvedInput, UserInput};
use devo_server::message_edit::{InputResolution, SessionItem, SkillFailure};
use devo_server::protocol::{ErrorCode, ItemId, TurnId};
use devo_server::queue::PendingKind;
use devo_server::session_metadata::CollaborationMode;
use devo_server::session_state::{ActiveTurn, EndedTurn, SessionState};
use devo_server::sessions::SessionStatus;
use devo_server::turn_cut::{CompactionSnapshot, ContextOccupancy};
use devo_server::turn_model::{
    requested_model_selection, select_for_session, select_for_turn, session_model_selection,
    ModelChoice, TurnModel,
};
use devo_server::turn_start::{
    advance_request, advance_start, begin_start, pending_turn_metadata, queued_selection, Admission,
    QueuePolicy, RequestAction, RequestEvent, RequestPhase, Reservation, StartAction, StartEvent,
    StartRequest,
};

fn request(policy: QueuePolicy) -> StartRequest {
    StartRequest {
        policy,
        input: vec![UserInput::Text("go".to_string()), UserInput::Other(2)],
        display: Some("go on".to_string()),
        mode: CollaborationMode::Build,
        choice: ModelChoice { binding: None, model: None, effort: Some("high".to_string()) },
        sets_permission: false,
        turn: TurnId { raw: 6 },
        entry: 11,
        now: 70,
    }
}

fn held(active: Option<u128>) -> Reservation {
    Reservation {
        active: active.map(|raw| TurnId { raw }),
        latest_sequence: Some(4),
        ephemeral: false,
        changes_directory: false,
        choice: choice(),
    }
}

fn choice() -> ModelChoice {
    ModelChoice { binding: None, model: Some("fast".to_string()), effort: Some("low".to_string()) }
}

fn model() -> TurnModel {
    TurnModel {
        binding: Some("b".to_string()),
        model: "fast-1".to_string(),
        effort: Some("high".to_string()),
    }
}

fn resolved() -> ResolvedInput {
    ResolvedInput {
        text: "go now".to_string(),
        messages: vec![],
        images: vec!["/tmp/a.png".to_string()],
    }
}

fn start_actions(request: StartRequest, events: Vec<StartEvent>) -> Vec<StartAction> {
    let (mut phase, first) = begin_start(&request);
    let mut seen = vec![first];
    for event in events {
        let (next, action) = advance_start(&request, phase, event);
        phase = next;
        seen.push(action);
    }
    seen
}

fn start(request: StartRequest, events: Vec<StartEvent>) -> Vec<String> {
    start_actions(request, events)
        .into_iter()
        .map(|action| match action {
            StartAction::Reject(why) => format!("{:?}: {}", why.code, why.message()),
            other => format!("{other:?}"),
        })
        .collect()
}

fn opening(reservation: Reservation) -> Vec<StartEvent> {
    vec![StartEvent::SessionFound(true), StartEvent::Reserved(Some(reservation))]
}

fn checks() -> Vec<StartEvent> {
    vec![
        StartEvent::Resolved(InputResolution::Ready(resolved())),
        StartEvent::HookRan(None),
    ]
}

#[test]
fn turns_start_under_the_gate() {
    let mut events = opening(held(None));
    events.push(StartEvent::Done);
    events.push(StartEvent::Reserved(Some(held(None))));
    events.extend(checks());
    events.extend([
        StartEvent::ModelResolved(model()),
        StartEvent::Done,
        StartEvent::Durable(true),
        StartEvent::Written(None),
    ]);
    events.extend((0..6).map(|_| StartEvent::Done));
    let seen = start(request(QueuePolicy::Queue), events);
    assert!(seen.contains(&"RunPromptHook(\"go now\")".to_string()));
    assert!(seen.contains(
        &"ResolveModel(TurnSelection { model: Some(\"fast\"), effort: Some(\"high\") })".to_string()
    ));
    let first = seen.iter().position(|action| action.starts_with("Begin")).expect("begun");
    let lock = seen.iter().position(|action| action == "LockState").expect("locked");
    assert!(lock < first);
    let run_with = format!("mode: Build, model: {:?} }}", model());
    assert_eq!(seen[first], format!("Begin {{ turn: TurnId {{ raw: 6 }}, sequence: 5, {run_with}"));
    assert_eq!(seen.last().unwrap(), "Started(TurnId { raw: 6 })");
    let written = seen.iter().position(|action| action.starts_with("AppendTurnStart")).unwrap();
    let spawned = seen.iter().position(|action| action.starts_with("Spawn")).unwrap();
    assert_eq!(
        seen[written],
        format!("AppendTurnStart {{ turn: TurnId {{ raw: 6 }}, sequence: 5, {run_with}")
    );
    assert_eq!(
        seen[spawned],
        format!(
            "Spawn(StartedTurn {{ input: [Text(\"go\"), Other(2)], display: \"go on\", \
             resolved: {:?}, {run_with})",
            resolved()
        )
    );
    assert!(seen.contains(
        &"ShowMessage(ShownMessage { input: [Text(\"go\"), Other(2)], images: [\"/tmp/a.png\"] })"
            .to_string()
    ));
    assert!(written < spawned);
}

#[test]
fn busy_sessions_queue_or_refuse() {
    let mut events = opening(held(Some(9)));
    events.extend(checks());
    events.extend([StartEvent::Done, StartEvent::Written(None), StartEvent::Done]);
    let asked = StartRequest {
        mode: CollaborationMode::Plan,
        ..request(QueuePolicy::Queue)
    };
    let seen = start_actions(asked, events);
    let item = seen
        .iter()
        .find_map(|action| match action {
            StartAction::Enqueue(item) => Some(item),
            _ => None,
        })
        .expect("queued");
    assert_eq!((item.id, item.created_at), (11, 70));
    assert!(matches!(
        &item.kind,
        PendingKind::UserInput { input, display, resolved }
            if *input == vec![UserInput::Text("go".to_string()), UserInput::Other(2)]
                && display == "go on" && resolved.text == "go now"
    ));
    let kept = item.metadata.as_ref().expect("a choice");
    assert_eq!(kept.mode, Some(CollaborationMode::Plan));
    assert_eq!((kept.model.as_deref(), kept.binding.as_deref()), (Some("fast"), None));
    assert!(seen.iter().any(|action| matches!(action, StartAction::WritePending(11))));
    assert!(matches!(
        seen.last(),
        Some(StartAction::Queued { active: TurnId { raw: 9 }, entry: 11 })
    ));
    let seen = start(
        request(QueuePolicy::RejectActive),
        vec![StartEvent::SessionFound(true), StartEvent::TurnActive(true)],
    );
    assert_eq!(
        seen.last().unwrap(),
        "TurnAlreadyRunning: session already has an active prompt turn"
    );
}

#[test]
fn turns_are_refused_for_a_reason() {
    let last = |events: Vec<StartEvent>| {
        start(request(QueuePolicy::Queue), events).pop().expect("an action")
    };
    let empty = StartRequest { input: vec![], ..request(QueuePolicy::Queue) };
    assert_eq!(start(empty, vec![]), ["EmptyInput: turn input is empty"]);
    let blank = StartRequest { display: None, ..request(QueuePolicy::Queue) };
    assert_eq!(start(blank, vec![]), ["EmptyInput: turn input is empty"]);
    assert_eq!(
        last(vec![StartEvent::SessionFound(false)]),
        "SessionNotFound: session does not exist"
    );
    let after = |event: Vec<StartEvent>| {
        let mut events =
            opening(Reservation { changes_directory: true, ..held(Some(9)) });
        events.extend(event);
        last(events)
    };
    assert_eq!(
        after(vec![StartEvent::WorkspaceOpened(Some("gone".to_string()))]),
        "InternalError: failed to initialize session workspace: gone"
    );
    let failed = InputResolution::Failed(SkillFailure::NotFound, "x".to_string());
    assert_eq!(
        after(vec![StartEvent::WorkspaceOpened(None), StartEvent::Resolved(failed)]),
        format!("{:?}: failed to resolve turn input: x", SkillFailure::NotFound.error_code())
    );
    assert_eq!(
        after(vec![
            StartEvent::WorkspaceOpened(None),
            StartEvent::Resolved(InputResolution::Ready(resolved())),
            StartEvent::HookRan(Some("no".to_string())),
        ]),
        "PolicyDenied: prompt blocked by hook: no"
    );
    let mut events = opening(held(None));
    events.push(StartEvent::Done);
    events.push(StartEvent::Reserved(Some(held(None))));
    events.extend(checks());
    events.extend([
        StartEvent::ModelResolved(model()),
        StartEvent::Done,
        StartEvent::Durable(true),
        StartEvent::Written(Some("full".to_string())),
        StartEvent::Done,
    ]);
    let seen = start(request(QueuePolicy::Queue), events);
    assert_eq!(seen[seen.len() - 2], "ClearActiveTurn(TurnId { raw: 6 })");
    assert_eq!(seen[seen.len() - 1], "InternalError: failed to persist turn start: full");
}

#[test]
fn queued_turns_remember_their_choices() {
    assert!(pending_turn_metadata(CollaborationMode::Build, None, None).is_none());
    let kept = pending_turn_metadata(CollaborationMode::Plan, None, Some("b".to_string())).unwrap();
    assert_eq!(kept.mode, Some(CollaborationMode::Plan));
    assert_eq!(kept.binding.as_deref(), Some("b"));
    assert_eq!(
        queued_selection(Some("a".to_string()), Some("b".to_string())).as_deref(),
        Some("a")
    );
    assert_eq!(queued_selection(None, Some("b".to_string())).as_deref(), Some("b"));
}

#[test]
fn requests_choose_before_sessions() {
    let named = |name: &str| Some(name.to_string());
    let none = || ModelChoice { binding: None, model: None, effort: None };
    let session = || ModelChoice {
        binding: named("sb"),
        model: named("sm"),
        effort: named("low"),
    };
    let asked = ModelChoice { binding: None, model: named("rm"), effort: None };
    let selected = select_for_turn(&asked, &session());
    assert_eq!((selected.model, selected.effort), (named("rm"), named("low")));
    let bound = ModelChoice { binding: named("rb"), model: named("rm"), effort: named("high") };
    assert_eq!(requested_model_selection(&bound, &session()), named("rb"));
    assert_eq!(select_for_turn(&bound, &session()).effort, named("high"));
    assert_eq!(select_for_turn(&none(), &session()), select_for_session(&session()));
    assert_eq!(session_model_selection(&session()), named("sb"));
    assert_eq!(requested_model_selection(&none(), &none()), None);
    assert_eq!(model().provider(), "b");
}

fn sent() -> RequestEvent {
    RequestEvent::Input(Ok(vec![UserInput::Text("go".to_string())]))
}

fn ask(events: Vec<RequestEvent>) -> RequestAction {
    let mut phase = RequestPhase::Input;
    let mut last = RequestAction::Ignore;
    for event in events {
        let (next, action) = advance_request(phase, event);
        phase = next;
        last = action;
    }
    last
}

#[test]
fn repeated_turn_requests_are_answered_from_memory() {
    let turn = TurnId { raw: 3 };
    assert!(matches!(
        ask(vec![sent(), RequestEvent::Known(Some(turn))]),
        RequestAction::Replay(answer) if answer == turn
    ));
    let until = |rest: Vec<RequestEvent>| {
        let mut events =
            vec![
                sent(),
                RequestEvent::Known(None),
                RequestEvent::Mode(Some(CollaborationMode::Plan)),
                RequestEvent::SavedTurn(None),
            ];
        events.extend(rest);
        ask(events)
    };
    let RequestAction::Admit(asked) = until(vec![]) else { panic!("not admitted") };
    assert_eq!(asked.input, vec![UserInput::Text("go".to_string())]);
    assert_eq!((asked.policy, asked.mode), (QueuePolicy::RejectActive, CollaborationMode::Plan));
    assert!(matches!(
        until(vec![
            RequestEvent::Admitted(Admission::Started(turn)),
            RequestEvent::Active(Some(turn))
        ]),
        RequestAction::AnswerTurn(answer) if answer == turn
    ));
    assert!(matches!(
        until(vec![RequestEvent::Admitted(Admission::Started(turn)), RequestEvent::Active(None)]),
        RequestAction::PassOn
    ));
    assert!(matches!(
        until(vec![RequestEvent::Admitted(Admission::Queued)]),
        RequestAction::Reject(why) if why.code == ErrorCode::TurnAlreadyRunning
    ));
    assert!(matches!(
        ask(vec![RequestEvent::Input(Err(PartRefusal::NotStored("full".to_string())))]),
        RequestAction::Reject(why)
            if why.code == ErrorCode::InvalidParams
                && why.message() == "failed to decode image input: full"
    ));
    for refusal in [
        PartRefusal::Audio("a".to_string()),
        PartRefusal::Image(ImageUriError::NotData),
        PartRefusal::Image(ImageUriError::NoPayload),
        PartRefusal::Image(ImageUriError::NotBase64),
        PartRefusal::Image(ImageUriError::Undecodable("x".to_string())),
    ] {
        let message = refusal.turn_message();
        assert!(matches!(
            ask(vec![RequestEvent::Input(Err(refusal))]),
            RequestAction::Reject(why) if why.message() == message
        ));
    }
}

fn enter(events: Vec<AdmissionEvent>) -> (Vec<String>, AdmissionAction) {
    let mut phase = AdmissionPhase::Session;
    let mut seen = Vec::new();
    let mut last = AdmissionAction::FindSession;
    for event in events {
        let (next, action) = advance_admission(TurnId { raw: 5 }, phase, event);
        phase = next;
        seen.push(format!("{action:?}"));
        last = action;
    }
    (seen, last)
}

fn admission_opening(latest: Option<u32>) -> Vec<AdmissionEvent> {
    vec![
        AdmissionEvent::SessionFound(true),
        AdmissionEvent::TurnActive(false),
        AdmissionEvent::Done,
        AdmissionEvent::Reserved(Some(CompactionReservation { latest, choice: choice() })),
        AdmissionEvent::ModelResolved(model()),
        AdmissionEvent::Begun(true),
        AdmissionEvent::Durable(true),
    ]
}

#[test]
fn compactions_are_turns() {
    let mut events = admission_opening(Some(7));
    events.push(AdmissionEvent::Written(None));
    events.extend((0..3).map(|_| AdmissionEvent::Done));
    let (seen, last) = enter(events);
    let begun = ActiveTurn { turn: TurnId { raw: 5 }, sequence: 8 };
    assert_eq!(
        seen[3],
        "ResolveModel(TurnSelection { model: Some(\"fast\"), effort: Some(\"low\") })"
    );
    assert_eq!(seen[4], format!("TryBegin({begun:?}, {:?})", model()));
    assert_eq!(seen[6], format!("AppendTurnStart({begun:?}, {:?})", model()));
    assert!(matches!(last, AdmissionAction::Admitted(turn) if turn == begun));
    let mut events = admission_opening(None);
    events.push(AdmissionEvent::Written(Some("full".to_string())));
    events.push(AdmissionEvent::Done);
    let (seen, last) = enter(events);
    assert_eq!(seen[7], "ClearActiveTurn(TurnId { raw: 5 })");
    let AdmissionAction::Stop(stop) = last else { panic!("not stopped") };
    let why = refuse_admission(stop);
    assert_eq!(why.message(), "failed to persist compaction turn start: full");
    let why = refuse_admission(AdmissionStop::Busy);
    assert_eq!(why.code, ErrorCode::TurnAlreadyRunning);
    assert_eq!(why.message(), "cannot compact while a turn is active or queued");
    assert_eq!(
        refuse_admission(AdmissionStop::SessionMissing).code,
        ErrorCode::SessionNotFound
    );
}

fn summarize(summarized: Summarized) -> Vec<RunEvent> {
    vec![
        RunEvent::Found(true),
        RunEvent::Done,
        RunEvent::Done,
        RunEvent::Done,
        RunEvent::Snapshot(Some(SummaryFacts {
            choice: ModelChoice { binding: None, model: None, effort: None },
            default_model: "plain".to_string(),
        })),
        RunEvent::Provider(Some(None)),
        RunEvent::Summarized(summarized),
        RunEvent::Done,
        RunEvent::Done,
    ]
}

fn compaction_run() -> CompactionRun {
    CompactionRun {
        turn: TurnId { raw: 5 },
        item: ItemId { raw: 50 },
        options: CompactionRunOptions {
            trigger: CompactionTrigger::AgentRequested,
            custom_instructions: Some("be brief".to_string()),
        },
    }
}

fn summarized() -> Summarized {
    Summarized::Replaced(Some("what was said".to_string()))
}

fn run(events: Vec<RunEvent>) -> Vec<RunAction> {
    let compaction = compaction_run();
    let mut phase = RunPhase::Session;
    let mut seen = Vec::new();
    for event in events {
        let (next, action) = advance_run(&compaction, phase, event);
        phase = next;
        seen.push(action);
    }
    seen
}

fn occupancy(total_tokens: u64) -> ContextOccupancy {
    ContextOccupancy {
        window_tokens: 1000,
        base_tokens: 1,
        skill_tokens: 2,
        builtin_tool_tokens: 3,
        mcp_tool_tokens: 4,
        conversation_tokens: 100,
        total_tokens,
    }
}

fn counters() -> SessionCounters {
    SessionCounters {
        totals: UsageTotals {
            input: 1,
            output: 2,
            total: 3,
            cache_creation: 4,
            cache_read: 5,
        },
        prompt_token_estimate: 0,
        last_turn_tokens: 0,
        last_input_tokens: 0,
        last_query_total_tokens: 0,
        occupancy_total: None,
        loaded_item_count: 6,
        next_item_seq: 7,
    }
}

fn exported(durable: bool, ephemeral: bool) -> CompactionSource {
    CompactionSource {
        session: SessionState {
            items: vec![SessionItem {
                turn: TurnId { raw: 1 },
                item: ItemId { raw: 10 },
                user_message: true,
            }],
            turn_count: 2,
            active: Some(ActiveTurn { turn: TurnId { raw: 5 }, sequence: 3 }),
            latest: None,
            compaction: None,
            status: SessionStatus::Active,
            occupancy: Some(occupancy(900)),
            counters: counters(),
            updated_at: 20,
            last_activity_at: 21,
        },
        durable,
        ephemeral,
        preserved: vec![ItemId { raw: 10 }],
    }
}

fn position(seen: &[RunAction], wanted: fn(&RunAction) -> bool) -> usize {
    seen.iter().position(wanted).expect("done")
}

#[test]
fn histories_are_replaced_once_saved() {
    let applied = AppliedSummary { conversation_tokens: 100, occupancy: occupancy(150) };
    let mut events = summarize(summarized());
    events.extend([
        RunEvent::Canceled(false),
        RunEvent::Exported(Some(exported(true, false))),
        RunEvent::Written(None),
        RunEvent::Claimed(true),
        RunEvent::Applied(applied),
    ]);
    events.extend((0..4).map(|_| RunEvent::Done));
    events.extend([RunEvent::Durable(true), RunEvent::Written(Some("full".to_string()))]);
    events.extend((0..3).map(|_| RunEvent::Done));
    let seen = run(events);
    let written = position(&seen, |action| matches!(action, RunAction::AppendSummary(_)));
    let claimed = position(&seen, |action| matches!(action, RunAction::Claim(_)));
    let replaced = position(&seen, |action| matches!(action, RunAction::ReplaceState(_)));
    let shown = position(&seen, |action| matches!(action, RunAction::ShowNotices));
    assert!(written < claimed && claimed < replaced && replaced < shown);
    assert!(matches!(
        seen[0],
        RunAction::ShowStarted { trigger: CompactionTrigger::AgentRequested, .. }
    ));
    assert!(matches!(
        &seen[2],
        RunAction::RunPreHook { trigger: "agentRequested", instructions: Some(text) }
            if text == "be brief"
    ));
    assert!(matches!(&seen[4], RunAction::ResolveProvider(model) if model == "plain"));
    assert!(matches!(seen[5], RunAction::Summarize { limit: 4096 }));
    assert!(seen.iter().any(|action| matches!(
        action,
        RunAction::RunPostHook { trigger: "agentRequested", summary } if summary == "what was said"
    )));
    let RunAction::AppendSummary(record) = &seen[written] else { unreachable!() };
    assert_eq!(record.summary.as_deref(), Some("what was said"));
    assert_eq!((record.turn, record.item, record.seq), (TurnId { raw: 5 }, ItemId { raw: 50 }, 7));
    assert_eq!(record.preserved, vec![ItemId { raw: 10 }]);
    assert_eq!(
        record.snapshot,
        CompactionSnapshot {
            turn: TurnId { raw: 5 },
            summary_item: ItemId { raw: 50 },
            occupancy: Some(occupancy(900)),
        }
    );
    let stats = position(&seen, |action| matches!(action, RunAction::WriteStats(_)));
    let RunAction::WriteStats(counted) = &seen[stats] else { unreachable!() };
    assert_eq!(*counted, compacted_counters(&counters(), 100, 150));
    let RunAction::ReplaceState(session) = &seen[replaced] else { unreachable!() };
    assert_eq!(session.active, None);
    assert_eq!(
        session.latest,
        Some(EndedTurn { turn: TurnId { raw: 5 }, status: TurnStatus::Completed })
    );
    assert_eq!(session.status, SessionStatus::Idle);
    assert_eq!(session.occupancy, Some(occupancy(150)));
    assert_eq!(session.items.len(), 2);
    assert_eq!(session.items[1].item, ItemId { raw: 50 });
    assert!(matches!(seen.last(), Some(RunAction::Stop)));
    let mut events = summarize(summarized());
    events.extend([
        RunEvent::Canceled(false),
        RunEvent::Exported(Some(exported(true, false))),
        RunEvent::Written(None),
        RunEvent::Claimed(false),
    ]);
    assert!(matches!(run(events).pop(), Some(RunAction::Stop)));
}

#[test]
fn compactions_end_for_a_reason() {
    let message = |mut seen: Vec<RunAction>| match seen.pop() {
        Some(RunAction::Finalize { end, .. }) => {
            let outcome = run_outcome(&end);
            (item_failure_message(&outcome), terminal_status(&outcome))
        }
        other => panic!("not ended: {other:?}"),
    };
    assert_eq!(
        message(run(vec![RunEvent::Found(false)])),
        ("compaction failed: session unavailable".to_string(), TurnStatus::Failed)
    );
    assert_eq!(
        message(run(summarize(Summarized::Failed("model".to_string())))),
        ("compaction failed: model".to_string(), TurnStatus::Failed)
    );
    assert_eq!(
        message(run(summarize(Summarized::Canceled))),
        ("compaction canceled".to_string(), TurnStatus::Interrupted)
    );
    assert_eq!(
        message(run(summarize(Summarized::Skipped))),
        (
            "Session is too short to compact \u{2014} try again once it grows".to_string(),
            TurnStatus::Completed
        )
    );
    let mut events = summarize(summarized());
    events.extend([
        RunEvent::Canceled(false),
        RunEvent::Exported(Some(exported(true, false))),
        RunEvent::Written(Some("full".to_string())),
    ]);
    assert_eq!(message(run(events)).0, "compaction persistence failed: full");
    let outcome = run_outcome(&RunEnd::Failed(CompactionFailure::Panicked));
    assert_eq!(item_failure_message(&outcome), "compaction failed: panicked");
    let compaction = compaction_run();
    let shown = compaction_end(&compaction, &RunEnd::Skipped, true);
    assert_eq!((shown.turn, shown.item), (TurnId { raw: 5 }, Some(ItemId { raw: 50 })));
    assert_eq!(terminal_status(&shown.outcome), TurnStatus::Completed);
    assert_eq!(compaction_end(&compaction, &RunEnd::Canceled, false).item, None);
}

#[test]
fn ends_are_told_in_order() {
    assert_eq!(
        list_end_notices(&CompactionOutcome::Skipped, true, Some(true)),
        vec![
            EndNotice::ItemFailed,
            EndNotice::UsageUpdated,
            EndNotice::CompactionCompleted,
            EndNotice::TurnCompleted,
            EndNotice::StatusIdle
        ]
    );
    assert_eq!(
        list_end_notices(&CompactionOutcome::Skipped, false, None),
        vec![EndNotice::TurnCompleted, EndNotice::StatusIdle]
    );
    assert_eq!(
        list_end_notices(&CompactionOutcome::Canceled, true, None),
        vec![
            EndNotice::ItemFailed,
            EndNotice::CompactionFailed,
            EndNotice::TurnCompleted,
            EndNotice::TurnCompleted,
            EndNotice::StatusIdle
        ]
    );
    assert_eq!(list_replaced_notices().last(), Some(&EndNotice::StatusIdle));
}

#[test]
fn lost_claims_end_silently() {
    let end = CompactionEnd {
        turn: TurnId { raw: 5 },
        item: Some(ItemId { raw: 50 }),
        outcome: CompactionOutcome::Canceled,
    };
    let (phase, first) = begin_finalize();
    assert_eq!(format!("{first:?}"), "DetachAbort");
    let (phase, action) = advance_finalize(&end, phase, FinalizeEvent::Done);
    assert!(matches!(action, FinalizeAction::Claim(TurnId { raw: 5 })));
    let (lost, action) = advance_finalize(&end, phase, FinalizeEvent::Claimed(false));
    assert_eq!(format!("{lost:?} {action:?}"), "Finished Stop");
    let mut phase = phase;
    let mut seen = Vec::new();
    for event in [
        FinalizeEvent::Claimed(true),
        FinalizeEvent::Done,
        FinalizeEvent::Done,
        FinalizeEvent::Durable(true),
        FinalizeEvent::Written(None),
    ] {
        let (next, action) = advance_finalize(&end, phase, event);
        phase = next;
        seen.push(action);
    }
    let ended = EndedTurn { turn: TurnId { raw: 5 }, status: TurnStatus::Interrupted };
    assert!(matches!(seen[0], FinalizeAction::MakeIdle(turn) if turn == ended));
    assert!(matches!(seen[1], FinalizeAction::ClearHandles));
    assert!(matches!(seen[2], FinalizeAction::ReadDurability));
    assert!(matches!(seen[3], FinalizeAction::AppendTurnEnd(turn) if turn == ended));
    assert!(matches!(
        &seen[4],
        FinalizeAction::ShowNotices(notices)
            if *notices == list_end_notices(&CompactionOutcome::Canceled, true, None)
    ));
}

#[test]
fn orphans_are_made_idle() {
    let (mut phase, first) = begin_recovery(TurnId { raw: 5 });
    let RecoveryAction::Finalize(end) = first else { panic!("not ended") };
    assert_eq!((end.turn, end.item), (TurnId { raw: 5 }, None));
    assert_eq!(item_failure_message(&end.outcome), "compaction failed: panicked");
    let mut seen = Vec::new();
    for event in [
        RecoveryEvent::Done,
        RecoveryEvent::EndKnown(false),
        RecoveryEvent::Done,
        RecoveryEvent::EndKnown(false),
        RecoveryEvent::Done,
        RecoveryEvent::Done,
        RecoveryEvent::Done,
        RecoveryEvent::Done,
    ] {
        let (next, action) = advance_recovery(TurnId { raw: 5 }, phase, event);
        phase = next;
        seen.push(format!("{action:?}"));
    }
    let failed = "EndedTurn { turn: TurnId { raw: 5 }, status: Failed }";
    assert_eq!(
        seen,
        [
            "ReadEnd(TurnId { raw: 5 })".to_string(),
            "RecoverOrphan(TurnId { raw: 5 })".to_string(),
            "ReadEnd(TurnId { raw: 5 })".to_string(),
            format!("MakeIdle({failed})"),
            "ClearHandles".to_string(),
            "ShowNotices([CompactionFailed, TurnCompleted, TurnCompleted, StatusIdle])".to_string(),
            format!("RecordTerminal({failed})"),
            "Stop".to_string()
        ]
    );
}

#[test]
fn compactions_are_counted() {
    let before = counters();
    let after = compacted_counters(&before, 100, 150);
    assert_eq!(
        after,
        SessionCounters {
            totals: before.totals,
            prompt_token_estimate: 100,
            last_turn_tokens: 150,
            last_input_tokens: 100,
            last_query_total_tokens: 150,
            occupancy_total: Some(150),
            loaded_item_count: 7,
            next_item_seq: 8,
        }
    );
    assert_eq!(compaction_window(None, Some(9)), 9);
    assert_eq!(compaction_window(Some(8), Some(9)), 8);
    assert_eq!(compaction_window(None, None), 0);
    assert_eq!(summary_limit(None), 4096);
    assert_eq!(summary_limit(Some(12)), 12);
    assert_eq!(compact_start_answer(Some(false), true), CompactAnswer::Busy);
    assert_eq!(compact_start_answer(Some(true), true), CompactAnswer::Turn);
    assert_eq!(compact_start_answer(None, true), CompactAnswer::AsAdmitted);
    assert_eq!(CompactionRunOptions::default().trigger, CompactionTrigger::Manual);
    assert_eq!(compaction_trigger_hook_label(CompactionTrigger::Manual), "manual");
}
