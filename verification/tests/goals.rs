use devo_server::goal::{
    apply_goal_budget_limit, apply_goal_update, goal_status_from_thread, Goal, GoalAction,
    GoalActionResult, GoalBudget, GoalClearParams, GoalCompleteParams, GoalCreateParams, GoalError,
    GoalFaults, GoalId, GoalMutation, GoalPauseParams, GoalProjection, GoalResumeParams,
    GoalSetParams, GoalStatus, GoalStatusResult, GoalStore, GoalUsage, ThreadGoalStatus,
};
use devo_server::goal_requests::{
    handle_goal_clear, handle_goal_create, handle_goal_set, handle_native_session_goal_set,
    handle_native_session_goal_transition, handle_native_session_goal_update,
    host_goal_complete, host_goal_create_params, no_goal_message, objective_missing_message,
    schedule_goal_followup_work, sync_core_session_goal, GoalAnswer, GoalEffect, GoalRefusal,
    GoalSetRequest, GoalStores, GoalSync, GoalUpdateRequest, HostCompletion, PatchField, TitleWork,
};
use devo_server::protocol::{ErrorCode, SessionId};
use devo_server::replay::ReplayLog;

fn session() -> SessionId {
    SessionId { raw: 7 }
}

fn make_params() -> GoalCreateParams {
    GoalCreateParams {
        session_id: session(),
        objective: "Refactor auth".into(),
        token_budget: Some(100_000),
        replace_existing: false,
        faults: GoalFaults::default(),
    }
}

fn goal_with(status: GoalStatus) -> Goal {
    Goal {
        goal_id: GoalId { raw: 5 },
        session_id: session(),
        objective: "test".into(),
        description: None,
        status,
        created_turn_id: None,
        created_at: 1,
        updated_at: 1,
        budget: GoalBudget::default(),
        usage: GoalUsage { turns_used: 3, tokens_used: 1500, time_used_seconds: 0 },
        progress_summary: Some("making progress".into()),
        blocker_summary: None,
        verification_summary: None,
    }
}

#[test]
fn goal_create_and_get() {
    let mut store = GoalStore::new();
    let goal = store.create(make_params()).expect("create");
    assert_eq!(goal.status, GoalStatus::Active);
    assert!(store.get().is_some());
}

#[test]
fn goal_pause_and_resume() {
    let mut store = GoalStore::new();
    let goal = store.create(make_params()).expect("create");
    let goal_id = goal.goal_id;

    store.mutate(GoalMutation { goal_id, action: GoalAction::Pause }).expect("pause");
    assert_eq!(store.get().unwrap().status, GoalStatus::Paused);

    store.mutate(GoalMutation { goal_id, action: GoalAction::Resume }).expect("resume");
    assert_eq!(store.get().unwrap().status, GoalStatus::Active);
}

#[test]
fn goal_complete_is_terminal() {
    let mut store = GoalStore::new();
    let goal = store.create(make_params()).expect("create");
    let goal_id = goal.goal_id;

    store
        .mutate(GoalMutation { goal_id, action: GoalAction::Complete { summary: None } })
        .expect("complete");
    assert!(store.get().unwrap().status.is_terminal());

    let result = store.mutate(GoalMutation { goal_id, action: GoalAction::Pause });
    assert!(result.is_err());
}

#[test]
fn goal_cancel() {
    let mut store = GoalStore::new();
    let goal = store.create(make_params()).expect("create");
    let goal_id = goal.goal_id;

    store.mutate(GoalMutation { goal_id, action: GoalAction::Cancel }).expect("cancel");
    assert_eq!(store.get().unwrap().status, GoalStatus::Canceled);
}

#[test]
fn set_status_can_update_terminal_goal() {
    let mut store = GoalStore::new();
    store.create(make_params()).expect("create");
    store.set_status(GoalStatus::Completed).expect("complete");

    let goal = store.set_status(GoalStatus::Active).expect("reactivate");

    assert_eq!(goal.status, GoalStatus::Active);
    assert_eq!(store.get(), Some(&goal));
}

#[test]
fn goal_clear_removes() {
    let mut store = GoalStore::new();
    store.create(make_params()).expect("create");

    assert!(store.clear());
    assert!(store.get().is_none());
    assert!(!store.clear());
}

#[test]
fn goal_already_active_errors() {
    let mut store = GoalStore::new();
    let params = make_params();
    store.create(params.clone()).expect("create");
    let result = store.create(params);
    assert!(result.is_err());
    assert_eq!(result.unwrap_err(), GoalError::AlreadyActive);
}

#[test]
fn goal_set_updates_objective_without_resetting_usage() {
    let mut store = GoalStore::new();
    let session_id = session();
    store
        .create(GoalCreateParams {
            session_id,
            objective: "Refactor auth".into(),
            token_budget: Some(100_000),
            replace_existing: false,
            faults: GoalFaults::default(),
        })
        .expect("create");
    let goal = store.active_goal.as_mut().expect("goal");
    goal.usage.tokens_used = 1_500;
    goal.usage.time_used_seconds = 42;

    let updated = store
        .set(GoalSetParams {
            session_id,
            objective: Some("Refactor auth and payments".into()),
            status: Some(ThreadGoalStatus::Paused),
            token_budget: Some(80_000),
            faults: GoalFaults::default(),
        })
        .expect("set");

    let expected = Goal {
        objective: "Refactor auth and payments".into(),
        status: GoalStatus::Paused,
        budget: GoalBudget { token_budget: Some(80_000) },
        usage: GoalUsage { turns_used: 0, tokens_used: 1_500, time_used_seconds: 42 },
        ..updated.clone()
    };
    assert_eq!(updated, expected);
}

#[test]
fn goal_projection_from_goal() {
    let goal = goal_with(GoalStatus::Active);
    let proj = GoalProjection::from(&goal);
    assert_eq!(proj.turns_used, 3);
    assert_eq!(proj.tokens_used, 1500);
    assert!(proj.progress_summary.is_some());
    assert_eq!(proj.status, "active");
    assert_eq!(proj.goal_id, "00000000-0000-0000-0000-000000000005");
    assert_eq!(GoalProjection::from(&goal_with(GoalStatus::BudgetLimited)).status, "budgetlimited");
}

#[test]
fn identifiers_are_written_in_groups() {
    let id = GoalId { raw: 0x0123_4567_89ab_cdef_0123_4567_89ab_cdef };
    assert_eq!(id.text(), "01234567-89ab-cdef-0123-456789abcdef");
    assert_eq!(id.text(), uuid::Uuid::from_u128(id.raw).to_string());
}

#[test]
fn new_goals_have_fresh_identifiers_and_times() {
    let mut store = GoalStore::new();
    let first = store.create(make_params()).expect("first");
    let second = store
        .create(GoalCreateParams { replace_existing: true, ..make_params() })
        .expect("second");
    assert_ne!(first.goal_id, second.goal_id);
    assert!(second.created_at >= first.created_at);
    assert!(first.created_at > 1_600_000_000_000_000);
    assert_eq!(second.created_at, second.updated_at);
}

#[test]
fn faulty_requests_create_nothing() {
    let mut store = GoalStore::new();
    let faults = GoalFaults { objective: Some("too long".into()), token_budget: None };
    let error = store.create(GoalCreateParams { faults, ..make_params() }).unwrap_err();
    assert_eq!(error, GoalError::InvalidObjective("too long".into()));
    let faults = GoalFaults {
        objective: Some("too long".into()),
        token_budget: Some("too small".into()),
    };
    let error = store.create(GoalCreateParams { faults, ..make_params() }).unwrap_err();
    assert_eq!(error, GoalError::InvalidObjective("too small".into()));
    assert!(store.get().is_none());
}

#[test]
fn objectives_are_trimmed() {
    let mut store = GoalStore::new();
    let goal = store
        .create_at(
            GoalCreateParams { objective: "  tidy up \n".into(), ..make_params() },
            GoalId { raw: 9 },
            11,
        )
        .unwrap();
    assert_eq!(goal.objective, "tidy up");
    assert_eq!(goal.goal_id, GoalId { raw: 9 });
    assert_eq!(goal.created_at, 11);
    let goal = store
        .patch_at(
            Some("\t next ".into()),
            None,
            None,
            false,
            session(),
            GoalFaults::default(),
            GoalId { raw: 10 },
            12,
        )
        .unwrap();
    assert_eq!(goal.objective, "next");
    assert_eq!(goal.goal_id, GoalId { raw: 9 });
    assert_eq!(goal.updated_at, 12);
}

#[test]
fn patches_need_a_goal_and_a_change() {
    let mut store = GoalStore::new();
    let none = GoalFaults::default;
    assert_eq!(
        store.patch(None, Some(GoalStatus::Paused), None, true, session(), none()),
        Err(GoalError::NotFound("current".into()))
    );
    assert_eq!(
        store.patch(Some("x".into()), None, None, false, session(), none()),
        Err(GoalError::NotFound("current".into()))
    );
    store.create(make_params()).unwrap();
    assert_eq!(
        store.patch(None, None, None, true, session(), none()),
        Err(GoalError::InvalidTransition)
    );
}

#[test]
fn used_up_budgets_limit_active_goals() {
    let mut goal = goal_with(GoalStatus::Active);
    apply_goal_update(&mut goal, None, Some(1500));
    assert_eq!(goal.status, GoalStatus::BudgetLimited);
    let mut goal = goal_with(GoalStatus::Active);
    apply_goal_update(&mut goal, None, Some(1501));
    assert_eq!(goal.status, GoalStatus::Active);
    let mut goal = goal_with(GoalStatus::Paused);
    goal.budget.token_budget = Some(1);
    apply_goal_budget_limit(&mut goal);
    assert_eq!(goal.status, GoalStatus::Paused);
}

#[test]
fn other_goals_are_not_found() {
    let mut store = GoalStore::new();
    let wanted = GoalMutation { goal_id: GoalId { raw: 1 }, action: GoalAction::Clear };
    assert_eq!(
        store.mutate(wanted.clone()),
        Err(GoalError::NotFound("00000000-0000-0000-0000-000000000001".into()))
    );
    store.create(make_params()).unwrap();
    assert!(matches!(store.mutate(wanted), Err(GoalError::NotFound(_))));
    assert!(store.get().is_some());
}

#[test]
fn goals_fail_and_block_for_a_reason() {
    let mut store = GoalStore { active_goal: Some(goal_with(GoalStatus::Active)) };
    let goal_id = GoalId { raw: 5 };
    let goal = store
        .mutate_at(
            GoalMutation { goal_id, action: GoalAction::Block { reason: "no key".into() } },
            3,
        )
        .unwrap();
    assert_eq!(goal.status, GoalStatus::Blocked);
    assert_eq!(goal.blocker_summary.as_deref(), Some("no key"));
    assert_eq!(goal.updated_at, 3);
    let goal = store
        .mutate_at(
            GoalMutation { goal_id, action: GoalAction::Fail { reason: "gave up".into() } },
            4,
        )
        .unwrap();
    assert_eq!(goal.status, GoalStatus::Failed);
    let goal =
        store.mutate_at(GoalMutation { goal_id, action: GoalAction::Clear }, 5).unwrap();
    assert_eq!(goal.updated_at, 4);
    assert!(store.get().is_none());
}

#[test]
fn goals_can_be_changed_in_place() {
    let mut store = GoalStore { active_goal: Some(goal_with(GoalStatus::Active)) };
    store.get_mut().unwrap().usage.turns_used = 4;
    assert_eq!(store.get().unwrap().usage.turns_used, 4);
    assert!(GoalStore::default().get_mut().is_none());
}

#[test]
fn request_types_hold_their_fields() {
    let pause = GoalPauseParams { session_id: session(), goal_id: "g".into() };
    let resume = GoalResumeParams { session_id: session(), goal_id: "g".into() };
    let complete = GoalCompleteParams {
        session_id: session(),
        goal_id: "g".into(),
        verification_summary: None,
    };
    let clear = GoalClearParams { session_id: session() };
    assert_eq!(pause.goal_id, resume.goal_id);
    assert_eq!(complete.session_id, clear.session_id);
    let result = GoalActionResult {
        goal_id: "g".into(),
        status: "active".into(),
        message: "ok".into(),
    };
    assert_eq!(result.status, "active");
    assert!(GoalStatusResult { goal: None }.goal.is_none());
    assert_eq!(goal_status_from_thread(ThreadGoalStatus::Complete), GoalStatus::Completed);
}

fn set_request(replace: bool) -> GoalSetRequest {
    GoalSetRequest {
        session: session(),
        objective: " Ship it ".into(),
        token_budget: Some(u64::MAX),
        replace,
        faults: GoalFaults::default(),
    }
}

fn stores_with_goal() -> GoalStores {
    let mut stores = GoalStores::new();
    let answer = handle_native_session_goal_set(
        &mut stores,
        None,
        true,
        set_request(false),
        GoalId { raw: 1 },
        10,
    );
    assert!(matches!(answer, GoalAnswer::Done(_)));
    stores
}

#[test]
fn setting_a_goal_lists_what_follows() {
    let mut stores = GoalStores::new();
    let answer = handle_native_session_goal_set(
        &mut stores,
        None,
        true,
        set_request(true),
        GoalId { raw: 1 },
        10,
    );
    let GoalAnswer::Done(plan) = answer else { panic!("not set") };
    assert_eq!(plan.goal.objective, "Ship it");
    assert_eq!(plan.goal.budget.token_budget, None);
    assert_eq!(plan.title.as_deref(), Some("Ship it"));
    assert!(matches!(
        plan.effects[..],
        [
            GoalEffect::RecordCreated,
            GoalEffect::Interrupt("goal replaced"),
            GoalEffect::Sync(true),
            GoalEffect::FollowUp(true),
            GoalEffect::Remember,
            GoalEffect::NotifyCreated
        ]
    ));
    assert_eq!(stores.status(session()).unwrap().goal_id, GoalId { raw: 1 });
}

#[test]
fn repeated_goal_requests_change_nothing() {
    let mut stores = stores_with_goal();
    let mut log: ReplayLog<Goal> = ReplayLog::new();
    log.insert(7, "key".to_string(), stores.status(session()).unwrap().copy());
    let known = log.get(7, "key").unwrap().copy();
    let answer = handle_native_session_goal_set(
        &mut stores,
        Some(&known),
        true,
        set_request(true),
        GoalId { raw: 2 },
        11,
    );
    let GoalAnswer::Replay(goal) = answer else { panic!("not replayed") };
    assert_eq!(goal, known);
    assert_eq!(stores.status(session()).unwrap().goal_id, GoalId { raw: 1 });
    assert!(log.get(8, "key").is_none());
    assert!(log.get(7, "other").is_none());
}

#[test]
fn goals_of_unknown_sessions_are_refused() {
    let mut stores = GoalStores::new();
    let answer =
        handle_goal_create(&mut stores, false, make_params(), GoalId { raw: 1 }, 10);
    let GoalAnswer::Refuse(GoalRefusal::Plain(why)) = answer else { panic!("not refused") };
    assert_eq!(why.code, ErrorCode::SessionNotFound);
    assert_eq!(why.message(), "session does not exist");
    let mut stores = stores_with_goal();
    let answer = handle_goal_create(&mut stores, true, make_params(), GoalId { raw: 2 }, 10);
    assert!(matches!(
        answer,
        GoalAnswer::Refuse(GoalRefusal::Failed("goal creation failed: ", GoalError::AlreadyActive))
    ));
}

fn update_request(
    expected: Option<GoalId>,
    status: Option<GoalStatus>,
    token_budget: PatchField,
) -> GoalUpdateRequest {
    GoalUpdateRequest {
        session: session(),
        expected,
        objective: None,
        status,
        token_budget,
        faults: GoalFaults::default(),
    }
}

fn update_refusal(stores: &mut GoalStores, request: GoalUpdateRequest) -> (ErrorCode, String) {
    let answer =
        handle_native_session_goal_update(stores, None, true, request, GoalId { raw: 3 }, 12);
    let GoalAnswer::Refuse(GoalRefusal::Plain(why)) = answer else { panic!("not refused") };
    (why.code, why.message())
}

#[test]
fn goal_updates_are_checked_in_order() {
    let mut stores = GoalStores::new();
    assert_eq!(
        update_refusal(&mut stores, update_request(None, None, PatchField::Missing)),
        (ErrorCode::GoalNotFound, "no active goal to update".to_string())
    );
    let mut stores = stores_with_goal();
    assert_eq!(
        update_refusal(
            &mut stores,
            update_request(Some(GoalId { raw: 8 }), None, PatchField::Missing)
        ),
        (ErrorCode::GoalNotFound, "goal was replaced; refetch before editing".to_string())
    );
    assert_eq!(
        update_refusal(
            &mut stores,
            update_request(None, Some(GoalStatus::BudgetLimited), PatchField::Null)
        ),
        (
            ErrorCode::InvalidParams,
            "goal status BudgetLimited is system-computed, not editable".to_string()
        )
    );
    assert_eq!(
        update_refusal(&mut stores, update_request(None, None, PatchField::Null)),
        (
            ErrorCode::InvalidParams,
            "clearing the token budget is not in the vocabulary".to_string()
        )
    );
}

#[test]
fn pausing_an_active_goal_interrupts_it() {
    let mut stores = stores_with_goal();
    let answer = handle_native_session_goal_update(
        &mut stores,
        None,
        true,
        update_request(Some(GoalId { raw: 1 }), Some(GoalStatus::Paused), PatchField::Missing),
        GoalId { raw: 3 },
        12,
    );
    let GoalAnswer::Done(plan) = answer else { panic!("not done") };
    assert_eq!(plan.goal.status, GoalStatus::Paused);
    assert!(matches!(
        plan.effects[..],
        [
            GoalEffect::RecordCreated,
            GoalEffect::RecordStatus(GoalStatus::Active),
            GoalEffect::Interrupt("goal status changed from active"),
            GoalEffect::Sync(true),
            GoalEffect::FollowUp(false),
            GoalEffect::Remember
        ]
    ));
}

#[test]
fn budget_limited_goals_stay_limited_when_paused() {
    let mut stores = stores_with_goal();
    handle_goal_set(
        &mut stores,
        true,
        GoalSetParams {
            session_id: session(),
            objective: None,
            status: Some(ThreadGoalStatus::BudgetLimited),
            token_budget: None,
            faults: GoalFaults::default(),
        },
        GoalId { raw: 2 },
        12,
    );
    let answer = handle_goal_set(
        &mut stores,
        true,
        GoalSetParams {
            session_id: session(),
            objective: None,
            status: Some(ThreadGoalStatus::Paused),
            token_budget: None,
            faults: GoalFaults::default(),
        },
        GoalId { raw: 2 },
        13,
    );
    let GoalAnswer::Done(plan) = answer else { panic!("not done") };
    assert_eq!(plan.goal.status, GoalStatus::BudgetLimited);
    assert!(matches!(
        plan.effects[..],
        [GoalEffect::Interrupt("budget-limited goal wrap-up stopped"), GoalEffect::Sync(false)]
    ));
    let answer = handle_native_session_goal_transition(
        &mut stores,
        session(),
        GoalId { raw: 1 },
        "session/goal/pause".to_string(),
        14,
    );
    let GoalAnswer::Done(plan) = answer else { panic!("not done") };
    assert_eq!(plan.goal.status, GoalStatus::BudgetLimited);
}

fn transition(stores: &mut GoalStores, expected: u128, method: &str) -> GoalAnswer {
    handle_native_session_goal_transition(
        stores,
        session(),
        GoalId { raw: expected },
        method.to_string(),
        20,
    )
}

#[test]
fn goal_transitions_follow_the_method() {
    let mut stores = stores_with_goal();
    let GoalAnswer::Done(plan) = transition(&mut stores, 1, "session/goal/complete") else {
        panic!("not done")
    };
    assert_eq!(plan.goal.status, GoalStatus::Completed);
    assert!(matches!(
        plan.effects[..],
        [
            GoalEffect::RecordStatus(GoalStatus::Active),
            GoalEffect::Interrupt("goal completed"),
            GoalEffect::Sync(false),
            GoalEffect::NotifyStatus
        ]
    ));
    assert!(matches!(
        transition(&mut stores, 1, "session/goal/cancel"),
        GoalAnswer::Refuse(GoalRefusal::Failed(
            "goal cancel failed: ",
            GoalError::InvalidTransition
        ))
    ));
    let GoalAnswer::Done(plan) = transition(&mut stores, 1, "session/goal/resume") else {
        panic!("not done")
    };
    assert_eq!(plan.goal.status, GoalStatus::Active);
    let GoalAnswer::Done(plan) = transition(&mut stores, 1, "session/goal/cancel") else {
        panic!("not done")
    };
    assert_eq!(plan.goal.status, GoalStatus::Canceled);
    let GoalAnswer::Refuse(GoalRefusal::Plain(why)) =
        transition(&mut stores, 1, "session/goal/dance")
    else {
        panic!("not refused")
    };
    assert_eq!(why.message(), "unknown goal transition method 'session/goal/dance'");
    let GoalAnswer::Refuse(GoalRefusal::Plain(why)) =
        transition(&mut stores, 2, "session/goal/clear")
    else {
        panic!("not refused")
    };
    assert_eq!(
        why.message(),
        "expected goal id does not match the session's current goal"
    );
    let GoalAnswer::Cleared(effects) = transition(&mut stores, 1, "session/goal/clear") else {
        panic!("not cleared")
    };
    assert!(matches!(
        effects[..],
        [
            GoalEffect::RecordCleared,
            GoalEffect::NotifyCleared,
            GoalEffect::Interrupt("goal cleared"),
            GoalEffect::Sync(false)
        ]
    ));
    let GoalAnswer::Refuse(GoalRefusal::Plain(why)) =
        transition(&mut stores, 1, "session/goal/clear")
    else {
        panic!("not refused")
    };
    assert_eq!(why.message(), "session has no goal");
}

#[test]
fn clearing_says_whether_there_was_a_goal() {
    let mut stores = stores_with_goal();
    let (cleared, effects) = handle_goal_clear(&mut stores, session());
    assert!(cleared);
    assert_eq!(effects.len(), 3);
    let (cleared, effects) = handle_goal_clear(&mut stores, session());
    assert!(!cleared);
    assert!(effects.is_empty());
}

#[test]
fn goals_are_read_unless_cleared() {
    let mut stores = stores_with_goal();
    assert!(stores.read(session()).is_some());
    assert!(stores.read(SessionId { raw: 99 }).is_none());
    handle_goal_clear(&mut stores, session());
    assert!(stores.read(session()).is_none());
}

#[test]
fn goals_are_completed_from_within() {
    let mut stores = GoalStores::new();
    assert!(matches!(
        host_goal_complete(&mut stores, session(), 5),
        HostCompletion::NoGoal
    ));
    assert_eq!(no_goal_message(), "no active goal exists for this session");
    let mut stores = stores_with_goal();
    let HostCompletion::Completed(plan) = host_goal_complete(&mut stores, session(), 5) else {
        panic!("not completed")
    };
    assert_eq!(plan.goal.status, GoalStatus::Completed);
    assert!(matches!(
        plan.effects[..],
        [
            GoalEffect::RecordStatus(GoalStatus::Active),
            GoalEffect::ForgetContinuation,
            GoalEffect::Sync(false),
            GoalEffect::NotifyUpdated,
            GoalEffect::NotifyStatus
        ]
    ));
    handle_goal_clear(&mut stores, session());
    assert!(matches!(
        host_goal_complete(&mut stores, session(), 6),
        HostCompletion::Failed(GoalError::NotFound(_))
    ));
}

#[test]
fn goals_asked_for_from_within_need_an_objective() {
    let read = |text: &str| serde_json::from_str::<serde_json::Value>(text).expect("json");
    let params = host_goal_create_params(
        session(),
        &read(r#"{"objective":"  go on ","token_budget":12}"#),
        GoalFaults::default(),
    )
    .expect("params");
    assert_eq!(params.objective, "go on");
    assert_eq!(params.token_budget, Some(12));
    assert!(params.replace_existing);
    let without = host_goal_create_params(
        session(),
        &read(r#"{"objective":"go","token_budget":"12"}"#),
        GoalFaults::default(),
    )
    .expect("params");
    assert_eq!(without.token_budget, None);
    let large = host_goal_create_params(
        session(),
        &read(r#"{"objective":"go","token_budget":18446744073709551615}"#),
        GoalFaults::default(),
    )
    .expect("params");
    assert_eq!(large.token_budget, None);
    for text in [r#"{"objective":"  "}"#, r#"{"objective":3}"#, "{}", "[]"] {
        assert!(
            host_goal_create_params(session(), &read(text), GoalFaults::default()).is_none()
        );
    }
    assert_eq!(objective_missing_message(), "goal.create requires objective");
}

#[test]
fn only_active_goals_are_worked_on() {
    assert_eq!(sync_core_session_goal(Some(GoalStatus::Active), false, false), GoalSync::Skip);
    assert_eq!(
        sync_core_session_goal(Some(GoalStatus::Active), true, true),
        GoalSync::Leave(true)
    );
    assert_eq!(
        sync_core_session_goal(Some(GoalStatus::Paused), true, false),
        GoalSync::Tell(false)
    );
    assert_eq!(schedule_goal_followup_work(true, true, false), (TitleWork::ApplyAndPolish, true));
    assert_eq!(schedule_goal_followup_work(true, true, true), (TitleWork::Defer, false));
    assert_eq!(schedule_goal_followup_work(false, false, false), (TitleWork::Skip, false));
}
