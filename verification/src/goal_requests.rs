//! Answering requests about the goals of sessions.
//!
//! A request is decided while the goals are locked. What has to be done
//! afterwards, recording, interrupting, announcing, is listed in the answer in
//! the order in which the host does it.

use crate::goal::{
    asked_status, created, goal_status_from_thread, mutated, outcome_view, patched, with_status,
    Goal, GoalAction, GoalCreateParams, GoalError, GoalFault, GoalFaults, GoalId, GoalModel,
    GoalMutation, GoalSetParams, GoalStatus, GoalStore,
};
use crate::json::{
    field_text, integer_of, text_field, tree_field, value_field, value_integer, value_tree, JsonTree,
};
use crate::protocol::{reject, reject_quoting, reject_session_missing, ErrorCode, Rejection, SessionId};
use crate::text::{opt_view, text_equal, trim, trimmed};
use std::collections::HashMap;
use vstd::prelude::*;

verus! {

broadcast use vstd::std_specs::hash::group_hash_axioms;

/// Something to do once a request about a goal is decided.
#[derive(Clone, Copy, Debug)]
pub enum GoalEffect {
    /// Record the goal as it is now.
    RecordCreated,
    /// Record that the status was this one before.
    RecordStatus(GoalStatus),
    RecordCleared,
    /// Interrupt the turn that continues the goal, for this reason.
    Interrupt(&'static str),
    /// Forget which turn continues the goal, without interrupting it.
    ForgetContinuation,
    /// Tell the session about the goal, or that there is none to work on.
    Sync(bool),
    /// Make a title and, where this says so, go on with the goal.
    FollowUp(bool),
    /// Note the answer for the request's key.
    Remember,
    NotifyCreated,
    NotifyUpdated,
    NotifyStatus,
    NotifyCleared,
}

/// Why a request about a goal is refused.
#[derive(Debug)]
pub enum GoalRefusal {
    Plain(Rejection),
    /// The goal does not allow it. The message is the text followed by the
    /// error, with the code for invalid parameters.
    Failed(&'static str, GoalError),
}

/// A decided request: the goal, a text to make a title of, and what to do.
#[derive(Debug)]
pub struct GoalPlan {
    pub goal: Goal,
    pub title: Option<String>,
    pub effects: Vec<GoalEffect>,
}

/// The answer to a request about a goal.
#[derive(Debug)]
pub enum GoalAnswer {
    Refuse(GoalRefusal),
    /// The request was answered before, with this goal.
    Replay(Goal),
    Done(GoalPlan),
    Cleared(Vec<GoalEffect>),
}

/// What an answer says.
pub enum AnswerModel {
    Refuse(ErrorCode, Seq<char>),
    Failed(Seq<char>, GoalFault),
    Replay(GoalModel),
    Done(GoalModel, Option<Seq<char>>, Seq<GoalEffect>),
    Cleared(Seq<GoalEffect>),
}

impl View for GoalAnswer {
    type V = AnswerModel;

    open spec fn view(&self) -> AnswerModel {
        match *self {
            GoalAnswer::Refuse(GoalRefusal::Plain(why)) => AnswerModel::Refuse(
                why.code,
                why.message_view(),
            ),
            GoalAnswer::Refuse(GoalRefusal::Failed(text, error)) => AnswerModel::Failed(
                text@,
                error@,
            ),
            GoalAnswer::Replay(goal) => AnswerModel::Replay(goal@),
            GoalAnswer::Done(plan) => AnswerModel::Done(
                plan.goal@,
                opt_view(plan.title),
                plan.effects@,
            ),
            GoalAnswer::Cleared(effects) => AnswerModel::Cleared(effects@),
        }
    }
}

/// The goal once a request is answered.
pub open spec fn goal_after_answer(goal: Option<GoalModel>, answer: AnswerModel) -> Option<
    GoalModel,
> {
    match answer {
        AnswerModel::Done(after, _, _) => Some(after),
        AnswerModel::Cleared(_) => None,
        _ => goal,
    }
}

/// The goals of all sessions.
#[derive(Debug)]
pub struct GoalStores {
    stores: HashMap<u128, GoalStore>,
}

impl GoalStores {
    /// The stores, by the session that they belong to.
    pub closed spec fn stores(self) -> Map<u128, GoalStore> {
        self.stores@
    }

    /// The goal of a session.
    pub open spec fn goal_of(self, session: SessionId) -> Option<GoalModel> {
        if self.stores().contains_key(session.raw) {
            self.stores()[session.raw].goal()
        } else {
            None
        }
    }

    /// Whether only what is known of `session` may differ.
    pub open spec fn same_elsewhere(self, other: GoalStores, session: SessionId) -> bool {
        self.stores().remove(session.raw) == other.stores().remove(session.raw)
    }

    /// No goals at all.
    pub fn new() -> (r: GoalStores)
        ensures
            r.stores() == Map::<u128, GoalStore>::empty(),
    {
        GoalStores { stores: HashMap::new() }
    }

    fn take(&mut self, session: SessionId) -> (r: GoalStore)
        ensures
            r.goal() == old(self).goal_of(session),
            final(self).stores() == old(self).stores().remove(session.raw),
    {
        match self.stores.remove(&session.raw) {
            Some(store) => store,
            None => GoalStore::new(),
        }
    }

    fn put(&mut self, session: SessionId, store: GoalStore)
        ensures
            final(self).stores() == old(self).stores().insert(session.raw, store),
    {
        self.stores.insert(session.raw, store);
    }

    /// The goal of a session, for clients of the older protocol.
    pub fn status(&self, session: SessionId) -> (r: Option<&Goal>)
        ensures
            match r {
                Some(goal) => self.goal_of(session) == Some(goal@),
                None => self.goal_of(session) is None,
            },
    {
        match self.stores.get(&session.raw) {
            Some(store) => store.get(),
            None => None,
        }
    }

    /// The goal of a session. One that is marked as cleared is not shown.
    pub fn read(&self, session: SessionId) -> (r: Option<&Goal>)
        ensures
            match r {
                Some(goal) => self.goal_of(session) == Some(goal@) && !(goal.status is Cleared),
                None => self.goal_of(session) is None || self.goal_of(session)->0.status is Cleared,
            },
    {
        match self.status(session) {
            Some(goal) => match goal.status {
                GoalStatus::Cleared => None,
                _ => Some(goal),
            },
            None => None,
        }
    }
}

/// A request for a new goal.
#[derive(Debug)]
pub struct GoalSetRequest {
    pub session: SessionId,
    pub objective: String,
    pub token_budget: Option<u64>,
    pub replace: bool,
    pub faults: GoalFaults,
}

/// A budget as goals keep it. One that does not fit is no budget.
pub open spec fn kept_budget(budget: Option<u64>) -> Option<i64> {
    match budget {
        Some(budget) => if budget <= i64::MAX {
            Some(budget as i64)
        } else {
            None
        },
        None => None,
    }
}

/// The request for a new goal as the store takes it.
pub open spec fn create_params(request: GoalSetRequest) -> GoalCreateParams {
    GoalCreateParams {
        session_id: request.session,
        objective: request.objective,
        token_budget: kept_budget(request.token_budget),
        replace_existing: request.replace,
        faults: request.faults,
    }
}

/// What follows on a new goal.
pub open spec fn create_effects(goal: GoalModel, replace: bool) -> Seq<GoalEffect> {
    let interrupt = if replace {
        seq![GoalEffect::Interrupt("goal replaced")]
    } else {
        Seq::empty()
    };
    seq![GoalEffect::RecordCreated] + interrupt + seq![
        GoalEffect::Sync(true),
        GoalEffect::FollowUp(goal.status is Active),
    ]
}

/// The answer where the session is not there.
pub open spec fn no_such_session() -> AnswerModel {
    AnswerModel::Refuse(ErrorCode::SessionNotFound, "session does not exist"@)
}

/// The answer to a request for a new goal of the older protocol.
pub open spec fn create_answer(
    goal: Option<GoalModel>,
    session_known: bool,
    params: GoalCreateParams,
    id: GoalId,
    now: i64,
) -> AnswerModel {
    if !session_known {
        no_such_session()
    } else {
        match created(goal, params, id, now) {
            Ok(after) => AnswerModel::Done(
                after,
                Some(trimmed(params.objective@)),
                create_effects(after, params.replace_existing),
            ),
            Err(fault) => AnswerModel::Failed("goal creation failed: "@, fault),
        }
    }
}

/// The answer with the follow-up that new clients get: it is remembered for
/// the request's key and announced.
pub open spec fn remembered_and_announced(answer: AnswerModel) -> AnswerModel {
    match answer {
        AnswerModel::Done(after, title, effects) => AnswerModel::Done(
            after,
            title,
            effects + seq![GoalEffect::Remember, GoalEffect::NotifyCreated],
        ),
        answer => answer,
    }
}

/// The answer to a request for a new goal.
pub open spec fn set_answer(
    goal: Option<GoalModel>,
    replayed: Option<GoalModel>,
    session_known: bool,
    request: GoalSetRequest,
    id: GoalId,
    now: i64,
) -> AnswerModel {
    match replayed {
        Some(goal) => AnswerModel::Replay(goal),
        None => remembered_and_announced(
            create_answer(goal, session_known, create_params(request), id, now),
        ),
    }
}

/// What a goal that may be absent says.
pub open spec fn goal_view(goal: Option<&Goal>) -> Option<GoalModel> {
    match goal {
        Some(goal) => Some(goal@),
        None => None,
    }
}

fn refuse(why: Rejection) -> (r: GoalAnswer)
    ensures
        r@ == AnswerModel::Refuse(why.code, why.message_view()),
{
    GoalAnswer::Refuse(GoalRefusal::Plain(why))
}

/// Answers a request for a new goal of the older protocol.
pub fn handle_goal_create(
    stores: &mut GoalStores,
    session_known: bool,
    params: GoalCreateParams,
    id: GoalId,
    now: i64,
) -> (r: GoalAnswer)
    ensures
        ({
            let goal = old(stores).goal_of(params.session_id);
            &&& r@ == create_answer(goal, session_known, params, id, now)
            &&& final(stores).goal_of(params.session_id) == goal_after_answer(goal, r@)
        }),
        final(stores).same_elsewhere(*old(stores), params.session_id),
        final(stores).stores().contains_key(params.session_id.raw) == (session_known || old(
            stores,
        ).stores().contains_key(params.session_id.raw)),
{
    if !session_known {
        return refuse(reject_session_missing());
    }
    let session = params.session_id;
    let replace = params.replace_existing;
    let title = trim(params.objective.as_str());
    let ghost before = stores.stores();
    let mut store = stores.take(session);
    let outcome = store.create_at(params, id, now);
    stores.put(session, store);
    assert(stores.stores().remove(session.raw) =~= before.remove(session.raw));
    match outcome {
        Ok(goal) => {
            let mut effects: Vec<GoalEffect> = Vec::new();
            effects.push(GoalEffect::RecordCreated);
            if replace {
                effects.push(GoalEffect::Interrupt("goal replaced"));
            }
            effects.push(GoalEffect::Sync(true));
            let continues = match goal.status {
                GoalStatus::Active => true,
                _ => false,
            };
            effects.push(GoalEffect::FollowUp(continues));
            assert(effects@ =~= create_effects(goal@, replace));
            GoalAnswer::Done(GoalPlan { goal, title: Some(title), effects })
        },
        Err(error) => GoalAnswer::Refuse(GoalRefusal::Failed("goal creation failed: ", error)),
    }
}

/// Answers a request for a new goal. A request that was answered before gets
/// the same answer again.
pub fn handle_native_session_goal_set(
    stores: &mut GoalStores,
    replayed: Option<&Goal>,
    session_known: bool,
    request: GoalSetRequest,
    id: GoalId,
    now: i64,
) -> (r: GoalAnswer)
    ensures
        ({
            let goal = old(stores).goal_of(request.session);
            &&& r@ == set_answer(goal, goal_view(replayed), session_known, request, id, now)
            &&& final(stores).goal_of(request.session) == goal_after_answer(goal, r@)
        }),
        final(stores).same_elsewhere(*old(stores), request.session),
{
    if let Some(goal) = replayed {
        return GoalAnswer::Replay(goal.copy());
    }
    let token_budget = match request.token_budget {
        Some(budget) => {
            if budget <= i64::MAX as u64 {
                Some(budget as i64)
            } else {
                None
            }
        },
        None => None,
    };
    let params = GoalCreateParams {
        session_id: request.session,
        objective: request.objective,
        token_budget,
        replace_existing: request.replace,
        faults: request.faults,
    };
    match handle_goal_create(stores, session_known, params, id, now) {
        GoalAnswer::Done(plan) => {
            let mut plan = plan;
            let ghost effects = plan.effects@;
            plan.effects.push(GoalEffect::Remember);
            plan.effects.push(GoalEffect::NotifyCreated);
            assert(plan.effects@ =~= effects + seq![
                GoalEffect::Remember,
                GoalEffect::NotifyCreated,
            ]);
            GoalAnswer::Done(plan)
        },
        answer => answer,
    }
}

/// An edit of the goal that is to be stored.
#[derive(Debug)]
pub struct GoalEdit {
    pub session: SessionId,
    pub objective: Option<String>,
    pub status: Option<GoalStatus>,
    pub token_budget: Option<i64>,
    pub allow_create: bool,
    pub faults: GoalFaults,
    /// Whether the answer is noted for the request's key.
    pub remember: bool,
}

/// The effect that notes an answer, where it is to be noted.
pub open spec fn remembering(remember: bool) -> Seq<GoalEffect> {
    if remember {
        seq![GoalEffect::Remember]
    } else {
        Seq::empty()
    }
}

/// What follows on an edit of a goal that stood at `before`.
pub open spec fn edit_effects(before: Option<GoalStatus>, after: GoalStatus, remember: bool) -> Seq<
    GoalEffect,
> {
    let base = match before {
        Some(status) => status,
        None => GoalStatus::Active,
    };
    let record = if base != after {
        seq![GoalEffect::RecordStatus(base)]
    } else {
        Seq::empty()
    };
    let was_going_on = before is Some && (before->0 is Active || before->0 is BudgetLimited);
    let interrupt = if was_going_on && !(after is Active) {
        seq![GoalEffect::Interrupt("goal status changed from active")]
    } else {
        Seq::empty()
    };
    seq![GoalEffect::RecordCreated] + record + interrupt + seq![
        GoalEffect::Sync(true),
        GoalEffect::FollowUp(after is Active),
    ] + remembering(remember)
}

/// What follows on pausing a goal that its budget had stopped already.
pub open spec fn wrap_up_effects(remember: bool) -> Seq<GoalEffect> {
    seq![
        GoalEffect::Interrupt("budget-limited goal wrap-up stopped"),
        GoalEffect::Sync(false),
    ] + remembering(remember)
}

/// Whether an edit asks for nothing but a pause.
pub open spec fn only_pauses(edit: GoalEdit) -> bool {
    edit.status == Some(GoalStatus::Paused) && edit.objective is None && edit.token_budget is None
}

/// The text to make a title of.
pub open spec fn edit_title(objective: Option<Seq<char>>) -> Option<Seq<char>> {
    match objective {
        Some(text) if trimmed(text).len() > 0 => Some(trimmed(text)),
        _ => None,
    }
}

/// The answer to an edit. Pausing a goal that its budget stopped leaves it
/// stopped by its budget.
pub open spec fn edit_answer(
    goal: Option<GoalModel>,
    edit: GoalEdit,
    id: GoalId,
    now: i64,
) -> AnswerModel {
    match goal {
        Some(current) if current.status is BudgetLimited && only_pauses(edit) => AnswerModel::Done(
            current,
            None,
            wrap_up_effects(edit.remember),
        ),
        _ => match patched(
            goal,
            opt_view(edit.objective),
            edit.status,
            edit.token_budget,
            edit.allow_create,
            edit.session,
            edit.faults,
            id,
            now,
        ) {
            Ok(after) => AnswerModel::Done(
                after,
                edit_title(opt_view(edit.objective)),
                edit_effects(
                    match goal {
                        Some(current) => Some(current.status),
                        None => None,
                    },
                    after.status,
                    edit.remember,
                ),
            ),
            Err(fault) => AnswerModel::Failed("goal set failed: "@, fault),
        },
    }
}

fn effects_of_edit(before: Option<GoalStatus>, after: GoalStatus, remember: bool) -> (r: Vec<
    GoalEffect,
>)
    ensures
        r@ == edit_effects(before, after, remember),
{
    let mut effects: Vec<GoalEffect> = Vec::new();
    effects.push(GoalEffect::RecordCreated);
    let base = match before {
        Some(status) => status,
        None => GoalStatus::Active,
    };
    if base != after {
        effects.push(GoalEffect::RecordStatus(base));
    }
    let was_going_on = match before {
        Some(GoalStatus::Active) | Some(GoalStatus::BudgetLimited) => true,
        _ => false,
    };
    let continues = match after {
        GoalStatus::Active => true,
        _ => false,
    };
    if was_going_on && !continues {
        effects.push(GoalEffect::Interrupt("goal status changed from active"));
    }
    effects.push(GoalEffect::Sync(true));
    effects.push(GoalEffect::FollowUp(continues));
    if remember {
        effects.push(GoalEffect::Remember);
    }
    assert(effects@ =~= edit_effects(before, after, remember));
    effects
}

fn effects_of_wrap_up(remember: bool) -> (r: Vec<GoalEffect>)
    ensures
        r@ == wrap_up_effects(remember),
{
    let mut effects: Vec<GoalEffect> = Vec::new();
    effects.push(GoalEffect::Interrupt("budget-limited goal wrap-up stopped"));
    effects.push(GoalEffect::Sync(false));
    if remember {
        effects.push(GoalEffect::Remember);
    }
    assert(effects@ =~= wrap_up_effects(remember));
    effects
}

fn title_of_edit(objective: &Option<String>) -> (r: Option<String>)
    ensures
        opt_view(r) == edit_title(opt_view(*objective)),
{
    match objective {
        Some(text) => {
            let text = trim(text.as_str());
            if text_equal(text.as_str(), "") {
                proof {
                    reveal_strlit("");
                }
                None
            } else {
                proof {
                    reveal_strlit("");
                    if text@.len() == 0 {
                        assert(text@ =~= ""@);
                    }
                }
                Some(text)
            }
        },
        None => None,
    }
}

fn edit_goal(stores: &mut GoalStores, edit: GoalEdit, id: GoalId, now: i64) -> (r: GoalAnswer)
    ensures
        ({
            let goal = old(stores).goal_of(edit.session);
            &&& r@ == edit_answer(goal, edit, id, now)
            &&& final(stores).goal_of(edit.session) == goal_after_answer(goal, r@)
        }),
        final(stores).same_elsewhere(*old(stores), edit.session),
{
    let session = edit.session;
    let remember = edit.remember;
    let title = title_of_edit(&edit.objective);
    let only_pauses = edit.objective.is_none() && edit.token_budget.is_none() && match edit.status {
        Some(GoalStatus::Paused) => true,
        _ => false,
    };
    let ghost before = stores.stores();
    let mut store = stores.take(session);
    let previous = match store.get() {
        Some(goal) => {
            let limited = match goal.status {
                GoalStatus::BudgetLimited => true,
                _ => false,
            };
            if limited && only_pauses {
                let goal = goal.copy();
                stores.put(session, store);
                assert(stores.stores().remove(session.raw) =~= before.remove(session.raw));
                return GoalAnswer::Done(
                    GoalPlan { goal, title: None, effects: effects_of_wrap_up(remember) },
                );
            }
            Some(goal.status)
        },
        None => None,
    };
    let outcome = store.patch_at(
        edit.objective,
        edit.status,
        edit.token_budget,
        edit.allow_create,
        session,
        edit.faults,
        id,
        now,
    );
    stores.put(session, store);
    assert(stores.stores().remove(session.raw) =~= before.remove(session.raw));
    match outcome {
        Ok(goal) => {
            let effects = effects_of_edit(previous, goal.status, remember);
            GoalAnswer::Done(GoalPlan { goal, title, effects })
        },
        Err(error) => GoalAnswer::Refuse(GoalRefusal::Failed("goal set failed: ", error)),
    }
}

/// A field of an edit: left alone, taken away, or given a value.
#[derive(Clone, Copy, Debug)]
pub enum PatchField {
    Missing,
    Null,
    Value(i64),
}

/// A request to edit the goal.
#[derive(Debug)]
pub struct GoalUpdateRequest {
    pub session: SessionId,
    pub expected: Option<GoalId>,
    pub objective: Option<String>,
    pub status: Option<GoalStatus>,
    pub token_budget: PatchField,
    pub faults: GoalFaults,
}

/// Whether a client can set the status.
pub open spec fn is_editable(status: GoalStatus) -> bool {
    status is Active || status is Paused || status is Completed
}

/// The edit that a request asks for.
pub open spec fn requested_edit(request: GoalUpdateRequest) -> GoalEdit {
    GoalEdit {
        session: request.session,
        objective: request.objective,
        status: request.status,
        token_budget: match request.token_budget {
            PatchField::Value(budget) => Some(budget),
            _ => None,
        },
        allow_create: false,
        faults: request.faults,
        remember: true,
    }
}

/// The answer to a request to edit the goal.
pub open spec fn update_answer(
    goal: Option<GoalModel>,
    replayed: Option<GoalModel>,
    session_known: bool,
    request: GoalUpdateRequest,
    id: GoalId,
    now: i64,
) -> AnswerModel {
    match goal {
        None => AnswerModel::Refuse(ErrorCode::GoalNotFound, "no active goal to update"@),
        Some(current) => if request.expected is Some && request.expected->0 != current.goal_id {
            AnswerModel::Refuse(
                ErrorCode::GoalNotFound,
                "goal was replaced; refetch before editing"@,
            )
        } else if replayed is Some {
            AnswerModel::Replay(replayed->0)
        } else if request.status is Some && !is_editable(request.status->0) {
            AnswerModel::Refuse(
                ErrorCode::InvalidParams,
                "goal status "@ + request.status->0.name_view()
                    + " is system-computed, not editable"@,
            )
        } else if request.token_budget is Null {
            AnswerModel::Refuse(
                ErrorCode::InvalidParams,
                "clearing the token budget is not in the vocabulary"@,
            )
        } else if !session_known {
            no_such_session()
        } else {
            edit_answer(goal, requested_edit(request), id, now)
        },
    }
}

/// Answers a request to edit the goal in place. What the goal is and what it
/// has used stay.
pub fn handle_native_session_goal_update(
    stores: &mut GoalStores,
    replayed: Option<&Goal>,
    session_known: bool,
    request: GoalUpdateRequest,
    id: GoalId,
    now: i64,
) -> (r: GoalAnswer)
    ensures
        ({
            let goal = old(stores).goal_of(request.session);
            &&& r@ == update_answer(goal, goal_view(replayed), session_known, request, id, now)
            &&& final(stores).goal_of(request.session) == goal_after_answer(goal, r@)
        }),
        final(stores).same_elsewhere(*old(stores), request.session),
{
    match stores.status(request.session) {
        None => {
            return refuse(reject(ErrorCode::GoalNotFound, "no active goal to update"));
        },
        Some(current) => {
            if let Some(expected) = request.expected {
                if expected != current.goal_id {
                    return refuse(
                        reject(
                            ErrorCode::GoalNotFound,
                            "goal was replaced; refetch before editing",
                        ),
                    );
                }
            }
        },
    }
    if let Some(goal) = replayed {
        return GoalAnswer::Replay(goal.copy());
    }
    match request.status {
        None
        | Some(GoalStatus::Active)
        | Some(GoalStatus::Paused)
        | Some(GoalStatus::Completed) => {},
        Some(status) => {
            return refuse(
                reject_quoting(
                    ErrorCode::InvalidParams,
                    "goal status ",
                    status.name().to_owned(),
                    " is system-computed, not editable",
                ),
            );
        },
    }
    let token_budget = match request.token_budget {
        PatchField::Missing => None,
        PatchField::Null => {
            return refuse(
                reject(
                    ErrorCode::InvalidParams,
                    "clearing the token budget is not in the vocabulary",
                ),
            );
        },
        PatchField::Value(budget) => Some(budget),
    };
    if !session_known {
        return refuse(reject_session_missing());
    }
    edit_goal(
        stores,
        GoalEdit {
            session: request.session,
            objective: request.objective,
            status: request.status,
            token_budget,
            allow_create: false,
            faults: request.faults,
            remember: true,
        },
        id,
        now,
    )
}

/// The edit that a request of the older protocol asks for.
pub open spec fn params_edit(params: GoalSetParams) -> GoalEdit {
    GoalEdit {
        session: params.session_id,
        objective: params.objective,
        status: asked_status(params.status),
        token_budget: params.token_budget,
        allow_create: true,
        faults: params.faults,
        remember: false,
    }
}

/// Answers a request of the older protocol to set the goal.
pub fn handle_goal_set(
    stores: &mut GoalStores,
    session_known: bool,
    params: GoalSetParams,
    id: GoalId,
    now: i64,
) -> (r: GoalAnswer)
    ensures
        ({
            let goal = old(stores).goal_of(params.session_id);
            &&& r@ == if session_known {
                edit_answer(goal, params_edit(params), id, now)
            } else {
                no_such_session()
            }
            &&& final(stores).goal_of(params.session_id) == goal_after_answer(goal, r@)
        }),
        final(stores).same_elsewhere(*old(stores), params.session_id),
{
    if !session_known {
        return refuse(reject_session_missing());
    }
    let status = match params.status {
        Some(status) => Some(goal_status_from_thread(status)),
        None => None,
    };
    edit_goal(
        stores,
        GoalEdit {
            session: params.session_id,
            objective: params.objective,
            status,
            token_budget: params.token_budget,
            allow_create: true,
            faults: params.faults,
            remember: false,
        },
        id,
        now,
    )
}

/// What follows on removing a goal.
pub open spec fn clear_effects(announced: bool) -> Seq<GoalEffect> {
    let notice = if announced {
        seq![GoalEffect::NotifyCleared]
    } else {
        Seq::empty()
    };
    seq![GoalEffect::RecordCleared] + notice + seq![
        GoalEffect::Interrupt("goal cleared"),
        GoalEffect::Sync(false),
    ]
}

fn effects_of_clear(announced: bool) -> (r: Vec<GoalEffect>)
    ensures
        r@ == clear_effects(announced),
{
    let mut effects: Vec<GoalEffect> = Vec::new();
    effects.push(GoalEffect::RecordCleared);
    if announced {
        effects.push(GoalEffect::NotifyCleared);
    }
    effects.push(GoalEffect::Interrupt("goal cleared"));
    effects.push(GoalEffect::Sync(false));
    assert(effects@ =~= clear_effects(announced));
    effects
}

/// Removes the goal of a session for a client of the older protocol. Says
/// whether there was one, and what follows.
pub fn handle_goal_clear(stores: &mut GoalStores, session: SessionId) -> (r: (bool, Vec<GoalEffect>))
    ensures
        r.0 == old(stores).goal_of(session) is Some,
        r.1@ == if r.0 {
            clear_effects(false)
        } else {
            Seq::empty()
        },
        final(stores).goal_of(session) is None,
        final(stores).same_elsewhere(*old(stores), session),
{
    let ghost before = stores.stores();
    let mut store = stores.take(session);
    let cleared = store.clear();
    stores.put(session, store);
    assert(stores.stores().remove(session.raw) =~= before.remove(session.raw));
    if cleared {
        (true, effects_of_clear(false))
    } else {
        (false, Vec::new())
    }
}

/// What follows on a transition that ends work on the goal.
pub open spec fn ending_effects(before: GoalStatus, reason: &'static str) -> Seq<GoalEffect> {
    seq![
        GoalEffect::RecordStatus(before),
        GoalEffect::Interrupt(reason),
        GoalEffect::Sync(false),
        GoalEffect::NotifyStatus,
    ]
}

/// What follows on pausing a goal.
pub open spec fn pause_effects(before: GoalStatus) -> Seq<GoalEffect> {
    let interrupt = if before is Active {
        seq![GoalEffect::Interrupt("goal paused")]
    } else {
        Seq::empty()
    };
    seq![GoalEffect::RecordStatus(before)] + interrupt + seq![GoalEffect::Sync(false)]
}

/// The answer to a transition of the current goal.
pub open spec fn transition_of(goal: GoalModel, method: Seq<char>, now: i64) -> AnswerModel {
    if method == "session/goal/clear"@ {
        AnswerModel::Cleared(clear_effects(true))
    } else if method == "session/goal/pause"@ {
        if goal.status is BudgetLimited {
            AnswerModel::Done(goal, None, wrap_up_effects(false))
        } else {
            AnswerModel::Done(
                with_status(Some(goal), GoalStatus::Paused, now)->Ok_0,
                None,
                pause_effects(goal.status),
            )
        }
    } else if method == "session/goal/resume"@ {
        AnswerModel::Done(
            with_status(Some(goal), GoalStatus::Active, now)->Ok_0,
            None,
            seq![
                GoalEffect::RecordStatus(goal.status),
                GoalEffect::Sync(true),
                GoalEffect::FollowUp(true),
                GoalEffect::NotifyStatus,
            ],
        )
    } else if method == "session/goal/complete"@ {
        AnswerModel::Done(
            with_status(Some(goal), GoalStatus::Completed, now)->Ok_0,
            None,
            ending_effects(goal.status, "goal completed"),
        )
    } else if method == "session/goal/cancel"@ {
        match mutated(
            Some(goal),
            GoalMutation { goal_id: goal.goal_id, action: GoalAction::Cancel },
            now,
        ) {
            Ok(after) => AnswerModel::Done(
                after,
                None,
                ending_effects(goal.status, "goal canceled"),
            ),
            Err(fault) => AnswerModel::Failed("goal cancel failed: "@, fault),
        }
    } else {
        AnswerModel::Refuse(
            ErrorCode::InvalidParams,
            "unknown goal transition method '"@ + method + "'"@,
        )
    }
}

/// The answer to a request for a transition: the goal has to be the one that
/// the client means.
pub open spec fn transition_answer(
    goal: Option<GoalModel>,
    expected: GoalId,
    method: Seq<char>,
    now: i64,
) -> AnswerModel {
    match goal {
        None => AnswerModel::Refuse(ErrorCode::GoalNotFound, "session has no goal"@),
        Some(current) => if expected != current.goal_id {
            AnswerModel::Refuse(
                ErrorCode::GoalNotFound,
                "expected goal id does not match the session's current goal"@,
            )
        } else {
            transition_of(current, method, now)
        },
    }
}

fn effects_of_ending(before: GoalStatus, reason: &'static str) -> (r: Vec<GoalEffect>)
    ensures
        r@ == ending_effects(before, reason),
{
    let mut effects: Vec<GoalEffect> = Vec::new();
    effects.push(GoalEffect::RecordStatus(before));
    effects.push(GoalEffect::Interrupt(reason));
    effects.push(GoalEffect::Sync(false));
    effects.push(GoalEffect::NotifyStatus);
    assert(effects@ =~= ending_effects(before, reason));
    effects
}

fn effects_of_pause(before: GoalStatus) -> (r: Vec<GoalEffect>)
    ensures
        r@ == pause_effects(before),
{
    let mut effects: Vec<GoalEffect> = Vec::new();
    effects.push(GoalEffect::RecordStatus(before));
    match before {
        GoalStatus::Active => {
            effects.push(GoalEffect::Interrupt("goal paused"));
        },
        _ => {},
    }
    effects.push(GoalEffect::Sync(false));
    assert(effects@ =~= pause_effects(before));
    effects
}

fn effects_of_resume(before: GoalStatus) -> (r: Vec<GoalEffect>)
    ensures
        r@ == seq![
            GoalEffect::RecordStatus(before),
            GoalEffect::Sync(true),
            GoalEffect::FollowUp(true),
            GoalEffect::NotifyStatus,
        ],
{
    let mut effects: Vec<GoalEffect> = Vec::new();
    effects.push(GoalEffect::RecordStatus(before));
    effects.push(GoalEffect::Sync(true));
    effects.push(GoalEffect::FollowUp(true));
    effects.push(GoalEffect::NotifyStatus);
    assert(effects@ =~= seq![
        GoalEffect::RecordStatus(before),
        GoalEffect::Sync(true),
        GoalEffect::FollowUp(true),
        GoalEffect::NotifyStatus,
    ]);
    effects
}

fn answer_with(
    outcome: Result<Goal, GoalError>,
    text: &'static str,
    effects: Vec<GoalEffect>,
) -> (r: GoalAnswer)
    ensures
        r@ == match outcome_view(outcome) {
            Ok(goal) => AnswerModel::Done(goal, None, effects@),
            Err(fault) => AnswerModel::Failed(text@, fault),
        },
{
    match outcome {
        Ok(goal) => GoalAnswer::Done(GoalPlan { goal, title: None, effects }),
        Err(error) => GoalAnswer::Refuse(GoalRefusal::Failed(text, error)),
    }
}

fn change_goal(store: &mut GoalStore, current: &Goal, method: String, now: i64) -> (r: GoalAnswer)
    requires
        old(store).goal() == Some(current@),
    ensures
        r@ == transition_of(current@, method@, now),
        final(store).goal() == goal_after_answer(Some(current@), r@),
{
    let before = current.status;
    if text_equal(method.as_str(), "session/goal/clear") {
        store.clear();
        GoalAnswer::Cleared(effects_of_clear(true))
    } else if text_equal(method.as_str(), "session/goal/pause") {
        match before {
            GoalStatus::BudgetLimited => GoalAnswer::Done(
                GoalPlan { goal: current.copy(), title: None, effects: effects_of_wrap_up(false) },
            ),
            _ => answer_with(
                store.set_status_at(GoalStatus::Paused, now),
                "goal pause failed: ",
                effects_of_pause(before),
            ),
        }
    } else if text_equal(method.as_str(), "session/goal/resume") {
        answer_with(
            store.set_status_at(GoalStatus::Active, now),
            "goal resume failed: ",
            effects_of_resume(before),
        )
    } else if text_equal(method.as_str(), "session/goal/complete") {
        answer_with(
            store.set_status_at(GoalStatus::Completed, now),
            "goal complete failed: ",
            effects_of_ending(before, "goal completed"),
        )
    } else if text_equal(method.as_str(), "session/goal/cancel") {
        answer_with(
            store.mutate_at(
                GoalMutation { goal_id: current.goal_id, action: GoalAction::Cancel },
                now,
            ),
            "goal cancel failed: ",
            effects_of_ending(before, "goal canceled"),
        )
    } else {
        refuse(
            reject_quoting(
                ErrorCode::InvalidParams,
                "unknown goal transition method '",
                method,
                "'",
            ),
        )
    }
}

/// Answers a request for a transition of the goal: to pause, resume, complete,
/// cancel or clear it.
pub fn handle_native_session_goal_transition(
    stores: &mut GoalStores,
    session: SessionId,
    expected: GoalId,
    method: String,
    now: i64,
) -> (r: GoalAnswer)
    ensures
        ({
            let goal = old(stores).goal_of(session);
            &&& r@ == transition_answer(goal, expected, method@, now)
            &&& final(stores).goal_of(session) == goal_after_answer(goal, r@)
        }),
        final(stores).same_elsewhere(*old(stores), session),
{
    let current = match stores.status(session) {
        None => {
            return refuse(reject(ErrorCode::GoalNotFound, "session has no goal"));
        },
        Some(current) => current.copy(),
    };
    if expected != current.goal_id {
        return refuse(
            reject(
                ErrorCode::GoalNotFound,
                "expected goal id does not match the session's current goal",
            ),
        );
    }
    let ghost before = stores.stores();
    let mut store = stores.take(session);
    let answer = change_goal(&mut store, &current, method, now);
    stores.put(session, store);
    assert(stores.stores().remove(session.raw) =~= before.remove(session.raw));
    answer
}

/// How completing a goal from within a running turn ends.
#[derive(Debug)]
pub enum HostCompletion {
    /// The session never had a goal.
    NoGoal,
    Failed(GoalError),
    Completed(GoalPlan),
}

/// What is said where the session never had a goal.
pub fn no_goal_message() -> (r: &'static str)
    ensures
        r@ == "no active goal exists for this session"@,
{
    "no active goal exists for this session"
}

/// What follows on completing a goal from within its own turn: the turn is not
/// interrupted.
pub open spec fn host_complete_effects(before: GoalStatus) -> Seq<GoalEffect> {
    seq![
        GoalEffect::RecordStatus(before),
        GoalEffect::ForgetContinuation,
        GoalEffect::Sync(false),
        GoalEffect::NotifyUpdated,
        GoalEffect::NotifyStatus,
    ]
}

/// Whether the goal of a session is completed from within a turn in this way.
pub open spec fn is_host_completion(
    before: GoalStores,
    session: SessionId,
    now: i64,
    r: HostCompletion,
    after: GoalStores,
) -> bool {
    match r {
        HostCompletion::NoGoal => {
            &&& !before.stores().contains_key(session.raw)
            &&& after == before
        },
        HostCompletion::Failed(error) => {
            &&& before.stores().contains_key(session.raw)
            &&& before.goal_of(session) is None
            &&& error@ == GoalFault::NotFound("current"@)
            &&& after.goal_of(session) is None
        },
        HostCompletion::Completed(plan) => {
            let outcome = with_status(before.goal_of(session), GoalStatus::Completed, now);
            &&& before.goal_of(session) is Some
            &&& outcome == Ok::<GoalModel, GoalFault>(plan.goal@)
            &&& after.goal_of(session) == Some(plan.goal@)
            &&& plan.title is None
            &&& plan.effects@ == host_complete_effects(before.goal_of(session)->0.status)
        },
    }
}

/// Completes the goal of a session from within a running turn.
pub fn host_goal_complete(stores: &mut GoalStores, session: SessionId, now: i64) -> (r: HostCompletion)
    ensures
        final(stores).same_elsewhere(*old(stores), session),
        is_host_completion(*old(stores), session, now, r, *final(stores)),
{
    if !stores.stores.contains_key(&session.raw) {
        return HostCompletion::NoGoal;
    }
    let ghost before = stores.stores();
    let mut store = stores.take(session);
    let previous = match store.get() {
        Some(goal) => goal.status,
        None => GoalStatus::Active,
    };
    let outcome = store.set_status_at(GoalStatus::Completed, now);
    stores.put(session, store);
    assert(stores.stores().remove(session.raw) =~= before.remove(session.raw));
    match outcome {
        Ok(goal) => {
            let mut effects: Vec<GoalEffect> = Vec::new();
            effects.push(GoalEffect::RecordStatus(previous));
            effects.push(GoalEffect::ForgetContinuation);
            effects.push(GoalEffect::Sync(false));
            effects.push(GoalEffect::NotifyUpdated);
            effects.push(GoalEffect::NotifyStatus);
            assert(effects@ =~= host_complete_effects(previous));
            HostCompletion::Completed(GoalPlan { goal, title: None, effects })
        },
        Err(error) => HostCompletion::Failed(error),
    }
}

/// The objective and the budget that a running turn asks for.
pub open spec fn host_request_of(params: JsonTree) -> Option<(Seq<char>, Option<i64>)> {
    match text_field(params, "objective"@) {
        Some(text) if trimmed(text).len() > 0 => Some(
            (
                trimmed(text),
                match tree_field(params, "token_budget"@) {
                    Some(field) => integer_of(field),
                    None => None,
                },
            ),
        ),
        _ => None,
    }
}

/// Reads the request of a running turn for a new goal: the goal replaces the
/// one that is there. Without an objective there is no request.
pub fn host_goal_create_params(
    session: SessionId,
    params: &serde_json::Value,
    faults: GoalFaults,
) -> (r: Option<GoalCreateParams>)
    ensures
        match (r, host_request_of(value_tree(*params))) {
            (Some(made), Some((objective, token_budget))) => {
                &&& made.session_id == session
                &&& made.objective@ == objective
                &&& made.token_budget == token_budget
                &&& made.replace_existing
                &&& made.faults == faults
            },
            (None, None) => true,
            _ => false,
        },
{
    let objective = title_of_edit(&field_text(params, "objective"));
    match objective {
        Some(objective) => {
            let token_budget = match value_field(params, "token_budget") {
                Some(field) => value_integer(field),
                None => None,
            };
            Some(
                GoalCreateParams {
                    session_id: session,
                    objective,
                    token_budget,
                    replace_existing: true,
                    faults,
                },
            )
        },
        None => None,
    }
}

/// What is said where a running turn asks for a goal without an objective.
pub fn objective_missing_message() -> (r: &'static str)
    ensures
        r@ == "goal.create requires objective"@,
{
    "goal.create requires objective"
}

/// How the session is told about a goal.
#[derive(Clone, Copy, Debug, PartialEq, Eq, Structural)]
pub enum GoalSync {
    /// The session is not there.
    Skip,
    /// A turn is running: leave word without waiting. Says whether there is a
    /// goal to work on.
    Leave(bool),
    /// Tell it and wait. Says whether there is a goal to work on.
    Tell(bool),
}

/// How the session is told about a goal.
pub open spec fn goal_sync(
    goal: Option<GoalStatus>,
    session_known: bool,
    turn_active: bool,
) -> GoalSync {
    if !session_known {
        GoalSync::Skip
    } else if turn_active {
        GoalSync::Leave(goal == Some(GoalStatus::Active))
    } else {
        GoalSync::Tell(goal == Some(GoalStatus::Active))
    }
}

/// How the session is told about a goal. Only an active goal is worked on.
pub fn sync_core_session_goal(
    goal: Option<GoalStatus>,
    session_known: bool,
    turn_active: bool,
) -> (r: GoalSync)
    ensures
        r == goal_sync(goal, session_known, turn_active),
{
    let works = match goal {
        Some(GoalStatus::Active) => true,
        _ => false,
    };
    if !session_known {
        GoalSync::Skip
    } else if turn_active {
        GoalSync::Leave(works)
    } else {
        GoalSync::Tell(works)
    }
}

/// How a title is made.
#[derive(Clone, Copy, Debug, PartialEq, Eq, Structural)]
pub enum TitleWork {
    Skip,
    /// Make one in the background.
    Defer,
    /// Make one now and have it polished in the background.
    ApplyAndPolish,
}

/// What follows on a new or edited goal.
pub open spec fn followup_work(
    has_title: bool,
    continues: bool,
    turn_active: bool,
) -> (TitleWork, bool) {
    (
        if !has_title {
            TitleWork::Skip
        } else if turn_active {
            TitleWork::Defer
        } else {
            TitleWork::ApplyAndPolish
        },
        continues && !turn_active,
    )
}

/// What follows on a new or edited goal: how a title is made, and whether a
/// turn that goes on with the goal is started.
pub fn schedule_goal_followup_work(has_title: bool, continues: bool, turn_active: bool) -> (r: (
    TitleWork,
    bool,
))
    ensures
        r == followup_work(has_title, continues, turn_active),
{
    let title = if !has_title {
        TitleWork::Skip
    } else if turn_active {
        TitleWork::Defer
    } else {
        TitleWork::ApplyAndPolish
    };
    (title, continues && !turn_active)
}

/// A request that names another goal than the current one changes nothing.
pub proof fn law_stale_requests_change_nothing(
    goal: Option<GoalModel>,
    replayed: Option<GoalModel>,
    session_known: bool,
    request: GoalUpdateRequest,
    expected: GoalId,
    method: Seq<char>,
    id: GoalId,
    now: i64,
)
    requires
        goal is None || goal->0.goal_id != expected,
        request.expected == Some(expected),
    ensures
        goal_after_answer(goal, transition_answer(goal, expected, method, now)) == goal,
        goal_after_answer(
            goal,
            update_answer(goal, replayed, session_known, request, id, now),
        ) == goal,
        transition_answer(goal, expected, method, now) is Refuse,
        update_answer(goal, replayed, session_known, request, id, now) is Refuse,
{
}

/// A repeated request to set a goal is answered as before and changes nothing.
pub proof fn law_repeated_requests_change_nothing(
    goal: Option<GoalModel>,
    answered: GoalModel,
    session_known: bool,
    request: GoalSetRequest,
    id: GoalId,
    now: i64,
)
    ensures
        set_answer(goal, Some(answered), session_known, request, id, now) == AnswerModel::Replay(
            answered,
        ),
        goal_after_answer(
            goal,
            set_answer(goal, Some(answered), session_known, request, id, now),
        ) == goal,
{
}

/// Pausing a goal that its budget stopped leaves it as it is, whichever way the
/// client asks.
pub proof fn law_budget_limited_goals_are_not_paused(
    goal: GoalModel,
    edit: GoalEdit,
    id: GoalId,
    now: i64,
)
    requires
        goal.status is BudgetLimited,
        only_pauses(edit),
    ensures
        goal_after_answer(Some(goal), edit_answer(Some(goal), edit, id, now)) == Some(goal),
        goal_after_answer(
            Some(goal),
            transition_answer(Some(goal), goal.goal_id, "session/goal/pause"@, now),
        ) == Some(goal),
{
    reveal_strlit("session/goal/pause");
    reveal_strlit("session/goal/clear");
    assert("session/goal/pause"@[13] == 'p');
    assert("session/goal/clear"@[13] == 'c');
}

/// Work on a goal is interrupted before the session learns of the change.
pub proof fn law_interrupt_comes_before_sync(goal: Option<GoalModel>, edit: GoalEdit, id: GoalId, now: i64)
    ensures
        match edit_answer(goal, edit, id, now) {
            AnswerModel::Done(_, _, effects) => forall|i: int, j: int|
                0 <= i < effects.len() && 0 <= j < effects.len() && #[trigger] effects[i] is Interrupt
                    && #[trigger] effects[j] is Sync ==> i < j,
            _ => true,
        },
{
}

/// Whether the effects of an answer hold an interruption of the running turn.
pub open spec fn interrupts(effects: Seq<GoalEffect>) -> bool {
    exists|i: int| 0 <= i < effects.len() && #[trigger] effects[i] is Interrupt
}

proof fn lemma_methods_differ()
    ensures
        "session/goal/clear"@ != "session/goal/pause"@,
        "session/goal/clear"@ != "session/goal/resume"@,
        "session/goal/clear"@ != "session/goal/complete"@,
        "session/goal/clear"@ != "session/goal/cancel"@,
        "session/goal/pause"@ != "session/goal/resume"@,
        "session/goal/pause"@ != "session/goal/complete"@,
        "session/goal/pause"@ != "session/goal/cancel"@,
        "session/goal/resume"@ != "session/goal/complete"@,
        "session/goal/resume"@ != "session/goal/cancel"@,
        "session/goal/complete"@ != "session/goal/cancel"@,
{
    reveal_strlit("session/goal/clear");
    reveal_strlit("session/goal/pause");
    reveal_strlit("session/goal/resume");
    reveal_strlit("session/goal/complete");
    reveal_strlit("session/goal/cancel");
    assert("session/goal/clear"@.len() == 18 && "session/goal/clear"@[13] == 'c');
    assert("session/goal/pause"@.len() == 18 && "session/goal/pause"@[13] == 'p');
    assert("session/goal/resume"@.len() == 19 && "session/goal/resume"@[13] == 'r');
    assert("session/goal/complete"@.len() == 21);
    assert("session/goal/cancel"@.len() == 19 && "session/goal/cancel"@[13] == 'c');
}

/// The session's goal, where the request names it, goes where the method says:
/// a resumed goal is active and is followed up, a paused or completed one is
/// that, a canceled one is canceled where it has not ended yet, and a cleared
/// one is gone. Any other method is refused.
pub proof fn law_transitions_lead_where_they_say(
    before: GoalStores,
    session: SessionId,
    expected: GoalId,
    method: Seq<char>,
    now: i64,
    r: GoalAnswer,
    after: GoalStores,
)
    requires
        r@ == transition_answer(before.goal_of(session), expected, method, now),
        after.goal_of(session) == goal_after_answer(before.goal_of(session), r@),
        before.goal_of(session) is Some,
        before.goal_of(session)->0.goal_id == expected,
    ensures
        ({
            let was = before.goal_of(session)->0.status;
            let now_is = after.goal_of(session);
            &&& method == "session/goal/resume"@ ==> (r matches GoalAnswer::Done(plan) && {
                &&& plan.goal.status is Active
                &&& now_is == Some(plan.goal@)
                &&& plan.effects@.contains(GoalEffect::FollowUp(true))
                &&& plan.effects@.contains(GoalEffect::Sync(true))
                &&& plan.effects@.contains(GoalEffect::RecordStatus(was))
                &&& plan.effects@.contains(GoalEffect::NotifyStatus)
            })
            &&& method == "session/goal/pause"@ && !(was is BudgetLimited) ==> (
            r matches GoalAnswer::Done(plan) && {
                &&& plan.goal.status is Paused
                &&& now_is == Some(plan.goal@)
                &&& interrupts(plan.effects@) <==> was is Active
                &&& plan.effects@.contains(GoalEffect::Sync(false))
                &&& plan.effects@.contains(GoalEffect::RecordStatus(was))
            })
            &&& method == "session/goal/pause"@ && was is BudgetLimited ==> (
            r matches GoalAnswer::Done(plan) && {
                &&& plan.goal.status is BudgetLimited
                &&& interrupts(plan.effects@)
                &&& plan.effects@.contains(GoalEffect::Sync(false))
            })
            &&& method == "session/goal/complete"@ ==> (r matches GoalAnswer::Done(plan) && {
                &&& plan.goal.status is Completed
                &&& now_is == Some(plan.goal@)
                &&& interrupts(plan.effects@)
                &&& plan.effects@.contains(GoalEffect::Sync(false))
                &&& plan.effects@.contains(GoalEffect::RecordStatus(was))
                &&& plan.effects@.contains(GoalEffect::NotifyStatus)
            })
            &&& method == "session/goal/cancel"@ && (was is Active || was is Paused || was
                is Blocked || was is BudgetLimited) ==> (r matches GoalAnswer::Done(plan) && {
                &&& plan.goal.status is Canceled
                &&& now_is == Some(plan.goal@)
                &&& interrupts(plan.effects@)
                &&& plan.effects@.contains(GoalEffect::Sync(false))
                &&& plan.effects@.contains(GoalEffect::RecordStatus(was))
                &&& plan.effects@.contains(GoalEffect::NotifyStatus)
            })
            &&& method == "session/goal/cancel"@ && !(was is Active || was is Paused || was
                is Blocked || was is BudgetLimited) ==> r is Refuse && now_is == before.goal_of(
                session,
            )
            &&& method == "session/goal/clear"@ ==> (r matches GoalAnswer::Cleared(effects) && {
                &&& now_is is None
                &&& interrupts(effects@)
                &&& effects@.contains(GoalEffect::RecordCleared)
                &&& effects@.contains(GoalEffect::NotifyCleared)
                &&& effects@.contains(GoalEffect::Sync(false))
            })
            &&& method != "session/goal/resume"@ && method != "session/goal/pause"@ && method
                != "session/goal/complete"@ && method != "session/goal/cancel"@ && method
                != "session/goal/clear"@ ==> (r matches GoalAnswer::Refuse(
                GoalRefusal::Plain(why),
            ) && why.code is InvalidParams && now_is == before.goal_of(session))
        }),
{
    lemma_methods_differ();
    let goal = before.goal_of(session)->0;
    let effects = match r@ {
        AnswerModel::Done(_, _, effects) => effects,
        AnswerModel::Cleared(effects) => effects,
        _ => Seq::empty(),
    };
    if method == "session/goal/resume"@ {
        assert(effects[0] == GoalEffect::RecordStatus(goal.status));
        assert(effects[1] == GoalEffect::Sync(true));
        assert(effects[2] == GoalEffect::FollowUp(true));
        assert(effects[3] == GoalEffect::NotifyStatus);
    } else if method == "session/goal/pause"@ {
        if goal.status is BudgetLimited {
            assert(effects[0] is Interrupt);
            assert(effects[1] == GoalEffect::Sync(false));
        } else if goal.status is Active {
            assert(effects[0] == GoalEffect::RecordStatus(goal.status));
            assert(effects[1] is Interrupt);
            assert(effects[2] == GoalEffect::Sync(false));
        } else {
            assert(effects.len() == 2);
            assert(effects[0] == GoalEffect::RecordStatus(goal.status));
            assert(effects[1] == GoalEffect::Sync(false));
        }
    } else if method == "session/goal/complete"@ || method == "session/goal/cancel"@ {
        if r@ is Done {
            assert(effects[0] == GoalEffect::RecordStatus(goal.status));
            assert(effects[1] is Interrupt);
            assert(effects[2] == GoalEffect::Sync(false));
            assert(effects[3] == GoalEffect::NotifyStatus);
        }
    } else if method == "session/goal/clear"@ {
        assert(effects[0] == GoalEffect::RecordCleared);
        assert(effects[1] == GoalEffect::NotifyCleared);
        assert(effects[2] is Interrupt);
        assert(effects[3] == GoalEffect::Sync(false));
    }
}

/// A session gets the goal that is asked for, where the session is known, the
/// goal is sound and no other goal is in the way; the goal is recorded, told to
/// the session, followed up, remembered and announced, and gives the session its
/// title. A goal that it replaces is interrupted first.
pub proof fn law_goals_are_set_as_asked(
    before: GoalStores,
    known: bool,
    request: GoalSetRequest,
    id: GoalId,
    now: i64,
    r: GoalAnswer,
    after: GoalStores,
)
    requires
        r@ == set_answer(before.goal_of(request.session), None, known, request, id, now),
        after.goal_of(request.session) == goal_after_answer(before.goal_of(request.session), r@),
    ensures
        r is Done <==> known && (before.goal_of(request.session) is None || request.replace)
            && request.faults.token_budget is None && request.faults.objective is None,
        r is Done || r is Refuse,
        !known ==> (r matches GoalAnswer::Refuse(GoalRefusal::Plain(why)) && why.code
            is SessionNotFound),
        r is Refuse ==> after.goal_of(request.session) == before.goal_of(request.session),
        r matches GoalAnswer::Done(plan) ==> {
            &&& after.goal_of(request.session) == Some(plan.goal@)
            &&& plan.goal.goal_id == id
            &&& plan.goal.session_id == request.session
            &&& plan.goal.objective@ == trimmed(request.objective@)
            &&& plan.goal.status is Active
            &&& request.token_budget is None ==> plan.goal.budget.token_budget is None
            &&& request.token_budget is Some && request.token_budget->0 <= i64::MAX
                ==> plan.goal.budget.token_budget is Some && plan.goal.budget.token_budget->0
                == request.token_budget->0
            &&& request.token_budget is Some && request.token_budget->0 > i64::MAX
                ==> plan.goal.budget.token_budget is None
            &&& plan.title is Some && plan.title->0@ == trimmed(request.objective@)
            &&& plan.effects@.contains(GoalEffect::RecordCreated)
            &&& interrupts(plan.effects@) <==> request.replace
            &&& plan.effects@.contains(GoalEffect::Sync(true))
            &&& plan.effects@.contains(GoalEffect::FollowUp(true))
            &&& plan.effects@.contains(GoalEffect::Remember)
            &&& plan.effects@.contains(GoalEffect::NotifyCreated)
        },
{
    if r is Done {
        let effects = r->Done_0.effects@;
        assert(effects[0] == GoalEffect::RecordCreated);
        if request.replace {
            assert(effects[1] is Interrupt);
            assert(effects[2] == GoalEffect::Sync(true));
            assert(effects[3] == GoalEffect::FollowUp(true));
            assert(effects[4] == GoalEffect::Remember);
            assert(effects[5] == GoalEffect::NotifyCreated);
        } else {
            assert(effects.len() == 5);
            assert(effects[1] == GoalEffect::Sync(true));
            assert(effects[2] == GoalEffect::FollowUp(true));
            assert(effects[3] == GoalEffect::Remember);
            assert(effects[4] == GoalEffect::NotifyCreated);
        }
    }
}

/// A client changes the goal that it knows: another, or none, is answered as
/// not found, a status that only the system sets and the removal of a budget are
/// refused, and any other change is made.
pub proof fn law_updates_change_the_known_goal(
    before: GoalStores,
    replayed: Option<GoalModel>,
    known: bool,
    request: GoalUpdateRequest,
    id: GoalId,
    now: i64,
    r: GoalAnswer,
    after: GoalStores,
)
    requires
        r@ == update_answer(before.goal_of(request.session), replayed, known, request, id, now),
        after.goal_of(request.session) == goal_after_answer(before.goal_of(request.session), r@),
    ensures
        ({
            let goal = before.goal_of(request.session);
            let meant = goal is Some && (request.expected is None || request.expected->0
                == goal->0.goal_id);
            let fresh = meant && replayed is None;
            let sets_fixed = request.status is Some && !(request.status->0 is Active
                || request.status->0 is Paused || request.status->0 is Completed);
            let allowed = fresh && !sets_fixed && !(request.token_budget is Null);
            &&& !meant ==> (r matches GoalAnswer::Refuse(GoalRefusal::Plain(why)) && why.code
                is GoalNotFound)
            &&& meant && replayed is Some ==> (r matches GoalAnswer::Replay(goal) && goal@
                == replayed->0)
            &&& fresh && (sets_fixed || request.token_budget is Null) ==> (
            r matches GoalAnswer::Refuse(GoalRefusal::Plain(why)) && why.code is InvalidParams)
            &&& allowed && !known ==> (r matches GoalAnswer::Refuse(GoalRefusal::Plain(why))
                && why.code is SessionNotFound)
            &&& allowed && known && (request.objective is Some || request.status is Some
                || request.token_budget is Value) && request.faults.token_budget is None
                && request.faults.objective is None ==> r is Done
            &&& !(r is Done) ==> after.goal_of(request.session) == goal
            &&& r matches GoalAnswer::Done(plan) ==> {
                &&& allowed && known
                &&& after.goal_of(request.session) == Some(plan.goal@)
                &&& plan.goal.goal_id == goal->0.goal_id
                &&& request.objective is Some ==> plan.goal.objective@ == trimmed(
                    request.objective->0@,
                )
                &&& request.status is Some && !(goal->0.status is BudgetLimited)
                    && !(request.status->0 is Active) ==> plan.goal.status == request.status->0
                &&& request.token_budget matches PatchField::Value(budget) ==>
                    plan.goal.budget.token_budget == Some(budget)
                &&& plan.effects@.contains(GoalEffect::Remember)
            }
        }),
{
    if r is Done {
        let effects = r->Done_0.effects@;
        assert(effects.last() == GoalEffect::Remember);
        assert(effects[effects.len() - 1] == GoalEffect::Remember);
    }
}

/// An edit that takes a goal out of work interrupts the turn that works on it,
/// a change of status is recorded with the status before, and the session hears
/// of the goal, which is followed up exactly where it is active.
pub proof fn law_edits_are_followed_up(
    before: Option<GoalStatus>,
    after: GoalStatus,
    remember: bool,
)
    ensures
        ({
            let effects = edit_effects(before, after, remember);
            &&& effects.contains(GoalEffect::RecordCreated)
            &&& effects.contains(GoalEffect::Sync(true))
            &&& after is Active ==> effects.contains(GoalEffect::FollowUp(true))
            &&& !(after is Active) ==> effects.contains(GoalEffect::FollowUp(false))
            &&& remember <==> effects.contains(GoalEffect::Remember)
            &&& interrupts(effects) <==> (before == Some(GoalStatus::Active) || before == Some(
                GoalStatus::BudgetLimited,
            )) && !(after is Active)
            &&& before is Some && before->0 != after ==> effects.contains(
                GoalEffect::RecordStatus(before->0),
            )
            &&& before is Some && before->0 == after ==> forall|i: int|
                0 <= i < effects.len() ==> !(#[trigger] effects[i] is RecordStatus)
        }),
{
    let effects = edit_effects(before, after, remember);
    let base = match before {
        Some(status) => status,
        None => GoalStatus::Active,
    };
    let stops = before is Some && (before->0 is Active || before->0 is BudgetLimited) && !(after
        is Active);
    let recorded: int = if base != after { 1 } else { 0 };
    let stopped: int = if stops { 1 } else { 0 };
    assert(effects[0] == GoalEffect::RecordCreated);
    if base != after {
        assert(effects[1] == GoalEffect::RecordStatus(base));
    }
    if stops {
        assert(effects[1 + recorded] is Interrupt);
    }
    assert(effects[1 + recorded + stopped] == GoalEffect::Sync(true));
    assert(effects[2 + recorded + stopped] == GoalEffect::FollowUp(after is Active));
    if remember {
        assert(effects[3 + recorded + stopped] == GoalEffect::Remember);
    }
}

/// Setting a goal's fields without naming it changes the goal that is there,
/// or makes one.
pub proof fn law_set_requests_edit_or_create(params: GoalSetParams)
    ensures
        params_edit(params).session == params.session_id,
        params_edit(params).objective == params.objective,
        params_edit(params).token_budget == params.token_budget,
        params_edit(params).allow_create,
        !params_edit(params).remember,
        params.status is None ==> params_edit(params).status is None,
        params.status is Some && params.status->0 is Active ==> params_edit(params).status == Some(
            GoalStatus::Active,
        ),
        params.status is Some && params.status->0 is Paused ==> params_edit(params).status == Some(
            GoalStatus::Paused,
        ),
        params.status is Some && params.status->0 is BudgetLimited ==> params_edit(params).status
            == Some(GoalStatus::BudgetLimited),
        params.status is Some && params.status->0 is Complete ==> params_edit(params).status
            == Some(GoalStatus::Completed),
{
}

/// A goal that is asked for by the host has the objective without the space
/// around it and the budget where that is a whole number; without an objective
/// there is none.
pub proof fn law_host_goals_need_an_objective(params: JsonTree)
    ensures
        text_field(params, "objective"@) is None ==> host_request_of(params) is None,
        text_field(params, "objective"@) matches Some(text) ==> {
            &&& trimmed(text).len() == 0 ==> host_request_of(params) is None
            &&& trimmed(text).len() > 0 ==> (host_request_of(params) matches Some(
                (objective, budget),
            ) && objective == trimmed(text) && (tree_field(params, "token_budget"@) is Some
                ==> budget == integer_of(tree_field(params, "token_budget"@)->0)) && (tree_field(
                params,
                "token_budget"@,
            ) is None ==> budget is None))
        },
{
}

/// A goal that the host completes is recorded, no longer continued, and
/// announced.
pub proof fn law_completed_goals_are_announced(before: GoalStatus)
    ensures
        host_complete_effects(before).contains(GoalEffect::RecordStatus(before)),
        host_complete_effects(before).contains(GoalEffect::ForgetContinuation),
        host_complete_effects(before).contains(GoalEffect::Sync(false)),
        host_complete_effects(before).contains(GoalEffect::NotifyUpdated),
        host_complete_effects(before).contains(GoalEffect::NotifyStatus),
        !interrupts(host_complete_effects(before)),
{
    let effects = host_complete_effects(before);
    assert(effects[0] == GoalEffect::RecordStatus(before));
    assert(effects[1] == GoalEffect::ForgetContinuation);
    assert(effects[2] == GoalEffect::Sync(false));
    assert(effects[3] == GoalEffect::NotifyUpdated);
    assert(effects[4] == GoalEffect::NotifyStatus);
}

/// A session that is there is told whether it has a goal to work on, which only
/// an active one is; while a turn runs it is not waited for.
pub proof fn law_sessions_hear_of_active_goals(
    goal: Option<GoalStatus>,
    known: bool,
    turn_active: bool,
)
    ensures
        !known ==> goal_sync(goal, known, turn_active) is Skip,
        known && turn_active ==> (goal_sync(goal, known, turn_active) matches GoalSync::Leave(works)
            && (works <==> goal is Some && goal->0 is Active)),
        known && !turn_active ==> (goal_sync(goal, known, turn_active) matches GoalSync::Tell(works)
            && (works <==> goal is Some && goal->0 is Active)),
{
}

/// A new goal gives the session its title, at once where no turn runs, and goes
/// on in a turn of its own where it is to and none runs.
pub proof fn law_goals_are_followed_up(has_title: bool, continues: bool, turn_active: bool)
    ensures
        ({
            let (title, starts) = followup_work(has_title, continues, turn_active);
            &&& starts <==> continues && !turn_active
            &&& !has_title ==> title is Skip
            &&& has_title && turn_active ==> title is Defer
            &&& has_title && !turn_active ==> title is ApplyAndPolish
        }),
{
}

/// A turn that completes the goal of its session completes the goal that is
/// there; without one it is told so.
pub proof fn law_turns_complete_their_goal(
    before: GoalStores,
    session: SessionId,
    now: i64,
    r: HostCompletion,
    after: GoalStores,
)
    requires
        is_host_completion(before, session, now, r, after),
    ensures
        r is Completed <==> before.goal_of(session) is Some,
        r matches HostCompletion::Completed(plan) ==> {
            &&& plan.goal.status is Completed
            &&& plan.goal.updated_at == now
            &&& plan.goal.goal_id == before.goal_of(session)->0.goal_id
            &&& plan.goal.objective@ == before.goal_of(session)->0.objective
            &&& after.goal_of(session) == Some(plan.goal@)
            &&& plan.title is None
        },
        before.goal_of(session) is None ==> after.goal_of(session) is None,
{
}

/// An edit that gives a goal a new objective gives the session its title, and no
/// other edit does.
pub proof fn law_new_objectives_give_the_title(
    goal: Option<GoalModel>,
    edit: GoalEdit,
    id: GoalId,
    now: i64,
)
    ensures
        edit_answer(goal, edit, id, now) matches AnswerModel::Done(_, title, _) ==> {
            &&& edit.objective is None ==> title is None
            &&& edit.objective is Some && trimmed(edit.objective->0@).len() > 0 ==> title == Some(
                trimmed(edit.objective->0@),
            )
            &&& edit.objective is Some && trimmed(edit.objective->0@).len() == 0 ==> title is None
        },
{
}

} // verus!
