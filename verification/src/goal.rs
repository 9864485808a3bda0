//! The goal of a session: creating, editing and ending it.

use crate::ids::{fresh_id, id_chars, id_text, now_micros};
use crate::protocol::{SessionId, TurnId};
use crate::text::{copy_text, opt_view, trim, trimmed};
use vstd::prelude::*;

verus! {

/// Identifies one goal.
#[derive(Clone, Copy, Debug, PartialEq, Eq, Structural, Hash)]
pub struct GoalId {
    pub raw: u128,
}

impl GoalId {
    /// The text of the identifier.
    pub fn text(&self) -> (r: String)
        ensures
            r@ == id_chars(self.raw),
    {
        id_text(self.raw)
    }
}

/// Where a goal stands.
#[derive(Clone, Copy, Debug, PartialEq, Eq, Structural)]
pub enum GoalStatus {
    Active,
    Paused,
    Blocked,
    BudgetLimited,
    Completed,
    Failed,
    Canceled,
    Cleared,
}

impl GoalStatus {
    /// Whether a goal that stands here has come to its end.
    pub open spec fn ended(self) -> bool {
        self is Completed || self is Failed || self is Canceled || self is Cleared
    }

    /// Whether a goal that stands here has come to its end.
    pub fn is_terminal(&self) -> (r: bool)
        ensures
            r == self.ended(),
    {
        match self {
            GoalStatus::Completed
            | GoalStatus::Failed
            | GoalStatus::Canceled
            | GoalStatus::Cleared => true,
            _ => false,
        }
    }

    /// The name of the status.
    pub open spec fn name_view(self) -> Seq<char> {
        match self {
            GoalStatus::Active => "Active"@,
            GoalStatus::Paused => "Paused"@,
            GoalStatus::Blocked => "Blocked"@,
            GoalStatus::BudgetLimited => "BudgetLimited"@,
            GoalStatus::Completed => "Completed"@,
            GoalStatus::Failed => "Failed"@,
            GoalStatus::Canceled => "Canceled"@,
            GoalStatus::Cleared => "Cleared"@,
        }
    }

    /// The name of the status.
    pub fn name(&self) -> (r: &'static str)
        ensures
            r@ == self.name_view(),
    {
        match self {
            GoalStatus::Active => "Active",
            GoalStatus::Paused => "Paused",
            GoalStatus::Blocked => "Blocked",
            GoalStatus::BudgetLimited => "BudgetLimited",
            GoalStatus::Completed => "Completed",
            GoalStatus::Failed => "Failed",
            GoalStatus::Canceled => "Canceled",
            GoalStatus::Cleared => "Cleared",
        }
    }

    /// The name of the status in lower case.
    pub open spec fn label_view(self) -> Seq<char> {
        match self {
            GoalStatus::Active => "active"@,
            GoalStatus::Paused => "paused"@,
            GoalStatus::Blocked => "blocked"@,
            GoalStatus::BudgetLimited => "budgetlimited"@,
            GoalStatus::Completed => "completed"@,
            GoalStatus::Failed => "failed"@,
            GoalStatus::Canceled => "canceled"@,
            GoalStatus::Cleared => "cleared"@,
        }
    }

    /// The name of the status in lower case.
    pub fn label(&self) -> (r: &'static str)
        ensures
            r@ == self.label_view(),
    {
        match self {
            GoalStatus::Active => "active",
            GoalStatus::Paused => "paused",
            GoalStatus::Blocked => "blocked",
            GoalStatus::BudgetLimited => "budgetlimited",
            GoalStatus::Completed => "completed",
            GoalStatus::Failed => "failed",
            GoalStatus::Canceled => "canceled",
            GoalStatus::Cleared => "cleared",
        }
    }
}

/// What a goal may use.
#[derive(Clone, Copy, Debug, PartialEq, Eq)]
pub struct GoalBudget {
    pub token_budget: Option<i64>,
}

impl Default for GoalBudget {
    /// A budget without limits.
    fn default() -> (r: GoalBudget)
        ensures
            r.token_budget is None,
    {
        GoalBudget { token_budget: None }
    }
}

/// What a goal has used.
#[derive(Clone, Copy, Debug, PartialEq, Eq, Structural)]
pub struct GoalUsage {
    pub turns_used: u32,
    pub tokens_used: i64,
    pub time_used_seconds: i64,
}

/// A goal. Times are in microseconds.
#[derive(Clone, Debug, PartialEq, Eq)]
pub struct Goal {
    pub goal_id: GoalId,
    pub session_id: SessionId,
    pub objective: String,
    pub description: Option<String>,
    pub status: GoalStatus,
    pub created_turn_id: Option<TurnId>,
    pub created_at: i64,
    pub updated_at: i64,
    pub budget: GoalBudget,
    pub usage: GoalUsage,
    pub progress_summary: Option<String>,
    pub blocker_summary: Option<String>,
    pub verification_summary: Option<String>,
}

/// What a goal says.
pub struct GoalModel {
    pub goal_id: GoalId,
    pub session_id: SessionId,
    pub objective: Seq<char>,
    pub description: Option<Seq<char>>,
    pub status: GoalStatus,
    pub created_turn_id: Option<TurnId>,
    pub created_at: i64,
    pub updated_at: i64,
    pub token_budget: Option<i64>,
    pub usage: GoalUsage,
    pub progress_summary: Option<Seq<char>>,
    pub blocker_summary: Option<Seq<char>>,
    pub verification_summary: Option<Seq<char>>,
}

impl View for Goal {
    type V = GoalModel;

    open spec fn view(&self) -> GoalModel {
        GoalModel {
            goal_id: self.goal_id,
            session_id: self.session_id,
            objective: self.objective@,
            description: opt_view(self.description),
            status: self.status,
            created_turn_id: self.created_turn_id,
            created_at: self.created_at,
            updated_at: self.updated_at,
            token_budget: self.budget.token_budget,
            usage: self.usage,
            progress_summary: opt_view(self.progress_summary),
            blocker_summary: opt_view(self.blocker_summary),
            verification_summary: opt_view(self.verification_summary),
        }
    }
}

impl Goal {
    /// A copy of the goal.
    pub fn copy(&self) -> (r: Goal)
        ensures
            r == *self,
    {
        Goal {
            goal_id: self.goal_id,
            session_id: self.session_id,
            objective: self.objective.clone(),
            description: copy_text(&self.description),
            status: self.status,
            created_turn_id: self.created_turn_id,
            created_at: self.created_at,
            updated_at: self.updated_at,
            budget: self.budget,
            usage: self.usage,
            progress_summary: copy_text(&self.progress_summary),
            blocker_summary: copy_text(&self.blocker_summary),
            verification_summary: copy_text(&self.verification_summary),
        }
    }
}

/// Why a goal cannot be created or changed.
#[derive(Clone, Debug, PartialEq, Eq)]
pub enum GoalError {
    AlreadyActive,
    /// There is no such goal; the text says which one was looked for.
    NotFound(String),
    InvalidTransition,
    /// The objective or the budget is not acceptable, for this reason.
    InvalidObjective(String),
}

/// What an error says.
pub enum GoalFault {
    AlreadyActive,
    NotFound(Seq<char>),
    InvalidTransition,
    InvalidObjective(Seq<char>),
}

impl View for GoalError {
    type V = GoalFault;

    open spec fn view(&self) -> GoalFault {
        match *self {
            GoalError::AlreadyActive => GoalFault::AlreadyActive,
            GoalError::NotFound(id) => GoalFault::NotFound(id@),
            GoalError::InvalidTransition => GoalFault::InvalidTransition,
            GoalError::InvalidObjective(why) => GoalFault::InvalidObjective(why@),
        }
    }
}

/// What the outcome of an operation says.
pub open spec fn outcome_view(r: Result<Goal, GoalError>) -> Result<GoalModel, GoalFault> {
    match r {
        Ok(goal) => Ok(goal@),
        Err(error) => Err(error@),
    }
}

/// What the protocol's own rules find wrong with the trimmed objective and
/// with the token budget of a request.
#[derive(Clone, Debug)]
pub struct GoalFaults {
    pub objective: Option<String>,
    pub token_budget: Option<String>,
}

impl Default for GoalFaults {
    /// Nothing is wrong.
    fn default() -> (r: GoalFaults)
        ensures
            r.objective is None,
            r.token_budget is None,
    {
        GoalFaults { objective: None, token_budget: None }
    }
}

/// A request for a new goal.
#[derive(Clone, Debug)]
pub struct GoalCreateParams {
    pub session_id: SessionId,
    pub objective: String,
    pub token_budget: Option<i64>,
    pub replace_existing: bool,
    pub faults: GoalFaults,
}

/// The statuses that a client of the older protocol knows.
#[derive(Clone, Copy, Debug, PartialEq, Eq, Structural)]
pub enum ThreadGoalStatus {
    Active,
    Paused,
    BudgetLimited,
    Complete,
}

/// The status that a client of the older protocol means.
pub open spec fn status_from_thread(status: ThreadGoalStatus) -> GoalStatus {
    match status {
        ThreadGoalStatus::Active => GoalStatus::Active,
        ThreadGoalStatus::Paused => GoalStatus::Paused,
        ThreadGoalStatus::BudgetLimited => GoalStatus::BudgetLimited,
        ThreadGoalStatus::Complete => GoalStatus::Completed,
    }
}

/// The status that a client of the older protocol means.
pub fn goal_status_from_thread(status: ThreadGoalStatus) -> (r: GoalStatus)
    ensures
        r == status_from_thread(status),
{
    match status {
        ThreadGoalStatus::Active => GoalStatus::Active,
        ThreadGoalStatus::Paused => GoalStatus::Paused,
        ThreadGoalStatus::BudgetLimited => GoalStatus::BudgetLimited,
        ThreadGoalStatus::Complete => GoalStatus::Completed,
    }
}

/// A request of the older protocol to set the goal.
#[derive(Clone, Debug)]
pub struct GoalSetParams {
    pub session_id: SessionId,
    pub objective: Option<String>,
    pub status: Option<ThreadGoalStatus>,
    pub token_budget: Option<i64>,
    pub faults: GoalFaults,
}

/// What is to happen to a goal.
#[derive(Clone, Debug)]
pub enum GoalAction {
    Pause,
    Resume,
    Complete { summary: Option<String> },
    Fail { reason: String },
    Block { reason: String },
    Cancel,
    Clear,
}

/// A change of the goal `goal_id`.
#[derive(Clone, Debug)]
pub struct GoalMutation {
    pub goal_id: GoalId,
    pub action: GoalAction,
}

/// An active goal that has used up its budget is limited by it.
pub open spec fn limited(goal: GoalModel) -> GoalModel {
    if goal.status is Active && goal.token_budget is Some && goal.usage.tokens_used
        >= goal.token_budget->0 {
        GoalModel { status: GoalStatus::BudgetLimited, ..goal }
    } else {
        goal
    }
}

/// A goal with another status and another budget, where these are given.
pub open spec fn updated(
    goal: GoalModel,
    status: Option<GoalStatus>,
    token_budget: Option<i64>,
) -> GoalModel {
    limited(
        GoalModel {
            status: match status {
                Some(status) => status,
                None => goal.status,
            },
            token_budget: match token_budget {
                Some(budget) => Some(budget),
                None => goal.token_budget,
            },
            ..goal
        },
    )
}

/// Marks an active goal that has used up its budget as limited by it.
pub fn apply_goal_budget_limit(goal: &mut Goal)
    ensures
        final(goal)@ == limited(old(goal)@),
{
    let active = match goal.status {
        GoalStatus::Active => true,
        _ => false,
    };
    let used_up = match goal.budget.token_budget {
        Some(budget) => goal.usage.tokens_used >= budget,
        None => false,
    };
    if active && used_up {
        goal.status = GoalStatus::BudgetLimited;
    }
}

/// Gives a goal another status and another budget, where these are given.
pub fn apply_goal_update(goal: &mut Goal, status: Option<GoalStatus>, token_budget: Option<i64>)
    ensures
        final(goal)@ == updated(old(goal)@, status, token_budget),
{
    if let Some(budget) = token_budget {
        goal.budget.token_budget = Some(budget);
    }
    if let Some(status) = status {
        goal.status = status;
    }
    apply_goal_budget_limit(goal);
}

/// A new goal.
pub open spec fn new_goal(
    session: SessionId,
    objective: Seq<char>,
    token_budget: Option<i64>,
    id: GoalId,
    now: i64,
) -> GoalModel {
    GoalModel {
        goal_id: id,
        session_id: session,
        objective,
        description: None,
        status: GoalStatus::Active,
        created_turn_id: None,
        created_at: now,
        updated_at: now,
        token_budget,
        usage: GoalUsage { turns_used: 0, tokens_used: 0, time_used_seconds: 0 },
        progress_summary: None,
        blocker_summary: None,
        verification_summary: None,
    }
}

fn make_goal(
    session: SessionId,
    objective: String,
    token_budget: Option<i64>,
    id: GoalId,
    now: i64,
) -> (r: Goal)
    ensures
        r@ == new_goal(session, objective@, token_budget, id, now),
{
    Goal {
        goal_id: id,
        session_id: session,
        objective,
        description: None,
        status: GoalStatus::Active,
        created_turn_id: None,
        created_at: now,
        updated_at: now,
        budget: GoalBudget { token_budget },
        usage: GoalUsage { turns_used: 0, tokens_used: 0, time_used_seconds: 0 },
        progress_summary: None,
        blocker_summary: None,
        verification_summary: None,
    }
}

/// What a request for a new goal leads to where `goal` is the current one.
pub open spec fn created(
    goal: Option<GoalModel>,
    params: GoalCreateParams,
    id: GoalId,
    now: i64,
) -> Result<GoalModel, GoalFault> {
    if goal is Some && !params.replace_existing {
        Err(GoalFault::AlreadyActive)
    } else if params.faults.token_budget is Some {
        Err(GoalFault::InvalidObjective(params.faults.token_budget->0@))
    } else if params.faults.objective is Some {
        Err(GoalFault::InvalidObjective(params.faults.objective->0@))
    } else {
        Ok(new_goal(params.session_id, trimmed(params.objective@), params.token_budget, id, now))
    }
}

/// The goal after an operation that sets it where it succeeds.
pub open spec fn goal_after(
    goal: Option<GoalModel>,
    outcome: Result<GoalModel, GoalFault>,
) -> Option<GoalModel> {
    match outcome {
        Ok(goal) => Some(goal),
        Err(_) => goal,
    }
}

/// What an edit leads to where `goal` is the current one.
pub open spec fn patched(
    goal: Option<GoalModel>,
    objective: Option<Seq<char>>,
    status: Option<GoalStatus>,
    token_budget: Option<i64>,
    allow_create: bool,
    session: SessionId,
    faults: GoalFaults,
    id: GoalId,
    now: i64,
) -> Result<GoalModel, GoalFault> {
    if faults.token_budget is Some {
        Err(GoalFault::InvalidObjective(faults.token_budget->0@))
    } else {
        match (objective, goal) {
            (Some(_), _) if faults.objective is Some => Err(
                GoalFault::InvalidObjective(faults.objective->0@),
            ),
            (Some(text), Some(goal)) => Ok(
                GoalModel {
                    objective: trimmed(text),
                    updated_at: now,
                    ..updated(goal, status, token_budget)
                },
            ),
            (Some(text), None) => if allow_create {
                let fresh = new_goal(session, trimmed(text), token_budget, id, now);
                match status {
                    Some(status) => Ok(limited(GoalModel { status, ..fresh })),
                    None => Ok(fresh),
                }
            } else {
                Err(GoalFault::NotFound("current"@))
            },
            (None, None) => Err(GoalFault::NotFound("current"@)),
            (None, Some(goal)) => if status is None && token_budget is None {
                Err(GoalFault::InvalidTransition)
            } else {
                Ok(GoalModel { updated_at: now, ..updated(goal, status, token_budget) })
            },
        }
    }
}

/// Whether a goal can take part in `action`.
pub open spec fn admits(status: GoalStatus, action: GoalAction) -> bool {
    match action {
        GoalAction::Pause => status is Active,
        GoalAction::Resume => status is Paused || status is Blocked,
        GoalAction::Complete { .. } => !status.ended(),
        GoalAction::Fail { .. } => !status.ended(),
        GoalAction::Block { .. } => status is Active,
        GoalAction::Cancel => !status.ended(),
        GoalAction::Clear => true,
    }
}

/// A goal after `action`.
pub open spec fn acted_on(goal: GoalModel, action: GoalAction, now: i64) -> GoalModel {
    match action {
        GoalAction::Pause => GoalModel { status: GoalStatus::Paused, updated_at: now, ..goal },
        GoalAction::Resume => GoalModel { status: GoalStatus::Active, updated_at: now, ..goal },
        GoalAction::Complete { summary } => GoalModel {
            status: GoalStatus::Completed,
            verification_summary: opt_view(summary),
            updated_at: now,
            ..goal
        },
        GoalAction::Fail { reason } => GoalModel {
            status: GoalStatus::Failed,
            blocker_summary: Some(reason@),
            updated_at: now,
            ..goal
        },
        GoalAction::Block { reason } => GoalModel {
            status: GoalStatus::Blocked,
            blocker_summary: Some(reason@),
            updated_at: now,
            ..goal
        },
        GoalAction::Cancel => GoalModel { status: GoalStatus::Canceled, updated_at: now, ..goal },
        GoalAction::Clear => goal,
    }
}

/// What a change leads to where `goal` is the current one.
pub open spec fn mutated(
    goal: Option<GoalModel>,
    mutation: GoalMutation,
    now: i64,
) -> Result<GoalModel, GoalFault> {
    match goal {
        Some(goal) if goal.goal_id == mutation.goal_id => if admits(goal.status, mutation.action) {
            Ok(acted_on(goal, mutation.action, now))
        } else {
            Err(GoalFault::InvalidTransition)
        },
        _ => Err(GoalFault::NotFound(id_chars(mutation.goal_id.raw))),
    }
}

/// The goal after a change.
pub open spec fn goal_after_mutation(
    goal: Option<GoalModel>,
    mutation: GoalMutation,
    now: i64,
) -> Option<GoalModel> {
    if mutated(goal, mutation, now) is Ok && mutation.action is Clear {
        None
    } else {
        goal_after(goal, mutated(goal, mutation, now))
    }
}

/// What setting the status leads to where `goal` is the current one.
pub open spec fn with_status(goal: Option<GoalModel>, status: GoalStatus, now: i64) -> Result<
    GoalModel,
    GoalFault,
> {
    match goal {
        Some(goal) => Ok(GoalModel { status, updated_at: now, ..goal }),
        None => Err(GoalFault::NotFound("current"@)),
    }
}

/// The goal of one session.
#[derive(Clone, Debug)]
pub struct GoalStore {
    pub active_goal: Option<Goal>,
}

impl Default for GoalStore {
    /// A store without a goal.
    fn default() -> (r: GoalStore)
        ensures
            r.goal() is None,
    {
        GoalStore { active_goal: None }
    }
}

fn accepts(status: GoalStatus, action: &GoalAction) -> (r: bool)
    ensures
        r == admits(status, *action),
{
    match action {
        GoalAction::Pause | GoalAction::Block { .. } => match status {
            GoalStatus::Active => true,
            _ => false,
        },
        GoalAction::Resume => match status {
            GoalStatus::Paused | GoalStatus::Blocked => true,
            _ => false,
        },
        GoalAction::Complete { .. } | GoalAction::Fail { .. } | GoalAction::Cancel => !status.is_terminal(),
        GoalAction::Clear => true,
    }
}

impl GoalStore {
    /// What the goal says.
    pub open spec fn goal(self) -> Option<GoalModel> {
        match self.active_goal {
            Some(goal) => Some(goal@),
            None => None,
        }
    }

    /// A store without a goal.
    pub fn new() -> (r: GoalStore)
        ensures
            r.goal() is None,
    {
        GoalStore { active_goal: None }
    }

    /// The goal.
    pub fn get(&self) -> (r: Option<&Goal>)
        ensures
            match r {
                Some(goal) => self.active_goal == Some(*goal),
                None => self.active_goal is None,
            },
    {
        match &self.active_goal {
            Some(goal) => Some(goal),
            None => None,
        }
    }

    /// The goal, to be changed in place.
    pub fn get_mut(&mut self) -> (r: Option<&mut Goal>)
        ensures
            match r {
                Some(goal) => {
                    &&& old(self).active_goal == Some(*goal)
                    &&& final(self).active_goal == Some(*final(goal))
                },
                None => old(self).active_goal is None && final(self).active_goal is None,
            },
    {
        match &mut self.active_goal {
            Some(goal) => Some(goal),
            None => None,
        }
    }

    /// Creates the goal `id` at the time `now`.
    pub fn create_at(&mut self, params: GoalCreateParams, id: GoalId, now: i64) -> (r: Result<
        Goal,
        GoalError,
    >)
        ensures
            outcome_view(r) == created(old(self).goal(), params, id, now),
            final(self).goal() == goal_after(
                old(self).goal(),
                created(old(self).goal(), params, id, now),
            ),
    {
        if self.active_goal.is_some() && !params.replace_existing {
            return Err(GoalError::AlreadyActive);
        }
        if let Some(why) = params.faults.token_budget {
            return Err(GoalError::InvalidObjective(why));
        }
        if let Some(why) = params.faults.objective {
            return Err(GoalError::InvalidObjective(why));
        }
        let goal = make_goal(
            params.session_id,
            trim(params.objective.as_str()),
            params.token_budget,
            id,
            now,
        );
        self.active_goal = Some(goal.copy());
        Ok(goal)
    }

    /// Creates a goal. A session that has one keeps it, unless it is to be
    /// replaced.
    pub fn create(&mut self, params: GoalCreateParams) -> (r: Result<Goal, GoalError>)
        ensures
            exists|id: GoalId, now: i64|
                {
                    &&& outcome_view(r) == #[trigger] created(old(self).goal(), params, id, now)
                    &&& final(self).goal() == goal_after(
                        old(self).goal(),
                        created(old(self).goal(), params, id, now),
                    )
                },
    {
        self.create_at(params, GoalId { raw: fresh_id() }, now_micros())
    }

    /// Edits the goal at the time `now`, or creates the goal `id` where there
    /// is none and that is allowed.
    pub fn patch_at(
        &mut self,
        objective: Option<String>,
        status: Option<GoalStatus>,
        token_budget: Option<i64>,
        allow_create: bool,
        session_id: SessionId,
        faults: GoalFaults,
        id: GoalId,
        now: i64,
    ) -> (r: Result<Goal, GoalError>)
        ensures
            ({
                let outcome = patched(
                    old(self).goal(),
                    opt_view(objective),
                    status,
                    token_budget,
                    allow_create,
                    session_id,
                    faults,
                    id,
                    now,
                );
                &&& outcome_view(r) == outcome
                &&& final(self).goal() == goal_after(old(self).goal(), outcome)
            }),
    {
        if let Some(why) = faults.token_budget {
            return Err(GoalError::InvalidObjective(why));
        }
        match objective {
            Some(text) => {
                if let Some(why) = faults.objective {
                    return Err(GoalError::InvalidObjective(why));
                }
                let text = trim(text.as_str());
                match &self.active_goal {
                    Some(current) => {
                        let mut goal = current.copy();
                        goal.objective = text;
                        apply_goal_update(&mut goal, status, token_budget);
                        goal.updated_at = now;
                        self.active_goal = Some(goal.copy());
                        Ok(goal)
                    },
                    None => {
                        if !allow_create {
                            return Err(GoalError::NotFound("current".to_owned()));
                        }
                        let mut goal = make_goal(session_id, text, token_budget, id, now);
                        if let Some(status) = status {
                            goal.status = status;
                            apply_goal_budget_limit(&mut goal);
                        }
                        self.active_goal = Some(goal.copy());
                        Ok(goal)
                    },
                }
            },
            None => match &self.active_goal {
                Some(current) => {
                    if status.is_none() && token_budget.is_none() {
                        return Err(GoalError::InvalidTransition);
                    }
                    let mut goal = current.copy();
                    apply_goal_update(&mut goal, status, token_budget);
                    goal.updated_at = now;
                    self.active_goal = Some(goal.copy());
                    Ok(goal)
                },
                None => Err(GoalError::NotFound("current".to_owned())),
            },
        }
    }

    /// Edits the goal in place, or creates it where there is none and that is
    /// allowed.
    pub fn patch(
        &mut self,
        objective: Option<String>,
        status: Option<GoalStatus>,
        token_budget: Option<i64>,
        allow_create: bool,
        session_id: SessionId,
        faults: GoalFaults,
    ) -> (r: Result<Goal, GoalError>)
        ensures
            exists|id: GoalId, now: i64|
                {
                    let outcome = #[trigger] patched(
                        old(self).goal(),
                        opt_view(objective),
                        status,
                        token_budget,
                        allow_create,
                        session_id,
                        faults,
                        id,
                        now,
                    );
                    &&& outcome_view(r) == outcome
                    &&& final(self).goal() == goal_after(old(self).goal(), outcome)
                },
    {
        self.patch_at(
            objective,
            status,
            token_budget,
            allow_create,
            session_id,
            faults,
            GoalId { raw: fresh_id() },
            now_micros(),
        )
    }

    /// Edits the goal as a client of the older protocol asks, or creates it
    /// where there is none.
    pub fn set(&mut self, params: GoalSetParams) -> (r: Result<Goal, GoalError>)
        ensures
            exists|id: GoalId, now: i64|
                {
                    let outcome = #[trigger] patched(
                        old(self).goal(),
                        opt_view(params.objective),
                        asked_status(params.status),
                        params.token_budget,
                        true,
                        params.session_id,
                        params.faults,
                        id,
                        now,
                    );
                    &&& outcome_view(r) == outcome
                    &&& final(self).goal() == goal_after(old(self).goal(), outcome)
                },
    {
        let status = match params.status {
            Some(status) => Some(goal_status_from_thread(status)),
            None => None,
        };
        self.patch(
            params.objective,
            status,
            params.token_budget,
            true,
            params.session_id,
            params.faults,
        )
    }

    /// Changes the goal at the time `now`.
    pub fn mutate_at(&mut self, mutation: GoalMutation, now: i64) -> (r: Result<Goal, GoalError>)
        ensures
            outcome_view(r) == mutated(old(self).goal(), mutation, now),
            final(self).goal() == goal_after_mutation(old(self).goal(), mutation, now),
    {
        let mut goal = match &self.active_goal {
            Some(goal) => goal.copy(),
            None => {
                return Err(GoalError::NotFound(mutation.goal_id.text()));
            },
        };
        if goal.goal_id != mutation.goal_id {
            return Err(GoalError::NotFound(mutation.goal_id.text()));
        }
        if !accepts(goal.status, &mutation.action) {
            return Err(GoalError::InvalidTransition);
        }
        match mutation.action {
            GoalAction::Pause => {
                goal.status = GoalStatus::Paused;
            },
            GoalAction::Resume => {
                goal.status = GoalStatus::Active;
            },
            GoalAction::Complete { summary } => {
                goal.status = GoalStatus::Completed;
                goal.verification_summary = summary;
            },
            GoalAction::Fail { reason } => {
                goal.status = GoalStatus::Failed;
                goal.blocker_summary = Some(reason);
            },
            GoalAction::Block { reason } => {
                goal.status = GoalStatus::Blocked;
                goal.blocker_summary = Some(reason);
            },
            GoalAction::Cancel => {
                goal.status = GoalStatus::Canceled;
            },
            GoalAction::Clear => {
                self.active_goal = None;
                return Ok(goal);
            },
        }
        goal.updated_at = now;
        self.active_goal = Some(goal.copy());
        Ok(goal)
    }

    /// Changes the goal.
    pub fn mutate(&mut self, mutation: GoalMutation) -> (r: Result<Goal, GoalError>)
        ensures
            exists|now: i64|
                {
                    &&& outcome_view(r) == #[trigger] mutated(old(self).goal(), mutation, now)
                    &&& final(self).goal() == goal_after_mutation(old(self).goal(), mutation, now)
                },
    {
        self.mutate_at(mutation, now_micros())
    }

    /// Sets the status of the goal at the time `now`, whatever it was.
    pub fn set_status_at(&mut self, status: GoalStatus, now: i64) -> (r: Result<Goal, GoalError>)
        ensures
            outcome_view(r) == with_status(old(self).goal(), status, now),
            final(self).goal() == goal_after(
                old(self).goal(),
                with_status(old(self).goal(), status, now),
            ),
    {
        match &self.active_goal {
            Some(current) => {
                let mut goal = current.copy();
                goal.status = status;
                goal.updated_at = now;
                self.active_goal = Some(goal.copy());
                Ok(goal)
            },
            None => Err(GoalError::NotFound("current".to_owned())),
        }
    }

    /// Sets the status of the goal, whatever it was.
    pub fn set_status(&mut self, status: GoalStatus) -> (r: Result<Goal, GoalError>)
        ensures
            exists|now: i64|
                {
                    &&& outcome_view(r) == #[trigger] with_status(old(self).goal(), status, now)
                    &&& final(self).goal() == goal_after(
                        old(self).goal(),
                        with_status(old(self).goal(), status, now),
                    )
                },
    {
        self.set_status_at(status, now_micros())
    }

    /// Removes the goal. Says whether there was one.
    pub fn clear(&mut self) -> (r: bool)
        ensures
            r == old(self).goal() is Some,
            final(self).goal() is None,
    {
        let had = self.active_goal.is_some();
        self.active_goal = None;
        had
    }
}

/// The status that a client of the older protocol asks for.
pub open spec fn asked_status(status: Option<ThreadGoalStatus>) -> Option<GoalStatus> {
    match status {
        Some(status) => Some(status_from_thread(status)),
        None => None,
    }
}

/// A request to pause a goal.
#[derive(Clone, Debug)]
pub struct GoalPauseParams {
    pub session_id: SessionId,
    pub goal_id: String,
}

/// A request to resume a goal.
#[derive(Clone, Debug)]
pub struct GoalResumeParams {
    pub session_id: SessionId,
    pub goal_id: String,
}

/// A request to complete a goal.
#[derive(Clone, Debug)]
pub struct GoalCompleteParams {
    pub session_id: SessionId,
    pub goal_id: String,
    pub verification_summary: Option<String>,
}

/// A request to clear the goal.
#[derive(Clone, Debug)]
pub struct GoalClearParams {
    pub session_id: SessionId,
}

/// The answer to a request that changed a goal.
#[derive(Clone, Debug)]
pub struct GoalActionResult {
    pub goal_id: String,
    pub status: String,
    pub message: String,
}

/// The answer to a request for the goal.
#[derive(Clone, Debug)]
pub struct GoalStatusResult {
    pub goal: Option<GoalProjection>,
}

/// What a client sees of a goal.
#[derive(Clone, Debug)]
pub struct GoalProjection {
    pub goal_id: String,
    pub objective: String,
    pub status: String,
    pub turns_used: u32,
    pub tokens_used: i64,
    pub progress_summary: Option<String>,
}

impl GoalProjection {
    /// Whether this is what a client sees of the goal.
    pub open spec fn shows(self, goal: GoalModel) -> bool {
        &&& self.goal_id@ == id_chars(goal.goal_id.raw)
        &&& self.objective@ == goal.objective
        &&& self.status@ == goal.status.label_view()
        &&& self.turns_used == goal.usage.turns_used
        &&& self.tokens_used == goal.usage.tokens_used
        &&& opt_view(self.progress_summary) == goal.progress_summary
    }

    /// What a client sees of a goal.
    pub fn from(goal: &Goal) -> (r: GoalProjection)
        ensures
            r.shows(goal@),
    {
        GoalProjection {
            goal_id: goal.goal_id.text(),
            objective: goal.objective.clone(),
            status: goal.status.label().to_owned(),
            turns_used: goal.usage.turns_used,
            tokens_used: goal.usage.tokens_used,
            progress_summary: copy_text(&goal.progress_summary),
        }
    }
}

/// A goal that came to its end takes part in nothing but being cleared.
pub proof fn law_ended_goals_stay_ended(goal: GoalModel, mutation: GoalMutation, now: i64)
    requires
        goal.status.ended(),
        !(mutation.action is Clear),
    ensures
        mutated(Some(goal), mutation, now) is Err,
        goal_after_mutation(Some(goal), mutation, now) == Some(goal),
{
}

/// Pausing an active goal and resuming it gives it back as it was, but for the
/// time of the last change.
pub proof fn law_resuming_undoes_pausing(goal: GoalModel, paused_at: i64, resumed_at: i64)
    requires
        goal.status is Active,
    ensures
        ({
            let pause = GoalMutation { goal_id: goal.goal_id, action: GoalAction::Pause };
            let resume = GoalMutation { goal_id: goal.goal_id, action: GoalAction::Resume };
            let paused = mutated(Some(goal), pause, paused_at);
            &&& paused is Ok
            &&& mutated(Some(paused->Ok_0), resume, resumed_at) == Ok::<GoalModel, GoalFault>(
                GoalModel { updated_at: resumed_at, ..goal },
            )
        }),
{
}

/// An edit keeps what the goal is and what it has used.
pub proof fn law_edits_keep_the_goal(
    goal: GoalModel,
    objective: Option<Seq<char>>,
    status: Option<GoalStatus>,
    token_budget: Option<i64>,
    allow_create: bool,
    session: SessionId,
    faults: GoalFaults,
    id: GoalId,
    now: i64,
)
    ensures
        match patched(
            Some(goal),
            objective,
            status,
            token_budget,
            allow_create,
            session,
            faults,
            id,
            now,
        ) {
            Ok(after) => {
                &&& after.goal_id == goal.goal_id
                &&& after.session_id == goal.session_id
                &&& after.usage == goal.usage
                &&& after.created_at == goal.created_at
                &&& after.created_turn_id == goal.created_turn_id
                &&& objective is None ==> after.objective == goal.objective
                &&& token_budget is None ==> after.token_budget == goal.token_budget
            },
            Err(_) => true,
        },
{
}

/// No edit leaves a goal active that has used up its budget.
pub proof fn law_edited_goals_keep_their_budget(
    goal: Option<GoalModel>,
    objective: Option<Seq<char>>,
    status: Option<GoalStatus>,
    token_budget: Option<i64>,
    allow_create: bool,
    session: SessionId,
    faults: GoalFaults,
    id: GoalId,
    now: i64,
)
    ensures
        match patched(
            goal,
            objective,
            status,
            token_budget,
            allow_create,
            session,
            faults,
            id,
            now,
        ) {
            Ok(after) => goal is Some || status is Some ==> limited(after) == after,
            Err(_) => true,
        },
{
}

/// A goal is replaced only by a request that says so.
pub proof fn law_goals_are_not_replaced_by_accident(
    goal: GoalModel,
    params: GoalCreateParams,
    id: GoalId,
    now: i64,
)
    ensures
        goal_after(Some(goal), created(Some(goal), params, id, now)) != Some(goal)
            ==> params.replace_existing,
{
}

/// Whether nothing of a goal but its status, its summaries and the time of its
/// last change differs.
pub open spec fn same_goal(before: Goal, after: Goal) -> bool {
    &&& after.goal_id == before.goal_id
    &&& after.session_id == before.session_id
    &&& after.objective@ == before.objective@
    &&& opt_view(after.description) == opt_view(before.description)
    &&& after.created_turn_id == before.created_turn_id
    &&& after.created_at == before.created_at
    &&& after.budget.token_budget == before.budget.token_budget
    &&& after.usage == before.usage
    &&& opt_view(after.progress_summary) == opt_view(before.progress_summary)
}

/// What an action does to a goal. A paused or a blocked goal is resumed, an
/// active one is paused or blocked, and any goal that has not ended is
/// completed, failed or canceled; the goal is then in the state that the action
/// names and keeps the rest. Any other action on it is refused and leaves it as
/// it was.
pub proof fn law_actions_lead_where_they_say(
    before: GoalStore,
    mutation: GoalMutation,
    now: i64,
    r: Result<Goal, GoalError>,
    after: GoalStore,
)
    requires
        outcome_view(r) == mutated(before.goal(), mutation, now),
        after.goal() == goal_after_mutation(before.goal(), mutation, now),
        before.active_goal is Some,
        before.active_goal->0.goal_id == mutation.goal_id,
    ensures
        ({
            let goal = before.active_goal->0;
            let going_on = goal.status is Active || goal.status is Paused || goal.status is Blocked
                || goal.status is BudgetLimited;
            let allowed = match mutation.action {
                GoalAction::Resume => goal.status is Paused || goal.status is Blocked,
                GoalAction::Pause => goal.status is Active,
                GoalAction::Block { .. } => goal.status is Active,
                GoalAction::Complete { .. } => going_on,
                GoalAction::Fail { .. } => going_on,
                GoalAction::Cancel => going_on,
                GoalAction::Clear => true,
            };
            &&& r is Ok <==> allowed
            &&& !allowed ==> r == Err::<Goal, GoalError>(GoalError::InvalidTransition)
                && after.active_goal is Some && same_goal(goal, after.active_goal->0)
                && after.active_goal->0.status == goal.status
            &&& mutation.action is Clear ==> after.active_goal is None
            &&& allowed && !(mutation.action is Clear) ==> {
                &&& after.active_goal is Some
                &&& after.active_goal->0@ == r->Ok_0@
                &&& same_goal(goal, r->Ok_0)
                &&& r->Ok_0.updated_at == now
                &&& match mutation.action {
                    GoalAction::Resume => r->Ok_0.status is Active,
                    GoalAction::Pause => r->Ok_0.status is Paused,
                    GoalAction::Block { reason } => r->Ok_0.status is Blocked
                        && opt_view(r->Ok_0.blocker_summary) == Some(reason@),
                    GoalAction::Complete { summary } => r->Ok_0.status is Completed
                        && opt_view(r->Ok_0.verification_summary) == opt_view(summary),
                    GoalAction::Fail { reason } => r->Ok_0.status is Failed
                        && opt_view(r->Ok_0.blocker_summary) == Some(reason@),
                    GoalAction::Cancel => r->Ok_0.status is Canceled,
                    GoalAction::Clear => true,
                }
            }
        }),
{
}

/// An action on a goal that is not there, or not the one that is named, is
/// answered with the name and changes nothing.
pub proof fn law_actions_need_their_goal(
    before: GoalStore,
    mutation: GoalMutation,
    now: i64,
    r: Result<Goal, GoalError>,
    after: GoalStore,
)
    requires
        outcome_view(r) == mutated(before.goal(), mutation, now),
        after.goal() == goal_after_mutation(before.goal(), mutation, now),
        before.active_goal is None || before.active_goal->0.goal_id != mutation.goal_id,
    ensures
        r matches Err(GoalError::NotFound(id)) && id@ == id_chars(mutation.goal_id.raw),
        after.goal() == before.goal(),
{
}

/// A goal that was blocked can go on: blocking an active goal and resuming it
/// leads to an active goal again.
pub proof fn law_blocked_goals_can_be_resumed(
    goal: GoalModel,
    reason: String,
    blocked_at: i64,
    resumed_at: i64,
)
    requires
        goal.status is Active,
    ensures
        ({
            let block = GoalMutation { goal_id: goal.goal_id, action: GoalAction::Block { reason } };
            let resume = GoalMutation { goal_id: goal.goal_id, action: GoalAction::Resume };
            let blocked = mutated(Some(goal), block, blocked_at);
            let resumed = mutated(goal_after_mutation(Some(goal), block, blocked_at), resume, resumed_at);
            &&& blocked is Ok && blocked->Ok_0.status is Blocked
            &&& resumed is Ok && resumed->Ok_0.status is Active
            &&& resumed->Ok_0.objective == goal.objective
            &&& resumed->Ok_0.usage == goal.usage
        }),
{
}

/// Setting the status of a goal gives it that status and nothing else; there
/// has to be a goal.
pub proof fn law_statuses_are_set(
    before: GoalStore,
    status: GoalStatus,
    now: i64,
    r: Result<Goal, GoalError>,
    after: GoalStore,
)
    requires
        outcome_view(r) == with_status(before.goal(), status, now),
        after.goal() == goal_after(before.goal(), with_status(before.goal(), status, now)),
    ensures
        r is Ok <==> before.active_goal is Some,
        r matches Ok(goal) ==> {
            &&& goal.status == status
            &&& goal.updated_at == now
            &&& same_goal(before.active_goal->0, goal)
            &&& after.active_goal is Some && after.active_goal->0@ == goal@
        },
        r is Err ==> after.active_goal is None,
{
}

/// A goal is created as it is asked for: active, with the objective without the
/// space around it and the budget, and with nothing used. An existing goal is
/// in the way unless it is to be replaced.
pub proof fn law_goals_are_created_as_asked(
    before: GoalStore,
    params: GoalCreateParams,
    id: GoalId,
    now: i64,
    r: Result<Goal, GoalError>,
    after: GoalStore,
)
    requires
        outcome_view(r) == created(before.goal(), params, id, now),
        after.goal() == goal_after(before.goal(), created(before.goal(), params, id, now)),
    ensures
        r is Ok <==> (before.active_goal is None || params.replace_existing)
            && params.faults.token_budget is None && params.faults.objective is None,
        before.active_goal is Some && !params.replace_existing ==> r matches Err(
            GoalError::AlreadyActive,
        ),
        r is Err ==> after.goal() == before.goal(),
        r matches Ok(goal) ==> {
            &&& goal.goal_id == id
            &&& goal.session_id == params.session_id
            &&& goal.objective@ == trimmed(params.objective@)
            &&& goal.budget.token_budget == params.token_budget
            &&& goal.status is Active
            &&& goal.usage.turns_used == 0 && goal.usage.tokens_used == 0
                && goal.usage.time_used_seconds == 0
            &&& goal.created_at == now && goal.updated_at == now
            &&& goal.description is None && goal.progress_summary is None
            &&& goal.blocker_summary is None && goal.verification_summary is None
            &&& after.active_goal is Some && after.active_goal->0@ == goal@
        },
{
}

/// What is edited of a goal is what it then has: the objective, the status and
/// the budget that are named, but for an active goal that has used its budget
/// up, which is limited by it.
pub proof fn law_edits_are_made(
    before: GoalStore,
    objective: Option<Seq<char>>,
    status: Option<GoalStatus>,
    token_budget: Option<i64>,
    allow_create: bool,
    session: SessionId,
    faults: GoalFaults,
    id: GoalId,
    now: i64,
    r: Result<Goal, GoalError>,
    after: GoalStore,
)
    requires
        outcome_view(r) == patched(
            before.goal(),
            objective,
            status,
            token_budget,
            allow_create,
            session,
            faults,
            id,
            now,
        ),
        after.goal() == goal_after(
            before.goal(),
            patched(
                before.goal(),
                objective,
                status,
                token_budget,
                allow_create,
                session,
                faults,
                id,
                now,
            ),
        ),
    ensures
        r is Err ==> after.goal() == before.goal(),
        r matches Ok(goal) ==> {
            &&& after.active_goal is Some && after.active_goal->0@ == goal@
            &&& objective is Some ==> goal.objective@ == trimmed(objective->0)
            &&& token_budget is Some ==> goal.budget.token_budget == token_budget
            &&& goal.updated_at == now
            &&& status is Some && !(status->0 is Active) ==> goal.status == status->0
            &&& status == Some(GoalStatus::Active) ==> goal.status is Active
                || goal.status is BudgetLimited
        },
        before.active_goal is Some && r is Ok ==> ({
            let goal = r->Ok_0;
            let asked = match status {
                Some(status) => status,
                None => before.active_goal->0.status,
            };
            let used_up = goal.budget.token_budget is Some && goal.usage.tokens_used
                >= goal.budget.token_budget->0;
            &&& asked is Active && used_up ==> goal.status is BudgetLimited
            &&& !(asked is Active && used_up) ==> goal.status == asked
        }),
        before.active_goal is Some && (objective is Some || status is Some || token_budget is Some)
            && faults.token_budget is None && faults.objective is None ==> r is Ok,
        before.active_goal is None && objective is Some && allow_create && faults.token_budget
            is None && faults.objective is None ==> r is Ok && r->Ok_0.goal_id == id
            && r->Ok_0.session_id == session && (status is None ==> r->Ok_0.status is Active),
        before.active_goal is None && (objective is None || !allow_create) ==> r is Err,
        objective is None && status is None && token_budget is None ==> r is Err,
        faults.token_budget is Some ==> r is Err,
        objective is Some && faults.objective is Some ==> r is Err,
{
}

/// A goal is limited by its budget exactly where it is active and has used the
/// budget up.
pub proof fn law_used_up_budgets_limit_active_goals(before: Goal, after: Goal)
    requires
        after@ == limited(before@),
    ensures
        before.status is Active && before.budget.token_budget is Some && before.usage.tokens_used
            >= before.budget.token_budget->0 ==> after.status is BudgetLimited,
        !(before.status is Active) || before.budget.token_budget is None
            || before.usage.tokens_used < before.budget.token_budget->0 ==> after.status
            == before.status,
        same_goal(before, after),
{
}

/// The statuses of threads stand for those of the same name.
pub proof fn law_thread_statuses_keep_their_meaning(status: ThreadGoalStatus)
    ensures
        match status_from_thread(status) {
            GoalStatus::Active => status is Active,
            GoalStatus::Paused => status is Paused,
            GoalStatus::BudgetLimited => status is BudgetLimited,
            GoalStatus::Completed => status is Complete,
            _ => false,
        },
        asked_status(Some(status)) == Some(status_from_thread(status)),
        asked_status(None) is None,
{
}

/// A goal has ended where it was completed, failed, canceled or cleared, and
/// goes on in every other state.
pub proof fn law_goals_end_in_four_ways(status: GoalStatus)
    ensures
        status.ended() <==> !(status is Active || status is Paused || status is Blocked
            || status is BudgetLimited),
{
}

/// What an action leaves alone: a summary stays unless the action brings one of
/// its kind.
pub proof fn law_actions_keep_the_other_summaries(
    before: GoalModel,
    mutation: GoalMutation,
    now: i64,
    after: GoalModel,
)
    requires
        mutated(Some(before), mutation, now) == Ok::<GoalModel, GoalFault>(after),
    ensures
        !(mutation.action is Complete) ==> after.verification_summary
            == before.verification_summary,
        !(mutation.action is Fail) && !(mutation.action is Block) ==> after.blocker_summary
            == before.blocker_summary,
        after.progress_summary == before.progress_summary,
        after.description == before.description,
{
}

/// An edit leaves the summaries of a goal and its description as they are.
pub proof fn law_edits_keep_the_summaries(
    goal: GoalModel,
    objective: Option<Seq<char>>,
    status: Option<GoalStatus>,
    token_budget: Option<i64>,
    session: SessionId,
    faults: GoalFaults,
    id: GoalId,
    now: i64,
    after: GoalModel,
)
    requires
        patched(
            Some(goal),
            objective,
            status,
            token_budget,
            true,
            session,
            faults,
            id,
            now,
        ) == Ok::<GoalModel, GoalFault>(after),
    ensures
        after.description == goal.description,
        after.progress_summary == goal.progress_summary,
        after.blocker_summary == goal.blocker_summary,
        after.verification_summary == goal.verification_summary,
{
}

/// A goal that is not made or not changed is answered with the reason: what is
/// wrong with the budget before what is wrong with the objective, that there is
/// no goal, or that nothing is asked for.
pub proof fn law_unmade_goals_say_why(
    goal: Option<GoalModel>,
    params: GoalCreateParams,
    objective: Option<Seq<char>>,
    status: Option<GoalStatus>,
    token_budget: Option<i64>,
    allow_create: bool,
    faults: GoalFaults,
    id: GoalId,
    now: i64,
)
    ensures
        goal is None && params.faults.token_budget is Some ==> created(goal, params, id, now)
            == Err::<GoalModel, GoalFault>(
            GoalFault::InvalidObjective(params.faults.token_budget->0@),
        ),
        goal is None && params.faults.token_budget is None && params.faults.objective is Some
            ==> created(goal, params, id, now) == Err::<GoalModel, GoalFault>(
            GoalFault::InvalidObjective(params.faults.objective->0@),
        ),
        ({
            let r = patched(
                goal,
                objective,
                status,
                token_budget,
                allow_create,
                params.session_id,
                faults,
                id,
                now,
            );
            &&& faults.token_budget is Some ==> r == Err::<GoalModel, GoalFault>(
                GoalFault::InvalidObjective(faults.token_budget->0@),
            )
            &&& faults.token_budget is None && objective is Some && faults.objective is Some ==> r
                == Err::<GoalModel, GoalFault>(GoalFault::InvalidObjective(faults.objective->0@))
            &&& faults.token_budget is None && goal is None && objective is None ==> (
            r matches Err(GoalFault::NotFound(_)))
            &&& faults.token_budget is None && faults.objective is None && goal is None && objective
                is Some && !allow_create ==> (r matches Err(GoalFault::NotFound(_)))
            &&& faults.token_budget is None && goal is Some && objective is None && status is None
                && token_budget is None ==> r == Err::<GoalModel, GoalFault>(
                GoalFault::InvalidTransition,
            )
        }),
{
}

/// A client is shown the goal as it is: its objective, how much it has used, and
/// its status by name.
pub proof fn law_goals_are_shown_as_they_are(shown: GoalProjection, goal: Goal)
    requires
        shown.shows(goal@),
    ensures
        shown.goal_id@ == id_chars(goal.goal_id.raw),
        shown.objective@ == goal.objective@,
        shown.turns_used == goal.usage.turns_used,
        shown.tokens_used == goal.usage.tokens_used,
        shown.progress_summary is Some <==> goal.progress_summary is Some,
        goal.progress_summary is Some ==> shown.progress_summary->0@ == goal.progress_summary->0@,
        goal.status is Active ==> shown.status@ == "active"@,
        goal.status is Paused ==> shown.status@ == "paused"@,
        goal.status is Blocked ==> shown.status@ == "blocked"@,
        goal.status is BudgetLimited ==> shown.status@ == "budgetlimited"@,
        goal.status is Completed ==> shown.status@ == "completed"@,
        goal.status is Failed ==> shown.status@ == "failed"@,
        goal.status is Canceled ==> shown.status@ == "canceled"@,
        goal.status is Cleared ==> shown.status@ == "cleared"@,
{
}

} // verus!
