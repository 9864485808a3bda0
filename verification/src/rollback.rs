//! Rolling a session back in two phases: a preview makes a plan, a commit
//! carries it out.
//!
//! A plan belongs to the connection that asked for it and expires. Once files
//! may have changed, a plan is carried to its end whatever the clock says.

use crate::message_edit::SessionItem;
use crate::paths::{copy_path, Component};
use crate::protocol::{
    reject, reject_about, reject_session_missing, rejection, rejection_about, session_missing,
    ErrorCode, ItemId, Rejection, SessionId, TurnId,
};
use crate::text::text_equal;
use crate::turn_cut::{
    build_runtime_session_from_user_turn_cut, cut_falls_at, cut_keeps, fingerprint_of, has_cut,
    history_fingerprint, is_cut_session, is_made_by_cut, items_in_order,
    kept_items_for_user_turn_cut, last_kept, law_a_cut_falls_once, retained_ids, same_fingerprint,
    turns_in_order, user_turn_ids, user_turns, CutOptions, CutSession, CutSource, RollbackMode,
};
use crate::workspace_restore::FileStatus;
use vstd::prelude::*;

verus! {

/// How long a plan can be committed, in microseconds.
pub const RESTORE_PLAN_TTL: i64 = 600_000_000;

/// How long an expired plan is still known, in microseconds.
pub const RESTORE_PLAN_TOMBSTONE_TTL: i64 = 600_000_000;

/// How many plans are kept at most.
pub const RESTORE_PLAN_STORE_LIMIT: usize = 1024;

/// The workspace version of a plan that touches no file.
pub fn history_only_workspace_version() -> (r: &'static str)
    ensures
        r@ == "history-only"@,
{
    "history-only"
}

/// What became of one file of a restore.
#[derive(Clone, Debug)]
pub struct FileOutcome {
    pub file: String,
    pub status: FileStatus,
}

/// What became of a restore.
#[derive(Clone, Debug)]
pub struct RestoreRecord {
    pub restore: u128,
    pub outcomes: Vec<FileOutcome>,
}

/// What a committed rollback did.
#[derive(Clone, Copy, Debug, PartialEq, Eq, Structural)]
pub struct CommitResult {
    pub restored_turns: u32,
    pub restored_files: u32,
}

/// Where a plan stands.
#[derive(Clone, Debug)]
pub enum PlanStatus {
    Ready,
    InFlight,
    /// A restore failed after it may have changed files. It is tried again
    /// only while the workspace has the version that the failure left.
    RestoreRetry { version: String },
    /// The files are back, but that is not recorded yet.
    CompletionPending { completed: RestoreRecord, restored_files: u32 },
    /// The files are back on record, but the history is not cut yet.
    HistoryPending { restored_files: u32 },
    Completed(CommitResult),
}

/// What a commit has to do.
#[derive(Clone, Debug)]
pub enum CommitAction {
    Full,
    RestoreRetry { version: String },
    CompletionPending { completed: RestoreRecord, restored_files: u32 },
    HistoryPending { restored_files: u32 },
}

/// The status from which an attempt that did nothing is tried again.
pub open spec fn retry_status(action: CommitAction) -> PlanStatus {
    match action {
        CommitAction::Full => PlanStatus::Ready,
        CommitAction::RestoreRetry { version } => PlanStatus::RestoreRetry { version },
        CommitAction::CompletionPending { completed, restored_files } =>
            PlanStatus::CompletionPending { completed, restored_files },
        CommitAction::HistoryPending { restored_files } => PlanStatus::HistoryPending {
            restored_files,
        },
    }
}

/// The status from which an attempt that did nothing is tried again.
pub fn status_for_retry(action: CommitAction) -> (r: PlanStatus)
    ensures
        r == retry_status(action),
{
    match action {
        CommitAction::Full => PlanStatus::Ready,
        CommitAction::RestoreRetry { version } => PlanStatus::RestoreRetry { version },
        CommitAction::CompletionPending { completed, restored_files } =>
            PlanStatus::CompletionPending { completed, restored_files },
        CommitAction::HistoryPending { restored_files } => PlanStatus::HistoryPending {
            restored_files,
        },
    }
}

/// What is left to do of a plan whose files may have changed.
pub open spec fn left_to_do(status: PlanStatus) -> Option<CommitAction> {
    match status {
        PlanStatus::RestoreRetry { version } => Some(CommitAction::RestoreRetry { version }),
        PlanStatus::CompletionPending { completed, restored_files } => Some(
            CommitAction::CompletionPending { completed, restored_files },
        ),
        PlanStatus::HistoryPending { restored_files } => Some(
            CommitAction::HistoryPending { restored_files },
        ),
        _ => None,
    }
}

/// What is left to do of a plan whose files may have changed.
pub fn recovery_action(status: PlanStatus) -> (r: Option<CommitAction>)
    ensures
        r == left_to_do(status),
{
    match status {
        PlanStatus::RestoreRetry { version } => Some(CommitAction::RestoreRetry { version }),
        PlanStatus::CompletionPending { completed, restored_files } => Some(
            CommitAction::CompletionPending { completed, restored_files },
        ),
        PlanStatus::HistoryPending { restored_files } => Some(
            CommitAction::HistoryPending { restored_files },
        ),
        PlanStatus::Ready | PlanStatus::InFlight | PlanStatus::Completed(_) => None,
    }
}

/// An attempt at recovery that did nothing leaves exactly that recovery to be
/// done.
pub proof fn law_failed_recovery_is_taken_up_again(status: PlanStatus, action: CommitAction)
    ensures
        left_to_do(status) is Some ==> retry_status(left_to_do(status)->0) == status,
        !(action is Full) ==> left_to_do(retry_status(action)) == Some(action),
        left_to_do(retry_status(CommitAction::Full)) is None,
{
}

/// Whether a plan's files may have changed, or are being changed.
pub open spec fn is_committed_to(status: PlanStatus) -> bool {
    status is InFlight || left_to_do(status) is Some
}

/// The snapshot of the workspace that a plan goes back to.
#[derive(Clone, Debug)]
pub struct Checkpoint {
    pub turn: TurnId,
    pub id: String,
    pub workspace_root: String,
}

/// A file that a rollback changes: its path, and how the path is shown.
#[derive(Clone, Debug)]
pub struct AffectedFile {
    pub path: Vec<Component>,
    pub shown: String,
}

/// A plan.
#[derive(Clone, Debug)]
pub struct StoredPlan {
    pub id: u128,
    pub connection: u64,
    pub owner_disconnected: bool,
    pub session: SessionId,
    pub user_turn_index: u32,
    pub mode: RollbackMode,
    pub fingerprint: Vec<(TurnId, ItemId)>,
    pub checkpoint: Option<Checkpoint>,
    pub workspace_version: String,
    pub affected_files: Vec<AffectedFile>,
    pub dropped_turns: u32,
    pub expires_at: i64,
    pub status: PlanStatus,
}

/// Whether a plan is kept at the time `now`: as long as it is committed to,
/// and else until some time after it expired.
pub open spec fn is_kept(plan: StoredPlan, now: i64) -> bool {
    is_committed_to(plan.status) || plan.expires_at + RESTORE_PLAN_TOMBSTONE_TTL > now
}

fn keeps_plan(plan: &StoredPlan, now: i64) -> (r: bool)
    ensures
        r == is_kept(*plan, now),
{
    match &plan.status {
        PlanStatus::InFlight
        | PlanStatus::RestoreRetry { .. }
        | PlanStatus::CompletionPending { .. }
        | PlanStatus::HistoryPending { .. } => true,
        PlanStatus::Ready | PlanStatus::Completed(_) => plan.expires_at as i128
            + RESTORE_PLAN_TOMBSTONE_TTL as i128 > now as i128,
    }
}

/// The plans that are known.
#[derive(Debug)]
pub struct PlanStore {
    plans: Vec<StoredPlan>,
}

/// Whether the plan `id` stands at `i`.
pub open spec fn stands_at(plans: Seq<StoredPlan>, id: u128, i: int) -> bool {
    0 <= i < plans.len() && plans[i].id == id
}

/// Whether `left` are the plans without the plan `id`, where it is among them.
pub open spec fn is_without(plans: Seq<StoredPlan>, id: u128, left: Seq<StoredPlan>) -> bool {
    if exists|i: int| stands_at(plans, id, i) {
        exists|i: int| #[trigger] stands_at(plans, id, i) && left == plans.remove(i)
    } else {
        left == plans
    }
}

impl PlanStore {
    /// The plans, in the order in which they were made.
    pub closed spec fn plans(self) -> Seq<StoredPlan> {
        self.plans@
    }

    /// Whether the plan `id` stands at `i`.
    pub open spec fn holds(self, id: u128, i: int) -> bool {
        0 <= i < self.plans().len() && self.plans()[i].id == id
    }

    /// Whether no two plans have one identifier and there are not too many.
    pub open spec fn well_formed(self) -> bool {
        &&& forall|i: int, j: int|
            0 <= i < j < self.plans().len() ==> (#[trigger] self.plans()[i]).id != (
            #[trigger] self.plans()[j]).id
        &&& self.plans().len() <= RESTORE_PLAN_STORE_LIMIT
    }

    /// The plan `id`.
    pub open spec fn lookup(self, id: u128) -> Option<StoredPlan> {
        if exists|i: int| self.holds(id, i) {
            Some(self.plans()[choose|i: int| self.holds(id, i)])
        } else {
            None
        }
    }

    /// A store without plans.
    pub fn new() -> (r: PlanStore)
        ensures
            r.well_formed(),
            r.plans().len() == 0,
    {
        PlanStore { plans: Vec::new() }
    }

    fn find(&self, id: u128) -> (r: Option<usize>)
        requires
            self.well_formed(),
        ensures
            match r {
                Some(i) => {
                    &&& self.holds(id, i as int)
                    &&& self.lookup(id) == Some(self.plans()[i as int])
                },
                None => self.lookup(id) is None,
            },
    {
        let mut i: usize = 0;
        while i < self.plans.len()
            invariant
                i <= self.plans@.len(),
                self.well_formed(),
                forall|j: int| 0 <= j < i ==> (#[trigger] self.plans@[j]).id != id,
            decreases self.plans@.len() - i,
        {
            if self.plans[i].id == id {
                proof {
                    assert(self.holds(id, i as int));
                    let k = choose|k: int| self.holds(id, k);
                    assert(self.holds(id, k));
                    assert(self.plans()[k].id == self.plans()[i as int].id);
                }
                return Some(i);
            }
            i = i + 1;
        }
        proof {
            if exists|k: int| self.holds(id, k) {
                let k = choose|k: int| self.holds(id, k);
                assert(self.plans@[k].id == id);
            }
        }
        None
    }

    /// The plan `id`.
    pub fn get(&self, id: u128) -> (r: Option<&StoredPlan>)
        requires
            self.well_formed(),
        ensures
            match r {
                Some(plan) => self.lookup(id) == Some(*plan),
                None => self.lookup(id) is None,
            },
    {
        match self.find(id) {
            Some(i) => Some(&self.plans[i]),
            None => None,
        }
    }

    /// Drops the plans that are not kept any longer.
    pub fn prune(&mut self, now: i64)
        requires
            old(self).well_formed(),
        ensures
            final(self).well_formed(),
            final(self).plans() == old(self).plans().filter(|plan: StoredPlan| is_kept(plan, now)),
    {
        let ghost keep = |plan: StoredPlan| is_kept(plan, now);
        let ghost before = self.plans@;
        let mut i: usize = 0;
        let ghost mut seen: int = 0;
        proof {
            assert(before.take(0).filter(keep) =~= Seq::empty());
            assert(self.plans@.skip(0) =~= before.skip(0));
        }
        while i < self.plans.len()
            invariant
                keep == (|plan: StoredPlan| is_kept(plan, now)),
                0 <= seen <= before.len(),
                i <= self.plans@.len(),
                self.plans@.len() - i == before.len() - seen,
                self.plans@.take(i as int) == before.take(seen).filter(keep),
                self.plans@.skip(i as int) == before.skip(seen),
            decreases self.plans@.len() - i,
        {
            proof {
                assert(self.plans@.skip(i as int)[0] == before.skip(seen)[0]);
                assert(before.take(seen + 1) =~= before.take(seen).push(before[seen]));
                before.take(seen).lemma_filter_push(before[seen], keep);
            }
            let ghost current = self.plans@;
            if keeps_plan(&self.plans[i], now) {
                i = i + 1;
                proof {
                    assert(self.plans@.take(i as int) =~= current.take(i - 1).push(
                        current[i - 1],
                    ));
                    assert(self.plans@.skip(i as int) =~= current.skip(i - 1).drop_first());
                    assert(before.skip(seen + 1) =~= before.skip(seen).drop_first());
                }
            } else {
                self.plans.remove(i);
                proof {
                    assert(self.plans@.take(i as int) =~= current.take(i as int));
                    assert(self.plans@.skip(i as int) =~= current.skip(i as int).drop_first());
                    assert(before.skip(seen + 1) =~= before.skip(seen).drop_first());
                }
            }
            proof {
                seen = seen + 1;
            }
        }
        proof {
            assert(before.take(before.len() as int) =~= before);
            assert(self.plans@.take(self.plans@.len() as int) =~= self.plans@);
            lemma_filter_keeps_distinct(before, keep);
        }
    }

    /// Notes a new plan, which expires some time after `now`. Plans that are
    /// not kept any longer make room; a full store refuses the plan. One with the
    /// same identifier is replaced.
    pub fn insert(&mut self, plan: StoredPlan, now: i64) -> (r: Option<Rejection>)
        requires
            old(self).well_formed(),
            now <= i64::MAX - RESTORE_PLAN_TTL,
        ensures
            final(self).well_formed(),
            ({
                let kept = old(self).plans().filter(|plan: StoredPlan| is_kept(plan, now));
                if kept.len() >= RESTORE_PLAN_STORE_LIMIT {
                    &&& final(self).plans() == kept
                    &&& r == Some(
                        rejection(
                            ErrorCode::InternalError,
                            "restore plan store is full; retry after an existing plan expires",
                        ),
                    )
                } else {
                    &&& r is None
                    &&& final(self).plans().len() > 0
                    &&& is_without(kept, plan.id, final(self).plans().drop_last())
                    &&& final(self).plans().last() == (StoredPlan {
                        expires_at: (now + RESTORE_PLAN_TTL) as i64,
                        owner_disconnected: false,
                        status: PlanStatus::Ready,
                        ..plan
                    })
                }
            }),
    {
        self.prune(now);
        if self.plans.len() >= RESTORE_PLAN_STORE_LIMIT {
            return Some(
                reject(
                    ErrorCode::InternalError,
                    "restore plan store is full; retry after an existing plan expires",
                ),
            );
        }
        let ghost kept = self.plans();
        let id = plan.id;
        if let Some(at) = self.find(id) {
            assert(stands_at(kept, id, at as int));
            self.plans.remove(at);
            proof {
                let left = self.plans();
                assert(left =~= kept.remove(at as int));
                assert forall|i: int| 0 <= i < left.len() implies (#[trigger] left[i]).id != id by {
                    if i < at {
                        assert(kept[i].id != kept[at as int].id);
                    } else {
                        assert(kept[at as int].id != kept[i + 1].id);
                    }
                }
                assert forall|i: int, j: int| 0 <= i < j < left.len() implies (
                #[trigger] left[i]).id != (#[trigger] left[j]).id by {
                    let x = if i < at {
                        i
                    } else {
                        i + 1
                    };
                    let y = if j < at {
                        j
                    } else {
                        j + 1
                    };
                    assert(kept[x].id != kept[y].id);
                }
            }
        } else {
            proof {
                assert forall|i: int| 0 <= i < kept.len() implies (#[trigger] kept[i]).id != id by {
                    if kept[i].id == id {
                        assert(self.holds(id, i));
                    }
                }
            }
        }
        let ghost left = self.plans();
        let mut plan = plan;
        plan.expires_at = now + RESTORE_PLAN_TTL;
        plan.owner_disconnected = false;
        plan.status = PlanStatus::Ready;
        self.plans.push(plan);
        assert(self.plans().drop_last() =~= left);
        None
    }
}

proof fn lemma_filter_keeps_distinct(plans: Seq<StoredPlan>, keep: spec_fn(StoredPlan) -> bool)
    requires
        forall|i: int, j: int|
            0 <= i < j < plans.len() ==> (#[trigger] plans[i]).id != (#[trigger] plans[j]).id,
    ensures
        forall|i: int, j: int|
            0 <= i < j < plans.filter(keep).len() ==> (#[trigger] plans.filter(keep)[i]).id != (
            #[trigger] plans.filter(keep)[j]).id,
        plans.filter(keep).len() <= plans.len(),
    decreases plans.len(),
{
    plans.lemma_filter_len(keep);
    if plans.len() > 0 {
        let before = plans.drop_last();
        assert forall|i: int, j: int| 0 <= i < j < before.len() implies (#[trigger] before[i]).id
            != (#[trigger] before[j]).id by {
            assert(before[i] == plans[i] && before[j] == plans[j]);
        }
        lemma_filter_keeps_distinct(before, keep);
        assert(plans =~= before.push(plans.last()));
        before.lemma_filter_push(plans.last(), keep);
        let kept = plans.filter(keep);
        let earlier = before.filter(keep);
        assert forall|i: int, j: int| 0 <= i < j < kept.len() implies (#[trigger] kept[i]).id != (
        #[trigger] kept[j]).id by {
            if j < earlier.len() {
                assert(kept[i] == earlier[i] && kept[j] == earlier[j]);
            } else {
                assert(earlier.contains(earlier[i]));
                before.lemma_filter_contains_rev(keep, earlier[i]);
                let k = choose|k: int| 0 <= k < before.len() && before[k] == earlier[i];
                assert(plans[k] == kept[i]);
                assert(plans[plans.len() - 1] == kept[j]);
            }
        }
    }
}

/// What a commit request leads to.
#[derive(Debug)]
pub enum CommitStart {
    Reject(Rejection),
    /// The rollback was done already; this is what it did.
    Replay(CommitResult),
    /// Another commit of the plan is under way: wait for it and ask again.
    Wait,
    Attempt(CommitAction),
}

/// The answer where the connection has no such plan.
pub open spec fn plan_missing() -> Rejection {
    rejection(ErrorCode::RestorePlanNotFound, "restore plan does not exist")
}

/// Whether a plan can no longer be committed at the time `now`. A plan that
/// is committed to does not expire.
pub open spec fn is_expired(plan: StoredPlan, now: i64) -> bool {
    now > plan.expires_at && !is_committed_to(plan.status)
}

/// What a commit request leads to.
pub open spec fn commit_start(
    plan: Option<StoredPlan>,
    connection: u64,
    now: i64,
    expected_version: Seq<char>,
) -> CommitStart {
    match plan {
        None => CommitStart::Reject(plan_missing()),
        Some(plan) => if plan.connection != connection {
            CommitStart::Reject(plan_missing())
        } else if is_expired(plan, now) {
            CommitStart::Reject(
                rejection(ErrorCode::RestorePlanExpired, "restore plan has expired"),
            )
        } else if plan.workspace_version@ != expected_version {
            CommitStart::Reject(
                rejection(
                    ErrorCode::WorkspaceVersionConflict,
                    "expected workspace version does not match the restore plan",
                ),
            )
        } else {
            match plan.status {
                PlanStatus::Ready => CommitStart::Attempt(CommitAction::Full),
                PlanStatus::Completed(result) => CommitStart::Replay(result),
                PlanStatus::InFlight => CommitStart::Wait,
                status => CommitStart::Attempt(left_to_do(status)->0),
            }
        },
    }
}

/// How an attempt at a commit ended.
#[derive(Debug)]
pub enum AttemptEnd {
    Committed(CommitResult),
    /// The attempt failed; this is where the plan stands now.
    Failed(PlanStatus),
}

/// Where a plan stands after an attempt.
pub open spec fn status_after(end: AttemptEnd) -> PlanStatus {
    match end {
        AttemptEnd::Committed(result) => PlanStatus::Completed(result),
        AttemptEnd::Failed(status) => status,
    }
}

/// What is left to do after an attempt whose owner has gone.
pub open spec fn recovery_after(end: AttemptEnd) -> Option<CommitAction> {
    match end {
        AttemptEnd::Committed(_) => None,
        AttemptEnd::Failed(status) => left_to_do(status),
    }
}

/// Whether a store marks the plan as running where its commit starts, and keeps
/// every plan as it is where it does not.
pub open spec fn is_begun(
    before: PlanStore,
    id: u128,
    start: CommitStart,
    after: PlanStore,
) -> bool {
    if start is Attempt {
        exists|i: int|
            #[trigger] before.holds(id, i) && after.plans() == before.plans().update(
                i,
                StoredPlan { status: PlanStatus::InFlight, ..before.plans()[i] },
            )
    } else {
        after.plans() == before.plans()
    }
}

/// Whether a store gives a plan its status after an attempt, and drops it where
/// the owner of the plan is gone.
pub open spec fn is_settled(
    before: PlanStore,
    id: u128,
    status: PlanStatus,
    after: PlanStore,
) -> bool {
    match before.lookup(id) {
        None => after.plans() == before.plans(),
        Some(plan) => exists|i: int|
            {
                &&& #[trigger] before.holds(id, i)
                &&& if plan.owner_disconnected {
                    after.plans() == before.plans().remove(i)
                } else {
                    after.plans() == before.plans().update(i, StoredPlan { status, ..plan })
                }
            },
    }
}

/// What is left to the server to do after an attempt: nothing while the plan has
/// an owner.
pub open spec fn recovery_left(plan: Option<StoredPlan>, end: AttemptEnd) -> Option<CommitAction> {
    match plan {
        Some(plan) if plan.owner_disconnected => recovery_after(end),
        _ => None,
    }
}

impl PlanStore {
    /// Asks for a commit of the plan `id`. Where it leads to an attempt, the
    /// plan is marked as being committed, so that no other attempt starts.
    pub fn begin_commit(
        &mut self,
        id: u128,
        connection: u64,
        now: i64,
        expected_version: &str,
    ) -> (r: CommitStart)
        requires
            old(self).well_formed(),
        ensures
            final(self).well_formed(),
            r == commit_start(old(self).lookup(id), connection, now, expected_version@),
            is_begun(*old(self), id, r, *final(self)),
    {
        let at: usize = match self.find(id) {
            Some(at) => at,
            None => {
                return CommitStart::Reject(
                    reject(ErrorCode::RestorePlanNotFound, "restore plan does not exist"),
                );
            },
        };
        if self.plans[at].connection != connection {
            return CommitStart::Reject(
                reject(ErrorCode::RestorePlanNotFound, "restore plan does not exist"),
            );
        }
        let expires = match &self.plans[at].status {
            PlanStatus::Ready | PlanStatus::Completed(_) => true,
            _ => false,
        };
        if expires && now > self.plans[at].expires_at {
            return CommitStart::Reject(
                reject(ErrorCode::RestorePlanExpired, "restore plan has expired"),
            );
        }
        if !text_equal(self.plans[at].workspace_version.as_str(), expected_version) {
            return CommitStart::Reject(
                reject(
                    ErrorCode::WorkspaceVersionConflict,
                    "expected workspace version does not match the restore plan",
                ),
            );
        }
        match &self.plans[at].status {
            PlanStatus::InFlight => {
                return CommitStart::Wait;
            },
            PlanStatus::Completed(result) => {
                return CommitStart::Replay(*result);
            },
            _ => {},
        }
        let ghost before = *self;
        let plan = self.plans.remove(at);
        let StoredPlan {
            id,
            connection,
            owner_disconnected,
            session,
            user_turn_index,
            mode,
            fingerprint,
            checkpoint,
            workspace_version,
            affected_files,
            dropped_turns,
            expires_at,
            status,
        } = plan;
        let action = match recovery_action(status) {
            Some(action) => action,
            None => CommitAction::Full,
        };
        self.plans.insert(
            at,
            StoredPlan {
                id,
                connection,
                owner_disconnected,
                session,
                user_turn_index,
                mode,
                fingerprint,
                checkpoint,
                workspace_version,
                affected_files,
                dropped_turns,
                expires_at,
                status: PlanStatus::InFlight,
            },
        );
        proof {
            let marked = StoredPlan {
                status: PlanStatus::InFlight,
                ..before.plans()[at as int]
            };
            assert(before.holds(id, at as int));
            assert(self.plans() =~= before.plans().update(at as int, marked));
        }
        CommitStart::Attempt(action)
    }

    /// Notes how an attempt at the plan `id` ended. Where the owner has gone
    /// in the meantime the plan is dropped, and what is left to do of it is
    /// handed back.
    pub fn finish_commit(&mut self, id: u128, end: AttemptEnd) -> (r: Option<CommitAction>)
        requires
            old(self).well_formed(),
        ensures
            final(self).well_formed(),
            is_settled(*old(self), id, status_after(end), *final(self)),
            r == recovery_left(old(self).lookup(id), end),
    {
        let ghost before = *self;
        let at: usize = match self.find(id) {
            Some(at) => at,
            None => {
                return None;
            },
        };
        assert(before.holds(id, at as int));
        let status = match end {
            AttemptEnd::Committed(result) => PlanStatus::Completed(result),
            AttemptEnd::Failed(status) => status,
        };
        if self.plans[at].owner_disconnected {
            self.plans.remove(at);
            proof {
                assert(self.plans() =~= before.plans().remove(at as int));
            }
            return recovery_action(status);
        }
        let mut plan = self.plans.remove(at);
        plan.status = status;
        self.plans.insert(at, plan);
        proof {
            let marked = StoredPlan {
                status: status_after(end),
                ..before.plans()[at as int]
            };
            assert(self.plans() =~= before.plans().update(at as int, marked));
        }
        None
    }

    /// Notes that the task of an attempt died. The plan goes back to where the
    /// attempt took it up; where the owner has gone it is dropped.
    pub fn abandon_commit(&mut self, id: u128, action: CommitAction)
        requires
            old(self).well_formed(),
        ensures
            final(self).well_formed(),
            is_settled(*old(self), id, retry_status(action), *final(self)),
    {
        self.finish_commit(id, AttemptEnd::Failed(status_for_retry(action)));
    }

    /// Lets go of the plans of a connection that is gone. A plan that is being
    /// committed stays until the attempt ends; of the others, those whose
    /// files may have changed are handed back with what is left to do.
    pub fn drop_connection(&mut self, connection: u64) -> (r: Vec<StoredPlan>)
        requires
            old(self).well_formed(),
        ensures
            final(self).well_formed(),
            final(self).plans() == plans_left(old(self).plans(), connection),
            r@ == plans_to_recover(old(self).plans(), connection),
    {
        let ghost before = self.plans@;
        let mut recovered: Vec<StoredPlan> = Vec::new();
        let mut i: usize = 0;
        let ghost mut seen: int = 0;
        proof {
            assert(before.take(0) =~= Seq::empty());
            assert(self.plans@.take(0) =~= Seq::empty());
            assert(self.plans@.skip(0) =~= before.skip(0));
        }
        while i < self.plans.len()
            invariant
                0 <= seen <= before.len(),
                i <= self.plans@.len(),
                self.plans@.len() - i == before.len() - seen,
                self.plans@.take(i as int) == plans_left(before.take(seen), connection),
                recovered@ == plans_to_recover(before.take(seen), connection),
                self.plans@.skip(i as int) == before.skip(seen),
            decreases self.plans@.len() - i,
        {
            proof {
                assert(self.plans@.skip(i as int)[0] == before.skip(seen)[0]);
                assert(before.take(seen + 1).drop_last() =~= before.take(seen));
                assert(before.take(seen + 1).last() == before[seen]);
            }
            let ghost current = self.plans@;
            let in_flight = match &self.plans[i].status {
                PlanStatus::InFlight => true,
                _ => false,
            };
            if self.plans[i].connection != connection {
                i = i + 1;
                proof {
                    assert(self.plans@.take(i as int) =~= current.take(i - 1).push(
                        current[i - 1],
                    ));
                    assert(self.plans@.skip(i as int) =~= current.skip(i - 1).drop_first());
                    assert(before.skip(seen + 1) =~= before.skip(seen).drop_first());
                }
            } else if in_flight {
                let mut plan = self.plans.remove(i);
                plan.owner_disconnected = true;
                self.plans.insert(i, plan);
                i = i + 1;
                proof {
                    assert(self.plans@.take(i as int) =~= current.take(i - 1).push(plan));
                    assert(self.plans@.skip(i as int) =~= current.skip(i - 1).drop_first());
                    assert(before.skip(seen + 1) =~= before.skip(seen).drop_first());
                }
            } else {
                let plan = self.plans.remove(i);
                proof {
                    assert(self.plans@.take(i as int) =~= current.take(i as int));
                    assert(self.plans@.skip(i as int) =~= current.skip(i as int).drop_first());
                    assert(before.skip(seen + 1) =~= before.skip(seen).drop_first());
                }
                let wanted = match &plan.status {
                    PlanStatus::RestoreRetry { .. }
                    | PlanStatus::CompletionPending { .. }
                    | PlanStatus::HistoryPending { .. } => true,
                    _ => false,
                };
                if wanted {
                    recovered.push(plan);
                }
            }
            proof {
                seen = seen + 1;
            }
        }
        proof {
            assert(before.take(before.len() as int) =~= before);
            assert(self.plans@.take(self.plans@.len() as int) =~= self.plans@);
            lemma_plans_left_distinct(before, connection);
        }
        recovered
    }
}

/// The plans that stay when a connection is gone: those of others, and those
/// that are being committed.
pub open spec fn plans_left(plans: Seq<StoredPlan>, connection: u64) -> Seq<StoredPlan>
    decreases plans.len(),
{
    if plans.len() == 0 {
        Seq::empty()
    } else {
        let before = plans_left(plans.drop_last(), connection);
        let plan = plans.last();
        if plan.connection != connection {
            before.push(plan)
        } else if plan.status is InFlight {
            before.push(StoredPlan { owner_disconnected: true, ..plan })
        } else {
            before
        }
    }
}

/// The plans of a connection that is gone whose files may have changed.
pub open spec fn plans_to_recover(plans: Seq<StoredPlan>, connection: u64) -> Seq<StoredPlan>
    decreases plans.len(),
{
    if plans.len() == 0 {
        Seq::empty()
    } else {
        let before = plans_to_recover(plans.drop_last(), connection);
        let plan = plans.last();
        if plan.connection == connection && left_to_do(plan.status) is Some {
            before.push(plan)
        } else {
            before
        }
    }
}

proof fn lemma_plans_left_ids(plans: Seq<StoredPlan>, connection: u64, i: int)
    requires
        0 <= i < plans_left(plans, connection).len(),
    ensures
        exists|k: int|
            0 <= k < plans.len() && (#[trigger] plans[k]).id == plans_left(plans, connection)[i].id,
    decreases plans.len(),
{
    if plans.len() > 0 {
        let before = plans_left(plans.drop_last(), connection);
        if i < before.len() {
            lemma_plans_left_ids(plans.drop_last(), connection, i);
            let k = choose|k: int|
                0 <= k < plans.drop_last().len() && (#[trigger] plans.drop_last()[k]).id
                    == before[i].id;
            assert(plans[k].id == before[i].id);
        } else {
            assert(plans[plans.len() - 1].id == plans_left(plans, connection)[i].id);
        }
    }
}

proof fn lemma_plans_left_distinct(plans: Seq<StoredPlan>, connection: u64)
    requires
        forall|i: int, j: int|
            0 <= i < j < plans.len() ==> (#[trigger] plans[i]).id != (#[trigger] plans[j]).id,
    ensures
        plans_left(plans, connection).len() <= plans.len(),
        forall|i: int, j: int|
            0 <= i < j < plans_left(plans, connection).len() ==> (#[trigger] plans_left(
                plans,
                connection,
            )[i]).id != (#[trigger] plans_left(plans, connection)[j]).id,
    decreases plans.len(),
{
    if plans.len() > 0 {
        let earlier = plans.drop_last();
        assert forall|i: int, j: int| 0 <= i < j < earlier.len() implies (#[trigger] earlier[i]).id
            != (#[trigger] earlier[j]).id by {
            assert(earlier[i] == plans[i] && earlier[j] == plans[j]);
        }
        lemma_plans_left_distinct(earlier, connection);
        let before = plans_left(earlier, connection);
        let all = plans_left(plans, connection);
        assert forall|i: int, j: int| 0 <= i < j < all.len() implies (#[trigger] all[i]).id != (
        #[trigger] all[j]).id by {
            if j < before.len() {
                assert(all[i] == before[i] && all[j] == before[j]);
            } else {
                lemma_plans_left_ids(earlier, connection, i);
                let k = choose|k: int|
                    0 <= k < earlier.len() && (#[trigger] earlier[k]).id == before[i].id;
                assert(plans[k].id == all[i].id);
                assert(plans[plans.len() - 1].id == all[j].id);
            }
        }
    }
}

/// Two commits of one plan never run at once: while one is under way another
/// waits.
pub proof fn law_commits_do_not_overlap(
    plan: StoredPlan,
    connection: u64,
    now: i64,
    expected_version: Seq<char>,
)
    requires
        plan.status is InFlight,
    ensures
        !(commit_start(Some(plan), connection, now, expected_version) is Attempt),
{
}

/// A commit that is asked for again, in time and by its owner, is answered
/// with what the first one did.
pub proof fn law_commit_is_idempotent(
    plan: StoredPlan,
    now: i64,
    result: CommitResult,
)
    requires
        plan.status == PlanStatus::Completed(result),
        now <= plan.expires_at,
    ensures
        commit_start(Some(plan), plan.connection, now, plan.workspace_version@)
            == CommitStart::Replay(result),
{
}

/// A plan whose files may have changed neither expires nor is forgotten, at
/// any time: its owner can always have it carried to its end.
pub proof fn law_recovery_outlives_the_clock(plan: StoredPlan, now: i64)
    requires
        left_to_do(plan.status) is Some,
    ensures
        is_kept(plan, now),
        commit_start(Some(plan), plan.connection, now, plan.workspace_version@)
            == CommitStart::Attempt(left_to_do(plan.status)->0),
{
}

/// Another connection learns nothing of a plan: it is answered as if there
/// were none.
pub proof fn law_plans_belong_to_their_connection(
    plan: StoredPlan,
    connection: u64,
    now: i64,
    expected_version: Seq<char>,
)
    requires
        plan.connection != connection,
    ensures
        commit_start(Some(plan), connection, now, expected_version) == commit_start(
            None,
            connection,
            now,
            expected_version,
        ),
{
}

/// Why the files could not be put back, and how far it got.
#[derive(Debug)]
pub struct RestoreFailure<W = RestoreRecord> {
    pub why: Rejection,
    /// The files are back, but that could not be recorded.
    pub completion: Option<(W, u32)>,
    /// The version in which the failure left the workspace.
    pub version: Option<String>,
}

/// The session that is rolled back, and whether it has a rollout.
#[derive(Debug)]
pub struct CommitSource {
    pub session: CutSource,
    pub durable: bool,
}

/// What the rollout says of a rollback: what is retained, and the latest turn.
#[derive(Debug)]
pub struct RollbackRecord {
    pub turns: Vec<TurnId>,
    pub items: Vec<ItemId>,
    pub latest: Option<TurnId>,
}

/// What an attempt at a commit waits for.
#[derive(Debug)]
pub enum AttemptPhase {
    ActiveTurn(CommitAction),
    Session(CommitAction),
    Locked(CommitAction),
    StillActive(CommitAction),
    Export(CommitAction),
    Version(CommitAction, CommitSource),
    CompletionWritten { completed: RestoreRecord, restored_files: u32, source: CommitSource },
    Restored(CommitAction, CommitSource),
    HistoryWritten(u32, CommitSource),
    StateReplaced(u32),
    Finished,
}

/// What the host observed during an attempt.
#[derive(Debug)]
pub enum AttemptEvent {
    TurnActive(bool),
    SessionFound(bool),
    Done,
    /// The session, unless it is gone.
    Exported(Option<CommitSource>),
    VersionMatches(Result<bool, String>),
    Written(Option<String>),
    Restored(Result<u32, RestoreFailure>),
}

/// What the host has to do for an attempt. `F` are files, `W` is what became
/// of them, `R` what is recorded of the rollback, and `S` what the session
/// becomes; all are `()` where only the order of the steps matters.
#[derive(Debug)]
pub enum AttemptAction<
    F = Vec<AffectedFile>,
    W = RestoreRecord,
    R = RollbackRecord,
    S = CutSession,
> {
    /// Read whether a turn of the session is running.
    ReadActiveTurn,
    /// Find the session.
    FindSession,
    /// Lock the state of the session.
    LockState,
    /// Read the session as it is now.
    ExportSession,
    /// Compare the workspace at `root` with a version of it.
    CompareVersion { root: String, version: String },
    /// Record and announce that the files are back.
    WriteCompletion(W),
    /// Put these files back from the checkpoint.
    RestoreFiles { checkpoint: Checkpoint, files: F },
    /// Append to the rollout which turns and items are kept.
    AppendRollback(R),
    /// Put this in the place of the loaded session.
    ReplaceState(S),
    /// The plan is carried out.
    Committed(CommitResult),
    /// The attempt failed and leaves the plan in this state.
    Fail(Rejection, PlanStatus),
    /// Nothing: the event does not belong to the phase.
    Ignore,
}

/// What the host has to do for an attempt, without what it does it with.
pub type AttemptOrder = AttemptAction<(), (), (), ()>;

impl AttemptAction {
    /// What is to be done, without what it is done with.
    pub open spec fn order(self) -> AttemptOrder {
        match self {
            AttemptAction::ReadActiveTurn => AttemptAction::ReadActiveTurn,
            AttemptAction::FindSession => AttemptAction::FindSession,
            AttemptAction::LockState => AttemptAction::LockState,
            AttemptAction::ExportSession => AttemptAction::ExportSession,
            AttemptAction::CompareVersion { root, version } => AttemptAction::CompareVersion {
                root,
                version,
            },
            AttemptAction::WriteCompletion(_) => AttemptAction::WriteCompletion(()),
            AttemptAction::RestoreFiles { checkpoint, .. } => AttemptAction::RestoreFiles {
                checkpoint,
                files: (),
            },
            AttemptAction::AppendRollback(_) => AttemptAction::AppendRollback(()),
            AttemptAction::ReplaceState(_) => AttemptAction::ReplaceState(()),
            AttemptAction::Committed(result) => AttemptAction::Committed(result),
            AttemptAction::Fail(why, status) => AttemptAction::Fail(why, status),
            AttemptAction::Ignore => AttemptAction::Ignore,
        }
    }
}

/// A step without what it is done with.
pub open spec fn attempt_order(
    step: (AttemptPhase, AttemptAction),
) -> (AttemptPhase, AttemptOrder) {
    (step.0, step.1.order())
}

/// Where the plan cuts the session. The rest of it stays as it is.
pub open spec fn plan_options(plan: StoredPlan, session: CutSource) -> CutOptions {
    CutOptions {
        index: Some(plan.user_turn_index),
        mode: plan.mode,
        cwd: None,
        title: session.title,
        created_at: session.created_at,
    }
}

/// Whether `after` is the session once it is cut where the plan says.
pub open spec fn is_rolled_back(plan: StoredPlan, session: CutSource, after: CutSession) -> bool {
    is_made_by_cut(session, plan_options(plan, session), session.default_model, after)
}

/// Whether `record` says what is retained of the items `kept`.
pub open spec fn records_kept(record: RollbackRecord, kept: Seq<SessionItem>) -> bool {
    &&& record.turns@ == turns_in_order(kept, |turn: TurnId| true)
    &&& record.items@ == items_in_order(kept)
    &&& record.latest == last_kept(kept)
}

/// Whether `record` says what is retained once the session is cut where the
/// plan says.
pub open spec fn is_rollback_record(
    plan: StoredPlan,
    session: CutSource,
    record: RollbackRecord,
) -> bool {
    exists|kept: Seq<SessionItem>|
        {
            &&& #[trigger] cut_keeps(
                session.items@,
                Some(plan.user_turn_index),
                plan.mode,
                kept,
            )
            &&& records_kept(record, kept)
        }
}

/// Whether two lists name the same files.
pub open spec fn same_files(a: Seq<AffectedFile>, b: Seq<AffectedFile>) -> bool {
    &&& a.len() == b.len()
    &&& forall|i: int|
        0 <= i < a.len() ==> (#[trigger] a[i]).path@ == b[i].path@ && a[i].shown == b[i].shown
}

/// The session that an attempt works on, if it has been read.
pub open spec fn source_of(phase: AttemptPhase, event: AttemptEvent) -> Option<CommitSource> {
    match (phase, event) {
        (AttemptPhase::Version(_, source), _) => Some(source),
        (AttemptPhase::CompletionWritten { source, .. }, _) => Some(source),
        (AttemptPhase::Restored(_, source), _) => Some(source),
        (AttemptPhase::HistoryWritten(_, source), _) => Some(source),
        (AttemptPhase::Export(_), AttemptEvent::Exported(exported)) => exported,
        _ => None,
    }
}

/// Whether a step is done with what the plan and the session say.
pub open spec fn attempts_with(
    plan: StoredPlan,
    source: Option<CommitSource>,
    step: (AttemptPhase, AttemptAction),
) -> bool {
    match step.1 {
        AttemptAction::RestoreFiles { files, .. } => same_files(files@, plan.affected_files@),
        AttemptAction::WriteCompletion(written) => step.0 matches AttemptPhase::CompletionWritten {
            completed,
            ..
        } && written.restore == completed.restore && written.outcomes@ == completed.outcomes@,
        AttemptAction::AppendRollback(record) => source is Some && is_rollback_record(
            plan,
            source->0.session,
            record,
        ),
        AttemptAction::ReplaceState(after) => source is Some && is_rolled_back(
            plan,
            source->0.session,
            after,
        ),
        _ => true,
    }
}

/// Whether `step` is the next one of an attempt.
pub open spec fn is_attempt_step(
    plan: StoredPlan,
    phase: AttemptPhase,
    event: AttemptEvent,
    step: (AttemptPhase, AttemptAction),
) -> bool {
    &&& attempt_order(step) == attempt_step(plan, phase, event)
    &&& attempts_with(plan, source_of(phase, event), step)
}

/// The version in which the workspace has to be found: that of the preview, or
/// the one that a failed restore left.
pub open spec fn version_wanted(plan: StoredPlan, action: CommitAction) -> String {
    match action {
        CommitAction::RestoreRetry { version } => version,
        _ => plan.workspace_version,
    }
}

/// The step that ends an attempt which changed nothing.
pub open spec fn fail_unchanged(action: CommitAction, why: Rejection) -> (
    AttemptPhase,
    AttemptOrder,
) {
    (AttemptPhase::Finished, AttemptAction::Fail(why, retry_status(action)))
}

/// The answer while a turn is active.
pub open spec fn turn_in_the_way() -> Rejection {
    rejection(
        ErrorCode::TurnAlreadyRunning,
        "cannot commit rollback while a turn is active",
    )
}

/// Whether a history still has the user turn at which the plan cuts it.
pub open spec fn has_user_turn(plan: StoredPlan, source: CommitSource) -> bool {
    has_cut(source.session.items@, Some(plan.user_turn_index))
}

/// The answer where the history cannot be cut.
pub open spec fn turn_gone() -> Rejection {
    rejection(ErrorCode::InvalidParams, "selected turn does not exist")
}

/// The step that cuts the history, once the files are seen to.
pub open spec fn history_step(plan: StoredPlan, restored_files: u32, source: CommitSource) -> (
    AttemptPhase,
    AttemptOrder,
) {
    if !has_user_turn(plan, source) {
        (
            AttemptPhase::Finished,
            AttemptAction::Fail(turn_gone(), PlanStatus::HistoryPending { restored_files }),
        )
    } else if source.durable {
        (AttemptPhase::HistoryWritten(restored_files, source), AttemptAction::AppendRollback(()))
    } else {
        (AttemptPhase::StateReplaced(restored_files), AttemptAction::ReplaceState(()))
    }
}

/// The step once the cut is known to be possible.
pub open spec fn files_step(plan: StoredPlan, action: CommitAction, source: CommitSource) -> (
    AttemptPhase,
    AttemptOrder,
) {
    match action {
        CommitAction::HistoryPending { restored_files } => history_step(
            plan,
            restored_files,
            source,
        ),
        CommitAction::CompletionPending { completed, restored_files } => (
            AttemptPhase::CompletionWritten { completed, restored_files, source },
            AttemptAction::WriteCompletion(()),
        ),
        other => match plan.checkpoint {
            Some(checkpoint) => (
                AttemptPhase::Restored(other, source),
                AttemptAction::RestoreFiles { checkpoint, files: () },
            ),
            None => history_step(plan, 0, source),
        },
    }
}

/// The step that goes on where the history can be cut, and gives up where it
/// cannot.
pub open spec fn cut_step(plan: StoredPlan, action: CommitAction, source: CommitSource) -> (
    AttemptPhase,
    AttemptOrder,
) {
    if has_user_turn(plan, source) {
        files_step(plan, action, source)
    } else {
        fail_unchanged(action, turn_gone())
    }
}

/// Where a plan stands after its files could not be put back.
pub open spec fn status_after_failure(action: CommitAction, failure: RestoreFailure) -> PlanStatus {
    match (failure.completion, failure.version) {
        (Some((completed, restored_files)), _) => PlanStatus::CompletionPending {
            completed,
            restored_files,
        },
        (None, Some(version)) => PlanStatus::RestoreRetry { version },
        (None, None) => retry_status(action),
    }
}

/// The next step of an attempt.
pub open spec fn attempt_step(plan: StoredPlan, phase: AttemptPhase, event: AttemptEvent) -> (
    AttemptPhase,
    AttemptOrder,
) {
    match (phase, event) {
        (AttemptPhase::ActiveTurn(action), AttemptEvent::TurnActive(active)) => if active {
            fail_unchanged(action, turn_in_the_way())
        } else {
            (AttemptPhase::Session(action), AttemptAction::FindSession)
        },
        (AttemptPhase::Session(action), AttemptEvent::SessionFound(found)) => if found {
            (AttemptPhase::Locked(action), AttemptAction::LockState)
        } else {
            fail_unchanged(action, session_missing())
        },
        (AttemptPhase::Locked(action), AttemptEvent::Done) => (
            AttemptPhase::StillActive(action),
            AttemptAction::ReadActiveTurn,
        ),
        (AttemptPhase::StillActive(action), AttemptEvent::TurnActive(active)) => if active {
            fail_unchanged(action, turn_in_the_way())
        } else {
            (AttemptPhase::Export(action), AttemptAction::ExportSession)
        },
        (AttemptPhase::Export(action), AttemptEvent::Exported(exported)) => match exported {
            None => fail_unchanged(action, session_missing()),
            Some(source) => if fingerprint_of(source.session.items@) != plan.fingerprint@ {
                fail_unchanged(
                    action,
                    rejection(
                        ErrorCode::WorkspaceVersionConflict,
                        "session history changed after rollback preview",
                    ),
                )
            } else if plan.checkpoint is Some && (action is Full || action is RestoreRetry) {
                (
                    AttemptPhase::Version(action, source),
                    AttemptAction::CompareVersion {
                        root: plan.checkpoint->0.workspace_root,
                        version: version_wanted(plan, action),
                    },
                )
            } else {
                cut_step(plan, action, source)
            },
        },
        (AttemptPhase::Version(action, source), AttemptEvent::VersionMatches(matches)) => match matches {
            Ok(true) => cut_step(plan, action, source),
            Ok(false) => fail_unchanged(
                action,
                rejection(
                    ErrorCode::WorkspaceVersionConflict,
                    if action is Full {
                        "workspace changed after rollback preview"
                    } else {
                        "workspace changed after the failed restore attempt"
                    },
                ),
            ),
            Err(error) => fail_unchanged(
                action,
                rejection_about(
                    ErrorCode::InternalError,
                    if action is Full {
                        "failed to validate workspace version: "
                    } else {
                        "failed to validate recovery workspace version: "
                    },
                    error,
                ),
            ),
        },
        (
            AttemptPhase::CompletionWritten { completed, restored_files, source },
            AttemptEvent::Written(failure),
        ) => match failure {
            Some(error) => (
                AttemptPhase::Finished,
                AttemptAction::Fail(
                    rejection_about(
                        ErrorCode::InternalError,
                        "failed to persist workspace restore completion: ",
                        error,
                    ),
                    PlanStatus::CompletionPending { completed, restored_files },
                ),
            ),
            None => history_step(plan, restored_files, source),
        },
        (AttemptPhase::Restored(action, source), AttemptEvent::Restored(restored)) => match restored {
            Ok(restored_files) => history_step(plan, restored_files, source),
            Err(failure) => (
                AttemptPhase::Finished,
                AttemptAction::Fail(failure.why, status_after_failure(action, failure)),
            ),
        },
        (AttemptPhase::HistoryWritten(restored_files, source), AttemptEvent::Written(failure)) => match failure {
            Some(error) => (
                AttemptPhase::Finished,
                AttemptAction::Fail(
                    rejection_about(
                        ErrorCode::InternalError,
                        "failed to persist session rollback: ",
                        error,
                    ),
                    PlanStatus::HistoryPending { restored_files },
                ),
            ),
            None => if has_user_turn(plan, source) {
                (AttemptPhase::StateReplaced(restored_files), AttemptAction::ReplaceState(()))
            } else {
                (
                    AttemptPhase::Finished,
                    AttemptAction::Fail(
                        turn_gone(),
                        PlanStatus::HistoryPending { restored_files },
                    ),
                )
            },
        },
        (AttemptPhase::StateReplaced(restored_files), AttemptEvent::Done) => (
            AttemptPhase::Finished,
            AttemptAction::Committed(
                CommitResult { restored_turns: plan.dropped_turns, restored_files },
            ),
        ),
        _ => (phase, AttemptAction::Ignore),
    }
}

fn fail(action: CommitAction, why: Rejection) -> (r: (AttemptPhase, AttemptAction))
    ensures
        attempt_order(r) == fail_unchanged(action, why),
        r.1 is Fail,
{
    (AttemptPhase::Finished, AttemptAction::Fail(why, status_for_retry(action)))
}

fn refuse_turn_active() -> (r: Rejection)
    ensures
        r == turn_in_the_way(),
{
    reject(ErrorCode::TurnAlreadyRunning, "cannot commit rollback while a turn is active")
}

fn copy_checkpoint(checkpoint: &Checkpoint) -> (r: Checkpoint)
    ensures
        r == *checkpoint,
{
    Checkpoint {
        turn: checkpoint.turn,
        id: checkpoint.id.clone(),
        workspace_root: checkpoint.workspace_root.clone(),
    }
}

fn copy_files(files: &Vec<AffectedFile>) -> (r: Vec<AffectedFile>)
    ensures
        same_files(r@, files@),
{
    let mut copy: Vec<AffectedFile> = Vec::new();
    let mut i: usize = 0;
    while i < files.len()
        invariant
            i <= files@.len(),
            copy@.len() == i,
            forall|j: int|
                0 <= j < i ==> (#[trigger] copy@[j]).path@ == files@[j].path@ && copy@[j].shown
                    == files@[j].shown,
        decreases files@.len() - i,
    {
        copy.push(
            AffectedFile { path: copy_path(&files[i].path), shown: files[i].shown.clone() },
        );
        i = i + 1;
    }
    copy
}

fn copy_record(record: &RestoreRecord) -> (r: RestoreRecord)
    ensures
        r.restore == record.restore,
        r.outcomes@ == record.outcomes@,
{
    let mut outcomes: Vec<FileOutcome> = Vec::new();
    let mut i: usize = 0;
    while i < record.outcomes.len()
        invariant
            i <= record.outcomes@.len(),
            outcomes@ == record.outcomes@.take(i as int),
        decreases record.outcomes@.len() - i,
    {
        let outcome = &record.outcomes[i];
        outcomes.push(FileOutcome { file: outcome.file.clone(), status: outcome.status });
        i = i + 1;
        assert(outcomes@ =~= record.outcomes@.take(i as int));
    }
    assert(record.outcomes@.take(record.outcomes@.len() as int) =~= record.outcomes@);
    RestoreRecord { restore: record.restore, outcomes }
}

/// The session of a plan once it is cut where the plan says, if it can be.
pub fn rolled_back_session(plan: &StoredPlan, session: &CutSource) -> (r: Option<CutSession>)
    ensures
        match r {
            Some(after) => {
                &&& has_cut(session.items@, Some(plan.user_turn_index))
                &&& is_rolled_back(*plan, *session, after)
            },
            None => !has_cut(session.items@, Some(plan.user_turn_index)),
        },
{
    let options = CutOptions {
        index: Some(plan.user_turn_index),
        mode: plan.mode,
        cwd: None,
        title: match &session.title {
            Some(title) => Some(title.clone()),
            None => None,
        },
        created_at: session.created_at,
    };
    let opened: Result<String, String> = Ok(session.default_model.clone());
    match build_runtime_session_from_user_turn_cut(session, &options, &opened) {
        Ok(after) => Some(after),
        Err(_) => None,
    }
}

/// What the rollout says of the rollback that a plan comes to, if the session
/// can be cut.
pub fn rollback_record(plan: &StoredPlan, session: &CutSource) -> (r: Option<RollbackRecord>)
    ensures
        match r {
            Some(record) => {
                &&& has_cut(session.items@, Some(plan.user_turn_index))
                &&& is_rollback_record(*plan, *session, record)
            },
            None => !has_cut(session.items@, Some(plan.user_turn_index)),
        },
{
    match kept_items_for_user_turn_cut(&session.items, Some(plan.user_turn_index), plan.mode) {
        Err(_) => None,
        Ok(kept) => {
            let (turns, items) = retained_ids(&kept);
            let latest = if kept.len() == 0 {
                None
            } else {
                Some(kept[kept.len() - 1].turn)
            };
            let record = RollbackRecord { turns, items, latest };
            assert(records_kept(record, kept@));
            Some(record)
        },
    }
}

fn refuse_turn_gone() -> (r: Rejection)
    ensures
        r == turn_gone(),
{
    reject(ErrorCode::InvalidParams, "selected turn does not exist")
}

fn go_to_state(plan: &StoredPlan, restored_files: u32, source: &CommitSource) -> (r: (
    AttemptPhase,
    AttemptAction,
))
    ensures
        attempt_order(r) == if has_user_turn(*plan, *source) {
            (AttemptPhase::StateReplaced(restored_files), AttemptOrder::ReplaceState(()))
        } else {
            (
                AttemptPhase::Finished,
                AttemptOrder::Fail(turn_gone(), PlanStatus::HistoryPending { restored_files }),
            )
        },
        attempts_with(*plan, Some(*source), r),
{
    match rolled_back_session(plan, &source.session) {
        Some(after) => (
            AttemptPhase::StateReplaced(restored_files),
            AttemptAction::ReplaceState(after),
        ),
        None => (
            AttemptPhase::Finished,
            AttemptAction::Fail(
                refuse_turn_gone(),
                PlanStatus::HistoryPending { restored_files },
            ),
        ),
    }
}

fn go_to_history(plan: &StoredPlan, restored_files: u32, source: CommitSource) -> (r: (
    AttemptPhase,
    AttemptAction,
))
    ensures
        attempt_order(r) == history_step(*plan, restored_files, source),
        attempts_with(*plan, Some(source), r),
{
    if !source.durable {
        return go_to_state(plan, restored_files, &source);
    }
    match rollback_record(plan, &source.session) {
        Some(record) => (
            AttemptPhase::HistoryWritten(restored_files, source),
            AttemptAction::AppendRollback(record),
        ),
        None => (
            AttemptPhase::Finished,
            AttemptAction::Fail(
                refuse_turn_gone(),
                PlanStatus::HistoryPending { restored_files },
            ),
        ),
    }
}

fn go_to_files(plan: &StoredPlan, action: CommitAction, source: CommitSource) -> (r: (
    AttemptPhase,
    AttemptAction,
))
    ensures
        attempt_order(r) == files_step(*plan, action, source),
        attempts_with(*plan, Some(source), r),
{
    match action {
        CommitAction::HistoryPending { restored_files } => go_to_history(
            plan,
            restored_files,
            source,
        ),
        CommitAction::CompletionPending { completed, restored_files } => {
            let written = copy_record(&completed);
            (
                AttemptPhase::CompletionWritten { completed, restored_files, source },
                AttemptAction::WriteCompletion(written),
            )
        },
        other => match &plan.checkpoint {
            Some(checkpoint) => (
                AttemptPhase::Restored(other, source),
                AttemptAction::RestoreFiles {
                    checkpoint: copy_checkpoint(checkpoint),
                    files: copy_files(&plan.affected_files),
                },
            ),
            None => go_to_history(plan, 0, source),
        },
    }
}

fn go_to_cut(plan: &StoredPlan, action: CommitAction, source: CommitSource) -> (r: (
    AttemptPhase,
    AttemptAction,
))
    ensures
        attempt_order(r) == cut_step(*plan, action, source),
        attempts_with(*plan, Some(source), r),
{
    let turns = user_turn_ids(&source.session.items);
    if turns.len() > plan.user_turn_index as usize {
        go_to_files(plan, action, source)
    } else {
        fail(action, refuse_turn_gone())
    }
}

fn after_export(plan: &StoredPlan, action: CommitAction, exported: Option<CommitSource>) -> (r: (
    AttemptPhase,
    AttemptAction,
))
    ensures
        is_attempt_step(
            *plan,
            AttemptPhase::Export(action),
            AttemptEvent::Exported(exported),
            r,
        ),
{
    match exported {
        None => fail(action, reject_session_missing()),
        Some(source) => {
            let print = history_fingerprint(&source.session.items);
            if !same_fingerprint(&print, &plan.fingerprint) {
                return fail(
                    action,
                    reject(
                        ErrorCode::WorkspaceVersionConflict,
                        "session history changed after rollback preview",
                    ),
                );
            }
            let version = match &action {
                CommitAction::Full => Some(plan.workspace_version.clone()),
                CommitAction::RestoreRetry { version } => Some(version.clone()),
                _ => None,
            };
            match (&plan.checkpoint, version) {
                (Some(checkpoint), Some(version)) => (
                    AttemptPhase::Version(action, source),
                    AttemptAction::CompareVersion {
                        root: checkpoint.workspace_root.clone(),
                        version,
                    },
                ),
                _ => go_to_cut(plan, action, source),
            }
        },
    }
}

fn after_version(
    plan: &StoredPlan,
    action: CommitAction,
    source: CommitSource,
    matches: Result<bool, String>,
) -> (r: (AttemptPhase, AttemptAction))
    ensures
        is_attempt_step(
            *plan,
            AttemptPhase::Version(action, source),
            AttemptEvent::VersionMatches(matches),
            r,
        ),
{
    let full = match &action {
        CommitAction::Full => true,
        _ => false,
    };
    match matches {
        Ok(same) => {
            if same {
                go_to_cut(plan, action, source)
            } else if full {
                fail(
                    action,
                    reject(
                        ErrorCode::WorkspaceVersionConflict,
                        "workspace changed after rollback preview",
                    ),
                )
            } else {
                fail(
                    action,
                    reject(
                        ErrorCode::WorkspaceVersionConflict,
                        "workspace changed after the failed restore attempt",
                    ),
                )
            }
        },
        Err(error) => {
            if full {
                fail(
                    action,
                    reject_about(
                        ErrorCode::InternalError,
                        "failed to validate workspace version: ",
                        error,
                    ),
                )
            } else {
                fail(
                    action,
                    reject_about(
                        ErrorCode::InternalError,
                        "failed to validate recovery workspace version: ",
                        error,
                    ),
                )
            }
        },
    }
}

fn after_restore(
    plan: &StoredPlan,
    action: CommitAction,
    source: CommitSource,
    restored: Result<u32, RestoreFailure>,
) -> (r: (AttemptPhase, AttemptAction))
    ensures
        is_attempt_step(
            *plan,
            AttemptPhase::Restored(action, source),
            AttemptEvent::Restored(restored),
            r,
        ),
{
    match restored {
        Ok(restored_files) => go_to_history(plan, restored_files, source),
        Err(failure) => {
            let status = match failure.completion {
                Some((completed, restored_files)) => PlanStatus::CompletionPending {
                    completed,
                    restored_files,
                },
                None => match failure.version {
                    Some(version) => PlanStatus::RestoreRetry { version },
                    None => status_for_retry(action),
                },
            };
            (AttemptPhase::Finished, AttemptAction::Fail(failure.why, status))
        },
    }
}

/// Takes an attempt one step further.
pub fn advance_attempt(plan: &StoredPlan, phase: AttemptPhase, event: AttemptEvent) -> (r: (
    AttemptPhase,
    AttemptAction,
))
    ensures
        is_attempt_step(*plan, phase, event, r),
{
    match (phase, event) {
        (AttemptPhase::ActiveTurn(action), AttemptEvent::TurnActive(active)) => {
            if active {
                fail(action, refuse_turn_active())
            } else {
                (AttemptPhase::Session(action), AttemptAction::FindSession)
            }
        },
        (AttemptPhase::Session(action), AttemptEvent::SessionFound(found)) => {
            if found {
                (AttemptPhase::Locked(action), AttemptAction::LockState)
            } else {
                fail(action, reject_session_missing())
            }
        },
        (AttemptPhase::Locked(action), AttemptEvent::Done) => (
            AttemptPhase::StillActive(action),
            AttemptAction::ReadActiveTurn,
        ),
        (AttemptPhase::StillActive(action), AttemptEvent::TurnActive(active)) => {
            if active {
                fail(action, refuse_turn_active())
            } else {
                (AttemptPhase::Export(action), AttemptAction::ExportSession)
            }
        },
        (AttemptPhase::Export(action), AttemptEvent::Exported(exported)) => after_export(
            plan,
            action,
            exported,
        ),
        (AttemptPhase::Version(action, source), AttemptEvent::VersionMatches(matches)) => after_version(
            plan,
            action,
            source,
            matches,
        ),
        (
            AttemptPhase::CompletionWritten { completed, restored_files, source },
            AttemptEvent::Written(failure),
        ) => match failure {
            Some(error) => (
                AttemptPhase::Finished,
                AttemptAction::Fail(
                    reject_about(
                        ErrorCode::InternalError,
                        "failed to persist workspace restore completion: ",
                        error,
                    ),
                    PlanStatus::CompletionPending { completed, restored_files },
                ),
            ),
            None => go_to_history(plan, restored_files, source),
        },
        (AttemptPhase::Restored(action, source), AttemptEvent::Restored(restored)) => after_restore(
            plan,
            action,
            source,
            restored,
        ),
        (AttemptPhase::HistoryWritten(restored_files, source), AttemptEvent::Written(failure)) => match failure {
            Some(error) => (
                AttemptPhase::Finished,
                AttemptAction::Fail(
                    reject_about(
                        ErrorCode::InternalError,
                        "failed to persist session rollback: ",
                        error,
                    ),
                    PlanStatus::HistoryPending { restored_files },
                ),
            ),
            None => go_to_state(plan, restored_files, &source),
        },
        (AttemptPhase::StateReplaced(restored_files), AttemptEvent::Done) => (
            AttemptPhase::Finished,
            AttemptAction::Committed(
                CommitResult { restored_turns: plan.dropped_turns, restored_files },
            ),
        ),
        (phase, _) => (phase, AttemptAction::Ignore),
    }
}

/// Where an attempt at `action` stands after `events`.
pub open spec fn attempt_after(
    plan: StoredPlan,
    action: CommitAction,
    events: Seq<AttemptEvent>,
) -> AttemptPhase
    decreases events.len(),
{
    if events.len() == 0 {
        AttemptPhase::ActiveTurn(action)
    } else {
        attempt_step(plan, attempt_after(plan, action, events.drop_last()), events.last()).0
    }
}

/// Whether the files are seen to, with `restored` files put back: by this
/// attempt or by an earlier one, or because the plan touches no file.
pub open spec fn files_settled(
    plan: StoredPlan,
    action: CommitAction,
    events: Seq<AttemptEvent>,
    restored: u32,
) -> bool {
    match action {
        CommitAction::HistoryPending { restored_files } => restored == restored_files,
        CommitAction::CompletionPending { restored_files, .. } => {
            &&& restored == restored_files
            &&& events.contains(AttemptEvent::Written(None))
        },
        _ => if plan.checkpoint is Some {
            events.contains(AttemptEvent::Restored(Ok(restored)))
        } else {
            restored == 0
        },
    }
}

/// What holds of an attempt at `action` that stands in `phase`.
pub open spec fn attempt_is_sound(
    plan: StoredPlan,
    action: CommitAction,
    events: Seq<AttemptEvent>,
    phase: AttemptPhase,
) -> bool {
    match phase {
        AttemptPhase::ActiveTurn(own)
        | AttemptPhase::Session(own)
        | AttemptPhase::Locked(own)
        | AttemptPhase::StillActive(own)
        | AttemptPhase::Export(own)
        | AttemptPhase::Version(own, _) => own == action,
        AttemptPhase::CompletionWritten { completed, restored_files, .. } => action
            == (CommitAction::CompletionPending { completed, restored_files }),
        AttemptPhase::Restored(own, _) => {
            &&& own == action
            &&& plan.checkpoint is Some
            &&& action is Full || action is RestoreRetry
        },
        AttemptPhase::HistoryWritten(restored, _) | AttemptPhase::StateReplaced(
            restored,
        ) => files_settled(plan, action, events, restored),
        AttemptPhase::Finished => true,
    }
}

proof fn lemma_settled_stays_settled(
    plan: StoredPlan,
    action: CommitAction,
    events: Seq<AttemptEvent>,
    event: AttemptEvent,
    restored: u32,
)
    requires
        files_settled(plan, action, events, restored),
    ensures
        files_settled(plan, action, events.push(event), restored),
{
    assert forall|e: AttemptEvent| events.contains(e) implies events.push(event).contains(e) by {
        let i = choose|i: int| 0 <= i < events.len() && events[i] == e;
        assert(events.push(event)[i] == e);
    }
}

proof fn lemma_attempt_step_is_sound(
    plan: StoredPlan,
    action: CommitAction,
    events: Seq<AttemptEvent>,
    phase: AttemptPhase,
    event: AttemptEvent,
)
    requires
        attempt_is_sound(plan, action, events, phase),
    ensures
        attempt_is_sound(
            plan,
            action,
            events.push(event),
            attempt_step(plan, phase, event).0,
        ),
{
    let seen = events.push(event);
    assert(seen.last() == event);
    assert(seen[seen.len() - 1] == event);
    assert(seen.contains(event));
    match phase {
        AttemptPhase::HistoryWritten(restored, _) | AttemptPhase::StateReplaced(restored) => {
            lemma_settled_stays_settled(plan, action, events, event, restored);
        },
        _ => {},
    }
}

proof fn lemma_attempt_is_sound(
    plan: StoredPlan,
    action: CommitAction,
    events: Seq<AttemptEvent>,
)
    ensures
        attempt_is_sound(plan, action, events, attempt_after(plan, action, events)),
    decreases events.len(),
{
    if events.len() > 0 {
        lemma_attempt_is_sound(plan, action, events.drop_last());
        lemma_attempt_step_is_sound(
            plan,
            action,
            events.drop_last(),
            attempt_after(plan, action, events.drop_last()),
            events.last(),
        );
        assert(events.drop_last().push(events.last()) =~= events);
    }
}

/// The history is cut, on record and in memory, only after the files are seen
/// to, and the answer counts the files that were put back.
pub proof fn law_files_come_before_history(
    plan: StoredPlan,
    action: CommitAction,
    events: Seq<AttemptEvent>,
    event: AttemptEvent,
)
    ensures
        ({
            let (phase, next) = attempt_step(plan, attempt_after(plan, action, events), event);
            match next {
                AttemptAction::AppendRollback(_) | AttemptAction::ReplaceState(_) => exists|restored: u32|
                    #[trigger] files_settled(plan, action, events.push(event), restored),
                AttemptAction::Committed(result) => {
                    &&& files_settled(plan, action, events.push(event), result.restored_files)
                    &&& result.restored_turns == plan.dropped_turns
                },
                _ => true,
            }
        }),
{
    lemma_attempt_is_sound(plan, action, events);
    let phase = attempt_after(plan, action, events);
    lemma_attempt_step_is_sound(plan, action, events, phase, event);
    match phase {
        AttemptPhase::StateReplaced(restored) => {
            lemma_settled_stays_settled(plan, action, events, event, restored);
        },
        _ => {},
    }
    let (after, next) = attempt_step(plan, phase, event);
    match after {
        AttemptPhase::HistoryWritten(restored, _) | AttemptPhase::StateReplaced(restored) => {
            assert(files_settled(plan, action, events.push(event), restored));
        },
        _ => {},
    }
}

/// Whether an attempt has not changed anything yet.
pub open spec fn is_checking(phase: AttemptPhase) -> bool {
    match phase {
        AttemptPhase::ActiveTurn(_)
        | AttemptPhase::Session(_)
        | AttemptPhase::Locked(_)
        | AttemptPhase::StillActive(_)
        | AttemptPhase::Export(_)
        | AttemptPhase::Version(_, _) => true,
        _ => false,
    }
}

/// An attempt that is refused before it changed anything leaves the plan as it
/// was before the attempt, and one that fails after the files were put back
/// never starts over: the plan stays committed to.
pub proof fn law_a_failed_attempt_can_be_repeated(
    plan: StoredPlan,
    action: CommitAction,
    events: Seq<AttemptEvent>,
    event: AttemptEvent,
)
    ensures
        ({
            let phase = attempt_after(plan, action, events);
            match attempt_step(plan, phase, event).1 {
                AttemptAction::Fail(_, status) => {
                    &&& is_checking(phase) ==> status == retry_status(action)
                    &&& phase is CompletionWritten || phase is HistoryWritten ==> is_committed_to(
                        status,
                    )
                    &&& phase is Restored && (action is RestoreRetry || event->Restored_0->Err_0.version is Some
                        || event->Restored_0->Err_0.completion is Some) ==> is_committed_to(status)
                },
                _ => true,
            }
        }),
{
    lemma_attempt_is_sound(plan, action, events);
}

/// A committed rollback keeps and records exactly the items up to the cut that
/// the plan names: what the session becomes and what the rollout says agree.
pub proof fn law_rollbacks_keep_and_record_the_cut(
    plan: StoredPlan,
    session: CutSource,
    record: RollbackRecord,
    after: CutSession,
    kept: Seq<SessionItem>,
)
    requires
        is_rollback_record(plan, session, record),
        is_rolled_back(plan, session, after),
        cut_keeps(session.items@, Some(plan.user_turn_index), plan.mode, kept),
    ensures
        after.items@ == kept,
        records_kept(record, after.items@),
{
    let items = session.items@;
    let turn = user_turns(items)[plan.user_turn_index as int];
    let recorded = choose|other: Seq<SessionItem>|
        {
            &&& #[trigger] cut_keeps(items, Some(plan.user_turn_index), plan.mode, other)
            &&& records_kept(record, other)
        };
    let options = plan_options(plan, session);
    let made = choose|other: Seq<SessionItem>|
        {
            &&& #[trigger] cut_keeps(items, options.index, options.mode, other)
            &&& is_cut_session(session, options, session.default_model, other, after)
        };
    let end = choose|end: int| #[trigger]
        cut_falls_at(items, turn, plan.mode, end) && 0 <= end <= items.len() && kept == items.take(
            end,
        );
    let a = choose|end: int| #[trigger]
        cut_falls_at(items, turn, plan.mode, end) && 0 <= end <= items.len() && recorded
            == items.take(end);
    let b = choose|end: int| #[trigger]
        cut_falls_at(items, turn, plan.mode, end) && 0 <= end <= items.len() && made == items.take(
            end,
        );
    law_a_cut_falls_once(items, turn, plan.mode, end, a);
    law_a_cut_falls_once(items, turn, plan.mode, end, b);
}

/// What a client gets that commits a plan: its own plan, while it has not
/// expired and for the version that it was made for, is carried out whole where
/// it is ready, taken up where it was left, waited for while it runs, and
/// answered again where it was carried out.
pub proof fn law_commits_start_where_the_plan_stands(
    plan: StoredPlan,
    connection: u64,
    now: i64,
    expected: Seq<char>,
    r: CommitStart,
)
    requires
        r == commit_start(Some(plan), connection, now, expected),
    ensures
        ({
            let going_on = plan.status is InFlight || plan.status is RestoreRetry || plan.status
                is CompletionPending || plan.status is HistoryPending;
            let own = plan.connection == connection;
            let live = now <= plan.expires_at || going_on;
            let fits = plan.workspace_version@ == expected;
            &&& !own ==> (r matches CommitStart::Reject(why) && why.code is RestorePlanNotFound)
            &&& own && !live ==> (r matches CommitStart::Reject(why) && why.code
                is RestorePlanExpired)
            &&& own && live && !fits ==> (r matches CommitStart::Reject(why) && why.code
                is WorkspaceVersionConflict)
            &&& own && live && fits ==> match plan.status {
                PlanStatus::Ready => r == CommitStart::Attempt(CommitAction::Full),
                PlanStatus::InFlight => r is Wait,
                PlanStatus::Completed(result) => r == CommitStart::Replay(result),
                PlanStatus::RestoreRetry { version } => r == CommitStart::Attempt(
                    CommitAction::RestoreRetry { version },
                ),
                PlanStatus::CompletionPending { completed, restored_files } => r
                    == CommitStart::Attempt(
                    CommitAction::CompletionPending { completed, restored_files },
                ),
                PlanStatus::HistoryPending { restored_files } => r == CommitStart::Attempt(
                    CommitAction::HistoryPending { restored_files },
                ),
            }
        }),
        commit_start(None, connection, now, expected) matches CommitStart::Reject(why) && why.code
            is RestorePlanNotFound,
{
}

/// A plan is remembered for ten minutes after it has expired, and one whose
/// commit is under way for as long as that takes.
pub proof fn law_plans_are_forgotten_in_time(plan: StoredPlan, now: i64)
    ensures
        plan.status is Ready || plan.status is Completed ==> (is_kept(plan, now) <==> now
            < plan.expires_at + 600_000_000),
        plan.status is InFlight || plan.status is RestoreRetry || plan.status is CompletionPending
            || plan.status is HistoryPending ==> is_kept(plan, now),
        RESTORE_PLAN_TTL == 600_000_000,
        RESTORE_PLAN_STORE_LIMIT == 1024,
{
}

/// A commit that ended is remembered as what it is, and what a failure leaves
/// to do is taken over where the owner of the plan is gone.
pub proof fn law_ended_commits_are_remembered(result: CommitResult, status: PlanStatus)
    ensures
        status_after(AttemptEnd::Committed(result)) == PlanStatus::Completed(result),
        status_after(AttemptEnd::Failed(status)) == status,
        recovery_after(AttemptEnd::Committed(result)) is None,
        status is Ready || status is InFlight || status is Completed ==> recovery_after(
            AttemptEnd::Failed(status),
        ) is None,
        status is RestoreRetry || status is CompletionPending || status is HistoryPending
            ==> recovery_after(AttemptEnd::Failed(status)) is Some,
{
}

/// When a connection is gone, the plans of others stay, its own running ones
/// stay without an owner, and the rest of its own are dropped; of those, the
/// ones that were left in the middle are handed back to be carried to their end.
pub proof fn law_gone_connections_leave_nothing_undone(
    plans: Seq<StoredPlan>,
    plan: StoredPlan,
    connection: u64,
)
    ensures
        plans_left(Seq::empty(), connection) == Seq::<StoredPlan>::empty(),
        plans_to_recover(Seq::empty(), connection) == Seq::<StoredPlan>::empty(),
        plan.connection != connection ==> plans_left(plans.push(plan), connection) == plans_left(
            plans,
            connection,
        ).push(plan) && plans_to_recover(plans.push(plan), connection) == plans_to_recover(
            plans,
            connection,
        ),
        plan.connection == connection && plan.status is InFlight ==> plans_left(
            plans.push(plan),
            connection,
        ) == plans_left(plans, connection).push(StoredPlan { owner_disconnected: true, ..plan })
            && plans_to_recover(plans.push(plan), connection) == plans_to_recover(
            plans,
            connection,
        ),
        plan.connection == connection && !(plan.status is InFlight) ==> plans_left(
            plans.push(plan),
            connection,
        ) == plans_left(plans, connection),
        plan.connection == connection && (plan.status is RestoreRetry || plan.status
            is CompletionPending || plan.status is HistoryPending) ==> plans_to_recover(
            plans.push(plan),
            connection,
        ) == plans_to_recover(plans, connection).push(plan),
        plan.connection == connection && (plan.status is Ready || plan.status is Completed)
            ==> plans_to_recover(plans.push(plan), connection) == plans_to_recover(
            plans,
            connection,
        ),
{
    assert(plans.push(plan).drop_last() =~= plans);
}

/// A commit of a plan that restores files: no turn may run, before and after
/// the session is locked, the history and the files must be as they were, and
/// then the files are restored, the rollback is written down where the session
/// is kept, and the session is replaced. The client is told how much was undone.
pub proof fn law_plans_are_carried_out(
    plan: StoredPlan,
    checkpoint: Checkpoint,
    source: CommitSource,
    restored: u32,
)
    requires
        plan.checkpoint == Some(checkpoint),
        fingerprint_of(source.session.items@) == plan.fingerprint@,
        has_cut(source.session.items@, Some(plan.user_turn_index)),
    ensures
        ({
            let a = attempt_step(
                plan,
                AttemptPhase::ActiveTurn(CommitAction::Full),
                AttemptEvent::TurnActive(false),
            );
            let b = attempt_step(plan, a.0, AttemptEvent::SessionFound(true));
            let c = attempt_step(plan, b.0, AttemptEvent::Done);
            let d = attempt_step(plan, c.0, AttemptEvent::TurnActive(false));
            let e = attempt_step(plan, d.0, AttemptEvent::Exported(Some(source)));
            let f = attempt_step(plan, e.0, AttemptEvent::VersionMatches(Ok(true)));
            let g = attempt_step(plan, f.0, AttemptEvent::Restored(Ok(restored)));
            let h = if source.durable {
                attempt_step(plan, g.0, AttemptEvent::Written(None))
            } else {
                g
            };
            let i = attempt_step(plan, h.0, AttemptEvent::Done);
            &&& a.1 is FindSession
            &&& b.1 is LockState
            &&& c.1 is ReadActiveTurn
            &&& d.1 is ExportSession
            &&& e.1 == AttemptOrder::CompareVersion {
                root: checkpoint.workspace_root,
                version: plan.workspace_version,
            }
            &&& f.1 == AttemptOrder::RestoreFiles { checkpoint, files: () }
            &&& source.durable ==> g.1 is AppendRollback
            &&& h.1 is ReplaceState
            &&& i.1 == AttemptOrder::Committed(
                CommitResult { restored_turns: plan.dropped_turns, restored_files: restored },
            )
        }),
{
}

/// A plan without files only cuts the history, and an attempt that was left
/// goes on where it stopped: files that were restored are not restored again.
pub proof fn law_attempts_go_on_where_they_stopped(
    plan: StoredPlan,
    source: CommitSource,
    completed: RestoreRecord,
    restored: u32,
    version: String,
)
    requires
        fingerprint_of(source.session.items@) == plan.fingerprint@,
        has_cut(source.session.items@, Some(plan.user_turn_index)),
    ensures
        ({
            let full = attempt_step(
                plan,
                AttemptPhase::Export(CommitAction::Full),
                AttemptEvent::Exported(Some(source)),
            );
            let history = attempt_step(
                plan,
                AttemptPhase::Export(CommitAction::HistoryPending { restored_files: restored }),
                AttemptEvent::Exported(Some(source)),
            );
            let completion = attempt_step(
                plan,
                AttemptPhase::Export(
                    CommitAction::CompletionPending { completed, restored_files: restored },
                ),
                AttemptEvent::Exported(Some(source)),
            );
            let retry = attempt_step(
                plan,
                AttemptPhase::Export(CommitAction::RestoreRetry { version }),
                AttemptEvent::Exported(Some(source)),
            );
            &&& plan.checkpoint is None ==> (source.durable ==> full.1 is AppendRollback) && (
            !source.durable ==> full.1 is ReplaceState)
            &&& source.durable ==> history.1 is AppendRollback && history.0
                == AttemptPhase::HistoryWritten(restored, source)
            &&& !source.durable ==> history.1 is ReplaceState && history.0
                == AttemptPhase::StateReplaced(restored)
            &&& completion.1 is WriteCompletion
            &&& attempt_step(plan, completion.0, AttemptEvent::Written(None)) == history
            &&& plan.checkpoint is Some ==> retry.1 == AttemptOrder::CompareVersion {
                root: plan.checkpoint->0.workspace_root,
                version,
            }
        }),
{
}

/// What stops an attempt is told to the client, and what is left to do is
/// remembered: nothing is lost before files are touched, and what was done to
/// them is not done again.
pub proof fn law_stopped_attempts_say_why(
    plan: StoredPlan,
    action: CommitAction,
    source: CommitSource,
    completed: RestoreRecord,
    restored: u32,
    failure: RestoreFailure,
    error: String,
)
    ensures
        attempt_step(plan, AttemptPhase::ActiveTurn(action), AttemptEvent::TurnActive(true)).1
            matches AttemptAction::Fail(why, status) && why.code is TurnAlreadyRunning && status
            == retry_status(action),
        attempt_step(plan, AttemptPhase::Session(action), AttemptEvent::SessionFound(false)).1
            matches AttemptAction::Fail(why, status) && why.code is SessionNotFound && status
            == retry_status(action),
        attempt_step(plan, AttemptPhase::StillActive(action), AttemptEvent::TurnActive(true)).1
            matches AttemptAction::Fail(why, status) && why.code is TurnAlreadyRunning && status
            == retry_status(action),
        attempt_step(plan, AttemptPhase::Export(action), AttemptEvent::Exported(None)).1 matches
            AttemptAction::Fail(why, status) && why.code is SessionNotFound,
        fingerprint_of(source.session.items@) != plan.fingerprint@ ==> (attempt_step(
            plan,
            AttemptPhase::Export(action),
            AttemptEvent::Exported(Some(source)),
        ).1 matches AttemptAction::Fail(why, status) && why.code is WorkspaceVersionConflict
            && status == retry_status(action)),
        attempt_step(
            plan,
            AttemptPhase::Version(action, source),
            AttemptEvent::VersionMatches(Ok(false)),
        ).1 matches AttemptAction::Fail(why, status) && why.code is WorkspaceVersionConflict
            && status == retry_status(action),
        attempt_step(
            plan,
            AttemptPhase::Version(action, source),
            AttemptEvent::VersionMatches(Err(error)),
        ).1 matches AttemptAction::Fail(why, status) && why.code is InternalError && why.detail
            == Some(error) && status == retry_status(action),
        !has_cut(source.session.items@, Some(plan.user_turn_index)) ==> (attempt_step(
            plan,
            AttemptPhase::Version(action, source),
            AttemptEvent::VersionMatches(Ok(true)),
        ).1 matches AttemptAction::Fail(why, status) && why.code is InvalidParams),
        attempt_step(
            plan,
            AttemptPhase::CompletionWritten { completed, restored_files: restored, source },
            AttemptEvent::Written(Some(error)),
        ).1 matches AttemptAction::Fail(why, status) && why.code is InternalError && why.detail
            == Some(error) && status == (PlanStatus::CompletionPending {
            completed,
            restored_files: restored,
        }),
        attempt_step(
            plan,
            AttemptPhase::HistoryWritten(restored, source),
            AttemptEvent::Written(Some(error)),
        ).1 matches AttemptAction::Fail(why, status) && why.code is InternalError && why.detail
            == Some(error) && status == (PlanStatus::HistoryPending { restored_files: restored }),
        attempt_step(
            plan,
            AttemptPhase::Restored(action, source),
            AttemptEvent::Restored(Err(failure)),
        ).1 matches AttemptAction::Fail(why, status) && why == failure.why && (
        failure.completion matches Some((done, count)) ==> status
            == PlanStatus::CompletionPending { completed: done, restored_files: count }) && (
        failure.completion is None && failure.version is Some ==> status
            == PlanStatus::RestoreRetry { version: failure.version->0 }) && (failure.completion
            is None && failure.version is None ==> status == retry_status(action)),
{
}

/// The files that are restored are those of the plan, from its checkpoint.
pub proof fn law_restored_files_are_the_planned_ones(
    plan: StoredPlan,
    phase: AttemptPhase,
    event: AttemptEvent,
    step: (AttemptPhase, AttemptAction),
)
    requires
        is_attempt_step(plan, phase, event, step),
        step.1 is RestoreFiles,
    ensures
        plan.checkpoint == Some(step.1->checkpoint),
        step.1->files@.len() == plan.affected_files@.len(),
        forall|i: int|
            0 <= i < plan.affected_files@.len() ==> {
                &&& (#[trigger] step.1->files@[i]).path@ == plan.affected_files@[i].path@
                &&& step.1->files@[i].shown == plan.affected_files@[i].shown
            },
{
}

impl PlanStore {
    /// A plan is found under its name, and nothing is where there is none.
    pub proof fn law_plans_are_found_by_name(self, id: u128, i: int)
        requires
            self.well_formed(),
        ensures
            0 <= i < self.plans().len() && self.plans()[i].id == id ==> self.lookup(id) == Some(
                self.plans()[i],
            ),
            (forall|k: int| 0 <= k < self.plans().len() ==> (#[trigger] self.plans()[k]).id != id)
                ==> self.lookup(id) is None,
    {
        if 0 <= i < self.plans().len() && self.plans()[i].id == id {
            assert(self.holds(id, i));
            let k = choose|k: int| self.holds(id, k);
            assert(self.holds(id, k));
            if k < i {
                assert(self.plans()[k].id != self.plans()[i].id);
            }
            if i < k {
                assert(self.plans()[i].id != self.plans()[k].id);
            }
        }
    }
}

impl PlanStore {
    /// A plan whose commit starts is running, and nothing else of it changes; a
    /// commit that does not start changes nothing.
    pub proof fn law_started_commits_are_running(
        before: PlanStore,
        id: u128,
        start: CommitStart,
        after: PlanStore,
    )
        requires
            before.well_formed(),
            after.well_formed(),
            is_begun(before, id, start, after),
        ensures
            start is Attempt ==> before.lookup(id) is Some && after.lookup(id) == Some(
                StoredPlan { status: PlanStatus::InFlight, ..before.lookup(id)->0 },
            ),
            !(start is Attempt) ==> after.plans() == before.plans(),
            after.plans().len() == before.plans().len(),
    {
        if start is Attempt {
            let i = choose|i: int|
                #[trigger] before.holds(id, i) && after.plans() == before.plans().update(
                    i,
                    StoredPlan { status: PlanStatus::InFlight, ..before.plans()[i] },
                );
            before.law_plans_are_found_by_name(id, i);
            after.law_plans_are_found_by_name(id, i);
        }
    }

    /// A plan whose attempt has ended has the status that the attempt left, and
    /// nothing else of it changes; without an owner it is forgotten, and what is
    /// left to do is handed back.
    pub proof fn law_ended_attempts_leave_their_status(
        before: PlanStore,
        id: u128,
        end: AttemptEnd,
        after: PlanStore,
    )
        requires
            before.well_formed(),
            after.well_formed(),
            is_settled(before, id, status_after(end), after),
        ensures
            before.lookup(id) is None ==> after.plans() == before.plans() && recovery_left(
                before.lookup(id),
                end,
            ) is None,
            before.lookup(id) matches Some(plan) ==> {
                &&& !plan.owner_disconnected ==> recovery_left(before.lookup(id), end) is None && (
                after.lookup(id) matches Some(left) && (end matches AttemptEnd::Committed(result)
                    ==> left.status == PlanStatus::Completed(result)) && (
                end matches AttemptEnd::Failed(status) ==> left.status == status)
                    && left.workspace_version == plan.workspace_version && left.fingerprint
                    == plan.fingerprint && left.expires_at == plan.expires_at)
                &&& plan.owner_disconnected ==> after.lookup(id) is None && recovery_left(
                    before.lookup(id),
                    end,
                ) == recovery_after(end)
            },
    {
        if before.lookup(id) is Some {
            let plan = before.lookup(id)->0;
            let status = status_after(end);
            let i = choose|i: int|
                {
                    &&& #[trigger] before.holds(id, i)
                    &&& if plan.owner_disconnected {
                        after.plans() == before.plans().remove(i)
                    } else {
                        after.plans() == before.plans().update(i, StoredPlan { status, ..plan })
                    }
                };
            before.law_plans_are_found_by_name(id, i);
            if plan.owner_disconnected {
                assert forall|k: int| 0 <= k < after.plans().len() implies (
                #[trigger] after.plans()[k]).id != id by {
                    if k < i {
                        assert(after.plans()[k] == before.plans()[k]);
                        assert(before.plans()[k].id != before.plans()[i].id);
                    } else {
                        assert(after.plans()[k] == before.plans()[k + 1]);
                        assert(before.plans()[i].id != before.plans()[k + 1].id);
                    }
                }
                after.law_plans_are_found_by_name(id, 0);
            } else {
                after.law_plans_are_found_by_name(id, i);
            }
        }
    }
}

/// A rollback cuts the session at the planned turn in the planned way, and
/// leaves its directory, its title and its age as they are.
pub proof fn law_rollbacks_cut_where_planned(plan: StoredPlan, session: CutSource)
    ensures
        plan_options(plan, session).index == Some(plan.user_turn_index),
        plan_options(plan, session).mode == plan.mode,
        plan_options(plan, session).cwd is None,
        plan_options(plan, session).title == session.title,
        plan_options(plan, session).created_at == session.created_at,
{
}

} // verus!
