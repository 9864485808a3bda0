//! Previewing a rollback: what it would drop and which files it would touch.

use crate::message_edit::SessionItem;
use crate::protocol::{
    reject, reject_about, reject_session_missing, rejection, rejection_about, session_missing,
    ErrorCode, ItemId, Rejection, SessionId, TurnId,
};
use crate::rollback::{
    history_only_workspace_version, AffectedFile, Checkpoint, PlanStatus, StoredPlan,
};
use crate::text::text_equal;
use crate::turn_cut::{
    cut_falls_at, dropped_turn_ids, dropped_turns, fingerprint_of, history_fingerprint,
    kept_items_for_user_turn_cut, user_turns, RollbackMode,
};
use vstd::prelude::*;

verus! {

/// A recorded snapshot of the workspace.
#[derive(Debug)]
pub struct CheckpointRecord {
    pub turn: TurnId,
    pub id: String,
    pub backend: Option<String>,
    pub workspace_root: Option<String>,
}

impl CheckpointRecord {
    /// A copy of the record.
    pub fn copy(&self) -> (r: CheckpointRecord)
        ensures
            r == *self,
    {
        let backend = match &self.backend {
            Some(backend) => Some(backend.clone()),
            None => None,
        };
        let workspace_root = match &self.workspace_root {
            Some(root) => Some(root.clone()),
            None => None,
        };
        CheckpointRecord { turn: self.turn, id: self.id.clone(), backend, workspace_root }
    }
}

/// Whether files can be put back from the snapshot that was taken for `turn`.
pub open spec fn is_usable(record: CheckpointRecord, turn: TurnId) -> bool {
    &&& record.turn == turn
    &&& record.backend is Some && record.backend->0@ == "git_ghost_commit"@
    &&& record.workspace_root is Some
}

/// The latest usable snapshot of the first turn that is dropped.
pub open spec fn chosen_checkpoint(
    records: Seq<CheckpointRecord>,
    dropped: Seq<TurnId>,
) -> Option<CheckpointRecord>
    decreases records.len(),
{
    if dropped.len() == 0 || records.len() == 0 {
        None
    } else if is_usable(records.last(), dropped[0]) {
        Some(records.last())
    } else {
        chosen_checkpoint(records.drop_last(), dropped)
    }
}

/// The latest usable snapshot of the first turn that is dropped.
pub fn choose_checkpoint(records: &Vec<CheckpointRecord>, dropped: &Vec<TurnId>) -> (r: Option<
    CheckpointRecord,
>)
    ensures
        r == chosen_checkpoint(records@, dropped@),
{
    if dropped.len() == 0 {
        return None;
    }
    let turn = dropped[0];
    let mut i: usize = records.len();
    assert(records@.take(i as int) =~= records@);
    while i > 0
        invariant
            i <= records@.len(),
            dropped@.len() > 0,
            turn == dropped@[0],
            chosen_checkpoint(records@, dropped@) == chosen_checkpoint(
                records@.take(i as int),
                dropped@,
            ),
        decreases i,
    {
        i = i - 1;
        let record = &records[i];
        assert(records@.take(i + 1).last() == *record);
        assert(records@.take(i + 1).drop_last() =~= records@.take(i as int));
        let by_git = match &record.backend {
            Some(backend) => text_equal(backend.as_str(), "git_ghost_commit"),
            None => false,
        };
        if record.turn == turn && by_git && record.workspace_root.is_some() {
            return Some(record.copy());
        }
    }
    None
}

/// Why the snapshots could not be read.
#[derive(Debug)]
pub enum CheckpointFailure {
    Unreadable(String),
    TaskFailed(String),
}

/// What a plan is made of.
#[derive(Debug)]
pub struct PlanDraft {
    pub checkpoint: Option<CheckpointRecord>,
    /// The version in which the workspace has to be found again, or nothing
    /// where no file is touched.
    pub workspace_version: Option<String>,
    pub affected_files: Option<Vec<AffectedFile>>,
    pub dropped_turns: u32,
    /// The history that was cut.
    pub fingerprint: Vec<(TurnId, ItemId)>,
}

/// What a client asks to have previewed.
#[derive(Clone, Copy, Debug)]
pub struct PreviewRequest {
    pub connection: u64,
    pub session: SessionId,
    pub user_turn_index: u32,
    pub mode: RollbackMode,
}

/// What a preview waits for.
#[derive(Debug)]
pub enum PreviewPhase {
    ActiveTurn,
    Session,
    Locked,
    StillActive,
    Export,
    /// The turns that are dropped, and the history that is cut.
    Checkpoints(Vec<TurnId>, Vec<(TurnId, ItemId)>),
    Compared(CheckpointRecord, u32, Vec<(TurnId, ItemId)>),
    Finished,
}

/// What the host observed during a preview.
#[derive(Debug)]
pub enum PreviewEvent {
    TurnActive(bool),
    SessionFound(bool),
    Done,
    /// The history of the session and whether it has a rollout, unless the
    /// session is gone.
    Exported(Option<(Vec<SessionItem>, bool)>),
    Checkpoints(Result<Vec<CheckpointRecord>, CheckpointFailure>),
    /// The version of the workspace and the files that a restore changes.
    Compared(Result<(String, Vec<AffectedFile>), String>),
}

/// What the host has to do for a preview.
#[derive(Debug)]
pub enum PreviewAction {
    /// Read whether a turn of the session is running.
    ReadActiveTurn,
    /// Find the session.
    FindSession,
    /// Lock the state of the session.
    LockState,
    /// Read the history of the session.
    ExportSession,
    /// Read the checkpoints in the rollout of the session.
    ReadCheckpoints,
    /// Find the files that differ from the checkpoint in the phase.
    CompareWorkspace,
    /// Note the plan and answer with it.
    StorePlan(PlanDraft),
    /// Refuse the preview.
    Reject(Rejection),
    /// Nothing: the event does not belong to the phase.
    Ignore,
}

/// The answer while a turn is active.
pub open spec fn preview_in_the_way() -> Rejection {
    rejection(ErrorCode::TurnAlreadyRunning, "cannot preview rollback while a turn is active")
}

/// How many turns are dropped, as far as the counter goes.
pub open spec fn dropped_count(dropped: Seq<TurnId>) -> u32 {
    if dropped.len() > u32::MAX {
        u32::MAX
    } else {
        dropped.len() as u32
    }
}

/// The step of a plan that touches no file.
pub open spec fn history_only(dropped_turns: u32, fingerprint: Vec<(TurnId, ItemId)>) -> (
    PreviewPhase,
    PreviewAction,
) {
    (
        PreviewPhase::Finished,
        PreviewAction::StorePlan(
            PlanDraft {
                checkpoint: None,
                workspace_version: None,
                affected_files: None,
                dropped_turns,
                fingerprint,
            },
        ),
    )
}

/// The step that refuses a preview.
pub open spec fn preview_refused(why: Rejection) -> (PreviewPhase, PreviewAction) {
    (PreviewPhase::Finished, PreviewAction::Reject(why))
}

/// Whether cutting the history drops these turns.
pub open spec fn cut_drops(
    items: Seq<SessionItem>,
    user_turn_index: u32,
    mode: RollbackMode,
    dropped: Seq<TurnId>,
) -> bool {
    exists|end: int|
        #[trigger] cut_falls_at(items, user_turns(items)[user_turn_index as int], mode, end) && 0
            <= end <= items.len() && dropped == dropped_turns(items, items.take(end))
}

/// Whether `step` is the next one of a preview. Once the history is there it
/// is cut; where it has no such turn the preview is refused.
pub open spec fn is_preview_step(
    request: PreviewRequest,
    phase: PreviewPhase,
    event: PreviewEvent,
    step: (PreviewPhase, PreviewAction),
) -> bool {
    match (phase, event) {
        (PreviewPhase::Export, PreviewEvent::Exported(Some((items, durable)))) =>
        if request.user_turn_index >= user_turns(items@).len() {
            step == preview_refused(
                rejection(ErrorCode::InvalidParams, "selected turn does not exist"),
            )
        } else {
            exists|dropped: Seq<TurnId>|
                {
                    &&& #[trigger] cut_drops(
                        items@,
                        request.user_turn_index,
                        request.mode,
                        dropped,
                    )
                    &&& if durable {
                        &&& step.0 matches PreviewPhase::Checkpoints(turns, fingerprint) && turns@
                            == dropped && fingerprint@ == fingerprint_of(items@)
                        &&& step.1 == PreviewAction::ReadCheckpoints
                    } else {
                        &&& step.1 matches PreviewAction::StorePlan(draft) && draft.fingerprint@
                            == fingerprint_of(items@) && step == history_only(
                            dropped_count(dropped),
                            draft.fingerprint,
                        )
                    }
                }
        },
        _ => step == preview_step(phase, event),
    }
}

/// The next step of a preview, but for the one that cuts the history.
pub open spec fn preview_step(phase: PreviewPhase, event: PreviewEvent) -> (
    PreviewPhase,
    PreviewAction,
) {
    match (phase, event) {
        (PreviewPhase::ActiveTurn, PreviewEvent::TurnActive(active)) => if active {
            preview_refused(preview_in_the_way())
        } else {
            (PreviewPhase::Session, PreviewAction::FindSession)
        },
        (PreviewPhase::Session, PreviewEvent::SessionFound(found)) => if found {
            (PreviewPhase::Locked, PreviewAction::LockState)
        } else {
            preview_refused(session_missing())
        },
        (PreviewPhase::Locked, PreviewEvent::Done) => (
            PreviewPhase::StillActive,
            PreviewAction::ReadActiveTurn,
        ),
        (PreviewPhase::StillActive, PreviewEvent::TurnActive(active)) => if active {
            preview_refused(preview_in_the_way())
        } else {
            (PreviewPhase::Export, PreviewAction::ExportSession)
        },
        (PreviewPhase::Export, PreviewEvent::Exported(exported)) => match exported {
            None => preview_refused(session_missing()),
            Some(_) => (phase, PreviewAction::Ignore),
        },
        (PreviewPhase::Checkpoints(dropped, fingerprint), PreviewEvent::Checkpoints(read)) => match read {
            Err(CheckpointFailure::Unreadable(error)) => preview_refused(
                rejection_about(
                    ErrorCode::InternalError,
                    "failed to read workspace checkpoints: ",
                    error,
                ),
            ),
            Err(CheckpointFailure::TaskFailed(error)) => preview_refused(
                rejection_about(
                    ErrorCode::InternalError,
                    "workspace checkpoint read task failed: ",
                    error,
                ),
            ),
            Ok(records) => match chosen_checkpoint(records@, dropped@) {
                None => history_only(dropped_count(dropped@), fingerprint),
                Some(checkpoint) => (
                    PreviewPhase::Compared(checkpoint, dropped_count(dropped@), fingerprint),
                    PreviewAction::CompareWorkspace,
                ),
            },
        },
        (
            PreviewPhase::Compared(checkpoint, dropped_turns, fingerprint),
            PreviewEvent::Compared(compared),
        ) => match compared {
            Err(error) => preview_refused(
                rejection_about(
                    ErrorCode::InternalError,
                    "failed to preview workspace rollback: ",
                    error,
                ),
            ),
            Ok((version, files)) => (
                PreviewPhase::Finished,
                PreviewAction::StorePlan(
                    PlanDraft {
                        checkpoint: Some(checkpoint),
                        workspace_version: Some(version),
                        affected_files: Some(files),
                        dropped_turns,
                        fingerprint,
                    },
                ),
            ),
        },
        _ => (phase, PreviewAction::Ignore),
    }
}

fn refuse(why: Rejection) -> (r: (PreviewPhase, PreviewAction))
    ensures
        r == preview_refused(why),
{
    (PreviewPhase::Finished, PreviewAction::Reject(why))
}

fn refuse_active() -> (r: (PreviewPhase, PreviewAction))
    ensures
        r == preview_refused(preview_in_the_way()),
{
    refuse(
        reject(ErrorCode::TurnAlreadyRunning, "cannot preview rollback while a turn is active"),
    )
}

fn count_dropped(dropped: &Vec<TurnId>) -> (r: u32)
    ensures
        r == dropped_count(dropped@),
{
    if dropped.len() > u32::MAX as usize {
        u32::MAX
    } else {
        dropped.len() as u32
    }
}

fn plan_history_only(dropped_turns: u32, fingerprint: Vec<(TurnId, ItemId)>) -> (r: (
    PreviewPhase,
    PreviewAction,
))
    ensures
        r == history_only(dropped_turns, fingerprint),
{
    (
        PreviewPhase::Finished,
        PreviewAction::StorePlan(
            PlanDraft {
                checkpoint: None,
                workspace_version: None,
                affected_files: None,
                dropped_turns,
                fingerprint,
            },
        ),
    )
}

fn after_export(request: PreviewRequest, items: Vec<SessionItem>, durable: bool) -> (r: (
    PreviewPhase,
    PreviewAction,
))
    ensures
        is_preview_step(
            request,
            PreviewPhase::Export,
            PreviewEvent::Exported(Some((items, durable))),
            r,
        ),
{
    match kept_items_for_user_turn_cut(&items, Some(request.user_turn_index), request.mode) {
        Err(_) => refuse(reject(ErrorCode::InvalidParams, "selected turn does not exist")),
        Ok(kept) => {
            let dropped = dropped_turn_ids(&items, &kept);
            let fingerprint = history_fingerprint(&items);
            assert(cut_drops(items@, request.user_turn_index, request.mode, dropped@));
            if durable {
                (PreviewPhase::Checkpoints(dropped, fingerprint), PreviewAction::ReadCheckpoints)
            } else {
                plan_history_only(count_dropped(&dropped), fingerprint)
            }
        },
    }
}

fn after_checkpoints(
    dropped: Vec<TurnId>,
    fingerprint: Vec<(TurnId, ItemId)>,
    read: Result<Vec<CheckpointRecord>, CheckpointFailure>,
) -> (r: (PreviewPhase, PreviewAction))
    ensures
        r == preview_step(
            PreviewPhase::Checkpoints(dropped, fingerprint),
            PreviewEvent::Checkpoints(read),
        ),
{
    match read {
        Err(CheckpointFailure::Unreadable(error)) => refuse(
            reject_about(ErrorCode::InternalError, "failed to read workspace checkpoints: ", error),
        ),
        Err(CheckpointFailure::TaskFailed(error)) => refuse(
            reject_about(
                ErrorCode::InternalError,
                "workspace checkpoint read task failed: ",
                error,
            ),
        ),
        Ok(records) => match choose_checkpoint(&records, &dropped) {
            None => plan_history_only(count_dropped(&dropped), fingerprint),
            Some(checkpoint) => (
                PreviewPhase::Compared(checkpoint, count_dropped(&dropped), fingerprint),
                PreviewAction::CompareWorkspace,
            ),
        },
    }
}

/// Takes a preview one step further.
pub fn advance_preview(request: PreviewRequest, phase: PreviewPhase, event: PreviewEvent) -> (r: (
    PreviewPhase,
    PreviewAction,
))
    ensures
        is_preview_step(request, phase, event, r),
{
    match (phase, event) {
        (PreviewPhase::ActiveTurn, PreviewEvent::TurnActive(active)) => {
            if active {
                refuse_active()
            } else {
                (PreviewPhase::Session, PreviewAction::FindSession)
            }
        },
        (PreviewPhase::Session, PreviewEvent::SessionFound(found)) => {
            if found {
                (PreviewPhase::Locked, PreviewAction::LockState)
            } else {
                refuse(reject_session_missing())
            }
        },
        (PreviewPhase::Locked, PreviewEvent::Done) => (
            PreviewPhase::StillActive,
            PreviewAction::ReadActiveTurn,
        ),
        (PreviewPhase::StillActive, PreviewEvent::TurnActive(active)) => {
            if active {
                refuse_active()
            } else {
                (PreviewPhase::Export, PreviewAction::ExportSession)
            }
        },
        (PreviewPhase::Export, PreviewEvent::Exported(exported)) => match exported {
            None => refuse(reject_session_missing()),
            Some((items, durable)) => after_export(request, items, durable),
        },
        (PreviewPhase::Checkpoints(dropped, fingerprint), PreviewEvent::Checkpoints(read)) => after_checkpoints(
            dropped,
            fingerprint,
            read,
        ),
        (
            PreviewPhase::Compared(checkpoint, dropped_turns, fingerprint),
            PreviewEvent::Compared(compared),
        ) => match compared {
            Err(error) => refuse(
                reject_about(
                    ErrorCode::InternalError,
                    "failed to preview workspace rollback: ",
                    error,
                ),
            ),
            Ok((version, files)) => (
                PreviewPhase::Finished,
                PreviewAction::StorePlan(
                    PlanDraft {
                        checkpoint: Some(checkpoint),
                        workspace_version: Some(version),
                        affected_files: Some(files),
                        dropped_turns,
                        fingerprint,
                    },
                ),
            ),
        },
        (phase, _) => (phase, PreviewAction::Ignore),
    }
}

/// Whether `plan` is the new plan `id` of a preview. The store sets when it
/// expires.
pub open spec fn is_plan_of(
    request: PreviewRequest,
    id: u128,
    draft: PlanDraft,
    plan: StoredPlan,
) -> bool {
    &&& plan.id == id
    &&& plan.connection == request.connection
    &&& !plan.owner_disconnected
    &&& plan.session == request.session
    &&& plan.user_turn_index == request.user_turn_index
    &&& plan.mode == request.mode
    &&& plan.fingerprint == draft.fingerprint
    &&& plan.dropped_turns == draft.dropped_turns
    &&& plan.status is Ready
    &&& plan.workspace_version@ == match draft.workspace_version {
        Some(version) => version@,
        None => "history-only"@,
    }
    &&& plan.affected_files@ == match draft.affected_files {
        Some(files) => files@,
        None => Seq::empty(),
    }
    &&& match (draft.checkpoint, plan.checkpoint) {
        (Some(record), Some(checkpoint)) => {
            &&& record.workspace_root == Some(checkpoint.workspace_root)
            &&& record.id == checkpoint.id
            &&& record.turn == checkpoint.turn
        },
        (Some(record), None) => record.workspace_root is None,
        (None, checkpoint) => checkpoint is None,
    }
}

/// Makes the plan `id` of a preview.
pub fn plan_from_draft(request: PreviewRequest, id: u128, draft: PlanDraft) -> (r: StoredPlan)
    ensures
        is_plan_of(request, id, draft, r),
{
    let workspace_version = match draft.workspace_version {
        Some(version) => version,
        None => history_only_workspace_version().to_owned(),
    };
    let affected_files = match draft.affected_files {
        Some(files) => files,
        None => Vec::new(),
    };
    let checkpoint = match draft.checkpoint {
        Some(record) => match record.workspace_root {
            Some(workspace_root) => Some(
                Checkpoint { turn: record.turn, id: record.id, workspace_root },
            ),
            None => None,
        },
        None => None,
    };
    StoredPlan {
        id,
        connection: request.connection,
        owner_disconnected: false,
        session: request.session,
        user_turn_index: request.user_turn_index,
        mode: request.mode,
        fingerprint: draft.fingerprint,
        checkpoint,
        workspace_version,
        affected_files,
        dropped_turns: draft.dropped_turns,
        expires_at: 0,
        status: PlanStatus::Ready,
    }
}

/// The checkpoint of a plan was taken for the first turn that the plan drops,
/// and no later usable one was.
pub proof fn law_checkpoint_is_the_latest_of_the_first_dropped_turn(
    records: Seq<CheckpointRecord>,
    dropped: Seq<TurnId>,
)
    ensures
        match chosen_checkpoint(records, dropped) {
            Some(chosen) => exists|i: int|
                {
                    &&& 0 <= i < records.len()
                    &&& #[trigger] records[i] == chosen
                    &&& dropped.len() > 0 && is_usable(chosen, dropped[0])
                    &&& forall|j: int|
                        i < j < records.len() ==> !is_usable(#[trigger] records[j], dropped[0])
                },
            None => dropped.len() == 0 || forall|j: int|
                0 <= j < records.len() ==> !is_usable(#[trigger] records[j], dropped[0]),
        },
    decreases records.len(),
{
    if dropped.len() > 0 && records.len() > 0 {
        let shorter = records.drop_last();
        law_checkpoint_is_the_latest_of_the_first_dropped_turn(shorter, dropped);
        if is_usable(records.last(), dropped[0]) {
            assert(records[records.len() - 1] == records.last());
        } else {
            assert(forall|j: int| 0 <= j < shorter.len() ==> #[trigger] records[j] == shorter[j]);
            match chosen_checkpoint(shorter, dropped) {
                Some(chosen) => {
                    let i = choose|i: int|
                        {
                            &&& 0 <= i < shorter.len()
                            &&& #[trigger] shorter[i] == chosen
                            &&& dropped.len() > 0 && is_usable(chosen, dropped[0])
                            &&& forall|j: int|
                                i < j < shorter.len() ==> !is_usable(
                                    #[trigger] shorter[j],
                                    dropped[0],
                                )
                        };
                    assert(records[i] == chosen);
                    assert forall|j: int| i < j < records.len() implies !is_usable(
                        #[trigger] records[j],
                        dropped[0],
                    ) by {
                        if j < shorter.len() {
                            assert(shorter[j] == records[j]);
                        }
                    }
                },
                None => {
                    assert forall|j: int| 0 <= j < records.len() implies !is_usable(
                        #[trigger] records[j],
                        dropped[0],
                    ) by {
                        if j < shorter.len() {
                            assert(shorter[j] == records[j]);
                        }
                    }
                },
            }
        }
    }
}

/// A preview is made of a session at rest, and says what the rollback would
/// drop: the history alone where no checkpoint was taken at the first turn that
/// is dropped, else the files that differ from the latest one.
pub proof fn law_previews_say_what_is_dropped(
    request: PreviewRequest,
    dropped: Vec<TurnId>,
    fingerprint: Vec<(TurnId, ItemId)>,
    records: Vec<CheckpointRecord>,
    version: String,
    files: Vec<AffectedFile>,
)
    requires
        dropped@.len() <= u32::MAX,
    ensures
        ({
            let a = preview_step(PreviewPhase::ActiveTurn, PreviewEvent::TurnActive(false));
            let b = preview_step(a.0, PreviewEvent::SessionFound(true));
            let c = preview_step(b.0, PreviewEvent::Done);
            let d = preview_step(c.0, PreviewEvent::TurnActive(false));
            let e = preview_step(
                PreviewPhase::Checkpoints(dropped, fingerprint),
                PreviewEvent::Checkpoints(Ok(records)),
            );
            let f = preview_step(e.0, PreviewEvent::Compared(Ok((version, files))));
            let chosen = chosen_checkpoint(records@, dropped@);
            &&& a.1 is FindSession
            &&& b.1 is LockState
            &&& c.1 is ReadActiveTurn
            &&& d.1 is ExportSession
            &&& chosen is None ==> (e.1 matches PreviewAction::StorePlan(draft) && {
                &&& draft.checkpoint is None
                &&& draft.workspace_version is None
                &&& draft.affected_files is None
                &&& draft.dropped_turns == dropped@.len()
                &&& draft.fingerprint == fingerprint
            })
            &&& chosen is Some ==> e.1 is CompareWorkspace && (f.1 matches PreviewAction::StorePlan(
                draft,
            ) && {
                &&& draft.checkpoint == chosen
                &&& draft.workspace_version == Some(version)
                &&& draft.affected_files == Some(files)
                &&& draft.dropped_turns == dropped@.len()
                &&& draft.fingerprint == fingerprint
            })
        }),
{
}

/// A checkpoint can be restored where it was taken of the turn, of a workspace
/// that is known, as a commit beside the history.
pub proof fn law_usable_checkpoints(
    records: Seq<CheckpointRecord>,
    record: CheckpointRecord,
    dropped: Seq<TurnId>,
)
    ensures
        dropped.len() == 0 ==> chosen_checkpoint(records.push(record), dropped) is None,
        dropped.len() > 0 && record.turn == dropped[0] && record.workspace_root is Some
            && record.backend is Some && record.backend->0@ == "git_ghost_commit"@
            ==> chosen_checkpoint(records.push(record), dropped) == Some(record),
        dropped.len() > 0 && (record.turn != dropped[0] || record.workspace_root is None
            || record.backend is None || record.backend->0@ != "git_ghost_commit"@)
            ==> chosen_checkpoint(records.push(record), dropped) == chosen_checkpoint(
            records,
            dropped,
        ),
{
    assert(records.push(record).drop_last() =~= records);
}

/// What stands in the way of a preview is answered.
pub proof fn law_previews_are_refused_for_a_reason(
    request: PreviewRequest,
    items: Vec<SessionItem>,
    durable: bool,
    dropped: Vec<TurnId>,
    fingerprint: Vec<(TurnId, ItemId)>,
    checkpoint: CheckpointRecord,
    count: u32,
    error: String,
    step: (PreviewPhase, PreviewAction),
)
    requires
        request.user_turn_index >= user_turns(items@).len(),
        is_preview_step(
            request,
            PreviewPhase::Export,
            PreviewEvent::Exported(Some((items, durable))),
            step,
        ),
    ensures
        step.1 matches PreviewAction::Reject(why) && why.code is InvalidParams,
        preview_step(PreviewPhase::ActiveTurn, PreviewEvent::TurnActive(true)).1 matches
            PreviewAction::Reject(why) && why.code is TurnAlreadyRunning,
        preview_step(PreviewPhase::StillActive, PreviewEvent::TurnActive(true)).1 matches
            PreviewAction::Reject(why) && why.code is TurnAlreadyRunning,
        preview_step(PreviewPhase::Session, PreviewEvent::SessionFound(false)).1 matches
            PreviewAction::Reject(why) && why.code is SessionNotFound,
        preview_step(PreviewPhase::Export, PreviewEvent::Exported(None)).1 matches
            PreviewAction::Reject(why) && why.code is SessionNotFound,
        preview_step(
            PreviewPhase::Checkpoints(dropped, fingerprint),
            PreviewEvent::Checkpoints(Err(CheckpointFailure::Unreadable(error))),
        ).1 matches PreviewAction::Reject(why) && why.code is InternalError && why.detail == Some(
            error,
        ),
        preview_step(
            PreviewPhase::Checkpoints(dropped, fingerprint),
            PreviewEvent::Checkpoints(Err(CheckpointFailure::TaskFailed(error))),
        ).1 matches PreviewAction::Reject(why) && why.code is InternalError && why.detail == Some(
            error,
        ),
        preview_step(
            PreviewPhase::Compared(checkpoint, count, fingerprint),
            PreviewEvent::Compared(Err(error)),
        ).1 matches PreviewAction::Reject(why) && why.code is InternalError && why.detail == Some(
            error,
        ),
{
}

/// Of a session that is exported, a kept one has its checkpoints read and
/// another is planned at once; either way the plan is for the history that was
/// seen, and drops the turns that the cut does not keep.
pub proof fn law_previews_are_of_the_history_seen(
    request: PreviewRequest,
    items: Vec<SessionItem>,
    durable: bool,
    step: (PreviewPhase, PreviewAction),
)
    requires
        request.user_turn_index < user_turns(items@).len(),
        is_preview_step(
            request,
            PreviewPhase::Export,
            PreviewEvent::Exported(Some((items, durable))),
            step,
        ),
    ensures
        durable ==> step.1 is ReadCheckpoints && (step.0 matches PreviewPhase::Checkpoints(
            turns,
            fingerprint,
        ) && fingerprint@ == fingerprint_of(items@) && cut_drops(
            items@,
            request.user_turn_index,
            request.mode,
            turns@,
        )),
        !durable ==> (step.1 matches PreviewAction::StorePlan(draft) && draft.fingerprint@
            == fingerprint_of(items@) && draft.checkpoint is None && draft.affected_files is None),
{
}

/// A plan is what the preview found, for the client and the turn that it was
/// asked for, and is ready.
pub proof fn law_plans_are_what_was_previewed(
    request: PreviewRequest,
    id: u128,
    draft: PlanDraft,
    plan: StoredPlan,
)
    requires
        is_plan_of(request, id, draft, plan),
    ensures
        plan.id == id,
        plan.connection == request.connection,
        plan.session == request.session,
        plan.user_turn_index == request.user_turn_index,
        plan.mode == request.mode,
        plan.status is Ready,
        !plan.owner_disconnected,
        plan.fingerprint == draft.fingerprint,
        plan.dropped_turns == draft.dropped_turns,
        draft.workspace_version matches Some(version) ==> plan.workspace_version@ == version@,
        draft.workspace_version is None ==> plan.workspace_version@ == "history-only"@,
        draft.affected_files matches Some(files) ==> plan.affected_files@ == files@,
        draft.affected_files is None ==> plan.affected_files@.len() == 0,
        draft.checkpoint is None ==> plan.checkpoint is None,
        draft.checkpoint matches Some(record) ==> (record.workspace_root is Some ==> (
        plan.checkpoint matches Some(checkpoint) && checkpoint.turn == record.turn && checkpoint.id
            == record.id && Some(checkpoint.workspace_root) == record.workspace_root)),
{
}

} // verus!
