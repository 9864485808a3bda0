//! Putting the files of a rollback back and recording how it went.

use crate::paths::{parts, Component, PathPart};
use crate::protocol::{reject_about, rejection_about, ErrorCode, TurnId};
use crate::rollback::{AffectedFile, Checkpoint, FileOutcome, RestoreFailure, RestoreRecord};
use crate::workspace_restore::{same_path, FileStatus};
use vstd::prelude::*;

verus! {

/// Whether the path is listed.
pub open spec fn lists_path(list: Seq<Vec<Component>>, path: Seq<PathPart>) -> bool {
    exists|i: int| 0 <= i < list.len() && parts((#[trigger] list[i])@) == path
}

fn holds_path(list: &Vec<Vec<Component>>, path: &Vec<Component>) -> (r: bool)
    ensures
        r == lists_path(list@, parts(path@)),
{
    let mut i: usize = 0;
    while i < list.len()
        invariant
            i <= list@.len(),
            forall|j: int| 0 <= j < i ==> parts((#[trigger] list@[j])@) != parts(path@),
        decreases list@.len() - i,
    {
        if same_path(&list[i], path) {
            return true;
        }
        i = i + 1;
    }
    false
}

/// What is recorded of one file: a file that still differs was skipped.
pub open spec fn outcome_of(
    file: AffectedFile,
    remaining: Seq<Vec<Component>>,
    otherwise: FileStatus,
) -> FileOutcome {
    FileOutcome {
        file: file.shown,
        status: if lists_path(remaining, parts(file.path@)) {
            FileStatus::Skipped
        } else {
            otherwise
        },
    }
}

/// The record of a restore: every affected file with what became of it. The
/// files in `remaining` still differ from the checkpoint.
pub fn restore_completed_record(
    restore: u128,
    files: &Vec<AffectedFile>,
    remaining: &Vec<Vec<Component>>,
    otherwise: FileStatus,
) -> (r: RestoreRecord)
    ensures
        r.restore == restore,
        r.outcomes@ == files@.map_values(
            |file: AffectedFile| outcome_of(file, remaining@, otherwise),
        ),
{
    let mut outcomes: Vec<FileOutcome> = Vec::new();
    let mut i: usize = 0;
    while i < files.len()
        invariant
            i <= files@.len(),
            outcomes@.len() == i,
            forall|j: int|
                0 <= j < i ==> #[trigger] outcomes@[j] == outcome_of(
                    files@[j],
                    remaining@,
                    otherwise,
                ),
        decreases files@.len() - i,
    {
        let status = if holds_path(remaining, &files[i].path) {
            FileStatus::Skipped
        } else {
            otherwise
        };
        outcomes.push(FileOutcome { file: files[i].shown.clone(), status });
        i = i + 1;
    }
    assert(outcomes@ =~= files@.map_values(
        |file: AffectedFile| outcome_of(file, remaining@, otherwise),
    ));
    RestoreRecord { restore, outcomes }
}

/// How many files were put back.
pub open spec fn restored_in(outcomes: Seq<FileOutcome>) -> nat {
    outcomes.filter(|outcome: FileOutcome| outcome.status is Restored).len()
}

/// A number of files, as far as the counter goes.
pub open spec fn as_counted(count: nat) -> u32 {
    if count > u32::MAX {
        u32::MAX
    } else {
        count as u32
    }
}

/// How many files were put back, as far as the counter goes.
pub open spec fn restored_count(completed: RestoreRecord) -> u32 {
    as_counted(restored_in(completed.outcomes@))
}

/// How many files were put back, as far as the counter goes.
pub fn restored_file_count(completed: &RestoreRecord) -> (r: u32)
    ensures
        r == restored_count(*completed),
{
    let outcomes = &completed.outcomes;
    let ghost restored = |outcome: FileOutcome| outcome.status is Restored;
    let mut count: usize = 0;
    let mut i: usize = 0;
    proof {
        reveal(Seq::filter);
        assert(outcomes@.take(0) =~= Seq::empty());
    }
    while i < outcomes.len()
        invariant
            i <= outcomes@.len(),
            count <= i,
            restored == |outcome: FileOutcome| outcome.status is Restored,
            count == outcomes@.take(i as int).filter(restored).len(),
        decreases outcomes@.len() - i,
    {
        proof {
            reveal(Seq::filter);
            assert(outcomes@.take(i + 1).drop_last() =~= outcomes@.take(i as int));
            assert(outcomes@.take(i + 1).last() == outcomes@[i as int]);
        }
        match outcomes[i].status {
            FileStatus::Restored => {
                count = count + 1;
            },
            _ => {},
        }
        i = i + 1;
    }
    assert(outcomes@.take(outcomes@.len() as int) =~= outcomes@);
    if count > u32::MAX as usize {
        u32::MAX
    } else {
        count as u32
    }
}

/// A restore that went wrong, and what to say of it.
#[derive(Debug)]
pub struct FailedRestore {
    pub text: &'static str,
    pub error: String,
}

/// A restore that a commit asks for.
#[derive(Debug)]
pub struct CommitRestore {
    pub restore: u128,
    /// Whether the session has a rollout.
    pub durable: bool,
    pub checkpoint: Checkpoint,
    pub files: Vec<AffectedFile>,
}

/// What is recorded before a restore: the turn whose checkpoint is restored,
/// and the files that differ from it.
#[derive(Debug)]
pub struct RestoreStartRecord {
    pub turn: TurnId,
    pub restore: u128,
    pub files: Vec<String>,
}

/// Whether `record` announces the restore.
pub open spec fn is_start_record(request: CommitRestore, record: RestoreStartRecord) -> bool {
    &&& record.turn == request.checkpoint.turn
    &&& record.restore == request.restore
    &&& record.files@ == request.files@.map_values(|file: AffectedFile| file.shown)
}

/// What became of the files of a restore.
pub open spec fn outcomes_of(
    files: Seq<AffectedFile>,
    remaining: Seq<Vec<Component>>,
    otherwise: FileStatus,
) -> Seq<FileOutcome> {
    files.map_values(|file: AffectedFile| outcome_of(file, remaining, otherwise))
}

/// Whether `record` says what became of the files of the restore.
pub open spec fn is_end_record(
    request: CommitRestore,
    remaining: Seq<Vec<Component>>,
    otherwise: FileStatus,
    record: RestoreRecord,
) -> bool {
    &&& record.restore == request.restore
    &&& record.outcomes@ == outcomes_of(request.files@, remaining, otherwise)
}

/// How many files a restore has put back, as far as the counter goes.
pub open spec fn put_back(request: CommitRestore, remaining: Seq<Vec<Component>>) -> u32 {
    as_counted(restored_in(outcomes_of(request.files@, remaining, FileStatus::Restored)))
}

/// What a restore waits for. The paths are those that still differ from the
/// checkpoint.
#[derive(Debug)]
pub enum CommitRestorePhase {
    StartWritten,
    StartShown,
    CheckpointRestored,
    Compared,
    FailureWritten(FailedRestore),
    FailureShown(FailedRestore),
    FailureVersion(FailedRestore),
    EndWritten(Vec<Vec<Component>>),
    EndShown(u32),
    UnrecordedVersion(Vec<Vec<Component>>, String),
    Finished,
}

/// What the host observed during a restore.
#[derive(Debug)]
pub enum CommitRestoreEvent {
    Done,
    Written(Option<String>),
    /// Why the checkpoint could not be restored, if it could not.
    Restored(Option<String>),
    /// The files that still differ from the checkpoint.
    Compared(Result<Vec<Vec<Component>>, String>),
    Version(Option<String>),
}

/// What the host has to do for a restore. `S` is the record of its start and
/// `W` that of its end; they are `()` where only the order of the steps matters.
#[derive(Debug)]
pub enum CommitRestoreAction<S = RestoreStartRecord, W = RestoreRecord> {
    /// Append the start to the rollout.
    AppendStart(S),
    /// Tell the clients that the restore starts.
    ShowStart(S),
    /// Put the files under `root` back as they are in the checkpoint.
    RestoreCheckpoint { root: String, checkpoint: String },
    /// Find the files under `root` that differ from the checkpoint.
    Compare { root: String, checkpoint: String },
    /// Record that every file failed. Whether that can be written makes no
    /// difference.
    AppendFailure(W),
    /// Tell the clients that every file failed.
    ShowFailure(W),
    /// Read the version of the files under a root.
    ReadVersion(String),
    /// Append the end to the rollout.
    AppendEnd(W),
    /// Tell the clients how the restore ended.
    ShowEnd(W),
    /// The restore is over: so many files were put back.
    Restored(u32),
    /// The restore failed.
    Fail(RestoreFailure<W>),
    /// Nothing: the event does not belong to the phase.
    Ignore,
}

/// What the host has to do for a restore, without the records.
pub type CommitRestoreOrder = CommitRestoreAction<(), ()>;

impl CommitRestoreAction {
    /// What is to be done, without the records.
    pub open spec fn order(self) -> CommitRestoreOrder {
        match self {
            CommitRestoreAction::AppendStart(_) => CommitRestoreAction::AppendStart(()),
            CommitRestoreAction::ShowStart(_) => CommitRestoreAction::ShowStart(()),
            CommitRestoreAction::RestoreCheckpoint { root, checkpoint } => {
                CommitRestoreAction::RestoreCheckpoint { root, checkpoint }
            },
            CommitRestoreAction::Compare { root, checkpoint } => CommitRestoreAction::Compare {
                root,
                checkpoint,
            },
            CommitRestoreAction::AppendFailure(_) => CommitRestoreAction::AppendFailure(()),
            CommitRestoreAction::ShowFailure(_) => CommitRestoreAction::ShowFailure(()),
            CommitRestoreAction::ReadVersion(root) => CommitRestoreAction::ReadVersion(root),
            CommitRestoreAction::AppendEnd(_) => CommitRestoreAction::AppendEnd(()),
            CommitRestoreAction::ShowEnd(_) => CommitRestoreAction::ShowEnd(()),
            CommitRestoreAction::Restored(count) => CommitRestoreAction::Restored(count),
            CommitRestoreAction::Fail(failure) => CommitRestoreAction::Fail(
                RestoreFailure {
                    why: failure.why,
                    completion: match failure.completion {
                        Some((_, count)) => Some(((), count)),
                        None => None,
                    },
                    version: failure.version,
                },
            ),
            CommitRestoreAction::Ignore => CommitRestoreAction::Ignore,
        }
    }
}

/// A step without the records.
pub open spec fn restore_order(step: (CommitRestorePhase, CommitRestoreAction)) -> (
    CommitRestorePhase,
    CommitRestoreOrder,
) {
    (step.0, step.1.order())
}

/// The files that still differ, once they are known.
pub open spec fn remaining_of(phase: CommitRestorePhase, event: CommitRestoreEvent) -> Option<
    Seq<Vec<Component>>,
> {
    match (phase, event) {
        (CommitRestorePhase::Compared, CommitRestoreEvent::Compared(Ok(remaining))) => Some(
            remaining@,
        ),
        (CommitRestorePhase::EndWritten(remaining), _) => Some(remaining@),
        (CommitRestorePhase::UnrecordedVersion(remaining, _), _) => Some(remaining@),
        _ => None,
    }
}

/// Whether `record` says how the restore ended where the files are compared.
pub open spec fn ends_restore(
    request: CommitRestore,
    phase: CommitRestorePhase,
    event: CommitRestoreEvent,
    record: RestoreRecord,
) -> bool {
    match remaining_of(phase, event) {
        Some(remaining) => is_end_record(request, remaining, FileStatus::Restored, record),
        None => false,
    }
}

/// Whether an action records what the restore comes to.
pub open spec fn restores_with(
    request: CommitRestore,
    phase: CommitRestorePhase,
    event: CommitRestoreEvent,
    action: CommitRestoreAction,
) -> bool {
    match action {
        CommitRestoreAction::AppendStart(record) => is_start_record(request, record),
        CommitRestoreAction::ShowStart(record) => is_start_record(request, record),
        CommitRestoreAction::AppendFailure(record) => is_end_record(
            request,
            Seq::empty(),
            FileStatus::Failed,
            record,
        ),
        CommitRestoreAction::ShowFailure(record) => is_end_record(
            request,
            Seq::empty(),
            FileStatus::Failed,
            record,
        ),
        CommitRestoreAction::AppendEnd(record) => ends_restore(request, phase, event, record),
        CommitRestoreAction::ShowEnd(record) => ends_restore(request, phase, event, record),
        CommitRestoreAction::Fail(failure) => match failure.completion {
            Some((record, _)) => ends_restore(request, phase, event, record),
            None => true,
        },
        _ => true,
    }
}

/// The first step of a restore. A session without a rollout records nothing.
pub open spec fn restore_commit_start(request: CommitRestore) -> (
    CommitRestorePhase,
    CommitRestoreOrder,
) {
    if request.durable {
        (CommitRestorePhase::StartWritten, CommitRestoreAction::AppendStart(()))
    } else {
        (CommitRestorePhase::StartShown, CommitRestoreAction::ShowStart(()))
    }
}

/// The step once files may have been left half restored.
pub open spec fn went_wrong(request: CommitRestore, failed: FailedRestore) -> (
    CommitRestorePhase,
    CommitRestoreOrder,
) {
    if request.durable {
        (CommitRestorePhase::FailureWritten(failed), CommitRestoreAction::AppendFailure(()))
    } else {
        (CommitRestorePhase::FailureShown(failed), CommitRestoreAction::ShowFailure(()))
    }
}

/// The next step of a restore.
pub open spec fn restore_commit_step(
    request: CommitRestore,
    phase: CommitRestorePhase,
    event: CommitRestoreEvent,
) -> (CommitRestorePhase, CommitRestoreOrder) {
    match (phase, event) {
        (CommitRestorePhase::StartWritten, CommitRestoreEvent::Written(failure)) => match failure {
            Some(error) => (
                CommitRestorePhase::Finished,
                CommitRestoreAction::Fail(
                    RestoreFailure {
                        why: rejection_about(
                            ErrorCode::WorkspaceRestoreFailedToStart,
                            "failed to persist workspace restore start: ",
                            error,
                        ),
                        completion: None,
                        version: None,
                    },
                ),
            ),
            None => (CommitRestorePhase::StartShown, CommitRestoreAction::ShowStart(())),
        },
        (CommitRestorePhase::StartShown, CommitRestoreEvent::Done) => (
            CommitRestorePhase::CheckpointRestored,
            CommitRestoreAction::RestoreCheckpoint {
                root: request.checkpoint.workspace_root,
                checkpoint: request.checkpoint.id,
            },
        ),
        (CommitRestorePhase::CheckpointRestored, CommitRestoreEvent::Restored(failure)) => match failure {
            Some(error) => went_wrong(
                request,
                FailedRestore { text: "failed to restore workspace checkpoint: ", error },
            ),
            None => (
                CommitRestorePhase::Compared,
                CommitRestoreAction::Compare {
                    root: request.checkpoint.workspace_root,
                    checkpoint: request.checkpoint.id,
                },
            ),
        },
        (CommitRestorePhase::Compared, CommitRestoreEvent::Compared(compared)) => match compared {
            Err(error) => went_wrong(
                request,
                FailedRestore { text: "failed to verify workspace restore: ", error },
            ),
            Ok(remaining) => if request.durable {
                (CommitRestorePhase::EndWritten(remaining), CommitRestoreAction::AppendEnd(()))
            } else {
                (
                    CommitRestorePhase::EndShown(put_back(request, remaining@)),
                    CommitRestoreAction::ShowEnd(()),
                )
            },
        },
        (CommitRestorePhase::FailureWritten(failed), CommitRestoreEvent::Written(_)) => (
            CommitRestorePhase::FailureShown(failed),
            CommitRestoreAction::ShowFailure(()),
        ),
        (CommitRestorePhase::FailureShown(failed), CommitRestoreEvent::Done) => (
            CommitRestorePhase::FailureVersion(failed),
            CommitRestoreAction::ReadVersion(request.checkpoint.workspace_root),
        ),
        (CommitRestorePhase::FailureVersion(failed), CommitRestoreEvent::Version(version)) => (
            CommitRestorePhase::Finished,
            CommitRestoreAction::Fail(
                RestoreFailure {
                    why: rejection_about(ErrorCode::InternalError, failed.text, failed.error),
                    completion: None,
                    version,
                },
            ),
        ),
        (CommitRestorePhase::EndWritten(remaining), CommitRestoreEvent::Written(failure)) => match failure {
            Some(error) => (
                CommitRestorePhase::UnrecordedVersion(remaining, error),
                CommitRestoreAction::ReadVersion(request.checkpoint.workspace_root),
            ),
            None => (
                CommitRestorePhase::EndShown(put_back(request, remaining@)),
                CommitRestoreAction::ShowEnd(()),
            ),
        },
        (
            CommitRestorePhase::UnrecordedVersion(remaining, error),
            CommitRestoreEvent::Version(version),
        ) => (
            CommitRestorePhase::Finished,
            CommitRestoreAction::Fail(
                RestoreFailure {
                    why: rejection_about(
                        ErrorCode::InternalError,
                        "failed to persist workspace restore completion: ",
                        error,
                    ),
                    completion: Some(((), put_back(request, remaining@))),
                    version,
                },
            ),
        ),
        (CommitRestorePhase::EndShown(count), CommitRestoreEvent::Done) => (
            CommitRestorePhase::Finished,
            CommitRestoreAction::Restored(count),
        ),
        _ => (phase, CommitRestoreAction::Ignore),
    }
}

/// Whether `step` is the next one of a restore: the step, and the records that
/// go with it.
pub open spec fn is_restore_step(
    request: CommitRestore,
    phase: CommitRestorePhase,
    event: CommitRestoreEvent,
    step: (CommitRestorePhase, CommitRestoreAction),
) -> bool {
    &&& restore_order(step) == restore_commit_step(request, phase, event)
    &&& restores_with(request, phase, event, step.1)
}

/// The record of the start of a restore.
pub fn restore_started_record(request: &CommitRestore) -> (r: RestoreStartRecord)
    ensures
        is_start_record(*request, r),
{
    let mut files: Vec<String> = Vec::new();
    let mut i: usize = 0;
    while i < request.files.len()
        invariant
            i <= request.files@.len(),
            files@.len() == i,
            forall|j: int| 0 <= j < i ==> #[trigger] files@[j] == request.files@[j].shown,
        decreases request.files@.len() - i,
    {
        files.push(request.files[i].shown.clone());
        i = i + 1;
    }
    assert(files@ =~= request.files@.map_values(|file: AffectedFile| file.shown));
    RestoreStartRecord { turn: request.checkpoint.turn, restore: request.restore, files }
}

/// Begins a restore.
pub fn begin_commit_restore(request: &CommitRestore) -> (r: (
    CommitRestorePhase,
    CommitRestoreAction,
))
    ensures
        restore_order(r) == restore_commit_start(*request),
        match r.1 {
            CommitRestoreAction::AppendStart(record) => is_start_record(*request, record),
            CommitRestoreAction::ShowStart(record) => is_start_record(*request, record),
            _ => false,
        },
{
    let started = restore_started_record(request);
    if request.durable {
        (CommitRestorePhase::StartWritten, CommitRestoreAction::AppendStart(started))
    } else {
        (CommitRestorePhase::StartShown, CommitRestoreAction::ShowStart(started))
    }
}

fn failed_record(request: &CommitRestore) -> (r: RestoreRecord)
    ensures
        is_end_record(*request, Seq::empty(), FileStatus::Failed, r),
{
    let none: Vec<Vec<Component>> = Vec::new();
    assert(none@ =~= Seq::empty());
    restore_completed_record(request.restore, &request.files, &none, FileStatus::Failed)
}

fn end_record(request: &CommitRestore, remaining: &Vec<Vec<Component>>) -> (r: (RestoreRecord, u32))
    ensures
        is_end_record(*request, remaining@, FileStatus::Restored, r.0),
        r.1 == put_back(*request, remaining@),
{
    let record = restore_completed_record(
        request.restore,
        &request.files,
        remaining,
        FileStatus::Restored,
    );
    let count: u32 = restored_file_count(&record);
    (record, count)
}

fn note_failure(request: &CommitRestore, failed: FailedRestore) -> (r: (
    CommitRestorePhase,
    CommitRestoreAction,
))
    ensures
        restore_order(r) == went_wrong(*request, failed),
        match r.1 {
            CommitRestoreAction::AppendFailure(record) => is_end_record(
                *request,
                Seq::empty(),
                FileStatus::Failed,
                record,
            ),
            CommitRestoreAction::ShowFailure(record) => is_end_record(
                *request,
                Seq::empty(),
                FileStatus::Failed,
                record,
            ),
            _ => false,
        },
{
    let record = failed_record(request);
    if request.durable {
        (CommitRestorePhase::FailureWritten(failed), CommitRestoreAction::AppendFailure(record))
    } else {
        (CommitRestorePhase::FailureShown(failed), CommitRestoreAction::ShowFailure(record))
    }
}

/// Takes a restore one step further.
pub fn advance_commit_restore(
    request: &CommitRestore,
    phase: CommitRestorePhase,
    event: CommitRestoreEvent,
) -> (r: (CommitRestorePhase, CommitRestoreAction))
    ensures
        is_restore_step(*request, phase, event, r),
{
    match (phase, event) {
        (CommitRestorePhase::StartWritten, CommitRestoreEvent::Written(failure)) => match failure {
            Some(error) => (
                CommitRestorePhase::Finished,
                CommitRestoreAction::Fail(
                    RestoreFailure {
                        why: reject_about(
                            ErrorCode::WorkspaceRestoreFailedToStart,
                            "failed to persist workspace restore start: ",
                            error,
                        ),
                        completion: None,
                        version: None,
                    },
                ),
            ),
            None => (
                CommitRestorePhase::StartShown,
                CommitRestoreAction::ShowStart(restore_started_record(request)),
            ),
        },
        (CommitRestorePhase::StartShown, CommitRestoreEvent::Done) => (
            CommitRestorePhase::CheckpointRestored,
            CommitRestoreAction::RestoreCheckpoint {
                root: request.checkpoint.workspace_root.clone(),
                checkpoint: request.checkpoint.id.clone(),
            },
        ),
        (CommitRestorePhase::CheckpointRestored, CommitRestoreEvent::Restored(failure)) => match failure {
            Some(error) => note_failure(
                request,
                FailedRestore { text: "failed to restore workspace checkpoint: ", error },
            ),
            None => (
                CommitRestorePhase::Compared,
                CommitRestoreAction::Compare {
                    root: request.checkpoint.workspace_root.clone(),
                    checkpoint: request.checkpoint.id.clone(),
                },
            ),
        },
        (CommitRestorePhase::Compared, CommitRestoreEvent::Compared(compared)) => match compared {
            Err(error) => note_failure(
                request,
                FailedRestore { text: "failed to verify workspace restore: ", error },
            ),
            Ok(remaining) => {
                let (record, count) = end_record(request, &remaining);
                if request.durable {
                    (
                        CommitRestorePhase::EndWritten(remaining),
                        CommitRestoreAction::AppendEnd(record),
                    )
                } else {
                    (CommitRestorePhase::EndShown(count), CommitRestoreAction::ShowEnd(record))
                }
            },
        },
        (CommitRestorePhase::FailureWritten(failed), CommitRestoreEvent::Written(_)) => (
            CommitRestorePhase::FailureShown(failed),
            CommitRestoreAction::ShowFailure(failed_record(request)),
        ),
        (CommitRestorePhase::FailureShown(failed), CommitRestoreEvent::Done) => (
            CommitRestorePhase::FailureVersion(failed),
            CommitRestoreAction::ReadVersion(request.checkpoint.workspace_root.clone()),
        ),
        (CommitRestorePhase::FailureVersion(failed), CommitRestoreEvent::Version(version)) => (
            CommitRestorePhase::Finished,
            CommitRestoreAction::Fail(
                RestoreFailure {
                    why: reject_about(ErrorCode::InternalError, failed.text, failed.error),
                    completion: None,
                    version,
                },
            ),
        ),
        (CommitRestorePhase::EndWritten(remaining), CommitRestoreEvent::Written(failure)) => match failure {
            Some(error) => (
                CommitRestorePhase::UnrecordedVersion(remaining, error),
                CommitRestoreAction::ReadVersion(request.checkpoint.workspace_root.clone()),
            ),
            None => {
                let (record, count) = end_record(request, &remaining);
                (CommitRestorePhase::EndShown(count), CommitRestoreAction::ShowEnd(record))
            },
        },
        (
            CommitRestorePhase::UnrecordedVersion(remaining, error),
            CommitRestoreEvent::Version(version),
        ) => {
            let completed = end_record(request, &remaining);
            (
                CommitRestorePhase::Finished,
                CommitRestoreAction::Fail(
                    RestoreFailure {
                        why: reject_about(
                            ErrorCode::InternalError,
                            "failed to persist workspace restore completion: ",
                            error,
                        ),
                        completion: Some(completed),
                        version,
                    },
                ),
            )
        },
        (CommitRestorePhase::EndShown(count), CommitRestoreEvent::Done) => (
            CommitRestorePhase::Finished,
            CommitRestoreAction::Restored(count),
        ),
        (phase, _) => (phase, CommitRestoreAction::Ignore),
    }
}

/// Where a restore stands after `events`.
pub open spec fn restore_commit_after(
    request: CommitRestore,
    events: Seq<CommitRestoreEvent>,
) -> CommitRestorePhase
    decreases events.len(),
{
    if events.len() == 0 {
        restore_commit_start(request).0
    } else {
        restore_commit_step(
            request,
            restore_commit_after(request, events.drop_last()),
            events.last(),
        ).0
    }
}

proof fn lemma_start_is_recorded(request: CommitRestore, events: Seq<CommitRestoreEvent>)
    requires
        request.durable,
    ensures
        ({
            let phase = restore_commit_after(request, events);
            phase is StartWritten || phase is Finished || events.contains(
                CommitRestoreEvent::Written(None),
            )
        }),
    decreases events.len(),
{
    if events.len() > 0 {
        lemma_start_is_recorded(request, events.drop_last());
        let before = events.drop_last();
        let wanted = CommitRestoreEvent::Written(None);
        if before.contains(wanted) {
            let i = choose|i: int| 0 <= i < before.len() && before[i] == wanted;
            assert(events[i] == wanted);
        }
        assert(events[events.len() - 1] == events.last());
    }
}

/// The files of a session with a rollout are touched only after the start of
/// the restore is on record.
pub proof fn law_restore_is_announced_on_record(
    request: CommitRestore,
    events: Seq<CommitRestoreEvent>,
    event: CommitRestoreEvent,
)
    requires
        request.durable,
    ensures
        restore_commit_step(
            request,
            restore_commit_after(request, events),
            event,
        ).1 is RestoreCheckpoint ==> events.contains(CommitRestoreEvent::Written(None)),
{
    lemma_start_is_recorded(request, events);
}

/// What is recorded at the end of a restore lists every affected file: as
/// skipped where it still differs from the checkpoint, as put back elsewhere.
pub proof fn law_recorded_outcomes_cover_the_files(
    request: CommitRestore,
    remaining: Vec<Vec<Component>>,
    step: (CommitRestorePhase, CommitRestoreAction),
)
    requires
        request.durable,
        is_restore_step(
            request,
            CommitRestorePhase::Compared,
            CommitRestoreEvent::Compared(Ok(remaining)),
            step,
        ),
    ensures
        step.1 is AppendEnd,
        step.1->AppendEnd_0.outcomes@.len() == request.files@.len(),
        forall|i: int|
            0 <= i < request.files@.len() ==> {
                let outcome = #[trigger] step.1->AppendEnd_0.outcomes@[i];
                &&& outcome.file == request.files@[i].shown
                &&& outcome.status == if lists_path(
                    remaining@,
                    parts(request.files@[i].path@),
                ) {
                    FileStatus::Skipped
                } else {
                    FileStatus::Restored
                }
            },
{
}

/// No more files are counted as put back than were affected, and all of them
/// are counted where none still differs.
pub proof fn law_restored_files_are_affected_files(
    files: Seq<AffectedFile>,
    remaining: Seq<Vec<Component>>,
)
    ensures
        ({
            let outcomes = files.map_values(
                |file: AffectedFile| outcome_of(file, remaining, FileStatus::Restored),
            );
            &&& restored_in(outcomes) <= files.len()
            &&& remaining.len() == 0 ==> restored_in(outcomes) == files.len()
        }),
    decreases files.len(),
{
    reveal(Seq::filter);
    let outcomes = files.map_values(
        |file: AffectedFile| outcome_of(file, remaining, FileStatus::Restored),
    );
    if files.len() > 0 {
        law_restored_files_are_affected_files(files.drop_last(), remaining);
        assert(outcomes.drop_last() =~= files.drop_last().map_values(
            |file: AffectedFile| outcome_of(file, remaining, FileStatus::Restored),
        ));
    }
}

/// The files of a plan are put back from its checkpoint and compared with it:
/// what still differs was skipped, the rest is restored, and how many were is
/// told. The start and the end are written down where the session is kept, and
/// shown.
pub proof fn law_restored_checkpoints_are_compared(
    request: CommitRestore,
    remaining: Vec<Vec<Component>>,
    count: u32,
)
    ensures
        ({
            let root = request.checkpoint.workspace_root;
            let checkpoint = request.checkpoint.id;
            let a = restore_commit_start(request);
            let b = if request.durable {
                restore_commit_step(request, a.0, CommitRestoreEvent::Written(None))
            } else {
                a
            };
            let c = restore_commit_step(request, b.0, CommitRestoreEvent::Done);
            let d = restore_commit_step(request, c.0, CommitRestoreEvent::Restored(None));
            let e = restore_commit_step(request, d.0, CommitRestoreEvent::Compared(Ok(remaining)));
            let f = if request.durable {
                restore_commit_step(request, e.0, CommitRestoreEvent::Written(None))
            } else {
                e
            };
            let g = restore_commit_step(request, f.0, CommitRestoreEvent::Done);
            &&& request.durable ==> a.1 is AppendStart
            &&& b.1 is ShowStart
            &&& c.1 == CommitRestoreOrder::RestoreCheckpoint { root, checkpoint }
            &&& d.1 == CommitRestoreOrder::Compare { root, checkpoint }
            &&& request.durable ==> e.1 is AppendEnd
            &&& f.1 is ShowEnd
            &&& g.1 is Restored
            &&& remaining@.len() == 0 && request.files@.len() <= u32::MAX ==> g.1
                == CommitRestoreOrder::Restored(request.files@.len() as u32)
        }),
{
    law_restored_files_are_affected_files(request.files@, remaining@);
}

/// A restoration that goes wrong says so: it is written down and shown as
/// failed, the workspace is read as it is then, and the failure is told with
/// that. What was restored but could not be written down is told with what is to
/// be written.
pub proof fn law_failed_restorations_say_why(
    request: CommitRestore,
    remaining: Vec<Vec<Component>>,
    unwritten: Option<String>,
    version: Option<String>,
    error: String,
)
    ensures
        restore_commit_step(
            request,
            CommitRestorePhase::StartWritten,
            CommitRestoreEvent::Written(Some(error)),
        ).1 matches CommitRestoreAction::Fail(failure) && failure.why.code
            is WorkspaceRestoreFailedToStart && failure.why.detail == Some(error)
            && failure.completion is None && failure.version is None,
        ({
            let a = restore_commit_step(
                request,
                CommitRestorePhase::CheckpointRestored,
                CommitRestoreEvent::Restored(Some(error)),
            );
            let b = if request.durable {
                restore_commit_step(request, a.0, CommitRestoreEvent::Written(unwritten))
            } else {
                a
            };
            let c = restore_commit_step(request, b.0, CommitRestoreEvent::Done);
            let d = restore_commit_step(request, c.0, CommitRestoreEvent::Version(version));
            &&& request.durable ==> a.1 is AppendFailure
            &&& b.1 is ShowFailure
            &&& c.1 == CommitRestoreOrder::ReadVersion(request.checkpoint.workspace_root)
            &&& d.1 matches CommitRestoreAction::Fail(failure) && failure.why.code is InternalError
                && failure.why.detail == Some(error) && failure.completion is None
                && failure.version == version
        }),
        ({
            let a = restore_commit_step(
                request,
                CommitRestorePhase::Compared,
                CommitRestoreEvent::Compared(Err(error)),
            );
            &&& request.durable ==> a.1 is AppendFailure
            &&& !request.durable ==> a.1 is ShowFailure
        }),
        ({
            let a = restore_commit_step(
                request,
                CommitRestorePhase::EndWritten(remaining),
                CommitRestoreEvent::Written(Some(error)),
            );
            let b = restore_commit_step(request, a.0, CommitRestoreEvent::Version(version));
            &&& a.1 == CommitRestoreOrder::ReadVersion(request.checkpoint.workspace_root)
            &&& b.1 matches CommitRestoreAction::Fail(failure) && failure.why.code is InternalError
                && failure.why.detail == Some(error) && failure.completion is Some
                && failure.version == version
        }),
{
}

/// Every file of the plan has an outcome: one that still differs was skipped,
/// and any other is what the restoration came to. All of them have failed where
/// it did.
pub proof fn law_every_file_has_its_outcome(
    request: CommitRestore,
    remaining: Seq<Vec<Component>>,
    otherwise: FileStatus,
    record: RestoreRecord,
    i: int,
)
    requires
        is_end_record(request, remaining, otherwise, record),
        0 <= i < request.files@.len(),
    ensures
        record.restore == request.restore,
        record.outcomes@.len() == request.files@.len(),
        record.outcomes@[i].file == request.files@[i].shown,
        lists_path(remaining, parts(request.files@[i].path@)) ==> record.outcomes@[i].status
            is Skipped,
        !lists_path(remaining, parts(request.files@[i].path@)) ==> record.outcomes@[i].status
            == otherwise,
        remaining.len() == 0 ==> record.outcomes@[i].status == otherwise,
{
}

/// What is counted as restored are the outcomes that say so.
pub proof fn law_restored_outcomes_are_counted(
    outcomes: Seq<FileOutcome>,
    outcome: FileOutcome,
)
    ensures
        restored_in(Seq::empty()) == 0,
        outcome.status is Restored ==> restored_in(outcomes.push(outcome)) == restored_in(outcomes)
            + 1,
        !(outcome.status is Restored) ==> restored_in(outcomes.push(outcome)) == restored_in(
            outcomes,
        ),
{
    reveal(Seq::filter);
    assert(outcomes.push(outcome).drop_last() =~= outcomes);
}

/// The record of a beginning restoration names the turn, the restoration and
/// every file.
pub proof fn law_started_restorations_name_their_files(
    request: CommitRestore,
    record: RestoreStartRecord,
    i: int,
)
    requires
        is_start_record(request, record),
        0 <= i < request.files@.len(),
    ensures
        record.turn == request.checkpoint.turn,
        record.restore == request.restore,
        record.files@.len() == request.files@.len(),
        record.files@[i] == request.files@[i].shown,
{
}

} // verus!
