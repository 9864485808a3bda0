//! Moving a session to another directory, archiving it, interrupting it.

use crate::protocol::{
    reject, reject_about, reject_session_missing, rejection, rejection_about, session_missing,
    ErrorCode, ItemId, Rejection, SessionId, TurnId,
};
use crate::session_metadata::PermissionPreset;
use vstd::prelude::*;

verus! {

/// What a path turned out to be.
#[derive(Clone, Copy, Debug, PartialEq, Eq, Structural)]
pub enum PathFound {
    Directory,
    Other,
    Denied,
    Unreadable,
}

/// Why a session cannot move to a directory.
#[derive(Clone, Copy, Debug, PartialEq, Eq, Structural)]
pub enum CwdError {
    Invalid,
    Denied,
}

/// Whether a session can move to a path.
pub fn validate_session_cwd(found: PathFound) -> (r: Result<(), CwdError>)
    ensures
        r == match found {
            PathFound::Directory => Ok::<(), CwdError>(()),
            PathFound::Denied => Err(CwdError::Denied),
            PathFound::Other | PathFound::Unreadable => Err(CwdError::Invalid),
        },
{
    match found {
        PathFound::Directory => Ok(()),
        PathFound::Denied => Err(CwdError::Denied),
        PathFound::Other | PathFound::Unreadable => Err(CwdError::Invalid),
    }
}

/// A change of a session: another directory, or whether it is archived.
#[derive(Debug)]
pub enum ChangeKind {
    Cwd(String),
    Archive(bool),
}

/// What a change can reach of a session, and whether it has a rollout.
#[derive(Debug, PartialEq, Eq)]
pub struct ChangedSession {
    pub cwd: String,
    pub archived: bool,
    pub version: u64,
    pub durable: bool,
}

/// What a change waits for. Once the session is changed it goes with it.
#[derive(Debug)]
pub enum ChangePhase {
    Directory,
    Workspace,
    Loaded,
    ProfileRead,
    ProfileApplied,
    Changed,
    Read,
    Persisted(ChangedSession),
    Indexed(ChangedSession),
    Announced(ChangedSession),
    Finished,
}

/// What the host observed during a change.
#[derive(Debug)]
pub enum ChangeEvent {
    /// What the directory is, and how it is written.
    Directory(PathFound, String),
    Workspace(Option<String>),
    Loaded(bool),
    /// The permission preset of the session.
    Profile(Option<PermissionPreset>),
    Done,
    /// The session as it is now, unless it is gone.
    Read(Option<ChangedSession>),
    Written(Option<String>),
}

/// What the host has to do for a change. The session is in the phase.
#[derive(Debug)]
pub enum ChangeAction {
    /// Find out what the directory is.
    CheckDirectory,
    /// Open the workspace of the directory.
    OpenWorkspace,
    /// Load the session.
    Load,
    /// Read the permission preset of the session.
    ReadProfile,
    /// Apply the permission preset to the new directory.
    ApplyProfile(PermissionPreset),
    /// Give the session the directory and its workspace.
    Move(String),
    /// Mark the session as archived or not, and read it.
    Archive(bool),
    /// Read the session.
    ReadSession,
    /// Append the session to its rollout.
    AppendMeta,
    /// Note the session in the index.
    UpdateIndex,
    /// Tell the clients of the change.
    Announce,
    /// Answer with the session.
    Answer(ChangedSession),
    /// Refuse the change.
    Reject(Rejection),
    /// Nothing: the event does not belong to the phase.
    Ignore,
}

/// The version of a session after a change, as far as the counter goes.
pub open spec fn version_after(version: u64) -> u64 {
    if version == u64::MAX {
        version
    } else {
        (version + 1) as u64
    }
}

/// The session after a change. One that was archived is read as it then is; one
/// that was moved is counted as changed here.
pub open spec fn changed_session(kind: ChangeKind, session: ChangedSession) -> ChangedSession {
    match kind {
        ChangeKind::Cwd(cwd) => ChangedSession {
            cwd,
            version: version_after(session.version),
            ..session
        },
        ChangeKind::Archive(_) => session,
    }
}

/// The first step of a change.
pub open spec fn change_start(kind: ChangeKind) -> (ChangePhase, ChangeAction) {
    match kind {
        ChangeKind::Cwd(_) => (ChangePhase::Directory, ChangeAction::CheckDirectory),
        ChangeKind::Archive(_) => (ChangePhase::Loaded, ChangeAction::Load),
    }
}

/// The step that refuses a change.
pub open spec fn change_refused(why: Rejection) -> (ChangePhase, ChangeAction) {
    (ChangePhase::Finished, ChangeAction::Reject(why))
}

/// The step that moves the session.
pub open spec fn moved_step(kind: ChangeKind) -> (ChangePhase, ChangeAction) {
    match kind {
        ChangeKind::Cwd(cwd) => (ChangePhase::Changed, ChangeAction::Move(cwd)),
        ChangeKind::Archive(archived) => (ChangePhase::Read, ChangeAction::Archive(archived)),
    }
}

/// The answer where a change could not be recorded.
pub open spec fn change_unwritten(kind: ChangeKind, error: String) -> Rejection {
    rejection_about(
        ErrorCode::InternalError,
        match kind {
            ChangeKind::Cwd(_) => "failed to persist session cwd change: ",
            ChangeKind::Archive(_) => "failed to persist session archive: ",
        },
        error,
    )
}

/// The next step of a change.
pub open spec fn change_step(kind: ChangeKind, phase: ChangePhase, event: ChangeEvent) -> (
    ChangePhase,
    ChangeAction,
) {
    match (phase, event) {
        (ChangePhase::Directory, ChangeEvent::Directory(found, shown)) => match found {
            PathFound::Directory => (ChangePhase::Workspace, ChangeAction::OpenWorkspace),
            PathFound::Denied => change_refused(
                rejection_about(ErrorCode::PermissionDenied, "cwd is not readable: ", shown),
            ),
            _ => change_refused(
                rejection_about(
                    ErrorCode::InvalidParams,
                    "cwd is not an accessible directory: ",
                    shown,
                ),
            ),
        },
        (ChangePhase::Workspace, ChangeEvent::Workspace(failure)) => match failure {
            Some(error) => change_refused(
                rejection_about(
                    ErrorCode::InternalError,
                    "failed to initialize session workspace: ",
                    error,
                ),
            ),
            None => (ChangePhase::Loaded, ChangeAction::Load),
        },
        (ChangePhase::Loaded, ChangeEvent::Loaded(loaded)) => if !loaded {
            change_refused(session_missing())
        } else {
            match kind {
                ChangeKind::Cwd(_) => (ChangePhase::ProfileRead, ChangeAction::ReadProfile),
                ChangeKind::Archive(archived) => (
                    ChangePhase::Read,
                    ChangeAction::Archive(archived),
                ),
            }
        },
        (ChangePhase::ProfileRead, ChangeEvent::Profile(preset)) => match preset {
            Some(preset) => (ChangePhase::ProfileApplied, ChangeAction::ApplyProfile(preset)),
            None => moved_step(kind),
        },
        (ChangePhase::ProfileApplied, ChangeEvent::Done) => moved_step(kind),
        (ChangePhase::Changed, ChangeEvent::Done) => (ChangePhase::Read, ChangeAction::ReadSession),
        (ChangePhase::Read, ChangeEvent::Read(read)) => match read {
            None => change_refused(session_missing()),
            Some(session) => {
                let session = changed_session(kind, session);
                if session.durable {
                    (ChangePhase::Persisted(session), ChangeAction::AppendMeta)
                } else {
                    (ChangePhase::Indexed(session), ChangeAction::UpdateIndex)
                }
            },
        },
        (ChangePhase::Persisted(session), ChangeEvent::Written(failure)) => match failure {
            Some(error) => change_refused(change_unwritten(kind, error)),
            None => (ChangePhase::Indexed(session), ChangeAction::UpdateIndex),
        },
        (ChangePhase::Indexed(session), ChangeEvent::Done) => (
            ChangePhase::Announced(session),
            ChangeAction::Announce,
        ),
        (ChangePhase::Announced(session), ChangeEvent::Done) => (
            ChangePhase::Finished,
            ChangeAction::Answer(session),
        ),
        _ => (phase, ChangeAction::Ignore),
    }
}

/// Begins a change.
pub fn begin_change(kind: &ChangeKind) -> (r: (ChangePhase, ChangeAction))
    ensures
        r == change_start(*kind),
{
    match kind {
        ChangeKind::Cwd(_) => (ChangePhase::Directory, ChangeAction::CheckDirectory),
        ChangeKind::Archive(_) => (ChangePhase::Loaded, ChangeAction::Load),
    }
}

fn stop(why: Rejection) -> (r: (ChangePhase, ChangeAction))
    ensures
        r == change_refused(why),
{
    (ChangePhase::Finished, ChangeAction::Reject(why))
}

fn move_session(kind: &ChangeKind) -> (r: (ChangePhase, ChangeAction))
    ensures
        r == moved_step(*kind),
{
    match kind {
        ChangeKind::Cwd(cwd) => (ChangePhase::Changed, ChangeAction::Move(cwd.clone())),
        ChangeKind::Archive(archived) => (ChangePhase::Read, ChangeAction::Archive(*archived)),
    }
}

/// The version of a session after a change, as far as the counter goes.
pub fn next_version(version: u64) -> (r: u64)
    ensures
        r == version_after(version),
{
    if version == u64::MAX {
        version
    } else {
        version + 1
    }
}

fn change_session(kind: &ChangeKind, session: ChangedSession) -> (r: ChangedSession)
    ensures
        r == changed_session(*kind, session),
{
    match kind {
        ChangeKind::Cwd(cwd) => ChangedSession {
            cwd: cwd.clone(),
            version: next_version(session.version),
            ..session
        },
        ChangeKind::Archive(_) => session,
    }
}

/// Takes a change one step further.
pub fn advance_change(kind: &ChangeKind, phase: ChangePhase, event: ChangeEvent) -> (r: (
    ChangePhase,
    ChangeAction,
))
    ensures
        r == change_step(*kind, phase, event),
{
    match (phase, event) {
        (ChangePhase::Directory, ChangeEvent::Directory(found, shown)) => match validate_session_cwd(found) {
            Ok(()) => (ChangePhase::Workspace, ChangeAction::OpenWorkspace),
            Err(CwdError::Denied) => stop(
                reject_about(ErrorCode::PermissionDenied, "cwd is not readable: ", shown),
            ),
            Err(CwdError::Invalid) => stop(
                reject_about(
                    ErrorCode::InvalidParams,
                    "cwd is not an accessible directory: ",
                    shown,
                ),
            ),
        },
        (ChangePhase::Workspace, ChangeEvent::Workspace(failure)) => match failure {
            Some(error) => stop(
                reject_about(
                    ErrorCode::InternalError,
                    "failed to initialize session workspace: ",
                    error,
                ),
            ),
            None => (ChangePhase::Loaded, ChangeAction::Load),
        },
        (ChangePhase::Loaded, ChangeEvent::Loaded(loaded)) => if !loaded {
            stop(reject_session_missing())
        } else {
            match kind {
                ChangeKind::Cwd(_) => (ChangePhase::ProfileRead, ChangeAction::ReadProfile),
                ChangeKind::Archive(archived) => (
                    ChangePhase::Read,
                    ChangeAction::Archive(*archived),
                ),
            }
        },
        (ChangePhase::ProfileRead, ChangeEvent::Profile(preset)) => match preset {
            Some(preset) => (ChangePhase::ProfileApplied, ChangeAction::ApplyProfile(preset)),
            None => move_session(kind),
        },
        (ChangePhase::ProfileApplied, ChangeEvent::Done) => move_session(kind),
        (ChangePhase::Changed, ChangeEvent::Done) => (ChangePhase::Read, ChangeAction::ReadSession),
        (ChangePhase::Read, ChangeEvent::Read(read)) => match read {
            None => stop(reject_session_missing()),
            Some(session) => {
                let session = change_session(kind, session);
                if session.durable {
                    (ChangePhase::Persisted(session), ChangeAction::AppendMeta)
                } else {
                    (ChangePhase::Indexed(session), ChangeAction::UpdateIndex)
                }
            },
        },
        (ChangePhase::Persisted(session), ChangeEvent::Written(failure)) => match failure {
            Some(error) => match kind {
                ChangeKind::Cwd(_) => stop(
                    reject_about(
                        ErrorCode::InternalError,
                        "failed to persist session cwd change: ",
                        error,
                    ),
                ),
                ChangeKind::Archive(_) => stop(
                    reject_about(
                        ErrorCode::InternalError,
                        "failed to persist session archive: ",
                        error,
                    ),
                ),
            },
            None => (ChangePhase::Indexed(session), ChangeAction::UpdateIndex),
        },
        (ChangePhase::Indexed(session), ChangeEvent::Done) => (
            ChangePhase::Announced(session),
            ChangeAction::Announce,
        ),
        (ChangePhase::Announced(session), ChangeEvent::Done) => (
            ChangePhase::Finished,
            ChangeAction::Answer(session),
        ),
        (phase, _) => (phase, ChangeAction::Ignore),
    }
}

/// A change of a session that could not be recorded is not announced.
pub proof fn law_unrecorded_changes_stay_silent(
    kind: ChangeKind,
    session: ChangedSession,
    error: String,
)
    ensures
        change_step(
            kind,
            ChangePhase::Persisted(session),
            ChangeEvent::Written(Some(error)),
        ) == change_refused(change_unwritten(kind, error)),
{
}

/// A session that moves is recorded in its new directory, under a new version
/// as far as there is one.
pub proof fn law_moves_are_recorded(cwd: String, session: ChangedSession)
    ensures
        ({
            let step = change_step(
                ChangeKind::Cwd(cwd),
                ChangePhase::Read,
                ChangeEvent::Read(Some(session)),
            );
            let after = changed_session(ChangeKind::Cwd(cwd), session);
            &&& step.0 == if session.durable {
                ChangePhase::Persisted(after)
            } else {
                ChangePhase::Indexed(after)
            }
            &&& after.cwd == cwd
            &&& after.archived == session.archived
            &&& session.version < u64::MAX ==> after.version == session.version + 1
        }),
{
}

/// The place of a turn in a history, or the answer where it is not there.
pub fn find_turn(turns: &Vec<TurnId>, turn: TurnId) -> (r: Result<usize, Rejection>)
    ensures
        match r {
            Ok(place) => {
                &&& place < turns@.len()
                &&& turns@[place as int] == turn
                &&& forall|i: int| 0 <= i < place ==> #[trigger] turns@[i] != turn
            },
            Err(why) => {
                &&& !turns@.contains(turn)
                &&& why == rejection(ErrorCode::TurnNotFound, "turn does not exist")
            },
        },
{
    let mut i: usize = 0;
    while i < turns.len()
        invariant
            i <= turns@.len(),
            forall|j: int| 0 <= j < i ==> #[trigger] turns@[j] != turn,
        decreases turns@.len() - i,
    {
        if turns[i] == turn {
            return Ok(i);
        }
        i = i + 1;
    }
    Err(reject(ErrorCode::TurnNotFound, "turn does not exist"))
}

/// What text is still being written.
#[derive(Clone, Copy, Debug, PartialEq, Eq, Structural)]
pub enum DeltaChannel {
    AssistantMessage,
    Reasoning,
}

/// An item that is still being written, with the text so far.
#[derive(Debug)]
pub struct LiveItem {
    pub session: SessionId,
    pub turn: TurnId,
    pub item: ItemId,
    pub seq: u64,
    pub revision: u64,
    pub channel: DeltaChannel,
    pub text: String,
    /// The number of the next piece of text.
    pub next_chunk: u64,
}

/// An item that is still being written. The text replaces what a client has:
/// pieces are numbered from the start again.
pub fn live_item_snapshot(
    session: SessionId,
    turn: TurnId,
    item: ItemId,
    seq: u64,
    channel: DeltaChannel,
    text: String,
) -> (r: LiveItem)
    ensures
        r == (LiveItem { session, turn, item, seq, revision: 1, channel, text, next_chunk: 0 }),
{
    LiveItem { session, turn, item, seq, revision: 1, channel, text, next_chunk: 0 }
}

/// What an interrupt waits for.
#[derive(Clone, Copy, Debug, PartialEq, Eq, Structural)]
pub enum InterruptPhase {
    Session,
    ActiveTurn,
    TurnInterrupted,
    SavedTurnCanceled,
    TasksEnded { turn: bool },
    Delegated,
    Finished,
}

/// What the host observed during an interrupt.
#[derive(Debug)]
pub enum InterruptEvent {
    SessionFound(bool),
    ActiveTurn(Option<TurnId>),
    /// Whether the turn could be interrupted.
    TurnInterrupted(bool),
    SavedTurnCanceled(Result<bool, String>),
    TasksEnded(usize),
    /// Whether the task or the command could be ended.
    Delegated(bool),
}

/// What the host has to do for an interrupt.
#[derive(Debug)]
pub enum InterruptAction {
    /// Find the session.
    FindSession,
    /// Read which turn of the session is running.
    ReadActiveTurn,
    /// Interrupt the turn.
    InterruptTurn(TurnId),
    /// Cancel the saved turn of the session, if it has one.
    CancelSavedTurn,
    /// End the tasks that run in the background of the session.
    EndTasks,
    /// Interrupt the task.
    InterruptTask,
    /// End the command.
    EndCommand,
    /// Whether anything was interrupted.
    Answer(bool),
    /// Answer as ending the task or the command was refused.
    PassOn,
    /// Refuse to interrupt.
    Reject(Rejection),
    /// Nothing: the event does not belong to the phase.
    Ignore,
}

/// What is interrupted.
#[derive(Clone, Copy, Debug, PartialEq, Eq, Structural)]
pub enum InterruptScope {
    Session,
    Task,
    Command,
}

/// The first step of an interrupt.
pub open spec fn interrupt_start(scope: InterruptScope) -> (InterruptPhase, InterruptAction) {
    match scope {
        InterruptScope::Session => (InterruptPhase::Session, InterruptAction::FindSession),
        InterruptScope::Task => (InterruptPhase::Delegated, InterruptAction::InterruptTask),
        InterruptScope::Command => (InterruptPhase::Delegated, InterruptAction::EndCommand),
    }
}

/// The next step of an interrupt.
pub open spec fn interrupt_step(phase: InterruptPhase, event: InterruptEvent) -> (
    InterruptPhase,
    InterruptAction,
) {
    match (phase, event) {
        (InterruptPhase::Session, InterruptEvent::SessionFound(found)) => if found {
            (InterruptPhase::ActiveTurn, InterruptAction::ReadActiveTurn)
        } else {
            (InterruptPhase::Finished, InterruptAction::Reject(session_missing()))
        },
        (InterruptPhase::ActiveTurn, InterruptEvent::ActiveTurn(active)) => match active {
            Some(turn) => (InterruptPhase::TurnInterrupted, InterruptAction::InterruptTurn(turn)),
            None => (InterruptPhase::SavedTurnCanceled, InterruptAction::CancelSavedTurn),
        },
        (InterruptPhase::TurnInterrupted, InterruptEvent::TurnInterrupted(done)) => if done {
            (InterruptPhase::TasksEnded { turn: true }, InterruptAction::EndTasks)
        } else {
            (
                InterruptPhase::Finished,
                InterruptAction::Reject(
                    rejection(
                        ErrorCode::InternalError,
                        "failed to interrupt active session turn",
                    ),
                ),
            )
        },
        (InterruptPhase::SavedTurnCanceled, InterruptEvent::SavedTurnCanceled(canceled)) => match canceled {
            Ok(turn) => (InterruptPhase::TasksEnded { turn }, InterruptAction::EndTasks),
            Err(error) => (
                InterruptPhase::Finished,
                InterruptAction::Reject(rejection_about(ErrorCode::InternalError, "", error)),
            ),
        },
        (InterruptPhase::TasksEnded { turn }, InterruptEvent::TasksEnded(count)) => (
            InterruptPhase::Finished,
            InterruptAction::Answer(turn || count > 0),
        ),
        (InterruptPhase::Delegated, InterruptEvent::Delegated(done)) => if done {
            (InterruptPhase::Finished, InterruptAction::Answer(true))
        } else {
            (InterruptPhase::Finished, InterruptAction::PassOn)
        },
        _ => (phase, InterruptAction::Ignore),
    }
}

/// Begins an interrupt.
pub fn begin_interrupt(scope: InterruptScope) -> (r: (InterruptPhase, InterruptAction))
    ensures
        r == interrupt_start(scope),
{
    match scope {
        InterruptScope::Session => (InterruptPhase::Session, InterruptAction::FindSession),
        InterruptScope::Task => (InterruptPhase::Delegated, InterruptAction::InterruptTask),
        InterruptScope::Command => (InterruptPhase::Delegated, InterruptAction::EndCommand),
    }
}

/// Takes an interrupt one step further.
pub fn advance_interrupt(phase: InterruptPhase, event: InterruptEvent) -> (r: (
    InterruptPhase,
    InterruptAction,
))
    ensures
        r == interrupt_step(phase, event),
{
    match (phase, event) {
        (InterruptPhase::Session, InterruptEvent::SessionFound(found)) => {
            if found {
                (InterruptPhase::ActiveTurn, InterruptAction::ReadActiveTurn)
            } else {
                (InterruptPhase::Finished, InterruptAction::Reject(reject_session_missing()))
            }
        },
        (InterruptPhase::ActiveTurn, InterruptEvent::ActiveTurn(active)) => match active {
            Some(turn) => (InterruptPhase::TurnInterrupted, InterruptAction::InterruptTurn(turn)),
            None => (InterruptPhase::SavedTurnCanceled, InterruptAction::CancelSavedTurn),
        },
        (InterruptPhase::TurnInterrupted, InterruptEvent::TurnInterrupted(done)) => {
            if done {
                (InterruptPhase::TasksEnded { turn: true }, InterruptAction::EndTasks)
            } else {
                (
                    InterruptPhase::Finished,
                    InterruptAction::Reject(
                        reject(
                            ErrorCode::InternalError,
                            "failed to interrupt active session turn",
                        ),
                    ),
                )
            }
        },
        (InterruptPhase::SavedTurnCanceled, InterruptEvent::SavedTurnCanceled(canceled)) => match canceled {
            Ok(turn) => (InterruptPhase::TasksEnded { turn }, InterruptAction::EndTasks),
            Err(error) => (
                InterruptPhase::Finished,
                InterruptAction::Reject(reject_about(ErrorCode::InternalError, "", error)),
            ),
        },
        (InterruptPhase::TasksEnded { turn }, InterruptEvent::TasksEnded(count)) => (
            InterruptPhase::Finished,
            InterruptAction::Answer(turn || count > 0),
        ),
        (InterruptPhase::Delegated, InterruptEvent::Delegated(done)) => {
            if done {
                (InterruptPhase::Finished, InterruptAction::Answer(true))
            } else {
                (InterruptPhase::Finished, InterruptAction::PassOn)
            }
        },
        (phase, _) => (phase, InterruptAction::Ignore),
    }
}

/// A session is moved to a directory that can be opened: the profile is applied
/// anew, the session moves, and the next version of it is written down where it
/// is kept, indexed, announced and answered.
pub proof fn law_sessions_move_where_asked(
    cwd: String,
    shown: String,
    preset: Option<PermissionPreset>,
    session: ChangedSession,
)
    requires
        session.version < u64::MAX,
    ensures
        ({
            let kind = ChangeKind::Cwd(cwd);
            let a = change_start(kind);
            let b = change_step(kind, a.0, ChangeEvent::Directory(PathFound::Directory, shown));
            let c = change_step(kind, b.0, ChangeEvent::Workspace(None));
            let d = change_step(kind, c.0, ChangeEvent::Loaded(true));
            let e = change_step(kind, d.0, ChangeEvent::Profile(preset));
            let f = if preset is Some {
                change_step(kind, e.0, ChangeEvent::Done)
            } else {
                e
            };
            let g = change_step(kind, f.0, ChangeEvent::Done);
            let h = change_step(kind, g.0, ChangeEvent::Read(Some(session)));
            let i = if session.durable {
                change_step(kind, h.0, ChangeEvent::Written(None))
            } else {
                h
            };
            let j = change_step(kind, i.0, ChangeEvent::Done);
            let k = change_step(kind, j.0, ChangeEvent::Done);
            &&& a.1 is CheckDirectory
            &&& b.1 is OpenWorkspace
            &&& c.1 is Load
            &&& d.1 is ReadProfile
            &&& preset is Some ==> e.1 == ChangeAction::ApplyProfile(preset->0)
            &&& f.1 == ChangeAction::Move(cwd)
            &&& g.1 is ReadSession
            &&& session.durable ==> h.1 is AppendMeta
            &&& i.1 is UpdateIndex
            &&& j.1 is Announce
            &&& k.1 matches ChangeAction::Answer(after) && after.cwd == cwd && after.version
                == session.version + 1 && after.archived == session.archived && after.durable
                == session.durable
        }),
{
}

/// A session is archived, or taken out of the archive, as asked, and is answered
/// as it then is.
pub proof fn law_sessions_are_archived_as_asked(archived: bool, session: ChangedSession)
    ensures
        ({
            let kind = ChangeKind::Archive(archived);
            let a = change_start(kind);
            let b = change_step(kind, a.0, ChangeEvent::Loaded(true));
            let c = change_step(kind, b.0, ChangeEvent::Read(Some(session)));
            let d = if session.durable {
                change_step(kind, c.0, ChangeEvent::Written(None))
            } else {
                c
            };
            let e = change_step(kind, d.0, ChangeEvent::Done);
            let f = change_step(kind, e.0, ChangeEvent::Done);
            &&& a.1 is Load
            &&& b.1 == ChangeAction::Archive(archived)
            &&& session.durable ==> c.1 is AppendMeta
            &&& d.1 is UpdateIndex
            &&& e.1 is Announce
            &&& f.1 == ChangeAction::Answer(session)
        }),
{
}

/// A change that cannot be made is answered with the reason.
pub proof fn law_unmade_changes_say_why(
    kind: ChangeKind,
    session: ChangedSession,
    shown: String,
    error: String,
)
    ensures
        change_step(
            kind,
            ChangePhase::Directory,
            ChangeEvent::Directory(PathFound::Denied, shown),
        ).1 matches ChangeAction::Reject(why) && why.code is PermissionDenied && why.detail == Some(
            shown,
        ),
        change_step(
            kind,
            ChangePhase::Directory,
            ChangeEvent::Directory(PathFound::Other, shown),
        ).1 matches ChangeAction::Reject(why) && why.code is InvalidParams && why.detail == Some(
            shown,
        ),
        change_step(
            kind,
            ChangePhase::Directory,
            ChangeEvent::Directory(PathFound::Unreadable, shown),
        ).1 matches ChangeAction::Reject(why) && why.code is InvalidParams && why.detail == Some(
            shown,
        ),
        change_step(kind, ChangePhase::Workspace, ChangeEvent::Workspace(Some(error))).1 matches
            ChangeAction::Reject(why) && why.code is InternalError && why.detail == Some(error),
        change_step(kind, ChangePhase::Loaded, ChangeEvent::Loaded(false)).1 matches
            ChangeAction::Reject(why) && why.code is SessionNotFound,
        change_step(kind, ChangePhase::Read, ChangeEvent::Read(None)).1 matches
            ChangeAction::Reject(why) && why.code is SessionNotFound,
        change_step(
            kind,
            ChangePhase::Persisted(session),
            ChangeEvent::Written(Some(error)),
        ).1 matches ChangeAction::Reject(why) && why.code is InternalError && why.detail == Some(
            error,
        ),
{
}

/// Interrupting a session ends what runs in it: its turn, or else the turn that
/// was saved, and its tasks. The client is told whether there was anything.
pub proof fn law_interrupts_end_what_runs(turn: TurnId, saved: bool, tasks: usize, error: String)
    ensures
        ({
            let a = interrupt_start(InterruptScope::Session);
            let b = interrupt_step(a.0, InterruptEvent::SessionFound(true));
            let c = interrupt_step(b.0, InterruptEvent::ActiveTurn(Some(turn)));
            let d = interrupt_step(c.0, InterruptEvent::TurnInterrupted(true));
            let e = interrupt_step(b.0, InterruptEvent::ActiveTurn(None));
            let f = interrupt_step(e.0, InterruptEvent::SavedTurnCanceled(Ok(saved)));
            &&& a.1 is FindSession
            &&& b.1 is ReadActiveTurn
            &&& c.1 == InterruptAction::InterruptTurn(turn)
            &&& d.1 is EndTasks
            &&& interrupt_step(d.0, InterruptEvent::TasksEnded(tasks)).1 == InterruptAction::Answer(
                true,
            )
            &&& e.1 is CancelSavedTurn
            &&& f.1 is EndTasks
            &&& interrupt_step(f.0, InterruptEvent::TasksEnded(tasks)).1 == InterruptAction::Answer(
                saved || tasks > 0,
            )
            &&& interrupt_step(a.0, InterruptEvent::SessionFound(false)).1 matches
                InterruptAction::Reject(why) && why.code is SessionNotFound
            &&& interrupt_step(c.0, InterruptEvent::TurnInterrupted(false)).1 matches
                InterruptAction::Reject(why) && why.code is InternalError
            &&& interrupt_step(e.0, InterruptEvent::SavedTurnCanceled(Err(error))).1 matches
                InterruptAction::Reject(why) && why.code is InternalError && why.detail == Some(
                error,
            )
        }),
{
}

/// A single task or command is interrupted by itself.
pub proof fn law_interrupts_have_their_scope(done: bool)
    ensures
        interrupt_start(InterruptScope::Task).1 is InterruptTask,
        interrupt_start(InterruptScope::Command).1 is EndCommand,
        interrupt_step(
            interrupt_start(InterruptScope::Task).0,
            InterruptEvent::Delegated(true),
        ).1 == InterruptAction::Answer(true),
        interrupt_step(
            interrupt_start(InterruptScope::Command).0,
            InterruptEvent::Delegated(true),
        ).1 == InterruptAction::Answer(true),
        interrupt_step(
            interrupt_start(InterruptScope::Task).0,
            InterruptEvent::Delegated(false),
        ).1 is PassOn,
        interrupt_step(
            interrupt_start(InterruptScope::Command).0,
            InterruptEvent::Delegated(false),
        ).1 is PassOn,
{
}

} // verus!
