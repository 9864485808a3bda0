//! Starting, reading, resuming and forking sessions.

use crate::compaction::UsageTotals;
use crate::message_edit::SessionItem;
use crate::paths::Component;
use crate::protocol::{
    reject, reject_about, reject_quoting, reject_session_missing, rejection, rejection_about,
    rejection_quoting, session_missing, ErrorCode, Rejection, SessionId, TurnId,
};
use crate::session_fork::{ForkCut, ForkOptions};
use crate::session_metadata::{
    native_permission_profile, permission_profile, CollaborationMode, LoadFailure, PermissionPreset,
};
use crate::text::{contains, occurs_in};
use crate::turn_cut::{no_usage, user_turn_ids, user_turns, ContextOccupancy};
use vstd::prelude::*;

verus! {

/// The model that a new session asks for: a binding goes before a name.
pub open spec fn model_wanted(binding: Option<String>, model: Option<String>) -> Option<String> {
    if binding is Some {
        binding
    } else {
        model
    }
}

/// The model that a new session asks for: a binding goes before a name.
pub fn requested_model(binding: &Option<String>, model: &Option<String>) -> (r: Option<String>)
    ensures
        r == model_wanted(*binding, *model),
{
    match (binding, model) {
        (Some(binding), _) => Some(binding.clone()),
        (None, Some(model)) => Some(model.clone()),
        (None, None) => None,
    }
}

/// How a session came by its title.
#[derive(Clone, Copy, Debug, PartialEq, Eq, Structural)]
pub enum TitleState {
    Unset,
    /// It was given when the session was created.
    ExplicitCreate,
}

/// How a new session comes by its title.
pub fn initial_title_state(title_given: bool) -> (r: TitleState)
    ensures
        r == if title_given {
            TitleState::ExplicitCreate
        } else {
            TitleState::Unset
        },
{
    if title_given {
        TitleState::ExplicitCreate
    } else {
        TitleState::Unset
    }
}

/// A session that a client wants to be started.
#[derive(Debug)]
pub struct StartSessionRequest {
    pub session: SessionId,
    pub cwd: Vec<Component>,
    pub directories: Vec<Vec<Component>>,
    pub title: Option<String>,
    pub ephemeral: bool,
    pub model: Option<String>,
    pub binding: Option<String>,
    pub now: i64,
}

/// What the workspace of a new session says of it: the model that was found,
/// the tokens after which it compacts, and the permissions.
#[derive(Debug)]
pub struct StartFacts {
    pub model: String,
    pub binding: Option<String>,
    pub window: u64,
    pub preset: PermissionPreset,
}

/// What a new session shows of itself.
#[derive(Debug)]
pub struct SessionSummary {
    pub session: SessionId,
    pub cwd: Vec<Component>,
    pub directories: Vec<Vec<Component>>,
    pub title: Option<String>,
    pub title_state: TitleState,
    pub parent: Option<SessionId>,
    pub fork_from: Option<SessionId>,
    pub fork_at: Option<TurnId>,
    pub ephemeral: bool,
    pub model: Option<String>,
    pub binding: Option<String>,
    pub effort: Option<String>,
    pub totals: UsageTotals,
    pub prompt_token_estimate: u64,
    pub last_query_total_tokens: u64,
    pub occupancy: Option<ContextOccupancy>,
    pub status: SessionStatus,
    pub mode: CollaborationMode,
    pub window: Option<u64>,
    pub preset: Option<PermissionPreset>,
    pub created_at: i64,
    pub updated_at: i64,
    pub last_activity_at: i64,
}

/// What a new session shows of itself: it has used nothing and does nothing.
pub open spec fn new_summary(request: StartSessionRequest, facts: StartFacts) -> SessionSummary {
    SessionSummary {
        session: request.session,
        cwd: request.cwd,
        directories: request.directories,
        title: request.title,
        title_state: if request.title is Some {
            TitleState::ExplicitCreate
        } else {
            TitleState::Unset
        },
        parent: None,
        fork_from: None,
        fork_at: None,
        ephemeral: request.ephemeral,
        model: Some(facts.model),
        binding: facts.binding,
        effort: None,
        totals: no_usage(),
        prompt_token_estimate: 0,
        last_query_total_tokens: 0,
        occupancy: None,
        status: SessionStatus::Idle,
        mode: CollaborationMode::Build,
        window: Some(facts.window),
        preset: Some(facts.preset),
        created_at: request.now,
        updated_at: request.now,
        last_activity_at: request.now,
    }
}

/// Makes what a new session shows of itself.
pub fn start_summary(request: StartSessionRequest, facts: StartFacts) -> (r: SessionSummary)
    ensures
        r == new_summary(request, facts),
{
    let title_state = initial_title_state(request.title.is_some());
    SessionSummary {
        session: request.session,
        cwd: request.cwd,
        directories: request.directories,
        title: request.title,
        title_state,
        parent: None,
        fork_from: None,
        fork_at: None,
        ephemeral: request.ephemeral,
        model: Some(facts.model),
        binding: facts.binding,
        effort: None,
        totals: UsageTotals { input: 0, output: 0, total: 0, cache_creation: 0, cache_read: 0 },
        prompt_token_estimate: 0,
        last_query_total_tokens: 0,
        occupancy: None,
        status: SessionStatus::Idle,
        mode: CollaborationMode::Build,
        window: Some(facts.window),
        preset: Some(facts.preset),
        created_at: request.now,
        updated_at: request.now,
        last_activity_at: request.now,
    }
}

/// What starting a session waits for. The session that is being started goes
/// with it.
#[derive(Debug)]
pub enum StartSessionPhase {
    Workspace(StartSessionRequest),
    Model(StartSessionRequest),
    MetaWritten(SessionSummary),
    Inserted(SessionSummary),
    Subscribed(SessionSummary),
    Settled(SessionSummary),
    IndexWritten(SessionSummary),
    Announced(SessionSummary),
    HookRun(SessionSummary),
    Finished,
}

/// What the host observed while a session is started.
#[derive(Debug)]
pub enum StartSessionEvent {
    /// Why the workspace cannot be used, if it cannot.
    Workspace(Option<String>),
    Resolved(StartFacts),
    Written(Option<String>),
    Done,
}

/// What the host has to do to start a session. The session is in the phase.
#[derive(Debug)]
pub enum StartSessionAction {
    /// Open the workspace of the directory.
    OpenWorkspace,
    /// Find the model that is asked for, or that of the workspace, and what the
    /// workspace says of a session with it.
    ResolveModel(Option<String>),
    /// Append the session to a new rollout.
    AppendMeta,
    /// Take the session into the runtime, with no turn, no item and an empty
    /// queue.
    InsertSession,
    /// Send the client what happens in the session.
    Subscribe(SessionId),
    /// Let the runtime do what follows a new session.
    Settle(SessionId),
    /// Note the session in the index. That this fails makes no difference.
    UpsertIndex,
    /// Tell the clients of the session.
    Announce,
    /// Run the hook for sessions that start, with the model.
    RunHook,
    /// Answer with the session.
    Answer(SessionSummary),
    /// Refuse to start the session.
    Reject(Rejection),
    /// Nothing: the event does not belong to the phase.
    Ignore,
}

/// Begins to start a session.
pub fn begin_start_session(request: StartSessionRequest) -> (r: (
    StartSessionPhase,
    StartSessionAction,
))
    ensures
        r == (StartSessionPhase::Workspace(request), StartSessionAction::OpenWorkspace),
{
    (StartSessionPhase::Workspace(request), StartSessionAction::OpenWorkspace)
}

/// The next step of starting a session. One that is not kept is recorded
/// nowhere.
pub open spec fn start_session_step(phase: StartSessionPhase, event: StartSessionEvent) -> (
    StartSessionPhase,
    StartSessionAction,
) {
    match (phase, event) {
        (StartSessionPhase::Workspace(request), StartSessionEvent::Workspace(failure)) => match failure {
            Some(error) => (
                StartSessionPhase::Finished,
                StartSessionAction::Reject(
                    rejection_about(
                        ErrorCode::InternalError,
                        "failed to initialize session workspace: ",
                        error,
                    ),
                ),
            ),
            None => (
                StartSessionPhase::Model(request),
                StartSessionAction::ResolveModel(model_wanted(request.binding, request.model)),
            ),
        },
        (StartSessionPhase::Model(request), StartSessionEvent::Resolved(facts)) => {
            let summary = new_summary(request, facts);
            if summary.ephemeral {
                (StartSessionPhase::Inserted(summary), StartSessionAction::InsertSession)
            } else {
                (StartSessionPhase::MetaWritten(summary), StartSessionAction::AppendMeta)
            }
        },
        (StartSessionPhase::MetaWritten(summary), StartSessionEvent::Written(failure)) => match failure {
            Some(error) => (
                StartSessionPhase::Finished,
                StartSessionAction::Reject(
                    rejection_about(
                        ErrorCode::InternalError,
                        "failed to persist session metadata: ",
                        error,
                    ),
                ),
            ),
            None => (StartSessionPhase::Inserted(summary), StartSessionAction::InsertSession),
        },
        (StartSessionPhase::Inserted(summary), StartSessionEvent::Done) => {
            let session = summary.session;
            (StartSessionPhase::Subscribed(summary), StartSessionAction::Subscribe(session))
        },
        (StartSessionPhase::Subscribed(summary), StartSessionEvent::Done) => {
            let session = summary.session;
            (StartSessionPhase::Settled(summary), StartSessionAction::Settle(session))
        },
        (StartSessionPhase::Settled(summary), StartSessionEvent::Done) => if summary.ephemeral {
            (StartSessionPhase::Announced(summary), StartSessionAction::Announce)
        } else {
            (StartSessionPhase::IndexWritten(summary), StartSessionAction::UpsertIndex)
        },
        (StartSessionPhase::IndexWritten(summary), StartSessionEvent::Written(_)) => (
            StartSessionPhase::Announced(summary),
            StartSessionAction::Announce,
        ),
        (StartSessionPhase::Announced(summary), StartSessionEvent::Done) => (
            StartSessionPhase::HookRun(summary),
            StartSessionAction::RunHook,
        ),
        (StartSessionPhase::HookRun(summary), StartSessionEvent::Done) => (
            StartSessionPhase::Finished,
            StartSessionAction::Answer(summary),
        ),
        _ => (phase, StartSessionAction::Ignore),
    }
}

/// Takes starting a session one step further.
pub fn advance_start_session(phase: StartSessionPhase, event: StartSessionEvent) -> (r: (
    StartSessionPhase,
    StartSessionAction,
))
    ensures
        r == start_session_step(phase, event),
{
    match (phase, event) {
        (StartSessionPhase::Workspace(request), StartSessionEvent::Workspace(failure)) => match failure {
            Some(error) => (
                StartSessionPhase::Finished,
                StartSessionAction::Reject(
                    reject_about(
                        ErrorCode::InternalError,
                        "failed to initialize session workspace: ",
                        error,
                    ),
                ),
            ),
            None => {
                let wanted = requested_model(&request.binding, &request.model);
                (StartSessionPhase::Model(request), StartSessionAction::ResolveModel(wanted))
            },
        },
        (StartSessionPhase::Model(request), StartSessionEvent::Resolved(facts)) => {
            let summary = start_summary(request, facts);
            if summary.ephemeral {
                (StartSessionPhase::Inserted(summary), StartSessionAction::InsertSession)
            } else {
                (StartSessionPhase::MetaWritten(summary), StartSessionAction::AppendMeta)
            }
        },
        (StartSessionPhase::MetaWritten(summary), StartSessionEvent::Written(failure)) => match failure {
            Some(error) => (
                StartSessionPhase::Finished,
                StartSessionAction::Reject(
                    reject_about(
                        ErrorCode::InternalError,
                        "failed to persist session metadata: ",
                        error,
                    ),
                ),
            ),
            None => (StartSessionPhase::Inserted(summary), StartSessionAction::InsertSession),
        },
        (StartSessionPhase::Inserted(summary), StartSessionEvent::Done) => {
            let session = summary.session;
            (StartSessionPhase::Subscribed(summary), StartSessionAction::Subscribe(session))
        },
        (StartSessionPhase::Subscribed(summary), StartSessionEvent::Done) => {
            let session = summary.session;
            (StartSessionPhase::Settled(summary), StartSessionAction::Settle(session))
        },
        (StartSessionPhase::Settled(summary), StartSessionEvent::Done) => if summary.ephemeral {
            (StartSessionPhase::Announced(summary), StartSessionAction::Announce)
        } else {
            (StartSessionPhase::IndexWritten(summary), StartSessionAction::UpsertIndex)
        },
        (StartSessionPhase::IndexWritten(summary), StartSessionEvent::Written(_)) => (
            StartSessionPhase::Announced(summary),
            StartSessionAction::Announce,
        ),
        (StartSessionPhase::Announced(summary), StartSessionEvent::Done) => (
            StartSessionPhase::HookRun(summary),
            StartSessionAction::RunHook,
        ),
        (StartSessionPhase::HookRun(summary), StartSessionEvent::Done) => (
            StartSessionPhase::Finished,
            StartSessionAction::Answer(summary),
        ),
        (phase, _) => (phase, StartSessionAction::Ignore),
    }
}

/// Where starting a session stands after `events`.
pub open spec fn start_session_after(
    request: StartSessionRequest,
    events: Seq<StartSessionEvent>,
) -> StartSessionPhase
    decreases events.len(),
{
    if events.len() == 0 {
        StartSessionPhase::Workspace(request)
    } else {
        start_session_step(
            start_session_after(request, events.drop_last()),
            events.last(),
        ).0
    }
}

/// The session that a phase holds.
pub open spec fn session_in(phase: StartSessionPhase) -> Option<SessionSummary> {
    match phase {
        StartSessionPhase::MetaWritten(summary) => Some(summary),
        StartSessionPhase::Inserted(summary) => Some(summary),
        StartSessionPhase::Subscribed(summary) => Some(summary),
        StartSessionPhase::Settled(summary) => Some(summary),
        StartSessionPhase::IndexWritten(summary) => Some(summary),
        StartSessionPhase::Announced(summary) => Some(summary),
        StartSessionPhase::HookRun(summary) => Some(summary),
        _ => None,
    }
}

/// Whether `summary` is what the request comes to with facts that were found.
pub open spec fn comes_of(
    request: StartSessionRequest,
    events: Seq<StartSessionEvent>,
    summary: SessionSummary,
) -> bool {
    exists|i: int|
        {
            &&& 0 <= i < events.len()
            &&& #[trigger] events[i] matches StartSessionEvent::Resolved(facts) && summary
                == new_summary(request, facts)
        }
}

proof fn lemma_start_session_after(request: StartSessionRequest, events: Seq<StartSessionEvent>)
    ensures
        ({
            let phase = start_session_after(request, events);
            &&& phase matches StartSessionPhase::Workspace(held) ==> held == request
            &&& phase matches StartSessionPhase::Model(held) ==> held == request
            &&& session_in(phase) matches Some(summary) ==> comes_of(request, events, summary)
            &&& !request.ephemeral && session_in(phase) is Some && !(phase is MetaWritten)
                ==> events.contains(StartSessionEvent::Written(None))
            &&& request.ephemeral ==> !(phase is MetaWritten) && !(phase is IndexWritten)
        }),
    decreases events.len(),
{
    if events.len() > 0 {
        let before = events.drop_last();
        lemma_start_session_after(request, before);
        let wanted = StartSessionEvent::Written(None);
        assert(events[events.len() - 1] == events.last());
        assert(forall|i: int| 0 <= i < before.len() ==> before[i] == events[i]);
        if before.contains(wanted) {
            let i = choose|i: int| 0 <= i < before.len() && before[i] == wanted;
            assert(events[i] == wanted);
        }
        if let Some(summary) = session_in(start_session_after(request, before)) {
            assert(comes_of(request, events, summary)) by {
                let i = choose|i: int|
                    {
                        &&& 0 <= i < before.len()
                        &&& #[trigger] before[i] matches StartSessionEvent::Resolved(facts)
                            && summary == new_summary(request, facts)
                    };
                assert(events[i] == before[i]);
            }
        }
        if let Some(summary) = session_in(start_session_after(request, events)) {
            if events.last() is Resolved {
                assert(events[events.len() - 1] is Resolved);
            }
            assert(comes_of(request, events, summary));
        }
    }
}

/// A session that is kept is on record before anybody sees it, and one that is
/// not kept is never recorded.
pub proof fn law_sessions_are_recorded_first(
    request: StartSessionRequest,
    events: Seq<StartSessionEvent>,
    event: StartSessionEvent,
)
    ensures
        ({
            let action = start_session_step(start_session_after(request, events), event).1;
            &&& !request.ephemeral && (action is InsertSession || action is Announce
                || action is Answer) ==> events.push(event).contains(
                StartSessionEvent::Written(None),
            )
            &&& request.ephemeral ==> !(action is AppendMeta) && !(action is UpsertIndex)
        }),
{
    let all = events.push(event);
    assert(all.drop_last() =~= events);
    lemma_start_session_after(request, events);
    lemma_start_session_after(request, all);
    assert(all[all.len() - 1] == event);
    if events.contains(StartSessionEvent::Written(None)) {
        let i = choose|i: int| 0 <= i < events.len() && events[i] == StartSessionEvent::Written(None);
        assert(all[i] == StartSessionEvent::Written(None));
    }
}

/// What is recorded, shown and answered is the session that was asked for.
pub proof fn law_started_sessions_are_the_ones_asked_for(
    request: StartSessionRequest,
    events: Seq<StartSessionEvent>,
)
    ensures
        session_in(start_session_after(request, events)) matches Some(summary) ==> {
            &&& comes_of(request, events, summary)
            &&& summary.session == request.session
            &&& summary.ephemeral == request.ephemeral
            &&& summary.title == request.title
            &&& start_session_after(request, events) is HookRun ==> start_session_step(
                start_session_after(request, events),
                StartSessionEvent::Done,
            ).1 == StartSessionAction::Answer(summary)
        },
{
    lemma_start_session_after(request, events);
}

/// What a request for a new session waits for.
#[derive(Clone, Copy, Debug, PartialEq, Eq, Structural)]
pub enum NewSessionPhase {
    Replayed,
    Started,
    Subscribed(SessionId),
    Remembered(SessionId),
    SnapshotRead,
    Finished,
}

/// What the host observed during a request for a new session.
#[derive(Clone, Copy, Debug, PartialEq, Eq, Structural)]
pub enum NewSessionEvent {
    /// Whether the recorded session can be read.
    SnapshotRead(bool),
    /// The session, where it could be started.
    Started(Option<SessionId>),
    Done,
}

/// What the host has to do for a request for a new session.
#[derive(Clone, Copy, Debug, PartialEq, Eq, Structural)]
pub enum NewSessionAction {
    /// Read the session.
    ReadSnapshot(SessionId),
    /// Start a session.
    Start,
    /// Send the client what happens in the session.
    Subscribe(SessionId),
    /// Note the session for the request's key.
    Remember(SessionId),
    /// Answer with what was read.
    AnswerSnapshot,
    /// Answer as starting the session was answered.
    PassOn,
    /// Nothing: the event does not belong to the phase.
    Ignore,
}

/// The first step: a request whose key is known gets the session it led to.
pub open spec fn new_session_start(
    known: Option<SessionId>,
) -> (NewSessionPhase, NewSessionAction) {
    match known {
        Some(id) => (NewSessionPhase::Replayed, NewSessionAction::ReadSnapshot(id)),
        None => (NewSessionPhase::Started, NewSessionAction::Start),
    }
}

/// The next step of a request for a new session.
pub open spec fn new_session_step(phase: NewSessionPhase, event: NewSessionEvent) -> (
    NewSessionPhase,
    NewSessionAction,
) {
    match (phase, event) {
        (NewSessionPhase::Replayed, NewSessionEvent::SnapshotRead(read)) => if read {
            (NewSessionPhase::Finished, NewSessionAction::AnswerSnapshot)
        } else {
            (NewSessionPhase::Started, NewSessionAction::Start)
        },
        (NewSessionPhase::Started, NewSessionEvent::Started(started)) => match started {
            Some(id) => (NewSessionPhase::Subscribed(id), NewSessionAction::Subscribe(id)),
            None => (NewSessionPhase::Finished, NewSessionAction::PassOn),
        },
        (NewSessionPhase::Subscribed(id), NewSessionEvent::Done) => (
            NewSessionPhase::Remembered(id),
            NewSessionAction::Remember(id),
        ),
        (NewSessionPhase::Remembered(id), NewSessionEvent::Done) => (
            NewSessionPhase::SnapshotRead,
            NewSessionAction::ReadSnapshot(id),
        ),
        (NewSessionPhase::SnapshotRead, NewSessionEvent::SnapshotRead(read)) => if read {
            (NewSessionPhase::Finished, NewSessionAction::AnswerSnapshot)
        } else {
            (NewSessionPhase::Finished, NewSessionAction::PassOn)
        },
        _ => (phase, NewSessionAction::Ignore),
    }
}

/// Begins a request for a new session.
pub fn begin_new_session(known: Option<SessionId>) -> (r: (NewSessionPhase, NewSessionAction))
    ensures
        r == new_session_start(known),
{
    match known {
        Some(id) => (NewSessionPhase::Replayed, NewSessionAction::ReadSnapshot(id)),
        None => (NewSessionPhase::Started, NewSessionAction::Start),
    }
}

/// Takes a request for a new session one step further.
pub fn advance_new_session(phase: NewSessionPhase, event: NewSessionEvent) -> (r: (
    NewSessionPhase,
    NewSessionAction,
))
    ensures
        r == new_session_step(phase, event),
{
    match (phase, event) {
        (NewSessionPhase::Replayed, NewSessionEvent::SnapshotRead(read)) => {
            if read {
                (NewSessionPhase::Finished, NewSessionAction::AnswerSnapshot)
            } else {
                (NewSessionPhase::Started, NewSessionAction::Start)
            }
        },
        (NewSessionPhase::Started, NewSessionEvent::Started(started)) => match started {
            Some(id) => (NewSessionPhase::Subscribed(id), NewSessionAction::Subscribe(id)),
            None => (NewSessionPhase::Finished, NewSessionAction::PassOn),
        },
        (NewSessionPhase::Subscribed(id), NewSessionEvent::Done) => (
            NewSessionPhase::Remembered(id),
            NewSessionAction::Remember(id),
        ),
        (NewSessionPhase::Remembered(id), NewSessionEvent::Done) => (
            NewSessionPhase::SnapshotRead,
            NewSessionAction::ReadSnapshot(id),
        ),
        (NewSessionPhase::SnapshotRead, NewSessionEvent::SnapshotRead(read)) => {
            if read {
                (NewSessionPhase::Finished, NewSessionAction::AnswerSnapshot)
            } else {
                (NewSessionPhase::Finished, NewSessionAction::PassOn)
            }
        },
        (phase, _) => (phase, NewSessionAction::Ignore),
    }
}

/// A repeated request starts no second session while the first can be read.
pub proof fn law_repeated_requests_start_nothing(known: SessionId)
    ensures
        new_session_step(
            new_session_start(Some(known)).0,
            NewSessionEvent::SnapshotRead(true),
        ) == (NewSessionPhase::Finished, NewSessionAction::AnswerSnapshot),
        new_session_start(Some(known)).1 == NewSessionAction::ReadSnapshot(known),
{
}

/// Where a session came from, as the index has it.
#[derive(Debug)]
pub struct IndexLineage {
    pub parent: Option<SessionId>,
    pub fork_from: Option<SessionId>,
    pub agent_path: bool,
    pub agent_role: Option<String>,
    pub agent_nickname: bool,
}

/// Whether a session belongs to an agent.
pub open spec fn is_agents(lineage: IndexLineage) -> bool {
    lineage.agent_path || lineage.agent_role is Some || lineage.agent_nickname
}

/// The session that started a session for an agent, with the agent's role. A
/// session of which nothing speaks of an agent has none.
pub open spec fn agent_parent(lineage: IndexLineage) -> Option<(SessionId, Option<String>)> {
    if lineage.parent is Some && is_agents(lineage) {
        Some((lineage.parent->0, lineage.agent_role))
    } else {
        None
    }
}

/// The session that a session was copied from: the one that is named, else the
/// parent of a session that is no agent's.
pub open spec fn copied_from(lineage: IndexLineage) -> Option<SessionId> {
    if lineage.fork_from is Some {
        lineage.fork_from
    } else if is_agents(lineage) {
        None
    } else {
        lineage.parent
    }
}

/// Where a session came from: the session and the role that started it for an
/// agent, and the session that it was copied from. The index has one parent
/// for both; a session that is no agent's was copied from it.
pub fn session_lineage(lineage: IndexLineage) -> (r: (
    Option<(SessionId, Option<String>)>,
    Option<SessionId>,
))
    ensures
        r.0 == agent_parent(lineage),
        r.1 == copied_from(lineage),
{
    let agents = lineage.agent_path || lineage.agent_role.is_some() || lineage.agent_nickname;
    let fork_from = match lineage.fork_from {
        Some(source) => Some(source),
        None => {
            if agents {
                None
            } else {
                lineage.parent
            }
        },
    };
    let parent = match lineage.parent {
        Some(parent) => {
            if agents {
                Some((parent, lineage.agent_role))
            } else {
                None
            }
        },
        None => None,
    };
    (parent, fork_from)
}

/// The provider that is shown where the index does not have one.
pub fn shown_provider(binding: Option<String>) -> (r: String)
    ensures
        r@ == match binding {
            Some(binding) => binding@,
            None => "unknown"@,
        },
{
    match binding {
        Some(binding) => binding,
        None => "unknown".to_owned(),
    }
}

/// An effort that the index has: the level that it stands for, if it stands for
/// one, and as it is shown.
#[derive(Debug)]
pub struct IndexedEffort {
    pub level: Option<String>,
    pub shown: String,
}

/// What the index has of a session.
#[derive(Debug)]
pub struct IndexedSession {
    pub session: SessionId,
    pub cwd: Vec<Component>,
    pub directories: Vec<Vec<Component>>,
    pub lineage: IndexLineage,
    pub fork_at: Option<TurnId>,
    pub ephemeral: bool,
    pub title: Option<String>,
    pub title_state: TitleState,
    pub model: Option<String>,
    pub binding: Option<String>,
    pub effort: Option<IndexedEffort>,
    pub preset: Option<PermissionPreset>,
    pub mode: CollaborationMode,
    pub totals: UsageTotals,
    pub created_at: i64,
    pub updated_at: i64,
    pub last_activity_at: i64,
}

/// A session as a client sees it that has no rollout.
#[derive(Debug)]
pub struct NativeSession {
    pub session: SessionId,
    pub version: u64,
    pub cwd: Vec<Component>,
    pub directories: Vec<Vec<Component>>,
    /// The session that started it for an agent, with the agent's role.
    pub parent: Option<(SessionId, Option<String>)>,
    pub fork_from: Option<SessionId>,
    pub fork_at: Option<TurnId>,
    pub ephemeral: bool,
    pub status: SessionStatus,
    pub archived: bool,
    pub active: Option<TurnId>,
    pub queued: u64,
    pub title: Option<String>,
    pub title_state: TitleState,
    pub provider: String,
    pub model: String,
    pub level: Option<String>,
    pub permission: PermissionPreset,
    pub effort: Option<String>,
    pub mode: CollaborationMode,
    pub sandbox: Option<String>,
    pub window: Option<u64>,
    pub totals: UsageTotals,
    pub created_at: i64,
    pub updated_at: i64,
    pub last_activity_at: i64,
}

/// Whether `shown` is what the index says of a session: idle, not archived,
/// with nothing queued, and under the first version.
pub open spec fn shows_indexed(row: IndexedSession, shown: NativeSession) -> bool {
    &&& shown.session == row.session
    &&& shown.version == 1
    &&& shown.cwd == row.cwd
    &&& shown.directories == row.directories
    &&& shown.parent == agent_parent(row.lineage)
    &&& shown.fork_from == copied_from(row.lineage)
    &&& shown.fork_at == row.fork_at
    &&& shown.ephemeral == row.ephemeral
    &&& shown.status is Idle
    &&& !shown.archived
    &&& shown.active is None
    &&& shown.queued == 0
    &&& shown.title == row.title
    &&& shown.title_state == row.title_state
    &&& shown.provider@ == match row.binding {
        Some(binding) => binding@,
        None => "unknown"@,
    }
    &&& shown.model@ == match row.model {
        Some(model) => model@,
        None => Seq::empty(),
    }
    &&& shown.level == match row.effort {
        Some(effort) => effort.level,
        None => None,
    }
    &&& shown.permission == permission_profile(row.preset)
    &&& shown.effort == match row.effort {
        Some(effort) => Some(effort.shown),
        None => None,
    }
    &&& shown.mode == row.mode
    &&& shown.sandbox is None
    &&& shown.window is None
    &&& shown.totals == row.totals
    &&& shown.created_at == row.created_at
    &&& shown.updated_at == row.updated_at
    &&& shown.last_activity_at == row.last_activity_at
}

/// Makes of the index what a client sees of a session that has no rollout.
pub fn native_session_from_index_metadata(row: IndexedSession) -> (r: NativeSession)
    ensures
        shows_indexed(row, r),
{
    let (parent, fork_from) = session_lineage(row.lineage);
    let model = match row.model {
        Some(model) => model,
        None => {
            let empty = String::new();
            assert(empty@ =~= Seq::empty());
            empty
        },
    };
    let (level, effort) = match row.effort {
        Some(effort) => (effort.level, Some(effort.shown)),
        None => (None, None),
    };
    NativeSession {
        session: row.session,
        version: 1,
        cwd: row.cwd,
        directories: row.directories,
        parent,
        fork_from,
        fork_at: row.fork_at,
        ephemeral: row.ephemeral,
        status: SessionStatus::Idle,
        archived: false,
        active: None,
        queued: 0,
        title: row.title,
        title_state: row.title_state,
        provider: shown_provider(row.binding),
        model,
        level,
        permission: native_permission_profile(row.preset),
        effort,
        mode: row.mode,
        sandbox: None,
        window: None,
        totals: row.totals,
        created_at: row.created_at,
        updated_at: row.updated_at,
        last_activity_at: row.last_activity_at,
    }
}

/// A session has a parent or a source in the index, and never its one parent as
/// both: an agent's session is nobody's copy unless a source is named.
pub proof fn law_a_parent_is_an_agents_or_a_source(lineage: IndexLineage)
    ensures
        agent_parent(lineage) is Some ==> copied_from(lineage) == lineage.fork_from,
        agent_parent(lineage) is None && lineage.fork_from is None && lineage.parent is Some
            ==> copied_from(lineage) == lineage.parent,
{
}

/// Whether a session works.
#[derive(Clone, Copy, Debug, PartialEq, Eq, Structural)]
pub enum SessionStatus {
    Idle,
    Active,
}

/// What a session shows of the turn that is running.
pub open spec fn activity_shown(active_turn: Option<TurnId>) -> (SessionStatus, Option<TurnId>) {
    (
        if active_turn is Some {
            SessionStatus::Active
        } else {
            SessionStatus::Idle
        },
        active_turn,
    )
}

/// What a session shows of the turn that is running: what is recorded of it
/// would say that it is idle.
pub fn live_session_fields(active_turn: Option<TurnId>) -> (r: (SessionStatus, Option<TurnId>))
    ensures
        r == activity_shown(active_turn),
{
    match active_turn {
        Some(turn) => (SessionStatus::Active, Some(turn)),
        None => (SessionStatus::Idle, None),
    }
}

/// The answer to an identifier that is none of this server's.
pub open spec fn not_addressable() -> Rejection {
    rejection(ErrorCode::SessionNotFound, "session id is not addressable by this server")
}

/// Why a session cannot be read, if it cannot.
pub open spec fn read_refusal(addressable: bool, readable: bool) -> Option<Rejection> {
    if !addressable {
        Some(not_addressable())
    } else if !readable {
        Some(session_missing())
    } else {
        None
    }
}

/// Whether a session can be read; says why it cannot.
pub fn check_session_read(addressable: bool, readable: bool) -> (r: Option<Rejection>)
    ensures
        r == read_refusal(addressable, readable),
{
    if !addressable {
        Some(reject(ErrorCode::SessionNotFound, "session id is not addressable by this server"))
    } else if !readable {
        Some(reject_session_missing())
    } else {
        None
    }
}

/// The answer where a session cannot be loaded.
pub open spec fn resume_refusal(failure: LoadFailure) -> Rejection {
    match failure {
        LoadFailure::NotFound => session_missing(),
        LoadFailure::Subagent(parent) => rejection_quoting(
            ErrorCode::InvalidParams,
            "subagent sessions cannot be resumed directly; resume the parent session ",
            parent,
            " instead",
        ),
        LoadFailure::RolloutMissing => rejection(
            ErrorCode::InternalError,
            "session metadata exists but rollout file is missing; session cannot be restored",
        ),
        LoadFailure::RestoreFailed(message) => rejection_about(
            ErrorCode::InternalError,
            "failed to restore session: ",
            message,
        ),
    }
}

fn refuse_resume(failure: LoadFailure) -> (r: Rejection)
    ensures
        r == resume_refusal(failure),
{
    match failure {
        LoadFailure::NotFound => reject_session_missing(),
        LoadFailure::Subagent(parent) => reject_quoting(
            ErrorCode::InvalidParams,
            "subagent sessions cannot be resumed directly; resume the parent session ",
            parent,
            " instead",
        ),
        LoadFailure::RolloutMissing => reject(
            ErrorCode::InternalError,
            "session metadata exists but rollout file is missing; session cannot be restored",
        ),
        LoadFailure::RestoreFailed(message) => reject_about(
            ErrorCode::InternalError,
            "failed to restore session: ",
            message,
        ),
    }
}

/// What resuming a session waits for.
#[derive(Clone, Copy, Debug, PartialEq, Eq, Structural)]
pub enum ResumePhase {
    Loaded,
    Locked,
    DirectoryRead,
    ToolsReplaced,
    SnapshotRead,
    Subscribed,
    HookRun,
    QueueResumed,
    Finished,
}

/// What the host observed while a session is resumed.
#[derive(Debug)]
pub enum ResumeEvent {
    Loaded(Option<LoadFailure>),
    Done,
    /// Whether the session is there and in the directory that was named.
    DirectoryMatches(bool),
    ToolsReplaced(bool),
    SnapshotRead(bool),
}

/// What the host has to do to resume a session.
#[derive(Debug)]
pub enum ResumeAction {
    /// Load the session.
    Load,
    /// Lock the state of the session.
    LockState,
    /// Compare the directory of the session with the one that is asked for.
    ReadDirectory,
    /// Give the session the tools that the client brings.
    ReplaceTools,
    /// Read the session.
    ReadSnapshot,
    /// Send the client what happens in the session.
    Subscribe,
    /// Run the hook for sessions that go on.
    RunHook,
    /// Let the queue of the session go on.
    ResumeQueue,
    /// Answer with the session.
    Answer,
    /// Refuse to resume the session.
    Reject(Rejection),
    /// Nothing: the event does not belong to the phase.
    Ignore,
}

/// The step that refuses to resume a session.
pub open spec fn resume_refused(why: Rejection) -> (ResumePhase, ResumeAction) {
    (ResumePhase::Finished, ResumeAction::Reject(why))
}

/// The next step of resuming a session. Where the client brings tools, they
/// replace the session's, provided that the client names its directory.
pub open spec fn resume_step(brings_tools: bool, phase: ResumePhase, event: ResumeEvent) -> (
    ResumePhase,
    ResumeAction,
) {
    match (phase, event) {
        (ResumePhase::Loaded, ResumeEvent::Loaded(failure)) => match failure {
            Some(failure) => resume_refused(resume_refusal(failure)),
            None => (ResumePhase::Locked, ResumeAction::LockState),
        },
        (ResumePhase::Locked, ResumeEvent::Done) => if brings_tools {
            (ResumePhase::DirectoryRead, ResumeAction::ReadDirectory)
        } else {
            (ResumePhase::SnapshotRead, ResumeAction::ReadSnapshot)
        },
        (ResumePhase::DirectoryRead, ResumeEvent::DirectoryMatches(matches)) => if matches {
            (ResumePhase::ToolsReplaced, ResumeAction::ReplaceTools)
        } else {
            resume_refused(
                rejection(
                    ErrorCode::InvalidParams,
                    "session cwd does not match the stored session cwd",
                ),
            )
        },
        (ResumePhase::ToolsReplaced, ResumeEvent::ToolsReplaced(replaced)) => if replaced {
            (ResumePhase::SnapshotRead, ResumeAction::ReadSnapshot)
        } else {
            resume_refused(session_missing())
        },
        (ResumePhase::SnapshotRead, ResumeEvent::SnapshotRead(read)) => if read {
            (ResumePhase::Subscribed, ResumeAction::Subscribe)
        } else {
            resume_refused(session_missing())
        },
        (ResumePhase::Subscribed, ResumeEvent::Done) => (
            ResumePhase::HookRun,
            ResumeAction::RunHook,
        ),
        (ResumePhase::HookRun, ResumeEvent::Done) => (
            ResumePhase::QueueResumed,
            ResumeAction::ResumeQueue,
        ),
        (ResumePhase::QueueResumed, ResumeEvent::Done) => (
            ResumePhase::Finished,
            ResumeAction::Answer,
        ),
        _ => (phase, ResumeAction::Ignore),
    }
}

fn stop_resume(why: Rejection) -> (r: (ResumePhase, ResumeAction))
    ensures
        r == resume_refused(why),
{
    (ResumePhase::Finished, ResumeAction::Reject(why))
}

/// Takes resuming a session one step further. It begins with loading it.
pub fn advance_resume(brings_tools: bool, phase: ResumePhase, event: ResumeEvent) -> (r: (
    ResumePhase,
    ResumeAction,
))
    ensures
        r == resume_step(brings_tools, phase, event),
{
    match (phase, event) {
        (ResumePhase::Loaded, ResumeEvent::Loaded(failure)) => match failure {
            Some(failure) => stop_resume(refuse_resume(failure)),
            None => (ResumePhase::Locked, ResumeAction::LockState),
        },
        (ResumePhase::Locked, ResumeEvent::Done) => {
            if brings_tools {
                (ResumePhase::DirectoryRead, ResumeAction::ReadDirectory)
            } else {
                (ResumePhase::SnapshotRead, ResumeAction::ReadSnapshot)
            }
        },
        (ResumePhase::DirectoryRead, ResumeEvent::DirectoryMatches(matches)) => {
            if matches {
                (ResumePhase::ToolsReplaced, ResumeAction::ReplaceTools)
            } else {
                stop_resume(
                    reject(
                        ErrorCode::InvalidParams,
                        "session cwd does not match the stored session cwd",
                    ),
                )
            }
        },
        (ResumePhase::ToolsReplaced, ResumeEvent::ToolsReplaced(replaced)) => {
            if replaced {
                (ResumePhase::SnapshotRead, ResumeAction::ReadSnapshot)
            } else {
                stop_resume(reject_session_missing())
            }
        },
        (ResumePhase::SnapshotRead, ResumeEvent::SnapshotRead(read)) => {
            if read {
                (ResumePhase::Subscribed, ResumeAction::Subscribe)
            } else {
                stop_resume(reject_session_missing())
            }
        },
        (ResumePhase::Subscribed, ResumeEvent::Done) => (
            ResumePhase::HookRun,
            ResumeAction::RunHook,
        ),
        (ResumePhase::HookRun, ResumeEvent::Done) => (
            ResumePhase::QueueResumed,
            ResumeAction::ResumeQueue,
        ),
        (ResumePhase::QueueResumed, ResumeEvent::Done) => (
            ResumePhase::Finished,
            ResumeAction::Answer,
        ),
        (phase, _) => (phase, ResumeAction::Ignore),
    }
}

/// Tools that a client brings are taken only where it names the directory of
/// the session.
pub proof fn law_tools_need_the_right_directory(
    brings_tools: bool,
    phase: ResumePhase,
    event: ResumeEvent,
)
    ensures
        resume_step(brings_tools, phase, event).1 is ReplaceTools ==> event
            == ResumeEvent::DirectoryMatches(true),
{
}

/// What is stored of the size of a session.
#[derive(Clone, Copy, Debug)]
pub struct StoredStats {
    pub occupancy: Option<ContextOccupancy>,
    pub prompt_token_estimate: u64,
}

/// How full a resumed session is: what is stored goes before what its rollout
/// says.
pub open spec fn resumed_occupancy(
    stats: Option<StoredStats>,
    rollout: Option<ContextOccupancy>,
) -> Option<ContextOccupancy> {
    match stats {
        Some(stats) if stats.occupancy is Some => stats.occupancy,
        _ => rollout,
    }
}

/// How many tokens the last request of a resumed session had, if that is
/// known: a count of zero says nothing.
pub open spec fn resumed_tokens(
    stats: Option<StoredStats>,
    rollout: Option<ContextOccupancy>,
) -> Option<u64> {
    let occupancy = resumed_occupancy(stats, rollout);
    if occupancy is Some && occupancy->0.total_tokens > 0 {
        Some(occupancy->0.total_tokens)
    } else if stats is Some && stats->0.prompt_token_estimate > 0 {
        Some(stats->0.prompt_token_estimate)
    } else {
        None
    }
}

/// How full a resumed session is, and how many tokens its last request had.
pub fn resume_measures(stats: Option<StoredStats>, rollout: Option<ContextOccupancy>) -> (r: (
    Option<ContextOccupancy>,
    Option<u64>,
))
    ensures
        r == (resumed_occupancy(stats, rollout), resumed_tokens(stats, rollout)),
{
    let occupancy = match stats {
        Some(stats) => match stats.occupancy {
            Some(occupancy) => Some(occupancy),
            None => rollout,
        },
        None => rollout,
    };
    if let Some(occupancy) = occupancy {
        if occupancy.total_tokens > 0 {
            return (Some(occupancy), Some(occupancy.total_tokens));
        }
    }
    let estimate = match stats {
        Some(stats) => {
            if stats.prompt_token_estimate > 0 {
                Some(stats.prompt_token_estimate)
            } else {
                None
            }
        },
        None => None,
    };
    (occupancy, estimate)
}

/// A request to copy a session up to a turn.
#[derive(Clone, Copy, Debug)]
pub struct ForkRequest {
    pub session: SessionId,
    /// Whether the session is one of this server's.
    pub addressable: bool,
    /// Where the copy is cut; behind the turn unless the client says otherwise.
    pub cut: Option<ForkCut>,
    /// Whether a turn is named, and which one where it is one of this server's.
    pub at_turn: Option<Option<TurnId>>,
}

/// The copy that is asked for.
pub open spec fn fork_asked(
    request: ForkRequest,
    at_turn: Option<TurnId>,
    index: Option<u32>,
) -> ForkOptions {
    ForkOptions {
        source: request.session,
        at_turn,
        index,
        cut: match request.cut {
            Some(cut) => cut,
            None => ForkCut::Through,
        },
        title: None,
        cwd: None,
    }
}

/// A copy that is there: whether it is kept, and its size.
#[derive(Clone, Copy, Debug, PartialEq, Eq, Structural)]
pub struct ForkedSession {
    pub session: SessionId,
    pub kept: bool,
    pub occupancy: Option<ContextOccupancy>,
    pub prompt_token_estimate: u64,
}

/// What became of making the copy.
#[derive(Debug)]
pub enum ForkOutcome {
    SessionMissing,
    Failed(String),
    Created(ForkedSession),
}

/// What copying a session waits for.
#[derive(Debug)]
pub enum ForkPhase {
    TipRead,
    TipInterrupted,
    Session(Option<TurnId>),
    Export(Option<TurnId>),
    Stable(TurnId, Vec<SessionItem>),
    Created,
    Inserted(ForkedSession),
    Subscribed(ForkedSession),
    Settled(ForkedSession),
    IndexWritten(ForkedSession),
    StatsWritten(ForkedSession),
    Announced(ForkedSession),
    SnapshotRead(ForkedSession),
    Finished,
}

/// What the host observed while a session is copied.
#[derive(Debug)]
pub enum ForkEvent {
    ActiveTurn(Option<TurnId>),
    Done,
    SessionFound(bool),
    Exported(Option<Vec<SessionItem>>),
    Created(ForkOutcome),
    Written(Option<String>),
    SnapshotRead(bool),
}

/// What the host has to do to copy a session.
#[derive(Debug)]
pub enum ForkAction {
    /// Read which turn of the session is running.
    ReadActiveTurn,
    /// Interrupt the running turn and wait for its end.
    InterruptTurn,
    /// Find the session.
    FindSession,
    /// Read the session as it is now.
    Export,
    /// Make the copy.
    CreateFork(ForkOptions),
    /// Take the copy into the runtime.
    InsertSession,
    /// Send the client what happens in the copy.
    Subscribe(SessionId),
    /// Let the runtime do what follows a new session.
    Settle(SessionId),
    /// Note the copy in the index. That this fails makes no difference.
    UpsertIndex,
    /// Note the size of the copy, which has spent nothing so far. That this
    /// fails makes no difference.
    UpdateStats(SessionId, StoredStats),
    /// Tell the clients of the copy.
    Announce,
    /// Read the copy.
    ReadSnapshot(SessionId),
    /// Answer with the copy as it was read.
    AnswerSnapshot,
    /// Answer with what was announced.
    AnswerSummary,
    /// Refuse to copy the session.
    Reject(Rejection),
    /// Nothing: the event does not belong to the phase.
    Ignore,
}

/// The step that refuses to copy a session.
pub open spec fn fork_refused(why: Rejection) -> (ForkPhase, ForkAction) {
    (ForkPhase::Finished, ForkAction::Reject(why))
}

/// The first step of copying a session. Where the whole session is copied, a
/// running turn is interrupted first, so that only finished work is copied.
pub open spec fn fork_start(request: ForkRequest) -> (ForkPhase, ForkAction) {
    if !request.addressable {
        fork_refused(not_addressable())
    } else {
        match request.at_turn {
            Some(None) => fork_refused(
                rejection(
                    ErrorCode::ForkTurnNotFound,
                    "turn id is not addressable by this server",
                ),
            ),
            Some(Some(turn)) => (ForkPhase::Session(Some(turn)), ForkAction::FindSession),
            None => (ForkPhase::TipRead, ForkAction::ReadActiveTurn),
        }
    }
}

/// Which user turn of a session a turn is, counted from zero.
pub open spec fn turn_place(turns: Seq<TurnId>, turn: TurnId) -> int
    decreases turns.len(),
{
    if turns.len() == 0 || turns[0] == turn {
        0
    } else {
        1 + turn_place(turns.skip(1), turn)
    }
}

/// A count as far as the counter goes.
pub open spec fn bounded(n: int) -> u32 {
    if n > u32::MAX {
        u32::MAX
    } else {
        n as u32
    }
}

/// The step once it is known which turn is running.
pub open spec fn fork_at_step(
    request: ForkRequest,
    turn: TurnId,
    items: Seq<SessionItem>,
    active: Option<TurnId>,
) -> (ForkPhase, ForkAction) {
    let place = turn_place(user_turns(items), turn);
    if active == Some(turn) {
        fork_refused(
            rejection(ErrorCode::ForkTurnNotStable, "atTurnId names an in-progress turn"),
        )
    } else if place == user_turns(items).len() {
        fork_refused(
            rejection(
                ErrorCode::ForkTurnNotFound,
                "atTurnId does not name a user turn in this session",
            ),
        )
    } else {
        (
            ForkPhase::Created,
            ForkAction::CreateFork(fork_asked(request, Some(turn), Some(bounded(place)))),
        )
    }
}

/// The code for why a copy could not be made.
pub open spec fn fork_failure_code(message: Seq<char>) -> ErrorCode {
    if occurs_in(message, "selected turn"@) {
        ErrorCode::InvalidParams
    } else {
        ErrorCode::InternalError
    }
}

/// The next step of copying a session.
pub open spec fn fork_step(request: ForkRequest, phase: ForkPhase, event: ForkEvent) -> (
    ForkPhase,
    ForkAction,
) {
    match (phase, event) {
        (ForkPhase::TipRead, ForkEvent::ActiveTurn(active)) => if active is Some {
            (ForkPhase::TipInterrupted, ForkAction::InterruptTurn)
        } else {
            (ForkPhase::Session(None), ForkAction::FindSession)
        },
        (ForkPhase::TipInterrupted, ForkEvent::Done) => (
            ForkPhase::Session(None),
            ForkAction::FindSession,
        ),
        (ForkPhase::Session(at), ForkEvent::SessionFound(found)) => if found {
            (ForkPhase::Export(at), ForkAction::Export)
        } else {
            fork_refused(session_missing())
        },
        (ForkPhase::Export(at), ForkEvent::Exported(exported)) => match (exported, at) {
            (None, _) => fork_refused(session_missing()),
            (Some(_), None) => (
                ForkPhase::Created,
                ForkAction::CreateFork(fork_asked(request, None, None)),
            ),
            (Some(items), Some(turn)) => (
                ForkPhase::Stable(turn, items),
                ForkAction::ReadActiveTurn,
            ),
        },
        (ForkPhase::Stable(turn, items), ForkEvent::ActiveTurn(active)) => fork_at_step(
            request,
            turn,
            items@,
            active,
        ),
        (ForkPhase::Created, ForkEvent::Created(outcome)) => match outcome {
            ForkOutcome::SessionMissing => fork_refused(session_missing()),
            ForkOutcome::Failed(message) => fork_refused(
                rejection_about(fork_failure_code(message@), "", message),
            ),
            ForkOutcome::Created(copy) => (ForkPhase::Inserted(copy), ForkAction::InsertSession),
        },
        (ForkPhase::Inserted(copy), ForkEvent::Done) => (
            ForkPhase::Subscribed(copy),
            ForkAction::Subscribe(copy.session),
        ),
        (ForkPhase::Subscribed(copy), ForkEvent::Done) => (
            ForkPhase::Settled(copy),
            ForkAction::Settle(copy.session),
        ),
        (ForkPhase::Settled(copy), ForkEvent::Done) => if copy.kept {
            (ForkPhase::IndexWritten(copy), ForkAction::UpsertIndex)
        } else {
            (ForkPhase::Announced(copy), ForkAction::Announce)
        },
        (ForkPhase::IndexWritten(copy), ForkEvent::Written(_)) => (
            ForkPhase::StatsWritten(copy),
            ForkAction::UpdateStats(
                copy.session,
                StoredStats {
                    occupancy: copy.occupancy,
                    prompt_token_estimate: copy.prompt_token_estimate,
                },
            ),
        ),
        (ForkPhase::StatsWritten(copy), ForkEvent::Written(_)) => (
            ForkPhase::Announced(copy),
            ForkAction::Announce,
        ),
        (ForkPhase::Announced(copy), ForkEvent::Done) => (
            ForkPhase::SnapshotRead(copy),
            ForkAction::ReadSnapshot(copy.session),
        ),
        (ForkPhase::SnapshotRead(copy), ForkEvent::SnapshotRead(read)) => if read {
            (ForkPhase::Finished, ForkAction::AnswerSnapshot)
        } else {
            (ForkPhase::Finished, ForkAction::AnswerSummary)
        },
        _ => (phase, ForkAction::Ignore),
    }
}

fn ask_for_fork(request: ForkRequest, at_turn: Option<TurnId>, index: Option<u32>) -> (r:
    ForkOptions)
    ensures
        r == fork_asked(request, at_turn, index),
{
    ForkOptions {
        source: request.session,
        at_turn,
        index,
        cut: match request.cut {
            Some(cut) => cut,
            None => ForkCut::Through,
        },
        title: None,
        cwd: None,
    }
}

fn stop_fork(why: Rejection) -> (r: (ForkPhase, ForkAction))
    ensures
        r == fork_refused(why),
{
    (ForkPhase::Finished, ForkAction::Reject(why))
}

/// Begins to copy a session.
pub fn begin_fork(request: ForkRequest) -> (r: (ForkPhase, ForkAction))
    ensures
        r == fork_start(request),
{
    if !request.addressable {
        return stop_fork(
            reject(ErrorCode::SessionNotFound, "session id is not addressable by this server"),
        );
    }
    match request.at_turn {
        Some(None) => stop_fork(
            reject(ErrorCode::ForkTurnNotFound, "turn id is not addressable by this server"),
        ),
        Some(Some(turn)) => (ForkPhase::Session(Some(turn)), ForkAction::FindSession),
        None => (ForkPhase::TipRead, ForkAction::ReadActiveTurn),
    }
}

proof fn lemma_turn_place(turns: Seq<TurnId>, turn: TurnId, n: int)
    requires
        0 <= n <= turns.len(),
        forall|i: int| 0 <= i < n ==> #[trigger] turns[i] != turn,
        n == turns.len() || turns[n] == turn,
    ensures
        turn_place(turns, turn) == n,
    decreases n,
{
    if n > 0 {
        let rest = turns.skip(1);
        assert forall|i: int| 0 <= i < n - 1 implies #[trigger] rest[i] != turn by {
            assert(rest[i] == turns[i + 1]);
        }
        if n < turns.len() {
            assert(rest[n - 1] == turns[n]);
        }
        lemma_turn_place(rest, turn, n - 1);
        assert(turns[0] != turn);
    }
}

fn fork_at(
    request: ForkRequest,
    turn: TurnId,
    items: &Vec<SessionItem>,
    active: Option<TurnId>,
) -> (r: (
    ForkPhase,
    ForkAction,
))
    ensures
        r == fork_at_step(request, turn, items@, active),
{
    if let Some(active) = active {
        if active == turn {
            return stop_fork(
                reject(ErrorCode::ForkTurnNotStable, "atTurnId names an in-progress turn"),
            );
        }
    }
    let turns = user_turn_ids(items);
    let mut place: usize = 0;
    while place < turns.len() && turns[place] != turn
        invariant
            place <= turns@.len(),
            forall|i: int| 0 <= i < place ==> #[trigger] turns@[i] != turn,
        decreases turns@.len() - place,
    {
        place = place + 1;
    }
    proof {
        lemma_turn_place(turns@, turn, place as int);
    }
    if place == turns.len() {
        return stop_fork(
            reject(
                ErrorCode::ForkTurnNotFound,
                "atTurnId does not name a user turn in this session",
            ),
        );
    }
    let index: u32 = if place > u32::MAX as usize {
        u32::MAX
    } else {
        place as u32
    };
    (ForkPhase::Created, ForkAction::CreateFork(ask_for_fork(request, Some(turn), Some(index))))
}

fn after_created(outcome: ForkOutcome) -> (r: (ForkPhase, ForkAction))
    ensures
        forall|request: ForkRequest|
            r == #[trigger] fork_step(request, ForkPhase::Created, ForkEvent::Created(outcome)),
{
    match outcome {
        ForkOutcome::SessionMissing => stop_fork(reject_session_missing()),
        ForkOutcome::Failed(message) => {
            let code = if contains(message.as_str(), "selected turn") {
                ErrorCode::InvalidParams
            } else {
                ErrorCode::InternalError
            };
            stop_fork(reject_about(code, "", message))
        },
        ForkOutcome::Created(copy) => (ForkPhase::Inserted(copy), ForkAction::InsertSession),
    }
}

/// Takes copying a session one step further.
pub fn advance_fork(request: ForkRequest, phase: ForkPhase, event: ForkEvent) -> (r: (
    ForkPhase,
    ForkAction,
))
    ensures
        r == fork_step(request, phase, event),
{
    match (phase, event) {
        (ForkPhase::TipRead, ForkEvent::ActiveTurn(active)) => {
            if active.is_some() {
                (ForkPhase::TipInterrupted, ForkAction::InterruptTurn)
            } else {
                (ForkPhase::Session(None), ForkAction::FindSession)
            }
        },
        (ForkPhase::TipInterrupted, ForkEvent::Done) => (
            ForkPhase::Session(None),
            ForkAction::FindSession,
        ),
        (ForkPhase::Session(at), ForkEvent::SessionFound(found)) => {
            if found {
                (ForkPhase::Export(at), ForkAction::Export)
            } else {
                stop_fork(reject_session_missing())
            }
        },
        (ForkPhase::Export(at), ForkEvent::Exported(exported)) => match (exported, at) {
            (None, _) => stop_fork(reject_session_missing()),
            (Some(_), None) => (
                ForkPhase::Created,
                ForkAction::CreateFork(ask_for_fork(request, None, None)),
            ),
            (Some(items), Some(turn)) => (
                ForkPhase::Stable(turn, items),
                ForkAction::ReadActiveTurn,
            ),
        },
        (ForkPhase::Stable(turn, items), ForkEvent::ActiveTurn(active)) => fork_at(
            request,
            turn,
            &items,
            active,
        ),
        (ForkPhase::Created, ForkEvent::Created(outcome)) => after_created(outcome),
        (ForkPhase::Inserted(copy), ForkEvent::Done) => (
            ForkPhase::Subscribed(copy),
            ForkAction::Subscribe(copy.session),
        ),
        (ForkPhase::Subscribed(copy), ForkEvent::Done) => (
            ForkPhase::Settled(copy),
            ForkAction::Settle(copy.session),
        ),
        (ForkPhase::Settled(copy), ForkEvent::Done) => {
            if copy.kept {
                (ForkPhase::IndexWritten(copy), ForkAction::UpsertIndex)
            } else {
                (ForkPhase::Announced(copy), ForkAction::Announce)
            }
        },
        (ForkPhase::IndexWritten(copy), ForkEvent::Written(_)) => (
            ForkPhase::StatsWritten(copy),
            ForkAction::UpdateStats(
                copy.session,
                StoredStats {
                    occupancy: copy.occupancy,
                    prompt_token_estimate: copy.prompt_token_estimate,
                },
            ),
        ),
        (ForkPhase::StatsWritten(copy), ForkEvent::Written(_)) => (
            ForkPhase::Announced(copy),
            ForkAction::Announce,
        ),
        (ForkPhase::Announced(copy), ForkEvent::Done) => (
            ForkPhase::SnapshotRead(copy),
            ForkAction::ReadSnapshot(copy.session),
        ),
        (ForkPhase::SnapshotRead(copy), ForkEvent::SnapshotRead(read)) => {
            if read {
                (ForkPhase::Finished, ForkAction::AnswerSnapshot)
            } else {
                (ForkPhase::Finished, ForkAction::AnswerSummary)
            }
        },
        (phase, _) => (phase, ForkAction::Ignore),
    }
}

/// The user turn that a copy is cut at is the turn that was named, and it is
/// not the one that is running.
pub proof fn law_forks_are_cut_at_the_named_turn(
    request: ForkRequest,
    turn: TurnId,
    items: Seq<SessionItem>,
    active: Option<TurnId>,
)
    requires
        user_turns(items).len() <= u32::MAX,
    ensures
        fork_at_step(request, turn, items, active).1 matches ForkAction::CreateFork(options) ==> {
            &&& options.source == request.session
            &&& options.at_turn == Some(turn)
            &&& options.index matches Some(index) && index < user_turns(items).len()
                && user_turns(items)[index as int] == turn
            &&& active != Some(turn)
        },
{
    lemma_place_is_found(user_turns(items), turn);
}

proof fn lemma_place_is_found(turns: Seq<TurnId>, turn: TurnId)
    ensures
        0 <= turn_place(turns, turn) <= turns.len(),
        turn_place(turns, turn) < turns.len() ==> turns[turn_place(turns, turn)] == turn,
    decreases turns.len(),
{
    if turns.len() > 0 && turns[0] != turn {
        lemma_place_is_found(turns.skip(1), turn);
    }
}

/// A session is started as it is asked for: its workspace is opened, its model
/// resolved from its binding, else from the model that is named, its metadata
/// written down unless it is ephemeral, and it is inserted, subscribed to,
/// settled, indexed, announced and answered.
pub proof fn law_sessions_start_as_asked(
    request: StartSessionRequest,
    facts: StartFacts,
    unwritten: Option<String>,
)
    ensures
        ({
            let a = start_session_step(
                StartSessionPhase::Workspace(request),
                StartSessionEvent::Workspace(None),
            );
            let b = start_session_step(a.0, StartSessionEvent::Resolved(facts));
            let c = if request.ephemeral {
                b
            } else {
                start_session_step(b.0, StartSessionEvent::Written(None))
            };
            let d = start_session_step(c.0, StartSessionEvent::Done);
            let e = start_session_step(d.0, StartSessionEvent::Done);
            let f = start_session_step(e.0, StartSessionEvent::Done);
            let g = if request.ephemeral {
                f
            } else {
                start_session_step(f.0, StartSessionEvent::Written(unwritten))
            };
            let h = start_session_step(g.0, StartSessionEvent::Done);
            let i = start_session_step(h.0, StartSessionEvent::Done);
            &&& a.1 matches StartSessionAction::ResolveModel(asked) && (request.binding is Some
                ==> asked == request.binding) && (request.binding is None ==> asked
                == request.model)
            &&& !request.ephemeral ==> b.1 is AppendMeta
            &&& c.1 is InsertSession
            &&& d.1 == StartSessionAction::Subscribe(request.session)
            &&& e.1 == StartSessionAction::Settle(request.session)
            &&& !request.ephemeral ==> f.1 is UpsertIndex
            &&& g.1 is Announce
            &&& h.1 is RunHook
            &&& i.1 matches StartSessionAction::Answer(summary) && {
                &&& summary.session == request.session
                &&& summary.cwd == request.cwd
                &&& summary.directories == request.directories
                &&& summary.title == request.title
                &&& summary.title_state is ExplicitCreate <==> request.title is Some
                &&& summary.ephemeral == request.ephemeral
                &&& summary.model == Some(facts.model)
                &&& summary.binding == facts.binding
                &&& summary.effort is None
                &&& summary.window == Some(facts.window)
                &&& summary.preset == Some(facts.preset)
                &&& summary.parent is None && summary.fork_from is None && summary.fork_at is None
                &&& summary.status is Idle && summary.mode is Build
                &&& summary.occupancy is None && summary.prompt_token_estimate == 0
                    && summary.last_query_total_tokens == 0
                &&& summary.created_at == request.now && summary.updated_at == request.now
                    && summary.last_activity_at == request.now
            }
        }),
{
}

/// A session whose workspace cannot be opened or whose metadata cannot be
/// written down is not started.
pub proof fn law_unstarted_sessions_say_why(
    request: StartSessionRequest,
    summary: SessionSummary,
    error: String,
)
    ensures
        start_session_step(
            StartSessionPhase::Workspace(request),
            StartSessionEvent::Workspace(Some(error)),
        ).1 matches StartSessionAction::Reject(why) && why.code is InternalError && why.detail
            == Some(error),
        start_session_step(
            StartSessionPhase::MetaWritten(summary),
            StartSessionEvent::Written(Some(error)),
        ).1 matches StartSessionAction::Reject(why) && why.code is InternalError && why.detail
            == Some(error),
{
}

/// A new request for a session starts one, subscribes to it, remembers the
/// request and answers with the session; a repeated one whose session is gone
/// starts another.
pub proof fn law_new_requests_start_a_session(known: SessionId, id: SessionId)
    ensures
        ({
            let a = new_session_start(None);
            let b = new_session_step(a.0, NewSessionEvent::Started(Some(id)));
            let c = new_session_step(b.0, NewSessionEvent::Done);
            let d = new_session_step(c.0, NewSessionEvent::Done);
            &&& a.1 is Start
            &&& b.1 == NewSessionAction::Subscribe(id)
            &&& c.1 == NewSessionAction::Remember(id)
            &&& d.1 == NewSessionAction::ReadSnapshot(id)
            &&& new_session_step(d.0, NewSessionEvent::SnapshotRead(true)).1 is AnswerSnapshot
            &&& new_session_step(d.0, NewSessionEvent::SnapshotRead(false)).1 is PassOn
            &&& new_session_step(a.0, NewSessionEvent::Started(None)).1 is PassOn
            &&& new_session_step(
                new_session_start(Some(known)).0,
                NewSessionEvent::SnapshotRead(false),
            ).1 is Start
        }),
{
}

/// The session of an agent has its parent, with the agent's role; any other
/// session with a parent was copied from it, unless it says from which.
pub proof fn law_lineage_is_told_apart(lineage: IndexLineage)
    ensures
        ({
            let agent = lineage.agent_path || lineage.agent_nickname || lineage.agent_role is Some;
            &&& agent && lineage.parent is Some ==> agent_parent(lineage) == Some(
                (lineage.parent->0, lineage.agent_role),
            )
            &&& !agent || lineage.parent is None ==> agent_parent(lineage) is None
            &&& lineage.fork_from is Some ==> copied_from(lineage) == lineage.fork_from
            &&& lineage.fork_from is None && agent ==> copied_from(lineage) is None
            &&& lineage.fork_from is None && !agent ==> copied_from(lineage) == lineage.parent
        }),
{
}

/// A session is shown from the index as it was last recorded, at rest.
pub proof fn law_indexed_sessions_are_shown(row: IndexedSession, shown: NativeSession)
    requires
        shows_indexed(row, shown),
    ensures
        shown.session == row.session && shown.cwd == row.cwd && shown.directories
            == row.directories,
        shown.title == row.title && shown.title_state == row.title_state,
        shown.status is Idle && shown.active is None && shown.queued == 0 && !shown.archived,
        shown.version == 1,
        shown.ephemeral == row.ephemeral && shown.fork_at == row.fork_at && shown.mode == row.mode,
        row.model is Some ==> shown.model@ == row.model->0@,
        row.model is None ==> shown.model@.len() == 0,
        row.binding is Some ==> shown.provider@ == row.binding->0@,
        row.binding is None ==> shown.provider@ == "unknown"@,
        row.effort is Some ==> shown.effort == Some(row.effort->0.shown) && shown.level
            == row.effort->0.level,
        row.effort is None ==> shown.effort is None && shown.level is None,
        row.preset is Some ==> shown.permission == row.preset->0,
        row.preset is None ==> shown.permission is AutoReview,
        shown.totals == row.totals,
        shown.created_at == row.created_at && shown.updated_at == row.updated_at
            && shown.last_activity_at == row.last_activity_at,
{
}

/// A session is resumed: it is loaded and locked, tools that the client brings
/// take the place of the old ones where the directory is the same, and it is
/// subscribed to and its queue goes on before the client is answered.
pub proof fn law_sessions_are_resumed(brings_tools: bool)
    ensures
        ({
            let a = resume_step(brings_tools, ResumePhase::Loaded, ResumeEvent::Loaded(None));
            let b = resume_step(brings_tools, a.0, ResumeEvent::Done);
            let c = if brings_tools {
                resume_step(brings_tools, b.0, ResumeEvent::DirectoryMatches(true))
            } else {
                b
            };
            let d = if brings_tools {
                resume_step(brings_tools, c.0, ResumeEvent::ToolsReplaced(true))
            } else {
                b
            };
            let e = resume_step(brings_tools, d.0, ResumeEvent::SnapshotRead(true));
            let f = resume_step(brings_tools, e.0, ResumeEvent::Done);
            let g = resume_step(brings_tools, f.0, ResumeEvent::Done);
            let h = resume_step(brings_tools, g.0, ResumeEvent::Done);
            &&& a.1 is LockState
            &&& brings_tools ==> b.1 is ReadDirectory && c.1 is ReplaceTools
            &&& d.1 is ReadSnapshot
            &&& e.1 is Subscribe
            &&& f.1 is RunHook
            &&& g.1 is ResumeQueue
            &&& h.1 is Answer
        }),
{
}

/// A session that cannot be resumed is answered with the reason.
pub proof fn law_unresumed_sessions_say_why(brings_tools: bool, failure: LoadFailure)
    ensures
        resume_step(brings_tools, ResumePhase::Loaded, ResumeEvent::Loaded(Some(failure))).1 matches
            ResumeAction::Reject(why) && match failure {
            LoadFailure::NotFound => why.code is SessionNotFound,
            LoadFailure::Subagent(parent) => why.code is InvalidParams && why.detail == Some(parent),
            LoadFailure::RolloutMissing => why.code is InternalError,
            LoadFailure::RestoreFailed(message) => why.code is InternalError && why.detail == Some(
                message,
            ),
        },
        resume_step(
            brings_tools,
            ResumePhase::DirectoryRead,
            ResumeEvent::DirectoryMatches(false),
        ).1 matches ResumeAction::Reject(why) && why.code is InvalidParams,
        resume_step(
            brings_tools,
            ResumePhase::ToolsReplaced,
            ResumeEvent::ToolsReplaced(false),
        ).1 matches ResumeAction::Reject(why) && why.code is SessionNotFound,
        resume_step(
            brings_tools,
            ResumePhase::SnapshotRead,
            ResumeEvent::SnapshotRead(false),
        ).1 matches ResumeAction::Reject(why) && why.code is SessionNotFound,
{
}

/// A resumed session is as full as was stored, else as its record shows; an
/// occupancy of nothing gives way to the stored estimate, and an estimate of
/// nothing is none.
pub proof fn law_resumed_sessions_are_as_full_as_before(
    stats: Option<StoredStats>,
    rollout: Option<ContextOccupancy>,
)
    ensures
        stats is Some && stats->0.occupancy is Some ==> resumed_occupancy(stats, rollout)
            == stats->0.occupancy,
        stats is None || stats->0.occupancy is None ==> resumed_occupancy(stats, rollout)
            == rollout,
        resumed_occupancy(stats, rollout) is Some && resumed_occupancy(
            stats,
            rollout,
        )->0.total_tokens > 0 ==> resumed_tokens(stats, rollout) == Some(
            resumed_occupancy(stats, rollout)->0.total_tokens,
        ),
        (resumed_occupancy(stats, rollout) is None || resumed_occupancy(
            stats,
            rollout,
        )->0.total_tokens == 0) && stats is Some && stats->0.prompt_token_estimate > 0
            ==> resumed_tokens(stats, rollout) == Some(stats->0.prompt_token_estimate),
        (resumed_occupancy(stats, rollout) is None || resumed_occupancy(
            stats,
            rollout,
        )->0.total_tokens == 0) && (stats is None || stats->0.prompt_token_estimate == 0)
            ==> resumed_tokens(stats, rollout) is None,
{
}

proof fn lemma_place_of_turn(turns: Seq<TurnId>, i: int)
    requires
        0 <= i < turns.len(),
        forall|j: int| 0 <= j < i ==> #[trigger] turns[j] != turns[i],
    ensures
        turn_place(turns, turns[i]) == i,
    decreases turns.len(),
{
    if i > 0 {
        let rest = turns.skip(1);
        assert(turns[0] != turns[i]);
        assert(rest[i - 1] == turns[i]);
        assert forall|j: int| 0 <= j < i - 1 implies #[trigger] rest[j] != rest[i - 1] by {
            assert(rest[j] == turns[j + 1]);
        }
        lemma_place_of_turn(rest, i - 1);
    }
}

/// A turn of the user that is not running can be forked at: the copy is made of
/// the session as it was asked, cut at that turn, through it unless the client
/// says otherwise.
pub proof fn law_settled_turns_can_be_forked_at(
    request: ForkRequest,
    items: Vec<SessionItem>,
    active: Option<TurnId>,
    i: int,
)
    requires
        request.addressable,
        0 <= i < user_turns(items@).len(),
        i <= u32::MAX,
        forall|j: int| 0 <= j < i ==> #[trigger] user_turns(items@)[j] != user_turns(items@)[i],
        request.at_turn == Some(Some(user_turns(items@)[i])),
        active != Some(user_turns(items@)[i]),
    ensures
        ({
            let turn = user_turns(items@)[i];
            let a = fork_start(request);
            let b = fork_step(request, a.0, ForkEvent::SessionFound(true));
            let c = fork_step(request, b.0, ForkEvent::Exported(Some(items)));
            let d = fork_step(request, c.0, ForkEvent::ActiveTurn(active));
            &&& a.1 is FindSession
            &&& b.1 is Export
            &&& c.1 is ReadActiveTurn
            &&& d.1 matches ForkAction::CreateFork(options) && {
                &&& options.source == request.session
                &&& options.at_turn == Some(turn)
                &&& options.index == Some(i as u32)
                &&& request.cut is Some ==> options.cut == request.cut->0
                &&& request.cut is None ==> options.cut is Through
                &&& options.title is None && options.cwd is None
            }
        }),
{
    lemma_place_of_turn(user_turns(items@), i);
}

/// A fork at the tip takes the whole session, after the turn that runs there is
/// interrupted.
pub proof fn law_forks_at_the_tip_take_it_all(
    request: ForkRequest,
    items: Vec<SessionItem>,
    active: Option<TurnId>,
)
    requires
        request.addressable,
        request.at_turn is None,
    ensures
        ({
            let a = fork_start(request);
            let b = fork_step(request, a.0, ForkEvent::ActiveTurn(active));
            let c = if active is Some {
                fork_step(request, b.0, ForkEvent::Done)
            } else {
                b
            };
            let d = fork_step(request, c.0, ForkEvent::SessionFound(true));
            let e = fork_step(request, d.0, ForkEvent::Exported(Some(items)));
            &&& a.1 is ReadActiveTurn
            &&& active is Some ==> b.1 is InterruptTurn
            &&& c.1 is FindSession
            &&& d.1 is Export
            &&& e.1 matches ForkAction::CreateFork(options) && options.source == request.session
                && options.at_turn is None && options.index is None
        }),
{
}

/// A copy that was made is inserted, subscribed to and settled, indexed with its
/// measures where it is kept, announced, and answered.
pub proof fn law_made_forks_are_answered(
    request: ForkRequest,
    copy: ForkedSession,
    unwritten: Option<String>,
)
    ensures
        ({
            let a = fork_step(
                request,
                ForkPhase::Created,
                ForkEvent::Created(ForkOutcome::Created(copy)),
            );
            let b = fork_step(request, a.0, ForkEvent::Done);
            let c = fork_step(request, b.0, ForkEvent::Done);
            let d = fork_step(request, c.0, ForkEvent::Done);
            let e = if copy.kept {
                fork_step(request, d.0, ForkEvent::Written(unwritten))
            } else {
                d
            };
            let f = if copy.kept {
                fork_step(request, e.0, ForkEvent::Written(unwritten))
            } else {
                d
            };
            let g = fork_step(request, f.0, ForkEvent::Done);
            &&& a.1 is InsertSession
            &&& b.1 == ForkAction::Subscribe(copy.session)
            &&& c.1 == ForkAction::Settle(copy.session)
            &&& copy.kept ==> d.1 is UpsertIndex && e.1 == ForkAction::UpdateStats(
                copy.session,
                StoredStats {
                    occupancy: copy.occupancy,
                    prompt_token_estimate: copy.prompt_token_estimate,
                },
            )
            &&& f.1 is Announce
            &&& g.1 == ForkAction::ReadSnapshot(copy.session)
            &&& fork_step(request, g.0, ForkEvent::SnapshotRead(true)).1 is AnswerSnapshot
            &&& fork_step(request, g.0, ForkEvent::SnapshotRead(false)).1 is AnswerSummary
        }),
{
}

/// What stands in the way of a fork is answered: a session or a turn that is not
/// known here, one that runs, or one that is no turn of the user.
pub proof fn law_forks_are_refused_for_a_reason(
    request: ForkRequest,
    turn: TurnId,
    items: Vec<SessionItem>,
    at: Option<TurnId>,
    message: String,
)
    ensures
        !request.addressable ==> (fork_start(request).1 matches ForkAction::Reject(why) && why.code
            is SessionNotFound),
        request.addressable && request.at_turn == Some(None::<TurnId>) ==> (fork_start(
            request,
        ).1 matches ForkAction::Reject(why) && why.code is ForkTurnNotFound),
        fork_step(request, ForkPhase::Session(at), ForkEvent::SessionFound(false)).1 matches
            ForkAction::Reject(why) && why.code is SessionNotFound,
        fork_step(request, ForkPhase::Export(at), ForkEvent::Exported(None)).1 matches
            ForkAction::Reject(why) && why.code is SessionNotFound,
        fork_step(
            request,
            ForkPhase::Stable(turn, items),
            ForkEvent::ActiveTurn(Some(turn)),
        ).1 matches ForkAction::Reject(why) && why.code is ForkTurnNotStable,
        user_turns(items@).len() == 0 ==> (fork_step(
            request,
            ForkPhase::Stable(turn, items),
            ForkEvent::ActiveTurn(None),
        ).1 matches ForkAction::Reject(why) && why.code is ForkTurnNotFound),
        fork_step(
            request,
            ForkPhase::Created,
            ForkEvent::Created(ForkOutcome::SessionMissing),
        ).1 matches ForkAction::Reject(why) && why.code is SessionNotFound,
        fork_step(
            request,
            ForkPhase::Created,
            ForkEvent::Created(ForkOutcome::Failed(message)),
        ).1 matches ForkAction::Reject(why) && why.detail == Some(message) && (occurs_in(
            message@,
            "selected turn"@,
        ) ==> why.code is InvalidParams) && (!occurs_in(message@, "selected turn"@) ==> why.code
            is InternalError),
{
}

/// A session is active while a turn of it runs, and shows which.
pub proof fn law_running_turns_are_shown(turn: TurnId)
    ensures
        activity_shown(Some(turn)).0 is Active && activity_shown(Some(turn)).1 == Some(turn),
        activity_shown(None).0 is Idle && activity_shown(None).1 is None,
{
}

/// A session can be read where it is one of this server's and can be found.
pub proof fn law_sessions_are_read_where_they_can_be(addressable: bool, readable: bool)
    ensures
        read_refusal(addressable, readable) is None <==> addressable && readable,
        !(addressable && readable) ==> read_refusal(addressable, readable)->0.code
            is SessionNotFound,
{
}

proof fn lemma_absent_turn(turns: Seq<TurnId>, turn: TurnId)
    requires
        !turns.contains(turn),
    ensures
        turn_place(turns, turn) == turns.len(),
    decreases turns.len(),
{
    if turns.len() > 0 {
        let rest = turns.skip(1);
        assert(turns[0] != turn);
        assert(!rest.contains(turn)) by {
            if rest.contains(turn) {
                let i = choose|i: int| 0 <= i < rest.len() && rest[i] == turn;
                assert(turns[i + 1] == turn);
            }
        }
        lemma_absent_turn(rest, turn);
    }
}

/// There is no forking at a turn that is not one of the user's.
pub proof fn law_unknown_turns_are_not_forked_at(
    request: ForkRequest,
    turn: TurnId,
    items: Vec<SessionItem>,
    active: Option<TurnId>,
)
    requires
        !user_turns(items@).contains(turn),
        active != Some(turn),
    ensures
        fork_step(
            request,
            ForkPhase::Stable(turn, items),
            ForkEvent::ActiveTurn(active),
        ).1 matches ForkAction::Reject(why) && why.code is ForkTurnNotFound,
{
    lemma_absent_turn(user_turns(items@), turn);
}

/// A place is counted as far as the counter reaches.
pub proof fn law_places_are_counted_as_far_as_they_can(n: int)
    ensures
        0 <= n <= u32::MAX ==> bounded(n) == n,
        n > u32::MAX ==> bounded(n) == u32::MAX,
{
}

} // verus!
