//! Starting a turn: admission, queueing behind an active turn, and the steps
//! from an admitted turn to a running one.

use crate::inputs::{ImageUriError, PartRefusal, ResolvedInput, UserInput};
use crate::message_edit::InputResolution;
use crate::protocol::{
    reject, reject_about, reject_session_missing, rejection, rejection_about, session_missing,
    ErrorCode, Rejection, TurnId,
};
use crate::queue::{
    copy_inputs, display_of, input_of, resolved_of, PendingItem, PendingKind, PendingMetadata,
};
use crate::session_metadata::CollaborationMode;
use crate::text::{copy_text, copy_texts};
use crate::turn_model::{
    select_for_turn, turn_selection, ModelChoice, TurnModel, TurnSelection,
};
use vstd::prelude::*;

verus! {

/// What an input does that meets an active turn.
#[derive(Clone, Copy, Debug, PartialEq, Eq, Structural)]
pub enum QueuePolicy {
    Queue,
    RejectActive,
}

/// What is kept with a queued input: a mode other than building, the binding
/// and the model; nothing where there is none of them.
pub open spec fn kept_metadata(
    mode: CollaborationMode,
    model: Option<String>,
    binding: Option<String>,
) -> Option<PendingMetadata> {
    if mode == CollaborationMode::Build && model is None && binding is None {
        None
    } else {
        Some(
            PendingMetadata {
                mode: if mode == CollaborationMode::Build {
                    None
                } else {
                    Some(mode)
                },
                binding,
                model,
            },
        )
    }
}

/// Makes what is kept with a queued input.
pub fn pending_turn_metadata(
    mode: CollaborationMode,
    model: Option<String>,
    binding: Option<String>,
) -> (r: Option<PendingMetadata>)
    ensures
        r == kept_metadata(mode, model, binding),
{
    let kept = if mode != CollaborationMode::Build {
        Some(mode)
    } else {
        None
    };
    if kept.is_none() && model.is_none() && binding.is_none() {
        None
    } else {
        Some(PendingMetadata { mode: kept, binding, model })
    }
}

/// The selection that a queued input runs with: what the request names, else
/// what the session has.
pub open spec fn selection_kept(requested: Option<String>, session: Option<String>) -> Option<
    String,
> {
    if requested is Some {
        requested
    } else {
        session
    }
}

/// Chooses the selection that a queued input runs with.
pub fn queued_selection(requested: Option<String>, session: Option<String>) -> (r: Option<String>)
    ensures
        r == selection_kept(requested, session),
{
    match requested {
        Some(name) => Some(name),
        None => session,
    }
}

/// What a request to start a turn says, and what the turn is to be known by.
#[derive(Debug)]
pub struct StartRequest {
    pub policy: QueuePolicy,
    pub input: Vec<UserInput>,
    /// The input as it is shown, if there is anything to show.
    pub display: Option<String>,
    pub mode: CollaborationMode,
    /// What the request says of the model.
    pub choice: ModelChoice,
    /// Whether the request sets what the turn may do without asking.
    pub sets_permission: bool,
    /// The identifier of the turn, where one is started.
    pub turn: TurnId,
    /// The identifier of the queue entry, where the input is queued.
    pub entry: u128,
    pub now: i64,
}

/// A session as far as admission reads it.
#[derive(Debug)]
pub struct Reservation {
    pub active: Option<TurnId>,
    pub latest_sequence: Option<u32>,
    pub ephemeral: bool,
    /// Whether the request names a directory other than the session's.
    pub changes_directory: bool,
    /// The model and the effort of the session.
    pub choice: ModelChoice,
}

/// What a turn goes on with once it is admitted: what its input comes to, and
/// its model.
#[derive(Debug)]
pub struct StartWork {
    pub resolved: ResolvedInput,
    pub model: TurnModel,
}

/// What a turn is run with.
#[derive(Debug)]
pub struct StartedTurn {
    pub input: Vec<UserInput>,
    pub display: String,
    pub resolved: ResolvedInput,
    pub mode: CollaborationMode,
    pub model: TurnModel,
}

/// What the clients see of the message that starts a turn: the input that was
/// sent, and the files of its images.
#[derive(Debug)]
pub struct ShownMessage {
    pub input: Vec<UserInput>,
    pub images: Vec<String>,
}

/// An input as it was sent, and as it is shown.
#[derive(Debug)]
pub struct TurnInput {
    pub input: Vec<UserInput>,
    pub display: String,
}

/// What starting a turn waits for.
#[derive(Debug)]
pub enum StartPhase {
    Session,
    ActiveTurn,
    Reserved,
    Locked,
    ReservedAgain,
    Workspace(Reservation),
    Binding(Reservation),
    Resolution(Reservation),
    PromptHook(Reservation, ResolvedInput),
    Enqueued(Reservation, TurnId),
    PendingWritten(TurnId),
    DrainAsked(TurnId),
    DirectoryChanged(Reservation, ResolvedInput),
    PermissionSet(Reservation, ResolvedInput),
    Model(Reservation, ResolvedInput),
    Begun(Reservation, StartWork),
    DirectoryHookRan(Reservation, StartWork),
    Durability(Reservation, StartWork),
    StartWritten(Reservation, StartWork),
    StartUndone(String),
    SpawnRegistered(Reservation, StartWork),
    TitlePrepared(Reservation, StartWork),
    MessageShown(Reservation, StartWork),
    Spawned(Reservation),
    StatusShown(Reservation),
    TurnShown(Reservation),
    Finished,
}

/// What the host observed.
#[derive(Debug)]
pub enum StartEvent {
    SessionFound(bool),
    TurnActive(bool),
    Reserved(Option<Reservation>),
    Done,
    WorkspaceOpened(Option<String>),
    BindingResolved(Option<String>),
    Resolved(InputResolution),
    /// The model that the selection was resolved to.
    ModelResolved(TurnModel),
    HookRan(Option<String>),
    Durable(bool),
    Written(Option<String>),
}

/// What the host has to do next. `Q` is what is queued, `T` what a turn is run
/// with, and `M` what is shown of its message; they are `()` where only the
/// order of the steps matters.
#[derive(Debug)]
pub enum StartAction<Q = PendingItem, T = StartedTurn, M = ShownMessage> {
    /// Find the session.
    FindSession,
    /// Read whether a turn of the session is running.
    ReadActiveTurn,
    /// Read what a turn has to know of the session.
    Reserve,
    /// Lock the state of the session.
    LockState,
    /// Open the workspace of the directory that the request names.
    OpenWorkspace,
    /// Find the binding that the request names.
    ResolveBinding,
    /// Resolve the input in the directory of the turn.
    ResolveInput,
    /// Run the hook for prompts on this text.
    RunPromptHook(String),
    /// Append the item to the queue, where every reader sees it at once.
    Enqueue(Q),
    /// Store the queue entry. That this fails makes no difference.
    WritePending(u128),
    /// Start the next turn of the queue, if the session has become idle.
    DrainIfIdle,
    /// Answer that the input waits behind the active turn.
    Queued { active: TurnId, entry: u128 },
    /// Give the session the directory and its workspace.
    ChangeDirectory,
    /// Give the session the permissions that the request names.
    SetPermission,
    /// Resolve the model and the effort of the turn.
    ResolveModel(TurnSelection),
    /// Begin the turn and let go of the state gate.
    Begin { turn: TurnId, sequence: u64, mode: CollaborationMode, model: TurnModel },
    /// Run the hook for sessions that have moved.
    RunDirectoryHook,
    /// Read whether the session has a rollout.
    ReadDurability,
    /// Append the start of the turn to the rollout.
    AppendTurnStart { turn: TurnId, sequence: u64, mode: CollaborationMode, model: TurnModel },
    /// Let go of the turn.
    ClearActiveTurn(TurnId),
    /// Register the task that will run the turn.
    RegisterSpawn(TurnId),
    /// Make a title of the input as it is shown, where the session has none.
    PrepareTitle,
    /// Tell the clients of the message.
    ShowMessage(M),
    /// Run the turn in a task of its own.
    Spawn(T),
    /// Tell the clients that the session works.
    ShowStatusActive,
    /// Tell the clients that the turn has started.
    ShowTurnStarted(TurnId),
    /// Answer that the turn runs.
    Started(TurnId),
    /// Refuse the turn.
    Reject(Rejection),
    /// Nothing: the event does not belong to the phase.
    Ignore,
}

/// What the host has to do next, without what it does it with.
pub type StartOrder = StartAction<(), (), ()>;

impl StartAction {
    /// What is to be done, without what it is done with.
    pub open spec fn order(self) -> StartOrder {
        match self {
            StartAction::FindSession => StartAction::FindSession,
            StartAction::ReadActiveTurn => StartAction::ReadActiveTurn,
            StartAction::Reserve => StartAction::Reserve,
            StartAction::LockState => StartAction::LockState,
            StartAction::OpenWorkspace => StartAction::OpenWorkspace,
            StartAction::ResolveBinding => StartAction::ResolveBinding,
            StartAction::ResolveInput => StartAction::ResolveInput,
            StartAction::RunPromptHook(text) => StartAction::RunPromptHook(text),
            StartAction::Enqueue(_) => StartAction::Enqueue(()),
            StartAction::WritePending(entry) => StartAction::WritePending(entry),
            StartAction::DrainIfIdle => StartAction::DrainIfIdle,
            StartAction::Queued { active, entry } => StartAction::Queued { active, entry },
            StartAction::ChangeDirectory => StartAction::ChangeDirectory,
            StartAction::SetPermission => StartAction::SetPermission,
            StartAction::ResolveModel(selection) => StartAction::ResolveModel(selection),
            StartAction::Begin { turn, sequence, mode, model } => StartAction::Begin {
                turn,
                sequence,
                mode,
                model,
            },
            StartAction::RunDirectoryHook => StartAction::RunDirectoryHook,
            StartAction::ReadDurability => StartAction::ReadDurability,
            StartAction::AppendTurnStart { turn, sequence, mode, model } => {
                StartAction::AppendTurnStart { turn, sequence, mode, model }
            },
            StartAction::ClearActiveTurn(turn) => StartAction::ClearActiveTurn(turn),
            StartAction::RegisterSpawn(turn) => StartAction::RegisterSpawn(turn),
            StartAction::PrepareTitle => StartAction::PrepareTitle,
            StartAction::ShowMessage(_) => StartAction::ShowMessage(()),
            StartAction::Spawn(_) => StartAction::Spawn(()),
            StartAction::ShowStatusActive => StartAction::ShowStatusActive,
            StartAction::ShowTurnStarted(turn) => StartAction::ShowTurnStarted(turn),
            StartAction::Started(turn) => StartAction::Started(turn),
            StartAction::Reject(why) => StartAction::Reject(why),
            StartAction::Ignore => StartAction::Ignore,
        }
    }
}

/// A step without what it is done with.
pub open spec fn order_of(step: (StartPhase, StartAction)) -> (StartPhase, StartOrder) {
    (step.0, step.1.order())
}

/// The input of the request as it is shown.
pub open spec fn shown_input(request: StartRequest) -> Seq<char> {
    match request.display {
        Some(display) => display@,
        None => Seq::empty(),
    }
}

/// Whether `item` is the queue entry for the request: its input, its text and
/// what they come to, with the mode, the model and the binding that it runs
/// with.
pub open spec fn is_entry_for(
    request: StartRequest,
    held: Reservation,
    resolved: ResolvedInput,
    item: PendingItem,
) -> bool {
    &&& item.id == request.entry
    &&& item.created_at == request.now
    &&& item.kind is UserInput
    &&& input_of(item.kind) == request.input@
    &&& display_of(item.kind) == shown_input(request)
    &&& resolved_of(item.kind) == Some(resolved)
    &&& item.metadata == kept_metadata(
        request.mode,
        selection_kept(request.choice.model, held.choice.model),
        selection_kept(request.choice.binding, held.choice.binding),
    )
}

/// Whether a turn is run with what the request says.
pub open spec fn runs_request(request: StartRequest, work: StartWork, turn: StartedTurn) -> bool {
    &&& turn.input@ == request.input@
    &&& turn.display@ == shown_input(request)
    &&& turn.resolved == work.resolved
    &&& turn.mode == request.mode
    &&& turn.model == work.model
}

/// Whether an action is done with what the request says.
pub open spec fn is_done_with(
    request: StartRequest,
    phase: StartPhase,
    action: StartAction,
) -> bool {
    match action {
        StartAction::Enqueue(item) => phase matches StartPhase::PromptHook(held, resolved)
            && is_entry_for(request, held, resolved, item),
        StartAction::ShowMessage(shown) => phase matches StartPhase::TitlePrepared(_, work)
            && shown.input@ == request.input@ && shown.images@ == work.resolved.images@,
        StartAction::Spawn(turn) => phase matches StartPhase::MessageShown(_, work)
            && runs_request(request, work, turn),
        _ => true,
    }
}

/// Whether `step` is the next one of starting a turn.
pub open spec fn is_start_step(
    request: StartRequest,
    phase: StartPhase,
    event: StartEvent,
    step: (StartPhase, StartAction),
) -> bool {
    &&& order_of(step) == start_step(request, phase, event)
    &&& is_done_with(request, phase, step.1)
}

/// Whether the input of the request has any content.
pub open spec fn has_content(request: StartRequest) -> bool {
    request.input@.len() > 0 && request.display is Some
}

/// The first step of starting a turn.
pub open spec fn start_begin(request: StartRequest) -> (StartPhase, StartOrder) {
    if has_content(request) {
        (StartPhase::Session, StartAction::FindSession)
    } else {
        refused(input_empty())
    }
}

/// The answer to an input without content.
pub open spec fn input_empty() -> Rejection {
    rejection(ErrorCode::EmptyInput, "turn input is empty")
}

/// The answer where a turn is active that does not let others queue.
pub open spec fn turn_running() -> Rejection {
    rejection(ErrorCode::TurnAlreadyRunning, "session already has an active prompt turn")
}

/// The step after a refusal.
pub open spec fn refused(why: Rejection) -> (StartPhase, StartOrder) {
    (StartPhase::Finished, StartAction::Reject(why))
}

/// The sequence number of the turn to be started.
pub open spec fn next_sequence(held: Reservation) -> u64 {
    match held.latest_sequence {
        Some(latest) => (latest + 1) as u64,
        None => 1,
    }
}

/// The step after the workspace is open.
pub open spec fn binding_step(request: StartRequest, held: Reservation) -> (
    StartPhase,
    StartOrder,
) {
    if request.choice.binding is Some {
        (StartPhase::Binding(held), StartAction::ResolveBinding)
    } else {
        (StartPhase::Resolution(held), StartAction::ResolveInput)
    }
}

/// The step once the session is reserved for good.
pub open spec fn workspace_step(request: StartRequest, held: Reservation) -> (
    StartPhase,
    StartOrder,
) {
    if held.changes_directory {
        (StartPhase::Workspace(held), StartAction::OpenWorkspace)
    } else {
        binding_step(request, held)
    }
}

/// The step that finds the model of the turn: what the request chooses, else
/// what the session has.
pub open spec fn model_step(request: StartRequest, held: Reservation, resolved: ResolvedInput) -> (
    StartPhase,
    StartOrder,
) {
    (
        StartPhase::Model(held, resolved),
        StartAction::ResolveModel(turn_selection(request.choice, held.choice)),
    )
}

/// The step after the directory has been seen to.
pub open spec fn permission_step(
    request: StartRequest,
    held: Reservation,
    resolved: ResolvedInput,
) -> (StartPhase, StartOrder) {
    if request.sets_permission {
        (StartPhase::PermissionSet(held, resolved), StartAction::SetPermission)
    } else {
        model_step(request, held, resolved)
    }
}

/// The steps of admission, up to the hook that may block the prompt.
pub open spec fn admit_step(request: StartRequest, phase: StartPhase, event: StartEvent) -> (
    StartPhase,
    StartOrder,
) {
    match (phase, event) {
        (StartPhase::Session, StartEvent::SessionFound(found)) => if !found {
            refused(session_missing())
        } else if request.policy == QueuePolicy::RejectActive {
            (StartPhase::ActiveTurn, StartAction::ReadActiveTurn)
        } else {
            (StartPhase::Reserved, StartAction::Reserve)
        },
        (StartPhase::ActiveTurn, StartEvent::TurnActive(active)) => if active {
            refused(turn_running())
        } else {
            (StartPhase::Reserved, StartAction::Reserve)
        },
        (StartPhase::Reserved, StartEvent::Reserved(reserved)) => match reserved {
            None => refused(session_missing()),
            Some(held) => if held.active is Some {
                workspace_step(request, held)
            } else {
                (StartPhase::Locked, StartAction::LockState)
            },
        },
        (StartPhase::Locked, StartEvent::Done) => (StartPhase::ReservedAgain, StartAction::Reserve),
        (StartPhase::ReservedAgain, StartEvent::Reserved(reserved)) => match reserved {
            None => refused(session_missing()),
            Some(held) => workspace_step(request, held),
        },
        (StartPhase::Workspace(held), StartEvent::WorkspaceOpened(failure)) => match failure {
            Some(error) => refused(
                rejection_about(
                    ErrorCode::InternalError,
                    "failed to initialize session workspace: ",
                    error,
                ),
            ),
            None => binding_step(request, held),
        },
        (StartPhase::Binding(held), StartEvent::BindingResolved(failure)) => match failure {
            Some(error) => refused(rejection_about(ErrorCode::InvalidParams, "", error)),
            None => (StartPhase::Resolution(held), StartAction::ResolveInput),
        },
        (StartPhase::Resolution(held), StartEvent::Resolved(resolution)) => match resolution {
            InputResolution::Failed(failure, error) => refused(
                rejection_about(failure.code(), "failed to resolve turn input: ", error),
            ),
            InputResolution::Empty => refused(input_empty()),
            InputResolution::Ready(resolved) => (
                StartPhase::PromptHook(held, resolved),
                StartAction::RunPromptHook(resolved.text),
            ),
        },
        (StartPhase::PromptHook(held, resolved), StartEvent::HookRan(blocked)) => match (
            blocked,
            held.active,
        ) {
            (Some(reason), _) => refused(
                rejection_about(ErrorCode::PolicyDenied, "prompt blocked by hook: ", reason),
            ),
            (None, Some(active)) => if request.policy == QueuePolicy::RejectActive {
                refused(turn_running())
            } else {
                (StartPhase::Enqueued(held, active), StartAction::Enqueue(()))
            },
            (None, None) => if held.changes_directory {
                (StartPhase::DirectoryChanged(held, resolved), StartAction::ChangeDirectory)
            } else {
                permission_step(request, held, resolved)
            },
        },
        _ => (phase, StartAction::Ignore),
    }
}

/// The steps after admission: queueing, or running.
pub open spec fn launch_step(request: StartRequest, phase: StartPhase, event: StartEvent) -> (
    StartPhase,
    StartOrder,
) {
    match (phase, event) {
        (StartPhase::Enqueued(held, active), StartEvent::Done) => if held.ephemeral {
            (StartPhase::DrainAsked(active), StartAction::DrainIfIdle)
        } else {
            (StartPhase::PendingWritten(active), StartAction::WritePending(request.entry))
        },
        (StartPhase::PendingWritten(active), StartEvent::Written(_)) => (
            StartPhase::DrainAsked(active),
            StartAction::DrainIfIdle,
        ),
        (StartPhase::DrainAsked(active), StartEvent::Done) => (
            StartPhase::Finished,
            StartAction::Queued { active, entry: request.entry },
        ),
        (StartPhase::DirectoryChanged(held, resolved), StartEvent::Done) => permission_step(
            request,
            held,
            resolved,
        ),
        (StartPhase::PermissionSet(held, resolved), StartEvent::Done) => model_step(
            request,
            held,
            resolved,
        ),
        (StartPhase::Model(held, resolved), StartEvent::ModelResolved(model)) => (
            StartPhase::Begun(held, StartWork { resolved, model }),
            StartAction::Begin {
                turn: request.turn,
                sequence: next_sequence(held),
                mode: request.mode,
                model,
            },
        ),
        (StartPhase::Begun(held, work), StartEvent::Done) => if held.changes_directory {
            (StartPhase::DirectoryHookRan(held, work), StartAction::RunDirectoryHook)
        } else {
            (StartPhase::Durability(held, work), StartAction::ReadDurability)
        },
        (StartPhase::DirectoryHookRan(held, work), StartEvent::Done) => (
            StartPhase::Durability(held, work),
            StartAction::ReadDurability,
        ),
        (StartPhase::Durability(held, work), StartEvent::Durable(durable)) => if durable {
            (
                StartPhase::StartWritten(held, work),
                StartAction::AppendTurnStart {
                    turn: request.turn,
                    sequence: next_sequence(held),
                    mode: request.mode,
                    model: work.model,
                },
            )
        } else {
            (StartPhase::SpawnRegistered(held, work), StartAction::RegisterSpawn(request.turn))
        },
        (StartPhase::StartWritten(held, work), StartEvent::Written(failure)) => match failure {
            Some(error) => (
                StartPhase::StartUndone(error),
                StartAction::ClearActiveTurn(request.turn),
            ),
            None => (
                StartPhase::SpawnRegistered(held, work),
                StartAction::RegisterSpawn(request.turn),
            ),
        },
        (StartPhase::StartUndone(error), StartEvent::Done) => refused(
            rejection_about(ErrorCode::InternalError, "failed to persist turn start: ", error),
        ),
        (StartPhase::SpawnRegistered(held, work), StartEvent::Done) => (
            StartPhase::TitlePrepared(held, work),
            StartAction::PrepareTitle,
        ),
        (StartPhase::TitlePrepared(held, work), StartEvent::Done) => (
            StartPhase::MessageShown(held, work),
            StartAction::ShowMessage(()),
        ),
        (StartPhase::MessageShown(held, work), StartEvent::Done) => (
            StartPhase::Spawned(held),
            StartAction::Spawn(()),
        ),
        (StartPhase::Spawned(held), StartEvent::Done) => (
            StartPhase::StatusShown(held),
            StartAction::ShowStatusActive,
        ),
        (StartPhase::StatusShown(held), StartEvent::Done) => (
            StartPhase::TurnShown(held),
            StartAction::ShowTurnStarted(request.turn),
        ),
        (StartPhase::TurnShown(held), StartEvent::Done) => (
            StartPhase::Finished,
            StartAction::Started(request.turn),
        ),
        _ => (phase, StartAction::Ignore),
    }
}

/// Whether the turn is not admitted yet.
pub open spec fn admitting(phase: StartPhase) -> bool {
    match phase {
        StartPhase::Session
        | StartPhase::ActiveTurn
        | StartPhase::Reserved
        | StartPhase::Locked
        | StartPhase::ReservedAgain
        | StartPhase::Workspace(_)
        | StartPhase::Binding(_)
        | StartPhase::Resolution(_)
        | StartPhase::PromptHook(_, _) => true,
        _ => false,
    }
}

/// The next step of starting a turn.
pub open spec fn start_step(request: StartRequest, phase: StartPhase, event: StartEvent) -> (
    StartPhase,
    StartOrder,
) {
    if admitting(phase) {
        admit_step(request, phase, event)
    } else {
        launch_step(request, phase, event)
    }
}

fn refuse(why: Rejection) -> (r: (StartPhase, StartAction))
    ensures
        order_of(r) == refused(why),
        !(r.1 is Enqueue) && !(r.1 is ShowMessage) && !(r.1 is Spawn),
{
    (StartPhase::Finished, StartAction::Reject(why))
}

fn refuse_empty() -> (r: (StartPhase, StartAction))
    ensures
        order_of(r) == refused(input_empty()),
        !(r.1 is Enqueue) && !(r.1 is ShowMessage) && !(r.1 is Spawn),
{
    refuse(reject(ErrorCode::EmptyInput, "turn input is empty"))
}

fn refuse_running() -> (r: (StartPhase, StartAction))
    ensures
        order_of(r) == refused(turn_running()),
        !(r.1 is Enqueue) && !(r.1 is ShowMessage) && !(r.1 is Spawn),
{
    refuse(
        reject(ErrorCode::TurnAlreadyRunning, "session already has an active prompt turn"),
    )
}

fn sequence_for(held: &Reservation) -> (r: u64)
    ensures
        r == next_sequence(*held),
{
    match held.latest_sequence {
        Some(latest) => latest as u64 + 1,
        None => 1,
    }
}

fn go_to_binding(request: &StartRequest, held: Reservation) -> (r: (StartPhase, StartAction))
    ensures
        order_of(r) == binding_step(*request, held),
        !(r.1 is Enqueue) && !(r.1 is ShowMessage) && !(r.1 is Spawn),
{
    if request.choice.binding.is_some() {
        (StartPhase::Binding(held), StartAction::ResolveBinding)
    } else {
        (StartPhase::Resolution(held), StartAction::ResolveInput)
    }
}

fn go_to_workspace(request: &StartRequest, held: Reservation) -> (r: (StartPhase, StartAction))
    ensures
        order_of(r) == workspace_step(*request, held),
        !(r.1 is Enqueue) && !(r.1 is ShowMessage) && !(r.1 is Spawn),
{
    if held.changes_directory {
        (StartPhase::Workspace(held), StartAction::OpenWorkspace)
    } else {
        go_to_binding(request, held)
    }
}

fn begin(request: &StartRequest, held: Reservation, resolved: ResolvedInput, model: TurnModel) -> (r:
    (StartPhase, StartAction))
    ensures
        order_of(r) == (
            StartPhase::Begun(held, StartWork { resolved, model }),
            StartOrder::Begin {
                turn: request.turn,
                sequence: next_sequence(held),
                mode: request.mode,
                model,
            },
        ),
        r.1 is Begin,
{
    let sequence: u64 = sequence_for(&held);
    let named = model.copy();
    (
        StartPhase::Begun(held, StartWork { resolved, model }),
        StartAction::Begin { turn: request.turn, sequence, mode: request.mode, model: named },
    )
}

fn go_to_model(request: &StartRequest, held: Reservation, resolved: ResolvedInput) -> (r: (
    StartPhase,
    StartAction,
))
    ensures
        order_of(r) == model_step(*request, held, resolved),
        r.1 is ResolveModel,
{
    let selection = select_for_turn(&request.choice, &held.choice);
    (StartPhase::Model(held, resolved), StartAction::ResolveModel(selection))
}

fn display_text(request: &StartRequest) -> (r: String)
    ensures
        r@ == shown_input(*request),
{
    match &request.display {
        Some(display) => display.clone(),
        None => {
            let empty = String::new();
            assert(empty@ =~= Seq::empty());
            empty
        },
    }
}

fn enqueue(
    request: &StartRequest,
    held: Reservation,
    resolved: ResolvedInput,
    active: TurnId,
) -> (r: (StartPhase, StartAction))
    ensures
        r.0 == StartPhase::Enqueued(held, active),
        r.1 matches StartAction::Enqueue(item) && is_entry_for(*request, held, resolved, item),
{
    let metadata = pending_turn_metadata(
        request.mode,
        queued_selection(copy_text(&request.choice.model), copy_text(&held.choice.model)),
        queued_selection(copy_text(&request.choice.binding), copy_text(&held.choice.binding)),
    );
    let kind = PendingKind::UserInput {
        input: copy_inputs(&request.input),
        display: display_text(request),
        resolved,
    };
    let item = PendingItem { id: request.entry, kind, metadata, created_at: request.now };
    (StartPhase::Enqueued(held, active), StartAction::Enqueue(item))
}

fn show_message(request: &StartRequest, held: Reservation, work: StartWork) -> (r: (
    StartPhase,
    StartAction,
))
    ensures
        r.0 == StartPhase::MessageShown(held, work),
        r.1 matches StartAction::ShowMessage(shown) && shown.input@ == request.input@
            && shown.images@ == work.resolved.images@,
{
    let shown = ShownMessage {
        input: copy_inputs(&request.input),
        images: copy_texts(&work.resolved.images),
    };
    (StartPhase::MessageShown(held, work), StartAction::ShowMessage(shown))
}

fn spawn(request: &StartRequest, held: Reservation, work: StartWork) -> (r: (
    StartPhase,
    StartAction,
))
    ensures
        r.0 == StartPhase::Spawned(held),
        r.1 matches StartAction::Spawn(turn) && runs_request(*request, work, turn),
{
    let turn = StartedTurn {
        input: copy_inputs(&request.input),
        display: display_text(request),
        resolved: work.resolved,
        mode: request.mode,
        model: work.model,
    };
    (StartPhase::Spawned(held), StartAction::Spawn(turn))
}

fn go_to_permission(request: &StartRequest, held: Reservation, resolved: ResolvedInput) -> (r: (
    StartPhase,
    StartAction,
))
    ensures
        order_of(r) == permission_step(*request, held, resolved),
        !(r.1 is Enqueue) && !(r.1 is ShowMessage) && !(r.1 is Spawn),
{
    if request.sets_permission {
        (StartPhase::PermissionSet(held, resolved), StartAction::SetPermission)
    } else {
        go_to_model(request, held, resolved)
    }
}

fn advance_admission(request: &StartRequest, phase: StartPhase, event: StartEvent) -> (r: (
    StartPhase,
    StartAction,
))
    ensures
        order_of(r) == admit_step(*request, phase, event),
        is_done_with(*request, phase, r.1),
{
    match (phase, event) {
        (StartPhase::Session, StartEvent::SessionFound(found)) => {
            if !found {
                refuse(reject_session_missing())
            } else if request.policy == QueuePolicy::RejectActive {
                (StartPhase::ActiveTurn, StartAction::ReadActiveTurn)
            } else {
                (StartPhase::Reserved, StartAction::Reserve)
            }
        },
        (StartPhase::ActiveTurn, StartEvent::TurnActive(active)) => {
            if active {
                refuse_running()
            } else {
                (StartPhase::Reserved, StartAction::Reserve)
            }
        },
        (StartPhase::Reserved, StartEvent::Reserved(reserved)) => match reserved {
            None => refuse(reject_session_missing()),
            Some(held) => {
                if held.active.is_some() {
                    go_to_workspace(request, held)
                } else {
                    (StartPhase::Locked, StartAction::LockState)
                }
            },
        },
        (StartPhase::Locked, StartEvent::Done) => (StartPhase::ReservedAgain, StartAction::Reserve),
        (StartPhase::ReservedAgain, StartEvent::Reserved(reserved)) => match reserved {
            None => refuse(reject_session_missing()),
            Some(held) => go_to_workspace(request, held),
        },
        (StartPhase::Workspace(held), StartEvent::WorkspaceOpened(failure)) => match failure {
            Some(error) => refuse(
                reject_about(
                    ErrorCode::InternalError,
                    "failed to initialize session workspace: ",
                    error,
                ),
            ),
            None => go_to_binding(request, held),
        },
        (StartPhase::Binding(held), StartEvent::BindingResolved(failure)) => match failure {
            Some(error) => refuse(reject_about(ErrorCode::InvalidParams, "", error)),
            None => (StartPhase::Resolution(held), StartAction::ResolveInput),
        },
        (StartPhase::Resolution(held), StartEvent::Resolved(resolution)) => match resolution {
            InputResolution::Failed(failure, error) => refuse(
                reject_about(failure.error_code(), "failed to resolve turn input: ", error),
            ),
            InputResolution::Empty => refuse_empty(),
            InputResolution::Ready(resolved) => {
                let text = resolved.text.clone();
                (StartPhase::PromptHook(held, resolved), StartAction::RunPromptHook(text))
            },
        },
        (StartPhase::PromptHook(held, resolved), StartEvent::HookRan(blocked)) => match blocked {
            Some(reason) => refuse(
                reject_about(ErrorCode::PolicyDenied, "prompt blocked by hook: ", reason),
            ),
            None => match held.active {
                Some(active) => {
                    if request.policy == QueuePolicy::RejectActive {
                        refuse_running()
                    } else {
                        enqueue(request, held, resolved, active)
                    }
                },
                None => {
                    if held.changes_directory {
                        (StartPhase::DirectoryChanged(held, resolved), StartAction::ChangeDirectory)
                    } else {
                        go_to_permission(request, held, resolved)
                    }
                },
            },
        },
        (phase, _) => (phase, StartAction::Ignore),
    }
}

fn advance_launch(request: &StartRequest, phase: StartPhase, event: StartEvent) -> (r: (
    StartPhase,
    StartAction,
))
    ensures
        order_of(r) == launch_step(*request, phase, event),
        is_done_with(*request, phase, r.1),
{
    match (phase, event) {
        (StartPhase::Enqueued(held, active), StartEvent::Done) => {
            if held.ephemeral {
                (StartPhase::DrainAsked(active), StartAction::DrainIfIdle)
            } else {
                (StartPhase::PendingWritten(active), StartAction::WritePending(request.entry))
            }
        },
        (StartPhase::PendingWritten(active), StartEvent::Written(_)) => (
            StartPhase::DrainAsked(active),
            StartAction::DrainIfIdle,
        ),
        (StartPhase::DrainAsked(active), StartEvent::Done) => (
            StartPhase::Finished,
            StartAction::Queued { active, entry: request.entry },
        ),
        (StartPhase::DirectoryChanged(held, resolved), StartEvent::Done) => go_to_permission(
            request,
            held,
            resolved,
        ),
        (StartPhase::PermissionSet(held, resolved), StartEvent::Done) => go_to_model(
            request,
            held,
            resolved,
        ),
        (StartPhase::Model(held, resolved), StartEvent::ModelResolved(model)) => begin(
            request,
            held,
            resolved,
            model,
        ),
        (StartPhase::Begun(held, work), StartEvent::Done) => {
            if held.changes_directory {
                (StartPhase::DirectoryHookRan(held, work), StartAction::RunDirectoryHook)
            } else {
                (StartPhase::Durability(held, work), StartAction::ReadDurability)
            }
        },
        (StartPhase::DirectoryHookRan(held, work), StartEvent::Done) => (
            StartPhase::Durability(held, work),
            StartAction::ReadDurability,
        ),
        (StartPhase::Durability(held, work), StartEvent::Durable(durable)) => {
            if durable {
                let sequence: u64 = sequence_for(&held);
                let model = work.model.copy();
                (
                    StartPhase::StartWritten(held, work),
                    StartAction::AppendTurnStart {
                        turn: request.turn,
                        sequence,
                        mode: request.mode,
                        model,
                    },
                )
            } else {
                (StartPhase::SpawnRegistered(held, work), StartAction::RegisterSpawn(request.turn))
            }
        },
        (StartPhase::StartWritten(held, work), StartEvent::Written(failure)) => match failure {
            Some(error) => (
                StartPhase::StartUndone(error),
                StartAction::ClearActiveTurn(request.turn),
            ),
            None => (
                StartPhase::SpawnRegistered(held, work),
                StartAction::RegisterSpawn(request.turn),
            ),
        },
        (StartPhase::StartUndone(error), StartEvent::Done) => refuse(
            reject_about(ErrorCode::InternalError, "failed to persist turn start: ", error),
        ),
        (StartPhase::SpawnRegistered(held, work), StartEvent::Done) => (
            StartPhase::TitlePrepared(held, work),
            StartAction::PrepareTitle,
        ),
        (StartPhase::TitlePrepared(held, work), StartEvent::Done) => show_message(
            request,
            held,
            work,
        ),
        (StartPhase::MessageShown(held, work), StartEvent::Done) => spawn(request, held, work),
        (StartPhase::Spawned(held), StartEvent::Done) => (
            StartPhase::StatusShown(held),
            StartAction::ShowStatusActive,
        ),
        (StartPhase::StatusShown(held), StartEvent::Done) => (
            StartPhase::TurnShown(held),
            StartAction::ShowTurnStarted(request.turn),
        ),
        (StartPhase::TurnShown(held), StartEvent::Done) => (
            StartPhase::Finished,
            StartAction::Started(request.turn),
        ),
        (phase, _) => (phase, StartAction::Ignore),
    }
}

/// Begins to start a turn. An input without content is refused.
pub fn begin_start(request: &StartRequest) -> (r: (StartPhase, StartAction))
    ensures
        order_of(r) == start_begin(*request),
{
    if request.input.len() > 0 && request.display.is_some() {
        (StartPhase::Session, StartAction::FindSession)
    } else {
        refuse_empty()
    }
}

/// Takes the start of a turn one step further.
pub fn advance_start(request: &StartRequest, phase: StartPhase, event: StartEvent) -> (r: (
    StartPhase,
    StartAction,
))
    ensures
        is_start_step(*request, phase, event, r),
{
    match phase {
        StartPhase::Session
        | StartPhase::ActiveTurn
        | StartPhase::Reserved
        | StartPhase::Locked
        | StartPhase::ReservedAgain
        | StartPhase::Workspace(_)
        | StartPhase::Binding(_)
        | StartPhase::Resolution(_)
        | StartPhase::PromptHook(_, _) => advance_admission(request, phase, event),
        _ => advance_launch(request, phase, event),
    }
}

/// The phase that the start of a turn is in after `events`, and what it asked
/// the host to do on the way.
pub open spec fn start_trace(request: StartRequest, events: Seq<StartEvent>) -> (
    StartPhase,
    Seq<StartOrder>,
)
    decreases events.len(),
{
    if events.len() == 0 {
        (start_begin(request).0, seq![start_begin(request).1])
    } else {
        let (phase, actions) = start_trace(request, events.drop_last());
        let (next, action) = start_step(request, phase, events.last());
        (next, actions.push(action))
    }
}

/// Whether the host was asked to take the state gate.
pub open spec fn locks(actions: Seq<StartOrder>) -> bool {
    exists|i: int| 0 <= i < actions.len() && #[trigger] actions[i] is LockState
}

/// Whether the host was asked to begin the turn.
pub open spec fn begins(actions: Seq<StartOrder>) -> bool {
    exists|i: int| 0 <= i < actions.len() && #[trigger] actions[i] is Begin
}

/// Whether the host was asked to queue the input.
pub open spec fn enqueues(actions: Seq<StartOrder>) -> bool {
    exists|i: int| 0 <= i < actions.len() && #[trigger] actions[i] is Enqueue
}

/// The session as it was last read for the turn.
pub open spec fn held_by(phase: StartPhase) -> Option<Reservation> {
    match phase {
        StartPhase::Workspace(held)
        | StartPhase::Binding(held)
        | StartPhase::Resolution(held)
        | StartPhase::PromptHook(held, _)
        | StartPhase::Enqueued(held, _)
        | StartPhase::DirectoryChanged(held, _)
        | StartPhase::PermissionSet(held, _)
        | StartPhase::Model(held, _)
        | StartPhase::Begun(held, _)
        | StartPhase::DirectoryHookRan(held, _)
        | StartPhase::Durability(held, _)
        | StartPhase::StartWritten(held, _)
        | StartPhase::SpawnRegistered(held, _)
        | StartPhase::TitlePrepared(held, _)
        | StartPhase::MessageShown(held, _)
        | StartPhase::Spawned(held)
        | StartPhase::StatusShown(held)
        | StartPhase::TurnShown(held) => Some(held),
        _ => None,
    }
}

/// Whether the session was last read as having no active turn.
pub open spec fn holds_idle(phase: StartPhase) -> bool {
    held_by(phase) is Some && held_by(phase)->0.active is None
}

spec fn starting(phase: StartPhase) -> bool {
    match phase {
        StartPhase::DirectoryChanged(_, _)
        | StartPhase::PermissionSet(_, _)
        | StartPhase::Model(_, _)
        | StartPhase::Begun(_, _)
        | StartPhase::DirectoryHookRan(_, _)
        | StartPhase::Durability(_, _)
        | StartPhase::StartWritten(_, _)
        | StartPhase::SpawnRegistered(_, _)
        | StartPhase::TitlePrepared(_, _)
        | StartPhase::MessageShown(_, _)
        | StartPhase::Spawned(_)
        | StartPhase::StatusShown(_)
        | StartPhase::TurnShown(_) => true,
        _ => false,
    }
}

spec fn start_shape(phase: StartPhase) -> bool {
    starting(phase) ==> held_by(phase)->0.active is None
}

proof fn lemma_start_shape(request: StartRequest, phase: StartPhase, event: StartEvent)
    requires
        start_shape(phase),
    ensures
        ({
            let (next, action) = start_step(request, phase, event);
            &&& start_shape(next)
            &&& holds_idle(next) ==> {
                ||| phase is ReservedAgain
                ||| held_by(phase) == held_by(next)
            }
            &&& next is ReservedAgain ==> phase is Locked || next == phase
            &&& next is Locked ==> action is LockState || next == phase
            &&& action is Begin ==> holds_idle(phase)
            &&& action is Enqueue ==> request.policy == QueuePolicy::Queue
        }),
{
}

proof fn lemma_start_is_gated(request: StartRequest, events: Seq<StartEvent>)
    ensures
        ({
            let (phase, actions) = start_trace(request, events);
            &&& start_shape(phase)
            &&& phase is Locked || phase is ReservedAgain ==> locks(actions)
            &&& holds_idle(phase) ==> locks(actions)
            &&& begins(actions) ==> locks(actions)
            &&& enqueues(actions) ==> request.policy == QueuePolicy::Queue
        }),
    decreases events.len(),
{
    if events.len() > 0 {
        lemma_start_is_gated(request, events.drop_last());
        let (phase, actions) = start_trace(request, events.drop_last());
        lemma_start_shape(request, phase, events.last());
        let (next, action) = start_step(request, phase, events.last());
        let after = actions.push(action);
        if locks(actions) {
            let i = choose|i: int| 0 <= i < actions.len() && #[trigger] actions[i] is LockState;
            assert(after[i] is LockState);
        }
        if action is LockState {
            assert(after[actions.len() as int] is LockState);
        }
        if begins(after) && !(action is Begin) {
            let i = choose|i: int| 0 <= i < after.len() && #[trigger] after[i] is Begin;
            assert(actions[i] is Begin);
        }
        if enqueues(after) && !(action is Enqueue) {
            let i = choose|i: int| 0 <= i < after.len() && #[trigger] after[i] is Enqueue;
            assert(actions[i] is Enqueue);
        }
    }
}

/// A turn begins only after the state gate was taken, on what was read under
/// it, and never while another turn is active.
pub proof fn law_turns_begin_under_the_gate(request: StartRequest, events: Seq<StartEvent>)
    ensures
        begins(start_trace(request, events).1) ==> locks(start_trace(request, events).1),
        forall|phase: StartPhase, event: StartEvent|
            phase == start_trace(request, events).0 && (#[trigger] start_step(
                request,
                phase,
                event,
            )).1 is Begin ==> holds_idle(phase),
{
    lemma_start_is_gated(request, events);
    assert forall|phase: StartPhase, event: StartEvent|
        phase == start_trace(request, events).0 && (#[trigger] start_step(
            request,
            phase,
            event,
        )).1 is Begin implies holds_idle(phase) by {
        lemma_start_shape(request, phase, event);
    }
}

/// A client that does not want to wait is never queued.
pub proof fn law_impatient_clients_are_never_queued(
    request: StartRequest,
    events: Seq<StartEvent>,
)
    requires
        request.policy == QueuePolicy::RejectActive,
    ensures
        !enqueues(start_trace(request, events).1),
{
    lemma_start_is_gated(request, events);
}

/// A turn whose start was not written does not stay active: the refusal comes
/// only after the session has let go of the turn.
pub proof fn law_unwritten_turn_is_undone(
    request: StartRequest,
    held: Reservation,
    work: StartWork,
    error: String,
    event: StartEvent,
)
    ensures
        start_step(
            request,
            StartPhase::StartWritten(held, work),
            StartEvent::Written(Some(error)),
        ) == (
            StartPhase::StartUndone(error),
            StartOrder::ClearActiveTurn(request.turn),
        ),
        ({
            let step = start_step(request, StartPhase::StartUndone(error), event);
            ||| step == (StartPhase::StartUndone(error), StartOrder::Ignore)
            ||| step.1 is Reject && event is Done
        }),
{
}

/// An input that has to wait is queued as it was sent, and the client is told
/// the entry that holds it and the turn that it waits for.
pub proof fn law_queued_inputs_are_the_ones_sent(
    request: StartRequest,
    phase: StartPhase,
    event: StartEvent,
    step: (StartPhase, StartAction),
    later: StartPhase,
    after: StartEvent,
)
    requires
        is_start_step(request, phase, event, step),
        step.1 is Enqueue,
    ensures
        ({
            let item = step.1->Enqueue_0;
            &&& input_of(item.kind) == request.input@
            &&& display_of(item.kind) == shown_input(request)
            &&& held_by(phase)->0.active == Some(step.0->Enqueued_1)
            &&& start_step(request, later, after).1 matches StartAction::Queued { active, entry }
                ==> entry == item.id && later == StartPhase::DrainAsked(active)
        }),
{
}

/// What an admitted turn goes on with, as far as the phase holds it.
pub open spec fn work_in(phase: StartPhase) -> Option<StartWork> {
    match phase {
        StartPhase::Begun(_, work)
        | StartPhase::DirectoryHookRan(_, work)
        | StartPhase::Durability(_, work)
        | StartPhase::StartWritten(_, work)
        | StartPhase::SpawnRegistered(_, work)
        | StartPhase::TitlePrepared(_, work)
        | StartPhase::MessageShown(_, work) => Some(work),
        _ => None,
    }
}

/// What the input comes to, as far as the phase holds it.
pub open spec fn resolved_in(phase: StartPhase) -> Option<ResolvedInput> {
    match phase {
        StartPhase::PromptHook(_, resolved)
        | StartPhase::DirectoryChanged(_, resolved)
        | StartPhase::PermissionSet(_, resolved)
        | StartPhase::Model(_, resolved) => Some(resolved),
        _ => match work_in(phase) {
            Some(work) => Some(work.resolved),
            None => None,
        },
    }
}

/// A turn goes on with what the host has found its input to come to, and with
/// the model that it has found.
pub proof fn law_turns_go_on_with_what_was_found(request: StartRequest, events: Seq<StartEvent>)
    ensures
        resolved_in(start_trace(request, events).0) matches Some(resolved) ==> events.contains(
            StartEvent::Resolved(InputResolution::Ready(resolved)),
        ),
        work_in(start_trace(request, events).0) matches Some(work) ==> events.contains(
            StartEvent::ModelResolved(work.model),
        ),
    decreases events.len(),
{
    if events.len() > 0 {
        let before = events.drop_last();
        law_turns_go_on_with_what_was_found(request, before);
        assert(events[events.len() - 1] == events.last());
        assert forall|event: StartEvent| before.contains(event) implies events.contains(event) by {
            let i = choose|i: int| 0 <= i < before.len() && before[i] == event;
            assert(events[i] == event);
        }
    }
}

/// A turn is run with the input that was sent, as it is shown, with what it
/// comes to, and with the model and the mode that it was begun with.
pub proof fn law_started_turns_run_what_was_sent(
    request: StartRequest,
    held: Reservation,
    work: StartWork,
    step: (StartPhase, StartAction),
)
    requires
        is_start_step(request, StartPhase::MessageShown(held, work), StartEvent::Done, step),
    ensures
        step.1 matches StartAction::Spawn(turn) && runs_request(request, work, turn),
        forall|resolved: ResolvedInput, model: TurnModel| #[trigger]
            start_step(
                request,
                StartPhase::Model(held, resolved),
                StartEvent::ModelResolved(model),
            ) == (
                StartPhase::Begun(held, StartWork { resolved, model }),
                StartOrder::Begin {
                    turn: request.turn,
                    sequence: next_sequence(held),
                    mode: request.mode,
                    model,
                },
            ),
{
}

/// A turn that is asked for: what an input that meets an active turn does, the
/// input, the mode, and what is said of the model.
#[derive(Debug)]
pub struct TurnAsked {
    pub policy: QueuePolicy,
    pub input: Vec<UserInput>,
    pub mode: CollaborationMode,
    pub choice: ModelChoice,
}

/// A turn that is asked for by its input alone: the model is the session's.
pub open spec fn turn_asked(
    policy: QueuePolicy,
    input: Vec<UserInput>,
    mode: CollaborationMode,
) -> TurnAsked {
    TurnAsked {
        policy,
        input,
        mode,
        choice: ModelChoice { binding: None, model: None, effort: None },
    }
}

pub(crate) fn ask_for_turn(
    policy: QueuePolicy,
    input: Vec<UserInput>,
    mode: CollaborationMode,
) -> (r: TurnAsked)
    ensures
        r == turn_asked(policy, input, mode),
{
    TurnAsked {
        policy,
        input,
        mode,
        choice: ModelChoice { binding: None, model: None, effort: None },
    }
}

/// What admission said of a turn.
#[derive(Clone, Copy, Debug, PartialEq, Eq, Structural)]
pub enum Admission {
    Refused,
    Started(TurnId),
    Queued,
}

/// What a request for a turn waits for. Its input goes with it.
#[derive(Debug)]
pub enum RequestPhase {
    Input,
    Known(Vec<UserInput>),
    Mode(Vec<UserInput>),
    SavedTurn(Vec<UserInput>, CollaborationMode),
    Admitted,
    Registered(TurnId),
    Finished,
}

/// What the host observed during a request for a turn.
#[derive(Debug)]
pub enum RequestEvent {
    /// The input with its images stored, or the part that refuses it.
    Input(Result<Vec<UserInput>, PartRefusal>),
    /// The turn that an earlier request with the same key started.
    Known(Option<TurnId>),
    /// The mode of the session, if it is there.
    Mode(Option<CollaborationMode>),
    /// Why a turn that was saved could not be given up, if it could not.
    SavedTurn(Option<String>),
    Admitted(Admission),
    Active(Option<TurnId>),
}

/// What the host has to do for a request for a turn.
#[derive(Debug)]
pub enum RequestAction {
    /// Look for the turn that the key of the request has started.
    LookUpKey,
    /// Read the mode of the session.
    ReadMode,
    /// Cancel the saved turn of the session, if it has one.
    CancelSavedTurn,
    /// Run the start of the turn.
    Admit(TurnAsked),
    /// Read which turn of the session is running.
    ReadActiveTurn,
    /// Answer with the turn of the earlier request.
    Replay(TurnId),
    /// Note the turn for the request's key and answer with it.
    AnswerTurn(TurnId),
    /// Answer as admission did.
    PassOn,
    /// Refuse the request.
    Reject(Rejection),
    /// Nothing: the event does not belong to the phase.
    Ignore,
}

/// The answer to an input with a part that cannot start a turn.
pub open spec fn unstartable(refusal: PartRefusal) -> Rejection {
    match refusal {
        PartRefusal::Audio(_) => rejection(
            ErrorCode::InvalidParams,
            "audio inputs are not served by canonical turn/start yet",
        ),
        PartRefusal::Image(ImageUriError::NotData) => rejection(
            ErrorCode::InvalidParams,
            "failed to decode image input: only data: image URIs are supported",
        ),
        PartRefusal::Image(ImageUriError::NoPayload) => rejection(
            ErrorCode::InvalidParams,
            "failed to decode image input: invalid data URI: missing payload",
        ),
        PartRefusal::Image(ImageUriError::NotBase64) => rejection(
            ErrorCode::InvalidParams,
            "failed to decode image input: only base64-encoded data URIs are supported",
        ),
        PartRefusal::Image(ImageUriError::Undecodable(error)) => rejection_about(
            ErrorCode::InvalidParams,
            "failed to decode image input: failed to decode image data URI: ",
            error,
        ),
        PartRefusal::NotStored(error) => rejection_about(
            ErrorCode::InvalidParams,
            "failed to decode image input: ",
            error,
        ),
    }
}

fn refuse_part(refusal: &PartRefusal) -> (r: Rejection)
    ensures
        r == unstartable(*refusal),
        r.message_view() == refusal.turn_message_view(),
{
    let why = match refusal {
        PartRefusal::Audio(_) => reject(
            ErrorCode::InvalidParams,
            "audio inputs are not served by canonical turn/start yet",
        ),
        PartRefusal::Image(ImageUriError::NotData) => reject(
            ErrorCode::InvalidParams,
            "failed to decode image input: only data: image URIs are supported",
        ),
        PartRefusal::Image(ImageUriError::NoPayload) => reject(
            ErrorCode::InvalidParams,
            "failed to decode image input: invalid data URI: missing payload",
        ),
        PartRefusal::Image(ImageUriError::NotBase64) => reject(
            ErrorCode::InvalidParams,
            "failed to decode image input: only base64-encoded data URIs are supported",
        ),
        PartRefusal::Image(ImageUriError::Undecodable(error)) => reject_about(
            ErrorCode::InvalidParams,
            "failed to decode image input: failed to decode image data URI: ",
            error.clone(),
        ),
        PartRefusal::NotStored(error) => reject_about(
            ErrorCode::InvalidParams,
            "failed to decode image input: ",
            error.clone(),
        ),
    };
    proof {
        reveal_strlit("failed to decode image input: ");
        reveal_strlit("only data: image URIs are supported");
        reveal_strlit("failed to decode image input: only data: image URIs are supported");
        reveal_strlit("invalid data URI: missing payload");
        reveal_strlit("failed to decode image input: invalid data URI: missing payload");
        reveal_strlit("only base64-encoded data URIs are supported");
        reveal_strlit(
            "failed to decode image input: only base64-encoded data URIs are supported",
        );
        reveal_strlit("failed to decode image data URI: ");
        reveal_strlit("failed to decode image input: failed to decode image data URI: ");
        assert(why.message_view() =~= refusal.turn_message_view());
    }
    why
}

/// The next step of a request for a turn: an earlier turn with the same key
/// wins; a turn that was queued after all means that the session is busy.
pub open spec fn request_step(phase: RequestPhase, event: RequestEvent) -> (
    RequestPhase,
    RequestAction,
) {
    match (phase, event) {
        (RequestPhase::Input, RequestEvent::Input(stored)) => match stored {
            Err(refusal) => (
                RequestPhase::Finished,
                RequestAction::Reject(unstartable(refusal)),
            ),
            Ok(input) => (RequestPhase::Known(input), RequestAction::LookUpKey),
        },
        (RequestPhase::Known(input), RequestEvent::Known(known)) => match known {
            Some(turn) => (RequestPhase::Finished, RequestAction::Replay(turn)),
            None => (RequestPhase::Mode(input), RequestAction::ReadMode),
        },
        (RequestPhase::Mode(input), RequestEvent::Mode(mode)) => (
            RequestPhase::SavedTurn(
                input,
                match mode {
                    Some(mode) => mode,
                    None => CollaborationMode::Build,
                },
            ),
            RequestAction::CancelSavedTurn,
        ),
        (RequestPhase::SavedTurn(input, mode), RequestEvent::SavedTurn(failure)) => match failure {
            Some(error) => (
                RequestPhase::Finished,
                RequestAction::Reject(rejection_about(ErrorCode::InternalError, "", error)),
            ),
            None => (
                RequestPhase::Admitted,
                RequestAction::Admit(turn_asked(QueuePolicy::RejectActive, input, mode)),
            ),
        },
        (RequestPhase::Admitted, RequestEvent::Admitted(admission)) => match admission {
            Admission::Refused => (RequestPhase::Finished, RequestAction::PassOn),
            Admission::Queued => (
                RequestPhase::Finished,
                RequestAction::Reject(
                    rejection(
                        ErrorCode::TurnAlreadyRunning,
                        "session already has an active prompt turn",
                    ),
                ),
            ),
            Admission::Started(turn) => (
                RequestPhase::Registered(turn),
                RequestAction::ReadActiveTurn,
            ),
        },
        (RequestPhase::Registered(turn), RequestEvent::Active(active)) => if active == Some(turn) {
            (RequestPhase::Finished, RequestAction::AnswerTurn(turn))
        } else {
            (RequestPhase::Finished, RequestAction::PassOn)
        },
        _ => (phase, RequestAction::Ignore),
    }
}

/// Takes a request for a turn one step further. It begins with the check of
/// its input.
pub fn advance_request(phase: RequestPhase, event: RequestEvent) -> (r: (
    RequestPhase,
    RequestAction,
))
    ensures
        r == request_step(phase, event),
{
    match (phase, event) {
        (RequestPhase::Input, RequestEvent::Input(stored)) => match stored {
            Err(refusal) => (
                RequestPhase::Finished,
                RequestAction::Reject(refuse_part(&refusal)),
            ),
            Ok(input) => (RequestPhase::Known(input), RequestAction::LookUpKey),
        },
        (RequestPhase::Known(input), RequestEvent::Known(known)) => match known {
            Some(turn) => (RequestPhase::Finished, RequestAction::Replay(turn)),
            None => (RequestPhase::Mode(input), RequestAction::ReadMode),
        },
        (RequestPhase::Mode(input), RequestEvent::Mode(mode)) => (
            RequestPhase::SavedTurn(
                input,
                match mode {
                    Some(mode) => mode,
                    None => CollaborationMode::Build,
                },
            ),
            RequestAction::CancelSavedTurn,
        ),
        (RequestPhase::SavedTurn(input, mode), RequestEvent::SavedTurn(failure)) => match failure {
            Some(error) => (
                RequestPhase::Finished,
                RequestAction::Reject(reject_about(ErrorCode::InternalError, "", error)),
            ),
            None => (
                RequestPhase::Admitted,
                RequestAction::Admit(ask_for_turn(QueuePolicy::RejectActive, input, mode)),
            ),
        },
        (RequestPhase::Admitted, RequestEvent::Admitted(admission)) => match admission {
            Admission::Refused => (RequestPhase::Finished, RequestAction::PassOn),
            Admission::Queued => (
                RequestPhase::Finished,
                RequestAction::Reject(
                    reject(
                        ErrorCode::TurnAlreadyRunning,
                        "session already has an active prompt turn",
                    ),
                ),
            ),
            Admission::Started(turn) => (
                RequestPhase::Registered(turn),
                RequestAction::ReadActiveTurn,
            ),
        },
        (RequestPhase::Registered(turn), RequestEvent::Active(active)) => {
            let registered = match active {
                Some(active) => active == turn,
                None => false,
            };
            if registered {
                (RequestPhase::Finished, RequestAction::AnswerTurn(turn))
            } else {
                (RequestPhase::Finished, RequestAction::PassOn)
            }
        },
        (phase, _) => (phase, RequestAction::Ignore),
    }
}

/// A request whose key is known starts no second turn, and a turn is started
/// with the input that was sent, for a client that does not want to wait.
pub proof fn law_known_requests_start_no_turn(input: Vec<UserInput>, turn: TurnId)
    ensures
        request_step(RequestPhase::Known(input), RequestEvent::Known(Some(turn))) == (
            RequestPhase::Finished,
            RequestAction::Replay(turn),
        ),
        forall|phase: RequestPhase, event: RequestEvent|
            (#[trigger] request_step(phase, event)).1 matches RequestAction::Admit(asked) ==> {
                &&& event == RequestEvent::SavedTurn(None)
                &&& phase == RequestPhase::SavedTurn(asked.input, asked.mode)
                &&& asked.policy == QueuePolicy::RejectActive
            },
{
}

/// Whether a turn is resolved with the model and the effort that its request
/// names, and where it names none with those of a session that chose `session`.
pub open spec fn goes_by(
    request: StartRequest,
    session: ModelChoice,
    asked: TurnSelection,
) -> bool {
    &&& request.choice.binding is Some ==> asked.model == request.choice.binding
    &&& request.choice.binding is None && request.choice.model is Some ==> asked.model
        == request.choice.model
    &&& request.choice.binding is None && request.choice.model is None && session.binding is Some
        ==> asked.model == session.binding
    &&& request.choice.binding is None && request.choice.model is None && session.binding is None
        ==> asked.model == session.model
    &&& request.choice.effort is Some ==> asked.effort == request.choice.effort
    &&& request.choice.effort is None ==> asked.effort == session.effort
}

/// Whether the host told, among `events`, of a session with these choices.
pub open spec fn told_of(events: Seq<StartEvent>, session: ModelChoice) -> bool {
    exists|i: int|
        0 <= i < events.len() && (#[trigger] events[i] matches StartEvent::Reserved(Some(held))
            && held.choice == session)
}

proof fn lemma_reservations_were_told(request: StartRequest, events: Seq<StartEvent>)
    ensures
        held_by(start_trace(request, events).0) matches Some(held) ==> told_of(events, held.choice),
    decreases events.len(),
{
    if events.len() > 0 {
        let before = events.drop_last();
        lemma_reservations_were_told(request, before);
        let phase = start_trace(request, before).0;
        let next = start_step(request, phase, events.last()).0;
        if held_by(next) is Some {
            let choice = held_by(next)->0.choice;
            if held_by(phase) == held_by(next) {
                let i = choose|i: int|
                    0 <= i < before.len() && (#[trigger] before[i] matches StartEvent::Reserved(
                        Some(held),
                    ) && held.choice == choice);
                assert(events[i] == before[i]);
            } else {
                assert(events[events.len() - 1] == events.last());
            }
        }
    }
}

/// In every run of starting a turn, the model that the host is asked to resolve
/// is the request's binding, or the model that it names where it names no
/// binding; only where it names neither is it the session's. The effort follows
/// the request in the same way.
pub proof fn law_turns_run_with_the_model_asked_for(
    request: StartRequest,
    events: Seq<StartEvent>,
    at: int,
)
    requires
        0 <= at < start_trace(request, events).1.len(),
        start_trace(request, events).1[at] is ResolveModel,
    ensures
        ({
            let asked = start_trace(request, events).1[at]->ResolveModel_0;
            exists|session: ModelChoice|
                #[trigger] told_of(events, session) && goes_by(request, session, asked)
        }),
    decreases events.len(),
{
    if events.len() > 0 {
        let before = events.drop_last();
        let (phase, actions) = start_trace(request, before);
        let asked = start_trace(request, events).1[at]->ResolveModel_0;
        if at < actions.len() {
            law_turns_run_with_the_model_asked_for(request, before, at);
            let session = choose|session: ModelChoice|
                #[trigger] told_of(before, session) && goes_by(request, session, asked);
            let i = choose|i: int|
                0 <= i < before.len() && (#[trigger] before[i] matches StartEvent::Reserved(
                    Some(held),
                ) && held.choice == session);
            assert(events[i] == before[i]);
            assert(told_of(events, session));
        } else {
            lemma_reservations_were_told(request, events);
            let held = held_by(start_trace(request, events).0)->0;
            assert(told_of(events, held.choice));
            assert(goes_by(request, held.choice, asked));
        }
    }
}

/// A turn that nothing stands in the way of is started: the session is looked
/// up, reserved, locked and reserved again, the input is read and shown to the
/// hook, the model is resolved, and the turn is begun as the next of its
/// session, written down where the session is kept, registered, shown and run.
pub proof fn law_idle_sessions_run_the_turn(
    request: StartRequest,
    seen: Reservation,
    held: Reservation,
    resolved: ResolvedInput,
    model: TurnModel,
    durable: bool,
)
    requires
        request.input@.len() > 0,
        request.display is Some,
        request.policy is Queue,
        request.choice.binding is None,
        !request.sets_permission,
        seen.active is None,
        held.active is None,
        !held.changes_directory,
    ensures
        ({
            let a = start_begin(request);
            let b = start_step(request, a.0, StartEvent::SessionFound(true));
            let c = start_step(request, b.0, StartEvent::Reserved(Some(seen)));
            let d = start_step(request, c.0, StartEvent::Done);
            let e = start_step(request, d.0, StartEvent::Reserved(Some(held)));
            let f = start_step(
                request,
                e.0,
                StartEvent::Resolved(InputResolution::Ready(resolved)),
            );
            let g = start_step(request, f.0, StartEvent::HookRan(None));
            let h = start_step(request, g.0, StartEvent::ModelResolved(model));
            let i = start_step(request, h.0, StartEvent::Done);
            let j = start_step(request, i.0, StartEvent::Durable(durable));
            let k = if durable {
                start_step(request, j.0, StartEvent::Written(None))
            } else {
                j
            };
            let l = start_step(request, k.0, StartEvent::Done);
            let m = start_step(request, l.0, StartEvent::Done);
            let n = start_step(request, m.0, StartEvent::Done);
            let o = start_step(request, n.0, StartEvent::Done);
            let p = start_step(request, o.0, StartEvent::Done);
            let q = start_step(request, p.0, StartEvent::Done);
            &&& a.1 is FindSession
            &&& b.1 is Reserve
            &&& c.1 is LockState
            &&& d.1 is Reserve
            &&& e.1 is ResolveInput
            &&& f.1 == StartOrder::RunPromptHook(resolved.text)
            &&& g.1 is ResolveModel
            &&& h.1 matches StartAction::Begin { turn, sequence, mode, model: runs } && {
                &&& turn == request.turn
                &&& mode == request.mode
                &&& runs == model
                &&& held.latest_sequence is None ==> sequence == 1
                &&& held.latest_sequence is Some ==> sequence == held.latest_sequence->0 + 1
            }
            &&& i.1 is ReadDurability
            &&& durable ==> (h.1 matches StartAction::Begin { turn, sequence, mode, model: runs }
                && j.1 == StartOrder::AppendTurnStart { turn, sequence, mode, model: runs })
            &&& k.1 == StartOrder::RegisterSpawn(request.turn)
            &&& l.1 is PrepareTitle
            &&& m.1 is ShowMessage
            &&& n.1 is Spawn
            &&& o.1 is ShowStatusActive
            &&& p.1 == StartOrder::ShowTurnStarted(request.turn)
            &&& q.1 == StartOrder::Started(request.turn)
            &&& q.0 is Finished
        }),
{
}

/// What else a request or its session asks for comes before the turn runs: a
/// new directory is opened first and changed to before the permission is set,
/// the permission is set before the model is resolved, and a binding is
/// resolved before the input is read. A turn that changes the directory runs
/// the directory's hook.
pub proof fn law_settings_come_before_the_turn(
    request: StartRequest,
    held: Reservation,
    resolved: ResolvedInput,
    model: TurnModel,
)
    requires
        held.active is None,
        held.changes_directory,
        request.choice.binding is Some,
        request.sets_permission,
    ensures
        ({
            let a = start_step(
                request,
                StartPhase::ReservedAgain,
                StartEvent::Reserved(Some(held)),
            );
            let b = start_step(request, a.0, StartEvent::WorkspaceOpened(None));
            let c = start_step(request, b.0, StartEvent::BindingResolved(None));
            let d = start_step(
                request,
                c.0,
                StartEvent::Resolved(InputResolution::Ready(resolved)),
            );
            let e = start_step(request, d.0, StartEvent::HookRan(None));
            let f = start_step(request, e.0, StartEvent::Done);
            let g = start_step(request, f.0, StartEvent::Done);
            let h = start_step(request, g.0, StartEvent::ModelResolved(model));
            let i = start_step(request, h.0, StartEvent::Done);
            let j = start_step(request, i.0, StartEvent::Done);
            &&& a.1 is OpenWorkspace
            &&& b.1 is ResolveBinding
            &&& c.1 is ResolveInput
            &&& d.1 == StartOrder::RunPromptHook(resolved.text)
            &&& e.1 is ChangeDirectory
            &&& f.1 is SetPermission
            &&& g.1 == StartOrder::ResolveModel(
                TurnSelection {
                    model: request.choice.binding,
                    effort: if request.choice.effort is Some {
                        request.choice.effort
                    } else {
                        held.choice.effort
                    },
                },
            )
            &&& h.1 is Begin
            &&& i.1 is RunDirectoryHook
            &&& j.1 is ReadDurability
        }),
{
}

/// Input for a session whose turn is running waits in the queue: it is added,
/// written down unless the session is ephemeral, and the client is told which
/// turn it waits for and under which name.
pub proof fn law_busy_sessions_queue_the_input(
    request: StartRequest,
    held: Reservation,
    resolved: ResolvedInput,
    active: TurnId,
    unwritten: Option<String>,
)
    requires
        request.policy is Queue,
        request.choice.binding is None,
        held.active == Some(active),
        !held.changes_directory,
    ensures
        ({
            let a = start_step(request, StartPhase::Session, StartEvent::SessionFound(true));
            let b = start_step(request, a.0, StartEvent::Reserved(Some(held)));
            let c = start_step(
                request,
                b.0,
                StartEvent::Resolved(InputResolution::Ready(resolved)),
            );
            let d = start_step(request, c.0, StartEvent::HookRan(None));
            let e = start_step(request, d.0, StartEvent::Done);
            let f = if held.ephemeral {
                e
            } else {
                start_step(request, e.0, StartEvent::Written(unwritten))
            };
            let g = start_step(request, f.0, StartEvent::Done);
            &&& b.1 is ResolveInput
            &&& c.1 == StartOrder::RunPromptHook(resolved.text)
            &&& d.1 is Enqueue
            &&& !held.ephemeral ==> e.1 == StartOrder::WritePending(request.entry)
            &&& f.1 is DrainIfIdle
            &&& g.1 == StartOrder::Queued { active, entry: request.entry }
            &&& g.0 is Finished
        }),
{
}

/// What a queued input keeps for the turn that it will start: its parts, what
/// is shown of it, what it was resolved to, the model and the binding that it
/// names or else those that the session had, and the mode where it is not the
/// usual one.
pub proof fn law_queued_inputs_keep_their_settings(
    request: StartRequest,
    held: Reservation,
    resolved: ResolvedInput,
    step: (StartPhase, StartAction),
)
    requires
        is_start_step(
            request,
            StartPhase::PromptHook(held, resolved),
            StartEvent::HookRan(None),
            step,
        ),
        held.active is Some,
        request.policy is Queue,
    ensures
        step.1 matches StartAction::Enqueue(item) && {
            let model = if request.choice.model is Some {
                request.choice.model
            } else {
                held.choice.model
            };
            let binding = if request.choice.binding is Some {
                request.choice.binding
            } else {
                held.choice.binding
            };
            &&& item.id == request.entry
            &&& item.created_at == request.now
            &&& resolved_of(item.kind) == Some(resolved)
            &&& model is None && binding is None && request.mode is Build ==> item.metadata is None
            &&& model is Some || binding is Some || request.mode is Plan ==> item.metadata is Some
            &&& item.metadata matches Some(kept) ==> kept.model == model && kept.binding == binding
                && (request.mode is Plan ==> kept.mode == Some(CollaborationMode::Plan)) && (
            request.mode is Build ==> kept.mode is None)
        },
{
}

/// What stands in the way of a turn is answered, and nothing is begun: an empty
/// input, a session that is not there, a turn that runs where the client does
/// not want to wait, and whatever fails or is blocked on the way, with the words
/// of the failure.
pub proof fn law_starts_are_refused_for_a_reason(
    request: StartRequest,
    held: Reservation,
    resolved: ResolvedInput,
    failure: String,
    kind: crate::message_edit::SkillFailure,
)
    ensures
        request.input@.len() == 0 || request.display is None ==> (start_begin(
            request,
        ).1 matches StartAction::Reject(why) && why.code is EmptyInput),
        start_step(request, StartPhase::Session, StartEvent::SessionFound(false)).1 matches
            StartAction::Reject(why) && why.code is SessionNotFound,
        start_step(request, StartPhase::Reserved, StartEvent::Reserved(None)).1 matches
            StartAction::Reject(why) && why.code is SessionNotFound,
        start_step(request, StartPhase::ReservedAgain, StartEvent::Reserved(None)).1 matches
            StartAction::Reject(why) && why.code is SessionNotFound,
        request.policy is RejectActive ==> start_step(
            request,
            StartPhase::Session,
            StartEvent::SessionFound(true),
        ).1 is ReadActiveTurn,
        start_step(request, StartPhase::ActiveTurn, StartEvent::TurnActive(true)).1 matches
            StartAction::Reject(why) && why.code is TurnAlreadyRunning,
        start_step(request, StartPhase::ActiveTurn, StartEvent::TurnActive(false)).1 is Reserve,
        request.policy is RejectActive && held.active is Some ==> (start_step(
            request,
            StartPhase::PromptHook(held, resolved),
            StartEvent::HookRan(None),
        ).1 matches StartAction::Reject(why) && why.code is TurnAlreadyRunning),
        start_step(
            request,
            StartPhase::Workspace(held),
            StartEvent::WorkspaceOpened(Some(failure)),
        ).1 matches StartAction::Reject(why) && why.code is InternalError && why.detail == Some(
            failure,
        ),
        start_step(
            request,
            StartPhase::Binding(held),
            StartEvent::BindingResolved(Some(failure)),
        ).1 matches StartAction::Reject(why) && why.code is InvalidParams && why.detail == Some(
            failure,
        ),
        start_step(
            request,
            StartPhase::Resolution(held),
            StartEvent::Resolved(InputResolution::Empty),
        ).1 matches StartAction::Reject(why) && why.code is EmptyInput,
        start_step(
            request,
            StartPhase::Resolution(held),
            StartEvent::Resolved(InputResolution::Failed(kind, failure)),
        ).1 matches StartAction::Reject(why) && why.detail == Some(failure) && (why.code
            is InvalidParams <==> (kind is NotFound || kind is Ambiguous || kind is Disabled))
            && (why.code is InvalidParams || why.code is InternalError),
        start_step(
            request,
            StartPhase::PromptHook(held, resolved),
            StartEvent::HookRan(Some(failure)),
        ).1 matches StartAction::Reject(why) && why.code is PolicyDenied && why.detail == Some(
            failure,
        ),
        start_step(request, StartPhase::StartUndone(failure), StartEvent::Done).1 matches
            StartAction::Reject(why) && why.code is InternalError && why.detail == Some(failure),
{
}

/// A request for a turn is carried out in order: a repeated one is answered
/// with the turn that it started, and any other starts a turn with its input, in
/// the mode of the session, only where no turn runs, once the turn that was
/// saved is given up. The client is answered with the turn where it is still
/// the active one.
pub proof fn law_turn_requests_are_carried_out(
    input: Vec<UserInput>,
    mode: Option<CollaborationMode>,
    turn: TurnId,
    active: Option<TurnId>,
    failure: String,
)
    ensures
        ({
            let a = request_step(RequestPhase::Input, RequestEvent::Input(Ok(input)));
            let b = request_step(a.0, RequestEvent::Known(None));
            let c = request_step(b.0, RequestEvent::Mode(mode));
            let d = request_step(c.0, RequestEvent::SavedTurn(None));
            let e = request_step(d.0, RequestEvent::Admitted(Admission::Started(turn)));
            let f = request_step(e.0, RequestEvent::Active(active));
            &&& a.1 is LookUpKey
            &&& b.1 is ReadMode
            &&& c.1 is CancelSavedTurn
            &&& d.1 matches RequestAction::Admit(asked) && {
                &&& asked.input == input
                &&& asked.policy is RejectActive
                &&& mode is Some ==> asked.mode == mode->0
                &&& mode is None ==> asked.mode is Build
                &&& asked.choice.binding is None && asked.choice.model is None
                    && asked.choice.effort is None
            }
            &&& e.1 is ReadActiveTurn
            &&& active == Some(turn) ==> f.1 == RequestAction::AnswerTurn(turn)
            &&& active != Some(turn) ==> f.1 is PassOn
            &&& request_step(a.0, RequestEvent::Known(Some(turn))).1 == RequestAction::Replay(turn)
            &&& request_step(c.0, RequestEvent::SavedTurn(Some(failure))).1 matches
                RequestAction::Reject(why) && why.code is InternalError && why.detail == Some(
                failure,
            )
            &&& request_step(d.0, RequestEvent::Admitted(Admission::Queued)).1 matches
                RequestAction::Reject(why) && why.code is TurnAlreadyRunning
            &&& request_step(d.0, RequestEvent::Admitted(Admission::Refused)).1 is PassOn
        }),
{
}

/// Input that cannot be taken is the client's fault, whichever part it is.
pub proof fn law_unusable_parts_are_refused(refusal: PartRefusal)
    ensures
        request_step(RequestPhase::Input, RequestEvent::Input(Err(refusal))).1 matches
            RequestAction::Reject(why) && why.code is InvalidParams && match refusal {
            PartRefusal::Image(ImageUriError::Undecodable(error)) => why.detail == Some(error),
            PartRefusal::NotStored(error) => why.detail == Some(error),
            _ => why.detail is None,
        },
{
}

/// What is shown and run of a turn is what was sent: its parts, its text, what it
/// was resolved to, and the mode and the model that it was begun with.
pub proof fn law_shown_turns_are_the_ones_sent(
    request: StartRequest,
    held: Reservation,
    work: StartWork,
    shown: (StartPhase, StartAction),
    run: (StartPhase, StartAction),
)
    requires
        is_start_step(request, StartPhase::TitlePrepared(held, work), StartEvent::Done, shown),
        is_start_step(request, StartPhase::MessageShown(held, work), StartEvent::Done, run),
    ensures
        shown.1 matches StartAction::ShowMessage(message) && message.input@ == request.input@
            && message.images@ == work.resolved.images@,
        run.1 matches StartAction::Spawn(turn) && {
            &&& turn.input@ == request.input@
            &&& request.display is Some ==> turn.display@ == request.display->0@
            &&& turn.resolved == work.resolved
            &&& turn.mode == request.mode
            &&& turn.model == work.model
        },
{
}

} // verus!
