//! Compacting a session: admission of the compaction turn, the run itself,
//! and the end of a run that replaces nothing.

use crate::message_edit::SessionItem;
use crate::protocol::{
    reject, reject_about, reject_session_missing, rejection, rejection_about, session_missing,
    ErrorCode, ItemId, Rejection, TurnId,
};
use crate::session_state::{ActiveTurn, EndedTurn, SessionState};
use crate::sessions::SessionStatus;
use crate::text::copy_text;
use crate::turn_cut::{CompactionSnapshot, ContextOccupancy};
use crate::turn_model::{
    own_selection, select_for_session, selection_of, session_model_selection, ModelChoice,
    TurnModel, TurnSelection,
};
use vstd::prelude::*;

verus! {

/// What asked for a compaction.
#[derive(Clone, Copy, Debug, PartialEq, Eq, Structural)]
pub enum CompactionTrigger {
    Manual,
    AgentRequested,
    AutoThreshold,
    ProviderRetry,
}

/// The name under which hooks know a trigger.
pub open spec fn hook_label(trigger: CompactionTrigger) -> &'static str {
    match trigger {
        CompactionTrigger::Manual => "manual",
        CompactionTrigger::AgentRequested => "agentRequested",
        CompactionTrigger::AutoThreshold => "autoThreshold",
        CompactionTrigger::ProviderRetry => "providerRetry",
    }
}

/// The name under which hooks know a trigger.
pub fn compaction_trigger_hook_label(trigger: CompactionTrigger) -> (r: &'static str)
    ensures
        r == hook_label(trigger),
{
    match trigger {
        CompactionTrigger::Manual => "manual",
        CompactionTrigger::AgentRequested => "agentRequested",
        CompactionTrigger::AutoThreshold => "autoThreshold",
        CompactionTrigger::ProviderRetry => "providerRetry",
    }
}

/// How a compaction is to run.
#[derive(Debug)]
pub struct CompactionRunOptions {
    pub trigger: CompactionTrigger,
    pub custom_instructions: Option<String>,
}

impl Default for CompactionRunOptions {
    fn default() -> (r: Self)
        ensures
            r.trigger == CompactionTrigger::Manual,
            r.custom_instructions is None,
    {
        CompactionRunOptions { trigger: CompactionTrigger::Manual, custom_instructions: None }
    }
}

/// Why no compaction turn was admitted.
#[derive(Debug)]
pub enum AdmissionStop {
    SessionMissing,
    Busy,
    StartNotWritten(String),
}

/// The answer to a client whose compaction was not admitted.
pub open spec fn admission_refusal(stop: AdmissionStop) -> Rejection {
    match stop {
        AdmissionStop::SessionMissing => session_missing(),
        AdmissionStop::Busy => rejection(
            ErrorCode::TurnAlreadyRunning,
            "cannot compact while a turn is active or queued",
        ),
        AdmissionStop::StartNotWritten(error) => rejection_about(
            ErrorCode::InternalError,
            "failed to persist compaction turn start: ",
            error,
        ),
    }
}

/// Answers a client whose compaction was not admitted.
pub fn refuse_admission(stop: AdmissionStop) -> (r: Rejection)
    ensures
        r == admission_refusal(stop),
{
    match stop {
        AdmissionStop::SessionMissing => reject_session_missing(),
        AdmissionStop::Busy => reject(
            ErrorCode::TurnAlreadyRunning,
            "cannot compact while a turn is active or queued",
        ),
        AdmissionStop::StartNotWritten(error) => reject_about(
            ErrorCode::InternalError,
            "failed to persist compaction turn start: ",
            error,
        ),
    }
}

/// What the admission of a compaction turn waits for.
#[derive(Debug)]
pub enum AdmissionPhase {
    Session,
    ActiveTurn,
    Lock,
    Reservation,
    Model(u64),
    Begun(u64, TurnModel),
    Durability(u64, TurnModel),
    StartWritten(u64, TurnModel),
    StartUndone(String),
    Launched(u64),
    StatusShown(u64),
    TurnShown(u64),
    Finished,
}

/// A session as far as the admission of a compaction reads it.
#[derive(Debug)]
pub struct CompactionReservation {
    /// The sequence number of the latest turn.
    pub latest: Option<u32>,
    pub choice: ModelChoice,
}

/// The sequence number of the compaction turn.
pub open spec fn compaction_sequence(reserved: CompactionReservation) -> u64 {
    match reserved.latest {
        Some(latest) => (latest + 1) as u64,
        None => 1,
    }
}

/// What the host observed during admission.
#[derive(Debug)]
pub enum AdmissionEvent {
    SessionFound(bool),
    TurnActive(bool),
    Done,
    /// The latest turn and the model of the session, if it is there.
    Reserved(Option<CompactionReservation>),
    /// The model that the selection was resolved to.
    ModelResolved(TurnModel),
    Begun(bool),
    Durable(bool),
    Written(Option<String>),
}

/// What the host has to do for admission.
#[derive(Debug)]
pub enum AdmissionAction {
    /// Find the session.
    FindSession,
    /// Read whether a turn of the session is running.
    ReadActiveTurn,
    /// Lock the state of the session until the turn is launched or undone.
    LockState,
    /// Read the latest turn of the session.
    Reserve,
    /// Resolve the model and the effort of the turn.
    ResolveModel(TurnSelection),
    /// Make the turn the active one, unless another turn is active or queued.
    TryBegin(ActiveTurn, TurnModel),
    /// Read whether the session has a rollout.
    ReadDurability,
    /// Append the start of the turn to the rollout.
    AppendTurnStart(ActiveTurn, TurnModel),
    /// Let go of the turn.
    ClearActiveTurn(TurnId),
    /// Register the turn as running. Where a client asked for it, the run
    /// starts in a task of its own.
    Launch(TurnId),
    /// Tell the clients that the session works.
    ShowStatusActive,
    /// Tell the clients that the turn has started.
    ShowTurnStarted(ActiveTurn),
    /// Answer the client. Where the agent asked for it, the run starts now.
    Admitted(ActiveTurn),
    /// Admit nothing.
    Stop(AdmissionStop),
    /// Nothing: the event does not belong to the phase.
    Ignore,
}

/// The next step of admitting a compaction turn.
pub open spec fn admission_step(turn: TurnId, phase: AdmissionPhase, event: AdmissionEvent) -> (
    AdmissionPhase,
    AdmissionAction,
) {
    match (phase, event) {
        (AdmissionPhase::Session, AdmissionEvent::SessionFound(found)) => if found {
            (AdmissionPhase::ActiveTurn, AdmissionAction::ReadActiveTurn)
        } else {
            (AdmissionPhase::Finished, AdmissionAction::Stop(AdmissionStop::SessionMissing))
        },
        (AdmissionPhase::ActiveTurn, AdmissionEvent::TurnActive(active)) => if active {
            (AdmissionPhase::Finished, AdmissionAction::Stop(AdmissionStop::Busy))
        } else {
            (AdmissionPhase::Lock, AdmissionAction::LockState)
        },
        (AdmissionPhase::Lock, AdmissionEvent::Done) => (
            AdmissionPhase::Reservation,
            AdmissionAction::Reserve,
        ),
        (AdmissionPhase::Reservation, AdmissionEvent::Reserved(reserved)) => match reserved {
            None => (
                AdmissionPhase::Finished,
                AdmissionAction::Stop(AdmissionStop::SessionMissing),
            ),
            Some(held) => (
                AdmissionPhase::Model(compaction_sequence(held)),
                AdmissionAction::ResolveModel(own_selection(held.choice)),
            ),
        },
        (AdmissionPhase::Model(sequence), AdmissionEvent::ModelResolved(model)) => (
            AdmissionPhase::Begun(sequence, model),
            AdmissionAction::TryBegin(ActiveTurn { turn, sequence }, model),
        ),
        (AdmissionPhase::Begun(sequence, model), AdmissionEvent::Begun(begun)) => if begun {
            (AdmissionPhase::Durability(sequence, model), AdmissionAction::ReadDurability)
        } else {
            (AdmissionPhase::Finished, AdmissionAction::Stop(AdmissionStop::Busy))
        },
        (AdmissionPhase::Durability(sequence, model), AdmissionEvent::Durable(durable)) => if durable {
            (
                AdmissionPhase::StartWritten(sequence, model),
                AdmissionAction::AppendTurnStart(ActiveTurn { turn, sequence }, model),
            )
        } else {
            (AdmissionPhase::Launched(sequence), AdmissionAction::Launch(turn))
        },
        (AdmissionPhase::StartWritten(sequence, model), AdmissionEvent::Written(failure)) => match failure {
            Some(error) => (
                AdmissionPhase::StartUndone(error),
                AdmissionAction::ClearActiveTurn(turn),
            ),
            None => (AdmissionPhase::Launched(sequence), AdmissionAction::Launch(turn)),
        },
        (AdmissionPhase::StartUndone(error), AdmissionEvent::Done) => (
            AdmissionPhase::Finished,
            AdmissionAction::Stop(AdmissionStop::StartNotWritten(error)),
        ),
        (AdmissionPhase::Launched(sequence), AdmissionEvent::Done) => (
            AdmissionPhase::StatusShown(sequence),
            AdmissionAction::ShowStatusActive,
        ),
        (AdmissionPhase::StatusShown(sequence), AdmissionEvent::Done) => (
            AdmissionPhase::TurnShown(sequence),
            AdmissionAction::ShowTurnStarted(ActiveTurn { turn, sequence }),
        ),
        (AdmissionPhase::TurnShown(sequence), AdmissionEvent::Done) => (
            AdmissionPhase::Finished,
            AdmissionAction::Admitted(ActiveTurn { turn, sequence }),
        ),
        _ => (phase, AdmissionAction::Ignore),
    }
}

/// Takes the admission of a compaction turn one step further.
pub fn advance_admission(turn: TurnId, phase: AdmissionPhase, event: AdmissionEvent) -> (r: (
    AdmissionPhase,
    AdmissionAction,
))
    ensures
        r == admission_step(turn, phase, event),
{
    match (phase, event) {
        (AdmissionPhase::Session, AdmissionEvent::SessionFound(found)) => {
            if found {
                (AdmissionPhase::ActiveTurn, AdmissionAction::ReadActiveTurn)
            } else {
                (AdmissionPhase::Finished, AdmissionAction::Stop(AdmissionStop::SessionMissing))
            }
        },
        (AdmissionPhase::ActiveTurn, AdmissionEvent::TurnActive(active)) => {
            if active {
                (AdmissionPhase::Finished, AdmissionAction::Stop(AdmissionStop::Busy))
            } else {
                (AdmissionPhase::Lock, AdmissionAction::LockState)
            }
        },
        (AdmissionPhase::Lock, AdmissionEvent::Done) => (
            AdmissionPhase::Reservation,
            AdmissionAction::Reserve,
        ),
        (AdmissionPhase::Reservation, AdmissionEvent::Reserved(reserved)) => match reserved {
            None => (
                AdmissionPhase::Finished,
                AdmissionAction::Stop(AdmissionStop::SessionMissing),
            ),
            Some(held) => {
                let sequence: u64 = match held.latest {
                    Some(latest) => latest as u64 + 1,
                    None => 1,
                };
                (
                    AdmissionPhase::Model(sequence),
                    AdmissionAction::ResolveModel(select_for_session(&held.choice)),
                )
            },
        },
        (AdmissionPhase::Model(sequence), AdmissionEvent::ModelResolved(model)) => {
            let named = model.copy();
            (
                AdmissionPhase::Begun(sequence, model),
                AdmissionAction::TryBegin(ActiveTurn { turn, sequence }, named),
            )
        },
        (AdmissionPhase::Begun(sequence, model), AdmissionEvent::Begun(begun)) => {
            if begun {
                (AdmissionPhase::Durability(sequence, model), AdmissionAction::ReadDurability)
            } else {
                (AdmissionPhase::Finished, AdmissionAction::Stop(AdmissionStop::Busy))
            }
        },
        (AdmissionPhase::Durability(sequence, model), AdmissionEvent::Durable(durable)) => {
            if durable {
                let named = model.copy();
                (
                    AdmissionPhase::StartWritten(sequence, model),
                    AdmissionAction::AppendTurnStart(ActiveTurn { turn, sequence }, named),
                )
            } else {
                (AdmissionPhase::Launched(sequence), AdmissionAction::Launch(turn))
            }
        },
        (AdmissionPhase::StartWritten(sequence, model), AdmissionEvent::Written(failure)) => match failure {
            Some(error) => (
                AdmissionPhase::StartUndone(error),
                AdmissionAction::ClearActiveTurn(turn),
            ),
            None => (AdmissionPhase::Launched(sequence), AdmissionAction::Launch(turn)),
        },
        (AdmissionPhase::StartUndone(error), AdmissionEvent::Done) => (
            AdmissionPhase::Finished,
            AdmissionAction::Stop(AdmissionStop::StartNotWritten(error)),
        ),
        (AdmissionPhase::Launched(sequence), AdmissionEvent::Done) => (
            AdmissionPhase::StatusShown(sequence),
            AdmissionAction::ShowStatusActive,
        ),
        (AdmissionPhase::StatusShown(sequence), AdmissionEvent::Done) => (
            AdmissionPhase::TurnShown(sequence),
            AdmissionAction::ShowTurnStarted(ActiveTurn { turn, sequence }),
        ),
        (AdmissionPhase::TurnShown(sequence), AdmissionEvent::Done) => (
            AdmissionPhase::Finished,
            AdmissionAction::Admitted(ActiveTurn { turn, sequence }),
        ),
        (phase, _) => (phase, AdmissionAction::Ignore),
    }
}

/// A compaction turn whose start was not written does not stay active: the
/// refusal comes only after the session has let go of the turn.
pub proof fn law_unwritten_start_is_undone(
    turn: TurnId,
    sequence: u64,
    model: TurnModel,
    error: String,
)
    ensures
        admission_step(
            turn,
            AdmissionPhase::StartWritten(sequence, model),
            AdmissionEvent::Written(Some(error)),
        ) == (AdmissionPhase::StartUndone(error), AdmissionAction::ClearActiveTurn(turn)),
        forall|event: AdmissionEvent|
            {
                let step = #[trigger] admission_step(turn, AdmissionPhase::StartUndone(error), event);
                ||| step == (AdmissionPhase::StartUndone(error), AdmissionAction::Ignore)
                ||| step == (
                    AdmissionPhase::Finished,
                    AdmissionAction::Stop(AdmissionStop::StartNotWritten(error)),
                )
            },
{
}

/// How a compaction turn ended that replaced nothing.
#[derive(Debug)]
pub enum CompactionOutcome {
    Skipped,
    Failed(String),
    Canceled,
}

/// The status in which a turn ends.
#[derive(Clone, Copy, Debug, PartialEq, Eq, Structural)]
pub enum TurnStatus {
    InProgress,
    Completed,
    Failed,
    Interrupted,
}

/// The status of a compaction turn that replaced nothing.
pub open spec fn outcome_status(outcome: CompactionOutcome) -> TurnStatus {
    match outcome {
        CompactionOutcome::Skipped => TurnStatus::Completed,
        CompactionOutcome::Failed(_) => TurnStatus::Failed,
        CompactionOutcome::Canceled => TurnStatus::Interrupted,
    }
}

/// The status of a compaction turn that replaced nothing.
pub fn terminal_status(outcome: &CompactionOutcome) -> (r: TurnStatus)
    ensures
        r == outcome_status(*outcome),
{
    match outcome {
        CompactionOutcome::Skipped => TurnStatus::Completed,
        CompactionOutcome::Failed(_) => TurnStatus::Failed,
        CompactionOutcome::Canceled => TurnStatus::Interrupted,
    }
}

/// What closes the transcript entry of a compaction that replaced nothing.
pub fn item_failure_message(outcome: &CompactionOutcome) -> (r: String)
    ensures
        r@ == match *outcome {
            CompactionOutcome::Skipped =>
                "Session is too short to compact — try again once it grows"@,
            CompactionOutcome::Failed(message) => message@,
            CompactionOutcome::Canceled => "compaction canceled"@,
        },
{
    match outcome {
        CompactionOutcome::Skipped =>
            "Session is too short to compact — try again once it grows".to_owned(),
        CompactionOutcome::Failed(message) => message.clone(),
        CompactionOutcome::Canceled => "compaction canceled".to_owned(),
    }
}

/// One notification at the end of a compaction turn.
#[derive(Clone, Copy, Debug, PartialEq, Eq, Structural)]
pub enum EndNotice {
    ItemFailed,
    UsageUpdated,
    CompactionCompleted,
    CompactionFailed,
    TurnCompleted,
    StatusIdle,
}

/// The notifications of a turn that replaced nothing, in order. `item` says
/// whether a transcript entry was opened, `occupancy` whether the session's
/// occupancy is known; it is none where the session's summary is gone.
pub open spec fn end_notices(
    outcome: CompactionOutcome,
    item: bool,
    occupancy: Option<bool>,
) -> Seq<EndNotice> {
    let closed = if item {
        seq![EndNotice::ItemFailed]
    } else {
        seq![]
    };
    let told = match outcome {
        CompactionOutcome::Skipped => {
            let usage = if occupancy == Some(true) {
                seq![EndNotice::UsageUpdated]
            } else {
                seq![]
            };
            let completed = if occupancy is Some && item {
                seq![EndNotice::CompactionCompleted]
            } else {
                seq![]
            };
            usage + completed + seq![EndNotice::TurnCompleted]
        },
        _ => seq![
            EndNotice::CompactionFailed,
            EndNotice::TurnCompleted,
            EndNotice::TurnCompleted,
        ],
    };
    closed + told + seq![EndNotice::StatusIdle]
}

/// The notifications of a turn that replaced nothing, in order.
pub fn list_end_notices(outcome: &CompactionOutcome, item: bool, occupancy: Option<bool>) -> (r: Vec<
    EndNotice,
>)
    ensures
        r@ == end_notices(*outcome, item, occupancy),
{
    let mut notices: Vec<EndNotice> = Vec::new();
    if item {
        notices.push(EndNotice::ItemFailed);
    }
    match outcome {
        CompactionOutcome::Skipped => {
            if let Some(known) = occupancy {
                if known {
                    notices.push(EndNotice::UsageUpdated);
                }
                if item {
                    notices.push(EndNotice::CompactionCompleted);
                }
            }
            notices.push(EndNotice::TurnCompleted);
        },
        _ => {
            notices.push(EndNotice::CompactionFailed);
            notices.push(EndNotice::TurnCompleted);
            notices.push(EndNotice::TurnCompleted);
        },
    }
    notices.push(EndNotice::StatusIdle);
    assert(notices@ =~= end_notices(*outcome, item, occupancy));
    notices
}

/// What the end of a turn that replaced nothing waits for.
#[derive(Clone, Copy, Debug, PartialEq, Eq, Structural)]
pub enum FinalizePhase {
    Detached,
    Claimed,
    MadeIdle,
    HandlesCleared,
    Durability,
    EndWritten,
    SummaryRead,
    NoticesShown,
    Recorded,
    Finished,
}

/// What the host observed at the end of a turn.
#[derive(Debug)]
pub enum FinalizeEvent {
    Done,
    /// Whether the task still owned the turn.
    Claimed(bool),
    Durable(bool),
    Written(Option<String>),
    /// Whether the summary is there and holds an occupancy.
    SummaryRead(Option<bool>),
}

/// A compaction turn that replaced nothing: the turn, the transcript entry that
/// was opened for it, if any, and how it ended.
#[derive(Debug)]
pub struct CompactionEnd {
    pub turn: TurnId,
    pub item: Option<ItemId>,
    pub outcome: CompactionOutcome,
}

impl CompactionEnd {
    /// The turn with the status in which it ends.
    pub open spec fn ended_turn(self) -> EndedTurn {
        EndedTurn { turn: self.turn, status: outcome_status(self.outcome) }
    }

    fn ended(&self) -> (r: EndedTurn)
        ensures
            r == self.ended_turn(),
    {
        EndedTurn { turn: self.turn, status: terminal_status(&self.outcome) }
    }
}

/// What the host has to do to end a turn. `N` are the notifications; they are
/// `()` where only the order of the steps matters.
#[derive(Debug)]
pub enum FinalizeAction<N = Vec<EndNotice>> {
    /// Keep an interruption from dropping the task before it has reported.
    DetachAbort,
    /// Take the turn from the session, if it is still the active one.
    Claim(TurnId),
    /// Make the session idle, with the turn as its latest one.
    MakeIdle(EndedTurn),
    /// Forget the handles of the running task.
    ClearHandles,
    /// Read whether the session has a rollout.
    ReadDurability,
    /// Append the end of the turn to the rollout. That this fails makes no
    /// difference.
    AppendTurnEnd(EndedTurn),
    /// Read what the session shows of itself.
    ReadSummary,
    /// Send the notifications in order.
    ShowNotices(N),
    /// Note the end of the turn for those who ask for it.
    RecordTerminal(EndedTurn),
    /// The end is told, or belongs to another task.
    Stop,
    /// Nothing: the event does not belong to the phase.
    Ignore,
}

/// What the host has to do to end a turn, without the notifications.
pub type FinalizeOrder = FinalizeAction<()>;

impl FinalizeAction {
    /// What is to be done, without the notifications.
    pub open spec fn order(self) -> FinalizeOrder {
        match self {
            FinalizeAction::DetachAbort => FinalizeAction::DetachAbort,
            FinalizeAction::Claim(turn) => FinalizeAction::Claim(turn),
            FinalizeAction::MakeIdle(ended) => FinalizeAction::MakeIdle(ended),
            FinalizeAction::ClearHandles => FinalizeAction::ClearHandles,
            FinalizeAction::ReadDurability => FinalizeAction::ReadDurability,
            FinalizeAction::AppendTurnEnd(ended) => FinalizeAction::AppendTurnEnd(ended),
            FinalizeAction::ReadSummary => FinalizeAction::ReadSummary,
            FinalizeAction::ShowNotices(_) => FinalizeAction::ShowNotices(()),
            FinalizeAction::RecordTerminal(ended) => FinalizeAction::RecordTerminal(ended),
            FinalizeAction::Stop => FinalizeAction::Stop,
            FinalizeAction::Ignore => FinalizeAction::Ignore,
        }
    }
}

/// Whether the occupancy of the session is known, as far as it was read.
pub open spec fn occupancy_read(phase: FinalizePhase, event: FinalizeEvent) -> Option<bool> {
    match (phase, event) {
        (FinalizePhase::SummaryRead, FinalizeEvent::SummaryRead(occupancy)) => occupancy,
        _ => None,
    }
}

/// Whether `step` is the next one of ending a turn: the step, and the
/// notifications that go with it.
pub open spec fn is_finalize_step(
    end: CompactionEnd,
    phase: FinalizePhase,
    event: FinalizeEvent,
    step: (FinalizePhase, FinalizeAction),
) -> bool {
    &&& (step.0, step.1.order()) == finalize_step(end, phase, event)
    &&& step.1 matches FinalizeAction::ShowNotices(notices) ==> notices@ == end_notices(
        end.outcome,
        end.item is Some,
        occupancy_read(phase, event),
    )
}

/// The step after the end of the turn is on record.
pub open spec fn told_step(end: CompactionEnd) -> (FinalizePhase, FinalizeOrder) {
    if end.outcome is Skipped {
        (FinalizePhase::SummaryRead, FinalizeAction::ReadSummary)
    } else {
        (FinalizePhase::NoticesShown, FinalizeAction::ShowNotices(()))
    }
}

/// The next step of ending a turn that replaced nothing.
pub open spec fn finalize_step(
    end: CompactionEnd,
    phase: FinalizePhase,
    event: FinalizeEvent,
) -> (FinalizePhase, FinalizeOrder) {
    match (phase, event) {
        (FinalizePhase::Detached, FinalizeEvent::Done) => (
            FinalizePhase::Claimed,
            FinalizeAction::Claim(end.turn),
        ),
        (FinalizePhase::Claimed, FinalizeEvent::Claimed(owned)) => if owned {
            (FinalizePhase::MadeIdle, FinalizeAction::MakeIdle(end.ended_turn()))
        } else {
            (FinalizePhase::Finished, FinalizeAction::Stop)
        },
        (FinalizePhase::MadeIdle, FinalizeEvent::Done) => (
            FinalizePhase::HandlesCleared,
            FinalizeAction::ClearHandles,
        ),
        (FinalizePhase::HandlesCleared, FinalizeEvent::Done) => (
            FinalizePhase::Durability,
            FinalizeAction::ReadDurability,
        ),
        (FinalizePhase::Durability, FinalizeEvent::Durable(durable)) => if durable {
            (FinalizePhase::EndWritten, FinalizeAction::AppendTurnEnd(end.ended_turn()))
        } else {
            told_step(end)
        },
        (FinalizePhase::EndWritten, FinalizeEvent::Written(_)) => told_step(end),
        (FinalizePhase::SummaryRead, FinalizeEvent::SummaryRead(_)) => (
            FinalizePhase::NoticesShown,
            FinalizeAction::ShowNotices(()),
        ),
        (FinalizePhase::NoticesShown, FinalizeEvent::Done) => (
            FinalizePhase::Recorded,
            FinalizeAction::RecordTerminal(end.ended_turn()),
        ),
        (FinalizePhase::Recorded, FinalizeEvent::Done) => (
            FinalizePhase::Finished,
            FinalizeAction::Stop,
        ),
        _ => (phase, FinalizeAction::Ignore),
    }
}

/// Starts the end of a turn that replaced nothing.
pub fn begin_finalize() -> (r: (FinalizePhase, FinalizeAction))
    ensures
        r == (FinalizePhase::Detached, FinalizeAction::<Vec<EndNotice>>::DetachAbort),
{
    (FinalizePhase::Detached, FinalizeAction::DetachAbort)
}

fn tell(end: &CompactionEnd) -> (r: (FinalizePhase, FinalizeAction))
    ensures
        (r.0, r.1.order()) == told_step(*end),
        r.1 matches FinalizeAction::ShowNotices(notices) ==> notices@ == end_notices(
            end.outcome,
            end.item is Some,
            None,
        ),
{
    match end.outcome {
        CompactionOutcome::Skipped => (FinalizePhase::SummaryRead, FinalizeAction::ReadSummary),
        _ => (FinalizePhase::NoticesShown, show_notices(end, None)),
    }
}

fn show_notices(end: &CompactionEnd, occupancy: Option<bool>) -> (r: FinalizeAction)
    ensures
        r matches FinalizeAction::ShowNotices(notices) && notices@ == end_notices(
            end.outcome,
            end.item is Some,
            occupancy,
        ),
{
    FinalizeAction::ShowNotices(list_end_notices(&end.outcome, end.item.is_some(), occupancy))
}

/// Takes the end of a turn that replaced nothing one step further.
pub fn advance_finalize(
    end: &CompactionEnd,
    phase: FinalizePhase,
    event: FinalizeEvent,
) -> (r: (FinalizePhase, FinalizeAction))
    ensures
        is_finalize_step(*end, phase, event, r),
{
    match (phase, event) {
        (FinalizePhase::Detached, FinalizeEvent::Done) => (
            FinalizePhase::Claimed,
            FinalizeAction::Claim(end.turn),
        ),
        (FinalizePhase::Claimed, FinalizeEvent::Claimed(owned)) => {
            if owned {
                (FinalizePhase::MadeIdle, FinalizeAction::MakeIdle(end.ended()))
            } else {
                (FinalizePhase::Finished, FinalizeAction::Stop)
            }
        },
        (FinalizePhase::MadeIdle, FinalizeEvent::Done) => (
            FinalizePhase::HandlesCleared,
            FinalizeAction::ClearHandles,
        ),
        (FinalizePhase::HandlesCleared, FinalizeEvent::Done) => (
            FinalizePhase::Durability,
            FinalizeAction::ReadDurability,
        ),
        (FinalizePhase::Durability, FinalizeEvent::Durable(durable)) => {
            if durable {
                (FinalizePhase::EndWritten, FinalizeAction::AppendTurnEnd(end.ended()))
            } else {
                tell(end)
            }
        },
        (FinalizePhase::EndWritten, FinalizeEvent::Written(_)) => tell(end),
        (FinalizePhase::SummaryRead, FinalizeEvent::SummaryRead(occupancy)) => (
            FinalizePhase::NoticesShown,
            show_notices(end, occupancy),
        ),
        (FinalizePhase::NoticesShown, FinalizeEvent::Done) => (
            FinalizePhase::Recorded,
            FinalizeAction::RecordTerminal(end.ended()),
        ),
        (FinalizePhase::Recorded, FinalizeEvent::Done) => (
            FinalizePhase::Finished,
            FinalizeAction::Stop,
        ),
        (phase, _) => (phase, FinalizeAction::Ignore),
    }
}

/// The phase that the end of a turn is in after `events`, and what it asked
/// the host to do on the way.
pub open spec fn finalize_run(end: CompactionEnd, events: Seq<FinalizeEvent>) -> (
    FinalizePhase,
    Seq<FinalizeOrder>,
)
    decreases events.len(),
{
    if events.len() == 0 {
        (FinalizePhase::Detached, Seq::empty())
    } else {
        let (phase, actions) = finalize_run(end, events.drop_last());
        let (next, action) = finalize_step(end, phase, events.last());
        (next, actions.push(action))
    }
}

/// Whether an action of ending a turn shows to anybody.
pub open spec fn finalize_shows(action: FinalizeOrder) -> bool {
    action is MakeIdle || action is AppendTurnEnd || action is ShowNotices
        || action is RecordTerminal
}

proof fn lemma_finalize_shows_when_owned(end: CompactionEnd, events: Seq<FinalizeEvent>)
    ensures
        ({
            let (phase, actions) = finalize_run(end, events);
            let owned = exists|j: int|
                0 <= j < events.len() && #[trigger] events[j] == FinalizeEvent::Claimed(true);
            &&& (exists|i: int| 0 <= i < actions.len() && #[trigger] finalize_shows(actions[i]))
                ==> owned
            &&& !(phase is Detached || phase is Claimed || phase is Finished) ==> owned
        }),
    decreases events.len(),
{
    if events.len() > 0 {
        let before = events.drop_last();
        lemma_finalize_shows_when_owned(end, before);
        let (phase, actions) = finalize_run(end, before);
        let (next, action) = finalize_step(end, phase, events.last());
        let after = actions.push(action);
        if exists|j: int| 0 <= j < before.len() && #[trigger] before[j] == FinalizeEvent::Claimed(
            true,
        ) {
            let j = choose|j: int|
                0 <= j < before.len() && #[trigger] before[j] == FinalizeEvent::Claimed(true);
            assert(events[j] == FinalizeEvent::Claimed(true));
        } else {
            if events.last() == FinalizeEvent::Claimed(true) {
                assert(events[events.len() - 1] == FinalizeEvent::Claimed(true));
            } else {
                assert(forall|i: int| 0 <= i < actions.len() ==> !#[trigger] finalize_shows(actions[i]));
                assert forall|i: int| 0 <= i < after.len() implies !#[trigger] finalize_shows(
                    after[i],
                ) by {
                    if i < actions.len() {
                        assert(after[i] == actions[i]);
                    }
                }
            }
        }
    }
}

/// If an interruption has taken the turn already, its end is reported by the
/// interruption alone: nothing shows unless the claim succeeded.
pub proof fn law_lost_claim_ends_silently(end: CompactionEnd, events: Seq<FinalizeEvent>)
    requires
        forall|j: int|
            0 <= j < events.len() ==> #[trigger] events[j] != FinalizeEvent::Claimed(true),
    ensures
        forall|i: int|
            0 <= i < finalize_run(end, events).1.len() ==> !#[trigger] finalize_shows(
                finalize_run(end, events).1[i],
            ),
{
    lemma_finalize_shows_when_owned(end, events);
}

/// Why a compaction failed.
#[derive(Debug)]
pub enum CompactionFailure {
    SessionUnavailable,
    NotPersisted(String),
    NotSummarized(String),
    Panicked,
}

/// The message of a failed compaction.
pub open spec fn failure_message(failure: CompactionFailure) -> Seq<char> {
    match failure {
        CompactionFailure::SessionUnavailable => "compaction failed: session unavailable"@,
        CompactionFailure::NotPersisted(error) => "compaction persistence failed: "@ + error@,
        CompactionFailure::NotSummarized(error) => "compaction failed: "@ + error@,
        CompactionFailure::Panicked => "compaction failed: panicked"@,
    }
}

/// How a run ends that replaces nothing.
#[derive(Debug)]
pub enum RunEnd {
    Skipped,
    Canceled,
    Failed(CompactionFailure),
}

/// Whether a run that ended in this way came to this outcome.
pub open spec fn comes_to(end: RunEnd, outcome: CompactionOutcome) -> bool {
    match end {
        RunEnd::Skipped => outcome is Skipped,
        RunEnd::Canceled => outcome is Canceled,
        RunEnd::Failed(failure) => outcome matches CompactionOutcome::Failed(message) && message@
            == failure_message(failure),
    }
}

/// The outcome of a run that replaced nothing.
pub fn run_outcome(end: &RunEnd) -> (r: CompactionOutcome)
    ensures
        comes_to(*end, r),
{
    match end {
        RunEnd::Skipped => CompactionOutcome::Skipped,
        RunEnd::Canceled => CompactionOutcome::Canceled,
        RunEnd::Failed(failure) => CompactionOutcome::Failed(
            match failure {
                CompactionFailure::SessionUnavailable =>
                    "compaction failed: session unavailable".to_owned(),
                CompactionFailure::NotPersisted(error) => "compaction persistence failed: ".to_owned().concat(
                    error.as_str(),
                ),
                CompactionFailure::NotSummarized(error) => "compaction failed: ".to_owned().concat(
                    error.as_str(),
                ),
                CompactionFailure::Panicked => "compaction failed: panicked".to_owned(),
            },
        ),
    }
}

/// What came of summarizing the history.
#[derive(Debug)]
pub enum Summarized {
    Canceled,
    /// The history is summarized; the summary is not there where the model gave
    /// none.
    Replaced(Option<String>),
    Skipped,
    Failed(String),
}

/// A run of compaction: its turn, the item that the summary becomes, and how it
/// is to run.
#[derive(Debug)]
pub struct CompactionRun {
    pub turn: TurnId,
    pub item: ItemId,
    pub options: CompactionRunOptions,
}

/// What is known of the summary before it is made: the model of the session,
/// and that of its workspace.
#[derive(Debug)]
pub struct SummaryFacts {
    pub choice: ModelChoice,
    pub default_model: String,
}

/// The model that writes the summary: that of the session, else that of its
/// workspace.
pub open spec fn summary_model(facts: SummaryFacts) -> String {
    match selection_of(facts.choice) {
        Some(model) => model,
        None => facts.default_model,
    }
}

/// The summary that a hook is told: the empty text where there is none.
pub open spec fn summary_text(summary: Option<String>) -> Seq<char> {
    match summary {
        Some(summary) => summary@,
        None => Seq::empty(),
    }
}

/// Whether this is how the end of a run is told.
pub open spec fn is_end_of(
    run: CompactionRun,
    end: RunEnd,
    shown: bool,
    told: CompactionEnd,
) -> bool {
    &&& told.turn == run.turn
    &&& told.item == if shown {
        Some(run.item)
    } else {
        None
    }
    &&& comes_to(end, told.outcome)
}

/// The end of a run that replaced nothing. `shown` says whether the transcript
/// entry of the run was opened.
pub fn compaction_end(run: &CompactionRun, end: &RunEnd, shown: bool) -> (r: CompactionEnd)
    ensures
        is_end_of(*run, *end, shown, r),
{
    let item = if shown {
        Some(run.item)
    } else {
        None
    };
    CompactionEnd { turn: run.turn, item, outcome: run_outcome(end) }
}

/// The session whose history is replaced, with the items that the summary
/// leaves as they are.
#[derive(Debug)]
pub struct CompactionSource {
    pub session: SessionState,
    /// Whether the session has a rollout.
    pub durable: bool,
    pub ephemeral: bool,
    pub preserved: Vec<ItemId>,
}

/// What the prompt measures once the summary stands in it.
#[derive(Clone, Copy, Debug, PartialEq, Eq, Structural)]
pub struct AppliedSummary {
    pub conversation_tokens: u64,
    pub occupancy: ContextOccupancy,
}

/// What the rollout says of a compaction: the summary and the snapshot.
#[derive(Debug)]
pub struct SummaryRecord {
    pub turn: TurnId,
    pub item: ItemId,
    pub seq: u64,
    pub summary: Option<String>,
    pub snapshot: CompactionSnapshot,
    pub preserved: Vec<ItemId>,
}

/// What a run of compaction waits for.
#[derive(Debug)]
pub enum RunPhase {
    Session,
    StartShown,
    ItemShown,
    PreHookRan,
    Snapshot,
    Provider,
    Summary,
    AbortDetached(Summarized),
    Locked(Summarized),
    Cancellation(Option<String>),
    Export(Option<String>),
    SummaryWritten(CompactionSource, Option<String>),
    Claimed(CompactionSource, Option<String>),
    Applied(CompactionSource, Option<String>),
    StatsWritten(CompactionSource, AppliedSummary, Option<String>),
    ItemClosed(CompactionSource, AppliedSummary, Option<String>),
    StateReplaced(Option<String>),
    HandlesCleared(Option<String>),
    Durability(Option<String>),
    EndWritten(Option<String>),
    PostHookRan,
    NoticesShown,
    Recorded,
    Finished,
}

/// What the host observed during a run.
#[derive(Debug)]
pub enum RunEvent {
    Found(bool),
    /// What is known of the summary, unless the session is gone.
    Snapshot(Option<SummaryFacts>),
    /// The most tokens that the model writes, as far as they are known, unless
    /// the session is gone.
    Provider(Option<Option<u32>>),
    Done,
    Summarized(Summarized),
    Canceled(bool),
    /// The session, unless it is gone.
    Exported(Option<CompactionSource>),
    Written(Option<String>),
    Claimed(bool),
    Applied(AppliedSummary),
    Durable(bool),
}

/// What the host has to do for a run. `R` is what is recorded, `S` what the
/// session becomes and `H` what the hook is told of the summary; they are `()`
/// where only the order of the steps matters.
#[derive(Debug)]
pub enum RunAction<R = SummaryRecord, S = SessionState, H = String> {
    /// Find the session.
    FindSession,
    /// Tell the clients that the turn compacts the session.
    ShowStarted { turn: TurnId, trigger: CompactionTrigger },
    /// Tell the clients that the transcript entry of the compaction is opened.
    ShowItemStarted(ItemId),
    /// Run the hook for compactions that start, with the name of the trigger and
    /// the instructions.
    RunPreHook { trigger: &'static str, instructions: Option<String> },
    /// Take what is to be summarized, under the state gate, and let go of it.
    TakeSnapshot,
    /// Resolve the model that writes the summary, with no effort of its own.
    ResolveProvider(String),
    /// Have the model summarize the snapshot, in at most so many tokens. The
    /// latest messages of the user are left as they are.
    Summarize { limit: u64 },
    /// Keep an interruption from dropping the task before it has reported.
    DetachAbort,
    /// Lock the state of the session.
    LockState,
    /// Read whether the turn was interrupted meanwhile.
    ReadCancellation,
    /// Read the session as it is now.
    ExportSession,
    /// Append the summary to the rollout, with what is recorded of it.
    AppendSummary(R),
    /// Take the turn out of the session, unless an interruption has.
    Claim(TurnId),
    /// Put the summary in the place of the prompt and measure it.
    ApplyToExport,
    /// Store the counters. That this fails makes no difference.
    WriteStats(SessionCounters),
    /// Tell the clients that the transcript entry of the compaction is closed.
    ShowItemCompleted { turn: TurnId, item: ItemId, seq: u64 },
    /// Put this in the place of the loaded session.
    ReplaceState(S),
    /// Forget the handles of the running task.
    ClearHandles,
    /// Read whether the session has a rollout.
    ReadDurability,
    /// Record that the turn is completed.
    AppendTurnEnd(TurnId),
    /// Run the hook for compactions that end, with the name of the trigger and
    /// the summary.
    RunPostHook { trigger: &'static str, summary: H },
    /// Send the notifications of a compaction that has replaced the history, in
    /// order.
    ShowNotices,
    /// Note the end of the turn for those who ask for it.
    RecordTerminal(TurnId),
    /// End the turn, which replaced nothing. `shown` says whether its
    /// transcript entry was opened.
    Finalize { end: RunEnd, shown: bool },
    /// The run is over, or belongs to another task.
    Stop,
    /// Nothing: the event does not belong to the phase.
    Ignore,
}

/// What the host has to do for a run, without what it does it with.
pub type RunOrder = RunAction<(), (), ()>;

impl RunAction {
    /// What is to be done, without what it is done with.
    pub open spec fn order(self) -> RunOrder {
        match self {
            RunAction::FindSession => RunAction::FindSession,
            RunAction::ShowStarted { turn, trigger } => RunAction::ShowStarted { turn, trigger },
            RunAction::ShowItemStarted(item) => RunAction::ShowItemStarted(item),
            RunAction::RunPreHook { trigger, instructions } => RunAction::RunPreHook {
                trigger,
                instructions,
            },
            RunAction::TakeSnapshot => RunAction::TakeSnapshot,
            RunAction::ResolveProvider(model) => RunAction::ResolveProvider(model),
            RunAction::Summarize { limit } => RunAction::Summarize { limit },
            RunAction::DetachAbort => RunAction::DetachAbort,
            RunAction::LockState => RunAction::LockState,
            RunAction::ReadCancellation => RunAction::ReadCancellation,
            RunAction::ExportSession => RunAction::ExportSession,
            RunAction::AppendSummary(_) => RunAction::AppendSummary(()),
            RunAction::Claim(turn) => RunAction::Claim(turn),
            RunAction::ApplyToExport => RunAction::ApplyToExport,
            RunAction::WriteStats(counters) => RunAction::WriteStats(counters),
            RunAction::ShowItemCompleted { turn, item, seq } => RunAction::ShowItemCompleted {
                turn,
                item,
                seq,
            },
            RunAction::ReplaceState(_) => RunAction::ReplaceState(()),
            RunAction::ClearHandles => RunAction::ClearHandles,
            RunAction::ReadDurability => RunAction::ReadDurability,
            RunAction::AppendTurnEnd(turn) => RunAction::AppendTurnEnd(turn),
            RunAction::RunPostHook { trigger, .. } => RunAction::RunPostHook {
                trigger,
                summary: (),
            },
            RunAction::ShowNotices => RunAction::ShowNotices,
            RunAction::RecordTerminal(turn) => RunAction::RecordTerminal(turn),
            RunAction::Finalize { end, shown } => RunAction::Finalize { end, shown },
            RunAction::Stop => RunAction::Stop,
            RunAction::Ignore => RunAction::Ignore,
        }
    }
}

/// A step without what it is done with.
pub open spec fn run_order(step: (RunPhase, RunAction)) -> (RunPhase, RunOrder) {
    (step.0, step.1.order())
}

/// Whether `record` says of the run what the rollout is to hold: the summary
/// as the next item, and how full the context was before.
pub open spec fn is_summary_record(
    run: CompactionRun,
    source: CompactionSource,
    summary: Option<String>,
    record: SummaryRecord,
) -> bool {
    &&& record.turn == run.turn
    &&& record.item == run.item
    &&& record.summary == summary
    &&& record.seq == source.session.counters.next_item_seq
    &&& record.snapshot == CompactionSnapshot {
        turn: run.turn,
        summary_item: run.item,
        occupancy: source.session.occupancy,
    }
    &&& record.preserved@ == source.preserved@
}

/// Whether `after` is the session once the summary stands in the place of its
/// history. What a session without a rollout says of compactions and items
/// stays as it is.
pub open spec fn is_compacted_session(
    run: CompactionRun,
    source: CompactionSource,
    applied: AppliedSummary,
    after: SessionState,
) -> bool {
    let before = source.session;
    &&& after.items@ == if source.durable {
        before.items@.push(
            SessionItem { turn: run.turn, item: run.item, user_message: false },
        )
    } else {
        before.items@
    }
    &&& after == SessionState {
        items: after.items,
        active: None,
        latest: Some(EndedTurn { turn: run.turn, status: TurnStatus::Completed }),
        compaction: if source.durable {
            Some(
                CompactionSnapshot {
                    turn: run.turn,
                    summary_item: run.item,
                    occupancy: Some(applied.occupancy),
                },
            )
        } else {
            before.compaction
        },
        status: SessionStatus::Idle,
        occupancy: Some(applied.occupancy),
        counters: counters_after(
            before.counters,
            applied.conversation_tokens,
            applied.occupancy.total_tokens,
        ),
        ..before
    }
}

/// Whether an action is done with what the run comes to.
pub open spec fn runs_with(
    run: CompactionRun,
    phase: RunPhase,
    event: RunEvent,
    action: RunAction,
) -> bool {
    match action {
        RunAction::AppendSummary(record) => match (phase, event) {
            (RunPhase::Export(summary), RunEvent::Exported(Some(source))) => is_summary_record(
                run,
                source,
                summary,
                record,
            ),
            _ => false,
        },
        RunAction::ReplaceState(after) => phase matches RunPhase::ItemClosed(source, applied, _)
            && is_compacted_session(run, source, applied, after),
        RunAction::RunPostHook { summary: told, .. } => match phase {
            RunPhase::Durability(summary) => told@ == summary_text(summary),
            RunPhase::EndWritten(summary) => told@ == summary_text(summary),
            _ => false,
        },
        _ => true,
    }
}

/// Whether `step` is the next one of a run.
pub open spec fn is_run_step(
    run: CompactionRun,
    phase: RunPhase,
    event: RunEvent,
    step: (RunPhase, RunAction),
) -> bool {
    &&& run_order(step) == run_step(run, phase, event)
    &&& runs_with(run, phase, event, step.1)
}

/// The step that ends a run which replaces nothing.
pub open spec fn ended(end: RunEnd, item: bool) -> (RunPhase, RunOrder) {
    (RunPhase::Finished, RunAction::Finalize { end, shown: item })
}

/// The step that ends a run whose session is gone.
pub open spec fn session_gone(item: bool) -> (RunPhase, RunOrder) {
    ended(RunEnd::Failed(CompactionFailure::SessionUnavailable), item)
}

/// The steps up to the summary.
pub open spec fn summary_step(
    run: CompactionRun,
    phase: RunPhase,
    event: RunEvent,
) -> (RunPhase, RunOrder) {
    match (phase, event) {
        (RunPhase::Session, RunEvent::Found(found)) => if found {
            (
                RunPhase::StartShown,
                RunAction::ShowStarted { turn: run.turn, trigger: run.options.trigger },
            )
        } else {
            session_gone(false)
        },
        (RunPhase::StartShown, RunEvent::Done) => (
            RunPhase::ItemShown,
            RunAction::ShowItemStarted(run.item),
        ),
        (RunPhase::ItemShown, RunEvent::Done) => (
            RunPhase::PreHookRan,
            RunAction::RunPreHook {
                trigger: hook_label(run.options.trigger),
                instructions: run.options.custom_instructions,
            },
        ),
        (RunPhase::PreHookRan, RunEvent::Done) => (RunPhase::Snapshot, RunAction::TakeSnapshot),
        (RunPhase::Snapshot, RunEvent::Snapshot(taken)) => match taken {
            Some(facts) => (
                RunPhase::Provider,
                RunAction::ResolveProvider(summary_model(facts)),
            ),
            None => session_gone(true),
        },
        (RunPhase::Provider, RunEvent::Provider(found)) => match found {
            Some(most) => (RunPhase::Summary, RunAction::Summarize { limit: limit_of(most) }),
            None => session_gone(true),
        },
        (RunPhase::Summary, RunEvent::Summarized(summarized)) => (
            RunPhase::AbortDetached(summarized),
            RunAction::DetachAbort,
        ),
        (RunPhase::AbortDetached(summarized), RunEvent::Done) => (
            RunPhase::Locked(summarized),
            RunAction::LockState,
        ),
        (RunPhase::Locked(summarized), RunEvent::Done) => match summarized {
            Summarized::Canceled => ended(RunEnd::Canceled, true),
            Summarized::Skipped => ended(RunEnd::Skipped, true),
            Summarized::Failed(error) => ended(
                RunEnd::Failed(CompactionFailure::NotSummarized(error)),
                true,
            ),
            Summarized::Replaced(summary) => (
                RunPhase::Cancellation(summary),
                RunAction::ReadCancellation,
            ),
        },
        _ => (phase, RunAction::Ignore),
    }
}

/// The notification that the summary is there.
pub open spec fn item_completed(run: CompactionRun, source: CompactionSource) -> RunOrder {
    RunAction::ShowItemCompleted {
        turn: run.turn,
        item: run.item,
        seq: source.session.counters.next_item_seq,
    }
}

/// The steps that put the summary in the place of the history.
pub open spec fn replace_step(
    run: CompactionRun,
    phase: RunPhase,
    event: RunEvent,
) -> (RunPhase, RunOrder) {
    match (phase, event) {
        (RunPhase::Cancellation(summary), RunEvent::Canceled(canceled)) => if canceled {
            ended(RunEnd::Canceled, true)
        } else {
            (RunPhase::Export(summary), RunAction::ExportSession)
        },
        (RunPhase::Export(summary), RunEvent::Exported(exported)) => match exported {
            None => session_gone(true),
            Some(source) => if source.durable {
                (RunPhase::SummaryWritten(source, summary), RunAction::AppendSummary(()))
            } else {
                (RunPhase::Claimed(source, summary), RunAction::Claim(run.turn))
            },
        },
        (RunPhase::SummaryWritten(source, summary), RunEvent::Written(failure)) => match failure {
            Some(error) => ended(RunEnd::Failed(CompactionFailure::NotPersisted(error)), true),
            None => (RunPhase::Claimed(source, summary), RunAction::Claim(run.turn)),
        },
        (RunPhase::Claimed(source, summary), RunEvent::Claimed(owned)) => if owned {
            (RunPhase::Applied(source, summary), RunAction::ApplyToExport)
        } else {
            (RunPhase::Finished, RunAction::Stop)
        },
        (RunPhase::Applied(source, summary), RunEvent::Applied(applied)) => if source.ephemeral {
            (RunPhase::ItemClosed(source, applied, summary), item_completed(run, source))
        } else {
            (
                RunPhase::StatsWritten(source, applied, summary),
                RunAction::WriteStats(
                    counters_after(
                        source.session.counters,
                        applied.conversation_tokens,
                        applied.occupancy.total_tokens,
                    ),
                ),
            )
        },
        (RunPhase::StatsWritten(source, applied, summary), RunEvent::Done) => (
            RunPhase::ItemClosed(source, applied, summary),
            item_completed(run, source),
        ),
        (RunPhase::ItemClosed(_, _, summary), RunEvent::Done) => (
            RunPhase::StateReplaced(summary),
            RunAction::ReplaceState(()),
        ),
        (RunPhase::StateReplaced(summary), RunEvent::Done) => (
            RunPhase::HandlesCleared(summary),
            RunAction::ClearHandles,
        ),
        (RunPhase::HandlesCleared(summary), RunEvent::Done) => (
            RunPhase::Durability(summary),
            RunAction::ReadDurability,
        ),
        (RunPhase::Durability(summary), RunEvent::Durable(durable)) => if durable {
            (RunPhase::EndWritten(summary), RunAction::AppendTurnEnd(run.turn))
        } else {
            (
                RunPhase::PostHookRan,
                RunAction::RunPostHook { trigger: hook_label(run.options.trigger), summary: () },
            )
        },
        (RunPhase::EndWritten(summary), RunEvent::Written(_)) => (
            RunPhase::PostHookRan,
            RunAction::RunPostHook { trigger: hook_label(run.options.trigger), summary: () },
        ),
        (RunPhase::PostHookRan, RunEvent::Done) => (
            RunPhase::NoticesShown,
            RunAction::ShowNotices,
        ),
        (RunPhase::NoticesShown, RunEvent::Done) => (
            RunPhase::Recorded,
            RunAction::RecordTerminal(run.turn),
        ),
        (RunPhase::Recorded, RunEvent::Done) => (RunPhase::Finished, RunAction::Stop),
        _ => (phase, RunAction::Ignore),
    }
}

/// Whether the summary is still to be made.
pub open spec fn summarizing(phase: RunPhase) -> bool {
    match phase {
        RunPhase::Session
        | RunPhase::StartShown
        | RunPhase::ItemShown
        | RunPhase::PreHookRan
        | RunPhase::Snapshot
        | RunPhase::Provider
        | RunPhase::Summary
        | RunPhase::AbortDetached(_)
        | RunPhase::Locked(_) => true,
        _ => false,
    }
}

/// The next step of a run.
pub open spec fn run_step(
    run: CompactionRun,
    phase: RunPhase,
    event: RunEvent,
) -> (RunPhase, RunOrder) {
    if summarizing(phase) {
        summary_step(run, phase, event)
    } else {
        replace_step(run, phase, event)
    }
}

fn end_run(end: RunEnd, item: bool) -> (r: (RunPhase, RunAction))
    ensures
        run_order(r) == ended(end, item),
        r.1 is Finalize,
{
    (RunPhase::Finished, RunAction::Finalize { end, shown: item })
}

fn advance_summary(run: &CompactionRun, phase: RunPhase, event: RunEvent) -> (r: (RunPhase, RunAction))
    ensures
        run_order(r) == summary_step(*run, phase, event),
        runs_with(*run, phase, event, r.1),
{
    match (phase, event) {
        (RunPhase::Session, RunEvent::Found(found)) => {
            if found {
                (
                    RunPhase::StartShown,
                    RunAction::ShowStarted { turn: run.turn, trigger: run.options.trigger },
                )
            } else {
                end_run(RunEnd::Failed(CompactionFailure::SessionUnavailable), false)
            }
        },
        (RunPhase::StartShown, RunEvent::Done) => (
            RunPhase::ItemShown,
            RunAction::ShowItemStarted(run.item),
        ),
        (RunPhase::ItemShown, RunEvent::Done) => (
            RunPhase::PreHookRan,
            RunAction::RunPreHook {
                trigger: compaction_trigger_hook_label(run.options.trigger),
                instructions: copy_text(&run.options.custom_instructions),
            },
        ),
        (RunPhase::PreHookRan, RunEvent::Done) => (RunPhase::Snapshot, RunAction::TakeSnapshot),
        (RunPhase::Snapshot, RunEvent::Snapshot(taken)) => match taken {
            Some(facts) => (
                RunPhase::Provider,
                RunAction::ResolveProvider(
                    match session_model_selection(&facts.choice) {
                        Some(model) => model,
                        None => facts.default_model,
                    },
                ),
            ),
            None => end_run(RunEnd::Failed(CompactionFailure::SessionUnavailable), true),
        },
        (RunPhase::Provider, RunEvent::Provider(found)) => match found {
            Some(most) => (RunPhase::Summary, RunAction::Summarize { limit: summary_limit(most) }),
            None => end_run(RunEnd::Failed(CompactionFailure::SessionUnavailable), true),
        },
        (RunPhase::Summary, RunEvent::Summarized(summarized)) => (
            RunPhase::AbortDetached(summarized),
            RunAction::DetachAbort,
        ),
        (RunPhase::AbortDetached(summarized), RunEvent::Done) => (
            RunPhase::Locked(summarized),
            RunAction::LockState,
        ),
        (RunPhase::Locked(summarized), RunEvent::Done) => match summarized {
            Summarized::Canceled => end_run(RunEnd::Canceled, true),
            Summarized::Skipped => end_run(RunEnd::Skipped, true),
            Summarized::Failed(error) => end_run(
                RunEnd::Failed(CompactionFailure::NotSummarized(error)),
                true,
            ),
            Summarized::Replaced(summary) => (
                RunPhase::Cancellation(summary),
                RunAction::ReadCancellation,
            ),
        },
        (phase, _) => (phase, RunAction::Ignore),
    }
}

/// What the rollout is to say of a run.
pub fn summary_record(
    run: &CompactionRun,
    source: &CompactionSource,
    summary: &Option<String>,
) -> (r: SummaryRecord)
    ensures
        is_summary_record(*run, *source, *summary, r),
{
    let mut preserved: Vec<ItemId> = Vec::new();
    let mut i: usize = 0;
    while i < source.preserved.len()
        invariant
            i <= source.preserved@.len(),
            preserved@ == source.preserved@.take(i as int),
        decreases source.preserved@.len() - i,
    {
        preserved.push(source.preserved[i]);
        i = i + 1;
        assert(preserved@ =~= source.preserved@.take(i as int));
    }
    assert(source.preserved@.take(source.preserved@.len() as int) =~= source.preserved@);
    SummaryRecord {
        turn: run.turn,
        item: run.item,
        seq: source.session.counters.next_item_seq,
        summary: copy_text(summary),
        snapshot: CompactionSnapshot {
            turn: run.turn,
            summary_item: run.item,
            occupancy: source.session.occupancy,
        },
        preserved,
    }
}

/// The session once the summary stands in the place of its history.
pub fn compacted_session(run: &CompactionRun, source: CompactionSource, applied: &AppliedSummary) -> (r:
    SessionState)
    ensures
        is_compacted_session(*run, source, *applied, r),
{
    let mut session = source.session;
    session.counters = compacted_counters(
        &session.counters,
        applied.conversation_tokens,
        applied.occupancy.total_tokens,
    );
    session.occupancy = Some(applied.occupancy);
    session.active = None;
    session.latest = Some(EndedTurn { turn: run.turn, status: TurnStatus::Completed });
    session.status = SessionStatus::Idle;
    if source.durable {
        session.compaction = Some(
            CompactionSnapshot {
                turn: run.turn,
                summary_item: run.item,
                occupancy: Some(applied.occupancy),
            },
        );
        session.items.push(SessionItem { turn: run.turn, item: run.item, user_message: false });
    }
    session
}

fn close_item(
    run: &CompactionRun,
    source: CompactionSource,
    applied: AppliedSummary,
    summary: Option<String>,
) -> (r: (RunPhase, RunAction))
    ensures
        run_order(r) == (RunPhase::ItemClosed(source, applied, summary), item_completed(*run, source)),
        r.1 is ShowItemCompleted,
{
    let seq: u64 = source.session.counters.next_item_seq;
    (
        RunPhase::ItemClosed(source, applied, summary),
        RunAction::ShowItemCompleted { turn: run.turn, item: run.item, seq },
    )
}

fn run_post_hook(run: &CompactionRun, summary: Option<String>) -> (r: (RunPhase, RunAction))
    ensures
        run_order(r) == (
            RunPhase::PostHookRan,
            RunOrder::RunPostHook { trigger: hook_label(run.options.trigger), summary: () },
        ),
        r.1 matches RunAction::RunPostHook { summary: told, .. } && told@ == summary_text(summary),
{
    let told = match summary {
        Some(summary) => summary,
        None => {
            let empty = String::new();
            assert(empty@ =~= Seq::empty());
            empty
        },
    };
    (
        RunPhase::PostHookRan,
        RunAction::RunPostHook {
            trigger: compaction_trigger_hook_label(run.options.trigger),
            summary: told,
        },
    )
}

fn advance_replace(run: &CompactionRun, phase: RunPhase, event: RunEvent) -> (r: (RunPhase, RunAction))
    ensures
        run_order(r) == replace_step(*run, phase, event),
        runs_with(*run, phase, event, r.1),
{
    match (phase, event) {
        (RunPhase::Cancellation(summary), RunEvent::Canceled(canceled)) => {
            if canceled {
                end_run(RunEnd::Canceled, true)
            } else {
                (RunPhase::Export(summary), RunAction::ExportSession)
            }
        },
        (RunPhase::Export(summary), RunEvent::Exported(exported)) => match exported {
            None => end_run(RunEnd::Failed(CompactionFailure::SessionUnavailable), true),
            Some(source) => {
                if source.durable {
                    let record = summary_record(run, &source, &summary);
                    (RunPhase::SummaryWritten(source, summary), RunAction::AppendSummary(record))
                } else {
                    (RunPhase::Claimed(source, summary), RunAction::Claim(run.turn))
                }
            },
        },
        (RunPhase::SummaryWritten(source, summary), RunEvent::Written(failure)) => match failure {
            Some(error) => end_run(RunEnd::Failed(CompactionFailure::NotPersisted(error)), true),
            None => (RunPhase::Claimed(source, summary), RunAction::Claim(run.turn)),
        },
        (RunPhase::Claimed(source, summary), RunEvent::Claimed(owned)) => {
            if owned {
                (RunPhase::Applied(source, summary), RunAction::ApplyToExport)
            } else {
                (RunPhase::Finished, RunAction::Stop)
            }
        },
        (RunPhase::Applied(source, summary), RunEvent::Applied(applied)) => {
            if source.ephemeral {
                close_item(run, source, applied, summary)
            } else {
                let counters = compacted_counters(
                    &source.session.counters,
                    applied.conversation_tokens,
                    applied.occupancy.total_tokens,
                );
                (RunPhase::StatsWritten(source, applied, summary), RunAction::WriteStats(counters))
            }
        },
        (RunPhase::StatsWritten(source, applied, summary), RunEvent::Done) => close_item(
            run,
            source,
            applied,
            summary,
        ),
        (RunPhase::ItemClosed(source, applied, summary), RunEvent::Done) => (
            RunPhase::StateReplaced(summary),
            RunAction::ReplaceState(compacted_session(run, source, &applied)),
        ),
        (RunPhase::StateReplaced(summary), RunEvent::Done) => (
            RunPhase::HandlesCleared(summary),
            RunAction::ClearHandles,
        ),
        (RunPhase::HandlesCleared(summary), RunEvent::Done) => (
            RunPhase::Durability(summary),
            RunAction::ReadDurability,
        ),
        (RunPhase::Durability(summary), RunEvent::Durable(durable)) => {
            if durable {
                (RunPhase::EndWritten(summary), RunAction::AppendTurnEnd(run.turn))
            } else {
                run_post_hook(run, summary)
            }
        },
        (RunPhase::EndWritten(summary), RunEvent::Written(_)) => run_post_hook(run, summary),
        (RunPhase::PostHookRan, RunEvent::Done) => (
            RunPhase::NoticesShown,
            RunAction::ShowNotices,
        ),
        (RunPhase::NoticesShown, RunEvent::Done) => (
            RunPhase::Recorded,
            RunAction::RecordTerminal(run.turn),
        ),
        (RunPhase::Recorded, RunEvent::Done) => (RunPhase::Finished, RunAction::Stop),
        (phase, _) => (phase, RunAction::Ignore),
    }
}

/// Takes a run of compaction one step further.
pub fn advance_run(run: &CompactionRun, phase: RunPhase, event: RunEvent) -> (r: (RunPhase, RunAction))
    ensures
        is_run_step(*run, phase, event, r),
{
    match phase {
        RunPhase::Session
        | RunPhase::StartShown
        | RunPhase::ItemShown
        | RunPhase::PreHookRan
        | RunPhase::Snapshot
        | RunPhase::Provider
        | RunPhase::Summary
        | RunPhase::AbortDetached(_)
        | RunPhase::Locked(_) => advance_summary(run, phase, event),
        _ => advance_replace(run, phase, event),
    }
}

/// The phase that a run is in after `events`, and what it asked the host to
/// do on the way.
pub open spec fn run_trace(run: CompactionRun, events: Seq<RunEvent>) -> (RunPhase, Seq<RunOrder>)
    decreases events.len(),
{
    if events.len() == 0 {
        (RunPhase::Session, Seq::empty())
    } else {
        let (phase, actions) = run_trace(run, events.drop_last());
        let (next, action) = run_step(run, phase, events.last());
        (next, actions.push(action))
    }
}

/// Whether the run learned at `j` that the turn is its own to end.
pub open spec fn owned_at(run: CompactionRun, events: Seq<RunEvent>, j: int) -> bool {
    &&& 0 <= j < events.len()
    &&& run_trace(run, events.take(j)).0 is Claimed
    &&& events[j] == RunEvent::Claimed(true)
}

/// Whether the run learned at `j` that the summary is on disk, or that the
/// session has no place on disk.
pub open spec fn saved_at(run: CompactionRun, events: Seq<RunEvent>, j: int) -> bool {
    &&& 0 <= j < events.len()
    &&& {
        ||| run_trace(run, events.take(j)).0 is Export && (events[j] matches RunEvent::Exported(
            Some(source),
        ) && !source.durable)
        ||| run_trace(run, events.take(j)).0 is SummaryWritten && events[j] == RunEvent::Written(None)
    }
}

/// Whether the run has gone past the claim.
pub open spec fn past_claim(phase: RunPhase) -> bool {
    match phase {
        RunPhase::Applied(_, _)
        | RunPhase::StatsWritten(_, _, _)
        | RunPhase::ItemClosed(_, _, _)
        | RunPhase::StateReplaced(_)
        | RunPhase::HandlesCleared(_)
        | RunPhase::Durability(_)
        | RunPhase::EndWritten(_)
        | RunPhase::PostHookRan
        | RunPhase::NoticesShown
        | RunPhase::Recorded => true,
        _ => false,
    }
}

proof fn lemma_replacement_is_saved_and_owned(run: CompactionRun, events: Seq<RunEvent>)
    ensures
        ({
            let (phase, actions) = run_trace(run, events);
            let saved = exists|j: int| saved_at(run, events, j);
            let owned = exists|j: int| owned_at(run, events, j);
            &&& phase is Claimed ==> saved
            &&& past_claim(phase) ==> saved && owned
            &&& (exists|i: int| 0 <= i < actions.len() && #[trigger] actions[i] is ReplaceState)
                ==> saved && owned
        }),
    decreases events.len(),
{
    if events.len() > 0 {
        let before = events.drop_last();
        let last = events.len() - 1;
        lemma_replacement_is_saved_and_owned(run, before);
        let (phase, actions) = run_trace(run, before);
        let (next, action) = run_step(run, phase, events.last());
        let after = actions.push(action);
        assert(events.take(last) =~= before);
        if exists|j: int| saved_at(run, before, j) {
            let j = choose|j: int| saved_at(run, before, j);
            assert(before.take(j) =~= events.take(j));
            assert(saved_at(run, events, j));
        }
        if exists|j: int| owned_at(run, before, j) {
            let j = choose|j: int| owned_at(run, before, j);
            assert(before.take(j) =~= events.take(j));
            assert(owned_at(run, events, j));
        }
        if next is Claimed && !(phase is Claimed) {
            assert(saved_at(run, events, last));
        }
        if next is Applied && !(phase is Applied) {
            assert(owned_at(run, events, last));
        }
        if exists|i: int| 0 <= i < after.len() && #[trigger] after[i] is ReplaceState {
            let i = choose|i: int| 0 <= i < after.len() && #[trigger] after[i] is ReplaceState;
            if i < actions.len() {
                assert(actions[i] is ReplaceState);
            }
        }
    }
}

/// The history is replaced only after the summary is on disk (where the
/// session has a place there) and after the run has won the turn from any
/// interruption: a failed write leaves the previous prompt in place.
pub proof fn law_history_is_replaced_only_when_saved_and_owned(
    run: CompactionRun,
    events: Seq<RunEvent>,
    i: int,
)
    requires
        0 <= i < run_trace(run, events).1.len(),
        run_trace(run, events).1[i] is ReplaceState,
    ensures
        exists|j: int| saved_at(run, events, j),
        exists|j: int| owned_at(run, events, j),
{
    lemma_replacement_is_saved_and_owned(run, events);
}

/// The summary that is recorded is the one that the session ends with: its
/// item, its number and its turn agree, and no turn is left running.
pub proof fn law_recorded_summaries_replace_the_history(
    run: CompactionRun,
    source: CompactionSource,
    applied: AppliedSummary,
    summary: Option<String>,
    record: SummaryRecord,
    after: SessionState,
)
    requires
        source.durable,
        is_summary_record(run, source, summary, record),
        is_compacted_session(run, source, applied, after),
    ensures
        after.items@.last() == (SessionItem {
            turn: record.turn,
            item: record.item,
            user_message: false,
        }),
        after.items@.drop_last() == source.session.items@,
        after.compaction matches Some(snapshot) && snapshot.turn == record.turn
            && snapshot.summary_item == record.item,
        record.seq < u64::MAX ==> after.counters.next_item_seq == record.seq + 1,
        after.active is None,
        after.latest == Some(EndedTurn { turn: record.turn, status: TurnStatus::Completed }),
        after.status is Idle,
{
    assert(after.items@.drop_last() =~= source.session.items@);
}

/// The summary that a phase holds, where the history is summarized.
pub open spec fn summary_in(phase: RunPhase) -> Option<Option<String>> {
    match phase {
        RunPhase::AbortDetached(Summarized::Replaced(summary)) => Some(summary),
        RunPhase::Locked(Summarized::Replaced(summary)) => Some(summary),
        RunPhase::Cancellation(summary) => Some(summary),
        RunPhase::Export(summary) => Some(summary),
        RunPhase::SummaryWritten(_, summary) => Some(summary),
        RunPhase::Claimed(_, summary) => Some(summary),
        RunPhase::Applied(_, summary) => Some(summary),
        RunPhase::StatsWritten(_, _, summary) => Some(summary),
        RunPhase::ItemClosed(_, _, summary) => Some(summary),
        RunPhase::StateReplaced(summary) => Some(summary),
        RunPhase::HandlesCleared(summary) => Some(summary),
        RunPhase::Durability(summary) => Some(summary),
        RunPhase::EndWritten(summary) => Some(summary),
        _ => None,
    }
}

proof fn lemma_summary_was_made(run: CompactionRun, events: Seq<RunEvent>)
    ensures
        summary_in(run_trace(run, events).0) matches Some(summary) ==> events.contains(
            RunEvent::Summarized(Summarized::Replaced(summary)),
        ),
    decreases events.len(),
{
    if events.len() > 0 {
        let before = events.drop_last();
        lemma_summary_was_made(run, before);
        assert(events[events.len() - 1] == events.last());
        assert forall|event: RunEvent| before.contains(event) implies events.contains(event) by {
            let i = choose|i: int| 0 <= i < before.len() && before[i] == event;
            assert(events[i] == event);
        }
    }
}

/// The summary that is recorded, and that the hook is told, is the one that was
/// made of the history.
pub proof fn law_the_summary_made_is_the_one_recorded(
    run: CompactionRun,
    events: Seq<RunEvent>,
    event: RunEvent,
    step: (RunPhase, RunAction),
)
    requires
        is_run_step(run, run_trace(run, events).0, event, step),
    ensures
        step.1 matches RunAction::AppendSummary(record) ==> events.contains(
            RunEvent::Summarized(Summarized::Replaced(record.summary)),
        ),
        step.1 matches RunAction::RunPostHook { summary: told, .. } ==> exists|
            summary: Option<String>,
        | #[trigger]
            events.contains(RunEvent::Summarized(Summarized::Replaced(summary))) && told@
                == summary_text(summary),
{
    lemma_summary_was_made(run, events);
}

/// The notifications of a compaction that replaced the history, in order.
pub open spec fn replaced_notices() -> Seq<EndNotice> {
    seq![
        EndNotice::UsageUpdated,
        EndNotice::CompactionCompleted,
        EndNotice::TurnCompleted,
        EndNotice::StatusIdle,
    ]
}

/// The notifications of a compaction that replaced the history, in order.
pub fn list_replaced_notices() -> (r: Vec<EndNotice>)
    ensures
        r@ == replaced_notices(),
{
    let mut notices: Vec<EndNotice> = Vec::new();
    notices.push(EndNotice::UsageUpdated);
    notices.push(EndNotice::CompactionCompleted);
    notices.push(EndNotice::TurnCompleted);
    notices.push(EndNotice::StatusIdle);
    assert(notices@ =~= replaced_notices());
    notices
}

/// What a session has spent in all.
#[derive(Clone, Copy, Debug, PartialEq, Eq, Structural)]
pub struct UsageTotals {
    pub input: usize,
    pub output: usize,
    pub total: usize,
    pub cache_creation: usize,
    pub cache_read: usize,
}

/// The counters of a session that a compaction touches.
#[derive(Clone, Copy, Debug, PartialEq, Eq, Structural)]
pub struct SessionCounters {
    pub totals: UsageTotals,
    pub prompt_token_estimate: usize,
    pub last_turn_tokens: usize,
    pub last_input_tokens: usize,
    pub last_query_total_tokens: usize,
    pub occupancy_total: Option<u64>,
    pub loaded_item_count: u64,
    pub next_item_seq: u64,
}

/// A count of tokens as the counters hold it.
pub open spec fn as_count(tokens: u64) -> usize {
    if tokens <= usize::MAX {
        tokens as usize
    } else {
        usize::MAX
    }
}

fn to_count(tokens: u64) -> (r: usize)
    ensures
        r == as_count(tokens),
{
    if tokens <= usize::MAX as u64 {
        tokens as usize
    } else {
        usize::MAX
    }
}

/// A counter that has counted one more.
pub open spec fn one_more(count: u64) -> u64 {
    if count < u64::MAX {
        (count + 1) as u64
    } else {
        count
    }
}

/// The counters after the history was replaced: what was spent stays spent,
/// the estimates follow the new prompt, and the summary is one more item, as
/// far as the counters go.
pub open spec fn counters_after(
    before: SessionCounters,
    conversation_tokens: u64,
    occupancy: u64,
) -> SessionCounters {
    SessionCounters {
        totals: before.totals,
        prompt_token_estimate: as_count(conversation_tokens),
        last_turn_tokens: as_count(occupancy),
        last_input_tokens: as_count(conversation_tokens),
        last_query_total_tokens: as_count(occupancy),
        occupancy_total: Some(occupancy),
        loaded_item_count: one_more(before.loaded_item_count),
        next_item_seq: one_more(before.next_item_seq),
    }
}

/// Brings the counters up to date after the history was replaced.
pub fn compacted_counters(
    before: &SessionCounters,
    conversation_tokens: u64,
    occupancy: u64,
) -> (r: SessionCounters)
    ensures
        r == counters_after(*before, conversation_tokens, occupancy),
{
    SessionCounters {
        totals: before.totals,
        prompt_token_estimate: to_count(conversation_tokens),
        last_turn_tokens: to_count(occupancy),
        last_input_tokens: to_count(conversation_tokens),
        last_query_total_tokens: to_count(occupancy),
        occupancy_total: Some(occupancy),
        loaded_item_count: before.loaded_item_count.saturating_add(1),
        next_item_seq: before.next_item_seq.saturating_add(1),
    }
}

/// The context window of a compacted session, nothing where none is known.
pub open spec fn window_measured(session: Option<u64>, model: Option<u64>) -> u64 {
    match (session, model) {
        (Some(window), _) => window,
        (None, Some(limit)) => limit,
        (None, None) => 0,
    }
}

/// The context window against which a compacted session is measured: the
/// session's own, else the model's, else none.
pub fn compaction_window(session: Option<u64>, model: Option<u64>) -> (r: u64)
    ensures
        r == window_measured(session, model),
{
    match session {
        Some(window) => window,
        None => match model {
            Some(limit) => limit,
            None => 0,
        },
    }
}

/// The most tokens a summary may have: what the model allows, or 4096.
pub open spec fn limit_of(model: Option<u32>) -> u64 {
    match model {
        Some(limit) => limit as u64,
        None => 4096,
    }
}

/// The most tokens a summary may have.
pub fn summary_limit(model: Option<u32>) -> (r: u64)
    ensures
        r == limit_of(model),
{
    match model {
        Some(limit) => limit as u64,
        None => 4096,
    }
}

/// What the recovery from a panic of the compaction task waits for.
#[derive(Clone, Copy, Debug, PartialEq, Eq, Structural)]
pub enum RecoveryPhase {
    Finalized,
    FirstStatus,
    Recovered,
    SecondStatus,
    MadeIdle,
    HandlesCleared,
    NoticesShown,
    Recorded,
    Finished,
}

/// What the host observed during the recovery.
#[derive(Clone, Copy, Debug, PartialEq, Eq, Structural)]
pub enum RecoveryEvent {
    Done,
    /// Whether the turn's end is known.
    EndKnown(bool),
}

/// What the host has to do for the recovery. `E` is the end of the turn and `N`
/// are the notifications; they are `()` where only the order of the steps
/// matters.
#[derive(Debug)]
pub enum RecoveryAction<E = CompactionEnd, N = Vec<EndNotice>> {
    /// End the turn as failed, with no transcript entry to close.
    Finalize(E),
    /// Read whether the end of the turn was noted.
    ReadEnd(TurnId),
    /// End the turn as an interruption would that finds nobody working on it.
    RecoverOrphan(TurnId),
    /// Make the session idle, with the turn as its latest one.
    MakeIdle(EndedTurn),
    /// Forget the handles of the running task.
    ClearHandles,
    /// Send the notifications in order.
    ShowNotices(N),
    /// Note the end of the turn for those who ask for it.
    RecordTerminal(EndedTurn),
    /// The end is known.
    Stop,
    /// Nothing: the event does not belong to the phase.
    Ignore,
}

/// What the host has to do for the recovery, without what it is done with.
pub type RecoveryOrder = RecoveryAction<(), ()>;

impl RecoveryAction {
    /// What is to be done, without what it is done with.
    pub open spec fn order(self) -> RecoveryOrder {
        match self {
            RecoveryAction::Finalize(_) => RecoveryAction::Finalize(()),
            RecoveryAction::ReadEnd(turn) => RecoveryAction::ReadEnd(turn),
            RecoveryAction::RecoverOrphan(turn) => RecoveryAction::RecoverOrphan(turn),
            RecoveryAction::MakeIdle(ended) => RecoveryAction::MakeIdle(ended),
            RecoveryAction::ClearHandles => RecoveryAction::ClearHandles,
            RecoveryAction::ShowNotices(_) => RecoveryAction::ShowNotices(()),
            RecoveryAction::RecordTerminal(ended) => RecoveryAction::RecordTerminal(ended),
            RecoveryAction::Stop => RecoveryAction::Stop,
            RecoveryAction::Ignore => RecoveryAction::Ignore,
        }
    }
}

/// Whether `end` is that of a turn whose task was lost: it failed, and no
/// transcript entry is known of it.
pub open spec fn is_lost_end(turn: TurnId, end: CompactionEnd) -> bool {
    &&& end.turn == turn
    &&& end.item is None
    &&& end.outcome matches CompactionOutcome::Failed(message) && message@
        == "compaction failed: panicked"@
}

/// The turn, as it ends where its task was lost.
pub open spec fn lost_turn(turn: TurnId) -> EndedTurn {
    EndedTurn { turn, status: TurnStatus::Failed }
}

/// Whether `step` is the next one of the recovery: the step, and the
/// notifications that go with it.
pub open spec fn is_recovery_step(
    turn: TurnId,
    phase: RecoveryPhase,
    event: RecoveryEvent,
    step: (RecoveryPhase, RecoveryAction),
) -> bool {
    &&& (step.0, step.1.order()) == recovery_step(turn, phase, event)
    &&& step.1 matches RecoveryAction::ShowNotices(notices) ==> notices@ == lost_notices()
}

/// The notifications of a turn whose end had to be forced.
pub open spec fn lost_notices() -> Seq<EndNotice> {
    seq![
        EndNotice::CompactionFailed,
        EndNotice::TurnCompleted,
        EndNotice::TurnCompleted,
        EndNotice::StatusIdle,
    ]
}

/// The next step of the recovery: the turn's end is forced where neither the
/// ordinary end nor the recovery of an orphaned turn has reported one.
pub open spec fn recovery_step(turn: TurnId, phase: RecoveryPhase, event: RecoveryEvent) -> (
    RecoveryPhase,
    RecoveryOrder,
) {
    match (phase, event) {
        (RecoveryPhase::Finalized, RecoveryEvent::Done) => (
            RecoveryPhase::FirstStatus,
            RecoveryAction::ReadEnd(turn),
        ),
        (RecoveryPhase::FirstStatus, RecoveryEvent::EndKnown(known)) => if known {
            (RecoveryPhase::Finished, RecoveryAction::Stop)
        } else {
            (RecoveryPhase::Recovered, RecoveryAction::RecoverOrphan(turn))
        },
        (RecoveryPhase::Recovered, RecoveryEvent::Done) => (
            RecoveryPhase::SecondStatus,
            RecoveryAction::ReadEnd(turn),
        ),
        (RecoveryPhase::SecondStatus, RecoveryEvent::EndKnown(known)) => if known {
            (RecoveryPhase::Finished, RecoveryAction::Stop)
        } else {
            (RecoveryPhase::MadeIdle, RecoveryAction::MakeIdle(lost_turn(turn)))
        },
        (RecoveryPhase::MadeIdle, RecoveryEvent::Done) => (
            RecoveryPhase::HandlesCleared,
            RecoveryAction::ClearHandles,
        ),
        (RecoveryPhase::HandlesCleared, RecoveryEvent::Done) => (
            RecoveryPhase::NoticesShown,
            RecoveryAction::ShowNotices(()),
        ),
        (RecoveryPhase::NoticesShown, RecoveryEvent::Done) => (
            RecoveryPhase::Recorded,
            RecoveryAction::RecordTerminal(lost_turn(turn)),
        ),
        (RecoveryPhase::Recorded, RecoveryEvent::Done) => (
            RecoveryPhase::Finished,
            RecoveryAction::Stop,
        ),
        _ => (phase, RecoveryAction::Ignore),
    }
}

/// Starts the recovery from a panic.
pub fn begin_recovery(turn: TurnId) -> (r: (RecoveryPhase, RecoveryAction))
    ensures
        r.0 is Finalized,
        r.1 matches RecoveryAction::Finalize(end) && is_lost_end(turn, end),
{
    let outcome = CompactionOutcome::Failed("compaction failed: panicked".to_owned());
    (
        RecoveryPhase::Finalized,
        RecoveryAction::Finalize(CompactionEnd { turn, item: None, outcome }),
    )
}

fn list_lost_notices() -> (r: Vec<EndNotice>)
    ensures
        r@ == lost_notices(),
{
    let notices = vec![
        EndNotice::CompactionFailed,
        EndNotice::TurnCompleted,
        EndNotice::TurnCompleted,
        EndNotice::StatusIdle,
    ];
    assert(notices@ =~= lost_notices());
    notices
}

/// Takes the recovery from a panic one step further.
pub fn advance_recovery(turn: TurnId, phase: RecoveryPhase, event: RecoveryEvent) -> (r: (
    RecoveryPhase,
    RecoveryAction,
))
    ensures
        is_recovery_step(turn, phase, event, r),
{
    match (phase, event) {
        (RecoveryPhase::Finalized, RecoveryEvent::Done) => (
            RecoveryPhase::FirstStatus,
            RecoveryAction::ReadEnd(turn),
        ),
        (RecoveryPhase::FirstStatus, RecoveryEvent::EndKnown(known)) => {
            if known {
                (RecoveryPhase::Finished, RecoveryAction::Stop)
            } else {
                (RecoveryPhase::Recovered, RecoveryAction::RecoverOrphan(turn))
            }
        },
        (RecoveryPhase::Recovered, RecoveryEvent::Done) => (
            RecoveryPhase::SecondStatus,
            RecoveryAction::ReadEnd(turn),
        ),
        (RecoveryPhase::SecondStatus, RecoveryEvent::EndKnown(known)) => {
            if known {
                (RecoveryPhase::Finished, RecoveryAction::Stop)
            } else {
                (
                    RecoveryPhase::MadeIdle,
                    RecoveryAction::MakeIdle(EndedTurn { turn, status: TurnStatus::Failed }),
                )
            }
        },
        (RecoveryPhase::MadeIdle, RecoveryEvent::Done) => (
            RecoveryPhase::HandlesCleared,
            RecoveryAction::ClearHandles,
        ),
        (RecoveryPhase::HandlesCleared, RecoveryEvent::Done) => (
            RecoveryPhase::NoticesShown,
            RecoveryAction::ShowNotices(list_lost_notices()),
        ),
        (RecoveryPhase::NoticesShown, RecoveryEvent::Done) => (
            RecoveryPhase::Recorded,
            RecoveryAction::RecordTerminal(EndedTurn { turn, status: TurnStatus::Failed }),
        ),
        (RecoveryPhase::Recorded, RecoveryEvent::Done) => (
            RecoveryPhase::Finished,
            RecoveryAction::Stop,
        ),
        (phase, _) => (phase, RecoveryAction::Ignore),
    }
}

/// What a client is told once a compaction was asked for: the turn, if the
/// registry still has it, else the answer that admission gave.
#[derive(Clone, Copy, Debug, PartialEq, Eq, Structural)]
pub enum CompactAnswer {
    /// Pass on the answer of admission.
    AsAdmitted,
    /// Answer with the active turn.
    Turn,
    Busy,
}

/// The answer to `session/compact/start`.
pub open spec fn compact_answer(started: Option<bool>, registered: bool) -> CompactAnswer {
    match started {
        None => CompactAnswer::AsAdmitted,
        Some(false) => CompactAnswer::Busy,
        Some(true) => if registered {
            CompactAnswer::Turn
        } else {
            CompactAnswer::AsAdmitted
        },
    }
}

/// Chooses the answer to `session/compact/start`. `started` is none where
/// admission refused, and says whether a turn was started; `registered` says
/// whether that turn is the active one.
pub fn compact_start_answer(started: Option<bool>, registered: bool) -> (r: CompactAnswer)
    ensures
        r == compact_answer(started, registered),
{
    match started {
        None => CompactAnswer::AsAdmitted,
        Some(started) => {
            if !started {
                CompactAnswer::Busy
            } else if registered {
                CompactAnswer::Turn
            } else {
                CompactAnswer::AsAdmitted
            }
        },
    }
}

/// A session at rest is admitted to a compaction: it is locked and reserved,
/// the model is its own, its binding first, and the turn is begun as its next
/// one, written down where the session is kept, launched and shown.
pub proof fn law_resting_sessions_are_compacted(
    turn: TurnId,
    held: CompactionReservation,
    model: TurnModel,
    durable: bool,
)
    ensures
        ({
            let sequence: int = if held.latest is Some {
                held.latest->0 + 1
            } else {
                1
            };
            let started = ActiveTurn { turn, sequence: sequence as u64 };
            let a = admission_step(
                turn,
                AdmissionPhase::Session,
                AdmissionEvent::SessionFound(true),
            );
            let b = admission_step(turn, a.0, AdmissionEvent::TurnActive(false));
            let c = admission_step(turn, b.0, AdmissionEvent::Done);
            let d = admission_step(turn, c.0, AdmissionEvent::Reserved(Some(held)));
            let e = admission_step(turn, d.0, AdmissionEvent::ModelResolved(model));
            let f = admission_step(turn, e.0, AdmissionEvent::Begun(true));
            let g = admission_step(turn, f.0, AdmissionEvent::Durable(durable));
            let h = if durable {
                admission_step(turn, g.0, AdmissionEvent::Written(None))
            } else {
                g
            };
            let i = admission_step(turn, h.0, AdmissionEvent::Done);
            let j = admission_step(turn, i.0, AdmissionEvent::Done);
            let k = admission_step(turn, j.0, AdmissionEvent::Done);
            &&& a.1 is ReadActiveTurn
            &&& b.1 is LockState
            &&& c.1 is Reserve
            &&& d.1 matches AdmissionAction::ResolveModel(asked) && {
                &&& held.choice.binding is Some ==> asked.model == held.choice.binding
                &&& held.choice.binding is None ==> asked.model == held.choice.model
                &&& asked.effort == held.choice.effort
            }
            &&& e.1 == AdmissionAction::TryBegin(started, model)
            &&& f.1 is ReadDurability
            &&& durable ==> g.1 == AdmissionAction::AppendTurnStart(started, model)
            &&& h.1 == AdmissionAction::Launch(turn)
            &&& i.1 is ShowStatusActive
            &&& j.1 == AdmissionAction::ShowTurnStarted(started)
            &&& k.1 == AdmissionAction::Admitted(started)
        }),
{
}

/// A compaction is not admitted where the session is not there, where a turn
/// runs or begins first, or where its start cannot be written down; the client
/// is told which.
pub proof fn law_compactions_are_refused_for_a_reason(
    turn: TurnId,
    sequence: u64,
    model: TurnModel,
    error: String,
)
    ensures
        admission_step(turn, AdmissionPhase::Session, AdmissionEvent::SessionFound(false)).1
            == AdmissionAction::Stop(AdmissionStop::SessionMissing),
        admission_step(turn, AdmissionPhase::ActiveTurn, AdmissionEvent::TurnActive(true)).1
            == AdmissionAction::Stop(AdmissionStop::Busy),
        admission_step(turn, AdmissionPhase::Reservation, AdmissionEvent::Reserved(None)).1
            == AdmissionAction::Stop(AdmissionStop::SessionMissing),
        admission_step(
            turn,
            AdmissionPhase::Begun(sequence, model),
            AdmissionEvent::Begun(false),
        ).1 == AdmissionAction::Stop(AdmissionStop::Busy),
        admission_refusal(AdmissionStop::SessionMissing).code is SessionNotFound,
        admission_refusal(AdmissionStop::Busy).code is TurnAlreadyRunning,
        admission_refusal(AdmissionStop::StartNotWritten(error)).code is InternalError,
        admission_refusal(AdmissionStop::StartNotWritten(error)).detail == Some(error),
{
}

/// How a compaction that replaces nothing ends: one that was skipped has
/// completed, one that failed has failed, and a canceled one was interrupted.
/// Its turn is claimed, made idle, written down, announced and recorded as ended
/// in that way.
pub proof fn law_ended_compactions_say_how(
    end: CompactionEnd,
    durable: bool,
    unwritten: Option<String>,
    occupancy: Option<bool>,
)
    ensures
        ({
            let ended = EndedTurn {
                turn: end.turn,
                status: match end.outcome {
                    CompactionOutcome::Skipped => TurnStatus::Completed,
                    CompactionOutcome::Failed(_) => TurnStatus::Failed,
                    CompactionOutcome::Canceled => TurnStatus::Interrupted,
                },
            };
            let a = finalize_step(end, FinalizePhase::Detached, FinalizeEvent::Done);
            let b = finalize_step(end, a.0, FinalizeEvent::Claimed(true));
            let c = finalize_step(end, b.0, FinalizeEvent::Done);
            let d = finalize_step(end, c.0, FinalizeEvent::Done);
            let e = finalize_step(end, d.0, FinalizeEvent::Durable(durable));
            let f = if durable {
                finalize_step(end, e.0, FinalizeEvent::Written(unwritten))
            } else {
                e
            };
            let g = if end.outcome is Skipped {
                finalize_step(end, f.0, FinalizeEvent::SummaryRead(occupancy))
            } else {
                f
            };
            let h = finalize_step(end, g.0, FinalizeEvent::Done);
            let i = finalize_step(end, h.0, FinalizeEvent::Done);
            &&& a.1 == FinalizeOrder::Claim(end.turn)
            &&& b.1 == FinalizeOrder::MakeIdle(ended)
            &&& c.1 is ClearHandles
            &&& d.1 is ReadDurability
            &&& durable ==> e.1 == FinalizeOrder::AppendTurnEnd(ended)
            &&& end.outcome is Skipped ==> f.1 is ReadSummary
            &&& g.1 is ShowNotices
            &&& h.1 == FinalizeOrder::RecordTerminal(ended)
            &&& i.1 is Stop
            &&& finalize_step(end, a.0, FinalizeEvent::Claimed(false)).1 is Stop
        }),
{
}

/// Every compaction that ends is announced: its item is closed where it was
/// shown, a failed or canceled one is told as failed, a skipped one is not, the
/// turn is told as completed, and last the session is told as idle.
pub proof fn law_ends_are_announced(
    outcome: CompactionOutcome,
    item: bool,
    occupancy: Option<bool>,
)
    ensures
        ({
            let notices = end_notices(outcome, item, occupancy);
            &&& notices.contains(EndNotice::ItemFailed) <==> item
            &&& notices.contains(EndNotice::CompactionFailed) <==> !(outcome is Skipped)
            &&& notices.contains(EndNotice::TurnCompleted)
            &&& notices.last() is StatusIdle
            &&& notices.contains(EndNotice::UsageUpdated) <==> outcome is Skipped && occupancy
                == Some(true)
            &&& notices.contains(EndNotice::CompactionCompleted) <==> outcome is Skipped
                && occupancy is Some && item
        }),
{
    let notices = end_notices(outcome, item, occupancy);
    let closed: int = if item { 1 } else { 0 };
    if item {
        assert(notices[0] is ItemFailed);
    }
    match outcome {
        CompactionOutcome::Skipped => {
            let usage: int = if occupancy == Some(true) { 1 } else { 0 };
            let completed: int = if occupancy is Some && item { 1 } else { 0 };
            if occupancy == Some(true) {
                assert(notices[closed] is UsageUpdated);
            }
            if occupancy is Some && item {
                assert(notices[closed + usage] is CompactionCompleted);
            }
            assert(notices[closed + usage + completed] is TurnCompleted);
            assert(notices[closed + usage + completed + 1] is StatusIdle);
            assert(notices.len() == closed + usage + completed + 2);
        },
        _ => {
            assert(notices[closed] is CompactionFailed);
            assert(notices[closed + 1] is TurnCompleted);
            assert(notices[closed + 2] is TurnCompleted);
            assert(notices[closed + 3] is StatusIdle);
            assert(notices.len() == closed + 4);
        },
    }
}

/// A compaction that makes a summary replaces the history with it: it is shown,
/// the hook is run with the instructions, the summary is made by the model of
/// the session within the model's limit, recorded where the session is kept,
/// claimed, applied, counted unless the session is ephemeral, and announced.
pub proof fn law_summaries_replace_the_history(
    run: CompactionRun,
    facts: SummaryFacts,
    most: Option<u32>,
    summary: Option<String>,
    source: CompactionSource,
    applied: AppliedSummary,
    durable: bool,
    unwritten: Option<String>,
)
    ensures
        ({
            let a = run_step(run, RunPhase::Session, RunEvent::Found(true));
            let b = run_step(run, a.0, RunEvent::Done);
            let c = run_step(run, b.0, RunEvent::Done);
            let d = run_step(run, c.0, RunEvent::Done);
            let e = run_step(run, d.0, RunEvent::Snapshot(Some(facts)));
            let f = run_step(run, e.0, RunEvent::Provider(Some(most)));
            let g = run_step(run, f.0, RunEvent::Summarized(Summarized::Replaced(summary)));
            let h = run_step(run, g.0, RunEvent::Done);
            let i = run_step(run, h.0, RunEvent::Done);
            let j = run_step(run, i.0, RunEvent::Canceled(false));
            let k = run_step(run, j.0, RunEvent::Exported(Some(source)));
            let l = if source.durable {
                run_step(run, k.0, RunEvent::Written(None))
            } else {
                k
            };
            let m = run_step(run, l.0, RunEvent::Claimed(true));
            let n = run_step(run, m.0, RunEvent::Applied(applied));
            let o = if source.ephemeral {
                n
            } else {
                run_step(run, n.0, RunEvent::Done)
            };
            let p = run_step(run, o.0, RunEvent::Done);
            let q = run_step(run, p.0, RunEvent::Done);
            let r = run_step(run, q.0, RunEvent::Done);
            let s = run_step(run, r.0, RunEvent::Durable(durable));
            let t = if durable {
                run_step(run, s.0, RunEvent::Written(unwritten))
            } else {
                s
            };
            let u = run_step(run, t.0, RunEvent::Done);
            let v = run_step(run, u.0, RunEvent::Done);
            let w = run_step(run, v.0, RunEvent::Done);
            &&& a.1 == RunOrder::ShowStarted { turn: run.turn, trigger: run.options.trigger }
            &&& b.1 == RunOrder::ShowItemStarted(run.item)
            &&& c.1 matches RunAction::RunPreHook { trigger, instructions } && instructions
                == run.options.custom_instructions && trigger == hook_label(run.options.trigger)
            &&& d.1 is TakeSnapshot
            &&& e.1 matches RunAction::ResolveProvider(model) && {
                &&& facts.choice.binding is Some ==> Some(model) == facts.choice.binding
                &&& facts.choice.binding is None && facts.choice.model is Some ==> Some(model)
                    == facts.choice.model
                &&& facts.choice.binding is None && facts.choice.model is None ==> model
                    == facts.default_model
            }
            &&& f.1 matches RunAction::Summarize { limit } && (most is Some ==> limit == most->0)
                && (most is None ==> limit == 4096)
            &&& g.1 is DetachAbort
            &&& h.1 is LockState
            &&& i.1 is ReadCancellation
            &&& j.1 is ExportSession
            &&& source.durable ==> k.1 is AppendSummary
            &&& l.1 == RunOrder::Claim(run.turn)
            &&& m.1 is ApplyToExport
            &&& !source.ephemeral ==> n.1 is WriteStats
            &&& o.1 == RunOrder::ShowItemCompleted {
                turn: run.turn,
                item: run.item,
                seq: source.session.counters.next_item_seq,
            }
            &&& p.1 is ReplaceState
            &&& q.1 is ClearHandles
            &&& r.1 is ReadDurability
            &&& durable ==> s.1 == RunOrder::AppendTurnEnd(run.turn)
            &&& t.1 is RunPostHook
            &&& u.1 is ShowNotices
            &&& v.1 == RunOrder::RecordTerminal(run.turn)
            &&& w.1 is Stop
        }),
{
}

/// A run that makes no summary, or whose summary cannot be kept, ends as what
/// it is: canceled, skipped or failed, with the words of the failure.
pub proof fn law_runs_without_a_summary_end(
    run: CompactionRun,
    summary: Option<String>,
    source: CompactionSource,
    error: String,
)
    ensures
        run_step(run, RunPhase::Session, RunEvent::Found(false)).1 == (RunOrder::Finalize {
            end: RunEnd::Failed(CompactionFailure::SessionUnavailable),
            shown: false,
        }),
        run_step(run, RunPhase::Snapshot, RunEvent::Snapshot(None)).1 == (RunOrder::Finalize {
            end: RunEnd::Failed(CompactionFailure::SessionUnavailable),
            shown: true,
        }),
        run_step(run, RunPhase::Provider, RunEvent::Provider(None)).1 == (RunOrder::Finalize {
            end: RunEnd::Failed(CompactionFailure::SessionUnavailable),
            shown: true,
        }),
        run_step(run, RunPhase::Locked(Summarized::Canceled), RunEvent::Done).1
            == (RunOrder::Finalize { end: RunEnd::Canceled, shown: true }),
        run_step(run, RunPhase::Locked(Summarized::Skipped), RunEvent::Done).1
            == (RunOrder::Finalize { end: RunEnd::Skipped, shown: true }),
        run_step(run, RunPhase::Locked(Summarized::Failed(error)), RunEvent::Done).1
            == (RunOrder::Finalize {
            end: RunEnd::Failed(CompactionFailure::NotSummarized(error)),
            shown: true,
        }),
        run_step(run, RunPhase::Cancellation(summary), RunEvent::Canceled(true)).1
            == (RunOrder::Finalize { end: RunEnd::Canceled, shown: true }),
        run_step(run, RunPhase::Export(summary), RunEvent::Exported(None)).1
            == (RunOrder::Finalize {
            end: RunEnd::Failed(CompactionFailure::SessionUnavailable),
            shown: true,
        }),
        run_step(
            run,
            RunPhase::SummaryWritten(source, summary),
            RunEvent::Written(Some(error)),
        ).1 == (RunOrder::Finalize {
            end: RunEnd::Failed(CompactionFailure::NotPersisted(error)),
            shown: true,
        }),
        run_step(run, RunPhase::Claimed(source, summary), RunEvent::Claimed(false)).1 is Stop,
{
}

/// What is counted of a session after a compaction: its context is as large as
/// the summary made it, its totals stay, and it holds one item more.
pub proof fn law_compactions_count_the_new_context(
    before: SessionCounters,
    tokens: u64,
    occupancy: u64,
    after: SessionCounters,
)
    requires
        after == counters_after(before, tokens, occupancy),
        tokens <= usize::MAX,
        occupancy <= usize::MAX,
        before.loaded_item_count < u64::MAX,
        before.next_item_seq < u64::MAX,
    ensures
        after.totals == before.totals,
        after.prompt_token_estimate == tokens,
        after.last_input_tokens == tokens,
        after.last_turn_tokens == occupancy,
        after.last_query_total_tokens == occupancy,
        after.occupancy_total == Some(occupancy),
        after.loaded_item_count == before.loaded_item_count + 1,
        after.next_item_seq == before.next_item_seq + 1,
{
}

/// A compacted session is idle, its compaction turn is its latest and has
/// completed, and its context is as full as the summary made it. What is not
/// kept has no new snapshot and no new item.
pub proof fn law_compacted_sessions_rest(
    run: CompactionRun,
    source: CompactionSource,
    applied: AppliedSummary,
    after: SessionState,
)
    requires
        is_compacted_session(run, source, applied, after),
    ensures
        after.active is None,
        after.status is Idle,
        after.occupancy == Some(applied.occupancy),
        after.latest matches Some(latest) && latest.turn == run.turn && latest.status is Completed,
        !source.durable ==> after.items@ == source.session.items@ && after.compaction
            == source.session.compaction,
        source.durable ==> after.items@.len() == source.session.items@.len() + 1 && (
        after.compaction matches Some(snapshot) && snapshot.occupancy == Some(applied.occupancy)),
        after.turn_count == source.session.turn_count,
        after.counters.totals == source.session.counters.totals,
{
}

/// A run that was lost is ended as failed: unless its end turns out to be known,
/// the session is made idle, and the failure is announced and recorded.
pub proof fn law_lost_runs_are_ended(turn: TurnId)
    ensures
        ({
            let failed = EndedTurn { turn, status: TurnStatus::Failed };
            let a = recovery_step(turn, RecoveryPhase::Finalized, RecoveryEvent::Done);
            let b = recovery_step(turn, a.0, RecoveryEvent::EndKnown(false));
            let c = recovery_step(turn, b.0, RecoveryEvent::Done);
            let d = recovery_step(turn, c.0, RecoveryEvent::EndKnown(false));
            let e = recovery_step(turn, d.0, RecoveryEvent::Done);
            let f = recovery_step(turn, e.0, RecoveryEvent::Done);
            let g = recovery_step(turn, f.0, RecoveryEvent::Done);
            let h = recovery_step(turn, g.0, RecoveryEvent::Done);
            &&& a.1 == RecoveryOrder::ReadEnd(turn)
            &&& b.1 == RecoveryOrder::RecoverOrphan(turn)
            &&& c.1 == RecoveryOrder::ReadEnd(turn)
            &&& d.1 == RecoveryOrder::MakeIdle(failed)
            &&& e.1 is ClearHandles
            &&& f.1 is ShowNotices
            &&& g.1 == RecoveryOrder::RecordTerminal(failed)
            &&& h.1 is Stop
            &&& recovery_step(turn, a.0, RecoveryEvent::EndKnown(true)).1 is Stop
            &&& recovery_step(turn, c.0, RecoveryEvent::EndKnown(true)).1 is Stop
            &&& lost_notices().len() > 0 && lost_notices()[0] is CompactionFailed
            &&& lost_notices().last() is StatusIdle
        }),
{
}

/// The record of a summary holds the summary that was made, the items that stay
/// and the place of the summary in the history.
pub proof fn law_records_hold_the_summary(
    run: CompactionRun,
    source: CompactionSource,
    summary: Option<String>,
    record: SummaryRecord,
)
    requires
        is_summary_record(run, source, summary, record),
    ensures
        record.turn == run.turn,
        record.item == run.item,
        record.seq == source.session.counters.next_item_seq,
        record.summary == summary,
        record.preserved@ == source.preserved@,
        record.snapshot.turn == run.turn,
        record.snapshot.summary_item == run.item,
        record.snapshot.occupancy == source.session.occupancy,
        summary is Some ==> summary_text(summary) == summary->0@,
        summary is None ==> summary_text(summary).len() == 0,
{
}

/// The answer to a client that starts a compaction: the turn where it is the
/// active one, that the session is busy where no turn was started, and else what
/// the admission said.
pub proof fn law_compaction_requests_are_answered(registered: bool)
    ensures
        compact_answer(None, registered) is AsAdmitted,
        compact_answer(Some(false), registered) is Busy,
        compact_answer(Some(true), true) is Turn,
        compact_answer(Some(true), false) is AsAdmitted,
{
}

/// A compacted session is measured against its own window, else the model's.
pub proof fn law_windows_are_the_sessions_own(window: u64, model: Option<u64>)
    ensures
        window_measured(Some(window), model) == window,
        window_measured(None, Some(window)) == window,
        window_measured(None, None) == 0,
{
}

/// A run that replaced nothing is ended as what it was, under its turn, with its
/// item where that was shown; a failure is told in its own words.
pub proof fn law_runs_are_ended_as_what_they_were(
    run: CompactionRun,
    end: RunEnd,
    shown: bool,
    told: CompactionEnd,
    error: String,
)
    requires
        is_end_of(run, end, shown, told),
    ensures
        told.turn == run.turn,
        shown ==> told.item == Some(run.item),
        !shown ==> told.item is None,
        end is Skipped ==> told.outcome is Skipped,
        end is Canceled ==> told.outcome is Canceled,
        end is Failed ==> told.outcome is Failed,
        end == RunEnd::Failed(CompactionFailure::NotPersisted(error)) ==> told.outcome->Failed_0@
            == "compaction persistence failed: "@ + error@,
        end == RunEnd::Failed(CompactionFailure::NotSummarized(error)) ==> told.outcome->Failed_0@
            == "compaction failed: "@ + error@,
        end == RunEnd::Failed(CompactionFailure::SessionUnavailable) ==> told.outcome->Failed_0@
            == "compaction failed: session unavailable"@,
        end == RunEnd::Failed(CompactionFailure::Panicked) ==> told.outcome->Failed_0@
            == "compaction failed: panicked"@,
{
}

/// What is shown at the end of a run are the notices of its outcome, and at the
/// end of a lost one those of its failure.
pub proof fn law_notices_are_those_of_the_end(
    end: CompactionEnd,
    occupancy: Option<bool>,
    step: (FinalizePhase, FinalizeAction),
    failed: (FinalizePhase, FinalizeAction),
    turn: TurnId,
    lost: (RecoveryPhase, RecoveryAction),
)
    requires
        is_finalize_step(
            end,
            FinalizePhase::SummaryRead,
            FinalizeEvent::SummaryRead(occupancy),
            step,
        ),
        is_finalize_step(end, FinalizePhase::EndWritten, FinalizeEvent::Written(None), failed),
        is_recovery_step(turn, RecoveryPhase::HandlesCleared, RecoveryEvent::Done, lost),
    ensures
        step.1 matches FinalizeAction::ShowNotices(notices) && notices@ == end_notices(
            end.outcome,
            end.item is Some,
            occupancy,
        ),
        !(end.outcome is Skipped) ==> (failed.1 matches FinalizeAction::ShowNotices(notices)
            && notices@ == end_notices(end.outcome, end.item is Some, None)),
        lost.1 matches RecoveryAction::ShowNotices(notices) && notices@.len() > 0 && notices@[0]
            is CompactionFailed && notices@.last() is StatusIdle,
        replaced_notices().contains(EndNotice::UsageUpdated),
        replaced_notices().contains(EndNotice::CompactionCompleted),
        replaced_notices().contains(EndNotice::TurnCompleted),
        replaced_notices().last() is StatusIdle,
        !replaced_notices().contains(EndNotice::CompactionFailed),
{
    assert(replaced_notices()[0] is UsageUpdated);
    assert(replaced_notices()[1] is CompactionCompleted);
    assert(replaced_notices()[2] is TurnCompleted);
}

/// A run that was lost is ended as a failure of its turn.
pub proof fn law_lost_runs_have_failed(turn: TurnId, end: CompactionEnd)
    requires
        is_lost_end(turn, end),
    ensures
        end.turn == turn,
        end.item is None,
        end.outcome is Failed,
        end.ended_turn().turn == turn && end.ended_turn().status is Failed,
{
}

} // verus!
