//! Answering requests about the queue of a session, step by step.

use crate::inputs::{same_resolution, PartRefusal, ResolvedInput, UserInput};
use crate::message_edit::InputResolution;
use crate::protocol::{
    reject, reject_session_missing, rejection, session_missing, ErrorCode, ItemId, Rejection,
    TurnId,
};
use crate::queue::{
    check_queue_input, check_resolution, copy_inputs, decide_steer, degraded_entry, display_of,
    input_of, input_refusal, not_queued, place_pushed, pushed_position, pushed_preview,
    resolution_of, resolved_of, shows_degraded, shows_pushed, steer_decision, PendingItem, PendingKind,
    PushOutcome, QueueEntry, QueueRequest, SteerDecision, SteeredTurn,
};
use crate::session_metadata::CollaborationMode;
use crate::turn_start::{ask_for_turn, turn_asked, QueuePolicy, TurnAsked, TurnInput};
use vstd::prelude::*;

verus! {

/// What is known of the session that a steer is for.
#[derive(Clone, Copy, Debug)]
pub struct SteerFacts {
    pub active: Option<SteeredTurn>,
    pub ephemeral: bool,
}

/// A steer: the turn that the client means, and what the message is to be
/// known by.
#[derive(Clone, Copy, Debug)]
pub struct SteerRequest {
    pub expected: TurnId,
    pub entry: u128,
    pub now: i64,
}

/// What a steer waits for.
#[derive(Debug)]
pub enum SteerPhase {
    Input,
    Rendered(Vec<UserInput>),
    Session(TurnInput),
    Resolved(SteerFacts, TurnInput),
    SteerQueued { turn: TurnId, ephemeral: bool, display: String },
    SteerPersisted { turn: TurnId, display: String },
    ItemRecorded { turn: TurnId },
    Notified(ItemId),
    TurnQueued { ephemeral: bool, item: PendingItem },
    TurnPersisted { item: PendingItem },
    Listed { item: PendingItem },
    Announced { item: PendingItem, queue: Vec<PendingItem> },
    Finished,
}

/// What the host observed during a steer.
#[derive(Debug)]
pub enum SteerEvent {
    /// The input with its images stored, or the part that refuses it.
    Input(Result<Vec<UserInput>, PartRefusal>),
    /// The input as it is shown, if there is anything to show.
    Rendered(Option<String>),
    Session(Option<SteerFacts>),
    Resolved(InputResolution),
    Written(Option<String>),
    Item(ItemId),
    /// The queue after the message was appended.
    Queue(Vec<PendingItem>),
    Done,
}

/// What the host has to do for a steer. `Q` is the message and `E` what a
/// client sees of it; both are `()` where only the order of the steps matters.
#[derive(Debug)]
pub enum SteerAction<Q = PendingItem, E = QueueEntry> {
    /// Store the images of the message.
    CheckInput,
    /// Render the message as it is shown.
    Render,
    /// Find the session and its running turn.
    FindSession,
    /// Resolve the message in the directory of the session.
    Resolve,
    /// Hand the message to the running turn.
    PushSteer(Q),
    /// Store what was handed over. That this fails makes no difference.
    PersistSteer(u128),
    /// Record the message, as it is shown, in the running turn.
    RecordItem(TurnId, String),
    /// Tell the client that its message was taken.
    Notify(TurnId),
    /// Answer with the item that the message has become.
    AnswerInjected(ItemId),
    /// Append the message to the queue.
    PushTurn(Q),
    /// Store the queue entry. That this fails makes no difference.
    PersistTurn(u128),
    /// Read the queue of the session.
    ReadQueue,
    /// Tell everybody of the new entry.
    Announce(u128),
    /// Answer with the queue entry that the message has become.
    AnswerDegraded(E),
    /// Refuse the message.
    Reject(Rejection),
    /// Nothing: the event does not belong to the phase.
    Ignore,
}

/// What the host has to do for a steer, without what it does it with.
pub type SteerOrder = SteerAction<(), ()>;

impl SteerAction {
    /// What is to be done, without what it is done with.
    pub open spec fn order(self) -> SteerOrder {
        match self {
            SteerAction::CheckInput => SteerAction::CheckInput,
            SteerAction::Render => SteerAction::Render,
            SteerAction::FindSession => SteerAction::FindSession,
            SteerAction::Resolve => SteerAction::Resolve,
            SteerAction::PushSteer(_) => SteerAction::PushSteer(()),
            SteerAction::PersistSteer(entry) => SteerAction::PersistSteer(entry),
            SteerAction::RecordItem(turn, display) => SteerAction::RecordItem(turn, display),
            SteerAction::Notify(turn) => SteerAction::Notify(turn),
            SteerAction::AnswerInjected(item) => SteerAction::AnswerInjected(item),
            SteerAction::PushTurn(_) => SteerAction::PushTurn(()),
            SteerAction::PersistTurn(entry) => SteerAction::PersistTurn(entry),
            SteerAction::ReadQueue => SteerAction::ReadQueue,
            SteerAction::Announce(entry) => SteerAction::Announce(entry),
            SteerAction::AnswerDegraded(_) => SteerAction::AnswerDegraded(()),
            SteerAction::Reject(why) => SteerAction::Reject(why),
            SteerAction::Ignore => SteerAction::Ignore,
        }
    }
}

/// The message of a steer as it is handed on.
pub open spec fn steer_item(
    request: SteerRequest,
    input: TurnInput,
    resolved: ResolvedInput,
) -> PendingItem {
    PendingItem {
        id: request.entry,
        kind: PendingKind::UserInput {
            input: input.input,
            display: input.display,
            resolved,
        },
        metadata: None,
        created_at: request.now,
    }
}

/// Whether one message is a copy of another.
pub open spec fn is_copy_of(copy: PendingItem, item: PendingItem) -> bool {
    &&& copy.id == item.id
    &&& copy.kind is UserInput
    &&& input_of(copy.kind) == input_of(item.kind)
    &&& display_of(copy.kind) == display_of(item.kind)
    &&& resolved_of(item.kind) matches Some(resolved) && same_resolution(
        resolved_of(copy.kind)->0,
        resolved,
    )
    &&& copy.metadata == item.metadata
    &&& copy.created_at == item.created_at
}

/// Whether an action is done with the message of the steer.
pub open spec fn steers_with(
    request: SteerRequest,
    phase: SteerPhase,
    event: SteerEvent,
    action: SteerAction,
) -> bool {
    match action {
        SteerAction::PushSteer(item) | SteerAction::PushTurn(item) => match (phase, event) {
            (
                SteerPhase::Resolved(_, input),
                SteerEvent::Resolved(InputResolution::Ready(resolved)),
            ) => is_copy_of(item, steer_item(request, input, resolved)),
            _ => false,
        },
        SteerAction::AnswerDegraded(entry) => phase matches SteerPhase::Announced { item, queue }
            && shows_degraded(queue@, item, entry),
        _ => true,
    }
}

/// The step that refuses a steer.
pub open spec fn steer_refused(why: Rejection) -> (SteerPhase, SteerOrder) {
    (SteerPhase::Finished, SteerAction::Reject(why))
}

/// The step once the input is resolved.
pub open spec fn steer_placed(
    request: SteerRequest,
    facts: SteerFacts,
    input: TurnInput,
    resolved: ResolvedInput,
) -> (SteerPhase, SteerOrder) {
    match steer_decision(facts.active, request.expected) {
        SteerDecision::Reject(why) => steer_refused(why),
        SteerDecision::Inject(turn) => (
            SteerPhase::SteerQueued { turn, ephemeral: facts.ephemeral, display: input.display },
            SteerAction::PushSteer(()),
        ),
        SteerDecision::Degrade => (
            SteerPhase::TurnQueued {
                ephemeral: facts.ephemeral,
                item: steer_item(request, input, resolved),
            },
            SteerAction::PushTurn(()),
        ),
    }
}

/// The order of the next step of a steer.
pub open spec fn steer_step(request: SteerRequest, phase: SteerPhase, event: SteerEvent) -> (
    SteerPhase,
    SteerOrder,
) {
    match (phase, event) {
        (SteerPhase::Input, SteerEvent::Input(normalized)) => match input_refusal(
            QueueRequest::Steer,
            normalized,
        ) {
            Some(why) => steer_refused(why),
            None => (SteerPhase::Rendered(normalized->Ok_0), SteerAction::Render),
        },
        (SteerPhase::Rendered(input), SteerEvent::Rendered(shown)) => match shown {
            Some(display) => (
                SteerPhase::Session(TurnInput { input, display }),
                SteerAction::FindSession,
            ),
            None => steer_refused(rejection(ErrorCode::EmptyInput, "turn/steer input is empty")),
        },
        (SteerPhase::Session(input), SteerEvent::Session(found)) => match found {
            Some(facts) => (SteerPhase::Resolved(facts, input), SteerAction::Resolve),
            None => steer_refused(session_missing()),
        },
        (SteerPhase::Resolved(facts, input), SteerEvent::Resolved(resolution)) => match resolution_of(
            QueueRequest::Steer,
            resolution,
        ) {
            Err(why) => steer_refused(why),
            Ok(resolved) => steer_placed(request, facts, input, resolved),
        },
        (SteerPhase::SteerQueued { turn, ephemeral, display }, SteerEvent::Done) => if ephemeral {
            (SteerPhase::ItemRecorded { turn }, SteerAction::RecordItem(turn, display))
        } else {
            (
                SteerPhase::SteerPersisted { turn, display },
                SteerAction::PersistSteer(request.entry),
            )
        },
        (SteerPhase::SteerPersisted { turn, display }, SteerEvent::Written(_)) => (
            SteerPhase::ItemRecorded { turn },
            SteerAction::RecordItem(turn, display),
        ),
        (SteerPhase::ItemRecorded { turn }, SteerEvent::Item(item)) => (
            SteerPhase::Notified(item),
            SteerAction::Notify(turn),
        ),
        (SteerPhase::Notified(item), SteerEvent::Done) => (
            SteerPhase::Finished,
            SteerAction::AnswerInjected(item),
        ),
        (SteerPhase::TurnQueued { ephemeral, item }, SteerEvent::Done) => if ephemeral {
            (SteerPhase::Listed { item }, SteerAction::ReadQueue)
        } else {
            (SteerPhase::TurnPersisted { item }, SteerAction::PersistTurn(request.entry))
        },
        (SteerPhase::TurnPersisted { item }, SteerEvent::Written(_)) => (
            SteerPhase::Listed { item },
            SteerAction::ReadQueue,
        ),
        (SteerPhase::Listed { item }, SteerEvent::Queue(queue)) => (
            SteerPhase::Announced { item, queue },
            SteerAction::Announce(request.entry),
        ),
        (SteerPhase::Announced { .. }, SteerEvent::Done) => (
            SteerPhase::Finished,
            SteerAction::AnswerDegraded(()),
        ),
        _ => (phase, SteerAction::Ignore),
    }
}

/// A step of a steer without what it is done with.
pub open spec fn steer_order(step: (SteerPhase, SteerAction)) -> (SteerPhase, SteerOrder) {
    (step.0, step.1.order())
}

/// Whether `step` is the next one of a steer.
pub open spec fn is_steer_step(
    request: SteerRequest,
    phase: SteerPhase,
    event: SteerEvent,
    step: (SteerPhase, SteerAction),
) -> bool {
    &&& steer_order(step) == steer_step(request, phase, event)
    &&& steers_with(request, phase, event, step.1)
}

fn refuse_steer(why: Rejection) -> (r: (SteerPhase, SteerAction))
    ensures
        steer_order(r) == steer_refused(why),
        r.1 is Reject,
{
    (SteerPhase::Finished, SteerAction::Reject(why))
}

fn place_steer(
    request: &SteerRequest,
    facts: SteerFacts,
    input: TurnInput,
    resolved: ResolvedInput,
) -> (r: (SteerPhase, SteerAction))
    ensures
        steer_order(r) == steer_placed(*request, facts, input, resolved),
        steers_with(
            *request,
            SteerPhase::Resolved(facts, input),
            SteerEvent::Resolved(InputResolution::Ready(resolved)),
            r.1,
        ),
{
    match decide_steer(facts.active, request.expected) {
        SteerDecision::Reject(why) => refuse_steer(why),
        SteerDecision::Inject(turn) => {
            let display = input.display.clone();
            (
                SteerPhase::SteerQueued { turn, ephemeral: facts.ephemeral, display },
                SteerAction::PushSteer(
                    PendingItem {
                        id: request.entry,
                        kind: PendingKind::UserInput {
            input: input.input,
            display: input.display,
            resolved,
        },
                        metadata: None,
                        created_at: request.now,
                    },
                ),
            )
        },
        SteerDecision::Degrade => {
            let copy = PendingItem {
                id: request.entry,
                kind: PendingKind::UserInput {
                    input: copy_inputs(&input.input),
                    display: input.display.clone(),
                    resolved: resolved.copy(),
                },
                metadata: None,
                created_at: request.now,
            };
            let item = PendingItem {
                id: request.entry,
                kind: PendingKind::UserInput {
            input: input.input,
            display: input.display,
            resolved,
        },
                metadata: None,
                created_at: request.now,
            };
            (
                SteerPhase::TurnQueued { ephemeral: facts.ephemeral, item },
                SteerAction::PushTurn(copy),
            )
        },
    }
}

fn after_input(normalized: Result<Vec<UserInput>, PartRefusal>) -> (r: (SteerPhase, SteerAction))
    ensures
        forall|request: SteerRequest|
            is_steer_step(request, SteerPhase::Input, SteerEvent::Input(normalized), r),
{
    let refusal = check_queue_input(QueueRequest::Steer, &normalized);
    match (refusal, normalized) {
        (Some(why), _) => refuse_steer(why),
        (None, Ok(input)) => (SteerPhase::Rendered(input), SteerAction::Render),
        (None, Err(_)) => (SteerPhase::Finished, SteerAction::Ignore),
    }
}

/// Takes a steer one step further. It begins with the check of its input.
pub fn advance_steer(request: &SteerRequest, phase: SteerPhase, event: SteerEvent) -> (r: (
    SteerPhase,
    SteerAction,
))
    ensures
        is_steer_step(*request, phase, event, r),
{
    match (phase, event) {
        (SteerPhase::Input, SteerEvent::Input(normalized)) => after_input(normalized),
        (SteerPhase::Rendered(input), SteerEvent::Rendered(shown)) => match shown {
            Some(display) => (
                SteerPhase::Session(TurnInput { input, display }),
                SteerAction::FindSession,
            ),
            None => refuse_steer(reject(ErrorCode::EmptyInput, "turn/steer input is empty")),
        },
        (SteerPhase::Session(input), SteerEvent::Session(found)) => match found {
            Some(facts) => (SteerPhase::Resolved(facts, input), SteerAction::Resolve),
            None => refuse_steer(reject_session_missing()),
        },
        (SteerPhase::Resolved(facts, input), SteerEvent::Resolved(resolution)) => match check_resolution(
            QueueRequest::Steer,
            resolution,
        ) {
            Err(why) => refuse_steer(why),
            Ok(resolved) => place_steer(request, facts, input, resolved),
        },
        (SteerPhase::SteerQueued { turn, ephemeral, display }, SteerEvent::Done) => {
            if ephemeral {
                (SteerPhase::ItemRecorded { turn }, SteerAction::RecordItem(turn, display))
            } else {
                (
                    SteerPhase::SteerPersisted { turn, display },
                    SteerAction::PersistSteer(request.entry),
                )
            }
        },
        (SteerPhase::SteerPersisted { turn, display }, SteerEvent::Written(_)) => (
            SteerPhase::ItemRecorded { turn },
            SteerAction::RecordItem(turn, display),
        ),
        (SteerPhase::ItemRecorded { turn }, SteerEvent::Item(item)) => (
            SteerPhase::Notified(item),
            SteerAction::Notify(turn),
        ),
        (SteerPhase::Notified(item), SteerEvent::Done) => (
            SteerPhase::Finished,
            SteerAction::AnswerInjected(item),
        ),
        (SteerPhase::TurnQueued { ephemeral, item }, SteerEvent::Done) => {
            if ephemeral {
                (SteerPhase::Listed { item }, SteerAction::ReadQueue)
            } else {
                (SteerPhase::TurnPersisted { item }, SteerAction::PersistTurn(request.entry))
            }
        },
        (SteerPhase::TurnPersisted { item }, SteerEvent::Written(_)) => (
            SteerPhase::Listed { item },
            SteerAction::ReadQueue,
        ),
        (SteerPhase::Listed { item }, SteerEvent::Queue(queue)) => (
            SteerPhase::Announced { item, queue },
            SteerAction::Announce(request.entry),
        ),
        (SteerPhase::Announced { item, queue }, SteerEvent::Done) => (
            SteerPhase::Finished,
            SteerAction::AnswerDegraded(degraded_entry(&queue, &item)),
        ),
        (phase, _) => (phase, SteerAction::Ignore),
    }
}

/// Whether the message of a steer has been handed to a turn or to the queue.
pub open spec fn is_taken(phase: SteerPhase) -> bool {
    match phase {
        SteerPhase::SteerQueued { .. }
        | SteerPhase::SteerPersisted { .. }
        | SteerPhase::ItemRecorded { .. }
        | SteerPhase::Notified(_)
        | SteerPhase::TurnQueued { .. }
        | SteerPhase::TurnPersisted { .. }
        | SteerPhase::Listed { .. }
        | SteerPhase::Announced { .. } => true,
        _ => false,
    }
}

/// A message that was taken is never refused afterwards, and a steer succeeds
/// only with a message that was taken.
pub proof fn law_taken_messages_are_kept(
    request: SteerRequest,
    phase: SteerPhase,
    event: SteerEvent,
)
    ensures
        ({
            let (after, action) = steer_step(request, phase, event);
            &&& is_taken(phase) ==> !(action is Reject) && (is_taken(after) || action
                is AnswerInjected || action is AnswerDegraded)
            &&& action is AnswerInjected || action is AnswerDegraded ==> is_taken(phase)
            &&& is_taken(after) && !is_taken(phase) ==> action is PushSteer || action is PushTurn
        }),
{
}

/// The phase that a steer is in after `events`.
pub open spec fn steer_after(request: SteerRequest, events: Seq<SteerEvent>) -> SteerPhase
    decreases events.len(),
{
    if events.len() == 0 {
        SteerPhase::Input
    } else {
        steer_step(request, steer_after(request, events.drop_last()), events.last()).0
    }
}

/// Whether the events brought the input and the text that it is shown as.
pub open spec fn brought(events: Seq<SteerEvent>, input: TurnInput) -> bool {
    &&& events.contains(SteerEvent::Input(Ok(input.input)))
    &&& events.contains(SteerEvent::Rendered(Some(input.display)))
}

proof fn lemma_steer_brings(request: SteerRequest, events: Seq<SteerEvent>)
    ensures
        match steer_after(request, events) {
            SteerPhase::Rendered(input) => events.contains(SteerEvent::Input(Ok(input))),
            SteerPhase::Session(input) | SteerPhase::Resolved(_, input) => brought(events, input),
            _ => true,
        },
    decreases events.len(),
{
    if events.len() > 0 {
        let before = events.drop_last();
        lemma_steer_brings(request, before);
        assert(events[events.len() - 1] == events.last());
        assert forall|event: SteerEvent| before.contains(event) implies events.contains(event) by {
            let i = choose|i: int| 0 <= i < before.len() && before[i] == event;
            assert(events[i] == event);
        }
        match (steer_after(request, before), events.last()) {
            (SteerPhase::Input, SteerEvent::Input(Ok(input))) => {},
            _ => {},
        }
    }
}

/// Whether the event says what the input comes to.
pub open spec fn resolves_to(event: SteerEvent, resolved: ResolvedInput) -> bool {
    event == SteerEvent::Resolved(InputResolution::Ready(resolved))
}

/// The message that a steer hands to the turn or to the queue is the one that
/// the client sent, with what it comes to.
pub proof fn law_steered_messages_are_the_ones_sent(
    request: SteerRequest,
    events: Seq<SteerEvent>,
    event: SteerEvent,
    step: (SteerPhase, SteerAction),
)
    requires
        is_steer_step(request, steer_after(request, events), event, step),
    ensures
        step.1 matches SteerAction::PushSteer(item) ==> exists|
            input: TurnInput,
            resolved: ResolvedInput,
        | #[trigger]
            resolves_to(event, resolved) && #[trigger] brought(events, input) && is_copy_of(
                item,
                steer_item(request, input, resolved),
            ),
        step.1 matches SteerAction::PushTurn(item) ==> exists|
            input: TurnInput,
            resolved: ResolvedInput,
        | #[trigger]
            resolves_to(event, resolved) && #[trigger] brought(events, input) && is_copy_of(
                item,
                steer_item(request, input, resolved),
            ),
{
    lemma_steer_brings(request, events);
    match steer_after(request, events) {
        SteerPhase::Resolved(_, input) => {
            assert(brought(events, input));
            match event {
                SteerEvent::Resolved(InputResolution::Ready(resolved)) => {
                    assert(resolves_to(event, resolved));
                },
                _ => {},
            }
        },
        _ => {},
    }
}

/// What a client asks of a queue entry.
#[derive(Clone, Copy, Debug, PartialEq, Eq, Structural)]
pub enum QueueEdit {
    /// Give the entry new input, where there is one, and a new place, where one
    /// is named.
    Update { has_input: bool, position: Option<u32> },
    /// Take the entry out.
    Remove,
}

impl QueueEdit {
    /// The place that the entry is to have.
    pub open spec fn place_wanted(self) -> Option<u32> {
        match self {
            QueueEdit::Update { position, .. } => position,
            QueueEdit::Remove => None,
        }
    }

    /// Whether the entry gets another place.
    pub open spec fn moves_entry(self) -> bool {
        self.place_wanted() is Some
    }

    fn place(self) -> (r: Option<u32>)
        ensures
            r == self.place_wanted(),
    {
        match self {
            QueueEdit::Update { position, .. } => position,
            QueueEdit::Remove => None,
        }
    }

    fn moves(self) -> (r: bool)
        ensures
            r == self.moves_entry(),
    {
        self.place().is_some()
    }
}

/// A change of one queue entry.
#[derive(Clone, Copy, Debug, PartialEq, Eq, Structural)]
pub struct QueueChangeRequest {
    pub entry: u128,
    pub edit: QueueEdit,
}

/// What a change of a queue entry waits for. An entry that was updated is kept
/// as the clients see it.
#[derive(Debug)]
pub enum QueueChangePhase {
    Session,
    Input { ephemeral: bool },
    Resolved { ephemeral: bool, input: Vec<UserInput> },
    Updated { ephemeral: bool },
    ContentPersisted(QueueEntry),
    OrderPersisted(QueueEntry),
    Removed { ephemeral: bool },
    RemovalPersisted,
    Announced(Option<QueueEntry>),
    Finished,
}

/// What the host observed during a change of a queue entry.
#[derive(Debug)]
pub enum QueueChangeEvent {
    /// Whether the session keeps nothing, unless it is not there.
    Session(Option<bool>),
    /// The new input with its images stored, or the part that refuses it.
    Input(Result<Vec<UserInput>, PartRefusal>),
    /// What became of the new input, and how it is shown.
    Resolved(InputResolution, String),
    /// The entry after the update, unless it is no longer queued.
    Updated(Option<QueueEntry>),
    /// Whether the entry was still queued.
    Removed(bool),
    Written(Option<String>),
    Done,
}

/// How a queue has changed.
#[derive(Clone, Copy, Debug, PartialEq, Eq, Structural)]
pub enum QueueNotice {
    Updated,
    Removed,
}

/// What the host has to do for a change of a queue entry.
#[derive(Debug)]
pub enum QueueChangeAction {
    /// Find the session.
    FindSession,
    /// Store the images of the new input.
    CheckInput,
    /// Resolve the new input in the directory of the session, and render it.
    Resolve,
    /// Update the entry in the queue of the session.
    Update { entry: u128, kind: Option<PendingKind>, position: Option<u32> },
    /// Store the entry. That this fails makes no difference.
    PersistContent(u128),
    /// Store the order of the queue. That this fails makes no difference.
    PersistOrder,
    /// Take the entry out of the queue of the session.
    Remove(u128),
    /// Store that the entry is gone. That this fails makes no difference.
    PersistRemoval(u128),
    /// Tell the clients of the session how its queue has changed.
    Announce(QueueNotice, u128),
    /// Answer with the entry.
    AnswerUpdated(QueueEntry),
    /// Answer that the entry is gone.
    AnswerRemoved,
    /// Refuse the change.
    Reject(Rejection),
    /// Nothing: the event does not belong to the phase.
    Ignore,
}

/// The step that refuses a change.
pub open spec fn queue_change_refused(why: Rejection) -> (QueueChangePhase, QueueChangeAction) {
    (QueueChangePhase::Finished, QueueChangeAction::Reject(why))
}

/// The step that updates the entry.
pub open spec fn update_asked(
    request: QueueChangeRequest,
    ephemeral: bool,
    kind: Option<PendingKind>,
    position: Option<u32>,
) -> (QueueChangePhase, QueueChangeAction) {
    (
        QueueChangePhase::Updated { ephemeral },
        QueueChangeAction::Update { entry: request.entry, kind, position },
    )
}

/// The step that tells of an updated entry.
pub open spec fn update_told(request: QueueChangeRequest, entry: QueueEntry) -> (
    QueueChangePhase,
    QueueChangeAction,
) {
    (
        QueueChangePhase::Announced(Some(entry)),
        QueueChangeAction::Announce(QueueNotice::Updated, request.entry),
    )
}

/// The step that tells that an entry is gone.
pub open spec fn removal_told(request: QueueChangeRequest) -> (
    QueueChangePhase,
    QueueChangeAction,
) {
    (
        QueueChangePhase::Announced(None),
        QueueChangeAction::Announce(QueueNotice::Removed, request.entry),
    )
}

/// The next step of a change of a queue entry.
pub open spec fn queue_change_step(
    request: QueueChangeRequest,
    phase: QueueChangePhase,
    event: QueueChangeEvent,
) -> (QueueChangePhase, QueueChangeAction) {
    match (phase, event) {
        (QueueChangePhase::Session, QueueChangeEvent::Session(found)) => match found {
            None => queue_change_refused(session_missing()),
            Some(ephemeral) => match request.edit {
                QueueEdit::Update { has_input, position } => if has_input {
                    (QueueChangePhase::Input { ephemeral }, QueueChangeAction::CheckInput)
                } else {
                    update_asked(request, ephemeral, None, position)
                },
                QueueEdit::Remove => (
                    QueueChangePhase::Removed { ephemeral },
                    QueueChangeAction::Remove(request.entry),
                ),
            },
        },
        (QueueChangePhase::Input { ephemeral }, QueueChangeEvent::Input(normalized)) => match input_refusal(
            QueueRequest::Update,
            normalized,
        ) {
            Some(why) => queue_change_refused(why),
            None => (
                QueueChangePhase::Resolved { ephemeral, input: normalized->Ok_0 },
                QueueChangeAction::Resolve,
            ),
        },
        (
            QueueChangePhase::Resolved { ephemeral, input },
            QueueChangeEvent::Resolved(resolution, display),
        ) => match resolution_of(QueueRequest::Update, resolution) {
            Err(why) => queue_change_refused(why),
            Ok(resolved) => update_asked(
                request,
                ephemeral,
                Some(PendingKind::UserInput { input, display, resolved }),
                request.edit.place_wanted(),
            ),
        },
        (QueueChangePhase::Updated { ephemeral }, QueueChangeEvent::Updated(updated)) => match updated {
            None => queue_change_refused(not_queued()),
            Some(entry) => if ephemeral {
                update_told(request, entry)
            } else {
                (
                    QueueChangePhase::ContentPersisted(entry),
                    QueueChangeAction::PersistContent(request.entry),
                )
            },
        },
        (QueueChangePhase::ContentPersisted(entry), QueueChangeEvent::Written(_)) => if request.edit.moves_entry() {
            (QueueChangePhase::OrderPersisted(entry), QueueChangeAction::PersistOrder)
        } else {
            update_told(request, entry)
        },
        (QueueChangePhase::OrderPersisted(entry), QueueChangeEvent::Written(_)) => update_told(
            request,
            entry,
        ),
        (QueueChangePhase::Removed { ephemeral }, QueueChangeEvent::Removed(found)) => if !found {
            queue_change_refused(not_queued())
        } else if ephemeral {
            removal_told(request)
        } else {
            (
                QueueChangePhase::RemovalPersisted,
                QueueChangeAction::PersistRemoval(request.entry),
            )
        },
        (QueueChangePhase::RemovalPersisted, QueueChangeEvent::Written(_)) => removal_told(
            request,
        ),
        (QueueChangePhase::Announced(entry), QueueChangeEvent::Done) => (
            QueueChangePhase::Finished,
            match entry {
                Some(entry) => QueueChangeAction::AnswerUpdated(entry),
                None => QueueChangeAction::AnswerRemoved,
            },
        ),
        _ => (phase, QueueChangeAction::Ignore),
    }
}

fn refuse_queue_change(why: Rejection) -> (r: (QueueChangePhase, QueueChangeAction))
    ensures
        r == queue_change_refused(why),
{
    (QueueChangePhase::Finished, QueueChangeAction::Reject(why))
}

fn reject_not_queued() -> (r: Rejection)
    ensures
        r == not_queued(),
{
    reject(ErrorCode::QueueItemNotFound, "queue item is no longer queued")
}

fn ask_update(
    request: QueueChangeRequest,
    ephemeral: bool,
    kind: Option<PendingKind>,
    position: Option<u32>,
) -> (r: (QueueChangePhase, QueueChangeAction))
    ensures
        r == update_asked(request, ephemeral, kind, position),
{
    (
        QueueChangePhase::Updated { ephemeral },
        QueueChangeAction::Update { entry: request.entry, kind, position },
    )
}

fn tell_update(request: QueueChangeRequest, entry: QueueEntry) -> (r: (
    QueueChangePhase,
    QueueChangeAction,
))
    ensures
        r == update_told(request, entry),
{
    (
        QueueChangePhase::Announced(Some(entry)),
        QueueChangeAction::Announce(QueueNotice::Updated, request.entry),
    )
}

fn tell_removal(request: QueueChangeRequest) -> (r: (QueueChangePhase, QueueChangeAction))
    ensures
        r == removal_told(request),
{
    (
        QueueChangePhase::Announced(None),
        QueueChangeAction::Announce(QueueNotice::Removed, request.entry),
    )
}

/// Takes a change of a queue entry one step further.
pub fn advance_queue_change(
    request: QueueChangeRequest,
    phase: QueueChangePhase,
    event: QueueChangeEvent,
) -> (r: (QueueChangePhase, QueueChangeAction))
    ensures
        r == queue_change_step(request, phase, event),
{
    match (phase, event) {
        (QueueChangePhase::Session, QueueChangeEvent::Session(found)) => match found {
            None => refuse_queue_change(reject_session_missing()),
            Some(ephemeral) => match request.edit {
                QueueEdit::Update { has_input, position } => if has_input {
                    (QueueChangePhase::Input { ephemeral }, QueueChangeAction::CheckInput)
                } else {
                    ask_update(request, ephemeral, None, position)
                },
                QueueEdit::Remove => (
                    QueueChangePhase::Removed { ephemeral },
                    QueueChangeAction::Remove(request.entry),
                ),
            },
        },
        (QueueChangePhase::Input { ephemeral }, QueueChangeEvent::Input(normalized)) => match check_queue_input(
            QueueRequest::Update,
            &normalized,
        ) {
            Some(why) => refuse_queue_change(why),
            None => match normalized {
                Ok(input) => (
                    QueueChangePhase::Resolved { ephemeral, input },
                    QueueChangeAction::Resolve,
                ),
                Err(_) => (
                    QueueChangePhase::Input { ephemeral },
                    QueueChangeAction::Ignore,
                ),
            },
        },
        (
            QueueChangePhase::Resolved { ephemeral, input },
            QueueChangeEvent::Resolved(resolution, display),
        ) => match check_resolution(QueueRequest::Update, resolution) {
            Err(why) => refuse_queue_change(why),
            Ok(resolved) => ask_update(
                request,
                ephemeral,
                Some(PendingKind::UserInput { input, display, resolved }),
                request.edit.place(),
            ),
        },
        (QueueChangePhase::Updated { ephemeral }, QueueChangeEvent::Updated(updated)) => match updated {
            None => refuse_queue_change(reject_not_queued()),
            Some(entry) => if ephemeral {
                tell_update(request, entry)
            } else {
                (
                    QueueChangePhase::ContentPersisted(entry),
                    QueueChangeAction::PersistContent(request.entry),
                )
            },
        },
        (QueueChangePhase::ContentPersisted(entry), QueueChangeEvent::Written(_)) => if request.edit.moves() {
            (QueueChangePhase::OrderPersisted(entry), QueueChangeAction::PersistOrder)
        } else {
            tell_update(request, entry)
        },
        (QueueChangePhase::OrderPersisted(entry), QueueChangeEvent::Written(_)) => tell_update(
            request,
            entry,
        ),
        (QueueChangePhase::Removed { ephemeral }, QueueChangeEvent::Removed(found)) => if !found {
            refuse_queue_change(reject_not_queued())
        } else if ephemeral {
            tell_removal(request)
        } else {
            (
                QueueChangePhase::RemovalPersisted,
                QueueChangeAction::PersistRemoval(request.entry),
            )
        },
        (QueueChangePhase::RemovalPersisted, QueueChangeEvent::Written(_)) => tell_removal(
            request,
        ),
        (QueueChangePhase::Announced(entry), QueueChangeEvent::Done) => (
            QueueChangePhase::Finished,
            match entry {
                Some(entry) => QueueChangeAction::AnswerUpdated(entry),
                None => QueueChangeAction::AnswerRemoved,
            },
        ),
        (phase, _) => (phase, QueueChangeAction::Ignore),
    }
}

/// A change is refused only before the queue was changed.
pub proof fn law_queue_changes_are_refused_in_time(
    request: QueueChangeRequest,
    phase: QueueChangePhase,
    event: QueueChangeEvent,
)
    ensures
        queue_change_step(request, phase, event).1 is Reject ==> {
            ||| phase is Session || phase is Input || phase is Resolved
            ||| (phase is Updated && event == QueueChangeEvent::Updated(None))
            ||| (phase is Removed && event == QueueChangeEvent::Removed(false))
        },
{
}

/// An entry is updated with the input that was sent, as it is shown, and is
/// answered as it then stands in the queue.
pub proof fn law_queue_updates_take_what_was_sent(
    request: QueueChangeRequest,
    ephemeral: bool,
    input: Vec<UserInput>,
    display: String,
    resolved: ResolvedInput,
    entry: QueueEntry,
)
    requires
        request.edit is Update,
    ensures
        queue_change_step(
            request,
            QueueChangePhase::Resolved { ephemeral, input },
            QueueChangeEvent::Resolved(InputResolution::Ready(resolved), display),
        ).1 == (QueueChangeAction::Update {
            entry: request.entry,
            kind: Some(PendingKind::UserInput { input, display, resolved }),
            position: request.edit->position,
        }),
        queue_change_step(
            request,
            QueueChangePhase::Announced(Some(entry)),
            QueueChangeEvent::Done,
        ).1 == QueueChangeAction::AnswerUpdated(entry),
{
}

/// An input that a client pushes to the queue, as it sent it, and the key that
/// it gave the message.
#[derive(Debug)]
pub struct PushRequest {
    pub input: Vec<UserInput>,
    pub key: Option<String>,
}

/// What a push waits for.
#[derive(Debug)]
pub enum PushPhase {
    Input,
    Admitted,
    KeyNoted(u128),
    Placed(u128),
    Announced(QueueEntry),
    Finished,
}

/// What the host observed during a push.
#[derive(Debug)]
pub enum PushEvent {
    /// The input with its images stored, or the part that refuses it.
    Input(Result<Vec<UserInput>, PartRefusal>),
    Admitted(PushOutcome),
    Done,
    /// How long the queue is, as far as it is known, and the time.
    Placed(Option<usize>, i64),
}

/// What the host has to do for a push.
#[derive(Debug)]
pub enum PushAction {
    /// Start the turn, or queue its input where one is running.
    Admit(TurnAsked),
    /// Store the key of the message with the entry. That this fails makes no
    /// difference.
    NoteKey(u128, String),
    /// Read how long the queue is.
    ReadLength,
    /// Tell everybody of the new entry.
    Announce(u128),
    /// Answer with the turn that runs now.
    AnswerStarted,
    /// Answer with the entry.
    AnswerQueued(QueueEntry),
    /// Refuse the input.
    Reject(Rejection),
    /// Nothing: the event does not belong to the phase.
    Ignore,
}

/// The step that refuses a push.
pub open spec fn push_refused(why: Rejection) -> (PushPhase, PushAction) {
    (PushPhase::Finished, PushAction::Reject(why))
}

/// Whether `entry` is what a client sees of the input that it pushed: as it
/// sent it, and at the end of the queue.
pub open spec fn is_pushed_entry(
    input: Seq<UserInput>,
    id: u128,
    length: Option<usize>,
    now: i64,
    entry: QueueEntry,
) -> bool {
    &&& entry.id == id
    &&& entry.position == place_pushed(length)
    &&& entry.input@ == input
    &&& shows_pushed(input, entry.preview@)
    &&& entry.enqueued_at == now
}

/// Whether `step` is the next one of a push.
pub open spec fn is_push_step(
    request: PushRequest,
    phase: PushPhase,
    event: PushEvent,
    step: (PushPhase, PushAction),
) -> bool {
    match (phase, event) {
        (PushPhase::Placed(id), PushEvent::Placed(length, now)) => {
            &&& step.0 matches PushPhase::Announced(entry) && is_pushed_entry(
                request.input@,
                id,
                length,
                now,
                entry,
            )
            &&& step.1 == PushAction::Announce(id)
        },
        _ => step == push_step(request, phase, event),
    }
}

/// The next step of a push, but for the one that makes the entry.
pub open spec fn push_step(request: PushRequest, phase: PushPhase, event: PushEvent) -> (
    PushPhase,
    PushAction,
) {
    match (phase, event) {
        (PushPhase::Input, PushEvent::Input(normalized)) => match input_refusal(
            QueueRequest::Push,
            normalized,
        ) {
            Some(why) => push_refused(why),
            None => (
                PushPhase::Admitted,
                PushAction::Admit(
                    turn_asked(QueuePolicy::Queue, normalized->Ok_0, CollaborationMode::Build),
                ),
            ),
        },
        (PushPhase::Admitted, PushEvent::Admitted(outcome)) => match outcome {
            PushOutcome::Refused(why) => push_refused(why),
            PushOutcome::Started => (PushPhase::Finished, PushAction::AnswerStarted),
            PushOutcome::Queued(id) => match request.key {
                Some(key) => (PushPhase::KeyNoted(id), PushAction::NoteKey(id, key)),
                None => (PushPhase::Placed(id), PushAction::ReadLength),
            },
            PushOutcome::Unknown => push_refused(
                rejection(
                    ErrorCode::InternalError,
                    "unexpected turn/start outcome for queue push",
                ),
            ),
        },
        (PushPhase::KeyNoted(id), PushEvent::Done) => (
            PushPhase::Placed(id),
            PushAction::ReadLength,
        ),
        (PushPhase::Announced(entry), PushEvent::Done) => (
            PushPhase::Finished,
            PushAction::AnswerQueued(entry),
        ),
        _ => (phase, PushAction::Ignore),
    }
}

fn refuse_push(why: Rejection) -> (r: (PushPhase, PushAction))
    ensures
        r == push_refused(why),
{
    (PushPhase::Finished, PushAction::Reject(why))
}

/// Takes a push one step further. It begins with the check of its input.
pub fn advance_push(request: &PushRequest, phase: PushPhase, event: PushEvent) -> (r: (
    PushPhase,
    PushAction,
))
    ensures
        is_push_step(*request, phase, event, r),
{
    match (phase, event) {
        (PushPhase::Input, PushEvent::Input(normalized)) => match check_queue_input(
            QueueRequest::Push,
            &normalized,
        ) {
            Some(why) => refuse_push(why),
            None => match normalized {
                Ok(input) => (
                    PushPhase::Admitted,
                    PushAction::Admit(
                        ask_for_turn(QueuePolicy::Queue, input, CollaborationMode::Build),
                    ),
                ),
                Err(_) => (PushPhase::Input, PushAction::Ignore),
            },
        },
        (PushPhase::Admitted, PushEvent::Admitted(outcome)) => match outcome {
            PushOutcome::Refused(why) => refuse_push(why),
            PushOutcome::Started => (PushPhase::Finished, PushAction::AnswerStarted),
            PushOutcome::Queued(id) => match &request.key {
                Some(key) => (PushPhase::KeyNoted(id), PushAction::NoteKey(id, key.clone())),
                None => (PushPhase::Placed(id), PushAction::ReadLength),
            },
            PushOutcome::Unknown => refuse_push(
                reject(ErrorCode::InternalError, "unexpected turn/start outcome for queue push"),
            ),
        },
        (PushPhase::KeyNoted(id), PushEvent::Done) => (
            PushPhase::Placed(id),
            PushAction::ReadLength,
        ),
        (PushPhase::Placed(id), PushEvent::Placed(length, now)) => (
            PushPhase::Announced(
                QueueEntry {
                    id,
                    position: pushed_position(length),
                    input: copy_inputs(&request.input),
                    preview: pushed_preview(&request.input),
                    enqueued_at: now,
                },
            ),
            PushAction::Announce(id),
        ),
        (PushPhase::Announced(entry), PushEvent::Done) => (
            PushPhase::Finished,
            PushAction::AnswerQueued(entry),
        ),
        (phase, _) => (phase, PushAction::Ignore),
    }
}

/// An input that was queued is not refused afterwards, and the client learns
/// of its entry.
pub proof fn law_queued_inputs_are_answered(
    request: PushRequest,
    phase: PushPhase,
    event: PushEvent,
    step: (PushPhase, PushAction),
)
    requires
        is_push_step(request, phase, event, step),
        phase is KeyNoted || phase is Placed || phase is Announced,
    ensures
        !(step.1 is Reject),
        step.0 is Finished ==> step.1 == PushAction::AnswerQueued(phase->Announced_0),
{
}

/// What is started or queued for a push is the input that was stored, in the
/// order in which it was sent.
pub proof fn law_pushed_inputs_are_admitted(
    request: PushRequest,
    input: Vec<UserInput>,
    step: (PushPhase, PushAction),
)
    requires
        input@.len() > 0,
        is_push_step(request, PushPhase::Input, PushEvent::Input(Ok(input)), step),
    ensures
        step.1 matches PushAction::Admit(asked) && {
            &&& asked.input == input
            &&& asked.policy == QueuePolicy::Queue
        },
{
}

/// A message for the turn that is expected goes into that turn: it is put among
/// the messages of the turn, written down unless the session is ephemeral,
/// recorded as an item of the turn with the text that is shown, told, and
/// answered with the item.
pub proof fn law_expected_turns_take_the_message(
    request: SteerRequest,
    input: Vec<UserInput>,
    display: String,
    facts: SteerFacts,
    resolved: ResolvedInput,
    unwritten: Option<String>,
    item: ItemId,
)
    requires
        input@.len() > 0,
        facts.active == Some(SteeredTurn { id: request.expected, regular: true }),
    ensures
        ({
            let a = steer_step(request, SteerPhase::Input, SteerEvent::Input(Ok(input)));
            let b = steer_step(request, a.0, SteerEvent::Rendered(Some(display)));
            let c = steer_step(request, b.0, SteerEvent::Session(Some(facts)));
            let d = steer_step(
                request,
                c.0,
                SteerEvent::Resolved(InputResolution::Ready(resolved)),
            );
            let e = steer_step(request, d.0, SteerEvent::Done);
            let f = if facts.ephemeral {
                e
            } else {
                steer_step(request, e.0, SteerEvent::Written(unwritten))
            };
            let g = steer_step(request, f.0, SteerEvent::Item(item));
            let h = steer_step(request, g.0, SteerEvent::Done);
            &&& a.1 is Render
            &&& b.1 is FindSession
            &&& c.1 is Resolve
            &&& d.1 is PushSteer
            &&& !facts.ephemeral ==> e.1 == SteerOrder::PersistSteer(request.entry)
            &&& f.1 == SteerOrder::RecordItem(request.expected, display)
            &&& g.1 == SteerOrder::Notify(request.expected)
            &&& h.1 == SteerOrder::AnswerInjected(item)
        }),
{
}

/// A message for a session in which no turn runs waits for the next one: it is
/// queued, written down unless the session is ephemeral, announced, and answered
/// with its entry.
pub proof fn law_idle_sessions_queue_the_message(
    request: SteerRequest,
    input: TurnInput,
    facts: SteerFacts,
    resolved: ResolvedInput,
    unwritten: Option<String>,
    queue: Vec<PendingItem>,
)
    requires
        facts.active is None,
    ensures
        ({
            let d = steer_step(
                request,
                SteerPhase::Resolved(facts, input),
                SteerEvent::Resolved(InputResolution::Ready(resolved)),
            );
            let e = steer_step(request, d.0, SteerEvent::Done);
            let f = if facts.ephemeral {
                e
            } else {
                steer_step(request, e.0, SteerEvent::Written(unwritten))
            };
            let g = steer_step(request, f.0, SteerEvent::Queue(queue));
            let h = steer_step(request, g.0, SteerEvent::Done);
            &&& d.1 is PushTurn
            &&& !facts.ephemeral ==> e.1 == SteerOrder::PersistTurn(request.entry)
            &&& f.1 is ReadQueue
            &&& g.1 == SteerOrder::Announce(request.entry)
            &&& h.1 is AnswerDegraded
        }),
{
}

/// What is put into a turn or into the queue is the message: under the name and
/// the time of the request, with its parts, what is shown of it, and what it was
/// resolved to.
pub proof fn law_steered_items_hold_the_message(
    request: SteerRequest,
    facts: SteerFacts,
    input: TurnInput,
    resolved: ResolvedInput,
    step: (SteerPhase, SteerAction),
)
    requires
        is_steer_step(
            request,
            SteerPhase::Resolved(facts, input),
            SteerEvent::Resolved(InputResolution::Ready(resolved)),
            step,
        ),
        facts.active is None || (facts.active->0.id == request.expected && facts.active->0.regular),
    ensures
        ({
            let item = if facts.active is None {
                step.1->PushTurn_0
            } else {
                step.1->PushSteer_0
            };
            &&& facts.active is None ==> step.1 is PushTurn
            &&& facts.active is Some ==> step.1 is PushSteer
            &&& item.id == request.entry
            &&& item.created_at == request.now
            &&& item.metadata is None
            &&& item.kind matches PendingKind::UserInput { input: sent, display, resolved: found }
                && sent@ == input.input@ && display@ == input.display@ && same_resolution(
                found,
                resolved,
            )
        }),
{
}

/// A message that cannot be taken is refused before anything is kept of it.
pub proof fn law_unusable_messages_are_refused(
    request: SteerRequest,
    facts: SteerFacts,
    input: TurnInput,
    parts: Vec<UserInput>,
    refusal: PartRefusal,
    resolved: ResolvedInput,
)
    ensures
        steer_step(request, SteerPhase::Input, SteerEvent::Input(Err(refusal))).1 matches
            SteerAction::Reject(why) && why.code is InvalidParams,
        parts@.len() == 0 ==> (steer_step(
            request,
            SteerPhase::Input,
            SteerEvent::Input(Ok(parts)),
        ).1 matches SteerAction::Reject(why) && why.code is EmptyInput),
        steer_step(request, SteerPhase::Rendered(parts), SteerEvent::Rendered(None)).1 matches
            SteerAction::Reject(why) && why.code is EmptyInput,
        steer_step(request, SteerPhase::Session(input), SteerEvent::Session(None)).1 matches
            SteerAction::Reject(why) && why.code is SessionNotFound,
        facts.active is Some && facts.active->0.id != request.expected ==> (steer_step(
            request,
            SteerPhase::Resolved(facts, input),
            SteerEvent::Resolved(InputResolution::Ready(resolved)),
        ).1 matches SteerAction::Reject(why) && why.code is ExpectedTurnMismatch),
        facts.active is Some && facts.active->0.id == request.expected && !facts.active->0.regular
            ==> (steer_step(
            request,
            SteerPhase::Resolved(facts, input),
            SteerEvent::Resolved(InputResolution::Ready(resolved)),
        ).1 matches SteerAction::Reject(why) && why.code is ActiveTurnNotSteerable),
{
}

/// An entry is edited with the input and moved to the place that were sent: it
/// is changed in the queue, written down unless the session is ephemeral, with
/// its place where it was moved, announced, and answered.
pub proof fn law_entries_are_edited_as_asked(
    entry: u128,
    position: Option<u32>,
    ephemeral: bool,
    input: Vec<UserInput>,
    resolved: ResolvedInput,
    display: String,
    shown: QueueEntry,
    unwritten: Option<String>,
)
    requires
        input@.len() > 0,
    ensures
        ({
            let request = QueueChangeRequest {
                entry,
                edit: QueueEdit::Update { has_input: true, position },
            };
            let a = queue_change_step(
                request,
                QueueChangePhase::Session,
                QueueChangeEvent::Session(Some(ephemeral)),
            );
            let b = queue_change_step(request, a.0, QueueChangeEvent::Input(Ok(input)));
            let c = queue_change_step(
                request,
                b.0,
                QueueChangeEvent::Resolved(InputResolution::Ready(resolved), display),
            );
            let d = queue_change_step(request, c.0, QueueChangeEvent::Updated(Some(shown)));
            let e = if ephemeral {
                d
            } else {
                queue_change_step(request, d.0, QueueChangeEvent::Written(unwritten))
            };
            let f = if ephemeral || position is None {
                e
            } else {
                queue_change_step(request, e.0, QueueChangeEvent::Written(unwritten))
            };
            let g = queue_change_step(request, f.0, QueueChangeEvent::Done);
            &&& a.1 is CheckInput
            &&& b.1 is Resolve
            &&& c.1 == QueueChangeAction::Update {
                entry,
                kind: Some(PendingKind::UserInput { input, display, resolved }),
                position,
            }
            &&& !ephemeral ==> d.1 == QueueChangeAction::PersistContent(entry)
            &&& !ephemeral && position is Some ==> e.1 is PersistOrder
            &&& f.1 == QueueChangeAction::Announce(QueueNotice::Updated, entry)
            &&& g.1 == QueueChangeAction::AnswerUpdated(shown)
        }),
{
}

/// An entry is moved without touching what it holds, and removed where it is
/// still there; an entry that is gone is answered as such.
pub proof fn law_entries_are_moved_and_removed_as_asked(
    entry: u128,
    position: Option<u32>,
    ephemeral: bool,
    unwritten: Option<String>,
)
    ensures
        ({
            let moving = QueueChangeRequest {
                entry,
                edit: QueueEdit::Update { has_input: false, position },
            };
            let removing = QueueChangeRequest { entry, edit: QueueEdit::Remove };
            let a = queue_change_step(
                moving,
                QueueChangePhase::Session,
                QueueChangeEvent::Session(Some(ephemeral)),
            );
            let b = queue_change_step(
                removing,
                QueueChangePhase::Session,
                QueueChangeEvent::Session(Some(ephemeral)),
            );
            let c = queue_change_step(removing, b.0, QueueChangeEvent::Removed(true));
            let d = if ephemeral {
                c
            } else {
                queue_change_step(removing, c.0, QueueChangeEvent::Written(unwritten))
            };
            let e = queue_change_step(removing, d.0, QueueChangeEvent::Done);
            &&& a.1 == QueueChangeAction::Update { entry, kind: None, position }
            &&& queue_change_step(moving, a.0, QueueChangeEvent::Updated(None)).1 matches
                QueueChangeAction::Reject(why) && why.code is QueueItemNotFound
            &&& b.1 == QueueChangeAction::Remove(entry)
            &&& !ephemeral ==> c.1 == QueueChangeAction::PersistRemoval(entry)
            &&& d.1 == QueueChangeAction::Announce(QueueNotice::Removed, entry)
            &&& e.1 is AnswerRemoved
            &&& queue_change_step(removing, b.0, QueueChangeEvent::Removed(false)).1 matches
                QueueChangeAction::Reject(why) && why.code is QueueItemNotFound
            &&& queue_change_step(
                removing,
                QueueChangePhase::Session,
                QueueChangeEvent::Session(None),
            ).1 matches QueueChangeAction::Reject(why) && why.code is SessionNotFound
        }),
{
}

/// An input that is pushed starts a turn or waits: where it waits, its key is
/// noted, it is announced, and the answer shows it as it was sent, at its place.
pub proof fn law_pushed_inputs_start_or_wait(
    request: PushRequest,
    input: Vec<UserInput>,
    id: u128,
    length: Option<usize>,
    now: i64,
    why: Rejection,
    a: (PushPhase, PushAction),
    b: (PushPhase, PushAction),
    c: (PushPhase, PushAction),
    d: (PushPhase, PushAction),
    e: (PushPhase, PushAction),
    started: (PushPhase, PushAction),
    refused: (PushPhase, PushAction),
)
    requires
        input@.len() > 0,
        is_push_step(request, PushPhase::Input, PushEvent::Input(Ok(input)), a),
        is_push_step(request, a.0, PushEvent::Admitted(PushOutcome::Queued(id)), b),
        request.key is Some ==> is_push_step(request, b.0, PushEvent::Done, c),
        request.key is None ==> c == b,
        is_push_step(request, c.0, PushEvent::Placed(length, now), d),
        is_push_step(request, d.0, PushEvent::Done, e),
        is_push_step(request, a.0, PushEvent::Admitted(PushOutcome::Started), started),
        is_push_step(request, a.0, PushEvent::Admitted(PushOutcome::Refused(why)), refused),
    ensures
        a.1 matches PushAction::Admit(asked) && asked.input == input && asked.policy is Queue
            && asked.mode is Build && asked.choice.binding is None && asked.choice.model is None
            && asked.choice.effort is None,
        request.key is Some ==> b.1 == PushAction::NoteKey(id, request.key->0),
        c.1 is ReadLength,
        d.1 == PushAction::Announce(id),
        e.1 matches PushAction::AnswerQueued(entry) && {
            &&& entry.id == id
            &&& entry.input@ == request.input@
            &&& entry.enqueued_at == now
            &&& length is Some ==> entry.position == length->0
            &&& length is None ==> entry.position == 1
        },
        started.1 is AnswerStarted,
        refused.1 == PushAction::Reject(why),
{
}

} // verus!
