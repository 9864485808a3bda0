//! The queue of inputs that wait for the active turn to end.
//!
//! An entry can be read, edited, moved and taken out by its identifier until
//! it becomes a turn.

use crate::inputs::{ImageUriError, PartRefusal, ResolvedInput, UserInput};
use crate::message_edit::InputResolution;
use crate::protocol::{
    reject, reject_about, rejection, rejection_about, ErrorCode, Rejection, TurnId,
};
use crate::session_metadata::CollaborationMode;
use crate::text::{chars_of, first_line, take_first_line, text_between};
use vstd::prelude::*;

verus! {

/// How many characters a queued input shows of its text.
pub const PREVIEW_LENGTH: usize = 80;

/// What is kept with a queued input so that it runs as it was meant.
#[derive(Debug)]
pub struct PendingMetadata {
    pub mode: Option<CollaborationMode>,
    pub binding: Option<String>,
    pub model: Option<String>,
}

/// What a queue entry holds.
#[derive(Debug)]
pub enum PendingKind {
    UserText(String),
    UserInput { input: Vec<UserInput>, display: String, resolved: ResolvedInput },
    Other,
}

/// One queued input.
#[derive(Debug)]
pub struct PendingItem {
    pub id: u128,
    pub kind: PendingKind,
    pub metadata: Option<PendingMetadata>,
    pub created_at: i64,
}

/// What a client sees of a queued input.
#[derive(Debug)]
pub struct QueueEntry {
    pub id: u128,
    /// The place in the queue; the first is 1.
    pub position: u64,
    pub input: Vec<UserInput>,
    pub preview: String,
    pub enqueued_at: i64,
}

/// What is shown of a text: its first characters.
pub open spec fn preview_of(text: Seq<char>) -> Seq<char> {
    if text.len() > PREVIEW_LENGTH {
        text.take(PREVIEW_LENGTH as int)
    } else {
        text
    }
}

/// The first characters of a text.
pub fn preview(text: &str) -> (r: String)
    ensures
        r@ == preview_of(text@),
{
    let chars = chars_of(text);
    let to: usize = if chars.len() > PREVIEW_LENGTH {
        PREVIEW_LENGTH
    } else {
        chars.len()
    };
    assert(chars@.subrange(0, to as int) =~= preview_of(text@));
    text_between(&chars, 0, to)
}

/// The input of a queue entry.
pub open spec fn input_of(kind: PendingKind) -> Seq<UserInput> {
    match kind {
        PendingKind::UserText(text) => seq![UserInput::Text(text)],
        PendingKind::UserInput { input, display, .. } => input@,
        PendingKind::Other => Seq::empty(),
    }
}

/// What the input of an entry comes to, where it was resolved.
pub open spec fn resolved_of(kind: PendingKind) -> Option<ResolvedInput> {
    match kind {
        PendingKind::UserInput { resolved, .. } => Some(resolved),
        _ => None,
    }
}

/// The text that a queue entry shows.
pub open spec fn display_of(kind: PendingKind) -> Seq<char> {
    match kind {
        PendingKind::UserText(text) => text@,
        PendingKind::UserInput { input, display, .. } => display@,
        PendingKind::Other => Seq::empty(),
    }
}

/// Whether `entry` is what a client sees of `item` in the place `position`.
pub open spec fn shows_item(entry: QueueEntry, item: PendingItem, position: int) -> bool {
    &&& entry.id == item.id
    &&& entry.position == position
    &&& entry.input@ == input_of(item.kind)
    &&& entry.preview@ == preview_of(display_of(item.kind))
    &&& entry.enqueued_at == item.created_at
}

pub(crate) fn copy_inputs(input: &Vec<UserInput>) -> (r: Vec<UserInput>)
    ensures
        r@ == input@,
{
    let mut copy: Vec<UserInput> = Vec::new();
    let mut i: usize = 0;
    while i < input.len()
        invariant
            i <= input@.len(),
            copy@ == input@.take(i as int),
        decreases input@.len() - i,
    {
        copy.push(input[i].copy());
        i = i + 1;
        assert(copy@ =~= input@.take(i as int));
    }
    assert(input@.take(input@.len() as int) =~= input@);
    copy
}

/// What a client sees of one queued input.
pub fn queue_entry(item: &PendingItem, position: u64) -> (r: QueueEntry)
    ensures
        shows_item(r, *item, position as int),
{
    let input = match &item.kind {
        PendingKind::UserText(text) => {
            let mut input: Vec<UserInput> = Vec::new();
            input.push(UserInput::Text(text.clone()));
            assert(input@ =~= input_of(item.kind));
            input
        },
        PendingKind::UserInput { input, .. } => copy_inputs(input),
        PendingKind::Other => Vec::new(),
    };
    let shown = match &item.kind {
        PendingKind::UserText(text) => preview(text.as_str()),
        PendingKind::UserInput { display, .. } => preview(display.as_str()),
        PendingKind::Other => {
            let empty = String::new();
            preview(empty.as_str())
        },
    };
    QueueEntry {
        id: item.id,
        position,
        input,
        preview: shown,
        enqueued_at: item.created_at,
    }
}

/// What a client sees of the whole queue: every entry in order, counted from
/// one.
pub fn native_queue_entries(queue: &Vec<PendingItem>) -> (r: Vec<QueueEntry>)
    ensures
        r@.len() == queue@.len(),
        forall|i: int|
            0 <= i < queue@.len() ==> shows_item(#[trigger] r@[i], queue@[i], i + 1),
{
    let mut entries: Vec<QueueEntry> = Vec::new();
    let mut i: usize = 0;
    while i < queue.len()
        invariant
            i <= queue.len(),
            entries@.len() == i,
            forall|j: int| 0 <= j < i ==> shows_item(#[trigger] entries@[j], queue@[j], j + 1),
        decreases queue@.len() - i,
    {
        entries.push(queue_entry(&queue[i], i as u64 + 1));
        i = i + 1;
    }
    entries
}

/// Whether the first entry with the identifier `id` stands at `i`.
pub open spec fn is_entry(queue: Seq<PendingItem>, id: u128, i: int) -> bool {
    &&& 0 <= i < queue.len()
    &&& queue[i].id == id
    &&& forall|j: int| 0 <= j < i ==> (#[trigger] queue[j]).id != id
}

/// Whether the queue holds an entry with the identifier `id`.
pub open spec fn is_queued(queue: Seq<PendingItem>, id: u128) -> bool {
    exists|i: int| is_entry(queue, id, i)
}

/// Where the entry `id` stands.
pub open spec fn entry_index(queue: Seq<PendingItem>, id: u128) -> int {
    choose|i: int| is_entry(queue, id, i)
}

fn find_entry(queue: &Vec<PendingItem>, id: u128) -> (r: Option<usize>)
    ensures
        match r {
            Some(i) => {
                &&& is_entry(queue@, id, i as int)
                &&& is_queued(queue@, id)
                &&& entry_index(queue@, id) == i
            },
            None => !is_queued(queue@, id),
        },
{
    let mut i: usize = 0;
    while i < queue.len()
        invariant
            i <= queue@.len(),
            forall|j: int| 0 <= j < i ==> (#[trigger] queue@[j]).id != id,
        decreases queue@.len() - i,
    {
        if queue[i].id == id {
            proof {
                assert(is_entry(queue@, id, i as int));
                let k = entry_index(queue@, id);
                assert(is_entry(queue@, id, k));
                assert(k == i) by {
                    if k < i {
                        assert(queue@[k].id != id);
                    } else if k > i {
                        assert(queue@[i as int].id != id);
                    }
                }
            }
            return Some(i);
        }
        i = i + 1;
    }
    None
}

/// Where an entry goes that is asked for the place `position` in a queue that
/// has `others` other entries.
pub open spec fn target_index(position: u32, others: int) -> int {
    let wanted = if position == 0 {
        0
    } else {
        position - 1
    };
    if wanted < others {
        wanted
    } else {
        others
    }
}

/// The queue after the entry at `i` was moved to the place `position`.
pub open spec fn moved(queue: Seq<PendingItem>, i: int, position: u32) -> Seq<PendingItem> {
    queue.remove(i).insert(target_index(position, queue.len() - 1), queue[i])
}

/// The queue after the entry at `i` was given new content and a new place, as
/// far as they are named.
pub open spec fn updated(
    queue: Seq<PendingItem>,
    i: int,
    kind: Option<PendingKind>,
    position: Option<u32>,
) -> Seq<PendingItem> {
    let filled = match kind {
        Some(kind) => queue.update(i, PendingItem { kind, ..queue[i] }),
        None => queue,
    };
    match position {
        Some(position) => moved(filled, i, position),
        None => filled,
    }
}

/// The answer for an entry that is not queued any more.
pub open spec fn not_queued() -> Rejection {
    rejection(ErrorCode::QueueItemNotFound, "queue item is no longer queued")
}

/// Gives the entry `id` new content and a new place, as far as they are
/// named, and says what a client now sees of it.
pub fn update_queue(
    queue: &mut Vec<PendingItem>,
    id: u128,
    kind: Option<PendingKind>,
    position: Option<u32>,
) -> (r: Result<QueueEntry, Rejection>)
    ensures
        match r {
            Ok(entry) => {
                &&& is_queued(old(queue)@, id)
                &&& final(queue)@ == updated(
                    old(queue)@,
                    entry_index(old(queue)@, id),
                    kind,
                    position,
                )
                &&& exists|k: int|
                    #[trigger] is_entry(final(queue)@, id, k) && shows_item(
                        entry,
                        final(queue)@[k],
                        k + 1,
                    )
            },
            Err(why) => {
                &&& !is_queued(old(queue)@, id)
                &&& why == not_queued()
                &&& final(queue)@ == old(queue)@
            },
        },
{
    let ghost before = queue@;
    let at: usize = match find_entry(queue, id) {
        Some(at) => at,
        None => {
            return Err(
                reject(ErrorCode::QueueItemNotFound, "queue item is no longer queued"),
            );
        },
    };
    if let Some(kind) = kind {
        queue[at].kind = kind;
        assert(queue@ =~= before.update(at as int, PendingItem { kind, ..before[at as int] }));
    }
    let ghost filled = queue@;
    assert(is_entry(filled, id, at as int));
    let mut place: usize = at;
    if let Some(position) = position {
        let item = queue.remove(at);
        let wanted: usize = position.saturating_sub(1) as usize;
        place = if wanted < queue.len() {
            wanted
        } else {
            queue.len()
        };
        queue.insert(place, item);
        assert(queue@ =~= moved(filled, at as int, position));
    }
    assert(queue@[place as int].id == id);
    let shown: usize = match find_entry(queue, id) {
        Some(shown) => shown,
        None => {
            assert(false) by {
                lemma_some_entry(queue@, id, place as int);
            }
            place
        },
    };
    assert(shown < queue.len());
    Ok(queue_entry(&queue[shown], shown as u64 + 1))
}

proof fn lemma_some_entry(queue: Seq<PendingItem>, id: u128, i: int)
    requires
        0 <= i < queue.len(),
        queue[i].id == id,
    ensures
        is_queued(queue, id),
    decreases i,
{
    if exists|j: int| 0 <= j < i && (#[trigger] queue[j]).id == id {
        let j = choose|j: int| 0 <= j < i && (#[trigger] queue[j]).id == id;
        lemma_some_entry(queue, id, j);
    } else {
        assert(is_entry(queue, id, i));
    }
}

/// Takes the entry `id` out of the queue.
pub fn remove_from_queue(queue: &mut Vec<PendingItem>, id: u128) -> (r: Result<(), Rejection>)
    ensures
        match r {
            Ok(_) => {
                &&& is_queued(old(queue)@, id)
                &&& final(queue)@ == old(queue)@.remove(entry_index(old(queue)@, id))
            },
            Err(why) => {
                &&& !is_queued(old(queue)@, id)
                &&& why == not_queued()
                &&& final(queue)@ == old(queue)@
            },
        },
{
    match find_entry(queue, id) {
        Some(at) => {
            queue.remove(at);
            Ok(())
        },
        None => Err(reject(ErrorCode::QueueItemNotFound, "queue item is no longer queued")),
    }
}

/// Appends an input to the queue and says what a client sees of it.
pub fn push_to_queue(queue: &mut Vec<PendingItem>, item: PendingItem) -> (r: QueueEntry)
    ensures
        final(queue)@ == old(queue)@.push(item),
        shows_item(r, item, final(queue)@.len() as int),
{
    let place: usize = queue.len();
    queue.push(item);
    assert(queue.len() == place + 1);
    queue_entry(&queue[place], place as u64 + 1)
}

/// Moving an entry changes neither the entries nor their number.
pub proof fn law_moving_keeps_every_entry(queue: Seq<PendingItem>, i: int, position: u32)
    requires
        0 <= i < queue.len(),
    ensures
        moved(queue, i, position).len() == queue.len(),
        moved(queue, i, position).to_multiset() == queue.to_multiset(),
        moved(queue, i, position)[target_index(position, queue.len() - 1)] == queue[i],
{
    broadcast use vstd::seq_lib::group_to_multiset_ensures;

    let rest = queue.remove(i);
    let at = target_index(position, queue.len() - 1);
    assert(rest.insert(at, queue[i]).to_multiset() =~= rest.to_multiset().insert(queue[i])) by {
        vstd::seq_lib::to_multiset_insert(rest, at, queue[i]);
    }
    assert(queue.to_multiset() =~= rest.to_multiset().insert(queue[i])) by {
        assert(rest.insert(i, queue[i]) =~= queue);
        vstd::seq_lib::to_multiset_insert(rest, i, queue[i]);
    }
}

/// The other entries keep their order when one is moved.
pub proof fn law_moving_keeps_the_others_in_order(
    queue: Seq<PendingItem>,
    i: int,
    position: u32,
)
    requires
        0 <= i < queue.len(),
    ensures
        moved(queue, i, position).remove(target_index(position, queue.len() - 1))
            == queue.remove(i),
{
    let at = target_index(position, queue.len() - 1);
    assert(moved(queue, i, position).remove(at) =~= queue.remove(i));
}

/// An entry that is asked for the place that it has stays there.
pub proof fn law_moving_home_changes_nothing(queue: Seq<PendingItem>, i: int, position: u32)
    requires
        0 <= i < queue.len(),
        position == i + 1,
    ensures
        moved(queue, i, position) == queue,
{
    assert(moved(queue, i, position) =~= queue);
}

/// The requests that bring an input to the queue or to a turn.
#[derive(Clone, Copy, Debug, PartialEq, Eq, Structural)]
pub enum QueueRequest {
    Push,
    Update,
    Steer,
}

/// The answer to a request whose input has no content.
pub open spec fn empty_input(request: QueueRequest) -> Rejection {
    rejection(
        ErrorCode::EmptyInput,
        match request {
            QueueRequest::Push => "queue push input is empty",
            QueueRequest::Update => "queue update input is empty",
            QueueRequest::Steer => "turn/steer input is empty",
        },
    )
}

fn refuse_empty(request: QueueRequest) -> (r: Rejection)
    ensures
        r == empty_input(request),
{
    match request {
        QueueRequest::Push => reject(ErrorCode::EmptyInput, "queue push input is empty"),
        QueueRequest::Update => reject(ErrorCode::EmptyInput, "queue update input is empty"),
        QueueRequest::Steer => reject(ErrorCode::EmptyInput, "turn/steer input is empty"),
    }
}

/// The answer to an input with a part that cannot be queued.
pub open spec fn part_refusal(refusal: PartRefusal) -> Rejection {
    match refusal {
        PartRefusal::Audio(uri) => rejection_about(
            ErrorCode::InvalidParams,
            "unsupported input modality for queue: ",
            uri,
        ),
        PartRefusal::Image(ImageUriError::NotData) => rejection(
            ErrorCode::InvalidParams,
            "only data: image URIs are supported",
        ),
        PartRefusal::Image(ImageUriError::NoPayload) => rejection(
            ErrorCode::InvalidParams,
            "invalid data URI: missing payload",
        ),
        PartRefusal::Image(ImageUriError::NotBase64) => rejection(
            ErrorCode::InvalidParams,
            "only base64-encoded data URIs are supported",
        ),
        PartRefusal::Image(ImageUriError::Undecodable(error)) => rejection_about(
            ErrorCode::InvalidParams,
            "failed to decode image data URI: ",
            error,
        ),
        PartRefusal::NotStored(error) => rejection_about(ErrorCode::InvalidParams, "", error),
    }
}

fn refuse_part(refusal: &PartRefusal) -> (r: Rejection)
    ensures
        r == part_refusal(*refusal),
        r.message_view() == refusal.queue_message_view(),
{
    let why = match refusal {
        PartRefusal::Audio(uri) => reject_about(
            ErrorCode::InvalidParams,
            "unsupported input modality for queue: ",
            uri.clone(),
        ),
        PartRefusal::Image(ImageUriError::NotData) => reject(
            ErrorCode::InvalidParams,
            "only data: image URIs are supported",
        ),
        PartRefusal::Image(ImageUriError::NoPayload) => reject(
            ErrorCode::InvalidParams,
            "invalid data URI: missing payload",
        ),
        PartRefusal::Image(ImageUriError::NotBase64) => reject(
            ErrorCode::InvalidParams,
            "only base64-encoded data URIs are supported",
        ),
        PartRefusal::Image(ImageUriError::Undecodable(error)) => reject_about(
            ErrorCode::InvalidParams,
            "failed to decode image data URI: ",
            error.clone(),
        ),
        PartRefusal::NotStored(error) => reject_about(ErrorCode::InvalidParams, "", error.clone()),
    };
    proof {
        reveal_strlit("");
        assert(why.message_view() =~= refusal.queue_message_view());
    }
    why
}

/// Why the input of a request is refused before anything changes, if it is. A
/// part that cannot be taken is named; an input without parts is empty.
pub open spec fn input_refusal(
    request: QueueRequest,
    normalized: Result<Vec<UserInput>, PartRefusal>,
) -> Option<Rejection> {
    match normalized {
        Err(refusal) => Some(part_refusal(refusal)),
        Ok(parts) => if parts@.len() == 0 {
            Some(empty_input(request))
        } else {
            None
        },
    }
}

/// Checks the input of a request before anything changes.
pub fn check_queue_input(
    request: QueueRequest,
    normalized: &Result<Vec<UserInput>, PartRefusal>,
) -> (r: Option<Rejection>)
    ensures
        r == input_refusal(request, *normalized),
        *normalized is Err ==> r->0.message_view() == normalized->Err_0.queue_message_view(),
{
    match normalized {
        Err(refusal) => Some(refuse_part(refusal)),
        Ok(parts) => {
            if parts.len() == 0 {
                Some(refuse_empty(request))
            } else {
                None
            }
        },
    }
}

/// What the input of an update or a steer comes to, or why it is refused. An
/// update blames the client for every failure; a steer tells whose fault it is.
pub open spec fn resolution_of(request: QueueRequest, resolution: InputResolution) -> Result<
    ResolvedInput,
    Rejection,
> {
    match resolution {
        InputResolution::Ready(resolved) => Ok(resolved),
        InputResolution::Empty => Err(empty_input(request)),
        InputResolution::Failed(failure, error) => Err(
            if request == QueueRequest::Steer {
                rejection_about(failure.code(), "failed to resolve turn/steer input: ", error)
            } else {
                rejection_about(
                    ErrorCode::InvalidParams,
                    "failed to resolve queue update input: ",
                    error,
                )
            },
        ),
    }
}

/// Checks what the input of an update or a steer comes to.
pub fn check_resolution(request: QueueRequest, resolution: InputResolution) -> (r: Result<
    ResolvedInput,
    Rejection,
>)
    ensures
        r == resolution_of(request, resolution),
{
    match resolution {
        InputResolution::Ready(resolved) => Ok(resolved),
        InputResolution::Empty => Err(refuse_empty(request)),
        InputResolution::Failed(failure, error) => match request {
            QueueRequest::Steer => Err(
                reject_about(failure.error_code(), "failed to resolve turn/steer input: ", error),
            ),
            _ => Err(
                reject_about(
                    ErrorCode::InvalidParams,
                    "failed to resolve queue update input: ",
                    error,
                ),
            ),
        },
    }
}

/// Whether the first text part of `input` stands at `i`.
pub open spec fn is_first_text(input: Seq<UserInput>, i: int) -> bool {
    &&& 0 <= i < input.len()
    &&& input[i] is Text
    &&& forall|j: int| 0 <= j < i ==> !(#[trigger] input[j] is Text)
}

/// Whether `shown` is what is shown of an input that was just queued: the
/// start of the first line of its first text part.
pub open spec fn shows_pushed(input: Seq<UserInput>, shown: Seq<char>) -> bool {
    if exists|i: int| is_first_text(input, i) {
        exists|i: int| #[trigger] is_first_text(input, i) && shown == preview_of(
            first_line(input[i]->Text_0@),
        )
    } else {
        shown.len() == 0
    }
}

/// What is shown of an input that was just queued.
pub fn pushed_preview(input: &Vec<UserInput>) -> (r: String)
    ensures
        shows_pushed(input@, r@),
{
    let mut i: usize = 0;
    while i < input.len()
        invariant
            i <= input@.len(),
            forall|j: int| 0 <= j < i ==> !(#[trigger] input@[j] is Text),
        decreases input@.len() - i,
    {
        if let UserInput::Text(text) = &input[i] {
            assert(is_first_text(input@, i as int));
            return preview(take_first_line(text.as_str()).as_str());
        }
        i = i + 1;
    }
    String::new()
}

/// The place of an input that was just queued: the last one, as far as the
/// queue is known.
pub open spec fn place_pushed(length: Option<usize>) -> u64 {
    match length {
        Some(length) => length as u64,
        None => 1,
    }
}

/// The place of an input that was just queued.
pub fn pushed_position(length: Option<usize>) -> (r: u64)
    ensures
        r == place_pushed(length),
{
    match length {
        Some(length) => length as u64,
        None => 1,
    }
}

/// What admission said of a pushed input.
#[derive(Debug)]
pub enum PushOutcome {
    Refused(Rejection),
    Started,
    Queued(u128),
    Unknown,
}

/// The turn that a steer meets.
#[derive(Clone, Copy, Debug, PartialEq, Eq, Structural)]
pub struct SteeredTurn {
    pub id: TurnId,
    /// Whether it is an ordinary turn, and not, say, a compaction.
    pub regular: bool,
}

/// What becomes of a steer.
#[derive(Debug)]
pub enum SteerDecision {
    /// Inject the input into the turn.
    Inject(TurnId),
    /// The turn is over: queue the input, so that it is not lost.
    Degrade,
    Reject(Rejection),
}

/// What becomes of a steer that names the turn `expected`.
pub open spec fn steer_decision(active: Option<SteeredTurn>, expected: TurnId) -> SteerDecision {
    match active {
        None => SteerDecision::Degrade,
        Some(turn) => if turn.id != expected {
            SteerDecision::Reject(
                rejection(
                    ErrorCode::ExpectedTurnMismatch,
                    "active turn did not match expectedTurnId",
                ),
            )
        } else if !turn.regular {
            SteerDecision::Reject(
                rejection(
                    ErrorCode::ActiveTurnNotSteerable,
                    "cannot steer a non-regular turn",
                ),
            )
        } else {
            SteerDecision::Inject(turn.id)
        },
    }
}

/// Decides what becomes of a steer that names the turn `expected`.
pub fn decide_steer(active: Option<SteeredTurn>, expected: TurnId) -> (r: SteerDecision)
    ensures
        r == steer_decision(active, expected),
{
    match active {
        None => SteerDecision::Degrade,
        Some(turn) => {
            if turn.id != expected {
                SteerDecision::Reject(
                    reject(
                        ErrorCode::ExpectedTurnMismatch,
                        "active turn did not match expectedTurnId",
                    ),
                )
            } else if !turn.regular {
                SteerDecision::Reject(
                    reject(
                        ErrorCode::ActiveTurnNotSteerable,
                        "cannot steer a non-regular turn",
                    ),
                )
            } else {
                SteerDecision::Inject(turn.id)
            }
        },
    }
}

/// A steer is refused only where another turn runs, or one that cannot be
/// steered; where no turn runs the message goes to the queue.
pub proof fn law_steer_never_loses_a_message(active: Option<SteeredTurn>, expected: TurnId)
    ensures
        steer_decision(active, expected) is Reject <==> active is Some && (active->0.id != expected
            || !active->0.regular),
        active is None ==> steer_decision(active, expected) is Degrade,
{
}

/// Whether `entry` is what a client is told of a steer that went to the queue:
/// the entry, and where the queue has already let go of it, what it was, in
/// the last place.
pub open spec fn shows_degraded(
    queue: Seq<PendingItem>,
    item: PendingItem,
    entry: QueueEntry,
) -> bool {
    if is_queued(queue, item.id) {
        shows_item(entry, queue[entry_index(queue, item.id)], entry_index(queue, item.id) + 1)
    } else {
        shows_item(
            entry,
            item,
            if queue.len() == 0 {
                1
            } else {
                queue.len() as int
            },
        )
    }
}

/// What a client is told of a steer that went to the queue.
pub fn degraded_entry(queue: &Vec<PendingItem>, item: &PendingItem) -> (r: QueueEntry)
    ensures
        shows_degraded(queue@, *item, r),
{
    match find_entry(queue, item.id) {
        Some(at) => {
            assert(at < queue.len());
            queue_entry(&queue[at], at as u64 + 1)
        },
        None => {
            let length = queue.len() as u64;
            queue_entry(
                item,
                if length == 0 {
                    1
                } else {
                    length
                },
            )
        },
    }
}

/// What is shown of a long text is its first eighty characters; a shorter one
/// is shown whole.
pub proof fn law_previews_are_the_beginning(text: Seq<char>, r: Seq<char>)
    requires
        r == preview_of(text),
    ensures
        text.len() <= 80 ==> r == text,
        text.len() > 80 ==> r.len() == 80,
        r.is_prefix_of(text),
{
}

/// An entry shows the item that waits: its name, its place, what it holds and
/// since when it waits. A text is an input of one part.
pub proof fn law_entries_show_what_waits(entry: QueueEntry, item: PendingItem, position: int)
    requires
        shows_item(entry, item, position),
    ensures
        entry.id == item.id,
        entry.position == position,
        entry.enqueued_at == item.created_at,
        item.kind matches PendingKind::UserText(text) ==> entry.input@.len() == 1
            && entry.input@[0] == UserInput::Text(text) && entry.preview@.is_prefix_of(text@),
        item.kind matches PendingKind::UserInput { input, display, resolved } ==> entry.input@
            == input@ && entry.preview@.is_prefix_of(display@) && resolved_of(item.kind) == Some(
            resolved,
        ),
        item.kind is Other ==> entry.input@.len() == 0 && entry.preview@.len() == 0,
{
}

/// An entry is moved to the place that is asked for: places count from one, the
/// place before the first is the first, and one past the end is the last. The
/// entries between move up or down by one.
pub proof fn law_entries_are_moved_where_asked(
    queue: Seq<PendingItem>,
    i: int,
    position: u32,
    r: Seq<PendingItem>,
)
    requires
        0 <= i < queue.len(),
        r == moved(queue, i, position),
    ensures
        r.len() == queue.len(),
        position <= 1 ==> r[0] == queue[i],
        1 <= position <= queue.len() ==> r[position - 1] == queue[i],
        position > queue.len() ==> r[queue.len() - 1] == queue[i],
        forall|k: int|
            0 <= k < i && k + 1 < position && k < queue.len() - 1 ==> #[trigger] r[k] == queue[k],
        forall|k: int|
            i < k < queue.len() && (position == 0 || k >= position) ==> #[trigger] r[k] == queue[k],
{
}

/// Changing an entry gives it what was sent and leaves it under its name, from
/// when it waits and with what it was sent with; the others stay as they are.
pub proof fn law_edited_entries_keep_their_place(
    queue: Seq<PendingItem>,
    i: int,
    kind: Option<PendingKind>,
    position: Option<u32>,
    r: Seq<PendingItem>,
)
    requires
        0 <= i < queue.len(),
        r == updated(queue, i, kind, position),
    ensures
        r.len() == queue.len(),
        kind is None && position is None ==> r == queue,
        position is None ==> {
            &&& forall|k: int| 0 <= k < queue.len() && k != i ==> #[trigger] r[k] == queue[k]
            &&& r[i].id == queue[i].id && r[i].created_at == queue[i].created_at && r[i].metadata
                == queue[i].metadata
            &&& kind is Some ==> r[i].kind == kind->0
        },
        position is Some && 1 <= position->0 <= queue.len() ==> {
            &&& r[position->0 - 1].id == queue[i].id
            &&& r[position->0 - 1].created_at == queue[i].created_at
            &&& r[position->0 - 1].metadata == queue[i].metadata
            &&& kind is Some ==> r[position->0 - 1].kind == kind->0
            &&& kind is None ==> r[position->0 - 1].kind == queue[i].kind
        },
{
}

/// A message for the running turn goes into it where it is the expected one and
/// can be steered; it waits where no turn runs; another turn, or one that cannot
/// be steered, refuses it.
pub proof fn law_messages_are_steered_into_the_expected_turn(
    active: Option<SteeredTurn>,
    expected: TurnId,
    r: SteerDecision,
)
    requires
        r == steer_decision(active, expected),
    ensures
        active is None ==> r is Degrade,
        active matches Some(turn) ==> {
            &&& turn.id == expected && turn.regular ==> r == SteerDecision::Inject(expected)
            &&& turn.id != expected ==> (r matches SteerDecision::Reject(why) && why.code
                is ExpectedTurnMismatch)
            &&& turn.id == expected && !turn.regular ==> (r matches SteerDecision::Reject(why)
                && why.code is ActiveTurnNotSteerable)
        },
{
}

/// Input is taken where its parts could be read and there is at least one; what
/// is refused is told by its kind.
pub proof fn law_queue_input_is_checked(
    request: QueueRequest,
    normalized: Result<Vec<UserInput>, PartRefusal>,
    resolution: InputResolution,
)
    ensures
        input_refusal(request, normalized) is None <==> normalized is Ok && normalized->Ok_0@.len()
            > 0,
        normalized is Ok && normalized->Ok_0@.len() == 0 ==> input_refusal(
            request,
            normalized,
        )->0.code is EmptyInput,
        normalized is Err ==> input_refusal(request, normalized)->0.code is InvalidParams,
        normalized matches Err(PartRefusal::Audio(uri)) ==> input_refusal(
            request,
            normalized,
        )->0.detail == Some(uri),
        normalized matches Err(PartRefusal::NotStored(error)) ==> input_refusal(
            request,
            normalized,
        )->0.detail == Some(error),
        normalized matches Err(PartRefusal::Image(ImageUriError::Undecodable(error)))
            ==> input_refusal(request, normalized)->0.detail == Some(error),
        resolution matches InputResolution::Ready(resolved) ==> resolution_of(request, resolution)
            == Ok::<ResolvedInput, Rejection>(resolved),
        resolution is Empty ==> (resolution_of(request, resolution) matches Err(why) && why.code
            is EmptyInput),
        resolution matches InputResolution::Failed(failure, error) ==> (resolution_of(
            request,
            resolution,
        ) matches Err(why) && why.detail == Some(error) && (!(request is Steer) ==> why.code
            is InvalidParams) && (request is Steer ==> (why.code is InvalidParams <==> (failure
            is NotFound || failure is Ambiguous || failure is Disabled)))),
{
}

/// What is shown of a pushed input is the beginning of the first line of its
/// first text, and nothing where it has no text.
pub proof fn law_pushed_inputs_are_shown_by_their_text(
    input: Seq<UserInput>,
    i: int,
    shown: Seq<char>,
)
    requires
        shows_pushed(input, shown),
        0 <= i < input.len(),
        input[i] is Text,
        forall|j: int| 0 <= j < i ==> !(#[trigger] input[j] is Text),
    ensures
        shown.is_prefix_of(first_line(input[i]->Text_0@)),
        first_line(input[i]->Text_0@).len() <= 80 ==> shown == first_line(input[i]->Text_0@),
        first_line(input[i]->Text_0@).len() > 80 ==> shown.len() == 80,
{
    assert(is_first_text(input, i));
    let k = choose|k: int|
        #[trigger] is_first_text(input, k) && shown == preview_of(first_line(input[k]->Text_0@));
    assert(is_first_text(input, k));
    if k < i {
        assert(!(input[k] is Text));
    }
    if i < k {
        assert(!(input[i] is Text));
    }
}

/// A pushed input is the last of the queue, and the first where no queue is
/// known.
pub proof fn law_pushed_inputs_come_last(length: usize)
    ensures
        place_pushed(Some(length)) == length,
        place_pushed(None) == 1,
{
}

/// A message that waits is shown where it stands in the queue; where it is not
/// found any more it is shown as the last, and as the first of an empty queue.
pub proof fn law_waiting_messages_are_shown_in_place(
    queue: Seq<PendingItem>,
    item: PendingItem,
    entry: QueueEntry,
    i: int,
)
    requires
        shows_degraded(queue, item, entry),
    ensures
        entry.id == item.id,
        0 <= i < queue.len() && queue[i].id == item.id && (forall|j: int|
            0 <= j < i ==> (#[trigger] queue[j]).id != item.id) ==> entry.position == i + 1
            && entry.input@ == input_of(queue[i].kind),
        (forall|j: int| 0 <= j < queue.len() ==> (#[trigger] queue[j]).id != item.id)
            ==> entry.input@ == input_of(item.kind) && (queue.len() == 0 ==> entry.position == 1)
            && (queue.len() > 0 ==> entry.position == queue.len()),
{
    if is_queued(queue, item.id) {
        let k = entry_index(queue, item.id);
        assert(is_entry(queue, item.id, k));
        if 0 <= i < queue.len() && queue[i].id == item.id && (forall|j: int|
            0 <= j < i ==> (#[trigger] queue[j]).id != item.id) {
            assert(k == i);
        }
    } else if 0 <= i < queue.len() && queue[i].id == item.id && (forall|j: int|
        0 <= j < i ==> (#[trigger] queue[j]).id != item.id) {
        assert(is_entry(queue, item.id, i));
    }
}

} // verus!
