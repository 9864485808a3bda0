//! Subscriptions to streams of events.
//!
//! What a client gets when it subscribes covers everything up to a barrier;
//! what is delivered live covers everything behind it.

use crate::paths::{copy_path, parts, Component, PathPart};
use crate::protocol::{
    reject, rejection, ErrorCode, ItemId, Rejection, SessionId, TurnId,
};
use crate::queue::{display_of, PendingKind};
use crate::session_admin::{live_item_snapshot, DeltaChannel, LiveItem};
use crate::text::{decimal, decimal_text, first_line, opt_view, take_first_line, text_equal};
use crate::workspace_restore::same_path;
use vstd::prelude::*;

verus! {

/// What a client subscribes to. Sessions and lists of sessions come with the
/// name of their stream.
#[derive(Debug)]
pub enum StreamSelector {
    /// The list of the sessions in a directory.
    SessionsByCwd { cwd: Vec<Component>, stream: String },
    Session { session: SessionId, stream: String },
    BackgroundTask { item: String },
}

/// What a selector says.
pub enum SelectorModel {
    SessionsByCwd(Seq<PathPart>, Seq<char>),
    Session(SessionId, Seq<char>),
    BackgroundTask(Seq<char>),
}

impl View for StreamSelector {
    type V = SelectorModel;

    open spec fn view(&self) -> SelectorModel {
        match *self {
            StreamSelector::SessionsByCwd { cwd, stream } => SelectorModel::SessionsByCwd(
                parts(cwd@),
                stream@,
            ),
            StreamSelector::Session { session, stream } => SelectorModel::Session(session, stream@),
            StreamSelector::BackgroundTask { item } => SelectorModel::BackgroundTask(item@),
        }
    }
}

impl StreamSelector {
    /// A copy of the selector.
    pub fn copy(&self) -> (r: StreamSelector)
        ensures
            r@ == self@,
    {
        match self {
            StreamSelector::SessionsByCwd { cwd, stream } => StreamSelector::SessionsByCwd {
                cwd: copy_path(cwd),
                stream: stream.clone(),
            },
            StreamSelector::Session { session, stream } => StreamSelector::Session {
                session: *session,
                stream: stream.clone(),
            },
            StreamSelector::BackgroundTask { item } => StreamSelector::BackgroundTask {
                item: item.clone(),
            },
        }
    }
}

/// What selectors say.
pub open spec fn selectors_view(selectors: Seq<StreamSelector>) -> Seq<SelectorModel> {
    selectors.map_values(|selector: StreamSelector| selector@)
}

/// The name of the stream that is subscribed to.
pub open spec fn stream_of(selector: StreamSelector) -> Seq<char> {
    match selector {
        StreamSelector::SessionsByCwd { stream, .. } => stream@,
        StreamSelector::Session { stream, .. } => stream@,
        StreamSelector::BackgroundTask { item } => "task:"@ + item@,
    }
}

/// The name of the stream that is subscribed to.
pub fn selector_stream_id(selector: &StreamSelector) -> (r: String)
    ensures
        r@ == stream_of(*selector),
{
    match selector {
        StreamSelector::SessionsByCwd { stream, .. } => stream.clone(),
        StreamSelector::Session { stream, .. } => stream.clone(),
        StreamSelector::BackgroundTask { item } => {
            let mut stream = "task:".to_owned();
            stream.append(item.as_str());
            stream
        },
    }
}

/// What matters of a notification: its session, whether it changes the list of
/// sessions, and the directory that it is about.
#[derive(Debug)]
pub struct NotificationFacts {
    pub session: Option<SessionId>,
    pub changes_list: bool,
    pub cwd: Option<Vec<Component>>,
}

/// Whether a notification belongs to what a selector names.
pub open spec fn selects(selector: StreamSelector, facts: NotificationFacts) -> bool {
    match selector {
        StreamSelector::Session { session, .. } => facts.session == Some(session),
        StreamSelector::SessionsByCwd { cwd, .. } => facts.changes_list && facts.cwd is Some
            && parts(facts.cwd->0@) == parts(cwd@),
        StreamSelector::BackgroundTask { .. } => false,
    }
}

fn is_selected(selector: &StreamSelector, facts: &NotificationFacts) -> (r: bool)
    ensures
        r == selects(*selector, *facts),
{
    match selector {
        StreamSelector::Session { session, .. } => match facts.session {
            Some(about) => about == *session,
            None => false,
        },
        StreamSelector::SessionsByCwd { cwd, .. } => match &facts.cwd {
            Some(about) => facts.changes_list && same_path(about, cwd),
            None => false,
        },
        StreamSelector::BackgroundTask { .. } => false,
    }
}

/// Whether a notification belongs to anything that is subscribed to.
pub fn notification_matches_selectors(
    selectors: &Vec<StreamSelector>,
    facts: &NotificationFacts,
) -> (r: bool)
    ensures
        r == exists|i: int| 0 <= i < selectors@.len() && selects(#[trigger] selectors@[i], *facts),
{
    let mut i: usize = 0;
    while i < selectors.len()
        invariant
            i <= selectors@.len(),
            forall|j: int| 0 <= j < i ==> !selects(#[trigger] selectors@[j], *facts),
        decreases selectors@.len() - i,
    {
        if is_selected(&selectors[i], facts) {
            assert(selects(selectors@[i as int], *facts));
            return true;
        }
        i = i + 1;
    }
    false
}

/// Whether a session is among what is subscribed to.
pub fn subscribes_to_session(selectors: &Vec<StreamSelector>, session: SessionId) -> (r: bool)
    ensures
        r == exists|i: int|
            0 <= i < selectors@.len() && (#[trigger] selectors@[i]) is Session
                && selectors@[i]->session == session,
{
    let mut i: usize = 0;
    while i < selectors.len()
        invariant
            i <= selectors@.len(),
            forall|j: int|
                0 <= j < i ==> !((#[trigger] selectors@[j]) is Session && selectors@[j]->session
                    == session),
        decreases selectors@.len() - i,
    {
        if let StreamSelector::Session { session: about, .. } = &selectors[i] {
            if *about == session {
                assert(selectors@[i as int] is Session);
                return true;
            }
        }
        i = i + 1;
    }
    false
}

/// A place in a stream.
#[derive(Debug)]
pub struct EventCursor {
    pub stream: String,
    pub seq: u64,
}

/// The place in a stream, or the start where there is none.
pub open spec fn seq_for(cursors: Seq<EventCursor>, stream: Seq<char>) -> u64
    decreases cursors.len(),
{
    if cursors.len() == 0 {
        0
    } else if cursors[0].stream@ == stream {
        cursors[0].seq
    } else {
        seq_for(cursors.skip(1), stream)
    }
}

proof fn lemma_seq_for(cursors: Seq<EventCursor>, stream: Seq<char>, n: int)
    requires
        0 <= n <= cursors.len(),
        forall|i: int| 0 <= i < n ==> (#[trigger] cursors[i]).stream@ != stream,
        n == cursors.len() || cursors[n].stream@ == stream,
    ensures
        seq_for(cursors, stream) == if n == cursors.len() {
            0
        } else {
            cursors[n].seq
        },
    decreases n,
{
    if n > 0 {
        let rest = cursors.skip(1);
        assert forall|i: int| 0 <= i < n - 1 implies (#[trigger] rest[i]).stream@ != stream by {
            assert(rest[i] == cursors[i + 1]);
        }
        if n < cursors.len() {
            assert(rest[n - 1] == cursors[n]);
        }
        lemma_seq_for(rest, stream, n - 1);
        assert(cursors[0].stream@ != stream);
    }
}

fn cursor_place(cursors: &Vec<EventCursor>, stream: &str) -> (r: usize)
    ensures
        r <= cursors@.len(),
        forall|i: int| 0 <= i < r ==> (#[trigger] cursors@[i]).stream@ != stream@,
        r < cursors@.len() ==> cursors@[r as int].stream@ == stream@,
{
    let mut i: usize = 0;
    while i < cursors.len() && !text_equal(cursors[i].stream.as_str(), stream)
        invariant
            i <= cursors@.len(),
            forall|j: int| 0 <= j < i ==> (#[trigger] cursors@[j]).stream@ != stream@,
        decreases cursors@.len() - i,
    {
        i = i + 1;
    }
    i
}

/// The place in a stream, or the start where there is none.
pub fn find_seq(cursors: &Vec<EventCursor>, stream: &str) -> (r: u64)
    ensures
        r == seq_for(cursors@, stream@),
{
    let place = cursor_place(cursors, stream);
    proof {
        lemma_seq_for(cursors@, stream@, place as int);
    }
    if place < cursors.len() {
        cursors[place].seq
    } else {
        0
    }
}

fn note_seq(cursors: &mut Vec<EventCursor>, stream: String, seq: u64)
    ensures
        forall|other: Seq<char>| #[trigger]
            seq_for(final(cursors)@, other) == if other == stream@ {
                seq
            } else {
                seq_for(old(cursors)@, other)
            },
{
    let ghost before = cursors@;
    let ghost name = stream@;
    let place = cursor_place(cursors, stream.as_str());
    if place < cursors.len() {
        cursors.set(place, EventCursor { stream, seq });
    } else {
        cursors.push(EventCursor { stream, seq });
    }
    proof {
        let after = cursors@;
        assert forall|other: Seq<char>| #[trigger]
            seq_for(after, other) == if other == name {
                seq
            } else {
                seq_for(before, other)
            } by {
            if other == name {
                assert forall|i: int| 0 <= i < place implies (#[trigger] after[i]).stream@ != name by {
                    assert(after[i] == before[i]);
                }
                lemma_seq_for(after, name, place as int);
            } else {
                let n = first_place(before, other);
                lemma_first_place(before, other);
                lemma_seq_for(before, other, n);
                assert forall|i: int| 0 <= i < n implies (#[trigger] after[i]).stream@ != other by {
                    if i != place {
                        assert(after[i] == before[i]);
                    }
                }
                if n < before.len() {
                    assert(n != place);
                    assert(after[n] == before[n]);
                    lemma_seq_for(after, other, n);
                } else {
                    assert forall|i: int| 0 <= i < after.len() implies (#[trigger] after[i]).stream@
                        != other by {
                        if i != place {
                            assert(after[i] == before[i]);
                        }
                    }
                    lemma_seq_for(after, other, after.len() as int);
                }
            }
        }
    }
}

spec fn first_place(cursors: Seq<EventCursor>, stream: Seq<char>) -> int
    decreases cursors.len(),
{
    if cursors.len() == 0 || cursors[0].stream@ == stream {
        0
    } else {
        1 + first_place(cursors.skip(1), stream)
    }
}

proof fn lemma_first_place(cursors: Seq<EventCursor>, stream: Seq<char>)
    ensures
        0 <= first_place(cursors, stream) <= cursors.len(),
        forall|i: int|
            0 <= i < first_place(cursors, stream) ==> (#[trigger] cursors[i]).stream@ != stream,
        first_place(cursors, stream) < cursors.len() ==> cursors[first_place(
            cursors,
            stream,
        )].stream@ == stream,
    decreases cursors.len(),
{
    if cursors.len() > 0 && cursors[0].stream@ != stream {
        let rest = cursors.skip(1);
        lemma_first_place(rest, stream);
        assert forall|i: int| 0 <= i < first_place(cursors, stream) implies (
        #[trigger] cursors[i]).stream@ != stream by {
            if i > 0 {
                assert(rest[i - 1] == cursors[i]);
            }
        }
    }
}

/// Why a request about a subscription is refused.
#[derive(Debug)]
pub enum SubscriptionRefusal {
    /// The connection has no such subscription.
    Unknown,
    /// The connection is not there.
    NotRegistered,
    /// The stream is not part of the subscription.
    NotPart(String),
    /// The place is not between what was acknowledged and the barrier.
    Outside { stream: String, seq: u64, acked: u64, barrier: u64 },
    /// The place is behind the barrier.
    Past { stream: String, seq: u64, barrier: u64 },
    /// Something could not be read: the message is the text and the error.
    Failed(&'static str, String),
}

/// What a refusal says.
pub enum RefusalModel {
    Unknown,
    NotRegistered,
    NotPart(Seq<char>),
    Outside { stream: Seq<char>, seq: u64, acked: u64, barrier: u64 },
    Past { stream: Seq<char>, seq: u64, barrier: u64 },
    Failed(Seq<char>, Seq<char>),
}

impl View for SubscriptionRefusal {
    type V = RefusalModel;

    open spec fn view(&self) -> RefusalModel {
        match *self {
            SubscriptionRefusal::Unknown => RefusalModel::Unknown,
            SubscriptionRefusal::NotRegistered => RefusalModel::NotRegistered,
            SubscriptionRefusal::NotPart(stream) => RefusalModel::NotPart(stream@),
            SubscriptionRefusal::Outside { stream, seq, acked, barrier } => RefusalModel::Outside {
                stream: stream@,
                seq,
                acked,
                barrier,
            },
            SubscriptionRefusal::Past { stream, seq, barrier } => RefusalModel::Past {
                stream: stream@,
                seq,
                barrier,
            },
            SubscriptionRefusal::Failed(text, error) => RefusalModel::Failed(text@, error@),
        }
    }
}

impl RefusalModel {
    /// The code a client sees.
    pub open spec fn code(self) -> ErrorCode {
        match self {
            RefusalModel::Unknown => ErrorCode::InvalidParams,
            RefusalModel::NotRegistered => ErrorCode::NotInitialized,
            RefusalModel::NotPart(_)
            | RefusalModel::Outside { .. }
            | RefusalModel::Past { .. } => ErrorCode::CursorExpired,
            RefusalModel::Failed(_, _) => ErrorCode::InternalError,
        }
    }

    /// Whether the client has to take a new snapshot before it goes on.
    pub open spec fn requires_snapshot(self) -> bool {
        self.code() == ErrorCode::CursorExpired
    }

    /// The message a client sees.
    pub open spec fn message(self) -> Seq<char> {
        match self {
            RefusalModel::Unknown => "unknown subscription id"@,
            RefusalModel::NotRegistered => "connection is not registered"@,
            RefusalModel::NotPart(stream) => "stream "@ + stream
                + " is not part of the subscription"@,
            RefusalModel::Outside { stream, seq, acked, barrier } => "cursor "@ + decimal(
                seq as nat,
            ) + " for stream "@ + stream + " is outside (acked "@ + decimal(acked as nat)
                + ", barrier "@ + decimal(barrier as nat) + "]"@,
            RefusalModel::Past { stream, seq, barrier } => "cursor "@ + decimal(seq as nat)
                + " for stream "@ + stream + " is past the log barrier "@ + decimal(barrier as nat),
            RefusalModel::Failed(text, error) => text + error,
        }
    }
}

impl SubscriptionRefusal {
    /// The code a client sees. An expired place means that the client has to
    /// take a new snapshot.
    pub fn code(&self) -> (r: ErrorCode)
        ensures
            r == self@.code(),
    {
        match self {
            SubscriptionRefusal::Unknown => ErrorCode::InvalidParams,
            SubscriptionRefusal::NotRegistered => ErrorCode::NotInitialized,
            SubscriptionRefusal::NotPart(_)
            | SubscriptionRefusal::Outside { .. }
            | SubscriptionRefusal::Past { .. } => ErrorCode::CursorExpired,
            SubscriptionRefusal::Failed(_, _) => ErrorCode::InternalError,
        }
    }

    /// Whether the client has to take a new snapshot before it goes on: exactly
    /// where its place has expired.
    pub fn requires_snapshot(&self) -> (r: bool)
        ensures
            r == self@.requires_snapshot(),
            r == (self@.code() == ErrorCode::CursorExpired),
    {
        match self {
            SubscriptionRefusal::NotPart(_)
            | SubscriptionRefusal::Outside { .. }
            | SubscriptionRefusal::Past { .. } => true,
            SubscriptionRefusal::Unknown
            | SubscriptionRefusal::NotRegistered
            | SubscriptionRefusal::Failed(_, _) => false,
        }
    }

    /// The message a client sees.
    pub fn message(&self) -> (r: String)
        ensures
            r@ == self@.message(),
    {
        match self {
            SubscriptionRefusal::Unknown => "unknown subscription id".to_owned(),
            SubscriptionRefusal::NotRegistered => "connection is not registered".to_owned(),
            SubscriptionRefusal::NotPart(stream) => {
                let mut message = "stream ".to_owned();
                message.append(stream.as_str());
                message.append(" is not part of the subscription");
                message
            },
            SubscriptionRefusal::Outside { stream, seq, acked, barrier } => {
                let mut message = "cursor ".to_owned();
                message.append(decimal_text(*seq).as_str());
                message.append(" for stream ");
                message.append(stream.as_str());
                message.append(" is outside (acked ");
                message.append(decimal_text(*acked).as_str());
                message.append(", barrier ");
                message.append(decimal_text(*barrier).as_str());
                message.append("]");
                message
            },
            SubscriptionRefusal::Past { stream, seq, barrier } => {
                let mut message = "cursor ".to_owned();
                message.append(decimal_text(*seq).as_str());
                message.append(" for stream ");
                message.append(stream.as_str());
                message.append(" is past the log barrier ");
                message.append(decimal_text(*barrier).as_str());
                message
            },
            SubscriptionRefusal::Failed(text, error) => {
                let mut message = (*text).to_owned();
                message.append(error.as_str());
                message
            },
        }
    }
}

/// A stored event: its number, and what is wrong with it where it cannot be
/// read.
#[derive(Debug)]
pub struct StoredEvent {
    pub seq: u64,
    pub fault: Option<String>,
}

/// What was read of a stream: its last number, and the events behind the place
/// that the client has reached.
#[derive(Debug)]
pub struct StreamRead {
    pub barrier: Result<Option<u64>, String>,
    pub rows: Result<Vec<StoredEvent>, String>,
}

/// An event that is sent again: of which selector, which of the events that
/// were read, and with which number.
#[derive(Clone, Copy, Debug, PartialEq, Eq, Structural)]
pub struct ReplayedEvent {
    pub selector: usize,
    pub row: usize,
    pub seq: u64,
}

/// What a client gets when it subscribes: events that it missed, and where
/// each stream stands.
#[derive(Debug)]
pub struct Prepared {
    pub replay: Vec<ReplayedEvent>,
    pub cursors: Vec<EventCursor>,
}

/// The last number of a stream; one without events has none.
pub open spec fn barrier_value(barrier: Option<u64>) -> u64 {
    match barrier {
        Some(barrier) => barrier,
        None => 0,
    }
}

/// The first event that cannot be read.
pub open spec fn first_fault(rows: Seq<StoredEvent>) -> Option<Seq<char>>
    decreases rows.len(),
{
    if rows.len() == 0 {
        None
    } else {
        match first_fault(rows.drop_last()) {
            Some(fault) => Some(fault),
            None => opt_view(rows.last().fault),
        }
    }
}

/// The events of a stream that are sent again, with their own numbers.
pub open spec fn replay_of(selector: usize, rows: Seq<StoredEvent>) -> Seq<ReplayedEvent> {
    Seq::new(
        rows.len(),
        |i: int| ReplayedEvent { selector, row: i as usize, seq: rows[i].seq },
    )
}

/// Why a stream cannot be subscribed to, if it cannot.
pub open spec fn stream_fault(
    selector: StreamSelector,
    after: Seq<EventCursor>,
    read: StreamRead,
) -> Option<RefusalModel> {
    let stream = stream_of(selector);
    let reached = seq_for(after, stream);
    match read.barrier {
        Err(error) => Some(RefusalModel::Failed("failed to read stream barrier: "@, error@)),
        Ok(barrier) => if reached > barrier_value(barrier) {
            Some(
                RefusalModel::Past { stream, seq: reached, barrier: barrier_value(barrier) },
            )
        } else {
            match read.rows {
                Err(error) => Some(RefusalModel::Failed("failed to read event log: "@, error@)),
                Ok(rows) => match first_fault(rows@) {
                    Some(error) => Some(
                        RefusalModel::Failed("failed to decode stored event: "@, error),
                    ),
                    None => None,
                },
            }
        },
    }
}

/// What a client gets for the first `n` selectors.
pub open spec fn prepared_for(
    selectors: Seq<StreamSelector>,
    after: Seq<EventCursor>,
    reads: Seq<StreamRead>,
    n: nat,
) -> Result<(Seq<ReplayedEvent>, Seq<(Seq<char>, u64)>), RefusalModel>
    decreases n,
{
    if n == 0 {
        Ok((Seq::empty(), Seq::empty()))
    } else {
        match prepared_for(selectors, after, reads, (n - 1) as nat) {
            Err(fault) => Err(fault),
            Ok((replay, cursors)) => {
                let selector = selectors[n - 1];
                let read = reads[n - 1];
                match stream_fault(selector, after, read) {
                    Some(fault) => Err(fault),
                    None => Ok(
                        (
                            replay + replay_of((n - 1) as usize, read.rows->Ok_0@),
                            cursors.push(
                                (stream_of(selector), barrier_value(read.barrier->Ok_0)),
                            ),
                        ),
                    ),
                }
            },
        }
    }
}

/// What cursors say.
pub open spec fn cursors_view(cursors: Seq<EventCursor>) -> Seq<(Seq<char>, u64)> {
    cursors.map_values(|cursor: EventCursor| (cursor.stream@, cursor.seq))
}

fn find_fault(rows: &Vec<StoredEvent>) -> (r: Option<String>)
    ensures
        opt_view(r) == first_fault(rows@),
{
    let mut i: usize = 0;
    assert(rows@.take(0) =~= Seq::empty());
    while i < rows.len()
        invariant
            i <= rows@.len(),
            first_fault(rows@.take(i as int)) is None,
        decreases rows@.len() - i,
    {
        assert(rows@.take(i + 1).drop_last() =~= rows@.take(i as int));
        assert(rows@.take(i + 1).last() == rows@[i as int]);
        if let Some(fault) = &rows[i].fault {
            proof {
                lemma_fault_stays(rows@, i + 1);
            }
            return Some(fault.clone());
        }
        i = i + 1;
    }
    assert(rows@.take(rows@.len() as int) =~= rows@);
    None
}

proof fn lemma_fault_stays(rows: Seq<StoredEvent>, i: int)
    requires
        0 <= i <= rows.len(),
        first_fault(rows.take(i)) is Some,
    ensures
        first_fault(rows) == first_fault(rows.take(i)),
    decreases rows.len() - i,
{
    if i < rows.len() {
        assert(rows.take(i + 1).drop_last() =~= rows.take(i));
        lemma_fault_stays(rows, i + 1);
    } else {
        assert(rows.take(i) =~= rows);
    }
}

fn check_stream(selector: &StreamSelector, after: &Vec<EventCursor>, read: &StreamRead) -> (r: Option<
    SubscriptionRefusal,
>)
    ensures
        match (r, stream_fault(*selector, after@, *read)) {
            (Some(why), Some(fault)) => why@ == fault,
            (None, None) => true,
            _ => false,
        },
{
    let stream = selector_stream_id(selector);
    let reached = find_seq(after, stream.as_str());
    let barrier: u64 = match &read.barrier {
        Err(error) => {
            return Some(
                SubscriptionRefusal::Failed("failed to read stream barrier: ", error.clone()),
            );
        },
        Ok(Some(barrier)) => *barrier,
        Ok(None) => 0,
    };
    if reached > barrier {
        return Some(SubscriptionRefusal::Past { stream, seq: reached, barrier });
    }
    match &read.rows {
        Err(error) => Some(
            SubscriptionRefusal::Failed("failed to read event log: ", error.clone()),
        ),
        Ok(rows) => match find_fault(rows) {
            Some(error) => Some(
                SubscriptionRefusal::Failed("failed to decode stored event: ", error),
            ),
            None => None,
        },
    }
}

fn add_replay(replay: &mut Vec<ReplayedEvent>, selector: usize, rows: &Vec<StoredEvent>)
    ensures
        final(replay)@ == old(replay)@ + replay_of(selector, rows@),
{
    let ghost before = replay@;
    let ghost all = replay_of(selector, rows@);
    let mut i: usize = 0;
    assert(replay@ =~= before + all.take(0));
    while i < rows.len()
        invariant
            i <= rows@.len(),
            all == replay_of(selector, rows@),
            replay@ == before + all.take(i as int),
        decreases rows@.len() - i,
    {
        replay.push(ReplayedEvent { selector, row: i, seq: rows[i].seq });
        assert(all.take(i + 1) =~= all.take(i as int).push(all[i as int]));
        i = i + 1;
        assert(replay@ =~= before + all.take(i as int));
    }
    assert(all.take(rows@.len() as int) =~= all);
}

proof fn lemma_prepare_fails(
    selectors: Seq<StreamSelector>,
    after: Seq<EventCursor>,
    reads: Seq<StreamRead>,
    n: nat,
    m: nat,
)
    requires
        n <= m,
        prepared_for(selectors, after, reads, n) is Err,
    ensures
        prepared_for(selectors, after, reads, m) == prepared_for(selectors, after, reads, n),
    decreases m,
{
    if n < m {
        lemma_prepare_fails(selectors, after, reads, n, (m - 1) as nat);
    }
}

/// Works out what a client gets when it subscribes: the events behind the
/// places that it has reached, and the barriers. A place behind the barrier
/// means that the log is not the one that the client knows.
pub fn prepare_subscription(
    selectors: &Vec<StreamSelector>,
    after: &Vec<EventCursor>,
    reads: &Vec<StreamRead>,
) -> (r: Result<Prepared, SubscriptionRefusal>)
    requires
        reads@.len() == selectors@.len(),
    ensures
        match (r, prepared_for(selectors@, after@, reads@, selectors@.len())) {
            (Ok(prepared), Ok((replay, cursors))) => {
                &&& prepared.replay@ == replay
                &&& cursors_view(prepared.cursors@) == cursors
            },
            (Err(why), Err(fault)) => why@ == fault,
            _ => false,
        },
{
    let mut replay: Vec<ReplayedEvent> = Vec::new();
    let mut cursors: Vec<EventCursor> = Vec::new();
    let mut i: usize = 0;
    assert(cursors_view(cursors@) =~= Seq::empty());
    while i < selectors.len()
        invariant
            i <= selectors@.len(),
            reads@.len() == selectors@.len(),
            prepared_for(selectors@, after@, reads@, i as nat) == Ok::<
                (Seq<ReplayedEvent>, Seq<(Seq<char>, u64)>),
                RefusalModel,
            >((replay@, cursors_view(cursors@))),
        decreases selectors@.len() - i,
    {
        let selector = &selectors[i];
        let read = &reads[i];
        let ghost before = cursors@;
        if let Some(why) = check_stream(selector, after, read) {
            proof {
                lemma_prepare_fails(
                    selectors@,
                    after@,
                    reads@,
                    (i + 1) as nat,
                    selectors@.len(),
                );
            }
            return Err(why);
        }
        let barrier: u64 = match &read.barrier {
            Ok(Some(barrier)) => *barrier,
            _ => 0,
        };
        if let Ok(rows) = &read.rows {
            add_replay(&mut replay, i, rows);
        }
        let cursor = EventCursor { stream: selector_stream_id(selector), seq: barrier };
        assert(cursors_view(before.push(cursor)) =~= cursors_view(before).push(
            (cursor.stream@, cursor.seq),
        ));
        cursors.push(cursor);
        i = i + 1;
    }
    Ok(Prepared { replay, cursors })
}

/// One subscription of a connection: what it is to, how far each stream was
/// acknowledged, and when.
#[derive(Debug)]
pub struct EventSubscription {
    pub id: u128,
    pub connection: u64,
    pub selectors: Vec<StreamSelector>,
    pub acked: Vec<EventCursor>,
    pub last_ack_at: Option<i64>,
}

/// Whether a stream is part of a subscription.
pub open spec fn subscribes(selectors: Seq<StreamSelector>, stream: Seq<char>) -> bool {
    exists|i: int| 0 <= i < selectors.len() && stream_of(#[trigger] selectors[i]) == stream
}

fn has_stream(selectors: &Vec<StreamSelector>, stream: &str) -> (r: bool)
    ensures
        r == subscribes(selectors@, stream@),
{
    let mut i: usize = 0;
    while i < selectors.len()
        invariant
            i <= selectors@.len(),
            forall|j: int| 0 <= j < i ==> stream_of(#[trigger] selectors@[j]) != stream@,
        decreases selectors@.len() - i,
    {
        if text_equal(selector_stream_id(&selectors[i]).as_str(), stream) {
            assert(stream_of(selectors@[i as int]) == stream@);
            return true;
        }
        i = i + 1;
    }
    false
}

/// Why a place cannot be acknowledged where `acked` was before, if it cannot.
pub open spec fn ack_fault(
    selectors: Seq<StreamSelector>,
    acked: u64,
    cursor: EventCursor,
    barrier: Result<Option<u64>, String>,
) -> Option<RefusalModel> {
    if !subscribes(selectors, cursor.stream@) {
        Some(RefusalModel::NotPart(cursor.stream@))
    } else {
        match barrier {
            Err(error) => Some(RefusalModel::Failed("failed to read stream barrier: "@, error@)),
            Ok(barrier) => if cursor.seq < acked || cursor.seq > barrier_value(barrier) {
                Some(
                    RefusalModel::Outside {
                        stream: cursor.stream@,
                        seq: cursor.seq,
                        acked,
                        barrier: barrier_value(barrier),
                    },
                )
            } else {
                None
            },
        }
    }
}

/// How far each stream is acknowledged after the first `n` places, and why the
/// next one was refused. What came before a refused place stays acknowledged.
pub open spec fn acked_after(
    selectors: Seq<StreamSelector>,
    acked: spec_fn(Seq<char>) -> u64,
    cursors: Seq<EventCursor>,
    barriers: Seq<Result<Option<u64>, String>>,
    n: nat,
) -> (spec_fn(Seq<char>) -> u64, Option<RefusalModel>)
    decreases n,
{
    if n == 0 {
        (acked, None)
    } else {
        let (before, fault) = acked_after(selectors, acked, cursors, barriers, (n - 1) as nat);
        let cursor = cursors[n - 1];
        if fault is Some {
            (before, fault)
        } else {
            match ack_fault(selectors, before(cursor.stream@), cursor, barriers[n - 1]) {
                Some(fault) => (before, Some(fault)),
                None => (
                    |stream: Seq<char>|
                        if stream == cursor.stream@ {
                            cursor.seq
                        } else {
                            before(stream)
                        },
                    None,
                ),
            }
        }
    }
}

/// How far the streams of a subscription are acknowledged.
pub open spec fn ack_table(acked: Seq<EventCursor>) -> spec_fn(Seq<char>) -> u64 {
    |stream: Seq<char>| seq_for(acked, stream)
}

fn check_ack(
    selectors: &Vec<StreamSelector>,
    acked: u64,
    cursor: &EventCursor,
    barrier: &Result<Option<u64>, String>,
) -> (r: Option<SubscriptionRefusal>)
    ensures
        match (r, ack_fault(selectors@, acked, *cursor, *barrier)) {
            (Some(why), Some(fault)) => why@ == fault,
            (None, None) => true,
            _ => false,
        },
{
    if !has_stream(selectors, cursor.stream.as_str()) {
        return Some(SubscriptionRefusal::NotPart(cursor.stream.clone()));
    }
    let barrier: u64 = match barrier {
        Err(error) => {
            return Some(
                SubscriptionRefusal::Failed("failed to read stream barrier: ", error.clone()),
            );
        },
        Ok(Some(barrier)) => *barrier,
        Ok(None) => 0,
    };
    if cursor.seq < acked || cursor.seq > barrier {
        return Some(
            SubscriptionRefusal::Outside {
                stream: cursor.stream.clone(),
                seq: cursor.seq,
                acked,
                barrier,
            },
        );
    }
    None
}

proof fn lemma_ack_fault_stays(
    selectors: Seq<StreamSelector>,
    acked: spec_fn(Seq<char>) -> u64,
    cursors: Seq<EventCursor>,
    barriers: Seq<Result<Option<u64>, String>>,
    n: nat,
    m: nat,
)
    requires
        n <= m,
        acked_after(selectors, acked, cursors, barriers, n).1 is Some,
    ensures
        acked_after(selectors, acked, cursors, barriers, m) == acked_after(
            selectors,
            acked,
            cursors,
            barriers,
            n,
        ),
    decreases m,
{
    if n < m {
        lemma_ack_fault_stays(selectors, acked, cursors, barriers, n, (m - 1) as nat);
    }
}

impl EventSubscription {
    /// Acknowledges places, one after the other, up to the first that cannot
    /// be. `barriers` says where each of their streams ends.
    pub fn acknowledge(
        &mut self,
        cursors: &Vec<EventCursor>,
        barriers: &Vec<Result<Option<u64>, String>>,
        now: i64,
    ) -> (r: Option<SubscriptionRefusal>)
        requires
            cursors@.len() == barriers@.len(),
        ensures
            ({
                let (table, fault) = acked_after(
                    old(self).selectors@,
                    ack_table(old(self).acked@),
                    cursors@,
                    barriers@,
                    cursors@.len(),
                );
                &&& forall|stream: Seq<char>| #[trigger]
                    seq_for(final(self).acked@, stream) == table(stream)
                &&& match (r, fault) {
                    (Some(why), Some(fault)) => why@ == fault && final(self).last_ack_at == old(
                        self,
                    ).last_ack_at,
                    (None, None) => final(self).last_ack_at == Some(now),
                    _ => false,
                }
            }),
            final(self).id == old(self).id,
            final(self).connection == old(self).connection,
            final(self).selectors == old(self).selectors,
    {
        let ghost table = ack_table(self.acked@);
        let ghost before = *self;
        let mut i: usize = 0;
        while i < cursors.len()
            invariant
                i <= cursors@.len(),
                cursors@.len() == barriers@.len(),
                before == *old(self),
                table == ack_table(before.acked@),
                self.id == before.id,
                self.connection == before.connection,
                self.selectors == before.selectors,
                self.last_ack_at == before.last_ack_at,
                acked_after(before.selectors@, table, cursors@, barriers@, i as nat).1 is None,
                forall|stream: Seq<char>| #[trigger]
                    seq_for(self.acked@, stream) == (acked_after(
                        before.selectors@,
                        table,
                        cursors@,
                        barriers@,
                        i as nat,
                    ).0)(stream),
            decreases cursors@.len() - i,
        {
            let cursor = &cursors[i];
            let acked = find_seq(&self.acked, cursor.stream.as_str());
            if let Some(why) = check_ack(&self.selectors, acked, cursor, &barriers[i]) {
                proof {
                    lemma_ack_fault_stays(
                        before.selectors@,
                        table,
                        cursors@,
                        barriers@,
                        (i + 1) as nat,
                        cursors@.len(),
                    );
                }
                return Some(why);
            }
            note_seq(&mut self.acked, cursor.stream.clone(), cursor.seq);
            i = i + 1;
        }
        self.last_ack_at = Some(now);
        None
    }
}

/// A place that is not part of the subscription, that lies before what was
/// acknowledged or behind what is logged, is refused, and the client has to
/// take a new snapshot.
pub proof fn law_expired_places_require_a_snapshot(
    selectors: Seq<StreamSelector>,
    acked: u64,
    cursor: EventCursor,
    barrier: Option<u64>,
)
    ensures
        ({
            let fault = ack_fault(selectors, acked, cursor, Ok(barrier));
            &&& fault is Some <==> !subscribes(selectors, cursor.stream@) || cursor.seq < acked
                || cursor.seq > barrier_value(barrier)
            &&& fault is Some ==> fault->0.requires_snapshot() && fault->0.code()
                == ErrorCode::CursorExpired
        }),
{
}

/// Acknowledging never takes anything back, whether or not it is refused in the
/// end.
pub proof fn law_acknowledgements_only_grow(
    selectors: Seq<StreamSelector>,
    acked: spec_fn(Seq<char>) -> u64,
    cursors: Seq<EventCursor>,
    barriers: Seq<Result<Option<u64>, String>>,
    n: nat,
    stream: Seq<char>,
)
    ensures
        (acked_after(selectors, acked, cursors, barriers, n).0)(stream) >= acked(stream),
    decreases n,
{
    if n > 0 {
        law_acknowledgements_only_grow(
            selectors,
            acked,
            cursors,
            barriers,
            (n - 1) as nat,
            stream,
        );
    }
}

/// All subscriptions.
#[derive(Debug)]
pub struct SubscriptionRegistry {
    subscriptions: Vec<EventSubscription>,
}

/// The answer to a subscription that the connection does not have.
pub open spec fn unknown_subscription() -> Rejection {
    rejection(ErrorCode::InvalidParams, "unknown subscription id")
}

/// What the selectors of the subscriptions of a connection say, one
/// subscription after the other.
pub open spec fn selectors_of(subscriptions: Seq<EventSubscription>, connection: u64) -> Seq<
    SelectorModel,
>
    decreases subscriptions.len(),
{
    if subscriptions.len() == 0 {
        Seq::empty()
    } else {
        let before = selectors_of(subscriptions.drop_last(), connection);
        if subscriptions.last().connection == connection {
            before + selectors_view(subscriptions.last().selectors@)
        } else {
            before
        }
    }
}

/// Whether a selector is one for a list of sessions.
pub open spec fn is_list_selector(selector: StreamSelector) -> bool {
    selector is SessionsByCwd
}

/// How many selectors of a subscription are for lists of sessions.
pub open spec fn list_selectors_in(selectors: Seq<StreamSelector>) -> nat {
    selectors.filter(|selector: StreamSelector| is_list_selector(selector)).len()
}

/// How many selectors of all subscriptions are for lists of sessions.
pub open spec fn list_selectors(subscriptions: Seq<EventSubscription>) -> nat
    decreases subscriptions.len(),
{
    if subscriptions.len() == 0 {
        0
    } else {
        list_selectors(subscriptions.drop_last()) + list_selectors_in(
            subscriptions.last().selectors@,
        )
    }
}

/// Whether the subscription `id` stands at `i`.
pub open spec fn stands_at(subscriptions: Seq<EventSubscription>, id: u128, i: int) -> bool {
    0 <= i < subscriptions.len() && subscriptions[i].id == id
}

/// Whether `left` are the subscriptions without `id`, where it is among them.
pub open spec fn is_without(
    subscriptions: Seq<EventSubscription>,
    id: u128,
    left: Seq<EventSubscription>,
) -> bool {
    if exists|i: int| stands_at(subscriptions, id, i) {
        exists|i: int| #[trigger]
            stands_at(subscriptions, id, i) && left == subscriptions.remove(i)
    } else {
        left == subscriptions
    }
}

impl SubscriptionRegistry {
    /// The subscriptions.
    pub closed spec fn all(self) -> Seq<EventSubscription> {
        self.subscriptions@
    }

    /// Whether the subscription `id` stands at `i`.
    pub open spec fn holds(self, id: u128, i: int) -> bool {
        0 <= i < self.all().len() && self.all()[i].id == id
    }

    /// Whether no two subscriptions have one identifier.
    pub open spec fn well_formed(self) -> bool {
        forall|i: int, j: int|
            0 <= i < j < self.all().len() ==> (#[trigger] self.all()[i]).id != (
            #[trigger] self.all()[j]).id
    }

    /// Whether the connection has the subscription `id`.
    pub open spec fn owns(self, id: u128, connection: u64) -> bool {
        exists|i: int| #[trigger] self.holds(id, i) && self.all()[i].connection == connection
    }

    /// No subscriptions.
    pub fn new() -> (r: SubscriptionRegistry)
        ensures
            r.well_formed(),
            r.all().len() == 0,
    {
        SubscriptionRegistry { subscriptions: Vec::new() }
    }

    fn find(&self, id: u128) -> (r: Option<usize>)
        ensures
            match r {
                Some(i) => self.holds(id, i as int),
                None => forall|i: int| !self.holds(id, i),
            },
    {
        let mut i: usize = 0;
        while i < self.subscriptions.len()
            invariant
                i <= self.subscriptions@.len(),
                forall|j: int| 0 <= j < i ==> !self.holds(id, j),
            decreases self.subscriptions@.len() - i,
        {
            if self.subscriptions[i].id == id {
                return Some(i);
            }
            i = i + 1;
        }
        None
    }

    fn find_owned(&self, id: u128, connection: u64) -> (r: Option<usize>)
        requires
            self.well_formed(),
        ensures
            match r {
                Some(i) => self.holds(id, i as int) && self.all()[i as int].connection
                    == connection,
                None => !self.owns(id, connection),
            },
    {
        match self.find(id) {
            Some(i) => {
                if self.subscriptions[i].connection == connection {
                    Some(i)
                } else {
                    proof {
                        if self.owns(id, connection) {
                            let k = choose|k: int| #[trigger]
                                self.holds(id, k) && self.all()[k].connection == connection;
                            assert(self.holds(id, i as int));
                            assert(k == i);
                        }
                    }
                    None
                }
            },
            None => None,
        }
    }

    fn forget(&mut self, id: u128)
        requires
            old(self).well_formed(),
        ensures
            final(self).well_formed(),
            forall|i: int| !final(self).holds(id, i),
            is_without(old(self).all(), id, final(self).all()),
    {
        let ghost before = *self;
        if let Some(i) = self.find(id) {
            self.subscriptions.remove(i);
            proof {
                let after = *self;
                let at = i as int;
                assert(before.holds(id, at));
                assert(after.all() =~= before.all().remove(at));
                assert forall|a: int, b: int| 0 <= a < b < after.all().len() implies (
                #[trigger] after.all()[a]).id != (#[trigger] after.all()[b]).id by {
                    let x = if a < at {
                        a
                    } else {
                        a + 1
                    };
                    let y = if b < at {
                        b
                    } else {
                        b + 1
                    };
                    assert(after.all()[a] == before.all()[x]);
                    assert(after.all()[b] == before.all()[y]);
                    assert(before.all()[x].id != before.all()[y].id);
                }
                assert forall|k: int| !after.holds(id, k) by {
                    if after.holds(id, k) {
                        let x = if k < at {
                            k
                        } else {
                            k + 1
                        };
                        assert(after.all()[k] == before.all()[x]);
                        assert(before.holds(id, x));
                        if x < at {
                            assert(before.all()[x].id != before.all()[at].id);
                        } else {
                            assert(before.all()[at].id != before.all()[x].id);
                        }
                    }
                }
                assert(stands_at(before.all(), id, at));
            }
        } else {
            proof {
                assert forall|i: int| !stands_at(before.all(), id, i) by {
                    assert(!before.holds(id, i));
                }
            }
        }
    }

    /// Notes a new subscription, in the place of one with the same identifier.
    /// Nothing of it is acknowledged.
    pub fn insert(&mut self, id: u128, connection: u64, selectors: Vec<StreamSelector>)
        requires
            old(self).well_formed(),
        ensures
            final(self).well_formed(),
            final(self).all().len() > 0,
            is_without(old(self).all(), id, final(self).all().drop_last()),
            ({
                let fresh = final(self).all().last();
                &&& fresh.id == id
                &&& fresh.connection == connection
                &&& fresh.selectors == selectors
                &&& fresh.acked@.len() == 0
                &&& fresh.last_ack_at is None
            }),
    {
        self.forget(id);
        let ghost before = *self;
        self.subscriptions.push(
            EventSubscription {
                id,
                connection,
                selectors,
                acked: Vec::new(),
                last_ack_at: None,
            },
        );
        proof {
            let after = *self;
            assert forall|i: int, j: int| 0 <= i < j < after.all().len() implies (
            #[trigger] after.all()[i]).id != (#[trigger] after.all()[j]).id by {
                if j == before.all().len() {
                    assert(!before.holds(id, i));
                }
            }
            assert(after.all().drop_last() =~= before.all());
        }
    }

    /// Whether the connection has the subscription; says what is answered
    /// where it has not.
    pub fn check_owner(&self, id: u128, connection: u64) -> (r: Option<Rejection>)
        requires
            self.well_formed(),
        ensures
            r == if self.owns(id, connection) {
                None
            } else {
                Some(unknown_subscription())
            },
    {
        match self.find_owned(id, connection) {
            Some(_) => None,
            None => Some(reject(ErrorCode::InvalidParams, "unknown subscription id")),
        }
    }

    /// Changes what a subscription is to.
    pub fn update(&mut self, id: u128, connection: u64, selectors: Vec<StreamSelector>) -> (r: Option<
        Rejection,
    >)
        requires
            old(self).well_formed(),
        ensures
            final(self).well_formed(),
            r == if old(self).owns(id, connection) {
                None
            } else {
                Some(unknown_subscription())
            },
            if r is None {
                exists|i: int| #[trigger]
                    old(self).holds(id, i) && final(self).all() == old(self).all().update(
                        i,
                        EventSubscription { selectors, ..old(self).all()[i] },
                    )
            } else {
                *final(self) == *old(self)
            },
    {
        let ghost before = *self;
        match self.find_owned(id, connection) {
            Some(i) => {
                self.subscriptions[i].selectors = selectors;
                proof {
                    let after = *self;
                    assert(before.holds(id, i as int));
                    assert(after.all() =~= before.all().update(
                        i as int,
                        EventSubscription { selectors, ..before.all()[i as int] },
                    ));
                    assert forall|a: int, b: int| 0 <= a < b < after.all().len() implies (
                    #[trigger] after.all()[a]).id != (#[trigger] after.all()[b]).id by {
                        assert(before.all()[a].id != before.all()[b].id);
                    }
                }
                None
            },
            None => Some(reject(ErrorCode::InvalidParams, "unknown subscription id")),
        }
    }

    /// Answers a client that wants to subscribe to other streams from now on.
    /// They are swapped only where all of them can be subscribed to.
    pub fn resubscribe(
        &mut self,
        id: u128,
        connection: u64,
        selectors: Vec<StreamSelector>,
        reads: &Vec<StreamRead>,
    ) -> (r: Result<Prepared, SubscriptionRefusal>)
        requires
            old(self).well_formed(),
            reads@.len() == selectors@.len(),
        ensures
            final(self).well_formed(),
            ({
                let wanted = prepared_for(
                    selectors@,
                    Seq::empty(),
                    reads@,
                    selectors@.len(),
                );
                match r {
                    Err(why) => {
                        &&& *final(self) == *old(self)
                        &&& if old(self).owns(id, connection) {
                            wanted == Err::<
                                (Seq<ReplayedEvent>, Seq<(Seq<char>, u64)>),
                                RefusalModel,
                            >(why@)
                        } else {
                            why@ == RefusalModel::Unknown
                        }
                    },
                    Ok(prepared) => {
                        &&& old(self).owns(id, connection)
                        &&& wanted == Ok::<
                            (Seq<ReplayedEvent>, Seq<(Seq<char>, u64)>),
                            RefusalModel,
                        >((prepared.replay@, cursors_view(prepared.cursors@)))
                        &&& exists|i: int| #[trigger]
                            old(self).holds(id, i) && final(self).all() == old(self).all().update(
                                i,
                                EventSubscription { selectors, ..old(self).all()[i] },
                            )
                    },
                }
            }),
    {
        if self.check_owner(id, connection).is_some() {
            return Err(SubscriptionRefusal::Unknown);
        }
        let after: Vec<EventCursor> = Vec::new();
        assert(after@ =~= Seq::empty());
        match prepare_subscription(&selectors, &after, reads) {
            Err(why) => Err(why),
            Ok(prepared) => {
                self.update(id, connection, selectors);
                Ok(prepared)
            },
        }
    }

    /// Acknowledges places of the streams of a subscription.
    pub fn acknowledge(
        &mut self,
        id: u128,
        connection: u64,
        cursors: &Vec<EventCursor>,
        barriers: &Vec<Result<Option<u64>, String>>,
        now: i64,
    ) -> (r: Option<SubscriptionRefusal>)
        requires
            old(self).well_formed(),
            cursors@.len() == barriers@.len(),
        ensures
            final(self).well_formed(),
            final(self).all().len() == old(self).all().len(),
            if old(self).owns(id, connection) {
                exists|i: int| #[trigger]
                    old(self).holds(id, i) && is_acknowledged(
                        old(self).all()[i],
                        cursors@,
                        barriers@,
                        now,
                        final(self).all()[i],
                        r,
                    ) && final(self).all() == old(self).all().update(i, final(self).all()[i])
            } else {
                &&& r is Some
                &&& r->0@ == RefusalModel::Unknown
                &&& *final(self) == *old(self)
            },
    {
        let ghost before = *self;
        match self.find_owned(id, connection) {
            Some(i) => {
                let r = self.subscriptions[i].acknowledge(cursors, barriers, now);
                proof {
                    let after = *self;
                    assert(before.holds(id, i as int));
                    assert(after.all() =~= before.all().update(i as int, after.all()[i as int]));
                    assert forall|a: int, b: int| 0 <= a < b < after.all().len() implies (
                    #[trigger] after.all()[a]).id != (#[trigger] after.all()[b]).id by {
                        assert(before.all()[a].id != before.all()[b].id);
                    }
                }
                r
            },
            None => Some(SubscriptionRefusal::Unknown),
        }
    }

    /// Ends the subscription `id`. It ends whoever asks; another connection
    /// than its own is still told that it has no such subscription.
    pub fn unsubscribe(&mut self, id: u128, connection: u64) -> (r: Option<Rejection>)
        requires
            old(self).well_formed(),
        ensures
            final(self).well_formed(),
            forall|i: int| !final(self).holds(id, i),
            is_without(old(self).all(), id, final(self).all()),
            r == if old(self).owns(id, connection) {
                None
            } else {
                Some(unknown_subscription())
            },
    {
        let refusal = self.check_owner(id, connection);
        self.forget(id);
        refusal
    }

    /// Ends every subscription of a connection that is gone.
    pub fn drop_connection(&mut self, connection: u64)
        requires
            old(self).well_formed(),
        ensures
            final(self).well_formed(),
            final(self).all() == old(self).all().filter(
                |subscription: EventSubscription| subscription.connection != connection,
            ),
    {
        let ghost before = self.subscriptions@;
        let ghost stays = |subscription: EventSubscription| subscription.connection != connection;
        let mut i: usize = 0;
        proof {
            reveal(Seq::filter);
            assert(before.take(0) =~= Seq::empty());
            assert(self.subscriptions@.take(0) =~= Seq::empty());
        }
        let ghost mut read: int = 0;
        while i < self.subscriptions.len()
            invariant
                stays == |subscription: EventSubscription| subscription.connection != connection,
                0 <= read <= before.len(),
                i <= self.subscriptions@.len(),
                self.subscriptions@.len() - i == before.len() - read,
                self.subscriptions@.take(i as int) == before.take(read).filter(stays),
                forall|k: int|
                    0 <= k < before.len() - read ==> #[trigger] self.subscriptions@[i + k]
                        == before[read + k],
            decreases self.subscriptions@.len() - i,
        {
            let ghost now = self.subscriptions@;
            proof {
                reveal(Seq::filter);
                assert(before.take(read + 1).drop_last() =~= before.take(read));
                assert(before.take(read + 1).last() == before[read]);
                assert(now[i + 0] == before[read + 0]);
            }
            if self.subscriptions[i].connection == connection {
                self.subscriptions.remove(i);
                proof {
                    assert(self.subscriptions@ =~= now.remove(i as int));
                    assert(self.subscriptions@.take(i as int) =~= now.take(i as int));
                    assert forall|k: int| 0 <= k < before.len() - (read + 1) implies #[trigger] self.subscriptions@[i
                        + k] == before[read + 1 + k] by {
                        assert(self.subscriptions@[i + k] == now[i + (k + 1)]);
                        assert(now[i + (k + 1)] == before[read + (k + 1)]);
                    }
                }
            } else {
                i = i + 1;
                proof {
                    assert(now.take(i as int) =~= now.take(i - 1).push(now[i - 1]));
                    assert forall|k: int| 0 <= k < before.len() - (read + 1) implies #[trigger] self.subscriptions@[i
                        + k] == before[read + 1 + k] by {
                        assert(now[(i - 1) + (k + 1)] == before[read + (k + 1)]);
                    }
                }
            }
            proof {
                read = read + 1;
            }
        }
        proof {
            assert(before.take(before.len() as int) =~= before);
            assert(self.subscriptions@.take(self.subscriptions@.len() as int)
                =~= self.subscriptions@);
            lemma_filter_keeps_distinct(before, stays);
        }
    }

    /// Everything that a connection is subscribed to.
    pub fn connection_selectors(&self, connection: u64) -> (r: Vec<StreamSelector>)
        ensures
            selectors_view(r@) == selectors_of(self.all(), connection),
    {
        let mut found: Vec<StreamSelector> = Vec::new();
        let mut i: usize = 0;
        assert(self.all().take(0) =~= Seq::empty());
        assert(selectors_view(found@) =~= Seq::empty());
        while i < self.subscriptions.len()
            invariant
                i <= self.subscriptions@.len(),
                self.all() == self.subscriptions@,
                selectors_view(found@) == selectors_of(self.all().take(i as int), connection),
            decreases self.subscriptions@.len() - i,
        {
            assert(self.all().take(i + 1).drop_last() =~= self.all().take(i as int));
            assert(self.all().take(i + 1).last() == self.all()[i as int]);
            if self.subscriptions[i].connection == connection {
                append_selectors(&mut found, &self.subscriptions[i].selectors);
            }
            i = i + 1;
        }
        assert(self.all().take(self.all().len() as int) =~= self.all());
        found
    }

    /// How many selectors are for lists of sessions, as far as the counter
    /// goes.
    pub fn cwd_selector_count(&self) -> (r: usize)
        ensures
            r == if list_selectors(self.all()) > usize::MAX {
                usize::MAX as nat
            } else {
                list_selectors(self.all())
            },
    {
        let mut count: usize = 0;
        let mut i: usize = 0;
        assert(self.all().take(0) =~= Seq::empty());
        while i < self.subscriptions.len()
            invariant
                i <= self.subscriptions@.len(),
                self.all() == self.subscriptions@,
                count == if list_selectors(self.all().take(i as int)) > usize::MAX {
                    usize::MAX as nat
                } else {
                    list_selectors(self.all().take(i as int))
                },
            decreases self.subscriptions@.len() - i,
        {
            assert(self.all().take(i + 1).drop_last() =~= self.all().take(i as int));
            assert(self.all().take(i + 1).last() == self.all()[i as int]);
            let more = count_list_selectors(&self.subscriptions[i].selectors);
            count = if more > usize::MAX - count {
                usize::MAX
            } else {
                count + more
            };
            i = i + 1;
        }
        assert(self.all().take(self.all().len() as int) =~= self.all());
        count
    }
}

/// Whether `after` and the answer are what acknowledging places of `before`
/// leads to.
pub open spec fn is_acknowledged(
    before: EventSubscription,
    cursors: Seq<EventCursor>,
    barriers: Seq<Result<Option<u64>, String>>,
    now: i64,
    after: EventSubscription,
    answer: Option<SubscriptionRefusal>,
) -> bool {
    let (table, fault) = acked_after(
        before.selectors@,
        ack_table(before.acked@),
        cursors,
        barriers,
        cursors.len(),
    );
    &&& after.id == before.id
    &&& after.connection == before.connection
    &&& after.selectors == before.selectors
    &&& forall|stream: Seq<char>| #[trigger] seq_for(after.acked@, stream) == table(stream)
    &&& match (answer, fault) {
        (Some(why), Some(fault)) => why@ == fault && after.last_ack_at == before.last_ack_at,
        (None, None) => after.last_ack_at == Some(now),
        _ => false,
    }
}

proof fn lemma_filter_keeps_distinct(
    subscriptions: Seq<EventSubscription>,
    keep: spec_fn(EventSubscription) -> bool,
)
    requires
        forall|i: int, j: int|
            0 <= i < j < subscriptions.len() ==> (#[trigger] subscriptions[i]).id != (
            #[trigger] subscriptions[j]).id,
    ensures
        ({
            let kept = subscriptions.filter(keep);
            &&& forall|i: int, j: int|
                0 <= i < j < kept.len() ==> (#[trigger] kept[i]).id != (#[trigger] kept[j]).id
            &&& forall|i: int|
                0 <= i < kept.len() ==> exists|k: int|
                    0 <= k < subscriptions.len() && #[trigger] subscriptions[k]
                        == #[trigger] kept[i]
        }),
    decreases subscriptions.len(),
{
    reveal(Seq::filter);
    if subscriptions.len() > 0 {
        let shorter = subscriptions.drop_last();
        assert forall|i: int, j: int| 0 <= i < j < shorter.len() implies (#[trigger] shorter[i]).id
            != (#[trigger] shorter[j]).id by {
            assert(subscriptions[i].id != subscriptions[j].id);
        }
        lemma_filter_keeps_distinct(shorter, keep);
        let before = shorter.filter(keep);
        let kept = subscriptions.filter(keep);
        assert forall|i: int| 0 <= i < kept.len() implies exists|k: int|
            0 <= k < subscriptions.len() && #[trigger] subscriptions[k] == #[trigger] kept[i] by {
            if i < before.len() {
                let k = choose|k: int| 0 <= k < shorter.len() && #[trigger] shorter[k] == before[i];
                assert(subscriptions[k] == kept[i]);
            } else {
                assert(subscriptions[subscriptions.len() - 1] == kept[i]);
            }
        }
        assert forall|i: int, j: int| 0 <= i < j < kept.len() implies (#[trigger] kept[i]).id != (
        #[trigger] kept[j]).id by {
            if j < before.len() {
                assert(before[i].id != before[j].id);
            } else {
                let k = choose|k: int| 0 <= k < shorter.len() && #[trigger] shorter[k] == before[i];
                assert(kept[j] == subscriptions.last());
                assert(subscriptions[k].id != subscriptions[subscriptions.len() - 1].id);
            }
        }
    }
}

fn append_selectors(found: &mut Vec<StreamSelector>, more: &Vec<StreamSelector>)
    ensures
        selectors_view(final(found)@) == selectors_view(old(found)@) + selectors_view(more@),
{
    let ghost before = selectors_view(found@);
    let mut i: usize = 0;
    assert(selectors_view(found@) =~= before + selectors_view(more@.take(0)));
    while i < more.len()
        invariant
            i <= more@.len(),
            selectors_view(found@) == before + selectors_view(more@.take(i as int)),
        decreases more@.len() - i,
    {
        let ghost so_far = found@;
        let selector = more[i].copy();
        assert(selectors_view(so_far.push(selector)) =~= selectors_view(so_far).push(selector@));
        assert(selectors_view(more@.take(i + 1)) =~= selectors_view(more@.take(i as int)).push(
            more@[i as int]@,
        ));
        found.push(selector);
        i = i + 1;
        assert(selectors_view(found@) =~= before + selectors_view(more@.take(i as int)));
    }
    assert(more@.take(more@.len() as int) =~= more@);
}

fn count_list_selectors(selectors: &Vec<StreamSelector>) -> (r: usize)
    ensures
        r == list_selectors_in(selectors@),
{
    let ghost wanted = |selector: StreamSelector| is_list_selector(selector);
    let mut count: usize = 0;
    let mut i: usize = 0;
    proof {
        reveal(Seq::filter);
        assert(selectors@.take(0) =~= Seq::empty());
    }
    while i < selectors.len()
        invariant
            i <= selectors@.len(),
            count <= i,
            wanted == |selector: StreamSelector| is_list_selector(selector),
            count == selectors@.take(i as int).filter(wanted).len(),
        decreases selectors@.len() - i,
    {
        proof {
            reveal(Seq::filter);
            assert(selectors@.take(i + 1).drop_last() =~= selectors@.take(i as int));
            assert(selectors@.take(i + 1).last() == selectors@[i as int]);
        }
        match &selectors[i] {
            StreamSelector::SessionsByCwd { .. } => {
                count = count + 1;
            },
            _ => {},
        }
        i = i + 1;
    }
    assert(selectors@.take(selectors@.len() as int) =~= selectors@);
    count
}

/// A request to subscribe: the streams, the places that the client has reached
/// already, and whether it wants snapshots.
#[derive(Debug)]
pub struct CreateRequest {
    pub subscription: u128,
    pub selectors: Vec<StreamSelector>,
    pub after: Vec<EventCursor>,
    pub with_snapshots: bool,
}

/// What a client gets, once the streams are read.
pub open spec fn prepared_with(request: CreateRequest, reads: Seq<StreamRead>) -> Result<
    (Seq<ReplayedEvent>, Seq<(Seq<char>, u64)>),
    RefusalModel,
> {
    prepared_for(request.selectors@, request.after@, reads, request.selectors@.len())
}

/// What subscribing waits for. The streams go with it as they were read.
#[derive(Debug)]
pub enum CreatePhase {
    Connection,
    Streams,
    Snapshot(usize, Vec<StreamRead>),
    Controls(Vec<StreamRead>),
    Recovery(Vec<StreamRead>),
    Registered(Vec<StreamRead>),
    Reissued(Vec<StreamRead>),
    Finished,
}

/// What the host observed while a client subscribes.
#[derive(Debug)]
pub enum CreateEvent {
    Connection(bool),
    /// The streams, each as it was read.
    Streams(Vec<StreamRead>),
    /// Why a snapshot cannot be taken, if it cannot.
    Snapshot(Option<String>),
    Done,
}

/// What the host has to do to subscribe a client. The connections stay locked
/// from the first step until the subscription is registered. `W` is why the
/// client is refused and `R` what it gets; they are `()` where only the order of
/// the steps matters.
#[derive(Debug)]
pub enum CreateAction<W = SubscriptionRefusal, R = Prepared> {
    /// Read the streams: the last number of each, and what is behind the place
    /// that the client has reached.
    ReadStreams,
    /// Take a snapshot for the selector in this place, as of the last number of
    /// its stream.
    BuildSnapshot { place: usize, barrier: u64 },
    /// Read the questions that wait for an answer of a client.
    ReadControls,
    /// Read what is being written in the sessions.
    ReadRecovery,
    /// Register the subscription under its name and for its connection.
    Register(u128),
    /// Send the questions that wait again, to this client.
    ReissueControls,
    /// Answer with what the client gets, the snapshots and the questions.
    Answer(R),
    /// Refuse to subscribe the client.
    Reject(W),
    /// Nothing: the event does not belong to the phase.
    Ignore,
}

/// What the host has to do to subscribe a client, without what it answers.
pub type CreateOrder = CreateAction<(), ()>;

impl CreateAction {
    /// What is to be done, without what is answered.
    pub open spec fn order(self) -> CreateOrder {
        match self {
            CreateAction::ReadStreams => CreateAction::ReadStreams,
            CreateAction::BuildSnapshot { place, barrier } => CreateAction::BuildSnapshot {
                place,
                barrier,
            },
            CreateAction::ReadControls => CreateAction::ReadControls,
            CreateAction::ReadRecovery => CreateAction::ReadRecovery,
            CreateAction::Register(subscription) => CreateAction::Register(subscription),
            CreateAction::ReissueControls => CreateAction::ReissueControls,
            CreateAction::Answer(_) => CreateAction::Answer(()),
            CreateAction::Reject(_) => CreateAction::Reject(()),
            CreateAction::Ignore => CreateAction::Ignore,
        }
    }
}

/// The last number of a stream, as it was read for the first selector of it.
pub open spec fn barrier_for(
    selectors: Seq<StreamSelector>,
    reads: Seq<StreamRead>,
    stream: Seq<char>,
) -> u64
    decreases selectors.len(),
{
    if selectors.len() == 0 || reads.len() == 0 {
        0
    } else if stream_of(selectors[0]) == stream {
        match reads[0].barrier {
            Ok(barrier) => barrier_value(barrier),
            Err(_) => 0,
        }
    } else {
        barrier_for(selectors.drop_first(), reads.drop_first(), stream)
    }
}

proof fn lemma_barrier_for(
    selectors: Seq<StreamSelector>,
    reads: Seq<StreamRead>,
    stream: Seq<char>,
    n: int,
)
    requires
        0 <= n <= selectors.len(),
        n <= reads.len(),
        forall|i: int| 0 <= i < n ==> stream_of(#[trigger] selectors[i]) != stream,
    ensures
        barrier_for(selectors, reads, stream) == barrier_for(
            selectors.skip(n),
            reads.skip(n),
            stream,
        ),
    decreases n,
{
    if n == 0 {
        assert(selectors.skip(0) =~= selectors);
        assert(reads.skip(0) =~= reads);
    } else {
        assert(stream_of(selectors[0]) != stream);
        assert forall|i: int| 0 <= i < n - 1 implies stream_of(
            #[trigger] selectors.drop_first()[i],
        ) != stream by {
            assert(selectors.drop_first()[i] == selectors[i + 1]);
        }
        lemma_barrier_for(selectors.drop_first(), reads.drop_first(), stream, n - 1);
        assert(selectors.drop_first().skip(n - 1) =~= selectors.skip(n));
        assert(reads.drop_first().skip(n - 1) =~= reads.skip(n));
    }
}

fn find_barrier(selectors: &Vec<StreamSelector>, reads: &Vec<StreamRead>, stream: &str) -> (r: u64)
    ensures
        r == barrier_for(selectors@, reads@, stream@),
{
    let mut i: usize = 0;
    while i < selectors.len() && i < reads.len()
        invariant
            i <= selectors@.len(),
            i <= reads@.len(),
            forall|j: int| 0 <= j < i ==> stream_of(#[trigger] selectors@[j]) != stream@,
        decreases selectors@.len() - i,
    {
        proof {
            lemma_barrier_for(selectors@, reads@, stream@, i as int);
            assert(selectors@.skip(i as int)[0] == selectors@[i as int]);
            assert(reads@.skip(i as int)[0] == reads@[i as int]);
        }
        let own = selector_stream_id(&selectors[i]);
        if text_equal(own.as_str(), stream) {
            return match &reads[i].barrier {
                Ok(Some(barrier)) => *barrier,
                _ => 0,
            };
        }
        i = i + 1;
    }
    proof {
        lemma_barrier_for(selectors@, reads@, stream@, i as int);
        assert(selectors@.skip(i as int).len() == 0 || reads@.skip(i as int).len() == 0);
    }
    0
}

/// The step once the streams are prepared and `taken` snapshots are there.
pub open spec fn snapshot_step(request: CreateRequest, reads: Vec<StreamRead>, taken: usize) -> (
    CreatePhase,
    CreateOrder,
) {
    if request.with_snapshots && taken < request.selectors@.len() {
        (
            CreatePhase::Snapshot(taken, reads),
            CreateAction::BuildSnapshot {
                place: taken,
                barrier: barrier_for(
                    request.selectors@,
                    reads@,
                    stream_of(request.selectors@[taken as int]),
                ),
            },
        )
    } else {
        (CreatePhase::Controls(reads), CreateAction::ReadControls)
    }
}

/// The next step of subscribing. Streams that cannot be subscribed to refuse
/// the client.
pub open spec fn create_step(request: CreateRequest, phase: CreatePhase, event: CreateEvent) -> (
    CreatePhase,
    CreateOrder,
) {
    match (phase, event) {
        (CreatePhase::Connection, CreateEvent::Connection(registered)) => if registered {
            (CreatePhase::Streams, CreateAction::ReadStreams)
        } else {
            (CreatePhase::Finished, CreateAction::Reject(()))
        },
        (CreatePhase::Streams, CreateEvent::Streams(reads)) => if reads@.len() != request.selectors@.len() {
            (CreatePhase::Streams, CreateAction::Ignore)
        } else if prepared_with(request, reads@) is Err {
            (CreatePhase::Finished, CreateAction::Reject(()))
        } else {
            snapshot_step(request, reads, 0)
        },
        (CreatePhase::Snapshot(place, reads), CreateEvent::Snapshot(failure)) => match failure {
            Some(message) => (
                CreatePhase::Finished,
                CreateAction::Reject(()),
            ),
            None => if place < usize::MAX {
                snapshot_step(request, reads, (place + 1) as usize)
            } else {
                (CreatePhase::Controls(reads), CreateAction::ReadControls)
            },
        },
        (CreatePhase::Controls(reads), CreateEvent::Done) => if request.after@.len() > 0 {
            (CreatePhase::Recovery(reads), CreateAction::ReadRecovery)
        } else {
            (CreatePhase::Registered(reads), CreateAction::Register(request.subscription))
        },
        (CreatePhase::Recovery(reads), CreateEvent::Done) => (
            CreatePhase::Registered(reads),
            CreateAction::Register(request.subscription),
        ),
        (CreatePhase::Registered(reads), CreateEvent::Done) => (
            CreatePhase::Reissued(reads),
            CreateAction::ReissueControls,
        ),
        (CreatePhase::Reissued(reads), CreateEvent::Done) => if reads@.len() != request.selectors@.len() {
            (CreatePhase::Reissued(reads), CreateAction::Ignore)
        } else if prepared_with(request, reads@) is Err {
            (CreatePhase::Finished, CreateAction::Reject(()))
        } else {
            (CreatePhase::Finished, CreateAction::Answer(()))
        },
        _ => (phase, CreateAction::Ignore),
    }
}

/// Why a client is refused.
pub open spec fn create_fault(
    request: CreateRequest,
    phase: CreatePhase,
    event: CreateEvent,
) -> Option<RefusalModel> {
    match (phase, event) {
        (CreatePhase::Connection, _) => Some(RefusalModel::NotRegistered),
        (CreatePhase::Streams, CreateEvent::Streams(reads)) => match prepared_with(
            request,
            reads@,
        ) {
            Err(fault) => Some(fault),
            Ok(_) => None,
        },
        (CreatePhase::Snapshot(_, _), CreateEvent::Snapshot(Some(message))) => Some(
            RefusalModel::Failed(""@, message@),
        ),
        (CreatePhase::Reissued(reads), _) => match prepared_with(request, reads@) {
            Err(fault) => Some(fault),
            Ok(_) => None,
        },
        _ => None,
    }
}

/// Whether an action answers what the streams say.
pub open spec fn answers_create(
    request: CreateRequest,
    phase: CreatePhase,
    event: CreateEvent,
    action: CreateAction,
) -> bool {
    match action {
        CreateAction::Reject(why) => Some(why@) == create_fault(request, phase, event),
        CreateAction::Answer(prepared) => match phase {
            CreatePhase::Reissued(reads) => prepared_with(request, reads@) == Ok::<
                (Seq<ReplayedEvent>, Seq<(Seq<char>, u64)>),
                RefusalModel,
            >((prepared.replay@, cursors_view(prepared.cursors@))),
            _ => false,
        },
        _ => true,
    }
}

/// Whether `step` is the next one of subscribing.
pub open spec fn is_create_step(
    request: CreateRequest,
    phase: CreatePhase,
    event: CreateEvent,
    step: (CreatePhase, CreateAction),
) -> bool {
    &&& (step.0, step.1.order()) == create_step(request, phase, event)
    &&& answers_create(request, phase, event, step.1)
}

fn next_snapshot(request: &CreateRequest, reads: Vec<StreamRead>, taken: usize) -> (r: (
    CreatePhase,
    CreateAction,
))
    ensures
        (r.0, r.1.order()) == snapshot_step(*request, reads, taken),
        !(r.1 is Reject) && !(r.1 is Answer),
{
    if request.with_snapshots && taken < request.selectors.len() {
        let stream = selector_stream_id(&request.selectors[taken]);
        let barrier: u64 = find_barrier(&request.selectors, &reads, stream.as_str());
        (
            CreatePhase::Snapshot(taken, reads),
            CreateAction::BuildSnapshot { place: taken, barrier },
        )
    } else {
        (CreatePhase::Controls(reads), CreateAction::ReadControls)
    }
}

/// Takes subscribing one step further.
pub fn advance_create(request: &CreateRequest, phase: CreatePhase, event: CreateEvent) -> (r: (
    CreatePhase,
    CreateAction,
))
    ensures
        is_create_step(*request, phase, event, r),
{
    match (phase, event) {
        (CreatePhase::Connection, CreateEvent::Connection(registered)) => if registered {
            (CreatePhase::Streams, CreateAction::ReadStreams)
        } else {
            (CreatePhase::Finished, CreateAction::Reject(SubscriptionRefusal::NotRegistered))
        },
        (CreatePhase::Streams, CreateEvent::Streams(reads)) => if reads.len() != request.selectors.len() {
            (CreatePhase::Streams, CreateAction::Ignore)
        } else {
            match prepare_subscription(&request.selectors, &request.after, &reads) {
                Err(why) => (CreatePhase::Finished, CreateAction::Reject(why)),
                Ok(_) => next_snapshot(request, reads, 0),
            }
        },
        (CreatePhase::Snapshot(place, reads), CreateEvent::Snapshot(failure)) => match failure {
            Some(message) => (
                CreatePhase::Finished,
                CreateAction::Reject(SubscriptionRefusal::Failed("", message)),
            ),
            None => if place < usize::MAX {
                next_snapshot(request, reads, (place + 1))
            } else {
                (CreatePhase::Controls(reads), CreateAction::ReadControls)
            },
        },
        (CreatePhase::Controls(reads), CreateEvent::Done) => if request.after.len() > 0 {
            (CreatePhase::Recovery(reads), CreateAction::ReadRecovery)
        } else {
            (CreatePhase::Registered(reads), CreateAction::Register(request.subscription))
        },
        (CreatePhase::Recovery(reads), CreateEvent::Done) => (
            CreatePhase::Registered(reads),
            CreateAction::Register(request.subscription),
        ),
        (CreatePhase::Registered(reads), CreateEvent::Done) => (
            CreatePhase::Reissued(reads),
            CreateAction::ReissueControls,
        ),
        (CreatePhase::Reissued(reads), CreateEvent::Done) => if reads.len() != request.selectors.len() {
            (CreatePhase::Reissued(reads), CreateAction::Ignore)
        } else {
            match prepare_subscription(&request.selectors, &request.after, &reads) {
                Err(why) => (CreatePhase::Finished, CreateAction::Reject(why)),
                Ok(prepared) => (CreatePhase::Finished, CreateAction::Answer(prepared)),
            }
        },
        (phase, _) => (phase, CreateAction::Ignore),
    }
}

/// Where subscribing stands after `events`.
pub open spec fn create_after(request: CreateRequest, events: Seq<CreateEvent>) -> CreatePhase
    decreases events.len(),
{
    if events.len() == 0 {
        CreatePhase::Connection
    } else {
        create_step(request, create_after(request, events.drop_last()), events.last()).0
    }
}

/// The streams that a phase holds.
pub open spec fn reads_in(phase: CreatePhase) -> Option<Vec<StreamRead>> {
    match phase {
        CreatePhase::Snapshot(_, reads) => Some(reads),
        CreatePhase::Controls(reads) => Some(reads),
        CreatePhase::Recovery(reads) => Some(reads),
        CreatePhase::Registered(reads) => Some(reads),
        CreatePhase::Reissued(reads) => Some(reads),
        _ => None,
    }
}

/// Whether the streams are as the host has read them, and let the client
/// subscribe.
pub open spec fn are_prepared(
    request: CreateRequest,
    events: Seq<CreateEvent>,
    reads: Vec<StreamRead>,
) -> bool {
    &&& events.contains(CreateEvent::Streams(reads))
    &&& reads@.len() == request.selectors@.len()
    &&& prepared_with(request, reads@) is Ok
}

/// How many snapshots were taken.
pub open spec fn snapshots_taken(events: Seq<CreateEvent>) -> nat
    decreases events.len(),
{
    if events.len() == 0 {
        0
    } else {
        snapshots_taken(events.drop_last()) + if events.last() == CreateEvent::Snapshot(None) {
            1nat
        } else {
            0
        }
    }
}

proof fn lemma_snapshots_are_counted(request: CreateRequest, events: Seq<CreateEvent>)
    ensures
        ({
            let phase = create_after(request, events);
            &&& reads_in(phase) matches Some(reads) ==> are_prepared(request, events, reads)
            &&& match phase {
                CreatePhase::Snapshot(place, _) => request.with_snapshots && place
                    < request.selectors@.len() && snapshots_taken(events) >= place,
                CreatePhase::Controls(_)
                | CreatePhase::Recovery(_)
                | CreatePhase::Registered(_)
                | CreatePhase::Reissued(_) => request.with_snapshots ==> snapshots_taken(events)
                    >= request.selectors@.len(),
                _ => true,
            }
        }),
    decreases events.len(),
{
    if events.len() > 0 {
        let before = events.drop_last();
        lemma_snapshots_are_counted(request, before);
        assert(request.selectors@.len() == request.selectors.len());
        assert(events[events.len() - 1] == events.last());
        if let Some(reads) = reads_in(create_after(request, before)) {
            let wanted = CreateEvent::Streams(reads);
            let i = choose|i: int| 0 <= i < before.len() && before[i] == wanted;
            assert(events[i] == wanted);
        }
    }
}

/// A subscription is registered, and from then on delivered to, only once its
/// streams are prepared and all its snapshots are taken.
pub proof fn law_snapshots_come_before_delivery(
    request: CreateRequest,
    events: Seq<CreateEvent>,
    event: CreateEvent,
)
    ensures
        create_step(request, create_after(request, events), event).1 is Register ==> {
            &&& reads_in(create_after(request, events)) matches Some(reads) && are_prepared(
                request,
                events,
                reads,
            )
            &&& request.with_snapshots ==> snapshots_taken(events) >= request.selectors@.len()
        },
{
    lemma_snapshots_are_counted(request, events);
}

/// What a request for approval is about.
#[derive(Clone, Copy, Debug, PartialEq, Eq, Structural)]
pub enum ApprovalKind {
    Command,
    FileChange,
    Permission,
}

/// What a request for approval is about.
pub open spec fn kind_of_approval(has_command: bool, writes_file: bool) -> ApprovalKind {
    if has_command {
        ApprovalKind::Command
    } else if writes_file {
        ApprovalKind::FileChange
    } else {
        ApprovalKind::Permission
    }
}

/// What a request for approval is about: a command, where there is one.
pub fn approval_kind(has_command: bool, writes_file: bool) -> (r: ApprovalKind)
    ensures
        r == kind_of_approval(has_command, writes_file),
{
    if has_command {
        ApprovalKind::Command
    } else if writes_file {
        ApprovalKind::FileChange
    } else {
        ApprovalKind::Permission
    }
}

/// What a request for approval is aimed at.
#[derive(Debug)]
pub enum ApprovalTarget {
    Path(String),
    Host(String),
    Command(String),
}

/// What a request for approval is aimed at.
pub open spec fn target_of_approval(
    path: Option<String>,
    host: Option<String>,
    command: Option<String>,
) -> Option<ApprovalTarget> {
    match (path, host, command) {
        (Some(path), _, _) => Some(ApprovalTarget::Path(path)),
        (None, Some(host), _) => Some(ApprovalTarget::Host(host)),
        (None, None, Some(command)) => Some(ApprovalTarget::Command(command)),
        (None, None, None) => None,
    }
}

/// What a request for approval is aimed at: a path goes before a host, and a
/// host before the command.
pub fn approval_target(path: Option<String>, host: Option<String>, command: Option<String>) -> (r:
    Option<ApprovalTarget>)
    ensures
        r == target_of_approval(path, host, command),
{
    match (path, host, command) {
        (Some(path), _, _) => Some(ApprovalTarget::Path(path)),
        (None, Some(host), _) => Some(ApprovalTarget::Host(host)),
        (None, None, Some(command)) => Some(ApprovalTarget::Command(command)),
        (None, None, None) => None,
    }
}

/// What a request for approval is called: the command, or the tool.
pub fn approval_summary(command: Option<String>, tool: String) -> (r: String)
    ensures
        r == match command {
            Some(command) => command,
            None => tool,
        },
{
    match command {
        Some(command) => command,
        None => tool,
    }
}

/// What is recorded of an item that waits for an answer.
#[derive(Clone, Copy, Debug)]
pub struct RecordedItem {
    pub item: ItemId,
    pub seq: u64,
    pub created_at: i64,
}

/// The head of an item that waits for an answer.
#[derive(Clone, Copy, Debug, PartialEq, Eq, Structural)]
pub struct WaitingHead {
    pub item: ItemId,
    pub seq: u64,
    pub revision: u64,
    pub created_at: i64,
    pub updated_at: i64,
}

/// The head of an item that waits for an answer.
pub open spec fn head_of(
    recorded: Option<RecordedItem>,
    unrecorded: ItemId,
    now: i64,
) -> WaitingHead {
    match recorded {
        Some(recorded) => WaitingHead {
            item: recorded.item,
            seq: recorded.seq,
            revision: 1,
            created_at: recorded.created_at,
            updated_at: now,
        },
        None => WaitingHead {
            item: unrecorded,
            seq: 0,
            revision: 1,
            created_at: now,
            updated_at: now,
        },
    }
}

/// The head of an item that waits for an answer: as it is recorded, or with
/// the identifier given where it is not.
pub fn waiting_item_head(recorded: Option<RecordedItem>, unrecorded: ItemId, now: i64) -> (r:
    WaitingHead)
    ensures
        r == head_of(recorded, unrecorded, now),
{
    match recorded {
        Some(recorded) => WaitingHead {
            item: recorded.item,
            seq: recorded.seq,
            revision: 1,
            created_at: recorded.created_at,
            updated_at: now,
        },
        None => WaitingHead { item: unrecorded, seq: 0, revision: 1, created_at: now, updated_at: now },
    }
}

/// A text that a turn is still writing: its item, its number, and the text.
#[derive(Debug)]
pub struct DeferredText {
    pub item: ItemId,
    pub seq: u64,
    pub text: String,
}

/// The item for a text that is still being written.
pub open spec fn deferred_item(
    session: SessionId,
    turn: TurnId,
    deferred: DeferredText,
    channel: DeltaChannel,
) -> LiveItem {
    LiveItem {
        session,
        turn,
        item: deferred.item,
        seq: deferred.seq,
        revision: 1,
        channel,
        text: deferred.text,
        next_chunk: 0,
    }
}

/// The items of a session that are still being written.
pub open spec fn texts_in_progress(
    session: SessionId,
    turn: Option<TurnId>,
    answer: Option<DeferredText>,
    reasoning: Option<DeferredText>,
) -> Seq<LiveItem> {
    match turn {
        None => Seq::empty(),
        Some(turn) => (match answer {
            Some(text) => seq![
                deferred_item(session, turn, text, DeltaChannel::AssistantMessage),
            ],
            None => Seq::empty(),
        }) + (match reasoning {
            Some(text) => seq![deferred_item(session, turn, text, DeltaChannel::Reasoning)],
            None => Seq::empty(),
        }),
    }
}

/// The items of a session that are still being written: the answer and the
/// reasoning, while a turn is running.
pub fn recovery_snapshots(
    session: SessionId,
    turn: Option<TurnId>,
    answer: Option<DeferredText>,
    reasoning: Option<DeferredText>,
) -> (r: Vec<LiveItem>)
    ensures
        r@ == texts_in_progress(session, turn, answer, reasoning),
{
    let mut items: Vec<LiveItem> = Vec::new();
    let turn = match turn {
        Some(turn) => turn,
        None => {
            return items;
        },
    };
    if let Some(deferred) = answer {
        items.push(
            live_item_snapshot(
                session,
                turn,
                deferred.item,
                deferred.seq,
                DeltaChannel::AssistantMessage,
                deferred.text,
            ),
        );
    }
    if let Some(deferred) = reasoning {
        items.push(
            live_item_snapshot(
                session,
                turn,
                deferred.item,
                deferred.seq,
                DeltaChannel::Reasoning,
                deferred.text,
            ),
        );
    }
    items
}

/// What a stored queue entry shows: its text, where it has one, and the first
/// line of it.
pub fn queue_entry_content(kind: &PendingKind) -> (r: (Option<String>, String))
    ensures
        opt_view(r.0) == if display_of(*kind).len() == 0 {
            None
        } else {
            Some(display_of(*kind))
        },
        r.1@ == first_line(display_of(*kind)),
{
    let text = match kind {
        PendingKind::UserText(text) => text.clone(),
        PendingKind::UserInput { display, .. } => display.clone(),
        PendingKind::Other => {
            let empty = String::new();
            assert(empty@ =~= Seq::empty());
            empty
        },
    };
    let preview = take_first_line(text.as_str());
    if text.as_str().unicode_len() == 0 {
        (None, preview)
    } else {
        (Some(text), preview)
    }
}

/// Whether there is a snapshot of a session, or why it cannot be taken.
pub open spec fn snapshot_of(
    has_rollout: bool,
    history: Result<bool, String>,
    queue: Option<String>,
) -> Result<bool, (&'static str, String)> {
    if !has_rollout {
        Ok::<bool, (&'static str, String)>(false)
    } else {
        match history {
            Err(error) => Err(("failed to read session history: ", error)),
            Ok(false) => Ok(false),
            Ok(true) => match queue {
                Some(error) => Err(("failed to read session queue: ", error)),
                None => Ok(true),
            },
        }
    }
}

/// Whether there is a snapshot of a session, or why it cannot be taken. A
/// session without a rollout has none.
pub fn session_snapshot(has_rollout: bool, history: Result<bool, String>, queue: Option<String>) -> (r:
    Result<bool, (&'static str, String)>)
    ensures
        r == snapshot_of(has_rollout, history, queue),
{
    if !has_rollout {
        return Ok(false);
    }
    match history {
        Err(error) => Err(("failed to read session history: ", error)),
        Ok(found) => {
            if !found {
                return Ok(false);
            }
            match queue {
                Some(error) => Err(("failed to read session queue: ", error)),
                None => Ok(true),
            }
        },
    }
}

/// Who hears of what: a client of a session of everything in it, a client of
/// the sessions of a directory of every change to the list of those, and a
/// client of a task of neither.
pub proof fn law_notifications_reach_their_subscribers(
    facts: NotificationFacts,
    session: SessionId,
    cwd: Vec<Component>,
    stream: String,
    item: String,
)
    ensures
        selects((StreamSelector::Session { session, stream }), facts) <==> facts.session == Some(
            session,
        ),
        facts.changes_list && facts.cwd is Some && parts(facts.cwd->0@) == parts(cwd@) ==> selects(
            (StreamSelector::SessionsByCwd { cwd, stream }),
            facts,
        ),
        !facts.changes_list || facts.cwd is None || parts(facts.cwd->0@) != parts(cwd@)
            ==> !selects((StreamSelector::SessionsByCwd { cwd, stream }), facts),
        !selects((StreamSelector::BackgroundTask { item }), facts),
        stream_of(StreamSelector::Session { session, stream }) == stream@,
        stream_of(StreamSelector::SessionsByCwd { cwd, stream }) == stream@,
        stream_of(StreamSelector::BackgroundTask { item }) == "task:"@ + item@,
{
}

/// The place in a stream is the one that was given for it first, and the
/// beginning where none was.
pub proof fn law_places_are_by_stream(
    cursors: Seq<EventCursor>,
    cursor: EventCursor,
    stream: Seq<char>,
)
    ensures
        seq_for(Seq::empty(), stream) == 0,
        cursor.stream@ == stream ==> seq_for(seq![cursor] + cursors, stream) == cursor.seq,
        cursor.stream@ != stream ==> seq_for(seq![cursor] + cursors, stream) == seq_for(
            cursors,
            stream,
        ),
{
    assert((seq![cursor] + cursors).skip(1) =~= cursors);
    assert((seq![cursor] + cursors)[0] == cursor);
}

/// What is refused is told by its code: a place that has expired requires a
/// snapshot, an unknown subscription is the client's fault, a connection that is
/// not there is not initialized, and a failure is the server's.
pub proof fn law_refusals_have_their_code(why: SubscriptionRefusal)
    ensures
        why is Unknown ==> why@.code() is InvalidParams,
        why is NotRegistered ==> why@.code() is NotInitialized,
        why is NotPart || why is Outside || why is Past ==> why@.code() is CursorExpired,
        why is Failed ==> why@.code() is InternalError,
        why@.requires_snapshot() <==> why is NotPart || why is Outside || why is Past,
{
}

/// A stream can be followed from a place up to what it has reached, where what
/// is stored of it can be read.
pub proof fn law_streams_are_followed_from_where_they_are(
    selector: StreamSelector,
    after: Seq<EventCursor>,
    barrier: Option<u64>,
    rows: Vec<StoredEvent>,
    error: String,
)
    ensures
        ({
            let reached = seq_for(after, stream_of(selector));
            let end: u64 = if barrier is Some {
                barrier->0
            } else {
                0
            };
            let read = StreamRead { barrier: Ok(barrier), rows: Ok(rows) };
            &&& reached <= end && (forall|i: int|
                0 <= i < rows@.len() ==> (#[trigger] rows@[i]).fault is None) ==> stream_fault(
                selector,
                after,
                read,
            ) is None
            &&& reached > end ==> stream_fault(selector, after, read) == Some(
                RefusalModel::Past { stream: stream_of(selector), seq: reached, barrier: end },
            )
            &&& stream_fault(selector, after, (StreamRead { barrier: Err(error), rows: Ok(rows) }))
                matches Some(RefusalModel::Failed(_, told)) && told == error@
            &&& reached <= end ==> (stream_fault(
                selector,
                after,
                (StreamRead { barrier: Ok(barrier), rows: Err(error) }),
            ) matches Some(RefusalModel::Failed(_, told)) && told == error@)
        }),
{
    lemma_no_fault(rows@);
}

proof fn lemma_no_fault(rows: Seq<StoredEvent>)
    ensures
        (forall|i: int| 0 <= i < rows.len() ==> (#[trigger] rows[i]).fault is None) ==> first_fault(
            rows,
        ) is None,
    decreases rows.len(),
{
    if rows.len() > 0 {
        lemma_no_fault(rows.drop_last());
        assert(rows.drop_last().len() == rows.len() - 1);
        if forall|i: int| 0 <= i < rows.len() ==> (#[trigger] rows[i]).fault is None {
            assert forall|i: int| 0 <= i < rows.drop_last().len() implies (
            #[trigger] rows.drop_last()[i]).fault is None by {
                assert(rows[i].fault is None);
            }
            assert(rows[rows.len() - 1].fault is None);
        }
    }
}

/// The first stored event that cannot be read is the one that is told.
pub proof fn law_the_first_fault_is_told(rows: Seq<StoredEvent>, row: StoredEvent)
    ensures
        first_fault(Seq::empty()) is None,
        first_fault(rows) is Some ==> first_fault(rows.push(row)) == first_fault(rows),
        first_fault(rows) is None && row.fault is Some ==> first_fault(rows.push(row)) == Some(
            row.fault->0@,
        ),
        first_fault(rows) is None && row.fault is None ==> first_fault(rows.push(row)) is None,
{
    assert(rows.push(row).drop_last() =~= rows);
}

/// What is prepared of a subscription: every stored event of every stream, in
/// order, and for each stream what it has reached. One stream that cannot be
/// followed refuses them all.
pub proof fn law_subscriptions_replay_every_event(
    selectors: Seq<StreamSelector>,
    after: Seq<EventCursor>,
    reads: Seq<StreamRead>,
    n: nat,
)
    requires
        n < selectors.len(),
        n < reads.len(),
        n <= usize::MAX,
    ensures
        prepared_for(selectors, after, reads, 0) matches Ok((replay, cursors)) && replay.len() == 0
            && cursors.len() == 0,
        prepared_for(selectors, after, reads, n) matches Err(fault) ==> prepared_for(
            selectors,
            after,
            reads,
            n + 1,
        ) == prepared_for(selectors, after, reads, n),
        prepared_for(selectors, after, reads, n) is Ok ==> match stream_fault(
            selectors[n as int],
            after,
            reads[n as int],
        ) {
            Some(fault) => prepared_for(selectors, after, reads, n + 1) == Err::<
                (Seq<ReplayedEvent>, Seq<(Seq<char>, u64)>),
                RefusalModel,
            >(fault),
            None => prepared_for(selectors, after, reads, n + 1) matches Ok((replay, cursors)) && (
            prepared_for(selectors, after, reads, n) matches Ok((earlier, places)) && {
                let rows = reads[n as int].rows->Ok_0@;
                let end: u64 = match reads[n as int].barrier->Ok_0 {
                    Some(barrier) => barrier,
                    None => 0,
                };
                &&& replay.len() == earlier.len() + rows.len()
                &&& forall|i: int| 0 <= i < earlier.len() ==> #[trigger] replay[i] == earlier[i]
                &&& forall|i: int|
                    0 <= i < rows.len() && i <= usize::MAX ==> (#[trigger] replay[earlier.len()
                        + i]).seq == rows[i].seq && replay[earlier.len() + i].row == i
                        && replay[earlier.len() + i].selector == n
                &&& cursors == places.push((stream_of(selectors[n as int]), end))
            }),
        },
{
    reveal_with_fuel(prepared_for, 2);
}

/// A client acknowledges what it has got: a stream that it subscribes to, no
/// further back than before and no further on than the stream has come. That
/// place is then the acknowledged one.
pub proof fn law_places_are_acknowledged(
    selectors: Seq<StreamSelector>,
    acked: spec_fn(Seq<char>) -> u64,
    cursors: Seq<EventCursor>,
    barriers: Seq<Result<Option<u64>, String>>,
    n: nat,
    end: u64,
    i: int,
)
    requires
        n < cursors.len(),
        n < barriers.len(),
        barriers[n as int] == Ok::<Option<u64>, String>(Some(end)),
        0 <= i < selectors.len(),
        stream_of(selectors[i]) == cursors[n as int].stream@,
        acked_after(selectors, acked, cursors, barriers, n).1 is None,
    ensures
        ({
            let (before, _) = acked_after(selectors, acked, cursors, barriers, n);
            let (after, fault) = acked_after(selectors, acked, cursors, barriers, n + 1);
            let cursor = cursors[n as int];
            &&& before(cursor.stream@) <= cursor.seq <= end ==> fault is None && after(
                cursor.stream@,
            ) == cursor.seq
            &&& !(before(cursor.stream@) <= cursor.seq <= end) ==> fault is Some && after == before
            &&& forall|other: Seq<char>|
                other != cursor.stream@ ==> #[trigger] after(other) == before(other)
        }),
        acked_after(selectors, acked, cursors, barriers, 0) == (acked, None::<RefusalModel>),
{
    reveal_with_fuel(acked_after, 2);
    assert(subscribes(selectors, cursors[n as int].stream@));
}

/// A client cannot acknowledge a stream that it does not subscribe to, nor one
/// whose end cannot be read.
pub proof fn law_other_streams_are_not_acknowledged(
    selectors: Seq<StreamSelector>,
    acked: u64,
    cursor: EventCursor,
    barrier: Result<Option<u64>, String>,
)
    ensures
        (forall|i: int|
            0 <= i < selectors.len() ==> stream_of(#[trigger] selectors[i]) != cursor.stream@)
            ==> ack_fault(selectors, acked, cursor, barrier) == Some(
            RefusalModel::NotPart(cursor.stream@),
        ),
        (exists|i: int|
            0 <= i < selectors.len() && stream_of(#[trigger] selectors[i]) == cursor.stream@)
            && barrier is Err ==> (ack_fault(selectors, acked, cursor, barrier) matches Some(
            RefusalModel::Failed(_, told),
        ) && told == barrier->Err_0@),
{
}

/// The selectors of a connection are those of all of its subscriptions, in
/// order, and of no other.
pub proof fn law_connections_have_their_selectors(
    subscriptions: Seq<EventSubscription>,
    subscription: EventSubscription,
    connection: u64,
)
    ensures
        selectors_of(Seq::empty(), connection) == Seq::<SelectorModel>::empty(),
        subscription.connection == connection ==> selectors_of(
            subscriptions.push(subscription),
            connection,
        ) == selectors_of(subscriptions, connection) + selectors_view(subscription.selectors@),
        subscription.connection != connection ==> selectors_of(
            subscriptions.push(subscription),
            connection,
        ) == selectors_of(subscriptions, connection),
{
    assert(subscriptions.push(subscription).drop_last() =~= subscriptions);
}

/// The selectors of lists are counted over all subscriptions.
pub proof fn law_list_selectors_are_counted(
    subscriptions: Seq<EventSubscription>,
    subscription: EventSubscription,
    selectors: Seq<StreamSelector>,
    selector: StreamSelector,
)
    ensures
        list_selectors(Seq::empty()) == 0,
        list_selectors(subscriptions.push(subscription)) == list_selectors(subscriptions)
            + list_selectors_in(subscription.selectors@),
        list_selectors_in(Seq::empty()) == 0,
        selector is SessionsByCwd ==> list_selectors_in(selectors.push(selector))
            == list_selectors_in(selectors) + 1,
        !(selector is SessionsByCwd) ==> list_selectors_in(selectors.push(selector))
            == list_selectors_in(selectors),
{
    reveal(Seq::filter);
    assert(subscriptions.push(subscription).drop_last() =~= subscriptions);
    assert(selectors.push(selector).drop_last() =~= selectors);
}

/// A subscription is made in order: the streams are read, a snapshot is built of
/// each where the client wants them, up to what the stream has reached, the open
/// questions are read, and what was missed where the client has been here
/// before; then the subscription is registered, the questions are asked again,
/// and the client is answered.
pub proof fn law_subscriptions_are_made_in_order(
    request: CreateRequest,
    reads: Vec<StreamRead>,
    selector: StreamSelector,
)
    requires
        request.selectors@ == seq![selector],
        reads@.len() == 1,
        prepared_for(request.selectors@, request.after@, reads@, 1) is Ok,
    ensures
        ({
            let a = create_step(request, CreatePhase::Connection, CreateEvent::Connection(true));
            let b = create_step(request, a.0, CreateEvent::Streams(reads));
            let c = if request.with_snapshots {
                create_step(request, b.0, CreateEvent::Snapshot(None))
            } else {
                b
            };
            let d = create_step(request, c.0, CreateEvent::Done);
            let e = if request.after@.len() > 0 {
                create_step(request, d.0, CreateEvent::Done)
            } else {
                d
            };
            let f = create_step(request, e.0, CreateEvent::Done);
            let g = create_step(request, f.0, CreateEvent::Done);
            let end: u64 = match reads@[0].barrier {
                Ok(Some(barrier)) => barrier,
                _ => 0,
            };
            &&& a.1 is ReadStreams
            &&& request.with_snapshots ==> b.1 == CreateOrder::BuildSnapshot {
                place: 0,
                barrier: end,
            }
            &&& c.1 is ReadControls
            &&& request.after@.len() > 0 ==> d.1 is ReadRecovery
            &&& e.1 == CreateOrder::Register(request.subscription)
            &&& f.1 is ReissueControls
            &&& g.1 is Answer
            &&& create_step(request, CreatePhase::Connection, CreateEvent::Connection(false)).1
                is Reject
        }),
{
    assert(request.selectors@.len() == 1);
    assert(stream_of(request.selectors@[0]) == stream_of(selector));
}

/// Every stream gets its snapshot, one after the other; one that fails refuses
/// the subscription.
pub proof fn law_every_stream_gets_its_snapshot(
    request: CreateRequest,
    reads: Vec<StreamRead>,
    place: usize,
    message: String,
    step: (CreatePhase, CreateAction),
)
    requires
        request.with_snapshots,
        place < usize::MAX,
        is_create_step(
            request,
            CreatePhase::Snapshot(place, reads),
            CreateEvent::Snapshot(Some(message)),
            step,
        ),
    ensures
        ({
            let next = create_step(
                request,
                CreatePhase::Snapshot(place, reads),
                CreateEvent::Snapshot(None),
            );
            &&& place + 1 < request.selectors@.len() ==> (
            next.1 matches CreateAction::BuildSnapshot { place: then, barrier } && then == place + 1)
            &&& place + 1 >= request.selectors@.len() ==> next.1 is ReadControls
        }),
        step.1 matches CreateAction::Reject(why) && why@.code() is InternalError && why@.message()
            == ""@ + message@,
{
}

/// What a stream has reached is what was read of it.
pub proof fn law_streams_reach_what_was_read(
    selectors: Seq<StreamSelector>,
    reads: Seq<StreamRead>,
    selector: StreamSelector,
    read: StreamRead,
    stream: Seq<char>,
)
    ensures
        barrier_for(Seq::empty(), reads, stream) == 0,
        stream_of(selector) == stream ==> barrier_for(
            seq![selector] + selectors,
            seq![read] + reads,
            stream,
        ) == match read.barrier {
            Ok(Some(barrier)) => barrier,
            _ => 0,
        },
        stream_of(selector) != stream ==> barrier_for(
            seq![selector] + selectors,
            seq![read] + reads,
            stream,
        ) == barrier_for(selectors, reads, stream),
{
    assert((seq![selector] + selectors).drop_first() =~= selectors);
    assert((seq![read] + reads).drop_first() =~= reads);
    assert((seq![selector] + selectors)[0] == selector);
    assert((seq![read] + reads)[0] == read);
}

/// An item that is being written is shown from its beginning, as it stands.
pub proof fn law_deferred_texts_are_shown(
    session: SessionId,
    turn: TurnId,
    deferred: DeferredText,
    channel: DeltaChannel,
)
    ensures
        ({
            let shown = deferred_item(session, turn, deferred, channel);
            &&& shown.session == session && shown.turn == turn && shown.channel == channel
            &&& shown.item == deferred.item && shown.seq == deferred.seq && shown.text
                == deferred.text
            &&& shown.revision == 1 && shown.next_chunk == 0
        }),
{
}

/// A request for approval is about its command where it has one, else about the
/// file that it writes; it is aimed at a path before a host and at a host before
/// a command.
pub proof fn law_approvals_say_what_they_are_about(
    has_command: bool,
    writes_file: bool,
    path: Option<String>,
    host: Option<String>,
    command: Option<String>,
)
    ensures
        has_command ==> kind_of_approval(has_command, writes_file) is Command,
        !has_command && writes_file ==> kind_of_approval(has_command, writes_file) is FileChange,
        !has_command && !writes_file ==> kind_of_approval(has_command, writes_file) is Permission,
        path is Some ==> target_of_approval(path, host, command) == Some(
            ApprovalTarget::Path(path->0),
        ),
        path is None && host is Some ==> target_of_approval(path, host, command) == Some(
            ApprovalTarget::Host(host->0),
        ),
        path is None && host is None && command is Some ==> target_of_approval(path, host, command)
            == Some(ApprovalTarget::Command(command->0)),
        path is None && host is None && command is None ==> target_of_approval(path, host, command)
            is None,
{
}

/// An item that waits for an answer is shown as it was recorded, and as of now
/// where it was not.
pub proof fn law_waiting_items_are_shown(
    recorded: Option<RecordedItem>,
    unrecorded: ItemId,
    now: i64,
    r: WaitingHead,
)
    requires
        r == head_of(recorded, unrecorded, now),
    ensures
        recorded matches Some(item) ==> r.item == item.item && r.seq == item.seq && r.created_at
            == item.created_at,
        recorded is None ==> r.item == unrecorded && r.seq == 0 && r.created_at == now,
        r.revision == 1 && r.updated_at == now,
{
}

/// While a turn runs, its answer and its reasoning are shown as far as they are
/// written, the answer first; without a turn nothing is.
pub proof fn law_running_turns_show_their_texts(
    session: SessionId,
    turn: TurnId,
    answer: DeferredText,
    reasoning: DeferredText,
)
    ensures
        texts_in_progress(session, None, Some(answer), Some(reasoning)).len() == 0,
        texts_in_progress(session, Some(turn), None, None).len() == 0,
        ({
            let both = texts_in_progress(session, Some(turn), Some(answer), Some(reasoning));
            &&& both.len() == 2
            &&& both[0].channel is AssistantMessage && both[0].text == answer.text && both[0].item
                == answer.item && both[0].turn == turn && both[0].session == session
            &&& both[1].channel is Reasoning && both[1].text == reasoning.text && both[1].item
                == reasoning.item && both[1].turn == turn && both[1].session == session
            &&& texts_in_progress(session, Some(turn), Some(answer), None) == seq![both[0]]
            &&& texts_in_progress(session, Some(turn), None, Some(reasoning)) == seq![both[1]]
        }),
{
    let both = texts_in_progress(session, Some(turn), Some(answer), Some(reasoning));
    assert(texts_in_progress(session, Some(turn), Some(answer), None) =~= seq![both[0]]);
    assert(texts_in_progress(session, Some(turn), None, Some(reasoning)) =~= seq![both[1]]);
}

/// There is a snapshot of a session that is recorded and whose history and queue
/// can be read.
pub proof fn law_recorded_sessions_have_a_snapshot(
    has_rollout: bool,
    history: Result<bool, String>,
    queue: Option<String>,
    r: Result<bool, (&'static str, String)>,
)
    requires
        r == snapshot_of(has_rollout, history, queue),
    ensures
        !has_rollout ==> r matches Ok(false),
        has_rollout && history is Err ==> (r matches Err((_, error)) && error == history->Err_0),
        has_rollout && history is Ok && !history->Ok_0 ==> r matches Ok(false),
        has_rollout && history is Ok && history->Ok_0 && queue is Some ==> (r matches Err((_, error))
            && error == queue->0),
        has_rollout && history is Ok && history->Ok_0 && queue is None ==> r matches Ok(true),
{
}

/// What a registry does with an acknowledgement is what the subscription does.
pub proof fn law_acknowledged_subscriptions_stay_the_same(
    before: EventSubscription,
    cursor: EventCursor,
    end: u64,
    now: i64,
    after: EventSubscription,
    answer: Option<SubscriptionRefusal>,
    i: int,
)
    requires
        is_acknowledged(
            before,
            seq![cursor],
            seq![Ok::<Option<u64>, String>(Some(end))],
            now,
            after,
            answer,
        ),
        0 <= i < before.selectors@.len(),
        stream_of(before.selectors@[i]) == cursor.stream@,
    ensures
        after.id == before.id,
        after.connection == before.connection,
        after.selectors == before.selectors,
        seq_for(before.acked@, cursor.stream@) <= cursor.seq <= end ==> answer is None
            && after.last_ack_at == Some(now) && seq_for(after.acked@, cursor.stream@)
            == cursor.seq,
        !(seq_for(before.acked@, cursor.stream@) <= cursor.seq <= end) ==> answer is Some
            && after.last_ack_at == before.last_ack_at && seq_for(after.acked@, cursor.stream@)
            == seq_for(before.acked@, cursor.stream@),
{
    let cursors = seq![cursor];
    let barriers = seq![Ok::<Option<u64>, String>(Some(end))];
    law_places_are_acknowledged(
        before.selectors@,
        ack_table(before.acked@),
        cursors,
        barriers,
        0,
        end,
        i,
    );
    assert(cursors.len() == 1);
}

} // verus!
