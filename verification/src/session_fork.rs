//! Writing a copy of a session into a rollout of its own.
//!
//! A copy stands by itself: the history that it keeps is written anew, and it
//! names the session that it was copied from.

use crate::message_edit::SessionItem;
use crate::paths::Component;
use crate::protocol::{SessionId, TurnId};
use crate::text::{text_equal, texts};
use crate::turn_cut::{
    build_runtime_session_from_user_turn_cut, changes_directory, cut_keeps, default_model, has_cut,
    is_cut_session, is_made_by_cut, CutError, CutOptions, CutSession, CutSource, RollbackMode,
};
use vstd::prelude::*;

verus! {

/// Where a copy is cut: behind the named turn, or before it.
#[derive(Clone, Copy, Debug, PartialEq, Eq, Structural)]
pub enum ForkCut {
    Through,
    Before,
}

/// How the history is cut for a copy.
pub open spec fn mode_of(cut: ForkCut) -> RollbackMode {
    match cut {
        ForkCut::Through => RollbackMode::ThroughUserTurn,
        ForkCut::Before => RollbackMode::BeforeUserTurn,
    }
}

/// How the history is cut for a copy.
pub fn rollback_mode_of(cut: ForkCut) -> (r: RollbackMode)
    ensures
        r == mode_of(cut),
{
    match cut {
        ForkCut::Through => RollbackMode::ThroughUserTurn,
        ForkCut::Before => RollbackMode::BeforeUserTurn,
    }
}

/// Where a copy came from.
#[derive(Clone, Copy, Debug)]
pub struct ForkLineage {
    pub parent: Option<SessionId>,
    pub fork_from: Option<SessionId>,
    pub at_turn: Option<TurnId>,
}

/// Where a copy came from. It is nobody's child.
pub fn fork_lineage(source: SessionId, at_turn: Option<TurnId>) -> (r: ForkLineage)
    ensures
        r == (ForkLineage { parent: None, fork_from: Some(source), at_turn }),
{
    ForkLineage { parent: None, fork_from: Some(source), at_turn }
}

/// What a copy is asked for: the session that it is made of, the turn that it
/// is made at, and where its history is cut.
#[derive(Debug)]
pub struct ForkOptions {
    pub source: SessionId,
    pub at_turn: Option<TurnId>,
    pub index: Option<u32>,
    pub cut: ForkCut,
    pub title: Option<String>,
    pub cwd: Option<Vec<Component>>,
}

/// The cut that makes a copy.
pub open spec fn fork_cut(source: CutSource, options: ForkOptions) -> CutOptions {
    CutOptions {
        index: options.index,
        mode: mode_of(options.cut),
        cwd: options.cwd,
        title: options.title,
        created_at: source.now,
    }
}

/// Whether `copy` is the copy that is asked for: what the cut makes of the
/// source, with where it came from.
pub open spec fn is_fork(
    source: CutSource,
    options: ForkOptions,
    opened: Result<String, String>,
    copy: CutSession,
) -> bool {
    let cut = fork_cut(source, options);
    &&& copy.parent is None
    &&& copy.fork_from == Some(options.source)
    &&& copy.fork_at == options.at_turn
    &&& is_made_by_cut(
        source,
        cut,
        default_model(source, cut, opened),
        CutSession { fork_from: None, fork_at: None, ..copy },
    )
}

/// Makes a copy of a session. `opened` is the model that the workspace of the
/// copy has by itself, or why it could not be opened; it counts only where the
/// copy stands in another directory.
pub fn fork_runtime_session(
    source: &CutSource,
    options: ForkOptions,
    opened: &Result<String, String>,
) -> (r: Result<CutSession, CutError>)
    ensures
        match r {
            Err(CutError::TurnMissing) => !has_cut(source.items@, options.index),
            Err(CutError::Workspace(error)) => {
                &&& has_cut(source.items@, options.index)
                &&& changes_directory(*source, fork_cut(*source, options))
                &&& *opened == Err::<String, String>(error)
            },
            Ok(copy) => {
                &&& has_cut(source.items@, options.index)
                &&& changes_directory(*source, fork_cut(*source, options)) ==> *opened is Ok
                &&& is_fork(*source, options, *opened, copy)
            },
        },
{
    let lineage = fork_lineage(options.source, options.at_turn);
    let cut = CutOptions {
        index: options.index,
        mode: rollback_mode_of(options.cut),
        cwd: options.cwd,
        title: options.title,
        created_at: source.now,
    };
    match build_runtime_session_from_user_turn_cut(source, &cut, opened) {
        Err(error) => Err(error),
        Ok(made) => {
            let mut copy = made;
            copy.parent = lineage.parent;
            copy.fork_from = lineage.fork_from;
            copy.fork_at = lineage.at_turn;
            proof {
                let kept = choose|kept: Seq<SessionItem>|
                    {
                        &&& #[trigger] cut_keeps(
                            source.items@,
                            cut.index,
                            cut.mode,
                            kept,
                        )
                        &&& is_cut_session(
                            *source,
                            cut,
                            default_model(*source, cut, *opened),
                            kept,
                            made,
                        )
                    };
                assert(made.parent is None && made.fork_from is None && made.fork_at is None);
                assert(CutSession { fork_from: None, fork_at: None, ..copy } == made);
            }
            Ok(copy)
        },
    }
}

/// A line of the rollout of a copy.
#[derive(Clone, Copy, Debug, PartialEq, Eq, Structural)]
pub enum ForkLine {
    Turn(TurnId),
    /// The item in this place of the history that is kept, with its new number.
    Item { place: usize, seq: u64 },
    Compaction,
}

/// Whether an item of the turn is among the items.
pub open spec fn turn_occurs(items: Seq<SessionItem>, turn: TurnId) -> bool {
    exists|i: int| 0 <= i < items.len() && (#[trigger] items[i]).turn == turn
}

/// The lines for the items: an item is preceded by its turn where it is the
/// first of it and the turn is known.
pub open spec fn item_lines(items: Seq<SessionItem>, known: Seq<TurnId>) -> Seq<ForkLine>
    decreases items.len(),
{
    if items.len() == 0 {
        Seq::empty()
    } else {
        let earlier = items.drop_last();
        let turn = items.last().turn;
        let item = ForkLine::Item { place: (items.len() - 1) as usize, seq: items.len() as u64 };
        if !turn_occurs(earlier, turn) && known.contains(turn) {
            item_lines(earlier, known).push(ForkLine::Turn(turn)).push(item)
        } else {
            item_lines(earlier, known).push(item)
        }
    }
}

/// The lines of a copy: its items with their turns, and the compaction where
/// an item of its turn is kept.
pub open spec fn fork_lines(
    items: Seq<SessionItem>,
    known: Seq<TurnId>,
    compaction: Option<TurnId>,
) -> Seq<ForkLine> {
    if compaction is Some && turn_occurs(items, compaction->0) {
        item_lines(items, known).push(ForkLine::Compaction)
    } else {
        item_lines(items, known)
    }
}

fn occurs_before(items: &Vec<SessionItem>, end: usize, turn: TurnId) -> (r: bool)
    requires
        end <= items@.len(),
    ensures
        r == turn_occurs(items@.take(end as int), turn),
{
    let ghost earlier = items@.take(end as int);
    let mut i: usize = 0;
    while i < end
        invariant
            i <= end <= items@.len(),
            earlier == items@.take(end as int),
            forall|j: int| 0 <= j < i ==> (#[trigger] earlier[j]).turn != turn,
        decreases end - i,
    {
        assert(earlier[i as int] == items@[i as int]);
        if items[i].turn == turn {
            return true;
        }
        i = i + 1;
    }
    false
}

fn lists_turn(turns: &Vec<TurnId>, turn: TurnId) -> (r: bool)
    ensures
        r == turns@.contains(turn),
{
    let mut i: usize = 0;
    while i < turns.len()
        invariant
            i <= turns@.len(),
            forall|j: int| 0 <= j < i ==> #[trigger] turns@[j] != turn,
        decreases turns@.len() - i,
    {
        if turns[i] == turn {
            return true;
        }
        i = i + 1;
    }
    false
}

/// The lines that a copy is written with.
pub fn write_kept_history(
    items: &Vec<SessionItem>,
    known: &Vec<TurnId>,
    compaction: Option<TurnId>,
) -> (r: Vec<ForkLine>)
    ensures
        r@ == fork_lines(items@, known@, compaction),
{
    let mut lines: Vec<ForkLine> = Vec::new();
    let mut i: usize = 0;
    assert(items@.take(0) =~= Seq::empty());
    while i < items.len()
        invariant
            i <= items.len(),
            i <= items@.len(),
            lines@ == item_lines(items@.take(i as int), known@),
        decreases items@.len() - i,
    {
        let turn = items[i].turn;
        assert(items@.take(i + 1).drop_last() =~= items@.take(i as int));
        assert(items@.take(i + 1).last() == items@[i as int]);
        if !occurs_before(items, i, turn) && lists_turn(known, turn) {
            lines.push(ForkLine::Turn(turn));
        }
        lines.push(ForkLine::Item { place: i, seq: i as u64 + 1 });
        i = i + 1;
    }
    assert(items@.take(items@.len() as int) =~= items@);
    if let Some(turn) = compaction {
        if occurs_before(items, items.len(), turn) {
            lines.push(ForkLine::Compaction);
        }
    }
    lines
}

/// What is said where a line cannot be written; a compaction that cannot be
/// written is left out.
pub fn line_failure(line: ForkLine) -> (r: Option<&'static str>)
    ensures
        match (line, r) {
            (ForkLine::Turn(_), Some(text)) => text@ == "failed to persist forked turn: "@,
            (ForkLine::Item { .. }, Some(text)) => text@ == "failed to persist forked item: "@,
            (ForkLine::Compaction, None) => true,
            _ => false,
        },
{
    match line {
        ForkLine::Turn(_) => Some("failed to persist forked turn: "),
        ForkLine::Item { .. } => Some("failed to persist forked item: "),
        ForkLine::Compaction => None,
    }
}

/// Which stored outputs go with a copy: those of calls that it keeps.
pub open spec fn kept_outputs(calls: Seq<Seq<char>>, outputs: Seq<Seq<char>>) -> Seq<usize>
    decreases outputs.len(),
{
    if outputs.len() == 0 {
        Seq::empty()
    } else {
        let before = kept_outputs(calls, outputs.drop_last());
        if calls.contains(outputs.last()) {
            before.push((outputs.len() - 1) as usize)
        } else {
            before
        }
    }
}

fn lists_call(calls: &Vec<String>, call: &str) -> (r: bool)
    ensures
        r == texts(calls@).contains(call@),
{
    let ghost names = texts(calls@);
    let mut i: usize = 0;
    while i < calls.len()
        invariant
            i <= calls@.len(),
            names == texts(calls@),
            forall|j: int| 0 <= j < i ==> #[trigger] names[j] != call@,
        decreases calls@.len() - i,
    {
        assert(names[i as int] == calls@[i as int]@);
        if text_equal(calls[i].as_str(), call) {
            return true;
        }
        i = i + 1;
    }
    false
}

/// The places of the stored outputs that go with a copy. `outputs` says which
/// call each belongs to.
pub fn keep_output_references(calls: &Vec<String>, outputs: &Vec<String>) -> (r: Vec<usize>)
    ensures
        r@ == kept_outputs(texts(calls@), texts(outputs@)),
{
    let mut kept: Vec<usize> = Vec::new();
    let mut i: usize = 0;
    assert(texts(outputs@.take(0)) =~= Seq::empty());
    while i < outputs.len()
        invariant
            i <= outputs@.len(),
            kept@ == kept_outputs(texts(calls@), texts(outputs@.take(i as int))),
        decreases outputs@.len() - i,
    {
        let ghost more = texts(outputs@.take(i + 1));
        assert(more.drop_last() =~= texts(outputs@.take(i as int)));
        assert(more.last() == outputs@[i as int]@);
        if lists_call(calls, outputs[i].as_str()) {
            kept.push(i);
        }
        i = i + 1;
    }
    assert(outputs@.take(outputs@.len() as int) =~= outputs@);
    kept
}

/// A copy that is to be written.
#[derive(Debug)]
pub struct ForkCopy {
    /// Whether the copy is kept.
    pub durable: bool,
    pub has_context: bool,
    pub items: Vec<SessionItem>,
    /// The turns of which more is known than their items.
    pub known: Vec<TurnId>,
    /// The turn of the latest compaction.
    pub compaction: Option<TurnId>,
    /// The tool calls among the items.
    pub calls: Vec<String>,
}

/// What writing a copy waits for. `recorded` says whether its context is on
/// record.
#[derive(Debug)]
pub enum DurableForkPhase {
    Cut,
    MetaWritten(ForkCopy),
    ContextWritten(ForkCopy),
    HistoryWritten { copy: ForkCopy, recorded: bool },
    ReferencesRead { copy: ForkCopy, recorded: bool },
    ReferencesWritten { recorded: bool },
    Finished,
}

/// What the host observed while a copy is written.
#[derive(Debug)]
pub enum DurableForkEvent {
    /// The copy, or why the history cannot be cut there.
    Cut(Result<ForkCopy, String>),
    /// Why a write failed, if it did. A line that could not be written says so
    /// itself.
    Written(Option<String>),
    /// The calls whose outputs are stored with the source.
    References(Result<Vec<String>, String>),
}

/// What the host has to do to write a copy. `L` are the lines of its history
/// and `R` the places of the stored outputs that go with it; they are `()`
/// where only the order of the steps matters.
#[derive(Debug)]
pub enum DurableForkAction<L = Vec<ForkLine>, R = Vec<usize>> {
    /// Append what the copy is to its new rollout.
    AppendMeta,
    /// Append the context of the copy.
    AppendContext,
    /// Append the lines, as far as they can be written.
    WriteHistory(L),
    /// Read which outputs are stored with the source.
    ReadReferences,
    /// Append the stored outputs in these places.
    AppendReferences(R),
    /// The copy is there; says whether its context is on record.
    Created(bool),
    /// The message is the text followed by the error.
    Fail(&'static str, String),
    /// Nothing: the event does not belong to the phase.
    Ignore,
}

/// What the host has to do to write a copy, without what is written.
pub type DurableForkOrder = DurableForkAction<(), ()>;

impl DurableForkAction {
    /// What is to be done, without what is written.
    pub open spec fn order(self) -> DurableForkOrder {
        match self {
            DurableForkAction::AppendMeta => DurableForkAction::AppendMeta,
            DurableForkAction::AppendContext => DurableForkAction::AppendContext,
            DurableForkAction::WriteHistory(_) => DurableForkAction::WriteHistory(()),
            DurableForkAction::ReadReferences => DurableForkAction::ReadReferences,
            DurableForkAction::AppendReferences(_) => DurableForkAction::AppendReferences(()),
            DurableForkAction::Created(recorded) => DurableForkAction::Created(recorded),
            DurableForkAction::Fail(text, error) => DurableForkAction::Fail(text, error),
            DurableForkAction::Ignore => DurableForkAction::Ignore,
        }
    }
}

/// The step that writes the history of a copy.
pub open spec fn history_step(copy: ForkCopy, recorded: bool) -> (
    DurableForkPhase,
    DurableForkOrder,
) {
    (DurableForkPhase::HistoryWritten { copy, recorded }, DurableForkAction::WriteHistory(()))
}

/// The next step of writing a copy. One that is not kept is not written, and
/// stored outputs are taken over from the rollout of the source, where it has
/// one.
pub open spec fn durable_fork_step(
    source_durable: bool,
    phase: DurableForkPhase,
    event: DurableForkEvent,
) -> (DurableForkPhase, DurableForkOrder) {
    match (phase, event) {
        (DurableForkPhase::Cut, DurableForkEvent::Cut(cut)) => match cut {
            Err(message) => (DurableForkPhase::Finished, DurableForkAction::Fail("", message)),
            Ok(copy) => if copy.durable {
                (DurableForkPhase::MetaWritten(copy), DurableForkAction::AppendMeta)
            } else {
                (DurableForkPhase::Finished, DurableForkAction::Created(false))
            },
        },
        (DurableForkPhase::MetaWritten(copy), DurableForkEvent::Written(failure)) => match failure {
            Some(error) => (
                DurableForkPhase::Finished,
                DurableForkAction::Fail("failed to persist forked session metadata: ", error),
            ),
            None => if copy.has_context {
                (DurableForkPhase::ContextWritten(copy), DurableForkAction::AppendContext)
            } else {
                history_step(copy, false)
            },
        },
        (DurableForkPhase::ContextWritten(copy), DurableForkEvent::Written(failure)) => history_step(
            copy,
            failure is None,
        ),
        (DurableForkPhase::HistoryWritten { copy, recorded }, DurableForkEvent::Written(failure)) => match failure {
            Some(message) => (DurableForkPhase::Finished, DurableForkAction::Fail("", message)),
            None => if source_durable {
                (
                    DurableForkPhase::ReferencesRead { copy, recorded },
                    DurableForkAction::ReadReferences,
                )
            } else {
                (DurableForkPhase::Finished, DurableForkAction::Created(recorded))
            },
        },
        (DurableForkPhase::ReferencesRead { copy, recorded }, DurableForkEvent::References(read)) => match read {
            Err(error) => (
                DurableForkPhase::Finished,
                DurableForkAction::Fail("failed to read fork output references: ", error),
            ),
            Ok(outputs) => (
                DurableForkPhase::ReferencesWritten { recorded },
                DurableForkAction::AppendReferences(()),
            ),
        },
        (DurableForkPhase::ReferencesWritten { recorded }, DurableForkEvent::Written(failure)) => match failure {
            Some(error) => (
                DurableForkPhase::Finished,
                DurableForkAction::Fail("failed to persist fork output references: ", error),
            ),
            None => (DurableForkPhase::Finished, DurableForkAction::Created(recorded)),
        },
        _ => (phase, DurableForkAction::Ignore),
    }
}

/// Whether an action writes what the copy holds.
pub open spec fn writes_copy(
    phase: DurableForkPhase,
    event: DurableForkEvent,
    step: (DurableForkPhase, DurableForkAction),
) -> bool {
    match step.1 {
        DurableForkAction::WriteHistory(lines) => {
            &&& step.0 matches DurableForkPhase::HistoryWritten { copy, .. } && lines@
                == fork_lines(copy.items@, copy.known@, copy.compaction)
        },
        DurableForkAction::AppendReferences(places) => match (phase, event) {
            (
                DurableForkPhase::ReferencesRead { copy, .. },
                DurableForkEvent::References(Ok(outputs)),
            ) => places@ == kept_outputs(texts(copy.calls@), texts(outputs@)),
            _ => false,
        },
        _ => true,
    }
}

/// Whether `step` is the next one of writing a copy.
pub open spec fn is_durable_fork_step(
    source_durable: bool,
    phase: DurableForkPhase,
    event: DurableForkEvent,
    step: (DurableForkPhase, DurableForkAction),
) -> bool {
    &&& (step.0, step.1.order()) == durable_fork_step(source_durable, phase, event)
    &&& writes_copy(phase, event, step)
}

fn write_history(copy: ForkCopy, recorded: bool) -> (r: (DurableForkPhase, DurableForkAction))
    ensures
        (r.0, r.1.order()) == history_step(copy, recorded),
        r.1 matches DurableForkAction::WriteHistory(lines) && lines@ == fork_lines(
            copy.items@,
            copy.known@,
            copy.compaction,
        ),
{
    let lines = write_kept_history(&copy.items, &copy.known, copy.compaction);
    (DurableForkPhase::HistoryWritten { copy, recorded }, DurableForkAction::WriteHistory(lines))
}

/// Takes writing a copy one step further.
pub fn advance_durable_fork(
    source_durable: bool,
    phase: DurableForkPhase,
    event: DurableForkEvent,
) -> (r: (DurableForkPhase, DurableForkAction))
    ensures
        is_durable_fork_step(source_durable, phase, event, r),
{
    match (phase, event) {
        (DurableForkPhase::Cut, DurableForkEvent::Cut(cut)) => match cut {
            Err(message) => (DurableForkPhase::Finished, DurableForkAction::Fail("", message)),
            Ok(copy) => if copy.durable {
                (DurableForkPhase::MetaWritten(copy), DurableForkAction::AppendMeta)
            } else {
                (DurableForkPhase::Finished, DurableForkAction::Created(false))
            },
        },
        (DurableForkPhase::MetaWritten(copy), DurableForkEvent::Written(failure)) => match failure {
            Some(error) => (
                DurableForkPhase::Finished,
                DurableForkAction::Fail("failed to persist forked session metadata: ", error),
            ),
            None => if copy.has_context {
                (DurableForkPhase::ContextWritten(copy), DurableForkAction::AppendContext)
            } else {
                write_history(copy, false)
            },
        },
        (DurableForkPhase::ContextWritten(copy), DurableForkEvent::Written(failure)) => write_history(
            copy,
            failure.is_none(),
        ),
        (DurableForkPhase::HistoryWritten { copy, recorded }, DurableForkEvent::Written(failure)) => match failure {
            Some(message) => (DurableForkPhase::Finished, DurableForkAction::Fail("", message)),
            None => if source_durable {
                (
                    DurableForkPhase::ReferencesRead { copy, recorded },
                    DurableForkAction::ReadReferences,
                )
            } else {
                (DurableForkPhase::Finished, DurableForkAction::Created(recorded))
            },
        },
        (DurableForkPhase::ReferencesRead { copy, recorded }, DurableForkEvent::References(read)) => match read {
            Err(error) => (
                DurableForkPhase::Finished,
                DurableForkAction::Fail("failed to read fork output references: ", error),
            ),
            Ok(outputs) => (
                DurableForkPhase::ReferencesWritten { recorded },
                DurableForkAction::AppendReferences(
                    keep_output_references(&copy.calls, &outputs),
                ),
            ),
        },
        (DurableForkPhase::ReferencesWritten { recorded }, DurableForkEvent::Written(failure)) => match failure {
            Some(error) => (
                DurableForkPhase::Finished,
                DurableForkAction::Fail("failed to persist fork output references: ", error),
            ),
            None => (DurableForkPhase::Finished, DurableForkAction::Created(recorded)),
        },
        (phase, _) => (phase, DurableForkAction::Ignore),
    }
}

/// A copy is nobody's child: it names the session and the turn that it was made
/// of, and is otherwise what the cut makes of them.
pub proof fn law_copies_name_their_source(
    source: CutSource,
    options: ForkOptions,
    opened: Result<String, String>,
    copy: CutSession,
)
    requires
        is_fork(source, options, opened, copy),
    ensures
        copy.parent is None,
        copy.fork_from == Some(options.source),
        copy.fork_at == options.at_turn,
        copy.active is None,
        copy.created_at == source.now,
        cut_keeps(
            source.items@,
            options.index,
            mode_of(options.cut),
            copy.items@,
        ),
{
}

/// Whether no line stands twice for one turn.
pub open spec fn turns_once(lines: Seq<ForkLine>) -> bool {
    forall|i: int, j: int|
        0 <= i < j < lines.len() && #[trigger] lines[i] is Turn && #[trigger] lines[j] is Turn
            ==> lines[i] != lines[j]
}

/// Whether the item in the place `p` stands in the lines, with its number.
pub open spec fn item_written(lines: Seq<ForkLine>, p: int) -> bool {
    lines.contains(ForkLine::Item { place: p as usize, seq: (p + 1) as u64 })
}

spec fn has_turn_line(lines: Seq<ForkLine>, turn: TurnId) -> bool {
    lines.contains(ForkLine::Turn(turn))
}

proof fn lemma_item_lines(items: Seq<SessionItem>, known: Seq<TurnId>)
    requires
        items.len() < usize::MAX,
    ensures
        turns_once(item_lines(items, known)),
        forall|turn: TurnId| #[trigger]
            has_turn_line(item_lines(items, known), turn) ==> turn_occurs(items, turn),
        forall|p: int| 0 <= p < items.len() ==> #[trigger] item_written(
            item_lines(items, known),
            p,
        ),
    decreases items.len(),
{
    if items.len() > 0 {
        let earlier = items.drop_last();
        let turn = items.last().turn;
        lemma_item_lines(earlier, known);
        let before = item_lines(earlier, known);
        let lines = item_lines(items, known);
        let item = ForkLine::Item { place: (items.len() - 1) as usize, seq: items.len() as u64 };
        assert forall|t: TurnId| turn_occurs(earlier, t) implies turn_occurs(items, t) by {
            let i = choose|i: int| 0 <= i < earlier.len() && (#[trigger] earlier[i]).turn == t;
            assert(items[i].turn == t);
        }
        assert(items[items.len() - 1].turn == turn);
        assert(turn_occurs(items, turn));
        assert(lines[lines.len() - 1] == item);
        assert forall|k: int| 0 <= k < before.len() implies #[trigger] lines[k] == before[k] by {}
        assert forall|t: TurnId| #[trigger] has_turn_line(lines, t) implies turn_occurs(
            items,
            t,
        ) by {
            let k = choose|k: int| 0 <= k < lines.len() && lines[k] == ForkLine::Turn(t);
            if k < before.len() {
                assert(before[k] == ForkLine::Turn(t));
                assert(has_turn_line(before, t));
            }
        }
        assert forall|i: int, j: int|
            0 <= i < j < lines.len() && #[trigger] lines[i] is Turn && #[trigger] lines[j] is Turn implies lines[i]
            != lines[j] by {
            if j < before.len() {
                assert(before[i] == lines[i] && before[j] == lines[j]);
            } else {
                assert(lines[j] == ForkLine::Turn(turn));
                assert(i < before.len());
                if lines[i] == lines[j] {
                    assert(before[i] == ForkLine::Turn(turn));
                    assert(has_turn_line(before, turn));
                }
            }
        }
        assert forall|p: int| 0 <= p < items.len() implies #[trigger] item_written(lines, p) by {
            if p < earlier.len() {
                assert(item_written(before, p));
                let wanted = ForkLine::Item { place: p as usize, seq: (p + 1) as u64 };
                let k = choose|k: int| 0 <= k < before.len() && before[k] == wanted;
                assert(lines[k] == wanted);
            } else {
                assert(lines[lines.len() - 1] == item);
            }
        }
    }
}

/// A copy holds every item that is kept, numbered from one without gaps, and
/// no turn twice.
pub proof fn law_copies_are_complete(
    items: Seq<SessionItem>,
    known: Seq<TurnId>,
    compaction: Option<TurnId>,
)
    requires
        items.len() < usize::MAX,
    ensures
        turns_once(fork_lines(items, known, compaction)),
        forall|p: int|
            0 <= p < items.len() ==> #[trigger] item_written(
                fork_lines(items, known, compaction),
                p,
            ),
{
    lemma_item_lines(items, known);
    let before = item_lines(items, known);
    let lines = fork_lines(items, known, compaction);
    assert forall|p: int| 0 <= p < items.len() implies #[trigger] item_written(lines, p) by {
        assert(item_written(before, p));
        let wanted = ForkLine::Item { place: p as usize, seq: (p + 1) as u64 };
        let k = choose|k: int| 0 <= k < before.len() && before[k] == wanted;
        assert(lines[k] == wanted);
    }
    assert forall|i: int, j: int|
        0 <= i < j < lines.len() && #[trigger] lines[i] is Turn && #[trigger] lines[j] is Turn implies lines[i]
        != lines[j] by {
        if j < before.len() {
            assert(before[i] == lines[i] && before[j] == lines[j]);
        }
    }
}

/// A copy is cut as it is asked for: through the turn or before it, under the
/// title and in the directory that are given, else those of the source.
pub proof fn law_copies_are_cut_as_asked(source: CutSource, options: ForkOptions)
    ensures
        options.cut is Through ==> fork_cut(source, options).mode is ThroughUserTurn,
        options.cut is Before ==> fork_cut(source, options).mode is BeforeUserTurn,
        fork_cut(source, options).index == options.index,
        fork_cut(source, options).cwd == options.cwd,
        fork_cut(source, options).title == options.title,
        fork_cut(source, options).created_at == source.now,
{
}

/// The history of a copy is written item by item, each turn that is known before
/// its first item, and the compaction last where its turn is kept.
pub proof fn law_copies_are_written_in_order(
    items: Seq<SessionItem>,
    item: SessionItem,
    known: Seq<TurnId>,
    compaction: TurnId,
)
    requires
        items.len() < u64::MAX,
        items.len() < usize::MAX,
    ensures
        ({
            let line = ForkLine::Item { place: items.len() as usize, seq: (items.len() + 1) as u64 };
            let new = forall|i: int| 0 <= i < items.len() ==> (#[trigger] items[i]).turn
                != item.turn;
            &&& new && known.contains(item.turn) ==> item_lines(items.push(item), known)
                == item_lines(items, known).push(ForkLine::Turn(item.turn)).push(line)
            &&& !new || !known.contains(item.turn) ==> item_lines(items.push(item), known)
                == item_lines(items, known).push(line)
        }),
        item_lines(Seq::empty(), known) == Seq::<ForkLine>::empty(),
        fork_lines(items, known, None) == item_lines(items, known),
        (exists|i: int| 0 <= i < items.len() && (#[trigger] items[i]).turn == compaction)
            ==> fork_lines(items, known, Some(compaction)) == item_lines(items, known).push(
            ForkLine::Compaction,
        ),
        (forall|i: int| 0 <= i < items.len() ==> (#[trigger] items[i]).turn != compaction)
            ==> fork_lines(items, known, Some(compaction)) == item_lines(items, known),
{
    assert(items.push(item).drop_last() =~= items);
}

/// The output that a copy keeps is that of the calls that it keeps.
pub proof fn law_copies_keep_the_output_of_their_calls(
    calls: Seq<Seq<char>>,
    outputs: Seq<Seq<char>>,
    output: Seq<char>,
)
    requires
        outputs.len() < usize::MAX,
    ensures
        kept_outputs(calls, Seq::empty()) == Seq::<usize>::empty(),
        calls.contains(output) ==> kept_outputs(calls, outputs.push(output)) == kept_outputs(
            calls,
            outputs,
        ).push(outputs.len() as usize),
        !calls.contains(output) ==> kept_outputs(calls, outputs.push(output)) == kept_outputs(
            calls,
            outputs,
        ),
{
    assert(outputs.push(output).drop_last() =~= outputs);
}

/// A copy that is kept is written whole: its metadata, its context where it has
/// one, its history, and the output of its calls where the source has any to
/// read. One that is not kept is made at once.
pub proof fn law_kept_copies_are_written_whole(
    source_durable: bool,
    copy: ForkCopy,
    outputs: Vec<String>,
    unwritten: Option<String>,
    error: String,
)
    requires
        copy.durable,
    ensures
        ({
            let a = durable_fork_step(
                source_durable,
                DurableForkPhase::Cut,
                DurableForkEvent::Cut(Ok(copy)),
            );
            let b = durable_fork_step(source_durable, a.0, DurableForkEvent::Written(None));
            let c = if copy.has_context {
                durable_fork_step(source_durable, b.0, DurableForkEvent::Written(unwritten))
            } else {
                b
            };
            let d = durable_fork_step(source_durable, c.0, DurableForkEvent::Written(None));
            let e = if source_durable {
                durable_fork_step(source_durable, d.0, DurableForkEvent::References(Ok(outputs)))
            } else {
                d
            };
            let f = if source_durable {
                durable_fork_step(source_durable, e.0, DurableForkEvent::Written(None))
            } else {
                d
            };
            &&& a.1 is AppendMeta
            &&& copy.has_context ==> b.1 is AppendContext
            &&& c.1 is WriteHistory
            &&& source_durable ==> d.1 is ReadReferences && e.1 is AppendReferences
            &&& f.1 == DurableForkOrder::Created(copy.has_context && unwritten is None)
            &&& durable_fork_step(source_durable, a.0, DurableForkEvent::Written(Some(error))).1
                matches DurableForkAction::Fail(_, told) && told == error
            &&& durable_fork_step(source_durable, c.0, DurableForkEvent::Written(Some(error))).1
                matches DurableForkAction::Fail(_, told) && told == error
            &&& source_durable ==> (durable_fork_step(
                source_durable,
                d.0,
                DurableForkEvent::References(Err(error)),
            ).1 matches DurableForkAction::Fail(_, told) && told == error)
            &&& source_durable ==> (durable_fork_step(
                source_durable,
                e.0,
                DurableForkEvent::Written(Some(error)),
            ).1 matches DurableForkAction::Fail(_, told) && told == error)
        }),
{
}

/// A copy that is not kept is written nowhere, and one that cannot be cut is
/// not made.
pub proof fn law_other_copies_are_not_written(
    source_durable: bool,
    copy: ForkCopy,
    message: String,
)
    requires
        !copy.durable,
    ensures
        durable_fork_step(
            source_durable,
            DurableForkPhase::Cut,
            DurableForkEvent::Cut(Ok(copy)),
        ).1 == DurableForkOrder::Created(false),
        durable_fork_step(
            source_durable,
            DurableForkPhase::Cut,
            DurableForkEvent::Cut(Err(message)),
        ).1 matches DurableForkAction::Fail(_, told) && told == message,
{
}

/// What is written of a copy is its own history, and the output of the calls
/// that it keeps.
pub proof fn law_copies_write_their_own_history(
    source_durable: bool,
    copy: ForkCopy,
    recorded: bool,
    outputs: Vec<String>,
    written: (DurableForkPhase, DurableForkAction),
    referred: (DurableForkPhase, DurableForkAction),
)
    requires
        !copy.has_context,
        is_durable_fork_step(
            source_durable,
            DurableForkPhase::MetaWritten(copy),
            DurableForkEvent::Written(None),
            written,
        ),
        is_durable_fork_step(
            source_durable,
            DurableForkPhase::ReferencesRead { copy, recorded },
            DurableForkEvent::References(Ok(outputs)),
            referred,
        ),
    ensures
        written.1 matches DurableForkAction::WriteHistory(lines) && lines@ == fork_lines(
            copy.items@,
            copy.known@,
            copy.compaction,
        ),
        referred.1 matches DurableForkAction::AppendReferences(places) && places@ == kept_outputs(
            texts(copy.calls@),
            texts(outputs@),
        ),
{
}

} // verus!
