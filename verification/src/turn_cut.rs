//! Cutting a session's history at a user turn: what is kept, and what the
//! session counts after the cut.

use crate::compaction::UsageTotals;
use crate::message_edit::{count_user_messages, user_message_count, SessionItem};
use crate::paths::{copy_path, parts, Component, PathPart};
use crate::protocol::{ItemId, SessionId, TurnId};
use crate::sessions::SessionStatus;
use crate::workspace_restore::same_path;
use crate::text::copy_text;
use vstd::prelude::*;

verus! {

/// Where a cut falls.
#[derive(Clone, Copy, Debug, PartialEq, Eq, Structural)]
pub enum RollbackMode {
    /// The selected turn is kept.
    ThroughUserTurn,
    /// The selected turn is dropped.
    BeforeUserTurn,
}

/// The turns that user messages opened, in order; a turn that goes on is
/// listed once.
pub open spec fn user_turns(items: Seq<SessionItem>) -> Seq<TurnId>
    decreases items.len(),
{
    if items.len() == 0 {
        Seq::empty()
    } else {
        let before = user_turns(items.drop_last());
        let item = items.last();
        if item.user_message && !(before.len() > 0 && before.last() == item.turn) {
            before.push(item.turn)
        } else {
            before
        }
    }
}

/// Lists the turns that user messages opened.
pub fn user_turn_ids(items: &Vec<SessionItem>) -> (r: Vec<TurnId>)
    ensures
        r@ == user_turns(items@),
{
    let mut turns: Vec<TurnId> = Vec::new();
    let mut i: usize = 0;
    assert(items@.take(0) =~= Seq::empty());
    while i < items.len()
        invariant
            i <= items@.len(),
            turns@ == user_turns(items@.take(i as int)),
        decreases items@.len() - i,
    {
        assert(items@.take(i + 1).drop_last() =~= items@.take(i as int));
        if items[i].user_message {
            let seen = turns.len() > 0 && turns[turns.len() - 1] == items[i].turn;
            if !seen {
                turns.push(items[i].turn);
            }
        }
        i = i + 1;
    }
    assert(items@.take(items@.len() as int) =~= items@);
    turns
}

/// Where the items of `turn` begin, if there are any.
pub open spec fn turn_begins(items: Seq<SessionItem>, turn: TurnId, i: int) -> bool {
    &&& 0 <= i < items.len()
    &&& items[i].turn == turn
    &&& forall|j: int| 0 <= j < i ==> (#[trigger] items[j]).turn != turn
}

/// Where the first unbroken run of items of `turn` ends, if it begins at `i`.
pub open spec fn run_ends(items: Seq<SessionItem>, turn: TurnId, i: int, end: int) -> bool {
    &&& i < end <= items.len()
    &&& forall|j: int| i <= j < end ==> (#[trigger] items[j]).turn == turn
    &&& end < items.len() ==> items[end].turn != turn
}

/// Whether a cut that selects `turn` keeps the first `end` items.
pub open spec fn cut_falls_at(
    items: Seq<SessionItem>,
    turn: TurnId,
    mode: RollbackMode,
    end: int,
) -> bool {
    match mode {
        RollbackMode::BeforeUserTurn => turn_begins(items, turn, end),
        RollbackMode::ThroughUserTurn => exists|i: int|
            turn_begins(items, turn, i) && run_ends(items, turn, i, end),
    }
}

proof fn lemma_user_turns_occur(items: Seq<SessionItem>, k: int)
    requires
        0 <= k < user_turns(items).len(),
    ensures
        exists|i: int| 0 <= i < items.len() && (#[trigger] items[i]).turn == user_turns(items)[k],
    decreases items.len(),
{
    if items.len() > 0 {
        let before = user_turns(items.drop_last());
        if k < before.len() {
            lemma_user_turns_occur(items.drop_last(), k);
            let i = choose|i: int|
                0 <= i < items.drop_last().len() && (#[trigger] items.drop_last()[i]).turn
                    == before[k];
            assert(items[i].turn == user_turns(items)[k]);
        } else {
            assert(items[items.len() - 1].turn == user_turns(items)[k]);
        }
    }
}

/// Why a cut is not possible.
#[derive(Debug, PartialEq, Eq)]
pub enum CutError {
    TurnMissing,
    /// The workspace of the new session could not be opened.
    Workspace(String),
}

impl CutError {
    /// What a client is told.
    pub fn message(&self) -> (r: String)
        ensures
            r@ == match *self {
                CutError::TurnMissing => "selected turn does not exist"@,
                CutError::Workspace(error) => "failed to initialize session workspace: "@ + error@,
            },
    {
        match self {
            CutError::TurnMissing => "selected turn does not exist".to_owned(),
            CutError::Workspace(error) => "failed to initialize session workspace: ".to_owned().concat(
                error.as_str(),
            ),
        }
    }
}

/// Whether `kept` is what a cut keeps of `items`. Without an index it keeps
/// them all.
pub open spec fn cut_keeps(
    items: Seq<SessionItem>,
    index: Option<u32>,
    mode: RollbackMode,
    kept: Seq<SessionItem>,
) -> bool {
    match index {
        None => kept == items,
        Some(index) => {
            &&& index < user_turns(items).len()
            &&& exists|end: int| #[trigger]
                cut_falls_at(items, user_turns(items)[index as int], mode, end) && 0 <= end
                    <= items.len() && kept == items.take(end)
        },
    }
}

/// Whether `items` has the user turn at which it is to be cut.
pub open spec fn has_cut(items: Seq<SessionItem>, index: Option<u32>) -> bool {
    match index {
        None => true,
        Some(index) => index < user_turns(items).len(),
    }
}

fn items_before(items: &Vec<SessionItem>, end: usize) -> (r: Vec<SessionItem>)
    requires
        end <= items@.len(),
    ensures
        r@ == items@.take(end as int),
{
    let mut kept: Vec<SessionItem> = Vec::new();
    let mut i: usize = 0;
    while i < end
        invariant
            i <= end <= items@.len(),
            kept@ == items@.take(i as int),
        decreases end - i,
    {
        kept.push(items[i]);
        i = i + 1;
        assert(kept@ =~= items@.take(i as int));
    }
    kept
}

/// The items that a cut keeps. Without a selected turn everything is kept;
/// with one, what precedes the turn, and the turn itself if the mode says so.
/// A turn is selected by its place among those that user messages opened.
pub fn kept_items_for_user_turn_cut(
    items: &Vec<SessionItem>,
    user_turn_index: Option<u32>,
    mode: RollbackMode,
) -> (r: Result<Vec<SessionItem>, CutError>)
    ensures
        match r {
            Ok(kept) => cut_keeps(items@, user_turn_index, mode, kept@),
            Err(error) => error is TurnMissing && !has_cut(items@, user_turn_index),
        },
{
    let index: usize = match user_turn_index {
        Some(index) => index as usize,
        None => {
            let kept = items_before(items, items.len());
            assert(items@.take(items@.len() as int) =~= items@);
            return Ok(kept);
        },
    };
    let turns = user_turn_ids(items);
    if index >= turns.len() {
        return Err(CutError::TurnMissing);
    }
    let selected = turns[index];
    proof {
        lemma_user_turns_occur(items@, index as int);
    }
    let mut begin: usize = 0;
    while begin < items.len() && items[begin].turn != selected
        invariant
            begin <= items@.len(),
            forall|j: int| 0 <= j < begin ==> (#[trigger] items@[j]).turn != selected,
        decreases items@.len() - begin,
    {
        begin = begin + 1;
    }
    assert(turn_begins(items@, selected, begin as int));
    let end: usize = match mode {
        RollbackMode::BeforeUserTurn => begin,
        RollbackMode::ThroughUserTurn => {
            let mut end: usize = begin;
            while end < items.len() && items[end].turn == selected
                invariant
                    begin <= end <= items@.len(),
                    forall|j: int| begin <= j < end ==> (#[trigger] items@[j]).turn == selected,
                decreases items@.len() - end,
            {
                end = end + 1;
            }
            assert(run_ends(items@, selected, begin as int, end as int));
            end
        },
    };
    assert(cut_falls_at(items@, selected, mode, end as int));
    Ok(items_before(items, end))
}

/// A cut falls in one place only.
pub proof fn law_a_cut_falls_once(
    items: Seq<SessionItem>,
    turn: TurnId,
    mode: RollbackMode,
    a: int,
    b: int,
)
    requires
        cut_falls_at(items, turn, mode, a),
        cut_falls_at(items, turn, mode, b),
    ensures
        a == b,
{
    match mode {
        RollbackMode::BeforeUserTurn => {
            lemma_begins_once(items, turn, a, b);
        },
        RollbackMode::ThroughUserTurn => {
            let i = choose|i: int| turn_begins(items, turn, i) && run_ends(items, turn, i, a);
            let j = choose|j: int| turn_begins(items, turn, j) && run_ends(items, turn, j, b);
            lemma_begins_once(items, turn, i, j);
            if a < b {
                assert(items[a].turn == turn);
            } else if b < a {
                assert(items[b].turn == turn);
            }
        },
    }
}

proof fn lemma_begins_once(items: Seq<SessionItem>, turn: TurnId, a: int, b: int)
    requires
        turn_begins(items, turn, a),
        turn_begins(items, turn, b),
    ensures
        a == b,
{
    if a < b {
        assert(items[a].turn != turn);
    } else if b < a {
        assert(items[b].turn != turn);
    }
}

/// Cutting before a turn keeps a beginning of what cutting through it keeps,
/// and of the turn itself it keeps nothing.
pub proof fn law_cutting_before_keeps_less(
    items: Seq<SessionItem>,
    turn: TurnId,
    before: int,
    through: int,
)
    requires
        cut_falls_at(items, turn, RollbackMode::BeforeUserTurn, before),
        cut_falls_at(items, turn, RollbackMode::ThroughUserTurn, through),
    ensures
        0 <= before < through <= items.len(),
        forall|i: int| 0 <= i < before ==> (#[trigger] items[i]).turn != turn,
        forall|i: int| before <= i < through ==> (#[trigger] items[i]).turn == turn,
{
    let i = choose|i: int| turn_begins(items, turn, i) && run_ends(items, turn, i, through);
    lemma_begins_once(items, turn, i, before);
}

/// The turn and item identifiers of a history, by which a later change of it
/// is noticed.
pub open spec fn fingerprint_of(items: Seq<SessionItem>) -> Seq<(TurnId, ItemId)> {
    items.map_values(|item: SessionItem| (item.turn, item.item))
}

/// Takes the fingerprint of a history.
pub fn history_fingerprint(items: &Vec<SessionItem>) -> (r: Vec<(TurnId, ItemId)>)
    ensures
        r@ == fingerprint_of(items@),
{
    let mut print: Vec<(TurnId, ItemId)> = Vec::new();
    let mut i: usize = 0;
    while i < items.len()
        invariant
            i <= items@.len(),
            print@ == fingerprint_of(items@.take(i as int)),
        decreases items@.len() - i,
    {
        print.push((items[i].turn, items[i].item));
        i = i + 1;
        assert(print@ =~= fingerprint_of(items@.take(i as int)));
    }
    assert(items@.take(items@.len() as int) =~= items@);
    print
}

/// Whether two fingerprints agree.
pub fn same_fingerprint(a: &Vec<(TurnId, ItemId)>, b: &Vec<(TurnId, ItemId)>) -> (r: bool)
    ensures
        r == (a@ == b@),
{
    if a.len() != b.len() {
        return false;
    }
    let mut i: usize = 0;
    while i < a.len()
        invariant
            i <= a@.len(),
            a@.len() == b@.len(),
            forall|j: int| 0 <= j < i ==> a@[j] == b@[j],
        decreases a@.len() - i,
    {
        if a[i].0 != b[i].0 || a[i].1 != b[i].1 {
            return false;
        }
        i = i + 1;
    }
    assert(a@ =~= b@);
    true
}

/// Whether `items` holds an item of `turn`.
pub open spec fn has_turn(items: Seq<SessionItem>, turn: TurnId) -> bool {
    exists|i: int| 0 <= i < items.len() && (#[trigger] items[i]).turn == turn
}

/// Whether no entry of a list occurs twice.
pub open spec fn distinct<T>(list: Seq<T>) -> bool {
    forall|i: int, j: int| 0 <= i < j < list.len() ==> list[i] != list[j]
}

fn holds_turn(items: &Vec<SessionItem>, turn: TurnId) -> (r: bool)
    ensures
        r == has_turn(items@, turn),
{
    let mut i: usize = 0;
    while i < items.len()
        invariant
            i <= items@.len(),
            forall|j: int| 0 <= j < i ==> (#[trigger] items@[j]).turn != turn,
        decreases items@.len() - i,
    {
        if items[i].turn == turn {
            return true;
        }
        i = i + 1;
    }
    false
}

fn lists_turn(turns: &Vec<TurnId>, turn: TurnId) -> (r: bool)
    ensures
        r == turns@.contains(turn),
{
    let mut i: usize = 0;
    while i < turns.len()
        invariant
            i <= turns@.len(),
            forall|j: int| 0 <= j < i ==> turns@[j] != turn,
        decreases turns@.len() - i,
    {
        if turns[i] == turn {
            return true;
        }
        i = i + 1;
    }
    false
}

/// The turns of `items` that satisfy `wanted`, each once, in the order of
/// their first items.
pub open spec fn turns_in_order(items: Seq<SessionItem>, wanted: spec_fn(TurnId) -> bool) -> Seq<
    TurnId,
>
    decreases items.len(),
{
    if items.len() == 0 {
        Seq::empty()
    } else {
        let before = turns_in_order(items.drop_last(), wanted);
        let turn = items.last().turn;
        if wanted(turn) && !before.contains(turn) {
            before.push(turn)
        } else {
            before
        }
    }
}

/// The items of a history, each identifier once, in order.
pub open spec fn items_in_order(items: Seq<SessionItem>) -> Seq<ItemId>
    decreases items.len(),
{
    if items.len() == 0 {
        Seq::empty()
    } else {
        let before = items_in_order(items.drop_last());
        let item = items.last().item;
        if before.contains(item) {
            before
        } else {
            before.push(item)
        }
    }
}

/// The turns of `source` of which `retained` holds nothing.
pub open spec fn dropped_turns(
    source: Seq<SessionItem>,
    retained: Seq<SessionItem>,
) -> Seq<TurnId> {
    turns_in_order(source, |turn: TurnId| !has_turn(retained, turn))
}

/// Lists the turns of `source` of which `retained` holds nothing.
pub fn dropped_turn_ids(source: &Vec<SessionItem>, retained: &Vec<SessionItem>) -> (r: Vec<TurnId>)
    ensures
        r@ == dropped_turns(source@, retained@),
{
    let ghost wanted = |turn: TurnId| !has_turn(retained@, turn);
    let mut dropped: Vec<TurnId> = Vec::new();
    let mut i: usize = 0;
    assert(source@.take(0) =~= Seq::empty());
    while i < source.len()
        invariant
            i <= source@.len(),
            wanted == (|turn: TurnId| !has_turn(retained@, turn)),
            dropped@ == turns_in_order(source@.take(i as int), wanted),
        decreases source@.len() - i,
    {
        assert(source@.take(i + 1).drop_last() =~= source@.take(i as int));
        let turn = source[i].turn;
        if !holds_turn(retained, turn) && !lists_turn(&dropped, turn) {
            dropped.push(turn);
        }
        i = i + 1;
    }
    assert(source@.take(source@.len() as int) =~= source@);
    dropped
}

fn lists_item(items: &Vec<ItemId>, item: ItemId) -> (r: bool)
    ensures
        r == items@.contains(item),
{
    let mut i: usize = 0;
    while i < items.len()
        invariant
            i <= items@.len(),
            forall|j: int| 0 <= j < i ==> items@[j] != item,
        decreases items@.len() - i,
    {
        if items[i] == item {
            return true;
        }
        i = i + 1;
    }
    false
}

/// The turns and items that a history holds, each once and in order.
pub fn retained_ids(items: &Vec<SessionItem>) -> (r: (Vec<TurnId>, Vec<ItemId>))
    ensures
        r.0@ == turns_in_order(items@, |turn: TurnId| true),
        r.1@ == items_in_order(items@),
{
    let ghost any = |turn: TurnId| true;
    let mut turns: Vec<TurnId> = Vec::new();
    let mut ids: Vec<ItemId> = Vec::new();
    let mut i: usize = 0;
    assert(items@.take(0) =~= Seq::empty());
    while i < items.len()
        invariant
            i <= items@.len(),
            any == (|turn: TurnId| true),
            turns@ == turns_in_order(items@.take(i as int), any),
            ids@ == items_in_order(items@.take(i as int)),
        decreases items@.len() - i,
    {
        assert(items@.take(i + 1).drop_last() =~= items@.take(i as int));
        if !lists_turn(&turns, items[i].turn) {
            turns.push(items[i].turn);
        }
        if !lists_item(&ids, items[i].item) {
            ids.push(items[i].item);
        }
        i = i + 1;
    }
    assert(items@.take(items@.len() as int) =~= items@);
    (turns, ids)
}

proof fn lemma_turns_in_order(items: Seq<SessionItem>, wanted: spec_fn(TurnId) -> bool)
    ensures
        distinct(turns_in_order(items, wanted)),
        forall|turn: TurnId| #[trigger]
            turns_in_order(items, wanted).contains(turn) <==> has_turn(items, turn) && wanted(turn),
    decreases items.len(),
{
    if items.len() > 0 {
        let before = items.drop_last();
        lemma_turns_in_order(before, wanted);
        let listed = turns_in_order(before, wanted);
        let all = turns_in_order(items, wanted);
        assert forall|turn: TurnId| #[trigger] all.contains(turn) <==> has_turn(items, turn)
            && wanted(turn) by {
            if has_turn(before, turn) {
                let i = choose|i: int| 0 <= i < before.len() && (#[trigger] before[i]).turn == turn;
                assert(items[i].turn == turn);
            }
            if has_turn(items, turn) && turn != items.last().turn {
                let i = choose|i: int| 0 <= i < items.len() && (#[trigger] items[i]).turn == turn;
                assert(before[i].turn == turn);
            }
            if turn == items.last().turn {
                assert(items[items.len() - 1].turn == turn);
            }
            if all.len() > listed.len() {
                assert(all.last() == items.last().turn);
                if listed.contains(turn) {
                    let k = choose|k: int| 0 <= k < listed.len() && listed[k] == turn;
                    assert(all[k] == turn);
                }
                if turn == items.last().turn {
                    assert(all[all.len() - 1] == turn);
                }
                if all.contains(turn) && turn != items.last().turn {
                    let k = choose|k: int| 0 <= k < all.len() && all[k] == turn;
                    assert(listed[k] == turn);
                }
            }
        }
    }
}

/// Every turn of a history is either retained or dropped by a cut, no turn is
/// both, and none is listed twice.
pub proof fn law_a_cut_parts_the_turns(source: Seq<SessionItem>, retained: Seq<SessionItem>)
    ensures
        distinct(dropped_turns(source, retained)),
        distinct(turns_in_order(retained, |turn: TurnId| true)),
        forall|turn: TurnId|
            #![trigger has_turn(source, turn)]
            has_turn(source, turn) ==> (dropped_turns(source, retained).contains(turn)
                <==> !turns_in_order(retained, |t: TurnId| true).contains(turn)),
{
    let any = |turn: TurnId| true;
    let gone = |turn: TurnId| !has_turn(retained, turn);
    lemma_turns_in_order(source, gone);
    lemma_turns_in_order(retained, any);
    assert forall|turn: TurnId|
        #![trigger has_turn(source, turn)]
        has_turn(source, turn) implies (dropped_turns(source, retained).contains(turn)
        <==> !turns_in_order(retained, |t: TurnId| true).contains(turn)) by {
        assert(turns_in_order(source, gone).contains(turn) <==> gone(turn));
        assert(turns_in_order(retained, any).contains(turn) <==> has_turn(retained, turn));
    }
}

/// How much of the context window a session fills, by what fills it.
#[derive(Clone, Copy, Debug, PartialEq, Eq, Structural)]
pub struct ContextOccupancy {
    pub window_tokens: u64,
    pub base_tokens: u64,
    pub skill_tokens: u64,
    pub builtin_tool_tokens: u64,
    pub mcp_tool_tokens: u64,
    pub conversation_tokens: u64,
    pub total_tokens: u64,
}

/// What a model call used.
#[derive(Clone, Copy, Debug, PartialEq, Eq, Structural)]
pub struct TurnUsage {
    pub input_tokens: u32,
    pub output_tokens: u32,
    /// The total that is shown for the call.
    pub display_total: u64,
}

/// What is recorded of a turn.
#[derive(Clone, Copy, Debug, PartialEq, Eq, Structural)]
pub struct TurnRecord {
    pub turn: TurnId,
    pub occupancy: Option<ContextOccupancy>,
    pub latest_query_usage: Option<TurnUsage>,
    pub usage: Option<TurnUsage>,
}

/// The latest compaction of a session.
#[derive(Clone, Copy, Debug, PartialEq, Eq, Structural)]
pub struct CompactionSnapshot {
    pub turn: TurnId,
    pub summary_item: ItemId,
    pub occupancy: Option<ContextOccupancy>,
}

/// Whether the first record of `turn` stands at `i`.
pub open spec fn is_record_of(records: Seq<TurnRecord>, turn: TurnId, i: int) -> bool {
    &&& 0 <= i < records.len()
    &&& records[i].turn == turn
    &&& forall|j: int| 0 <= j < i ==> (#[trigger] records[j]).turn != turn
}

/// What is recorded of `turn`.
pub open spec fn record_of(records: Seq<TurnRecord>, turn: Option<TurnId>) -> Option<TurnRecord> {
    match turn {
        Some(turn) => if exists|i: int| is_record_of(records, turn, i) {
            Some(records[choose|i: int| is_record_of(records, turn, i)])
        } else {
            None
        },
        None => None,
    }
}

fn find_record(records: &Vec<TurnRecord>, turn: Option<TurnId>) -> (r: Option<TurnRecord>)
    ensures
        r == record_of(records@, turn),
{
    let wanted = match turn {
        Some(wanted) => wanted,
        None => {
            return None;
        },
    };
    let mut i: usize = 0;
    while i < records.len()
        invariant
            i <= records@.len(),
            turn == Some(wanted),
            forall|j: int| 0 <= j < i ==> (#[trigger] records@[j]).turn != wanted,
        decreases records@.len() - i,
    {
        if records[i].turn == wanted {
            proof {
                assert(is_record_of(records@, wanted, i as int));
                let k = choose|k: int| is_record_of(records@, wanted, k);
                assert(is_record_of(records@, wanted, k));
                assert(k == i) by {
                    if k < i {
                        assert(records@[k].turn != wanted);
                    } else if k > i {
                        assert(records@[i as int].turn != wanted);
                    }
                }
            }
            return Some(records[i]);
        }
        i = i + 1;
    }
    None
}

/// What a cut leaves of the session's measurements.
#[derive(Clone, Copy, Debug, PartialEq, Eq, Structural)]
pub struct CutMeasures {
    pub occupancy: Option<ContextOccupancy>,
    pub usage: Option<TurnUsage>,
    pub compaction: Option<CompactionSnapshot>,
}

/// What a cut leaves: a compaction counts only if its turn is kept; the
/// occupancy is the compaction's, else the last kept turn's; the usage is the
/// last kept turn's.
pub open spec fn cut_measures(
    kept: Seq<TurnId>,
    last: Option<TurnId>,
    records: Seq<TurnRecord>,
    latest: Option<CompactionSnapshot>,
) -> CutMeasures {
    let record = record_of(records, last);
    let compaction = if latest is Some && kept.contains(latest->0.turn) {
        latest
    } else {
        None
    };
    CutMeasures {
        occupancy: if compaction is Some && compaction->0.occupancy is Some {
            compaction->0.occupancy
        } else if record is Some {
            record->0.occupancy
        } else {
            None
        },
        usage: if record is None {
            None
        } else if record->0.latest_query_usage is Some {
            record->0.latest_query_usage
        } else {
            record->0.usage
        },
        compaction,
    }
}

/// What a cut leaves of the session's measurements.
pub fn resolve_cut_occupancy_and_usage(
    kept: &Vec<TurnId>,
    last: Option<TurnId>,
    records: &Vec<TurnRecord>,
    latest: Option<CompactionSnapshot>,
) -> (r: CutMeasures)
    ensures
        r == cut_measures(kept@, last, records@, latest),
{
    let record = find_record(records, last);
    let compaction = match latest {
        Some(snapshot) => {
            if lists_turn(kept, snapshot.turn) {
                Some(snapshot)
            } else {
                None
            }
        },
        None => None,
    };
    let of_compaction = match compaction {
        Some(snapshot) => snapshot.occupancy,
        None => None,
    };
    let occupancy = match of_compaction {
        Some(occupancy) => Some(occupancy),
        None => match record {
            Some(record) => record.occupancy,
            None => None,
        },
    };
    let usage = match record {
        Some(record) => match record.latest_query_usage {
            Some(usage) => Some(usage),
            None => record.usage,
        },
        None => None,
    };
    CutMeasures { occupancy, usage, compaction }
}

/// A compaction of a turn that the cut drops has no say: the session measures
/// as if it had never been.
pub proof fn law_dropped_compaction_has_no_say(
    kept: Seq<TurnId>,
    last: Option<TurnId>,
    records: Seq<TurnRecord>,
    latest: CompactionSnapshot,
)
    requires
        !kept.contains(latest.turn),
    ensures
        cut_measures(kept, last, records, Some(latest)) == cut_measures(kept, last, records, None),
{
}

/// The latest turn of a session that a cut was made of.
#[derive(Debug, PartialEq, Eq)]
pub enum LatestTurn {
    /// Nothing is kept.
    Absent,
    /// The source's latest turn is the last one kept.
    AsInSource,
    /// A completed stand-in for the last turn kept.
    Synthetic(StandIn),
}

/// A completed stand-in for a turn. `selection` is what the model is requested
/// by.
#[derive(Debug, PartialEq, Eq)]
pub struct StandIn {
    pub turn: TurnId,
    pub sequence: u32,
    pub usage: Option<TurnUsage>,
    pub model: String,
    pub selection: String,
    pub started_at: i64,
    pub completed_at: i64,
}

/// The session that a cut is made of.
#[derive(Debug)]
pub struct CutSource {
    pub items: Vec<SessionItem>,
    pub records: Vec<TurnRecord>,
    pub compaction: Option<CompactionSnapshot>,
    pub latest: Option<TurnId>,
    pub cwd: Vec<Component>,
    pub title: Option<String>,
    pub model: Option<String>,
    pub binding: Option<String>,
    /// The model that the workspace has by itself.
    pub default_model: String,
    pub ephemeral: bool,
    pub created_at: i64,
    pub updated_at: i64,
    /// When the session was read.
    pub now: i64,
}

/// Where a cut falls, and what the session is to have of its own.
#[derive(Debug)]
pub struct CutOptions {
    pub index: Option<u32>,
    pub mode: RollbackMode,
    pub cwd: Option<Vec<Component>>,
    pub title: Option<String>,
    pub created_at: i64,
}

/// A session that a cut was made of. Its totals start anew, and it stems from
/// no other session.
#[derive(Debug)]
pub struct CutSession {
    pub items: Vec<SessionItem>,
    pub turn_count: usize,
    pub measures: CutMeasures,
    pub prompt_token_estimate: u64,
    pub last_query_total_tokens: u64,
    pub latest_turn: LatestTurn,
    pub loaded_item_count: u64,
    pub next_item_seq: u64,
    pub records: Vec<TurnRecord>,
    pub totals: UsageTotals,
    pub last_input_tokens: usize,
    pub last_turn_tokens: usize,
    pub cwd: Vec<Component>,
    pub title: Option<String>,
    pub model: Option<String>,
    pub binding: Option<String>,
    pub ephemeral: bool,
    pub created_at: i64,
    pub updated_at: i64,
    pub last_activity_at: i64,
    pub status: SessionStatus,
    pub parent: Option<SessionId>,
    pub fork_from: Option<SessionId>,
    pub fork_at: Option<TurnId>,
    pub active: Option<TurnId>,
}

/// The last turn that is kept.
pub open spec fn last_kept(items: Seq<SessionItem>) -> Option<TurnId> {
    if items.len() == 0 {
        None
    } else {
        Some(items.last().turn)
    }
}

/// The estimate of the prompt after a cut.
pub open spec fn estimate_after(measures: CutMeasures) -> u64 {
    match (measures.occupancy, measures.usage) {
        (Some(occupancy), _) => occupancy.total_tokens,
        (None, Some(usage)) => usage.display_total,
        (None, None) => 0,
    }
}

/// The directory of a session that a cut is made of: the one that is asked
/// for, else that of the source.
pub open spec fn cut_cwd(source: CutSource, options: CutOptions) -> Seq<PathPart> {
    match options.cwd {
        Some(cwd) => parts(cwd@),
        None => parts(source.cwd@),
    }
}

/// Whether a cut leads to another directory.
pub open spec fn changes_directory(source: CutSource, options: CutOptions) -> bool {
    cut_cwd(source, options) != parts(source.cwd@)
}

/// The model that a workspace has by itself: that of the new one, where the
/// cut leads to another directory.
pub open spec fn default_model(
    source: CutSource,
    options: CutOptions,
    opened: Result<String, String>,
) -> String {
    if changes_directory(source, options) && opened is Ok {
        opened->Ok_0
    } else {
        source.default_model
    }
}

/// The stand-in for the last turn that is kept.
pub open spec fn stand_in(
    source: CutSource,
    default_model: String,
    kept: Seq<SessionItem>,
    turn: TurnId,
) -> StandIn {
    let model = match source.model {
        Some(model) => model,
        None => default_model,
    };
    StandIn {
        turn,
        sequence: (user_message_count(kept) % 0x1_0000_0000) as u32,
        usage: match record_of(source.records@, Some(turn)) {
            Some(record) => record.usage,
            None => None,
        },
        model,
        selection: match source.binding {
            Some(binding) => binding,
            None => model,
        },
        started_at: source.created_at,
        completed_at: source.updated_at,
    }
}

/// The latest turn of a session that keeps `kept`.
pub open spec fn latest_after(
    source: CutSource,
    default_model: String,
    kept: Seq<SessionItem>,
) -> LatestTurn {
    match last_kept(kept) {
        None => LatestTurn::Absent,
        Some(turn) => if source.latest == Some(turn) {
            LatestTurn::AsInSource
        } else {
            LatestTurn::Synthetic(stand_in(source, default_model, kept, turn))
        },
    }
}

/// Totals of nothing.
pub open spec fn no_usage() -> UsageTotals {
    UsageTotals { input: 0, output: 0, total: 0, cache_creation: 0, cache_read: 0 }
}

/// Whether `session` is what a cut that keeps `kept` makes of the source.
pub open spec fn is_cut_session(
    source: CutSource,
    options: CutOptions,
    default_model: String,
    kept: Seq<SessionItem>,
    session: CutSession,
) -> bool {
    let turns = turns_in_order(kept, |turn: TurnId| true);
    let records = source.records@;
    &&& session.items@ == kept
    &&& session.turn_count == user_message_count(kept)
    &&& session.measures == cut_measures(turns, last_kept(kept), records, source.compaction)
    &&& session.prompt_token_estimate == estimate_after(session.measures)
    &&& session.last_query_total_tokens == estimate_after(session.measures)
    &&& session.latest_turn == latest_after(source, default_model, kept)
    &&& session.loaded_item_count == kept.len()
    &&& session.next_item_seq == if source.items@.len() < u64::MAX {
        source.items@.len() + 1
    } else {
        u64::MAX as nat
    }
    &&& session.records@ == records.filter(|record: TurnRecord| turns.contains(record.turn))
    &&& session.totals == no_usage() && session.last_input_tokens == 0 && session.last_turn_tokens
        == 0
    &&& parts(session.cwd@) == cut_cwd(source, options)
    &&& session.title == if options.title is Some {
        options.title
    } else {
        source.title
    }
    &&& session.model == source.model && session.binding == source.binding
    &&& session.ephemeral == source.ephemeral
    &&& session.created_at == options.created_at
    &&& session.updated_at == source.now && session.last_activity_at == source.now
    &&& session.status is Idle
    &&& session.parent is None && session.fork_from is None && session.fork_at is None
    &&& session.active is None
}

fn kept_records(records: &Vec<TurnRecord>, turns: &Vec<TurnId>) -> (r: Vec<TurnRecord>)
    ensures
        r@ == records@.filter(|record: TurnRecord| turns@.contains(record.turn)),
{
    let ghost wanted = |record: TurnRecord| turns@.contains(record.turn);
    let mut kept: Vec<TurnRecord> = Vec::new();
    let mut i: usize = 0;
    assert(records@.take(0).filter(wanted) =~= Seq::empty());
    while i < records.len()
        invariant
            i <= records@.len(),
            wanted == (|record: TurnRecord| turns@.contains(record.turn)),
            kept@ == records@.take(i as int).filter(wanted),
        decreases records@.len() - i,
    {
        proof {
            assert(records@.take(i + 1) =~= records@.take(i as int).push(records@[i as int]));
            records@.take(i as int).lemma_filter_push(records@[i as int], wanted);
        }
        if lists_turn(turns, records[i].turn) {
            kept.push(records[i]);
        }
        i = i + 1;
    }
    assert(records@.take(records@.len() as int) =~= records@);
    kept
}

fn find_latest(source: &CutSource, default_model: &String, kept: &Vec<SessionItem>) -> (r: LatestTurn)
    ensures
        r == latest_after(*source, *default_model, kept@),
{
    if kept.len() == 0 {
        return LatestTurn::Absent;
    }
    let turn = kept[kept.len() - 1].turn;
    let same = match source.latest {
        Some(latest) => latest == turn,
        None => false,
    };
    if same {
        return LatestTurn::AsInSource;
    }
    let sequence: u32 = (count_user_messages(kept) as u64 % 0x1_0000_0000) as u32;
    let usage = match find_record(&source.records, Some(turn)) {
        Some(record) => record.usage,
        None => None,
    };
    let model = match &source.model {
        Some(model) => model.clone(),
        None => default_model.clone(),
    };
    let selection = match &source.binding {
        Some(binding) => binding.clone(),
        None => model.clone(),
    };
    LatestTurn::Synthetic(
        StandIn {
            turn,
            sequence,
            usage,
            model,
            selection,
            started_at: source.created_at,
            completed_at: source.updated_at,
        },
    )
}

fn build_cut_session(
    source: &CutSource,
    options: &CutOptions,
    default_model: &String,
    kept: Vec<SessionItem>,
) -> (r: CutSession)
    ensures
        is_cut_session(*source, *options, *default_model, kept@, r),
{
    let (turns, _) = retained_ids(&kept);
    let last = if kept.len() == 0 {
        None
    } else {
        Some(kept[kept.len() - 1].turn)
    };
    let measures = resolve_cut_occupancy_and_usage(&turns, last, &source.records, source.compaction);
    let estimate: u64 = match measures.occupancy {
        Some(occupancy) => occupancy.total_tokens,
        None => match measures.usage {
            Some(usage) => usage.display_total,
            None => 0,
        },
    };
    CutSession {
        turn_count: count_user_messages(&kept),
        measures,
        prompt_token_estimate: estimate,
        last_query_total_tokens: estimate,
        latest_turn: find_latest(source, default_model, &kept),
        loaded_item_count: kept.len() as u64,
        next_item_seq: (source.items.len() as u64).saturating_add(1),
        records: kept_records(&source.records, &turns),
        totals: UsageTotals { input: 0, output: 0, total: 0, cache_creation: 0, cache_read: 0 },
        last_input_tokens: 0,
        last_turn_tokens: 0,
        cwd: match &options.cwd {
            Some(cwd) => copy_path(cwd),
            None => copy_path(&source.cwd),
        },
        title: match &options.title {
            Some(title) => Some(title.clone()),
            None => copy_text(&source.title),
        },
        model: copy_text(&source.model),
        binding: copy_text(&source.binding),
        ephemeral: source.ephemeral,
        created_at: options.created_at,
        updated_at: source.now,
        last_activity_at: source.now,
        status: SessionStatus::Idle,
        parent: None,
        fork_from: None,
        fork_at: None,
        active: None,
        items: kept,
    }
}

/// Whether `session` is what the cut makes of the source.
pub open spec fn is_made_by_cut(
    source: CutSource,
    options: CutOptions,
    default_model: String,
    session: CutSession,
) -> bool {
    exists|kept: Seq<SessionItem>|
        {
            &&& #[trigger] cut_keeps(source.items@, options.index, options.mode, kept)
            &&& is_cut_session(source, options, default_model, kept, session)
        }
}

/// Makes a session of another one by a cut. `opened` is the model that the
/// workspace of the new session has by itself, or why it could not be opened;
/// it counts only where the cut leads to another directory.
pub fn build_runtime_session_from_user_turn_cut(
    source: &CutSource,
    options: &CutOptions,
    opened: &Result<String, String>,
) -> (r: Result<CutSession, CutError>)
    ensures
        match r {
            Err(CutError::TurnMissing) => !has_cut(source.items@, options.index),
            Err(CutError::Workspace(error)) => {
                &&& has_cut(source.items@, options.index)
                &&& changes_directory(*source, *options)
                &&& *opened == Err::<String, String>(error)
            },
            Ok(session) => {
                &&& has_cut(source.items@, options.index)
                &&& changes_directory(*source, *options) ==> *opened is Ok
                &&& is_made_by_cut(
                    *source,
                    *options,
                    default_model(*source, *options, *opened),
                    session,
                )
            },
        },
{
    let kept = match kept_items_for_user_turn_cut(&source.items, options.index, options.mode) {
        Ok(kept) => kept,
        Err(error) => {
            return Err(error);
        },
    };
    let stays = match &options.cwd {
        Some(cwd) => same_path(cwd, &source.cwd),
        None => true,
    };
    if stays {
        return Ok(build_cut_session(source, options, &source.default_model, kept));
    }
    match opened {
        Ok(model) => Ok(build_cut_session(source, options, model, kept)),
        Err(error) => Err(CutError::Workspace(error.clone())),
    }
}

/// The turns of the user are those that a message of theirs is in, in order,
/// and a turn with several messages in a row counts once.
pub proof fn law_user_turns_are_counted_once(items: Seq<SessionItem>, item: SessionItem)
    ensures
        user_turns(Seq::empty()) == Seq::<TurnId>::empty(),
        !item.user_message ==> user_turns(items.push(item)) == user_turns(items),
        item.user_message && user_turns(items).len() > 0 && user_turns(items).last() == item.turn
            ==> user_turns(items.push(item)) == user_turns(items),
        item.user_message && (user_turns(items).len() == 0 || user_turns(items).last() != item.turn)
            ==> user_turns(items.push(item)) == user_turns(items).push(item.turn),
{
    assert(items.push(item).drop_last() =~= items);
}

/// What a cut keeps is the beginning of the history: before a turn, everything
/// up to its first item; through a turn, everything up to the last of its items
/// in a row. Without a turn nothing is cut.
pub proof fn law_cuts_keep_the_beginning(
    items: Seq<SessionItem>,
    index: Option<u32>,
    mode: RollbackMode,
    kept: Seq<SessionItem>,
)
    requires
        cut_keeps(items, index, mode, kept),
    ensures
        kept.is_prefix_of(items),
        index is None ==> kept == items,
        index is Some && mode is BeforeUserTurn ==> {
            let turn = user_turns(items)[index->0 as int];
            &&& forall|i: int| 0 <= i < kept.len() ==> (#[trigger] kept[i]).turn != turn
            &&& kept.len() < items.len() && items[kept.len() as int].turn == turn
        },
        index is Some && mode is ThroughUserTurn ==> {
            let turn = user_turns(items)[index->0 as int];
            &&& kept.len() > 0 && kept.last().turn == turn
            &&& kept.len() < items.len() ==> items[kept.len() as int].turn != turn
        },
{
    if index is Some {
        let turn = user_turns(items)[index->0 as int];
        let end = choose|end: int| #[trigger]
            cut_falls_at(items, turn, mode, end) && 0 <= end <= items.len() && kept == items.take(
                end,
            );
        if mode is BeforeUserTurn {
            assert(turn_begins(items, turn, end));
            assert forall|i: int| 0 <= i < kept.len() implies (#[trigger] kept[i]).turn != turn by {
                assert(items[i].turn != turn);
            }
        } else {
            let i = choose|i: int| turn_begins(items, turn, i) && run_ends(items, turn, i, end);
            assert(items[end - 1].turn == turn);
        }
    }
}

/// There is a turn to cut at where the history has as many turns of the user.
pub proof fn law_cuts_need_their_turn(items: Seq<SessionItem>, index: u32)
    ensures
        has_cut(items, None),
        has_cut(items, Some(index)) <==> index < user_turns(items).len(),
{
}

/// Turns and items are listed once each, in the order in which they come first.
pub proof fn law_listed_in_the_order_they_come(
    items: Seq<SessionItem>,
    item: SessionItem,
    wanted: spec_fn(TurnId) -> bool,
)
    ensures
        turns_in_order(Seq::empty(), wanted) == Seq::<TurnId>::empty(),
        items_in_order(Seq::empty()) == Seq::<ItemId>::empty(),
        !wanted(item.turn) || turns_in_order(items, wanted).contains(item.turn) ==> turns_in_order(
            items.push(item),
            wanted,
        ) == turns_in_order(items, wanted),
        wanted(item.turn) && !turns_in_order(items, wanted).contains(item.turn) ==> turns_in_order(
            items.push(item),
            wanted,
        ) == turns_in_order(items, wanted).push(item.turn),
        items_in_order(items).contains(item.item) ==> items_in_order(items.push(item))
            == items_in_order(items),
        !items_in_order(items).contains(item.item) ==> items_in_order(items.push(item))
            == items_in_order(items).push(item.item),
{
    assert(items.push(item).drop_last() =~= items);
}

/// The fingerprint of a history tells which items it has, of which turns, in
/// which order: two histories with one fingerprint have the same items.
pub proof fn law_fingerprints_tell_histories_apart(a: Seq<SessionItem>, b: Seq<SessionItem>)
    requires
        fingerprint_of(a) == fingerprint_of(b),
    ensures
        a.len() == b.len(),
        forall|i: int|
            0 <= i < a.len() ==> (#[trigger] a[i]).turn == b[i].turn && a[i].item == b[i].item,
{
    assert(fingerprint_of(a).len() == a.len());
    assert(fingerprint_of(b).len() == b.len());
    assert forall|i: int| 0 <= i < a.len() implies (#[trigger] a[i]).turn == b[i].turn && a[i].item
        == b[i].item by {
        assert(fingerprint_of(a)[i] == (a[i].turn, a[i].item));
        assert(fingerprint_of(b)[i] == (b[i].turn, b[i].item));
    }
}

/// A compaction that is kept measures the session; where there is none the last
/// turn that is kept does. The usage is that of the turn's latest query, else
/// that of the turn.
pub proof fn law_cuts_are_measured_by_what_is_kept(
    kept: Seq<TurnId>,
    last: Option<TurnId>,
    records: Seq<TurnRecord>,
    latest: Option<CompactionSnapshot>,
    r: CutMeasures,
)
    requires
        r == cut_measures(kept, last, records, latest),
    ensures
        latest is Some && kept.contains(latest->0.turn) ==> r.compaction == latest,
        latest is None || !kept.contains(latest->0.turn) ==> r.compaction is None,
        latest is Some && kept.contains(latest->0.turn) && latest->0.occupancy is Some
            ==> r.occupancy == latest->0.occupancy,
        (latest is None || !kept.contains(latest->0.turn) || latest->0.occupancy is None)
            && record_of(records, last) is Some ==> r.occupancy == record_of(
            records,
            last,
        )->0.occupancy,
        (latest is None || !kept.contains(latest->0.turn) || latest->0.occupancy is None)
            && record_of(records, last) is None ==> r.occupancy is None,
        record_of(records, last) is None ==> r.usage is None,
        record_of(records, last) matches Some(record) ==> {
            &&& record.latest_query_usage is Some ==> r.usage == record.latest_query_usage
            &&& record.latest_query_usage is None ==> r.usage == record.usage
        },
        r.occupancy is Some ==> estimate_after(r) == r.occupancy->0.total_tokens,
        r.occupancy is None && r.usage is Some ==> estimate_after(r) == r.usage->0.display_total,
        r.occupancy is None && r.usage is None ==> estimate_after(r) == 0,
{
}

/// The record of a turn is the first that is about it.
pub proof fn law_records_are_found(records: Seq<TurnRecord>, turn: TurnId, i: int)
    requires
        0 <= i < records.len(),
        records[i].turn == turn,
        forall|j: int| 0 <= j < i ==> (#[trigger] records[j]).turn != turn,
    ensures
        record_of(records, Some(turn)) == Some(records[i]),
        record_of(records, None) is None,
{
    assert(is_record_of(records, turn, i));
    let k = choose|k: int| is_record_of(records, turn, k);
    assert(is_record_of(records, turn, k));
    if k < i {
        assert(records[k].turn != turn);
    }
    if i < k {
        assert(records[i].turn != turn);
    }
}

/// A session that is made by a cut is a session at rest with what was kept: the
/// items, the records of their turns, the model and the title of the source
/// unless it is given another, no parent, no running turn, and counts that begin
/// anew.
pub proof fn law_cut_sessions_begin_at_rest(
    source: CutSource,
    options: CutOptions,
    default_model: String,
    kept: Seq<SessionItem>,
    session: CutSession,
)
    requires
        is_cut_session(source, options, default_model, kept, session),
    ensures
        session.items@ == kept,
        session.loaded_item_count == kept.len(),
        source.items@.len() < u64::MAX ==> session.next_item_seq == source.items@.len() + 1,
        session.active is None,
        session.status is Idle,
        session.parent is None && session.fork_from is None && session.fork_at is None,
        session.model == source.model && session.binding == source.binding,
        session.ephemeral == source.ephemeral,
        session.created_at == options.created_at,
        session.updated_at == source.now && session.last_activity_at == source.now,
        options.title is Some ==> session.title == options.title,
        options.title is None ==> session.title == source.title,
        options.cwd is Some ==> parts(session.cwd@) == parts(options.cwd->0@),
        options.cwd is None ==> parts(session.cwd@) == parts(source.cwd@),
        session.totals.input == 0 && session.totals.output == 0 && session.totals.total == 0,
        session.last_input_tokens == 0 && session.last_turn_tokens == 0,
        session.prompt_token_estimate == session.last_query_total_tokens,
        kept.len() == 0 ==> session.latest_turn is Absent,
        kept.len() > 0 && source.latest == Some(kept.last().turn) ==> session.latest_turn
            is AsInSource,
        kept.len() > 0 && source.latest != Some(kept.last().turn) ==> (
        session.latest_turn matches LatestTurn::Synthetic(turn) && {
            &&& turn.turn == kept.last().turn
            &&& source.model is Some ==> turn.model == source.model->0
            &&& source.model is None ==> turn.model == default_model
            &&& source.binding is Some ==> turn.selection == source.binding->0
            &&& source.binding is None ==> turn.selection == turn.model
            &&& turn.started_at == source.created_at && turn.completed_at == source.updated_at
        }),
        forall|i: int|
            0 <= i < source.records@.len() && turns_in_order(kept, |turn: TurnId| true).contains(
                (#[trigger] source.records@[i]).turn,
            ) ==> session.records@.contains(source.records@[i]),
        forall|i: int|
            0 <= i < session.records@.len() ==> turns_in_order(
                kept,
                |turn: TurnId| true,
            ).contains((#[trigger] session.records@[i]).turn),
{
    let turns = turns_in_order(kept, |turn: TurnId| true);
    let keeps = |record: TurnRecord| turns.contains(record.turn);
    let records = source.records@;
    assert(session.records@ == records.filter(keeps));
    assert forall|i: int|
        0 <= i < records.len() && turns.contains(
            (#[trigger] records[i]).turn,
        ) implies session.records@.contains(records[i]) by {
        records.lemma_filter_contains(keeps, i);
    }
    assert forall|i: int| 0 <= i < session.records@.len() implies turns.contains(
        (#[trigger] session.records@[i]).turn,
    ) by {
        records.lemma_filter_pred(keeps, i);
    }
}

/// A session is opened anew where it is cut into another directory, and then
/// goes by the default model of that directory.
pub proof fn law_other_directories_are_opened(
    source: CutSource,
    options: CutOptions,
    opened: Result<String, String>,
)
    ensures
        options.cwd is None ==> !changes_directory(source, options),
        options.cwd is Some ==> (changes_directory(source, options) <==> parts(options.cwd->0@)
            != parts(source.cwd@)),
        changes_directory(source, options) && opened is Ok ==> default_model(
            source,
            options,
            opened,
        ) == opened->Ok_0,
        !changes_directory(source, options) ==> default_model(source, options, opened)
            == source.default_model,
{
}

/// The turn that stands for the last one that is kept has its usage, and counts
/// the messages that are kept.
pub proof fn law_stand_ins_measure_their_turn(
    source: CutSource,
    model: String,
    kept: Seq<SessionItem>,
    turn: TurnId,
)
    ensures
        ({
            let r = stand_in(source, model, kept, turn);
            &&& record_of(source.records@, Some(turn)) matches Some(record) ==> r.usage
                == record.usage
            &&& record_of(source.records@, Some(turn)) is None ==> r.usage is None
            &&& user_message_count(kept) <= u32::MAX ==> r.sequence == user_message_count(kept)
        }),
{
}

} // verus!
