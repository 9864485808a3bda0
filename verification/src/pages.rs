//! Reading long lists page by page.

use crate::protocol::{reject_about, rejection_about, ErrorCode, Rejection, TurnId};
use crate::text::{decimal, decimal_text, parse_unsigned, unsigned_value};
use vstd::prelude::*;

verus! {

/// How many entries a page has where the client does not say.
pub const DEFAULT_PAGE_LIMIT: u32 = 50;

/// How many entries a page has at most.
pub const MAX_PAGE_LIMIT: u32 = 200;

/// Something that stands at a position of a list. Lists are in the order of
/// the positions.
pub trait Positioned: Sized {
    /// The position.
    spec fn at(&self) -> u64;

    /// The position.
    fn position(&self) -> (r: u64)
        ensures
            r == self.at(),
    ;

    /// A copy.
    fn copy(&self) -> (r: Self)
        ensures
            r == *self,
    ;
}

impl Positioned for u64 {
    open spec fn at(&self) -> u64 {
        *self
    }

    fn position(&self) -> (r: u64) {
        *self
    }

    fn copy(&self) -> (r: u64) {
        *self
    }
}

/// A turn of a history: its number, and which one of the history it is.
#[derive(Clone, Copy, Debug, PartialEq, Eq, Structural)]
pub struct TurnEntry {
    pub sequence: u32,
    pub index: usize,
}

impl Positioned for TurnEntry {
    open spec fn at(&self) -> u64 {
        self.sequence as u64
    }

    fn position(&self) -> (r: u64) {
        self.sequence as u64
    }

    fn copy(&self) -> (r: TurnEntry) {
        *self
    }
}

/// An item of a history: its number, its turn, and which one of the history it
/// is.
#[derive(Clone, Copy, Debug, PartialEq, Eq, Structural)]
pub struct ItemEntry {
    pub seq: u64,
    pub turn: TurnId,
    pub index: usize,
}

impl Positioned for ItemEntry {
    open spec fn at(&self) -> u64 {
        self.seq
    }

    fn position(&self) -> (r: u64) {
        self.seq
    }

    fn copy(&self) -> (r: ItemEntry) {
        *self
    }
}

/// Which page a client asks for: the one after a cursor, of some length.
#[derive(Clone, Debug)]
pub struct PageParams {
    pub cursor: Option<String>,
    pub limit: Option<u32>,
}

/// A page, and the cursor after which the next one begins.
#[derive(Clone, Debug, PartialEq, Eq)]
pub struct Page<T> {
    pub data: Vec<T>,
    pub next_cursor: Option<String>,
}

/// The entries behind a position.
pub open spec fn beyond<T: Positioned>(items: Seq<T>, after: u64) -> Seq<T> {
    items.filter(|item: T| item.at() > after)
}

/// The entries of the page behind a position.
pub open spec fn page_data<T: Positioned>(items: Seq<T>, after: u64, limit: nat) -> Seq<T> {
    let rest = beyond(items, after);
    if rest.len() <= limit {
        rest
    } else {
        rest.take(limit as int)
    }
}

/// The position at which the page behind a position ends.
pub open spec fn page_end<T: Positioned>(items: Seq<T>, after: u64, limit: nat) -> u64 {
    let data = page_data(items, after, limit);
    if data.len() > 0 {
        data.last().at()
    } else {
        after
    }
}

/// Whether there are entries behind a position.
pub open spec fn has_more<T: Positioned>(items: Seq<T>, after: u64) -> bool {
    exists|i: int| 0 <= i < items.len() && (#[trigger] items[i]).at() > after
}

/// The position that a cursor names: nothing comes before the first page.
pub open spec fn cursor_position(cursor: Option<String>) -> Option<nat> {
    match cursor {
        Some(cursor) => match unsigned_value(cursor@) {
            Some(value) => if value <= u64::MAX {
                Some(value)
            } else {
                None
            },
            None => None,
        },
        None => Some(0),
    }
}

/// The length of a page: what was asked for, kept within bounds.
pub open spec fn page_limit(limit: Option<u32>) -> nat {
    match limit {
        Some(limit) => if limit < 1 {
            1
        } else if limit > MAX_PAGE_LIMIT {
            MAX_PAGE_LIMIT as nat
        } else {
            limit as nat
        },
        None => DEFAULT_PAGE_LIMIT as nat,
    }
}

/// Whether `page` is the page that was asked for. A cursor is the position of
/// the last entry; there is one exactly where more entries follow.
pub open spec fn is_page<T: Positioned>(items: Seq<T>, after: u64, limit: nat, page: Page<T>) -> bool {
    let last = page_end(items, after, limit);
    &&& page.data@ == page_data(items, after, limit)
    &&& match page.next_cursor {
        Some(cursor) => has_more(items, last) && cursor@ == decimal(last as nat),
        None => !has_more(items, last),
    }
}

proof fn lemma_page_grows<T: Positioned>(items: Seq<T>, i: int, after: u64, limit: nat)
    requires
        0 <= i < items.len(),
    ensures
        page_data(items.take(i + 1), after, limit) == if items[i].at() > after && page_data(
            items.take(i),
            after,
            limit,
        ).len() < limit {
            page_data(items.take(i), after, limit).push(items[i])
        } else {
            page_data(items.take(i), after, limit)
        },
{
    reveal(Seq::filter);
    let more = items.take(i + 1);
    assert(more.drop_last() =~= items.take(i));
    assert(more.last() == items[i]);
    let before = beyond(items.take(i), after);
    let rest = beyond(more, after);
    assert(rest == if items[i].at() > after {
        before.push(items[i])
    } else {
        before
    });
    if items[i].at() > after && before.len() >= limit {
        assert(rest.take(limit as int) =~= before.take(limit as int));
        assert(before.take(limit as int) =~= page_data(items.take(i), after, limit));
    }
}

fn read_cursor(cursor: &Option<String>) -> (r: Option<u64>)
    ensures
        match r {
            Some(after) => cursor_position(*cursor) == Some(after as nat),
            None => cursor_position(*cursor) is None,
        },
{
    match cursor {
        Some(cursor) => parse_unsigned(cursor.as_str()),
        None => Some(0),
    }
}

fn read_limit(limit: Option<u32>) -> (r: usize)
    ensures
        r == page_limit(limit),
{
    let limit: u32 = match limit {
        Some(limit) => {
            if limit < 1 {
                1
            } else if limit > MAX_PAGE_LIMIT {
                MAX_PAGE_LIMIT
            } else {
                limit
            }
        },
        None => DEFAULT_PAGE_LIMIT,
    };
    limit as usize
}

/// The page of a list that a client asks for. A cursor that is no number is
/// refused; a length that is out of bounds is not.
pub fn paginate<T: Positioned>(items: &Vec<T>, params: &PageParams) -> (r: Result<Page<T>, String>)
    ensures
        match (r, cursor_position(params.cursor)) {
            (Ok(page), Some(after)) => is_page(
                items@,
                after as u64,
                page_limit(params.limit),
                page,
            ),
            (Err(why), None) => why@ == "malformed cursor"@,
            _ => false,
        },
{
    let after: u64 = match read_cursor(&params.cursor) {
        Some(after) => after,
        None => {
            return Err("malformed cursor".to_owned());
        },
    };
    let limit: usize = read_limit(params.limit);
    let mut data: Vec<T> = Vec::new();
    let mut i: usize = 0;
    proof {
        reveal(Seq::filter);
        assert(items@.take(0) =~= Seq::empty());
    }
    while i < items.len()
        invariant
            i <= items@.len(),
            data@ == page_data(items@.take(i as int), after, limit as nat),
        decreases items@.len() - i,
    {
        proof {
            lemma_page_grows(items@, i as int, after, limit as nat);
        }
        if items[i].position() > after && data.len() < limit {
            data.push(items[i].copy());
        }
        i = i + 1;
    }
    assert(items@.take(items@.len() as int) =~= items@);
    let last: u64 = if data.len() > 0 {
        data[data.len() - 1].position()
    } else {
        after
    };
    let mut more = false;
    let mut k: usize = 0;
    while k < items.len()
        invariant
            k <= items@.len(),
            more == exists|j: int| 0 <= j < k && (#[trigger] items@[j]).at() > last,
        decreases items@.len() - k,
    {
        let here = items[k].position() > last;
        assert(here == (items@[k as int].at() > last));
        more = more || here;
        k = k + 1;
    }
    let next_cursor = if more {
        Some(decimal_text(last))
    } else {
        None
    };
    Ok(Page { data, next_cursor })
}

/// Whether the positions grow from entry to entry.
pub open spec fn ascending<T: Positioned>(items: Seq<T>) -> bool {
    forall|i: int, j: int|
        0 <= i < j < items.len() ==> (#[trigger] items[i]).at() < (#[trigger] items[j]).at()
}

/// The entries of the next `pages` pages behind a position, each page being
/// asked for with the cursor of the one before it.
pub open spec fn walked<T: Positioned>(items: Seq<T>, after: u64, limit: nat, pages: nat) -> Seq<T>
    decreases pages,
{
    if pages == 0 {
        Seq::empty()
    } else {
        let last = page_end(items, after, limit);
        page_data(items, after, limit) + if has_more(items, last) {
            walked(items, last, limit, (pages - 1) as nat)
        } else {
            Seq::empty()
        }
    }
}

spec fn cut_point<T: Positioned>(items: Seq<T>, after: u64) -> int
    decreases items.len(),
{
    if items.len() == 0 {
        0
    } else if items.last().at() > after {
        cut_point(items.drop_last(), after)
    } else {
        items.len() as int
    }
}

proof fn lemma_cut_point<T: Positioned>(items: Seq<T>, after: u64)
    requires
        ascending(items),
    ensures
        0 <= cut_point(items, after) <= items.len(),
        forall|i: int|
            0 <= i < items.len() ==> ((#[trigger] items[i]).at() > after) == (i >= cut_point(
                items,
                after,
            )),
        beyond(items, after) == items.skip(cut_point(items, after)),
    decreases items.len(),
{
    reveal(Seq::filter);
    if items.len() > 0 {
        let shorter = items.drop_last();
        assert(ascending(shorter)) by {
            assert forall|i: int, j: int| 0 <= i < j < shorter.len() implies (
            #[trigger] shorter[i]).at() < (#[trigger] shorter[j]).at() by {
                assert(items[i].at() < items[j].at());
            }
        }
        lemma_cut_point(shorter, after);
        let m = cut_point(items, after);
        if items.last().at() > after {
            assert(items.skip(m) =~= shorter.skip(m).push(items.last()));
            assert forall|i: int| 0 <= i < items.len() implies ((#[trigger] items[i]).at() > after)
                == (i >= m) by {
                if i < shorter.len() {
                    assert(shorter[i] == items[i]);
                }
            }
        } else {
            assert forall|i: int| 0 <= i < items.len() implies (#[trigger] items[i]).at()
                <= after by {
                if i < items.len() - 1 {
                    assert(items[i].at() < items[items.len() - 1].at());
                }
            }
            assert(cut_point(shorter, after) == shorter.len()) by {
                if cut_point(shorter, after) < shorter.len() {
                    let k = cut_point(shorter, after);
                    assert(shorter[k].at() > after);
                    assert(items[k].at() <= after);
                }
            }
            assert(shorter.skip(shorter.len() as int) =~= Seq::empty());
            assert(items.skip(items.len() as int) =~= Seq::empty());
        }
    } else {
        assert(beyond(items, after) =~= items.skip(0));
    }
}

proof fn lemma_walk<T: Positioned>(items: Seq<T>, after: u64, limit: nat, pages: nat)
    requires
        ascending(items),
        limit >= 1,
        pages >= 1,
        pages >= items.len() - cut_point(items, after),
    ensures
        walked(items, after, limit, pages) == items.skip(cut_point(items, after)),
    decreases pages,
{
    lemma_cut_point(items, after);
    let m = cut_point(items, after);
    let rest = items.skip(m);
    let data = page_data(items, after, limit);
    let last = page_end(items, after, limit);
    lemma_cut_point(items, last);
    let next = cut_point(items, last);
    if data.len() > 0 {
        let k = data.len() as int;
        assert(data =~= rest.take(k));
        assert(data.last() == items[m + k - 1]);
        assert(next == m + k) by {
            assert(!(items[m + k - 1].at() > last));
            assert(next > m + k - 1);
            if m + k < items.len() {
                assert(items[m + k - 1].at() < items[m + k].at());
                assert(items[m + k].at() > last);
            }
        }
    } else {
        assert(rest.len() == 0);
        assert(next == m);
    }
    if has_more(items, last) {
        let i = choose|i: int| 0 <= i < items.len() && (#[trigger] items[i]).at() > last;
        assert(next < items.len());
        if data.len() == 0 {
            assert(false);
        }
        lemma_walk(items, last, limit, (pages - 1) as nat);
        assert(data + items.skip(next) =~= rest);
    } else {
        assert(next == items.len()) by {
            if next < items.len() {
                assert(items[next].at() > last);
            }
        }
        assert(data + Seq::empty() =~= rest);
    }
}

/// Reading a list page by page gives every entry once and in order, whatever
/// the length of a page: positions begin at one and grow.
pub proof fn law_pages_cover_the_list<T: Positioned>(items: Seq<T>, limit: nat)
    requires
        ascending(items),
        forall|i: int| 0 <= i < items.len() ==> (#[trigger] items[i]).at() > 0,
        limit >= 1,
    ensures
        walked(items, 0, limit, items.len()) == items,
{
    lemma_cut_point(items, 0);
    if items.len() == 0 {
        assert(walked(items, 0, limit, 0) =~= items);
    } else {
        assert(items[0].at() > 0);
        assert(cut_point(items, 0) == 0);
        lemma_walk(items, 0, limit, items.len());
        assert(items.skip(0) =~= items);
    }
}

/// The items of a turn, or all of them.
pub open spec fn items_of(items: Seq<ItemEntry>, turn: Option<TurnId>) -> Seq<ItemEntry> {
    match turn {
        Some(turn) => items.filter(|item: ItemEntry| item.turn == turn),
        None => items,
    }
}

fn pick_items(items: Vec<ItemEntry>, turn: Option<TurnId>) -> (r: Vec<ItemEntry>)
    ensures
        r@ == items_of(items@, turn),
{
    let turn = match turn {
        Some(turn) => turn,
        None => {
            return items;
        },
    };
    let ghost wanted = |item: ItemEntry| item.turn == turn;
    let mut picked: Vec<ItemEntry> = Vec::new();
    let mut i: usize = 0;
    proof {
        reveal(Seq::filter);
        assert(items@.take(0) =~= Seq::empty());
    }
    while i < items.len()
        invariant
            i <= items@.len(),
            wanted == |item: ItemEntry| item.turn == turn,
            picked@ == items@.take(i as int).filter(wanted),
        decreases items@.len() - i,
    {
        proof {
            reveal(Seq::filter);
            assert(items@.take(i + 1).drop_last() =~= items@.take(i as int));
            assert(items@.take(i + 1).last() == items@[i as int]);
        }
        if items[i].turn == turn {
            picked.push(items[i]);
        }
        i = i + 1;
    }
    assert(items@.take(items@.len() as int) =~= items@);
    picked
}

/// The answer to a page that cannot be given.
pub open spec fn is_page_refusal(why: Rejection) -> bool {
    why.code is InvalidParams && why.message_view() == "malformed cursor"@
}

fn refuse_page(why: String) -> (r: Rejection)
    requires
        why@ == "malformed cursor"@,
    ensures
        is_page_refusal(r),
{
    proof {
        reveal_strlit("");
        assert(""@ + why@ =~= why@);
    }
    reject_about(ErrorCode::InvalidParams, "", why)
}

/// Answers a request for a page of the turns of a session.
pub fn list_turns(turns: &Vec<TurnEntry>, params: &PageParams) -> (r: Result<Page<TurnEntry>, Rejection>)
    ensures
        match (r, cursor_position(params.cursor)) {
            (Ok(page), Some(after)) => is_page(
                turns@,
                after as u64,
                page_limit(params.limit),
                page,
            ),
            (Err(why), None) => is_page_refusal(why),
            _ => false,
        },
{
    match paginate(turns, params) {
        Ok(page) => Ok(page),
        Err(why) => Err(refuse_page(why)),
    }
}

/// Answers a request for a page of the items of a session, or of one turn.
pub fn list_items(items: Vec<ItemEntry>, turn: Option<TurnId>, params: &PageParams) -> (r: Result<
    Page<ItemEntry>,
    Rejection,
>)
    ensures
        match (r, cursor_position(params.cursor)) {
            (Ok(page), Some(after)) => is_page(
                items_of(items@, turn),
                after as u64,
                page_limit(params.limit),
                page,
            ),
            (Err(why), None) => is_page_refusal(why),
            _ => false,
        },
{
    match paginate(&pick_items(items, turn), params) {
        Ok(page) => Ok(page),
        Err(why) => Err(refuse_page(why)),
    }
}

/// The answer where the history of a session cannot be read.
pub fn history_unreadable(error: String) -> (r: Rejection)
    ensures
        r == rejection_about(ErrorCode::InternalError, "failed to read session history: ", error),
{
    reject_about(ErrorCode::InternalError, "failed to read session history: ", error)
}

/// The bounds of a page of a list with `len` entries that begins at `start`
/// and has up to `limit` entries, and where the next page begins.
pub fn page_bounds(len: usize, start: usize, limit: usize) -> (r: (usize, usize, Option<usize>))
    ensures
        r.0 == if start < len {
            start
        } else {
            len
        },
        r.1 == if start + limit < len {
            start + limit
        } else {
            len as int
        },
        r.2 == if start + limit < len {
            Some((start + limit) as usize)
        } else {
            None
        },
{
    if start >= len {
        (len, len, None)
    } else if limit < len - start {
        (start, start + limit, Some(start + limit))
    } else {
        (start, len, None)
    }
}

/// A page holds what comes after its cursor, up to its limit, in order, and
/// leads on exactly where there is more. The limit is fifty where nothing is
/// said, at least one and at most two hundred.
pub proof fn law_pages_are_as_asked<T: Positioned>(
    items: Seq<T>,
    params: PageParams,
    after: u64,
    page: Page<T>,
)
    requires
        is_page(items, after, page_limit(params.limit), page),
    ensures
        ({
            let limit: int = match params.limit {
                None => 50,
                Some(limit) => if limit == 0 {
                    1
                } else if limit > 200 {
                    200
                } else {
                    limit as int
                },
            };
            &&& page.data@.len() <= limit
            &&& page.data@.len() < limit ==> page.data@ == items.filter(
                |item: T| item.at() > after,
            )
            &&& page.data@.is_prefix_of(items.filter(|item: T| item.at() > after))
            &&& page.data@.len() > 0 && page.next_cursor is Some ==> page.next_cursor->0@ == decimal(
                page.data@.last().at() as nat,
            )
            &&& page.data@.len() > 0 ==> (page.next_cursor is Some <==> exists|i: int|
                0 <= i < items.len() && (#[trigger] items[i]).at() > page.data@.last().at())
        }),
        cursor_position(None) == Some(0nat),
        params.cursor matches Some(cursor) ==> match unsigned_value(cursor@) {
            Some(value) => (value <= u64::MAX ==> cursor_position(params.cursor) == Some(value))
                && (value > u64::MAX ==> cursor_position(params.cursor) is None),
            None => cursor_position(params.cursor) is None,
        },
{
}

/// The items of a turn are all of its items, in order, and no others; without a
/// turn they are all items.
pub proof fn law_items_are_picked_by_turn(items: Seq<ItemEntry>, item: ItemEntry, turn: TurnId)
    ensures
        items_of(items, None) == items,
        items_of(Seq::empty(), Some(turn)) == Seq::<ItemEntry>::empty(),
        item.turn == turn ==> items_of(items.push(item), Some(turn)) == items_of(
            items,
            Some(turn),
        ).push(item),
        item.turn != turn ==> items_of(items.push(item), Some(turn)) == items_of(items, Some(turn)),
{
    reveal(Seq::filter);
    assert(items.push(item).drop_last() =~= items);
}

} // verus!
