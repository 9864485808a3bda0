//! The list of sessions: which there are, in which order, and which of them a
//! client asks for.

use crate::pages::page_bounds;
use crate::paths::{parts, Component};
use crate::protocol::{reject_about, rejection_about, ErrorCode, Rejection, SessionId};
use crate::text::{
    ascii_lower, char_replaced, char_trimmed_end, contains, decimal, decimal_text, lowercase,
    lowercased, occurs_in, opt_view, parse_unsigned, replace_char, text_equal, to_ascii_lowercase,
    trim_end_char, unsigned_value,
};
use crate::workspace_restore::same_path;
use vstd::prelude::*;

verus! {

/// How many sessions are listed where the client does not say.
pub const SESSION_LIST_DEFAULT_LIMIT: usize = 50;

/// A directory: its path, and how it is written.
#[derive(Debug)]
pub struct Directory {
    pub path: Vec<Component>,
    pub shown: String,
}

/// A directory as directories are compared across platforms: with forward
/// slashes, without one at the end, in lower case.
pub open spec fn plain_directory(shown: Seq<char>) -> Seq<char> {
    ascii_lower(char_trimmed_end(char_replaced(shown, '\\', '/'), '/'))
}

/// A directory as directories are compared across platforms.
pub fn normalize_session_list_cwd(shown: &str) -> (r: String)
    ensures
        r@ == plain_directory(shown@),
{
    to_ascii_lowercase(trim_end_char(replace_char(shown, '\\', '/').as_str(), '/').as_str())
}

/// Whether two directories count as the same.
pub open spec fn same_directory(a: Directory, b: Directory) -> bool {
    parts(a.path@) == parts(b.path@) || plain_directory(a.shown@) == plain_directory(b.shown@)
}

/// Whether a directory is among those that are asked for; all are where none
/// is named.
pub open spec fn directory_wanted(wanted: Seq<Directory>, cwd: Directory) -> bool {
    wanted.len() == 0 || exists|i: int|
        0 <= i < wanted.len() && same_directory(#[trigger] wanted[i], cwd)
}

/// Whether a directory is among those that are asked for.
pub fn session_list_cwd_matches(cwds: &Vec<Directory>, cwd: &Directory) -> (r: bool)
    ensures
        r == directory_wanted(cwds@, *cwd),
{
    if cwds.len() == 0 {
        return true;
    }
    let plain = normalize_session_list_cwd(cwd.shown.as_str());
    let mut i: usize = 0;
    while i < cwds.len()
        invariant
            i <= cwds@.len(),
            cwds@.len() > 0,
            plain@ == plain_directory(cwd.shown@),
            forall|j: int| 0 <= j < i ==> !same_directory(#[trigger] cwds@[j], *cwd),
        decreases cwds@.len() - i,
    {
        let filter = &cwds[i];
        if same_path(&filter.path, &cwd.path) || text_equal(
            normalize_session_list_cwd(filter.shown.as_str()).as_str(),
            plain.as_str(),
        ) {
            assert(same_directory(cwds@[i as int], *cwd));
            return true;
        }
        i = i + 1;
    }
    false
}

/// What the list shows of a session.
#[derive(Debug)]
pub struct SummaryRow {
    pub id: SessionId,
    pub cwd: Directory,
    pub title: Option<String>,
    pub last_activity_at: i64,
    pub updated_at: i64,
    /// Whether the snapshot in its rollout can be read.
    pub readable: bool,
}

/// A loaded session.
#[derive(Debug)]
pub struct LiveRow {
    pub row: SummaryRow,
    pub ephemeral: bool,
    pub agent: bool,
}

/// Whether a loaded session is listed: one that is not kept is not, nor is an
/// agent's.
pub open spec fn is_listed(live: LiveRow) -> bool {
    !live.ephemeral && !live.agent
}

/// The last row of a session among those that are stored.
pub open spec fn stored_row(stored: Seq<SummaryRow>, id: SessionId) -> Option<SummaryRow>
    decreases stored.len(),
{
    if stored.len() == 0 {
        None
    } else if stored.last().id == id {
        Some(stored.last())
    } else {
        stored_row(stored.drop_last(), id)
    }
}

/// The last row of a session among those that are loaded and listed.
pub open spec fn live_row(live: Seq<LiveRow>, id: SessionId) -> Option<SummaryRow>
    decreases live.len(),
{
    if live.len() == 0 {
        None
    } else if is_listed(live.last()) && live.last().row.id == id {
        Some(live.last().row)
    } else {
        live_row(live.drop_last(), id)
    }
}

/// The row of a session: what is loaded is more recent than what is stored.
pub open spec fn chosen_row(stored: Seq<SummaryRow>, live: Seq<LiveRow>, id: SessionId) -> Option<
    SummaryRow,
> {
    match live_row(live, id) {
        Some(row) => Some(row),
        None => stored_row(stored, id),
    }
}

/// Whether `a` was active no earlier than `b`; where they were active at the
/// same time, whether it was changed no earlier.
pub open spec fn no_older(a: SummaryRow, b: SummaryRow) -> bool {
    a.last_activity_at > b.last_activity_at || (a.last_activity_at == b.last_activity_at
        && a.updated_at >= b.updated_at)
}

/// Whether the most recent come first.
pub open spec fn newest_first(rows: Seq<SummaryRow>) -> bool {
    forall|i: int, j: int|
        0 <= i < j < rows.len() ==> no_older(#[trigger] rows[i], #[trigger] rows[j])
}

/// Whether no session occurs twice.
pub open spec fn rows_distinct(rows: Seq<SummaryRow>) -> bool {
    forall|i: int, j: int|
        0 <= i < j < rows.len() ==> (#[trigger] rows[i]).id != (#[trigger] rows[j]).id
}

/// Whether a session has a row.
pub open spec fn has_row(rows: Seq<SummaryRow>, id: SessionId) -> bool {
    exists|i: int| 0 <= i < rows.len() && (#[trigger] rows[i]).id == id
}

fn row_present(rows: &Vec<SummaryRow>, id: SessionId) -> (r: bool)
    ensures
        r == has_row(rows@, id),
{
    let mut i: usize = 0;
    while i < rows.len()
        invariant
            i <= rows@.len(),
            forall|j: int| 0 <= j < i ==> (#[trigger] rows@[j]).id != id,
        decreases rows@.len() - i,
    {
        if rows[i].id == id {
            return true;
        }
        i = i + 1;
    }
    false
}

fn insert_row(rows: &mut Vec<SummaryRow>, row: SummaryRow)
    requires
        newest_first(old(rows)@),
        rows_distinct(old(rows)@),
        !has_row(old(rows)@, row.id),
    ensures
        newest_first(final(rows)@),
        rows_distinct(final(rows)@),
        forall|other: SummaryRow| #[trigger]
            final(rows)@.contains(other) == (other == row || old(rows)@.contains(other)),
        forall|id: SessionId| #[trigger]
            has_row(final(rows)@, id) == (id == row.id || has_row(old(rows)@, id)),
{
    let ghost before = rows@;
    let mut k: usize = 0;
    while k < rows.len() && (rows[k].last_activity_at > row.last_activity_at || (
    rows[k].last_activity_at == row.last_activity_at && rows[k].updated_at >= row.updated_at))
        invariant
            rows@ == before,
            k <= rows@.len(),
            forall|i: int| 0 <= i < k ==> no_older(#[trigger] before[i], row),
        decreases rows@.len() - k,
    {
        k = k + 1;
    }
    rows.insert(k, row);
    proof {
        let after = rows@;
        assert(after == before.insert(k as int, row));
        assert forall|i: int, j: int| 0 <= i < j < after.len() implies no_older(
            #[trigger] after[i],
            #[trigger] after[j],
        ) by {
            if j < k {
                assert(after[i] == before[i] && after[j] == before[j]);
            } else if j == k {
                assert(after[i] == before[i]);
            } else {
                assert(after[j] == before[j - 1]);
                if i < k {
                    assert(after[i] == before[i]);
                } else if i == k {
                    assert(no_older(row, before[k as int]));
                    if j - 1 > k {
                        assert(no_older(before[k as int], before[j - 1]));
                    }
                } else {
                    assert(after[i] == before[i - 1]);
                }
            }
        }
        assert forall|i: int, j: int| 0 <= i < j < after.len() implies (#[trigger] after[i]).id != (
        #[trigger] after[j]).id by {
            if j < k {
                assert(after[i] == before[i] && after[j] == before[j]);
            } else if j == k {
                assert(after[i] == before[i]);
            } else {
                assert(after[j] == before[j - 1]);
                if i < k {
                    assert(after[i] == before[i]);
                } else if i > k {
                    assert(after[i] == before[i - 1]);
                }
            }
        }
        assert(after[k as int] == row);
        assert forall|other: SummaryRow| #[trigger]
            after.contains(other) == (other == row || before.contains(other)) by {
            if after.contains(other) {
                let m = choose|m: int| 0 <= m < after.len() && after[m] == other;
                if m < k {
                    assert(before[m] == other);
                } else if m > k {
                    assert(before[m - 1] == other);
                }
            }
            if before.contains(other) {
                let m = choose|m: int| 0 <= m < before.len() && before[m] == other;
                if m < k {
                    assert(after[m] == other);
                } else {
                    assert(after[m + 1] == other);
                }
            }
        }
        assert forall|id: SessionId| #[trigger]
            has_row(after, id) == (id == row.id || has_row(before, id)) by {
            if has_row(after, id) {
                let m = choose|m: int| 0 <= m < after.len() && (#[trigger] after[m]).id == id;
                if m < k {
                    assert(before[m].id == id);
                } else if m > k {
                    assert(before[m - 1].id == id);
                }
            }
            if has_row(before, id) {
                let m = choose|m: int| 0 <= m < before.len() && (#[trigger] before[m]).id == id;
                if m < k {
                    assert(after[m].id == id);
                } else {
                    assert(after[m + 1].id == id);
                }
            }
        }
    }
}

/// The sessions that are listed, the most recent first. A loaded session shows
/// its current row; sessions that are not kept and agents' sessions are left
/// out.
pub fn list_session_summaries(stored: Vec<SummaryRow>, live: Vec<LiveRow>) -> (r: Vec<SummaryRow>)
    ensures
        newest_first(r@),
        rows_distinct(r@),
        forall|row: SummaryRow| #[trigger]
            r@.contains(row) == (chosen_row(stored@, live@, row.id) == Some(row)),
{
    let ghost all_stored = stored@;
    let ghost all_live = live@;
    let mut stored = stored;
    let mut live = live;
    let mut rows: Vec<SummaryRow> = Vec::new();
    while live.len() > 0
        invariant
            newest_first(rows@),
            rows_distinct(rows@),
            forall|id: SessionId| #[trigger]
                has_row(rows@, id) ==> live_row(all_live, id) is Some,
            forall|id: SessionId|
                !has_row(rows@, id) ==> #[trigger] live_row(all_live, id) == live_row(live@, id),
            forall|row: SummaryRow| #[trigger]
                rows@.contains(row) ==> live_row(all_live, row.id) == Some(row),
        decreases live@.len(),
    {
        let ghost before_rows = rows@;
        let ghost before_live = live@;
        let next = live.pop().unwrap();
        assert(live@ =~= before_live.drop_last());
        assert(next == before_live.last());
        if !next.ephemeral && !next.agent && !row_present(&rows, next.row.id) {
            assert(live_row(before_live, next.row.id) == Some(next.row));
            insert_row(&mut rows, next.row);
        }
    }
    while stored.len() > 0
        invariant
            newest_first(rows@),
            rows_distinct(rows@),
            forall|id: SessionId|
                !has_row(rows@, id) ==> #[trigger] live_row(all_live, id) is None,
            forall|id: SessionId|
                !has_row(rows@, id) ==> #[trigger] stored_row(all_stored, id) == stored_row(
                    stored@,
                    id,
                ),
            forall|row: SummaryRow| #[trigger]
                rows@.contains(row) ==> chosen_row(all_stored, all_live, row.id) == Some(row),
        decreases stored@.len(),
    {
        let ghost before_stored = stored@;
        let next = stored.pop().unwrap();
        assert(stored@ =~= before_stored.drop_last());
        assert(next == before_stored.last());
        if !row_present(&rows, next.id) {
            assert(stored_row(before_stored, next.id) == Some(next));
            assert(live_row(all_live, next.id) is None);
            insert_row(&mut rows, next);
        }
    }
    proof {
        lemma_row_has_its_id(all_stored, all_live);
        assert forall|row: SummaryRow| #[trigger]
            rows@.contains(row) == (chosen_row(all_stored, all_live, row.id) == Some(row)) by {
            if chosen_row(all_stored, all_live, row.id) == Some(row) {
                assert(has_row(rows@, row.id)) by {
                    if !has_row(rows@, row.id) {
                        assert(live_row(all_live, row.id) is None);
                        assert(stored_row(all_stored, row.id) == stored_row(stored@, row.id));
                    }
                }
                let m = choose|m: int| 0 <= m < rows@.len() && (#[trigger] rows@[m]).id == row.id;
                assert(rows@.contains(rows@[m]));
            }
        }
    }
    rows
}

proof fn lemma_stored_row_id(stored: Seq<SummaryRow>, id: SessionId)
    ensures
        stored_row(stored, id) is Some ==> stored_row(stored, id)->0.id == id,
    decreases stored.len(),
{
    if stored.len() > 0 {
        lemma_stored_row_id(stored.drop_last(), id);
    }
}

proof fn lemma_live_row_id(live: Seq<LiveRow>, id: SessionId)
    ensures
        live_row(live, id) is Some ==> live_row(live, id)->0.id == id,
    decreases live.len(),
{
    if live.len() > 0 {
        lemma_live_row_id(live.drop_last(), id);
    }
}

proof fn lemma_row_has_its_id(stored: Seq<SummaryRow>, live: Seq<LiveRow>)
    ensures
        forall|id: SessionId|
            (#[trigger] chosen_row(stored, live, id)) is Some ==> chosen_row(stored, live, id)->0.id
                == id,
{
    assert forall|id: SessionId|
        (#[trigger] chosen_row(stored, live, id)) is Some implies chosen_row(stored, live, id)->0.id
        == id by {
        lemma_stored_row_id(stored, id);
        lemma_live_row_id(live, id);
    }
}

/// Every session that is stored is listed, and so is every loaded one that is
/// kept and is no agent's: each once.
pub proof fn law_no_session_is_missing(
    stored: Seq<SummaryRow>,
    live: Seq<LiveRow>,
    rows: Seq<SummaryRow>,
    row: SummaryRow,
)
    requires
        forall|row: SummaryRow| #[trigger]
            rows.contains(row) == (chosen_row(stored, live, row.id) == Some(row)),
        stored.contains(row) || exists|i: int|
            0 <= i < live.len() && is_listed(#[trigger] live[i]) && live[i].row == row,
    ensures
        has_row(rows, row.id),
{
    if stored.contains(row) {
        lemma_stored_is_found(stored, row);
    } else {
        let i = choose|i: int|
            0 <= i < live.len() && is_listed(#[trigger] live[i]) && live[i].row == row;
        lemma_live_is_found(live, i);
    }
    lemma_row_has_its_id(stored, live);
    let chosen = chosen_row(stored, live, row.id);
    assert(chosen is Some);
    assert(rows.contains(chosen->0));
    let m = choose|m: int| 0 <= m < rows.len() && rows[m] == chosen->0;
    assert(rows[m].id == row.id);
}

proof fn lemma_stored_is_found(stored: Seq<SummaryRow>, row: SummaryRow)
    requires
        stored.contains(row),
    ensures
        stored_row(stored, row.id) is Some,
    decreases stored.len(),
{
    let m = choose|m: int| 0 <= m < stored.len() && stored[m] == row;
    if m < stored.len() - 1 {
        assert(stored.drop_last()[m] == row);
        lemma_stored_is_found(stored.drop_last(), row);
    }
}

proof fn lemma_live_is_found(live: Seq<LiveRow>, i: int)
    requires
        0 <= i < live.len(),
        is_listed(live[i]),
    ensures
        live_row(live, live[i].row.id) is Some,
    decreases live.len(),
{
    if i < live.len() - 1 {
        assert(live.drop_last()[i] == live[i]);
        lemma_live_is_found(live.drop_last(), i);
    }
}

/// A request for a page of the sessions.
#[derive(Debug)]
pub struct ListRequest {
    pub cursor: Option<String>,
    pub limit: Option<u32>,
    pub cwds: Vec<Directory>,
    pub search: Option<String>,
}

/// Whether a session is listed: it can be read, it is in one of the
/// directories, and its title holds the text that is searched for, whatever
/// the case.
pub open spec fn row_wanted(request: ListRequest, row: SummaryRow) -> bool {
    &&& row.readable
    &&& directory_wanted(request.cwds@, row.cwd)
    &&& match request.search {
        Some(search) => occurs_in(
            lowercased(
                match row.title {
                    Some(title) => title@,
                    None => ""@,
                },
            ),
            lowercased(search@),
        ),
        None => true,
    }
}

/// The places of the sessions that are asked for.
pub open spec fn rows_wanted(request: ListRequest, rows: Seq<SummaryRow>) -> Seq<usize>
    decreases rows.len(),
{
    if rows.len() == 0 {
        Seq::empty()
    } else {
        let before = rows_wanted(request, rows.drop_last());
        if row_wanted(request, rows.last()) {
            before.push((rows.len() - 1) as usize)
        } else {
            before
        }
    }
}

/// Where the page begins, if the cursor is a number.
pub open spec fn list_start(cursor: Option<String>) -> Option<nat> {
    match cursor {
        Some(cursor) => match unsigned_value(cursor@) {
            Some(start) => if start <= usize::MAX {
                Some(start)
            } else {
                None
            },
            None => None,
        },
        None => Some(0),
    }
}

/// How many sessions a page has.
pub open spec fn list_limit(limit: Option<u32>) -> nat {
    match limit {
        Some(limit) => limit as nat,
        None => SESSION_LIST_DEFAULT_LIMIT as nat,
    }
}

/// Whether `page` has the places of a page of `places`, and `next` the cursor
/// of the next page where more follow.
pub open spec fn is_list_page(
    places: Seq<usize>,
    start: nat,
    limit: nat,
    page: Seq<usize>,
    next: Option<Seq<char>>,
) -> bool {
    let from = if start < places.len() {
        start
    } else {
        places.len()
    };
    let to = if start + limit < places.len() {
        start + limit
    } else {
        places.len()
    };
    &&& page == places.subrange(from as int, to as int)
    &&& next == if start + limit < places.len() {
        Some(decimal(start + limit))
    } else {
        None
    }
}

fn wants_row(request: &ListRequest, search: &Option<String>, row: &SummaryRow) -> (r: bool)
    requires
        opt_view(*search) == match request.search {
            Some(search) => Some(lowercased(search@)),
            None => None,
        },
    ensures
        r == row_wanted(*request, *row),
{
    if !row.readable || !session_list_cwd_matches(&request.cwds, &row.cwd) {
        return false;
    }
    match search {
        Some(search) => {
            let title = match &row.title {
                Some(title) => lowercase(title.as_str()),
                None => lowercase(""),
            };
            contains(title.as_str(), search.as_str())
        },
        None => true,
    }
}

fn find_rows(request: &ListRequest, rows: &Vec<SummaryRow>) -> (r: Vec<usize>)
    ensures
        r@ == rows_wanted(*request, rows@),
{
    let search = match &request.search {
        Some(search) => Some(lowercase(search.as_str())),
        None => None,
    };
    let mut places: Vec<usize> = Vec::new();
    let mut i: usize = 0;
    assert(rows@.take(0) =~= Seq::empty());
    while i < rows.len()
        invariant
            i <= rows@.len(),
            opt_view(search) == match request.search {
                Some(search) => Some(lowercased(search@)),
                None => None,
            },
            places@ == rows_wanted(*request, rows@.take(i as int)),
        decreases rows@.len() - i,
    {
        assert(rows@.take(i + 1).drop_last() =~= rows@.take(i as int));
        assert(rows@.take(i + 1).last() == rows@[i as int]);
        if wants_row(request, &search, &rows[i]) {
            places.push(i);
        }
        i = i + 1;
    }
    assert(rows@.take(rows@.len() as int) =~= rows@);
    places
}

fn read_start(cursor: &Option<String>) -> (r: Option<usize>)
    ensures
        match r {
            Some(start) => list_start(*cursor) == Some(start as nat),
            None => list_start(*cursor) is None && *cursor is Some,
        },
{
    match cursor {
        Some(cursor) => match parse_unsigned(cursor.as_str()) {
            Some(start) => {
                if start <= usize::MAX as u64 {
                    Some(start as usize)
                } else {
                    None
                }
            },
            None => None,
        },
        None => Some(0),
    }
}

/// Answers a request for a page of the sessions: the places of the sessions
/// and the cursor of the next page. Sessions that cannot be read are skipped
/// and not counted. A cursor that is no number is refused.
pub fn handle_native_session_list(request: ListRequest, rows: &Vec<SummaryRow>) -> (r: Result<
    (Vec<usize>, Option<String>),
    Rejection,
>)
    ensures
        match (r, list_start(request.cursor)) {
            (Ok((page, next)), Some(start)) => is_list_page(
                rows_wanted(request, rows@),
                start,
                list_limit(request.limit),
                page@,
                opt_view(next),
            ),
            (Err(why), None) => request.cursor is Some && why == rejection_about(
                ErrorCode::InvalidParams,
                "invalid canonical session/list cursor: ",
                request.cursor->0,
            ),
            _ => false,
        },
{
    let start: usize = match read_start(&request.cursor) {
        Some(start) => start,
        None => {
            let cursor = match request.cursor {
                Some(cursor) => cursor,
                None => String::new(),
            };
            return Err(
                reject_about(
                    ErrorCode::InvalidParams,
                    "invalid canonical session/list cursor: ",
                    cursor,
                ),
            );
        },
    };
    let limit: usize = match request.limit {
        Some(limit) => limit as usize,
        None => SESSION_LIST_DEFAULT_LIMIT,
    };
    let places = find_rows(&request, rows);
    let (from, to, next) = page_bounds(places.len(), start, limit);
    let mut page: Vec<usize> = Vec::new();
    let mut i: usize = from;
    while i < to
        invariant
            from <= i <= to <= places@.len(),
            page@ == places@.subrange(from as int, i as int),
        decreases to - i,
    {
        page.push(places[i]);
        i = i + 1;
        assert(page@ =~= places@.subrange(from as int, i as int));
    }
    assert(page@ =~= places@.subrange(from as int, to as int));
    let next_cursor = match next {
        Some(next) => Some(decimal_text(next as u64)),
        None => None,
    };
    Ok((page, next_cursor))
}

proof fn lemma_rows_wanted_are_wanted(request: ListRequest, rows: Seq<SummaryRow>, k: int)
    requires
        rows.len() <= usize::MAX,
        0 <= k < rows_wanted(request, rows).len(),
    ensures
        rows_wanted(request, rows)[k] < rows.len(),
        row_wanted(request, rows[rows_wanted(request, rows)[k] as int]),
    decreases rows.len(),
{
    let before = rows_wanted(request, rows.drop_last());
    if k < before.len() {
        lemma_rows_wanted_are_wanted(request, rows.drop_last(), k);
        assert(rows.drop_last()[before[k] as int] == rows[before[k] as int]);
    }
}

/// A session whose snapshot cannot be read is on no page, and no page has a
/// session that was not asked for.
pub proof fn law_unreadable_sessions_are_skipped(
    request: ListRequest,
    rows: Seq<SummaryRow>,
    start: nat,
    limit: nat,
    page: Seq<usize>,
    next: Option<Seq<char>>,
    k: int,
)
    requires
        rows.len() <= usize::MAX,
        is_list_page(rows_wanted(request, rows), start, limit, page, next),
        0 <= k < page.len(),
    ensures
        page[k] < rows.len(),
        rows[page[k] as int].readable,
        row_wanted(request, rows[page[k] as int]),
{
    let places = rows_wanted(request, rows);
    let from = if start < places.len() {
        start
    } else {
        places.len()
    };
    assert(page[k] == places[from + k]);
    lemma_rows_wanted_are_wanted(request, rows, from + k);
}

/// The page that a cursor names begins where the page before it ended.
pub proof fn law_list_pages_meet(
    places: Seq<usize>,
    start: nat,
    limit: nat,
    page: Seq<usize>,
    next: Option<Seq<char>>,
    later: Seq<usize>,
    after: Option<Seq<char>>,
)
    requires
        is_list_page(places, start, limit, page, next),
        next is Some,
        is_list_page(places, start + limit, limit, later, after),
    ensures
        unsigned_value(next->0) == Some(start + limit) || start + limit > u64::MAX,
        page + later == places.subrange(
            start as int,
            if start + 2 * limit < places.len() {
                (start + 2 * limit) as int
            } else {
                places.len() as int
            },
        ),
{
    if start + limit <= u64::MAX {
        crate::text::law_decimal_round_trip((start + limit) as u64);
    }
    assert(page + later =~= places.subrange(
        start as int,
        if start + 2 * limit < places.len() {
            (start + 2 * limit) as int
        } else {
            places.len() as int
        },
    ));
}

/// Directories are the same where their paths are, or where they read the same
/// but for the slashes, one at the end, and the case of plain letters.
pub proof fn law_sessions_are_listed_by_directory(
    wanted: Seq<Directory>,
    directory: Directory,
    cwd: Directory,
)
    ensures
        directory_wanted(Seq::empty(), cwd),
        parts(directory.path@) == parts(cwd.path@) ==> directory_wanted(
            wanted.push(directory),
            cwd,
        ),
        plain_directory(directory.shown@) == plain_directory(cwd.shown@) ==> directory_wanted(
            wanted.push(directory),
            cwd,
        ),
        wanted.len() > 0 && directory_wanted(wanted, cwd) ==> directory_wanted(
            wanted.push(directory),
            cwd,
        ),
        (wanted.len() == 0 || !directory_wanted(wanted, cwd)) && parts(directory.path@) != parts(
            cwd.path@,
        ) && plain_directory(directory.shown@) != plain_directory(cwd.shown@) ==> !directory_wanted(
            wanted.push(directory),
            cwd,
        ),
{
    let all = wanted.push(directory);
    assert(all[wanted.len() as int] == directory);
    assert forall|i: int| 0 <= i < wanted.len() implies all[i] == #[trigger] wanted[i] by {}
    if wanted.len() > 0 && directory_wanted(wanted, cwd) {
        let i = choose|i: int| 0 <= i < wanted.len() && same_directory(#[trigger] wanted[i], cwd);
        assert(same_directory(all[i], cwd));
    }
    if directory_wanted(all, cwd) {
        let i = choose|i: int| 0 <= i < all.len() && same_directory(#[trigger] all[i], cwd);
        if i < wanted.len() {
            assert(same_directory(wanted[i], cwd));
        }
    }
}

/// A session is listed as it is now: the row of the live session goes before the
/// one that is stored. Live sessions that are ephemeral or those of agents are
/// not listed.
pub proof fn law_live_sessions_are_listed_as_they_are(
    stored: Seq<SummaryRow>,
    live: Seq<LiveRow>,
    row: LiveRow,
    id: SessionId,
)
    ensures
        !row.ephemeral && !row.agent && row.row.id == id ==> chosen_row(stored, live.push(row), id)
            == Some(row.row),
        row.ephemeral || row.agent || row.row.id != id ==> chosen_row(stored, live.push(row), id)
            == chosen_row(stored, live, id),
        chosen_row(stored, Seq::empty(), id) == stored_row(stored, id),
{
    assert(live.push(row).drop_last() =~= live);
}

/// A stored session is listed by the row that was stored last.
pub proof fn law_stored_sessions_are_listed(
    stored: Seq<SummaryRow>,
    row: SummaryRow,
    id: SessionId,
)
    ensures
        row.id == id ==> stored_row(stored.push(row), id) == Some(row),
        row.id != id ==> stored_row(stored.push(row), id) == stored_row(stored, id),
        stored_row(Seq::empty(), id) is None,
{
    assert(stored.push(row).drop_last() =~= stored);
}

/// Sessions are listed by when they were last active, the latest first, and by
/// when they were last changed where that is the same.
pub proof fn law_the_latest_session_comes_first(rows: Seq<SummaryRow>, i: int, j: int)
    requires
        newest_first(rows),
        0 <= i < j < rows.len(),
    ensures
        rows[i].last_activity_at >= rows[j].last_activity_at,
        rows[i].last_activity_at == rows[j].last_activity_at ==> rows[i].updated_at
            >= rows[j].updated_at,
{
}

/// What a client asks for is what it gets: the sessions that can be read, of the
/// directories that it names, whose title has the text that it looks for,
/// whatever the case. A session without a title is found by no text but the
/// empty one.
pub proof fn law_listed_sessions_are_the_wanted_ones(
    request: ListRequest,
    rows: Seq<SummaryRow>,
    row: SummaryRow,
)
    requires
        rows.len() < usize::MAX,
    ensures
        ({
            let fits = row.readable && directory_wanted(request.cwds@, row.cwd) && (request.search
                is None || (row.title is Some && occurs_in(
                lowercased(row.title->0@),
                lowercased(request.search->0@),
            )) || (row.title is None && occurs_in(lowercased(""@), lowercased(request.search->0@))));
            &&& fits ==> rows_wanted(request, rows.push(row)) == rows_wanted(request, rows).push(
                rows.len() as usize,
            )
            &&& !fits ==> rows_wanted(request, rows.push(row)) == rows_wanted(request, rows)
            &&& rows_wanted(request, Seq::empty()) == Seq::<usize>::empty()
        }),
{
    assert(rows.push(row).drop_last() =~= rows);
}

/// A page begins where its cursor says, holds as many sessions as are asked for,
/// fifty where nothing is said, and leads on exactly where there are more.
pub proof fn law_list_pages_are_as_asked(
    request: ListRequest,
    places: Seq<usize>,
    start: nat,
    page: Seq<usize>,
    next: Option<Seq<char>>,
)
    requires
        is_list_page(places, start, list_limit(request.limit), page, next),
        start <= places.len(),
    ensures
        ({
            let limit: int = if request.limit is Some {
                request.limit->0 as int
            } else {
                50
            };
            &&& start + limit < places.len() ==> page.len() == limit && next == Some(
                decimal((start + limit) as nat),
            )
            &&& start + limit >= places.len() ==> page.len() == places.len() - start && next is None
            &&& forall|k: int| 0 <= k < page.len() ==> #[trigger] page[k] == places[start + k]
        }),
        list_start(None) == Some(0nat),
        request.cursor matches Some(cursor) ==> (list_start(request.cursor) is Some ==>
            unsigned_value(cursor@) == list_start(request.cursor)),
{
}

} // verus!
