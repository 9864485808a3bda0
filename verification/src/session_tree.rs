//! Moving about in the tree of a session's transcript.

use crate::acp_history::{part_texts, user_text_from_content};
use crate::inputs::UserInput;
use crate::protocol::{
    reject, reject_about, reject_session_missing, rejection, rejection_about, session_missing,
    ErrorCode, ItemId, Rejection,
};
use crate::text::{joined, opt_view};
use vstd::prelude::*;

verus! {

/// An entry of the tree. A message of the user has its content.
#[derive(Debug)]
pub struct TreeItem {
    pub id: ItemId,
    pub parent: Option<ItemId>,
    pub message: Option<Vec<UserInput>>,
}

/// Where the transcript ends after a move, and what the user is given to edit.
#[derive(Debug)]
pub struct NavigateTarget {
    pub leaf: Option<ItemId>,
    pub text: Option<String>,
}

/// The first place of an entry.
pub open spec fn entry_place(items: Seq<TreeItem>, entry: ItemId) -> int
    decreases items.len(),
{
    if items.len() == 0 || items[0].id == entry {
        0
    } else {
        1 + entry_place(items.skip(1), entry)
    }
}

/// Whether `target` is where a move to the item leads: a message of the user
/// is taken back and edited, anything else becomes the end.
pub open spec fn is_target(item: TreeItem, target: NavigateTarget) -> bool {
    match item.message {
        Some(content) => {
            &&& target.leaf == item.parent
            &&& opt_view(target.text) == Some(joined(part_texts(content@), "\n"@))
        },
        None => target.leaf == Some(item.id) && target.text is None,
    }
}

proof fn lemma_entry_place(items: Seq<TreeItem>, entry: ItemId, n: int)
    requires
        0 <= n <= items.len(),
        forall|i: int| 0 <= i < n ==> (#[trigger] items[i]).id != entry,
        n == items.len() || items[n].id == entry,
    ensures
        entry_place(items, entry) == n,
    decreases n,
{
    if n > 0 {
        let rest = items.skip(1);
        assert forall|i: int| 0 <= i < n - 1 implies (#[trigger] rest[i]).id != entry by {
            assert(rest[i] == items[i + 1]);
        }
        if n < items.len() {
            assert(rest[n - 1] == items[n]);
        }
        lemma_entry_place(rest, entry, n - 1);
        assert(items[0].id != entry);
    }
}

/// Where a move to an entry leads, if the entry is there.
pub fn resolve_target(items: &Vec<TreeItem>, entry: ItemId) -> (r: Option<NavigateTarget>)
    ensures
        match r {
            Some(target) => entry_place(items@, entry) < items@.len() && is_target(
                items@[entry_place(items@, entry)],
                target,
            ),
            None => entry_place(items@, entry) == items@.len(),
        },
{
    let mut place: usize = 0;
    while place < items.len() && items[place].id != entry
        invariant
            place <= items@.len(),
            forall|i: int| 0 <= i < place ==> (#[trigger] items@[i]).id != entry,
        decreases items@.len() - place,
    {
        place = place + 1;
    }
    proof {
        lemma_entry_place(items@, entry, place as int);
    }
    if place == items.len() {
        return None;
    }
    let item = &items[place];
    match &item.message {
        Some(content) => Some(
            NavigateTarget { leaf: item.parent, text: Some(user_text_from_content(content)) },
        ),
        None => Some(NavigateTarget { leaf: Some(item.id), text: None }),
    }
}

/// The text of the summary that stands at the start of a branch.
pub open spec fn branch_summary_text(custom: Option<Seq<char>>, replace: bool) -> Seq<char> {
    match custom {
        Some(custom) => if replace {
            custom
        } else {
            "Branched from previous path.\n"@ + custom
        },
        None => "Branched from previous path."@,
    }
}

/// The text of the summary that stands at the start of a branch.
pub fn branch_summary(custom: Option<&str>, replace: bool) -> (r: String)
    ensures
        r@ == branch_summary_text(
            match custom {
                Some(custom) => Some(custom@),
                None => None,
            },
            replace,
        ),
{
    match custom {
        Some(custom) => {
            if replace {
                custom.to_owned()
            } else {
                let mut text = "Branched from previous path.\n".to_owned();
                text.append(custom);
                text
            }
        },
        None => "Branched from previous path.".to_owned(),
    }
}

/// A summary that is to stand at the start of the branch: what it is known by,
/// and what it is to say beside, or in the place of, what it says by itself.
#[derive(Debug)]
pub struct BranchSummary {
    pub item: ItemId,
    pub custom: Option<String>,
    pub replace: bool,
}

/// What the summary says.
pub open spec fn summary_says(summary: BranchSummary) -> Seq<char> {
    branch_summary_text(opt_view(summary.custom), summary.replace)
}

/// A request to move to an entry.
#[derive(Debug)]
pub struct NavigateRequest {
    pub entry: ItemId,
    /// The entry as the client names it.
    pub shown: String,
    /// The summary, where one is wanted.
    pub summary: Option<BranchSummary>,
}

/// What a move waits for. A summary goes with it, with what it says.
#[derive(Debug)]
pub enum NavigatePhase {
    ActiveTurn,
    History,
    Rollout(NavigateTarget, u64),
    LeafWritten(NavigateTarget, u64),
    EdgeWritten(NavigateTarget, u64, ItemId, String),
    SummaryWritten(NavigateTarget, u64, ItemId, String),
    SummaryLeafWritten(NavigateTarget, u64, ItemId, String),
    TipSet { leaf: Option<ItemId>, text: Option<String>, summary: Option<(ItemId, String)> },
    Finished,
}

/// What the host observed during a move.
#[derive(Debug)]
pub enum NavigateEvent {
    TurnActive(bool),
    /// The tree and the number of the last move, or why the history cannot be
    /// read.
    History(Result<(Vec<TreeItem>, u64), Rejection>),
    RolloutFound(bool),
    Written(Option<String>),
    Done,
}

/// What the host has to do for a move.
#[derive(Debug)]
pub enum NavigateAction {
    /// Read whether a turn of the session is running.
    ReadActiveTurn,
    /// Read the tree of the session.
    ReadHistory,
    /// Find the rollout of the session.
    FindRollout,
    /// Record the end of the transcript with the number of the move.
    AppendLeaf(Option<ItemId>, u64),
    /// Record where the summary hangs.
    AppendEdge(ItemId, Option<ItemId>),
    /// Append the summary of the branch as an item that hangs there.
    AppendSummary { item: ItemId, parent: Option<ItemId>, text: String },
    /// Tell the live session where the transcript ends.
    SetTip(Option<ItemId>, u64),
    /// Answer where the session stands.
    Answer { leaf: Option<ItemId>, text: Option<String>, summary: Option<(ItemId, String)> },
    /// Refuse to move.
    Reject(Rejection),
    /// Nothing: the event does not belong to the phase.
    Ignore,
}

/// The number of the move after `epoch`, as far as the counter goes.
pub open spec fn next_epoch(epoch: u64) -> u64 {
    if epoch == u64::MAX {
        epoch
    } else {
        (epoch + 1) as u64
    }
}

/// The step that refuses a move.
pub open spec fn navigate_refused(why: Rejection) -> (NavigatePhase, NavigateAction) {
    (NavigatePhase::Finished, NavigateAction::Reject(why))
}

/// The step where a line could not be written.
pub open spec fn unwritten(text: &'static str, error: String) -> (NavigatePhase, NavigateAction) {
    navigate_refused(rejection_about(ErrorCode::InternalError, text, error))
}

/// Whether `step` is the next one of a move. It leads where the entry says, and
/// a summary says what the request makes it say.
pub open spec fn is_navigate_step(
    request: NavigateRequest,
    phase: NavigatePhase,
    event: NavigateEvent,
    step: (NavigatePhase, NavigateAction),
) -> bool {
    match (phase, event) {
        (NavigatePhase::History, NavigateEvent::History(Ok((items, epoch)))) => {
            let place = entry_place(items@, request.entry);
            if place < items@.len() {
                &&& step.0 matches NavigatePhase::Rollout(target, number) && is_target(
                    items@[place],
                    target,
                ) && number == epoch
                &&& step.1 is FindRollout
            } else {
                step == navigate_refused(
                    rejection_about(
                        ErrorCode::InvalidParams,
                        "tree entry not found: ",
                        request.shown,
                    ),
                )
            }
        },
        (NavigatePhase::LeafWritten(target, epoch), NavigateEvent::Written(None)) =>
        match request.summary {
            Some(summary) => {
                &&& step.0 matches NavigatePhase::EdgeWritten(to, number, item, text) && to
                    == target && number == epoch && item == summary.item && text@ == summary_says(
                    summary,
                )
                &&& step.1 == NavigateAction::AppendEdge(summary.item, target.leaf)
            },
            None => step == (
                NavigatePhase::TipSet { leaf: target.leaf, text: target.text, summary: None },
                NavigateAction::SetTip(target.leaf, epoch),
            ),
        },
        _ => step == navigate_step(phase, event),
    }
}

/// The next step of a move, once it is known where it leads and what its
/// summary says.
pub open spec fn navigate_step(phase: NavigatePhase, event: NavigateEvent) -> (
    NavigatePhase,
    NavigateAction,
) {
    match (phase, event) {
        (NavigatePhase::ActiveTurn, NavigateEvent::TurnActive(active)) => if active {
            navigate_refused(
                rejection(
                    ErrorCode::ActiveTurnEditRejected,
                    "cannot navigate the session tree while a turn is active",
                ),
            )
        } else {
            (NavigatePhase::History, NavigateAction::ReadHistory)
        },
        (NavigatePhase::History, NavigateEvent::History(Err(why))) => navigate_refused(why),
        (NavigatePhase::Rollout(target, epoch), NavigateEvent::RolloutFound(found)) => if found {
            (
                NavigatePhase::LeafWritten(target, next_epoch(epoch)),
                NavigateAction::AppendLeaf(target.leaf, next_epoch(epoch)),
            )
        } else {
            navigate_refused(session_missing())
        },
        (NavigatePhase::LeafWritten(_, _), NavigateEvent::Written(Some(error))) => unwritten(
            "failed to persist session leaf: ",
            error,
        ),
        (NavigatePhase::EdgeWritten(target, epoch, item, text), NavigateEvent::Written(failure)) =>
        match failure {
            Some(error) => unwritten("failed to persist tree edge: ", error),
            None => (
                NavigatePhase::SummaryWritten(target, epoch, item, text),
                NavigateAction::AppendSummary { item, parent: target.leaf, text },
            ),
        },
        (
            NavigatePhase::SummaryWritten(target, epoch, item, text),
            NavigateEvent::Written(failure),
        ) => match failure {
            Some(error) => unwritten("failed to persist branch summary: ", error),
            None => (
                NavigatePhase::SummaryLeafWritten(target, next_epoch(epoch), item, text),
                NavigateAction::AppendLeaf(Some(item), next_epoch(epoch)),
            ),
        },
        (
            NavigatePhase::SummaryLeafWritten(target, epoch, item, text),
            NavigateEvent::Written(failure),
        ) => match failure {
            Some(error) => unwritten("failed to persist leaf after summary: ", error),
            None => (
                NavigatePhase::TipSet {
                    leaf: Some(item),
                    text: target.text,
                    summary: Some((item, text)),
                },
                NavigateAction::SetTip(Some(item), epoch),
            ),
        },
        (NavigatePhase::TipSet { leaf, text, summary }, NavigateEvent::Done) => (
            NavigatePhase::Finished,
            NavigateAction::Answer { leaf, text, summary },
        ),
        _ => (phase, NavigateAction::Ignore),
    }
}

fn count_on(epoch: u64) -> (r: u64)
    ensures
        r == next_epoch(epoch),
{
    if epoch == u64::MAX {
        epoch
    } else {
        epoch + 1
    }
}

fn stop(why: Rejection) -> (r: (NavigatePhase, NavigateAction))
    ensures
        r == navigate_refused(why),
{
    (NavigatePhase::Finished, NavigateAction::Reject(why))
}

fn stop_unwritten(text: &'static str, error: String) -> (r: (NavigatePhase, NavigateAction))
    ensures
        r == unwritten(text, error),
{
    stop(reject_about(ErrorCode::InternalError, text, error))
}

/// Takes a move one step further.
pub fn advance_navigate(request: &NavigateRequest, phase: NavigatePhase, event: NavigateEvent) -> (r: (
    NavigatePhase,
    NavigateAction,
))
    ensures
        is_navigate_step(*request, phase, event, r),
{
    match (phase, event) {
        (NavigatePhase::ActiveTurn, NavigateEvent::TurnActive(active)) => {
            if active {
                stop(
                    reject(
                        ErrorCode::ActiveTurnEditRejected,
                        "cannot navigate the session tree while a turn is active",
                    ),
                )
            } else {
                (NavigatePhase::History, NavigateAction::ReadHistory)
            }
        },
        (NavigatePhase::History, NavigateEvent::History(read)) => match read {
            Err(why) => stop(why),
            Ok((items, epoch)) => match resolve_target(&items, request.entry) {
                Some(target) => (
                    NavigatePhase::Rollout(target, epoch),
                    NavigateAction::FindRollout,
                ),
                None => stop(
                    reject_about(
                        ErrorCode::InvalidParams,
                        "tree entry not found: ",
                        request.shown.clone(),
                    ),
                ),
            },
        },
        (NavigatePhase::Rollout(target, epoch), NavigateEvent::RolloutFound(found)) => {
            if found {
                let leaf = target.leaf;
                let epoch = count_on(epoch);
                (
                    NavigatePhase::LeafWritten(target, epoch),
                    NavigateAction::AppendLeaf(leaf, epoch),
                )
            } else {
                stop(reject_session_missing())
            }
        },
        (NavigatePhase::LeafWritten(target, epoch), NavigateEvent::Written(failure)) => match failure {
            Some(error) => stop_unwritten("failed to persist session leaf: ", error),
            None => match &request.summary {
                Some(summary) => {
                    let leaf = target.leaf;
                    let custom = match &summary.custom {
                        Some(custom) => Some(custom.as_str()),
                        None => None,
                    };
                    let text = branch_summary(custom, summary.replace);
                    (
                        NavigatePhase::EdgeWritten(target, epoch, summary.item, text),
                        NavigateAction::AppendEdge(summary.item, leaf),
                    )
                },
                None => (
                    NavigatePhase::TipSet { leaf: target.leaf, text: target.text, summary: None },
                    NavigateAction::SetTip(target.leaf, epoch),
                ),
            },
        },
        (NavigatePhase::EdgeWritten(target, epoch, item, text), NavigateEvent::Written(failure)) => {
            match failure {
                Some(error) => stop_unwritten("failed to persist tree edge: ", error),
                None => {
                    let parent = target.leaf;
                    let said = text.clone();
                    (
                        NavigatePhase::SummaryWritten(target, epoch, item, text),
                        NavigateAction::AppendSummary { item, parent, text: said },
                    )
                },
            }
        },
        (
            NavigatePhase::SummaryWritten(target, epoch, item, text),
            NavigateEvent::Written(failure),
        ) => match failure {
            Some(error) => stop_unwritten("failed to persist branch summary: ", error),
            None => {
                let epoch = count_on(epoch);
                (
                    NavigatePhase::SummaryLeafWritten(target, epoch, item, text),
                    NavigateAction::AppendLeaf(Some(item), epoch),
                )
            },
        },
        (
            NavigatePhase::SummaryLeafWritten(target, epoch, item, text),
            NavigateEvent::Written(failure),
        ) => match failure {
            Some(error) => stop_unwritten("failed to persist leaf after summary: ", error),
            None => (
                NavigatePhase::TipSet {
                    leaf: Some(item),
                    text: target.text,
                    summary: Some((item, text)),
                },
                NavigateAction::SetTip(Some(item), epoch),
            ),
        },
        (NavigatePhase::TipSet { leaf, text, summary }, NavigateEvent::Done) => (
            NavigatePhase::Finished,
            NavigateAction::Answer { leaf, text, summary },
        ),
        (phase, _) => (phase, NavigateAction::Ignore),
    }
}

/// The number of the move that a phase goes by, where it has one.
pub open spec fn epoch_of(phase: NavigatePhase) -> Option<u64> {
    match phase {
        NavigatePhase::Rollout(_, epoch)
        | NavigatePhase::LeafWritten(_, epoch)
        | NavigatePhase::EdgeWritten(_, epoch, _, _)
        | NavigatePhase::SummaryWritten(_, epoch, _, _)
        | NavigatePhase::SummaryLeafWritten(_, epoch, _, _) => Some(epoch),
        _ => None,
    }
}

/// Every end that is recorded has a higher number than the one before, as far
/// as the counter goes, and the live session learns the last one recorded.
pub proof fn law_moves_are_numbered(
    request: NavigateRequest,
    phase: NavigatePhase,
    event: NavigateEvent,
    step: (NavigatePhase, NavigateAction),
)
    requires
        is_navigate_step(request, phase, event, step),
    ensures
        match step.1 {
            NavigateAction::AppendLeaf(_, epoch) => {
                &&& epoch_of(phase) is Some
                &&& epoch_of(phase)->0 < u64::MAX ==> epoch > epoch_of(phase)->0
                &&& epoch_of(step.0) == Some(epoch)
            },
            NavigateAction::SetTip(_, epoch) => epoch_of(phase) == Some(epoch),
            _ => true,
        },
{
}

/// The summary that is appended and answered says what the request makes it
/// say, and the session ends with it.
pub proof fn law_branches_start_with_their_summary(
    request: NavigateRequest,
    target: NavigateTarget,
    epoch: u64,
    first: (NavigatePhase, NavigateAction),
    second: (NavigatePhase, NavigateAction),
)
    requires
        request.summary is Some,
        is_navigate_step(
            request,
            NavigatePhase::LeafWritten(target, epoch),
            NavigateEvent::Written(None),
            first,
        ),
        is_navigate_step(request, first.0, NavigateEvent::Written(None), second),
    ensures
        second.1 matches NavigateAction::AppendSummary { item, parent, text } && {
            &&& item == request.summary->0.item
            &&& parent == target.leaf
            &&& text@ == summary_says(request.summary->0)
            &&& second.0 == NavigatePhase::SummaryWritten(target, epoch, item, text)
        },
{
}

proof fn lemma_place_of_entry(items: Seq<TreeItem>, i: int)
    requires
        0 <= i < items.len(),
        forall|j: int| 0 <= j < i ==> (#[trigger] items[j]).id != items[i].id,
    ensures
        entry_place(items, items[i].id) == i,
    decreases items.len(),
{
    if i > 0 {
        let rest = items.skip(1);
        assert(items[0].id != items[i].id);
        assert(rest[i - 1] == items[i]);
        assert forall|j: int| 0 <= j < i - 1 implies (#[trigger] rest[j]).id != rest[i - 1].id by {
            assert(rest[j] == items[j + 1]);
        }
        lemma_place_of_entry(rest, i - 1);
    }
}

proof fn lemma_absent_entry(items: Seq<TreeItem>, entry: ItemId)
    requires
        forall|j: int| 0 <= j < items.len() ==> (#[trigger] items[j]).id != entry,
    ensures
        entry_place(items, entry) == items.len(),
    decreases items.len(),
{
    if items.len() > 0 {
        let rest = items.skip(1);
        assert(items[0].id != entry);
        assert forall|j: int| 0 <= j < rest.len() implies (#[trigger] rest[j]).id != entry by {
            assert(rest[j] == items[j + 1]);
        }
        lemma_absent_entry(rest, entry);
    }
}

/// To move to a message of the user is to go to what came before it, with its
/// text to be sent again; to move to any other entry is to go to that entry.
/// There is no moving to an entry that is not there.
pub proof fn law_moves_lead_to_the_entry(
    request: NavigateRequest,
    items: Vec<TreeItem>,
    epoch: u64,
    i: int,
    step: (NavigatePhase, NavigateAction),
)
    requires
        is_navigate_step(
            request,
            NavigatePhase::History,
            NavigateEvent::History(Ok((items, epoch))),
            step,
        ),
        0 <= i <= items@.len(),
        forall|j: int| 0 <= j < i ==> (#[trigger] items@[j]).id != request.entry,
        i < items@.len() ==> items@[i].id == request.entry,
    ensures
        i < items@.len() ==> step.1 is FindRollout && (step.0 matches NavigatePhase::Rollout(
            target,
            number,
        ) && {
            &&& number == epoch
            &&& items@[i].message matches Some(content) ==> target.leaf == items@[i].parent && (
            target.text matches Some(text) && text@ == joined(part_texts(content@), "\n"@))
            &&& items@[i].message is None ==> target.leaf == Some(request.entry) && target.text
                is None
        }),
        i == items@.len() ==> (step.1 matches NavigateAction::Reject(why) && why.code
            is InvalidParams && why.detail == Some(request.shown)),
{
    if i < items@.len() {
        lemma_place_of_entry(items@, i);
    } else {
        lemma_absent_entry(items@, request.entry);
    }
}

/// A move is written down as the new leaf under the next number, and becomes the
/// tip; the client gets the leaf and the text.
pub proof fn law_moves_become_the_tip(
    request: NavigateRequest,
    target: NavigateTarget,
    epoch: u64,
    a: (NavigatePhase, NavigateAction),
    b: (NavigatePhase, NavigateAction),
    c: (NavigatePhase, NavigateAction),
)
    requires
        epoch < u64::MAX,
        request.summary is None,
        is_navigate_step(
            request,
            NavigatePhase::Rollout(target, epoch),
            NavigateEvent::RolloutFound(true),
            a,
        ),
        is_navigate_step(request, a.0, NavigateEvent::Written(None), b),
        is_navigate_step(request, b.0, NavigateEvent::Done, c),
    ensures
        a.1 matches NavigateAction::AppendLeaf(leaf, number) && leaf == target.leaf && number
            == epoch + 1,
        b.1 matches NavigateAction::SetTip(leaf, number) && leaf == target.leaf && number == epoch
            + 1,
        c.1 == (NavigateAction::Answer { leaf: target.leaf, text: target.text, summary: None }),
{
}

/// A move with a summary hangs the summary below the leaf and makes it the tip.
pub proof fn law_summaries_become_the_tip(
    request: NavigateRequest,
    target: NavigateTarget,
    summary: BranchSummary,
    epoch: u64,
    b: (NavigatePhase, NavigateAction),
    c: (NavigatePhase, NavigateAction),
    d: (NavigatePhase, NavigateAction),
    e: (NavigatePhase, NavigateAction),
    f: (NavigatePhase, NavigateAction),
)
    requires
        epoch < u64::MAX,
        request.summary == Some(summary),
        is_navigate_step(
            request,
            NavigatePhase::LeafWritten(target, epoch),
            NavigateEvent::Written(None),
            b,
        ),
        is_navigate_step(request, b.0, NavigateEvent::Written(None), c),
        is_navigate_step(request, c.0, NavigateEvent::Written(None), d),
        is_navigate_step(request, d.0, NavigateEvent::Written(None), e),
        is_navigate_step(request, e.0, NavigateEvent::Done, f),
    ensures
        b.1 == NavigateAction::AppendEdge(summary.item, target.leaf),
        c.1 matches NavigateAction::AppendSummary { item, parent, text } && item == summary.item
            && parent == target.leaf && {
            &&& summary.custom is None ==> text@ == "Branched from previous path."@
            &&& summary.custom is Some && summary.replace ==> text@ == summary.custom->0@
            &&& summary.custom is Some && !summary.replace ==> text@
                == "Branched from previous path.\n"@ + summary.custom->0@
        },
        d.1 matches NavigateAction::AppendLeaf(leaf, number) && leaf == Some(summary.item) && number
            == epoch + 1,
        e.1 matches NavigateAction::SetTip(leaf, number) && leaf == Some(summary.item) && number
            == epoch + 1,
        f.1 matches NavigateAction::Answer { leaf, text, summary: told } && leaf == Some(
            summary.item,
        ) && text == target.text && (told matches Some((item, _)) && item == summary.item),
{
}

/// A move that cannot be made is answered with the reason.
pub proof fn law_unmade_moves_say_why(
    target: NavigateTarget,
    epoch: u64,
    item: ItemId,
    text: String,
    why: Rejection,
    error: String,
)
    ensures
        navigate_step(NavigatePhase::ActiveTurn, NavigateEvent::TurnActive(true)).1 matches
            NavigateAction::Reject(told) && told.code is ActiveTurnEditRejected,
        navigate_step(NavigatePhase::ActiveTurn, NavigateEvent::TurnActive(false)).1 is ReadHistory,
        navigate_step(NavigatePhase::History, NavigateEvent::History(Err(why))).1
            == NavigateAction::Reject(why),
        navigate_step(
            NavigatePhase::Rollout(target, epoch),
            NavigateEvent::RolloutFound(false),
        ).1 matches NavigateAction::Reject(told) && told.code is SessionNotFound,
        navigate_step(
            NavigatePhase::LeafWritten(target, epoch),
            NavigateEvent::Written(Some(error)),
        ).1 matches NavigateAction::Reject(told) && told.code is InternalError && told.detail
            == Some(error),
        navigate_step(
            NavigatePhase::EdgeWritten(target, epoch, item, text),
            NavigateEvent::Written(Some(error)),
        ).1 matches NavigateAction::Reject(told) && told.code is InternalError && told.detail
            == Some(error),
        navigate_step(
            NavigatePhase::SummaryWritten(target, epoch, item, text),
            NavigateEvent::Written(Some(error)),
        ).1 matches NavigateAction::Reject(told) && told.code is InternalError && told.detail
            == Some(error),
        navigate_step(
            NavigatePhase::SummaryLeafWritten(target, epoch, item, text),
            NavigateEvent::Written(Some(error)),
        ).1 matches NavigateAction::Reject(told) && told.code is InternalError && told.detail
            == Some(error),
{
}

} // verus!
