//! Editing the most recent user message of a session.
//!
//! An edit supersedes the turn that the message started: it is checked
//! against the session, recorded durably, and only then does the session's
//! state change and the replacement turn start.

use crate::goal::Goal;
use crate::inputs::{prompts_of, same_resolution, ResolvedInput, UserInput};
use crate::protocol::{
    reject, reject_about, reject_session_missing, rejection, rejection_about, session_missing,
    ErrorCode, ItemId, Rejection, TurnId,
};
use crate::queue::copy_inputs;
use crate::rollback::FileOutcome;
use crate::session_metadata::CollaborationMode;
use crate::session_state::{ActiveTurn, SessionState};
use crate::sessions::SessionStatus;
use crate::text::{copy_text, copy_texts};
use crate::turn_model::{
    own_selection, select_for_session, ModelChoice, TurnModel, TurnSelection,
};
use crate::workspace_restore::{all_handled, restore_succeeded};
use vstd::prelude::*;

verus! {

/// What an edit is asked to do.
#[derive(Clone, Copy, Debug, PartialEq, Eq, Structural)]
pub enum EditMode {
    Normal,
    QueuedOnly,
}

/// What the client wants done with the files that the superseded turn wrote.
#[derive(Clone, Copy, Debug, PartialEq, Eq, Structural)]
pub enum RestorePolicy {
    Safe,
    Skip,
    ConfiguredRestore,
}

/// A request to edit a message.
#[derive(Debug)]
pub struct EditRequest {
    pub target: Option<ItemId>,
    pub expected_target: Option<ItemId>,
    pub mode: EditMode,
    pub restore: Option<RestorePolicy>,
    /// What the message is to contain.
    pub content: Vec<UserInput>,
    /// The new content as it is shown.
    pub display: String,
    /// The key under which the client knows the edit.
    pub client: Option<String>,
}

impl EditRequest {
    /// The message that the client believes it is editing.
    pub open spec fn expected(self) -> Option<ItemId> {
        if self.expected_target is Some {
            self.expected_target
        } else {
            self.target
        }
    }

    /// The restore policy in force: `Safe` unless the client chose one.
    pub open spec fn policy(self) -> RestorePolicy {
        match self.restore {
            Some(policy) => policy,
            None => RestorePolicy::Safe,
        }
    }

    fn expected_target_id(&self) -> (r: Option<ItemId>)
        ensures
            r == self.expected(),
    {
        if self.expected_target.is_some() {
            self.expected_target
        } else {
            self.target
        }
    }

    fn restore_policy(&self) -> (r: RestorePolicy)
        ensures
            r == self.policy(),
    {
        match self.restore {
            Some(policy) => policy,
            None => RestorePolicy::Safe,
        }
    }
}

/// One item of the canonical history, as far as an edit reads it.
#[derive(Clone, Copy, Debug, PartialEq, Eq, Structural)]
pub struct HistoryItem {
    pub id: ItemId,
    pub seq: u64,
    pub revision: u32,
    pub user_message: bool,
    pub tree_visible: bool,
}

/// One item that a live session keeps of its turns.
#[derive(Clone, Copy, Debug, PartialEq, Eq, Structural)]
pub struct SessionItem {
    pub turn: TurnId,
    pub item: ItemId,
    pub user_message: bool,
}

/// Whether `items` holds a user message at `i` with none behind it.
pub open spec fn is_last_user_message(items: Seq<SessionItem>, i: int) -> bool {
    &&& 0 <= i < items.len()
    &&& items[i].user_message
    &&& forall|j: int| i < j < items.len() ==> !#[trigger] items[j].user_message
}

/// The user message that an edit may replace: the last one of the session.
pub open spec fn editable_message(items: Seq<SessionItem>) -> Option<SessionItem> {
    if exists|i: int| is_last_user_message(items, i) {
        Some(items[choose|i: int| is_last_user_message(items, i)])
    } else {
        None
    }
}

/// Finds the user message that an edit may replace.
pub fn find_editable_message(items: &Vec<SessionItem>) -> (r: Option<SessionItem>)
    ensures
        r == editable_message(items@),
        r is None <==> forall|j: int| 0 <= j < items@.len() ==> !#[trigger] items@[j].user_message,
{
    let mut i: usize = items.len();
    while i > 0
        invariant
            i <= items.len(),
            forall|j: int| i <= j < items@.len() ==> !#[trigger] items@[j].user_message,
        decreases i,
    {
        i = i - 1;
        if items[i].user_message {
            proof {
                assert(is_last_user_message(items@, i as int));
                let k = choose|k: int| is_last_user_message(items@, k);
                assert(is_last_user_message(items@, k));
                assert(k == i) by {
                    if k < i {
                        assert(!items@[i as int].user_message);
                    } else if k > i {
                        assert(!items@[k].user_message);
                    }
                }
            }
            return Some(items[i]);
        }
    }
    None
}

/// Whether the history holds a user message at `i` with none behind it.
pub open spec fn is_latest_user_message(items: Seq<HistoryItem>, i: int) -> bool {
    &&& 0 <= i < items.len()
    &&& items[i].user_message
    &&& forall|j: int| i < j < items.len() ==> !#[trigger] items[j].user_message
}

/// The latest user message of a canonical history.
pub open spec fn latest_user_message(items: Seq<HistoryItem>) -> Option<ItemId> {
    if exists|i: int| is_latest_user_message(items, i) {
        Some(items[choose|i: int| is_latest_user_message(items, i)].id)
    } else {
        None
    }
}

/// Finds the latest user message of a canonical history.
pub fn find_latest_user_message(items: &Vec<HistoryItem>) -> (r: Option<ItemId>)
    ensures
        r == latest_user_message(items@),
        r is None <==> forall|j: int| 0 <= j < items@.len() ==> !#[trigger] items@[j].user_message,
{
    let mut i: usize = items.len();
    while i > 0
        invariant
            i <= items.len(),
            forall|j: int| i <= j < items@.len() ==> !#[trigger] items@[j].user_message,
        decreases i,
    {
        i = i - 1;
        if items[i].user_message {
            proof {
                assert(is_latest_user_message(items@, i as int));
                let k = choose|k: int| is_latest_user_message(items@, k);
                assert(is_latest_user_message(items@, k));
                assert(k == i) by {
                    if k < i {
                        assert(!items@[i as int].user_message);
                    } else if k > i {
                        assert(!items@[k].user_message);
                    }
                }
            }
            return Some(items[i].id);
        }
    }
    None
}

/// Whether `items[i]` comes before `items[j]` in the order of the transcript:
/// by sequence number, and by position where the numbers agree.
pub open spec fn comes_before(items: Seq<HistoryItem>, i: int, j: int) -> bool {
    items[i].seq < items[j].seq || (items[i].seq == items[j].seq && i < j)
}

/// Whether `items[i]` is the first tree-visible entry with the id `id`.
pub open spec fn is_tree_entry(items: Seq<HistoryItem>, id: ItemId, i: int) -> bool {
    &&& 0 <= i < items.len()
    &&& items[i].tree_visible
    &&& items[i].id == id
    &&& forall|j: int|
        0 <= j < items.len() && #[trigger] items[j].tree_visible && items[j].id == id && j != i
            ==> comes_before(items, i, j)
}

/// Whether `items[p]` is the tree-visible entry right before `items[i]`.
pub open spec fn is_tree_predecessor(items: Seq<HistoryItem>, i: int, p: int) -> bool {
    &&& 0 <= p < items.len()
    &&& items[p].tree_visible
    &&& comes_before(items, p, i)
    &&& forall|j: int|
        0 <= j < items.len() && #[trigger] items[j].tree_visible && comes_before(items, j, i)
            && j != p ==> comes_before(items, j, p)
}

/// The tree-visible entry right before the entry `id`, if there is one.
pub open spec fn previous_visible(items: Seq<HistoryItem>, id: ItemId) -> Option<ItemId> {
    if exists|i: int, p: int| is_tree_entry(items, id, i) && is_tree_predecessor(items, i, p) {
        let (i, p) = choose|i: int, p: int|
            is_tree_entry(items, id, i) && is_tree_predecessor(items, i, p);
        Some(items[p].id)
    } else {
        None
    }
}

proof fn lemma_tree_entry_unique(items: Seq<HistoryItem>, id: ItemId, i: int, j: int)
    requires
        is_tree_entry(items, id, i),
        is_tree_entry(items, id, j),
    ensures
        i == j,
{
    if i != j {
        assert(items[i].tree_visible && items[j].tree_visible);
        assert(comes_before(items, i, j));
        assert(comes_before(items, j, i));
    }
}

proof fn lemma_tree_predecessor_unique(items: Seq<HistoryItem>, i: int, p: int, q: int)
    requires
        is_tree_predecessor(items, i, p),
        is_tree_predecessor(items, i, q),
    ensures
        p == q,
{
    if p != q {
        assert(items[p].tree_visible && items[q].tree_visible);
        assert(comes_before(items, p, q));
        assert(comes_before(items, q, p));
    }
}

/// Finds the tree-visible entry right before the entry `id`.
pub fn find_previous_visible(items: &Vec<HistoryItem>, id: ItemId) -> (r: Option<ItemId>)
    ensures
        r == previous_visible(items@, id),
{
    let mut entry: Option<usize> = None;
    let mut i: usize = 0;
    while i < items.len()
        invariant
            i <= items.len(),
            entry matches Some(e) ==> {
                &&& e < i
                &&& items@[e as int].tree_visible
                &&& items@[e as int].id == id
                &&& forall|j: int|
                    0 <= j < i && #[trigger] items@[j].tree_visible && items@[j].id == id && j != e
                        ==> comes_before(items@, e as int, j)
            },
            entry is None ==> forall|j: int|
                0 <= j < i && #[trigger] items@[j].tree_visible ==> items@[j].id != id,
        decreases items.len() - i,
    {
        if items[i].tree_visible && items[i].id == id {
            match entry {
                Some(e) => {
                    if items[i].seq < items[e].seq {
                        entry = Some(i);
                    }
                },
                None => {
                    entry = Some(i);
                },
            }
        }
        i = i + 1;
    }
    let entry_at: usize = match entry {
        Some(e) => e,
        None => {
            assert(forall|k: int| !is_tree_entry(items@, id, k));
            return None;
        },
    };
    assert(is_tree_entry(items@, id, entry_at as int));
    let mut previous: Option<usize> = None;
    let mut i: usize = 0;
    while i < items.len()
        invariant
            i <= items.len(),
            entry_at < items.len(),
            previous matches Some(p) ==> {
                &&& p < i
                &&& items@[p as int].tree_visible
                &&& comes_before(items@, p as int, entry_at as int)
                &&& forall|j: int|
                    0 <= j < i && #[trigger] items@[j].tree_visible
                        && comes_before(items@, j, entry_at as int) && j != p
                        ==> comes_before(items@, j, p as int)
            },
            previous is None ==> forall|j: int|
                0 <= j < i && #[trigger] items@[j].tree_visible ==> !comes_before(
                    items@,
                    j,
                    entry_at as int,
                ),
        decreases items.len() - i,
    {
        let before = items[i].seq < items[entry_at].seq || (items[i].seq == items[entry_at].seq
            && i < entry_at);
        if items[i].tree_visible && before {
            match previous {
                Some(p) => {
                    if items[p].seq <= items[i].seq {
                        previous = Some(i);
                    }
                },
                None => {
                    previous = Some(i);
                },
            }
        }
        i = i + 1;
    }
    match previous {
        Some(p) => {
            proof {
                assert(is_tree_predecessor(items@, entry_at as int, p as int));
                let (k, q) = choose|k: int, q: int|
                    is_tree_entry(items@, id, k) && is_tree_predecessor(items@, k, q);
                lemma_tree_entry_unique(items@, id, entry_at as int, k);
                lemma_tree_predecessor_unique(items@, k, p as int, q);
            }
            Some(items[p].id)
        },
        None => {
            proof {
                assert forall|k: int, q: int| is_tree_entry(items@, id, k) implies
                    !is_tree_predecessor(items@, k, q) by {
                    lemma_tree_entry_unique(items@, id, entry_at as int, k);
                }
            }
            None
        },
    }
}

/// Where the replacement of the message `target` branches off: at the parent
/// recorded for it, or else behind the entry right before it.
pub open spec fn branch_parent(
    recorded: Option<ItemId>,
    items: Seq<HistoryItem>,
    target: ItemId,
) -> Option<ItemId> {
    if recorded is Some {
        recorded
    } else {
        previous_visible(items, target)
    }
}

/// Finds where the replacement of the message `target` branches off.
pub fn find_branch_parent(
    recorded: Option<ItemId>,
    items: &Vec<HistoryItem>,
    target: ItemId,
) -> (r: Option<ItemId>)
    ensures
        r == branch_parent(recorded, items@, target),
{
    if recorded.is_some() {
        recorded
    } else {
        find_previous_visible(items, target)
    }
}

/// The items of an edited session: those of the superseded turn are gone and
/// the replacement message stands at the end.
pub open spec fn superseding_items(
    items: Seq<SessionItem>,
    superseded: TurnId,
    replacement: SessionItem,
) -> Seq<SessionItem> {
    items.filter(|item: SessionItem| item.turn != superseded).push(replacement)
}

/// How many user messages `items` holds.
pub open spec fn user_message_count(items: Seq<SessionItem>) -> nat {
    items.filter(|item: SessionItem| item.user_message).len()
}

/// Drops the items of the superseded turn and appends the replacement.
pub fn supersede_items(
    items: &Vec<SessionItem>,
    superseded: TurnId,
    replacement: SessionItem,
) -> (r: Vec<SessionItem>)
    ensures
        r@ == superseding_items(items@, superseded, replacement),
{
    let ghost keep = |item: SessionItem| item.turn != superseded;
    let mut kept: Vec<SessionItem> = Vec::new();
    let mut i: usize = 0;
    assert(items@.take(0).filter(keep) =~= Seq::empty());
    while i < items.len()
        invariant
            i <= items.len(),
            keep == (|item: SessionItem| item.turn != superseded),
            kept@ == items@.take(i as int).filter(keep),
        decreases items.len() - i,
    {
        proof {
            assert(items@.take(i + 1) =~= items@.take(i as int).push(items@[i as int]));
            items@.take(i as int).lemma_filter_push(items@[i as int], keep);
        }
        if items[i].turn != superseded {
            kept.push(items[i]);
        }
        i = i + 1;
    }
    assert(items@.take(items@.len() as int) =~= items@);
    kept.push(replacement);
    kept
}

/// Counts the user messages of `items`.
pub fn count_user_messages(items: &Vec<SessionItem>) -> (r: usize)
    ensures
        r == user_message_count(items@),
{
    let ghost is_user = |item: SessionItem| item.user_message;
    let mut count: usize = 0;
    let mut i: usize = 0;
    assert(items@.take(0).filter(is_user) =~= Seq::empty());
    while i < items.len()
        invariant
            i <= items.len(),
            count <= i,
            is_user == (|item: SessionItem| item.user_message),
            count == items@.take(i as int).filter(is_user).len(),
        decreases items.len() - i,
    {
        proof {
            assert(items@.take(i + 1) =~= items@.take(i as int).push(items@[i as int]));
            items@.take(i as int).lemma_filter_push(items@[i as int], is_user);
        }
        if items[i].user_message {
            count = count + 1;
        }
        i = i + 1;
    }
    assert(items@.take(items@.len() as int) =~= items@);
    count
}

/// What a host found out about the new content of a message.
#[derive(Debug)]
pub enum EditContent {
    Invalid(String),
    Empty,
    Ready,
}

/// Why the skills named in an input could not be resolved.
#[derive(Clone, Copy, Debug, PartialEq, Eq, Structural)]
pub enum SkillFailure {
    NotFound,
    Ambiguous,
    Disabled,
    ParseFailed,
    RootUnavailable,
    DuplicateId,
}

impl SkillFailure {
    /// A skill that the client named wrongly is the client's fault; one that
    /// cannot be read is the server's.
    pub open spec fn code(self) -> ErrorCode {
        match self {
            SkillFailure::NotFound | SkillFailure::Ambiguous | SkillFailure::Disabled =>
                ErrorCode::InvalidParams,
            _ => ErrorCode::InternalError,
        }
    }

    /// The error code that answers the failure.
    pub fn error_code(self) -> (r: ErrorCode)
        ensures
            r == self.code(),
    {
        match self {
            SkillFailure::NotFound | SkillFailure::Ambiguous | SkillFailure::Disabled =>
                ErrorCode::InvalidParams,
            SkillFailure::ParseFailed
            | SkillFailure::RootUnavailable
            | SkillFailure::DuplicateId => ErrorCode::InternalError,
        }
    }
}

/// What came of resolving an input against the workspace.
#[derive(Debug)]
pub enum InputResolution {
    Failed(SkillFailure, String),
    Empty,
    Ready(ResolvedInput),
}

/// A live session as far as an edit reads it.
#[derive(Debug)]
pub struct SessionExport {
    pub turn_active: bool,
    pub items: Vec<SessionItem>,
    pub durable: bool,
    pub latest_sequence: Option<u32>,
    /// The model and the effort of the session.
    pub choice: ModelChoice,
    pub mode: CollaborationMode,
}

/// The message to replace and the turn that falls with it.
#[derive(Clone, Copy, Debug, PartialEq, Eq, Structural)]
pub struct EditTarget {
    pub item: ItemId,
    pub turn: TurnId,
    /// The sequence number of the replacement turn.
    pub sequence: u64,
    pub policy: RestorePolicy,
}

/// The identifiers that an edit's durable records carry.
#[derive(Clone, Copy, Debug, PartialEq, Eq, Structural)]
pub struct EditIds {
    pub edit: u128,
    pub replacement_turn: TurnId,
    pub replacement_item: ItemId,
}

/// What creating the pair of edit records gave.
#[derive(Clone, Copy, Debug, PartialEq, Eq, Structural)]
pub enum EditRecords {
    WrongCount,
    WrongKinds,
    Pair(EditIds),
}

/// An edit that passed every check.
#[derive(Clone, Copy, Debug, PartialEq, Eq, Structural)]
pub struct EditPlan {
    pub target: EditTarget,
    pub ids: EditIds,
    /// The workspace restore that goes with the edit.
    pub restore: Option<u128>,
    /// Whether that restore left no file behind.
    pub restored: bool,
}

/// Where the replacement message enters the transcript tree.
#[derive(Clone, Copy, Debug, PartialEq, Eq, Structural)]
pub struct Placement {
    pub parent: Option<ItemId>,
    pub leaf_epoch: u64,
}

/// What an edit goes on with once its checks are passed: what the new content
/// comes to, and the mode and the model of the replacement turn.
#[derive(Debug)]
pub struct EditWork {
    pub input: ResolvedInput,
    pub mode: CollaborationMode,
    pub model: TurnModel,
}

/// How a user message entered the session.
#[derive(Clone, Copy, Debug, PartialEq, Eq, Structural)]
pub enum MessageEntry {
    TurnStart,
    Queue,
}

/// What the replacement message contains: the content that was sent, as it is
/// shown, and the files of its images.
#[derive(Debug)]
pub struct EditedContent {
    pub input: Vec<UserInput>,
    pub text: String,
    pub images: Vec<String>,
    pub entry: MessageEntry,
}

/// Whether the message contains what the request says.
pub open spec fn holds_content(
    request: EditRequest,
    work: EditWork,
    message: EditedContent,
) -> bool {
    &&& message.input@ == request.content@
    &&& message.text == request.display
    &&& message.images@ == work.input.images@
    &&& message.entry is TurnStart
}

/// The goal that the replacement turn is run under: that of the session, or
/// one that is complete already, has no budget and has used nothing.
#[derive(Debug)]
pub enum ReplacementGoal {
    Current(Goal),
    StandIn { objective: &'static str, at: i64 },
}

/// The goal that the replacement turn is run under.
pub open spec fn goal_for(goal: Option<Goal>, now: i64) -> ReplacementGoal {
    match goal {
        Some(goal) => ReplacementGoal::Current(goal),
        None => ReplacementGoal::StandIn { objective: "message edit replacement", at: now },
    }
}

/// What the replacement turn is run with.
#[derive(Debug)]
pub struct EditedTurn {
    pub input: Vec<UserInput>,
    pub display: String,
    pub resolved: ResolvedInput,
    pub mode: CollaborationMode,
    pub model: TurnModel,
    pub goal: ReplacementGoal,
}

/// Whether the turn is run with what the request says.
pub open spec fn runs_content(
    request: EditRequest,
    work: EditWork,
    goal: ReplacementGoal,
    turn: EditedTurn,
) -> bool {
    &&& turn.input@ == request.content@
    &&& turn.display == request.display
    &&& same_resolution(turn.resolved, work.input)
    &&& turn.mode == work.mode
    &&& turn.model == work.model
    &&& turn.goal == goal
}

/// A session after an edit, with the messages that its conversation goes on
/// with.
#[derive(Debug)]
pub struct EditedState {
    pub session: SessionState,
    pub prompts: Vec<String>,
}

/// One durable record of an edit. `M` is the replacement message; it is `()`
/// where only the order of the steps matters.
#[derive(Debug)]
pub enum EditRecord<M = EditedContent> {
    /// The message is edited: its new text, and who asked for it.
    MessageEdit {
        edit: u128,
        target: ItemId,
        replacement: ItemId,
        text: String,
        client: Option<String>,
    },
    TurnSuperseded { turn: TurnId, successor: TurnId, restore_plan: Option<u128> },
    RestoreStarted { restore: u128 },
    RestoreCompleted { restore: u128, outcomes: Vec<FileOutcome> },
    ReplacementTurn { turn: TurnId, sequence: u64, model: TurnModel },
    TreeEdge { item: ItemId, parent: Option<ItemId> },
    SessionLeaf { leaf: ItemId, epoch: u64 },
    ReplacementItem { item: ItemId, seq: u64, parent: Option<ItemId>, message: M },
}

/// A record without the replacement message.
pub type RecordOrder = EditRecord<()>;

impl EditRecord {
    /// The record without the replacement message.
    pub open spec fn order(self) -> RecordOrder {
        match self {
            EditRecord::MessageEdit { edit, target, replacement, text, client } => {
                EditRecord::MessageEdit { edit, target, replacement, text, client }
            },
            EditRecord::TurnSuperseded { turn, successor, restore_plan } => {
                EditRecord::TurnSuperseded { turn, successor, restore_plan }
            },
            EditRecord::RestoreStarted { restore } => EditRecord::RestoreStarted { restore },
            EditRecord::RestoreCompleted { restore, outcomes } => EditRecord::RestoreCompleted {
                restore,
                outcomes,
            },
            EditRecord::ReplacementTurn { turn, sequence, model } => EditRecord::ReplacementTurn {
                turn,
                sequence,
                model,
            },
            EditRecord::TreeEdge { item, parent } => EditRecord::TreeEdge { item, parent },
            EditRecord::SessionLeaf { leaf, epoch } => EditRecord::SessionLeaf { leaf, epoch },
            EditRecord::ReplacementItem { item, seq, parent, .. } => EditRecord::ReplacementItem {
                item,
                seq,
                parent,
                message: (),
            },
        }
    }
}

/// One notification about an edit. `M` is the replacement message; it is `()`
/// where only the order of the steps matters.
#[derive(Debug)]
pub enum EditNotice<M = EditedContent> {
    EditRecorded { edit: u128, target: ItemId, replacement: ItemId, preview: String },
    TurnSuperseded { turn: TurnId, successor: TurnId },
    RestoreStarted { edit: u128 },
    RestoreCompleted { edit: u128, succeeded: bool },
    StatusChanged,
    TurnStarted { turn: TurnId },
    ItemStarted { item: ItemId, message: M },
    ItemCompleted { item: ItemId, message: M },
}

/// A notification without the replacement message.
pub type NoticeOrder = EditNotice<()>;

impl EditNotice {
    /// The notification without the replacement message.
    pub open spec fn order(self) -> NoticeOrder {
        match self {
            EditNotice::EditRecorded { edit, target, replacement, preview } => {
                EditNotice::EditRecorded { edit, target, replacement, preview }
            },
            EditNotice::TurnSuperseded { turn, successor } => EditNotice::TurnSuperseded {
                turn,
                successor,
            },
            EditNotice::RestoreStarted { edit } => EditNotice::RestoreStarted { edit },
            EditNotice::RestoreCompleted { edit, succeeded } => EditNotice::RestoreCompleted {
                edit,
                succeeded,
            },
            EditNotice::StatusChanged => EditNotice::StatusChanged,
            EditNotice::TurnStarted { turn } => EditNotice::TurnStarted { turn },
            EditNotice::ItemStarted { item, .. } => EditNotice::ItemStarted { item, message: () },
            EditNotice::ItemCompleted { item, .. } => EditNotice::ItemCompleted {
                item,
                message: (),
            },
        }
    }

    /// The replacement message, where the notification shows it.
    pub open spec fn message(self) -> Option<EditedContent> {
        match self {
            EditNotice::ItemStarted { message, .. } => Some(message),
            EditNotice::ItemCompleted { message, .. } => Some(message),
            _ => None,
        }
    }
}

/// What the edit waits for. What the new content comes to goes with it as soon
/// as it is known.
#[derive(Debug)]
pub enum EditPhase {
    Content,
    Session,
    ActiveTurn,
    TargetHistory { turn: TurnId, expected: ItemId },
    Interruption,
    Termination,
    Lock,
    StillActive,
    HookContext,
    Resolution,
    PromptHook(ResolvedInput),
    Mentions(ResolvedInput),
    Export(ResolvedInput),
    Model(EditTarget, ResolvedInput, CollaborationMode),
    Records(EditTarget, EditWork),
    RestorePlan(EditTarget, EditIds, EditWork),
    MessageEditWritten(EditPlan, EditWork),
    SupersededWritten(EditPlan, EditWork),
    RestoreStartWritten(EditPlan, EditWork),
    Restoration(EditPlan, EditWork),
    RestoreEndWritten(EditPlan, EditWork),
    TurnWritten(EditPlan, EditWork),
    Sequence(EditPlan, EditWork),
    TreePosition(EditPlan, u64, EditWork),
    EdgeWritten(EditPlan, u64, Placement, EditWork),
    LeafWritten(EditPlan, u64, Placement, EditWork),
    ItemWritten(EditPlan, EditWork),
    SecondExport(EditPlan, EditWork),
    StateReplaced(EditPlan, EditWork, i64),
    Goal(EditPlan, EditWork, i64),
    Spawned(EditPlan, EditWork),
    Announced(EditPlan, u8, EditWork),
    Finished,
}

/// What the host observed.
#[derive(Debug)]
pub enum EditEvent {
    Content(EditContent),
    SessionFound(bool),
    ActiveTurn(Option<TurnId>),
    History(Vec<HistoryItem>),
    /// The history could not be loaded; the answer is already made.
    HistoryRefused(Rejection),
    Interrupted,
    /// The turn could not be interrupted; the answer is already made.
    InterruptRefused(Rejection),
    Done,
    HookContextFound(bool),
    Resolved(InputResolution),
    HookRan(Option<String>),
    MentionsDecoded(Option<String>),
    Exported(Option<SessionExport>),
    /// The model that the selection was resolved to.
    ModelResolved(TurnModel),
    RecordsCreated(EditRecords),
    /// The identifier of the planned restore, if planning gave a start record.
    RestorePlanned(Option<u128>),
    /// What became of the files, if completing gave a completion record.
    RestoreApplied(Option<Vec<FileOutcome>>),
    Written(Option<String>),
    SequenceAllocated(u64),
    TreeRead { recorded_parent: Option<ItemId>, items: Vec<HistoryItem>, leaf_epoch: u64 },
    /// The session as it is now, unless it is gone, and the time.
    SessionReexported(Option<SessionState>, i64),
    /// The goal of the session.
    Goal(Option<Goal>),
}

/// What the host has to do next. `S` is what the session becomes, `T` what the
/// replacement turn is run with, and `M` the replacement message; they are `()`
/// where only the order of the steps matters.
#[derive(Debug)]
pub enum EditAction<S = EditedState, T = EditedTurn, M = EditedContent> {
    /// Find the session.
    FindSession,
    /// Read which turn of the session is running.
    ReadActiveTurn,
    /// Read the history of the session.
    LoadHistory,
    /// Interrupt the turn and wait until it has ended.
    InterruptTurn { turn: TurnId },
    /// End the commands that the turn has left running.
    TerminateCommands,
    /// Lock the state of the session.
    LockState,
    /// Read what the hooks are told of the session.
    ReadHookContext,
    /// Resolve the content of the request in the directory of the session.
    ResolveInput,
    /// Run the hook for prompts on this text.
    RunPromptHook(String),
    /// Read the mentions of the new content.
    DecodeMentions,
    /// Read the session as it is now.
    ExportSession,
    /// Resolve the model and the effort of the replacement turn.
    ResolveModel(TurnSelection),
    /// Make the records of the edit: that of the message and that of the turn
    /// it supersedes.
    CreateRecords { target: ItemId, turn: TurnId, policy: RestorePolicy },
    /// Find the files that the superseded turn has changed.
    PlanRestore { turn: TurnId, policy: RestorePolicy },
    /// Append the record to the rollout.
    Append(EditRecord<M>),
    /// Put back the files that were found.
    ApplyRestore,
    /// Take the next number for an item.
    AllocateSequence,
    /// Read the tree of the session.
    ReadTree,
    /// Read the session again.
    ReexportSession,
    /// Put this in the place of the loaded session.
    ReplaceState(S),
    /// Read the goal of the session.
    ReadGoal,
    /// Run the turn in a task of its own, as one that goes on with a goal.
    SpawnTurn { turn: TurnId, work: T },
    /// Send the notification to the clients.
    Announce(EditNotice<M>),
    /// Answer with the identifiers and the state of the edit.
    Accept { ids: EditIds, state: &'static str },
    /// Refuse the edit.
    Reject(Rejection),
    /// The event does not belong to the phase: nothing is to be done.
    Ignore,
}

/// What the host has to do next, without what it does it with.
pub type EditOrder = EditAction<(), (), ()>;

impl EditAction {
    /// What is to be done, without what it is done with.
    pub open spec fn order(self) -> EditOrder {
        match self {
            EditAction::FindSession => EditAction::FindSession,
            EditAction::ReadActiveTurn => EditAction::ReadActiveTurn,
            EditAction::LoadHistory => EditAction::LoadHistory,
            EditAction::InterruptTurn { turn } => EditAction::InterruptTurn { turn },
            EditAction::TerminateCommands => EditAction::TerminateCommands,
            EditAction::LockState => EditAction::LockState,
            EditAction::ReadHookContext => EditAction::ReadHookContext,
            EditAction::ResolveInput => EditAction::ResolveInput,
            EditAction::RunPromptHook(text) => EditAction::RunPromptHook(text),
            EditAction::DecodeMentions => EditAction::DecodeMentions,
            EditAction::ExportSession => EditAction::ExportSession,
            EditAction::ResolveModel(selection) => EditAction::ResolveModel(selection),
            EditAction::CreateRecords { target, turn, policy } => EditAction::CreateRecords {
                target,
                turn,
                policy,
            },
            EditAction::PlanRestore { turn, policy } => EditAction::PlanRestore { turn, policy },
            EditAction::Append(record) => EditAction::Append(record.order()),
            EditAction::ApplyRestore => EditAction::ApplyRestore,
            EditAction::AllocateSequence => EditAction::AllocateSequence,
            EditAction::ReadTree => EditAction::ReadTree,
            EditAction::ReexportSession => EditAction::ReexportSession,
            EditAction::ReplaceState(_) => EditAction::ReplaceState(()),
            EditAction::ReadGoal => EditAction::ReadGoal,
            EditAction::SpawnTurn { turn, .. } => EditAction::SpawnTurn { turn, work: () },
            EditAction::Announce(notice) => EditAction::Announce(notice.order()),
            EditAction::Accept { ids, state } => EditAction::Accept { ids, state },
            EditAction::Reject(what) => EditAction::Reject(what),
            EditAction::Ignore => EditAction::Ignore,
        }
    }
}

/// A step without what it is done with.
pub open spec fn edit_order(step: (EditPhase, EditAction)) -> (EditPhase, EditOrder) {
    (step.0, step.1.order())
}

/// Whether `after` is the session `before` once the edit is made: the items of
/// the superseded turn are gone, the replacement stands at the end, its turn
/// runs, and an earlier compaction has no say any more.
pub open spec fn is_edited_session(
    plan: EditPlan,
    before: SessionState,
    now: i64,
    after: SessionState,
) -> bool {
    &&& after.items@ == superseding_items(before.items@, plan.target.turn, replacement_entry(plan))
    &&& after == SessionState {
        items: after.items,
        turn_count: (user_message_count(after.items@) - 1) as usize,
        active: Some(
            ActiveTurn { turn: plan.ids.replacement_turn, sequence: plan.target.sequence },
        ),
        compaction: None,
        status: SessionStatus::Active,
        updated_at: now,
        last_activity_at: now,
        ..before
    }
}

/// What an edit goes on with, once its checks are passed.
pub open spec fn work_in(phase: EditPhase) -> Option<EditWork> {
    match phase {
        EditPhase::Records(_, work) => Some(work),
        EditPhase::RestorePlan(_, _, work) => Some(work),
        EditPhase::MessageEditWritten(_, work) => Some(work),
        EditPhase::SupersededWritten(_, work) => Some(work),
        EditPhase::RestoreStartWritten(_, work) => Some(work),
        EditPhase::Restoration(_, work) => Some(work),
        EditPhase::RestoreEndWritten(_, work) => Some(work),
        EditPhase::TurnWritten(_, work) => Some(work),
        EditPhase::Sequence(_, work) => Some(work),
        EditPhase::TreePosition(_, _, work) => Some(work),
        EditPhase::EdgeWritten(_, _, _, work) => Some(work),
        EditPhase::LeafWritten(_, _, _, work) => Some(work),
        EditPhase::ItemWritten(_, work) => Some(work),
        EditPhase::SecondExport(_, work) => Some(work),
        EditPhase::StateReplaced(_, work, _) => Some(work),
        EditPhase::Goal(_, work, _) => Some(work),
        EditPhase::Spawned(_, work) => Some(work),
        EditPhase::Announced(_, _, work) => Some(work),
        _ => None,
    }
}

/// Whether an action holds nothing beyond its order.
pub open spec fn is_plain(action: EditAction) -> bool {
    match action {
        EditAction::ReplaceState(_) => false,
        EditAction::SpawnTurn { .. } => false,
        EditAction::Append(EditRecord::ReplacementItem { .. }) => false,
        EditAction::Announce(notice) => notice.message() is None,
        _ => true,
    }
}

/// Whether an action is done with what the edit comes to.
pub open spec fn edits_with(
    request: EditRequest,
    phase: EditPhase,
    event: EditEvent,
    action: EditAction,
) -> bool {
    match action {
        EditAction::ReplaceState(after) => match (phase, event) {
            (
                EditPhase::SecondExport(plan, work),
                EditEvent::SessionReexported(Some(before), now),
            ) => {
                &&& is_edited_session(plan, before, now, after.session)
                &&& after.prompts@ == prompts_of(work.input)
            },
            _ => false,
        },
        EditAction::SpawnTurn { work: turn, .. } => match (phase, event) {
            (EditPhase::Goal(_, work, now), EditEvent::Goal(goal)) => runs_content(
                request,
                work,
                goal_for(goal, now),
                turn,
            ),
            _ => false,
        },
        EditAction::Append(EditRecord::ReplacementItem { message, .. }) => {
            &&& work_in(phase) matches Some(work) && holds_content(request, work, message)
        },
        EditAction::Announce(notice) => match notice.message() {
            Some(message) => {
                &&& work_in(phase) matches Some(work) && holds_content(request, work, message)
            },
            None => true,
        },
        _ => true,
    }
}

/// Whether `step` is the next one of an edit.
pub open spec fn is_edit_step(
    request: EditRequest,
    phase: EditPhase,
    event: EditEvent,
    step: (EditPhase, EditAction),
) -> bool {
    &&& edit_order(step) == edit_step(request, phase, event)
    &&& edits_with(request, phase, event, step.1)
}

/// The answer while a turn is active.
pub open spec fn turn_active_rejection() -> Rejection {
    rejection(
        ErrorCode::ActiveTurnEditRejected,
        "cannot edit the previous message while a turn is active",
    )
}

/// The answer where there is no message to edit.
pub open spec fn nothing_to_edit() -> Rejection {
    rejection(
        ErrorCode::OlderMessageRequiresFork,
        "no immediately previous user message is available to edit",
    )
}

/// The answer where the client expected another message.
pub open spec fn target_mismatch() -> Rejection {
    rejection(
        ErrorCode::ExpectedTargetMessageMismatch,
        "expected target message does not match the current editable message",
    )
}

/// The answer to an edit without content.
pub open spec fn content_empty() -> Rejection {
    rejection(ErrorCode::InvalidContentParts, "session/message/edit content is empty")
}

/// What the exported session says of the edit: the target, or why it is
/// refused.
pub open spec fn edit_target(request: EditRequest, session: SessionExport) -> Result<
    EditTarget,
    Rejection,
> {
    let target = editable_message(session.items@);
    if session.turn_active {
        Err(turn_active_rejection())
    } else if target is None {
        Err(nothing_to_edit())
    } else if request.expected() is Some && request.expected()->0 != target->0.item {
        Err(target_mismatch())
    } else if !session.durable {
        Err(
            rejection(
                ErrorCode::InternalError,
                "session/message/edit requires a durable session",
            ),
        )
    } else {
        Ok(
            EditTarget {
                item: target->0.item,
                turn: target->0.turn,
                sequence: match session.latest_sequence {
                    Some(sequence) => (sequence + 1) as u64,
                    None => 1,
                },
                policy: request.policy(),
            },
        )
    }
}

/// Chooses the target of the edit, or says why it is refused.
pub fn choose_edit_target(request: &EditRequest, session: &SessionExport) -> (r: Result<
    EditTarget,
    Rejection,
>)
    ensures
        r == edit_target(*request, *session),
{
    if session.turn_active {
        return Err(
            reject(
                ErrorCode::ActiveTurnEditRejected,
                "cannot edit the previous message while a turn is active",
            ),
        );
    }
    let target = match find_editable_message(&session.items) {
        Some(target) => target,
        None => {
            return Err(
                reject(
                    ErrorCode::OlderMessageRequiresFork,
                    "no immediately previous user message is available to edit",
                ),
            );
        },
    };
    if let Some(expected) = request.expected_target_id() {
        if expected != target.item {
            return Err(
                reject(
                    ErrorCode::ExpectedTargetMessageMismatch,
                    "expected target message does not match the current editable message",
                ),
            );
        }
    }
    if !session.durable {
        return Err(
            reject(
                ErrorCode::InternalError,
                "session/message/edit requires a durable session",
            ),
        );
    }
    let sequence: u64 = match session.latest_sequence {
        Some(sequence) => sequence as u64 + 1,
        None => 1,
    };
    Ok(
        EditTarget {
            item: target.item,
            turn: target.turn,
            sequence,
            policy: request.restore_policy(),
        },
    )
}

/// The notifications about an accepted edit, in order.
pub open spec fn edit_notices(request: EditRequest, plan: EditPlan) -> Seq<NoticeOrder> {
    let recorded = seq![
        EditNotice::EditRecorded {
            edit: plan.ids.edit,
            target: plan.target.item,
            replacement: plan.ids.replacement_item,
            preview: request.display,
        },
        EditNotice::TurnSuperseded {
            turn: plan.target.turn,
            successor: plan.ids.replacement_turn,
        },
    ];
    let restored = if plan.restore is Some {
        seq![
            EditNotice::RestoreStarted { edit: plan.ids.edit },
            EditNotice::RestoreCompleted { edit: plan.ids.edit, succeeded: plan.restored },
        ]
    } else {
        seq![]
    };
    let started = seq![
        EditNotice::StatusChanged,
        EditNotice::TurnStarted { turn: plan.ids.replacement_turn },
        EditNotice::ItemStarted { item: plan.ids.replacement_item, message: () },
        EditNotice::ItemCompleted { item: plan.ids.replacement_item, message: () },
    ];
    recorded + restored + started
}

/// The replacement message.
pub fn edited_content(request: &EditRequest, work: &EditWork) -> (r: EditedContent)
    ensures
        holds_content(*request, *work, r),
{
    EditedContent {
        input: copy_inputs(&request.content),
        text: request.display.clone(),
        images: copy_texts(&work.input.images),
        entry: MessageEntry::TurnStart,
    }
}

/// The notification number `k` about an accepted edit, if there are that many.
pub fn edit_notice(request: &EditRequest, plan: &EditPlan, work: &EditWork, k: u8) -> (r: Option<
    EditNotice,
>)
    ensures
        match r {
            Some(notice) => {
                &&& k < edit_notices(*request, *plan).len()
                &&& notice.order() == edit_notices(*request, *plan)[k as int]
                &&& notice.message() matches Some(message) ==> holds_content(
                    *request,
                    *work,
                    message,
                )
            },
            None => k >= edit_notices(*request, *plan).len(),
        },
{
    if k == 0 {
        return Some(
            EditNotice::EditRecorded {
                edit: plan.ids.edit,
                target: plan.target.item,
                replacement: plan.ids.replacement_item,
                preview: request.display.clone(),
            },
        );
    }
    if k == 1 {
        return Some(
            EditNotice::TurnSuperseded {
                turn: plan.target.turn,
                successor: plan.ids.replacement_turn,
            },
        );
    }
    let started_at: u8 = if plan.restore.is_some() {
        if k == 2 {
            return Some(EditNotice::RestoreStarted { edit: plan.ids.edit });
        }
        if k == 3 {
            return Some(
                EditNotice::RestoreCompleted { edit: plan.ids.edit, succeeded: plan.restored },
            );
        }
        4
    } else {
        2
    };
    if k == started_at {
        Some(EditNotice::StatusChanged)
    } else if k == started_at + 1 {
        Some(EditNotice::TurnStarted { turn: plan.ids.replacement_turn })
    } else if k == started_at + 2 {
        Some(
            EditNotice::ItemStarted {
                item: plan.ids.replacement_item,
                message: edited_content(request, work),
            },
        )
    } else if k == started_at + 3 {
        Some(
            EditNotice::ItemCompleted {
                item: plan.ids.replacement_item,
                message: edited_content(request, work),
            },
        )
    } else {
        None
    }
}

/// The step after a refusal.
pub open spec fn refused(why: Rejection) -> (EditPhase, EditOrder) {
    (EditPhase::Finished, EditAction::Reject(why))
}

/// The step after an attempt to write a record: `next` if it is written.
pub open spec fn after_write(
    failure: Option<String>,
    code: ErrorCode,
    text: &'static str,
    next: (EditPhase, EditOrder),
) -> (EditPhase, EditOrder) {
    match failure {
        None => next,
        Some(error) => refused(rejection_about(code, text, error)),
    }
}

fn refuse(why: Rejection) -> (r: (EditPhase, EditAction))
    ensures
        edit_order(r) == refused(why),
        is_plain(r.1),
{
    (EditPhase::Finished, EditAction::Reject(why))
}

fn continue_after_write(
    failure: Option<String>,
    code: ErrorCode,
    text: &'static str,
    next: (EditPhase, EditAction),
) -> (r: (EditPhase, EditAction))
    ensures
        edit_order(r) == after_write(failure, code, text, edit_order(next)),
        is_plain(r.1) || r.1 == next.1,
{
    match failure {
        None => next,
        Some(error) => refuse(reject_about(code, text, error)),
    }
}

/// The record that opens the list of an edit's durable records.
pub open spec fn message_edit_record(request: EditRequest, plan: EditPlan) -> RecordOrder {
    EditRecord::MessageEdit {
        edit: plan.ids.edit,
        target: plan.target.item,
        replacement: plan.ids.replacement_item,
        text: request.display,
        client: request.client,
    }
}

/// The record that takes the superseded turn out of the session.
pub open spec fn superseded_record(plan: EditPlan) -> RecordOrder {
    EditRecord::TurnSuperseded {
        turn: plan.target.turn,
        successor: plan.ids.replacement_turn,
        restore_plan: plan.restore,
    }
}

/// The record that starts the replacement turn.
pub open spec fn replacement_turn_record(plan: EditPlan, work: EditWork) -> RecordOrder {
    EditRecord::ReplacementTurn {
        turn: plan.ids.replacement_turn,
        sequence: plan.target.sequence,
        model: work.model,
    }
}

/// The entry that replaces the superseded ones in the live session.
pub open spec fn replacement_entry(plan: EditPlan) -> SessionItem {
    SessionItem {
        turn: plan.ids.replacement_turn,
        item: plan.ids.replacement_item,
        user_message: true,
    }
}

/// The checks of an edit, up to the session that it is asked for.
pub open spec fn check_step(request: EditRequest, phase: EditPhase, event: EditEvent) -> (
    EditPhase,
    EditOrder,
) {
    match (phase, event) {
        (EditPhase::Content, EditEvent::Content(content)) => match content {
            EditContent::Invalid(error) => refused(
                rejection_about(
                    ErrorCode::InvalidContentParts,
                    "invalid session/message/edit content: ",
                    error,
                ),
            ),
            EditContent::Empty => refused(content_empty()),
            EditContent::Ready => (EditPhase::Session, EditAction::FindSession),
        },
        (EditPhase::Session, EditEvent::SessionFound(found)) => if found {
            (EditPhase::ActiveTurn, EditAction::ReadActiveTurn)
        } else {
            refused(session_missing())
        },
        (EditPhase::ActiveTurn, EditEvent::ActiveTurn(active)) => match (active, request.expected()) {
            (None, _) => (EditPhase::Lock, EditAction::LockState),
            (Some(_), None) => refused(
                rejection(
                    ErrorCode::InvalidContentParts,
                    "session/message/edit requires a target item id",
                ),
            ),
            (Some(turn), Some(expected)) => (
                EditPhase::TargetHistory { turn, expected },
                EditAction::LoadHistory,
            ),
        },
        (EditPhase::TargetHistory { turn, expected }, EditEvent::HistoryRefused(why)) => refused(why),
        (EditPhase::TargetHistory { turn, expected }, EditEvent::History(items)) => match latest_user_message(
            items@,
        ) {
            None => refused(nothing_to_edit()),
            Some(latest) => if latest == expected {
                (EditPhase::Interruption, EditAction::InterruptTurn { turn })
            } else {
                refused(target_mismatch())
            },
        },
        (EditPhase::Interruption, EditEvent::InterruptRefused(why)) => refused(why),
        (EditPhase::Interruption, EditEvent::Interrupted) => (
            EditPhase::Termination,
            EditAction::TerminateCommands,
        ),
        (EditPhase::Termination, EditEvent::Done) => (EditPhase::Lock, EditAction::LockState),
        (EditPhase::Lock, EditEvent::Done) => (EditPhase::StillActive, EditAction::ReadActiveTurn),
        (EditPhase::StillActive, EditEvent::ActiveTurn(active)) => if active is Some {
            refused(turn_active_rejection())
        } else {
            (EditPhase::HookContext, EditAction::ReadHookContext)
        },
        (EditPhase::HookContext, EditEvent::HookContextFound(found)) => if found {
            (EditPhase::Resolution, EditAction::ResolveInput)
        } else {
            refused(session_missing())
        },
        (EditPhase::Resolution, EditEvent::Resolved(resolution)) => match resolution {
            InputResolution::Failed(failure, error) => refused(
                rejection_about(
                    failure.code(),
                    "failed to resolve session/message/edit input: ",
                    error,
                ),
            ),
            InputResolution::Empty => refused(content_empty()),
            InputResolution::Ready(input) => (
                EditPhase::PromptHook(input),
                EditAction::RunPromptHook(input.text),
            ),
        },
        (EditPhase::PromptHook(input), EditEvent::HookRan(blocked)) => match blocked {
            Some(reason) => refused(
                rejection_about(ErrorCode::PolicyDenied, "prompt blocked by hook: ", reason),
            ),
            None => (EditPhase::Mentions(input), EditAction::DecodeMentions),
        },
        (EditPhase::Mentions(input), EditEvent::MentionsDecoded(failure)) => match failure {
            Some(error) => refused(
                rejection_about(
                    ErrorCode::InvalidMentions,
                    "invalid session/message/edit mentions: ",
                    error,
                ),
            ),
            None => if request.mode != EditMode::Normal {
                refused(
                    rejection(
                        ErrorCode::WorkspaceRestoreFailedToStart,
                        "session/message/edit queued-only edits are not implemented",
                    ),
                )
            } else {
                (EditPhase::Export(input), EditAction::ExportSession)
            },
        },
        (EditPhase::Export(input), EditEvent::Exported(exported)) => match exported {
            None => refused(session_missing()),
            Some(session) => match edit_target(request, session) {
                Err(why) => refused(why),
                Ok(target) => (
                    EditPhase::Model(target, input, session.mode),
                    EditAction::ResolveModel(own_selection(session.choice)),
                ),
            },
        },
        (EditPhase::Model(target, input, mode), EditEvent::ModelResolved(model)) => (
            EditPhase::Records(target, EditWork { input, mode, model }),
            EditAction::CreateRecords {
                target: target.item,
                turn: target.turn,
                policy: target.policy,
            },
        ),
        _ => (phase, EditAction::Ignore),
    }
}

/// The durable records of an edit, up to the replacement message.
pub open spec fn record_step(request: EditRequest, phase: EditPhase, event: EditEvent) -> (
    EditPhase,
    EditOrder,
) {
    match (phase, event) {
        (EditPhase::Records(target, work), EditEvent::RecordsCreated(records)) => match records {
            EditRecords::WrongCount => refused(
                rejection(
                    ErrorCode::InternalError,
                    "session/message/edit did not create the expected durable records",
                ),
            ),
            EditRecords::WrongKinds => refused(
                rejection(
                    ErrorCode::InternalError,
                    "session/message/edit created unexpected durable records",
                ),
            ),
            EditRecords::Pair(ids) => if target.policy == RestorePolicy::Skip {
                let plan = EditPlan { target, ids, restore: None, restored: false };
                (
                    EditPhase::MessageEditWritten(plan, work),
                    EditAction::Append(message_edit_record(request, plan)),
                )
            } else {
                (
                    EditPhase::RestorePlan(target, ids, work),
                    EditAction::PlanRestore { turn: target.turn, policy: target.policy },
                )
            },
        },
        (EditPhase::RestorePlan(target, ids, work), EditEvent::RestorePlanned(planned)) => match planned {
            None => refused(
                rejection(
                    ErrorCode::InternalError,
                    "session/message/edit created unexpected workspace restore record",
                ),
            ),
            Some(restore) => {
                let plan = EditPlan { target, ids, restore: Some(restore), restored: false };
                (
                    EditPhase::MessageEditWritten(plan, work),
                    EditAction::Append(message_edit_record(request, plan)),
                )
            },
        },
        (EditPhase::MessageEditWritten(plan, work), EditEvent::Written(failure)) => after_write(
            failure,
            ErrorCode::InternalError,
            "failed to persist message edit record: ",
            (EditPhase::SupersededWritten(plan, work), EditAction::Append(superseded_record(plan))),
        ),
        (EditPhase::SupersededWritten(plan, work), EditEvent::Written(failure)) => after_write(
            failure,
            ErrorCode::InternalError,
            "failed to persist turn superseded record: ",
            match plan.restore {
                Some(restore) => (
                    EditPhase::RestoreStartWritten(plan, work),
                    EditAction::Append(EditRecord::RestoreStarted { restore }),
                ),
                None => (
                    EditPhase::TurnWritten(plan, work),
                    EditAction::Append(replacement_turn_record(plan, work)),
                ),
            },
        ),
        (EditPhase::RestoreStartWritten(plan, work), EditEvent::Written(failure)) => after_write(
            failure,
            ErrorCode::WorkspaceRestoreFailedToStart,
            "failed to persist workspace restore start: ",
            (EditPhase::Restoration(plan, work), EditAction::ApplyRestore),
        ),
        (EditPhase::Restoration(plan, work), EditEvent::RestoreApplied(applied)) => match (
            applied,
            plan.restore,
        ) {
            (Some(outcomes), Some(restore)) => (
                EditPhase::RestoreEndWritten(
                    EditPlan { restored: all_handled(outcomes@), ..plan },
                    work,
                ),
                EditAction::Append(EditRecord::RestoreCompleted { restore, outcomes }),
            ),
            _ => refused(
                rejection(
                    ErrorCode::InternalError,
                    "session/message/edit created unexpected workspace restore completion",
                ),
            ),
        },
        (EditPhase::RestoreEndWritten(plan, work), EditEvent::Written(failure)) => after_write(
            failure,
            ErrorCode::InternalError,
            "failed to persist workspace restore completion: ",
            (
                EditPhase::TurnWritten(plan, work),
                EditAction::Append(replacement_turn_record(plan, work)),
            ),
        ),
        (EditPhase::TurnWritten(plan, work), EditEvent::Written(failure)) => after_write(
            failure,
            ErrorCode::InternalError,
            "failed to persist replacement turn start: ",
            (EditPhase::Sequence(plan, work), EditAction::AllocateSequence),
        ),
        (EditPhase::Sequence(plan, work), EditEvent::SequenceAllocated(seq)) => (
            EditPhase::TreePosition(plan, seq, work),
            EditAction::ReadTree,
        ),
        (EditPhase::TreePosition(plan, seq, work), EditEvent::HistoryRefused(why)) => refused(why),
        (
            EditPhase::TreePosition(plan, seq, work),
            EditEvent::TreeRead { recorded_parent, items, leaf_epoch },
        ) => {
            let place = Placement {
                parent: branch_parent(recorded_parent, items@, plan.target.item),
                leaf_epoch: if leaf_epoch == u64::MAX {
                    leaf_epoch
                } else {
                    (leaf_epoch + 1) as u64
                },
            };
            (
                EditPhase::EdgeWritten(plan, seq, place, work),
                EditAction::Append(
                    EditRecord::TreeEdge { item: plan.ids.replacement_item, parent: place.parent },
                ),
            )
        },
        (EditPhase::EdgeWritten(plan, seq, place, work), EditEvent::Written(failure)) => after_write(
            failure,
            ErrorCode::InternalError,
            "failed to persist edit tree edge: ",
            (
                EditPhase::LeafWritten(plan, seq, place, work),
                EditAction::Append(
                    EditRecord::SessionLeaf {
                        leaf: plan.ids.replacement_item,
                        epoch: place.leaf_epoch,
                    },
                ),
            ),
        ),
        (EditPhase::LeafWritten(plan, seq, place, work), EditEvent::Written(failure)) => after_write(
            failure,
            ErrorCode::InternalError,
            "failed to persist edit session leaf: ",
            (
                EditPhase::ItemWritten(plan, work),
                EditAction::Append(
                    EditRecord::ReplacementItem {
                        item: plan.ids.replacement_item,
                        seq,
                        parent: place.parent,
                        message: (),
                    },
                ),
            ),
        ),
        (EditPhase::ItemWritten(plan, work), EditEvent::Written(failure)) => after_write(
            failure,
            ErrorCode::InternalError,
            "failed to persist replacement message item: ",
            (EditPhase::SecondExport(plan, work), EditAction::ReexportSession),
        ),
        _ => (phase, EditAction::Ignore),
    }
}

/// The change of the live session and the notifications about it.
pub open spec fn commit_step(request: EditRequest, phase: EditPhase, event: EditEvent) -> (
    EditPhase,
    EditOrder,
) {
    match (phase, event) {
        (EditPhase::SecondExport(plan, work), EditEvent::SessionReexported(exported, now)) => match exported {
            None => refused(session_missing()),
            Some(_) => (EditPhase::StateReplaced(plan, work, now), EditAction::ReplaceState(())),
        },
        (EditPhase::StateReplaced(plan, work, now), EditEvent::Done) => (
            EditPhase::Goal(plan, work, now),
            EditAction::ReadGoal,
        ),
        (EditPhase::Goal(plan, work, _), EditEvent::Goal(_)) => (
            EditPhase::Spawned(plan, work),
            EditAction::SpawnTurn { turn: plan.ids.replacement_turn, work: () },
        ),
        (EditPhase::Spawned(plan, work), EditEvent::Done) => (
            EditPhase::Announced(plan, 0, work),
            EditAction::Announce(edit_notices(request, plan)[0]),
        ),
        (EditPhase::Announced(plan, k, work), EditEvent::Done) => if k + 1 < edit_notices(request, plan).len() {
            (
                EditPhase::Announced(plan, (k + 1) as u8, work),
                EditAction::Announce(edit_notices(request, plan)[k + 1]),
            )
        } else {
            (EditPhase::Finished, EditAction::Accept { ids: plan.ids, state: "accepted" })
        },
        _ => (phase, EditAction::Ignore),
    }
}

/// How far an edit has come: the checks, the records, the live session.
pub open spec fn edit_stage(phase: EditPhase) -> int {
    match phase {
        EditPhase::Content
        | EditPhase::Session
        | EditPhase::ActiveTurn
        | EditPhase::TargetHistory { .. }
        | EditPhase::Interruption
        | EditPhase::Termination
        | EditPhase::Lock
        | EditPhase::StillActive
        | EditPhase::HookContext
        | EditPhase::Resolution
        | EditPhase::PromptHook(_)
        | EditPhase::Mentions(_)
        | EditPhase::Export(_)
        | EditPhase::Model(_, _, _) => 0,
        EditPhase::SecondExport(_, _)
        | EditPhase::StateReplaced(_, _, _)
        | EditPhase::Goal(_, _, _)
        | EditPhase::Spawned(_, _)
        | EditPhase::Announced(_, _, _)
        | EditPhase::Finished => 2,
        _ => 1,
    }
}

/// The next phase of an edit and what the host has to do to leave it.
pub open spec fn edit_step(request: EditRequest, phase: EditPhase, event: EditEvent) -> (
    EditPhase,
    EditOrder,
) {
    if edit_stage(phase) == 0 {
        check_step(request, phase, event)
    } else if edit_stage(phase) == 1 {
        record_step(request, phase, event)
    } else {
        commit_step(request, phase, event)
    }
}

proof fn lemma_replacement_counts(items: Seq<SessionItem>, turn: TurnId, entry: SessionItem)
    requires
        entry.user_message,
    ensures
        user_message_count(superseding_items(items, turn, entry)) >= 1,
{
    let kept = items.filter(|item: SessionItem| item.turn != turn);
    kept.lemma_filter_push(entry, |item: SessionItem| item.user_message);
}

fn advance_checks(request: &EditRequest, phase: EditPhase, event: EditEvent) -> (r: (EditPhase, EditAction))
    ensures
        edit_order(r) == check_step(*request, phase, event),
        is_plain(r.1),
{
    match (phase, event) {
        (EditPhase::Content, EditEvent::Content(content)) => match content {
            EditContent::Invalid(error) => refuse(
                reject_about(
                    ErrorCode::InvalidContentParts,
                    "invalid session/message/edit content: ",
                    error,
                ),
            ),
            EditContent::Empty => refuse(
                reject(ErrorCode::InvalidContentParts, "session/message/edit content is empty"),
            ),
            EditContent::Ready => (EditPhase::Session, EditAction::FindSession),
        },
        (EditPhase::Session, EditEvent::SessionFound(found)) => {
            if found {
                (EditPhase::ActiveTurn, EditAction::ReadActiveTurn)
            } else {
                refuse(reject_session_missing())
            }
        },
        (EditPhase::ActiveTurn, EditEvent::ActiveTurn(active)) => match active {
            None => (EditPhase::Lock, EditAction::LockState),
            Some(turn) => match request.expected_target_id() {
                None => refuse(
                    reject(
                        ErrorCode::InvalidContentParts,
                        "session/message/edit requires a target item id",
                    ),
                ),
                Some(expected) => (
                    EditPhase::TargetHistory { turn, expected },
                    EditAction::LoadHistory,
                ),
            },
        },
        (EditPhase::TargetHistory { .. }, EditEvent::HistoryRefused(why)) => refuse(why),
        (EditPhase::TargetHistory { turn, expected }, EditEvent::History(items)) => {
            match find_latest_user_message(&items) {
                None => refuse(
                    reject(
                        ErrorCode::OlderMessageRequiresFork,
                        "no immediately previous user message is available to edit",
                    ),
                ),
                Some(latest) => {
                    if latest == expected {
                        (EditPhase::Interruption, EditAction::InterruptTurn { turn })
                    } else {
                        refuse(
                            reject(
                                ErrorCode::ExpectedTargetMessageMismatch,
                                "expected target message does not match the current editable message",
                            ),
                        )
                    }
                },
            }
        },
        (EditPhase::Interruption, EditEvent::InterruptRefused(why)) => refuse(why),
        (EditPhase::Interruption, EditEvent::Interrupted) => (
            EditPhase::Termination,
            EditAction::TerminateCommands,
        ),
        (EditPhase::Termination, EditEvent::Done) => (EditPhase::Lock, EditAction::LockState),
        (EditPhase::Lock, EditEvent::Done) => (EditPhase::StillActive, EditAction::ReadActiveTurn),
        (EditPhase::StillActive, EditEvent::ActiveTurn(active)) => {
            if active.is_some() {
                refuse(
                    reject(
                        ErrorCode::ActiveTurnEditRejected,
                        "cannot edit the previous message while a turn is active",
                    ),
                )
            } else {
                (EditPhase::HookContext, EditAction::ReadHookContext)
            }
        },
        (EditPhase::HookContext, EditEvent::HookContextFound(found)) => {
            if found {
                (EditPhase::Resolution, EditAction::ResolveInput)
            } else {
                refuse(reject_session_missing())
            }
        },
        (EditPhase::Resolution, EditEvent::Resolved(resolution)) => match resolution {
            InputResolution::Failed(failure, error) => refuse(
                reject_about(
                    failure.error_code(),
                    "failed to resolve session/message/edit input: ",
                    error,
                ),
            ),
            InputResolution::Empty => refuse(
                reject(ErrorCode::InvalidContentParts, "session/message/edit content is empty"),
            ),
            InputResolution::Ready(input) => {
                let text = input.text.clone();
                (EditPhase::PromptHook(input), EditAction::RunPromptHook(text))
            },
        },
        (EditPhase::PromptHook(input), EditEvent::HookRan(blocked)) => match blocked {
            Some(reason) => refuse(
                reject_about(ErrorCode::PolicyDenied, "prompt blocked by hook: ", reason),
            ),
            None => (EditPhase::Mentions(input), EditAction::DecodeMentions),
        },
        (EditPhase::Mentions(input), EditEvent::MentionsDecoded(failure)) => match failure {
            Some(error) => refuse(
                reject_about(
                    ErrorCode::InvalidMentions,
                    "invalid session/message/edit mentions: ",
                    error,
                ),
            ),
            None => {
                if request.mode != EditMode::Normal {
                    refuse(
                        reject(
                            ErrorCode::WorkspaceRestoreFailedToStart,
                            "session/message/edit queued-only edits are not implemented",
                        ),
                    )
                } else {
                    (EditPhase::Export(input), EditAction::ExportSession)
                }
            },
        },
        (EditPhase::Export(input), EditEvent::Exported(exported)) => match exported {
            None => refuse(reject_session_missing()),
            Some(session) => match choose_edit_target(request, &session) {
                Err(why) => refuse(why),
                Ok(target) => (
                    EditPhase::Model(target, input, session.mode),
                    EditAction::ResolveModel(select_for_session(&session.choice)),
                ),
            },
        },
        (EditPhase::Model(target, input, mode), EditEvent::ModelResolved(model)) => (
            EditPhase::Records(target, EditWork { input, mode, model }),
            EditAction::CreateRecords {
                target: target.item,
                turn: target.turn,
                policy: target.policy,
            },
        ),
        (phase, _) => (phase, EditAction::Ignore),
    }
}

fn advance_records(request: &EditRequest, phase: EditPhase, event: EditEvent) -> (r: (
    EditPhase,
    EditAction,
))
    ensures
        edit_order(r) == record_step(*request, phase, event),
        edits_with(*request, phase, event, r.1),
{
    match (phase, event) {
        (EditPhase::Records(target, work), EditEvent::RecordsCreated(records)) => match records {
            EditRecords::WrongCount => refuse(
                reject(
                    ErrorCode::InternalError,
                    "session/message/edit did not create the expected durable records",
                ),
            ),
            EditRecords::WrongKinds => refuse(
                reject(
                    ErrorCode::InternalError,
                    "session/message/edit created unexpected durable records",
                ),
            ),
            EditRecords::Pair(ids) => {
                if target.policy == RestorePolicy::Skip {
                    begin_records(
                        request,
                        EditPlan { target, ids, restore: None, restored: false },
                        work,
                    )
                } else {
                    (
                        EditPhase::RestorePlan(target, ids, work),
                        EditAction::PlanRestore { turn: target.turn, policy: target.policy },
                    )
                }
            },
        },
        (EditPhase::RestorePlan(target, ids, work), EditEvent::RestorePlanned(planned)) => match planned {
            None => refuse(
                reject(
                    ErrorCode::InternalError,
                    "session/message/edit created unexpected workspace restore record",
                ),
            ),
            Some(restore) => begin_records(
                request,
                EditPlan { target, ids, restore: Some(restore), restored: false },
                work,
            ),
        },
        (EditPhase::MessageEditWritten(plan, work), EditEvent::Written(failure)) => continue_after_write(
            failure,
            ErrorCode::InternalError,
            "failed to persist message edit record: ",
            (
                EditPhase::SupersededWritten(plan, work),
                EditAction::Append(
                    EditRecord::TurnSuperseded {
                        turn: plan.target.turn,
                        successor: plan.ids.replacement_turn,
                        restore_plan: plan.restore,
                    },
                ),
            ),
        ),
        (EditPhase::SupersededWritten(plan, work), EditEvent::Written(failure)) => {
            let next = match plan.restore {
                Some(restore) => (
                    EditPhase::RestoreStartWritten(plan, work),
                    EditAction::Append(EditRecord::RestoreStarted { restore }),
                ),
                None => begin_replacement_turn(plan, work),
            };
            continue_after_write(
                failure,
                ErrorCode::InternalError,
                "failed to persist turn superseded record: ",
                next,
            )
        },
        (EditPhase::RestoreStartWritten(plan, work), EditEvent::Written(failure)) => continue_after_write(
            failure,
            ErrorCode::WorkspaceRestoreFailedToStart,
            "failed to persist workspace restore start: ",
            (EditPhase::Restoration(plan, work), EditAction::ApplyRestore),
        ),
        (EditPhase::Restoration(plan, work), EditEvent::RestoreApplied(applied)) => match (
            applied,
            plan.restore,
        ) {
            (Some(outcomes), Some(restore)) => {
                let restored = restore_succeeded(&outcomes);
                (
                    EditPhase::RestoreEndWritten(
                        EditPlan {
                            target: plan.target,
                            ids: plan.ids,
                            restore: plan.restore,
                            restored,
                        },
                        work,
                    ),
                    EditAction::Append(EditRecord::RestoreCompleted { restore, outcomes }),
                )
            },
            _ => refuse(
                reject(
                    ErrorCode::InternalError,
                    "session/message/edit created unexpected workspace restore completion",
                ),
            ),
        },
        (EditPhase::RestoreEndWritten(plan, work), EditEvent::Written(failure)) => continue_after_write(
            failure,
            ErrorCode::InternalError,
            "failed to persist workspace restore completion: ",
            begin_replacement_turn(plan, work),
        ),
        (EditPhase::TurnWritten(plan, work), EditEvent::Written(failure)) => continue_after_write(
            failure,
            ErrorCode::InternalError,
            "failed to persist replacement turn start: ",
            (EditPhase::Sequence(plan, work), EditAction::AllocateSequence),
        ),
        (EditPhase::Sequence(plan, work), EditEvent::SequenceAllocated(seq)) => (
            EditPhase::TreePosition(plan, seq, work),
            EditAction::ReadTree,
        ),
        (EditPhase::TreePosition(..), EditEvent::HistoryRefused(why)) => refuse(why),
        (
            EditPhase::TreePosition(plan, seq, work),
            EditEvent::TreeRead { recorded_parent, items, leaf_epoch },
        ) => {
            let place = Placement {
                parent: find_branch_parent(recorded_parent, &items, plan.target.item),
                leaf_epoch: leaf_epoch.saturating_add(1),
            };
            (
                EditPhase::EdgeWritten(plan, seq, place, work),
                EditAction::Append(
                    EditRecord::TreeEdge { item: plan.ids.replacement_item, parent: place.parent },
                ),
            )
        },
        (EditPhase::EdgeWritten(plan, seq, place, work), EditEvent::Written(failure)) => continue_after_write(
            failure,
            ErrorCode::InternalError,
            "failed to persist edit tree edge: ",
            (
                EditPhase::LeafWritten(plan, seq, place, work),
                EditAction::Append(
                    EditRecord::SessionLeaf {
                        leaf: plan.ids.replacement_item,
                        epoch: place.leaf_epoch,
                    },
                ),
            ),
        ),
        (EditPhase::LeafWritten(plan, seq, place, work), EditEvent::Written(failure)) => {
            let message = edited_content(request, &work);
            continue_after_write(
                failure,
                ErrorCode::InternalError,
                "failed to persist edit session leaf: ",
                (
                    EditPhase::ItemWritten(plan, work),
                    EditAction::Append(
                        EditRecord::ReplacementItem {
                            item: plan.ids.replacement_item,
                            seq,
                            parent: place.parent,
                            message,
                        },
                    ),
                ),
            )
        },
        (EditPhase::ItemWritten(plan, work), EditEvent::Written(failure)) => continue_after_write(
            failure,
            ErrorCode::InternalError,
            "failed to persist replacement message item: ",
            (EditPhase::SecondExport(plan, work), EditAction::ReexportSession),
        ),
        (phase, _) => (phase, EditAction::Ignore),
    }
}

/// The session once the edit is made.
pub fn edited_session(plan: &EditPlan, before: SessionState, now: i64) -> (r: SessionState)
    ensures
        is_edited_session(*plan, before, now, r),
{
    let replacement = SessionItem {
        turn: plan.ids.replacement_turn,
        item: plan.ids.replacement_item,
        user_message: true,
    };
    let items = supersede_items(&before.items, plan.target.turn, replacement);
    proof {
        lemma_replacement_counts(before.items@, plan.target.turn, replacement);
    }
    let turn_count = count_user_messages(&items) - 1;
    let mut session = before;
    session.items = items;
    session.turn_count = turn_count;
    session.active = Some(
        ActiveTurn { turn: plan.ids.replacement_turn, sequence: plan.target.sequence },
    );
    session.compaction = None;
    session.status = SessionStatus::Active;
    session.updated_at = now;
    session.last_activity_at = now;
    session
}

fn replacement_goal(goal: Option<Goal>, now: i64) -> (r: ReplacementGoal)
    ensures
        r == goal_for(goal, now),
{
    match goal {
        Some(goal) => ReplacementGoal::Current(goal),
        None => ReplacementGoal::StandIn { objective: "message edit replacement", at: now },
    }
}

fn spawn_replacement(
    request: &EditRequest,
    plan: EditPlan,
    work: EditWork,
    goal: ReplacementGoal,
) -> (r: (EditPhase, EditAction))
    ensures
        edit_order(r) == (
            EditPhase::Spawned(plan, work),
            EditOrder::SpawnTurn { turn: plan.ids.replacement_turn, work: () },
        ),
        r.1 matches EditAction::SpawnTurn { work: turn, .. } && runs_content(
            *request,
            work,
            goal,
            turn,
        ),
{
    let turn = EditedTurn {
        input: copy_inputs(&request.content),
        display: request.display.clone(),
        resolved: work.input.copy(),
        mode: work.mode,
        model: work.model.copy(),
        goal,
    };
    (
        EditPhase::Spawned(plan, work),
        EditAction::SpawnTurn { turn: plan.ids.replacement_turn, work: turn },
    )
}

fn advance_commit(request: &EditRequest, phase: EditPhase, event: EditEvent) -> (r: (
    EditPhase,
    EditAction,
))
    ensures
        edit_order(r) == commit_step(*request, phase, event),
        edits_with(*request, phase, event, r.1),
{
    match (phase, event) {
        (EditPhase::SecondExport(plan, work), EditEvent::SessionReexported(exported, now)) => match exported {
            None => refuse(reject_session_missing()),
            Some(session) => {
                let prompts = work.input.prompts();
                let session = edited_session(&plan, session, now);
                (
                    EditPhase::StateReplaced(plan, work, now),
                    EditAction::ReplaceState(EditedState { session, prompts }),
                )
            },
        },
        (EditPhase::StateReplaced(plan, work, now), EditEvent::Done) => (
            EditPhase::Goal(plan, work, now),
            EditAction::ReadGoal,
        ),
        (EditPhase::Goal(plan, work, now), EditEvent::Goal(goal)) => spawn_replacement(
            request,
            plan,
            work,
            replacement_goal(goal, now),
        ),
        (EditPhase::Spawned(plan, work), EditEvent::Done) => announce(request, plan, work, 0),
        (EditPhase::Announced(plan, k, work), EditEvent::Done) => {
            if k == u8::MAX {
                (EditPhase::Finished, EditAction::Accept { ids: plan.ids, state: "accepted" })
            } else {
                announce(request, plan, work, k + 1)
            }
        },
        (phase, _) => (phase, EditAction::Ignore),
    }
}

/// Takes the edit one step further: the next phase, and what the host has to
/// do before it reports the next event.
pub fn advance_edit(request: &EditRequest, phase: EditPhase, event: EditEvent) -> (r: (
    EditPhase,
    EditAction,
))
    ensures
        is_edit_step(*request, phase, event, r),
{
    match phase {
        EditPhase::Content
        | EditPhase::Session
        | EditPhase::ActiveTurn
        | EditPhase::TargetHistory { .. }
        | EditPhase::Interruption
        | EditPhase::Termination
        | EditPhase::Lock
        | EditPhase::StillActive
        | EditPhase::HookContext
        | EditPhase::Resolution
        | EditPhase::PromptHook(_)
        | EditPhase::Mentions(_)
        | EditPhase::Export(_)
        | EditPhase::Model(_, _, _) => advance_checks(request, phase, event),
        EditPhase::SecondExport(_, _)
        | EditPhase::StateReplaced(_, _, _)
        | EditPhase::Goal(_, _, _)
        | EditPhase::Spawned(_, _)
        | EditPhase::Announced(_, _, _)
        | EditPhase::Finished => advance_commit(request, phase, event),
        _ => advance_records(request, phase, event),
    }
}

fn begin_records(request: &EditRequest, plan: EditPlan, work: EditWork) -> (r: (
    EditPhase,
    EditAction,
))
    ensures
        edit_order(r) == (
            EditPhase::MessageEditWritten(plan, work),
            EditOrder::Append(message_edit_record(*request, plan)),
        ),
        is_plain(r.1),
{
    (
        EditPhase::MessageEditWritten(plan, work),
        EditAction::Append(
            EditRecord::MessageEdit {
                edit: plan.ids.edit,
                target: plan.target.item,
                replacement: plan.ids.replacement_item,
                text: request.display.clone(),
                client: copy_text(&request.client),
            },
        ),
    )
}

fn begin_replacement_turn(plan: EditPlan, work: EditWork) -> (r: (EditPhase, EditAction))
    ensures
        edit_order(r) == (
            EditPhase::TurnWritten(plan, work),
            EditOrder::Append(replacement_turn_record(plan, work)),
        ),
        is_plain(r.1),
{
    let model = work.model.copy();
    (
        EditPhase::TurnWritten(plan, work),
        EditAction::Append(
            EditRecord::ReplacementTurn {
                turn: plan.ids.replacement_turn,
                sequence: plan.target.sequence,
                model,
            },
        ),
    )
}

fn announce(request: &EditRequest, plan: EditPlan, work: EditWork, k: u8) -> (r: (
    EditPhase,
    EditAction,
))
    ensures
        edit_order(r) == (if k < edit_notices(*request, plan).len() {
            (
                EditPhase::Announced(plan, k, work),
                EditOrder::Announce(edit_notices(*request, plan)[k as int]),
            )
        } else {
            (EditPhase::Finished, EditAction::Accept { ids: plan.ids, state: "accepted" })
        }),
        is_plain(r.1) || (r.1 matches EditAction::Announce(notice) && (
        notice.message() matches Some(message) && holds_content(*request, work, message))),
{
    match edit_notice(request, &plan, &work, k) {
        Some(notice) => (EditPhase::Announced(plan, k, work), EditAction::Announce(notice)),
        None => (EditPhase::Finished, EditAction::Accept { ids: plan.ids, state: "accepted" }),
    }
}

/// An edit leaves the session with the replacement turn running, without an
/// earlier compaction, and with no item of the superseded turn.
pub proof fn law_edited_sessions_run_the_replacement(
    request: EditRequest,
    phase: EditPhase,
    event: EditEvent,
    step: (EditPhase, EditAction),
    plan: EditPlan,
    work: EditWork,
)
    requires
        is_edit_step(request, phase, event, step),
        phase == EditPhase::SecondExport(plan, work),
        step.1 is ReplaceState,
        plan.ids.replacement_turn != plan.target.turn,
    ensures
        ({
            let session = step.1->ReplaceState_0.session;
            &&& session.active matches Some(active) && active.turn == plan.ids.replacement_turn
            &&& session.compaction is None
            &&& session.status is Active
            &&& session.items@.len() > 0 && session.items@.last() == replacement_entry(plan)
            &&& forall|i: int|
                0 <= i < session.items@.len() ==> (#[trigger] session.items@[i]).turn
                    != plan.target.turn
        }),
{
    let before = event->SessionReexported_0->0;
    let keep = |item: SessionItem| item.turn != plan.target.turn;
    let kept = before.items@.filter(keep);
    let items = step.1->ReplaceState_0.session.items@;
    assert(items == kept.push(replacement_entry(plan)));
    assert forall|i: int| 0 <= i < items.len() implies (#[trigger] items[i]).turn
        != plan.target.turn by {
        if i < kept.len() {
            before.items@.lemma_filter_pred(keep, i);
        }
    }
}

/// The phase that an edit is in after `events`, and what it asked the host to
/// do on the way.
pub open spec fn edit_run(request: EditRequest, events: Seq<EditEvent>) -> (
    EditPhase,
    Seq<EditOrder>,
)
    decreases events.len(),
{
    if events.len() == 0 {
        (EditPhase::Content, Seq::empty())
    } else {
        let (phase, actions) = edit_run(request, events.drop_last());
        let (next, action) = edit_step(request, phase, events.last());
        (next, actions.push(action))
    }
}

/// The place of a record in the order in which an edit is recorded.
pub open spec fn record_rank(record: RecordOrder) -> int {
    match record {
        EditRecord::MessageEdit { .. } => 0,
        EditRecord::TurnSuperseded { .. } => 1,
        EditRecord::RestoreStarted { .. } => 2,
        EditRecord::RestoreCompleted { .. } => 3,
        EditRecord::ReplacementTurn { .. } => 4,
        EditRecord::TreeEdge { .. } => 5,
        EditRecord::SessionLeaf { .. } => 6,
        EditRecord::ReplacementItem { .. } => 7,
    }
}

/// The ranks of the records that `actions` asks for, in order.
pub open spec fn appended_ranks(actions: Seq<EditOrder>) -> Seq<int>
    decreases actions.len(),
{
    if actions.len() == 0 {
        Seq::empty()
    } else {
        let before = appended_ranks(actions.drop_last());
        match actions.last() {
            EditAction::Append(record) => before.push(record_rank(record)),
            _ => before,
        }
    }
}

/// The ranks of a complete edit, with or without a workspace restore.
pub open spec fn complete_ranks(restore: bool) -> Seq<int> {
    if restore {
        seq![0int, 1, 2, 3, 4, 5, 6, 7]
    } else {
        seq![0int, 1, 4, 5, 6, 7]
    }
}

/// Whether an action changes the live session or tells clients of the edit.
pub open spec fn publishes(action: EditOrder) -> bool {
    action is ReplaceState || action is SpawnTurn || action is Announce || action is Accept
}

/// How many records an edit in `phase` has asked for, of those in
/// `complete_ranks`; none for an edit that is over.
pub open spec fn records_asked(phase: EditPhase) -> Option<(bool, int)> {
    match phase {
        EditPhase::MessageEditWritten(plan, _) => Some((plan.restore is Some, 1)),
        EditPhase::SupersededWritten(plan, _) => Some((plan.restore is Some, 2)),
        EditPhase::RestoreStartWritten(plan, _) => Some((plan.restore is Some, 3)),
        EditPhase::Restoration(plan, _) => Some((plan.restore is Some, 3)),
        EditPhase::RestoreEndWritten(plan, _) => Some((plan.restore is Some, 4)),
        EditPhase::TurnWritten(plan, _)
        | EditPhase::Sequence(plan, _)
        | EditPhase::TreePosition(plan, _, _) => Some(
            (plan.restore is Some, if plan.restore is Some { 5int } else { 3 }),
        ),
        EditPhase::EdgeWritten(plan, _, _, _) => Some(
            (plan.restore is Some, if plan.restore is Some { 6int } else { 4 }),
        ),
        EditPhase::LeafWritten(plan, _, _, _) => Some(
            (plan.restore is Some, if plan.restore is Some { 7int } else { 5 }),
        ),
        EditPhase::ItemWritten(plan, _)
        | EditPhase::SecondExport(plan, _)
        | EditPhase::StateReplaced(plan, _, _)
        | EditPhase::Goal(plan, _, _)
        | EditPhase::Spawned(plan, _)
        | EditPhase::Announced(plan, _, _) => Some(
            (plan.restore is Some, if plan.restore is Some { 8int } else { 6 }),
        ),
        EditPhase::Finished => None,
        _ => Some((false, 0)),
    }
}

spec fn restore_phase_plans_restore(phase: EditPhase) -> bool {
    match phase {
        EditPhase::RestoreStartWritten(plan, _)
        | EditPhase::Restoration(plan, _)
        | EditPhase::RestoreEndWritten(plan, _) => plan.restore is Some,
        _ => true,
    }
}

spec fn records_match_phase(phase: EditPhase, actions: Seq<EditOrder>) -> bool {
    let ranks = appended_ranks(actions);
    &&& restore_phase_plans_restore(phase)
    &&& records_asked(phase) matches Some((restore, count)) ==> ranks == complete_ranks(
        restore,
    ).take(count)
    &&& exists|restore: bool, count: int|
        0 <= count <= complete_ranks(restore).len() && ranks == #[trigger] complete_ranks(
            restore,
        ).take(count)
    &&& (exists|i: int| 0 <= i < actions.len() && #[trigger] publishes(actions[i])) ==> {
        &&& ranks == complete_ranks(true) || ranks == complete_ranks(false)
        &&& shows(phase)
    }
}

spec fn shows(phase: EditPhase) -> bool {
    phase is StateReplaced || phase is Goal || phase is Spawned || phase is Announced || phase is Finished
}

spec fn step_shape(phase: EditPhase, next: EditPhase, action: EditOrder) -> bool {
    &&& restore_phase_plans_restore(next)
    &&& shows(phase) ==> shows(next)
    &&& action matches EditAction::Append(record) ==> {
        &&& records_asked(next) matches Some((restore, count)) && {
            &&& 1 <= count <= complete_ranks(restore).len()
            &&& complete_ranks(restore)[count - 1] == record_rank(record)
            &&& records_asked(phase) matches Some((before, so_far)) && {
                &&& so_far == count - 1
                &&& so_far == 0 || before == restore
            }
        }
        &&& !shows(phase)
    }
    &&& action !is Append ==> {
        ||| next is Finished
        ||| records_asked(next) == records_asked(phase)
    }
    &&& publishes(action) ==> {
        &&& shows(next)
        &&& records_asked(phase) matches Some((restore, count)) && count == complete_ranks(
            restore,
        ).len()
    }
}

#[verifier::rlimit(40)]
proof fn lemma_step_shape(request: EditRequest, phase: EditPhase, event: EditEvent)
    requires
        restore_phase_plans_restore(phase),
    ensures
        ({
            let (next, action) = edit_step(request, phase, event);
            step_shape(phase, next, action)
        }),
{
}

proof fn lemma_step_keeps_records(
    phase: EditPhase,
    actions: Seq<EditOrder>,
    next: EditPhase,
    action: EditOrder,
)
    requires
        records_match_phase(phase, actions),
        step_shape(phase, next, action),
    ensures
        records_match_phase(next, actions.push(action)),
{
    let after = actions.push(action);
    assert(after.drop_last() =~= actions);
    let ranks = appended_ranks(actions);
    assert(complete_ranks(true).take(8) =~= complete_ranks(true));
    assert(complete_ranks(false).take(6) =~= complete_ranks(false));
    if let EditAction::Append(record) = action {
        let (restore, count) = records_asked(next)->0;
        let (before, so_far) = records_asked(phase)->0;
        let full = complete_ranks(restore);
        assert(complete_ranks(before).take(0) =~= full.take(0));
        assert(full.take(count) =~= full.take(count - 1).push(full[count - 1]));
        assert(appended_ranks(after) == full.take(count));
    } else {
        assert(appended_ranks(after) == ranks);
    }
    if exists|i: int| 0 <= i < after.len() && #[trigger] publishes(after[i]) {
        if !publishes(action) {
            let i = choose|i: int| 0 <= i < after.len() && #[trigger] publishes(after[i]);
            assert(publishes(actions[i]));
        }
    }
}

proof fn lemma_records_match(request: EditRequest, events: Seq<EditEvent>)
    ensures
        ({
            let (phase, actions) = edit_run(request, events);
            records_match_phase(phase, actions)
        }),
    decreases events.len(),
{
    if events.len() == 0 {
        assert(complete_ranks(false).take(0) =~= Seq::<int>::empty());
    } else {
        lemma_records_match(request, events.drop_last());
        let (phase, actions) = edit_run(request, events.drop_last());
        let (next, action) = edit_step(request, phase, events.last());
        lemma_step_shape(request, phase, events.last());
        lemma_step_keeps_records(phase, actions, next, action);
    }
}

/// However an edit goes, its durable records are asked for in one fixed order
/// without a gap, and the live session changes and clients hear of the edit
/// only once every one of them has been written.
pub proof fn law_edit_is_recorded_before_it_shows(request: EditRequest, events: Seq<EditEvent>)
    ensures
        ({
            let actions = edit_run(request, events).1;
            let ranks = appended_ranks(actions);
            &&& exists|restore: bool, count: int|
                0 <= count <= complete_ranks(restore).len() && ranks == #[trigger] complete_ranks(
                    restore,
                ).take(count)
            &&& (exists|i: int| 0 <= i < actions.len() && #[trigger] publishes(actions[i])) ==> (
            ranks == complete_ranks(true) || ranks == complete_ranks(false))
        }),
{
    lemma_records_match(request, events);
}

/// As long as the checks go on, no record has been asked for: an edit that a
/// check refuses leaves nothing behind.
pub proof fn law_checks_write_nothing(request: EditRequest, events: Seq<EditEvent>)
    ensures
        ({
            let (phase, actions) = edit_run(request, events);
            edit_stage(phase) == 0 || phase is Records || phase is RestorePlan
                ==> appended_ranks(actions).len() == 0
        }),
{
    lemma_records_match(request, events);
}

/// What the new content comes to, as far as the phase holds it.
pub open spec fn input_in(phase: EditPhase) -> Option<ResolvedInput> {
    match phase {
        EditPhase::PromptHook(input) => Some(input),
        EditPhase::Mentions(input) => Some(input),
        EditPhase::Export(input) => Some(input),
        EditPhase::Model(_, input, _) => Some(input),
        _ => match work_in(phase) {
            Some(work) => Some(work.input),
            None => None,
        },
    }
}

proof fn lemma_edit_keeps_work(request: EditRequest, phase: EditPhase, event: EditEvent)
    ensures
        ({
            let next = edit_step(request, phase, event).0;
            &&& input_in(next) matches Some(input) ==> input_in(phase) == Some(input) || event
                == EditEvent::Resolved(InputResolution::Ready(input))
            &&& work_in(next) matches Some(work) ==> work_in(phase) == Some(work) || event
                == EditEvent::ModelResolved(work.model)
        }),
{
}

/// An edit goes on with what the host has found the new content to come to, and
/// with the model that it has found.
pub proof fn law_edits_go_on_with_what_was_found(request: EditRequest, events: Seq<EditEvent>)
    ensures
        input_in(edit_run(request, events).0) matches Some(input) ==> events.contains(
            EditEvent::Resolved(InputResolution::Ready(input)),
        ),
        work_in(edit_run(request, events).0) matches Some(work) ==> events.contains(
            EditEvent::ModelResolved(work.model),
        ),
    decreases events.len(),
{
    if events.len() > 0 {
        let before = events.drop_last();
        law_edits_go_on_with_what_was_found(request, before);
        lemma_edit_keeps_work(request, edit_run(request, before).0, events.last());
        assert(events[events.len() - 1] == events.last());
        assert forall|event: EditEvent| before.contains(event) implies events.contains(event) by {
            let i = choose|i: int| 0 <= i < before.len() && before[i] == event;
            assert(events[i] == event);
        }
    }
}

/// How far along a phase stands.
pub open spec fn phase_rank(phase: EditPhase) -> int {
    match phase {
        EditPhase::Content => 0,
        EditPhase::Session => 1,
        EditPhase::ActiveTurn => 2,
        EditPhase::TargetHistory { .. } => 3,
        EditPhase::Interruption => 4,
        EditPhase::Termination => 5,
        EditPhase::Lock => 6,
        EditPhase::StillActive => 7,
        EditPhase::HookContext => 8,
        EditPhase::Resolution => 9,
        EditPhase::PromptHook(_) => 10,
        EditPhase::Mentions(_) => 11,
        EditPhase::Export(_) => 12,
        EditPhase::Model(_, _, _) => 13,
        EditPhase::Records(_, _) => 14,
        EditPhase::RestorePlan(_, _, _) => 15,
        EditPhase::MessageEditWritten(_, _) => 16,
        EditPhase::SupersededWritten(_, _) => 17,
        EditPhase::RestoreStartWritten(_, _) => 18,
        EditPhase::Restoration(_, _) => 19,
        EditPhase::RestoreEndWritten(_, _) => 20,
        EditPhase::TurnWritten(_, _) => 21,
        EditPhase::Sequence(_, _) => 22,
        EditPhase::TreePosition(_, _, _) => 23,
        EditPhase::EdgeWritten(_, _, _, _) => 24,
        EditPhase::LeafWritten(_, _, _, _) => 25,
        EditPhase::ItemWritten(_, _) => 26,
        EditPhase::SecondExport(_, _) => 27,
        EditPhase::StateReplaced(_, _, _) => 28,
        EditPhase::Goal(_, _, _) => 29,
        EditPhase::Spawned(_, _) => 30,
        EditPhase::Announced(_, k, _) => 31 + k,
        EditPhase::Finished => 1000,
    }
}

/// An event either does not belong to the phase and changes nothing, or takes
/// the edit strictly further: no edit goes round in circles.
pub proof fn law_edit_goes_forward(request: EditRequest, phase: EditPhase, event: EditEvent)
    ensures
        ({
            let (next, action) = edit_step(request, phase, event);
            if action is Ignore {
                next == phase
            } else {
                phase_rank(phase) < phase_rank(next)
            }
        }),
{
}

/// The expected revision of a message against the one in the history: zero
/// asks for no check.
pub open spec fn revision_check(expected: u32, found: Option<u32>) -> Option<Rejection> {
    if expected == 0 || found == Some(expected) {
        None
    } else if found is Some {
        Some(
            rejection(
                ErrorCode::WorkspaceVersionConflict,
                "item revision changed; refetch before editing",
            ),
        )
    } else {
        Some(
            rejection(
                ErrorCode::InvalidContentParts,
                "item does not exist in the canonical history",
            ),
        )
    }
}

/// Whether the first item with the id `id` stands at `i`.
pub open spec fn is_first_with_id(items: Seq<HistoryItem>, id: ItemId, i: int) -> bool {
    &&& 0 <= i < items.len()
    &&& items[i].id == id
    &&& forall|j: int| 0 <= j < i ==> #[trigger] items[j].id != id
}

/// The revision of the item `id` in the canonical history.
pub open spec fn revision_of(items: Seq<HistoryItem>, id: ItemId) -> Option<u32> {
    if exists|i: int| is_first_with_id(items, id, i) {
        Some(items[choose|i: int| is_first_with_id(items, id, i)].revision)
    } else {
        None
    }
}

/// Reads the revision of the item `id` from the canonical history.
pub fn item_revision(items: &Vec<HistoryItem>, id: ItemId) -> (r: Option<u32>)
    ensures
        r == revision_of(items@, id),
{
    let mut i: usize = 0;
    while i < items.len()
        invariant
            i <= items.len(),
            forall|j: int| 0 <= j < i ==> #[trigger] items@[j].id != id,
        decreases items@.len() - i,
    {
        if items[i].id == id {
            proof {
                assert(is_first_with_id(items@, id, i as int));
                let k = choose|k: int| is_first_with_id(items@, id, k);
                assert(is_first_with_id(items@, id, k));
                if k < i {
                    assert(items@[k].id != id);
                } else if i < k {
                    assert(items@[i as int].id != id);
                }
            }
            return Some(items[i].revision);
        }
        i = i + 1;
    }
    None
}

/// Refuses an edit of a message that is not at the expected revision.
pub fn check_revision(expected: u32, found: Option<u32>) -> (r: Option<Rejection>)
    ensures
        r == revision_check(expected, found),
{
    if expected == 0 {
        return None;
    }
    match found {
        Some(revision) => {
            if revision == expected {
                None
            } else {
                Some(
                    reject(
                        ErrorCode::WorkspaceVersionConflict,
                        "item revision changed; refetch before editing",
                    ),
                )
            }
        },
        None => Some(
            reject(
                ErrorCode::InvalidContentParts,
                "item does not exist in the canonical history",
            ),
        ),
    }
}

/// What a client is told of the edited message.
#[derive(Debug)]
pub struct EditedMessage {
    pub item: ItemId,
    pub turn: TurnId,
    pub seq: u64,
    pub revision: u64,
    pub entry: MessageEntry,
    /// The content as the client sent it.
    pub content: Vec<UserInput>,
}

/// Whether a client is told of an accepted edit: the history remains the truth,
/// so the envelope carries no sequence number, and the revision is the one
/// after the expected.
pub open spec fn tells_of_edit(
    mode: EditMode,
    content: Seq<UserInput>,
    expected_revision: u32,
    ids: EditIds,
    message: EditedMessage,
) -> bool {
    &&& message.item == ids.replacement_item
    &&& message.turn == ids.replacement_turn
    &&& message.seq == 0
    &&& message.revision == expected_revision + 1
    &&& message.entry == if mode == EditMode::Normal {
        MessageEntry::TurnStart
    } else {
        MessageEntry::Queue
    }
    &&& message.content@ == content
}

/// What a client is told of an accepted edit.
pub fn edited_message(
    mode: EditMode,
    content: &Vec<UserInput>,
    expected_revision: u32,
    ids: &EditIds,
) -> (r: EditedMessage)
    ensures
        tells_of_edit(mode, content@, expected_revision, *ids, r),
{
    EditedMessage {
        item: ids.replacement_item,
        turn: ids.replacement_turn,
        seq: 0,
        revision: expected_revision as u64 + 1,
        entry: match mode {
            EditMode::Normal => MessageEntry::TurnStart,
            EditMode::QueuedOnly => MessageEntry::Queue,
        },
        content: copy_inputs(content),
    }
}

/// The message that can be edited is the user's last one: a message that comes
/// in takes the place of the one before, and nothing else does.
pub proof fn law_the_last_message_is_edited(items: Seq<SessionItem>, item: SessionItem)
    ensures
        editable_message(Seq::empty()) is None,
        item.user_message ==> editable_message(items.push(item)) == Some(item),
        !item.user_message ==> editable_message(items.push(item)) == editable_message(items),
{
    let all = items.push(item);
    assert(!exists|i: int| is_last_user_message(Seq::<SessionItem>::empty(), i));
    if item.user_message {
        assert(is_last_user_message(all, items.len() as int));
        let k = choose|i: int| is_last_user_message(all, i);
        assert(k == items.len()) by {
            if k < items.len() {
                assert(all[items.len() as int].user_message);
            }
        }
    } else {
        assert forall|i: int| is_last_user_message(all, i) implies is_last_user_message(items, i) by {
            assert(all[items.len() as int] == item);
            assert(i < items.len());
            assert forall|j: int| i < j < items.len() implies !#[trigger] items[j].user_message by {
                assert(all[j] == items[j]);
            }
        }
        assert forall|i: int| is_last_user_message(items, i) implies is_last_user_message(all, i) by {
            assert forall|j: int| i < j < all.len() implies !#[trigger] all[j].user_message by {
                if j < items.len() {
                    assert(all[j] == items[j]);
                }
            }
        }
        if exists|i: int| is_last_user_message(items, i) {
            let k = choose|i: int| is_last_user_message(items, i);
            let l = choose|i: int| is_last_user_message(all, i);
            assert(is_last_user_message(all, k));
            assert(is_last_user_message(all, l));
            assert(k == l) by {
                if k < l {
                    assert(items[l].user_message);
                }
                if l < k {
                    assert(all[k].user_message);
                }
            }
        }
    }
}

/// In the recorded history too, the latest message of the user is the last one.
pub proof fn law_the_latest_message_is_the_last(items: Seq<HistoryItem>, item: HistoryItem)
    ensures
        latest_user_message(Seq::empty()) is None,
        item.user_message ==> latest_user_message(items.push(item)) == Some(item.id),
        !item.user_message ==> latest_user_message(items.push(item)) == latest_user_message(items),
{
    let all = items.push(item);
    assert(!exists|i: int| is_latest_user_message(Seq::<HistoryItem>::empty(), i));
    if item.user_message {
        assert(is_latest_user_message(all, items.len() as int));
        let k = choose|i: int| is_latest_user_message(all, i);
        assert(k == items.len()) by {
            if k < items.len() {
                assert(all[items.len() as int].user_message);
            }
        }
    } else {
        assert forall|i: int| is_latest_user_message(all, i) implies is_latest_user_message(
            items,
            i,
        ) by {
            assert(all[items.len() as int] == item);
            assert(i < items.len());
            assert forall|j: int| i < j < items.len() implies !#[trigger] items[j].user_message by {
                assert(all[j] == items[j]);
            }
        }
        assert forall|i: int| is_latest_user_message(items, i) implies is_latest_user_message(
            all,
            i,
        ) by {
            assert forall|j: int| i < j < all.len() implies !#[trigger] all[j].user_message by {
                if j < items.len() {
                    assert(all[j] == items[j]);
                }
            }
        }
        if exists|i: int| is_latest_user_message(items, i) {
            let k = choose|i: int| is_latest_user_message(items, i);
            let l = choose|i: int| is_latest_user_message(all, i);
            assert(is_latest_user_message(all, k));
            assert(is_latest_user_message(all, l));
            assert(k == l) by {
                if k < l {
                    assert(items[l].user_message);
                }
                if l < k {
                    assert(all[k].user_message);
                }
            }
        }
    }
}

/// The message that an edit replaces is the user's last one, of a session that
/// is kept and in which no turn runs, and it is the one that the client expects
/// where it says so. The replacement is the next turn of the session.
pub proof fn law_edits_are_aimed_at_the_expected_message(
    request: EditRequest,
    session: SessionExport,
    r: Result<EditTarget, Rejection>,
)
    requires
        r == edit_target(request, session),
    ensures
        ({
            let message = editable_message(session.items@);
            let expected = if request.expected_target is Some {
                request.expected_target
            } else {
                request.target
            };
            let meant = expected is None || (message is Some && expected->0 == message->0.item);
            &&& r is Ok <==> !session.turn_active && message is Some && meant && session.durable
            &&& session.turn_active ==> r->Err_0.code is ActiveTurnEditRejected
            &&& !session.turn_active && message is None ==> r->Err_0.code
                is OlderMessageRequiresFork
            &&& !session.turn_active && message is Some && !meant ==> r->Err_0.code
                is ExpectedTargetMessageMismatch
            &&& !session.turn_active && message is Some && meant && !session.durable
                ==> r->Err_0.code is InternalError
            &&& r matches Ok(target) ==> {
                &&& target.item == message->0.item
                &&& target.turn == message->0.turn
                &&& session.latest_sequence is None ==> target.sequence == 1
                &&& session.latest_sequence is Some ==> target.sequence
                    == session.latest_sequence->0 + 1
                &&& request.restore is None ==> target.policy is Safe
                &&& request.restore is Some ==> target.policy == request.restore->0
            }
        }),
{
}

/// An edit of a session at rest is checked in order, and goes by the model and
/// the effort of the session itself: its binding, else its model.
pub proof fn law_edits_run_with_the_sessions_model(
    request: EditRequest,
    input: ResolvedInput,
    session: SessionExport,
    model: TurnModel,
)
    requires
        request.mode is Normal,
        edit_target(request, session) is Ok,
    ensures
        ({
            let target = edit_target(request, session)->Ok_0;
            let a = edit_step(request, EditPhase::Content, EditEvent::Content(EditContent::Ready));
            let b = edit_step(request, a.0, EditEvent::SessionFound(true));
            let c = edit_step(request, b.0, EditEvent::ActiveTurn(None));
            let d = edit_step(request, c.0, EditEvent::Done);
            let e = edit_step(request, d.0, EditEvent::ActiveTurn(None));
            let f = edit_step(request, e.0, EditEvent::HookContextFound(true));
            let g = edit_step(request, f.0, EditEvent::Resolved(InputResolution::Ready(input)));
            let h = edit_step(request, g.0, EditEvent::HookRan(None));
            let i = edit_step(request, h.0, EditEvent::MentionsDecoded(None));
            let j = edit_step(request, i.0, EditEvent::Exported(Some(session)));
            let k = edit_step(request, j.0, EditEvent::ModelResolved(model));
            &&& a.1 is FindSession
            &&& b.1 is ReadActiveTurn
            &&& c.1 is LockState
            &&& d.1 is ReadActiveTurn
            &&& e.1 is ReadHookContext
            &&& f.1 is ResolveInput
            &&& g.1 == EditOrder::RunPromptHook(input.text)
            &&& h.1 is DecodeMentions
            &&& i.1 is ExportSession
            &&& j.1 matches EditAction::ResolveModel(asked) && {
                &&& session.choice.binding is Some ==> asked.model == session.choice.binding
                &&& session.choice.binding is None ==> asked.model == session.choice.model
                &&& asked.effort == session.choice.effort
            }
            &&& k.1 == EditOrder::CreateRecords {
                target: target.item,
                turn: target.turn,
                policy: target.policy,
            }
            &&& k.0 == EditPhase::Records(target, EditWork { input, mode: session.mode, model })
        }),
{
}

/// An edit of the message of a turn that runs interrupts that turn, where it
/// expects that very message, and ends its commands before it goes on.
pub proof fn law_edits_interrupt_the_turn_they_replace(
    request: EditRequest,
    turn: TurnId,
    items: Vec<HistoryItem>,
    expected: ItemId,
)
    requires
        request.expected_target == Some(expected) || (request.expected_target is None
            && request.target == Some(expected)),
    ensures
        ({
            let c = edit_step(request, EditPhase::ActiveTurn, EditEvent::ActiveTurn(Some(turn)));
            let d = edit_step(request, c.0, EditEvent::History(items));
            let e = edit_step(request, d.0, EditEvent::Interrupted);
            let f = edit_step(request, e.0, EditEvent::Done);
            &&& c.1 is LoadHistory
            &&& latest_user_message(items@) == Some(expected) ==> d.1
                == EditOrder::InterruptTurn { turn } && e.1 is TerminateCommands && f.1 is LockState
            &&& latest_user_message(items@) is None ==> (d.1 matches EditAction::Reject(why)
                && why.code is OlderMessageRequiresFork)
            &&& latest_user_message(items@) is Some && latest_user_message(items@)->0 != expected
                ==> (d.1 matches EditAction::Reject(why) && why.code
                is ExpectedTargetMessageMismatch)
        }),
{
}

/// What stands in the way of an edit is answered with its code and its words.
pub proof fn law_edits_are_refused_for_a_reason(
    request: EditRequest,
    input: ResolvedInput,
    kind: SkillFailure,
    turn: TurnId,
    why: Rejection,
    error: String,
)
    ensures
        edit_step(
            request,
            EditPhase::Content,
            EditEvent::Content(EditContent::Invalid(error)),
        ).1 matches EditAction::Reject(told) && told.code is InvalidContentParts && told.detail
            == Some(error),
        edit_step(request, EditPhase::Content, EditEvent::Content(EditContent::Empty)).1 matches
            EditAction::Reject(told) && told.code is InvalidContentParts,
        edit_step(request, EditPhase::Session, EditEvent::SessionFound(false)).1 matches
            EditAction::Reject(told) && told.code is SessionNotFound,
        request.expected_target is None && request.target is None ==> (edit_step(
            request,
            EditPhase::ActiveTurn,
            EditEvent::ActiveTurn(Some(turn)),
        ).1 matches EditAction::Reject(told) && told.code is InvalidContentParts),
        edit_step(request, EditPhase::Interruption, EditEvent::InterruptRefused(why)).1
            == EditOrder::Reject(why),
        edit_step(request, EditPhase::StillActive, EditEvent::ActiveTurn(Some(turn))).1 matches
            EditAction::Reject(told) && told.code is ActiveTurnEditRejected,
        edit_step(request, EditPhase::HookContext, EditEvent::HookContextFound(false)).1 matches
            EditAction::Reject(told) && told.code is SessionNotFound,
        edit_step(
            request,
            EditPhase::Resolution,
            EditEvent::Resolved(InputResolution::Empty),
        ).1 matches EditAction::Reject(told) && told.code is InvalidContentParts,
        edit_step(
            request,
            EditPhase::Resolution,
            EditEvent::Resolved(InputResolution::Failed(kind, error)),
        ).1 matches EditAction::Reject(told) && told.detail == Some(error) && (kind is NotFound
            || kind is Ambiguous || kind is Disabled ==> told.code is InvalidParams) && (kind
            is ParseFailed || kind is RootUnavailable || kind is DuplicateId ==> told.code
            is InternalError),
        edit_step(request, EditPhase::PromptHook(input), EditEvent::HookRan(Some(error))).1 matches
            EditAction::Reject(told) && told.code is PolicyDenied && told.detail == Some(error),
        edit_step(
            request,
            EditPhase::Mentions(input),
            EditEvent::MentionsDecoded(Some(error)),
        ).1 matches EditAction::Reject(told) && told.code is InvalidMentions && told.detail == Some(
            error,
        ),
        request.mode is QueuedOnly ==> (edit_step(
            request,
            EditPhase::Mentions(input),
            EditEvent::MentionsDecoded(None),
        ).1 matches EditAction::Reject(told) && told.code is WorkspaceRestoreFailedToStart),
        edit_step(request, EditPhase::Export(input), EditEvent::Exported(None)).1 matches
            EditAction::Reject(told) && told.code is SessionNotFound,
{
}

/// An edit is recorded piece by piece: the edit with its text and its author,
/// the turn that is superseded and by which, the restoration of the files unless
/// it is to be skipped, the replacement turn, where it hangs in the tree, the
/// new leaf, and the message itself.
pub proof fn law_edits_are_recorded_in_full(
    request: EditRequest,
    target: EditTarget,
    work: EditWork,
    ids: EditIds,
    restore: u128,
    outcomes: Vec<FileOutcome>,
    seq: u64,
    recorded: Option<ItemId>,
    items: Vec<HistoryItem>,
    epoch: u64,
)
    requires
        epoch < u64::MAX,
    ensures
        ({
            let skips = target.policy is Skip;
            let a = edit_step(
                request,
                EditPhase::Records(target, work),
                EditEvent::RecordsCreated(EditRecords::Pair(ids)),
            );
            let b = if skips {
                a
            } else {
                edit_step(request, a.0, EditEvent::RestorePlanned(Some(restore)))
            };
            let c = edit_step(request, b.0, EditEvent::Written(None));
            let d = edit_step(request, c.0, EditEvent::Written(None));
            let e = if skips {
                d
            } else {
                edit_step(request, d.0, EditEvent::Written(None))
            };
            let f = if skips {
                d
            } else {
                edit_step(request, e.0, EditEvent::RestoreApplied(Some(outcomes)))
            };
            let g = if skips {
                d
            } else {
                edit_step(request, f.0, EditEvent::Written(None))
            };
            let h = edit_step(request, g.0, EditEvent::Written(None));
            let i = edit_step(request, h.0, EditEvent::SequenceAllocated(seq));
            let j = edit_step(
                request,
                i.0,
                EditEvent::TreeRead { recorded_parent: recorded, items, leaf_epoch: epoch },
            );
            let k = edit_step(request, j.0, EditEvent::Written(None));
            let l = edit_step(request, k.0, EditEvent::Written(None));
            let m = edit_step(request, l.0, EditEvent::Written(None));
            let parent = if recorded is Some {
                recorded
            } else {
                previous_visible(items@, target.item)
            };
            &&& !skips ==> a.1 == EditOrder::PlanRestore { turn: target.turn, policy: target.policy }
            &&& b.1 == EditOrder::Append(
                RecordOrder::MessageEdit {
                    edit: ids.edit,
                    target: target.item,
                    replacement: ids.replacement_item,
                    text: request.display,
                    client: request.client,
                },
            )
            &&& c.1 == EditOrder::Append(
                RecordOrder::TurnSuperseded {
                    turn: target.turn,
                    successor: ids.replacement_turn,
                    restore_plan: if skips {
                        None
                    } else {
                        Some(restore)
                    },
                },
            )
            &&& !skips ==> d.1 == EditOrder::Append(RecordOrder::RestoreStarted { restore })
            &&& !skips ==> e.1 is ApplyRestore
            &&& !skips ==> f.1 == EditOrder::Append(
                RecordOrder::RestoreCompleted { restore, outcomes },
            )
            &&& g.1 == EditOrder::Append(
                RecordOrder::ReplacementTurn {
                    turn: ids.replacement_turn,
                    sequence: target.sequence,
                    model: work.model,
                },
            )
            &&& h.1 is AllocateSequence
            &&& i.1 is ReadTree
            &&& j.1 == EditOrder::Append(
                RecordOrder::TreeEdge { item: ids.replacement_item, parent },
            )
            &&& k.1 matches EditAction::Append(EditRecord::SessionLeaf { leaf, epoch: next })
                && leaf == ids.replacement_item && next == epoch + 1
            &&& l.1 == EditOrder::Append(
                RecordOrder::ReplacementItem {
                    item: ids.replacement_item,
                    seq,
                    parent,
                    message: (),
                },
            )
            &&& m.1 is ReexportSession
            &&& m.0 matches EditPhase::SecondExport(plan, kept) && {
                &&& plan.target == target && plan.ids == ids && kept == work
                &&& skips ==> plan.restore is None && !plan.restored
                &&& !skips ==> plan.restore == Some(restore) && plan.restored == all_handled(
                    outcomes@,
                )
            }
        }),
{
}

/// A record that cannot be written ends the edit, with the words of the
/// failure.
pub proof fn law_unwritten_records_end_the_edit(
    request: EditRequest,
    phase: EditPhase,
    error: String,
)
    requires
        phase is MessageEditWritten || phase is SupersededWritten || phase is RestoreStartWritten
            || phase is RestoreEndWritten || phase is TurnWritten || phase is EdgeWritten || phase
            is LeafWritten || phase is ItemWritten,
    ensures
        ({
            let step = edit_step(request, phase, EditEvent::Written(Some(error)));
            &&& step.0 is Finished
            &&& step.1 matches EditAction::Reject(why) && why.detail == Some(error) && (phase
                is RestoreStartWritten ==> why.code is WorkspaceRestoreFailedToStart) && (!(phase
                is RestoreStartWritten) ==> why.code is InternalError)
        }),
{
}

/// A recorded edit takes effect: the session's state is replaced, the turn is
/// run, and each thing that happened is announced in order before the edit is
/// accepted.
pub proof fn law_recorded_edits_take_effect(
    request: EditRequest,
    plan: EditPlan,
    work: EditWork,
    session: SessionState,
    now: i64,
    goal: Option<Goal>,
)
    ensures
        ({
            let a = edit_step(
                request,
                EditPhase::SecondExport(plan, work),
                EditEvent::SessionReexported(Some(session), now),
            );
            let b = edit_step(request, a.0, EditEvent::Done);
            let c = edit_step(request, b.0, EditEvent::Goal(goal));
            let d = edit_step(request, c.0, EditEvent::Done);
            let e = edit_step(request, d.0, EditEvent::Done);
            let f = if plan.restore is Some {
                edit_step(request, e.0, EditEvent::Done)
            } else {
                e
            };
            let g = if plan.restore is Some {
                edit_step(request, f.0, EditEvent::Done)
            } else {
                e
            };
            let h = edit_step(request, g.0, EditEvent::Done);
            let i = edit_step(request, h.0, EditEvent::Done);
            let j = edit_step(request, i.0, EditEvent::Done);
            let k = edit_step(request, j.0, EditEvent::Done);
            let l = edit_step(request, k.0, EditEvent::Done);
            &&& a.1 is ReplaceState
            &&& b.1 is ReadGoal
            &&& c.1 == EditOrder::SpawnTurn { turn: plan.ids.replacement_turn, work: () }
            &&& d.1 == EditOrder::Announce(
                NoticeOrder::EditRecorded {
                    edit: plan.ids.edit,
                    target: plan.target.item,
                    replacement: plan.ids.replacement_item,
                    preview: request.display,
                },
            )
            &&& e.1 == EditOrder::Announce(
                NoticeOrder::TurnSuperseded {
                    turn: plan.target.turn,
                    successor: plan.ids.replacement_turn,
                },
            )
            &&& plan.restore is Some ==> f.1 == EditOrder::Announce(
                NoticeOrder::RestoreStarted { edit: plan.ids.edit },
            ) && g.1 == EditOrder::Announce(
                NoticeOrder::RestoreCompleted { edit: plan.ids.edit, succeeded: plan.restored },
            )
            &&& h.1 == EditOrder::Announce(NoticeOrder::StatusChanged)
            &&& i.1 == EditOrder::Announce(
                NoticeOrder::TurnStarted { turn: plan.ids.replacement_turn },
            )
            &&& j.1 == EditOrder::Announce(
                NoticeOrder::ItemStarted { item: plan.ids.replacement_item, message: () },
            )
            &&& k.1 == EditOrder::Announce(
                NoticeOrder::ItemCompleted { item: plan.ids.replacement_item, message: () },
            )
            &&& l.1 matches EditAction::Accept { ids, state } && ids == plan.ids && state@
                == "accepted"@
        }),
{
}

/// What the replacement turn runs is the edited message: its parts and its
/// text, what it was resolved to, the mode and the model, and the goal of the
/// session or a stand-in for it. What is recorded and announced of it is the
/// same message.
pub proof fn law_replacements_hold_the_edited_message(
    request: EditRequest,
    work: EditWork,
    goal: Option<Goal>,
    now: i64,
    turn: EditedTurn,
    message: EditedContent,
)
    requires
        runs_content(request, work, goal_for(goal, now), turn),
        holds_content(request, work, message),
    ensures
        turn.input@ == request.content@,
        turn.display == request.display,
        turn.mode == work.mode,
        turn.model == work.model,
        goal is Some ==> turn.goal == ReplacementGoal::Current(goal->0),
        goal is None ==> (turn.goal matches ReplacementGoal::StandIn { objective, at } && at == now),
        message.input@ == request.content@,
        message.text == request.display,
        message.images@ == work.input.images@,
        message.entry is TurnStart,
{
}

/// An edited session keeps every item of every other turn, in order, and ends
/// in the replacement message.
pub proof fn law_edited_sessions_keep_the_other_turns(
    plan: EditPlan,
    before: SessionState,
    now: i64,
    after: SessionState,
    item: SessionItem,
)
    requires
        is_edited_session(plan, before, now, after),
        before.items@.contains(item),
        item.turn != plan.target.turn,
    ensures
        after.items@.contains(item),
        after.items@.last() == (SessionItem {
            turn: plan.ids.replacement_turn,
            item: plan.ids.replacement_item,
            user_message: true,
        }),
        after.active == Some(
            ActiveTurn { turn: plan.ids.replacement_turn, sequence: plan.target.sequence },
        ),
        after.updated_at == now,
        after.last_activity_at == now,
{
    let keeps = |item: SessionItem| item.turn != plan.target.turn;
    let at = choose|k: int| 0 <= k < before.items@.len() && before.items@[k] == item;
    before.items@.lemma_filter_contains(keeps, at);
    let kept = before.items@.filter(keeps);
    let i = choose|i: int| 0 <= i < kept.len() && kept[i] == item;
    assert(kept.push(replacement_entry(plan))[i] == item);
}

/// An edit is made to the revision that the client saw, where it says which.
pub proof fn law_edits_expect_a_revision(expected: u32, found: Option<u32>)
    ensures
        revision_check(expected, found) is None <==> expected == 0 || found == Some(expected),
        expected != 0 && found is None ==> revision_check(expected, found)->0.code
            is InvalidContentParts,
        expected != 0 && found is Some && found->0 != expected ==> revision_check(
            expected,
            found,
        )->0.code is WorkspaceVersionConflict,
{
}

/// What the client is told of an edited message is the message in its next
/// revision.
pub proof fn law_edited_messages_are_told(
    mode: EditMode,
    content: Seq<UserInput>,
    revision: u32,
    ids: EditIds,
    message: EditedMessage,
)
    requires
        tells_of_edit(mode, content, revision, ids, message),
    ensures
        message.item == ids.replacement_item,
        message.turn == ids.replacement_turn,
        message.revision == revision + 1,
        message.content@ == content,
        mode is Normal ==> message.entry is TurnStart,
        mode is QueuedOnly ==> message.entry is Queue,
{
}

/// In a history whose visible entries stand in their order, the entry before
/// another is the one that stands before it, also where both have one number.
pub proof fn law_the_previous_entry_stands_before(items: Seq<HistoryItem>, i: int)
    requires
        0 <= i < items.len(),
        forall|a: int| 0 <= a < items.len() ==> (#[trigger] items[a]).tree_visible,
        forall|a: int, b: int|
            0 <= a < b < items.len() ==> (#[trigger] items[a]).seq <= (#[trigger] items[b]).seq
                && items[a].id != items[b].id,
    ensures
        i > 0 ==> previous_visible(items, items[i].id) == Some(items[i - 1].id),
        i == 0 ==> previous_visible(items, items[i].id) is None,
{
    let id = items[i].id;
    assert forall|a: int, b: int| 0 <= a < items.len() && 0 <= b < items.len() && a
        != b implies (#[trigger] comes_before(items, a, b) <==> a < b) by {
        if a < b {
            assert(items[a].seq <= items[b].seq);
        } else {
            assert(items[b].seq <= items[a].seq);
        }
    }
    assert forall|k: int| is_tree_entry(items, id, k) implies k == i by {
        if k < i {
            assert(items[k].id != items[i].id);
        }
        if k > i {
            assert(items[i].id != items[k].id);
        }
    }
    assert forall|p: int| is_tree_predecessor(items, i, p) implies p == i - 1 by {
        assert(p != i);
        assert(p < i);
        if p < i - 1 {
            assert(items[i - 1].tree_visible);
            assert(comes_before(items, i - 1, i));
            assert(comes_before(items, i - 1, p));
        }
    }
    if i > 0 {
        assert(is_tree_entry(items, id, i)) by {
            assert forall|j: int|
                0 <= j < items.len() && #[trigger] items[j].tree_visible && items[j].id == id && j
                    != i implies comes_before(items, i, j) by {
                if j < i {
                    assert(items[j].id != items[i].id);
                } else {
                    assert(items[i].id != items[j].id);
                }
            }
        }
        assert(is_tree_predecessor(items, i, i - 1)) by {
            assert(comes_before(items, i - 1, i));
            assert forall|j: int|
                0 <= j < items.len() && #[trigger] items[j].tree_visible && comes_before(
                    items,
                    j,
                    i,
                ) && j != i - 1 implies comes_before(items, j, i - 1) by {
                assert(j != i);
                assert(j < i);
            }
        }
    } else {
        assert forall|k: int, p: int| !(is_tree_entry(items, id, k) && is_tree_predecessor(
            items,
            k,
            p,
        )) by {}
    }
}

/// What the session becomes by an edit: its prompts are those of the edited
/// message, and it counts the turns before it.
pub proof fn law_edited_sessions_have_the_new_prompt(
    request: EditRequest,
    plan: EditPlan,
    work: EditWork,
    before: SessionState,
    now: i64,
    step: (EditPhase, EditAction),
)
    requires
        is_edit_step(
            request,
            EditPhase::SecondExport(plan, work),
            EditEvent::SessionReexported(Some(before), now),
            step,
        ),
    ensures
        step.1 matches EditAction::ReplaceState(after) && {
            &&& work.input.messages@.len() > 0 ==> after.prompts@ == work.input.messages@
            &&& work.input.messages@.len() == 0 ==> after.prompts@ == seq![work.input.text]
            &&& after.session.turn_count == (user_message_count(after.session.items@) - 1) as usize
            &&& after.session.counters == before.counters
            &&& after.session.occupancy == before.occupancy
            &&& after.session.latest == before.latest
        },
{
}

/// Messages of the user are counted, and nothing else is.
pub proof fn law_user_messages_are_counted(items: Seq<SessionItem>, item: SessionItem)
    ensures
        user_message_count(Seq::empty()) == 0,
        item.user_message ==> user_message_count(items.push(item)) == user_message_count(items) + 1,
        !item.user_message ==> user_message_count(items.push(item)) == user_message_count(items),
{
    reveal(Seq::filter);
    assert(items.push(item).drop_last() =~= items);
}

/// The revision of an item is that of the first entry under its name.
pub proof fn law_revisions_are_found(items: Seq<HistoryItem>, i: int)
    requires
        0 <= i < items.len(),
        forall|j: int| 0 <= j < i ==> (#[trigger] items[j]).id != items[i].id,
    ensures
        revision_of(items, items[i].id) == Some(items[i].revision),
{
    let id = items[i].id;
    assert(is_first_with_id(items, id, i));
    let k = choose|k: int| is_first_with_id(items, id, k);
    assert(is_first_with_id(items, id, k));
    if k < i {
        assert(items[k].id != id);
    }
    if i < k {
        assert(items[i].id != id);
    }
}

} // verus!
