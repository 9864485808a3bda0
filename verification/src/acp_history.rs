//! The history of a session as the updates that an editor shows.

use crate::inputs::UserInput;
use crate::json::{
    copy_opt_value, copy_value, null_value, opt_tree, show_value, shown_json, value_tree, JsonTree,
};
use crate::text::{decimal, decimal_text, join, joined, opt_view, texts};
use vstd::prelude::*;

verus! {

/// How far a step of a plan is.
#[derive(Clone, Copy, Debug, PartialEq, Eq, Structural)]
pub enum PlanStepStatus {
    Completed,
    InProgress,
    Pending,
}

/// A step of a plan.
#[derive(Debug)]
pub struct PlanStep {
    pub step: String,
    pub status: PlanStepStatus,
}

/// An item of a history.
#[derive(Debug)]
pub enum HistoryItem {
    UserMessage { content: Vec<UserInput> },
    AssistantMessage { text: String },
    HostedToolCall { answer: Option<serde_json::Value> },
    Reasoning { text: String },
    Plan { entries: Vec<PlanStep> },
    ToolCall { call_id: String, tool_name: String, input: Option<serde_json::Value> },
    ToolResult {
        call_id: String,
        output: serde_json::Value,
        display_content: Option<String>,
        is_error: bool,
    },
    CommandExecution {
        call_id: String,
        command: String,
        input: Option<serde_json::Value>,
        result: Option<serde_json::Value>,
        is_error: bool,
    },
    ContextCompaction,
    Warning { code: String, message: String },
    Other,
}

/// An entry of a history. The duration of a turn is in seconds.
#[derive(Debug)]
pub enum HistoryEntry {
    Item { item: HistoryItem },
    TurnSummary { body: String, duration: Option<u64> },
    Error { title: String, body: String },
}

/// What goes along with an update: where in the history it comes from, the
/// message that it belongs to, and how long the turn took in milliseconds.
#[derive(Clone, Debug, PartialEq, Eq)]
pub struct HistoryMeta {
    pub index: usize,
    pub parent: Option<String>,
    pub duration_ms: Option<u64>,
}

/// What goes along with an update.
pub struct MetaModel {
    pub index: usize,
    pub parent: Option<Seq<char>>,
    pub duration_ms: Option<u64>,
}

impl View for HistoryMeta {
    type V = MetaModel;

    open spec fn view(&self) -> MetaModel {
        MetaModel {
            index: self.index,
            parent: opt_view(self.parent),
            duration_ms: self.duration_ms,
        }
    }
}

/// A call of a tool.
#[derive(Debug)]
pub struct ToolCall {
    pub id: String,
    pub title: String,
    pub raw_input: serde_json::Value,
}

/// What became of a call of a tool.
#[derive(Debug)]
pub struct ToolUpdate {
    pub id: String,
    pub title: String,
    /// Whether the tool ran a command.
    pub executes: bool,
    pub failed: bool,
    pub raw_input: Option<serde_json::Value>,
    pub raw_output: Option<serde_json::Value>,
    pub text: String,
}

/// An update that an editor shows.
#[derive(Debug)]
pub enum HistoryUpdate {
    UserMessageChunk { text: String, message_id: String, meta: HistoryMeta },
    AgentMessageChunk { text: String, message_id: String, meta: HistoryMeta },
    AgentThoughtChunk { text: String, message_id: String, meta: HistoryMeta },
    Plan { entries: Vec<PlanStep>, meta: HistoryMeta },
    ToolCall { call: ToolCall, meta: HistoryMeta },
    ToolCallUpdate { update: ToolUpdate, meta: HistoryMeta },
}

/// What an update says.
pub enum UpdateModel {
    User(Seq<char>, Seq<char>, MetaModel),
    Agent(Seq<char>, Seq<char>, MetaModel),
    Thought(Seq<char>, Seq<char>, MetaModel),
    Plan(Seq<PlanStep>, MetaModel),
    ToolCall { id: Seq<char>, title: Seq<char>, input: JsonTree, meta: MetaModel },
    ToolUpdate {
        id: Seq<char>,
        title: Seq<char>,
        executes: bool,
        failed: bool,
        raw_input: Option<JsonTree>,
        raw_output: Option<JsonTree>,
        text: Seq<char>,
        meta: MetaModel,
    },
}

impl View for HistoryUpdate {
    type V = UpdateModel;

    open spec fn view(&self) -> UpdateModel {
        match *self {
            HistoryUpdate::UserMessageChunk { text, message_id, meta } => UpdateModel::User(
                text@,
                message_id@,
                meta@,
            ),
            HistoryUpdate::AgentMessageChunk { text, message_id, meta } => UpdateModel::Agent(
                text@,
                message_id@,
                meta@,
            ),
            HistoryUpdate::AgentThoughtChunk { text, message_id, meta } => UpdateModel::Thought(
                text@,
                message_id@,
                meta@,
            ),
            HistoryUpdate::Plan { entries, meta } => UpdateModel::Plan(entries@, meta@),
            HistoryUpdate::ToolCall { call, meta } => UpdateModel::ToolCall {
                id: call.id@,
                title: call.title@,
                input: value_tree(call.raw_input),
                meta: meta@,
            },
            HistoryUpdate::ToolCallUpdate { update, meta } => UpdateModel::ToolUpdate {
                id: update.id@,
                title: update.title@,
                executes: update.executes,
                failed: update.failed,
                raw_input: opt_tree(update.raw_input),
                raw_output: opt_tree(update.raw_output),
                text: update.text@,
                meta: meta@,
            },
        }
    }
}

/// How the entry at `index` is called.
pub open spec fn entry_name(index: usize) -> Seq<char> {
    "history-"@ + decimal(index as nat)
}

fn name_entry(index: usize) -> (r: String)
    ensures
        r@ == entry_name(index),
{
    let mut name = "history-".to_owned();
    name.append(decimal_text(index as u64).as_str());
    name
}

/// What goes along with the update for an entry.
pub open spec fn meta_of(index: usize, parent: Option<Seq<char>>) -> MetaModel {
    MetaModel { index, parent, duration_ms: None }
}

/// What goes along with the update for the entry at `index`.
pub fn history_meta(index: usize, parent_message_id: Option<&str>) -> (r: HistoryMeta)
    ensures
        r@ == meta_of(
            index,
            match parent_message_id {
                Some(parent) => Some(parent@),
                None => None,
            },
        ),
{
    let parent = match parent_message_id {
        Some(parent) => Some(parent.to_owned()),
        None => None,
    };
    HistoryMeta { index, parent, duration_ms: None }
}

/// The text of a part that is a text.
pub open spec fn part_text(part: UserInput) -> Option<Seq<char>> {
    match part {
        UserInput::Text(text) => Some(text@),
        _ => None,
    }
}

/// The texts among the parts of a message.
pub open spec fn part_texts(content: Seq<UserInput>) -> Seq<Seq<char>>
    decreases content.len(),
{
    if content.len() == 0 {
        Seq::empty()
    } else {
        let before = part_texts(content.drop_last());
        match part_text(content.last()) {
            Some(text) => before.push(text),
            None => before,
        }
    }
}

/// The text of a message: its texts, each on a line of its own.
pub fn user_text_from_content(content: &Vec<UserInput>) -> (r: String)
    ensures
        r@ == joined(part_texts(content@), "\n"@),
{
    let mut found: Vec<String> = Vec::new();
    let mut i: usize = 0;
    assert(content@.take(0) =~= Seq::empty());
    assert(texts(found@) =~= Seq::empty());
    while i < content.len()
        invariant
            i <= content@.len(),
            texts(found@) == part_texts(content@.take(i as int)),
        decreases content@.len() - i,
    {
        let ghost before = found@;
        assert(content@.take(i + 1).drop_last() =~= content@.take(i as int));
        assert(content@.take(i + 1).last() == content@[i as int]);
        match &content[i] {
            UserInput::Text(text) => {
                found.push(text.clone());
                assert(texts(found@) =~= texts(before).push(text@));
            },
            _ => {},
        }
        i = i + 1;
    }
    assert(content@.take(content@.len() as int) =~= content@);
    join(&found, "\n")
}

/// The text of a value that may be absent.
pub open spec fn shown_or_empty(value: Option<JsonTree>) -> Seq<char> {
    match value {
        Some(tree) => shown_json(tree),
        None => Seq::empty(),
    }
}

fn show_or_empty(value: &Option<serde_json::Value>) -> (r: String)
    ensures
        r@ == shown_or_empty(opt_tree(*value)),
{
    match value {
        Some(value) => show_value(value),
        None => {
            let r = String::new();
            assert(r@ =~= Seq::empty());
            r
        },
    }
}

/// How a call is called: by its own identifier, or by the entry where it has
/// none.
pub open spec fn call_name(call_id: Seq<char>, index: usize) -> Seq<char> {
    if call_id.len() == 0 {
        entry_name(index)
    } else {
        call_id
    }
}

fn name_call(call_id: &String, index: usize) -> (r: String)
    ensures
        r@ == call_name(call_id@, index),
{
    if call_id.as_str().unicode_len() == 0 {
        name_entry(index)
    } else {
        call_id.clone()
    }
}

fn copy_steps(entries: &Vec<PlanStep>) -> (r: Vec<PlanStep>)
    ensures
        r@ == entries@,
{
    let mut steps: Vec<PlanStep> = Vec::new();
    let mut i: usize = 0;
    while i < entries.len()
        invariant
            i <= entries@.len(),
            steps@ == entries@.take(i as int),
        decreases entries@.len() - i,
    {
        steps.push(PlanStep { step: entries[i].step.clone(), status: entries[i].status });
        i = i + 1;
        assert(steps@ =~= entries@.take(i as int));
    }
    assert(entries@.take(entries@.len() as int) =~= entries@);
    steps
}

/// The update for an item, if it is shown. A message of the user belongs to no
/// other message.
pub open spec fn item_update(
    index: usize,
    item: HistoryItem,
    meta: MetaModel,
) -> Option<UpdateModel> {
    let id = entry_name(index);
    match item {
        HistoryItem::UserMessage { content } => Some(
            UpdateModel::User(joined(part_texts(content@), "\n"@), id, meta_of(index, None)),
        ),
        HistoryItem::AssistantMessage { text } => Some(UpdateModel::Agent(text@, id, meta)),
        HistoryItem::HostedToolCall { answer } => Some(
            UpdateModel::Agent(shown_or_empty(opt_tree(answer)), id, meta),
        ),
        HistoryItem::Reasoning { text } => Some(UpdateModel::Thought(text@, id, meta)),
        HistoryItem::Plan { entries } => Some(UpdateModel::Plan(entries@, meta)),
        HistoryItem::ToolCall { call_id, tool_name, input } => Some(
            UpdateModel::ToolCall {
                id: call_name(call_id@, index),
                title: tool_name@,
                input: match opt_tree(input) {
                    Some(tree) => tree,
                    None => JsonTree::Null,
                },
                meta,
            },
        ),
        HistoryItem::ToolResult { call_id, output, display_content, is_error } => Some(
            UpdateModel::ToolUpdate {
                id: call_name(call_id@, index),
                title: "Tool result"@,
                executes: false,
                failed: is_error,
                raw_input: None,
                raw_output: Some(value_tree(output)),
                text: match display_content {
                    Some(text) => text@,
                    None => shown_json(value_tree(output)),
                },
                meta,
            },
        ),
        HistoryItem::CommandExecution { call_id, command, input, result, is_error } => Some(
            UpdateModel::ToolUpdate {
                id: call_name(call_id@, index),
                title: command@,
                executes: true,
                failed: is_error,
                raw_input: opt_tree(input),
                raw_output: opt_tree(result),
                text: shown_or_empty(opt_tree(result)),
                meta,
            },
        ),
        HistoryItem::Warning { code, message } => Some(
            UpdateModel::ToolUpdate {
                id,
                title: code@,
                executes: false,
                failed: true,
                raw_input: None,
                raw_output: None,
                text: message@,
                meta,
            },
        ),
        HistoryItem::ContextCompaction | HistoryItem::Other => None,
    }
}

/// Seconds as milliseconds, as far as the counter goes.
pub open spec fn millis(seconds: u64) -> u64 {
    if seconds * 1_000 > u64::MAX {
        u64::MAX
    } else {
        (seconds * 1_000) as u64
    }
}

/// The update for an entry of the history, if it is shown.
pub open spec fn entry_update(
    index: usize,
    entry: HistoryEntry,
    parent: Option<Seq<char>>,
) -> Option<UpdateModel> {
    match entry {
        HistoryEntry::Item { item } => item_update(index, item, meta_of(index, parent)),
        HistoryEntry::TurnSummary { body, duration } => Some(
            UpdateModel::Thought(
                body@,
                entry_name(index),
                MetaModel {
                    duration_ms: match duration {
                        Some(seconds) => Some(millis(seconds)),
                        None => None,
                    },
                    ..meta_of(index, parent)
                },
            ),
        ),
        HistoryEntry::Error { title, body } => Some(
            UpdateModel::ToolUpdate {
                id: entry_name(index),
                title: title@,
                executes: false,
                failed: true,
                raw_input: None,
                raw_output: None,
                text: if body@.len() == 0 {
                    title@
                } else {
                    body@
                },
                meta: meta_of(index, parent),
            },
        ),
    }
}

/// What an update that may be absent says.
pub open spec fn update_view(update: Option<HistoryUpdate>) -> Option<UpdateModel> {
    match update {
        Some(update) => Some(update@),
        None => None,
    }
}

fn to_millis(seconds: u64) -> (r: u64)
    ensures
        r == millis(seconds),
{
    if seconds > u64::MAX / 1_000 {
        u64::MAX
    } else {
        seconds * 1_000
    }
}

fn acp_update_from_native_history_item(index: usize, item: &HistoryItem, meta: HistoryMeta) -> (r:
    Option<HistoryUpdate>)
    ensures
        update_view(r) == item_update(index, *item, meta@),
{
    let message_id = name_entry(index);
    match item {
        HistoryItem::UserMessage { content } => Some(
            HistoryUpdate::UserMessageChunk {
                text: user_text_from_content(content),
                message_id,
                meta: history_meta(index, None),
            },
        ),
        HistoryItem::AssistantMessage { text } => Some(
            HistoryUpdate::AgentMessageChunk { text: text.clone(), message_id, meta },
        ),
        HistoryItem::HostedToolCall { answer } => Some(
            HistoryUpdate::AgentMessageChunk { text: show_or_empty(answer), message_id, meta },
        ),
        HistoryItem::Reasoning { text } => Some(
            HistoryUpdate::AgentThoughtChunk { text: text.clone(), message_id, meta },
        ),
        HistoryItem::Plan { entries } => Some(
            HistoryUpdate::Plan { entries: copy_steps(entries), meta },
        ),
        HistoryItem::ToolCall { call_id, tool_name, input } => {
            let raw_input = match input {
                Some(input) => copy_value(input),
                None => null_value(),
            };
            Some(
                HistoryUpdate::ToolCall {
                    call: ToolCall {
                        id: name_call(call_id, index),
                        title: tool_name.clone(),
                        raw_input,
                    },
                    meta,
                },
            )
        },
        HistoryItem::ToolResult { call_id, output, display_content, is_error } => {
            let text = match display_content {
                Some(text) => text.clone(),
                None => show_value(output),
            };
            Some(
                HistoryUpdate::ToolCallUpdate {
                    update: ToolUpdate {
                        id: name_call(call_id, index),
                        title: "Tool result".to_owned(),
                        executes: false,
                        failed: *is_error,
                        raw_input: None,
                        raw_output: Some(copy_value(output)),
                        text,
                    },
                    meta,
                },
            )
        },
        HistoryItem::CommandExecution { call_id, command, input, result, is_error } => Some(
            HistoryUpdate::ToolCallUpdate {
                update: ToolUpdate {
                    id: name_call(call_id, index),
                    title: command.clone(),
                    executes: true,
                    failed: *is_error,
                    raw_input: copy_opt_value(input),
                    raw_output: copy_opt_value(result),
                    text: show_or_empty(result),
                },
                meta,
            },
        ),
        HistoryItem::Warning { code, message } => Some(
            HistoryUpdate::ToolCallUpdate {
                update: ToolUpdate {
                    id: message_id,
                    title: code.clone(),
                    executes: false,
                    failed: true,
                    raw_input: None,
                    raw_output: None,
                    text: message.clone(),
                },
                meta,
            },
        ),
        HistoryItem::ContextCompaction | HistoryItem::Other => None,
    }
}

/// The update that shows the entry at `index` of a history, if it is shown.
pub fn acp_update_from_history_entry(
    index: usize,
    entry: &HistoryEntry,
    parent_message_id: Option<&str>,
) -> (r: Option<HistoryUpdate>)
    ensures
        update_view(r) == entry_update(
            index,
            *entry,
            match parent_message_id {
                Some(parent) => Some(parent@),
                None => None,
            },
        ),
{
    let meta = history_meta(index, parent_message_id);
    match entry {
        HistoryEntry::Item { item } => acp_update_from_native_history_item(index, item, meta),
        HistoryEntry::TurnSummary { body, duration } => {
            let mut meta = meta;
            if let Some(seconds) = duration {
                meta.duration_ms = Some(to_millis(*seconds));
            }
            Some(
                HistoryUpdate::AgentThoughtChunk {
                    text: body.clone(),
                    message_id: name_entry(index),
                    meta,
                },
            )
        },
        HistoryEntry::Error { title, body } => {
            let text = if body.as_str().unicode_len() == 0 {
                title.clone()
            } else {
                body.clone()
            };
            Some(
                HistoryUpdate::ToolCallUpdate {
                    update: ToolUpdate {
                        id: name_entry(index),
                        title: title.clone(),
                        executes: false,
                        failed: true,
                        raw_input: None,
                        raw_output: None,
                        text,
                    },
                    meta,
                },
            )
        },
    }
}

/// No two entries of a history have one name.
pub proof fn law_entry_names_are_distinct(a: usize, b: usize)
    requires
        entry_name(a) == entry_name(b),
    ensures
        a == b,
{
    let head = "history-"@;
    assert(entry_name(a).skip(head.len() as int) =~= decimal(a as nat));
    assert(entry_name(b).skip(head.len() as int) =~= decimal(b as nat));
    crate::text::law_decimal_injective(a as nat, b as nat);
}

/// What is shown of a call is marked as failed exactly where its item is
/// recorded as an error: a tool result, and a command that was run, each under
/// the name of its call and with what came out of it.
pub proof fn law_failures_are_shown_as_failures(
    index: usize,
    item: HistoryItem,
    parent: Option<Seq<char>>,
    r: Option<HistoryUpdate>,
)
    requires
        update_view(r) == entry_update(index, (HistoryEntry::Item { item }), parent),
    ensures
        item matches HistoryItem::ToolResult { call_id, output, display_content, is_error } ==> (
        r matches Some(HistoryUpdate::ToolCallUpdate { update, meta }) && {
            &&& update.failed <==> is_error
            &&& !update.executes
            &&& call_id@.len() > 0 ==> update.id@ == call_id@
            &&& update.raw_output is Some && value_tree(update.raw_output->0) == value_tree(output)
            &&& update.raw_input is None
            &&& display_content is Some ==> update.text@ == display_content->0@
            &&& display_content is None ==> update.text@ == shown_json(value_tree(output))
            &&& meta.index == index && opt_view(meta.parent) == parent && meta.duration_ms is None
        }),
        item matches HistoryItem::CommandExecution { call_id, command, input, result, is_error }
            ==> (r matches Some(HistoryUpdate::ToolCallUpdate { update, meta }) && {
            &&& update.failed <==> is_error
            &&& update.executes
            &&& update.title@ == command@
            &&& call_id@.len() > 0 ==> update.id@ == call_id@
            &&& update.raw_input is Some <==> input is Some
            &&& input is Some ==> value_tree(update.raw_input->0) == value_tree(input->0)
            &&& update.raw_output is Some <==> result is Some
            &&& result is Some ==> value_tree(update.raw_output->0) == value_tree(result->0)
                && update.text@ == shown_json(value_tree(result->0))
            &&& result is None ==> update.text@.len() == 0
            &&& meta.index == index && opt_view(meta.parent) == parent && meta.duration_ms is None
        }),
{
}

/// What was said and thought, what was planned and which tools were called are
/// shown as they are recorded, below the message that they answer; a message of
/// the user is below none. Compactions and what has no form of its own are not
/// shown.
pub proof fn law_items_are_shown_as_recorded(
    index: usize,
    item: HistoryItem,
    parent: Option<Seq<char>>,
    r: Option<HistoryUpdate>,
)
    requires
        update_view(r) == entry_update(index, (HistoryEntry::Item { item }), parent),
    ensures
        r is None <==> item is ContextCompaction || item is Other,
        item matches HistoryItem::UserMessage { content } ==> (r matches Some(
            HistoryUpdate::UserMessageChunk { text, message_id, meta },
        ) && text@ == joined(part_texts(content@), "\n"@) && meta.index == index && meta.parent
            is None && meta.duration_ms is None),
        item matches HistoryItem::AssistantMessage { text: said } ==> (r matches Some(
            HistoryUpdate::AgentMessageChunk { text, message_id, meta },
        ) && text@ == said@ && meta.index == index && opt_view(meta.parent) == parent),
        item matches HistoryItem::HostedToolCall { answer } ==> (r matches Some(
            HistoryUpdate::AgentMessageChunk { text, message_id, meta },
        ) && (answer is Some ==> text@ == shown_json(value_tree(answer->0))) && (answer is None
            ==> text@.len() == 0) && meta.index == index && opt_view(meta.parent) == parent),
        item matches HistoryItem::Reasoning { text: thought } ==> (r matches Some(
            HistoryUpdate::AgentThoughtChunk { text, message_id, meta },
        ) && text@ == thought@ && meta.index == index && opt_view(meta.parent) == parent
            && meta.duration_ms is None),
        item matches HistoryItem::Plan { entries: steps } ==> (r matches Some(
            HistoryUpdate::Plan { entries, meta },
        ) && entries@ == steps@ && meta.index == index && opt_view(meta.parent) == parent),
        item matches HistoryItem::ToolCall { call_id, tool_name, input } ==> (r matches Some(
            HistoryUpdate::ToolCall { call, meta },
        ) && {
            &&& call_id@.len() > 0 ==> call.id@ == call_id@
            &&& call.title@ == tool_name@
            &&& input is Some ==> value_tree(call.raw_input) == value_tree(input->0)
            &&& input is None ==> value_tree(call.raw_input) is Null
            &&& meta.index == index && opt_view(meta.parent) == parent
        }),
        item matches HistoryItem::Warning { code, message } ==> (r matches Some(
            HistoryUpdate::ToolCallUpdate { update, meta },
        ) && {
            &&& update.failed && !update.executes
            &&& update.title@ == code@ && update.text@ == message@
            &&& update.raw_input is None && update.raw_output is None
            &&& meta.index == index && opt_view(meta.parent) == parent
        }),
{
}

/// The end of a turn is shown as a thought, with how long the turn took, in
/// thousandths of a second; an error is shown as a failed call that tells what
/// went wrong, and its title where it tells no more.
pub proof fn law_summaries_and_errors_are_shown(
    index: usize,
    entry: HistoryEntry,
    parent: Option<Seq<char>>,
    r: Option<HistoryUpdate>,
)
    requires
        update_view(r) == entry_update(index, entry, parent),
    ensures
        entry matches HistoryEntry::TurnSummary { body, duration } ==> (r matches Some(
            HistoryUpdate::AgentThoughtChunk { text, message_id, meta },
        ) && {
            &&& text@ == body@
            &&& meta.index == index && opt_view(meta.parent) == parent
            &&& duration is None ==> meta.duration_ms is None
            &&& duration is Some ==> meta.duration_ms is Some
            &&& duration is Some && duration->0 * 1_000 <= u64::MAX ==> meta.duration_ms->0
                == duration->0 * 1_000
            &&& duration is Some && duration->0 * 1_000 > u64::MAX ==> meta.duration_ms->0
                == u64::MAX
        }),
        entry matches HistoryEntry::Error { title, body } ==> (r matches Some(
            HistoryUpdate::ToolCallUpdate { update, meta },
        ) && {
            &&& update.failed && !update.executes
            &&& update.title@ == title@
            &&& body@.len() > 0 ==> update.text@ == body@
            &&& body@.len() == 0 ==> update.text@ == title@
            &&& update.raw_input is None && update.raw_output is None
            &&& meta.index == index && opt_view(meta.parent) == parent
        }),
{
}

/// Entries are named by where they stand: two messages, or two calls without a
/// name of their own, are shown under one name only where they are the same
/// entry.
pub proof fn law_unnamed_calls_go_by_their_entry(a: usize, b: usize)
    ensures
        call_name(Seq::empty(), a) == entry_name(a),
        call_name(Seq::empty(), a) == call_name(Seq::empty(), b) ==> a == b,
{
    if entry_name(a) == entry_name(b) {
        law_entry_names_are_distinct(a, b);
    }
}

/// The text of a message is made of its text parts, all of them, in order.
pub proof fn law_text_parts_make_the_message(content: Seq<UserInput>, part: UserInput)
    ensures
        part_texts(Seq::empty()) == Seq::<Seq<char>>::empty(),
        part matches UserInput::Text(text) ==> part_texts(content.push(part)) == part_texts(
            content,
        ).push(text@),
        !(part is Text) ==> part_texts(content.push(part)) == part_texts(content),
{
    assert(content.push(part).drop_last() =~= content);
}

/// Messages and thoughts go by the name of their entry, and so do the failures
/// that belong to no call.
pub proof fn law_messages_go_by_their_entry(
    index: usize,
    entry: HistoryEntry,
    parent: Option<Seq<char>>,
    r: Option<HistoryUpdate>,
)
    requires
        update_view(r) == entry_update(index, entry, parent),
    ensures
        ({
            let name = "history-"@ + decimal(index as nat);
            match r {
                Some(HistoryUpdate::UserMessageChunk { message_id, .. }) => message_id@ == name,
                Some(HistoryUpdate::AgentMessageChunk { message_id, .. }) => message_id@ == name,
                Some(HistoryUpdate::AgentThoughtChunk { message_id, .. }) => message_id@ == name,
                Some(HistoryUpdate::ToolCallUpdate { update, .. }) => entry is Error ==> update.id@
                    == name,
                _ => true,
            }
        }),
{
}

} // verus!
