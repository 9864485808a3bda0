//! Commands that a user types into an editor's prompt with a leading slash.

use crate::acp::{acp_reject, acp_rejection, AcpErrorCode, AcpRejection};
use crate::acp_history::part_text;
use crate::goal::ThreadGoalStatus;
use crate::inputs::UserInput;
use crate::protocol::TurnId;
use crate::text::{
    ascii_lower, chars_of, is_blank, is_white_space, text_between, text_equal, to_ascii_lowercase,
    trim, trim_start, trimmed, trimmed_start, white_space,
};
use vstd::prelude::*;

verus! {

/// A block of a prompt. Of one that is no text, only what it becomes as input
/// matters, or why it cannot be one.
#[derive(Debug)]
pub enum AcpContentBlock {
    Text(String),
    Other(Result<Vec<UserInput>, String>),
}

/// How many characters stand before the first white space.
pub open spec fn word_len(s: Seq<char>) -> int
    decreases s.len(),
{
    if s.len() == 0 || white_space(s[0]) {
        0
    } else {
        1 + word_len(s.skip(1))
    }
}

/// The name and the argument of a command, if the text is one.
pub open spec fn command_parts(text: Seq<char>) -> Option<(Seq<char>, Seq<char>)> {
    if text.len() == 0 || text[0] != '/' {
        None
    } else {
        let rest = text.skip(1);
        let n = word_len(rest);
        if n == 0 {
            None
        } else {
            Some((rest.take(n), trimmed_start(rest.skip(n))))
        }
    }
}

proof fn lemma_word_len(s: Seq<char>, n: int)
    requires
        0 <= n <= s.len(),
        forall|i: int| 0 <= i < n ==> !white_space(#[trigger] s[i]),
        n == s.len() || white_space(s[n]),
    ensures
        word_len(s) == n,
    decreases n,
{
    if n > 0 {
        let rest = s.skip(1);
        assert forall|i: int| 0 <= i < n - 1 implies !white_space(#[trigger] rest[i]) by {
            assert(rest[i] == s[i + 1]);
        }
        if n < s.len() {
            assert(rest[n - 1] == s[n]);
        }
        lemma_word_len(rest, n - 1);
        assert(!white_space(s[0]));
    }
}

/// The name and the argument of the command that a prompt begins with, if it
/// begins with one.
pub fn acp_slash_command_text(prompt: &Vec<AcpContentBlock>) -> (r: Option<(String, String)>)
    ensures
        match r {
            Some((name, argument)) => prompt@.len() > 0 && prompt@[0] is Text && command_parts(
                prompt@[0]->Text_0@,
            ) == Some((name@, argument@)),
            None => prompt@.len() == 0 || !(prompt@[0] is Text) || command_parts(
                prompt@[0]->Text_0@,
            ) is None,
        },
{
    if prompt.len() == 0 {
        return None;
    }
    match &prompt[0] {
        AcpContentBlock::Text(text) => {
            let v = chars_of(text.as_str());
            if v.len() == 0 || v[0] != '/' {
                return None;
            }
            let ghost rest = text@.skip(1);
            let mut n: usize = 1;
            while n < v.len() && !is_white_space(v[n])
                invariant
                    1 <= n <= v@.len(),
                    v@ == text@,
                    rest == text@.skip(1),
                    forall|i: int| 0 <= i < n - 1 ==> !white_space(#[trigger] rest[i]),
                decreases v@.len() - n,
            {
                assert(rest[n - 1] == v@[n as int]);
                n = n + 1;
            }
            proof {
                if n < v.len() {
                    assert(rest[n - 1] == v@[n as int]);
                }
                lemma_word_len(rest, n - 1);
            }
            if n == 1 {
                return None;
            }
            let name = text_between(&v, 1, n);
            let argument = trim_start(text_between(&v, n, v.len()).as_str());
            assert(name@ =~= rest.take(n - 1));
            assert(v@.subrange(n as int, v@.len() as int) =~= rest.skip(n - 1));
            Some((name, argument))
        },
        AcpContentBlock::Other(_) => None,
    }
}

/// A command by its name.
#[derive(Debug)]
pub enum SlashCommand {
    Compact,
    Goal,
    /// A command of the terminal interface, with its name.
    Terminal(String),
}

/// What a command leads to.
#[derive(Debug)]
pub enum SlashStep {
    NotCommand,
    /// Start a turn that plans.
    Plan,
    Compact,
    ShowGoal,
    ClearGoal,
    ChangeGoalStatus(ThreadGoalStatus),
    SetGoal(String),
    Reject(AcpRejection),
    /// The command is one of the terminal interface.
    RejectTerminal(String),
}

/// What a command leads to, with texts as sequences.
pub enum SlashModel {
    NotCommand,
    Plan,
    Compact,
    ShowGoal,
    ClearGoal,
    ChangeGoalStatus(ThreadGoalStatus),
    SetGoal(Seq<char>),
    Reject(AcpRejection),
    RejectTerminal(Seq<char>),
}

impl View for SlashStep {
    type V = SlashModel;

    open spec fn view(&self) -> SlashModel {
        match *self {
            SlashStep::NotCommand => SlashModel::NotCommand,
            SlashStep::Plan => SlashModel::Plan,
            SlashStep::Compact => SlashModel::Compact,
            SlashStep::ShowGoal => SlashModel::ShowGoal,
            SlashStep::ClearGoal => SlashModel::ClearGoal,
            SlashStep::ChangeGoalStatus(status) => SlashModel::ChangeGoalStatus(status),
            SlashStep::SetGoal(objective) => SlashModel::SetGoal(objective@),
            SlashStep::Reject(why) => SlashModel::Reject(why),
            SlashStep::RejectTerminal(name) => SlashModel::RejectTerminal(name@),
        }
    }
}

/// What the command about the goal leads to.
pub open spec fn goal_command(argument: Seq<char>) -> SlashModel {
    let word = ascii_lower(trimmed(argument));
    if trimmed(argument).len() == 0 {
        SlashModel::ShowGoal
    } else if word == "clear"@ {
        SlashModel::ClearGoal
    } else if word == "pause"@ {
        SlashModel::ChangeGoalStatus(ThreadGoalStatus::Paused)
    } else if word == "resume"@ {
        SlashModel::ChangeGoalStatus(ThreadGoalStatus::Active)
    } else if word == "edit"@ {
        SlashModel::Reject(
            acp_rejection(
                AcpErrorCode::InvalidParams,
                "/goal edit is only available in the TUI",
            ),
        )
    } else {
        SlashModel::SetGoal(trimmed(argument))
    }
}

/// What a command leads to. `known` is the command of that name, if there is
/// one.
pub open spec fn command_step(
    name: Seq<char>,
    argument: Seq<char>,
    known: Option<SlashCommand>,
) -> SlashModel {
    if name == "plan"@ {
        SlashModel::Plan
    } else {
        match known {
            None => SlashModel::NotCommand,
            Some(SlashCommand::Compact) => if trimmed(argument).len() > 0 {
                SlashModel::Reject(
                    acp_rejection(
                        AcpErrorCode::InvalidParams,
                        "/compact does not accept arguments",
                    ),
                )
            } else {
                SlashModel::Compact
            },
            Some(SlashCommand::Goal) => goal_command(argument),
            Some(SlashCommand::Terminal(command)) => SlashModel::RejectTerminal(command@),
        }
    }
}

fn take_goal_command(argument: &str) -> (r: SlashStep)
    ensures
        r@ == goal_command(argument@),
{
    if is_blank(argument) {
        return SlashStep::ShowGoal;
    }
    let objective = trim(argument);
    let word = to_ascii_lowercase(objective.as_str());
    if text_equal(word.as_str(), "clear") {
        SlashStep::ClearGoal
    } else if text_equal(word.as_str(), "pause") {
        SlashStep::ChangeGoalStatus(ThreadGoalStatus::Paused)
    } else if text_equal(word.as_str(), "resume") {
        SlashStep::ChangeGoalStatus(ThreadGoalStatus::Active)
    } else if text_equal(word.as_str(), "edit") {
        SlashStep::Reject(
            acp_reject(AcpErrorCode::InvalidParams, "/goal edit is only available in the TUI"),
        )
    } else {
        SlashStep::SetGoal(objective)
    }
}

/// What a command leads to. `known` is the command of that name, if there is
/// one; planning is always one.
pub fn handle_slash_command(name: &str, argument: &str, known: Option<SlashCommand>) -> (r: SlashStep)
    ensures
        r@ == command_step(name@, argument@, known),
{
    if text_equal(name, "plan") {
        return SlashStep::Plan;
    }
    match known {
        None => SlashStep::NotCommand,
        Some(SlashCommand::Compact) => {
            if is_blank(argument) {
                SlashStep::Compact
            } else {
                SlashStep::Reject(
                    acp_reject(AcpErrorCode::InvalidParams, "/compact does not accept arguments"),
                )
            }
        },
        Some(SlashCommand::Goal) => take_goal_command(argument),
        Some(SlashCommand::Terminal(command)) => SlashStep::RejectTerminal(command),
    }
}

/// What is said of a command of the terminal interface.
pub fn terminal_command_message(name: &str) -> (r: String)
    ensures
        r@ == "/"@ + name@ + " is a TUI command and is not available over ACP"@,
{
    let mut message = "/".to_owned();
    message.append(name);
    message.append(" is a TUI command and is not available over ACP");
    message
}

/// How a status is called towards a user.
pub open spec fn status_label(status: ThreadGoalStatus) -> Seq<char> {
    match status {
        ThreadGoalStatus::Active => "active"@,
        ThreadGoalStatus::Paused => "paused"@,
        ThreadGoalStatus::BudgetLimited => "budget-limited"@,
        ThreadGoalStatus::Complete => "complete"@,
    }
}

/// How a status is called towards a user.
pub fn goal_status_label(status: ThreadGoalStatus) -> (r: &'static str)
    ensures
        r@ == status_label(status),
{
    match status {
        ThreadGoalStatus::Active => "active",
        ThreadGoalStatus::Paused => "paused",
        ThreadGoalStatus::BudgetLimited => "budget-limited",
        ThreadGoalStatus::Complete => "complete",
    }
}

/// What is said of a goal.
pub fn goal_summary_message(status: ThreadGoalStatus, objective: &str) -> (r: String)
    ensures
        r@ == "Goal "@ + status_label(status) + ": "@ + objective@,
{
    let mut message = "Goal ".to_owned();
    message.append(goal_status_label(status));
    message.append(": ");
    message.append(objective);
    message
}

/// What is said of the goal of a session, or of there being none.
pub fn goal_status_message(goal: Option<(ThreadGoalStatus, &str)>) -> (r: String)
    ensures
        r@ == match goal {
            Some((status, objective)) => "Goal "@ + status_label(status) + ": "@ + objective@,
            None => "No goal is currently set."@,
        },
{
    match goal {
        Some((status, objective)) => goal_summary_message(status, objective),
        None => "No goal is currently set.".to_owned(),
    }
}

/// What is said once a goal is set.
pub fn goal_set_message(objective: &str) -> (r: String)
    ensures
        r@ == "Goal set: "@ + objective@,
{
    let mut message = "Goal set: ".to_owned();
    message.append(objective);
    message
}

/// What is said once the goal was to be cleared.
pub fn goal_clear_message(cleared: bool) -> (r: &'static str)
    ensures
        r@ == if cleared {
            "Goal cleared."@
        } else {
            "No goal is currently set."@
        },
{
    if cleared {
        "Goal cleared."
    } else {
        "No goal is currently set."
    }
}

/// What is said once a compaction has begun.
pub fn compaction_message() -> (r: &'static str)
    ensures
        r@ == "Session compaction started."@,
{
    "Session compaction started."
}

/// The turn that a prompt started, or the answer where it could only be
/// queued.
pub fn started_turn(turn: Option<TurnId>) -> (r: Result<TurnId, AcpRejection>)
    ensures
        match turn {
            Some(turn) => r == Ok::<TurnId, AcpRejection>(turn),
            None => r == Err::<TurnId, AcpRejection>(
                acp_rejection(
                    AcpErrorCode::ServerError,
                    "session/prompt cannot queue behind an active turn",
                ),
            ),
        },
{
    match turn {
        Some(turn) => Ok(turn),
        None => Err(
            acp_reject(
                AcpErrorCode::ServerError,
                "session/prompt cannot queue behind an active turn",
            ),
        ),
    }
}

/// What a block becomes as input.
pub open spec fn block_inputs(block: AcpContentBlock) -> Result<Seq<UserInput>, Seq<char>> {
    match block {
        AcpContentBlock::Text(text) => Ok(seq![UserInput::Text(text)]),
        AcpContentBlock::Other(Ok(inputs)) => Ok(inputs@),
        AcpContentBlock::Other(Err(why)) => Err(why@),
    }
}

/// What blocks become as input, or why the first that cannot be one cannot.
pub open spec fn blocks_inputs(blocks: Seq<AcpContentBlock>) -> Result<Seq<UserInput>, Seq<char>>
    decreases blocks.len(),
{
    if blocks.len() == 0 {
        Ok(Seq::empty())
    } else {
        match blocks_inputs(blocks.drop_last()) {
            Err(why) => Err(why),
            Ok(before) => match block_inputs(blocks.last()) {
                Ok(inputs) => Ok(before + inputs),
                Err(why) => Err(why),
            },
        }
    }
}

proof fn lemma_blocks_fail(blocks: Seq<AcpContentBlock>, i: int, why: Seq<char>)
    requires
        0 <= i <= blocks.len(),
        blocks_inputs(blocks.take(i)) == Err::<Seq<UserInput>, Seq<char>>(why),
    ensures
        blocks_inputs(blocks) == Err::<Seq<UserInput>, Seq<char>>(why),
    decreases blocks.len() - i,
{
    if i < blocks.len() {
        assert(blocks.take(i + 1).drop_last() =~= blocks.take(i));
        lemma_blocks_fail(blocks, i + 1, why);
    } else {
        assert(blocks.take(i) =~= blocks);
    }
}

fn append_inputs(input: &mut Vec<UserInput>, more: &Vec<UserInput>)
    ensures
        final(input)@ == old(input)@ + more@,
{
    let ghost before = input@;
    let mut i: usize = 0;
    while i < more.len()
        invariant
            i <= more@.len(),
            input@ == before + more@.take(i as int),
        decreases more@.len() - i,
    {
        input.push(more[i].copy());
        i = i + 1;
        assert(input@ =~= before + more@.take(i as int));
    }
    assert(more@.take(more@.len() as int) =~= more@);
}

/// The input of a command with an argument: the argument, then the blocks that
/// follow the command. Where there is nothing at all, the usage is said.
pub fn input_items_from_argument_slash_prompt(
    argument: &str,
    prompt: &Vec<AcpContentBlock>,
    usage: &str,
) -> (r: Result<Vec<UserInput>, String>)
    ensures
        ({
            let later = if prompt@.len() == 0 {
                prompt@
            } else {
                prompt@.skip(1)
            };
            match (r, blocks_inputs(later)) {
                (Ok(input), Ok(rest)) => {
                    if trimmed(argument@).len() > 0 {
                        &&& input@.len() == 1 + rest.len()
                        &&& part_text(input@[0]) == Some(trimmed(argument@))
                        &&& input@.skip(1) == rest
                    } else {
                        input@ == rest && rest.len() > 0
                    }
                },
                (Err(why), Err(error)) => why@ == error,
                (Err(why), Ok(rest)) => {
                    &&& why@ == usage@
                    &&& trimmed(argument@).len() == 0
                    &&& rest.len() == 0
                },
                (Ok(_), Err(_)) => false,
            }
        }),
{
    let mut input: Vec<UserInput> = Vec::new();
    if !is_blank(argument) {
        input.push(UserInput::Text(trim(argument)));
    }
    let ghost head = input@;
    let ghost later = if prompt@.len() == 0 {
        prompt@
    } else {
        prompt@.skip(1)
    };
    let mut i: usize = 1;
    assert(later.take(0) =~= Seq::empty());
    assert(input@ =~= head + Seq::<UserInput>::empty());
    while i < prompt.len()
        invariant
            1 <= i,
            prompt@.len() == 0 ==> i == 1,
            prompt@.len() > 0 ==> i <= prompt@.len(),
            later == if prompt@.len() == 0 {
                prompt@
            } else {
                prompt@.skip(1)
            },
            blocks_inputs(later.take(i - 1)) is Ok,
            input@ == head + blocks_inputs(later.take(i - 1))->Ok_0,
        decreases prompt@.len() - i,
    {
        let ghost before = blocks_inputs(later.take(i - 1))->Ok_0;
        assert(later.take(i as int).drop_last() =~= later.take(i - 1));
        assert(later.take(i as int).last() == prompt@[i as int]);
        match &prompt[i] {
            AcpContentBlock::Text(text) => {
                input.push(UserInput::Text(text.clone()));
                assert(input@ =~= head + (before + seq![UserInput::Text(*text)]));
            },
            AcpContentBlock::Other(Ok(inputs)) => {
                append_inputs(&mut input, inputs);
                assert(input@ =~= head + (before + inputs@));
            },
            AcpContentBlock::Other(Err(why)) => {
                proof {
                    lemma_blocks_fail(later, i as int, why@);
                }
                return Err(why.clone());
            },
        }
        i = i + 1;
    }
    assert(later.take(i - 1) =~= later);
    if input.len() == 0 {
        return Err(usage.to_owned());
    }
    proof {
        let rest = blocks_inputs(later)->Ok_0;
        if head.len() > 0 {
            assert(input@.skip(1) =~= rest);
        } else {
            assert(input@ =~= rest);
        }
    }
    Ok(input)
}

proof fn lemma_word_ends(word: Seq<char>, rest: Seq<char>)
    requires
        forall|i: int| 0 <= i < word.len() ==> !white_space(#[trigger] word[i]),
        rest.len() == 0 || white_space(rest[0]),
    ensures
        word_len(word + rest) == word.len(),
    decreases word.len(),
{
    if word.len() > 0 {
        let tail = word.skip(1);
        assert((word + rest)[0] == word[0]);
        assert((word + rest).skip(1) =~= tail + rest);
        assert forall|i: int| 0 <= i < tail.len() implies !white_space(#[trigger] tail[i]) by {
            assert(tail[i] == word[i + 1]);
        }
        lemma_word_ends(tail, rest);
    } else {
        assert(word + rest =~= rest);
    }
}

/// A slash and a word are a command, up to the first space; what follows, from
/// where it begins, is its argument. Text without the slash, and a slash with
/// nothing behind it, are no command.
pub proof fn law_commands_are_a_slash_and_a_word(word: Seq<char>, rest: Seq<char>, text: Seq<char>)
    requires
        word.len() > 0,
        forall|i: int| 0 <= i < word.len() ==> !white_space(#[trigger] word[i]),
        rest.len() == 0 || white_space(rest[0]),
    ensures
        command_parts(seq!['/'] + word + rest) == Some((word, trimmed_start(rest))),
        text.len() == 0 || text[0] != '/' ==> command_parts(text) is None,
        command_parts(seq!['/'] + rest) is None,
{
    let whole = seq!['/'] + word + rest;
    assert(whole.skip(1) =~= word + rest);
    lemma_word_ends(word, rest);
    assert((word + rest).take(word.len() as int) =~= word);
    assert((word + rest).skip(word.len() as int) =~= rest);
    assert((seq!['/'] + rest).skip(1) =~= rest);
}

/// What a command does: a plan is asked for, a compaction takes no argument, a
/// command of the terminal is not available, and any other name is no command.
pub proof fn law_commands_do_what_they_are_named(
    name: Seq<char>,
    argument: Seq<char>,
    known: Option<SlashCommand>,
    r: SlashStep,
)
    requires
        r@ == command_step(name, argument, known),
    ensures
        name == "plan"@ ==> r is Plan,
        name != "plan"@ && known is None ==> r is NotCommand,
        name != "plan"@ && known == Some(SlashCommand::Compact) && trimmed(argument).len() == 0
            ==> r is Compact,
        name != "plan"@ && known == Some(SlashCommand::Compact) && trimmed(argument).len() > 0 ==> (
        r matches SlashStep::Reject(why) && why.code is InvalidParams),
        name != "plan"@ && known is Some && known->0 is Terminal ==> (
        r matches SlashStep::RejectTerminal(command) && command@ == known->0->Terminal_0@),
{
}

/// What a goal command does: alone it shows the goal, a word of its own clears,
/// pauses or resumes it, whatever the case, editing is for the terminal, and
/// anything else becomes the goal, without the space around it.
pub proof fn law_goal_commands_do_what_they_say(
    name: Seq<char>,
    argument: Seq<char>,
    r: SlashStep,
)
    requires
        name != "plan"@,
        r@ == command_step(name, argument, Some(SlashCommand::Goal)),
    ensures
        ({
            let said = trimmed(argument);
            let word = ascii_lower(said);
            &&& said.len() == 0 ==> r is ShowGoal
            &&& word == "clear"@ ==> r is ClearGoal
            &&& word == "pause"@ ==> r == SlashStep::ChangeGoalStatus(ThreadGoalStatus::Paused)
            &&& word == "resume"@ ==> r == SlashStep::ChangeGoalStatus(ThreadGoalStatus::Active)
            &&& word == "edit"@ ==> (r matches SlashStep::Reject(why) && why.code is InvalidParams)
            &&& said.len() > 0 && word != "clear"@ && word != "pause"@ && word != "resume"@ && word
                != "edit"@ ==> (r matches SlashStep::SetGoal(objective) && objective@ == said)
        }),
{
    reveal_strlit("clear");
    reveal_strlit("pause");
    reveal_strlit("resume");
    reveal_strlit("edit");
    assert("clear"@.len() == 5 && "clear"@[0] == 'c');
    assert("pause"@.len() == 5 && "pause"@[0] == 'p');
    assert("resume"@.len() == 6);
    assert("edit"@.len() == 4);
}

/// The parts of a prompt are those of its blocks, in order; the first block that
/// cannot be taken refuses the prompt.
pub proof fn law_prompts_are_made_of_their_blocks(
    blocks: Seq<AcpContentBlock>,
    text: String,
    inputs: Vec<UserInput>,
    why: String,
    before: Seq<UserInput>,
)
    requires
        blocks_inputs(blocks) == Ok::<Seq<UserInput>, Seq<char>>(before),
    ensures
        blocks_inputs(Seq::empty()) == Ok::<Seq<UserInput>, Seq<char>>(Seq::empty()),
        blocks_inputs(blocks.push(AcpContentBlock::Text(text))) == Ok::<Seq<UserInput>, Seq<char>>(
            before.push(UserInput::Text(text)),
        ),
        blocks_inputs(blocks.push(AcpContentBlock::Other(Ok(inputs)))) == Ok::<
            Seq<UserInput>,
            Seq<char>,
        >(before + inputs@),
        blocks_inputs(blocks.push(AcpContentBlock::Other(Err(why)))) == Err::<
            Seq<UserInput>,
            Seq<char>,
        >(why@),
{
    assert(blocks.push(AcpContentBlock::Text(text)).drop_last() =~= blocks);
    assert(blocks.push(AcpContentBlock::Other(Ok(inputs))).drop_last() =~= blocks);
    assert(blocks.push(AcpContentBlock::Other(Err(why))).drop_last() =~= blocks);
    assert(before + seq![UserInput::Text(text)] =~= before.push(UserInput::Text(text)));
}

/// Goals in different states are told by different words.
pub proof fn law_goal_states_are_told_apart(a: ThreadGoalStatus, b: ThreadGoalStatus)
    requires
        status_label(a) == status_label(b),
    ensures
        a == b,
{
    reveal_strlit("active");
    reveal_strlit("paused");
    reveal_strlit("budget-limited");
    reveal_strlit("complete");
    assert("active"@.len() == 6 && "active"@[0] == 'a');
    assert("paused"@.len() == 6 && "paused"@[0] == 'p');
    assert("budget-limited"@.len() == 14);
    assert("complete"@.len() == 8);
}

} // verus!
