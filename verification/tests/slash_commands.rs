use devo_server::acp::{AcpErrorCode, AcpRejection};
use devo_server::goal::ThreadGoalStatus;
use devo_server::inputs::UserInput;
use devo_server::protocol::TurnId;
use devo_server::slash_commands::{
    acp_slash_command_text, compaction_message, goal_clear_message, goal_set_message,
    goal_status_message, handle_slash_command, input_items_from_argument_slash_prompt,
    started_turn, terminal_command_message, AcpContentBlock, SlashCommand, SlashStep,
};

fn text(content: &str) -> AcpContentBlock {
    AcpContentBlock::Text(content.to_string())
}

#[test]
fn acp_slash_command_text_extracts_command_and_argument() {
    let prompt = vec![text("/goal improve tests")];

    assert_eq!(
        acp_slash_command_text(&prompt),
        Some(("goal".to_string(), "improve tests".to_string()))
    );
}

#[test]
fn acp_slash_command_text_ignores_unknown_prefix_shape() {
    assert_eq!(acp_slash_command_text(&vec![text(" /goal no leading slash")]), None);
    assert_eq!(acp_slash_command_text(&vec![text("/")]), None);
    assert_eq!(acp_slash_command_text(&vec![]), None);
}

#[test]
fn plan_prompt_uses_command_argument_and_preserves_extra_content() {
    let input = input_items_from_argument_slash_prompt(
        "desktop slash triggers",
        &vec![text("/plan desktop slash triggers"), text("include footer chip behavior")],
        "Usage: /plan <task to plan>",
    )
    .expect("plan input");

    assert_eq!(
        input,
        vec![
            UserInput::Text("desktop slash triggers".to_string()),
            UserInput::Text("include footer chip behavior".to_string()),
        ]
    );
}

#[test]
fn commands_end_at_white_space() {
    let of = |content: &str| acp_slash_command_text(&vec![text(content), text("more")]);
    let pair = |a: &str, b: &str| Some((a.to_string(), b.to_string()));
    assert_eq!(of("/compact"), pair("compact", ""));
    assert_eq!(of("/goal\t\n  clear "), pair("goal", "clear "));
    assert_eq!(of("/goal\u{a0}x"), pair("goal", "x"));
    assert_eq!(of("//x y"), pair("/x", "y"));
    assert_eq!(of("/ goal"), None);
    let image = AcpContentBlock::Other(Ok(vec![]));
    assert_eq!(acp_slash_command_text(&vec![image, text("/goal")]), None);
}

#[test]
fn plans_need_a_task() {
    let usage = "Usage: /plan <task to plan>";
    let plan = |argument: &str, prompt: Vec<AcpContentBlock>| {
        input_items_from_argument_slash_prompt(argument, &prompt, usage)
    };
    assert_eq!(plan("  ", vec![text("/plan")]), Err(usage.to_string()));
    assert_eq!(plan(" a ", vec![text("/plan")]), Ok(vec![UserInput::Text("a".to_string())]));
    assert_eq!(
        plan(
            "a",
            vec![
                AcpContentBlock::Other(Err("skipped".to_string())),
                AcpContentBlock::Other(Err("bad image".to_string())),
                AcpContentBlock::Other(Err("worse".to_string())),
            ]
        ),
        Err("bad image".to_string())
    );
    assert_eq!(
        plan("", vec![text("/plan"), AcpContentBlock::Other(Ok(vec![UserInput::Other(3)]))]),
        Ok(vec![UserInput::Other(3)])
    );
}

fn refusal(step: SlashStep) -> (AcpErrorCode, String) {
    match step {
        SlashStep::Reject(why) => (why.code, why.message()),
        other => panic!("not refused: {other:?}"),
    }
}

#[test]
fn commands_are_told_apart() {
    assert!(matches!(handle_slash_command("plan", "x", None), SlashStep::Plan));
    assert!(matches!(handle_slash_command("nope", "x", None), SlashStep::NotCommand));
    assert!(matches!(
        handle_slash_command("compact", " \n", Some(SlashCommand::Compact)),
        SlashStep::Compact
    ));
    assert_eq!(
        refusal(handle_slash_command("compact", "now", Some(SlashCommand::Compact))),
        (AcpErrorCode::InvalidParams, "/compact does not accept arguments".to_string())
    );
    let SlashStep::RejectTerminal(name) = handle_slash_command(
        "theme",
        "",
        Some(SlashCommand::Terminal("theme".to_string())),
    ) else {
        panic!("not refused")
    };
    assert_eq!(
        terminal_command_message(&name),
        "/theme is a TUI command and is not available over ACP"
    );
}

#[test]
fn goal_commands_are_read_in_any_case() {
    let goal = |argument: &str| handle_slash_command("goal", argument, Some(SlashCommand::Goal));
    assert!(matches!(goal("  "), SlashStep::ShowGoal));
    assert!(matches!(goal("CLEAR"), SlashStep::ClearGoal));
    assert!(matches!(goal(" Pause "), SlashStep::ChangeGoalStatus(ThreadGoalStatus::Paused)));
    assert!(matches!(goal("resume"), SlashStep::ChangeGoalStatus(ThreadGoalStatus::Active)));
    assert_eq!(
        refusal(goal("Edit")),
        (AcpErrorCode::InvalidParams, "/goal edit is only available in the TUI".to_string())
    );
    assert!(matches!(goal(" Clear it "), SlashStep::SetGoal(objective) if objective == "Clear it"));
}

#[test]
fn goals_are_told_in_words() {
    assert_eq!(goal_status_message(None), "No goal is currently set.");
    assert_eq!(
        goal_status_message(Some((ThreadGoalStatus::BudgetLimited, "ship"))),
        "Goal budget-limited: ship"
    );
    assert_eq!(
        goal_status_message(Some((ThreadGoalStatus::Complete, "ship"))),
        "Goal complete: ship"
    );
    assert_eq!(goal_set_message("ship"), "Goal set: ship");
    assert_eq!(goal_clear_message(true), "Goal cleared.");
    assert_eq!(goal_clear_message(false), "No goal is currently set.");
    assert_eq!(compaction_message(), "Session compaction started.");
}

#[test]
fn plans_do_not_wait_in_line() {
    assert_eq!(started_turn(Some(TurnId { raw: 3 })).unwrap(), TurnId { raw: 3 });
    let why: AcpRejection = started_turn(None).unwrap_err();
    assert_eq!(why.code, AcpErrorCode::ServerError);
    assert_eq!(why.message(), "session/prompt cannot queue behind an active turn");
}
