use laver_agent::agent::tools::AgentKind;
use laver_agent::agent::turn::{
    background_started_text, denied_text, error_message_text, reminder_prompt, render_recent, subagent_ids,
    subagent_report, subagent_task, tool_result_block, tool_route, tool_step, trim_msg, ToolRoute, ToolStep, after_compaction, compaction_due, reply_end, ReplyEnd,
};
use laver_agent::llm::types::{ContentBlock, Message};

#[test]
fn short_texts() {
    assert_eq!(trim_msg("  x  "), "x");
    assert_eq!(trim_msg(&"y".repeat(601)), format!("{}…", "y".repeat(600)));
    assert_eq!(error_message_text("boom"), "⚠️ boom");
    assert_eq!(denied_text("no"), "Permission denied: no");
    assert_eq!(background_started_text("bg-1"), "已在后台启动任务 bg-1，完成后会通知你。");
}

#[test]
fn reminders_after_three_rounds() {
    assert_eq!(reminder_prompt("go", true, 2), "go");
    assert_eq!(reminder_prompt("go", false, 9), "go");
    assert_eq!(reminder_prompt("go", true, 3), "<reminder>别忘了用 todo_write 更新任务进度</reminder>\ngo");
}

#[test]
fn tool_routes() {
    assert!(matches!(tool_route(AgentKind::Main, "task", false), ToolRoute::SubAgent));
    assert!(matches!(tool_route(AgentKind::Sub, "task", false), ToolRoute::Builtin));
    assert!(matches!(tool_route(AgentKind::Main, "shell", true), ToolRoute::Background));
    assert!(matches!(tool_route(AgentKind::Main, "shell", false), ToolRoute::Builtin));
    assert!(matches!(tool_route(AgentKind::Teammate, "mcp__a__b", false), ToolRoute::Mcp));
    match tool_result_block("id1", "out".into(), false) {
        ContentBlock::ToolResult { tool_use_id, content, is_error } => {
            assert_eq!(tool_use_id, "id1");
            assert_eq!(content, "out");
            assert!(is_error);
        }
        _ => panic!(),
    }
}

#[test]
fn recent_history_and_subagents() {
    let ms = vec![
        Message::user_text("a".into()),
        Message::assistant_text("b".into()),
        Message::user_text("c".into()),
    ];
    assert_eq!(render_recent(&ms, 2), "[助手] b\n[用户] c\n");
    assert_eq!(render_recent(&ms, 10), "[用户] a\n[助手] b\n[用户] c\n");
    assert_eq!(subagent_report(&ms), "子代理完成:\nb");
    assert_eq!(subagent_report(&vec![]), "子代理完成:\n(子代理未产生文本结论)");
    assert_eq!(subagent_task("{\"description\":\" 查资料 \"}").unwrap(), "查资料");
    assert_eq!(subagent_task("{}").unwrap_err(), "task 需要 description 参数");
    let (sid, name) = subagent_ids("s1");
    assert!(sid.starts_with("s1::sub-"));
    assert_eq!(sid.len(), 2 + 6 + 32);
    assert_eq!(name, format!("subagent-{}", &sid[sid.len() - 6..]));
}

#[test]
fn refused_background_command_never_runs() {
    match tool_step(AgentKind::Main, "shell", true, Some("rm -rf /")) {
        ToolStep::Denied(m) => assert_eq!(m, "Permission denied: rm -rf /"),
        _ => panic!("expected a refusal"),
    }
    assert!(matches!(tool_step(AgentKind::Main, "shell", true, None), ToolStep::Run(ToolRoute::Background)));
    assert!(matches!(tool_step(AgentKind::Main, "task", false, Some("no")), ToolStep::Denied(_)));
}

#[test]
fn compaction_fuse_blows_after_three_failures() {
    let mut failures = 0u32;
    for _ in 0..3 {
        assert!(compaction_due(true, failures));
        failures = after_compaction(failures, false);
    }
    assert_eq!(failures, 3);
    assert!(!compaction_due(true, failures));
    assert!(!compaction_due(false, 0));
    assert_eq!(after_compaction(2, true), 0);
}

#[test]
fn only_the_main_agent_extracts_memories() {
    assert_eq!(reply_end(AgentKind::Main, true), ReplyEnd::FollowUp);
    assert_eq!(reply_end(AgentKind::Main, false), ReplyEnd::ExtractThenEnd);
    assert_eq!(reply_end(AgentKind::Sub, false), ReplyEnd::End);
    assert_eq!(reply_end(AgentKind::Teammate, false), ReplyEnd::End);
}
