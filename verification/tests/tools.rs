use laver_agent::agent::tools::defs::{GlobTool, ShellTool, WorktreeRemoveTool};
use laver_agent::agent::tools::files::{
    check_old_string, edit_content, edit_report, glob_pattern, glob_report, limit_file_text, write_report,
};
use laver_agent::agent::tools::planning::{todo_items, todo_summary};
use laver_agent::agent::tools::shell::{combine_output, process_output, shell_command, timeout_note};
use laver_agent::agent::tools::{build_registry, unknown_tool, visible_for, AgentKind, ToolOutput, ToolRegistry};
use laver_agent::llm::types::ToolSpec;

fn names(v: &[ToolSpec]) -> Vec<String> {
    v.iter().map(|t| t.name.clone()).collect()
}

#[test]
fn builtin_registry_order() {
    let r = build_registry();
    let all = names(&r.specs());
    assert_eq!(all.len(), 21);
    assert_eq!(all[0], "shell");
    assert_eq!(all[20], "remove_worktree");
    assert!(r.contains("task_claim"));
    assert!(!r.contains("nope"));
}

#[test]
fn tools_visible_per_kind() {
    assert!(visible_for(AgentKind::Main, "task"));
    assert!(!visible_for(AgentKind::Sub, "task"));
    assert!(visible_for(AgentKind::Sub, "shell"));
    assert!(visible_for(AgentKind::Teammate, "send_message"));
    assert!(!visible_for(AgentKind::Teammate, "cron_schedule"));
    let r = build_registry();
    let sub = names(&r.specs_for(AgentKind::Sub, &vec!["shell".to_string()]));
    assert!(!sub.contains(&"shell".to_string()));
    assert!(!sub.contains(&"spawn_teammate".to_string()));
    assert_eq!(sub[0], "read_file");
    let mate = names(&r.specs_for(AgentKind::Teammate, &vec![]));
    assert_eq!(
        mate,
        vec![
            "shell", "read_file", "write_file", "edit_file", "glob", "todo_write", "load_skill", "task_list",
            "task_claim", "task_complete", "send_message"
        ]
    );
}

#[test]
fn registering_replaces_in_place() {
    let mut r = ToolRegistry::new();
    r.register(ShellTool.spec());
    r.register(GlobTool.spec());
    r.register(ToolSpec { name: "shell".into(), description: "new".into(), input_schema: "{}".into() });
    let specs = r.specs();
    assert_eq!(names(&specs), vec!["shell", "glob"]);
    assert_eq!(specs[0].description, "new");
    assert_eq!(WorktreeRemoveTool.name(), "remove_worktree");
    assert!(!ShellTool.concurrency_safe());
    assert!(GlobTool.concurrency_safe());
}

#[test]
fn tool_outputs() {
    let o = ToolOutput::ok("fine".into());
    assert!(!o.is_error);
    let u = unknown_tool("zzz");
    assert!(u.is_error);
    assert_eq!(u.content, "未知工具: zzz");
}

#[test]
fn file_tool_texts() {
    assert_eq!(limit_file_text("short"), "short");
    let long = "a".repeat(60_001);
    assert_eq!(limit_file_text(&long), format!("{}\n... [文件过大已截断]", "a".repeat(60_000)));
    assert_eq!(write_report("a.txt", "中文"), "已写入 a.txt (6 字节)");
    assert_eq!(edit_report("a.txt"), "已编辑 a.txt");
}

#[test]
fn edits_need_a_unique_match() {
    assert_eq!(check_old_string("").unwrap_err(), "old_string 不能为空");
    assert!(check_old_string("x").is_ok());
    assert_eq!(edit_content("hello world", "world", "there").unwrap(), "hello there");
    assert_eq!(edit_content("abc", "zz", "y").unwrap_err(), "未找到 old_string，未做修改");
    assert_eq!(edit_content("aa aa aa", "aa", "b").unwrap_err(), "old_string 匹配到 3 处，需提供更唯一的上下文");
    assert_eq!(edit_content("aaa", "aa", "b").unwrap(), "ba");
}

#[test]
fn glob_texts() {
    assert_eq!(glob_pattern("", "/w").unwrap_err(), "pattern 不能为空");
    assert_eq!(glob_pattern("*.txt", "/w").unwrap(), "/w/*.txt");
    assert_eq!(glob_pattern("/abs/*.md", "/w").unwrap(), "/abs/*.md");
    assert_eq!(glob_report(&vec![]), "(无匹配文件)");
    assert_eq!(glob_report(&vec!["a".into(), "b".into()]), "a\nb");
}

#[test]
fn shell_texts() {
    assert_eq!(combine_output("out", "", true, Some(0)), "out");
    assert_eq!(combine_output("out", "err", true, Some(0)), "out\n[stderr]\nerr");
    assert_eq!(combine_output("  ", "err", false, Some(2)), "[exit code: 2]\nerr");
    assert_eq!(combine_output("", "", false, None), "[exit code: -1]\n");
    assert_eq!(combine_output("", " ", true, None), "(命令执行完成，无输出)");
    let big = "x".repeat(30_001);
    assert_eq!(combine_output(&big, "", true, Some(0)), format!("{}\n... [输出超过 30000 字符已截断]", "x".repeat(30_000)));
    assert_eq!(timeout_note(), "命令超时 (120s) 已终止");
    assert_eq!(shell_command("{\"command\":\"  dir \"}").unwrap(), "dir");
    assert_eq!(shell_command("{}").unwrap_err(), "command 不能为空");
}

#[test]
fn todo_texts() {
    let items =
        todo_items(r#"{"todos":[{"content":"a","status":"completed"},{"content":"b"},{"status":"x"},{"content":"c","status":"in_progress"}]}"#)
            .unwrap();
    assert_eq!(items.len(), 3);
    assert_eq!(todo_summary(&items), "待办已更新:\n[x] a\n[ ] b\n[~] c");
    assert_eq!(todo_items("{\"todos\":1}").unwrap_err(), "todos 必须是数组");
}

#[test]
fn raw_output_is_decoded_then_merged() {
    assert_eq!(process_output(&b"out".to_vec(), &vec![], true, Some(0)), "out");
    assert_eq!(process_output(&vec![0x61, 0xff], &b"e".to_vec(), true, Some(0)), "a\u{fffd}\n[stderr]\ne");
}
