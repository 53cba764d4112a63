use laver_agent::agent::ctx::ToolCtx;
use laver_agent::agent::permission::{
    approval_key, ask_patterns_exec, deny_list_exec, evaluate, evaluate_resolved, pattern_for, resolve_ask,
    ApprovalDecision, ApprovalMemory, Decision,
};
use laver_agent::agent::tools::AgentKind;

fn ctx() -> ToolCtx {
    ToolCtx {
        session_id: "s".to_string(),
        agent_name: "main".to_string(),
        kind: AgentKind::Main,
        workspace: "/home/u/work".to_string(),
        cwd: "/home/u/work".to_string(),
    }
}

#[test]
fn deny_list_hits() {
    let cmd = "powershell rm -rf / --no-preserve-root".to_lowercase();
    assert!(deny_list_exec().iter().any(|d| cmd.contains(d)));
}

#[test]
fn ask_pattern_hits() {
    let cmd = "git push --force origin main".to_lowercase();
    assert!(ask_patterns_exec().iter().any(|p| cmd.contains(p)));
}

#[test]
fn safe_command_passes() {
    let cmd = "ls -la".to_lowercase();
    assert!(!deny_list_exec().iter().any(|d| cmd.contains(d)));
    assert!(!ask_patterns_exec().iter().any(|p| cmd.contains(p)));
}

#[test]
fn shell_decisions() {
    let c = ctx();
    assert!(matches!(evaluate("shell", "{\"command\":\"rm -rf /\"}", &c), Decision::Deny(_)));
    match evaluate("shell", "{\"command\":\"RM -RF /\"}", &c) {
        Decision::Deny(m) => assert_eq!(m, "命中硬拒绝规则: rm -rf /"),
        _ => panic!("expected deny"),
    }
    assert!(matches!(evaluate("shell", "{\"command\":\"git push --force\"}", &c), Decision::Ask(_)));
    assert!(matches!(evaluate("shell", "{\"command\":\"dir\"}", &c), Decision::Allow));
}

#[test]
fn file_write_decisions() {
    let c = ctx();
    assert!(matches!(evaluate("write_file", "{\"path\":\"notes/a.txt\"}", &c), Decision::Allow));
    match evaluate("write_file", "{\"path\":\"../other/a.txt\"}", &c) {
        Decision::Ask(m) => assert_eq!(m, "在工作区之外写文件: /home/u/other/a.txt"),
        _ => panic!("expected ask"),
    }
    assert!(matches!(evaluate("edit_file", "{\"path\":\"/etc/hosts\"}", &c), Decision::Ask(_)));
    match evaluate("remove_worktree", "{}", &c) {
        Decision::Ask(m) => assert_eq!(m, "删除 git worktree"),
        _ => panic!("expected ask"),
    }
    match evaluate("mcp__fs__read", "{}", &c) {
        Decision::Ask(m) => assert_eq!(m, "调用外部 MCP 工具 mcp__fs__read"),
        _ => panic!("expected ask"),
    }
    assert!(matches!(evaluate("glob", "{}", &c), Decision::Allow));
    assert!(matches!(evaluate_resolved("write_file", "{}", "/x/y", false), Decision::Ask(_)));
}

#[test]
fn paths_resolve_lexically() {
    let c = ctx();
    assert_eq!(c.resolve_path("a/./b/../c.txt"), ("/home/u/work/a/c.txt".to_string(), true));
    assert_eq!(c.resolve_path("/tmp/x"), ("/tmp/x".to_string(), false));
    assert_eq!(c.resolve_path("../../../.."), ("/".to_string(), false));
}

#[test]
fn pattern_keys() {
    assert_eq!(pattern_for("shell", "{\"command\":\"Git status\"}"), "shell:git");
    assert_eq!(pattern_for("shell", "{}"), "shell:*");
    assert_eq!(pattern_for("glob", "{}"), "glob");
    assert_eq!(approval_key("glob", "{}"), "glob");
}

#[test]
fn always_allow_is_remembered() {
    let mut mem = ApprovalMemory::new();
    let d = resolve_ask(&mut mem, "shell:git".to_string(), ApprovalDecision::AllowAlways);
    assert!(matches!(d, Decision::Allow));
    assert!(mem.contains("shell:git"));
    let d2 = resolve_ask(&mut mem, "shell:git".to_string(), ApprovalDecision::Deny);
    assert!(matches!(d2, Decision::Allow));
    let d3 = resolve_ask(&mut mem, "shell:rm".to_string(), ApprovalDecision::Deny);
    match d3 {
        Decision::Deny(m) => assert_eq!(m, "用户拒绝"),
        _ => panic!("expected deny"),
    }
}
