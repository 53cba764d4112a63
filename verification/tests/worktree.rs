use laver_agent::worktree::is_valid_worktree_name;

#[test]
fn name_validation() {
    assert!(is_valid_worktree_name("feature-1"));
    assert!(is_valid_worktree_name("task_2.0"));
    assert!(!is_valid_worktree_name("../escape"));
    assert!(!is_valid_worktree_name("has/slash"));
    assert!(!is_valid_worktree_name("has space"));
    assert!(!is_valid_worktree_name(""));
}

#[test]
fn dot_names_refused() {
    assert!(!is_valid_worktree_name("."));
    assert!(!is_valid_worktree_name(".."));
    assert!(is_valid_worktree_name("..."));
    assert!(is_valid_worktree_name(".hidden"));
}

use laver_agent::worktree::WorktreeManager;

#[test]
fn worktree_commands() {
    let m = WorktreeManager::new("/w".to_string());
    assert_eq!(m.worktrees_dir(), "/w/.worktrees");
    assert!(m.path_of("../x").is_none());
    assert!(m.path_of("no-such-worktree-here").is_none());
    assert_eq!(m.create_command("f1", "/w/.worktrees/f1").unwrap(), "git worktree add \"/w/.worktrees/f1\" -b wt/f1");
    assert_eq!(m.create_command("a b", "p").unwrap_err(), "非法 worktree 名称: a b");
    assert_eq!(m.status_command("/p"), "git -C \"/p\" status --porcelain");
    assert_eq!(m.remove_command("f1", "/p", "", false).unwrap(), "git worktree remove  \"/p\"");
    assert_eq!(m.remove_command("f1", "/p", " M a.txt", true).unwrap(), "git worktree remove --force \"/p\"");
    assert_eq!(
        m.remove_command("f1", "/p", " M a.txt", false).unwrap_err(),
        "worktree f1 存在未提交改动，拒绝删除 (如需强制请设 discard_changes=true):\n M a.txt"
    );
    assert_eq!(m.audit_line("t0", "remove \"f1\""), "{\"ts\":\"t0\",\"event\":\"remove 'f1'\"}");
}
