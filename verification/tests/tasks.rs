use laver_agent::agent::tools::planning::{task_complete_text, task_list_text};
use laver_agent::tasks::TaskStore;

#[test]
fn tasks_flow_through_the_graph() {
    let mut s = TaskStore::new();
    let a = s.create_with_id("t-a".into(), "设计", "d", vec![]);
    let b = s.create_with_id("t-b".into(), "实现", "", vec!["t-a".into()]);
    assert_eq!(a.status, "pending");
    assert_eq!(b.blocked_by, vec!["t-a".to_string()]);
    assert!(s.can_start(&a));
    assert!(!s.can_start(&b));
    let ids: Vec<String> = s.claimable().into_iter().map(|t| t.id).collect();
    assert_eq!(ids, vec!["t-a".to_string()]);
    assert_eq!(s.claim("t-b", "bob").unwrap_err(), "上游依赖未完成，暂不可认领");
    let claimed = s.claim("t-a", "alice").unwrap();
    assert_eq!(claimed.status, "in_progress");
    assert_eq!(claimed.owner.as_deref(), Some("alice"));
    assert_eq!(s.claim("t-a", "bob").unwrap_err(), "任务状态为 in_progress，无法认领");
    assert_eq!(s.claim("t-z", "bob").unwrap_err(), "任务不存在");
    let unlocked = s.complete("t-a").unwrap();
    assert_eq!(unlocked.len(), 1);
    assert_eq!(unlocked[0].id, "t-b");
    assert_eq!(task_complete_text("t-a", &unlocked), "任务 t-a 已完成\n解锁了下游任务: t-b");
    assert_eq!(task_complete_text("t-b", &vec![]), "任务 t-b 已完成");
    assert_eq!(s.complete("t-z").unwrap_err(), "任务不存在");
    assert!(s.bind_worktree("t-b", "wt1").is_ok());
    assert_eq!(s.get("t-b").unwrap().worktree.as_deref(), Some("wt1"));
    assert_eq!(s.bind_worktree("t-q", "wt1").unwrap_err(), "任务不存在");
}

#[test]
fn task_list_lines() {
    let mut s = TaskStore::new();
    assert_eq!(task_list_text(&s.all()), "(任务图为空)");
    s.create_with_id("t-a".into(), "设计", "", vec![]);
    s.create_with_id("t-b".into(), "实现", "", vec!["t-a".into(), "t-c".into()]);
    s.claim("t-a", "alice").unwrap();
    assert_eq!(task_list_text(&s.all()), "t-a [in_progress] 设计 @alice\nt-b [pending] 实现 (依赖: t-a,t-c)");
}

#[test]
fn created_ids_are_random_hex() {
    let mut s = TaskStore::new();
    let t = s.create("x", "", vec![]);
    assert!(t.id.starts_with("t-"));
    assert_eq!(t.id.len(), 34);
    assert!(t.id[2..].chars().all(|c| c.is_ascii_hexdigit()));
    let u = s.create("y", "", vec![]);
    assert_ne!(t.id, u.id);
    assert_eq!(s.all().len(), 2);
}
