use laver_agent::team::protocol::{ProtocolRegistry, ProtocolStatus};

#[test]
fn protocol_state_machine() {
    let mut reg = ProtocolRegistry::new();
    let id = reg.create("shutdown", "lead", "worker-1", "please stop");
    assert_eq!(reg.get(&id).unwrap().status, ProtocolStatus::Pending);
    assert!(reg.match_response(&id, "plan_approval", true).is_err());
    assert!(reg.match_response(&id, "shutdown", true).is_ok());
    assert_eq!(reg.get(&id).unwrap().status, ProtocolStatus::Approved);
    assert!(reg.match_response(&id, "shutdown", true).is_err());
}

use laver_agent::tasks::TaskStore;
use laver_agent::team::life::{farewell, idle_poll, teammate_mail_text, teammate_role_prompt, teammate_session_id, IdlePoll};
use laver_agent::team::mailbox::{injection_text, MailBus, MailMessage};
use laver_agent::team::registry::{TeamRegistry, TeammatePhase};

fn mail(mtype: &str) -> MailMessage {
    MailMessage {
        from: "lead".to_string(),
        to: "w1".to_string(),
        content: "hi".to_string(),
        mtype: mtype.to_string(),
        ts: "t".to_string(),
        request_id: None,
    }
}

#[test]
fn protocol_requests_are_listed() {
    let mut reg = ProtocolRegistry::new();
    let a = reg.create("plan_approval", "w1", "lead", "plan");
    assert!(a.starts_with("req-"));
    assert!(reg.match_response("req-nope", "plan_approval", true).is_err());
    assert!(reg.match_response(&a, "plan_approval", false).is_ok());
    assert_eq!(reg.get(&a).unwrap().status, ProtocolStatus::Rejected);
    assert_eq!(reg.list().len(), 1);
}

#[test]
fn idle_polls_in_priority_order() {
    let mut tasks = TaskStore::new();
    tasks.create_with_id("t-1".into(), "写报告", "细节", vec![]);
    assert!(matches!(idle_poll(true, &vec![mail("text")], &mut tasks, "w1", 0), IdlePoll::Shutdown));
    assert!(matches!(
        idle_poll(false, &vec![mail("text"), mail("shutdown_request")], &mut tasks, "w1", 0),
        IdlePoll::ShutdownRequested
    ));
    assert!(matches!(idle_poll(false, &vec![mail("text")], &mut tasks, "w1", 0), IdlePoll::Drain));
    match idle_poll(false, &vec![], &mut tasks, "w1", 0) {
        IdlePoll::Claimed(t) => assert_eq!(t, "你认领了任务 t-1: 写报告\n细节"),
        _ => panic!("expected a claim"),
    }
    assert_eq!(tasks.get("t-1").unwrap().owner.as_deref(), Some("w1"));
    assert!(matches!(idle_poll(false, &vec![], &mut tasks, "w1", 60), IdlePoll::Wait));
    assert!(matches!(idle_poll(false, &vec![], &mut tasks, "w1", 61), IdlePoll::TimedOut));
}

#[test]
fn teammate_texts() {
    assert!(teammate_role_prompt("w1", "测试").starts_with("你是团队成员 w1，职责: 测试。\n"));
    assert_eq!(teammate_mail_text(&mail("text")), "[来自 lead]: hi");
    let f = farewell("w1", "ts".into());
    assert_eq!(f.to, "lead");
    assert_eq!(f.content, "队友 w1 已结束工作并退出。");
    assert_eq!(f.mtype, "summary");
    assert_eq!(teammate_session_id("w1"), "teammate::w1");
}

#[test]
fn mail_injection_and_paths() {
    assert!(injection_text(&vec![], &vec![]).is_none());
    let t = injection_text(&vec!["<note>".to_string()], &vec![mail("text")]).unwrap();
    assert_eq!(t, "<note>\n\n[来自 lead 的消息 (text)]: hi");
    let bus = MailBus::new("/data");
    assert_eq!(bus.dir, "/data/.mailboxes");
    assert_eq!(bus.path("team lead"), "/data/.mailboxes/team_lead.jsonl");
}

#[test]
fn team_registry_lifecycle() {
    let mut r = TeamRegistry::new();
    let h = r.register("w1", "测试", "teammate::w1");
    assert_eq!(h.info.phase, TeammatePhase::Work);
    assert!(!r.shutdown_requested("w1"));
    r.set_phase("w1", TeammatePhase::Idle);
    assert_eq!(r.get("w1").unwrap().info.phase, TeammatePhase::Idle);
    assert!(r.request_shutdown("w1"));
    assert!(!r.request_shutdown("w9"));
    assert!(r.shutdown_requested("w1"));
    r.register("w2", "dev", "teammate::w2");
    let mut names = r.names();
    names.sort();
    assert_eq!(names, vec!["w1".to_string(), "w2".to_string()]);
    assert_eq!(r.list().len(), 2);
    r.remove("w1");
    assert!(r.get("w1").is_none());
    assert_eq!(r.list().len(), 1);
}
