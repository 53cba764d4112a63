use laver_agent::agent::memory::{choose_relevant, reply_items, MemoryItem};
use laver_agent::agent::skills::{parse_skill, SkillRegistry};
use laver_agent::agent::tools::orchestration::{
    bool_arg_of, remember_answer, remember_item, run_cron_cancel, run_cron_list, run_cron_schedule, run_load_skill,
    run_send_message, run_shutdown_teammate, run_spawn_teammate, run_task_claim, run_task_complete, run_task_create,
    run_task_list, str_arg_of,
};
use laver_agent::cron::{delivery_step, fired_notice, CronScheduler, Delivery};
use laver_agent::llm::types::ContentBlock;
use laver_agent::tasks::TaskStore;
use laver_agent::team::protocol::ProtocolRegistry;
use laver_agent::team::registry::TeamRegistry;

#[test]
fn tool_arguments_have_defaults() {
    assert_eq!(str_arg_of("{\"a\":\"x\"}", "a", "d"), "x");
    assert_eq!(str_arg_of("{\"a\":1}", "a", "d"), "d");
    assert_eq!(str_arg_of("not json", "a", "d"), "d");
    assert!(bool_arg_of("{}", "b", true));
    assert!(!bool_arg_of("{\"b\":false}", "b", true));
}

#[test]
fn task_tools() {
    let mut s = TaskStore::new();
    let c = run_task_create(&mut s, r#"{"subject":"写报告","blocked_by":["t-x",3]}"#);
    assert!(!c.is_error);
    assert!(c.content.starts_with("已创建任务 t-"));
    assert!(c.content.ends_with(" — 写报告"));
    let all = s.all();
    assert_eq!(all.len(), 1);
    assert_eq!(all[0].blocked_by, vec!["t-x".to_string()]);
    let id = all[0].id.clone();
    let l = run_task_list(&s);
    assert_eq!(l.content, format!("{id} [pending] 写报告 (依赖: t-x)"));
    let claim = run_task_claim(&mut s, &format!("{{\"id\":\"{id}\"}}"), "w1");
    assert_eq!(claim.content, format!("已认领 {id} — 写报告"));
    let again = run_task_claim(&mut s, &format!("{{\"id\":\"{id}\"}}"), "w2");
    assert!(again.is_error);
    assert_eq!(again.content, "任务状态为 in_progress，无法认领");
    let done = run_task_complete(&mut s, &format!("{{\"id\":\"{id}\"}}"));
    assert_eq!(done.content, format!("任务 {id} 已完成"));
    let missing = run_task_complete(&mut s, "{}");
    assert!(missing.is_error);
    assert_eq!(missing.content, "任务不存在");
}

#[test]
fn cron_tools() {
    let mut c = CronScheduler::new();
    let (out, job) = run_cron_schedule(&mut c, r#"{"cron":"0 9 * * 1","prompt":"周报"}"#, "s1");
    let job = job.unwrap();
    assert!(job.recurring && job.durable);
    assert_eq!(job.session_id, "s1");
    assert_eq!(out.content, format!("已创建定时任务 {}: [0 9 * * 1] 周报", job.id));
    let (bad, none) = run_cron_schedule(&mut c, r#"{"cron":"nope","prompt":"x","durable":false}"#, "s1");
    assert!(bad.is_error && none.is_none());
    assert!(bad.content.starts_with("cron 表达式无效: "));
    assert_eq!(run_cron_list(&c).content, format!("{} [0 9 * * 1] 周报 (recurring=true)", job.id));
    let (cancel, id) = run_cron_cancel(&mut c, &format!("{{\"id\":\"{}\"}}", job.id));
    assert_eq!(id, job.id);
    assert_eq!(cancel.content, format!("已取消定时任务 {}", job.id));
    assert_eq!(run_cron_list(&c).content, "(无定时任务)");
}

#[test]
fn deliveries_wait_for_idle_sessions() {
    assert_eq!(delivery_step(false, 1000), Delivery::Deliver);
    assert_eq!(delivery_step(true, 300), Delivery::Wait);
    assert_eq!(delivery_step(true, 301), Delivery::GiveUp);
    assert_eq!(fired_notice("周报"), "定时任务触发: 周报");
}

#[test]
fn team_tools() {
    let (m, out) = run_send_message(r#"{"to":"w1","content":"hi","request_id":"req-1"}"#, "lead", "ts".into());
    assert_eq!(m.mtype, "text");
    assert_eq!(m.request_id.as_deref(), Some("req-1"));
    assert_eq!(out.content, "已发送消息给 w1");
    let mut team = TeamRegistry::new();
    let (e1, none) = run_spawn_teammate(&team, r#"{"name":"  ","role":"r"}"#);
    assert_eq!(e1.content, "name 不能为空");
    assert!(none.is_none());
    let (ok, args) = run_spawn_teammate(&team, r#"{"name":" w1 ","role":"测试"}"#);
    assert_eq!(ok.content, "已创建队友 w1");
    let (n, role, initial) = args.unwrap();
    assert_eq!((n.as_str(), role.as_str(), initial.as_str()), ("w1", "测试", ""));
    team.register("w1", "测试", "teammate::w1");
    let (dup, _) = run_spawn_teammate(&team, r#"{"name":"w1"}"#);
    assert_eq!(dup.content, "队友 w1 已存在");
    let mut proto = ProtocolRegistry::new();
    let (gone, nomail) = run_shutdown_teammate(&mut team, &mut proto, r#"{"name":"w9"}"#, "lead", "t".into());
    assert_eq!(gone.content, "队友 w9 不存在");
    assert!(nomail.is_none());
    let (asked, mail) = run_shutdown_teammate(&mut team, &mut proto, r#"{"name":"w1"}"#, "lead", "t".into());
    let mail = mail.unwrap();
    let req = mail.request_id.clone().unwrap();
    assert_eq!(asked.content, format!("已请求队友 w1 关机 (request_id={req})"));
    assert_eq!(mail.mtype, "shutdown_request");
    assert!(team.shutdown_requested("w1"));
    assert_eq!(proto.list().len(), 1);
}

#[test]
fn skill_and_memory_tools() {
    let mut r = SkillRegistry::new();
    r.scan("/s", vec![parse_skill("body", "/s/pdf/SKILL.md", "/s/pdf").unwrap()]);
    assert_eq!(run_load_skill(&r, "{\"name\":\"pdf\"}").content, "# 技能: pdf\nbody\n\n(技能目录: /s/pdf)");
    let miss = run_load_skill(&r, "{\"name\":\"doc\"}");
    assert!(miss.is_error);
    assert_eq!(miss.content, "未找到技能 'doc' 或该技能未启用");
    assert_eq!(remember_item("{\"content\":\"x\"}").unwrap_err(), "name 不能为空");
    let m = remember_item("{\"name\":\"tz\",\"content\":\"UTC+8\"}").unwrap();
    assert_eq!(m.mtype, "reference");
    assert_eq!(remember_answer("tz", Ok(())).content, "已记住: tz");
    assert!(remember_answer("tz", Err("disk".into())).is_error);
}

fn text(t: &str) -> ContentBlock {
    ContentBlock::Text { text: t.to_string() }
}

#[test]
fn memory_replies() {
    let items = vec![
        MemoryItem { name: "tz".into(), description: "时区".into(), mtype: "user".into(), content: "UTC+8".into() },
        MemoryItem { name: "lang".into(), description: "weekly".into(), mtype: "user".into(), content: "中文".into() },
    ];
    let reply = vec![text("- LANG"), text("tz")];
    let picked: Vec<String> = choose_relevant(&items, Some(&reply), "q").into_iter().map(|m| m.name).collect();
    assert_eq!(picked, vec!["tz".to_string(), "lang".to_string()]);
    let fallback: Vec<String> = choose_relevant(&items, None, "weekly").into_iter().map(|m| m.name).collect();
    assert_eq!(fallback, vec!["lang".to_string()]);
    let parsed = reply_items(&vec![text("结果:"), text(r#"[{"name":"a","content":"b"}]"#)]).unwrap();
    assert_eq!(parsed.len(), 1);
    assert_eq!(parsed[0].name, "a");
    assert!(reply_items(&vec![text("nothing")]).unwrap().is_empty());
}
