use laver_agent::cron::CronScheduler;
use laver_agent::gateway::{
    connection_reply, create_manual_job, export_file_name, export_markdown, find_job, manual_prompt,
    message_with_attachments, session_title, title_from_reply, tree_descends, tree_entries, tree_skips,
};
use laver_agent::llm::types::{ContentBlock, Message};

#[test]
fn session_texts() {
    assert_eq!(session_title("  ").unwrap_err(), "会话名称不能为空");
    assert_eq!(session_title(" 周报 ").unwrap(), "周报");
    assert_eq!(message_with_attachments("看看".into(), None), "看看");
    assert_eq!(message_with_attachments("看看".into(), Some(vec![])), "看看");
    assert_eq!(
        message_with_attachments("看看".into(), Some(vec!["a.xlsx".into(), "b.pdf".into()])),
        "看看\n\n[附件] 用户提供了以下文件，需要时可用 read_file 读取或用 shell/技能处理：\n- a.xlsx\n- b.pdf"
    );
}

#[test]
fn sessions_export_to_markdown() {
    let ms = vec![
        Message::user_text("问".into()),
        Message::assistant_text("  ".into()),
        Message::assistant_text("答".into()),
    ];
    assert_eq!(export_markdown("T", &ms), "# T\n\n## 👤 用户\n\n问\n\n## 🤖 助手\n\n答\n\n");
    assert_eq!(export_file_name("a/b:c?"), "a_b_c_.md");
}

#[test]
fn reply_texts() {
    let reply = vec![ContentBlock::Text { text: "「周报".into() }, ContentBlock::Text { text: "」".into() }];
    assert_eq!(title_from_reply(&reply), Some("周报".to_string()));
    assert_eq!(connection_reply(&reply), "「周报 」");
}

#[test]
fn manual_jobs() {
    let mut c = CronScheduler::new();
    assert_eq!(create_manual_job(&mut c, "s1", None, "* * * * *", " ", None).unwrap_err(), "定时任务内容不能为空");
    assert!(create_manual_job(&mut c, "s1", None, "bad", "x", None).unwrap_err().starts_with("cron 表达式无效: "));
    let j = create_manual_job(&mut c, "s1", Some("  ".into()), "0 9 * * *", "早报\n详情", Some(false)).unwrap();
    assert_eq!(j.title, "早报");
    assert!(j.durable && !j.recurring);
    let k = create_manual_job(&mut c, "s1", Some(" 自定义 ".into()), "0 9 * * *", "p", None).unwrap();
    assert_eq!(k.title, "自定义");
    assert!(k.recurring);
    assert_eq!(find_job(&c, &j.id).unwrap().prompt, "早报\n详情");
    assert_eq!(find_job(&c, "cron-x").unwrap_err(), "定时任务不存在");
    assert_eq!(manual_prompt("p"), "[手动触发定时任务] p");
}

#[test]
fn folder_trees() {
    assert!(tree_skips("node_modules"));
    assert!(!tree_skips("src"));
    assert!(tree_descends(4));
    assert!(!tree_descends(5));
    let entries = vec![
        ("b.txt".to_string(), "/r/b.txt".to_string(), false),
        ("Zeta".to_string(), "/r/Zeta".to_string(), true),
        ("A.txt".to_string(), "/r/A.txt".to_string(), false),
        (".git".to_string(), "/r/.git".to_string(), true),
        ("alpha".to_string(), "/r/alpha".to_string(), true),
    ];
    let shown: Vec<String> = tree_entries(entries).into_iter().map(|e| e.0).collect();
    assert_eq!(shown, vec!["alpha", "Zeta", "A.txt", "b.txt"]);
    let many: Vec<(String, String, bool)> = (0..305).map(|i| (format!("f{i:03}"), format!("/r/f{i:03}"), false)).collect();
    assert_eq!(tree_entries(many).len(), 300);
}
