use laver_agent::agent::compact::{
    compact_in_memory, fix_leading_role, micro_compact, reactive_join, reactive_split, render_transcript,
    replace_last_result, should_compact, snip_compact, spill_targets, spilled_text, starts_with_tool_result,
    summary_history, summary_request,
};
use laver_agent::llm::types::{ContentBlock, LlmError, Message, Role, ThinkingLevel};

fn user(t: &str) -> Message {
    Message::user_text(t.to_string())
}

fn result(id: &str, content: &str) -> ContentBlock {
    ContentBlock::ToolResult { tool_use_id: id.to_string(), content: content.to_string(), is_error: false }
}

fn texts(ms: &[Message]) -> Vec<String> {
    ms.iter().map(|m| m.text()).collect()
}

#[test]
fn short_history_is_not_snipped() {
    let mut ms: Vec<Message> = (0..50).map(|i| user(&format!("m{i}"))).collect();
    snip_compact(&mut ms);
    assert_eq!(ms.len(), 50);
}

#[test]
fn long_history_keeps_head_marker_and_tail() {
    let mut ms: Vec<Message> = (0..60).map(|i| user(&format!("m{i}"))).collect();
    snip_compact(&mut ms);
    assert_eq!(ms.len(), 3 + 1 + 47);
    assert_eq!(ms[0].text(), "m0");
    assert_eq!(ms[2].text(), "m2");
    assert_eq!(ms[3].role, Role::Assistant);
    assert_eq!(ms[3].text(), "[... 省略了 10 条较早的消息以节省上下文 ...]");
    assert_eq!(ms[4].text(), "m13");
    assert_eq!(ms[50].text(), "m59");
}

#[test]
fn snip_never_orphans_a_tool_result() {
    let mut ms: Vec<Message> = (0..60).map(|i| user(&format!("m{i}"))).collect();
    ms[13] = Message::tool_results(vec![result("a", "x")]);
    ms[14] = Message::tool_results(vec![result("b", "y")]);
    snip_compact(&mut ms);
    assert_eq!(ms.len(), 3 + 1 + 45);
    assert_eq!(ms[3].text(), "[... 省略了 12 条较早的消息以节省上下文 ...]");
    assert!(!starts_with_tool_result(&ms[4]));
    assert_eq!(ms[4].text(), "m15");
}

#[test]
fn micro_compact_keeps_recent_results() {
    let long = "x".repeat(300);
    let mut ms: Vec<Message> = (0..5).map(|i| Message::tool_results(vec![result(&i.to_string(), &long)])).collect();
    micro_compact(&mut ms);
    let first = match &ms[0].content[0] {
        ContentBlock::ToolResult { content, .. } => content.clone(),
        _ => panic!(),
    };
    assert_eq!(first, format!("[旧工具结果已省略] {}...", "x".repeat(200)));
    for m in &ms[2..] {
        match &m.content[0] {
            ContentBlock::ToolResult { content, .. } => assert_eq!(content, &long),
            _ => panic!(),
        }
    }
}

#[test]
fn micro_compact_leaves_short_results() {
    let mut ms: Vec<Message> = (0..6).map(|i| Message::tool_results(vec![result(&i.to_string(), "short")])).collect();
    micro_compact(&mut ms);
    for m in &ms {
        match &m.content[0] {
            ContentBlock::ToolResult { content, .. } => assert_eq!(content, "short"),
            _ => panic!(),
        }
    }
}

#[test]
fn spill_targets_only_over_budget() {
    let big = "y".repeat(150_000);
    let ms = vec![Message::tool_results(vec![result("a", &big), result("b", "small"), result("c", &big)])];
    assert_eq!(spill_targets(&ms), vec![0, 2]);
    let ms2 = vec![Message::tool_results(vec![result("a", &big)])];
    assert!(spill_targets(&ms2).is_empty());
    let ms3 = vec![Message::assistant_text(big.clone())];
    assert!(spill_targets(&ms3).is_empty());
}

#[test]
fn spilled_text_has_preview_and_path() {
    let t = spilled_text(&"z".repeat(2500), "/tmp/o.txt");
    assert_eq!(t, format!("{}\n... [完整输出已落盘: /tmp/o.txt，需要时用 read_file 读取]", "z".repeat(2000)));
    let mut ms = vec![Message::tool_results(vec![result("a", "old")])];
    replace_last_result(&mut ms, 0, "new".to_string());
    match &ms[0].content[0] {
        ContentBlock::ToolResult { tool_use_id, content, is_error } => {
            assert_eq!(tool_use_id, "a");
            assert_eq!(content, "new");
            assert!(!is_error);
        }
        _ => panic!(),
    }
}

#[test]
fn compaction_threshold() {
    let ms = vec![user(&"a".repeat(400))];
    assert!(!should_compact(&ms, 200_000, 8_000));
    assert!(should_compact(&ms, 13_100, 0));
    assert!(should_compact(&ms, 100, 8_000));
}

#[test]
fn transcript_and_summary_request() {
    let ms = vec![
        user("hi"),
        Message {
            role: Role::Assistant,
            content: vec![ContentBlock::ToolUse { id: "1".into(), name: "glob".into(), input: "{}".into() }],
        },
        Message::tool_results(vec![result("1", "a.txt")]),
    ];
    let t = render_transcript(&ms);
    assert_eq!(t, "[USER] hi\n[ASSISTANT 调用工具 glob] {}\n[工具结果] a.txt\n");
    let r = summary_request("m1", &ms);
    assert_eq!(r.model, "m1");
    assert_eq!(r.messages.len(), 1);
    assert_eq!(r.messages[0].text(), format!("请摘要以下对话:\n\n{t}"));
    assert_eq!(r.thinking, ThinkingLevel::Off);
    assert_eq!(r.max_tokens, 8_000);
}

#[test]
fn summary_history_refuses_blank() {
    match summary_history(&vec![ContentBlock::Text { text: "  \n".into() }]) {
        Err(LlmError::Api { status, message }) => {
            assert_eq!(status, 0);
            assert_eq!(message, "摘要为空");
        }
        _ => panic!("expected error"),
    }
    let ok = summary_history(&vec![ContentBlock::Text { text: "done".into() }]).unwrap();
    assert_eq!(texts(&ok), vec!["[对话历史摘要 — 之前的对话已压缩]\ndone".to_string()]);
}

#[test]
fn reactive_compaction_keeps_tail() {
    let short: Vec<Message> = (0..5).map(|i| user(&i.to_string())).collect();
    assert!(reactive_split(&short).is_none());
    let ms: Vec<Message> = (0..8).map(|i| user(&i.to_string())).collect();
    let (head, tail) = reactive_split(&ms).unwrap();
    assert_eq!(texts(&head), vec!["0", "1", "2"]);
    assert_eq!(texts(&tail), vec!["3", "4", "5", "6", "7"]);
    let joined = reactive_join(vec![Message::assistant_text("sum".into())], &tail);
    assert_eq!(joined.len(), 7);
    assert_eq!(joined[0].text(), "[继续]");
    assert_eq!(joined[1].text(), "sum");
}

#[test]
fn leading_role_is_fixed_once() {
    let mut ms = vec![user("a")];
    fix_leading_role(&mut ms);
    assert_eq!(ms.len(), 1);
    let mut ms2: Vec<Message> = vec![];
    fix_leading_role(&mut ms2);
    assert!(ms2.is_empty());
}

#[test]
fn in_memory_passes_compose() {
    let mut ms: Vec<Message> = (0..60).map(|i| user(&format!("m{i}"))).collect();
    compact_in_memory(&mut ms);
    assert_eq!(ms.len(), 51);
}
