use laver_agent::agent::memory::{
    consolidation_request, extract_json_array, extraction_request, index_block, index_file_text, memory_file_name,
    memory_markdown, names_in_reply, needs_consolidation, parse_memory_items, render_injection, safe_name,
    select_by_keywords, select_named, selection_request, MemoryItem, consolidation_update, extraction_update, MemoryUpdate,
};

fn item(name: &str, description: &str, content: &str) -> MemoryItem {
    MemoryItem {
        name: name.to_string(),
        description: description.to_string(),
        mtype: "user".to_string(),
        content: content.to_string(),
    }
}

fn names(v: &[MemoryItem]) -> Vec<String> {
    v.iter().map(|m| m.name.clone()).collect()
}

#[test]
fn index_lines() {
    assert_eq!(index_block(&vec![]), "");
    let v = vec![item("tz", "时区", "UTC+8"), item("lang", "语言", "中文")];
    assert_eq!(index_block(&v), "已保存的长期记忆 (需要时可参考):\n- [user] tz: 时区\n- [user] lang: 语言");
    assert_eq!(index_file_text(&v), "# 记忆索引\n\n- [tz](tz.md) — 时区\n- [lang](lang.md) — 语言\n");
}

#[test]
fn keyword_ranking_is_stable_and_capped() {
    let v = vec![
        item("a", "report weekly", "x"),
        item("b", "nothing", "y"),
        item("c", "weekly", "report"),
        item("d", "Weekly", "z"),
        item("e", "weekly", "z"),
        item("f", "weekly", "z"),
        item("g", "weekly", "z"),
    ];
    let r = select_by_keywords(&v, "Weekly REPORT");
    assert_eq!(names(&r), vec!["a", "c", "d", "e", "f"]);
    assert!(select_by_keywords(&v, "").is_empty());
    assert!(select_by_keywords(&v, "unrelated").is_empty());
}

#[test]
fn injection_block() {
    assert!(render_injection(&vec![]).is_none());
    let v = vec![item("tz", "时区", "UTC+8"), item("lang", "语言", "中文")];
    assert_eq!(render_injection(&v).unwrap(), "[相关长期记忆]\n\n## tz\nUTC+8\n\n## lang\n中文");
}

#[test]
fn file_names_and_markdown() {
    assert_eq!(safe_name("a/b\\c d"), "a_b_c_d");
    assert_eq!(memory_file_name("my note"), "my_note.md");
    assert_eq!(
        memory_markdown(&item("tz", "时区", "UTC+8")),
        "---\nname: tz\ndescription: 时区\ntype: user\n---\nUTC+8\n"
    );
    assert!(!needs_consolidation(9));
    assert!(needs_consolidation(10));
}

#[test]
fn json_array_extraction() {
    assert_eq!(extract_json_array("sure: [1, [2]] done"), "[1, [2]]");
    assert_eq!(extract_json_array("nothing"), "[]");
    assert_eq!(extract_json_array("] before ["), "[]");
}

#[test]
fn items_are_parsed_with_defaults() {
    let v = parse_memory_items(
        r#"[{"name":" tz ","content":"UTC+8"},{"name":""},{"name":"lang","type":"project","description":"d"}]"#,
    )
    .unwrap();
    assert_eq!(v.len(), 2);
    assert_eq!(v[0].name, "tz");
    assert_eq!(v[0].mtype, "reference");
    assert_eq!(v[0].description, "");
    assert_eq!(v[0].content, "UTC+8");
    assert_eq!(v[1].mtype, "project");
    assert!(parse_memory_items("not json").is_none());
    assert!(parse_memory_items("{}").is_none());
}

#[test]
fn model_choice_of_memories() {
    assert_eq!(names_in_reply("- tz\n\n  -  LANG \nnone"), vec!["tz", "LANG", "none"]);
    let v = vec![item("tz", "时区", "x"), item("lang", "语言", "y"), item("misc", "weekly", "z")];
    let chosen = select_named(&v, &vec!["LANG".to_string(), "tz".to_string()], "q");
    assert_eq!(names(&chosen), vec!["tz", "lang"]);
    let fallback = select_named(&v, &vec!["zzz".to_string()], "weekly");
    assert_eq!(names(&fallback), vec!["misc"]);
}

#[test]
fn memory_queries() {
    assert!(selection_request(&vec![], "m", "q").is_none());
    let v = vec![item("tz", "时区", "x")];
    let s = selection_request(&v, "m", "几点").unwrap();
    assert_eq!(s.messages[0].text(), "记忆目录:\ntz: 时区\n\n用户输入:\n几点");
    assert_eq!(s.max_tokens, 512);
    let e = extraction_request(&v, "m", "chat");
    assert_eq!(e.messages[0].text(), "已存在的记忆名称: [tz]\n\n最近对话:\nchat");
    assert_eq!(e.max_tokens, 1024);
    assert!(consolidation_request(&v, "m").is_none());
    let many: Vec<MemoryItem> = (0..10).map(|i| item(&format!("n{i}"), "d", "c")).collect();
    let c = consolidation_request(&many, "m").unwrap();
    assert!(c.messages[0].text().starts_with("n0|user|d|c\nn1|user|d|c"));
    assert_eq!(c.max_tokens, 4096);
}

fn text_reply(t: &str) -> Vec<laver_agent::llm::types::ContentBlock> {
    vec![laver_agent::llm::types::ContentBlock::Text { text: t.to_string() }]
}

#[test]
fn memory_updates_from_replies() {
    let one = r#"结果：[{"name":"a","description":"d","type":"user","content":"c"}]"#;
    match extraction_update(&text_reply(one)) {
        MemoryUpdate::Add(v) => assert_eq!(v[0].name, "a"),
        other => panic!("expected Add, got {other:?}"),
    }
    assert!(matches!(extraction_update(&text_reply("没有新记忆")), MemoryUpdate::Add(v) if v.is_empty()));
    assert!(matches!(extraction_update(&text_reply("[1, 2")), MemoryUpdate::Add(v) if v.is_empty()));
    assert!(matches!(extraction_update(&text_reply("[not json]")), MemoryUpdate::Keep));
    match consolidation_update(&text_reply(one)) {
        MemoryUpdate::Replace(v) => assert_eq!(v.len(), 1),
        other => panic!("expected Replace, got {other:?}"),
    }
    assert!(matches!(consolidation_update(&text_reply("[]")), MemoryUpdate::Keep));
    assert!(matches!(consolidation_update(&text_reply("no array")), MemoryUpdate::Keep));
}
