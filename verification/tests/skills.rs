use laver_agent::agent::skills::{
    frontmatter_body, import_entry_target, import_name, locate_skill_prefix, parse_skill, split_frontmatter,
    SkillEntry, SkillMeta, SkillRegistry,
};

const PDF: &str = "---\nname: pdf\ndescription: 读 PDF\nwhen_to_use: 用户给了 PDF\n---\n\n正文";

#[test]
fn frontmatter_is_split() {
    let (front, body) = split_frontmatter(PDF);
    assert_eq!(front.as_deref(), Some("name: pdf\ndescription: 读 PDF\nwhen_to_use: 用户给了 PDF"));
    assert_eq!(body, "正文");
    let (none, same) = split_frontmatter("no front");
    assert!(none.is_none());
    assert_eq!(same, "no front");
    assert_eq!(frontmatter_body("\u{feff}---\na: 1\n---\r\nbody"), "body");
    let (unclosed, raw) = split_frontmatter("---\nname: x\n");
    assert!(unclosed.is_none());
    assert_eq!(raw, "---\nname: x\n");
}

#[test]
fn skill_is_parsed_with_fallback_name() {
    let e = parse_skill(PDF, "/s/pdf/SKILL.md", "/s/pdf").unwrap();
    assert_eq!(e.meta.name, "pdf");
    assert_eq!(e.meta.description, "读 PDF");
    assert_eq!(e.meta.when_to_use.as_deref(), Some("用户给了 PDF"));
    assert_eq!(e.body, "正文");
    let f = parse_skill("just text", "/s/notes/SKILL.md", "/s/notes").unwrap();
    assert_eq!(f.meta.name, "notes");
    assert_eq!(f.meta.description, "");
    assert!(f.meta.when_to_use.is_none());
    let h = parse_skill("---\nname: a\nwhen-to-use: later\n---\nx", "/s/a/SKILL.md", "/s/a").unwrap();
    assert_eq!(h.meta.when_to_use.as_deref(), Some("later"));
    assert!(parse_skill("---\nname: ../evil\n---\nx", "/s/e/SKILL.md", "/s/e").is_none());
}

fn registry() -> SkillRegistry {
    let mut r = SkillRegistry::new();
    let found = vec![
        parse_skill(PDF, "/s/pdf/SKILL.md", "/s/pdf").unwrap(),
        parse_skill("---\nname: excel\ndescription: 表格\n---\nE", "/s/excel/SKILL.md", "/s/excel").unwrap(),
        parse_skill("---\nname: pdf\ndescription: 新版\n---\nP2", "/s/pdf2/SKILL.md", "/s/pdf2").unwrap(),
    ];
    r.scan("/s", found);
    r
}

#[test]
fn scan_orders_by_name_and_later_wins() {
    let r = registry();
    let names: Vec<String> = r.list().into_iter().map(|m| m.name).collect();
    assert_eq!(names, vec!["excel".to_string(), "pdf".to_string()]);
    assert_eq!(r.catalog(), "- excel: 表格\n- pdf: 新版");
    assert_eq!(r.root(), "/s");
}

#[test]
fn load_and_locate_skills() {
    let r = registry();
    assert_eq!(r.load("excel").unwrap(), "# 技能: excel\nE\n\n(技能目录: /s/excel)");
    assert!(r.load("word").is_none());
    assert_eq!(r.skill_file("pdf").unwrap(), "/s/pdf2/SKILL.md");
    assert_eq!(r.skill_file("word").unwrap_err(), "技能不存在");
    assert_eq!(r.skill_dir_to_delete("excel").unwrap(), "/s/excel");
    assert_eq!(r.skill_dir_to_delete("word").unwrap_err(), "技能不存在");
}

#[test]
fn deleting_outside_the_root_is_refused() {
    let mut r = SkillRegistry::new();
    r.scan("/s", vec![parse_skill("x", "/SKILL.md", "/elsewhere").unwrap()]);
    assert_eq!(r.skill_dir_to_delete("elsewhere").unwrap_err(), "非法的技能路径");
}

#[test]
fn catalog_shows_when_to_use() {
    let mut r = SkillRegistry::new();
    r.scan("/s", vec![parse_skill(PDF, "/s/pdf/SKILL.md", "/s/pdf").unwrap()]);
    assert_eq!(r.catalog(), "- pdf: 读 PDF (适用: 用户给了 PDF)");
}

#[test]
fn planning_a_new_skill() {
    let empty = SkillRegistry::new();
    assert_eq!(empty.require_root().unwrap_err(), "技能目录未初始化");
    assert_eq!(empty.plan_skill("  ", "d", "", "b").unwrap_err(), "技能名称不能为空");
    assert_eq!(empty.plan_skill("a/b", "d", "", "b").unwrap_err(), "技能名称不能包含路径分隔符");
    assert_eq!(empty.plan_skill("ok", "d", "", "b").unwrap_err(), "技能目录未初始化");
    let r = registry();
    let (name, text) = r.plan_skill(" memo ", "备忘", "", "body").unwrap();
    assert_eq!(name, "memo");
    assert_eq!(text, "---\nname: memo\ndescription: 备忘\n---\n\nbody\n");
    let (_, with_when) = r.plan_skill("memo", "备忘", "开会时", "body").unwrap();
    assert_eq!(with_when, "---\nname: memo\ndescription: 备忘\nwhen_to_use: 开会时\n---\n\nbody\n");
}

#[test]
fn zip_prefix_and_name() {
    let top = vec!["readme.txt".to_string(), "SKILL.md".to_string()];
    assert_eq!(locate_skill_prefix(&top).as_deref(), Some(""));
    let nested = vec!["pdf/".to_string(), "pdf\\SKILL.md".to_string(), "x/y/SKILL.md".to_string()];
    assert_eq!(locate_skill_prefix(&nested).as_deref(), Some("pdf/"));
    let none = vec!["a/b/SKILL.md".to_string()];
    assert!(locate_skill_prefix(&none).is_none());
    assert_eq!(import_name("pdf/", "/d/x.zip").unwrap(), "pdf");
    assert_eq!(import_name("", "/d/tool.zip").unwrap(), "tool");
    assert_eq!(import_name("", "/d/a..b.zip").unwrap_err(), "无法从 zip 包推断合法的技能名称");
    assert_eq!(import_name("", "").unwrap_err(), "无法从 zip 包推断合法的技能名称");
    assert_eq!(import_name("a/b/", "/d/x.zip").unwrap_err(), "无法从 zip 包推断合法的技能名称");
}

#[test]
fn zip_entries_are_checked() {
    assert_eq!(import_entry_target("pdf/", "other/a.txt").unwrap(), None);
    assert_eq!(import_entry_target("pdf/", "pdf/").unwrap(), None);
    assert_eq!(import_entry_target("pdf/", "pdf\\docs\\a.txt").unwrap(), Some("docs/a.txt".to_string()));
    assert_eq!(import_entry_target("pdf/", "pdf/docs/").unwrap(), Some("docs/".to_string()));
    assert_eq!(import_entry_target("pdf/", "pdf/../x").unwrap_err(), "zip 包内存在非法路径: pdf/../x");
    assert_eq!(import_entry_target("pdf/", "pdf/a//b").unwrap_err(), "zip 包内存在非法路径: pdf/a//b");
}

#[test]
fn scan_leaves_out_names_that_leave_the_folder() {
    let mut r = SkillRegistry::new();
    let bad = SkillEntry {
        meta: SkillMeta { name: "../evil".to_string(), description: String::new(), when_to_use: None, dir: "/s/e".to_string() },
        body: String::new(),
        path: "/s/e/SKILL.md".to_string(),
    };
    r.scan("/s", vec![bad, parse_skill(PDF, "/s/pdf/SKILL.md", "/s/pdf").unwrap()]);
    let names: Vec<String> = r.list().into_iter().map(|m| m.name).collect();
    assert_eq!(names, vec!["pdf".to_string()]);
    assert!(r.load("../evil").is_none());
}
