use laver_agent::agent::hooks::{HookEvent, HookRegistry};
use laver_agent::agent::prompt::{PromptBuilder, PromptContext, IDENTITY};

fn ctx(role: Option<&str>, skills: &str, memory: &str) -> PromptContext {
    PromptContext {
        workspace: "D:/work".to_string(),
        os_info: "Windows 11".to_string(),
        tool_names: vec!["read_file".to_string(), "glob".to_string()],
        skill_catalog: skills.to_string(),
        memory_index: memory.to_string(),
        agent_role: role.map(|r| r.to_string()),
    }
}

#[test]
fn prompt_without_optional_parts() {
    let mut b = PromptBuilder::new();
    let p = b.build(&ctx(None, "  ", ""));
    let expected = format!(
        "{IDENTITY}\n\n## 可用工具\nread_file, glob\n\n<<<DYNAMIC>>>\n\n## 运行环境\n操作系统: Windows 11\n工作目录: D:/work\n"
    );
    assert_eq!(p, expected);
}

#[test]
fn prompt_with_role_skills_and_memory() {
    let mut b = PromptBuilder::new();
    let p = b.build(&ctx(Some("审稿人"), "- pdf: 读 PDF", "- [a](a.md)"));
    let expected = format!(
        "{IDENTITY}\n\n## 你的角色\n审稿人\n\n## 可用工具\nread_file, glob\n\n<<<DYNAMIC>>>\n\n## 运行环境\n操作系统: Windows 11\n工作目录: D:/work\n\n## 可加载技能 (用 load_skill 加载完整说明)\n- pdf: 读 PDF\n\n## 长期记忆索引\n- [a](a.md)"
    );
    assert_eq!(p, expected);
}

#[test]
fn prompt_builder_reuses_and_rebuilds() {
    let mut b = PromptBuilder::new();
    let c1 = ctx(None, "", "");
    let first = b.build(&c1);
    let again = b.build(&c1);
    assert_eq!(first, again);
    let c2 = ctx(None, "", "- [m](m.md)");
    let other = b.build(&c2);
    assert!(other.ends_with("\n\n## 长期记忆索引\n- [m](m.md)"));
    let fresh = PromptBuilder::new().build(&c2);
    assert_eq!(other, fresh);
}

#[test]
fn hooks_add_nothing_by_default() {
    let h = HookRegistry::new();
    assert!(h.on_user_prompt("hello").prepend.is_empty());
    h.on_post_tool(HookEvent::PostToolUse, "glob", true);
}

#[test]
fn empty_role_is_not_a_missing_role() {
    let mut b = PromptBuilder::new();
    let _ = b.build(&ctx(None, "", ""));
    let p = b.build(&ctx(Some(""), "", ""));
    assert!(p.contains("\n\n## 你的角色\n\n\n## 可用工具\n"));
    assert_eq!(p, PromptBuilder::new().build(&ctx(Some(""), "", "")));
}

#[test]
fn separator_in_fields_does_not_collide() {
    let mut b = PromptBuilder::new();
    let mut c1 = ctx(None, "", "");
    c1.workspace = "a|b".to_string();
    c1.os_info = "c".to_string();
    let mut c2 = ctx(None, "", "");
    c2.workspace = "a".to_string();
    c2.os_info = "b|c".to_string();
    let _ = b.build(&c1);
    let p = b.build(&c2);
    assert!(p.contains("工作目录: a\n"));
    assert!(p.contains("操作系统: b|c\n"));
}
