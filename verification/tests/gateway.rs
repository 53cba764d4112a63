use laver_agent::gateway::{
    clean_title, notice_payload, should_auto_title, storage_label, storage_summary, title_request, turn_state,
    TITLE_SYSTEM,
};
use laver_agent::llm::provider::{ProviderKind, ProviderSettings};
use laver_agent::llm::types::ThinkingLevel;
use laver_agent::model_provider::{default_name, key_account, ModelProfile, ModelStore};

#[test]
fn payloads() {
    let n = notice_payload("warn", "x".into());
    assert_eq!(n.level, "warn");
    let t = turn_state("s", "idle");
    assert_eq!(t.state, "idle");
    assert!(t.detail.is_none());
}

#[test]
fn storage_parts_largest_first() {
    assert_eq!(storage_label("skills"), Some("技能"));
    assert_eq!(storage_label("random"), None);
    let entries = vec![
        ("laver.db".to_string(), "/d/laver.db".to_string(), 100u64),
        ("skills".to_string(), "/d/skills".to_string(), 500),
        ("cache".to_string(), "/d/cache".to_string(), 70),
        ("junk".to_string(), "/d/junk".to_string(), 60),
        (".memory".to_string(), "/d/.memory".to_string(), 0),
    ];
    let (items, total) = storage_summary("/d", &entries);
    let labels: Vec<(String, u64)> = items.iter().map(|i| (i.label.clone(), i.bytes)).collect();
    assert_eq!(
        labels,
        vec![("技能".to_string(), 500), ("其他".to_string(), 130), ("会话数据库".to_string(), 100)]
    );
    assert_eq!(items[1].path, "/d");
    assert_eq!(total, 730);
    let (none, zero) = storage_summary("/d", &vec![]);
    assert!(none.is_empty());
    assert_eq!(zero, 0);
}

#[test]
fn session_titles() {
    assert!(should_auto_title(None));
    assert!(should_auto_title(Some("新对话 3")));
    assert!(should_auto_title(Some("会话")));
    assert!(!should_auto_title(Some("周报")));
    let r = title_request("m", "帮我写周报");
    assert_eq!(r.system, TITLE_SYSTEM);
    assert_eq!(r.max_tokens, 32);
    assert_eq!(r.messages[0].text(), "帮我写周报");
    assert_eq!(clean_title("「周报撰写」。\n多余"), Some("周报撰写".to_string()));
    assert_eq!(clean_title("  \"\" "), None);
    assert_eq!(clean_title(&"字".repeat(30)), Some("字".repeat(20)));
}

fn profile(id: &str, name: &str) -> ModelProfile {
    ModelProfile {
        id: id.to_string(),
        name: name.to_string(),
        kind: ProviderKind::Anthropic,
        base_url: "https://api".to_string(),
        model: format!("{name}-model"),
        context_window: 100_000,
        thinking: ThinkingLevel::Off,
        supports_thinking: false,
    }
}

#[test]
fn model_store_seeds_and_activates() {
    assert_eq!(key_account("m-1"), "model:m-1");
    assert_eq!(default_name(""), "默认模型");
    assert_eq!(default_name("gpt"), "gpt");
    let seeded = ModelStore::load(vec![], None, None);
    let p = seeded.active_profile().unwrap();
    assert_eq!(p.model, "qwen-max");
    assert_eq!(p.name, "qwen-max");
    assert!(p.supports_thinking);
    assert!(p.id.starts_with("m-"));
    let legacy = ProviderSettings { model: "glm-4".into(), ..ProviderSettings::default() };
    let from_legacy = ModelStore::load(vec![], None, Some(legacy));
    assert_eq!(from_legacy.settings().model, "glm-4");
    let s = ModelStore::load(vec![profile("a", "A"), profile("b", "B")], None, None);
    assert_eq!(s.active_id().as_deref(), Some("a"));
    let s2 = ModelStore::load(vec![profile("a", "A"), profile("b", "B")], Some("b".into()), None);
    assert_eq!(s2.settings().model, "B-model");
}

#[test]
fn model_store_edits() {
    let mut s = ModelStore::load(vec![profile("a", "A")], None, None);
    let id = s.upsert(profile("  ", "C"));
    assert!(id.starts_with("m-"));
    assert_eq!(s.upsert(profile("a", "A2")), "a");
    let dtos = s.list(&vec![true, false]);
    assert_eq!(dtos.len(), 2);
    assert_eq!(dtos[0].profile.name, "A2");
    assert!(dtos[0].active && dtos[0].has_key);
    assert!(!dtos[1].active);
    assert_eq!(s.set_active("zz").unwrap_err(), "模型不存在");
    s.set_active(&id).unwrap();
    s.set_runtime(&id, Some(10), Some(ThinkingLevel::High)).unwrap();
    let p = s.active_profile().unwrap();
    assert_eq!(p.context_window, 4000);
    assert_eq!(p.thinking, ThinkingLevel::High);
    s.set_runtime(&id, Some(9_000_000), None).unwrap();
    assert_eq!(s.active_profile().unwrap().context_window, 2_000_000);
    assert_eq!(s.set_runtime("zz", None, None).unwrap_err(), "模型不存在");
    s.delete(&id);
    assert_eq!(s.active_id().as_deref(), Some("a"));
    s.delete("a");
    assert!(s.active_id().is_none());
    assert_eq!(s.provider_settings(Some("k".into())).unwrap_err(), "尚未配置任何模型，请先添加模型");
}

#[test]
fn provider_settings_need_a_key() {
    let s = ModelStore::load(vec![profile("a", "A")], None, None);
    assert_eq!(s.provider_settings(None).unwrap_err(), "模型「A」未配置 API Key");
    assert_eq!(s.provider_settings(Some(String::new())).unwrap_err(), "模型「A」未配置 API Key");
    let (settings, key) = s.provider_settings(Some("sk".into())).unwrap();
    assert_eq!(key, "sk");
    assert_eq!(settings.model, "A-model");
    assert_eq!(settings.kind, ProviderKind::Anthropic);
    assert!(settings.fallback_model.is_none());
}
