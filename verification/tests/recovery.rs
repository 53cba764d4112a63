use laver_agent::agent::recovery::{RecoveryAction, RecoveryState};
use laver_agent::agent::turn::{AgentLoop, ErrorStep, ReplyStep, RoundStart};
use laver_agent::agent::tools::AgentKind;
use laver_agent::constants::{CONSECUTIVE_529_FALLBACK, MAX_CONTINUATION_ATTEMPTS};
use laver_agent::llm::types::{LlmError, StopReason};

#[test]
fn max_tokens_escalates_then_continues_then_gives_up() {
    let mut s = RecoveryState::default();
    assert!(matches!(s.on_max_tokens(), RecoveryAction::EscalateMaxTokens));
    for _ in 0..MAX_CONTINUATION_ATTEMPTS {
        assert!(matches!(s.on_max_tokens(), RecoveryAction::ContinueTruncated));
    }
    assert!(matches!(s.on_max_tokens(), RecoveryAction::GiveUp(_)));
}

#[test]
fn prompt_too_long_once() {
    let mut s = RecoveryState::default();
    assert!(matches!(s.on_prompt_too_long(), RecoveryAction::ReactiveCompact));
    assert!(matches!(s.on_prompt_too_long(), RecoveryAction::GiveUp(_)));
}

#[test]
fn consecutive_529_switches_model() {
    let mut s = RecoveryState::default();
    let mut switched = false;
    for _ in 0..CONSECUTIVE_529_FALLBACK {
        if let RecoveryAction::Backoff { switch_to_fallback, .. } = s.on_transient(&LlmError::Overloaded) {
            switched = switch_to_fallback;
        }
    }
    assert!(switched);
}

#[test]
fn give_up_texts_name_the_cause() {
    let mut s = RecoveryState::default();
    s.on_prompt_too_long();
    match s.on_prompt_too_long() {
        RecoveryAction::GiveUp(m) => assert_eq!(m, "上下文仍然超限 (reactive compact 已用尽)"),
        _ => panic!("expected give up"),
    }
    let mut t = RecoveryState::default();
    for _ in 0..4 {
        t.on_max_tokens();
    }
    match t.on_max_tokens() {
        RecoveryAction::GiveUp(m) => assert_eq!(m, "输出多次截断 (3 次续写后仍未完成)"),
        _ => panic!("expected give up"),
    }
}

#[test]
fn rate_limit_waits_at_least_retry_after() {
    let mut s = RecoveryState::default();
    match s.on_transient(&LlmError::RateLimited { retry_after_ms: Some(2000) }) {
        RecoveryAction::Backoff { wait_ms, switch_to_fallback } => {
            assert!(wait_ms >= 2000 && wait_ms <= 2500);
            assert!(!switch_to_fallback);
        }
        _ => panic!("expected back-off"),
    }
}

#[test]
fn retries_run_out_after_ten() {
    let mut s = RecoveryState::default();
    for _ in 0..10 {
        assert!(matches!(s.on_transient(&LlmError::Network("x".to_string())), RecoveryAction::Backoff { .. }));
    }
    match s.on_transient(&LlmError::Network("boom".to_string())) {
        RecoveryAction::GiveUp(m) => assert!(m.starts_with("重试 10 次仍失败: ")),
        _ => panic!("expected give up"),
    }
}

#[test]
fn success_resets_retries() {
    let mut s = RecoveryState::default();
    s.on_transient(&LlmError::Overloaded);
    s.on_transient(&LlmError::Overloaded);
    s.on_success();
    assert_eq!(s.retry_attempts, 0);
    assert_eq!(s.consecutive_529, 0);
}

#[test]
fn loop_counts_rounds_up_to_the_limit() {
    let mut l = AgentLoop::new(AgentKind::Sub);
    for _ in 0..30 {
        assert!(matches!(l.begin_round(false), RoundStart::Proceed));
    }
    match l.begin_round(false) {
        RoundStart::LimitReached(m) => assert_eq!(m, "达到循环上限 (30)"),
        _ => panic!("expected the limit"),
    }
    assert!(matches!(l.begin_round(true), RoundStart::Cancelled));
}

#[test]
fn loop_raises_limit_after_truncation() {
    let mut l = AgentLoop::new(AgentKind::Main);
    assert_eq!(l.max_tokens(), 8000);
    assert!(matches!(l.on_reply(StopReason::MaxTokens), ReplyStep::Retry(_)));
    assert_eq!(l.max_tokens(), 64000);
    assert!(matches!(l.on_reply(StopReason::EndTurn), ReplyStep::Accept));
}

#[test]
fn loop_stops_on_refused_key() {
    let mut l = AgentLoop::new(AgentKind::Main);
    match l.on_error(&LlmError::Auth("  bad key  ".to_string()), None) {
        ErrorStep::Stop(m) => assert_eq!(m, "认证失败（API Key 无效或无权限）：bad key"),
        _ => panic!("expected stop"),
    }
    match l.on_error(&LlmError::Api { status: 404, message: "nope".to_string() }, None) {
        ErrorStep::Stop(m) => assert_eq!(m, "模型接口拒绝了请求（HTTP 404）：nope"),
        _ => panic!("expected stop"),
    }
}

#[test]
fn loop_compacts_once_then_stops() {
    let mut l = AgentLoop::new(AgentKind::Main);
    match l.on_error(&LlmError::PromptTooLong, None) {
        ErrorStep::Compact(n) => assert_eq!(n, "上下文超限，应急压缩后重试"),
        _ => panic!("expected compaction"),
    }
    match l.on_error(&LlmError::PromptTooLong, None) {
        ErrorStep::Stop(m) => assert_eq!(m, "多次重试后仍失败：上下文仍然超限 (reactive compact 已用尽)"),
        _ => panic!("expected stop"),
    }
}

#[test]
fn loop_switches_to_fallback_after_overloads() {
    let mut l = AgentLoop::new(AgentKind::Main);
    let mut switched = None;
    for _ in 0..CONSECUTIVE_529_FALLBACK {
        if let ErrorStep::Wait { switched: s, .. } = l.on_error(&LlmError::Overloaded, Some("qwen-plus".to_string())) {
            if s.is_some() {
                switched = s;
            }
        }
    }
    assert_eq!(switched.as_deref(), Some("多次过载，切换到备用模型 qwen-plus"));
    assert_eq!(l.model("qwen-max"), "qwen-plus");
}

#[test]
fn huge_retry_after_is_not_taken() {
    let l = AgentLoop::new(AgentKind::Main);
    assert!(l.can_take(&LlmError::RateLimited { retry_after_ms: Some(5_000) }));
    assert!(!l.can_take(&LlmError::RateLimited { retry_after_ms: Some(u64::MAX) }));
    assert!(l.can_take(&LlmError::PromptTooLong));
    assert!(l.can_take(&LlmError::Auth("k".into())));
    let s = RecoveryState::new();
    assert!(s.fits(&LlmError::Overloaded));
}
