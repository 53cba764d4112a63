use laver_agent::llm::provider::{account_for, chat_endpoint, has_api_key, ProviderKind, ProviderSettings};
use laver_agent::llm::stream::{
    anthropic_http_error, openai_http_error, retry_after_ms, sse_line, tool_input, AnthropicStream, OpenAiStream,
    SseLine,
};
use laver_agent::llm::types::{
    estimate_tokens_str, ChatRequest, ContentBlock, LlmError, LlmResponse, Message, Role, StopReason, StreamEvent,
    ThinkingLevel, ToolSpec,
};
use laver_agent::llm::wire::{anthropic_body, convert_messages, openai_body};

fn req(messages: Vec<Message>, thinking: ThinkingLevel) -> ChatRequest {
    ChatRequest {
        model: "m".to_string(),
        system: "sys".to_string(),
        messages,
        tools: vec![],
        max_tokens: 100,
        thinking,
    }
}

#[test]
fn thinking_levels() {
    assert_eq!(ThinkingLevel::Off.budget_tokens(), None);
    assert_eq!(ThinkingLevel::Medium.budget_tokens(), Some(8192));
    assert_eq!(ThinkingLevel::High.reasoning_effort(), Some("high"));
    assert!(!ThinkingLevel::Off.enabled());
    assert!(ThinkingLevel::Low.enabled());
}

#[test]
fn token_estimate_is_a_quarter_of_chars_plus_one() {
    assert_eq!(estimate_tokens_str("abcdefgh"), 3);
    assert_eq!(estimate_tokens_str("abc"), 1);
    assert_eq!(estimate_tokens_str(""), 1);
    assert_eq!(estimate_tokens_str("éééé"), 2);
}

#[test]
fn message_text_joins_text_blocks() {
    let m = Message {
        role: Role::Assistant,
        content: vec![
            ContentBlock::Text { text: "a".to_string() },
            ContentBlock::ToolUse { id: "1".to_string(), name: "t".to_string(), input: "{}".to_string() },
            ContentBlock::Text { text: "b".to_string() },
        ],
    };
    assert_eq!(m.text(), "a\nb");
    assert_eq!(m.tool_uses().len(), 1);
}

#[test]
fn follow_up_when_tools_are_called() {
    let r = LlmResponse {
        content: vec![ContentBlock::ToolUse { id: "1".to_string(), name: "t".to_string(), input: "{}".to_string() }],
        stop_reason: StopReason::EndTurn,
        input_tokens: None,
        output_tokens: None,
    };
    assert!(r.needs_follow_up());
    let e = LlmResponse { content: vec![], stop_reason: StopReason::EndTurn, input_tokens: None, output_tokens: None };
    assert!(!e.needs_follow_up());
}

#[test]
fn provider_defaults_and_keys() {
    let s = ProviderSettings::default();
    assert_eq!(s.model, "qwen-max");
    assert_eq!(s.fallback_model.as_deref(), Some("qwen-plus"));
    assert_eq!(account_for("openai_compat"), "llm-api-key-openai_compat");
    assert!(has_api_key(Some("k")));
    assert!(!has_api_key(Some("")));
    assert!(!has_api_key(None));
}

#[test]
fn endpoints() {
    assert_eq!(chat_endpoint(ProviderKind::Anthropic, "  "), "https://api.anthropic.com/v1/messages");
    assert_eq!(chat_endpoint(ProviderKind::OpenaiCompat, "https://x/v1//"), "https://x/v1/chat/completions");
}

#[test]
fn anthropic_body_is_json() {
    let r = req(vec![Message::user_text("hi \"there\"".to_string())], ThinkingLevel::Low);
    let b = anthropic_body(&r);
    let v: serde_json::Value = serde_json::from_str(&b).unwrap();
    assert_eq!(v["model"], "m");
    assert_eq!(v["messages"][0]["role"], "user");
    assert_eq!(v["messages"][0]["content"][0]["text"], "hi \"there\"");
    assert_eq!(v["thinking"]["budget_tokens"], 2048);
    assert_eq!(v["stream"], true);
    assert!(v.get("tools").is_none());
}

#[test]
fn openai_messages_split_tool_results() {
    let msgs = vec![
        Message {
            role: Role::Assistant,
            content: vec![ContentBlock::ToolUse { id: "c1".to_string(), name: "glob".to_string(), input: "{\"pattern\":\"*\"}".to_string() }],
        },
        Message {
            role: Role::User,
            content: vec![
                ContentBlock::ToolResult { tool_use_id: "c1".to_string(), content: "bad".to_string(), is_error: true },
                ContentBlock::Text { text: "next".to_string() },
            ],
        },
    ];
    let out = convert_messages("sys", &msgs);
    assert_eq!(out.len(), 4);
    let a: serde_json::Value = serde_json::from_str(&out[1]).unwrap();
    assert!(a["content"].is_null());
    assert_eq!(a["tool_calls"][0]["function"]["arguments"], "{\"pattern\":\"*\"}");
    let t: serde_json::Value = serde_json::from_str(&out[2]).unwrap();
    assert_eq!(t["role"], "tool");
    assert_eq!(t["content"], "[ERROR] bad");
    let u: serde_json::Value = serde_json::from_str(&out[3]).unwrap();
    assert_eq!(u["content"], "next");
}

#[test]
fn openai_body_with_tools_and_thinking() {
    let mut r = req(vec![Message::user_text("x".to_string())], ThinkingLevel::High);
    r.tools = vec![ToolSpec { name: "t".to_string(), description: "d".to_string(), input_schema: "{\"type\":\"object\"}".to_string() }];
    let b = openai_body(&r);
    let v: serde_json::Value = serde_json::from_str(&b).unwrap();
    assert_eq!(v["messages"][0]["role"], "system");
    assert_eq!(v["tools"][0]["function"]["parameters"]["type"], "object");
    assert_eq!(v["enable_thinking"], true);
    assert_eq!(v["thinking_budget"], 16384);
    assert_eq!(v["reasoning_effort"], "high");
}

#[test]
fn sse_lines() {
    assert!(matches!(sse_line("data: [DONE]\r\n"), SseLine::Done));
    assert!(matches!(sse_line(": keep-alive"), SseLine::Skip));
    assert!(matches!(sse_line("data:   "), SseLine::Skip));
    match sse_line("data: {\"a\":1}\n") {
        SseLine::Data(d) => assert_eq!(d, "{\"a\":1}"),
        _ => panic!("expected data"),
    }
}

#[test]
fn http_errors() {
    assert!(matches!(openai_http_error(429, Some(3000), "x".to_string()), LlmError::RateLimited { retry_after_ms: Some(3000) }));
    assert!(matches!(openai_http_error(503, None, "Server OVERLOADED".to_string()), LlmError::Overloaded));
    assert!(matches!(openai_http_error(400, None, "maximum context length".to_string()), LlmError::PromptTooLong));
    assert!(matches!(openai_http_error(403, None, "no".to_string()), LlmError::Auth(_)));
    assert!(matches!(openai_http_error(418, None, "tea".to_string()), LlmError::Api { status: 418, .. }));
    assert!(matches!(anthropic_http_error(529, None, "".to_string()), LlmError::Overloaded));
    assert!(matches!(anthropic_http_error(400, None, "prompt is too long".to_string()), LlmError::PromptTooLong));
    assert!(matches!(anthropic_http_error(500, None, "{\"type\":\"overloaded_error\"}".to_string()), LlmError::Overloaded));
    assert_eq!(retry_after_ms(Some("7".to_string())), Some(7000));
    assert_eq!(retry_after_ms(Some("soon".to_string())), None);
    assert_eq!(retry_after_ms(None), None);
    assert_eq!(retry_after_ms(Some("+2".to_string())), Some(2000));
    assert_eq!(retry_after_ms(Some("-2".to_string())), None);
    assert_eq!(retry_after_ms(Some("+".to_string())), None);
    assert_eq!(retry_after_ms(Some("".to_string())), None);
    assert_eq!(retry_after_ms(Some(" 2".to_string())), None);
    assert_eq!(retry_after_ms(Some("18446744073709551615".to_string())), Some(18446744073709551615u64.wrapping_mul(1000)));
    assert_eq!(retry_after_ms(Some("18446744073709551616".to_string())), None);
}

#[test]
fn tool_input_defaults_to_empty_object() {
    assert_eq!(tool_input("  "), "{}");
    assert_eq!(tool_input("{bad"), "{}");
    assert_eq!(tool_input("{ \"a\" : 1 }"), "{\"a\":1}");
}

#[test]
fn openai_stream_accumulates() {
    let mut s = OpenAiStream::new();
    let e1 = s.on_data("{\"choices\":[{\"delta\":{\"content\":\"Hel\"}}]}");
    assert!(matches!(&e1[0], StreamEvent::TextDelta { text } if text == "Hel"));
    s.on_data("{\"choices\":[{\"delta\":{\"content\":\"lo\"}}]}");
    let e2 = s.on_data("{\"choices\":[{\"delta\":{\"tool_calls\":[{\"index\":0,\"id\":\"c1\",\"function\":{\"name\":\"glob\",\"arguments\":\"{\\\"pat\"}}]}}]}");
    assert!(matches!(&e2[0], StreamEvent::ToolUseStart { name } if name == "glob"));
    s.on_data("{\"choices\":[{\"delta\":{\"tool_calls\":[{\"index\":0,\"function\":{\"arguments\":\"tern\\\":\\\"*\\\"}\"}}]},\"finish_reason\":\"tool_calls\"}],\"usage\":{\"prompt_tokens\":5,\"completion_tokens\":7}}");
    let (r, done) = s.finish();
    assert!(matches!(done, StreamEvent::Done));
    assert_eq!(r.stop_reason, StopReason::ToolUse);
    assert_eq!(r.input_tokens, Some(5));
    assert_eq!(r.output_tokens, Some(7));
    assert!(matches!(&r.content[0], ContentBlock::Text { text } if text == "Hello"));
    match &r.content[1] {
        ContentBlock::ToolUse { id, name, input } => {
            assert_eq!(id, "c1");
            assert_eq!(name, "glob");
            assert_eq!(input, "{\"pattern\":\"*\"}");
        }
        _ => panic!("expected a tool call"),
    }
}

#[test]
fn openai_stream_makes_up_missing_ids() {
    let mut s = OpenAiStream::new();
    s.on_data("{\"choices\":[{\"delta\":{\"tool_calls\":[{\"index\":1,\"function\":{\"name\":\"t\"}}]},\"finish_reason\":\"length\"}]}");
    let (r, _) = s.finish();
    assert_eq!(r.stop_reason, StopReason::MaxTokens);
    assert_eq!(r.content.len(), 1);
    match &r.content[0] {
        ContentBlock::ToolUse { id, input, .. } => {
            assert!(id.starts_with("call_1_"));
            assert_eq!(id.len(), "call_1_".len() + 32);
            assert_eq!(input, "{}");
        }
        _ => panic!("expected a tool call"),
    }
}

#[test]
fn anthropic_stream_accumulates() {
    let mut s = AnthropicStream::new();
    s.on_data("{\"type\":\"message_start\",\"message\":{\"usage\":{\"input_tokens\":11}}}");
    s.on_data("{\"type\":\"content_block_start\",\"index\":0,\"content_block\":{\"type\":\"text\",\"text\":\"\"}}");
    let ev = s.on_data("{\"type\":\"content_block_delta\",\"index\":0,\"delta\":{\"type\":\"text_delta\",\"text\":\"hi\"}}");
    assert!(matches!(&ev[0], StreamEvent::TextDelta { text } if text == "hi"));
    let ev2 = s.on_data("{\"type\":\"content_block_start\",\"index\":1,\"content_block\":{\"type\":\"tool_use\",\"id\":\"tu\",\"name\":\"shell\"}}");
    assert!(matches!(&ev2[0], StreamEvent::ToolUseStart { name } if name == "shell"));
    s.on_data("{\"type\":\"content_block_delta\",\"index\":1,\"delta\":{\"type\":\"input_json_delta\",\"partial_json\":\"{\\\"command\\\":\"}}");
    s.on_data("{\"type\":\"content_block_delta\",\"index\":1,\"delta\":{\"type\":\"input_json_delta\",\"partial_json\":\"\\\"dir\\\"}\"}}");
    s.on_data("{\"type\":\"message_delta\",\"delta\":{\"stop_reason\":\"tool_use\"},\"usage\":{\"output_tokens\":3}}");
    let (r, done) = s.finish().unwrap();
    assert!(matches!(done, StreamEvent::Done));
    assert_eq!(r.stop_reason, StopReason::ToolUse);
    assert_eq!(r.input_tokens, Some(11));
    assert_eq!(r.output_tokens, Some(3));
    assert_eq!(r.content.len(), 2);
    assert!(matches!(&r.content[1], ContentBlock::ToolUse { input, .. } if input == "{\"command\":\"dir\"}"));
}

#[test]
fn anthropic_stream_errors() {
    let mut s = AnthropicStream::new();
    s.on_data("{\"type\":\"error\",\"error\":{\"type\":\"overloaded_error\",\"message\":\"busy\"}}");
    assert!(matches!(s.finish(), Err(LlmError::Overloaded)));
    let mut t = AnthropicStream::new();
    t.on_data("{\"type\":\"error\",\"error\":{\"type\":\"other\",\"message\":\"boom\"}}");
    assert!(matches!(t.finish(), Err(LlmError::Api { status: 0, message }) if message == "boom"));
}

#[test]
fn error_descriptions() {
    assert_eq!(LlmError::Overloaded.describe(), "overloaded (529)");
    assert_eq!(LlmError::PromptTooLong.describe(), "prompt too long");
}

use laver_agent::llm::stream::LineBuffer;

#[test]
fn byte_lines_keep_split_characters_whole() {
    let mut b = LineBuffer::new();
    let text = "data: 你好\n".as_bytes();
    let (first, second) = text.split_at(8);
    assert!(b.push(first).is_empty());
    assert_eq!(b.push(second), vec!["data: 你好\n".to_string()]);
    assert_eq!(b.push(b"a\nb\nc"), vec!["a\n".to_string(), "b\n".to_string()]);
    assert_eq!(b.push(b"\n"), vec!["c\n".to_string()]);
    assert!(matches!(sse_line("data: [DONE]\n"), SseLine::Done));
}

#[test]
fn strings_are_escaped_as_serde_json_writes_them() {
    let text = "q\"b\\s/\u{1}\u{8}\t\n\u{c}\r\u{1f}中".to_string();
    let out = convert_messages(&text, &vec![]);
    assert_eq!(out[0], format!("{{\"role\":\"system\",\"content\":{}}}", serde_json::to_string(&text).unwrap()));
}
