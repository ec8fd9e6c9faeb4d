use mprism::error::transport_error;
use mprism::error::{
    kind_from_status, parse_retry_after, parse_retry_after_at, redact_secrets, upgrade_kind_from_body, ProtocolErrorKind,
};
use mprism::finish::{anthropic_messages, gemini_generate_content, openai_chat_completions, openai_responses};
use mprism::json::parse_json;
use mprism::secret::SecretString;
use mprism::sse::SseParser;
use mprism::types::{
    ChatMessage, ChatRequest, ChatRole, ContentPart, FinishReason, ProtocolCapabilities, ReasoningEffort,
    ReasoningMode, ReasoningPolicy, ToolChoice, ToolDefinition,
};
use mprism::types::validate_tools;
use mprism::usage::{
    from_anthropic_usage, from_gemini_usage_metadata, from_openai_chat_usage, from_openai_responses_usage,
};

#[test]
fn maps_status_codes() {
    assert_eq!(kind_from_status(401), ProtocolErrorKind::Authentication);
    assert_eq!(kind_from_status(429), ProtocolErrorKind::RateLimited);
    assert!(kind_from_status(429).retryable());
    assert!(!kind_from_status(401).retryable());
    assert_eq!(kind_from_status(503), ProtocolErrorKind::ProviderUnavailable);
    assert!(!ProtocolErrorKind::ContextLengthExceeded.retryable());
    assert!(!ProtocolErrorKind::ContentFilter.retryable());
    assert_eq!(kind_from_status(400), ProtocolErrorKind::InvalidRequest);
    assert_eq!(kind_from_status(422), ProtocolErrorKind::InvalidRequest);
    assert_eq!(kind_from_status(408), ProtocolErrorKind::Timeout);
}

#[test]
fn redacts_keys_in_messages() {
    let raw = r#"Incorrect API key provided: sk-abc123DEF. Authorization: Bearer sk-abc123DEF api_key=secret_val"#;
    let redacted = redact_secrets(raw);
    assert!(!redacted.contains("sk-abc123DEF"));
    assert!(!redacted.contains("secret_val"));
    assert!(redacted.contains("REDACTED"));
}

#[test]
fn upgrades_context_and_filter_without_downgrading_auth() {
    let kind = upgrade_kind_from_body(
        ProtocolErrorKind::InvalidRequest,
        400,
        "This model's maximum context length is 8k tokens",
        Some("context_length_exceeded"),
        "",
    );
    assert_eq!(kind, ProtocolErrorKind::ContextLengthExceeded);

    let kind = upgrade_kind_from_body(ProtocolErrorKind::PermissionDenied, 403, "content_filter triggered", None, "");
    assert_eq!(kind, ProtocolErrorKind::ContentFilter);

    let kind = upgrade_kind_from_body(
        ProtocolErrorKind::Authentication,
        401,
        "context length exceeded but actually auth",
        None,
        "",
    );
    assert_eq!(kind, ProtocolErrorKind::Authentication);
}

#[test]
fn parses_retry_after_delta_seconds() {
    assert_eq!(parse_retry_after("12"), Some(12_000));
    assert_eq!(parse_retry_after(" 0 "), Some(0));
    assert_eq!(parse_retry_after(""), None);
}

#[test]
fn retry_after_saturates_and_rejects_garbage() {
    assert_eq!(parse_retry_after("18446744073709551615"), Some(u64::MAX));
    assert_eq!(parse_retry_after("soon"), None);
    assert_eq!(parse_retry_after("-5"), None);
}

#[test]
fn openai_chat_completions_table() {
    assert_eq!(openai_chat_completions(Some("stop")), FinishReason::Stop);
    assert_eq!(openai_chat_completions(Some("length")), FinishReason::Length);
    assert_eq!(openai_chat_completions(Some("content_filter")), FinishReason::ContentFilter);
    assert_eq!(openai_chat_completions(Some("tool_calls")), FinishReason::ToolCalls);
    assert_eq!(openai_chat_completions(Some("function_call")), FinishReason::ToolCalls);
    assert_eq!(openai_chat_completions(Some("weird")), FinishReason::Other("weird".into()));
    assert_eq!(openai_chat_completions(None), FinishReason::Other("unknown".into()));
}

#[test]
fn openai_responses_table() {
    assert_eq!(openai_responses(Some("completed")), FinishReason::Stop);
    assert_eq!(openai_responses(Some("stop")), FinishReason::Stop);
    assert_eq!(openai_responses(Some("max_output_tokens")), FinishReason::Length);
    assert_eq!(openai_responses(Some("content_filter")), FinishReason::ContentFilter);
    assert_eq!(openai_responses(Some("tool_use")), FinishReason::ToolCalls);
    assert_eq!(openai_responses(Some("custom_incomplete")), FinishReason::Other("custom_incomplete".into()));
}

#[test]
fn anthropic_messages_table() {
    assert_eq!(anthropic_messages(Some("end_turn")), FinishReason::Stop);
    assert_eq!(anthropic_messages(Some("stop_sequence")), FinishReason::Stop);
    assert_eq!(anthropic_messages(Some("max_tokens")), FinishReason::Length);
    assert_eq!(anthropic_messages(Some("tool_use")), FinishReason::ToolCalls);
    assert_eq!(anthropic_messages(Some("refusal")), FinishReason::ContentFilter);
    assert_eq!(anthropic_messages(None), FinishReason::Stop);
    assert_eq!(anthropic_messages(Some("other_reason")), FinishReason::Other("other_reason".into()));
}

#[test]
fn gemini_generate_content_table() {
    assert_eq!(gemini_generate_content(Some("STOP")), FinishReason::Stop);
    assert_eq!(gemini_generate_content(Some("stop")), FinishReason::Stop);
    assert_eq!(gemini_generate_content(Some("MAX_TOKENS")), FinishReason::Length);
    assert_eq!(gemini_generate_content(Some("SAFETY")), FinishReason::ContentFilter);
    assert_eq!(gemini_generate_content(Some("PROHIBITED_CONTENT")), FinishReason::ContentFilter);
    assert_eq!(gemini_generate_content(Some("FUNCTION_CALL")), FinishReason::ToolCalls);
    assert_eq!(gemini_generate_content(Some("RECITATION")), FinishReason::Other("RECITATION".into()));
}

#[test]
fn redacts_debug_and_display() {
    let secret = SecretString::new("sk-super-secret-key");
    let debug = secret.debug_string();
    let display = secret.display_string();
    assert!(!debug.contains("sk-super-secret-key"));
    assert!(!display.contains("sk-super-secret-key"));
    assert!(debug.contains("REDACTED"));
    assert_eq!(secret.expose_secret(), "sk-super-secret-key");
}

#[test]
fn splits_crlf_comments_and_data() {
    let mut parser = SseParser::new();
    let mut out = Vec::new();
    out.extend(parser.push(b": keep-alive\r\n\r\n"));
    out.extend(parser.push(b"data: hello\r\n\r\n"));
    out.extend(parser.push(b"event: delta\ndata: {\"x\":1}\n\n"));
    assert_eq!(out.len(), 2);
    assert_eq!(out[0].data, "hello");
    assert_eq!(out[1].event.as_deref(), Some("delta"));
    assert_eq!(out[1].data, "{\"x\":1}");
}

#[test]
fn joins_multiple_data_lines() {
    let mut parser = SseParser::new();
    let events = parser.push(b"data: line1\ndata: line2\n\n");
    assert_eq!(events.len(), 1);
    assert_eq!(events[0].data, "line1\nline2");
}

#[test]
fn parses_event_name_for_future_protocols() {
    let mut parser = SseParser::new();
    let events = parser.push(b"event: message_stop\ndata: {}\n\n");
    assert_eq!(events[0].event.as_deref(), Some("message_stop"));
    assert_eq!(events[0].data, "{}");
}

#[test]
fn chinese_utf8_split_across_tcp_chunks_does_not_produce_replacement_chars() {
    let prefix = b"data: {\"choices\":[{\"delta\":{\"content\":\"";
    let chinese = "你".as_bytes();
    let suffix = b"\"}}]}\n\n";

    let mut first = prefix.to_vec();
    first.extend_from_slice(&chinese[..2]);

    let mut second = chinese[2..].to_vec();
    second.extend_from_slice(suffix);

    let mut parser = SseParser::new();
    let mut events = parser.push(&first);
    assert!(events.is_empty(), "incomplete UTF-8 must not emit an event");
    events.extend(parser.push(&second));
    assert_eq!(events.len(), 1);
    assert!(!events[0].data.contains('\u{FFFD}'));
    assert!(events[0].data.contains('你'));
}

#[test]
fn emoji_utf8_split_across_chunks() {
    let emoji = "😀".as_bytes();
    assert_eq!(emoji.len(), 4);

    let mut first = b"data: ".to_vec();
    first.extend_from_slice(&emoji[..2]);
    let mut second = emoji[2..].to_vec();
    second.extend_from_slice(b"\n\n");

    let mut parser = SseParser::new();
    assert!(parser.push(&first).is_empty());
    let events = parser.push(&second);
    assert_eq!(events.len(), 1);
    assert_eq!(events[0].data, "😀");
    assert!(!events[0].data.contains('\u{FFFD}'));
}

#[test]
fn sse_frame_split_mid_json() {
    let full = format!("data: {{\"choices\":[{{\"delta\":{{\"content\":\"{}\"}}}}]}}\n\n", "中");
    let full = full.as_bytes();
    let split_at = full.len() / 2;
    let mut parser = SseParser::new();
    let mut events = parser.push(&full[..split_at]);
    events.extend(parser.push(&full[split_at..]));
    assert_eq!(events.len(), 1);
    assert!(events[0].data.contains('中'));
    assert!(!events[0].data.contains('\u{FFFD}'));
}

#[test]
fn finish_flushes_trailing_event_without_separator() {
    let mut parser = SseParser::new();
    assert!(parser.push(b"data: tail").is_empty());
    let event = parser.finish().expect("trailing event");
    assert_eq!(event.data, "tail");
}

#[test]
fn sse_split_byte_by_byte_gives_same_events() {
    let whole = b"event: a\ndata: one\n\ndata: two\r\n\r\n";
    let mut p1 = SseParser::new();
    let all = p1.push(whole);
    let mut p2 = SseParser::new();
    let mut parts = Vec::new();
    for b in whole.iter() {
        parts.extend(p2.push(&[*b]));
    }
    assert_eq!(all, parts);
    assert_eq!(all.len(), 2);
}

fn user_text(text: &str) -> ChatMessage {
    ChatMessage::text(ChatRole::User, text)
}

fn request(messages: Vec<ChatMessage>) -> ChatRequest {
    ChatRequest {
        model: "m".into(),
        messages,
        temperature: None,
        max_tokens: None,
        reasoning: None,
        tools: None,
        tool_choice: None,
    }
}

#[test]
fn validates_chat_request_text_ok() {
    let mut ok = request(vec![ChatMessage::text(ChatRole::User, "hi")]);
    ok.model = "gpt".into();
    ok.temperature = Some(1.0f32.to_bits());
    ok.max_tokens = Some(16);
    assert!(ok.validate().is_ok());
}

#[test]
fn validates_chat_request_failures() {
    let mut bad = request(vec![ChatMessage::text(ChatRole::System, "sys")]);
    bad.model = "  ".into();
    bad.temperature = Some(3.0f32.to_bits());
    bad.max_tokens = Some(0);
    assert!(bad.validate().is_err());
}

#[test]
fn rejects_empty_parts_and_empty_text() {
    let empty_parts = ChatMessage { role: ChatRole::User, parts: vec![], tool_call_id: None, tool_calls: vec![] };
    assert!(empty_parts.validate().is_err());

    let empty_text = ChatMessage::text(ChatRole::User, "");
    assert!(empty_text.validate().is_err());
}

#[test]
fn tool_role_rules() {
    let missing_id = ChatMessage {
        role: ChatRole::Tool,
        parts: vec![ContentPart::Text { text: "result".into() }],
        tool_call_id: None,
        tool_calls: vec![],
    };
    assert!(missing_id.validate().is_err());

    let ok = ChatMessage {
        role: ChatRole::Tool,
        parts: vec![ContentPart::Text { text: "result".into() }],
        tool_call_id: Some("call_1".into()),
        tool_calls: vec![],
    };
    assert!(ok.validate().is_ok());
}

#[test]
fn reasoning_auto_ok_and_budget_zero_on_invalid() {
    let mut auto = request(vec![user_text("hi")]);
    auto.reasoning = Some(ReasoningPolicy {
        mode: ReasoningMode::Auto,
        effort: Some(ReasoningEffort::High),
        budget_tokens: Some(0),
    });
    assert!(auto.validate().is_ok());

    let mut on_zero = request(vec![user_text("hi")]);
    on_zero.reasoning = Some(ReasoningPolicy { mode: ReasoningMode::On, effort: None, budget_tokens: Some(0) });
    assert!(on_zero.validate().is_err());
}

#[test]
fn capability_gate_rejects_tools_and_vision_and_reasoning() {
    let caps = ProtocolCapabilities::v1_text_baseline();
    let mut with_tools = request(vec![user_text("hi")]);
    with_tools.tools = Some(vec![ToolDefinition {
        name: "t".into(),
        description: None,
        parameters: parse_json("{}").unwrap(),
    }]);
    assert_eq!(with_tools.check_capabilities(&caps).unwrap_err().kind, ProtocolErrorKind::Unsupported);

    let with_image = request(vec![ChatMessage {
        role: ChatRole::User,
        parts: vec![
            ContentPart::Text { text: "see".into() },
            ContentPart::ImageUrl { url: "https://example.com/a.png".into(), detail: None },
        ],
        tool_call_id: None,
        tool_calls: vec![],
    }]);
    assert!(with_image.validate().is_ok());
    assert_eq!(with_image.check_capabilities(&caps).unwrap_err().kind, ProtocolErrorKind::Unsupported);

    let mut with_reason = request(vec![user_text("hi")]);
    with_reason.reasoning = Some(ReasoningPolicy {
        mode: ReasoningMode::On,
        effort: Some(ReasoningEffort::Low),
        budget_tokens: None,
    });
    assert_eq!(with_reason.check_capabilities(&caps).unwrap_err().kind, ProtocolErrorKind::Unsupported);
}

#[test]
fn oversized_inline_image_invalid_without_base64_body() {
    let huge = "A".repeat(7 * 1024 * 1024);
    let msg = ChatMessage {
        role: ChatRole::User,
        parts: vec![
            ContentPart::Text { text: "x".into() },
            ContentPart::ImageBase64 { media_type: "image/png".into(), data: huge.clone() },
        ],
        tool_call_id: None,
        tool_calls: vec![],
    };
    let err = msg.validate().unwrap_err();
    assert_eq!(err.kind, ProtocolErrorKind::InvalidRequest);
    assert!(!err.message.contains(&huge[..64]));
    assert!(err.message.contains("内联图片超过上限"));
}

#[test]
fn finish_reason_from_raw() {
    assert_eq!(FinishReason::from_provider_raw(Some("stop")), FinishReason::Stop);
    assert_eq!(FinishReason::from_provider_raw(Some("end_turn")), FinishReason::Stop);
    assert_eq!(FinishReason::from_provider_raw(Some("STOP")), FinishReason::Stop);
    assert_eq!(FinishReason::from_provider_raw(Some("tool_calls")), FinishReason::ToolCalls);
    assert_eq!(FinishReason::from_provider_raw(None), FinishReason::Other("unknown".into()));
}

#[test]
fn finish_reason_names() {
    assert_eq!(FinishReason::Stop.as_str(), "stop");
    assert_eq!(FinishReason::Length.as_str(), "length");
    assert_eq!(FinishReason::ContentFilter.as_str(), "content_filter");
    assert_eq!(FinishReason::ToolCalls.as_str(), "tool_calls");
    assert_eq!(FinishReason::Other("x".into()).as_str(), "x");
}

#[test]
fn openai_chat_usage_with_details() {
    let v = parse_json(
        r#"{"prompt_tokens":10,"completion_tokens":5,"total_tokens":15,"prompt_tokens_details":{"cached_tokens":4},"completion_tokens_details":{"reasoning_tokens":3}}"#,
    )
    .unwrap();
    let u = from_openai_chat_usage(&v).unwrap();
    assert_eq!(u.prompt_tokens, Some(10));
    assert_eq!(u.completion_tokens, Some(5));
    assert_eq!(u.total_tokens, Some(15));
    assert_eq!(u.reasoning_tokens, Some(3));
    assert_eq!(u.cached_tokens, Some(4));
}

#[test]
fn openai_responses_usage_with_details() {
    let v = parse_json(
        r#"{"input_tokens":8,"output_tokens":6,"total_tokens":14,"output_tokens_details":{"reasoning_tokens":2},"input_tokens_details":{"cached_tokens":1}}"#,
    )
    .unwrap();
    let u = from_openai_responses_usage(&v).unwrap();
    assert_eq!(u.prompt_tokens, Some(8));
    assert_eq!(u.completion_tokens, Some(6));
    assert_eq!(u.reasoning_tokens, Some(2));
    assert_eq!(u.cached_tokens, Some(1));
}

#[test]
fn anthropic_usage_thinking_tokens() {
    let v = parse_json(
        r#"{"output_tokens":2,"output_tokens_details":{"thinking_tokens":9},"cache_read_input_tokens":1}"#,
    )
    .unwrap();
    let u = from_anthropic_usage(Some(3), Some(2), Some(&v)).unwrap();
    assert_eq!(u.total_tokens, Some(5));
    assert_eq!(u.reasoning_tokens, Some(9));
    assert_eq!(u.cached_tokens, Some(1));
}

#[test]
fn gemini_usage_thoughts() {
    let v = parse_json(
        r#"{"promptTokenCount":3,"candidatesTokenCount":2,"totalTokenCount":5,"thoughtsTokenCount":7,"cachedContentTokenCount":1}"#,
    )
    .unwrap();
    let u = from_gemini_usage_metadata(&v).unwrap();
    assert_eq!(u.reasoning_tokens, Some(7));
    assert_eq!(u.cached_tokens, Some(1));
}

#[test]
fn transport_errors_by_cause() {
    let e = transport_error(true, true, "x");
    assert_eq!(e.kind, ProtocolErrorKind::Timeout);
    assert_eq!(e.message, "网络请求超时");
    assert!(e.retryable);
    let e = transport_error(false, true, "refused");
    assert_eq!(e.kind, ProtocolErrorKind::Transport);
    assert_eq!(e.message, "连接失败: refused");
    assert!(e.retryable);
    let e = transport_error(false, false, "reset");
    assert_eq!(e.message, "网络错误: reset");
    assert!(!e.retryable);
}

#[test]
fn redact_keeps_text_without_secrets() {
    assert_eq!(redact_secrets("你好世界"), "你好世界");
    assert_eq!(redact_secrets("café"), "café");
    assert_eq!(redact_secrets("é"), "é");
    assert_eq!(redact_secrets("plain error text"), "plain error text");
}

#[test]
fn redact_hides_token_after_bearer() {
    assert_eq!(redact_secrets("x abc Bearer abc"), "x abc Bearer [REDACTED]");
    assert_eq!(redact_secrets("auth: bearer tok123, next"), "auth: bearer [REDACTED], next");
    assert_eq!(redact_secrets("密钥 sk-abc_1 无效"), "密钥 sk-[REDACTED] 无效");
    assert_eq!(redact_secrets("API_KEY=zz9&x=1"), "api_key=[REDACTED]&x=1");
}

#[test]
fn retry_after_against_a_given_clock() {
    let date = "Sun, 06 Nov 1994 08:49:37 GMT";
    assert_eq!(parse_retry_after_at(date, Some(784_111_777 + 10)), Some(0));
    assert_eq!(parse_retry_after_at(date, Some(784_111_777 - 5)), Some(5_000));
    assert_eq!(parse_retry_after_at(date, None), None);
    assert_eq!(parse_retry_after_at(" 120 ", None), Some(120_000));
    assert_eq!(parse_retry_after_at("18446744073709551615", Some(0)), Some(u64::MAX));
    assert_eq!(parse_retry_after_at("   ", Some(0)), None);
    assert_eq!(parse_retry_after_at("Sun, 06 Nov 1994 08:49 GMT", Some(0)), None);
}

fn tool(name: &str, params: &str) -> ToolDefinition {
    ToolDefinition { name: name.into(), description: None, parameters: parse_json(params).unwrap() }
}

#[test]
fn tool_rules_accept_and_refuse() {
    let mut r = request(vec![user_text("hi")]);
    assert!(validate_tools(&r).is_ok());
    r.tool_choice = Some(ToolChoice::Auto);
    assert_eq!(validate_tools(&r).unwrap_err().kind, ProtocolErrorKind::InvalidRequest);
    r.tools = Some(vec![]);
    assert_eq!(validate_tools(&r).unwrap_err().kind, ProtocolErrorKind::InvalidRequest);
    r.tools = Some(vec![tool(" a ", "{}"), tool("b", "{\"type\":\"object\"}")]);
    assert!(validate_tools(&r).is_ok());
    r.tool_choice = Some(ToolChoice::Named { name: " a".into() });
    assert!(validate_tools(&r).is_ok());
    r.tool_choice = Some(ToolChoice::Named { name: "c".into() });
    assert_eq!(validate_tools(&r).unwrap_err().kind, ProtocolErrorKind::InvalidRequest);
    r.tool_choice = None;
    r.tools = Some(vec![tool("a", "{}"), tool("a ", "{}")]);
    let e = validate_tools(&r).unwrap_err();
    assert_eq!(e.kind, ProtocolErrorKind::InvalidRequest);
    assert_eq!(e.message, "tool name 重复: a");
    r.tools = Some(vec![tool("a", "[]")]);
    assert_eq!(validate_tools(&r).unwrap_err().kind, ProtocolErrorKind::InvalidRequest);
    r.tools = Some(vec![tool("  ", "{}")]);
    assert_eq!(validate_tools(&r).unwrap_err().kind, ProtocolErrorKind::InvalidRequest);
}

#[test]
fn redact_marks_every_api_key_value() {
    assert_eq!(redact_secrets("x api_key=abc&API_Key=def end"), "x api_key=[REDACTED]&api_key=[REDACTED] end");
    assert_eq!(redact_secrets("api_key="), "api_key=[REDACTED]");
    assert_eq!(redact_secrets("aapi_key=z"), "aapi_key=[REDACTED]");
}
