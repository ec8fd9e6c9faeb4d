use mprism::anthropic_events;
use mprism::error::{ProtocolError, ProtocolErrorKind};
use mprism::gemini_events;
use mprism::generation::{AssistantStatus, Generation, StreamEventPayload};
use mprism::registry::GenerationRegistry;
use mprism::responses_events;
use mprism::types::{FinishReason, StreamEvent, TokenUsage};

fn completions(events: &[StreamEvent]) -> usize {
    events.iter().filter(|e| matches!(e, StreamEvent::Completed { .. })).count()
}

#[test]
fn registry_one_generation_per_session() {
    let mut r = GenerationRegistry::new();
    r.register(1, 10).unwrap();
    let err = r.register(1, 11).unwrap_err();
    assert_eq!(err.code, "conflict");
    assert_eq!(err.message, "generation_already_running");
    r.register(2, 20).unwrap();
    assert_eq!(r.running_count(), 2);
    assert!(r.is_running(10));
    r.unregister(1, 10);
    assert!(!r.is_running(10));
    assert_eq!(r.running_count(), 1);
    r.register(1, 12).unwrap();
    r.unregister(1, 99);
    assert!(r.is_running(12));
}

#[test]
fn registry_refuses_after_stop_accepting() {
    let mut r = GenerationRegistry::new();
    r.register(1, 10).unwrap();
    r.stop_accepting();
    let err = r.register(2, 20).unwrap_err();
    assert_eq!(err.message, "应用正在退出，不能开始新的生成");
    assert_eq!(r.running_count(), 1);
}

#[test]
fn generation_completes_and_keeps_text() {
    let mut g = Generation::new();
    assert_eq!(g.next_sequence(), 0);
    assert_eq!(g.next_sequence(), 1);
    let p = g.on_item(Some(Ok(StreamEvent::ReasoningDelta { text: "think".into() })));
    assert!(matches!(p, Some(StreamEventPayload::ReasoningDelta { ref text }) if text == "think"));
    g.on_item(Some(Ok(StreamEvent::ContentDelta { text: "Hel".into() })));
    g.on_item(Some(Ok(StreamEvent::ContentDelta { text: "lo".into() })));
    let usage = TokenUsage {
        prompt_tokens: Some(3),
        completion_tokens: Some(2),
        total_tokens: Some(5),
        reasoning_tokens: None,
        cached_tokens: None,
    };
    g.on_item(Some(Ok(StreamEvent::Usage(usage))));
    let p = g.on_item(Some(Ok(StreamEvent::Completed { finish_reason: FinishReason::Stop })));
    assert!(matches!(p, Some(StreamEventPayload::Completed { ref finish_reason }) if finish_reason.as_deref() == Some("stop")));
    assert!(g.done);
    let o = g.finish(false);
    assert_eq!(o.status, AssistantStatus::Completed);
    assert!(o.final_payload.is_none());
    assert_eq!(o.content, "Hello");
    assert_eq!(o.reasoning.as_deref(), Some("think"));
    assert_eq!(o.finish_reason.as_deref(), Some("stop"));
    assert_eq!(o.usage.unwrap().total_tokens, Some(5));
    assert!(o.error.is_none());
}

#[test]
fn generation_cancelled_is_stopped_without_finish_reason() {
    let mut g = Generation::new();
    g.on_item(Some(Ok(StreamEvent::ContentDelta { text: "part".into() })));
    let o = g.finish(true);
    assert_eq!(o.status, AssistantStatus::Stopped);
    assert!(matches!(o.final_payload, Some(StreamEventPayload::Stopped)));
    assert_eq!(o.content, "part");
    assert!(o.reasoning.is_none());
    assert!(o.finish_reason.is_none());
}

#[test]
fn generation_error_is_kept_and_sent() {
    let mut g = Generation::new();
    let e = ProtocolError::new(ProtocolErrorKind::RateLimited, "slow down".into()).with_http_status(429);
    assert!(g.on_item(Some(Err(e))).is_none());
    let o = g.finish(true);
    assert_eq!(o.status, AssistantStatus::Error);
    let rec = o.error.unwrap();
    assert_eq!(rec.code, "rate_limited");
    assert!(rec.retryable);
    assert_eq!(rec.http_status, Some(429));
    assert!(matches!(o.final_payload, Some(StreamEventPayload::Error { .. })));
}

#[test]
fn generation_early_end_is_a_protocol_error() {
    let mut g = Generation::new();
    g.on_item(None);
    let o = g.finish(false);
    assert_eq!(o.status, AssistantStatus::Error);
    let rec = o.error.unwrap();
    assert_eq!(rec.code, "protocol");
    assert_eq!(rec.message, "模型流在完成事件前结束");
}

#[test]
fn anthropic_completes_once() {
    let mut state = anthropic_events::EventDecodeState::new();
    let first = anthropic_events::decode_sse_data(r#"{"type":"message_stop"}"#, &mut state).unwrap();
    assert_eq!(completions(&first), 1);
    let again = anthropic_events::decode_sse_data(r#"{"type":"message_stop"}"#, &mut state).unwrap();
    assert_eq!(completions(&again), 0);
    let late = anthropic_events::decode_sse_data(
        r#"{"type":"content_block_delta","index":0,"delta":{"type":"text_delta","text":"x"}}"#,
        &mut state,
    )
    .unwrap();
    assert_eq!(completions(&late), 0);
    assert!(state.completed);
}

#[test]
fn gemini_completes_once() {
    let mut state = gemini_events::EventDecodeState::new();
    let first = gemini_events::decode_sse_data(
        r#"{"candidates":[{"content":{"parts":[{"text":"a"}]},"finishReason":"STOP"}]}"#,
        &mut state,
    )
    .unwrap();
    assert_eq!(completions(&first), 1);
    let again = gemini_events::decode_sse_data(
        r#"{"candidates":[{"content":{"parts":[{"text":"b"}]},"finishReason":"STOP"}]}"#,
        &mut state,
    )
    .unwrap();
    assert!(again.is_empty());
    assert!(gemini_events::decode_sse_data("[DONE]", &mut state).unwrap().is_empty());
}

#[test]
fn responses_completes_once() {
    let mut state = responses_events::EventDecodeState::new();
    let first = responses_events::decode_sse_data("[DONE]", &mut state).unwrap();
    assert_eq!(completions(&first), 1);
    let again = responses_events::decode_sse_data(r#"{"type":"response.incomplete","response":{}}"#, &mut state).unwrap();
    assert_eq!(completions(&again), 0);
    assert!(state.completed);
}

#[test]
fn cancel_reports_running_once_then_not_after_unregister() {
    let mut r = GenerationRegistry::new();
    r.register(1, 10).unwrap();
    assert!(r.is_running(10));
    assert!(r.is_running(10));
    assert_eq!(r.running_count(), 1);
    r.unregister(1, 10);
    assert!(!r.is_running(10));
    assert_eq!(r.running_count(), 0);
}
