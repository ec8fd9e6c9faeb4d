use mprism::anthropic_events;
use mprism::error::ProtocolErrorKind;
use mprism::gemini_events;
use mprism::openai_chunk::{decode_sse_data, ChunkDecodeState};
use mprism::responses_events;
use mprism::stream_driver::{StreamDriver, StreamInput};
use mprism::types::{FinishReason, ProtocolKind, StreamEvent, TokenUsage};

#[test]
fn content_reasoning_usage_done() {
    let mut state = ChunkDecodeState::new();
    let mut events = Vec::new();
    events.extend(
        decode_sse_data(r#"{"choices":[{"delta":{"reasoning_content":"think","content":"Hel"}}]}"#, &mut state)
            .unwrap(),
    );
    events.extend(
        decode_sse_data(r#"{"choices":[{"delta":{"content":"lo"},"finish_reason":"stop"}]}"#, &mut state).unwrap(),
    );
    events.extend(
        decode_sse_data(
            r#"{"choices":[],"usage":{"prompt_tokens":1,"completion_tokens":2,"total_tokens":3,"completion_tokens_details":{"reasoning_tokens":9},"prompt_tokens_details":{"cached_tokens":1}}}"#,
            &mut state,
        )
        .unwrap(),
    );
    events.extend(decode_sse_data("[DONE]", &mut state).unwrap());

    assert!(matches!(events[0], StreamEvent::ReasoningDelta { ref text } if text == "think"));
    assert!(matches!(events[1], StreamEvent::ContentDelta { ref text } if text == "Hel"));
    assert!(matches!(events[2], StreamEvent::ContentDelta { ref text } if text == "lo"));
    assert!(matches!(
        events[3],
        StreamEvent::Usage(TokenUsage { total_tokens: Some(3), reasoning_tokens: Some(9), cached_tokens: Some(1), .. })
    ));
    assert!(matches!(events[4], StreamEvent::Completed { finish_reason: FinishReason::Stop }));
    assert!(state.completed);
    assert!(decode_sse_data("[DONE]", &mut state).unwrap().is_empty());
}

#[test]
fn tool_calls_stream_across_chunks() {
    let mut state = ChunkDecodeState::new();
    let mut events = Vec::new();
    events.extend(
        decode_sse_data(
            r#"{"choices":[{"delta":{"tool_calls":[{"index":0,"id":"call_1","type":"function","function":{"name":"lookup","arguments":""}}]}}]}"#,
            &mut state,
        )
        .unwrap(),
    );
    events.extend(
        decode_sse_data(
            r#"{"choices":[{"delta":{"tool_calls":[{"index":0,"function":{"arguments":"{\"q\":"}}]}}]}"#,
            &mut state,
        )
        .unwrap(),
    );
    events.extend(
        decode_sse_data(
            r#"{"choices":[{"delta":{"tool_calls":[{"index":0,"function":{"arguments":"1}"}}]},"finish_reason":"tool_calls"}]}"#,
            &mut state,
        )
        .unwrap(),
    );
    events.extend(decode_sse_data("[DONE]", &mut state).unwrap());

    assert!(events.iter().any(|e| matches!(
        e,
        StreamEvent::ToolCallDelta { id: Some(id), name: Some(name), .. } if id == "call_1" && name == "lookup"
    )));
    assert!(events.iter().any(|e| matches!(
        e,
        StreamEvent::ToolCallFinished { id, name, arguments, index: Some(0) }
            if id == "call_1" && name == "lookup" && arguments == r#"{"q":1}"#
    )));
    assert!(matches!(events.last(), Some(StreamEvent::Completed { finish_reason: FinishReason::ToolCalls })));
}

#[test]
fn finish_reason_length_and_tool_calls() {
    for (raw, expected) in [
        ("length", FinishReason::Length),
        ("content_filter", FinishReason::ContentFilter),
        ("tool_calls", FinishReason::ToolCalls),
    ] {
        let mut state = ChunkDecodeState::new();
        decode_sse_data(&format!(r#"{{"choices":[{{"delta":{{}},"finish_reason":"{raw}"}}]}}"#), &mut state).unwrap();
        let events = decode_sse_data("[DONE]", &mut state).unwrap();
        assert_eq!(events, vec![StreamEvent::Completed { finish_reason: expected }]);
    }
}

#[test]
fn only_first_choice_and_single_completed() {
    let mut state = ChunkDecodeState::new();
    let events =
        decode_sse_data(r#"{"choices":[{"delta":{"content":"A"}},{"delta":{"content":"B"}}]}"#, &mut state).unwrap();
    assert_eq!(events, vec![StreamEvent::ContentDelta { text: "A".into() }]);
    state.finish_reason = Some("stop".into());
    let first = decode_sse_data("[DONE]", &mut state).unwrap();
    assert_eq!(first.len(), 1);
    let second = decode_sse_data("[DONE]", &mut state).unwrap();
    assert!(second.is_empty());
}

#[test]
fn reasoning_alias_and_malformed() {
    let mut state = ChunkDecodeState::new();
    let events = decode_sse_data(r#"{"choices":[{"delta":{"reasoning":"r2"}}]}"#, &mut state).unwrap();
    assert!(matches!(events[0], StreamEvent::ReasoningDelta { ref text } if text == "r2"));
    let err = decode_sse_data("{not-json", &mut state).unwrap_err();
    assert_eq!(err.kind, ProtocolErrorKind::Decode);
}

#[test]
fn text_and_thinking_deltas() {
    let mut state = anthropic_events::EventDecodeState::new();
    let events = anthropic_events::decode_sse_data(
        r#"{"type":"content_block_delta","index":0,"delta":{"type":"text_delta","text":"Hi"}}"#,
        &mut state,
    )
    .unwrap();
    assert_eq!(events, vec![StreamEvent::ContentDelta { text: "Hi".into() }]);

    let events = anthropic_events::decode_sse_data(
        r#"{"type":"content_block_delta","delta":{"type":"thinking_delta","thinking":"plan"}}"#,
        &mut state,
    )
    .unwrap();
    assert_eq!(events, vec![StreamEvent::ReasoningDelta { text: "plan".into() }]);
}

#[test]
fn tool_use_input_json_delta_stream() {
    let mut state = anthropic_events::EventDecodeState::new();
    let mut events = Vec::new();
    for data in [
        r#"{"type":"content_block_start","index":1,"content_block":{"type":"tool_use","id":"tu_1","name":"lookup","input":{}}}"#,
        r#"{"type":"content_block_delta","index":1,"delta":{"type":"input_json_delta","partial_json":"{\"q\":"}}"#,
        r#"{"type":"content_block_delta","index":1,"delta":{"type":"input_json_delta","partial_json":"1}"}}"#,
        r#"{"type":"content_block_stop","index":1}"#,
        r#"{"type":"message_delta","delta":{"stop_reason":"tool_use"}}"#,
        r#"{"type":"message_stop"}"#,
    ] {
        events.extend(anthropic_events::decode_sse_data(data, &mut state).unwrap());
    }
    assert!(events.iter().any(|e| matches!(
        e,
        StreamEvent::ToolCallFinished { id, name, arguments, index: Some(1) }
            if id == "tu_1" && name == "lookup" && arguments == r#"{"q":1}"#
    )));
    assert!(matches!(events.last(), Some(StreamEvent::Completed { finish_reason: FinishReason::ToolCalls })));
}

#[test]
fn message_stop_emits_usage_and_completed() {
    let mut state = anthropic_events::EventDecodeState::new();
    anthropic_events::decode_sse_data(
        r#"{"type":"message_start","message":{"usage":{"input_tokens":3,"output_tokens":0}}}"#,
        &mut state,
    )
    .unwrap();
    anthropic_events::decode_sse_data(
        r#"{"type":"message_delta","delta":{"stop_reason":"end_turn"},"usage":{"output_tokens":2,"output_tokens_details":{"thinking_tokens":4}}}"#,
        &mut state,
    )
    .unwrap();
    let events = anthropic_events::decode_sse_data(r#"{"type":"message_stop"}"#, &mut state).unwrap();
    assert_eq!(events.len(), 2);
    match &events[0] {
        StreamEvent::Usage(u) => {
            assert_eq!(u.prompt_tokens, Some(3));
            assert_eq!(u.completion_tokens, Some(2));
            assert_eq!(u.total_tokens, Some(5));
            assert_eq!(u.reasoning_tokens, Some(4));
        }
        other => panic!("expected usage, got {other:?}"),
    }
    match &events[1] {
        StreamEvent::Completed { finish_reason } => assert_eq!(finish_reason, &FinishReason::Stop),
        other => panic!("expected completed, got {other:?}"),
    }
    assert!(state.completed);
}

#[test]
fn stop_reason_table() {
    for (reason, expected) in [
        ("max_tokens", FinishReason::Length),
        ("tool_use", FinishReason::ToolCalls),
        ("stop_sequence", FinishReason::Stop),
        ("refusal", FinishReason::ContentFilter),
    ] {
        let mut state = anthropic_events::EventDecodeState::new();
        anthropic_events::decode_sse_data(
            &format!(r#"{{"type":"message_delta","delta":{{"stop_reason":"{reason}"}}}}"#),
            &mut state,
        )
        .unwrap();
        let events = anthropic_events::decode_sse_data(r#"{"type":"message_stop"}"#, &mut state).unwrap();
        assert_eq!(events, vec![StreamEvent::Completed { finish_reason: expected }]);
    }
}

#[test]
fn ignores_unknown_types() {
    let mut state = anthropic_events::EventDecodeState::new();
    let events = anthropic_events::decode_sse_data(r#"{"type":"content_block_start","index":0}"#, &mut state).unwrap();
    assert!(events.is_empty());
    let events = anthropic_events::decode_sse_data(r#"{"type":"future_event","x":1}"#, &mut state).unwrap();
    assert!(events.is_empty());
}

#[test]
fn sse_events_stream_error_payload() {
    let mut state = anthropic_events::EventDecodeState::new();
    let err = anthropic_events::decode_sse_data(
        r#"{"type":"error","error":{"type":"overloaded_error","message":"busy sk-leaked"}}"#,
        &mut state,
    )
    .unwrap_err();
    assert_eq!(err.provider_code.as_deref(), Some("overloaded_error"));
    assert!(!err.message.contains("sk-leaked"));
}

#[test]
fn text_and_thought_deltas() {
    let mut state = gemini_events::EventDecodeState::new();
    let events = gemini_events::decode_sse_data(
        r#"{"candidates":[{"content":{"parts":[{"text":"Hi"},{"text":"plan","thought":true}]},"index":0}]}"#,
        &mut state,
    )
    .unwrap();
    assert_eq!(
        events,
        vec![StreamEvent::ContentDelta { text: "Hi".into() }, StreamEvent::ReasoningDelta { text: "plan".into() }]
    );
}

#[test]
fn finish_emits_usage_and_completed() {
    let mut state = gemini_events::EventDecodeState::new();
    let events = gemini_events::decode_sse_data(
        r#"{"candidates":[{"content":{"parts":[{"text":"lo"}]},"finishReason":"STOP","index":0}],"usageMetadata":{"promptTokenCount":3,"candidatesTokenCount":2,"totalTokenCount":5}}"#,
        &mut state,
    )
    .unwrap();
    assert_eq!(events.len(), 3);
    match &events[0] {
        StreamEvent::ContentDelta { text } => assert_eq!(text, "lo"),
        other => panic!("expected content, got {other:?}"),
    }
    match &events[1] {
        StreamEvent::Usage(u) => {
            assert_eq!(u.prompt_tokens, Some(3));
            assert_eq!(u.completion_tokens, Some(2));
            assert_eq!(u.total_tokens, Some(5));
        }
        other => panic!("expected usage, got {other:?}"),
    }
    match &events[2] {
        StreamEvent::Completed { finish_reason } => assert_eq!(finish_reason, &FinishReason::Stop),
        other => panic!("expected completed, got {other:?}"),
    }
    assert!(state.completed);
}

#[test]
fn prompt_block_without_candidates() {
    let mut state = gemini_events::EventDecodeState::new();
    let err = gemini_events::decode_sse_data(r#"{"promptFeedback":{"blockReason":"SAFETY"}}"#, &mut state).unwrap_err();
    assert_eq!(err.kind, ProtocolErrorKind::InvalidRequest);
}

#[test]
fn stream_decode_stream_error_payload() {
    let mut state = gemini_events::EventDecodeState::new();
    let err = gemini_events::decode_sse_data(
        r#"{"error":{"code":503,"message":"busy AIza-leaked","status":"UNAVAILABLE"}}"#,
        &mut state,
    )
    .unwrap_err();
    assert_eq!(err.provider_code.as_deref(), Some("UNAVAILABLE"));
}

#[test]
fn output_text_reasoning_completed_usage() {
    let mut state = responses_events::EventDecodeState::new();
    let mut events = Vec::new();
    for data in [
        r#"{"type":"response.created","response":{"id":"resp_1"}}"#,
        r#"{"type":"response.reasoning_summary_text.delta","delta":"think "}"#,
        r#"{"type":"response.output_text.delta","delta":"Hel"}"#,
        r#"{"type":"response.output_text.delta","delta":"lo"}"#,
        r#"{"type":"response.completed","response":{"status":"completed","usage":{"input_tokens":3,"output_tokens":2,"total_tokens":5}}}"#,
    ] {
        events.extend(responses_events::decode_sse_data(data, &mut state).unwrap());
    }
    assert!(events.iter().any(|e| matches!(e, StreamEvent::ReasoningDelta { text } if text == "think ")));
    assert_eq!(
        events
            .iter()
            .filter_map(|e| match e {
                StreamEvent::ContentDelta { text } => Some(text.as_str()),
                _ => None,
            })
            .collect::<String>(),
        "Hello"
    );
    assert!(matches!(events.last(), Some(StreamEvent::Completed { finish_reason: FinishReason::Stop })));
    assert!(state.completed);
    assert!(responses_events::decode_sse_data(r#"{"type":"response.completed","response":{}}"#, &mut state)
        .unwrap()
        .is_empty());
}

#[test]
fn incomplete_and_error() {
    let mut state = responses_events::EventDecodeState::new();
    let events = responses_events::decode_sse_data(
        r#"{"type":"response.incomplete","response":{"incomplete_details":{"reason":"max_output_tokens"},"usage":{"input_tokens":1,"output_tokens":2,"total_tokens":3,"output_tokens_details":{"reasoning_tokens":4}}}}"#,
        &mut state,
    )
    .unwrap();
    assert!(matches!(events.first(), Some(StreamEvent::Usage(u)) if u.reasoning_tokens == Some(4)));
    assert!(matches!(events.last(), Some(StreamEvent::Completed { finish_reason: FinishReason::Length })));

    for (reason, expected) in [
        ("content_filter", FinishReason::ContentFilter),
        ("tool_use", FinishReason::ToolCalls),
        ("custom_reason", FinishReason::Other("custom_reason".into())),
    ] {
        let mut state = responses_events::EventDecodeState::new();
        let events = responses_events::decode_sse_data(
            &format!(r#"{{"type":"response.incomplete","response":{{"incomplete_details":{{"reason":"{reason}"}}}}}}"#),
            &mut state,
        )
        .unwrap();
        assert_eq!(events, vec![StreamEvent::Completed { finish_reason: expected }]);
    }

    let mut state = responses_events::EventDecodeState::new();
    let err = responses_events::decode_sse_data(
        r#"{"type":"error","code":"server_error","message":"boom sk-secret"}"#,
        &mut state,
    )
    .unwrap_err();
    assert_eq!(err.kind, ProtocolErrorKind::ProviderUnavailable);
    assert!(!err.message.contains("sk-secret"));
}

#[test]
fn failed_event() {
    let mut state = responses_events::EventDecodeState::new();
    let err = responses_events::decode_sse_data(
        r#"{"type":"response.failed","response":{"error":{"code":"server_error","message":"fail"}}}"#,
        &mut state,
    )
    .unwrap_err();
    assert_eq!(err.provider_code.as_deref(), Some("server_error"));
}

#[test]
fn malformed_json() {
    let mut state = responses_events::EventDecodeState::new();
    let err = responses_events::decode_sse_data("{not-json", &mut state).unwrap_err();
    assert_eq!(err.kind, ProtocolErrorKind::Decode);
}

#[test]
fn function_call_stream_across_events() {
    let mut state = responses_events::EventDecodeState::new();
    let mut events = Vec::new();
    for data in [
        r#"{"type":"response.output_item.added","output_index":0,"item":{"type":"function_call","call_id":"call_1","name":"lookup","arguments":""}}"#,
        r#"{"type":"response.function_call_arguments.delta","output_index":0,"delta":"{\"q\":"}"#,
        r#"{"type":"response.function_call_arguments.delta","output_index":0,"delta":"1}"}"#,
        r#"{"type":"response.function_call_arguments.done","output_index":0,"arguments":"{\"q\":1}"}"#,
        r#"{"type":"response.completed","response":{"status":"completed","output":[{"type":"function_call","call_id":"call_1","name":"lookup","arguments":"{\"q\":1}"}]}}"#,
    ] {
        events.extend(responses_events::decode_sse_data(data, &mut state).unwrap());
    }
    assert!(events.iter().any(|e| matches!(
        e,
        StreamEvent::ToolCallFinished { id, name, arguments, .. }
            if id == "call_1" && name == "lookup" && arguments == r#"{"q":1}"#
    )));
    assert!(matches!(events.last(), Some(StreamEvent::Completed { finish_reason: FinishReason::ToolCalls })));
}

#[test]
fn driver_reports_eof_before_completion() {
    let mut driver = StreamDriver::new(ProtocolKind::OpenAiChatCompletions);
    let items = driver.step(StreamInput::Bytes(b"data: {\"choices\":[{\"delta\":{\"content\":\"Hi\"}}]}\n\n".to_vec()));
    assert_eq!(items.len(), 1);
    assert!(matches!(&items[0], Ok(StreamEvent::ContentDelta { text }) if text == "Hi"));
    assert!(!driver.is_done());
    let items = driver.step(StreamInput::End);
    assert_eq!(items.len(), 1);
    assert_eq!(items[0].as_ref().unwrap_err().kind, ProtocolErrorKind::UnexpectedEof);
    assert!(driver.is_done());
}

#[test]
fn driver_completes_on_done_across_chunks() {
    let mut driver = StreamDriver::new(ProtocolKind::OpenAiChatCompletions);
    let mut all = Vec::new();
    all.extend(driver.step(StreamInput::Bytes(b"data: {\"choices\":[{\"delta\":{},\"finish_reason\":\"len".to_vec())));
    all.extend(driver.step(StreamInput::Bytes(b"gth\"}]}\r\n\r\ndata: [DO".to_vec())));
    all.extend(driver.step(StreamInput::Bytes(b"NE]\n\n".to_vec())));
    assert_eq!(all.len(), 1);
    assert!(matches!(&all[0], Ok(StreamEvent::Completed { finish_reason: FinishReason::Length })));
    assert!(driver.is_done());
    assert!(driver.step(StreamInput::End).is_empty());
}

#[test]
fn driver_idle_timeout_is_retryable() {
    let mut driver = StreamDriver::new(ProtocolKind::AnthropicMessages);
    let items = driver.step(StreamInput::IdleTimeout);
    let err = items[0].as_ref().unwrap_err();
    assert_eq!(err.kind, ProtocolErrorKind::Timeout);
    assert!(err.retryable);
    assert!(driver.is_done());
}

#[test]
fn driver_completes_openai_eof_after_finish_reason() {
    let mut driver = StreamDriver::new(ProtocolKind::OpenAiChatCompletions);
    let items = driver.step(StreamInput::Bytes(
        b"data: {\"choices\":[{\"delta\":{\"content\":\"Hi\"},\"finish_reason\":\"length\"}]}\n\n".to_vec(),
    ));
    assert_eq!(items.len(), 1);
    let items = driver.step(StreamInput::End);
    assert_eq!(items.len(), 1);
    assert!(matches!(&items[0], Ok(StreamEvent::Completed { finish_reason: FinishReason::Length })));
    assert!(driver.is_done());
}

#[test]
fn driver_eof_after_finish_reason_in_trailing_event() {
    let mut driver = StreamDriver::new(ProtocolKind::OpenAiChatCompletions);
    let items = driver.step(StreamInput::Bytes(b"data: {\"choices\":[{\"delta\":{},\"finish_reason\":\"stop\"}]}".to_vec()));
    assert!(items.is_empty());
    let items = driver.step(StreamInput::End);
    assert_eq!(items.len(), 1);
    assert!(matches!(&items[0], Ok(StreamEvent::Completed { finish_reason: FinishReason::Stop })));
}

#[test]
fn driver_anthropic_eof_is_still_an_error() {
    let mut driver = StreamDriver::new(ProtocolKind::AnthropicMessages);
    let items = driver.step(StreamInput::End);
    assert_eq!(items.len(), 1);
    assert_eq!(items[0].as_ref().unwrap_err().kind, ProtocolErrorKind::UnexpectedEof);
}

#[test]
fn decoders_take_parsed_values() {
    let v = mprism::json::parse_json(r#"{"choices":[{"delta":{"content":"x"}}]}"#).unwrap();
    let mut state = ChunkDecodeState::new();
    let events = mprism::openai_chunk::decode_chunk_value(&v, &mut state).unwrap();
    assert!(matches!(&events[0], StreamEvent::ContentDelta { text } if text == "x"));

    let v = mprism::json::parse_json(r#"{"type":"response.output_text.delta","delta":"y"}"#).unwrap();
    let mut state = responses_events::EventDecodeState::new();
    let events = responses_events::decode_event_value(&v, &mut state).unwrap();
    assert!(matches!(&events[0], StreamEvent::ContentDelta { text } if text == "y"));

    let v = mprism::json::parse_json(r#"{"type":"error","error":{"type":"overloaded_error","message":"busy"}}"#).unwrap();
    let mut state = anthropic_events::EventDecodeState::new();
    assert!(anthropic_events::decode_event_value(&v, &mut state).is_err());

    let v = mprism::json::parse_json(r#"{"candidates":[{"content":{"parts":[{"text":"z"}]}}]}"#).unwrap();
    let mut state = gemini_events::EventDecodeState::new();
    let events = gemini_events::decode_response_value(&v, &mut state).unwrap();
    assert!(matches!(&events[0], StreamEvent::ContentDelta { text } if text == "z"));
}
