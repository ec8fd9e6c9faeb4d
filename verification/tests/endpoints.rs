use mprism::endpoint::{apply_api_key_query, join_api_path, normalize_base_url, stream_generate_content_url, ProviderEndpoint};
use mprism::error::ProtocolErrorKind;
use mprism::headers::{auth_headers, merge_extra_headers};
use mprism::error::ErrorBodyFamily;
use mprism::http_error::{map_http_error, parse_anthropic_error_body, parse_gemini_error_body, parse_openai_error_body};
use mprism::json::parse_json;
use mprism::models::{capabilities_payload, parse_models_body, protocol_capabilities};
use mprism::secret::SecretString;
use mprism::types::{
    AuthOptions, ChatMessage, ChatRequest, ChatRole, ContentPart, ProtocolCapabilities, ProtocolKind, ReasoningMode,
    ReasoningPolicy, ToolDefinition,
};
use reqwest::header::{HeaderMap, HeaderName, HeaderValue, ACCEPT, AUTHORIZATION, CONTENT_TYPE};

fn endpoint(protocol: ProtocolKind, base: &str, key: &str) -> ProviderEndpoint {
    ProviderEndpoint {
        protocol,
        base_url: normalize_base_url(base).unwrap(),
        api_key: SecretString::new(key),
        auth: AuthOptions::default(),
    }
}

fn header<'a>(h: &'a HeaderMap, name: &str) -> Option<&'a str> {
    h.get(name).and_then(|v| v.to_str().ok())
}

// ---------------------------------------------------------------- base URLs

#[test]
fn normalizes_base_url_and_keeps_v1() {
    let url = normalize_base_url("https://api.example.com/v1/").unwrap();
    assert_eq!(url.as_str(), "https://api.example.com/v1");
    let models = join_api_path(&url, "models").unwrap();
    assert_eq!(models.as_str(), "https://api.example.com/v1/models");
    let chat = join_api_path(&url, "chat/completions").unwrap();
    assert_eq!(chat.as_str(), "https://api.example.com/v1/chat/completions");
}

#[test]
fn rejects_query_and_fragment() {
    assert!(normalize_base_url("https://api.example.com/v1?x=1").is_err());
    assert!(normalize_base_url("https://api.example.com/v1#frag").is_err());
}

#[test]
fn base_url_errors_are_invalid_configuration() {
    assert_eq!(normalize_base_url("   ").unwrap_err().kind, ProtocolErrorKind::InvalidConfiguration);
    assert_eq!(normalize_base_url("not a url").unwrap_err().kind, ProtocolErrorKind::InvalidConfiguration);
    assert_eq!(normalize_base_url("ftp://example.com/x").unwrap_err().kind, ProtocolErrorKind::InvalidConfiguration);
    let url = normalize_base_url("  http://localhost:8080  ").unwrap();
    assert_eq!(url.as_str(), "http://localhost:8080/");
}

#[test]
fn join_trims_slashes_of_segment() {
    let url = normalize_base_url("https://api.example.com/v1").unwrap();
    let models = join_api_path(&url, "/models/").unwrap();
    assert_eq!(models.as_str(), "https://api.example.com/v1/models");
    let root = normalize_base_url("https://api.example.com").unwrap();
    assert_eq!(join_api_path(&root, "models").unwrap().as_str(), "https://api.example.com/models");
}

#[test]
fn stream_url_adds_alt_sse() {
    let base = normalize_base_url("https://generativelanguage.googleapis.com/v1beta").unwrap();
    let url = stream_generate_content_url(&base, "gemini-2.0-flash").unwrap();
    assert_eq!(
        url.as_str(),
        "https://generativelanguage.googleapis.com/v1beta/models/gemini-2.0-flash:streamGenerateContent?alt=sse"
    );
    let url2 = stream_generate_content_url(&base, "models/gemini-pro").unwrap();
    assert!(url2.path().ends_with("/models/gemini-pro:streamGenerateContent"));
    assert_eq!(url2.query().as_deref(), Some("alt=sse"));
}

#[test]
fn stream_url_rejects_empty_model() {
    let base = normalize_base_url("https://generativelanguage.googleapis.com/v1beta").unwrap();
    let err = stream_generate_content_url(&base, "  ").unwrap_err();
    assert_eq!(err.kind, ProtocolErrorKind::InvalidRequest);
}

// ---------------------------------------------------------------- auth

#[test]
fn forced_headers_win_over_extra() {
    let mut headers = HeaderMap::new();
    headers.insert(CONTENT_TYPE, HeaderValue::from_static("application/json"));
    headers.insert(AUTHORIZATION, HeaderValue::from_static("Bearer forced"));
    let auth = AuthOptions {
        extra_headers: vec![("Content-Type".into(), "text/plain".into()), ("X-Custom".into(), "yes".into())],
        api_key_query_param: None,
    };
    merge_extra_headers(&mut headers, &auth).unwrap();
    assert_eq!(headers.get(CONTENT_TYPE).and_then(|v| v.to_str().ok()), Some("application/json"));
    assert_eq!(headers.get(AUTHORIZATION).and_then(|v| v.to_str().ok()), Some("Bearer forced"));
    assert_eq!(headers.get("x-custom").and_then(|v| v.to_str().ok()), Some("yes"));
}

#[test]
fn rejects_crlf_in_header_name() {
    let mut headers = HeaderMap::new();
    let auth = AuthOptions { extra_headers: vec![("X-Bad\nName".into(), "v".into())], api_key_query_param: None };
    let err = merge_extra_headers(&mut headers, &auth).unwrap_err();
    assert_eq!(err.kind, ProtocolErrorKind::InvalidConfiguration);
    assert!(!err.message.contains('\n'));
}

#[test]
fn rejects_crlf_in_header_value_and_empty_name() {
    let mut headers = HeaderMap::new();
    let auth = AuthOptions { extra_headers: vec![("X-Ok".into(), "a\r\nb".into())], api_key_query_param: None };
    let err = merge_extra_headers(&mut headers, &auth).unwrap_err();
    assert_eq!(err.kind, ProtocolErrorKind::InvalidConfiguration);
    let auth = AuthOptions { extra_headers: vec![("   ".into(), "v".into())], api_key_query_param: None };
    let err = merge_extra_headers(&mut headers, &auth).unwrap_err();
    assert_eq!(err.kind, ProtocolErrorKind::InvalidConfiguration);
    assert!(headers.is_empty());
}

#[test]
fn api_key_query_only_when_configured_and_non_empty() {
    let base = normalize_base_url("https://api.example.com/v1").unwrap();
    let with = ProviderEndpoint {
        protocol: ProtocolKind::OpenAiChatCompletions,
        base_url: base.clone(),
        api_key: SecretString::new("sk-test"),
        auth: AuthOptions { extra_headers: vec![], api_key_query_param: Some("key".into()) },
    };
    let url = apply_api_key_query(base.clone(), &with);
    assert_eq!(url.query().as_deref(), Some("key=sk-test"));

    let empty_key = ProviderEndpoint {
        protocol: ProtocolKind::OpenAiChatCompletions,
        base_url: base.clone(),
        api_key: SecretString::new(""),
        auth: AuthOptions { extra_headers: vec![], api_key_query_param: Some("key".into()) },
    };
    let url = apply_api_key_query(base.clone(), &empty_key);
    assert_eq!(url.query(), None);

    let no_param = ProviderEndpoint {
        protocol: ProtocolKind::OpenAiChatCompletions,
        base_url: base.clone(),
        api_key: SecretString::new("sk-test"),
        auth: AuthOptions::default(),
    };
    let url = apply_api_key_query(base, &no_param);
    assert_eq!(url.query(), None);
}

#[test]
fn auth_header_only_when_key_present() {
    let with_key = endpoint(ProtocolKind::OpenAiChatCompletions, "http://127.0.0.1:9/v1", "sk-test");
    let headers = auth_headers(ProtocolKind::OpenAiChatCompletions, &with_key, true).unwrap();
    assert!(headers.contains_key(AUTHORIZATION));
    assert_eq!(header(&headers, "authorization"), Some("Bearer sk-test"));
    assert_eq!(header(&headers, "accept"), Some("text/event-stream"));

    let no_key = endpoint(ProtocolKind::OpenAiChatCompletions, "http://127.0.0.1:9/v1", "");
    let headers = auth_headers(ProtocolKind::OpenAiChatCompletions, &no_key, false).unwrap();
    assert!(!headers.contains_key(AUTHORIZATION));
    assert!(!headers.contains_key(ACCEPT));
}

#[test]
fn client_auth_header_only_when_key_present() {
    let with_key = endpoint(ProtocolKind::OpenAiResponses, "http://127.0.0.1:9/v1", "sk-test");
    let headers = auth_headers(ProtocolKind::OpenAiResponses, &with_key, true).unwrap();
    assert!(headers.contains_key(AUTHORIZATION));

    let no_key = endpoint(ProtocolKind::OpenAiResponses, "http://127.0.0.1:9/v1", "");
    let headers = auth_headers(ProtocolKind::OpenAiResponses, &no_key, false).unwrap();
    assert!(!headers.contains_key(AUTHORIZATION));
}

#[test]
fn auth_headers_x_api_key_and_version() {
    let with_key = endpoint(ProtocolKind::AnthropicMessages, "http://127.0.0.1:9/v1", "sk-test");
    let headers = auth_headers(ProtocolKind::AnthropicMessages, &with_key, true).unwrap();
    assert_eq!(header(&headers, "x-api-key"), Some("sk-test"));
    assert_eq!(header(&headers, "anthropic-version"), Some("2023-06-01"));
    assert!(headers.contains_key(ACCEPT));
    assert!(!headers.contains_key(AUTHORIZATION));

    let no_key = endpoint(ProtocolKind::AnthropicMessages, "http://127.0.0.1:9/v1", "");
    let headers = auth_headers(ProtocolKind::AnthropicMessages, &no_key, false).unwrap();
    assert!(!headers.contains_key("x-api-key"));
    assert!(headers.contains_key("anthropic-version"));
}

#[test]
fn auth_header_x_goog_api_key() {
    let with_key = endpoint(ProtocolKind::GeminiGenerateContent, "http://127.0.0.1:9/v1beta", "AIza-test");
    let headers = auth_headers(ProtocolKind::GeminiGenerateContent, &with_key, true).unwrap();
    assert_eq!(header(&headers, "x-goog-api-key"), Some("AIza-test"));
    assert!(!headers.contains_key(AUTHORIZATION));

    let no_key = endpoint(ProtocolKind::GeminiGenerateContent, "http://127.0.0.1:9/v1beta", "");
    let headers = auth_headers(ProtocolKind::GeminiGenerateContent, &no_key, false).unwrap();
    assert!(!headers.contains_key("x-goog-api-key"));
}

#[test]
fn auth_headers_keep_forced_over_extra() {
    let mut ep = endpoint(ProtocolKind::OpenAiChatCompletions, "http://127.0.0.1:9/v1", "sk-test");
    ep.auth.extra_headers = vec![("Authorization".into(), "Bearer other".into()), ("X-Org".into(), "o1".into())];
    let headers = auth_headers(ProtocolKind::OpenAiChatCompletions, &ep, false).unwrap();
    assert_eq!(header(&headers, "authorization"), Some("Bearer sk-test"));
    assert_eq!(header(&headers, "x-org"), Some("o1"));
    assert_eq!(header(&headers, "content-type"), Some("application/json"));
}

// ---------------------------------------------------------------- model lists

#[test]
fn parse_models_dedup_and_skip_empty() {
    let body = br#"{
        "object":"list",
        "data":[
            {"id":"a","owned_by":"x"},
            {"id":"a"},
            {"id":"  "},
            {"id":"b"}
        ]
    }"#;
    let models = parse_models_body(ProtocolKind::OpenAiChatCompletions, body).unwrap();
    assert_eq!(models.len(), 2);
    assert_eq!(models[0].id, "a");
    assert_eq!(models[0].owned_by.as_deref(), Some("x"));
    assert_eq!(models[1].id, "b");
}

#[test]
fn client_parse_models_dedup_and_skip_empty() {
    let body = br#"{
        "object":"list",
        "data":[
            {"id":"a","owned_by":"x"},
            {"id":"a"},
            {"id":"  "},
            {"id":"b"}
        ]
    }"#;
    let models = parse_models_body(ProtocolKind::OpenAiResponses, body).unwrap();
    assert_eq!(models.len(), 2);
    assert_eq!(models[0].id, "a");
    assert_eq!(models[1].id, "b");
}

#[test]
fn parse_models_display_name_and_dedup() {
    let body = br#"{
        "data":[
            {"id":"a","display_name":"Alpha"},
            {"id":"a"},
            {"id":"  "},
            {"id":"b"}
        ]
    }"#;
    let models = parse_models_body(ProtocolKind::AnthropicMessages, body).unwrap();
    assert_eq!(models.len(), 2);
    assert_eq!(models[0].id, "a");
    assert_eq!(models[0].display_name, "Alpha");
    assert_eq!(models[1].id, "b");
    assert_eq!(models[1].display_name, "b");
}

#[test]
fn parse_models_strips_prefix() {
    let body = br#"{
        "models":[
            {"name":"models/gemini-2.0-flash","displayName":"Flash"},
            {"name":"models/gemini-2.0-flash"},
            {"name":"  "},
            {"name":"models/gemini-pro"}
        ]
    }"#;
    let models = parse_models_body(ProtocolKind::GeminiGenerateContent, body).unwrap();
    assert_eq!(models.len(), 2);
    assert_eq!(models[0].id, "gemini-2.0-flash");
    assert_eq!(models[0].display_name, "Flash");
    assert_eq!(models[1].id, "gemini-pro");
    assert_eq!(models[1].display_name, "gemini-pro");
}

#[test]
fn parse_models_missing_list_and_bad_json() {
    let err = parse_models_body(ProtocolKind::OpenAiChatCompletions, br#"{"object":"list"}"#).unwrap_err();
    assert_eq!(err.kind, ProtocolErrorKind::Decode);
    let err = parse_models_body(ProtocolKind::GeminiGenerateContent, b"not json").unwrap_err();
    assert_eq!(err.kind, ProtocolErrorKind::Decode);
}

// ---------------------------------------------------------------- error bodies

#[test]
fn parses_openai_error_json() {
    let body = r#"{"error":{"message":"bad sk-secret-key","type":"invalid_request_error","code":"invalid_api_key"}}"#;
    let (msg, code) = parse_openai_error_body(body);
    assert_eq!(code.as_deref(), Some("invalid_api_key"));
    assert!(msg.unwrap().contains("REDACTED"));
}

#[test]
fn parses_anthropic_and_gemini_error_json() {
    let anthropic = r#"{"type":"error","error":{"type":"authentication_error","message":"bad sk-secret-key"}}"#;
    let (msg, code) = parse_anthropic_error_body(anthropic);
    assert_eq!(code.as_deref(), Some("authentication_error"));
    assert!(msg.unwrap().contains("REDACTED"));

    let gemini = r#"{"error":{"code":401,"message":"bad key AIza-secret","status":"UNAUTHENTICATED"}}"#;
    let (msg, code) = parse_gemini_error_body(gemini);
    assert_eq!(code.as_deref(), Some("UNAUTHENTICATED"));
    assert!(msg.is_some());
}

#[test]
fn parse_anthropic_error_uses_type_as_code() {
    let body = r#"{"type":"error","error":{"type":"authentication_error","message":"bad sk-secret-key"}}"#;
    let (msg, code) = parse_anthropic_error_body(body);
    assert_eq!(code.as_deref(), Some("authentication_error"));
    assert!(msg.unwrap().contains("REDACTED"));
}

#[test]
fn parse_gemini_error_uses_status() {
    let body = r#"{"error":{"code":401,"message":"bad key AIza-secret","status":"UNAUTHENTICATED"}}"#;
    let (msg, code) = parse_gemini_error_body(body);
    assert_eq!(code.as_deref(), Some("UNAUTHENTICATED"));
    assert!(msg.is_some());
}

#[test]
fn error_body_that_is_not_json_has_no_fields() {
    let (msg, code) = parse_openai_error_body("<html>bad gateway</html>");
    assert_eq!(msg, None);
    assert_eq!(code, None);
}

#[test]
fn map_http_error_sets_retry_after_and_request_id() {
    let headers = vec![("retry-after".to_string(), "5".to_string()), ("x-request-id".to_string(), "req_123".to_string())];
    let body = br#"{"error":{"message":"slow down","code":"rate_limit_exceeded"}}"#;
    let err = map_http_error(429, &headers, body, ErrorBodyFamily::OpenAi);
    assert_eq!(err.kind, ProtocolErrorKind::RateLimited);
    assert_eq!(err.retry_after_ms, Some(5_000));
    assert_eq!(err.request_id.as_deref(), Some("req_123"));
    assert!(err.retryable);
    assert_eq!(err.provider_code.as_deref(), Some("rate_limit_exceeded"));
}

#[test]
fn map_http_error_context_length_fixture() {
    let headers: Vec<(String, String)> = vec![];
    let body = br#"{"error":{"message":"maximum context length exceeded","code":"context_length_exceeded"}}"#;
    let err = map_http_error(400, &headers, body, ErrorBodyFamily::OpenAi);
    assert_eq!(err.kind, ProtocolErrorKind::ContextLengthExceeded);
    assert!(!err.retryable);
}

#[test]
fn map_http_error_empty_body_names_status() {
    let headers: Vec<(String, String)> = vec![];
    let err = map_http_error(503, &headers, b"   ", ErrorBodyFamily::Gemini);
    assert_eq!(err.kind, ProtocolErrorKind::ProviderUnavailable);
    assert_eq!(err.message, "服务商返回 HTTP 503");
    assert_eq!(err.http_status, Some(503));
}

// ---------------------------------------------------------------- capability matrix

fn assert_caps(got: ProtocolCapabilities, expected: ProtocolCapabilities, label: &str) {
    assert_eq!(got.streaming, expected.streaming, "{label}.streaming");
    assert_eq!(got.list_models, expected.list_models, "{label}.list_models");
    assert_eq!(got.reasoning_output, expected.reasoning_output, "{label}.reasoning_output");
    assert_eq!(got.reasoning_control, expected.reasoning_control, "{label}.reasoning_control");
    assert_eq!(got.tools, expected.tools, "{label}.tools");
    assert_eq!(got.vision_input, expected.vision_input, "{label}.vision_input");
    assert_eq!(got.stream_usage, expected.stream_usage, "{label}.stream_usage");
    assert_eq!(got.custom_headers, expected.custom_headers, "{label}.custom_headers");
    assert_eq!(got.api_key_query, expected.api_key_query, "{label}.api_key_query");
}

fn all_caps(reasoning_control: bool) -> ProtocolCapabilities {
    ProtocolCapabilities {
        streaming: true,
        list_models: true,
        reasoning_output: true,
        reasoning_control,
        tools: true,
        vision_input: true,
        stream_usage: true,
        custom_headers: true,
        api_key_query: true,
    }
}

#[test]
fn matrix_openai_chat_completions() {
    let caps = protocol_capabilities(ProtocolKind::OpenAiChatCompletions);
    assert_caps(caps, all_caps(false), "chat_completions");
    let on = ChatRequest {
        model: "m".into(),
        messages: vec![ChatMessage::text(ChatRole::User, "hi")],
        temperature: None,
        max_tokens: None,
        reasoning: Some(ReasoningPolicy { mode: ReasoningMode::On, effort: None, budget_tokens: None }),
        tools: None,
        tool_choice: None,
    };
    assert_eq!(on.check_capabilities(&caps).unwrap_err().kind, ProtocolErrorKind::Unsupported);
}

#[test]
fn matrix_openai_responses() {
    assert_caps(protocol_capabilities(ProtocolKind::OpenAiResponses), all_caps(true), "responses");
}

#[test]
fn matrix_anthropic_messages() {
    assert_caps(protocol_capabilities(ProtocolKind::AnthropicMessages), all_caps(true), "anthropic");
}

#[test]
fn matrix_gemini_generate_content() {
    assert_caps(protocol_capabilities(ProtocolKind::GeminiGenerateContent), all_caps(true), "gemini");
}

#[test]
fn y_capabilities_accept_tools_and_vision() {
    let kinds = vec![
        ProtocolKind::OpenAiChatCompletions,
        ProtocolKind::OpenAiResponses,
        ProtocolKind::AnthropicMessages,
        ProtocolKind::GeminiGenerateContent,
    ];
    for kind in kinds {
        let caps = protocol_capabilities(kind);
        assert!(caps.tools, "{:?} tools", kind);
        assert!(caps.vision_input, "{:?} vision", kind);
        let with_tools = ChatRequest {
            model: "m".into(),
            messages: vec![ChatMessage::text(ChatRole::User, "hi")],
            temperature: None,
            max_tokens: None,
            reasoning: None,
            tools: Some(vec![ToolDefinition { name: "t".into(), description: None, parameters: parse_json("{}").unwrap() }]),
            tool_choice: None,
        };
        assert!(with_tools.check_capabilities(&caps).is_ok(), "{:?} tools gate", kind);

        let with_image = ChatRequest {
            model: "m".into(),
            messages: vec![ChatMessage {
                role: ChatRole::User,
                parts: vec![
                    ContentPart::Text { text: "see".into() },
                    ContentPart::ImageBase64 { media_type: "image/png".into(), data: "aGVsbG8=".into() },
                ],
                tool_call_id: None,
                tool_calls: vec![],
            }],
            temperature: None,
            max_tokens: None,
            reasoning: None,
            tools: None,
            tool_choice: None,
        };
        assert!(with_image.check_capabilities(&caps).is_ok(), "{:?} vision gate", kind);
    }
}

#[test]
fn too_many_extra_headers_is_a_configuration_error() {
    let mut headers = HeaderMap::new();
    for i in 0..6553 {
        let name = HeaderName::from_bytes(format!("x-h{i}").as_bytes()).unwrap();
        headers.insert(name, HeaderValue::from_static("v"));
    }
    let auth = AuthOptions { extra_headers: vec![("X-One-More".into(), "v".into())], api_key_query_param: None };
    let err = merge_extra_headers(&mut headers, &auth).unwrap_err();
    assert_eq!(err.kind, ProtocolErrorKind::InvalidConfiguration);
    assert_eq!(headers.keys_len(), 6553);
    let auth = AuthOptions { extra_headers: vec![("x-h0".into(), "w".into())], api_key_query_param: None };
    merge_extra_headers(&mut headers, &auth).unwrap();
    assert_eq!(headers.get("x-h0").and_then(|v| v.to_str().ok()), Some("v"));
}

#[test]
fn capabilities_payload_names_the_protocol() {
    let p = capabilities_payload(ProtocolKind::OpenAiChatCompletions);
    assert_eq!(p.protocol, "openai_chat_completions");
    assert!(p.streaming && !p.reasoning_control && p.api_key_query);
    let p = capabilities_payload(ProtocolKind::GeminiGenerateContent);
    assert_eq!(p.protocol, "gemini_generate_content");
    assert!(p.reasoning_control);
}
