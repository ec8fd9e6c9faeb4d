use mprism::anthropic_wire::messages_body;
use mprism::error::ProtocolErrorKind;
use mprism::gemini_wire::generate_content_body;
use mprism::json::{parse_json, print_json, JsonValue};
use mprism::models::protocol_capabilities;
use mprism::openai_wire::chat_completions_body;
use mprism::responses_wire::responses_request_body;
use mprism::types::{
    ChatMessage, ChatRequest, ChatRole, ContentPart, ProtocolKind, ReasoningEffort, ReasoningMode, ReasoningPolicy,
    ToolCall, ToolChoice, ToolDefinition,
};
use serde_json::Value;

fn value(j: &JsonValue) -> Value {
    serde_json::from_str(&print_json(j)).unwrap()
}

fn req(model: &str, messages: Vec<ChatMessage>) -> ChatRequest {
    ChatRequest {
        model: model.into(),
        messages,
        temperature: None,
        max_tokens: None,
        reasoning: None,
        tools: None,
        tool_choice: None,
    }
}

fn hi() -> Vec<ChatMessage> {
    vec![ChatMessage::text(ChatRole::User, "hi")]
}

fn schema() -> JsonValue {
    parse_json(r#"{"type":"object"}"#).unwrap()
}

fn tool_history(call_id: &str, result: &str) -> Vec<ChatMessage> {
    vec![
        ChatMessage::text(ChatRole::User, "hi"),
        ChatMessage {
            role: ChatRole::Assistant,
            parts: vec![],
            tool_call_id: None,
            tool_calls: vec![ToolCall { id: call_id.into(), name: "lookup".into(), arguments: r#"{"q":1}"#.into() }],
        },
        ChatMessage {
            role: ChatRole::Tool,
            parts: vec![ContentPart::Text { text: result.into() }],
            tool_call_id: Some(call_id.into()),
            tool_calls: vec![],
        },
    ]
}

fn policy(mode: ReasoningMode, effort: Option<ReasoningEffort>, budget_tokens: Option<u32>) -> Option<ReasoningPolicy> {
    Some(ReasoningPolicy { mode, effort, budget_tokens })
}

// ---------------------------------------------------------------- OpenAI Chat Completions

#[test]
fn wire_request_omits_optional_none() {
    let json = value(&chat_completions_body(&req("m", hi())).unwrap());
    assert_eq!(json["stream"], true);
    assert_eq!(json["stream_options"]["include_usage"], true);
    assert!(json.get("temperature").is_none());
    assert!(json.get("max_tokens").is_none());
    assert!(json.get("reasoning").is_none());
    assert!(json.get("reasoning_effort").is_none());
}

#[test]
fn reasoning_auto_ok_on_and_off_unsupported() {
    let mut auto = req("m", hi());
    auto.reasoning = policy(ReasoningMode::Auto, Some(ReasoningEffort::High), Some(1000));
    let json = value(&chat_completions_body(&auto).unwrap());
    assert!(json.get("reasoning").is_none());

    for mode in [ReasoningMode::On, ReasoningMode::Off] {
        let mut r = req("m", hi());
        r.reasoning = policy(mode, Some(ReasoningEffort::Low), None);
        let err = chat_completions_body(&r).unwrap_err();
        assert_eq!(err.kind, ProtocolErrorKind::Unsupported);
    }
}

#[test]
fn capabilities_match_matrix_v2() {
    let caps = protocol_capabilities(ProtocolKind::OpenAiChatCompletions);
    assert!(caps.streaming);
    assert!(caps.list_models);
    assert!(caps.reasoning_output);
    assert!(!caps.reasoning_control);
    assert!(caps.tools);
    assert!(caps.vision_input);
    assert!(caps.stream_usage);
    assert!(caps.custom_headers);
    assert!(caps.api_key_query);
}

#[test]
fn tools_wire_encoding_and_none_omitted() {
    let json = value(&chat_completions_body(&req("m", hi())).unwrap());
    assert!(json.get("tools").is_none());
    assert!(json.get("tool_choice").is_none());

    let mut with = req("m", tool_history("call_1", "ok"));
    with.tools = Some(vec![ToolDefinition { name: "lookup".into(), description: Some("d".into()), parameters: schema() }]);
    with.tool_choice = Some(ToolChoice::Named { name: "lookup".into() });
    assert!(with.validate().is_ok());
    let json = value(&chat_completions_body(&with).unwrap());
    assert_eq!(json["tools"][0]["type"], "function");
    assert_eq!(json["tools"][0]["function"]["name"], "lookup");
    assert_eq!(json["tool_choice"]["type"], "function");
    assert_eq!(json["tool_choice"]["function"]["name"], "lookup");
    assert_eq!(json["messages"][2]["role"], "tool");
    assert_eq!(json["messages"][2]["tool_call_id"], "call_1");
    assert_eq!(json["messages"][1]["tool_calls"][0]["id"], "call_1");

    for (choice, expected) in [(ToolChoice::Auto, "auto"), (ToolChoice::Disabled, "none"), (ToolChoice::Required, "required")] {
        let mut r = req("m", hi());
        r.tools = Some(vec![ToolDefinition { name: "t".into(), description: None, parameters: parse_json("{}").unwrap() }]);
        r.tool_choice = Some(choice);
        let json = value(&chat_completions_body(&r).unwrap());
        assert_eq!(json["tool_choice"], expected);
    }
}

#[test]
fn multimodal_wire_url_and_base64_and_text_only() {
    let json = value(&chat_completions_body(&req("m", hi())).unwrap());
    assert_eq!(json["messages"][0]["content"], "hi");

    let with_url = req(
        "m",
        vec![ChatMessage {
            role: ChatRole::User,
            parts: vec![
                ContentPart::Text { text: "see".into() },
                ContentPart::ImageUrl { url: "https://example.com/a.png".into(), detail: Some("high".into()) },
            ],
            tool_call_id: None,
            tool_calls: vec![],
        }],
    );
    let json = value(&chat_completions_body(&with_url).unwrap());
    let content = &json["messages"][0]["content"];
    assert!(content.is_array());
    assert_eq!(content[0]["type"], "text");
    assert_eq!(content[0]["text"], "see");
    assert_eq!(content[1]["type"], "image_url");
    assert_eq!(content[1]["image_url"]["url"], "https://example.com/a.png");
    assert_eq!(content[1]["image_url"]["detail"], "high");

    let with_b64 = req(
        "m",
        vec![ChatMessage {
            role: ChatRole::User,
            parts: vec![
                ContentPart::Text { text: "see".into() },
                ContentPart::ImageBase64 { media_type: "image/png".into(), data: "aGVsbG8=".into() },
            ],
            tool_call_id: None,
            tool_calls: vec![],
        }],
    );
    let json = value(&chat_completions_body(&with_b64).unwrap());
    assert_eq!(json["messages"][0]["content"][1]["image_url"]["url"], "data:image/png;base64,aGVsbG8=");
    assert!(protocol_capabilities(ProtocolKind::OpenAiChatCompletions).vision_input);
}

// ---------------------------------------------------------------- Anthropic Messages

#[test]
fn kind_is_anthropic_messages() {
    let caps = protocol_capabilities(ProtocolKind::AnthropicMessages);
    assert!(caps.reasoning_control);
    assert!(caps.reasoning_output);
    assert!(caps.tools);
    assert!(caps.vision_input);
    assert!(caps.stream_usage);
    assert!(caps.custom_headers);
    assert!(caps.api_key_query);
}

#[test]
fn tools_wire_and_thinking_named_conflict() {
    let tools = vec![ToolDefinition { name: "lookup".into(), description: Some("d".into()), parameters: schema() }];
    let mut ok = req("m", tool_history("tu_1", "ok"));
    ok.max_tokens = Some(8192);
    ok.tools = Some(tools.clone());
    ok.tool_choice = Some(ToolChoice::Auto);
    let json = value(&messages_body(&ok).unwrap());
    assert_eq!(json["tools"][0]["name"], "lookup");
    assert_eq!(json["tools"][0]["input_schema"]["type"], "object");
    assert_eq!(json["tool_choice"]["type"], "auto");
    assert_eq!(json["messages"][1]["content"][0]["type"], "tool_use");
    assert_eq!(json["messages"][2]["role"], "user");
    assert_eq!(json["messages"][2]["content"][0]["type"], "tool_result");

    let mut conflict = req("m", hi());
    conflict.max_tokens = Some(8192);
    conflict.reasoning = policy(ReasoningMode::On, None, Some(1024));
    conflict.tools = Some(tools);
    conflict.tool_choice = Some(ToolChoice::Named { name: "lookup".into() });
    let err = messages_body(&conflict).unwrap_err();
    assert_eq!(err.kind, ProtocolErrorKind::InvalidRequest);
}

#[test]
fn wire_request_system_and_default_max_tokens() {
    let r = req("sonnet", vec![ChatMessage::text(ChatRole::System, "sys"), ChatMessage::text(ChatRole::User, "hi")]);
    let json = value(&messages_body(&r).unwrap());
    assert_eq!(json["stream"], true);
    assert_eq!(json["max_tokens"], 4096);
    assert_eq!(json["system"], "sys");
    assert_eq!(json["messages"].as_array().unwrap().len(), 1);
    assert_eq!(json["messages"][0]["role"], "user");
    assert!(json.get("tools").is_none());
    assert!(json.get("thinking").is_none());
}

#[test]
fn wire_request_uses_explicit_max_tokens() {
    let mut r = req("m", hi());
    r.max_tokens = Some(128);
    let json = value(&messages_body(&r).unwrap());
    assert_eq!(json["max_tokens"], 128);
    assert!(json.get("system").is_none());
    assert!(json.get("temperature").is_none());
}

#[test]
fn reasoning_none_auto_omit_off_budget_and_effort() {
    let base = |p: Option<ReasoningPolicy>, max_tokens: Option<u32>| {
        let mut r = req("m", hi());
        r.reasoning = p;
        r.max_tokens = max_tokens;
        r
    };
    let none_json = value(&messages_body(&base(None, Some(8192))).unwrap());
    assert!(none_json.get("thinking").is_none());

    let auto_json = value(
        &messages_body(&base(policy(ReasoningMode::Auto, Some(ReasoningEffort::High), Some(2000)), Some(8192))).unwrap(),
    );
    assert!(auto_json.get("thinking").is_none());

    let off_json =
        value(&messages_body(&base(policy(ReasoningMode::Off, Some(ReasoningEffort::High), None), Some(8192))).unwrap());
    assert_eq!(off_json["thinking"]["type"], "disabled");
    assert!(off_json["thinking"].get("budget_tokens").is_none());

    let err = messages_body(&base(policy(ReasoningMode::On, None, Some(1023)), Some(8192))).unwrap_err();
    assert_eq!(err.kind, ProtocolErrorKind::InvalidRequest);

    let ok_json = value(&messages_body(&base(policy(ReasoningMode::On, None, Some(1024)), Some(8192))).unwrap());
    assert_eq!(ok_json["thinking"]["type"], "enabled");
    assert_eq!(ok_json["thinking"]["budget_tokens"], 1024);
    assert_eq!(ok_json["thinking"]["display"], "summarized");

    let def_json = value(&messages_body(&base(policy(ReasoningMode::On, None, None), Some(8192))).unwrap());
    assert_eq!(def_json["thinking"]["budget_tokens"], 4096);

    let effort_json =
        value(&messages_body(&base(policy(ReasoningMode::On, Some(ReasoningEffort::High), None), Some(20000))).unwrap());
    assert_eq!(effort_json["thinking"]["budget_tokens"], 16384);

    let budget_wins = value(
        &messages_body(&base(policy(ReasoningMode::On, Some(ReasoningEffort::High), Some(2048)), Some(8192))).unwrap(),
    );
    assert_eq!(budget_wins["thinking"]["budget_tokens"], 2048);

    let err = messages_body(&base(policy(ReasoningMode::On, None, Some(4096)), Some(4096))).unwrap_err();
    assert_eq!(err.kind, ProtocolErrorKind::InvalidRequest);
}

#[test]
fn multimodal_wire_image_blocks() {
    let json = value(&messages_body(&req("m", hi())).unwrap());
    assert_eq!(json["messages"][0]["content"], "hi");

    let with_images = req(
        "m",
        vec![ChatMessage {
            role: ChatRole::User,
            parts: vec![
                ContentPart::Text { text: "look".into() },
                ContentPart::ImageBase64 { media_type: "image/png".into(), data: "aGVsbG8=".into() },
                ContentPart::ImageUrl { url: "https://example.com/b.png".into(), detail: None },
            ],
            tool_call_id: None,
            tool_calls: vec![],
        }],
    );
    let json = value(&messages_body(&with_images).unwrap());
    let content = &json["messages"][0]["content"];
    assert!(content.is_array());
    assert_eq!(content[0]["type"], "text");
    assert_eq!(content[1]["type"], "image");
    assert_eq!(content[1]["source"]["type"], "base64");
    assert_eq!(content[1]["source"]["media_type"], "image/png");
    assert_eq!(content[1]["source"]["data"], "aGVsbG8=");
    assert_eq!(content[2]["type"], "image");
    assert_eq!(content[2]["source"]["type"], "url");
    assert_eq!(content[2]["source"]["url"], "https://example.com/b.png");
    assert!(protocol_capabilities(ProtocolKind::AnthropicMessages).vision_input);
}

// ---------------------------------------------------------------- Gemini generateContent

#[test]
fn kind_is_gemini() {
    let caps = protocol_capabilities(ProtocolKind::GeminiGenerateContent);
    assert!(caps.reasoning_control);
    assert!(caps.reasoning_output);
    assert!(caps.tools);
    assert!(caps.vision_input);
    assert!(caps.stream_usage);
    assert!(caps.custom_headers);
    assert!(caps.api_key_query);
}

#[test]
fn tools_function_declarations_and_response() {
    let mut r = req("gemini-2.0-flash", tool_history("lookup", r#"{"result":"ok"}"#));
    r.tools = Some(vec![ToolDefinition { name: "lookup".into(), description: Some("d".into()), parameters: schema() }]);
    r.tool_choice = Some(ToolChoice::Named { name: "lookup".into() });
    let json = value(&generate_content_body(&r).unwrap());
    assert_eq!(json["tools"][0]["functionDeclarations"][0]["name"], "lookup");
    assert_eq!(json["toolConfig"]["functionCallingConfig"]["mode"], "ANY");
    assert_eq!(json["toolConfig"]["functionCallingConfig"]["allowedFunctionNames"][0], "lookup");
    assert_eq!(json["contents"][1]["parts"][0]["functionCall"]["name"], "lookup");
    assert_eq!(json["contents"][2]["parts"][0]["functionResponse"]["name"], "lookup");
}

#[test]
fn wire_request_system_and_roles() {
    let mut r = req(
        "gemini-2.0-flash",
        vec![
            ChatMessage::text(ChatRole::System, "sys"),
            ChatMessage::text(ChatRole::User, "hi"),
            ChatMessage::text(ChatRole::Assistant, "yo"),
        ],
    );
    r.max_tokens = Some(128);
    let json = value(&generate_content_body(&r).unwrap());
    assert_eq!(json["systemInstruction"]["parts"][0]["text"], "sys");
    assert_eq!(json["contents"][0]["role"], "user");
    assert_eq!(json["contents"][1]["role"], "model");
    assert_eq!(json["generationConfig"]["maxOutputTokens"], 128);
    assert!(json.get("tools").is_none());
    assert!(json["generationConfig"].get("thinkingConfig").is_none());
}

#[test]
fn wire_request_omits_generation_config_when_empty() {
    let json = value(&generate_content_body(&req("m", hi())).unwrap());
    assert!(json.get("generationConfig").is_none());
    assert!(json.get("systemInstruction").is_none());
}

#[test]
fn reasoning_none_auto_off_on_level_and_budget() {
    let base = |model: &str, p: Option<ReasoningPolicy>| {
        let mut r = req(model, hi());
        r.reasoning = p;
        r
    };
    let none_json = value(&generate_content_body(&base("gemini-3-pro", None)).unwrap());
    assert!(none_json.get("generationConfig").is_none());

    let auto_json = value(
        &generate_content_body(&base("gemini-3-pro", policy(ReasoningMode::Auto, Some(ReasoningEffort::High), Some(1000))))
            .unwrap(),
    );
    assert!(auto_json.get("generationConfig").is_none());

    let off_json = value(&generate_content_body(&base("gemini-3-pro", policy(ReasoningMode::Off, None, None))).unwrap());
    assert_eq!(off_json["generationConfig"]["thinkingConfig"]["thinkingBudget"], 0);

    let on_def = value(&generate_content_body(&base("gemini-3-pro", policy(ReasoningMode::On, None, None))).unwrap());
    assert_eq!(on_def["generationConfig"]["thinkingConfig"]["thinkingLevel"], "medium");
    assert_eq!(on_def["generationConfig"]["thinkingConfig"]["includeThoughts"], true);

    let on_high = value(
        &generate_content_body(&base("gemini-3-pro", policy(ReasoningMode::On, Some(ReasoningEffort::High), None))).unwrap(),
    );
    assert_eq!(on_high["generationConfig"]["thinkingConfig"]["thinkingLevel"], "high");

    let budget_def = value(&generate_content_body(&base("gemini-2.5-pro", policy(ReasoningMode::On, None, None))).unwrap());
    assert_eq!(budget_def["generationConfig"]["thinkingConfig"]["thinkingBudget"], 4096);

    let budget_wins = value(
        &generate_content_body(&base("gemini-3-pro", policy(ReasoningMode::On, Some(ReasoningEffort::High), Some(2000))))
            .unwrap(),
    );
    assert_eq!(budget_wins["generationConfig"]["thinkingConfig"]["thinkingBudget"], 2000);
    assert!(budget_wins["generationConfig"]["thinkingConfig"].get("thinkingLevel").is_none());
}

#[test]
fn multimodal_inline_data_and_image_url_unsupported() {
    let json = value(&generate_content_body(&req("gemini-2.0-flash", hi())).unwrap());
    assert_eq!(json["contents"][0]["parts"][0]["text"], "hi");

    let with_b64 = req(
        "gemini-2.0-flash",
        vec![ChatMessage {
            role: ChatRole::User,
            parts: vec![
                ContentPart::Text { text: "see".into() },
                ContentPart::ImageBase64 { media_type: "image/png".into(), data: "aGVsbG8=".into() },
            ],
            tool_call_id: None,
            tool_calls: vec![],
        }],
    );
    let json = value(&generate_content_body(&with_b64).unwrap());
    assert_eq!(json["contents"][0]["parts"][0]["text"], "see");
    assert_eq!(json["contents"][0]["parts"][1]["inline_data"]["mime_type"], "image/png");
    assert_eq!(json["contents"][0]["parts"][1]["inline_data"]["data"], "aGVsbG8=");

    let with_url = req(
        "gemini-2.0-flash",
        vec![ChatMessage {
            role: ChatRole::User,
            parts: vec![
                ContentPart::Text { text: "see".into() },
                ContentPart::ImageUrl { url: "https://example.com/a.png".into(), detail: None },
            ],
            tool_call_id: None,
            tool_calls: vec![],
        }],
    );
    let err = generate_content_body(&with_url).unwrap_err();
    assert_eq!(err.kind, ProtocolErrorKind::Unsupported);
    assert!(protocol_capabilities(ProtocolKind::GeminiGenerateContent).vision_input);
}

// ---------------------------------------------------------------- OpenAI Responses

#[test]
fn kind_is_openai_responses() {
    let caps = protocol_capabilities(ProtocolKind::OpenAiResponses);
    assert!(caps.reasoning_control);
    assert!(caps.reasoning_output);
    assert!(caps.tools);
    assert!(caps.vision_input);
    assert!(caps.stream_usage);
    assert!(caps.custom_headers);
    assert!(caps.api_key_query);
}

#[test]
fn wire_request_stream_store_and_optionals() {
    let mut r = req("m", vec![ChatMessage::text(ChatRole::System, "sys"), ChatMessage::text(ChatRole::User, "hi")]);
    r.max_tokens = Some(128);
    let json = value(&responses_request_body(&r).unwrap());
    assert_eq!(json["stream"], true);
    assert_eq!(json["store"], false);
    assert_eq!(json["max_output_tokens"], 128);
    assert!(json.get("max_tokens").is_none());
    assert!(json.get("reasoning").is_none());
    assert_eq!(json["input"].as_array().unwrap().len(), 2);
    assert_eq!(json["input"][0]["role"], "system");
    assert_eq!(json["input"][1]["role"], "user");
    assert!(json.get("tools").is_none());
}

#[test]
fn tools_wire_and_function_call_input() {
    let mut r = req("m", tool_history("call_1", "ok"));
    r.tools = Some(vec![ToolDefinition { name: "lookup".into(), description: None, parameters: schema() }]);
    r.tool_choice = Some(ToolChoice::Required);
    let json = value(&responses_request_body(&r).unwrap());
    assert_eq!(json["tools"][0]["type"], "function");
    assert_eq!(json["tools"][0]["name"], "lookup");
    assert_eq!(json["tool_choice"], "required");
    assert_eq!(json["input"][1]["type"], "function_call");
    assert_eq!(json["input"][1]["call_id"], "call_1");
    assert_eq!(json["input"][2]["type"], "function_call_output");
    assert_eq!(json["input"][2]["call_id"], "call_1");
    assert!(protocol_capabilities(ProtocolKind::OpenAiResponses).tools);
}

#[test]
fn client_wire_request_omits_optional_none() {
    let json = value(&responses_request_body(&req("m", hi())).unwrap());
    assert_eq!(json["store"], false);
    assert!(json.get("temperature").is_none());
    assert!(json.get("max_output_tokens").is_none());
    assert!(json.get("tools").is_none());
    assert!(json.get("previous_response_id").is_none());
    assert!(json.get("reasoning").is_none());
}

#[test]
fn reasoning_none_auto_omit_off_and_effort_table() {
    let base = |p: Option<ReasoningPolicy>| {
        let mut r = req("m", hi());
        r.reasoning = p;
        r
    };
    let none_json = value(&responses_request_body(&base(None)).unwrap());
    assert!(none_json.get("reasoning").is_none());

    let auto_json =
        value(&responses_request_body(&base(policy(ReasoningMode::Auto, Some(ReasoningEffort::High), Some(999)))).unwrap());
    assert!(auto_json.get("reasoning").is_none());

    let off_json =
        value(&responses_request_body(&base(policy(ReasoningMode::Off, Some(ReasoningEffort::High), Some(1)))).unwrap());
    assert_eq!(off_json["reasoning"]["effort"], "none");
    assert!(off_json["reasoning"].get("summary").is_none());

    let cases = [
        (None, "medium"),
        (Some(ReasoningEffort::Minimal), "minimal"),
        (Some(ReasoningEffort::Low), "low"),
        (Some(ReasoningEffort::Medium), "medium"),
        (Some(ReasoningEffort::High), "high"),
        (Some(ReasoningEffort::XHigh), "xhigh"),
    ];
    for (effort, expected) in cases {
        let json = value(&responses_request_body(&base(policy(ReasoningMode::On, effort, Some(12345)))).unwrap());
        assert_eq!(json["reasoning"]["effort"], expected, "effort={effort:?}");
        assert_eq!(json["reasoning"]["summary"], "auto");
        assert!(json["reasoning"].get("budget_tokens").is_none());
    }

    let max_err = responses_request_body(&base(policy(ReasoningMode::On, Some(ReasoningEffort::Max), None))).unwrap_err();
    assert_eq!(max_err.kind, ProtocolErrorKind::Unsupported);
}

#[test]
fn multimodal_wire_input_image_url_and_base64() {
    let json = value(&responses_request_body(&req("m", hi())).unwrap());
    assert_eq!(json["input"][0]["content"], "hi");

    let with_images = req(
        "m",
        vec![ChatMessage {
            role: ChatRole::User,
            parts: vec![
                ContentPart::Text { text: "describe".into() },
                ContentPart::ImageUrl { url: "https://example.com/a.png".into(), detail: Some("low".into()) },
                ContentPart::ImageBase64 { media_type: "image/jpeg".into(), data: "aGVsbG8=".into() },
            ],
            tool_call_id: None,
            tool_calls: vec![],
        }],
    );
    let json = value(&responses_request_body(&with_images).unwrap());
    let content = &json["input"][0]["content"];
    assert!(content.is_array());
    assert_eq!(content[0]["type"], "input_text");
    assert_eq!(content[0]["text"], "describe");
    assert_eq!(content[1]["type"], "input_image");
    assert_eq!(content[1]["image_url"], "https://example.com/a.png");
    assert_eq!(content[1]["detail"], "low");
    assert_eq!(content[2]["type"], "input_image");
    assert_eq!(content[2]["image_url"], "data:image/jpeg;base64,aGVsbG8=");
    assert!(protocol_capabilities(ProtocolKind::OpenAiResponses).vision_input);
}
