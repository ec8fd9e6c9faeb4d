use mprism::files::{is_log_file_name, is_temp_file_name};
use mprism::files::{log_file_name, log_line};
use mprism::files::logs_to_prune;
use mprism::files::parse_uuid_for_path;
use mprism::message_log::classify_message;
use mprism::messages::{attachment_ref, check_attachment_count, parse_attachment_id, ChatAttachmentInput};
use mprism::app_error::{MessageErrorRecord, StorageError, StoredProtocol};
use mprism::chat_request::{StoredExtraHeader, StoredToolChoice, StoredToolDefinition};
use mprism::generation::AssistantStatus;
use mprism::json::parse_json;
use mprism::log_redact::redact_log_message;
use mprism::message_log::{plan_message_load, rewrite_without_line, LineOutcome, LoadWarning};
use mprism::messages::{build_context, check_import, normalize_original_name, MessageRecord, ModelSnapshot, ProviderSnapshot};
use mprism::session_meta::{new_session, sort_sessions, SessionMeta, SessionUpdate, TitleSource, DEFAULT_SESSION_TITLE};
use mprism::settings_doc::{providers_public, ApiKeyUpdate, ProviderUpsert, SettingsDocument, ThemePreference};
use mprism::stored::{check_schema_version, ModelRecord, ModelSource};

const DEVICE: u128 = 0x018f_0000_0000_7000_8000_0000_0000_00aa;
const T0: i128 = 1_780_000_000_000_000_000;

fn model(id: &str, name: &str) -> ModelRecord {
    ModelRecord {
        id: id.into(),
        display_name: name.into(),
        source: ModelSource::Manual,
        temperature: None,
        max_tokens: None,
        reasoning: None,
    }
}

fn upsert(id: Option<u128>, name: &str, base_url: &str, api_key: ApiKeyUpdate, models: Vec<ModelRecord>) -> ProviderUpsert {
    ProviderUpsert {
        id,
        name: name.into(),
        protocol: StoredProtocol::OpenAiChatCompletions,
        base_url: base_url.into(),
        api_key,
        models,
        tools: vec![],
        tool_choice: None,
        extra_headers: vec![],
        api_key_query_param: None,
    }
}

fn refused<T>(r: Result<T, StorageError>) -> StorageError {
    match r {
        Ok(_) => panic!("expected an error"),
        Err(e) => e,
    }
}

fn text(e: &StorageError) -> String {
    e.to_display_string()
}

// ---------------------------------------------------------------- settings

#[test]
fn settings_theme_and_provider_upsert_key_states() {
    let mut doc = SettingsDocument::new(T0);
    doc.set_theme(ThemePreference::Dark, T0 + 1);
    assert_eq!(doc.theme, ThemePreference::Dark);

    let mut m = model("gpt-example", "GPT Example");
    m.source = ModelSource::Discovery;
    m.temperature = Some(0.7f32.to_bits());
    m.max_tokens = Some(1024);
    let pubp = doc
        .upsert_provider(
            upsert(
                None,
                "  My Provider  ",
                "https://api.example.com/v1/",
                ApiKeyUpdate::Replace("sk-secret-real-key-123".into()),
                vec![m.clone()],
            ),
            7,
            T0 + 2,
        )
        .unwrap();
    assert_eq!(pubp.name, "My Provider");
    assert!(pubp.api_key_present);
    assert_eq!(pubp.base_url, "https://api.example.com/v1");
    assert_eq!(doc.default_provider_id, Some(pubp.id));
    assert_eq!(doc.default_model_id.as_deref(), Some("gpt-example"));

    let pub2 = doc
        .upsert_provider(
            upsert(Some(pubp.id), "Renamed", "https://api.example.com/v1", ApiKeyUpdate::Keep, vec![m.clone()]),
            8,
            T0 + 3,
        )
        .unwrap();
    assert!(pub2.api_key_present);
    assert_eq!(pub2.revision, 2);
    assert_eq!(doc.providers[0].api_key, "sk-secret-real-key-123");

    let pub3 = doc
        .upsert_provider(
            upsert(Some(pubp.id), "Renamed", "https://api.example.com/v1", ApiKeyUpdate::Clear, vec![m]),
            9,
            T0 + 4,
        )
        .unwrap();
    assert!(!pub3.api_key_present);
    assert_eq!(doc.providers.len(), 1);
}

#[test]
fn provider_debug_and_public_never_show_key() {
    let mut doc = SettingsDocument::new(T0);
    let pubp = doc
        .upsert_provider(
            upsert(
                None,
                "P",
                "http://127.0.0.1:8080/v1",
                ApiKeyUpdate::Replace("sk-should-not-appear".into()),
                vec![model("m", "M")],
            ),
            1,
            T0,
        )
        .unwrap();
    assert!(pubp.api_key_present);
    let shown = [pubp.name.as_str(), pubp.base_url.as_str(), pubp.models[0].id.as_str()];
    assert!(shown.iter().all(|s| !s.contains("sk-should-not-appear")));
    let all = providers_public(&doc);
    assert_eq!(all.len(), 1);
    assert!(all[0].api_key_present);
}

#[test]
fn delete_provider_repairs_defaults() {
    let mut doc = SettingsDocument::new(T0);
    let a = doc
        .upsert_provider(upsert(None, "A", "https://a.example/v1", ApiKeyUpdate::Clear, vec![model("m1", "M1")]), 1, T0)
        .unwrap();
    let b = doc
        .upsert_provider(upsert(None, "B", "https://b.example/v1", ApiKeyUpdate::Clear, vec![model("m2", "M2")]), 2, T0)
        .unwrap();
    doc.delete_provider(a.id, T0 + 1).unwrap();
    assert_eq!(doc.providers.len(), 1);
    assert_eq!(doc.default_provider_id, Some(b.id));
    assert_eq!(doc.default_model_id.as_deref(), Some("m2"));
    doc.delete_provider(b.id, T0 + 2).unwrap();
    assert!(doc.default_provider_id.is_none());
    assert!(doc.default_model_id.is_none());
}

#[test]
fn delete_missing_provider_is_not_found_and_keeps_document() {
    let mut doc = SettingsDocument::new(T0);
    doc.upsert_provider(upsert(None, "A", "https://a.example/v1", ApiKeyUpdate::Clear, vec![model("m1", "M1")]), 1, T0)
        .unwrap();
    let rev = doc.revision;
    let err = doc.delete_provider(99, T0 + 1).unwrap_err();
    assert!(matches!(err, StorageError::NotFound(_)));
    assert_eq!(doc.providers.len(), 1);
    assert_eq!(doc.revision, rev);
}

#[test]
fn future_settings_schema_is_blocking() {
    assert!(check_schema_version(99).unwrap_err().is_blocking());
    assert!(check_schema_version(1).is_ok());
}

#[test]
fn storage_file_store_rejects_base_url_with_query() {
    let mut doc = SettingsDocument::new(T0);
    let err = refused(doc.upsert_provider(upsert(None, "X", "https://api.example.com/v1?x=1", ApiKeyUpdate::Clear, vec![]), 1, T0));
    let msg = text(&err);
    assert!(msg.contains("query") || msg.contains("校验") || msg.contains("Base URL"));
    assert!(doc.providers.is_empty());
}

#[test]
fn upsert_rejects_bad_name_and_duplicate_models() {
    let mut doc = SettingsDocument::new(T0);
    let err = refused(doc.upsert_provider(upsert(None, "   ", "https://a.example/v1", ApiKeyUpdate::Clear, vec![]), 1, T0));
    assert!(text(&err).contains("服务商名称长度"));
    let err = refused(doc.upsert_provider(
            upsert(None, "A", "https://a.example/v1", ApiKeyUpdate::Clear, vec![model("m", "M"), model("m", "M2")]),
            1,
            T0,
        ));
    assert!(text(&err).contains("model id 重复: m"));
    let err = refused(doc.upsert_provider(upsert(Some(42), "A", "https://a.example/v1", ApiKeyUpdate::Clear, vec![]), 1, T0));
    assert!(matches!(err, StorageError::NotFound(_)));
}

#[test]
fn provider_tools_persist_and_validate() {
    let mut doc = SettingsDocument::new(T0);
    let tools = vec![StoredToolDefinition {
        name: "get_weather".into(),
        description: Some("weather".into()),
        parameters: parse_json(r#"{"type": "object", "properties": {}}"#).unwrap(),
    }];
    let mut input = upsert(None, "Tools Provider", "https://api.example.com/v1", ApiKeyUpdate::Replace("sk".into()), vec![model("m1", "M1")]);
    input.tools = tools.clone();
    input.tool_choice = Some(StoredToolChoice { mode: "named".into(), name: Some("get_weather".into()) });
    let pubp = doc.upsert_provider(input, 5, T0).unwrap();
    assert_eq!(pubp.tools.len(), 1);
    assert_eq!(pubp.tools[0].name, "get_weather");
    assert_eq!(pubp.tool_choice.as_ref().unwrap().mode, "named");

    let p = doc.providers.iter().find(|x| x.id == pubp.id).unwrap();
    assert_eq!(p.tools.len(), 1);

    let mut again = upsert(Some(pubp.id), "Tools Provider", "https://api.example.com/v1", ApiKeyUpdate::Keep, p.models.clone());
    again.tools = tools;
    again.tool_choice = Some(StoredToolChoice { mode: "named".into(), name: Some("missing_tool".into()) });
    let err = refused(doc.upsert_provider(again, 6, T0 + 1));
    let msg = text(&err);
    assert!(msg.contains("未声明") || msg.contains("named") || msg.contains("tool"));
}

#[test]
fn provider_auth_options_persist_and_validate() {
    let mut doc = SettingsDocument::new(T0);
    let mut input = upsert(None, "Auth Provider", "https://api.example.com/v1", ApiKeyUpdate::Replace("sk".into()), vec![model("m1", "M1")]);
    input.extra_headers = vec![StoredExtraHeader { name: "X-Org".into(), value: "secret-header-value".into() }];
    input.api_key_query_param = Some("key".into());
    let pubp = doc.upsert_provider(input, 5, T0).unwrap();
    assert_eq!(pubp.extra_headers.len(), 1);
    assert_eq!(pubp.extra_headers[0].name, "X-Org");
    assert_eq!(pubp.api_key_query_param.as_deref(), Some("key"));
    let dbg = pubp.extra_headers.iter().map(|h| h.debug_string()).collect::<Vec<_>>().join(", ");
    assert!(dbg.contains("***"));
    assert!(!dbg.contains("secret-header-value"));

    let p = doc.providers.iter().find(|x| x.id == pubp.id).unwrap();
    assert_eq!(p.extra_headers[0].value, "secret-header-value");

    let mut bad = upsert(Some(pubp.id), "Auth Provider", "https://api.example.com/v1", ApiKeyUpdate::Keep, p.models.clone());
    bad.extra_headers = vec![StoredExtraHeader { name: "X-Bad\n".into(), value: "v".into() }];
    let err = refused(doc.upsert_provider(bad, 6, T0 + 1));
    assert!(text(&err).contains("CR/LF") || text(&err).contains("extra_headers"));
}

#[test]
fn provider_public_serialization_has_no_api_key() {
    let mut doc = SettingsDocument::new(T0);
    let mut m = model("fake-model", "Fake Model");
    m.temperature = Some(0.2f32.to_bits());
    m.max_tokens = Some(100);
    doc.upsert_provider(
        upsert(None, "Fake", "https://fake.example/v1", ApiKeyUpdate::Replace("sk-secret-test-key".into()), vec![m]),
        3,
        T0,
    )
    .unwrap();
    let list = providers_public(&doc);
    assert_eq!(list.len(), 1);
    assert!(list[0].api_key_present);
    assert_eq!(list[0].protocol, StoredProtocol::OpenAiChatCompletions);
    assert!(!list[0].name.contains("sk-secret-test-key") && !list[0].base_url.contains("sk-secret-test-key"));
}

// ---------------------------------------------------------------- sessions

#[test]
fn sessions_crud_auto_title_soft_delete_sort() {
    let mut s1 = new_session(DEVICE, 1, None, T0).unwrap();
    assert_eq!(s1.title, DEFAULT_SESSION_TITLE);
    assert_eq!(s1.title_source, TitleSource::Default);
    let mut s2 = new_session(DEVICE, 2, Some("手工标题".into()), T0 + 1).unwrap();
    assert_eq!(s2.title_source, TitleSource::User);

    let msg = MessageRecord::new_user(s1.id, 1, "如何设计 Rust trait 系统".into(), DEVICE, 10, T0 + 2).unwrap();
    s1.maybe_auto_title(&msg.content);
    s1.touch(T0 + 2);
    assert_eq!(s1.title_source, TitleSource::Auto);
    assert!(s1.title.starts_with("如何设计"));
    assert!(s1.title.chars().count() <= 30);

    let update = SessionUpdate { title: Some("固定标题".into()), system_prompt: None, last_provider_id: None, last_model_id: None };
    s1.apply_update(update, T0 + 3).unwrap();
    let msg2 = MessageRecord::new_user(s1.id, 2, "第二条消息不应改标题".into(), DEVICE, 11, T0 + 4).unwrap();
    s1.maybe_auto_title(&msg2.content);
    s1.touch(T0 + 4);
    assert_eq!(s1.title, "固定标题");
    assert_eq!(s1.title_source, TitleSource::User);

    s2.soft_delete(T0 + 5);
    assert!(s2.deleted_at.is_some());
    let live: Vec<SessionMeta> = vec![s1, s2].into_iter().filter(|m| m.deleted_at.is_none()).collect();
    let list = sort_sessions(live);
    assert_eq!(list.len(), 1);
    assert_eq!(list[0].id, 1);
}

#[test]
fn auto_title_is_first_thirty_characters() {
    let mut s = new_session(DEVICE, 1, None, T0).unwrap();
    let long = "  一二三四五六七八九十一二三四五六七八九十一二三四五六七八九十一二三  ";
    s.maybe_auto_title(long);
    assert_eq!(s.title.chars().count(), 30);
    assert_eq!(s.title, "一二三四五六七八九十一二三四五六七八九十一二三四五六七八九十");
    let mut blank = new_session(DEVICE, 2, None, T0).unwrap();
    blank.maybe_auto_title("   ");
    assert_eq!(blank.title_source, TitleSource::Default);
}

#[test]
fn sessions_list_newest_first() {
    let a = new_session(DEVICE, 1, None, T0).unwrap();
    let b = new_session(DEVICE, 2, None, T0 + 10).unwrap();
    let c = new_session(DEVICE, 3, None, T0 + 10).unwrap();
    let list = sort_sessions(vec![a, b, c]);
    let ids: Vec<u128> = list.iter().map(|m| m.id).collect();
    assert_eq!(ids, vec![3, 2, 1]);
}

#[test]
fn updating_a_deleted_session_is_not_found() {
    let mut s = new_session(DEVICE, 1, None, T0).unwrap();
    s.soft_delete(T0 + 1);
    let update = SessionUpdate { title: Some("x".into()), system_prompt: None, last_provider_id: None, last_model_id: None };
    assert!(matches!(s.apply_update(update, T0 + 2).unwrap_err(), StorageError::NotFound(_)));
}

// ---------------------------------------------------------------- messages

#[test]
fn messages_unicode_append_and_load() {
    let session = new_session(DEVICE, 1, None, T0).unwrap();
    let content = "你好 🌍 — async/await";
    let user = MessageRecord::new_user(session.id, 1, content.into(), DEVICE, 20, T0).unwrap();
    let assistant = MessageRecord::new_assistant(
        session.id,
        2,
        "回复内容".into(),
        Some("思考过程".into()),
        AssistantStatus::Completed,
        30,
        ProviderSnapshot { id: 40, name: "P".into() },
        ModelSnapshot { id: "m".into(), display_name: "M".into() },
        None,
        Some("stop".into()),
        vec![],
        None,
        DEVICE,
        21,
        T0 + 1,
    );
    let lines = vec![
        LineOutcome::Parsed { id: user.id, sequence: user.sequence },
        LineOutcome::Parsed { id: assistant.id, sequence: assistant.sequence },
    ];
    let plan = plan_message_load(&lines);
    assert_eq!(plan.kept, vec![0, 1]);
    assert_eq!(user.content, content);
    assert_eq!(assistant.status, Some(AssistantStatus::Completed));
    assert_eq!(plan.next_sequence, 3);
    assert!(!plan.partially_corrupt);
}

#[test]
fn messages_mid_corrupt_and_duplicate_sequence() {
    let lines = vec![
        LineOutcome::Parsed { id: 1, sequence: 1 },
        LineOutcome::BadJson,
        LineOutcome::Parsed { id: 2, sequence: 2 },
        LineOutcome::Parsed { id: 1, sequence: 1 },
    ];
    let plan = plan_message_load(&lines);
    assert!(plan.partially_corrupt);
    assert_eq!(plan.kept.len(), 2);
    assert!(plan.warnings.len() >= 2);
    assert!(plan.warnings.contains(&LoadWarning::MidFileCorrupt { line_number: 2 }));
    assert_eq!(plan.truncate_at, None);
}

#[test]
fn messages_trailing_corrupt_recovered() {
    let lines = vec![LineOutcome::Parsed { id: 1, sequence: 1 }, LineOutcome::BadJson];
    let plan = plan_message_load(&lines);
    assert_eq!(plan.kept.len(), 1);
    assert!(plan.partially_corrupt);
    assert_eq!(plan.truncate_at, Some(1));
    let raw = vec![r#"{"ok":1}"#.to_string(), "{broken".to_string()];
    assert_eq!(rewrite_without_line(&raw, 1), "{\"ok\":1}\n");
    let reloaded = plan_message_load(&vec![LineOutcome::Parsed { id: 1, sequence: 1 }]);
    assert_eq!(reloaded.kept.len(), 1);
    assert!(!reloaded.partially_corrupt);
}

#[test]
fn messages_out_of_order_are_kept_by_sequence() {
    let lines = vec![
        LineOutcome::Parsed { id: 5, sequence: 3 },
        LineOutcome::Blank,
        LineOutcome::Parsed { id: 6, sequence: 1 },
        LineOutcome::SessionMismatch,
        LineOutcome::Parsed { id: 7, sequence: 2 },
    ];
    let plan = plan_message_load(&lines);
    assert_eq!(plan.kept, vec![2, 4, 0]);
    assert_eq!(plan.next_sequence, 4);
    assert!(plan.warnings.contains(&LoadWarning::SessionIdMismatch { line_number: 4 }));
}

#[test]
fn log_redaction_strips_keys() {
    let s = redact_log_message("auth Bearer sk-abc123DEF and sk-other_key-99 failed");
    assert!(!s.contains("sk-abc123DEF"));
    assert!(!s.contains("sk-other_key-99"));
    assert!(s.contains("***"));
}

// ---------------------------------------------------------------- attachments

#[test]
fn import_and_load_roundtrip() {
    let png = [0x89u8, b'P', b'N', b'G', 0, 1, 2, 3];
    let media_type = check_import(png.len(), "image/png").unwrap();
    assert_eq!(media_type, "image/png");
    assert_eq!(normalize_original_name(Some("a.png".into())).as_deref(), Some("a.png"));
    assert_eq!(check_import(png.len(), " IMAGE/JPG ").unwrap(), "image/jpeg");
}

#[test]
fn rejects_oversize_without_embedding_payload_in_error() {
    let huge = vec![0u8; 4 * 1024 * 1024 + 1];
    let err = check_import(huge.len(), "image/png").unwrap_err();
    let msg = text(&err);
    assert!(msg.contains("上限"));
    assert!(!msg.contains(&"AAAA".repeat(20)));
    assert!(text(&check_import(0, "image/png").unwrap_err()).contains("不能为空"));
    assert!(text(&check_import(3, "image/tiff").unwrap_err()).contains("不支持的图片类型"));
}

// ---------------------------------------------------------------- chat context

#[test]
fn context_excludes_reasoning_usage_and_error_assistant() {
    let mut session = new_session(DEVICE, 1, None, T0).unwrap();
    let update = SessionUpdate { title: None, system_prompt: Some("system".into()), last_provider_id: None, last_model_id: None };
    session.apply_update(update, T0 + 1).unwrap();
    let user = MessageRecord::new_user(session.id, 1, "user".into(), DEVICE, 10, T0).unwrap();
    let snapshots = || (ProviderSnapshot { id: 50, name: "P".into() }, ModelSnapshot { id: "m".into(), display_name: "M".into() });
    let (provider, model) = snapshots();
    let completed = MessageRecord::new_assistant(
        session.id,
        2,
        "answer".into(),
        Some("private reasoning".into()),
        AssistantStatus::Completed,
        60,
        provider,
        model,
        None,
        None,
        vec![],
        None,
        DEVICE,
        11,
        T0 + 2,
    );
    let (provider, model) = snapshots();
    let failed = MessageRecord::new_assistant(
        session.id,
        3,
        "partial error".into(),
        None,
        AssistantStatus::Error,
        61,
        provider,
        model,
        None,
        None,
        vec![],
        Some(MessageErrorRecord {
            code: "transport".into(),
            message: "safe".into(),
            retryable: true,
            http_status: None,
            provider_request_id: None,
            retry_after_ms: None,
        }),
        DEVICE,
        12,
        T0 + 3,
    );
    let context = build_context(&session, &vec![user, completed, failed], &vec![]).unwrap();
    let contents: Vec<String> = context.iter().map(|m| m.text_content()).collect();
    assert_eq!(contents, vec!["system", "user", "answer"]);
}

// ---------------------------------------------------------------- data directory rules

#[test]
fn temp_and_log_file_names() {
    assert!(is_temp_file_name("settings.json.tmp-0190abcd"));
    assert!(!is_temp_file_name("settings.json"));
    assert!(is_log_file_name("mprism.2026-07-11.log"));
    assert!(!is_log_file_name("mprism.2026-07-11.txt"));
    assert!(!is_log_file_name("other.2026-07-11.log"));
}

#[test]
fn log_file_name_and_line() {
    assert_eq!(log_file_name(2026, 7, 1), "mprism.2026-07-01.log");
    assert_eq!(log_file_name(987, 12, 31), "mprism.0987-12-31.log");
    assert_eq!(log_file_name(-5, 1, 2), format!("mprism.{:04}-{:02}-{:02}.log", -5, 1, 2));
    let line = log_line("2026-07-11T00:00:00Z", "WARN", "auth Bearer sk-abc123DEF failed");
    assert!(line.starts_with("2026-07-11T00:00:00Z WARN auth Bearer ***"));
    assert!(line.ends_with('\n'));
    assert!(!line.contains("sk-abc123DEF"));
}

#[test]
fn prunes_oldest_logs_beyond_seven() {
    let mut names: Vec<String> = (1..=9).rev().map(|d| format!("mprism.2026-07-0{d}.log")).collect();
    names.push("notes.txt".into());
    let r = logs_to_prune(&names);
    let removed: Vec<&str> = r.iter().map(|&i| names[i].as_str()).collect();
    assert_eq!(removed, vec!["mprism.2026-07-01.log", "mprism.2026-07-02.log"]);
    let few: Vec<String> = vec!["mprism.a.log".into(), "x.tmp-1".into()];
    assert!(logs_to_prune(&few).is_empty());
}

#[test]
fn uuid_for_path_and_redacted_fragment() {
    let id = parse_uuid_for_path(" 018f0000-0000-7000-8000-000000000001 ").unwrap();
    assert_eq!(id, 0x018f0000_0000_7000_8000_000000000001u128);
    match parse_uuid_for_path("short") {
        Err(StorageError::UnsafePath(m)) => assert_eq!(m, "无效的 UUID: <invalid>"),
        _ => panic!("expected an unsafe path error"),
    }
    match parse_uuid_for_path("../../etc/passwd-and-more") {
        Err(StorageError::UnsafePath(m)) => assert_eq!(m, "无效的 UUID: ../../et…"),
        _ => panic!("expected an unsafe path error"),
    }
}

#[test]
fn message_lines_are_classified() {
    assert_eq!(classify_message(1, 5, 5, 9, 3), LineOutcome::Parsed { id: 9, sequence: 3 });
    assert_eq!(classify_message(1, 6, 5, 9, 3), LineOutcome::SessionMismatch);
    assert_eq!(classify_message(2, 5, 5, 9, 3), LineOutcome::BadJson);
    assert_eq!(classify_message(0, 5, 5, 9, 3), LineOutcome::BadJson);
}

#[test]
fn attachment_inputs_are_checked() {
    assert!(check_attachment_count(8).is_ok());
    assert_eq!(check_attachment_count(9).unwrap_err().message, "单次最多附带 8 张图片");
    let id = parse_attachment_id(" 018f0000-0000-7000-8000-0000000000aa ").unwrap();
    assert_eq!(id, 0x018f0000_0000_7000_8000_0000000000aau128);
    let err = parse_attachment_id("nope").unwrap_err();
    assert_eq!(err.code, "validation");
    assert_eq!(err.message, "无效的 attachment id: nope");
    let input = ChatAttachmentInput { id: "x".into(), media_type: Some("  ".into()) };
    assert_eq!(attachment_ref(id, &input, "image/png").media_type.as_deref(), Some("image/png"));
    let input = ChatAttachmentInput { id: "x".into(), media_type: Some(" image/webp ".into()) };
    let r = attachment_ref(id, &input, "image/png");
    assert_eq!(r.attachment_id, id);
    assert_eq!(r.media_type.as_deref(), Some("image/webp"));
}


#[test]
fn appended_message_reads_back_last() {
    let mut lines = vec![
        LineOutcome::Parsed { id: 7, sequence: 2 },
        LineOutcome::BadJson,
        LineOutcome::Parsed { id: 8, sequence: 1 },
        LineOutcome::Blank,
    ];
    let before = plan_message_load(&lines);
    assert_eq!(before.next_sequence, 3);
    lines.push(LineOutcome::Parsed { id: 9, sequence: before.next_sequence });
    let after = plan_message_load(&lines);
    assert_eq!(after.kept, vec![2, 0, 4]);
    assert_eq!(after.warnings, before.warnings);
    assert_eq!(after.partially_corrupt, before.partially_corrupt);
    assert_eq!(after.next_sequence, 4);
}

#[test]
fn attachment_bytes_go_out_as_standard_base64() {
    use_attachment_case(b"foobar", "Zm9vYmFy");
    use_attachment_case(b"fo", "Zm8=");
    use_attachment_case(&[0xff, 0xfe, 0xfd], "//79");
    use_attachment_case(&[0xfb], "+w==");
    use_attachment_case(b"", "");
}

fn use_attachment_case(bytes: &[u8], expected: &str) {
    let reference = mprism::messages::MessageAttachmentRef { attachment_id: 7, media_type: None };
    let loaded = mprism::messages::LoadedAttachment { id: 7, media_type: "image/png".into(), bytes: bytes.to_vec() };
    match mprism::messages::attachment_to_image_part(&reference, &loaded) {
        mprism::types::ContentPart::ImageBase64 { media_type, data } => {
            assert_eq!(media_type, "image/png");
            assert_eq!(data, expected);
        }
        _ => panic!("expected an inline image"),
    }
}

#[test]
fn log_line_without_secrets_is_unchanged() {
    assert_eq!(redact_log_message("plain line 你好 café"), "plain line 你好 café");
    assert_eq!(redact_log_message("task-42 risk-free"), "task-*** risk-***");
    assert_eq!(redact_log_message("a risk of 42"), "a risk of 42");
    let s = redact_log_message("sk-sk-abc then sk-");
    assert_eq!(s, "sk-*** then sk-");
}

#[test]
fn load_plan_orders_and_numbers() {
    let lines = vec![
        LineOutcome::Parsed { id: 1, sequence: 3 },
        LineOutcome::Parsed { id: 2, sequence: 1 },
        LineOutcome::Parsed { id: 1, sequence: 5 },
        LineOutcome::Blank,
    ];
    let plan = plan_message_load(&lines);
    assert_eq!(plan.kept, vec![1, 0]);
    assert_eq!(plan.next_sequence, 4);
    assert!(plan.partially_corrupt);
    assert_eq!(plan.warnings, vec![LoadWarning::DuplicateMessageId { id: 1 }]);
    let empty = plan_message_load(&Vec::new());
    assert!(empty.kept.is_empty() && empty.warnings.is_empty() && !empty.partially_corrupt);
    assert_eq!(empty.next_sequence, 1);
}

#[test]
fn uuid_text_forms_read_alike() {
    let want: u128 = 0x67e5504410b1426f9247bb680e5fe0c8;
    assert_eq!(parse_attachment_id("67e55044-10b1-426f-9247-bb680e5fe0c8").unwrap(), want);
    assert_eq!(parse_attachment_id("67E5504410B1426F9247BB680E5FE0C8").unwrap(), want);
    assert_eq!(parse_attachment_id("{67e55044-10b1-426f-9247-bb680e5fe0c8}").unwrap(), want);
    assert_eq!(parse_attachment_id("Urn:Uuid:67e55044-10b1-426f-9247-bb680e5fe0c8").unwrap(), want);
    assert!(parse_attachment_id("67e55044-10b1-426f-9247-bb680e5fe0cg").is_err());
    assert!(parse_attachment_id("67e5504410b1-426f-9247-bb680e5fe0c8").is_err());
}
