//! Desktop application errors, storage errors and the IPC protocol names.

use vstd::prelude::*;

use crate::error::{ProtocolError, ProtocolErrorKind};
use crate::text::{decimal, owned, push_str, str_eq, trim, trim_str, u64_to_string};
use crate::types::ProtocolKind;

verus! {

/// The IPC schema version this application speaks.
pub const IPC_SCHEMA_VERSION: u32 = 1;

/// The wire protocol stored on a provider.
#[derive(Debug, Clone, Copy, PartialEq, Eq, Structural)]
pub enum StoredProtocol {
    OpenAiChatCompletions,
    OpenAiResponses,
    AnthropicMessages,
    GeminiGenerateContent,
}

/// An error as the desktop application reports it.
#[derive(Debug, Clone)]
pub struct AppError {
    pub code: String,
    pub message: String,
    pub retryable: bool,
    pub http_status: Option<u16>,
    pub provider_request_id: Option<String>,
    pub retry_after_ms: Option<u64>,
}

/// A message's stored error.
#[derive(Debug, Clone)]
pub struct MessageErrorRecord {
    pub code: String,
    pub message: String,
    pub retryable: bool,
    pub http_status: Option<u16>,
    pub provider_request_id: Option<String>,
    pub retry_after_ms: Option<u64>,
}

/// `e` has the code, message and retry flag given, and no details.
pub open spec fn plain_app_error(e: AppError, code: Seq<char>, message: Seq<char>, retryable: bool) -> bool {
    &&& e.code@ == code
    &&& e.message@ == message
    &&& e.retryable == retryable
    &&& e.http_status is None
    &&& e.provider_request_id is None
    &&& e.retry_after_ms is None
}

impl AppError {
    pub fn new(code: &str, message: String, retryable: bool) -> (e: Self)
        ensures
            plain_app_error(e, code@, message@, retryable),
    {
        AppError {
            code: owned(code),
            message,
            retryable,
            http_status: None,
            provider_request_id: None,
            retry_after_ms: None,
        }
    }

    pub fn validation(message: String) -> (e: Self)
        ensures
            plain_app_error(e, "validation"@, message@, false),
    {
        AppError::new("validation", message, false)
    }

    pub fn conflict(message: String) -> (e: Self)
        ensures
            plain_app_error(e, "conflict"@, message@, false),
    {
        AppError::new("conflict", message, false)
    }

    pub fn cancelled() -> (e: Self)
        ensures
            plain_app_error(e, "cancelled"@, "生成已停止"@, false),
    {
        AppError::new("cancelled", owned("生成已停止"), false)
    }

    /// The record stored on a message: every field copied.
    pub fn to_message_record(&self) -> (r: MessageErrorRecord)
        ensures
            r.code@ == self.code@,
            r.message@ == self.message@,
            r.retryable == self.retryable,
            r.http_status == self.http_status,
            r.provider_request_id.deep_view() == self.provider_request_id.deep_view(),
            r.retry_after_ms == self.retry_after_ms,
    {
        MessageErrorRecord {
            code: owned(self.code.as_str()),
            message: owned(self.message.as_str()),
            retryable: self.retryable,
            http_status: self.http_status,
            provider_request_id: match &self.provider_request_id {
                Some(s) => Some(owned(s.as_str())),
                None => None,
            },
            retry_after_ms: self.retry_after_ms,
        }
    }

    /// The text the error displays: `code: message`.
    pub fn to_display_string(&self) -> (s: String)
        ensures
            s@ == self.code@ + ": "@ + self.message@,
    {
        let mut s = owned(self.code.as_str());
        push_str(&mut s, ": ");
        push_str(&mut s, self.message.as_str());
        s
    }
}

/// The application error code of a protocol error kind.
pub open spec fn protocol_code(k: ProtocolErrorKind) -> Seq<char> {
    match k {
        ProtocolErrorKind::InvalidConfiguration | ProtocolErrorKind::InvalidRequest => "validation"@,
        ProtocolErrorKind::Authentication | ProtocolErrorKind::PermissionDenied => "auth"@,
        ProtocolErrorKind::RateLimited => "rate_limited"@,
        ProtocolErrorKind::ContextLengthExceeded => "context_length"@,
        ProtocolErrorKind::ContentFilter => "content_filter"@,
        ProtocolErrorKind::ProviderUnavailable => "provider_unavailable"@,
        ProtocolErrorKind::Timeout => "timeout"@,
        ProtocolErrorKind::Transport => "transport"@,
        ProtocolErrorKind::Unsupported => "unsupported"@,
        ProtocolErrorKind::Decode | ProtocolErrorKind::UnexpectedEof => "protocol"@,
    }
}

/// The user-facing message of a protocol error kind.
pub open spec fn protocol_default_message(k: ProtocolErrorKind) -> Seq<char> {
    match k {
        ProtocolErrorKind::InvalidConfiguration | ProtocolErrorKind::InvalidRequest => "模型请求配置无效"@,
        ProtocolErrorKind::Authentication | ProtocolErrorKind::PermissionDenied => "模型服务鉴权失败，请检查 API Key"@,
        ProtocolErrorKind::RateLimited => "模型服务请求过于频繁，请稍后重试"@,
        ProtocolErrorKind::ContextLengthExceeded => "上下文过长，请缩短内容后重试"@,
        ProtocolErrorKind::ContentFilter => "内容被模型安全策略拦截"@,
        ProtocolErrorKind::ProviderUnavailable => "模型服务暂时不可用"@,
        ProtocolErrorKind::Timeout => "模型服务请求超时"@,
        ProtocolErrorKind::Transport => "无法连接模型服务"@,
        ProtocolErrorKind::Unsupported => "当前协议不支持该请求能力"@,
        ProtocolErrorKind::Decode | ProtocolErrorKind::UnexpectedEof => "模型服务返回了无法解析的响应"@,
    }
}

/// Kinds whose SDK message is shown as it is (so capability gates stay actionable).
pub open spec fn keeps_sdk_message(k: ProtocolErrorKind) -> bool {
    k == ProtocolErrorKind::InvalidConfiguration || k == ProtocolErrorKind::InvalidRequest || k
        == ProtocolErrorKind::Unsupported
}

/// The message an application error takes from a protocol error of `kind` with
/// `message`.
pub open spec fn app_message_for(kind: ProtocolErrorKind, message: Seq<char>) -> Seq<char> {
    if keeps_sdk_message(kind) && trim(message).len() > 0 {
        trim(message)
    } else {
        protocol_default_message(kind)
    }
}

/// The message an application error takes from a protocol error.
pub open spec fn protocol_app_message(e: ProtocolError) -> Seq<char> {
    app_message_for(e.kind, e.message@)
}

fn protocol_code_str(k: ProtocolErrorKind) -> (s: &'static str)
    ensures
        s@ == protocol_code(k),
{
    match k {
        ProtocolErrorKind::InvalidConfiguration | ProtocolErrorKind::InvalidRequest => "validation",
        ProtocolErrorKind::Authentication | ProtocolErrorKind::PermissionDenied => "auth",
        ProtocolErrorKind::RateLimited => "rate_limited",
        ProtocolErrorKind::ContextLengthExceeded => "context_length",
        ProtocolErrorKind::ContentFilter => "content_filter",
        ProtocolErrorKind::ProviderUnavailable => "provider_unavailable",
        ProtocolErrorKind::Timeout => "timeout",
        ProtocolErrorKind::Transport => "transport",
        ProtocolErrorKind::Unsupported => "unsupported",
        ProtocolErrorKind::Decode | ProtocolErrorKind::UnexpectedEof => "protocol",
    }
}

fn protocol_default_str(k: ProtocolErrorKind) -> (s: &'static str)
    ensures
        s@ == protocol_default_message(k),
{
    match k {
        ProtocolErrorKind::InvalidConfiguration | ProtocolErrorKind::InvalidRequest => "模型请求配置无效",
        ProtocolErrorKind::Authentication | ProtocolErrorKind::PermissionDenied => "模型服务鉴权失败，请检查 API Key",
        ProtocolErrorKind::RateLimited => "模型服务请求过于频繁，请稍后重试",
        ProtocolErrorKind::ContextLengthExceeded => "上下文过长，请缩短内容后重试",
        ProtocolErrorKind::ContentFilter => "内容被模型安全策略拦截",
        ProtocolErrorKind::ProviderUnavailable => "模型服务暂时不可用",
        ProtocolErrorKind::Timeout => "模型服务请求超时",
        ProtocolErrorKind::Transport => "无法连接模型服务",
        ProtocolErrorKind::Unsupported => "当前协议不支持该请求能力",
        ProtocolErrorKind::Decode | ProtocolErrorKind::UnexpectedEof => "模型服务返回了无法解析的响应",
    }
}

/// The application error for a protocol error: a code per kind, the SDK message for
/// configuration / request / capability errors (when not blank), a fixed message
/// otherwise; retry flag, HTTP status, request id and retry delay carried over.
pub fn from_protocol_error(error: ProtocolError) -> (a: AppError)
    ensures
        a.code@ == protocol_code(error.kind),
        a.message@ == protocol_app_message(error),
        a.retryable == error.retryable,
        a.http_status == error.http_status,
        a.provider_request_id.deep_view() == error.request_id.deep_view(),
        a.retry_after_ms == error.retry_after_ms,
{
    let detail = trim_str(error.message.as_str());
    let keep = match error.kind {
        ProtocolErrorKind::InvalidConfiguration | ProtocolErrorKind::InvalidRequest
        | ProtocolErrorKind::Unsupported => true,
        _ => false,
    };
    let message = if keep && !detail.as_str().is_empty() {
        detail
    } else {
        owned(protocol_default_str(error.kind))
    };
    AppError {
        code: owned(protocol_code_str(error.kind)),
        message,
        retryable: error.retryable,
        http_status: error.http_status,
        provider_request_id: error.request_id,
        retry_after_ms: error.retry_after_ms,
    }
}

/// Storage-layer errors.
#[derive(Debug)]
pub enum StorageError {
    SchemaTooNew { found: u32, supported: u32 },
    SchemaUnsupported { found: u32, supported: u32 },
    NotFound(String),
    Validation(String),
    Conflict(String),
    UnsafePath(String),
    /// A JSON file that did not parse: its path and the parser's message.
    Json { path: String, message: String },
    /// A failed file operation: its path and the system's message.
    Io { path: String, message: String },
    Internal(String),
}

/// The text a storage error displays.
pub open spec fn storage_error_text(e: StorageError) -> Seq<char> {
    match e {
        StorageError::SchemaTooNew { found, supported } => "数据 schema 版本过高（文件 "@ + decimal(
            found as nat,
        ) + "，应用支持 "@ + decimal(supported as nat) + "），已拒绝覆盖"@,
        StorageError::SchemaUnsupported { found, supported } => "不支持的数据 schema 版本（文件 "@
            + decimal(found as nat) + "，应用支持 "@ + decimal(supported as nat) + "）"@,
        StorageError::NotFound(m) => "未找到: "@ + m@,
        StorageError::Validation(m) => "校验失败: "@ + m@,
        StorageError::Conflict(m) => "冲突: "@ + m@,
        StorageError::UnsafePath(m) => "路径不安全: "@ + m@,
        StorageError::Json { path, message } => "JSON 解析失败 ("@ + path@ + "): "@ + message@,
        StorageError::Io { path, message } => "IO 错误 ("@ + path@ + "): "@ + message@,
        StorageError::Internal(m) => "内部错误: "@ + m@,
    }
}

impl StorageError {
    pub fn validation(msg: String) -> (e: Self)
        ensures
            e matches StorageError::Validation(m) && m@ == msg@,
    {
        StorageError::Validation(msg)
    }

    pub fn not_found(msg: String) -> (e: Self)
        ensures
            e matches StorageError::NotFound(m) && m@ == msg@,
    {
        StorageError::NotFound(msg)
    }

    /// Whether this error should block the whole app (settings schema too new).
    pub fn is_blocking(&self) -> (b: bool)
        ensures
            b == (*self is SchemaTooNew),
    {
        match self {
            StorageError::SchemaTooNew { .. } => true,
            _ => false,
        }
    }

    /// The text the error displays.
    pub fn to_display_string(&self) -> (s: String)
        ensures
            s@ == storage_error_text(*self),
    {
        match self {
            StorageError::SchemaTooNew { found, supported } => {
                let mut s = owned("数据 schema 版本过高（文件 ");
                push_str(&mut s, u64_to_string(*found as u64).as_str());
                push_str(&mut s, "，应用支持 ");
                push_str(&mut s, u64_to_string(*supported as u64).as_str());
                push_str(&mut s, "），已拒绝覆盖");
                s
            },
            StorageError::SchemaUnsupported { found, supported } => {
                let mut s = owned("不支持的数据 schema 版本（文件 ");
                push_str(&mut s, u64_to_string(*found as u64).as_str());
                push_str(&mut s, "，应用支持 ");
                push_str(&mut s, u64_to_string(*supported as u64).as_str());
                push_str(&mut s, "）");
                s
            },
            StorageError::NotFound(m) => prefixed("未找到: ", m.as_str()),
            StorageError::Validation(m) => prefixed("校验失败: ", m.as_str()),
            StorageError::Conflict(m) => prefixed("冲突: ", m.as_str()),
            StorageError::UnsafePath(m) => prefixed("路径不安全: ", m.as_str()),
            StorageError::Json { path, message } => {
                let mut s = owned("JSON 解析失败 (");
                push_str(&mut s, path.as_str());
                push_str(&mut s, "): ");
                push_str(&mut s, message.as_str());
                s
            },
            StorageError::Io { path, message } => {
                let mut s = owned("IO 错误 (");
                push_str(&mut s, path.as_str());
                push_str(&mut s, "): ");
                push_str(&mut s, message.as_str());
                s
            },
            StorageError::Internal(m) => prefixed("内部错误: ", m.as_str()),
        }
    }
}

fn prefixed(prefix: &str, m: &str) -> (s: String)
    ensures
        s@ == prefix@ + m@,
{
    let mut s = owned(prefix);
    push_str(&mut s, m);
    s
}

/// The application error a storage error stands for.
pub open spec fn storage_app_error(e: StorageError, a: AppError) -> bool {
    match e {
        StorageError::Validation(m) | StorageError::UnsafePath(m) => plain_app_error(
            a,
            "validation"@,
            m@,
            false,
        ),
        StorageError::NotFound(m) => plain_app_error(a, "not_found"@, m@, false),
        StorageError::Conflict(m) => plain_app_error(a, "conflict"@, m@, false),
        StorageError::SchemaTooNew { .. } | StorageError::SchemaUnsupported { .. } => plain_app_error(
            a,
            "storage"@,
            storage_error_text(e),
            false,
        ),
        StorageError::Io { .. } | StorageError::Json { .. } => plain_app_error(
            a,
            "storage"@,
            "本地数据读写失败"@,
            true,
        ),
        StorageError::Internal(_) => plain_app_error(a, "internal"@, "应用内部错误"@, false),
    }
}

/// The application error for a storage error.
pub fn from_storage_error(error: StorageError) -> (a: AppError)
    ensures
        storage_app_error(error, a),
{
    let text = error.to_display_string();
    match error {
        StorageError::Validation(m) | StorageError::UnsafePath(m) => AppError::validation(m),
        StorageError::NotFound(m) => AppError::new("not_found", m, false),
        StorageError::Conflict(m) => AppError::conflict(m),
        StorageError::SchemaTooNew { .. } | StorageError::SchemaUnsupported { .. } => AppError::new(
            "storage",
            text,
            false,
        ),
        StorageError::Io { .. } | StorageError::Json { .. } => AppError::new(
            "storage",
            owned("本地数据读写失败"),
            true,
        ),
        StorageError::Internal(_) => AppError::new("internal", owned("应用内部错误"), false),
    }
}

/// The message for an IPC schema version that is not this application's.
pub open spec fn ipc_schema_message(version: u32) -> Seq<char> {
    "不支持的 IPC schema_version: "@ + decimal(version as nat)
}

/// Accept only this application's IPC schema version.
pub fn check_ipc_schema(version: u32) -> (r: Result<(), AppError>)
    ensures
        version == IPC_SCHEMA_VERSION ==> r is Ok,
        version != IPC_SCHEMA_VERSION ==> (r matches Err(e) && plain_app_error(
            e,
            "validation"@,
            ipc_schema_message(version),
            false,
        )),
{
    if version != IPC_SCHEMA_VERSION {
        let mut m = owned("不支持的 IPC schema_version: ");
        push_str(&mut m, u64_to_string(version as u64).as_str());
        return Err(AppError::validation(m));
    }
    Ok(())
}

/// The protocol a stored name stands for.
pub open spec fn protocol_named(raw: Seq<char>) -> Option<StoredProtocol> {
    if raw == "openai_chat_completions"@ {
        Some(StoredProtocol::OpenAiChatCompletions)
    } else if raw == "openai_responses"@ {
        Some(StoredProtocol::OpenAiResponses)
    } else if raw == "anthropic_messages"@ {
        Some(StoredProtocol::AnthropicMessages)
    } else if raw == "gemini_generate_content"@ {
        Some(StoredProtocol::GeminiGenerateContent)
    } else {
        None
    }
}

/// The SDK protocol of a stored protocol.
pub open spec fn kind_of(p: StoredProtocol) -> ProtocolKind {
    match p {
        StoredProtocol::OpenAiChatCompletions => ProtocolKind::OpenAiChatCompletions,
        StoredProtocol::OpenAiResponses => ProtocolKind::OpenAiResponses,
        StoredProtocol::AnthropicMessages => ProtocolKind::AnthropicMessages,
        StoredProtocol::GeminiGenerateContent => ProtocolKind::GeminiGenerateContent,
    }
}

/// Read a protocol name (exact match).
pub fn parse_protocol(raw: &str) -> (r: Result<StoredProtocol, AppError>)
    ensures
        match protocol_named(raw@) {
            Some(p) => r == Ok::<StoredProtocol, AppError>(p),
            None => r matches Err(e) && plain_app_error(e, "validation"@, "不支持的协议"@, false),
        },
{
    if str_eq(raw, "openai_chat_completions") {
        Ok(StoredProtocol::OpenAiChatCompletions)
    } else if str_eq(raw, "openai_responses") {
        Ok(StoredProtocol::OpenAiResponses)
    } else if str_eq(raw, "anthropic_messages") {
        Ok(StoredProtocol::AnthropicMessages)
    } else if str_eq(raw, "gemini_generate_content") {
        Ok(StoredProtocol::GeminiGenerateContent)
    } else {
        Err(AppError::validation(owned("不支持的协议")))
    }
}

/// The SDK protocol of a stored protocol.
pub fn protocol_kind(protocol: StoredProtocol) -> (k: ProtocolKind)
    ensures
        k == kind_of(protocol),
{
    match protocol {
        StoredProtocol::OpenAiChatCompletions => ProtocolKind::OpenAiChatCompletions,
        StoredProtocol::OpenAiResponses => ProtocolKind::OpenAiResponses,
        StoredProtocol::AnthropicMessages => ProtocolKind::AnthropicMessages,
        StoredProtocol::GeminiGenerateContent => ProtocolKind::GeminiGenerateContent,
    }
}

/// Read a protocol name as an SDK protocol.
pub fn parse_protocol_kind(raw: &str) -> (r: Result<ProtocolKind, AppError>)
    ensures
        match protocol_named(raw@) {
            Some(p) => r == Ok::<ProtocolKind, AppError>(kind_of(p)),
            None => r matches Err(e) && plain_app_error(e, "validation"@, "不支持的协议"@, false),
        },
{
    match parse_protocol(raw) {
        Ok(p) => Ok(protocol_kind(p)),
        Err(e) => Err(e),
    }
}

} // verus!
