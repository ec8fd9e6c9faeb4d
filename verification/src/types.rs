//! Public protocol types for model adapters.

use vstd::prelude::*;
use vstd::utf8::*;

use crate::error::{ProtocolError, ProtocolErrorKind};
use crate::json::{is_object, json_is_object, JsonValue};
use crate::text::{
    ascii_lower, chars_eq, chars_of, is_blank, is_blank_str, is_whitespace, is_ws, lower_str, owned,
    push_str, trim, trim_str,
};

verus! {

/// Max decoded size for inline base64 images (4 MiB).
pub const MAX_INLINE_IMAGE_BYTES: usize = 4 * 1024 * 1024;

/// Supported wire protocols.
#[derive(Debug, Clone, Copy, PartialEq, Eq, Hash, Structural)]
pub enum ProtocolKind {
    /// OpenAI Chat Completions (`POST /chat/completions`).
    OpenAiChatCompletions,
    /// OpenAI Responses API (`POST /responses`).
    OpenAiResponses,
    /// Anthropic Messages API (`POST /messages`).
    AnthropicMessages,
    /// Gemini generateContent / streamGenerateContent.
    GeminiGenerateContent,
}

/// Optional auth extensions (empty by default).
#[derive(Debug, Clone, Default, PartialEq, Eq)]
pub struct AuthOptions {
    pub extra_headers: Vec<(String, String)>,
    pub api_key_query_param: Option<String>,
}

/// A model that a provider lists.
#[derive(Debug, Clone, PartialEq, Eq)]
pub struct ModelInfo {
    pub id: String,
    pub display_name: String,
    pub owned_by: Option<String>,
}

/// Message content part.
#[derive(Debug, Clone, PartialEq, Eq)]
pub enum ContentPart {
    Text { text: String },
    ImageUrl { url: String, detail: Option<String> },
    ImageBase64 { media_type: String, data: String },
}

// ---------------------------------------------------------------------------
// Inline image size
// ---------------------------------------------------------------------------

/// `s` without its whitespace characters.
pub open spec fn drop_ws(s: Seq<char>) -> Seq<char>
    decreases s.len(),
{
    if s.len() == 0 {
        seq![]
    } else if is_ws(s.last()) {
        drop_ws(s.drop_last())
    } else {
        drop_ws(s.drop_last()).push(s.last())
    }
}

/// The number of `=` at the end of `s`.
pub open spec fn trailing_pad(s: Seq<char>) -> int
    decreases s.len(),
{
    if s.len() > 0 && s.last() == '=' {
        1 + trailing_pad(s.drop_last())
    } else {
        0
    }
}

/// `3 * n`, saturated at `usize::MAX`.
pub open spec fn sat_triple(n: int) -> int {
    if n * 3 > usize::MAX {
        usize::MAX as int
    } else {
        n * 3
    }
}

/// The estimate of decoded bytes that is computed for base64 text: three quarters of
/// its UTF-8 length without whitespace, less the `=` padding.
pub open spec fn base64_estimate(data: Seq<char>) -> int {
    let c = drop_ws(data);
    sat_triple(encode_utf8(c).len() as int) / 4 - trailing_pad(c)
}

/// The estimate does not go below zero (the computation subtracts in `usize`).
pub open spec fn base64_estimate_defined(data: Seq<char>) -> bool {
    base64_estimate(data) >= 0
}

fn trailing_pad_exec(c: &Vec<char>) -> (n: usize)
    ensures
        n == trailing_pad(c@),
{
    let mut k = c.len();
    let mut n: usize = 0;
    assert(c@.take(k as int) == c@);
    while k > 0 && c[k - 1] == '='
        invariant
            0 <= k <= c@.len() <= usize::MAX,
            n + k == c@.len(),
            n + trailing_pad(c@.take(k as int)) == trailing_pad(c@),
        decreases k,
    {
        assert(c@.take(k as int).drop_last() == c@.take(k - 1));
        k = k - 1;
        n = n + 1;
    }
    if k > 0 {
        assert(c@.take(k as int).last() == c@[k - 1]);
    }
    n
}

/// The two terms of the estimate: three quarters of the byte length (saturated) and the
/// padding.
fn base64_estimate_terms(data: &str) -> (r: (usize, usize))
    ensures
        r.0 == sat_triple(encode_utf8(drop_ws(data@)).len() as int) / 4,
        r.1 == trailing_pad(drop_ws(data@)),
{
    let v = chars_of(data);
    let mut clean: Vec<char> = Vec::new();
    let mut i: usize = 0;
    while i < v.len()
        invariant
            0 <= i <= v@.len(),
            v@ == data@,
            clean@ == drop_ws(v@.take(i as int)),
        decreases v.len() - i,
    {
        proof {
            assert(v@.take(i + 1).drop_last() == v@.take(i as int));
            assert(v@.take(i + 1).last() == v@[i as int]);
        }
        if !is_whitespace(v[i]) {
            clean.push(v[i]);
        }
        i = i + 1;
    }
    assert(v@.take(v@.len() as int) == v@);
    let s = crate::text::string_of(clean.as_slice());
    let sref = s.as_str();
    assert(sref@ == drop_ws(data@));
    let byte_len = sref.as_bytes().len();
    assert(clean@ == drop_ws(data@));
    assert(s@ == drop_ws(data@));
    assert(byte_len == encode_utf8(drop_ws(data@)).len());
    let tripled = if byte_len > usize::MAX / 3 {
        assert(byte_len * 3 > usize::MAX) by (nonlinear_arith)
            requires
                byte_len > usize::MAX / 3,
        ;
        usize::MAX
    } else {
        assert(byte_len * 3 <= usize::MAX) by (nonlinear_arith)
            requires
                byte_len <= usize::MAX / 3,
        ;
        byte_len * 3
    };
    assert(tripled == sat_triple(byte_len as int));
    let padding = trailing_pad_exec(&clean);
    (tripled / 4, padding)
}

/// Approximate decoded length of base64 text.
fn approx_base64_decoded_len(data: &str) -> (n: usize)
    requires
        base64_estimate_defined(data@),
    ensures
        n == base64_estimate(data@),
{
    let (quarter, padding) = base64_estimate_terms(data);
    quarter - padding
}

/// Whether the estimate for `data` is defined.
pub fn base64_estimate_ok(data: &str) -> (b: bool)
    ensures
        b == base64_estimate_defined(data@),
{
    let (quarter, padding) = base64_estimate_terms(data);
    quarter >= padding
}

// ---------------------------------------------------------------------------
// Content parts
// ---------------------------------------------------------------------------

/// The estimate that `validate` computes for a part is defined.
pub open spec fn part_estimate_defined(p: ContentPart) -> bool {
    match p {
        ContentPart::ImageBase64 { media_type, data } => !is_blank(media_type@) && !is_blank(data@)
            ==> base64_estimate_defined(trim(data@)),
        _ => true,
    }
}

/// The first rule a part breaks, as the error message.
pub open spec fn part_error(p: ContentPart) -> Option<Seq<char>> {
    match p {
        ContentPart::Text { .. } => None,
        ContentPart::ImageUrl { url, .. } => {
            if is_blank(url@) {
                Some("ImageUrl.url 不能为空"@)
            } else {
                None
            }
        },
        ContentPart::ImageBase64 { media_type, data } => {
            if is_blank(media_type@) {
                Some("ImageBase64.media_type 不能为空"@)
            } else if is_blank(data@) {
                Some("ImageBase64.data 不能为空"@)
            } else if base64_estimate(trim(data@)) > MAX_INLINE_IMAGE_BYTES {
                Some("内联图片超过上限 4194304 字节"@)
            } else {
                None
            }
        },
    }
}

/// An invalid-request error with `message`.
fn invalid_request(message: &str) -> (e: ProtocolError)
    ensures
        e.kind == ProtocolErrorKind::InvalidRequest,
        e.message@ == message@,
        e.retryable == false,
        e.http_status is None,
        e.provider_code is None,
        e.request_id is None,
        e.retry_after_ms is None,
{
    ProtocolError::new(ProtocolErrorKind::InvalidRequest, owned(message))
}

/// An error of `kind` whose message is the given text, for a rule the spec names.
pub open spec fn is_error(r: Result<(), ProtocolError>, kind: ProtocolErrorKind, expected: Option<
    Seq<char>,
>) -> bool {
    match r {
        Ok(()) => expected is None,
        Err(e) => e.kind == kind && expected == Some(e.message@),
    }
}

impl ContentPart {
    /// Check one part: non-blank URL, non-blank media type and data, inline image no
    /// larger than `MAX_INLINE_IMAGE_BYTES` (estimated from the base64 text).
    pub fn validate(&self) -> (r: Result<(), ProtocolError>)
        requires
            part_estimate_defined(*self),
        ensures
            is_error(r, ProtocolErrorKind::InvalidRequest, part_error(*self)),
    {
        match self {
            ContentPart::Text { .. } => Ok(()),
            ContentPart::ImageUrl { url, .. } => {
                if is_blank_str(url.as_str()) {
                    return Err(invalid_request("ImageUrl.url 不能为空"));
                }
                Ok(())
            },
            ContentPart::ImageBase64 { media_type, data } => {
                if is_blank_str(media_type.as_str()) {
                    return Err(invalid_request("ImageBase64.media_type 不能为空"));
                }
                if is_blank_str(data.as_str()) {
                    return Err(invalid_request("ImageBase64.data 不能为空"));
                }
                let trimmed = trim_str(data.as_str());
                let decoded_len = approx_base64_decoded_len(trimmed.as_str());
                if decoded_len > MAX_INLINE_IMAGE_BYTES {
                    return Err(invalid_request("内联图片超过上限 4194304 字节"));
                }
                Ok(())
            },
        }
    }

    /// Whether the part is text.
    pub fn is_text(&self) -> (b: bool)
        ensures
            b == (*self is Text),
    {
        match self {
            ContentPart::Text { .. } => true,
            _ => false,
        }
    }

    /// Whether the part is an empty text.
    pub fn is_empty_text(&self) -> (b: bool)
        ensures
            b == (self matches ContentPart::Text { text } && text@.len() == 0),
    {
        match self {
            ContentPart::Text { text } => text.as_str().is_empty(),
            _ => false,
        }
    }
}

/// The role of a chat message.
#[derive(Debug, Clone, Copy, PartialEq, Eq, Structural)]
pub enum ChatRole {
    System,
    User,
    Assistant,
    Tool,
}

/// The wire name of a role.
pub open spec fn role_name(r: ChatRole) -> Seq<char> {
    match r {
        ChatRole::System => "system"@,
        ChatRole::User => "user"@,
        ChatRole::Assistant => "assistant"@,
        ChatRole::Tool => "tool"@,
    }
}

impl ChatRole {
    /// The wire name of the role.
    pub fn as_str(self) -> (s: &'static str)
        ensures
            s@ == role_name(self),
    {
        match self {
            ChatRole::System => "system",
            ChatRole::User => "user",
            ChatRole::Assistant => "assistant",
            ChatRole::Tool => "tool",
        }
    }
}

/// Assistant tool call (public semantic; wire mapping is protocol-specific).
#[derive(Debug, Clone, PartialEq, Eq)]
pub struct ToolCall {
    pub id: String,
    pub name: String,
    pub arguments: String,
}

/// A chat message.
#[derive(Debug, Clone, PartialEq, Eq)]
pub struct ChatMessage {
    pub role: ChatRole,
    pub parts: Vec<ContentPart>,
    pub tool_call_id: Option<String>,
    pub tool_calls: Vec<ToolCall>,
}

/// The concatenated text parts.
pub open spec fn texts_of(parts: Seq<ContentPart>) -> Seq<char>
    decreases parts.len(),
{
    if parts.len() == 0 {
        seq![]
    } else {
        texts_of(parts.drop_last()) + match parts.last() {
            ContentPart::Text { text } => text@,
            _ => seq![],
        }
    }
}

/// A part is an image.
pub open spec fn is_image(p: ContentPart) -> bool {
    p is ImageUrl || p is ImageBase64
}

/// The message carries an image part.
pub open spec fn has_image(m: ChatMessage) -> bool {
    exists|i: int| 0 <= i < m.parts@.len() && is_image(#[trigger] m.parts@[i])
}

/// The first error among parts, in order.
pub open spec fn parts_error(parts: Seq<ContentPart>) -> Option<Seq<char>>
    decreases parts.len(),
{
    if parts.len() == 0 {
        None
    } else {
        match parts_error(parts.drop_last()) {
            Some(e) => Some(e),
            None => part_error(parts.last()),
        }
    }
}

/// The estimates computed for all parts are defined.
pub open spec fn message_estimates_defined(m: ChatMessage) -> bool {
    forall|i: int| 0 <= i < m.parts@.len() ==> part_estimate_defined(#[trigger] m.parts@[i])
}

/// The first rule a message breaks, as the error message.
pub open spec fn message_error(m: ChatMessage) -> Option<Seq<char>> {
    let tools_only = m.role == ChatRole::Assistant && m.tool_calls@.len() > 0;
    let only_empty_text = m.parts@.len() > 0 && forall|i: int|
        0 <= i < m.parts@.len() ==> (#[trigger] m.parts@[i] matches ContentPart::Text { text }
            && text@.len() == 0);
    if m.parts@.len() == 0 && !tools_only {
        Some("消息 parts 不能为空"@)
    } else if only_empty_text && !tools_only {
        Some("消息不能仅包含空 Text"@)
    } else if parts_error(m.parts@) is Some {
        parts_error(m.parts@)
    } else if exists|i: int|
        0 <= i < m.tool_calls@.len() && (is_blank((#[trigger] m.tool_calls@[i]).id@) || is_blank(
            m.tool_calls@[i].name@,
        )) {
        Some("tool_calls 的 id/name 不能为空"@)
    } else if m.tool_calls@.len() > 0 && m.role != ChatRole::Assistant {
        Some("仅 Assistant 消息可带 tool_calls"@)
    } else if m.role == ChatRole::Tool {
        if m.tool_call_id is None || is_blank(m.tool_call_id->0@) {
            Some("Tool 消息必须提供 tool_call_id"@)
        } else if exists|i: int| 0 <= i < m.parts@.len() && !(#[trigger] m.parts@[i] is Text) {
            Some("Tool 消息 parts 只能是 Text"@)
        } else {
            None
        }
    } else if m.tool_call_id is Some {
        Some("非 Tool 消息不能带 tool_call_id"@)
    } else {
        None
    }
}

impl ChatMessage {
    /// A message holding a single text part.
    pub fn text(role: ChatRole, content: &str) -> (m: Self)
        ensures
            m.role == role,
            m.parts@.len() == 1,
            m.parts@[0] matches ContentPart::Text { text } && text@ == content@,
            m.tool_call_id is None,
            m.tool_calls@.len() == 0,
    {
        let mut parts = Vec::new();
        parts.push(ContentPart::Text { text: owned(content) });
        ChatMessage { role, parts, tool_call_id: None, tool_calls: Vec::new() }
    }

    /// Concatenate all text parts.
    pub fn text_content(&self) -> (s: String)
        ensures
            s@ == texts_of(self.parts@),
    {
        let mut out = String::new();
        let mut i: usize = 0;
        while i < self.parts.len()
            invariant
                0 <= i <= self.parts@.len(),
                out@ == texts_of(self.parts@.take(i as int)),
            decreases self.parts.len() - i,
        {
            proof {
                assert(self.parts@.take(i + 1).drop_last() == self.parts@.take(i as int));
                assert(self.parts@.take(i + 1).last() == self.parts@[i as int]);
            }
            match &self.parts[i] {
                ContentPart::Text { text } => {
                    push_str(&mut out, text.as_str());
                },
                _ => {
                    assert(out@ + Seq::<char>::empty() == out@);
                },
            }
            i = i + 1;
        }
        assert(self.parts@.take(self.parts@.len() as int) == self.parts@);
        out
    }

    /// Whether any part is an image.
    pub fn has_image_parts(&self) -> (b: bool)
        ensures
            b == has_image(*self),
    {
        let mut i: usize = 0;
        while i < self.parts.len()
            invariant
                0 <= i <= self.parts@.len(),
                forall|j: int| 0 <= j < i ==> !is_image(#[trigger] self.parts@[j]),
            decreases self.parts.len() - i,
        {
            match &self.parts[i] {
                ContentPart::ImageUrl { .. } | ContentPart::ImageBase64 { .. } => {
                    return true;
                },
                _ => {},
            }
            i = i + 1;
        }
        false
    }

    /// Check the message rules, in order: parts present (unless an assistant message
    /// carries only tool calls), not only empty text, each part valid, tool calls with
    /// id and name, tool calls only on assistant messages, `tool_call_id` exactly on
    /// tool messages whose parts are all text.
    #[verifier::loop_isolation(false)]
    pub fn validate(&self) -> (r: Result<(), ProtocolError>)
        requires
            message_estimates_defined(*self),
        ensures
            is_error(r, ProtocolErrorKind::InvalidRequest, message_error(*self)),
    {
        let tools_only = self.role == ChatRole::Assistant && self.tool_calls.len() > 0;
        if self.parts.len() == 0 && !tools_only {
            return Err(invalid_request("消息 parts 不能为空"));
        }
        let mut all_empty = true;
        let mut i: usize = 0;
        while i < self.parts.len()
            invariant
                0 <= i <= self.parts@.len(),
                all_empty == forall|j: int|
                    0 <= j < i ==> (#[trigger] self.parts@[j] matches ContentPart::Text { text }
                        && text@.len() == 0),
            decreases self.parts.len() - i,
        {
            if !(self.parts[i].is_text() && self.parts[i].is_empty_text()) {
                all_empty = false;
            }
            i = i + 1;
        }
        if self.parts.len() > 0 && all_empty && !tools_only {
            return Err(invalid_request("消息不能仅包含空 Text"));
        }
        let mut k: usize = 0;
        while k < self.parts.len()
            invariant
                0 <= k <= self.parts@.len(),
                message_estimates_defined(*self),
                parts_error(self.parts@.take(k as int)) is None,
            decreases self.parts.len() - k,
        {
            proof {
                assert(self.parts@.take(k + 1).drop_last() == self.parts@.take(k as int));
                assert(self.parts@.take(k + 1).last() == self.parts@[k as int]);
            }
            match self.parts[k].validate() {
                Ok(()) => {},
                Err(e) => {
                    proof {
                        lemma_parts_error_prefix(self.parts@, k + 1);
                    }
                    return Err(e);
                },
            }
            k = k + 1;
        }
        assert(self.parts@.take(self.parts@.len() as int) == self.parts@);
        let mut t: usize = 0;
        while t < self.tool_calls.len()
            invariant
                0 <= t <= self.tool_calls@.len(),
                forall|j: int|
                    0 <= j < t ==> !(is_blank((#[trigger] self.tool_calls@[j]).id@) || is_blank(
                        self.tool_calls@[j].name@,
                    )),
            decreases self.tool_calls.len() - t,
        {
            if is_blank_str(self.tool_calls[t].id.as_str()) || is_blank_str(
                self.tool_calls[t].name.as_str(),
            ) {
                assert(is_blank(self.tool_calls@[t as int].id@) || is_blank(
                    self.tool_calls@[t as int].name@,
                ));
                return Err(invalid_request("tool_calls 的 id/name 不能为空"));
            }
            t = t + 1;
        }
        if self.tool_calls.len() > 0 && self.role != ChatRole::Assistant {
            return Err(invalid_request("仅 Assistant 消息可带 tool_calls"));
        }
        match self.role {
            ChatRole::Tool => {
                let missing = match &self.tool_call_id {
                    Some(s) => is_blank_str(s.as_str()),
                    None => true,
                };
                if missing {
                    return Err(invalid_request("Tool 消息必须提供 tool_call_id"));
                }
                let mut p: usize = 0;
                while p < self.parts.len()
                    invariant
                        0 <= p <= self.parts@.len(),
                        forall|j: int| 0 <= j < p ==> (#[trigger] self.parts@[j] is Text),
                    decreases self.parts.len() - p,
                {
                    if !self.parts[p].is_text() {
                        assert(!(self.parts@[p as int] is Text));
                        return Err(invalid_request("Tool 消息 parts 只能是 Text"));
                    }
                    p = p + 1;
                }
            },
            _ => {
                if self.tool_call_id.is_some() {
                    return Err(invalid_request("非 Tool 消息不能带 tool_call_id"));
                }
            },
        }
        Ok(())
    }
}

proof fn lemma_parts_error_prefix(parts: Seq<ContentPart>, k: int)
    requires
        0 <= k <= parts.len(),
        parts_error(parts.take(k)) is Some,
    ensures
        parts_error(parts) == parts_error(parts.take(k)),
    decreases parts.len() - k,
{
    if k < parts.len() {
        assert(parts.take(k + 1).drop_last() == parts.take(k));
        lemma_parts_error_prefix(parts, k + 1);
    } else {
        assert(parts.take(k) == parts);
    }
}

/// Request-side reasoning control (not UI fold state).
#[derive(Debug, Clone, Copy, PartialEq, Eq, Structural)]
pub enum ReasoningMode {
    Auto,
    Off,
    On,
}

/// Requested reasoning effort.
#[derive(Debug, Clone, Copy, PartialEq, Eq, Structural)]
pub enum ReasoningEffort {
    Minimal,
    Low,
    Medium,
    High,
    XHigh,
    Max,
}

/// Request-side reasoning policy.
#[derive(Debug, Clone, Copy, PartialEq, Eq, Structural)]
pub struct ReasoningPolicy {
    pub mode: ReasoningMode,
    pub effort: Option<ReasoningEffort>,
    pub budget_tokens: Option<u32>,
}

/// Tool definition for the request wire (execution is out of scope).
#[derive(Debug, Clone)]
pub struct ToolDefinition {
    pub name: String,
    pub description: Option<String>,
    pub parameters: JsonValue,
}

/// Which tool the model may or must call.
#[derive(Debug, Clone, PartialEq, Eq)]
pub enum ToolChoice {
    Auto,
    /// The model must not call a tool (`"none"` on the wire).
    Disabled,
    Required,
    Named { name: String },
}

/// A chat request. `temperature` holds the IEEE-754 bits of an `f32`.
#[derive(Debug, Clone)]
pub struct ChatRequest {
    pub model: String,
    pub messages: Vec<ChatMessage>,
    pub temperature: Option<u32>,
    pub max_tokens: Option<u32>,
    pub reasoning: Option<ReasoningPolicy>,
    pub tools: Option<Vec<ToolDefinition>>,
    pub tool_choice: Option<ToolChoice>,
}

/// `(0.0..=2.0).contains(&t)` for the `f32` with these bits: the non-negative floats
/// up to 2.0 (bits up to `0x4000_0000`) and negative zero.
pub open spec fn temperature_in_range(bits: u32) -> bool {
    bits <= 0x4000_0000 || bits == 0x8000_0000
}

/// The reasoning-policy rule: outside `Auto`, a budget of 0 is only allowed with `Off`.
pub open spec fn reasoning_error(p: ReasoningPolicy) -> Option<Seq<char>> {
    if p.mode != ReasoningMode::Auto && p.budget_tokens == Some(0u32) && p.mode
        != ReasoningMode::Off {
        Some("budget_tokens 在 On 模式下必须大于 0"@)
    } else {
        None
    }
}

/// The trimmed names of the tools.
pub open spec fn tool_names(tools: Seq<ToolDefinition>) -> Seq<Seq<char>> {
    tools.map_values(|t: ToolDefinition| trim(t.name@))
}

/// The first rule the tool list breaks, scanning tools in order.
pub open spec fn tool_list_error(tools: Seq<ToolDefinition>) -> Option<Seq<char>>
    decreases tools.len(),
{
    if tools.len() == 0 {
        None
    } else {
        match tool_list_error(tools.drop_last()) {
            Some(e) => Some(e),
            None => {
                let t = tools.last();
                let name = trim(t.name@);
                if name.len() == 0 {
                    Some("tool name 不能为空"@)
                } else if !is_object(t.parameters) {
                    Some("tool parameters 必须是 JSON object"@)
                } else if tool_names(tools.drop_last()).contains(name) {
                    Some("tool name 重复: "@ + name)
                } else {
                    None
                }
            },
        }
    }
}

/// The rules for tools and tool choice together.
pub open spec fn tools_error(tools: Option<Seq<ToolDefinition>>, choice: Option<ToolChoice>) -> Option<
    Seq<char>,
> {
    match tools {
        None => {
            if choice is Some {
                Some("tools 为 None 时不能设置 tool_choice"@)
            } else {
                None
            }
        },
        Some(ts) => {
            if ts.len() == 0 {
                Some("tools 不能为空列表"@)
            } else if tool_list_error(ts) is Some {
                tool_list_error(ts)
            } else {
                match choice {
                    Some(ToolChoice::Named { name }) => {
                        let n = trim(name@);
                        if n.len() == 0 || !tool_names(ts).contains(n) {
                            Some("tool_choice Named 必须引用已声明的 tool"@)
                        } else {
                            None
                        }
                    },
                    _ => None,
                }
            }
        },
    }
}

/// The tool rules stated directly: no tools and no choice; or a non-empty list whose
/// trimmed names are non-empty and pairwise distinct, whose parameters are JSON objects,
/// and a named choice only of one of those names.
pub open spec fn tools_valid(tools: Option<Seq<ToolDefinition>>, choice: Option<ToolChoice>) -> bool {
    match tools {
        None => choice is None,
        Some(ts) => {
            &&& ts.len() > 0
            &&& forall|i: int| 0 <= i < ts.len() ==> trim((#[trigger] ts[i]).name@).len() > 0
                && is_object(ts[i].parameters)
            &&& forall|i: int, j: int| 0 <= i < j < ts.len() ==> trim((#[trigger] ts[i]).name@)
                != trim((#[trigger] ts[j]).name@)
            &&& choice matches Some(ToolChoice::Named { name }) ==> tool_names(ts).contains(trim(name@))
        },
    }
}

proof fn lemma_tool_list_error(ts: Seq<ToolDefinition>)
    ensures
        tool_list_error(ts) is None <==> {
            &&& forall|i: int| 0 <= i < ts.len() ==> trim((#[trigger] ts[i]).name@).len() > 0
                && is_object(ts[i].parameters)
            &&& forall|i: int, j: int| 0 <= i < j < ts.len() ==> trim((#[trigger] ts[i]).name@)
                != trim((#[trigger] ts[j]).name@)
        },
    decreases ts.len(),
{
    if ts.len() > 0 {
        let p = ts.drop_last();
        lemma_tool_list_error(p);
        let last = ts.last();
        let name = trim(last.name@);
        assert forall|i: int| 0 <= i < p.len() implies p[i] == ts[i] by {}
        if tool_names(p).contains(name) {
            let k = choose|k: int| 0 <= k < tool_names(p).len() && tool_names(p)[k] == name;
            assert(trim(ts[k].name@) == trim(ts[ts.len() - 1].name@));
        }
        if tool_list_error(ts) is None {
            assert forall|i: int, j: int| 0 <= i < j < ts.len() implies trim((#[trigger] ts[i]).name@)
                != trim((#[trigger] ts[j]).name@) by {
                if j == ts.len() - 1 {
                    assert(tool_names(p)[i] == trim(ts[i].name@));
                    assert(!tool_names(p).contains(name));
                } else {
                    assert(p[i] == ts[i] && p[j] == ts[j]);
                }
            }
        }
    }
}

/// The tool validator refuses exactly the tool lists and choices that break the rules:
/// `tools_error` is empty when and only when `tools_valid` holds.
pub proof fn law_tools_error_exact(tools: Option<Seq<ToolDefinition>>, choice: Option<ToolChoice>)
    ensures
        tools_error(tools, choice) is None <==> tools_valid(tools, choice),
{
    match tools {
        None => {},
        Some(ts) => {
            lemma_tool_list_error(ts);
            match choice {
                Some(ToolChoice::Named { name }) => {
                    if tool_names(ts).contains(trim(name@)) {
                        let k = choose|k: int| 0 <= k < tool_names(ts).len() && tool_names(ts)[k] == trim(name@);
                        assert(tool_names(ts)[k] == trim(ts[k].name@));
                    }
                },
                _ => {},
            }
        },
    }
}

/// Some message has the user role.
pub open spec fn has_user(msgs: Seq<ChatMessage>) -> bool {
    exists|i: int| 0 <= i < msgs.len() && (#[trigger] msgs[i]).role == ChatRole::User
}

/// The first error among messages, in order.
pub open spec fn messages_error(msgs: Seq<ChatMessage>) -> Option<Seq<char>>
    decreases msgs.len(),
{
    if msgs.len() == 0 {
        None
    } else {
        match messages_error(msgs.drop_last()) {
            Some(e) => Some(e),
            None => message_error(msgs.last()),
        }
    }
}

/// The estimates of every message are defined.
pub open spec fn request_estimates_defined(r: ChatRequest) -> bool {
    forall|i: int|
        0 <= i < r.messages@.len() ==> message_estimates_defined(#[trigger] r.messages@[i])
}

/// Whether the estimate of a part is defined.
fn part_estimate_ok(p: &ContentPart) -> (b: bool)
    ensures
        b == part_estimate_defined(*p),
{
    match p {
        ContentPart::ImageBase64 { media_type, data } => {
            if is_blank_str(media_type.as_str()) || is_blank_str(data.as_str()) {
                true
            } else {
                let t = trim_str(data.as_str());
                base64_estimate_ok(t.as_str())
            }
        },
        _ => true,
    }
}

/// Whether the estimates of every part of every message are defined: the condition under
/// which a request can be checked without the estimate going below zero.
pub fn estimates_defined(r: &ChatRequest) -> (b: bool)
    ensures
        b == request_estimates_defined(*r),
{
    let mut i: usize = 0;
    while i < r.messages.len()
        invariant
            0 <= i <= r.messages@.len(),
            forall|k: int| 0 <= k < i ==> message_estimates_defined(#[trigger] r.messages@[k]),
        decreases r.messages.len() - i,
    {
        let m = &r.messages[i];
        let mut j: usize = 0;
        while j < m.parts.len()
            invariant
                0 <= j <= m.parts@.len(),
                i < r.messages@.len(),
                *m == r.messages@[i as int],
                forall|k: int| 0 <= k < j ==> part_estimate_defined(#[trigger] m.parts@[k]),
            decreases m.parts.len() - j,
        {
            if !part_estimate_ok(&m.parts[j]) {
                assert(!message_estimates_defined(r.messages@[i as int]));
                return false;
            }
            j = j + 1;
        }
        i = i + 1;
    }
    true
}

/// The optional tools as a sequence.
pub open spec fn tools_seq(t: Option<Vec<ToolDefinition>>) -> Option<Seq<ToolDefinition>> {
    match t {
        Some(v) => Some(v@),
        None => None,
    }
}

/// The first rule a request breaks, as the error message.
pub open spec fn request_error(r: ChatRequest) -> Option<Seq<char>> {
    if is_blank(r.model@) {
        Some("model 不能为空"@)
    } else if !has_user(r.messages@) {
        Some("messages 至少需要一条 user 消息"@)
    } else if messages_error(r.messages@) is Some {
        messages_error(r.messages@)
    } else if r.temperature matches Some(t) && !temperature_in_range(t) {
        Some("temperature 必须在 0.0..=2.0"@)
    } else if r.max_tokens == Some(0u32) {
        Some("max_tokens 必须大于 0"@)
    } else if r.reasoning matches Some(p) && reasoning_error(p) is Some {
        reasoning_error(r.reasoning->0)
    } else {
        tools_error(tools_seq(r.tools), r.tool_choice)
    }
}

/// Protocol features a request needs that the capabilities lack, in order.
pub open spec fn capability_error(r: ChatRequest, c: ProtocolCapabilities) -> Option<Seq<char>> {
    if r.tools is Some && !c.tools {
        Some("当前协议不支持 tools"@)
    } else if (exists|i: int| 0 <= i < r.messages@.len() && has_image(#[trigger] r.messages@[i]))
        && !c.vision_input {
        Some("当前协议不支持视觉输入"@)
    } else if r.reasoning matches Some(p) && (p.mode == ReasoningMode::On || p.mode
        == ReasoningMode::Off) && !c.reasoning_control {
        Some("当前协议不支持推理控制"@)
    } else {
        None
    }
}

proof fn lemma_messages_error_prefix(msgs: Seq<ChatMessage>, k: int)
    requires
        0 <= k <= msgs.len(),
        messages_error(msgs.take(k)) is Some,
    ensures
        messages_error(msgs) == messages_error(msgs.take(k)),
    decreases msgs.len() - k,
{
    if k < msgs.len() {
        assert(msgs.take(k + 1).drop_last() == msgs.take(k));
        lemma_messages_error_prefix(msgs, k + 1);
    } else {
        assert(msgs.take(k) == msgs);
    }
}

proof fn lemma_tool_list_error_prefix(tools: Seq<ToolDefinition>, k: int)
    requires
        0 <= k <= tools.len(),
        tool_list_error(tools.take(k)) is Some,
    ensures
        tool_list_error(tools) == tool_list_error(tools.take(k)),
    decreases tools.len() - k,
{
    if k < tools.len() {
        assert(tools.take(k + 1).drop_last() == tools.take(k));
        lemma_tool_list_error_prefix(tools, k + 1);
    } else {
        assert(tools.take(k) == tools);
    }
}

fn validate_reasoning_policy(policy: &ReasoningPolicy) -> (r: Result<(), ProtocolError>)
    ensures
        is_error(r, ProtocolErrorKind::InvalidRequest, reasoning_error(*policy)),
{
    if policy.mode == ReasoningMode::Auto {
        return Ok(());
    }
    if let Some(budget) = policy.budget_tokens {
        if budget == 0 && policy.mode != ReasoningMode::Off {
            return Err(invalid_request("budget_tokens 在 On 模式下必须大于 0"));
        }
    }
    Ok(())
}

/// The character sequences of some strings.
pub open spec fn strings_view(v: Seq<String>) -> Seq<Seq<char>> {
    v.map_values(|s: String| s@)
}

fn names_contain(names: &Vec<String>, name: &str) -> (b: bool)
    ensures
        b == strings_view(names@).contains(name@),
{
    let target = chars_of(name);
    let mut i: usize = 0;
    while i < names.len()
        invariant
            0 <= i <= names@.len(),
            target@ == name@,
            forall|j: int| 0 <= j < i ==> names@[j]@ != name@,
        decreases names.len() - i,
    {
        let c = chars_of(names[i].as_str());
        if chars_eq(c.as_slice(), target.as_slice()) {
            proof {
                assert(strings_view(names@)[i as int] == name@);
            }
            return true;
        }
        i = i + 1;
    }
    proof {
        if strings_view(names@).contains(name@) {
            let j = choose|j: int|
                0 <= j < names@.len() && #[trigger] strings_view(names@)[j] == name@;
            assert(names@[j]@ == name@);
        }
    }
    false
}

/// The tool rules of a request: `Ok` exactly when `tools_valid` holds, else an
/// `InvalidRequest` error naming the first rule broken.
pub fn validate_tools(request: &ChatRequest) -> (r: Result<(), ProtocolError>)
    ensures
        is_error(r, ProtocolErrorKind::InvalidRequest, tools_error(tools_seq(request.tools), request.tool_choice)),
        r is Ok <==> tools_valid(tools_seq(request.tools), request.tool_choice),
        r matches Err(e) ==> e.kind == ProtocolErrorKind::InvalidRequest,
{
    proof {
        law_tools_error_exact(tools_seq(request.tools), request.tool_choice);
    }
    check_tools(&request.tools, &request.tool_choice)
}

#[verifier::loop_isolation(false)]
fn check_tools(tools: &Option<Vec<ToolDefinition>>, tool_choice: &Option<ToolChoice>) -> (r: Result<
    (),
    ProtocolError,
>)
    ensures
        is_error(r, ProtocolErrorKind::InvalidRequest, tools_error(tools_seq(*tools), *tool_choice)),
{
    match tools {
        None => {
            if tool_choice.is_some() {
                return Err(invalid_request("tools 为 None 时不能设置 tool_choice"));
            }
            Ok(())
        },
        Some(tools) => {
            if tools.len() == 0 {
                return Err(invalid_request("tools 不能为空列表"));
            }
            let mut names: Vec<String> = Vec::new();
            let mut i: usize = 0;
            while i < tools.len()
                invariant
                    0 <= i <= tools@.len(),
                    tool_list_error(tools@.take(i as int)) is None,
                    strings_view(names@) == tool_names(tools@.take(i as int)),
                decreases tools.len() - i,
            {
                proof {
                    assert(tools@.take(i + 1).drop_last() == tools@.take(i as int));
                    assert(tools@.take(i + 1).last() == tools@[i as int]);
                }
                let name = trim_str(tools[i].name.as_str());
                if name.as_str().is_empty() {
                    assert(tool_list_error(tools@.take(i + 1)) == Some("tool name 不能为空"@));
                    proof {
                        lemma_tool_list_error_prefix(tools@, i + 1);
                    }
                    return Err(invalid_request("tool name 不能为空"));
                }
                if !json_is_object(&tools[i].parameters) {
                    proof {
                        lemma_tool_list_error_prefix(tools@, i + 1);
                    }
                    return Err(invalid_request("tool parameters 必须是 JSON object"));
                }
                if names_contain(&names, name.as_str()) {
                    let mut message = owned("tool name 重复: ");
                    push_str(&mut message, name.as_str());
                    proof {
                        lemma_tool_list_error_prefix(tools@, i + 1);
                    }
                    return Err(ProtocolError::new(ProtocolErrorKind::InvalidRequest, message));
                }
                let ghost before = names@;
                names.push(name);
                proof {
                    assert(strings_view(names@) == strings_view(before).push(
                        trim(tools@[i as int].name@),
                    ));
                    assert(tool_names(tools@.take(i + 1)) == tool_names(tools@.take(i as int)).push(
                        trim(tools@[i as int].name@),
                    ));
                }
                i = i + 1;
            }
            assert(tools@.take(tools@.len() as int) == tools@);
            if let Some(ToolChoice::Named { name }) = tool_choice {
                let n = trim_str(name.as_str());
                if n.as_str().is_empty() || !names_contain(&names, n.as_str()) {
                    return Err(invalid_request("tool_choice Named 必须引用已声明的 tool"));
                }
            }
            Ok(())
        },
    }
}

impl ChatRequest {
    /// Check the request rules, in order: model named, a user message present, each
    /// message valid, temperature within 0.0..=2.0, `max_tokens` positive, reasoning
    /// budget rule, tools and tool choice consistent.
    #[verifier::loop_isolation(false)]
    pub fn validate(&self) -> (r: Result<(), ProtocolError>)
        requires
            request_estimates_defined(*self),
        ensures
            is_error(r, ProtocolErrorKind::InvalidRequest, request_error(*self)),
    {
        if is_blank_str(self.model.as_str()) {
            return Err(invalid_request("model 不能为空"));
        }
        let mut found_user = false;
        let mut i: usize = 0;
        while i < self.messages.len()
            invariant
                0 <= i <= self.messages@.len(),
                found_user == exists|j: int|
                    0 <= j < i && (#[trigger] self.messages@[j]).role == ChatRole::User,
            decreases self.messages.len() - i,
        {
            if self.messages[i].role == ChatRole::User {
                found_user = true;
            }
            i = i + 1;
        }
        if !found_user {
            return Err(invalid_request("messages 至少需要一条 user 消息"));
        }
        let mut k: usize = 0;
        while k < self.messages.len()
            invariant
                0 <= k <= self.messages@.len(),
                request_estimates_defined(*self),
                messages_error(self.messages@.take(k as int)) is None,
            decreases self.messages.len() - k,
        {
            proof {
                assert(self.messages@.take(k + 1).drop_last() == self.messages@.take(k as int));
                assert(self.messages@.take(k + 1).last() == self.messages@[k as int]);
            }
            match self.messages[k].validate() {
                Ok(()) => {},
                Err(e) => {
                    proof {
                        lemma_messages_error_prefix(self.messages@, k + 1);
                    }
                    return Err(e);
                },
            }
            k = k + 1;
        }
        assert(self.messages@.take(self.messages@.len() as int) == self.messages@);
        if let Some(bits) = self.temperature {
            if !(bits <= 0x4000_0000 || bits == 0x8000_0000) {
                return Err(invalid_request("temperature 必须在 0.0..=2.0"));
            }
        }
        if let Some(max_tokens) = self.max_tokens {
            if max_tokens == 0 {
                return Err(invalid_request("max_tokens 必须大于 0"));
            }
        }
        if let Some(policy) = &self.reasoning {
            match validate_reasoning_policy(policy) {
                Ok(()) => {},
                Err(e) => {
                    return Err(e);
                },
            }
        }
        validate_tools(self)
    }

    /// Capability gate for `stream_chat`: tools, image input and reasoning control are
    /// refused as `Unsupported` where the protocol lacks them.
    pub fn check_capabilities(&self, capabilities: &ProtocolCapabilities) -> (r: Result<
        (),
        ProtocolError,
    >)
        ensures
            is_error(r, ProtocolErrorKind::Unsupported, capability_error(*self, *capabilities)),
    {
        if self.tools.is_some() && !capabilities.tools {
            return Err(
                ProtocolError::new(ProtocolErrorKind::Unsupported, owned("当前协议不支持 tools")),
            );
        }
        let mut any_image = false;
        let mut i: usize = 0;
        while i < self.messages.len()
            invariant
                0 <= i <= self.messages@.len(),
                any_image == exists|j: int|
                    0 <= j < i && has_image(#[trigger] self.messages@[j]),
            decreases self.messages.len() - i,
        {
            if self.messages[i].has_image_parts() {
                any_image = true;
            }
            i = i + 1;
        }
        if any_image && !capabilities.vision_input {
            return Err(
                ProtocolError::new(ProtocolErrorKind::Unsupported, owned("当前协议不支持视觉输入")),
            );
        }
        if let Some(policy) = &self.reasoning {
            let needs_control = policy.mode == ReasoningMode::On || policy.mode == ReasoningMode::Off;
            if needs_control && !capabilities.reasoning_control {
                return Err(
                    ProtocolError::new(
                        ProtocolErrorKind::Unsupported,
                        owned("当前协议不支持推理控制"),
                    ),
                );
            }
        }
        Ok(())
    }
}

// ---------------------------------------------------------------------------
// Stream results
// ---------------------------------------------------------------------------

/// Normalized completion reason for stream Completed events.
#[derive(Debug, Clone, PartialEq, Eq)]
pub enum FinishReason {
    Stop,
    Length,
    ContentFilter,
    ToolCalls,
    Other(String),
}

/// The mathematical content of a finish reason.
pub enum FinishView {
    Stop,
    Length,
    ContentFilter,
    ToolCalls,
    Other(Seq<char>),
}

impl View for FinishReason {
    type V = FinishView;

    open spec fn view(&self) -> FinishView {
        match self {
            FinishReason::Stop => FinishView::Stop,
            FinishReason::Length => FinishView::Length,
            FinishReason::ContentFilter => FinishView::ContentFilter,
            FinishReason::ToolCalls => FinishView::ToolCalls,
            FinishReason::Other(s) => FinishView::Other(s@),
        }
    }
}

/// A provider's raw reason, trimmed; `None` when absent or blank.
pub open spec fn normalized(raw: Option<Seq<char>>) -> Option<Seq<char>> {
    match raw {
        Some(s) => {
            if trim(s).len() > 0 {
                Some(trim(s))
            } else {
                None
            }
        },
        None => None,
    }
}

/// The best-effort mapping over common provider aliases (case-insensitive).
pub open spec fn finish_from_raw(raw: Option<Seq<char>>) -> FinishView {
    match normalized(raw) {
        None => FinishView::Other("unknown"@),
        Some(s) => {
            let l = ascii_lower(s);
            if l == "stop"@ || l == "end_turn"@ || l == "completed"@ || l == "stop_sequence"@ {
                FinishView::Stop
            } else if l == "length"@ || l == "max_tokens"@ || l == "max_output_tokens"@ {
                FinishView::Length
            } else if l == "content_filter"@ || l == "content_filtered"@ || l == "safety"@ || l
                == "refusal"@ {
                FinishView::ContentFilter
            } else if l == "tool_calls"@ || l == "tool_use"@ || l == "function_call"@ {
                FinishView::ToolCalls
            } else {
                FinishView::Other(l)
            }
        },
    }
}

/// The stable string of a finish reason.
pub open spec fn finish_name(f: FinishView) -> Seq<char> {
    match f {
        FinishView::Stop => "stop"@,
        FinishView::Length => "length"@,
        FinishView::ContentFilter => "content_filter"@,
        FinishView::ToolCalls => "tool_calls"@,
        FinishView::Other(s) => s,
    }
}

/// Whether `s` holds the same characters as the literal `lit`.
pub fn is_lit(s: &str, lit: &str) -> (b: bool)
    ensures
        b == (s@ == lit@),
{
    crate::text::str_eq(s, lit)
}

/// The trimmed raw reason, when present and not blank.
pub fn normalize_raw(raw: Option<&str>) -> (r: Option<String>)
    ensures
        r.deep_view() == normalized(raw.deep_view()),
{
    match raw {
        Some(s) => {
            let t = trim_str(s);
            if t.as_str().is_empty() {
                None
            } else {
                Some(t)
            }
        },
        None => None,
    }
}

impl FinishReason {
    /// Best-effort mapping for mixed call sites.
    pub fn from_provider_raw(raw: Option<&str>) -> (f: Self)
        ensures
            f@ == finish_from_raw(raw.deep_view()),
    {
        let n = match normalize_raw(raw) {
            None => {
                return FinishReason::Other(owned("unknown"));
            },
            Some(n) => n,
        };
        let l = lower_str(n.as_str());
        let s = l.as_str();
        if is_lit(s, "stop") || is_lit(s, "end_turn") || is_lit(s, "completed") || is_lit(
            s,
            "stop_sequence",
        ) {
            FinishReason::Stop
        } else if is_lit(s, "length") || is_lit(s, "max_tokens") || is_lit(s, "max_output_tokens") {
            FinishReason::Length
        } else if is_lit(s, "content_filter") || is_lit(s, "content_filtered") || is_lit(s, "safety")
            || is_lit(s, "refusal") {
            FinishReason::ContentFilter
        } else if is_lit(s, "tool_calls") || is_lit(s, "tool_use") || is_lit(s, "function_call") {
            FinishReason::ToolCalls
        } else {
            FinishReason::Other(l)
        }
    }

    /// Stable string for storage / IPC bridges.
    pub fn as_str(&self) -> (s: &str)
        ensures
            s@ == finish_name(self@),
    {
        match self {
            FinishReason::Stop => "stop",
            FinishReason::Length => "length",
            FinishReason::ContentFilter => "content_filter",
            FinishReason::ToolCalls => "tool_calls",
            FinishReason::Other(s) => s.as_str(),
        }
    }
}

/// Token accounting reported by a provider.
#[derive(Debug, Clone, Copy, PartialEq, Eq, Default, Structural)]
pub struct TokenUsage {
    pub prompt_tokens: Option<u32>,
    pub completion_tokens: Option<u32>,
    pub total_tokens: Option<u32>,
    pub reasoning_tokens: Option<u32>,
    pub cached_tokens: Option<u32>,
}

/// Adapter capability flags (must match real encode/decode support).
#[derive(Debug, Clone, Copy, PartialEq, Eq, Default, Structural)]
pub struct ProtocolCapabilities {
    pub streaming: bool,
    pub list_models: bool,
    pub reasoning_output: bool,
    pub reasoning_control: bool,
    pub tools: bool,
    pub vision_input: bool,
    pub stream_usage: bool,
    pub custom_headers: bool,
    pub api_key_query: bool,
}

impl ProtocolCapabilities {
    /// Conservative baseline: streaming, model listing and read-side reasoning.
    pub fn v1_text_baseline() -> (c: Self)
        ensures
            c == (ProtocolCapabilities {
                streaming: true,
                list_models: true,
                reasoning_output: true,
                reasoning_control: false,
                tools: false,
                vision_input: false,
                stream_usage: false,
                custom_headers: false,
                api_key_query: false,
            }),
    {
        ProtocolCapabilities {
            streaming: true,
            list_models: true,
            reasoning_output: true,
            reasoning_control: false,
            tools: false,
            vision_input: false,
            stream_usage: false,
            custom_headers: false,
            api_key_query: false,
        }
    }
}

/// One event of a chat stream.
#[derive(Debug, Clone, PartialEq, Eq)]
pub enum StreamEvent {
    ReasoningDelta { text: String },
    ContentDelta { text: String },
    ToolCallDelta {
        id: Option<String>,
        name: Option<String>,
        arguments_delta: String,
        index: Option<u32>,
    },
    ToolCallFinished { id: String, name: String, arguments: String, index: Option<u32> },
    Usage(TokenUsage),
    Completed { finish_reason: FinishReason },
}

/// The mathematical content of a stream event.
pub enum EventV {
    Reasoning(Seq<char>),
    Content(Seq<char>),
    ToolDelta { id: Option<Seq<char>>, name: Option<Seq<char>>, delta: Seq<char>, index: Option<u32> },
    ToolFinished { id: Seq<char>, name: Seq<char>, arguments: Seq<char>, index: Option<u32> },
    Usage(TokenUsage),
    Completed(FinishView),
}

impl View for StreamEvent {
    type V = EventV;

    open spec fn view(&self) -> EventV {
        match self {
            StreamEvent::ReasoningDelta { text } => EventV::Reasoning(text@),
            StreamEvent::ContentDelta { text } => EventV::Content(text@),
            StreamEvent::ToolCallDelta { id, name, arguments_delta, index } => EventV::ToolDelta {
                id: id.deep_view(),
                name: name.deep_view(),
                delta: arguments_delta@,
                index: *index,
            },
            StreamEvent::ToolCallFinished { id, name, arguments, index } => EventV::ToolFinished {
                id: id@,
                name: name@,
                arguments: arguments@,
                index: *index,
            },
            StreamEvent::Usage(u) => EventV::Usage(*u),
            StreamEvent::Completed { finish_reason } => EventV::Completed(finish_reason@),
        }
    }
}

fn clone_opt_string(s: &Option<String>) -> (r: Option<String>)
    ensures
        r.deep_view() == s.deep_view(),
{
    match s {
        Some(x) => Some(owned(x.as_str())),
        None => None,
    }
}

impl FinishReason {
    /// A copy of the reason.
    pub fn clone_reason(&self) -> (r: FinishReason)
        ensures
            r@ == self@,
    {
        match self {
            FinishReason::Stop => FinishReason::Stop,
            FinishReason::Length => FinishReason::Length,
            FinishReason::ContentFilter => FinishReason::ContentFilter,
            FinishReason::ToolCalls => FinishReason::ToolCalls,
            FinishReason::Other(s) => FinishReason::Other(owned(s.as_str())),
        }
    }
}

impl StreamEvent {
    /// A copy of the event.
    pub fn clone_event(&self) -> (r: StreamEvent)
        ensures
            r@ == self@,
    {
        match self {
            StreamEvent::ReasoningDelta { text } => StreamEvent::ReasoningDelta { text: owned(text.as_str()) },
            StreamEvent::ContentDelta { text } => StreamEvent::ContentDelta { text: owned(text.as_str()) },
            StreamEvent::ToolCallDelta { id, name, arguments_delta, index } => StreamEvent::ToolCallDelta {
                id: clone_opt_string(id),
                name: clone_opt_string(name),
                arguments_delta: owned(arguments_delta.as_str()),
                index: *index,
            },
            StreamEvent::ToolCallFinished { id, name, arguments, index } => StreamEvent::ToolCallFinished {
                id: owned(id.as_str()),
                name: owned(name.as_str()),
                arguments: owned(arguments.as_str()),
                index: *index,
            },
            StreamEvent::Usage(u) => StreamEvent::Usage(*u),
            StreamEvent::Completed { finish_reason } => StreamEvent::Completed {
                finish_reason: finish_reason.clone_reason(),
            },
        }
    }

    /// Whether this is the completion event.
    pub fn is_completed(&self) -> (b: bool)
        ensures
            b == (self@ is Completed),
    {
        match self {
            StreamEvent::Completed { .. } => true,
            _ => false,
        }
    }
}

/// The views of some events, in order.
pub open spec fn events_v(v: Seq<StreamEvent>) -> Seq<EventV> {
    v.map_values(|e: StreamEvent| e@)
}


/// Each role has its own wire name, the one the chat APIs use (`system`, `user`,
/// `assistant`, `tool`): two different roles never share one.
pub proof fn law_role_names_distinct(a: ChatRole, b: ChatRole)
    ensures
        a != b ==> role_name(a) != role_name(b),
        role_name(ChatRole::User) == "user"@ && role_name(ChatRole::Assistant) == "assistant"@
            && role_name(ChatRole::System) == "system"@ && role_name(ChatRole::Tool) == "tool"@,
{
    reveal_strlit("system");
    reveal_strlit("user");
    reveal_strlit("assistant");
    reveal_strlit("tool");
    assert("system"@.len() == 6 && "user"@.len() == 4 && "assistant"@.len() == 9 && "tool"@.len() == 4);
    assert("user"@[0] != "tool"@[0]);
}

} // verus!
