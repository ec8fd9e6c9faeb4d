//! Stored messages and image attachments, and the chat context built from a session.
//!
//! Ids are UUIDs as `u128`; times are Unix timestamps in nanoseconds, read by the caller.

use vstd::prelude::*;

use base64::Engine;

use crate::app_error::{plain_app_error, AppError, MessageErrorRecord, StorageError};
use crate::chat_request::{is_storage_validation, storage_check_is};
use crate::files::{parse_uuid, uuid_parse};
use crate::generation::{AssistantStatus, StoredToolCall, TokenUsageRecord};
use crate::session_meta::SessionMeta;
use crate::stored::{char_len, SCHEMA_VERSION};
use crate::text::{ascii_lower, chars_of, is_blank_str, lower_str, owned, push_str, str_eq, string_of_range, trim, trim_str};
use crate::types::{ChatMessage, ChatRole, ContentPart, MAX_INLINE_IMAGE_BYTES};

verus! {

/// Longest user message, in characters (after trimming).
pub const MAX_USER_CONTENT_CHARS: usize = 200_000;

/// Largest attachment, in bytes (the inline image limit).
pub const MAX_ATTACHMENT_BYTES: u64 = 4194304;

/// Who wrote a message.
#[derive(Debug, Clone, Copy, PartialEq, Eq, Structural)]
pub enum MessageRole {
    User,
    Assistant,
}

/// The provider an assistant message came from.
#[derive(Debug, Clone)]
pub struct ProviderSnapshot {
    pub id: u128,
    pub name: String,
}

/// The model an assistant message came from.
#[derive(Debug, Clone)]
pub struct ModelSnapshot {
    pub id: String,
    pub display_name: String,
}

/// An image attached to a message (the bytes live in the attachment store).
#[derive(Debug, Clone)]
pub struct MessageAttachmentRef {
    pub attachment_id: u128,
    pub media_type: Option<String>,
}

/// A message of a session.
pub struct MessageRecord {
    pub schema_version: u32,
    pub id: u128,
    pub session_id: u128,
    pub sequence: u64,
    pub role: MessageRole,
    pub content: String,
    pub reasoning: Option<String>,
    pub status: Option<AssistantStatus>,
    pub request_id: Option<u128>,
    pub provider: Option<ProviderSnapshot>,
    pub model: Option<ModelSnapshot>,
    pub usage: Option<TokenUsageRecord>,
    pub finish_reason: Option<String>,
    pub tool_calls: Vec<StoredToolCall>,
    pub attachments: Vec<MessageAttachmentRef>,
    pub error: Option<MessageErrorRecord>,
    pub created_by_device_id: u128,
    pub created_at: i128,
    pub completed_at: Option<i128>,
}

/// Why a user message is refused: nothing to send, or more than 200000 characters.
pub open spec fn user_message_error(content: Seq<char>, n_attachments: nat) -> Option<Seq<char>> {
    if trim(content).len() == 0 && n_attachments == 0 {
        Some("用户消息不能为空"@)
    } else if trim(content).len() > MAX_USER_CONTENT_CHARS {
        Some("用户消息最长 200000 个字符"@)
    } else {
        None
    }
}

impl MessageRecord {
    /// A user message with its attachments: the content trimmed, and not empty unless
    /// there are attachments.
    pub fn new_user_with_attachments(
        session_id: u128,
        sequence: u64,
        content: String,
        attachments: Vec<MessageAttachmentRef>,
        device_id: u128,
        id: u128,
        now: i128,
    ) -> (r: Result<Self, StorageError>)
        ensures
            match user_message_error(content@, attachments@.len()) {
                Some(m) => r matches Err(e) && is_storage_validation(e, m),
                None => r matches Ok(msg) && {
                    &&& msg.schema_version == SCHEMA_VERSION
                    &&& msg.id == id
                    &&& msg.session_id == session_id
                    &&& msg.sequence == sequence
                    &&& msg.role == MessageRole::User
                    &&& msg.content@ == trim(content@)
                    &&& msg.reasoning is None
                    &&& msg.status is None
                    &&& msg.request_id is None
                    &&& msg.provider is None
                    &&& msg.model is None
                    &&& msg.usage is None
                    &&& msg.finish_reason is None
                    &&& msg.tool_calls@.len() == 0
                    &&& msg.attachments == attachments
                    &&& msg.error is None
                    &&& msg.created_by_device_id == device_id
                    &&& msg.created_at == now
                    &&& msg.completed_at is None
                },
            },
    {
        let trimmed = trim_str(content.as_str());
        if trimmed.as_str().is_empty() && attachments.len() == 0 {
            return Err(StorageError::validation(owned("用户消息不能为空")));
        }
        if char_len(trimmed.as_str()) > MAX_USER_CONTENT_CHARS {
            return Err(StorageError::validation(owned("用户消息最长 200000 个字符")));
        }
        Ok(MessageRecord {
            schema_version: SCHEMA_VERSION,
            id,
            session_id,
            sequence,
            role: MessageRole::User,
            content: trimmed,
            reasoning: None,
            status: None,
            request_id: None,
            provider: None,
            model: None,
            usage: None,
            finish_reason: None,
            tool_calls: Vec::new(),
            attachments,
            error: None,
            created_by_device_id: device_id,
            created_at: now,
            completed_at: None,
        })
    }

    /// A user message without attachments.
    pub fn new_user(session_id: u128, sequence: u64, content: String, device_id: u128, id: u128, now: i128) -> (r:
        Result<Self, StorageError>)
        ensures
            match user_message_error(content@, 0) {
                Some(m) => r matches Err(e) && is_storage_validation(e, m),
                None => r matches Ok(msg) && msg.role == MessageRole::User && msg.content@ == trim(
                    content@,
                ) && msg.attachments@.len() == 0 && msg.id == id && msg.session_id == session_id
                    && msg.sequence == sequence,
            },
    {
        Self::new_user_with_attachments(session_id, sequence, content, Vec::new(), device_id, id, now)
    }

    /// An assistant message as a generation ended: completed at `now`.
    pub fn new_assistant(
        session_id: u128,
        sequence: u64,
        content: String,
        reasoning: Option<String>,
        status: AssistantStatus,
        request_id: u128,
        provider: ProviderSnapshot,
        model: ModelSnapshot,
        usage: Option<TokenUsageRecord>,
        finish_reason: Option<String>,
        tool_calls: Vec<StoredToolCall>,
        error: Option<MessageErrorRecord>,
        device_id: u128,
        id: u128,
        now: i128,
    ) -> (m: Self)
        ensures
            m.schema_version == SCHEMA_VERSION,
            m.id == id,
            m.session_id == session_id,
            m.sequence == sequence,
            m.role == MessageRole::Assistant,
            m.content == content,
            m.reasoning == reasoning,
            m.status == Some(status),
            m.request_id == Some(request_id),
            m.provider == Some(provider),
            m.model == Some(model),
            m.usage == usage,
            m.finish_reason == finish_reason,
            m.tool_calls == tool_calls,
            m.attachments@.len() == 0,
            m.error == error,
            m.created_by_device_id == device_id,
            m.created_at == now,
            m.completed_at == Some(now),
    {
        MessageRecord {
            schema_version: SCHEMA_VERSION,
            id,
            session_id,
            sequence,
            role: MessageRole::Assistant,
            content,
            reasoning,
            status: Some(status),
            request_id: Some(request_id),
            provider: Some(provider),
            model: Some(model),
            usage,
            finish_reason,
            tool_calls,
            attachments: Vec::new(),
            error,
            created_by_device_id: device_id,
            created_at: now,
            completed_at: Some(now),
        }
    }

    /// The same message with another id.
    pub fn with_id(self, id: u128) -> (m: Self)
        ensures
            m == (MessageRecord { id, ..self }),
    {
        let mut m = self;
        m.id = id;
        m
    }
}

// ---------------------------------------------------------------------------
// Attachments
// ---------------------------------------------------------------------------

/// The stored form of an accepted image type: trimmed, lower case, `image/jpg` as
/// `image/jpeg`; only PNG, JPEG, WebP and GIF are accepted.
pub open spec fn media_type_outcome(raw: Seq<char>) -> Result<Seq<char>, Seq<char>> {
    let l = ascii_lower(trim(raw));
    let mt = if l == "image/jpg"@ {
        "image/jpeg"@
    } else {
        l
    };
    if mt == "image/png"@ || mt == "image/jpeg"@ || mt == "image/webp"@ || mt == "image/gif"@ {
        Ok(mt)
    } else {
        Err("不支持的图片类型: "@ + raw + "（允许 png/jpeg/webp/gif）"@)
    }
}

/// Normalize and check an image's media type.
pub fn normalize_media_type(raw: &str) -> (r: Result<String, StorageError>)
    ensures
        match media_type_outcome(raw@) {
            Ok(m) => r matches Ok(s) && s@ == m,
            Err(m) => r matches Err(e) && is_storage_validation(e, m),
        },
{
    let l = lower_str(trim_str(raw).as_str());
    let mt = if str_eq(l.as_str(), "image/jpg") {
        owned("image/jpeg")
    } else {
        l
    };
    let s = mt.as_str();
    if str_eq(s, "image/png") || str_eq(s, "image/jpeg") || str_eq(s, "image/webp") || str_eq(
        s,
        "image/gif",
    ) {
        return Ok(mt);
    }
    let mut m = owned("不支持的图片类型: ");
    push_str(&mut m, raw);
    push_str(&mut m, "（允许 png/jpeg/webp/gif）");
    Err(StorageError::validation(m))
}

/// What `check_import` gives: the stored media type, or why the image is refused (bad
/// type, empty, over 4 MiB).
pub open spec fn import_outcome(byte_len: nat, media_type: Seq<char>) -> Result<Seq<char>, Seq<char>> {
    match media_type_outcome(media_type) {
        Err(m) => Err(m),
        Ok(mt) => if byte_len == 0 {
            Err("图片内容不能为空"@)
        } else if byte_len > MAX_ATTACHMENT_BYTES {
            Err("图片超过大小上限 4194304 字节"@)
        } else {
            Ok(mt)
        },
    }
}

/// Check an image before it is stored; the stored media type on success.
pub fn check_import(byte_len: usize, media_type: &str) -> (r: Result<String, StorageError>)
    ensures
        match import_outcome(byte_len as nat, media_type@) {
            Ok(m) => r matches Ok(s) && s@ == m,
            Err(m) => r matches Err(e) && is_storage_validation(e, m),
        },
{
    let mt = match normalize_media_type(media_type) {
        Ok(m) => m,
        Err(e) => {
            return Err(e);
        },
    };
    if byte_len == 0 {
        return Err(StorageError::validation(owned("图片内容不能为空")));
    }
    if byte_len as u64 > MAX_ATTACHMENT_BYTES {
        return Err(StorageError::validation(owned("图片超过大小上限 4194304 字节")));
    }
    Ok(mt)
}

/// The stored original file name: trimmed, dropped when blank, at most 200 characters.
pub open spec fn stored_name(name: Option<Seq<char>>) -> Option<Seq<char>> {
    match name {
        Some(n) => if trim(n).len() == 0 {
            None
        } else if trim(n).len() > 200 {
            Some(trim(n).take(200))
        } else {
            Some(trim(n))
        },
        None => None,
    }
}

/// The original file name as stored with an attachment.
pub fn normalize_original_name(name: Option<String>) -> (r: Option<String>)
    ensures
        crate::wire::opt_seq(r) == stored_name(crate::wire::opt_seq(name)),
{
    match name {
        Some(n) => {
            let t = trim_str(n.as_str());
            let v = chars_of(t.as_str());
            if v.len() == 0 {
                None
            } else if v.len() > 200 {
                Some(string_of_range(v.as_slice(), 0, 200))
            } else {
                Some(t)
            }
        },
        None => None,
    }
}

/// An attachment read back for a request: its stored media type and bytes.
pub struct LoadedAttachment {
    pub id: u128,
    pub media_type: String,
    pub bytes: Vec<u8>,
}

/// The character of a six-bit value in the standard base64 alphabet: `A`–`Z`, `a`–`z`,
/// `0`–`9`, `+`, `/`.
pub open spec fn b64_char(n: int) -> char {
    if n < 26 {
        (65 + n) as char
    } else if n < 52 {
        (97 + (n - 26)) as char
    } else if n < 62 {
        (48 + (n - 52)) as char
    } else if n == 62 {
        '+'
    } else {
        '/'
    }
}

/// Standard base64 with `=` padding: each three bytes become four characters; a last
/// group of one or two bytes becomes two or three characters and the padding.
pub open spec fn base64_standard(b: Seq<u8>) -> Seq<char>
    decreases b.len(),
{
    if b.len() == 0 {
        seq![]
    } else {
        let x = b[0] as int;
        let y = if b.len() > 1 { b[1] as int } else { 0 };
        let z = if b.len() > 2 { b[2] as int } else { 0 };
        let c0 = b64_char(x / 4);
        let c1 = b64_char((x % 4) * 16 + y / 16);
        let c2 = b64_char((y % 16) * 4 + z / 64);
        let c3 = b64_char(z % 64);
        if b.len() == 1 {
            seq![c0, c1, '=', '=']
        } else if b.len() == 2 {
            seq![c0, c1, c2, '=']
        } else {
            seq![c0, c1, c2, c3] + base64_standard(b.skip(3))
        }
    }
}

/// `STANDARD.encode` (`base64::engine::general_purpose`): the bytes in standard base64
/// with padding, as `base64_standard` spells it out. (The call panics only when the
/// encoded length overflows `usize`, which no slice in memory reaches.)
#[verifier::external_body]
fn base64_encode(bytes: &[u8]) -> (s: String)
    ensures
        s@ == base64_standard(bytes@),
{
    base64::engine::general_purpose::STANDARD.encode(bytes)
}

/// The image part for an attachment: the message's media type when it names one, else
/// the stored one; the bytes as base64.
pub open spec fn image_part_of(r: MessageAttachmentRef, a: LoadedAttachment) -> (Seq<char>, Seq<char>) {
    let mt = match r.media_type {
        Some(m) => if trim(m@).len() > 0 {
            m@
        } else {
            a.media_type@
        },
        None => a.media_type@,
    };
    (mt, base64_standard(a.bytes@))
}

/// The image part sent for an attachment.
pub fn attachment_to_image_part(reference: &MessageAttachmentRef, loaded: &LoadedAttachment) -> (p:
    ContentPart)
    ensures
        p matches ContentPart::ImageBase64 { media_type, data } && (media_type@, data@) == image_part_of(
            *reference,
            *loaded,
        ),
{
    let media_type = match &reference.media_type {
        Some(m) => if !is_blank_str(m.as_str()) {
            owned(m.as_str())
        } else {
            owned(loaded.media_type.as_str())
        },
        None => owned(loaded.media_type.as_str()),
    };
    ContentPart::ImageBase64 { media_type, data: base64_encode(loaded.bytes.as_slice()) }
}

// ---------------------------------------------------------------------------
// Chat context
// ---------------------------------------------------------------------------

/// A content part as the contracts see it: text `(true, text, [])`, or an inline image
/// `(false, media type, base64)`.
pub type PartV = (bool, Seq<char>, Seq<char>);

/// The view of a content part.
pub open spec fn part_v(p: ContentPart) -> PartV {
    match p {
        ContentPart::Text { text } => (true, text@, seq![]),
        ContentPart::ImageBase64 { media_type, data } => (false, media_type@, data@),
        ContentPart::ImageUrl { url, .. } => (false, url@, seq![]),
    }
}

/// The views of content parts.
pub open spec fn parts_v(ps: Seq<ContentPart>) -> Seq<PartV> {
    ps.map_values(|p: ContentPart| part_v(p))
}

/// A plain chat message (no tool calls) with `role` and parts `parts`.
pub open spec fn chat_is(m: ChatMessage, role: ChatRole, parts: Seq<PartV>) -> bool {
    &&& m.role == role
    &&& parts_v(m.parts@) == parts
    &&& m.tool_call_id is None
    &&& m.tool_calls@.len() == 0
}

/// The index of the loaded attachment with `id`.
pub open spec fn loaded_index(ls: Seq<LoadedAttachment>, id: u128) -> Option<int>
    decreases ls.len(),
{
    if ls.len() == 0 {
        None
    } else if ls[0].id == id {
        Some(0)
    } else {
        match loaded_index(ls.drop_first(), id) {
            Some(i) => Some(i + 1),
            None => None,
        }
    }
}

proof fn lemma_loaded_index(ls: Seq<LoadedAttachment>, id: u128, i: int)
    requires
        0 <= i < ls.len(),
        ls[i].id == id,
        forall|j: int| 0 <= j < i ==> ls[j].id != id,
    ensures
        loaded_index(ls, id) == Some(i),
    decreases i,
{
    if i > 0 {
        assert forall|j: int| 0 <= j < i - 1 implies ls.drop_first()[j].id != id by {
            assert(ls.drop_first()[j] == ls[j + 1]);
        }
        lemma_loaded_index(ls.drop_first(), id, i - 1);
    }
}

proof fn lemma_loaded_none(ls: Seq<LoadedAttachment>, id: u128)
    requires
        forall|j: int| 0 <= j < ls.len() ==> ls[j].id != id,
    ensures
        loaded_index(ls, id) is None,
    decreases ls.len(),
{
    if ls.len() > 0 {
        assert forall|j: int| 0 <= j < ls.len() - 1 implies ls.drop_first()[j].id != id by {
            assert(ls.drop_first()[j] == ls[j + 1]);
        }
        lemma_loaded_none(ls.drop_first(), id);
    }
}

fn find_loaded(ls: &Vec<LoadedAttachment>, id: u128) -> (r: Option<usize>)
    ensures
        match loaded_index(ls@, id) {
            Some(i) => r matches Some(x) && x == i && x < ls@.len(),
            None => r is None,
        },
{
    let mut i: usize = 0;
    while i < ls.len()
        invariant
            0 <= i <= ls@.len(),
            forall|j: int| 0 <= j < i ==> ls@[j].id != id,
        decreases ls.len() - i,
    {
        if ls[i].id == id {
            proof {
                lemma_loaded_index(ls@, id, i as int);
            }
            return Some(i);
        }
        i = i + 1;
    }
    proof {
        lemma_loaded_none(ls@, id);
    }
    None
}

/// The image parts of the first `n` attachments, or the first attachment not loaded.
pub open spec fn image_parts(refs: Seq<MessageAttachmentRef>, ls: Seq<LoadedAttachment>, n: int) -> Result<
    Seq<PartV>,
    u128,
>
    decreases n,
{
    if n <= 0 {
        Ok(seq![])
    } else {
        match image_parts(refs, ls, n - 1) {
            Err(id) => Err(id),
            Ok(ps) => match loaded_index(ls, refs[n - 1].attachment_id) {
                None => Err(refs[n - 1].attachment_id),
                Some(k) => {
                    let (mt, data) = image_part_of(refs[n - 1], ls[k]);
                    Ok(ps.push((false, mt, data)))
                },
            },
        }
    }
}

/// The parts of a user message: its text alone when it has no attachments; else its
/// text (when not blank) followed by an inline image for each attachment.
pub open spec fn user_parts(m: MessageRecord, ls: Seq<LoadedAttachment>) -> Result<Seq<PartV>, u128> {
    if m.attachments@.len() == 0 {
        Ok(seq![(true, m.content@, seq![])])
    } else {
        let head: Seq<PartV> = if trim(m.content@).len() > 0 {
            seq![(true, m.content@, seq![])]
        } else {
            seq![]
        };
        match image_parts(m.attachments@, ls, m.attachments@.len() as int) {
            Err(id) => Err(id),
            Ok(ps) => Ok(head + ps),
        }
    }
}

proof fn lemma_image_parts_stable(refs: Seq<MessageAttachmentRef>, ls: Seq<LoadedAttachment>, k: int, n: int)
    requires
        0 <= k <= n,
        image_parts(refs, ls, k) is Err,
    ensures
        image_parts(refs, ls, n) == image_parts(refs, ls, k),
    decreases n - k,
{
    if n > k {
        lemma_image_parts_stable(refs, ls, k, n - 1);
    }
}

/// The error for an attachment that could not be read.
pub open spec fn missing_attachment(id: u128) -> Seq<char> {
    "附件不存在: "@ + crate::settings_doc::uuid_text(id)
}

/// The chat message for a stored user message.
pub fn user_message_to_chat(message: &MessageRecord, loaded: &Vec<LoadedAttachment>) -> (r: Result<
    ChatMessage,
    AppError,
>)
    ensures
        match user_parts(*message, loaded@) {
            Ok(ps) => r matches Ok(m) && chat_is(m, ChatRole::User, ps),
            Err(id) => r matches Err(e) && plain_app_error(e, "not_found"@, missing_attachment(id), false),
        },
{
    if message.attachments.len() == 0 {
        let m = ChatMessage::text(ChatRole::User, message.content.as_str());
        assert(parts_v(m.parts@) =~= seq![(true, message.content@, Seq::<char>::empty())]);
        return Ok(m);
    }
    let mut parts: Vec<ContentPart> = Vec::new();
    let ghost head: Seq<PartV> = if trim(message.content@).len() > 0 {
        seq![(true, message.content@, seq![])]
    } else {
        seq![]
    };
    if !is_blank_str(message.content.as_str()) {
        parts.push(ContentPart::Text { text: owned(message.content.as_str()) });
    }
    assert(parts_v(parts@) =~= head);
    let mut i: usize = 0;
    while i < message.attachments.len()
        invariant
            0 <= i <= message.attachments@.len(),
            image_parts(message.attachments@, loaded@, i as int) matches Ok(ps) && parts_v(parts@)
                == head + ps,
        decreases message.attachments.len() - i,
    {
        let reference = &message.attachments[i];
        let k = match find_loaded(loaded, reference.attachment_id) {
            Some(k) => k,
            None => {
                proof {
                    lemma_image_parts_stable(
                        message.attachments@,
                        loaded@,
                        i + 1,
                        message.attachments@.len() as int,
                    );
                }
                let mut m = owned("附件不存在: ");
                push_str(&mut m, crate::settings_doc::uuid_string_of(reference.attachment_id).as_str());
                return Err(AppError::new("not_found", m, false));
            },
        };
        let part = attachment_to_image_part(reference, &loaded[k]);
        let ghost before = parts@;
        parts.push(part);
        proof {
            assert(parts_v(parts@) =~= parts_v(before).push(part_v(part)));
        }
        i = i + 1;
    }
    Ok(ChatMessage { role: ChatRole::User, parts, tool_call_id: None, tool_calls: Vec::new() })
}

/// An assistant message goes back to the model when it completed or was stopped and
/// has non-blank content.
pub open spec fn assistant_included(m: MessageRecord) -> bool {
    (m.status == Some(AssistantStatus::Completed) || m.status == Some(AssistantStatus::Stopped)) && trim(
        m.content@,
    ).len() > 0
}

/// The context of the first `n` messages: each user message, each included assistant
/// message as text; or the first attachment not loaded.
pub open spec fn history_context(ms: Seq<MessageRecord>, ls: Seq<LoadedAttachment>, n: int) -> Result<
    Seq<(ChatRole, Seq<PartV>)>,
    u128,
>
    decreases n,
{
    if n <= 0 {
        Ok(seq![])
    } else {
        match history_context(ms, ls, n - 1) {
            Err(id) => Err(id),
            Ok(c) => {
                let m = ms[n - 1];
                if m.role == MessageRole::User {
                    match user_parts(m, ls) {
                        Err(id) => Err(id),
                        Ok(ps) => Ok(c.push((ChatRole::User, ps))),
                    }
                } else if assistant_included(m) {
                    Ok(c.push((ChatRole::Assistant, seq![(true, m.content@, seq![])])))
                } else {
                    Ok(c)
                }
            },
        }
    }
}

/// The chat messages a session sends: the trimmed system prompt (when not blank), then
/// the history. A deleted session has no context.
pub open spec fn context_outcome(meta: SessionMeta, ms: Seq<MessageRecord>, ls: Seq<LoadedAttachment>) -> Result<
    Seq<(ChatRole, Seq<PartV>)>,
    Seq<char>,
> {
    if meta.deleted_at is Some {
        Err("会话已删除"@)
    } else {
        let sys: Seq<(ChatRole, Seq<PartV>)> = if trim(meta.system_prompt@).len() > 0 {
            seq![(ChatRole::System, seq![(true, trim(meta.system_prompt@), seq![])])]
        } else {
            seq![]
        };
        match history_context(ms, ls, ms.len() as int) {
            Err(id) => Err(missing_attachment(id)),
            Ok(c) => Ok(sys + c),
        }
    }
}

/// The views of chat messages.
pub open spec fn chats_v(v: Seq<ChatMessage>) -> Seq<(ChatRole, Seq<PartV>)> {
    v.map_values(|m: ChatMessage| (m.role, parts_v(m.parts@)))
}

/// No message carries tool calls.
pub open spec fn plain_chats(v: Seq<ChatMessage>) -> bool {
    forall|i: int| 0 <= i < v.len() ==> (#[trigger] v[i]).tool_call_id is None && v[i].tool_calls@.len() == 0
}

proof fn lemma_history_stable(ms: Seq<MessageRecord>, ls: Seq<LoadedAttachment>, k: int, n: int)
    requires
        0 <= k <= n,
        history_context(ms, ls, k) is Err,
    ensures
        history_context(ms, ls, n) == history_context(ms, ls, k),
    decreases n - k,
{
    if n > k {
        lemma_history_stable(ms, ls, k, n - 1);
    }
}

/// The chat messages for the next request of a session, from its metadata, its stored
/// messages and their attachments (read beforehand).
pub fn build_context(meta: &SessionMeta, messages: &Vec<MessageRecord>, loaded: &Vec<LoadedAttachment>) -> (r:
    Result<Vec<ChatMessage>, AppError>)
    ensures
        match context_outcome(*meta, messages@, loaded@) {
            Ok(c) => r matches Ok(v) && chats_v(v@) == c && plain_chats(v@),
            Err(m) => r matches Err(e) && plain_app_error(
                e,
                "not_found"@,
                m,
                false,
            ),
        },
{
    if meta.deleted_at.is_some() {
        return Err(AppError::new("not_found", owned("会话已删除"), false));
    }
    let mut context: Vec<ChatMessage> = Vec::new();
    if !is_blank_str(meta.system_prompt.as_str()) {
        let sp = trim_str(meta.system_prompt.as_str());
        let m = ChatMessage::text(ChatRole::System, sp.as_str());
        context.push(m);
    }
    let ghost sys = chats_v(context@);
    assert(sys == (if trim(meta.system_prompt@).len() > 0 {
        seq![(ChatRole::System, seq![(true, trim(meta.system_prompt@), Seq::<char>::empty())])]
    } else {
        Seq::<(ChatRole, Seq<PartV>)>::empty()
    })) by {
        if trim(meta.system_prompt@).len() > 0 {
            assert(parts_v(context@[0].parts@) =~= seq![(true, trim(meta.system_prompt@), Seq::<char>::empty())]);
        }
    }
    let mut i: usize = 0;
    while i < messages.len()
        invariant
            0 <= i <= messages@.len(),
            history_context(messages@, loaded@, i as int) matches Ok(c) && chats_v(context@) == sys + c,
            plain_chats(context@),
            meta.deleted_at is None,
            sys == (if trim(meta.system_prompt@).len() > 0 {
                seq![(ChatRole::System, seq![(true, trim(meta.system_prompt@), Seq::<char>::empty())])]
            } else {
                Seq::<(ChatRole, Seq<PartV>)>::empty()
            }),
        decreases messages.len() - i,
    {
        let message = &messages[i];
        let ghost before = context@;
        match message.role {
            MessageRole::User => {
                let m = match user_message_to_chat(message, loaded) {
                    Ok(m) => m,
                    Err(e) => {
                        proof {
                            assert(messages@[i as int] == *message);
                            assert(user_parts(*message, loaded@) is Err);
                            assert(history_context(messages@, loaded@, i + 1) == Err::<
                                Seq<(ChatRole, Seq<PartV>)>,
                                u128,
                            >(user_parts(*message, loaded@)->Err_0));
                            lemma_history_stable(messages@, loaded@, i + 1, messages@.len() as int);
                        }
                        return Err(e);
                    },
                };
                context.push(m);
                assert(chats_v(context@) =~= chats_v(before).push((m.role, parts_v(m.parts@))));
            },
            MessageRole::Assistant => {
                let included = match message.status {
                    Some(AssistantStatus::Completed) | Some(AssistantStatus::Stopped) => true,
                    _ => false,
                } && !is_blank_str(message.content.as_str());
                if included {
                    let m = ChatMessage::text(ChatRole::Assistant, message.content.as_str());
                    context.push(m);
                    assert(parts_v(m.parts@) =~= seq![(true, message.content@, Seq::<char>::empty())]);
                    assert(chats_v(context@) =~= chats_v(before).push((m.role, parts_v(m.parts@))));
                }
            },
        }
        i = i + 1;
    }
    Ok(context)
}

// ---------------------------------------------------------------------------
// Attachments named by a chat request
// ---------------------------------------------------------------------------

/// An attachment that a chat request names: the id the import gave, and optionally the
/// media type to send it with.
#[derive(Debug, Clone)]
pub struct ChatAttachmentInput {
    pub id: String,
    pub media_type: Option<String>,
}

/// Most images one message may carry.
pub const MAX_ATTACHMENTS_PER_MESSAGE: usize = 8;

/// Refuse more than eight attachments on one message.
pub fn check_attachment_count(n: usize) -> (r: Result<(), AppError>)
    ensures
        n <= MAX_ATTACHMENTS_PER_MESSAGE ==> r is Ok,
        n > MAX_ATTACHMENTS_PER_MESSAGE ==> (r matches Err(e) && plain_app_error(
            e,
            "validation"@,
            "单次最多附带 8 张图片"@,
            false,
        )),
{
    if n > MAX_ATTACHMENTS_PER_MESSAGE {
        return Err(AppError::validation(owned("单次最多附带 8 张图片")));
    }
    Ok(())
}

/// Read an attachment id sent by the window: the UUID in the trimmed text, or a
/// validation error that quotes the text as sent.
pub fn parse_attachment_id(text: &str) -> (r: Result<u128, AppError>)
    ensures
        match uuid_parse(trim(text@)) {
            Some(id) => r == Ok::<u128, AppError>(id),
            None => r matches Err(e) && plain_app_error(e, "validation"@, "无效的 attachment id: "@ + text@, false),
        },
{
    let t = trim_str(text);
    match parse_uuid(t.as_str()) {
        Some(id) => Ok(id),
        None => {
            let mut m = owned("无效的 attachment id: ");
            push_str(&mut m, text);
            Err(AppError::validation(m))
        },
    }
}

/// The media type an attachment is sent with: the one the window gave, trimmed, unless
/// it is blank; otherwise the one stored with the attachment.
pub open spec fn ref_media_type(requested: Option<Seq<char>>, stored: Seq<char>) -> Seq<char> {
    match requested {
        Some(m) => if trim(m).len() > 0 {
            trim(m)
        } else {
            stored
        },
        None => stored,
    }
}

/// The reference a message keeps to the attachment `input` names, once its id has been
/// read and its stored media type looked up.
pub fn attachment_ref(id: u128, input: &ChatAttachmentInput, stored_media_type: &str) -> (r:
    MessageAttachmentRef)
    ensures
        r.attachment_id == id,
        r.media_type matches Some(m) && m@ == ref_media_type(
            crate::wire::opt_seq(input.media_type),
            stored_media_type@,
        ),
{
    let media = match &input.media_type {
        Some(m) => {
            let t = trim_str(m.as_str());
            if t.as_str().is_empty() {
                owned(stored_media_type)
            } else {
                t
            }
        },
        None => owned(stored_media_type),
    };
    MessageAttachmentRef { attachment_id: id, media_type: Some(media) }
}

/// Refuse a chat message with neither text (after trimming) nor attachments.
pub fn check_message_content(content: &str, n_attachments: usize) -> (r: Result<(), AppError>)
    ensures
        trim(content@).len() == 0 && n_attachments == 0 ==> (r matches Err(e) && plain_app_error(
            e,
            "validation"@,
            "消息内容不能为空"@,
            false,
        )),
        !(trim(content@).len() == 0 && n_attachments == 0) ==> r is Ok,
{
    if is_blank_str(content) && n_attachments == 0 {
        return Err(AppError::validation(owned("消息内容不能为空")));
    }
    Ok(())
}


/// One stored message's effect on the context built from the messages before it: an
/// assistant reply that completed or was stopped, with non-blank content, is sent back as
/// an assistant text message; any other assistant message (failed, or without a status,
/// or blank) is left out; a user message without attachments is sent as its text.
pub proof fn law_context_message_step(ms: Seq<MessageRecord>, ls: Seq<LoadedAttachment>, n: int)
    requires
        0 < n <= ms.len(),
        history_context(ms, ls, n - 1) is Ok,
    ensures
        ({
            let c = history_context(ms, ls, n - 1)->Ok_0;
            let m = ms[n - 1];
            &&& m.role == MessageRole::Assistant && (m.status == Some(AssistantStatus::Completed)
                || m.status == Some(AssistantStatus::Stopped)) && trim(m.content@).len() > 0
                ==> history_context(ms, ls, n) == Ok::<Seq<(ChatRole, Seq<PartV>)>, u128>(
                c.push((ChatRole::Assistant, seq![(true, m.content@, Seq::<char>::empty())])),
            )
            &&& m.role == MessageRole::Assistant && (m.status == Some(AssistantStatus::Error)
                || m.status is None || trim(m.content@).len() == 0) ==> history_context(ms, ls, n)
                == Ok::<Seq<(ChatRole, Seq<PartV>)>, u128>(c)
            &&& m.role == MessageRole::User && m.attachments@.len() == 0 ==> history_context(ms, ls, n)
                == Ok::<Seq<(ChatRole, Seq<PartV>)>, u128>(
                c.push((ChatRole::User, seq![(true, m.content@, Seq::<char>::empty())])),
            )
        }),
{
}

proof fn lemma_history_prefix(ms: Seq<MessageRecord>, m: MessageRecord, ls: Seq<LoadedAttachment>, n: int)
    requires
        0 <= n <= ms.len(),
    ensures
        history_context(ms.push(m), ls, n) == history_context(ms, ls, n),
    decreases n,
{
    if n > 0 {
        lemma_history_prefix(ms, m, ls, n - 1);
        assert(ms.push(m)[n - 1] == ms[n - 1]);
    }
}

/// A reply the user stopped (or one that completed) stays in the conversation: storing
/// it after a session's messages adds it, as an assistant text message, to the end of the
/// context the session sends.
pub proof fn law_context_keeps_replies(
    meta: SessionMeta,
    ms: Seq<MessageRecord>,
    ls: Seq<LoadedAttachment>,
    m: MessageRecord,
)
    requires
        context_outcome(meta, ms, ls) is Ok,
        m.role == MessageRole::Assistant,
        m.status == Some(AssistantStatus::Completed) || m.status == Some(AssistantStatus::Stopped),
        trim(m.content@).len() > 0,
    ensures
        context_outcome(meta, ms.push(m), ls) == Ok::<Seq<(ChatRole, Seq<PartV>)>, Seq<char>>(
            context_outcome(meta, ms, ls)->Ok_0.push(
                (ChatRole::Assistant, seq![(true, m.content@, Seq::<char>::empty())]),
            ),
        ),
{
    let n = ms.len() as int;
    lemma_history_prefix(ms, m, ls, n);
    let more = ms.push(m);
    assert(more[n] == m);
    law_context_message_step(more, ls, n + 1);
    let sys: Seq<(ChatRole, Seq<PartV>)> = if trim(meta.system_prompt@).len() > 0 {
        seq![(ChatRole::System, seq![(true, trim(meta.system_prompt@), seq![])])]
    } else {
        seq![]
    };
    let c = history_context(ms, ls, n)->Ok_0;
    let e = (ChatRole::Assistant, seq![(true, m.content@, Seq::<char>::empty())]);
    assert(sys + c.push(e) =~= (sys + c).push(e));
}


/// The session's context opens with its system prompt: when the prompt is not blank,
/// the first message is a system message with the trimmed prompt; a deleted session has
/// no context.
pub proof fn law_context_system_prompt(meta: SessionMeta, ms: Seq<MessageRecord>, ls: Seq<LoadedAttachment>)
    ensures
        meta.deleted_at is Some ==> context_outcome(meta, ms, ls) is Err,
        meta.deleted_at is None && trim(meta.system_prompt@).len() > 0 && context_outcome(meta, ms, ls) is Ok
            ==> context_outcome(meta, ms, ls)->Ok_0.len() > 0 && context_outcome(meta, ms, ls)->Ok_0[0] == (
            ChatRole::System,
            seq![(true, trim(meta.system_prompt@), Seq::<char>::empty())],
        ),
{
}

} // verus!
