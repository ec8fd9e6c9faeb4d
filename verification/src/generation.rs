//! One assistant generation: the events sent to the window and what is stored.
//!
//! The caller runs the model stream and hands each outcome to [`Generation::on_item`];
//! the generation says which payload to send and when the stream is over, and
//! [`Generation::finish`] says how the message ends.

use vstd::prelude::*;

use crate::app_error::{from_protocol_error, plain_app_error, protocol_app_message, protocol_code, AppError, MessageErrorRecord};
use crate::error::ProtocolError;
use crate::pending::text_or_empty;
use crate::text::{ascii_lower, is_ws, owned, push_str, starts_with_chars, chars_of, str_eq, trim, trim_str};
use crate::finish::chat_completions_finish;
use crate::types::{finish_from_raw, normalized, EventV, FinishReason, FinishView, StreamEvent, TokenUsage};

verus! {

/// Token usage as a message stores it.
#[derive(Debug, Clone, Copy, PartialEq, Eq, Structural)]
pub struct TokenUsageRecord {
    pub prompt_tokens: Option<u32>,
    pub completion_tokens: Option<u32>,
    pub total_tokens: Option<u32>,
    pub reasoning_tokens: Option<u32>,
    pub cached_tokens: Option<u32>,
}

/// A tool call as a message stores it (for display; the application does not run it).
#[derive(Debug, Clone)]
pub struct StoredToolCall {
    pub id: String,
    pub name: String,
    pub arguments: String,
    pub index: Option<u32>,
}

/// The mathematical content of a stored tool call: `(id, name, arguments, index)`.
pub type ToolCallV = (Seq<char>, Seq<char>, Seq<char>, Option<u32>);

impl View for StoredToolCall {
    type V = ToolCallV;

    open spec fn view(&self) -> ToolCallV {
        (self.id@, self.name@, self.arguments@, self.index)
    }
}

/// The views of stored tool calls.
pub open spec fn calls_v(v: Seq<StoredToolCall>) -> Seq<ToolCallV> {
    v.map_values(|c: StoredToolCall| c@)
}

/// How an assistant message ended.
#[derive(Debug, Clone, Copy, PartialEq, Eq, Structural)]
pub enum AssistantStatus {
    Completed,
    Stopped,
    Error,
}

/// An event sent to the window while a generation runs.
#[derive(Debug, Clone)]
pub enum StreamEventPayload {
    Started,
    ReasoningDelta { text: String },
    ContentDelta { text: String },
    ToolCallDelta { id: Option<String>, name: Option<String>, arguments_delta: String, index: Option<u32> },
    ToolCallFinished { id: String, name: String, arguments: String, index: Option<u32> },
    Usage { usage: TokenUsageRecord },
    Completed { finish_reason: Option<String> },
    Stopped,
    Error { error: MessageErrorRecord },
}

/// The record of a provider's token usage.
pub open spec fn usage_record_of(u: TokenUsage) -> TokenUsageRecord {
    TokenUsageRecord {
        prompt_tokens: u.prompt_tokens,
        completion_tokens: u.completion_tokens,
        total_tokens: u.total_tokens,
        reasoning_tokens: u.reasoning_tokens,
        cached_tokens: u.cached_tokens,
    }
}

/// Copy the counts of a usage report.
pub fn usage_record(usage: TokenUsage) -> (r: TokenUsageRecord)
    ensures
        r == usage_record_of(usage),
{
    TokenUsageRecord {
        prompt_tokens: usage.prompt_tokens,
        completion_tokens: usage.completion_tokens,
        total_tokens: usage.total_tokens,
        reasoning_tokens: usage.reasoning_tokens,
        cached_tokens: usage.cached_tokens,
    }
}

/// The stable IPC / storage finish reason: `stop`, `length`, `content_filter`,
/// `tool_calls`, or `other:` and the provider's reason.
pub open spec fn ipc_finish(f: FinishView) -> Seq<char> {
    match f {
        FinishView::Stop => "stop"@,
        FinishView::Length => "length"@,
        FinishView::ContentFilter => "content_filter"@,
        FinishView::ToolCalls => "tool_calls"@,
        FinishView::Other(raw) => {
            let t = trim(raw);
            if t.len() == 0 {
                "other:unknown"@
            } else if t.len() >= 6 && t.take(6) == "other:"@ {
                t
            } else {
                "other:"@ + t
            }
        },
    }
}

/// The stable IPC / storage finish reason.
pub fn ipc_finish_reason(reason: &FinishReason) -> (s: String)
    ensures
        s@ == ipc_finish(reason@),
{
    match reason {
        FinishReason::Stop => owned("stop"),
        FinishReason::Length => owned("length"),
        FinishReason::ContentFilter => owned("content_filter"),
        FinishReason::ToolCalls => owned("tool_calls"),
        FinishReason::Other(raw) => {
            let t = trim_str(raw.as_str());
            if t.as_str().is_empty() {
                owned("other:unknown")
            } else {
                let tc = chars_of(t.as_str());
                let prefix = chars_of("other:");
                proof {
                    reveal_strlit("other:");
                }
                if starts_with_chars(tc.as_slice(), prefix.as_slice()) {
                    t
                } else {
                    let mut s = owned("other:");
                    push_str(&mut s, t.as_str());
                    s
                }
            }
        },
    }
}

/// The first position of a call with this index, or the length when there is none.
pub open spec fn index_pos(s: Seq<ToolCallV>, idx: u32) -> int
    decreases s.len(),
{
    if s.len() == 0 {
        0
    } else if s[0].3 == Some(idx) {
        0
    } else {
        1 + index_pos(s.drop_first(), idx)
    }
}

/// The first position of a call with this id, or the length when there is none.
pub open spec fn id_pos(s: Seq<ToolCallV>, id: Seq<char>) -> int
    decreases s.len(),
{
    if s.len() == 0 {
        0
    } else if s[0].0 == id {
        0
    } else {
        1 + id_pos(s.drop_first(), id)
    }
}

/// A finished call replaces the first call with its index (when it has one), else the
/// first with its id, else it is appended.
pub open spec fn upsert_call(s: Seq<ToolCallV>, c: ToolCallV) -> Seq<ToolCallV> {
    let by_index = match c.3 {
        Some(idx) => index_pos(s, idx),
        None => s.len() as int,
    };
    if by_index < s.len() {
        s.update(by_index, c)
    } else if id_pos(s, c.0) < s.len() {
        s.update(id_pos(s, c.0), c)
    } else {
        s.push(c)
    }
}

proof fn lemma_index_pos_bounds(s: Seq<ToolCallV>, idx: u32)
    ensures
        0 <= index_pos(s, idx) <= s.len(),
        index_pos(s, idx) < s.len() ==> s[index_pos(s, idx)].3 == Some(idx),
    decreases s.len(),
{
    if s.len() > 0 && s[0].3 != Some(idx) {
        lemma_index_pos_bounds(s.drop_first(), idx);
    }
}

fn find_index(calls: &Vec<StoredToolCall>, idx: u32) -> (r: usize)
    ensures
        r == index_pos(calls_v(calls@), idx),
{
    let ghost s = calls_v(calls@);
    let mut i: usize = 0;
    assert(s.skip(0) == s);
    while i < calls.len()
        invariant
            0 <= i <= calls@.len(),
            s == calls_v(calls@),
            index_pos(s, idx) == i + index_pos(s.skip(i as int), idx),
        decreases calls.len() - i,
    {
        assert(s.skip(i as int)[0] == calls@[i as int]@);
        if calls[i].index == Some(idx) {
            return i;
        }
        assert(s.skip(i as int).drop_first() == s.skip(i + 1));
        i = i + 1;
    }
    assert(s.skip(i as int).len() == 0);
    i
}

fn find_id(calls: &Vec<StoredToolCall>, id: &str) -> (r: usize)
    ensures
        r == id_pos(calls_v(calls@), id@),
{
    let ghost s = calls_v(calls@);
    let target = chars_of(id);
    let mut i: usize = 0;
    assert(s.skip(0) == s);
    while i < calls.len()
        invariant
            0 <= i <= calls@.len(),
            s == calls_v(calls@),
            target@ == id@,
            id_pos(s, id@) == i + id_pos(s.skip(i as int), id@),
        decreases calls.len() - i,
    {
        assert(s.skip(i as int)[0] == calls@[i as int]@);
        let c = chars_of(calls[i].id.as_str());
        if crate::text::chars_eq(c.as_slice(), target.as_slice()) {
            return i;
        }
        assert(s.skip(i as int).drop_first() == s.skip(i + 1));
        i = i + 1;
    }
    assert(s.skip(i as int).len() == 0);
    i
}

proof fn lemma_id_pos_bounds(s: Seq<ToolCallV>, id: Seq<char>)
    ensures
        0 <= id_pos(s, id) <= s.len(),
    decreases s.len(),
{
    if s.len() > 0 && s[0].0 != id {
        lemma_id_pos_bounds(s.drop_first(), id);
    }
}

/// Store a finished tool call: replace the call with the same index, else the one with
/// the same id, else append.
pub fn upsert_finished_tool_call(calls: &mut Vec<StoredToolCall>, call: StoredToolCall)
    ensures
        calls_v(final(calls)@) == upsert_call(calls_v(old(calls)@), call@),
{
    let ghost s = calls_v(calls@);
    let ghost c = call@;
    proof {
        if call.index is Some {
            lemma_index_pos_bounds(s, call.index->0);
        }
        lemma_id_pos_bounds(s, c.0);
    }
    if let Some(idx) = call.index {
        let k = find_index(calls, idx);
        if k < calls.len() {
            calls.set(k, call);
            assert(calls_v(calls@) == s.update(k as int, c));
            return;
        }
    }
    let k = find_id(calls, call.id.as_str());
    if k < calls.len() {
        calls.set(k, call);
        assert(calls_v(calls@) == s.update(k as int, c));
        return;
    }
    calls.push(call);
    assert(calls_v(calls@) == s.push(c));
}

/// The mathematical content of a payload sent while streaming.
pub enum PayloadV {
    Started,
    ReasoningDelta(Seq<char>),
    ContentDelta(Seq<char>),
    ToolCallDelta { id: Option<Seq<char>>, name: Option<Seq<char>>, delta: Seq<char>, index: Option<u32> },
    ToolCallFinished(ToolCallV),
    Usage(TokenUsageRecord),
    Completed(Option<Seq<char>>),
    Stopped,
    Error,
}

/// The content of a payload (an error payload's record is described separately).
pub open spec fn payload_v(p: StreamEventPayload) -> PayloadV {
    match p {
        StreamEventPayload::Started => PayloadV::Started,
        StreamEventPayload::ReasoningDelta { text } => PayloadV::ReasoningDelta(text@),
        StreamEventPayload::ContentDelta { text } => PayloadV::ContentDelta(text@),
        StreamEventPayload::ToolCallDelta { id, name, arguments_delta, index } => PayloadV::ToolCallDelta {
            id: id.deep_view(),
            name: name.deep_view(),
            delta: arguments_delta@,
            index,
        },
        StreamEventPayload::ToolCallFinished { id, name, arguments, index } => PayloadV::ToolCallFinished(
            (id@, name@, arguments@, index),
        ),
        StreamEventPayload::Usage { usage } => PayloadV::Usage(usage),
        StreamEventPayload::Completed { finish_reason } => PayloadV::Completed(finish_reason.deep_view()),
        StreamEventPayload::Stopped => PayloadV::Stopped,
        StreamEventPayload::Error { .. } => PayloadV::Error,
    }
}

/// The mathematical content of a generation in progress.
pub struct GenerationV {
    pub content: Seq<char>,
    pub reasoning: Seq<char>,
    pub usage: Option<TokenUsageRecord>,
    pub finish_reason: Option<Seq<char>>,
    pub tool_calls: Seq<ToolCallV>,
    pub status: AssistantStatus,
    pub done: bool,
    pub sequence: u64,
}

/// The state of one assistant generation.
pub struct Generation {
    pub content: String,
    pub reasoning: String,
    pub usage: Option<TokenUsageRecord>,
    pub finish_reason: Option<String>,
    pub tool_calls: Vec<StoredToolCall>,
    pub status: AssistantStatus,
    pub error: Option<AppError>,
    /// The stream is over (completed, failed, ended or stopped).
    pub done: bool,
    /// The sequence number of the next payload.
    pub sequence: u64,
}

impl View for Generation {
    type V = GenerationV;

    open spec fn view(&self) -> GenerationV {
        GenerationV {
            content: self.content@,
            reasoning: self.reasoning@,
            usage: self.usage,
            finish_reason: self.finish_reason.deep_view(),
            tool_calls: calls_v(self.tool_calls@),
            status: self.status,
            done: self.done,
            sequence: self.sequence,
        }
    }
}

/// What one stream event does to a generation, and the payload it sends.
pub open spec fn on_event(g: GenerationV, e: EventV) -> (GenerationV, PayloadV) {
    match e {
        EventV::Reasoning(t) => (GenerationV { reasoning: g.reasoning + t, ..g }, PayloadV::ReasoningDelta(t)),
        EventV::Content(t) => (GenerationV { content: g.content + t, ..g }, PayloadV::ContentDelta(t)),
        EventV::ToolDelta { id, name, delta, index } => (g, PayloadV::ToolCallDelta { id, name, delta, index }),
        EventV::ToolFinished { id, name, arguments, index } => (
            GenerationV { tool_calls: upsert_call(g.tool_calls, (id, name, arguments, index)), ..g },
            PayloadV::ToolCallFinished((id, name, arguments, index)),
        ),
        EventV::Usage(u) => (
            GenerationV { usage: Some(usage_record_of(u)), ..g },
            PayloadV::Usage(usage_record_of(u)),
        ),
        EventV::Completed(f) => (
            GenerationV { finish_reason: Some(ipc_finish(f)), done: true, ..g },
            PayloadV::Completed(Some(ipc_finish(f))),
        ),
    }
}

/// The error kept when the stream ends before its completion.
pub open spec fn early_end_error(e: AppError) -> bool {
    plain_app_error(e, "protocol"@, "模型流在完成事件前结束"@, false)
}

/// `a` is the application error for the protocol error `e`.
pub open spec fn app_error_of(a: AppError, e: ProtocolError) -> bool {
    &&& a.code@ == protocol_code(e.kind)
    &&& a.message@ == protocol_app_message(e)
    &&& a.retryable == e.retryable
    &&& a.http_status == e.http_status
    &&& a.provider_request_id.deep_view() == e.request_id.deep_view()
    &&& a.retry_after_ms == e.retry_after_ms
}

/// `p` is a payload with content `pv`.
pub open spec fn sends(p: Option<StreamEventPayload>, pv: PayloadV) -> bool {
    p matches Some(x) && payload_v(x) == pv
}

/// The kept error is the application error for `e`.
pub open spec fn error_from(kept: Option<AppError>, e: ProtocolError) -> bool {
    kept matches Some(a) && app_error_of(a, e)
}

/// The kept error says the stream ended early.
pub open spec fn early_end(kept: Option<AppError>) -> bool {
    kept matches Some(a) && early_end_error(a)
}

/// `r` records the application error `a`.
pub open spec fn records(r: MessageErrorRecord, a: AppError) -> bool {
    &&& r.code@ == a.code@
    &&& r.message@ == a.message@
    &&& r.retryable == a.retryable
    &&& r.http_status == a.http_status
    &&& r.retry_after_ms == a.retry_after_ms
    &&& r.provider_request_id.deep_view() == a.provider_request_id.deep_view()
}

/// A failed generation stores and sends the kept error (`internal` when none was kept).
pub open spec fn error_outcome(o: GenerationOutcome, kept: Option<AppError>) -> bool {
    &&& o.error is Some
    &&& match o.final_payload {
        Some(StreamEventPayload::Error { error: sent }) => match kept {
            Some(a) => records(sent, a) && records(o.error->0, a),
            None => sent.code@ == "internal"@ && sent.message@ == "生成失败"@ && !sent.retryable
                && o.error->0.code@ == "internal"@ && o.error->0.message@ == "生成失败"@ && !o.error->0.retryable,
        },
        _ => false,
    }
}

/// How a generation ends and what is stored.
pub struct GenerationOutcome {
    pub status: AssistantStatus,
    /// The last payload to send, if any.
    pub final_payload: Option<StreamEventPayload>,
    pub content: String,
    /// The reasoning text, when not empty.
    pub reasoning: Option<String>,
    pub usage: Option<TokenUsageRecord>,
    /// Kept only for a completed generation.
    pub finish_reason: Option<String>,
    pub tool_calls: Vec<StoredToolCall>,
    pub error: Option<MessageErrorRecord>,
}

impl Generation {
    /// A generation before its first event.
    pub fn new() -> (g: Self)
        ensures
            g@ == (GenerationV {
                content: seq![],
                reasoning: seq![],
                usage: None,
                finish_reason: None,
                tool_calls: seq![],
                status: AssistantStatus::Completed,
                done: false,
                sequence: 0,
            }),
            g.error is None,
    {
        let g = Generation {
            content: String::new(),
            reasoning: String::new(),
            usage: None,
            finish_reason: None,
            tool_calls: Vec::new(),
            status: AssistantStatus::Completed,
            error: None,
            done: false,
            sequence: 0,
        };
        assert(calls_v(g.tool_calls@) =~= Seq::<ToolCallV>::empty());
        g
    }

    /// The sequence number for the next payload (counting up, saturating).
    pub fn next_sequence(&mut self) -> (n: u64)
        ensures
            n == old(self).sequence,
            final(self).sequence == if old(self).sequence == u64::MAX {
                u64::MAX
            } else {
                (old(self).sequence + 1) as u64
            },
            final(self)@ == (GenerationV { sequence: final(self).sequence, ..old(self)@ }),
            final(self).error == old(self).error,
    {
        let n = self.sequence;
        if self.sequence < u64::MAX {
            self.sequence = self.sequence + 1;
        }
        n
    }

    /// Take one outcome of the model stream: an event, an error, or the end of the
    /// stream. Returns the payload to send, if any.
    pub fn on_item(&mut self, item: Option<Result<StreamEvent, ProtocolError>>) -> (p: Option<StreamEventPayload>)
        ensures
            match item {
                Some(Ok(e)) => {
                    &&& final(self)@ == on_event(old(self)@, e@).0
                    &&& sends(p, on_event(old(self)@, e@).1)
                    &&& final(self).error == old(self).error
                },
                Some(Err(e)) => {
                    &&& final(self)@ == (GenerationV { status: AssistantStatus::Error, done: true, ..old(self)@ })
                    &&& p is None
                    &&& error_from(final(self).error, e)
                },
                None => {
                    &&& final(self)@ == (GenerationV { status: AssistantStatus::Error, done: true, ..old(self)@ })
                    &&& p is None
                    &&& early_end(final(self).error)
                },
            },
    {
        match item {
            Some(Ok(e)) => self.on_stream_event(e),
            Some(Err(e)) => {
                self.status = AssistantStatus::Error;
                self.error = Some(from_protocol_error(e));
                self.done = true;
                None
            },
            None => {
                self.status = AssistantStatus::Error;
                self.error = Some(AppError::new("protocol", owned("模型流在完成事件前结束"), false));
                self.done = true;
                None
            },
        }
    }

    fn on_stream_event(&mut self, e: StreamEvent) -> (p: Option<StreamEventPayload>)
        ensures
            final(self)@ == on_event(old(self)@, e@).0,
            sends(p, on_event(old(self)@, e@).1),
            final(self).error == old(self).error,
    {
        match e {
            StreamEvent::ReasoningDelta { text } => {
                push_str(&mut self.reasoning, text.as_str());
                Some(StreamEventPayload::ReasoningDelta { text })
            },
            StreamEvent::ContentDelta { text } => {
                push_str(&mut self.content, text.as_str());
                Some(StreamEventPayload::ContentDelta { text })
            },
            StreamEvent::ToolCallDelta { id, name, arguments_delta, index } => Some(
                StreamEventPayload::ToolCallDelta { id, name, arguments_delta, index },
            ),
            StreamEvent::ToolCallFinished { id, name, arguments, index } => {
                let call = StoredToolCall {
                    id: owned(id.as_str()),
                    name: owned(name.as_str()),
                    arguments: owned(arguments.as_str()),
                    index,
                };
                upsert_finished_tool_call(&mut self.tool_calls, call);
                Some(StreamEventPayload::ToolCallFinished { id, name, arguments, index })
            },
            StreamEvent::Usage(u) => {
                let record = usage_record(u);
                self.usage = Some(record);
                Some(StreamEventPayload::Usage { usage: record })
            },
            StreamEvent::Completed { finish_reason } => {
                let value = ipc_finish_reason(&finish_reason);
                self.finish_reason = Some(owned(value.as_str()));
                self.done = true;
                Some(StreamEventPayload::Completed { finish_reason: Some(value) })
            },
        }
    }

    /// The request could not be started: the error, as the application reports it.
    pub fn on_start_failed(&mut self, e: ProtocolError)
        ensures
            final(self)@ == (GenerationV { status: AssistantStatus::Error, done: true, ..old(self)@ }),
            error_from(final(self).error, e),
    {
        self.status = AssistantStatus::Error;
        self.error = Some(from_protocol_error(e));
        self.done = true;
    }

    /// The user stopped the generation while it was waiting for the stream.
    pub fn on_cancelled(&mut self)
        ensures
            final(self)@ == (GenerationV { status: AssistantStatus::Stopped, done: true, ..old(self)@ }),
            final(self).error == old(self).error,
    {
        self.status = AssistantStatus::Stopped;
        self.done = true;
    }

    /// How the generation ends: a cancellation turns any status but `Error` into
    /// `Stopped`; a stopped generation sends `Stopped`, a failed one sends its error
    /// (`internal` when none was kept); only a completed one keeps its finish reason.
    pub fn finish(self, cancelled: bool) -> (o: GenerationOutcome)
        ensures
            o.status == if cancelled && self.status != AssistantStatus::Error {
                AssistantStatus::Stopped
            } else {
                self.status
            },
            o.status == AssistantStatus::Completed ==> o.final_payload is None,
            o.status == AssistantStatus::Stopped ==> o.final_payload matches Some(StreamEventPayload::Stopped),
            o.status == AssistantStatus::Error ==> error_outcome(o, self.error),
            o.status != AssistantStatus::Error ==> o.error is None,
            o.content@ == self.content@,
            o.reasoning.deep_view() == if self.reasoning@.len() == 0 {
                None::<Seq<char>>
            } else {
                Some(self.reasoning@)
            },
            o.usage == self.usage,
            o.finish_reason.deep_view() == if o.status == AssistantStatus::Completed {
                self.finish_reason.deep_view()
            } else {
                None
            },
            calls_v(o.tool_calls@) == calls_v(self.tool_calls@),
    {
        let status = if cancelled && self.status != AssistantStatus::Error {
            AssistantStatus::Stopped
        } else {
            self.status
        };
        let mut error_record: Option<MessageErrorRecord> = None;
        let final_payload = match status {
            AssistantStatus::Stopped => Some(StreamEventPayload::Stopped),
            AssistantStatus::Error => {
                let error = match self.error {
                    Some(a) => a,
                    None => AppError::new("internal", owned("生成失败"), false),
                };
                error_record = Some(error.to_message_record());
                Some(StreamEventPayload::Error { error: error.to_message_record() })
            },
            AssistantStatus::Completed => None,
        };
        let reasoning = if self.reasoning.as_str().is_empty() {
            None
        } else {
            Some(self.reasoning)
        };
        let finish_reason = match status {
            AssistantStatus::Completed => self.finish_reason,
            _ => None,
        };
        GenerationOutcome {
            status,
            final_payload,
            content: self.content,
            reasoning,
            usage: self.usage,
            finish_reason,
            tool_calls: self.tool_calls,
            error: error_record,
        }
    }
}


proof fn lemma_plain_word(s: Seq<char>)
    requires
        s.len() > 0,
        forall|i: int| 0 <= i < s.len() ==> ('a' <= #[trigger] s[i] <= 'z' || s[i] == '_'),
    ensures
        trim(s) == s,
        ascii_lower(s) == s,
        normalized(Some(s)) == Some(s),
{
    assert(!is_ws(s[0]));
    assert(!is_ws(s.last()));
    assert(ascii_lower(s) =~= s);
}

/// A stored finish reason reads back as itself: the stable string of each named reason
/// (stop, length, content filter, tool calls) is mapped back to that same reason, by the
/// general table and by the Chat Completions table. So no two named reasons share a
/// string.
pub proof fn law_ipc_finish_reads_back(f: FinishView)
    requires
        !(f is Other),
    ensures
        finish_from_raw(Some(ipc_finish(f))) == f,
        chat_completions_finish(Some(ipc_finish(f))) == f,
{
    reveal_strlit("stop");
    reveal_strlit("length");
    reveal_strlit("content_filter");
    reveal_strlit("tool_calls");
    reveal_strlit("end_turn");
    reveal_strlit("completed");
    reveal_strlit("stop_sequence");
    reveal_strlit("max_tokens");
    reveal_strlit("max_output_tokens");
    reveal_strlit("content_filtered");
    reveal_strlit("safety");
    reveal_strlit("refusal");
    reveal_strlit("tool_use");
    reveal_strlit("function_call");
    let s = ipc_finish(f);
    lemma_plain_word(s);
    assert("end_turn"@.len() == 8 && "completed"@.len() == 9 && "stop_sequence"@.len() == 13);
    assert("max_tokens"@.len() == 10 && "max_output_tokens"@.len() == 17 && "content_filtered"@.len() == 16);
    assert("safety"@.len() == 6 && "refusal"@.len() == 7 && "tool_use"@.len() == 8 && "function_call"@.len() == 13);
    match f {
        FinishView::Stop => {},
        FinishView::Length => {
            assert(s.len() == 6 && s[0] == 'l');
            assert("safety"@[0] == 's');
        },
        FinishView::ContentFilter => {
            assert(s.len() == 14);
        },
        FinishView::ToolCalls => {
            assert(s.len() == 10 && s[0] == 't');
            assert("max_tokens"@[0] == 'm');
        },
        FinishView::Other(_) => {},
    }
}

/// The stable finish strings keep reasons apart: two named reasons with the same string
/// are the same reason, and a provider's own reason is always stored under `other:`, a
/// prefix no named reason has.
pub proof fn law_ipc_finish_distinct(f: FinishView, g: FinishView)
    ensures
        !(f is Other) && !(g is Other) && ipc_finish(f) == ipc_finish(g) ==> f == g,
        f is Other ==> ipc_finish(f).len() >= 6 && ipc_finish(f).take(6) == "other:"@,
        !(f is Other) ==> !(ipc_finish(f).len() >= 6 && ipc_finish(f).take(6) == "other:"@),
{
    reveal_strlit("other:");
    reveal_strlit("other:unknown");
    reveal_strlit("stop");
    reveal_strlit("length");
    reveal_strlit("content_filter");
    reveal_strlit("tool_calls");
    if !(f is Other) && !(g is Other) {
        law_ipc_finish_reads_back(f);
        law_ipc_finish_reads_back(g);
    }
    match f {
        FinishView::Other(raw) => {
            let t = trim(raw);
            if t.len() == 0 {
                assert("other:unknown"@.take(6) =~= "other:"@);
            } else if t.len() >= 6 && t.take(6) == "other:"@ {
            } else {
                assert(("other:"@ + t).take(6) =~= "other:"@);
            }
        },
        _ => {
            let s = ipc_finish(f);
            if s.len() >= 6 {
                assert(s.take(6)[0] == s[0]);
                assert(s[0] != 'o');
                assert("other:"@[0] == 'o');
            }
        },
    }
}


/// A generation after a run of stream events, one after another.
pub open spec fn after_events(g: GenerationV, evs: Seq<EventV>) -> GenerationV
    decreases evs.len(),
{
    if evs.len() == 0 {
        g
    } else {
        on_event(after_events(g, evs.drop_last()), evs.last()).0
    }
}

/// The text of the content deltas among `evs`, in order.
pub open spec fn content_text(evs: Seq<EventV>) -> Seq<char>
    decreases evs.len(),
{
    if evs.len() == 0 {
        seq![]
    } else {
        content_text(evs.drop_last()) + match evs.last() {
            EventV::Content(t) => t,
            _ => seq![],
        }
    }
}

/// The text of the reasoning deltas among `evs`, in order.
pub open spec fn reasoning_text(evs: Seq<EventV>) -> Seq<char>
    decreases evs.len(),
{
    if evs.len() == 0 {
        seq![]
    } else {
        reasoning_text(evs.drop_last()) + match evs.last() {
            EventV::Reasoning(t) => t,
            _ => seq![],
        }
    }
}

/// The last usage report among `evs`, if any.
pub open spec fn last_usage(evs: Seq<EventV>) -> Option<TokenUsage>
    decreases evs.len(),
{
    if evs.len() == 0 {
        None
    } else {
        match evs.last() {
            EventV::Usage(u) => Some(u),
            _ => last_usage(evs.drop_last()),
        }
    }
}

/// What a generation keeps of a stream: its content is the content deltas appended in
/// order (reasoning likewise); its usage is the last usage reported, with the same
/// counts; once a completion arrives it is done with that completion's stable finish
/// string; its status is never changed by the events.
pub proof fn law_generation_accumulates(g: GenerationV, evs: Seq<EventV>)
    ensures
        after_events(g, evs).content == g.content + content_text(evs),
        after_events(g, evs).reasoning == g.reasoning + reasoning_text(evs),
        after_events(g, evs).status == g.status,
        match last_usage(evs) {
            Some(u) => after_events(g, evs).usage matches Some(r) && r.prompt_tokens == u.prompt_tokens
                && r.completion_tokens == u.completion_tokens && r.total_tokens == u.total_tokens
                && r.reasoning_tokens == u.reasoning_tokens && r.cached_tokens == u.cached_tokens,
            None => after_events(g, evs).usage == g.usage,
        },
        evs.len() > 0 && evs.last() is Completed ==> after_events(g, evs).done
            && after_events(g, evs).finish_reason == Some(ipc_finish(evs.last()->Completed_0)),
    decreases evs.len(),
{
    if evs.len() > 0 {
        law_generation_accumulates(g, evs.drop_last());
        let h = after_events(g, evs.drop_last());
        match evs.last() {
            EventV::Content(t) => {
                assert(g.content + content_text(evs.drop_last()) + t =~= g.content + (content_text(evs.drop_last()) + t));
                assert(reasoning_text(evs.drop_last()) + Seq::<char>::empty() =~= reasoning_text(evs.drop_last()));
            },
            EventV::Reasoning(t) => {
                assert(g.reasoning + reasoning_text(evs.drop_last()) + t =~= g.reasoning + (reasoning_text(evs.drop_last()) + t));
                assert(content_text(evs.drop_last()) + Seq::<char>::empty() =~= content_text(evs.drop_last()));
            },
            _ => {
                assert(content_text(evs.drop_last()) + Seq::<char>::empty() =~= content_text(evs.drop_last()));
                assert(reasoning_text(evs.drop_last()) + Seq::<char>::empty() =~= reasoning_text(evs.drop_last()));
            },
        }
    } else {
        assert(g.content + Seq::<char>::empty() =~= g.content);
        assert(g.reasoning + Seq::<char>::empty() =~= g.reasoning);
    }
}

} // verus!
