//! Decode Anthropic Messages SSE JSON into stream events.

use vstd::prelude::*;

use crate::decode::{
    append_events, bad_json, index_field, index_or_zero, no_events, nonempty, nonempty_str,
    one_event, outcome_is, parse_payload, push_event, no_completion, DecodeV, ErrV, MessageV,
};
use crate::error::{redact_secrets, ProtocolError, ProtocolErrorKind};
use crate::finish::{anthropic_finish, anthropic_messages};
use crate::http_error::first_text;
use crate::json::{
    as_str, get, get_opt, jget, jget_opt, json_clone, json_parse, json_print, jstr, opt_ref,
    print_json, JsonValue,
};
use crate::pending::{
    finish_at_events, finish_events, mark_all, mark_slot, set_slot, slot_or_default, take_slot,
    text_or_empty, SlotV, ToolSlot, ToolTable,
};
use crate::text::{owned, push_str, str_eq, trim, trim_str};
use crate::types::{events_v, EventV, FinishView, StreamEvent};
use crate::usage::{anthropic_usage, count, first_of, from_anthropic_usage};

verus! {

/// Per-stream decoder state for Anthropic Messages events.
pub struct EventDecodeState {
    pub completed: bool,
    pub stop_reason: Option<String>,
    pub input_tokens: Option<u32>,
    pub output_tokens: Option<u32>,
    last_usage: Option<JsonValue>,
    usage_emitted: bool,
    pending_tools: ToolTable,
}

/// The mathematical content of the decoder state.
pub struct AnthropicV {
    pub completed: bool,
    pub stop_reason: Option<Seq<char>>,
    pub input_tokens: Option<u32>,
    pub output_tokens: Option<u32>,
    pub last_usage: Option<JsonValue>,
    pub usage_emitted: bool,
    pub tools: Seq<SlotV>,
}

impl View for EventDecodeState {
    type V = AnthropicV;

    closed spec fn view(&self) -> AnthropicV {
        AnthropicV {
            completed: self.completed,
            stop_reason: self.stop_reason.deep_view(),
            input_tokens: self.input_tokens,
            output_tokens: self.output_tokens,
            last_usage: self.last_usage,
            usage_emitted: self.usage_emitted,
            tools: self.pending_tools@,
        }
    }
}

/// The state a stream starts in.
pub open spec fn initial_anthropic() -> AnthropicV {
    AnthropicV {
        completed: false,
        stop_reason: None,
        input_tokens: None,
        output_tokens: None,
        last_usage: None,
        usage_emitted: false,
        tools: seq![],
    }
}

impl EventDecodeState {
    /// A fresh state.
    pub fn new() -> (s: Self)
        ensures
            s@ == initial_anthropic(),
    {
        EventDecodeState {
            completed: false,
            stop_reason: None,
            input_tokens: None,
            output_tokens: None,
            last_usage: None,
            usage_emitted: false,
            pending_tools: ToolTable::new(),
        }
    }
}

impl Default for EventDecodeState {
    fn default() -> (s: Self)
        ensures
            s@ == initial_anthropic(),
    {
        EventDecodeState::new()
    }
}

/// A payload that reports an error: `type` is `error`, or it has `error` and no `type`.
pub open spec fn is_error_payload(v: JsonValue) -> bool {
    jstr(jget(v, "type"@)) == Some("error"@) || (jget(v, "error"@) is Some && jget(v, "type"@) is None)
}

/// The error an error payload stands for.
pub open spec fn anthropic_stream_error(v: JsonValue) -> ErrV {
    let err = jget(v, "error"@);
    ErrV {
        kind: ProtocolErrorKind::ProviderUnavailable,
        message: MessageV::Redacted(
            match first_text(jstr(jget_opt(err, "message"@)), jstr(jget(v, "message"@))) {
                Some(m) => m,
                None => "服务商返回错误"@,
            },
        ),
        code: first_text(jstr(jget_opt(err, "type"@)), jstr(jget_opt(err, "code"@))),
    }
}

/// The counts of a usage object merged into the state; the object is kept.
pub open spec fn merge_usage(st: AnthropicV, u: JsonValue) -> AnthropicV {
    AnthropicV {
        input_tokens: first_of(count(u, "input_tokens"@), st.input_tokens),
        output_tokens: first_of(count(u, "output_tokens"@), st.output_tokens),
        last_usage: Some(u),
        ..st
    }
}

/// The arguments a `tool_use` block starts with: its `input` printed as JSON, unless it
/// is null, prints as `{}` or `null`, or arguments arrived already.
pub open spec fn start_arguments(block: JsonValue, current: Seq<char>) -> Seq<char> {
    match jget(block, "input"@) {
        Some(input) => {
            let s = json_print(input);
            if !(input is Null) && current.len() == 0 && s != "{}"@ && s != "null"@ {
                s
            } else {
                current
            }
        },
        None => current,
    }
}

/// `content_block_start`: a `tool_use` block opens (or reopens) the slot for its index.
pub open spec fn block_start(v: JsonValue, st: AnthropicV) -> (Seq<EventV>, AnthropicV) {
    match jget(v, "content_block"@) {
        None => (seq![], st),
        Some(block) => if jstr(jget(block, "type"@)) != Some("tool_use"@) {
            (seq![], st)
        } else {
            let index = index_or_zero(jget(v, "index"@));
            let slot = slot_or_default(st.tools, index);
            let id = nonempty(jstr(jget(block, "id"@)));
            let name = nonempty(jstr(jget(block, "name"@)));
            let arguments = start_arguments(block, slot.arguments);
            (
                seq![EventV::ToolDelta { id, name, delta: seq![], index: Some(index) }],
                AnthropicV {
                    tools: set_slot(st.tools, SlotV { id, name, arguments, ..slot }),
                    ..st
                },
            )
        },
    }
}

/// `content_block_delta`: text, thinking, or a piece of a tool call's JSON input.
pub open spec fn block_delta(v: JsonValue, st: AnthropicV) -> (Seq<EventV>, AnthropicV) {
    match jget(v, "delta"@) {
        None => (seq![], st),
        Some(d) => {
            let dt = text_or_empty(jstr(jget(d, "type"@)));
            if dt == "text_delta"@ {
                match nonempty(jstr(jget(d, "text"@))) {
                    Some(t) => (seq![EventV::Content(t)], st),
                    None => (seq![], st),
                }
            } else if dt == "thinking_delta"@ {
                match nonempty(jstr(jget(d, "thinking"@))) {
                    Some(t) => (seq![EventV::Reasoning(t)], st),
                    None => (seq![], st),
                }
            } else if dt == "input_json_delta"@ {
                let index = index_or_zero(jget(v, "index"@));
                let partial = text_or_empty(jstr(jget(d, "partial_json"@)));
                let slot = slot_or_default(st.tools, index);
                (
                    seq![
                        EventV::ToolDelta {
                            id: slot.id,
                            name: slot.name,
                            delta: partial,
                            index: Some(index),
                        },
                    ],
                    AnthropicV {
                        tools: set_slot(
                            st.tools,
                            SlotV { arguments: slot.arguments + partial, ..slot },
                        ),
                        ..st
                    },
                )
            } else {
                (seq![], st)
            }
        },
    }
}

/// `message_stop`: finish the tool calls, report usage once, complete.
pub open spec fn terminal(st: AnthropicV) -> (Seq<EventV>, AnthropicV) {
    let tools_done = finish_events(st.tools);
    let st1 = AnthropicV { completed: true, tools: mark_all(st.tools), ..st };
    let done = EventV::Completed(anthropic_finish(st.stop_reason));
    if !st.usage_emitted {
        match anthropic_usage(st.input_tokens, st.output_tokens, st.last_usage) {
            Some(u) => (
                tools_done + seq![EventV::Usage(u), done],
                AnthropicV { usage_emitted: true, ..st1 },
            ),
            None => (tools_done + seq![done], st1),
        }
    } else {
        (tools_done + seq![done], st1)
    }
}

/// An event that is not an error, by its `type`.
pub open spec fn anthropic_event(v: JsonValue, st: AnthropicV) -> (Seq<EventV>, AnthropicV) {
    let ty = text_or_empty(jstr(jget(v, "type"@)));
    if ty == "message_start"@ {
        match jget_opt(jget(v, "message"@), "usage"@) {
            Some(u) => (seq![], merge_usage(st, u)),
            None => (seq![], st),
        }
    } else if ty == "content_block_start"@ {
        block_start(v, st)
    } else if ty == "content_block_delta"@ {
        block_delta(v, st)
    } else if ty == "content_block_stop"@ {
        let index = index_or_zero(jget(v, "index"@));
        (finish_at_events(st.tools, index), AnthropicV { tools: mark_slot(st.tools, index), ..st })
    } else if ty == "message_delta"@ {
        let st1 = match jstr(jget_opt(jget(v, "delta"@), "stop_reason"@)) {
            Some(r) => AnthropicV { stop_reason: Some(r), ..st },
            None => st,
        };
        match jget(v, "usage"@) {
            Some(u) => (seq![], merge_usage(st1, u)),
            None => (seq![], st1),
        }
    } else if ty == "message_stop"@ {
        if st.completed {
            (seq![], st)
        } else {
            terminal(st)
        }
    } else {
        (seq![], st)
    }
}

/// What a parsed event gives and how it changes the state.
pub open spec fn anthropic_json(v: JsonValue, st: AnthropicV) -> (DecodeV, AnthropicV) {
    if is_error_payload(v) {
        (DecodeV::Failure(anthropic_stream_error(v)), st)
    } else {
        let (evs, st2) = anthropic_event(v, st);
        (DecodeV::Events(evs), st2)
    }
}

/// What one `data` payload gives and how it changes the state.
pub open spec fn anthropic_decode(data: Seq<char>, st: AnthropicV) -> (DecodeV, AnthropicV) {
    let t = trim(data);
    if t.len() == 0 {
        (DecodeV::Events(seq![]), st)
    } else {
        match json_parse(t) {
            Err(m) => (DecodeV::Failure(bad_json(m)), st),
            Ok(v) => anthropic_json(v, st),
        }
    }
}

fn is_error_value(value: &JsonValue) -> (r: bool)
    ensures
        r == is_error_payload(*value),
{
    let ty = get(value, "type");
    if let Some(t) = as_str(ty) {
        if str_eq(t, "error") {
            return true;
        }
    }
    get(value, "error").is_some() && ty.is_none()
}

fn error_from_json(value: &JsonValue) -> (e: ProtocolError)
    ensures
        crate::decode::error_is(e, anthropic_stream_error(*value)),
{
    let err = get(value, "error");
    let message = match as_str(get_opt(err, "message")) {
        Some(m) => redact_secrets(m),
        None => match as_str(get(value, "message")) {
            Some(m) => redact_secrets(m),
            None => redact_secrets("服务商返回错误"),
        },
    };
    let code: Option<String> = match as_str(get_opt(err, "type")) {
        Some(c) => Some(owned(c)),
        None => match as_str(get_opt(err, "code")) {
            Some(c) => Some(owned(c)),
            None => None,
        },
    };
    let mut out = ProtocolError::new(ProtocolErrorKind::ProviderUnavailable, message);
    if let Some(code) = code {
        out = out.with_provider_code(code);
    }
    out
}

fn merge_usage_into(state: &mut EventDecodeState, usage: &JsonValue)
    ensures
        final(state)@ == merge_usage(old(state)@, *usage),
{
    if let Some(n) = crate::usage::field_count(usage, "input_tokens") {
        state.input_tokens = Some(n);
    }
    if let Some(n) = crate::usage::field_count(usage, "output_tokens") {
        state.output_tokens = Some(n);
    }
    state.last_usage = Some(json_clone(usage));
}

fn decode_content_block_start(state: &mut EventDecodeState, value: &JsonValue) -> (events: Vec<
    StreamEvent,
>)
    ensures
        events_v(events@) == block_start(*value, old(state)@).0,
        final(state)@ == block_start(*value, old(state)@).1,
{
    let block = match get(value, "content_block") {
        Some(b) => b,
        None => {
            return no_events();
        },
    };
    let is_tool = match as_str(get(block, "type")) {
        Some(t) => str_eq(t, "tool_use"),
        None => false,
    };
    if !is_tool {
        return no_events();
    }
    let index = index_field(get(value, "index"));
    let mut slot = take_slot(&state.pending_tools, index);
    slot.id = nonempty_str(get(block, "id"));
    slot.name = nonempty_str(get(block, "name"));
    if let Some(input) = get(block, "input") {
        let is_null = match input {
            JsonValue::Null => true,
            _ => false,
        };
        if !is_null && slot.arguments.as_str().is_empty() {
            let s = print_json(input);
            if !str_eq(s.as_str(), "{}") && !str_eq(s.as_str(), "null") {
                slot.arguments = s;
            }
        }
    }
    let (id, name) = crate::pending::slot_names(&slot);
    state.pending_tools.put(slot);
    one_event(
        StreamEvent::ToolCallDelta { id, name, arguments_delta: String::new(), index: Some(index) },
    )
}

fn decode_content_block_delta(state: &mut EventDecodeState, value: &JsonValue) -> (events: Vec<
    StreamEvent,
>)
    ensures
        events_v(events@) == block_delta(*value, old(state)@).0,
        final(state)@ == block_delta(*value, old(state)@).1,
{
    let delta = match get(value, "delta") {
        Some(d) => d,
        None => {
            return no_events();
        },
    };
    let dt: String = match as_str(get(delta, "type")) {
        Some(t) => owned(t),
        None => String::new(),
    };
    if str_eq(dt.as_str(), "text_delta") {
        return match nonempty_str(get(delta, "text")) {
            Some(text) => one_event(StreamEvent::ContentDelta { text }),
            None => no_events(),
        };
    }
    if str_eq(dt.as_str(), "thinking_delta") {
        return match nonempty_str(get(delta, "thinking")) {
            Some(text) => one_event(StreamEvent::ReasoningDelta { text }),
            None => no_events(),
        };
    }
    if str_eq(dt.as_str(), "input_json_delta") {
        let index = index_field(get(value, "index"));
        let partial: String = match as_str(get(delta, "partial_json")) {
            Some(p) => owned(p),
            None => String::new(),
        };
        let mut slot = take_slot(&state.pending_tools, index);
        push_str(&mut slot.arguments, partial.as_str());
        let (id, name) = crate::pending::slot_names(&slot);
        state.pending_tools.put(slot);
        return one_event(
            StreamEvent::ToolCallDelta { id, name, arguments_delta: partial, index: Some(index) },
        );
    }
    no_events()
}

fn terminal_events(state: &mut EventDecodeState) -> (events: Vec<StreamEvent>)
    ensures
        events_v(events@) == terminal(old(state)@).0,
        final(state)@ == terminal(old(state)@).1,
{
    let ghost st = state@;
    state.completed = true;
    let mut events = state.pending_tools.finish_and_mark_all();
    if !state.usage_emitted {
        if let Some(usage) = from_anthropic_usage(
            state.input_tokens,
            state.output_tokens,
            state.last_usage.as_ref(),
        ) {
            state.usage_emitted = true;
            push_event(&mut events, StreamEvent::Usage(usage));
        }
    }
    let reason: Option<&str> = match &state.stop_reason {
        Some(s) => Some(s.as_str()),
        None => None,
    };
    assert(reason.deep_view() == state.stop_reason.deep_view());
    let f = anthropic_messages(reason);
    push_event(&mut events, StreamEvent::Completed { finish_reason: f });
    events
}

/// Decode one SSE `data` payload (JSON with a `type` field).
pub fn decode_sse_data(data: &str, state: &mut EventDecodeState) -> (r: Result<
    Vec<StreamEvent>,
    ProtocolError,
>)
    ensures
        outcome_is(r, anthropic_decode(data@, old(state)@).0),
        final(state)@ == anthropic_decode(data@, old(state)@).1,
{
    let trimmed = trim_str(data);
    if trimmed.as_str().is_empty() {
        return Ok(no_events());
    }
    let value = match parse_payload(trimmed.as_str()) {
        Ok(v) => v,
        Err(e) => {
            return Err(e);
        },
    };
    decode_event_value(&value, state)
}

/// Decode one parsed payload.
pub fn decode_event_value(value: &JsonValue, state: &mut EventDecodeState) -> (r: Result<
    Vec<StreamEvent>,
    ProtocolError,
>)
    ensures
        outcome_is(r, anthropic_json(*value, old(state)@).0),
        final(state)@ == anthropic_json(*value, old(state)@).1,
{
    if is_error_value(value) {
        return Err(error_from_json(value));
    }
    let ty: String = match as_str(get(value, "type")) {
        Some(t) => owned(t),
        None => String::new(),
    };
    let t = ty.as_str();
    if str_eq(t, "message_start") {
        if let Some(usage) = get_opt(get(value, "message"), "usage") {
            merge_usage_into(state, usage);
        }
        Ok(no_events())
    } else if str_eq(t, "content_block_start") {
        Ok(decode_content_block_start(state, value))
    } else if str_eq(t, "content_block_delta") {
        Ok(decode_content_block_delta(state, value))
    } else if str_eq(t, "content_block_stop") {
        let index = index_field(get(value, "index"));
        Ok(state.pending_tools.finish_at(index))
    } else if str_eq(t, "message_delta") {
        if let Some(reason) = as_str(get_opt(get(value, "delta"), "stop_reason")) {
            state.stop_reason = Some(owned(reason));
        }
        if let Some(usage) = get(value, "usage") {
            merge_usage_into(state, usage);
        }
        Ok(no_events())
    } else if str_eq(t, "message_stop") {
        if state.completed {
            return Ok(no_events());
        }
        Ok(terminal_events(state))
    } else {
        Ok(no_events())
    }
}

/// An Anthropic stream reports its completion once: once `message_stop` has completed
/// the state, every later payload leaves it completed and gives no second `Completed`.
pub proof fn law_completed_once(data: Seq<char>, st: AnthropicV)
    requires
        st.completed,
    ensures
        anthropic_decode(data, st).1.completed,
        anthropic_decode(data, st).0 matches DecodeV::Events(es) ==> no_completion(es),
{
}


proof fn lemma_anthropic_types()
    ensures
        "message_start"@ != "content_block_delta"@ && "content_block_start"@ != "content_block_delta"@
            && "message_start"@ != "message_stop"@ && "content_block_start"@ != "message_stop"@
            && "content_block_delta"@ != "message_stop"@ && "content_block_stop"@ != "message_stop"@
            && "message_delta"@ != "message_stop"@ && "error"@ != "content_block_delta"@
            && "error"@ != "message_stop"@ && "thinking_delta"@ != "text_delta"@,
{
    reveal_strlit("message_start");
    reveal_strlit("content_block_start");
    reveal_strlit("content_block_delta");
    reveal_strlit("content_block_stop");
    reveal_strlit("message_delta");
    reveal_strlit("message_stop");
    reveal_strlit("error");
    reveal_strlit("text_delta");
    reveal_strlit("thinking_delta");
    assert("content_block_start"@[14] != "content_block_delta"@[14]);
    assert("message_start"@.len() != "message_stop"@.len());
    assert("content_block_stop"@.len() != "message_stop"@.len());
    assert("content_block_start"@.len() != "message_stop"@.len());
    assert("content_block_delta"@.len() != "message_stop"@.len());
    assert("message_delta"@.len() != "message_stop"@.len());
    assert("message_start"@.len() != "content_block_delta"@.len());
    assert("error"@.len() != "content_block_delta"@.len() && "error"@.len() != "message_stop"@.len());
    assert("thinking_delta"@.len() != "text_delta"@.len());
}

/// Text is streamed: a `content_block_delta` whose delta is a `text_delta` with
/// non-empty text yields exactly one content event with that text, and leaves the
/// state as it was.
pub proof fn law_anthropic_text_delta(v: JsonValue, st: AnthropicV, d: JsonValue, t: Seq<char>)
    requires
        jstr(jget(v, "type"@)) == Some("content_block_delta"@),
        jget(v, "delta"@) == Some(d),
        jstr(jget(d, "type"@)) == Some("text_delta"@),
        jstr(jget(d, "text"@)) == Some(t),
        t.len() > 0,
    ensures
        anthropic_json(v, st) == (DecodeV::Events(seq![EventV::Content(t)]), st),
{
    lemma_anthropic_types();
}

/// `message_stop` ends the stream once: the last event is the completion with the
/// reason `message_delta` recorded (`max_tokens` reads as the length limit); when usage
/// was not reported yet and input and output counts were seen (with no usage object
/// kept), a usage event with those counts and their sum comes just before it.
pub proof fn law_anthropic_message_stop(v: JsonValue, st: AnthropicV, i: u32, o: u32)
    requires
        jstr(jget(v, "type"@)) == Some("message_stop"@),
        !st.completed,
    ensures
        anthropic_json(v, st).0 matches DecodeV::Events(evs) && evs.len() > 0
            && evs.last() == EventV::Completed(anthropic_finish(st.stop_reason)),
        anthropic_json(v, st).1.completed,
        st.stop_reason == Some("max_tokens"@) ==> anthropic_finish(st.stop_reason) == FinishView::Length,
        !st.usage_emitted && st.last_usage is None && st.input_tokens == Some(i) && st.output_tokens
            == Some(o) ==> ({
            let evs = anthropic_json(v, st).0->Events_0;
            &&& evs.len() >= 2
            &&& evs[evs.len() - 2] is Usage
            &&& evs[evs.len() - 2]->Usage_0.prompt_tokens == Some(i)
            &&& evs[evs.len() - 2]->Usage_0.completion_tokens == Some(o)
            &&& evs[evs.len() - 2]->Usage_0.total_tokens == Some(
                if i + o > u32::MAX {
                    u32::MAX
                } else {
                    (i + o) as u32
                },
            )
        }),
{
    lemma_anthropic_types();
    reveal_strlit("max_tokens");
    reveal_strlit("end_turn");
    reveal_strlit("stop_sequence");
    reveal_strlit("refusal");
    assert("max_tokens"@.len() == 10 && "end_turn"@.len() == 8 && "stop_sequence"@.len() == 13);
    if st.stop_reason == Some("max_tokens"@) {
        assert(trim("max_tokens"@) == "max_tokens"@) by {
            assert(!crate::text::is_ws('m') && !crate::text::is_ws('s'));
        }
    }
}

} // verus!
