//! Decode OpenAI `chat.completion.chunk` SSE data payloads into stream events.

use vstd::prelude::*;

use crate::decode::{
    append_events, bad_json, index_field, no_events, nonempty, nonempty_str, one_event, opt_or,
    or_value, outcome_is, parse_payload, push_event, index_or_zero, no_completion, DecodeV, ErrV,
    MessageV,
};
use crate::error::{ProtocolError, ProtocolErrorKind};
use crate::finish::{chat_completions_finish, openai_chat_completions};
use crate::http_error::{openai_error_code, openai_error_fields, raw_error_message};
use crate::json::{
    as_array, as_str, get, get_opt, jarray, jget, jget_opt, json_parse, jstr, opt_ref, refs_seq,
    JsonValue,
};
use crate::pending::{
    default_slot, finish_all, finish_event, finish_events, set_slot, slot_or_default, take_slot, text_or_empty,
    SlotV, ToolSlot, ToolTable,
};
use crate::text::{is_blank_str, is_ws, owned, push_str, str_eq, trim, trim_str};
use crate::types::{events_v, EventV, FinishView, StreamEvent};
use crate::usage::{chat_usage, from_openai_chat_usage};

verus! {

/// Per-stream decoder state for OpenAI chat chunks.
pub struct ChunkDecodeState {
    pub finish_reason: Option<String>,
    pub completed: bool,
    pending_tools: ToolTable,
}

/// The mathematical content of the decoder state.
pub struct ChunkV {
    pub finish_reason: Option<Seq<char>>,
    pub completed: bool,
    pub tools: Seq<SlotV>,
}

impl View for ChunkDecodeState {
    type V = ChunkV;

    closed spec fn view(&self) -> ChunkV {
        ChunkV {
            finish_reason: self.finish_reason.deep_view(),
            completed: self.completed,
            tools: self.pending_tools@,
        }
    }
}

impl ChunkDecodeState {
    /// The last non-empty `finish_reason` seen, if any.
    pub fn last_finish_reason(&self) -> (r: Option<&str>)
        ensures
            r.deep_view() == self@.finish_reason,
    {
        match &self.finish_reason {
            Some(s) => Some(s.as_str()),
            None => None,
        }
    }

    /// A fresh state: no finish reason, not completed, no tool calls.
    pub fn new() -> (s: Self)
        ensures
            s@ == (ChunkV { finish_reason: None, completed: false, tools: Seq::<SlotV>::empty() }),
    {
        ChunkDecodeState { finish_reason: None, completed: false, pending_tools: ToolTable::new() }
    }
}

impl Default for ChunkDecodeState {
    fn default() -> (s: Self)
        ensures
            s@ == (ChunkV { finish_reason: None, completed: false, tools: Seq::<SlotV>::empty() }),
    {
        ChunkDecodeState::new()
    }
}

/// The one-element event list, or none.
pub open spec fn opt_event(e: Option<EventV>) -> Seq<EventV> {
    match e {
        Some(x) => seq![x],
        None => seq![],
    }
}

/// One entry of `delta.tool_calls`: updates the slot for its index and reports it.
pub open spec fn tool_call_delta(tc: JsonValue, t: Seq<SlotV>) -> (Seq<EventV>, Seq<SlotV>) {
    let index = index_or_zero(jget(tc, "index"@));
    let slot = slot_or_default(t, index);
    let fun = jget(tc, "function"@);
    let id = match nonempty(jstr(jget(tc, "id"@))) {
        Some(x) => Some(x),
        None => slot.id,
    };
    let name = match nonempty(jstr(jget_opt(fun, "name"@))) {
        Some(x) => Some(x),
        None => slot.name,
    };
    let delta = text_or_empty(jstr(jget_opt(fun, "arguments"@)));
    let t2 = set_slot(t, SlotV { id, name, arguments: slot.arguments + delta, ..slot });
    let any = id is Some || name is Some || delta.len() > 0 || fun is Some;
    if any {
        (seq![EventV::ToolDelta { id, name, delta, index: Some(index) }], t2)
    } else {
        (seq![], t2)
    }
}

/// All entries of `delta.tool_calls`, in order.
pub open spec fn tool_call_deltas(a: Seq<JsonValue>, t: Seq<SlotV>) -> (Seq<EventV>, Seq<SlotV>)
    decreases a.len(),
{
    if a.len() == 0 {
        (seq![], t)
    } else {
        let (e0, t0) = tool_call_deltas(a.drop_last(), t);
        let (e1, t1) = tool_call_delta(a.last(), t0);
        (e0 + e1, t1)
    }
}

/// The events of `choices[0].delta`: reasoning text, content text, tool call deltas.
pub open spec fn delta_events(d: JsonValue, t: Seq<SlotV>) -> (Seq<EventV>, Seq<SlotV>) {
    let reasoning = match nonempty(jstr(opt_or(jget(d, "reasoning_content"@), jget(d, "reasoning"@)))) {
        Some(x) => Some(EventV::Reasoning(x)),
        None => None,
    };
    let content = match nonempty(jstr(jget(d, "content"@))) {
        Some(x) => Some(EventV::Content(x)),
        None => None,
    };
    let (e3, t3) = match jarray(jget(d, "tool_calls"@)) {
        Some(a) => tool_call_deltas(a, t),
        None => (seq![], t),
    };
    (opt_event(reasoning) + opt_event(content) + e3, t3)
}

/// The first element of `choices`.
pub open spec fn first_choice(v: JsonValue) -> Option<JsonValue> {
    match jarray(jget(v, "choices"@)) {
        Some(a) => if a.len() > 0 {
            Some(a[0])
        } else {
            None
        },
        None => None,
    }
}

/// A chunk that is not an error: usage, then what `choices[0]` carries.
pub open spec fn chunk_value(v: JsonValue, st: ChunkV) -> (DecodeV, ChunkV) {
    let ev_usage = match jget(v, "usage"@) {
        Some(u) => match chat_usage(u) {
            Some(x) => seq![EventV::Usage(x)],
            None => seq![],
        },
        None => seq![],
    };
    match first_choice(v) {
        None => (DecodeV::Events(ev_usage), st),
        Some(c) => {
            let (ev_delta, t1) = match jget(c, "delta"@) {
                Some(d) => delta_events(d, st.tools),
                None => (seq![], st.tools),
            };
            match nonempty(jstr(jget(c, "finish_reason"@))) {
                None => (DecodeV::Events(ev_usage + ev_delta), ChunkV { tools: t1, ..st }),
                Some(r) => if r == "tool_calls"@ {
                    (
                        DecodeV::Events(ev_usage + ev_delta + finish_events(t1)),
                        ChunkV { finish_reason: Some(r), tools: seq![], ..st },
                    )
                } else {
                    (
                        DecodeV::Events(ev_usage + ev_delta),
                        ChunkV { finish_reason: Some(r), tools: t1, ..st },
                    )
                },
            }
        },
    }
}

/// The error a chunk with an `error` member stands for.
pub open spec fn chunk_error(v: JsonValue) -> ErrV {
    ErrV {
        kind: ProtocolErrorKind::ProviderUnavailable,
        message: match raw_error_message(v) {
            Some(m) => MessageV::Redacted(m),
            None => MessageV::Plain("服务商在流中返回错误"@),
        },
        code: openai_error_code(v),
    }
}

/// What a parsed chunk gives and how it changes the state: the error it carries, or its
/// usage and `choices[0]`.
pub open spec fn chunk_json(v: JsonValue, st: ChunkV) -> (DecodeV, ChunkV) {
    if jget(v, "error"@) is Some {
        (DecodeV::Failure(chunk_error(v)), st)
    } else {
        chunk_value(v, st)
    }
}

/// What one `data` payload gives and how it changes the state.
pub open spec fn chunk_decode(data: Seq<char>, st: ChunkV) -> (DecodeV, ChunkV) {
    let t = trim(data);
    if t.len() == 0 {
        (DecodeV::Events(seq![]), st)
    } else if t == "[DONE]"@ {
        if st.completed {
            (DecodeV::Events(seq![]), st)
        } else {
            (
                DecodeV::Events(
                    finish_events(st.tools) + seq![
                        EventV::Completed(chat_completions_finish(st.finish_reason)),
                    ],
                ),
                ChunkV { completed: true, tools: seq![], ..st },
            )
        }
    } else {
        match json_parse(t) {
            Err(m) => (DecodeV::Failure(bad_json(m)), st),
            Ok(v) => chunk_json(v, st),
        }
    }
}

fn decode_tool_call_delta(table: &mut ToolTable, tc: &JsonValue) -> (events: Vec<StreamEvent>)
    ensures
        events_v(events@) == tool_call_delta(*tc, old(table)@).0,
        final(table)@ == tool_call_delta(*tc, old(table)@).1,
{
    let index = index_field(get(tc, "index"));
    let mut slot = take_slot(table, index);
    let fun = get(tc, "function");
    if let Some(id) = nonempty_str(get(tc, "id")) {
        slot.id = Some(id);
    }
    if let Some(name) = nonempty_str(get_opt(fun, "name")) {
        slot.name = Some(name);
    }
    let args_delta: String = match as_str(get_opt(fun, "arguments")) {
        Some(s) => owned(s),
        None => String::new(),
    };
    push_str(&mut slot.arguments, args_delta.as_str());
    let has_any = slot.id.is_some() || slot.name.is_some() || !args_delta.as_str().is_empty()
        || fun.is_some();
    let (id, name) = crate::pending::slot_names(&slot);
    let ghost sv = slot@;
    table.put(slot);
    if !has_any {
        return no_events();
    }
    one_event(StreamEvent::ToolCallDelta { id, name, arguments_delta: args_delta, index: Some(index) })
}

fn decode_delta(table: &mut ToolTable, d: &JsonValue) -> (events: Vec<StreamEvent>)
    ensures
        events_v(events@) == delta_events(*d, old(table)@).0,
        final(table)@ == delta_events(*d, old(table)@).1,
{
    let mut events = no_events();
    if let Some(text) = nonempty_str(or_value(get(d, "reasoning_content"), get(d, "reasoning"))) {
        push_event(&mut events, StreamEvent::ReasoningDelta { text });
    }
    let ghost e1 = events_v(events@);
    if let Some(text) = nonempty_str(get(d, "content")) {
        push_event(&mut events, StreamEvent::ContentDelta { text });
    }
    let ghost e2 = events_v(events@);
    let ghost t0 = table@;
    match as_array(get(d, "tool_calls")) {
        Some(arr) => {
            let ghost a = refs_seq(arr@);
            let mut i: usize = 0;
            while i < arr.len()
                invariant
                    0 <= i <= arr@.len(),
                    a == refs_seq(arr@),
                    events_v(events@) == e2 + tool_call_deltas(a.take(i as int), t0).0,
                    table@ == tool_call_deltas(a.take(i as int), t0).1,
                decreases arr.len() - i,
            {
                proof {
                    assert(a.take(i + 1).drop_last() == a.take(i as int));
                    assert(a.take(i + 1).last() == *arr@[i as int]);
                }
                let more = decode_tool_call_delta(table, arr[i]);
                append_events(&mut events, more);
                i = i + 1;
            }
            assert(a.take(arr@.len() as int) == a);
        },
        None => {},
    }
    proof {
        let reasoning = match nonempty(jstr(opt_or(jget(*d, "reasoning_content"@), jget(*d, "reasoning"@)))) {
            Some(x) => Some(EventV::Reasoning(x)),
            None => None,
        };
        assert(e1 == crate::openai_chunk::opt_event(reasoning));
    }
    events
}

/// Decode one SSE `data` payload into zero or more stream events.
pub fn decode_sse_data(data: &str, state: &mut ChunkDecodeState) -> (r: Result<
    Vec<StreamEvent>,
    ProtocolError,
>)
    ensures
        outcome_is(r, chunk_decode(data@, old(state)@).0),
        final(state)@ == chunk_decode(data@, old(state)@).1,
{
    let trimmed = trim_str(data);
    if trimmed.as_str().is_empty() {
        return Ok(no_events());
    }
    if str_eq(trimmed.as_str(), "[DONE]") {
        if state.completed {
            return Ok(no_events());
        }
        state.completed = true;
        let mut events = finish_all(&state.pending_tools);
        state.pending_tools.clear();
        let reason: Option<&str> = match &state.finish_reason {
            Some(s) => Some(s.as_str()),
            None => None,
        };
        assert(reason.deep_view() == state.finish_reason.deep_view());
        let ghost tools0 = old(state)@.tools;
        let f = openai_chat_completions(reason);
        let ghost fv = f@;
        push_event(&mut events, StreamEvent::Completed { finish_reason: f });
        assert(events_v(events@) =~= finish_events(tools0) + seq![EventV::Completed(fv)]);
        return Ok(events);
    }
    let value = match parse_payload(trimmed.as_str()) {
        Ok(v) => v,
        Err(e) => {
            return Err(e);
        },
    };
    decode_chunk_value(&value, state)
}

/// Decode one parsed chunk.
pub fn decode_chunk_value(value: &JsonValue, state: &mut ChunkDecodeState) -> (r: Result<
    Vec<StreamEvent>,
    ProtocolError,
>)
    ensures
        outcome_is(r, chunk_json(*value, old(state)@).0),
        final(state)@ == chunk_json(*value, old(state)@).1,
{
    if get(value, "error").is_some() {
        let (msg, code) = openai_error_fields(value);
        let message = match msg {
            Some(m) => m,
            None => owned("服务商在流中返回错误"),
        };
        let mut err = ProtocolError::new(ProtocolErrorKind::ProviderUnavailable, message);
        if let Some(code) = code {
            err = err.with_provider_code(code);
        }
        return Err(err);
    }
    let mut events = no_events();
    if let Some(usage_val) = get(value, "usage") {
        if let Some(usage) = from_openai_chat_usage(usage_val) {
            push_event(&mut events, StreamEvent::Usage(usage));
        }
    }
    let ghost ev_usage = events_v(events@);
    let choices = as_array(get(value, "choices"));
    let choice: Option<&JsonValue> = match &choices {
        Some(a) => if a.len() > 0 {
            Some(a[0])
        } else {
            None
        },
        None => None,
    };
    assert(opt_ref(choice) == first_choice(*value));
    let ghost st0 = state@;
    if let Some(c) = choice {
        if let Some(d) = get(c, "delta") {
            let more = decode_delta(&mut state.pending_tools, d);
            append_events(&mut events, more);
        }
        if let Some(reason) = nonempty_str(get(c, "finish_reason")) {
            let is_tools = str_eq(reason.as_str(), "tool_calls");
            state.finish_reason = Some(reason);
            if is_tools {
                let more = finish_all(&state.pending_tools);
                state.pending_tools.clear();
                append_events(&mut events, more);
            }
        }
    }
    Ok(events)
}


proof fn lemma_finish_events_no_completion(t: Seq<SlotV>)
    ensures
        no_completion(finish_events(t)),
    decreases t.len(),
{
    if t.len() > 0 {
        lemma_finish_events_no_completion(t.drop_last());
        let a = finish_events(t.drop_last());
        let b = finish_event(t.last());
        assert forall|i: int| 0 <= i < (a + b).len() implies !(#[trigger] (a + b)[i] is Completed) by {
            if i >= a.len() {
                assert((a + b)[i] == b[i - a.len()]);
            }
        }
    }
}

proof fn lemma_tool_call_deltas_no_completion(a: Seq<JsonValue>, t: Seq<SlotV>)
    ensures
        no_completion(tool_call_deltas(a, t).0),
    decreases a.len(),
{
    if a.len() > 0 {
        lemma_tool_call_deltas_no_completion(a.drop_last(), t);
        let (e0, t0) = tool_call_deltas(a.drop_last(), t);
        let e1 = tool_call_delta(a.last(), t0).0;
        assert forall|i: int| 0 <= i < (e0 + e1).len() implies !(#[trigger] (e0 + e1)[i] is Completed) by {
            if i >= e0.len() {
                assert((e0 + e1)[i] == e1[i - e0.len()]);
            }
        }
    }
}

proof fn lemma_concat_no_completion(a: Seq<EventV>, b: Seq<EventV>)
    requires
        no_completion(a),
        no_completion(b),
    ensures
        no_completion(a + b),
{
    assert forall|i: int| 0 <= i < (a + b).len() implies !(#[trigger] (a + b)[i] is Completed) by {
        if i < a.len() {
            assert((a + b)[i] == a[i]);
        } else {
            assert((a + b)[i] == b[i - a.len()]);
        }
    }
}

/// A Chat Completions stream reports its completion once: after `[DONE]` has completed
/// the state, every later payload leaves it completed and yields no second `Completed`.
pub proof fn law_completed_once(data: Seq<char>, st: ChunkV)
    requires
        st.completed,
    ensures
        chunk_decode(data, st).1.completed,
        chunk_decode(data, st).0 matches DecodeV::Events(es) ==> no_completion(es),
{
    let t = trim(data);
    if t.len() != 0 && t != "[DONE]"@ {
        if let Ok(v) = json_parse(t) {
            let ev_usage = match jget(v, "usage"@) {
                Some(u) => match chat_usage(u) {
                    Some(x) => seq![EventV::Usage(x)],
                    None => seq![],
                },
                None => seq![],
            };
            assert(no_completion(ev_usage));
            if let Some(c) = first_choice(v) {
                let (ev_delta, t1) = match jget(c, "delta"@) {
                    Some(d) => delta_events(d, st.tools),
                    None => (seq![], st.tools),
                };
                if let Some(d) = jget(c, "delta"@) {
                    let reasoning = match nonempty(jstr(opt_or(jget(d, "reasoning_content"@), jget(d, "reasoning"@)))) {
                        Some(x) => Some(EventV::Reasoning(x)),
                        None => None,
                    };
                    let content = match nonempty(jstr(jget(d, "content"@))) {
                        Some(x) => Some(EventV::Content(x)),
                        None => None,
                    };
                    let (e3, t3) = match jarray(jget(d, "tool_calls"@)) {
                        Some(a) => tool_call_deltas(a, st.tools),
                        None => (seq![], st.tools),
                    };
                    if let Some(a) = jarray(jget(d, "tool_calls"@)) {
                        lemma_tool_call_deltas_no_completion(a, st.tools);
                    }
                    assert(no_completion(opt_event(reasoning)));
                    assert(no_completion(opt_event(content)));
                    lemma_concat_no_completion(opt_event(reasoning), opt_event(content));
                    lemma_concat_no_completion(opt_event(reasoning) + opt_event(content), e3);
                }
                assert(no_completion(ev_delta));
                lemma_concat_no_completion(ev_usage, ev_delta);
                lemma_finish_events_no_completion(t1);
                lemma_concat_no_completion(ev_usage + ev_delta, finish_events(t1));
            }
        }
    }
}


/// Chunk text is streamed: a chunk (not an error) whose first choice's delta carries
/// non-empty `content` yields a content event with exactly that text, and the reasoning
/// text likewise.
pub proof fn law_chat_chunk_streams_text(v: JsonValue, st: ChunkV, c: JsonValue, d: JsonValue, t: Seq<char>, r: Seq<char>)
    requires
        jget(v, "error"@) is None,
        first_choice(v) == Some(c),
        jget(c, "delta"@) == Some(d),
    ensures
        chunk_json(v, st).0 is Events,
        jstr(jget(d, "content"@)) == Some(t) && t.len() > 0 ==> chunk_json(v, st).0->Events_0.contains(
            EventV::Content(t),
        ),
        jstr(jget(d, "reasoning_content"@)) == Some(r) && r.len() > 0 ==> chunk_json(v, st).0->Events_0.contains(
            EventV::Reasoning(r),
        ),
{
    let ev_usage = match jget(v, "usage"@) {
        Some(u) => match chat_usage(u) {
            Some(x) => seq![EventV::Usage(x)],
            None => seq![],
        },
        None => seq![],
    };
    let (ev_delta, t1) = delta_events(d, st.tools);
    let reasoning = match nonempty(jstr(opt_or(jget(d, "reasoning_content"@), jget(d, "reasoning"@)))) {
        Some(x) => Some(EventV::Reasoning(x)),
        None => None,
    };
    let content = match nonempty(jstr(jget(d, "content"@))) {
        Some(x) => Some(EventV::Content(x)),
        None => None,
    };
    let evs = chunk_json(v, st).0->Events_0;
    assert(evs.len() >= ev_usage.len() + ev_delta.len());
    assert(forall|i: int| 0 <= i < ev_delta.len() ==> evs[ev_usage.len() + i] == ev_delta[i]);
    if jstr(jget(d, "content"@)) == Some(t) && t.len() > 0 {
        let i = opt_event(reasoning).len() as int;
        assert(ev_delta[i] == EventV::Content(t));
        assert(evs[ev_usage.len() + i] == EventV::Content(t));
    }
    if jstr(jget(d, "reasoning_content"@)) == Some(r) && r.len() > 0 {
        assert(opt_or(jget(d, "reasoning_content"@), jget(d, "reasoning"@)) == jget(d, "reasoning_content"@));
        assert(ev_delta[0] == EventV::Reasoning(r));
        assert(evs[ev_usage.len() as int] == EventV::Reasoning(r));
    }
}

/// `[DONE]` completes the stream once, with the finish reason the chunks gave: when
/// the last recorded `finish_reason` is `length`, the stream completes as cut off at
/// the length limit; with no reason recorded it completes with an unknown reason.
pub proof fn law_chat_done_completes(data: Seq<char>, st: ChunkV)
    requires
        trim(data) == "[DONE]"@,
        !st.completed,
    ensures
        chunk_decode(data, st).0 matches DecodeV::Events(evs) && evs.len() > 0 && evs.last()
            == EventV::Completed(chat_completions_finish(st.finish_reason)),
        chunk_decode(data, st).1.completed,
        st.finish_reason == Some("length"@) ==> chunk_decode(data, st).0->Events_0.last()
            == EventV::Completed(FinishView::Length),
        st.finish_reason == Some("stop"@) ==> chunk_decode(data, st).0->Events_0.last()
            == EventV::Completed(FinishView::Stop),
        chunk_decode(data, ChunkV { completed: true, ..st }).0 == DecodeV::Events(Seq::<EventV>::empty()),
{
    reveal_strlit("[DONE]");
    reveal_strlit("length");
    reveal_strlit("stop");
    assert(!is_ws('l') && !is_ws('h') && !is_ws('s') && !is_ws('p'));
    assert(trim("length"@) == "length"@);
    assert(trim("stop"@) == "stop"@);
    assert("length"@ != "stop"@);
}

} // verus!
