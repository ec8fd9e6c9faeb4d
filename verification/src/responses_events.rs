//! Decode OpenAI Responses semantic SSE JSON into stream events.
//!
//! Independent from the Chat Completions chunk decoder.

use vstd::prelude::*;

use crate::decode::{
    append_events, bad_json, index_field, index_or_zero, no_events, nonempty, nonempty_str,
    one_event, opt_or, or_value, outcome_is, parse_payload, push_event, no_completion, DecodeV, ErrV, MessageV,
};
use crate::error::{redact_secrets, ProtocolError, ProtocolErrorKind};
use crate::finish::{openai_responses, responses_finish};
use crate::http_error::{openai_error_code, openai_error_fields, raw_error_message};
use crate::json::{
    as_array, as_str, get, get_opt, jarray, jget, jget_opt, json_parse, jstr, opt_ref, refs_seq,
    JsonValue,
};
use crate::pending::{
    finish_at_events, finish_events, mark_all, mark_slot, set_slot, slot_or_default, take_slot,
    text_or_empty, SlotV, ToolSlot, ToolTable,
};
use crate::text::{owned, push_str, str_eq, trim, trim_str};
use crate::types::{events_v, EventV, StreamEvent};
use crate::usage::{count, from_openai_responses_usage, responses_usage};

verus! {

/// Per-stream decoder state for Responses semantic events.
pub struct EventDecodeState {
    pub completed: bool,
    pending_calls: ToolTable,
}

/// The mathematical content of the decoder state.
pub struct ResponsesV {
    pub completed: bool,
    pub calls: Seq<SlotV>,
}

impl View for EventDecodeState {
    type V = ResponsesV;

    closed spec fn view(&self) -> ResponsesV {
        ResponsesV { completed: self.completed, calls: self.pending_calls@ }
    }
}

impl EventDecodeState {
    /// A fresh state.
    pub fn new() -> (s: Self)
        ensures
            s@ == (ResponsesV { completed: false, calls: Seq::<SlotV>::empty() }),
    {
        EventDecodeState { completed: false, pending_calls: ToolTable::new() }
    }
}

impl Default for EventDecodeState {
    fn default() -> (s: Self)
        ensures
            s@ == (ResponsesV { completed: false, calls: Seq::<SlotV>::empty() }),
    {
        EventDecodeState::new()
    }
}

/// The output item index: `output_index`, else `index`, else 0.
pub open spec fn item_index(v: JsonValue) -> u32 {
    index_or_zero(opt_or(jget(v, "output_index"@), jget(v, "index"@)))
}

/// A present non-empty text, else the fallback.
pub open spec fn or_keep(t: Option<Seq<char>>, keep: Option<Seq<char>>) -> Option<Seq<char>> {
    match t {
        Some(x) => Some(x),
        None => keep,
    }
}

/// The item of an `output_item` event when it is a function call.
pub open spec fn function_item(v: JsonValue) -> Option<JsonValue> {
    match jget(v, "item"@) {
        Some(item) => if jstr(jget(item, "type"@)) == Some("function_call"@) {
            Some(item)
        } else {
            None
        },
        None => None,
    }
}

/// The slot for an item, with the item's call id and name applied.
pub open spec fn item_slot(item: JsonValue, slot: SlotV) -> SlotV {
    SlotV {
        id: or_keep(nonempty(jstr(opt_or(jget(item, "call_id"@), jget(item, "id"@)))), slot.id),
        name: or_keep(nonempty(jstr(jget(item, "name"@))), slot.name),
        ..slot
    }
}

/// Arguments given whole, used only when none arrived in pieces.
pub open spec fn whole_arguments(given: Option<Seq<char>>, current: Seq<char>) -> Seq<char> {
    match given {
        Some(a) => if current.len() == 0 {
            a
        } else {
            current
        },
        None => current,
    }
}

/// `response.output_item.added`.
pub open spec fn item_added(v: JsonValue, t: Seq<SlotV>) -> (Seq<EventV>, Seq<SlotV>) {
    match function_item(v) {
        None => (seq![], t),
        Some(item) => {
            let index = item_index(v);
            let s = item_slot(item, slot_or_default(t, index));
            (seq![EventV::ToolDelta { id: s.id, name: s.name, delta: seq![], index: Some(index) }], set_slot(t, s))
        },
    }
}

/// `response.function_call_arguments.delta`.
pub open spec fn arguments_delta(v: JsonValue, t: Seq<SlotV>) -> (Seq<EventV>, Seq<SlotV>) {
    let index = item_index(v);
    let delta = text_or_empty(jstr(jget(v, "delta"@)));
    let slot = slot_or_default(t, index);
    let id = match nonempty(jstr(opt_or(jget(v, "call_id"@), jget(v, "item_id"@)))) {
        Some(x) => if slot.id is None {
            Some(x)
        } else {
            slot.id
        },
        None => slot.id,
    };
    let s = SlotV { id, arguments: slot.arguments + delta, ..slot };
    (seq![EventV::ToolDelta { id, name: slot.name, delta, index: Some(index) }], set_slot(t, s))
}

/// `response.function_call_arguments.done`: complete the slot, then finish it.
pub open spec fn arguments_done(v: JsonValue, t: Seq<SlotV>) -> (Seq<EventV>, Seq<SlotV>) {
    let index = item_index(v);
    let slot = slot_or_default(t, index);
    let s = SlotV {
        arguments: whole_arguments(jstr(jget(v, "arguments"@)), slot.arguments),
        id: or_keep(nonempty(jstr(jget(v, "call_id"@))), slot.id),
        name: or_keep(nonempty(jstr(jget(v, "name"@))), slot.name),
        ..slot
    };
    let t2 = set_slot(t, s);
    (finish_at_events(t2, index), mark_slot(t2, index))
}

/// `response.output_item.done`: complete the slot from the item, then finish it.
pub open spec fn item_done(v: JsonValue, t: Seq<SlotV>) -> (Seq<EventV>, Seq<SlotV>) {
    match function_item(v) {
        None => (seq![], t),
        Some(item) => {
            let index = item_index(v);
            let s0 = item_slot(item, slot_or_default(t, index));
            let s = SlotV {
                arguments: whole_arguments(jstr(jget(item, "arguments"@)), s0.arguments),
                ..s0
            };
            let t2 = set_slot(t, s);
            (finish_at_events(t2, index), mark_slot(t2, index))
        },
    }
}

/// Whether the final response's output holds a function call.
pub open spec fn has_function_call(response: Option<JsonValue>) -> bool {
    match jarray(jget_opt(response, "output"@)) {
        Some(items) => exists|i: int|
            0 <= i < items.len() && jstr(jget(#[trigger] items[i], "type"@)) == Some(
                "function_call"@,
            ),
        None => false,
    }
}

/// Usage of the final response, then completion with `reason`.
pub open spec fn terminal_events(response: Option<JsonValue>, reason: FinishFromResponse) -> Seq<
    EventV,
> {
    let usage = match jget_opt(response, "usage"@) {
        Some(u) => match responses_usage(u) {
            Some(x) => seq![EventV::Usage(x)],
            None => seq![],
        },
        None => seq![],
    };
    usage + seq![EventV::Completed(reason.view)]
}

/// A finish reason, as the table maps it.
pub struct FinishFromResponse {
    pub view: crate::types::FinishView,
}

/// The error of a `response.failed` event.
pub open spec fn failed_error(response: Option<JsonValue>) -> ErrV {
    match jget_opt(response, "error"@) {
        Some(e) => ErrV {
            kind: ProtocolErrorKind::ProviderUnavailable,
            message: MessageV::Redacted(
                match jstr(jget(e, "message"@)) {
                    Some(m) => m,
                    None => "Response 失败"@,
                },
            ),
            code: jstr(jget(e, "code"@)),
        },
        None => ErrV {
            kind: ProtocolErrorKind::ProviderUnavailable,
            message: MessageV::Plain("Response 失败"@),
            code: None,
        },
    }
}

/// The error of an `error` event.
pub open spec fn stream_event_error(v: JsonValue) -> ErrV {
    ErrV {
        kind: ProtocolErrorKind::ProviderUnavailable,
        message: MessageV::Redacted(
            match jstr(jget(v, "message"@)) {
                Some(m) => m,
                None => "服务商在流中返回错误"@,
            },
        ),
        code: jstr(jget(v, "code"@)),
    }
}

/// The error of an untyped payload with an `error` member.
pub open spec fn untyped_error(v: JsonValue) -> ErrV {
    ErrV {
        kind: ProtocolErrorKind::ProviderUnavailable,
        message: match raw_error_message(v) {
            Some(m) => MessageV::Redacted(m),
            None => MessageV::Plain("服务商在流中返回错误"@),
        },
        code: openai_error_code(v),
    }
}

/// An event that is not an untyped error, by its `type`.
pub open spec fn responses_event(v: JsonValue, st: ResponsesV) -> (DecodeV, ResponsesV) {
    let ty = text_or_empty(jstr(jget(v, "type"@)));
    let resp = jget(v, "response"@);
    if ty == "response.output_text.delta"@ {
        match nonempty(jstr(jget(v, "delta"@))) {
            Some(t) => (DecodeV::Events(seq![EventV::Content(t)]), st),
            None => (DecodeV::Events(seq![]), st),
        }
    } else if ty == "response.reasoning_summary_text.delta"@ || ty == "response.reasoning_text.delta"@
        || ty == "response.reasoning.delta"@ {
        match nonempty(jstr(jget(v, "delta"@))) {
            Some(t) => (DecodeV::Events(seq![EventV::Reasoning(t)]), st),
            None => (DecodeV::Events(seq![]), st),
        }
    } else if ty == "response.output_item.added"@ {
        let (e, t) = item_added(v, st.calls);
        (DecodeV::Events(e), ResponsesV { calls: t, ..st })
    } else if ty == "response.function_call_arguments.delta"@ {
        let (e, t) = arguments_delta(v, st.calls);
        (DecodeV::Events(e), ResponsesV { calls: t, ..st })
    } else if ty == "response.function_call_arguments.done"@ {
        let (e, t) = arguments_done(v, st.calls);
        (DecodeV::Events(e), ResponsesV { calls: t, ..st })
    } else if ty == "response.output_item.done"@ {
        let (e, t) = item_done(v, st.calls);
        (DecodeV::Events(e), ResponsesV { calls: t, ..st })
    } else if ty == "response.completed"@ {
        if st.completed {
            (DecodeV::Events(seq![]), st)
        } else {
            let reason = if has_function_call(resp) {
                responses_finish(Some("tool_use"@))
            } else {
                responses_finish(Some("stop"@))
            };
            (
                DecodeV::Events(
                    finish_events(st.calls) + terminal_events(
                        resp,
                        FinishFromResponse { view: reason },
                    ),
                ),
                ResponsesV { completed: true, calls: mark_all(st.calls) },
            )
        }
    } else if ty == "response.incomplete"@ {
        if st.completed {
            (DecodeV::Events(seq![]), st)
        } else {
            let reason = match jstr(jget_opt(jget_opt(resp, "incomplete_details"@), "reason"@)) {
                Some(r) => r,
                None => "incomplete"@,
            };
            (
                DecodeV::Events(
                    finish_events(st.calls) + terminal_events(
                        resp,
                        FinishFromResponse { view: responses_finish(Some(reason)) },
                    ),
                ),
                ResponsesV { completed: true, calls: mark_all(st.calls) },
            )
        }
    } else if ty == "response.failed"@ {
        (DecodeV::Failure(failed_error(resp)), st)
    } else if ty == "error"@ {
        (DecodeV::Failure(stream_event_error(v)), st)
    } else {
        (DecodeV::Events(seq![]), st)
    }
}

/// What a parsed event gives and how it changes the state.
pub open spec fn responses_json(v: JsonValue, st: ResponsesV) -> (DecodeV, ResponsesV) {
    if jget(v, "error"@) is Some && jget(v, "type"@) is None {
        (DecodeV::Failure(untyped_error(v)), st)
    } else {
        responses_event(v, st)
    }
}

/// What one `data` payload gives and how it changes the state.
pub open spec fn responses_decode(data: Seq<char>, st: ResponsesV) -> (DecodeV, ResponsesV) {
    let t = trim(data);
    if t.len() == 0 {
        (DecodeV::Events(seq![]), st)
    } else if t == "[DONE]"@ {
        if st.completed {
            (DecodeV::Events(seq![]), st)
        } else {
            (
                DecodeV::Events(seq![EventV::Completed(responses_finish(Some("completed"@)))]),
                ResponsesV { completed: true, ..st },
            )
        }
    } else {
        match json_parse(t) {
            Err(m) => (DecodeV::Failure(bad_json(m)), st),
            Ok(v) => responses_json(v, st),
        }
    }
}

fn item_index_field(value: &JsonValue) -> (r: u32)
    ensures
        r == item_index(*value),
{
    index_field(or_value(get(value, "output_index"), get(value, "index")))
}

fn function_item_of(value: &JsonValue) -> (r: Option<&JsonValue>)
    ensures
        opt_ref(r) == function_item(*value),
{
    match get(value, "item") {
        Some(item) => {
            let is_fc = match as_str(get(item, "type")) {
                Some(t) => str_eq(t, "function_call"),
                None => false,
            };
            if is_fc {
                Some(item)
            } else {
                None
            }
        },
        None => None,
    }
}

fn apply_item(item: &JsonValue, slot: &mut ToolSlot)
    ensures
        final(slot)@ == item_slot(*item, old(slot)@),
{
    if let Some(id) = nonempty_str(or_value(get(item, "call_id"), get(item, "id"))) {
        slot.id = Some(id);
    }
    if let Some(name) = nonempty_str(get(item, "name")) {
        slot.name = Some(name);
    }
}

fn apply_whole_arguments(given: Option<&str>, slot: &mut ToolSlot)
    ensures
        final(slot)@ == (SlotV { arguments: whole_arguments(given.deep_view(), old(slot)@.arguments), ..old(slot)@ }),
{
    if let Some(a) = given {
        if slot.arguments.as_str().is_empty() {
            slot.arguments = owned(a);
        }
    }
}

fn handle_output_item_added(state: &mut EventDecodeState, value: &JsonValue) -> (events: Vec<
    StreamEvent,
>)
    ensures
        events_v(events@) == item_added(*value, old(state)@.calls).0,
        final(state)@ == (ResponsesV { calls: item_added(*value, old(state)@.calls).1, ..old(state)@ }),
{
    let item = match function_item_of(value) {
        Some(i) => i,
        None => {
            return no_events();
        },
    };
    let index = item_index_field(value);
    let mut slot = take_slot(&state.pending_calls, index);
    apply_item(item, &mut slot);
    let (id, name) = crate::pending::slot_names(&slot);
    state.pending_calls.put(slot);
    one_event(
        StreamEvent::ToolCallDelta { id, name, arguments_delta: String::new(), index: Some(index) },
    )
}

fn handle_function_call_arguments_delta(state: &mut EventDecodeState, value: &JsonValue) -> (events:
    Vec<StreamEvent>)
    ensures
        events_v(events@) == arguments_delta(*value, old(state)@.calls).0,
        final(state)@ == (ResponsesV { calls: arguments_delta(*value, old(state)@.calls).1, ..old(state)@ }),
{
    let index = item_index_field(value);
    let delta: String = match as_str(get(value, "delta")) {
        Some(d) => owned(d),
        None => String::new(),
    };
    let mut slot = take_slot(&state.pending_calls, index);
    let name = match &slot.name {
        Some(n) => Some(owned(n.as_str())),
        None => None,
    };
    push_str(&mut slot.arguments, delta.as_str());
    if let Some(id) = nonempty_str(or_value(get(value, "call_id"), get(value, "item_id"))) {
        if slot.id.is_none() {
            slot.id = Some(id);
        }
    }
    let (id, _) = crate::pending::slot_names(&slot);
    state.pending_calls.put(slot);
    one_event(StreamEvent::ToolCallDelta { id, name, arguments_delta: delta, index: Some(index) })
}

fn handle_function_call_arguments_done(state: &mut EventDecodeState, value: &JsonValue) -> (events:
    Vec<StreamEvent>)
    ensures
        events_v(events@) == arguments_done(*value, old(state)@.calls).0,
        final(state)@ == (ResponsesV { calls: arguments_done(*value, old(state)@.calls).1, ..old(state)@ }),
{
    let index = item_index_field(value);
    let mut slot = take_slot(&state.pending_calls, index);
    apply_whole_arguments(as_str(get(value, "arguments")), &mut slot);
    if let Some(id) = nonempty_str(get(value, "call_id")) {
        slot.id = Some(id);
    }
    if let Some(name) = nonempty_str(get(value, "name")) {
        slot.name = Some(name);
    }
    state.pending_calls.put(slot);
    state.pending_calls.finish_at(index)
}

fn handle_output_item_done(state: &mut EventDecodeState, value: &JsonValue) -> (events: Vec<
    StreamEvent,
>)
    ensures
        events_v(events@) == item_done(*value, old(state)@.calls).0,
        final(state)@ == (ResponsesV { calls: item_done(*value, old(state)@.calls).1, ..old(state)@ }),
{
    let item = match function_item_of(value) {
        Some(i) => i,
        None => {
            return no_events();
        },
    };
    let index = item_index_field(value);
    let mut slot = take_slot(&state.pending_calls, index);
    apply_item(item, &mut slot);
    apply_whole_arguments(as_str(get(item, "arguments")), &mut slot);
    state.pending_calls.put(slot);
    state.pending_calls.finish_at(index)
}

fn response_has_function_call(response: Option<&JsonValue>) -> (r: bool)
    ensures
        r == has_function_call(opt_ref(response)),
{
    match as_array(get_opt(response, "output")) {
        Some(items) => {
            let ghost s = refs_seq(items@);
            let mut i: usize = 0;
            while i < items.len()
                invariant
                    0 <= i <= items@.len(),
                    s == refs_seq(items@),
                    jarray(jget_opt(opt_ref(response), "output"@)) == Some(s),
                    forall|k: int|
                        0 <= k < i ==> jstr(jget(#[trigger] s[k], "type"@)) != Some(
                            "function_call"@,
                        ),
                decreases items.len() - i,
            {
                assert(s[i as int] == *items@[i as int]);
                if let Some(t) = as_str(get(items[i], "type")) {
                    if str_eq(t, "function_call") {
                        assert(jstr(jget(s[i as int], "type"@)) == Some("function_call"@));
                        return true;
                    }
                }
                i = i + 1;
            }
            false
        },
        None => false,
    }
}

fn push_terminal(events: &mut Vec<StreamEvent>, response: Option<&JsonValue>, finish: crate::types::FinishReason)
    ensures
        events_v(final(events)@) == events_v(old(events)@) + terminal_events(
            opt_ref(response),
            FinishFromResponse { view: finish@ },
        ),
{
    let ghost before = events_v(events@);
    let ghost fv = finish@;
    let mut usage_events = no_events();
    if let Some(u) = get_opt(response, "usage") {
        if let Some(usage) = from_openai_responses_usage(u) {
            push_event(&mut usage_events, StreamEvent::Usage(usage));
        }
    }
    push_event(&mut usage_events, StreamEvent::Completed { finish_reason: finish });
    append_events(events, usage_events);
    assert(events_v(events@) =~= before + terminal_events(
        opt_ref(response),
        FinishFromResponse { view: fv },
    ));
}

fn failed_from_response(response: Option<&JsonValue>) -> (e: ProtocolError)
    ensures
        crate::decode::error_is(e, failed_error(opt_ref(response))),
{
    if let Some(err_val) = get_opt(response, "error") {
        let message = match as_str(get(err_val, "message")) {
            Some(m) => redact_secrets(m),
            None => redact_secrets("Response 失败"),
        };
        let mut err = ProtocolError::new(ProtocolErrorKind::ProviderUnavailable, message);
        if let Some(code) = as_str(get(err_val, "code")) {
            err = err.with_provider_code(owned(code));
        }
        return err;
    }
    ProtocolError::new(ProtocolErrorKind::ProviderUnavailable, owned("Response 失败"))
}

fn error_from_stream_event(value: &JsonValue) -> (e: ProtocolError)
    ensures
        crate::decode::error_is(e, stream_event_error(*value)),
{
    let message = match as_str(get(value, "message")) {
        Some(m) => redact_secrets(m),
        None => redact_secrets("服务商在流中返回错误"),
    };
    let mut err = ProtocolError::new(ProtocolErrorKind::ProviderUnavailable, message);
    if let Some(code) = as_str(get(value, "code")) {
        err = err.with_provider_code(owned(code));
    }
    err
}

fn error_from_json(value: &JsonValue) -> (e: ProtocolError)
    ensures
        crate::decode::error_is(e, untyped_error(*value)),
{
    let (msg, code) = openai_error_fields(value);
    let message = match msg {
        Some(m) => m,
        None => owned("服务商在流中返回错误"),
    };
    let mut err = ProtocolError::new(ProtocolErrorKind::ProviderUnavailable, message);
    if let Some(code) = code {
        err = err.with_provider_code(code);
    }
    err
}

/// Decode one SSE `data` payload (JSON with a `type` field).
pub fn decode_sse_data(data: &str, state: &mut EventDecodeState) -> (r: Result<
    Vec<StreamEvent>,
    ProtocolError,
>)
    ensures
        outcome_is(r, responses_decode(data@, old(state)@).0),
        final(state)@ == responses_decode(data@, old(state)@).1,
{
    let trimmed = trim_str(data);
    if trimmed.as_str().is_empty() {
        return Ok(no_events());
    }
    if str_eq(trimmed.as_str(), "[DONE]") {
        if state.completed {
            return Ok(no_events());
        }
        state.completed = true;
        return Ok(one_event(StreamEvent::Completed { finish_reason: openai_responses(Some("completed")) }));
    }
    let value = match parse_payload(trimmed.as_str()) {
        Ok(v) => v,
        Err(e) => {
            return Err(e);
        },
    };
    decode_event_value(&value, state)
}

/// Decode one parsed payload.
pub fn decode_event_value(value: &JsonValue, state: &mut EventDecodeState) -> (r: Result<
    Vec<StreamEvent>,
    ProtocolError,
>)
    ensures
        outcome_is(r, responses_json(*value, old(state)@).0),
        final(state)@ == responses_json(*value, old(state)@).1,
{
    if get(value, "error").is_some() && get(value, "type").is_none() {
        return Err(error_from_json(value));
    }
    let ty: String = match as_str(get(value, "type")) {
        Some(t) => owned(t),
        None => String::new(),
    };
    let t = ty.as_str();
    let response = get(value, "response");
    if str_eq(t, "response.output_text.delta") {
        match nonempty_str(get(value, "delta")) {
            Some(text) => Ok(one_event(StreamEvent::ContentDelta { text })),
            None => Ok(no_events()),
        }
    } else if str_eq(t, "response.reasoning_summary_text.delta") || str_eq(t, "response.reasoning_text.delta")
        || str_eq(t, "response.reasoning.delta") {
        match nonempty_str(get(value, "delta")) {
            Some(text) => Ok(one_event(StreamEvent::ReasoningDelta { text })),
            None => Ok(no_events()),
        }
    } else if str_eq(t, "response.output_item.added") {
        Ok(handle_output_item_added(state, value))
    } else if str_eq(t, "response.function_call_arguments.delta") {
        Ok(handle_function_call_arguments_delta(state, value))
    } else if str_eq(t, "response.function_call_arguments.done") {
        Ok(handle_function_call_arguments_done(state, value))
    } else if str_eq(t, "response.output_item.done") {
        Ok(handle_output_item_done(state, value))
    } else if str_eq(t, "response.completed") {
        if state.completed {
            return Ok(no_events());
        }
        state.completed = true;
        let mut events = state.pending_calls.finish_and_mark_all();
        let finish = if response_has_function_call(response) {
            openai_responses(Some("tool_use"))
        } else {
            openai_responses(Some("stop"))
        };
        push_terminal(&mut events, response, finish);
        Ok(events)
    } else if str_eq(t, "response.incomplete") {
        if state.completed {
            return Ok(no_events());
        }
        state.completed = true;
        let reason: String = match as_str(get_opt(get_opt(response, "incomplete_details"), "reason")) {
            Some(r) => owned(r),
            None => owned("incomplete"),
        };
        let mut events = state.pending_calls.finish_and_mark_all();
        push_terminal(&mut events, response, openai_responses(Some(reason.as_str())));
        Ok(events)
    } else if str_eq(t, "response.failed") {
        Err(failed_from_response(response))
    } else if str_eq(t, "error") {
        Err(error_from_stream_event(value))
    } else {
        Ok(no_events())
    }
}

/// A Responses stream reports its completion once: once completed, every later payload
/// leaves it completed and gives no second `Completed` event.
pub proof fn law_completed_once(data: Seq<char>, st: ResponsesV)
    requires
        st.completed,
    ensures
        responses_decode(data, st).1.completed,
        responses_decode(data, st).0 matches DecodeV::Events(es) ==> no_completion(es),
{
}


/// Some event reports usage with these input, output and total counts, and a completion
/// comes after it.
pub open spec fn usage_before_completion(evs: Seq<EventV>, input: u32, output: u32, total: u32) -> bool {
    exists|i: int, j: int|
        #![trigger evs[i], evs[j]]
        0 <= i < j < evs.len() && (evs[i] matches EventV::Usage(x) && x.prompt_tokens == Some(input)
            && x.completion_tokens == Some(output) && x.total_tokens == Some(total)) && evs[j] is Completed
}

/// A completed response reports its usage: for a `response.completed` event (the first
/// completion of the stream) whose response carries input, output and total token counts,
/// the decoded events hold a usage event with those counts, followed later by the
/// completion.
pub proof fn law_responses_completed_reports_usage(
    v: JsonValue,
    st: ResponsesV,
    u: JsonValue,
    input: u32,
    output: u32,
    total: u32,
)
    requires
        jstr(jget(v, "type"@)) == Some("response.completed"@),
        !st.completed,
        jget_opt(jget(v, "response"@), "usage"@) == Some(u),
        count(u, "input_tokens"@) == Some(input),
        count(u, "output_tokens"@) == Some(output),
        count(u, "total_tokens"@) == Some(total),
    ensures
        responses_json(v, st).0 is Events,
        usage_before_completion(responses_json(v, st).0->Events_0, input, output, total),
{
    reveal_strlit("response.completed");
    reveal_strlit("response.output_text.delta");
    reveal_strlit("response.reasoning_summary_text.delta");
    reveal_strlit("response.reasoning_text.delta");
    reveal_strlit("response.reasoning.delta");
    reveal_strlit("response.output_item.added");
    reveal_strlit("response.function_call_arguments.delta");
    reveal_strlit("response.function_call_arguments.done");
    reveal_strlit("response.output_item.done");
    assert("response.completed"@.len() == 18);
    assert("response.output_text.delta"@.len() != 18 && "response.reasoning_summary_text.delta"@.len() != 18
        && "response.reasoning_text.delta"@.len() != 18 && "response.reasoning.delta"@.len() != 18
        && "response.output_item.added"@.len() != 18 && "response.function_call_arguments.delta"@.len() != 18
        && "response.function_call_arguments.done"@.len() != 18 && "response.output_item.done"@.len() != 18);
    let resp = jget(v, "response"@);
    let reason = if has_function_call(resp) {
        responses_finish(Some("tool_use"@))
    } else {
        responses_finish(Some("stop"@))
    };
    let f = finish_events(st.calls);
    let t = terminal_events(resp, FinishFromResponse { view: reason });
    assert(responses_usage(u) is Some);
    let x = responses_usage(u)->Some_0;
    assert(t == seq![EventV::Usage(x), EventV::Completed(reason)]);
    let evs = f + t;
    assert(responses_json(v, st).0 == DecodeV::Events(evs));
    assert(evs[f.len() as int] == EventV::Usage(x));
    assert(evs[f.len() + 1int] == EventV::Completed(reason));
    assert(x.prompt_tokens == Some(input) && x.completion_tokens == Some(output) && x.total_tokens == Some(total));
    let i = f.len() as int;
    let j = i + 1;
    assert(0 <= i < j < evs.len() && (evs[i] matches EventV::Usage(y) && y.prompt_tokens == Some(input)
        && y.completion_tokens == Some(output) && y.total_tokens == Some(total)) && evs[j] is Completed);
}


/// Output text is streamed: a `response.output_text.delta` event with non-empty
/// `delta` yields exactly one content event with that text, and the state is unchanged.
pub proof fn law_responses_text_delta(v: JsonValue, st: ResponsesV, t: Seq<char>)
    requires
        jstr(jget(v, "type"@)) == Some("response.output_text.delta"@),
        jstr(jget(v, "delta"@)) == Some(t),
        t.len() > 0,
    ensures
        responses_json(v, st) == (DecodeV::Events(seq![EventV::Content(t)]), st),
{
}

/// An incomplete response completes the stream with its reason: `max_output_tokens`
/// reads as the length limit, and a response without a reason completes as incomplete
/// (another reason); usage is reported before the completion as for a completed response.
pub proof fn law_responses_incomplete(v: JsonValue, st: ResponsesV, u: JsonValue, input: u32, output: u32, total: u32)
    requires
        jstr(jget(v, "type"@)) == Some("response.incomplete"@),
        !st.completed,
    ensures
        responses_json(v, st).0 is Events,
        responses_json(v, st).1.completed,
        responses_json(v, st).0->Events_0.len() > 0,
        jstr(jget_opt(jget_opt(jget(v, "response"@), "incomplete_details"@), "reason"@)) == Some(
            "max_output_tokens"@,
        ) ==> responses_json(v, st).0->Events_0.last() == EventV::Completed(crate::types::FinishView::Length),
        jget_opt(jget(v, "response"@), "usage"@) == Some(u) && count(u, "input_tokens"@) == Some(input)
            && count(u, "output_tokens"@) == Some(output) && count(u, "total_tokens"@) == Some(total)
            ==> usage_before_completion(responses_json(v, st).0->Events_0, input, output, total),
{
    reveal_strlit("response.incomplete");
    reveal_strlit("response.completed");
    reveal_strlit("response.output_text.delta");
    reveal_strlit("response.reasoning_summary_text.delta");
    reveal_strlit("response.reasoning_text.delta");
    reveal_strlit("response.reasoning.delta");
    reveal_strlit("response.output_item.added");
    reveal_strlit("response.function_call_arguments.delta");
    reveal_strlit("response.function_call_arguments.done");
    reveal_strlit("response.output_item.done");
    reveal_strlit("max_output_tokens");
    reveal_strlit("stop");
    reveal_strlit("completed");
    reveal_strlit("length");
    assert("response.incomplete"@.len() == 19);
    assert("response.completed"@.len() != 19 && "response.output_text.delta"@.len() != 19
        && "response.reasoning_summary_text.delta"@.len() != 19 && "response.reasoning_text.delta"@.len() != 19
        && "response.reasoning.delta"@.len() != 19 && "response.output_item.added"@.len() != 19
        && "response.function_call_arguments.delta"@.len() != 19
        && "response.function_call_arguments.done"@.len() != 19 && "response.output_item.done"@.len() != 19);
    let resp = jget(v, "response"@);
    let reason = match jstr(jget_opt(jget_opt(resp, "incomplete_details"@), "reason"@)) {
        Some(r) => r,
        None => "incomplete"@,
    };
    let f = finish_events(st.calls);
    let t = terminal_events(resp, FinishFromResponse { view: responses_finish(Some(reason)) });
    let evs = f + t;
    assert(responses_json(v, st).0 == DecodeV::Events(evs));
    assert(evs.last() == t.last());
    if reason == "max_output_tokens"@ {
        assert(!crate::text::is_ws('m') && !crate::text::is_ws('s'));
        assert(trim(reason) == reason);
        assert("max_output_tokens"@.len() == 17 && "stop"@.len() == 4 && "completed"@.len() == 9);
    }
    if jget_opt(resp, "usage"@) == Some(u) && count(u, "input_tokens"@) == Some(input)
        && count(u, "output_tokens"@) == Some(output) && count(u, "total_tokens"@) == Some(total) {
        let x = responses_usage(u)->Some_0;
        assert(t == seq![EventV::Usage(x), EventV::Completed(responses_finish(Some(reason)))]);
        let i = f.len() as int;
        assert(evs[i] == EventV::Usage(x));
        assert(evs[i + 1] == EventV::Completed(responses_finish(Some(reason))));
    }
}

} // verus!
