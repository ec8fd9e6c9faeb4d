//! Decode Gemini streamGenerateContent SSE JSON into stream events.

use vstd::prelude::*;

use crate::decode::{
    append_events, bad_json, no_events, nonempty, nonempty_str, one_event, outcome_is,
    parse_payload, push_event, DecodeV, ErrV, MessageV,
};
use crate::error::{redact_secrets, ProtocolError, ProtocolErrorKind};
use crate::finish::{gemini_finish, gemini_generate_content};
use crate::http_error::{code_text, first_text};
use crate::json::{
    as_array, as_bool, as_i64, as_str, get, get_opt, jarray, jbool, jget, jget_opt, json_parse,
    jstr, opt_ref, refs_seq, JsonValue,
};
use crate::text::{i64_to_string, owned, push_str, str_eq, trim, trim_str};
use crate::types::{events_v, EventV, FinishView, StreamEvent};
use crate::usage::{count, from_gemini_usage_metadata, gemini_usage};

verus! {

/// Per-stream decoder state for Gemini SSE frames.
pub struct EventDecodeState {
    pub completed: bool,
    usage_emitted: bool,
}

/// The mathematical content of the decoder state.
pub struct GeminiV {
    pub completed: bool,
    pub usage_emitted: bool,
}

impl View for EventDecodeState {
    type V = GeminiV;

    closed spec fn view(&self) -> GeminiV {
        GeminiV { completed: self.completed, usage_emitted: self.usage_emitted }
    }
}

impl EventDecodeState {
    /// A fresh state.
    pub fn new() -> (s: Self)
        ensures
            s@ == (GeminiV { completed: false, usage_emitted: false }),
    {
        EventDecodeState { completed: false, usage_emitted: false }
    }
}

impl Default for EventDecodeState {
    fn default() -> (s: Self)
        ensures
            s@ == (GeminiV { completed: false, usage_emitted: false }),
    {
        EventDecodeState::new()
    }
}

/// The error an `error` payload stands for.
pub open spec fn gemini_stream_error(v: JsonValue) -> ErrV {
    let err = jget(v, "error"@);
    ErrV {
        kind: ProtocolErrorKind::ProviderUnavailable,
        message: MessageV::Redacted(
            match jstr(jget_opt(err, "message"@)) {
                Some(m) => m,
                None => "服务商返回错误"@,
            },
        ),
        code: first_text(jstr(jget_opt(err, "status"@)), code_text(jget_opt(err, "code"@))),
    }
}

/// The events of one content part: its non-empty text, as reasoning when `thought`.
pub open spec fn part_events(part: JsonValue) -> Seq<EventV> {
    match nonempty(jstr(jget(part, "text"@))) {
        None => seq![],
        Some(t) => if jbool(jget(part, "thought"@)) == Some(true) {
            seq![EventV::Reasoning(t)]
        } else {
            seq![EventV::Content(t)]
        },
    }
}

/// The events of all parts, in order.
pub open spec fn parts_events(parts: Seq<JsonValue>) -> Seq<EventV>
    decreases parts.len(),
{
    if parts.len() == 0 {
        seq![]
    } else {
        parts_events(parts.drop_last()) + part_events(parts.last())
    }
}

/// The first candidate.
pub open spec fn first_candidate(v: JsonValue) -> Option<JsonValue> {
    match jarray(jget(v, "candidates"@)) {
        Some(a) => if a.len() > 0 {
            Some(a[0])
        } else {
            None
        },
        None => None,
    }
}

/// A prompt that was blocked and got no candidates: the block reason.
pub open spec fn blocked_prompt(v: JsonValue) -> Option<Seq<char>> {
    match jget(v, "promptFeedback"@) {
        Some(f) => match nonempty(jstr(jget(f, "blockReason"@))) {
            Some(r) => if first_candidate(v) is None {
                Some(r)
            } else {
                None
            },
            None => None,
        },
        None => None,
    }
}

/// A frame with candidates: text parts, then, on a finish reason, usage once and completion.
pub open spec fn candidate_events(v: JsonValue, st: GeminiV) -> (Seq<EventV>, GeminiV) {
    match first_candidate(v) {
        None => (seq![], st),
        Some(c) => {
            let texts = match jarray(jget_opt(jget(c, "content"@), "parts"@)) {
                Some(parts) => parts_events(parts),
                None => seq![],
            };
            match nonempty(jstr(jget(c, "finishReason"@))) {
                None => (texts, st),
                Some(r) => {
                    let done = EventV::Completed(gemini_finish(Some(r)));
                    let usage = if !st.usage_emitted {
                        match jget(v, "usageMetadata"@) {
                            Some(u) => gemini_usage(u),
                            None => None,
                        }
                    } else {
                        None
                    };
                    match usage {
                        Some(u) => (
                            texts + seq![EventV::Usage(u), done],
                            GeminiV { completed: true, usage_emitted: true },
                        ),
                        None => (texts + seq![done], GeminiV { completed: true, ..st }),
                    }
                },
            }
        },
    }
}

/// What a parsed response gives and how it changes the state.
pub open spec fn gemini_json(v: JsonValue, st: GeminiV) -> (DecodeV, GeminiV) {
    if jget(v, "error"@) is Some {
        (DecodeV::Failure(gemini_stream_error(v)), st)
    } else if st.completed {
        (DecodeV::Events(seq![]), st)
    } else if blocked_prompt(v) is Some {
        (
            DecodeV::Failure(
                ErrV {
                    kind: ProtocolErrorKind::InvalidRequest,
                    message: MessageV::Plain("提示被拦截: "@ + blocked_prompt(v)->0),
                    code: None,
                },
            ),
            st,
        )
    } else {
        let (evs, st2) = candidate_events(v, st);
        (DecodeV::Events(evs), st2)
    }
}

/// What one `data` payload gives and how it changes the state.
pub open spec fn gemini_decode(data: Seq<char>, st: GeminiV) -> (DecodeV, GeminiV) {
    let t = trim(data);
    if t.len() == 0 {
        (DecodeV::Events(seq![]), st)
    } else if t == "[DONE]"@ {
        if st.completed {
            (DecodeV::Events(seq![]), st)
        } else {
            (
                DecodeV::Events(seq![EventV::Completed(gemini_finish(Some("STOP"@)))]),
                GeminiV { completed: true, ..st },
            )
        }
    } else {
        match json_parse(t) {
            Err(m) => (DecodeV::Failure(bad_json(m)), st),
            Ok(v) => gemini_json(v, st),
        }
    }
}

fn error_from_json(value: &JsonValue) -> (e: ProtocolError)
    ensures
        crate::decode::error_is(e, gemini_stream_error(*value)),
{
    let err = get(value, "error");
    let message = match as_str(get_opt(err, "message")) {
        Some(m) => redact_secrets(m),
        None => redact_secrets("服务商返回错误"),
    };
    let code: Option<String> = match as_str(get_opt(err, "status")) {
        Some(s) => Some(owned(s)),
        None => {
            let c = get_opt(err, "code");
            match as_str(c) {
                Some(s) => Some(owned(s)),
                None => match as_i64(c) {
                    Some(n) => Some(i64_to_string(n)),
                    None => None,
                },
            }
        },
    };
    let mut out = ProtocolError::new(ProtocolErrorKind::ProviderUnavailable, message);
    if let Some(code) = code {
        out = out.with_provider_code(code);
    }
    out
}

fn first_of<'a>(a: Option<Vec<&'a JsonValue>>) -> (r: Option<&'a JsonValue>)
    ensures
        opt_ref(r) == match a {
            Some(x) => if x@.len() > 0 {
                Some(*x@[0])
            } else {
                None::<JsonValue>
            },
            None => None,
        },
{
    match a {
        Some(x) => if x.len() > 0 {
            Some(x[0])
        } else {
            None
        },
        None => None,
    }
}

fn push_part_events(events: &mut Vec<StreamEvent>, part: &JsonValue)
    ensures
        events_v(final(events)@) == events_v(old(events)@) + part_events(*part),
{
    let thought = match as_bool(get(part, "thought")) {
        Some(b) => b,
        None => false,
    };
    match nonempty_str(get(part, "text")) {
        None => {
            assert(events_v(events@) == events_v(events@) + Seq::<EventV>::empty());
        },
        Some(text) => {
            let ghost before = events_v(events@);
            if thought {
                push_event(events, StreamEvent::ReasoningDelta { text });
            } else {
                push_event(events, StreamEvent::ContentDelta { text });
            }
            assert(events_v(events@) =~= before + part_events(*part));
        },
    }
}

/// Decode one SSE `data` payload (a full GenerateContentResponse JSON).
pub fn decode_sse_data(data: &str, state: &mut EventDecodeState) -> (r: Result<
    Vec<StreamEvent>,
    ProtocolError,
>)
    ensures
        outcome_is(r, gemini_decode(data@, old(state)@).0),
        final(state)@ == gemini_decode(data@, old(state)@).1,
{
    let trimmed = trim_str(data);
    if trimmed.as_str().is_empty() {
        return Ok(no_events());
    }
    if str_eq(trimmed.as_str(), "[DONE]") {
        if state.completed {
            return Ok(no_events());
        }
        state.completed = true;
        return Ok(one_event(StreamEvent::Completed { finish_reason: gemini_generate_content(Some("STOP")) }));
    }
    let value = match parse_payload(trimmed.as_str()) {
        Ok(v) => v,
        Err(e) => {
            return Err(e);
        },
    };
    decode_response_value(&value, state)
}

/// Decode one parsed payload.
pub fn decode_response_value(value: &JsonValue, state: &mut EventDecodeState) -> (r: Result<
    Vec<StreamEvent>,
    ProtocolError,
>)
    ensures
        outcome_is(r, gemini_json(*value, old(state)@).0),
        final(state)@ == gemini_json(*value, old(state)@).1,
{
    if get(value, "error").is_some() {
        return Err(error_from_json(value));
    }
    if state.completed {
        return Ok(no_events());
    }
    let candidate = first_of(as_array(get(value, "candidates")));
    assert(opt_ref(candidate) == first_candidate(*value));
    if let Some(feedback) = get(value, "promptFeedback") {
        if let Some(reason) = nonempty_str(get(feedback, "blockReason")) {
            if candidate.is_none() {
                let mut message = owned("提示被拦截: ");
                push_str(&mut message, reason.as_str());
                return Err(ProtocolError::new(ProtocolErrorKind::InvalidRequest, message));
            }
        }
    }
    let mut events = no_events();
    if let Some(c) = candidate {
        if let Some(parts) = as_array(get_opt(get(c, "content"), "parts")) {
            let ghost ps = refs_seq(parts@);
            let mut i: usize = 0;
            while i < parts.len()
                invariant
                    0 <= i <= parts@.len(),
                    ps == refs_seq(parts@),
                    events_v(events@) == parts_events(ps.take(i as int)),
                decreases parts.len() - i,
            {
                proof {
                    assert(ps.take(i + 1).drop_last() == ps.take(i as int));
                    assert(ps.take(i + 1).last() == *parts@[i as int]);
                }
                push_part_events(&mut events, parts[i]);
                i = i + 1;
            }
            assert(ps.take(parts@.len() as int) == ps);
        }
        let ghost texts = events_v(events@);
        if let Some(reason) = nonempty_str(get(c, "finishReason")) {
            let ghost emitted = state.usage_emitted;
            if !state.usage_emitted {
                if let Some(u) = get(value, "usageMetadata") {
                    if let Some(usage) = from_gemini_usage_metadata(u) {
                        state.usage_emitted = true;
                        push_event(&mut events, StreamEvent::Usage(usage));
                    }
                }
            }
            state.completed = true;
            let f = gemini_generate_content(Some(reason.as_str()));
            let ghost done = EventV::Completed(f@);
            let ghost mid = events_v(events@);
            push_event(&mut events, StreamEvent::Completed { finish_reason: f });
            proof {
                assert(events_v(events@) == mid + seq![done]);
                if emitted || mid.len() == texts.len() {
                    assert(mid == texts);
                    assert(events_v(events@) == texts + seq![done]);
                } else {
                    assert(events_v(events@) =~= texts + seq![mid.last(), done]);
                }
            }
            return Ok(events);
        }
    }
    Ok(events)
}

/// A Gemini stream reports its completion once: once completed, every later payload
/// leaves the state as it is and gives no event (an error payload still fails).
pub proof fn law_completed_once(data: Seq<char>, st: GeminiV)
    requires
        st.completed,
    ensures
        gemini_decode(data, st).1 == st,
        gemini_decode(data, st).0 matches DecodeV::Events(es) ==> es.len() == 0,
{
}


/// A finishing frame reports usage and completes: for a frame (not an error, first of
/// its kind) whose first candidate has a finish reason and whose `usageMetadata` gives
/// prompt, candidate and total counts, with usage not reported yet, the events end with
/// a usage event with those counts and then the completion with that reason (`MAX_TOKENS`
/// reads as the length limit); the stream is then completed.
pub proof fn law_gemini_finish_frame(
    v: JsonValue,
    st: GeminiV,
    c: JsonValue,
    r: Seq<char>,
    u: JsonValue,
    prompt: u32,
    output: u32,
    total: u32,
)
    requires
        jget(v, "error"@) is None,
        !st.completed,
        !st.usage_emitted,
        first_candidate(v) == Some(c),
        jstr(jget(c, "finishReason"@)) == Some(r),
        r.len() > 0,
        jget(v, "usageMetadata"@) == Some(u),
        count(u, "promptTokenCount"@) == Some(prompt),
        count(u, "candidatesTokenCount"@) == Some(output),
        count(u, "totalTokenCount"@) == Some(total),
    ensures
        gemini_json(v, st).0 is Events,
        ({
            let evs = gemini_json(v, st).0->Events_0;
            &&& evs.len() >= 2
            &&& evs.last() == EventV::Completed(gemini_finish(Some(r)))
            &&& evs[evs.len() - 2] is Usage
            &&& evs[evs.len() - 2]->Usage_0.prompt_tokens == Some(prompt)
            &&& evs[evs.len() - 2]->Usage_0.completion_tokens == Some(output)
            &&& evs[evs.len() - 2]->Usage_0.total_tokens == Some(total)
        }),
        gemini_json(v, st).1.completed,
        r == "MAX_TOKENS"@ ==> gemini_finish(Some(r)) == FinishView::Length,
{
    reveal_strlit("MAX_TOKENS");
    reveal_strlit("STOP");
    assert("MAX_TOKENS"@.len() == 10 && "STOP"@.len() == 4);
    assert(blocked_prompt(v) is None);
    if r == "MAX_TOKENS"@ {
        assert(!crate::text::is_ws('M') && !crate::text::is_ws('S'));
        assert(trim(r) == r);
        assert(crate::text::ascii_upper(r) =~= r);
    }
}

} // verus!
