//! Pieces shared by the stream decoders: payload parsing, text fields, error outcomes.

use vstd::prelude::*;

use crate::error::{redacted, ProtocolError, ProtocolErrorKind};
use crate::json::{as_str, as_u64, jstr, ju64, json_parse, opt_ref, parse_json, JsonValue};
use crate::text::{owned, push_str, trim};
use crate::types::{events_v, EventV, StreamEvent};

verus! {

/// A text that is present and not empty.
pub open spec fn nonempty(t: Option<Seq<char>>) -> Option<Seq<char>> {
    match t {
        Some(s) => if s.len() > 0 {
            Some(s)
        } else {
            None
        },
        None => None,
    }
}

/// The first of two optional values that is present.
pub open spec fn opt_or(a: Option<JsonValue>, b: Option<JsonValue>) -> Option<JsonValue> {
    match a {
        Some(x) => Some(x),
        None => b,
    }
}

/// A JSON number read as `u64` and cut to 32 bits, 0 when absent.
pub open spec fn index_or_zero(v: Option<JsonValue>) -> u32 {
    match ju64(v) {
        Some(n) => n as u32,
        None => 0,
    }
}

/// How an error's message is made: a fixed text, or a provider text that is redacted.
pub enum MessageV {
    Plain(Seq<char>),
    Redacted(Seq<char>),
}

/// The error a decoder returns.
pub struct ErrV {
    pub kind: ProtocolErrorKind,
    pub message: MessageV,
    pub code: Option<Seq<char>>,
}

/// What a decoder gives for one payload.
pub enum DecodeV {
    Events(Seq<EventV>),
    Failure(ErrV),
}

/// `m` is the message `mv` describes.
pub open spec fn message_is(m: Seq<char>, mv: MessageV) -> bool {
    match mv {
        MessageV::Plain(s) => m == s,
        MessageV::Redacted(s) => m == redacted(s),
    }
}

/// `e` is the error `ev` describes.
pub open spec fn error_is(e: ProtocolError, ev: ErrV) -> bool {
    &&& e.kind == ev.kind
    &&& message_is(e.message@, ev.message)
    &&& e.retryable == crate::error::kind_retryable(ev.kind)
    &&& e.provider_code.deep_view() == ev.code
    &&& e.http_status is None
    &&& e.request_id is None
    &&& e.retry_after_ms is None
}

/// `r` is the outcome `d` describes.
pub open spec fn outcome_is(r: Result<Vec<StreamEvent>, ProtocolError>, d: DecodeV) -> bool {
    match d {
        DecodeV::Events(evs) => r matches Ok(v) && events_v(v@) == evs,
        DecodeV::Failure(ev) => r matches Err(e) && error_is(e, ev),
    }
}

/// The error for a payload that is not JSON.
pub open spec fn bad_json(message: Seq<char>) -> ErrV {
    ErrV {
        kind: ProtocolErrorKind::Decode,
        message: MessageV::Plain("SSE JSON 解码失败: "@ + message),
        code: None,
    }
}

/// A present, non-empty string field, copied.
pub fn nonempty_str(v: Option<&JsonValue>) -> (r: Option<String>)
    ensures
        r.deep_view() == nonempty(jstr(opt_ref(v))),
{
    match as_str(v) {
        Some(s) => if s.is_empty() {
            None
        } else {
            Some(owned(s))
        },
        None => None,
    }
}

/// The first of two optional values that is present.
pub fn or_value<'a>(a: Option<&'a JsonValue>, b: Option<&'a JsonValue>) -> (r: Option<&'a JsonValue>)
    ensures
        opt_ref(r) == opt_or(opt_ref(a), opt_ref(b)),
{
    match a {
        Some(x) => Some(x),
        None => b,
    }
}

/// A number field cut to 32 bits, 0 when absent.
pub fn index_field(v: Option<&JsonValue>) -> (r: u32)
    ensures
        r == index_or_zero(opt_ref(v)),
{
    match as_u64(v) {
        Some(n) => n as u32,
        None => 0,
    }
}

/// Parse a trimmed payload; text that is not JSON is a `Decode` error.
pub fn parse_payload(trimmed: &str) -> (r: Result<JsonValue, ProtocolError>)
    ensures
        match json_parse(trimmed@) {
            Ok(v) => r matches Ok(x) && x == v,
            Err(m) => r matches Err(e) && error_is(e, bad_json(m)),
        },
{
    match parse_json(trimmed) {
        Ok(v) => Ok(v),
        Err(m) => {
            let mut message = owned("SSE JSON 解码失败: ");
            push_str(&mut message, m.as_str());
            Err(ProtocolError::new(ProtocolErrorKind::Decode, message))
        },
    }
}

/// Append `b` to `a`.
pub fn append_events(a: &mut Vec<StreamEvent>, b: Vec<StreamEvent>)
    ensures
        events_v(final(a)@) == events_v(old(a)@) + events_v(b@),
{
    let mut b = b;
    let ghost a0 = events_v(a@);
    let ghost bv = events_v(b@);
    a.append(&mut b);
    assert(events_v(a@) == a0 + bv);
}

/// Append one event.
pub fn push_event(events: &mut Vec<StreamEvent>, e: StreamEvent)
    ensures
        events_v(final(events)@) == events_v(old(events)@).push(e@),
{
    let ghost before = events_v(events@);
    let ghost ev = e@;
    events.push(e);
    assert(events_v(events@) == before.push(ev));
}

/// No events.
pub fn no_events() -> (v: Vec<StreamEvent>)
    ensures
        events_v(v@) == Seq::<EventV>::empty(),
{
    let v = Vec::new();
    assert(events_v(v@) =~= Seq::<EventV>::empty());
    v
}

/// One event.
pub fn one_event(e: StreamEvent) -> (v: Vec<StreamEvent>)
    ensures
        events_v(v@) == seq![e@],
{
    let mut v = Vec::new();
    v.push(e);
    assert(events_v(v@) =~= seq![e@]);
    v
}

/// No event of the list is a completion.
pub open spec fn no_completion(es: Seq<EventV>) -> bool {
    forall|i: int| 0 <= i < es.len() ==> !(#[trigger] es[i] is Completed)
}

} // verus!
