//! The decisions of a streaming chat response: from network input to stream items.
//!
//! The caller reads the HTTP body and hands each outcome (a chunk of bytes, a transport
//! error, an idle timeout, the end of the body) to [`StreamDriver::step`], which frames
//! SSE events, decodes them with the protocol's decoder and says what to yield.

use vstd::prelude::*;

use crate::anthropic_events::{self, anthropic_decode, AnthropicV};
use crate::decode::{error_is, DecodeV, ErrV, MessageV};
use crate::error::{ProtocolError, ProtocolErrorKind};
use crate::gemini_events::{self, gemini_decode, GeminiV};
use crate::openai_chunk::{self, chunk_decode, ChunkDecodeState, ChunkV};
use crate::responses_events::{self, responses_decode, ResponsesV};
use crate::sse::{flushed_event, pending, stream_events, EventView, OptionEventView, SseEvent, SseParser, events_view};
use crate::text::owned;
use crate::finish::{chat_completions_finish, openai_chat_completions};
use crate::types::{EventV, ProtocolKind, StreamEvent};

verus! {

/// The decoder of one wire protocol.
pub enum Decoder {
    OpenAiChat(ChunkDecodeState),
    OpenAiResponses(responses_events::EventDecodeState),
    Anthropic(anthropic_events::EventDecodeState),
    Gemini(gemini_events::EventDecodeState),
}

/// The mathematical content of a decoder.
pub enum DecoderV {
    OpenAiChat(ChunkV),
    OpenAiResponses(ResponsesV),
    Anthropic(AnthropicV),
    Gemini(GeminiV),
}

impl View for Decoder {
    type V = DecoderV;

    open spec fn view(&self) -> DecoderV {
        match self {
            Decoder::OpenAiChat(s) => DecoderV::OpenAiChat(s@),
            Decoder::OpenAiResponses(s) => DecoderV::OpenAiResponses(s@),
            Decoder::Anthropic(s) => DecoderV::Anthropic(s@),
            Decoder::Gemini(s) => DecoderV::Gemini(s@),
        }
    }
}

/// What a decoder gives for one `data` payload and its next state.
pub open spec fn decoder_step(d: DecoderV, data: Seq<char>) -> (DecodeV, DecoderV) {
    match d {
        DecoderV::OpenAiChat(s) => {
            let (r, s2) = chunk_decode(data, s);
            (r, DecoderV::OpenAiChat(s2))
        },
        DecoderV::OpenAiResponses(s) => {
            let (r, s2) = responses_decode(data, s);
            (r, DecoderV::OpenAiResponses(s2))
        },
        DecoderV::Anthropic(s) => {
            let (r, s2) = anthropic_decode(data, s);
            (r, DecoderV::Anthropic(s2))
        },
        DecoderV::Gemini(s) => {
            let (r, s2) = gemini_decode(data, s);
            (r, DecoderV::Gemini(s2))
        },
    }
}

/// The protocol a decoder state belongs to.
pub open spec fn decoder_protocol(d: DecoderV) -> ProtocolKind {
    match d {
        DecoderV::OpenAiChat(_) => ProtocolKind::OpenAiChatCompletions,
        DecoderV::OpenAiResponses(_) => ProtocolKind::OpenAiResponses,
        DecoderV::Anthropic(_) => ProtocolKind::AnthropicMessages,
        DecoderV::Gemini(_) => ProtocolKind::GeminiGenerateContent,
    }
}

/// The decoder state a stream of a protocol starts in.
pub open spec fn fresh_decoder(kind: ProtocolKind) -> DecoderV {
    match kind {
        ProtocolKind::OpenAiChatCompletions => DecoderV::OpenAiChat(
            ChunkV { finish_reason: None, completed: false, tools: seq![] },
        ),
        ProtocolKind::OpenAiResponses => DecoderV::OpenAiResponses(
            ResponsesV { completed: false, calls: seq![] },
        ),
        ProtocolKind::AnthropicMessages => DecoderV::Anthropic(anthropic_events::initial_anthropic()),
        ProtocolKind::GeminiGenerateContent => DecoderV::Gemini(
            GeminiV { completed: false, usage_emitted: false },
        ),
    }
}

impl Decoder {
    /// A fresh decoder for a protocol.
    pub fn for_protocol(kind: ProtocolKind) -> (d: Self)
        ensures
            decoder_protocol(d@) == kind,
            d@ == fresh_decoder(kind),
    {
        match kind {
            ProtocolKind::OpenAiChatCompletions => Decoder::OpenAiChat(ChunkDecodeState::new()),
            ProtocolKind::OpenAiResponses => Decoder::OpenAiResponses(
                responses_events::EventDecodeState::new(),
            ),
            ProtocolKind::AnthropicMessages => Decoder::Anthropic(
                anthropic_events::EventDecodeState::new(),
            ),
            ProtocolKind::GeminiGenerateContent => Decoder::Gemini(
                gemini_events::EventDecodeState::new(),
            ),
        }
    }

    /// Decode one SSE `data` payload with this protocol's decoder.
    pub fn decode(&mut self, data: &str) -> (r: Result<Vec<StreamEvent>, ProtocolError>)
        ensures
            crate::decode::outcome_is(r, decoder_step(old(self)@, data@).0),
            final(self)@ == decoder_step(old(self)@, data@).1,
    {
        match self {
            Decoder::OpenAiChat(s) => openai_chunk::decode_sse_data(data, s),
            Decoder::OpenAiResponses(s) => responses_events::decode_sse_data(data, s),
            Decoder::Anthropic(s) => anthropic_events::decode_sse_data(data, s),
            Decoder::Gemini(s) => gemini_events::decode_sse_data(data, s),
        }
    }
}

/// One item of the chat stream, as the driver says to yield it.
pub enum ItemV {
    Event(EventV),
    Failure(ErrV),
}

/// `r` is the item `i`.
pub open spec fn item_is(r: Result<StreamEvent, ProtocolError>, i: ItemV) -> bool {
    match i {
        ItemV::Event(e) => r matches Ok(x) && x@ == e,
        ItemV::Failure(ev) => r matches Err(x) && error_is(x, ev),
    }
}

/// `rs` are the items `is`, in order.
pub open spec fn items_are(rs: Seq<Result<StreamEvent, ProtocolError>>, is: Seq<ItemV>) -> bool {
    rs.len() == is.len() && forall|k: int| 0 <= k < rs.len() ==> item_is(#[trigger] rs[k], is[k])
}

/// The events as stream items.
pub open spec fn event_items(evs: Seq<EventV>) -> Seq<ItemV> {
    evs.map_values(|e: EventV| ItemV::Event(e))
}

/// Some event is the completion.
pub open spec fn has_completed(evs: Seq<EventV>) -> bool {
    exists|k: int| 0 <= k < evs.len() && (#[trigger] evs[k]) is Completed
}

/// SSE events decoded in order: the items, the decoder after them, whether a completion
/// was seen, whether a decode failed (events after a failure are not decoded).
pub open spec fn run_frames(frames: Seq<EventView>, d: DecoderV) -> (Seq<ItemV>, DecoderV, bool, bool)
    decreases frames.len(),
{
    if frames.len() == 0 {
        (seq![], d, false, false)
    } else {
        let (items, d0, c0, f0) = run_frames(frames.drop_last(), d);
        if f0 {
            (items, d0, c0, true)
        } else {
            match decoder_step(d0, frames.last().2) {
                (DecodeV::Events(evs), d1) => (items + event_items(evs), d1, c0 || has_completed(evs), false),
                (DecodeV::Failure(err), d1) => (items + seq![ItemV::Failure(err)], d1, c0, true),
            }
        }
    }
}

/// What the reader of the response body observed.
pub enum StreamInput {
    /// A chunk of body bytes.
    Bytes(Vec<u8>),
    /// Reading the body failed; the error as the transport layer maps it.
    Failed(ProtocolError),
    /// No bytes arrived within the idle timeout.
    IdleTimeout,
    /// The body ended.
    End,
}

/// The mathematical content of the driver.
pub struct DriverV {
    pub buffered: Seq<u8>,
    pub decoder: DecoderV,
    pub completed: bool,
    pub failed: bool,
    pub ended: bool,
}

/// The error for an idle stream.
pub open spec fn idle_error() -> ErrV {
    ErrV { kind: ProtocolErrorKind::Timeout, message: MessageV::Plain("流式响应空闲超时"@), code: None }
}

/// The error for a body that ends before the completion.
pub open spec fn eof_error() -> ErrV {
    ErrV {
        kind: ProtocolErrorKind::UnexpectedEof,
        message: MessageV::Plain("流在完成前意外结束"@),
        code: None,
    }
}

/// The effect of a chunk of bytes.
pub open spec fn on_bytes(st: DriverV, b: Seq<u8>) -> (Seq<ItemV>, DriverV) {
    let all = st.buffered + b;
    let (items, d, c, f) = run_frames(stream_events(all), st.decoder);
    (
        items,
        DriverV {
            buffered: pending(all),
            decoder: d,
            completed: st.completed || c,
            failed: st.failed || f,
            ..st
        },
    )
}

/// What ends a stream whose body ended before the completion: for OpenAI Chat Completions
/// that already saw a `finish_reason`, the completion with that reason; otherwise the
/// end-of-stream error. Nothing when the stream had completed or failed.
pub open spec fn eof_tail(d: DecoderV, completed: bool, failed: bool) -> Seq<ItemV> {
    if completed || failed {
        seq![]
    } else {
        match d {
            DecoderV::OpenAiChat(c) => if c.finish_reason is Some {
                seq![ItemV::Event(EventV::Completed(chat_completions_finish(c.finish_reason)))]
            } else {
                seq![ItemV::Failure(eof_error())]
            },
            _ => seq![ItemV::Failure(eof_error())],
        }
    }
}

/// The effect of the end of the body: the trailing event, if any, then `eof_tail`.
pub open spec fn on_end(st: DriverV) -> (Seq<ItemV>, DriverV) {
    let done = DriverV { buffered: seq![], ended: true, ..st };
    match flushed_event(st.buffered) {
        Some(ev) => match decoder_step(st.decoder, ev.2) {
            (DecodeV::Events(evs), d1) => {
                let completed = st.completed || has_completed(evs);
                (
                    event_items(evs) + eof_tail(d1, completed, st.failed),
                    DriverV { decoder: d1, completed, ..done },
                )
            },
            (DecodeV::Failure(err), d1) => (seq![ItemV::Failure(err)], DriverV { decoder: d1, ..done }),
        },
        None => (eof_tail(st.decoder, st.completed, st.failed), done),
    }
}

/// Turns response-body input into chat stream items.
pub struct StreamDriver {
    parser: SseParser,
    decoder: Decoder,
    completed: bool,
    failed: bool,
    ended: bool,
}

impl View for StreamDriver {
    type V = DriverV;

    closed spec fn view(&self) -> DriverV {
        DriverV {
            buffered: self.parser.buffered(),
            decoder: self.decoder@,
            completed: self.completed,
            failed: self.failed,
            ended: self.ended,
        }
    }
}

fn decode_items(
    decoder: &mut Decoder,
    data: &str,
    items: &mut Vec<Result<StreamEvent, ProtocolError>>,
) -> (r: (bool, bool))
    ensures
        ({
            let (out, d1) = decoder_step(old(decoder)@, data@);
            &&& final(decoder)@ == d1
            &&& match out {
                DecodeV::Events(evs) => items_are(final(items)@.skip(old(items)@.len() as int), event_items(evs))
                    && final(items)@.len() >= old(items)@.len()
                    && r == (has_completed(evs), false),
                DecodeV::Failure(err) => items_are(final(items)@.skip(old(items)@.len() as int), seq![ItemV::Failure(err)])
                    && final(items)@.len() >= old(items)@.len()
                    && r == (false, true),
            }
            &&& final(items)@.take(old(items)@.len() as int) == old(items)@
        }),
{
    let ghost start = items@;
    match decoder.decode(data) {
        Ok(events) => {
            let ghost evs = crate::types::events_v(events@);
            let mut completed = false;
            let mut i: usize = 0;
            while i < events.len()
                invariant
                    0 <= i <= events@.len(),
                    evs == crate::types::events_v(events@),
                    items@.len() == start.len() + i,
                    items@.take(start.len() as int) == start,
                    forall|k: int| 0 <= k < i ==> item_is(#[trigger] items@[start.len() + k], ItemV::Event(evs[k])),
                    completed == exists|k: int| 0 <= k < i && (#[trigger] evs[k]) is Completed,
                decreases events.len() - i,
            {
                let e = events[i].clone_event();
                assert(evs[i as int] == events@[i as int]@);
                if e.is_completed() {
                    completed = true;
                }
                items.push(Ok(e));
                i = i + 1;
            }
            proof {
                assert(items_are(items@.skip(start.len() as int), event_items(evs))) by {
                    assert forall|k: int| 0 <= k < items@.skip(start.len() as int).len() implies item_is(
                        #[trigger] items@.skip(start.len() as int)[k],
                        event_items(evs)[k],
                    ) by {
                        assert(items@.skip(start.len() as int)[k] == items@[start.len() + k]);
                    }
                }
            }
            (completed, false)
        },
        Err(e) => {
            items.push(Err(e));
            proof {
                assert(items@.skip(start.len() as int) =~= seq![items@[start.len() as int]]);
                assert(items@.take(start.len() as int) =~= start);
            }
            (false, true)
        },
    }
}

impl StreamDriver {
    /// A driver for a protocol's response stream.
    pub fn new(kind: ProtocolKind) -> (d: Self)
        ensures
            d@.buffered == Seq::<u8>::empty(),
            decoder_protocol(d@.decoder) == kind,
            d@.decoder == fresh_decoder(kind),
            !d@.completed && !d@.failed && !d@.ended,
    {
        StreamDriver {
            parser: SseParser::new(),
            decoder: Decoder::for_protocol(kind),
            completed: false,
            failed: false,
            ended: false,
        }
    }

    /// Whether the stream is over: completed, failed, or ended.
    pub fn is_done(&self) -> (b: bool)
        ensures
            b == (self@.completed || self@.failed || self@.ended),
    {
        self.completed || self.failed || self.ended
    }

    /// Take one input and say what to yield, in order.
    pub fn step(&mut self, input: StreamInput) -> (items: Vec<Result<StreamEvent, ProtocolError>>)
        ensures
            match input {
                StreamInput::Bytes(b) => {
                    let (is, st) = on_bytes(old(self)@, b@);
                    items_are(items@, is) && final(self)@ == st
                },
                StreamInput::Failed(e) => items@ == seq![Err::<StreamEvent, ProtocolError>(e)]
                    && final(self)@ == (DriverV { failed: true, ..old(self)@ }),
                StreamInput::IdleTimeout => items_are(items@, seq![ItemV::Failure(idle_error())])
                    && final(self)@ == (DriverV { failed: true, ..old(self)@ }),
                StreamInput::End => {
                    let (is, st) = on_end(old(self)@);
                    items_are(items@, is) && final(self)@ == st
                },
            },
    {
        match input {
            StreamInput::IdleTimeout => {
                let mut items: Vec<Result<StreamEvent, ProtocolError>> = Vec::new();
                self.failed = true;
                items.push(
                    Err(ProtocolError::new(ProtocolErrorKind::Timeout, owned("流式响应空闲超时"))),
                );
                items
            },
            StreamInput::Failed(e) => {
                let mut items: Vec<Result<StreamEvent, ProtocolError>> = Vec::new();
                self.failed = true;
                items.push(Err(e));
                items
            },
            StreamInput::Bytes(b) => self.take_bytes(b.as_slice()),
            StreamInput::End => self.take_end(),
        }
    }

    fn take_bytes(&mut self, b: &[u8]) -> (items: Vec<Result<StreamEvent, ProtocolError>>)
        ensures
            ({
                let (is, st) = on_bytes(old(self)@, b@);
                items_are(items@, is) && final(self)@ == st
            }),
    {
        let mut items: Vec<Result<StreamEvent, ProtocolError>> = Vec::new();
        let ghost st = self@;
        let frames = self.parser.push(b);
        let ghost fs = events_view(frames@);
        let mut completed = false;
        let mut failed = false;
        let mut i: usize = 0;
        assert(fs.take(0) =~= Seq::<EventView>::empty());
        while i < frames.len()
            invariant
                0 <= i <= frames@.len(),
                fs == events_view(frames@),
                fs == stream_events(st.buffered + b@),
                self.parser.buffered() == pending(st.buffered + b@),
                self.ended == st.ended,
                self.completed == st.completed,
                self.failed == st.failed,
                ({
                    let (is, d, c, f) = run_frames(fs.take(i as int), st.decoder);
                    &&& items_are(items@, is)
                    &&& self.decoder@ == d
                    &&& completed == c
                    &&& failed == f
                }),
            decreases frames.len() - i,
        {
            proof {
                assert(fs.take(i + 1).drop_last() == fs.take(i as int));
                assert(fs.take(i + 1).last() == frames@[i as int]@);
            }
            if !failed {
                let ghost before = items@;
                let (c, f) = decode_items(&mut self.decoder, frames[i].data.as_str(), &mut items);
                proof {
                    lemma_items_extend(before, items@, run_frames(fs.take(i as int), st.decoder).0,
                        decoder_step(run_frames(fs.take(i as int), st.decoder).1, frames@[i as int]@.2).0);
                }
                completed = completed || c;
                failed = f;
            }
            i = i + 1;
        }
        assert(fs.take(frames@.len() as int) == fs);
        assert(fs == stream_events(st.buffered + b@));
        self.completed = self.completed || completed;
        self.failed = self.failed || failed;
        assert(self@.buffered == pending(st.buffered + b@));
        assert(self@.decoder == run_frames(fs, st.decoder).1);
        assert(self@.ended == st.ended);
        items
    }

    fn take_end(&mut self) -> (items: Vec<Result<StreamEvent, ProtocolError>>)
        ensures
            ({
                let (is, st) = on_end(old(self)@);
                items_are(items@, is) && final(self)@ == st
            }),
    {
        let mut items: Vec<Result<StreamEvent, ProtocolError>> = Vec::new();
        let flushed = self.parser.finish();
        self.ended = true;
        match flushed {
            Some(ev) => {
                let (c, f) = decode_items(&mut self.decoder, ev.data.as_str(), &mut items);
                assert(items@.skip(0) =~= items@);
                if f {
                    return items;
                }
                self.completed = self.completed || c;
                let ghost before = items@;
                self.push_eof_tail(&mut items);
                proof {
                    lemma_items_concat(before, items@, eof_tail(self@.decoder, self@.completed, self@.failed));
                }
                items
            },
            None => {
                self.push_eof_tail(&mut items);
                assert(items@.skip(0) =~= items@);
                items
            },
        }
    }

    /// Appends `eof_tail` for the current state.
    fn push_eof_tail(&self, items: &mut Vec<Result<StreamEvent, ProtocolError>>)
        ensures
            final(items)@.len() >= old(items)@.len(),
            final(items)@.take(old(items)@.len() as int) == old(items)@,
            items_are(
                final(items)@.skip(old(items)@.len() as int),
                eof_tail(self@.decoder, self@.completed, self@.failed),
            ),
    {
        let ghost start = items@;
        if self.completed || self.failed {
            assert(items@.skip(start.len() as int) =~= Seq::<Result<StreamEvent, ProtocolError>>::empty());
            return;
        }
        let reason: Option<&str> = match &self.decoder {
            Decoder::OpenAiChat(s) => s.last_finish_reason(),
            _ => None,
        };
        match reason {
            Some(_) => {
                let f = openai_chat_completions(reason);
                items.push(Ok(StreamEvent::Completed { finish_reason: f }));
            },
            None => {
                items.push(Err(ProtocolError::new(ProtocolErrorKind::UnexpectedEof, owned("流在完成前意外结束"))));
            },
        }
        proof {
            assert(items@.skip(start.len() as int) =~= seq![items@[start.len() as int]]);
            assert(items@.take(start.len() as int) =~= start);
        }
    }
}

proof fn lemma_items_concat(
    before: Seq<Result<StreamEvent, ProtocolError>>,
    after: Seq<Result<StreamEvent, ProtocolError>>,
    tail: Seq<ItemV>,
)
    requires
        after.len() >= before.len(),
        after.take(before.len() as int) == before,
        items_are(after.skip(before.len() as int), tail),
    ensures
        forall|is0: Seq<ItemV>| items_are(before, is0) ==> items_are(after, is0 + tail),
{
    assert forall|is0: Seq<ItemV>| items_are(before, is0) implies items_are(after, is0 + tail) by {
        assert forall|k: int| 0 <= k < after.len() implies item_is(#[trigger] after[k], (is0 + tail)[k]) by {
            if k < before.len() {
                assert(after[k] == after.take(before.len() as int)[k]);
            } else {
                assert(after[k] == after.skip(before.len() as int)[k - before.len()]);
            }
        }
    }
}

proof fn lemma_items_extend(before: Seq<Result<StreamEvent, ProtocolError>>, after: Seq<Result<StreamEvent, ProtocolError>>, is0: Seq<ItemV>, out: DecodeV)
    requires
        items_are(before, is0),
        after.take(before.len() as int) == before,
        after.len() >= before.len(),
        match out {
            DecodeV::Events(evs) => items_are(after.skip(before.len() as int), event_items(evs)),
            DecodeV::Failure(err) => items_are(after.skip(before.len() as int), seq![ItemV::Failure(err)]),
        },
    ensures
        match out {
            DecodeV::Events(evs) => items_are(after, is0 + event_items(evs)),
            DecodeV::Failure(err) => items_are(after, is0 + seq![ItemV::Failure(err)]),
        },
{
    let extra = match out {
        DecodeV::Events(evs) => event_items(evs),
        DecodeV::Failure(err) => seq![ItemV::Failure(err)],
    };
    assert forall|k: int| 0 <= k < after.len() implies item_is(#[trigger] after[k], (is0 + extra)[k]) by {
        if k < before.len() {
            assert(after[k] == after.take(before.len() as int)[k]);
        } else {
            assert(after[k] == after.skip(before.len() as int)[k - before.len()]);
        }
    }
}

/// The end of a body never passes for a finished answer: a stream that had neither
/// completed nor failed either completes (with its last event, or for OpenAI Chat
/// Completions with the `finish_reason` it saw) or ends with an error.
pub proof fn law_end_reports_missing_completion(st: DriverV)
    requires
        !st.completed,
        !st.failed,
    ensures
        on_end(st).1.completed || (on_end(st).0.len() > 0 && (on_end(st).0.last() is Failure
            || (on_end(st).0.last() matches ItemV::Event(e) && e is Completed))),
{
    match flushed_event(st.buffered) {
        Some(ev) => match decoder_step(st.decoder, ev.2) {
            (DecodeV::Events(evs), d1) => {
                let completed = has_completed(evs);
                if !completed {
                    let tail = eof_tail(d1, false, false);
                    assert((event_items(evs) + tail).last() == tail.last());
                }
            },
            (DecodeV::Failure(err), d1) => {},
        },
        None => {},
    }
}

} // verus!
