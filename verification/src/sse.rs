//! Protocol-agnostic Server-Sent Events framing.
//!
//! This module only splits a byte stream into SSE events (`event` / `id` / `data`).
//! Framing works on raw bytes, so a multi-byte UTF-8 character that straddles two
//! network chunks is decoded only once the whole event has arrived.

use vstd::prelude::*;
use vstd::utf8::*;

use crate::text::{occurs_at, push_char, push_str};

verus! {

/// One complete SSE event after frame boundaries are resolved.
#[derive(Debug, Clone, PartialEq, Eq)]
pub struct SseEvent {
    /// Optional `event:` field.
    pub event: Option<String>,
    /// Optional `id:` field.
    pub id: Option<String>,
    /// Joined `data:` lines (multiple data lines joined by `\n`).
    pub data: String,
}

/// The mathematical content of an event: `(event, id, data)`.
pub type EventView = (Option<Seq<char>>, Option<Seq<char>>, Seq<char>);

impl View for SseEvent {
    type V = EventView;

    open spec fn view(&self) -> EventView {
        (self.event.deep_view(), self.id.deep_view(), self.data@)
    }
}

/// The views of a list of events.
pub open spec fn events_view(v: Seq<SseEvent>) -> Seq<EventView> {
    v.map_values(|e: SseEvent| e@)
}

// ---------------------------------------------------------------------------
// Framing model
// ---------------------------------------------------------------------------

/// The separator `\r\n\r\n`.
pub open spec fn crlf_sep() -> Seq<u8> {
    seq![13u8, 10u8, 13u8, 10u8]
}

/// The separator `\n\n`.
pub open spec fn lf_sep() -> Seq<u8> {
    seq![10u8, 10u8]
}

/// An event separator starts at `i`.
pub open spec fn sep_at(s: Seq<u8>, i: int) -> bool {
    occurs_at(s, crlf_sep(), i) || occurs_at(s, lf_sep(), i)
}

/// The length of the separator that starts at `i` (`\r\n\r\n` is preferred).
pub open spec fn sep_len(s: Seq<u8>, i: int) -> int {
    if occurs_at(s, crlf_sep(), i) {
        4
    } else {
        2
    }
}

/// The position of the earliest separator in `s`.
#[verifier::opaque]
pub open spec fn first_sep(s: Seq<u8>) -> Option<int> {
    if exists|i: int| sep_at(s, i) {
        Some(choose|i: int| sep_at(s, i) && forall|j: int| 0 <= j < i ==> !sep_at(s, j))
    } else {
        None
    }
}

/// The raw events (bytes before each separator) that `s` holds, in order.
pub open spec fn frames(s: Seq<u8>) -> Seq<Seq<u8>>
    decreases s.len(),
{
    match first_sep(s) {
        Some(i) => {
            if 0 <= i && i + sep_len(s, i) <= s.len() {
                seq![s.take(i)] + frames(s.skip(i + sep_len(s, i)))
            } else {
                seq![]
            }
        },
        None => seq![],
    }
}

/// The bytes after the last separator of `s`: an event still being received.
pub open spec fn pending(s: Seq<u8>) -> Seq<u8>
    decreases s.len(),
{
    match first_sep(s) {
        Some(i) => {
            if 0 <= i && i + sep_len(s, i) <= s.len() {
                pending(s.skip(i + sep_len(s, i)))
            } else {
                s
            }
        },
        None => s,
    }
}

// ---------------------------------------------------------------------------
// Event model
// ---------------------------------------------------------------------------

/// The position of the first `\n` in `s`, or `s.len()` when there is none.
pub open spec fn first_newline(s: Seq<u8>) -> int
    decreases s.len(),
{
    if s.len() == 0 {
        0
    } else if s[0] == 10 {
        0
    } else {
        1 + first_newline(s.drop_first())
    }
}

/// A line with one trailing `\r` removed.
pub open spec fn strip_cr(l: Seq<u8>) -> Seq<u8> {
    if l.len() > 0 && l.last() == 13 {
        l.drop_last()
    } else {
        l
    }
}

/// The lines of a raw event, split at `\n`, each without a trailing `\r`.
pub open spec fn split_lines_spec(raw: Seq<u8>) -> Seq<Seq<u8>>
    decreases raw.len(),
{
    if raw.len() == 0 {
        seq![]
    } else {
        let k = first_newline(raw);
        if 0 <= k < raw.len() {
            seq![strip_cr(raw.take(k))] + split_lines_spec(raw.skip(k + 1))
        } else {
            seq![strip_cr(raw)]
        }
    }
}

/// `event:`
pub open spec fn event_prefix() -> Seq<u8> {
    seq![101u8, 118u8, 101u8, 110u8, 116u8, 58u8]
}

/// `id:`
pub open spec fn id_prefix() -> Seq<u8> {
    seq![105u8, 100u8, 58u8]
}

/// `data:`
pub open spec fn data_prefix() -> Seq<u8> {
    seq![100u8, 97u8, 116u8, 97u8, 58u8]
}

/// A field value with one leading space removed.
pub open spec fn strip_space(v: Seq<u8>) -> Seq<u8> {
    if v.len() > 0 && v[0] == 32 {
        v.drop_first()
    } else {
        v
    }
}

/// The value of a field line whose name is `prefix`.
pub open spec fn field_value(line: Seq<u8>, prefix: Seq<u8>) -> Seq<u8> {
    strip_space(line.skip(prefix.len() as int))
}

/// Fields gathered so far: `(event, id, data lines)`.
pub type Fields = (Option<Seq<char>>, Option<Seq<char>>, Seq<Seq<char>>);

/// The effect of one line on the gathered fields; `None` once a value is not UTF-8.
pub open spec fn apply_line(acc: Option<Fields>, line: Seq<u8>) -> Option<Fields> {
    match acc {
        None => None,
        Some(f) => {
            if line.len() == 0 || line[0] == 58 {
                Some(f)
            } else if event_prefix().is_prefix_of(line) {
                let v = field_value(line, event_prefix());
                if valid_utf8(v) {
                    Some((Some(decode_utf8(v)), f.1, f.2))
                } else {
                    None
                }
            } else if id_prefix().is_prefix_of(line) {
                let v = field_value(line, id_prefix());
                if valid_utf8(v) {
                    Some((f.0, Some(decode_utf8(v)), f.2))
                } else {
                    None
                }
            } else if data_prefix().is_prefix_of(line) {
                let v = field_value(line, data_prefix());
                if valid_utf8(v) {
                    Some((f.0, f.1, f.2.push(decode_utf8(v))))
                } else {
                    None
                }
            } else {
                Some(f)
            }
        },
    }
}

/// The fields of a list of lines, read in order.
pub open spec fn fold_lines(lines: Seq<Seq<u8>>) -> Option<Fields>
    decreases lines.len(),
{
    if lines.len() == 0 {
        Some((None, None, seq![]))
    } else {
        apply_line(fold_lines(lines.drop_last()), lines.last())
    }
}

/// Lines joined with `\n`.
pub open spec fn join_lines(ls: Seq<Seq<char>>) -> Seq<char>
    decreases ls.len(),
{
    if ls.len() == 0 {
        seq![]
    } else if ls.len() == 1 {
        ls[0]
    } else {
        join_lines(ls.drop_last()) + seq!['\n'] + ls.last()
    }
}

/// The event a raw frame holds: `None` when it carries no field, or when a field
/// value is not UTF-8.
pub open spec fn parse_event(raw: Seq<u8>) -> Option<EventView> {
    match fold_lines(split_lines_spec(raw)) {
        None => None,
        Some(f) => {
            if f.2.len() == 0 && f.0 is None && f.1 is None {
                None
            } else {
                Some((f.0, f.1, join_lines(f.2)))
            }
        },
    }
}

/// The events of a list of frames, skipping frames without an event.
pub open spec fn events_of(fs: Seq<Seq<u8>>) -> Seq<EventView>
    decreases fs.len(),
{
    if fs.len() == 0 {
        seq![]
    } else {
        match parse_event(fs[0]) {
            Some(e) => seq![e] + events_of(fs.drop_first()),
            None => events_of(fs.drop_first()),
        }
    }
}

/// The events that the complete frames of `s` carry.
pub open spec fn stream_events(s: Seq<u8>) -> Seq<EventView> {
    events_of(frames(s))
}

/// `u8::is_ascii_whitespace`.
pub open spec fn ascii_ws_byte(b: u8) -> bool {
    b == 32 || b == 9 || b == 10 || b == 12 || b == 13
}

/// The event that `finish` flushes from the bytes `s` left in the buffer.
pub open spec fn flushed_event(s: Seq<u8>) -> Option<EventView> {
    if forall|i: int| 0 <= i < s.len() ==> ascii_ws_byte(#[trigger] s[i]) {
        None
    } else {
        parse_event(s)
    }
}

// ---------------------------------------------------------------------------
// Lemmas
// ---------------------------------------------------------------------------

proof fn lemma_first_sep_is(s: Seq<u8>, k: int)
    requires
        sep_at(s, k),
        forall|j: int| 0 <= j < k ==> !sep_at(s, j),
    ensures
        first_sep(s) == Some(k),
{
    reveal(first_sep);
    let c = choose|i: int| sep_at(s, i) && forall|j: int| 0 <= j < i ==> !sep_at(s, j);
    assert(sep_at(s, c));
    if c < k {
        assert(!sep_at(s, c));
    }
    if c > k {
        assert(!sep_at(s, k));
    }
}

proof fn lemma_first_sep_props(s: Seq<u8>)
    ensures
        first_sep(s) matches Some(i) ==> {
            &&& sep_at(s, i)
            &&& 0 <= i
            &&& i + sep_len(s, i) <= s.len()
            &&& forall|j: int| 0 <= j < i ==> !sep_at(s, j)
        },
        first_sep(s) is None ==> forall|j: int| !sep_at(s, j),
{
    reveal(first_sep);
    if exists|i: int| sep_at(s, i) {
        let c = choose|i: int| sep_at(s, i) && forall|j: int| 0 <= j < i ==> !sep_at(s, j);
        // a least witness exists: search downward from any witness
        let w = choose|i: int| sep_at(s, i);
        lemma_least_sep(s, w);
        assert(sep_at(s, c));
    }
}

proof fn lemma_least_sep(s: Seq<u8>, w: int)
    requires
        sep_at(s, w),
    ensures
        exists|i: int| sep_at(s, i) && forall|j: int| 0 <= j < i ==> !sep_at(s, j),
    decreases w,
{
    if exists|j: int| 0 <= j < w && sep_at(s, j) {
        let j = choose|j: int| 0 <= j < w && sep_at(s, j);
        lemma_least_sep(s, j);
    } else {
        assert(sep_at(s, w) && forall|j: int| 0 <= j < w ==> !sep_at(s, j));
    }
}

proof fn lemma_occurs_extend(x: Seq<u8>, b: Seq<u8>, p: Seq<u8>, j: int)
    requires
        0 <= j,
        j + p.len() <= x.len(),
    ensures
        occurs_at(x + b, p, j) == occurs_at(x, p, j),
{
    assert((x + b).subrange(j, j + p.len()) == x.subrange(j, j + p.len()));
}

/// A separator found in `x` is still the first one once more bytes arrive.
proof fn lemma_first_sep_extend(x: Seq<u8>, b: Seq<u8>)
    requires
        first_sep(x) is Some,
    ensures
        first_sep(x + b) == first_sep(x),
        sep_len(x + b, first_sep(x)->0) == sep_len(x, first_sep(x)->0),
{
    lemma_first_sep_props(x);
    let i = first_sep(x)->0;
    let xb = x + b;
    let l = sep_len(x, i);
    assert(i + l <= x.len());
    if occurs_at(x, crlf_sep(), i) {
        lemma_occurs_extend(x, b, crlf_sep(), i);
    } else {
        lemma_occurs_extend(x, b, lf_sep(), i);
        assert(x[i] == 10) by {
            assert(x.subrange(i, i + 2)[0] == x[i]);
        }
        assert(!occurs_at(xb, crlf_sep(), i)) by {
            if occurs_at(xb, crlf_sep(), i) {
                assert(xb.subrange(i, i + 4)[0] == xb[i]);
            }
        }
    }
    assert(sep_at(xb, i));
    assert forall|j: int| 0 <= j < i implies !sep_at(xb, j) by {
        assert(!sep_at(x, j));
        if j + 4 <= x.len() {
            lemma_occurs_extend(x, b, crlf_sep(), j);
        } else if occurs_at(xb, crlf_sep(), j) {
            // the separator at i ends inside x and is `\n\n` at x.len() - 2
            assert(i + 2 <= x.len());
            assert(j + 4 > x.len());
            assert(j >= x.len() - 3);
            assert(i == x.len() - 2);
            assert(j == x.len() - 3);
            assert(xb.subrange(j, j + 4)[2] == xb[j + 2]);
            assert(x.subrange(i, i + 2)[1] == x[i + 1]);
            assert(xb[j + 2] == x[i + 1]);
        }
        if j + 2 <= x.len() {
            lemma_occurs_extend(x, b, lf_sep(), j);
        } else {
            assert(j >= x.len() - 1);
        }
    }
    lemma_first_sep_is(xb, i);
}

/// Frames and pending bytes of a stream split into two parts.
pub proof fn lemma_frames_append(x: Seq<u8>, b: Seq<u8>)
    ensures
        frames(x + b) == frames(x) + frames(pending(x) + b),
        pending(x + b) == pending(pending(x) + b),
    decreases x.len(),
{
    lemma_first_sep_props(x);
    match first_sep(x) {
        Some(i) => {
            lemma_first_sep_extend(x, b);
            let l = sep_len(x, i);
            let xb = x + b;
            assert(xb.take(i) == x.take(i));
            assert(xb.skip(i + l) == x.skip(i + l) + b);
            lemma_frames_append(x.skip(i + l), b);
            assert(frames(x) == seq![x.take(i)] + frames(x.skip(i + l)));
            assert(frames(xb) == seq![x.take(i)] + frames(x.skip(i + l) + b));
            assert(pending(x) == pending(x.skip(i + l)));
        },
        None => {
            assert(pending(x) == x);
            assert(frames(x) == Seq::<Seq<u8>>::empty());
            assert(frames(x + b) == frames(x) + frames(pending(x) + b));
        },
    }
}

/// The events of concatenated frame lists.
pub proof fn lemma_events_concat(f1: Seq<Seq<u8>>, f2: Seq<Seq<u8>>)
    ensures
        events_of(f1 + f2) == events_of(f1) + events_of(f2),
    decreases f1.len(),
{
    if f1.len() == 0 {
        assert(f1 + f2 == f2);
    } else {
        assert((f1 + f2).drop_first() == f1.drop_first() + f2);
        assert((f1 + f2)[0] == f1[0]);
        lemma_events_concat(f1.drop_first(), f2);
    }
}

/// Pending bytes never hold a separator.
pub proof fn lemma_pending_has_no_separator(s: Seq<u8>)
    ensures
        first_sep(pending(s)) is None,
    decreases s.len(),
{
    lemma_first_sep_props(s);
    match first_sep(s) {
        Some(i) => {
            lemma_pending_has_no_separator(s.skip(i + sep_len(s, i)));
        },
        None => {},
    }
}

/// Splitting a byte stream across two pushes does not change the events it yields:
/// the events from the first part, followed by those from what was left pending plus
/// the second part, are the events of the whole; and the same bytes stay pending.
pub proof fn law_push_split(buffer: Seq<u8>, a: Seq<u8>, b: Seq<u8>)
    ensures
        stream_events(buffer + a) + stream_events(pending(buffer + a) + b) == stream_events(
            buffer + a + b,
        ),
        pending(pending(buffer + a) + b) == pending(buffer + a + b),
{
    lemma_frames_append(buffer + a, b);
    lemma_events_concat(frames(buffer + a), frames(pending(buffer + a) + b));
}

/// Bytes without a separator yield no event and stay pending.
pub proof fn law_no_separator_no_event(s: Seq<u8>)
    requires
        forall|i: int| !sep_at(s, i),
    ensures
        stream_events(s) == Seq::<EventView>::empty(),
        pending(s) == s,
{
    reveal(first_sep);
    assert(!(exists|i: int| sep_at(s, i)));
}

proof fn lemma_first_newline(s: Seq<u8>, k: int)
    requires
        0 <= k <= s.len(),
        forall|j: int| 0 <= j < k ==> s[j] != 10,
        k == s.len() || s[k] == 10,
    ensures
        first_newline(s) == k,
    decreases k,
{
    if k > 0 {
        assert(s.len() > 0 && s[0] != 10);
        lemma_first_newline(s.drop_first(), k - 1);
    }
}

proof fn lemma_fold_none(lines: Seq<Seq<u8>>, k: int)
    requires
        0 <= k <= lines.len(),
        fold_lines(lines.take(k)) is None,
    ensures
        fold_lines(lines) is None,
    decreases lines.len() - k,
{
    if k < lines.len() {
        assert(lines.take(k + 1).drop_last() == lines.take(k));
        lemma_fold_none(lines, k + 1);
    } else {
        assert(lines.take(k) == lines);
    }
}

// ---------------------------------------------------------------------------
// Executable parser
// ---------------------------------------------------------------------------

/// Incremental SSE event buffer. Safe across arbitrary chunk sizes and UTF-8 boundaries.
#[derive(Debug)]
pub struct SseParser {
    buffer: Vec<u8>,
}

impl SseParser {
    /// The bytes received but not yet part of a complete event.
    pub closed spec fn buffered(&self) -> Seq<u8> {
        self.buffer@
    }

    /// Create an empty parser.
    pub fn new() -> (p: Self)
        ensures
            p.buffered() == Seq::<u8>::empty(),
    {
        SseParser { buffer: Vec::new() }
    }

    /// Push arbitrary bytes and return any complete events.
    ///
    /// Incomplete UTF-8 sequences at the end of the buffer are retained until more
    /// bytes arrive. Complete events with invalid UTF-8 field content are skipped.
    pub fn push(&mut self, chunk: &[u8]) -> (events: Vec<SseEvent>)
        ensures
            events_view(events@) == stream_events(old(self).buffered() + chunk@),
            final(self).buffered() == pending(old(self).buffered() + chunk@),
    {
        let ghost total = self.buffer@ + chunk@;
        let mut k: usize = 0;
        while k < chunk.len()
            invariant
                0 <= k <= chunk@.len(),
                self.buffer@ == old(self).buffer@ + chunk@.take(k as int),
            decreases chunk.len() - k,
        {
            self.buffer.push(chunk[k]);
            assert(chunk@.take(k + 1) == chunk@.take(k as int).push(chunk@[k as int]));
            k = k + 1;
        }
        assert(chunk@.take(chunk@.len() as int) == chunk@);
        let mut events: Vec<SseEvent> = Vec::new();
        assert(events_view(events@) + stream_events(self.buffer@) == stream_events(total));
        loop
            invariant
                stream_events(total) == events_view(events@) + stream_events(self.buffer@),
                pending(total) == pending(self.buffer@),
            ensures
                events_view(events@) == stream_events(total),
                self.buffer@ == pending(total),
            decreases self.buffer@.len(),
        {
            let blen = self.buffer.len();
            let sep = find_event_separator(self.buffer.as_slice());
            match sep {
                None => {
                    proof {
                        assert(frames(self.buffer@) == Seq::<Seq<u8>>::empty());
                        assert(pending(self.buffer@) == self.buffer@);
                        assert(events_view(events@) + Seq::<EventView>::empty() == events_view(
                            events@,
                        ));
                        assert(stream_events(self.buffer@) == Seq::<EventView>::empty());
                    }
                    break ;
                },
                Some((idx, sep_len_found)) => {
                    let ghost b = self.buffer@;
                    proof {
                        lemma_first_sep_props(b);
                        assert(idx + sep_len_found <= b.len());
                        assert(b.len() == blen);
                    }
                    let tail = self.buffer.split_off(idx + sep_len_found);
                    let mut head = tail;
                    std::mem::swap(&mut head, &mut self.buffer);
                    head.truncate(idx);
                    assert(head@ == b.take(idx as int));
                    assert(self.buffer@ == b.skip(idx + sep_len_found));
                    let parsed = parse_raw_event(head.as_slice());
                    proof {
                        let fs = frames(b);
                        assert(fs == seq![b.take(idx as int)] + frames(self.buffer@));
                        assert(fs[0] == b.take(idx as int));
                        assert(fs.drop_first() == frames(self.buffer@));
                    }
                    match parsed {
                        Some(event) => {
                            let ghost before = events@;
                            events.push(event);
                            proof {
                                assert(events_view(events@) == events_view(before).push(event@));
                                assert(events_view(before) + (seq![event@] + stream_events(
                                    self.buffer@,
                                )) == events_view(before).push(event@) + stream_events(
                                    self.buffer@,
                                ));
                            }
                        },
                        None => {},
                    }
                },
            }
        }
        events
    }

    /// Flush a trailing partial event when the stream ends without a final separator.
    pub fn finish(&mut self) -> (r: Option<SseEvent>)
        ensures
            final(self).buffered() == Seq::<u8>::empty(),
            r.deep_view_event() == flushed_event(old(self).buffered()),
    {
        let mut all_ws = true;
        let mut i: usize = 0;
        while i < self.buffer.len()
            invariant
                0 <= i <= self.buffer@.len(),
                self.buffer@ == old(self).buffer@,
                all_ws == forall|j: int| 0 <= j < i ==> ascii_ws_byte(#[trigger] self.buffer@[j]),
            decreases self.buffer.len() - i,
        {
            let c = self.buffer[i];
            if !(c == 32 || c == 9 || c == 10 || c == 12 || c == 13) {
                all_ws = false;
            }
            i = i + 1;
        }
        let mut raw: Vec<u8> = Vec::new();
        std::mem::swap(&mut raw, &mut self.buffer);
        if all_ws {
            return None;
        }
        proof {
            assert(!(forall|j: int| 0 <= j < raw@.len() ==> ascii_ws_byte(#[trigger] raw@[j])));
        }
        parse_raw_event(raw.as_slice())
    }
}

impl Default for SseParser {
    fn default() -> (p: Self)
        ensures
            p.buffered() == Seq::<u8>::empty(),
    {
        Self::new()
    }
}

/// The view of an optional event.
pub trait OptionEventView {
    /// The event's view, if any.
    spec fn deep_view_event(&self) -> Option<EventView>;
}

impl OptionEventView for Option<SseEvent> {
    open spec fn deep_view_event(&self) -> Option<EventView> {
        match self {
            Some(e) => Some(e@),
            None => None,
        }
    }
}

/// Whether `needle` occurs in `hay` at `i`.
fn bytes_occur_at(hay: &[u8], needle: &[u8], i: usize) -> (r: bool)
    ensures
        r == occurs_at(hay@, needle@, i as int),
{
    if i > hay.len() || needle.len() > hay.len() - i {
        return false;
    }
    let mut k: usize = 0;
    while k < needle.len()
        invariant
            0 <= k <= needle@.len(),
            i + needle@.len() <= hay@.len() <= usize::MAX,
            forall|j: int| 0 <= j < k ==> hay@[i + j] == needle@[j],
        decreases needle.len() - k,
    {
        if hay[i + k] != needle[k] {
            proof {
                assert(hay@.subrange(i as int, i + needle@.len())[k as int] == hay@[i + k]);
            }
            return false;
        }
        k = k + 1;
    }
    assert(hay@.subrange(i as int, i + needle@.len()) =~= needle@);
    true
}

/// The first index at which `needle` occurs in `haystack`.
fn find_subslice(haystack: &[u8], needle: &[u8]) -> (r: Option<usize>)
    requires
        needle@.len() > 0,
    ensures
        r matches Some(i) ==> occurs_at(haystack@, needle@, i as int) && forall|j: int|
            0 <= j < i ==> !occurs_at(haystack@, needle@, j),
        r is None ==> forall|j: int| !occurs_at(haystack@, needle@, j),
{
    let mut i: usize = 0;
    loop
        invariant
            0 <= i <= haystack@.len(),
            forall|j: int| 0 <= j < i ==> !occurs_at(haystack@, needle@, j),
        decreases haystack.len() - i,
    {
        if bytes_occur_at(haystack, needle, i) {
            return Some(i);
        }
        if i == haystack.len() {
            proof {
                assert forall|j: int| !occurs_at(haystack@, needle@, j) by {
                    if 0 <= j <= i {
                    }
                }
            }
            return None;
        }
        i = i + 1;
    }
}

/// Locate the earliest SSE event separator (`\r\n\r\n` or `\n\n`) and its length.
fn find_event_separator(buffer: &[u8]) -> (r: Option<(usize, usize)>)
    ensures
        r matches Some((i, l)) ==> first_sep(buffer@) == Some(i as int) && l == sep_len(
            buffer@,
            i as int,
        ),
        r is None ==> first_sep(buffer@) is None,
{
    let crlf_arr = [13u8, 10u8, 13u8, 10u8];
    let lf_arr = [10u8, 10u8];
    let crlf_pat: &[u8] = &crlf_arr;
    let lf_pat: &[u8] = &lf_arr;
    assert(crlf_pat@ == crlf_sep());
    assert(lf_pat@ == lf_sep());
    let crlf = find_subslice(buffer, crlf_pat);
    let lf = find_subslice(buffer, lf_pat);
    let ghost s = buffer@;
    proof {
        // the two patterns cannot start at the same index
        assert forall|j: int| !(occurs_at(s, crlf_sep(), j) && occurs_at(s, lf_sep(), j)) by {
            if occurs_at(s, crlf_sep(), j) && occurs_at(s, lf_sep(), j) {
                assert(s.subrange(j, j + 4)[0] == s[j]);
                assert(s.subrange(j, j + 2)[0] == s[j]);
            }
        }
    }
    match (crlf, lf) {
        (Some(a), Some(b)) => {
            if a <= b {
                proof {
                    lemma_first_sep_is(s, a as int);
                }
                Some((a, 4))
            } else {
                proof {
                    lemma_first_sep_is(s, b as int);
                }
                Some((b, 2))
            }
        },
        (Some(a), None) => {
            proof {
                lemma_first_sep_is(s, a as int);
            }
            Some((a, 4))
        },
        (None, Some(b)) => {
            proof {
                lemma_first_sep_is(s, b as int);
            }
            Some((b, 2))
        },
        (None, None) => {
            proof {
                reveal(first_sep);
                assert(!(exists|i: int| sep_at(s, i)));
            }
            None
        },
    }
}

/// The lines of a raw event.
fn split_lines(raw: &[u8]) -> (lines: Vec<&[u8]>)
    ensures
        lines@.map_values(|l: &[u8]| l@) == split_lines_spec(raw@),
{
    let mut lines: Vec<&[u8]> = Vec::new();
    let n = raw.len();
    let mut start: usize = 0;
    let mut i: usize = 0;
    assert(raw@.subrange(0, n as int) == raw@);
    assert(lines@.map_values(|l: &[u8]| l@) == Seq::<Seq<u8>>::empty());
    while i < n
        invariant
            0 <= start <= i <= n == raw@.len(),
            forall|j: int| start <= j < i ==> raw@[j] != 10,
            lines@.map_values(|l: &[u8]| l@) + split_lines_spec(raw@.subrange(start as int, n as int))
                == split_lines_spec(raw@),
        decreases n - i,
    {
        if raw[i] == 10 {
            let mut end = i;
            if end > start && raw[end - 1] == 13 {
                end = end - 1;
            }
            let line: &[u8] = &raw[start..end];
            proof {
                let sub = raw@.subrange(start as int, n as int);
                lemma_first_newline(sub, (i - start) as int);
                assert(sub.take((i - start) as int) == raw@.subrange(start as int, i as int));
                assert(sub.skip((i - start) + 1) == raw@.subrange(i + 1, n as int));
                assert(line@ == strip_cr(raw@.subrange(start as int, i as int)));
            }
            let ghost before = lines@;
            lines.push(line);
            proof {
                assert(lines@.map_values(|l: &[u8]| l@) == before.map_values(|l: &[u8]| l@).push(
                    line@,
                ));
            }
            i = i + 1;
            start = i;
            continue ;
        }
        i = i + 1;
    }
    if start < n {
        let mut end = n;
        if end > start && raw[end - 1] == 13 {
            end = end - 1;
        }
        let line: &[u8] = &raw[start..end];
        proof {
            let sub = raw@.subrange(start as int, n as int);
            lemma_first_newline(sub, (n - start) as int);
            assert(sub == raw@.subrange(start as int, n as int));
            assert(line@ == strip_cr(sub));
        }
        let ghost before = lines@;
        lines.push(line);
        proof {
            assert(lines@.map_values(|l: &[u8]| l@) == before.map_values(|l: &[u8]| l@).push(
                line@,
            ));
        }
    } else {
        proof {
            assert(raw@.subrange(start as int, n as int).len() == 0);
        }
    }
    lines
}

/// `input` without `prefix`, when it begins with it.
fn strip_prefix_bytes<'a>(input: &'a [u8], prefix: &[u8]) -> (r: Option<&'a [u8]>)
    ensures
        r matches Some(rest) ==> prefix@.is_prefix_of(input@) && rest@ == input@.skip(
            prefix@.len() as int,
        ),
        r is None ==> !prefix@.is_prefix_of(input@),
{
    if prefix.len() > input.len() {
        return None;
    }
    let mut k: usize = 0;
    while k < prefix.len()
        invariant
            0 <= k <= prefix@.len() <= input@.len(),
            forall|j: int| 0 <= j < k ==> prefix@[j] == input@[j],
        decreases prefix.len() - k,
    {
        if prefix[k] != input[k] {
            return None;
        }
        k = k + 1;
    }
    let rest: &[u8] = &input[prefix.len()..input.len()];
    assert(rest@ =~= input@.skip(prefix@.len() as int));
    Some(rest)
}

/// `value` without one leading space.
fn strip_one_leading_space_bytes(value: &[u8]) -> (r: &[u8])
    ensures
        r@ == strip_space(value@),
{
    if value.len() > 0 && value[0] == 32 {
        let r: &[u8] = &value[1..value.len()];
        assert(r@ =~= value@.drop_first());
        r
    } else {
        value
    }
}

/// A field value decoded as UTF-8 (`String::from_utf8`).
#[verifier::external_body]
fn decode_field(bytes: &[u8]) -> (r: Option<String>)
    ensures
        r is Some <==> valid_utf8(bytes@),
        r matches Some(s) ==> s@ == decode_utf8(bytes@),
{
    String::from_utf8(bytes.to_vec()).ok()
}

/// Lines joined with `\n`.
fn join_with_newline(ls: &Vec<String>) -> (s: String)
    ensures
        s@ == join_lines(ls@.map_values(|l: String| l@)),
{
    let ghost lv = ls@.map_values(|l: String| l@);
    let mut s = String::new();
    let mut i: usize = 0;
    while i < ls.len()
        invariant
            0 <= i <= ls@.len(),
            lv == ls@.map_values(|l: String| l@),
            s@ == join_lines(lv.take(i as int)),
        decreases ls.len() - i,
    {
        proof {
            assert(lv.take(i + 1).drop_last() == lv.take(i as int));
            assert(lv.take(i + 1).last() == ls@[i as int]@);
        }
        if i > 0 {
            push_char(&mut s, '\n');
        } else {
            assert(lv.take(1) == seq![lv[0]]);
        }
        push_str(&mut s, ls[i].as_str());
        i = i + 1;
    }
    assert(lv.take(ls@.len() as int) == lv);
    s
}

/// Parse one raw frame into an event.
fn parse_raw_event(raw_event: &[u8]) -> (r: Option<SseEvent>)
    ensures
        r.deep_view_event() == parse_event(raw_event@),
{
    let mut event_name: Option<String> = None;
    let mut id: Option<String> = None;
    let mut data_lines: Vec<String> = Vec::new();
    let event_arr = [101u8, 118u8, 101u8, 110u8, 116u8, 58u8];
    let id_arr = [105u8, 100u8, 58u8];
    let data_arr = [100u8, 97u8, 116u8, 97u8, 58u8];
    let event_pat: &[u8] = &event_arr;
    let id_pat: &[u8] = &id_arr;
    let data_pat: &[u8] = &data_arr;
    assert(event_pat@ == event_prefix());
    assert(id_pat@ == id_prefix());
    assert(data_pat@ == data_prefix());
    let lines = split_lines(raw_event);
    let ghost lv = lines@.map_values(|l: &[u8]| l@);
    let mut idx: usize = 0;
    while idx < lines.len()
        invariant
            0 <= idx <= lines@.len(),
            lv == lines@.map_values(|l: &[u8]| l@),
            lv == split_lines_spec(raw_event@),
            event_pat@ == event_prefix(),
            id_pat@ == id_prefix(),
            data_pat@ == data_prefix(),
            fold_lines(lv.take(idx as int)) == Some(
                (event_name.deep_view(), id.deep_view(), data_lines@.map_values(|l: String| l@)),
            ),
        decreases lines.len() - idx,
    {
        let line: &[u8] = lines[idx];
        proof {
            assert(lv.take(idx + 1).drop_last() == lv.take(idx as int));
            assert(lv.take(idx + 1).last() == line@);
        }
        if line.len() == 0 || line[0] == 58 {
            idx = idx + 1;
            continue ;
        }
        if let Some(rest) = strip_prefix_bytes(line, event_pat) {
            match decode_field(strip_one_leading_space_bytes(rest)) {
                Some(v) => {
                    event_name = Some(v);
                },
                None => {
                    proof {
                        lemma_fold_none(lv, idx + 1);
                    }
                    return None;
                },
            }
            idx = idx + 1;
            continue ;
        }
        if let Some(rest) = strip_prefix_bytes(line, id_pat) {
            match decode_field(strip_one_leading_space_bytes(rest)) {
                Some(v) => {
                    id = Some(v);
                },
                None => {
                    proof {
                        lemma_fold_none(lv, idx + 1);
                    }
                    return None;
                },
            }
            idx = idx + 1;
            continue ;
        }
        if let Some(rest) = strip_prefix_bytes(line, data_pat) {
            match decode_field(strip_one_leading_space_bytes(rest)) {
                Some(v) => {
                    let ghost before = data_lines@;
                    data_lines.push(v);
                    proof {
                        assert(data_lines@.map_values(|l: String| l@) == before.map_values(
                            |l: String| l@,
                        ).push(v@));
                    }
                },
                None => {
                    proof {
                        lemma_fold_none(lv, idx + 1);
                    }
                    return None;
                },
            }
            idx = idx + 1;
            continue ;
        }
        idx = idx + 1;
    }
    proof {
        assert(lv.take(lv.len() as int) == lv);
    }
    if data_lines.len() == 0 && event_name.is_none() && id.is_none() {
        return None;
    }
    let data = join_with_newline(&data_lines);
    Some(SseEvent { event: event_name, id, data })
}

} // verus!
