//! Pieces shared by the request encoders.

use vstd::prelude::*;

use crate::error::{ProtocolError, ProtocolErrorKind};
use crate::json::{jv, jvs, members_v, JsonValue, JV};
use crate::text::{chars_of, is_whitespace, owned, push_str, string_of, trim, trim_str};
use crate::types::{drop_ws, ChatMessage, ContentPart, texts_of};

verus! {

/// An encoding failure: its kind and message.
pub type WireErr = (ProtocolErrorKind, Seq<char>);

/// `x` is the encoding failure `e`.
pub open spec fn wire_err_is(x: ProtocolError, e: WireErr) -> bool {
    &&& x.kind == e.0
    &&& x.message@ == e.1
    &&& x.retryable == crate::error::kind_retryable(e.0)
    &&& x.http_status is None
    &&& x.provider_code is None
    &&& x.request_id is None
    &&& x.retry_after_ms is None
}

/// An optional text's characters.
pub open spec fn opt_seq(o: Option<String>) -> Option<Seq<char>> {
    match o {
        Some(s) => Some(s@),
        None => None,
    }
}

/// `r` is the encoding `o`: the body's content, or the error.
pub open spec fn encoded_is(r: Result<JsonValue, ProtocolError>, o: Result<JV, WireErr>) -> bool {
    match o {
        Ok(j) => r matches Ok(v) && jv(v) == j,
        Err(e) => r matches Err(x) && wire_err_is(x, e),
    }
}

/// `r` is the encoding `o` of a list.
pub open spec fn encoded_list_is(r: Result<Vec<JsonValue>, ProtocolError>, o: Result<Seq<JV>, WireErr>) -> bool {
    match o {
        Ok(js) => r matches Ok(v) && jvs(v@) == js,
        Err(e) => r matches Err(x) && wire_err_is(x, e),
    }
}

/// The error for an encoding failure.
pub fn wire_error(kind: ProtocolErrorKind, message: &str) -> (e: ProtocolError)
    ensures
        e.kind == kind,
        e.message@ == message@,
        e.retryable == crate::error::kind_retryable(kind),
        e.http_status is None,
        e.provider_code is None,
        e.request_id is None,
        e.retry_after_ms is None,
{
    ProtocolError::new(kind, owned(message))
}

/// A member list, optionally followed by one more member.
pub open spec fn with_opt(m: Seq<(Seq<char>, JV)>, key: Seq<char>, v: Option<JV>) -> Seq<(Seq<char>, JV)> {
    match v {
        Some(x) => m.push((key, x)),
        None => m,
    }
}

/// The text without whitespace characters.
pub fn without_ws(s: &str) -> (r: String)
    ensures
        r@ == drop_ws(s@),
{
    let v = chars_of(s);
    let mut clean: Vec<char> = Vec::new();
    let mut i: usize = 0;
    while i < v.len()
        invariant
            0 <= i <= v@.len(),
            v@ == s@,
            clean@ == drop_ws(v@.take(i as int)),
        decreases v.len() - i,
    {
        proof {
            assert(v@.take(i + 1).drop_last() == v@.take(i as int));
            assert(v@.take(i + 1).last() == v@[i as int]);
        }
        if !is_whitespace(v[i]) {
            clean.push(v[i]);
        }
        i = i + 1;
    }
    assert(v@.take(v@.len() as int) == v@);
    string_of(clean.as_slice())
}

/// A `data:` URL for inline base64 image data (media type trimmed, whitespace removed
/// from the data).
pub open spec fn data_url(media_type: Seq<char>, data: Seq<char>) -> Seq<char> {
    "data:"@ + trim(media_type) + ";base64,"@ + drop_ws(data)
}

/// A `data:` URL for inline base64 image data.
pub fn format_data_url(media_type: &str, data: &str) -> (r: String)
    ensures
        r@ == data_url(media_type@, data@),
{
    let mut s = owned("data:");
    push_str(&mut s, trim_str(media_type).as_str());
    push_str(&mut s, ";base64,");
    push_str(&mut s, without_ws(data).as_str());
    s
}

/// Some part is an image.
pub open spec fn has_image_part(parts: Seq<ContentPart>) -> bool {
    exists|i: int| 0 <= i < parts.len() && crate::types::is_image(#[trigger] parts[i])
}

/// The number of text parts.
pub open spec fn text_count(parts: Seq<ContentPart>) -> int
    decreases parts.len(),
{
    if parts.len() == 0 {
        0
    } else {
        text_count(parts.drop_last()) + if parts.last() is Text {
            1int
        } else {
            0int
        }
    }
}

/// Whether any part is an image, and how many parts are text.
pub fn scan_parts(parts: &Vec<ContentPart>) -> (r: (bool, usize))
    ensures
        r.0 == has_image_part(parts@),
        r.1 == text_count(parts@),
{
    let mut image = false;
    let mut texts: usize = 0;
    let mut i: usize = 0;
    while i < parts.len()
        invariant
            0 <= i <= parts@.len(),
            image == exists|j: int| 0 <= j < i && crate::types::is_image(#[trigger] parts@[j]),
            texts == text_count(parts@.take(i as int)),
            texts <= i,
        decreases parts.len() - i,
    {
        proof {
            assert(parts@.take(i + 1).drop_last() == parts@.take(i as int));
            assert(parts@.take(i + 1).last() == parts@[i as int]);
        }
        match &parts[i] {
            ContentPart::Text { .. } => {
                texts = texts + 1;
            },
            _ => {
                image = true;
            },
        }
        i = i + 1;
    }
    assert(parts@.take(parts@.len() as int) == parts@);
    (image, texts)
}



/// The members hold `key` with `value`.
pub open spec fn has_member(ms: Seq<(Seq<char>, JV)>, key: Seq<char>, value: JV) -> bool {
    exists|i: int| 0 <= i < ms.len() && ms[i] == (key, value)
}

/// No member has the name `key`.
pub open spec fn lacks_member(ms: Seq<(Seq<char>, JV)>, key: Seq<char>) -> bool {
    forall|i: int| 0 <= i < ms.len() ==> ms[i].0 != key
}

/// Appending an optional member keeps every member there before.
pub proof fn lemma_with_opt_keeps(m: Seq<(Seq<char>, JV)>, key: Seq<char>, v: Option<JV>, k: Seq<char>, x: JV)
    requires
        has_member(m, k, x),
    ensures
        has_member(with_opt(m, key, v), k, x),
{
    let i = choose|i: int| 0 <= i < m.len() && m[i] == (k, x);
    assert(with_opt(m, key, v)[i] == (k, x));
}

/// Appending an optional member under another name adds no member named `k`.
pub proof fn lemma_with_opt_lacks(m: Seq<(Seq<char>, JV)>, key: Seq<char>, v: Option<JV>, k: Seq<char>)
    requires
        lacks_member(m, k),
        key != k,
    ensures
        lacks_member(with_opt(m, key, v), k),
{
}

} // verus!
