//! Provider error bodies and HTTP error responses.

use vstd::prelude::*;
use vstd::utf8::*;

use crate::error::{
    kind_from_status, parse_retry_after, retry_after_ok, redact_secrets, redacted, status_kind,
    upgrade_kind_from_body, upgraded_kind, ErrorBodyFamily, ProtocolError,
};
use crate::json::{
    as_i64, as_str, get, get_opt, jget, jget_opt, ji64, json_parse, jstr, opt_ref, parse_json,
    JsonValue,
};
use crate::text::{
    chars_eq, chars_of, decimal, i64_to_string, is_blank_str, owned, push_str, signed_decimal, trim,
    trim_str, u64_to_string,
};

verus! {

/// Response bodies are read up to this many bytes.
pub const ERROR_BODY_LIMIT: usize = 4096;

// ---------------------------------------------------------------------------
// Error bodies
// ---------------------------------------------------------------------------

/// A code given as a string, or as an integer printed in decimal.
pub open spec fn code_text(c: Option<JsonValue>) -> Option<Seq<char>> {
    match jstr(c) {
        Some(s) => Some(s),
        None => match ji64(c) {
            Some(n) => Some(signed_decimal(n as int)),
            None => None,
        },
    }
}

/// The first of two optional texts that is present.
pub open spec fn first_text(a: Option<Seq<char>>, b: Option<Seq<char>>) -> Option<Seq<char>> {
    match a {
        Some(x) => Some(x),
        None => b,
    }
}

/// The unredacted message: `error.message`, else a top-level `message`.
pub open spec fn raw_error_message(v: JsonValue) -> Option<Seq<char>> {
    first_text(jstr(jget_opt(jget(v, "error"@), "message"@)), jstr(jget(v, "message"@)))
}

/// OpenAI-style code: `error.code` (string or integer), else `error.type`.
pub open spec fn openai_error_code(v: JsonValue) -> Option<Seq<char>> {
    let err = jget(v, "error"@);
    first_text(code_text(jget_opt(err, "code"@)), jstr(jget_opt(err, "type"@)))
}

/// Anthropic-style code: `error.type`, else the OpenAI-style code.
pub open spec fn anthropic_error_code(v: JsonValue) -> Option<Seq<char>> {
    first_text(jstr(jget_opt(jget(v, "error"@), "type"@)), openai_error_code(v))
}

/// Gemini-style code: `error.status`, else `error.code`, else the OpenAI-style code.
pub open spec fn gemini_error_code(v: JsonValue) -> Option<Seq<char>> {
    let err = jget(v, "error"@);
    first_text(
        jstr(jget_opt(err, "status"@)),
        first_text(code_text(jget_opt(err, "code"@)), openai_error_code(v)),
    )
}

/// The code a family reads from a parsed body.
pub open spec fn family_error_code(family: ErrorBodyFamily, v: JsonValue) -> Option<Seq<char>> {
    match family {
        ErrorBodyFamily::OpenAi => openai_error_code(v),
        ErrorBodyFamily::Anthropic => anthropic_error_code(v),
        ErrorBodyFamily::Gemini => gemini_error_code(v),
    }
}

/// `r` is the redaction of `raw`: present exactly when `raw` is, and then the redacted
/// text.
pub open spec fn redacted_opt(r: Option<String>, raw: Option<Seq<char>>) -> bool {
    match raw {
        None => r is None,
        Some(m) => r is Some && r->0@ == redacted(m),
    }
}

/// The fields a family reads from a parsed body.
pub open spec fn fields_match(
    r: (Option<String>, Option<String>),
    family: ErrorBodyFamily,
    v: JsonValue,
) -> bool {
    &&& redacted_opt(r.0, raw_error_message(v))
    &&& r.1.deep_view() == family_error_code(family, v)
}

/// The fields a family reads from a body text: none where it is not JSON.
pub open spec fn body_fields_match(
    r: (Option<String>, Option<String>),
    family: ErrorBodyFamily,
    body: Seq<char>,
) -> bool {
    match json_parse(body) {
        Ok(v) => fields_match(r, family, v),
        Err(_) => r.0 is None && r.1 is None,
    }
}

fn str_field(v: Option<&JsonValue>) -> (r: Option<String>)
    ensures
        r.deep_view() == jstr(opt_ref(v)),
{
    match as_str(v) {
        Some(s) => Some(owned(s)),
        None => None,
    }
}

fn code_field(c: Option<&JsonValue>) -> (r: Option<String>)
    ensures
        r.deep_view() == code_text(opt_ref(c)),
{
    match as_str(c) {
        Some(s) => Some(owned(s)),
        None => match as_i64(c) {
            Some(n) => Some(i64_to_string(n)),
            None => None,
        },
    }
}

fn or_text(a: Option<String>, b: Option<String>) -> (r: Option<String>)
    ensures
        r.deep_view() == first_text(a.deep_view(), b.deep_view()),
{
    match a {
        Some(x) => Some(x),
        None => b,
    }
}

fn error_message(value: &JsonValue) -> (r: Option<String>)
    ensures
        redacted_opt(r, raw_error_message(*value)),
{
    let err = get(value, "error");
    let m = match as_str(get_opt(err, "message")) {
        Some(s) => Some(s),
        None => as_str(get(value, "message")),
    };
    match m {
        Some(s) => Some(redact_secrets(s)),
        None => None,
    }
}

fn openai_code(value: &JsonValue) -> (r: Option<String>)
    ensures
        r.deep_view() == openai_error_code(*value),
{
    let err = get(value, "error");
    or_text(code_field(get_opt(err, "code")), str_field(get_opt(err, "type")))
}

/// The message and code of an OpenAI-style body that parsed as JSON.
pub fn openai_error_fields(value: &JsonValue) -> (r: (Option<String>, Option<String>))
    ensures
        fields_match(r, ErrorBodyFamily::OpenAi, *value),
{
    (error_message(value), openai_code(value))
}

/// The message and code of an Anthropic-style body that parsed as JSON.
pub fn anthropic_error_fields(value: &JsonValue) -> (r: (Option<String>, Option<String>))
    ensures
        fields_match(r, ErrorBodyFamily::Anthropic, *value),
{
    let err = get(value, "error");
    (error_message(value), or_text(str_field(get_opt(err, "type")), openai_code(value)))
}

/// The message and code of a Gemini-style body that parsed as JSON.
pub fn gemini_error_fields(value: &JsonValue) -> (r: (Option<String>, Option<String>))
    ensures
        fields_match(r, ErrorBodyFamily::Gemini, *value),
{
    let err = get(value, "error");
    let code = or_text(
        str_field(get_opt(err, "status")),
        or_text(code_field(get_opt(err, "code")), openai_code(value)),
    );
    (error_message(value), code)
}

/// The message and code of a parsed body, for a family.
pub fn family_error_fields(family: ErrorBodyFamily, value: &JsonValue) -> (r: (
    Option<String>,
    Option<String>,
))
    ensures
        fields_match(r, family, *value),
{
    match family {
        ErrorBodyFamily::OpenAi => openai_error_fields(value),
        ErrorBodyFamily::Anthropic => anthropic_error_fields(value),
        ErrorBodyFamily::Gemini => gemini_error_fields(value),
    }
}

fn parse_error_body(body: &str, family: ErrorBodyFamily) -> (r: (Option<String>, Option<String>))
    ensures
        body_fields_match(r, family, body@),
{
    match parse_json(body) {
        Ok(v) => family_error_fields(family, &v),
        Err(_) => (None, None),
    }
}

/// OpenAI-style: `{ "error": { "message", "code", "type" } }`.
pub fn parse_openai_error_body(body: &str) -> (r: (Option<String>, Option<String>))
    ensures
        body_fields_match(r, ErrorBodyFamily::OpenAi, body@),
{
    parse_error_body(body, ErrorBodyFamily::OpenAi)
}

/// Extract message/code from common OpenAI error JSON.
pub fn parse_provider_error_body(body: &str) -> (r: (Option<String>, Option<String>))
    ensures
        body_fields_match(r, ErrorBodyFamily::OpenAi, body@),
{
    parse_openai_error_body(body)
}

/// Anthropic-style: `{ "type":"error", "error": { "type", "message" } }`.
pub fn parse_anthropic_error_body(body: &str) -> (r: (Option<String>, Option<String>))
    ensures
        body_fields_match(r, ErrorBodyFamily::Anthropic, body@),
{
    parse_error_body(body, ErrorBodyFamily::Anthropic)
}

/// Gemini / Google: `{ "error": { "message", "status", "code" } }`.
pub fn parse_gemini_error_body(body: &str) -> (r: (Option<String>, Option<String>))
    ensures
        body_fields_match(r, ErrorBodyFamily::Gemini, body@),
{
    parse_error_body(body, ErrorBodyFamily::Gemini)
}

// ---------------------------------------------------------------------------
// HTTP error responses
// ---------------------------------------------------------------------------

/// What `String::from_utf8_lossy` makes of some bytes.
pub uninterp spec fn utf8_lossy(bytes: Seq<u8>) -> Seq<char>;

/// `String::from_utf8_lossy`: the text of the bytes, each invalid sequence replaced by
/// U+FFFD. Stated here: valid UTF-8 decodes as itself; otherwise the result is named.
#[verifier::external_body]
fn from_utf8_lossy(bytes: &[u8]) -> (s: String)
    ensures
        s@ == utf8_lossy(bytes@),
        valid_utf8(bytes@) ==> s@ == decode_utf8(bytes@),
{
    String::from_utf8_lossy(bytes).into_owned()
}

/// The value of the first header named `name` (names are stored in lower case, as
/// `HeaderMap` keeps them; values that are not visible ASCII are left out).
pub open spec fn header_value(headers: Seq<(String, String)>, name: Seq<char>) -> Option<Seq<char>>
    decreases headers.len(),
{
    if headers.len() == 0 {
        None
    } else if headers[0].0@ == name {
        Some(headers[0].1@)
    } else {
        header_value(headers.drop_first(), name)
    }
}

/// The trimmed value of a header, when present and not blank.
pub open spec fn nonblank_header(headers: Seq<(String, String)>, name: Seq<char>) -> Option<
    Seq<char>,
> {
    match header_value(headers, name) {
        Some(v) => if trim(v).len() > 0 {
            Some(trim(v))
        } else {
            None
        },
        None => None,
    }
}

/// The request id: the first non-blank of the family's header names.
pub open spec fn request_id_of(headers: Seq<(String, String)>, family: ErrorBodyFamily) -> Option<
    Seq<char>,
> {
    match family {
        ErrorBodyFamily::OpenAi => nonblank_header(headers, "x-request-id"@),
        ErrorBodyFamily::Anthropic => first_text(
            nonblank_header(headers, "request-id"@),
            nonblank_header(headers, "x-request-id"@),
        ),
        ErrorBodyFamily::Gemini => first_text(
            nonblank_header(headers, "x-goog-request-id"@),
            nonblank_header(headers, "x-request-id"@),
        ),
    }
}

fn find_header<'a>(headers: &'a Vec<(String, String)>, name: &str) -> (r: Option<&'a str>)
    ensures
        r.deep_view() == header_value(headers@, name@),
{
    let target = chars_of(name);
    let mut i: usize = 0;
    assert(headers@.skip(0) == headers@);
    while i < headers.len()
        invariant
            0 <= i <= headers@.len(),
            target@ == name@,
            header_value(headers@, name@) == header_value(headers@.skip(i as int), name@),
        decreases headers.len() - i,
    {
        assert(headers@.skip(i as int).drop_first() == headers@.skip(i + 1));
        let c = chars_of(headers[i].0.as_str());
        if chars_eq(c.as_slice(), target.as_slice()) {
            return Some(headers[i].1.as_str());
        }
        i = i + 1;
    }
    None
}

fn header_nonblank(headers: &Vec<(String, String)>, name: &str) -> (r: Option<String>)
    ensures
        r.deep_view() == nonblank_header(headers@, name@),
{
    match find_header(headers, name) {
        Some(v) => {
            let t = trim_str(v);
            if is_blank_str(t.as_str()) {
                proof {
                    crate::text::lemma_trim_idempotent_len(v@);
                }
                None
            } else {
                proof {
                    crate::text::lemma_trim_idempotent_len(v@);
                }
                Some(t)
            }
        },
        None => None,
    }
}

fn request_id_from_headers(headers: &Vec<(String, String)>, family: ErrorBodyFamily) -> (r: Option<
    String,
>)
    ensures
        r.deep_view() == request_id_of(headers@, family),
{
    match family {
        ErrorBodyFamily::OpenAi => header_nonblank(headers, "x-request-id"),
        ErrorBodyFamily::Anthropic => or_text(
            header_nonblank(headers, "request-id"),
            header_nonblank(headers, "x-request-id"),
        ),
        ErrorBodyFamily::Gemini => or_text(
            header_nonblank(headers, "x-goog-request-id"),
            header_nonblank(headers, "x-request-id"),
        ),
    }
}

/// The bytes that are read of a body.
pub open spec fn limited_body(body: Seq<u8>) -> Seq<u8> {
    if body.len() > ERROR_BODY_LIMIT {
        body.take(ERROR_BODY_LIMIT as int)
    } else {
        body
    }
}

/// The message used when the body has none: the redacted trimmed body, or a note of the
/// status when the body is blank.
pub open spec fn fallback_message_ok(message: Seq<char>, status: u16, text: Seq<char>) -> bool {
    if trim(text).len() == 0 {
        message == "服务商返回 HTTP "@ + decimal(status as nat)
    } else {
        message == redacted(trim(text))
    }
}

/// The error `map_http_error` builds from a response, given the retry delay it read.
pub open spec fn http_error_ok(
    e: ProtocolError,
    status: u16,
    headers: Seq<(String, String)>,
    body: Seq<u8>,
    family: ErrorBodyFamily,
) -> bool {
    let text = utf8_lossy(limited_body(body));
    let code = match json_parse(text) {
        Ok(v) => family_error_code(family, v),
        Err(_) => None,
    };
    let raw_message = match json_parse(text) {
        Ok(v) => raw_error_message(v),
        Err(_) => None,
    };
    &&& match raw_message {
        Some(m) => e.message@ == redacted(m),
        None => fallback_message_ok(e.message@, status, text),
    }
    &&& e.kind == upgraded_kind(status_kind(status), status, e.message@, code, text)
    &&& e.retryable == crate::error::kind_retryable(e.kind)
    &&& e.http_status == Some(status)
    &&& e.provider_code.deep_view() == code
    &&& e.request_id.deep_view() == request_id_of(headers, family)
}

/// Build a [`ProtocolError`] from an HTTP error response: status, headers (lower-case
/// names with their text values), body bytes and the provider's error-body family.
pub fn map_http_error(
    status: u16,
    headers: &Vec<(String, String)>,
    body: &[u8],
    family: ErrorBodyFamily,
) -> (e: ProtocolError)
    ensures
        http_error_ok(e, status, headers@, body@, family),
        match header_value(headers@, "retry-after"@) {
            Some(v) => retry_after_ok(v, e.retry_after_ms),
            None => e.retry_after_ms is None,
        },
{
    let limited: &[u8] = if body.len() > ERROR_BODY_LIMIT {
        slice_prefix(body, ERROR_BODY_LIMIT)
    } else {
        body
    };
    let body_str = from_utf8_lossy(limited);
    let (message, code) = parse_error_body(body_str.as_str(), family);
    let message = match message {
        Some(m) => m,
        None => {
            let t = trim_str(body_str.as_str());
            if is_blank_str(t.as_str()) {
                proof {
                    crate::text::lemma_trim_idempotent_len(body_str@);
                }
                let mut m = owned("服务商返回 HTTP ");
                let digits = u64_to_string(status as u64);
                push_str(&mut m, digits.as_str());
                m
            } else {
                proof {
                    crate::text::lemma_trim_idempotent_len(body_str@);
                }
                redact_secrets(t.as_str())
            }
        },
    };
    let base_kind = kind_from_status(status);
    let code_ref: Option<&str> = match &code {
        Some(c) => Some(c.as_str()),
        None => None,
    };
    let kind = upgrade_kind_from_body(
        base_kind,
        status,
        message.as_str(),
        code_ref,
        body_str.as_str(),
    );
    let mut err = ProtocolError::new(kind, message).with_http_status(status);
    if let Some(code) = code {
        err = err.with_provider_code(code);
    }
    if let Some(id) = request_id_from_headers(headers, family) {
        err = err.with_request_id(id);
    }
    if let Some(v) = find_header(headers, "retry-after") {
        if let Some(ms) = parse_retry_after(v) {
            err = err.with_retry_after_ms(ms);
        }
    }
    err
}

fn slice_prefix(b: &[u8], n: usize) -> (r: &[u8])
    requires
        n <= b@.len(),
    ensures
        r@ == b@.take(n as int),
{
    vstd::slice::slice_subrange(b, 0, n)
}


/// Server errors, rate limits and timeouts stay what their status says, whatever the
/// body holds: a 5xx response maps to a retryable provider-unavailable error, a 429 to a
/// retryable rate limit and a 408 to a retryable timeout; every mapped error carries its
/// HTTP status, and only these kinds are retryable.
pub proof fn law_http_error_classes(
    e: ProtocolError,
    status: u16,
    headers: Seq<(String, String)>,
    body: Seq<u8>,
    family: ErrorBodyFamily,
)
    requires
        http_error_ok(e, status, headers, body, family),
    ensures
        e.http_status == Some(status),
        500 <= status <= 599 ==> e.kind == crate::error::ProtocolErrorKind::ProviderUnavailable && e.retryable,
        status == 429 ==> e.kind == crate::error::ProtocolErrorKind::RateLimited && e.retryable,
        status == 408 ==> e.kind == crate::error::ProtocolErrorKind::Timeout && e.retryable,
        status == 401 ==> e.kind == crate::error::ProtocolErrorKind::Authentication && !e.retryable,
        e.retryable ==> status == 408 || status == 429 || 500 <= status <= 599,
{
    crate::error::law_status_classes(status);
}


/// The provider's request id is kept: when the response carries a non-blank
/// `x-request-id`, an OpenAI-family error records it trimmed, and every family records
/// some request id then; with no id header at all, none is recorded.
pub proof fn law_http_error_request_id(
    e: ProtocolError,
    status: u16,
    headers: Seq<(String, String)>,
    body: Seq<u8>,
    family: ErrorBodyFamily,
    id: Seq<char>,
)
    requires
        http_error_ok(e, status, headers, body, family),
    ensures
        header_value(headers, "x-request-id"@) == Some(id) && trim(id).len() > 0 ==> e.request_id is Some,
        header_value(headers, "x-request-id"@) == Some(id) && trim(id).len() > 0 && family == ErrorBodyFamily::OpenAi
            ==> e.request_id.deep_view() == Some(trim(id)),
        header_value(headers, "x-request-id"@) is None && header_value(headers, "request-id"@) is None
            && header_value(headers, "x-goog-request-id"@) is None ==> e.request_id is None,
{
}

} // verus!
