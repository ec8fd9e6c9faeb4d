//! Stable protocol errors.

use vstd::prelude::*;

use crate::text::{
    all_digits, ascii_lower, chars_eq, chars_of, contains_chars, contains_seq, digits_value,
    find_chars, first_occurrence, is_blank_str, is_whitespace, is_ws, lower_char, lower_str, owned, to_lower_char,
    parse_i32, parse_i32_spec, parse_u32, parse_u64, parse_unsigned, push_char, push_str,
    split_at_char, split_on, split_words, string_of, trim, trim_str, vecs_view, words,
};

verus! {

/// High-level error classification for adapters.
#[derive(Debug, Clone, Copy, PartialEq, Eq, Structural)]
pub enum ProtocolErrorKind {
    InvalidConfiguration,
    InvalidRequest,
    Authentication,
    PermissionDenied,
    RateLimited,
    ContextLengthExceeded,
    ContentFilter,
    ProviderUnavailable,
    Timeout,
    Transport,
    Decode,
    UnexpectedEof,
    Unsupported,
}

/// Kinds that are worth retrying.
pub open spec fn kind_retryable(k: ProtocolErrorKind) -> bool {
    k == ProtocolErrorKind::RateLimited || k == ProtocolErrorKind::ProviderUnavailable || k
        == ProtocolErrorKind::Timeout
}

impl ProtocolErrorKind {
    /// Whether an error of this kind is worth retrying.
    pub fn retryable(self) -> (r: bool)
        ensures
            r == kind_retryable(self),
    {
        match self {
            ProtocolErrorKind::RateLimited | ProtocolErrorKind::ProviderUnavailable
            | ProtocolErrorKind::Timeout => true,
            _ => false,
        }
    }
}

/// Vendor error JSON family for body parsing.
#[derive(Debug, Clone, Copy, PartialEq, Eq, Structural)]
pub enum ErrorBodyFamily {
    OpenAi,
    Anthropic,
    Gemini,
}

/// Adapter error returned to the desktop application layer.
#[derive(Debug, Clone)]
pub struct ProtocolError {
    pub kind: ProtocolErrorKind,
    pub message: String,
    pub retryable: bool,
    pub http_status: Option<u16>,
    pub provider_code: Option<String>,
    pub request_id: Option<String>,
    pub retry_after_ms: Option<u64>,
}

impl ProtocolError {
    /// An error of `kind` with `message`, retryable as its kind is, and no details.
    pub fn new(kind: ProtocolErrorKind, message: String) -> (e: Self)
        ensures
            e.kind == kind,
            e.message@ == message@,
            e.retryable == kind_retryable(kind),
            e.http_status is None,
            e.provider_code is None,
            e.request_id is None,
            e.retry_after_ms is None,
    {
        ProtocolError {
            kind,
            message,
            retryable: kind.retryable(),
            http_status: None,
            provider_code: None,
            request_id: None,
            retry_after_ms: None,
        }
    }

    /// The same error with the HTTP status set.
    pub fn with_http_status(self, status: u16) -> (e: Self)
        ensures
            e == (ProtocolError { http_status: Some(status), ..self }),
    {
        let mut e = self;
        e.http_status = Some(status);
        e
    }

    /// The same error with the provider's error code set.
    pub fn with_provider_code(self, code: String) -> (e: Self)
        ensures
            e == (ProtocolError { provider_code: Some(code), ..self }),
    {
        let mut e = self;
        e.provider_code = Some(code);
        e
    }

    /// The same error with the provider's request id set.
    pub fn with_request_id(self, id: String) -> (e: Self)
        ensures
            e == (ProtocolError { request_id: Some(id), ..self }),
    {
        let mut e = self;
        e.request_id = Some(id);
        e
    }

    /// The same error with `retryable` overridden.
    pub fn with_retryable(self, retryable: bool) -> (e: Self)
        ensures
            e == (ProtocolError { retryable, ..self }),
    {
        let mut e = self;
        e.retryable = retryable;
        e
    }

    /// The same error with the retry delay set.
    pub fn with_retry_after_ms(self, ms: u64) -> (e: Self)
        ensures
            e == (ProtocolError { retry_after_ms: Some(ms), ..self }),
    {
        let mut e = self;
        e.retry_after_ms = Some(ms);
        e
    }

    /// The text the error displays: its message.
    pub fn to_display_string(&self) -> (s: String)
        ensures
            s@ == self.message@,
    {
        owned(self.message.as_str())
    }
}

/// The kind an HTTP status maps to.
pub open spec fn status_kind(status: u16) -> ProtocolErrorKind {
    if status == 400 || status == 404 || status == 422 {
        ProtocolErrorKind::InvalidRequest
    } else if status == 401 {
        ProtocolErrorKind::Authentication
    } else if status == 403 {
        ProtocolErrorKind::PermissionDenied
    } else if status == 408 {
        ProtocolErrorKind::Timeout
    } else if status == 429 {
        ProtocolErrorKind::RateLimited
    } else if 500 <= status <= 599 {
        ProtocolErrorKind::ProviderUnavailable
    } else {
        ProtocolErrorKind::Transport
    }
}

/// Map HTTP status codes to protocol error kinds.
pub fn kind_from_status(status: u16) -> (k: ProtocolErrorKind)
    ensures
        k == status_kind(status),
{
    match status {
        400 | 404 | 422 => ProtocolErrorKind::InvalidRequest,
        401 => ProtocolErrorKind::Authentication,
        403 => ProtocolErrorKind::PermissionDenied,
        408 => ProtocolErrorKind::Timeout,
        429 => ProtocolErrorKind::RateLimited,
        500..=599 => ProtocolErrorKind::ProviderUnavailable,
        _ => ProtocolErrorKind::Transport,
    }
}

// ---------------------------------------------------------------------------
// Kind upgrade from body text
// ---------------------------------------------------------------------------

/// The lower-cased text in which `upgrade_kind_from_body` looks for hints.
pub open spec fn upgrade_haystack(message: Seq<char>, code: Option<Seq<char>>, raw: Seq<char>) -> Seq<
    char,
> {
    let c = match code {
        Some(c) => c,
        None => seq![],
    };
    ascii_lower(message) + seq![' '] + ascii_lower(c) + seq![' '] + ascii_lower(raw)
}

/// The text hints at an exceeded context window.
pub open spec fn looks_context(h: Seq<char>) -> bool {
    contains_seq(h, "context_length"@) || contains_seq(h, "context length"@) || contains_seq(
        h,
        "maximum context"@,
    ) || contains_seq(h, "max context"@) || contains_seq(h, "token limit"@) || contains_seq(
        h,
        "too many tokens"@,
    ) || contains_seq(h, "max_tokens"@) || contains_seq(h, "prompt is too long"@)
        || contains_seq(h, "request too large"@) || contains_seq(h, "context_window"@)
        || contains_seq(h, "context window"@)
}

/// The text hints at a content filter.
pub open spec fn looks_filter(h: Seq<char>) -> bool {
    contains_seq(h, "content_filter"@) || contains_seq(h, "content filter"@) || contains_seq(
        h,
        "content_filtered"@,
    ) || contains_seq(h, "content_policy"@) || contains_seq(h, "safety"@) || contains_seq(
        h,
        "blocked"@,
    ) || contains_seq(h, "moderation"@) || contains_seq(h, "responsibleai"@) || contains_seq(
        h,
        "responsible_ai"@,
    ) || contains_seq(h, "prohibited"@)
}

/// The kind after looking at the body: authentication stays authentication; an invalid
/// request that mentions the context window becomes `ContextLengthExceeded`; an invalid
/// or forbidden request that mentions a filter becomes `ContentFilter`.
pub open spec fn upgraded_kind(
    kind: ProtocolErrorKind,
    status: u16,
    message: Seq<char>,
    code: Option<Seq<char>>,
    raw: Seq<char>,
) -> ProtocolErrorKind {
    let h = upgrade_haystack(message, code, raw);
    if status == 401 || kind == ProtocolErrorKind::Authentication {
        ProtocolErrorKind::Authentication
    } else if kind == ProtocolErrorKind::InvalidRequest && looks_context(h) {
        ProtocolErrorKind::ContextLengthExceeded
    } else if (kind == ProtocolErrorKind::InvalidRequest || kind
        == ProtocolErrorKind::PermissionDenied) && looks_filter(h) {
        ProtocolErrorKind::ContentFilter
    } else {
        kind
    }
}

fn contains_str(h: &[char], needle: &str) -> (r: bool)
    ensures
        r == contains_seq(h@, needle@),
{
    let n = chars_of(needle);
    contains_chars(h, n.as_slice())
}

fn any_context_hint(h: &[char]) -> (r: bool)
    ensures
        r == looks_context(h@),
{
    contains_str(h, "context_length") || contains_str(h, "context length") || contains_str(
        h,
        "maximum context",
    ) || contains_str(h, "max context") || contains_str(h, "token limit") || contains_str(
        h,
        "too many tokens",
    ) || contains_str(h, "max_tokens") || contains_str(h, "prompt is too long")
        || contains_str(h, "request too large") || contains_str(h, "context_window")
        || contains_str(h, "context window")
}

fn any_filter_hint(h: &[char]) -> (r: bool)
    ensures
        r == looks_filter(h@),
{
    contains_str(h, "content_filter") || contains_str(h, "content filter") || contains_str(
        h,
        "content_filtered",
    ) || contains_str(h, "content_policy") || contains_str(h, "safety") || contains_str(
        h,
        "blocked",
    ) || contains_str(h, "moderation") || contains_str(h, "responsibleai") || contains_str(
        h,
        "responsible_ai",
    ) || contains_str(h, "prohibited")
}

/// The error for a request that got no HTTP response (`map_reqwest_error`): a timeout,
/// retryable; a failed connection, retryable; any other network failure. `detail` is
/// the transport's own description of the failure.
pub fn transport_error(is_timeout: bool, is_connect: bool, detail: &str) -> (e: ProtocolError)
    ensures
        is_timeout ==> e.kind == ProtocolErrorKind::Timeout && e.message@ == "网络请求超时"@
            && e.retryable,
        !is_timeout && is_connect ==> e.kind == ProtocolErrorKind::Transport && e.message@
            == "连接失败: "@ + detail@ && e.retryable,
        !is_timeout && !is_connect ==> e.kind == ProtocolErrorKind::Transport && e.message@
            == "网络错误: "@ + detail@ && !e.retryable,
        e.http_status is None,
        e.provider_code is None,
        e.request_id is None,
        e.retry_after_ms is None,
{
    if is_timeout {
        return ProtocolError::new(ProtocolErrorKind::Timeout, owned("网络请求超时")).with_retryable(true);
    }
    if is_connect {
        let mut m = owned("连接失败: ");
        push_str(&mut m, detail);
        return ProtocolError::new(ProtocolErrorKind::Transport, m).with_retryable(true);
    }
    let mut m = owned("网络错误: ");
    push_str(&mut m, detail);
    ProtocolError::new(ProtocolErrorKind::Transport, m)
}

/// Upgrade kind from body heuristics. Never downgrades Authentication (401).
pub fn upgrade_kind_from_body(
    kind: ProtocolErrorKind,
    status: u16,
    message: &str,
    provider_code: Option<&str>,
    raw_body: &str,
) -> (k: ProtocolErrorKind)
    ensures
        k == upgraded_kind(kind, status, message@, provider_code.deep_view(), raw_body@),
{
    if status == 401 || kind == ProtocolErrorKind::Authentication {
        return ProtocolErrorKind::Authentication;
    }
    let mut haystack = lower_str(message);
    push_char(&mut haystack, ' ');
    let code_lower = match provider_code {
        Some(c) => lower_str(c),
        None => String::new(),
    };
    push_str(&mut haystack, code_lower.as_str());
    push_char(&mut haystack, ' ');
    let body_lower = lower_str(raw_body);
    push_str(&mut haystack, body_lower.as_str());
    let h = chars_of(haystack.as_str());
    proof {
        let c = match provider_code.deep_view() {
            Some(c) => c,
            None => seq![],
        };
        assert(ascii_lower(Seq::<char>::empty()) == Seq::<char>::empty());
        assert(h@ == upgrade_haystack(message@, provider_code.deep_view(), raw_body@));
    }
    let looks_context = any_context_hint(h.as_slice());
    let looks_filter = any_filter_hint(h.as_slice());
    match kind {
        ProtocolErrorKind::InvalidRequest if looks_context => ProtocolErrorKind::ContextLengthExceeded,
        ProtocolErrorKind::InvalidRequest if looks_filter => ProtocolErrorKind::ContentFilter,
        ProtocolErrorKind::PermissionDenied if looks_filter => ProtocolErrorKind::ContentFilter,
        other => other,
    }
}

// ---------------------------------------------------------------------------
// Retry-After
// ---------------------------------------------------------------------------

/// `a * b` saturated at `u64::MAX`.
pub open spec fn sat_mul_u64(a: int, b: int) -> int {
    if a * b > u64::MAX {
        u64::MAX as int
    } else {
        a * b
    }
}

/// Milliseconds until `target` (Unix seconds) as seen at `now`: never negative, the
/// difference saturated to `i64`, the product saturated to `u64`.
pub open spec fn retry_ms_until(target: int, now: int) -> int {
    let d = target - now;
    let d = if d > i64::MAX {
        i64::MAX as int
    } else if d < i64::MIN {
        i64::MIN as int
    } else {
        d
    };
    let d = if d < 0 {
        0
    } else {
        d
    };
    sat_mul_u64(d, 1000)
}

/// Days since 1970-01-01 of a civil date (valid for any day 1..=31 of months 1..=12).
pub open spec fn civil_days(year: int, month: int, day: int) -> Option<int> {
    if !(1 <= month <= 12) || day == 0 || day > 31 {
        None
    } else {
        let y = if month <= 2 {
            year - 1
        } else {
            year
        };
        let era = y / 400;
        let yoe = y - era * 400;
        let mp = if month > 2 {
            month - 3
        } else {
            month + 9
        };
        let doy = (153 * mp + 2) / 5 + day - 1;
        let doe = yoe * 365 + yoe / 4 - yoe / 100 + doy;
        Some(era * 146_097 + doe - 719_468)
    }
}

/// The date arithmetic stays within `i32` (the computation reads `year - 1` and
/// `y - 399` in `i32`).
pub open spec fn civil_in_range(year: int, month: int) -> bool {
    let y = if month <= 2 {
        year - 1
    } else {
        year
    };
    (month <= 2 ==> year > i32::MIN) && (y < 0 ==> y - 399 >= i32::MIN)
}

/// Howard Hinnant's days-from-civil (days since 1970-01-01).
pub fn days_from_civil(year: i32, month: u32, day: u32) -> (r: Option<i64>)
    requires
        (1 <= month <= 12 && day != 0 && day <= 31) ==> civil_in_range(year as int, month as int),
    ensures
        match r {
            Some(d) => civil_days(year as int, month as int, day as int) == Some(d as int),
            None => civil_days(year as int, month as int, day as int) is None,
        },
{
    if !(1 <= month && month <= 12) || day == 0 || day > 31 {
        return None;
    }
    let y: i32 = if month <= 2 {
        year - 1
    } else {
        year
    };
    // floor division by 400, computed on non-negative operands
    let era: i64 = if y >= 0 {
        (y as i64) / 400
    } else {
        -((399 - (y as i64)) / 400)
    };
    proof {
        let yi = y as int;
        if yi < 0 {
            assert(-((399 - yi) / 400) == yi / 400) by (nonlinear_arith)
                requires
                    yi < 0,
            ;
        }
    }
    let yoe_i: i64 = (y as i64) - era * 400;
    assert(0 <= yoe_i < 400) by (nonlinear_arith)
        requires
            era == (y as int) / 400,
            yoe_i == y - era * 400,
    ;
    let yoe = yoe_i as u32;
    let mp = if month > 2 {
        month - 3
    } else {
        month + 9
    };
    let doy = (153 * mp + 2) / 5 + day - 1;
    let doe = yoe * 365 + yoe / 4 - yoe / 100 + doy;
    Some(era * 146_097 + (doe as i64) - 719_468)
}

/// Month abbreviations of an HTTP date.
pub open spec fn month_number(m: Seq<char>) -> Option<int> {
    if m == "Jan"@ {
        Some(1)
    } else if m == "Feb"@ {
        Some(2)
    } else if m == "Mar"@ {
        Some(3)
    } else if m == "Apr"@ {
        Some(4)
    } else if m == "May"@ {
        Some(5)
    } else if m == "Jun"@ {
        Some(6)
    } else if m == "Jul"@ {
        Some(7)
    } else if m == "Aug"@ {
        Some(8)
    } else if m == "Sep"@ {
        Some(9)
    } else if m == "Oct"@ {
        Some(10)
    } else if m == "Nov"@ {
        Some(11)
    } else if m == "Dec"@ {
        Some(12)
    } else {
        None
    }
}

fn month_of(m: &[char]) -> (r: Option<u32>)
    ensures
        match r {
            Some(n) => month_number(m@) == Some(n as int),
            None => month_number(m@) is None,
        },
{
    if chars_eq(m, chars_of("Jan").as_slice()) {
        return Some(1);
    }
    if chars_eq(m, chars_of("Feb").as_slice()) {
        return Some(2);
    }
    if chars_eq(m, chars_of("Mar").as_slice()) {
        return Some(3);
    }
    if chars_eq(m, chars_of("Apr").as_slice()) {
        return Some(4);
    }
    if chars_eq(m, chars_of("May").as_slice()) {
        return Some(5);
    }
    if chars_eq(m, chars_of("Jun").as_slice()) {
        return Some(6);
    }
    if chars_eq(m, chars_of("Jul").as_slice()) {
        return Some(7);
    }
    if chars_eq(m, chars_of("Aug").as_slice()) {
        return Some(8);
    }
    if chars_eq(m, chars_of("Sep").as_slice()) {
        return Some(9);
    }
    if chars_eq(m, chars_of("Oct").as_slice()) {
        return Some(10);
    }
    if chars_eq(m, chars_of("Nov").as_slice()) {
        return Some(11);
    }
    if chars_eq(m, chars_of("Dec").as_slice()) {
        return Some(12);
    }
    None
}


/// The wall clock in whole seconds since the Unix epoch, as `i64`
/// (`SystemTime::now().duration_since(UNIX_EPOCH)`); `None` before the epoch.
/// The value depends on the clock: nothing is stated of it.
#[verifier::external_body]
fn unix_now_secs() -> Option<i64> {
    std::time::SystemTime::now().duration_since(std::time::UNIX_EPOCH).ok().map(
        |d| d.as_secs() as i64,
    )
}

/// The target second of an IMF-fixdate (`Sun, 06 Nov 1994 08:49:37 GMT`), when the text
/// reads as one: six words, the month abbreviated in English, three `:`-separated time
/// fields, zone `GMT` in any case.
pub open spec fn http_date_secs(v: Seq<char>) -> Option<int> {
    let parts = words(v);
    if parts.len() != 6 {
        None
    } else {
        let tp = split_on(parts[4], ':');
        match (
            parse_unsigned(parts[1], u32::MAX as int),
            month_number(parts[2]),
            parse_i32_spec(parts[3]),
        ) {
            (Some(day), Some(month), Some(year)) => {
                if tp.len() != 3 || ascii_lower(parts[5]) != "gmt"@ {
                    None
                } else {
                    match (
                        parse_unsigned(tp[0], u32::MAX as int),
                        parse_unsigned(tp[1], u32::MAX as int),
                        parse_unsigned(tp[2], u32::MAX as int),
                    ) {
                        (Some(h), Some(mi), Some(se)) => match civil_days(year, month, day) {
                            Some(days) => {
                                let t = days * 86_400;
                                let t2 = t + (h * 3600 + mi * 60 + se);
                                if i64::MIN <= t <= i64::MAX && i64::MIN <= t2 <= i64::MAX {
                                    Some(t2)
                                } else {
                                    None
                                }
                            },
                            None => None,
                        },
                        _ => None,
                    }
                }
            },
            _ => None,
        }
    }
}

/// Reading the date would overflow the `i32` year arithmetic.
pub open spec fn http_date_overflows(v: Seq<char>) -> bool {
    let parts = words(v);
    parts.len() == 6 && {
        let tp = split_on(parts[4], ':');
        match (
            parse_unsigned(parts[1], u32::MAX as int),
            month_number(parts[2]),
            parse_i32_spec(parts[3]),
        ) {
            (Some(day), Some(month), Some(year)) => {
                tp.len() == 3 && ascii_lower(parts[5]) == "gmt"@ && parse_unsigned(
                    tp[0],
                    u32::MAX as int,
                ) is Some && parse_unsigned(tp[1], u32::MAX as int) is Some && parse_unsigned(
                    tp[2],
                    u32::MAX as int,
                ) is Some && day != 0 && day <= 31 && !civil_in_range(year, month)
            },
            _ => false,
        }
    }
}

fn str_of_chars(v: &Vec<char>) -> (s: String)
    ensures
        s@ == v@,
{
    string_of(v.as_slice())
}

/// Parse an IMF-fixdate into Unix seconds.
fn http_date_target_secs(value: &str) -> (r: Option<i64>)
    requires
        !http_date_overflows(value@),
    ensures
        match r {
            Some(t) => http_date_secs(value@) == Some(t as int),
            None => http_date_secs(value@) is None,
        },
{
    let v = chars_of(value);
    let parts = split_words(v.as_slice());
    if parts.len() != 6 {
        return None;
    }
    let ghost pv = vecs_view(parts@);
    assert(pv[1] == parts[1]@ && pv[2] == parts[2]@ && pv[3] == parts[3]@ && pv[4] == parts[4]@
        && pv[5] == parts[5]@);
    let day = match parse_u32(str_of_chars(&parts[1]).as_str()) {
        Some(d) => d,
        None => {
            return None;
        },
    };
    let month = match month_of(parts[2].as_slice()) {
        Some(m) => m,
        None => {
            return None;
        },
    };
    let year = match parse_i32(str_of_chars(&parts[3]).as_str()) {
        Some(y) => y,
        None => {
            return None;
        },
    };
    let time_parts = split_at_char(parts[4].as_slice(), ':');
    let zone = lower_str(str_of_chars(&parts[5]).as_str());
    if time_parts.len() != 3 || !chars_eq(chars_of(zone.as_str()).as_slice(), chars_of("gmt").as_slice()) {
        return None;
    }
    let ghost tv = vecs_view(time_parts@);
    assert(tv[0] == time_parts[0]@ && tv[1] == time_parts[1]@ && tv[2] == time_parts[2]@);
    let hour = match parse_u32(str_of_chars(&time_parts[0]).as_str()) {
        Some(h) => h,
        None => {
            return None;
        },
    };
    let minute = match parse_u32(str_of_chars(&time_parts[1]).as_str()) {
        Some(m) => m,
        None => {
            return None;
        },
    };
    let second = match parse_u32(str_of_chars(&time_parts[2]).as_str()) {
        Some(x) => x,
        None => {
            return None;
        },
    };
    let days = match days_from_civil(year, month, day) {
        Some(d) => d,
        None => {
            return None;
        },
    };
    let t = match days.checked_mul(86_400) {
        Some(t) => t,
        None => {
            return None;
        },
    };
    let clock = (hour as i64) * 3600 + (minute as i64) * 60 + (second as i64);
    match t.checked_add(clock) {
        Some(t2) => Some(t2),
        None => None,
    }
}

/// Milliseconds until `target` as seen at `now`.
pub fn retry_ms_from(target: i64, now: i64) -> (ms: u64)
    ensures
        ms == retry_ms_until(target as int, now as int),
{
    let diff: i128 = (target as i128) - (now as i128);
    let d: i64 = if diff > (i64::MAX as i128) {
        i64::MAX
    } else if diff < (i64::MIN as i128) {
        i64::MIN
    } else {
        diff as i64
    };
    let d: i64 = if d < 0 {
        0
    } else {
        d
    };
    times_1000_saturating(d as u64)
}

/// `x * 1000`, saturated at `u64::MAX`.
fn times_1000_saturating(x: u64) -> (r: u64)
    ensures
        r == sat_mul_u64(x as int, 1000),
{
    if x > u64::MAX / 1000 {
        u64::MAX
    } else {
        x * 1000
    }
}

/// What an HTTP-date `Retry-After` gives when the clock reads `now` (Unix seconds;
/// `None` when the clock is before the epoch): nothing when the text does not read as a
/// date or the clock gave nothing, else the milliseconds from `now` to the date.
pub open spec fn date_retry_ms(v: Seq<char>, now: Option<i64>) -> Option<u64> {
    match (http_date_secs(v), now) {
        (Some(t), Some(n)) => Some(retry_ms_until(t, n as int) as u64),
        _ => None,
    }
}

/// An HTTP-date `Retry-After` in milliseconds, given the clock's reading.
pub fn http_date_retry_after_at(value: &str, now: Option<i64>) -> (r: Option<u64>)
    requires
        !http_date_overflows(value@),
    ensures
        r == date_retry_ms(value@, now),
{
    let target = match http_date_target_secs(value) {
        Some(t) => t,
        None => {
            return None;
        },
    };
    match now {
        Some(n) => Some(retry_ms_from(target, n)),
        None => None,
    }
}

/// `Retry-After` as an HTTP date, in milliseconds from now.
fn parse_http_date_retry_after_ms(value: &str) -> (r: Option<u64>)
    requires
        !http_date_overflows(value@),
    ensures
        http_date_secs(value@) is None ==> r is None,
        r matches Some(ms) ==> exists|now: i64|
            ms == retry_ms_until(http_date_secs(value@)->0, now as int),
        exists|now: Option<i64>| r == date_retry_ms(value@, now),
{
    if http_date_target_secs(value).is_none() {
        assert(date_retry_ms(value@, None) is None);
        return None;
    }
    let now = unix_now_secs();
    let r = http_date_retry_after_at(value, now);
    proof {
        if r is Some {
            let n = now->0;
            assert(r->0 == retry_ms_until(http_date_secs(value@)->0, n as int));
        }
    }
    r
}

/// What `Retry-After` gives when the clock reads `now`: nothing for blank text;
/// delta-seconds times 1000, saturated; nothing for a date whose year arithmetic would
/// overflow; else the HTTP-date reading.
pub open spec fn retry_after_at(value: Seq<char>, now: Option<i64>) -> Option<u64> {
    let t = trim(value);
    if t.len() == 0 {
        None
    } else if parse_unsigned(t, u64::MAX as int) is Some {
        Some(sat_mul_u64(parse_unsigned(t, u64::MAX as int)->0, 1000) as u64)
    } else if http_date_overflows(t) {
        None
    } else {
        date_retry_ms(t, now)
    }
}

/// Parse `Retry-After` into milliseconds against a given clock reading.
pub fn parse_retry_after_at(value: &str, now: Option<i64>) -> (r: Option<u64>)
    ensures
        r == retry_after_at(value@, now),
{
    let t = trim_str(value);
    if is_blank_str(t.as_str()) {
        proof {
            crate::text::lemma_trim_idempotent_len(value@);
        }
        return None;
    }
    proof {
        crate::text::lemma_trim_idempotent_len(value@);
    }
    if let Some(secs) = parse_u64(t.as_str()) {
        return Some(times_1000_saturating(secs));
    }
    if http_date_would_overflow(t.as_str()) {
        return None;
    }
    http_date_retry_after_at(t.as_str(), now)
}

/// What `parse_retry_after` may give for `value`: nothing for blank text; delta-seconds
/// times 1000, saturated; for an HTTP date, nothing when it does not read as one, else the
/// milliseconds from some reading of the clock to it.
pub open spec fn retry_after_ok(value: Seq<char>, r: Option<u64>) -> bool {
    let t = trim(value);
    &&& t.len() == 0 ==> r is None
    &&& t.len() > 0 ==> (parse_unsigned(t, u64::MAX as int) matches Some(secs) ==> r == Some(
        sat_mul_u64(secs, 1000) as u64,
    ))
    &&& t.len() > 0 && parse_unsigned(t, u64::MAX as int) is None && !http_date_overflows(t) ==> {
        &&& http_date_secs(t) is None ==> r is None
        &&& r matches Some(ms) ==> exists|now: i64|
            ms == retry_ms_until(http_date_secs(t)->0, now as int)
    }
}

/// Parse `Retry-After` into milliseconds: delta-seconds (times 1000, saturating), or an
/// HTTP date converted against the clock. Blank input gives `None`.
pub fn parse_retry_after(value: &str) -> (r: Option<u64>)
    ensures
        retry_after_ok(value@, r),
        exists|now: Option<i64>| r == retry_after_at(value@, now),
{
    let t = trim_str(value);
    if is_blank_str(t.as_str()) {
        proof {
            crate::text::lemma_trim_idempotent_len(value@);
        }
        assert(retry_after_at(value@, None) is None);
        return None;
    }
    proof {
        crate::text::lemma_trim_idempotent_len(value@);
    }
    if let Some(secs) = parse_u64(t.as_str()) {
        let r = times_1000_saturating(secs);
        assert(Some(r) == retry_after_at(value@, None));
        return Some(r);
    }
    if http_date_would_overflow(t.as_str()) {
        assert(retry_after_at(value@, None) is None);
        return None;
    }
    let r = parse_http_date_retry_after_ms(t.as_str());
    proof {
        let now = choose|now: Option<i64>| r == date_retry_ms(t@, now);
        assert(r == retry_after_at(value@, now));
    }
    r
}

/// Whether reading `value` as an HTTP date would overflow the year arithmetic.
fn http_date_would_overflow(value: &str) -> (r: bool)
    ensures
        r == http_date_overflows(value@),
{
    let v = chars_of(value);
    let parts = split_words(v.as_slice());
    if parts.len() != 6 {
        return false;
    }
    let ghost pv = vecs_view(parts@);
    assert(pv[1] == parts[1]@ && pv[2] == parts[2]@ && pv[3] == parts[3]@ && pv[4] == parts[4]@
        && pv[5] == parts[5]@);
    let day = parse_u32(str_of_chars(&parts[1]).as_str());
    let month = month_of(parts[2].as_slice());
    let year = parse_i32(str_of_chars(&parts[3]).as_str());
    match (day, month, year) {
        (Some(day), Some(month), Some(year)) => {
            let time_parts = split_at_char(parts[4].as_slice(), ':');
            let zone = lower_str(str_of_chars(&parts[5]).as_str());
            if time_parts.len() != 3 || !chars_eq(
                chars_of(zone.as_str()).as_slice(),
                chars_of("gmt").as_slice(),
            ) {
                return false;
            }
            let ghost tv = vecs_view(time_parts@);
            assert(tv[0] == time_parts[0]@ && tv[1] == time_parts[1]@ && tv[2]
                == time_parts[2]@);
            if parse_u32(str_of_chars(&time_parts[0]).as_str()).is_none() || parse_u32(
                str_of_chars(&time_parts[1]).as_str(),
            ).is_none() || parse_u32(str_of_chars(&time_parts[2]).as_str()).is_none() {
                return false;
            }
            if day == 0 || day > 31 {
                return false;
            }
            let y: i64 = if month <= 2 {
                (year as i64) - 1
            } else {
                year as i64
            };
            let in_range = (month > 2 || year > i32::MIN) && (y >= 0 || y - 399 >= (i32::MIN as i64));
            !in_range
        },
        _ => false,
    }
}


// ---------------------------------------------------------------------------
// Secret redaction
// ---------------------------------------------------------------------------

/// Characters that end a bearer token.
pub open spec fn ends_token(c: char) -> bool {
    is_ws(c) || c == '"' || c == ','
}

/// The first index at or after `from` whose character ends a token, or `s.len()`.
pub open spec fn token_end(s: Seq<char>, from: int) -> int
    decreases s.len() - from,
{
    if from >= s.len() {
        s.len() as int
    } else if ends_token(s[from]) {
        from
    } else {
        token_end(s, from + 1)
    }
}

/// The text after hiding the token that follows the first `bearer ` (any case): the
/// characters from there up to the next whitespace, `"` or `,` are replaced by
/// `[REDACTED]`; with no such token the text is unchanged.
pub open spec fn redact_bearer(s: Seq<char>) -> Seq<char> {
    match first_occurrence(ascii_lower(s), "bearer "@) {
        Some(idx) => {
            let e = token_end(s, idx + 7);
            if e > idx + 7 {
                s.take(idx + 7) + "[REDACTED]"@ + s.skip(e)
            } else {
                s
            }
        },
        None => s,
    }
}

/// Characters that continue an `sk-` key or an `api_key=` value: ASCII letters and
/// digits, `-` and `_`.
pub open spec fn key_char(c: char) -> bool {
    ('0' <= c <= '9') || ('a' <= c <= 'z') || ('A' <= c <= 'Z') || c == '-' || c == '_'
}

/// The first index at or after `from` that is not a key character, or `s.len()`.
pub open spec fn key_end(s: Seq<char>, from: int) -> int
    decreases s.len() - from,
{
    if from >= s.len() {
        s.len() as int
    } else if key_char(s[from]) {
        key_end(s, from + 1)
    } else {
        from
    }
}

/// `sk-` starts at `i`.
pub open spec fn sk_at(s: Seq<char>, i: int) -> bool {
    0 <= i && i + 3 <= s.len() && s[i] == 's' && s[i + 1] == 'k' && s[i + 2] == '-'
}

/// `api_key=` (any ASCII case) starts at `i`.
pub open spec fn api_key_at(s: Seq<char>, i: int) -> bool {
    0 <= i && i + 8 <= s.len() && lower_char(s[i]) == 'a' && lower_char(s[i + 1]) == 'p'
        && lower_char(s[i + 2]) == 'i' && s[i + 3] == '_' && lower_char(s[i + 4]) == 'k'
        && lower_char(s[i + 5]) == 'e' && lower_char(s[i + 6]) == 'y' && s[i + 7] == '='
}

/// The text produced from `s[i..]`: each `sk-` key and each `api_key=` value replaced by
/// a marker, every other character copied.
pub open spec fn redact_keys(s: Seq<char>, i: int) -> Seq<char>
    decreases s.len() - i,
{
    if i < 0 || i >= s.len() {
        seq![]
    } else if sk_at(s, i) {
        proof {
            lemma_key_end_ge(s, i + 3);
        }
        "sk-[REDACTED]"@ + redact_keys(s, key_end(s, i + 3))
    } else if api_key_at(s, i) {
        proof {
            lemma_key_end_ge(s, i + 8);
        }
        "api_key=[REDACTED]"@ + redact_keys(s, key_end(s, i + 8))
    } else {
        seq![s[i]] + redact_keys(s, i + 1)
    }
}

/// The redacted text: the bearer token hidden, then the keys.
pub open spec fn redacted(s: Seq<char>) -> Seq<char> {
    redact_keys(redact_bearer(s), 0)
}

/// `key_end` never moves backwards.
pub proof fn lemma_key_end_ge(s: Seq<char>, from: int)
    requires
        from <= s.len(),
    ensures
        from <= key_end(s, from) <= s.len(),
    decreases s.len() - from,
{
    if from < s.len() && key_char(s[from]) {
        lemma_key_end_ge(s, from + 1);
    }
}

proof fn lemma_key_end(s: Seq<char>, from: int, j: int)
    requires
        0 <= from <= j <= s.len(),
        forall|t: int| from <= t < j ==> key_char(#[trigger] s[t]),
        j == s.len() || !key_char(s[j]),
    ensures
        key_end(s, from) == j,
    decreases j - from,
{
    if from < j {
        lemma_key_end(s, from + 1, j);
    }
}

proof fn lemma_token_end(s: Seq<char>, from: int, j: int)
    requires
        0 <= from <= j <= s.len(),
        forall|t: int| from <= t < j ==> !ends_token(#[trigger] s[t]),
        j == s.len() || ends_token(s[j]),
    ensures
        token_end(s, from) == j,
    decreases j - from,
{
    if from < j {
        lemma_token_end(s, from + 1, j);
    }
}

/// `v[from..to]` appended to `out`.
fn copy_range(v: &Vec<char>, from: usize, to: usize, out: &mut Vec<char>)
    requires
        from <= to <= v@.len(),
    ensures
        final(out)@ == old(out)@ + v@.subrange(from as int, to as int),
{
    let mut k = from;
    while k < to
        invariant
            from <= k <= to <= v@.len(),
            out@ == old(out)@ + v@.subrange(from as int, k as int),
        decreases to - k,
    {
        out.push(v[k]);
        assert(v@.subrange(from as int, k + 1) == v@.subrange(from as int, k as int).push(v@[k as int]));
        k = k + 1;
    }
}

/// The end of the token that starts at `start`.
fn find_token_end(v: &Vec<char>, start: usize) -> (end: usize)
    requires
        start <= v@.len(),
    ensures
        end == token_end(v@, start as int),
        start <= end <= v@.len(),
{
    let mut end = start;
    while end < v.len() && !(is_whitespace(v[end]) || v[end] == '"' || v[end] == ',')
        invariant
            start <= end <= v@.len(),
            forall|t: int| start <= t < end ==> !ends_token(#[trigger] v@[t]),
        decreases v.len() - end,
    {
        end = end + 1;
    }
    proof {
        lemma_token_end(v@, start as int, end as int);
    }
    end
}

fn bearer_phase(v: &Vec<char>) -> (r: Vec<char>)
    ensures
        r@ == redact_bearer(v@),
{
    let ls = lower_str(string_of(v.as_slice()).as_str());
    let lower = chars_of(ls.as_str());
    let pat = chars_of("bearer ");
    match find_chars(lower.as_slice(), pat.as_slice()) {
        Some(idx) => {
            proof {
                reveal_strlit("bearer ");
                assert(pat@.len() == 7);
                assert(lower@.len() == v@.len());
                assert(idx + 7 <= v@.len());
            }
            let vlen = v.len();
            let start = idx + 7;
            let end = find_token_end(v, start);
            if end == start {
                return v.clone();
            }
            let mut out: Vec<char> = Vec::new();
            copy_range(v, 0, start, &mut out);
            let marker = chars_of("[REDACTED]");
            let mut j: usize = 0;
            while j < marker.len()
                invariant
                    0 <= j <= marker@.len(),
                    start <= end <= v@.len(),
                    out@ == v@.subrange(0, start as int) + marker@.take(j as int),
                decreases marker.len() - j,
            {
                out.push(marker[j]);
                assert(marker@.take(j + 1) == marker@.take(j as int).push(marker@[j as int]));
                j = j + 1;
            }
            assert(marker@.take(marker@.len() as int) == marker@);
            copy_range(v, end, vlen, &mut out);
            assert(v@.subrange(0, start as int) == v@.take(start as int));
            assert(v@.subrange(end as int, v@.len() as int) == v@.skip(end as int));
            out
        },
        None => v.clone(),
    }
}

/// Redact obvious secrets from provider error text: the token after the first `Bearer `
/// (any case), `sk-` keys and `api_key=` values; all other text is copied as it is.
pub fn redact_secrets(input: &str) -> (r: String)
    ensures
        r@ == redacted(input@),
{
    let v = chars_of(input);
    let s = bearer_phase(&v);
    let n = s.len();
    let ghost b = s@;
    let mut out = String::new();
    let mut i: usize = 0;
    while i < n
        invariant
            0 <= i <= n == b.len(),
            b == s@,
            out@ + redact_keys(b, i as int) == redact_keys(b, 0),
        decreases n - i,
    {
        if n - i >= 3 && s[i] == 's' && s[i + 1] == 'k' && s[i + 2] == '-' {
            push_str(&mut out, "sk-[REDACTED]");
            let ghost at = i;
            i = skip_key_chars(&s, i + 3);
            proof {
                lemma_key_end(b, at + 3, i as int);
            }
            continue ;
        }
        if n - i >= 8 && is_api_key_at(&s, i) {
            push_str(&mut out, "api_key=[REDACTED]");
            let ghost at = i;
            i = skip_key_chars(&s, i + 8);
            proof {
                lemma_key_end(b, at + 8, i as int);
            }
            continue ;
        }
        push_char(&mut out, s[i]);
        i = i + 1;
    }
    out
}

/// The first index at or after `from` that is not a key character.
fn skip_key_chars(s: &Vec<char>, from: usize) -> (i: usize)
    requires
        from <= s@.len(),
    ensures
        from <= i <= s@.len(),
        forall|t: int| from <= t < i ==> key_char(#[trigger] s@[t]),
        i == s@.len() || !key_char(s@[i as int]),
{
    let mut i = from;
    while i < s.len() && is_key_char(s[i])
        invariant
            from <= i <= s@.len(),
            forall|t: int| from <= t < i ==> key_char(#[trigger] s@[t]),
        decreases s.len() - i,
    {
        i = i + 1;
    }
    i
}

fn is_key_char(c: char) -> (r: bool)
    ensures
        r == key_char(c),
{
    ('0' <= c && c <= '9') || ('a' <= c && c <= 'z') || ('A' <= c && c <= 'Z') || c == '-' || c
        == '_'
}

fn is_api_key_at(s: &Vec<char>, i: usize) -> (r: bool)
    requires
        i + 8 <= s@.len(),
    ensures
        r == api_key_at(s@, i as int),
{
    let n = s.len();
    assert(i + 8 <= n);
    to_lower_char(s[i]) == 'a' && to_lower_char(s[i + 1]) == 'p' && to_lower_char(s[i + 2]) == 'i'
        && s[i + 3] == '_' && to_lower_char(s[i + 4]) == 'k' && to_lower_char(s[i + 5]) == 'e'
        && to_lower_char(s[i + 6]) == 'y' && s[i + 7] == '='
}

/// Text with no `sk-`, no `api_key=` and no `bearer ` (any ASCII case) comes back unchanged.
pub proof fn law_redact_keeps_clean_text(s: Seq<char>)
    requires
        forall|i: int| !sk_at(s, i) && !api_key_at(s, i),
        !contains_seq(ascii_lower(s), "bearer "@),
    ensures
        redacted(s) == s,
{
    reveal(first_occurrence);
    assert(redact_bearer(s) == s);
    lemma_clean_copied(s, 0);
    assert(s.skip(0) =~= s);
}

proof fn lemma_clean_copied(s: Seq<char>, i: int)
    requires
        0 <= i <= s.len(),
        forall|k: int| !sk_at(s, k) && !api_key_at(s, k),
    ensures
        redact_keys(s, i) == s.skip(i),
    decreases s.len() - i,
{
    if i < s.len() {
        assert(!sk_at(s, i) && !api_key_at(s, i));
        lemma_clean_copied(s, i + 1);
        assert(s.skip(i) =~= seq![s[i]] + s.skip(i + 1));
    } else {
        assert(s.skip(i) =~= Seq::<char>::empty());
    }
}

/// How the text made from `b[i..]` begins: with `b[i]` copied (no key starts there), or
/// with one of the two markers.
pub open spec fn redact_start(b: Seq<char>, i: int, t: Seq<char>) -> bool {
    t.len() > 0 ==> {
        ||| 0 <= i < b.len() && t[0] == b[i] && !sk_at(b, i) && !api_key_at(b, i)
        ||| t.len() >= 4 && t[0] == 's' && t[1] == 'k' && t[2] == '-' && t[3] == '['
        ||| t.len() >= 2 && t[0] == 'a' && t[1] == 'p'
    }
}

/// Every `sk-` in `t` is followed by `[`.
pub open spec fn keys_hidden(t: Seq<char>) -> bool {
    forall|j: int| #[trigger] sk_at(t, j) ==> j + 3 < t.len() && t[j + 3] == '['
}

proof fn lemma_redact_keys_hidden(b: Seq<char>, i: int)
    requires
        0 <= i,
    ensures
        redact_start(b, i, redact_keys(b, i)),
        keys_hidden(redact_keys(b, i)),
    decreases b.len() - i,
{
    let t = redact_keys(b, i);
    if i >= b.len() {
        return;
    }
    reveal_strlit("sk-[REDACTED]");
    reveal_strlit("api_key=[REDACTED]");
    if sk_at(b, i) {
        lemma_key_end_ge(b, i + 3);
        let r = redact_keys(b, key_end(b, i + 3));
        lemma_redact_keys_hidden(b, key_end(b, i + 3));
        let m = "sk-[REDACTED]"@;
        assert(t == m + r);
        assert forall|j: int| #[trigger] sk_at(t, j) implies j + 3 < t.len() && t[j + 3] == '[' by {
            if j >= 13 {
                assert(sk_at(r, j - 13));
            } else {
                assert(t[j] == m[j]);
            }
        }
    } else if api_key_at(b, i) {
        lemma_key_end_ge(b, i + 8);
        let r = redact_keys(b, key_end(b, i + 8));
        lemma_redact_keys_hidden(b, key_end(b, i + 8));
        let m = "api_key=[REDACTED]"@;
        assert(t == m + r);
        assert forall|j: int| #[trigger] sk_at(t, j) implies j + 3 < t.len() && t[j + 3] == '[' by {
            if j >= 18 {
                assert(sk_at(r, j - 18));
            } else {
                assert(t[j] == m[j]);
            }
        }
    } else {
        let r = redact_keys(b, i + 1);
        lemma_redact_keys_hidden(b, i + 1);
        assert(t == seq![b[i]] + r);
        assert forall|j: int| #[trigger] sk_at(t, j) implies j + 3 < t.len() && t[j + 3] == '[' by {
            if j >= 1 {
                assert(sk_at(r, j - 1));
            } else {
                assert(r[0] == 'k');
                assert(b[i + 1] == 'k');
                assert(!sk_at(b, i + 1) && !api_key_at(b, i + 1));
                let r2 = redact_keys(b, i + 2);
                lemma_redact_keys_hidden(b, i + 2);
                assert(r == seq![b[i + 1]] + r2);
                assert(r2[0] == '-');
                assert(b[i + 2] == '-');
                assert(sk_at(b, i));
            }
        }
    }
}

/// No key survives: in the redacted text every `sk-` is the start of the `sk-[REDACTED]`
/// marker, so no key character follows it.
pub proof fn law_redact_hides_keys(s: Seq<char>)
    ensures
        keys_hidden(redacted(s)),
        forall|j: int| #[trigger] sk_at(redacted(s), j) ==> !key_char(redacted(s)[j + 3]),
{
    lemma_redact_keys_hidden(redact_bearer(s), 0);
}

/// Every `api_key=` (any ASCII case) in `t` is followed by `[REDACTED]`.
pub open spec fn api_keys_marked(t: Seq<char>) -> bool {
    forall|j: int| #[trigger] api_key_at(t, j) ==> j + 18 <= t.len() && t.subrange(j + 8, j + 18)
        == "[REDACTED]"@
}

/// A start of the text made from `b[i..]` in which no character could begin a marker
/// (no `s`, nothing that lower-cases to `a`) is copied from `b` as it is.
proof fn lemma_copied_prefix(b: Seq<char>, i: int, m: int)
    requires
        0 <= i,
        0 <= m <= redact_keys(b, i).len(),
        forall|k: int| 0 <= k < m ==> redact_keys(b, i)[k] != 's' && lower_char(
            #[trigger] redact_keys(b, i)[k],
        ) != 'a',
    ensures
        m > 0 ==> i + m <= b.len(),
        m > 0 ==> b.subrange(i, i + m) == redact_keys(b, i).take(m),
    decreases m,
{
    if m > 0 {
        let t = redact_keys(b, i);
        reveal_strlit("sk-[REDACTED]");
        reveal_strlit("api_key=[REDACTED]");
        assert(t[0] != 's' && lower_char(t[0]) != 'a');
        assert(i < b.len());
        assert(!sk_at(b, i) && !api_key_at(b, i));
        let r = redact_keys(b, i + 1);
        assert(t == seq![b[i]] + r);
        assert forall|k: int| 0 <= k < m - 1 implies r[k] != 's' && lower_char(#[trigger] r[k]) != 'a' by {
            assert(r[k] == t[k + 1]);
        }
        lemma_copied_prefix(b, i + 1, m - 1);
        if m > 1 {
            assert forall|k: int| 0 <= k < m implies #[trigger] b.subrange(i, i + m)[k] == t.take(m)[k] by {
                if k > 0 {
                    assert(b.subrange(i, i + m)[k] == b.subrange(i + 1, i + m)[k - 1]);
                    assert(r.take(m - 1)[k - 1] == t[k]);
                }
            }
        }
        assert(b.subrange(i, i + m) =~= t.take(m));
    }
}

proof fn lemma_api_keys_marked(b: Seq<char>, i: int)
    requires
        0 <= i,
    ensures
        api_keys_marked(redact_keys(b, i)),
    decreases b.len() - i,
{
    let t = redact_keys(b, i);
    if i >= b.len() {
        return;
    }
    reveal_strlit("sk-[REDACTED]");
    reveal_strlit("api_key=[REDACTED]");
    reveal_strlit("[REDACTED]");
    if sk_at(b, i) {
        lemma_key_end_ge(b, i + 3);
        let r = redact_keys(b, key_end(b, i + 3));
        lemma_api_keys_marked(b, key_end(b, i + 3));
        let m = "sk-[REDACTED]"@;
        assert(t == m + r);
        assert forall|j: int| #[trigger] api_key_at(t, j) implies j + 18 <= t.len() && t.subrange(
            j + 8,
            j + 18,
        ) == "[REDACTED]"@ by {
            if j >= 13 {
                assert(api_key_at(r, j - 13));
                assert(t.subrange(j + 8, j + 18) =~= r.subrange(j - 13 + 8, j - 13 + 18));
            } else {
                assert(t[j] == m[j]);
                if j + 1 < 13 {
                    assert(t[j + 1] == m[j + 1]);
                }
            }
        }
    } else if api_key_at(b, i) {
        lemma_key_end_ge(b, i + 8);
        let r = redact_keys(b, key_end(b, i + 8));
        lemma_api_keys_marked(b, key_end(b, i + 8));
        let m = "api_key=[REDACTED]"@;
        assert(t == m + r);
        assert forall|j: int| #[trigger] api_key_at(t, j) implies j + 18 <= t.len() && t.subrange(
            j + 8,
            j + 18,
        ) == "[REDACTED]"@ by {
            if j >= 18 {
                assert(api_key_at(r, j - 18));
                assert(t.subrange(j + 8, j + 18) =~= r.subrange(j - 18 + 8, j - 18 + 18));
            } else if j == 0 {
                assert(t.subrange(8, 18) =~= m.subrange(8, 18));
            } else {
                assert(t[j] == m[j]);
                if j + 1 < 18 {
                    assert(t[j + 1] == m[j + 1]);
                }
            }
        }
    } else {
        let r = redact_keys(b, i + 1);
        lemma_api_keys_marked(b, i + 1);
        assert(t == seq![b[i]] + r);
        assert forall|j: int| #[trigger] api_key_at(t, j) implies j + 18 <= t.len() && t.subrange(
            j + 8,
            j + 18,
        ) == "[REDACTED]"@ by {
            if j >= 1 {
                assert(api_key_at(r, j - 1));
                assert(t.subrange(j + 8, j + 18) =~= r.subrange(j - 1 + 8, j - 1 + 18));
            } else {
                assert forall|k: int| 0 <= k < 7 implies r[k] != 's' && lower_char(#[trigger] r[k]) != 'a' by {
                    assert(r[k] == t[k + 1]);
                }
                lemma_copied_prefix(b, i + 1, 7);
                let w = b.subrange(i + 1, i + 8);
                assert(w == r.take(7));
                assert(b[i + 1] == w[0] && b[i + 2] == w[1] && b[i + 3] == w[2] && b[i + 4] == w[3]
                    && b[i + 5] == w[4] && b[i + 6] == w[5] && b[i + 7] == w[6]);
                assert(w[0] == t[1] && w[1] == t[2] && w[2] == t[3] && w[3] == t[4] && w[4] == t[5]
                    && w[5] == t[6] && w[6] == t[7]);
                assert(api_key_at(b, i));
            }
        }
    }
}

/// Every `api_key=` value is hidden: in the redacted text each `api_key=` (any ASCII case)
/// is followed by `[REDACTED]`.
pub proof fn law_redact_marks_api_keys(s: Seq<char>)
    ensures
        api_keys_marked(redacted(s)),
{
    lemma_api_keys_marked(redact_bearer(s), 0);
}

/// The token after the first `bearer ` is hidden: the text after the bearer pass keeps
/// everything up to and including `bearer `, then `[REDACTED]`, then the rest from the
/// token's end.
pub proof fn law_bearer_token_hidden(s: Seq<char>, idx: int)
    requires
        first_occurrence(ascii_lower(s), "bearer "@) == Some(idx),
        token_end(s, idx + 7) > idx + 7,
    ensures
        redact_bearer(s) == s.take(idx + 7) + "[REDACTED]"@ + s.skip(token_end(s, idx + 7)),
{
}

/// How an HTTP status is classed: every server error (500 to 599) is the provider being
/// unavailable; 408 is a timeout and 429 a rate limit; 401, 403 and 400/404/422 are
/// authentication, permission and request errors; everything else is a transport error.
/// Exactly the timeouts, rate limits and server errors are worth retrying.
pub proof fn law_status_classes(status: u16)
    ensures
        500 <= status <= 599 ==> status_kind(status) == ProtocolErrorKind::ProviderUnavailable,
        status == 408 ==> status_kind(status) == ProtocolErrorKind::Timeout,
        status == 429 ==> status_kind(status) == ProtocolErrorKind::RateLimited,
        status == 401 ==> status_kind(status) == ProtocolErrorKind::Authentication,
        status == 403 ==> status_kind(status) == ProtocolErrorKind::PermissionDenied,
        status == 400 || status == 404 || status == 422 ==> status_kind(status) == ProtocolErrorKind::InvalidRequest,
        !(400 <= status <= 599) ==> status_kind(status) == ProtocolErrorKind::Transport,
        400 <= status <= 499 && status != 400 && status != 401 && status != 403 && status != 404
            && status != 408 && status != 422 && status != 429 ==> status_kind(status)
            == ProtocolErrorKind::Transport,
        kind_retryable(status_kind(status)) <==> (status == 408 || status == 429 || 500 <= status <= 599),
{
}

/// `Retry-After` in seconds does not depend on the clock: a value whose trimmed text is
/// decimal digits worth `n` (at most `u64::MAX`) gives `n * 1000` milliseconds, saturated
/// at `u64::MAX`, whatever the clock reads; blank text gives nothing.
pub proof fn law_retry_after_seconds(value: Seq<char>, now: Option<i64>)
    ensures
        trim(value).len() > 0 && crate::text::all_digits(trim(value)) && crate::text::digits_value(trim(value))
            <= u64::MAX ==> retry_after_at(value, now) == Some(
            (if crate::text::digits_value(trim(value)) * 1000 > u64::MAX {
                u64::MAX as int
            } else {
                crate::text::digits_value(trim(value)) * 1000
            }) as u64,
        ),
        trim(value).len() == 0 ==> retry_after_at(value, now) is None,
{
    let t = trim(value);
    if t.len() > 0 && crate::text::all_digits(t) {
        assert(crate::text::is_digit(t[0]));
        assert(t[0] != '+');
        assert(crate::text::without_plus(t) == t);
    }
}

/// An HTTP-date `Retry-After` is the time left until the date, in milliseconds: nothing
/// for a date already past (0), the difference times 1000 while that fits, and later
/// dates never give shorter waits.
pub proof fn law_retry_after_date(v: Seq<char>, now: i64, target: int)
    requires
        http_date_secs(v) == Some(target),
    ensures
        target <= now ==> date_retry_ms(v, Some(now)) == Some(0u64),
        now <= target && (target - now) * 1000 <= u64::MAX ==> date_retry_ms(v, Some(now)) == Some(
            ((target - now) * 1000) as u64,
        ),
        date_retry_ms(v, None) is None,
{
}

/// Waiting is monotone: a later target never gives a shorter wait, and a later clock
/// reading never gives a longer one.
pub proof fn law_retry_ms_monotone(t1: int, t2: int, now1: int, now2: int)
    requires
        t1 <= t2,
        now2 <= now1,
    ensures
        retry_ms_until(t1, now1) <= retry_ms_until(t2, now2),
{
    let d1 = t1 - now1;
    let d2 = t2 - now2;
    assert(d1 <= d2);
    let c1 = if d1 > i64::MAX { i64::MAX as int } else if d1 < i64::MIN { i64::MIN as int } else { d1 };
    let c2 = if d2 > i64::MAX { i64::MAX as int } else if d2 < i64::MIN { i64::MIN as int } else { d2 };
    assert(c1 <= c2);
    let p1 = if c1 < 0 { 0 } else { c1 };
    let p2 = if c2 < 0 { 0 } else { c2 };
    assert(p1 <= p2);
    assert(p1 * 1000 <= p2 * 1000) by (nonlinear_arith)
        requires
            p1 <= p2,
    ;
}

/// Body heuristics never take an authentication failure away: a 401, or an error already
/// classed as authentication, stays authentication whatever the body says.
pub proof fn law_authentication_never_downgraded(
    kind: ProtocolErrorKind,
    status: u16,
    message: Seq<char>,
    code: Option<Seq<char>>,
    body: Seq<char>,
)
    requires
        status == 401 || kind == ProtocolErrorKind::Authentication,
    ensures
        upgraded_kind(kind, status, message, code, body) == ProtocolErrorKind::Authentication,
{
}

} // verus!
