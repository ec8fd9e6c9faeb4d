//! Request headers: the forced headers of each protocol and the user's extra headers,
//! held in the `reqwest` (`http`) header map.

use vstd::prelude::*;

use reqwest::header::{HeaderMap, HeaderName, HeaderValue};

use crate::endpoint::ProviderEndpoint;
use crate::error::{ProtocolError, ProtocolErrorKind};
use crate::text::{ascii_lower, chars_of, owned, push_str, trim, trim_str};
use crate::types::ProtocolKind;
use crate::wire::{wire_err_is, wire_error, WireErr};

verus! {

#[verifier::external_type_specification]
#[verifier::external_body]
#[verifier::reject_recursive_types(T)]
pub struct ExHeaderMap<T>(HeaderMap<T>);

#[verifier::external_type_specification]
#[verifier::external_body]
pub struct ExHeaderValue(HeaderValue);

/// What a header map holds: each (lower-case) header name with its value.
pub uninterp spec fn header_entries(m: HeaderMap) -> Map<Seq<char>, Seq<char>>;

/// The most headers a map built here holds. `HeaderMap::insert` may grow its index table
/// before it adds an entry, and it panics once that table would pass `MAX_SIZE` (`1 << 15`)
/// slots; with five slots per entry kept free when hashing degrades, a map of fewer entries
/// than this never reaches that point.
pub const HEADER_LIMIT: usize = 6553;

/// A header map with room for one more entry.
pub open spec fn has_room(m: Map<Seq<char>, Seq<char>>) -> bool {
    m.dom().finite() && m.len() < HEADER_LIMIT
}

/// The contents of an empty header map.
pub open spec fn no_entries() -> Map<Seq<char>, Seq<char>> {
    Map::empty()
}

/// A character allowed in a header name (an HTTP token character).
pub open spec fn token_char(c: char) -> bool {
    ||| 'a' <= c <= 'z'
    ||| 'A' <= c <= 'Z'
    ||| '0' <= c <= '9'
    ||| c == '!' || c == '#' || c == '$' || c == '%' || c == '&' || c == '\''
    ||| c == '*' || c == '+' || c == '-' || c == '.' || c == '^' || c == '_'
    ||| c == '`' || c == '|' || c == '~'
}

/// `HeaderName::from_bytes`: a name of 1 to 65535 token characters, lower-cased; any
/// other text is refused.
pub open spec fn header_name_of(s: Seq<char>) -> Option<Seq<char>> {
    if 0 < s.len() <= 65535 && (forall|i: int| 0 <= i < s.len() ==> token_char(#[trigger] s[i])) {
        Some(ascii_lower(s))
    } else {
        None
    }
}

/// A character allowed in a header value: tab, or any character from space up, except DEL.
pub open spec fn value_char(c: char) -> bool {
    (c as u32 >= 32 && c as u32 != 127) || c == '\t'
}

/// `HeaderValue::from_str` accepts `s`.
pub open spec fn header_value_ok(s: Seq<char>) -> bool {
    forall|i: int| 0 <= i < s.len() ==> value_char(#[trigger] s[i])
}

/// A new, empty header map (`HeaderMap::new`).
#[verifier::external_body]
fn header_map_new() -> (map: HeaderMap)
    ensures
        header_entries(map) == no_entries(),
{
    HeaderMap::new()
}

/// `HeaderMap::contains_key` for a name already in its normal (lower-case) form.
#[verifier::external_body]
fn header_map_contains(map: &HeaderMap, name: &str) -> (b: bool)
    requires
        header_name_of(name@) == Some(name@),
    ensures
        b == header_entries(*map).contains_key(name@),
{
    map.contains_key(name)
}

/// `HeaderMap::insert` of a valid name and value: the name's value replaced. The map must
/// have room (see `HEADER_LIMIT`), else the call could panic.
#[verifier::external_body]
fn header_map_insert(map: &mut HeaderMap, name: &str, value: &str)
    requires
        header_name_of(name@) == Some(name@),
        header_value_ok(value@),
        has_room(header_entries(*old(map))),
    ensures
        header_entries(*final(map)) == header_entries(*old(map)).insert(name@, value@),
{
    if let (Ok(n), Ok(v)) = (HeaderName::from_bytes(name.as_bytes()), HeaderValue::from_str(value)) {
        map.insert(n, v);
    }
}

/// `HeaderMap::keys_len`: the number of distinct names in the map.
#[verifier::external_body]
fn header_map_len(map: &HeaderMap) -> (n: usize)
    requires
        header_entries(*map).dom().finite(),
    ensures
        n == header_entries(*map).len(),
{
    map.keys_len()
}

/// `HeaderName::from_bytes`, as the name's normal text.
#[verifier::external_body]
fn parse_header_name(name: &str) -> (r: Option<String>)
    ensures
        match header_name_of(name@) {
            Some(n) => r matches Some(s) && s@ == n,
            None => r is None,
        },
{
    HeaderName::from_bytes(name.as_bytes()).ok().map(|n| n.as_str().to_string())
}

/// Whether `HeaderValue::from_str` accepts `value`.
#[verifier::external_body]
fn header_value_valid(value: &str) -> (b: bool)
    ensures
        b == header_value_ok(value@),
{
    HeaderValue::from_str(value).is_ok()
}

/// Whether a text holds a carriage return or a line feed.
pub open spec fn has_crlf(s: Seq<char>) -> bool {
    exists|i: int| 0 <= i < s.len() && (s[i] == '\r' || s[i] == '\n')
}

fn contains_crlf(s: &str) -> (b: bool)
    ensures
        b == has_crlf(s@),
{
    let v = chars_of(s);
    let mut i: usize = 0;
    while i < v.len()
        invariant
            0 <= i <= v@.len(),
            v@ == s@,
            forall|j: int| 0 <= j < i ==> !(v@[j] == '\r' || v@[j] == '\n'),
        decreases v.len() - i,
    {
        if v[i] == '\r' || v[i] == '\n' {
            return true;
        }
        i = i + 1;
    }
    false
}

/// One extra header merged into `m`: the new contents, or the configuration error.
/// Headers already present win; the extra one is then skipped.
pub open spec fn merge_one(m: Map<Seq<char>, Seq<char>>, name: Seq<char>, value: Seq<char>) -> Result<
    Map<Seq<char>, Seq<char>>,
    Seq<char>,
> {
    let n = trim(name);
    if n.len() == 0 {
        Err("extra_headers 名称不能为空"@)
    } else if has_crlf(n) {
        Err("extra_headers 名称不能包含 CR/LF"@)
    } else if has_crlf(value) {
        Err("extra_headers 值不能包含 CR/LF"@)
    } else {
        match header_name_of(n) {
            None => Err("extra_headers 名称无效"@),
            Some(k) => if m.contains_key(k) {
                Ok(m)
            } else if !header_value_ok(value) {
                Err("extra_headers 值无效"@)
            } else if !has_room(m) {
                Err("extra_headers 数量过多"@)
            } else {
                Ok(m.insert(k, value))
            },
        }
    }
}

/// The extra headers merged in order: the contents when merging stops, and the error
/// that stopped it, if any.
pub open spec fn merge_all(m: Map<Seq<char>, Seq<char>>, extras: Seq<(Seq<char>, Seq<char>)>) -> (
    Map<Seq<char>, Seq<char>>,
    Option<Seq<char>>,
)
    decreases extras.len(),
{
    if extras.len() == 0 {
        (m, None)
    } else {
        match merge_one(m, extras[0].0, extras[0].1) {
            Err(e) => (m, Some(e)),
            Ok(m2) => merge_all(m2, extras.drop_first()),
        }
    }
}

/// The characters of each name and value.
pub open spec fn pairs_view(v: Seq<(String, String)>) -> Seq<(Seq<char>, Seq<char>)> {
    v.map_values(|p: (String, String)| (p.0@, p.1@))
}

proof fn lemma_merge_all_concat(
    m: Map<Seq<char>, Seq<char>>,
    a: Seq<(Seq<char>, Seq<char>)>,
    b: Seq<(Seq<char>, Seq<char>)>,
)
    ensures
        merge_all(m, a + b) == (if merge_all(m, a).1 is None {
            merge_all(merge_all(m, a).0, b)
        } else {
            merge_all(m, a)
        }),
    decreases a.len(),
{
    if a.len() == 0 {
        assert(a + b =~= b);
    } else {
        assert((a + b)[0] == a[0]);
        assert((a + b).drop_first() =~= a.drop_first() + b);
        match merge_one(m, a[0].0, a[0].1) {
            Err(_) => {},
            Ok(m2) => {
                lemma_merge_all_concat(m2, a.drop_first(), b);
            },
        }
    }
}

/// Merge the extra headers of `auth` into `headers`: each name trimmed and checked, headers
/// already present win, an invalid name or value stops with `InvalidConfiguration` (the
/// value never quoted in the message), and so does a header that would take the map past
/// `HEADER_LIMIT` entries.
pub fn merge_extra_headers(headers: &mut HeaderMap, auth: &crate::types::AuthOptions) -> (r: Result<
    (),
    ProtocolError,
>)
    requires
        header_entries(*old(headers)).dom().finite(),
    ensures
        ({
            let out = merge_all(header_entries(*old(headers)), pairs_view(auth.extra_headers@));
            &&& header_entries(*final(headers)) == out.0
            &&& match out.1 {
                None => r is Ok,
                Some(msg) => r matches Err(e) && wire_err_is(
                    e,
                    (ProtocolErrorKind::InvalidConfiguration, msg),
                ),
            }
        }),
{
    let ghost m0 = header_entries(*headers);
    let ghost ev = pairs_view(auth.extra_headers@);
    let mut i: usize = 0;
    while i < auth.extra_headers.len()
        invariant
            0 <= i <= auth.extra_headers@.len(),
            ev == pairs_view(auth.extra_headers@),
            m0 == header_entries(*old(headers)),
            merge_all(m0, ev.take(i as int)) == (header_entries(*headers), None::<Seq<char>>),
            header_entries(*headers).dom().finite(),
        decreases auth.extra_headers.len() - i,
    {
        proof {
            let x = ev[i as int];
            lemma_merge_all_concat(m0, ev.take(i as int), ev.skip(i as int));
            assert(ev.take(i as int) + ev.skip(i as int) =~= ev);
            assert(ev.skip(i as int)[0] == x);
            lemma_merge_all_concat(m0, ev.take(i as int), seq![x]);
            assert(ev.take(i as int) + seq![x] =~= ev.take(i + 1));
            assert(seq![x].drop_first() =~= Seq::<(Seq<char>, Seq<char>)>::empty());
            assert(x == (auth.extra_headers@[i as int].0@, auth.extra_headers@[i as int].1@));
        }
        let name = trim_str(auth.extra_headers[i].0.as_str());
        let value = auth.extra_headers[i].1.as_str();
        if name.as_str().is_empty() {
            return Err(wire_error(ProtocolErrorKind::InvalidConfiguration, "extra_headers 名称不能为空"));
        }
        if contains_crlf(name.as_str()) {
            return Err(
                wire_error(ProtocolErrorKind::InvalidConfiguration, "extra_headers 名称不能包含 CR/LF"),
            );
        }
        if contains_crlf(value) {
            return Err(
                wire_error(ProtocolErrorKind::InvalidConfiguration, "extra_headers 值不能包含 CR/LF"),
            );
        }
        let key = match parse_header_name(name.as_str()) {
            Some(k) => k,
            None => {
                return Err(wire_error(ProtocolErrorKind::InvalidConfiguration, "extra_headers 名称无效"));
            },
        };
        proof {
            lemma_name_normal(name@);
        }
        if !header_map_contains(headers, key.as_str()) {
            if !header_value_valid(value) {
                return Err(wire_error(ProtocolErrorKind::InvalidConfiguration, "extra_headers 值无效"));
            }
            if header_map_len(headers) >= HEADER_LIMIT {
                return Err(wire_error(ProtocolErrorKind::InvalidConfiguration, "extra_headers 数量过多"));
            }
            header_map_insert(headers, key.as_str(), value);
        }
        assert(merge_all(header_entries(*headers), Seq::<(Seq<char>, Seq<char>)>::empty()) == (
            header_entries(*headers),
            None::<Seq<char>>,
        ));
        i = i + 1;
    }
    proof {
        assert(ev.take(ev.len() as int) =~= ev);
    }
    Ok(())
}

/// A valid name's normal form is its own normal form.
proof fn lemma_name_normal(s: Seq<char>)
    requires
        header_name_of(s) is Some,
    ensures
        header_name_of(header_name_of(s).unwrap()) == header_name_of(s),
{
    let l = ascii_lower(s);
    assert forall|i: int| 0 <= i < l.len() implies token_char(#[trigger] l[i]) by {
        assert(token_char(s[i]));
    }
    assert(ascii_lower(l) =~= l);
}

/// The headers each protocol sets itself: JSON content, the event-stream `accept` for a
/// stream, Anthropic's API version, and the key (as a bearer token for OpenAI, `x-api-key`
/// for Anthropic, `x-goog-api-key` for Gemini) when it is not empty and a valid value.
pub open spec fn forced_headers(protocol: ProtocolKind, key: Seq<char>, accept: bool) -> Map<
    Seq<char>,
    Seq<char>,
> {
    let m0 = no_entries().insert("content-type"@, "application/json"@);
    let m1 = if protocol is AnthropicMessages {
        m0.insert("anthropic-version"@, "2023-06-01"@)
    } else {
        m0
    };
    let m2 = if accept {
        m1.insert("accept"@, "text/event-stream"@)
    } else {
        m1
    };
    let (name, value) = key_header(protocol, key);
    if key.len() > 0 && header_value_ok(value) {
        m2.insert(name, value)
    } else {
        m2
    }
}

/// The header that carries the key for a protocol, with its value.
pub open spec fn key_header(protocol: ProtocolKind, key: Seq<char>) -> (Seq<char>, Seq<char>) {
    match protocol {
        ProtocolKind::OpenAiChatCompletions => ("authorization"@, "Bearer "@ + key),
        ProtocolKind::OpenAiResponses => ("authorization"@, "Bearer "@ + key),
        ProtocolKind::AnthropicMessages => ("x-api-key"@, key),
        ProtocolKind::GeminiGenerateContent => ("x-goog-api-key"@, key),
    }
}

/// What `auth_headers` gives: the forced headers with the extra headers merged in, or the
/// configuration error.
pub open spec fn auth_headers_outcome(
    protocol: ProtocolKind,
    key: Seq<char>,
    accept: bool,
    extras: Seq<(Seq<char>, Seq<char>)>,
) -> Result<Map<Seq<char>, Seq<char>>, WireErr> {
    let out = merge_all(forced_headers(protocol, key, accept), extras);
    match out.1 {
        None => Ok(out.0),
        Some(msg) => Err((ProtocolErrorKind::InvalidConfiguration, msg)),
    }
}

/// Inserts a header whose name is known valid and normal.
fn insert_known(map: &mut HeaderMap, name: &str, value: &str)
    requires
        header_name_of(name@) == Some(name@),
        header_value_ok(value@),
        has_room(header_entries(*old(map))),
    ensures
        header_entries(*final(map)) == header_entries(*old(map)).insert(name@, value@),
{
    header_map_insert(map, name, value);
}

/// The request headers for `protocol`: its forced headers, then the endpoint's extra
/// headers merged in.
pub fn auth_headers(protocol: ProtocolKind, endpoint: &ProviderEndpoint, accept_event_stream: bool) -> (r:
    Result<HeaderMap, ProtocolError>)
    ensures
        match auth_headers_outcome(
            protocol,
            endpoint.api_key@,
            accept_event_stream,
            pairs_view(endpoint.auth.extra_headers@),
        ) {
            Ok(m) => r matches Ok(h) && header_entries(h) == m,
            Err(e) => r matches Err(x) && wire_err_is(x, e),
        },
{
    proof {
        reveal_strlit("content-type");
        reveal_strlit("application/json");
        reveal_strlit("anthropic-version");
        reveal_strlit("2023-06-01");
        reveal_strlit("accept");
        reveal_strlit("text/event-stream");
        reveal_strlit("authorization");
        reveal_strlit("x-api-key");
        reveal_strlit("x-goog-api-key");
        reveal_strlit("Bearer ");
        assert(ascii_lower("content-type"@) =~= "content-type"@);
        assert(ascii_lower("anthropic-version"@) =~= "anthropic-version"@);
        assert(ascii_lower("accept"@) =~= "accept"@);
        assert(ascii_lower("authorization"@) =~= "authorization"@);
        assert(ascii_lower("x-api-key"@) =~= "x-api-key"@);
        assert(ascii_lower("x-goog-api-key"@) =~= "x-goog-api-key"@);
    }
    let mut headers = header_map_new();
    insert_known(&mut headers, "content-type", "application/json");
    if protocol == ProtocolKind::AnthropicMessages {
        insert_known(&mut headers, "anthropic-version", "2023-06-01");
    }
    if accept_event_stream {
        insert_known(&mut headers, "accept", "text/event-stream");
    }
    if !endpoint.api_key.is_empty() {
        let key = endpoint.api_key.expose_secret();
        let (name, value) = match protocol {
            ProtocolKind::OpenAiChatCompletions | ProtocolKind::OpenAiResponses => {
                let mut v = owned("Bearer ");
                push_str(&mut v, key);
                ("authorization", v)
            },
            ProtocolKind::AnthropicMessages => ("x-api-key", owned(key)),
            ProtocolKind::GeminiGenerateContent => ("x-goog-api-key", owned(key)),
        };
        if header_value_valid(value.as_str()) {
            insert_known(&mut headers, name, value.as_str());
        }
    }
    match merge_extra_headers(&mut headers, &endpoint.auth) {
        Ok(()) => Ok(headers),
        Err(e) => Err(e),
    }
}

/// Headers already present win: merging extra headers never changes or removes a header
/// that was there before.
pub proof fn law_forced_headers_win(m: Map<Seq<char>, Seq<char>>, extras: Seq<(Seq<char>, Seq<char>)>)
    ensures
        forall|k: Seq<char>|
            #[trigger] m.contains_key(k) ==> merge_all(m, extras).0.contains_key(k) && merge_all(
                m,
                extras,
            ).0[k] == m[k],
    decreases extras.len(),
{
    if extras.len() > 0 {
        match merge_one(m, extras[0].0, extras[0].1) {
            Err(_) => {},
            Ok(m2) => {
                law_forced_headers_win(m2, extras.drop_first());
                assert forall|k: Seq<char>| #[trigger] m.contains_key(k) implies m2.contains_key(k)
                    && m2[k] == m[k] by {}
            },
        }
    }
}


/// The credential and content headers of each protocol: JSON content always; with a
/// non-empty key (that is a valid header value), OpenAI's two protocols send
/// `authorization: Bearer <key>`, Anthropic sends `x-api-key: <key>` and Gemini
/// `x-goog-api-key: <key>`; with an empty key none of the three credential headers is
/// set. Extra headers never replace these.
pub proof fn law_credential_headers(
    protocol: ProtocolKind,
    key: Seq<char>,
    accept: bool,
    extras: Seq<(Seq<char>, Seq<char>)>,
)
    ensures
        ({
            let m = forced_headers(protocol, key, accept);
            &&& m.contains_key("content-type"@) && m["content-type"@] == "application/json"@
            &&& key.len() > 0 && (protocol is OpenAiChatCompletions || protocol is OpenAiResponses)
                && header_value_ok("Bearer "@ + key) ==> m.contains_key("authorization"@)
                && m["authorization"@] == "Bearer "@ + key
            &&& key.len() > 0 && protocol is AnthropicMessages && header_value_ok(key) ==> m.contains_key(
                "x-api-key"@,
            ) && m["x-api-key"@] == key
            &&& key.len() > 0 && protocol is GeminiGenerateContent && header_value_ok(key)
                ==> m.contains_key("x-goog-api-key"@) && m["x-goog-api-key"@] == key
            &&& key.len() == 0 ==> !m.contains_key("authorization"@) && !m.contains_key("x-api-key"@)
                && !m.contains_key("x-goog-api-key"@)
            &&& forall|k: Seq<char>| #[trigger] m.contains_key(k) ==> merge_all(m, extras).0.contains_key(k)
                && merge_all(m, extras).0[k] == m[k]
        }),
{
    reveal_strlit("content-type");
    reveal_strlit("application/json");
    reveal_strlit("anthropic-version");
    reveal_strlit("accept");
    reveal_strlit("authorization");
    reveal_strlit("x-api-key");
    reveal_strlit("x-goog-api-key");
    assert("content-type"@.len() == 12 && "anthropic-version"@.len() == 17 && "accept"@.len() == 6
        && "authorization"@.len() == 13 && "x-api-key"@.len() == 9 && "x-goog-api-key"@.len() == 14);
    law_forced_headers_win(forced_headers(protocol, key, accept), extras);
}

} // verus!
