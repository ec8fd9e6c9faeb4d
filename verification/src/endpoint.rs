//! Provider endpoints: the base URL, the request URLs built from it, and the credentials.
//!
//! URLs are parsed and rewritten by the `url` crate. What it computes is named below by
//! the serialization of the URL it works on (a `Url` is determined by its serialization).

use vstd::prelude::*;

use url::Url;

use crate::error::{ProtocolError, ProtocolErrorKind};
use crate::secret::SecretString;
use crate::text::{
    chars_of, owned, push_str, starts_with_chars, str_eq, string_of_range, trim, trim_str,
};
use crate::types::{AuthOptions, ProtocolKind};
use crate::wire::{wire_err_is, wire_error, WireErr};

verus! {

#[verifier::external_type_specification]
#[verifier::external_body]
pub struct ExUrl(Url);

/// `Url::parse` on `raw`: the serialization of the parsed URL, or the text of the parse
/// error.
pub uninterp spec fn url_parse(raw: Seq<char>) -> Result<Seq<char>, Seq<char>>;

/// `Url::scheme` of the URL with serialization `href`.
pub uninterp spec fn url_scheme(href: Seq<char>) -> Seq<char>;

/// `Url::path` of the URL with serialization `href`.
pub uninterp spec fn url_path(href: Seq<char>) -> Seq<char>;

/// `Url::query` of the URL with serialization `href`.
pub uninterp spec fn url_query(href: Seq<char>) -> Option<Seq<char>>;

/// `Url::fragment` of the URL with serialization `href`.
pub uninterp spec fn url_fragment(href: Seq<char>) -> Option<Seq<char>>;

/// The serialization after `Url::set_path(path)` on the URL with serialization `href`.
pub uninterp spec fn url_set_path(href: Seq<char>, path: Seq<char>) -> Seq<char>;

/// The serialization after `query_pairs_mut().append_pair(name, value)` on the URL with
/// serialization `href`.
pub uninterp spec fn url_append_pair(href: Seq<char>, name: Seq<char>, value: Seq<char>) -> Seq<char>;

/// The `url` crate keeps offsets into a URL's serialization as `u32` and panics when an
/// edit makes them overflow. An edit that adds `extra` characters (each encoded in at most
/// twelve) stays below that limit.
pub open spec fn url_edit_fits(href: Seq<char>, extra: int) -> bool {
    href.len() + 12 * extra + 2 < 0xFFFF_FFFFint
}

/// An absolute URL, held with its serialization.
#[derive(Debug)]
pub struct ApiUrl {
    url: Url,
    href: String,
}

impl View for ApiUrl {
    type V = Seq<char>;

    /// The URL's serialization.
    closed spec fn view(&self) -> Seq<char> {
        self.href@
    }
}

/// A copy of `u` (`Url::clone`).
#[verifier::external_body]
fn copy_url(u: &ApiUrl) -> (r: ApiUrl)
    ensures
        r@ == u@,
{
    ApiUrl { url: u.url.clone(), href: u.href.clone() }
}

impl Clone for ApiUrl {
    fn clone(&self) -> (r: Self)
        ensures
            r@ == self@,
    {
        copy_url(self)
    }
}

/// Parses an absolute URL with `Url::parse`; on failure, the parse error's text.
#[verifier::external_body]
fn parse_url(raw: &str) -> (r: Result<ApiUrl, String>)
    ensures
        match url_parse(raw@) {
            Ok(h) => r matches Ok(u) && u@ == h,
            Err(e) => r matches Err(m) && m@ == e,
        },
{
    match Url::parse(raw) {
        Ok(url) => Ok(ApiUrl { href: url.as_str().to_string(), url }),
        Err(err) => Err(err.to_string()),
    }
}

/// `Url::set_path` on a copy of `u`.
#[verifier::external_body]
fn with_path(u: &ApiUrl, path: &str) -> (r: ApiUrl)
    requires
        url_edit_fits(u@, path@.len() as int),
    ensures
        r@ == url_set_path(u@, path@),
{
    let mut url = u.url.clone();
    url.set_path(path);
    ApiUrl { href: url.as_str().to_string(), url }
}

/// `query_pairs_mut().append_pair(name, value)` on a copy of `u`.
#[verifier::external_body]
fn with_query_pair(u: &ApiUrl, name: &str, value: &str) -> (r: ApiUrl)
    requires
        url_edit_fits(u@, (name@.len() + value@.len()) as int),
    ensures
        r@ == url_append_pair(u@, name@, value@),
{
    let mut url = u.url.clone();
    url.query_pairs_mut().append_pair(name, value);
    ApiUrl { href: url.as_str().to_string(), url }
}

/// `Url::scheme`.
#[verifier::external_body]
fn scheme_of(u: &ApiUrl) -> (r: String)
    ensures
        r@ == url_scheme(u@),
{
    u.url.scheme().to_string()
}

/// `Url::path`.
#[verifier::external_body]
fn path_of(u: &ApiUrl) -> (r: String)
    ensures
        r@ == url_path(u@),
{
    u.url.path().to_string()
}

/// `Url::query`.
#[verifier::external_body]
fn query_of(u: &ApiUrl) -> (r: Option<String>)
    ensures
        match url_query(u@) {
            Some(q) => r matches Some(s) && s@ == q,
            None => r is None,
        },
{
    u.url.query().map(|q| q.to_string())
}

/// `Url::fragment`.
#[verifier::external_body]
fn fragment_of(u: &ApiUrl) -> (r: Option<String>)
    ensures
        match url_fragment(u@) {
            Some(q) => r matches Some(s) && s@ == q,
            None => r is None,
        },
{
    u.url.fragment().map(|q| q.to_string())
}

impl ApiUrl {
    /// The URL's serialization.
    pub fn as_str(&self) -> (s: &str)
        ensures
            s@ == self@,
    {
        self.href.as_str()
    }

    /// The URL's path.
    pub fn path(&self) -> (s: String)
        ensures
            s@ == url_path(self@),
    {
        path_of(self)
    }

    /// The URL's query, if it has one.
    pub fn query(&self) -> (q: Option<String>)
        ensures
            match url_query(self@) {
                Some(x) => q matches Some(s) && s@ == x,
                None => q is None,
            },
    {
        query_of(self)
    }
}

// ---------------------------------------------------------------------------
// Slashes
// ---------------------------------------------------------------------------

/// `s` without its trailing `/` characters.
pub open spec fn trim_end_slash(s: Seq<char>) -> Seq<char>
    decreases s.len(),
{
    if s.len() > 0 && s.last() == '/' {
        trim_end_slash(s.drop_last())
    } else {
        s
    }
}

/// `s` without its leading `/` characters.
pub open spec fn trim_start_slash(s: Seq<char>) -> Seq<char>
    decreases s.len(),
{
    if s.len() > 0 && s[0] == '/' {
        trim_start_slash(s.drop_first())
    } else {
        s
    }
}

/// `s.trim_matches('/')`.
pub open spec fn trim_slashes(s: Seq<char>) -> Seq<char> {
    trim_start_slash(trim_end_slash(s))
}

proof fn lemma_trim_end_slash_prefix(s: Seq<char>, b: int)
    requires
        0 <= b <= s.len(),
        forall|j: int| b <= j < s.len() ==> s[j] == '/',
    ensures
        trim_end_slash(s) == trim_end_slash(s.subrange(0, b)),
    decreases s.len() - b,
{
    if b < s.len() {
        assert(s.last() == s[s.len() - 1]);
        let t = s.drop_last();
        assert forall|j: int| b <= j < t.len() implies t[j] == '/' by {
            assert(t[j] == s[j]);
        }
        lemma_trim_end_slash_prefix(t, b);
        assert(t.subrange(0, b) == s.subrange(0, b));
    } else {
        assert(s.subrange(0, b) == s);
    }
}

proof fn lemma_trim_start_slash_suffix(s: Seq<char>, a: int)
    requires
        0 <= a <= s.len(),
        forall|j: int| 0 <= j < a ==> s[j] == '/',
    ensures
        trim_start_slash(s) == trim_start_slash(s.subrange(a, s.len() as int)),
    decreases a,
{
    if a > 0 {
        assert(s[0] == '/');
        let t = s.drop_first();
        assert forall|j: int| 0 <= j < a - 1 implies t[j] == '/' by {
            assert(t[j] == s[j + 1]);
        }
        lemma_trim_start_slash_suffix(t, a - 1);
        assert(t.subrange(a - 1, t.len() as int) == s.subrange(a, s.len() as int));
    } else {
        assert(s.subrange(0, s.len() as int) == s);
    }
}

proof fn lemma_trim_end_slash_len(s: Seq<char>)
    ensures
        trim_end_slash(s).len() <= s.len(),
    decreases s.len(),
{
    if s.len() > 0 {
        lemma_trim_end_slash_len(s.drop_last());
    }
}

/// `s.trim_end_matches('/')`.
pub fn trim_end_slash_str(s: &str) -> (r: String)
    ensures
        r@ == trim_end_slash(s@),
{
    let v = chars_of(s);
    let mut b: usize = v.len();
    while b > 0 && v[b - 1] == '/'
        invariant
            0 <= b <= v@.len(),
            v@ == s@,
            forall|j: int| b <= j < v@.len() ==> v@[j] == '/',
        decreases b,
    {
        b = b - 1;
    }
    proof {
        lemma_trim_end_slash_prefix(v@, b as int);
        let t = v@.subrange(0, b as int);
        if b > 0 {
            assert(t.last() == v@[b - 1]);
        }
    }
    string_of_range(v.as_slice(), 0, b)
}

/// `s.trim_matches('/')`.
pub fn trim_slashes_str(s: &str) -> (r: String)
    ensures
        r@ == trim_slashes(s@),
{
    let e = trim_end_slash_str(s);
    let v = chars_of(e.as_str());
    let mut a: usize = 0;
    while a < v.len() && v[a] == '/'
        invariant
            0 <= a <= v@.len(),
            v@ == trim_end_slash(s@),
            forall|j: int| 0 <= j < a ==> v@[j] == '/',
        decreases v.len() - a,
    {
        a = a + 1;
    }
    proof {
        lemma_trim_start_slash_suffix(v@, a as int);
        let t = v@.subrange(a as int, v@.len() as int);
        if a < v.len() {
            assert(t[0] == v@[a as int]);
        }
    }
    string_of_range(v.as_slice(), a, v.len())
}

// ---------------------------------------------------------------------------
// Base URL and request URLs
// ---------------------------------------------------------------------------

/// What `normalize_base_url` gives for `raw`: the serialization of the base URL, or the
/// configuration error.
pub open spec fn base_url_outcome(raw: Seq<char>) -> Result<Seq<char>, WireErr> {
    let t = trim(raw);
    if t.len() == 0 {
        Err((ProtocolErrorKind::InvalidConfiguration, "Base URL 不能为空"@))
    } else {
        match url_parse(t) {
            Err(e) => Err((ProtocolErrorKind::InvalidConfiguration, "Base URL 无效: "@ + e)),
            Ok(h) => {
                let scheme = url_scheme(h);
                let p = url_path(h);
                if scheme != "http"@ && scheme != "https"@ {
                    Err(
                        (
                            ProtocolErrorKind::InvalidConfiguration,
                            "Base URL 仅支持 http/https，收到: "@ + scheme,
                        ),
                    )
                } else if url_query(h) is Some || url_fragment(h) is Some {
                    Err((ProtocolErrorKind::InvalidConfiguration, "Base URL 不能包含 query 或 fragment"@))
                } else if p.len() > 1 && p.last() == '/' {
                    if url_edit_fits(h, p.len() as int) {
                        Ok(url_set_path(h, trim_end_slash(p)))
                    } else {
                        Err((ProtocolErrorKind::InvalidConfiguration, "Base URL 过长"@))
                    }
                } else {
                    Ok(h)
                }
            },
        }
    }
}

/// `r` is the URL outcome `o`.
pub open spec fn url_outcome_is(r: Result<ApiUrl, ProtocolError>, o: Result<Seq<char>, WireErr>) -> bool {
    match o {
        Ok(h) => r matches Ok(u) && u@ == h,
        Err(e) => r matches Err(x) && wire_err_is(x, e),
    }
}

/// Normalize a provider base URL: trimmed, `http` or `https` only, no query or fragment,
/// trailing slashes of the path removed (the root path `/` stays).
pub fn normalize_base_url(raw: &str) -> (r: Result<ApiUrl, ProtocolError>)
    ensures
        url_outcome_is(r, base_url_outcome(raw@)),
{
    let trimmed = trim_str(raw);
    if trimmed.as_str().is_empty() {
        return Err(wire_error(ProtocolErrorKind::InvalidConfiguration, "Base URL 不能为空"));
    }
    let url = match parse_url(trimmed.as_str()) {
        Ok(u) => u,
        Err(e) => {
            let mut m = owned("Base URL 无效: ");
            push_str(&mut m, e.as_str());
            return Err(ProtocolError::new(ProtocolErrorKind::InvalidConfiguration, m));
        },
    };
    let scheme = scheme_of(&url);
    let is_http = str_eq(scheme.as_str(), "http");
    let is_https = str_eq(scheme.as_str(), "https");
    if !is_http && !is_https {
        let mut m = owned("Base URL 仅支持 http/https，收到: ");
        push_str(&mut m, scheme.as_str());
        return Err(ProtocolError::new(ProtocolErrorKind::InvalidConfiguration, m));
    }
    if query_of(&url).is_some() || fragment_of(&url).is_some() {
        return Err(
            wire_error(ProtocolErrorKind::InvalidConfiguration, "Base URL 不能包含 query 或 fragment"),
        );
    }
    let path = path_of(&url);
    let pv = chars_of(path.as_str());
    if pv.len() > 1 && pv[pv.len() - 1] == '/' {
        let hv = chars_of(url.as_str());
        let hl = hv.len() as u64;
        let pl = pv.len() as u64;
        if hl >= 0xFFFF_FFFF || pl >= 0x1_0000_0000 || hl + 12 * pl + 2 >= 0xFFFF_FFFF {
            return Err(wire_error(ProtocolErrorKind::InvalidConfiguration, "Base URL 过长"));
        }
        let trimmed_path = trim_end_slash_str(path.as_str());
        proof {
            lemma_trim_end_slash_len(pv@);
        }
        return Ok(with_path(&url, trimmed_path.as_str()));
    }
    Ok(url)
}

/// The path that `join_api_path` sets: the base path without trailing slashes, then `/`
/// and the segment.
pub open spec fn joined_path(base_path: Seq<char>, seg: Seq<char>) -> Seq<char> {
    let p = trim_end_slash(base_path);
    if p.len() == 0 {
        "/"@ + seg
    } else {
        p + "/"@ + seg
    }
}

/// What `join_api_path` gives for a base URL and a path segment.
pub open spec fn join_outcome(base: Seq<char>, segment: Seq<char>) -> Result<Seq<char>, WireErr> {
    let seg = trim_slashes(segment);
    if seg.len() == 0 {
        Err((ProtocolErrorKind::InvalidConfiguration, "API 路径段不能为空"@))
    } else {
        let np = joined_path(url_path(base), seg);
        if url_edit_fits(base, np.len() as int) {
            Ok(url_set_path(base, np))
        } else {
            Err((ProtocolErrorKind::InvalidConfiguration, "Base URL 过长"@))
        }
    }
}

/// Whether `h.len() + 12 * n + 2 < u32::MAX`, computed without overflow.
fn edit_fits(u: &ApiUrl, n: usize) -> (b: bool)
    ensures
        b == url_edit_fits(u@, n as int),
{
    let hv = chars_of(u.as_str());
    let hl = hv.len() as u64;
    let nl = n as u64;
    !(hl >= 0xFFFF_FFFF || nl >= 0x1_0000_0000 || hl + 12 * nl + 2 >= 0xFFFF_FFFF)
}

/// Join a path segment onto the base URL's path (slashes around the segment ignored).
pub fn join_api_path(base: &ApiUrl, segment: &str) -> (r: Result<ApiUrl, ProtocolError>)
    ensures
        url_outcome_is(r, join_outcome(base@, segment@)),
{
    let seg = trim_slashes_str(segment);
    if seg.as_str().is_empty() {
        return Err(wire_error(ProtocolErrorKind::InvalidConfiguration, "API 路径段不能为空"));
    }
    let base_path = path_of(base);
    let p = trim_end_slash_str(base_path.as_str());
    let mut path = if p.as_str().is_empty() {
        owned("/")
    } else {
        let mut x = p;
        push_str(&mut x, "/");
        x
    };
    push_str(&mut path, seg.as_str());
    let pv = chars_of(path.as_str());
    if !edit_fits(base, pv.len()) {
        return Err(wire_error(ProtocolErrorKind::InvalidConfiguration, "Base URL 过长"));
    }
    Ok(with_path(base, path.as_str()))
}

/// The query parameter named for the API key: trimmed, when it is set and not blank.
pub open spec fn key_param(param: Option<Seq<char>>) -> Option<Seq<char>> {
    match param {
        Some(p) => if trim(p).len() > 0 {
            Some(trim(p))
        } else {
            None
        },
        None => None,
    }
}

/// What `apply_api_key_query` gives: the URL with `param=key` appended to its query when
/// a parameter is configured and the key is not empty.
pub open spec fn key_query_outcome(href: Seq<char>, param: Option<Seq<char>>, key: Seq<char>) -> Seq<char> {
    match key_param(param) {
        Some(p) => if key.len() > 0 && url_edit_fits(href, (p.len() + key.len()) as int) {
            url_append_pair(href, p, key)
        } else {
            href
        },
        None => href,
    }
}

/// A provider's connection settings.
#[derive(Clone)]
pub struct ProviderEndpoint {
    pub protocol: ProtocolKind,
    pub base_url: ApiUrl,
    pub api_key: SecretString,
    pub auth: AuthOptions,
}

/// Append the API key as a query parameter when one is configured and the key is not empty.
pub fn apply_api_key_query(url: ApiUrl, endpoint: &ProviderEndpoint) -> (r: ApiUrl)
    ensures
        r@ == key_query_outcome(
            url@,
            crate::wire::opt_seq(endpoint.auth.api_key_query_param),
            endpoint.api_key@,
        ),
{
    let param = match &endpoint.auth.api_key_query_param {
        Some(p) => trim_str(p.as_str()),
        None => {
            return url;
        },
    };
    if param.as_str().is_empty() || endpoint.api_key.is_empty() {
        return url;
    }
    let key = endpoint.api_key.expose_secret();
    let n = chars_of(param.as_str()).len();
    let m = chars_of(key).len();
    if n >= 0x8000_0000 || m >= 0x8000_0000 || !edit_fits(&url, n + m) {
        return url;
    }
    with_query_pair(&url, param.as_str(), key)
}

impl ProviderEndpoint {
    /// An endpoint with a normalized base URL and no auth extensions.
    pub fn new(protocol: ProtocolKind, base_url: &str, api_key: SecretString) -> (r: Result<
        Self,
        ProtocolError,
    >)
        ensures
            match base_url_outcome(base_url@) {
                Ok(h) => r matches Ok(e) && {
                    &&& e.protocol == protocol
                    &&& e.base_url@ == h
                    &&& e.api_key@ == api_key@
                    &&& e.auth.extra_headers@.len() == 0
                    &&& e.auth.api_key_query_param is None
                },
                Err(x) => r matches Err(err) && wire_err_is(err, x),
            },
    {
        let base = match normalize_base_url(base_url) {
            Ok(u) => u,
            Err(e) => {
                return Err(e);
            },
        };
        Ok(ProviderEndpoint {
            protocol,
            base_url: base,
            api_key,
            auth: AuthOptions { extra_headers: Vec::new(), api_key_query_param: None },
        })
    }
}

/// The Gemini resource path for streaming generation with `model`.
pub open spec fn model_path_outcome(model: Seq<char>) -> Result<Seq<char>, WireErr> {
    let m = trim(model);
    if m.len() == 0 {
        Err((ProtocolErrorKind::InvalidRequest, "model 不能为空"@))
    } else if m.len() >= 7 && m.take(7) == "models/"@ {
        Ok(m + ":streamGenerateContent"@)
    } else {
        Ok("models/"@ + m + ":streamGenerateContent"@)
    }
}

/// `models/{model}:streamGenerateContent`, the `models/` prefix kept when the model id
/// already has it.
pub fn model_resource_path(model: &str) -> (r: Result<String, ProtocolError>)
    ensures
        match model_path_outcome(model@) {
            Ok(p) => r matches Ok(s) && s@ == p,
            Err(x) => r matches Err(e) && wire_err_is(e, x),
        },
{
    let m = trim_str(model);
    if m.as_str().is_empty() {
        return Err(wire_error(ProtocolErrorKind::InvalidRequest, "model 不能为空"));
    }
    let mv = chars_of(m.as_str());
    let prefix = chars_of("models/");
    proof {
        reveal_strlit("models/");
    }
    let mut out = if starts_with_chars(mv.as_slice(), prefix.as_slice()) {
        m
    } else {
        let mut x = owned("models/");
        push_str(&mut x, m.as_str());
        x
    };
    push_str(&mut out, ":streamGenerateContent");
    Ok(out)
}

/// What `stream_generate_content_url` gives: the model's streaming path joined onto the
/// base URL, with `alt=sse` appended to the query.
pub open spec fn stream_url_outcome(base: Seq<char>, model: Seq<char>) -> Result<Seq<char>, WireErr> {
    match model_path_outcome(model) {
        Err(e) => Err(e),
        Ok(p) => match join_outcome(base, p) {
            Err(e) => Err(e),
            Ok(h) => if url_edit_fits(h, 6) {
                Ok(url_append_pair(h, "alt"@, "sse"@))
            } else {
                Err((ProtocolErrorKind::InvalidConfiguration, "Base URL 过长"@))
            },
        },
    }
}

/// The Gemini streaming URL for `model` (`…/models/{model}:streamGenerateContent?alt=sse`).
pub fn stream_generate_content_url(base: &ApiUrl, model: &str) -> (r: Result<ApiUrl, ProtocolError>)
    ensures
        url_outcome_is(r, stream_url_outcome(base@, model@)),
{
    let path = match model_resource_path(model) {
        Ok(p) => p,
        Err(e) => {
            return Err(e);
        },
    };
    let url = match join_api_path(base, path.as_str()) {
        Ok(u) => u,
        Err(e) => {
            return Err(e);
        },
    };
    proof {
        reveal_strlit("alt");
        reveal_strlit("sse");
    }
    if !edit_fits(&url, 6) {
        return Err(wire_error(ProtocolErrorKind::InvalidConfiguration, "Base URL 过长"));
    }
    Ok(with_query_pair(&url, "alt", "sse"))
}


proof fn lemma_trim_end_slash_prefix_of(s: Seq<char>)
    ensures
        trim_end_slash(s).len() <= s.len(),
        trim_end_slash(s) == s.take(trim_end_slash(s).len() as int),
        trim_end_slash(s).len() > 0 ==> trim_end_slash(s).last() != '/',
    decreases s.len(),
{
    if s.len() > 0 && s.last() == '/' {
        lemma_trim_end_slash_prefix_of(s.drop_last());
        assert(s.drop_last().take(trim_end_slash(s).len() as int) =~= s.take(trim_end_slash(s).len() as int));
    } else {
        assert(s.take(s.len() as int) =~= s);
    }
}

/// Joining an API segment keeps the base path and adds the segment after one slash: the
/// new path is the base path without its trailing slashes, then `/`, then the segment.
pub proof fn law_joined_path(base_path: Seq<char>, seg: Seq<char>)
    ensures
        ({
            let p = joined_path(base_path, seg);
            let k = trim_end_slash(base_path).len();
            &&& p.len() == k + 1 + seg.len()
            &&& p.take(k as int) == base_path.take(k as int)
            &&& p[k as int] == '/'
            &&& p.skip(k + 1int) == seg
            &&& k > 0 ==> p[k - 1] != '/'
        }),
{
    reveal_strlit("/");
    lemma_trim_end_slash_prefix_of(base_path);
    let t = trim_end_slash(base_path);
    let p = joined_path(base_path, seg);
    if t.len() == 0 {
        assert(p.skip(1) =~= seg);
        assert(p.take(0) =~= base_path.take(0));
    } else {
        assert(p.take(t.len() as int) =~= t);
        assert(p.skip(t.len() + 1int) =~= seg);
        assert(p[t.len() - 1] == t.last());
    }
}

} // verus!
