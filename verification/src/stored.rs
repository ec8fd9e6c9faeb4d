//! Checks on what is stored in `settings.json`: models, tools, tool choice, extra headers
//! and the API-key query parameter; the schema version; stored base URLs.

use vstd::prelude::*;

use crate::app_error::StorageError;
use crate::chat_request::{
    is_storage_validation, storage_check_is, stored_reasoning_error, trimmed_nonblank,
    trimmed_nonblank_exec, StoredExtraHeader, StoredReasoningSettings, StoredToolChoice,
    StoredToolDefinition,
};
use crate::endpoint::{base_url_outcome, normalize_base_url, trim_end_slash, trim_end_slash_str};
use crate::json::{is_object, json_is_object};
use crate::text::{ascii_lower, chars_of, lower_str, owned, push_str, str_eq, trim, trim_str};
use crate::types::{strings_view, temperature_in_range};

verus! {

/// Schema version written and accepted by this application build.
pub const SCHEMA_VERSION: u32 = 1;

/// Longest provider name, in characters.
pub const MAX_PROVIDER_NAME_CHARS: usize = 80;

/// Where a model entry came from.
#[derive(Debug, Clone, Copy, PartialEq, Eq, Structural)]
pub enum ModelSource {
    Discovery,
    Manual,
}

/// A model configured on a provider. `temperature` holds the IEEE-754 bits of an `f32`.
#[derive(Debug, Clone)]
pub struct ModelRecord {
    pub id: String,
    pub display_name: String,
    pub source: ModelSource,
    pub temperature: Option<u32>,
    pub max_tokens: Option<u32>,
    pub reasoning: Option<StoredReasoningSettings>,
}

/// The number of characters of `s`.
pub fn char_len(s: &str) -> (n: usize)
    ensures
        n == s@.len(),
{
    chars_of(s).len()
}

/// The first rule a stored model breaks: blank id, blank display name, temperature out
/// of 0.0..=2.0, zero `max_tokens`, invalid reasoning settings.
pub open spec fn model_record_error(m: ModelRecord) -> Option<Seq<char>> {
    if trim(m.id@).len() == 0 {
        Some("model id 不能为空"@)
    } else if trim(m.display_name@).len() == 0 {
        Some("model display_name 不能为空"@)
    } else if m.temperature matches Some(t) && !temperature_in_range(t) {
        Some("temperature 必须在 0.0..=2.0 或为空"@)
    } else if m.max_tokens == Some(0u32) {
        Some("max_tokens 必须为正整数或为空"@)
    } else {
        match m.reasoning {
            Some(r) => stored_reasoning_error(r),
            None => None,
        }
    }
}

impl ModelRecord {
    /// Check a stored model.
    pub fn validate(&self) -> (r: Result<(), StorageError>)
        ensures
            storage_check_is(r, model_record_error(*self)),
    {
        if trim_str(self.id.as_str()).as_str().is_empty() {
            return Err(StorageError::validation(owned("model id 不能为空")));
        }
        if trim_str(self.display_name.as_str()).as_str().is_empty() {
            return Err(StorageError::validation(owned("model display_name 不能为空")));
        }
        if let Some(t) = self.temperature {
            if !(t <= 0x4000_0000 || t == 0x8000_0000) {
                return Err(StorageError::validation(owned("temperature 必须在 0.0..=2.0 或为空")));
            }
        }
        if self.max_tokens == Some(0u32) {
            return Err(StorageError::validation(owned("max_tokens 必须为正整数或为空")));
        }
        if let Some(reasoning) = &self.reasoning {
            return reasoning.validate();
        }
        Ok(())
    }
}

/// The rule a stored tool breaks: blank name, parameters not a JSON object.
pub open spec fn stored_tool_error(t: StoredToolDefinition) -> Option<Seq<char>> {
    if trim(t.name@).len() == 0 {
        Some("tool name 不能为空"@)
    } else if !is_object(t.parameters) {
        Some("tool parameters 必须是 JSON object"@)
    } else {
        None
    }
}

impl StoredToolDefinition {
    /// Check a stored tool.
    pub fn validate(&self) -> (r: Result<(), StorageError>)
        ensures
            storage_check_is(r, stored_tool_error(*self)),
    {
        if trim_str(self.name.as_str()).as_str().is_empty() {
            return Err(StorageError::validation(owned("tool name 不能为空")));
        }
        if !json_is_object(&self.parameters) {
            return Err(StorageError::validation(owned("tool parameters 必须是 JSON object")));
        }
        Ok(())
    }
}

/// The rule a stored tool choice breaks, given the declared tool names: the mode must
/// be `auto`, `none`, `required` or `named` (trimmed, any case); `named` needs a
/// non-blank name among the tools.
pub open spec fn stored_choice_error(c: StoredToolChoice, names: Seq<Seq<char>>) -> Option<Seq<char>> {
    let mode = ascii_lower(trim(c.mode@));
    if mode == "auto"@ || mode == "none"@ || mode == "required"@ {
        None
    } else if mode == "named"@ {
        match trimmed_nonblank(crate::wire::opt_seq(c.name)) {
            None => Some("tool_choice named 必须提供 name"@),
            Some(n) => if names.contains(n) {
                None
            } else {
                Some("tool_choice named 引用了未声明的 tool: "@ + n)
            },
        }
    } else {
        Some("tool_choice.mode 须为 auto/none/required/named，收到: "@ + mode)
    }
}

pub(crate) fn contains_name(names: &Vec<String>, n: &str) -> (b: bool)
    ensures
        b == strings_view(names@).contains(n@),
{
    let mut i: usize = 0;
    while i < names.len()
        invariant
            0 <= i <= names@.len(),
            forall|j: int| 0 <= j < i ==> names@[j]@ != n@,
        decreases names.len() - i,
    {
        if str_eq(names[i].as_str(), n) {
            assert(strings_view(names@)[i as int] == n@);
            return true;
        }
        i = i + 1;
    }
    proof {
        if strings_view(names@).contains(n@) {
            let j = choose|j: int| 0 <= j < names@.len() && strings_view(names@)[j] == n@;
            assert(names@[j]@ == n@);
        }
    }
    false
}

impl StoredToolChoice {
    /// Check a stored tool choice against the declared tool names.
    pub fn validate(&self, tool_names: &Vec<String>) -> (r: Result<(), StorageError>)
        ensures
            storage_check_is(r, stored_choice_error(*self, strings_view(tool_names@))),
    {
        let l = lower_str(trim_str(self.mode.as_str()).as_str());
        let mode = l.as_str();
        if str_eq(mode, "auto") || str_eq(mode, "none") || str_eq(mode, "required") {
            return Ok(());
        }
        if str_eq(mode, "named") {
            let name = match trimmed_nonblank_exec(&self.name) {
                Some(n) => n,
                None => {
                    return Err(StorageError::validation(owned("tool_choice named 必须提供 name")));
                },
            };
            if !contains_name(tool_names, name.as_str()) {
                let mut m = owned("tool_choice named 引用了未声明的 tool: ");
                push_str(&mut m, name.as_str());
                return Err(StorageError::validation(m));
            }
            return Ok(());
        }
        let mut m = owned("tool_choice.mode 须为 auto/none/required/named，收到: ");
        push_str(&mut m, mode);
        Err(StorageError::validation(m))
    }
}

/// The trimmed names of stored tools.
pub open spec fn stored_tool_names(ts: Seq<StoredToolDefinition>) -> Seq<Seq<char>> {
    ts.map_values(|t: StoredToolDefinition| trim(t.name@))
}

/// The first problem among the first `n` stored tools: an invalid tool, or a trimmed
/// name that an earlier tool already has.
pub open spec fn stored_tools_scan(ts: Seq<StoredToolDefinition>, n: int) -> Option<Seq<char>>
    decreases n,
{
    if n <= 0 {
        None
    } else {
        match stored_tools_scan(ts, n - 1) {
            Some(e) => Some(e),
            None => {
                let t = ts[n - 1];
                match stored_tool_error(t) {
                    Some(e) => Some(e),
                    None => if stored_tool_names(ts.take(n - 1)).contains(trim(t.name@)) {
                        Some("tool name 重复: "@ + trim(t.name@))
                    } else {
                        None
                    },
                }
            },
        }
    }
}

proof fn lemma_tools_scan_stable(ts: Seq<StoredToolDefinition>, k: int, n: int)
    requires
        0 <= k <= n,
        stored_tools_scan(ts, k) is Some,
    ensures
        stored_tools_scan(ts, n) == stored_tools_scan(ts, k),
    decreases n - k,
{
    if n > k {
        lemma_tools_scan_stable(ts, k, n - 1);
    }
}

proof fn lemma_headers_scan_stable(hs: Seq<StoredExtraHeader>, k: int, n: int)
    requires
        0 <= k <= n,
        headers_scan(hs, k) is Some,
    ensures
        headers_scan(hs, n) == headers_scan(hs, k),
    decreases n - k,
{
    if n > k {
        lemma_headers_scan_stable(hs, k, n - 1);
    }
}

/// What `validate_stored_tools` reports: no tool choice without tools; each tool valid
/// with a distinct name; the choice valid against the names.
pub open spec fn stored_tools_error(ts: Seq<StoredToolDefinition>, choice: Option<StoredToolChoice>) -> Option<
    Seq<char>,
> {
    if ts.len() == 0 {
        if choice is Some {
            Some("未配置 tools 时不能设置 tool_choice"@)
        } else {
            None
        }
    } else {
        match stored_tools_scan(ts, ts.len() as int) {
            Some(e) => Some(e),
            None => match choice {
                Some(c) => stored_choice_error(c, stored_tool_names(ts)),
                None => None,
            },
        }
    }
}

/// Check a provider's stored tools together with its tool choice.
pub fn validate_stored_tools(tools: &Vec<StoredToolDefinition>, tool_choice: Option<&StoredToolChoice>) -> (r:
    Result<(), StorageError>)
    ensures
        storage_check_is(
            r,
            stored_tools_error(
                tools@,
                match tool_choice {
                    Some(c) => Some(*c),
                    None => None,
                },
            ),
        ),
{
    if tools.len() == 0 {
        if tool_choice.is_some() {
            return Err(StorageError::validation(owned("未配置 tools 时不能设置 tool_choice")));
        }
        return Ok(());
    }
    let mut names: Vec<String> = Vec::new();
    let mut i: usize = 0;
    while i < tools.len()
        invariant
            0 <= i <= tools@.len(),
            stored_tools_scan(tools@, i as int) is None,
            strings_view(names@) == stored_tool_names(tools@.take(i as int)),
        decreases tools.len() - i,
    {
        proof {
            assert(tools@.take(i as int) == tools@.take(i + 1).take(i as int));
        }
        match tools[i].validate() {
            Ok(()) => {},
            Err(e) => {
                proof {
                    lemma_tools_scan_stable(tools@, i + 1, tools@.len() as int);
                }
                return Err(e);
            },
        }
        let name = trim_str(tools[i].name.as_str());
        if contains_name(&names, name.as_str()) {
            proof {
                lemma_tools_scan_stable(tools@, i + 1, tools@.len() as int);
            }
            let mut m = owned("tool name 重复: ");
            push_str(&mut m, name.as_str());
            return Err(StorageError::validation(m));
        }
        let ghost before = names@;
        names.push(name);
        proof {
            assert(tools@.take(i + 1) == tools@.take(i as int).push(tools@[i as int]));
            assert(strings_view(names@) =~= strings_view(before).push(trim(tools@[i as int].name@)));
            assert(stored_tool_names(tools@.take(i + 1)) =~= stored_tool_names(tools@.take(i as int)).push(
                trim(tools@[i as int].name@),
            ));
        }
        i = i + 1;
    }
    assert(tools@.take(tools@.len() as int) == tools@);
    match tool_choice {
        Some(c) => c.validate(&names),
        None => Ok(()),
    }
}

/// Whether a text holds a carriage return or a line feed.
pub open spec fn has_crlf(s: Seq<char>) -> bool {
    exists|i: int| 0 <= i < s.len() && (s[i] == '\r' || s[i] == '\n')
}

/// Whether a text holds any of `\r`, `\n`, `=`, `&`.
pub open spec fn has_query_breaker(s: Seq<char>) -> bool {
    exists|i: int| 0 <= i < s.len() && (s[i] == '\r' || s[i] == '\n' || s[i] == '=' || s[i] == '&')
}

fn any_of(s: &str, query: bool) -> (b: bool)
    ensures
        b == (if query {
            has_query_breaker(s@)
        } else {
            has_crlf(s@)
        }),
{
    let v = chars_of(s);
    let mut i: usize = 0;
    while i < v.len()
        invariant
            0 <= i <= v@.len(),
            v@ == s@,
            forall|j: int|
                0 <= j < i ==> !(v@[j] == '\r' || v@[j] == '\n' || (query && (v@[j] == '='
                    || v@[j] == '&'))),
        decreases v.len() - i,
    {
        let c = v[i];
        if c == '\r' || c == '\n' || (query && (c == '=' || c == '&')) {
            return true;
        }
        i = i + 1;
    }
    false
}

/// The rule a stored extra header breaks: CR/LF in the raw name or value, blank name.
pub open spec fn extra_header_error(h: StoredExtraHeader) -> Option<Seq<char>> {
    if has_crlf(h.name@) {
        Some("extra_headers 名称不能包含 CR/LF"@)
    } else if has_crlf(h.value@) {
        Some("extra_headers 值不能包含 CR/LF"@)
    } else if trim(h.name@).len() == 0 {
        Some("extra_headers 名称不能为空"@)
    } else {
        None
    }
}

impl StoredExtraHeader {
    /// Check a stored extra header (CR/LF checked before trimming).
    pub fn validate(&self) -> (r: Result<(), StorageError>)
        ensures
            storage_check_is(r, extra_header_error(*self)),
    {
        if any_of(self.name.as_str(), false) {
            return Err(StorageError::validation(owned("extra_headers 名称不能包含 CR/LF")));
        }
        if any_of(self.value.as_str(), false) {
            return Err(StorageError::validation(owned("extra_headers 值不能包含 CR/LF")));
        }
        if trim_str(self.name.as_str()).as_str().is_empty() {
            return Err(StorageError::validation(owned("extra_headers 名称不能为空")));
        }
        Ok(())
    }
}

/// The first invalid header among the first `n`.
pub open spec fn headers_scan(hs: Seq<StoredExtraHeader>, n: int) -> Option<Seq<char>>
    decreases n,
{
    if n <= 0 {
        None
    } else {
        match headers_scan(hs, n - 1) {
            Some(e) => Some(e),
            None => extra_header_error(hs[n - 1]),
        }
    }
}

/// What `validate_stored_auth` reports: the first invalid header, then a query parameter
/// holding `\r`, `\n`, `=` or `&`, or blank.
pub open spec fn stored_auth_error(hs: Seq<StoredExtraHeader>, param: Option<Seq<char>>) -> Option<Seq<char>> {
    match headers_scan(hs, hs.len() as int) {
        Some(e) => Some(e),
        None => match param {
            Some(p) => if has_query_breaker(p) {
                Some("api_key_query_param 包含非法字符"@)
            } else if trim(p).len() == 0 {
                Some("api_key_query_param 不能为空字符串（可省略）"@)
            } else {
                None
            },
            None => None,
        },
    }
}

/// Check a provider's stored auth extensions.
pub fn validate_stored_auth(extra_headers: &Vec<StoredExtraHeader>, api_key_query_param: Option<&str>) -> (r:
    Result<(), StorageError>)
    ensures
        storage_check_is(
            r,
            stored_auth_error(
                extra_headers@,
                match api_key_query_param {
                    Some(p) => Some(p@),
                    None => None,
                },
            ),
        ),
{
    let mut i: usize = 0;
    while i < extra_headers.len()
        invariant
            0 <= i <= extra_headers@.len(),
            headers_scan(extra_headers@, i as int) is None,
        decreases extra_headers.len() - i,
    {
        match extra_headers[i].validate() {
            Ok(()) => {},
            Err(e) => {
                proof {
                    lemma_headers_scan_stable(extra_headers@, i + 1, extra_headers@.len() as int);
                }
                return Err(e);
            },
        }
        i = i + 1;
    }
    if let Some(param) = api_key_query_param {
        if any_of(param, true) {
            return Err(StorageError::validation(owned("api_key_query_param 包含非法字符")));
        }
        if trim_str(param).as_str().is_empty() {
            return Err(StorageError::validation(owned("api_key_query_param 不能为空字符串（可省略）")));
        }
    }
    Ok(())
}

/// What `check_schema_version` gives for a file's version.
pub open spec fn schema_error(found: u32) -> Option<StorageError> {
    if found > SCHEMA_VERSION {
        Some(StorageError::SchemaTooNew { found, supported: SCHEMA_VERSION })
    } else if found < SCHEMA_VERSION {
        Some(StorageError::SchemaUnsupported { found, supported: SCHEMA_VERSION })
    } else {
        None
    }
}

/// Accept only the schema version this build writes.
pub fn check_schema_version(found: u32) -> (r: Result<(), StorageError>)
    ensures
        match schema_error(found) {
            Some(e) => r == Err::<(), StorageError>(e),
            None => r is Ok,
        },
{
    if found > SCHEMA_VERSION {
        return Err(StorageError::SchemaTooNew { found, supported: SCHEMA_VERSION });
    }
    if found < SCHEMA_VERSION {
        return Err(StorageError::SchemaUnsupported { found, supported: SCHEMA_VERSION });
    }
    Ok(())
}

/// What `normalize_stored_base_url` gives: the normalized URL's serialization without
/// trailing slashes, or the protocol error's message as a validation error.
pub open spec fn stored_base_url_outcome(raw: Seq<char>) -> Result<Seq<char>, Seq<char>> {
    match base_url_outcome(raw) {
        Ok(h) => Ok(trim_end_slash(h)),
        Err(e) => Err(e.1),
    }
}

/// Normalize a base URL for storage.
pub fn normalize_stored_base_url(raw: &str) -> (r: Result<String, StorageError>)
    ensures
        match stored_base_url_outcome(raw@) {
            Ok(s) => r matches Ok(x) && x@ == s,
            Err(m) => r matches Err(e) && is_storage_validation(e, m),
        },
{
    match normalize_base_url(raw) {
        Ok(url) => Ok(trim_end_slash_str(url.as_str())),
        Err(e) => Err(StorageError::validation(e.message)),
    }
}

} // verus!
