//! The settings document: theme, providers with their models, and the default provider
//! and model; the changes the settings screen makes to it.
//!
//! Ids are UUIDs as `u128`; times are Unix timestamps in nanoseconds, read by the caller.

use vstd::prelude::*;
use vstd::arithmetic::power::pow;

use crate::app_error::{StorageError, StoredProtocol};
use crate::chat_request::{
    is_storage_validation, StoredExtraHeader, StoredReasoningSettings, StoredToolChoice,
    StoredToolDefinition,
};
use crate::stored::{
    char_len, model_record_error, normalize_stored_base_url, stored_base_url_outcome, ModelRecord,
    ModelSource, MAX_PROVIDER_NAME_CHARS, SCHEMA_VERSION,
};
use crate::json::json_clone;
use crate::stored::{stored_auth_error, stored_tools_error, validate_stored_auth, validate_stored_tools};
use crate::text::{owned, push_str, str_eq, trim, trim_str};
use crate::wire::opt_seq;

verus! {

/// The window theme.
#[derive(Debug, Clone, Copy, PartialEq, Eq, Structural)]
pub enum ThemePreference {
    System,
    Light,
    Dark,
}

/// A configured provider.
pub struct ProviderRecord {
    pub id: u128,
    pub name: String,
    pub protocol: StoredProtocol,
    pub base_url: String,
    pub api_key: String,
    pub models: Vec<ModelRecord>,
    pub tools: Vec<StoredToolDefinition>,
    pub tool_choice: Option<StoredToolChoice>,
    pub extra_headers: Vec<StoredExtraHeader>,
    pub api_key_query_param: Option<String>,
    pub created_at: i128,
    pub updated_at: i128,
    pub revision: u64,
}

/// The settings document.
pub struct SettingsDocument {
    pub schema_version: u32,
    pub theme: ThemePreference,
    pub default_provider_id: Option<u128>,
    pub default_model_id: Option<String>,
    pub providers: Vec<ProviderRecord>,
    pub updated_at: i128,
    pub revision: u64,
}

// ---------------------------------------------------------------------------
// UUID text
// ---------------------------------------------------------------------------

/// A hexadecimal digit, lower case.
pub open spec fn hex_char(d: int) -> char {
    if d < 10 {
        (48 + d) as char
    } else {
        (87 + d) as char
    }
}

/// Which of the 32 hexadecimal digits (most significant first) stands at position `i`
/// of the hyphenated form.
pub open spec fn uuid_digit_at(i: int) -> int {
    if i < 8 {
        i
    } else if i < 13 {
        i - 1
    } else if i < 18 {
        i - 2
    } else if i < 23 {
        i - 3
    } else {
        i - 4
    }
}

/// The hyphenated lower-case form of a UUID: `xxxxxxxx-xxxx-xxxx-xxxx-xxxxxxxxxxxx`.
pub open spec fn uuid_text(id: u128) -> Seq<char> {
    Seq::new(
        36,
        |i: int|
            if i == 8 || i == 13 || i == 18 || i == 23 {
                '-'
            } else {
                hex_char(((id as int) / pow(16, (31 - uuid_digit_at(i)) as nat)) % 16)
            },
    )
}

/// `Uuid::from_u128(id).to_string()`: the hyphenated lower-case form.
#[verifier::external_body]
fn uuid_string(id: u128) -> (s: String)
    ensures
        s@ == uuid_text(id),
{
    uuid::Uuid::from_u128(id).to_string()
}

/// The UUID's hyphenated text.
pub fn uuid_string_of(id: u128) -> (s: String)
    ensures
        s@ == uuid_text(id),
{
    uuid_string(id)
}

/// `prefix` followed by the UUID's text.
fn with_uuid(prefix: &str, id: u128) -> (s: String)
    ensures
        s@ == prefix@ + uuid_text(id),
{
    let mut s = owned(prefix);
    let u = uuid_string(id);
    push_str(&mut s, u.as_str());
    s
}

// ---------------------------------------------------------------------------
// Copies
// ---------------------------------------------------------------------------

/// Two texts hold the same characters.
pub open spec fn same_opt(a: Option<String>, b: Option<String>) -> bool {
    opt_seq(a) == opt_seq(b)
}

/// Two reasoning settings hold the same values.
pub open spec fn same_reasoning(a: StoredReasoningSettings, b: StoredReasoningSettings) -> bool {
    a.mode@ == b.mode@ && same_opt(a.effort, b.effort) && a.budget_tokens == b.budget_tokens
}

/// Two models hold the same values.
pub open spec fn same_model(a: ModelRecord, b: ModelRecord) -> bool {
    &&& a.id@ == b.id@
    &&& a.display_name@ == b.display_name@
    &&& a.source == b.source
    &&& a.temperature == b.temperature
    &&& a.max_tokens == b.max_tokens
    &&& match (a.reasoning, b.reasoning) {
        (Some(x), Some(y)) => same_reasoning(x, y),
        (None, None) => true,
        _ => false,
    }
}

/// Two model lists hold the same models in the same order.
pub open spec fn same_models(a: Seq<ModelRecord>, b: Seq<ModelRecord>) -> bool {
    a.len() == b.len() && forall|i: int| 0 <= i < a.len() ==> same_model(#[trigger] a[i], b[i])
}

fn copy_opt(o: &Option<String>) -> (r: Option<String>)
    ensures
        same_opt(r, *o),
{
    match o {
        Some(s) => Some(owned(s.as_str())),
        None => None,
    }
}

fn copy_model(m: &ModelRecord) -> (r: ModelRecord)
    ensures
        same_model(r, *m),
{
    let reasoning = match &m.reasoning {
        Some(x) => Some(
            StoredReasoningSettings {
                mode: owned(x.mode.as_str()),
                effort: copy_opt(&x.effort),
                budget_tokens: x.budget_tokens,
            },
        ),
        None => None,
    };
    ModelRecord {
        id: owned(m.id.as_str()),
        display_name: owned(m.display_name.as_str()),
        source: m.source,
        temperature: m.temperature,
        max_tokens: m.max_tokens,
        reasoning,
    }
}

/// A copy of a model list.
pub fn copy_models(v: &Vec<ModelRecord>) -> (r: Vec<ModelRecord>)
    ensures
        same_models(r@, v@),
{
    let mut out: Vec<ModelRecord> = Vec::new();
    let mut i: usize = 0;
    while i < v.len()
        invariant
            0 <= i <= v@.len(),
            out@.len() == i,
            forall|j: int| 0 <= j < i ==> same_model(#[trigger] out@[j], v@[j]),
        decreases v.len() - i,
    {
        out.push(copy_model(&v[i]));
        i = i + 1;
    }
    out
}

/// Two stored tools hold the same values.
pub open spec fn same_tool(a: StoredToolDefinition, b: StoredToolDefinition) -> bool {
    a.name@ == b.name@ && same_opt(a.description, b.description) && a.parameters == b.parameters
}

/// Two tool lists hold the same tools, in order.
pub open spec fn same_tools(a: Seq<StoredToolDefinition>, b: Seq<StoredToolDefinition>) -> bool {
    a.len() == b.len() && forall|i: int| 0 <= i < a.len() ==> same_tool(#[trigger] a[i], b[i])
}

/// Two optional tool choices hold the same values.
pub open spec fn same_choice(a: Option<StoredToolChoice>, b: Option<StoredToolChoice>) -> bool {
    match (a, b) {
        (Some(x), Some(y)) => x.mode@ == y.mode@ && same_opt(x.name, y.name),
        (None, None) => true,
        _ => false,
    }
}

/// Two extra headers hold the same name and value.
pub open spec fn same_header(a: StoredExtraHeader, b: StoredExtraHeader) -> bool {
    a.name@ == b.name@ && a.value@ == b.value@
}

/// Two header lists hold the same headers, in order.
pub open spec fn same_headers(a: Seq<StoredExtraHeader>, b: Seq<StoredExtraHeader>) -> bool {
    a.len() == b.len() && forall|i: int| 0 <= i < a.len() ==> same_header(#[trigger] a[i], b[i])
}

/// A copy of a tool list.
pub fn copy_tools(ts: &Vec<StoredToolDefinition>) -> (r: Vec<StoredToolDefinition>)
    ensures
        same_tools(r@, ts@),
{
    let mut out: Vec<StoredToolDefinition> = Vec::new();
    let mut i: usize = 0;
    while i < ts.len()
        invariant
            0 <= i <= ts@.len(),
            out@.len() == i,
            forall|j: int| 0 <= j < i ==> same_tool(#[trigger] out@[j], ts@[j]),
        decreases ts.len() - i,
    {
        out.push(
            StoredToolDefinition {
                name: owned(ts[i].name.as_str()),
                description: copy_opt(&ts[i].description),
                parameters: json_clone(&ts[i].parameters),
            },
        );
        i = i + 1;
    }
    out
}

/// A copy of an optional tool choice.
pub fn copy_choice(c: &Option<StoredToolChoice>) -> (r: Option<StoredToolChoice>)
    ensures
        same_choice(r, *c),
{
    match c {
        Some(x) => Some(StoredToolChoice { mode: owned(x.mode.as_str()), name: copy_opt(&x.name) }),
        None => None,
    }
}

/// A copy of a header list.
pub fn copy_headers(hs: &Vec<StoredExtraHeader>) -> (r: Vec<StoredExtraHeader>)
    ensures
        same_headers(r@, hs@),
{
    let mut out: Vec<StoredExtraHeader> = Vec::new();
    let mut i: usize = 0;
    while i < hs.len()
        invariant
            0 <= i <= hs@.len(),
            out@.len() == i,
            forall|j: int| 0 <= j < i ==> same_header(#[trigger] out@[j], hs@[j]),
        decreases hs.len() - i,
    {
        out.push(StoredExtraHeader { name: owned(hs[i].name.as_str()), value: owned(hs[i].value.as_str()) });
        i = i + 1;
    }
    out
}

// ---------------------------------------------------------------------------
// Defaults
// ---------------------------------------------------------------------------

/// The index of the first provider with `id`.
pub open spec fn provider_index(ps: Seq<ProviderRecord>, id: u128) -> Option<int>
    decreases ps.len(),
{
    if ps.len() == 0 {
        None
    } else if ps[0].id == id {
        Some(0)
    } else {
        match provider_index(ps.drop_first(), id) {
            Some(i) => Some(i + 1),
            None => None,
        }
    }
}

/// Whether a provider lists a model with id `mid`.
pub open spec fn lists_model(p: ProviderRecord, mid: Seq<char>) -> bool {
    exists|j: int| 0 <= j < p.models@.len() && (#[trigger] p.models@[j]).id@ == mid
}

/// The pair names one of the providers and one of its models.
pub open spec fn pair_valid(ps: Seq<ProviderRecord>, pid: Option<u128>, mid: Option<Seq<char>>) -> bool {
    match (pid, mid) {
        (Some(p), Some(m)) => match provider_index(ps, p) {
            Some(i) => lists_model(ps[i], m),
            None => false,
        },
        _ => false,
    }
}

/// The default pair names a provider of the document and one of its models.
pub open spec fn defaults_valid(d: SettingsDocument) -> bool {
    pair_valid(d.providers@, d.default_provider_id, opt_seq(d.default_model_id))
}

/// The defaults are both unset, or a valid pair.
pub open spec fn defaults_consistent(d: SettingsDocument) -> bool {
    (d.default_provider_id is None && d.default_model_id is None) || defaults_valid(d)
}

proof fn lemma_provider_index(ps: Seq<ProviderRecord>, id: u128)
    ensures
        match provider_index(ps, id) {
            Some(i) => 0 <= i < ps.len() && ps[i].id == id && forall|j: int|
                0 <= j < i ==> ps[j].id != id,
            None => forall|j: int| 0 <= j < ps.len() ==> ps[j].id != id,
        },
    decreases ps.len(),
{
    if ps.len() > 0 && ps[0].id != id {
        lemma_provider_index(ps.drop_first(), id);
        assert forall|j: int| 1 <= j < ps.len() implies ps[j] == ps.drop_first()[j - 1] by {}
    }
}

/// The index of the first provider with `id`.
pub fn find_provider(ps: &Vec<ProviderRecord>, id: u128) -> (r: Option<usize>)
    ensures
        match provider_index(ps@, id) {
            Some(i) => r matches Some(x) && x == i,
            None => r is None,
        },
        r matches Some(i) ==> i < ps@.len() && ps@[i as int].id == id,
{
    proof {
        lemma_provider_index(ps@, id);
    }
    let mut i: usize = 0;
    while i < ps.len()
        invariant
            0 <= i <= ps@.len(),
            forall|j: int| 0 <= j < i ==> ps@[j].id != id,
        decreases ps.len() - i,
    {
        if ps[i].id == id {
            proof {
                lemma_provider_index(ps@, id);
            }
            return Some(i);
        }
        i = i + 1;
    }
    None
}

/// Whether a provider lists the model `mid`.
pub fn provider_lists_model(p: &ProviderRecord, mid: &str) -> (b: bool)
    ensures
        b == lists_model(*p, mid@),
{
    let mut j: usize = 0;
    while j < p.models.len()
        invariant
            0 <= j <= p.models@.len(),
            forall|k: int| 0 <= k < j ==> p.models@[k].id@ != mid@,
        decreases p.models.len() - j,
    {
        if str_eq(p.models[j].id.as_str(), mid) {
            return true;
        }
        j = j + 1;
    }
    false
}

/// What `repair_defaults` leaves as the default pair: a valid pair unchanged; else the
/// first provider with its first model, when it has one; else nothing.
pub open spec fn repaired_pair(ps: Seq<ProviderRecord>, pid: Option<u128>, mid: Option<Seq<char>>) -> (
    Option<u128>,
    Option<Seq<char>>,
) {
    if pair_valid(ps, pid, mid) {
        (pid, mid)
    } else if ps.len() > 0 && ps[0].models@.len() > 0 {
        (Some(ps[0].id), Some(ps[0].models@[0].id@))
    } else {
        (None, None)
    }
}

/// `repaired_pair` for a document.
pub open spec fn repaired(d: SettingsDocument) -> (Option<u128>, Option<Seq<char>>) {
    repaired_pair(d.providers@, d.default_provider_id, opt_seq(d.default_model_id))
}

/// Only the defaults changed.
pub open spec fn only_defaults_changed(a: SettingsDocument, b: SettingsDocument) -> bool {
    &&& a.schema_version == b.schema_version
    &&& a.theme == b.theme
    &&& a.providers == b.providers
    &&& a.updated_at == b.updated_at
    &&& a.revision == b.revision
}

impl SettingsDocument {
    /// A new document: schema version 1, system theme, no providers, no defaults,
    /// revision 1.
    pub fn new(now: i128) -> (d: Self)
        ensures
            d.schema_version == SCHEMA_VERSION,
            d.theme == ThemePreference::System,
            d.default_provider_id is None,
            d.default_model_id is None,
            d.providers@.len() == 0,
            d.updated_at == now,
            d.revision == 1,
    {
        SettingsDocument {
            schema_version: SCHEMA_VERSION,
            theme: ThemePreference::System,
            default_provider_id: None,
            default_model_id: None,
            providers: Vec::new(),
            updated_at: now,
            revision: 1,
        }
    }

    /// Record a change: the revision goes up by one (saturating) and the time is `now`.
    pub fn touch(&mut self, now: i128)
        ensures
            final(self).revision == (if old(self).revision == u64::MAX {
                u64::MAX
            } else {
                (old(self).revision + 1) as u64
            }),
            final(self).updated_at == now,
            final(self).schema_version == old(self).schema_version,
            final(self).theme == old(self).theme,
            final(self).default_provider_id == old(self).default_provider_id,
            final(self).default_model_id == old(self).default_model_id,
            final(self).providers == old(self).providers,
    {
        self.revision = self.revision.saturating_add(1);
        self.updated_at = now;
    }

    /// Repair the default pair after a change: keep a valid pair, else take the first
    /// provider's first model, else clear it.
    pub fn repair_defaults(&mut self)
        ensures
            only_defaults_changed(*old(self), *final(self)),
            final(self).default_provider_id == repaired(*old(self)).0,
            opt_seq(final(self).default_model_id) == repaired(*old(self)).1,
            defaults_consistent(*final(self)),
    {
        let mut valid = false;
        if let Some(pid) = self.default_provider_id {
            if let Some(mid) = &self.default_model_id {
                if let Some(i) = find_provider(&self.providers, pid) {
                    valid = provider_lists_model(&self.providers[i], mid.as_str());
                }
            }
        }
        if valid {
            return;
        }
        if self.providers.len() > 0 && self.providers[0].models.len() > 0 {
            let pid = self.providers[0].id;
            let mid = owned(self.providers[0].models[0].id.as_str());
            self.default_provider_id = Some(pid);
            self.default_model_id = Some(mid);
            proof {
                lemma_provider_index(self.providers@, pid);
                let k = provider_index(self.providers@, pid).unwrap();
                assert(k == 0);
                assert(lists_model(self.providers@[0], self.providers@[0].models@[0].id@));
            }
            return;
        }
        self.default_provider_id = None;
        self.default_model_id = None;
    }

    /// Set the window theme.
    pub fn set_theme(&mut self, theme: ThemePreference, now: i128)
        ensures
            final(self).theme == theme,
            final(self).providers == old(self).providers,
            final(self).default_provider_id == old(self).default_provider_id,
            final(self).default_model_id == old(self).default_model_id,
            final(self).updated_at == now,
    {
        self.theme = theme;
        self.touch(now);
    }
}

/// A storage error as the contracts see it: not found (`true`) or validation, with its
/// message.
pub type DocErr = (bool, Seq<char>);

/// `e` is the error `x`.
pub open spec fn doc_err_is(e: StorageError, x: DocErr) -> bool {
    if x.0 {
        e matches StorageError::NotFound(m) && m@ == x.1
    } else {
        is_storage_validation(e, x.1)
    }
}

/// What `set_defaults` makes the default pair: both cleared, or a provider of the
/// document with one of its models; otherwise the error.
pub open spec fn set_defaults_outcome(d: SettingsDocument, pid: Option<u128>, mid: Option<Seq<char>>) -> Result<
    (Option<u128>, Option<Seq<char>>),
    DocErr,
> {
    match (pid, mid) {
        (None, None) => Ok((None, None)),
        (Some(p), Some(m)) => match provider_index(d.providers@, p) {
            None => Err((true, "服务商不存在: "@ + uuid_text(p))),
            Some(i) => if lists_model(d.providers@[i], m) {
                Ok((Some(p), Some(m)))
            } else {
                Err((false, "default_model_id 必须属于 default_provider_id"@))
            },
        },
        _ => Err((false, "default_provider_id 与 default_model_id 必须同时设置或同时清空"@)),
    }
}

impl SettingsDocument {
    /// Set or clear the default provider and model together; the model must belong to
    /// the provider. On success the document is touched.
    pub fn set_defaults(&mut self, provider_id: Option<u128>, model_id: Option<String>, now: i128) -> (r:
        Result<(), StorageError>)
        ensures
            match set_defaults_outcome(*old(self), provider_id, opt_seq(model_id)) {
                Ok((p, m)) => {
                    &&& r is Ok
                    &&& final(self).default_provider_id == p
                    &&& opt_seq(final(self).default_model_id) == m
                    &&& final(self).providers == old(self).providers
                    &&& final(self).theme == old(self).theme
                    &&& final(self).updated_at == now
                },
                Err(x) => r matches Err(e) && doc_err_is(e, x) && *final(self) == *old(self),
            },
    {
        match (provider_id, model_id) {
            (None, None) => {
                self.default_provider_id = None;
                self.default_model_id = None;
            },
            (Some(pid), Some(mid)) => {
                let i = match find_provider(&self.providers, pid) {
                    Some(i) => i,
                    None => {
                        return Err(StorageError::not_found(with_uuid("服务商不存在: ", pid)));
                    },
                };
                if !provider_lists_model(&self.providers[i], mid.as_str()) {
                    return Err(
                        StorageError::validation(owned("default_model_id 必须属于 default_provider_id")),
                    );
                }
                self.default_provider_id = Some(pid);
                self.default_model_id = Some(mid);
            },
            _ => {
                return Err(
                    StorageError::validation(
                        owned("default_provider_id 与 default_model_id 必须同时设置或同时清空"),
                    ),
                );
            },
        }
        self.touch(now);
        Ok(())
    }
}

// ---------------------------------------------------------------------------
// Public view
// ---------------------------------------------------------------------------

/// A provider as the window sees it: never the key itself, only whether one is set.
pub struct ProviderPublic {
    pub id: u128,
    pub name: String,
    pub protocol: StoredProtocol,
    pub base_url: String,
    pub api_key_present: bool,
    pub models: Vec<ModelRecord>,
    pub tools: Vec<StoredToolDefinition>,
    pub tool_choice: Option<StoredToolChoice>,
    pub extra_headers: Vec<StoredExtraHeader>,
    pub api_key_query_param: Option<String>,
    pub created_at: i128,
    pub updated_at: i128,
    pub revision: u64,
}

/// `pb` is the public view of `p`.
pub open spec fn public_of(pb: ProviderPublic, p: ProviderRecord) -> bool {
    &&& pb.id == p.id
    &&& pb.name@ == p.name@
    &&& pb.protocol == p.protocol
    &&& pb.base_url@ == p.base_url@
    &&& pb.api_key_present == (p.api_key@.len() > 0)
    &&& same_models(pb.models@, p.models@)
    &&& same_tools(pb.tools@, p.tools@)
    &&& same_choice(pb.tool_choice, p.tool_choice)
    &&& same_headers(pb.extra_headers@, p.extra_headers@)
    &&& same_opt(pb.api_key_query_param, p.api_key_query_param)
    &&& pb.created_at == p.created_at
    &&& pb.updated_at == p.updated_at
    &&& pb.revision == p.revision
}

/// The public view of a provider.
pub fn provider_public(p: &ProviderRecord) -> (r: ProviderPublic)
    ensures
        public_of(r, *p),
{
    ProviderPublic {
        id: p.id,
        name: owned(p.name.as_str()),
        protocol: p.protocol,
        base_url: owned(p.base_url.as_str()),
        api_key_present: !p.api_key.as_str().is_empty(),
        models: copy_models(&p.models),
        tools: copy_tools(&p.tools),
        tool_choice: copy_choice(&p.tool_choice),
        extra_headers: copy_headers(&p.extra_headers),
        api_key_query_param: copy_opt(&p.api_key_query_param),
        created_at: p.created_at,
        updated_at: p.updated_at,
        revision: p.revision,
    }
}

/// The public views of all providers, in order.
pub fn providers_public(doc: &SettingsDocument) -> (r: Vec<ProviderPublic>)
    ensures
        r@.len() == doc.providers@.len(),
        forall|i: int| 0 <= i < r@.len() ==> public_of(#[trigger] r@[i], doc.providers@[i]),
{
    let mut out: Vec<ProviderPublic> = Vec::new();
    let mut i: usize = 0;
    while i < doc.providers.len()
        invariant
            0 <= i <= doc.providers@.len(),
            out@.len() == i,
            forall|j: int| 0 <= j < i ==> public_of(#[trigger] out@[j], doc.providers@[j]),
        decreases doc.providers.len() - i,
    {
        out.push(provider_public(&doc.providers[i]));
        i = i + 1;
    }
    out
}

// ---------------------------------------------------------------------------
// Deleting a provider
// ---------------------------------------------------------------------------

/// The providers without those with `id`.
pub open spec fn without_provider(ps: Seq<ProviderRecord>, id: u128) -> Seq<ProviderRecord>
    decreases ps.len(),
{
    if ps.len() == 0 {
        seq![]
    } else if ps.last().id == id {
        without_provider(ps.drop_last(), id)
    } else {
        without_provider(ps.drop_last(), id).push(ps.last())
    }
}

/// The revision after one more change (saturating).
pub open spec fn next_revision(r: u64) -> u64 {
    if r == u64::MAX {
        u64::MAX
    } else {
        (r + 1) as u64
    }
}

impl SettingsDocument {
    /// Remove the provider `id`, repair the defaults and touch the document; `NotFound`
    /// when no provider has that id (the document unchanged).
    pub fn delete_provider(&mut self, provider_id: u128, now: i128) -> (r: Result<(), StorageError>)
        ensures
            match provider_index(old(self).providers@, provider_id) {
                None => r matches Err(e) && doc_err_is(e, (true, "服务商不存在: "@ + uuid_text(provider_id)))
                    && *final(self) == *old(self),
                Some(_) => {
                    let ps = without_provider(old(self).providers@, provider_id);
                    let pair = repaired_pair(
                        ps,
                        old(self).default_provider_id,
                        opt_seq(old(self).default_model_id),
                    );
                    &&& r is Ok
                    &&& final(self).providers@ == ps
                    &&& final(self).default_provider_id == pair.0
                    &&& opt_seq(final(self).default_model_id) == pair.1
                    &&& final(self).theme == old(self).theme
                    &&& final(self).schema_version == old(self).schema_version
                    &&& final(self).revision == next_revision(old(self).revision)
                    &&& final(self).updated_at == now
                },
            },
    {
        if find_provider(&self.providers, provider_id).is_none() {
            return Err(StorageError::not_found(with_uuid("服务商不存在: ", provider_id)));
        }
        let ghost orig = self.providers@;
        let n = self.providers.len();
        let mut i: usize = 0;
        let mut k: usize = 0;
        while i < self.providers.len()
            invariant
                0 <= k <= orig.len(),
                orig.len() == n,
                i == without_provider(orig.take(k as int), provider_id).len(),
                self.providers@ == without_provider(orig.take(k as int), provider_id) + orig.skip(
                    k as int,
                ),
                self.default_provider_id == old(self).default_provider_id,
                self.default_model_id == old(self).default_model_id,
                self.theme == old(self).theme,
                self.schema_version == old(self).schema_version,
                self.revision == old(self).revision,
            decreases orig.len() - k,
        {
            proof {
                assert(self.providers@.len() == i + orig.skip(k as int).len());
                assert(k < orig.len());
                assert(orig.take(k + 1).drop_last() == orig.take(k as int));
                assert(orig.take(k + 1).last() == orig[k as int]);
                assert(self.providers@[i as int] == orig[k as int]);
            }
            if self.providers[i].id == provider_id {
                self.providers.remove(i);
                assert(self.providers@ =~= without_provider(orig.take(k + 1), provider_id) + orig.skip(
                    k + 1,
                ));
            } else {
                assert(self.providers@ =~= without_provider(orig.take(k + 1), provider_id) + orig.skip(
                    k + 1,
                ));
                i = i + 1;
            }
            k = k + 1;
        }
        proof {
            assert(orig.take(orig.len() as int) == orig);
            assert(self.providers@ =~= without_provider(orig, provider_id));
        }
        self.repair_defaults();
        self.touch(now);
        Ok(())
    }
}

// ---------------------------------------------------------------------------
// Creating or updating a provider
// ---------------------------------------------------------------------------

/// How an upsert changes the stored key.
pub enum ApiKeyUpdate {
    Keep,
    Replace(String),
    Clear,
}

/// A provider to create (no id) or update.
pub struct ProviderUpsert {
    pub id: Option<u128>,
    pub name: String,
    pub protocol: StoredProtocol,
    pub base_url: String,
    pub api_key: ApiKeyUpdate,
    pub models: Vec<ModelRecord>,
    pub tools: Vec<StoredToolDefinition>,
    pub tool_choice: Option<StoredToolChoice>,
    pub extra_headers: Vec<StoredExtraHeader>,
    pub api_key_query_param: Option<String>,
}

/// The raw ids of models.
pub open spec fn model_ids_of(ms: Seq<ModelRecord>) -> Seq<Seq<char>> {
    ms.map_values(|m: ModelRecord| m.id@)
}

/// The first problem among the first `n` models: an invalid model, or an id that an
/// earlier model already has.
pub open spec fn models_scan(ms: Seq<ModelRecord>, n: int) -> Option<Seq<char>>
    decreases n,
{
    if n <= 0 {
        None
    } else {
        match models_scan(ms, n - 1) {
            Some(e) => Some(e),
            None => match model_record_error(ms[n - 1]) {
                Some(e) => Some(e),
                None => if model_ids_of(ms.take(n - 1)).contains(ms[n - 1].id@) {
                    Some("同一服务商内 model id 重复: "@ + ms[n - 1].id@)
                } else {
                    None
                },
            },
        }
    }
}

/// The first rule an upsert breaks: a trimmed name of 1 to 80 characters, a valid base
/// URL, valid models with distinct ids, valid tools and tool choice, valid extra headers
/// and key query parameter; then, for an update, an existing provider.
pub open spec fn upsert_error(d: SettingsDocument, u: ProviderUpsert) -> Option<DocErr> {
    let name = trim(u.name@);
    if name.len() == 0 || name.len() > MAX_PROVIDER_NAME_CHARS {
        Some((false, "服务商名称长度须为 1–80 个字符"@))
    } else if stored_base_url_outcome(u.base_url@) is Err {
        Some((false, stored_base_url_outcome(u.base_url@)->Err_0))
    } else if models_scan(u.models@, u.models@.len() as int) is Some {
        Some((false, models_scan(u.models@, u.models@.len() as int).unwrap()))
    } else if stored_tools_error(u.tools@, u.tool_choice) is Some {
        Some((false, stored_tools_error(u.tools@, u.tool_choice).unwrap()))
    } else if stored_auth_error(u.extra_headers@, opt_seq(u.api_key_query_param)) is Some {
        Some((false, stored_auth_error(u.extra_headers@, opt_seq(u.api_key_query_param)).unwrap()))
    } else {
        match u.id {
            Some(id) => if provider_index(d.providers@, id) is None {
                Some((true, "服务商不存在: "@ + uuid_text(id)))
            } else {
                None
            },
            None => None,
        }
    }
}

/// The key after an update of a stored key `old`.
pub open spec fn updated_key(old: Seq<char>, k: ApiKeyUpdate) -> Seq<char> {
    match k {
        ApiKeyUpdate::Keep => old,
        ApiKeyUpdate::Replace(v) => v@,
        ApiKeyUpdate::Clear => seq![],
    }
}

proof fn lemma_models_scan_stable(ms: Seq<ModelRecord>, k: int, n: int)
    requires
        0 <= k <= n,
        models_scan(ms, k) is Some,
    ensures
        models_scan(ms, n) == models_scan(ms, k),
    decreases n - k,
{
    if n > k {
        lemma_models_scan_stable(ms, k, n - 1);
    }
}

/// Check the models of an upsert.
fn check_models(models: &Vec<ModelRecord>) -> (r: Result<(), StorageError>)
    ensures
        crate::chat_request::storage_check_is(r, models_scan(models@, models@.len() as int)),
{
    let mut ids: Vec<String> = Vec::new();
    let mut i: usize = 0;
    while i < models.len()
        invariant
            0 <= i <= models@.len(),
            models_scan(models@, i as int) is None,
            crate::types::strings_view(ids@) == model_ids_of(models@.take(i as int)),
        decreases models.len() - i,
    {
        proof {
            assert(models@.take(i as int) == models@.take(i + 1).take(i as int));
        }
        match models[i].validate() {
            Ok(()) => {},
            Err(e) => {
                proof {
                    lemma_models_scan_stable(models@, i + 1, models@.len() as int);
                }
                return Err(e);
            },
        }
        if crate::stored::contains_name(&ids, models[i].id.as_str()) {
            proof {
                lemma_models_scan_stable(models@, i + 1, models@.len() as int);
            }
            let mut m = owned("同一服务商内 model id 重复: ");
            push_str(&mut m, models[i].id.as_str());
            return Err(StorageError::validation(m));
        }
        let ghost before = ids@;
        ids.push(owned(models[i].id.as_str()));
        proof {
            assert(models@.take(i + 1) == models@.take(i as int).push(models@[i as int]));
            assert(crate::types::strings_view(ids@) =~= crate::types::strings_view(before).push(
                models@[i as int].id@,
            ));
            assert(model_ids_of(models@.take(i + 1)) =~= model_ids_of(models@.take(i as int)).push(
                models@[i as int].id@,
            ));
        }
        i = i + 1;
    }
    assert(models@.take(models@.len() as int) == models@);
    Ok(())
}

/// The record an upsert writes, field by field, given the record it replaces (if any).
pub open spec fn upserted(
    rec: ProviderRecord,
    before: Option<ProviderRecord>,
    u: ProviderUpsert,
    new_id: u128,
    now: i128,
) -> bool {
    &&& rec.name@ == trim(u.name@)
    &&& rec.protocol == u.protocol
    &&& Ok::<Seq<char>, Seq<char>>(rec.base_url@) == stored_base_url_outcome(u.base_url@)
    &&& rec.models@ == u.models@
    &&& rec.tools@ == u.tools@
    &&& rec.tool_choice == u.tool_choice
    &&& rec.extra_headers@ == u.extra_headers@
    &&& rec.api_key_query_param == u.api_key_query_param
    &&& rec.updated_at == now
    &&& match before {
        Some(b) => {
            &&& rec.id == b.id
            &&& rec.api_key@ == updated_key(b.api_key@, u.api_key)
            &&& rec.created_at == b.created_at
            &&& rec.revision == next_revision(b.revision)
        },
        None => {
            &&& rec.id == new_id
            &&& rec.api_key@ == updated_key(seq![], u.api_key)
            &&& rec.created_at == now
            &&& rec.revision == 1
        },
    }
}

impl SettingsDocument {
    /// Create a provider (id `new_id`) or update an existing one, after checking the
    /// name, base URL and models; then repair the defaults and touch the document. The
    /// public view of the written provider is returned. On an error the document is
    /// unchanged.
    pub fn upsert_provider(&mut self, input: ProviderUpsert, new_id: u128, now: i128) -> (r: Result<
        ProviderPublic,
        StorageError,
    >)
        ensures
            match upsert_error(*old(self), input) {
                Some(x) => r matches Err(e) && doc_err_is(e, x) && *final(self) == *old(self),
                None => r matches Ok(pb) && {
                    let k = match input.id {
                        Some(id) => provider_index(old(self).providers@, id).unwrap(),
                        None => old(self).providers@.len() as int,
                    };
                    let before = match input.id {
                        Some(_) => Some(old(self).providers@[k]),
                        None => None,
                    };
                    let ps = final(self).providers@;
                    let pair = repaired_pair(
                        ps,
                        old(self).default_provider_id,
                        opt_seq(old(self).default_model_id),
                    );
                    &&& ps.len() == (if input.id is Some {
                        old(self).providers@.len() as int
                    } else {
                        old(self).providers@.len() + 1int
                    })
                    &&& forall|j: int|
                        0 <= j < ps.len() && j != k ==> ps[j] == old(self).providers@[j]
                    &&& upserted(ps[k], before, input, new_id, now)
                    &&& public_of(pb, ps[k])
                    &&& final(self).default_provider_id == pair.0
                    &&& opt_seq(final(self).default_model_id) == pair.1
                    &&& final(self).theme == old(self).theme
                    &&& final(self).revision == next_revision(old(self).revision)
                    &&& final(self).updated_at == now
                },
            },
    {
        let name = trim_str(input.name.as_str());
        let nlen = char_len(name.as_str());
        if nlen == 0 || nlen > MAX_PROVIDER_NAME_CHARS {
            return Err(StorageError::validation(owned("服务商名称长度须为 1–80 个字符")));
        }
        let base_url = match normalize_stored_base_url(input.base_url.as_str()) {
            Ok(b) => b,
            Err(e) => {
                return Err(e);
            },
        };
        match check_models(&input.models) {
            Ok(()) => {},
            Err(e) => {
                return Err(e);
            },
        }
        match validate_stored_tools(&input.tools, input.tool_choice.as_ref()) {
            Ok(()) => {},
            Err(e) => {
                return Err(e);
            },
        }
        let param = match &input.api_key_query_param {
            Some(p) => Some(p.as_str()),
            None => None,
        };
        match validate_stored_auth(&input.extra_headers, param) {
            Ok(()) => {},
            Err(e) => {
                return Err(e);
            },
        }
        let ProviderUpsert {
            id,
            name: _,
            protocol,
            base_url: _,
            api_key,
            models,
            tools,
            tool_choice,
            extra_headers,
            api_key_query_param,
        } = input;
        let idx = match id {
            Some(pid) => match find_provider(&self.providers, pid) {
                Some(i) => i,
                None => {
                    return Err(StorageError::not_found(with_uuid("服务商不存在: ", pid)));
                },
            },
            None => {
                let key = match api_key {
                    ApiKeyUpdate::Replace(v) => v,
                    _ => String::new(),
                };
                let record = ProviderRecord {
                    id: new_id,
                    name,
                    protocol,
                    base_url,
                    api_key: key,
                    models,
                    tools,
                    tool_choice,
                    extra_headers,
                    api_key_query_param,
                    created_at: now,
                    updated_at: now,
                    revision: 1,
                };
                self.providers.push(record);
                let k = self.providers.len() - 1;
                let pb = provider_public(&self.providers[k]);
                self.repair_defaults();
                self.touch(now);
                return Ok(pb);
            },
        };
        let ghost before = self.providers@[idx as int];
        let mut rec = self.providers.remove(idx);
        rec.name = name;
        rec.protocol = protocol;
        rec.base_url = base_url;
        match api_key {
            ApiKeyUpdate::Keep => {},
            ApiKeyUpdate::Replace(v) => {
                rec.api_key = v;
            },
            ApiKeyUpdate::Clear => {
                rec.api_key = String::new();
            },
        }
        rec.models = models;
        rec.tools = tools;
        rec.tool_choice = tool_choice;
        rec.extra_headers = extra_headers;
        rec.api_key_query_param = api_key_query_param;
        rec.updated_at = now;
        rec.revision = rec.revision.saturating_add(1);
        self.providers.insert(idx, rec);
        let pb = provider_public(&self.providers[idx]);
        self.repair_defaults();
        self.touch(now);
        Ok(pb)
    }
}

/// A deleted provider is gone: no provider left has its id.
pub proof fn law_deleted_provider_gone(ps: Seq<ProviderRecord>, id: u128)
    ensures
        forall|j: int| 0 <= j < without_provider(ps, id).len() ==> (#[trigger] without_provider(ps, id)[j]).id != id,
        provider_index(without_provider(ps, id), id) is None,
    decreases ps.len(),
{
    if ps.len() > 0 {
        law_deleted_provider_gone(ps.drop_last(), id);
    }
    lemma_provider_index(without_provider(ps, id), id);
}

/// After repair the default pair is either unset or names a provider and one of its
/// models.
pub proof fn law_repaired_defaults_consistent(ps: Seq<ProviderRecord>, pid: Option<u128>, mid: Option<Seq<char>>)
    ensures
        ({
            let (p, m) = repaired_pair(ps, pid, mid);
            (p is None && m is None) || pair_valid(ps, p, m)
        }),
{
    if !pair_valid(ps, pid, mid) && ps.len() > 0 && ps[0].models@.len() > 0 {
        lemma_provider_index(ps, ps[0].id);
        assert(lists_model(ps[0], ps[0].models@[0].id@));
    }
}

} // verus!
