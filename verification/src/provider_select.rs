//! Choosing what a chat or a model discovery talks to: the provider and model from the
//! settings, and the endpoint built from them.

use vstd::prelude::*;

use crate::app_error::{
    app_message_for, from_protocol_error, kind_of, parse_protocol_kind, plain_app_error,
    protocol_code, protocol_kind, protocol_named, AppError,
};
use crate::chat_request::{StoredExtraHeader, StoredReasoningSettings, StoredToolChoice, StoredToolDefinition};
use crate::endpoint::{base_url_outcome, ProviderEndpoint};
use crate::error::kind_retryable;
use crate::json::json_clone;
use crate::secret::SecretString;
use crate::settings_doc::{
    copy_tools, find_provider, provider_index, same_opt, same_reasoning, same_tool, ApiKeyUpdate,
    ProviderRecord, SettingsDocument,
};
use crate::text::{is_blank_str, owned, str_eq, trim};
use crate::types::{AuthOptions, ProtocolKind};
use crate::wire::{opt_seq, WireErr};

verus! {

/// How the window asks to change a stored key.
pub enum ApiKeyUpdateInput {
    Keep,
    Replace { value: String },
    Clear,
}

/// The storage form of a key update.
pub fn map_key_update(input: ApiKeyUpdateInput) -> (r: ApiKeyUpdate)
    ensures
        match input {
            ApiKeyUpdateInput::Keep => r is Keep,
            ApiKeyUpdateInput::Replace { value } => r matches ApiKeyUpdate::Replace(v) && v == value,
            ApiKeyUpdateInput::Clear => r is Clear,
        },
{
    match input {
        ApiKeyUpdateInput::Keep => ApiKeyUpdate::Keep,
        ApiKeyUpdateInput::Replace { value } => ApiKeyUpdate::Replace(value),
        ApiKeyUpdateInput::Clear => ApiKeyUpdate::Clear,
    }
}

/// `e` is the application error for a protocol error `x`.
pub open spec fn app_error_of(e: AppError, x: WireErr) -> bool {
    plain_app_error(e, protocol_code(x.0), app_message_for(x.0, x.1), kind_retryable(x.0))
}

/// The endpoint for a protocol, base URL and key, as an application error on failure.
fn endpoint_for(protocol: ProtocolKind, base_url: &str, key: String) -> (r: Result<
    ProviderEndpoint,
    AppError,
>)
    ensures
        match base_url_outcome(base_url@) {
            Ok(h) => r matches Ok(e) && {
                &&& e.protocol == protocol
                &&& e.base_url@ == h
                &&& e.api_key@ == key@
                &&& e.auth.extra_headers@.len() == 0
                &&& e.auth.api_key_query_param is None
            },
            Err(x) => r matches Err(a) && app_error_of(a, x),
        },
{
    match ProviderEndpoint::new(protocol, base_url, SecretString::from_string(key)) {
        Ok(e) => Ok(e),
        Err(pe) => Err(from_protocol_error(pe)),
    }
}

// ---------------------------------------------------------------------------
// Model discovery
// ---------------------------------------------------------------------------

/// What the window gives for a model discovery: a saved provider and/or draft values.
pub struct ProviderDraft {
    pub schema_version: u32,
    pub provider_id: Option<u128>,
    pub protocol: Option<String>,
    pub base_url: Option<String>,
    pub api_key: Option<ApiKeyUpdateInput>,
}

/// The saved provider a draft names, if it exists.
pub open spec fn saved_provider(d: SettingsDocument, id: Option<u128>) -> Option<ProviderRecord> {
    match id {
        Some(i) => match provider_index(d.providers@, i) {
            Some(k) => Some(d.providers@[k]),
            None => None,
        },
        None => None,
    }
}

/// The discovery settings, or the first thing missing: the protocol (the draft's, or the
/// saved provider's), the base URL (a non-blank draft value, or the saved one), the key
/// (replaced, cleared, or kept from the saved provider).
pub open spec fn discovery_inputs(d: SettingsDocument, draft: ProviderDraft) -> Result<
    (ProtocolKind, Seq<char>, Seq<char>),
    Seq<char>,
> {
    let saved = saved_provider(d, draft.provider_id);
    let protocol = match draft.protocol {
        Some(raw) => match protocol_named(raw@) {
            Some(p) => Ok(kind_of(p)),
            None => Err("不支持的协议"@),
        },
        None => match saved {
            Some(p) => Ok(kind_of(p.protocol)),
            None => Err("缺少 protocol"@),
        },
    };
    let base = match draft.base_url {
        Some(b) => if trim(b@).len() > 0 {
            Some(b@)
        } else {
            match saved {
                Some(p) => Some(p.base_url@),
                None => None,
            }
        },
        None => match saved {
            Some(p) => Some(p.base_url@),
            None => None,
        },
    };
    let key = match draft.api_key {
        Some(ApiKeyUpdateInput::Replace { value }) => Some(value@),
        Some(ApiKeyUpdateInput::Clear) => Some(seq![]),
        _ => match saved {
            Some(p) => Some(p.api_key@),
            None => None,
        },
    };
    match protocol {
        Err(m) => Err(m),
        Ok(k) => match base {
            None => Err("缺少 Base URL"@),
            Some(b) => match key {
                None => Err("新服务商不能使用 keep API Key"@),
                Some(s) => Ok((k, b, s)),
            },
        },
    }
}

/// The endpoint a model discovery uses.
pub fn discovery_endpoint(settings: &SettingsDocument, draft: ProviderDraft) -> (r: Result<
    ProviderEndpoint,
    AppError,
>)
    ensures
        match discovery_inputs(*settings, draft) {
            Err(m) => r matches Err(e) && plain_app_error(e, "validation"@, m, false),
            Ok((k, b, s)) => match base_url_outcome(b) {
                Ok(h) => r matches Ok(e) && {
                    &&& e.protocol == k
                    &&& e.base_url@ == h
                    &&& e.api_key@ == s
                    &&& e.auth.extra_headers@.len() == 0
                    &&& e.auth.api_key_query_param is None
                },
                Err(x) => r matches Err(a) && app_error_of(a, x),
            },
        },
{
    let saved: Option<usize> = match draft.provider_id {
        Some(id) => find_provider(&settings.providers, id),
        None => None,
    };
    let ProviderDraft { schema_version: _, provider_id: _, protocol, base_url, api_key } = draft;
    let protocol = match protocol {
        Some(raw) => match parse_protocol_kind(raw.as_str()) {
            Ok(k) => k,
            Err(e) => {
                return Err(e);
            },
        },
        None => match saved {
            Some(i) => protocol_kind(settings.providers[i].protocol),
            None => {
                return Err(AppError::validation(owned("缺少 protocol")));
            },
        },
    };
    let base_url = match base_url {
        Some(b) => if !is_blank_str(b.as_str()) {
            b
        } else {
            match saved {
                Some(i) => owned(settings.providers[i].base_url.as_str()),
                None => {
                    return Err(AppError::validation(owned("缺少 Base URL")));
                },
            }
        },
        None => match saved {
            Some(i) => owned(settings.providers[i].base_url.as_str()),
            None => {
                return Err(AppError::validation(owned("缺少 Base URL")));
            },
        },
    };
    let key = match api_key {
        Some(ApiKeyUpdateInput::Replace { value }) => value,
        Some(ApiKeyUpdateInput::Clear) => String::new(),
        _ => match saved {
            Some(i) => owned(settings.providers[i].api_key.as_str()),
            None => {
                return Err(AppError::validation(owned("新服务商不能使用 keep API Key")));
            },
        },
    };
    endpoint_for(protocol, base_url.as_str(), key)
}

// ---------------------------------------------------------------------------
// The model of a chat
// ---------------------------------------------------------------------------

/// The index of the first model with id `mid`.
pub open spec fn model_index(ms: Seq<crate::stored::ModelRecord>, mid: Seq<char>) -> Option<int>
    decreases ms.len(),
{
    if ms.len() == 0 {
        None
    } else if ms[0].id@ == mid {
        Some(0)
    } else {
        match model_index(ms.drop_first(), mid) {
            Some(i) => Some(i + 1),
            None => None,
        }
    }
}

proof fn lemma_model_index(ms: Seq<crate::stored::ModelRecord>, mid: Seq<char>)
    ensures
        match model_index(ms, mid) {
            Some(i) => 0 <= i < ms.len() && ms[i].id@ == mid,
            None => forall|j: int| 0 <= j < ms.len() ==> ms[j].id@ != mid,
        },
    decreases ms.len(),
{
    if ms.len() > 0 && ms[0].id@ != mid {
        lemma_model_index(ms.drop_first(), mid);
        assert forall|j: int| 1 <= j < ms.len() implies ms[j] == ms.drop_first()[j - 1] by {}
    }
}

fn find_model(ms: &Vec<crate::stored::ModelRecord>, mid: &str) -> (r: Option<usize>)
    ensures
        match model_index(ms@, mid@) {
            Some(i) => r matches Some(x) && x == i,
            None => r is None,
        },
        r matches Some(x) ==> x < ms@.len(),
{
    proof {
        lemma_model_index(ms@, mid@);
    }
    let mut i: usize = 0;
    while i < ms.len()
        invariant
            0 <= i <= ms@.len(),
            forall|j: int| 0 <= j < i ==> ms@[j].id@ != mid@,
            match model_index(ms@, mid@) {
                Some(k) => 0 <= k < ms@.len() && ms@[k].id@ == mid@,
                None => forall|j: int| 0 <= j < ms@.len() ==> ms@[j].id@ != mid@,
            },
        decreases ms.len() - i,
    {
        if str_eq(ms[i].id.as_str(), mid) {
            proof {
                lemma_model_index_first(ms@, mid@, i as int);
            }
            return Some(i);
        }
        i = i + 1;
    }
    None
}

proof fn lemma_model_index_first(ms: Seq<crate::stored::ModelRecord>, mid: Seq<char>, i: int)
    requires
        0 <= i < ms.len(),
        ms[i].id@ == mid,
        forall|j: int| 0 <= j < i ==> ms[j].id@ != mid,
    ensures
        model_index(ms, mid) == Some(i),
    decreases i,
{
    if i > 0 {
        assert forall|j: int| 0 <= j < i - 1 implies ms.drop_first()[j].id@ != mid by {
            assert(ms.drop_first()[j] == ms[j + 1]);
        }
        lemma_model_index_first(ms.drop_first(), mid, i - 1);
    }
}

/// The provider and model a chat uses, with the endpoint and the stored request settings.
pub struct SelectedModel {
    pub endpoint: ProviderEndpoint,
    pub provider_id: u128,
    pub provider_name: String,
    pub model_id: String,
    pub model_display_name: String,
    /// IEEE-754 bits of the model's `f32` temperature.
    pub temperature: Option<u32>,
    pub max_tokens: Option<u32>,
    pub stored_reasoning: Option<StoredReasoningSettings>,
    pub stored_tools: Vec<StoredToolDefinition>,
    pub stored_tool_choice: Option<StoredToolChoice>,
}

/// The names and values of stored extra headers.
pub open spec fn stored_pairs(hs: Seq<StoredExtraHeader>) -> Seq<(Seq<char>, Seq<char>)> {
    hs.map_values(|h: StoredExtraHeader| (h.name@, h.value@))
}

/// `s` is what `select_model` takes from provider `p` and its model `m`, with the
/// endpoint's base URL `h`.
pub open spec fn selected_from(
    s: SelectedModel,
    p: ProviderRecord,
    m: crate::stored::ModelRecord,
    h: Seq<char>,
) -> bool {
    &&& s.endpoint.protocol == kind_of(p.protocol)
    &&& s.endpoint.base_url@ == h
    &&& s.endpoint.api_key@ == p.api_key@
    &&& crate::headers::pairs_view(s.endpoint.auth.extra_headers@) == stored_pairs(p.extra_headers@)
    &&& opt_seq(s.endpoint.auth.api_key_query_param) == opt_seq(p.api_key_query_param)
    &&& s.provider_id == p.id
    &&& s.provider_name@ == p.name@
    &&& s.model_id@ == m.id@
    &&& s.model_display_name@ == m.display_name@
    &&& s.temperature == m.temperature
    &&& s.max_tokens == m.max_tokens
    &&& match (s.stored_reasoning, m.reasoning) {
        (Some(x), Some(y)) => same_reasoning(x, y),
        (None, None) => true,
        _ => false,
    }
    &&& s.stored_tools@.len() == p.tools@.len()
    &&& forall|i: int| 0 <= i < p.tools@.len() ==> same_tool(#[trigger] s.stored_tools@[i], p.tools@[i])
    &&& match (s.stored_tool_choice, p.tool_choice) {
        (Some(x), Some(y)) => x.mode@ == y.mode@ && same_opt(x.name, y.name),
        (None, None) => true,
        _ => false,
    }
}

fn copy_opt_string(o: &Option<String>) -> (r: Option<String>)
    ensures
        same_opt(r, *o),
{
    match o {
        Some(s) => Some(owned(s.as_str())),
        None => None,
    }
}

fn copy_headers(hs: &Vec<StoredExtraHeader>) -> (r: Vec<(String, String)>)
    ensures
        crate::headers::pairs_view(r@) == stored_pairs(hs@),
{
    let mut out: Vec<(String, String)> = Vec::new();
    let mut i: usize = 0;
    while i < hs.len()
        invariant
            0 <= i <= hs@.len(),
            crate::headers::pairs_view(out@) == stored_pairs(hs@.take(i as int)),
        decreases hs.len() - i,
    {
        out.push((owned(hs[i].name.as_str()), owned(hs[i].value.as_str())));
        assert(stored_pairs(hs@.take(i + 1)) =~= stored_pairs(hs@.take(i as int)).push(
            (hs@[i as int].name@, hs@[i as int].value@),
        ));
        assert(crate::headers::pairs_view(out@) =~= stored_pairs(hs@.take(i + 1)));
        i = i + 1;
    }
    assert(hs@.take(hs@.len() as int) == hs@);
    out
}


/// What `select_model` gives: the provider and model, or "not found" for either, or the
/// error of the stored base URL.
pub open spec fn select_outcome(d: SettingsDocument, pid: u128, mid: Seq<char>) -> Result<
    (int, int, Seq<char>),
    (Seq<char>, Seq<char>, bool),
> {
    match provider_index(d.providers@, pid) {
        None => Err(("not_found"@, "服务商不存在"@, false)),
        Some(i) => match model_index(d.providers@[i].models@, mid) {
            None => Err(("not_found"@, "模型不存在"@, false)),
            Some(j) => match base_url_outcome(d.providers@[i].base_url@) {
                Ok(h) => Ok((i, j, h)),
                Err(x) => Err((protocol_code(x.0), app_message_for(x.0, x.1), kind_retryable(x.0))),
            },
        },
    }
}

/// The provider and model of a chat, from the settings.
pub fn select_model(settings: &SettingsDocument, provider_id: u128, model_id: &str) -> (r: Result<
    SelectedModel,
    AppError,
>)
    ensures
        match select_outcome(*settings, provider_id, model_id@) {
            Ok((i, j, h)) => r matches Ok(s) && selected_from(
                s,
                settings.providers@[i],
                settings.providers@[i].models@[j],
                h,
            ),
            Err((code, msg, retry)) => r matches Err(e) && plain_app_error(e, code, msg, retry),
        },
{
    let i = match find_provider(&settings.providers, provider_id) {
        Some(i) => i,
        None => {
            return Err(AppError::new("not_found", owned("服务商不存在"), false));
        },
    };
    let provider = &settings.providers[i];
    let j = match find_model(&provider.models, model_id) {
        Some(j) => j,
        None => {
            return Err(AppError::new("not_found", owned("模型不存在"), false));
        },
    };
    let model = &provider.models[j];
    let mut endpoint = match endpoint_for(
        protocol_kind(provider.protocol),
        provider.base_url.as_str(),
        owned(provider.api_key.as_str()),
    ) {
        Ok(e) => e,
        Err(e) => {
            return Err(e);
        },
    };
    endpoint.auth = AuthOptions {
        extra_headers: copy_headers(&provider.extra_headers),
        api_key_query_param: copy_opt_string(&provider.api_key_query_param),
    };
    let stored_reasoning = match &model.reasoning {
        Some(x) => Some(
            StoredReasoningSettings {
                mode: owned(x.mode.as_str()),
                effort: copy_opt_string(&x.effort),
                budget_tokens: x.budget_tokens,
            },
        ),
        None => None,
    };
    let stored_tool_choice = match &provider.tool_choice {
        Some(c) => Some(StoredToolChoice { mode: owned(c.mode.as_str()), name: copy_opt_string(&c.name) }),
        None => None,
    };
    Ok(SelectedModel {
        endpoint,
        provider_id: provider.id,
        provider_name: owned(provider.name.as_str()),
        model_id: owned(model.id.as_str()),
        model_display_name: owned(model.display_name.as_str()),
        temperature: model.temperature,
        max_tokens: model.max_tokens,
        stored_reasoning,
        stored_tools: copy_tools(&provider.tools),
        stored_tool_choice,
    })
}

} // verus!
