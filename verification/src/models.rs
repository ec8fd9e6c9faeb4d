//! Model listing: the capabilities each protocol declares and the model lists that
//! providers return.

use vstd::prelude::*;

use crate::error::{ProtocolError, ProtocolErrorKind};
use crate::json::{as_array, as_str, get, jarray, jget, jstr, opt_ref, parse_json_bytes, refs_seq, JsonValue, json_parse_bytes};
use crate::text::{chars_of, owned, push_str, starts_with_chars, str_eq, string_of_range, trim, trim_str};
use crate::types::{ModelInfo, ProtocolCapabilities, ProtocolKind};
use crate::wire::{opt_seq, wire_err_is, wire_error, WireErr};

verus! {

/// The capabilities of a protocol's adapter. All four stream, list models, report
/// reasoning, take tools, images, custom headers and a query-string key, and report usage;
/// only Chat Completions has no reasoning control.
pub open spec fn capabilities_of(protocol: ProtocolKind) -> ProtocolCapabilities {
    ProtocolCapabilities {
        streaming: true,
        list_models: true,
        reasoning_output: true,
        reasoning_control: !(protocol is OpenAiChatCompletions),
        tools: true,
        vision_input: true,
        stream_usage: true,
        custom_headers: true,
        api_key_query: true,
    }
}

/// The capabilities of the adapter for `protocol`.
pub fn protocol_capabilities(protocol: ProtocolKind) -> (c: ProtocolCapabilities)
    ensures
        c == capabilities_of(protocol),
{
    ProtocolCapabilities {
        streaming: true,
        list_models: true,
        reasoning_output: true,
        reasoning_control: match protocol {
            ProtocolKind::OpenAiChatCompletions => false,
            _ => true,
        },
        tools: true,
        vision_input: true,
        stream_usage: true,
        custom_headers: true,
        api_key_query: true,
    }
}

/// A protocol's capabilities as the window reads them, under the protocol's stored name.
#[derive(Debug, Clone)]
pub struct ProtocolCapabilitiesPayload {
    pub protocol: String,
    pub streaming: bool,
    pub list_models: bool,
    pub reasoning_output: bool,
    pub reasoning_control: bool,
    pub tools: bool,
    pub vision_input: bool,
    pub stream_usage: bool,
    pub custom_headers: bool,
    pub api_key_query: bool,
}

/// The stored name of a protocol.
pub open spec fn protocol_wire_name(protocol: ProtocolKind) -> Seq<char> {
    match protocol {
        ProtocolKind::OpenAiChatCompletions => "openai_chat_completions"@,
        ProtocolKind::OpenAiResponses => "openai_responses"@,
        ProtocolKind::AnthropicMessages => "anthropic_messages"@,
        ProtocolKind::GeminiGenerateContent => "gemini_generate_content"@,
    }
}

/// The stored name of a protocol.
pub fn protocol_name(protocol: ProtocolKind) -> (s: &'static str)
    ensures
        s@ == protocol_wire_name(protocol),
{
    match protocol {
        ProtocolKind::OpenAiChatCompletions => "openai_chat_completions",
        ProtocolKind::OpenAiResponses => "openai_responses",
        ProtocolKind::AnthropicMessages => "anthropic_messages",
        ProtocolKind::GeminiGenerateContent => "gemini_generate_content",
    }
}

/// The capabilities payload of a protocol: its stored name and its adapter's flags.
pub fn capabilities_payload(protocol: ProtocolKind) -> (p: ProtocolCapabilitiesPayload)
    ensures
        p.protocol@ == protocol_wire_name(protocol),
        ({
            let c = capabilities_of(protocol);
            &&& p.streaming == c.streaming && p.list_models == c.list_models
            &&& p.reasoning_output == c.reasoning_output && p.reasoning_control == c.reasoning_control
            &&& p.tools == c.tools && p.vision_input == c.vision_input
            &&& p.stream_usage == c.stream_usage && p.custom_headers == c.custom_headers
            &&& p.api_key_query == c.api_key_query
        }),
{
    let c = protocol_capabilities(protocol);
    ProtocolCapabilitiesPayload {
        protocol: owned(protocol_name(protocol)),
        streaming: c.streaming,
        list_models: c.list_models,
        reasoning_output: c.reasoning_output,
        reasoning_control: c.reasoning_control,
        tools: c.tools,
        vision_input: c.vision_input,
        stream_usage: c.stream_usage,
        custom_headers: c.custom_headers,
        api_key_query: c.api_key_query,
    }
}

/// An optional text, trimmed.
pub open spec fn opt_trim(o: Option<Seq<char>>) -> Option<Seq<char>> {
    match o {
        Some(s) => Some(trim(s)),
        None => None,
    }
}

/// A text that is present and not empty.
pub open spec fn present(o: Option<Seq<char>>) -> Option<Seq<char>> {
    match o {
        Some(s) => if s.len() > 0 {
            Some(s)
        } else {
            None
        },
        None => None,
    }
}

/// A Gemini model name without its `models/` prefix (trimmed first).
pub open spec fn strip_models(name: Seq<char>) -> Seq<char> {
    let t = trim(name);
    if t.len() >= 7 && t.take(7) == "models/"@ {
        t.skip(7)
    } else {
        t
    }
}

/// The member that holds the list: `models` for Gemini, `data` for the others.
pub open spec fn list_key(protocol: ProtocolKind) -> Seq<char> {
    if protocol is GeminiGenerateContent {
        "models"@
    } else {
        "data"@
    }
}

/// The error for a body without the list.
pub open spec fn missing_list_message(protocol: ProtocolKind) -> Seq<char> {
    if protocol is GeminiGenerateContent {
        "模型列表缺少 models 数组"@
    } else {
        "模型列表缺少 data 数组"@
    }
}

/// An item's model id: its trimmed, non-empty `id` (for Gemini: its trimmed, non-empty
/// `name` without the `models/` prefix, if anything is left).
pub open spec fn model_id(protocol: ProtocolKind, item: JsonValue) -> Option<Seq<char>> {
    if protocol is GeminiGenerateContent {
        match present(opt_trim(jstr(jget(item, "name"@)))) {
            Some(n) => present(Some(strip_models(n))),
            None => None,
        }
    } else {
        present(opt_trim(jstr(jget(item, "id"@))))
    }
}

/// A model as the contracts see it: id, display name, owner.
pub type ModelV = (Seq<char>, Seq<char>, Option<Seq<char>>);

/// The first text if present, else the second.
pub open spec fn or_else(a: Option<Seq<char>>, b: Seq<char>) -> Seq<char> {
    match a {
        Some(x) => x,
        None => b,
    }
}

/// The model an item describes: OpenAI lists give the id as display name and keep
/// `owned_by`; Anthropic and Gemini take the trimmed display name when there is one.
pub open spec fn model_entry(protocol: ProtocolKind, item: JsonValue, id: Seq<char>) -> ModelV {
    match protocol {
        ProtocolKind::AnthropicMessages => (
            id,
            or_else(present(opt_trim(jstr(jget(item, "display_name"@)))), id),
            None,
        ),
        ProtocolKind::GeminiGenerateContent => (
            id,
            or_else(present(opt_trim(jstr(jget(item, "displayName"@)))), id),
            None,
        ),
        _ => (id, id, jstr(jget(item, "owned_by"@))),
    }
}

/// The ids of a model list.
pub open spec fn model_ids(ms: Seq<ModelV>) -> Seq<Seq<char>> {
    ms.map_values(|m: ModelV| m.0)
}

/// The models of a list, in order: items without an id skipped, and each id kept once
/// (its first item).
pub open spec fn models_of(protocol: ProtocolKind, items: Seq<JsonValue>) -> Seq<ModelV>
    decreases items.len(),
{
    if items.len() == 0 {
        seq![]
    } else {
        let prev = models_of(protocol, items.drop_last());
        let it = items.last();
        match model_id(protocol, it) {
            None => prev,
            Some(id) => if model_ids(prev).contains(id) {
                prev
            } else {
                prev.push(model_entry(protocol, it, id))
            },
        }
    }
}

/// What `parse_models_body` gives for a response body.
pub open spec fn models_outcome(protocol: ProtocolKind, body: Seq<u8>) -> Result<Seq<ModelV>, WireErr> {
    match json_parse_bytes(body) {
        Err(m) => Err((ProtocolErrorKind::Decode, "模型列表 JSON 无效: "@ + m)),
        Ok(v) => match jarray(jget(v, list_key(protocol))) {
            None => Err((ProtocolErrorKind::Decode, missing_list_message(protocol))),
            Some(items) => Ok(models_of(protocol, items)),
        },
    }
}

/// A model's view.
pub open spec fn model_view(m: ModelInfo) -> ModelV {
    (m.id@, m.display_name@, opt_seq(m.owned_by))
}

/// The views of a list of models.
pub open spec fn models_view(v: Seq<ModelInfo>) -> Seq<ModelV> {
    v.map_values(|m: ModelInfo| model_view(m))
}

/// A Gemini model name without its `models/` prefix (trimmed first).
pub fn strip_models_prefix(name: &str) -> (r: String)
    ensures
        r@ == strip_models(name@),
{
    let t = trim_str(name);
    let v = chars_of(t.as_str());
    let prefix = chars_of("models/");
    proof {
        reveal_strlit("models/");
    }
    if starts_with_chars(v.as_slice(), prefix.as_slice()) {
        let r = string_of_range(v.as_slice(), 7, v.len());
        assert(v@.subrange(7, v@.len() as int) == v@.skip(7));
        assert(v@.take(7) == prefix@);
        r
    } else {
        proof {
            if v@.len() >= 7 && v@.take(7) == "models/"@ {
                assert(prefix@.is_prefix_of(v@));
            }
        }
        t
    }
}

/// A present string member, trimmed, when not empty.
fn trimmed_member(item: &JsonValue, key: &str) -> (r: Option<String>)
    ensures
        opt_seq(r) == present(opt_trim(jstr(jget(*item, key@)))),
{
    match as_str(get(item, key)) {
        Some(s) => {
            let t = trim_str(s);
            if t.as_str().is_empty() {
                None
            } else {
                Some(t)
            }
        },
        None => None,
    }
}

fn has_model(models: &Vec<ModelInfo>, id: &str) -> (b: bool)
    ensures
        b == model_ids(models_view(models@)).contains(id@),
{
    let mut i: usize = 0;
    while i < models.len()
        invariant
            0 <= i <= models@.len(),
            forall|j: int| 0 <= j < i ==> models@[j].id@ != id@,
        decreases models.len() - i,
    {
        if str_eq(models[i].id.as_str(), id) {
            assert(model_ids(models_view(models@))[i as int] == id@);
            return true;
        }
        i = i + 1;
    }
    proof {
        if model_ids(models_view(models@)).contains(id@) {
            let j = choose|j: int| 0 <= j < models@.len() && model_ids(models_view(models@))[j] == id@;
            assert(models@[j].id@ == id@);
        }
    }
    false
}

/// The model an item describes (its id already read).
fn model_of(protocol: ProtocolKind, item: &JsonValue, id: String) -> (m: ModelInfo)
    ensures
        model_view(m) == model_entry(protocol, *item, id@),
{
    match protocol {
        ProtocolKind::AnthropicMessages => {
            let display_name = match trimmed_member(item, "display_name") {
                Some(d) => d,
                None => owned(id.as_str()),
            };
            ModelInfo { id, display_name, owned_by: None }
        },
        ProtocolKind::GeminiGenerateContent => {
            let display_name = match trimmed_member(item, "displayName") {
                Some(d) => d,
                None => owned(id.as_str()),
            };
            ModelInfo { id, display_name, owned_by: None }
        },
        _ => {
            let owned_by = match as_str(get(item, "owned_by")) {
                Some(o) => Some(owned(o)),
                None => None,
            };
            let display_name = owned(id.as_str());
            ModelInfo { id, display_name, owned_by }
        },
    }
}

/// An item's model id.
fn item_model_id(protocol: ProtocolKind, item: &JsonValue) -> (r: Option<String>)
    ensures
        opt_seq(r) == model_id(protocol, *item),
{
    match protocol {
        ProtocolKind::GeminiGenerateContent => match trimmed_member(item, "name") {
            Some(n) => {
                let id = strip_models_prefix(n.as_str());
                if id.as_str().is_empty() {
                    None
                } else {
                    Some(id)
                }
            },
            None => None,
        },
        _ => trimmed_member(item, "id"),
    }
}

/// Parse a provider's model list: `data` (Gemini: `models`) must be an array; items
/// without an id are skipped and each id is kept once, in order.
pub fn parse_models_body(protocol: ProtocolKind, body: &[u8]) -> (r: Result<Vec<ModelInfo>, ProtocolError>)
    ensures
        match models_outcome(protocol, body@) {
            Ok(ms) => r matches Ok(v) && models_view(v@) == ms,
            Err(e) => r matches Err(x) && wire_err_is(x, e),
        },
{
    let value = match parse_json_bytes(body) {
        Ok(v) => v,
        Err(m) => {
            let mut message = owned("模型列表 JSON 无效: ");
            push_str(&mut message, m.as_str());
            return Err(ProtocolError::new(ProtocolErrorKind::Decode, message));
        },
    };
    let key = match protocol {
        ProtocolKind::GeminiGenerateContent => "models",
        _ => "data",
    };
    proof {
        reveal_strlit("models");
        reveal_strlit("data");
    }
    let items = match as_array(get(&value, key)) {
        Some(a) => a,
        None => {
            return Err(
                match protocol {
                    ProtocolKind::GeminiGenerateContent => wire_error(
                        ProtocolErrorKind::Decode,
                        "模型列表缺少 models 数组",
                    ),
                    _ => wire_error(ProtocolErrorKind::Decode, "模型列表缺少 data 数组"),
                },
            );
        },
    };
    let ghost iv = refs_seq(items@);
    let mut out: Vec<ModelInfo> = Vec::new();
    let mut i: usize = 0;
    while i < items.len()
        invariant
            0 <= i <= items@.len(),
            iv == refs_seq(items@),
            models_view(out@) == models_of(protocol, iv.take(i as int)),
        decreases items.len() - i,
    {
        let item = items[i];
        proof {
            assert(iv.take(i + 1).drop_last() == iv.take(i as int));
            assert(iv.take(i + 1).last() == *item);
        }
        match item_model_id(protocol, item) {
            None => {},
            Some(id) => {
                if !has_model(&out, id.as_str()) {
                    let m = model_of(protocol, item, id);
                    out.push(m);
                    assert(models_view(out@) =~= models_of(protocol, iv.take(i as int)).push(model_view(m)));
                }
            },
        }
        i = i + 1;
    }
    assert(iv.take(iv.len() as int) == iv);
    Ok(out)
}

/// A listed model id appears once: the list holds no two models with the same id.
pub proof fn law_model_ids_unique(protocol: ProtocolKind, items: Seq<JsonValue>)
    ensures
        model_ids(models_of(protocol, items)).no_duplicates(),
    decreases items.len(),
{
    if items.len() > 0 {
        law_model_ids_unique(protocol, items.drop_last());
        let prev = models_of(protocol, items.drop_last());
        match model_id(protocol, items.last()) {
            None => {},
            Some(id) => {
                if !model_ids(prev).contains(id) {
                    let e = model_entry(protocol, items.last(), id);
                    assert(model_ids(prev.push(e)) =~= model_ids(prev).push(id));
                }
            },
        }
    }
}

} // verus!
