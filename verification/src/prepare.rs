//! What each protocol adapter decides before it sends a request: the protocol check, the
//! request and capability checks, the URL, the JSON body and the headers.

use vstd::prelude::*;

use reqwest::header::HeaderMap;

use crate::endpoint::{
    apply_api_key_query, join_api_path, join_outcome, key_query_outcome, stream_generate_content_url,
    stream_url_outcome, ApiUrl, ProviderEndpoint,
};
use crate::error::{ProtocolError, ProtocolErrorKind};
use crate::headers::{auth_headers, auth_headers_outcome, header_entries, pairs_view};
use crate::json::{jv, JsonValue, JV};
use crate::models::{capabilities_of, protocol_capabilities};
use crate::types::{capability_error, request_error, request_estimates_defined, ChatRequest, ProtocolKind};
use crate::wire::{opt_seq, wire_err_is, wire_error, WireErr};

verus! {

/// A chat request ready to send: where, with which headers, and the JSON body.
pub struct PreparedChat {
    pub url: ApiUrl,
    pub headers: HeaderMap,
    pub body: JsonValue,
}

/// A model-list request ready to send.
pub struct PreparedList {
    pub url: ApiUrl,
    pub headers: HeaderMap,
}

/// The API path of each protocol's chat endpoint (Gemini's is built from the model).
pub open spec fn chat_path(protocol: ProtocolKind) -> Seq<char> {
    match protocol {
        ProtocolKind::OpenAiChatCompletions => "chat/completions"@,
        ProtocolKind::OpenAiResponses => "responses"@,
        ProtocolKind::AnthropicMessages => "messages"@,
        ProtocolKind::GeminiGenerateContent => "models"@,
    }
}

/// The body each protocol sends for a request.
pub open spec fn wire_body(protocol: ProtocolKind, req: ChatRequest) -> Result<JV, WireErr> {
    match protocol {
        ProtocolKind::OpenAiChatCompletions => crate::openai_wire::chat_body(req),
        ProtocolKind::OpenAiResponses => crate::responses_wire::responses_body(req),
        ProtocolKind::AnthropicMessages => crate::anthropic_wire::anthropic_body(req),
        ProtocolKind::GeminiGenerateContent => crate::gemini_wire::gemini_body(req),
    }
}

/// The chat URL before the key is added: the protocol's path joined onto the base URL,
/// or for Gemini the model's streaming URL.
pub open spec fn chat_url(protocol: ProtocolKind, base: Seq<char>, model: Seq<char>) -> Result<Seq<char>, WireErr> {
    if protocol is GeminiGenerateContent {
        stream_url_outcome(base, model)
    } else {
        join_outcome(base, chat_path(protocol))
    }
}

/// The refusal of an endpoint configured for another protocol.
pub open spec fn wrong_protocol() -> WireErr {
    (ProtocolErrorKind::Unsupported, "协议不受支持"@)
}

/// What `prepare_chat` gives: the URL (with the key in the query where configured), the
/// body and the headers, or the first error: protocol mismatch, invalid request,
/// unsupported capability, URL, body, headers.
pub open spec fn prepare_outcome(protocol: ProtocolKind, endpoint: ProviderEndpoint, req: ChatRequest) -> Result<
    (Seq<char>, JV, Map<Seq<char>, Seq<char>>),
    WireErr,
> {
    if endpoint.protocol != protocol {
        Err(wrong_protocol())
    } else if request_error(req) is Some {
        Err((ProtocolErrorKind::InvalidRequest, request_error(req).unwrap()))
    } else if capability_error(req, capabilities_of(protocol)) is Some {
        Err((ProtocolErrorKind::Unsupported, capability_error(req, capabilities_of(protocol)).unwrap()))
    } else {
        match chat_url(protocol, endpoint.base_url@, req.model@) {
            Err(e) => Err(e),
            Ok(h) => match wire_body(protocol, req) {
                Err(e) => Err(e),
                Ok(b) => match auth_headers_outcome(
                    protocol,
                    endpoint.api_key@,
                    true,
                    pairs_view(endpoint.auth.extra_headers@),
                ) {
                    Err(e) => Err(e),
                    Ok(m) => Ok(
                        (
                            key_query_outcome(
                                h,
                                opt_seq(endpoint.auth.api_key_query_param),
                                endpoint.api_key@,
                            ),
                            b,
                            m,
                        ),
                    ),
                },
            },
        }
    }
}

/// `x` is the error `e` by kind and message.
pub open spec fn error_matches(x: ProtocolError, e: WireErr) -> bool {
    x.kind == e.0 && x.message@ == e.1
}

/// The body for a request in `protocol`'s wire format.
fn encode_body(protocol: ProtocolKind, request: &ChatRequest) -> (r: Result<JsonValue, ProtocolError>)
    ensures
        crate::wire::encoded_is(r, wire_body(protocol, *request)),
{
    match protocol {
        ProtocolKind::OpenAiChatCompletions => crate::openai_wire::chat_completions_body(request),
        ProtocolKind::OpenAiResponses => crate::responses_wire::responses_request_body(request),
        ProtocolKind::AnthropicMessages => crate::anthropic_wire::messages_body(request),
        ProtocolKind::GeminiGenerateContent => crate::gemini_wire::generate_content_body(request),
    }
}

/// Everything a protocol adapter decides before sending a chat request.
pub fn prepare_chat(protocol: ProtocolKind, endpoint: &ProviderEndpoint, request: &ChatRequest) -> (r: Result<
    PreparedChat,
    ProtocolError,
>)
    requires
        request_estimates_defined(*request),
    ensures
        match prepare_outcome(protocol, *endpoint, *request) {
            Ok((u, b, m)) => r matches Ok(p) && p.url@ == u && jv(p.body) == b && header_entries(
                p.headers,
            ) == m,
            Err(e) => r matches Err(x) && error_matches(x, e),
        },
{
    if endpoint.protocol != protocol {
        return Err(wire_error(ProtocolErrorKind::Unsupported, "协议不受支持"));
    }
    match request.validate() {
        Ok(()) => {},
        Err(e) => {
            return Err(e);
        },
    }
    let caps = protocol_capabilities(protocol);
    match request.check_capabilities(&caps) {
        Ok(()) => {},
        Err(e) => {
            return Err(e);
        },
    }
    let joined = match protocol {
        ProtocolKind::GeminiGenerateContent => stream_generate_content_url(
            &endpoint.base_url,
            request.model.as_str(),
        ),
        ProtocolKind::OpenAiChatCompletions => join_api_path(&endpoint.base_url, "chat/completions"),
        ProtocolKind::OpenAiResponses => join_api_path(&endpoint.base_url, "responses"),
        ProtocolKind::AnthropicMessages => join_api_path(&endpoint.base_url, "messages"),
    };
    let url = match joined {
        Ok(u) => apply_api_key_query(u, endpoint),
        Err(e) => {
            return Err(e);
        },
    };
    let body = match encode_body(protocol, request) {
        Ok(b) => b,
        Err(e) => {
            return Err(e);
        },
    };
    let headers = match auth_headers(protocol, endpoint, true) {
        Ok(h) => h,
        Err(e) => {
            return Err(e);
        },
    };
    Ok(PreparedChat { url, headers, body })
}

/// What `prepare_list_models` gives: `…/models` with the key in the query where
/// configured, and the headers without the event-stream `accept`.
pub open spec fn list_outcome(protocol: ProtocolKind, endpoint: ProviderEndpoint) -> Result<
    (Seq<char>, Map<Seq<char>, Seq<char>>),
    WireErr,
> {
    if endpoint.protocol != protocol {
        Err(wrong_protocol())
    } else {
        match join_outcome(endpoint.base_url@, "models"@) {
            Err(e) => Err(e),
            Ok(h) => match auth_headers_outcome(
                protocol,
                endpoint.api_key@,
                false,
                pairs_view(endpoint.auth.extra_headers@),
            ) {
                Err(e) => Err(e),
                Ok(m) => Ok(
                    (key_query_outcome(h, opt_seq(endpoint.auth.api_key_query_param), endpoint.api_key@), m),
                ),
            },
        }
    }
}

/// Everything a protocol adapter decides before requesting the model list.
pub fn prepare_list_models(protocol: ProtocolKind, endpoint: &ProviderEndpoint) -> (r: Result<
    PreparedList,
    ProtocolError,
>)
    ensures
        match list_outcome(protocol, *endpoint) {
            Ok((u, m)) => r matches Ok(p) && p.url@ == u && header_entries(p.headers) == m,
            Err(e) => r matches Err(x) && wire_err_is(x, e),
        },
{
    if endpoint.protocol != protocol {
        return Err(wire_error(ProtocolErrorKind::Unsupported, "协议不受支持"));
    }
    let url = match join_api_path(&endpoint.base_url, "models") {
        Ok(u) => apply_api_key_query(u, endpoint),
        Err(e) => {
            return Err(e);
        },
    };
    let headers = match auth_headers(protocol, endpoint, false) {
        Ok(h) => h,
        Err(e) => {
            return Err(e);
        },
    };
    Ok(PreparedList { url, headers })
}

} // verus!
