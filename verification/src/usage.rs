//! Token usage extraction from provider wire JSON.

use vstd::prelude::*;

use crate::json::{as_u64, get, get_opt, jget, jget_opt, ju64, opt_ref, JsonValue};
use crate::types::TokenUsage;

verus! {

/// A JSON number read as `u64` and cut to its low 32 bits (`n as u32`).
pub open spec fn ju32(v: Option<JsonValue>) -> Option<u32> {
    match ju64(v) {
        Some(n) => Some(n as u32),
        None => None,
    }
}

/// The first of two optional values that is present.
pub open spec fn first_of(a: Option<u32>, b: Option<u32>) -> Option<u32> {
    match a {
        Some(x) => Some(x),
        None => b,
    }
}

/// The field `key` of `v`, read as a 32-bit count.
pub open spec fn count(v: JsonValue, key: Seq<char>) -> Option<u32> {
    ju32(jget(v, key))
}

/// The field `inner` of the object under `outer`, read as a 32-bit count.
pub open spec fn nested_count(v: JsonValue, outer: Seq<char>, inner: Seq<char>) -> Option<u32> {
    ju32(jget_opt(jget(v, outer), inner))
}

/// A usage record from five counts, absent when all five are absent.
pub open spec fn usage_of(
    prompt: Option<u32>,
    completion: Option<u32>,
    total: Option<u32>,
    reasoning: Option<u32>,
    cached: Option<u32>,
) -> Option<TokenUsage> {
    if prompt is None && completion is None && total is None && reasoning is None && cached is None {
        None
    } else {
        Some(
            TokenUsage {
                prompt_tokens: prompt,
                completion_tokens: completion,
                total_tokens: total,
                reasoning_tokens: reasoning,
                cached_tokens: cached,
            },
        )
    }
}

/// The OpenAI Chat Completions `usage` object.
pub open spec fn chat_usage(u: JsonValue) -> Option<TokenUsage> {
    usage_of(
        count(u, "prompt_tokens"@),
        count(u, "completion_tokens"@),
        count(u, "total_tokens"@),
        nested_count(u, "completion_tokens_details"@, "reasoning_tokens"@),
        nested_count(u, "prompt_tokens_details"@, "cached_tokens"@),
    )
}

/// The OpenAI Responses `response.usage` object (with the Chat Completions names as
/// fallbacks).
pub open spec fn responses_usage(u: JsonValue) -> Option<TokenUsage> {
    usage_of(
        first_of(count(u, "input_tokens"@), count(u, "prompt_tokens"@)),
        first_of(count(u, "output_tokens"@), count(u, "completion_tokens"@)),
        count(u, "total_tokens"@),
        nested_count(u, "output_tokens_details"@, "reasoning_tokens"@),
        nested_count(u, "input_tokens_details"@, "cached_tokens"@),
    )
}

/// `a + b`, saturated at `u32::MAX`.
pub open spec fn sat_add_u32(a: u32, b: u32) -> u32 {
    if a + b > u32::MAX {
        u32::MAX
    } else {
        (a + b) as u32
    }
}

/// Anthropic usage: the event's counts, overridden by those of the `usage` object, with
/// thinking and cache counts from it; the total is the saturated sum of input and output.
pub open spec fn anthropic_usage(
    input_tokens: Option<u32>,
    output_tokens: Option<u32>,
    usage: Option<JsonValue>,
) -> Option<TokenUsage> {
    let input = match usage {
        Some(u) => first_of(count(u, "input_tokens"@), input_tokens),
        None => input_tokens,
    };
    let output = match usage {
        Some(u) => first_of(count(u, "output_tokens"@), output_tokens),
        None => output_tokens,
    };
    let reasoning = match usage {
        Some(u) => nested_count(u, "output_tokens_details"@, "thinking_tokens"@),
        None => None,
    };
    let cached = match usage {
        Some(u) => first_of(
            count(u, "cache_read_input_tokens"@),
            count(u, "cache_creation_input_tokens"@),
        ),
        None => None,
    };
    if input is None && output is None && reasoning is None && cached is None {
        None
    } else {
        let total = match (input, output) {
            (Some(i), Some(o)) => Some(sat_add_u32(i, o)),
            _ => None,
        };
        Some(
            TokenUsage {
                prompt_tokens: input,
                completion_tokens: output,
                total_tokens: total,
                reasoning_tokens: reasoning,
                cached_tokens: cached,
            },
        )
    }
}

/// The Gemini `usageMetadata` object (camelCase, with snake_case fallbacks).
pub open spec fn gemini_usage(u: JsonValue) -> Option<TokenUsage> {
    usage_of(
        first_of(count(u, "promptTokenCount"@), count(u, "prompt_token_count"@)),
        first_of(count(u, "candidatesTokenCount"@), count(u, "candidates_token_count"@)),
        first_of(count(u, "totalTokenCount"@), count(u, "total_token_count"@)),
        first_of(count(u, "thoughtsTokenCount"@), count(u, "thoughts_token_count"@)),
        first_of(count(u, "cachedContentTokenCount"@), count(u, "cached_content_token_count"@)),
    )
}

fn as_u32(value: Option<&JsonValue>) -> (r: Option<u32>)
    ensures
        r == ju32(opt_ref(value)),
{
    match as_u64(value) {
        Some(n) => Some(n as u32),
        None => None,
    }
}

pub fn field_count(usage: &JsonValue, key: &str) -> (r: Option<u32>)
    ensures
        r == count(*usage, key@),
{
    as_u32(get(usage, key))
}

fn nested_field_count(usage: &JsonValue, outer: &str, inner: &str) -> (r: Option<u32>)
    ensures
        r == nested_count(*usage, outer@, inner@),
{
    as_u32(get_opt(get(usage, outer), inner))
}

fn either(a: Option<u32>, b: Option<u32>) -> (r: Option<u32>)
    ensures
        r == first_of(a, b),
{
    match a {
        Some(x) => Some(x),
        None => b,
    }
}

fn usage_from(
    prompt: Option<u32>,
    completion: Option<u32>,
    total: Option<u32>,
    reasoning: Option<u32>,
    cached: Option<u32>,
) -> (r: Option<TokenUsage>)
    ensures
        r == usage_of(prompt, completion, total, reasoning, cached),
{
    if prompt.is_none() && completion.is_none() && total.is_none() && reasoning.is_none()
        && cached.is_none() {
        return None;
    }
    Some(
        TokenUsage {
            prompt_tokens: prompt,
            completion_tokens: completion,
            total_tokens: total,
            reasoning_tokens: reasoning,
            cached_tokens: cached,
        },
    )
}

/// OpenAI Chat Completions `usage` object.
pub fn from_openai_chat_usage(usage: &JsonValue) -> (r: Option<TokenUsage>)
    ensures
        r == chat_usage(*usage),
{
    let prompt = field_count(usage, "prompt_tokens");
    let completion = field_count(usage, "completion_tokens");
    let total = field_count(usage, "total_tokens");
    let reasoning = nested_field_count(usage, "completion_tokens_details", "reasoning_tokens");
    let cached = nested_field_count(usage, "prompt_tokens_details", "cached_tokens");
    usage_from(prompt, completion, total, reasoning, cached)
}

/// OpenAI Responses `response.usage` object.
pub fn from_openai_responses_usage(usage: &JsonValue) -> (r: Option<TokenUsage>)
    ensures
        r == responses_usage(*usage),
{
    let prompt = either(field_count(usage, "input_tokens"), field_count(usage, "prompt_tokens"));
    let completion = either(
        field_count(usage, "output_tokens"),
        field_count(usage, "completion_tokens"),
    );
    let total = field_count(usage, "total_tokens");
    let reasoning = nested_field_count(usage, "output_tokens_details", "reasoning_tokens");
    let cached = nested_field_count(usage, "input_tokens_details", "cached_tokens");
    usage_from(prompt, completion, total, reasoning, cached)
}

/// Anthropic Messages usage fields (`input_tokens` / `output_tokens` + optional details).
pub fn from_anthropic_usage(
    input_tokens: Option<u32>,
    output_tokens: Option<u32>,
    usage: Option<&JsonValue>,
) -> (r: Option<TokenUsage>)
    ensures
        r == anthropic_usage(input_tokens, output_tokens, opt_ref(usage)),
{
    let mut input = input_tokens;
    let mut output = output_tokens;
    let mut reasoning: Option<u32> = None;
    let mut cached: Option<u32> = None;
    if let Some(u) = usage {
        if let Some(n) = field_count(u, "input_tokens") {
            input = Some(n);
        }
        if let Some(n) = field_count(u, "output_tokens") {
            output = Some(n);
        }
        reasoning = nested_field_count(u, "output_tokens_details", "thinking_tokens");
        cached = either(
            field_count(u, "cache_read_input_tokens"),
            field_count(u, "cache_creation_input_tokens"),
        );
    }
    if input.is_none() && output.is_none() && reasoning.is_none() && cached.is_none() {
        return None;
    }
    let total = match (input, output) {
        (Some(i), Some(o)) => {
            if i as u64 + o as u64 > u32::MAX as u64 {
                Some(u32::MAX)
            } else {
                Some(i + o)
            }
        },
        _ => None,
    };
    Some(
        TokenUsage {
            prompt_tokens: input,
            completion_tokens: output,
            total_tokens: total,
            reasoning_tokens: reasoning,
            cached_tokens: cached,
        },
    )
}

/// Gemini `usageMetadata` object (camelCase wire).
pub fn from_gemini_usage_metadata(usage: &JsonValue) -> (r: Option<TokenUsage>)
    ensures
        r == gemini_usage(*usage),
{
    let prompt = either(
        field_count(usage, "promptTokenCount"),
        field_count(usage, "prompt_token_count"),
    );
    let completion = either(
        field_count(usage, "candidatesTokenCount"),
        field_count(usage, "candidates_token_count"),
    );
    let total = either(field_count(usage, "totalTokenCount"), field_count(usage, "total_token_count"));
    let reasoning = either(
        field_count(usage, "thoughtsTokenCount"),
        field_count(usage, "thoughts_token_count"),
    );
    let cached = either(
        field_count(usage, "cachedContentTokenCount"),
        field_count(usage, "cached_content_token_count"),
    );
    usage_from(prompt, completion, total, reasoning, cached)
}

} // verus!
