//! Protocol-specific finish-reason tables.
//!
//! Public streams only expose [`FinishReason`]; raw provider strings are not part of the API.

use vstd::prelude::*;

use crate::text::{ascii_upper, owned, upper_str};
use crate::types::{is_lit, normalize_raw, normalized, FinishReason, FinishView};

verus! {

/// The OpenAI Chat Completions table for `choices[].finish_reason`.
pub open spec fn chat_completions_finish(raw: Option<Seq<char>>) -> FinishView {
    match normalized(raw) {
        None => FinishView::Other("unknown"@),
        Some(s) => {
            if s == "stop"@ {
                FinishView::Stop
            } else if s == "length"@ {
                FinishView::Length
            } else if s == "content_filter"@ {
                FinishView::ContentFilter
            } else if s == "tool_calls"@ || s == "function_call"@ {
                FinishView::ToolCalls
            } else {
                FinishView::Other(s)
            }
        },
    }
}

/// The OpenAI Responses table for a terminal status or incomplete reason.
pub open spec fn responses_finish(raw: Option<Seq<char>>) -> FinishView {
    match normalized(raw) {
        None => FinishView::Other("unknown"@),
        Some(s) => {
            if s == "stop"@ || s == "completed"@ {
                FinishView::Stop
            } else if s == "max_output_tokens"@ || s == "length"@ {
                FinishView::Length
            } else if s == "content_filter"@ || s == "content_filter_policy"@ {
                FinishView::ContentFilter
            } else if s == "tool_calls"@ || s == "function_call"@ || s == "tool_use"@ || s
                == "required_tool"@ {
                FinishView::ToolCalls
            } else {
                FinishView::Other(s)
            }
        },
    }
}

/// The Anthropic Messages table for `stop_reason`; a missing reason ends the turn.
pub open spec fn anthropic_finish(raw: Option<Seq<char>>) -> FinishView {
    match normalized(raw) {
        None => FinishView::Stop,
        Some(s) => {
            if s == "end_turn"@ || s == "stop_sequence"@ {
                FinishView::Stop
            } else if s == "max_tokens"@ {
                FinishView::Length
            } else if s == "tool_use"@ {
                FinishView::ToolCalls
            } else if s == "refusal"@ {
                FinishView::ContentFilter
            } else {
                FinishView::Other(s)
            }
        },
    }
}

/// The Gemini table for `candidates[].finishReason`, compared in upper case.
pub open spec fn gemini_finish(raw: Option<Seq<char>>) -> FinishView {
    match normalized(raw) {
        None => FinishView::Other("unknown"@),
        Some(s) => {
            let u = ascii_upper(s);
            if u == "STOP"@ {
                FinishView::Stop
            } else if u == "MAX_TOKENS"@ {
                FinishView::Length
            } else if u == "SAFETY"@ || u == "BLOCKLIST"@ || u == "PROHIBITED_CONTENT"@ || u
                == "SPII"@ || u == "IMAGE_SAFETY"@ {
                FinishView::ContentFilter
            } else if u == "TOOL_CALL"@ || u == "TOOL_CALLS"@ || u == "FUNCTION_CALL"@ || u
                == "MALFORMED_FUNCTION_CALL"@ {
                FinishView::ToolCalls
            } else {
                FinishView::Other(u)
            }
        },
    }
}

/// OpenAI Chat Completions `choices[].finish_reason`.
pub fn openai_chat_completions(raw: Option<&str>) -> (f: FinishReason)
    ensures
        f@ == chat_completions_finish(raw.deep_view()),
{
    let n = match normalize_raw(raw) {
        None => {
            return FinishReason::Other(owned("unknown"));
        },
        Some(n) => n,
    };
    let s = n.as_str();
    if is_lit(s, "stop") {
        FinishReason::Stop
    } else if is_lit(s, "length") {
        FinishReason::Length
    } else if is_lit(s, "content_filter") {
        FinishReason::ContentFilter
    } else if is_lit(s, "tool_calls") || is_lit(s, "function_call") {
        FinishReason::ToolCalls
    } else {
        FinishReason::Other(n)
    }
}

/// OpenAI Responses terminal status / incomplete reason.
pub fn openai_responses(raw: Option<&str>) -> (f: FinishReason)
    ensures
        f@ == responses_finish(raw.deep_view()),
{
    let n = match normalize_raw(raw) {
        None => {
            return FinishReason::Other(owned("unknown"));
        },
        Some(n) => n,
    };
    let s = n.as_str();
    if is_lit(s, "stop") || is_lit(s, "completed") {
        FinishReason::Stop
    } else if is_lit(s, "max_output_tokens") || is_lit(s, "length") {
        FinishReason::Length
    } else if is_lit(s, "content_filter") || is_lit(s, "content_filter_policy") {
        FinishReason::ContentFilter
    } else if is_lit(s, "tool_calls") || is_lit(s, "function_call") || is_lit(s, "tool_use")
        || is_lit(s, "required_tool") {
        FinishReason::ToolCalls
    } else {
        FinishReason::Other(n)
    }
}

/// Anthropic Messages `stop_reason`.
pub fn anthropic_messages(raw: Option<&str>) -> (f: FinishReason)
    ensures
        f@ == anthropic_finish(raw.deep_view()),
{
    let n = match normalize_raw(raw) {
        None => {
            return FinishReason::Stop;
        },
        Some(n) => n,
    };
    let s = n.as_str();
    if is_lit(s, "end_turn") || is_lit(s, "stop_sequence") {
        FinishReason::Stop
    } else if is_lit(s, "max_tokens") {
        FinishReason::Length
    } else if is_lit(s, "tool_use") {
        FinishReason::ToolCalls
    } else if is_lit(s, "refusal") {
        FinishReason::ContentFilter
    } else {
        FinishReason::Other(n)
    }
}

/// Gemini `candidates[].finishReason`; the comparison ignores ASCII case.
pub fn gemini_generate_content(raw: Option<&str>) -> (f: FinishReason)
    ensures
        f@ == gemini_finish(raw.deep_view()),
{
    let n = match normalize_raw(raw) {
        None => {
            return FinishReason::Other(owned("unknown"));
        },
        Some(n) => n,
    };
    let u = upper_str(n.as_str());
    let s = u.as_str();
    if is_lit(s, "STOP") {
        FinishReason::Stop
    } else if is_lit(s, "MAX_TOKENS") {
        FinishReason::Length
    } else if is_lit(s, "SAFETY") || is_lit(s, "BLOCKLIST") || is_lit(s, "PROHIBITED_CONTENT")
        || is_lit(s, "SPII") || is_lit(s, "IMAGE_SAFETY") {
        FinishReason::ContentFilter
    } else if is_lit(s, "TOOL_CALL") || is_lit(s, "TOOL_CALLS") || is_lit(s, "FUNCTION_CALL")
        || is_lit(s, "MALFORMED_FUNCTION_CALL") {
        FinishReason::ToolCalls
    } else {
        FinishReason::Other(u)
    }
}

} // verus!
