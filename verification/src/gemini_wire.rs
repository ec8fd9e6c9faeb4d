//! The Gemini generateContent request body.

use vstd::prelude::*;

use crate::anthropic_wire::{join_blank, tool_input};
use crate::chat_request::trimmed_nonblank;
use crate::error::{ProtocolError, ProtocolErrorKind};
use crate::json::{
    arr_new, arr_push, json_clone, json_parse, jv, jv_array, jv_bool, jv_obj1, jv_obj2, jv_object,
    jv_str, jv_string, jv_u32, jvs, members_v, num_u32, obj_new, obj_push, obj_push_opt, parse_json,
    JsonValue, JV,
};
use crate::openai_wire::opt_str_jv;
use crate::text::{ascii_lower, chars_of, contains_chars, contains_seq, lower_str, owned, trim, trim_str};
use crate::types::{
    drop_ws, texts_of, ChatMessage, ChatRequest, ChatRole, ContentPart, ReasoningEffort,
    ReasoningMode, ReasoningPolicy, ToolCall, ToolChoice, ToolDefinition,
};
use crate::wire::{encoded_is, has_member, lemma_with_opt_keeps, opt_seq, wire_err_is, wire_error, with_opt, without_ws, WireErr};

verus! {

/// One content part as a Gemini part: text (not empty) or inline data; an image URL is
/// refused.
pub open spec fn gemini_part(p: ContentPart) -> Result<Seq<JV>, WireErr> {
    match p {
        ContentPart::Text { text } => if text@.len() == 0 {
            Ok(seq![])
        } else {
            Ok(seq![JV::Obj(seq![("text"@, JV::Str(text@))])])
        },
        ContentPart::ImageBase64 { media_type, data } => Ok(
            seq![
                JV::Obj(
                    seq![
                        (
                            "inline_data"@,
                            JV::Obj(
                                seq![
                                    ("mime_type"@, JV::Str(trim(media_type@))),
                                    ("data"@, JV::Str(drop_ws(data@))),
                                ],
                            ),
                        ),
                    ],
                ),
            ],
        ),
        ContentPart::ImageUrl { .. } => Err(
            (ProtocolErrorKind::Unsupported, "Gemini V2 不映射 ImageUrl（任意 http(s) URL）；请使用 ImageBase64"@),
        ),
    }
}

/// The parts of all content parts, in order; an image URL stops the encoding.
pub open spec fn gemini_parts(parts: Seq<ContentPart>) -> Result<Seq<JV>, WireErr>
    decreases parts.len(),
{
    if parts.len() == 0 {
        Ok(seq![])
    } else {
        match gemini_parts(parts.drop_last()) {
            Err(e) => Err(e),
            Ok(prefix) => match gemini_part(parts.last()) {
                Err(e) => Err(e),
                Ok(p) => Ok(prefix + p),
            },
        }
    }
}

/// An assistant tool call as a `functionCall` part.
pub open spec fn function_call_part(tc: ToolCall) -> JV {
    JV::Obj(
        seq![
            (
                "functionCall"@,
                JV::Obj(seq![("name"@, JV::Str(tc.name@)), ("args"@, tool_input(tc.arguments@))]),
            ),
        ],
    )
}

/// A tool result's response object: the text parsed as JSON, else `{ "result": text }`.
pub open spec fn tool_response(text: Seq<char>) -> JV {
    match json_parse(text) {
        Ok(v) => jv(v),
        Err(_) => JV::Obj(seq![("result"@, JV::Str(text))]),
    }
}

/// The system texts and contents so far.
pub type GeminiAcc = (Seq<Seq<char>>, Seq<JV>);

/// One message: system text set aside; user parts; model parts with tool calls (at
/// least one part); a tool result as a `functionResponse` named by the call id.
pub open spec fn gemini_message(m: ChatMessage, acc: GeminiAcc) -> Result<GeminiAcc, WireErr> {
    let (sys, contents) = acc;
    match m.role {
        ChatRole::System => {
            let t = texts_of(m.parts@);
            if t.len() > 0 {
                Ok((sys.push(t), contents))
            } else {
                Ok(acc)
            }
        },
        ChatRole::User => match gemini_parts(m.parts@) {
            Err(e) => Err(e),
            Ok(ps) => Ok((sys, contents.push(JV::Obj(seq![("role"@, JV::Str("user"@)), ("parts"@, JV::Arr(ps))])))),
        },
        ChatRole::Assistant => match gemini_parts(m.parts@) {
            Err(e) => Err(e),
            Ok(ps) => {
                let all = ps + m.tool_calls@.map_values(|t: ToolCall| function_call_part(t));
                if all.len() == 0 {
                    Err((ProtocolErrorKind::InvalidRequest, "消息 content 编码结果为空"@))
                } else {
                    Ok((sys, contents.push(JV::Obj(seq![("role"@, JV::Str("model"@)), ("parts"@, JV::Arr(all))]))))
                }
            },
        },
        ChatRole::Tool => {
            let name = match trimmed_nonblank(opt_seq(m.tool_call_id)) {
                Some(n) => n,
                None => "tool"@,
            };
            Ok(
                (
                    sys,
                    contents.push(
                        JV::Obj(
                            seq![
                                ("role"@, JV::Str("user"@)),
                                (
                                    "parts"@,
                                    JV::Arr(
                                        seq![
                                            JV::Obj(
                                                seq![
                                                    (
                                                        "functionResponse"@,
                                                        JV::Obj(
                                                            seq![
                                                                ("name"@, JV::Str(name)),
                                                                ("response"@, tool_response(texts_of(m.parts@))),
                                                            ],
                                                        ),
                                                    ),
                                                ],
                                            ),
                                        ],
                                    ),
                                ),
                            ],
                        ),
                    ),
                ),
            )
        },
    }
}

/// All messages in order; the first failure stops the encoding.
pub open spec fn gemini_messages(ms: Seq<ChatMessage>) -> Result<GeminiAcc, WireErr>
    decreases ms.len(),
{
    if ms.len() == 0 {
        Ok((seq![], seq![]))
    } else {
        match gemini_messages(ms.drop_last()) {
            Err(e) => Err(e),
            Ok(acc) => gemini_message(ms.last(), acc),
        }
    }
}

/// The model id without a leading `models/`.
pub open spec fn without_models_prefix(id: Seq<char>) -> Seq<char> {
    if id.len() >= 7 && id.take(7) == "models/"@ {
        id.skip(7)
    } else {
        id
    }
}

/// Models of the 2.5 series take a thinking budget rather than a level.
pub open spec fn budget_only(model: Seq<char>) -> bool {
    let id = without_models_prefix(ascii_lower(trim(model)));
    contains_seq(id, "2.5"@) || contains_seq(id, "2-5"@)
}

/// A `thinkingConfig` object.
pub open spec fn thinking_config(thoughts: Option<bool>, budget: Option<u32>, level: Option<Seq<char>>) -> JV {
    JV::Obj(
        with_opt(
            with_opt(
                with_opt(seq![], "includeThoughts"@, match thoughts {
                    Some(b) => Some(JV::Bool(b)),
                    None => None,
                }),
                "thinkingBudget"@,
                match budget {
                    Some(n) => Some(num_u32(n)),
                    None => None,
                },
            ),
            "thinkingLevel"@,
            match level {
                Some(l) => Some(JV::Str(l)),
                None => None,
            },
        ),
    )
}

/// The budget for an effort on budget-only models.
pub open spec fn effort_budget_25(e: ReasoningEffort) -> u32 {
    match e {
        ReasoningEffort::Minimal | ReasoningEffort::Low => 1024,
        ReasoningEffort::Medium => 4096,
        ReasoningEffort::High | ReasoningEffort::XHigh | ReasoningEffort::Max => 8192,
    }
}

/// The level for an effort on level models.
pub open spec fn effort_level(e: ReasoningEffort) -> Seq<char> {
    match e {
        ReasoningEffort::Minimal => "minimal"@,
        ReasoningEffort::Low => "low"@,
        ReasoningEffort::Medium => "medium"@,
        ReasoningEffort::High | ReasoningEffort::XHigh | ReasoningEffort::Max => "high"@,
    }
}

/// The thinking config: budget 0 for `Off` (and for `On` with budget 0); an explicit
/// budget wins; otherwise the effort as a budget (2.5 models) or a level.
pub open spec fn gemini_thinking(p: Option<ReasoningPolicy>, model: Seq<char>) -> Option<JV> {
    match p {
        None => None,
        Some(x) => match x.mode {
            ReasoningMode::Auto => None,
            ReasoningMode::Off => Some(thinking_config(None, Some(0), None)),
            ReasoningMode::On => if x.budget_tokens == Some(0u32) {
                Some(thinking_config(None, Some(0), None))
            } else if x.budget_tokens is Some {
                Some(thinking_config(Some(true), x.budget_tokens, None))
            } else {
                match x.effort {
                    None => if budget_only(model) {
                        Some(thinking_config(Some(true), Some(4096), None))
                    } else {
                        Some(thinking_config(Some(true), None, Some("medium"@)))
                    },
                    Some(e) => if budget_only(model) {
                        Some(thinking_config(Some(true), Some(effort_budget_25(e)), None))
                    } else {
                        Some(thinking_config(Some(true), None, Some(effort_level(e))))
                    },
                }
            },
        },
    }
}

/// The tools wrapper: one entry with all function declarations.
pub open spec fn gemini_tools(t: Option<Vec<ToolDefinition>>) -> Option<JV> {
    match t {
        Some(ts) => Some(
            JV::Arr(
                seq![
                    JV::Obj(
                        seq![("functionDeclarations"@, JV::Arr(ts@.map_values(|t: ToolDefinition| gemini_declaration(t))))],
                    ),
                ],
            ),
        ),
        None => None,
    }
}

/// A function declaration.
pub open spec fn gemini_declaration(t: ToolDefinition) -> JV {
    JV::Obj(
        with_opt(seq![("name"@, JV::Str(trim(t.name@)))], "description"@, opt_str_jv(t.description)).push(
            ("parameters"@, jv(t.parameters)),
        ),
    )
}

/// The `toolConfig`: mode `AUTO` when tools are given without a choice; a named choice
/// allows only that function.
pub open spec fn gemini_tool_config(c: Option<ToolChoice>, has_tools: bool) -> Option<JV> {
    let mode = |m: Seq<char>| JV::Obj(seq![("functionCallingConfig"@, JV::Obj(seq![("mode"@, JV::Str(m))]))]);
    match c {
        None => if has_tools {
            Some(mode("AUTO"@))
        } else {
            None
        },
        Some(ToolChoice::Auto) => Some(mode("AUTO"@)),
        Some(ToolChoice::Disabled) => Some(mode("NONE"@)),
        Some(ToolChoice::Required) => Some(mode("ANY"@)),
        Some(ToolChoice::Named { name }) => Some(
            JV::Obj(
                seq![
                    (
                        "functionCallingConfig"@,
                        JV::Obj(
                            seq![
                                ("mode"@, JV::Str("ANY"@)),
                                ("allowedFunctionNames"@, JV::Arr(seq![JV::Str(name@)])),
                            ],
                        ),
                    ),
                ],
            ),
        ),
    }
}

/// The `generationConfig`, present when a temperature, a token limit or a thinking
/// config is given (the temperature member itself is written by the caller).
pub open spec fn gemini_generation_config(req: ChatRequest) -> Option<JV> {
    let thinking = gemini_thinking(req.reasoning, req.model@);
    if req.temperature is None && req.max_tokens is None && thinking is None {
        None
    } else {
        Some(
            JV::Obj(
                with_opt(
                    with_opt(seq![], "maxOutputTokens"@, match req.max_tokens {
                        Some(n) => Some(num_u32(n)),
                        None => None,
                    }),
                    "thinkingConfig"@,
                    thinking,
                ),
            ),
        )
    }
}

/// The request body (without `generationConfig.temperature`, which the caller writes
/// as a float).
pub open spec fn gemini_body(req: ChatRequest) -> Result<JV, WireErr> {
    match gemini_messages(req.messages@) {
        Err(e) => Err(e),
        Ok((sys, contents)) => {
            let m0 = seq![("contents"@, JV::Arr(contents))];
            let m1 = with_opt(m0, "systemInstruction"@, if sys.len() == 0 {
                None
            } else {
                Some(JV::Obj(seq![("parts"@, JV::Arr(seq![JV::Obj(seq![("text"@, JV::Str(join_blank(sys)))])]))]))
            });
            let m2 = with_opt(m1, "generationConfig"@, gemini_generation_config(req));
            let m3 = with_opt(m2, "tools"@, gemini_tools(req.tools));
            Ok(JV::Obj(with_opt(m3, "toolConfig"@, gemini_tool_config(req.tool_choice, req.tools is Some))))
        },
    }
}

fn encode_part(p: &ContentPart, out: &mut Vec<JsonValue>) -> (r: Result<(), ProtocolError>)
    ensures
        match gemini_part(*p) {
            Ok(ps) => r is Ok && jvs(final(out)@) == jvs(old(out)@) + ps,
            Err(e) => r matches Err(x) && wire_err_is(x, e),
        },
{
    let ghost before = jvs(out@);
    match p {
        ContentPart::Text { text } => {
            if text.as_str().is_empty() {
                assert(before + Seq::<JV>::empty() =~= before);
                return Ok(());
            }
            arr_push(out, jv_obj1("text", jv_str(text.as_str())));
            assert(jvs(out@) =~= before + gemini_part(*p)->Ok_0);
            Ok(())
        },
        ContentPart::ImageBase64 { media_type, data } => {
            let inner = jv_obj2(
                "mime_type",
                jv_string(trim_str(media_type.as_str())),
                "data",
                jv_string(without_ws(data.as_str())),
            );
            arr_push(out, jv_obj1("inline_data", inner));
            assert(jvs(out@) =~= before + gemini_part(*p)->Ok_0);
            Ok(())
        },
        ContentPart::ImageUrl { .. } => Err(
            wire_error(
                ProtocolErrorKind::Unsupported,
                "Gemini V2 不映射 ImageUrl（任意 http(s) URL）；请使用 ImageBase64",
            ),
        ),
    }
}

proof fn lemma_gemini_parts_error(ps: Seq<ContentPart>, k: int)
    requires
        0 <= k <= ps.len(),
        gemini_parts(ps.take(k)) is Err,
    ensures
        gemini_parts(ps) == gemini_parts(ps.take(k)),
    decreases ps.len() - k,
{
    if k < ps.len() {
        assert(ps.take(k + 1).drop_last() == ps.take(k));
        lemma_gemini_parts_error(ps, k + 1);
    } else {
        assert(ps.take(k) == ps);
    }
}

fn encode_parts(m: &ChatMessage) -> (r: Result<Vec<JsonValue>, ProtocolError>)
    ensures
        crate::wire::encoded_list_is(r, gemini_parts(m.parts@)),
{
    let mut out = arr_new();
    let mut i: usize = 0;
    assert(m.parts@.take(0) =~= Seq::<ContentPart>::empty());
    while i < m.parts.len()
        invariant
            0 <= i <= m.parts@.len(),
            gemini_parts(m.parts@.take(i as int)) == Ok::<Seq<JV>, WireErr>(jvs(out@)),
        decreases m.parts.len() - i,
    {
        proof {
            assert(m.parts@.take(i + 1).drop_last() == m.parts@.take(i as int));
            assert(m.parts@.take(i + 1).last() == m.parts@[i as int]);
        }
        match encode_part(&m.parts[i], &mut out) {
            Ok(()) => {},
            Err(e) => {
                proof {
                    lemma_gemini_parts_error(m.parts@, i + 1);
                }
                return Err(e);
            },
        }
        i = i + 1;
    }
    assert(m.parts@.take(m.parts@.len() as int) == m.parts@);
    Ok(out)
}

fn encode_function_call(tc: &ToolCall) -> (v: JsonValue)
    ensures
        jv(v) == function_call_part(*tc),
{
    let args = match parse_json(tc.arguments.as_str()) {
        Ok(v) => v,
        Err(_) => jv_str(tc.arguments.as_str()),
    };
    jv_obj1("functionCall", jv_obj2("name", jv_str(tc.name.as_str()), "args", args))
}

fn encode_message(m: &ChatMessage, system: &mut Vec<String>, contents: &mut Vec<JsonValue>) -> (r: Result<(), ProtocolError>)
    ensures
        ({
            let acc = (crate::types::strings_view(old(system)@), jvs(old(contents)@));
            match gemini_message(*m, acc) {
                Ok(acc2) => r is Ok && crate::types::strings_view(final(system)@) == acc2.0 && jvs(final(contents)@) == acc2.1,
                Err(e) => r matches Err(x) && wire_err_is(x, e),
            }
        }),
{
    let ghost sys0 = crate::types::strings_view(system@);
    match m.role {
        ChatRole::System => {
            let t = m.text_content();
            if !t.as_str().is_empty() {
                let ghost tv = t@;
                system.push(t);
                assert(crate::types::strings_view(system@) =~= sys0.push(tv));
            }
            Ok(())
        },
        ChatRole::User => {
            let parts = match encode_parts(m) {
                Ok(p) => p,
                Err(e) => {
                    return Err(e);
                },
            };
            arr_push(contents, jv_obj2("role", jv_str("user"), "parts", jv_array(parts)));
            Ok(())
        },
        ChatRole::Assistant => {
            let mut parts = match encode_parts(m) {
                Ok(p) => p,
                Err(e) => {
                    return Err(e);
                },
            };
            let ghost p0 = jvs(parts@);
            let mut i: usize = 0;
            while i < m.tool_calls.len()
                invariant
                    0 <= i <= m.tool_calls@.len(),
                    jvs(parts@) == p0 + m.tool_calls@.take(i as int).map_values(|t: ToolCall| function_call_part(t)),
                decreases m.tool_calls.len() - i,
            {
                arr_push(&mut parts, encode_function_call(&m.tool_calls[i]));
                assert(p0 + m.tool_calls@.take(i + 1).map_values(|t: ToolCall| function_call_part(t))
                    =~= (p0 + m.tool_calls@.take(i as int).map_values(|t: ToolCall| function_call_part(t))).push(
                    function_call_part(m.tool_calls@[i as int]),
                ));
                i = i + 1;
            }
            assert(m.tool_calls@.take(m.tool_calls@.len() as int) == m.tool_calls@);
            if parts.len() == 0 {
                return Err(wire_error(ProtocolErrorKind::InvalidRequest, "消息 content 编码结果为空"));
            }
            arr_push(contents, jv_obj2("role", jv_str("model"), "parts", jv_array(parts)));
            Ok(())
        },
        ChatRole::Tool => {
            let name: String = match &m.tool_call_id {
                Some(s) => {
                    let t = trim_str(s.as_str());
                    if t.as_str().is_empty() {
                        owned("tool")
                    } else {
                        t
                    }
                },
                None => owned("tool"),
            };
            let text = m.text_content();
            let response = match parse_json(text.as_str()) {
                Ok(v) => v,
                Err(_) => jv_obj1("result", jv_str(text.as_str())),
            };
            let fr = jv_obj1("functionResponse", jv_obj2("name", jv_string(name), "response", response));
            let mut ps = arr_new();
            arr_push(&mut ps, fr);
            arr_push(contents, jv_obj2("role", jv_str("user"), "parts", jv_array(ps)));
            Ok(())
        },
    }
}

proof fn lemma_gemini_messages_error(ms: Seq<ChatMessage>, k: int)
    requires
        0 <= k <= ms.len(),
        gemini_messages(ms.take(k)) is Err,
    ensures
        gemini_messages(ms) == gemini_messages(ms.take(k)),
    decreases ms.len() - k,
{
    if k < ms.len() {
        assert(ms.take(k + 1).drop_last() == ms.take(k));
        lemma_gemini_messages_error(ms, k + 1);
    } else {
        assert(ms.take(k) == ms);
    }
}

/// Whether the model takes a thinking budget rather than a level (the 2.5 series).
pub fn model_prefers_budget_only(model: &str) -> (b: bool)
    ensures
        b == budget_only(model@),
{
    let lowered = lower_str(trim_str(model).as_str());
    let v = chars_of(lowered.as_str());
    let prefix = chars_of("models/");
    proof {
        reveal_strlit("models/");
    }
    let id: Vec<char> = if crate::text::starts_with_chars(v.as_slice(), prefix.as_slice()) {
        let mut out: Vec<char> = Vec::new();
        let mut i: usize = 7;
        while i < v.len()
            invariant
                7 <= i <= v@.len(),
                out@ == v@.subrange(7, i as int),
            decreases v.len() - i,
        {
            out.push(v[i]);
            assert(v@.subrange(7, i + 1) == v@.subrange(7, i as int).push(v@[i as int]));
            i = i + 1;
        }
        assert(out@ == v@.skip(7));
        out
    } else {
        v
    };
    let a = chars_of("2.5");
    let b = chars_of("2-5");
    contains_chars(id.as_slice(), a.as_slice()) || contains_chars(id.as_slice(), b.as_slice())
}

fn thinking_config_value(thoughts: Option<bool>, budget: Option<u32>, level: Option<&str>) -> (v: JsonValue)
    ensures
        jv(v) == thinking_config(thoughts, budget, match level {
            Some(l) => Some(l@),
            None => None,
        }),
{
    let mut m = obj_new();
    let i: Option<JsonValue> = match thoughts {
        Some(b) => Some(jv_bool(b)),
        None => None,
    };
    obj_push_opt(&mut m, "includeThoughts", i);
    let b: Option<JsonValue> = match budget {
        Some(n) => Some(jv_u32(n)),
        None => None,
    };
    obj_push_opt(&mut m, "thinkingBudget", b);
    let l: Option<JsonValue> = match level {
        Some(x) => Some(jv_str(x)),
        None => None,
    };
    obj_push_opt(&mut m, "thinkingLevel", l);
    jv_object(m)
}

fn effort_level_str(e: ReasoningEffort) -> (s: &'static str)
    ensures
        s@ == effort_level(e),
{
    match e {
        ReasoningEffort::Minimal => "minimal",
        ReasoningEffort::Low => "low",
        ReasoningEffort::Medium => "medium",
        ReasoningEffort::High | ReasoningEffort::XHigh | ReasoningEffort::Max => "high",
    }
}

fn effort_budget_value(e: ReasoningEffort) -> (n: u32)
    ensures
        n == effort_budget_25(e),
{
    match e {
        ReasoningEffort::Minimal | ReasoningEffort::Low => 1024,
        ReasoningEffort::Medium => 4096,
        ReasoningEffort::High | ReasoningEffort::XHigh | ReasoningEffort::Max => 8192,
    }
}

/// The thinking config for a policy and model.
pub fn encode_gemini_thinking(policy: Option<&ReasoningPolicy>, model: &str) -> (r: Option<JsonValue>)
    ensures
        match gemini_thinking(crate::chat_request::opt_policy(policy), model@) {
            Some(j) => r matches Some(v) && jv(v) == j,
            None => r is None,
        },
{
    let p = match policy {
        None => {
            return None;
        },
        Some(p) => p,
    };
    match p.mode {
        ReasoningMode::Auto => None,
        ReasoningMode::Off => Some(thinking_config_value(None, Some(0), None)),
        ReasoningMode::On => {
            if p.budget_tokens == Some(0u32) {
                return Some(thinking_config_value(None, Some(0), None));
            }
            if let Some(n) = p.budget_tokens {
                return Some(thinking_config_value(Some(true), Some(n), None));
            }
            let budget_only = model_prefers_budget_only(model);
            match p.effort {
                None => if budget_only {
                    Some(thinking_config_value(Some(true), Some(4096), None))
                } else {
                    Some(thinking_config_value(Some(true), None, Some("medium")))
                },
                Some(e) => if budget_only {
                    Some(thinking_config_value(Some(true), Some(effort_budget_value(e)), None))
                } else {
                    Some(thinking_config_value(Some(true), None, Some(effort_level_str(e))))
                },
            }
        },
    }
}

fn encode_declaration(t: &ToolDefinition) -> (v: JsonValue)
    ensures
        jv(v) == gemini_declaration(*t),
{
    let mut f = obj_new();
    obj_push(&mut f, "name", jv_string(trim_str(t.name.as_str())));
    let d: Option<JsonValue> = match &t.description {
        Some(d) => Some(jv_str(d.as_str())),
        None => None,
    };
    obj_push_opt(&mut f, "description", d);
    obj_push(&mut f, "parameters", json_clone(&t.parameters));
    assert(members_v(f@) =~= with_opt(seq![("name"@, JV::Str(trim(t.name@)))], "description"@, opt_str_jv(t.description)).push(
        ("parameters"@, jv(t.parameters)),
    ));
    jv_object(f)
}

fn mode_config(mode: &str) -> (v: JsonValue)
    ensures
        jv(v) == JV::Obj(seq![("functionCallingConfig"@, JV::Obj(seq![("mode"@, JV::Str(mode@))]))]),
{
    jv_obj1("functionCallingConfig", jv_obj1("mode", jv_str(mode)))
}

fn encode_tool_config(c: &Option<ToolChoice>, has_tools: bool) -> (r: Option<JsonValue>)
    ensures
        match gemini_tool_config(*c, has_tools) {
            Some(j) => r matches Some(v) && jv(v) == j,
            None => r is None,
        },
{
    match c {
        None => if has_tools {
            Some(mode_config("AUTO"))
        } else {
            None
        },
        Some(ToolChoice::Auto) => Some(mode_config("AUTO")),
        Some(ToolChoice::Disabled) => Some(mode_config("NONE")),
        Some(ToolChoice::Required) => Some(mode_config("ANY")),
        Some(ToolChoice::Named { name }) => {
            let mut names = arr_new();
            arr_push(&mut names, jv_str(name.as_str()));
            Some(
                jv_obj1(
                    "functionCallingConfig",
                    jv_obj2("mode", jv_str("ANY"), "allowedFunctionNames", jv_array(names)),
                ),
            )
        },
    }
}

/// Encode the generateContent body: system texts as `systemInstruction`, roles
/// `user` / `model`, tool results as `functionResponse`, thinking per model family.
/// `generationConfig.temperature` is left to the caller, which writes it as a float.
#[verifier::loop_isolation(false)]
pub fn generate_content_body(request: &ChatRequest) -> (r: Result<JsonValue, ProtocolError>)
    ensures
        encoded_is(r, gemini_body(*request)),
{
    let mut system: Vec<String> = Vec::new();
    let mut contents = arr_new();
    let mut i: usize = 0;
    assert(request.messages@.take(0) =~= Seq::<ChatMessage>::empty());
    assert(crate::types::strings_view(system@) =~= Seq::<Seq<char>>::empty());
    while i < request.messages.len()
        invariant
            0 <= i <= request.messages@.len(),
            gemini_messages(request.messages@.take(i as int)) == Ok::<GeminiAcc, WireErr>(
                (crate::types::strings_view(system@), jvs(contents@)),
            ),
        decreases request.messages.len() - i,
    {
        proof {
            assert(request.messages@.take(i + 1).drop_last() == request.messages@.take(i as int));
            assert(request.messages@.take(i + 1).last() == request.messages@[i as int]);
        }
        match encode_message(&request.messages[i], &mut system, &mut contents) {
            Ok(()) => {},
            Err(e) => {
                proof {
                    lemma_gemini_messages_error(request.messages@, i + 1);
                }
                return Err(e);
            },
        }
        i = i + 1;
    }
    assert(request.messages@.take(request.messages@.len() as int) == request.messages@);
    let ghost cs = jvs(contents@);
    let ghost sys = crate::types::strings_view(system@);
    let mut m = obj_new();
    obj_push(&mut m, "contents", jv_array(contents));
    let system_value: Option<JsonValue> = if system.len() == 0 {
        None
    } else {
        let joined = crate::anthropic_wire::join_system(&system);
        let mut ps = arr_new();
        arr_push(&mut ps, jv_obj1("text", jv_string(joined)));
        Some(jv_obj1("parts", jv_array(ps)))
    };
    obj_push_opt(&mut m, "systemInstruction", system_value);
    let thinking = encode_gemini_thinking(request.reasoning.as_ref(), request.model.as_str());
    let generation: Option<JsonValue> = if request.temperature.is_none() && request.max_tokens.is_none()
        && thinking.is_none() {
        None
    } else {
        let mut g = obj_new();
        let mt: Option<JsonValue> = match request.max_tokens {
            Some(n) => Some(jv_u32(n)),
            None => None,
        };
        obj_push_opt(&mut g, "maxOutputTokens", mt);
        obj_push_opt(&mut g, "thinkingConfig", thinking);
        Some(jv_object(g))
    };
    obj_push_opt(&mut m, "generationConfig", generation);
    let tools: Option<JsonValue> = match &request.tools {
        Some(ts) => {
            let mut decls = arr_new();
            let mut k: usize = 0;
            while k < ts.len()
                invariant
                    0 <= k <= ts@.len(),
                    jvs(decls@) == ts@.take(k as int).map_values(|t: ToolDefinition| gemini_declaration(t)),
                decreases ts.len() - k,
            {
                arr_push(&mut decls, encode_declaration(&ts[k]));
                assert(ts@.take(k + 1).map_values(|t: ToolDefinition| gemini_declaration(t))
                    =~= ts@.take(k as int).map_values(|t: ToolDefinition| gemini_declaration(t)).push(gemini_declaration(ts@[k as int])));
                k = k + 1;
            }
            assert(ts@.take(ts@.len() as int) == ts@);
            let mut wrapper = arr_new();
            arr_push(&mut wrapper, jv_obj1("functionDeclarations", jv_array(decls)));
            Some(jv_array(wrapper))
        },
        None => None,
    };
    obj_push_opt(&mut m, "tools", tools);
    obj_push_opt(&mut m, "toolConfig", encode_tool_config(&request.tool_choice, request.tools.is_some()));
    proof {
        let m0 = seq![("contents"@, JV::Arr(cs))];
        let m1 = with_opt(m0, "systemInstruction"@, if sys.len() == 0 {
            None
        } else {
            Some(JV::Obj(seq![("parts"@, JV::Arr(seq![JV::Obj(seq![("text"@, JV::Str(join_blank(sys)))])]))]))
        });
        let m2 = with_opt(m1, "generationConfig"@, gemini_generation_config(*request));
        let m3 = with_opt(m2, "tools"@, gemini_tools(request.tools));
        assert(members_v(m@) =~= with_opt(m3, "toolConfig"@, gemini_tool_config(request.tool_choice, request.tools is Some)));
    }
    Ok(jv_object(m))
}


/// The output limit is sent: when the request has one, a Gemini body carries a
/// `generationConfig` whose `maxOutputTokens` equals it.
pub proof fn law_gemini_body_max_tokens(req: ChatRequest, n: u32)
    requires
        req.max_tokens == Some(n),
    ensures
        gemini_body(req) matches Ok(JV::Obj(ms)) ==> exists|g: Seq<(Seq<char>, JV)>|
            has_member(ms, "generationConfig"@, JV::Obj(g)) && has_member(g, "maxOutputTokens"@, num_u32(n)),
{
    if let Ok(JV::Obj(ms)) = gemini_body(req) {
        let (sys, contents) = gemini_messages(req.messages@)->Ok_0;
        let thinking = gemini_thinking(req.reasoning, req.model@);
        let g0 = with_opt(seq![], "maxOutputTokens"@, Some(num_u32(n)));
        let g = with_opt(g0, "thinkingConfig"@, thinking);
        assert(g0[0] == ("maxOutputTokens"@, num_u32(n)));
        lemma_with_opt_keeps(g0, "thinkingConfig"@, thinking, "maxOutputTokens"@, num_u32(n));
        assert(gemini_generation_config(req) == Some(JV::Obj(g)));
        let m0 = seq![("contents"@, JV::Arr(contents))];
        let sysj = if sys.len() == 0 {
            None
        } else {
            Some(JV::Obj(seq![("parts"@, JV::Arr(seq![JV::Obj(seq![("text"@, JV::Str(join_blank(sys)))])]))]))
        };
        let m1 = with_opt(m0, "systemInstruction"@, sysj);
        let m2 = with_opt(m1, "generationConfig"@, Some(JV::Obj(g)));
        let m3 = with_opt(m2, "tools"@, gemini_tools(req.tools));
        let k = "generationConfig"@;
        assert(m2[m1.len() as int] == (k, JV::Obj(g)));
        lemma_with_opt_keeps(m2, "tools"@, gemini_tools(req.tools), k, JV::Obj(g));
        lemma_with_opt_keeps(m3, "toolConfig"@, gemini_tool_config(req.tool_choice, req.tools is Some), k, JV::Obj(g));
    }
}

} // verus!
