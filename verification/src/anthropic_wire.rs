//! The Anthropic Messages request body.

use vstd::prelude::*;

use crate::chat_request::trimmed_nonblank;
use crate::error::{ProtocolError, ProtocolErrorKind};
use crate::json::{
    arr_new, arr_push, json_clone, json_parse, jv, jv_array, jv_bool, jv_obj1, jv_obj2, jv_obj3,
    jv_object, jv_str, jv_string, jv_u32, jvs, members_v, num_u32, obj_new, obj_push, obj_push_opt,
    parse_json, JsonValue, JV,
};
use crate::openai_wire::opt_str_jv;
use crate::text::{decimal, owned, push_str, trim, trim_str, u64_to_string};
use crate::types::{
    drop_ws, texts_of, ChatMessage, ChatRequest, ChatRole, ContentPart, ReasoningEffort,
    ReasoningMode, ReasoningPolicy, ToolCall, ToolChoice, ToolDefinition,
};
use crate::wire::{
    encoded_is, has_image_part, has_member, lemma_with_opt_keeps, scan_parts, text_count, wire_error, with_opt, without_ws, WireErr,
};

verus! {

/// `max_tokens` when the request gives none (Anthropic requires it).
pub const DEFAULT_MAX_TOKENS: u32 = 4096;

/// The manual thinking budget for an effort.
pub open spec fn effort_budget(e: ReasoningEffort) -> u32 {
    match e {
        ReasoningEffort::Minimal | ReasoningEffort::Low => 1024,
        ReasoningEffort::Medium => 4096,
        ReasoningEffort::High => 16384,
        ReasoningEffort::XHigh | ReasoningEffort::Max => 32000,
    }
}

/// The `thinking` member: none, disabled, or enabled with a budget below `max_tokens`
/// (at least 1024); `true` beside it when thinking is enabled.
pub open spec fn anthropic_thinking(policy: Option<ReasoningPolicy>, max_tokens: u32) -> Result<Option<(bool, JV)>, WireErr> {
    match policy {
        None => Ok(None),
        Some(p) => match p.mode {
            ReasoningMode::Auto => Ok(None),
            ReasoningMode::Off => Ok(Some((false, JV::Obj(seq![("type"@, JV::Str("disabled"@))])))),
            ReasoningMode::On => {
                let budget: u32 = match p.budget_tokens {
                    Some(n) => n,
                    None => match p.effort {
                        Some(e) => effort_budget(e),
                        None => 4096,
                    },
                };
                if 0 < budget < 1024 {
                    Err((ProtocolErrorKind::InvalidRequest, "Anthropic budget_tokens 必须 ≥ 1024（或为 0 仅用于关闭路径）"@))
                } else if budget == 0 {
                    Err((ProtocolErrorKind::InvalidRequest, "Anthropic On 模式 budget_tokens 不能为 0"@))
                } else if budget >= max_tokens {
                    Err(
                        (
                            ProtocolErrorKind::InvalidRequest,
                            "Anthropic budget_tokens ("@ + decimal(budget as nat) + ") 必须小于 max_tokens ("@
                                + decimal(max_tokens as nat) + ")"@,
                        ),
                    )
                } else {
                    Ok(
                        Some(
                            (
                                true,
                                JV::Obj(
                                    seq![
                                        ("type"@, JV::Str("enabled"@)),
                                        ("budget_tokens"@, num_u32(budget)),
                                        ("display"@, JV::Str("summarized"@)),
                                    ],
                                ),
                            ),
                        ),
                    )
                }
            },
        },
    }
}

/// With thinking on, the budget (given, else by effort, else 4096) is sent when it is at
/// least 1024 and below `max_tokens`; any other budget is refused as an invalid request.
pub proof fn law_anthropic_thinking_budget(p: ReasoningPolicy, max_tokens: u32)
    requires
        p.mode == ReasoningMode::On,
    ensures
        ({
            let b: u32 = match p.budget_tokens {
                Some(n) => n,
                None => match p.effort {
                    Some(e) => effort_budget(e),
                    None => 4096,
                },
            };
            &&& 1024 <= b < max_tokens ==> anthropic_thinking(Some(p), max_tokens) == Ok::<Option<(bool, JV)>, WireErr>(
                Some(
                    (
                        true,
                        JV::Obj(
                            seq![
                                ("type"@, JV::Str("enabled"@)),
                                ("budget_tokens"@, num_u32(b)),
                                ("display"@, JV::Str("summarized"@)),
                            ],
                        ),
                    ),
                ),
            )
            &&& !(1024 <= b < max_tokens) ==> (anthropic_thinking(Some(p), max_tokens) matches Err(e)
                && e.0 == ProtocolErrorKind::InvalidRequest)
        }),
{
}

/// One content part as a block, if it makes one (empty text makes none).
pub open spec fn anthropic_block(p: ContentPart) -> Seq<JV> {
    match p {
        ContentPart::Text { text } => if text@.len() == 0 {
            seq![]
        } else {
            seq![JV::Obj(seq![("type"@, JV::Str("text"@)), ("text"@, JV::Str(text@))])]
        },
        ContentPart::ImageBase64 { media_type, data } => seq![
            JV::Obj(
                seq![
                    ("type"@, JV::Str("image"@)),
                    (
                        "source"@,
                        JV::Obj(
                            seq![
                                ("type"@, JV::Str("base64"@)),
                                ("media_type"@, JV::Str(trim(media_type@))),
                                ("data"@, JV::Str(drop_ws(data@))),
                            ],
                        ),
                    ),
                ],
            ),
        ],
        ContentPart::ImageUrl { url, .. } => seq![
            JV::Obj(
                seq![
                    ("type"@, JV::Str("image"@)),
                    ("source"@, JV::Obj(seq![("type"@, JV::Str("url"@)), ("url"@, JV::Str(url@))])),
                ],
            ),
        ],
    }
}

/// The blocks of all parts, in order.
pub open spec fn anthropic_part_blocks(parts: Seq<ContentPart>) -> Seq<JV>
    decreases parts.len(),
{
    if parts.len() == 0 {
        seq![]
    } else {
        anthropic_part_blocks(parts.drop_last()) + anthropic_block(parts.last())
    }
}

/// A message's content blocks; an empty result is refused unless tool calls follow.
pub open spec fn anthropic_blocks(m: ChatMessage) -> Result<Seq<JV>, WireErr> {
    let b = anthropic_part_blocks(m.parts@);
    if b.len() == 0 && m.tool_calls@.len() == 0 {
        Err((ProtocolErrorKind::InvalidRequest, "消息 content 编码结果为空"@))
    } else {
        Ok(b)
    }
}

/// A message's content: a string unless it holds an image or several texts.
pub open spec fn anthropic_content(m: ChatMessage) -> Result<JV, WireErr> {
    if !has_image_part(m.parts@) && text_count(m.parts@) <= 1 {
        Ok(JV::Str(texts_of(m.parts@)))
    } else {
        match anthropic_blocks(m) {
            Ok(b) => Ok(JV::Arr(b)),
            Err(e) => Err(e),
        }
    }
}

/// A tool call's input: its arguments parsed as JSON, else the arguments as a string.
pub open spec fn tool_input(arguments: Seq<char>) -> JV {
    match json_parse(arguments) {
        Ok(v) => jv(v),
        Err(_) => JV::Str(arguments),
    }
}

/// An assistant tool call as a `tool_use` block.
pub open spec fn tool_use_block(tc: ToolCall) -> JV {
    JV::Obj(
        seq![
            ("type"@, JV::Str("tool_use"@)),
            ("id"@, JV::Str(tc.id@)),
            ("name"@, JV::Str(tc.name@)),
            ("input"@, tool_input(tc.arguments@)),
        ],
    )
}

/// The system texts and wire messages so far.
pub type Converted = (Seq<Seq<char>>, Seq<JV>);

/// One message: a system text is set aside (when not empty); a tool result goes inside a
/// user message; assistant tool calls follow its content blocks.
pub open spec fn anthropic_message(m: ChatMessage, acc: Converted) -> Result<Converted, WireErr> {
    let (sys, msgs) = acc;
    match m.role {
        ChatRole::System => {
            let t = texts_of(m.parts@);
            if t.len() > 0 {
                Ok((sys.push(t), msgs))
            } else {
                Ok(acc)
            }
        },
        ChatRole::User => match anthropic_content(m) {
            Ok(c) => Ok((sys, msgs.push(JV::Obj(seq![("role"@, JV::Str("user"@)), ("content"@, c)])))),
            Err(e) => Err(e),
        },
        ChatRole::Assistant => if m.tool_calls@.len() == 0 {
            match anthropic_content(m) {
                Ok(c) => Ok((sys, msgs.push(JV::Obj(seq![("role"@, JV::Str("assistant"@)), ("content"@, c)])))),
                Err(e) => Err(e),
            }
        } else {
            match anthropic_blocks(m) {
                Ok(b) => Ok(
                    (
                        sys,
                        msgs.push(
                            JV::Obj(
                                seq![
                                    ("role"@, JV::Str("assistant"@)),
                                    ("content"@, JV::Arr(b + m.tool_calls@.map_values(|t: ToolCall| tool_use_block(t)))),
                                ],
                            ),
                        ),
                    ),
                ),
                Err(e) => Err(e),
            }
        },
        ChatRole::Tool => match trimmed_nonblank(crate::wire::opt_seq(m.tool_call_id)) {
            None => Err((ProtocolErrorKind::InvalidRequest, "Tool 消息必须提供 tool_call_id"@)),
            Some(id) => Ok(
                (
                    sys,
                    msgs.push(
                        JV::Obj(
                            seq![
                                ("role"@, JV::Str("user"@)),
                                (
                                    "content"@,
                                    JV::Arr(
                                        seq![
                                            JV::Obj(
                                                seq![
                                                    ("type"@, JV::Str("tool_result"@)),
                                                    ("tool_use_id"@, JV::Str(id)),
                                                    ("content"@, JV::Str(texts_of(m.parts@))),
                                                ],
                                            ),
                                        ],
                                    ),
                                ),
                            ],
                        ),
                    ),
                ),
            ),
        },
    }
}

/// All messages in order; the first failure stops the encoding.
pub open spec fn anthropic_messages(ms: Seq<ChatMessage>) -> Result<Converted, WireErr>
    decreases ms.len(),
{
    if ms.len() == 0 {
        Ok((seq![], seq![]))
    } else {
        match anthropic_messages(ms.drop_last()) {
            Err(e) => Err(e),
            Ok(acc) => anthropic_message(ms.last(), acc),
        }
    }
}

/// Texts joined with a blank line between them.
pub open spec fn join_blank(ts: Seq<Seq<char>>) -> Seq<char>
    decreases ts.len(),
{
    if ts.len() == 0 {
        seq![]
    } else if ts.len() == 1 {
        ts[0]
    } else {
        join_blank(ts.drop_last()) + "\n\n"@ + ts.last()
    }
}

/// A tool definition on the wire.
pub open spec fn anthropic_tool(t: ToolDefinition) -> JV {
    JV::Obj(
        with_opt(seq![("name"@, JV::Str(trim(t.name@)))], "description"@, opt_str_jv(t.description)).push(
            ("input_schema"@, jv(t.parameters)),
        ),
    )
}

/// The wire tool list, when tools are given.
pub open spec fn anthropic_tools(t: Option<Vec<ToolDefinition>>) -> Option<JV> {
    match t {
        Some(ts) => Some(JV::Arr(ts@.map_values(|t: ToolDefinition| anthropic_tool(t)))),
        None => None,
    }
}

/// The wire `tool_choice`: `auto` when tools are given without a choice.
pub open spec fn anthropic_tool_choice(c: Option<ToolChoice>, has_tools: bool) -> Option<JV> {
    match c {
        None => if has_tools {
            Some(JV::Obj(seq![("type"@, JV::Str("auto"@))]))
        } else {
            None
        },
        Some(ToolChoice::Auto) => Some(JV::Obj(seq![("type"@, JV::Str("auto"@))])),
        Some(ToolChoice::Disabled) => Some(JV::Obj(seq![("type"@, JV::Str("none"@))])),
        Some(ToolChoice::Required) => Some(JV::Obj(seq![("type"@, JV::Str("any"@))])),
        Some(ToolChoice::Named { name }) => Some(
            JV::Obj(seq![("type"@, JV::Str("tool"@)), ("name"@, JV::Str(name@))]),
        ),
    }
}

/// The request body (without `temperature`, which the caller writes as a float).
pub open spec fn anthropic_body(req: ChatRequest) -> Result<JV, WireErr> {
    let max_tokens: u32 = match req.max_tokens {
        Some(n) => n,
        None => DEFAULT_MAX_TOKENS,
    };
    match anthropic_thinking(req.reasoning, max_tokens) {
        Err(e) => Err(e),
        Ok(thinking) => if (thinking matches Some((enabled, _)) && enabled) && (req.tool_choice matches Some(c) && (c is Required || c is Named)) {
            Err((ProtocolErrorKind::InvalidRequest, "Anthropic extended thinking 启用时 tool_choice 仅允许 Auto 或 None"@))
        } else {
            match anthropic_messages(req.messages@) {
                Err(e) => Err(e),
                Ok((sys, msgs)) => {
                    let m0 = seq![
                        ("model"@, JV::Str(trim(req.model@))),
                        ("max_tokens"@, num_u32(max_tokens)),
                        ("messages"@, JV::Arr(msgs)),
                        ("stream"@, JV::Bool(true)),
                    ];
                    let m1 = with_opt(m0, "system"@, if sys.len() == 0 {
                        None
                    } else {
                        Some(JV::Str(join_blank(sys)))
                    });
                    let m2 = with_opt(m1, "thinking"@, match thinking {
                        Some((_, j)) => Some(j),
                        None => None,
                    });
                    let m3 = with_opt(m2, "tools"@, anthropic_tools(req.tools));
                    Ok(JV::Obj(with_opt(m3, "tool_choice"@, anthropic_tool_choice(req.tool_choice, req.tools is Some))))
                },
            }
        },
    }
}

fn effort_to_manual_budget(effort: ReasoningEffort) -> (b: u32)
    ensures
        b == effort_budget(effort),
{
    match effort {
        ReasoningEffort::Minimal | ReasoningEffort::Low => 1024,
        ReasoningEffort::Medium => 4096,
        ReasoningEffort::High => 16384,
        ReasoningEffort::XHigh | ReasoningEffort::Max => 32000,
    }
}

fn encode_thinking(policy: &Option<ReasoningPolicy>, max_tokens: u32) -> (r: Result<Option<(bool, JsonValue)>, ProtocolError>)
    ensures
        match anthropic_thinking(*policy, max_tokens) {
            Ok(None) => r matches Ok(None),
            Ok(Some((b, j))) => r matches Ok(Some((x, v))) && x == b && jv(v) == j,
            Err(e) => r matches Err(x) && crate::wire::wire_err_is(x, e),
        },
{
    let p = match policy {
        None => {
            return Ok(None);
        },
        Some(p) => p,
    };
    match p.mode {
        ReasoningMode::Auto => Ok(None),
        ReasoningMode::Off => Ok(Some((false, jv_obj1("type", jv_str("disabled"))))),
        ReasoningMode::On => {
            let budget = match p.budget_tokens {
                Some(n) => n,
                None => match p.effort {
                    Some(e) => effort_to_manual_budget(e),
                    None => 4096,
                },
            };
            if budget > 0 && budget < 1024 {
                return Err(
                    wire_error(
                        ProtocolErrorKind::InvalidRequest,
                        "Anthropic budget_tokens 必须 ≥ 1024（或为 0 仅用于关闭路径）",
                    ),
                );
            }
            if budget == 0 {
                return Err(wire_error(ProtocolErrorKind::InvalidRequest, "Anthropic On 模式 budget_tokens 不能为 0"));
            }
            if budget >= max_tokens {
                let mut m = owned("Anthropic budget_tokens (");
                push_str(&mut m, u64_to_string(budget as u64).as_str());
                push_str(&mut m, ") 必须小于 max_tokens (");
                push_str(&mut m, u64_to_string(max_tokens as u64).as_str());
                push_str(&mut m, ")");
                return Err(ProtocolError::new(ProtocolErrorKind::InvalidRequest, m));
            }
            Ok(
                Some(
                    (
                        true,
                        jv_obj3(
                            "type",
                            jv_str("enabled"),
                            "budget_tokens",
                            jv_u32(budget),
                            "display",
                            jv_str("summarized"),
                        ),
                    ),
                ),
            )
        },
    }
}

fn encode_block(p: &ContentPart, blocks: &mut Vec<JsonValue>)
    ensures
        jvs(final(blocks)@) == jvs(old(blocks)@) + anthropic_block(*p),
{
    let ghost before = jvs(blocks@);
    match p {
        ContentPart::Text { text } => {
            if text.as_str().is_empty() {
                assert(before + anthropic_block(*p) =~= before);
                return;
            }
            arr_push(blocks, jv_obj2("type", jv_str("text"), "text", jv_str(text.as_str())));
            assert(jvs(blocks@) =~= before + anthropic_block(*p));
        },
        ContentPart::ImageBase64 { media_type, data } => {
            let source = jv_obj3(
                "type",
                jv_str("base64"),
                "media_type",
                jv_string(trim_str(media_type.as_str())),
                "data",
                jv_string(without_ws(data.as_str())),
            );
            arr_push(blocks, jv_obj2("type", jv_str("image"), "source", source));
            assert(jvs(blocks@) =~= before + anthropic_block(*p));
        },
        ContentPart::ImageUrl { url, .. } => {
            let source = jv_obj2("type", jv_str("url"), "url", jv_str(url.as_str()));
            arr_push(blocks, jv_obj2("type", jv_str("image"), "source", source));
            assert(jvs(blocks@) =~= before + anthropic_block(*p));
        },
    }
}

fn encode_blocks(m: &ChatMessage) -> (r: Result<Vec<JsonValue>, ProtocolError>)
    ensures
        crate::wire::encoded_list_is(r, anthropic_blocks(*m)),
{
    let mut blocks = arr_new();
    let mut i: usize = 0;
    while i < m.parts.len()
        invariant
            0 <= i <= m.parts@.len(),
            jvs(blocks@) == anthropic_part_blocks(m.parts@.take(i as int)),
        decreases m.parts.len() - i,
    {
        proof {
            assert(m.parts@.take(i + 1).drop_last() == m.parts@.take(i as int));
            assert(m.parts@.take(i + 1).last() == m.parts@[i as int]);
        }
        encode_block(&m.parts[i], &mut blocks);
        i = i + 1;
    }
    assert(m.parts@.take(m.parts@.len() as int) == m.parts@);
    if blocks.len() == 0 && m.tool_calls.len() == 0 {
        return Err(wire_error(ProtocolErrorKind::InvalidRequest, "消息 content 编码结果为空"));
    }
    Ok(blocks)
}

fn encode_content(m: &ChatMessage) -> (r: Result<JsonValue, ProtocolError>)
    ensures
        encoded_is(r, anthropic_content(*m)),
{
    let (image, texts) = scan_parts(&m.parts);
    if !image && texts <= 1 {
        return Ok(jv_string(m.text_content()));
    }
    match encode_blocks(m) {
        Ok(b) => Ok(jv_array(b)),
        Err(e) => Err(e),
    }
}

fn encode_tool_use(tc: &ToolCall) -> (v: JsonValue)
    ensures
        jv(v) == tool_use_block(*tc),
{
    let input = match parse_json(tc.arguments.as_str()) {
        Ok(v) => v,
        Err(_) => jv_str(tc.arguments.as_str()),
    };
    let mut m = obj_new();
    obj_push(&mut m, "type", jv_str("tool_use"));
    obj_push(&mut m, "id", jv_str(tc.id.as_str()));
    obj_push(&mut m, "name", jv_str(tc.name.as_str()));
    obj_push(&mut m, "input", input);
    assert(members_v(m@) =~= seq![
        ("type"@, JV::Str("tool_use"@)),
        ("id"@, JV::Str(tc.id@)),
        ("name"@, JV::Str(tc.name@)),
        ("input"@, tool_input(tc.arguments@)),
    ]);
    jv_object(m)
}

fn encode_message(m: &ChatMessage, system: &mut Vec<String>, messages: &mut Vec<JsonValue>) -> (r: Result<(), ProtocolError>)
    ensures
        ({
            let acc = (crate::types::strings_view(old(system)@), jvs(old(messages)@));
            match anthropic_message(*m, acc) {
                Ok(acc2) => r is Ok && crate::types::strings_view(final(system)@) == acc2.0 && jvs(final(messages)@) == acc2.1,
                Err(e) => r matches Err(x) && crate::wire::wire_err_is(x, e),
            }
        }),
{
    let ghost sys0 = crate::types::strings_view(system@);
    match m.role {
        ChatRole::System => {
            let t = m.text_content();
            if !t.as_str().is_empty() {
                let ghost tv = t@;
                system.push(t);
                assert(crate::types::strings_view(system@) =~= sys0.push(tv));
            }
            Ok(())
        },
        ChatRole::User => {
            let c = match encode_content(m) {
                Ok(c) => c,
                Err(e) => {
                    return Err(e);
                },
            };
            arr_push(messages, jv_obj2("role", jv_str("user"), "content", c));
            Ok(())
        },
        ChatRole::Assistant => {
            if m.tool_calls.len() == 0 {
                let c = match encode_content(m) {
                    Ok(c) => c,
                    Err(e) => {
                        return Err(e);
                    },
                };
                arr_push(messages, jv_obj2("role", jv_str("assistant"), "content", c));
                return Ok(());
            }
            let mut blocks = match encode_blocks(m) {
                Ok(b) => b,
                Err(e) => {
                    return Err(e);
                },
            };
            let ghost b0 = jvs(blocks@);
            let mut i: usize = 0;
            while i < m.tool_calls.len()
                invariant
                    0 <= i <= m.tool_calls@.len(),
                    jvs(blocks@) == b0 + m.tool_calls@.take(i as int).map_values(|t: ToolCall| tool_use_block(t)),
                decreases m.tool_calls.len() - i,
            {
                arr_push(&mut blocks, encode_tool_use(&m.tool_calls[i]));
                assert(b0 + m.tool_calls@.take(i + 1).map_values(|t: ToolCall| tool_use_block(t))
                    =~= (b0 + m.tool_calls@.take(i as int).map_values(|t: ToolCall| tool_use_block(t))).push(
                    tool_use_block(m.tool_calls@[i as int]),
                ));
                i = i + 1;
            }
            assert(m.tool_calls@.take(m.tool_calls@.len() as int) == m.tool_calls@);
            arr_push(messages, jv_obj2("role", jv_str("assistant"), "content", jv_array(blocks)));
            Ok(())
        },
        ChatRole::Tool => {
            let id = match &m.tool_call_id {
                Some(s) => {
                    let t = trim_str(s.as_str());
                    if t.as_str().is_empty() {
                        None
                    } else {
                        Some(t)
                    }
                },
                None => None,
            };
            let id = match id {
                Some(t) => t,
                None => {
                    return Err(wire_error(ProtocolErrorKind::InvalidRequest, "Tool 消息必须提供 tool_call_id"));
                },
            };
            let result = jv_obj3(
                "type",
                jv_str("tool_result"),
                "tool_use_id",
                jv_string(id),
                "content",
                jv_string(m.text_content()),
            );
            let mut content = arr_new();
            arr_push(&mut content, result);
            arr_push(messages, jv_obj2("role", jv_str("user"), "content", jv_array(content)));
            Ok(())
        },
    }
}

proof fn lemma_anthropic_messages_error(ms: Seq<ChatMessage>, k: int)
    requires
        0 <= k <= ms.len(),
        anthropic_messages(ms.take(k)) is Err,
    ensures
        anthropic_messages(ms) == anthropic_messages(ms.take(k)),
    decreases ms.len() - k,
{
    if k < ms.len() {
        assert(ms.take(k + 1).drop_last() == ms.take(k));
        lemma_anthropic_messages_error(ms, k + 1);
    } else {
        assert(ms.take(k) == ms);
    }
}

pub fn join_system(parts: &Vec<String>) -> (s: String)
    ensures
        s@ == join_blank(crate::types::strings_view(parts@)),
{
    let ghost v = crate::types::strings_view(parts@);
    let mut s = String::new();
    let mut i: usize = 0;
    while i < parts.len()
        invariant
            0 <= i <= parts@.len(),
            v == crate::types::strings_view(parts@),
            s@ == join_blank(v.take(i as int)),
        decreases parts.len() - i,
    {
        proof {
            assert(v.take(i + 1).drop_last() == v.take(i as int));
            assert(v.take(i + 1).last() == parts@[i as int]@);
            if i == 0 {
                assert(v.take(1) =~= seq![parts@[0]@]);
            }
        }
        if i > 0 {
            push_str(&mut s, "\n\n");
        }
        push_str(&mut s, parts[i].as_str());
        i = i + 1;
    }
    assert(v.take(parts@.len() as int) == v);
    s
}

fn encode_tool(t: &ToolDefinition) -> (v: JsonValue)
    ensures
        jv(v) == anthropic_tool(*t),
{
    let mut f = obj_new();
    obj_push(&mut f, "name", jv_string(trim_str(t.name.as_str())));
    let d: Option<JsonValue> = match &t.description {
        Some(d) => Some(jv_str(d.as_str())),
        None => None,
    };
    obj_push_opt(&mut f, "description", d);
    obj_push(&mut f, "input_schema", json_clone(&t.parameters));
    let ghost want = with_opt(seq![("name"@, JV::Str(trim(t.name@)))], "description"@, opt_str_jv(t.description)).push(
        ("input_schema"@, jv(t.parameters)),
    );
    assert(members_v(f@) =~= want);
    jv_object(f)
}

fn encode_tool_choice(c: &Option<ToolChoice>, has_tools: bool) -> (r: Option<JsonValue>)
    ensures
        match anthropic_tool_choice(*c, has_tools) {
            Some(j) => r matches Some(v) && jv(v) == j,
            None => r is None,
        },
{
    match c {
        None => if has_tools {
            Some(jv_obj1("type", jv_str("auto")))
        } else {
            None
        },
        Some(ToolChoice::Auto) => Some(jv_obj1("type", jv_str("auto"))),
        Some(ToolChoice::Disabled) => Some(jv_obj1("type", jv_str("none"))),
        Some(ToolChoice::Required) => Some(jv_obj1("type", jv_str("any"))),
        Some(ToolChoice::Named { name }) => Some(jv_obj2("type", jv_str("tool"), "name", jv_str(name.as_str()))),
    }
}

/// Encode the Messages body: thinking from the reasoning policy, system texts joined,
/// tool results inside user messages, tools passed through. `temperature` is left to
/// the caller, which writes it as a float.
#[verifier::loop_isolation(false)]
pub fn messages_body(request: &ChatRequest) -> (r: Result<JsonValue, ProtocolError>)
    ensures
        encoded_is(r, anthropic_body(*request)),
{
    let max_tokens = match request.max_tokens {
        Some(n) => n,
        None => DEFAULT_MAX_TOKENS,
    };
    let thinking = match encode_thinking(&request.reasoning, max_tokens) {
        Ok(t) => t,
        Err(e) => {
            return Err(e);
        },
    };
    let enabled = match &thinking {
        Some((b, _)) => *b,
        None => false,
    };
    if enabled {
        let conflict = match &request.tool_choice {
            Some(ToolChoice::Required) | Some(ToolChoice::Named { .. }) => true,
            _ => false,
        };
        if conflict {
            return Err(
                wire_error(
                    ProtocolErrorKind::InvalidRequest,
                    "Anthropic extended thinking 启用时 tool_choice 仅允许 Auto 或 None",
                ),
            );
        }
    }
    let mut system: Vec<String> = Vec::new();
    let mut messages = arr_new();
    let mut i: usize = 0;
    assert(request.messages@.take(0) =~= Seq::<ChatMessage>::empty());
    assert(crate::types::strings_view(system@) =~= Seq::<Seq<char>>::empty());
    while i < request.messages.len()
        invariant
            0 <= i <= request.messages@.len(),
            anthropic_messages(request.messages@.take(i as int)) == Ok::<Converted, WireErr>(
                (crate::types::strings_view(system@), jvs(messages@)),
            ),
        decreases request.messages.len() - i,
    {
        proof {
            assert(request.messages@.take(i + 1).drop_last() == request.messages@.take(i as int));
            assert(request.messages@.take(i + 1).last() == request.messages@[i as int]);
        }
        match encode_message(&request.messages[i], &mut system, &mut messages) {
            Ok(()) => {},
            Err(e) => {
                proof {
                    lemma_anthropic_messages_error(request.messages@, i + 1);
                }
                return Err(e);
            },
        }
        i = i + 1;
    }
    assert(request.messages@.take(request.messages@.len() as int) == request.messages@);
    let ghost msgs = jvs(messages@);
    let ghost sys = crate::types::strings_view(system@);
    let mut m = obj_new();
    obj_push(&mut m, "model", jv_string(trim_str(request.model.as_str())));
    obj_push(&mut m, "max_tokens", jv_u32(max_tokens));
    obj_push(&mut m, "messages", jv_array(messages));
    obj_push(&mut m, "stream", jv_bool(true));
    let system_value: Option<JsonValue> = if system.len() == 0 {
        None
    } else {
        Some(jv_string(join_system(&system)))
    };
    obj_push_opt(&mut m, "system", system_value);
    let thinking_value: Option<JsonValue> = match thinking {
        Some((_, v)) => Some(v),
        None => None,
    };
    obj_push_opt(&mut m, "thinking", thinking_value);
    let tools: Option<JsonValue> = match &request.tools {
        Some(ts) => {
            let mut arr = arr_new();
            let mut k: usize = 0;
            while k < ts.len()
                invariant
                    0 <= k <= ts@.len(),
                    jvs(arr@) == ts@.take(k as int).map_values(|t: ToolDefinition| anthropic_tool(t)),
                decreases ts.len() - k,
            {
                arr_push(&mut arr, encode_tool(&ts[k]));
                assert(ts@.take(k + 1).map_values(|t: ToolDefinition| anthropic_tool(t))
                    =~= ts@.take(k as int).map_values(|t: ToolDefinition| anthropic_tool(t)).push(anthropic_tool(ts@[k as int])));
                k = k + 1;
            }
            assert(ts@.take(ts@.len() as int) == ts@);
            Some(jv_array(arr))
        },
        None => None,
    };
    obj_push_opt(&mut m, "tools", tools);
    obj_push_opt(&mut m, "tool_choice", encode_tool_choice(&request.tool_choice, request.tools.is_some()));
    proof {
        let th = anthropic_thinking(request.reasoning, max_tokens)->Ok_0;
        let m0 = seq![
            ("model"@, JV::Str(trim(request.model@))),
            ("max_tokens"@, num_u32(max_tokens)),
            ("messages"@, JV::Arr(msgs)),
            ("stream"@, JV::Bool(true)),
        ];
        let m1 = with_opt(m0, "system"@, if sys.len() == 0 {
            None
        } else {
            Some(JV::Str(join_blank(sys)))
        });
        let m2 = with_opt(m1, "thinking"@, match th {
            Some((_, j)) => Some(j),
            None => None,
        });
        let m3 = with_opt(m2, "tools"@, anthropic_tools(request.tools));
        assert(members_v(m@) =~= with_opt(m3, "tool_choice"@, anthropic_tool_choice(request.tool_choice, request.tools is Some)));
    }
    Ok(jv_object(m))
}


/// The output limit is always sent: an Anthropic body carries `max_tokens` equal to the
/// request's limit, or to `DEFAULT_MAX_TOKENS` when it has none.
pub proof fn law_anthropic_body_max_tokens(req: ChatRequest)
    ensures
        anthropic_body(req) matches Ok(JV::Obj(ms)) ==> has_member(
            ms,
            "max_tokens"@,
            num_u32(
                match req.max_tokens {
                    Some(n) => n,
                    None => 4096,
                },
            ),
        ),
{
    if let Ok(JV::Obj(ms)) = anthropic_body(req) {
        let lim: u32 = match req.max_tokens {
            Some(n) => n,
            None => DEFAULT_MAX_TOKENS,
        };
        let thinking = anthropic_thinking(req.reasoning, lim)->Ok_0;
        let (sys, msgs) = anthropic_messages(req.messages@)->Ok_0;
        let m0 = seq![
            ("model"@, JV::Str(trim(req.model@))),
            ("max_tokens"@, num_u32(lim)),
            ("messages"@, JV::Arr(msgs)),
            ("stream"@, JV::Bool(true)),
        ];
        let m1 = with_opt(m0, "system"@, if sys.len() == 0 {
            None
        } else {
            Some(JV::Str(join_blank(sys)))
        });
        let th = match thinking {
            Some((_, j)) => Some(j),
            None => None,
        };
        let m2 = with_opt(m1, "thinking"@, th);
        let m3 = with_opt(m2, "tools"@, anthropic_tools(req.tools));
        let k = "max_tokens"@;
        assert(m0[1] == (k, num_u32(lim)));
        lemma_with_opt_keeps(m0, "system"@, if sys.len() == 0 {
            None
        } else {
            Some(JV::Str(join_blank(sys)))
        }, k, num_u32(lim));
        lemma_with_opt_keeps(m1, "thinking"@, th, k, num_u32(lim));
        lemma_with_opt_keeps(m2, "tools"@, anthropic_tools(req.tools), k, num_u32(lim));
        lemma_with_opt_keeps(m3, "tool_choice"@, anthropic_tool_choice(req.tool_choice, req.tools is Some), k, num_u32(lim));
    }
}

} // verus!
