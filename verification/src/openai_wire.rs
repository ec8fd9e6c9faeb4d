//! The OpenAI Chat Completions request body.

use vstd::prelude::*;

use crate::chat_request::trimmed_nonblank;
use crate::error::{ProtocolError, ProtocolErrorKind};
use crate::json::{
    arr_new, arr_push, json_clone, jv, jv_array, jv_bool, jv_null, jv_obj1, jv_obj2, jv_obj3,
    jv_object, jv_str, jv_string, jv_u32, jvs, members_v, num_u32, obj_new, obj_push, obj_push_opt,
    JsonValue, JV,
};
use crate::text::{owned, trim, trim_str};
use crate::types::{
    role_name, texts_of, ChatMessage, ChatRequest, ChatRole, ContentPart, ReasoningMode,
    ReasoningPolicy, ToolCall, ToolChoice, ToolDefinition,
};
use crate::wire::{
    data_url, encoded_is, encoded_list_is, format_data_url, has_image_part, scan_parts, text_count,
    has_member, lacks_member, lemma_with_opt_keeps, lemma_with_opt_lacks, wire_error, with_opt, WireErr,
};

verus! {

/// One content part as a content block, if it makes one (empty text makes none).
pub open spec fn chat_block(p: ContentPart) -> Seq<JV> {
    match p {
        ContentPart::Text { text } => if text@.len() == 0 {
            seq![]
        } else {
            seq![JV::Obj(seq![("type"@, JV::Str("text"@)), ("text"@, JV::Str(text@))])]
        },
        ContentPart::ImageUrl { url, detail } => seq![
            JV::Obj(
                seq![
                    ("type"@, JV::Str("image_url"@)),
                    (
                        "image_url"@,
                        JV::Obj(
                            with_opt(
                                seq![("url"@, JV::Str(url@))],
                                "detail"@,
                                detail_jv(detail),
                            ),
                        ),
                    ),
                ],
            ),
        ],
        ContentPart::ImageBase64 { media_type, data } => seq![
            JV::Obj(
                seq![
                    ("type"@, JV::Str("image_url"@)),
                    ("image_url"@, JV::Obj(seq![("url"@, JV::Str(data_url(media_type@, data@)))])),
                ],
            ),
        ],
    }
}

/// The trimmed image detail, when given and not blank.
pub open spec fn detail_jv(detail: Option<String>) -> Option<JV> {
    match detail {
        Some(d) => if trim(d@).len() > 0 {
            Some(JV::Str(trim(d@)))
        } else {
            None
        },
        None => None,
    }
}

/// The content blocks of all parts, in order.
pub open spec fn chat_blocks(parts: Seq<ContentPart>) -> Seq<JV>
    decreases parts.len(),
{
    if parts.len() == 0 {
        seq![]
    } else {
        chat_blocks(parts.drop_last()) + chat_block(parts.last())
    }
}

/// A message's `content`: a string for a single text (null when empty and the message
/// carries tool calls); otherwise an array of blocks.
pub open spec fn chat_content(m: ChatMessage) -> Result<JV, WireErr> {
    if !has_image_part(m.parts@) && text_count(m.parts@) <= 1 {
        let text = texts_of(m.parts@);
        if text.len() == 0 && m.tool_calls@.len() > 0 {
            Ok(JV::Null)
        } else {
            Ok(JV::Str(text))
        }
    } else {
        let blocks = chat_blocks(m.parts@);
        if blocks.len() == 0 {
            if m.tool_calls@.len() > 0 {
                Ok(JV::Null)
            } else {
                Err((ProtocolErrorKind::InvalidRequest, "消息 content 编码结果为空"@))
            }
        } else {
            Ok(JV::Arr(blocks))
        }
    }
}

/// An assistant tool call on the wire.
pub open spec fn chat_tool_call(tc: ToolCall) -> JV {
    JV::Obj(
        seq![
            ("id"@, JV::Str(tc.id@)),
            ("type"@, JV::Str("function"@)),
            (
                "function"@,
                JV::Obj(seq![("name"@, JV::Str(tc.name@)), ("arguments"@, JV::Str(tc.arguments@))]),
            ),
        ],
    )
}

/// One message on the wire.
pub open spec fn chat_message(m: ChatMessage) -> Result<JV, WireErr> {
    if m.role == ChatRole::Tool {
        match trimmed_nonblank(m.tool_call_id.deep_view()) {
            None => Err((ProtocolErrorKind::InvalidRequest, "Tool 消息必须提供 tool_call_id"@)),
            Some(id) => Ok(
                JV::Obj(
                    seq![
                        ("role"@, JV::Str("tool"@)),
                        ("tool_call_id"@, JV::Str(id)),
                        ("content"@, JV::Str(texts_of(m.parts@))),
                    ],
                ),
            ),
        }
    } else {
        match chat_content(m) {
            Err(e) => Err(e),
            Ok(c) => if m.role == ChatRole::Assistant && m.tool_calls@.len() > 0 {
                Ok(
                    JV::Obj(
                        seq![
                            ("role"@, JV::Str("assistant"@)),
                            ("content"@, c),
                            ("tool_calls"@, JV::Arr(m.tool_calls@.map_values(|t: ToolCall| chat_tool_call(t)))),
                        ],
                    ),
                )
            } else {
                Ok(JV::Obj(seq![("role"@, JV::Str(role_name(m.role))), ("content"@, c)]))
            },
        }
    }
}

/// All messages on the wire, in order; the first failure stops the encoding.
pub open spec fn chat_messages(ms: Seq<ChatMessage>) -> Result<Seq<JV>, WireErr>
    decreases ms.len(),
{
    if ms.len() == 0 {
        Ok(seq![])
    } else {
        match chat_messages(ms.drop_last()) {
            Err(e) => Err(e),
            Ok(prefix) => match chat_message(ms.last()) {
                Err(e) => Err(e),
                Ok(j) => Ok(prefix.push(j)),
            },
        }
    }
}

/// An optional text as an optional JSON string.
pub open spec fn opt_str_jv(d: Option<String>) -> Option<JV> {
    match d {
        Some(x) => Some(JV::Str(x@)),
        None => None,
    }
}

/// The members of a tool's `function` object.
pub open spec fn chat_function_members(t: ToolDefinition) -> Seq<(Seq<char>, JV)> {
    with_opt(seq![("name"@, JV::Str(trim(t.name@)))], "description"@, opt_str_jv(t.description)).push(
        ("parameters"@, jv(t.parameters)),
    )
}

/// A tool definition on the wire.
pub open spec fn chat_tool(t: ToolDefinition) -> JV {
    JV::Obj(seq![("type"@, JV::Str("function"@)), ("function"@, JV::Obj(chat_function_members(t)))])
}

/// The wire tool list, when tools are given.
pub open spec fn chat_tools(t: Option<Vec<ToolDefinition>>) -> Option<JV> {
    match t {
        Some(ts) => Some(JV::Arr(ts@.map_values(|t: ToolDefinition| chat_tool(t)))),
        None => None,
    }
}

/// The wire `tool_choice`: `auto` when tools are given without a choice.
pub open spec fn chat_tool_choice(c: Option<ToolChoice>, has_tools: bool) -> Option<JV> {
    match c {
        None => if has_tools {
            Some(JV::Str("auto"@))
        } else {
            None
        },
        Some(ToolChoice::Auto) => Some(JV::Str("auto"@)),
        Some(ToolChoice::Disabled) => Some(JV::Str("none"@)),
        Some(ToolChoice::Required) => Some(JV::Str("required"@)),
        Some(ToolChoice::Named { name }) => Some(
            JV::Obj(
                seq![
                    ("type"@, JV::Str("function"@)),
                    ("function"@, JV::Obj(seq![("name"@, JV::Str(name@))])),
                ],
            ),
        ),
    }
}

/// Chat Completions has no reasoning control: only no policy or `Auto` is accepted.
pub open spec fn chat_reasoning_ok(p: Option<ReasoningPolicy>) -> bool {
    match p {
        None => true,
        Some(x) => x.mode == ReasoningMode::Auto,
    }
}

/// The request body (without `temperature`, which the caller writes as a float).
pub open spec fn chat_body(req: ChatRequest) -> Result<JV, WireErr> {
    if !chat_reasoning_ok(req.reasoning) {
        Err(
            (
                ProtocolErrorKind::Unsupported,
                "OpenAI Chat Completions 不支持推理控制（请使用 Responses 或 None/Auto）"@,
            ),
        )
    } else {
        match chat_messages(req.messages@) {
            Err(e) => Err(e),
            Ok(ms) => {
                let tools = chat_tools(req.tools);
                let m0 = seq![
                    ("model"@, JV::Str(trim(req.model@))),
                    ("messages"@, JV::Arr(ms)),
                    ("stream"@, JV::Bool(true)),
                    ("stream_options"@, JV::Obj(seq![("include_usage"@, JV::Bool(true))])),
                ];
                let m1 = with_opt(m0, "max_tokens"@, match req.max_tokens {
                    Some(n) => Some(num_u32(n)),
                    None => None,
                });
                let m2 = with_opt(m1, "tools"@, tools);
                Ok(JV::Obj(with_opt(m2, "tool_choice"@, chat_tool_choice(req.tool_choice, req.tools is Some))))
            },
        }
    }
}

fn encode_part(p: &ContentPart, blocks: &mut Vec<JsonValue>)
    ensures
        jvs(final(blocks)@) == jvs(old(blocks)@) + chat_block(*p),
{
    let ghost before = jvs(blocks@);
    match p {
        ContentPart::Text { text } => {
            if text.as_str().is_empty() {
                assert(before + chat_block(*p) =~= before);
                return;
            }
            arr_push(blocks, jv_obj2("type", jv_str("text"), "text", jv_str(text.as_str())));
            assert(jvs(blocks@) =~= before + chat_block(*p));
        },
        ContentPart::ImageUrl { url, detail } => {
            let mut inner = obj_new();
            obj_push(&mut inner, "url", jv_str(url.as_str()));
            let ghost m0 = members_v(inner@);
            let d: Option<JsonValue> = match detail {
                Some(d) => {
                    let t = trim_str(d.as_str());
                    if t.as_str().is_empty() {
                        None
                    } else {
                        Some(jv_string(t))
                    }
                },
                None => None,
            };
            obj_push_opt(&mut inner, "detail", d);
            let ghost want = with_opt(seq![("url"@, JV::Str(url@))], "detail"@, detail_jv(*detail));
            assert(members_v(inner@) =~= want);
            let o = jv_object(inner);
            assert(jv(o) == JV::Obj(want));
            arr_push(blocks, jv_obj2("type", jv_str("image_url"), "image_url", o));
            assert(chat_block(*p) == seq![JV::Obj(seq![("type"@, JV::Str("image_url"@)), ("image_url"@, JV::Obj(want))])]);
            assert(jvs(blocks@) =~= before + chat_block(*p));
        },
        ContentPart::ImageBase64 { media_type, data } => {
            let inner = jv_obj1("url", jv_string(format_data_url(media_type.as_str(), data.as_str())));
            arr_push(blocks, jv_obj2("type", jv_str("image_url"), "image_url", inner));
            assert(jvs(blocks@) =~= before + chat_block(*p));
        },
    }
}

fn encode_content(m: &ChatMessage) -> (r: Result<JsonValue, ProtocolError>)
    ensures
        encoded_is(r, chat_content(*m)),
{
    let (image, texts) = scan_parts(&m.parts);
    if !image && texts <= 1 {
        let text = m.text_content();
        if text.as_str().is_empty() && m.tool_calls.len() > 0 {
            return Ok(jv_null());
        }
        return Ok(jv_string(text));
    }
    let mut blocks = arr_new();
    let mut i: usize = 0;
    while i < m.parts.len()
        invariant
            0 <= i <= m.parts@.len(),
            jvs(blocks@) == chat_blocks(m.parts@.take(i as int)),
        decreases m.parts.len() - i,
    {
        proof {
            assert(m.parts@.take(i + 1).drop_last() == m.parts@.take(i as int));
            assert(m.parts@.take(i + 1).last() == m.parts@[i as int]);
        }
        encode_part(&m.parts[i], &mut blocks);
        i = i + 1;
    }
    assert(m.parts@.take(m.parts@.len() as int) == m.parts@);
    if blocks.len() == 0 {
        if m.tool_calls.len() > 0 {
            return Ok(jv_null());
        }
        return Err(wire_error(ProtocolErrorKind::InvalidRequest, "消息 content 编码结果为空"));
    }
    Ok(jv_array(blocks))
}

fn encode_tool_call(tc: &ToolCall) -> (v: JsonValue)
    ensures
        jv(v) == chat_tool_call(*tc),
{
    let f = jv_obj2("name", jv_str(tc.name.as_str()), "arguments", jv_str(tc.arguments.as_str()));
    jv_obj3("id", jv_str(tc.id.as_str()), "type", jv_str("function"), "function", f)
}

fn encode_message(m: &ChatMessage) -> (r: Result<JsonValue, ProtocolError>)
    ensures
        encoded_is(r, chat_message(*m)),
{
    if m.role == ChatRole::Tool {
        let id = match &m.tool_call_id {
            Some(s) => {
                let t = trim_str(s.as_str());
                if t.as_str().is_empty() {
                    None
                } else {
                    Some(t)
                }
            },
            None => None,
        };
        let id = match id {
            Some(t) => t,
            None => {
                return Err(wire_error(ProtocolErrorKind::InvalidRequest, "Tool 消息必须提供 tool_call_id"));
            },
        };
        return Ok(
            jv_obj3(
                "role",
                jv_str("tool"),
                "tool_call_id",
                jv_string(id),
                "content",
                jv_string(m.text_content()),
            ),
        );
    }
    let content = match encode_content(m) {
        Ok(c) => c,
        Err(e) => {
            return Err(e);
        },
    };
    if m.role == ChatRole::Assistant && m.tool_calls.len() > 0 {
        let mut calls = arr_new();
        let mut i: usize = 0;
        while i < m.tool_calls.len()
            invariant
                0 <= i <= m.tool_calls@.len(),
                jvs(calls@) == m.tool_calls@.take(i as int).map_values(|t: ToolCall| chat_tool_call(t)),
            decreases m.tool_calls.len() - i,
        {
            arr_push(&mut calls, encode_tool_call(&m.tool_calls[i]));
            assert(m.tool_calls@.take(i + 1).map_values(|t: ToolCall| chat_tool_call(t))
                =~= m.tool_calls@.take(i as int).map_values(|t: ToolCall| chat_tool_call(t)).push(
                chat_tool_call(m.tool_calls@[i as int]),
            ));
            i = i + 1;
        }
        assert(m.tool_calls@.take(m.tool_calls@.len() as int) == m.tool_calls@);
        return Ok(jv_obj3("role", jv_str("assistant"), "content", content, "tool_calls", jv_array(calls)));
    }
    Ok(jv_obj2("role", jv_str(m.role.as_str()), "content", content))
}

fn encode_messages(ms: &Vec<ChatMessage>) -> (r: Result<Vec<JsonValue>, ProtocolError>)
    ensures
        encoded_list_is(r, chat_messages(ms@)),
{
    let mut out = arr_new();
    let mut i: usize = 0;
    assert(ms@.take(0) =~= Seq::<ChatMessage>::empty());
    while i < ms.len()
        invariant
            0 <= i <= ms@.len(),
            chat_messages(ms@.take(i as int)) == Ok::<Seq<JV>, WireErr>(jvs(out@)),
        decreases ms.len() - i,
    {
        proof {
            assert(ms@.take(i + 1).drop_last() == ms@.take(i as int));
            assert(ms@.take(i + 1).last() == ms@[i as int]);
        }
        match encode_message(&ms[i]) {
            Ok(v) => {
                arr_push(&mut out, v);
            },
            Err(e) => {
                proof {
                    lemma_chat_messages_error(ms@, i + 1);
                }
                return Err(e);
            },
        }
        i = i + 1;
    }
    assert(ms@.take(ms@.len() as int) == ms@);
    Ok(out)
}

proof fn lemma_chat_messages_error(ms: Seq<ChatMessage>, k: int)
    requires
        0 <= k <= ms.len(),
        chat_messages(ms.take(k)) is Err,
    ensures
        chat_messages(ms) == chat_messages(ms.take(k)),
    decreases ms.len() - k,
{
    if k < ms.len() {
        assert(ms.take(k + 1).drop_last() == ms.take(k));
        lemma_chat_messages_error(ms, k + 1);
    } else {
        assert(ms.take(k) == ms);
    }
}

fn encode_tool(t: &ToolDefinition) -> (v: JsonValue)
    ensures
        jv(v) == chat_tool(*t),
{
    let mut f = obj_new();
    obj_push(&mut f, "name", jv_string(trim_str(t.name.as_str())));
    let d: Option<JsonValue> = match &t.description {
        Some(d) => Some(jv_str(d.as_str())),
        None => None,
    };
    obj_push_opt(&mut f, "description", d);
    obj_push(&mut f, "parameters", json_clone(&t.parameters));
    assert(members_v(f@) =~= chat_function_members(*t));
    jv_obj2("type", jv_str("function"), "function", jv_object(f))
}

fn encode_tool_choice(c: &Option<ToolChoice>, has_tools: bool) -> (r: Option<JsonValue>)
    ensures
        match chat_tool_choice(*c, has_tools) {
            Some(j) => r matches Some(v) && jv(v) == j,
            None => r is None,
        },
{
    match c {
        None => if has_tools {
            Some(jv_str("auto"))
        } else {
            None
        },
        Some(ToolChoice::Auto) => Some(jv_str("auto")),
        Some(ToolChoice::Disabled) => Some(jv_str("none")),
        Some(ToolChoice::Required) => Some(jv_str("required")),
        Some(ToolChoice::Named { name }) => Some(
            jv_obj2("type", jv_str("function"), "function", jv_obj1("name", jv_str(name.as_str()))),
        ),
    }
}

/// Encode the Chat Completions body. Reasoning control is not supported; tools are
/// passed through. `temperature` is left to the caller, which writes it as a float.
pub fn chat_completions_body(request: &ChatRequest) -> (r: Result<JsonValue, ProtocolError>)
    ensures
        encoded_is(r, chat_body(*request)),
{
    if let Some(p) = &request.reasoning {
        if p.mode != ReasoningMode::Auto {
            return Err(
                wire_error(
                    ProtocolErrorKind::Unsupported,
                    "OpenAI Chat Completions 不支持推理控制（请使用 Responses 或 None/Auto）",
                ),
            );
        }
    }
    let messages = match encode_messages(&request.messages) {
        Ok(ms) => ms,
        Err(e) => {
            return Err(e);
        },
    };
    let ghost ms = jvs(messages@);
    let mut m = obj_new();
    obj_push(&mut m, "model", jv_string(trim_str(request.model.as_str())));
    obj_push(&mut m, "messages", jv_array(messages));
    obj_push(&mut m, "stream", jv_bool(true));
    obj_push(&mut m, "stream_options", jv_obj1("include_usage", jv_bool(true)));
    let max_tokens: Option<JsonValue> = match request.max_tokens {
        Some(n) => Some(jv_u32(n)),
        None => None,
    };
    obj_push_opt(&mut m, "max_tokens", max_tokens);
    let tools: Option<JsonValue> = match &request.tools {
        Some(ts) => {
            let mut arr = arr_new();
            let mut i: usize = 0;
            while i < ts.len()
                invariant
                    0 <= i <= ts@.len(),
                    jvs(arr@) == ts@.take(i as int).map_values(|t: ToolDefinition| chat_tool(t)),
                decreases ts.len() - i,
            {
                arr_push(&mut arr, encode_tool(&ts[i]));
                assert(ts@.take(i + 1).map_values(|t: ToolDefinition| chat_tool(t))
                    =~= ts@.take(i as int).map_values(|t: ToolDefinition| chat_tool(t)).push(chat_tool(ts@[i as int])));
                i = i + 1;
            }
            assert(ts@.take(ts@.len() as int) == ts@);
            Some(jv_array(arr))
        },
        None => None,
    };
    obj_push_opt(&mut m, "tools", tools);
    obj_push_opt(&mut m, "tool_choice", encode_tool_choice(&request.tool_choice, request.tools.is_some()));
    proof {
        let t = chat_tools(request.tools);
        let m0 = seq![
            ("model"@, JV::Str(trim(request.model@))),
            ("messages"@, JV::Arr(ms)),
            ("stream"@, JV::Bool(true)),
            ("stream_options"@, JV::Obj(seq![("include_usage"@, JV::Bool(true))])),
        ];
        let m1 = with_opt(m0, "max_tokens"@, match request.max_tokens {
            Some(n) => Some(num_u32(n)),
            None => None,
        });
        let m2 = with_opt(m1, "tools"@, t);
        assert(members_v(m@) =~= with_opt(m2, "tool_choice"@, chat_tool_choice(request.tool_choice, request.tools is Some)));
    }
    Ok(jv_object(m))
}


/// The output limit is sent: a Chat Completions body carries `max_tokens` equal to the
/// request's limit when it has one, and no `max_tokens` member when it has none.
pub proof fn law_chat_body_max_tokens(req: ChatRequest)
    ensures
        chat_body(req) matches Ok(JV::Obj(ms)) ==> match req.max_tokens {
            Some(n) => has_member(ms, "max_tokens"@, num_u32(n)),
            None => lacks_member(ms, "max_tokens"@),
        },
{
    reveal_strlit("max_tokens");
    reveal_strlit("model");
    reveal_strlit("messages");
    reveal_strlit("stream");
    reveal_strlit("stream_options");
    reveal_strlit("tools");
    reveal_strlit("tool_choice");
    assert("max_tokens"@.len() == 10 && "model"@.len() == 5 && "messages"@.len() == 8 && "stream"@.len() == 6
        && "stream_options"@.len() == 14 && "tools"@.len() == 5 && "tool_choice"@.len() == 11);
    if let Ok(JV::Obj(ms)) = chat_body(req) {
        let ms_v = chat_messages(req.messages@)->Ok_0;
        let m0 = seq![
            ("model"@, JV::Str(trim(req.model@))),
            ("messages"@, JV::Arr(ms_v)),
            ("stream"@, JV::Bool(true)),
            ("stream_options"@, JV::Obj(seq![("include_usage"@, JV::Bool(true))])),
        ];
        let lim = match req.max_tokens {
            Some(n) => Some(num_u32(n)),
            None => None,
        };
        let m1 = with_opt(m0, "max_tokens"@, lim);
        let m2 = with_opt(m1, "tools"@, chat_tools(req.tools));
        match req.max_tokens {
            Some(n) => {
                assert(m1[4] == ("max_tokens"@, num_u32(n)));
                assert(has_member(m1, "max_tokens"@, num_u32(n)));
                lemma_with_opt_keeps(m1, "tools"@, chat_tools(req.tools), "max_tokens"@, num_u32(n));
                lemma_with_opt_keeps(m2, "tool_choice"@, chat_tool_choice(req.tool_choice, req.tools is Some), "max_tokens"@, num_u32(n));
            },
            None => {
                assert forall|i: int| 0 <= i < m0.len() implies m0[i].0 != "max_tokens"@ by {
                    assert(m0[i].0.len() != 10);
                }
                lemma_with_opt_lacks(m1, "tools"@, chat_tools(req.tools), "max_tokens"@);
                lemma_with_opt_lacks(m2, "tool_choice"@, chat_tool_choice(req.tool_choice, req.tools is Some), "max_tokens"@);
            },
        }
    }
}


proof fn lemma_chat_messages_each(ms: Seq<ChatMessage>)
    ensures
        chat_messages(ms) matches Ok(js) ==> js.len() == ms.len() && forall|i: int|
            0 <= i < ms.len() ==> chat_message(ms[i]) == Ok::<JV, WireErr>(#[trigger] js[i]),
    decreases ms.len(),
{
    if ms.len() > 0 {
        lemma_chat_messages_each(ms.drop_last());
        if let Ok(js) = chat_messages(ms) {
            let p = chat_messages(ms.drop_last())->Ok_0;
            assert forall|i: int| 0 <= i < ms.len() implies chat_message(ms[i]) == Ok::<JV, WireErr>(
                #[trigger] js[i],
            ) by {
                if i < ms.len() - 1 {
                    assert(ms.drop_last()[i] == ms[i]);
                    assert(js[i] == p[i]);
                }
            }
        }
    }
}

/// A Chat Completions body names the trimmed model, asks for a stream with usage, and
/// sends one message per request message, in order; a message that is one text (user,
/// system or assistant, without tool calls) goes out as its role and that text.
pub proof fn law_chat_body_core(req: ChatRequest)
    ensures
        chat_body(req) matches Ok(JV::Obj(ms)) ==> {
            &&& has_member(ms, "model"@, JV::Str(trim(req.model@)))
            &&& has_member(ms, "stream"@, JV::Bool(true))
            &&& has_member(ms, "stream_options"@, JV::Obj(seq![("include_usage"@, JV::Bool(true))]))
            &&& exists|js: Seq<JV>| #![trigger has_member(ms, "messages"@, JV::Arr(js))]
                has_member(ms, "messages"@, JV::Arr(js)) && js.len() == req.messages@.len()
                && forall|i: int| 0 <= i < js.len() ==> chat_message(req.messages@[i]) == Ok::<JV, WireErr>(
                    #[trigger] js[i],
                )
        },
{
    if let Ok(JV::Obj(ms)) = chat_body(req) {
        let js = chat_messages(req.messages@)->Ok_0;
        lemma_chat_messages_each(req.messages@);
        let m0 = seq![
            ("model"@, JV::Str(trim(req.model@))),
            ("messages"@, JV::Arr(js)),
            ("stream"@, JV::Bool(true)),
            ("stream_options"@, JV::Obj(seq![("include_usage"@, JV::Bool(true))])),
        ];
        let lim = match req.max_tokens {
            Some(n) => Some(num_u32(n)),
            None => None,
        };
        let m1 = with_opt(m0, "max_tokens"@, lim);
        let m2 = with_opt(m1, "tools"@, chat_tools(req.tools));
        let tc = chat_tool_choice(req.tool_choice, req.tools is Some);
        assert(ms == with_opt(m2, "tool_choice"@, tc));
        assert forall|i: int| 0 <= i < 4 implies has_member(ms, m0[i].0, m0[i].1) by {
            assert(has_member(m0, m0[i].0, m0[i].1));
            lemma_with_opt_keeps(m0, "max_tokens"@, lim, m0[i].0, m0[i].1);
            lemma_with_opt_keeps(m1, "tools"@, chat_tools(req.tools), m0[i].0, m0[i].1);
            lemma_with_opt_keeps(m2, "tool_choice"@, tc, m0[i].0, m0[i].1);
        }
        assert(has_member(ms, m0[0].0, m0[0].1));
        assert(has_member(ms, m0[1].0, m0[1].1));
        assert(has_member(ms, m0[2].0, m0[2].1));
        assert(has_member(ms, m0[3].0, m0[3].1));
    }
}

/// A message that is one text part, from the user, the system or an assistant without
/// tool calls, goes out as its role name and exactly that text.
pub proof fn law_chat_text_message(m: ChatMessage, t: Seq<char>)
    requires
        m.role != ChatRole::Tool,
        m.tool_calls@.len() == 0,
        m.parts@.len() == 1,
        m.parts@[0] matches ContentPart::Text { text } && text@ == t,
    ensures
        chat_message(m) == Ok::<JV, WireErr>(
            JV::Obj(seq![("role"@, JV::Str(role_name(m.role))), ("content"@, JV::Str(t))]),
        ),
{
    let ps = m.parts@;
    assert(ps.drop_last() =~= Seq::<ContentPart>::empty());
    assert(ps.last() == ps[0]);
    assert(texts_of(ps.drop_last()) == Seq::<char>::empty());
    assert(text_count(ps.drop_last()) == 0);
    assert(texts_of(ps) =~= t);
    assert(text_count(ps) == 1);
    assert(!has_image_part(ps));
}

} // verus!
