//! The OpenAI Responses request body.

use vstd::prelude::*;

use crate::chat_request::trimmed_nonblank;
use crate::error::{ProtocolError, ProtocolErrorKind};
use crate::json::{
    arr_new, arr_push, json_clone, jv, jv_array, jv_bool, jv_obj1, jv_obj2, jv_obj3, jv_object,
    jv_str, jv_string, jv_u32, jvs, members_v, num_u32, obj_new, obj_push, obj_push_opt,
    JsonValue, JV,
};
use crate::openai_wire::{detail_jv, opt_str_jv};
use crate::text::{owned, trim, trim_str};
use crate::types::{
    role_name, texts_of, ChatMessage, ChatRequest, ChatRole, ContentPart, ReasoningEffort,
    ReasoningMode, ReasoningPolicy, ToolCall, ToolChoice, ToolDefinition,
};
use crate::wire::{
    data_url, encoded_is, format_data_url, has_image_part, opt_seq, scan_parts, text_count,
    has_member, lacks_member, lemma_with_opt_keeps, lemma_with_opt_lacks, wire_err_is, wire_error, with_opt, WireErr,
};

verus! {

/// The wire name of an effort.
pub open spec fn effort_name(e: ReasoningEffort) -> Seq<char> {
    match e {
        ReasoningEffort::Minimal => "minimal"@,
        ReasoningEffort::Low => "low"@,
        ReasoningEffort::Medium => "medium"@,
        ReasoningEffort::High => "high"@,
        ReasoningEffort::XHigh => "xhigh"@,
        ReasoningEffort::Max => "max"@,
    }
}

/// The wire name of an effort, `medium` when none is given.
pub open spec fn effort_or_medium(e: Option<ReasoningEffort>) -> Seq<char> {
    match e {
        Some(v) => effort_name(v),
        None => "medium"@,
    }
}

/// The `reasoning` member: none for no policy or `Auto`; `none` effort for `Off`; the
/// effort (`medium` by default) with an automatic summary for `On`. `Max` has no wire
/// value and is refused; the budget is not sent.
pub open spec fn responses_reasoning(p: Option<ReasoningPolicy>) -> Result<Option<JV>, WireErr> {
    match p {
        None => Ok(None),
        Some(x) => match x.mode {
            ReasoningMode::Auto => Ok(None),
            ReasoningMode::Off => Ok(Some(JV::Obj(seq![("effort"@, JV::Str("none"@))]))),
            ReasoningMode::On => if x.effort == Some(ReasoningEffort::Max) {
                Err((ProtocolErrorKind::Unsupported, "OpenAI Responses 不支持 ReasoningEffort::Max（官方无 max）"@))
            } else {
                Ok(
                    Some(
                        JV::Obj(
                            seq![
                                ("effort"@, JV::Str(effort_or_medium(x.effort))),
                                ("summary"@, JV::Str("auto"@)),
                            ],
                        ),
                    ),
                )
            },
        },
    }
}

/// One content part as an input part, if it makes one (empty text makes none).
pub open spec fn responses_part(p: ContentPart) -> Seq<JV> {
    match p {
        ContentPart::Text { text } => if text@.len() == 0 {
            seq![]
        } else {
            seq![JV::Obj(seq![("type"@, JV::Str("input_text"@)), ("text"@, JV::Str(text@))])]
        },
        ContentPart::ImageUrl { url, detail } => seq![
            JV::Obj(
                with_opt(
                    seq![("type"@, JV::Str("input_image"@)), ("image_url"@, JV::Str(url@))],
                    "detail"@,
                    detail_jv(detail),
                ),
            ),
        ],
        ContentPart::ImageBase64 { media_type, data } => seq![
            JV::Obj(
                seq![
                    ("type"@, JV::Str("input_image"@)),
                    ("image_url"@, JV::Str(data_url(media_type@, data@))),
                ],
            ),
        ],
    }
}

/// The input parts of all content parts, in order.
pub open spec fn responses_parts(parts: Seq<ContentPart>) -> Seq<JV>
    decreases parts.len(),
{
    if parts.len() == 0 {
        seq![]
    } else {
        responses_parts(parts.drop_last()) + responses_part(parts.last())
    }
}

/// A message's content: a string for a single non-empty text, an array of parts when
/// there are images or several texts; none when nothing is left.
pub open spec fn responses_content(m: ChatMessage) -> Option<JV> {
    if !has_image_part(m.parts@) && text_count(m.parts@) <= 1 {
        let t = texts_of(m.parts@);
        if t.len() == 0 {
            None
        } else {
            Some(JV::Str(t))
        }
    } else {
        let ps = responses_parts(m.parts@);
        if ps.len() == 0 {
            None
        } else {
            Some(JV::Arr(ps))
        }
    }
}

/// An assistant tool call as a `function_call` item.
pub open spec fn function_call_item(tc: ToolCall) -> JV {
    JV::Obj(
        seq![
            ("type"@, JV::Str("function_call"@)),
            ("call_id"@, JV::Str(tc.id@)),
            ("name"@, JV::Str(tc.name@)),
            ("arguments"@, JV::Str(tc.arguments@)),
        ],
    )
}

/// The input items of one message.
pub open spec fn responses_items(m: ChatMessage) -> Result<Seq<JV>, WireErr> {
    if m.role == ChatRole::Tool {
        match trimmed_nonblank(opt_seq(m.tool_call_id)) {
            None => Err((ProtocolErrorKind::InvalidRequest, "Tool 消息必须提供 tool_call_id"@)),
            Some(id) => Ok(
                seq![
                    JV::Obj(
                        seq![
                            ("type"@, JV::Str("function_call_output"@)),
                            ("call_id"@, JV::Str(id)),
                            ("output"@, JV::Str(texts_of(m.parts@))),
                        ],
                    ),
                ],
            ),
        }
    } else if m.role == ChatRole::Assistant && m.tool_calls@.len() > 0 {
        let lead = match responses_content(m) {
            Some(c) => seq![JV::Obj(seq![("role"@, JV::Str("assistant"@)), ("content"@, c)])],
            None => seq![],
        };
        Ok(lead + m.tool_calls@.map_values(|t: ToolCall| function_call_item(t)))
    } else {
        match responses_content(m) {
            None => Err((ProtocolErrorKind::InvalidRequest, "消息 content 编码结果为空"@)),
            Some(c) => Ok(seq![JV::Obj(seq![("role"@, JV::Str(role_name(m.role))), ("content"@, c)])]),
        }
    }
}

/// The input items of all messages, in order; the first failure stops the encoding.
pub open spec fn responses_input(ms: Seq<ChatMessage>) -> Result<Seq<JV>, WireErr>
    decreases ms.len(),
{
    if ms.len() == 0 {
        Ok(seq![])
    } else {
        match responses_input(ms.drop_last()) {
            Err(e) => Err(e),
            Ok(prefix) => match responses_items(ms.last()) {
                Err(e) => Err(e),
                Ok(items) => Ok(prefix + items),
            },
        }
    }
}

/// A tool definition on the wire.
pub open spec fn responses_tool(t: ToolDefinition) -> JV {
    JV::Obj(
        with_opt(
            seq![("type"@, JV::Str("function"@)), ("name"@, JV::Str(trim(t.name@)))],
            "description"@,
            opt_str_jv(t.description),
        ).push(("parameters"@, jv(t.parameters))),
    )
}

/// The wire tool list, when tools are given.
pub open spec fn responses_tools(t: Option<Vec<ToolDefinition>>) -> Option<JV> {
    match t {
        Some(ts) => Some(JV::Arr(ts@.map_values(|t: ToolDefinition| responses_tool(t)))),
        None => None,
    }
}

/// The wire `tool_choice`: `auto` when tools are given without a choice.
pub open spec fn responses_tool_choice(c: Option<ToolChoice>, has_tools: bool) -> Option<JV> {
    match c {
        None => if has_tools {
            Some(JV::Str("auto"@))
        } else {
            None
        },
        Some(ToolChoice::Auto) => Some(JV::Str("auto"@)),
        Some(ToolChoice::Disabled) => Some(JV::Str("none"@)),
        Some(ToolChoice::Required) => Some(JV::Str("required"@)),
        Some(ToolChoice::Named { name }) => Some(
            JV::Obj(seq![("type"@, JV::Str("function"@)), ("name"@, JV::Str(name@))]),
        ),
    }
}

/// The request body (without `temperature`, which the caller writes as a float).
pub open spec fn responses_body(req: ChatRequest) -> Result<JV, WireErr> {
    match responses_reasoning(req.reasoning) {
        Err(e) => Err(e),
        Ok(reasoning) => match responses_input(req.messages@) {
            Err(e) => Err(e),
            Ok(input) => {
                let m0 = seq![
                    ("model"@, JV::Str(trim(req.model@))),
                    ("input"@, JV::Arr(input)),
                    ("stream"@, JV::Bool(true)),
                    ("store"@, JV::Bool(false)),
                ];
                let m1 = with_opt(m0, "max_output_tokens"@, match req.max_tokens {
                    Some(n) => Some(num_u32(n)),
                    None => None,
                });
                let m2 = with_opt(m1, "reasoning"@, reasoning);
                let m3 = with_opt(m2, "tools"@, responses_tools(req.tools));
                Ok(JV::Obj(with_opt(m3, "tool_choice"@, responses_tool_choice(req.tool_choice, req.tools is Some))))
            },
        },
    }
}

fn effort_wire_name(e: ReasoningEffort) -> (s: &'static str)
    ensures
        s@ == effort_name(e),
{
    match e {
        ReasoningEffort::Minimal => "minimal",
        ReasoningEffort::Low => "low",
        ReasoningEffort::Medium => "medium",
        ReasoningEffort::High => "high",
        ReasoningEffort::XHigh => "xhigh",
        ReasoningEffort::Max => "max",
    }
}

fn encode_reasoning(p: &Option<ReasoningPolicy>) -> (r: Result<Option<JsonValue>, ProtocolError>)
    ensures
        match responses_reasoning(*p) {
            Ok(None) => r matches Ok(None),
            Ok(Some(j)) => r matches Ok(Some(v)) && jv(v) == j,
            Err(e) => r matches Err(x) && wire_err_is(x, e),
        },
{
    let p = match p {
        None => {
            return Ok(None);
        },
        Some(p) => p,
    };
    match p.mode {
        ReasoningMode::Auto => Ok(None),
        ReasoningMode::Off => {
            let v = jv_obj1("effort", jv_str("none"));
            assert(responses_reasoning(Some(*p)) == Ok::<Option<JV>, WireErr>(Some(jv(v))));
            Ok(Some(v))
        },
        ReasoningMode::On => {
            let effort: &str = match p.effort {
                None => "medium",
                Some(ReasoningEffort::Max) => {
                    return Err(
                        wire_error(
                            ProtocolErrorKind::Unsupported,
                            "OpenAI Responses 不支持 ReasoningEffort::Max（官方无 max）",
                        ),
                    );
                },
                Some(e) => effort_wire_name(e),
            };
            assert(effort@ == effort_or_medium(p.effort));
            let v = jv_obj2("effort", jv_str(effort), "summary", jv_str("auto"));
            let ghost want = JV::Obj(seq![("effort"@, JV::Str(effort@)), ("summary"@, JV::Str("auto"@))]);
            assert(jv(v) == want);
            assert(responses_reasoning(Some(*p)) == Ok::<Option<JV>, WireErr>(Some(want)));
            Ok(Some(v))
        },
    }
}

fn encode_part(p: &ContentPart, out: &mut Vec<JsonValue>)
    ensures
        jvs(final(out)@) == jvs(old(out)@) + responses_part(*p),
{
    let ghost before = jvs(out@);
    match p {
        ContentPart::Text { text } => {
            if text.as_str().is_empty() {
                assert(before + responses_part(*p) =~= before);
                return;
            }
            arr_push(out, jv_obj2("type", jv_str("input_text"), "text", jv_str(text.as_str())));
            assert(jvs(out@) =~= before + responses_part(*p));
        },
        ContentPart::ImageUrl { url, detail } => {
            let mut m = obj_new();
            obj_push(&mut m, "type", jv_str("input_image"));
            obj_push(&mut m, "image_url", jv_str(url.as_str()));
            let d: Option<JsonValue> = match detail {
                Some(d) => {
                    let t = trim_str(d.as_str());
                    if t.as_str().is_empty() {
                        None
                    } else {
                        Some(jv_string(t))
                    }
                },
                None => None,
            };
            obj_push_opt(&mut m, "detail", d);
            let ghost want = with_opt(
                seq![("type"@, JV::Str("input_image"@)), ("image_url"@, JV::Str(url@))],
                "detail"@,
                detail_jv(*detail),
            );
            assert(members_v(m@) =~= want);
            let o = jv_object(m);
            arr_push(out, o);
            assert(jvs(out@) =~= before + responses_part(*p));
        },
        ContentPart::ImageBase64 { media_type, data } => {
            arr_push(
                out,
                jv_obj2(
                    "type",
                    jv_str("input_image"),
                    "image_url",
                    jv_string(format_data_url(media_type.as_str(), data.as_str())),
                ),
            );
            assert(jvs(out@) =~= before + responses_part(*p));
        },
    }
}

fn encode_content(m: &ChatMessage) -> (r: Option<JsonValue>)
    ensures
        match responses_content(*m) {
            Some(j) => r matches Some(v) && jv(v) == j,
            None => r is None,
        },
{
    let (image, texts) = scan_parts(&m.parts);
    if !image && texts <= 1 {
        let t = m.text_content();
        if t.as_str().is_empty() {
            return None;
        }
        return Some(jv_string(t));
    }
    let mut out = arr_new();
    let mut i: usize = 0;
    while i < m.parts.len()
        invariant
            0 <= i <= m.parts@.len(),
            jvs(out@) == responses_parts(m.parts@.take(i as int)),
        decreases m.parts.len() - i,
    {
        proof {
            assert(m.parts@.take(i + 1).drop_last() == m.parts@.take(i as int));
            assert(m.parts@.take(i + 1).last() == m.parts@[i as int]);
        }
        encode_part(&m.parts[i], &mut out);
        i = i + 1;
    }
    assert(m.parts@.take(m.parts@.len() as int) == m.parts@);
    if out.len() == 0 {
        return None;
    }
    Some(jv_array(out))
}

fn encode_function_call(tc: &ToolCall) -> (v: JsonValue)
    ensures
        jv(v) == function_call_item(*tc),
{
    let mut m = obj_new();
    obj_push(&mut m, "type", jv_str("function_call"));
    obj_push(&mut m, "call_id", jv_str(tc.id.as_str()));
    obj_push(&mut m, "name", jv_str(tc.name.as_str()));
    obj_push(&mut m, "arguments", jv_str(tc.arguments.as_str()));
    assert(members_v(m@) =~= seq![
        ("type"@, JV::Str("function_call"@)),
        ("call_id"@, JV::Str(tc.id@)),
        ("name"@, JV::Str(tc.name@)),
        ("arguments"@, JV::Str(tc.arguments@)),
    ]);
    jv_object(m)
}

fn encode_items(m: &ChatMessage, out: &mut Vec<JsonValue>) -> (r: Result<(), ProtocolError>)
    ensures
        match responses_items(*m) {
            Ok(items) => r is Ok && jvs(final(out)@) == jvs(old(out)@) + items,
            Err(e) => r matches Err(x) && wire_err_is(x, e),
        },
{
    let ghost before = jvs(out@);
    if m.role == ChatRole::Tool {
        let id = match &m.tool_call_id {
            Some(s) => {
                let t = trim_str(s.as_str());
                if t.as_str().is_empty() {
                    None
                } else {
                    Some(t)
                }
            },
            None => None,
        };
        let id = match id {
            Some(t) => t,
            None => {
                return Err(wire_error(ProtocolErrorKind::InvalidRequest, "Tool 消息必须提供 tool_call_id"));
            },
        };
        arr_push(
            out,
            jv_obj3(
                "type",
                jv_str("function_call_output"),
                "call_id",
                jv_string(id),
                "output",
                jv_string(m.text_content()),
            ),
        );
        assert(jvs(out@) =~= before + responses_items(*m)->Ok_0);
        return Ok(());
    }
    if m.role == ChatRole::Assistant && m.tool_calls.len() > 0 {
        if let Some(c) = encode_content(m) {
            arr_push(out, jv_obj2("role", jv_str("assistant"), "content", c));
        }
        let ghost lead = jvs(out@);
        let mut i: usize = 0;
        while i < m.tool_calls.len()
            invariant
                0 <= i <= m.tool_calls@.len(),
                jvs(out@) == lead + m.tool_calls@.take(i as int).map_values(|t: ToolCall| function_call_item(t)),
            decreases m.tool_calls.len() - i,
        {
            arr_push(out, encode_function_call(&m.tool_calls[i]));
            assert(lead + m.tool_calls@.take(i + 1).map_values(|t: ToolCall| function_call_item(t))
                =~= (lead + m.tool_calls@.take(i as int).map_values(|t: ToolCall| function_call_item(t))).push(
                function_call_item(m.tool_calls@[i as int]),
            ));
            i = i + 1;
        }
        assert(m.tool_calls@.take(m.tool_calls@.len() as int) == m.tool_calls@);
        assert(jvs(out@) =~= before + responses_items(*m)->Ok_0);
        return Ok(());
    }
    match encode_content(m) {
        None => Err(wire_error(ProtocolErrorKind::InvalidRequest, "消息 content 编码结果为空")),
        Some(c) => {
            arr_push(out, jv_obj2("role", jv_str(m.role.as_str()), "content", c));
            assert(jvs(out@) =~= before + responses_items(*m)->Ok_0);
            Ok(())
        },
    }
}

proof fn lemma_responses_input_error(ms: Seq<ChatMessage>, k: int)
    requires
        0 <= k <= ms.len(),
        responses_input(ms.take(k)) is Err,
    ensures
        responses_input(ms) == responses_input(ms.take(k)),
    decreases ms.len() - k,
{
    if k < ms.len() {
        assert(ms.take(k + 1).drop_last() == ms.take(k));
        lemma_responses_input_error(ms, k + 1);
    } else {
        assert(ms.take(k) == ms);
    }
}

fn encode_tool(t: &ToolDefinition) -> (v: JsonValue)
    ensures
        jv(v) == responses_tool(*t),
{
    let mut f = obj_new();
    obj_push(&mut f, "type", jv_str("function"));
    obj_push(&mut f, "name", jv_string(trim_str(t.name.as_str())));
    let d: Option<JsonValue> = match &t.description {
        Some(d) => Some(jv_str(d.as_str())),
        None => None,
    };
    obj_push_opt(&mut f, "description", d);
    obj_push(&mut f, "parameters", json_clone(&t.parameters));
    let ghost want = with_opt(
        seq![("type"@, JV::Str("function"@)), ("name"@, JV::Str(trim(t.name@)))],
        "description"@,
        opt_str_jv(t.description),
    ).push(("parameters"@, jv(t.parameters)));
    assert(members_v(f@) =~= want);
    jv_object(f)
}

fn encode_tool_choice(c: &Option<ToolChoice>, has_tools: bool) -> (r: Option<JsonValue>)
    ensures
        match responses_tool_choice(*c, has_tools) {
            Some(j) => r matches Some(v) && jv(v) == j,
            None => r is None,
        },
{
    match c {
        None => if has_tools {
            Some(jv_str("auto"))
        } else {
            None
        },
        Some(ToolChoice::Auto) => Some(jv_str("auto")),
        Some(ToolChoice::Disabled) => Some(jv_str("none")),
        Some(ToolChoice::Required) => Some(jv_str("required")),
        Some(ToolChoice::Named { name }) => Some(jv_obj2("type", jv_str("function"), "name", jv_str(name.as_str()))),
    }
}

/// Encode the Responses body: reasoning effort, input items (tool results as
/// `function_call_output`, tool calls as `function_call`), tools passed through, no
/// storage. `temperature` is left to the caller, which writes it as a float.
#[verifier::loop_isolation(false)]
pub fn responses_request_body(request: &ChatRequest) -> (r: Result<JsonValue, ProtocolError>)
    ensures
        encoded_is(r, responses_body(*request)),
{
    let reasoning = match encode_reasoning(&request.reasoning) {
        Ok(x) => x,
        Err(e) => {
            return Err(e);
        },
    };
    let mut input = arr_new();
    let mut i: usize = 0;
    assert(request.messages@.take(0) =~= Seq::<ChatMessage>::empty());
    while i < request.messages.len()
        invariant
            0 <= i <= request.messages@.len(),
            responses_input(request.messages@.take(i as int)) == Ok::<Seq<JV>, WireErr>(jvs(input@)),
        decreases request.messages.len() - i,
    {
        proof {
            assert(request.messages@.take(i + 1).drop_last() == request.messages@.take(i as int));
            assert(request.messages@.take(i + 1).last() == request.messages@[i as int]);
        }
        match encode_items(&request.messages[i], &mut input) {
            Ok(()) => {},
            Err(e) => {
                proof {
                    lemma_responses_input_error(request.messages@, i + 1);
                }
                return Err(e);
            },
        }
        i = i + 1;
    }
    assert(request.messages@.take(request.messages@.len() as int) == request.messages@);
    let ghost items = jvs(input@);
    let mut m = obj_new();
    obj_push(&mut m, "model", jv_string(trim_str(request.model.as_str())));
    obj_push(&mut m, "input", jv_array(input));
    obj_push(&mut m, "stream", jv_bool(true));
    obj_push(&mut m, "store", jv_bool(false));
    let max_tokens: Option<JsonValue> = match request.max_tokens {
        Some(n) => Some(jv_u32(n)),
        None => None,
    };
    obj_push_opt(&mut m, "max_output_tokens", max_tokens);
    obj_push_opt(&mut m, "reasoning", reasoning);
    let tools: Option<JsonValue> = match &request.tools {
        Some(ts) => {
            let mut arr = arr_new();
            let mut k: usize = 0;
            while k < ts.len()
                invariant
                    0 <= k <= ts@.len(),
                    jvs(arr@) == ts@.take(k as int).map_values(|t: ToolDefinition| responses_tool(t)),
                decreases ts.len() - k,
            {
                arr_push(&mut arr, encode_tool(&ts[k]));
                assert(ts@.take(k + 1).map_values(|t: ToolDefinition| responses_tool(t))
                    =~= ts@.take(k as int).map_values(|t: ToolDefinition| responses_tool(t)).push(responses_tool(ts@[k as int])));
                k = k + 1;
            }
            assert(ts@.take(ts@.len() as int) == ts@);
            Some(jv_array(arr))
        },
        None => None,
    };
    obj_push_opt(&mut m, "tools", tools);
    obj_push_opt(&mut m, "tool_choice", encode_tool_choice(&request.tool_choice, request.tools.is_some()));
    proof {
        let m0 = seq![
            ("model"@, JV::Str(trim(request.model@))),
            ("input"@, JV::Arr(items)),
            ("stream"@, JV::Bool(true)),
            ("store"@, JV::Bool(false)),
        ];
        let m1 = with_opt(m0, "max_output_tokens"@, match request.max_tokens {
            Some(n) => Some(num_u32(n)),
            None => None,
        });
        let m2 = with_opt(m1, "reasoning"@, responses_reasoning(request.reasoning)->Ok_0);
        let m3 = with_opt(m2, "tools"@, responses_tools(request.tools));
        assert(members_v(m@) =~= with_opt(m3, "tool_choice"@, responses_tool_choice(request.tool_choice, request.tools is Some)));
    }
    Ok(jv_object(m))
}


/// The output limit is sent: a Responses body carries `max_output_tokens` equal to the
/// request's limit when it has one, and no such member when it has none.
pub proof fn law_responses_body_max_tokens(req: ChatRequest)
    ensures
        responses_body(req) matches Ok(JV::Obj(ms)) ==> match req.max_tokens {
            Some(n) => has_member(ms, "max_output_tokens"@, num_u32(n)),
            None => lacks_member(ms, "max_output_tokens"@),
        },
{
    reveal_strlit("max_output_tokens");
    reveal_strlit("model");
    reveal_strlit("input");
    reveal_strlit("stream");
    reveal_strlit("store");
    reveal_strlit("reasoning");
    reveal_strlit("tools");
    reveal_strlit("tool_choice");
    assert("max_output_tokens"@.len() == 17 && "model"@.len() == 5 && "input"@.len() == 5 && "stream"@.len() == 6
        && "store"@.len() == 5 && "reasoning"@.len() == 9 && "tools"@.len() == 5 && "tool_choice"@.len() == 11);
    if let Ok(JV::Obj(ms)) = responses_body(req) {
        let reasoning = responses_reasoning(req.reasoning)->Ok_0;
        let input = responses_input(req.messages@)->Ok_0;
        let m0 = seq![
            ("model"@, JV::Str(trim(req.model@))),
            ("input"@, JV::Arr(input)),
            ("stream"@, JV::Bool(true)),
            ("store"@, JV::Bool(false)),
        ];
        let lim = match req.max_tokens {
            Some(n) => Some(num_u32(n)),
            None => None,
        };
        let m1 = with_opt(m0, "max_output_tokens"@, lim);
        let m2 = with_opt(m1, "reasoning"@, reasoning);
        let m3 = with_opt(m2, "tools"@, responses_tools(req.tools));
        let k = "max_output_tokens"@;
        match req.max_tokens {
            Some(n) => {
                assert(m1[4] == (k, num_u32(n)));
                lemma_with_opt_keeps(m1, "reasoning"@, reasoning, k, num_u32(n));
                lemma_with_opt_keeps(m2, "tools"@, responses_tools(req.tools), k, num_u32(n));
                lemma_with_opt_keeps(m3, "tool_choice"@, responses_tool_choice(req.tool_choice, req.tools is Some), k, num_u32(n));
            },
            None => {
                assert forall|i: int| 0 <= i < m0.len() implies m0[i].0 != k by {
                    assert(m0[i].0.len() != 17);
                }
                lemma_with_opt_lacks(m1, "reasoning"@, reasoning, k);
                lemma_with_opt_lacks(m2, "tools"@, responses_tools(req.tools), k);
                lemma_with_opt_lacks(m3, "tool_choice"@, responses_tool_choice(req.tool_choice, req.tools is Some), k);
            },
        }
    }
}

} // verus!
