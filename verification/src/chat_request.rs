//! Request-side settings of a chat: reasoning policy, tools and tool choice, from the
//! window's input or from what is stored on the model and provider.

use vstd::prelude::*;

use crate::app_error::{plain_app_error, AppError, StorageError};
use crate::json::{is_object, json_clone, json_is_object, JsonValue};
use crate::text::{ascii_lower, is_blank_str, lower_str, owned, push_str, str_eq, trim, trim_str};
use crate::types::{
    ChatMessage, ChatRole, ContentPart, ProtocolKind, ReasoningEffort, ReasoningMode,
    ReasoningPolicy, ToolChoice, ToolDefinition, strings_view,
};

verus! {

/// Per-request reasoning control from the window.
#[derive(Debug, Clone)]
pub struct ReasoningPolicyInput {
    /// `auto` | `off` | `on`
    pub mode: String,
    pub effort: Option<String>,
    pub budget_tokens: Option<u32>,
}

/// `tool_choice` from the window or from settings.
#[derive(Debug, Clone)]
pub struct ToolChoiceInput {
    /// `auto` | `none` | `required` | `named`
    pub mode: String,
    pub name: Option<String>,
}

/// A tool definition from the window or from settings.
#[derive(Debug, Clone)]
pub struct ToolDefinitionInput {
    pub name: String,
    pub description: Option<String>,
    pub parameters: JsonValue,
}

/// Reasoning settings stored on a model (absent or `auto` means no request control).
#[derive(Debug, Clone)]
pub struct StoredReasoningSettings {
    /// `auto` | `off` | `on`
    pub mode: String,
    pub effort: Option<String>,
    pub budget_tokens: Option<u32>,
}

/// `tool_choice` stored on a provider.
#[derive(Debug, Clone)]
pub struct StoredToolChoice {
    /// `auto` | `none` | `required` | `named`
    pub mode: String,
    pub name: Option<String>,
}

/// A tool stored on a provider (passed through to the wire; never run).
#[derive(Debug, Clone)]
pub struct StoredToolDefinition {
    pub name: String,
    pub description: Option<String>,
    pub parameters: JsonValue,
}

/// An extra HTTP header stored on a provider.
#[derive(Clone)]
pub struct StoredExtraHeader {
    pub name: String,
    pub value: String,
}

/// What `format!("{:?}", s)` prints for a string: the text in double quotes, with `"`,
/// `\\` and characters that do not print escaped (single quotes are left as they are).
pub uninterp spec fn str_debug(s: Seq<char>) -> Seq<char>;

/// `format!("{:?}", s)`.
#[verifier::external_body]
fn debug_str(s: &str) -> (r: String)
    ensures
        r@ == str_debug(s@),
{
    format!("{:?}", s)
}

/// The debug form of a stored header: its name, and `***` in place of its value.
pub open spec fn header_debug_text(name: Seq<char>) -> Seq<char> {
    "StoredExtraHeader { name: "@ + str_debug(name) + ", value: \"***\" }"@
}

impl StoredExtraHeader {
    /// The header as its debug form shows it; the value never appears.
    pub fn debug_string(&self) -> (r: String)
        ensures
            r@ == header_debug_text(self.name@),
    {
        let mut r = owned("StoredExtraHeader { name: ");
        let n = debug_str(self.name.as_str());
        push_str(&mut r, n.as_str());
        push_str(&mut r, ", value: \"***\" }");
        r
    }
}

// ---------------------------------------------------------------------------
// Outcomes
// ---------------------------------------------------------------------------

/// `r` is a validation error with `message`.
pub open spec fn is_validation(r: AppError, message: Seq<char>) -> bool {
    plain_app_error(r, "validation"@, message, false)
}

/// `e` is a storage validation error with `message`.
pub open spec fn is_storage_validation(e: StorageError, message: Seq<char>) -> bool {
    e matches StorageError::Validation(m) && m@ == message
}

/// A present text, trimmed, when it is not blank.
pub open spec fn trimmed_nonblank(t: Option<Seq<char>>) -> Option<Seq<char>> {
    match t {
        Some(s) => if trim(s).len() > 0 {
            Some(trim(s))
        } else {
            None
        },
        None => None,
    }
}

pub(crate) fn trimmed_nonblank_exec(t: &Option<String>) -> (r: Option<String>)
    ensures
        r.deep_view() == trimmed_nonblank(t.deep_view()),
{
    match t {
        Some(s) => {
            let x = trim_str(s.as_str());
            if x.as_str().is_empty() {
                None
            } else {
                Some(x)
            }
        },
        None => None,
    }
}

// ---------------------------------------------------------------------------
// Reasoning
// ---------------------------------------------------------------------------

/// The effort a lower-case name stands for.
pub open spec fn effort_named(l: Seq<char>) -> Option<ReasoningEffort> {
    if l == "minimal"@ {
        Some(ReasoningEffort::Minimal)
    } else if l == "low"@ {
        Some(ReasoningEffort::Low)
    } else if l == "medium"@ {
        Some(ReasoningEffort::Medium)
    } else if l == "high"@ {
        Some(ReasoningEffort::High)
    } else if l == "xhigh"@ || l == "x_high"@ {
        Some(ReasoningEffort::XHigh)
    } else if l == "max"@ {
        Some(ReasoningEffort::Max)
    } else {
        None
    }
}

/// Read an effort name (ASCII case ignored).
pub fn parse_reasoning_effort(raw: &str) -> (r: Result<ReasoningEffort, AppError>)
    ensures
        match effort_named(ascii_lower(raw@)) {
            Some(e) => r == Ok::<ReasoningEffort, AppError>(e),
            None => r matches Err(err) && is_validation(
                err,
                "不支持的 reasoning.effort: "@ + ascii_lower(raw@),
            ),
        },
{
    let l = lower_str(raw);
    let s = l.as_str();
    if str_eq(s, "minimal") {
        Ok(ReasoningEffort::Minimal)
    } else if str_eq(s, "low") {
        Ok(ReasoningEffort::Low)
    } else if str_eq(s, "medium") {
        Ok(ReasoningEffort::Medium)
    } else if str_eq(s, "high") {
        Ok(ReasoningEffort::High)
    } else if str_eq(s, "xhigh") || str_eq(s, "x_high") {
        Ok(ReasoningEffort::XHigh)
    } else if str_eq(s, "max") {
        Ok(ReasoningEffort::Max)
    } else {
        let mut m = owned("不支持的 reasoning.effort: ");
        push_str(&mut m, s);
        Err(AppError::validation(m))
    }
}

/// What reasoning input resolves to.
pub enum ReasoningOutcome {
    /// No request-side control.
    NoPolicy,
    Policy(ReasoningPolicy),
    /// A validation error with this message.
    Invalid(Seq<char>),
}

/// A reasoning input: `auto` or blank mode means none; `off` / `on` with an optional
/// effort (blank means none) and the budget as given.
pub open spec fn reasoning_of(mode: Seq<char>, effort: Option<Seq<char>>, budget: Option<u32>) -> ReasoningOutcome {
    let l = ascii_lower(trim(mode));
    if l == "auto"@ || l.len() == 0 {
        ReasoningOutcome::NoPolicy
    } else if l != "off"@ && l != "on"@ {
        ReasoningOutcome::Invalid("不支持的 reasoning.mode: "@ + l)
    } else {
        let m = if l == "off"@ {
            ReasoningMode::Off
        } else {
            ReasoningMode::On
        };
        match trimmed_nonblank(effort) {
            None => ReasoningOutcome::Policy(ReasoningPolicy { mode: m, effort: None, budget_tokens: budget }),
            Some(e) => match effort_named(ascii_lower(e)) {
                Some(x) => ReasoningOutcome::Policy(
                    ReasoningPolicy { mode: m, effort: Some(x), budget_tokens: budget },
                ),
                None => ReasoningOutcome::Invalid("不支持的 reasoning.effort: "@ + ascii_lower(e)),
            },
        }
    }
}

/// `r` is the outcome `o`.
pub open spec fn reasoning_result_is(r: Result<Option<ReasoningPolicy>, AppError>, o: ReasoningOutcome) -> bool {
    match o {
        ReasoningOutcome::NoPolicy => r == Ok::<Option<ReasoningPolicy>, AppError>(None),
        ReasoningOutcome::Policy(p) => r == Ok::<Option<ReasoningPolicy>, AppError>(Some(p)),
        ReasoningOutcome::Invalid(m) => r matches Err(e) && is_validation(e, m),
    }
}

fn reasoning_from_parts(mode: &str, effort: &Option<String>, budget: Option<u32>) -> (r: Result<
    Option<ReasoningPolicy>,
    AppError,
>)
    ensures
        reasoning_result_is(r, reasoning_of(mode@, effort.deep_view(), budget)),
{
    let l = lower_str(trim_str(mode).as_str());
    let s = l.as_str();
    if str_eq(s, "auto") || s.is_empty() {
        return Ok(None);
    }
    let m = if str_eq(s, "off") {
        ReasoningMode::Off
    } else if str_eq(s, "on") {
        ReasoningMode::On
    } else {
        let mut msg = owned("不支持的 reasoning.mode: ");
        push_str(&mut msg, s);
        return Err(AppError::validation(msg));
    };
    let effort = match trimmed_nonblank_exec(effort) {
        None => None,
        Some(raw) => match parse_reasoning_effort(raw.as_str()) {
            Ok(e) => Some(e),
            Err(e) => {
                return Err(e);
            },
        },
    };
    Ok(Some(ReasoningPolicy { mode: m, effort, budget_tokens: budget }))
}

/// Map the window's reasoning input to an SDK policy; none, or mode `auto`, means no
/// request-side control.
pub fn parse_reasoning_input(input: Option<&ReasoningPolicyInput>) -> (r: Result<
    Option<ReasoningPolicy>,
    AppError,
>)
    ensures
        match input {
            None => r == Ok::<Option<ReasoningPolicy>, AppError>(None),
            Some(i) => reasoning_result_is(
                r,
                reasoning_of(i.mode@, i.effort.deep_view(), i.budget_tokens),
            ),
        },
{
    match input {
        None => Ok(None),
        Some(i) => reasoning_from_parts(i.mode.as_str(), &i.effort, i.budget_tokens),
    }
}

/// Stored settings that mean no request-side control: mode `auto` or blank, no effort,
/// no budget.
pub open spec fn effective_none(s: StoredReasoningSettings) -> bool {
    let l = ascii_lower(trim(s.mode@));
    (l == "auto"@ || l.len() == 0) && s.effort is None && s.budget_tokens is None
}

/// An effort name the settings accept.
pub open spec fn effort_name_ok(l: Seq<char>) -> bool {
    l == "minimal"@ || l == "low"@ || l == "medium"@ || l == "high"@ || l == "xhigh"@ || l
        == "x_high"@ || l == "max"@
}

/// The first rule stored reasoning settings break.
pub open spec fn stored_reasoning_error(s: StoredReasoningSettings) -> Option<Seq<char>> {
    let l = ascii_lower(trim(s.mode@));
    if l != "auto"@ && l != "off"@ && l != "on"@ {
        Some("reasoning.mode 须为 auto/off/on，收到: "@ + l)
    } else if trimmed_nonblank(s.effort.deep_view()) matches Some(e) && !effort_name_ok(ascii_lower(e)) {
        Some("reasoning.effort 无效: "@ + ascii_lower(trimmed_nonblank(s.effort.deep_view())->0))
    } else if s.budget_tokens == Some(0u32) {
        Some("reasoning.budget_tokens 必须为正整数或为空"@)
    } else {
        None
    }
}

/// `r` reports the storage validation error `expected`, or success when it is none.
pub open spec fn storage_check_is(r: Result<(), StorageError>, expected: Option<Seq<char>>) -> bool {
    match expected {
        None => r is Ok,
        Some(m) => r matches Err(e) && is_storage_validation(e, m),
    }
}

impl StoredReasoningSettings {
    /// Whether these settings mean no request-side control.
    pub fn is_effective_none(&self) -> (b: bool)
        ensures
            b == effective_none(*self),
    {
        let l = lower_str(trim_str(self.mode.as_str()).as_str());
        (str_eq(l.as_str(), "auto") || l.as_str().is_empty()) && self.effort.is_none()
            && self.budget_tokens.is_none()
    }

    /// Check the stored settings: known mode, known effort when given, positive budget.
    pub fn validate(&self) -> (r: Result<(), StorageError>)
        ensures
            storage_check_is(r, stored_reasoning_error(*self)),
    {
        let l = lower_str(trim_str(self.mode.as_str()).as_str());
        let s = l.as_str();
        if !(str_eq(s, "auto") || str_eq(s, "off") || str_eq(s, "on")) {
            let mut m = owned("reasoning.mode 须为 auto/off/on，收到: ");
            push_str(&mut m, s);
            return Err(StorageError::validation(m));
        }
        if let Some(effort) = trimmed_nonblank_exec(&self.effort) {
            let el = lower_str(effort.as_str());
            let e = el.as_str();
            if !(str_eq(e, "minimal") || str_eq(e, "low") || str_eq(e, "medium") || str_eq(e, "high")
                || str_eq(e, "xhigh") || str_eq(e, "x_high") || str_eq(e, "max")) {
                let mut m = owned("reasoning.effort 无效: ");
                push_str(&mut m, e);
                return Err(StorageError::validation(m));
            }
        }
        if self.budget_tokens == Some(0u32) {
            return Err(StorageError::validation(owned("reasoning.budget_tokens 必须为正整数或为空")));
        }
        Ok(())
    }
}

/// Resolve the request's reasoning: the window's input wins; otherwise the model's
/// stored settings, unless they mean none.
pub fn resolve_request_reasoning(
    input: Option<&ReasoningPolicyInput>,
    stored: Option<&StoredReasoningSettings>,
) -> (r: Result<Option<ReasoningPolicy>, AppError>)
    ensures
        match input {
            Some(i) => reasoning_result_is(
                r,
                reasoning_of(i.mode@, i.effort.deep_view(), i.budget_tokens),
            ),
            None => match stored {
                None => r == Ok::<Option<ReasoningPolicy>, AppError>(None),
                Some(s) => if effective_none(*s) {
                    r == Ok::<Option<ReasoningPolicy>, AppError>(None)
                } else {
                    reasoning_result_is(r, reasoning_of(s.mode@, s.effort.deep_view(), s.budget_tokens))
                },
            },
        },
{
    if let Some(i) = input {
        return parse_reasoning_input(Some(i));
    }
    match stored {
        None => Ok(None),
        Some(s) => {
            if s.is_effective_none() {
                return Ok(None);
            }
            reasoning_from_parts(s.mode.as_str(), &s.effort, s.budget_tokens)
        },
    }
}

// ---------------------------------------------------------------------------
// Tool choice
// ---------------------------------------------------------------------------

/// The mathematical content of a tool choice.
pub enum ChoiceV {
    Auto,
    Disabled,
    Required,
    Named(Seq<char>),
}

/// `c` is the choice `v`.
pub open spec fn choice_is(c: ToolChoice, v: ChoiceV) -> bool {
    match v {
        ChoiceV::Auto => c == ToolChoice::Auto,
        ChoiceV::Disabled => c == ToolChoice::Disabled,
        ChoiceV::Required => c == ToolChoice::Required,
        ChoiceV::Named(n) => c matches ToolChoice::Named { name } && name@ == n,
    }
}

/// What a tool-choice input resolves to: the choice, or a validation message.
pub open spec fn choice_of(mode: Seq<char>, name: Option<Seq<char>>) -> Result<ChoiceV, Seq<char>> {
    let l = ascii_lower(trim(mode));
    if l == "auto"@ || l.len() == 0 {
        Ok(ChoiceV::Auto)
    } else if l == "none"@ {
        Ok(ChoiceV::Disabled)
    } else if l == "required"@ {
        Ok(ChoiceV::Required)
    } else if l == "named"@ {
        match trimmed_nonblank(name) {
            Some(n) => Ok(ChoiceV::Named(n)),
            None => Err("tool_choice named 必须提供 name"@),
        }
    } else {
        Err("不支持的 tool_choice.mode: "@ + l)
    }
}

/// `r` is the resolution `o`.
pub open spec fn choice_result_is(r: Result<ToolChoice, AppError>, o: Result<ChoiceV, Seq<char>>) -> bool {
    match o {
        Ok(v) => r matches Ok(c) && choice_is(c, v),
        Err(m) => r matches Err(e) && is_validation(e, m),
    }
}

fn choice_from_parts(mode: &str, name: &Option<String>) -> (r: Result<ToolChoice, AppError>)
    ensures
        choice_result_is(r, choice_of(mode@, name.deep_view())),
{
    let l = lower_str(trim_str(mode).as_str());
    let s = l.as_str();
    if str_eq(s, "auto") || s.is_empty() {
        Ok(ToolChoice::Auto)
    } else if str_eq(s, "none") {
        Ok(ToolChoice::Disabled)
    } else if str_eq(s, "required") {
        Ok(ToolChoice::Required)
    } else if str_eq(s, "named") {
        match trimmed_nonblank_exec(name) {
            Some(n) => Ok(ToolChoice::Named { name: n }),
            None => Err(AppError::validation(owned("tool_choice named 必须提供 name"))),
        }
    } else {
        let mut m = owned("不支持的 tool_choice.mode: ");
        push_str(&mut m, s);
        Err(AppError::validation(m))
    }
}

/// Read the window's tool choice.
pub fn parse_tool_choice_input(input: &ToolChoiceInput) -> (r: Result<ToolChoice, AppError>)
    ensures
        choice_result_is(r, choice_of(input.mode@, input.name.deep_view())),
{
    choice_from_parts(input.mode.as_str(), &input.name)
}

/// Read a provider's stored tool choice.
pub fn parse_stored_tool_choice(stored: &StoredToolChoice) -> (r: Result<ToolChoice, AppError>)
    ensures
        choice_result_is(r, choice_of(stored.mode@, stored.name.deep_view())),
{
    choice_from_parts(stored.mode.as_str(), &stored.name)
}

// ---------------------------------------------------------------------------
// Tools
// ---------------------------------------------------------------------------

/// The first rule a list of tool inputs breaks, scanning in order: a blank name, a
/// non-object schema, a name seen before.
pub open spec fn input_tools_error(items: Seq<ToolDefinitionInput>) -> Option<Seq<char>>
    decreases items.len(),
{
    if items.len() == 0 {
        None
    } else {
        match input_tools_error(items.drop_last()) {
            Some(e) => Some(e),
            None => {
                let t = items.last();
                let name = trim(t.name@);
                if name.len() == 0 {
                    Some("tool name 不能为空"@)
                } else if !is_object(t.parameters) {
                    Some("tool parameters 必须是 JSON object"@)
                } else if input_names(items.drop_last()).contains(name) {
                    Some("tool name 重复: "@ + name)
                } else {
                    None
                }
            },
        }
    }
}

/// The trimmed names of tool inputs.
pub open spec fn input_names(items: Seq<ToolDefinitionInput>) -> Seq<Seq<char>> {
    items.map_values(|t: ToolDefinitionInput| trim(t.name@))
}

/// `d` is the SDK definition of the input `t`: trimmed name, trimmed description when
/// not blank, the same schema.
pub open spec fn def_of_input(d: ToolDefinition, t: ToolDefinitionInput) -> bool {
    &&& d.name@ == trim(t.name@)
    &&& d.description.deep_view() == trimmed_nonblank(t.description.deep_view())
    &&& d.parameters == t.parameters
}

proof fn lemma_input_tools_error_prefix(items: Seq<ToolDefinitionInput>, k: int)
    requires
        0 <= k <= items.len(),
        input_tools_error(items.take(k)) is Some,
    ensures
        input_tools_error(items) == input_tools_error(items.take(k)),
    decreases items.len() - k,
{
    if k < items.len() {
        assert(items.take(k + 1).drop_last() == items.take(k));
        lemma_input_tools_error_prefix(items, k + 1);
    } else {
        assert(items.take(k) == items);
    }
}

fn names_have(names: &Vec<String>, name: &str) -> (b: bool)
    ensures
        b == strings_view(names@).contains(name@),
{
    let mut i: usize = 0;
    while i < names.len()
        invariant
            0 <= i <= names@.len(),
            forall|j: int| 0 <= j < i ==> names@[j]@ != name@,
        decreases names.len() - i,
    {
        if str_eq(names[i].as_str(), name) {
            assert(strings_view(names@)[i as int] == name@);
            return true;
        }
        i = i + 1;
    }
    proof {
        if strings_view(names@).contains(name@) {
            let j = choose|j: int| 0 <= j < names@.len() && #[trigger] strings_view(names@)[j] == name@;
            assert(names@[j]@ == name@);
        }
    }
    false
}

/// Read the window's tool definitions: none for an empty list; otherwise each checked
/// (name, schema, duplicates) and copied with trimmed name and description.
pub fn parse_tool_definitions(items: &Vec<ToolDefinitionInput>) -> (r: Result<
    Option<Vec<ToolDefinition>>,
    AppError,
>)
    ensures
        items@.len() == 0 ==> r matches Ok(None),
        items@.len() > 0 ==> match input_tools_error(items@) {
            Some(m) => r matches Err(e) && is_validation(e, m),
            None => r matches Ok(Some(defs)) && defs@.len() == items@.len() && forall|k: int|
                0 <= k < defs@.len() ==> def_of_input(#[trigger] defs@[k], items@[k]),
        },
{
    if items.len() == 0 {
        return Ok(None);
    }
    let mut out: Vec<ToolDefinition> = Vec::new();
    let mut names: Vec<String> = Vec::new();
    let mut i: usize = 0;
    while i < items.len()
        invariant
            0 <= i <= items@.len(),
            input_tools_error(items@.take(i as int)) is None,
            strings_view(names@) == input_names(items@.take(i as int)),
            out@.len() == i,
            forall|k: int| 0 <= k < i ==> def_of_input(#[trigger] out@[k], items@[k]),
        decreases items.len() - i,
    {
        proof {
            assert(items@.take(i + 1).drop_last() == items@.take(i as int));
            assert(items@.take(i + 1).last() == items@[i as int]);
        }
        let item = &items[i];
        let name = trim_str(item.name.as_str());
        if name.as_str().is_empty() {
            proof {
                lemma_input_tools_error_prefix(items@, i + 1);
            }
            return Err(AppError::validation(owned("tool name 不能为空")));
        }
        if !json_is_object(&item.parameters) {
            proof {
                lemma_input_tools_error_prefix(items@, i + 1);
            }
            return Err(AppError::validation(owned("tool parameters 必须是 JSON object")));
        }
        if names_have(&names, name.as_str()) {
            let mut m = owned("tool name 重复: ");
            push_str(&mut m, name.as_str());
            proof {
                lemma_input_tools_error_prefix(items@, i + 1);
            }
            return Err(AppError::validation(m));
        }
        let ghost before = names@;
        names.push(owned(name.as_str()));
        proof {
            assert(strings_view(names@) == strings_view(before).push(trim(items@[i as int].name@)));
            assert(input_names(items@.take(i + 1)) == input_names(items@.take(i as int)).push(
                trim(items@[i as int].name@),
            ));
        }
        out.push(
            ToolDefinition {
                name,
                description: trimmed_nonblank_exec(&item.description),
                parameters: json_clone(&item.parameters),
            },
        );
        i = i + 1;
    }
    assert(items@.take(items@.len() as int) == items@);
    Ok(Some(out))
}

/// `d` is the SDK definition of the stored tool `t`: every field the same.
pub open spec fn def_of_stored(d: ToolDefinition, t: StoredToolDefinition) -> bool {
    &&& d.name@ == t.name@
    &&& d.description.deep_view() == t.description.deep_view()
    &&& d.parameters == t.parameters
}

fn stored_defs(stored: &Vec<StoredToolDefinition>) -> (r: Vec<ToolDefinition>)
    ensures
        r@.len() == stored@.len(),
        forall|k: int| 0 <= k < r@.len() ==> def_of_stored(#[trigger] r@[k], stored@[k]),
{
    let mut out: Vec<ToolDefinition> = Vec::new();
    let mut i: usize = 0;
    while i < stored.len()
        invariant
            0 <= i <= stored@.len(),
            out@.len() == i,
            forall|k: int| 0 <= k < i ==> def_of_stored(#[trigger] out@[k], stored@[k]),
        decreases stored.len() - i,
    {
        let t = &stored[i];
        out.push(
            ToolDefinition {
                name: owned(t.name.as_str()),
                description: match &t.description {
                    Some(d) => Some(owned(d.as_str())),
                    None => None,
                },
                parameters: json_clone(&t.parameters),
            },
        );
        i = i + 1;
    }
    out
}

/// Where the resolved tools come from.
pub enum ToolsSource {
    /// The window's list (parsed).
    Input,
    /// The provider's stored list.
    Stored,
    /// No tools.
    Absent,
}

/// What tool resolution gives: a validation message, or the source of the tools and the
/// choice.
pub enum ToolsOutcome {
    Invalid(Seq<char>),
    Resolved { source: ToolsSource, choice: Option<ChoiceV> },
}

/// A tool-choice input as `(mode, name)`.
pub type ChoiceInputV = (Seq<char>, Option<Seq<char>>);

/// The window's tool choice, else the provider's; `Auto` when neither is given and
/// tools are present.
pub open spec fn resolved_choice(
    input_choice: Option<ChoiceInputV>,
    stored_choice: Option<ChoiceInputV>,
    tools_present: bool,
) -> Result<Option<ChoiceV>, Seq<char>> {
    match input_choice {
        Some(c) => match choice_of(c.0, c.1) {
            Ok(v) => Ok(Some(v)),
            Err(m) => Err(m),
        },
        None => match stored_choice {
            Some(c) => match choice_of(c.0, c.1) {
                Ok(v) => Ok(Some(v)),
                Err(m) => Err(m),
            },
            None => if tools_present {
                Ok(Some(ChoiceV::Auto))
            } else {
                Ok(None)
            },
        },
    }
}

/// Resolution of tools and tool choice: the window's input wins, else the provider's
/// settings; an empty window list means no tools; a choice without tools is refused.
pub open spec fn tools_outcome(
    input_tools: Option<Seq<ToolDefinitionInput>>,
    input_choice: Option<ChoiceInputV>,
    stored_len: int,
    stored_choice: Option<ChoiceInputV>,
) -> ToolsOutcome {
    let source = match input_tools {
        Some(items) => if items.len() == 0 {
            ToolsSource::Absent
        } else {
            ToolsSource::Input
        },
        None => if stored_len == 0 {
            ToolsSource::Absent
        } else {
            ToolsSource::Stored
        },
    };
    let tools_error = match input_tools {
        Some(items) => if items.len() == 0 {
            None
        } else {
            input_tools_error(items)
        },
        None => None,
    };
    if tools_error is Some {
        ToolsOutcome::Invalid(tools_error->0)
    } else {
        match resolved_choice(input_choice, stored_choice, !(source is Absent)) {
            Err(m) => ToolsOutcome::Invalid(m),
            Ok(choice) => if source is Absent && choice is Some {
                ToolsOutcome::Invalid("未配置 tools 时不能设置 tool_choice"@)
            } else {
                ToolsOutcome::Resolved { source, choice }
            },
        }
    }
}

/// The `(mode, name)` of a tool-choice input.
pub open spec fn choice_input_v(c: Option<&ToolChoiceInput>) -> Option<ChoiceInputV> {
    match c {
        Some(x) => Some((x.mode@, x.name.deep_view())),
        None => None,
    }
}

/// The `(mode, name)` of a stored tool choice.
pub open spec fn stored_choice_v(c: Option<&StoredToolChoice>) -> Option<ChoiceInputV> {
    match c {
        Some(x) => Some((x.mode@, x.name.deep_view())),
        None => None,
    }
}

/// The tool list given by the window, if any.
pub open spec fn input_tools_v(t: Option<&Vec<ToolDefinitionInput>>) -> Option<Seq<ToolDefinitionInput>> {
    match t {
        Some(v) => Some(v@),
        None => None,
    }
}

/// `tools` is the list the source gives.
pub open spec fn tools_from(
    tools: Option<Vec<ToolDefinition>>,
    source: ToolsSource,
    input_tools: Option<&Vec<ToolDefinitionInput>>,
    stored_tools: Seq<StoredToolDefinition>,
) -> bool {
    match source {
        ToolsSource::Absent => tools is None,
        ToolsSource::Input => tools matches Some(ts) && input_tools matches Some(items) && ts@.len()
            == items@.len() && forall|k: int|
            0 <= k < ts@.len() ==> def_of_input(#[trigger] ts@[k], items@[k]),
        ToolsSource::Stored => tools matches Some(ts) && ts@.len() == stored_tools.len() && forall|k: int|
            0 <= k < ts@.len() ==> def_of_stored(#[trigger] ts@[k], stored_tools[k]),
    }
}

/// `c` is the resolved choice `v`.
pub open spec fn opt_choice_is(c: Option<ToolChoice>, v: Option<ChoiceV>) -> bool {
    match v {
        None => c is None,
        Some(x) => c matches Some(y) && choice_is(y, x),
    }
}

/// Resolve tools and tool choice: the window's input wins, else the provider's
/// settings; tools without a choice default to `Auto`; a choice without tools is an
/// error.
pub fn resolve_request_tools(
    input_tools: Option<&Vec<ToolDefinitionInput>>,
    input_choice: Option<&ToolChoiceInput>,
    stored_tools: &Vec<StoredToolDefinition>,
    stored_choice: Option<&StoredToolChoice>,
) -> (r: Result<(Option<Vec<ToolDefinition>>, Option<ToolChoice>), AppError>)
    ensures
        match tools_outcome(
            input_tools_v(input_tools),
            choice_input_v(input_choice),
            stored_tools@.len() as int,
            stored_choice_v(stored_choice),
        ) {
            ToolsOutcome::Invalid(m) => r matches Err(e) && is_validation(e, m),
            ToolsOutcome::Resolved { source, choice } => r matches Ok((tools, c)) && tools_from(
                tools,
                source,
                input_tools,
                stored_tools@,
            ) && opt_choice_is(c, choice),
        },
{
    let tools: Option<Vec<ToolDefinition>> = match input_tools {
        Some(items) => match parse_tool_definitions(items) {
            Ok(t) => t,
            Err(e) => {
                return Err(e);
            },
        },
        None => if stored_tools.len() == 0 {
            None
        } else {
            Some(stored_defs(stored_tools))
        },
    };
    let tool_choice: Option<ToolChoice> = match input_choice {
        Some(c) => match parse_tool_choice_input(c) {
            Ok(x) => Some(x),
            Err(e) => {
                return Err(e);
            },
        },
        None => match stored_choice {
            Some(s) => match parse_stored_tool_choice(s) {
                Ok(x) => Some(x),
                Err(e) => {
                    return Err(e);
                },
            },
            None => if tools.is_some() {
                Some(ToolChoice::Auto)
            } else {
                None
            },
        },
    };
    if tools.is_none() && tool_choice.is_some() {
        return Err(AppError::validation(owned("未配置 tools 时不能设置 tool_choice")));
    }
    Ok((tools, tool_choice))
}

// ---------------------------------------------------------------------------
// Preflight
// ---------------------------------------------------------------------------

/// Anthropic refuses extended thinking together with a required or named tool choice.
pub open spec fn thinking_choice_conflict(
    protocol: ProtocolKind,
    reasoning: Option<ReasoningPolicy>,
    choice: Option<ToolChoice>,
) -> bool {
    protocol == ProtocolKind::AnthropicMessages && (reasoning matches Some(p) && p.mode
        == ReasoningMode::On) && (choice matches Some(c) && (c is Required || c is Named))
}

/// Desktop preflight for Anthropic thinking with a required or named tool choice.
pub fn check_anthropic_thinking_tool_choice(
    protocol: ProtocolKind,
    reasoning: Option<&ReasoningPolicy>,
    tool_choice: Option<&ToolChoice>,
) -> (r: Result<(), AppError>)
    ensures
        !thinking_choice_conflict(
            protocol,
            crate::chat_request::opt_policy(reasoning),
            crate::chat_request::opt_choice(tool_choice),
        ) ==> r is Ok,
        thinking_choice_conflict(
            protocol,
            crate::chat_request::opt_policy(reasoning),
            crate::chat_request::opt_choice(tool_choice),
        ) ==> (r matches Err(e) && is_validation(
            e,
            "Anthropic extended thinking 启用时 tool_choice 仅允许 Auto 或 None"@,
        )),
{
    if protocol != ProtocolKind::AnthropicMessages {
        return Ok(());
    }
    let thinking_on = match reasoning {
        Some(p) => p.mode == ReasoningMode::On,
        None => false,
    };
    if !thinking_on {
        return Ok(());
    }
    match tool_choice {
        Some(ToolChoice::Required) | Some(ToolChoice::Named { .. }) => Err(
            AppError::validation(
                owned("Anthropic extended thinking 启用时 tool_choice 仅允许 Auto 或 None"),
            ),
        ),
        _ => Ok(()),
    }
}

/// The policy behind an optional reference.
pub open spec fn opt_policy(p: Option<&ReasoningPolicy>) -> Option<ReasoningPolicy> {
    match p {
        Some(x) => Some(*x),
        None => None,
    }
}

/// The choice behind an optional reference.
pub open spec fn opt_choice(c: Option<&ToolChoice>) -> Option<ToolChoice> {
    match c {
        Some(x) => Some(*x),
        None => None,
    }
}

/// A text part holding `t`.
pub open spec fn is_text_part(p: ContentPart, t: Seq<char>) -> bool {
    p matches ContentPart::Text { text } && text@ == t
}

/// The placeholder image for an attachment of this media type (`image/png` when none).
pub open spec fn is_placeholder_image(p: ContentPart, media: Option<String>) -> bool {
    p matches ContentPart::ImageBase64 { media_type, data } && data@ == "AA=="@ && media_type@
        == match media {
        Some(t) => t@,
        None => "image/png"@,
    }
}

/// The user message used to check capabilities before history changes: the text (a
/// single space when blank and there are no attachments), and a tiny placeholder image
/// per attachment with its media type.
pub fn build_preflight_user_message(content: &str, attachment_media_types: &Vec<Option<String>>) -> (r: Result<
    ChatMessage,
    AppError,
>)
    ensures
        r matches Ok(m) && m.role == ChatRole::User && m.tool_call_id is None
            && m.tool_calls@.len() == 0 && if attachment_media_types@.len() == 0 {
            m.parts@.len() == 1 && is_text_part(
                m.parts@[0],
                if trim(content@).len() == 0 {
                    " "@
                } else {
                    content@
                },
            )
        } else {
            let lead: int = if trim(content@).len() == 0 {
                0
            } else {
                1
            };
            &&& m.parts@.len() == lead + attachment_media_types@.len()
            &&& (lead == 1 ==> is_text_part(m.parts@[0], content@))
            &&& forall|k: int|
                0 <= k < attachment_media_types@.len() ==> is_placeholder_image(
                    #[trigger] m.parts@[lead + k],
                    attachment_media_types@[k],
                )
        },
{
    if attachment_media_types.len() == 0 {
        if is_blank_str(content) {
            return Ok(ChatMessage::text(ChatRole::User, " "));
        }
        return Ok(ChatMessage::text(ChatRole::User, content));
    }
    let mut parts: Vec<ContentPart> = Vec::new();
    let lead: usize = if is_blank_str(content) {
        0
    } else {
        parts.push(ContentPart::Text { text: owned(content) });
        1
    };
    let mut i: usize = 0;
    while i < attachment_media_types.len()
        invariant
            0 <= i <= attachment_media_types@.len(),
            lead == 0 || lead == 1,
            parts@.len() == lead + i,
            lead == 1 ==> is_text_part(parts@[0], content@),
            forall|k: int| 0 <= k < i ==> is_placeholder_image(#[trigger] parts@[lead + k], attachment_media_types@[k]),
        decreases attachment_media_types.len() - i,
    {
        let media_type = match &attachment_media_types[i] {
            Some(t) => owned(t.as_str()),
            None => owned("image/png"),
        };
        parts.push(ContentPart::ImageBase64 { media_type, data: owned("AA==") });
        i = i + 1;
    }
    Ok(ChatMessage { role: ChatRole::User, parts, tool_call_id: None, tool_calls: Vec::new() })
}

} // verus!
