//! A plain JSON value model, with parsing and printing done by `serde_json`.

use vstd::prelude::*;

use crate::text::{chars_eq, chars_of};
use serde_json::Value;

verus! {

/// A JSON number as the decoders read it.
#[derive(Debug, Clone, PartialEq)]
pub struct JsonNumber {
    /// The value when it is a non-negative integer that fits in `u64`.
    pub as_u64: Option<u64>,
    /// The value when it is an integer that fits in `i64`.
    pub as_i64: Option<i64>,
    /// The number's JSON text.
    pub text: String,
}

/// A JSON value.
#[derive(Debug)]
pub enum JsonValue {
    Null,
    Bool(bool),
    Number(JsonNumber),
    Str(String),
    Array(Box<JsonList>),
    Object(Box<JsonMembers>),
}

/// The elements of a JSON array, first to last.
#[derive(Debug)]
pub enum JsonList {
    Nil,
    Cons(Box<JsonValue>, Box<JsonList>),
}

/// The members of a JSON object, in the order the parser reports them.
#[derive(Debug)]
pub enum JsonMembers {
    Nil,
    Cons(String, Box<JsonValue>, Box<JsonMembers>),
}

/// The mathematical content of a JSON value: strings as characters, arrays as
/// sequences, objects as their members in order.
pub enum JV {
    Null,
    Bool(bool),
    Num(Option<u64>, Option<i64>, Seq<char>),
    Str(Seq<char>),
    Arr(Seq<JV>),
    Obj(Seq<(Seq<char>, JV)>),
}

/// The content of a value.
pub open spec fn jv(v: JsonValue) -> JV
    decreases v,
{
    match v {
        JsonValue::Null => JV::Null,
        JsonValue::Bool(b) => JV::Bool(b),
        JsonValue::Number(n) => JV::Num(n.as_u64, n.as_i64, n.text@),
        JsonValue::Str(s) => JV::Str(s@),
        JsonValue::Array(l) => JV::Arr(jv_list(*l)),
        JsonValue::Object(m) => JV::Obj(jv_members(*m)),
    }
}

/// The contents of an array's elements.
pub open spec fn jv_list(l: JsonList) -> Seq<JV>
    decreases l,
{
    match l {
        JsonList::Nil => seq![],
        JsonList::Cons(h, t) => seq![jv(*h)] + jv_list(*t),
    }
}

/// The contents of an object's members.
pub open spec fn jv_members(m: JsonMembers) -> Seq<(Seq<char>, JV)>
    decreases m,
{
    match m {
        JsonMembers::Nil => seq![],
        JsonMembers::Cons(k, v, t) => seq![(k@, jv(*v))] + jv_members(*t),
    }
}

/// `serde_json::Value`, carried only into the conversions below.
#[verifier::external_type_specification]
#[verifier::external_body]
pub struct ExSerdeValue(Value);

/// What `serde_json::from_str::<serde_json::Value>` makes of a text: the value, or the
/// error's message.
pub uninterp spec fn json_parse(text: Seq<char>) -> Result<JsonValue, Seq<char>>;

/// What `serde_json::from_slice::<serde_json::Value>` makes of bytes: the value, or the
/// error's message.
pub uninterp spec fn json_parse_bytes(bytes: Seq<u8>) -> Result<JsonValue, Seq<char>>;

/// What `serde_json::to_string` prints for a value.
pub uninterp spec fn json_print(v: JsonValue) -> Seq<char>;

/// Converts a `serde_json::Value` into the library's model: one variant for each of
/// `serde_json`'s, numbers read through `as_u64` / `as_i64` / their text.
#[verifier::external_body]
fn json_from_serde(v: &Value) -> JsonValue {
    match v {
        Value::Null => JsonValue::Null,
        Value::Bool(b) => JsonValue::Bool(*b),
        Value::Number(n) => JsonValue::Number(
            JsonNumber { as_u64: n.as_u64(), as_i64: n.as_i64(), text: n.to_string() },
        ),
        Value::String(s) => JsonValue::Str(s.clone()),
        Value::Array(_) => JsonValue::Array(Box::new(list_from_serde(v))),
        Value::Object(_) => JsonValue::Object(Box::new(members_from_serde(v))),
    }
}

/// Converts the elements of a `serde_json` array, one for one and in order.
#[verifier::external_body]
fn list_from_serde(v: &Value) -> JsonList {
    match v {
        Value::Array(a) => a.iter().rev().fold(JsonList::Nil, |t, x|
            JsonList::Cons(Box::new(json_from_serde(x)), Box::new(t))),
        _ => JsonList::Nil,
    }
}

/// Converts the members of a `serde_json` object, one for one and in the map's order.
#[verifier::external_body]
fn members_from_serde(v: &Value) -> JsonMembers {
    match v {
        Value::Object(m) => m.iter().rev().fold(JsonMembers::Nil, |t, (k, x)|
            JsonMembers::Cons(k.clone(), Box::new(json_from_serde(x)), Box::new(t))),
        _ => JsonMembers::Nil,
    }
}

/// Converts the library's model back into a `serde_json::Value`.
#[verifier::external_body]
fn json_to_serde(v: &JsonValue) -> Value {
    match v {
        JsonValue::Null => Value::Null,
        JsonValue::Bool(b) => Value::Bool(*b),
        JsonValue::Number(n) => serde_json::from_str(&n.text).unwrap_or(Value::Null),
        JsonValue::Str(s) => Value::String(s.clone()),
        JsonValue::Array(l) => Value::Array(list_to_serde(l)),
        JsonValue::Object(m) => members_to_serde(m),
    }
}

/// Converts array elements back, one for one and in order.
#[verifier::external_body]
fn list_to_serde(l: &JsonList) -> Vec<Value> {
    let mut out = Vec::new();
    let mut cur = l;
    while let JsonList::Cons(x, t) = cur {
        out.push(json_to_serde(x));
        cur = t;
    }
    out
}

/// Converts object members back into a `serde_json` object, one for one.
#[verifier::external_body]
fn members_to_serde(m: &JsonMembers) -> Value {
    let mut out = serde_json::Map::new();
    let mut cur = m;
    while let JsonMembers::Cons(k, x, t) = cur {
        out.insert(k.clone(), json_to_serde(x));
        cur = t;
    }
    Value::Object(out)
}

/// Parses JSON text with `serde_json::from_str`. The result is named `json_parse`:
/// this library states nothing more of it.
#[verifier::external_body]
pub fn parse_json(text: &str) -> (r: Result<JsonValue, String>)
    ensures
        match r {
            Ok(v) => json_parse(text@) == Ok::<JsonValue, Seq<char>>(v),
            Err(e) => json_parse(text@) == Err::<JsonValue, Seq<char>>(e@),
        },
{
    match serde_json::from_str::<Value>(text) {
        Ok(v) => Ok(json_from_serde(&v)),
        Err(e) => Err(e.to_string()),
    }
}

/// Parses JSON bytes with `serde_json::from_slice`. The result is named
/// `json_parse_bytes`: this library states nothing more of it.
#[verifier::external_body]
pub fn parse_json_bytes(bytes: &[u8]) -> (r: Result<JsonValue, String>)
    ensures
        match r {
            Ok(v) => json_parse_bytes(bytes@) == Ok::<JsonValue, Seq<char>>(v),
            Err(e) => json_parse_bytes(bytes@) == Err::<JsonValue, Seq<char>>(e@),
        },
{
    match serde_json::from_slice::<Value>(bytes) {
        Ok(v) => Ok(json_from_serde(&v)),
        Err(e) => Err(e.to_string()),
    }
}

/// Prints a value with `serde_json::to_string`. The result is named `json_print`.
#[verifier::external_body]
pub fn print_json(v: &JsonValue) -> (r: String)
    ensures
        r@ == json_print(*v),
{
    serde_json::to_string(&json_to_serde(v)).unwrap_or_default()
}

// ---------------------------------------------------------------------------
// Reading values
// ---------------------------------------------------------------------------

/// The elements of an array, in order.
pub open spec fn list_seq(l: JsonList) -> Seq<JsonValue>
    decreases l,
{
    match l {
        JsonList::Nil => seq![],
        JsonList::Cons(h, t) => seq![*h] + list_seq(*t),
    }
}

/// The value of the first member named `key`.
pub open spec fn members_get(m: JsonMembers, key: Seq<char>) -> Option<JsonValue>
    decreases m,
{
    match m {
        JsonMembers::Nil => None,
        JsonMembers::Cons(k, v, t) => {
            if k@ == key {
                Some(*v)
            } else {
                members_get(*t, key)
            }
        },
    }
}

/// `value.get(key)`: the member `key` of an object.
pub open spec fn jget(v: JsonValue, key: Seq<char>) -> Option<JsonValue> {
    match v {
        JsonValue::Object(m) => members_get(*m, key),
        _ => None,
    }
}

/// `get` on an optional value.
pub open spec fn jget_opt(v: Option<JsonValue>, key: Seq<char>) -> Option<JsonValue> {
    match v {
        Some(x) => jget(x, key),
        None => None,
    }
}

/// `as_str` on an optional value.
pub open spec fn jstr(v: Option<JsonValue>) -> Option<Seq<char>> {
    match v {
        Some(JsonValue::Str(s)) => Some(s@),
        _ => None,
    }
}

/// `as_u64` on an optional value.
pub open spec fn ju64(v: Option<JsonValue>) -> Option<u64> {
    match v {
        Some(JsonValue::Number(n)) => n.as_u64,
        _ => None,
    }
}

/// `as_i64` on an optional value.
pub open spec fn ji64(v: Option<JsonValue>) -> Option<i64> {
    match v {
        Some(JsonValue::Number(n)) => n.as_i64,
        _ => None,
    }
}

/// `as_bool` on an optional value.
pub open spec fn jbool(v: Option<JsonValue>) -> Option<bool> {
    match v {
        Some(JsonValue::Bool(b)) => Some(b),
        _ => None,
    }
}

/// `as_array` on an optional value.
pub open spec fn jarray(v: Option<JsonValue>) -> Option<Seq<JsonValue>> {
    match v {
        Some(JsonValue::Array(l)) => Some(list_seq(*l)),
        _ => None,
    }
}

/// `is_object`.
pub open spec fn is_object(v: JsonValue) -> bool {
    v is Object
}

/// The referenced value of an optional reference.
pub open spec fn opt_ref(v: Option<&JsonValue>) -> Option<JsonValue> {
    match v {
        Some(x) => Some(*x),
        None => None,
    }
}

/// The referenced values of a list of references.
pub open spec fn refs_seq(v: Seq<&JsonValue>) -> Seq<JsonValue> {
    v.map_values(|r: &JsonValue| *r)
}

fn members_lookup<'a>(m: &'a JsonMembers, key: &[char]) -> (r: Option<&'a JsonValue>)
    ensures
        opt_ref(r) == members_get(*m, key@),
    decreases m,
{
    match m {
        JsonMembers::Nil => None,
        JsonMembers::Cons(k, v, t) => {
            let kc = chars_of(k.as_str());
            if chars_eq(kc.as_slice(), key) {
                Some(&**v)
            } else {
                members_lookup(&**t, key)
            }
        },
    }
}

/// `value.get(key)`.
pub fn get<'a>(v: &'a JsonValue, key: &str) -> (r: Option<&'a JsonValue>)
    ensures
        opt_ref(r) == jget(*v, key@),
{
    match v {
        JsonValue::Object(m) => {
            let k = chars_of(key);
            members_lookup(&**m, k.as_slice())
        },
        _ => None,
    }
}

/// `get` on an optional value.
pub fn get_opt<'a>(v: Option<&'a JsonValue>, key: &str) -> (r: Option<&'a JsonValue>)
    ensures
        opt_ref(r) == jget_opt(opt_ref(v), key@),
{
    match v {
        Some(x) => get(x, key),
        None => None,
    }
}

/// `as_str`.
pub fn as_str(v: Option<&JsonValue>) -> (r: Option<&str>)
    ensures
        r.deep_view() == jstr(opt_ref(v)),
{
    match v {
        Some(JsonValue::Str(s)) => Some(s.as_str()),
        _ => None,
    }
}

/// `as_u64`.
pub fn as_u64(v: Option<&JsonValue>) -> (r: Option<u64>)
    ensures
        r == ju64(opt_ref(v)),
{
    match v {
        Some(JsonValue::Number(n)) => n.as_u64,
        _ => None,
    }
}

/// `as_i64`.
pub fn as_i64(v: Option<&JsonValue>) -> (r: Option<i64>)
    ensures
        r == ji64(opt_ref(v)),
{
    match v {
        Some(JsonValue::Number(n)) => n.as_i64,
        _ => None,
    }
}

/// `as_bool`.
pub fn as_bool(v: Option<&JsonValue>) -> (r: Option<bool>)
    ensures
        r == jbool(opt_ref(v)),
{
    match v {
        Some(JsonValue::Bool(b)) => Some(*b),
        _ => None,
    }
}

fn list_refs<'a>(l: &'a JsonList, out: &mut Vec<&'a JsonValue>)
    ensures
        refs_seq(final(out)@) == refs_seq(old(out)@) + list_seq(*l),
    decreases l,
{
    match l {
        JsonList::Nil => {
            assert(refs_seq(out@) == refs_seq(out@) + Seq::<JsonValue>::empty());
        },
        JsonList::Cons(h, t) => {
            let ghost before = out@;
            out.push(&**h);
            assert(refs_seq(out@) == refs_seq(before) + seq![**h]);
            list_refs(&**t, out);
            assert(refs_seq(before) + seq![**h] + list_seq(**t) == refs_seq(before) + list_seq(*l));
        },
    }
}

/// `as_array`: the elements of an array.
pub fn as_array<'a>(v: Option<&'a JsonValue>) -> (r: Option<Vec<&'a JsonValue>>)
    ensures
        match r {
            Some(a) => jarray(opt_ref(v)) == Some(refs_seq(a@)),
            None => jarray(opt_ref(v)) is None,
        },
{
    match v {
        Some(JsonValue::Array(l)) => {
            let mut out: Vec<&JsonValue> = Vec::new();
            list_refs(&**l, &mut out);
            assert(refs_seq(Seq::<&JsonValue>::empty()) + list_seq(**l) == list_seq(**l));
            Some(out)
        },
        _ => None,
    }
}

/// `is_object`.
pub fn json_is_object(v: &JsonValue) -> (r: bool)
    ensures
        r == is_object(*v),
{
    match v {
        JsonValue::Object(..) => true,
        _ => false,
    }
}


fn clone_list(l: &JsonList) -> (r: JsonList)
    ensures
        r == *l,
    decreases l,
{
    match l {
        JsonList::Nil => JsonList::Nil,
        JsonList::Cons(h, t) => JsonList::Cons(Box::new(json_clone(&**h)), Box::new(clone_list(&**t))),
    }
}

fn clone_members(m: &JsonMembers) -> (r: JsonMembers)
    ensures
        r == *m,
    decreases m,
{
    match m {
        JsonMembers::Nil => JsonMembers::Nil,
        JsonMembers::Cons(k, v, t) => JsonMembers::Cons(
            k.clone(),
            Box::new(json_clone(&**v)),
            Box::new(clone_members(&**t)),
        ),
    }
}

/// A copy of a JSON value.
pub fn json_clone(v: &JsonValue) -> (r: JsonValue)
    ensures
        r == *v,
    decreases v,
{
    match v {
        JsonValue::Null => JsonValue::Null,
        JsonValue::Bool(b) => JsonValue::Bool(*b),
        JsonValue::Number(n) => JsonValue::Number(
            JsonNumber { as_u64: n.as_u64, as_i64: n.as_i64, text: n.text.clone() },
        ),
        JsonValue::Str(s) => JsonValue::Str(s.clone()),
        JsonValue::Array(l) => JsonValue::Array(Box::new(clone_list(&**l))),
        JsonValue::Object(m) => JsonValue::Object(Box::new(clone_members(&**m))),
    }
}

impl Clone for JsonValue {
    fn clone(&self) -> (r: Self)
        ensures
            r == *self,
    {
        json_clone(self)
    }
}

// ---------------------------------------------------------------------------
// Building values
// ---------------------------------------------------------------------------

/// The contents of some values.
pub open spec fn jvs(s: Seq<JsonValue>) -> Seq<JV> {
    s.map_values(|x: JsonValue| jv(x))
}

/// The contents of some object members.
pub open spec fn members_v(s: Seq<(String, JsonValue)>) -> Seq<(Seq<char>, JV)> {
    s.map_values(|m: (String, JsonValue)| (m.0@, jv(m.1)))
}

/// A JSON string.
pub fn jv_str(s: &str) -> (v: JsonValue)
    ensures
        jv(v) == JV::Str(s@),
{
    JsonValue::Str(crate::text::owned(s))
}

/// A JSON string, from an owned text.
pub fn jv_string(s: String) -> (v: JsonValue)
    ensures
        jv(v) == JV::Str(s@),
{
    JsonValue::Str(s)
}

/// A JSON boolean.
pub fn jv_bool(b: bool) -> (v: JsonValue)
    ensures
        jv(v) == JV::Bool(b),
{
    JsonValue::Bool(b)
}

/// JSON `null`.
pub fn jv_null() -> (v: JsonValue)
    ensures
        jv(v) == JV::Null,
{
    JsonValue::Null
}

/// The content of a JSON number written from an unsigned 32-bit value.
pub open spec fn num_u32(n: u32) -> JV {
    JV::Num(Some(n as u64), Some(n as i64), crate::text::decimal(n as nat))
}

/// A JSON number from an unsigned 32-bit value.
pub fn jv_u32(n: u32) -> (v: JsonValue)
    ensures
        jv(v) == num_u32(n),
{
    JsonValue::Number(
        JsonNumber {
            as_u64: Some(n as u64),
            as_i64: Some(n as i64),
            text: crate::text::u64_to_string(n as u64),
        },
    )
}

/// A JSON array of the values, in order.
pub fn jv_array(items: Vec<JsonValue>) -> (v: JsonValue)
    ensures
        jv(v) == JV::Arr(jvs(items@)),
{
    let mut items = items;
    let ghost all = jvs(items@);
    let mut l = JsonList::Nil;
    while items.len() > 0
        invariant
            jvs(items@) + jv_list(l) == all,
        decreases items@.len(),
    {
        let ghost before = items@;
        let x = items.pop().unwrap();
        proof {
            assert(before == items@.push(x));
            assert(jvs(before) == jvs(items@).push(jv(x)));
        }
        l = JsonList::Cons(Box::new(x), Box::new(l));
        proof {
            assert(jv_list(l) == seq![jv(x)] + jv_list(*(match l { JsonList::Cons(_, t) => t, _ => Box::new(JsonList::Nil) })));
        }
    }
    assert(jvs(items@) =~= Seq::<JV>::empty());
    JsonValue::Array(Box::new(l))
}

/// Append a member to an object under construction.
pub fn obj_push(m: &mut Vec<(String, JsonValue)>, key: &str, v: JsonValue)
    ensures
        members_v(final(m)@) == members_v(old(m)@).push((key@, jv(v))),
{
    let ghost before = members_v(m@);
    let ghost x = (key@, jv(v));
    m.push((crate::text::owned(key), v));
    assert(members_v(m@) == before.push(x));
}

/// A JSON object with the members, in order.
pub fn jv_object(members: Vec<(String, JsonValue)>) -> (v: JsonValue)
    ensures
        jv(v) == JV::Obj(members_v(members@)),
{
    let mut members = members;
    let ghost all = members_v(members@);
    let mut l = JsonMembers::Nil;
    while members.len() > 0
        invariant
            members_v(members@) + jv_members(l) == all,
        decreases members@.len(),
    {
        let ghost before = members@;
        let (k, x) = members.pop().unwrap();
        proof {
            assert(before == members@.push((k, x)));
            assert(members_v(before) == members_v(members@).push((k@, jv(x))));
        }
        l = JsonMembers::Cons(k, Box::new(x), Box::new(l));
    }
    assert(members_v(members@) =~= Seq::<(Seq<char>, JV)>::empty());
    JsonValue::Object(Box::new(l))
}

/// A JSON object with one member.
pub fn jv_obj1(k1: &str, v1: JsonValue) -> (v: JsonValue)
    ensures
        jv(v) == JV::Obj(seq![(k1@, jv(v1))]),
{
    let mut m: Vec<(String, JsonValue)> = Vec::new();
    obj_push(&mut m, k1, v1);
    assert(members_v(m@) =~= seq![(k1@, jv(v1))]);
    jv_object(m)
}

/// A JSON object with two members.
pub fn jv_obj2(k1: &str, v1: JsonValue, k2: &str, v2: JsonValue) -> (v: JsonValue)
    ensures
        jv(v) == JV::Obj(seq![(k1@, jv(v1)), (k2@, jv(v2))]),
{
    let mut m: Vec<(String, JsonValue)> = Vec::new();
    let ghost (j1, j2) = (jv(v1), jv(v2));
    obj_push(&mut m, k1, v1);
    obj_push(&mut m, k2, v2);
    assert(members_v(m@) =~= seq![(k1@, j1), (k2@, j2)]);
    jv_object(m)
}

/// A JSON object with three members.
pub fn jv_obj3(k1: &str, v1: JsonValue, k2: &str, v2: JsonValue, k3: &str, v3: JsonValue) -> (v: JsonValue)
    ensures
        jv(v) == JV::Obj(seq![(k1@, jv(v1)), (k2@, jv(v2)), (k3@, jv(v3))]),
{
    let mut m: Vec<(String, JsonValue)> = Vec::new();
    let ghost (j1, j2, j3) = (jv(v1), jv(v2), jv(v3));
    obj_push(&mut m, k1, v1);
    obj_push(&mut m, k2, v2);
    obj_push(&mut m, k3, v3);
    assert(members_v(m@) =~= seq![(k1@, j1), (k2@, j2), (k3@, j3)]);
    jv_object(m)
}

/// Append a member when the value is present.
pub fn obj_push_opt(m: &mut Vec<(String, JsonValue)>, key: &str, v: Option<JsonValue>)
    ensures
        members_v(final(m)@) == match v {
            Some(x) => members_v(old(m)@).push((key@, jv(x))),
            None => members_v(old(m)@),
        },
{
    if let Some(x) = v {
        obj_push(m, key, x);
    }
}

/// The members pushed so far, starting from none.
pub fn obj_new() -> (m: Vec<(String, JsonValue)>)
    ensures
        members_v(m@) == Seq::<(Seq<char>, JV)>::empty(),
{
    let m: Vec<(String, JsonValue)> = Vec::new();
    assert(members_v(m@) =~= Seq::<(Seq<char>, JV)>::empty());
    m
}

/// Append a value to an array under construction.
pub fn arr_push(a: &mut Vec<JsonValue>, v: JsonValue)
    ensures
        jvs(final(a)@) == jvs(old(a)@).push(jv(v)),
{
    let ghost before = jvs(a@);
    let ghost x = jv(v);
    a.push(v);
    assert(jvs(a@) =~= before.push(x));
}

/// No values yet.
pub fn arr_new() -> (a: Vec<JsonValue>)
    ensures
        jvs(a@) == Seq::<JV>::empty(),
{
    let a: Vec<JsonValue> = Vec::new();
    assert(jvs(a@) =~= Seq::<JV>::empty());
    a
}


} // verus!
