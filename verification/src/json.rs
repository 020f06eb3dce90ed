//! JSON documents as the library reads them, with their mathematical model,
//! and the calls into serde_json that parse and print them.
use vstd::prelude::*;

use crate::text::{chars_eq, chars_of};

verus! {

/// A JSON number: its printed form and its value when it is a non-negative integer
/// that fits in `u64` (what `serde_json::Number::as_u64` answers).
pub struct JsonNumber {
    pub text: String,
    pub as_u64: Option<u64>,
}

/// A JSON document. Object members keep the order in which the parser hands them out.
pub enum JsonValue {
    Null,
    Bool(bool),
    Number(JsonNumber),
    Str(String),
    Array(Vec<JsonValue>),
    Object(Vec<(String, JsonValue)>),
}

/// The mathematical model of a JSON document.
pub enum JsonModel {
    Null,
    Bool(bool),
    Number(Seq<char>, Option<u64>),
    Str(Seq<char>),
    Array(Seq<JsonModel>),
    Object(Seq<(Seq<char>, JsonModel)>),
}

pub open spec fn model_items(items: Seq<JsonValue>) -> Seq<JsonModel>
    decreases items,
{
    Seq::new(items.len(), |i: int| if 0 <= i < items.len() { model_of(items[i]) } else { JsonModel::Null })
}

pub open spec fn model_members(members: Seq<(String, JsonValue)>) -> Seq<(Seq<char>, JsonModel)>
    decreases members,
{
    Seq::new(members.len(), |i: int| if 0 <= i < members.len() { (members[i].0@, model_of(members[i].1)) } else { (Seq::empty(), JsonModel::Null) })
}

pub open spec fn model_of(v: JsonValue) -> JsonModel
    decreases v,
{
    match v {
        JsonValue::Null => JsonModel::Null,
        JsonValue::Bool(b) => JsonModel::Bool(b),
        JsonValue::Number(n) => JsonModel::Number(n.text@, n.as_u64),
        JsonValue::Str(s) => JsonModel::Str(s@),
        JsonValue::Array(items) => JsonModel::Array(model_items(items@)),
        JsonValue::Object(members) => JsonModel::Object(model_members(members@)),
    }
}

impl View for JsonValue {
    type V = JsonModel;

    open spec fn view(&self) -> JsonModel {
        model_of(*self)
    }
}


// ---------------------------------------------------------------------------
// Reading a document (`serde_json::Value::get`, `as_str`, `as_u64`, ...)
// ---------------------------------------------------------------------------

/// The value of the first member named `key`.
pub open spec fn find_member(members: Seq<(Seq<char>, JsonModel)>, key: Seq<char>) -> Option<JsonModel>
    decreases members.len(),
{
    if members.len() == 0 {
        None
    } else if members[0].0 == key {
        Some(members[0].1)
    } else {
        find_member(members.drop_first(), key)
    }
}

/// `Value::get(key)`: a member of an object; nothing for any other kind of value.
pub open spec fn model_get(m: JsonModel, key: Seq<char>) -> Option<JsonModel> {
    match m {
        JsonModel::Object(members) => find_member(members, key),
        _ => None,
    }
}

pub open spec fn model_as_str(m: JsonModel) -> Option<Seq<char>> {
    match m {
        JsonModel::Str(s) => Some(s),
        _ => None,
    }
}

pub open spec fn model_as_u64(m: JsonModel) -> Option<u64> {
    match m {
        JsonModel::Number(_, v) => v,
        _ => None,
    }
}

pub open spec fn model_as_bool(m: JsonModel) -> Option<bool> {
    match m {
        JsonModel::Bool(b) => Some(b),
        _ => None,
    }
}

/// `Value::get(key).and_then(Value::as_str)`.
pub open spec fn model_get_str(m: JsonModel, key: Seq<char>) -> Option<Seq<char>> {
    match model_get(m, key) {
        Some(v) => model_as_str(v),
        None => None,
    }
}

/// `Value::get(key).and_then(Value::as_u64)`.
pub open spec fn model_get_u64(m: JsonModel, key: Seq<char>) -> Option<u64> {
    match model_get(m, key) {
        Some(v) => model_as_u64(v),
        None => None,
    }
}

/// `Value::get(key).and_then(Value::as_bool)`.
pub open spec fn model_get_bool(m: JsonModel, key: Seq<char>) -> Option<bool> {
    match model_get(m, key) {
        Some(v) => model_as_bool(v),
        None => None,
    }
}

pub fn json_get<'a>(v: &'a JsonValue, key: &str) -> (r: Option<&'a JsonValue>)
    ensures
        match r {
            Some(x) => model_get(v@, key@) == Some(x@),
            None => model_get(v@, key@) is None,
        },
{
    match v {
        JsonValue::Object(members) => {
            let k = chars_of(key);
            let ghost ms = model_members(members@);
            let mut i: usize = 0;
            assert(ms.skip(0) =~= ms);
            assert(v@ == JsonModel::Object(ms));
            while i < members.len()
                invariant
                    0 <= i <= members@.len(),
                    ms == model_members(members@),
                    v@ == JsonModel::Object(ms),
                    k@ == key@,
                    find_member(ms, key@) == find_member(ms.skip(i as int), key@),
                decreases members@.len() - i,
            {
                let name = chars_of(members[i].0.as_str());
                assert(ms.skip(i as int)[0] == (members@[i as int].0@, model_of(members@[i as int].1)));
                if chars_eq(&name, &k) {
                    return Some(&members[i].1);
                }
                assert(ms.skip(i as int).drop_first() =~= ms.skip(i + 1));
                i += 1;
            }
            assert(ms.skip(i as int).len() == 0);
            None
        },
        _ => None,
    }
}

pub fn json_as_str(v: &JsonValue) -> (r: Option<&String>)
    ensures
        match r {
            Some(s) => model_as_str(v@) == Some(s@),
            None => model_as_str(v@) is None,
        },
{
    match v {
        JsonValue::Str(s) => Some(s),
        _ => None,
    }
}

pub fn json_as_u64(v: &JsonValue) -> (r: Option<u64>)
    ensures r == model_as_u64(v@),
{
    match v {
        JsonValue::Number(n) => n.as_u64,
        _ => None,
    }
}

pub fn json_as_bool(v: &JsonValue) -> (r: Option<bool>)
    ensures r == model_as_bool(v@),
{
    match v {
        JsonValue::Bool(b) => Some(*b),
        _ => None,
    }
}

/// `value.get(key).and_then(Value::as_str)`, copied out.
pub fn json_get_str(v: &JsonValue, key: &str) -> (r: Option<Vec<char>>)
    ensures
        match r {
            Some(s) => model_get_str(v@, key@) == Some(s@),
            None => model_get_str(v@, key@) is None,
        },
{
    match json_get(v, key) {
        Some(x) => match json_as_str(x) {
            Some(s) => Some(chars_of(s.as_str())),
            None => None,
        },
        None => None,
    }
}

pub fn json_get_u64(v: &JsonValue, key: &str) -> (r: Option<u64>)
    ensures r == model_get_u64(v@, key@),
{
    match json_get(v, key) {
        Some(x) => json_as_u64(x),
        None => None,
    }
}

pub fn json_get_bool(v: &JsonValue, key: &str) -> (r: Option<bool>)
    ensures r == model_get_bool(v@, key@),
{
    match json_get(v, key) {
        Some(x) => json_as_bool(x),
        None => None,
    }
}

/// The views of a path of member names.
pub open spec fn path_views(path: Seq<&str>) -> Seq<Seq<char>> {
    path.map_values(|k: &str| k@)
}

/// The value at a path of member names, following `Value::get` at each step.
pub open spec fn model_path(m: JsonModel, path: Seq<Seq<char>>) -> Option<JsonModel>
    decreases path.len(),
{
    if path.len() == 0 {
        Some(m)
    } else {
        match model_get(m, path[0]) {
            Some(x) => model_path(x, path.drop_first()),
            None => None,
        }
    }
}

/// The string at a path of member names.
pub open spec fn model_path_str(m: JsonModel, path: Seq<Seq<char>>) -> Option<Seq<char>> {
    match model_path(m, path) {
        Some(x) => model_as_str(x),
        None => None,
    }
}

pub fn json_path<'a>(v: &'a JsonValue, path: &[&str]) -> (r: Option<&'a JsonValue>)
    ensures
        match r {
            Some(x) => model_path(v@, path_views(path@)) == Some(x@),
            None => model_path(v@, path_views(path@)) is None,
        },
{
    let ghost pv = path_views(path@);
    let mut cur: &JsonValue = v;
    let mut i: usize = 0;
    assert(pv.skip(0) =~= pv);
    while i < path.len()
        invariant
            0 <= i <= path@.len(),
            pv == path_views(path@),
            model_path(v@, pv) == model_path(cur@, pv.skip(i as int)),
        decreases path@.len() - i,
    {
        assert(pv.skip(i as int)[0] == path@[i as int]@);
        assert(pv.skip(i as int).drop_first() =~= pv.skip(i + 1));
        match json_get(cur, path[i]) {
            Some(x) => {
                cur = x;
            },
            None => {
                return None;
            },
        }
        i += 1;
    }
    assert(pv.skip(i as int).len() == 0);
    Some(cur)
}

/// `json_string`: the string at a path, copied out.
pub fn json_path_str(v: &JsonValue, path: &[&str]) -> (r: Option<String>)
    ensures
        match r {
            Some(s) => model_path_str(v@, path_views(path@)) == Some(s@),
            None => model_path_str(v@, path_views(path@)) is None,
        },
{
    match json_path(v, path) {
        Some(x) => match json_as_str(x) {
            Some(s) => Some(s.clone()),
            None => None,
        },
        None => None,
    }
}

/// `Value::as_array`: the items of an array.
pub fn json_array_items(v: &JsonValue) -> (r: Option<&Vec<JsonValue>>)
    ensures
        match r {
            Some(items) => v@ == JsonModel::Array(model_items(items@)),
            None => !(v@ is Array),
        },
{
    match v {
        JsonValue::Array(items) => Some(items),
        _ => None,
    }
}

/// `i` is the position of the first member named `key`.
pub open spec fn is_first_member(members: Seq<(Seq<char>, JsonModel)>, key: Seq<char>, i: int) -> bool {
    &&& 0 <= i < members.len()
    &&& members[i].0 == key
    &&& forall|j: int| 0 <= j < i ==> (#[trigger] members[j]).0 != key
}

/// The position of the first member named `key`.
pub open spec fn find_member_index(members: Seq<(Seq<char>, JsonModel)>, key: Seq<char>) -> Option<int> {
    if exists|i: int| 0 <= i < members.len() && (#[trigger] members[i]).0 == key {
        Some(choose|i: int| is_first_member(members, key, i))
    } else {
        None
    }
}

pub fn member_index(members: &Vec<(String, JsonValue)>, key: &str) -> (r: Option<usize>)
    ensures
        match r {
            Some(i) => find_member_index(model_members(members@), key@) == Some(i as int) && i < members@.len(),
            None => find_member_index(model_members(members@), key@) is None,
        },
{
    let ghost ms = model_members(members@);
    let k = chars_of(key);
    let mut i: usize = 0;
    while i < members.len()
        invariant
            0 <= i <= members@.len(),
            ms == model_members(members@),
            k@ == key@,
            forall|j: int| 0 <= j < i ==> (#[trigger] ms[j]).0 != key@,
        decreases members@.len() - i,
    {
        let name = chars_of(members[i].0.as_str());
        if chars_eq(&name, &k) {
            proof {
                assert(ms[i as int].0 == key@);
                assert(is_first_member(ms, key@, i as int));
                let c = choose|c: int| is_first_member(ms, key@, c);
                if c < i {
                    assert(ms[c].0 != key@);
                } else if c > i {
                    assert(ms[i as int].0 != key@);
                }
            }
            return Some(i);
        }
        i += 1;
    }
    None
}

// ---------------------------------------------------------------------------
// Building a document
// ---------------------------------------------------------------------------

pub fn json_str(s: &str) -> (r: JsonValue)
    ensures r@ == JsonModel::Str(s@),
{
    JsonValue::Str(crate::text::owned(s))
}

pub fn json_u64(n: u64) -> (r: JsonValue)
    ensures r@ == JsonModel::Number(crate::text::decimal(n as nat), Some(n)),
{
    JsonValue::Number(JsonNumber { text: crate::text::decimal_string(n), as_u64: Some(n) })
}

pub fn push_item(items: &mut Vec<JsonValue>, x: JsonValue)
    ensures model_items(final(items)@) == model_items(old(items)@).push(x@),
{
    let ghost before = items@;
    items.push(x);
    assert(model_items(items@) =~= model_items(before).push(x@));
}

pub fn push_member(members: &mut Vec<(String, JsonValue)>, key: &str, x: JsonValue)
    ensures model_members(final(members)@) == model_members(old(members)@).push((key@, x@)),
{
    let ghost before = members@;
    members.push((crate::text::owned(key), x));
    assert(model_members(members@) =~= model_members(before).push((key@, x@)));
}

/// `{ key: value }`.
pub fn json_object1(key: &str, value: JsonValue) -> (r: JsonValue)
    ensures r@ == JsonModel::Object(seq![(key@, value@)]),
{
    let mut m: Vec<(String, JsonValue)> = Vec::new();
    push_member(&mut m, key, value);
    assert(model_members(m@) =~= seq![(key@, value@)]);
    JsonValue::Object(m)
}

/// `{ k1: v1, k2: v2 }`.
pub fn json_object2(k1: &str, v1: JsonValue, k2: &str, v2: JsonValue) -> (r: JsonValue)
    ensures r@ == JsonModel::Object(seq![(k1@, v1@), (k2@, v2@)]),
{
    let mut m: Vec<(String, JsonValue)> = Vec::new();
    push_member(&mut m, k1, v1);
    push_member(&mut m, k2, v2);
    assert(model_members(m@) =~= seq![(k1@, v1@), (k2@, v2@)]);
    JsonValue::Object(m)
}

/// A text read as JSON, or `{}` where it is not JSON.
pub open spec fn parse_or_empty(text: Seq<char>) -> JsonModel {
    match spec_parse_json(text) {
        Some(m) => m,
        None => JsonModel::Object(Seq::empty()),
    }
}

/// A text read as JSON, or `null` where it is not JSON.
pub open spec fn parse_or_null(text: Seq<char>) -> JsonModel {
    match spec_parse_json(text) {
        Some(m) => m,
        None => JsonModel::Null,
    }
}

pub fn parse_json_or_empty(text: &str) -> (r: JsonValue)
    ensures r@ == parse_or_empty(text@),
{
    match parse_json(text) {
        Some(v) => v,
        None => {
            let r = JsonValue::Object(Vec::new());
            assert(model_members(Seq::<(String, JsonValue)>::empty()) =~= Seq::empty());
            r
        },
    }
}

pub fn parse_json_or_null(text: &str) -> (r: JsonValue)
    ensures r@ == parse_or_null(text@),
{
    match parse_json(text) {
        Some(v) => v,
        None => JsonValue::Null,
    }
}

// ---------------------------------------------------------------------------
// Parsing and printing through serde_json
// ---------------------------------------------------------------------------

#[verifier::external_type_specification]
#[verifier::external_body]
pub struct ExSerdeJsonValue(serde_json::Value);

/// The document that `serde_json::from_str::<serde_json::Value>` reads from a text,
/// or nothing where it reports an error.
pub uninterp spec fn spec_parse_json(text: Seq<char>) -> Option<JsonModel>;

/// The text that `serde_json::to_string` prints for a document.
pub uninterp spec fn spec_render_json(v: JsonModel) -> Seq<char>;

/// The text that `serde_json::to_string_pretty` prints for a document.
pub uninterp spec fn spec_render_json_pretty(v: JsonModel) -> Seq<char>;

/// Moves a `serde_json::Value` into the library's document type, variant by variant.
#[verifier::external_body]
fn from_serde(v: serde_json::Value) -> JsonValue {
    match v {
        serde_json::Value::Null => JsonValue::Null,
        serde_json::Value::Bool(b) => JsonValue::Bool(b),
        serde_json::Value::Number(n) => JsonValue::Number(JsonNumber { text: n.to_string(), as_u64: n.as_u64() }),
        serde_json::Value::String(s) => JsonValue::Str(s),
        serde_json::Value::Array(items) => JsonValue::Array(items.into_iter().map(from_serde).collect()),
        serde_json::Value::Object(map) => JsonValue::Object(map.into_iter().map(|(k, x)| (k, from_serde(x))).collect()),
    }
}

/// Copies the library's document type into a `serde_json::Value`, variant by variant.
#[verifier::external_body]
fn to_serde(v: &JsonValue) -> serde_json::Value {
    match v {
        JsonValue::Null => serde_json::Value::Null,
        JsonValue::Bool(b) => serde_json::Value::Bool(*b),
        JsonValue::Number(n) => n.text.parse::<serde_json::Number>().map(serde_json::Value::Number).unwrap_or(serde_json::Value::Null),
        JsonValue::Str(s) => serde_json::Value::String(s.clone()),
        JsonValue::Array(items) => serde_json::Value::Array(items.iter().map(to_serde).collect()),
        JsonValue::Object(members) => serde_json::Value::Object(members.iter().map(|(k, x)| (k.clone(), to_serde(x))).collect()),
    }
}

/// `serde_json::from_str::<serde_json::Value>(text).ok()`: the contract names the parser's
/// answer; the grammar of JSON is not restated here.
#[verifier::external_body]
pub(crate) fn parse_json(text: &str) -> (r: Option<JsonValue>)
    ensures
        match r {
            Some(v) => spec_parse_json(text@) == Some(v@),
            None => spec_parse_json(text@) is None,
        },
{
    match serde_json::from_str::<serde_json::Value>(text) {
        Ok(v) => Some(from_serde(v)),
        Err(_) => None,
    }
}

/// `serde_json::to_string` of a document, which cannot fail for a value whose object
/// keys are strings; the printed text is named, not restated.
#[verifier::external_body]
pub(crate) fn render_json(v: &JsonValue) -> (r: String)
    ensures r@ == spec_render_json(v@),
{
    serde_json::to_string(&to_serde(v)).unwrap_or_default()
}

/// `serde_json::to_string_pretty` of a document; the printed text is named, not restated.
#[verifier::external_body]
pub(crate) fn render_json_pretty(v: &JsonValue) -> (r: String)
    ensures r@ == spec_render_json_pretty(v@),
{
    serde_json::to_string_pretty(&to_serde(v)).unwrap_or_default()
}


/// The message of the error that `serde_json::from_str::<serde_json::Value>` reports
/// for a text it cannot read.
pub uninterp spec fn spec_parse_json_error(text: Seq<char>) -> Seq<char>;

/// `serde_json::from_str::<serde_json::Value>(text)` with the error's message kept.
#[verifier::external_body]
pub(crate) fn parse_json_or_error(text: &str) -> (r: Result<JsonValue, String>)
    ensures
        match r {
            Ok(v) => spec_parse_json(text@) == Some(v@),
            Err(e) => spec_parse_json(text@) is None && e@ == spec_parse_json_error(text@),
        },
{
    match serde_json::from_str::<serde_json::Value>(text) {
        Ok(v) => Ok(from_serde(v)),
        Err(e) => Err(e.to_string()),
    }
}

} // verus!
