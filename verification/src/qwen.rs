//! The Qwen chat-completion reply: the request address, the content read from the reply
//! in each of the shapes it comes in, and the errors reported.
use vstd::prelude::*;

use crate::json::{json_array_items, json_as_str, json_get, model_as_str, model_get, model_get_str, JsonModel, JsonValue};
use crate::models::{QwenConfig, QwenSuccess};
use crate::text::{chars_of, is_blank, join, opt_view, owned, push_chars, push_str, string_of, trim, trim_str, views};

verus! {

/// `normalize_base_path`: the trimmed path with a leading `/`; `/chat/completions` when blank.
pub open spec fn base_path_spec(path: Seq<char>) -> Seq<char> {
    let t = trim(path);
    if t.len() == 0 {
        "/chat/completions"@
    } else if t[0] == '/' {
        t
    } else {
        "/"@ + t
    }
}

pub fn normalize_base_path(path: &str) -> (r: String)
    ensures r@ == base_path_spec(path@),
{
    let t = trim_str(path);
    if t.len() == 0 {
        owned("/chat/completions")
    } else if t[0] == '/' {
        string_of(&t)
    } else {
        let mut p = chars_of("/");
        push_chars(&mut p, &t);
        string_of(&p)
    }
}

/// The address of a completion request: the base URL without trailing slashes, then the path.
pub fn completion_url(config: &QwenConfig) -> (r: String)
    ensures r@ == crate::text::trim_end_char(config.base_url@, '/') + base_path_spec(config.base_path@),
{
    let b = chars_of(config.base_url.as_str());
    let mut u = crate::text::trim_end_char_exec(&b, '/');
    push_str(&mut u, normalize_base_path(config.base_path.as_str()).as_str());
    string_of(&u)
}

/// `preview`: the trimmed body cut to 400 characters, with `...` when longer.
pub open spec fn preview_spec(body: Seq<char>) -> Seq<char> {
    let t = trim(body);
    if t.len() > 400 { t.take(400) + "..."@ } else { t }
}

pub fn preview(body: &str) -> (r: String)
    ensures r@ == preview_spec(body@),
{
    let t = trim_str(body);
    if t.len() > 400 {
        let mut p = crate::text::slice_chars(&t, 0, 400);
        push_str(&mut p, "...");
        assert(p@ =~= t@.take(400) + "..."@);
        string_of(&p)
    } else {
        string_of(&t)
    }
}

/// The text of one content part: its `text`, else its `content`.
pub open spec fn part_text(item: JsonModel) -> Option<Seq<char>> {
    match model_get_str(item, "text"@) {
        Some(t) => Some(t),
        None => model_get_str(item, "content"@),
    }
}

pub open spec fn part_texts(items: Seq<JsonModel>) -> Seq<Seq<char>>
    decreases items.len(),
{
    if items.len() == 0 {
        Seq::empty()
    } else {
        let prev = part_texts(items.drop_last());
        match part_text(items.last()) {
            Some(t) => prev.push(t),
            None => prev,
        }
    }
}

/// `read_content_value`: a string as it is; for an array, the texts of its parts joined by
/// newlines, unless that is blank.
pub open spec fn read_content_spec(m: JsonModel) -> Option<Seq<char>> {
    match m {
        JsonModel::Str(s) => Some(s),
        JsonModel::Array(items) => {
            let joined = join(part_texts(items), "\n"@);
            if is_blank(joined) { None } else { Some(joined) }
        },
        _ => None,
    }
}

pub fn read_content_value(v: &JsonValue) -> (r: Option<String>)
    ensures opt_view(r) == read_content_spec(v@),
{
    match json_as_str(v) {
        Some(s) => return Some(s.clone()),
        None => {},
    }
    let items = match json_array_items(v) {
        Some(items) => items,
        None => return None,
    };
    let ghost its = crate::json::model_items(items@);
    let mut texts: Vec<Vec<char>> = Vec::new();
    let mut i: usize = 0;
    while i < items.len()
        invariant
            0 <= i <= items@.len(),
            its == crate::json::model_items(items@),
            views(texts@) == part_texts(its.take(i as int)),
        decreases items@.len() - i,
    {
        assert(its.take(i + 1).drop_last() =~= its.take(i as int));
        assert(its.take(i + 1).last() == items@[i as int]@);
        let t = match crate::json::json_get_str(&items[i], "text") {
            Some(t) => Some(t),
            None => crate::json::json_get_str(&items[i], "content"),
        };
        match t {
            Some(t) => {
                let ghost prev = texts@;
                texts.push(t);
                assert(views(texts@) =~= views(prev).push(t@));
            },
            None => {},
        }
        i += 1;
    }
    assert(its.take(items@.len() as int) =~= its);
    let joined = crate::text::join_exec(&texts, "\n");
    if crate::text::is_blank_exec(&joined) { None } else { Some(string_of(&joined)) }
}

pub open spec fn get_in(m: Option<JsonModel>, key: Seq<char>) -> Option<JsonModel> {
    match m {
        Some(x) => model_get(x, key),
        None => None,
    }
}

pub open spec fn first_of(m: Option<JsonModel>) -> Option<JsonModel> {
    match m {
        Some(JsonModel::Array(items)) => if items.len() > 0 { Some(items[0]) } else { None },
        _ => None,
    }
}

pub open spec fn read_in(m: Option<JsonModel>) -> Option<Seq<char>> {
    match m {
        Some(x) => read_content_spec(x),
        None => None,
    }
}

/// `extract_content`: the reply's text, looked for in `choices[0].message.content`,
/// `output.choices[0].message.content`, `output.text` and `data.content`, in that order.
pub open spec fn extract_content_spec(body: Seq<char>) -> Option<Seq<char>> {
    match crate::json::spec_parse_json(body) {
        None => None,
        Some(doc) => {
            let p = Some(doc);
            let a = read_in(get_in(get_in(first_of(get_in(p, "choices"@)), "message"@), "content"@));
            let b = read_in(get_in(get_in(first_of(get_in(get_in(p, "output"@), "choices"@)), "message"@), "content"@));
            let c = match get_in(get_in(p, "output"@), "text"@) { Some(x) => model_as_str(x), None => None };
            let d = read_in(get_in(get_in(p, "data"@), "content"@));
            if a is Some { a } else if b is Some { b } else if c is Some { c } else { d }
        },
    }
}

fn get_in_exec<'a>(v: Option<&'a JsonValue>, key: &str) -> (r: Option<&'a JsonValue>)
    ensures
        match r {
            Some(x) => get_in(match v { Some(y) => Some(y@), None => None }, key@) == Some(x@),
            None => get_in(match v { Some(y) => Some(y@), None => None }, key@) is None,
        },
{
    match v {
        Some(x) => json_get(x, key),
        None => None,
    }
}

fn first_of_exec<'a>(v: Option<&'a JsonValue>) -> (r: Option<&'a JsonValue>)
    ensures
        match r {
            Some(x) => first_of(match v { Some(y) => Some(y@), None => None }) == Some(x@),
            None => first_of(match v { Some(y) => Some(y@), None => None }) is None,
        },
{
    match v {
        Some(x) => match json_array_items(x) {
            Some(items) => if items.len() > 0 {
                assert(crate::json::model_items(items@)[0] == items@[0]@);
                Some(&items[0])
            } else {
                None
            },
            None => None,
        },
        None => None,
    }
}

fn read_in_exec(v: Option<&JsonValue>) -> (r: Option<String>)
    ensures opt_view(r) == read_in(match v { Some(y) => Some(y@), None => None }),
{
    match v {
        Some(x) => read_content_value(x),
        None => None,
    }
}

pub fn extract_content(body: &str) -> (r: Option<String>)
    ensures opt_view(r) == extract_content_spec(body@),
{
    let parsed = match crate::json::parse_json(body) {
        Some(p) => p,
        None => return None,
    };
    let p = Some(&parsed);
    let a = read_in_exec(get_in_exec(get_in_exec(first_of_exec(get_in_exec(p, "choices")), "message"), "content"));
    if a.is_some() {
        return a;
    }
    let b = read_in_exec(get_in_exec(get_in_exec(first_of_exec(get_in_exec(get_in_exec(p, "output"), "choices")), "message"), "content"));
    if b.is_some() {
        return b;
    }
    match get_in_exec(get_in_exec(p, "output"), "text") {
        Some(x) => match json_as_str(x) {
            Some(s) => return Some(s.clone()),
            None => {},
        },
        None => {},
    }
    read_in_exec(get_in_exec(get_in_exec(p, "data"), "content"))
}

/// How a completion request fails.
pub enum QwenError {
    /// The request could not be sent or its reply read.
    Request(String),
    /// The server answered with a status other than success.
    HttpStatus { status: u16, body_preview: String },
    /// The reply held no content in a known shape.
    UnsupportedShape { body_preview: String },
}

impl QwenError {
    /// The message of the error.
    pub fn message(&self) -> (r: String)
        ensures
            r@ == match self {
                QwenError::Request(e) => "qwen request failed: "@ + e@,
                QwenError::HttpStatus { status, body_preview } =>
                    "qwen returned HTTP "@ + crate::text::decimal(*status as nat) + ": "@ + body_preview@,
                QwenError::UnsupportedShape { body_preview } =>
                    "qwen returned an unsupported response shape: "@ + body_preview@,
            },
    {
        match self {
            QwenError::Request(e) => {
                let mut m = chars_of("qwen request failed: ");
                push_str(&mut m, e.as_str());
                string_of(&m)
            },
            QwenError::HttpStatus { status, body_preview } => {
                let mut m = chars_of("qwen returned HTTP ");
                crate::text::push_decimal(&mut m, *status as u64);
                push_str(&mut m, ": ");
                push_str(&mut m, body_preview.as_str());
                string_of(&m)
            },
            QwenError::UnsupportedShape { body_preview } => {
                let mut m = chars_of("qwen returned an unsupported response shape: ");
                push_str(&mut m, body_preview.as_str());
                string_of(&m)
            },
        }
    }
}

/// `complete_chat` once the reply is in: a success status with content, or the error.
pub fn interpret_reply(status: u16, body: String) -> (r: Result<QwenSuccess, QwenError>)
    ensures
        match r {
            Ok(s) => 200 <= status <= 299 && extract_content_spec(body@) == Some(s.content@) && s.raw_body@ == body@,
            Err(QwenError::HttpStatus { status: st, body_preview }) =>
                !(200 <= status <= 299) && st == status && body_preview@ == preview_spec(body@),
            Err(QwenError::UnsupportedShape { body_preview }) =>
                200 <= status <= 299 && extract_content_spec(body@) is None && body_preview@ == preview_spec(body@),
            Err(QwenError::Request(_)) => false,
        },
{
    if status < 200 || status > 299 {
        return Err(QwenError::HttpStatus { status, body_preview: preview(body.as_str()) });
    }
    match extract_content(body.as_str()) {
        Some(content) => Ok(QwenSuccess { content, raw_body: body }),
        None => Err(QwenError::UnsupportedShape { body_preview: preview(body.as_str()) }),
    }
}

} // verus!
