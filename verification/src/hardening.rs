//! Hardening of untrusted text: prompt-injection filtering, control-character removal
//! and masking of credentials, for plain text and for JSON documents.
use vstd::prelude::*;

use crate::json::{
    model_of, model_items, model_members, parse_json, render_json, spec_parse_json, spec_render_json,
    JsonModel, JsonValue,
};
use crate::text::{
    split_char, chars_of, char_is_control, lemma_first_occurrence_exists, lemma_first_occurrence_unique, char_is_ws, contains, find, is_first_occurrence, is_ws, is_control,
    join, join_exec, lines, lines_str, lower, occurs_at, push_chars, push_str, slice_chars,
    string_of, to_lower, contains_exec, views,
};

verus! {

// ---------------------------------------------------------------------------
// Prompt-injection filtering
// ---------------------------------------------------------------------------

/// Phrases that mark a line of untrusted text as a likely prompt injection.
pub open spec fn suspicious_pattern(i: int) -> Seq<char> {
    if i == 0 { "ignore previous instructions"@ }
    else if i == 1 { "system prompt"@ }
    else if i == 2 { "developer message"@ }
    else if i == 3 { "<tool_call"@ }
    else if i == 4 { "BEGIN PROMPT INJECTION"@ }
    else { "assistant must"@ }
}

pub open spec fn suspicious_pattern_count() -> int { 6 }

/// The text that stands in for a filtered line.
pub open spec fn filtered_line() -> Seq<char> {
    "[filtered potentially unsafe content]"@
}

/// A line is suspicious when, ignoring ASCII case, it contains one of the patterns.
pub open spec fn is_suspicious(line: Seq<char>) -> bool {
    exists|i: int| 0 <= i < suspicious_pattern_count()
        && #[trigger] contains(lower(line), lower(suspicious_pattern(i)))
}

/// Characters that survive in an unsuspicious line: all but control characters,
/// except line feed, carriage return and tab.
pub open spec fn keep_char(c: char) -> bool {
    !is_control(c) || c == '\n' || c == '\r' || c == '\t'
}

pub open spec fn strip_controls(s: Seq<char>) -> Seq<char>
    decreases s.len(),
{
    if s.len() == 0 {
        s
    } else {
        let p = strip_controls(s.drop_last());
        if keep_char(s.last()) { p.push(s.last()) } else { p }
    }
}

pub open spec fn sanitize_line(line: Seq<char>) -> Seq<char> {
    if is_suspicious(line) { filtered_line() } else { strip_controls(line) }
}

pub open spec fn sanitize_lines(ls: Seq<Seq<char>>) -> Seq<Seq<char>> {
    ls.map_values(|l: Seq<char>| sanitize_line(l))
}

/// What `sanitize_untrusted_text` returns: each line of the input, filtered or
/// stripped of control characters, joined with `\n`.
pub open spec fn sanitize_untrusted(s: Seq<char>) -> Seq<char> {
    join(sanitize_lines(lines(s)), "\n"@)
}

fn pattern(i: usize) -> (p: &'static str)
    requires i < 6,
    ensures p@ == suspicious_pattern(i as int),
{
    if i == 0 { "ignore previous instructions" }
    else if i == 1 { "system prompt" }
    else if i == 2 { "developer message" }
    else if i == 3 { "<tool_call" }
    else if i == 4 { "BEGIN PROMPT INJECTION" }
    else { "assistant must" }
}

fn is_suspicious_exec(line: &[char]) -> (r: bool)
    ensures r == is_suspicious(line@),
{
    let lowered = to_lower(line);
    let mut i: usize = 0;
    while i < 6
        invariant
            0 <= i <= 6,
            lowered@ == lower(line@),
            forall|j: int| 0 <= j < i ==> !#[trigger] contains(lower(line@), lower(suspicious_pattern(j))),
        decreases 6 - i,
    {
        let p = chars_of(pattern(i));
        let lp = to_lower(&p);
        if contains_exec(&lowered, &lp) {
            return true;
        }
        i += 1;
    }
    false
}

fn strip_controls_exec(s: &[char]) -> (r: Vec<char>)
    ensures r@ == strip_controls(s@),
{
    let mut r: Vec<char> = Vec::new();
    let mut i: usize = 0;
    while i < s.len()
        invariant
            0 <= i <= s@.len(),
            r@ == strip_controls(s@.take(i as int)),
        decreases s@.len() - i,
    {
        assert(s@.take(i + 1).drop_last() =~= s@.take(i as int));
        let c = s[i];
        if !char_is_control(c) || c == '\n' || c == '\r' || c == '\t' {
            r.push(c);
        }
        i += 1;
    }
    assert(s@.take(i as int) =~= s@);
    r
}

fn sanitize_line_exec(line: &[char]) -> (r: Vec<char>)
    ensures r@ == sanitize_line(line@),
{
    if is_suspicious_exec(line) {
        chars_of("[filtered potentially unsafe content]")
    } else {
        strip_controls_exec(line)
    }
}

fn sanitize_untrusted_chars(input: &str) -> (r: Vec<char>)
    ensures r@ == sanitize_untrusted(input@),
{
    let ls = lines_str(input);
    let mut out: Vec<Vec<char>> = Vec::new();
    let mut i: usize = 0;
    while i < ls.len()
        invariant
            0 <= i <= ls@.len(),
            views(out@) == sanitize_lines(views(ls@).take(i as int)),
        decreases ls@.len() - i,
    {
        let ghost prev = out@;
        let l = sanitize_line_exec(&ls[i]);
        out.push(l);
        i += 1;
        assert(views(out@) =~= views(prev).push(l@));
        assert(sanitize_lines(views(ls@).take(i as int)) =~= sanitize_lines(views(ls@).take(i - 1)).push(
            sanitize_line(views(ls@)[i - 1])));
    }
    assert(views(ls@).take(i as int) =~= views(ls@));
    join_exec(&out, "\n")
}

/// Filters each line of untrusted text: a line that contains a prompt-injection phrase
/// (ignoring ASCII case) becomes a fixed placeholder, other lines lose their control
/// characters (tab and carriage return stay); lines are joined with `\n`.
pub fn sanitize_untrusted_text(input: &str) -> (r: String)
    ensures r@ == sanitize_untrusted(input@),
{
    let v = sanitize_untrusted_chars(input);
    string_of(&v)
}

// ---------------------------------------------------------------------------
// Masking of credentials
// ---------------------------------------------------------------------------

/// Characters that end a credential after its marker.
pub open spec fn is_token_end(c: char) -> bool {
    is_ws(c) || c == '"' || c == '\'' || c == ',' || c == ';'
}

/// The length of the credential at the start of `s`: the characters before the first token end.
pub open spec fn token_len(s: Seq<char>) -> nat
    decreases s.len(),
{
    if s.len() == 0 || is_token_end(s[0]) {
        0
    } else {
        1 + token_len(s.drop_first())
    }
}

/// The placeholder that replaces a credential.
pub open spec fn masked() -> Seq<char> {
    "[masked]"@
}

/// Every credential that directly follows an occurrence of `marker` is replaced by the
/// placeholder; the scan resumes after the credential (or right after the marker when no
/// credential follows it).
pub open spec fn mask_after(s: Seq<char>, marker: Seq<char>) -> Seq<char>
    recommends marker.len() > 0,
    decreases s.len(),
{
    if marker.len() == 0 || !contains(s, marker) {
        s
    } else {
        let i = choose|i: int| is_first_occurrence(s, marker, i);
        if 0 <= i && i + marker.len() <= s.len() {
            let after = s.skip(i + marker.len());
            let t = token_len(after);
            if 0 < t <= after.len() {
                s.take(i) + marker + masked() + mask_after(after.skip(t as int), marker)
            } else {
                s.take(i) + marker + mask_after(after, marker)
            }
        } else {
            s
        }
    }
}

proof fn lemma_token_len_bound(s: Seq<char>)
    ensures token_len(s) <= s.len(),
    decreases s.len(),
{
    if s.len() > 0 && !is_token_end(s[0]) {
        lemma_token_len_bound(s.drop_first());
    }
}

/// A credential runs up to a character that ends it, or to the end.
proof fn lemma_token_len_stop(s: Seq<char>)
    ensures token_len(s) <= s.len(), token_stop(s, token_len(s) as int),
    decreases s.len(),
{
    if s.len() > 0 && !is_token_end(s[0]) {
        lemma_token_len_stop(s.drop_first());
        let t = token_len(s.drop_first());
        if t < s.drop_first().len() {
            assert(s[t as int + 1] == s.drop_first()[t as int]);
        }
    }
}

/// The markers after which a credential is masked, in the order they are applied.
pub open spec fn sensitive_marker(i: int) -> Seq<char> {
    if i == 0 { "Bearer "@ }
    else if i == 1 { "accessToken="@ }
    else if i == 2 { "password="@ }
    else if i == 3 { "passwd="@ }
    else if i == 4 { "token="@ }
    else if i == 5 { "secret="@ }
    else if i == 6 { "apiKey="@ }
    else { "api_key="@ }
}

/// The first `k` markers applied to `s` one after the other.
pub open spec fn mask_with_first(s: Seq<char>, k: int) -> Seq<char>
    decreases k,
{
    if k <= 0 {
        s
    } else {
        mask_after(mask_with_first(s, k - 1), sensitive_marker(k - 1))
    }
}

/// What `mask_sensitive_text` returns.
pub open spec fn mask_sensitive(s: Seq<char>) -> Seq<char> {
    mask_with_first(s, 8)
}

fn marker(i: usize) -> (m: &'static str)
    requires i < 8,
    ensures m@ == sensitive_marker(i as int),
{
    if i == 0 { "Bearer " }
    else if i == 1 { "accessToken=" }
    else if i == 2 { "password=" }
    else if i == 3 { "passwd=" }
    else if i == 4 { "token=" }
    else if i == 5 { "secret=" }
    else if i == 6 { "apiKey=" }
    else { "api_key=" }
}

fn token_end_exec(c: char) -> (r: bool)
    ensures r == is_token_end(c),
{
    char_is_ws(c) || c == '"' || c == '\'' || c == ',' || c == ';'
}

fn mask_after_marker_chars(input: &[char], marker: &[char]) -> (r: Vec<char>)
    requires marker@.len() > 0,
    ensures r@ == mask_after(input@, marker@),
    decreases input@.len(),
{
    let n = input.len();
    match find(input, marker) {
        None => copy_chars_all(input),
        Some(i) => {
            proof {
                let k = choose|k: int| is_first_occurrence(input@, marker@, k);
                lemma_first_occurrence_unique(input@, marker@, i as int, k);
            }
            let q = i + marker.len();
            let mut j = q;
            assert(input@.skip(q as int).skip(0) =~= input@.skip(q as int));
            while j < n && !token_end_exec(input[j])
                invariant
                    n == input@.len(),
                    q <= j <= n,
                    token_len(input@.skip(q as int)) == (j - q) + token_len(input@.skip(j as int)),
                decreases n - j,
            {
                assert(input@.skip(j as int).drop_first() =~= input@.skip(j + 1));
                j += 1;
            }
            assert(token_len(input@.skip(j as int)) == 0);
            proof { lemma_token_len_bound(input@.skip(q as int)); }
            let mut out = slice_chars(input, 0, i);
            push_chars(&mut out, marker);
            let resume = if j > q {
                push_str(&mut out, "[masked]");
                j
            } else {
                q
            };
            let rest = slice_chars(input, resume, n);
            let tail = mask_after_marker_chars(&rest, marker);
            push_chars(&mut out, &tail);
            assert(input@.skip(q as int).skip(j - q) =~= input@.skip(j as int));
            assert(rest@ =~= input@.skip(resume as int));
            assert(out@ =~= mask_after(input@, marker@));
            out
        },
    }
}

fn copy_chars_all(s: &[char]) -> (r: Vec<char>)
    ensures r@ == s@,
{
    slice_chars(s, 0, s.len())
}

fn mask_sensitive_chars(input: &[char]) -> (r: Vec<char>)
    ensures r@ == mask_sensitive(input@),
{
    let mut cur = copy_chars_all(input);
    let mut k: usize = 0;
    while k < 8
        invariant
            0 <= k <= 8,
            cur@ == mask_with_first(input@, k as int),
        decreases 8 - k,
    {
        let m = chars_of(marker(k));
        assert(m@.len() > 0) by {
            reveal_strlit("Bearer ");
            reveal_strlit("accessToken=");
            reveal_strlit("password=");
            reveal_strlit("passwd=");
            reveal_strlit("token=");
            reveal_strlit("secret=");
            reveal_strlit("apiKey=");
            reveal_strlit("api_key=");
        }
        cur = mask_after_marker_chars(&cur, &m);
        k += 1;
    }
    cur
}

/// Replaces the credential after each marker (`Bearer `, `accessToken=`, `password=`,
/// `passwd=`, `token=`, `secret=`, `apiKey=`, `api_key=`) by `[masked]`, marker by marker.
pub fn mask_sensitive_text(input: &str) -> (r: String)
    ensures r@ == mask_sensitive(input@),
{
    let v = chars_of(input);
    let m = mask_sensitive_chars(&v);
    string_of(&m)
}

/// What `sanitize_and_mask_text` returns.
pub open spec fn sanitize_and_mask(s: Seq<char>) -> Seq<char> {
    mask_sensitive(sanitize_untrusted(s))
}

/// Line filtering followed by credential masking.
pub fn sanitize_and_mask_text(input: &str) -> (r: String)
    ensures r@ == sanitize_and_mask(input@),
{
    let v = sanitize_untrusted_chars(input);
    let m = mask_sensitive_chars(&v);
    string_of(&m)
}

fn sanitize_and_mask_chars(input: &str) -> (r: Vec<char>)
    ensures r@ == sanitize_and_mask(input@),
{
    let v = sanitize_untrusted_chars(input);
    mask_sensitive_chars(&v)
}


// ---------------------------------------------------------------------------
// JSON documents
// ---------------------------------------------------------------------------

/// Object keys whose values are masked outright (compared after ASCII lower-casing).
pub open spec fn secret_key_needle(i: int) -> Seq<char> {
    if i == 0 { "password"@ }
    else if i == 1 { "token"@ }
    else if i == 2 { "secret"@ }
    else if i == 3 { "apikey"@ }
    else if i == 4 { "api_key"@ }
    else { "accessToken"@ }
}

pub open spec fn is_secret_key(k: Seq<char>) -> bool {
    exists|i: int| 0 <= i < 6 && #[trigger] contains(lower(k), lower(secret_key_needle(i)))
}

/// The document with every string sanitized and masked, and every member whose key
/// names a secret replaced by `"[masked]"`.
pub open spec fn sanitized(m: JsonModel) -> JsonModel
    decreases m,
{
    match m {
        JsonModel::Str(s) => JsonModel::Str(sanitize_and_mask(s)),
        JsonModel::Array(items) => JsonModel::Array(
            Seq::new(items.len(), |i: int| if 0 <= i < items.len() { sanitized(items[i]) } else { JsonModel::Null }),
        ),
        JsonModel::Object(ms) => JsonModel::Object(
            Seq::new(
                ms.len(),
                |i: int|
                    if 0 <= i < ms.len() {
                        if is_secret_key(ms[i].0) {
                            (ms[i].0, JsonModel::Str(masked()))
                        } else {
                            (ms[i].0, sanitized(ms[i].1))
                        }
                    } else {
                        (Seq::empty(), JsonModel::Null)
                    },
            ),
        ),
        other => other,
    }
}

fn needle(i: usize) -> (n: &'static str)
    requires i < 6,
    ensures n@ == secret_key_needle(i as int),
{
    if i == 0 { "password" }
    else if i == 1 { "token" }
    else if i == 2 { "secret" }
    else if i == 3 { "apikey" }
    else if i == 4 { "api_key" }
    else { "accessToken" }
}

fn is_secret_key_exec(k: &str) -> (r: bool)
    ensures r == is_secret_key(k@),
{
    let kv = chars_of(k);
    let lowered = to_lower(&kv);
    let mut i: usize = 0;
    while i < 6
        invariant
            0 <= i <= 6,
            lowered@ == lower(k@),
            forall|j: int| 0 <= j < i ==> !#[trigger] contains(lower(k@), lower(secret_key_needle(j))),
        decreases 6 - i,
    {
        let nv = chars_of(needle(i));
        let ln = to_lower(&nv);
        if contains_exec(&lowered, &ln) {
            return true;
        }
        i += 1;
    }
    false
}

fn copy_string(s: &String) -> (r: String)
    ensures r@ == s@,
{
    s.clone()
}

/// Sanitizes every string of a document and masks the values of secret-named members.
fn sanitize_value(v: &JsonValue) -> (r: JsonValue)
    ensures r@ == sanitized(v@),
    decreases v,
{
    match v {
        JsonValue::Str(s) => {
            let t = sanitize_and_mask_chars(s.as_str());
            let st = string_of(&t);
            let r = JsonValue::Str(st);
            assert(v@ == JsonModel::Str(s@));
            assert(r@ == JsonModel::Str(st@));
            assert(st@ == sanitize_and_mask(s@));
            assert(sanitized(v@) == JsonModel::Str(sanitize_and_mask(s@)));
            assert(r@ == sanitized(v@));
            return r;
        },
        JsonValue::Array(items) => {
            let mut out: Vec<JsonValue> = Vec::new();
            let mut i: usize = 0;
            while i < items.len()
                invariant
                    *v == JsonValue::Array(*items),
                    0 <= i <= items@.len(),
                    out@.len() == i,
                    forall|j: int| 0 <= j < i ==> (#[trigger] out@[j])@ == sanitized(items@[j]@),
                decreases items@.len() - i,
            {
                proof {
                    assert(decreases_to!(*v => (*v)->Array_0));
                    assert(decreases_to!(*items => items@));
                    assert(decreases_to!(items@ => items@[i as int]));
                }
                let x = sanitize_value(&items[i]);
                out.push(x);
                i += 1;
            }
            let r = JsonValue::Array(out);
            proof {
                let target = sanitized(v@)->Array_0;
                assert(v@ == JsonModel::Array(model_items(items@)));
                assert(model_items(out@) =~= target);
            }
            r
        },
        JsonValue::Object(members) => {
            let mut out: Vec<(String, JsonValue)> = Vec::new();
            let mut i: usize = 0;
            let ghost ms = model_members(members@);
            while i < members.len()
                invariant
                    *v == JsonValue::Object(*members),
                    0 <= i <= members@.len(),
                    ms == model_members(members@),
                    out@.len() == i,
                    forall|j: int| 0 <= j < i ==> (#[trigger] out@[j]).0@ == members@[j].0@,
                    forall|j: int| 0 <= j < i ==> (#[trigger] out@[j]).1@ == (if is_secret_key(ms[j].0) {
                        JsonModel::Str(masked())
                    } else {
                        sanitized(ms[j].1)
                    }),
                decreases members@.len() - i,
            {
                let key = copy_string(&members[i].0);
                let value = if is_secret_key_exec(members[i].0.as_str()) {
                    let m = chars_of("[masked]");
                    JsonValue::Str(string_of(&m))
                } else {
                    proof {
                        assert(decreases_to!(*v => (*v)->Object_0));
                        assert(decreases_to!(*members => members@));
                        assert(decreases_to!(members@ => members@[i as int]));
                        assert(decreases_to!(members@[i as int] => members@[i as int].1));
                    }
                    sanitize_value(&members[i].1)
                };
                out.push((key, value));
                i += 1;
            }
            let r = JsonValue::Object(out);
            proof {
                let target = sanitized(v@)->Object_0;
                assert(v@ == JsonModel::Object(ms));
                assert(model_members(out@) =~= target);
            }
            r
        },
        JsonValue::Null => JsonValue::Null,
        JsonValue::Bool(b) => JsonValue::Bool(*b),
        JsonValue::Number(n) => JsonValue::Number(crate::json::JsonNumber { text: copy_string(&n.text), as_u64: n.as_u64 }),
    }
}

/// What `sanitize_and_mask_json` returns: a JSON text is parsed, sanitized and printed
/// again; any other text is treated as plain text.
pub open spec fn sanitize_and_mask_json_spec(s: Seq<char>) -> Seq<char> {
    match spec_parse_json(s) {
        Some(m) => spec_render_json(sanitized(m)),
        None => sanitize_and_mask(s),
    }
}

/// Sanitizes and masks a JSON text: strings are filtered and masked, members whose key
/// names a secret are masked outright. Text that is not JSON is sanitized as plain text.
pub fn sanitize_and_mask_json(input: &str) -> (r: String)
    ensures r@ == sanitize_and_mask_json_spec(input@),
{
    match parse_json(input) {
        Some(v) => {
            let s = sanitize_value(&v);
            render_json(&s)
        },
        None => sanitize_and_mask_text(input),
    }
}


// ---------------------------------------------------------------------------
// Laws
// ---------------------------------------------------------------------------

/// Every character of `s` is one that sanitizing keeps.
pub open spec fn all_kept(s: Seq<char>) -> bool {
    forall|i: int| 0 <= i < s.len() ==> keep_char(#[trigger] s[i])
}

proof fn lemma_strip_controls_kept(s: Seq<char>)
    ensures all_kept(strip_controls(s)),
    decreases s.len(),
{
    if s.len() > 0 {
        lemma_strip_controls_kept(s.drop_last());
    }
}

proof fn lemma_concat_kept(a: Seq<char>, b: Seq<char>)
    requires all_kept(a), all_kept(b),
    ensures all_kept(a + b),
{
    assert forall|i: int| 0 <= i < (a + b).len() implies keep_char(#[trigger] (a + b)[i]) by {
        if i < a.len() {
            assert((a + b)[i] == a[i]);
        } else {
            assert((a + b)[i] == b[i - a.len()]);
        }
    }
}

proof fn lemma_literals_kept()
    ensures
        all_kept(filtered_line()),
        all_kept(masked()),
        all_kept("\n"@),
        forall|k: int| 0 <= k < 8 ==> all_kept(#[trigger] sensitive_marker(k)),
{
    reveal_strlit("[filtered potentially unsafe content]");
    reveal_strlit("[masked]");
    reveal_strlit("\n");
    reveal_strlit("Bearer ");
    reveal_strlit("accessToken=");
    reveal_strlit("password=");
    reveal_strlit("passwd=");
    reveal_strlit("token=");
    reveal_strlit("secret=");
    reveal_strlit("apiKey=");
    reveal_strlit("api_key=");
}

proof fn lemma_join_kept(parts: Seq<Seq<char>>, sep: Seq<char>)
    requires
        all_kept(sep),
        forall|i: int| 0 <= i < parts.len() ==> all_kept(#[trigger] parts[i]),
    ensures all_kept(join(parts, sep)),
    decreases parts.len(),
{
    if parts.len() == 1 {
        assert(all_kept(parts[0]));
    } else if parts.len() > 1 {
        lemma_join_kept(parts.drop_last(), sep);
        assert(all_kept(parts.last()));
        lemma_concat_kept(join(parts.drop_last(), sep), sep);
        lemma_concat_kept(join(parts.drop_last(), sep) + sep, parts.last());
    }
}

proof fn lemma_sanitize_untrusted_kept(s: Seq<char>)
    ensures all_kept(sanitize_untrusted(s)),
{
    lemma_literals_kept();
    let ls = sanitize_lines(lines(s));
    assert forall|i: int| 0 <= i < ls.len() implies all_kept(#[trigger] ls[i]) by {
        lemma_strip_controls_kept(lines(s)[i]);
    }
    lemma_join_kept(ls, "\n"@);
}

proof fn lemma_mask_after_kept(s: Seq<char>, marker: Seq<char>)
    requires all_kept(s), all_kept(marker),
    ensures all_kept(mask_after(s, marker)),
    decreases s.len(),
{
    lemma_literals_kept();
    if marker.len() > 0 && contains(s, marker) {
        let i = choose|i: int| is_first_occurrence(s, marker, i);
        if 0 <= i && i + marker.len() <= s.len() {
            let after = s.skip(i + marker.len());
            let t = token_len(after);
            assert(all_kept(after));
            assert(all_kept(s.take(i)));
            if 0 < t <= after.len() {
                assert(all_kept(after.skip(t as int)));
                lemma_mask_after_kept(after.skip(t as int), marker);
                lemma_concat_kept(s.take(i), marker);
                lemma_concat_kept(s.take(i) + marker, masked());
                lemma_concat_kept(s.take(i) + marker + masked(), mask_after(after.skip(t as int), marker));
            } else {
                lemma_mask_after_kept(after, marker);
                lemma_concat_kept(s.take(i), marker);
                lemma_concat_kept(s.take(i) + marker, mask_after(after, marker));
            }
        }
    }
}

proof fn lemma_mask_with_first_kept(s: Seq<char>, k: int)
    requires all_kept(s), k <= 8,
    ensures all_kept(mask_with_first(s, k)),
    decreases k,
{
    lemma_literals_kept();
    if k > 0 {
        lemma_mask_with_first_kept(s, k - 1);
        lemma_mask_after_kept(mask_with_first(s, k - 1), sensitive_marker(k - 1));
    }
}

/// Sanitized text holds no control character but line feed, carriage return and tab:
/// filtering removes the others and masking inserts none.
pub proof fn law_sanitized_text_holds_no_stray_control(s: Seq<char>)
    ensures
        all_kept(sanitize_untrusted(s)),
        all_kept(sanitize_and_mask(s)),
{
    lemma_sanitize_untrusted_kept(s);
    lemma_mask_with_first_kept(sanitize_untrusted(s), 8);
}


// ---------------------------------------------------------------------------
// What follows a marker after masking
// ---------------------------------------------------------------------------

/// A line holding no control character but tab.
pub open spec fn clean_line(l: Seq<char>) -> bool {
    forall|i: int| 0 <= i < l.len() ==> !is_control(#[trigger] l[i]) || l[i] == '\t'
}

proof fn lemma_not_contains_by_char(s: Seq<char>, p: Seq<char>, k: int)
    requires 0 <= k < p.len(), forall|j: int| 0 <= j < s.len() ==> s[j] != p[k],
    ensures !contains(s, p),
{
    if contains(s, p) {
        let i = choose|i: int| #[trigger] occurs_at(s, p, i);
        assert(s[i + k] == s.subrange(i, i + p.len())[k]);
    }
}

/// The placeholder of a filtered line is clean and is not itself filtered.
proof fn lemma_filtered_line_settled()
    ensures
        clean_line(filtered_line()),
        filtered_line().len() > 0,
        !is_suspicious(filtered_line()),
{
    reveal_strlit("[filtered potentially unsafe content]");
    reveal_strlit("ignore previous instructions");
    reveal_strlit("system prompt");
    reveal_strlit("developer message");
    reveal_strlit("<tool_call");
    reveal_strlit("BEGIN PROMPT INJECTION");
    reveal_strlit("assistant must");
    let f = filtered_line();
    let lf = lower(f);
    assert forall|j: int| 0 <= j < lf.len() implies lf[j] != 'g' && lf[j] != 'm' && lf[j] != 'v' && lf[j] != '<' by {
        assert(lf[j] == crate::text::lower_char(f[j]));
    }
    assert(crate::text::lower_char('G') == 'g');
    assert(lower(suspicious_pattern(0))[1] == 'g');
    assert(lower(suspicious_pattern(1))[10] == 'm');
    assert(lower(suspicious_pattern(2))[2] == 'v');
    assert(lower(suspicious_pattern(3))[0] == '<');
    assert(lower(suspicious_pattern(4))[2] == 'g');
    assert(lower(suspicious_pattern(5))[10] == 'm');
    lemma_not_contains_by_char(lf, lower(suspicious_pattern(0)), 1);
    lemma_not_contains_by_char(lf, lower(suspicious_pattern(1)), 10);
    lemma_not_contains_by_char(lf, lower(suspicious_pattern(2)), 2);
    lemma_not_contains_by_char(lf, lower(suspicious_pattern(3)), 0);
    lemma_not_contains_by_char(lf, lower(suspicious_pattern(4)), 2);
    lemma_not_contains_by_char(lf, lower(suspicious_pattern(5)), 10);
}

/// Text with no control character but newline and tab, and no final newline.
pub open spec fn plain_text(s: Seq<char>) -> bool {
    &&& forall|i: int| 0 <= i < s.len() ==> !is_control(#[trigger] s[i]) || s[i] == '\n' || s[i] == '\t'
    &&& !(s.len() > 0 && s.last() == '\n')
}

proof fn lemma_split_pieces_clean(s: Seq<char>)
    requires forall|i: int| 0 <= i < s.len() ==> !is_control(#[trigger] s[i]) || s[i] == '\n' || s[i] == '\t',
    ensures
        forall|k: int| 0 <= k < split_char(s, '\n').len() ==> clean_line(#[trigger] split_char(s, '\n')[k]),
        s.len() > 0 && s.last() != '\n' ==> split_char(s, '\n').last().len() > 0,
    decreases s.len(),
{
    crate::text::lemma_split_char_nonempty(s, '\n');
    if s.len() > 0 {
        let d = s.drop_last();
        assert forall|i: int| 0 <= i < d.len() implies !is_control(#[trigger] d[i]) || d[i] == '\n' || d[i] == '\t' by {
            assert(d[i] == s[i]);
        }
        lemma_split_pieces_clean(d);
        crate::text::lemma_split_char_nonempty(d, '\n');
        let prev = split_char(d, '\n');
        let c = s.last();
        assert(!is_control(s[s.len() - 1]) || s[s.len() - 1] == '\n' || s[s.len() - 1] == '\t');
        if c != '\n' {
            let l = prev.last().push(c);
            assert(clean_line(prev[prev.len() - 1]));
            assert forall|i: int| 0 <= i < l.len() implies !is_control(#[trigger] l[i]) || l[i] == '\t' by {
                if i < l.len() - 1 {
                    assert(l[i] == prev.last()[i]);
                }
            }
            let r = split_char(s, '\n');
            assert forall|k: int| 0 <= k < r.len() implies clean_line(#[trigger] r[k]) by {
                if k < prev.len() - 1 {
                    assert(r[k] == prev[k]);
                }
            }
        }
    }
}

proof fn lemma_lines_of_plain(s: Seq<char>)
    requires plain_text(s),
    ensures
        forall|k: int| 0 <= k < lines(s).len() ==> clean_line(#[trigger] lines(s)[k]),
        lines(s).len() > 0 ==> lines(s).last().len() > 0,
{
    if s.len() > 0 {
        lemma_split_pieces_clean(s);
        crate::text::lemma_split_char_nonempty(s, '\n');
        let parts = split_char(s, '\n');
        let ls = lines(s);
        assert forall|k: int| 0 <= k < ls.len() implies clean_line(#[trigger] ls[k]) by {
            if k < parts.len() - 1 {
                let p = parts[k];
                assert(clean_line(p));
                if p.len() > 0 && p.last() == '\r' {
                    assert(!is_control(p[p.len() - 1]) || p[p.len() - 1] == '\t');
                }
                assert(ls[k] == crate::text::strip_cr(p));
            } else {
                assert(ls[k] == parts.last());
                assert(clean_line(parts[parts.len() - 1]));
            }
        }
    }
}

proof fn lemma_strip_controls_clean(l: Seq<char>)
    requires clean_line(l),
    ensures strip_controls(l) == l,
    decreases l.len(),
{
    if l.len() > 0 {
        let d = l.drop_last();
        assert forall|i: int| 0 <= i < d.len() implies !is_control(#[trigger] d[i]) || d[i] == '\t' by {
            assert(d[i] == l[i]);
        }
        lemma_strip_controls_clean(d);
        assert(!is_control(l[l.len() - 1]) || l[l.len() - 1] == '\t');
        assert(d.push(l.last()) =~= l);
    }
}

proof fn lemma_sanitize_line_settled(l: Seq<char>)
    requires clean_line(l),
    ensures
        clean_line(sanitize_line(l)),
        sanitize_line(sanitize_line(l)) == sanitize_line(l),
        l.len() > 0 ==> sanitize_line(l).len() > 0,
{
    lemma_filtered_line_settled();
    lemma_strip_controls_clean(filtered_line());
    lemma_strip_controls_clean(l);
}

/// The lines of lines joined with newlines, each without newline or final carriage return,
/// the last one not empty: those lines.
proof fn lemma_split_of_join(ls: Seq<Seq<char>>)
    requires
        ls.len() > 0,
        forall|k: int| 0 <= k < ls.len() ==> crate::text::free_of(#[trigger] ls[k], '\n'),
    ensures split_char(join(ls, "\n"@), '\n') == ls,
    decreases ls.len(),
{
    reveal_strlit("\n");
    if ls.len() == 1 {
        crate::text::lemma_split_char_single(ls[0], '\n');
        assert(ls =~= seq![ls[0]]);
    } else {
        let prev = ls.drop_last();
        assert forall|k: int| 0 <= k < prev.len() implies crate::text::free_of(#[trigger] prev[k], '\n') by {
            assert(prev[k] == ls[k]);
        }
        lemma_split_of_join(prev);
        let jp = join(prev, "\n"@);
        let u = jp + "\n"@;
        assert(u =~= jp.push('\n'));
        assert(u.drop_last() =~= jp);
        assert(free_of_nl(ls[ls.len() - 1]));
        crate::text::lemma_split_char_concat(u, ls.last(), '\n');
        crate::text::lemma_split_char_single(ls.last(), '\n');
        assert(split_char(u, '\n') == split_char(jp, '\n').push(Seq::<char>::empty()));
        assert(join(ls, "\n"@) == u + ls.last());
        assert(split_char(u, '\n').drop_last() + seq![ls.last()] =~= ls);
    }
}

spec fn free_of_nl(l: Seq<char>) -> bool {
    crate::text::free_of(l, '\n')
}

proof fn lemma_join_last(ls: Seq<Seq<char>>)
    requires ls.len() > 0, ls.last().len() > 0,
    ensures join(ls, "\n"@).len() > 0, join(ls, "\n"@).last() == ls.last().last(),
{
    if ls.len() > 1 {
        let j = join(ls.drop_last(), "\n"@) + "\n"@ + ls.last();
        assert(j[j.len() - 1] == ls.last()[ls.last().len() - 1]);
    }
}

proof fn lemma_lines_of_join(ls: Seq<Seq<char>>)
    requires
        forall|k: int| 0 <= k < ls.len() ==> clean_line(#[trigger] ls[k]),
        ls.len() > 0 ==> ls.last().len() > 0,
    ensures lines(join(ls, "\n"@)) == ls,
{
    if ls.len() == 0 {
        assert(join(ls, "\n"@) =~= Seq::<char>::empty());
        assert(lines(join(ls, "\n"@)) =~= ls);
    } else {
        assert forall|k: int| 0 <= k < ls.len() implies crate::text::free_of(#[trigger] ls[k], '\n') by {
            assert(clean_line(ls[k]));
            assert forall|i: int| 0 <= i < ls[k].len() implies ls[k][i] != '\n' by {
                assert(!is_control(ls[k][i]) || ls[k][i] == '\t');
            }
        }
        lemma_split_of_join(ls);
        lemma_join_last(ls);
        let j = join(ls, "\n"@);
        assert(clean_line(ls[ls.len() - 1]));
        assert(j.last() != '\n') by {
            let l = ls.last();
            assert(!is_control(l[l.len() - 1]) || l[l.len() - 1] == '\t');
        }
        assert forall|k: int| 0 <= k < ls.len() - 1 implies crate::text::strip_cr(#[trigger] ls[k]) == ls[k] by {
            assert(clean_line(ls[k]));
            if ls[k].len() > 0 {
                assert(!is_control(ls[k][ls[k].len() - 1]) || ls[k][ls[k].len() - 1] == '\t');
            }
        }
        assert(lines(j) =~= ls);
    }
}

/// Sanitizing settles plain text: a text with no control character but newline and tab,
/// and no final newline, sanitized again is as it was after the first sanitizing.
pub proof fn law_sanitize_idempotent(s: Seq<char>)
    requires plain_text(s),
    ensures sanitize_untrusted(sanitize_untrusted(s)) == sanitize_untrusted(s),
{
    lemma_lines_of_plain(s);
    let ls = lines(s);
    let sl = sanitize_lines(ls);
    assert forall|k: int| 0 <= k < sl.len() implies clean_line(#[trigger] sl[k]) && sanitize_line(sl[k]) == sl[k] by {
        assert(clean_line(ls[k]));
        lemma_sanitize_line_settled(ls[k]);
    }
    if ls.len() > 0 {
        assert(clean_line(ls[ls.len() - 1]));
        lemma_sanitize_line_settled(ls[ls.len() - 1]);
        assert(sl.last() == sanitize_line(ls.last()));
    }
    lemma_lines_of_join(sl);
    assert(sanitize_lines(sl) =~= sl);
}

/// A marker of the kind `mask_sensitive_text` uses: not empty, ending with `=` or a space
/// that occurs nowhere else in it, without square brackets, and not starting with a
/// character that ends a credential.
pub open spec fn plain_marker(m: Seq<char>) -> bool {
    &&& m.len() > 0
    &&& (m.last() == '=' || m.last() == ' ')
    &&& forall|j: int| 0 <= j < m.len() - 1 ==> m[j] != '=' && m[j] != ' '
    &&& forall|j: int| 0 <= j < m.len() ==> m[j] != '[' && m[j] != ']'
    &&& !is_token_end(m[0])
}

/// Position `q` of `r` is the end, a character that ends a credential, or the end of a
/// credential.
pub open spec fn token_stop(r: Seq<char>, q: int) -> bool {
    q == r.len() || (0 <= q < r.len() && is_token_end(r[q]))
}

/// Position `q` of `r` is the end, a character that ends a credential, or the placeholder
/// followed by the end or by a character that ends a credential.
pub open spec fn guarded_at(r: Seq<char>, q: int) -> bool {
    token_stop(r, q) || (occurs_at(r, masked(), q) && token_stop(r, q + masked().len()))
}

/// Every occurrence of the marker in `r` is followed by the end of the text, a character
/// that ends a credential, or the placeholder: no credential is left after it.
pub open spec fn masked_after(r: Seq<char>, m: Seq<char>) -> bool {
    forall|p: int| #[trigger] occurs_at(r, m, p) ==> guarded_at(r, p + m.len())
}

proof fn lemma_placeholder_chars()
    ensures
        masked().len() == 8,
        masked()[0] == '[',
        masked()[7] == ']',
        forall|j: int| 0 <= j < 8 ==> masked()[j] != '=' && masked()[j] != ' ',
{
    reveal_strlit("[masked]");
}

/// An occurrence of a plain marker and one of the placeholder never overlap.
proof fn lemma_marker_placeholder_disjoint(x: Seq<char>, m: Seq<char>, i: int, q: int)
    requires plain_marker(m), occurs_at(x, m, i), occurs_at(x, masked(), q),
    ensures i + m.len() <= q || q + 8 <= i,
{
    lemma_placeholder_chars();
    if !(i + m.len() <= q || q + 8 <= i) {
        let e = i + m.len() - 1;
        if q <= e && e < q + 8 {
            // The marker's last character would be a character of the placeholder.
            assert(x[e] == m[m.len() - 1]);
            assert(x[e] == masked()[e - q]);
        } else if e >= q + 8 {
            // The marker would hold the placeholder's closing bracket.
            assert(x[q + 7] == masked()[7]);
            assert(x[q + 7] == m[q + 7 - i]);
        } else {
            // e < q: then i + m.len() <= q.
        }
    }
}

proof fn lemma_occurs_in_suffix(y: Seq<char>, z: Seq<char>, m: Seq<char>, p: int)
    requires occurs_at(y + z, m, p), p >= y.len(),
    ensures occurs_at(z, m, p - y.len()),
{
    assert((y + z).subrange(p, p + m.len()) =~= z.subrange(p - y.len(), p - y.len() + m.len()));
}

proof fn lemma_occurs_in_prefix(y: Seq<char>, z: Seq<char>, m: Seq<char>, p: int)
    requires occurs_at(y + z, m, p), p + m.len() <= y.len(),
    ensures occurs_at(y, m, p),
{
    assert((y + z).subrange(p, p + m.len()) =~= y.subrange(p, p + m.len()));
}

proof fn lemma_guard_shift(y: Seq<char>, z: Seq<char>, q: int)
    requires guarded_at(z, q), 0 <= q,
    ensures guarded_at(y + z, q + y.len()),
{
    lemma_placeholder_chars();
    if occurs_at(z, masked(), q) {
        assert((y + z).subrange(q + y.len(), q + y.len() + 8) =~= z.subrange(q, q + 8));
        if q + 8 < z.len() {
            assert((y + z)[q + y.len() + 8] == z[q + 8]);
        }
    }
    if q < z.len() {
        assert((y + z)[q + y.len()] == z[q]);
    }
}

/// A guard that lies wholly in a prefix stays a guard whatever follows the prefix.
proof fn lemma_guard_in_prefix(y: Seq<char>, z: Seq<char>, q: int)
    requires
        0 <= q < y.len(),
        (is_token_end(y[q]) || (occurs_at(y, masked(), q) && q + masked().len() < y.len()
            && is_token_end(y[q + masked().len()]))),
    ensures guarded_at(y + z, q),
{
    lemma_placeholder_chars();
    if occurs_at(y, masked(), q) && q + 8 < y.len() && is_token_end(y[q + 8]) {
        assert((y + z).subrange(q, q + 8) =~= y.subrange(q, q + 8));
        assert((y + z)[q + 8] == y[q + 8]);
    }
    assert((y + z)[q] == y[q]);
}

proof fn lemma_masked_after_suffix(x: Seq<char>, m: Seq<char>, k: int)
    requires masked_after(x, m), 0 <= k <= x.len(),
    ensures masked_after(x.skip(k), m),
{
    lemma_placeholder_chars();
    let y = x.skip(k);
    assert forall|p: int| #[trigger] occurs_at(y, m, p) implies guarded_at(y, p + m.len()) by {
        assert(x.subrange(p + k, p + k + m.len()) =~= y.subrange(p, p + m.len()));
        assert(occurs_at(x, m, p + k));
        let q = p + k + m.len();
        if occurs_at(x, masked(), q) {
            assert(x.subrange(q, q + 8) =~= y.subrange(p + m.len(), p + m.len() + 8));
            if q + 8 < x.len() {
                assert(x[q + 8] == y[p + m.len() + 8]);
            }
        }
        if q < x.len() {
            assert(x[q] == y[p + m.len()]);
        }
    }
}

proof fn lemma_first_of(s: Seq<char>, m: Seq<char>) -> (i: int)
    requires contains(s, m),
    ensures is_first_occurrence(s, m, i), i == choose|k: int| is_first_occurrence(s, m, k),
{
    let w = choose|w: int| occurs_at(s, m, w);
    lemma_first_occurrence_exists(s, m, w);
    choose|k: int| is_first_occurrence(s, m, k)
}

/// Masking keeps the first character of a text that does not start with the marker.
proof fn lemma_mask_after_head(x: Seq<char>, m: Seq<char>)
    requires m.len() > 0, x.len() > 0, !occurs_at(x, m, 0),
    ensures mask_after(x, m).len() > 0, mask_after(x, m)[0] == x[0],
{
    if contains(x, m) {
        let i = lemma_first_of(x, m);
        assert(i > 0);
    }
}

proof fn lemma_mask_after_empty(m: Seq<char>)
    requires m.len() > 0,
    ensures mask_after(Seq::<char>::empty(), m) == Seq::<char>::empty(),
{
    assert(!contains(Seq::<char>::empty(), m));
}

/// Masking what follows a credential keeps its first character, or leaves nothing.
proof fn lemma_placeholder_stop(after: Seq<char>, m: Seq<char>)
    requires plain_marker(m), token_len(after) > 0,
    ensures token_stop(mask_after(after.skip(token_len(after) as int), m), 0),
{
    lemma_token_len_stop(after);
    let t = token_len(after);
    let y = after.skip(t as int);
    if y.len() == 0 {
        lemma_mask_after_empty(m);
        assert(y =~= Seq::<char>::empty());
    } else {
        assert(y[0] == after[t as int]);
        assert(!occurs_at(y, m, 0)) by {
            if occurs_at(y, m, 0) {
                assert(y[0] == y.subrange(0, m.len() as int)[0]);
            }
        }
        lemma_mask_after_head(y, m);
    }
}

/// After masking with a plain marker, no credential follows any occurrence of it.
#[verifier::rlimit(50)]
proof fn lemma_mask_after_guarded(s: Seq<char>, m: Seq<char>)
    requires plain_marker(m),
    ensures masked_after(mask_after(s, m), m),
    decreases s.len(),
{
    lemma_placeholder_chars();
    let r = mask_after(s, m);
    if !contains(s, m) {
        assert forall|p: int| #[trigger] occurs_at(r, m, p) implies guarded_at(r, p + m.len()) by {
            assert(contains(s, m));
        }
    } else {
        let i = lemma_first_of(s, m);
        let after = s.skip(i + m.len());
        let t = token_len(after);
        lemma_token_len_bound(after);
        let a = s.take(i) + m;
        assert(a =~= s.take(i + m.len())) by {
            assert(s.subrange(i, i + m.len()) == m);
        }
        let x: Seq<char> = if 0 < t { masked() } else { Seq::empty() };
        let y = if 0 < t { after.skip(t as int) } else { after };
        let rest = mask_after(y, m);
        lemma_mask_after_guarded(y, m);
        assert(r =~= a + x + rest);
        assert forall|p: int| #[trigger] occurs_at(r, m, p) implies guarded_at(r, p + m.len()) by {
            if p < i {
                assert(r =~= a + (x + rest));
                lemma_occurs_in_prefix(a, x + rest, m, p);
                assert(s.subrange(p, p + m.len()) =~= a.subrange(p, p + m.len()));
                assert(occurs_at(s, m, p));
            } else if p < i + m.len() && p > i {
                let e = i + m.len() - 1;
                assert(r[e] == m[m.len() - 1]);
                assert(r[e] == m[e - p]);
            } else if p == i {
                if 0 < t {
                    assert(r.subrange(i + m.len(), i + m.len() + 8) =~= masked());
                    lemma_placeholder_stop(after, m);
                    let ax = a + x;
                    assert(r =~= ax + rest);
                    if rest.len() > 0 {
                        assert(r[ax.len() as int] == rest[0]);
                    }
                } else if after.len() == 0 {
                    lemma_mask_after_empty(m);
                } else {
                    assert(is_token_end(after[0]));
                    assert(!occurs_at(after, m, 0)) by {
                        if occurs_at(after, m, 0) {
                            assert(after[0] == m[0]);
                        }
                    }
                    lemma_mask_after_head(after, m);
                    assert(r[i + m.len()] == rest[0]);
                }
            } else if 0 < t && p < i + m.len() + 8 {
                assert(occurs_at(r, masked(), i + m.len())) by {
                    assert(r.subrange(i + m.len(), i + m.len() + 8) =~= masked());
                }
                lemma_marker_placeholder_disjoint(r, m, p, i + m.len());
            } else {
                let ax = a + x;
                assert(r =~= ax + rest);
                lemma_occurs_in_suffix(ax, rest, m, p);
                assert(guarded_at(rest, p - ax.len() + m.len()));
                lemma_guard_shift(ax, rest, p - ax.len() + m.len());
            }
        }
    }
}

/// Masking with another plain marker keeps every occurrence of a plain marker guarded.
#[verifier::spinoff_prover]
#[verifier::rlimit(60)]
proof fn lemma_mask_after_keeps_guard(s: Seq<char>, m1: Seq<char>, m2: Seq<char>)
    requires plain_marker(m1), plain_marker(m2), masked_after(s, m1),
    ensures masked_after(mask_after(s, m2), m1),
    decreases s.len(),
{
    lemma_placeholder_chars();
    let r = mask_after(s, m2);
    if contains(s, m2) {
        let i = lemma_first_of(s, m2);
        let after = s.skip(i + m2.len());
        let t = token_len(after);
        lemma_token_len_bound(after);
        let a = s.take(i) + m2;
        assert(a =~= s.take(i + m2.len())) by {
            assert(s.subrange(i, i + m2.len()) == m2);
        }
        let x: Seq<char> = if 0 < t { masked() } else { Seq::empty() };
        let y = if 0 < t { after.skip(t as int) } else { after };
        assert(y =~= s.skip(i + m2.len() + if 0 < t { t as int } else { 0 }));
        lemma_masked_after_suffix(s, m1, i + m2.len() + if 0 < t { t as int } else { 0 });
        let rest = mask_after(y, m2);
        lemma_mask_after_keeps_guard(y, m1, m2);
        assert(r =~= a + x + rest);
        assert forall|p: int| #[trigger] occurs_at(r, m1, p) implies guarded_at(r, p + m1.len()) by {
            let end = i + m2.len();
            if p + m1.len() <= end {
                assert(r =~= a + (x + rest));
                lemma_occurs_in_prefix(a, x + rest, m1, p);
                assert(s.subrange(p, p + m1.len()) =~= a.subrange(p, p + m1.len()));
                assert(occurs_at(s, m1, p));
                let q = p + m1.len();
                assert(guarded_at(s, q));
                if q < end {
                    if occurs_at(s, masked(), q) && !token_stop(s, q) {
                        assert(occurs_at(s, m2, i));
                        lemma_marker_placeholder_disjoint(s, m2, i, q);
                        assert(a.subrange(q, q + 8) =~= s.subrange(q, q + 8));
                        assert(s[i] == s.subrange(i, i + m2.len())[0]);
                        assert(s[i] == m2[0]);
                        assert(q + 8 < i);
                        assert(a[q + 8] == s[q + 8]);
                    }
                    assert(a[q] == s[q]);
                    lemma_guard_in_prefix(a, x + rest, q);
                } else {
                    // The occurrence ends where the other marker does.
                    if 0 < t {
                        assert(r.subrange(end, end + 8) =~= masked());
                        lemma_placeholder_stop(after, m2);
                        let ax = a + x;
                        assert(r =~= ax + rest);
                        if rest.len() > 0 {
                            assert(r[ax.len() as int] == rest[0]);
                        }
                    } else if after.len() == 0 {
                        lemma_mask_after_empty(m2);
                    } else {
                        assert(!occurs_at(after, m2, 0)) by {
                            if occurs_at(after, m2, 0) {
                                assert(after[0] == m2[0]);
                            }
                        }
                        lemma_mask_after_head(after, m2);
                        assert(r[end] == rest[0]);
                        assert(s[end] == after[0]);
                        if occurs_at(s, masked(), end) {
                            assert(s[end] == masked()[0]);
                            assert(is_token_end(after[0]));
                        }
                    }
                }
            } else if p < end {
                // The occurrence would hold the other marker's last character before its own end.
                let e = end - 1;
                assert(r[e] == m2[m2.len() - 1]);
                assert(r[e] == m1[e - p]);
            } else if 0 < t && p < end + 8 {
                assert(occurs_at(r, masked(), end)) by {
                    assert(r.subrange(end, end + 8) =~= masked());
                }
                lemma_marker_placeholder_disjoint(r, m1, p, end);
            } else {
                let ax = a + x;
                assert(r =~= ax + rest);
                lemma_occurs_in_suffix(ax, rest, m1, p);
                assert(guarded_at(rest, p - ax.len() + m1.len()));
                lemma_guard_shift(ax, rest, p - ax.len() + m1.len());
            }
        }
    }
}

proof fn lemma_markers_plain(k: int)
    requires 0 <= k < 8,
    ensures plain_marker(sensitive_marker(k)),
{
    reveal_strlit("Bearer ");
    reveal_strlit("accessToken=");
    reveal_strlit("password=");
    reveal_strlit("passwd=");
    reveal_strlit("token=");
    reveal_strlit("secret=");
    reveal_strlit("apiKey=");
    reveal_strlit("api_key=");
}

proof fn lemma_mask_with_first_guarded(s: Seq<char>, k: int, j: int)
    requires 0 <= j < k <= 8,
    ensures masked_after(mask_with_first(s, k), sensitive_marker(j)),
    decreases k,
{
    lemma_markers_plain(j);
    lemma_markers_plain(k - 1);
    if j == k - 1 {
        lemma_mask_after_guarded(mask_with_first(s, k - 1), sensitive_marker(j));
    } else {
        lemma_mask_with_first_guarded(s, k - 1, j);
        lemma_mask_after_keeps_guard(mask_with_first(s, k - 1), sensitive_marker(j), sensitive_marker(k - 1));
    }
}

/// A credential of `k` characters, then a stop.
proof fn lemma_token_len_exact(s: Seq<char>, k: nat)
    requires
        k <= s.len(),
        forall|j: int| 0 <= j < k ==> !is_token_end(#[trigger] s[j]),
        token_stop(s, k as int),
    ensures token_len(s) == k,
    decreases k,
{
    if k > 0 {
        let d = s.drop_first();
        assert forall|j: int| 0 <= j < k - 1 implies !is_token_end(#[trigger] d[j]) by {
            assert(d[j] == s[j + 1]);
        }
        if k < s.len() {
            assert(d[k - 1] == s[k as int]);
        }
        lemma_token_len_exact(d, (k - 1) as nat);
    }
}

/// The placeholder holds no character that ends a credential.
proof fn lemma_placeholder_is_token()
    ensures forall|j: int| 0 <= j < masked().len() ==> !is_token_end(#[trigger] masked()[j]),
{
    reveal_strlit("[masked]");
    assert forall|j: int| 0 <= j < masked().len() implies !is_token_end(#[trigger] masked()[j]) by {
        let c = masked()[j];
        assert(c == '[' || c == 'm' || c == 'a' || c == 's' || c == 'k' || c == 'e' || c == 'd' || c == ']');
    }
}

/// Masking changes nothing in a text where no credential follows any occurrence of the
/// marker.
proof fn lemma_mask_after_fixed(s: Seq<char>, m: Seq<char>)
    requires plain_marker(m), masked_after(s, m),
    ensures mask_after(s, m) == s,
    decreases s.len(),
{
    lemma_placeholder_chars();
    if contains(s, m) {
        let i = lemma_first_of(s, m);
        let q = i + m.len();
        let after = s.skip(q);
        lemma_token_len_bound(after);
        assert(guarded_at(s, q));
        assert(s.take(i) + m =~= s.take(q)) by {
            assert(s.subrange(i, q) == m);
        }
        if token_stop(s, q) {
            if after.len() > 0 {
                assert(after[0] == s[q]);
            }
            lemma_token_len_exact(after, 0);
            lemma_masked_after_suffix(s, m, q);
            lemma_mask_after_fixed(after, m);
            assert(s.take(q) + after =~= s);
        } else {
            lemma_placeholder_is_token();
            assert forall|j: int| 0 <= j < 8 implies !is_token_end(#[trigger] after[j]) by {
                assert(after[j] == s.subrange(q, q + 8)[j]);
                assert(masked()[j] == s.subrange(q, q + 8)[j]);
            }
            if q + 8 < s.len() {
                assert(after[8] == s[q + 8]);
            }
            lemma_token_len_exact(after, 8);
            lemma_masked_after_suffix(s, m, q + 8);
            assert(after.skip(8) =~= s.skip(q + 8));
            lemma_mask_after_fixed(s.skip(q + 8), m);
            assert(s.take(q) + masked() + s.skip(q + 8) =~= s) by {
                assert(s.subrange(q, q + 8) == masked());
            }
        }
    }
}

proof fn lemma_mask_with_first_fixed(r: Seq<char>, k: int)
    requires
        0 <= k <= 8,
        forall|j: int| 0 <= j < 8 ==> masked_after(r, #[trigger] sensitive_marker(j)),
    ensures mask_with_first(r, k) == r,
    decreases k,
{
    if k > 0 {
        lemma_mask_with_first_fixed(r, k - 1);
        lemma_markers_plain(k - 1);
        assert(masked_after(r, sensitive_marker(k - 1)));
        lemma_mask_after_fixed(r, sensitive_marker(k - 1));
    }
}

/// Masking is idempotent: masking masked text again changes nothing.
pub proof fn law_mask_sensitive_idempotent(s: Seq<char>)
    ensures mask_sensitive(mask_sensitive(s)) == mask_sensitive(s),
{
    let r = mask_sensitive(s);
    assert forall|j: int| 0 <= j < 8 implies masked_after(r, #[trigger] sensitive_marker(j)) by {
        lemma_mask_with_first_guarded(s, 8, j);
    }
    lemma_mask_with_first_fixed(r, 8);
}

/// Masking leaves no credential after any marker: in the masked text, every occurrence of
/// `Bearer `, `accessToken=`, `password=`, `passwd=`, `token=`, `secret=`, `apiKey=` or
/// `api_key=` is followed by a character that ends a credential, by the end of the text,
/// or by `[masked]` and then one of those two.
pub proof fn law_no_credential_after_marker(s: Seq<char>, k: int)
    requires 0 <= k < 8,
    ensures
        masked_after(mask_sensitive(s), sensitive_marker(k)),
        masked_after(sanitize_and_mask(s), sensitive_marker(k)),
{
    lemma_mask_with_first_guarded(s, 8, k);
    lemma_mask_with_first_guarded(sanitize_untrusted(s), 8, k);
}

} // verus!
