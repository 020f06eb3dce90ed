//! Comparing one Nacos configuration between two environments: the configuration
//! text is read as JSON or as `key=value` lines, flattened to dotted paths, and the
//! two flattened maps are compared key by key.
use vstd::prelude::*;

use crate::json::{model_members, model_items, parse_json, spec_parse_json, JsonModel, JsonValue};
use crate::text::{
    chars_eq, chars_of, copy_chars, decimal, lines, lines_str, push_chars, push_decimal, push_str,
    split_once, split_once_exec, string_of, text_less, text_less_exec, trim, trim_exec, views,
    lemma_text_less_irreflexive,
};

verus! {

// ---------------------------------------------------------------------------
// Reading a configuration text
// ---------------------------------------------------------------------------

/// A line of a properties text: `key=value`, else `key:value`, both sides trimmed;
/// blank lines and `#` comments hold nothing.
pub open spec fn property_line(line: Seq<char>) -> Option<(Seq<char>, Seq<char>)> {
    let t = trim(line);
    if t.len() == 0 || t[0] == '#' {
        None
    } else {
        match split_once(t, '=') {
            Some((k, v)) => Some((trim(k), trim(v))),
            None => match split_once(t, ':') {
                Some((k, v)) => Some((trim(k), trim(v))),
                None => None,
            },
        }
    }
}

/// The string members that the property lines define, in line order.
pub open spec fn property_members(ls: Seq<Seq<char>>) -> Seq<(Seq<char>, JsonModel)>
    decreases ls.len(),
{
    if ls.len() == 0 {
        Seq::empty()
    } else {
        let prev = property_members(ls.drop_last());
        match property_line(ls.last()) {
            Some((k, v)) => prev.push((k, JsonModel::Str(v))),
            None => prev,
        }
    }
}

/// A configuration text as a document: the JSON it holds, or else an object of its
/// property lines. A key defined twice keeps both members; the later one takes
/// precedence once the document is flattened.
pub open spec fn config_model(text: Seq<char>) -> JsonModel {
    match spec_parse_json(text) {
        Some(m) => m,
        None => JsonModel::Object(property_members(lines(text))),
    }
}

fn property_line_exec(line: &[char]) -> (r: Option<(Vec<char>, Vec<char>)>)
    ensures
        match r {
            Some((k, v)) => property_line(line@) == Some((k@, v@)),
            None => property_line(line@) is None,
        },
{
    let t = trim_exec(line);
    if t.len() == 0 || t[0] == '#' {
        return None;
    }
    match split_once_exec(&t, '=') {
        Some((k, v)) => Some((trim_exec(&k), trim_exec(&v))),
        None => match split_once_exec(&t, ':') {
            Some((k, v)) => Some((trim_exec(&k), trim_exec(&v))),
            None => None,
        },
    }
}

/// `parse_config_value`: the JSON document a text holds, or its property lines.
pub fn parse_config_value(text: &str) -> (r: JsonValue)
    ensures r@ == config_model(text@),
{
    match parse_json(text) {
        Some(v) => v,
        None => {
            let ls = lines_str(text);
            let ghost lv = views(ls@);
            let mut members: Vec<(String, JsonValue)> = Vec::new();
            let mut i: usize = 0;
            while i < ls.len()
                invariant
                    0 <= i <= ls@.len(),
                    lv == views(ls@),
                    lv == lines(text@),
                    model_members(members@) == property_members(lv.take(i as int)),
                decreases ls@.len() - i,
            {
                let ghost prev = members@;
                assert(lv.take(i + 1).drop_last() =~= lv.take(i as int));
                assert(lv[i as int] == ls@[i as int]@);
                match property_line_exec(&ls[i]) {
                    Some((k, v)) => {
                        members.push((string_of(&k), JsonValue::Str(string_of(&v))));
                        assert(model_members(members@) =~= model_members(prev).push((k@, JsonModel::Str(v@))));
                    },
                    None => {},
                }
                i += 1;
            }
            assert(lv.take(ls@.len() as int) =~= lv);
            JsonValue::Object(members)
        },
    }
}

// ---------------------------------------------------------------------------
// Flattening a document to dotted paths
// ---------------------------------------------------------------------------

/// The path of an object member: `key` at the top, `prefix.key` below it.
pub open spec fn member_path(prefix: Seq<char>, key: Seq<char>) -> Seq<char> {
    if prefix.len() == 0 {
        key
    } else {
        prefix + "."@ + key
    }
}

/// The path of an array item: `prefix[i]`.
pub open spec fn item_path(prefix: Seq<char>, i: nat) -> Seq<char> {
    prefix + "["@ + decimal(i) + "]"@
}

/// The leaves of a document with their paths, in the order a depth-first walk meets
/// them: `null`, `true`/`false`, a number as printed, a string as it is.
pub open spec fn flatten(prefix: Seq<char>, m: JsonModel) -> Seq<(Seq<char>, Seq<char>)>
    decreases m,
{
    match m {
        JsonModel::Object(members) => flatten_members(prefix, members),
        JsonModel::Array(items) => flatten_items(prefix, items),
        JsonModel::Null => seq![(prefix, "null"@)],
        JsonModel::Bool(b) => seq![(prefix, if b { "true"@ } else { "false"@ })],
        JsonModel::Number(text, _) => seq![(prefix, text)],
        JsonModel::Str(s) => seq![(prefix, s)],
    }
}

pub open spec fn flatten_members(prefix: Seq<char>, members: Seq<(Seq<char>, JsonModel)>) -> Seq<(Seq<char>, Seq<char>)>
    decreases members,
{
    if members.len() == 0 {
        Seq::empty()
    } else {
        flatten_members(prefix, members.drop_last())
            + flatten(member_path(prefix, members.last().0), members.last().1)
    }
}

pub open spec fn flatten_items(prefix: Seq<char>, items: Seq<JsonModel>) -> Seq<(Seq<char>, Seq<char>)>
    decreases items,
{
    if items.len() == 0 {
        Seq::empty()
    } else {
        flatten_items(prefix, items.drop_last())
            + flatten(item_path(prefix, (items.len() - 1) as nat), items.last())
    }
}

/// The views of a sequence of (path, value) pairs.
pub open spec fn pair_views(s: Seq<(Vec<char>, Vec<char>)>) -> Seq<(Seq<char>, Seq<char>)> {
    Seq::new(s.len(), |i: int| (s[i].0@, s[i].1@))
}

fn push_leaf(out: &mut Vec<(Vec<char>, Vec<char>)>, path: &[char], value: Vec<char>)
    ensures pair_views(final(out)@) == pair_views(old(out)@).push((path@, value@)),
{
    let ghost before = out@;
    out.push((copy_chars(path), value));
    assert(pair_views(out@) =~= pair_views(before).push((path@, value@)));
}

fn flatten_into(prefix: &[char], v: &JsonValue, out: &mut Vec<(Vec<char>, Vec<char>)>)
    ensures pair_views(final(out)@) == pair_views(old(out)@) + flatten(prefix@, v@),
    decreases v,
{
    let ghost start = pair_views(out@);
    match v {
        JsonValue::Object(members) => {
            let ghost ms = model_members(members@);
            let mut i: usize = 0;
            assert(ms.take(0) =~= Seq::<(Seq<char>, JsonModel)>::empty());
            assert(pair_views(out@) =~= start + flatten_members(prefix@, ms.take(0)));
            while i < members.len()
                invariant
                    *v == JsonValue::Object(*members),
                    0 <= i <= members@.len(),
                    ms == model_members(members@),
                    pair_views(out@) == start + flatten_members(prefix@, ms.take(i as int)),
                decreases members@.len() - i,
            {
                let key = members[i].0.as_str();
                let path = if prefix.len() == 0 {
                    chars_of(key)
                } else {
                    let mut p = copy_chars(prefix);
                    push_str(&mut p, ".");
                    push_str(&mut p, key);
                    p
                };
                assert(path@ == member_path(prefix@, ms[i as int].0));
                proof {
                    assert(decreases_to!(*v => (*v)->Object_0));
                    assert(decreases_to!(*members => members@));
                    assert(decreases_to!(members@ => members@[i as int]));
                    assert(decreases_to!(members@[i as int] => members@[i as int].1));
                }
                let ghost mid = pair_views(out@);
                flatten_into(&path, &members[i].1, out);
                proof {
                    let t = ms.take(i + 1);
                    assert(t.drop_last() =~= ms.take(i as int));
                    assert(t.last() == (members@[i as int].0@, members@[i as int].1@));
                    assert(pair_views(out@) =~= start + flatten_members(prefix@, t));
                }
                i += 1;
            }
            assert(ms.take(members@.len() as int) =~= ms);
        },
        JsonValue::Array(items) => {
            let ghost its = model_items(items@);
            let mut i: usize = 0;
            assert(its.take(0) =~= Seq::<JsonModel>::empty());
            assert(pair_views(out@) =~= start + flatten_items(prefix@, its.take(0)));
            while i < items.len()
                invariant
                    *v == JsonValue::Array(*items),
                    0 <= i <= items@.len(),
                    its == model_items(items@),
                    pair_views(out@) == start + flatten_items(prefix@, its.take(i as int)),
                decreases items@.len() - i,
            {
                let mut path = copy_chars(prefix);
                push_str(&mut path, "[");
                push_decimal(&mut path, i as u64);
                push_str(&mut path, "]");
                assert(path@ == item_path(prefix@, i as nat));
                proof {
                    assert(decreases_to!(*v => (*v)->Array_0));
                    assert(decreases_to!(*items => items@));
                    assert(decreases_to!(items@ => items@[i as int]));
                }
                flatten_into(&path, &items[i], out);
                proof {
                    let t = its.take(i + 1);
                    assert(t.drop_last() =~= its.take(i as int));
                    assert(t.last() == items@[i as int]@);
                    assert(pair_views(out@) =~= start + flatten_items(prefix@, t));
                }
                i += 1;
            }
            assert(its.take(items@.len() as int) =~= its);
        },
        JsonValue::Null => {
            push_leaf(out, prefix, chars_of("null"));
            assert(pair_views(out@) =~= start + flatten(prefix@, v@));
        },
        JsonValue::Bool(b) => {
            push_leaf(out, prefix, chars_of(if *b { "true" } else { "false" }));
            assert(pair_views(out@) =~= start + flatten(prefix@, v@));
        },
        JsonValue::Number(n) => {
            push_leaf(out, prefix, chars_of(n.text.as_str()));
            assert(pair_views(out@) =~= start + flatten(prefix@, v@));
        },
        JsonValue::Str(s) => {
            push_leaf(out, prefix, chars_of(s.as_str()));
            assert(pair_views(out@) =~= start + flatten(prefix@, v@));
        },
    }
}

/// `flatten_value`: the leaves of a document with their dotted paths.
pub fn flatten_value(v: &JsonValue) -> (r: Vec<(Vec<char>, Vec<char>)>)
    ensures pair_views(r@) == flatten(Seq::empty(), v@),
{
    let mut out: Vec<(Vec<char>, Vec<char>)> = Vec::new();
    let empty: Vec<char> = Vec::new();
    flatten_into(&empty, v, &mut out);
    assert(pair_views(out@) =~= flatten(Seq::empty(), v@));
    out
}

// ---------------------------------------------------------------------------
// Comparing two flattened configurations
// ---------------------------------------------------------------------------

/// The value a flattened configuration holds at `path`: the last leaf with that path.
pub open spec fn lookup(pairs: Seq<(Seq<char>, Seq<char>)>, path: Seq<char>) -> Option<Seq<char>>
    decreases pairs.len(),
{
    if pairs.len() == 0 {
        None
    } else if pairs.last().0 == path {
        Some(pairs.last().1)
    } else {
        lookup(pairs.drop_last(), path)
    }
}

/// Whether a leaf of the flattened configuration has the path.
pub open spec fn has_path(pairs: Seq<(Seq<char>, Seq<char>)>, path: Seq<char>) -> bool {
    exists|j: int| 0 <= j < pairs.len() && (#[trigger] pairs[j]).0 == path
}

pub proof fn lemma_lookup_has_path(pairs: Seq<(Seq<char>, Seq<char>)>, path: Seq<char>)
    ensures (lookup(pairs, path) is Some) == has_path(pairs, path),
    decreases pairs.len(),
{
    if pairs.len() > 0 {
        let prev = pairs.drop_last();
        lemma_lookup_has_path(prev, path);
        if has_path(prev, path) {
            let j = choose|j: int| 0 <= j < prev.len() && (#[trigger] prev[j]).0 == path;
            assert(pairs[j] == prev[j]);
        }
        if has_path(pairs, path) && pairs.last().0 != path {
            let j = choose|j: int| 0 <= j < pairs.len() && (#[trigger] pairs[j]).0 == path;
            assert(prev[j] == pairs[j]);
        }
        if pairs.last().0 == path {
            assert(pairs[pairs.len() - 1].0 == path);
        }
    }
}

/// The status of a key: `unchanged`, `changed`, `removed` (only in the source) or `added`.
pub open spec fn diff_status(source: Option<Seq<char>>, target: Option<Seq<char>>) -> Seq<char> {
    match (source, target) {
        (Some(a), Some(b)) => if a == b { "unchanged"@ } else { "changed"@ },
        (Some(_), None) => "removed"@,
        _ => "added"@,
    }
}

/// `status_rank`: changed first, then removed, added, and the rest.
pub open spec fn status_rank_spec(status: Seq<char>) -> int {
    if status == "changed"@ {
        0
    } else if status == "removed"@ {
        1
    } else if status == "added"@ {
        2
    } else {
        3
    }
}

pub fn status_rank(status: &str) -> (r: u8)
    ensures r == status_rank_spec(status@),
{
    if crate::text::str_eq(status, "changed") {
        0
    } else if crate::text::str_eq(status, "removed") {
        1
    } else if crate::text::str_eq(status, "added") {
        2
    } else {
        3
    }
}

/// A diff entry as (key, status, source value, target value).
pub open spec fn entry_view(e: crate::models::NacosDiffEntry) -> (Seq<char>, Seq<char>, Option<Seq<char>>, Option<Seq<char>>) {
    (e.key@, e.status@, crate::text::opt_view(e.source_value), crate::text::opt_view(e.target_value))
}

pub open spec fn entry_views(s: Seq<crate::models::NacosDiffEntry>) -> Seq<(Seq<char>, Seq<char>, Option<Seq<char>>, Option<Seq<char>>)> {
    Seq::new(s.len(), |i: int| entry_view(s[i]))
}

/// The entry of one key of the two flattened configurations.
pub open spec fn entry_of(source: Seq<(Seq<char>, Seq<char>)>, target: Seq<(Seq<char>, Seq<char>)>, key: Seq<char>)
    -> (Seq<char>, Seq<char>, Option<Seq<char>>, Option<Seq<char>>)
{
    (key, diff_status(lookup(source, key), lookup(target, key)), lookup(source, key), lookup(target, key))
}

/// Whether entry `a` comes before entry `b`: by status rank, then by key.
pub open spec fn entry_before(
    a: (Seq<char>, Seq<char>, Option<Seq<char>>, Option<Seq<char>>),
    b: (Seq<char>, Seq<char>, Option<Seq<char>>, Option<Seq<char>>),
) -> bool {
    status_rank_spec(a.1) < status_rank_spec(b.1)
        || (status_rank_spec(a.1) == status_rank_spec(b.1) && text_less(a.0, b.0))
}

/// The diff of two flattened configurations: one entry for each key that either holds,
/// with that key's values and status, ordered by status rank and then by key.
pub open spec fn is_diff_of(
    source: Seq<(Seq<char>, Seq<char>)>,
    target: Seq<(Seq<char>, Seq<char>)>,
    entries: Seq<(Seq<char>, Seq<char>, Option<Seq<char>>, Option<Seq<char>>)>,
) -> bool {
    &&& forall|i: int| 0 <= i < entries.len() ==>
        (has_path(source, (#[trigger] entries[i]).0) || has_path(target, entries[i].0))
            && entries[i] == entry_of(source, target, entries[i].0)
    &&& forall|k: Seq<char>| has_path(source, k) || has_path(target, k) ==>
        exists|i: int| 0 <= i < entries.len() && (#[trigger] entries[i]).0 == k
    &&& forall|i: int, j: int| 0 <= i < j < entries.len() ==> entry_before(entries[i], entries[j])
}

fn lookup_exec(pairs: &Vec<(Vec<char>, Vec<char>)>, path: &[char]) -> (r: Option<Vec<char>>)
    ensures
        match r {
            Some(v) => lookup(pair_views(pairs@), path@) == Some(v@),
            None => lookup(pair_views(pairs@), path@) is None,
        },
{
    let ghost pv = pair_views(pairs@);
    let mut i: usize = pairs.len();
    assert(pv.take(i as int) =~= pv);
    while i > 0
        invariant
            0 <= i <= pairs@.len(),
            pv == pair_views(pairs@),
            lookup(pv, path@) == lookup(pv.take(i as int), path@),
        decreases i,
    {
        i -= 1;
        assert(pv.take(i + 1).drop_last() =~= pv.take(i as int));
        if chars_eq(&pairs[i].0, path) {
            return Some(copy_chars(&pairs[i].1));
        }
    }
    None
}

/// The keys of both flattened configurations, each once, in ascending order.
fn sorted_keys(source: &Vec<(Vec<char>, Vec<char>)>, target: &Vec<(Vec<char>, Vec<char>)>) -> (keys: Vec<Vec<char>>)
    ensures
        crate::text::strictly_sorted(views(keys@)),
        forall|k: Seq<char>| views(keys@).contains(k) <==>
            (has_path(pair_views(source@), k) || has_path(pair_views(target@), k)),
{
    let ghost sv = pair_views(source@);
    let ghost tv = pair_views(target@);
    let mut keys: Vec<Vec<char>> = Vec::new();
    let mut i: usize = 0;
    while i < source.len()
        invariant
            0 <= i <= source@.len(),
            sv == pair_views(source@),
            crate::text::strictly_sorted(views(keys@)),
            forall|k: Seq<char>| views(keys@).contains(k) <==> has_path(sv.take(i as int), k),
        decreases source@.len() - i,
    {
        let ghost kb = views(keys@);
        crate::text::insert_sorted_unique(&mut keys, &source[i].0);
        proof {
            assert(sv[i as int].0 == source@[i as int].0@);
            assert forall|k: Seq<char>| has_path(sv.take(i + 1), k) <==> (has_path(sv.take(i as int), k) || k == sv[i as int].0) by {
                let t1 = sv.take(i + 1);
                let t0 = sv.take(i as int);
                if has_path(t1, k) {
                    let j = choose|j: int| 0 <= j < t1.len() && (#[trigger] t1[j]).0 == k;
                    if j < i {
                        assert(t0[j] == t1[j]);
                    }
                }
                if has_path(t0, k) {
                    let j = choose|j: int| 0 <= j < t0.len() && (#[trigger] t0[j]).0 == k;
                    assert(t1[j] == t0[j]);
                }
                if k == sv[i as int].0 {
                    assert(t1[i as int] == sv[i as int]);
                }
            }
            assert forall|k: Seq<char>| views(keys@).contains(k) <==> has_path(sv.take(i + 1), k) by {
                assert(views(keys@).contains(k) <==> (kb.contains(k) || k == source@[i as int].0@));
                assert(kb.contains(k) <==> has_path(sv.take(i as int), k));
                assert(has_path(sv.take(i + 1), k) <==> (has_path(sv.take(i as int), k) || k == sv[i as int].0));
            }
        }
        i += 1;
    }
    assert(sv.take(source@.len() as int) =~= sv);
    assert forall|k: Seq<char>| views(keys@).contains(k) <==> (has_path(sv, k) || has_path(tv.take(0), k)) by {
        assert(views(keys@).contains(k) <==> has_path(sv.take(source@.len() as int), k));
        assert(!has_path(tv.take(0), k));
    }
    let mut i: usize = 0;
    while i < target.len()
        invariant
            0 <= i <= target@.len(),
            sv == pair_views(source@),
            tv == pair_views(target@),
            crate::text::strictly_sorted(views(keys@)),
            forall|k: Seq<char>| #![trigger views(keys@).contains(k)]
                views(keys@).contains(k) <==> (has_path(sv, k) || has_path(tv.take(i as int), k)),
        decreases target@.len() - i,
    {
        let ghost kb = views(keys@);
        crate::text::insert_sorted_unique(&mut keys, &target[i].0);
        proof {
            assert(tv[i as int].0 == target@[i as int].0@);
            assert forall|k: Seq<char>| has_path(tv.take(i + 1), k) <==> (has_path(tv.take(i as int), k) || k == tv[i as int].0) by {
                let t1 = tv.take(i + 1);
                let t0 = tv.take(i as int);
                if has_path(t1, k) {
                    let j = choose|j: int| 0 <= j < t1.len() && (#[trigger] t1[j]).0 == k;
                    if j < i {
                        assert(t0[j] == t1[j]);
                    }
                }
                if has_path(t0, k) {
                    let j = choose|j: int| 0 <= j < t0.len() && (#[trigger] t0[j]).0 == k;
                    assert(t1[j] == t0[j]);
                }
                if k == tv[i as int].0 {
                    assert(t1[i as int] == tv[i as int]);
                }
            }
            assert forall|k: Seq<char>| views(keys@).contains(k) <==> (has_path(sv, k) || has_path(tv.take(i + 1), k)) by {
                assert(views(keys@).contains(k) <==> (kb.contains(k) || k == target@[i as int].0@));
                assert(kb.contains(k) <==> (has_path(sv, k) || has_path(tv.take(i as int), k)));
                assert(has_path(tv.take(i + 1), k) <==> (has_path(tv.take(i as int), k) || k == tv[i as int].0));
            }
        }
        i += 1;
    }
    assert(tv.take(target@.len() as int) =~= tv);
    keys
}

fn copy_entry(e: &crate::models::NacosDiffEntry) -> (r: crate::models::NacosDiffEntry)
    ensures entry_view(r) == entry_view(*e),
{
    crate::models::NacosDiffEntry {
        key: crate::text::copy_string(&e.key),
        status: crate::text::copy_string(&e.status),
        source_value: crate::text::copy_opt(&e.source_value),
        target_value: crate::text::copy_opt(&e.target_value),
    }
}

fn opt_string(o: Option<Vec<char>>) -> (r: Option<String>)
    ensures crate::text::opt_view(r) == match o { Some(v) => Some(v@), None => None::<Seq<char>> },
{
    match o {
        Some(v) => Some(string_of(&v)),
        None => None,
    }
}

/// The entries of the keys, in the keys' order.
fn entries_for(source: &Vec<(Vec<char>, Vec<char>)>, target: &Vec<(Vec<char>, Vec<char>)>, keys: &Vec<Vec<char>>)
    -> (all: Vec<crate::models::NacosDiffEntry>)
    ensures
        all@.len() == keys@.len(),
        forall|t: int| 0 <= t < keys@.len() ==>
            entry_view(#[trigger] all@[t]) == entry_of(pair_views(source@), pair_views(target@), keys@[t]@),
{
    let mut all: Vec<crate::models::NacosDiffEntry> = Vec::new();
    let mut t: usize = 0;
    while t < keys.len()
        invariant
            0 <= t <= keys@.len(),
            all@.len() == t,
            forall|u: int| 0 <= u < t ==>
                entry_view(#[trigger] all@[u]) == entry_of(pair_views(source@), pair_views(target@), keys@[u]@),
        decreases keys@.len() - t,
    {
        let key = &keys[t];
        let s = lookup_exec(source, key);
        let g = lookup_exec(target, key);
        let status = match (&s, &g) {
            (Some(a), Some(b)) => if chars_eq(a, b) { "unchanged" } else { "changed" },
            (Some(_), None) => "removed",
            _ => "added",
        };
        let e = crate::models::NacosDiffEntry {
            key: string_of(key),
            status: crate::text::owned(status),
            source_value: opt_string(s),
            target_value: opt_string(g),
        };
        all.push(e);
        t += 1;
    }
    all
}

/// The entries ordered by status rank, each rank's entries keeping their order.
fn order_by_status(all: &Vec<crate::models::NacosDiffEntry>) -> (out: Vec<crate::models::NacosDiffEntry>)
    requires
        forall|a: int, b: int| 0 <= a < b < all@.len() ==> text_less(all@[a].key@, all@[b].key@),
    ensures
        forall|i: int| 0 <= i < out@.len() ==> entry_views(all@).contains(entry_view(#[trigger] out@[i])),
        forall|t: int| 0 <= t < all@.len() ==> entry_views(out@).contains(entry_view(#[trigger] all@[t])),
        forall|i: int, j: int| 0 <= i < j < out@.len() ==> entry_before(entry_view(out@[i]), entry_view(out@[j])),
{
    let mut out: Vec<crate::models::NacosDiffEntry> = Vec::new();
    let ghost mut pos: Seq<int> = Seq::empty();
    let ghost mut at: Seq<int> = Seq::new(all@.len(), |t: int| 0int);
    let mut r: u8 = 0;
    while r < 4
        invariant
            0 <= r <= 4,
            forall|a: int, b: int| 0 <= a < b < all@.len() ==> text_less(all@[a].key@, all@[b].key@),
            pos.len() == out@.len(),
            at.len() == all@.len(),
            forall|i: int| 0 <= i < out@.len() ==>
                0 <= #[trigger] pos[i] < all@.len() && entry_view(out@[i]) == entry_view(all@[pos[i]]),
            forall|i: int| 0 <= i < out@.len() ==> status_rank_spec((#[trigger] out@[i]).status@) < r,
            forall|i: int, j: int| 0 <= i < j < out@.len() ==> entry_before(entry_view(out@[i]), entry_view(out@[j])),
            forall|t: int| 0 <= t < all@.len() && status_rank_spec((#[trigger] all@[t]).status@) < r ==>
                0 <= at[t] < out@.len() && pos[at[t]] == t,
        decreases 4 - r,
    {
        let mut t: usize = 0;
        while t < all.len()
            invariant
                0 <= r < 4,
                0 <= t <= all@.len(),
                forall|a: int, b: int| 0 <= a < b < all@.len() ==> text_less(all@[a].key@, all@[b].key@),
                pos.len() == out@.len(),
                at.len() == all@.len(),
                forall|i: int| 0 <= i < out@.len() ==>
                    0 <= #[trigger] pos[i] < all@.len() && entry_view(out@[i]) == entry_view(all@[pos[i]]),
                forall|i: int| 0 <= i < out@.len() ==> status_rank_spec((#[trigger] out@[i]).status@) < r
                    || (status_rank_spec(out@[i].status@) == r && pos[i] < t),
                forall|i: int, j: int| 0 <= i < j < out@.len() ==> entry_before(entry_view(out@[i]), entry_view(out@[j])),
                forall|u: int| 0 <= u < all@.len() && (status_rank_spec((#[trigger] all@[u]).status@) < r
                    || (status_rank_spec(all@[u].status@) == r && u < t)) ==>
                    0 <= at[u] < out@.len() && pos[at[u]] == u,
            decreases all@.len() - t,
        {
            if status_rank(all[t].status.as_str()) == r {
                let ghost before = out@;
                let e = copy_entry(&all[t]);
                proof {
                    assert forall|i: int| 0 <= i < before.len() implies entry_before(entry_view(before[i]), entry_view(e)) by {
                        if status_rank_spec(before[i].status@) == r {
                            assert(text_less(all@[pos[i]].key@, all@[t as int].key@));
                        }
                    }
                }
                out.push(e);
                proof {
                    pos = pos.push(t as int);
                    at = at.update(t as int, (out@.len() - 1) as int);
                    assert(out@[out@.len() - 1] == e);
                    assert forall|i: int| 0 <= i < out@.len() implies
                        0 <= #[trigger] pos[i] < all@.len() && entry_view(out@[i]) == entry_view(all@[pos[i]]) by {
                        if i < before.len() {
                            assert(out@[i] == before[i]);
                        }
                    }
                    assert forall|i: int, j: int| 0 <= i < j < out@.len() implies entry_before(entry_view(out@[i]), entry_view(out@[j])) by {
                        if j < before.len() {
                            assert(out@[i] == before[i] && out@[j] == before[j]);
                        } else {
                            assert(out@[i] == before[i]);
                        }
                    }
                }
            }
            t += 1;
        }
        r += 1;
    }
    proof {
        assert forall|i: int| 0 <= i < out@.len() implies entry_views(all@).contains(entry_view(#[trigger] out@[i])) by {
            assert(entry_views(all@)[pos[i]] == entry_view(out@[i]));
        }
        assert forall|t: int| 0 <= t < all@.len() implies entry_views(out@).contains(entry_view(#[trigger] all@[t])) by {
            assert(status_rank_spec(all@[t].status@) < 4);
            assert(entry_views(out@)[at[t]] == entry_view(all@[t]));
        }
    }
    out
}

/// `diff_config_values`: the diff of two configuration texts, flattened.
pub fn diff_config_values(source: &str, target: &str) -> (r: Vec<crate::models::NacosDiffEntry>)
    ensures
        is_diff_of(
            flatten(Seq::empty(), config_model(source@)),
            flatten(Seq::empty(), config_model(target@)),
            entry_views(r@),
        ),
{
    let sv = parse_config_value(source);
    let tv = parse_config_value(target);
    let sp = flatten_value(&sv);
    let tp = flatten_value(&tv);
    let keys = sorted_keys(&sp, &tp);
    let all = entries_for(&sp, &tp, &keys);
    proof {
        let kv = views(keys@);
        assert forall|a: int, b: int| 0 <= a < b < all@.len() implies text_less(all@[a].key@, all@[b].key@) by {
            assert(entry_view(all@[a]).0 == keys@[a]@);
            assert(entry_view(all@[b]).0 == keys@[b]@);
            assert(all@[a].key@ == kv[a] && all@[b].key@ == kv[b]);
        }
    }
    let out = order_by_status(&all);
    proof {
        let s = pair_views(sp@);
        let g = pair_views(tp@);
        let kv = views(keys@);
        let ev = entry_views(out@);
        assert forall|i: int| 0 <= i < ev.len() implies
            (has_path(s, (#[trigger] ev[i]).0) || has_path(g, ev[i].0)) && ev[i] == entry_of(s, g, ev[i].0) by {
            assert(entry_views(all@).contains(entry_view(out@[i])));
            let t = choose|t: int| 0 <= t < entry_views(all@).len() && entry_views(all@)[t] == entry_view(out@[i]);
            assert(entry_view(all@[t]) == entry_of(s, g, keys@[t]@));
            assert(kv.contains(kv[t]));
        }
        assert forall|k: Seq<char>| has_path(s, k) || has_path(g, k) implies
            exists|i: int| 0 <= i < ev.len() && (#[trigger] ev[i]).0 == k by {
            assert(kv.contains(k));
            let t = choose|t: int| 0 <= t < kv.len() && kv[t] == k;
            assert(entry_view(all@[t]) == entry_of(s, g, keys@[t]@));
            assert(entry_views(out@).contains(entry_view(all@[t])));
            let i = choose|i: int| 0 <= i < ev.len() && ev[i] == entry_view(all@[t]);
            assert(ev[i].0 == k);
        }
    }
    out
}

/// A diff holds each key once.
pub proof fn law_diff_keys_distinct(
    source: Seq<(Seq<char>, Seq<char>)>,
    target: Seq<(Seq<char>, Seq<char>)>,
    entries: Seq<(Seq<char>, Seq<char>, Option<Seq<char>>, Option<Seq<char>>)>,
)
    requires is_diff_of(source, target, entries),
    ensures forall|i: int, j: int| 0 <= i < j < entries.len() ==> entries[i].0 != entries[j].0,
{
    assert forall|i: int, j: int| 0 <= i < j < entries.len() implies entries[i].0 != entries[j].0 by {
        assert(entry_before(entries[i], entries[j]));
        assert(entries[i] == entry_of(source, target, entries[i].0));
        assert(entries[j] == entry_of(source, target, entries[j].0));
        if entries[i].0 == entries[j].0 {
            lemma_text_less_irreflexive(entries[i].0);
        }
    }
}

/// Comparing a configuration with itself finds every key unchanged.
pub proof fn law_identical_configs_unchanged(
    pairs: Seq<(Seq<char>, Seq<char>)>,
    entries: Seq<(Seq<char>, Seq<char>, Option<Seq<char>>, Option<Seq<char>>)>,
)
    requires is_diff_of(pairs, pairs, entries),
    ensures forall|i: int| 0 <= i < entries.len() ==> entries[i].1 == "unchanged"@,
{
    assert forall|i: int| 0 <= i < entries.len() implies entries[i].1 == "unchanged"@ by {
        let k = entries[i].0;
        assert(has_path(pairs, k));
        lemma_lookup_has_path(pairs, k);
    }
}

// ---------------------------------------------------------------------------
// The summary of a diff
// ---------------------------------------------------------------------------

/// The words that mark a configuration key as high-risk.
pub open spec fn high_risk_needle(i: int) -> Seq<char> {
    if i == 0 { "datasource"@ }
    else if i == 1 { "redis"@ }
    else if i == 2 { "kafka"@ }
    else if i == 3 { "timeout"@ }
    else if i == 4 { "feature"@ }
    else if i == 5 { "switch"@ }
    else if i == 6 { "thread"@ }
    else if i == 7 { "pool"@ }
    else if i == 8 { "endpoint"@ }
    else if i == 9 { "url"@ }
    else if i == 10 { "password"@ }
    else { "username"@ }
}

/// A key whose ASCII-lowercased form holds one of the high-risk words.
pub open spec fn is_high_risk_key_spec(key: Seq<char>) -> bool {
    exists|i: int| 0 <= i < 12 && #[trigger] crate::text::contains(crate::text::lower(key), high_risk_needle(i))
}

/// The words that, in a configuration key, point at settings whose drift is risky: data
/// sources, Redis, Kafka, timeouts, feature switches, thread pools, endpoints and URLs,
/// credentials.
pub open spec fn risky_config_word(w: Seq<char>) -> bool {
    w == "datasource"@ || w == "redis"@ || w == "kafka"@ || w == "timeout"@ || w == "feature"@ || w == "switch"@
        || w == "thread"@ || w == "pool"@ || w == "endpoint"@ || w == "url"@ || w == "password"@ || w == "username"@
}

/// A key is high-risk exactly when its ASCII-lowercased form contains one of the risky
/// words.
pub proof fn law_high_risk_keys(key: Seq<char>)
    ensures
        forall|w: Seq<char>| risky_config_word(w) && #[trigger] crate::text::contains(crate::text::lower(key), w)
            ==> is_high_risk_key_spec(key),
        is_high_risk_key_spec(key) ==> exists|w: Seq<char>|
            risky_config_word(w) && #[trigger] crate::text::contains(crate::text::lower(key), w),
{
    let lk = crate::text::lower(key);
    assert forall|w: Seq<char>| risky_config_word(w) && #[trigger] crate::text::contains(lk, w)
        implies is_high_risk_key_spec(key) by {
        if w == "datasource"@ { assert(crate::text::contains(lk, high_risk_needle(0))); }
        else if w == "redis"@ { assert(crate::text::contains(lk, high_risk_needle(1))); }
        else if w == "kafka"@ { assert(crate::text::contains(lk, high_risk_needle(2))); }
        else if w == "timeout"@ { assert(crate::text::contains(lk, high_risk_needle(3))); }
        else if w == "feature"@ { assert(crate::text::contains(lk, high_risk_needle(4))); }
        else if w == "switch"@ { assert(crate::text::contains(lk, high_risk_needle(5))); }
        else if w == "thread"@ { assert(crate::text::contains(lk, high_risk_needle(6))); }
        else if w == "pool"@ { assert(crate::text::contains(lk, high_risk_needle(7))); }
        else if w == "endpoint"@ { assert(crate::text::contains(lk, high_risk_needle(8))); }
        else if w == "url"@ { assert(crate::text::contains(lk, high_risk_needle(9))); }
        else if w == "password"@ { assert(crate::text::contains(lk, high_risk_needle(10))); }
        else { assert(crate::text::contains(lk, high_risk_needle(11))); }
    }
    if is_high_risk_key_spec(key) {
        let i = choose|i: int| 0 <= i < 12 && #[trigger] crate::text::contains(lk, high_risk_needle(i));
        assert(risky_config_word(high_risk_needle(i)));
    }
}

fn high_risk_word(i: usize) -> (w: &'static str)
    requires i < 12,
    ensures w@ == high_risk_needle(i as int),
{
    if i == 0 { "datasource" }
    else if i == 1 { "redis" }
    else if i == 2 { "kafka" }
    else if i == 3 { "timeout" }
    else if i == 4 { "feature" }
    else if i == 5 { "switch" }
    else if i == 6 { "thread" }
    else if i == 7 { "pool" }
    else if i == 8 { "endpoint" }
    else if i == 9 { "url" }
    else if i == 10 { "password" }
    else { "username" }
}

pub fn is_high_risk_key(key: &str) -> (r: bool)
    ensures r == is_high_risk_key_spec(key@),
{
    let k = chars_of(key);
    let lowered = crate::text::to_lower(&k);
    let mut i: usize = 0;
    while i < 12
        invariant
            0 <= i <= 12,
            lowered@ == crate::text::lower(key@),
            forall|j: int| 0 <= j < i ==> !#[trigger] crate::text::contains(crate::text::lower(key@), high_risk_needle(j)),
        decreases 12 - i,
    {
        let w = chars_of(high_risk_word(i));
        if crate::text::contains_exec(&lowered, &w) {
            return true;
        }
        i += 1;
    }
    false
}

/// How many entries have the status.
pub open spec fn count_status(
    es: Seq<(Seq<char>, Seq<char>, Option<Seq<char>>, Option<Seq<char>>)>,
    status: Seq<char>,
) -> nat
    decreases es.len(),
{
    if es.len() == 0 {
        0
    } else {
        count_status(es.drop_last(), status) + if es.last().1 == status { 1nat } else { 0nat }
    }
}

/// `key (status)` for each entry with a high-risk key, in the entries' order.
pub open spec fn impactful(es: Seq<(Seq<char>, Seq<char>, Option<Seq<char>>, Option<Seq<char>>)>) -> Seq<Seq<char>>
    decreases es.len(),
{
    if es.len() == 0 {
        Seq::empty()
    } else {
        let prev = impactful(es.drop_last());
        if is_high_risk_key_spec(es.last().0) {
            prev.push(es.last().0 + " ("@ + es.last().1 + ")"@)
        } else {
            prev
        }
    }
}

pub open spec fn summary_view(s: crate::models::NacosDiffSummary) -> (Seq<char>, Seq<Seq<char>>, Seq<Seq<char>>) {
    (s.headline@, crate::text::string_views(s.likely_impact@), crate::text::string_views(s.explanation@))
}

/// What `build_summary` returns: the headline with the counts, the likely impact of
/// high-risk keys, changed values and added or removed keys, and the explanation.
pub open spec fn summary_spec(
    source_env: Seq<char>,
    target_env: Seq<char>,
    group: Seq<char>,
    data_id: Seq<char>,
    es: Seq<(Seq<char>, Seq<char>, Option<Seq<char>>, Option<Seq<char>>)>,
) -> (Seq<char>, Seq<Seq<char>>, Seq<Seq<char>>) {
    let changed = count_status(es, "changed"@);
    let added = count_status(es, "added"@);
    let removed = count_status(es, "removed"@);
    let hot = impactful(es);
    let first = if hot.len() == 0 {
        "No obviously high-risk config keys were detected in the diff."@
    } else {
        "High-risk drift detected in "@ + decimal(hot.len()) + " key(s): "@ + crate::text::join(hot, ", "@) + "."@
    };
    let impact = seq![first]
        + (if changed > 0 { seq!["Changed values can alter runtime behavior without changing deployment artifacts."@] } else { Seq::empty() })
        + (if added > 0 || removed > 0 { seq!["Added or removed keys can change fallback behavior and feature gates."@] } else { Seq::empty() });
    let explanation = seq![
        source_env + " vs "@ + target_env + " for "@ + group + "/"@ + data_id + " produced "@ + decimal(es.len()) + " diff entries."@,
        "Prioritize keys related to datasource, redis, kafka, endpoint, timeout, thread pool, switch, or feature flags."@,
        "If prod differs from test, verify whether the drift is intentional before rollout or incident response."@,
    ];
    let headline = decimal(changed) + " changed, "@ + decimal(added) + " added, "@ + decimal(removed)
        + " removed when comparing "@ + source_env + " to "@ + target_env + "."@;
    (headline, impact, explanation)
}

pub proof fn lemma_count_status_bound(
    es: Seq<(Seq<char>, Seq<char>, Option<Seq<char>>, Option<Seq<char>>)>,
    status: Seq<char>,
)
    ensures count_status(es, status) <= es.len(),
    decreases es.len(),
{
    if es.len() > 0 {
        lemma_count_status_bound(es.drop_last(), status);
    }
}

/// `build_summary`: the summary of a diff between two environments.
pub fn build_summary(input: &crate::models::CompareNacosConfigInput, entries: &Vec<crate::models::NacosDiffEntry>)
    -> (r: crate::models::NacosDiffSummary)
    ensures
        summary_view(r) == summary_spec(input.source_environment_id@, input.target_environment_id@,
            input.group@, input.data_id@, entry_views(entries@)),
{
    let ghost es = entry_views(entries@);
    let mut changed: usize = 0;
    let mut added: usize = 0;
    let mut removed: usize = 0;
    let mut hot: Vec<Vec<char>> = Vec::new();
    let mut i: usize = 0;
    while i < entries.len()
        invariant
            0 <= i <= entries@.len(),
            es == entry_views(entries@),
            changed == count_status(es.take(i as int), "changed"@),
            added == count_status(es.take(i as int), "added"@),
            removed == count_status(es.take(i as int), "removed"@),
            views(hot@) == impactful(es.take(i as int)),
        decreases entries@.len() - i,
    {
        proof {
            assert(es.take(i + 1).drop_last() =~= es.take(i as int));
            lemma_count_status_bound(es.take(i as int), "changed"@);
            lemma_count_status_bound(es.take(i as int), "added"@);
            lemma_count_status_bound(es.take(i as int), "removed"@);
        }
        let e = &entries[i];
        let st = e.status.as_str();
        if crate::text::str_eq(st, "changed") {
            changed += 1;
        }
        if crate::text::str_eq(st, "added") {
            added += 1;
        }
        if crate::text::str_eq(st, "removed") {
            removed += 1;
        }
        if is_high_risk_key(e.key.as_str()) {
            let mut item = chars_of(e.key.as_str());
            push_str(&mut item, " (");
            push_str(&mut item, st);
            push_str(&mut item, ")");
            let ghost prev = hot@;
            hot.push(item);
            assert(views(hot@) =~= views(prev).push(item@));
        }
        i += 1;
    }
    assert(es.take(entries@.len() as int) =~= es);
    let mut impact: Vec<String> = Vec::new();
    if hot.len() == 0 {
        impact.push(crate::text::owned("No obviously high-risk config keys were detected in the diff."));
    } else {
        let mut m = chars_of("High-risk drift detected in ");
        push_decimal(&mut m, hot.len() as u64);
        push_str(&mut m, " key(s): ");
        let joined = crate::text::join_exec(&hot, ", ");
        push_chars(&mut m, &joined);
        push_str(&mut m, ".");
        impact.push(string_of(&m));
    }
    if changed > 0 {
        impact.push(crate::text::owned("Changed values can alter runtime behavior without changing deployment artifacts."));
    }
    if added > 0 || removed > 0 {
        impact.push(crate::text::owned("Added or removed keys can change fallback behavior and feature gates."));
    }
    let mut first = chars_of(input.source_environment_id.as_str());
    push_str(&mut first, " vs ");
    push_str(&mut first, input.target_environment_id.as_str());
    push_str(&mut first, " for ");
    push_str(&mut first, input.group.as_str());
    push_str(&mut first, "/");
    push_str(&mut first, input.data_id.as_str());
    push_str(&mut first, " produced ");
    push_decimal(&mut first, entries.len() as u64);
    push_str(&mut first, " diff entries.");
    let mut explanation: Vec<String> = Vec::new();
    explanation.push(string_of(&first));
    explanation.push(crate::text::owned("Prioritize keys related to datasource, redis, kafka, endpoint, timeout, thread pool, switch, or feature flags."));
    explanation.push(crate::text::owned("If prod differs from test, verify whether the drift is intentional before rollout or incident response."));
    let mut headline: Vec<char> = Vec::new();
    push_decimal(&mut headline, changed as u64);
    push_str(&mut headline, " changed, ");
    push_decimal(&mut headline, added as u64);
    push_str(&mut headline, " added, ");
    push_decimal(&mut headline, removed as u64);
    push_str(&mut headline, " removed when comparing ");
    push_str(&mut headline, input.source_environment_id.as_str());
    push_str(&mut headline, " to ");
    push_str(&mut headline, input.target_environment_id.as_str());
    push_str(&mut headline, ".");
    let r = crate::models::NacosDiffSummary { headline: string_of(&headline), likely_impact: impact, explanation };
    proof {
        let sp = summary_spec(input.source_environment_id@, input.target_environment_id@, input.group@, input.data_id@, es);
        assert(crate::text::string_views(r.likely_impact@) =~= sp.1);
        assert(crate::text::string_views(r.explanation@) =~= sp.2);
    }
    r
}

// ---------------------------------------------------------------------------
// The Nacos settings of a profile and the request for a configuration
// ---------------------------------------------------------------------------

/// The Nacos settings of a connection profile.
pub struct NacosProfileConfig {
    pub api_version: String,
    pub auth_mode: String,
    pub namespace_id: Option<String>,
}

pub open spec fn nacos_config_view(c: NacosProfileConfig) -> (Seq<char>, Seq<char>, Option<Seq<char>>) {
    (c.api_version@, c.auth_mode@, crate::text::opt_view(c.namespace_id))
}

/// What `parse_profile_config` reads: `apiVersion` (default `v1`), `authMode` (default
/// `basic` for a profile with a secret and a username, else `none`) and `namespaceId`
/// (default the profile's non-blank default scope).
pub open spec fn nacos_config_spec(profile: crate::models::ConnectionProfile) -> (Seq<char>, Seq<char>, Option<Seq<char>>) {
    let settings = crate::redis::profile_settings_model(profile.config_json@);
    let api = match crate::json::model_get_str(settings, "apiVersion"@) { Some(v) => v, None => "v1"@ };
    let auth = match crate::json::model_get_str(settings, "authMode"@) {
        Some(v) => v,
        None => if profile.has_secret && profile.username is Some { "basic"@ } else { "none"@ },
    };
    let ns = match crate::json::model_get_str(settings, "namespaceId"@) {
        Some(v) => Some(v),
        None => crate::ssh::nonblank_opt(crate::text::opt_view(profile.default_scope)),
    };
    (api, auth, ns)
}

/// `parse_profile_config`: the Nacos settings of a profile; it always succeeds.
pub fn parse_profile_config(profile: &crate::models::ConnectionProfile) -> (r: Result<NacosProfileConfig, String>)
    ensures
        r matches Ok(c) && nacos_config_view(c) == nacos_config_spec(*profile),
{
    let settings = crate::profiles::profile_settings(profile);
    let api_version = match crate::json::json_get_str(&settings, "apiVersion") {
        Some(v) => string_of(&v),
        None => crate::text::owned("v1"),
    };
    let auth_mode = match crate::json::json_get_str(&settings, "authMode") {
        Some(v) => string_of(&v),
        None => crate::text::owned(if profile.has_secret && profile.username.is_some() { "basic" } else { "none" }),
    };
    let namespace_id = match crate::json::json_get_str(&settings, "namespaceId") {
        Some(v) => Some(string_of(&v)),
        None => match &profile.default_scope {
            Some(d) => if crate::text::is_blank_str(d.as_str()) { None } else { Some(crate::text::copy_string(d)) },
            None => None,
        },
    };
    Ok(NacosProfileConfig { api_version, auth_mode, namespace_id })
}

/// The address of the configuration API under an endpoint.
pub open spec fn resolve_url_spec(api_version: Seq<char>, endpoint: Seq<char>) -> Seq<char> {
    let base = crate::text::trim_end_char(endpoint, '/');
    if api_version == "v2"@ { base + "/nacos/v2/cs/config"@ } else { base + "/nacos/v1/cs/configs"@ }
}

impl NacosProfileConfig {
    /// `resolve_url`: the endpoint without trailing slashes, then the API path of the version.
    pub fn resolve_url(&self, endpoint: &str) -> (r: String)
        ensures r@ == resolve_url_spec(self.api_version@, endpoint@),
    {
        let e = chars_of(endpoint);
        let mut base = crate::text::trim_end_char_exec(&e, '/');
        if crate::text::str_eq(self.api_version.as_str(), "v2") {
            push_str(&mut base, "/nacos/v2/cs/config");
        } else {
            push_str(&mut base, "/nacos/v1/cs/configs");
        }
        string_of(&base)
    }

    /// `namespace_query_name`: `namespaceId` for API v2, `tenant` before it.
    pub fn namespace_query_name(&self) -> (r: &'static str)
        ensures r@ == if self.api_version@ == "v2"@ { "namespaceId"@ } else { "tenant"@ },
    {
        if crate::text::str_eq(self.api_version.as_str(), "v2") { "namespaceId" } else { "tenant" }
    }

    /// `default_namespace`: the configured namespace, or `public`.
    pub fn default_namespace(&self) -> (r: &str)
        ensures r@ == match crate::text::opt_view(self.namespace_id) { Some(n) => n, None => "public"@ },
    {
        match &self.namespace_id {
            Some(n) => n.as_str(),
            None => "public",
        }
    }

    /// The query of a configuration request: the namespace (the requested one, else the
    /// default), the group and the data id.
    pub fn config_query(&self, namespace_id: &Option<String>, group: &str, data_id: &str) -> (r: Vec<(String, String)>)
        ensures
            r@.len() == 3,
            r@[0].0@ == (if self.api_version@ == "v2"@ { "namespaceId"@ } else { "tenant"@ }),
            r@[0].1@ == match crate::text::opt_view(*namespace_id) {
                Some(n) => n,
                None => match crate::text::opt_view(self.namespace_id) { Some(n) => n, None => "public"@ },
            },
            r@[1].0@ == "group"@ && r@[1].1@ == group@,
            r@[2].0@ == "dataId"@ && r@[2].1@ == data_id@,
    {
        let ns = match namespace_id {
            Some(n) => crate::text::copy_string(n),
            None => crate::text::owned(self.default_namespace()),
        };
        let mut q: Vec<(String, String)> = Vec::new();
        q.push((crate::text::owned(self.namespace_query_name()), ns));
        q.push((crate::text::owned("group"), crate::text::owned(group)));
        q.push((crate::text::owned("dataId"), crate::text::owned(data_id)));
        q
    }
}

/// How a configuration request authenticates.
pub enum NacosAuth {
    /// HTTP basic authentication.
    Basic { username: String, password: String },
    /// An `Authorization` header with this value.
    Bearer(String),
    /// An `accessToken` query parameter with this value.
    AccessToken(String),
    /// No authentication.
    Anonymous,
}

pub open spec fn nacos_auth_view(a: NacosAuth) -> (int, Seq<char>, Seq<char>) {
    match a {
        NacosAuth::Basic { username, password } => (0, username@, password@),
        NacosAuth::Bearer(h) => (1, h@, Seq::empty()),
        NacosAuth::AccessToken(t) => (2, t@, Seq::empty()),
        NacosAuth::Anonymous => (3, Seq::empty(), Seq::empty()),
    }
}

/// What `apply_auth` does with a profile's auth mode and its secret (read only when the
/// profile has one).
pub open spec fn nacos_auth_spec(profile_name: Seq<char>, username: Option<Seq<char>>, auth_mode: Seq<char>,
    secret: Option<Seq<char>>) -> Result<(int, Seq<char>, Seq<char>), Seq<char>>
{
    if auth_mode == "basic"@ {
        match crate::ssh::nonblank_opt(username) {
            Some(u) => Ok((0, u, match secret { Some(p) => p, None => Seq::empty() })),
            None => Err("Nacos profile "@ + profile_name + " requires a username for basic auth."@),
        }
    } else if auth_mode == "bearer"@ {
        match secret {
            Some(t) => Ok((1, "Bearer "@ + t, Seq::empty())),
            None => Err("Nacos profile "@ + profile_name + " requires a bearer token secret."@),
        }
    } else if auth_mode == "accessToken"@ {
        match secret {
            Some(t) => Ok((2, t, Seq::empty())),
            None => Err("Nacos profile "@ + profile_name + " requires an access token secret."@),
        }
    } else if auth_mode == "none"@ {
        Ok((3, Seq::empty(), Seq::empty()))
    } else {
        Err("Unsupported Nacos authMode: "@ + auth_mode)
    }
}

/// `apply_auth`: how a request of the profile authenticates, given the profile's secret.
pub fn nacos_auth(profile: &crate::models::ConnectionProfile, config: &NacosProfileConfig, secret: Option<String>)
    -> (r: Result<NacosAuth, String>)
    ensures
        match r {
            Ok(a) => nacos_auth_spec(profile.name@, crate::text::opt_view(profile.username), config.auth_mode@,
                crate::text::opt_view(secret)) == Ok::<_, Seq<char>>(nacos_auth_view(a)),
            Err(e) => nacos_auth_spec(profile.name@, crate::text::opt_view(profile.username), config.auth_mode@,
                crate::text::opt_view(secret)) == Err::<(int, Seq<char>, Seq<char>), Seq<char>>(e@),
        },
{
    let mode = config.auth_mode.as_str();
    let name = profile.name.as_str();
    if crate::text::str_eq(mode, "basic") {
        let username = match &profile.username {
            Some(u) => if crate::text::is_blank_str(u.as_str()) { None } else { Some(crate::text::copy_string(u)) },
            None => None,
        };
        match username {
            Some(u) => {
                let password = match secret { Some(p) => p, None => String::new() };
                proof { assert(password@ =~= match crate::text::opt_view(secret) { Some(p) => p, None => Seq::empty() }); }
                Ok(NacosAuth::Basic { username: u, password })
            },
            None => {
                let mut m = chars_of("Nacos profile ");
                push_str(&mut m, name);
                push_str(&mut m, " requires a username for basic auth.");
                Err(string_of(&m))
            },
        }
    } else if crate::text::str_eq(mode, "bearer") {
        match secret {
            Some(t) => {
                let mut h = chars_of("Bearer ");
                push_str(&mut h, t.as_str());
                Ok(NacosAuth::Bearer(string_of(&h)))
            },
            None => {
                let mut m = chars_of("Nacos profile ");
                push_str(&mut m, name);
                push_str(&mut m, " requires a bearer token secret.");
                Err(string_of(&m))
            },
        }
    } else if crate::text::str_eq(mode, "accessToken") {
        match secret {
            Some(t) => Ok(NacosAuth::AccessToken(t)),
            None => {
                let mut m = chars_of("Nacos profile ");
                push_str(&mut m, name);
                push_str(&mut m, " requires an access token secret.");
                Err(string_of(&m))
            },
        }
    } else if crate::text::str_eq(mode, "none") {
        Ok(NacosAuth::Anonymous)
    } else {
        let mut m = chars_of("Unsupported Nacos authMode: ");
        push_str(&mut m, mode);
        Err(string_of(&m))
    }
}

/// The message of a configuration request that the server refused.
pub open spec fn request_failure_spec(profile_name: Seq<char>, status: Seq<char>, body: Seq<char>) -> Seq<char> {
    "Nacos request failed for "@ + profile_name + " with status "@ + status + ": "@
        + crate::hardening::sanitize_and_mask(trim(body))
}

pub fn request_failure_message(profile_name: &str, status: &str, body: &str) -> (r: String)
    ensures r@ == request_failure_spec(profile_name@, status@, body@),
{
    let t = crate::text::trim_str(body);
    let ts = string_of(&t);
    let clean = crate::hardening::sanitize_and_mask_text(ts.as_str());
    let mut m = chars_of("Nacos request failed for ");
    push_str(&mut m, profile_name);
    push_str(&mut m, " with status ");
    push_str(&mut m, status);
    push_str(&mut m, ": ");
    push_str(&mut m, clean.as_str());
    string_of(&m)
}

/// The configuration text of a successful response: for API v2 the `data` string of its
/// JSON body, before it the whole body; sanitized either way.
pub open spec fn config_from_body_spec(api_version: Seq<char>, profile_name: Seq<char>, body: Seq<char>)
    -> Result<Seq<char>, Seq<char>>
{
    if api_version == "v2"@ {
        match spec_parse_json(body) {
            None => Err("Invalid Nacos v2 response for "@ + profile_name + ": error decoding response body"@),
            Some(doc) => match crate::json::model_get_str(doc, "data"@) {
                Some(data) => Ok(crate::hardening::sanitize_untrusted(data)),
                None => Err("Nacos v2 response missing data field for "@ + profile_name),
            },
        }
    } else {
        Ok(crate::hardening::sanitize_untrusted(body))
    }
}

pub fn config_from_body(config: &NacosProfileConfig, profile_name: &str, body: &str) -> (r: Result<String, String>)
    ensures
        match r {
            Ok(v) => config_from_body_spec(config.api_version@, profile_name@, body@) == Ok::<Seq<char>, Seq<char>>(v@),
            Err(e) => config_from_body_spec(config.api_version@, profile_name@, body@) == Err::<Seq<char>, Seq<char>>(e@),
        },
{
    if crate::text::str_eq(config.api_version.as_str(), "v2") {
        match parse_json(body) {
            None => {
                let mut m = chars_of("Invalid Nacos v2 response for ");
                push_str(&mut m, profile_name);
                push_str(&mut m, ": error decoding response body");
                Err(string_of(&m))
            },
            Some(doc) => match crate::json::json_get_str(&doc, "data") {
                Some(data) => {
                    let ds = string_of(&data);
                    Ok(crate::hardening::sanitize_untrusted_text(ds.as_str()))
                },
                None => {
                    let mut m = chars_of("Nacos v2 response missing data field for ");
                    push_str(&mut m, profile_name);
                    Err(string_of(&m))
                },
            },
        }
    } else {
        Ok(crate::hardening::sanitize_untrusted_text(body))
    }
}

// ---------------------------------------------------------------------------
// The comparison
// ---------------------------------------------------------------------------

/// The namespace of a comparison: the requested one, else the source profile's default
/// scope, else the target profile's.
pub open spec fn compare_namespace_spec(requested: Option<Seq<char>>, source_scope: Option<Seq<char>>,
    target_scope: Option<Seq<char>>) -> Option<Seq<char>>
{
    match requested {
        Some(n) => Some(n),
        None => match source_scope { Some(n) => Some(n), None => target_scope },
    }
}

pub fn compare_namespace(input: &crate::models::CompareNacosConfigInput, source: &crate::models::ConnectionProfile,
    target: &crate::models::ConnectionProfile) -> (r: Option<String>)
    ensures
        crate::text::opt_view(r) == compare_namespace_spec(crate::text::opt_view(input.namespace_id),
            crate::text::opt_view(source.default_scope), crate::text::opt_view(target.default_scope)),
{
    match &input.namespace_id {
        Some(n) => Some(crate::text::copy_string(n)),
        None => match &source.default_scope {
            Some(n) => Some(crate::text::copy_string(n)),
            None => crate::text::copy_opt(&target.default_scope),
        },
    }
}

fn config_version(profile: &crate::models::ConnectionProfile, namespace_id: &Option<String>, value: String)
    -> (r: crate::models::NacosConfigVersion)
    ensures
        r.environment_id@ == profile.environment_id@,
        r.profile_name@ == profile.name@,
        crate::text::opt_view(r.namespace_id) == match crate::text::opt_view(*namespace_id) {
            Some(n) => Some(n),
            None => crate::ssh::nonblank_opt(crate::text::opt_view(profile.default_scope)),
        },
        r.value@ == value@,
{
    let ns = match namespace_id {
        Some(n) => Some(crate::text::copy_string(n)),
        None => match &profile.default_scope {
            Some(d) => if crate::text::is_blank_str(d.as_str()) { None } else { Some(crate::text::copy_string(d)) },
            None => None,
        },
    };
    crate::models::NacosConfigVersion {
        environment_id: crate::text::copy_string(&profile.environment_id),
        profile_name: crate::text::copy_string(&profile.name),
        namespace_id: ns,
        value,
    }
}

/// `compare_config` once both configuration texts are loaded: the response with the diff
/// of the two texts and its summary.
pub fn compare_loaded_configs(
    source_profile: &crate::models::ConnectionProfile,
    target_profile: &crate::models::ConnectionProfile,
    input: &crate::models::CompareNacosConfigInput,
    source_value: String,
    target_value: String,
) -> (r: crate::models::CompareNacosConfigResponse)
    ensures
        r.source_environment_id@ == input.source_environment_id@,
        r.target_environment_id@ == input.target_environment_id@,
        r.data_id@ == input.data_id@,
        r.group@ == input.group@,
        crate::text::opt_view(r.namespace_id) == compare_namespace_spec(crate::text::opt_view(input.namespace_id),
            crate::text::opt_view(source_profile.default_scope), crate::text::opt_view(target_profile.default_scope)),
        r.adapter_mode@ == "nacos-http-compare"@,
        r.source.environment_id@ == source_profile.environment_id@,
        r.source.profile_name@ == source_profile.name@,
        crate::text::opt_view(r.source.namespace_id) == match crate::text::opt_view(r.namespace_id) {
            Some(n) => Some(n),
            None => crate::ssh::nonblank_opt(crate::text::opt_view(source_profile.default_scope)),
        },
        r.source.value@ == source_value@,
        r.target.environment_id@ == target_profile.environment_id@,
        r.target.profile_name@ == target_profile.name@,
        crate::text::opt_view(r.target.namespace_id) == match crate::text::opt_view(r.namespace_id) {
            Some(n) => Some(n),
            None => crate::ssh::nonblank_opt(crate::text::opt_view(target_profile.default_scope)),
        },
        r.target.value@ == target_value@,
        is_diff_of(flatten(Seq::empty(), config_model(source_value@)), flatten(Seq::empty(), config_model(target_value@)),
            entry_views(r.diff_entries@)),
        summary_view(r.summary) == summary_spec(input.source_environment_id@, input.target_environment_id@,
            input.group@, input.data_id@, entry_views(r.diff_entries@)),
{
    let namespace_id = compare_namespace(input, source_profile, target_profile);
    let diff_entries = diff_config_values(source_value.as_str(), target_value.as_str());
    let summary = build_summary(input, &diff_entries);
    let source = config_version(source_profile, &namespace_id, source_value);
    let target = config_version(target_profile, &namespace_id, target_value);
    crate::models::CompareNacosConfigResponse {
        source_environment_id: crate::text::copy_string(&input.source_environment_id),
        target_environment_id: crate::text::copy_string(&input.target_environment_id),
        data_id: crate::text::copy_string(&input.data_id),
        group: crate::text::copy_string(&input.group),
        namespace_id,
        adapter_mode: crate::text::owned("nacos-http-compare"),
        source,
        target,
        diff_entries,
        summary,
    }
}

} // verus!
