//! Investigations: the evidence saved from each tool, the correlations found between
//! kinds of evidence, the timeline, and the Markdown and HTML reports.
use vstd::prelude::*;

use crate::json::{
    json_array_items, json_path, json_path_str, model_path, model_path_str, parse_json_or_null, parse_or_null,
    path_views, JsonModel, JsonValue,
};
use crate::models::{InvestigationCorrelation, InvestigationEvidence};
use crate::text::{
    chars_of, contains, contains_exec, copy_string, lower, push_str, split_char, string_of, to_lower, views,
};

verus! {

// ---------------------------------------------------------------------------
// Views of evidence and correlations
// ---------------------------------------------------------------------------

/// A saved evidence item, by the text of its fields.
pub struct EvidenceModel {
    pub id: Seq<char>,
    pub investigation_id: Seq<char>,
    pub evidence_type: Seq<char>,
    pub title: Seq<char>,
    pub summary: Seq<char>,
    pub content_json: Seq<char>,
    pub created_at: Seq<char>,
}

impl View for InvestigationEvidence {
    type V = EvidenceModel;

    open spec fn view(&self) -> EvidenceModel {
        EvidenceModel {
            id: self.id@,
            investigation_id: self.investigation_id@,
            evidence_type: self.evidence_type@,
            title: self.title@,
            summary: self.summary@,
            content_json: self.content_json@,
            created_at: self.created_at@,
        }
    }
}

pub open spec fn evidence_models(s: Seq<InvestigationEvidence>) -> Seq<EvidenceModel> {
    Seq::new(s.len(), |i: int| s[i]@)
}

/// A correlation between two evidence items, by the text of its fields.
pub struct CorrelationModel {
    pub id: Seq<char>,
    pub title: Seq<char>,
    pub detail: Seq<char>,
    pub confidence: Seq<char>,
    pub linked_evidence_ids: Seq<Seq<char>>,
}

impl View for InvestigationCorrelation {
    type V = CorrelationModel;

    open spec fn view(&self) -> CorrelationModel {
        CorrelationModel {
            id: self.id@,
            title: self.title@,
            detail: self.detail@,
            confidence: self.confidence@,
            linked_evidence_ids: crate::text::string_views(self.linked_evidence_ids@),
        }
    }
}

pub open spec fn correlation_models(s: Seq<InvestigationCorrelation>) -> Seq<CorrelationModel> {
    Seq::new(s.len(), |i: int| s[i]@)
}

/// The evidence items of one type, in their order.
pub open spec fn of_type(ev: Seq<EvidenceModel>, ty: Seq<char>) -> Seq<EvidenceModel>
    decreases ev.len(),
{
    if ev.len() == 0 {
        Seq::empty()
    } else {
        let prev = of_type(ev.drop_last(), ty);
        if ev.last().evidence_type == ty { prev.push(ev.last()) } else { prev }
    }
}

pub fn copy_evidence(e: &InvestigationEvidence) -> (r: InvestigationEvidence)
    ensures r@ == e@,
{
    InvestigationEvidence {
        id: copy_string(&e.id),
        investigation_id: copy_string(&e.investigation_id),
        evidence_type: copy_string(&e.evidence_type),
        title: copy_string(&e.title),
        summary: copy_string(&e.summary),
        content_json: copy_string(&e.content_json),
        created_at: copy_string(&e.created_at),
    }
}

/// The evidence items of one type.
pub fn select_type(ev: &[InvestigationEvidence], ty: &str) -> (r: Vec<InvestigationEvidence>)
    ensures evidence_models(r@) == of_type(evidence_models(ev@), ty@),
{
    let ghost em = evidence_models(ev@);
    let mut r: Vec<InvestigationEvidence> = Vec::new();
    let mut i: usize = 0;
    while i < ev.len()
        invariant
            0 <= i <= ev@.len(),
            em == evidence_models(ev@),
            evidence_models(r@) == of_type(em.take(i as int), ty@),
        decreases ev@.len() - i,
    {
        assert(em.take(i + 1).drop_last() =~= em.take(i as int));
        assert(em.take(i + 1).last() == ev@[i as int]@);
        if crate::text::str_eq(ev[i].evidence_type.as_str(), ty) {
            let ghost prev = r@;
            r.push(copy_evidence(&ev[i]));
            assert(evidence_models(r@) =~= evidence_models(prev).push(ev@[i as int]@));
        }
        i += 1;
    }
    assert(em.take(ev@.len() as int) =~= em);
    r
}

pub fn make_correlation(id: Vec<char>, title: Vec<char>, detail: Vec<char>, confidence: &str, first: &str, second: &str)
    -> (r: InvestigationCorrelation)
    ensures
        r@ == (CorrelationModel { id: id@, title: title@, detail: detail@, confidence: confidence@,
            linked_evidence_ids: seq![first@, second@] }),
{
    let mut linked: Vec<String> = Vec::new();
    linked.push(crate::text::owned(first));
    linked.push(crate::text::owned(second));
    let r = InvestigationCorrelation {
        id: string_of(&id),
        title: string_of(&title),
        detail: string_of(&detail),
        confidence: crate::text::owned(confidence),
        linked_evidence_ids: linked,
    };
    assert(crate::text::string_views(r.linked_evidence_ids@) =~= seq![first@, second@]);
    r
}

/// `{a}-{b}`: the id of a correlation between two evidence items.
pub open spec fn pair_id(a: Seq<char>, b: Seq<char>) -> Seq<char> {
    a + "-"@ + b
}

pub fn pair_id_exec(a: &str, b: &str) -> (r: Vec<char>)
    ensures r@ == pair_id(a@, b@),
{
    let mut m = chars_of(a);
    push_str(&mut m, "-");
    push_str(&mut m, b);
    m
}

// ---------------------------------------------------------------------------
// Strings gathered from evidence documents
// ---------------------------------------------------------------------------

/// The string at `leaf` of each item that has one, in the items' order.
pub open spec fn item_strings(items: Seq<JsonModel>, leaf: Seq<Seq<char>>) -> Seq<Seq<char>>
    decreases items.len(),
{
    if items.len() == 0 {
        Seq::empty()
    } else {
        let prev = item_strings(items.drop_last(), leaf);
        match model_path_str(items.last(), leaf) {
            Some(s) => prev.push(s),
            None => prev,
        }
    }
}

/// `json_array_strings`: the strings at `leaf` of the items of the array at `array_path`.
pub open spec fn array_strings(m: JsonModel, array_path: Seq<Seq<char>>, leaf: Seq<Seq<char>>) -> Seq<Seq<char>> {
    match model_path(m, array_path) {
        Some(JsonModel::Array(items)) => item_strings(items, leaf),
        _ => Seq::empty(),
    }
}

pub fn json_array_strings(v: &JsonValue, array_path: &[&str], leaf: &[&str]) -> (r: Vec<Vec<char>>)
    ensures views(r@) == array_strings(v@, path_views(array_path@), path_views(leaf@)),
{
    let mut r: Vec<Vec<char>> = Vec::new();
    let items = match json_path(v, array_path) {
        Some(x) => match json_array_items(x) {
            Some(items) => items,
            None => return r,
        },
        None => return r,
    };
    let ghost its = crate::json::model_items(items@);
    let ghost lv = path_views(leaf@);
    let mut i: usize = 0;
    while i < items.len()
        invariant
            0 <= i <= items@.len(),
            its == crate::json::model_items(items@),
            lv == path_views(leaf@),
            views(r@) == item_strings(its.take(i as int), lv),
        decreases items@.len() - i,
    {
        assert(its.take(i + 1).drop_last() =~= its.take(i as int));
        assert(its.take(i + 1).last() == items@[i as int]@);
        match json_path_str(&items[i], leaf) {
            Some(s) => {
                let ghost prev = r@;
                r.push(chars_of(s.as_str()));
                assert(views(r@) =~= views(prev).push(s@));
            },
            None => {},
        }
        i += 1;
    }
    assert(its.take(items@.len() as int) =~= its);
    r
}

/// The trimmed, non-empty pieces of comma-separated parts.
pub open spec fn trimmed_nonempty(parts: Seq<Seq<char>>) -> Seq<Seq<char>>
    decreases parts.len(),
{
    if parts.len() == 0 {
        Seq::empty()
    } else {
        let prev = trimmed_nonempty(parts.drop_last());
        if crate::text::trim(parts.last()).len() > 0 { prev.push(crate::text::trim(parts.last())) } else { prev }
    }
}

/// The values of a comma-separated list, trimmed, empty ones dropped.
pub open spec fn comma_values(s: Seq<char>) -> Seq<Seq<char>> {
    trimmed_nonempty(split_char(s, ','))
}

pub open spec fn item_comma_values(items: Seq<JsonModel>, leaf: Seq<Seq<char>>) -> Seq<Seq<char>>
    decreases items.len(),
{
    if items.len() == 0 {
        Seq::empty()
    } else {
        let prev = item_comma_values(items.drop_last(), leaf);
        match model_path_str(items.last(), leaf) {
            Some(s) => prev + comma_values(s),
            None => prev,
        }
    }
}

/// The comma-separated values at `leaf` of the items of the array at `array_path`.
pub open spec fn array_comma_values(m: JsonModel, array_path: Seq<Seq<char>>, leaf: Seq<Seq<char>>) -> Seq<Seq<char>> {
    match model_path(m, array_path) {
        Some(JsonModel::Array(items)) => item_comma_values(items, leaf),
        _ => Seq::empty(),
    }
}

fn comma_values_exec(s: &[char], out: &mut Vec<Vec<char>>)
    ensures views(final(out)@) == views(old(out)@) + comma_values(s@),
{
    let parts = crate::text::split_char_exec(s, ',');
    let ghost pv = views(parts@);
    let ghost start = views(out@);
    let mut i: usize = 0;
    assert(start + trimmed_nonempty(pv.take(0)) =~= start);
    while i < parts.len()
        invariant
            0 <= i <= parts@.len(),
            pv == views(parts@),
            views(out@) == start + trimmed_nonempty(pv.take(i as int)),
        decreases parts@.len() - i,
    {
        assert(pv.take(i + 1).drop_last() =~= pv.take(i as int));
        assert(pv.take(i + 1).last() == parts@[i as int]@);
        let t = crate::text::trim_exec(&parts[i]);
        if t.len() > 0 {
            let ghost prev = out@;
            out.push(t);
            assert(views(out@) =~= views(prev).push(t@));
        }
        i += 1;
    }
    assert(pv.take(parts@.len() as int) =~= pv);
}

pub fn json_array_comma_values(v: &JsonValue, array_path: &[&str], leaf: &[&str]) -> (r: Vec<Vec<char>>)
    ensures views(r@) == array_comma_values(v@, path_views(array_path@), path_views(leaf@)),
{
    let mut r: Vec<Vec<char>> = Vec::new();
    let items = match json_path(v, array_path) {
        Some(x) => match json_array_items(x) {
            Some(items) => items,
            None => return r,
        },
        None => return r,
    };
    let ghost its = crate::json::model_items(items@);
    let ghost lv = path_views(leaf@);
    let mut i: usize = 0;
    while i < items.len()
        invariant
            0 <= i <= items@.len(),
            its == crate::json::model_items(items@),
            lv == path_views(leaf@),
            views(r@) == item_comma_values(its.take(i as int), lv),
        decreases items@.len() - i,
    {
        assert(its.take(i + 1).drop_last() =~= its.take(i as int));
        assert(its.take(i + 1).last() == items@[i as int]@);
        match json_path_str(&items[i], leaf) {
            Some(s) => {
                let sv = chars_of(s.as_str());
                comma_values_exec(&sv, &mut r);
            },
            None => {},
        }
        i += 1;
    }
    assert(its.take(items@.len() as int) =~= its);
    r
}

// ---------------------------------------------------------------------------
// Matching names, services and keywords
// ---------------------------------------------------------------------------

/// Some name, ASCII-lowercased, holds the needle.
pub open spec fn some_name_contains(names: Seq<Seq<char>>, needle: Seq<char>) -> bool {
    exists|j: int| 0 <= j < names.len() && #[trigger] contains(lower(names[j]), needle)
}

/// Some name holds some service, both ASCII-lowercased.
pub open spec fn some_name_holds_service(names: Seq<Seq<char>>, services: Seq<Seq<char>>) -> bool {
    exists|a: int, b: int| 0 <= a < names.len() && 0 <= b < services.len()
        && #[trigger] contains(lower(names[a]), lower(services[b]))
}

/// The text, ASCII-lowercased, holds some service, lowercased too.
pub open spec fn text_holds_service(text: Seq<char>, services: Seq<Seq<char>>) -> bool {
    exists|b: int| 0 <= b < services.len() && #[trigger] contains(lower(text), lower(services[b]))
}

fn some_name_contains_exec(names: &Vec<Vec<char>>, needle: &[char]) -> (r: bool)
    ensures r == some_name_contains(views(names@), needle@),
{
    let mut j: usize = 0;
    while j < names.len()
        invariant
            0 <= j <= names@.len(),
            forall|q: int| 0 <= q < j ==> !#[trigger] contains(lower(views(names@)[q]), needle@),
        decreases names@.len() - j,
    {
        let l = to_lower(&names[j]);
        if contains_exec(&l, needle) {
            assert(contains(lower(views(names@)[j as int]), needle@));
            return true;
        }
        j += 1;
    }
    false
}

fn text_holds_service_exec(text: &[char], services: &Vec<Vec<char>>) -> (r: bool)
    ensures r == text_holds_service(text@, views(services@)),
{
    let lt = to_lower(text);
    let mut b: usize = 0;
    while b < services.len()
        invariant
            0 <= b <= services@.len(),
            lt@ == lower(text@),
            forall|q: int| 0 <= q < b ==> !#[trigger] contains(lower(text@), lower(views(services@)[q])),
        decreases services@.len() - b,
    {
        let ls = to_lower(&services[b]);
        if contains_exec(&lt, &ls) {
            assert(contains(lower(text@), lower(views(services@)[b as int])));
            return true;
        }
        b += 1;
    }
    false
}

fn some_name_holds_service_exec(names: &Vec<Vec<char>>, services: &Vec<Vec<char>>) -> (r: bool)
    ensures r == some_name_holds_service(views(names@), views(services@)),
{
    let mut a: usize = 0;
    while a < names.len()
        invariant
            0 <= a <= names@.len(),
            forall|q: int, b: int| 0 <= q < a && 0 <= b < services@.len() ==>
                !#[trigger] contains(lower(views(names@)[q]), lower(views(services@)[b])),
        decreases names@.len() - a,
    {
        if text_holds_service_exec(&names[a], services) {
            let ghost b = choose|b: int| 0 <= b < views(services@).len()
                && #[trigger] contains(lower(names@[a as int]@), lower(views(services@)[b]));
            assert(contains(lower(views(names@)[a as int]), lower(views(services@)[b])));
            return true;
        }
        assert forall|q: int, b: int| 0 <= q < a + 1 && 0 <= b < services@.len() implies
            !#[trigger] contains(lower(views(names@)[q]), lower(views(services@)[b])) by {
            if q == a {
                assert(!contains(lower(names@[a as int]@), lower(views(services@)[b])));
            }
        }
        a += 1;
    }
    false
}

/// The words that tie a log to a host symptom.
pub open spec fn keyword(i: int) -> Seq<char> {
    if i == 0 { "timeout"@ }
    else if i == 1 { "refused"@ }
    else if i == 2 { "disk"@ }
    else if i == 3 { "memory"@ }
    else if i == 4 { "restart"@ }
    else if i == 5 { "502"@ }
    else if i == 6 { "504"@ }
    else if i == 7 { "redis"@ }
    else { "nginx"@ }
}

/// `shared_keyword`: both texts hold one of the words.
pub open spec fn shared_keyword_spec(left: Seq<char>, right: Seq<char>) -> bool {
    exists|i: int| 0 <= i < 9 && #[trigger] contains(left, keyword(i)) && contains(right, keyword(i))
}

/// The incident words that tie a log search to host diagnostics: timeouts, refused
/// connections, disks, memory, restarts, the gateway errors 502 and 504, Redis and Nginx.
pub open spec fn incident_word(w: Seq<char>) -> bool {
    w == "timeout"@ || w == "refused"@ || w == "disk"@ || w == "memory"@ || w == "restart"@ || w == "502"@
        || w == "504"@ || w == "redis"@ || w == "nginx"@
}

/// Two texts share a keyword exactly when some incident word occurs in both.
pub proof fn law_shared_keyword(left: Seq<char>, right: Seq<char>)
    ensures
        forall|w: Seq<char>| incident_word(w) && #[trigger] contains(left, w) && contains(right, w)
            ==> shared_keyword_spec(left, right),
        shared_keyword_spec(left, right) ==> exists|w: Seq<char>|
            incident_word(w) && #[trigger] contains(left, w) && contains(right, w),
{
    assert forall|w: Seq<char>| incident_word(w) && #[trigger] contains(left, w) && contains(right, w)
        implies shared_keyword_spec(left, right) by {
        if w == "timeout"@ { assert(contains(left, keyword(0)) && contains(right, keyword(0))); }
        else if w == "refused"@ { assert(contains(left, keyword(1)) && contains(right, keyword(1))); }
        else if w == "disk"@ { assert(contains(left, keyword(2)) && contains(right, keyword(2))); }
        else if w == "memory"@ { assert(contains(left, keyword(3)) && contains(right, keyword(3))); }
        else if w == "restart"@ { assert(contains(left, keyword(4)) && contains(right, keyword(4))); }
        else if w == "502"@ { assert(contains(left, keyword(5)) && contains(right, keyword(5))); }
        else if w == "504"@ { assert(contains(left, keyword(6)) && contains(right, keyword(6))); }
        else if w == "redis"@ { assert(contains(left, keyword(7)) && contains(right, keyword(7))); }
        else { assert(contains(left, keyword(8)) && contains(right, keyword(8))); }
    }
    if shared_keyword_spec(left, right) {
        let i = choose|i: int| 0 <= i < 9 && #[trigger] contains(left, keyword(i)) && contains(right, keyword(i));
        assert(incident_word(keyword(i)));
    }
}

fn keyword_exec(i: usize) -> (w: &'static str)
    requires i < 9,
    ensures w@ == keyword(i as int),
{
    if i == 0 { "timeout" }
    else if i == 1 { "refused" }
    else if i == 2 { "disk" }
    else if i == 3 { "memory" }
    else if i == 4 { "restart" }
    else if i == 5 { "502" }
    else if i == 6 { "504" }
    else if i == 7 { "redis" }
    else { "nginx" }
}

pub fn shared_keyword(left: &[char], right: &[char]) -> (r: bool)
    ensures r == shared_keyword_spec(left@, right@),
{
    let mut i: usize = 0;
    while i < 9
        invariant
            0 <= i <= 9,
            forall|j: int| 0 <= j < i ==> !(#[trigger] contains(left@, keyword(j)) && contains(right@, keyword(j))),
        decreases 9 - i,
    {
        let w = chars_of(keyword_exec(i));
        if contains_exec(left, &w) && contains_exec(right, &w) {
            return true;
        }
        i += 1;
    }
    false
}

// ---------------------------------------------------------------------------
// Correlations between two evidence items
// ---------------------------------------------------------------------------

/// The namespace of a Kubernetes evidence document, or `unknown`.
pub open spec fn k8s_namespace(doc: JsonModel) -> Seq<char> {
    match model_path_str(doc, seq!["namespace"@]) {
        Some(n) => n,
        None => "unknown"@,
    }
}

/// The `dataId` of a Nacos evidence document, or the evidence title.
pub open spec fn data_id_or(doc: JsonModel, title: Seq<char>) -> Seq<char> {
    match model_path_str(doc, seq!["dataId"@]) {
        Some(d) => d,
        None => title,
    }
}

/// The service a data id names: its part before the first `.`, ASCII-lowercased.
pub open spec fn service_stem(data_id: Seq<char>) -> Seq<char> {
    lower(split_char(data_id, '.')[0])
}

pub open spec fn nacos_detail(namespace: Seq<char>, data_id: Seq<char>) -> Seq<char> {
    "Events in namespace "@ + namespace + " mention workloads related to "@ + data_id
        + ", which also appears in the saved Nacos drift evidence."@
}

pub open spec fn overlap_detail(namespace: Seq<char>) -> Seq<char> {
    "Saved Kubernetes events and log evidence reference overlapping workloads in namespace "@ + namespace + "."@
}

pub open spec fn host_detail() -> Seq<char> {
    "Saved log evidence and SSH diagnostics point at the same service path or runtime symptom."@
}

/// The blob of a log evidence item that the copilot matches with host diagnostics: its
/// sanitized summary and the messages of its entries, lowercased.
pub open spec fn log_blob(l: EvidenceModel) -> Seq<char> {
    lower(crate::hardening::sanitize_and_mask(l.summary)) + " "@
        + lower(crate::text::join(array_comma_values(crate::json::parse_or_empty(l.content_json),
            seq!["entries"@], seq!["message"@]), " "@))
}

/// The blob of an SSH evidence item: its sanitized summary and its document, lowercased.
pub open spec fn ssh_blob(s: EvidenceModel) -> Seq<char> {
    lower(crate::hardening::sanitize_and_mask(s.summary)) + " "@ + lower(s.content_json)
}

pub open spec fn corr(id: Seq<char>, title: Seq<char>, detail: Seq<char>, confidence: Seq<char>, a: Seq<char>, b: Seq<char>)
    -> CorrelationModel
{
    CorrelationModel { id, title, detail, confidence, linked_evidence_ids: seq![a, b] }
}

/// The correlation of two evidence items, by kind of pair:
/// 0, 1, 2 for the investigation view (Kubernetes with Nacos, Kubernetes with logs, logs
/// with SSH), 3, 4, 5 for the copilot's context (the same pairs, matched as it matches them).
pub open spec fn pair_report(kind: int, a: EvidenceModel, b: EvidenceModel) -> Option<CorrelationModel> {
    let id = pair_id(a.id, b.id);
    if kind == 0 {
        let kdoc = parse_or_null(a.content_json);
        let ns = k8s_namespace(kdoc);
        let names = array_strings(kdoc, seq!["events"@], seq!["name"@]);
        let data_id = data_id_or(parse_or_null(b.content_json), b.title);
        if some_name_contains(names, service_stem(data_id)) || contains(lower(b.summary), lower(ns)) {
            Some(corr(id, "Kubernetes events align with config drift"@, nacos_detail(ns, data_id), "medium"@, a.id, b.id))
        } else {
            None
        }
    } else if kind == 1 {
        let kdoc = parse_or_null(a.content_json);
        let names = array_strings(kdoc, seq!["events"@], seq!["name"@]);
        let services = array_strings(parse_or_null(b.content_json), seq!["entries"@], seq!["service"@]);
        if some_name_holds_service(names, services) {
            Some(corr(id, "Kubernetes warnings overlap with log services"@, overlap_detail(k8s_namespace(kdoc)), "high"@, a.id, b.id))
        } else {
            None
        }
    } else if kind == 2 {
        let services = array_strings(parse_or_null(a.content_json), seq!["entries"@], seq!["service"@]);
        let summary = match model_path_str(parse_or_null(b.content_json), seq!["summaryHeadline"@]) {
            Some(x) => x,
            None => b.summary,
        };
        if text_holds_service(summary, services) {
            Some(corr(id, "Application logs align with host diagnostics"@, host_detail(), "medium"@, a.id, b.id))
        } else {
            None
        }
    } else if kind == 3 {
        let kdoc = crate::json::parse_or_empty(a.content_json);
        let ns = k8s_namespace(kdoc);
        let names = array_comma_values(kdoc, seq!["events"@], seq!["name"@]);
        let data_id = data_id_or(crate::json::parse_or_empty(b.content_json), b.title);
        if some_name_contains(names, service_stem(data_id)) {
            Some(corr(id, "Kubernetes events align with "@ + data_id + " drift"@, nacos_detail(ns, data_id), "medium"@, a.id, b.id))
        } else {
            None
        }
    } else if kind == 4 {
        let kdoc = crate::json::parse_or_empty(a.content_json);
        let names = array_comma_values(kdoc, seq!["events"@], seq!["name"@]);
        let services = array_comma_values(crate::json::parse_or_empty(b.content_json), seq!["clusters"@], seq!["services"@]);
        if some_name_holds_service(names, services) {
            Some(corr(id, "Kubernetes warnings align with "@ + b.title, overlap_detail(k8s_namespace(kdoc)), "high"@, a.id, b.id))
        } else {
            None
        }
    } else {
        if shared_keyword_spec(log_blob(a), ssh_blob(b)) {
            Some(corr(id, a.title + " aligns with host diagnostics"@, host_detail(), "medium"@, a.id, b.id))
        } else {
            None
        }
    }
}

fn first_piece_lower(s: &[char]) -> (r: Vec<char>)
    ensures r@ == service_stem(s@),
{
    let parts = crate::text::split_char_exec(s, '.');
    proof { crate::text::lemma_split_char_nonempty(s@, '.'); }
    assert(views(parts@)[0] == parts@[0]@);
    to_lower(&parts[0])
}

fn lower_of(s: &str) -> (r: Vec<char>)
    ensures r@ == lower(s@),
{
    let v = chars_of(s);
    to_lower(&v)
}

fn doc_of(kind: u8, text: &str) -> (r: JsonValue)
    ensures r@ == if kind < 3 { parse_or_null(text@) } else { crate::json::parse_or_empty(text@) },
{
    if kind < 3 { parse_json_or_null(text) } else { crate::json::parse_json_or_empty(text) }
}

fn names_of(kind: u8, doc: &JsonValue) -> (r: Vec<Vec<char>>)
    ensures
        views(r@) == if kind < 3 {
            array_strings(doc@, seq!["events"@], seq!["name"@])
        } else {
            array_comma_values(doc@, seq!["events"@], seq!["name"@])
        },
{
    let ap: [&str; 1] = ["events"];
    let leaf: [&str; 1] = ["name"];
    assert(path_views(ap@) =~= seq!["events"@]);
    assert(path_views(leaf@) =~= seq!["name"@]);
    if kind < 3 { json_array_strings(doc, &ap, &leaf) } else { json_array_comma_values(doc, &ap, &leaf) }
}

fn namespace_of(doc: &JsonValue) -> (r: Vec<char>)
    ensures r@ == k8s_namespace(doc@),
{
    let p: [&str; 1] = ["namespace"];
    assert(path_views(p@) =~= seq!["namespace"@]);
    match json_path_str(doc, &p) {
        Some(n) => chars_of(n.as_str()),
        None => chars_of("unknown"),
    }
}

fn strings_at(doc: &JsonValue, array_key: &str, leaf_key: &str, comma: bool) -> (r: Vec<Vec<char>>)
    ensures
        views(r@) == if comma {
            array_comma_values(doc@, seq![array_key@], seq![leaf_key@])
        } else {
            array_strings(doc@, seq![array_key@], seq![leaf_key@])
        },
{
    let ap: [&str; 1] = [array_key];
    let leaf: [&str; 1] = [leaf_key];
    assert(path_views(ap@) =~= seq![array_key@]);
    assert(path_views(leaf@) =~= seq![leaf_key@]);
    if comma { json_array_comma_values(doc, &ap, &leaf) } else { json_array_strings(doc, &ap, &leaf) }
}

fn string_at(doc: &JsonValue, key: &str) -> (r: Option<Vec<char>>)
    ensures
        match r {
            Some(s) => model_path_str(doc@, seq![key@]) == Some(s@),
            None => model_path_str(doc@, seq![key@]) is None,
        },
{
    let p: [&str; 1] = [key];
    assert(path_views(p@) =~= seq![key@]);
    match json_path_str(doc, &p) {
        Some(s) => Some(chars_of(s.as_str())),
        None => None,
    }
}

/// The correlation of two evidence items of a kind of pair (see `pair_report`).
pub fn pair_report_exec(kind: u8, a: &InvestigationEvidence, b: &InvestigationEvidence) -> (r: Option<InvestigationCorrelation>)
    requires kind < 6,
    ensures
        match r {
            Some(c) => pair_report(kind as int, a@, b@) == Some(c@),
            None => pair_report(kind as int, a@, b@) is None,
        },
{
    let id = pair_id_exec(a.id.as_str(), b.id.as_str());
    if kind == 0 || kind == 3 {
        let kdoc = doc_of(kind, a.content_json.as_str());
        let ns = namespace_of(&kdoc);
        let names = names_of(kind, &kdoc);
        let ndoc = doc_of(kind, b.content_json.as_str());
        let data_id = match string_at(&ndoc, "dataId") {
            Some(d) => d,
            None => chars_of(b.title.as_str()),
        };
        let stem = first_piece_lower(&data_id);
        let matched = some_name_contains_exec(&names, &stem)
            || (kind == 0 && {
                let ls = lower_of(b.summary.as_str());
                let lns = to_lower(&ns);
                contains_exec(&ls, &lns)
            });
        if !matched {
            return None;
        }
        let title = if kind == 0 {
            chars_of("Kubernetes events align with config drift")
        } else {
            let mut t = chars_of("Kubernetes events align with ");
            crate::text::push_chars(&mut t, &data_id);
            push_str(&mut t, " drift");
            t
        };
        let mut detail = chars_of("Events in namespace ");
        crate::text::push_chars(&mut detail, &ns);
        push_str(&mut detail, " mention workloads related to ");
        crate::text::push_chars(&mut detail, &data_id);
        push_str(&mut detail, ", which also appears in the saved Nacos drift evidence.");
        Some(make_correlation(id, title, detail, "medium", a.id.as_str(), b.id.as_str()))
    } else if kind == 1 || kind == 4 {
        let kdoc = doc_of(kind, a.content_json.as_str());
        let names = names_of(kind, &kdoc);
        let ldoc = doc_of(kind, b.content_json.as_str());
        let services = if kind == 1 {
            strings_at(&ldoc, "entries", "service", false)
        } else {
            strings_at(&ldoc, "clusters", "services", true)
        };
        if !some_name_holds_service_exec(&names, &services) {
            return None;
        }
        let ns = namespace_of(&kdoc);
        let title = if kind == 1 {
            chars_of("Kubernetes warnings overlap with log services")
        } else {
            let mut t = chars_of("Kubernetes warnings align with ");
            push_str(&mut t, b.title.as_str());
            t
        };
        let mut detail = chars_of("Saved Kubernetes events and log evidence reference overlapping workloads in namespace ");
        crate::text::push_chars(&mut detail, &ns);
        push_str(&mut detail, ".");
        Some(make_correlation(id, title, detail, "high", a.id.as_str(), b.id.as_str()))
    } else if kind == 2 {
        let ldoc = doc_of(kind, a.content_json.as_str());
        let services = strings_at(&ldoc, "entries", "service", false);
        let sdoc = doc_of(kind, b.content_json.as_str());
        let summary = match string_at(&sdoc, "summaryHeadline") {
            Some(x) => x,
            None => chars_of(b.summary.as_str()),
        };
        if !text_holds_service_exec(&summary, &services) {
            return None;
        }
        Some(make_correlation(id, chars_of("Application logs align with host diagnostics"),
            chars_of("Saved log evidence and SSH diagnostics point at the same service path or runtime symptom."),
            "medium", a.id.as_str(), b.id.as_str()))
    } else {
        let ldoc = doc_of(kind, a.content_json.as_str());
        let summary = crate::hardening::sanitize_and_mask_text(a.summary.as_str());
        let mut blob = lower_of(summary.as_str());
        push_str(&mut blob, " ");
        let messages = strings_at(&ldoc, "entries", "message", true);
        let joined = crate::text::join_exec(&messages, " ");
        let lj = to_lower(&joined);
        crate::text::push_chars(&mut blob, &lj);
        let ssh_summary = crate::hardening::sanitize_and_mask_text(b.summary.as_str());
        let mut other = lower_of(ssh_summary.as_str());
        push_str(&mut other, " ");
        let lc = lower_of(b.content_json.as_str());
        crate::text::push_chars(&mut other, &lc);
        assert(blob@ =~= log_blob(a@));
        assert(other@ =~= ssh_blob(b@));
        if !shared_keyword(&blob, &other) {
            return None;
        }
        let mut title = chars_of(a.title.as_str());
        push_str(&mut title, " aligns with host diagnostics");
        Some(make_correlation(id, title,
            chars_of("Saved log evidence and SSH diagnostics point at the same service path or runtime symptom."),
            "medium", a.id.as_str(), b.id.as_str()))
    }
}

pub open spec fn opt_seq(o: Option<CorrelationModel>) -> Seq<CorrelationModel> {
    match o {
        Some(c) => seq![c],
        None => Seq::empty(),
    }
}

/// The correlations of one item with each of `bs`, in their order.
pub open spec fn pair_row(kind: int, a: EvidenceModel, bs: Seq<EvidenceModel>) -> Seq<CorrelationModel>
    decreases bs.len(),
{
    if bs.len() == 0 {
        Seq::empty()
    } else {
        pair_row(kind, a, bs.drop_last()) + opt_seq(pair_report(kind, a, bs.last()))
    }
}

/// The correlations of each of `as_` with each of `bs`, row by row.
pub open spec fn pair_rows(kind: int, as_: Seq<EvidenceModel>, bs: Seq<EvidenceModel>) -> Seq<CorrelationModel>
    decreases as_.len(),
{
    if as_.len() == 0 {
        Seq::empty()
    } else {
        pair_rows(kind, as_.drop_last(), bs) + pair_row(kind, as_.last(), bs)
    }
}

pub fn append_row(kind: u8, a: &InvestigationEvidence, bs: &Vec<InvestigationEvidence>, out: &mut Vec<InvestigationCorrelation>)
    requires kind < 6,
    ensures
        correlation_models(final(out)@) == correlation_models(old(out)@) + pair_row(kind as int, a@, evidence_models(bs@)),
{
    let ghost start = correlation_models(out@);
    let ghost bm = evidence_models(bs@);
    let mut j: usize = 0;
    assert(start + pair_row(kind as int, a@, bm.take(0)) =~= start);
    while j < bs.len()
        invariant
            kind < 6,
            0 <= j <= bs@.len(),
            bm == evidence_models(bs@),
            correlation_models(out@) == start + pair_row(kind as int, a@, bm.take(j as int)),
        decreases bs@.len() - j,
    {
        assert(bm.take(j + 1).drop_last() =~= bm.take(j as int));
        assert(bm.take(j + 1).last() == bs@[j as int]@);
        let ghost before = correlation_models(out@);
        match pair_report_exec(kind, a, &bs[j]) {
            Some(c) => {
                out.push(c);
                assert(correlation_models(out@) =~= before.push(c@));
                assert(correlation_models(out@) =~= start + pair_row(kind as int, a@, bm.take(j + 1)));
            },
            None => {
                assert(correlation_models(out@) =~= start + pair_row(kind as int, a@, bm.take(j + 1)));
            },
        }
        j += 1;
    }
    assert(bm.take(bs@.len() as int) =~= bm);
}

pub fn append_rows(kind: u8, as_: &Vec<InvestigationEvidence>, bs: &Vec<InvestigationEvidence>, out: &mut Vec<InvestigationCorrelation>)
    requires kind < 6,
    ensures
        correlation_models(final(out)@) == correlation_models(old(out)@)
            + pair_rows(kind as int, evidence_models(as_@), evidence_models(bs@)),
{
    let ghost start = correlation_models(out@);
    let ghost am = evidence_models(as_@);
    let mut i: usize = 0;
    assert(start + pair_rows(kind as int, am.take(0), evidence_models(bs@)) =~= start);
    while i < as_.len()
        invariant
            kind < 6,
            0 <= i <= as_@.len(),
            am == evidence_models(as_@),
            correlation_models(out@) == start + pair_rows(kind as int, am.take(i as int), evidence_models(bs@)),
        decreases as_@.len() - i,
    {
        assert(am.take(i + 1).drop_last() =~= am.take(i as int));
        assert(am.take(i + 1).last() == as_@[i as int]@);
        append_row(kind, &as_[i], bs, out);
        assert(correlation_models(out@) =~= start + pair_rows(kind as int, am.take(i + 1), evidence_models(bs@)));
        i += 1;
    }
    assert(am.take(as_@.len() as int) =~= am);
}

/// `dedup_by` on ids: a correlation whose id repeats the one kept just before it is dropped.
pub open spec fn dedup_ids(s: Seq<CorrelationModel>) -> Seq<CorrelationModel>
    decreases s.len(),
{
    if s.len() == 0 {
        Seq::empty()
    } else {
        let p = dedup_ids(s.drop_last());
        if p.len() > 0 && p.last().id == s.last().id { p } else { p.push(s.last()) }
    }
}

fn dedup_by_id(items: Vec<InvestigationCorrelation>) -> (r: Vec<InvestigationCorrelation>)
    ensures correlation_models(r@) == dedup_ids(correlation_models(items@)),
{
    let ghost m = correlation_models(items@);
    let n = items.len();
    let mut r: Vec<InvestigationCorrelation> = Vec::new();
    let mut rest = items;
    let mut taken: Vec<InvestigationCorrelation> = Vec::new();
    // Items are moved out from the back; `taken` holds them reversed.
    while rest.len() > 0
        invariant
            correlation_models(rest@) + correlation_models(taken@).reverse() == m,
        decreases rest@.len(),
    {
        let ghost before_rest = correlation_models(rest@);
        let ghost before_taken = correlation_models(taken@);
        let x = rest.pop().unwrap();
        taken.push(x);
        assert(correlation_models(rest@) =~= before_rest.drop_last());
        assert(correlation_models(taken@) =~= before_taken.push(x@));
        assert(before_taken.push(x@).reverse() =~= seq![x@] + before_taken.reverse());
        assert(correlation_models(rest@) + correlation_models(taken@).reverse() =~= m);
    }
    assert(correlation_models(taken@).reverse() =~= m);
    let mut i: usize = 0;
    while taken.len() > 0
        invariant
            correlation_models(taken@).reverse() == m.skip(i as int),
            i <= m.len(),
            m.len() == n,
            correlation_models(r@) == dedup_ids(m.take(i as int)),
        decreases taken@.len(),
    {
        let ghost bt = correlation_models(taken@);
        let x = taken.pop().unwrap();
        proof {
            assert(bt.reverse()[0] == x@);
            assert(correlation_models(taken@) =~= bt.drop_last());
            assert(correlation_models(taken@).reverse() =~= bt.reverse().drop_first());
            assert(m.skip(i as int)[0] == m[i as int]);
            assert(m.skip(i as int).drop_first() =~= m.skip(i + 1));
            assert(m.take(i + 1).drop_last() =~= m.take(i as int));
            assert(m.take(i + 1).last() == x@);
        }
        let keep = r.len() == 0 || !crate::text::str_eq(r[r.len() - 1].id.as_str(), x.id.as_str());
        if keep {
            let ghost before = correlation_models(r@);
            r.push(x);
            assert(correlation_models(r@) =~= before.push(m[i as int]));
        } else {
            assert(correlation_models(r@).last() == correlation_models(r@)[r@.len() - 1]);
        }
        i += 1;
    }
    assert(m.take(i as int) =~= m);
    r
}

/// What `build_correlations` returns: the correlations of logs with SSH diagnostics, of
/// Kubernetes events with Nacos drift, and of Kubernetes events with logs, in that order
/// (the order of their titles), each in the order of the evidence; a correlation whose id
/// repeats the one kept just before it is dropped.
pub open spec fn correlations_spec(ev: Seq<EvidenceModel>) -> Seq<CorrelationModel> {
    let ks = of_type(ev, "kubernetes_events"@);
    let ns = of_type(ev, "nacos_diff"@);
    let ls = of_type(ev, "log_search"@);
    let ss = of_type(ev, "ssh_diagnostics"@);
    dedup_ids(pair_rows(2, ls, ss) + pair_rows(0, ks, ns) + pair_rows(1, ks, ls))
}

pub fn build_correlations(evidence: &[InvestigationEvidence]) -> (r: Vec<InvestigationCorrelation>)
    ensures correlation_models(r@) == correlations_spec(evidence_models(evidence@)),
{
    let kubernetes = select_type(evidence, "kubernetes_events");
    let nacos = select_type(evidence, "nacos_diff");
    let logs = select_type(evidence, "log_search");
    let ssh = select_type(evidence, "ssh_diagnostics");
    let mut all: Vec<InvestigationCorrelation> = Vec::new();
    append_rows(2, &logs, &ssh, &mut all);
    append_rows(0, &kubernetes, &nacos, &mut all);
    append_rows(1, &kubernetes, &logs, &mut all);
    assert(correlation_models(Seq::<InvestigationCorrelation>::empty()) =~= Seq::empty());
    dedup_by_id(all)
}

// ---------------------------------------------------------------------------
// Timeline
// ---------------------------------------------------------------------------

/// A timeline event, by the text of its fields.
pub struct TimelineModel {
    pub id: Seq<char>,
    pub timestamp: Seq<char>,
    pub title: Seq<char>,
    pub detail: Seq<char>,
    pub source_type: Seq<char>,
}

impl View for crate::models::InvestigationTimelineEvent {
    type V = TimelineModel;

    open spec fn view(&self) -> TimelineModel {
        TimelineModel {
            id: self.id@,
            timestamp: self.timestamp@,
            title: self.title@,
            detail: self.detail@,
            source_type: self.source_type@,
        }
    }
}

pub open spec fn timeline_models(s: Seq<crate::models::InvestigationTimelineEvent>) -> Seq<TimelineModel> {
    Seq::new(s.len(), |i: int| s[i]@)
}

/// The event of an evidence item: its creation time, title, summary and type.
pub open spec fn event_of(e: EvidenceModel) -> TimelineModel {
    TimelineModel { id: e.id, timestamp: e.created_at, title: e.title, detail: e.summary, source_type: e.evidence_type }
}

/// Inserts an event after every event whose timestamp is not later.
pub open spec fn insert_by_time(s: Seq<TimelineModel>, x: TimelineModel) -> Seq<TimelineModel>
    decreases s.len(),
{
    if s.len() == 0 {
        seq![x]
    } else if crate::text::text_less(x.timestamp, s.last().timestamp) {
        insert_by_time(s.drop_last(), x).push(s.last())
    } else {
        s.push(x)
    }
}

/// The events ordered by timestamp, events with equal timestamps keeping their order
/// (what a stable sort by timestamp gives).
pub open spec fn sort_by_time(s: Seq<TimelineModel>) -> Seq<TimelineModel>
    decreases s.len(),
{
    if s.len() == 0 {
        Seq::empty()
    } else {
        insert_by_time(sort_by_time(s.drop_last()), s.last())
    }
}

/// What `build_timeline` returns: the evidence items as events, sorted by timestamp.
pub open spec fn timeline_spec(ev: Seq<EvidenceModel>) -> Seq<TimelineModel> {
    sort_by_time(Seq::new(ev.len(), |i: int| event_of(ev[i])))
}

/// Every event comes no earlier than the ones before it.
pub open spec fn time_sorted(s: Seq<TimelineModel>) -> bool {
    forall|i: int, j: int| 0 <= i < j < s.len() ==> !crate::text::text_less(s[j].timestamp, s[i].timestamp)
}

proof fn lemma_insert_keeps_sorted(s: Seq<TimelineModel>, x: TimelineModel)
    requires time_sorted(s),
    ensures
        time_sorted(insert_by_time(s, x)),
        insert_by_time(s, x).len() == s.len() + 1,
        forall|k: int| 0 <= k < s.len() + 1 ==>
            (#[trigger] insert_by_time(s, x)[k] == x || s.contains(insert_by_time(s, x)[k])),
    decreases s.len(),
{
    if s.len() == 0 {
        assert(insert_by_time(s, x) =~= seq![x]);
    } else {
        let last = s.last();
        let d = s.drop_last();
        if crate::text::text_less(x.timestamp, last.timestamp) {
            assert(time_sorted(d)) by {
                assert forall|i: int, j: int| 0 <= i < j < d.len() implies
                    !crate::text::text_less(d[j].timestamp, d[i].timestamp) by {
                    assert(d[i] == s[i] && d[j] == s[j]);
                }
            }
            lemma_insert_keeps_sorted(d, x);
            let r1 = insert_by_time(d, x);
            let r = r1.push(last);
            assert(insert_by_time(s, x) == r);
            assert forall|k: int| 0 <= k < r1.len() implies !crate::text::text_less(last.timestamp, #[trigger] r1[k].timestamp) by {
                if r1[k] == x {
                    crate::text::lemma_text_less_asymmetric(x.timestamp, last.timestamp);
                } else {
                    assert(d.contains(r1[k]));
                    let j = choose|j: int| 0 <= j < d.len() && d[j] == r1[k];
                    assert(s[j] == d[j]);
                    assert(s[s.len() - 1] == last);
                }
            }
            assert forall|i: int, j: int| 0 <= i < j < r.len() implies
                !crate::text::text_less(r[j].timestamp, r[i].timestamp) by {
                if j < r1.len() {
                    assert(r[i] == r1[i] && r[j] == r1[j]);
                } else {
                    assert(r[i] == r1[i]);
                }
            }
            assert forall|k: int| 0 <= k < s.len() + 1 implies
                (#[trigger] r[k] == x || s.contains(r[k])) by {
                if k < r1.len() {
                    assert(r[k] == r1[k]);
                    if r1[k] != x {
                        assert(d.contains(r1[k]));
                        let j = choose|j: int| 0 <= j < d.len() && d[j] == r1[k];
                        assert(s[j] == d[j]);
                    }
                } else {
                    assert(r[k] == last);
                    assert(s[s.len() - 1] == last);
                }
            }
        } else {
            let r = s.push(x);
            assert(insert_by_time(s, x) == r);
            assert forall|i: int, j: int| 0 <= i < j < r.len() implies
                !crate::text::text_less(r[j].timestamp, r[i].timestamp) by {
                if j < s.len() {
                    assert(r[i] == s[i] && r[j] == s[j]);
                } else {
                    assert(r[i] == s[i] && r[j] == x);
                    if crate::text::text_less(x.timestamp, s[i].timestamp) {
                        if i < s.len() - 1 {
                            assert(!crate::text::text_less(s[s.len() - 1].timestamp, s[i].timestamp));
                            if s[i].timestamp != last.timestamp {
                                crate::text::lemma_text_less_total(s[i].timestamp, last.timestamp);
                                crate::text::lemma_text_less_transitive(x.timestamp, s[i].timestamp, last.timestamp);
                            }
                        }
                    }
                }
            }
            assert forall|k: int| 0 <= k < s.len() + 1 implies
                (#[trigger] r[k] == x || s.contains(r[k])) by {
                if k < s.len() {
                    assert(r[k] == s[k]);
                }
            }
        }
    }
}

proof fn lemma_sort_by_time_sorted(s: Seq<TimelineModel>)
    ensures time_sorted(sort_by_time(s)),
    decreases s.len(),
{
    if s.len() > 0 {
        lemma_sort_by_time_sorted(s.drop_last());
        lemma_insert_keeps_sorted(sort_by_time(s.drop_last()), s.last());
    }
}

/// The timeline of an investigation runs in time order.
pub proof fn law_timeline_in_time_order(ev: Seq<EvidenceModel>)
    ensures time_sorted(timeline_spec(ev)),
{
    lemma_sort_by_time_sorted(Seq::new(ev.len(), |i: int| event_of(ev[i])));
}

proof fn lemma_insert_at(s: Seq<TimelineModel>, x: TimelineModel, p: int)
    requires
        0 <= p <= s.len(),
        forall|q: int| p <= q < s.len() ==> crate::text::text_less(x.timestamp, #[trigger] s[q].timestamp),
        p == 0 || !crate::text::text_less(x.timestamp, s[p - 1].timestamp),
    ensures insert_by_time(s, x) == s.insert(p, x),
    decreases s.len(),
{
    if s.len() == 0 {
        assert(s.insert(p, x) =~= seq![x]);
    } else if p == s.len() {
        assert(s.insert(p, x) =~= s.push(x));
    } else {
        assert(crate::text::text_less(x.timestamp, s[s.len() - 1].timestamp));
        let d = s.drop_last();
        assert forall|q: int| p <= q < d.len() implies crate::text::text_less(x.timestamp, #[trigger] d[q].timestamp) by {
            assert(d[q] == s[q]);
        }
        if p > 0 {
            assert(d[p - 1] == s[p - 1]);
        }
        lemma_insert_at(d, x, p);
        assert(d.insert(p, x).push(s.last()) =~= s.insert(p, x));
    }
}

fn event_exec(e: &InvestigationEvidence) -> (r: crate::models::InvestigationTimelineEvent)
    ensures r@ == event_of(e@),
{
    crate::models::InvestigationTimelineEvent {
        id: copy_string(&e.id),
        timestamp: copy_string(&e.created_at),
        title: copy_string(&e.title),
        detail: copy_string(&e.summary),
        source_type: copy_string(&e.evidence_type),
    }
}

/// Whether the timestamp comes before that of the event just before position `p`.
fn earlier_than_at(out: &Vec<crate::models::InvestigationTimelineEvent>, p: usize, ts: &[char]) -> (r: bool)
    requires p <= out@.len(),
    ensures r == (p > 0 && crate::text::text_less(ts@, timeline_models(out@)[p - 1].timestamp)),
{
    if p == 0 {
        return false;
    }
    let prev_ts = chars_of(out[p - 1].timestamp.as_str());
    crate::text::text_less_exec(ts, &prev_ts)
}

/// `build_timeline`: the events of the evidence, sorted by timestamp.
pub fn build_timeline(evidence: &[InvestigationEvidence]) -> (r: Vec<crate::models::InvestigationTimelineEvent>)
    ensures timeline_models(r@) == timeline_spec(evidence_models(evidence@)),
{
    let ghost events = Seq::new(evidence@.len(), |i: int| event_of(evidence@[i]@));
    let mut out: Vec<crate::models::InvestigationTimelineEvent> = Vec::new();
    let mut i: usize = 0;
    assert(timeline_models(out@) =~= sort_by_time(events.take(0)));
    while i < evidence.len()
        invariant
            0 <= i <= evidence@.len(),
            events == Seq::new(evidence@.len(), |i: int| event_of(evidence@[i]@)),
            timeline_models(out@) == sort_by_time(events.take(i as int)),
        decreases evidence@.len() - i,
    {
        let x = event_exec(&evidence[i]);
        let xs = chars_of(x.timestamp.as_str());
        let ghost before = timeline_models(out@);
        let mut p: usize = out.len();
        let mut moving = earlier_than_at(&out, p, &xs);
        while moving
            invariant
                0 <= p <= out@.len(),
                xs@ == x@.timestamp,
                before == timeline_models(out@),
                moving == (p > 0 && crate::text::text_less(xs@, before[p - 1].timestamp)),
                forall|q: int| p <= q < out@.len() ==> crate::text::text_less(x@.timestamp, #[trigger] before[q].timestamp),
            decreases p,
        {
            p -= 1;
            moving = earlier_than_at(&out, p, &xs);
        }
        proof {
            lemma_insert_at(before, x@, p as int);
        }
        out.insert(p, x);
        proof {
            assert(timeline_models(out@) =~= before.insert(p as int, x@));
            assert(events.take(i + 1).drop_last() =~= events.take(i as int));
            assert(events.take(i + 1).last() == x@);
        }
        i += 1;
    }
    assert(events.take(evidence@.len() as int) =~= events);
    assert(events =~= Seq::new(evidence_models(evidence@).len(), |i: int| event_of(evidence_models(evidence@)[i])));
    out
}

// ---------------------------------------------------------------------------
// Reports
// ---------------------------------------------------------------------------

/// The HTML form of one character.
pub open spec fn escape_char(c: char) -> Seq<char> {
    if c == '&' {
        "&amp;"@
    } else if c == '<' {
        "&lt;"@
    } else if c == '>' {
        "&gt;"@
    } else if c == '"' {
        "&quot;"@
    } else if c == '\'' {
        "&#39;"@
    } else {
        seq![c]
    }
}

/// `escape_html`: `&`, `<`, `>`, `"` and `'` replaced by their entities.
pub open spec fn escape_html_spec(s: Seq<char>) -> Seq<char>
    decreases s.len(),
{
    if s.len() == 0 {
        Seq::empty()
    } else {
        escape_html_spec(s.drop_last()) + escape_char(s.last())
    }
}

pub fn escape_html(input: &str) -> (r: Vec<char>)
    ensures r@ == escape_html_spec(input@),
{
    let s = chars_of(input);
    let mut out: Vec<char> = Vec::new();
    let mut i: usize = 0;
    while i < s.len()
        invariant
            0 <= i <= s@.len(),
            s@ == input@,
            out@ == escape_html_spec(s@.take(i as int)),
        decreases s@.len() - i,
    {
        assert(s@.take(i + 1).drop_last() =~= s@.take(i as int));
        let c = s[i];
        if c == '&' {
            push_str(&mut out, "&amp;");
        } else if c == '<' {
            push_str(&mut out, "&lt;");
        } else if c == '>' {
            push_str(&mut out, "&gt;");
        } else if c == '"' {
            push_str(&mut out, "&quot;");
        } else if c == '\'' {
            push_str(&mut out, "&#39;");
        } else {
            out.push(c);
        }
        i += 1;
    }
    assert(s@.take(s@.len() as int) =~= s@);
    out
}

/// A character that HTML reads as markup.
pub open spec fn is_markup_char(c: char) -> bool {
    c == '<' || c == '>' || c == '"' || c == '\''
}

/// Escaped text holds no character that HTML would read as markup or as the end of an
/// attribute.
pub proof fn law_escaped_text_has_no_markup(s: Seq<char>)
    ensures forall|i: int| 0 <= i < escape_html_spec(s).len() ==> !is_markup_char(#[trigger] escape_html_spec(s)[i]),
    decreases s.len(),
{
    if s.len() > 0 {
        law_escaped_text_has_no_markup(s.drop_last());
        let p = escape_html_spec(s.drop_last());
        let e = escape_char(s.last());
        reveal_strlit("&amp;");
        reveal_strlit("&lt;");
        reveal_strlit("&gt;");
        reveal_strlit("&quot;");
        reveal_strlit("&#39;");
        assert forall|i: int| 0 <= i < (p + e).len() implies !is_markup_char(#[trigger] (p + e)[i]) by {
            if i >= p.len() {
                assert((p + e)[i] == e[i - p.len()]);
            } else {
                assert((p + e)[i] == p[i]);
            }
        }
    }
}

/// The text that HTML reads from escaped text: each of the entities `&amp;`, `&lt;`,
/// `&gt;`, `&quot;` and `&#39;` read as its character, every other character as itself.
pub open spec fn unescape_html(s: Seq<char>) -> Seq<char>
    decreases s.len(),
{
    if s.len() == 0 {
        s
    } else if crate::text::starts_with(s, "&amp;"@) && "&amp;"@.len() > 0 {
        seq!['&'] + unescape_html(s.skip("&amp;"@.len() as int))
    } else if crate::text::starts_with(s, "&lt;"@) && "&lt;"@.len() > 0 {
        seq!['<'] + unescape_html(s.skip("&lt;"@.len() as int))
    } else if crate::text::starts_with(s, "&gt;"@) && "&gt;"@.len() > 0 {
        seq!['>'] + unescape_html(s.skip("&gt;"@.len() as int))
    } else if crate::text::starts_with(s, "&quot;"@) && "&quot;"@.len() > 0 {
        seq!['"'] + unescape_html(s.skip("&quot;"@.len() as int))
    } else if crate::text::starts_with(s, "&#39;"@) && "&#39;"@.len() > 0 {
        seq!['\''] + unescape_html(s.skip("&#39;"@.len() as int))
    } else {
        seq![s[0]] + unescape_html(s.skip(1))
    }
}

proof fn lemma_escape_concat(a: Seq<char>, b: Seq<char>)
    ensures escape_html_spec(a + b) == escape_html_spec(a) + escape_html_spec(b),
    decreases b.len(),
{
    if b.len() == 0 {
        assert(a + b =~= a);
        assert(escape_html_spec(a) + escape_html_spec(b) =~= escape_html_spec(a));
    } else {
        assert((a + b).drop_last() =~= a + b.drop_last());
        lemma_escape_concat(a, b.drop_last());
        assert(escape_html_spec(a + b) =~= escape_html_spec(a) + escape_html_spec(b));
    }
}

/// Reading one escaped character and then the rest.
proof fn lemma_unescape_char(c: char, x: Seq<char>)
    ensures unescape_html(escape_char(c) + x) == seq![c] + unescape_html(x),
{
    reveal_strlit("&amp;");
    reveal_strlit("&lt;");
    reveal_strlit("&gt;");
    reveal_strlit("&quot;");
    reveal_strlit("&#39;");
    let e = escape_char(c);
    let y = e + x;
    assert(y.len() > 0);
    if c == '&' {
        assert(y.take(5) =~= "&amp;"@);
        assert(y.skip(5) =~= x);
    } else if c == '<' {
        assert(y[1] == 'l');
        assert(!crate::text::starts_with(y, "&amp;"@)) by {
            if crate::text::starts_with(y, "&amp;"@) { assert(y.take(5)[1] == 'a'); }
        }
        assert(y.take(4) =~= "&lt;"@);
        assert(y.skip(4) =~= x);
    } else if c == '>' {
        assert(y[1] == 'g');
        assert(!crate::text::starts_with(y, "&amp;"@)) by {
            if crate::text::starts_with(y, "&amp;"@) { assert(y.take(5)[1] == 'a'); }
        }
        assert(!crate::text::starts_with(y, "&lt;"@)) by {
            if crate::text::starts_with(y, "&lt;"@) { assert(y.take(4)[1] == 'l'); }
        }
        assert(y.take(4) =~= "&gt;"@);
        assert(y.skip(4) =~= x);
    } else if c == '"' {
        assert(y[1] == 'q');
        assert(!crate::text::starts_with(y, "&amp;"@)) by {
            if crate::text::starts_with(y, "&amp;"@) { assert(y.take(5)[1] == 'a'); }
        }
        assert(!crate::text::starts_with(y, "&lt;"@)) by {
            if crate::text::starts_with(y, "&lt;"@) { assert(y.take(4)[1] == 'l'); }
        }
        assert(!crate::text::starts_with(y, "&gt;"@)) by {
            if crate::text::starts_with(y, "&gt;"@) { assert(y.take(4)[1] == 'g'); }
        }
        assert(y.take(6) =~= "&quot;"@);
        assert(y.skip(6) =~= x);
    } else if c == '\'' {
        assert(y[1] == '#');
        assert(!crate::text::starts_with(y, "&amp;"@)) by {
            if crate::text::starts_with(y, "&amp;"@) { assert(y.take(5)[1] == 'a'); }
        }
        assert(!crate::text::starts_with(y, "&lt;"@)) by {
            if crate::text::starts_with(y, "&lt;"@) { assert(y.take(4)[1] == 'l'); }
        }
        assert(!crate::text::starts_with(y, "&gt;"@)) by {
            if crate::text::starts_with(y, "&gt;"@) { assert(y.take(4)[1] == 'g'); }
        }
        assert(!crate::text::starts_with(y, "&quot;"@)) by {
            if crate::text::starts_with(y, "&quot;"@) { assert(y.take(6)[1] == 'q'); }
        }
        assert(y.take(5) =~= "&#39;"@);
        assert(y.skip(5) =~= x);
    } else {
        assert(y[0] == c);
        assert(!crate::text::starts_with(y, "&amp;"@)) by {
            if crate::text::starts_with(y, "&amp;"@) { assert(y.take(5)[0] == '&'); }
        }
        assert(!crate::text::starts_with(y, "&lt;"@)) by {
            if crate::text::starts_with(y, "&lt;"@) { assert(y.take(4)[0] == '&'); }
        }
        assert(!crate::text::starts_with(y, "&gt;"@)) by {
            if crate::text::starts_with(y, "&gt;"@) { assert(y.take(4)[0] == '&'); }
        }
        assert(!crate::text::starts_with(y, "&quot;"@)) by {
            if crate::text::starts_with(y, "&quot;"@) { assert(y.take(6)[0] == '&'); }
        }
        assert(!crate::text::starts_with(y, "&#39;"@)) by {
            if crate::text::starts_with(y, "&#39;"@) { assert(y.take(5)[0] == '&'); }
        }
        assert(y.skip(1) =~= x);
    }
}

/// Escaping loses nothing: reading the escaped text as HTML gives the text back.
pub proof fn law_escape_html_reads_back(s: Seq<char>)
    ensures unescape_html(escape_html_spec(s)) == s,
    decreases s.len(),
{
    if s.len() == 0 {
        assert(escape_html_spec(s) =~= Seq::<char>::empty());
    } else {
        let rest = s.skip(1);
        assert(s =~= seq![s[0]] + rest);
        lemma_escape_concat(seq![s[0]], rest);
        assert(seq![s[0]].drop_last() =~= Seq::<char>::empty());
        assert(escape_html_spec(Seq::<char>::empty()) =~= Seq::<char>::empty());
        assert(escape_html_spec(seq![s[0]]) =~= escape_char(s[0]));
        law_escape_html_reads_back(rest);
        lemma_unescape_char(s[0], escape_html_spec(rest));
        assert(seq![s[0]] + rest =~= s);
    }
}

/// `pretty_json`: a JSON text pretty-printed, any other text as it is.
pub open spec fn pretty_json_spec(content: Seq<char>) -> Seq<char> {
    match crate::json::spec_parse_json(content) {
        Some(v) => crate::json::spec_render_json_pretty(v),
        None => content,
    }
}

pub fn pretty_json(content_json: &str) -> (r: String)
    ensures r@ == pretty_json_spec(content_json@),
{
    match crate::json::parse_json(content_json) {
        Some(v) => crate::json::render_json_pretty(&v),
        None => crate::text::owned(content_json),
    }
}

use crate::hardening::{sanitize_and_mask, sanitize_and_mask_text};

pub open spec fn evidence_markdown(e: EvidenceModel) -> Seq<char> {
    "### "@ + sanitize_and_mask(e.title) + "\n- Type: "@ + sanitize_and_mask(e.evidence_type) + "\n- Created: "@
        + e.created_at + "\n- Summary: "@ + sanitize_and_mask(e.summary) + "\n\n```json\n"@
        + pretty_json_spec(e.content_json) + "\n```"@
}

pub open spec fn event_markdown(t: TimelineModel) -> Seq<char> {
    "- "@ + t.timestamp + " · "@ + sanitize_and_mask(t.source_type) + " · "@ + sanitize_and_mask(t.title)
}

pub open spec fn correlation_markdown(c: CorrelationModel) -> Seq<char> {
    "- ["@ + sanitize_and_mask(c.confidence) + "] "@ + sanitize_and_mask(c.title) + ": "@ + sanitize_and_mask(c.detail)
}

pub open spec fn summary_model(i: crate::models::InvestigationSummary)
    -> (Seq<char>, Seq<char>, Seq<char>, Seq<char>, Seq<char>, Seq<char>)
{
    (i.id@, i.title@, i.environment_id@, i.status@, i.created_at@, i.updated_at@)
}

/// What `build_markdown_report` returns.
pub open spec fn markdown_report_spec(
    inv: (Seq<char>, Seq<char>, Seq<char>, Seq<char>, Seq<char>, Seq<char>),
    ev: Seq<EvidenceModel>,
    timeline: Seq<TimelineModel>,
    correlations: Seq<CorrelationModel>,
) -> Seq<char> {
    let evidence = if ev.len() == 0 {
        "- No evidence saved yet."@
    } else {
        crate::text::join(Seq::new(ev.len(), |i: int| evidence_markdown(ev[i])), "\n\n"@)
    };
    let events = if timeline.len() == 0 {
        "- No timeline events yet."@
    } else {
        crate::text::join(Seq::new(timeline.len(), |i: int| event_markdown(timeline[i])), "\n"@)
    };
    let corr = if correlations.len() == 0 {
        "- No cross-source correlations detected yet."@
    } else {
        crate::text::join(Seq::new(correlations.len(), |i: int| correlation_markdown(correlations[i])), "\n"@)
    };
    "# "@ + inv.1 + "\n\n## Summary\n- Environment: "@ + inv.2 + "\n- Status: "@ + sanitize_and_mask(inv.3)
        + "\n- Created: "@ + inv.4 + "\n- Updated: "@ + inv.5 + "\n- Evidence count: "@ + crate::text::decimal(ev.len())
        + "\n\n## Timeline\n"@ + events + "\n\n## Cross-Source Correlation\n"@ + corr + "\n\n## Evidence\n"@ + evidence
        + "\n"@
}

fn evidence_markdown_exec(e: &InvestigationEvidence) -> (r: Vec<char>)
    ensures r@ == evidence_markdown(e@),
{
    let mut m = chars_of("### ");
    push_str(&mut m, sanitize_and_mask_text(e.title.as_str()).as_str());
    push_str(&mut m, "\n- Type: ");
    push_str(&mut m, sanitize_and_mask_text(e.evidence_type.as_str()).as_str());
    push_str(&mut m, "\n- Created: ");
    push_str(&mut m, e.created_at.as_str());
    push_str(&mut m, "\n- Summary: ");
    push_str(&mut m, sanitize_and_mask_text(e.summary.as_str()).as_str());
    push_str(&mut m, "\n\n```json\n");
    push_str(&mut m, pretty_json(e.content_json.as_str()).as_str());
    push_str(&mut m, "\n```");
    m
}

fn event_markdown_exec(t: &crate::models::InvestigationTimelineEvent) -> (r: Vec<char>)
    ensures r@ == event_markdown(t@),
{
    let mut m = chars_of("- ");
    push_str(&mut m, t.timestamp.as_str());
    push_str(&mut m, " · ");
    push_str(&mut m, sanitize_and_mask_text(t.source_type.as_str()).as_str());
    push_str(&mut m, " · ");
    push_str(&mut m, sanitize_and_mask_text(t.title.as_str()).as_str());
    m
}

fn correlation_markdown_exec(c: &InvestigationCorrelation) -> (r: Vec<char>)
    ensures r@ == correlation_markdown(c@),
{
    let mut m = chars_of("- [");
    push_str(&mut m, sanitize_and_mask_text(c.confidence.as_str()).as_str());
    push_str(&mut m, "] ");
    push_str(&mut m, sanitize_and_mask_text(c.title.as_str()).as_str());
    push_str(&mut m, ": ");
    push_str(&mut m, sanitize_and_mask_text(c.detail.as_str()).as_str());
    m
}

fn evidence_markdown_lines(ev: &[InvestigationEvidence]) -> (r: Vec<Vec<char>>)
    ensures views(r@) == Seq::new(ev@.len(), |i: int| evidence_markdown(evidence_models(ev@)[i])),
{
    let ghost em = evidence_models(ev@);
    let mut r: Vec<Vec<char>> = Vec::new();
    let mut i: usize = 0;
    while i < ev.len()
        invariant
            0 <= i <= ev@.len(),
            em == evidence_models(ev@),
            views(r@) == Seq::new(i as nat, |q: int| evidence_markdown(em[q])),
        decreases ev@.len() - i,
    {
        let l = evidence_markdown_exec(&ev[i]);
        let ghost prev = r@;
        r.push(l);
        assert(em[i as int] == ev@[i as int]@);
        assert(views(r@) =~= views(prev).push(l@));
        assert(views(r@) =~= Seq::new((i + 1) as nat, |q: int| evidence_markdown(em[q])));
        i += 1;
    }
    r
}

fn event_markdown_lines(timeline: &[crate::models::InvestigationTimelineEvent]) -> (r: Vec<Vec<char>>)
    ensures views(r@) == Seq::new(timeline@.len(), |i: int| event_markdown(timeline_models(timeline@)[i])),
{
    let ghost tm = timeline_models(timeline@);
    let mut r: Vec<Vec<char>> = Vec::new();
    let mut i: usize = 0;
    while i < timeline.len()
        invariant
            0 <= i <= timeline@.len(),
            tm == timeline_models(timeline@),
            views(r@) == Seq::new(i as nat, |q: int| event_markdown(tm[q])),
        decreases timeline@.len() - i,
    {
        let l = event_markdown_exec(&timeline[i]);
        let ghost prev = r@;
        r.push(l);
        assert(tm[i as int] == timeline@[i as int]@);
        assert(views(r@) =~= views(prev).push(l@));
        assert(views(r@) =~= Seq::new((i + 1) as nat, |q: int| event_markdown(tm[q])));
        i += 1;
    }
    r
}

fn correlation_markdown_lines(correlations: &[InvestigationCorrelation]) -> (r: Vec<Vec<char>>)
    ensures views(r@) == Seq::new(correlations@.len(), |i: int| correlation_markdown(correlation_models(correlations@)[i])),
{
    let ghost cm = correlation_models(correlations@);
    let mut r: Vec<Vec<char>> = Vec::new();
    let mut i: usize = 0;
    while i < correlations.len()
        invariant
            0 <= i <= correlations@.len(),
            cm == correlation_models(correlations@),
            views(r@) == Seq::new(i as nat, |q: int| correlation_markdown(cm[q])),
        decreases correlations@.len() - i,
    {
        let l = correlation_markdown_exec(&correlations[i]);
        let ghost prev = r@;
        r.push(l);
        assert(cm[i as int] == correlations@[i as int]@);
        assert(views(r@) =~= views(prev).push(l@));
        assert(views(r@) =~= Seq::new((i + 1) as nat, |q: int| correlation_markdown(cm[q])));
        i += 1;
    }
    r
}

/// `build_markdown_report`: the report of an investigation in Markdown.
pub fn build_markdown_report(
    investigation: &crate::models::InvestigationSummary,
    evidence: &[InvestigationEvidence],
    timeline: &[crate::models::InvestigationTimelineEvent],
    correlations: &[InvestigationCorrelation],
) -> (r: String)
    ensures
        r@ == markdown_report_spec(summary_model(*investigation), evidence_models(evidence@),
            timeline_models(timeline@), correlation_models(correlations@)),
{
    let evidence_section = if evidence.len() == 0 {
        chars_of("- No evidence saved yet.")
    } else {
        let lines = evidence_markdown_lines(evidence);
        crate::text::join_exec(&lines, "\n\n")
    };
    let timeline_section = if timeline.len() == 0 {
        chars_of("- No timeline events yet.")
    } else {
        let lines = event_markdown_lines(timeline);
        crate::text::join_exec(&lines, "\n")
    };
    let correlation_section = if correlations.len() == 0 {
        chars_of("- No cross-source correlations detected yet.")
    } else {
        let lines = correlation_markdown_lines(correlations);
        crate::text::join_exec(&lines, "\n")
    };
    let mut m = chars_of("# ");
    push_str(&mut m, investigation.title.as_str());
    push_str(&mut m, "\n\n## Summary\n- Environment: ");
    push_str(&mut m, investigation.environment_id.as_str());
    push_str(&mut m, "\n- Status: ");
    push_str(&mut m, sanitize_and_mask_text(investigation.status.as_str()).as_str());
    push_str(&mut m, "\n- Created: ");
    push_str(&mut m, investigation.created_at.as_str());
    push_str(&mut m, "\n- Updated: ");
    push_str(&mut m, investigation.updated_at.as_str());
    push_str(&mut m, "\n- Evidence count: ");
    crate::text::push_decimal(&mut m, evidence.len() as u64);
    push_str(&mut m, "\n\n## Timeline\n");
    crate::text::push_chars(&mut m, &timeline_section);
    push_str(&mut m, "\n\n## Cross-Source Correlation\n");
    crate::text::push_chars(&mut m, &correlation_section);
    push_str(&mut m, "\n\n## Evidence\n");
    crate::text::push_chars(&mut m, &evidence_section);
    push_str(&mut m, "\n");
    string_of(&m)
}

pub open spec fn event_html(t: TimelineModel) -> Seq<char> {
    "<li><strong>"@ + escape_html_spec(t.timestamp) + "</strong> <span>"@ + escape_html_spec(sanitize_and_mask(t.title))
        + "</span><div>"@ + escape_html_spec(sanitize_and_mask(t.detail)) + "</div></li>"@
}

pub open spec fn evidence_html(e: EvidenceModel) -> Seq<char> {
    "<section class=\"evidence\"><h3>"@ + escape_html_spec(e.title) + "</h3><p>"@
        + escape_html_spec(sanitize_and_mask(e.summary)) + "</p><pre>"@ + escape_html_spec(pretty_json_spec(e.content_json))
        + "</pre></section>"@
}

pub open spec fn correlation_html(c: CorrelationModel) -> Seq<char> {
    "<section class=\"card\"><h3>"@ + escape_html_spec(c.title) + "</h3><p><strong>"@
        + escape_html_spec(sanitize_and_mask(c.confidence)) + "</strong></p><p>"@
        + escape_html_spec(sanitize_and_mask(c.detail)) + "</p></section>"@
}

pub open spec fn report_style() -> Seq<char> {
    "body{font-family:Arial,sans-serif;margin:32px;background:#faf8f4;color:#1f2937}h1,h2,h3{margin-bottom:12px}.meta{display:grid;grid-template-columns:repeat(2,minmax(0,1fr));gap:12px;margin-bottom:24px}.card,.evidence{border:1px solid #e5e7eb;border-radius:16px;padding:16px;background:white;margin-bottom:16px}pre{white-space:pre-wrap;word-break:break-word;background:#f8fafc;padding:12px;border-radius:12px;overflow:auto}"@
}

/// What `build_html_report` returns: a standalone page whose every text taken from the
/// investigation is HTML-escaped.
pub open spec fn html_report_spec(
    inv: (Seq<char>, Seq<char>, Seq<char>, Seq<char>, Seq<char>, Seq<char>),
    ev: Seq<EvidenceModel>,
    timeline: Seq<TimelineModel>,
    correlations: Seq<CorrelationModel>,
) -> Seq<char> {
    let events = if timeline.len() == 0 {
        "<li>No timeline events yet.</li>"@
    } else {
        crate::text::join(Seq::new(timeline.len(), |i: int| event_html(timeline[i])), ""@)
    };
    let evidence = if ev.len() == 0 {
        "<p>No evidence saved yet.</p>"@
    } else {
        crate::text::join(Seq::new(ev.len(), |i: int| evidence_html(ev[i])), ""@)
    };
    let corr = if correlations.len() == 0 {
        "<p>No cross-source correlations detected yet.</p>"@
    } else {
        crate::text::join(Seq::new(correlations.len(), |i: int| correlation_html(correlations[i])), ""@)
    };
    let title = escape_html_spec(inv.1);
    "<!doctype html><html><head><meta charset=\"utf-8\" /><title>"@ + title + "</title><style>"@ + report_style()
        + "</style></head><body><h1>"@ + title + "</h1><div class=\"meta\"><div class=\"card\"><strong>Environment</strong><div>"@
        + escape_html_spec(inv.2) + "</div></div><div class=\"card\"><strong>Status</strong><div>"@ + escape_html_spec(inv.3)
        + "</div></div><div class=\"card\"><strong>Created</strong><div>"@ + escape_html_spec(inv.4)
        + "</div></div><div class=\"card\"><strong>Updated</strong><div>"@ + escape_html_spec(inv.5)
        + "</div></div></div><h2>Timeline</h2><div class=\"card\"><ul>"@ + events
        + "</ul></div><h2>Cross-Source Correlation</h2>"@ + corr + "<h2>Evidence</h2>"@ + evidence + "</body></html>"@
}

fn push_escaped(buf: &mut Vec<char>, s: &str)
    ensures final(buf)@ == old(buf)@ + escape_html_spec(s@),
{
    let e = escape_html(s);
    crate::text::push_chars(buf, &e);
}

fn event_html_exec(t: &crate::models::InvestigationTimelineEvent) -> (r: Vec<char>)
    ensures r@ == event_html(t@),
{
    let mut m = chars_of("<li><strong>");
    push_escaped(&mut m, t.timestamp.as_str());
    push_str(&mut m, "</strong> <span>");
    push_escaped(&mut m, sanitize_and_mask_text(t.title.as_str()).as_str());
    push_str(&mut m, "</span><div>");
    push_escaped(&mut m, sanitize_and_mask_text(t.detail.as_str()).as_str());
    push_str(&mut m, "</div></li>");
    m
}

fn evidence_html_exec(e: &InvestigationEvidence) -> (r: Vec<char>)
    ensures r@ == evidence_html(e@),
{
    let mut m = chars_of("<section class=\"evidence\"><h3>");
    push_escaped(&mut m, e.title.as_str());
    push_str(&mut m, "</h3><p>");
    push_escaped(&mut m, sanitize_and_mask_text(e.summary.as_str()).as_str());
    push_str(&mut m, "</p><pre>");
    push_escaped(&mut m, pretty_json(e.content_json.as_str()).as_str());
    push_str(&mut m, "</pre></section>");
    m
}

fn correlation_html_exec(c: &InvestigationCorrelation) -> (r: Vec<char>)
    ensures r@ == correlation_html(c@),
{
    let mut m = chars_of("<section class=\"card\"><h3>");
    push_escaped(&mut m, c.title.as_str());
    push_str(&mut m, "</h3><p><strong>");
    push_escaped(&mut m, sanitize_and_mask_text(c.confidence.as_str()).as_str());
    push_str(&mut m, "</strong></p><p>");
    push_escaped(&mut m, sanitize_and_mask_text(c.detail.as_str()).as_str());
    push_str(&mut m, "</p></section>");
    m
}

fn event_html_items(timeline: &[crate::models::InvestigationTimelineEvent]) -> (r: Vec<Vec<char>>)
    ensures views(r@) == Seq::new(timeline@.len(), |i: int| event_html(timeline_models(timeline@)[i])),
{
    let ghost tm = timeline_models(timeline@);
    let mut r: Vec<Vec<char>> = Vec::new();
    let mut i: usize = 0;
    while i < timeline.len()
        invariant
            0 <= i <= timeline@.len(),
            tm == timeline_models(timeline@),
            views(r@) == Seq::new(i as nat, |q: int| event_html(tm[q])),
        decreases timeline@.len() - i,
    {
        let l = event_html_exec(&timeline[i]);
        let ghost prev = r@;
        r.push(l);
        assert(tm[i as int] == timeline@[i as int]@);
        assert(views(r@) =~= views(prev).push(l@));
        assert(views(r@) =~= Seq::new((i + 1) as nat, |q: int| event_html(tm[q])));
        i += 1;
    }
    r
}

fn evidence_html_items(ev: &[InvestigationEvidence]) -> (r: Vec<Vec<char>>)
    ensures views(r@) == Seq::new(ev@.len(), |i: int| evidence_html(evidence_models(ev@)[i])),
{
    let ghost em = evidence_models(ev@);
    let mut r: Vec<Vec<char>> = Vec::new();
    let mut i: usize = 0;
    while i < ev.len()
        invariant
            0 <= i <= ev@.len(),
            em == evidence_models(ev@),
            views(r@) == Seq::new(i as nat, |q: int| evidence_html(em[q])),
        decreases ev@.len() - i,
    {
        let l = evidence_html_exec(&ev[i]);
        let ghost prev = r@;
        r.push(l);
        assert(em[i as int] == ev@[i as int]@);
        assert(views(r@) =~= views(prev).push(l@));
        assert(views(r@) =~= Seq::new((i + 1) as nat, |q: int| evidence_html(em[q])));
        i += 1;
    }
    r
}

fn correlation_html_items(correlations: &[InvestigationCorrelation]) -> (r: Vec<Vec<char>>)
    ensures views(r@) == Seq::new(correlations@.len(), |i: int| correlation_html(correlation_models(correlations@)[i])),
{
    let ghost cm = correlation_models(correlations@);
    let mut r: Vec<Vec<char>> = Vec::new();
    let mut i: usize = 0;
    while i < correlations.len()
        invariant
            0 <= i <= correlations@.len(),
            cm == correlation_models(correlations@),
            views(r@) == Seq::new(i as nat, |q: int| correlation_html(cm[q])),
        decreases correlations@.len() - i,
    {
        let l = correlation_html_exec(&correlations[i]);
        let ghost prev = r@;
        r.push(l);
        assert(cm[i as int] == correlations@[i as int]@);
        assert(views(r@) =~= views(prev).push(l@));
        assert(views(r@) =~= Seq::new((i + 1) as nat, |q: int| correlation_html(cm[q])));
        i += 1;
    }
    r
}

/// `build_html_report`: the report of an investigation as a standalone HTML page.
pub fn build_html_report(
    investigation: &crate::models::InvestigationSummary,
    evidence: &[InvestigationEvidence],
    timeline: &[crate::models::InvestigationTimelineEvent],
    correlations: &[InvestigationCorrelation],
) -> (r: String)
    ensures
        r@ == html_report_spec(summary_model(*investigation), evidence_models(evidence@),
            timeline_models(timeline@), correlation_models(correlations@)),
{
    let events = if timeline.len() == 0 {
        chars_of("<li>No timeline events yet.</li>")
    } else {
        let items = event_html_items(timeline);
        crate::text::join_exec(&items, "")
    };
    let cards = if evidence.len() == 0 {
        chars_of("<p>No evidence saved yet.</p>")
    } else {
        let items = evidence_html_items(evidence);
        crate::text::join_exec(&items, "")
    };
    let corr = if correlations.len() == 0 {
        chars_of("<p>No cross-source correlations detected yet.</p>")
    } else {
        let items = correlation_html_items(correlations);
        crate::text::join_exec(&items, "")
    };
    let title = escape_html(investigation.title.as_str());
    let mut m = chars_of("<!doctype html><html><head><meta charset=\"utf-8\" /><title>");
    crate::text::push_chars(&mut m, &title);
    push_str(&mut m, "</title><style>");
    push_str(&mut m, "body{font-family:Arial,sans-serif;margin:32px;background:#faf8f4;color:#1f2937}h1,h2,h3{margin-bottom:12px}.meta{display:grid;grid-template-columns:repeat(2,minmax(0,1fr));gap:12px;margin-bottom:24px}.card,.evidence{border:1px solid #e5e7eb;border-radius:16px;padding:16px;background:white;margin-bottom:16px}pre{white-space:pre-wrap;word-break:break-word;background:#f8fafc;padding:12px;border-radius:12px;overflow:auto}");
    push_str(&mut m, "</style></head><body><h1>");
    crate::text::push_chars(&mut m, &title);
    push_str(&mut m, "</h1><div class=\"meta\"><div class=\"card\"><strong>Environment</strong><div>");
    push_escaped(&mut m, investigation.environment_id.as_str());
    push_str(&mut m, "</div></div><div class=\"card\"><strong>Status</strong><div>");
    push_escaped(&mut m, investigation.status.as_str());
    push_str(&mut m, "</div></div><div class=\"card\"><strong>Created</strong><div>");
    push_escaped(&mut m, investigation.created_at.as_str());
    push_str(&mut m, "</div></div><div class=\"card\"><strong>Updated</strong><div>");
    push_escaped(&mut m, investigation.updated_at.as_str());
    push_str(&mut m, "</div></div></div><h2>Timeline</h2><div class=\"card\"><ul>");
    crate::text::push_chars(&mut m, &events);
    push_str(&mut m, "</ul></div><h2>Cross-Source Correlation</h2>");
    crate::text::push_chars(&mut m, &corr);
    push_str(&mut m, "<h2>Evidence</h2>");
    crate::text::push_chars(&mut m, &cards);
    push_str(&mut m, "</body></html>");
    string_of(&m)
}

/// The title of an investigation created while saving evidence: the given title when it
/// is not blank, else `Investigation`.
pub fn new_investigation_title(title: &Option<String>) -> (r: String)
    ensures
        r@ == match crate::text::opt_view(*title) {
            Some(t) => if crate::text::is_blank(t) { "Investigation"@ } else { t },
            None => "Investigation"@,
        },
{
    match title {
        Some(t) => if crate::text::is_blank_str(t.as_str()) { crate::text::owned("Investigation") } else { copy_string(t) },
        None => crate::text::owned("Investigation"),
    }
}

/// The summary and document of evidence as they are stored: the summary sanitized and
/// masked as text, the document as JSON.
pub fn stored_evidence_texts(input: &crate::models::SaveInvestigationInput) -> (r: (String, String))
    ensures
        r.0@ == sanitize_and_mask(input.summary@),
        r.1@ == crate::hardening::sanitize_and_mask_json_spec(input.content_json@),
{
    (sanitize_and_mask_text(input.summary.as_str()), crate::hardening::sanitize_and_mask_json(input.content_json.as_str()))
}

} // verus!
