//! Log search: the Elasticsearch query built from the filters, the entries read from its
//! hits, the clusters of repeated messages, and the summary.
use vstd::prelude::*;

use crate::json::{
    json_object1, json_object2, json_str, json_u64, model_items, model_members, push_item, push_member, spec_parse_json,
    spec_parse_json_error, spec_render_json, JsonModel, JsonValue,
};
use crate::models::{ConnectionProfile, LogCluster, LogEntry, LogSearchInput, LogSearchResponse, LogSummary};
use crate::ssh::nonblank_trimmed_opt;
use crate::text::{
    chars_of, copy_string, decimal, is_blank, join, lower, opt_view, owned, push_chars, push_str, string_of,
    string_views, trim, trim_str, views,
};

verus! {

// ---------------------------------------------------------------------------
// Filters and the query line
// ---------------------------------------------------------------------------

/// `clean_filter`: a filter trimmed, when not blank.
pub fn clean_filter(value: &Option<String>) -> (r: Option<String>)
    ensures opt_view(r) == nonblank_trimmed_opt(opt_view(*value)),
{
    match value {
        Some(v) => {
            let t = trim_str(v.as_str());
            if t.len() == 0 {
                assert(is_blank(v@));
                None
            } else {
                Some(string_of(&t))
            }
        },
        None => None,
    }
}

/// What `build_query_string` returns: the environment, the time range and each filter
/// given, joined with ` AND `.
pub open spec fn query_string_spec(input: LogSearchInput) -> Seq<char> {
    let opt = |name: Seq<char>, v: Option<String>| match nonblank_trimmed_opt(opt_view(v)) {
        Some(x) => seq![name + "="@ + x],
        None => Seq::<Seq<char>>::empty(),
    };
    join(
        seq!["environment="@ + input.environment_id@, "timeRange="@ + input.time_range@]
            + opt("service"@, input.service) + opt("pod"@, input.pod) + opt("keyword"@, input.keyword)
            + opt("traceId"@, input.trace_id),
        " AND "@,
    )
}

fn push_part(parts: &mut Vec<Vec<char>>, name: &str, value: &Option<String>)
    ensures
        views(final(parts)@) == views(old(parts)@) + match nonblank_trimmed_opt(opt_view(*value)) {
            Some(x) => seq![name@ + "="@ + x],
            None => Seq::<Seq<char>>::empty(),
        },
{
    let ghost before = views(parts@);
    match clean_filter(value) {
        Some(v) => {
            let mut p = chars_of(name);
            push_str(&mut p, "=");
            push_str(&mut p, v.as_str());
            parts.push(p);
            assert(views(parts@) =~= before + seq![name@ + "="@ + v@]);
        },
        None => {
            assert(views(parts@) =~= before + Seq::<Seq<char>>::empty());
        },
    }
}

pub fn build_query_string(input: &LogSearchInput) -> (r: String)
    ensures r@ == query_string_spec(*input),
{
    let mut parts: Vec<Vec<char>> = Vec::new();
    let mut a = chars_of("environment=");
    push_str(&mut a, input.environment_id.as_str());
    parts.push(a);
    let mut b = chars_of("timeRange=");
    push_str(&mut b, input.time_range.as_str());
    parts.push(b);
    assert(views(parts@) =~= seq!["environment="@ + input.environment_id@, "timeRange="@ + input.time_range@]);
    push_part(&mut parts, "service", &input.service);
    push_part(&mut parts, "pod", &input.pod);
    push_part(&mut parts, "keyword", &input.keyword);
    push_part(&mut parts, "traceId", &input.trace_id);
    let j = crate::text::join_exec(&parts, " AND ");
    string_of(&j)
}

/// The characters that Lucene's query syntax reserves.
pub open spec fn is_query_special(c: char) -> bool {
    c == '+' || c == '-' || c == '=' || c == '&' || c == '|' || c == '>' || c == '<' || c == '!' || c == '('
        || c == ')' || c == '{' || c == '}' || c == '[' || c == ']' || c == '^' || c == '"' || c == '~'
        || c == '*' || c == '?' || c == ':' || c == '\\' || c == '/'
}

/// `escape_query_string`: each reserved character preceded by a backslash.
pub open spec fn escape_query_spec(s: Seq<char>) -> Seq<char>
    decreases s.len(),
{
    if s.len() == 0 {
        Seq::empty()
    } else {
        escape_query_spec(s.drop_last()) + if is_query_special(s.last()) { seq!['\\', s.last()] } else { seq![s.last()] }
    }
}

pub fn escape_query_string(value: &str) -> (r: Vec<char>)
    ensures r@ == escape_query_spec(value@),
{
    let s = chars_of(value);
    let mut out: Vec<char> = Vec::new();
    let mut i: usize = 0;
    while i < s.len()
        invariant
            0 <= i <= s@.len(),
            s@ == value@,
            out@ == escape_query_spec(s@.take(i as int)),
        decreases s@.len() - i,
    {
        assert(s@.take(i + 1).drop_last() =~= s@.take(i as int));
        let c = s[i];
        if c == '+' || c == '-' || c == '=' || c == '&' || c == '|' || c == '>' || c == '<' || c == '!' || c == '('
            || c == ')' || c == '{' || c == '}' || c == '[' || c == ']' || c == '^' || c == '"' || c == '~'
            || c == '*' || c == '?' || c == ':' || c == '\\' || c == '/' {
            out.push('\\');
        }
        out.push(c);
        i += 1;
    }
    assert(s@.take(s@.len() as int) =~= s@);
    out
}

/// A time range as minutes: `15m`, `1h`, `6h`, `24h`; anything else counts as an hour.
pub open spec fn range_minutes_spec(time_range: Seq<char>) -> int {
    if time_range == "15m"@ {
        15
    } else if time_range == "1h"@ {
        60
    } else if time_range == "6h"@ {
        360
    } else if time_range == "24h"@ {
        1440
    } else {
        60
    }
}

/// `duration_for_time_range`, in minutes.
pub fn duration_for_time_range(time_range: &str) -> (r: u64)
    ensures r == range_minutes_spec(time_range@),
{
    if crate::text::str_eq(time_range, "15m") {
        15
    } else if crate::text::str_eq(time_range, "1h") {
        60
    } else if crate::text::str_eq(time_range, "6h") {
        360
    } else if crate::text::str_eq(time_range, "24h") {
        1440
    } else {
        60
    }
}

/// The time ranges that searches offer: 15 minutes, 1 hour, 6 hours and 24 hours.
pub open spec fn offered_range(t: Seq<char>) -> bool {
    t == "15m"@ || t == "1h"@ || t == "6h"@ || t == "24h"@
}

/// The minutes that a range written as a decimal number and a unit (`m` for minutes,
/// `h` for hours) names.
pub open spec fn named_minutes(t: Seq<char>) -> int {
    let n = crate::text::digits_value(t.drop_last()) as int;
    if t.last() == 'h' { 60 * n } else if t.last() == 'm' { n } else { -1 }
}

/// The minutes each offered range names.
pub proof fn lemma_offered_minutes()
    ensures
        named_minutes("15m"@) == 15,
        named_minutes("1h"@) == 60,
        named_minutes("6h"@) == 360,
        named_minutes("24h"@) == 1440,
{
    reveal_strlit("15m");
    reveal_strlit("1h");
    reveal_strlit("6h");
    reveal_strlit("24h");
    assert(crate::text::digits_value(Seq::<char>::empty()) == 0);
    assert(crate::text::digit_value('1') == 1);
    assert(crate::text::digit_value('2') == 2);
    assert(crate::text::digit_value('4') == 4);
    assert(crate::text::digit_value('5') == 5);
    assert(crate::text::digit_value('6') == 6);
    let a = "15m"@.drop_last();
    assert(a.drop_last().drop_last() =~= Seq::<char>::empty());
    assert(a.drop_last().last() == '1');
    assert(a.last() == '5');
    assert(crate::text::digits_value(a.drop_last()) == 1);
    assert(crate::text::digits_value(a) == 15);
    assert("1h"@.drop_last().drop_last() =~= Seq::<char>::empty());
    assert("1h"@.drop_last().last() == '1');
    assert(crate::text::digits_value("1h"@.drop_last()) == 1);
    assert("6h"@.drop_last().drop_last() =~= Seq::<char>::empty());
    assert("6h"@.drop_last().last() == '6');
    assert(crate::text::digits_value("6h"@.drop_last()) == 6);
    let b = "24h"@.drop_last();
    assert(b.drop_last().drop_last() =~= Seq::<char>::empty());
    assert(b.drop_last().last() == '2');
    assert(b.last() == '4');
    assert(crate::text::digits_value(b.drop_last()) == 2);
    assert(crate::text::digits_value(b) == 24);
}

/// The time window of a log search is the time its range names: 15, 60, 360 or 1440
/// minutes for `15m`, `1h`, `6h` and `24h`; any other range counts as one hour.
pub proof fn law_log_window_is_named_range(time_range: Seq<char>)
    ensures
        offered_range(time_range) ==> range_minutes_spec(time_range) == named_minutes(time_range),
        !offered_range(time_range) ==> range_minutes_spec(time_range) == named_minutes("1h"@),
{
    lemma_offered_minutes();
}

// ---------------------------------------------------------------------------
// The ELK settings of a profile and the query document
// ---------------------------------------------------------------------------

/// The ELK settings of a profile.
pub struct ElkProfileConfig {
    pub index_pattern: String,
    pub timestamp_field: String,
    pub message_field: String,
    pub level_field: String,
    pub service_field: String,
    pub pod_field: String,
    pub trace_id_field: String,
    pub space: Option<String>,
}

/// A setting trimmed, or its default when it is missing or blank.
pub open spec fn setting_or(settings: JsonModel, key: Seq<char>, default: Seq<char>) -> Seq<char> {
    match nonblank_trimmed_opt(crate::json::model_get_str(settings, key)) {
        Some(v) => v,
        None => default,
    }
}

pub open spec fn elk_config_view(c: ElkProfileConfig) -> Seq<Seq<char>> {
    seq![c.index_pattern@, c.timestamp_field@, c.message_field@, c.level_field@, c.service_field@, c.pod_field@,
        c.trace_id_field@]
}

/// What `from_profile` reads, with the defaults `logs-*`, `@timestamp`, `message`,
/// `log.level`, `service.name`, `kubernetes.pod.name` and `traceId`.
pub open spec fn elk_config_spec(profile: ConnectionProfile) -> Seq<Seq<char>> {
    let s = crate::redis::profile_settings_model(profile.config_json@);
    seq![
        setting_or(s, "indexPattern"@, "logs-*"@),
        setting_or(s, "timestampField"@, "@timestamp"@),
        setting_or(s, "messageField"@, "message"@),
        setting_or(s, "levelField"@, "log.level"@),
        setting_or(s, "serviceField"@, "service.name"@),
        setting_or(s, "podField"@, "kubernetes.pod.name"@),
        setting_or(s, "traceIdField"@, "traceId"@),
    ]
}

/// `string_or_default`.
pub fn string_or_default(config: &JsonValue, key: &str, default: &str) -> (r: String)
    ensures r@ == setting_or(config@, key@, default@),
{
    match crate::json::json_get_str(config, key) {
        Some(v) => if crate::text::is_blank_exec(&v) {
            owned(default)
        } else {
            string_of(&crate::text::trim_exec(&v))
        },
        None => owned(default),
    }
}

impl ElkProfileConfig {
    pub fn from_profile(profile: &ConnectionProfile) -> (r: Result<ElkProfileConfig, String>)
        ensures
            r matches Ok(c) && elk_config_view(c) == elk_config_spec(*profile) && opt_view(c.space)
                == nonblank_trimmed_opt(crate::json::model_get_str(crate::redis::profile_settings_model(profile.config_json@), "space"@)),
    {
        let config = crate::profiles::profile_settings(profile);
        let space = match crate::json::json_get_str(&config, "space") {
            Some(v) => if crate::text::is_blank_exec(&v) { None } else { Some(string_of(&crate::text::trim_exec(&v))) },
            None => None,
        };
        let c = ElkProfileConfig {
            index_pattern: string_or_default(&config, "indexPattern", "logs-*"),
            timestamp_field: string_or_default(&config, "timestampField", "@timestamp"),
            message_field: string_or_default(&config, "messageField", "message"),
            level_field: string_or_default(&config, "levelField", "log.level"),
            service_field: string_or_default(&config, "serviceField", "service.name"),
            pod_field: string_or_default(&config, "podField", "kubernetes.pod.name"),
            trace_id_field: string_or_default(&config, "traceIdField", "traceId"),
            space,
        };
        assert(elk_config_view(c) =~= elk_config_spec(*profile));
        Ok(c)
    }

    /// `search_url`: the endpoint without trailing slashes, the index pattern, `_search`.
    pub fn search_url(&self, endpoint: &str) -> (r: String)
        ensures r@ == crate::text::trim_end_char(endpoint@, '/') + "/"@ + self.index_pattern@ + "/_search"@,
    {
        let e = chars_of(endpoint);
        let mut u = crate::text::trim_end_char_exec(&e, '/');
        push_str(&mut u, "/");
        push_str(&mut u, self.index_pattern.as_str());
        push_str(&mut u, "/_search");
        string_of(&u)
    }
}

/// `{"query_string": {"default_field": field, "query": "*value*"}}`, the value escaped.
pub open spec fn text_filter_spec(field: Seq<char>, value: Seq<char>) -> JsonModel {
    JsonModel::Object(seq![("query_string"@, JsonModel::Object(seq![
        ("default_field"@, JsonModel::Str(field)),
        ("query"@, JsonModel::Str("*"@ + escape_query_spec(value) + "*"@)),
    ]))])
}

pub fn text_filter(field: &str, value: &str) -> (r: JsonValue)
    ensures r@ == text_filter_spec(field@, value@),
{
    let mut q = chars_of("*");
    let e = escape_query_string(value);
    push_chars(&mut q, &e);
    push_str(&mut q, "*");
    let qs = string_of(&q);
    let inner = json_object2("default_field", json_str(field), "query", json_str(qs.as_str()));
    json_object1("query_string", inner)
}

pub open spec fn strs(s: Seq<Seq<char>>) -> Seq<JsonModel> {
    Seq::new(s.len(), |i: int| JsonModel::Str(s[i]))
}

pub open spec fn opt_filter(v: Option<Seq<char>>, f: spec_fn(Seq<char>) -> JsonModel) -> Seq<JsonModel> {
    match v {
        Some(x) => seq![f(x)],
        None => Seq::empty(),
    }
}

/// The filters of the query: the time range, then each filter given.
pub open spec fn elk_filters_spec(input: LogSearchInput, c: Seq<Seq<char>>) -> Seq<JsonModel> {
    let range = JsonModel::Object(seq![("range"@, JsonModel::Object(seq![(c[1], JsonModel::Object(seq![
        ("gte"@, JsonModel::Str("now-"@ + input.time_range@)),
        ("lte"@, JsonModel::Str("now"@)),
    ]))]))]);
    seq![range]
        + opt_filter(nonblank_trimmed_opt(opt_view(input.service)), |x: Seq<char>| text_filter_spec(c[4], x))
        + opt_filter(nonblank_trimmed_opt(opt_view(input.pod)), |x: Seq<char>| text_filter_spec(c[5], x))
        + opt_filter(nonblank_trimmed_opt(opt_view(input.keyword)), |x: Seq<char>| JsonModel::Object(seq![("multi_match"@,
            JsonModel::Object(seq![
                ("query"@, JsonModel::Str(x)),
                ("fields"@, JsonModel::Array(strs(seq![c[2], c[4], c[5], c[6]]))),
            ]))]))
        + opt_filter(nonblank_trimmed_opt(opt_view(input.trace_id)), |x: Seq<char>| text_filter_spec(c[6], x))
}

/// What `build_elk_query` returns: the 200 latest hits by timestamp, the fields to return,
/// and the filters.
pub open spec fn elk_query_spec(input: LogSearchInput, c: Seq<Seq<char>>) -> JsonModel {
    JsonModel::Object(seq![
        ("size"@, JsonModel::Number(decimal(200), Some(200u64))),
        ("sort"@, JsonModel::Array(seq![JsonModel::Object(seq![(c[1], JsonModel::Object(seq![("order"@, JsonModel::Str("desc"@))]))])])),
        ("_source"@, JsonModel::Array(strs(seq![c[1], c[2], c[3], c[4], c[5], c[6], "traceId"@, "trace_id"@,
            "kubernetes.pod.name"@, "service.name"@, "log.level"@, "message"@]))),
        ("query"@, JsonModel::Object(seq![("bool"@, JsonModel::Object(seq![("filter"@, JsonModel::Array(elk_filters_spec(input, c)))]))])),
    ])
}

fn str_items(names: &Vec<&str>) -> (r: Vec<JsonValue>)
    ensures model_items(r@) == strs(crate::json::path_views(names@)),
{
    let mut r: Vec<JsonValue> = Vec::new();
    let mut i: usize = 0;
    while i < names.len()
        invariant
            0 <= i <= names@.len(),
            model_items(r@) == strs(crate::json::path_views(names@).take(i as int)),
        decreases names@.len() - i,
    {
        push_item(&mut r, json_str(names[i]));
        assert(strs(crate::json::path_views(names@).take(i + 1)) =~=
            strs(crate::json::path_views(names@).take(i as int)).push(JsonModel::Str(names@[i as int]@)));
        i += 1;
    }
    assert(crate::json::path_views(names@).take(names@.len() as int) =~= crate::json::path_views(names@));
    r
}

pub fn build_elk_query(input: &LogSearchInput, config: &ElkProfileConfig) -> (r: JsonValue)
    ensures r@ == elk_query_spec(*input, elk_config_view(*config)),
{
    let ghost c = elk_config_view(*config);
    let ts = config.timestamp_field.as_str();
    let mut gte = chars_of("now-");
    push_str(&mut gte, input.time_range.as_str());
    let gte_s = string_of(&gte);
    let bounds = json_object2("gte", json_str(gte_s.as_str()), "lte", json_str("now"));
    let range = json_object1("range", json_object1(ts, bounds));
    let mut filters: Vec<JsonValue> = Vec::new();
    push_item(&mut filters, range);
    let ghost f0 = model_items(filters@);
    match clean_filter(&input.service) {
        Some(v) => push_item(&mut filters, text_filter(config.service_field.as_str(), v.as_str())),
        None => {},
    }
    let ghost f1 = model_items(filters@);
    match clean_filter(&input.pod) {
        Some(v) => push_item(&mut filters, text_filter(config.pod_field.as_str(), v.as_str())),
        None => {},
    }
    let ghost f2 = model_items(filters@);
    match clean_filter(&input.keyword) {
        Some(v) => {
            let names: Vec<&str> = vec![config.message_field.as_str(), config.service_field.as_str(),
                config.pod_field.as_str(), config.trace_id_field.as_str()];
            let fields = str_items(&names);
            assert(crate::json::path_views(names@) =~= seq![c[2], c[4], c[5], c[6]]);
            let mm = json_object2("query", json_str(v.as_str()), "fields", JsonValue::Array(fields));
            push_item(&mut filters, json_object1("multi_match", mm));
        },
        None => {},
    }
    let ghost f3 = model_items(filters@);
    match clean_filter(&input.trace_id) {
        Some(v) => push_item(&mut filters, text_filter(config.trace_id_field.as_str(), v.as_str())),
        None => {},
    }
    assert(model_items(filters@) =~= elk_filters_spec(*input, c));
    let mut sort_items: Vec<JsonValue> = Vec::new();
    push_item(&mut sort_items, json_object1(ts, json_object1("order", json_str("desc"))));
    let names: Vec<&str> = vec![ts, config.message_field.as_str(), config.level_field.as_str(),
        config.service_field.as_str(), config.pod_field.as_str(), config.trace_id_field.as_str(), "traceId", "trace_id",
        "kubernetes.pod.name", "service.name", "log.level", "message"];
    let source = str_items(&names);
    assert(crate::json::path_views(names@) =~= seq![c[1], c[2], c[3], c[4], c[5], c[6], "traceId"@, "trace_id"@,
        "kubernetes.pod.name"@, "service.name"@, "log.level"@, "message"@]);
    let query = json_object1("bool", json_object1("filter", JsonValue::Array(filters)));
    let mut members: Vec<(String, JsonValue)> = Vec::new();
    push_member(&mut members, "size", json_u64(200));
    push_member(&mut members, "sort", JsonValue::Array(sort_items));
    push_member(&mut members, "_source", JsonValue::Array(source));
    push_member(&mut members, "query", query);
    let r = JsonValue::Object(members);
    proof {
        let spec = elk_query_spec(*input, c);
        let ms = spec->Object_0;
        assert(model_items(sort_items@) =~= seq![JsonModel::Object(seq![(c[1], JsonModel::Object(seq![("order"@, JsonModel::Str("desc"@))]))])]);
        assert(model_members(members@)[0] == ms[0]);
        assert(model_members(members@)[1] == ms[1]);
        assert(model_members(members@)[2] == ms[2]);
        assert(model_members(members@)[3] == ms[3]);
        assert(model_members(members@) =~= ms);
    }
    r
}

// ---------------------------------------------------------------------------
// Reading the hits of a search
// ---------------------------------------------------------------------------

/// `value_to_string`: a string as it is, a number as printed, a boolean as `true` or
/// `false`, an array by its first item; nothing for anything else.
pub open spec fn value_to_string_spec(m: JsonModel) -> Option<Seq<char>>
    decreases m,
{
    match m {
        JsonModel::Str(s) => Some(s),
        JsonModel::Number(t, _) => Some(t),
        JsonModel::Bool(b) => Some(if b { "true"@ } else { "false"@ }),
        JsonModel::Array(items) => if items.len() > 0 { value_to_string_spec(items[0]) } else { None },
        _ => None,
    }
}

pub fn value_to_string(v: &JsonValue) -> (r: Option<String>)
    ensures opt_view(r) == value_to_string_spec(v@),
    decreases v,
{
    match v {
        JsonValue::Str(s) => Some(copy_string(s)),
        JsonValue::Number(n) => Some(copy_string(&n.text)),
        JsonValue::Bool(b) => Some(owned(if *b { "true" } else { "false" })),
        JsonValue::Array(items) => {
            if items.len() > 0 {
                proof {
                    assert(decreases_to!(*v => (*v)->Array_0));
                    assert(decreases_to!(*items => items@));
                    assert(decreases_to!(items@ => items@[0]));
                    assert(model_items(items@)[0] == items@[0]@);
                }
                value_to_string(&items[0])
            } else {
                None
            }
        },
        _ => None,
    }
}

/// `dotted_lookup`: the value at a dotted path.
pub open spec fn dotted_lookup_spec(m: JsonModel, path: Seq<char>) -> Option<JsonModel> {
    crate::json::model_path(m, crate::text::split_char(path, '.'))
}

pub fn dotted_lookup<'a>(v: &'a JsonValue, path: &str) -> (r: Option<&'a JsonValue>)
    ensures
        match r {
            Some(x) => dotted_lookup_spec(v@, path@) == Some(x@),
            None => dotted_lookup_spec(v@, path@) is None,
        },
{
    let p = chars_of(path);
    let segments = crate::text::split_char_exec(&p, '.');
    let ghost sv = views(segments@);
    let mut cur: &JsonValue = v;
    let mut i: usize = 0;
    assert(sv.skip(0) =~= sv);
    while i < segments.len()
        invariant
            0 <= i <= segments@.len(),
            sv == views(segments@),
            sv == crate::text::split_char(path@, '.'),
            dotted_lookup_spec(v@, path@) == crate::json::model_path(cur@, sv.skip(i as int)),
        decreases segments@.len() - i,
    {
        assert(sv.skip(i as int)[0] == segments@[i as int]@);
        assert(sv.skip(i as int).drop_first() =~= sv.skip(i + 1));
        let key = string_of(&segments[i]);
        match crate::json::json_get(cur, key.as_str()) {
            Some(x) => {
                cur = x;
            },
            None => {
                return None;
            },
        }
        i += 1;
    }
    assert(sv.skip(i as int).len() == 0);
    Some(cur)
}

/// `first_string`: the first of the paths whose value reads as a non-blank string.
pub open spec fn first_string_spec(m: JsonModel, paths: Seq<Seq<char>>) -> Option<Seq<char>>
    decreases paths.len(),
{
    if paths.len() == 0 {
        None
    } else {
        let found = match dotted_lookup_spec(m, paths[0]) {
            Some(x) => value_to_string_spec(x),
            None => None,
        };
        match found {
            Some(f) => if !is_blank(f) { Some(f) } else { first_string_spec(m, paths.drop_first()) },
            None => first_string_spec(m, paths.drop_first()),
        }
    }
}

pub fn first_string(v: &JsonValue, paths: &[&str]) -> (r: Option<String>)
    ensures opt_view(r) == first_string_spec(v@, crate::json::path_views(paths@)),
{
    let ghost pv = crate::json::path_views(paths@);
    let mut i: usize = 0;
    assert(pv.skip(0) =~= pv);
    while i < paths.len()
        invariant
            0 <= i <= paths@.len(),
            pv == crate::json::path_views(paths@),
            first_string_spec(v@, pv) == first_string_spec(v@, pv.skip(i as int)),
        decreases paths@.len() - i,
    {
        assert(pv.skip(i as int)[0] == paths@[i as int]@);
        assert(pv.skip(i as int).drop_first() =~= pv.skip(i + 1));
        match dotted_lookup(v, paths[i]) {
            Some(x) => match value_to_string(x) {
                Some(f) => {
                    if !crate::text::is_blank_str(f.as_str()) {
                        return Some(f);
                    }
                },
                None => {},
            },
            None => {},
        }
        i += 1;
    }
    assert(pv.skip(i as int).len() == 0);
    None
}

pub open spec fn message_paths() -> Seq<Seq<char>> {
    seq!["message"@, "log.message"@, "error.message"@, "event.original"@]
}

pub open spec fn time_paths() -> Seq<Seq<char>> {
    seq!["@timestamp"@, "timestamp"@, "time"@]
}

pub open spec fn service_paths() -> Seq<Seq<char>> {
    seq!["service.name"@, "service"@, "app"@, "application"@]
}

pub open spec fn pod_paths() -> Seq<Seq<char>> {
    seq!["kubernetes.pod.name"@, "pod"@, "pod_name"@]
}

pub open spec fn level_paths() -> Seq<Seq<char>> {
    seq!["log.level"@, "level"@, "severity"@]
}

pub open spec fn trace_paths() -> Seq<Seq<char>> {
    seq!["traceId"@, "trace_id"@, "trace.id"@, "mdc.traceId"@, "labels.traceId"@]
}

/// The message of a hit's source, when the hit has a source and a non-blank message.
pub open spec fn hit_message(hit: JsonModel) -> Option<Seq<char>> {
    match crate::json::model_get(hit, "_source"@) {
        Some(source) => {
            let m = match first_string_spec(source, message_paths()) { Some(m) => m, None => Seq::empty() };
            if is_blank(m) { None } else { Some(m) }
        },
        None => None,
    }
}

/// The hits that become entries, in their order.
pub open spec fn kept_hits(hits: Seq<JsonModel>) -> Seq<JsonModel>
    decreases hits.len(),
{
    if hits.len() == 0 {
        Seq::empty()
    } else {
        let prev = kept_hits(hits.drop_last());
        if hit_message(hits.last()) is Some { prev.push(hits.last()) } else { prev }
    }
}

/// The hits of a search response: `hits.hits`, when it is an array.
pub open spec fn response_hits(payload: JsonModel) -> Seq<JsonModel> {
    match crate::json::model_path(payload, seq!["hits"@, "hits"@]) {
        Some(JsonModel::Array(items)) => items,
        _ => Seq::empty(),
    }
}

/// Whether an entry is read from a hit (kept by `kept_hits`): its source's message
/// sanitized, service and pod sanitized and masked (with defaults), level upper-cased (with
/// default `INFO`), trace id sanitized and masked, the environment given; its id is the
/// hit's `_id` and its timestamp the source's, when they have them.
pub open spec fn entry_reads_hit(e: LogEntry, hit: JsonModel, environment_id: Seq<char>) -> bool {
    let source = crate::json::model_get(hit, "_source"@)->Some_0;
    let pick = |paths: Seq<Seq<char>>, d: Seq<char>| match first_string_spec(source, paths) { Some(x) => x, None => d };
    &&& (crate::json::model_get_str(hit, "_id"@) matches Some(id) ==> e.id@ == id)
    &&& (first_string_spec(source, time_paths()) matches Some(t) ==> e.timestamp@ == t)
    &&& e.environment_id@ == environment_id
    &&& e.service@ == crate::hardening::sanitize_and_mask(pick(service_paths(), "unknown-service"@))
    &&& e.pod@ == crate::hardening::sanitize_and_mask(pick(pod_paths(), "unknown-pod"@))
    &&& e.level@ == crate::text::upper(pick(level_paths(), "INFO"@))
    &&& opt_view(e.trace_id) == match first_string_spec(source, trace_paths()) {
        Some(t) => Some(crate::hardening::sanitize_and_mask(t)),
        None => None,
    }
    &&& e.message@ == crate::hardening::sanitize_untrusted(hit_message(hit)->Some_0)
}

fn pick_or(source: &JsonValue, paths: &[&str], default: &str) -> (r: String)
    ensures
        r@ == match first_string_spec(source@, crate::json::path_views(paths@)) { Some(x) => x, None => default@ },
{
    match first_string(source, paths) {
        Some(x) => x,
        None => owned(default),
    }
}

/// The entry of one hit, when it has a source and a non-blank message.
fn hit_entry(hit: &JsonValue, environment_id: &str) -> (r: Option<LogEntry>)
    ensures
        match r {
            Some(e) => hit_message(hit@) is Some && entry_reads_hit(e, hit@, environment_id@),
            None => hit_message(hit@) is None,
        },
{
    let source = match crate::json::json_get(hit, "_source") {
        Some(s) => s,
        None => return None,
    };
    let mp: [&str; 4] = ["message", "log.message", "error.message", "event.original"];
    assert(crate::json::path_views(mp@) =~= message_paths());
    let message = match first_string(source, &mp) {
        Some(m) => m,
        None => String::new(),
    };
    if crate::text::is_blank_str(message.as_str()) {
        return None;
    }
    let tp: [&str; 3] = ["@timestamp", "timestamp", "time"];
    assert(crate::json::path_views(tp@) =~= time_paths());
    let timestamp = match first_string(source, &tp) {
        Some(t) => t,
        None => crate::system::now_rfc3339(),
    };
    let sp: [&str; 4] = ["service.name", "service", "app", "application"];
    assert(crate::json::path_views(sp@) =~= service_paths());
    let service = pick_or(source, &sp, "unknown-service");
    let pp: [&str; 3] = ["kubernetes.pod.name", "pod", "pod_name"];
    assert(crate::json::path_views(pp@) =~= pod_paths());
    let pod = pick_or(source, &pp, "unknown-pod");
    let lp: [&str; 3] = ["log.level", "level", "severity"];
    assert(crate::json::path_views(lp@) =~= level_paths());
    let level_raw = pick_or(source, &lp, "INFO");
    let level = string_of(&crate::text::to_upper(&chars_of(level_raw.as_str())));
    let trp: [&str; 5] = ["traceId", "trace_id", "trace.id", "mdc.traceId", "labels.traceId"];
    assert(crate::json::path_views(trp@) =~= trace_paths());
    let trace_id = match first_string(source, &trp) {
        Some(t) => Some(crate::hardening::sanitize_and_mask_text(t.as_str())),
        None => None,
    };
    let id = match crate::json::json_get_str(hit, "_id") {
        Some(x) => string_of(&x),
        None => crate::system::fresh_uuid(),
    };
    Some(LogEntry {
        id,
        timestamp,
        environment_id: owned(environment_id),
        service: crate::hardening::sanitize_and_mask_text(service.as_str()),
        pod: crate::hardening::sanitize_and_mask_text(pod.as_str()),
        level,
        trace_id,
        message: crate::hardening::sanitize_untrusted_text(message.as_str()),
    })
}

/// `parse_elk_hits`: the entries of the hits that have a source with a non-blank message,
/// in their order.
pub fn parse_elk_hits(payload: &JsonValue, environment_id: &str) -> (r: Vec<LogEntry>)
    ensures
        ({
            let kept = kept_hits(response_hits(payload@));
            &&& r@.len() == kept.len()
            &&& forall|i: int| 0 <= i < kept.len() ==> entry_reads_hit(#[trigger] r@[i], kept[i], environment_id@)
        }),
{
    let mut out: Vec<LogEntry> = Vec::new();
    let hp: [&str; 2] = ["hits", "hits"];
    assert(crate::json::path_views(hp@) =~= seq!["hits"@, "hits"@]);
    let items = match crate::json::json_path(payload, &hp) {
        Some(x) => match crate::json::json_array_items(x) {
            Some(items) => items,
            None => {
                assert(kept_hits(response_hits(payload@)) =~= Seq::<JsonModel>::empty());
                return out;
            },
        },
        None => {
            assert(kept_hits(response_hits(payload@)) =~= Seq::<JsonModel>::empty());
            return out;
        },
    };
    let ghost hs = model_items(items@);
    assert(hs == response_hits(payload@));
    let mut i: usize = 0;
    while i < items.len()
        invariant
            0 <= i <= items@.len(),
            hs == model_items(items@),
            out@.len() == kept_hits(hs.take(i as int)).len(),
            forall|j: int| 0 <= j < out@.len() ==> entry_reads_hit(#[trigger] out@[j], kept_hits(hs.take(i as int))[j], environment_id@),
        decreases items@.len() - i,
    {
        assert(hs.take(i + 1).drop_last() =~= hs.take(i as int));
        assert(hs.take(i + 1).last() == items@[i as int]@);
        match hit_entry(&items[i], environment_id) {
            Some(e) => {
                let ghost before = out@;
                out.push(e);
                assert forall|j: int| 0 <= j < out@.len() implies
                    entry_reads_hit(#[trigger] out@[j], kept_hits(hs.take(i + 1))[j], environment_id@) by {
                    if j < before.len() {
                        assert(out@[j] == before[j]);
                    }
                }
            },
            None => {},
        }
        i += 1;
    }
    assert(hs.take(items@.len() as int) =~= hs);
    out
}

// ---------------------------------------------------------------------------
// Time
// ---------------------------------------------------------------------------

/// The instant (seconds since the epoch, nanoseconds) that `DateTime::parse_from_rfc3339`
/// reads from a text, taken to UTC, or nothing where it reports an error.
pub uninterp spec fn spec_rfc3339_instant(text: Seq<char>) -> Option<(i64, u32)>;

/// `DateTime::parse_from_rfc3339(text).ok()` as seconds and nanoseconds in UTC.
#[verifier::external_body]
fn rfc3339_instant(text: &str) -> (r: Option<(i64, u32)>)
    ensures r == spec_rfc3339_instant(text@),
{
    chrono::DateTime::parse_from_rfc3339(text).ok().map(|t| {
        let u = t.with_timezone(&chrono::Utc);
        (u.timestamp(), u.timestamp_subsec_nanos())
    })
}

/// The text that `DateTime::<Utc>::from_timestamp(secs, nanos)` prints with `to_rfc3339`,
/// or nothing where the instant is out of range.
pub uninterp spec fn spec_instant_rfc3339(secs: i64, nanos: u32) -> Option<Seq<char>>;

/// `DateTime::<Utc>::from_timestamp(secs, nanos).map(|t| t.to_rfc3339())`.
#[verifier::external_body]
fn instant_rfc3339(secs: i64, nanos: u32) -> (r: Option<String>)
    ensures opt_view(r) == spec_instant_rfc3339(secs, nanos),
{
    chrono::DateTime::<chrono::Utc>::from_timestamp(secs, nanos).map(|t| t.to_rfc3339())
}

/// `Utc::now()` as seconds and nanoseconds: it reads the clock, so nothing is stated of it.
#[verifier::external_body]
fn now_instant() -> (i64, u32) {
    let now = chrono::Utc::now();
    (now.timestamp(), now.timestamp_subsec_nanos())
}

/// Whether an instant is no earlier than `minutes` before `now`.
pub open spec fn within_window(t: (i64, u32), now: (i64, u32), minutes: int) -> bool {
    t.0 > now.0 - 60 * minutes || (t.0 == now.0 - 60 * minutes && t.1 >= now.1)
}

// ---------------------------------------------------------------------------
// Filtering entries
// ---------------------------------------------------------------------------

/// A filter lowercased, when given.
pub open spec fn lower_filter(v: Option<String>) -> Option<Seq<char>> {
    match nonblank_trimmed_opt(opt_view(v)) {
        Some(x) => Some(lower(x)),
        None => None,
    }
}

pub open spec fn field_passes(value: Seq<char>, f: Option<Seq<char>>) -> bool {
    match f {
        Some(x) => crate::text::contains(lower(value), x),
        None => true,
    }
}

/// Whether an entry passes the search's filters at the time `now`: its environment, its
/// time within the range (an unreadable time passes), and each filter given, matched
/// without regard to ASCII case.
pub open spec fn entry_passes(e: LogEntry, input: LogSearchInput, now: (i64, u32)) -> bool {
    &&& e.environment_id@ == input.environment_id@
    &&& (spec_rfc3339_instant(e.timestamp@) matches Some(t) ==> within_window(t, now, range_minutes_spec(input.time_range@)))
    &&& field_passes(e.service@, lower_filter(input.service))
    &&& field_passes(e.pod@, lower_filter(input.pod))
    &&& field_passes(e.message@, lower_filter(input.keyword))
    &&& match lower_filter(input.trace_id) {
        Some(x) => e.trace_id matches Some(t) && crate::text::contains(lower(t@), x),
        None => true,
    }
}

pub open spec fn passing_entries(es: Seq<LogEntry>, input: LogSearchInput, now: (i64, u32)) -> Seq<LogEntry>
    decreases es.len(),
{
    if es.len() == 0 {
        Seq::empty()
    } else {
        let prev = passing_entries(es.drop_last(), input, now);
        if entry_passes(es.last(), input, now) { prev.push(es.last()) } else { prev }
    }
}

fn lower_filter_exec(v: &Option<String>) -> (r: Option<Vec<char>>)
    ensures
        match r {
            Some(x) => lower_filter(*v) == Some(x@),
            None => lower_filter(*v) is None,
        },
{
    match clean_filter(v) {
        Some(x) => Some(crate::text::to_lower(&chars_of(x.as_str()))),
        None => None,
    }
}

fn field_passes_exec(value: &str, f: &Option<Vec<char>>) -> (r: bool)
    ensures r == field_passes(value@, match f { Some(x) => Some(x@), None => None }),
{
    match f {
        Some(x) => {
            let l = crate::text::to_lower(&chars_of(value));
            crate::text::contains_exec(&l, x)
        },
        None => true,
    }
}

/// `filter_entries` at a given time.
pub fn filter_entries_at(entries: Vec<LogEntry>, input: &LogSearchInput, now: (i64, u32)) -> (r: Vec<LogEntry>)
    ensures r@ == passing_entries(entries@, *input, now),
{
    let service = lower_filter_exec(&input.service);
    let pod = lower_filter_exec(&input.pod);
    let keyword = lower_filter_exec(&input.keyword);
    let trace = lower_filter_exec(&input.trace_id);
    let minutes = duration_for_time_range(input.time_range.as_str());
    let threshold: i128 = (now.0 as i128) - 60 * (minutes as i128);
    let ghost es = entries@;
    let mut out: Vec<LogEntry> = Vec::new();
    let mut rest = entries;
    let mut taken: Vec<LogEntry> = Vec::new();
    while rest.len() > 0
        invariant
            rest@ + taken@.reverse() == es,
        decreases rest@.len(),
    {
        let ghost br = rest@;
        let ghost bt = taken@;
        let x = rest.pop().unwrap();
        taken.push(x);
        assert(rest@ =~= br.drop_last());
        assert(bt.push(x).reverse() =~= seq![x] + bt.reverse());
        assert(rest@ + taken@.reverse() =~= es);
    }
    assert(taken@.reverse() =~= es);
    let n = taken.len();
    let mut i: usize = 0;
    while taken.len() > 0
        invariant
            taken@.reverse() == es.skip(i as int),
            i <= es.len(),
            es.len() == n,
            minutes == range_minutes_spec(input.time_range@),
            threshold == now.0 - 60 * minutes,
            match service { Some(x) => lower_filter(input.service) == Some(x@), None => lower_filter(input.service) is None },
            match pod { Some(x) => lower_filter(input.pod) == Some(x@), None => lower_filter(input.pod) is None },
            match keyword { Some(x) => lower_filter(input.keyword) == Some(x@), None => lower_filter(input.keyword) is None },
            match trace { Some(x) => lower_filter(input.trace_id) == Some(x@), None => lower_filter(input.trace_id) is None },
            out@ == passing_entries(es.take(i as int), *input, now),
        decreases taken@.len(),
    {
        let ghost bt = taken@;
        let e = taken.pop().unwrap();
        proof {
            assert(bt.reverse()[0] == e);
            assert(taken@.reverse() =~= bt.reverse().drop_first());
            assert(es.skip(i as int)[0] == es[i as int]);
            assert(es.skip(i as int).drop_first() =~= es.skip(i + 1));
            assert(es.take(i + 1).drop_last() =~= es.take(i as int));
            assert(es.take(i + 1).last() == e);
        }
        let in_env = crate::text::str_eq(e.environment_id.as_str(), input.environment_id.as_str());
        let in_time = match rfc3339_instant(e.timestamp.as_str()) {
            Some(t) => (t.0 as i128) > threshold || ((t.0 as i128) == threshold && t.1 >= now.1),
            None => true,
        };
        let trace_ok = match &trace {
            Some(x) => match &e.trace_id {
                Some(t) => {
                    let l = crate::text::to_lower(&chars_of(t.as_str()));
                    crate::text::contains_exec(&l, x)
                },
                None => false,
            },
            None => true,
        };
        let keep = in_env && in_time && field_passes_exec(e.service.as_str(), &service)
            && field_passes_exec(e.pod.as_str(), &pod) && field_passes_exec(e.message.as_str(), &keyword) && trace_ok;
        proof {
            assert(keep == entry_passes(e, *input, now));
        }
        if keep {
            out.push(e);
        }
        i += 1;
    }
    assert(es.take(i as int) =~= es);
    out
}

/// `filter_entries`: the entries that pass the search's filters now.
pub fn filter_entries(entries: Vec<LogEntry>, input: &LogSearchInput) -> (r: Vec<LogEntry>)
    ensures exists|now: (i64, u32)| r@ == #[trigger] passing_entries(entries@, *input, now),
{
    let now = now_instant();
    filter_entries_at(entries, input, now)
}

// ---------------------------------------------------------------------------
// Clusters
// ---------------------------------------------------------------------------

pub open spec fn has_ascii_digit(t: Seq<char>) -> bool {
    exists|i: int| 0 <= i < t.len() && #[trigger] crate::text::is_ascii_digit(t[i])
}

/// A word of a message as clustering sees it: `<value>` when it holds a digit.
pub open spec fn normalized_word(t: Seq<char>) -> Seq<char> {
    if has_ascii_digit(t) { "<value>"@ } else { t }
}

/// `normalize_message`: the words of the message, each holding a digit replaced by
/// `<value>`, joined by single spaces and ASCII-lowercased.
pub open spec fn normalize_spec(message: Seq<char>) -> Seq<char> {
    let words = crate::text::split_whitespace(message);
    lower(join(Seq::new(words.len(), |i: int| normalized_word(words[i])), " "@))
}

fn has_digit_exec(t: &[char]) -> (r: bool)
    ensures r == has_ascii_digit(t@),
{
    let mut i: usize = 0;
    while i < t.len()
        invariant
            0 <= i <= t@.len(),
            forall|j: int| 0 <= j < i ==> !#[trigger] crate::text::is_ascii_digit(t@[j]),
        decreases t@.len() - i,
    {
        if crate::text::char_is_digit(t[i]) {
            return true;
        }
        i += 1;
    }
    false
}

pub fn normalize_message(message: &str) -> (r: Vec<char>)
    ensures r@ == normalize_spec(message@),
{
    let m = chars_of(message);
    let words = crate::text::split_whitespace_exec(&m);
    let ghost wv = views(words@);
    let mut parts: Vec<Vec<char>> = Vec::new();
    let mut i: usize = 0;
    while i < words.len()
        invariant
            0 <= i <= words@.len(),
            wv == views(words@),
            views(parts@) == Seq::new(i as nat, |q: int| normalized_word(wv[q])),
        decreases words@.len() - i,
    {
        let w = if has_digit_exec(&words[i]) { chars_of("<value>") } else { crate::text::copy_chars(&words[i]) };
        let ghost prev = parts@;
        parts.push(w);
        assert(wv[i as int] == words@[i as int]@);
        assert(views(parts@) =~= views(prev).push(w@));
        assert(views(parts@) =~= Seq::new((i + 1) as nat, |q: int| normalized_word(wv[q])));
        i += 1;
    }
    let joined = crate::text::join_exec(&parts, " ");
    crate::text::to_lower(&joined)
}

/// `cluster_label`: the trimmed message, cut to 64 characters with `...` when longer.
pub open spec fn cluster_label_spec(message: Seq<char>) -> Seq<char> {
    let t = trim(message);
    if t.len() > 64 { t.take(64) + "..."@ } else { t }
}

pub fn cluster_label(message: &str) -> (r: Vec<char>)
    ensures r@ == cluster_label_spec(message@),
{
    let t = trim_str(message);
    if t.len() > 64 {
        let mut p = crate::text::slice_chars(&t, 0, 64);
        push_str(&mut p, "...");
        assert(p@ =~= t@.take(64) + "..."@);
        p
    } else {
        t
    }
}

/// The id of a cluster: its key with spaces as hyphens.
pub open spec fn dashed(k: Seq<char>) -> Seq<char> {
    k.map_values(|c: char| if c == ' ' { '-' } else { c })
}

fn dashed_exec(k: &[char]) -> (r: Vec<char>)
    ensures r@ == dashed(k@),
{
    let mut r: Vec<char> = Vec::new();
    let mut i: usize = 0;
    while i < k.len()
        invariant
            0 <= i <= k@.len(),
            r@ == dashed(k@.take(i as int)),
        decreases k@.len() - i,
    {
        r.push(if k[i] == ' ' { '-' } else { k[i] });
        i += 1;
        assert(r@ =~= dashed(k@.take(i as int)));
    }
    assert(k@.take(k@.len() as int) =~= k@);
    r
}

/// The key of an entry: its normalized message.
pub open spec fn entry_key(e: LogEntry) -> Seq<char> {
    normalize_spec(e.message@)
}

pub open spec fn count_key(es: Seq<LogEntry>, k: Seq<char>) -> nat
    decreases es.len(),
{
    if es.len() == 0 {
        0
    } else {
        count_key(es.drop_last(), k) + if entry_key(es.last()) == k { 1nat } else { 0nat }
    }
}

/// The position of the first entry with a key; `-1` when there is none.
pub open spec fn first_index_of_key(es: Seq<LogEntry>, k: Seq<char>) -> int
    decreases es.len(),
{
    if es.len() == 0 {
        -1
    } else {
        let p = first_index_of_key(es.drop_last(), k);
        if p >= 0 { p } else if entry_key(es.last()) == k { es.len() - 1 } else { -1 }
    }
}

/// The services of the entries with a key, in order, repeats kept.
pub open spec fn key_services(es: Seq<LogEntry>, k: Seq<char>) -> Seq<Seq<char>>
    decreases es.len(),
{
    if es.len() == 0 {
        Seq::empty()
    } else {
        key_services(es.drop_last(), k) + if entry_key(es.last()) == k { seq![es.last().service@] } else { Seq::empty() }
    }
}

/// Whether a cluster gathers the entries with a key: its id, its count, its services (each
/// once, in ascending order), and the label, level, example and trace id of the first entry.
pub open spec fn cluster_for(es: Seq<LogEntry>, k: Seq<char>, c: LogCluster) -> bool {
    let f = es[first_index_of_key(es, k)];
    &&& 0 <= first_index_of_key(es, k) < es.len()
    &&& c.id@ == dashed(k)
    &&& c.count == count_key(es, k)
    &&& c.label@ == cluster_label_spec(f.message@)
    &&& c.level@ == f.level@
    &&& c.example_message@ == f.message@
    &&& opt_view(c.trace_id) == opt_view(f.trace_id)
    &&& crate::text::strictly_sorted(string_views(c.services@))
    &&& forall|s: Seq<char>| string_views(c.services@).contains(s) <==> key_services(es, k).contains(s)
}

/// Cluster `a` goes before cluster `b`: more entries, or as many and a smaller label.
pub open spec fn cluster_precedes(a: LogCluster, b: LogCluster) -> bool {
    a.count > b.count || (a.count == b.count && crate::text::text_less(a.label@, b.label@))
}

/// What `cluster_entries` returns: one cluster for each key of the entries, none twice,
/// ordered by count (largest first) and then by label. Clusters equal in count and label
/// may come in any order (the grouping goes through a hash map).
pub open spec fn clusters_of(es: Seq<LogEntry>, cs: Seq<LogCluster>, keys: Seq<Seq<char>>) -> bool {
    &&& keys.len() == cs.len()
    &&& keys.no_duplicates()
    &&& forall|i: int| 0 <= i < cs.len() ==> cluster_for(es, keys[i], #[trigger] cs[i])
    &&& forall|j: int| 0 <= j < es.len() ==> keys.contains(entry_key(#[trigger] es[j]))
    &&& forall|i: int, j: int| 0 <= i < j < cs.len() ==> !cluster_precedes(cs[j], cs[i])
}

/// The number of entries counted key by key over `keys`.
pub open spec fn counts_of_keys(es: Seq<LogEntry>, keys: Seq<Seq<char>>) -> nat
    decreases keys.len(),
{
    if keys.len() == 0 { 0 } else { counts_of_keys(es, keys.drop_last()) + count_key(es, keys.last()) }
}

/// The sum of the counts of clusters.
pub open spec fn cluster_total(cs: Seq<LogCluster>) -> nat
    decreases cs.len(),
{
    if cs.len() == 0 { 0 } else { cluster_total(cs.drop_last()) + cs.last().count as nat }
}

proof fn lemma_counts_empty(keys: Seq<Seq<char>>)
    ensures counts_of_keys(Seq::<LogEntry>::empty(), keys) == 0,
    decreases keys.len(),
{
    if keys.len() > 0 {
        lemma_counts_empty(keys.drop_last());
    }
}

proof fn lemma_counts_push(es: Seq<LogEntry>, x: LogEntry, keys: Seq<Seq<char>>)
    requires keys.no_duplicates(),
    ensures
        counts_of_keys(es.push(x), keys) == counts_of_keys(es, keys)
            + if keys.contains(entry_key(x)) { 1nat } else { 0nat },
    decreases keys.len(),
{
    if keys.len() > 0 {
        let ks = keys.drop_last();
        let k = keys.last();
        assert(ks.no_duplicates()) by {
            assert forall|i: int, j: int| 0 <= i < ks.len() && 0 <= j < ks.len() && i != j implies ks[i] != ks[j] by {
                assert(ks[i] == keys[i] && ks[j] == keys[j]);
            }
        }
        lemma_counts_push(es, x, ks);
        assert(es.push(x).drop_last() =~= es);
        if ks.contains(entry_key(x)) {
            let i = choose|i: int| 0 <= i < ks.len() && ks[i] == entry_key(x);
            assert(keys[i] == ks[i]);
            assert(entry_key(x) != k);
            assert(keys.contains(entry_key(x)));
        } else if entry_key(x) == k {
            assert(keys[keys.len() - 1] == k);
            assert(keys.contains(entry_key(x)));
        } else {
            assert forall|i: int| 0 <= i < keys.len() implies keys[i] != entry_key(x) by {
                if i < keys.len() - 1 {
                    assert(keys[i] == ks[i]);
                }
            }
        }
    }
}

proof fn lemma_counts_cover(es: Seq<LogEntry>, keys: Seq<Seq<char>>)
    requires
        keys.no_duplicates(),
        forall|j: int| 0 <= j < es.len() ==> keys.contains(entry_key(#[trigger] es[j])),
    ensures counts_of_keys(es, keys) == es.len(),
    decreases es.len(),
{
    if es.len() == 0 {
        lemma_counts_empty(keys);
        assert(es =~= Seq::<LogEntry>::empty());
    } else {
        let rest = es.drop_last();
        assert forall|j: int| 0 <= j < rest.len() implies keys.contains(entry_key(#[trigger] rest[j])) by {
            assert(rest[j] == es[j]);
        }
        lemma_counts_cover(rest, keys);
        lemma_counts_push(rest, es.last(), keys);
        assert(rest.push(es.last()) =~= es);
        assert(keys.contains(entry_key(es[es.len() - 1])));
    }
}

proof fn lemma_cluster_total_counts(es: Seq<LogEntry>, cs: Seq<LogCluster>, keys: Seq<Seq<char>>)
    requires
        keys.len() == cs.len(),
        forall|i: int| 0 <= i < cs.len() ==> cluster_for(es, keys[i], #[trigger] cs[i]),
    ensures cluster_total(cs) == counts_of_keys(es, keys),
    decreases cs.len(),
{
    if cs.len() > 0 {
        let cs2 = cs.drop_last();
        let ks2 = keys.drop_last();
        assert forall|i: int| 0 <= i < cs2.len() implies cluster_for(es, ks2[i], #[trigger] cs2[i]) by {
            assert(cs2[i] == cs[i] && ks2[i] == keys[i]);
        }
        lemma_cluster_total_counts(es, cs2, ks2);
        assert(cluster_for(es, keys[cs.len() - 1], cs[cs.len() - 1]));
    }
}

/// Clustering neither loses nor repeats an entry: the counts of the clusters add up to the
/// number of entries.
pub proof fn law_clusters_cover_entries(es: Seq<LogEntry>, cs: Seq<LogCluster>, keys: Seq<Seq<char>>)
    requires clusters_of(es, cs, keys),
    ensures cluster_total(cs) == es.len(),
{
    lemma_cluster_total_counts(es, cs, keys);
    lemma_counts_cover(es, keys);
}

proof fn lemma_key_facts_push(es: Seq<LogEntry>, x: LogEntry, k: Seq<char>)
    ensures
        first_index_of_key(es.push(x), k) == if first_index_of_key(es, k) >= 0 {
            first_index_of_key(es, k)
        } else if entry_key(x) == k {
            es.len() as int
        } else {
            -1
        },
        count_key(es.push(x), k) == count_key(es, k) + if entry_key(x) == k { 1nat } else { 0nat },
        key_services(es.push(x), k) == key_services(es, k) + if entry_key(x) == k { seq![x.service@] } else { Seq::empty() },
{
    assert(es.push(x).drop_last() =~= es);
}

proof fn lemma_first_index_bounds(es: Seq<LogEntry>, k: Seq<char>)
    ensures
        -1 <= first_index_of_key(es, k) < es.len(),
        first_index_of_key(es, k) >= 0 ==> entry_key(es[first_index_of_key(es, k)]) == k,
        first_index_of_key(es, k) < 0 ==> forall|j: int| 0 <= j < es.len() ==> entry_key(#[trigger] es[j]) != k,
        count_key(es, k) <= es.len(),
    decreases es.len(),
{
    if es.len() > 0 {
        lemma_first_index_bounds(es.drop_last(), k);
        let d = es.drop_last();
        assert forall|j: int| 0 <= j < d.len() implies d[j] == es[j] by {}
    }
}

proof fn lemma_not_precedes_transitive(a: LogCluster, b: LogCluster, c: LogCluster)
    requires !cluster_precedes(a, b), !cluster_precedes(b, c),
    ensures !cluster_precedes(a, c),
{
    if cluster_precedes(a, c) {
        if a.count == b.count && b.count == c.count {
            if a.label@ != b.label@ {
                crate::text::lemma_text_less_total(a.label@, b.label@);
            }
            if b.label@ != c.label@ {
                crate::text::lemma_text_less_total(b.label@, c.label@);
            }
            if a.label@ != b.label@ && b.label@ != c.label@ {
                crate::text::lemma_text_less_transitive(c.label@, b.label@, a.label@);
                crate::text::lemma_text_less_asymmetric(c.label@, a.label@);
            } else if a.label@ == b.label@ && b.label@ != c.label@ {
                crate::text::lemma_text_less_asymmetric(c.label@, b.label@);
            } else if a.label@ != b.label@ {
                crate::text::lemma_text_less_asymmetric(b.label@, a.label@);
            } else {
                crate::text::lemma_text_less_irreflexive(a.label@);
            }
        }
    }
}

proof fn lemma_precedes_asymmetric(a: LogCluster, b: LogCluster)
    requires cluster_precedes(a, b),
    ensures !cluster_precedes(b, a),
{
    if a.count == b.count {
        crate::text::lemma_text_less_asymmetric(a.label@, b.label@);
    }
}

fn cluster_precedes_exec(a: &LogCluster, b: &LogCluster) -> (r: bool)
    ensures r == cluster_precedes(*a, *b),
{
    if a.count > b.count {
        true
    } else if a.count == b.count {
        crate::text::text_less_exec(&chars_of(a.label.as_str()), &chars_of(b.label.as_str()))
    } else {
        false
    }
}

fn strings_of(v: &Vec<Vec<char>>) -> (r: Vec<String>)
    ensures string_views(r@) == views(v@),
{
    let mut r: Vec<String> = Vec::new();
    let mut i: usize = 0;
    while i < v.len()
        invariant
            0 <= i <= v@.len(),
            string_views(r@) == views(v@).take(i as int),
        decreases v@.len() - i,
    {
        let ghost prev = r@;
        let x = string_of(&v[i]);
        r.push(x);
        assert(views(v@)[i as int] == v@[i as int]@);
        assert(string_views(r@) =~= string_views(prev).push(x@));
        assert(string_views(r@) =~= views(v@).take(i + 1));
        i += 1;
    }
    assert(views(v@).take(v@.len() as int) =~= views(v@));
    r
}

/// The cluster of one key, given the keys of the entries.
fn build_cluster(entries: &[LogEntry], ekeys: &Vec<Vec<char>>, key: &Vec<char>, first: usize) -> (c: LogCluster)
    requires
        ekeys@.len() == entries@.len(),
        forall|t: int| 0 <= t < entries@.len() ==> (#[trigger] ekeys@[t])@ == entry_key(entries@[t]),
        first_index_of_key(entries@, key@) == first,
        first < entries@.len(),
    ensures cluster_for(entries@, key@, c),
{
    let ghost es = entries@;
    let mut count: usize = 0;
    let mut services: Vec<Vec<char>> = Vec::new();
    let mut t: usize = 0;
    while t < entries.len()
        invariant
            0 <= t <= entries@.len(),
            es == entries@,
            ekeys@.len() == entries@.len(),
            forall|q: int| 0 <= q < entries@.len() ==> (#[trigger] ekeys@[q])@ == entry_key(entries@[q]),
            count == count_key(es.take(t as int), key@),
            crate::text::strictly_sorted(views(services@)),
            forall|s: Seq<char>| views(services@).contains(s) <==> key_services(es.take(t as int), key@).contains(s),
        decreases entries@.len() - t,
    {
        proof {
            lemma_key_facts_push(es.take(t as int), es[t as int], key@);
            assert(es.take(t + 1) =~= es.take(t as int).push(es[t as int]));
            lemma_first_index_bounds(es.take(t as int), key@);
        }
        let ghost before = views(services@);
        if crate::text::chars_eq(&ekeys[t], key) {
            count += 1;
            let sv = chars_of(entries[t].service.as_str());
            crate::text::insert_sorted_unique(&mut services, &sv);
            proof {
                let ks0 = key_services(es.take(t as int), key@);
                assert forall|s: Seq<char>| views(services@).contains(s) <==> key_services(es.take(t + 1), key@).contains(s) by {
                    assert(key_services(es.take(t + 1), key@) == ks0 + seq![es[t as int].service@]);
                    if ks0.contains(s) {
                        let q = choose|q: int| 0 <= q < ks0.len() && ks0[q] == s;
                        assert((ks0 + seq![es[t as int].service@])[q] == s);
                    }
                    if s == es[t as int].service@ {
                        assert((ks0 + seq![es[t as int].service@])[ks0.len() as int] == s);
                    }
                    if (ks0 + seq![es[t as int].service@]).contains(s) {
                        let q = choose|q: int| 0 <= q < ks0.len() + 1 && (ks0 + seq![es[t as int].service@])[q] == s;
                        if q < ks0.len() {
                            assert(ks0[q] == s);
                        }
                    }
                }
            }
        } else {
            proof {
                assert(key_services(es.take(t + 1), key@) =~= key_services(es.take(t as int), key@));
            }
        }
        t += 1;
    }
    assert(es.take(entries@.len() as int) =~= es);
    let f = &entries[first];
    LogCluster {
        id: string_of(&dashed_exec(key)),
        label: string_of(&cluster_label(f.message.as_str())),
        level: copy_string(&f.level),
        count,
        services: strings_of(&services),
        example_message: copy_string(&f.message),
        trace_id: crate::text::copy_opt(&f.trace_id),
    }
}

/// `cluster_entries`: the entries grouped by normalized message.
pub fn cluster_entries(entries: &[LogEntry]) -> (r: Vec<LogCluster>)
    ensures exists|keys: Seq<Seq<char>>| #[trigger] clusters_of(entries@, r@, keys),
{
    let ghost es = entries@;
    let mut ekeys: Vec<Vec<char>> = Vec::new();
    let mut t: usize = 0;
    while t < entries.len()
        invariant
            0 <= t <= entries@.len(),
            ekeys@.len() == t,
            forall|q: int| 0 <= q < t ==> (#[trigger] ekeys@[q])@ == entry_key(entries@[q]),
        decreases entries@.len() - t,
    {
        ekeys.push(normalize_message(entries[t].message.as_str()));
        t += 1;
    }
    // Distinct keys in order of first appearance.
    let mut keys: Vec<Vec<char>> = Vec::new();
    let mut firsts: Vec<usize> = Vec::new();
    let mut i: usize = 0;
    while i < entries.len()
        invariant
            0 <= i <= entries@.len(),
            es == entries@,
            ekeys@.len() == entries@.len(),
            forall|q: int| 0 <= q < entries@.len() ==> (#[trigger] ekeys@[q])@ == entry_key(entries@[q]),
            firsts@.len() == keys@.len(),
            views(keys@).no_duplicates(),
            forall|j: int| 0 <= j < keys@.len() ==> first_index_of_key(es.take(i as int), #[trigger] views(keys@)[j]) == firsts@[j] as int,
            forall|j: int| 0 <= j < keys@.len() ==> 0 <= #[trigger] firsts@[j] < i,
            forall|q: int| 0 <= q < i ==> views(keys@).contains(entry_key(#[trigger] es[q])),
        decreases entries@.len() - i,
    {
        let ghost kv = views(keys@);
        proof {
            assert(es.take(i + 1) =~= es.take(i as int).push(es[i as int]));
            assert forall|j: int| 0 <= j < keys@.len() implies
                first_index_of_key(es.take(i + 1), #[trigger] views(keys@)[j]) == firsts@[j] as int by {
                lemma_key_facts_push(es.take(i as int), es[i as int], kv[j]);
            }
        }
        let mut j: usize = 0;
        let mut found = false;
        while !found && j < keys.len()
            invariant
                0 <= j <= keys@.len(),
                kv == views(keys@),
                i < ekeys@.len(),
                found ==> j < keys@.len() && kv[j as int] == ekeys@[i as int]@,
                forall|q: int| 0 <= q < j ==> kv[q] != ekeys@[i as int]@,
            decreases keys@.len() - j, if found { 0int } else { 1int },
        {
            if crate::text::chars_eq(&keys[j], &ekeys[i]) {
                found = true;
            } else {
                j += 1;
            }
        }
        if !found {
            proof {
                lemma_key_facts_push(es.take(i as int), es[i as int], ekeys@[i as int]@);
                lemma_first_index_bounds(es.take(i as int), ekeys@[i as int]@);
                if first_index_of_key(es.take(i as int), ekeys@[i as int]@) >= 0 {
                    let q = first_index_of_key(es.take(i as int), ekeys@[i as int]@);
                    assert(es.take(i as int)[q] == es[q]);
                    assert(kv.contains(entry_key(es[q])));
                }
            }
            keys.push(crate::text::copy_chars(&ekeys[i]));
            firsts.push(i);
            proof {
                let ek = ekeys@[i as int]@;
                assert(views(keys@) =~= kv.push(ek));
                assert(views(keys@).no_duplicates()) by {
                    assert forall|a: int, b: int| 0 <= a < views(keys@).len() && 0 <= b < views(keys@).len() && a != b
                        implies views(keys@)[a] != views(keys@)[b] by {
                        if a < kv.len() && b < kv.len() {
                            assert(views(keys@)[a] == kv[a] && views(keys@)[b] == kv[b]);
                        }
                    }
                }
                assert(first_index_of_key(es.take(i + 1), ek) == i as int);
                assert forall|w: int| 0 <= w < keys@.len() implies
                    first_index_of_key(es.take(i + 1), #[trigger] views(keys@)[w]) == firsts@[w] as int by {
                    if w < kv.len() {
                        assert(views(keys@)[w] == kv[w]);
                        lemma_key_facts_push(es.take(i as int), es[i as int], kv[w]);
                    }
                }
            }
        }
        proof {
            let kn = views(keys@);
            assert forall|q: int| 0 <= q < i + 1 implies kn.contains(entry_key(#[trigger] es[q])) by {
                if q < i {
                    assert(kv.contains(entry_key(es[q])));
                    let w = choose|w: int| 0 <= w < kv.len() && kv[w] == entry_key(es[q]);
                    assert(kn[w] == kv[w]);
                } else if found {
                    assert(kn[j as int] == entry_key(es[q]));
                } else {
                    assert(kn[kv.len() as int] == entry_key(es[q]));
                }
            }
        }
        i += 1;
    }
    assert(es.take(entries@.len() as int) =~= es);
    // One cluster per key, then the clusters sorted, their keys moved along.
    let mut out: Vec<LogCluster> = Vec::new();
    let ghost mut okeys: Seq<Seq<char>> = Seq::empty();
    let ghost kv = views(keys@);
    let mut j: usize = 0;
    while j < keys.len()
        invariant
            0 <= j <= keys@.len(),
            es == entries@,
            kv == views(keys@),
            firsts@.len() == keys@.len(),
            kv.no_duplicates(),
            ekeys@.len() == entries@.len(),
            forall|q: int| 0 <= q < entries@.len() ==> (#[trigger] ekeys@[q])@ == entry_key(entries@[q]),
            forall|w: int| 0 <= w < keys@.len() ==> first_index_of_key(es, #[trigger] kv[w]) == firsts@[w] as int,
            forall|w: int| 0 <= w < keys@.len() ==> 0 <= #[trigger] firsts@[w] < entries@.len(),
            okeys.len() == out@.len(),
            okeys.to_set() == kv.take(j as int).to_set(),
            okeys.no_duplicates(),
            forall|q: int| 0 <= q < out@.len() ==> cluster_for(es, okeys[q], #[trigger] out@[q]),
            forall|a: int, b: int| 0 <= a < b < out@.len() ==> !cluster_precedes(out@[b], out@[a]),
        decreases keys@.len() - j,
    {
        assert(kv[j as int] == keys@[j as int]@);
        let c = build_cluster(entries, &ekeys, &keys[j], firsts[j]);
        let ghost before = out@;
        let ghost bk = okeys;
        let mut p: usize = out.len();
        let mut moving = p > 0 && cluster_precedes_exec(&c, &out[p - 1]);
        while moving
            invariant
                0 <= p <= out@.len(),
                before == out@,
                moving == (p > 0 && cluster_precedes(c, before[p - 1])),
                forall|q: int| p <= q < before.len() ==> cluster_precedes(c, #[trigger] before[q]),
            decreases p,
        {
            p -= 1;
            moving = p > 0 && cluster_precedes_exec(&c, &out[p - 1]);
        }
        proof {
            assert(!kv.take(j as int).contains(kv[j as int])) by {
                if kv.take(j as int).contains(kv[j as int]) {
                    let w = choose|w: int| 0 <= w < j && kv.take(j as int)[w] == kv[j as int];
                    assert(kv[w] == kv[j as int]);
                }
            }
            assert(!bk.contains(kv[j as int])) by {
                if bk.contains(kv[j as int]) {
                    assert(bk.to_set().contains(kv[j as int]));
                    assert(kv.take(j as int).to_set().contains(kv[j as int]));
                }
            }
            okeys = bk.insert(p as int, kv[j as int]);
        }
        out.insert(p, c);
        proof {
            let after = out@;
            assert(after =~= before.insert(p as int, c));
            assert forall|q: int| 0 <= q < after.len() implies cluster_for(es, okeys[q], #[trigger] after[q]) by {
                if q < p {
                    assert(after[q] == before[q] && okeys[q] == bk[q]);
                } else if q > p {
                    assert(after[q] == before[q - 1] && okeys[q] == bk[q - 1]);
                }
            }
            assert forall|a: int, b: int| 0 <= a < b < after.len() implies !cluster_precedes(after[b], after[a]) by {
                if b < p {
                    assert(after[a] == before[a] && after[b] == before[b]);
                } else if b == p {
                    assert(after[a] == before[a]);
                    if a < p - 1 {
                        lemma_not_precedes_transitive(c, before[p - 1], before[a]);
                    }
                } else if a == p {
                    assert(after[b] == before[b - 1]);
                    lemma_precedes_asymmetric(c, before[b - 1]);
                } else if a < p {
                    assert(after[a] == before[a] && after[b] == before[b - 1]);
                } else {
                    assert(after[a] == before[a - 1] && after[b] == before[b - 1]);
                }
            }
            assert(okeys.to_set() =~= kv.take(j + 1).to_set()) by {
                let kt1 = kv.take(j + 1);
                let kt0 = kv.take(j as int);
                assert forall|k: Seq<char>| okeys.to_set().contains(k) <==> kv.take(j + 1).to_set().contains(k) by {
                    if okeys.contains(k) {
                        let q = choose|q: int| 0 <= q < okeys.len() && okeys[q] == k;
                        if q < p {
                            assert(bk[q] == k);
                            assert(bk.contains(k));
                            assert(kv.take(j as int).to_set().contains(k));
                            let w = choose|w: int| 0 <= w < kt0.len() && kt0[w] == k;
                            assert(kv.take(j + 1)[w] == k);
                        } else if q > p {
                            assert(bk[q - 1] == k);
                            assert(bk.contains(k));
                            assert(kv.take(j as int).to_set().contains(k));
                            let w = choose|w: int| 0 <= w < kt0.len() && kt0[w] == k;
                            assert(kv.take(j + 1)[w] == k);
                        } else {
                            assert(kv.take(j + 1)[j as int] == k);
                        }
                    }
                    if kv.take(j + 1).contains(k) {
                        let w = choose|w: int| 0 <= w < kt1.len() && kt1[w] == k;
                        if w < j {
                            assert(kv.take(j as int)[w] == k);
                            assert(kv.take(j as int).to_set().contains(k));
                            assert(bk.to_set().contains(k));
                            let q = choose|q: int| 0 <= q < bk.len() && bk[q] == k;
                            if q < p {
                                assert(okeys[q] == k);
                            } else {
                                assert(okeys[q + 1] == k);
                            }
                        } else {
                            assert(okeys[p as int] == k);
                        }
                    }
                }
            }
            assert(okeys.no_duplicates()) by {
                assert forall|a: int, b: int| 0 <= a < okeys.len() && 0 <= b < okeys.len() && a != b implies okeys[a] != okeys[b] by {
                    if a != p && b != p {
                        let a0 = if a < p { a } else { a - 1 };
                        let b0 = if b < p { b } else { b - 1 };
                        assert(okeys[a] == bk[a0] && okeys[b] == bk[b0]);
                    } else if a == p {
                        let b0 = if b < p { b } else { b - 1 };
                        assert(okeys[b] == bk[b0]);
                    } else {
                        let a0 = if a < p { a } else { a - 1 };
                        assert(okeys[a] == bk[a0]);
                    }
                }
            }
        }
        j += 1;
    }
    proof {
        assert(kv.take(keys@.len() as int) =~= kv);
        assert forall|q: int| 0 <= q < es.len() implies okeys.contains(entry_key(#[trigger] es[q])) by {
            assert(kv.contains(entry_key(es[q])));
            assert(kv.to_set().contains(entry_key(es[q])));
            assert(okeys.to_set().contains(entry_key(es[q])));
        }
        assert(clusters_of(es, out@, okeys));
    }
    out
}

// ---------------------------------------------------------------------------
// Summary, sample entries and the response
// ---------------------------------------------------------------------------

pub open spec fn count_level(es: Seq<LogEntry>, level: Seq<char>) -> nat
    decreases es.len(),
{
    if es.len() == 0 {
        0
    } else {
        count_level(es.drop_last(), level) + if es.last().level@ == level { 1nat } else { 0nat }
    }
}

proof fn lemma_count_level_bound(es: Seq<LogEntry>, level: Seq<char>)
    ensures count_level(es, level) <= es.len(),
    decreases es.len(),
{
    if es.len() > 0 {
        lemma_count_level_bound(es.drop_last(), level);
    }
}

pub open spec fn log_summary_view(s: LogSummary) -> (Seq<char>, Seq<Seq<char>>, Seq<Seq<char>>) {
    (s.headline@, string_views(s.likely_causes@), string_views(s.recommended_next_steps@))
}

/// What `build_summary` returns for a search.
pub open spec fn log_summary_spec(input: LogSearchInput, es: Seq<LogEntry>, cs: Seq<LogCluster>)
    -> (Seq<char>, Seq<Seq<char>>, Seq<Seq<char>>)
{
    if es.len() == 0 {
        (
            "No log events matched the current filters in "@ + input.environment_id@ + " for "@ + input.time_range@ + "."@,
            seq!["The filter is too narrow, especially service, pod, or traceId."@,
                "The incident may be outside the selected time range."@],
            seq!["Expand the time range to 6h or 24h."@,
                "Retry without pod and traceId filters to find the broader error pattern."@],
        )
    } else {
        let top_text = if cs.len() > 0 {
            "Top cluster: "@ + cs[0].label@ + " ("@ + decimal(cs[0].count as nat) + ")"@
        } else {
            "No dominant cluster yet."@
        };
        let dominant = if cs.len() > 0 {
            seq![cs[0].label@ + " is the dominant repeated failure pattern across "@ + decimal(cs[0].services@.len())
                + " service(s)."@]
        } else {
            Seq::empty()
        };
        let weight = if count_level(es, "ERROR"@) > count_level(es, "WARN"@) {
            "The result set is error-heavy, which suggests an active failure rather than startup noise."@
        } else {
            "Warnings are still prominent, which can indicate a degrading dependency before full failure."@
        };
        let last = match nonblank_trimmed_opt(opt_view(input.service)) {
            Some(service) => "Compare "@ + service + " logs with Kubernetes events and restart counts in the same window."@,
            None => "Add a service filter after the first broad pass to tighten the error narrative."@,
        };
        (
            decimal(es.len()) + " matching events in "@ + input.time_range@ + ". "@ + top_text,
            dominant.push(weight),
            seq!["Attach the dominant cluster to chat so the assistant can correlate it with pods and recent deploys."@,
                "Pivot on the traceId or pod from the hottest sample to isolate one failing request path."@, last],
        )
    }
}

pub fn build_summary(input: &LogSearchInput, entries: &Vec<LogEntry>, clusters: &Vec<LogCluster>) -> (r: LogSummary)
    ensures log_summary_view(r) == log_summary_spec(*input, entries@, clusters@),
{
    if entries.len() == 0 {
        let mut h = chars_of("No log events matched the current filters in ");
        push_str(&mut h, input.environment_id.as_str());
        push_str(&mut h, " for ");
        push_str(&mut h, input.time_range.as_str());
        push_str(&mut h, ".");
        let mut causes: Vec<String> = Vec::new();
        causes.push(owned("The filter is too narrow, especially service, pod, or traceId."));
        causes.push(owned("The incident may be outside the selected time range."));
        let mut steps: Vec<String> = Vec::new();
        steps.push(owned("Expand the time range to 6h or 24h."));
        steps.push(owned("Retry without pod and traceId filters to find the broader error pattern."));
        let r = LogSummary { headline: string_of(&h), likely_causes: causes, recommended_next_steps: steps };
        proof {
            let sp = log_summary_spec(*input, entries@, clusters@);
            assert(string_views(r.likely_causes@) =~= sp.1);
            assert(string_views(r.recommended_next_steps@) =~= sp.2);
        }
        return r;
    }
    let mut errors: usize = 0;
    let mut warns: usize = 0;
    let mut i: usize = 0;
    while i < entries.len()
        invariant
            0 <= i <= entries@.len(),
            errors == count_level(entries@.take(i as int), "ERROR"@),
            warns == count_level(entries@.take(i as int), "WARN"@),
        decreases entries@.len() - i,
    {
        assert(entries@.take(i + 1).drop_last() =~= entries@.take(i as int));
        proof {
            lemma_count_level_bound(entries@.take(i as int), "ERROR"@);
            lemma_count_level_bound(entries@.take(i as int), "WARN"@);
        }
        if crate::text::str_eq(entries[i].level.as_str(), "ERROR") {
            errors += 1;
        }
        if crate::text::str_eq(entries[i].level.as_str(), "WARN") {
            warns += 1;
        }
        i += 1;
    }
    assert(entries@.take(entries@.len() as int) =~= entries@);
    let mut top_text: Vec<char>;
    let mut causes: Vec<String> = Vec::new();
    if clusters.len() > 0 {
        let c = &clusters[0];
        top_text = chars_of("Top cluster: ");
        push_str(&mut top_text, c.label.as_str());
        push_str(&mut top_text, " (");
        crate::text::push_decimal(&mut top_text, c.count as u64);
        push_str(&mut top_text, ")");
        let mut d = chars_of(c.label.as_str());
        push_str(&mut d, " is the dominant repeated failure pattern across ");
        crate::text::push_decimal(&mut d, c.services.len() as u64);
        push_str(&mut d, " service(s).");
        causes.push(string_of(&d));
    } else {
        top_text = chars_of("No dominant cluster yet.");
    }
    if errors > warns {
        causes.push(owned("The result set is error-heavy, which suggests an active failure rather than startup noise."));
    } else {
        causes.push(owned("Warnings are still prominent, which can indicate a degrading dependency before full failure."));
    }
    let mut steps: Vec<String> = Vec::new();
    steps.push(owned("Attach the dominant cluster to chat so the assistant can correlate it with pods and recent deploys."));
    steps.push(owned("Pivot on the traceId or pod from the hottest sample to isolate one failing request path."));
    match clean_filter(&input.service) {
        Some(service) => {
            let mut m = chars_of("Compare ");
            push_str(&mut m, service.as_str());
            push_str(&mut m, " logs with Kubernetes events and restart counts in the same window.");
            steps.push(string_of(&m));
        },
        None => {
            steps.push(owned("Add a service filter after the first broad pass to tighten the error narrative."));
        },
    }
    let mut h: Vec<char> = Vec::new();
    crate::text::push_decimal(&mut h, entries.len() as u64);
    push_str(&mut h, " matching events in ");
    push_str(&mut h, input.time_range.as_str());
    push_str(&mut h, ". ");
    push_chars(&mut h, &top_text);
    let r = LogSummary { headline: string_of(&h), likely_causes: causes, recommended_next_steps: steps };
    proof {
        let sp = log_summary_spec(*input, entries@, clusters@);
        assert(string_views(r.likely_causes@) =~= sp.1);
        assert(string_views(r.recommended_next_steps@) =~= sp.2);
    }
    r
}

/// The built-in sample entries: minutes before now, environment, service, pod, level,
/// trace id and message.
pub open spec fn sample_row(i: int) -> (int, Seq<char>, Seq<char>, Seq<char>, Seq<char>, Seq<char>, Seq<char>) {
    if i == 0 {
        (9, "prod"@, "payment-api"@, "payment-api-6b7c9c8d4f-29kqm"@, "ERROR"@, "trace-pay-1842"@,
            "Redis command timeout after 2000ms while loading checkout session 1842"@)
    } else if i == 1 {
        (8, "prod"@, "payment-api"@, "payment-api-6b7c9c8d4f-29kqm"@, "ERROR"@, "trace-pay-1843"@,
            "Redis command timeout after 2000ms while loading checkout session 1843"@)
    } else if i == 2 {
        (7, "prod"@, "payment-worker"@, "payment-worker-77c88c4f8f-k2xnl"@, "WARN"@, "trace-pay-1843"@,
            "Downstream inventory request exceeded 1500ms threshold for order 59201"@)
    } else if i == 3 {
        (6, "prod"@, "gateway"@, "gateway-75bc9f7d6d-zx6qt"@, "ERROR"@, "trace-gw-5530"@,
            "Upstream payment-api returned HTTP 502 for request 5530"@)
    } else if i == 4 {
        (4, "prod"@, "payment-api"@, "payment-api-6b7c9c8d4f-xh4nm"@, "ERROR"@, "trace-pay-1844"@,
            "Redis command timeout after 2000ms while loading checkout session 1844"@)
    } else if i == 5 {
        (42, "test"@, "payment-api"@, "payment-api-54d95f7b8d-gv6dm"@, "WARN"@, "trace-test-221"@,
            "Nacos config refresh took 420ms for dataId payment-service.yaml"@)
    } else {
        (39, "test"@, "gateway"@, "gateway-5cf7d459fd-7qk8f"@, "ERROR"@, "trace-test-223"@,
            "Downstream payment-api returned HTTP 504 for request 223"@)
    }
}

fn sample_row_exec(i: usize) -> (r: (i64, &'static str, &'static str, &'static str, &'static str, &'static str, &'static str))
    requires i < 7,
    ensures
        (r.0 as int, r.1@, r.2@, r.3@, r.4@, r.5@, r.6@) == sample_row(i as int),
{
    if i == 0 {
        (9, "prod", "payment-api", "payment-api-6b7c9c8d4f-29kqm", "ERROR", "trace-pay-1842",
            "Redis command timeout after 2000ms while loading checkout session 1842")
    } else if i == 1 {
        (8, "prod", "payment-api", "payment-api-6b7c9c8d4f-29kqm", "ERROR", "trace-pay-1843",
            "Redis command timeout after 2000ms while loading checkout session 1843")
    } else if i == 2 {
        (7, "prod", "payment-worker", "payment-worker-77c88c4f8f-k2xnl", "WARN", "trace-pay-1843",
            "Downstream inventory request exceeded 1500ms threshold for order 59201")
    } else if i == 3 {
        (6, "prod", "gateway", "gateway-75bc9f7d6d-zx6qt", "ERROR", "trace-gw-5530",
            "Upstream payment-api returned HTTP 502 for request 5530")
    } else if i == 4 {
        (4, "prod", "payment-api", "payment-api-6b7c9c8d4f-xh4nm", "ERROR", "trace-pay-1844",
            "Redis command timeout after 2000ms while loading checkout session 1844")
    } else if i == 5 {
        (42, "test", "payment-api", "payment-api-54d95f7b8d-gv6dm", "WARN", "trace-test-221",
            "Nacos config refresh took 420ms for dataId payment-service.yaml")
    } else {
        (39, "test", "gateway", "gateway-5cf7d459fd-7qk8f", "ERROR", "trace-test-223",
            "Downstream payment-api returned HTTP 504 for request 223")
    }
}

/// Whether an entry is the sample row at the time `now`; its id is fresh.
pub open spec fn sample_entry_at(e: LogEntry, i: int, now: (i64, u32)) -> bool {
    let row = sample_row(i);
    &&& (now.0 - 60 * row.0 >= i64::MIN ==>
        (spec_instant_rfc3339((now.0 - 60 * row.0) as i64, now.1) matches Some(t) ==> e.timestamp@ == t))
    &&& e.environment_id@ == row.1
    &&& e.service@ == row.2
    &&& e.pod@ == row.3
    &&& e.level@ == row.4
    &&& opt_view(e.trace_id) == Some(row.5)
    &&& e.message@ == row.6
}

/// Whether the entries are the sample rows at the time `now`.
pub open spec fn samples_at(es: Seq<LogEntry>, now: (i64, u32)) -> bool {
    es.len() == 7 && forall|i: int| 0 <= i < 7 ==> sample_entry_at(#[trigger] es[i], i, now)
}

/// `sample_entries` at the time `now`.
pub fn sample_entries_at(now: (i64, u32)) -> (r: Vec<LogEntry>)
    ensures
        r@.len() == 7,
        forall|i: int| 0 <= i < 7 ==> sample_entry_at(#[trigger] r@[i], i, now),
{
    let mut r: Vec<LogEntry> = Vec::new();
    let mut i: usize = 0;
    while i < 7
        invariant
            0 <= i <= 7,
            r@.len() == i,
            forall|j: int| 0 <= j < i ==> sample_entry_at(#[trigger] r@[j], j, now),
        decreases 7 - i,
    {
        let row = sample_row_exec(i);
        let timestamp = match now.0.checked_sub(60 * row.0) {
            Some(secs) => match instant_rfc3339(secs, now.1) {
                Some(t) => t,
                None => crate::system::now_rfc3339(),
            },
            None => crate::system::now_rfc3339(),
        };
        let e = LogEntry {
            id: crate::system::fresh_uuid(),
            timestamp,
            environment_id: owned(row.1),
            service: owned(row.2),
            pod: owned(row.3),
            level: owned(row.4),
            trace_id: Some(owned(row.5)),
            message: owned(row.6),
        };
        r.push(e);
        i += 1;
    }
    r
}

/// `sample_entries`: the built-in entries that the search shows without an ELK profile,
/// timed relative to now.
pub fn sample_entries() -> (r: Vec<LogEntry>)
    ensures exists|now: (i64, u32)| #[trigger] samples_at(r@, now),
{
    let now = now_instant();
    let r = sample_entries_at(now);
    assert(samples_at(r@, now));
    r
}

/// The request body of an ELK search: the query of `build_elk_query`, printed as JSON.
pub fn elk_request_body(input: &LogSearchInput, config: &ElkProfileConfig) -> (r: String)
    ensures r@ == spec_render_json(elk_query_spec(*input, elk_config_view(*config))),
{
    let query = build_elk_query(input, config);
    crate::json::render_json(&query)
}

/// The entries that a search response's hits give (see `parse_elk_hits`).
pub open spec fn entries_of_hits(es: Seq<LogEntry>, payload: JsonModel, environment_id: Seq<char>) -> bool {
    let kept = kept_hits(response_hits(payload));
    &&& es.len() == kept.len()
    &&& forall|i: int| 0 <= i < kept.len() ==> entry_reads_hit(#[trigger] es[i], kept[i], environment_id)
}

/// The entries of an ELK search response body: the hits of the JSON document, or, where
/// the body is not JSON, the parser's message.
pub fn elk_entries_from_body(profile_name: &str, body: &str, environment_id: &str) -> (r: Result<Vec<LogEntry>, String>)
    ensures
        match r {
            Ok(es) => spec_parse_json(body@) matches Some(doc) && entries_of_hits(es@, doc, environment_id@),
            Err(e) => spec_parse_json(body@) is None
                && e@ == "Invalid ELK response for "@ + profile_name@ + ": "@ + spec_parse_json_error(body@),
        },
{
    match crate::json::parse_json_or_error(body) {
        Ok(doc) => Ok(parse_elk_hits(&doc, environment_id)),
        Err(e) => {
            let mut m = chars_of("Invalid ELK response for ");
            push_str(&mut m, profile_name);
            push_str(&mut m, ": ");
            push_str(&mut m, e.as_str());
            Err(string_of(&m))
        },
    }
}

/// `search_logs` once the entries are read: the response with the query line, the
/// clusters and the summary.
pub fn log_search_response(input: &LogSearchInput, adapter_mode: String, entries: Vec<LogEntry>) -> (r: LogSearchResponse)
    ensures
        r.environment_id@ == input.environment_id@,
        r.time_range@ == input.time_range@,
        r.adapter_mode@ == adapter_mode@,
        r.executed_query@ == query_string_spec(*input),
        r.entries@ == entries@,
        exists|keys: Seq<Seq<char>>| #[trigger] clusters_of(entries@, r.clusters@, keys),
        log_summary_view(r.summary) == log_summary_spec(*input, entries@, r.clusters@),
{
    let query = build_query_string(input);
    let clusters = cluster_entries(entries.as_slice());
    let ghost keys = choose|keys: Seq<Seq<char>>| #[trigger] clusters_of(entries@, clusters@, keys);
    let summary = build_summary(input, &entries, &clusters);
    assert(clusters_of(entries@, clusters@, keys));
    let ghost es = entries@;
    let r = LogSearchResponse {
        environment_id: copy_string(&input.environment_id),
        time_range: copy_string(&input.time_range),
        adapter_mode,
        executed_query: query,
        entries,
        clusters,
        summary,
    };
    assert(clusters_of(es, r.clusters@, keys));
    r
}

/// The adapter line of a search through an ELK profile.
pub fn elk_adapter_mode(profile: &ConnectionProfile) -> (r: String)
    ensures r@ == "elk-http-search ("@ + profile.endpoint@ + ")"@,
{
    let mut m = chars_of("elk-http-search (");
    push_str(&mut m, profile.endpoint.as_str());
    push_str(&mut m, ")");
    string_of(&m)
}

/// How a search authenticates: basic with the profile's username (and secret), a bearer
/// token (the secret), or not at all.
pub enum ElkAuth {
    Basic(String),
    Bearer,
    Anonymous,
}

/// `fetch_elk_entries`'s choice: a non-blank username means basic authentication, else a
/// stored secret means a bearer token.
pub fn elk_auth(profile: &ConnectionProfile) -> (r: ElkAuth)
    ensures
        match r {
            ElkAuth::Basic(u) => crate::ssh::nonblank_opt(opt_view(profile.username)) == Some(u@),
            ElkAuth::Bearer => crate::ssh::nonblank_opt(opt_view(profile.username)) is None && profile.has_secret,
            ElkAuth::Anonymous => crate::ssh::nonblank_opt(opt_view(profile.username)) is None && !profile.has_secret,
        },
{
    match &profile.username {
        Some(u) => if !crate::text::is_blank_str(u.as_str()) {
            return ElkAuth::Basic(copy_string(u));
        },
        None => {},
    }
    if profile.has_secret { ElkAuth::Bearer } else { ElkAuth::Anonymous }
}

/// The message of a search that the server refused.
pub fn elk_failure_message(profile_name: &str, status: &str, body: &str) -> (r: String)
    ensures
        r@ == "ELK request failed for "@ + profile_name@ + " with status "@ + status@ + ": "@
            + crate::hardening::sanitize_and_mask(trim(body@)),
{
    let t = trim_str(body);
    let ts = string_of(&t);
    let clean = crate::hardening::sanitize_and_mask_text(ts.as_str());
    let mut m = chars_of("ELK request failed for ");
    push_str(&mut m, profile_name);
    push_str(&mut m, " with status ");
    push_str(&mut m, status);
    push_str(&mut m, ": ");
    push_str(&mut m, clean.as_str());
    string_of(&m)
}

} // verus!
