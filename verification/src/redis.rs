//! Redis diagnostics: endpoint parsing, INFO parsing, health metrics, slowlog and
//! latency-event extraction, and the summary of an analysis.
use chrono::TimeZone;
use vstd::prelude::*;

use crate::json::{json_get_bool, json_get_u64, model_get_bool, model_get_u64, parse_json, spec_parse_json, JsonModel};
use crate::hardening::{sanitize_and_mask, sanitize_and_mask_text};
use crate::models::{ConnectionProfile, RedisInfoMetric, RedisLogLine, RedisSlowQuery, RedisSummary};
use crate::text::{decimal_int, join, join_exec, push_decimal_int, string_views, views};
use crate::resp::{model_as_i64, model_as_string, redis_items_model, RedisModel, RedisValue};
use crate::text::{
    chars_eq_str, chars_of, decimal, decimal_02, has_char, is_blank, is_blank_str, owned, parse_u16,
    parse_unsigned, push_chars, push_decimal, push_decimal_02, push_str, rsplit_once, rsplit_once_exec,
    split_once, split_once_exec, starts_with, starts_with_str, string_of, trim, trim_exec, trim_str,
    first_index_of, is_first_index, slice_chars, parse_u64,
};

verus! {

// ---------------------------------------------------------------------------
// Endpoint
// ---------------------------------------------------------------------------

pub struct RedisEndpoint {
    pub host: String,
    pub port: u16,
}

/// `s` without the prefix `p`, when `s` starts with it.
pub open spec fn strip_prefix(s: Seq<char>, p: Seq<char>) -> Option<Seq<char>> {
    if starts_with(s, p) { Some(s.skip(p.len() as int)) } else { None }
}

/// The part of `s` before the first `c` (all of `s` when `c` does not occur).
pub open spec fn before_first(s: Seq<char>, c: char) -> Seq<char> {
    match split_once(s, c) {
        Some((a, _)) => a,
        None => s,
    }
}

/// `host[:port]` of an endpoint, after an optional scheme and before any path.
pub open spec fn endpoint_host_port(trimmed: Seq<char>, scheme_a: Seq<char>, scheme_b: Seq<char>) -> Seq<char> {
    let without_scheme = match strip_prefix(trimmed, scheme_a) {
        Some(rest) => rest,
        None => match strip_prefix(trimmed, scheme_b) {
            Some(rest) => rest,
            None => trimmed,
        },
    };
    trim(before_first(without_scheme, '/'))
}

/// What `parse_endpoint` answers: host and port (6379 by default), or the message.
pub open spec fn parse_endpoint_spec(endpoint: Seq<char>) -> Result<(Seq<char>, u16), Seq<char>> {
    let trimmed = trim(endpoint);
    if trimmed.len() == 0 {
        Err("Redis endpoint is required. Set host:port in Settings first."@)
    } else {
        let host_port = endpoint_host_port(trimmed, "redis://"@, "rediss://"@);
        let parsed: Result<(Seq<char>, u16), Seq<char>> = match rsplit_once(host_port, ':') {
            Some((host, port_text)) => match parse_unsigned(port_text, u16::MAX as nat) {
                Some(port) => Ok((host, port as u16)),
                None => Err("Invalid Redis port in endpoint: "@ + trimmed),
            },
            None => Ok((host_port, 6379u16)),
        };
        match parsed {
            Ok((host, port)) => if is_blank(host) {
                Err("Redis endpoint host is empty."@)
            } else {
                Ok((host, port))
            },
            Err(e) => Err(e),
        }
    }
}

pub(crate) fn strip_prefix_exec(s: &[char], p: &str) -> (r: Option<Vec<char>>)
    ensures
        match r {
            Some(v) => strip_prefix(s@, p@) == Some(v@),
            None => strip_prefix(s@, p@) is None,
        },
{
    let pv = chars_of(p);
    if starts_with_str(s, p) {
        let w = slice_chars(s, pv.len(), s.len());
        assert(w@ =~= s@.skip(p@.len() as int));
        Some(w)
    } else {
        None
    }
}

pub(crate) fn before_first_exec(s: &[char], c: char) -> (r: Vec<char>)
    ensures r@ == before_first(s@, c),
{
    match split_once_exec(s, c) {
        Some((a, _)) => a,
        None => {
            let w = slice_chars(s, 0, s.len());
            assert(w@ =~= s@);
            w
        },
    }
}

/// Reads `host[:port]` from a Redis endpoint such as `redis://cache:6380/0`.
pub fn parse_endpoint(endpoint: &str) -> (r: Result<RedisEndpoint, String>)
    ensures
        match r {
            Ok(e) => parse_endpoint_spec(endpoint@) == Ok::<(Seq<char>, u16), Seq<char>>((e.host@, e.port)),
            Err(m) => parse_endpoint_spec(endpoint@) == Err::<(Seq<char>, u16), Seq<char>>(m@),
        },
{
    let trimmed = trim_str(endpoint);
    if trimmed.len() == 0 {
        return Err(owned("Redis endpoint is required. Set host:port in Settings first."));
    }
    let without_scheme = match strip_prefix_exec(&trimmed, "redis://") {
        Some(rest) => rest,
        None => match strip_prefix_exec(&trimmed, "rediss://") {
            Some(rest) => rest,
            None => {
                let w = slice_chars(&trimmed, 0, trimmed.len());
                assert(w@ =~= trimmed@);
                w
            },
        },
    };
    let first = before_first_exec(&without_scheme, '/');
    let host_port = trim_exec(&first);
    assert(host_port@ == endpoint_host_port(trimmed@, "redis://"@, "rediss://"@));
    let (host, port) = match rsplit_once_exec(&host_port, ':') {
        Some((host, port_text)) => match parse_u16(&port_text) {
            Some(port) => (host, port),
            None => {
                let mut m = chars_of("Invalid Redis port in endpoint: ");
                push_chars(&mut m, &trimmed);
                return Err(string_of(&m));
            },
        },
        None => (host_port, 6379u16),
    };
    if crate::text::is_blank_exec(&host) {
        return Err(owned("Redis endpoint host is empty."));
    }
    Ok(RedisEndpoint { host: string_of(&host), port })
}

// ---------------------------------------------------------------------------
// INFO
// ---------------------------------------------------------------------------

/// The `key:value` pairs of INFO output, in the order they appear.
pub struct InfoMap {
    pub entries: Vec<(String, String)>,
}

pub open spec fn entry_views(e: Seq<(String, String)>) -> Seq<(Seq<char>, Seq<char>)> {
    e.map_values(|p: (String, String)| (p.0@, p.1@))
}

/// The pair that one line of INFO output contributes: lines are trimmed; empty lines and
/// `#` section headers contribute nothing; the key ends at the first `:`.
pub open spec fn info_line_pair(line: Seq<char>) -> Option<(Seq<char>, Seq<char>)> {
    let t = trim(line);
    if t.len() == 0 || t[0] == '#' {
        None
    } else {
        split_once(t, ':')
    }
}

/// The pairs of the first `k` lines.
pub open spec fn info_pairs(ls: Seq<Seq<char>>) -> Seq<(Seq<char>, Seq<char>)>
    decreases ls.len(),
{
    if ls.len() == 0 {
        Seq::empty()
    } else {
        match info_line_pair(ls.last()) {
            Some(p) => info_pairs(ls.drop_last()).push(p),
            None => info_pairs(ls.drop_last()),
        }
    }
}

/// The value of the last pair named `key` (a later line overrides an earlier one).
pub open spec fn assoc_get(pairs: Seq<(Seq<char>, Seq<char>)>, key: Seq<char>) -> Option<Seq<char>>
    decreases pairs.len(),
{
    if pairs.len() == 0 {
        None
    } else if pairs.last().0 == key {
        Some(pairs.last().1)
    } else {
        assoc_get(pairs.drop_last(), key)
    }
}

/// Collects the `key:value` lines of a Redis INFO reply.
pub fn parse_info_sections(body: &str) -> (r: InfoMap)
    ensures entry_views(r.entries@) == info_pairs(crate::text::lines(body@)),
{
    let ls = crate::text::lines_str(body);
    let ghost lv = crate::text::views(ls@);
    let mut entries: Vec<(String, String)> = Vec::new();
    let mut i: usize = 0;
    while i < ls.len()
        invariant
            0 <= i <= ls@.len(),
            lv == crate::text::views(ls@),
            entry_views(entries@) == info_pairs(lv.take(i as int)),
        decreases ls@.len() - i,
    {
        assert(lv.take(i + 1).drop_last() =~= lv.take(i as int));
        let t = trim_exec(&ls[i]);
        if t.len() > 0 && t[0] != '#' {
            match split_once_exec(&t, ':') {
                Some((k, v)) => {
                    let ghost before = entries@;
                    entries.push((string_of(&k), string_of(&v)));
                    assert(entry_views(entries@) =~= entry_views(before).push((k@, v@)));
                },
                None => {},
            }
        }
        i += 1;
    }
    assert(lv.take(i as int) =~= lv);
    InfoMap { entries }
}

impl InfoMap {
    /// The value of `key`.
    pub fn get(&self, key: &str) -> (r: Option<&String>)
        ensures
            match r {
                Some(v) => assoc_get(entry_views(self.entries@), key@) == Some(v@),
                None => assoc_get(entry_views(self.entries@), key@) is None,
            },
    {
        let ghost ev = entry_views(self.entries@);
        let k = chars_of(key);
        let mut j: usize = self.entries.len();
        assert(ev.take(j as int) =~= ev);
        while j > 0
            invariant
                0 <= j <= self.entries@.len(),
                ev == entry_views(self.entries@),
                k@ == key@,
                assoc_get(ev, key@) == assoc_get(ev.take(j as int), key@),
            decreases j,
        {
            let name = chars_of(self.entries[j - 1].0.as_str());
            if crate::text::chars_eq(&name, &k) {
                return Some(&self.entries[j - 1].1);
            }
            assert(ev.take(j as int).drop_last() =~= ev.take(j - 1));
            j -= 1;
        }
        None
    }
}

/// `value.trim().parse::<u64>().ok()` of an optional INFO value.
pub open spec fn parse_u64_opt(v: Option<Seq<char>>) -> Option<u64> {
    match v {
        Some(text) => match parse_unsigned(trim(text), u64::MAX as nat) {
            Some(n) => Some(n as u64),
            None => None,
        },
        None => None,
    }
}

pub fn info_u64(info: &InfoMap, key: &str) -> (r: Option<u64>)
    ensures r == parse_u64_opt(assoc_get(entry_views(info.entries@), key@)),
{
    match info.get(key) {
        Some(v) => {
            let t = trim_str(v.as_str());
            parse_u64(&t)
        },
        None => None,
    }
}

/// The figures of an INFO reply that the health metrics read.
pub struct InfoFigures {
    pub used_memory: Option<u64>,
    pub maxmemory: Option<u64>,
    pub connected_clients: u64,
    pub blocked_clients: u64,
    pub keyspace_hits: u64,
    pub keyspace_misses: u64,
    pub uptime_seconds: u64,
    pub latest_fork_usec: u64,
}

pub open spec fn or_zero(v: Option<u64>) -> u64 {
    match v { Some(n) => n, None => 0 }
}

/// Reads the figures; a missing or malformed count reads as 0.
pub fn info_figures(info: &InfoMap) -> (r: InfoFigures)
    ensures ({
        let get = |k: Seq<char>| parse_u64_opt(assoc_get(entry_views(info.entries@), k));
        &&& r.used_memory == get("used_memory"@)
        &&& r.maxmemory == get("maxmemory"@)
        &&& r.connected_clients == or_zero(get("connected_clients"@))
        &&& r.blocked_clients == or_zero(get("blocked_clients"@))
        &&& r.keyspace_hits == or_zero(get("keyspace_hits"@))
        &&& r.keyspace_misses == or_zero(get("keyspace_misses"@))
        &&& r.uptime_seconds == or_zero(get("uptime_in_seconds"@))
        &&& r.latest_fork_usec == or_zero(get("latest_fork_usec"@))
    }),
{
    let z = |o: Option<u64>| -> (n: u64) ensures n == or_zero(o) { match o { Some(n) => n, None => 0 } };
    InfoFigures {
        used_memory: info_u64(info, "used_memory"),
        maxmemory: info_u64(info, "maxmemory"),
        connected_clients: z(info_u64(info, "connected_clients")),
        blocked_clients: z(info_u64(info, "blocked_clients")),
        keyspace_hits: z(info_u64(info, "keyspace_hits")),
        keyspace_misses: z(info_u64(info, "keyspace_misses")),
        uptime_seconds: z(info_u64(info, "uptime_in_seconds")),
        latest_fork_usec: z(info_u64(info, "latest_fork_usec")),
    }
}

/// `d`d `hh`h, `h`h `mm`m or `m`m, by the largest unit present.
pub open spec fn format_uptime_spec(seconds: nat) -> Seq<char> {
    let days = seconds / 86_400;
    let hours = (seconds % 86_400) / 3_600;
    let minutes = (seconds % 3_600) / 60;
    if days > 0 {
        decimal(days) + "d "@ + decimal_02(hours) + "h"@
    } else if hours > 0 {
        decimal(hours) + "h "@ + decimal_02(minutes) + "m"@
    } else {
        decimal(minutes) + "m"@
    }
}

pub fn format_uptime(seconds: u64) -> (r: String)
    ensures r@ == format_uptime_spec(seconds as nat),
{
    let days = seconds / 86_400;
    let hours = (seconds % 86_400) / 3_600;
    let minutes = (seconds % 3_600) / 60;
    let mut out: Vec<char> = Vec::new();
    if days > 0 {
        push_decimal(&mut out, days);
        push_str(&mut out, "d ");
        push_decimal_02(&mut out, hours);
        push_str(&mut out, "h");
    } else if hours > 0 {
        push_decimal(&mut out, hours);
        push_str(&mut out, "h ");
        push_decimal_02(&mut out, minutes);
        push_str(&mut out, "m");
    } else {
        push_decimal(&mut out, minutes);
        push_str(&mut out, "m");
    }
    assert(out@ =~= format_uptime_spec(seconds as nat));
    string_of(&out)
}

/// `used * 100` saturated at `u64::MAX`, over `max`, as an integer percentage.
pub open spec fn used_percent(used: u64, max: u64) -> int {
    let product = if used * 100 > u64::MAX { u64::MAX as int } else { used * 100 };
    product / (max as int)
}

/// `critical` from 90%, `warning` from 80% of `maxmemory`; `warning` when either figure is missing.
pub open spec fn memory_status_spec(used: Option<u64>, max: Option<u64>) -> Seq<char> {
    match (used, max) {
        (Some(u), Some(m)) => if m > 0 && used_percent(u, m) >= 90 {
            "critical"@
        } else if m > 0 && used_percent(u, m) >= 80 {
            "warning"@
        } else {
            "healthy"@
        },
        _ => "warning"@,
    }
}

pub fn memory_status(used: Option<u64>, max: Option<u64>) -> (r: &'static str)
    ensures r@ == memory_status_spec(used, max),
{
    match (used, max) {
        (Some(u), Some(m)) => {
            if m > 0 {
                let product: u64 = if u as u128 * 100 > u64::MAX as u128 { u64::MAX } else { u * 100 };
                let pct = product / m;
                if pct >= 90 {
                    return "critical";
                } else if pct >= 80 {
                    return "warning";
                }
            }
            "healthy"
        },
        _ => "warning",
    }
}

pub open spec fn metric_view(m: RedisInfoMetric) -> (Seq<char>, Seq<char>, Seq<char>, Seq<char>) {
    (m.label@, m.value@, m.status@, m.detail@)
}

fn metric(label: &str, value: String, status: &str, detail: &str) -> (r: RedisInfoMetric)
    ensures metric_view(r) == (label@, value@, status@, detail@),
{
    RedisInfoMetric { label: owned(label), value, status: owned(status), detail: owned(detail) }
}

fn number_with(n: u64, suffix: &str) -> (r: String)
    ensures r@ == decimal(n as nat) + suffix@,
{
    let mut out: Vec<char> = Vec::new();
    push_decimal(&mut out, n);
    push_str(&mut out, suffix);
    string_of(&out)
}

/// The six INFO health metrics. The memory label and the cache-hit figures come from
/// floating-point arithmetic done by the caller: `memory_label`, `hit_ratio_label` (the
/// percentage to one decimal) and `hit_ratio_healthy` (a ratio of at least 90%).
pub fn build_info_metrics(
    figures: &InfoFigures,
    memory_label: String,
    hit_ratio_label: String,
    hit_ratio_healthy: bool,
) -> (r: Vec<RedisInfoMetric>)
    ensures
        r@.len() == 6,
        metric_view(r@[0]) == ("uptime"@, format_uptime_spec(figures.uptime_seconds as nat), "healthy"@,
            "Directly sourced from Redis INFO."@),
        metric_view(r@[1]) == ("used_memory"@, memory_label@,
            memory_status_spec(figures.used_memory, figures.maxmemory),
            "Memory usage compared against maxmemory when configured."@),
        metric_view(r@[2]) == ("connected_clients"@, decimal(figures.connected_clients as nat),
            if figures.connected_clients >= 1000 { "warning"@ } else { "healthy"@ },
            "Concurrent client count from INFO clients."@),
        metric_view(r@[3]) == ("blocked_clients"@, decimal(figures.blocked_clients as nat),
            if figures.blocked_clients > 0 { "warning"@ } else { "healthy"@ },
            "Blocked clients often point at scripts, long commands, or downstream pressure."@),
        metric_view(r@[4]) == ("keyspace_hits"@,
            if figures.keyspace_hits + figures.keyspace_misses > 0 { hit_ratio_label@ } else { "n/a"@ },
            if hit_ratio_healthy { "healthy"@ } else { "warning"@ },
            "Cache hit ratio derived from keyspace hits and misses."@),
        metric_view(r@[5]) == ("latest_fork_usec"@, decimal(figures.latest_fork_usec as nat) + " us"@,
            if figures.latest_fork_usec >= 1_000_000 { "warning"@ } else { "healthy"@ },
            "Large fork time can indicate memory pressure during persistence."@),
{
    let mut out: Vec<RedisInfoMetric> = Vec::new();
    out.push(metric("uptime", format_uptime(figures.uptime_seconds), "healthy", "Directly sourced from Redis INFO."));
    out.push(metric(
        "used_memory",
        memory_label,
        memory_status(figures.used_memory, figures.maxmemory),
        "Memory usage compared against maxmemory when configured.",
    ));
    out.push(metric(
        "connected_clients",
        crate::text::decimal_string(figures.connected_clients),
        if figures.connected_clients >= 1000 { "warning" } else { "healthy" },
        "Concurrent client count from INFO clients.",
    ));
    out.push(metric(
        "blocked_clients",
        crate::text::decimal_string(figures.blocked_clients),
        if figures.blocked_clients > 0 { "warning" } else { "healthy" },
        "Blocked clients often point at scripts, long commands, or downstream pressure.",
    ));
    let any_lookups = figures.keyspace_hits as u128 + figures.keyspace_misses as u128 > 0;
    out.push(metric(
        "keyspace_hits",
        if any_lookups { hit_ratio_label } else { owned("n/a") },
        if hit_ratio_healthy { "healthy" } else { "warning" },
        "Cache hit ratio derived from keyspace hits and misses.",
    ));
    out.push(metric(
        "latest_fork_usec",
        number_with(figures.latest_fork_usec, " us"),
        if figures.latest_fork_usec >= 1_000_000 { "warning" } else { "healthy" },
        "Large fork time can indicate memory pressure during persistence.",
    ));
    out
}


// ---------------------------------------------------------------------------
// Timestamps
// ---------------------------------------------------------------------------

/// The RFC 3339 text that chrono gives for a UNIX time in seconds (UTC), when that time
/// is representable.
pub uninterp spec fn spec_unix_to_rfc3339(timestamp: int) -> Option<Seq<char>>;

/// `Utc.timestamp_opt(timestamp, 0).single().map(|t| t.to_rfc3339())`.
#[verifier::external_body]
fn chrono_unix_to_rfc3339(timestamp: i64) -> (r: Option<String>)
    ensures
        match r {
            Some(s) => spec_unix_to_rfc3339(timestamp as int) == Some(s@),
            None => spec_unix_to_rfc3339(timestamp as int) is None,
        },
{
    chrono::Utc.timestamp_opt(timestamp, 0).single().map(|t| t.to_rfc3339())
}

/// A UNIX time as RFC 3339; the current time where the timestamp is out of range.
pub fn unix_to_rfc3339(timestamp: i64) -> (r: String)
    ensures spec_unix_to_rfc3339(timestamp as int) matches Some(t) ==> r@ == t,
{
    match chrono_unix_to_rfc3339(timestamp) {
        Some(s) => s,
        None => crate::system::now_rfc3339(),
    }
}

// ---------------------------------------------------------------------------
// SLOWLOG and LATENCY replies
// ---------------------------------------------------------------------------

pub open spec fn i64_or_zero(m: RedisModel) -> int {
    match model_as_i64(m) { Some(v) => v, None => 0 }
}

/// The texts among `argv`, in order (`filter_map(RedisValue::as_string)`).
pub open spec fn argv_texts(argv: Seq<RedisModel>) -> Seq<Seq<char>>
    decreases argv.len(),
{
    if argv.len() == 0 {
        Seq::empty()
    } else {
        match model_as_string(argv.last()) {
            Some(t) => argv_texts(argv.drop_last()).push(t),
            None => argv_texts(argv.drop_last()),
        }
    }
}

/// The command of a slowlog entry: its first three arguments joined by spaces, or
/// `unknown` when that is blank or the entry carries no argument array.
pub open spec fn slow_command(part: RedisModel) -> Seq<char> {
    match part {
        RedisModel::Array(argv) => {
            let joined = join(argv_texts(argv.take(if argv.len() < 3 { argv.len() as int } else { 3 })), " "@);
            if is_blank(joined) { "unknown"@ } else { joined }
        },
        _ => "unknown"@,
    }
}

pub open spec fn slow_key_sample(part: RedisModel) -> Seq<char> {
    match part {
        RedisModel::Array(argv) => if argv.len() > 1 {
            match model_as_string(argv[1]) { Some(t) => t, None => "n/a"@ }
        } else {
            "n/a"@
        },
        _ => "n/a"@,
    }
}

pub open spec fn slow_client(parts: Seq<RedisModel>) -> Seq<char> {
    let fifth = if parts.len() > 5 { model_as_string(parts[5]) } else { None };
    let fourth = if parts.len() > 4 { model_as_string(parts[4]) } else { None };
    match fifth {
        Some(t) => t,
        None => match fourth { Some(t) => t, None => "unknown"@ },
    }
}

/// A slowlog entry (at least four parts) as a record: id, start time, duration (negative
/// durations read as 0), command, key sample and client.
pub open spec fn slow_query_matches(q: RedisSlowQuery, parts: Seq<RedisModel>) -> bool {
    &&& q.id@ == "slowlog-"@ + decimal_int(i64_or_zero(parts[0]))
    &&& (spec_unix_to_rfc3339(i64_or_zero(parts[1])) matches Some(t) ==> q.timestamp@ == t)
    &&& q.duration_micros as int == (if i64_or_zero(parts[2]) < 0 { 0 } else { i64_or_zero(parts[2]) })
    &&& q.command@ == slow_command(parts[3])
    &&& q.key_sample@ == slow_key_sample(parts[3])
    &&& q.client@ == slow_client(parts)
}

/// The entries of a SLOWLOG GET reply that are arrays of at least four parts.
pub open spec fn slow_entries(items: Seq<RedisModel>) -> Seq<Seq<RedisModel>>
    decreases items.len(),
{
    if items.len() == 0 {
        Seq::empty()
    } else {
        match items.last() {
            RedisModel::Array(parts) => if parts.len() >= 4 {
                slow_entries(items.drop_last()).push(parts)
            } else {
                slow_entries(items.drop_last())
            },
            _ => slow_entries(items.drop_last()),
        }
    }
}

fn i64_or_zero_exec(v: &RedisValue) -> (r: i64)
    ensures r as int == i64_or_zero(v@),
{
    match v.as_i64() { Some(n) => n, None => 0 }
}

fn slow_command_exec(part: &RedisValue) -> (r: String)
    ensures r@ == slow_command(part@),
{
    match part.as_array() {
        Some(argv) => {
            let ghost am = redis_items_model(argv@);
            let limit: usize = if argv.len() < 3 { argv.len() } else { 3 };
            let mut texts: Vec<Vec<char>> = Vec::new();
            let mut i: usize = 0;
            while i < limit
                invariant
                    0 <= i <= limit <= argv@.len(),
                    am == redis_items_model(argv@),
                    views(texts@) == argv_texts(am.take(i as int)),
                decreases limit - i,
            {
                assert(am.take(i + 1).drop_last() =~= am.take(i as int));
                let ghost before = texts@;
                match argv[i].as_string() {
                    Some(t) => {
                        let c = chars_of(t.as_str());
                        texts.push(c);
                        assert(views(texts@) =~= views(before).push(c@));
                    },
                    None => {},
                }
                i += 1;
            }
            let joined = join_exec(&texts, " ");
            if crate::text::is_blank_exec(&joined) { owned("unknown") } else { string_of(&joined) }
        },
        None => owned("unknown"),
    }
}

fn slow_key_sample_exec(part: &RedisValue) -> (r: String)
    ensures r@ == slow_key_sample(part@),
{
    match part.as_array() {
        Some(argv) => {
            if argv.len() > 1 {
                match argv[1].as_string() { Some(t) => t, None => owned("n/a") }
            } else {
                owned("n/a")
            }
        },
        None => owned("n/a"),
    }
}

/// Reads the entries of a `SLOWLOG GET` reply; a nil reply has none, any other
/// non-array reply is an error.
pub fn slow_queries_from_reply(reply: &RedisValue) -> (r: Result<Vec<RedisSlowQuery>, String>)
    ensures
        match reply@ {
            RedisModel::Array(items) => r matches Ok(qs) && qs@.len() == slow_entries(items).len()
                && forall|i: int| 0 <= i < qs@.len() ==> slow_query_matches(#[trigger] qs@[i], slow_entries(items)[i]),
            RedisModel::Nil => r matches Ok(qs) && qs@.len() == 0,
            other => r matches Err(m) && m@ == "Unexpected SLOWLOG response: "@ + crate::resp::model_kind(other),
        },
{
    let items = match reply {
        RedisValue::Array(items) => items,
        RedisValue::Nil => return Ok(Vec::new()),
        other => {
            let mut m = chars_of("Unexpected SLOWLOG response: ");
            push_str(&mut m, other.kind());
            return Err(string_of(&m));
        },
    };
    let ghost im = redis_items_model(items@);
    let mut queries: Vec<RedisSlowQuery> = Vec::new();
    let mut i: usize = 0;
    while i < items.len()
        invariant
            0 <= i <= items@.len(),
            im == redis_items_model(items@),
            queries@.len() == slow_entries(im.take(i as int)).len(),
            forall|j: int| 0 <= j < queries@.len() ==> slow_query_matches(#[trigger] queries@[j], slow_entries(im.take(i as int))[j]),
        decreases items@.len() - i,
    {
        assert(im.take(i + 1).drop_last() =~= im.take(i as int));
        assert(im.take(i + 1).last() == items@[i as int]@);
        if let RedisValue::Array(parts) = &items[i] {
            if parts.len() >= 4 {
                let ghost pm = redis_items_model(parts@);
                let id = i64_or_zero_exec(&parts[0]);
                let timestamp = i64_or_zero_exec(&parts[1]);
                let duration = i64_or_zero_exec(&parts[2]);
                let duration_micros: u64 = if duration < 0 { 0 } else { duration as u64 };
                let command = slow_command_exec(&parts[3]);
                let key_sample = slow_key_sample_exec(&parts[3]);
                let fifth = if parts.len() > 5 { parts[5].as_string() } else { None };
                let client = match fifth {
                    Some(t) => t,
                    None => {
                        let fourth = if parts.len() > 4 { parts[4].as_string() } else { None };
                        match fourth { Some(t) => t, None => owned("unknown") }
                    },
                };
                let mut idt = chars_of("slowlog-");
                push_decimal_int(&mut idt, id);
                let q = RedisSlowQuery {
                    id: string_of(&idt),
                    timestamp: unix_to_rfc3339(timestamp),
                    duration_micros,
                    command,
                    key_sample,
                    client,
                };
                assert(slow_query_matches(q, pm));
                queries.push(q);
            }
        }
        i += 1;
    }
    assert(im.take(i as int) =~= im);
    Ok(queries)
}

/// A `LATENCY LATEST` entry (at least four parts) as a log line.
pub open spec fn latency_line_matches(l: RedisLogLine, parts: Seq<RedisModel>) -> bool {
    let name = match model_as_string(parts[0]) { Some(t) => t, None => "unknown"@ };
    &&& (spec_unix_to_rfc3339(i64_or_zero(parts[1])) matches Some(t) ==> l.timestamp@ == t)
    &&& l.level@ == (if i64_or_zero(parts[3]) >= 100 { "WARNING"@ } else { "NOTICE"@ })
    &&& l.message@ == "Latency event "@ + sanitize_and_mask(name) + " latest="@
        + decimal_int(i64_or_zero(parts[2])) + "ms max="@ + decimal_int(i64_or_zero(parts[3])) + "ms"@
}

/// Reads the events of a `LATENCY LATEST` reply; a reply that is not an array has none.
pub fn latency_events_from_reply(reply: &RedisValue) -> (r: Vec<RedisLogLine>)
    ensures
        match reply@ {
            RedisModel::Array(items) => r@.len() == slow_entries(items).len()
                && forall|i: int| 0 <= i < r@.len() ==> latency_line_matches(#[trigger] r@[i], slow_entries(items)[i]),
            _ => r@.len() == 0,
        },
{
    let items = match reply {
        RedisValue::Array(items) => items,
        _ => return Vec::new(),
    };
    let ghost im = redis_items_model(items@);
    let mut lines: Vec<RedisLogLine> = Vec::new();
    let mut i: usize = 0;
    while i < items.len()
        invariant
            0 <= i <= items@.len(),
            im == redis_items_model(items@),
            lines@.len() == slow_entries(im.take(i as int)).len(),
            forall|j: int| 0 <= j < lines@.len() ==> latency_line_matches(#[trigger] lines@[j], slow_entries(im.take(i as int))[j]),
        decreases items@.len() - i,
    {
        assert(im.take(i + 1).drop_last() =~= im.take(i as int));
        assert(im.take(i + 1).last() == items@[i as int]@);
        if let RedisValue::Array(parts) = &items[i] {
            if parts.len() >= 4 {
                let ghost pm = redis_items_model(parts@);
                let name = match parts[0].as_string() { Some(t) => t, None => owned("unknown") };
                let unix_time = i64_or_zero_exec(&parts[1]);
                let latest = i64_or_zero_exec(&parts[2]);
                let max = i64_or_zero_exec(&parts[3]);
                let mut m = chars_of("Latency event ");
                let masked = sanitize_and_mask_text(name.as_str());
                push_str(&mut m, masked.as_str());
                push_str(&mut m, " latest=");
                push_decimal_int(&mut m, latest);
                push_str(&mut m, "ms max=");
                push_decimal_int(&mut m, max);
                push_str(&mut m, "ms");
                let l = RedisLogLine {
                    timestamp: unix_to_rfc3339(unix_time),
                    level: owned(if max >= 100 { "WARNING" } else { "NOTICE" }),
                    message: string_of(&m),
                };
                assert(latency_line_matches(l, pm));
                lines.push(l);
            }
        }
        i += 1;
    }
    assert(im.take(i as int) =~= im);
    lines
}


// ---------------------------------------------------------------------------
// Summary
// ---------------------------------------------------------------------------

/// How many metrics are not `healthy`.
pub open spec fn count_unhealthy(ms: Seq<RedisInfoMetric>) -> nat
    decreases ms.len(),
{
    if ms.len() == 0 {
        0
    } else {
        count_unhealthy(ms.drop_last()) + if ms.last().status@ != "healthy"@ { 1nat } else { 0nat }
    }
}

/// How many log lines are at `WARNING` level.
pub open spec fn count_warning_lines(ls: Seq<RedisLogLine>) -> nat
    decreases ls.len(),
{
    if ls.len() == 0 {
        0
    } else {
        count_warning_lines(ls.drop_last()) + if ls.last().level@ == "WARNING"@ { 1nat } else { 0nat }
    }
}

/// `i` is the last of the slowest queries (what `max_by_key` picks).
pub open spec fn is_last_slowest(qs: Seq<RedisSlowQuery>, i: int) -> bool {
    &&& 0 <= i < qs.len()
    &&& forall|j: int| 0 <= j < qs.len() ==> (#[trigger] qs[j]).duration_micros <= qs[i].duration_micros
    &&& forall|j: int| i < j < qs.len() ==> (#[trigger] qs[j]).duration_micros < qs[i].duration_micros
}

/// The slowest command as `command at Nus`, or a note that there is none.
pub open spec fn top_slow_text(qs: Seq<RedisSlowQuery>) -> Seq<char> {
    if qs.len() == 0 {
        "no recent slow queries"@
    } else {
        let i = choose|i: int| is_last_slowest(qs, i);
        qs[i].command@ + " at "@ + decimal(qs[i].duration_micros as nat) + "us"@
    }
}

fn count_unhealthy_exec(ms: &Vec<RedisInfoMetric>) -> (r: u64)
    ensures r == count_unhealthy(ms@),
{
    let mut n: u64 = 0;
    let mut i: usize = 0;
    while i < ms.len()
        invariant
            0 <= i <= ms@.len(),
            n == count_unhealthy(ms@.take(i as int)),
            n <= i,
        decreases ms@.len() - i,
    {
        assert(ms@.take(i + 1).drop_last() =~= ms@.take(i as int));
        if !crate::text::str_eq(ms[i].status.as_str(), "healthy") {
            n += 1;
        }
        i += 1;
    }
    assert(ms@.take(i as int) =~= ms@);
    n
}

fn count_warning_lines_exec(ls: &Vec<RedisLogLine>) -> (r: u64)
    ensures r == count_warning_lines(ls@),
{
    let mut n: u64 = 0;
    let mut i: usize = 0;
    while i < ls.len()
        invariant
            0 <= i <= ls@.len(),
            n == count_warning_lines(ls@.take(i as int)),
            n <= i,
        decreases ls@.len() - i,
    {
        assert(ls@.take(i + 1).drop_last() =~= ls@.take(i as int));
        if crate::text::str_eq(ls[i].level.as_str(), "WARNING") {
            n += 1;
        }
        i += 1;
    }
    assert(ls@.take(i as int) =~= ls@);
    n
}

proof fn lemma_last_slowest_unique(qs: Seq<RedisSlowQuery>, i: int, j: int)
    requires is_last_slowest(qs, i), is_last_slowest(qs, j),
    ensures i == j,
{
    if i < j {
        assert(qs[j].duration_micros < qs[i].duration_micros);
        assert(qs[j].duration_micros <= qs[i].duration_micros);
        assert(qs[i].duration_micros <= qs[j].duration_micros);
    } else if j < i {
        assert(qs[i].duration_micros < qs[j].duration_micros);
        assert(qs[j].duration_micros <= qs[i].duration_micros);
    }
}

fn top_slow_exec(qs: &Vec<RedisSlowQuery>) -> (r: Vec<char>)
    ensures r@ == top_slow_text(qs@),
{
    if qs.len() == 0 {
        return chars_of("no recent slow queries");
    }
    let mut best: usize = 0;
    let mut i: usize = 1;
    while i < qs.len()
        invariant
            1 <= i <= qs@.len(),
            best < i,
            forall|j: int| 0 <= j < i ==> (#[trigger] qs@[j]).duration_micros <= qs@[best as int].duration_micros,
            forall|j: int| best < j < i ==> (#[trigger] qs@[j]).duration_micros < qs@[best as int].duration_micros,
        decreases qs@.len() - i,
    {
        if qs[i].duration_micros >= qs[best].duration_micros {
            best = i;
        }
        i += 1;
    }
    proof {
        let k = choose|k: int| is_last_slowest(qs@, k);
        assert(is_last_slowest(qs@, best as int));
        lemma_last_slowest_unique(qs@, k, best as int);
    }
    let mut out = chars_of(qs[best].command.as_str());
    push_str(&mut out, " at ");
    push_decimal(&mut out, qs[best].duration_micros);
    push_str(&mut out, "us");
    out
}

/// The headline of a Redis analysis.
pub open spec fn redis_headline(
    instance: Seq<char>,
    metrics: Seq<RedisInfoMetric>,
    slow: Seq<RedisSlowQuery>,
    max_p95_label: Seq<char>,
) -> Seq<char> {
    instance + " shows "@ + decimal(count_unhealthy(metrics)) + " warning metric(s), p95 latency peaking at "@
        + max_p95_label + "ms, with top slow command "@ + top_slow_text(slow) + "."@
}

/// Summarizes an analysis. `max_p95_label` is the largest p95 latency in milliseconds,
/// printed with one decimal by the caller (latencies are measured in floating point).
pub fn build_redis_summary(
    instance_name: &str,
    info_metrics: &Vec<RedisInfoMetric>,
    slow_queries: &Vec<RedisSlowQuery>,
    max_p95_label: &str,
    log_lines: &Vec<RedisLogLine>,
) -> (r: RedisSummary)
    ensures
        r.headline@ == redis_headline(instance_name@, info_metrics@, slow_queries@, max_p95_label@),
        string_views(r.likely_causes@) == seq![
            "INFO metrics show real runtime pressure rather than mocked placeholders."@,
            "The slowlog highlights the heaviest Redis commands in the current window."@,
            decimal(count_warning_lines(log_lines@))
                + " latency event(s) were returned by Redis LATENCY LATEST and can be correlated with application timeouts."@,
        ],
        string_views(r.recommended_next_steps@) == seq![
            "Compare the slowlog keys and commands with the application path or worker that owns them."@,
            "Correlate this Redis latency window with ELK timeout clusters and Kubernetes restarts."@,
            "If memory or blocked clients are elevated, inspect big keys and script usage next."@,
        ],
{
    let warning_metrics = count_unhealthy_exec(info_metrics);
    let top = top_slow_exec(slow_queries);
    let warning_logs = count_warning_lines_exec(log_lines);
    let mut h = chars_of(instance_name);
    push_str(&mut h, " shows ");
    push_decimal(&mut h, warning_metrics);
    push_str(&mut h, " warning metric(s), p95 latency peaking at ");
    push_str(&mut h, max_p95_label);
    push_str(&mut h, "ms, with top slow command ");
    push_chars(&mut h, &top);
    push_str(&mut h, ".");
    let mut third: Vec<char> = Vec::new();
    push_decimal(&mut third, warning_logs);
    push_str(&mut third, " latency event(s) were returned by Redis LATENCY LATEST and can be correlated with application timeouts.");
    let mut causes: Vec<String> = Vec::new();
    causes.push(owned("INFO metrics show real runtime pressure rather than mocked placeholders."));
    causes.push(owned("The slowlog highlights the heaviest Redis commands in the current window."));
    causes.push(string_of(&third));
    let mut steps: Vec<String> = Vec::new();
    steps.push(owned("Compare the slowlog keys and commands with the application path or worker that owns them."));
    steps.push(owned("Correlate this Redis latency window with ELK timeout clusters and Kubernetes restarts."));
    steps.push(owned("If memory or blocked clients are elevated, inspect big keys and script usage next."));
    let r = RedisSummary { headline: string_of(&h), likely_causes: causes, recommended_next_steps: steps };
    assert(string_views(r.likely_causes@) =~= seq![
        "INFO metrics show real runtime pressure rather than mocked placeholders."@,
        "The slowlog highlights the heaviest Redis commands in the current window."@,
        decimal(count_warning_lines(log_lines@))
            + " latency event(s) were returned by Redis LATENCY LATEST and can be correlated with application timeouts."@,
    ]);
    assert(string_views(r.recommended_next_steps@) =~= seq![
        "Compare the slowlog keys and commands with the application path or worker that owns them."@,
        "Correlate this Redis latency window with ELK timeout clusters and Kubernetes restarts."@,
        "If memory or blocked clients are elevated, inspect big keys and script usage next."@,
    ]);
    r
}

// ---------------------------------------------------------------------------
// Profile settings and the plan of an analysis
// ---------------------------------------------------------------------------

pub struct RedisProfileConfig {
    pub database: u32,
    pub slowlog_limit: usize,
    pub tls_enabled: bool,
}

/// The extra settings of a profile, read from its JSON (an unreadable JSON reads as `{}`).
pub open spec fn profile_settings_model(config_json: Seq<char>) -> JsonModel {
    match spec_parse_json(config_json) {
        Some(m) => m,
        None => JsonModel::Object(Seq::empty()),
    }
}

pub open spec fn clamp(v: int, lo: int, hi: int) -> int {
    if v < lo { lo } else if v > hi { hi } else { v }
}

impl RedisProfileConfig {
    /// `database` (default 0, truncated to 32 bits), `slowlogLimit` (default 5, kept within
    /// 1..=128) and `tlsEnabled` (default false).
    pub fn from_profile(profile: &ConnectionProfile) -> (r: RedisProfileConfig)
        ensures ({
            let m = profile_settings_model(profile.config_json@);
            &&& r.database == (or_zero(model_get_u64(m, "database"@)) as u32)
            &&& r.slowlog_limit as int == clamp(
                match model_get_u64(m, "slowlogLimit"@) { Some(v) => v as int, None => 5 }, 1, 128)
            &&& r.tls_enabled == match model_get_bool(m, "tlsEnabled"@) { Some(b) => b, None => false }
        }),
    {
        let config = match parse_json(profile.config_json.as_str()) {
            Some(v) => v,
            None => crate::json::JsonValue::Object(Vec::new()),
        };
        proof {
            assert(crate::json::model_members(Seq::<(String, crate::json::JsonValue)>::empty()) =~= Seq::empty());
        }
        let database = match json_get_u64(&config, "database") { Some(v) => v, None => 0 };
        let limit = match json_get_u64(&config, "slowlogLimit") { Some(v) => v, None => 5 };
        let limit = if limit < 1 { 1 } else if limit > 128 { 128 } else { limit };
        let tls = match json_get_bool(&config, "tlsEnabled") { Some(b) => b, None => false };
        RedisProfileConfig { database: database as u32, slowlog_limit: limit as usize, tls_enabled: tls }
    }
}

/// The instance an analysis names: the requested one, else the profile's default scope,
/// else the profile's name (blank values are skipped).
pub open spec fn redis_instance_name_spec(requested: Option<Seq<char>>, default_scope: Option<Seq<char>>, profile_name: Seq<char>) -> Seq<char> {
    match requested {
        Some(r) if !is_blank(r) => r,
        _ => match default_scope {
            Some(d) if !is_blank(d) => d,
            _ => profile_name,
        },
    }
}

pub fn redis_instance_name(requested: &Option<String>, profile: &ConnectionProfile) -> (r: String)
    ensures r@ == redis_instance_name_spec(crate::text::opt_view(*requested),
        crate::text::opt_view(profile.default_scope), profile.name@),
{
    match requested {
        Some(r) => {
            if !is_blank_str(r.as_str()) {
                return r.clone();
            }
        },
        None => {},
    }
    match &profile.default_scope {
        Some(d) => {
            if !is_blank_str(d.as_str()) {
                return d.clone();
            }
        },
        None => {},
    }
    profile.name.clone()
}

/// The arguments of the AUTH command, when a non-blank password is configured: with the
/// user name when that is not blank.
pub open spec fn auth_args_spec(username: Option<Seq<char>>, password: Option<Seq<char>>) -> Option<Seq<Seq<char>>> {
    match password {
        Some(p) if !is_blank(p) => match username {
            Some(u) if !is_blank(u) => Some(seq!["AUTH"@, u, p]),
            _ => Some(seq!["AUTH"@, p]),
        },
        _ => None,
    }
}

pub fn auth_args(username: Option<&str>, password: Option<&str>) -> (r: Option<Vec<String>>)
    ensures
        match r {
            Some(a) => auth_args_spec(match username { Some(u) => Some(u@), None => None },
                match password { Some(p) => Some(p@), None => None }) == Some(string_views(a@)),
            None => auth_args_spec(match username { Some(u) => Some(u@), None => None },
                match password { Some(p) => Some(p@), None => None }) is None,
        },
{
    let p = match password {
        Some(p) => p,
        None => return None,
    };
    if is_blank_str(p) {
        return None;
    }
    let mut args: Vec<String> = Vec::new();
    args.push(owned("AUTH"));
    match username {
        Some(u) => {
            if !is_blank_str(u) {
                args.push(owned(u));
            }
        },
        None => {},
    }
    args.push(owned(p));
    proof {
        match username {
            Some(u) => if !is_blank(u@) {
                assert(string_views(args@) =~= seq!["AUTH"@, u@, p@]);
            } else {
                assert(string_views(args@) =~= seq!["AUTH"@, p@]);
            },
            None => assert(string_views(args@) =~= seq!["AUTH"@, p@]),
        }
    }
    Some(args)
}

/// The plan line of an analysis.
pub open spec fn redis_plan_spec(database: u32, slowlog_limit: usize, probes: usize) -> Seq<char> {
    "AUTH -> SELECT "@ + decimal(database as nat) + " -> INFO ALL -> SLOWLOG GET "@ + decimal(slowlog_limit as nat)
        + " -> "@ + decimal(probes as nat) + " latency probes -> LATENCY LATEST"@
}

pub fn redis_plan(database: u32, slowlog_limit: usize, probes: usize) -> (r: String)
    ensures r@ == redis_plan_spec(database, slowlog_limit, probes),
{
    let mut out = chars_of("AUTH -> SELECT ");
    push_decimal(&mut out, database as u64);
    push_str(&mut out, " -> INFO ALL -> SLOWLOG GET ");
    push_decimal(&mut out, slowlog_limit as u64);
    push_str(&mut out, " -> ");
    push_decimal(&mut out, probes as u64);
    push_str(&mut out, " latency probes -> LATENCY LATEST");
    string_of(&out)
}

/// How many latency probes a time range asks for.
pub open spec fn latency_samples_spec(time_range: Seq<char>) -> u64 {
    if time_range == "15m"@ { 4 } else if time_range == "1h"@ { 6 } else if time_range == "6h"@ { 8 }
    else if time_range == "24h"@ { 10 } else { 6 }
}

pub fn latency_samples(time_range: &str) -> (r: u64)
    ensures r == latency_samples_spec(time_range@),
{
    if crate::text::str_eq(time_range, "15m") { 4 }
    else if crate::text::str_eq(time_range, "1h") { 6 }
    else if crate::text::str_eq(time_range, "6h") { 8 }
    else if crate::text::str_eq(time_range, "24h") { 10 }
    else { 6 }
}


/// The adapter line of an analysis.
pub fn redis_adapter_mode(endpoint: &str) -> (r: String)
    ensures r@ == "redis-resp-direct ("@ + trim(endpoint@) + ")"@,
{
    let mut out = chars_of("redis-resp-direct (");
    push_chars(&mut out, &trim_str(endpoint));
    push_str(&mut out, ")");
    string_of(&out)
}

/// The adapter speaks plain TCP only: a profile with TLS enabled is refused.
pub fn plain_tcp_only(profile_name: &str, tls_enabled: bool) -> (r: Result<(), String>)
    ensures
        !tls_enabled ==> r is Ok,
        tls_enabled ==> (r matches Err(m) && m@ == "Redis profile '"@ + profile_name@
            + "' has TLS enabled, but the current desktop adapter only supports plain TCP right now."@),
{
    if tls_enabled {
        let mut out = chars_of("Redis profile '");
        push_str(&mut out, profile_name);
        push_str(&mut out, "' has TLS enabled, but the current desktop adapter only supports plain TCP right now.");
        Err(string_of(&out))
    } else {
        Ok(())
    }
}

/// Whether a reply answers `PING`: `PONG` as a simple or a bulk string.
pub fn is_pong(reply: &RedisValue) -> (r: bool)
    ensures
        r == (reply@ == RedisModel::SimpleString("PONG"@) || reply@ == RedisModel::BulkString("PONG"@)),
{
    match reply {
        RedisValue::SimpleString(v) => crate::text::str_eq(v.as_str(), "PONG"),
        RedisValue::BulkString(v) => crate::text::str_eq(v.as_str(), "PONG"),
        _ => false,
    }
}

} // verus!
