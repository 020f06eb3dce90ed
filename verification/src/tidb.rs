//! TiDB slow-query analysis: the settings of a profile, the connection, the query of the
//! slow-query tables, and the metrics and summary built from the rows.
use vstd::prelude::*;

use crate::models::{AnalyzeTidbInput, ConnectionProfile, TidbMetric, TidbSummary};
use crate::redis::{before_first, before_first_exec, endpoint_host_port, strip_prefix_exec};
use crate::text::{
    chars_of, copy_string, decimal, decimal_padded, push_decimal_padded, is_blank, is_blank_str, join, opt_view, owned, parse_unsigned, push_chars,
    push_decimal, push_str, rsplit_once, string_of, string_views, trim, trim_exec, trim_str, views,
};

verus! {

// ---------------------------------------------------------------------------
// Settings and connection
// ---------------------------------------------------------------------------

/// The TiDB settings of a profile.
pub struct TidbProfileConfig {
    pub database: String,
    pub slow_query_limit: u32,
}

/// What `from_profile` reads from the profile's JSON (a blank JSON reads as `{}`):
/// `database` trimmed (default `mysql`), `slowQueryLimit` when it fits in 32 bits (default
/// 20); a JSON that does not parse is refused with the parser's message.
pub open spec fn tidb_config_spec(profile: ConnectionProfile) -> Result<(Seq<char>, u32), Seq<char>> {
    let text = crate::ssh::ssh_config_json(profile.config_json@);
    match crate::json::spec_parse_json(text) {
        None => Err("Invalid TiDB profile JSON: "@ + crate::json::spec_parse_json_error(text)),
        Some(doc) => {
            let database = match crate::ssh::nonblank_trimmed_opt(crate::json::model_get_str(doc, "database"@)) {
                Some(d) => d,
                None => "mysql"@,
            };
            let limit = match crate::json::model_get_u64(doc, "slowQueryLimit"@) {
                Some(n) => if n <= u32::MAX { n as u32 } else { 20u32 },
                None => 20u32,
            };
            Ok((database, limit))
        },
    }
}

impl TidbProfileConfig {
    pub fn from_profile(profile: &ConnectionProfile) -> (r: Result<TidbProfileConfig, String>)
        ensures
            match r {
                Ok(c) => tidb_config_spec(*profile) == Ok::<(Seq<char>, u32), Seq<char>>((c.database@, c.slow_query_limit)),
                Err(e) => tidb_config_spec(*profile) == Err::<(Seq<char>, u32), Seq<char>>(e@),
            },
    {
        let text = if is_blank_str(profile.config_json.as_str()) { owned("{}") } else { copy_string(&profile.config_json) };
        let doc = match crate::json::parse_json_or_error(text.as_str()) {
            Ok(d) => d,
            Err(e) => {
                let mut m = chars_of("Invalid TiDB profile JSON: ");
                push_str(&mut m, e.as_str());
                return Err(string_of(&m));
            },
        };
        let database = match crate::json::json_get_str(&doc, "database") {
            Some(d) => if crate::text::is_blank_exec(&d) { owned("mysql") } else { string_of(&trim_exec(&d)) },
            None => owned("mysql"),
        };
        let slow_query_limit: u32 = match crate::json::json_get_u64(&doc, "slowQueryLimit") {
            Some(n) => if n <= 4294967295 { n as u32 } else { 20 },
            None => 20,
        };
        Ok(TidbProfileConfig { database, slow_query_limit })
    }
}

/// What `parse_host_port` answers: host and port (4000 by default) after an optional
/// `mysql://` or `tidb://` and before any path, or the message.
pub open spec fn tidb_host_port_spec(endpoint: Seq<char>) -> Result<(Seq<char>, u16), Seq<char>> {
    let trimmed = trim(endpoint);
    if trimmed.len() == 0 {
        Err("TiDB endpoint is required. Use host:port in Settings."@)
    } else {
        let host_port = endpoint_host_port(trimmed, "mysql://"@, "tidb://"@);
        match rsplit_once(host_port, ':') {
            Some((host, port_text)) => match parse_unsigned(port_text, u16::MAX as nat) {
                Some(port) => Ok((host, port as u16)),
                None => Err("Invalid TiDB port in endpoint: "@ + trimmed),
            },
            None => Ok((host_port, 4000u16)),
        }
    }
}

pub fn parse_host_port(endpoint: &str) -> (r: Result<(String, u16), String>)
    ensures
        match r {
            Ok((h, p)) => tidb_host_port_spec(endpoint@) == Ok::<(Seq<char>, u16), Seq<char>>((h@, p)),
            Err(e) => tidb_host_port_spec(endpoint@) == Err::<(Seq<char>, u16), Seq<char>>(e@),
        },
{
    let trimmed = trim_str(endpoint);
    if trimmed.len() == 0 {
        return Err(owned("TiDB endpoint is required. Use host:port in Settings."));
    }
    let without_scheme = match strip_prefix_exec(&trimmed, "mysql://") {
        Some(rest) => rest,
        None => match strip_prefix_exec(&trimmed, "tidb://") {
            Some(rest) => rest,
            None => crate::text::copy_chars(&trimmed),
        },
    };
    let first = before_first_exec(&without_scheme, '/');
    let host_port = trim_exec(&first);
    assert(host_port@ == endpoint_host_port(trimmed@, "mysql://"@, "tidb://"@));
    match crate::text::rsplit_once_exec(&host_port, ':') {
        Some((host, port_text)) => match crate::text::parse_u16(&port_text) {
            Some(port) => Ok((string_of(&host), port)),
            None => {
                let mut m = chars_of("Invalid TiDB port in endpoint: ");
                push_chars(&mut m, &trimmed);
                Err(string_of(&m))
            },
        },
        None => Ok((string_of(&host_port), 4000)),
    }
}

/// What the connection to TiDB is opened with.
pub struct TidbConnectionPlan {
    pub host: String,
    pub port: u16,
    pub database: String,
    pub user: Option<String>,
    pub password: Option<String>,
}

/// `build_connection_options`: the host and port of the endpoint, the database, and the
/// profile's username and password when they are not blank.
pub fn connection_plan(profile: &ConnectionProfile, config: &TidbProfileConfig, password: &Option<String>)
    -> (r: Result<TidbConnectionPlan, String>)
    ensures
        match r {
            Ok(p) => tidb_host_port_spec(profile.endpoint@) == Ok::<(Seq<char>, u16), Seq<char>>((p.host@, p.port))
                && p.database@ == config.database@
                && opt_view(p.user) == crate::ssh::nonblank_opt(opt_view(profile.username))
                && opt_view(p.password) == crate::ssh::nonblank_opt(opt_view(*password)),
            Err(e) => tidb_host_port_spec(profile.endpoint@) == Err::<(Seq<char>, u16), Seq<char>>(e@),
        },
{
    let (host, port) = match parse_host_port(profile.endpoint.as_str()) {
        Ok(hp) => hp,
        Err(e) => return Err(e),
    };
    let user = match &profile.username {
        Some(u) => if is_blank_str(u.as_str()) { None } else { Some(copy_string(u)) },
        None => None,
    };
    let pass = match password {
        Some(p) => if is_blank_str(p.as_str()) { None } else { Some(copy_string(p)) },
        None => None,
    };
    Ok(TidbConnectionPlan { host, port, database: copy_string(&config.database), user, password: pass })
}

/// `normalize_time_range` in minutes: `15m`, `1h`, `6h` or `24h` (trimmed), else refused.
pub open spec fn tidb_minutes_spec(value: Seq<char>) -> Result<u64, Seq<char>> {
    let t = trim(value);
    if t == "15m"@ {
        Ok(15)
    } else if t == "1h"@ {
        Ok(60)
    } else if t == "6h"@ {
        Ok(360)
    } else if t == "24h"@ {
        Ok(1440)
    } else {
        Err("Unsupported TiDB time range: "@ + t)
    }
}

pub fn time_range_minutes(value: &str) -> (r: Result<u64, String>)
    ensures
        match r {
            Ok(m) => tidb_minutes_spec(value@) == Ok::<u64, Seq<char>>(m),
            Err(e) => tidb_minutes_spec(value@) == Err::<u64, Seq<char>>(e@),
        },
{
    let t = trim_str(value);
    if crate::text::chars_eq_str(&t, "15m") {
        Ok(15)
    } else if crate::text::chars_eq_str(&t, "1h") {
        Ok(60)
    } else if crate::text::chars_eq_str(&t, "6h") {
        Ok(360)
    } else if crate::text::chars_eq_str(&t, "24h") {
        Ok(1440)
    } else {
        let mut m = chars_of("Unsupported TiDB time range: ");
        push_chars(&mut m, &t);
        Err(string_of(&m))
    }
}

/// The window of a slow-query analysis is the time its range names (trimmed): 15, 60, 360
/// or 1440 minutes for `15m`, `1h`, `6h` and `24h`; any other range is refused.
pub proof fn law_tidb_window_is_named_range(value: Seq<char>)
    ensures
        crate::logs::offered_range(trim(value)) ==> tidb_minutes_spec(value)
            == Ok::<u64, Seq<char>>(crate::logs::named_minutes(trim(value)) as u64),
        !crate::logs::offered_range(trim(value)) ==> tidb_minutes_spec(value) is Err,
{
    crate::logs::lemma_offered_minutes();
}

/// The instance an analysis names: the requested one when not blank, else the profile's.
pub fn instance_name(input: &AnalyzeTidbInput, profile: &ConnectionProfile) -> (r: String)
    ensures
        r@ == match crate::ssh::nonblank_opt(opt_view(input.instance_name)) { Some(n) => n, None => profile.name@ },
{
    match &input.instance_name {
        Some(n) => if is_blank_str(n.as_str()) { copy_string(&profile.name) } else { copy_string(n) },
        None => copy_string(&profile.name),
    }
}

/// The number of rows asked for: the requested limit, else the profile's, kept within 1..=200.
pub fn slow_query_limit(input: &AnalyzeTidbInput, config: &TidbProfileConfig) -> (r: u32)
    ensures
        r == crate::redis::clamp(match input.slow_query_limit { Some(n) => n as int, None => config.slow_query_limit as int }, 1, 200),
{
    let n = match input.slow_query_limit { Some(n) => n, None => config.slow_query_limit };
    if n < 1 { 1 } else if n > 200 { 200 } else { n }
}

/// The tables tried, in order, for slow queries.
pub fn slow_query_relations() -> (r: Vec<&'static str>)
    ensures
        r@.len() == 2,
        r@[0]@ == "information_schema.CLUSTER_SLOW_QUERY"@,
        r@[1]@ == "information_schema.SLOW_QUERY"@,
{
    let mut r: Vec<&'static str> = Vec::new();
    r.push("information_schema.CLUSTER_SLOW_QUERY");
    r.push("information_schema.SLOW_QUERY");
    r
}

/// The statement that reads the slowest queries of a table since a time, up to a limit
/// (both bound as parameters).
pub fn slow_query_sql(relation: &str) -> (r: String)
    ensures
        r@ == "SELECT TIME, QUERY_TIME, DIGEST, DB, USER, INDEX_NAMES, QUERY FROM "@ + relation@
            + " WHERE TIME >= ? ORDER BY QUERY_TIME DESC LIMIT ?"@,
{
    let mut m = chars_of("SELECT TIME, QUERY_TIME, DIGEST, DB, USER, INDEX_NAMES, QUERY FROM ");
    push_str(&mut m, relation);
    push_str(&mut m, " WHERE TIME >= ? ORDER BY QUERY_TIME DESC LIMIT ?");
    string_of(&m)
}

// ---------------------------------------------------------------------------
// Rows, metrics and summary
// ---------------------------------------------------------------------------

/// The text columns of a slow-query row, as the analysis shows them.
pub struct SlowQueryText {
    pub id: String,
    pub timestamp: String,
    pub digest: String,
    pub database_name: String,
    pub user: String,
    pub index_names: String,
    pub query_text: String,
}

pub open spec fn or_default(v: Seq<char>, d: Seq<char>) -> Seq<char> {
    if v.len() == 0 { d } else { v }
}

fn or_default_exec(v: &str, d: &str) -> (r: String)
    ensures r@ == or_default(v@, d@),
{
    if chars_of(v).len() == 0 { owned(d) } else { owned(v) }
}

/// `map_slow_query` on the text columns: the id `tidb-slow-{index}`, empty columns replaced
/// by `n/a` or `unknown`, the query sanitized and masked.
pub fn slow_query_text(index: usize, timestamp: &str, digest: &str, database_name: &str, user: &str,
    index_names: &str, query: &str) -> (r: SlowQueryText)
    ensures
        r.id@ == "tidb-slow-"@ + decimal(index as nat),
        r.timestamp@ == timestamp@,
        r.digest@ == or_default(digest@, "n/a"@),
        r.database_name@ == or_default(database_name@, "unknown"@),
        r.user@ == or_default(user@, "unknown"@),
        r.index_names@ == or_default(index_names@, "n/a"@),
        r.query_text@ == crate::hardening::sanitize_and_mask(query@),
{
    let mut id = chars_of("tidb-slow-");
    push_decimal(&mut id, index as u64);
    SlowQueryText {
        id: string_of(&id),
        timestamp: owned(timestamp),
        digest: or_default_exec(digest, "n/a"),
        database_name: or_default_exec(database_name, "unknown"),
        user: or_default_exec(user, "unknown"),
        index_names: or_default_exec(index_names, "n/a"),
        query_text: crate::hardening::sanitize_and_mask_text(query),
    }
}

pub open spec fn metric_view(m: TidbMetric) -> (Seq<char>, Seq<char>, Seq<char>, Seq<char>) {
    (m.label@, m.value@, m.status@, m.detail@)
}

/// The `slow_query_rows` metric: rows returned against the limit, a warning at the limit.
pub fn rows_metric(slow_count: usize, limit: u32, source_relation: &str) -> (r: TidbMetric)
    ensures
        metric_view(r) == ("slow_query_rows"@, decimal(slow_count as nat) + "/"@ + decimal(limit as nat),
            if slow_count >= limit { "warning"@ } else { "healthy"@ },
            "Rows returned from "@ + source_relation@ + " within the selected time window."@),
{
    let mut v: Vec<char> = Vec::new();
    push_decimal(&mut v, slow_count as u64);
    push_str(&mut v, "/");
    push_decimal(&mut v, limit as u64);
    let mut d = chars_of("Rows returned from ");
    push_str(&mut d, source_relation);
    push_str(&mut d, " within the selected time window.");
    TidbMetric {
        label: owned("slow_query_rows"),
        value: string_of(&v),
        status: owned(if slow_count as u64 >= limit as u64 { "warning" } else { "healthy" }),
        detail: string_of(&d),
    }
}

/// The number of distinct digests.
pub fn distinct_count(digests: &Vec<String>) -> (r: usize)
    ensures r == string_views(digests@).to_set().len(),
{
    let mut seen: Vec<Vec<char>> = Vec::new();
    let mut i: usize = 0;
    while i < digests.len()
        invariant
            0 <= i <= digests@.len(),
            crate::text::strictly_sorted(views(seen@)),
            views(seen@).to_set() == string_views(digests@).take(i as int).to_set(),
        decreases digests@.len() - i,
    {
        let ghost before = views(seen@);
        let d = chars_of(digests[i].as_str());
        crate::text::insert_sorted_unique(&mut seen, &d);
        proof {
            let t0 = string_views(digests@).take(i as int);
            let t1 = string_views(digests@).take(i + 1);
            assert(t1 =~= t0.push(d@));
            assert(views(seen@).to_set() =~= t1.to_set()) by {
                assert forall|k: Seq<char>| views(seen@).to_set().contains(k) <==> t1.to_set().contains(k) by {
                    assert(views(seen@).contains(k) <==> (before.contains(k) || k == d@));
                    assert(before.to_set().contains(k) == before.contains(k));
                    assert(t0.to_set().contains(k) == t0.contains(k));
                    if t0.contains(k) {
                        let q = choose|q: int| 0 <= q < t0.len() && t0[q] == k;
                        assert(t1[q] == k);
                    }
                    if k == d@ {
                        assert(t1[i as int] == k);
                    }
                    if t1.contains(k) {
                        let q = choose|q: int| 0 <= q < t1.len() && t1[q] == k;
                        if q < i {
                            assert(t0[q] == k);
                        }
                    }
                }
            }
        }
        i += 1;
    }
    proof {
        assert(string_views(digests@).take(digests@.len() as int) =~= string_views(digests@));
        lemma_sorted_distinct_len(views(seen@));
    }
    seen.len()
}

proof fn lemma_sorted_distinct_len(s: Seq<Seq<char>>)
    requires crate::text::strictly_sorted(s),
    ensures s.to_set().len() == s.len(),
{
    assert(s.no_duplicates()) by {
        assert forall|a: int, b: int| 0 <= a < s.len() && 0 <= b < s.len() && a != b implies s[a] != s[b] by {
            if a < b {
                if s[a] == s[b] {
                    crate::text::lemma_text_less_irreflexive(s[a]);
                }
            } else {
                if s[a] == s[b] {
                    crate::text::lemma_text_less_irreflexive(s[b]);
                }
            }
        }
    }
    s.unique_seq_to_set();
}

/// The `unique_digests` metric: a warning from ten distinct digests on.
pub fn digests_metric(unique_digests: usize) -> (r: TidbMetric)
    ensures
        metric_view(r) == ("unique_digests"@, decimal(unique_digests as nat),
            if unique_digests >= 10 { "warning"@ } else { "healthy"@ },
            "Distinct SQL digests help show whether the issue is concentrated or broad."@),
{
    TidbMetric {
        label: owned("unique_digests"),
        value: crate::text::decimal_string(unique_digests as u64),
        status: owned(if unique_digests >= 10 { "warning" } else { "healthy" }),
        detail: owned("Distinct SQL digests help show whether the issue is concentrated or broad."),
    }
}

/// `summarize_sql`: the first twelve words of a statement, or `unknown SQL`.
pub open spec fn summarize_sql_spec(sql: Seq<char>) -> Seq<char> {
    let words = crate::text::split_whitespace(sql);
    let compact = join(words.take(crate::chat::at_most(words.len() as int, 12)), " "@);
    if compact.len() == 0 { "unknown SQL"@ } else { compact }
}

pub fn summarize_sql(sql: &str) -> (r: String)
    ensures r@ == summarize_sql_spec(sql@),
{
    let s = chars_of(sql);
    let words = crate::text::split_whitespace_exec(&s);
    let n = if words.len() < 12 { words.len() } else { 12 };
    let mut first: Vec<Vec<char>> = Vec::new();
    let mut i: usize = 0;
    while i < n
        invariant
            n == crate::chat::at_most(words@.len() as int, 12),
            0 <= i <= n,
            views(first@) == views(words@).take(i as int),
        decreases n - i,
    {
        let ghost prev = first@;
        let w = crate::text::copy_chars(&words[i]);
        first.push(w);
        assert(views(words@)[i as int] == words@[i as int]@);
        assert(views(first@) =~= views(prev).push(w@));
        assert(views(first@) =~= views(words@).take(i + 1));
        i += 1;
    }
    let compact = crate::text::join_exec(&first, " ");
    if compact.len() == 0 { owned("unknown SQL") } else { string_of(&compact) }
}

pub open spec fn tidb_summary_view(s: TidbSummary) -> (Seq<char>, Seq<Seq<char>>, Seq<Seq<char>>) {
    (s.headline@, string_views(s.likely_causes@), string_views(s.recommended_next_steps@))
}

pub open spec fn count_not_healthy(ms: Seq<TidbMetric>) -> nat
    decreases ms.len(),
{
    if ms.len() == 0 {
        0
    } else {
        count_not_healthy(ms.drop_last()) + if ms.last().status@ != "healthy"@ { 1nat } else { 0nat }
    }
}

/// What `build_summary` returns: the rows and warning metrics of the instance, the top
/// statement, and fixed causes and next steps.
pub open spec fn tidb_summary_spec(instance: Seq<char>, query_count: nat, top_query: Option<Seq<char>>, ms: Seq<TidbMetric>)
    -> (Seq<char>, Seq<Seq<char>>, Seq<Seq<char>>)
{
    let top = match top_query { Some(q) => summarize_sql_spec(q), None => "no slow SQL captured"@ };
    (
        instance + " returned "@ + decimal(query_count) + " slow SQL row(s) with "@ + decimal(count_not_healthy(ms))
            + " warning metric(s); top statement: "@ + top + "."@,
        seq![
            "The top slow SQL may be missing an efficient index path or scanning too many rows."@,
            "Repeated digests often indicate a hot code path, batch worker, or dashboard query driving cluster pressure."@,
            "Large query_time values can also reflect lock wait, TiKV hotspotting, or stale execution plans."@,
        ],
        seq![
            "Run EXPLAIN ANALYZE on the worst digest and compare index choice, rows, and operator timing."@,
            "Correlate the slow SQL timestamp with application releases, traffic spikes, and Redis or upstream latency evidence."@,
            "Group repeated digests by service owner so the LLM or incident report can point to the hottest application path."@,
        ],
    )
}

/// `build_summary`, given the number of rows and the query text of the first.
pub fn build_summary(instance_name: &str, query_count: usize, top_query: Option<&str>, metrics: &Vec<TidbMetric>)
    -> (r: TidbSummary)
    ensures
        tidb_summary_view(r) == tidb_summary_spec(instance_name@, query_count as nat,
            match top_query { Some(q) => Some(q@), None => None }, metrics@),
{
    let top = match top_query {
        Some(q) => summarize_sql(q),
        None => owned("no slow SQL captured"),
    };
    let mut warnings: usize = 0;
    let mut i: usize = 0;
    while i < metrics.len()
        invariant
            0 <= i <= metrics@.len(),
            warnings == count_not_healthy(metrics@.take(i as int)),
            warnings <= i,
        decreases metrics@.len() - i,
    {
        assert(metrics@.take(i + 1).drop_last() =~= metrics@.take(i as int));
        if !crate::text::str_eq(metrics[i].status.as_str(), "healthy") {
            warnings += 1;
        }
        i += 1;
    }
    assert(metrics@.take(metrics@.len() as int) =~= metrics@);
    let mut h = chars_of(instance_name);
    push_str(&mut h, " returned ");
    push_decimal(&mut h, query_count as u64);
    push_str(&mut h, " slow SQL row(s) with ");
    push_decimal(&mut h, warnings as u64);
    push_str(&mut h, " warning metric(s); top statement: ");
    push_str(&mut h, top.as_str());
    push_str(&mut h, ".");
    let mut causes: Vec<String> = Vec::new();
    causes.push(owned("The top slow SQL may be missing an efficient index path or scanning too many rows."));
    causes.push(owned("Repeated digests often indicate a hot code path, batch worker, or dashboard query driving cluster pressure."));
    causes.push(owned("Large query_time values can also reflect lock wait, TiKV hotspotting, or stale execution plans."));
    let mut steps: Vec<String> = Vec::new();
    steps.push(owned("Run EXPLAIN ANALYZE on the worst digest and compare index choice, rows, and operator timing."));
    steps.push(owned("Correlate the slow SQL timestamp with application releases, traffic spikes, and Redis or upstream latency evidence."));
    steps.push(owned("Group repeated digests by service owner so the LLM or incident report can point to the hottest application path."));
    let r = TidbSummary { headline: string_of(&h), likely_causes: causes, recommended_next_steps: steps };
    proof {
        let sp = tidb_summary_spec(instance_name@, query_count as nat, match top_query { Some(q) => Some(q@), None => None }, metrics@);
        assert(string_views(r.likely_causes@) =~= sp.1);
        assert(string_views(r.recommended_next_steps@) =~= sp.2);
    }
    r
}

/// The plan line of an analysis: the endpoint, the table, the start time and the limit.
pub fn executed_plan(endpoint: &str, source_relation: &str, since: &str, limit: u32) -> (r: String)
    ensures
        r@ == "Connect to "@ + trim(endpoint@) + " -> query "@ + source_relation@ + " for slow SQL since "@ + since@
            + " -> limit "@ + decimal(limit as nat),
{
    let mut m = chars_of("Connect to ");
    push_chars(&mut m, &trim_str(endpoint));
    push_str(&mut m, " -> query ");
    push_str(&mut m, source_relation);
    push_str(&mut m, " for slow SQL since ");
    push_str(&mut m, since);
    push_str(&mut m, " -> limit ");
    push_decimal(&mut m, limit as u64);
    string_of(&m)
}

/// The adapter line of an analysis.
pub fn tidb_adapter_mode(endpoint: &str) -> (r: String)
    ensures r@ == "tidb-mysql-direct ("@ + trim(endpoint@) + ")"@,
{
    let mut m = chars_of("tidb-mysql-direct (");
    push_chars(&mut m, &trim_str(endpoint));
    push_str(&mut m, ")");
    string_of(&m)
}


/// A `DATETIME` cell as text: `YYYY-MM-DD hh:mm:ss.ffffff`, each field zero-padded.
pub open spec fn sql_date_spec(year: u16, month: u8, day: u8, hour: u8, minute: u8, second: u8, micros: u32) -> Seq<char> {
    decimal_padded(year as nat, 4) + "-"@ + decimal_padded(month as nat, 2) + "-"@ + decimal_padded(day as nat, 2)
        + " "@ + decimal_padded(hour as nat, 2) + ":"@ + decimal_padded(minute as nat, 2) + ":"@
        + decimal_padded(second as nat, 2) + "."@ + decimal_padded(micros as nat, 6)
}

pub fn sql_date_text(year: u16, month: u8, day: u8, hour: u8, minute: u8, second: u8, micros: u32) -> (r: String)
    ensures r@ == sql_date_spec(year, month, day, hour, minute, second, micros),
{
    let mut m: Vec<char> = Vec::new();
    push_decimal_padded(&mut m, year as u64, 4);
    push_str(&mut m, "-");
    push_decimal_padded(&mut m, month as u64, 2);
    push_str(&mut m, "-");
    push_decimal_padded(&mut m, day as u64, 2);
    push_str(&mut m, " ");
    push_decimal_padded(&mut m, hour as u64, 2);
    push_str(&mut m, ":");
    push_decimal_padded(&mut m, minute as u64, 2);
    push_str(&mut m, ":");
    push_decimal_padded(&mut m, second as u64, 2);
    push_str(&mut m, ".");
    push_decimal_padded(&mut m, micros as u64, 6);
    string_of(&m)
}

/// A `TIME` cell as text: the hours of its days and hours together, then `mm:ss.ffffff`.
pub open spec fn sql_time_spec(days: u32, hours: u8, minutes: u8, seconds: u8, micros: u32) -> Seq<char> {
    decimal_padded((days * 24 + hours) as nat, 2) + ":"@ + decimal_padded(minutes as nat, 2) + ":"@
        + decimal_padded(seconds as nat, 2) + "."@ + decimal_padded(micros as nat, 6)
}

pub fn sql_time_text(days: u32, hours: u8, minutes: u8, seconds: u8, micros: u32) -> (r: String)
    ensures r@ == sql_time_spec(days, hours, minutes, seconds, micros),
{
    let total: u64 = days as u64 * 24 + hours as u64;
    let mut m: Vec<char> = Vec::new();
    push_decimal_padded(&mut m, total, 2);
    push_str(&mut m, ":");
    push_decimal_padded(&mut m, minutes as u64, 2);
    push_str(&mut m, ":");
    push_decimal_padded(&mut m, seconds as u64, 2);
    push_str(&mut m, ".");
    push_decimal_padded(&mut m, micros as u64, 6);
    string_of(&m)
}

} // verus!
