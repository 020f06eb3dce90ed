use adbchelper::json::{parse_json_or_null, JsonValue};
use adbchelper::logs::{
    build_elk_query, build_query_string, build_summary, clean_filter, cluster_entries, cluster_label, dotted_lookup,
    duration_for_time_range, elk_adapter_mode, elk_auth, elk_failure_message, escape_query_string, filter_entries_at,
    first_string, log_search_response, normalize_message, parse_elk_hits, sample_entries, sample_entries_at,
    text_filter, value_to_string, ElkAuth, ElkProfileConfig,
};
use adbchelper::models::{ConnectionProfile, LogEntry, LogSearchInput};

fn to_serde(v: &JsonValue) -> serde_json::Value {
    match v {
        JsonValue::Null => serde_json::Value::Null,
        JsonValue::Bool(b) => serde_json::Value::Bool(*b),
        JsonValue::Number(n) => serde_json::from_str(&n.text).unwrap(),
        JsonValue::Str(s) => serde_json::Value::String(s.clone()),
        JsonValue::Array(items) => serde_json::Value::Array(items.iter().map(to_serde).collect()),
        JsonValue::Object(members) => {
            serde_json::Value::Object(members.iter().map(|(k, x)| (k.clone(), to_serde(x))).collect())
        }
    }
}

fn text(v: &[char]) -> String {
    v.iter().collect()
}

fn input(env: &str, service: Option<&str>, keyword: Option<&str>, trace: Option<&str>, range: &str) -> LogSearchInput {
    LogSearchInput {
        environment_id: env.to_string(),
        service: service.map(|s| s.to_string()),
        pod: None,
        keyword: keyword.map(|s| s.to_string()),
        trace_id: trace.map(|s| s.to_string()),
        time_range: range.to_string(),
    }
}

fn entry(service: &str, level: &str, message: &str, timestamp: &str) -> LogEntry {
    LogEntry {
        id: format!("{service}-{message}"),
        timestamp: timestamp.to_string(),
        environment_id: "prod".to_string(),
        service: service.to_string(),
        pod: format!("{service}-pod"),
        level: level.to_string(),
        trace_id: Some("trace-1".to_string()),
        message: message.to_string(),
    }
}

fn profile(username: Option<&str>, has_secret: bool, config: &str) -> ConnectionProfile {
    ConnectionProfile {
        id: "e1".to_string(),
        environment_id: "prod".to_string(),
        profile_type: "elk".to_string(),
        name: "elk-main".to_string(),
        endpoint: "https://elk:9200/".to_string(),
        username: username.map(|u| u.to_string()),
        default_scope: None,
        notes: None,
        config_json: config.to_string(),
        has_secret,
        created_at: String::new(),
        updated_at: String::new(),
    }
}

#[test]
fn filters_and_query_line() {
    assert_eq!(clean_filter(&Some("  api ".to_string())), Some("api".to_string()));
    assert_eq!(clean_filter(&Some("   ".to_string())), None);
    assert_eq!(clean_filter(&None), None);
    assert_eq!(
        build_query_string(&input("prod", Some(" api "), Some(""), Some("t-1"), "1h")),
        "environment=prod AND timeRange=1h AND service=api AND traceId=t-1"
    );
    assert_eq!(text(&escape_query_string("a+b:c/d*")), "a\\+b\\:c\\/d\\*");
    assert_eq!(duration_for_time_range("15m"), 15);
    assert_eq!(duration_for_time_range("24h"), 1440);
    assert_eq!(duration_for_time_range("bogus"), 60);
}

#[test]
fn elk_settings_and_query_document() {
    let c = ElkProfileConfig::from_profile(&profile(None, false, "{\"indexPattern\":\" app-* \",\"space\":\" ops \"}"))
        .ok()
        .unwrap();
    assert_eq!(c.index_pattern, "app-*");
    assert_eq!(c.timestamp_field, "@timestamp");
    assert_eq!(c.space, Some("ops".to_string()));
    assert_eq!(c.search_url("https://elk:9200//"), "https://elk:9200/app-*/_search");
    let filter = to_serde(&text_filter("service.name", "a-b"));
    assert_eq!(filter["query_string"]["default_field"], "service.name");
    assert_eq!(filter["query_string"]["query"], "*a\\-b*");
    let q = build_elk_query(&input("prod", Some("api"), Some("timeout"), None, "6h"), &c);
    let doc = to_serde(&q);
    assert_eq!(doc["size"], 200);
    assert_eq!(doc["sort"][0]["@timestamp"]["order"], "desc");
    assert_eq!(doc["_source"].as_array().unwrap().len(), 12);
    let filters = doc["query"]["bool"]["filter"].as_array().unwrap();
    assert_eq!(filters.len(), 3);
    assert_eq!(filters[0]["range"]["@timestamp"]["gte"], "now-6h");
    assert_eq!(filters[0]["range"]["@timestamp"]["lte"], "now");
    assert_eq!(filters[1]["query_string"]["query"], "*api*");
    assert_eq!(filters[2]["multi_match"]["query"], "timeout");
    assert_eq!(filters[2]["multi_match"]["fields"].as_array().unwrap().len(), 4);
}

#[test]
fn document_lookups() {
    let doc = parse_json_or_null("{\"service\":{\"name\":\"api\"},\"n\":7,\"flags\":[true],\"empty\":\" \",\"nil\":null}");
    assert_eq!(dotted_lookup(&doc, "service.name").and_then(value_to_string), Some("api".to_string()));
    assert_eq!(value_to_string(dotted_lookup(&doc, "n").unwrap()), Some("7".to_string()));
    assert_eq!(value_to_string(dotted_lookup(&doc, "flags").unwrap()), Some("true".to_string()));
    assert_eq!(value_to_string(dotted_lookup(&doc, "nil").unwrap()), None);
    assert!(dotted_lookup(&doc, "service.missing").is_none());
    assert_eq!(first_string(&doc, &["empty", "missing", "service.name"]), Some("api".to_string()));
    assert_eq!(first_string(&doc, &["empty", "nil"]), None);
}

#[test]
fn elk_hits_become_entries() {
    let payload = parse_json_or_null(
        "{\"hits\":{\"hits\":[\
         {\"_id\":\"h1\",\"_source\":{\"@timestamp\":\"2024-01-01T00:00:00Z\",\"message\":\"boom token=abc\",\
           \"service\":{\"name\":\"api\"},\"log\":{\"level\":\"error\"},\"traceId\":\"t-1\"}},\
         {\"_id\":\"h2\",\"_source\":{\"message\":\"  \"}},\
         {\"_id\":\"h3\"}]}}",
    );
    let entries = parse_elk_hits(&payload, "prod");
    assert_eq!(entries.len(), 1);
    let e = &entries[0];
    assert_eq!(e.id, "h1");
    assert_eq!(e.timestamp, "2024-01-01T00:00:00Z");
    assert_eq!(e.environment_id, "prod");
    assert_eq!(e.service, "api");
    assert_eq!(e.pod, "unknown-pod");
    assert_eq!(e.level, "ERROR");
    assert_eq!(e.trace_id, Some("t-1".to_string()));
    assert_eq!(e.message, "boom token=abc");
    assert!(parse_elk_hits(&parse_json_or_null("[]"), "prod").is_empty());
}

#[test]
fn entries_are_filtered_by_time_and_fields() {
    // 2024-01-01T01:00:00Z as seconds since the epoch.
    let now = (1_704_070_800_i64, 0_u32);
    let entries = vec![
        entry("payment-api", "ERROR", "Redis timeout 1", "2024-01-01T00:50:00Z"),
        entry("payment-api", "ERROR", "Redis timeout 2", "2023-12-31T23:00:00Z"),
        entry("gateway", "WARN", "Upstream slow", "not a time"),
        LogEntry { environment_id: "test".to_string(), ..entry("payment-api", "ERROR", "other env", "2024-01-01T00:59:00Z") },
    ];
    let kept = filter_entries_at(entries, &input("prod", None, None, None, "1h"), now);
    assert_eq!(kept.iter().map(|e| e.message.clone()).collect::<Vec<_>>(), vec!["Redis timeout 1", "Upstream slow"]);
    let entries = vec![
        entry("payment-api", "ERROR", "Redis TIMEOUT", "2024-01-01T00:50:00Z"),
        entry("gateway", "WARN", "Upstream slow", "2024-01-01T00:50:00Z"),
    ];
    let kept = filter_entries_at(entries, &input("prod", Some("PAYMENT"), Some("timeout"), Some("TRACE"), "1h"), now);
    assert_eq!(kept.len(), 1);
    assert_eq!(kept[0].service, "payment-api");
}

#[test]
fn messages_are_normalized_and_labelled() {
    assert_eq!(text(&normalize_message("Redis  timeout after 2000ms for 42")), "redis timeout after <value> for <value>");
    assert_eq!(text(&cluster_label("  short  ")), "short");
    let long = "x".repeat(70);
    assert_eq!(text(&cluster_label(&long)), format!("{}...", "x".repeat(64)));
}

#[test]
fn entries_are_clustered_by_normalized_message() {
    let entries = vec![
        entry("payment-api", "ERROR", "Redis timeout after 2000ms session 1", "t"),
        entry("gateway", "ERROR", "Upstream 502", "t"),
        entry("payment-api", "ERROR", "Redis timeout after 2000ms session 2", "t"),
        entry("checkout", "ERROR", "Redis timeout after 1500ms session 3", "t"),
    ];
    let clusters = cluster_entries(&entries);
    assert_eq!(clusters.len(), 2);
    assert_eq!(clusters[0].count, 3);
    assert_eq!(clusters[0].id, "redis-timeout-after-<value>-session-<value>");
    assert_eq!(clusters[0].label, "Redis timeout after 2000ms session 1");
    assert_eq!(clusters[0].services, vec!["checkout".to_string(), "payment-api".to_string()]);
    assert_eq!(clusters[1].count, 1);
    assert_eq!(clusters.iter().map(|c| c.count).sum::<usize>(), entries.len());
}

#[test]
fn log_summaries() {
    let i = input("prod", None, None, None, "1h");
    let empty = build_summary(&i, &vec![], &vec![]);
    assert_eq!(empty.headline, "No log events matched the current filters in prod for 1h.");
    let entries = vec![
        entry("payment-api", "ERROR", "Redis timeout 1", "t"),
        entry("payment-api", "ERROR", "Redis timeout 2", "t"),
        entry("gateway", "WARN", "slow", "t"),
    ];
    let clusters = cluster_entries(&entries);
    let s = build_summary(&input("prod", Some("payment-api"), None, None, "1h"), &entries, &clusters);
    assert_eq!(s.headline, "3 matching events in 1h. Top cluster: Redis timeout 1 (2)");
    assert_eq!(s.likely_causes[0], "Redis timeout 1 is the dominant repeated failure pattern across 1 service(s).");
    assert_eq!(
        s.likely_causes[1],
        "The result set is error-heavy, which suggests an active failure rather than startup noise."
    );
    assert_eq!(
        s.recommended_next_steps[2],
        "Compare payment-api logs with Kubernetes events and restart counts in the same window."
    );
    let r = log_search_response(&i, "mock-elastic-adapter".to_string(), entries);
    assert_eq!(r.executed_query, "environment=prod AND timeRange=1h");
    assert_eq!(r.clusters.len(), 2);
}

#[test]
fn built_in_samples() {
    let now = (1_704_070_800_i64, 0_u32);
    let samples = sample_entries_at(now);
    assert_eq!(samples.len(), 7);
    assert_eq!(samples[0].timestamp, "2024-01-01T00:51:00+00:00");
    assert_eq!(samples[0].service, "payment-api");
    assert_eq!(samples[6].environment_id, "test");
    let prod = filter_entries_at(samples, &input("prod", None, None, None, "15m"), now);
    assert_eq!(prod.len(), 5);
    assert_eq!(sample_entries().len(), 7);
}

#[test]
fn elk_profiles() {
    assert_eq!(elk_adapter_mode(&profile(None, false, "{}")), "elk-http-search (https://elk:9200/)");
    assert!(matches!(elk_auth(&profile(Some("ops"), true, "{}")), ElkAuth::Basic(u) if u == "ops"));
    assert!(matches!(elk_auth(&profile(Some(" "), true, "{}")), ElkAuth::Bearer));
    assert!(matches!(elk_auth(&profile(None, false, "{}")), ElkAuth::Anonymous));
    assert_eq!(elk_failure_message("elk-main", "401", " nope \n"), "ELK request failed for elk-main with status 401: nope");
}

#[test]
fn elk_request_and_response_bodies() {
    let c = ElkProfileConfig::from_profile(&profile(None, false, "{}")).ok().unwrap();
    let i = input("prod", Some("api"), None, None, "15m");
    let body = adbchelper::logs::elk_request_body(&i, &c);
    let sent: serde_json::Value = serde_json::from_str(&body).unwrap();
    assert_eq!(sent, to_serde(&build_elk_query(&i, &c)));
    assert_eq!(sent["query"]["bool"]["filter"][0]["range"]["@timestamp"]["gte"], "now-15m");
    let es = adbchelper::logs::elk_entries_from_body(
        "elk-main",
        "{\"hits\":{\"hits\":[{\"_id\":\"h1\",\"_source\":{\"message\":\"boom\"}}]}}",
        "prod",
    )
    .ok()
    .unwrap();
    assert_eq!(es.len(), 1);
    assert_eq!(es[0].id, "h1");
    assert_eq!(es[0].message, "boom");
    let err = adbchelper::logs::elk_entries_from_body("elk-main", "not json", "prod").err().unwrap();
    assert!(err.starts_with("Invalid ELK response for elk-main: "));
    assert!(err.len() > "Invalid ELK response for elk-main: ".len());
}
