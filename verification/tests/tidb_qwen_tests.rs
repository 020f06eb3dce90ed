use adbchelper::profiles::secret_load_failure;
use adbchelper::tidb::{sql_date_text, sql_time_text};
use adbchelper::models::{AnalyzeTidbInput, ConnectionProfile, QwenConfig, TidbMetric};
use adbchelper::qwen::{completion_url, extract_content, interpret_reply, normalize_base_path, preview, QwenError};
use adbchelper::tidb::{
    build_summary, connection_plan, digests_metric, distinct_count, executed_plan, instance_name, parse_host_port,
    rows_metric, slow_query_limit, slow_query_relations, slow_query_sql, slow_query_text, summarize_sql,
    tidb_adapter_mode, time_range_minutes, TidbProfileConfig,
};

fn profile(endpoint: &str, username: Option<&str>, config: &str) -> ConnectionProfile {
    ConnectionProfile {
        id: "t1".to_string(),
        environment_id: "prod".to_string(),
        profile_type: "tidb".to_string(),
        name: "tidb-main".to_string(),
        endpoint: endpoint.to_string(),
        username: username.map(|u| u.to_string()),
        default_scope: None,
        notes: None,
        config_json: config.to_string(),
        has_secret: false,
        created_at: String::new(),
        updated_at: String::new(),
    }
}

fn input(name: Option<&str>, limit: Option<u32>) -> AnalyzeTidbInput {
    AnalyzeTidbInput {
        environment_id: "prod".to_string(),
        instance_name: name.map(|n| n.to_string()),
        time_range: "1h".to_string(),
        slow_query_limit: limit,
    }
}

fn metric(status: &str) -> TidbMetric {
    TidbMetric { label: "m".to_string(), value: "v".to_string(), status: status.to_string(), detail: String::new() }
}

#[test]
fn tidb_settings() {
    let c = TidbProfileConfig::from_profile(&profile("db:4000", None, " ")).ok().unwrap();
    assert_eq!((c.database.as_str(), c.slow_query_limit), ("mysql", 20));
    let c = TidbProfileConfig::from_profile(&profile("db", None, "{\"database\":\" app \",\"slowQueryLimit\":50}"))
        .ok()
        .unwrap();
    assert_eq!((c.database.as_str(), c.slow_query_limit), ("app", 50));
    let err = TidbProfileConfig::from_profile(&profile("db", None, "{oops")).err().unwrap();
    assert!(err.starts_with("Invalid TiDB profile JSON: "));
}

#[test]
fn tidb_endpoints() {
    assert_eq!(parse_host_port("mysql://tidb.internal:4001/db"), Ok(("tidb.internal".to_string(), 4001)));
    assert_eq!(parse_host_port("tidb"), Ok(("tidb".to_string(), 4000)));
    assert_eq!(parse_host_port(" "), Err("TiDB endpoint is required. Use host:port in Settings.".to_string()));
    assert_eq!(parse_host_port("tidb:x"), Err("Invalid TiDB port in endpoint: tidb:x".to_string()));
    let config = TidbProfileConfig { database: "app".to_string(), slow_query_limit: 20 };
    let plan = connection_plan(&profile("tidb:4000", Some(" "), "{}"), &config, &Some("pw".to_string())).ok().unwrap();
    assert_eq!((plan.host.as_str(), plan.port, plan.database.as_str()), ("tidb", 4000, "app"));
    assert_eq!(plan.user, None);
    assert_eq!(plan.password, Some("pw".to_string()));
}

#[test]
fn tidb_request_shape() {
    assert_eq!(time_range_minutes(" 6h "), Ok(360));
    assert_eq!(time_range_minutes("24h"), Ok(1440));
    assert_eq!(time_range_minutes("7d"), Err("Unsupported TiDB time range: 7d".to_string()));
    let p = profile("db", None, "{}");
    assert_eq!(instance_name(&input(Some("  "), None), &p), "tidb-main");
    assert_eq!(instance_name(&input(Some("tidb-a"), None), &p), "tidb-a");
    let config = TidbProfileConfig { database: "app".to_string(), slow_query_limit: 500 };
    assert_eq!(slow_query_limit(&input(None, None), &config), 200);
    assert_eq!(slow_query_limit(&input(None, Some(0)), &config), 1);
    assert_eq!(slow_query_limit(&input(None, Some(7)), &config), 7);
    assert_eq!(slow_query_relations(), vec!["information_schema.CLUSTER_SLOW_QUERY", "information_schema.SLOW_QUERY"]);
    assert_eq!(
        slow_query_sql("information_schema.SLOW_QUERY"),
        "SELECT TIME, QUERY_TIME, DIGEST, DB, USER, INDEX_NAMES, QUERY FROM information_schema.SLOW_QUERY WHERE TIME >= ? ORDER BY QUERY_TIME DESC LIMIT ?"
    );
}

#[test]
fn tidb_rows_and_metrics() {
    let row = slow_query_text(3, "2024-01-01 00:00:00", "", "", "root", "", "select 1 -- password=hunter2");
    assert_eq!(row.id, "tidb-slow-3");
    assert_eq!(row.digest, "n/a");
    assert_eq!(row.database_name, "unknown");
    assert_eq!(row.user, "root");
    assert_eq!(row.index_names, "n/a");
    assert_eq!(row.query_text, "select 1 -- password=[masked]");
    let m = rows_metric(20, 20, "information_schema.SLOW_QUERY");
    assert_eq!((m.value.as_str(), m.status.as_str()), ("20/20", "warning"));
    assert_eq!(m.detail, "Rows returned from information_schema.SLOW_QUERY within the selected time window.");
    assert_eq!(rows_metric(3, 20, "x").status, "healthy");
    let digests = vec!["b".to_string(), "a".to_string(), "b".to_string(), "c".to_string()];
    assert_eq!(distinct_count(&digests), 3);
    assert_eq!(distinct_count(&vec![]), 0);
    let d = digests_metric(10);
    assert_eq!((d.value.as_str(), d.status.as_str()), ("10", "warning"));
    assert_eq!(digests_metric(9).status, "healthy");
}

#[test]
fn tidb_summary_and_plan() {
    assert_eq!(summarize_sql("  SELECT   a,\n b FROM t WHERE x = 1 AND y = 2 AND z = 3 ORDER BY a "),
        "SELECT a, b FROM t WHERE x = 1 AND y =");
    assert_eq!(summarize_sql(" \n "), "unknown SQL");
    let metrics = vec![metric("healthy"), metric("warning"), metric("danger")];
    let s = build_summary("tidb-a", 2, Some("select * from t"), &metrics);
    assert_eq!(s.headline, "tidb-a returned 2 slow SQL row(s) with 2 warning metric(s); top statement: select * from t.");
    let s = build_summary("tidb-a", 0, None, &vec![]);
    assert_eq!(s.headline, "tidb-a returned 0 slow SQL row(s) with 0 warning metric(s); top statement: no slow SQL captured.");
    assert_eq!(
        executed_plan(" tidb:4000 ", "information_schema.SLOW_QUERY", "2024-01-01T00:00:00Z", 20),
        "Connect to tidb:4000 -> query information_schema.SLOW_QUERY for slow SQL since 2024-01-01T00:00:00Z -> limit 20"
    );
    assert_eq!(tidb_adapter_mode(" tidb:4000 "), "tidb-mysql-direct (tidb:4000)");
}

#[test]
fn qwen_paths_and_urls() {
    assert_eq!(normalize_base_path("  "), "/chat/completions");
    assert_eq!(normalize_base_path("v1/chat"), "/v1/chat");
    assert_eq!(normalize_base_path(" /v1/chat "), "/v1/chat");
    let config = QwenConfig {
        base_url: "https://llm.example.com//".to_string(),
        base_path: "api/chat".to_string(),
        app_key: "k".to_string(),
        app_secret: "s".to_string(),
        model: "qwen".to_string(),
        content_type: "application/json".to_string(),
    };
    assert_eq!(completion_url(&config), "https://llm.example.com/api/chat");
}

#[test]
fn qwen_preview_truncates_at_four_hundred_chars() {
    assert_eq!(preview("  short  "), "short");
    let long = "é".repeat(401);
    let p = preview(&long);
    assert_eq!(p.chars().count(), 403);
    assert!(p.ends_with("..."));
    assert_eq!(preview(&"x".repeat(400)), "x".repeat(400));
}

#[test]
fn qwen_content_shapes() {
    assert_eq!(extract_content("{\"choices\":[{\"message\":{\"content\":\"hi\"}}]}"), Some("hi".to_string()));
    assert_eq!(
        extract_content("{\"choices\":[{\"message\":{\"content\":[{\"text\":\"a\"},{\"content\":\"b\"},{\"x\":1}]}}]}"),
        Some("a\nb".to_string())
    );
    assert_eq!(
        extract_content("{\"output\":{\"choices\":[{\"message\":{\"content\":\"o\"}}]}}"),
        Some("o".to_string())
    );
    assert_eq!(extract_content("{\"output\":{\"text\":\"t\"}}"), Some("t".to_string()));
    assert_eq!(extract_content("{\"data\":{\"content\":\"d\"}}"), Some("d".to_string()));
    assert_eq!(extract_content("{\"choices\":[{\"message\":{\"content\":[{\"text\":\" \"}]}}]}"), None);
    assert_eq!(extract_content("not json"), None);
}

#[test]
fn qwen_replies() {
    let ok = interpret_reply(200, "{\"output\":{\"text\":\"fine\"}}".to_string()).ok().unwrap();
    assert_eq!(ok.content, "fine");
    match interpret_reply(502, " bad gateway ".to_string()) {
        Err(e @ QwenError::HttpStatus { .. }) => assert_eq!(e.message(), "qwen returned HTTP 502: bad gateway"),
        _ => panic!("expected an HTTP status error"),
    }
    match interpret_reply(200, "{}".to_string()) {
        Err(e @ QwenError::UnsupportedShape { .. }) => {
            assert_eq!(e.message(), "qwen returned an unsupported response shape: {}")
        }
        _ => panic!("expected an unsupported shape error"),
    }
    assert_eq!(QwenError::Request("timeout".to_string()).message(), "qwen request failed: timeout");
}

#[test]
fn sql_cells_as_text() {
    assert_eq!(sql_date_text(2024, 3, 7, 9, 5, 1, 42), "2024-03-07 09:05:01.000042");
    assert_eq!(sql_date_text(12, 12, 31, 23, 59, 59, 999999), "0012-12-31 23:59:59.999999");
    assert_eq!(sql_time_text(1, 2, 3, 4, 5), "26:03:04.000005");
    assert_eq!(sql_time_text(0, 0, 0, 0, 0), "00:00:00.000000");
}

#[test]
fn secret_failures_name_the_service() {
    assert_eq!(
        secret_load_failure("TiDB", "tidb-main", "no stored secret found"),
        "Failed to load TiDB secret for profile 'tidb-main': no stored secret found"
    );
}
