use adbchelper::redis::{is_pong, plain_tcp_only, redis_adapter_mode};
use adbchelper::models::ConnectionProfile;
use adbchelper::redis::{
    auth_args, build_info_metrics, build_redis_summary, format_uptime, info_figures, info_u64, latency_events_from_reply,
    latency_samples, memory_status, parse_endpoint, parse_info_sections, redis_instance_name, redis_plan,
    slow_queries_from_reply, unix_to_rfc3339, RedisProfileConfig,
};
use adbchelper::resp::{encode_command, parse_redis_value, RedisValue, RespError};

fn profile(name: &str, scope: Option<&str>, config: &str) -> ConnectionProfile {
    ConnectionProfile {
        id: "r1".to_string(),
        environment_id: "dev".to_string(),
        profile_type: "redis".to_string(),
        name: name.to_string(),
        endpoint: "redis://cache:6380/0".to_string(),
        username: None,
        default_scope: scope.map(|s| s.to_string()),
        notes: None,
        config_json: config.to_string(),
        has_secret: false,
        created_at: String::new(),
        updated_at: String::new(),
    }
}

fn bulk(s: &str) -> RedisValue {
    RedisValue::BulkString(s.to_string())
}

#[test]
fn endpoints_are_parsed_with_default_port() {
    let e = parse_endpoint(" redis://cache.internal:6380/2 ").ok().unwrap();
    assert_eq!((e.host.as_str(), e.port), ("cache.internal", 6380));
    let e = parse_endpoint("cache").ok().unwrap();
    assert_eq!((e.host.as_str(), e.port), ("cache", 6379));
    assert_eq!(
        parse_endpoint("   ").err(),
        Some("Redis endpoint is required. Set host:port in Settings first.".to_string())
    );
    assert_eq!(parse_endpoint("cache:port").err(), Some("Invalid Redis port in endpoint: cache:port".to_string()));
    assert_eq!(parse_endpoint(":6379").err(), Some("Redis endpoint host is empty.".to_string()));
}

#[test]
fn info_sections_skip_comments_and_blank_lines() {
    let info = parse_info_sections("# Server\r\nuptime_in_seconds:90061\r\n\r\nused_memory:1024\r\nbogus\r\n");
    assert_eq!(info.get("uptime_in_seconds").map(|s| s.as_str()), Some("90061"));
    assert_eq!(info.get("used_memory").map(|s| s.as_str()), Some("1024"));
    assert!(info.get("bogus").is_none());
    assert_eq!(info_u64(&info, "uptime_in_seconds"), Some(90061));
    let figures = info_figures(&info);
    assert_eq!(figures.uptime_seconds, 90061);
    assert_eq!(figures.used_memory, Some(1024));
    assert_eq!(figures.maxmemory, None);
    assert_eq!(figures.connected_clients, 0);
}

#[test]
fn uptime_formats() {
    assert_eq!(format_uptime(90061), "1d 01h");
    assert_eq!(format_uptime(3720), "1h 02m");
    assert_eq!(format_uptime(59), "0m");
    assert_eq!(format_uptime(600), "10m");
}

#[test]
fn memory_status_thresholds() {
    assert_eq!(memory_status(Some(90), Some(100)), "critical");
    assert_eq!(memory_status(Some(80), Some(100)), "warning");
    assert_eq!(memory_status(Some(79), Some(100)), "healthy");
    assert_eq!(memory_status(Some(79), Some(0)), "healthy");
    assert_eq!(memory_status(Some(79), None), "warning");
    assert_eq!(memory_status(None, Some(100)), "warning");
}

#[test]
fn info_metrics_statuses() {
    let info = parse_info_sections("connected_clients:1000\nblocked_clients:2\nlatest_fork_usec:1000000\nuptime_in_seconds:120\n");
    let figures = info_figures(&info);
    let metrics = build_info_metrics(&figures, "unknown".to_string(), "n/a".to_string(), false);
    let got: Vec<(String, String, String)> =
        metrics.iter().map(|m| (m.label.clone(), m.value.clone(), m.status.clone())).collect();
    assert_eq!(
        got,
        vec![
            ("uptime".to_string(), "2m".to_string(), "healthy".to_string()),
            ("used_memory".to_string(), "unknown".to_string(), "warning".to_string()),
            ("connected_clients".to_string(), "1000".to_string(), "warning".to_string()),
            ("blocked_clients".to_string(), "2".to_string(), "warning".to_string()),
            ("keyspace_hits".to_string(), "n/a".to_string(), "warning".to_string()),
            ("latest_fork_usec".to_string(), "1000000 us".to_string(), "warning".to_string()),
        ]
    );
}

#[test]
fn slowlog_entries_are_read() {
    let entry = RedisValue::Array(vec![
        RedisValue::Integer(7),
        RedisValue::Integer(0),
        RedisValue::Integer(15000),
        RedisValue::Array(vec![bulk("GET"), bulk("user:1"), bulk("x"), bulk("ignored")]),
        bulk("10.0.0.1:5000"),
        bulk("worker"),
    ]);
    let short = RedisValue::Array(vec![RedisValue::Integer(1)]);
    let reply = RedisValue::Array(vec![entry, short, bulk("not an entry")]);
    let queries = slow_queries_from_reply(&reply).unwrap();
    assert_eq!(queries.len(), 1);
    assert_eq!(queries[0].id, "slowlog-7");
    assert_eq!(queries[0].timestamp, "1970-01-01T00:00:00+00:00");
    assert_eq!(queries[0].duration_micros, 15000);
    assert_eq!(queries[0].command, "GET user:1 x");
    assert_eq!(queries[0].key_sample, "user:1");
    assert_eq!(queries[0].client, "worker");
    assert_eq!(slow_queries_from_reply(&RedisValue::Nil).unwrap().len(), 0);
    assert_eq!(
        slow_queries_from_reply(&RedisValue::Integer(3)).err(),
        Some("Unexpected SLOWLOG response: integer".to_string())
    );
}

#[test]
fn latency_events_become_log_lines() {
    let reply = RedisValue::Array(vec![RedisValue::Array(vec![
        bulk("command"),
        RedisValue::Integer(86400),
        RedisValue::Integer(20),
        RedisValue::Integer(150),
    ])]);
    let lines = latency_events_from_reply(&reply);
    assert_eq!(lines.len(), 1);
    assert_eq!(lines[0].timestamp, "1970-01-02T00:00:00+00:00");
    assert_eq!(lines[0].level, "WARNING");
    assert_eq!(lines[0].message, "Latency event command latest=20ms max=150ms");
    assert!(latency_events_from_reply(&RedisValue::Nil).is_empty());
}

#[test]
fn rfc3339_of_unix_time() {
    assert_eq!(unix_to_rfc3339(1_700_000_000), "2023-11-14T22:13:20+00:00");
}

#[test]
fn summary_headline() {
    let info = parse_info_sections("uptime_in_seconds:60\n");
    let metrics = build_info_metrics(&info_figures(&info), "1.0 MiB".to_string(), "99.0%".to_string(), true);
    let summary = build_redis_summary("cache-a", &metrics, &vec![], "0.4", &vec![]);
    assert_eq!(
        summary.headline,
        "cache-a shows 1 warning metric(s), p95 latency peaking at 0.4ms, with top slow command no recent slow queries."
    );
    assert_eq!(
        summary.likely_causes[2],
        "0 latency event(s) were returned by Redis LATENCY LATEST and can be correlated with application timeouts."
    );
}

#[test]
fn profile_settings_and_names() {
    let c = RedisProfileConfig::from_profile(&profile("p", None, "{\"database\":3,\"slowlogLimit\":500,\"tlsEnabled\":true}"));
    assert_eq!((c.database, c.slowlog_limit, c.tls_enabled), (3, 128, true));
    let c = RedisProfileConfig::from_profile(&profile("p", None, "garbage"));
    assert_eq!((c.database, c.slowlog_limit, c.tls_enabled), (0, 5, false));
    assert_eq!(redis_instance_name(&Some(" ".to_string()), &profile("p", Some("scope-a"), "{}")), "scope-a");
    assert_eq!(redis_instance_name(&None, &profile("p", None, "{}")), "p");
    assert_eq!(redis_instance_name(&Some("main".to_string()), &profile("p", Some("s"), "{}")), "main");
}

#[test]
fn auth_and_plan() {
    assert_eq!(auth_args(Some("u"), Some("pw")), Some(vec!["AUTH".to_string(), "u".to_string(), "pw".to_string()]));
    assert_eq!(auth_args(Some(" "), Some("pw")), Some(vec!["AUTH".to_string(), "pw".to_string()]));
    assert_eq!(auth_args(Some("u"), Some("  ")), None);
    assert_eq!(auth_args(None, None), None);
    assert_eq!(
        redis_plan(2, 5, 6),
        "AUTH -> SELECT 2 -> INFO ALL -> SLOWLOG GET 5 -> 6 latency probes -> LATENCY LATEST"
    );
    assert_eq!(latency_samples("15m"), 4);
    assert_eq!(latency_samples("24h"), 10);
    assert_eq!(latency_samples("7d"), 6);
}

#[test]
fn commands_are_encoded_as_resp_arrays() {
    assert_eq!(encode_command(&["PING"]), "*1\r\n$4\r\nPING\r\n");
    assert_eq!(encode_command(&["GET", "ключ"]), "*2\r\n$3\r\nGET\r\n$8\r\nключ\r\n");
}

#[test]
fn an_encoded_command_reads_back_as_its_arguments() {
    let args = ["SET", "ключ", "", "v a l"];
    let wire = encode_command(&args);
    let (v, next) = parse_redis_value(wire.as_bytes(), 0).unwrap().unwrap();
    assert_eq!(next, wire.len());
    let items = v.as_array().unwrap();
    assert_eq!(items.len(), args.len());
    for (item, arg) in items.iter().zip(args.iter()) {
        assert_eq!(item.kind(), "bulk string");
        assert_eq!(item.as_string(), Some(arg.to_string()));
    }
}

#[test]
fn replies_are_parsed() {
    let (v, next) = parse_redis_value(b"+PONG\r\n", 0).unwrap().unwrap();
    assert_eq!(v.as_string(), Some("PONG".to_string()));
    assert_eq!(next, 7);
    let (v, _) = parse_redis_value(b":-42\r\n", 0).unwrap().unwrap();
    assert_eq!(v.as_i64(), Some(-42));
    assert_eq!(v.kind(), "integer");
    let (v, next) = parse_redis_value(b"*2\r\n$3\r\nfoo\r\n$-1\r\n", 0).unwrap().unwrap();
    assert_eq!(next, 18);
    let items = v.as_array().unwrap();
    assert_eq!(items[0].as_string(), Some("foo".to_string()));
    assert_eq!(items[1].kind(), "nil");
    assert!(parse_redis_value(b"$5\r\nab", 0).unwrap().is_none());
    assert!(parse_redis_value(b"*2\r\n+a\r\n", 0).unwrap().is_none());
    assert_eq!(parse_redis_value(b"?x\r\n", 0).err(), Some(RespError::UnsupportedPrefix(b'?')));
    assert_eq!(parse_redis_value(b":abc\r\n", 0).err(), Some(RespError::InvalidInteger));
    assert_eq!(parse_redis_value(b"$3\r\nabcXY", 0).err(), Some(RespError::MissingCrlf));
}

#[test]
fn a_decided_reply_stays_decided_when_more_bytes_arrive() {
    let first = parse_redis_value(b"+OK\r\n", 0).unwrap().unwrap();
    let more = parse_redis_value(b"+OK\r\n:1\r\n", 0).unwrap().unwrap();
    assert_eq!(first.1, more.1);
    assert_eq!(first.0.as_string(), more.0.as_string());
}

#[test]
fn expect_ok_checks_reply() {
    assert_eq!(RedisValue::SimpleString("ok".to_string()).expect_ok("AUTH"), Ok(()));
    assert_eq!(
        RedisValue::Error("WRONGPASS invalid".to_string()).expect_ok("AUTH"),
        Err("Redis AUTH failed: WRONGPASS invalid".to_string())
    );
    assert_eq!(
        RedisValue::Integer(1).expect_ok("SELECT"),
        Err("Unexpected Redis SELECT response: integer".to_string())
    );
}

#[test]
fn plain_tcp_and_pings() {
    assert_eq!(plain_tcp_only("cache", false), Ok(()));
    assert_eq!(
        plain_tcp_only("cache", true),
        Err("Redis profile 'cache' has TLS enabled, but the current desktop adapter only supports plain TCP right now.".to_string())
    );
    assert_eq!(redis_adapter_mode(" cache:6379 "), "redis-resp-direct (cache:6379)");
    assert!(is_pong(&RedisValue::SimpleString("PONG".to_string())));
    assert!(is_pong(&bulk("PONG")));
    assert!(!is_pong(&RedisValue::SimpleString("pong".to_string())));
    assert_eq!(RespError::UnsupportedPrefix(b'?').message(), "Unsupported Redis response prefix: ?");
    assert_eq!(RespError::MissingCrlf.message(), "Redis response missing CRLF terminator.");
}
