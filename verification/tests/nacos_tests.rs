use adbchelper::models::{CompareNacosConfigInput, ConnectionProfile, NacosDiffEntry};
use adbchelper::nacos::{
    build_summary, compare_loaded_configs, compare_namespace, config_from_body, diff_config_values, flatten_value,
    is_high_risk_key, nacos_auth, parse_config_value, parse_profile_config, request_failure_message, status_rank,
    NacosAuth, NacosProfileConfig,
};

fn profile(name: &str, username: Option<&str>, has_secret: bool, scope: Option<&str>, config: &str) -> ConnectionProfile {
    ConnectionProfile {
        id: format!("{name}-id"),
        environment_id: format!("{name}-env"),
        profile_type: "nacos".to_string(),
        name: name.to_string(),
        endpoint: "http://nacos:8848/".to_string(),
        username: username.map(|u| u.to_string()),
        default_scope: scope.map(|s| s.to_string()),
        notes: None,
        config_json: config.to_string(),
        has_secret,
        created_at: String::new(),
        updated_at: String::new(),
    }
}

fn entry(e: &NacosDiffEntry) -> (String, String, Option<String>, Option<String>) {
    (e.key.clone(), e.status.clone(), e.source_value.clone(), e.target_value.clone())
}

fn input() -> CompareNacosConfigInput {
    CompareNacosConfigInput {
        source_environment_id: "test".to_string(),
        target_environment_id: "prod".to_string(),
        data_id: "app.yaml".to_string(),
        group: "DEFAULT_GROUP".to_string(),
        namespace_id: None,
    }
}

fn s(x: &str) -> Option<String> {
    Some(x.to_string())
}

#[test]
fn properties_text_is_read_as_flat_object() {
    let value = parse_config_value("# comment\n a = 1 \nb: two\n\njunk\n");
    let flat = flatten_value(&value);
    let pairs: Vec<(String, String)> =
        flat.iter().map(|(k, v)| (k.iter().collect::<String>(), v.iter().collect::<String>())).collect();
    assert_eq!(pairs, vec![("a".to_string(), "1".to_string()), ("b".to_string(), "two".to_string())]);
}

#[test]
fn json_is_flattened_with_dotted_and_indexed_keys() {
    let value = parse_config_value("{\"db\":{\"url\":\"jdbc:x\",\"pool\":[5,true,null]}}");
    let flat = flatten_value(&value);
    let pairs: Vec<(String, String)> =
        flat.iter().map(|(k, v)| (k.iter().collect::<String>(), v.iter().collect::<String>())).collect();
    assert_eq!(
        pairs,
        vec![
            ("db.pool[0]".to_string(), "5".to_string()),
            ("db.pool[1]".to_string(), "true".to_string()),
            ("db.pool[2]".to_string(), "null".to_string()),
            ("db.url".to_string(), "jdbc:x".to_string()),
        ]
    );
}

#[test]
fn diff_orders_by_status_then_key() {
    let entries = diff_config_values("a=1\nb=2\nc=3\n", "a=1\nb=9\nd=4\n");
    let got: Vec<_> = entries.iter().map(entry).collect();
    assert_eq!(
        got,
        vec![
            ("b".to_string(), "changed".to_string(), s("2"), s("9")),
            ("c".to_string(), "removed".to_string(), s("3"), None),
            ("d".to_string(), "added".to_string(), None, s("4")),
            ("a".to_string(), "unchanged".to_string(), s("1"), s("1")),
        ]
    );
}

#[test]
fn identical_configs_are_all_unchanged() {
    let entries = diff_config_values("{\"x\":1,\"y\":{\"z\":\"q\"}}", "{\"x\":1,\"y\":{\"z\":\"q\"}}");
    assert_eq!(entries.len(), 2);
    assert!(entries.iter().all(|e| e.status == "unchanged"));
}

#[test]
fn status_ranks() {
    assert_eq!(status_rank("changed"), 0);
    assert_eq!(status_rank("removed"), 1);
    assert_eq!(status_rank("added"), 2);
    assert_eq!(status_rank("unchanged"), 3);
}

#[test]
fn high_risk_keys_are_case_insensitive() {
    assert!(is_high_risk_key("spring.DataSource.url"));
    assert!(is_high_risk_key("REDIS_HOST"));
    assert!(!is_high_risk_key("app.name"));
}

#[test]
fn summary_counts_and_impact() {
    let entries = diff_config_values("redis.host=a\nname=x\n", "redis.host=b\nextra=1\n");
    let summary = build_summary(&input(), &entries);
    assert_eq!(summary.headline, "1 changed, 1 added, 1 removed when comparing test to prod.");
    assert_eq!(
        summary.likely_impact,
        vec![
            "High-risk drift detected in 1 key(s): redis.host (changed).".to_string(),
            "Changed values can alter runtime behavior without changing deployment artifacts.".to_string(),
            "Added or removed keys can change fallback behavior and feature gates.".to_string(),
        ]
    );
    assert_eq!(summary.explanation[0], "test vs prod for DEFAULT_GROUP/app.yaml produced 3 diff entries.");
    let quiet = build_summary(&input(), &diff_config_values("a=1", "a=1"));
    assert_eq!(quiet.likely_impact, vec!["No obviously high-risk config keys were detected in the diff.".to_string()]);
}

#[test]
fn profile_config_defaults() {
    let c = parse_profile_config(&profile("n", Some("nacos"), true, Some(" "), "not json")).unwrap();
    assert_eq!(c.api_version, "v1");
    assert_eq!(c.auth_mode, "basic");
    assert_eq!(c.namespace_id, None);
    let c = parse_profile_config(&profile("n", None, true, Some("dev-ns"), "{\"apiVersion\":\"v2\"}")).unwrap();
    assert_eq!(c.api_version, "v2");
    assert_eq!(c.auth_mode, "none");
    assert_eq!(c.namespace_id, s("dev-ns"));
}

#[test]
fn urls_and_queries_follow_api_version() {
    let v1 = NacosProfileConfig { api_version: "v1".to_string(), auth_mode: "none".to_string(), namespace_id: None };
    assert_eq!(v1.resolve_url("http://nacos:8848//"), "http://nacos:8848/nacos/v1/cs/configs");
    assert_eq!(v1.namespace_query_name(), "tenant");
    assert_eq!(v1.default_namespace(), "public");
    let v2 = NacosProfileConfig { api_version: "v2".to_string(), auth_mode: "none".to_string(), namespace_id: s("ns1") };
    assert_eq!(v2.resolve_url("http://nacos:8848"), "http://nacos:8848/nacos/v2/cs/config");
    assert_eq!(v2.namespace_query_name(), "namespaceId");
    assert_eq!(v2.default_namespace(), "ns1");
    assert_eq!(
        v2.config_query(&None, "G", "D"),
        vec![
            ("namespaceId".to_string(), "ns1".to_string()),
            ("group".to_string(), "G".to_string()),
            ("dataId".to_string(), "D".to_string()),
        ]
    );
}

#[test]
fn auth_modes() {
    let p = profile("main", Some("admin"), true, None, "{}");
    let cfg = |mode: &str| NacosProfileConfig { api_version: "v1".to_string(), auth_mode: mode.to_string(), namespace_id: None };
    match nacos_auth(&p, &cfg("basic"), s("pw")).ok().unwrap() {
        NacosAuth::Basic { username, password } => {
            assert_eq!(username, "admin");
            assert_eq!(password, "pw");
        }
        _ => panic!("expected basic auth"),
    }
    match nacos_auth(&p, &cfg("bearer"), s("tok")).ok().unwrap() {
        NacosAuth::Bearer(h) => assert_eq!(h, "Bearer tok"),
        _ => panic!("expected bearer auth"),
    }
    assert_eq!(
        nacos_auth(&p, &cfg("accessToken"), None).err(),
        s("Nacos profile main requires an access token secret.")
    );
    assert!(matches!(nacos_auth(&p, &cfg("none"), None).ok(), Some(NacosAuth::Anonymous)));
    assert_eq!(nacos_auth(&p, &cfg("oauth"), None).err(), s("Unsupported Nacos authMode: oauth"));
    let anonymous = profile("other", None, false, None, "{}");
    assert_eq!(
        nacos_auth(&anonymous, &cfg("basic"), None).err(),
        s("Nacos profile other requires a username for basic auth.")
    );
}

#[test]
fn response_bodies() {
    let v1 = NacosProfileConfig { api_version: "v1".to_string(), auth_mode: "none".to_string(), namespace_id: None };
    assert_eq!(config_from_body(&v1, "p", "a=1"), Ok("a=1".to_string()));
    let v2 = NacosProfileConfig { api_version: "v2".to_string(), auth_mode: "none".to_string(), namespace_id: None };
    assert_eq!(config_from_body(&v2, "p", "{\"code\":0,\"data\":\"k=v\"}"), Ok("k=v".to_string()));
    assert_eq!(config_from_body(&v2, "p", "{\"code\":0}"), Err("Nacos v2 response missing data field for p".to_string()));
    assert_eq!(
        config_from_body(&v2, "p", "<html>"),
        Err("Invalid Nacos v2 response for p: error decoding response body".to_string())
    );
    assert_eq!(request_failure_message("p", "403", " denied \n"), "Nacos request failed for p with status 403: denied");
}

#[test]
fn compare_uses_requested_then_source_then_target_namespace() {
    let src = profile("src", None, false, Some("s-ns"), "{}");
    let dst = profile("dst", None, false, Some("t-ns"), "{}");
    let mut i = input();
    assert_eq!(compare_namespace(&i, &src, &dst), s("s-ns"));
    i.namespace_id = s("req");
    assert_eq!(compare_namespace(&i, &src, &dst), s("req"));
    let bare = profile("bare", None, false, None, "{}");
    i.namespace_id = None;
    assert_eq!(compare_namespace(&i, &bare, &dst), s("t-ns"));

    let response = compare_loaded_configs(&src, &dst, &input(), "a=1".to_string(), "a=2".to_string());
    assert_eq!(response.adapter_mode, "nacos-http-compare");
    assert_eq!(response.namespace_id, s("s-ns"));
    assert_eq!(response.source.value, "a=1");
    assert_eq!(response.target.value, "a=2");
    assert_eq!(response.diff_entries.len(), 1);
    assert_eq!(response.diff_entries[0].status, "changed");
    assert_eq!(response.summary.headline, "1 changed, 0 added, 0 removed when comparing test to prod.");
}
