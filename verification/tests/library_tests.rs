use adbchelper::hardening::{mask_sensitive_text, sanitize_and_mask_json, sanitize_untrusted_text};
use adbchelper::json::{json_get_str, json_path_str, parse_json_or_empty, parse_json_or_null, JsonValue};
use adbchelper::models::ConnectionProfile;
use adbchelper::profiles::{
    find_profile, profile_settings, resolve_action_profile, resolve_kubernetes_profile, resolve_nacos_profile,
    resolve_redis_profile, resolve_ssh_profile, resolve_tidb_profile, select_elk_profile, select_qwen_profile,
};
use adbchelper::text::{
    decimal_string, insert_sorted_unique, lines_str, parse_i64, parse_u16, parse_u64, split_once_exec,
    split_whitespace_exec, text_less_exec, trim_end_char_exec, trim_str,
};

fn chars(s: &str) -> Vec<char> {
    s.chars().collect()
}

fn text(v: &[char]) -> String {
    v.iter().collect()
}

fn profile(id: &str, env: &str, kind: &str) -> ConnectionProfile {
    ConnectionProfile {
        id: id.to_string(),
        environment_id: env.to_string(),
        profile_type: kind.to_string(),
        name: format!("{kind}-{id}"),
        endpoint: String::new(),
        username: None,
        default_scope: None,
        notes: None,
        config_json: "{\"k\":\"v\"}".to_string(),
        has_secret: false,
        created_at: String::new(),
        updated_at: String::new(),
    }
}

#[test]
fn masking_exact_outputs() {
    assert_eq!(mask_sensitive_text("Authorization: Bearer abc.def next"), "Authorization: Bearer [masked] next");
    assert_eq!(mask_sensitive_text("password=\"x\" token=; apiKey=k1,api_key=k2"), "password=\"x\" token=; apiKey=[masked],api_key=[masked]");
    assert_eq!(mask_sensitive_text("secret=a secret=b"), "secret=[masked] secret=[masked]");
    assert_eq!(mask_sensitive_text("nothing here"), "nothing here");
}

#[test]
fn sanitize_lines() {
    assert_eq!(sanitize_untrusted_text("a\r\nb\n"), "a\nb");
    assert_eq!(sanitize_untrusted_text("<TOOL_CALL x>"), "[filtered potentially unsafe content]");
    assert_eq!(sanitize_untrusted_text(""), "");
}

#[test]
fn json_documents_are_masked_by_key_and_value() {
    let out = sanitize_and_mask_json("{\"AccessToken\":\"t\",\"nested\":{\"api_key\":1,\"note\":\"password=p\"},\"list\":[\"secret=s\",3]}");
    let doc: serde_json::Value = serde_json::from_str(&out).unwrap();
    assert_eq!(doc["AccessToken"], "[masked]");
    assert_eq!(doc["nested"]["api_key"], "[masked]");
    assert_eq!(doc["nested"]["note"], "password=[masked]");
    assert_eq!(doc["list"][0], "secret=[masked]");
    assert_eq!(doc["list"][1], 3);
    assert_eq!(sanitize_and_mask_json("not json token=abc"), "not json token=[masked]");
}

#[test]
fn json_reading() {
    let doc = parse_json_or_null("{\"a\":{\"b\":\"c\"},\"n\":5}");
    assert_eq!(json_path_str(&doc, &["a", "b"]), Some("c".to_string()));
    assert_eq!(json_path_str(&doc, &["a", "x"]), None);
    assert_eq!(json_get_str(&doc, "n"), None);
    assert!(matches!(parse_json_or_null("{"), JsonValue::Null));
    assert!(matches!(parse_json_or_empty("{"), JsonValue::Object(ref m) if m.is_empty()));
    match parse_json_or_empty("{\"z\":1,\"a\":2}") {
        JsonValue::Object(members) => {
            assert_eq!(members.iter().map(|(k, _)| k.clone()).collect::<Vec<_>>(), vec!["a", "z"]);
        }
        _ => panic!("expected an object"),
    }
}

#[test]
fn decimals_read_back() {
    for n in [0u64, 7, 10, 65535, 65536, u64::MAX] {
        let s = decimal_string(n);
        assert_eq!(s, n.to_string());
        assert_eq!(parse_u64(&chars(&s)), Some(n));
    }
    assert_eq!(parse_u64(&chars("18446744073709551616")), None);
    assert_eq!(parse_u64(&chars("")), None);
    assert_eq!(parse_u64(&chars("+5")), Some(5));
    assert_eq!(parse_u16(&chars("65536")), None);
    assert_eq!(parse_i64(&chars("-9223372036854775808")), Some(i64::MIN));
    assert_eq!(parse_i64(&chars("12a")), None);
}

#[test]
fn text_helpers() {
    assert_eq!(text(&trim_str("\t a b \n")), "a b");
    assert_eq!(
        split_whitespace_exec(&chars("  a  bb\tc ")).iter().map(|p| text(p)).collect::<Vec<_>>(),
        vec!["a", "bb", "c"]
    );
    assert_eq!(lines_str("a\r\nb\n\nc").iter().map(|p| text(p)).collect::<Vec<_>>(), vec!["a", "b", "", "c"]);
    let (k, v) = split_once_exec(&chars("k=v=w"), '=').unwrap();
    assert_eq!((text(&k), text(&v)), ("k".to_string(), "v=w".to_string()));
    assert_eq!(text(&trim_end_char_exec(&chars("http://x///"), '/')), "http://x");
    assert!(text_less_exec(&chars("ab"), &chars("b")));
    assert!(text_less_exec(&chars("a"), &chars("ab")));
    assert!(!text_less_exec(&chars("b"), &chars("b")));
    let mut keys: Vec<Vec<char>> = Vec::new();
    for k in ["m", "a", "z", "a", "m"] {
        insert_sorted_unique(&mut keys, &chars(k));
    }
    assert_eq!(keys.iter().map(|k| text(k)).collect::<Vec<_>>(), vec!["a", "m", "z"]);
}

#[test]
fn profiles_are_chosen_per_environment_and_type() {
    let profiles = vec![
        profile("1", "dev", "ssh"),
        profile("2", "prod", "ssh"),
        profile("3", "prod", "ssh"),
        profile("4", "prod", "redis"),
        ConnectionProfile { endpoint: "https://elk:9200".to_string(), ..profile("5", "prod", "elk") },
        profile("6", "dev", "elk"),
    ];
    assert_eq!(find_profile(&profiles, "prod", "ssh"), Some(1));
    assert_eq!(find_profile(&profiles, "prod", "qwen"), None);
    assert_eq!(resolve_ssh_profile(&profiles, "prod").ok().unwrap().id, "2");
    assert_eq!(
        resolve_ssh_profile(&profiles, "test").err(),
        Some("No SSH profile found for this environment. Add one in Settings first.".to_string())
    );
    assert_eq!(
        resolve_kubernetes_profile(&profiles, "prod").err(),
        Some("No Kubernetes profile found for environment prod. Add one in Settings first.".to_string())
    );
    assert!(resolve_nacos_profile(&profiles, "prod").is_err());
    assert_eq!(
        select_qwen_profile(&profiles, "prod").err(),
        Some("No Qwen profile found for this environment. Add one in Settings first.".to_string())
    );
    assert_eq!(resolve_redis_profile(&profiles, "prod").ok().unwrap().id, "4");
    assert!(resolve_tidb_profile(&profiles, "prod").is_err());
    assert_eq!(resolve_action_profile(&profiles, "prod", "redis").ok().unwrap().id, "4");
    assert_eq!(select_elk_profile(&profiles, "prod").map(|p| p.id), Some("5".to_string()));
    assert!(select_elk_profile(&profiles, "dev").is_none());
    assert!(select_elk_profile(&profiles, "test").is_none());
    assert_eq!(json_get_str(&profile_settings(&profiles[0]), "k").map(|v| text(&v)), Some("v".to_string()));
}

#[test]
fn no_credential_survives_a_marker() {
    assert_eq!(mask_sensitive_text("password=token=abc secret"), "password=[masked] secret");
    assert_eq!(mask_sensitive_text("token=token=abc"), "token=[masked]");
    assert_eq!(mask_sensitive_text("Bearer Bearer x"), "Bearer [masked] x");
    let masked = mask_sensitive_text("api_key=1;apiKey=2 passwd=3\nsecret=4,accessToken=5");
    assert_eq!(masked, "api_key=[masked];apiKey=[masked] passwd=[masked]\nsecret=[masked],accessToken=[masked]");
    assert_eq!(mask_sensitive_text(&masked), masked);
}
