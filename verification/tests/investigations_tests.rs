use adbchelper::chat::{
    build_investigation_correlations, chat_request, build_system_prompt, compact_json_for_model, context_investigation_id,
    derive_title, investigation_context, missing_secret_message, profile_failure_message, qwen_config,
    recent_messages_to_qwen_messages, render_evidence_block, title_at, tool_catalog,
};
use adbchelper::investigations::{
    build_correlations, build_html_report, build_markdown_report, build_timeline, escape_html, new_investigation_title,
    pretty_json, shared_keyword, stored_evidence_texts,
};
use adbchelper::models::{
    ChatMessage, ConnectionProfile, InvestigationEvidence, InvestigationSummary, SaveInvestigationInput,
};

fn text(v: &[char]) -> String {
    v.iter().collect()
}

fn evidence(id: &str, kind: &str, title: &str, summary: &str, content: &str, created: &str) -> InvestigationEvidence {
    InvestigationEvidence {
        id: id.to_string(),
        investigation_id: "inv-1".to_string(),
        evidence_type: kind.to_string(),
        title: title.to_string(),
        summary: summary.to_string(),
        content_json: content.to_string(),
        created_at: created.to_string(),
    }
}

fn summary(env: &str) -> InvestigationSummary {
    InvestigationSummary {
        id: "inv-1".to_string(),
        title: "Checkout <errors>".to_string(),
        environment_id: env.to_string(),
        status: "open".to_string(),
        created_at: "2024-01-01T00:00:00Z".to_string(),
        updated_at: "2024-01-01T01:00:00Z".to_string(),
    }
}

fn message(role: &str, content: &str) -> ChatMessage {
    ChatMessage {
        id: content.to_string(),
        session_id: "s".to_string(),
        role: role.to_string(),
        content: content.to_string(),
        tool_name: None,
        tool_call_id: None,
        created_at: String::new(),
    }
}

fn qwen_profile(config: &str, scope: Option<&str>) -> ConnectionProfile {
    ConnectionProfile {
        id: "q1".to_string(),
        environment_id: "prod".to_string(),
        profile_type: "qwen".to_string(),
        name: "qwen-main".to_string(),
        endpoint: "https://llm".to_string(),
        username: None,
        default_scope: scope.map(|s| s.to_string()),
        notes: None,
        config_json: config.to_string(),
        has_secret: true,
        created_at: String::new(),
        updated_at: String::new(),
    }
}

fn sample_evidence() -> Vec<InvestigationEvidence> {
    vec![
        evidence(
            "k8s",
            "kubernetes_events",
            "Events",
            "BackOff",
            "{\"namespace\":\"payments\",\"events\":[{\"name\":\"payment-api-0\"}]}",
            "2024-01-01T00:03:00Z",
        ),
        evidence("nacos", "nacos_diff", "Drift", "no namespace", "{\"dataId\":\"payment.yaml\"}", "2024-01-01T00:01:00Z"),
        evidence(
            "logs",
            "log_search",
            "Logs",
            "redis timeout",
            "{\"entries\":[{\"service\":\"payment-api\",\"message\":\"Redis timeout\"}]}",
            "2024-01-01T00:02:00Z",
        ),
        evidence(
            "ssh",
            "ssh_diagnostics",
            "Host",
            "cpu",
            "{\"summaryHeadline\":\"payment-api host shows redis timeout\"}",
            "2024-01-01T00:02:00Z",
        ),
    ]
}

#[test]
fn html_is_escaped() {
    assert_eq!(text(&escape_html("<a href=\"x\">Tom & Jerry's</a>")), "&lt;a href=&quot;x&quot;&gt;Tom &amp; Jerry&#39;s&lt;/a&gt;");
    let escaped = text(&escape_html("<<>>\"'&"));
    assert!(!escaped.contains('<') && !escaped.contains('>') && !escaped.contains('"') && !escaped.contains('\''));
}

#[test]
fn timeline_is_sorted_by_time_and_stable() {
    let timeline = build_timeline(&sample_evidence());
    let ids: Vec<String> = timeline.iter().map(|t| t.id.clone()).collect();
    assert_eq!(ids, vec!["nacos", "logs", "ssh", "k8s"]);
    assert_eq!(timeline[0].detail, "no namespace");
    assert_eq!(timeline[0].source_type, "nacos_diff");
    assert!(timeline.windows(2).all(|w| w[0].timestamp <= w[1].timestamp));
}

#[test]
fn correlations_across_sources() {
    let correlations = build_correlations(&sample_evidence());
    let got: Vec<(String, String, Vec<String>)> =
        correlations.iter().map(|c| (c.title.clone(), c.confidence.clone(), c.linked_evidence_ids.clone())).collect();
    assert_eq!(
        got,
        vec![
            (
                "Application logs align with host diagnostics".to_string(),
                "medium".to_string(),
                vec!["logs".to_string(), "ssh".to_string()]
            ),
            (
                "Kubernetes events align with config drift".to_string(),
                "medium".to_string(),
                vec!["k8s".to_string(), "nacos".to_string()]
            ),
            (
                "Kubernetes warnings overlap with log services".to_string(),
                "high".to_string(),
                vec!["k8s".to_string(), "logs".to_string()]
            ),
        ]
    );
    assert_eq!(correlations[1].id, "k8s-nacos");
    assert_eq!(
        correlations[1].detail,
        "Events in namespace payments mention workloads related to payment.yaml, which also appears in the saved Nacos drift evidence."
    );
    assert!(build_correlations(&[]).is_empty());
}

#[test]
fn chat_correlations_use_keywords() {
    assert!(shared_keyword(&"redis timeout".chars().collect::<Vec<_>>(), &"a redis node".chars().collect::<Vec<_>>()));
    assert!(!shared_keyword(&"disk".chars().collect::<Vec<_>>(), &"memory".chars().collect::<Vec<_>>()));
    let correlations = build_investigation_correlations(&sample_evidence());
    let titles: Vec<String> = correlations.iter().map(|c| c.title.clone()).collect();
    assert_eq!(
        titles,
        vec!["Kubernetes events align with payment.yaml drift".to_string(), "Logs aligns with host diagnostics".to_string()]
    );
}

#[test]
fn markdown_and_html_reports() {
    let ev = sample_evidence();
    let timeline = build_timeline(&ev);
    let correlations = build_correlations(&ev);
    let md = build_markdown_report(&summary("prod"), &ev, &timeline, &correlations);
    assert!(md.starts_with("# Checkout <errors>\n\n## Summary\n- Environment: prod\n- Status: open\n"));
    assert!(md.contains("- Evidence count: 4\n\n## Timeline\n- 2024-01-01T00:01:00Z · nacos_diff · Drift\n"));
    assert!(md.contains("### Events\n- Type: kubernetes_events\n- Created: 2024-01-01T00:03:00Z\n- Summary: BackOff\n\n```json\n{\n  \"events\""));
    assert!(md.ends_with("```\n"));
    let empty_md = build_markdown_report(&summary("prod"), &[], &[], &[]);
    assert!(empty_md.contains("## Timeline\n- No timeline events yet.\n\n## Cross-Source Correlation\n- No cross-source correlations detected yet.\n\n## Evidence\n- No evidence saved yet.\n"));
    let html = build_html_report(&summary("prod"), &ev, &timeline, &correlations);
    assert!(html.starts_with("<!doctype html><html><head><meta charset=\"utf-8\" /><title>Checkout &lt;errors&gt;</title>"));
    assert!(html.contains("<li><strong>2024-01-01T00:01:00Z</strong> <span>Drift</span><div>no namespace</div></li>"));
    assert!(html.ends_with("</body></html>"));
    let empty_html = build_html_report(&summary("prod"), &[], &[], &[]);
    assert!(empty_html.contains("<ul><li>No timeline events yet.</li></ul>"));
    assert!(empty_html.contains("<p>No evidence saved yet.</p></body></html>"));
}

#[test]
fn saved_evidence_texts() {
    assert_eq!(pretty_json("not json"), "not json");
    assert_eq!(pretty_json("{\"a\":1}"), "{\n  \"a\": 1\n}");
    assert_eq!(new_investigation_title(&Some("  ".to_string())), "Investigation");
    assert_eq!(new_investigation_title(&Some("Outage".to_string())), "Outage");
    let input = SaveInvestigationInput {
        investigation_id: None,
        title: None,
        environment_id: "prod".to_string(),
        evidence_type: "log_search".to_string(),
        evidence_title: "Logs".to_string(),
        summary: "token=abc".to_string(),
        content_json: "{\"password\":\"x\",\"msg\":\"Bearer abc\"}".to_string(),
    };
    let (s, c) = stored_evidence_texts(&input);
    assert_eq!(s, "token=[masked]");
    let doc: serde_json::Value = serde_json::from_str(&c).unwrap();
    assert_eq!(doc["password"], "[masked]");
    assert_eq!(doc["msg"], "Bearer [masked]");
}

#[test]
fn tool_catalog_and_prompt() {
    let tools = tool_catalog();
    assert_eq!(tools.len(), 8);
    assert_eq!(tools[0].name, "list_k8s_pods");
    assert_eq!(tools[7].name, "analyze_tidb_slow_queries");
    let prompt = build_system_prompt("prod", Some("ctx"));
    assert!(prompt.starts_with("You are ADBCHelper, a desktop operations copilot.\nCurrent environment: prod.\n"));
    assert!(prompt.contains("Tool catalog:\n- list_k8s_pods: Inspect workload status and restart counts for a namespace. { environment, namespace, selector? }\n"));
    assert!(prompt.ends_with("\nActive investigation context:\nctx"));
    assert!(build_system_prompt("prod", Some("  ")).ends_with("{ environment, instanceName?, timeRange, slowQueryLimit? }"));
}

#[test]
fn recent_messages_keep_the_last_eight() {
    let messages: Vec<ChatMessage> = (0..10).map(|i| message("user", &format!("m{i}"))).collect();
    let converted = recent_messages_to_qwen_messages("sys", &messages);
    assert_eq!(converted.len(), 9);
    assert_eq!((converted[0].role.as_str(), converted[0].content.as_str()), ("system", "sys"));
    assert_eq!(converted[1].content, "m2");
    assert_eq!(converted[8].content, "m9");
    assert_eq!(recent_messages_to_qwen_messages("sys", &messages[..3]).len(), 4);
}

#[test]
fn session_titles() {
    assert_eq!(title_at("  fix checkout  ", "2024-01-01 10:00"), "fix checkout");
    assert_eq!(title_at("   ", "2024-01-01 10:00"), "Investigation 2024-01-01 10:00");
    let long = "y".repeat(60);
    assert_eq!(title_at(&long, "t"), format!("{}...", "y".repeat(48)));
    assert_eq!(derive_title(" hello "), "hello");
    assert!(derive_title("").starts_with("Investigation "));
}

#[test]
fn qwen_profile_settings() {
    let c = qwen_config(&qwen_profile("{\"appKey\":\"k\"}", None), "s".to_string()).ok().unwrap();
    assert_eq!(
        (c.base_url.as_str(), c.base_path.as_str(), c.app_key.as_str(), c.app_secret.as_str(), c.model.as_str(), c.content_type.as_str()),
        ("https://llm", "/chat/completions", "k", "s", "qwen-plus", "application/json")
    );
    let c = qwen_config(&qwen_profile("{\"appKey\":\"k\",\"basePath\":\"/v1\"}", Some("qwen-max")), "s".to_string()).ok().unwrap();
    assert_eq!((c.base_path.as_str(), c.model.as_str()), ("/v1", "qwen-max"));
    assert_eq!(
        qwen_config(&qwen_profile("{}", None), "s".to_string()).err(),
        Some("Qwen app_key missing for profile 'qwen-main'. Fill in App key in Settings.".to_string())
    );
    assert!(missing_secret_message(&qwen_profile("{}", None)).starts_with("Qwen secret missing for profile 'qwen-main' (q1)."));
    assert_eq!(
        profile_failure_message("Qwen request failed", &qwen_profile("{}", None), "boom"),
        "Qwen request failed for profile 'qwen-main': boom"
    );
}

#[test]
fn investigation_context_for_chat() {
    assert_eq!(context_investigation_id(&Some(" inv-1 ".to_string())), Some("inv-1".to_string()));
    assert_eq!(context_investigation_id(&Some("  ".to_string())), None);
    let ev = sample_evidence();
    let err = investigation_context(&summary("test"), "prod", &ev, &None).err();
    assert_eq!(err, Some("Investigation Checkout <errors> belongs to environment test, not prod.".to_string()));
    let err = investigation_context(&summary("prod"), "prod", &ev, &Some(vec!["nope".to_string()])).err();
    assert_eq!(err, Some("None of the selected evidence items were found in this investigation.".to_string()));
    let ctx = investigation_context(&summary("prod"), "prod", &ev, &Some(vec![" logs ".to_string(), "".to_string()]))
        .ok()
        .unwrap();
    assert!(ctx.starts_with("Investigation: Checkout <errors>\nStatus: open\nEvidence count: 1\nRecent timeline:\n- 2024-01-01T00:02:00Z | log_search | Logs\n"));
    assert!(ctx.contains("\n\nCross-source correlation:\n- none\n\nEvidence excerpts:\nEvidence: Logs\nType: log_search\nSummary: redis timeout\nContent:\n"));
    let block = text(&render_evidence_block(&ev[1]));
    assert_eq!(block, "Evidence: Drift\nType: nacos_diff\nSummary: no namespace\nContent:\n{\n  \"dataId\": \"payment.yaml\"\n}");
    assert_eq!(compact_json_for_model("plain text", 5), "plain\n...[truncated]");
    assert_eq!(compact_json_for_model("{\"a\":1}", 100), "{\n  \"a\": 1\n}");
}

#[test]
fn chat_requests_carry_prompt_and_recent_messages() {
    let messages: Vec<ChatMessage> = (0..3).map(|i| message("user", &format!("q{i}"))).collect();
    let (config, request) =
        chat_request(&qwen_profile("{\"appKey\":\"k\"}", None), "s".to_string(), "prod", None, &messages).ok().unwrap();
    assert_eq!(config.model, "qwen-plus");
    assert_eq!(request.len(), 4);
    assert_eq!(request[0].content, build_system_prompt("prod", None));
    assert_eq!(request[3].content, "q2");
    assert_eq!(
        chat_request(&qwen_profile("{}", None), "s".to_string(), "prod", None, &messages).err(),
        Some("Qwen app_key missing for profile 'qwen-main'. Fill in App key in Settings.".to_string())
    );
}

#[test]
fn escaped_html_reads_back() {
    let input = "<b class=\"x\">R&D's &amp; more</b>";
    let escaped = text(&escape_html(input));
    let read = escaped
        .replace("&lt;", "<")
        .replace("&gt;", ">")
        .replace("&quot;", "\"")
        .replace("&#39;", "'")
        .replace("&amp;", "&");
    assert_eq!(read, input);
}
