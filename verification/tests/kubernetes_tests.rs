use adbchelper::kubernetes::{
    event_level, events_command, events_failure_message, events_from_records, events_response, summarize_events,
    KubectlEventRecord, KubernetesProfileConfig,
};
use adbchelper::models::{ConnectionProfile, KubernetesEvent, ListKubernetesEventsInput};

fn profile(endpoint: &str, config: &str) -> ConnectionProfile {
    ConnectionProfile {
        id: "k1".to_string(),
        environment_id: "prod".to_string(),
        profile_type: "kubernetes".to_string(),
        name: "prod-cluster".to_string(),
        endpoint: endpoint.to_string(),
        username: None,
        default_scope: None,
        notes: None,
        config_json: config.to_string(),
        has_secret: false,
        created_at: String::new(),
        updated_at: String::new(),
    }
}

fn input(involved: Option<&str>, reason: Option<&str>) -> ListKubernetesEventsInput {
    ListKubernetesEventsInput {
        environment_id: "prod".to_string(),
        namespace: "payments".to_string(),
        involved_object: involved.map(|s| s.to_string()),
        reason: reason.map(|s| s.to_string()),
    }
}

fn record(uid: Option<&str>, kind: &str, name: &str, reason: &str, message: &str, ty: Option<&str>) -> KubectlEventRecord {
    KubectlEventRecord {
        uid: uid.map(|s| s.to_string()),
        namespace: None,
        creation_timestamp: Some("2024-01-01T00:00:00Z".to_string()),
        event_type: ty.map(|s| s.to_string()),
        reason: Some(reason.to_string()),
        message: Some(message.to_string()),
        event_time: None,
        last_timestamp: Some("2024-01-01T00:05:00Z".to_string()),
        kind: Some(kind.to_string()),
        name: Some(name.to_string()),
    }
}

fn event(name: &str, reason: &str, level: &str) -> KubernetesEvent {
    KubernetesEvent {
        id: name.to_string(),
        namespace: "payments".to_string(),
        kind: "Pod".to_string(),
        name: name.to_string(),
        reason: reason.to_string(),
        level: level.to_string(),
        message: String::new(),
        event_time: String::new(),
    }
}

#[test]
fn kube_settings() {
    let c = KubernetesProfileConfig::from_profile(&profile("", "{\"kubeconfigPath\":\" /k/config \",\"context\":\"  \"}"))
        .ok()
        .unwrap();
    assert_eq!(c.kubeconfig_path, Some("/k/config".to_string()));
    assert_eq!(c.context, None);
    let err = KubernetesProfileConfig::from_profile(&profile("  ", "{}")).err();
    assert_eq!(
        err,
        Some("Kubernetes profile requires kubeconfigPath in Extra JSON for local kubectl execution.".to_string())
    );
    assert!(KubernetesProfileConfig::from_profile(&profile("https://api:6443", "nope")).is_ok());
}

#[test]
fn events_command_arguments() {
    let c = KubernetesProfileConfig { kubeconfig_path: None, context: Some("ctx".to_string()) };
    assert_eq!(
        events_command(&c, "payments").ok().unwrap(),
        vec!["--context", "ctx", "get", "events", "-n", "payments", "--sort-by=.lastTimestamp", "-o", "json"]
    );
    let missing = KubernetesProfileConfig { kubeconfig_path: Some("/no/such/kubeconfig".to_string()), context: None };
    assert_eq!(
        events_command(&missing, "payments").err(),
        Some("Configured kubeconfigPath does not exist: /no/such/kubeconfig".to_string())
    );
    assert_eq!(events_failure_message(" \n", "exit status: 1"), "kubectl get events failed with status exit status: 1.");
    assert_eq!(events_failure_message("forbidden\n", "1"), "kubectl get events failed: forbidden");
}

#[test]
fn event_levels() {
    assert_eq!(event_level(&Some("Warning".to_string()), "Pulled", "ok"), "Warning");
    assert_eq!(event_level(&None, "FailedScheduling", "ok"), "Warning");
    assert_eq!(event_level(&Some("Normal".to_string()), "Started", "ERROR: crash"), "Warning");
    assert_eq!(event_level(&Some("Normal".to_string()), "Started", "container started"), "Normal");
}

#[test]
fn records_are_filtered_and_converted() {
    let records = vec![
        record(Some("u1"), "Pod", "api-0", "BackOff", "Back-off restarting", Some("Warning")),
        record(Some("u2"), "Deployment", "api", "ScalingReplicaSet", "Scaled up", Some("Normal")),
        record(None, "Pod", "worker-1", "Pulled", "pulled image", None),
    ];
    let all = events_from_records(&records, &input(None, Some("  ")));
    assert_eq!(all.len(), 3);
    assert_eq!(all[0].id, "u1");
    assert_eq!(all[0].namespace, "payments");
    assert_eq!(all[0].event_time, "2024-01-01T00:05:00Z");
    assert_eq!(all[0].level, "Warning");
    assert_eq!(all[1].level, "Normal");
    assert!(!all[2].id.is_empty());
    let api = events_from_records(&records, &input(Some(" API "), None));
    assert_eq!(api.iter().map(|e| e.name.clone()).collect::<Vec<_>>(), vec!["api-0", "api"]);
    let by_kind = events_from_records(&records, &input(Some("deploy"), None));
    assert_eq!(by_kind.len(), 1);
    let by_reason = events_from_records(&records, &input(None, Some("pull")));
    assert_eq!(by_reason.len(), 1);
    assert_eq!(by_reason[0].name, "worker-1");
    let mut bare = record(Some("u9"), "Pod", "x", "r", "m", None);
    bare.name = None;
    bare.kind = None;
    bare.reason = None;
    bare.last_timestamp = None;
    bare.creation_timestamp = None;
    let e = &events_from_records(&vec![bare], &input(None, None))[0];
    assert_eq!((e.name.as_str(), e.kind.as_str(), e.reason.as_str(), e.event_time.as_str()), ("unknown", "Unknown", "Unknown", "unknown"));
}

#[test]
fn events_summary_and_response() {
    let events = vec![
        event("api-0", "BackOff", "Warning"),
        event("api-1", "Pulled", "Normal"),
        event("api-2", "Failed", "Warning"),
        event("api-3", "Killing", "Normal"),
    ];
    let s = summarize_events(&input(None, None), &events);
    assert_eq!(s.headline, "4 event(s) in namespace payments with 2 warning event(s).");
    assert_eq!(s.likely_impact[0], "Recent signals: BackOff on api-0, Pulled on api-1, Failed on api-2.");
    let empty = summarize_events(&input(None, None), &vec![]);
    assert_eq!(empty.likely_impact, vec!["No Kubernetes events matched the current filters.".to_string()]);
    let r = events_response(&profile("", "{}"), &input(Some("api"), None), events);
    assert_eq!(r.adapter_mode, "kubectl-profile (prod-cluster)");
    assert_eq!(r.query_summary, "namespace=payments, involvedObject=api, reason=*");
    assert_eq!(r.events.len(), 4);
}
