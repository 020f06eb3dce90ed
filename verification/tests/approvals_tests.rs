use adbchelper::approvals::{
    action_host_and_port, approve_transition, choose_rollback_hint, classify_risk, command_error, confirm_plan,
    default_rollback_hint, execute_transition, execution_summary, plan_approved_action, required_string,
    validate_production_safety, ActionPlan,
};
use adbchelper::json::parse_json_or_null;
use adbchelper::models::{ApprovalRequest, ConnectionProfile};

fn profile(id: &str, env: &str, kind: &str, endpoint: &str, username: Option<&str>, config: &str) -> ConnectionProfile {
    ConnectionProfile {
        id: id.to_string(),
        environment_id: env.to_string(),
        profile_type: kind.to_string(),
        name: format!("{kind} profile"),
        endpoint: endpoint.to_string(),
        username: username.map(|u| u.to_string()),
        default_scope: None,
        notes: None,
        config_json: config.to_string(),
        has_secret: false,
        created_at: "2024-01-01T00:00:00Z".to_string(),
        updated_at: "2024-01-01T00:00:00Z".to_string(),
    }
}

fn approval(env: &str, action: &str) -> ApprovalRequest {
    ApprovalRequest {
        id: "a-1".to_string(),
        environment_id: env.to_string(),
        action_type: action.to_string(),
        target_ref: "target".to_string(),
        status: "approved".to_string(),
        risk_level: "high".to_string(),
        rationale: "restart the stuck pod".to_string(),
        rollback_hint: String::new(),
        execution_summary: None,
        created_at: String::new(),
        updated_at: String::new(),
    }
}

#[test]
fn risk_levels_follow_environment_and_action() {
    assert_eq!(classify_risk("prod", "restart_pod"), "high");
    assert_eq!(classify_risk("prod", "scale_deployment"), "critical");
    assert_eq!(classify_risk("prod", "reload_nginx"), "high");
    assert_eq!(classify_risk("staging", "scale_deployment"), "high");
    assert_eq!(classify_risk("staging", "reload_nginx"), "medium");
    assert_eq!(classify_risk("staging", "restart_pod"), "medium");
    assert_eq!(classify_risk("prod", "other"), "medium");
}

#[test]
fn rollback_hint_defaults_per_action() {
    assert_eq!(
        default_rollback_hint("scale_deployment"),
        "Scale the deployment back to the previous replica count if traffic or error rate worsens."
    );
    assert_eq!(
        default_rollback_hint("unknown"),
        "Revert the action through the same controlled approval flow if the outcome is unsafe."
    );
    assert_eq!(choose_rollback_hint(&Some("undo it".to_string()), "restart_pod"), "undo it");
    assert_eq!(
        choose_rollback_hint(&Some("   ".to_string()), "restart_pod"),
        "Kubernetes controller should recreate the pod; verify readiness and redeploy if restart loops persist."
    );
    assert_eq!(
        choose_rollback_hint(&None, "reload_nginx"),
        "Restore the previous Nginx configuration and reload again if upstream routing regresses."
    );
}

#[test]
fn production_safety_policy() {
    assert_eq!(validate_production_safety("staging", "scale_deployment", "", "not json"), Ok(()));
    assert_eq!(
        validate_production_safety("prod", "restart_pod", "  too short ", "{}"),
        Err("Production approval requests require a more specific rationale.".to_string())
    );
    let bad = validate_production_safety("prod", "restart_pod", "a long enough rationale", "{");
    assert!(bad.unwrap_err().starts_with("Invalid approval target details: "));
    assert_eq!(
        validate_production_safety("prod", "scale_deployment", "a long enough rationale", "{}"),
        Err("Production scale requests must include a replica count.".to_string())
    );
    assert_eq!(
        validate_production_safety("prod", "scale_deployment", "a long enough rationale", "{\"replicas\":0}"),
        Err("Scaling a production deployment to 0 is blocked by safety policy.".to_string())
    );
    assert_eq!(
        validate_production_safety("prod", "scale_deployment", "a long enough rationale", "{\"replicas\":21}"),
        Err("Scaling a production deployment above 20 replicas is blocked by safety policy.".to_string())
    );
    assert_eq!(
        validate_production_safety("prod", "scale_deployment", "a long enough rationale", "{\"replicas\":20}"),
        Ok(())
    );
}

#[test]
fn approval_lifecycle_transitions() {
    assert_eq!(approve_transition("pending"), Ok("approved".to_string()));
    assert_eq!(approve_transition("approved"), Err("Only pending requests can be approved.".to_string()));
    assert_eq!(execute_transition("approved"), Ok("executed".to_string()));
    assert_eq!(execute_transition("pending"), Err("Only approved requests can be executed.".to_string()));
    assert_eq!(execute_transition("executed"), Err("Only approved requests can be executed.".to_string()));
}

#[test]
fn required_string_trims_and_names_missing_key() {
    let details = parse_json_or_null("{\"namespace\":\"  payments \",\"empty\":\"  \"}");
    assert_eq!(required_string(&details, "namespace"), Ok("payments".to_string()));
    assert_eq!(required_string(&details, "empty"), Err("Approval target is missing empty.".to_string()));
    assert_eq!(required_string(&details, "podName"), Err("Approval target is missing podName.".to_string()));
}

#[test]
fn host_and_port_split_at_last_colon() {
    let chars: Vec<char> = "web-1:2222".chars().collect();
    let (host, port) = action_host_and_port(&chars);
    assert_eq!(host.iter().collect::<String>(), "web-1");
    assert_eq!(port, Some(2222));
    let chars: Vec<char> = "web-1:notaport".chars().collect();
    let (host, port) = action_host_and_port(&chars);
    assert_eq!(host.iter().collect::<String>(), "web-1:notaport");
    assert_eq!(port, None);
}

#[test]
fn restart_pod_plan_uses_kubectl() {
    let profiles = vec![profile("k", "prod", "kubernetes", "", None, "{\"context\":\"ctx-a\"}")];
    let plan = plan_approved_action(&profiles, &approval("prod", "restart_pod"), "{\"namespace\":\"ns\",\"podName\":\"api-0\"}")
        .unwrap();
    assert_eq!(plan.program, "kubectl");
    assert_eq!(plan.args, vec!["--context", "ctx-a", "delete", "pod", "api-0", "-n", "ns"]);
    assert_eq!(plan.label, "kubectl delete pod");
    assert_eq!(plan.summary_prefix, "Restarted pod api-0 in namespace ns. ");
    assert!(plan.required_file.is_none());
}

#[test]
fn scale_plan_requires_replicas_and_profile() {
    let profiles = vec![profile("k", "prod", "kubernetes", "", None, "{}")];
    let plan = plan_approved_action(
        &profiles,
        &approval("prod", "scale_deployment"),
        "{\"namespace\":\"ns\",\"deploymentName\":\"api\",\"replicas\":3}",
    )
    .unwrap();
    assert_eq!(plan.args, vec!["scale", "deployment", "api", "-n", "ns", "--replicas=3"]);
    assert_eq!(plan.summary_prefix, "Scaled deployment api in namespace ns to 3 replicas. ");
    let missing = plan_approved_action(
        &profiles,
        &approval("prod", "scale_deployment"),
        "{\"namespace\":\"ns\",\"deploymentName\":\"api\"}",
    );
    assert_eq!(missing.err(), Some("Approval target is missing replicas.".to_string()));
    let none = plan_approved_action(&[], &approval("prod", "scale_deployment"), "{}");
    assert_eq!(none.err(), Some("No kubernetes profile found for environment prod.".to_string()));
}

#[test]
fn reload_nginx_plan_uses_ssh() {
    let profiles = vec![profile("s", "dev", "ssh", "gw.internal:2200", Some("ops"), "{\"privateKeyPath\":\"/keys/id\"}")];
    let plan = plan_approved_action(&profiles, &approval("dev", "reload_nginx"), "{}").unwrap();
    assert_eq!(plan.program, "ssh");
    assert_eq!(
        plan.args,
        vec![
            "-o",
            "BatchMode=yes",
            "-o",
            "ConnectTimeout=5",
            "-p",
            "2200",
            "-i",
            "/keys/id",
            "ops@gw.internal",
            "nginx -s reload || systemctl reload nginx || sudo systemctl reload nginx"
        ]
    );
    assert_eq!(plan.summary_prefix, "Reloaded Nginx on ops@gw.internal. ");
    assert_eq!(
        plan.required_file,
        Some(("/keys/id".to_string(), "Configured privateKeyPath does not exist: /keys/id".to_string()))
    );
    let unsupported = plan_approved_action(&profiles, &approval("dev", "drop_table"), "{}");
    assert_eq!(unsupported.err(), Some("Unsupported approval action: drop_table".to_string()));
}

#[test]
fn confirm_plan_reports_missing_file() {
    let plan = ActionPlan {
        program: "ssh".to_string(),
        args: vec![],
        label: "ssh reload nginx".to_string(),
        summary_prefix: String::new(),
        required_file: Some(("/definitely/not/here/key".to_string(), "missing key".to_string())),
    };
    assert_eq!(confirm_plan(plan).err(), Some("missing key".to_string()));
}

#[test]
fn execution_summary_and_command_error() {
    let plan = ActionPlan {
        program: "kubectl".to_string(),
        args: vec![],
        label: "kubectl delete pod".to_string(),
        summary_prefix: "Restarted pod p in namespace n. ".to_string(),
        required_file: None,
    };
    assert_eq!(execution_summary(&plan, "  pod \"p\" deleted\n"), "Restarted pod p in namespace n. pod \"p\" deleted");
    assert_eq!(command_error("kubectl delete pod", "  ", "1"), "kubectl delete pod failed with status 1.");
    assert_eq!(command_error("kubectl delete pod", "boom\n", "1"), "kubectl delete pod failed: boom");
}
