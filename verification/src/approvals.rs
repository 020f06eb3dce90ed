//! Approvals of write actions: risk classification, production safety policy, the
//! lifecycle of a request, and the command lines that an approved action runs.
use vstd::prelude::*;
use vstd::utf8::encode_utf8;

use crate::hardening::{sanitize_and_mask, sanitize_and_mask_text};
use crate::json::{
    json_get_str, json_get_u64, model_get_str, model_get_u64, parse_json, parse_json_or_error, spec_parse_json,
    spec_parse_json_error, JsonModel, JsonValue,
};
use crate::models::{ApprovalRequest, ConnectionProfile};
use crate::redis::profile_settings_model;
use crate::ssh::{nonblank_opt, render_target_spec, u16_of};
use crate::text::{
    chars_of, copy_chars, decimal, has_char, has_char_exec, is_blank, is_blank_exec, is_blank_str, opt_view, owned,
    parse_u16, parse_unsigned, push_chars, push_decimal, push_str, rsplit_once, rsplit_once_exec, str_eq, string_of,
    string_views, trim, trim_exec, trim_str,
};

verus! {

// ---------------------------------------------------------------------------
// Risk and rollback
// ---------------------------------------------------------------------------

/// The risk level of an action in an environment.
pub open spec fn classify_risk_spec(environment_id: Seq<char>, action_type: Seq<char>) -> Seq<char> {
    if environment_id == "prod"@ && action_type == "restart_pod"@ { "high"@ }
    else if environment_id == "prod"@ && action_type == "scale_deployment"@ { "critical"@ }
    else if environment_id == "prod"@ && action_type == "reload_nginx"@ { "high"@ }
    else if action_type == "scale_deployment"@ { "high"@ }
    else if action_type == "reload_nginx"@ { "medium"@ }
    else { "medium"@ }
}

pub fn classify_risk(environment_id: &str, action_type: &str) -> (r: String)
    ensures r@ == classify_risk_spec(environment_id@, action_type@),
{
    let prod = str_eq(environment_id, "prod");
    let level = if prod && str_eq(action_type, "restart_pod") { "high" }
        else if prod && str_eq(action_type, "scale_deployment") { "critical" }
        else if prod && str_eq(action_type, "reload_nginx") { "high" }
        else if str_eq(action_type, "scale_deployment") { "high" }
        else if str_eq(action_type, "reload_nginx") { "medium" }
        else { "medium" };
    owned(level)
}

pub open spec fn default_rollback_hint_spec(action_type: Seq<char>) -> Seq<char> {
    if action_type == "restart_pod"@ {
        "Kubernetes controller should recreate the pod; verify readiness and redeploy if restart loops persist."@
    } else if action_type == "scale_deployment"@ {
        "Scale the deployment back to the previous replica count if traffic or error rate worsens."@
    } else if action_type == "reload_nginx"@ {
        "Restore the previous Nginx configuration and reload again if upstream routing regresses."@
    } else {
        "Revert the action through the same controlled approval flow if the outcome is unsafe."@
    }
}

pub fn default_rollback_hint(action_type: &str) -> (r: String)
    ensures r@ == default_rollback_hint_spec(action_type@),
{
    let hint = if str_eq(action_type, "restart_pod") {
        "Kubernetes controller should recreate the pod; verify readiness and redeploy if restart loops persist."
    } else if str_eq(action_type, "scale_deployment") {
        "Scale the deployment back to the previous replica count if traffic or error rate worsens."
    } else if str_eq(action_type, "reload_nginx") {
        "Restore the previous Nginx configuration and reload again if upstream routing regresses."
    } else {
        "Revert the action through the same controlled approval flow if the outcome is unsafe."
    };
    owned(hint)
}

/// The rollback hint a request keeps: the requested one unless blank, else the default.
pub open spec fn rollback_hint_spec(requested: Option<Seq<char>>, action_type: Seq<char>) -> Seq<char> {
    match requested {
        Some(h) if !is_blank(h) => h,
        _ => default_rollback_hint_spec(action_type),
    }
}

pub fn choose_rollback_hint(requested: &Option<String>, action_type: &str) -> (r: String)
    ensures r@ == rollback_hint_spec(opt_view(*requested), action_type@),
{
    match requested {
        Some(h) => if !is_blank_str(h.as_str()) { h.clone() } else { default_rollback_hint(action_type) },
        None => default_rollback_hint(action_type),
    }
}

// ---------------------------------------------------------------------------
// Production safety policy
// ---------------------------------------------------------------------------

/// The length in UTF-8 bytes of a text (what `str::len` answers).
pub open spec fn byte_len(s: Seq<char>) -> usize {
    encode_utf8(s).len() as usize
}

/// What `validate_production_safety` answers. Outside `prod` every request passes. In
/// `prod` the rationale must be at least 12 bytes once trimmed, the target details must be
/// JSON, and a scale request must name between 1 and 20 replicas.
pub open spec fn production_safety_spec(environment_id: Seq<char>, action_type: Seq<char>, rationale: Seq<char>,
    details: Seq<char>) -> Result<(), Seq<char>>
{
    if environment_id != "prod"@ {
        Ok(())
    } else if byte_len(trim(rationale)) < 12 {
        Err("Production approval requests require a more specific rationale."@)
    } else {
        match spec_parse_json(details) {
            None => Err("Invalid approval target details: "@ + spec_parse_json_error(details)),
            Some(m) => if action_type == "scale_deployment"@ {
                match model_get_u64(m, "replicas"@) {
                    None => Err("Production scale requests must include a replica count."@),
                    Some(n) => if n == 0 {
                        Err("Scaling a production deployment to 0 is blocked by safety policy."@)
                    } else if n > 20 {
                        Err("Scaling a production deployment above 20 replicas is blocked by safety policy."@)
                    } else {
                        Ok(())
                    },
                }
            } else {
                Ok(())
            },
        }
    }
}

pub fn validate_production_safety(environment_id: &str, action_type: &str, rationale: &str, target_details_json: &str)
    -> (r: Result<(), String>)
    ensures
        match r {
            Ok(()) => production_safety_spec(environment_id@, action_type@, rationale@, target_details_json@)
                == Ok::<(), Seq<char>>(()),
            Err(e) => production_safety_spec(environment_id@, action_type@, rationale@, target_details_json@)
                == Err::<(), Seq<char>>(e@),
        },
{
    if !str_eq(environment_id, "prod") {
        return Ok(());
    }
    let t = trim_str(rationale);
    let ts = string_of(&t);
    if ts.as_str().len() < 12 {
        return Err(owned("Production approval requests require a more specific rationale."));
    }
    let details = match parse_json_or_error(target_details_json) {
        Ok(v) => v,
        Err(e) => {
            let mut m = chars_of("Invalid approval target details: ");
            push_str(&mut m, e.as_str());
            return Err(string_of(&m));
        },
    };
    if str_eq(action_type, "scale_deployment") {
        let replicas = match json_get_u64(&details, "replicas") {
            Some(n) => n,
            None => return Err(owned("Production scale requests must include a replica count.")),
        };
        if replicas == 0 {
            return Err(owned("Scaling a production deployment to 0 is blocked by safety policy."));
        }
        if replicas > 20 {
            return Err(owned("Scaling a production deployment above 20 replicas is blocked by safety policy."));
        }
    }
    Ok(())
}

/// A production scale request passes the policy only with a replica count from 1 to 20,
/// a JSON target and a rationale of at least 12 bytes; outside production every request passes.
pub proof fn law_production_scaling_is_bounded(environment_id: Seq<char>, rationale: Seq<char>, details: Seq<char>)
    ensures
        environment_id != "prod"@ ==> production_safety_spec(environment_id, "scale_deployment"@, rationale, details) is Ok,
        environment_id == "prod"@ && production_safety_spec(environment_id, "scale_deployment"@, rationale, details) is Ok
            ==> byte_len(trim(rationale)) >= 12 && spec_parse_json(details) is Some && ({
                let n = model_get_u64(spec_parse_json(details)->Some_0, "replicas"@);
                n is Some && 1 <= n->Some_0 <= 20
            }),
{
}

/// Risk levels are `medium`, `high` or `critical`; scaling in production is always `critical`.
pub proof fn law_risk_levels(environment_id: Seq<char>, action_type: Seq<char>)
    ensures
        classify_risk_spec(environment_id, action_type) == "medium"@
            || classify_risk_spec(environment_id, action_type) == "high"@
            || classify_risk_spec(environment_id, action_type) == "critical"@,
        environment_id == "prod"@ && action_type == "scale_deployment"@
            ==> classify_risk_spec(environment_id, action_type) == "critical"@,
{
    reveal_strlit("restart_pod");
    reveal_strlit("scale_deployment");
    assert("restart_pod"@ != "scale_deployment"@) by {
        assert("restart_pod"@.len() != "scale_deployment"@.len());
    }
}

// ---------------------------------------------------------------------------
// Lifecycle
// ---------------------------------------------------------------------------

/// Approving: only a pending request can be approved; it becomes `approved`.
pub open spec fn approve_spec(status: Seq<char>) -> Result<Seq<char>, Seq<char>> {
    if status == "pending"@ { Ok("approved"@) } else { Err("Only pending requests can be approved."@) }
}

/// Executing: only an approved request can be executed; it becomes `executed`.
pub open spec fn execute_spec(status: Seq<char>) -> Result<Seq<char>, Seq<char>> {
    if status == "approved"@ { Ok("executed"@) } else { Err("Only approved requests can be executed."@) }
}

/// The status an approved request moves to, or why it cannot be approved.
pub fn approve_transition(status: &str) -> (r: Result<String, String>)
    ensures
        match r {
            Ok(s) => approve_spec(status@) == Ok::<Seq<char>, Seq<char>>(s@),
            Err(e) => approve_spec(status@) == Err::<Seq<char>, Seq<char>>(e@),
        },
{
    if str_eq(status, "pending") { Ok(owned("approved")) } else { Err(owned("Only pending requests can be approved.")) }
}

/// The status an executed request moves to, or why it cannot be executed.
pub fn execute_transition(status: &str) -> (r: Result<String, String>)
    ensures
        match r {
            Ok(s) => execute_spec(status@) == Ok::<Seq<char>, Seq<char>>(s@),
            Err(e) => execute_spec(status@) == Err::<Seq<char>, Seq<char>>(e@),
        },
{
    if str_eq(status, "approved") { Ok(owned("executed")) } else { Err(owned("Only approved requests can be executed.")) }
}

/// No request is executed without having been approved: from any status, execution
/// succeeds only on `approved`, approval only on `pending`, and an executed request can
/// be neither approved nor executed again.
pub proof fn law_approval_lifecycle(status: Seq<char>)
    ensures
        execute_spec(status) is Ok <==> status == "approved"@,
        approve_spec(status) is Ok <==> status == "pending"@,
        approve_spec("pending"@) == Ok::<Seq<char>, Seq<char>>("approved"@),
        execute_spec(approve_spec("pending"@)->Ok_0) == Ok::<Seq<char>, Seq<char>>("executed"@),
        approve_spec("executed"@) is Err && execute_spec("executed"@) is Err,
{
    reveal_strlit("pending");
    reveal_strlit("approved");
    reveal_strlit("executed");
    assert("executed"@ != "pending"@) by { assert("executed"@.len() != "pending"@.len()); }
    assert("executed"@ != "approved"@) by { assert("executed"@[0] != "approved"@[0]); }
}


// ---------------------------------------------------------------------------
// Command lines of approved actions
// ---------------------------------------------------------------------------

/// `details[key]` as a trimmed non-empty string, or the message naming the missing key.
pub open spec fn required_string_spec(details: JsonModel, key: Seq<char>) -> Result<Seq<char>, Seq<char>> {
    match model_get_str(details, key) {
        Some(v) if trim(v).len() > 0 => Ok(trim(v)),
        _ => Err("Approval target is missing "@ + key + "."@),
    }
}

pub fn required_string(details: &JsonValue, key: &str) -> (r: Result<String, String>)
    ensures
        match r {
            Ok(v) => required_string_spec(details@, key@) == Ok::<Seq<char>, Seq<char>>(v@),
            Err(e) => required_string_spec(details@, key@) == Err::<Seq<char>, Seq<char>>(e@),
        },
{
    match json_get_str(details, key) {
        Some(v) => {
            let t = trim_exec(&v);
            if t.len() > 0 {
                return Ok(string_of(&t));
            }
        },
        None => {},
    }
    let mut m = chars_of("Approval target is missing ");
    push_str(&mut m, key);
    push_str(&mut m, ".");
    Err(string_of(&m))
}

/// What `parse_host_and_port` of the approval flow answers: `host:port` splits at the last
/// colon when the host has no other colon and the port is a `u16`.
pub open spec fn action_host_and_port_spec(endpoint: Seq<char>) -> (Seq<char>, Option<u16>) {
    match rsplit_once(endpoint, ':') {
        Some((host, port)) => if !has_char(host, ':') && parse_unsigned(port, u16::MAX as nat) is Some {
            (host, Some(parse_unsigned(port, u16::MAX as nat)->Some_0 as u16))
        } else {
            (endpoint, None)
        },
        None => (endpoint, None),
    }
}

pub fn action_host_and_port(endpoint: &[char]) -> (r: (Vec<char>, Option<u16>))
    ensures (r.0@, r.1) == action_host_and_port_spec(endpoint@),
{
    match rsplit_once_exec(endpoint, ':') {
        Some((host, port)) => {
            if !has_char_exec(&host, ':') {
                match parse_u16(&port) {
                    Some(p) => return (host, Some(p)),
                    None => {},
                }
            }
            (copy_chars(endpoint), None)
        },
        None => (copy_chars(endpoint), None),
    }
}

/// A command line that an approved action runs, and the file that must exist first.
pub struct ActionPlan {
    pub program: String,
    pub args: Vec<String>,
    /// The label of the command in timeouts and failures.
    pub label: String,
    /// What the execution summary starts with, before the command's sanitized output.
    pub summary_prefix: String,
    /// A configured file that must exist, with the message when it does not.
    pub required_file: Option<(String, String)>,
}

pub open spec fn plan_view(p: ActionPlan) -> (Seq<char>, Seq<Seq<char>>, Seq<char>, Seq<char>, Option<(Seq<char>, Seq<char>)>) {
    (p.program@, string_views(p.args@), p.label@, p.summary_prefix@,
        match p.required_file { Some((f, m)) => Some((f@, m@)), None => None })
}

/// The kubectl flags of a profile: `--kubeconfig` and `--context` from its settings.
pub open spec fn kubectl_flags_spec(settings: JsonModel) -> Seq<Seq<char>> {
    let k = match model_get_str(settings, "kubeconfigPath"@) { Some(p) => seq!["--kubeconfig"@, p], None => Seq::empty() };
    let c = match model_get_str(settings, "context"@) { Some(x) => seq!["--context"@, x], None => Seq::empty() };
    k + c
}

pub open spec fn kubeconfig_required(settings: JsonModel) -> Option<(Seq<char>, Seq<char>)> {
    match model_get_str(settings, "kubeconfigPath"@) {
        Some(p) => Some((p, "Configured kubeconfigPath does not exist: "@ + p)),
        None => None,
    }
}

/// The ssh flags, target and port of an approval's SSH profile.
pub open spec fn ssh_action_spec(profile: ConnectionProfile, settings: JsonModel, host_override: Option<Seq<char>>)
    -> Result<(Seq<Seq<char>>, Seq<char>, Option<(Seq<char>, Seq<char>)>), Seq<char>>
{
    let endpoint = trim(match host_override { Some(h) => h, None => profile.endpoint@ });
    if endpoint.len() == 0 {
        Err("SSH approval action requires a target host."@)
    } else {
        let (host, endpoint_port) = action_host_and_port_spec(endpoint);
        let port = match u16_of(model_get_u64(settings, "port"@)) { Some(p) => Some(p), None => endpoint_port };
        let key = model_get_str(settings, "privateKeyPath"@);
        let flags = seq!["-o"@, "BatchMode=yes"@, "-o"@, "ConnectTimeout=5"@]
            + (match port { Some(p) => seq!["-p"@, decimal(p as nat)], None => Seq::empty() })
            + (match key { Some(k) => seq!["-i"@, k], None => Seq::empty() });
        let target = render_target_spec(nonblank_opt(opt_view(profile.username)), host);
        let required = match key { Some(k) => Some((k, "Configured privateKeyPath does not exist: "@ + k)), None => None };
        Ok((flags, target, required))
    }
}

pub open spec fn nginx_reload_command() -> Seq<char> {
    "nginx -s reload || systemctl reload nginx || sudo systemctl reload nginx"@
}

/// The plan of an approved action: which profile it runs through, what it needs from the
/// target details, and the command line.
pub open spec fn plan_spec(profiles: Seq<ConnectionProfile>, environment_id: Seq<char>, action_type: Seq<char>,
    details_json: Seq<char>) -> Result<(Seq<char>, Seq<Seq<char>>, Seq<char>, Seq<char>, Option<(Seq<char>, Seq<char>)>), Seq<char>>
{
    match spec_parse_json(details_json) {
        None => Err("Invalid approval target details: "@ + spec_parse_json_error(details_json)),
        Some(details) => {
            let kube_missing = "No "@ + "kubernetes"@ + " profile found for environment "@ + environment_id + "."@;
            let ssh_missing = "No "@ + "ssh"@ + " profile found for environment "@ + environment_id + "."@;
            if action_type == "restart_pod"@ {
                if !crate::profiles::has_profile(profiles, environment_id, "kubernetes"@) {
                    Err(kube_missing)
                } else {
                    let i = choose|i: int| crate::profiles::is_first_profile(profiles, environment_id, "kubernetes"@, i);
                    let settings = profile_settings_model(profiles[i].config_json@);
                    match required_string_spec(details, "namespace"@) {
                        Err(e) => Err(e),
                        Ok(ns) => match required_string_spec(details, "podName"@) {
                            Err(e) => Err(e),
                            Ok(pod) => Ok(("kubectl"@,
                                kubectl_flags_spec(settings) + seq!["delete"@, "pod"@, pod, "-n"@, ns],
                                "kubectl delete pod"@,
                                "Restarted pod "@ + pod + " in namespace "@ + ns + ". "@,
                                kubeconfig_required(settings))),
                        },
                    }
                }
            } else if action_type == "scale_deployment"@ {
                if !crate::profiles::has_profile(profiles, environment_id, "kubernetes"@) {
                    Err(kube_missing)
                } else {
                    let i = choose|i: int| crate::profiles::is_first_profile(profiles, environment_id, "kubernetes"@, i);
                    let settings = profile_settings_model(profiles[i].config_json@);
                    match required_string_spec(details, "namespace"@) {
                        Err(e) => Err(e),
                        Ok(ns) => match required_string_spec(details, "deploymentName"@) {
                            Err(e) => Err(e),
                            Ok(dep) => match model_get_u64(details, "replicas"@) {
                                None => Err("Approval target is missing replicas."@),
                                Some(n) => Ok(("kubectl"@,
                                    kubectl_flags_spec(settings) + seq!["scale"@, "deployment"@, dep, "-n"@, ns,
                                        "--replicas="@ + decimal(n as nat)],
                                    "kubectl scale deployment"@,
                                    "Scaled deployment "@ + dep + " in namespace "@ + ns + " to "@ + decimal(n as nat) + " replicas. "@,
                                    kubeconfig_required(settings))),
                            },
                        },
                    }
                }
            } else if action_type == "reload_nginx"@ {
                if !crate::profiles::has_profile(profiles, environment_id, "ssh"@) {
                    Err(ssh_missing)
                } else {
                    let i = choose|i: int| crate::profiles::is_first_profile(profiles, environment_id, "ssh"@, i);
                    let settings = profile_settings_model(profiles[i].config_json@);
                    match ssh_action_spec(profiles[i], settings, crate::json::model_get_str(details, "host"@)) {
                        Err(e) => Err(e),
                        Ok((flags, target, required)) => Ok(("ssh"@, flags + seq![target, nginx_reload_command()],
                            "ssh reload nginx"@, "Reloaded Nginx on "@ + target + ". "@, required)),
                    }
                }
            } else {
                Err("Unsupported approval action: "@ + action_type)
            }
        },
    }
}

proof fn lemma_first_profile_unique(ps: Seq<ConnectionProfile>, env: Seq<char>, ty: Seq<char>, i: int, j: int)
    requires
        crate::profiles::is_first_profile(ps, env, ty, i),
        crate::profiles::is_first_profile(ps, env, ty, j),
    ensures i == j,
{
    if i < j {
        assert(!((ps[i]).environment_id@ == env && ps[i].profile_type@ == ty));
    } else if j < i {
        assert(!((ps[j]).environment_id@ == env && ps[j].profile_type@ == ty));
    }
}

/// A kubectl action runs against the kubeconfig of the environment's Kubernetes profile:
/// when the settings of that profile hold `kubeconfigPath` `p`, the command line starts
/// with `--kubeconfig p` and the plan requires `p` to exist; without such a setting the
/// command line has no `--kubeconfig` flag first and nothing is required.
pub proof fn law_kubectl_actions_use_profile_kubeconfig(profiles: Seq<ConnectionProfile>, environment_id: Seq<char>,
    action_type: Seq<char>, details_json: Seq<char>, i: int)
    ensures
        (action_type == "restart_pod"@ || action_type == "scale_deployment"@)
            && crate::profiles::is_first_profile(profiles, environment_id, "kubernetes"@, i)
            && plan_spec(profiles, environment_id, action_type, details_json) is Ok
            ==> ({
                let plan = plan_spec(profiles, environment_id, action_type, details_json)->Ok_0;
                match model_get_str(profile_settings_model(profiles[i].config_json@), "kubeconfigPath"@) {
                    Some(p) => plan.1.len() >= 2 && plan.1[0] == "--kubeconfig"@ && plan.1[1] == p
                        && plan.4 is Some && plan.4->Some_0.0 == p,
                    None => plan.1.len() > 0 && plan.1[0] != "--kubeconfig"@ && plan.4 is None,
                }
            }),
{
    if (action_type == "restart_pod"@ || action_type == "scale_deployment"@)
        && crate::profiles::is_first_profile(profiles, environment_id, "kubernetes"@, i)
        && plan_spec(profiles, environment_id, action_type, details_json) is Ok {
        reveal_strlit("--kubeconfig");
        reveal_strlit("--context");
        reveal_strlit("delete");
        reveal_strlit("scale");
        reveal_strlit("restart_pod");
        reveal_strlit("scale_deployment");
        assert(profiles[i].environment_id@ == environment_id);
        assert(crate::profiles::has_profile(profiles, environment_id, "kubernetes"@));
        let k = choose|k: int| crate::profiles::is_first_profile(profiles, environment_id, "kubernetes"@, k);
        lemma_first_profile_unique(profiles, environment_id, "kubernetes"@, i, k);
        let settings = profile_settings_model(profiles[i].config_json@);
        let flags = kubectl_flags_spec(settings);
        assert("--kubeconfig"@.len() != "--context"@.len());
        assert("--kubeconfig"@.len() != "delete"@.len());
        assert("--kubeconfig"@.len() != "scale"@.len());
        match model_get_str(settings, "kubeconfigPath"@) {
            Some(p) => {
                assert(flags[0] == "--kubeconfig"@ && flags[1] == p);
            },
            None => {
                assert(flags.len() == 0 || flags[0] == "--context"@);
            },
        }
    }
}

fn push_owned(v: &mut Vec<String>, s: &str)
    ensures string_views(final(v)@) == string_views(old(v)@).push(s@),
{
    let ghost before = v@;
    v.push(owned(s));
    assert(string_views(v@) =~= string_views(before).push(s@));
}

fn push_string(v: &mut Vec<String>, s: String)
    ensures string_views(final(v)@) == string_views(old(v)@).push(s@),
{
    let ghost before = v@;
    v.push(s);
    assert(string_views(v@) =~= string_views(before).push(s@));
}

fn kubectl_flags(settings: &JsonValue) -> (r: (Vec<String>, Option<(String, String)>))
    ensures
        string_views(r.0@) == kubectl_flags_spec(settings@),
        match r.1 { Some((f, m)) => Some((f@, m@)), None => None } == kubeconfig_required(settings@),
{
    let mut a: Vec<String> = Vec::new();
    let mut required: Option<(String, String)> = None;
    match json_get_str(settings, "kubeconfigPath") {
        Some(p) => {
            push_owned(&mut a, "--kubeconfig");
            push_string(&mut a, string_of(&p));
            let mut m = chars_of("Configured kubeconfigPath does not exist: ");
            push_chars(&mut m, &p);
            required = Some((string_of(&p), string_of(&m)));
        },
        None => {},
    }
    match json_get_str(settings, "context") {
        Some(c) => {
            push_owned(&mut a, "--context");
            push_string(&mut a, string_of(&c));
        },
        None => {},
    }
    assert(string_views(a@) =~= kubectl_flags_spec(settings@));
    (a, required)
}

fn kube_missing_message(environment_id: &str) -> (r: Vec<char>)
    ensures r@ == "No "@ + "kubernetes"@ + " profile found for environment "@ + environment_id@ + "."@,
{
    let mut m = chars_of("No ");
    push_str(&mut m, "kubernetes");
    push_str(&mut m, " profile found for environment ");
    push_str(&mut m, environment_id);
    push_str(&mut m, ".");
    m
}

/// Plans the command line of an approved action from its target details (a JSON text).
#[verifier::rlimit(80)]
pub fn plan_approved_action(profiles: &[ConnectionProfile], approval: &ApprovalRequest, target_details_json: &str)
    -> (r: Result<ActionPlan, String>)
    ensures
        match r {
            Ok(p) => plan_spec(profiles@, approval.environment_id@, approval.action_type@, target_details_json@)
                == Ok::<_, Seq<char>>(plan_view(p)),
            Err(e) => plan_spec(profiles@, approval.environment_id@, approval.action_type@, target_details_json@)
                == Err::<(Seq<char>, Seq<Seq<char>>, Seq<char>, Seq<char>, Option<(Seq<char>, Seq<char>)>), Seq<char>>(e@),
        },
{
    let details = match parse_json_or_error(target_details_json) {
        Ok(v) => v,
        Err(e) => {
            let mut m = chars_of("Invalid approval target details: ");
            push_str(&mut m, e.as_str());
            return Err(string_of(&m));
        },
    };
    let env = approval.environment_id.as_str();
    let action = approval.action_type.as_str();
    if str_eq(action, "restart_pod") || str_eq(action, "scale_deployment") {
        let scale = str_eq(action, "scale_deployment");
        proof {
            reveal_strlit("restart_pod");
            reveal_strlit("scale_deployment");
            assert("restart_pod"@.len() != "scale_deployment"@.len());
            assert(scale ==> action@ != "restart_pod"@);
            assert(!scale ==> action@ == "restart_pod"@);
        }
        let i = match crate::profiles::find_profile(profiles, env, "kubernetes") {
            Some(i) => i,
            None => return Err(string_of(&kube_missing_message(env))),
        };
        proof {
            let k = choose|k: int| crate::profiles::is_first_profile(profiles@, env@, "kubernetes"@, k);
            assert(k == i as int) by {
                if k < i as int {
                    assert(!(profiles@[k].environment_id@ == env@ && profiles@[k].profile_type@ == "kubernetes"@));
                } else if k > i as int {
                    assert(!(profiles@[i as int].environment_id@ == env@ && profiles@[i as int].profile_type@ == "kubernetes"@));
                }
            }
        }
        let settings = crate::profiles::profile_settings(&profiles[i]);
        let ns = match required_string(&details, "namespace") { Ok(v) => v, Err(e) => return Err(e) };
        let target_key = if scale { "deploymentName" } else { "podName" };
        let name = match required_string(&details, target_key) { Ok(v) => v, Err(e) => return Err(e) };
        let replicas = if scale {
            match json_get_u64(&details, "replicas") {
                Some(n) => n,
                None => return Err(owned("Approval target is missing replicas.")),
            }
        } else {
            0
        };
        let (mut args, required) = kubectl_flags(&settings);
        let mut prefix: Vec<char>;
        if scale {
            push_owned(&mut args, "scale");
            push_owned(&mut args, "deployment");
            push_string(&mut args, name.clone());
            push_owned(&mut args, "-n");
            push_string(&mut args, ns.clone());
            let mut flag = chars_of("--replicas=");
            push_decimal(&mut flag, replicas);
            push_string(&mut args, string_of(&flag));
            prefix = chars_of("Scaled deployment ");
            push_str(&mut prefix, name.as_str());
            push_str(&mut prefix, " in namespace ");
            push_str(&mut prefix, ns.as_str());
            push_str(&mut prefix, " to ");
            push_decimal(&mut prefix, replicas);
            push_str(&mut prefix, " replicas. ");
        } else {
            push_owned(&mut args, "delete");
            push_owned(&mut args, "pod");
            push_string(&mut args, name.clone());
            push_owned(&mut args, "-n");
            push_string(&mut args, ns.clone());
            prefix = chars_of("Restarted pod ");
            push_str(&mut prefix, name.as_str());
            push_str(&mut prefix, " in namespace ");
            push_str(&mut prefix, ns.as_str());
            push_str(&mut prefix, ". ");
        }
        let plan = ActionPlan {
            program: owned("kubectl"),
            args,
            label: owned(if scale { "kubectl scale deployment" } else { "kubectl delete pod" }),
            summary_prefix: string_of(&prefix),
            required_file: required,
        };
        proof {
            if scale {
                assert(string_views(plan.args@) =~= kubectl_flags_spec(settings@) + seq!["scale"@, "deployment"@, name@, "-n"@, ns@,
                    "--replicas="@ + decimal(replicas as nat)]);
            } else {
                assert(string_views(plan.args@) =~= kubectl_flags_spec(settings@) + seq!["delete"@, "pod"@, name@, "-n"@, ns@]);
            }
        }
        Ok(plan)
    } else if str_eq(action, "reload_nginx") {
        let i = match crate::profiles::find_profile(profiles, env, "ssh") {
            Some(i) => i,
            None => {
                let mut m = chars_of("No ");
                push_str(&mut m, "ssh");
                push_str(&mut m, " profile found for environment ");
                push_str(&mut m, env);
                push_str(&mut m, ".");
                return Err(string_of(&m));
            },
        };
        proof {
            let k = choose|k: int| crate::profiles::is_first_profile(profiles@, env@, "ssh"@, k);
            assert(k == i as int) by {
                if k < i as int {
                    assert(!(profiles@[k].environment_id@ == env@ && profiles@[k].profile_type@ == "ssh"@));
                } else if k > i as int {
                    assert(!(profiles@[i as int].environment_id@ == env@ && profiles@[i as int].profile_type@ == "ssh"@));
                }
            }
        }
        let profile = &profiles[i];
        let settings = crate::profiles::profile_settings(profile);
        let host_override = json_get_str(&details, "host");
        let endpoint = match &host_override {
            Some(h) => trim_exec(h),
            None => trim_str(profile.endpoint.as_str()),
        };
        if endpoint.len() == 0 {
            return Err(owned("SSH approval action requires a target host."));
        }
        let (host, endpoint_port) = action_host_and_port(&endpoint);
        let port = match json_get_u64(&settings, "port") {
            Some(n) => if n <= 65535 { Some(n as u16) } else { endpoint_port },
            None => endpoint_port,
        };
        let key = json_get_str(&settings, "privateKeyPath");
        let mut args: Vec<String> = Vec::new();
        push_owned(&mut args, "-o");
        push_owned(&mut args, "BatchMode=yes");
        push_owned(&mut args, "-o");
        push_owned(&mut args, "ConnectTimeout=5");
        match port {
            Some(p) => {
                push_owned(&mut args, "-p");
                push_string(&mut args, crate::text::decimal_string(p as u64));
            },
            None => {},
        }
        let mut required: Option<(String, String)> = None;
        match &key {
            Some(k) => {
                push_owned(&mut args, "-i");
                push_string(&mut args, string_of(k));
                let mut m = chars_of("Configured privateKeyPath does not exist: ");
                push_chars(&mut m, k);
                required = Some((string_of(k), string_of(&m)));
            },
            None => {},
        }
        let username = match &profile.username {
            Some(u) => if is_blank_str(u.as_str()) { None } else { Some(chars_of(u.as_str())) },
            None => None,
        };
        let target = match &username {
            Some(u) => {
                let mut t = copy_chars(u);
                t.push('@');
                push_chars(&mut t, &host);
                t
            },
            None => copy_chars(&host),
        };
        let ghost flags = string_views(args@);
        push_string(&mut args, string_of(&target));
        push_owned(&mut args, "nginx -s reload || systemctl reload nginx || sudo systemctl reload nginx");
        let mut prefix = chars_of("Reloaded Nginx on ");
        push_chars(&mut prefix, &target);
        push_str(&mut prefix, ". ");
        let plan = ActionPlan {
            program: owned("ssh"),
            args,
            label: owned("ssh reload nginx"),
            summary_prefix: string_of(&prefix),
            required_file: required,
        };
        proof {
            let ho = crate::json::model_get_str(details@, "host"@);
            let (f, t, rq) = ssh_action_spec(profiles@[i as int], settings@, ho)->Ok_0;
            assert(t == target@);
            assert(flags =~= f);
            assert(string_views(plan.args@) =~= f + seq![t, nginx_reload_command()]);
        }
        Ok(plan)
    } else {
        let mut m = chars_of("Unsupported approval action: ");
        push_str(&mut m, action);
        Err(string_of(&m))
    }
}

/// A plan whose required file exists; otherwise the plan's message.
pub fn confirm_plan(plan: ActionPlan) -> (r: Result<ActionPlan, String>)
    ensures
        match r {
            Ok(p) => plan_view(p) == plan_view(plan),
            Err(e) => plan.required_file matches Some((_, m)) && e@ == m@,
        },
{
    let missing = match &plan.required_file {
        Some((f, m)) => if crate::system::path_exists(f.as_str()) { None } else { Some(m.clone()) },
        None => None,
    };
    match missing {
        Some(m) => Err(m),
        None => Ok(plan),
    }
}

/// The summary of an executed action: the plan's prefix and the command's output,
/// trimmed, sanitized and masked.
pub fn execution_summary(plan: &ActionPlan, stdout: &str) -> (r: String)
    ensures r@ == plan.summary_prefix@ + sanitize_and_mask(trim(stdout@)),
{
    let t = trim_str(stdout);
    let ts = string_of(&t);
    let clean = sanitize_and_mask_text(ts.as_str());
    let mut out = chars_of(plan.summary_prefix.as_str());
    push_str(&mut out, clean.as_str());
    string_of(&out)
}

/// The message of a failed command: its sanitized standard error, or its exit status when
/// it printed nothing.
pub open spec fn command_error_spec(prefix: Seq<char>, stderr: Seq<char>, status: Seq<char>) -> Seq<char> {
    let clean = sanitize_and_mask(trim(stderr));
    if clean.len() == 0 {
        prefix + " failed with status "@ + status + "."@
    } else {
        prefix + " failed: "@ + clean
    }
}

pub fn command_error(prefix: &str, stderr: &str, status: &str) -> (r: String)
    ensures r@ == command_error_spec(prefix@, stderr@, status@),
{
    let t = trim_str(stderr);
    let ts = string_of(&t);
    let clean = sanitize_and_mask_text(ts.as_str());
    let cv = chars_of(clean.as_str());
    let mut out = chars_of(prefix);
    if cv.len() == 0 {
        push_str(&mut out, " failed with status ");
        push_str(&mut out, status);
        push_str(&mut out, ".");
    } else {
        push_str(&mut out, " failed: ");
        push_chars(&mut out, &cv);
    }
    string_of(&out)
}

} // verus!
