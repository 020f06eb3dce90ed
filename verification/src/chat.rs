//! The chat copilot: its tool catalog, the prompt it sends to the model, the messages
//! that go with it, and the investigation context it may carry.
use vstd::prelude::*;

use crate::json::{json_get_str, model_get_str};
use crate::models::{ChatMessage, ConnectionProfile, QwenConfig, QwenMessage, ToolDefinition};
use crate::ssh::nonblank_opt;
use crate::text::{
    chars_of, copy_string, is_blank, is_blank_str, join, opt_view, owned, push_chars, push_str, string_of, trim,
    trim_str, views,
};

verus! {

// ---------------------------------------------------------------------------
// Tool catalog
// ---------------------------------------------------------------------------

/// The tools the copilot can point the user to: name, description, input hint.
pub open spec fn tool_spec(i: int) -> (Seq<char>, Seq<char>, Seq<char>) {
    if i == 0 {
        ("list_k8s_pods"@, "Inspect workload status and restart counts for a namespace."@,
            "{ environment, namespace, selector? }"@)
    } else if i == 1 {
        ("get_k8s_pod_logs"@, "Read recent Kubernetes pod logs for troubleshooting."@,
            "{ environment, namespace, podName, tailLines }"@)
    } else if i == 2 {
        ("list_k8s_events"@, "Inspect Kubernetes warning and normal events for a namespace or workload."@,
            "{ environment, namespace, involvedObject?, reason? }"@)
    } else if i == 3 {
        ("search_elk_logs"@, "Search ELK for errors, keywords, or trace IDs."@,
            "{ environment, service, timeRange, query }"@)
    } else if i == 4 {
        ("compare_nacos_config"@, "Compare Nacos config across environments and highlight drift."@,
            "{ sourceEnv, targetEnv, dataId, group, namespaceId? }"@)
    } else if i == 5 {
        ("inspect_ssh_host"@, "Run approved read-only server diagnostics and review host logs."@,
            "{ environment, host, commandPreset, logPath? }"@)
    } else if i == 6 {
        ("analyze_redis_instance"@, "Review Redis INFO health, slowlog, latency trends, and Redis log warnings."@,
            "{ environment, instanceName?, timeRange }"@)
    } else {
        ("analyze_tidb_slow_queries"@,
            "Collect TiDB slow SQL rows, summarize hot digests, and prepare them for LLM analysis."@,
            "{ environment, instanceName?, timeRange, slowQueryLimit? }"@)
    }
}

pub open spec fn tool_view(t: ToolDefinition) -> (Seq<char>, Seq<char>, Seq<char>) {
    (t.name@, t.description@, t.input_hint@)
}

fn tool(i: usize) -> (r: ToolDefinition)
    requires i < 8,
    ensures tool_view(r) == tool_spec(i as int),
{
    let (name, description, input_hint) = if i == 0 {
        ("list_k8s_pods", "Inspect workload status and restart counts for a namespace.",
            "{ environment, namespace, selector? }")
    } else if i == 1 {
        ("get_k8s_pod_logs", "Read recent Kubernetes pod logs for troubleshooting.",
            "{ environment, namespace, podName, tailLines }")
    } else if i == 2 {
        ("list_k8s_events", "Inspect Kubernetes warning and normal events for a namespace or workload.",
            "{ environment, namespace, involvedObject?, reason? }")
    } else if i == 3 {
        ("search_elk_logs", "Search ELK for errors, keywords, or trace IDs.",
            "{ environment, service, timeRange, query }")
    } else if i == 4 {
        ("compare_nacos_config", "Compare Nacos config across environments and highlight drift.",
            "{ sourceEnv, targetEnv, dataId, group, namespaceId? }")
    } else if i == 5 {
        ("inspect_ssh_host", "Run approved read-only server diagnostics and review host logs.",
            "{ environment, host, commandPreset, logPath? }")
    } else if i == 6 {
        ("analyze_redis_instance", "Review Redis INFO health, slowlog, latency trends, and Redis log warnings.",
            "{ environment, instanceName?, timeRange }")
    } else {
        ("analyze_tidb_slow_queries",
            "Collect TiDB slow SQL rows, summarize hot digests, and prepare them for LLM analysis.",
            "{ environment, instanceName?, timeRange, slowQueryLimit? }")
    };
    ToolDefinition { name: owned(name), description: owned(description), input_hint: owned(input_hint) }
}

/// `tool_catalog`: the eight tools, in their fixed order.
pub fn tool_catalog() -> (r: Vec<ToolDefinition>)
    ensures
        r@.len() == 8,
        forall|i: int| 0 <= i < 8 ==> tool_view(#[trigger] r@[i]) == tool_spec(i),
{
    let mut r: Vec<ToolDefinition> = Vec::new();
    let mut i: usize = 0;
    while i < 8
        invariant
            0 <= i <= 8,
            r@.len() == i,
            forall|j: int| 0 <= j < i ==> tool_view(#[trigger] r@[j]) == tool_spec(j),
        decreases 8 - i,
    {
        r.push(tool(i));
        i += 1;
    }
    r
}

// ---------------------------------------------------------------------------
// The prompt and the messages sent to the model
// ---------------------------------------------------------------------------

/// The catalog line of a tool: `- name: description hint`.
pub open spec fn tool_line(i: int) -> Seq<char> {
    "- "@ + tool_spec(i).0 + ": "@ + tool_spec(i).1 + " "@ + tool_spec(i).2
}

pub open spec fn tool_lines() -> Seq<Seq<char>> {
    Seq::new(8, |i: int| tool_line(i))
}

/// What `build_system_prompt` returns: the copilot's instructions for the environment, the
/// tool catalog one line per tool, and the investigation context where it is not blank.
pub open spec fn system_prompt_spec(environment_id: Seq<char>, context: Option<Seq<char>>) -> Seq<char> {
    let block = match context {
        Some(c) => if is_blank(c) { Seq::empty() } else { "\nActive investigation context:\n"@ + c },
        None => Seq::empty(),
    };
    "You are ADBCHelper, a desktop operations copilot.\nCurrent environment: "@ + environment_id
        + ".\nUse concise, evidence-driven answers.\nIf the user is asking to investigate something, mention which tool or data source should be used next from this catalog.\nTool catalog:\n"@
        + join(tool_lines(), "\n"@) + block
}

pub fn build_system_prompt(environment_id: &str, investigation_context: Option<&str>) -> (r: String)
    ensures
        r@ == system_prompt_spec(environment_id@, match investigation_context { Some(c) => Some(c@), None => None }),
{
    let tools = tool_catalog();
    let mut lines: Vec<Vec<char>> = Vec::new();
    let mut i: usize = 0;
    while i < tools.len()
        invariant
            tools@.len() == 8,
            forall|j: int| 0 <= j < 8 ==> tool_view(#[trigger] tools@[j]) == tool_spec(j),
            0 <= i <= 8,
            views(lines@) == tool_lines().take(i as int),
        decreases 8 - i,
    {
        let t = &tools[i];
        let mut line = chars_of("- ");
        push_str(&mut line, t.name.as_str());
        push_str(&mut line, ": ");
        push_str(&mut line, t.description.as_str());
        push_str(&mut line, " ");
        push_str(&mut line, t.input_hint.as_str());
        let ghost prev = lines@;
        lines.push(line);
        proof {
            assert(tool_view(tools@[i as int]) == tool_spec(i as int));
            assert(line@ =~= tool_line(i as int));
            assert(views(lines@) =~= views(prev).push(line@));
            assert(tool_lines().take(i + 1) =~= tool_lines().take(i as int).push(tool_line(i as int)));
            assert(views(lines@) =~= tool_lines().take(i + 1));
        }
        i += 1;
    }
    assert(tool_lines().take(8) =~= tool_lines());
    let catalog = crate::text::join_exec(&lines, "\n");
    let mut p = chars_of("You are ADBCHelper, a desktop operations copilot.\nCurrent environment: ");
    push_str(&mut p, environment_id);
    push_str(&mut p, ".\nUse concise, evidence-driven answers.\nIf the user is asking to investigate something, mention which tool or data source should be used next from this catalog.\nTool catalog:\n");
    push_chars(&mut p, &catalog);
    match investigation_context {
        Some(c) => {
            if !is_blank_str(c) {
                push_str(&mut p, "\nActive investigation context:\n");
                push_str(&mut p, c);
            }
        },
        None => {},
    }
    string_of(&p)
}

pub open spec fn qwen_message_view(m: QwenMessage) -> (Seq<char>, Seq<char>) {
    (m.role@, m.content@)
}

/// How many of the most recent messages go with the prompt.
pub open spec fn recent_window(n: int) -> int {
    if n < 8 { n } else { 8 }
}

/// `recent_messages_to_qwen_messages`: the system prompt, then the last eight messages of
/// the session (all of them when there are fewer) in their order.
pub fn recent_messages_to_qwen_messages(system_prompt: &str, messages: &[ChatMessage]) -> (r: Vec<QwenMessage>)
    ensures
        r@.len() == 1 + recent_window(messages@.len() as int),
        qwen_message_view(r@[0]) == ("system"@, system_prompt@),
        forall|j: int| 0 <= j < recent_window(messages@.len() as int) ==>
            qwen_message_view(#[trigger] r@[1 + j]) == (
                messages@[messages@.len() - recent_window(messages@.len() as int) + j].role@,
                messages@[messages@.len() - recent_window(messages@.len() as int) + j].content@,
            ),
{
    let mut r: Vec<QwenMessage> = Vec::new();
    r.push(QwenMessage { role: owned("system"), content: owned(system_prompt) });
    let n = messages.len();
    let start = if n < 8 { 0 } else { n - 8 };
    let mut i: usize = start;
    while i < n
        invariant
            n == messages@.len(),
            start == messages@.len() - recent_window(messages@.len() as int),
            start <= i <= n,
            r@.len() == 1 + (i - start),
            qwen_message_view(r@[0]) == ("system"@, system_prompt@),
            forall|j: int| 0 <= j < i - start ==>
                qwen_message_view(#[trigger] r@[1 + j]) == (messages@[start + j].role@, messages@[start + j].content@),
        decreases n - i,
    {
        r.push(QwenMessage { role: copy_string(&messages[i].role), content: copy_string(&messages[i].content) });
        i += 1;
    }
    r
}

// ---------------------------------------------------------------------------
// Session titles
// ---------------------------------------------------------------------------

/// The title of a new session: the first 48 characters of the trimmed message, with `...`
/// when it is longer; a blank message gets `Investigation` and the time.
pub open spec fn title_spec(content: Seq<char>, now_label: Seq<char>) -> Seq<char> {
    let t = trim(content);
    if t.len() == 0 {
        "Investigation "@ + now_label
    } else if t.len() > 48 {
        t.take(48) + "..."@
    } else {
        t
    }
}

/// `derive_title` given the current time as `%Y-%m-%d %H:%M`.
pub fn title_at(content: &str, now_label: &str) -> (r: String)
    ensures r@ == title_spec(content@, now_label@),
{
    let t = trim_str(content);
    if t.len() == 0 {
        let mut m = chars_of("Investigation ");
        push_str(&mut m, now_label);
        return string_of(&m);
    }
    if t.len() > 48 {
        let mut p = crate::text::slice_chars(&t, 0, 48);
        push_str(&mut p, "...");
        assert(p@ =~= t@.take(48) + "..."@);
        string_of(&p)
    } else {
        string_of(&t)
    }
}

/// `Utc::now().format("%Y-%m-%d %H:%M")`: it reads the clock, so nothing is stated of it.
#[verifier::external_body]
fn utc_now_minute() -> String {
    chrono::Utc::now().format("%Y-%m-%d %H:%M").to_string()
}

/// `derive_title`: the title of a new session, with the current time for a blank message.
pub fn derive_title(content: &str) -> (r: String)
    ensures
        !is_blank(content@) ==> r@ == title_spec(content@, Seq::empty()),
        is_blank(content@) ==> exists|now: Seq<char>| r@ == #[trigger] title_spec(content@, now),
{
    let now = utc_now_minute();
    let r = title_at(content, now.as_str());
    proof {
        if is_blank(content@) {
            assert(r@ == title_spec(content@, now@));
        }
    }
    r
}

// ---------------------------------------------------------------------------
// The request to the model
// ---------------------------------------------------------------------------

/// The model settings of a Qwen profile: `appKey` (required), `contentType` (default
/// `application/json`), `basePath` (default `/chat/completions`), each taken only when not
/// blank, and the model from the default scope (default `qwen-plus`).
pub open spec fn qwen_settings_spec(profile: ConnectionProfile)
    -> Result<(Seq<char>, Seq<char>, Seq<char>, Seq<char>), Seq<char>>
{
    let settings = crate::redis::profile_settings_model(profile.config_json@);
    match nonblank_opt(model_get_str(settings, "appKey"@)) {
        None => Err("Qwen app_key missing for profile '"@ + profile.name@ + "'. Fill in App key in Settings."@),
        Some(app_key) => {
            let content_type = match nonblank_opt(model_get_str(settings, "contentType"@)) {
                Some(v) => v,
                None => "application/json"@,
            };
            let base_path = match nonblank_opt(model_get_str(settings, "basePath"@)) {
                Some(v) => v,
                None => "/chat/completions"@,
            };
            let model = match nonblank_opt(opt_view(profile.default_scope)) {
                Some(v) => v,
                None => "qwen-plus"@,
            };
            Ok((app_key, content_type, base_path, model))
        },
    }
}

fn nonblank_setting(settings: &crate::json::JsonValue, key: &str) -> (r: Option<Vec<char>>)
    ensures
        match r {
            Some(v) => nonblank_opt(model_get_str(settings@, key@)) == Some(v@),
            None => nonblank_opt(model_get_str(settings@, key@)) is None,
        },
{
    match json_get_str(settings, key) {
        Some(v) => if crate::text::is_blank_exec(&v) { None } else { Some(v) },
        None => None,
    }
}

pub open spec fn qwen_config_view(c: QwenConfig) -> (Seq<char>, Seq<char>, Seq<char>, Seq<char>, Seq<char>, Seq<char>) {
    (c.base_url@, c.base_path@, c.app_key@, c.app_secret@, c.model@, c.content_type@)
}

/// The model settings of the profile with its secret, ready for the request.
pub fn qwen_config(profile: &ConnectionProfile, app_secret: String) -> (r: Result<QwenConfig, String>)
    ensures
        match r {
            Ok(c) => qwen_settings_spec(*profile) matches Ok((k, ct, bp, m))
                && qwen_config_view(c) == (profile.endpoint@, bp, k, app_secret@, m, ct),
            Err(e) => qwen_settings_spec(*profile) == Err::<(Seq<char>, Seq<char>, Seq<char>, Seq<char>), Seq<char>>(e@),
        },
{
    let settings = crate::profiles::profile_settings(profile);
    let app_key = match nonblank_setting(&settings, "appKey") {
        Some(v) => v,
        None => {
            let mut m = chars_of("Qwen app_key missing for profile '");
            push_str(&mut m, profile.name.as_str());
            push_str(&mut m, "'. Fill in App key in Settings.");
            return Err(string_of(&m));
        },
    };
    let content_type = match nonblank_setting(&settings, "contentType") {
        Some(v) => string_of(&v),
        None => owned("application/json"),
    };
    let base_path = match nonblank_setting(&settings, "basePath") {
        Some(v) => string_of(&v),
        None => owned("/chat/completions"),
    };
    let model = match &profile.default_scope {
        Some(d) => if is_blank_str(d.as_str()) { owned("qwen-plus") } else { copy_string(d) },
        None => owned("qwen-plus"),
    };
    Ok(QwenConfig {
        base_url: copy_string(&profile.endpoint),
        base_path,
        app_key: string_of(&app_key),
        app_secret,
        model,
        content_type,
    })
}

/// The role and content of each message of a request.
pub open spec fn qwen_message_views(ms: Seq<QwenMessage>) -> Seq<(Seq<char>, Seq<char>)> {
    ms.map_values(|m: QwenMessage| qwen_message_view(m))
}

/// The messages of a request: the system prompt, then the recent messages of the session.
pub open spec fn prompt_views(system_prompt: Seq<char>, messages: Seq<ChatMessage>) -> Seq<(Seq<char>, Seq<char>)> {
    let w = recent_window(messages.len() as int);
    seq![("system"@, system_prompt)] + Seq::new(w as nat, |j: int|
        (messages[messages.len() - w + j].role@, messages[messages.len() - w + j].content@))
}

/// The request of a chat turn to the model, once the profile's secret is loaded: the model
/// settings of the profile, and the system prompt for the environment (with the
/// investigation context) followed by the recent messages.
pub fn chat_request(profile: &ConnectionProfile, app_secret: String, environment_id: &str,
    investigation_context: Option<&str>, messages: &[ChatMessage]) -> (r: Result<(QwenConfig, Vec<QwenMessage>), String>)
    ensures
        match r {
            Ok((c, ms)) => qwen_settings_spec(*profile) matches Ok((k, ct, bp, m))
                && qwen_config_view(c) == (profile.endpoint@, bp, k, app_secret@, m, ct)
                && qwen_message_views(ms@) == prompt_views(system_prompt_spec(environment_id@,
                    match investigation_context { Some(x) => Some(x@), None => None }), messages@),
            Err(e) => qwen_settings_spec(*profile) == Err::<(Seq<char>, Seq<char>, Seq<char>, Seq<char>), Seq<char>>(e@),
        },
{
    let config = match qwen_config(profile, app_secret) {
        Ok(c) => c,
        Err(e) => return Err(e),
    };
    let prompt = build_system_prompt(environment_id, investigation_context);
    let ms = recent_messages_to_qwen_messages(prompt.as_str(), messages);
    proof {
        let w = recent_window(messages@.len() as int);
        assert(qwen_message_views(ms@) =~= prompt_views(prompt@, messages@)) by {
            assert forall|j: int| 0 <= j < ms@.len() implies qwen_message_views(ms@)[j] == prompt_views(prompt@, messages@)[j] by {
                if j > 0 {
                    assert(qwen_message_view(ms@[1 + (j - 1)]) == (messages@[messages@.len() - w + (j - 1)].role@,
                        messages@[messages@.len() - w + (j - 1)].content@));
                }
            }
        }
    }
    Ok((config, ms))
}

/// The message when the profile has no stored secret.
pub open spec fn missing_secret_spec(profile: ConnectionProfile) -> Seq<char> {
    "Qwen secret missing for profile '"@ + profile.name@ + "' ("@ + profile.id@
        + "). Re-enter app_secret in Settings on this machine. Keychain entries do not move with the SQLite database."@
}

pub fn missing_secret_message(profile: &ConnectionProfile) -> (r: String)
    ensures r@ == missing_secret_spec(*profile),
{
    let mut m = chars_of("Qwen secret missing for profile '");
    push_str(&mut m, profile.name.as_str());
    push_str(&mut m, "' (");
    push_str(&mut m, profile.id.as_str());
    push_str(&mut m, "). Re-enter app_secret in Settings on this machine. Keychain entries do not move with the SQLite database.");
    string_of(&m)
}

/// `'{prefix}' for profile '{name}': {error}` messages of the model request.
pub fn profile_failure_message(prefix: &str, profile: &ConnectionProfile, error: &str) -> (r: String)
    ensures r@ == prefix@ + " for profile '"@ + profile.name@ + "': "@ + error@,
{
    let mut m = chars_of(prefix);
    push_str(&mut m, " for profile '");
    push_str(&mut m, profile.name.as_str());
    push_str(&mut m, "': ");
    push_str(&mut m, error);
    string_of(&m)
}

// ---------------------------------------------------------------------------
// The investigation context of a message
// ---------------------------------------------------------------------------

use crate::investigations::{
    append_row, append_rows, correlation_models, evidence_models, of_type, pair_row, pair_rows, select_type,
    CorrelationModel, EvidenceModel,
};
use crate::models::{InvestigationCorrelation, InvestigationEvidence, InvestigationSummary};
use crate::hardening::{sanitize_and_mask, sanitize_and_mask_text};
use crate::text::decimal;

/// Kubernetes evidence matched with Nacos drift, then with logs, one Kubernetes item at a time.
pub open spec fn context_k8s_rows(ks: Seq<EvidenceModel>, ns: Seq<EvidenceModel>, ls: Seq<EvidenceModel>) -> Seq<CorrelationModel>
    decreases ks.len(),
{
    if ks.len() == 0 {
        Seq::empty()
    } else {
        context_k8s_rows(ks.drop_last(), ns, ls) + pair_row(3, ks.last(), ns) + pair_row(4, ks.last(), ls)
    }
}

/// What `build_investigation_correlations` returns: for each Kubernetes item its matches
/// with Nacos drift and then with logs, followed by the matches of logs with SSH diagnostics.
pub open spec fn context_correlations_spec(ev: Seq<EvidenceModel>) -> Seq<CorrelationModel> {
    let ks = of_type(ev, "kubernetes_events"@);
    let ns = of_type(ev, "nacos_diff"@);
    let ls = of_type(ev, "log_search"@);
    let ss = of_type(ev, "ssh_diagnostics"@);
    context_k8s_rows(ks, ns, ls) + pair_rows(5, ls, ss)
}

pub fn build_investigation_correlations(evidence: &[InvestigationEvidence]) -> (r: Vec<InvestigationCorrelation>)
    ensures correlation_models(r@) == context_correlations_spec(evidence_models(evidence@)),
{
    let kubernetes = select_type(evidence, "kubernetes_events");
    let nacos = select_type(evidence, "nacos_diff");
    let logs = select_type(evidence, "log_search");
    let ssh = select_type(evidence, "ssh_diagnostics");
    let ghost km = evidence_models(kubernetes@);
    let ghost nm = evidence_models(nacos@);
    let ghost lm = evidence_models(logs@);
    let mut out: Vec<InvestigationCorrelation> = Vec::new();
    let mut i: usize = 0;
    assert(correlation_models(out@) =~= context_k8s_rows(km.take(0), nm, lm));
    while i < kubernetes.len()
        invariant
            0 <= i <= kubernetes@.len(),
            km == evidence_models(kubernetes@),
            nm == evidence_models(nacos@),
            lm == evidence_models(logs@),
            correlation_models(out@) == context_k8s_rows(km.take(i as int), nm, lm),
        decreases kubernetes@.len() - i,
    {
        assert(km.take(i + 1).drop_last() =~= km.take(i as int));
        assert(km.take(i + 1).last() == kubernetes@[i as int]@);
        append_row(3, &kubernetes[i], &nacos, &mut out);
        append_row(4, &kubernetes[i], &logs, &mut out);
        i += 1;
    }
    assert(km.take(kubernetes@.len() as int) =~= km);
    append_rows(5, &logs, &ssh, &mut out);
    out
}

/// Whether evidence is of none of the types that the correlations of a context read.
pub open spec fn uncorrelated_type(e: EvidenceModel) -> bool {
    e.evidence_type != "kubernetes_events"@ && e.evidence_type != "nacos_diff"@
        && e.evidence_type != "log_search"@ && e.evidence_type != "ssh_diagnostics"@
}

proof fn lemma_of_type_concat(a: Seq<EvidenceModel>, b: Seq<EvidenceModel>, ty: Seq<char>)
    ensures of_type(a + b, ty) == of_type(a, ty) + of_type(b, ty),
    decreases b.len(),
{
    if b.len() == 0 {
        assert(a + b =~= a);
        assert(of_type(a, ty) + of_type(b, ty) =~= of_type(a, ty));
    } else {
        assert((a + b).drop_last() =~= a + b.drop_last());
        assert((a + b).last() == b.last());
        lemma_of_type_concat(a, b.drop_last(), ty);
        if b.last().evidence_type == ty {
            assert(of_type(a, ty) + of_type(b.drop_last(), ty).push(b.last())
                =~= (of_type(a, ty) + of_type(b.drop_last(), ty)).push(b.last()));
        }
    }
}

proof fn lemma_of_type_insert(ev: Seq<EvidenceModel>, i: int, x: EvidenceModel, ty: Seq<char>)
    requires 0 <= i <= ev.len(), x.evidence_type != ty,
    ensures of_type(ev.insert(i, x), ty) == of_type(ev, ty),
{
    let a = ev.take(i);
    let b = ev.skip(i);
    assert(ev.insert(i, x) =~= (a + seq![x]) + b);
    assert(ev =~= a + b);
    lemma_of_type_concat(a + seq![x], b, ty);
    lemma_of_type_concat(a, seq![x], ty);
    lemma_of_type_concat(a, b, ty);
    assert(seq![x].drop_last() =~= Seq::<EvidenceModel>::empty());
    assert(of_type(Seq::<EvidenceModel>::empty(), ty) =~= Seq::<EvidenceModel>::empty());
    assert(of_type(seq![x], ty) =~= Seq::<EvidenceModel>::empty());
    assert(of_type(a, ty) + Seq::<EvidenceModel>::empty() =~= of_type(a, ty));
}

/// Evidence of other types does not change the correlations of a context: inserting an
/// item whose type is none of `kubernetes_events`, `nacos_diff`, `log_search` and
/// `ssh_diagnostics`, or removing such an item, leaves the correlations as they were.
pub proof fn law_context_correlations_ignore_other_evidence(ev: Seq<EvidenceModel>, i: int, x: EvidenceModel)
    ensures
        0 <= i <= ev.len() && uncorrelated_type(x) ==> context_correlations_spec(ev.insert(i, x))
            == context_correlations_spec(ev),
        0 <= i < ev.len() && uncorrelated_type(ev[i]) ==> context_correlations_spec(ev.remove(i))
            == context_correlations_spec(ev),
{
    if 0 <= i <= ev.len() && uncorrelated_type(x) {
        lemma_of_type_insert(ev, i, x, "kubernetes_events"@);
        lemma_of_type_insert(ev, i, x, "nacos_diff"@);
        lemma_of_type_insert(ev, i, x, "log_search"@);
        lemma_of_type_insert(ev, i, x, "ssh_diagnostics"@);
    }
    if 0 <= i < ev.len() && uncorrelated_type(ev[i]) {
        let r = ev.remove(i);
        assert(r.insert(i, ev[i]) =~= ev);
        lemma_of_type_insert(r, i, ev[i], "kubernetes_events"@);
        lemma_of_type_insert(r, i, ev[i], "nacos_diff"@);
        lemma_of_type_insert(r, i, ev[i], "log_search"@);
        lemma_of_type_insert(r, i, ev[i], "ssh_diagnostics"@);
    }
}

/// What `compact_json_for_model` returns: the sanitized document pretty-printed (the
/// sanitized text itself when it is not JSON), cut to `max_chars` characters with a
/// truncation mark.
pub open spec fn compact_json_spec(content_json: Seq<char>, max_chars: nat) -> Seq<char> {
    let clean = crate::hardening::sanitize_and_mask_json_spec(content_json);
    let compact = match crate::json::spec_parse_json(clean) {
        Some(v) => crate::json::spec_render_json_pretty(v),
        None => clean,
    };
    if compact.len() <= max_chars { compact } else { compact.take(max_chars as int) + "\n...[truncated]"@ }
}

pub fn compact_json_for_model(content_json: &str, max_chars: usize) -> (r: String)
    ensures r@ == compact_json_spec(content_json@, max_chars as nat),
{
    let clean = crate::hardening::sanitize_and_mask_json(content_json);
    let compact = match crate::json::parse_json(clean.as_str()) {
        Some(v) => crate::json::render_json_pretty(&v),
        None => clean,
    };
    let cv = chars_of(compact.as_str());
    if cv.len() <= max_chars {
        compact
    } else {
        let mut t = crate::text::slice_chars(&cv, 0, max_chars);
        push_str(&mut t, "\n...[truncated]");
        assert(t@ =~= cv@.take(max_chars as int) + "\n...[truncated]"@);
        string_of(&t)
    }
}

/// What `render_evidence_block` returns for one evidence item.
pub open spec fn evidence_block_spec(e: EvidenceModel) -> Seq<char> {
    "Evidence: "@ + sanitize_and_mask(e.title) + "\nType: "@ + sanitize_and_mask(e.evidence_type)
        + "\nSummary: "@ + sanitize_and_mask(e.summary) + "\nContent:\n"@ + compact_json_spec(e.content_json, 900)
}

pub fn render_evidence_block(item: &InvestigationEvidence) -> (r: Vec<char>)
    ensures r@ == evidence_block_spec(item@),
{
    let compact = compact_json_for_model(item.content_json.as_str(), 900);
    let mut m = chars_of("Evidence: ");
    push_str(&mut m, sanitize_and_mask_text(item.title.as_str()).as_str());
    push_str(&mut m, "\nType: ");
    push_str(&mut m, sanitize_and_mask_text(item.evidence_type.as_str()).as_str());
    push_str(&mut m, "\nSummary: ");
    push_str(&mut m, sanitize_and_mask_text(item.summary.as_str()).as_str());
    push_str(&mut m, "\nContent:\n");
    push_str(&mut m, compact.as_str());
    m
}

pub open spec fn timeline_line(e: EvidenceModel) -> Seq<char> {
    "- "@ + e.created_at + " | "@ + sanitize_and_mask(e.evidence_type) + " | "@ + sanitize_and_mask(e.title)
}

pub open spec fn correlation_line(c: CorrelationModel) -> Seq<char> {
    "- ["@ + sanitize_and_mask(c.confidence) + "] "@ + sanitize_and_mask(c.title) + ": "@ + sanitize_and_mask(c.detail)
}

pub open spec fn at_most(n: int, k: int) -> int {
    if n < k { n } else { k }
}

/// What `render_investigation_context` returns: the investigation's title and status, the
/// number of evidence items, the first six as a timeline, the first four correlations and
/// the first four evidence excerpts.
pub open spec fn investigation_context_spec(title: Seq<char>, status: Seq<char>, ev: Seq<EvidenceModel>,
    correlations: Seq<CorrelationModel>) -> Seq<char>
{
    let timeline = join(Seq::new(at_most(ev.len() as int, 6) as nat, |i: int| timeline_line(ev[i])), "\n"@);
    let blocks = join(Seq::new(at_most(ev.len() as int, 4) as nat, |i: int| evidence_block_spec(ev[i])), "\n\n"@);
    let corr = if correlations.len() == 0 {
        "- none"@
    } else {
        join(Seq::new(at_most(correlations.len() as int, 4) as nat, |i: int| correlation_line(correlations[i])), "\n"@)
    };
    "Investigation: "@ + sanitize_and_mask(title) + "\nStatus: "@ + sanitize_and_mask(status) + "\nEvidence count: "@
        + decimal(ev.len()) + "\nRecent timeline:\n"@ + (if timeline.len() == 0 { "- none"@ } else { timeline })
        + "\n\nCross-source correlation:\n"@ + corr + "\n\nEvidence excerpts:\n"@
        + (if blocks.len() == 0 { "- No evidence saved yet."@ } else { blocks })
}

pub fn render_investigation_context(investigation: &InvestigationSummary, evidence: &[InvestigationEvidence],
    correlations: &[InvestigationCorrelation]) -> (r: String)
    ensures
        r@ == investigation_context_spec(investigation.title@, investigation.status@, evidence_models(evidence@),
            correlation_models(correlations@)),
{
    let ghost em = evidence_models(evidence@);
    let ghost cm = correlation_models(correlations@);
    let n6 = if evidence.len() < 6 { evidence.len() } else { 6 };
    let mut lines: Vec<Vec<char>> = Vec::new();
    let mut i: usize = 0;
    while i < n6
        invariant
            n6 == at_most(evidence@.len() as int, 6),
            0 <= i <= n6,
            em == evidence_models(evidence@),
            views(lines@) == Seq::new(i as nat, |q: int| timeline_line(em[q])),
        decreases n6 - i,
    {
        let e = &evidence[i];
        let mut l = chars_of("- ");
        push_str(&mut l, e.created_at.as_str());
        push_str(&mut l, " | ");
        push_str(&mut l, sanitize_and_mask_text(e.evidence_type.as_str()).as_str());
        push_str(&mut l, " | ");
        push_str(&mut l, sanitize_and_mask_text(e.title.as_str()).as_str());
        let ghost prev = lines@;
        lines.push(l);
        assert(em[i as int] == evidence@[i as int]@);
        assert(l@ == timeline_line(em[i as int]));
        assert(views(lines@) =~= views(prev).push(l@));
        assert(views(lines@) =~= Seq::new((i + 1) as nat, |q: int| timeline_line(em[q])));
        i += 1;
    }
    let timeline = crate::text::join_exec(&lines, "\n");
    let n4 = if evidence.len() < 4 { evidence.len() } else { 4 };
    let mut blocks: Vec<Vec<char>> = Vec::new();
    let mut i: usize = 0;
    while i < n4
        invariant
            n4 == at_most(evidence@.len() as int, 4),
            0 <= i <= n4,
            em == evidence_models(evidence@),
            views(blocks@) == Seq::new(i as nat, |q: int| evidence_block_spec(em[q])),
        decreases n4 - i,
    {
        let b = render_evidence_block(&evidence[i]);
        let ghost prev = blocks@;
        blocks.push(b);
        assert(em[i as int] == evidence@[i as int]@);
        assert(views(blocks@) =~= views(prev).push(b@));
        assert(views(blocks@) =~= Seq::new((i + 1) as nat, |q: int| evidence_block_spec(em[q])));
        i += 1;
    }
    let joined_blocks = crate::text::join_exec(&blocks, "\n\n");
    let corr_text = if correlations.len() == 0 {
        chars_of("- none")
    } else {
        let c4 = if correlations.len() < 4 { correlations.len() } else { 4 };
        let mut cl: Vec<Vec<char>> = Vec::new();
        let mut j: usize = 0;
        while j < c4
            invariant
                c4 == at_most(correlations@.len() as int, 4),
                0 <= j <= c4,
                cm == correlation_models(correlations@),
                views(cl@) == Seq::new(j as nat, |q: int| correlation_line(cm[q])),
            decreases c4 - j,
        {
            let c = &correlations[j];
            let mut l = chars_of("- [");
            push_str(&mut l, sanitize_and_mask_text(c.confidence.as_str()).as_str());
            push_str(&mut l, "] ");
            push_str(&mut l, sanitize_and_mask_text(c.title.as_str()).as_str());
            push_str(&mut l, ": ");
            push_str(&mut l, sanitize_and_mask_text(c.detail.as_str()).as_str());
            let ghost prev = cl@;
            cl.push(l);
            assert(cm[j as int] == correlations@[j as int]@);
            assert(l@ == correlation_line(cm[j as int]));
            assert(views(cl@) =~= views(prev).push(l@));
            assert(views(cl@) =~= Seq::new((j + 1) as nat, |q: int| correlation_line(cm[q])));
            j += 1;
        }
        crate::text::join_exec(&cl, "\n")
    };
    let mut m = chars_of("Investigation: ");
    push_str(&mut m, sanitize_and_mask_text(investigation.title.as_str()).as_str());
    push_str(&mut m, "\nStatus: ");
    push_str(&mut m, sanitize_and_mask_text(investigation.status.as_str()).as_str());
    push_str(&mut m, "\nEvidence count: ");
    crate::text::push_decimal(&mut m, evidence.len() as u64);
    push_str(&mut m, "\nRecent timeline:\n");
    if timeline.len() == 0 {
        push_str(&mut m, "- none");
    } else {
        push_chars(&mut m, &timeline);
    }
    push_str(&mut m, "\n\nCross-source correlation:\n");
    push_chars(&mut m, &corr_text);
    push_str(&mut m, "\n\nEvidence excerpts:\n");
    if joined_blocks.len() == 0 {
        push_str(&mut m, "- No evidence saved yet.");
    } else {
        push_chars(&mut m, &joined_blocks);
    }
    string_of(&m)
}

/// The id of the investigation a message refers to: trimmed, when not blank.
pub fn context_investigation_id(investigation_id: &Option<String>) -> (r: Option<String>)
    ensures
        opt_view(r) == match opt_view(*investigation_id) {
            Some(v) => if trim(v).len() > 0 { Some(trim(v)) } else { None },
            None => None,
        },
{
    match investigation_id {
        Some(v) => {
            let t = trim_str(v.as_str());
            if t.len() > 0 { Some(string_of(&t)) } else { None }
        },
        None => None,
    }
}

/// The evidence items whose id is among the selected ids, in their order.
pub open spec fn selected_evidence(ev: Seq<EvidenceModel>, ids: Seq<Seq<char>>) -> Seq<EvidenceModel>
    decreases ev.len(),
{
    if ev.len() == 0 {
        Seq::empty()
    } else {
        let prev = selected_evidence(ev.drop_last(), ids);
        if ids.contains(ev.last().id) { prev.push(ev.last()) } else { prev }
    }
}

/// What `build_investigation_context` does once the investigation and its evidence are
/// loaded: it refuses an investigation of another environment, keeps the selected evidence
/// when ids are selected (refusing a selection that matches nothing), and renders the context.
pub open spec fn context_spec(investigation: InvestigationSummary, environment_id: Seq<char>, ev: Seq<EvidenceModel>,
    selected: Option<Seq<Seq<char>>>) -> Result<Seq<char>, Seq<char>>
{
    if investigation.environment_id@ != environment_id {
        Err("Investigation "@ + investigation.title@ + " belongs to environment "@ + investigation.environment_id@
            + ", not "@ + environment_id + "."@)
    } else {
        let ids = crate::investigations::trimmed_nonempty(match selected { Some(s) => s, None => Seq::empty() });
        let kept = if ids.len() > 0 { selected_evidence(ev, ids) } else { ev };
        if ids.len() > 0 && kept.len() == 0 {
            Err("None of the selected evidence items were found in this investigation."@)
        } else {
            Ok(investigation_context_spec(investigation.title@, investigation.status@, kept,
                context_correlations_spec(kept)))
        }
    }
}

fn selected_ids(selected: &Option<Vec<String>>) -> (r: Vec<Vec<char>>)
    ensures
        views(r@) == crate::investigations::trimmed_nonempty(match selected {
            Some(s) => crate::text::string_views(s@),
            None => Seq::empty(),
        }),
{
    let mut r: Vec<Vec<char>> = Vec::new();
    match selected {
        Some(items) => {
            let ghost sv = crate::text::string_views(items@);
            let mut i: usize = 0;
            while i < items.len()
                invariant
                    0 <= i <= items@.len(),
                    sv == crate::text::string_views(items@),
                    views(r@) == crate::investigations::trimmed_nonempty(sv.take(i as int)),
                decreases items@.len() - i,
            {
                assert(sv.take(i + 1).drop_last() =~= sv.take(i as int));
                assert(sv.take(i + 1).last() == items@[i as int]@);
                let t = trim_str(items[i].as_str());
                if t.len() > 0 {
                    let ghost prev = r@;
                    r.push(t);
                    assert(views(r@) =~= views(prev).push(t@));
                }
                i += 1;
            }
            assert(sv.take(items@.len() as int) =~= sv);
        },
        None => {
            assert(views(r@) =~= crate::investigations::trimmed_nonempty(Seq::empty()));
        },
    }
    r
}

fn id_selected(ids: &Vec<Vec<char>>, id: &str) -> (r: bool)
    ensures r == views(ids@).contains(id@),
{
    let idv = chars_of(id);
    let mut i: usize = 0;
    while i < ids.len()
        invariant
            0 <= i <= ids@.len(),
            idv@ == id@,
            forall|q: int| 0 <= q < i ==> views(ids@)[q] != id@,
        decreases ids@.len() - i,
    {
        if crate::text::chars_eq(&ids[i], &idv) {
            assert(views(ids@)[i as int] == id@);
            return true;
        }
        i += 1;
    }
    false
}

/// `build_investigation_context` once the investigation and its evidence are loaded.
#[verifier::rlimit(40)]
pub fn investigation_context(investigation: &InvestigationSummary, environment_id: &str,
    evidence: &[InvestigationEvidence], selected: &Option<Vec<String>>) -> (r: Result<String, String>)
    ensures
        match r {
            Ok(c) => context_spec(*investigation, environment_id@, evidence_models(evidence@),
                match selected { Some(s) => Some(crate::text::string_views(s@)), None => None })
                == Ok::<Seq<char>, Seq<char>>(c@),
            Err(e) => context_spec(*investigation, environment_id@, evidence_models(evidence@),
                match selected { Some(s) => Some(crate::text::string_views(s@)), None => None })
                == Err::<Seq<char>, Seq<char>>(e@),
        },
{
    if !crate::text::str_eq(investigation.environment_id.as_str(), environment_id) {
        let mut m = chars_of("Investigation ");
        push_str(&mut m, investigation.title.as_str());
        push_str(&mut m, " belongs to environment ");
        push_str(&mut m, investigation.environment_id.as_str());
        push_str(&mut m, ", not ");
        push_str(&mut m, environment_id);
        push_str(&mut m, ".");
        return Err(string_of(&m));
    }
    let ids = selected_ids(selected);
    let ghost em = evidence_models(evidence@);
    let mut kept: Vec<InvestigationEvidence> = Vec::new();
    let mut i: usize = 0;
    while i < evidence.len()
        invariant
            0 <= i <= evidence@.len(),
            em == evidence_models(evidence@),
            ids.len() > 0 ==> evidence_models(kept@) == selected_evidence(em.take(i as int), views(ids@)),
            ids.len() == 0 ==> evidence_models(kept@) == em.take(i as int),
        decreases evidence@.len() - i,
    {
        assert(em.take(i + 1).drop_last() =~= em.take(i as int));
        assert(em.take(i + 1).last() == evidence@[i as int]@);
        if ids.len() == 0 || id_selected(&ids, evidence[i].id.as_str()) {
            let ghost prev = kept@;
            kept.push(crate::investigations::copy_evidence(&evidence[i]));
            assert(evidence_models(kept@) =~= evidence_models(prev).push(evidence@[i as int]@));
        }
        i += 1;
    }
    assert(em.take(evidence@.len() as int) =~= em);
    let ghost sel = match selected { Some(s) => Some(crate::text::string_views(s@)), None => None };
    let ghost kept_spec = if views(ids@).len() > 0 { selected_evidence(em, views(ids@)) } else { em };
    assert(evidence_models(kept@) == kept_spec);
    if ids.len() > 0 && kept.len() == 0 {
        return Err(owned("None of the selected evidence items were found in this investigation."));
    }
    let correlations = build_investigation_correlations(&kept);
    let r = render_investigation_context(investigation, &kept, &correlations);
    assert(context_spec(*investigation, environment_id@, em, sel) == Ok::<Seq<char>, Seq<char>>(r@));
    Ok(r)
}

} // verus!
