//! Kubernetes events: the kubectl command that lists them, the filters applied to what it
//! returns, and the summary of the events kept.
use vstd::prelude::*;

use crate::json::json_get_str;
use crate::models::{
    ConnectionProfile, KubernetesEvent, KubernetesEventsSummary, ListKubernetesEventsInput, ListKubernetesEventsResponse,
};
use crate::ssh::nonblank_trimmed_opt;
use crate::text::{
    chars_of, contains, contains_exec, copy_string, is_blank, is_blank_str, lower, opt_view, owned, push_str,
    string_of, string_views, to_lower, trim, trim_exec, trim_str,
};

verus! {

// ---------------------------------------------------------------------------
// The kubectl settings of a profile and the command
// ---------------------------------------------------------------------------

/// The kubectl settings of a Kubernetes profile.
pub struct KubernetesProfileConfig {
    pub kubeconfig_path: Option<String>,
    pub context: Option<String>,
}

/// What `from_profile` reads: `kubeconfigPath` and `context`, trimmed, when not blank; a
/// profile with neither a kubeconfig nor an endpoint is refused.
pub open spec fn kube_config_spec(profile: ConnectionProfile) -> Result<(Option<Seq<char>>, Option<Seq<char>>), Seq<char>> {
    let settings = crate::redis::profile_settings_model(profile.config_json@);
    let kubeconfig = nonblank_trimmed_opt(crate::json::model_get_str(settings, "kubeconfigPath"@));
    let context = nonblank_trimmed_opt(crate::json::model_get_str(settings, "context"@));
    if kubeconfig is None && is_blank(profile.endpoint@) {
        Err("Kubernetes profile requires kubeconfigPath in Extra JSON for local kubectl execution."@)
    } else {
        Ok((kubeconfig, context))
    }
}

fn trimmed_setting(settings: &crate::json::JsonValue, key: &str) -> (r: Option<String>)
    ensures opt_view(r) == nonblank_trimmed_opt(crate::json::model_get_str(settings@, key@)),
{
    match json_get_str(settings, key) {
        Some(v) => if crate::text::is_blank_exec(&v) { None } else { Some(string_of(&trim_exec(&v))) },
        None => None,
    }
}

impl KubernetesProfileConfig {
    pub fn from_profile(profile: &ConnectionProfile) -> (r: Result<KubernetesProfileConfig, String>)
        ensures
            match r {
                Ok(c) => kube_config_spec(*profile) == Ok::<_, Seq<char>>((opt_view(c.kubeconfig_path), opt_view(c.context))),
                Err(e) => kube_config_spec(*profile) == Err::<(Option<Seq<char>>, Option<Seq<char>>), Seq<char>>(e@),
            },
    {
        let settings = crate::profiles::profile_settings(profile);
        let kubeconfig_path = trimmed_setting(&settings, "kubeconfigPath");
        let context = trimmed_setting(&settings, "context");
        if kubeconfig_path.is_none() && is_blank_str(profile.endpoint.as_str()) {
            return Err(owned("Kubernetes profile requires kubeconfigPath in Extra JSON for local kubectl execution."));
        }
        Ok(KubernetesProfileConfig { kubeconfig_path, context })
    }
}

/// The arguments of `kubectl get events` for a namespace.
pub open spec fn events_args_spec(kubeconfig: Option<Seq<char>>, context: Option<Seq<char>>, namespace: Seq<char>) -> Seq<Seq<char>> {
    (match kubeconfig { Some(p) => seq!["--kubeconfig"@, p], None => Seq::empty() })
        + (match context { Some(c) => seq!["--context"@, c], None => Seq::empty() })
        + seq!["get"@, "events"@, "-n"@, namespace, "--sort-by=.lastTimestamp"@, "-o"@, "json"@]
}

fn push_arg(args: &mut Vec<String>, s: &str)
    ensures string_views(final(args)@) == string_views(old(args)@).push(s@),
{
    let ghost before = args@;
    args.push(owned(s));
    assert(string_views(args@) =~= string_views(before).push(s@));
}

/// The arguments of the events command, once the configured kubeconfig is found on disk.
pub fn events_command(config: &KubernetesProfileConfig, namespace: &str) -> (r: Result<Vec<String>, String>)
    ensures
        match r {
            Ok(args) => string_views(args@) == events_args_spec(opt_view(config.kubeconfig_path), opt_view(config.context), namespace@),
            Err(e) => config.kubeconfig_path matches Some(p)
                && e@ == "Configured kubeconfigPath does not exist: "@ + p@,
        },
{
    let mut args: Vec<String> = Vec::new();
    match &config.kubeconfig_path {
        Some(p) => {
            if !crate::system::path_exists(p.as_str()) {
                let mut m = chars_of("Configured kubeconfigPath does not exist: ");
                push_str(&mut m, p.as_str());
                return Err(string_of(&m));
            }
            push_arg(&mut args, "--kubeconfig");
            push_arg(&mut args, p.as_str());
        },
        None => {},
    }
    match &config.context {
        Some(c) => {
            push_arg(&mut args, "--context");
            push_arg(&mut args, c.as_str());
        },
        None => {},
    }
    push_arg(&mut args, "get");
    push_arg(&mut args, "events");
    push_arg(&mut args, "-n");
    push_arg(&mut args, namespace);
    push_arg(&mut args, "--sort-by=.lastTimestamp");
    push_arg(&mut args, "-o");
    push_arg(&mut args, "json");
    assert(string_views(args@) =~= events_args_spec(opt_view(config.kubeconfig_path), opt_view(config.context), namespace@));
    Ok(args)
}

/// The message of a failed `kubectl get events`: its trimmed standard error, or its exit
/// status when it printed nothing.
pub open spec fn events_failure_spec(stderr: Seq<char>, status: Seq<char>) -> Seq<char> {
    if trim(stderr).len() == 0 {
        "kubectl get events failed with status "@ + status + "."@
    } else {
        "kubectl get events failed: "@ + trim(stderr)
    }
}

pub fn events_failure_message(stderr: &str, status: &str) -> (r: String)
    ensures r@ == events_failure_spec(stderr@, status@),
{
    let t = trim_str(stderr);
    if t.len() == 0 {
        let mut m = chars_of("kubectl get events failed with status ");
        push_str(&mut m, status);
        push_str(&mut m, ".");
        string_of(&m)
    } else {
        let mut m = chars_of("kubectl get events failed: ");
        crate::text::push_chars(&mut m, &t);
        string_of(&m)
    }
}

// ---------------------------------------------------------------------------
// Events
// ---------------------------------------------------------------------------

/// One item of `kubectl get events -o json`, as read: metadata uid, namespace and creation
/// time, type, reason, message, event time, last timestamp, involved object kind and name.
pub struct KubectlEventRecord {
    pub uid: Option<String>,
    pub namespace: Option<String>,
    pub creation_timestamp: Option<String>,
    pub event_type: Option<String>,
    pub reason: Option<String>,
    pub message: Option<String>,
    pub event_time: Option<String>,
    pub last_timestamp: Option<String>,
    pub kind: Option<String>,
    pub name: Option<String>,
}

pub open spec fn or_text(o: Option<String>, d: Seq<char>) -> Seq<char> {
    match opt_view(o) {
        Some(v) => v,
        None => d,
    }
}

/// `event_level`: `Warning` for a warning event, a reason that mentions failing or a
/// message that mentions an error (both ASCII-lowercased); else `Normal`.
pub open spec fn event_level_spec(event_type: Option<Seq<char>>, reason: Seq<char>, message: Seq<char>) -> Seq<char> {
    if event_type == Some("Warning"@) || contains(lower(reason), "fail"@) || contains(lower(message), "error"@) {
        "Warning"@
    } else {
        "Normal"@
    }
}

pub fn event_level(event_type: &Option<String>, reason: &str, message: &str) -> (r: String)
    ensures r@ == event_level_spec(opt_view(*event_type), reason@, message@),
{
    let warning_type = match event_type {
        Some(t) => crate::text::str_eq(t.as_str(), "Warning"),
        None => false,
    };
    let lr = to_lower(&chars_of(reason));
    let lm = to_lower(&chars_of(message));
    let fail = chars_of("fail");
    let error = chars_of("error");
    if warning_type || contains_exec(&lr, &fail) || contains_exec(&lm, &error) {
        owned("Warning")
    } else {
        owned("Normal")
    }
}

/// A filter as the events query takes it: trimmed and ASCII-lowercased, nothing when empty.
pub open spec fn filter_spec(v: Option<Seq<char>>) -> Option<Seq<char>> {
    match v {
        Some(s) => if lower(trim(s)).len() > 0 { Some(lower(trim(s))) } else { None },
        None => None,
    }
}

/// Whether an event with this name, kind and reason passes the filters.
pub open spec fn passes_filters(name: Seq<char>, kind: Seq<char>, reason: Seq<char>, involved: Option<Seq<char>>,
    reason_filter: Option<Seq<char>>) -> bool
{
    (match involved { Some(f) => contains(lower(name), f) || contains(lower(kind), f), None => true })
        && (match reason_filter { Some(f) => contains(lower(reason), f), None => true })
}

pub open spec fn record_kept(r: KubectlEventRecord, involved: Option<Seq<char>>, reason_filter: Option<Seq<char>>) -> bool {
    passes_filters(or_text(r.name, "unknown"@), or_text(r.kind, "Unknown"@), or_text(r.reason, "Unknown"@), involved, reason_filter)
}

/// The records that pass the filters, in their order.
pub open spec fn kept_records(rs: Seq<KubectlEventRecord>, involved: Option<Seq<char>>, reason_filter: Option<Seq<char>>)
    -> Seq<KubectlEventRecord>
    decreases rs.len(),
{
    if rs.len() == 0 {
        Seq::empty()
    } else {
        let prev = kept_records(rs.drop_last(), involved, reason_filter);
        if record_kept(rs.last(), involved, reason_filter) { prev.push(rs.last()) } else { prev }
    }
}

/// The time of an event: its event time, else its last timestamp, else its creation time.
pub open spec fn record_time(r: KubectlEventRecord) -> Seq<char> {
    match opt_view(r.event_time) {
        Some(t) => t,
        None => match opt_view(r.last_timestamp) {
            Some(t) => t,
            None => or_text(r.creation_timestamp, "unknown"@),
        },
    }
}

/// Whether an event shows a record, its id aside: the namespace (else the queried one),
/// kind, name, reason, level, message and time. The id is the record's uid when it has one.
pub open spec fn event_shows(e: KubernetesEvent, r: KubectlEventRecord, namespace: Seq<char>) -> bool {
    let reason = or_text(r.reason, "Unknown"@);
    let message = or_text(r.message, Seq::empty());
    &&& (r.uid matches Some(u) ==> e.id@ == u@)
    &&& e.namespace@ == or_text(r.namespace, namespace)
    &&& e.kind@ == or_text(r.kind, "Unknown"@)
    &&& e.name@ == or_text(r.name, "unknown"@)
    &&& e.reason@ == reason
    &&& e.level@ == event_level_spec(opt_view(r.event_type), reason, message)
    &&& e.message@ == message
    &&& e.event_time@ == record_time(r)
}

fn filter_exec(v: &Option<String>) -> (r: Option<Vec<char>>)
    ensures
        match r {
            Some(f) => filter_spec(opt_view(*v)) == Some(f@),
            None => filter_spec(opt_view(*v)) is None,
        },
{
    match v {
        Some(s) => {
            let t = trim_str(s.as_str());
            let l = to_lower(&t);
            if l.len() > 0 { Some(l) } else { None }
        },
        None => None,
    }
}

fn text_or(o: &Option<String>, d: &str) -> (r: String)
    ensures r@ == or_text(*o, d@),
{
    match o {
        Some(v) => copy_string(v),
        None => owned(d),
    }
}

fn holds_lower(s: &str, f: &[char]) -> (r: bool)
    ensures r == contains(lower(s@), f@),
{
    let l = to_lower(&chars_of(s));
    contains_exec(&l, f)
}

/// The events of `kubectl get events` that pass the query's filters on the involved object
/// (its name or kind) and on the reason, in their order.
pub fn events_from_records(records: &Vec<KubectlEventRecord>, input: &ListKubernetesEventsInput) -> (r: Vec<KubernetesEvent>)
    ensures
        ({
            let kept = kept_records(records@, filter_spec(opt_view(input.involved_object)), filter_spec(opt_view(input.reason)));
            &&& r@.len() == kept.len()
            &&& forall|i: int| 0 <= i < kept.len() ==> event_shows(#[trigger] r@[i], kept[i], input.namespace@)
        }),
{
    let involved = filter_exec(&input.involved_object);
    let reason_filter = filter_exec(&input.reason);
    let ghost fi = filter_spec(opt_view(input.involved_object));
    let ghost fr = filter_spec(opt_view(input.reason));
    let mut out: Vec<KubernetesEvent> = Vec::new();
    let mut i: usize = 0;
    while i < records.len()
        invariant
            0 <= i <= records@.len(),
            match involved { Some(f) => fi == Some(f@), None => fi is None },
            match reason_filter { Some(f) => fr == Some(f@), None => fr is None },
            out@.len() == kept_records(records@.take(i as int), fi, fr).len(),
            forall|j: int| 0 <= j < out@.len() ==>
                event_shows(#[trigger] out@[j], kept_records(records@.take(i as int), fi, fr)[j], input.namespace@),
        decreases records@.len() - i,
    {
        let rec = &records[i];
        assert(records@.take(i + 1).drop_last() =~= records@.take(i as int));
        assert(records@.take(i + 1).last() == records@[i as int]);
        let name = text_or(&rec.name, "unknown");
        let kind = text_or(&rec.kind, "Unknown");
        let reason = text_or(&rec.reason, "Unknown");
        let keep_involved = match &involved {
            Some(f) => holds_lower(name.as_str(), f) || holds_lower(kind.as_str(), f),
            None => true,
        };
        let keep_reason = match &reason_filter {
            Some(f) => holds_lower(reason.as_str(), f),
            None => true,
        };
        if keep_involved && keep_reason {
            let message = match &rec.message {
                Some(m) => copy_string(m),
                None => String::new(),
            };
            let event_time = match &rec.event_time {
                Some(t) => copy_string(t),
                None => match &rec.last_timestamp {
                    Some(t) => copy_string(t),
                    None => text_or(&rec.creation_timestamp, "unknown"),
                },
            };
            let level = event_level(&rec.event_type, reason.as_str(), message.as_str());
            let id = match &rec.uid {
                Some(u) => copy_string(u),
                None => crate::system::fresh_uuid(),
            };
            let e = KubernetesEvent {
                id,
                namespace: text_or(&rec.namespace, input.namespace.as_str()),
                kind,
                name,
                reason,
                level,
                message,
                event_time,
            };
            proof {
                assert(e.message@ == or_text(rec.message, Seq::empty()));
                assert(event_shows(e, *rec, input.namespace@));
            }
            let ghost before = out@;
            out.push(e);
            assert forall|j: int| 0 <= j < out@.len() implies
                event_shows(#[trigger] out@[j], kept_records(records@.take(i + 1), fi, fr)[j], input.namespace@) by {
                if j < before.len() {
                    assert(out@[j] == before[j]);
                }
            }
        }
        i += 1;
    }
    assert(records@.take(records@.len() as int) =~= records@);
    out
}

// ---------------------------------------------------------------------------
// Summary and response
// ---------------------------------------------------------------------------

pub open spec fn warning_count(es: Seq<KubernetesEvent>) -> nat
    decreases es.len(),
{
    if es.len() == 0 {
        0
    } else {
        warning_count(es.drop_last()) + if es.last().level@ == "Warning"@ { 1nat } else { 0nat }
    }
}

pub proof fn lemma_warning_count_bound(es: Seq<KubernetesEvent>)
    ensures warning_count(es) <= es.len(),
    decreases es.len(),
{
    if es.len() > 0 {
        lemma_warning_count_bound(es.drop_last());
    }
}

/// `reason on name` for one of the first events.
pub open spec fn signal(e: KubernetesEvent) -> Seq<char> {
    e.reason@ + " on "@ + e.name@
}

pub open spec fn events_summary_view(s: KubernetesEventsSummary) -> (Seq<char>, Seq<Seq<char>>, Seq<Seq<char>>) {
    (s.headline@, string_views(s.likely_impact@), string_views(s.recommended_next_steps@))
}

/// What `summarize_events` returns: the count of events and of warnings, the first three
/// signals, and the next steps.
pub open spec fn events_summary_spec(namespace: Seq<char>, es: Seq<KubernetesEvent>) -> (Seq<char>, Seq<Seq<char>>, Seq<Seq<char>>) {
    let top = Seq::new(crate::chat::at_most(es.len() as int, 3) as nat, |i: int| signal(es[i]));
    let impact = if top.len() == 0 {
        seq!["No Kubernetes events matched the current filters."@]
    } else {
        seq![
            "Recent signals: "@ + crate::text::join(top, ", "@) + "."@,
            "Warnings often align with rollout issues, image pulls, scheduling pressure, or probe failures."@,
        ]
    };
    (
        crate::text::decimal(es.len()) + " event(s) in namespace "@ + namespace + " with "@
            + crate::text::decimal(warning_count(es)) + " warning event(s)."@,
        impact,
        seq![
            "Correlate the hottest warning with log spikes and restart behavior in the same time window."@,
            "Attach this event set into the active investigation to compare against Nacos drift and host diagnostics."@,
        ],
    )
}

pub fn summarize_events(input: &ListKubernetesEventsInput, events: &Vec<KubernetesEvent>) -> (r: KubernetesEventsSummary)
    ensures events_summary_view(r) == events_summary_spec(input.namespace@, events@),
{
    let mut warnings: usize = 0;
    let mut i: usize = 0;
    while i < events.len()
        invariant
            0 <= i <= events@.len(),
            warnings == warning_count(events@.take(i as int)),
        decreases events@.len() - i,
    {
        assert(events@.take(i + 1).drop_last() =~= events@.take(i as int));
        proof { lemma_warning_count_bound(events@.take(i as int)); }
        if crate::text::str_eq(events[i].level.as_str(), "Warning") {
            warnings += 1;
        }
        i += 1;
    }
    assert(events@.take(events@.len() as int) =~= events@);
    let n3 = if events.len() < 3 { events.len() } else { 3 };
    let mut top: Vec<Vec<char>> = Vec::new();
    let mut j: usize = 0;
    while j < n3
        invariant
            n3 == crate::chat::at_most(events@.len() as int, 3),
            0 <= j <= n3,
            crate::text::views(top@) == Seq::new(j as nat, |q: int| signal(events@[q])),
        decreases n3 - j,
    {
        let mut s = chars_of(events[j].reason.as_str());
        push_str(&mut s, " on ");
        push_str(&mut s, events[j].name.as_str());
        let ghost prev = top@;
        top.push(s);
        assert(crate::text::views(top@) =~= crate::text::views(prev).push(s@));
        assert(crate::text::views(top@) =~= Seq::new((j + 1) as nat, |q: int| signal(events@[q])));
        j += 1;
    }
    let mut impact: Vec<String> = Vec::new();
    if top.len() == 0 {
        impact.push(owned("No Kubernetes events matched the current filters."));
    } else {
        let mut m = chars_of("Recent signals: ");
        let joined = crate::text::join_exec(&top, ", ");
        crate::text::push_chars(&mut m, &joined);
        push_str(&mut m, ".");
        impact.push(string_of(&m));
        impact.push(owned("Warnings often align with rollout issues, image pulls, scheduling pressure, or probe failures."));
    }
    let mut steps: Vec<String> = Vec::new();
    steps.push(owned("Correlate the hottest warning with log spikes and restart behavior in the same time window."));
    steps.push(owned("Attach this event set into the active investigation to compare against Nacos drift and host diagnostics."));
    let mut h: Vec<char> = Vec::new();
    crate::text::push_decimal(&mut h, events.len() as u64);
    push_str(&mut h, " event(s) in namespace ");
    push_str(&mut h, input.namespace.as_str());
    push_str(&mut h, " with ");
    crate::text::push_decimal(&mut h, warnings as u64);
    push_str(&mut h, " warning event(s).");
    let r = KubernetesEventsSummary { headline: string_of(&h), likely_impact: impact, recommended_next_steps: steps };
    proof {
        let sp = events_summary_spec(input.namespace@, events@);
        assert(string_views(r.likely_impact@) =~= sp.1);
        assert(string_views(r.recommended_next_steps@) =~= sp.2);
    }
    r
}

/// The query line of an events response: namespace, involved object and reason, `*` for a
/// filter not given.
pub open spec fn query_summary_spec(input: ListKubernetesEventsInput) -> Seq<char> {
    "namespace="@ + input.namespace@ + ", involvedObject="@ + or_text(input.involved_object, "*"@)
        + ", reason="@ + or_text(input.reason, "*"@)
}

/// `list_events` once the events are read: the response with the events and their summary.
pub fn events_response(profile: &ConnectionProfile, input: &ListKubernetesEventsInput, events: Vec<KubernetesEvent>)
    -> (r: ListKubernetesEventsResponse)
    ensures
        r.environment_id@ == input.environment_id@,
        r.namespace@ == input.namespace@,
        r.adapter_mode@ == "kubectl-profile ("@ + profile.name@ + ")"@,
        r.query_summary@ == query_summary_spec(*input),
        r.events@ == events@,
        events_summary_view(r.summary) == events_summary_spec(input.namespace@, events@),
{
    let summary = summarize_events(input, &events);
    let mut mode = chars_of("kubectl-profile (");
    push_str(&mut mode, profile.name.as_str());
    push_str(&mut mode, ")");
    let mut q = chars_of("namespace=");
    push_str(&mut q, input.namespace.as_str());
    push_str(&mut q, ", involvedObject=");
    push_str(&mut q, text_or(&input.involved_object, "*").as_str());
    push_str(&mut q, ", reason=");
    push_str(&mut q, text_or(&input.reason, "*").as_str());
    ListKubernetesEventsResponse {
        environment_id: copy_string(&input.environment_id),
        namespace: copy_string(&input.namespace),
        adapter_mode: string_of(&mode),
        query_summary: string_of(&q),
        events,
        summary,
    }
}

} // verus!
