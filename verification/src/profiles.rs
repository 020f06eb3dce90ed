//! Choosing the connection profile of an environment for each kind of tool.
use vstd::prelude::*;

use crate::models::ConnectionProfile;
use crate::text::{chars_of, is_blank, is_blank_str, opt_view, owned, push_str, str_eq, string_of};

verus! {

/// `i` is the first profile of the environment with the given type.
pub open spec fn is_first_profile(ps: Seq<ConnectionProfile>, env: Seq<char>, ty: Seq<char>, i: int) -> bool {
    &&& 0 <= i < ps.len()
    &&& ps[i].environment_id@ == env && ps[i].profile_type@ == ty
    &&& forall|j: int| 0 <= j < i ==> !((#[trigger] ps[j]).environment_id@ == env && ps[j].profile_type@ == ty)
}

pub open spec fn has_profile(ps: Seq<ConnectionProfile>, env: Seq<char>, ty: Seq<char>) -> bool {
    exists|i: int| 0 <= i < ps.len() && (#[trigger] ps[i]).environment_id@ == env && ps[i].profile_type@ == ty
}

/// The position of the first profile of an environment with a given type.
pub fn find_profile(profiles: &[ConnectionProfile], environment_id: &str, profile_type: &str) -> (r: Option<usize>)
    ensures
        match r {
            Some(i) => is_first_profile(profiles@, environment_id@, profile_type@, i as int),
            None => !has_profile(profiles@, environment_id@, profile_type@),
        },
{
    let mut i: usize = 0;
    while i < profiles.len()
        invariant
            0 <= i <= profiles@.len(),
            forall|j: int| 0 <= j < i ==> !((#[trigger] profiles@[j]).environment_id@ == environment_id@
                && profiles@[j].profile_type@ == profile_type@),
        decreases profiles@.len() - i,
    {
        if str_eq(profiles[i].environment_id.as_str(), environment_id) && str_eq(profiles[i].profile_type.as_str(), profile_type) {
            return Some(i);
        }
        i += 1;
    }
    None
}

pub open spec fn same_profile(a: ConnectionProfile, b: ConnectionProfile) -> bool {
    &&& a.id@ == b.id@
    &&& a.environment_id@ == b.environment_id@
    &&& a.profile_type@ == b.profile_type@
    &&& a.name@ == b.name@
    &&& a.endpoint@ == b.endpoint@
    &&& opt_view(a.username) == opt_view(b.username)
    &&& opt_view(a.default_scope) == opt_view(b.default_scope)
    &&& opt_view(a.notes) == opt_view(b.notes)
    &&& a.config_json@ == b.config_json@
    &&& a.has_secret == b.has_secret
    &&& a.created_at@ == b.created_at@
    &&& a.updated_at@ == b.updated_at@
}

impl ConnectionProfile {
    /// A copy of the profile.
    pub fn duplicate(&self) -> (r: ConnectionProfile)
        ensures same_profile(r, *self),
    {
        ConnectionProfile {
            id: self.id.clone(),
            environment_id: self.environment_id.clone(),
            profile_type: self.profile_type.clone(),
            name: self.name.clone(),
            endpoint: self.endpoint.clone(),
            username: crate::text::copy_opt(&self.username),
            default_scope: crate::text::copy_opt(&self.default_scope),
            notes: crate::text::copy_opt(&self.notes),
            config_json: self.config_json.clone(),
            has_secret: self.has_secret,
            created_at: self.created_at.clone(),
            updated_at: self.updated_at.clone(),
        }
    }
}

/// The first profile of the environment with the given type, or `message` when there is none.
pub open spec fn resolved(ps: Seq<ConnectionProfile>, env: Seq<char>, ty: Seq<char>,
    r: Result<ConnectionProfile, String>, message: Seq<char>) -> bool
{
    match r {
        Ok(p) => exists|i: int| is_first_profile(ps, env, ty, i) && same_profile(p, ps[i]),
        Err(e) => !has_profile(ps, env, ty) && e@ == message,
    }
}

fn resolve_with(profiles: &[ConnectionProfile], environment_id: &str, profile_type: &str, message: Vec<char>) -> (r: Result<ConnectionProfile, String>)
    ensures resolved(profiles@, environment_id@, profile_type@, r, message@),
{
    match find_profile(profiles, environment_id, profile_type) {
        Some(i) => {
            let p = profiles[i].duplicate();
            assert(is_first_profile(profiles@, environment_id@, profile_type@, i as int) && same_profile(p, profiles@[i as int]));
            Ok(p)
        },
        None => Err(string_of(&message)),
    }
}

/// The SSH profile of an environment.
pub fn resolve_ssh_profile(profiles: &[ConnectionProfile], environment_id: &str) -> (r: Result<ConnectionProfile, String>)
    ensures resolved(profiles@, environment_id@, "ssh"@, r,
        "No SSH profile found for this environment. Add one in Settings first."@),
{
    resolve_with(profiles, environment_id, "ssh", chars_of("No SSH profile found for this environment. Add one in Settings first."))
}

/// The Kubernetes profile of an environment.
pub fn resolve_kubernetes_profile(profiles: &[ConnectionProfile], environment_id: &str) -> (r: Result<ConnectionProfile, String>)
    ensures resolved(profiles@, environment_id@, "kubernetes"@, r,
        "No Kubernetes profile found for environment "@ + environment_id@ + ". Add one in Settings first."@),
{
    let mut m = chars_of("No Kubernetes profile found for environment ");
    push_str(&mut m, environment_id);
    push_str(&mut m, ". Add one in Settings first.");
    resolve_with(profiles, environment_id, "kubernetes", m)
}

/// The Nacos profile of an environment.
pub fn resolve_nacos_profile(profiles: &[ConnectionProfile], environment_id: &str) -> (r: Result<ConnectionProfile, String>)
    ensures resolved(profiles@, environment_id@, "nacos"@, r,
        "No Nacos profile found for environment "@ + environment_id@ + ". Add one in Settings first."@),
{
    let mut m = chars_of("No Nacos profile found for environment ");
    push_str(&mut m, environment_id);
    push_str(&mut m, ". Add one in Settings first.");
    resolve_with(profiles, environment_id, "nacos", m)
}

/// The Qwen profile of an environment.
pub fn select_qwen_profile(profiles: &[ConnectionProfile], environment_id: &str) -> (r: Result<ConnectionProfile, String>)
    ensures resolved(profiles@, environment_id@, "qwen"@, r,
        "No Qwen profile found for this environment. Add one in Settings first."@),
{
    resolve_with(profiles, environment_id, "qwen", chars_of("No Qwen profile found for this environment. Add one in Settings first."))
}

/// The profile of a type that an approved action runs through.
pub fn resolve_action_profile(profiles: &[ConnectionProfile], environment_id: &str, profile_type: &str) -> (r: Result<ConnectionProfile, String>)
    ensures resolved(profiles@, environment_id@, profile_type@, r,
        "No "@ + profile_type@ + " profile found for environment "@ + environment_id@ + "."@),
{
    let mut m = chars_of("No ");
    push_str(&mut m, profile_type);
    push_str(&mut m, " profile found for environment ");
    push_str(&mut m, environment_id);
    push_str(&mut m, ".");
    resolve_with(profiles, environment_id, profile_type, m)
}

/// The Redis profile of an environment.
pub fn resolve_redis_profile(profiles: &[ConnectionProfile], environment_id: &str) -> (r: Result<ConnectionProfile, String>)
    ensures resolved(profiles@, environment_id@, "redis"@, r,
        "No Redis profile found for environment "@ + environment_id@ + ". Add one in Settings first."@),
{
    let mut m = chars_of("No Redis profile found for environment ");
    push_str(&mut m, environment_id);
    push_str(&mut m, ". Add one in Settings first.");
    resolve_with(profiles, environment_id, "redis", m)
}

/// The TiDB profile of an environment.
pub fn resolve_tidb_profile(profiles: &[ConnectionProfile], environment_id: &str) -> (r: Result<ConnectionProfile, String>)
    ensures resolved(profiles@, environment_id@, "tidb"@, r,
        "No TiDB profile found for environment "@ + environment_id@ + ". Add one in Settings first."@),
{
    let mut m = chars_of("No TiDB profile found for environment ");
    push_str(&mut m, environment_id);
    push_str(&mut m, ". Add one in Settings first.");
    resolve_with(profiles, environment_id, "tidb", m)
}

/// The ELK profile of an environment, when it has one with a non-blank endpoint.
pub fn select_elk_profile(profiles: &[ConnectionProfile], environment_id: &str) -> (r: Option<ConnectionProfile>)
    ensures
        match r {
            Some(p) => exists|i: int| is_first_profile(profiles@, environment_id@, "elk"@, i)
                && same_profile(p, profiles@[i]) && !is_blank(p.endpoint@),
            None => !has_profile(profiles@, environment_id@, "elk"@) || exists|i: int|
                is_first_profile(profiles@, environment_id@, "elk"@, i) && is_blank(profiles@[i].endpoint@),
        },
{
    match find_profile(profiles, environment_id, "elk") {
        Some(i) => {
            if is_blank_str(profiles[i].endpoint.as_str()) {
                None
            } else {
                let p = profiles[i].duplicate();
                assert(is_first_profile(profiles@, environment_id@, "elk"@, i as int) && same_profile(p, profiles@[i as int]));
                Some(p)
            }
        },
        None => None,
    }
}

/// The extra settings of a profile: its configuration JSON, or `{}` where that is unreadable.
pub fn profile_settings(profile: &ConnectionProfile) -> (r: crate::json::JsonValue)
    ensures r@ == crate::redis::profile_settings_model(profile.config_json@),
{
    match crate::json::parse_json(profile.config_json.as_str()) {
        Some(v) => v,
        None => {
            let r = crate::json::JsonValue::Object(Vec::new());
            assert(crate::json::model_members(Seq::<(String, crate::json::JsonValue)>::empty()) =~= Seq::empty());
            r
        },
    }
}


/// The message of a secret that could not be loaded for a profile.
pub fn secret_load_failure(service: &str, profile_name: &str, error: &str) -> (r: String)
    ensures r@ == "Failed to load "@ + service@ + " secret for profile '"@ + profile_name@ + "': "@ + error@,
{
    let mut m = chars_of("Failed to load ");
    push_str(&mut m, service);
    push_str(&mut m, " secret for profile '");
    push_str(&mut m, profile_name);
    push_str(&mut m, "': ");
    push_str(&mut m, error);
    string_of(&m)
}

} // verus!
