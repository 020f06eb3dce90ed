//! Settings: saving profiles and their secrets, trusting an SSH host key, and preparing an
//! RSA key pair for an SSH profile.
use vstd::prelude::*;

use crate::json::{json_get_str, model_get_str, model_get_u64, spec_parse_json, spec_parse_json_error, JsonModel, JsonValue};
use crate::models::{ConnectionProfile, UpsertConnectionProfileInput};
use crate::ssh::{nonblank_opt, nonblank_trimmed_opt, parse_host_and_port_spec, render_target_spec, u16_of};
use crate::text::{
    chars_of, contains, copy_opt, copy_string, decimal, ends_with, free_of, is_blank, split_char, is_blank_str, join, lines, opt_view,
    owned, push_chars, push_str, string_of, string_views, trim, trim_str, views,
};

verus! {

// ---------------------------------------------------------------------------
// Saving a profile
// ---------------------------------------------------------------------------

/// The message of a refused profile: the validation messages joined by spaces.
pub fn validation_message(messages: &Vec<String>) -> (r: String)
    ensures r@ == join(string_views(messages@), " "@),
{
    string_of(&crate::text::join_strings(messages, " "))
}

/// Whether a saved profile has a secret: a non-blank secret given, or one stored before.
pub fn saved_profile_has_secret(secret_value: &Option<String>, existing_secret: bool) -> (r: bool)
    ensures r == ((nonblank_opt(opt_view(*secret_value)) is Some) || existing_secret),
{
    let given = match secret_value {
        Some(v) => !is_blank_str(v.as_str()),
        None => false,
    };
    given || existing_secret
}

/// Whether a failure to store a secret still lets the save succeed: the secret went to the
/// fallback file instead of the keychain.
pub fn secret_failure_tolerated(message: &str) -> (r: bool)
    ensures r == contains(message@, "stored secret in app data fallback instead"@),
{
    crate::text::contains_str(&chars_of(message), "stored secret in app data fallback instead")
}

// ---------------------------------------------------------------------------
// Trusting an SSH host key
// ---------------------------------------------------------------------------

/// A relative path with no drive or root: it is joined under a base.
pub open spec fn relative_plain(rest: Seq<char>) -> bool {
    rest.len() > 0 && rest[0] != '/' && rest[0] != '\\' && !crate::text::has_char(rest, ':')
}

/// `Path::new(path).is_absolute()`. Its documentation: on Unix a path is absolute when it
/// starts with the root `/`; on Windows when it has a prefix (a drive `C:` or a `\\` form)
/// and a root. A path that starts with no separator and holds no colon is therefore absolute
/// on neither; of other paths the answer depends on the platform and is not stated.
#[verifier::external_body]
fn is_absolute_path(path: &str) -> (r: bool)
    ensures relative_plain(path@) ==> !r,
{
    std::path::Path::new(path).is_absolute()
}

/// A path joined under a base (see `crate::system::pushed`).
pub open spec fn under(r: Seq<char>, base: Seq<char>, part: Seq<char>) -> bool {
    crate::system::pushed(r, base, part)
}

/// What `expand_home_path` gives for `value`, given whether the value is an absolute path:
/// with a home directory, a `~/` or (else) a `$HOME/` path lies under it; any other path is
/// kept as it is when absolute and otherwise lies under the data directory. (Spelled out
/// for a relative path without drive or root, under an ordinary base.)
pub open spec fn expanded_given(r: Seq<char>, value: Seq<char>, app_data_dir: Seq<char>, home: Option<Seq<char>>,
    absolute: bool) -> bool
{
    let tilde = crate::redis::strip_prefix(value, "~/"@);
    let dollar = crate::redis::strip_prefix(value, "$HOME/"@);
    match home {
        Some(h) if tilde is Some => relative_plain(tilde->Some_0) && crate::system::ordinary_path(h)
            ==> under(r, h, tilde->Some_0),
        Some(h) if dollar is Some => relative_plain(dollar->Some_0) && crate::system::ordinary_path(h)
            ==> under(r, h, dollar->Some_0),
        _ => if absolute {
            r == value
        } else {
            relative_plain(value) && crate::system::ordinary_path(app_data_dir) ==> under(r, app_data_dir, value)
        },
    }
}

/// What `expand_home_path` gives: as `expanded_given`, where a relative path without drive
/// or root is never absolute.
pub open spec fn expanded(r: Seq<char>, value: Seq<char>, app_data_dir: Seq<char>, home: Option<Seq<char>>) -> bool {
    expanded_given(r, value, app_data_dir, home, false)
        || (!relative_plain(value) && expanded_given(r, value, app_data_dir, home, true))
}

/// `expand_home_path`, given whether the value is an absolute path.
pub fn expand_home_path_given(value: &str, app_data_dir: &str, home: &Option<String>, absolute: bool) -> (r: String)
    ensures expanded_given(r@, value@, app_data_dir@, opt_view(*home), absolute),
{
    let v = chars_of(value);
    match home {
        Some(h) => {
            match crate::redis::strip_prefix_exec(&v, "~/") {
                Some(rest) => return join_relative(h.as_str(), &rest),
                None => {},
            }
            match crate::redis::strip_prefix_exec(&v, "$HOME/") {
                Some(rest) => return join_relative(h.as_str(), &rest),
                None => {},
            }
        },
        None => {},
    }
    if absolute {
        owned(value)
    } else {
        join_relative(app_data_dir, &v)
    }
}

/// `expand_home_path`, given the home directory (`HOME`, else `USERPROFILE`) when set: a
/// `~/` or `$HOME/` path goes under the home directory, an absolute path is kept, another
/// relative path goes under the data directory.
pub fn expand_home_path(value: &str, app_data_dir: &str, home: &Option<String>) -> (r: String)
    ensures expanded(r@, value@, app_data_dir@, opt_view(*home)),
{
    let absolute = is_absolute_path(value);
    expand_home_path_given(value, app_data_dir, home, absolute)
}

/// `Path::new(base).join(rest)`, printed: after an ordinary base (see
/// `crate::system::ordinary_path`) a relative path with no drive or root is pushed after
/// the base as it is, with a separator exactly where one is needed on every platform. Which
/// separator is used depends on the platform and is not stated, nor anything of another
/// path or base.
#[verifier::external_body]
fn join_relative_path(base: &str, rest: &str) -> (r: String)
    ensures relative_plain(rest@) && crate::system::ordinary_path(base@) ==> under(r@, base@, rest@),
{
    std::path::Path::new(base).join(rest).display().to_string()
}

fn join_relative(base: &str, rest: &[char]) -> (r: String)
    ensures relative_plain(rest@) && crate::system::ordinary_path(base@) ==> under(r@, base@, rest@),
{
    let s = string_of(rest);
    join_relative_path(base, s.as_str())
}

/// Where `resolve_known_hosts_path` puts the known_hosts file: a configured path expanded;
/// else `.ssh/known_hosts` in the home directory, or `ssh/known_hosts` in the data
/// directory without one (spelled out for an ordinary base).
pub open spec fn known_hosts_at(r: Seq<char>, configured: Option<Seq<char>>, app_data_dir: Seq<char>,
    home: Option<Seq<char>>) -> bool
{
    match configured {
        Some(p) => expanded(r, p, app_data_dir, home),
        None => crate::text::ends_with(r, "known_hosts"@) && match home {
            Some(h) => crate::system::ordinary_path(h) ==> exists|d: Seq<char>|
                #[trigger] under(d, h, ".ssh"@) && under(r, d, "known_hosts"@),
            None => crate::system::ordinary_path(app_data_dir) ==> exists|d: Seq<char>|
                #[trigger] under(d, app_data_dir, "ssh"@) && under(r, d, "known_hosts"@),
        },
    }
}

/// `resolve_known_hosts_path`.
pub fn resolve_known_hosts_path(configured: Option<&str>, app_data_dir: &str, home: &Option<String>) -> (r: String)
    ensures known_hosts_at(r@, match configured { Some(p) => Some(p@), None => None }, app_data_dir@, opt_view(*home)),
{
    proof {
        reveal_strlit(".ssh");
        reveal_strlit("ssh");
        reveal_strlit("known_hosts");
        assert(crate::tools::plain_name(".ssh"@));
        assert(crate::tools::plain_name("ssh"@));
        assert(crate::tools::plain_name("known_hosts"@));
    }
    match configured {
        Some(p) => {
            let r = expand_home_path(p, app_data_dir, home);
            assert(expanded(r@, p@, app_data_dir@, opt_view(*home)));
            assert(known_hosts_at(r@, Some(p@), app_data_dir@, opt_view(*home)));
            r
        },
        None => match home {
            Some(h) => {
                let d = crate::system::join_path(h.as_str(), ".ssh");
                let r = crate::system::join_path(d.as_str(), "known_hosts");
                proof {
                    if crate::system::ordinary_path(h@) {
                        crate::tools::lemma_plain_ordinary(".ssh"@);
                        crate::system::lemma_joined(d@, h@, ".ssh"@);
                        assert(under(d@, h@, ".ssh"@));
                        assert(under(r@, d@, "known_hosts"@));
                    }
                    assert(known_hosts_at(r@, None, app_data_dir@, opt_view(*home)));
                }
                r
            },
            None => {
                let d = crate::system::join_path(app_data_dir, "ssh");
                let r = crate::system::join_path(d.as_str(), "known_hosts");
                proof {
                    if crate::system::ordinary_path(app_data_dir@) {
                        crate::tools::lemma_plain_ordinary("ssh"@);
                        crate::system::lemma_joined(d@, app_data_dir@, "ssh"@);
                        assert(under(d@, app_data_dir@, "ssh"@));
                        assert(under(r@, d@, "known_hosts"@));
                    }
                    assert(known_hosts_at(r@, None, app_data_dir@, opt_view(*home)));
                }
                r
            },
        },
    }
}

/// The SSH settings used to trust a host key.
pub struct TrustedSshProfile {
    pub host: String,
    pub port: Option<u16>,
    pub username: Option<String>,
    pub ssh_path: Option<String>,
    pub known_hosts_path: String,
}

/// The endpoint a host key is trusted for: the `host` setting (trimmed) when not blank,
/// else the profile's endpoint, trimmed.
pub open spec fn trusted_endpoint(config: JsonModel, endpoint: Seq<char>) -> Seq<char> {
    match nonblank_trimmed_opt(model_get_str(config, "host"@)) {
        Some(h) => h,
        None => trim(endpoint),
    }
}

impl TrustedSshProfile {
    /// `from_profile`: the host and port, username, ssh path and known_hosts file of a
    /// profile; its JSON (blank reads as `{}`) must parse and it must name a host.
    pub fn from_profile(profile: &ConnectionProfile, app_data_dir: &str, home: &Option<String>) -> (r: Result<TrustedSshProfile, String>)
        ensures ({
            let text = crate::ssh::ssh_config_json(profile.config_json@);
            match r {
                Ok(t) => spec_parse_json(text) matches Some(config) && ({
                    let endpoint = trusted_endpoint(config, profile.endpoint@);
                    &&& endpoint.len() > 0
                    &&& parse_host_and_port_spec(endpoint) matches Ok((host, endpoint_port))
                    &&& t.host@ == host
                    &&& t.port == match u16_of(model_get_u64(config, "port"@)) { Some(p) => Some(p), None => endpoint_port }
                    &&& opt_view(t.ssh_path) == nonblank_trimmed_opt(model_get_str(config, "sshPath"@))
                    &&& opt_view(t.username) == nonblank_opt(opt_view(profile.username))
                    &&& known_hosts_at(t.known_hosts_path@, nonblank_trimmed_opt(model_get_str(config, "knownHostsPath"@)),
                            app_data_dir@, opt_view(*home))
                }),
                Err(e) => match spec_parse_json(text) {
                    None => e@ == "Invalid SSH profile JSON: "@ + spec_parse_json_error(text),
                    Some(config) => if trusted_endpoint(config, profile.endpoint@).len() == 0 {
                        e@ == "SSH profile is missing a host or endpoint."@
                    } else {
                        parse_host_and_port_spec(trusted_endpoint(config, profile.endpoint@))
                            == Err::<(Seq<char>, Option<u16>), Seq<char>>(e@)
                    },
                },
            }
        }),
    {
        let text = if is_blank_str(profile.config_json.as_str()) { owned("{}") } else { copy_string(&profile.config_json) };
        let config = match crate::json::parse_json_or_error(text.as_str()) {
            Ok(v) => v,
            Err(e) => {
                let mut m = chars_of("Invalid SSH profile JSON: ");
                push_str(&mut m, e.as_str());
                return Err(string_of(&m));
            },
        };
        let endpoint = match json_get_str(&config, "host") {
            Some(h) => if crate::text::is_blank_exec(&h) { trim_str(profile.endpoint.as_str()) } else { crate::text::trim_exec(&h) },
            None => trim_str(profile.endpoint.as_str()),
        };
        if endpoint.len() == 0 {
            return Err(owned("SSH profile is missing a host or endpoint."));
        }
        let (host, endpoint_port) = match crate::ssh::parse_host_and_port(&endpoint) {
            Ok(hp) => hp,
            Err(e) => return Err(e),
        };
        let port = match crate::json::json_get_u64(&config, "port") {
            Some(n) => if n <= 65535 { Some(n as u16) } else { endpoint_port },
            None => endpoint_port,
        };
        let ssh_path = match json_get_str(&config, "sshPath") {
            Some(p) => if crate::text::is_blank_exec(&p) { None } else { Some(string_of(&crate::text::trim_exec(&p))) },
            None => None,
        };
        let configured_hosts = match json_get_str(&config, "knownHostsPath") {
            Some(p) => if crate::text::is_blank_exec(&p) { None } else { Some(string_of(&crate::text::trim_exec(&p))) },
            None => None,
        };
        let known_hosts_path = match &configured_hosts {
            Some(p) => resolve_known_hosts_path(Some(p.as_str()), app_data_dir, home),
            None => resolve_known_hosts_path(None, app_data_dir, home),
        };
        let username = match &profile.username {
            Some(u) => if is_blank_str(u.as_str()) { None } else { Some(copy_string(u)) },
            None => None,
        };
        Ok(TrustedSshProfile { host: string_of(&host), port, username, ssh_path, known_hosts_path })
    }

    /// `render_target`: `user@host`, or the host alone.
    pub fn render_target(&self) -> (r: String)
        ensures r@ == render_target_spec(opt_view(self.username), self.host@),
    {
        match &self.username {
            Some(u) => {
                let mut out = chars_of(u.as_str());
                out.push('@');
                push_str(&mut out, self.host.as_str());
                string_of(&out)
            },
            None => copy_string(&self.host),
        }
    }
}

fn push_arg(args: &mut Vec<String>, s: &str)
    ensures string_views(final(args)@) == string_views(old(args)@).push(s@),
{
    let ghost before = args@;
    args.push(owned(s));
    assert(string_views(args@) =~= string_views(before).push(s@));
}

/// The arguments of `ssh-keyscan` for the profile: its port, then its host.
pub fn keyscan_args(profile: &TrustedSshProfile) -> (r: Vec<String>)
    ensures
        string_views(r@) == (match profile.port { Some(p) => seq!["-p"@, decimal(p as nat)], None => Seq::empty() })
            + seq![profile.host@],
{
    let mut a: Vec<String> = Vec::new();
    match profile.port {
        Some(p) => {
            push_arg(&mut a, "-p");
            push_arg(&mut a, crate::text::decimal_string(p as u64).as_str());
        },
        None => {},
    }
    push_arg(&mut a, profile.host.as_str());
    assert(string_views(a@) =~= (match profile.port { Some(p) => seq!["-p"@, decimal(p as nat)], None => Seq::empty() })
        + seq![profile.host@]);
    a
}

/// The arguments of the `ssh` probe that records a host key on first contact.
pub open spec fn accept_new_args_spec(profile: TrustedSshProfile) -> Seq<Seq<char>> {
    seq!["-o"@, "BatchMode=yes"@, "-o"@, "PreferredAuthentications=none"@, "-o"@, "PubkeyAuthentication=no"@,
        "-o"@, "PasswordAuthentication=no"@, "-o"@, "NumberOfPasswordPrompts=0"@, "-o"@,
        "StrictHostKeyChecking=accept-new"@, "-o"@, "UserKnownHostsFile="@ + profile.known_hosts_path@, "-o"@,
        "ConnectTimeout=5"@]
        + (match profile.port { Some(p) => seq!["-p"@, decimal(p as nat)], None => Seq::empty() })
        + seq![render_target_spec(opt_view(profile.username), profile.host@), "exit"@]
}

pub fn accept_new_args(profile: &TrustedSshProfile) -> (r: Vec<String>)
    ensures string_views(r@) == accept_new_args_spec(*profile),
{
    let mut a: Vec<String> = Vec::new();
    push_arg(&mut a, "-o");
    push_arg(&mut a, "BatchMode=yes");
    push_arg(&mut a, "-o");
    push_arg(&mut a, "PreferredAuthentications=none");
    push_arg(&mut a, "-o");
    push_arg(&mut a, "PubkeyAuthentication=no");
    push_arg(&mut a, "-o");
    push_arg(&mut a, "PasswordAuthentication=no");
    push_arg(&mut a, "-o");
    push_arg(&mut a, "NumberOfPasswordPrompts=0");
    push_arg(&mut a, "-o");
    push_arg(&mut a, "StrictHostKeyChecking=accept-new");
    push_arg(&mut a, "-o");
    let mut f = chars_of("UserKnownHostsFile=");
    push_str(&mut f, profile.known_hosts_path.as_str());
    push_arg(&mut a, string_of(&f).as_str());
    push_arg(&mut a, "-o");
    push_arg(&mut a, "ConnectTimeout=5");
    match profile.port {
        Some(p) => {
            push_arg(&mut a, "-p");
            push_arg(&mut a, crate::text::decimal_string(p as u64).as_str());
        },
        None => {},
    }
    push_arg(&mut a, profile.render_target().as_str());
    push_arg(&mut a, "exit");
    assert(string_views(a@) =~= accept_new_args_spec(*profile));
    a
}

/// The message of a trusted host key.
pub fn trusted_message(profile: &TrustedSshProfile) -> (r: String)
    ensures
        r@ == "Trusted SSH host key for "@ + render_target_spec(opt_view(profile.username), profile.host@) + " using "@
            + profile.known_hosts_path@ + "."@,
{
    let mut m = chars_of("Trusted SSH host key for ");
    push_str(&mut m, profile.render_target().as_str());
    push_str(&mut m, " using ");
    push_str(&mut m, profile.known_hosts_path.as_str());
    push_str(&mut m, ".");
    string_of(&m)
}

/// The message when neither `ssh-keyscan` nor the probe recorded a host key.
pub fn untrusted_message(profile: &TrustedSshProfile) -> (r: String)
    ensures
        r@ == "Unable to trust the SSH host key automatically for "@
            + render_target_spec(opt_view(profile.username), profile.host@)
            + ". Make sure either `ssh-keyscan` is available or your system SSH client supports `StrictHostKeyChecking=accept-new`."@,
{
    let mut m = chars_of("Unable to trust the SSH host key automatically for ");
    push_str(&mut m, profile.render_target().as_str());
    push_str(&mut m, ". Make sure either `ssh-keyscan` is available or your system SSH client supports `StrictHostKeyChecking=accept-new`.");
    string_of(&m)
}

/// The message of a failed tool run: its trimmed standard error, or the fixed message when
/// it printed nothing.
pub fn tool_failure_message(tool: &str, stderr: &str) -> (r: String)
    ensures
        r@ == if trim(stderr@).len() == 0 {
            tool@ + " failed without stderr output."@
        } else {
            tool@ + " failed: "@ + trim(stderr@)
        },
{
    let t = trim_str(stderr);
    let mut m = chars_of(tool);
    if t.len() == 0 {
        push_str(&mut m, " failed without stderr output.");
    } else {
        push_str(&mut m, " failed: ");
        push_chars(&mut m, &t);
    }
    string_of(&m)
}

// ---------------------------------------------------------------------------
// known_hosts
// ---------------------------------------------------------------------------

/// The trimmed lines of a text.
pub open spec fn trimmed_lines(s: Seq<char>) -> Seq<Seq<char>> {
    lines(s).map_values(|l: Seq<char>| trim(l))
}

/// A line appended to a text, after a newline when the text does not end with one.
pub open spec fn append_line(s: Seq<char>, line: Seq<char>) -> Seq<char> {
    (if s.len() > 0 && s.last() != '\n' { s.push('\n') } else { s }) + line + "\n"@
}

/// The text with each entry appended that is not already one of its lines (entries added
/// along the way count), and whether anything was appended.
pub open spec fn merge_lines(existing: Seq<char>, entries: Seq<Seq<char>>) -> (Seq<char>, bool)
    decreases entries.len(),
{
    if entries.len() == 0 {
        (existing, false)
    } else {
        let (text, changed) = merge_lines(existing, entries.drop_last());
        if trimmed_lines(text).contains(entries.last()) {
            (text, changed)
        } else {
            (append_line(text, entries.last()), true)
        }
    }
}

/// What `append_unique_known_hosts_entries` writes: the known_hosts text with each
/// non-blank line of the new entries (trimmed) that it does not hold yet.
pub open spec fn merge_known_hosts_spec(existing: Seq<char>, new_entries: Seq<char>) -> (Seq<char>, bool) {
    merge_lines(existing, crate::investigations::trimmed_nonempty(lines(new_entries)))
}

/// A known_hosts entry as merged: non-blank, trimmed, on one line.
pub open spec fn entry_ready(e: Seq<char>) -> bool {
    e.len() > 0 && trim(e) == e && free_of(e, '\n')
}

proof fn lemma_split_pieces_free(s: Seq<char>, c: char)
    ensures forall|i: int| 0 <= i < split_char(s, c).len() ==> free_of(#[trigger] split_char(s, c)[i], c),
    decreases s.len(),
{
    if s.len() > 0 {
        lemma_split_pieces_free(s.drop_last(), c);
        crate::text::lemma_split_char_nonempty(s.drop_last(), c);
    }
}

proof fn lemma_lines_free(s: Seq<char>)
    ensures forall|i: int| 0 <= i < lines(s).len() ==> free_of(#[trigger] lines(s)[i], '\n'),
{
    lemma_split_pieces_free(s, '\n');
    if s.len() > 0 {
        let parts = split_char(s, '\n');
        crate::text::lemma_split_char_nonempty(s, '\n');
        assert forall|i: int| 0 <= i < lines(s).len() implies free_of(#[trigger] lines(s)[i], '\n') by {
            assert(free_of(parts[i], '\n'));
        }
    }
}

proof fn lemma_entries_ready(parts: Seq<Seq<char>>)
    requires forall|i: int| 0 <= i < parts.len() ==> free_of(#[trigger] parts[i], '\n'),
    ensures
        forall|i: int| 0 <= i < crate::investigations::trimmed_nonempty(parts).len()
            ==> entry_ready(#[trigger] crate::investigations::trimmed_nonempty(parts)[i]),
    decreases parts.len(),
{
    if parts.len() > 0 {
        let rest = parts.drop_last();
        assert forall|i: int| 0 <= i < rest.len() implies free_of(#[trigger] rest[i], '\n') by {
            assert(rest[i] == parts[i]);
        }
        lemma_entries_ready(rest);
        crate::text::lemma_trim_idempotent(parts.last(), '\n');
        assert(free_of(parts[parts.len() - 1], '\n'));
        let prev = crate::investigations::trimmed_nonempty(rest);
        let r = crate::investigations::trimmed_nonempty(parts);
        assert forall|i: int| 0 <= i < r.len() implies entry_ready(#[trigger] r[i]) by {
            if i < prev.len() {
                assert(r[i] == prev[i]);
            }
        }
    }
}

proof fn lemma_trimmed_lines_append_line(t: Seq<char>, l: Seq<char>)
    requires entry_ready(l),
    ensures trimmed_lines(append_line(t, l)) == trimmed_lines(t).push(l),
{
    reveal_strlit("\n");
    crate::text::lemma_trim_strip_cr(l);
    if t.len() > 0 && t.last() != '\n' {
        let t2 = t.push('\n');
        crate::text::lemma_lines_append(t2, l);
        crate::text::lemma_lines_push_newline(t);
        crate::text::lemma_trim_strip_cr(lines(t).last());
        assert(trimmed_lines(t2) =~= trimmed_lines(t));
        assert(append_line(t, l) =~= t2 + l + seq!['\n']);
    } else {
        crate::text::lemma_lines_append(t, l);
        assert(append_line(t, l) =~= t + l + seq!['\n']);
    }
    assert(trimmed_lines(append_line(t, l)) =~= trimmed_lines(t).push(l));
}

proof fn lemma_merge_keeps_and_adds(existing: Seq<char>, entries: Seq<Seq<char>>)
    requires forall|i: int| 0 <= i < entries.len() ==> entry_ready(#[trigger] entries[i]),
    ensures
        forall|e: Seq<char>| entries.contains(e) ==> trimmed_lines(merge_lines(existing, entries).0).contains(e),
        forall|x: Seq<char>| trimmed_lines(existing).contains(x)
            ==> trimmed_lines(merge_lines(existing, entries).0).contains(x),
    decreases entries.len(),
{
    if entries.len() > 0 {
        let prev = entries.drop_last();
        lemma_merge_keeps_and_adds(existing, prev);
        let text = merge_lines(existing, prev).0;
        let last = entries.last();
        assert(entry_ready(entries[entries.len() - 1]));
        if !trimmed_lines(text).contains(last) {
            lemma_trimmed_lines_append_line(text, last);
        }
        let merged = merge_lines(existing, entries).0;
        assert forall|e: Seq<char>| entries.contains(e) implies trimmed_lines(merged).contains(e) by {
            let k = choose|k: int| 0 <= k < entries.len() && entries[k] == e;
            if k < entries.len() - 1 {
                assert(prev[k] == e);
                assert(prev.contains(e));
                let q = choose|q: int| 0 <= q < trimmed_lines(text).len() && trimmed_lines(text)[q] == e;
                if !trimmed_lines(text).contains(last) {
                    assert(trimmed_lines(merged)[q] == e);
                }
            } else if !trimmed_lines(text).contains(last) {
                assert(trimmed_lines(merged)[trimmed_lines(merged).len() - 1] == e);
            }
        }
        assert forall|x: Seq<char>| trimmed_lines(existing).contains(x) implies trimmed_lines(merged).contains(x) by {
            let q = choose|q: int| 0 <= q < trimmed_lines(text).len() && trimmed_lines(text)[q] == x;
            if !trimmed_lines(text).contains(last) {
                assert(trimmed_lines(merged)[q] == x);
            }
        }
    }
}

proof fn lemma_merge_present(text: Seq<char>, entries: Seq<Seq<char>>)
    requires forall|e: Seq<char>| entries.contains(e) ==> trimmed_lines(text).contains(e),
    ensures merge_lines(text, entries) == (text, false),
    decreases entries.len(),
{
    if entries.len() > 0 {
        let prev = entries.drop_last();
        assert forall|e: Seq<char>| prev.contains(e) implies trimmed_lines(text).contains(e) by {
            let k = choose|k: int| 0 <= k < prev.len() && prev[k] == e;
            assert(entries[k] == e);
            assert(entries.contains(e));
        }
        lemma_merge_present(text, prev);
        assert(entries[entries.len() - 1] == entries.last());
        assert(entries.contains(entries.last()));
    }
}

/// Merging new known_hosts entries leaves each of them (trimmed, non-blank) among the
/// trimmed lines of the file, keeps every line the file had, and merging the same entries
/// into the result again changes nothing.
pub proof fn law_known_hosts_merge(existing: Seq<char>, new_entries: Seq<char>)
    ensures ({
        let merged = merge_known_hosts_spec(existing, new_entries).0;
        &&& forall|e: Seq<char>| crate::investigations::trimmed_nonempty(lines(new_entries)).contains(e)
                ==> trimmed_lines(merged).contains(e)
        &&& forall|x: Seq<char>| trimmed_lines(existing).contains(x) ==> trimmed_lines(merged).contains(x)
        &&& merge_known_hosts_spec(merged, new_entries) == (merged, false)
    }),
{
    let entries = crate::investigations::trimmed_nonempty(lines(new_entries));
    lemma_lines_free(new_entries);
    lemma_entries_ready(lines(new_entries));
    lemma_merge_keeps_and_adds(existing, entries);
    let merged = merge_lines(existing, entries).0;
    lemma_merge_present(merged, entries);
}

/// The entries that a merge adds to a text whose trimmed lines are `present`: each entry
/// that is neither present nor already added, in order.
pub open spec fn added_entries(present: Seq<Seq<char>>, entries: Seq<Seq<char>>) -> Seq<Seq<char>>
    decreases entries.len(),
{
    if entries.len() == 0 {
        Seq::empty()
    } else {
        let prev = added_entries(present, entries.drop_last());
        if present.contains(entries.last()) || prev.contains(entries.last()) { prev } else { prev.push(entries.last()) }
    }
}

/// Lines, each followed by a newline.
pub open spec fn line_block(ls: Seq<Seq<char>>) -> Seq<char>
    decreases ls.len(),
{
    if ls.len() == 0 { Seq::empty() } else { line_block(ls.drop_last()) + ls.last() + "\n"@ }
}

/// A known_hosts text with lines added: the text as it was, a newline where it gains lines
/// and ends with none, then each added line followed by a newline.
pub open spec fn known_hosts_layout(existing: Seq<char>, added: Seq<Seq<char>>) -> Seq<char> {
    if added.len() == 0 {
        existing
    } else if existing.len() > 0 && existing.last() != '\n' {
        existing.push('\n') + line_block(added)
    } else {
        existing + line_block(added)
    }
}

proof fn lemma_line_block_ends(ls: Seq<Seq<char>>)
    requires ls.len() > 0,
    ensures line_block(ls).len() > 0, line_block(ls).last() == '\n',
{
    reveal_strlit("\n");
}

proof fn lemma_merge_layout(existing: Seq<char>, entries: Seq<Seq<char>>)
    requires forall|i: int| 0 <= i < entries.len() ==> entry_ready(#[trigger] entries[i]),
    ensures ({
        let added = added_entries(trimmed_lines(existing), entries);
        &&& merge_lines(existing, entries) == (known_hosts_layout(existing, added), added.len() > 0)
        &&& trimmed_lines(known_hosts_layout(existing, added)) == trimmed_lines(existing) + added
    }),
    decreases entries.len(),
{
    reveal_strlit("\n");
    let tl = trimmed_lines(existing);
    if entries.len() == 0 {
        assert(tl + Seq::<Seq<char>>::empty() =~= tl);
    } else {
        let prev = entries.drop_last();
        assert forall|i: int| 0 <= i < prev.len() implies entry_ready(#[trigger] prev[i]) by {
            assert(prev[i] == entries[i]);
        }
        lemma_merge_layout(existing, prev);
        let a0 = added_entries(tl, prev);
        let text = known_hosts_layout(existing, a0);
        let e = entries.last();
        assert(entry_ready(entries[entries.len() - 1]));
        let present = trimmed_lines(text).contains(e);
        assert(present == (tl.contains(e) || a0.contains(e))) by {
            if tl.contains(e) {
                let q = choose|q: int| 0 <= q < tl.len() && tl[q] == e;
                assert((tl + a0)[q] == e);
            }
            if a0.contains(e) {
                let q = choose|q: int| 0 <= q < a0.len() && a0[q] == e;
                assert((tl + a0)[tl.len() + q] == e);
            }
            if (tl + a0).contains(e) {
                let q = choose|q: int| 0 <= q < (tl + a0).len() && (tl + a0)[q] == e;
                if q < tl.len() {
                    assert(tl[q] == e);
                } else {
                    assert(a0[q - tl.len()] == e);
                }
            }
        }
        if !present {
            let a1 = a0.push(e);
            lemma_trimmed_lines_append_line(text, e);
            assert(line_block(a1) == line_block(a0) + e + "\n"@) by {
                assert(a1.drop_last() =~= a0);
            }
            if a0.len() == 0 {
                assert(line_block(a0) =~= Seq::<char>::empty());
                assert(text == existing);
                if existing.len() > 0 && existing.last() != '\n' {
                    assert(append_line(text, e) =~= existing.push('\n') + line_block(a1));
                } else {
                    assert(append_line(text, e) =~= existing + line_block(a1));
                }
            } else {
                lemma_line_block_ends(a0);
                if existing.len() > 0 && existing.last() != '\n' {
                    assert(text.last() == '\n');
                    assert(append_line(text, e) =~= existing.push('\n') + line_block(a1));
                } else {
                    assert(text.len() > 0 && text.last() == '\n');
                    assert(append_line(text, e) =~= existing + line_block(a1));
                }
            }
            assert((tl + a0).push(e) =~= tl + a1);
        }
    }
}

/// The known_hosts text after a merge: the text as it was, then (where lines are added and
/// it ends with none) a newline, then, in order, each trimmed non-blank line of the new
/// entries that is not among the trimmed lines yet (each added once), each followed by a
/// newline; the merge reports a change exactly when a line was added.
pub proof fn law_known_hosts_layout(existing: Seq<char>, new_entries: Seq<char>)
    ensures ({
        let added = added_entries(trimmed_lines(existing),
            crate::investigations::trimmed_nonempty(lines(new_entries)));
        merge_known_hosts_spec(existing, new_entries) == (known_hosts_layout(existing, added), added.len() > 0)
    }),
{
    lemma_lines_free(new_entries);
    lemma_entries_ready(lines(new_entries));
    lemma_merge_layout(existing, crate::investigations::trimmed_nonempty(lines(new_entries)));
}

fn has_trimmed_line(text: &[char], line: &[char]) -> (r: bool)
    ensures r == trimmed_lines(text@).contains(line@),
{
    let ls = crate::text::lines_exec(text);
    let ghost lv = views(ls@);
    let mut i: usize = 0;
    while i < ls.len()
        invariant
            0 <= i <= ls@.len(),
            lv == views(ls@),
            lv == lines(text@),
            forall|q: int| 0 <= q < i ==> trim(lv[q]) != line@,
        decreases ls@.len() - i,
    {
        let t = crate::text::trim_exec(&ls[i]);
        if crate::text::chars_eq(&t, line) {
            assert(trimmed_lines(text@)[i as int] == line@);
            return true;
        }
        i += 1;
    }
    proof {
        if trimmed_lines(text@).contains(line@) {
            let q = choose|q: int| 0 <= q < trimmed_lines(text@).len() && trimmed_lines(text@)[q] == line@;
            assert(trim(lv[q]) == line@);
        }
    }
    false
}

/// `append_unique_known_hosts_entries` on texts: the new known_hosts text and whether it
/// changed.
pub fn merge_known_hosts(existing: &str, new_entries: &str) -> (r: (String, bool))
    ensures (r.0@, r.1) == merge_known_hosts_spec(existing@, new_entries@),
{
    let ls = crate::text::lines_str(new_entries);
    let ghost lv = views(ls@);
    let mut entries: Vec<Vec<char>> = Vec::new();
    let mut i: usize = 0;
    while i < ls.len()
        invariant
            0 <= i <= ls@.len(),
            lv == views(ls@),
            views(entries@) == crate::investigations::trimmed_nonempty(lv.take(i as int)),
        decreases ls@.len() - i,
    {
        assert(lv.take(i + 1).drop_last() =~= lv.take(i as int));
        assert(lv.take(i + 1).last() == ls@[i as int]@);
        let t = crate::text::trim_exec(&ls[i]);
        if t.len() > 0 {
            let ghost prev = entries@;
            entries.push(t);
            assert(views(entries@) =~= views(prev).push(t@));
        }
        i += 1;
    }
    assert(lv.take(ls@.len() as int) =~= lv);
    let ghost ev = views(entries@);
    let mut text = chars_of(existing);
    let mut changed = false;
    let mut j: usize = 0;
    while j < entries.len()
        invariant
            0 <= j <= entries@.len(),
            ev == views(entries@),
            (text@, changed) == merge_lines(existing@, ev.take(j as int)),
        decreases entries@.len() - j,
    {
        assert(ev.take(j + 1).drop_last() =~= ev.take(j as int));
        assert(ev.take(j + 1).last() == entries@[j as int]@);
        if !has_trimmed_line(&text, &entries[j]) {
            if text.len() > 0 && text[text.len() - 1] != '\n' {
                text.push('\n');
            }
            push_chars(&mut text, &entries[j]);
            text.push('\n');
            changed = true;
            proof {
                reveal_strlit("\n");
            }
            assert(text@ =~= append_line(merge_lines(existing@, ev.take(j as int)).0, entries@[j as int]@));
        }
        j += 1;
    }
    assert(ev.take(entries@.len() as int) =~= ev);
    (string_of(&text), changed)
}

// ---------------------------------------------------------------------------
// Trusting a host key: the decisions between the tool runs
// ---------------------------------------------------------------------------

/// Only an SSH profile can have its host key trusted.
pub fn trust_profile_check(profile_type: &str) -> (r: Result<(), String>)
    ensures
        match r {
            Ok(()) => profile_type@ == "ssh"@,
            Err(e) => profile_type@ != "ssh"@ && e@ == "Trust host key is only available for SSH profiles."@,
        },
{
    if crate::text::str_eq(profile_type, "ssh") {
        Ok(())
    } else {
        Err(owned("Trust host key is only available for SSH profiles."))
    }
}

/// What an `ssh-keyscan` run gave: its host key entries when it succeeded with some output;
/// its failure message when it failed; an error when it printed no entry.
pub fn keyscan_outcome(success: bool, stdout: &str, stderr: &str) -> (r: Result<String, String>)
    ensures
        match r {
            Ok(entries) => success && !is_blank(stdout@) && entries@ == stdout@,
            Err(e) => if !success {
                e@ == (if trim(stderr@).len() == 0 {
                    "ssh-keyscan"@ + " failed without stderr output."@
                } else {
                    "ssh-keyscan"@ + " failed: "@ + trim(stderr@)
                })
            } else {
                is_blank(stdout@) && e@ == "ssh-keyscan returned no host key entries."@
            },
        },
{
    if !success {
        return Err(tool_failure_message("ssh-keyscan", stderr));
    }
    if is_blank_str(stdout) {
        return Err(owned("ssh-keyscan returned no host key entries."));
    }
    Ok(owned(stdout))
}

/// The known_hosts text to write after a scan, if any: the merged text when the merge
/// changed something or the file does not exist yet.
pub fn known_hosts_update(existing: &str, new_entries: &str, file_exists: bool) -> (r: Option<String>)
    ensures
        ({
            let (merged, changed) = merge_known_hosts_spec(existing@, new_entries@);
            match r {
                Some(t) => (changed || !file_exists) && t@ == merged,
                None => !changed && file_exists,
            }
        }),
{
    let (merged, changed) = merge_known_hosts(existing, new_entries);
    if changed || !file_exists {
        Some(merged)
    } else {
        None
    }
}

/// Whether the `StrictHostKeyChecking=accept-new` probe recorded a key: the known_hosts
/// file grew (in bytes); otherwise the host could not be trusted.
pub fn accept_new_outcome(profile: &TrustedSshProfile, before_len: usize, after_len: usize) -> (r: Result<(), String>)
    ensures
        match r {
            Ok(()) => after_len > before_len,
            Err(e) => after_len <= before_len
                && e@ == "Unable to trust the SSH host key automatically for "@
                    + render_target_spec(opt_view(profile.username), profile.host@)
                    + ". Make sure either `ssh-keyscan` is available or your system SSH client supports `StrictHostKeyChecking=accept-new`."@,
        },
{
    if after_len > before_len {
        Ok(())
    } else {
        Err(untrusted_message(profile))
    }
}

// ---------------------------------------------------------------------------
// RSA key pairs
// ---------------------------------------------------------------------------

/// The arguments of `ssh-keygen` that create a passphrase-less 4096-bit RSA key in PEM form,
/// commented with the profile's name.
pub fn keygen_args(private_key_path: &str, profile_name: &str) -> (r: Vec<String>)
    ensures
        string_views(r@) == seq!["-q"@, "-t"@, "rsa"@, "-b"@, "4096"@, "-m"@, "PEM"@, "-N"@, ""@, "-f"@,
            private_key_path@, "-C"@, "adbchelper:"@ + profile_name@],
{
    let mut a: Vec<String> = Vec::new();
    push_arg(&mut a, "-q");
    push_arg(&mut a, "-t");
    push_arg(&mut a, "rsa");
    push_arg(&mut a, "-b");
    push_arg(&mut a, "4096");
    push_arg(&mut a, "-m");
    push_arg(&mut a, "PEM");
    push_arg(&mut a, "-N");
    push_arg(&mut a, "");
    push_arg(&mut a, "-f");
    push_arg(&mut a, private_key_path);
    push_arg(&mut a, "-C");
    let mut c = chars_of("adbchelper:");
    push_str(&mut c, profile_name);
    push_arg(&mut a, string_of(&c).as_str());
    assert(string_views(a@) =~= seq!["-q"@, "-t"@, "rsa"@, "-b"@, "4096"@, "-m"@, "PEM"@, "-N"@, ""@, "-f"@,
        private_key_path@, "-C"@, "adbchelper:"@ + profile_name@]);
    a
}

/// The key pair files of a profile: `{id}_rsa` and `{id}_rsa.pub` in the keys directory.
pub fn key_pair_paths(keys_dir: &str, profile_id: &str) -> (r: (String, String))
    ensures
        r.1@ == r.0@ + ".pub"@,
        crate::tools::plain_name(profile_id@) ==> crate::text::ends_with(r.0@, profile_id@ + "_rsa"@),
{
    let mut name = chars_of(profile_id);
    push_str(&mut name, "_rsa");
    let file = string_of(&name);
    let private = crate::system::join_path(keys_dir, file.as_str());
    proof {
        reveal_strlit("_rsa");
        if crate::tools::plain_name(profile_id@) {
            assert(crate::tools::plain_name(file@));
        }
    }
    let mut p = chars_of(private.as_str());
    push_str(&mut p, ".pub");
    let public = string_of(&p);
    (private, public)
}

pub open spec fn with_member(members: Seq<(Seq<char>, JsonModel)>, key: Seq<char>, value: JsonModel) -> Seq<(Seq<char>, JsonModel)> {
    match crate::json::find_member_index(members, key) {
        Some(i) => members.update(i, (key, value)),
        None => members.push((key, value)),
    }
}

/// The settings of an SSH profile with its RSA key pair: `authMode` `rsa` and both paths.
pub open spec fn rsa_settings_spec(config_json: Seq<char>, private_path: Seq<char>, public_path: Seq<char>) -> Option<JsonModel> {
    let doc = if is_blank(config_json) { JsonModel::Object(Seq::empty()) } else { crate::json::parse_or_empty(config_json) };
    match doc {
        JsonModel::Object(ms) => Some(JsonModel::Object(with_member(with_member(with_member(ms,
            "authMode"@, JsonModel::Str("rsa"@)),
            "privateKeyPath"@, JsonModel::Str(private_path)),
            "publicKeyPath"@, JsonModel::Str(public_path)))),
        _ => None,
    }
}

fn set_member(v: &mut JsonValue, key: &str, value: JsonValue)
    requires old(v)@ is Object,
    ensures
        final(v)@ is Object,
        final(v)@->Object_0 == with_member(old(v)@->Object_0, key@, value@),
{
    match v {
        JsonValue::Object(members) => {
            let ghost before = crate::json::model_members(members@);
            match crate::json::member_index(members, key) {
                Some(i) => {
                    let ghost vm = value@;
                    members.set(i, (owned(key), value));
                    assert(crate::json::model_members(members@) =~= before.update(i as int, (key@, vm)));
                },
                None => {
                    crate::json::push_member(members, key, value);
                },
            }
        },
        _ => {},
    }
}

/// `save_profile_with_rsa_keypair`: the profile's input with its settings recording the
/// key pair; settings that are not an object are refused.
pub fn profile_with_rsa_keypair(profile: &ConnectionProfile, private_key_path: &str, public_key_path: &str)
    -> (r: Result<UpsertConnectionProfileInput, String>)
    ensures
        match rsa_settings_spec(profile.config_json@, private_key_path@, public_key_path@) {
            Some(doc) => r matches Ok(input)
                && input.config_json matches Some(c) && c@ == crate::json::spec_render_json(doc)
                && opt_view(input.id) == Some(profile.id@)
                && input.environment_id@ == profile.environment_id@
                && input.profile_type@ == profile.profile_type@
                && input.name@ == profile.name@
                && input.endpoint@ == profile.endpoint@
                && opt_view(input.username) == opt_view(profile.username)
                && opt_view(input.default_scope) == opt_view(profile.default_scope)
                && opt_view(input.notes) == opt_view(profile.notes)
                && input.secret_value is None,
            None => r matches Err(e) && e@ == "SSH profile config must be a JSON object."@,
        },
{
    let mut config = if is_blank_str(profile.config_json.as_str()) {
        let c = JsonValue::Object(Vec::new());
        assert(crate::json::model_members(Seq::<(String, JsonValue)>::empty()) =~= Seq::empty());
        c
    } else {
        crate::json::parse_json_or_empty(profile.config_json.as_str())
    };
    match &config {
        JsonValue::Object(_) => {},
        _ => return Err(owned("SSH profile config must be a JSON object.")),
    }
    set_member(&mut config, "authMode", crate::json::json_str("rsa"));
    set_member(&mut config, "privateKeyPath", crate::json::json_str(private_key_path));
    set_member(&mut config, "publicKeyPath", crate::json::json_str(public_key_path));
    let text = crate::json::render_json(&config);
    Ok(UpsertConnectionProfileInput {
        id: Some(copy_string(&profile.id)),
        environment_id: copy_string(&profile.environment_id),
        profile_type: copy_string(&profile.profile_type),
        name: copy_string(&profile.name),
        endpoint: copy_string(&profile.endpoint),
        username: copy_opt(&profile.username),
        default_scope: copy_opt(&profile.default_scope),
        notes: copy_opt(&profile.notes),
        config_json: Some(text),
        secret_value: None,
    })
}

} // verus!
