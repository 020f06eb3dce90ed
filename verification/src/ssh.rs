//! SSH diagnostics: the whitelist of remote commands, parsing of their output into
//! health metrics and log lines, and the recommendations drawn from them.
use vstd::prelude::*;

use crate::json::{json_get_str, model_get_str, parse_json_or_error, spec_parse_json, spec_parse_json_error, json_get, json_as_str, json_get_bool, json_get_u64, model_get, model_get_bool, model_get_u64, model_as_str, parse_json, JsonModel, JsonValue};
use crate::models::{ConnectionProfile, SshHealthMetric, SshLogLine};
use crate::redis::{profile_settings_model, strip_prefix};
use crate::text::{
    chars_eq_str, chars_of, char_is_alnum, contains, contains_str, decimal, find, has_char, is_ascii_alnum,
    is_blank, is_blank_str, is_first_occurrence, join, lines, lines_exec, lower, owned, parse_u16, parse_unsigned,
    push_chars, push_decimal, push_str, rsplit_once, rsplit_once_exec, slice_chars, split_whitespace,
    split_whitespace_exec, starts_with, starts_with_exec, starts_with_str, str_eq, string_of, string_views,
    to_lower, trim, trim_exec, trim_str, views, opt_view, split_once_str, split_once_str_exec, trim_start_char,
    trim_start_char_exec, contains_exec, has_char_exec, join_exec, copy_chars, chars_eq, is_blank_exec,
};

verus! {

// ---------------------------------------------------------------------------
// The whitelist of remote commands
// ---------------------------------------------------------------------------

pub open spec fn preset_name(i: int) -> Seq<char> {
    if i == 0 { "system_overview"@ }
    else if i == 1 { "check_process_ports"@ }
    else if i == 2 { "tail_app_log"@ }
    else { "tail_nginx_error"@ }
}

pub open spec fn preset_command(i: int) -> Seq<char> {
    if i == 0 {
        "printf '__LOAD__\n'; uptime; printf '\n__MEM__\n'; free -m; printf '\n__DISK__\n'; df -h / /var 2>/dev/null || df -h; printf '\n__END__\n'"@
    } else if i == 1 {
        "printf '__PROCESSES__\n'; ps aux | grep -E 'nginx|java|node' | grep -v grep | head -n 20; printf '\n__PORTS__\n'; ss -ltn | head -n 20; printf '\n__END__\n'"@
    } else if i == 2 {
        "tail -n 80 /var/log/app/application.log"@
    } else {
        "tail -n 80 /var/log/nginx/error.log"@
    }
}

fn preset(i: usize) -> (r: (&'static str, &'static str))
    requires i < 4,
    ensures r.0@ == preset_name(i as int), r.1@ == preset_command(i as int),
{
    if i == 0 {
        ("system_overview", "printf '__LOAD__\n'; uptime; printf '\n__MEM__\n'; free -m; printf '\n__DISK__\n'; df -h / /var 2>/dev/null || df -h; printf '\n__END__\n'")
    } else if i == 1 {
        ("check_process_ports", "printf '__PROCESSES__\n'; ps aux | grep -E 'nginx|java|node' | grep -v grep | head -n 20; printf '\n__PORTS__\n'; ss -ltn | head -n 20; printf '\n__END__\n'")
    } else if i == 2 {
        ("tail_app_log", "tail -n 80 /var/log/app/application.log")
    } else {
        ("tail_nginx_error", "tail -n 80 /var/log/nginx/error.log")
    }
}

/// The four whitelisted commands, in order.
pub fn allowed_commands() -> (r: Vec<String>)
    ensures
        r@.len() == 4,
        forall|i: int| 0 <= i < 4 ==> (#[trigger] r@[i])@ == preset_command(i),
{
    let mut r: Vec<String> = Vec::new();
    let mut i: usize = 0;
    while i < 4
        invariant
            0 <= i <= 4,
            r@.len() == i,
            forall|j: int| 0 <= j < i ==> (#[trigger] r@[j])@ == preset_command(j),
        decreases 4 - i,
    {
        let (_, c) = preset(i);
        r.push(owned(c));
        i += 1;
    }
    r
}

/// A character allowed in a remote log path.
pub open spec fn is_path_char(c: char) -> bool {
    is_ascii_alnum(c) || c == '/' || c == '.' || c == '_' || c == '-'
}

/// What `sanitize_remote_log_path` answers.
pub open spec fn sanitize_remote_log_path_spec(path: Seq<char>) -> Result<Seq<char>, Seq<char>> {
    let t = trim(path);
    if t.len() == 0 {
        Err("SSH log path cannot be empty."@)
    } else if t[0] != '/' {
        Err("SSH log path must be an absolute path."@)
    } else if forall|i: int| 0 <= i < t.len() ==> #[trigger] is_path_char(t[i]) {
        Ok(t)
    } else {
        Err("SSH log path contains unsupported characters."@)
    }
}

/// Accepts an absolute path made only of ASCII letters, digits, `/`, `.`, `_` and `-`.
pub fn sanitize_remote_log_path(path: &str) -> (r: Result<String, String>)
    ensures
        match r {
            Ok(p) => sanitize_remote_log_path_spec(path@) == Ok::<Seq<char>, Seq<char>>(p@),
            Err(e) => sanitize_remote_log_path_spec(path@) == Err::<Seq<char>, Seq<char>>(e@),
        },
{
    let t = trim_str(path);
    if t.len() == 0 {
        return Err(owned("SSH log path cannot be empty."));
    }
    if t[0] != '/' {
        return Err(owned("SSH log path must be an absolute path."));
    }
    let mut i: usize = 0;
    while i < t.len()
        invariant
            0 <= i <= t@.len(),
            t@ == trim(path@),
            t@.len() > 0,
            t@[0] == '/',
            forall|j: int| 0 <= j < i ==> #[trigger] is_path_char(t@[j]),
        decreases t@.len() - i,
    {
        let c = t[i];
        if !(char_is_alnum(c) || c == '/' || c == '.' || c == '_' || c == '-') {
            assert(!is_path_char(t@[i as int]));
            assert(!(forall|j: int| 0 <= j < t@.len() ==> #[trigger] is_path_char(t@[j])));
            return Err(owned("SSH log path contains unsupported characters."));
        }
        i += 1;
    }
    Ok(string_of(&t))
}

/// The log path a tail preset reads: the requested one unless it is blank.
pub open spec fn chosen_log_path(log_path: Option<Seq<char>>, default: Seq<char>) -> Seq<char> {
    match log_path {
        Some(p) if !is_blank(p) => p,
        _ => default,
    }
}

/// What `resolve_command` answers for a preset name and an optional log path.
pub open spec fn resolve_command_spec(preset: Seq<char>, log_path: Option<Seq<char>>) -> Result<Seq<char>, Seq<char>> {
    if preset == "tail_app_log"@ || preset == "tail_nginx_error"@ {
        let default = if preset == "tail_app_log"@ { "/var/log/app/application.log"@ } else { "/var/log/nginx/error.log"@ };
        match sanitize_remote_log_path_spec(chosen_log_path(log_path, default)) {
            Ok(p) => Ok("tail -n 80 "@ + p),
            Err(e) => Err(e),
        }
    } else if preset == preset_name(0) {
        Ok(preset_command(0))
    } else if preset == preset_name(1) {
        Ok(preset_command(1))
    } else {
        Err("Unsupported SSH command preset: "@ + preset)
    }
}

/// The remote command for a preset; the tail presets read the requested log path,
/// which must pass `sanitize_remote_log_path`.
pub fn resolve_command(command_preset: &str, log_path: Option<&str>) -> (r: Result<String, String>)
    ensures
        match r {
            Ok(c) => resolve_command_spec(command_preset@, match log_path { Some(p) => Some(p@), None => None })
                == Ok::<Seq<char>, Seq<char>>(c@),
            Err(e) => resolve_command_spec(command_preset@, match log_path { Some(p) => Some(p@), None => None })
                == Err::<Seq<char>, Seq<char>>(e@),
        },
{
    let is_app = str_eq(command_preset, "tail_app_log");
    let is_nginx = str_eq(command_preset, "tail_nginx_error");
    if is_app || is_nginx {
        let default = if is_app { "/var/log/app/application.log" } else { "/var/log/nginx/error.log" };
        let chosen = match log_path {
            Some(p) => if !is_blank_str(p) { p } else { default },
            None => default,
        };
        match sanitize_remote_log_path(chosen) {
            Ok(p) => {
                let mut out = chars_of("tail -n 80 ");
                push_str(&mut out, p.as_str());
                Ok(string_of(&out))
            },
            Err(e) => Err(e),
        }
    } else {
        let mut i: usize = 0;
        while i < 4
            invariant
                0 <= i <= 4,
                command_preset@ != "tail_app_log"@,
                command_preset@ != "tail_nginx_error"@,
                forall|j: int| 0 <= j < i ==> command_preset@ != #[trigger] preset_name(j),
            decreases 4 - i,
        {
            let (name, command) = preset(i);
            if str_eq(command_preset, name) {
                return Ok(owned(command));
            }
            i += 1;
        }
        let mut out = chars_of("Unsupported SSH command preset: ");
        push_str(&mut out, command_preset);
        Err(string_of(&out))
    }
}

/// What `is_valid_remote_command` accepts: a whitelisted command, or any command that
/// starts like the tail presets do.
pub open spec fn is_valid_remote_command_spec(command: Seq<char>) -> bool {
    exists|i: int| 0 <= i < 4 && (command == #[trigger] preset_command(i)
        || (starts_with(preset_command(i), "tail -n 80 "@) && starts_with(command, "tail -n 80 "@)))
}

pub fn is_valid_remote_command(command: &str) -> (r: bool)
    ensures r == is_valid_remote_command_spec(command@),
{
    let allowed = allowed_commands();
    let cv = chars_of(command);
    let prefix = chars_of("tail -n 80 ");
    let mut i: usize = 0;
    while i < 4
        invariant
            0 <= i <= 4,
            allowed@.len() == 4,
            forall|k: int| 0 <= k < 4 ==> (#[trigger] allowed@[k])@ == preset_command(k),
            cv@ == command@,
            prefix@ == "tail -n 80 "@,
            forall|j: int| 0 <= j < i ==> !(command@ == #[trigger] preset_command(j)
                || (starts_with(preset_command(j), "tail -n 80 "@) && starts_with(command@, "tail -n 80 "@))),
        decreases 4 - i,
    {
        let a = chars_of(allowed[i].as_str());
        if crate::text::chars_eq(&cv, &a) {
            return true;
        }
        if starts_with_exec(&a, &prefix) && starts_with_exec(&cv, &prefix) {
            return true;
        }
        i += 1;
    }
    false
}

/// Every command that `resolve_command` yields passes the whitelist check, and it is
/// either one of the two fixed presets or `tail -n 80 ` followed by an absolute path made
/// only of ASCII letters, digits, `/`, `.`, `_` and `-` (so no shell syntax can enter).
pub proof fn law_resolved_commands_are_whitelisted(preset: Seq<char>, log_path: Option<Seq<char>>)
    requires resolve_command_spec(preset, log_path) is Ok,
    ensures ({
        let c = resolve_command_spec(preset, log_path)->Ok_0;
        &&& is_valid_remote_command_spec(c)
        &&& (c == preset_command(0) || c == preset_command(1) || exists|p: Seq<char>| {
            &&& c == "tail -n 80 "@ + p
            &&& p.len() > 0 && p[0] == '/'
            &&& forall|i: int| 0 <= i < p.len() ==> #[trigger] is_path_char(p[i])
        })
    }),
{
    let c = resolve_command_spec(preset, log_path)->Ok_0;
    reveal_strlit("tail -n 80 ");
    reveal_strlit("tail -n 80 /var/log/app/application.log");
    if c == preset_command(0) {
        assert(c == preset_command(0));
    } else if c == preset_command(1) {
        assert(c == preset_command(1));
    } else {
        let default = if preset == "tail_app_log"@ { "/var/log/app/application.log"@ } else { "/var/log/nginx/error.log"@ };
        let p = sanitize_remote_log_path_spec(chosen_log_path(log_path, default))->Ok_0;
        assert(c == "tail -n 80 "@ + p);
        assert(p.len() > 0 && p[0] == '/');
        assert(starts_with(preset_command(2), "tail -n 80 "@)) by {
            assert(preset_command(2).take(11) =~= "tail -n 80 "@);
        }
        assert(starts_with(c, "tail -n 80 "@)) by {
            assert(c.take(11) =~= "tail -n 80 "@);
        }
        assert(is_valid_remote_command_spec(c)) by {
            assert(starts_with(preset_command(2), "tail -n 80 "@) && starts_with(c, "tail -n 80 "@));
        }
    }
}


// ---------------------------------------------------------------------------
// Reading command output
// ---------------------------------------------------------------------------

/// The trimmed section of `stdout` between the markers `start` and `end`
/// (`__END__` closes the section at the end of the output).
pub open spec fn extract_after_marker_spec(stdout: Seq<char>, start: Seq<char>, end: Seq<char>) -> Option<Seq<char>> {
    match split_once_str(stdout, start) {
        None => None,
        Some((_, after)) => {
            let section = trim_start_char(after, '\n');
            if end == "__END__"@ {
                Some(trim(section))
            } else {
                match split_once_str(section, end) {
                    Some((body, _)) => Some(trim(body)),
                    None => None,
                }
            }
        },
    }
}

pub fn extract_after_marker(stdout: &[char], start: &str, end: &str) -> (r: Option<Vec<char>>)
    ensures
        match r {
            Some(v) => extract_after_marker_spec(stdout@, start@, end@) == Some(v@),
            None => extract_after_marker_spec(stdout@, start@, end@) is None,
        },
{
    let (_, after) = match split_once_str_exec(stdout, start) {
        Some(parts) => parts,
        None => return None,
    };
    let section = trim_start_char_exec(&after, '\n');
    if str_eq(end, "__END__") {
        return Some(trim_exec(&section));
    }
    match split_once_str_exec(&section, end) {
        Some((body, _)) => Some(trim_exec(&body)),
        None => None,
    }
}

/// `ERROR` for lines that mention an error, a failure or a refusal; `WARN` for warnings
/// and timeouts; otherwise `INFO` (ignoring ASCII case).
pub open spec fn detect_level_spec(line: Seq<char>) -> Seq<char> {
    let l = lower(line);
    if contains(l, "error"@) || contains(l, "failed"@) || contains(l, "refused"@) {
        "ERROR"@
    } else if contains(l, "warn"@) || contains(l, "timeout"@) {
        "WARN"@
    } else {
        "INFO"@
    }
}

pub fn detect_level(line: &[char]) -> (r: &'static str)
    ensures r@ == detect_level_spec(line@),
{
    let l = to_lower(line);
    if contains_str(&l, "error") || contains_str(&l, "failed") || contains_str(&l, "refused") {
        "ERROR"
    } else if contains_str(&l, "warn") || contains_str(&l, "timeout") {
        "WARN"
    } else {
        "INFO"
    }
}

/// `warning` for a value that mentions an 8 or a 9, else `healthy`.
pub open spec fn infer_status_spec(value: Seq<char>) -> Seq<char> {
    if has_char(value, '8') || has_char(value, '9') { "warning"@ } else { "healthy"@ }
}

pub fn infer_status(value: &[char]) -> (r: &'static str)
    ensures r@ == infer_status_spec(value@),
{
    if has_char_exec(value, '8') || has_char_exec(value, '9') { "warning" } else { "healthy" }
}

/// From the first line of `free -m` output that starts with `Mem:` and has three
/// columns: `<used> used of <total> MB`.
pub open spec fn mem_value_in(ls: Seq<Seq<char>>) -> Option<Seq<char>>
    decreases ls.len(),
{
    if ls.len() == 0 {
        None
    } else {
        let t = trim(ls[0]);
        let parts = split_whitespace(t);
        if starts_with(t, "Mem:"@) && parts.len() >= 3 {
            Some(parts[2] + " used of "@ + parts[1] + " MB"@)
        } else {
            mem_value_in(ls.drop_first())
        }
    }
}

pub fn find_mem_value(section: &[char]) -> (r: Option<Vec<char>>)
    ensures
        match r {
            Some(v) => mem_value_in(lines(section@)) == Some(v@),
            None => mem_value_in(lines(section@)) is None,
        },
{
    let ls = lines_exec(section);
    let ghost lv = views(ls@);
    let mut i: usize = 0;
    assert(lv.skip(0) =~= lv);
    while i < ls.len()
        invariant
            0 <= i <= ls@.len(),
            lv == views(ls@),
            lv == lines(section@),
            mem_value_in(lv) == mem_value_in(lv.skip(i as int)),
        decreases ls@.len() - i,
    {
        let t = trim_exec(&ls[i]);
        let parts = split_whitespace_exec(&t);
        assert(lv.skip(i as int)[0] == ls@[i as int]@);
        if starts_with_str(&t, "Mem:") && parts.len() >= 3 {
            let mut out = copy_chars(&parts[2]);
            push_str(&mut out, " used of ");
            push_chars(&mut out, &parts[1]);
            push_str(&mut out, " MB");
            return Some(out);
        }
        assert(lv.skip(i as int).drop_first() =~= lv.skip(i + 1));
        i += 1;
    }
    None
}

/// The `Use%` column of the first `df -h` line that mentions a mount under `/`
/// (the trimmed line itself when it has fewer than five columns).
pub open spec fn disk_value_in(ls: Seq<Seq<char>>) -> Option<Seq<char>>
    decreases ls.len(),
{
    if ls.len() == 0 {
        None
    } else if contains(ls[0], " /"@) || contains(ls[0], " /var"@) {
        let parts = split_whitespace(ls[0]);
        Some(if parts.len() >= 5 { parts[4] } else { trim(ls[0]) })
    } else {
        disk_value_in(ls.drop_first())
    }
}

pub fn find_disk_value(section: &[char]) -> (r: Option<Vec<char>>)
    ensures
        match r {
            Some(v) => disk_value_in(lines(section@)) == Some(v@),
            None => disk_value_in(lines(section@)) is None,
        },
{
    let ls = lines_exec(section);
    let ghost lv = views(ls@);
    let mut i: usize = 0;
    assert(lv.skip(0) =~= lv);
    while i < ls.len()
        invariant
            0 <= i <= ls@.len(),
            lv == views(ls@),
            lv == lines(section@),
            disk_value_in(lv) == disk_value_in(lv.skip(i as int)),
        decreases ls@.len() - i,
    {
        let line = &ls[i];
        assert(lv.skip(i as int)[0] == ls@[i as int]@);
        if contains_str(line, " /") || contains_str(line, " /var") {
            let parts = split_whitespace_exec(line);
            if parts.len() >= 5 {
                return Some(copy_chars(&parts[4]));
            } else {
                return Some(trim_exec(line));
            }
        }
        assert(lv.skip(i as int).drop_first() =~= lv.skip(i + 1));
        i += 1;
    }
    None
}

pub open spec fn health_view(m: SshHealthMetric) -> (Seq<char>, Seq<char>, Seq<char>, Seq<char>) {
    (m.label@, m.status@, m.value@, m.detail@)
}

fn health(label: &str, status: &str, value: String, detail: String) -> (r: SshHealthMetric)
    ensures health_view(r) == (label@, status@, value@, detail@),
{
    SshHealthMetric { label: owned(label), status: owned(status), value, detail }
}

fn health_str(label: &str, status: &str, value: &str, detail: &str) -> (r: SshHealthMetric)
    ensures health_view(r) == (label@, status@, value@, detail@),
{
    health(label, status, owned(value), owned(detail))
}

pub open spec fn or_unavailable(v: Option<Seq<char>>) -> Seq<char> {
    match v { Some(x) => x, None => "unavailable"@ }
}

/// The first line of a section, trimmed.
pub open spec fn first_line_trimmed(section: Seq<char>) -> Option<Seq<char>> {
    if lines(section).len() > 0 { Some(trim(lines(section)[0])) } else { None }
}

pub open spec fn system_values(stdout: Seq<char>) -> (Seq<char>, Seq<char>, Seq<char>) {
    let load = match extract_after_marker_spec(stdout, "__LOAD__"@, "__MEM__"@) {
        Some(s) => first_line_trimmed(s),
        None => None,
    };
    let mem = match extract_after_marker_spec(stdout, "__MEM__"@, "__DISK__"@) {
        Some(s) => mem_value_in(lines(s)),
        None => None,
    };
    let disk = match extract_after_marker_spec(stdout, "__DISK__"@, "__END__"@) {
        Some(s) => disk_value_in(lines(s)),
        None => None,
    };
    (or_unavailable(load), or_unavailable(mem), or_unavailable(disk))
}

/// The CPU, memory, disk and ports metrics of the `system_overview` preset.
pub open spec fn system_metrics_spec(target_host: Seq<char>, stdout: Seq<char>) -> Seq<(Seq<char>, Seq<char>, Seq<char>, Seq<char>)> {
    let (load, mem, disk) = system_values(stdout);
    seq![
        ("CPU"@, infer_status_spec(load), load, "Load sample collected from "@ + target_host + "."@),
        ("Memory"@, infer_status_spec(mem), mem, "Memory summary parsed from remote host output."@),
        ("Disk"@, infer_status_spec(disk), disk, "/ and /var usage returned by the host."@),
        ("Ports"@, "healthy"@, "n/a"@, "Use the process and ports preset for listener-level diagnostics."@),
    ]
}

pub open spec fn health_views(rs: Seq<SshHealthMetric>) -> Seq<(Seq<char>, Seq<char>, Seq<char>, Seq<char>)> {
    rs.map_values(|m: SshHealthMetric| health_view(m))
}

pub fn parse_system_metrics(target_host: &str, stdout: &[char]) -> (r: Vec<SshHealthMetric>)
    ensures health_views(r@) == system_metrics_spec(target_host@, stdout@),
{
    let load = match extract_after_marker(stdout, "__LOAD__", "__MEM__") {
        Some(section) => {
            let ls = lines_exec(&section);
            if ls.len() > 0 { Some(trim_exec(&ls[0])) } else { None }
        },
        None => None,
    };
    let load = match load { Some(v) => v, None => chars_of("unavailable") };
    let mem = match extract_after_marker(stdout, "__MEM__", "__DISK__") {
        Some(section) => find_mem_value(&section),
        None => None,
    };
    let mem = match mem { Some(v) => v, None => chars_of("unavailable") };
    let disk = match extract_after_marker(stdout, "__DISK__", "__END__") {
        Some(section) => find_disk_value(&section),
        None => None,
    };
    let disk = match disk { Some(v) => v, None => chars_of("unavailable") };
    let mut detail = chars_of("Load sample collected from ");
    push_str(&mut detail, target_host);
    push_str(&mut detail, ".");
    let mut r: Vec<SshHealthMetric> = Vec::new();
    r.push(health("CPU", infer_status(&load), string_of(&load), string_of(&detail)));
    r.push(health("Memory", infer_status(&mem), string_of(&mem), owned("Memory summary parsed from remote host output.")));
    r.push(health("Disk", infer_status(&disk), string_of(&disk), owned("/ and /var usage returned by the host.")));
    r.push(health_str("Ports", "healthy", "n/a", "Use the process and ports preset for listener-level diagnostics."));
    assert(health_views(r@) =~= system_metrics_spec(target_host@, stdout@));
    r
}

/// How many lines are not blank.
pub open spec fn count_nonblank(ls: Seq<Seq<char>>) -> nat
    decreases ls.len(),
{
    if ls.len() == 0 { 0 } else { count_nonblank(ls.drop_last()) + if is_blank(ls.last()) { 0nat } else { 1nat } }
}

/// The last word of a line (empty when it has none).
pub open spec fn last_word(line: Seq<char>) -> Seq<char> {
    let w = split_whitespace(line);
    if w.len() > 0 { w.last() } else { Seq::empty() }
}

/// The last word of each line that mentions `LISTEN`, for at most `limit` such lines.
pub open spec fn listeners_in(ls: Seq<Seq<char>>) -> Seq<Seq<char>>
    decreases ls.len(),
{
    if ls.len() == 0 {
        Seq::empty()
    } else {
        let prev = listeners_in(ls.drop_last());
        if contains(ls.last(), "LISTEN"@) { prev.push(last_word(ls.last())) } else { prev }
    }
}

pub open spec fn first_n<A>(s: Seq<A>, n: int) -> Seq<A> {
    if s.len() <= n { s } else { s.take(n) }
}

fn count_nonblank_exec(ls: &Vec<Vec<char>>) -> (r: u64)
    ensures r == count_nonblank(views(ls@)),
{
    let ghost lv = views(ls@);
    let mut n: u64 = 0;
    let mut i: usize = 0;
    while i < ls.len()
        invariant
            0 <= i <= ls@.len(),
            lv == views(ls@),
            n == count_nonblank(lv.take(i as int)),
            n <= i,
        decreases ls@.len() - i,
    {
        assert(lv.take(i + 1).drop_last() =~= lv.take(i as int));
        if !is_blank_exec(&ls[i]) {
            n += 1;
        }
        i += 1;
    }
    assert(lv.take(i as int) =~= lv);
    n
}

fn listeners_exec(ls: &Vec<Vec<char>>) -> (r: Vec<Vec<char>>)
    ensures views(r@) == first_n(listeners_in(views(ls@)), 5),
{
    let ghost lv = views(ls@);
    let mut out: Vec<Vec<char>> = Vec::new();
    let mut i: usize = 0;
    while i < ls.len()
        invariant
            0 <= i <= ls@.len(),
            lv == views(ls@),
            views(out@) == listeners_in(lv.take(i as int)),
        decreases ls@.len() - i,
    {
        assert(lv.take(i + 1).drop_last() =~= lv.take(i as int));
        if contains_str(&ls[i], "LISTEN") {
            let words = split_whitespace_exec(&ls[i]);
            let w = if words.len() > 0 { copy_chars(&words[words.len() - 1]) } else { Vec::new() };
            let ghost before = out@;
            out.push(w);
            assert(views(out@) =~= views(before).push(w@));
        }
        i += 1;
    }
    assert(lv.take(i as int) =~= lv);
    if out.len() > 5 {
        let mut cut: Vec<Vec<char>> = Vec::new();
        let mut k: usize = 0;
        while k < 5
            invariant
                0 <= k <= 5,
                out@.len() > 5,
                views(cut@) == views(out@).take(k as int),
            decreases 5 - k,
        {
            let c = copy_chars(&out[k]);
            let ghost before = cut@;
            cut.push(c);
            k += 1;
            assert(views(cut@) =~= views(before).push(c@));
            assert(views(cut@) =~= views(out@).take(k as int));
        }
        cut
    } else {
        out
    }
}

pub open spec fn process_values(stdout: Seq<char>) -> (nat, Seq<Seq<char>>) {
    let processes = match extract_after_marker_spec(stdout, "__PROCESSES__"@, "__PORTS__"@) { Some(s) => s, None => Seq::empty() };
    let ports = match extract_after_marker_spec(stdout, "__PORTS__"@, "__END__"@) { Some(s) => s, None => Seq::empty() };
    (count_nonblank(lines(processes)), first_n(listeners_in(lines(ports)), 5))
}

/// The metrics of the `check_process_ports` preset: listeners and matching processes.
pub open spec fn process_metrics_spec(stdout: Seq<char>) -> Seq<(Seq<char>, Seq<char>, Seq<char>, Seq<char>)> {
    let (count, listeners) = process_values(stdout);
    seq![
        ("CPU"@, "healthy"@, "n/a"@, "Use system overview for CPU metrics."@),
        ("Memory"@, "healthy"@, "n/a"@, "Use system overview for memory metrics."@),
        ("Disk"@, "healthy"@, "n/a"@, "Use system overview for disk metrics."@),
        ("Ports"@,
            if listeners.len() == 0 { "warning"@ } else { "healthy"@ },
            if listeners.len() == 0 { "no listeners found"@ } else { join(listeners, ", "@) },
            decimal(count) + " matching process rows returned from the host."@),
    ]
}

pub fn parse_process_metrics(stdout: &[char]) -> (r: Vec<SshHealthMetric>)
    ensures health_views(r@) == process_metrics_spec(stdout@),
{
    let processes = match extract_after_marker(stdout, "__PROCESSES__", "__PORTS__") { Some(s) => s, None => Vec::new() };
    let ports = match extract_after_marker(stdout, "__PORTS__", "__END__") { Some(s) => s, None => Vec::new() };
    let pls = lines_exec(&processes);
    let count = count_nonblank_exec(&pls);
    let tls = lines_exec(&ports);
    let listeners = listeners_exec(&tls);
    let value = if listeners.len() == 0 { owned("no listeners found") } else { string_of(&join_exec(&listeners, ", ")) };
    let mut detail: Vec<char> = Vec::new();
    push_decimal(&mut detail, count);
    push_str(&mut detail, " matching process rows returned from the host.");
    let mut r: Vec<SshHealthMetric> = Vec::new();
    r.push(health_str("CPU", "healthy", "n/a", "Use system overview for CPU metrics."));
    r.push(health_str("Memory", "healthy", "n/a", "Use system overview for memory metrics."));
    r.push(health_str("Disk", "healthy", "n/a", "Use system overview for disk metrics."));
    r.push(health("Ports", if listeners.len() == 0 { "warning" } else { "healthy" }, value, string_of(&detail)));
    assert(health_views(r@) =~= process_metrics_spec(stdout@));
    r
}

/// How many lines are at `level`.
pub open spec fn count_level(ls: Seq<Seq<char>>, level: Seq<char>) -> nat
    decreases ls.len(),
{
    if ls.len() == 0 { 0 } else { count_level(ls.drop_last(), level) + if detect_level_spec(ls.last()) == level { 1nat } else { 0nat } }
}

fn count_level_exec(ls: &Vec<Vec<char>>, level: &str) -> (r: u64)
    ensures r == count_level(views(ls@), level@),
{
    let ghost lv = views(ls@);
    let mut n: u64 = 0;
    let mut i: usize = 0;
    while i < ls.len()
        invariant
            0 <= i <= ls@.len(),
            lv == views(ls@),
            n == count_level(lv.take(i as int), level@),
            n <= i,
        decreases ls@.len() - i,
    {
        assert(lv.take(i + 1).drop_last() =~= lv.take(i as int));
        if str_eq(detect_level(&ls[i]), level) {
            n += 1;
        }
        i += 1;
    }
    assert(lv.take(i as int) =~= lv);
    n
}

/// The metrics of the tail presets: error and warning counts of the log sample.
pub open spec fn log_health_metrics_spec(stdout: Seq<char>) -> Seq<(Seq<char>, Seq<char>, Seq<char>, Seq<char>)> {
    let errors = count_level(lines(stdout), "ERROR"@);
    let warns = count_level(lines(stdout), "WARN"@);
    seq![
        ("CPU"@, "healthy"@, "n/a"@, "Tail commands focus on log evidence rather than host load."@),
        ("Memory"@, "healthy"@, "n/a"@, "Tail commands focus on log evidence rather than memory pressure."@),
        ("Disk"@, "healthy"@, "n/a"@, "Disk usage is not sampled by tail-only commands."@),
        ("Ports"@, if errors > 0 { "warning"@ } else { "healthy"@ },
            decimal(errors) + " errors / "@ + decimal(warns) + " warnings"@,
            "Derived from the current server log sample."@),
    ]
}

pub fn parse_log_health_metrics(stdout: &[char]) -> (r: Vec<SshHealthMetric>)
    ensures health_views(r@) == log_health_metrics_spec(stdout@),
{
    let ls = lines_exec(stdout);
    let errors = count_level_exec(&ls, "ERROR");
    let warns = count_level_exec(&ls, "WARN");
    let mut value: Vec<char> = Vec::new();
    push_decimal(&mut value, errors);
    push_str(&mut value, " errors / ");
    push_decimal(&mut value, warns);
    push_str(&mut value, " warnings");
    let mut r: Vec<SshHealthMetric> = Vec::new();
    r.push(health_str("CPU", "healthy", "n/a", "Tail commands focus on log evidence rather than host load."));
    r.push(health_str("Memory", "healthy", "n/a", "Tail commands focus on log evidence rather than memory pressure."));
    r.push(health_str("Disk", "healthy", "n/a", "Disk usage is not sampled by tail-only commands."));
    r.push(health("Ports", if errors > 0 { "warning" } else { "healthy" }, string_of(&value), owned("Derived from the current server log sample.")));
    assert(health_views(r@) =~= log_health_metrics_spec(stdout@));
    r
}

/// Which parser reads the output of a preset.
pub open spec fn health_parser_of(preset: Seq<char>) -> int {
    if preset == "check_process_ports"@ { 1 } else if preset == "tail_app_log"@ || preset == "tail_nginx_error"@ { 2 } else { 0 }
}

/// The health metrics of a preset's output, read by the parser that fits the preset.
pub fn parse_health_summary(command_preset: &str, target_host: &str, stdout: &str) -> (r: Vec<SshHealthMetric>)
    ensures
        health_views(r@) == if health_parser_of(command_preset@) == 1 {
            process_metrics_spec(stdout@)
        } else if health_parser_of(command_preset@) == 2 {
            log_health_metrics_spec(stdout@)
        } else {
            system_metrics_spec(target_host@, stdout@)
        },
{
    let out = chars_of(stdout);
    if str_eq(command_preset, "check_process_ports") {
        parse_process_metrics(&out)
    } else if str_eq(command_preset, "tail_app_log") || str_eq(command_preset, "tail_nginx_error") {
        parse_log_health_metrics(&out)
    } else {
        parse_system_metrics(target_host, &out)
    }
}


// ---------------------------------------------------------------------------
// Log lines, recommendations and the headline
// ---------------------------------------------------------------------------

/// Where the lines of a preset's output come from.
pub open spec fn log_source_spec(preset: Seq<char>) -> Seq<char> {
    if preset == "tail_nginx_error"@ { "nginx/error.log"@ }
    else if preset == "check_process_ports"@ { "process-audit"@ }
    else if preset == "system_overview"@ { "host-metrics"@ }
    else { "application.log"@ }
}

/// The trimmed non-blank lines of the output.
pub open spec fn nonblank_trimmed(ls: Seq<Seq<char>>) -> Seq<Seq<char>>
    decreases ls.len(),
{
    if ls.len() == 0 {
        Seq::empty()
    } else {
        let prev = nonblank_trimmed(ls.drop_last());
        if is_blank(ls.last()) { prev } else { prev.push(trim(ls.last())) }
    }
}

pub open spec fn log_line_view(l: SshLogLine) -> (Seq<char>, Seq<char>, Seq<char>, Seq<char>) {
    (l.timestamp@, l.source@, l.level@, l.message@)
}

/// The first twelve non-blank lines of a preset's output, each stamped with `now`.
pub fn parse_log_lines(command_preset: &str, stdout: &str, now: &str) -> (r: Vec<SshLogLine>)
    ensures ({
        let ls = first_n(nonblank_trimmed(lines(stdout@)), 12);
        &&& r@.len() == ls.len()
        &&& forall|i: int| 0 <= i < ls.len() ==> log_line_view(#[trigger] r@[i])
            == (now@, log_source_spec(command_preset@), detect_level_spec(ls[i]), ls[i])
    }),
{
    let source: &str = if str_eq(command_preset, "tail_nginx_error") { "nginx/error.log" }
        else if str_eq(command_preset, "check_process_ports") { "process-audit" }
        else if str_eq(command_preset, "system_overview") { "host-metrics" }
        else { "application.log" };
    let ls = crate::text::lines_str(stdout);
    let ghost lv = views(ls@);
    let mut out: Vec<SshLogLine> = Vec::new();
    let mut i: usize = 0;
    while i < ls.len() && out.len() < 12
        invariant
            0 <= i <= ls@.len(),
            lv == views(ls@),
            lv == lines(stdout@),
            source@ == log_source_spec(command_preset@),
            out@.len() == first_n(nonblank_trimmed(lv.take(i as int)), 12).len(),
            out@.len() <= 12,
            out@.len() == nonblank_trimmed(lv.take(i as int)).len(),
            forall|j: int| 0 <= j < out@.len() ==> log_line_view(#[trigger] out@[j])
                == (now@, source@, detect_level_spec(nonblank_trimmed(lv.take(i as int))[j]), nonblank_trimmed(lv.take(i as int))[j]),
        decreases ls@.len() - i,
    {
        assert(lv.take(i + 1).drop_last() =~= lv.take(i as int));
        if !is_blank_exec(&ls[i]) {
            let t = trim_exec(&ls[i]);
            let level = detect_level(&t);
            out.push(SshLogLine { timestamp: owned(now), source: owned(source), level: owned(level), message: string_of(&t) });
        }
        i += 1;
    }
    proof {
        lemma_nonblank_trimmed_prefix(lv, i as int);
        if i < ls@.len() {
            assert(first_n(nonblank_trimmed(lv), 12) =~= nonblank_trimmed(lv.take(i as int)));
        } else {
            assert(lv.take(i as int) =~= lv);
        }
    }
    out
}

proof fn lemma_nonblank_trimmed_prefix(ls: Seq<Seq<char>>, i: int)
    requires 0 <= i <= ls.len(),
    ensures
        nonblank_trimmed(ls.take(i)).len() <= nonblank_trimmed(ls).len(),
        forall|j: int| 0 <= j < nonblank_trimmed(ls.take(i)).len() ==>
            #[trigger] nonblank_trimmed(ls.take(i))[j] == nonblank_trimmed(ls)[j],
    decreases ls.len() - i,
{
    if i < ls.len() {
        lemma_nonblank_trimmed_prefix(ls, i + 1);
        assert(ls.take(i + 1).drop_last() =~= ls.take(i));
        let a = nonblank_trimmed(ls.take(i));
        let b = nonblank_trimmed(ls.take(i + 1));
        assert(forall|j: int| 0 <= j < a.len() ==> #[trigger] a[j] == b[j]);
    } else {
        assert(ls.take(i) =~= ls);
    }
}

/// Any metric is at `warning`.
pub open spec fn any_warning(hs: Seq<SshHealthMetric>) -> bool {
    exists|i: int| 0 <= i < hs.len() && (#[trigger] hs[i]).status@ == "warning"@
}

/// How many metrics are at `warning`.
pub open spec fn count_warning(hs: Seq<SshHealthMetric>) -> nat
    decreases hs.len(),
{
    if hs.len() == 0 { 0 } else { count_warning(hs.drop_last()) + if hs.last().status@ == "warning"@ { 1nat } else { 0nat } }
}

fn count_warning_exec(hs: &Vec<SshHealthMetric>) -> (r: u64)
    ensures
        r == count_warning(hs@),
        (r > 0) == any_warning(hs@),
{
    let mut n: u64 = 0;
    let mut i: usize = 0;
    while i < hs.len()
        invariant
            0 <= i <= hs@.len(),
            n == count_warning(hs@.take(i as int)),
            n <= i,
            (n > 0) == any_warning(hs@.take(i as int)),
        decreases hs@.len() - i,
    {
        assert(hs@.take(i + 1).drop_last() =~= hs@.take(i as int));
        let ghost before = hs@.take(i as int);
        if str_eq(hs[i].status.as_str(), "warning") {
            n += 1;
            assert(hs@.take(i + 1)[i as int] == hs@[i as int]);
        } else {
            assert forall|k: int| 0 <= k < i + 1 implies !((#[trigger] hs@.take(i + 1)[k]).status@ == "warning"@) || any_warning(before) by {
                if k < i {
                    assert(hs@.take(i + 1)[k] == before[k]);
                }
            }
        }
        i += 1;
    }
    assert(hs@.take(i as int) =~= hs@);
    n
}

/// What the diagnostics recommend next.
pub open spec fn recommendations_spec(preset: Seq<char>, hs: Seq<SshHealthMetric>) -> Seq<Seq<char>> {
    let base = seq![
        "Compare this host snapshot with Kubernetes pod health and recent log clusters in the same time window."@,
        "Keep remediation read-only for now and capture the strongest evidence into the investigation timeline."@,
    ];
    let with_warning = if any_warning(hs) {
        base.push("Check whether elevated CPU or memory aligns with the first error spike in application logs."@)
    } else {
        base
    };
    if preset == "tail_nginx_error"@ {
        with_warning.push("Correlate Nginx upstream failures with application listener health and recent deploy activity."@)
    } else {
        with_warning
    }
}

pub fn build_recommendations(command_preset: &str, health_summary: &Vec<SshHealthMetric>) -> (r: Vec<String>)
    ensures string_views(r@) == recommendations_spec(command_preset@, health_summary@),
{
    let mut actions: Vec<String> = Vec::new();
    actions.push(owned("Compare this host snapshot with Kubernetes pod health and recent log clusters in the same time window."));
    actions.push(owned("Keep remediation read-only for now and capture the strongest evidence into the investigation timeline."));
    if count_warning_exec(health_summary) > 0 {
        actions.push(owned("Check whether elevated CPU or memory aligns with the first error spike in application logs."));
    }
    if str_eq(command_preset, "tail_nginx_error") {
        actions.push(owned("Correlate Nginx upstream failures with application listener health and recent deploy activity."));
    }
    assert(string_views(actions@) =~= recommendations_spec(command_preset@, health_summary@));
    actions
}

/// The headline of the diagnostics.
pub open spec fn ssh_summary_spec(target_host: Seq<char>, preset: Seq<char>, hs: Seq<SshHealthMetric>, ls: Seq<SshLogLine>) -> Seq<char> {
    let top = if ls.len() > 0 { ls[0].message@ } else { "No log samples returned."@ };
    target_host + " returned "@ + decimal(count_warning(hs)) + " warning metric(s) for "@ + preset
        + ". Most recent signal: "@ + top
}

pub fn build_ssh_summary(target_host: &str, command_preset: &str, health_summary: &Vec<SshHealthMetric>, log_lines: &Vec<SshLogLine>) -> (r: String)
    ensures r@ == ssh_summary_spec(target_host@, command_preset@, health_summary@, log_lines@),
{
    let warnings = count_warning_exec(health_summary);
    let mut out = chars_of(target_host);
    push_str(&mut out, " returned ");
    push_decimal(&mut out, warnings);
    push_str(&mut out, " warning metric(s) for ");
    push_str(&mut out, command_preset);
    push_str(&mut out, ". Most recent signal: ");
    if log_lines.len() > 0 {
        push_str(&mut out, log_lines[0].message.as_str());
    } else {
        push_str(&mut out, "No log samples returned.");
    }
    string_of(&out)
}

// ---------------------------------------------------------------------------
// Connection settings
// ---------------------------------------------------------------------------

/// What `parse_host_and_port` answers: hosts with spaces are refused; `host:port` splits
/// at the last colon when the host has no other colon and the port is a `u16`.
pub open spec fn parse_host_and_port_spec(endpoint: Seq<char>) -> Result<(Seq<char>, Option<u16>), Seq<char>> {
    if has_char(endpoint, ' ') {
        Err("SSH host cannot contain spaces."@)
    } else {
        match rsplit_once(endpoint, ':') {
            Some((host, port)) => if has_char(host, ':') {
                Ok((endpoint, None))
            } else {
                match parse_unsigned(port, u16::MAX as nat) {
                    Some(p) => Ok((host, Some(p as u16))),
                    None => Ok((endpoint, None)),
                }
            },
            None => Ok((endpoint, None)),
        }
    }
}

pub fn parse_host_and_port(endpoint: &[char]) -> (r: Result<(Vec<char>, Option<u16>), String>)
    ensures
        match r {
            Ok((h, p)) => parse_host_and_port_spec(endpoint@) == Ok::<(Seq<char>, Option<u16>), Seq<char>>((h@, p)),
            Err(e) => parse_host_and_port_spec(endpoint@) == Err::<(Seq<char>, Option<u16>), Seq<char>>(e@),
        },
{
    if has_char_exec(endpoint, ' ') {
        return Err(owned("SSH host cannot contain spaces."));
    }
    match rsplit_once_exec(endpoint, ':') {
        Some((host, port)) => {
            if has_char_exec(&host, ':') {
                return Ok((copy_chars(endpoint), None));
            }
            match parse_u16(&port) {
                Some(p) => Ok((host, Some(p))),
                None => Ok((copy_chars(endpoint), None)),
            }
        },
        None => Ok((copy_chars(endpoint), None)),
    }
}

/// The SSH settings of a profile.
pub struct SshConfig {
    pub host: String,
    pub port: Option<u16>,
    pub username: Option<String>,
    pub private_key_path: Option<String>,
    pub auth_mode: String,
    pub strict_host_key_checking: bool,
    pub known_hosts_path: Option<String>,
}

/// `Some(trimmed)` when the value is not blank.
pub open spec fn nonblank_trimmed_opt(v: Option<Seq<char>>) -> Option<Seq<char>> {
    match v {
        Some(s) => if is_blank(s) { None } else { Some(trim(s)) },
        None => None,
    }
}

/// `value` unless it is blank.
pub open spec fn nonblank_opt(v: Option<Seq<char>>) -> Option<Seq<char>> {
    match v {
        Some(s) => if is_blank(s) { None } else { Some(s) },
        None => None,
    }
}

pub open spec fn u16_of(v: Option<u64>) -> Option<u16> {
    match v {
        Some(n) => if n <= u16::MAX { Some(n as u16) } else { None },
        None => None,
    }
}

pub open spec fn ssh_config_json(config_json: Seq<char>) -> Seq<char> {
    if is_blank(config_json) { "{}"@ } else { config_json }
}

/// The target host: the override when it is not blank, else the profile's endpoint; both trimmed.
pub open spec fn ssh_endpoint_spec(host_override: Option<Seq<char>>, endpoint: Seq<char>) -> Seq<char> {
    match nonblank_trimmed_opt(host_override) {
        Some(h) => h,
        None => trim(endpoint),
    }
}

/// The settings read from a profile, or the message of what is wrong with it.
pub open spec fn ssh_config_matches(c: SshConfig, profile: ConnectionProfile, host_override: Option<Seq<char>>) -> bool {
    let m = spec_parse_json(ssh_config_json(profile.config_json@))->Some_0;
    let (host, endpoint_port) = parse_host_and_port_spec(ssh_endpoint_spec(host_override, profile.endpoint@))->Ok_0;
    let key = nonblank_trimmed_opt(model_get_str(m, "privateKeyPath"@));
    &&& c.host@ == host
    &&& c.port == match u16_of(model_get_u64(m, "port"@)) { Some(p) => Some(p), None => endpoint_port }
    &&& opt_view(c.username) == nonblank_opt(opt_view(profile.username))
    &&& opt_view(c.private_key_path) == key
    &&& c.auth_mode@ == match nonblank_trimmed_opt(model_get_str(m, "authMode"@)) {
        Some(a) => a,
        None => if key is Some { "key"@ } else { "agent"@ },
    }
    &&& opt_view(c.known_hosts_path) == nonblank_trimmed_opt(model_get_str(m, "knownHostsPath"@))
    &&& c.strict_host_key_checking == match model_get_bool(m, "strictHostKeyChecking"@) { Some(b) => b, None => true }
}

fn nonblank_trimmed_exec(v: Option<Vec<char>>) -> (r: Option<String>)
    ensures opt_view(r) == nonblank_trimmed_opt(match v { Some(s) => Some(s@), None => None }),
{
    match v {
        Some(s) => if is_blank_exec(&s) { None } else { Some(string_of(&trim_exec(&s))) },
        None => None,
    }
}

impl SshConfig {
    pub fn from_profile(profile: &ConnectionProfile, host_override: Option<&str>) -> (r: Result<SshConfig, String>)
        ensures ({
            let ho = match host_override { Some(h) => Some(h@), None => None };
            let text = ssh_config_json(profile.config_json@);
            match r {
                Ok(c) => spec_parse_json(text) is Some
                    && ssh_endpoint_spec(ho, profile.endpoint@).len() > 0
                    && parse_host_and_port_spec(ssh_endpoint_spec(ho, profile.endpoint@)) is Ok
                    && ssh_config_matches(c, *profile, ho),
                Err(e) => if spec_parse_json(text) is None {
                    e@ == "Invalid SSH profile JSON: "@ + spec_parse_json_error(text)
                } else if ssh_endpoint_spec(ho, profile.endpoint@).len() == 0 {
                    e@ == "SSH profile is missing a host or endpoint."@
                } else {
                    parse_host_and_port_spec(ssh_endpoint_spec(ho, profile.endpoint@)) == Err::<(Seq<char>, Option<u16>), Seq<char>>(e@)
                },
            }
        }),
    {
        let text = if is_blank_str(profile.config_json.as_str()) { owned("{}") } else { profile.config_json.clone() };
        let config = match parse_json_or_error(text.as_str()) {
            Ok(v) => v,
            Err(e) => {
                let mut m = chars_of("Invalid SSH profile JSON: ");
                push_str(&mut m, e.as_str());
                return Err(string_of(&m));
            },
        };
        let over = match host_override {
            Some(h) => nonblank_trimmed_exec(Some(chars_of(h))),
            None => None,
        };
        let endpoint = match over {
            Some(h) => chars_of(h.as_str()),
            None => trim_str(profile.endpoint.as_str()),
        };
        if endpoint.len() == 0 {
            return Err(owned("SSH profile is missing a host or endpoint."));
        }
        let (host, endpoint_port) = match parse_host_and_port(&endpoint) {
            Ok(hp) => hp,
            Err(e) => return Err(e),
        };
        let port = match json_get_u64(&config, "port") {
            Some(n) => if n <= 65535 { Some(n as u16) } else { endpoint_port },
            None => endpoint_port,
        };
        let private_key_path = nonblank_trimmed_exec(json_get_str(&config, "privateKeyPath"));
        let auth_mode = match nonblank_trimmed_exec(json_get_str(&config, "authMode")) {
            Some(a) => a,
            None => owned(if private_key_path.is_some() { "key" } else { "agent" }),
        };
        let known_hosts_path = nonblank_trimmed_exec(json_get_str(&config, "knownHostsPath"));
        let strict = match json_get_bool(&config, "strictHostKeyChecking") { Some(b) => b, None => true };
        let username = match &profile.username {
            Some(u) => if is_blank_str(u.as_str()) { None } else { Some(u.clone()) },
            None => None,
        };
        Ok(SshConfig {
            host: string_of(&host),
            port,
            username,
            private_key_path,
            auth_mode,
            strict_host_key_checking: strict,
            known_hosts_path,
        })
    }

    /// `user@host`, or the host alone.
    pub fn render_target(&self) -> (r: String)
        ensures r@ == render_target_spec(opt_view(self.username), self.host@),
    {
        match &self.username {
            Some(u) => {
                let mut out = chars_of(u.as_str());
                out.push('@');
                push_str(&mut out, self.host.as_str());
                string_of(&out)
            },
            None => self.host.clone(),
        }
    }
}

pub open spec fn render_target_spec(username: Option<Seq<char>>, host: Seq<char>) -> Seq<char> {
    match username {
        Some(u) => u + seq!['@'] + host,
        None => host,
    }
}


// ---------------------------------------------------------------------------
// The ssh command line
// ---------------------------------------------------------------------------

/// The arguments of the local `ssh` client for a remote command, given whether the
/// configured private key exists.
pub open spec fn ssh_args_spec(
    c: SshConfig,
    remote_command: Seq<char>,
    secret: Option<Seq<char>>,
    key_exists: bool,
) -> Result<Seq<Seq<char>>, Seq<char>> {
    if !is_valid_remote_command_spec(remote_command) {
        Err("Remote command is not in the approved whitelist."@)
    } else if c.auth_mode@ == "password"@ {
        Err("SSH profiles using password auth are not supported yet. Configure authMode=agent or authMode=key in Extra JSON."@)
    } else if c.private_key_path is Some && !key_exists {
        Err("Configured privateKeyPath does not exist: "@ + c.private_key_path->Some_0@)
    } else {
        let base = seq!["-o"@, "BatchMode=yes"@, "-o"@, "ConnectTimeout=5"@];
        let strict = if c.strict_host_key_checking {
            base + seq!["-o"@, "StrictHostKeyChecking=yes"@]
        } else {
            base + seq!["-o"@, "StrictHostKeyChecking=no"@, "-o"@, "UserKnownHostsFile=/dev/null"@]
        };
        let known = match c.known_hosts_path {
            Some(p) => strict + seq!["-o"@, "UserKnownHostsFile="@ + p@],
            None => strict,
        };
        let port = match c.port {
            Some(p) => known + seq!["-p"@, decimal(p as nat)],
            None => known,
        };
        let key = match c.private_key_path {
            Some(k) => port + seq!["-i"@, k@],
            None => port,
        };
        let auth = match secret {
            Some(s) => if is_blank(s) { key } else { key + seq!["-o"@, "PreferredAuthentications=publickey"@] },
            None => key,
        };
        Ok(auth + seq![render_target_spec(opt_view(c.username), c.host@), remote_command])
    }
}

fn push_owned(v: &mut Vec<String>, s: &str)
    ensures string_views(final(v)@) == string_views(old(v)@).push(s@),
{
    let ghost before = v@;
    v.push(owned(s));
    assert(string_views(v@) =~= string_views(before).push(s@));
}

fn push_string(v: &mut Vec<String>, s: String)
    ensures string_views(final(v)@) == string_views(old(v)@).push(s@),
{
    let ghost before = v@;
    v.push(s);
    assert(string_views(v@) =~= string_views(before).push(s@));
}

/// `r` is what `ssh_args_spec` gives for a key state.
pub open spec fn ssh_args_answer(r: Result<Vec<String>, String>, c: SshConfig, remote_command: Seq<char>,
    secret: Option<Seq<char>>, key_exists: bool) -> bool
{
    match r {
        Ok(a) => ssh_args_spec(c, remote_command, secret, key_exists) == Ok::<Seq<Seq<char>>, Seq<char>>(string_views(a@)),
        Err(e) => ssh_args_spec(c, remote_command, secret, key_exists) == Err::<Seq<Seq<char>>, Seq<char>>(e@),
    }
}

/// The `ssh` arguments once the existence of the private key is known.
#[verifier::rlimit(60)]
pub fn ssh_args_with_key_state(
    config: &SshConfig,
    remote_command: &str,
    secret: Option<&str>,
    key_exists: bool,
) -> (r: Result<Vec<String>, String>)
    ensures
        match r {
            Ok(a) => ssh_args_spec(*config, remote_command@, match secret { Some(s) => Some(s@), None => None }, key_exists)
                == Ok::<Seq<Seq<char>>, Seq<char>>(string_views(a@)),
            Err(e) => ssh_args_spec(*config, remote_command@, match secret { Some(s) => Some(s@), None => None }, key_exists)
                == Err::<Seq<Seq<char>>, Seq<char>>(e@),
        },
{
    if !is_valid_remote_command(remote_command) {
        return Err(owned("Remote command is not in the approved whitelist."));
    }
    if str_eq(config.auth_mode.as_str(), "password") {
        return Err(owned("SSH profiles using password auth are not supported yet. Configure authMode=agent or authMode=key in Extra JSON."));
    }
    match &config.private_key_path {
        Some(k) => {
            if !key_exists {
                let mut m = chars_of("Configured privateKeyPath does not exist: ");
                push_str(&mut m, k.as_str());
                return Err(string_of(&m));
            }
        },
        None => {},
    }
    let mut a: Vec<String> = Vec::new();
    push_owned(&mut a, "-o");
    push_owned(&mut a, "BatchMode=yes");
    push_owned(&mut a, "-o");
    push_owned(&mut a, "ConnectTimeout=5");
    if config.strict_host_key_checking {
        push_owned(&mut a, "-o");
        push_owned(&mut a, "StrictHostKeyChecking=yes");
    } else {
        push_owned(&mut a, "-o");
        push_owned(&mut a, "StrictHostKeyChecking=no");
        push_owned(&mut a, "-o");
        push_owned(&mut a, "UserKnownHostsFile=/dev/null");
    }
    match &config.known_hosts_path {
        Some(p) => {
            push_owned(&mut a, "-o");
            let mut o = chars_of("UserKnownHostsFile=");
            push_str(&mut o, p.as_str());
            push_string(&mut a, string_of(&o));
        },
        None => {},
    }
    match config.port {
        Some(p) => {
            push_owned(&mut a, "-p");
            push_string(&mut a, crate::text::decimal_string(p as u64));
        },
        None => {},
    }
    match &config.private_key_path {
        Some(k) => {
            push_owned(&mut a, "-i");
            push_owned(&mut a, k.as_str());
        },
        None => {},
    }
    match secret {
        Some(s) => {
            if !is_blank_str(s) {
                push_owned(&mut a, "-o");
                push_owned(&mut a, "PreferredAuthentications=publickey");
            }
        },
        None => {},
    }
    push_string(&mut a, config.render_target());
    push_owned(&mut a, remote_command);
    proof {
        let sv = match secret { Some(s) => Some(s@), None => None };
        assert(string_views(a@) =~= ssh_args_spec(*config, remote_command@, sv, key_exists)->Ok_0);
    }
    Ok(a)
}

/// The `ssh` arguments for a remote command; whether the private key exists is asked of
/// the file system.
pub fn ssh_command_args(config: &SshConfig, remote_command: &str, secret: Option<&str>) -> (r: Result<Vec<String>, String>)
    ensures
        ssh_args_answer(r, *config, remote_command@, match secret { Some(s) => Some(s@), None => None }, true)
        || ssh_args_answer(r, *config, remote_command@, match secret { Some(s) => Some(s@), None => None }, false),
{
    let key_exists = match &config.private_key_path {
        Some(k) => crate::system::path_exists(k.as_str()),
        None => true,
    };
    ssh_args_with_key_state(config, remote_command, secret, key_exists)
}


/// The message of a failed remote command: the trimmed standard error of `ssh`, or its
/// exit status when it printed nothing.
pub fn ssh_failure_message(stderr: &str, status: &str) -> (r: String)
    ensures
        r@ == if trim(stderr@).len() == 0 {
            "SSH command failed with status "@ + status@ + "."@
        } else {
            "SSH command failed: "@ + trim(stderr@)
        },
{
    let t = trim_str(stderr);
    if t.len() == 0 {
        let mut m = chars_of("SSH command failed with status ");
        push_str(&mut m, status);
        push_str(&mut m, ".");
        string_of(&m)
    } else {
        let mut m = chars_of("SSH command failed: ");
        crate::text::push_chars(&mut m, &t);
        string_of(&m)
    }
}

/// The adapter line of a diagnostics run through a profile.
pub fn ssh_adapter_mode(profile_name: &str) -> (r: String)
    ensures r@ == "ssh-cli-profile ("@ + profile_name@ + ")"@,
{
    let mut m = chars_of("ssh-cli-profile (");
    push_str(&mut m, profile_name);
    push_str(&mut m, ")");
    string_of(&m)
}

} // verus!
