//! Where the command-line tools are found: a configured path, the bundled tools
//! directories, the standard Windows OpenSSH locations, or the system `PATH`; and where
//! the application log is written. Whether a path exists is the file system's answer: the
//! `choose_*` functions take those answers and decide.
use vstd::prelude::*;

use crate::system::{lemma_joined, ordinary_path, pushed};
use crate::text::{chars_of, contains, ends_with, is_blank, occurs_at, owned, push_chars, push_str, starts_with, string_of, trim, trim_str};

verus! {

/// Whether a name is a plain file name: not empty, not `.` or `..`, without separators, a
/// drive colon or `?`.
pub open spec fn plain_name(s: Seq<char>) -> bool {
    &&& s.len() > 0
    &&& !(s.len() == 1 && s[0] == '.')
    &&& !(s.len() == 2 && s[0] == '.' && s[1] == '.')
    &&& forall|i: int| 0 <= i < s.len() ==> s[i] != '/' && s[i] != '\\' && s[i] != ':' && s[i] != '?'
}

pub proof fn lemma_plain_ordinary(s: Seq<char>)
    requires plain_name(s),
    ensures ordinary_path(s),
{
    if crate::text::has_char(s, '?') {
        let i = choose|i: int| 0 <= i < s.len() && s[i] == '?';
        assert(s[i] != '?');
    }
}

proof fn lemma_starts_trans(x: Seq<char>, y: Seq<char>, z: Seq<char>)
    requires starts_with(x, y), starts_with(y, z),
    ensures starts_with(x, z),
{
    assert(x.take(z.len() as int) =~= y.take(z.len() as int));
}

proof fn lemma_contains_in_prefix(x: Seq<char>, y: Seq<char>, t: Seq<char>)
    requires starts_with(x, y), contains(y, t),
    ensures contains(x, t),
{
    let i = choose|i: int| #[trigger] occurs_at(y, t, i);
    assert(x.subrange(i, i + t.len()) =~= y.subrange(i, i + t.len()));
    assert(occurs_at(x, t, i));
}

proof fn lemma_ends_contains(y: Seq<char>, t: Seq<char>)
    requires ends_with(y, t),
    ensures contains(y, t),
{
    assert(y.subrange(y.len() - t.len(), y.len() as int) =~= y.skip(y.len() - t.len()));
    assert(occurs_at(y, t, y.len() - t.len()));
}

/// The bundled copy of the file `name` under the base directory `dir`: `dir/tools/name`
/// (spelled out for an ordinary base, see `ordinary_path`).
pub open spec fn bundled_at(p: Seq<char>, dir: Seq<char>, name: Seq<char>) -> bool {
    ends_with(p, name) && (ordinary_path(dir) ==> exists|t: Seq<char>| #[trigger] pushed(t, dir, "tools"@) && pushed(p, t, name))
}

/// `base/tools/name`.
fn bundled_candidate(base: &str, name: &str) -> (r: String)
    requires plain_name(name@),
    ensures bundled_at(r@, base@, name@),
{
    proof {
        reveal_strlit("tools");
        assert(plain_name("tools"@));
        lemma_plain_ordinary("tools"@);
    }
    let tools = crate::system::join_path(base, "tools");
    let r = crate::system::join_path(tools.as_str(), name);
    proof {
        if ordinary_path(base@) {
            lemma_joined(tools@, base@, "tools"@);
            assert(pushed(r@, tools@, name@));
        }
    }
    r
}

/// The names a bundled tool may have, the platform's own first.
pub open spec fn tool_names(tool: Seq<char>, windows: bool) -> Seq<Seq<char>> {
    if windows { seq![tool + ".exe"@, tool] } else { seq![tool, tool + ".exe"@] }
}

/// The name a tool has on the system `PATH` of the platform.
pub open spec fn system_name(tool: Seq<char>, windows: bool) -> Seq<char> {
    if windows { tool + ".exe"@ } else { tool }
}

fn exe_name(tool: &str) -> (r: String)
    ensures r@ == tool@ + ".exe"@,
{
    let mut m = chars_of(tool);
    push_str(&mut m, ".exe");
    string_of(&m)
}

fn system_name_exec(tool: &str, windows: bool) -> (r: String)
    ensures r@ == system_name(tool@, windows),
{
    if windows { exe_name(tool) } else { owned(tool) }
}

proof fn lemma_exe_plain(tool: Seq<char>)
    requires plain_name(tool),
    ensures plain_name(tool + ".exe"@),
{
    reveal_strlit(".exe");
    let e = tool + ".exe"@;
    assert(e.len() >= 5);
    assert forall|i: int| 0 <= i < e.len() implies e[i] != '/' && e[i] != '\\' && e[i] != ':' && e[i] != '?' by {
        if i < tool.len() {
            assert(e[i] == tool[i]);
        }
    }
}

/// Where a tool was found.
pub open spec fn is_custom_label(label: Seq<char>, tool_label: Seq<char>, path: Seq<char>) -> bool {
    label == "custom "@ + tool_label + " path ("@ + path + ")"@
}

/// A directory that may be known, as a list of none or one.
pub open spec fn opt_dir(o: Option<String>) -> Seq<Seq<char>> {
    match o {
        Some(x) => seq![x@],
        None => Seq::empty(),
    }
}

pub open spec fn dir_views(v: Seq<String>) -> Seq<Seq<char>> {
    v.map_values(|x: String| x@)
}

/// The base directories of the bundled tools: the resource directory, then the
/// executable's directory, those that are known.
fn locator_dirs(resource_dir: &Option<String>, executable_dir: &Option<String>) -> (r: Vec<String>)
    ensures dir_views(r@) == opt_dir(*resource_dir) + opt_dir(*executable_dir),
{
    let mut r: Vec<String> = Vec::new();
    match resource_dir {
        Some(x) => r.push(crate::text::copy_string(x)),
        None => {},
    }
    match executable_dir {
        Some(y) => r.push(crate::text::copy_string(y)),
        None => {},
    }
    assert(dir_views(r@) =~= opt_dir(*resource_dir) + opt_dir(*executable_dir));
    r
}

/// The bundled candidates of a tool in the order they are tried: for each base directory
/// in turn, the platform's own name first.
pub open spec fn bundled_in_order(c: Seq<Seq<char>>, dirs: Seq<Seq<char>>, tool: Seq<char>, windows: bool) -> bool {
    &&& c.len() == 2 * dirs.len()
    &&& forall|k: int| 0 <= k < dirs.len() ==> bundled_at(c[2 * k], #[trigger] dirs[k], tool_names(tool, windows)[0])
        && bundled_at(c[2 * k + 1], dirs[k], tool_names(tool, windows)[1])
}

/// The bundled candidates of a tool under the resource directory, then the executable's
/// directory: `tools/{tool}.exe` and `tools/{tool}`, the platform's own name first.
pub fn bundled_candidates(resource_dir: &Option<String>, executable_dir: &Option<String>, tool: &str, windows: bool) -> (r: Vec<String>)
    requires plain_name(tool@),
    ensures bundled_in_order(dir_views(r@), opt_dir(*resource_dir) + opt_dir(*executable_dir), tool@, windows),
{
    let dirs = locator_dirs(resource_dir, executable_dir);
    let first = if windows { exe_name(tool) } else { owned(tool) };
    let second = if windows { owned(tool) } else { exe_name(tool) };
    proof {
        lemma_exe_plain(tool@);
    }
    let ghost ds = dir_views(dirs@);
    let mut r: Vec<String> = Vec::new();
    let mut d: usize = 0;
    while d < dirs.len()
        invariant
            0 <= d <= dirs@.len(),
            ds == dir_views(dirs@),
            first@ == tool_names(tool@, windows)[0],
            second@ == tool_names(tool@, windows)[1],
            plain_name(first@),
            plain_name(second@),
            r@.len() == 2 * d,
            forall|k: int| 0 <= k < d ==> bundled_at(r@[2 * k]@, #[trigger] ds[k], first@)
                && bundled_at(r@[2 * k + 1]@, ds[k], second@),
        decreases dirs@.len() - d,
    {
        let ghost before = r@;
        let a = bundled_candidate(dirs[d].as_str(), first.as_str());
        let b = bundled_candidate(dirs[d].as_str(), second.as_str());
        r.push(a);
        r.push(b);
        proof {
            assert(ds[d as int] == dirs@[d as int]@);
            assert forall|k: int| 0 <= k < d + 1 implies bundled_at(r@[2 * k]@, #[trigger] ds[k], first@)
                && bundled_at(r@[2 * k + 1]@, ds[k], second@) by {
                if k < d {
                    assert(r@[2 * k] == before[2 * k]);
                    assert(r@[2 * k + 1] == before[2 * k + 1]);
                }
            }
        }
        d += 1;
    }
    proof {
        let c = dir_views(r@);
        assert forall|k: int| 0 <= k < ds.len() implies bundled_at(c[2 * k], #[trigger] ds[k], tool_names(tool@, windows)[0])
            && bundled_at(c[2 * k + 1], ds[k], tool_names(tool@, windows)[1]) by {
            assert(c[2 * k] == r@[2 * k]@);
            assert(c[2 * k + 1] == r@[2 * k + 1]@);
        }
    }
    r
}

/// The first position from `from` on where the answer is yes.
pub open spec fn first_true(found: Seq<bool>, from: int) -> Option<int>
    decreases found.len() - from,
{
    if from < 0 || from >= found.len() {
        None
    } else if found[from] {
        Some(from)
    } else {
        first_true(found, from + 1)
    }
}

proof fn lemma_first_true_bounds(found: Seq<bool>, from: int)
    ensures first_true(found, from) matches Some(i) ==> from <= i < found.len() && 0 <= i && found[i],
    decreases found.len() - from,
{
    if !(from < 0 || from >= found.len()) && !found[from] {
        lemma_first_true_bounds(found, from + 1);
    }
}

/// The first of `candidates` whose answer is yes, if any.
fn first_found(candidates: &Vec<String>, found: &Vec<bool>) -> (r: Option<usize>)
    requires found@.len() == candidates@.len(),
    ensures
        match r {
            Some(i) => first_true(found@, 0) == Some(i as int) && i < candidates@.len(),
            None => first_true(found@, 0) is None,
        },
{
    proof {
        lemma_first_true_bounds(found@, 0);
    }
    let mut i: usize = 0;
    while i < found.len()
        invariant
            0 <= i <= found@.len(),
            found@.len() == candidates@.len(),
            first_true(found@, 0) == first_true(found@, i as int),
        decreases found@.len() - i,
    {
        if found[i] {
            return Some(i);
        }
        i += 1;
    }
    None
}

/// Asks the file system, in order, whether each candidate exists, up to the first that
/// does; the rest are answered no. With `probe` false nothing is asked.
fn probe_in_order(candidates: &Vec<String>, probe: bool) -> (found: Vec<bool>)
    ensures
        found@.len() == candidates@.len(),
        !probe ==> forall|i: int| 0 <= i < found@.len() ==> !found@[i],
{
    let mut found: Vec<bool> = Vec::new();
    let mut hit = false;
    let mut i: usize = 0;
    while i < candidates.len()
        invariant
            0 <= i <= candidates@.len(),
            found@.len() == i,
            !probe ==> forall|q: int| 0 <= q < found@.len() ==> !found@[q],
        decreases candidates@.len() - i,
    {
        let yes = probe && !hit && crate::system::path_exists(candidates[i].as_str());
        if yes {
            hit = true;
        }
        found.push(yes);
        i += 1;
    }
    found
}

/// A configured path, trimmed, when it is not blank.
pub open spec fn configured(c: Option<&str>) -> Option<Seq<char>> {
    match c {
        Some(x) => if is_blank(x@) { None } else { Some(trim(x@)) },
        None => None,
    }
}

/// The configured path (trimmed) when it is not blank, and whether it exists; the file
/// system is asked only about such a path.
fn configured_path(c: Option<&str>) -> (r: Option<(String, bool)>)
    ensures
        match configured(c) {
            Some(p) => r matches Some((q, _)) && q@ == p,
            None => r is None,
        },
{
    match c {
        Some(x) => {
            let t = trim_str(x);
            if t.len() > 0 {
                let path = string_of(&t);
                let exists = crate::system::path_exists(path.as_str());
                Some((path, exists))
            } else {
                None
            }
        },
        None => None,
    }
}

// ---------------------------------------------------------------------------
// kubectl
// ---------------------------------------------------------------------------

/// Where to look for kubectl: the application's resource and executable directories, and
/// whether the host is Windows.
pub struct KubectlLocator {
    pub resource_dir: Option<String>,
    pub executable_dir: Option<String>,
    pub windows: bool,
}

/// The kubectl that commands run, and where it was found.
pub struct KubectlResolution {
    program: String,
    pub source_label: String,
}

impl KubectlResolution {
    pub closed spec fn program_view(&self) -> Seq<char> {
        self.program@
    }

    pub closed spec fn label_view(&self) -> Seq<char> {
        self.source_label@
    }

    /// `display_path`: the program as it is run.
    pub fn display_path(&self) -> (r: String)
        ensures r@ == self.program_view(),
    {
        self.program.clone()
    }
}

/// How kubectl is chosen, given whether the configured path exists and which bundled
/// candidates exist: a configured path (trimmed) that is not blank is taken if it exists
/// and is an error otherwise; else the first bundled candidate that exists; else `kubectl`
/// on the system `PATH`.
pub fn choose_kubectl(windows: bool, custom_kubectl_path: Option<&str>, custom_exists: bool, candidates: &Vec<String>,
    found: &Vec<bool>) -> (r: Result<KubectlResolution, String>)
    requires found@.len() == candidates@.len(),
    ensures
        match configured(custom_kubectl_path) {
            Some(c) => if custom_exists {
                r matches Ok(res) && res.program_view() == c && res.label_view() == "custom kubectlPath ("@ + c + ")"@
            } else {
                r matches Err(e) && e@ == "Configured kubectlPath does not exist: "@ + c
            },
            None => r matches Ok(res) && match first_true(found@, 0) {
                Some(i) => res.program_view() == candidates@[i]@ && res.label_view() == "bundled tools directory"@,
                None => res.program_view() == system_name("kubectl"@, windows) && res.label_view() == "system PATH"@,
            },
        },
{
    match custom_kubectl_path {
        Some(c) => {
            let t = trim_str(c);
            if t.len() > 0 {
                let path = string_of(&t);
                if !custom_exists {
                    let mut m = chars_of("Configured kubectlPath does not exist: ");
                    push_str(&mut m, path.as_str());
                    return Err(string_of(&m));
                }
                let mut label = chars_of("custom kubectlPath (");
                push_str(&mut label, path.as_str());
                push_str(&mut label, ")");
                return Ok(KubectlResolution { program: path, source_label: string_of(&label) });
            }
        },
        None => {},
    }
    match first_found(candidates, found) {
        Some(i) => Ok(KubectlResolution {
            program: crate::text::copy_string(&candidates[i]),
            source_label: owned("bundled tools directory"),
        }),
        None => Ok(KubectlResolution { program: system_name_exec("kubectl", windows), source_label: owned("system PATH") }),
    }
}

/// A bundled copy of `tool` under one of the base directories.
pub open spec fn bundled_somewhere(p: Seq<char>, dirs: Seq<Seq<char>>, tool: Seq<char>, windows: bool) -> bool {
    exists|k: int| 0 <= k < dirs.len() && (bundled_at(p, #[trigger] dirs[k], tool_names(tool, windows)[0])
        || bundled_at(p, dirs[k], tool_names(tool, windows)[1]))
}

proof fn lemma_chosen_bundled(c: Seq<Seq<char>>, dirs: Seq<Seq<char>>, tool: Seq<char>, windows: bool, i: int)
    requires bundled_in_order(c, dirs, tool, windows), 0 <= i < c.len(),
    ensures bundled_somewhere(c[i], dirs, tool, windows),
{
    let k = i / 2;
    assert(i == 2 * k || i == 2 * k + 1);
    assert(0 <= k < dirs.len());
    assert(bundled_at(c[2 * k], dirs[k], tool_names(tool, windows)[0]));
}

/// `resolve_kubectl`: a configured path (trimmed) when it is not blank, which must exist;
/// else the first bundled kubectl that exists (the resource directory first, the
/// platform's own name first); else `kubectl` on the system `PATH`. The choice among the
/// file system's answers is `choose_kubectl`'s.
pub fn resolve_kubectl(locator: KubectlLocator, custom_kubectl_path: Option<&str>) -> (r: Result<KubectlResolution, String>)
    ensures
        match configured(custom_kubectl_path) {
            Some(c) => match r {
                Ok(res) => res.program_view() == c && res.label_view() == "custom kubectlPath ("@ + c + ")"@,
                Err(e) => e@ == "Configured kubectlPath does not exist: "@ + c,
            },
            None => r matches Ok(res) && (
                (res.label_view() == "system PATH"@ && res.program_view() == system_name("kubectl"@, locator.windows))
                || (res.label_view() == "bundled tools directory"@ && bundled_somewhere(res.program_view(),
                    opt_dir(locator.resource_dir) + opt_dir(locator.executable_dir), "kubectl"@, locator.windows))),
        },
{
    proof {
        reveal_strlit("kubectl");
        assert(plain_name("kubectl"@));
    }
    let candidates = bundled_candidates(&locator.resource_dir, &locator.executable_dir, "kubectl", locator.windows);
    let custom = configured_path(custom_kubectl_path);
    let custom_exists = match &custom {
        Some((_, e)) => *e,
        None => false,
    };
    let found = probe_in_order(&candidates, custom.is_none());
    let r = choose_kubectl(locator.windows, custom_kubectl_path, custom_exists, &candidates, &found);
    proof {
        lemma_first_true_bounds(found@, 0);
        if configured(custom_kubectl_path) is None {
            if let Some(i) = first_true(found@, 0) {
                lemma_chosen_bundled(dir_views(candidates@), opt_dir(locator.resource_dir) + opt_dir(locator.executable_dir),
                    "kubectl"@, locator.windows, i);
            }
        }
    }
    r
}

// ---------------------------------------------------------------------------
// ssh, ssh-keygen, ssh-keyscan
// ---------------------------------------------------------------------------

/// Where to look for the ssh tools: the application's directories, whether the host is
/// Windows, and the Windows directories (`WINDIR`, `SYSTEMROOT`, in that order, those set)
/// and `ProgramFiles` directory of the environment.
pub struct SshToolLocator {
    pub resource_dir: Option<String>,
    pub executable_dir: Option<String>,
    pub windows: bool,
    pub windows_roots: Vec<String>,
    pub program_files: Option<String>,
}

/// An ssh tool that commands run, and where it was found.
pub struct SshToolResolution {
    program: String,
    pub source_label: String,
}

impl SshToolResolution {
    pub closed spec fn program_view(&self) -> Seq<char> {
        self.program@
    }

    pub closed spec fn label_view(&self) -> Seq<char> {
        self.source_label@
    }

    /// `display_path`: the program as it is run.
    pub fn display_path(&self) -> (r: String)
        ensures r@ == self.program_view(),
    {
        self.program.clone()
    }
}

/// A path under `base`, through the directory `dir` and `OpenSSH`, to the file `name`
/// (spelled out for an ordinary base).
pub open spec fn openssh_location(p: Seq<char>, base: Seq<char>, dir: Seq<char>, name: Seq<char>) -> bool {
    ends_with(p, name) && (ordinary_path(base) ==> starts_with(p, base) && contains(p, dir) && contains(p, "OpenSSH"@))
}

/// `base`, joined with `dir`, `OpenSSH` and `name`.
fn openssh_under(base: &str, dir: &str, name: &str) -> (r: String)
    requires plain_name(dir@), plain_name(name@),
    ensures openssh_location(r@, base@, dir@, name@),
{
    proof {
        reveal_strlit("OpenSSH");
        assert(plain_name("OpenSSH"@));
        lemma_plain_ordinary("OpenSSH"@);
        lemma_plain_ordinary(dir@);
    }
    let a = crate::system::join_path(base, dir);
    let a2 = crate::system::join_path(a.as_str(), "OpenSSH");
    let r = crate::system::join_path(a2.as_str(), name);
    proof {
        if ordinary_path(base@) {
            lemma_joined(a@, base@, dir@);
            lemma_joined(a2@, a@, "OpenSSH"@);
            lemma_joined(r@, a2@, name@);
            lemma_starts_trans(a2@, a@, base@);
            lemma_starts_trans(r@, a2@, base@);
            lemma_ends_contains(a@, dir@);
            lemma_contains_in_prefix(a2@, a@, dir@);
            lemma_contains_in_prefix(r@, a2@, dir@);
            lemma_ends_contains(a2@, "OpenSSH"@);
            lemma_contains_in_prefix(r@, a2@, "OpenSSH"@);
        }
    }
    r
}

/// `known_windows_locations`: on Windows, the OpenSSH directories under each Windows root
/// (`System32` then `Sysnative`) and under `ProgramFiles`, joined with the tool's name;
/// elsewhere none.
pub fn known_windows_locations(locator: &SshToolLocator, name: &str) -> (r: Vec<String>)
    requires plain_name(name@),
    ensures
        !locator.windows ==> r@.len() == 0,
        locator.windows ==> r@.len() == 2 * locator.windows_roots@.len()
            + (if locator.program_files is Some { 1int } else { 0int }),
        locator.windows ==> forall|k: int| 0 <= k < locator.windows_roots@.len() ==>
            openssh_location(r@[2 * k]@, (#[trigger] locator.windows_roots@[k])@, "System32"@, name@)
            && openssh_location(r@[2 * k + 1]@, locator.windows_roots@[k]@, "Sysnative"@, name@),
        locator.windows ==> (locator.program_files matches Some(pf) ==> ({
            let p = r@[r@.len() - 1]@;
            ends_with(p, name@) && (ordinary_path(pf@) ==> starts_with(p, pf@) && contains(p, "OpenSSH"@))
        })),
        forall|i: int| 0 <= i < r@.len() ==> ends_with(#[trigger] r@[i]@, name@),
{
    let mut r: Vec<String> = Vec::new();
    if !locator.windows {
        return r;
    }
    proof {
        reveal_strlit("System32");
        reveal_strlit("Sysnative");
        reveal_strlit("OpenSSH");
        assert(plain_name("System32"@));
        assert(plain_name("Sysnative"@));
        assert(plain_name("OpenSSH"@));
        lemma_plain_ordinary("OpenSSH"@);
    }
    let mut i: usize = 0;
    while i < locator.windows_roots.len()
        invariant
            0 <= i <= locator.windows_roots@.len(),
            r@.len() == 2 * i,
            plain_name(name@),
            plain_name("System32"@),
            plain_name("Sysnative"@),
            plain_name("OpenSSH"@),
            forall|k: int| 0 <= k < i ==>
                openssh_location(r@[2 * k]@, (#[trigger] locator.windows_roots@[k])@, "System32"@, name@)
                && openssh_location(r@[2 * k + 1]@, locator.windows_roots@[k]@, "Sysnative"@, name@),
            forall|q: int| 0 <= q < r@.len() ==> ends_with(#[trigger] r@[q]@, name@),
        decreases locator.windows_roots@.len() - i,
    {
        let base = locator.windows_roots[i].as_str();
        let ghost before = r@;
        r.push(openssh_under(base, "System32", name));
        r.push(openssh_under(base, "Sysnative", name));
        proof {
            assert forall|k: int| 0 <= k < i + 1 implies
                openssh_location(r@[2 * k]@, (#[trigger] locator.windows_roots@[k])@, "System32"@, name@)
                && openssh_location(r@[2 * k + 1]@, locator.windows_roots@[k]@, "Sysnative"@, name@) by {
                if k < i {
                    assert(r@[2 * k] == before[2 * k]);
                    assert(r@[2 * k + 1] == before[2 * k + 1]);
                }
            }
        }
        i += 1;
    }
    match &locator.program_files {
        Some(pf) => {
            let c = crate::system::join_path(pf.as_str(), "OpenSSH");
            let p = crate::system::join_path(c.as_str(), name);
            proof {
                if ordinary_path(pf@) {
                    lemma_joined(c@, pf@, "OpenSSH"@);
                    lemma_joined(p@, c@, name@);
                    lemma_starts_trans(p@, c@, pf@);
                    lemma_ends_contains(c@, "OpenSSH"@);
                    lemma_contains_in_prefix(p@, c@, "OpenSSH"@);
                }
            }
            let ghost before = r@;
            r.push(p);
            proof {
                assert forall|k: int| 0 <= k < locator.windows_roots@.len() implies
                    openssh_location(r@[2 * k]@, (#[trigger] locator.windows_roots@[k])@, "System32"@, name@)
                    && openssh_location(r@[2 * k + 1]@, locator.windows_roots@[k]@, "Sysnative"@, name@) by {
                    assert(r@[2 * k] == before[2 * k]);
                    assert(r@[2 * k + 1] == before[2 * k + 1]);
                }
            }
        },
        None => {},
    }
    r
}

/// How an ssh tool without a configured path was found: a bundled copy under one of the
/// base directories, a standard Windows location (on Windows only), or the system `PATH`.
pub open spec fn found_tool(res: SshToolResolution, tool: Seq<char>, windows: bool, dirs: Seq<Seq<char>>) -> bool {
    ||| (res.label_view() == "bundled tools directory"@ && bundled_somewhere(res.program_view(), dirs, tool, windows))
    ||| (res.label_view() == "standard Windows OpenSSH location"@ && windows
        && ends_with(res.program_view(), system_name(tool, windows)))
    ||| (res.label_view() == "system PATH"@ && res.program_view() == system_name(tool, windows))
}

/// How an ssh tool is chosen, given the file system's answers: a configured path
/// (trimmed) that is not blank is taken if it exists and is an error otherwise; else the
/// first bundled candidate that exists; else the first standard Windows location that
/// exists; else the tool on the system `PATH`.
pub fn choose_ssh_tool(tool: &str, windows: bool, custom_path: Option<&str>, custom_exists: bool,
    bundled: &Vec<String>, bundled_found: &Vec<bool>, standard: &Vec<String>, standard_found: &Vec<bool>)
    -> (r: Result<SshToolResolution, String>)
    requires bundled_found@.len() == bundled@.len(), standard_found@.len() == standard@.len(),
    ensures
        match configured(custom_path) {
            Some(c) => if custom_exists {
                r matches Ok(res) && res.program_view() == c && is_custom_label(res.label_view(), tool@, c)
            } else {
                r matches Err(e) && e@ == "Configured "@ + tool@ + " path does not exist: "@ + c
            },
            None => r matches Ok(res) && match first_true(bundled_found@, 0) {
                Some(i) => res.program_view() == bundled@[i]@ && res.label_view() == "bundled tools directory"@,
                None => match first_true(standard_found@, 0) {
                    Some(j) => res.program_view() == standard@[j]@
                        && res.label_view() == "standard Windows OpenSSH location"@,
                    None => res.program_view() == system_name(tool@, windows) && res.label_view() == "system PATH"@,
                },
            },
        },
{
    match custom_path {
        Some(c) => {
            let t = trim_str(c);
            if t.len() > 0 {
                let path = string_of(&t);
                if !custom_exists {
                    let mut m = chars_of("Configured ");
                    push_str(&mut m, tool);
                    push_str(&mut m, " path does not exist: ");
                    push_str(&mut m, path.as_str());
                    return Err(string_of(&m));
                }
                let mut label = chars_of("custom ");
                push_str(&mut label, tool);
                push_str(&mut label, " path (");
                push_str(&mut label, path.as_str());
                push_str(&mut label, ")");
                return Ok(SshToolResolution { program: path, source_label: string_of(&label) });
            }
        },
        None => {},
    }
    match first_found(bundled, bundled_found) {
        Some(i) => {
            return Ok(SshToolResolution {
                program: crate::text::copy_string(&bundled[i]),
                source_label: owned("bundled tools directory"),
            });
        },
        None => {},
    }
    match first_found(standard, standard_found) {
        Some(j) => Ok(SshToolResolution {
            program: crate::text::copy_string(&standard[j]),
            source_label: owned("standard Windows OpenSSH location"),
        }),
        None => Ok(SshToolResolution { program: system_name_exec(tool, windows), source_label: owned("system PATH") }),
    }
}

/// `resolve_named_tool`: a configured path (trimmed) when it is not blank, which must
/// exist; else a bundled copy, a standard Windows location or the system `PATH`, as
/// `choose_ssh_tool` decides from the file system's answers.
fn resolve_named_tool(locator: &SshToolLocator, custom_path: Option<&str>, tool: &str) -> (r: Result<SshToolResolution, String>)
    requires plain_name(tool@),
    ensures
        match configured(custom_path) {
            Some(c) => match r {
                Ok(res) => res.program_view() == c && is_custom_label(res.label_view(), tool@, c),
                Err(e) => e@ == "Configured "@ + tool@ + " path does not exist: "@ + c,
            },
            None => r matches Ok(res)
                && found_tool(res, tool@, locator.windows, opt_dir(locator.resource_dir) + opt_dir(locator.executable_dir)),
        },
{
    let bundled = bundled_candidates(&locator.resource_dir, &locator.executable_dir, tool, locator.windows);
    let sys = system_name_exec(tool, locator.windows);
    proof {
        lemma_exe_plain(tool@);
        assert(plain_name(sys@));
    }
    let standard = known_windows_locations(locator, sys.as_str());
    let custom = configured_path(custom_path);
    let custom_exists = match &custom {
        Some((_, e)) => *e,
        None => false,
    };
    let bundled_found = probe_in_order(&bundled, custom.is_none());
    let mut any_bundled = false;
    let mut i: usize = 0;
    while i < bundled_found.len()
        invariant
            0 <= i <= bundled_found@.len(),
            any_bundled == exists|q: int| 0 <= q < i && bundled_found@[q],
        decreases bundled_found@.len() - i,
    {
        if bundled_found[i] {
            any_bundled = true;
        }
        i += 1;
    }
    let standard_found = probe_in_order(&standard, custom.is_none() && !any_bundled);
    let r = choose_ssh_tool(tool, locator.windows, custom_path, custom_exists, &bundled, &bundled_found, &standard,
        &standard_found);
    proof {
        lemma_first_true_bounds(bundled_found@, 0);
        lemma_first_true_bounds(standard_found@, 0);
        if configured(custom_path) is None {
            if let Some(i) = first_true(bundled_found@, 0) {
                lemma_chosen_bundled(dir_views(bundled@), opt_dir(locator.resource_dir) + opt_dir(locator.executable_dir),
                    tool@, locator.windows, i);
            } else if let Some(j) = first_true(standard_found@, 0) {
                assert(ends_with(standard@[j]@, sys@));
            }
        }
    }
    r
}

/// `resolve_ssh`.
pub fn resolve_ssh(locator: SshToolLocator, custom_ssh_path: Option<&str>) -> (r: Result<SshToolResolution, String>)
    ensures
        match configured(custom_ssh_path) {
            Some(c) => match r {
                Ok(res) => res.program_view() == c && is_custom_label(res.label_view(), "ssh"@, c),
                Err(e) => e@ == "Configured "@ + "ssh"@ + " path does not exist: "@ + c,
            },
            None => r matches Ok(res)
                && found_tool(res, "ssh"@, locator.windows, opt_dir(locator.resource_dir) + opt_dir(locator.executable_dir)),
        },
{
    proof {
        reveal_strlit("ssh");
        assert(plain_name("ssh"@));
    }
    resolve_named_tool(&locator, custom_ssh_path, "ssh")
}

/// A tool found next to the configured ssh: the path of `name` in the directory `dir` of
/// that ssh, labelled with that directory.
pub open spec fn sibling_found(res: SshToolResolution, dir: Seq<char>, name: Seq<char>) -> bool {
    &&& res.label_view() == "custom ssh sibling tool ("@ + dir + ")"@
    &&& ends_with(res.program_view(), name)
    &&& ordinary_path(dir) ==> pushed(res.program_view(), dir, name)
}

/// How the tool next to a configured ssh is chosen, given the file system's answers: with
/// a configured ssh (trimmed, not blank) that does not exist, an error; with one that
/// exists, the candidate in its directory when there is such a directory and the
/// candidate exists; nothing otherwise.
pub fn choose_sibling(custom_ssh_path: Option<&str>, custom_exists: bool, parent: Option<&str>, candidate: &str,
    candidate_exists: bool) -> (r: Result<Option<SshToolResolution>, String>)
    ensures
        match configured(custom_ssh_path) {
            Some(c) => if !custom_exists {
                r matches Err(e) && e@ == "Configured ssh path does not exist: "@ + c
            } else {
                match parent {
                    Some(p) if candidate_exists => r matches Ok(Some(res)) && res.program_view() == candidate@
                        && res.label_view() == "custom ssh sibling tool ("@ + p@ + ")"@,
                    _ => r matches Ok(None),
                }
            },
            None => r matches Ok(None),
        },
{
    match custom_ssh_path {
        Some(c) => {
            let t = trim_str(c);
            if t.len() == 0 {
                return Ok(None);
            }
            if !custom_exists {
                let mut m = chars_of("Configured ssh path does not exist: ");
                push_chars(&mut m, &t);
                return Err(string_of(&m));
            }
        },
        None => return Ok(None),
    }
    match parent {
        Some(p) => {
            if candidate_exists {
                let mut label = chars_of("custom ssh sibling tool (");
                push_str(&mut label, p);
                push_str(&mut label, ")");
                Ok(Some(SshToolResolution { program: owned(candidate), source_label: string_of(&label) }))
            } else {
                Ok(None)
            }
        },
        None => Ok(None),
    }
}

/// The directory of a configured ssh, when its path is `dir/name` with a plain directory
/// and a plain file name.
pub open spec fn is_dir_of(dir: Seq<char>, ssh_path: Seq<char>) -> bool {
    forall|d: Seq<char>, n: Seq<char>| #[trigger] crate::system::dir_and_file(ssh_path, d, n) ==> dir == d
}

/// Where the tool `name` next to a configured ssh is looked for: the directory of that
/// ssh (`Path::parent`), and that directory joined with the name; nothing where the path
/// has no parent.
pub fn sibling_candidate(ssh_path: &str, name: &str) -> (r: Option<(String, String)>)
    requires plain_name(name@),
    ensures
        match r {
            Some((dir, candidate)) => is_dir_of(dir@, ssh_path@) && ends_with(candidate@, name@)
                && (ordinary_path(dir@) ==> pushed(candidate@, dir@, name@)),
            None => forall|d: Seq<char>, n: Seq<char>| !#[trigger] crate::system::dir_and_file(ssh_path@, d, n),
        },
{
    match crate::system::parent_dir(ssh_path) {
        Some(p) => {
            let c = crate::system::join_path(p.as_str(), name);
            Some((p, c))
        },
        None => None,
    }
}

/// `resolve_sibling_tool`: the tool next to a configured ssh (trimmed, when not blank),
/// which must exist; the tool is looked for in the directory of that ssh
/// (`sibling_candidate`), and labelled with that directory, as `choose_sibling` decides.
fn resolve_sibling_tool(custom_ssh_path: Option<&str>, sibling: &str) -> (r: Result<Option<SshToolResolution>, String>)
    requires plain_name(sibling@),
    ensures
        match configured(custom_ssh_path) {
            Some(c) => match r {
                Ok(Some(res)) => exists|dir: Seq<char>| #[trigger] sibling_found(res, dir, sibling@) && is_dir_of(dir, c),
                Ok(None) => true,
                Err(e) => e@ == "Configured ssh path does not exist: "@ + c,
            },
            None => r matches Ok(None),
        },
{
    let custom = configured_path(custom_ssh_path);
    let (custom_exists, place) = match &custom {
        Some((path, e)) => if *e { (true, sibling_candidate(path.as_str(), sibling)) } else { (false, None) },
        None => (false, None),
    };
    let candidate_exists = match &place {
        Some((_, c)) => crate::system::path_exists(c.as_str()),
        None => false,
    };
    let r = match &place {
        Some((p, c)) => choose_sibling(custom_ssh_path, custom_exists, Some(p.as_str()), c.as_str(), candidate_exists),
        None => choose_sibling(custom_ssh_path, custom_exists, None, "", false),
    };
    proof {
        if r is Ok && r->Ok_0 is Some {
            let res = r->Ok_0->Some_0;
            let p = place->Some_0.0;
            assert(sibling_found(res, p@, sibling@));
        }
    }
    r
}

/// How `resolve_ssh_keygen` or `resolve_ssh_keyscan` answers: with a configured ssh
/// (trimmed, not blank) that does not exist, an error; else the tool next to it, in the
/// directory of that ssh, or (where there is none) the tool as found without a configured
/// path.
pub open spec fn found_ssh_companion(r: Result<SshToolResolution, String>, custom: Option<&str>, tool: Seq<char>,
    locator: SshToolLocator) -> bool
{
    let dirs = opt_dir(locator.resource_dir) + opt_dir(locator.executable_dir);
    match configured(custom) {
        Some(c) => match r {
            Ok(res) => (exists|dir: Seq<char>| #[trigger] sibling_found(res, dir, system_name(tool, locator.windows))
                    && is_dir_of(dir, c))
                || found_tool(res, tool, locator.windows, dirs),
            Err(e) => e@ == "Configured ssh path does not exist: "@ + c,
        },
        None => r matches Ok(res) && found_tool(res, tool, locator.windows, dirs),
    }
}

/// `resolve_ssh_keygen`: the ssh-keygen next to a configured ssh, else as for any ssh tool
/// without a configured path.
pub fn resolve_ssh_keygen(locator: SshToolLocator, custom_ssh_path: Option<&str>) -> (r: Result<SshToolResolution, String>)
    ensures found_ssh_companion(r, custom_ssh_path, "ssh-keygen"@, locator),
{
    let name = system_name_exec("ssh-keygen", locator.windows);
    proof {
        reveal_strlit("ssh-keygen");
        assert(plain_name("ssh-keygen"@));
        lemma_exe_plain("ssh-keygen"@);
        assert(plain_name(name@));
    }
    match resolve_sibling_tool(custom_ssh_path, name.as_str()) {
        Ok(Some(res)) => return Ok(res),
        Ok(None) => {},
        Err(e) => return Err(e),
    }
    resolve_named_tool(&locator, None, "ssh-keygen")
}

/// `resolve_ssh_keyscan`: the ssh-keyscan next to a configured ssh, else as for any ssh
/// tool without a configured path.
pub fn resolve_ssh_keyscan(locator: SshToolLocator, custom_ssh_path: Option<&str>) -> (r: Result<SshToolResolution, String>)
    ensures found_ssh_companion(r, custom_ssh_path, "ssh-keyscan"@, locator),
{
    let name = system_name_exec("ssh-keyscan", locator.windows);
    proof {
        reveal_strlit("ssh-keyscan");
        assert(plain_name("ssh-keyscan"@));
        lemma_exe_plain("ssh-keyscan"@);
        assert(plain_name(name@));
    }
    match resolve_sibling_tool(custom_ssh_path, name.as_str()) {
        Ok(Some(res)) => return Ok(res),
        Ok(None) => {},
        Err(e) => return Err(e),
    }
    resolve_named_tool(&locator, None, "ssh-keyscan")
}

// ---------------------------------------------------------------------------
// Staging a private key
// ---------------------------------------------------------------------------

/// The lower-case hexadecimal digit of a value below 16.
pub open spec fn hex_digit(d: nat) -> char {
    if d < 10 { ((d + 48) as u32) as char } else { ((d + 87) as u32) as char }
}

/// The lower-case hexadecimal rendering of a natural number (`{:x}`).
pub open spec fn hex(n: nat) -> Seq<char>
    decreases n,
{
    if n < 16 { seq![hex_digit(n)] } else { hex(n / 16).push(hex_digit(n % 16)) }
}

fn hex_digit_exec(d: u64) -> (c: char)
    requires d < 16,
    ensures c == hex_digit(d as nat),
{
    if d == 0 { '0' } else if d == 1 { '1' } else if d == 2 { '2' } else if d == 3 { '3' }
    else if d == 4 { '4' } else if d == 5 { '5' } else if d == 6 { '6' } else if d == 7 { '7' }
    else if d == 8 { '8' } else if d == 9 { '9' } else if d == 10 { 'a' } else if d == 11 { 'b' }
    else if d == 12 { 'c' } else if d == 13 { 'd' } else if d == 14 { 'e' } else { 'f' }
}

fn push_hex(buf: &mut Vec<char>, n: u64)
    ensures final(buf)@ == old(buf)@ + hex(n as nat),
    decreases n,
{
    if n < 16 {
        buf.push(hex_digit_exec(n));
        assert(hex(n as nat) =~= seq![hex_digit(n as nat)]);
    } else {
        let ghost start = buf@;
        push_hex(buf, n / 16);
        buf.push(hex_digit_exec(n % 16));
        assert(buf@ =~= start + hex(n as nat));
    }
}

/// The file name of a private key staged for ssh: `imported_`, the hash of its configured
/// path in hexadecimal, and its extension (`key` when it has none).
pub fn staged_key_name(path_hash: u64, extension: Option<&str>) -> (r: String)
    ensures
        r@ == "imported_"@ + hex(path_hash as nat) + "."@ + match extension { Some(e) => e@, None => "key"@ },
{
    let mut m = chars_of("imported_");
    push_hex(&mut m, path_hash);
    push_str(&mut m, ".");
    match extension {
        Some(e) => push_str(&mut m, e),
        None => push_str(&mut m, "key"),
    }
    string_of(&m)
}

// ---------------------------------------------------------------------------
// The application log
// ---------------------------------------------------------------------------

/// `log_path`: `adbchelper.log` in the base directory.
pub fn log_path(base_dir: &str) -> (r: String)
    ensures
        ends_with(r@, "adbchelper.log"@),
        ordinary_path(base_dir@) ==> pushed(r@, base_dir@, "adbchelper.log"@),
{
    proof {
        reveal_strlit("adbchelper.log");
        assert(plain_name("adbchelper.log"@));
    }
    crate::system::join_path(base_dir, "adbchelper.log")
}

/// One line of the application log: time, level, context and message.
pub fn log_line(timestamp: &str, level: &str, context: &str, message: &str) -> (r: String)
    ensures r@ == timestamp@ + " ["@ + level@ + "] "@ + context@ + " :: "@ + message@,
{
    let mut m = chars_of(timestamp);
    push_str(&mut m, " [");
    push_str(&mut m, level);
    push_str(&mut m, "] ");
    push_str(&mut m, context);
    push_str(&mut m, " :: ");
    push_str(&mut m, message);
    string_of(&m)
}

} // verus!
