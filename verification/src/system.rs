//! What the library asks of the machine it runs on.
use vstd::prelude::*;

verus! {

/// `std::path::Path::new(path).exists()`: answers from the file system, so nothing is
/// stated of the result.
#[verifier::external_body]
pub(crate) fn path_exists(path: &str) -> bool {
    std::path::Path::new(path).exists()
}

/// `Uuid::new_v4().to_string()`: random, so nothing is stated of it.
#[verifier::external_body]
pub(crate) fn fresh_uuid() -> String {
    uuid::Uuid::new_v4().to_string()
}

/// `Utc::now().to_rfc3339()`: it reads the clock, so nothing is stated of it.
#[verifier::external_body]
pub(crate) fn now_rfc3339() -> String {
    chrono::Utc::now().to_rfc3339()
}

/// A path separator on some platform.
pub open spec fn path_sep(c: char) -> bool {
    c == '/' || c == '\\'
}

/// A path without `?`, so without a verbatim prefix (`\\?\`, `\\??\` and their forms), under
/// which `Path::push` rebuilds the whole path from its components.
pub open spec fn ordinary_path(p: Seq<char>) -> bool {
    !crate::text::has_char(p, '?')
}

/// `part` pushed after `base` with one separator between them, or none.
pub open spec fn joined(r: Seq<char>, base: Seq<char>, part: Seq<char>) -> bool {
    r == base + part || r == base + seq!['/'] + part || r == base + seq!['\\'] + part
}

/// A base after which `Path::push` puts a separator on every platform: not empty, not
/// ending with a separator, and without a drive colon.
pub open spec fn needs_separator(base: Seq<char>) -> bool {
    base.len() > 0 && !path_sep(base.last()) && !crate::text::has_char(base, ':')
}

/// What a join of an ordinary base gives: `part` after `base`, with a separator exactly
/// where one is needed on every platform (none after an empty base or a final `/`).
pub open spec fn pushed(r: Seq<char>, base: Seq<char>, part: Seq<char>) -> bool {
    &&& joined(r, base, part)
    &&& needs_separator(base) ==> r.len() == base.len() + 1 + part.len()
    &&& (base.len() == 0 || base.last() == '/') ==> r == base + part
}

/// `Path::new(base).join(part)`, printed, for a plain file or directory name: the result
/// ends with the name; after an ordinary base (see `ordinary_path`) the name is pushed
/// after the base with one separator or none, a separator after a non-empty base that ends
/// with none and has no drive colon, and none after an empty base or a final `/`. Which
/// separator is used depends on the platform and is not stated, nor how a verbatim base is
/// rebuilt.
#[verifier::external_body]
pub(crate) fn join_path(base: &str, part: &str) -> (r: String)
    ensures
        crate::tools::plain_name(part@) ==> crate::text::ends_with(r@, part@),
        crate::tools::plain_name(part@) && ordinary_path(base@) ==> pushed(r@, base@, part@),
{
    std::path::Path::new(base).join(part).display().to_string()
}

/// A join keeps the base at the front and the part at the end; it brings in no `?`.
pub proof fn lemma_joined(r: Seq<char>, base: Seq<char>, part: Seq<char>)
    requires joined(r, base, part),
    ensures
        crate::text::starts_with(r, base),
        crate::text::ends_with(r, part),
        r.len() <= base.len() + 1 + part.len(),
        ordinary_path(base) && ordinary_path(part) ==> ordinary_path(r),
{
    assert(r.take(base.len() as int) =~= base);
    assert(r.skip(r.len() - part.len()) =~= part);
    if ordinary_path(base) && ordinary_path(part) && crate::text::has_char(r, '?') {
        let i = choose|i: int| 0 <= i < r.len() && r[i] == '?';
        if i < base.len() {
            assert(base[i] == '?');
        } else if i >= r.len() - part.len() {
            assert(part[i - (r.len() - part.len())] == '?');
        }
    }
}

/// A directory path that every platform reads the same way: not empty, not ending with
/// `/`, with `/` as its only separator and never doubled, without `\\`, a drive colon or
/// `?`, and without a `.` or `..` component.
pub open spec fn plain_dir(d: Seq<char>) -> bool {
    &&& d.len() > 0 && d.last() != '/'
    &&& forall|i: int| #![trigger d[i]] 0 <= i < d.len() ==> d[i] != '\\' && d[i] != ':' && d[i] != '?'
    &&& forall|i: int| #![trigger d[i]] 0 <= i < d.len() - 1 ==> !(d[i] == '/' && d[i + 1] == '/')
    &&& forall|i: int| #![trigger d[i]] 0 <= i < d.len() && d[i] == '.' && (i == 0 || d[i - 1] == '/') ==>
            !(i + 1 == d.len() || d[i + 1] == '/' || (d[i + 1] == '.' && (i + 2 == d.len() || d[i + 2] == '/')))
}

/// `path` is the file `name` in the directory `dir`: `dir/name`, with a plain directory
/// (see `plain_dir`) and a plain file name.
pub open spec fn dir_and_file(path: Seq<char>, dir: Seq<char>, name: Seq<char>) -> bool {
    path == dir + seq!['/'] + name && plain_dir(dir) && crate::tools::plain_name(name)
}

/// `Path::new(path).parent()`, printed: the path without its last component, when it has
/// one. Its documentation: `None` when the path ends in a root or prefix or is empty, else
/// the path with its last component removed. For a path `dir/name` with a plain directory
/// and a plain file name (see `dir_and_file`), every platform splits it at that `/` and
/// keeps the directory as it is written, so the result is `dir`; of other paths, whose
/// reading depends on the platform, nothing is stated.
#[verifier::external_body]
pub(crate) fn parent_dir(path: &str) -> (r: Option<String>)
    ensures
        forall|dir: Seq<char>, name: Seq<char>| #[trigger] dir_and_file(path@, dir, name)
            ==> crate::text::opt_view(r) == Some(dir),
{
    std::path::Path::new(path).parent().map(|p| p.display().to_string())
}

} // verus!
