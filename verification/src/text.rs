//! Character-sequence utilities shared by every module: trimming, case folding,
//! searching, splitting and decimal conversion, each with its mathematical meaning.
use vstd::prelude::*;

verus! {

// ---------------------------------------------------------------------------
// Character classes
// ---------------------------------------------------------------------------

/// Unicode `White_Space`, the set that `char::is_whitespace` tests.
pub open spec fn is_ws(c: char) -> bool {
    let u = c as u32;
    (0x9 <= u && u <= 0xd) || u == 0x20 || u == 0x85 || u == 0xa0 || u == 0x1680
        || (0x2000 <= u && u <= 0x200a) || u == 0x2028 || u == 0x2029 || u == 0x202f
        || u == 0x205f || u == 0x3000
}

/// Unicode general category `Cc`, the set that `char::is_control` tests.
pub open spec fn is_control(c: char) -> bool {
    let u = c as u32;
    u <= 0x1f || (0x7f <= u && u <= 0x9f)
}

pub open spec fn is_ascii_digit(c: char) -> bool {
    '0' as u32 <= c as u32 && c as u32 <= '9' as u32
}

pub open spec fn is_ascii_upper(c: char) -> bool {
    'A' as u32 <= c as u32 && c as u32 <= 'Z' as u32
}

pub open spec fn is_ascii_alnum(c: char) -> bool {
    is_ascii_digit(c) || is_ascii_upper(c) || ('a' as u32 <= c as u32 && c as u32 <= 'z' as u32)
}

/// ASCII lower-casing of one character, as `char::to_ascii_lowercase` does.
pub open spec fn lower_char(c: char) -> char {
    if is_ascii_upper(c) {
        ((c as u32) + 32) as char
    } else {
        c
    }
}

/// ASCII upper-casing of one character, as `char::to_ascii_uppercase` does.
pub open spec fn upper_char(c: char) -> char {
    if 'a' as u32 <= c as u32 && c as u32 <= 'z' as u32 {
        ((c as u32) - 32) as char
    } else {
        c
    }
}

pub open spec fn lower(s: Seq<char>) -> Seq<char> {
    s.map_values(|c: char| lower_char(c))
}

pub open spec fn upper(s: Seq<char>) -> Seq<char> {
    s.map_values(|c: char| upper_char(c))
}

pub fn char_is_ws(c: char) -> (r: bool)
    ensures r == is_ws(c),
{
    let u = c as u32;
    (0x9 <= u && u <= 0xd) || u == 0x20 || u == 0x85 || u == 0xa0 || u == 0x1680
        || (0x2000 <= u && u <= 0x200a) || u == 0x2028 || u == 0x2029 || u == 0x202f
        || u == 0x205f || u == 0x3000
}

pub fn char_is_control(c: char) -> (r: bool)
    ensures r == is_control(c),
{
    let u = c as u32;
    u <= 0x1f || (0x7f <= u && u <= 0x9f)
}

pub fn char_is_digit(c: char) -> (r: bool)
    ensures r == is_ascii_digit(c),
{
    '0' as u32 <= c as u32 && c as u32 <= '9' as u32
}

pub fn char_is_alnum(c: char) -> (r: bool)
    ensures r == is_ascii_alnum(c),
{
    let u = c as u32;
    ('0' as u32 <= u && u <= '9' as u32) || ('A' as u32 <= u && u <= 'Z' as u32)
        || ('a' as u32 <= u && u <= 'z' as u32)
}

pub fn char_lower(c: char) -> (r: char)
    ensures r == lower_char(c),
{
    if 'A' as u32 <= c as u32 && c as u32 <= 'Z' as u32 {
        let b = (c as u32 + 32) as u8;
        b as char
    } else {
        c
    }
}


pub fn char_upper(c: char) -> (r: char)
    ensures r == upper_char(c),
{
    if 'a' as u32 <= c as u32 && c as u32 <= 'z' as u32 {
        let b = (c as u32 - 32) as u8;
        b as char
    } else {
        c
    }
}

// ---------------------------------------------------------------------------
// Conversions between `str`, `String` and character vectors
// ---------------------------------------------------------------------------

/// The characters of `s`, in order.
pub fn chars_of(s: &str) -> (v: Vec<char>)
    ensures v@ == s@,
{
    let mut v: Vec<char> = Vec::new();
    for c in it: s.chars()
        invariant
            v@ == it.seq().take(it.index() as int),
            it.seq() == s@,
    {
        v.push(c);
    }
    v
}

/// Builds a `String` from its characters (`FromIterator<&char>` for `String`).
#[verifier::external_body]
pub(crate) fn string_of(v: &[char]) -> (s: String)
    ensures s@ == v@,
{
    v.iter().collect()
}

/// Appends the characters of `s` to `buf`.
pub fn push_str(buf: &mut Vec<char>, s: &str)
    ensures final(buf)@ == old(buf)@ + s@,
{
    let ghost start = buf@;
    for c in it: s.chars()
        invariant
            buf@ == start + it.seq().take(it.index() as int),
            it.seq() == s@,
    {
        buf.push(c);
    }
}

/// Appends the characters of `s` to `buf`.
pub fn push_chars(buf: &mut Vec<char>, s: &[char])
    ensures final(buf)@ == old(buf)@ + s@,
{
    let ghost start = buf@;
    let mut i: usize = 0;
    while i < s.len()
        invariant
            0 <= i <= s@.len(),
            buf@ == start + s@.take(i as int),
        decreases s@.len() - i,
    {
        buf.push(s[i]);
        i += 1;
        assert(s@.take(i as int) =~= s@.take(i - 1 as int).push(s@[i - 1]));
    }
    assert(s@.take(i as int) =~= s@);
}

/// Copies a character slice into a fresh vector.
pub fn copy_chars(s: &[char]) -> (r: Vec<char>)
    ensures r@ == s@,
{
    let mut r: Vec<char> = Vec::new();
    push_chars(&mut r, s);
    r
}

/// `s[from..to]` as a fresh vector.
pub fn slice_chars(s: &[char], from: usize, to: usize) -> (r: Vec<char>)
    requires from <= to <= s@.len(),
    ensures r@ == s@.subrange(from as int, to as int),
{
    let mut r: Vec<char> = Vec::new();
    let mut i = from;
    while i < to
        invariant
            from <= i <= to <= s@.len(),
            r@ == s@.subrange(from as int, i as int),
        decreases to - i,
    {
        r.push(s[i]);
        i += 1;
        assert(r@ =~= s@.subrange(from as int, i as int));
    }
    r
}

/// Equality of two character sequences.
pub fn chars_eq(a: &[char], b: &[char]) -> (r: bool)
    ensures r == (a@ == b@),
{
    if a.len() != b.len() {
        return false;
    }
    let mut i: usize = 0;
    while i < a.len()
        invariant
            a@.len() == b@.len(),
            0 <= i <= a@.len(),
            forall|j: int| 0 <= j < i ==> a@[j] == b@[j],
        decreases a@.len() - i,
    {
        if a[i] != b[i] {
            return false;
        }
        i += 1;
    }
    assert(a@ =~= b@);
    true
}

/// Equality of a character sequence with a string slice.
pub fn chars_eq_str(a: &[char], b: &str) -> (r: bool)
    ensures r == (a@ == b@),
{
    let bv = chars_of(b);
    chars_eq(a, &bv)
}

/// Equality of two string slices.
pub fn str_eq(a: &str, b: &str) -> (r: bool)
    ensures r == (a@ == b@),
{
    let av = chars_of(a);
    let bv = chars_of(b);
    chars_eq(&av, &bv)
}

// ---------------------------------------------------------------------------
// Case folding
// ---------------------------------------------------------------------------

pub fn to_lower(s: &[char]) -> (r: Vec<char>)
    ensures r@ == lower(s@),
{
    let mut r: Vec<char> = Vec::new();
    let mut i: usize = 0;
    while i < s.len()
        invariant
            0 <= i <= s@.len(),
            r@ == lower(s@.take(i as int)),
        decreases s@.len() - i,
    {
        r.push(char_lower(s[i]));
        i += 1;
        assert(lower(s@.take(i as int)) =~= lower(s@.take(i - 1 as int)).push(lower_char(s@[i - 1])));
    }
    assert(s@.take(i as int) =~= s@);
    r
}

pub fn to_upper(s: &[char]) -> (r: Vec<char>)
    ensures r@ == upper(s@),
{
    let mut r: Vec<char> = Vec::new();
    let mut i: usize = 0;
    while i < s.len()
        invariant
            0 <= i <= s@.len(),
            r@ == upper(s@.take(i as int)),
        decreases s@.len() - i,
    {
        r.push(char_upper(s[i]));
        i += 1;
        assert(upper(s@.take(i as int)) =~= upper(s@.take(i - 1 as int)).push(upper_char(s@[i - 1])));
    }
    assert(s@.take(i as int) =~= s@);
    r
}

// ---------------------------------------------------------------------------
// Searching
// ---------------------------------------------------------------------------

/// `p` occurs in `s` starting at index `i`.
pub open spec fn occurs_at(s: Seq<char>, p: Seq<char>, i: int) -> bool {
    0 <= i && i + p.len() <= s.len() && s.subrange(i, i + p.len()) == p
}

/// `p` is a substring of `s` (`str::contains`).
pub open spec fn contains(s: Seq<char>, p: Seq<char>) -> bool {
    exists|i: int| #[trigger] occurs_at(s, p, i)
}

pub open spec fn starts_with(s: Seq<char>, p: Seq<char>) -> bool {
    p.len() <= s.len() && s.take(p.len() as int) == p
}

pub open spec fn ends_with(s: Seq<char>, p: Seq<char>) -> bool {
    p.len() <= s.len() && s.skip(s.len() - p.len()) == p
}

/// The first index at which `p` occurs in `s` (`str::find`).
pub open spec fn is_first_occurrence(s: Seq<char>, p: Seq<char>, i: int) -> bool {
    occurs_at(s, p, i) && forall|j: int| 0 <= j < i ==> !#[trigger] occurs_at(s, p, j)
}

pub fn occurs_at_exec(s: &[char], p: &[char], i: usize) -> (r: bool)
    ensures r == occurs_at(s@, p@, i as int),
{
    if i > s.len() || p.len() > s.len() - i {
        return false;
    }
    let n = s.len();
    let mut k: usize = 0;
    while k < p.len()
        invariant
            n == s@.len(),
            i + p@.len() <= s@.len(),
            0 <= k <= p@.len(),
            forall|j: int| 0 <= j < k ==> s@[i + j] == p@[j],
        decreases p@.len() - k,
    {
        if s[i + k] != p[k] {
            assert(s@.subrange(i as int, i + p@.len())[k as int] != p@[k as int]);
            return false;
        }
        k += 1;
    }
    assert(s@.subrange(i as int, i + p@.len()) =~= p@);
    true
}

/// `str::find`: the first index of `p` in `s`.
pub fn find(s: &[char], p: &[char]) -> (r: Option<usize>)
    ensures
        match r {
            Some(i) => is_first_occurrence(s@, p@, i as int),
            None => !contains(s@, p@),
        },
{
    if p.len() > s.len() {
        assert forall|j: int| !#[trigger] occurs_at(s@, p@, j) by {}
        return None;
    }
    if p.len() == 0 {
        assert(s@.subrange(0, 0) =~= p@);
        assert(occurs_at(s@, p@, 0));
        return Some(0);
    }
    let n = s.len();
    let mut i: usize = 0;
    while i <= n - p.len()
        invariant
            n == s@.len(),
            0 < p@.len() <= s@.len(),
            0 <= i <= s@.len() - p@.len() + 1,
            forall|j: int| 0 <= j < i ==> !#[trigger] occurs_at(s@, p@, j),
        decreases s@.len() - p@.len() + 1 - i,
    {
        if occurs_at_exec(s, p, i) {
            return Some(i);
        }
        i += 1;
    }
    assert forall|j: int| !#[trigger] occurs_at(s@, p@, j) by {
        if 0 <= j < i {
        }
    }
    None
}

/// `str::contains`.
pub fn contains_exec(s: &[char], p: &[char]) -> (r: bool)
    ensures r == contains(s@, p@),
{
    match find(s, p) {
        Some(i) => {
            assert(occurs_at(s@, p@, i as int));
            true
        },
        None => false,
    }
}

pub fn contains_str(s: &[char], p: &str) -> (r: bool)
    ensures r == contains(s@, p@),
{
    let pv = chars_of(p);
    contains_exec(s, &pv)
}

pub fn starts_with_exec(s: &[char], p: &[char]) -> (r: bool)
    ensures r == starts_with(s@, p@),
{
    let r = occurs_at_exec(s, p, 0);
    assert(s@.subrange(0, p@.len() as int) == s@.take(p@.len() as int));
    r
}

pub fn starts_with_str(s: &[char], p: &str) -> (r: bool)
    ensures r == starts_with(s@, p@),
{
    let pv = chars_of(p);
    starts_with_exec(s, &pv)
}

pub fn ends_with_exec(s: &[char], p: &[char]) -> (r: bool)
    ensures r == ends_with(s@, p@),
{
    if p.len() > s.len() {
        return false;
    }
    let r = occurs_at_exec(s, p, s.len() - p.len());
    assert(s@.subrange(s@.len() - p@.len(), s@.len() as int) == s@.skip(s@.len() - p@.len()));
    r
}

/// Any character of `s` equals `c`.
pub open spec fn has_char(s: Seq<char>, c: char) -> bool {
    exists|i: int| 0 <= i < s.len() && s[i] == c
}

pub fn has_char_exec(s: &[char], c: char) -> (r: bool)
    ensures r == has_char(s@, c),
{
    let mut i: usize = 0;
    while i < s.len()
        invariant
            0 <= i <= s@.len(),
            forall|j: int| 0 <= j < i ==> s@[j] != c,
        decreases s@.len() - i,
    {
        if s[i] == c {
            return true;
        }
        i += 1;
    }
    false
}


// ---------------------------------------------------------------------------
// Trimming
// ---------------------------------------------------------------------------

/// `str::trim_start`: drops leading Unicode whitespace.
pub open spec fn trim_start(s: Seq<char>) -> Seq<char>
    decreases s.len(),
{
    if s.len() > 0 && is_ws(s[0]) {
        trim_start(s.drop_first())
    } else {
        s
    }
}

/// `str::trim_end`: drops trailing Unicode whitespace.
pub open spec fn trim_end(s: Seq<char>) -> Seq<char>
    decreases s.len(),
{
    if s.len() > 0 && is_ws(s.last()) {
        trim_end(s.drop_last())
    } else {
        s
    }
}

/// `str::trim`.
pub open spec fn trim(s: Seq<char>) -> Seq<char> {
    trim_end(trim_start(s))
}

/// A string is blank when trimming leaves nothing (`s.trim().is_empty()`).
pub open spec fn is_blank(s: Seq<char>) -> bool {
    trim(s).len() == 0
}

pub fn trim_exec(s: &[char]) -> (r: Vec<char>)
    ensures r@ == trim(s@),
{
    let n = s.len();
    let mut i: usize = 0;
    assert(s@.skip(0) =~= s@);
    while i < n && char_is_ws(s[i])
        invariant
            n == s@.len(),
            0 <= i <= n,
            trim_start(s@) == trim_start(s@.skip(i as int)),
        decreases n - i,
    {
        assert(s@.skip(i as int).drop_first() =~= s@.skip(i + 1));
        i += 1;
    }
    assert(trim_start(s@) == s@.skip(i as int));
    let mut j: usize = n;
    while j > i && char_is_ws(s[j - 1])
        invariant
            n == s@.len(),
            0 <= i <= j <= n,
            trim_end(s@.skip(i as int)) == trim_end(s@.subrange(i as int, j as int)),
        decreases j,
    {
        assert(s@.subrange(i as int, j as int).drop_last() =~= s@.subrange(i as int, j - 1));
        j -= 1;
    }
    assert(s@.skip(i as int) =~= s@.subrange(i as int, n as int));
    slice_chars(s, i, j)
}

pub fn trim_str(s: &str) -> (r: Vec<char>)
    ensures r@ == trim(s@),
{
    let v = chars_of(s);
    trim_exec(&v)
}

pub fn is_blank_exec(s: &[char]) -> (r: bool)
    ensures r == is_blank(s@),
{
    let t = trim_exec(s);
    t.len() == 0
}

pub fn is_blank_str(s: &str) -> (r: bool)
    ensures r == is_blank(s@),
{
    let t = trim_str(s);
    t.len() == 0
}

// ---------------------------------------------------------------------------
// Splitting and joining
// ---------------------------------------------------------------------------

/// The views of a sequence of character vectors.
pub open spec fn views(v: Seq<Vec<char>>) -> Seq<Seq<char>> {
    v.map_values(|x: Vec<char>| x@)
}

/// `str::split(c)`: the pieces between occurrences of `c`, empty pieces kept.
pub open spec fn split_char(s: Seq<char>, c: char) -> Seq<Seq<char>>
    decreases s.len(),
{
    if s.len() == 0 {
        seq![Seq::<char>::empty()]
    } else {
        let prev = split_char(s.drop_last(), c);
        if s.last() == c {
            prev.push(Seq::<char>::empty())
        } else {
            prev.update(prev.len() - 1, prev.last().push(s.last()))
        }
    }
}

pub proof fn lemma_split_char_nonempty(s: Seq<char>, c: char)
    ensures split_char(s, c).len() >= 1,
    decreases s.len(),
{
    if s.len() > 0 {
        lemma_split_char_nonempty(s.drop_last(), c);
    }
}

/// Drops one trailing carriage return.
pub open spec fn strip_cr(p: Seq<char>) -> Seq<char> {
    if p.len() > 0 && p.last() == '\r' {
        p.drop_last()
    } else {
        p
    }
}

/// `strip_cr` on each piece.
pub open spec fn strip_crs(ps: Seq<Seq<char>>) -> Seq<Seq<char>> {
    ps.map_values(|p: Seq<char>| strip_cr(p))
}

/// `str::lines`: pieces between `\n`, each piece ended by `\n` losing one trailing `\r`;
/// a final `\n` opens no further line, and the empty string has no lines.
pub open spec fn lines(s: Seq<char>) -> Seq<Seq<char>> {
    if s.len() == 0 {
        Seq::empty()
    } else {
        let parts = split_char(s, '\n');
        let ended = strip_crs(parts.drop_last());
        if s.last() == '\n' {
            ended
        } else {
            ended.push(parts.last())
        }
    }
}

/// A text without the character `c`.
pub open spec fn free_of(s: Seq<char>, c: char) -> bool {
    forall|i: int| 0 <= i < s.len() ==> s[i] != c
}

/// A text without the separator is one piece.
pub proof fn lemma_split_char_single(s: Seq<char>, c: char)
    requires free_of(s, c),
    ensures split_char(s, c) == seq![s],
    decreases s.len(),
{
    if s.len() > 0 {
        lemma_split_char_single(s.drop_last(), c);
        assert(s.drop_last().push(s.last()) =~= s);
        assert(split_char(s, c) =~= seq![s]);
    } else {
        assert(s =~= Seq::<char>::empty());
    }
}

/// Splitting a text that ends with the separator, then more text: the pieces of the first
/// part (but its final empty one), then the pieces of the second.
pub proof fn lemma_split_char_concat(s: Seq<char>, t: Seq<char>, c: char)
    requires s.len() > 0, s.last() == c,
    ensures split_char(s + t, c) == split_char(s, c).drop_last() + split_char(t, c),
    decreases t.len(),
{
    lemma_split_char_nonempty(s.drop_last(), c);
    if t.len() == 0 {
        assert(s + t =~= s);
        assert(split_char(s, c).drop_last() + split_char(t, c) =~= split_char(s, c));
    } else {
        let u = s + t;
        assert(u.drop_last() =~= s + t.drop_last());
        lemma_split_char_concat(s, t.drop_last(), c);
        lemma_split_char_nonempty(t.drop_last(), c);
        let a = split_char(s, c).drop_last();
        let b = split_char(t.drop_last(), c);
        if t.last() == c {
            assert((a + b).push(Seq::<char>::empty()) =~= a + b.push(Seq::<char>::empty()));
        } else {
            assert((a + b).update((a + b).len() - 1, (a + b).last().push(t.last()))
                =~= a + b.update(b.len() - 1, b.last().push(t.last())));
        }
    }
}

/// The lines of a text that is empty or ends with a newline, with one more line (holding no
/// newline) and a newline appended: the lines before, then that line.
pub proof fn lemma_lines_append(s: Seq<char>, l: Seq<char>)
    requires
        s.len() == 0 || s.last() == '\n',
        free_of(l, '\n'),
    ensures lines(s + l + seq!['\n']) == lines(s).push(strip_cr(l)),
{
    let u = s + l + seq!['\n'];
    let t = l + seq!['\n'];
    assert(u =~= s + t);
    lemma_split_char_single(l, '\n');
    assert(t.drop_last() =~= l);
    assert(split_char(t, '\n') =~= seq![l, Seq::<char>::empty()]);
    if s.len() == 0 {
        assert(u =~= t);
        assert(split_char(u, '\n').drop_last() =~= seq![l]);
        assert(strip_crs(seq![l]) =~= seq![strip_cr(l)]);
        assert(lines(s) =~= Seq::<Seq<char>>::empty());
        assert(lines(u) =~= lines(s).push(strip_cr(l)));
    } else {
        lemma_split_char_concat(s, t, '\n');
        let p = split_char(s, '\n').drop_last();
        assert(split_char(u, '\n') =~= p + seq![l, Seq::<char>::empty()]);
        assert(split_char(u, '\n').drop_last() =~= p.push(l));
        assert(strip_crs(p.push(l)) =~= strip_crs(p).push(strip_cr(l)));
    }
}

/// A newline after a text that does not end with one: the same lines, the last one losing
/// a trailing carriage return.
pub proof fn lemma_lines_push_newline(s: Seq<char>)
    requires s.len() > 0, s.last() != '\n',
    ensures
        lines(s).len() > 0,
        lines(s.push('\n')) == lines(s).update(lines(s).len() - 1, strip_cr(lines(s).last())),
{
    let parts = split_char(s, '\n');
    lemma_split_char_nonempty(s, '\n');
    assert(s.push('\n').drop_last() =~= s);
    assert(split_char(s.push('\n'), '\n').drop_last() =~= parts);
    assert(strip_crs(parts) =~= strip_crs(parts.drop_last()).push(strip_cr(parts.last())));
    assert(lines(s) =~= strip_crs(parts.drop_last()).push(parts.last()));
    assert(lines(s.push('\n')) =~= lines(s).update(lines(s).len() - 1, strip_cr(lines(s).last())));
}

/// What `trim_start` keeps begins with a character that is not whitespace.
pub proof fn lemma_trim_start_head(s: Seq<char>)
    ensures
        trim_start(s).len() > 0 ==> !is_ws(trim_start(s)[0]),
        trim_start(s).len() <= s.len(),
        trim_start(s) == s.skip(s.len() - trim_start(s).len()),
    decreases s.len(),
{
    if s.len() > 0 && is_ws(s[0]) {
        lemma_trim_start_head(s.drop_first());
        assert(s.drop_first().skip(s.drop_first().len() - trim_start(s).len())
            =~= s.skip(s.len() - trim_start(s).len()));
    } else {
        assert(s.skip(0) =~= s);
    }
}

/// What `trim_end` keeps ends with a character that is not whitespace and is a prefix.
pub proof fn lemma_trim_end_tail(s: Seq<char>)
    ensures
        trim_end(s).len() > 0 ==> !is_ws(trim_end(s).last()),
        trim_end(s).len() <= s.len(),
        trim_end(s) == s.take(trim_end(s).len() as int),
    decreases s.len(),
{
    if s.len() > 0 && is_ws(s.last()) {
        lemma_trim_end_tail(s.drop_last());
        assert(s.drop_last().take(trim_end(s).len() as int) =~= s.take(trim_end(s).len() as int));
    } else {
        assert(s.take(s.len() as int) =~= s);
    }
}

/// Trimming a trimmed text changes nothing, and a trimmed text keeps no character that
/// the text did not hold.
pub proof fn lemma_trim_idempotent(s: Seq<char>, c: char)
    ensures
        trim(trim(s)) == trim(s),
        trim(s).len() > 0 ==> !is_ws(trim(s).last()),
        free_of(s, c) ==> free_of(trim(s), c),
{
    let a = trim_start(s);
    let e = trim_end(a);
    lemma_trim_start_head(s);
    lemma_trim_end_tail(a);
    if e.len() > 0 {
        assert(e[0] == a[0]);
        assert(trim_start(e) == e);
        lemma_trim_end_tail(e);
        assert(trim_end(e) == e);
    } else {
        assert(trim_start(e) =~= e);
        assert(trim_end(e) =~= e);
    }
    if free_of(s, c) {
        assert forall|i: int| 0 <= i < e.len() implies e[i] != c by {
            assert(e[i] == a[i]);
            assert(a[i] == s[s.len() - a.len() + i]);
        }
    }
}

/// Whitespace pushed at the end of a text leaves its trim unchanged.
pub proof fn lemma_trim_push_ws(s: Seq<char>, w: char)
    requires is_ws(w),
    ensures trim(s.push(w)) == trim(s),
    decreases s.len(),
{
    if s.len() > 0 && is_ws(s[0]) {
        assert(s.push(w).drop_first() =~= s.drop_first().push(w));
        lemma_trim_push_ws(s.drop_first(), w);
    } else if s.len() == 0 {
        assert(s.push(w).drop_first() =~= Seq::<char>::empty());
        assert(trim_start(Seq::<char>::empty()) =~= Seq::<char>::empty());
    } else {
        assert(trim_start(s.push(w)) == s.push(w));
        assert(s.push(w).drop_last() =~= s);
    }
}

/// Dropping a trailing carriage return does not change the trim.
pub proof fn lemma_trim_strip_cr(p: Seq<char>)
    ensures trim(strip_cr(p)) == trim(p),
{
    if p.len() > 0 && p.last() == '\r' {
        assert(is_ws('\r'));
        lemma_trim_push_ws(p.drop_last(), '\r');
        assert(p.drop_last().push('\r') =~= p);
    }
}

pub fn split_char_exec(s: &[char], c: char) -> (r: Vec<Vec<char>>)
    ensures views(r@) == split_char(s@, c),
{
    let n = s.len();
    let mut parts: Vec<Vec<char>> = Vec::new();
    let mut cur: Vec<char> = Vec::new();
    let mut i: usize = 0;
    while i < n
        invariant
            n == s@.len(),
            0 <= i <= n,
            views(parts@).push(cur@) == split_char(s@.take(i as int), c),
        decreases n - i,
    {
        let ghost prev_parts = parts@;
        let ghost prev_cur = cur@;
        assert(s@.take(i + 1).drop_last() =~= s@.take(i as int));
        proof { lemma_split_char_nonempty(s@.take(i as int), c); }
        if s[i] == c {
            let done = cur;
            parts.push(done);
            cur = Vec::new();
            assert(views(parts@).push(cur@) =~= views(prev_parts).push(prev_cur).push(Seq::empty()));
        } else {
            cur.push(s[i]);
            assert(views(parts@).push(cur@) =~= views(prev_parts).push(prev_cur).update(
                views(prev_parts).len() as int, prev_cur.push(s@[i as int])));
        }
        i += 1;
    }
    assert(s@.take(n as int) =~= s@);
    parts.push(cur);
    parts
}

pub fn lines_exec(s: &[char]) -> (r: Vec<Vec<char>>)
    ensures views(r@) == lines(s@),
{
    if s.len() == 0 {
        let r: Vec<Vec<char>> = Vec::new();
        assert(views(r@) =~= lines(s@));
        return r;
    }
    let parts = split_char_exec(s, '\n');
    proof { lemma_split_char_nonempty(s@, '\n'); }
    let ghost pv = views(parts@);
    let m = parts.len() - 1;
    let mut out: Vec<Vec<char>> = Vec::new();
    let mut k: usize = 0;
    while k < m
        invariant
            m + 1 == parts@.len(),
            pv == views(parts@),
            0 <= k <= m,
            views(out@) == strip_crs(pv.take(k as int)),
        decreases m - k,
    {
        let p = &parts[k];
        let stripped = if p.len() > 0 && p[p.len() - 1] == '\r' {
            slice_chars(p, 0, p.len() - 1)
        } else {
            copy_chars(p)
        };
        assert(stripped@ == strip_cr(pv[k as int]));
        let ghost prev = out@;
        out.push(stripped);
        k += 1;
        assert(views(out@) =~= views(prev).push(stripped@));
        assert(strip_crs(pv.take(k as int)) =~= strip_crs(pv.take(k - 1)).push(strip_cr(pv[k - 1])));
    }
    assert(pv.take(m as int) =~= pv.drop_last());
    if s[s.len() - 1] != '\n' {
        let last = copy_chars(&parts[m]);
        out.push(last);
        assert(views(out@) =~= lines(s@));
    } else {
        assert(views(out@) =~= lines(s@));
    }
    out
}

pub fn lines_str(s: &str) -> (r: Vec<Vec<char>>)
    ensures views(r@) == lines(s@),
{
    let v = chars_of(s);
    lines_exec(&v)
}

/// `[..].join(sep)`.
pub open spec fn join(parts: Seq<Seq<char>>, sep: Seq<char>) -> Seq<char>
    decreases parts.len(),
{
    if parts.len() == 0 {
        Seq::empty()
    } else if parts.len() == 1 {
        parts[0]
    } else {
        join(parts.drop_last(), sep) + sep + parts.last()
    }
}

pub fn join_exec(parts: &Vec<Vec<char>>, sep: &str) -> (r: Vec<char>)
    ensures r@ == join(views(parts@), sep@),
{
    let mut out: Vec<char> = Vec::new();
    let mut k: usize = 0;
    while k < parts.len()
        invariant
            0 <= k <= parts@.len(),
            out@ == join(views(parts@).take(k as int), sep@),
        decreases parts@.len() - k,
    {
        let ghost before = out@;
        assert(views(parts@).take(k + 1).drop_last() =~= views(parts@).take(k as int));
        if k > 0 {
            push_str(&mut out, sep);
        }
        push_chars(&mut out, &parts[k]);
        k += 1;
        assert(views(parts@).take(k as int).last() == parts@[k - 1]@);
        if k == 1 {
            assert(before =~= Seq::<char>::empty());
            assert(out@ =~= join(views(parts@).take(k as int), sep@));
        }
    }
    assert(views(parts@).take(k as int) =~= views(parts@));
    out
}

/// The leftover state of `split_whitespace` while scanning: finished words and the word in progress.
pub open spec fn ws_fold(s: Seq<char>) -> (Seq<Seq<char>>, Seq<char>)
    decreases s.len(),
{
    if s.len() == 0 {
        (Seq::empty(), Seq::empty())
    } else {
        let (words, cur) = ws_fold(s.drop_last());
        if is_ws(s.last()) {
            if cur.len() > 0 {
                (words.push(cur), Seq::empty())
            } else {
                (words, cur)
            }
        } else {
            (words, cur.push(s.last()))
        }
    }
}

/// `str::split_whitespace`: maximal runs of non-whitespace characters.
pub open spec fn split_whitespace(s: Seq<char>) -> Seq<Seq<char>> {
    let (words, cur) = ws_fold(s);
    if cur.len() > 0 {
        words.push(cur)
    } else {
        words
    }
}

pub fn split_whitespace_exec(s: &[char]) -> (r: Vec<Vec<char>>)
    ensures views(r@) == split_whitespace(s@),
{
    let n = s.len();
    let mut words: Vec<Vec<char>> = Vec::new();
    let mut cur: Vec<char> = Vec::new();
    let mut i: usize = 0;
    while i < n
        invariant
            n == s@.len(),
            0 <= i <= n,
            ws_fold(s@.take(i as int)) == (views(words@), cur@),
        decreases n - i,
    {
        assert(s@.take(i + 1).drop_last() =~= s@.take(i as int));
        let ghost pw = words@;
        if char_is_ws(s[i]) {
            if cur.len() > 0 {
                let done = cur;
                words.push(done);
                cur = Vec::new();
                assert(views(words@) =~= views(pw).push(done@));
            }
        } else {
            cur.push(s[i]);
        }
        i += 1;
    }
    assert(s@.take(n as int) =~= s@);
    if cur.len() > 0 {
        let ghost pw = words@;
        let done = cur;
        words.push(done);
        assert(views(words@) =~= views(pw).push(done@));
    }
    words
}

/// The first index of `c` in `s`.
pub open spec fn is_first_index(s: Seq<char>, c: char, i: int) -> bool {
    0 <= i < s.len() && s[i] == c && forall|j: int| 0 <= j < i ==> s[j] != c
}

/// The last index of `c` in `s`.
pub open spec fn is_last_index(s: Seq<char>, c: char, i: int) -> bool {
    0 <= i < s.len() && s[i] == c && forall|j: int| i < j < s.len() ==> s[j] != c
}

pub fn first_index_of(s: &[char], c: char) -> (r: Option<usize>)
    ensures
        match r {
            Some(i) => is_first_index(s@, c, i as int),
            None => !has_char(s@, c),
        },
{
    let mut i: usize = 0;
    while i < s.len()
        invariant
            0 <= i <= s@.len(),
            forall|j: int| 0 <= j < i ==> s@[j] != c,
        decreases s@.len() - i,
    {
        if s[i] == c {
            return Some(i);
        }
        i += 1;
    }
    None
}

pub fn last_index_of(s: &[char], c: char) -> (r: Option<usize>)
    ensures
        match r {
            Some(i) => is_last_index(s@, c, i as int),
            None => !has_char(s@, c),
        },
{
    let mut j: usize = s.len();
    while j > 0
        invariant
            0 <= j <= s@.len(),
            forall|k: int| j <= k < s@.len() ==> s@[k] != c,
        decreases j,
    {
        if s[j - 1] == c {
            return Some(j - 1);
        }
        j -= 1;
    }
    None
}

/// `str::split_once(c)` on a character.
pub open spec fn split_once(s: Seq<char>, c: char) -> Option<(Seq<char>, Seq<char>)> {
    if has_char(s, c) {
        let i = choose|i: int| is_first_index(s, c, i);
        Some((s.take(i), s.skip(i + 1)))
    } else {
        None
    }
}

/// `str::rsplit_once(c)` on a character.
pub open spec fn rsplit_once(s: Seq<char>, c: char) -> Option<(Seq<char>, Seq<char>)> {
    if has_char(s, c) {
        let i = choose|i: int| is_last_index(s, c, i);
        Some((s.take(i), s.skip(i + 1)))
    } else {
        None
    }
}

pub proof fn lemma_first_index_unique(s: Seq<char>, c: char, i: int, j: int)
    requires is_first_index(s, c, i), is_first_index(s, c, j),
    ensures i == j,
{
}

pub proof fn lemma_last_index_unique(s: Seq<char>, c: char, i: int, j: int)
    requires is_last_index(s, c, i), is_last_index(s, c, j),
    ensures i == j,
{
}

pub fn split_once_exec(s: &[char], c: char) -> (r: Option<(Vec<char>, Vec<char>)>)
    ensures
        match r {
            Some((a, b)) => split_once(s@, c) == Some((a@, b@)),
            None => split_once(s@, c) is None,
        },
{
    let n = s.len();
    match first_index_of(s, c) {
        Some(i) => {
            let a = slice_chars(s, 0, i);
            let b = slice_chars(s, i + 1, s.len());
            proof {
                let k = choose|k: int| is_first_index(s@, c, k);
                lemma_first_index_unique(s@, c, i as int, k);
                assert(a@ =~= s@.take(i as int));
                assert(b@ =~= s@.skip(i + 1));
            }
            Some((a, b))
        },
        None => None,
    }
}

pub fn rsplit_once_exec(s: &[char], c: char) -> (r: Option<(Vec<char>, Vec<char>)>)
    ensures
        match r {
            Some((a, b)) => rsplit_once(s@, c) == Some((a@, b@)),
            None => rsplit_once(s@, c) is None,
        },
{
    let n = s.len();
    match last_index_of(s, c) {
        Some(i) => {
            let a = slice_chars(s, 0, i);
            let b = slice_chars(s, i + 1, s.len());
            proof {
                let k = choose|k: int| is_last_index(s@, c, k);
                lemma_last_index_unique(s@, c, i as int, k);
                assert(a@ =~= s@.take(i as int));
                assert(b@ =~= s@.skip(i + 1));
            }
            Some((a, b))
        },
        None => None,
    }
}


// ---------------------------------------------------------------------------
// Decimal numbers
// ---------------------------------------------------------------------------

pub open spec fn digit_char(d: nat) -> char {
    if d == 0 { '0' } else if d == 1 { '1' } else if d == 2 { '2' } else if d == 3 { '3' }
    else if d == 4 { '4' } else if d == 5 { '5' } else if d == 6 { '6' } else if d == 7 { '7' }
    else if d == 8 { '8' } else { '9' }
}

/// The decimal rendering of a natural number (`Display` for unsigned integers).
pub open spec fn decimal(n: nat) -> Seq<char>
    decreases n,
{
    if n < 10 {
        seq![digit_char(n)]
    } else {
        decimal(n / 10).push(digit_char(n % 10))
    }
}

/// The decimal rendering of an integer (`Display` for signed integers).
pub open spec fn decimal_int(n: int) -> Seq<char> {
    if n < 0 {
        seq!['-'] + decimal((-n) as nat)
    } else {
        decimal(n as nat)
    }
}

/// `n` rendered with at least two digits (`{:02}`).
pub open spec fn decimal_02(n: nat) -> Seq<char> {
    if n < 10 {
        seq!['0'] + decimal(n)
    } else {
        decimal(n)
    }
}

fn digit_exec(d: u64) -> (c: char)
    requires d < 10,
    ensures c == digit_char(d as nat),
{
    if d == 0 { '0' } else if d == 1 { '1' } else if d == 2 { '2' } else if d == 3 { '3' }
    else if d == 4 { '4' } else if d == 5 { '5' } else if d == 6 { '6' } else if d == 7 { '7' }
    else if d == 8 { '8' } else { '9' }
}

pub fn push_decimal(buf: &mut Vec<char>, n: u64)
    ensures final(buf)@ == old(buf)@ + decimal(n as nat),
    decreases n,
{
    if n < 10 {
        buf.push(digit_exec(n));
        assert(decimal(n as nat) =~= seq![digit_char(n as nat)]);
    } else {
        let ghost start = buf@;
        push_decimal(buf, n / 10);
        buf.push(digit_exec(n % 10));
        assert(buf@ =~= start + decimal(n as nat));
    }
}

/// `n` rendered with at least `width` digits, padded with zeros on the left (`{:0width$}`).
pub open spec fn decimal_padded(n: nat, width: nat) -> Seq<char> {
    let d = decimal(n);
    if d.len() < width { Seq::new((width - d.len()) as nat, |i: int| '0') + d } else { d }
}

pub fn push_decimal_padded(buf: &mut Vec<char>, n: u64, width: usize)
    ensures final(buf)@ == old(buf)@ + decimal_padded(n as nat, width as nat),
{
    let ghost start = buf@;
    let mut digits: Vec<char> = Vec::new();
    push_decimal(&mut digits, n);
    let mut k: usize = digits.len();
    while k < width
        invariant
            digits@ == decimal(n as nat),
            digits@.len() <= k <= width || (k == digits@.len() && k >= width),
            buf@ == start + Seq::new((k - digits@.len()) as nat, |i: int| '0'),
        decreases width - k,
    {
        let ghost before = buf@;
        buf.push('0');
        assert(buf@ =~= start + Seq::new((k + 1 - digits@.len()) as nat, |i: int| '0'));
        k += 1;
    }
    let ghost pad = buf@;
    push_chars(buf, &digits);
    proof {
        if digits@.len() < width {
            assert(k == width);
        } else {
            assert(pad =~= start);
        }
        assert(buf@ =~= start + decimal_padded(n as nat, width as nat));
    }
}

pub fn push_decimal_02(buf: &mut Vec<char>, n: u64)
    ensures final(buf)@ == old(buf)@ + decimal_02(n as nat),
{
    let ghost start = buf@;
    if n < 10 {
        buf.push('0');
    }
    push_decimal(buf, n);
    assert(buf@ =~= start + decimal_02(n as nat));
}

pub fn push_decimal_int(buf: &mut Vec<char>, n: i64)
    ensures final(buf)@ == old(buf)@ + decimal_int(n as int),
{
    let ghost start = buf@;
    if n < 0 {
        buf.push('-');
        let m: u64 = (0i128 - n as i128) as u64;
        push_decimal(buf, m);
        assert(buf@ =~= start + decimal_int(n as int));
    } else {
        push_decimal(buf, n as u64);
    }
}

pub fn decimal_chars(n: u64) -> (r: Vec<char>)
    ensures r@ == decimal(n as nat),
{
    let mut r: Vec<char> = Vec::new();
    push_decimal(&mut r, n);
    assert(r@ =~= decimal(n as nat));
    r
}

pub fn decimal_string(n: u64) -> (r: String)
    ensures r@ == decimal(n as nat),
{
    let v = decimal_chars(n);
    string_of(&v)
}

pub open spec fn digit_value(c: char) -> nat {
    ((c as u32) - ('0' as u32)) as nat
}

pub open spec fn all_digits(s: Seq<char>) -> bool {
    forall|i: int| 0 <= i < s.len() ==> is_ascii_digit(#[trigger] s[i])
}

/// The number that a string of decimal digits denotes.
pub open spec fn digits_value(s: Seq<char>) -> nat
    decreases s.len(),
{
    if s.len() == 0 {
        0
    } else {
        digits_value(s.drop_last()) * 10 + digit_value(s.last())
    }
}

/// `FromStr` for an unsigned integer type whose largest value is `max`:
/// an optional `+`, then at least one ASCII digit, and nothing else.
pub open spec fn parse_unsigned(s: Seq<char>, max: nat) -> Option<nat> {
    let body = if s.len() > 0 && s[0] == '+' { s.drop_first() } else { s };
    if body.len() > 0 && all_digits(body) && digits_value(body) <= max {
        Some(digits_value(body))
    } else {
        None
    }
}

/// `FromStr` for a signed integer type ranging over `min..=max`.
pub open spec fn parse_signed(s: Seq<char>, min: int, max: int) -> Option<int> {
    if s.len() > 0 && s[0] == '-' {
        let body = s.drop_first();
        if body.len() > 0 && all_digits(body) && -(digits_value(body) as int) >= min {
            Some(-(digits_value(body) as int))
        } else {
            None
        }
    } else {
        let body = if s.len() > 0 && s[0] == '+' { s.drop_first() } else { s };
        if body.len() > 0 && all_digits(body) && digits_value(body) <= max {
            Some(digits_value(body) as int)
        } else {
            None
        }
    }
}

pub proof fn lemma_digits_value_prefix(s: Seq<char>, i: int)
    requires 0 <= i <= s.len(),
    ensures digits_value(s.take(i)) <= digits_value(s),
    decreases s.len() - i,
{
    if i < s.len() {
        lemma_digits_value_prefix(s, i + 1);
        assert(s.take(i + 1).drop_last() =~= s.take(i));
    } else {
        assert(s.take(i) =~= s);
    }
}

/// Reads `s[from..]` as a run of decimal digits whose value is at most `max`.
fn digits_at_most(s: &[char], from: usize, max: u64) -> (r: Option<u64>)
    requires from <= s@.len(),
    ensures
        match r {
            Some(v) => s@.skip(from as int).len() > 0 && all_digits(s@.skip(from as int))
                && v == digits_value(s@.skip(from as int)) && v <= max,
            None => !(s@.skip(from as int).len() > 0 && all_digits(s@.skip(from as int))
                && digits_value(s@.skip(from as int)) <= max),
        },
{
    let n = s.len();
    let ghost body = s@.skip(from as int);
    if from == n {
        return None;
    }
    let mut acc: u128 = 0;
    let mut i: usize = from;
    while i < n
        invariant
            n == s@.len(),
            from <= i <= n,
            body == s@.skip(from as int),
            all_digits(body.take(i - from)),
            acc == digits_value(body.take(i - from)),
            acc <= max,
        decreases n - i,
    {
        if !char_is_digit(s[i]) {
            assert(!is_ascii_digit(body[i - from]));
            return None;
        }
        let d = (s[i] as u32 - '0' as u32) as u128;
        assert(body.take(i + 1 - from).drop_last() =~= body.take(i - from));
        let next = acc * 10 + d;
        if next > max as u128 {
            proof { lemma_digits_value_prefix(body, i + 1 - from); }
            return None;
        }
        acc = next;
        i += 1;
        assert(all_digits(body.take(i - from)));
    }
    assert(body.take(n - from) =~= body);
    Some(acc as u64)
}

fn parse_unsigned_exec(s: &[char], max: u64) -> (r: Option<u64>)
    ensures
        match r {
            Some(v) => parse_unsigned(s@, max as nat) == Some(v as nat),
            None => parse_unsigned(s@, max as nat) is None,
        },
{
    let from: usize = if s.len() > 0 && s[0] == '+' { 1 } else { 0 };
    assert(from == 1 ==> s@.skip(1) =~= s@.drop_first());
    assert(from == 0 ==> s@.skip(0) =~= s@);
    digits_at_most(s, from, max)
}

/// `str::parse::<u64>`.
pub fn parse_u64(s: &[char]) -> (r: Option<u64>)
    ensures
        match r {
            Some(v) => parse_unsigned(s@, u64::MAX as nat) == Some(v as nat),
            None => parse_unsigned(s@, u64::MAX as nat) is None,
        },
{
    parse_unsigned_exec(s, u64::MAX)
}

/// `str::parse::<u32>`.
pub fn parse_u32(s: &[char]) -> (r: Option<u32>)
    ensures
        match r {
            Some(v) => parse_unsigned(s@, u32::MAX as nat) == Some(v as nat),
            None => parse_unsigned(s@, u32::MAX as nat) is None,
        },
{
    match parse_unsigned_exec(s, u32::MAX as u64) {
        Some(v) => Some(v as u32),
        None => None,
    }
}

/// `str::parse::<u16>`.
pub fn parse_u16(s: &[char]) -> (r: Option<u16>)
    ensures
        match r {
            Some(v) => parse_unsigned(s@, u16::MAX as nat) == Some(v as nat),
            None => parse_unsigned(s@, u16::MAX as nat) is None,
        },
{
    match parse_unsigned_exec(s, u16::MAX as u64) {
        Some(v) => Some(v as u16),
        None => None,
    }
}

/// `str::parse::<i64>`.
pub fn parse_i64(s: &[char]) -> (r: Option<i64>)
    ensures
        match r {
            Some(v) => parse_signed(s@, i64::MIN as int, i64::MAX as int) == Some(v as int),
            None => parse_signed(s@, i64::MIN as int, i64::MAX as int) is None,
        },
{
    if s.len() > 0 && s[0] == '-' {
        assert(s@.skip(1) =~= s@.drop_first());
        match digits_at_most(s, 1, 0x8000_0000_0000_0000u64) {
            Some(v) => {
                let r: i64 = if v == 0x8000_0000_0000_0000u64 { i64::MIN } else { -(v as i64) };
                Some(r)
            },
            None => None,
        }
    } else {
        match parse_unsigned_exec(s, i64::MAX as u64) {
            Some(v) => Some(v as i64),
            None => None,
        }
    }
}


/// An owned copy of a string slice.
pub fn owned(s: &str) -> (r: String)
    ensures r@ == s@,
{
    let v = chars_of(s);
    string_of(&v)
}

/// A fresh copy of a `String`.
pub fn copy_string(s: &String) -> (r: String)
    ensures r@ == s@,
{
    s.clone()
}

/// Copies of the strings in a vector.
pub fn copy_strings(v: &Vec<String>) -> (r: Vec<String>)
    ensures
        r@.len() == v@.len(),
        forall|i: int| 0 <= i < v@.len() ==> (#[trigger] r@[i])@ == v@[i]@,
{
    let mut r: Vec<String> = Vec::new();
    let mut i: usize = 0;
    while i < v.len()
        invariant
            0 <= i <= v@.len(),
            r@.len() == i,
            forall|j: int| 0 <= j < i ==> (#[trigger] r@[j])@ == v@[j]@,
        decreases v@.len() - i,
    {
        r.push(v[i].clone());
        i += 1;
    }
    r
}

/// The views of a vector of strings.
pub open spec fn string_views(v: Seq<String>) -> Seq<Seq<char>> {
    v.map_values(|s: String| s@)
}

/// An optional string, seen through its view.
pub open spec fn opt_view(o: Option<String>) -> Option<Seq<char>> {
    match o {
        Some(s) => Some(s@),
        None => None,
    }
}

/// A copy of an optional string.
pub fn copy_opt(o: &Option<String>) -> (r: Option<String>)
    ensures opt_view(r) == opt_view(*o),
{
    match o {
        Some(s) => Some(s.clone()),
        None => None,
    }
}

/// `values.join(sep)` for strings.
pub fn join_strings(values: &Vec<String>, sep: &str) -> (r: Vec<char>)
    ensures r@ == join(string_views(values@), sep@),
{
    let mut parts: Vec<Vec<char>> = Vec::new();
    let mut i: usize = 0;
    while i < values.len()
        invariant
            0 <= i <= values@.len(),
            views(parts@) == string_views(values@).take(i as int),
        decreases values@.len() - i,
    {
        let ghost before = parts@;
        let c = chars_of(values[i].as_str());
        parts.push(c);
        i += 1;
        assert(views(parts@) =~= views(before).push(c@));
        assert(views(parts@) =~= string_views(values@).take(i as int));
    }
    assert(string_views(values@).take(i as int) =~= string_views(values@));
    join_exec(&parts, sep)
}


/// `str::split_once(pat)` with a string pattern: around the first occurrence of `p`.
pub open spec fn split_once_str(s: Seq<char>, p: Seq<char>) -> Option<(Seq<char>, Seq<char>)> {
    if contains(s, p) {
        let i = choose|i: int| is_first_occurrence(s, p, i);
        Some((s.take(i), s.skip(i + p.len())))
    } else {
        None
    }
}

/// A text that contains a pattern has a first occurrence of it.
pub proof fn lemma_first_occurrence_exists(s: Seq<char>, p: Seq<char>, w: int)
    requires occurs_at(s, p, w),
    ensures exists|i: int| is_first_occurrence(s, p, i),
    decreases w,
{
    if exists|j: int| 0 <= j < w && #[trigger] occurs_at(s, p, j) {
        let j = choose|j: int| 0 <= j < w && #[trigger] occurs_at(s, p, j);
        lemma_first_occurrence_exists(s, p, j);
    } else {
        assert(is_first_occurrence(s, p, w));
    }
}

pub proof fn lemma_first_occurrence_unique(s: Seq<char>, p: Seq<char>, i: int, j: int)
    requires is_first_occurrence(s, p, i), is_first_occurrence(s, p, j),
    ensures i == j,
{
    if i < j {
        assert(!occurs_at(s, p, i));
    } else if j < i {
        assert(!occurs_at(s, p, j));
    }
}

pub fn split_once_str_exec(s: &[char], p: &str) -> (r: Option<(Vec<char>, Vec<char>)>)
    ensures
        match r {
            Some((a, b)) => split_once_str(s@, p@) == Some((a@, b@)),
            None => split_once_str(s@, p@) is None,
        },
{
    let pv = chars_of(p);
    let n = s.len();
    match find(s, &pv) {
        Some(i) => {
            proof {
                let k = choose|k: int| is_first_occurrence(s@, p@, k);
                lemma_first_occurrence_unique(s@, p@, i as int, k);
            }
            let a = slice_chars(s, 0, i);
            let b = slice_chars(s, i + pv.len(), s.len());
            assert(a@ =~= s@.take(i as int));
            assert(b@ =~= s@.skip(i + p@.len()));
            Some((a, b))
        },
        None => None,
    }
}

/// `str::trim_start_matches(c)`: drops every leading `c`.
pub open spec fn trim_start_char(s: Seq<char>, c: char) -> Seq<char>
    decreases s.len(),
{
    if s.len() > 0 && s[0] == c {
        trim_start_char(s.drop_first(), c)
    } else {
        s
    }
}

pub fn trim_start_char_exec(s: &[char], c: char) -> (r: Vec<char>)
    ensures r@ == trim_start_char(s@, c),
{
    let n = s.len();
    let mut i: usize = 0;
    assert(s@.skip(0) =~= s@);
    while i < n && s[i] == c
        invariant
            n == s@.len(),
            0 <= i <= n,
            trim_start_char(s@, c) == trim_start_char(s@.skip(i as int), c),
        decreases n - i,
    {
        assert(s@.skip(i as int).drop_first() =~= s@.skip(i + 1));
        i += 1;
    }
    let r = slice_chars(s, i, n);
    assert(r@ =~= s@.skip(i as int));
    r
}

/// `str::trim_end_matches(c)`: drops every trailing `c`.
pub open spec fn trim_end_char(s: Seq<char>, c: char) -> Seq<char>
    decreases s.len(),
{
    if s.len() > 0 && s.last() == c {
        trim_end_char(s.drop_last(), c)
    } else {
        s
    }
}

pub fn trim_end_char_exec(s: &[char], c: char) -> (r: Vec<char>)
    ensures r@ == trim_end_char(s@, c),
{
    let mut n = s.len();
    assert(s@.take(n as int) =~= s@);
    while n > 0 && s[n - 1] == c
        invariant
            0 <= n <= s@.len(),
            trim_end_char(s@, c) == trim_end_char(s@.take(n as int), c),
        decreases n,
    {
        assert(s@.take(n as int).drop_last() =~= s@.take(n - 1));
        n -= 1;
    }
    let r = slice_chars(s, 0, n);
    assert(r@ =~= s@.take(n as int));
    r
}

proof fn lemma_digit_char_value(d: nat)
    requires d < 10,
    ensures is_ascii_digit(digit_char(d)), digit_value(digit_char(d)) == d,
{
    assert('0' as u32 == 48);
    if d == 0 { assert('0' as u32 == 48); }
    else if d == 1 { assert('1' as u32 == 49); }
    else if d == 2 { assert('2' as u32 == 50); }
    else if d == 3 { assert('3' as u32 == 51); }
    else if d == 4 { assert('4' as u32 == 52); }
    else if d == 5 { assert('5' as u32 == 53); }
    else if d == 6 { assert('6' as u32 == 54); }
    else if d == 7 { assert('7' as u32 == 55); }
    else if d == 8 { assert('8' as u32 == 56); }
    else { assert('9' as u32 == 57); }
}

pub proof fn lemma_decimal_digits(n: nat)
    ensures
        decimal(n).len() > 0,
        all_digits(decimal(n)),
        digits_value(decimal(n)) == n,
    decreases n,
{
    if n < 10 {
        lemma_digit_char_value(n);
        let s = decimal(n);
        assert(s.drop_last() =~= Seq::<char>::empty());
        assert(digits_value(Seq::<char>::empty()) == 0);
        assert(digits_value(s) == digits_value(s.drop_last()) * 10 + digit_value(s.last()));
    } else {
        lemma_decimal_digits(n / 10);
        lemma_digit_char_value(n % 10);
        let d = decimal(n / 10);
        let s = d.push(digit_char(n % 10));
        assert(s.drop_last() =~= d);
        assert(digits_value(s) == digits_value(d) * 10 + digit_value(s.last()));
        assert(digit_value(s.last()) == n % 10);
        assert((n / 10) * 10 + n % 10 == n);
        assert(decimal(n) == s);
        assert forall|i: int| 0 <= i < s.len() implies is_ascii_digit(#[trigger] s[i]) by {
            if i < d.len() {
                assert(s[i] == d[i]);
            }
        }
    }
}

/// A number printed in decimal reads back as the same number, within any bound that
/// holds it.
pub proof fn law_decimal_reads_back(n: nat, max: nat)
    requires n <= max,
    ensures parse_unsigned(decimal(n), max) == Some(n),
{
    lemma_decimal_digits(n);
}

// ---------------------------------------------------------------------------
// Lexicographic order
// ---------------------------------------------------------------------------

/// The order of `String`'s `Ord`: byte-wise on UTF-8, which is the order of the
/// characters' code points, a proper prefix coming first.
pub open spec fn text_less(a: Seq<char>, b: Seq<char>) -> bool
    decreases a.len(),
{
    if a.len() == 0 {
        b.len() > 0
    } else if b.len() == 0 {
        false
    } else if a[0] != b[0] {
        (a[0] as int) < (b[0] as int)
    } else {
        text_less(a.drop_first(), b.drop_first())
    }
}

pub proof fn lemma_text_less_irreflexive(a: Seq<char>)
    ensures !text_less(a, a),
    decreases a.len(),
{
    if a.len() > 0 {
        lemma_text_less_irreflexive(a.drop_first());
    }
}

pub proof fn lemma_text_less_transitive(a: Seq<char>, b: Seq<char>, c: Seq<char>)
    requires text_less(a, b), text_less(b, c),
    ensures text_less(a, c),
    decreases a.len(),
{
    if a.len() > 0 && b.len() > 0 && c.len() > 0 && a[0] == b[0] && b[0] == c[0] {
        lemma_text_less_transitive(a.drop_first(), b.drop_first(), c.drop_first());
    }
}

pub proof fn lemma_text_less_total(a: Seq<char>, b: Seq<char>)
    requires a != b,
    ensures text_less(a, b) || text_less(b, a),
    decreases a.len(),
{
    if a.len() > 0 && b.len() > 0 {
        if a[0] == b[0] {
            if a.drop_first() == b.drop_first() {
                assert(a =~= seq![a[0]] + a.drop_first());
                assert(b =~= seq![b[0]] + b.drop_first());
            }
            lemma_text_less_total(a.drop_first(), b.drop_first());
        } else {
            assert((a[0] as int) != (b[0] as int));
        }
    } else if a.len() == 0 && b.len() == 0 {
        assert(a =~= b);
    }
}

pub proof fn lemma_text_less_asymmetric(a: Seq<char>, b: Seq<char>)
    requires text_less(a, b),
    ensures !text_less(b, a),
{
    if text_less(b, a) {
        lemma_text_less_transitive(a, b, a);
        lemma_text_less_irreflexive(a);
    }
}

/// `a < b` on the strings the two sequences spell.
pub fn text_less_exec(a: &[char], b: &[char]) -> (r: bool)
    ensures r == text_less(a@, b@),
{
    let mut i: usize = 0;
    assert(a@.skip(0) =~= a@);
    assert(b@.skip(0) =~= b@);
    while i < a.len() && i < b.len()
        invariant
            0 <= i <= a@.len(),
            i <= b@.len(),
            text_less(a@, b@) == text_less(a@.skip(i as int), b@.skip(i as int)),
        decreases a@.len() - i,
    {
        if a[i] != b[i] {
            return a[i] < b[i];
        }
        assert(a@.skip(i as int).drop_first() =~= a@.skip(i + 1));
        assert(b@.skip(i as int).drop_first() =~= b@.skip(i + 1));
        i += 1;
    }
    i < b.len() && i == a.len()
}

/// Whether every key comes before the next.
pub open spec fn strictly_sorted(keys: Seq<Seq<char>>) -> bool {
    forall|i: int, j: int| 0 <= i < j < keys.len() ==> text_less(keys[i], keys[j])
}

/// Inserts a key into a strictly sorted sequence of keys, unless it is there already.
pub fn insert_sorted_unique(keys: &mut Vec<Vec<char>>, key: &[char])
    requires strictly_sorted(views(old(keys)@)),
    ensures
        strictly_sorted(views(final(keys)@)),
        forall|k: Seq<char>| views(final(keys)@).contains(k) <==> (views(old(keys)@).contains(k) || k == key@),
{
    let ghost before = views(keys@);
    let mut p: usize = 0;
    while p < keys.len() && text_less_exec(&keys[p], key)
        invariant
            0 <= p <= keys@.len(),
            before == views(keys@),
            forall|j: int| 0 <= j < p ==> text_less(before[j], key@),
        decreases keys@.len() - p,
    {
        p += 1;
    }
    if p < keys.len() && chars_eq(&keys[p], key) {
        assert(before[p as int] == key@);
        return;
    }
    keys.insert(p, copy_chars(key));
    let ghost after = views(keys@);
    proof {
        assert(after =~= before.insert(p as int, key@));
        if p < before.len() {
            assert(before[p as int] != key@);
            assert(!text_less(before[p as int], key@));
            lemma_text_less_total(before[p as int], key@);
        }
        assert forall|i: int, j: int| 0 <= i < j < after.len() implies text_less(after[i], after[j]) by {
            if j < p {
                assert(after[i] == before[i] && after[j] == before[j]);
            } else if j == p {
                assert(after[i] == before[i]);
            } else if i == p {
                assert(after[j] == before[j - 1]);
                if j - 1 > p {
                    lemma_text_less_transitive(key@, before[p as int], before[j - 1]);
                }
            } else if i < p {
                assert(after[i] == before[i] && after[j] == before[j - 1]);
            } else {
                assert(after[i] == before[i - 1] && after[j] == before[j - 1]);
            }
        }
        assert forall|k: Seq<char>| after.contains(k) <==> (before.contains(k) || k == key@) by {
            if after.contains(k) {
                let i = choose|i: int| 0 <= i < after.len() && after[i] == k;
                if i < p {
                    assert(before[i] == k);
                } else if i > p {
                    assert(before[i - 1] == k);
                }
            }
            if before.contains(k) {
                let i = choose|i: int| 0 <= i < before.len() && before[i] == k;
                if i < p {
                    assert(after[i] == k);
                } else {
                    assert(after[i + 1] == k);
                }
            }
            if k == key@ {
                assert(after[p as int] == k);
            }
        }
    }
}

} // verus!
