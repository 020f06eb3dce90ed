//! The Redis serialization protocol (RESP): encoding of commands and a streaming
//! parser of replies that tells a complete reply from one that needs more bytes.
use vstd::prelude::*;
use vstd::utf8::{decode_utf8, encode_scalar, encode_utf8, valid_utf8};

use crate::hardening::{sanitize_and_mask, sanitize_and_mask_text};
use crate::text::{
    chars_of, decimal, decimal_int, lower, owned, parse_i64, parse_signed, push_chars, push_decimal, push_decimal_int,
    push_str, string_of, to_lower,
};

verus! {

/// A reply from a Redis server.
pub enum RedisValue {
    SimpleString(String),
    Error(String),
    Integer(i64),
    BulkString(String),
    Array(Vec<RedisValue>),
    Nil,
}

/// The mathematical model of a reply.
pub enum RedisModel {
    SimpleString(Seq<char>),
    Error(Seq<char>),
    Integer(int),
    BulkString(Seq<char>),
    Array(Seq<RedisModel>),
    Nil,
}

pub open spec fn redis_items_model(items: Seq<RedisValue>) -> Seq<RedisModel>
    decreases items,
{
    Seq::new(items.len(), |i: int| if 0 <= i < items.len() { redis_model(items[i]) } else { RedisModel::Nil })
}

pub open spec fn redis_model(v: RedisValue) -> RedisModel
    decreases v,
{
    match v {
        RedisValue::SimpleString(s) => RedisModel::SimpleString(s@),
        RedisValue::Error(s) => RedisModel::Error(s@),
        RedisValue::Integer(n) => RedisModel::Integer(n as int),
        RedisValue::BulkString(s) => RedisModel::BulkString(s@),
        RedisValue::Array(items) => RedisModel::Array(redis_items_model(items@)),
        RedisValue::Nil => RedisModel::Nil,
    }
}

impl View for RedisValue {
    type V = RedisModel;

    open spec fn view(&self) -> RedisModel {
        redis_model(*self)
    }
}

/// Why a reply cannot be read.
#[derive(PartialEq, Eq, Structural, Clone, Copy, Debug)]
pub enum RespError {
    LineNotUtf8,
    BulkNotUtf8,
    InvalidInteger,
    InvalidBulkLength,
    InvalidArrayLength,
    UnsupportedPrefix(u8),
    MissingCrlf,
}

/// The outcome of reading one reply that starts at a position of a buffer.
pub enum RespStep {
    /// A reply and the position right after it.
    Done(RedisModel, int),
    /// The buffer ends before the reply does.
    Incomplete,
    Invalid(RespError),
}

// ---------------------------------------------------------------------------
// Grammar
// ---------------------------------------------------------------------------

/// The first position at or after `i` where `\r\n` starts.
pub open spec fn crlf_from(b: Seq<u8>, i: int) -> Option<int>
    decreases b.len() - i,
{
    if i < 0 || i + 1 >= b.len() {
        None
    } else if b[i] == 13 && b[i + 1] == 10 {
        Some(i)
    } else {
        crlf_from(b, i + 1)
    }
}

/// The outcome of reading a `\r\n`-terminated text line at `i`: its characters and the
/// position after the terminator.
pub enum LineStep {
    Line(Seq<char>, int),
    Incomplete,
    NotUtf8,
}

pub open spec fn line_at(b: Seq<u8>, i: int) -> LineStep {
    match crlf_from(b, i) {
        None => LineStep::Incomplete,
        Some(j) => if valid_utf8(b.subrange(i, j)) {
            LineStep::Line(decode_utf8(b.subrange(i, j)), j + 2)
        } else {
            LineStep::NotUtf8
        },
    }
}

/// The reply that starts at `pos`.
pub open spec fn parse_at(b: Seq<u8>, pos: int) -> RespStep
    decreases b.len() - pos, 0int,
{
    if pos < 0 || pos >= b.len() {
        RespStep::Incomplete
    } else {
        let prefix = b[pos];
        match line_at(b, pos + 1) {
            LineStep::Incomplete => if prefix == 43 || prefix == 45 || prefix == 58 || prefix == 36 || prefix == 42 {
                RespStep::Incomplete
            } else {
                RespStep::Invalid(RespError::UnsupportedPrefix(prefix))
            },
            LineStep::NotUtf8 => if prefix == 43 || prefix == 45 || prefix == 58 || prefix == 36 || prefix == 42 {
                RespStep::Invalid(RespError::LineNotUtf8)
            } else {
                RespStep::Invalid(RespError::UnsupportedPrefix(prefix))
            },
            LineStep::Line(text, next) => {
                if prefix == 43 {
                    RespStep::Done(RedisModel::SimpleString(text), next)
                } else if prefix == 45 {
                    RespStep::Done(RedisModel::Error(text), next)
                } else if prefix == 58 {
                    match parse_signed(text, i64::MIN as int, i64::MAX as int) {
                        Some(n) => RespStep::Done(RedisModel::Integer(n), next),
                        None => RespStep::Invalid(RespError::InvalidInteger),
                    }
                } else if prefix == 36 {
                    match parse_signed(text, i64::MIN as int, i64::MAX as int) {
                        None => RespStep::Invalid(RespError::InvalidBulkLength),
                        Some(len) => if len < 0 {
                            RespStep::Done(RedisModel::Nil, next)
                        } else if next + len + 2 > b.len() {
                            RespStep::Incomplete
                        } else if b[next + len] != 13 || b[next + len + 1] != 10 {
                            RespStep::Invalid(RespError::MissingCrlf)
                        } else if valid_utf8(b.subrange(next, next + len)) {
                            RespStep::Done(RedisModel::BulkString(decode_utf8(b.subrange(next, next + len))), next + len + 2)
                        } else {
                            RespStep::Invalid(RespError::BulkNotUtf8)
                        },
                    }
                } else if prefix == 42 {
                    match parse_signed(text, i64::MIN as int, i64::MAX as int) {
                        None => RespStep::Invalid(RespError::InvalidArrayLength),
                        Some(len) => if len < 0 {
                            RespStep::Done(RedisModel::Nil, next)
                        } else if pos < next <= b.len() {
                            parse_items(b, next, len as nat, Seq::empty())
                        } else {
                            RespStep::Incomplete
                        },
                    }
                } else {
                    RespStep::Invalid(RespError::UnsupportedPrefix(prefix))
                }
            },
        }
    }
}

/// `count` more replies from `pos`, appended to those read so far.
pub open spec fn parse_items(b: Seq<u8>, pos: int, count: nat, acc: Seq<RedisModel>) -> RespStep
    decreases b.len() - pos, 1int, count,
{
    if count == 0 {
        RespStep::Done(RedisModel::Array(acc), pos)
    } else {
        match parse_at(b, pos) {
            RespStep::Done(v, next) => if pos < next <= b.len() {
                parse_items(b, next, (count - 1) as nat, acc.push(v))
            } else {
                RespStep::Incomplete
            },
            other => other,
        }
    }
}


// ---------------------------------------------------------------------------
// Streaming: a decided reply stays decided
// ---------------------------------------------------------------------------

proof fn lemma_crlf_from_extend(b: Seq<u8>, c: Seq<u8>, i: int)
    requires crlf_from(b, i) is Some,
    ensures crlf_from(b + c, i) == crlf_from(b, i),
    decreases b.len() - i,
{
    let e = b + c;
    if !(i < 0 || i + 1 >= b.len()) {
        assert(e[i] == b[i] && e[i + 1] == b[i + 1]);
        if !(b[i] == 13 && b[i + 1] == 10) {
            lemma_crlf_from_extend(b, c, i + 1);
        }
    }
}

proof fn lemma_line_at_extend(b: Seq<u8>, c: Seq<u8>, i: int)
    requires !(line_at(b, i) is Incomplete),
    ensures line_at(b + c, i) == line_at(b, i),
{
    lemma_crlf_from_extend(b, c, i);
    lemma_crlf_from_bounds(b, i);
    let j = crlf_from(b, i)->Some_0;
    assert((b + c).subrange(i, j) =~= b.subrange(i, j));
}

proof fn lemma_parse_at_extend(b: Seq<u8>, c: Seq<u8>, pos: int)
    requires !(parse_at(b, pos) is Incomplete),
    ensures parse_at(b + c, pos) == parse_at(b, pos),
    decreases b.len() - pos, 0int,
{
    let e = b + c;
    if 0 <= pos < b.len() {
        let prefix = b[pos];
        assert(e[pos] == prefix);
        let recognized = prefix == 43 || prefix == 45 || prefix == 58 || prefix == 36 || prefix == 42;
        if line_at(b, pos + 1) is Incomplete {
            // Only an unrecognized prefix decides here, and it decides the same way on `e`.
        } else {
            lemma_line_at_extend(b, c, pos + 1);
            lemma_crlf_from_bounds(b, pos + 1);
            if let LineStep::Line(text, next) = line_at(b, pos + 1) {
                if prefix == 36 {
                    if let Some(len) = parse_signed(text, i64::MIN as int, i64::MAX as int) {
                        if len >= 0 && next + len + 2 <= b.len() {
                            assert(e[next + len] == b[next + len] && e[next + len + 1] == b[next + len + 1]);
                            assert(e.subrange(next, next + len) =~= b.subrange(next, next + len));
                        }
                    }
                } else if prefix == 42 {
                    if let Some(len) = parse_signed(text, i64::MIN as int, i64::MAX as int) {
                        if len >= 0 && pos < next <= b.len() {
                            lemma_parse_items_extend(b, c, next, len as nat, Seq::empty());
                        }
                    }
                }
            }
        }
    }
}

proof fn lemma_parse_items_extend(b: Seq<u8>, c: Seq<u8>, pos: int, count: nat, acc: Seq<RedisModel>)
    requires !(parse_items(b, pos, count, acc) is Incomplete),
    ensures parse_items(b + c, pos, count, acc) == parse_items(b, pos, count, acc),
    decreases b.len() - pos, 1int, count,
{
    if count > 0 {
        lemma_parse_at_extend(b, c, pos);
        if let RespStep::Done(v, next) = parse_at(b, pos) {
            if pos < next <= b.len() {
                lemma_parse_items_extend(b, c, next, (count - 1) as nat, acc.push(v));
            }
        }
    }
}

/// A reply that can be told from a buffer (read whole, or refused) is told the same way
/// once more bytes arrive after it: only a reply that needs more bytes can change.
pub proof fn law_decided_reply_survives_more_bytes(b: Seq<u8>, more: Seq<u8>)
    requires !(parse_at(b, 0) is Incomplete),
    ensures parse_at(b + more, 0) == parse_at(b, 0),
{
    lemma_parse_at_extend(b, more, 0);
}

// ---------------------------------------------------------------------------
// Reading replies
// ---------------------------------------------------------------------------

/// What an executable result of the reader means.
pub open spec fn step_of(r: Result<Option<(RedisValue, usize)>, RespError>) -> RespStep {
    match r {
        Ok(Some((v, n))) => RespStep::Done(v@, n as int),
        Ok(None) => RespStep::Incomplete,
        Err(e) => RespStep::Invalid(e),
    }
}

/// `String::from_utf8`: the characters that valid UTF-8 bytes encode.
#[verifier::external_body]
fn decode_utf8_bytes(b: &[u8]) -> (r: Option<String>)
    ensures
        match r {
            Some(s) => valid_utf8(b@) && s@ == decode_utf8(b@),
            None => !valid_utf8(b@),
        },
{
    String::from_utf8(b.to_vec()).ok()
}

fn bytes_between(b: &[u8], from: usize, to: usize) -> (r: Vec<u8>)
    requires from <= to <= b@.len(),
    ensures r@ == b@.subrange(from as int, to as int),
{
    let mut r: Vec<u8> = Vec::new();
    let mut i = from;
    while i < to
        invariant
            from <= i <= to <= b@.len(),
            r@ == b@.subrange(from as int, i as int),
        decreases to - i,
    {
        r.push(b[i]);
        i += 1;
        assert(r@ =~= b@.subrange(from as int, i as int));
    }
    r
}

proof fn lemma_crlf_from_bounds(b: Seq<u8>, i: int)
    ensures
        crlf_from(b, i) matches Some(j) ==> i <= j && j + 1 < b.len() && 0 <= i,
    decreases b.len() - i,
{
    if !(i < 0 || i + 1 >= b.len()) && !(b[i] == 13 && b[i + 1] == 10) {
        lemma_crlf_from_bounds(b, i + 1);
    }
}

fn find_crlf(b: &[u8], from: usize) -> (r: Option<usize>)
    ensures
        match r {
            Some(j) => crlf_from(b@, from as int) == Some(j as int) && from <= j && j + 1 < b@.len(),
            None => crlf_from(b@, from as int) is None,
        },
{
    let n = b.len();
    let mut i = from;
    proof { lemma_crlf_from_bounds(b@, from as int); }
    while i < n && i + 1 < n
        invariant
            n == b@.len(),
            from <= i,
            crlf_from(b@, from as int) == crlf_from(b@, i as int),
        decreases n - i,
    {
        if b[i] == 13 && b[i + 1] == 10 {
            return Some(i);
        }
        i += 1;
    }
    None
}

/// Reads a text line at `i`: `Ok(Some((text, next)))`, `Ok(None)` when incomplete,
/// `Err(())` when the line is not UTF-8.
fn read_line_at(b: &[u8], i: usize) -> (r: Result<Option<(Vec<char>, usize)>, ()>)
    ensures
        match r {
            Ok(Some((t, next))) => line_at(b@, i as int) == LineStep::Line(t@, next as int) && i + 2 <= next <= b@.len(),
            Ok(None) => line_at(b@, i as int) == LineStep::Incomplete,
            Err(_) => line_at(b@, i as int) == LineStep::NotUtf8,
        },
{
    let n = b.len();
    match find_crlf(b, i) {
        None => Ok(None),
        Some(j) => {
            let raw = bytes_between(b, i, j);
            match decode_utf8_bytes(&raw) {
                Some(s) => Ok(Some((chars_of(s.as_str()), j + 2))),
                None => Err(()),
            }
        },
    }
}

/// Reads the reply that starts at `pos` of `b`.
pub fn parse_redis_value(b: &[u8], pos: usize) -> (r: Result<Option<(RedisValue, usize)>, RespError>)
    ensures step_of(r) == parse_at(b@, pos as int),
    decreases b@.len() - pos,
{
    let n = b.len();
    if pos >= n {
        return Ok(None);
    }
    let prefix = b[pos];
    let supported = prefix == 43 || prefix == 45 || prefix == 58 || prefix == 36 || prefix == 42;
    if !supported {
        return Err(RespError::UnsupportedPrefix(prefix));
    }
    let (text, next) = match read_line_at(b, pos + 1) {
        Ok(Some(line)) => line,
        Ok(None) => return Ok(None),
        Err(_) => return Err(RespError::LineNotUtf8),
    };
    if prefix == 43 {
        Ok(Some((RedisValue::SimpleString(string_of(&text)), next)))
    } else if prefix == 45 {
        Ok(Some((RedisValue::Error(string_of(&text)), next)))
    } else if prefix == 58 {
        match parse_i64(&text) {
            Some(v) => Ok(Some((RedisValue::Integer(v), next))),
            None => Err(RespError::InvalidInteger),
        }
    } else if prefix == 36 {
        match parse_i64(&text) {
            None => Err(RespError::InvalidBulkLength),
            Some(len) => {
                if len < 0 {
                    return Ok(Some((RedisValue::Nil, next)));
                }
                let len = len as u64;
                if len as u128 + next as u128 + 2 > n as u128 {
                    return Ok(None);
                }
                let len = len as usize;
                if b[next + len] != 13 || b[next + len + 1] != 10 {
                    return Err(RespError::MissingCrlf);
                }
                let raw = bytes_between(b, next, next + len);
                match decode_utf8_bytes(&raw) {
                    Some(s) => Ok(Some((RedisValue::BulkString(s), next + len + 2))),
                    None => Err(RespError::BulkNotUtf8),
                }
            },
        }
    } else {
        match parse_i64(&text) {
            None => Err(RespError::InvalidArrayLength),
            Some(len) => {
                if len < 0 {
                    return Ok(Some((RedisValue::Nil, next)));
                }
                let count = len as u64;
                let mut items: Vec<RedisValue> = Vec::new();
                let mut cur = next;
                let mut k: u64 = 0;
                assert(redis_items_model(items@) =~= Seq::<RedisModel>::empty());
                while k < count
                    invariant
                        n == b@.len(),
                        pos < next <= cur <= n,
                        k <= count,
                        count == len,
                        parse_at(b@, pos as int) == parse_items(b@, next as int, count as nat, Seq::empty()),
                        parse_items(b@, next as int, count as nat, Seq::empty())
                            == parse_items(b@, cur as int, (count - k) as nat, redis_items_model(items@)),
                    decreases count - k,
                {
                    match parse_redis_value(b, cur) {
                        Ok(Some((v, after))) => {
                            if !(cur < after && after <= n) {
                                return Ok(None);
                            }
                            let ghost before = items@;
                            items.push(v);
                            assert(redis_items_model(items@) =~= redis_items_model(before).push(v@));
                            cur = after;
                            k += 1;
                        },
                        Ok(None) => return Ok(None),
                        Err(e) => return Err(e),
                    }
                }
                let r = RedisValue::Array(items);
                Ok(Some((r, cur)))
            },
        }
    }
}


// ---------------------------------------------------------------------------
// Encoding commands
// ---------------------------------------------------------------------------

pub open spec fn crlf() -> Seq<char> {
    seq!['\r', '\n']
}

/// One argument as a bulk string: `$`, its length in UTF-8 bytes, CRLF, the text, CRLF.
pub open spec fn encode_arg(a: Seq<char>) -> Seq<char> {
    seq!['$'] + decimal((encode_utf8(a).len() as usize) as nat) + crlf() + a + crlf()
}

pub open spec fn encode_args(args: Seq<Seq<char>>) -> Seq<char>
    decreases args.len(),
{
    if args.len() == 0 {
        Seq::empty()
    } else {
        encode_args(args.drop_last()) + encode_arg(args.last())
    }
}

/// A command as a RESP array of bulk strings.
pub open spec fn encode_command_spec(args: Seq<Seq<char>>) -> Seq<char> {
    seq!['*'] + decimal(args.len()) + crlf() + encode_args(args)
}

pub open spec fn str_views(args: Seq<&str>) -> Seq<Seq<char>> {
    args.map_values(|a: &str| a@)
}

/// Encodes a command and its arguments as a RESP array of bulk strings.
pub fn encode_command(args: &[&str]) -> (r: String)
    ensures r@ == encode_command_spec(str_views(args@)),
{
    let mut out: Vec<char> = Vec::new();
    out.push('*');
    push_decimal(&mut out, args.len() as u64);
    out.push('\r');
    out.push('\n');
    let ghost head = out@;
    let mut i: usize = 0;
    while i < args.len()
        invariant
            0 <= i <= args@.len(),
            out@ == head + encode_args(str_views(args@).take(i as int)),
        decreases args@.len() - i,
    {
        let a = args[i];
        let ghost before = out@;
        out.push('$');
        push_decimal(&mut out, a.len() as u64);
        out.push('\r');
        out.push('\n');
        push_str(&mut out, a);
        out.push('\r');
        out.push('\n');
        assert(str_views(args@).take(i + 1).drop_last() =~= str_views(args@).take(i as int));
        i += 1;
        assert(out@ =~= before + encode_arg(a@));
    }
    assert(str_views(args@).take(i as int) =~= str_views(args@));
    assert(out@ =~= encode_command_spec(str_views(args@)));
    string_of(&out)
}

// ---------------------------------------------------------------------------
// An encoded command reads back as its arguments
// ---------------------------------------------------------------------------

/// The arguments of a command as the bulk strings of a reply.
pub open spec fn bulks(args: Seq<Seq<char>>) -> Seq<RedisModel> {
    Seq::new(args.len(), |i: int| RedisModel::BulkString(args[i]))
}

/// Characters with one-byte UTF-8 encodings.
pub open spec fn ascii(s: Seq<char>) -> bool {
    forall|i: int| 0 <= i < s.len() ==> (s[i] as u32) < 128
}

proof fn lemma_width_1(v: u32)
    by (bit_vector)
    requires v <= 0x7F,
    ensures
        ((v & 0x7F) as u8) == (v as u8),
        (v as u8) as u32 == v,
{
}

proof fn lemma_encode_concat(a: Seq<char>, b: Seq<char>)
    ensures encode_utf8(a + b) == encode_utf8(a) + encode_utf8(b),
    decreases a.len(),
{
    if a.len() == 0 {
        assert(a + b =~= b);
        assert(encode_utf8(a) =~= Seq::<u8>::empty());
        assert(encode_utf8(a) + encode_utf8(b) =~= encode_utf8(b));
    } else {
        assert((a + b).drop_first() =~= a.drop_first() + b);
        assert((a + b)[0] == a[0]);
        lemma_encode_concat(a.drop_first(), b);
        assert(encode_utf8(a + b) =~= encode_utf8(a) + encode_utf8(b));
    }
}

proof fn lemma_encode_ascii(s: Seq<char>)
    requires ascii(s),
    ensures
        encode_utf8(s).len() == s.len(),
        forall|i: int| 0 <= i < s.len() ==> encode_utf8(s)[i] == ((s[i] as u32) as u8),
    decreases s.len(),
{
    if s.len() > 0 {
        let rest = s.drop_first();
        assert(ascii(rest)) by {
            assert forall|i: int| 0 <= i < rest.len() implies (rest[i] as u32) < 128 by {
                assert(rest[i] == s[i + 1]);
            }
        }
        lemma_encode_ascii(rest);
        let v = s[0] as u32;
        lemma_width_1(v);
        assert(encode_scalar(v) =~= seq![v as u8]);
        assert forall|i: int| 0 <= i < s.len() implies encode_utf8(s)[i] == ((s[i] as u32) as u8) by {
            if i > 0 {
                assert(rest[i - 1] == s[i]);
            }
        }
    }
}

proof fn lemma_decimal_ascii(n: nat)
    ensures
        ascii(decimal(n)),
        decimal(n).len() > 0,
        decimal(n)[0] != '-' && decimal(n)[0] != '+',
        crate::text::all_digits(decimal(n)),
{
    crate::text::lemma_decimal_digits(n);
    assert(crate::text::is_ascii_digit(decimal(n)[0]));
}

/// The bytes of a run that holds no carriage return, then CRLF: the first CRLF is there.
proof fn lemma_crlf_after_run(b: Seq<u8>, i: int, k: nat)
    requires
        0 <= i,
        i + k + 1 < b.len(),
        b[i + k] == 13, b[i + k + 1] == 10,
        forall|j: int| i <= j < i + k ==> b[j] != 13,
    ensures crlf_from(b, i) == Some(i + k),
    decreases k,
{
    if k > 0 {
        lemma_crlf_after_run(b, i + 1, (k - 1) as nat);
    }
}

/// A number in decimal, then CRLF, read as a line at `i`.
proof fn lemma_number_line(b: Seq<u8>, i: int, n: nat)
    requires
        0 <= i,
        i + encode_utf8(decimal(n)).len() + 2 <= b.len(),
        b.subrange(i, i + encode_utf8(decimal(n)).len()) == encode_utf8(decimal(n)),
        b[i + encode_utf8(decimal(n)).len()] == 13,
        b[i + encode_utf8(decimal(n)).len() + 1] == 10,
    ensures line_at(b, i) == LineStep::Line(decimal(n), i + encode_utf8(decimal(n)).len() + 2),
{
    let d = decimal(n);
    let e = encode_utf8(d);
    lemma_decimal_ascii(n);
    lemma_encode_ascii(d);
    assert forall|j: int| i <= j < i + e.len() implies b[j] != 13 by {
        assert(b[j] == e[j - i]);
        assert(e[j - i] == ((d[j - i] as u32) as u8));
        assert(crate::text::is_ascii_digit(d[j - i]));
        lemma_width_1(d[j - i] as u32);
    }
    lemma_crlf_after_run(b, i, e.len());
    vstd::utf8::encode_utf8_valid_utf8(d);
    vstd::utf8::encode_utf8_decode_utf8(d);
}

proof fn lemma_parse_decimal(n: nat)
    requires n <= i64::MAX,
    ensures parse_signed(decimal(n), i64::MIN as int, i64::MAX as int) == Some(n as int),
{
    lemma_decimal_ascii(n);
    crate::text::law_decimal_reads_back(n, i64::MAX as nat);
}

proof fn lemma_ascii_literals()
    ensures
        encode_utf8(seq!['$']) == seq![36u8],
        encode_utf8(seq!['*']) == seq![42u8],
        encode_utf8(crlf()) == seq![13u8, 10u8],
{
    lemma_encode_ascii(seq!['$']);
    lemma_encode_ascii(seq!['*']);
    lemma_encode_ascii(crlf());
    assert(encode_utf8(seq!['$']) =~= seq![36u8]);
    assert(encode_utf8(seq!['*']) =~= seq![42u8]);
    assert(encode_utf8(crlf()) =~= seq![13u8, 10u8]);
}

/// The bytes of one encoded argument, part by part.
proof fn lemma_encode_arg_bytes(a: Seq<char>)
    ensures ({
        let d = encode_utf8(decimal((encode_utf8(a).len() as usize) as nat));
        encode_utf8(encode_arg(a)) == seq![36u8] + d + seq![13u8, 10u8] + encode_utf8(a) + seq![13u8, 10u8]
    }),
{
    let dn = decimal((encode_utf8(a).len() as usize) as nat);
    lemma_ascii_literals();
    lemma_encode_concat(seq!['$'], dn);
    lemma_encode_concat(seq!['$'] + dn, crlf());
    lemma_encode_concat(seq!['$'] + dn + crlf(), a);
    lemma_encode_concat(seq!['$'] + dn + crlf() + a, crlf());
}

/// An encoded argument at `p` reads as its bulk string.
proof fn lemma_bulk_at(b: Seq<u8>, p: int, a: Seq<char>)
    requires
        0 <= p,
        p + encode_utf8(encode_arg(a)).len() <= b.len(),
        b.subrange(p, p + encode_utf8(encode_arg(a)).len()) == encode_utf8(encode_arg(a)),
        encode_utf8(a).len() <= i64::MAX,
        encode_utf8(a).len() <= usize::MAX,
    ensures parse_at(b, p) == RespStep::Done(RedisModel::BulkString(a), p + encode_utf8(encode_arg(a)).len()),
{
    let ln = encode_utf8(a).len();
    assert((ln as usize) as nat == ln);
    let l = ln as int;
    let dn = decimal(ln);
    let d = encode_utf8(dn);
    let dl = d.len() as int;
    let av = encode_utf8(a);
    let w = encode_utf8(encode_arg(a));
    lemma_encode_arg_bytes(a);
    assert(w =~= seq![36u8] + d + seq![13u8, 10u8] + av + seq![13u8, 10u8]);
    assert(b[p] == w[0]);
    assert(b.subrange(p + 1, p + 1 + dl) =~= w.subrange(1, 1 + dl));
    assert(w.subrange(1, 1 + dl) =~= d);
    assert(b[p + 1 + dl] == w[1 + dl]);
    assert(b[p + 2 + dl] == w[2 + dl]);
    lemma_number_line(b, p + 1, ln);
    lemma_parse_decimal(ln);
    let next = p + 1 + dl + 2;
    assert(b[next + l] == w[3 + dl + l]);
    assert(b[next + l + 1] == w[4 + dl + l]);
    assert(b.subrange(next, next + l) =~= av) by {
        assert(b.subrange(next, next + l) =~= w.subrange(3 + dl, 3 + dl + l));
    }
    vstd::utf8::encode_utf8_valid_utf8(a);
    vstd::utf8::encode_utf8_decode_utf8(a);
}

proof fn lemma_encode_args_concat(x: Seq<Seq<char>>, y: Seq<Seq<char>>)
    ensures encode_args(x + y) == encode_args(x) + encode_args(y),
    decreases y.len(),
{
    if y.len() == 0 {
        assert(x + y =~= x);
        assert(encode_args(x) + encode_args(y) =~= encode_args(x));
    } else {
        assert((x + y).drop_last() =~= x + y.drop_last());
        lemma_encode_args_concat(x, y.drop_last());
        assert(encode_args(x + y) =~= encode_args(x) + encode_args(y));
    }
}

/// The arguments from the `k`-th on, read from where their encoding starts.
proof fn lemma_items_read(b: Seq<u8>, start: int, args: Seq<Seq<char>>, k: nat)
    requires
        0 <= start,
        k <= args.len(),
        start + encode_utf8(encode_args(args)).len() == b.len(),
        b.subrange(start, b.len() as int) == encode_utf8(encode_args(args)),
        forall|i: int| 0 <= i < args.len() ==> encode_utf8(#[trigger] args[i]).len() <= i64::MAX
            && encode_utf8(args[i]).len() <= usize::MAX,
    ensures
        parse_items(b, start + encode_utf8(encode_args(args.take(k as int))).len(), (args.len() - k) as nat,
            bulks(args.take(k as int))) == RespStep::Done(RedisModel::Array(bulks(args)), b.len() as int),
    decreases args.len() - k,
{
    let pos = start + encode_utf8(encode_args(args.take(k as int))).len();
    if k == args.len() {
        assert(args.take(k as int) =~= args);
    } else {
        let head = args.take(k as int);
        let next_head = args.take(k + 1int);
        let tail = args.skip(k + 1int);
        assert(next_head.drop_last() =~= head);
        assert(next_head.last() == args[k as int]);
        assert(encode_args(next_head) == encode_args(head) + encode_arg(args[k as int]));
        assert(args =~= next_head + tail);
        lemma_encode_args_concat(next_head, tail);
        lemma_encode_concat(encode_args(head), encode_arg(args[k as int]));
        lemma_encode_concat(encode_args(next_head), encode_args(tail));
        let eh = encode_utf8(encode_args(head));
        let w = encode_utf8(encode_arg(args[k as int]));
        let et = encode_utf8(encode_args(tail));
        assert(encode_utf8(encode_args(args)) =~= eh + w + et);
        assert(b.subrange(pos, pos + w.len()) =~= w) by {
            assert(b.subrange(pos, pos + w.len()) =~= b.subrange(start, b.len() as int).subrange(eh.len() as int, (eh.len() + w.len()) as int));
        }
        lemma_bulk_at(b, pos, args[k as int]);
        assert(bulks(head).push(RedisModel::BulkString(args[k as int])) =~= bulks(next_head));
        lemma_items_read(b, start, args, k + 1);
    }
}

/// A command that `encode_command` writes reads back, from its UTF-8 bytes, as the array of
/// its arguments as bulk strings, ending exactly where the bytes end. (Arguments longer than
/// `i64::MAX` bytes, whose lengths the reader cannot hold, are left out.)
pub proof fn law_encoded_command_reads_back(args: Seq<Seq<char>>)
    requires
        args.len() <= i64::MAX,
        forall|i: int| 0 <= i < args.len() ==> encode_utf8(#[trigger] args[i]).len() <= i64::MAX
            && encode_utf8(args[i]).len() <= usize::MAX,
    ensures
        parse_at(encode_utf8(encode_command_spec(args)), 0)
            == RespStep::Done(RedisModel::Array(bulks(args)), encode_utf8(encode_command_spec(args)).len() as int),
{
    let n = args.len();
    let b = encode_utf8(encode_command_spec(args));
    let dn = decimal(n);
    let d = encode_utf8(dn);
    let rest = encode_utf8(encode_args(args));
    lemma_ascii_literals();
    lemma_encode_concat(seq!['*'], dn);
    lemma_encode_concat(seq!['*'] + dn, crlf());
    lemma_encode_concat(seq!['*'] + dn + crlf(), encode_args(args));
    assert(b =~= seq![42u8] + d + seq![13u8, 10u8] + rest);
    assert(b.subrange(1, 1 + d.len() as int) =~= d);
    lemma_number_line(b, 1, n);
    lemma_parse_decimal(n);
    let start = 3 + d.len() as int;
    assert(b.subrange(start, b.len() as int) =~= rest);
    assert(args.take(0) =~= Seq::<Seq<char>>::empty());
    assert(bulks(args.take(0)) =~= Seq::<RedisModel>::empty());
    assert(encode_utf8(encode_args(args.take(0))) =~= Seq::<u8>::empty());
    lemma_items_read(b, start, args, 0);
}

// ---------------------------------------------------------------------------
// Reading replies as values
// ---------------------------------------------------------------------------

/// `RedisValue::as_i64`.
pub open spec fn model_as_i64(m: RedisModel) -> Option<int> {
    match m {
        RedisModel::Integer(n) => Some(n),
        RedisModel::BulkString(s) => parse_signed(s, i64::MIN as int, i64::MAX as int),
        RedisModel::SimpleString(s) => parse_signed(s, i64::MIN as int, i64::MAX as int),
        _ => None,
    }
}

/// `RedisValue::as_string`.
pub open spec fn model_as_string(m: RedisModel) -> Option<Seq<char>> {
    match m {
        RedisModel::SimpleString(s) => Some(s),
        RedisModel::BulkString(s) => Some(s),
        RedisModel::Error(s) => Some(s),
        RedisModel::Integer(n) => Some(decimal_int(n)),
        _ => None,
    }
}

/// `RedisValue::kind`.
pub open spec fn model_kind(m: RedisModel) -> Seq<char> {
    match m {
        RedisModel::SimpleString(_) => "simple string"@,
        RedisModel::Error(_) => "error"@,
        RedisModel::Integer(_) => "integer"@,
        RedisModel::BulkString(_) => "bulk string"@,
        RedisModel::Array(_) => "array"@,
        RedisModel::Nil => "nil"@,
    }
}

/// The answer of `expect_ok` for a command: nothing when the reply is `+OK` in any ASCII
/// case, otherwise the message of the error.
pub open spec fn expect_ok_spec(m: RedisModel, command: Seq<char>) -> Result<(), Seq<char>> {
    match m {
        RedisModel::SimpleString(v) if lower(v) == "ok"@ => Ok(()),
        RedisModel::Error(e) => Err("Redis "@ + command + " failed: "@ + sanitize_and_mask(e)),
        _ => Err("Unexpected Redis "@ + command + " response: "@ + model_kind(m)),
    }
}

impl RedisValue {
    pub fn as_i64(&self) -> (r: Option<i64>)
        ensures
            match r {
                Some(v) => model_as_i64(self@) == Some(v as int),
                None => model_as_i64(self@) is None,
            },
    {
        match self {
            RedisValue::Integer(value) => Some(*value),
            RedisValue::BulkString(value) => {
                let v = chars_of(value.as_str());
                parse_i64(&v)
            },
            RedisValue::SimpleString(value) => {
                let v = chars_of(value.as_str());
                parse_i64(&v)
            },
            _ => None,
        }
    }

    pub fn as_string(&self) -> (r: Option<String>)
        ensures
            match r {
                Some(s) => model_as_string(self@) == Some(s@),
                None => model_as_string(self@) is None,
            },
    {
        match self {
            RedisValue::SimpleString(value) => Some(value.clone()),
            RedisValue::BulkString(value) => Some(value.clone()),
            RedisValue::Error(value) => Some(value.clone()),
            RedisValue::Integer(value) => {
                let mut out: Vec<char> = Vec::new();
                push_decimal_int(&mut out, *value);
                assert(out@ =~= decimal_int(*value as int));
                Some(string_of(&out))
            },
            _ => None,
        }
    }

    pub fn as_array(&self) -> (r: Option<&Vec<RedisValue>>)
        ensures
            match r {
                Some(items) => self@ == RedisModel::Array(redis_items_model(items@)),
                None => !(self@ is Array),
            },
    {
        match self {
            RedisValue::Array(items) => Some(items),
            _ => None,
        }
    }

    pub fn kind(&self) -> (r: &'static str)
        ensures r@ == model_kind(self@),
    {
        match self {
            RedisValue::SimpleString(_) => "simple string",
            RedisValue::Error(_) => "error",
            RedisValue::Integer(_) => "integer",
            RedisValue::BulkString(_) => "bulk string",
            RedisValue::Array(_) => "array",
            RedisValue::Nil => "nil",
        }
    }

    pub fn expect_ok(self, command: &str) -> (r: Result<(), String>)
        ensures
            match r {
                Ok(()) => expect_ok_spec(self@, command@) == Ok::<(), Seq<char>>(()),
                Err(e) => expect_ok_spec(self@, command@) == Err::<(), Seq<char>>(e@),
            },
    {
        let kind = self.kind();
        match self {
            RedisValue::SimpleString(value) => {
                let v = chars_of(value.as_str());
                let lowered = to_lower(&v);
                let ok = chars_of("ok");
                if crate::text::chars_eq(&lowered, &ok) {
                    return Ok(());
                }
            },
            RedisValue::Error(error) => {
                let mut out = chars_of("Redis ");
                push_str(&mut out, command);
                push_str(&mut out, " failed: ");
                let masked = sanitize_and_mask_text(error.as_str());
                push_str(&mut out, masked.as_str());
                return Err(string_of(&out));
            },
            _ => {},
        }
        let mut out = chars_of("Unexpected Redis ");
        push_str(&mut out, command);
        push_str(&mut out, " response: ");
        push_str(&mut out, kind);
        Err(string_of(&out))
    }
}


impl RespError {
    /// The message of the error. Where the reason is a number that does not parse, the
    /// message names what was read; the parser's own wording of the reason is not given.
    pub fn message(&self) -> (r: String)
        ensures
            r@ == match *self {
                RespError::LineNotUtf8 => "Redis response line was not UTF-8."@,
                RespError::BulkNotUtf8 => "Redis bulk string was not UTF-8."@,
                RespError::InvalidInteger => "Invalid Redis integer response."@,
                RespError::InvalidBulkLength => "Invalid Redis bulk length."@,
                RespError::InvalidArrayLength => "Invalid Redis array length."@,
                RespError::UnsupportedPrefix(b) => "Unsupported Redis response prefix: "@ + seq![b as char],
                RespError::MissingCrlf => "Redis response missing CRLF terminator."@,
            },
    {
        match *self {
            RespError::LineNotUtf8 => owned("Redis response line was not UTF-8."),
            RespError::BulkNotUtf8 => owned("Redis bulk string was not UTF-8."),
            RespError::InvalidInteger => owned("Invalid Redis integer response."),
            RespError::InvalidBulkLength => owned("Invalid Redis bulk length."),
            RespError::InvalidArrayLength => owned("Invalid Redis array length."),
            RespError::UnsupportedPrefix(b) => {
                let mut out = chars_of("Unsupported Redis response prefix: ");
                out.push(b as char);
                string_of(&out)
            },
            RespError::MissingCrlf => owned("Redis response missing CRLF terminator."),
        }
    }
}

} // verus!
