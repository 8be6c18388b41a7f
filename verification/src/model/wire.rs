//! The byte layout of keys and values.
//!
//! Integers inside a value are eight little-endian bytes. A string is its
//! UTF-8 length as such an integer, then its UTF-8 bytes. An optional string
//! is one byte, 0 or 1, and in the second case the string. A record is its
//! fields in declaration order. A primary key is the id as eight big-endian
//! bytes, so that keys order as ids do.

use super::{IdAndUrlView, ShortenedView};
use vstd::bytes::{spec_u64_from_le_bytes, spec_u64_to_le_bytes};
use vstd::prelude::*;
use vstd::utf8::{decode_utf8, encode_utf8, valid_utf8};

verus! {

/// The encoding of a string: length prefix, then UTF-8 bytes.
pub open spec fn string_bytes(s: Seq<char>) -> Seq<u8> {
    spec_u64_to_le_bytes(encode_utf8(s).len() as u64) + encode_utf8(s)
}

/// The encoding of an optional string: a tag byte, then the string if present.
pub open spec fn option_string_bytes(s: Option<Seq<char>>) -> Seq<u8> {
    match s {
        None => seq![0u8],
        Some(t) => seq![1u8] + string_bytes(t),
    }
}

/// The encoding of a record.
pub open spec fn record_bytes(r: ShortenedView) -> Seq<u8> {
    spec_u64_to_le_bytes(r.id) + string_bytes(r.keyword) + string_bytes(r.url)
        + option_string_bytes(r.title)
}

/// The encoding of a keyword-index entry.
pub open spec fn id_and_url_bytes(e: IdAndUrlView) -> Seq<u8> {
    spec_u64_to_le_bytes(e.id) + string_bytes(e.url)
}

/// Reads an integer from the front of `b`; gives it and what follows it.
pub open spec fn parse_u64(b: Seq<u8>) -> Option<(u64, Seq<u8>)> {
    if b.len() >= 8 {
        Some((spec_u64_from_le_bytes(b.subrange(0, 8)), b.subrange(8, b.len() as int)))
    } else {
        None
    }
}

/// Reads a string from the front of `b`; gives it and what follows it.
pub open spec fn parse_string(b: Seq<u8>) -> Option<(Seq<char>, Seq<u8>)> {
    match parse_u64(b) {
        Some((n, rest)) => if n <= rest.len() && valid_utf8(rest.subrange(0, n as int)) {
            Some((decode_utf8(rest.subrange(0, n as int)), rest.subrange(n as int, rest.len() as int)))
        } else {
            None
        },
        None => None,
    }
}

/// Reads an optional string from the front of `b`; gives it and what follows it.
pub open spec fn parse_option_string(b: Seq<u8>) -> Option<(Option<Seq<char>>, Seq<u8>)> {
    if b.len() == 0 {
        None
    } else if b[0] == 0 {
        Some((None, b.subrange(1, b.len() as int)))
    } else if b[0] == 1 {
        match parse_string(b.subrange(1, b.len() as int)) {
            Some((s, rest)) => Some((Some(s), rest)),
            None => None,
        }
    } else {
        None
    }
}

/// The record that `b` starts with, if it starts with one. Bytes after the
/// record are not looked at.
pub open spec fn parse_record(b: Seq<u8>) -> Option<ShortenedView> {
    match parse_u64(b) {
        Some((id, b1)) => match parse_string(b1) {
            Some((keyword, b2)) => match parse_string(b2) {
                Some((url, b3)) => match parse_option_string(b3) {
                    Some((title, _)) => Some(ShortenedView { id, keyword, url, title }),
                    None => None,
                },
                None => None,
            },
            None => None,
        },
        None => None,
    }
}

/// The keyword-index entry that `b` starts with, if it starts with one.
pub open spec fn parse_id_and_url(b: Seq<u8>) -> Option<IdAndUrlView> {
    match parse_u64(b) {
        Some((id, b1)) => match parse_string(b1) {
            Some((url, _)) => Some(IdAndUrlView { id, url }),
            None => None,
        },
        None => None,
    }
}

/// The primary key of an id: its eight bytes, most significant first.
pub open spec fn be_bytes(x: u64) -> Seq<u8> {
    seq![
        (x / 0x100_0000_0000_0000) as u8,
        (x / 0x1_0000_0000_0000 % 0x100) as u8,
        (x / 0x100_0000_0000 % 0x100) as u8,
        (x / 0x1_0000_0000 % 0x100) as u8,
        (x / 0x100_0000 % 0x100) as u8,
        (x / 0x1_0000 % 0x100) as u8,
        (x / 0x100 % 0x100) as u8,
        (x % 0x100) as u8,
    ]
}

/// The order of keys in a partition: byte by byte, a proper prefix first.
pub open spec fn lex_lt(a: Seq<u8>, b: Seq<u8>) -> bool
    decreases a.len(),
{
    if b.len() == 0 {
        false
    } else if a.len() == 0 {
        true
    } else if a[0] != b[0] {
        a[0] < b[0]
    } else {
        lex_lt(a.drop_first(), b.drop_first())
    }
}

/// Whether two byte strings are the same.
pub fn bytes_equal(a: &[u8], b: &[u8]) -> (r: bool)
    ensures
        r == (a@ == b@),
{
    if a.len() != b.len() {
        return false;
    }
    let mut i: usize = 0;
    while i < a.len()
        invariant
            a@.len() == b@.len(),
            0 <= i <= a@.len(),
            forall|j: int| 0 <= j < i ==> a@[j] == b@[j],
        decreases a@.len() - i,
    {
        if a[i] != b[i] {
            return false;
        }
        i = i + 1;
    }
    assert(a@ =~= b@);
    true
}

/// The strings of a record are short enough for their lengths to be written.
/// Every record in memory is.
pub open spec fn encodable(r: ShortenedView) -> bool {
    &&& encode_utf8(r.keyword).len() <= u64::MAX
    &&& encode_utf8(r.url).len() <= u64::MAX
    &&& r.title matches Some(t) ==> encode_utf8(t).len() <= u64::MAX
}

/// The stored form of a record is at least as long as each of its strings.
pub proof fn lemma_record_length(r: ShortenedView)
    ensures
        record_bytes(r).len() >= 25 + encode_utf8(r.keyword).len() + encode_utf8(r.url).len(),
        r.title matches Some(t) ==> record_bytes(r).len() >= 33 + encode_utf8(t).len(),
{
    vstd::bytes::lemma_auto_spec_u64_to_from_le_bytes();
}

/// The stored form of a keyword-index entry is longer than its URL.
pub proof fn lemma_id_and_url_length(e: IdAndUrlView)
    ensures
        id_and_url_bytes(e).len() == 16 + encode_utf8(e.url).len(),
{
    vstd::bytes::lemma_auto_spec_u64_to_from_le_bytes();
}

proof fn lemma_parse_u64(x: u64, rest: Seq<u8>)
    ensures
        parse_u64(spec_u64_to_le_bytes(x) + rest) == Some((x, rest)),
{
    vstd::bytes::lemma_auto_spec_u64_to_from_le_bytes();
    let b = spec_u64_to_le_bytes(x) + rest;
    assert(b.subrange(0, 8) == spec_u64_to_le_bytes(x));
    assert(b.subrange(8, b.len() as int) == rest);
}

proof fn lemma_parse_string(s: Seq<char>, rest: Seq<u8>)
    requires
        encode_utf8(s).len() <= u64::MAX,
    ensures
        parse_string(string_bytes(s) + rest) == Some((s, rest)),
{
    let body = encode_utf8(s);
    let n = body.len() as u64;
    let after = body + rest;
    assert(string_bytes(s) + rest == spec_u64_to_le_bytes(n) + after);
    lemma_parse_u64(n, after);
    assert(after.subrange(0, n as int) == body);
    assert(after.subrange(n as int, after.len() as int) == rest);
    vstd::utf8::encode_utf8_valid_utf8(s);
    vstd::utf8::encode_utf8_decode_utf8(s);
}

proof fn lemma_parse_option_string(s: Option<Seq<char>>, rest: Seq<u8>)
    requires
        s matches Some(t) ==> encode_utf8(t).len() <= u64::MAX,
    ensures
        parse_option_string(option_string_bytes(s) + rest) == Some((s, rest)),
{
    let b = option_string_bytes(s) + rest;
    match s {
        None => {
            assert(b.subrange(1, b.len() as int) == rest);
        },
        Some(t) => {
            assert(b.subrange(1, b.len() as int) == string_bytes(t) + rest);
            lemma_parse_string(t, rest);
        },
    }
}

/// Round trip: reading the encoding of a record gives the record back,
/// whatever bytes follow the encoding.
pub proof fn lemma_record_round_trip(r: ShortenedView, tail: Seq<u8>)
    requires
        encodable(r),
    ensures
        parse_record(record_bytes(r) + tail) == Some(r),
        parse_record(record_bytes(r)) == Some(r),
    decreases tail.len(),
{
    let b3 = option_string_bytes(r.title) + tail;
    let b2 = string_bytes(r.url) + b3;
    let b1 = string_bytes(r.keyword) + b2;
    assert(record_bytes(r) + tail == spec_u64_to_le_bytes(r.id) + b1);
    lemma_parse_u64(r.id, b1);
    lemma_parse_string(r.keyword, b2);
    lemma_parse_string(r.url, b3);
    lemma_parse_option_string(r.title, tail);
    if tail.len() == 0 {
        assert(record_bytes(r) + tail == record_bytes(r));
    } else {
        lemma_record_round_trip(r, Seq::empty());
    }
}

/// Round trip for keyword-index entries.
pub proof fn lemma_id_and_url_round_trip(e: IdAndUrlView, tail: Seq<u8>)
    requires
        encode_utf8(e.url).len() <= u64::MAX,
    ensures
        parse_id_and_url(id_and_url_bytes(e) + tail) == Some(e),
        parse_id_and_url(id_and_url_bytes(e)) == Some(e),
    decreases tail.len(),
{
    let b1 = string_bytes(e.url) + tail;
    assert(id_and_url_bytes(e) + tail == spec_u64_to_le_bytes(e.id) + b1);
    lemma_parse_u64(e.id, b1);
    lemma_parse_string(e.url, tail);
    if tail.len() == 0 {
        assert(id_and_url_bytes(e) + tail == id_and_url_bytes(e));
    } else {
        lemma_id_and_url_round_trip(e, Seq::empty());
    }
}

/// No key comes before itself, and of two keys at most one comes before the
/// other.
pub proof fn lemma_lex_lt_asymmetric(a: Seq<u8>, b: Seq<u8>)
    ensures
        !(lex_lt(a, b) && lex_lt(b, a)),
        a == b ==> !lex_lt(a, b),
    decreases a.len(),
{
    if a.len() > 0 && b.len() > 0 && a[0] == b[0] {
        lemma_lex_lt_asymmetric(a.drop_first(), b.drop_first());
        if a == b {
            assert(a.drop_first() == b.drop_first());
        }
    }
}

/// Order preservation: primary keys order as their ids do.
pub proof fn lemma_key_order(a: u64, b: u64)
    ensures
        lex_lt(be_bytes(a), be_bytes(b)) <==> a < b,
        be_bytes(a) == be_bytes(b) <==> a == b,
{
    let x = be_bytes(a);
    let y = be_bytes(b);
    lemma_key_digits(a);
    lemma_key_digits(b);
    lemma_lex_lt_eight(x, y);
    let a1 = x[0] * 256 + x[1];
    let b1 = y[0] * 256 + y[1];
    let a2 = a1 * 256 + x[2];
    let b2 = b1 * 256 + y[2];
    let a3 = a2 * 256 + x[3];
    let b3 = b2 * 256 + y[3];
    let a4 = a3 * 256 + x[4];
    let b4 = b3 * 256 + y[4];
    let a5 = a4 * 256 + x[5];
    let b5 = b4 * 256 + y[5];
    let a6 = a5 * 256 + x[6];
    let b6 = b5 * 256 + y[6];
    lemma_digit_step(x[0] as int, x[1] as int, y[0] as int, y[1] as int);
    lemma_digit_step(a1, x[2] as int, b1, y[2] as int);
    lemma_digit_step(a2, x[3] as int, b2, y[3] as int);
    lemma_digit_step(a3, x[4] as int, b3, y[4] as int);
    lemma_digit_step(a4, x[5] as int, b4, y[5] as int);
    lemma_digit_step(a5, x[6] as int, b5, y[6] as int);
    lemma_digit_step(a6, x[7] as int, b6, y[7] as int);
    if a == b {
        assert(x == y);
    }
}

/// Appending one digit to two numbers keeps their order, and decides it where
/// they were equal.
proof fn lemma_digit_step(hi_a: int, lo_a: int, hi_b: int, lo_b: int)
    requires
        0 <= lo_a < 256,
        0 <= lo_b < 256,
    ensures
        hi_a * 256 + lo_a < hi_b * 256 + lo_b <==> hi_a < hi_b || (hi_a == hi_b && lo_a < lo_b),
        hi_a * 256 + lo_a == hi_b * 256 + lo_b <==> hi_a == hi_b && lo_a == lo_b,
{
}

/// An id is the value of its key's bytes, read as digits to the base 256.
proof fn lemma_key_digits(a: u64)
    ensures
        be_bytes(a).len() == 8,
        a == ((((((be_bytes(a)[0] * 256 + be_bytes(a)[1]) * 256 + be_bytes(a)[2]) * 256
            + be_bytes(a)[3]) * 256 + be_bytes(a)[4]) * 256 + be_bytes(a)[5]) * 256 + be_bytes(
            a,
        )[6]) * 256 + be_bytes(a)[7],
{
    let q1 = a / 0x100;
    let q2 = a / 0x1_0000;
    let q3 = a / 0x100_0000;
    let q4 = a / 0x1_0000_0000;
    let q5 = a / 0x100_0000_0000;
    let q6 = a / 0x1_0000_0000_0000;
    let q7 = a / 0x100_0000_0000_0000;
    assert(a == q1 * 256 + a % 0x100);
    assert(q1 == q2 * 256 + q1 % 0x100) by {
        lemma_shift_digit(a as int, 0x100);
    }
    assert(q2 == q3 * 256 + q2 % 0x100) by {
        lemma_shift_digit(a as int, 0x1_0000);
    }
    assert(q3 == q4 * 256 + q3 % 0x100) by {
        lemma_shift_digit(a as int, 0x100_0000);
    }
    assert(q4 == q5 * 256 + q4 % 0x100) by {
        lemma_shift_digit(a as int, 0x1_0000_0000);
    }
    assert(q5 == q6 * 256 + q5 % 0x100) by {
        lemma_shift_digit(a as int, 0x100_0000_0000);
    }
    assert(q6 == q7 * 256 + q6 % 0x100) by {
        lemma_shift_digit(a as int, 0x1_0000_0000_0000);
    }
    assert(q7 < 0x100);
}

/// Dividing by `m` and then by 256 is dividing by `256 * m`.
proof fn lemma_shift_digit(a: int, m: int)
    requires
        0 <= a,
        0 < m,
    ensures
        a / (m * 256) == (a / m) / 256,
        a / m == (a / (m * 256)) * 256 + (a / m) % 256,
{
    vstd::arithmetic::div_mod::lemma_div_denominator(a, m, 256);
    vstd::arithmetic::div_mod::lemma_fundamental_div_mod(a / m, 256);
}

/// On keys of eight bytes, `lex_lt` decides at the first byte that differs.
proof fn lemma_lex_lt_eight(x: Seq<u8>, y: Seq<u8>)
    requires
        x.len() == 8,
        y.len() == 8,
    ensures
        lex_lt(x, y) <==> (x[0] < y[0] || (x[0] == y[0] && (x[1] < y[1] || (x[1] == y[1] && (x[2]
            < y[2] || (x[2] == y[2] && (x[3] < y[3] || (x[3] == y[3] && (x[4] < y[4] || (x[4]
            == y[4] && (x[5] < y[5] || (x[5] == y[5] && (x[6] < y[6] || (x[6] == y[6] && x[7]
            < y[7])))))))))))))),
{
    reveal_with_fuel(lex_lt, 9);
    let x1 = x.drop_first();
    let y1 = y.drop_first();
    let x2 = x1.drop_first();
    let y2 = y1.drop_first();
    let x3 = x2.drop_first();
    let y3 = y2.drop_first();
    let x4 = x3.drop_first();
    let y4 = y3.drop_first();
    let x5 = x4.drop_first();
    let y5 = y4.drop_first();
    let x6 = x5.drop_first();
    let y6 = y5.drop_first();
    let x7 = x6.drop_first();
    let y7 = y6.drop_first();
    assert(x1[0] == x[1] && x2[0] == x[2] && x3[0] == x[3] && x4[0] == x[4]);
    assert(x5[0] == x[5] && x6[0] == x[6] && x7[0] == x[7]);
    assert(y1[0] == y[1] && y2[0] == y[2] && y3[0] == y[3] && y4[0] == y[4]);
    assert(y5[0] == y[5] && y6[0] == y[6] && y7[0] == y[7]);
    assert(x7.drop_first().len() == 0 && y7.drop_first().len() == 0);
}

} // verus!
