//! A specification-level reading of dotted-decimal text, and the proof that
//! rendering followed by parsing gives back the original address.

use vstd::prelude::*;
use crate::octets::{from_octets, lemma_octets_roundtrip, octet0, octet1, octet2, octet3};
use crate::text::{dec_digits, dot_byte, ipv4_text};

verus! {

/// Whether `b` is an ASCII decimal digit.
pub open spec fn is_ascii_digit(b: u8) -> bool {
    48 <= b && b <= 57
}

/// Value of a sequence of ASCII digits read as a decimal number.
pub open spec fn numeral_val(s: Seq<u8>) -> int
    decreases s.len(),
{
    if s.len() == 0 {
        0
    } else {
        numeral_val(s.drop_last()) * 10 + (s.last() - 48)
    }
}

/// A canonical decimal numeral for one octet: one to three ASCII digits,
/// no leading zero, value at most 255.
pub open spec fn is_numeral(s: Seq<u8>) -> bool {
    1 <= s.len() <= 3
    && (forall|i: int| 0 <= i < s.len() ==> is_ascii_digit(s[i]))
    && (s.len() > 1 ==> s[0] != 48)
    && numeral_val(s) <= 255
}

/// Position of the first dot in `s`, or -1 when `s` holds none.
pub open spec fn dot_pos(s: Seq<u8>) -> int
    decreases s.len(),
{
    if s.len() == 0 {
        -1
    } else if s[0] == dot_byte() {
        0
    } else {
        let r = dot_pos(s.drop_first());
        if r < 0 {
            -1
        } else {
            r + 1
        }
    }
}

/// Standard dotted-decimal parsing: split `s` at the first three dots, read
/// the four parts as canonical decimal numerals, and pack them as octets.
/// `None` when `s` is not the canonical text of any address.
pub open spec fn parse_ipv4(s: Seq<u8>) -> Option<u32> {
    let i = dot_pos(s);
    if i < 0 {
        None
    } else {
        let a = s.subrange(0, i);
        let s1 = s.subrange(i + 1, s.len() as int);
        let j = dot_pos(s1);
        if j < 0 {
            None
        } else {
            let b = s1.subrange(0, j);
            let s2 = s1.subrange(j + 1, s1.len() as int);
            let k = dot_pos(s2);
            if k < 0 {
                None
            } else {
                let c = s2.subrange(0, k);
                let d = s2.subrange(k + 1, s2.len() as int);
                if is_numeral(a) && is_numeral(b) && is_numeral(c) && is_numeral(d)
                    && dot_pos(d) < 0 {
                    Some(from_octets(
                        numeral_val(a) as u8,
                        numeral_val(b) as u8,
                        numeral_val(c) as u8,
                        numeral_val(d) as u8,
                    ))
                } else {
                    None
                }
            }
        }
    }
}

/// A sequence without dots has no dot position.
proof fn lemma_dot_pos_none(s: Seq<u8>)
    requires
        forall|i: int| 0 <= i < s.len() ==> s[i] != dot_byte(),
    ensures
        dot_pos(s) == -1,
    decreases s.len(),
{
    if s.len() > 0 {
        lemma_dot_pos_none(s.drop_first());
    }
}

/// The first dot of `a + b` stands right after `a` when `a` holds no dot
/// and `b` starts with one.
proof fn lemma_dot_pos_concat(a: Seq<u8>, b: Seq<u8>)
    requires
        forall|i: int| 0 <= i < a.len() ==> a[i] != dot_byte(),
        b.len() > 0,
        b[0] == dot_byte(),
    ensures
        dot_pos(a + b) == a.len(),
    decreases a.len(),
{
    if a.len() == 0 {
        assert(a + b =~= b);
    } else {
        assert((a + b)[0] == a[0]);
        assert((a + b).drop_first() =~= a.drop_first() + b);
        lemma_dot_pos_concat(a.drop_first(), b);
    }
}

/// The rendered digits of an octet form a canonical numeral, hold no dot,
/// and read back as the octet's value.
proof fn lemma_dec_digits_numeral(n: u8)
    ensures
        is_numeral(dec_digits(n)),
        numeral_val(dec_digits(n)) == n,
        forall|i: int| 0 <= i < dec_digits(n).len() ==> dec_digits(n)[i] != dot_byte(),
{
    assert(numeral_val(Seq::<u8>::empty()) == 0);
    assert(n / 100 <= 2 && (n / 10) % 10 <= 9 && n % 10 <= 9 && n / 10 <= 25) by (bit_vector);
    assert(10 <= n && n < 100 ==> 1 <= n / 10 && n / 10 <= 9) by (bit_vector);
    assert(100 <= n ==> 1 <= n / 100) by (bit_vector);
    if n < 10 {
        let s = dec_digits(n);
        assert(s =~= seq![(48 + n) as u8]);
        assert(s.drop_last() =~= Seq::<u8>::empty());
        assert(numeral_val(s) == n);
    } else if n < 100 {
        let s = dec_digits(n);
        let hi = (48 + n / 10) as u8;
        let lo = (48 + n % 10) as u8;
        assert(s =~= seq![hi, lo]);
        assert(s.drop_last() =~= seq![hi]);
        assert(seq![hi].drop_last() =~= Seq::<u8>::empty());
        assert(numeral_val(seq![hi]) == n / 10);
        assert(numeral_val(s) == (n / 10) * 10 + n % 10);
        assert((n / 10) * 10 + n % 10 == n) by (bit_vector)
            requires
                10 <= n && n < 100,
        ;
    } else {
        let s = dec_digits(n);
        let hi = (48 + n / 100) as u8;
        let mid = (48 + (n / 10) % 10) as u8;
        let lo = (48 + n % 10) as u8;
        assert(s =~= seq![hi, mid, lo]);
        assert(s.drop_last() =~= seq![hi, mid]);
        assert(seq![hi, mid].drop_last() =~= seq![hi]);
        assert(seq![hi].drop_last() =~= Seq::<u8>::empty());
        assert(numeral_val(seq![hi]) == n / 100);
        assert(numeral_val(seq![hi, mid]) == (n / 100) * 10 + (n / 10) % 10);
        assert(numeral_val(s) == ((n / 100) * 10 + (n / 10) % 10) * 10 + n % 10);
        assert(((n / 100) * 10 + (n / 10) % 10) * 10 + n % 10 == n) by (bit_vector)
            requires
                100 <= n,
        ;
    }
}

/// A numeral holds only digit bytes, so no dot stands in it.
proof fn lemma_numeral_no_dot(s: Seq<u8>)
    requires
        is_numeral(s),
    ensures
        forall|i: int| 0 <= i < s.len() ==> s[i] != dot_byte(),
{
}

/// One parsing step: in a numeral followed by a dot and a remainder, the
/// first dot stands right after the numeral, which splits the text into the
/// numeral and the remainder.
proof fn lemma_split_head(x: Seq<u8>, rest: Seq<u8>)
    requires
        forall|i: int| 0 <= i < x.len() ==> x[i] != dot_byte(),
    ensures
        dot_pos(x + seq![dot_byte()] + rest) == x.len(),
        (x + seq![dot_byte()] + rest).subrange(0, x.len() as int) == x,
        (x + seq![dot_byte()] + rest).subrange(
            x.len() as int + 1,
            (x + seq![dot_byte()] + rest).len() as int,
        ) == rest,
{
    let s = x + seq![dot_byte()] + rest;
    let t = seq![dot_byte()] + rest;
    assert(s =~= x + t);
    assert(t[0] == dot_byte());
    lemma_dot_pos_concat(x, t);
    assert(s.subrange(0, x.len() as int) =~= x);
    assert(s.subrange(x.len() as int + 1, s.len() as int) =~= rest);
}

/// Parsing four canonical numerals joined by dots yields the address packed
/// from their values.
proof fn lemma_parse_four(a: Seq<u8>, b: Seq<u8>, c: Seq<u8>, d: Seq<u8>)
    requires
        is_numeral(a),
        is_numeral(b),
        is_numeral(c),
        is_numeral(d),
    ensures
        parse_ipv4(
            a + seq![dot_byte()] + b + seq![dot_byte()] + c + seq![dot_byte()] + d,
        ) == Some(from_octets(
            numeral_val(a) as u8,
            numeral_val(b) as u8,
            numeral_val(c) as u8,
            numeral_val(d) as u8,
        )),
{
    lemma_numeral_no_dot(a);
    lemma_numeral_no_dot(b);
    lemma_numeral_no_dot(c);
    lemma_numeral_no_dot(d);
    let dot = seq![dot_byte()];
    let s = a + dot + b + dot + c + dot + d;
    let r1 = b + dot + c + dot + d;
    assert(s =~= a + dot + r1);
    lemma_split_head(a, r1);
    assert(dot_pos(s) == a.len());
    assert(s.subrange(0, a.len() as int) == a);
    let s1 = s.subrange(a.len() as int + 1, s.len() as int);
    assert(s1 == r1);
    let r2 = c + dot + d;
    assert(s1 =~= b + dot + r2);
    lemma_split_head(b, r2);
    assert(dot_pos(s1) == b.len());
    assert(s1.subrange(0, b.len() as int) == b);
    let s2 = s1.subrange(b.len() as int + 1, s1.len() as int);
    assert(s2 == r2);
    lemma_split_head(c, d);
    assert(dot_pos(s2) == c.len());
    assert(s2.subrange(0, c.len() as int) == c);
    assert(s2.subrange(c.len() as int + 1, s2.len() as int) == d);
    lemma_dot_pos_none(d);
}

/// Round-trip law of the text encoder: the canonical dotted-decimal text of
/// any address parses back to exactly that address.
pub proof fn lemma_render_parse_roundtrip(v: u32)
    ensures
        parse_ipv4(ipv4_text(v)) == Some(v),
{
    lemma_dec_digits_numeral(octet0(v));
    lemma_dec_digits_numeral(octet1(v));
    lemma_dec_digits_numeral(octet2(v));
    lemma_dec_digits_numeral(octet3(v));
    lemma_parse_four(
        dec_digits(octet0(v)),
        dec_digits(octet1(v)),
        dec_digits(octet2(v)),
        dec_digits(octet3(v)),
    );
    lemma_octets_roundtrip(v);
}

} // verus!
