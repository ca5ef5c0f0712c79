//! Dotted-decimal rendering: each address becomes its canonical ASCII text,
//! and a batch becomes one packed byte buffer with an offset index.

use vstd::prelude::*;
use crate::octets::{octet0, octet1, octet2, octet3, octets};

verus! {

/// ASCII code of the dot that separates the octets.
pub open spec fn dot_byte() -> u8 {
    46
}

/// Canonical decimal digits of one octet: no leading zeros, one to three
/// ASCII digit bytes.
pub open spec fn dec_digits(n: u8) -> Seq<u8> {
    if n < 10 {
        seq![(48 + n) as u8]
    } else if n < 100 {
        seq![(48 + n / 10) as u8, (48 + n % 10) as u8]
    } else {
        seq![(48 + n / 100) as u8, (48 + (n / 10) % 10) as u8, (48 + n % 10) as u8]
    }
}

/// Canonical dotted-decimal text of an address: the four octets in decimal,
/// separated by dots.
pub open spec fn ipv4_text(v: u32) -> Seq<u8> {
    dec_digits(octet0(v)) + seq![dot_byte()] + dec_digits(octet1(v)) + seq![dot_byte()]
        + dec_digits(octet2(v)) + seq![dot_byte()] + dec_digits(octet3(v))
}

/// The text of an address is seven to fifteen bytes long.
pub proof fn lemma_ipv4_text_len(v: u32)
    ensures
        7 <= ipv4_text(v).len() <= 15,
{
}

/// Appends the canonical decimal digits of `n` to `data`.
fn push_decimal(data: &mut Vec<u8>, n: u8)
    ensures
        final(data)@ == old(data)@ + dec_digits(n),
{
    proof {
        assert(n / 100 <= 2 && (n / 10) % 10 <= 9 && n % 10 <= 9 && n / 10 <= 25) by (bit_vector);
    }
    if n >= 100 {
        data.push(48 + n / 100);
        data.push(48 + (n / 10) % 10);
        data.push(48 + n % 10);
    } else if n >= 10 {
        data.push(48 + n / 10);
        data.push(48 + n % 10);
    } else {
        data.push(48 + n);
    }
    proof {
        assert(data@ =~= old(data)@ + dec_digits(n));
    }
}

/// Renders one address as its canonical dotted-decimal ASCII bytes.
pub fn ipv4_text_of(v: u32) -> (r: Vec<u8>)
    ensures
        r@ == ipv4_text(v),
{
    let (a, b, c, d) = octets(v);
    let mut data: Vec<u8> = Vec::new();
    push_decimal(&mut data, a);
    data.push(46);
    push_decimal(&mut data, b);
    data.push(46);
    push_decimal(&mut data, c);
    data.push(46);
    push_decimal(&mut data, d);
    proof {
        assert(data@ =~= ipv4_text(v));
    }
    data
}

/// Renders every address of a batch and packs the results: `r.0` is the
/// concatenated text, `r.1` the offsets, with the text of element `i`
/// occupying `r.0[r.1[i] .. r.1[i + 1]]`.
pub fn to_text4(x: &Vec<u32>) -> (r: (Vec<u8>, Vec<u32>))
    requires
        15 * x@.len() <= u32::MAX,
    ensures
        r.1@.len() == x@.len() + 1,
        r.1@[0] == 0,
        forall|i: int| #![trigger r.1@[i]] 0 <= i < x@.len() ==> r.1@[i] <= r.1@[i + 1],
        r.1@[x@.len() as int] == r.0@.len(),
        forall|i: int| 0 <= i < x@.len() ==>
            r.0@.subrange(r.1@[i] as int, r.1@[i + 1] as int) == ipv4_text(x@[i]),
{
    let mut data: Vec<u8> = Vec::new();
    let mut offsets: Vec<u32> = Vec::new();
    offsets.push(0);
    let mut k: usize = 0;
    while k < x.len()
        invariant
            k <= x@.len(),
            15 * x@.len() <= u32::MAX,
            offsets@.len() == k + 1,
            offsets@[0] == 0,
            offsets@[k as int] == data@.len(),
            data@.len() <= 15 * k,
            forall|i: int| #![trigger offsets@[i]] 0 <= i < k ==> offsets@[i] <= offsets@[i + 1],
            forall|i: int| #![trigger offsets@[i]] 0 <= i <= k ==> offsets@[i] <= data@.len(),
            forall|i: int| 0 <= i < k ==>
                data@.subrange(offsets@[i] as int, offsets@[i + 1] as int) == ipv4_text(x@[i]),
        decreases x@.len() - k,
    {
        let ghost prev = data@;
        let ghost prev_offsets = offsets@;
        let mut t = ipv4_text_of(x[k]);
        proof {
            lemma_ipv4_text_len(x@[k as int]);
        }
        data.append(&mut t);
        offsets.push(data.len() as u32);
        proof {
            assert forall|i: int| 0 <= i < k + 1 implies
                data@.subrange(offsets@[i] as int, offsets@[i + 1] as int) == ipv4_text(
                x@[i],
            ) by {
                if i < k {
                    assert(offsets@[i] == prev_offsets[i] && offsets@[i + 1] == prev_offsets[i + 1]);
                    assert(prev_offsets[i + 1] <= prev.len());
                    assert(data@.subrange(offsets@[i] as int, offsets@[i + 1] as int)
                        =~= prev.subrange(prev_offsets[i] as int, prev_offsets[i + 1] as int));
                } else {
                    assert(data@.subrange(offsets@[i] as int, offsets@[i + 1] as int)
                        =~= ipv4_text(x@[i]));
                }
            }
        }
        k = k + 1;
    }
    (data, offsets)
}

} // verus!
