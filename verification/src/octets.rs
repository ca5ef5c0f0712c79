//! An address is a `u32` read as four big-endian octets.

use vstd::prelude::*;

verus! {

/// Highest-order octet of an address: the `a` of `a.b.c.d`.
pub open spec fn octet0(v: u32) -> u8 {
    ((v >> 24) & 0xFF) as u8
}

/// Second octet of an address: the `b` of `a.b.c.d`.
pub open spec fn octet1(v: u32) -> u8 {
    ((v >> 16) & 0xFF) as u8
}

/// Third octet of an address: the `c` of `a.b.c.d`.
pub open spec fn octet2(v: u32) -> u8 {
    ((v >> 8) & 0xFF) as u8
}

/// Lowest-order octet of an address: the `d` of `a.b.c.d`.
pub open spec fn octet3(v: u32) -> u8 {
    (v & 0xFF) as u8
}

/// The address whose four big-endian octets are `a.b.c.d`.
pub open spec fn from_octets(a: u8, b: u8, c: u8, d: u8) -> u32 {
    ((a as u32) << 24) | ((b as u32) << 16) | ((c as u32) << 8) | (d as u32)
}

/// Splits an address into its four big-endian octets.
pub fn octets(v: u32) -> (r: (u8, u8, u8, u8))
    ensures
        r.0 == octet0(v),
        r.1 == octet1(v),
        r.2 == octet2(v),
        r.3 == octet3(v),
{
    (
        ((v >> 24) & 0xFF) as u8,
        ((v >> 16) & 0xFF) as u8,
        ((v >> 8) & 0xFF) as u8,
        (v & 0xFF) as u8,
    )
}

/// Packs four octets back into an address.
pub fn encode(a: u8, b: u8, c: u8, d: u8) -> (r: u32)
    ensures
        r == from_octets(a, b, c, d),
{
    ((a as u32) << 24) | ((b as u32) << 16) | ((c as u32) << 8) | (d as u32)
}

/// Round-trip law: decoding an address into octets and re-encoding them
/// reproduces the address exactly.
pub proof fn lemma_octets_roundtrip(v: u32)
    ensures
        from_octets(octet0(v), octet1(v), octet2(v), octet3(v)) == v,
{
    assert(from_octets(octet0(v), octet1(v), octet2(v), octet3(v)) == v) by (bit_vector);
}

/// Decoding inverts encoding: the octets of `from_octets(a, b, c, d)`
/// are `a`, `b`, `c` and `d` again.
pub proof fn lemma_from_octets_decodes(a: u8, b: u8, c: u8, d: u8)
    ensures
        octet0(from_octets(a, b, c, d)) == a,
        octet1(from_octets(a, b, c, d)) == b,
        octet2(from_octets(a, b, c, d)) == c,
        octet3(from_octets(a, b, c, d)) == d,
{
    assert(octet0(from_octets(a, b, c, d)) == a) by (bit_vector);
    assert(octet1(from_octets(a, b, c, d)) == b) by (bit_vector);
    assert(octet2(from_octets(a, b, c, d)) == c) by (bit_vector);
    assert(octet3(from_octets(a, b, c, d)) == d) by (bit_vector);
}

} // verus!
