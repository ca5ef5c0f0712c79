//! The special-purpose classification predicates over single addresses,
//! and their batch forms over whole address sequences.

use vstd::prelude::*;
use crate::octets::{octet0, octet1, octet2, octets};

verus! {

/// The unspecified address `0.0.0.0`.
pub open spec fn is_unspecified_spec(v: u32) -> bool {
    v == 0
}

/// Loopback range `127.0.0.0/8`.
pub open spec fn is_loopback_spec(v: u32) -> bool {
    octet0(v) == 127
}

/// Private ranges `10.0.0.0/8`, `172.16.0.0/12` and `192.168.0.0/16`.
pub open spec fn is_private_spec(v: u32) -> bool {
    octet0(v) == 10
    || (octet0(v) == 172 && 16 <= octet1(v) && octet1(v) < 32)
    || (octet0(v) == 192 && octet1(v) == 168)
}

/// Link-local range `169.254.0.0/16`.
pub open spec fn is_link_local_spec(v: u32) -> bool {
    octet0(v) == 169 && octet1(v) == 254
}

/// Shared address space `100.64.0.0/10`.
pub open spec fn is_shared_spec(v: u32) -> bool {
    octet0(v) == 100 && 64 <= octet1(v) && octet1(v) < 128
}

/// Benchmarking range `198.18.0.0/15`.
pub open spec fn is_benchmarking_spec(v: u32) -> bool {
    octet0(v) == 198 && (octet1(v) == 18 || octet1(v) == 19)
}

/// Documentation ranges `192.0.2.0/24`, `198.51.100.0/24` and `203.0.113.0/24`.
pub open spec fn is_documentation_spec(v: u32) -> bool {
    (octet0(v) == 192 && octet1(v) == 0 && octet2(v) == 2)
    || (octet0(v) == 198 && octet1(v) == 51 && octet2(v) == 100)
    || (octet0(v) == 203 && octet1(v) == 0 && octet2(v) == 113)
}

/// The broadcast address `255.255.255.255`.
pub open spec fn is_broadcast_spec(v: u32) -> bool {
    v == 0xFFFF_FFFF
}

/// Reserved range `240.0.0.0/4`, excluding the broadcast address.
pub open spec fn is_reserved_spec(v: u32) -> bool {
    octet0(v) >= 240 && !is_broadcast_spec(v)
}

/// Multicast range `224.0.0.0/4`.
pub open spec fn is_multicast_spec(v: u32) -> bool {
    224 <= octet0(v) && octet0(v) < 240
}

/// Globally routable, defined by exclusion: none of the special-purpose
/// categories other than multicast applies.
pub open spec fn is_global_spec(v: u32) -> bool {
    !(is_private_spec(v) || is_loopback_spec(v) || is_link_local_spec(v)
        || is_unspecified_spec(v) || is_documentation_spec(v) || is_shared_spec(v)
        || is_benchmarking_spec(v) || is_reserved_spec(v) || is_broadcast_spec(v))
}

/// Whether `v` is the unspecified address `0.0.0.0`.
pub fn is_unspecified(v: u32) -> (r: bool)
    ensures
        r == is_unspecified_spec(v),
{
    v == 0
}

/// Whether `v` lies in the loopback range `127.0.0.0/8`.
pub fn is_loopback(v: u32) -> (r: bool)
    ensures
        r == is_loopback_spec(v),
{
    let (a, _, _, _) = octets(v);
    a == 127
}

/// Whether `v` lies in one of the private ranges.
pub fn is_private(v: u32) -> (r: bool)
    ensures
        r == is_private_spec(v),
{
    let (a, b, _, _) = octets(v);
    a == 10 || (a == 172 && 16 <= b && b < 32) || (a == 192 && b == 168)
}

/// Whether `v` lies in the link-local range `169.254.0.0/16`.
pub fn is_link_local(v: u32) -> (r: bool)
    ensures
        r == is_link_local_spec(v),
{
    let (a, b, _, _) = octets(v);
    a == 169 && b == 254
}

/// Whether `v` lies in the shared address space `100.64.0.0/10`.
pub fn is_shared(v: u32) -> (r: bool)
    ensures
        r == is_shared_spec(v),
{
    let (a, b, _, _) = octets(v);
    a == 100 && 64 <= b && b < 128
}

/// Whether `v` lies in the benchmarking range `198.18.0.0/15`.
pub fn is_benchmarking(v: u32) -> (r: bool)
    ensures
        r == is_benchmarking_spec(v),
{
    let (a, b, _, _) = octets(v);
    a == 198 && (b == 18 || b == 19)
}

/// Whether `v` lies in one of the documentation ranges.
pub fn is_documentation(v: u32) -> (r: bool)
    ensures
        r == is_documentation_spec(v),
{
    let (a, b, c, _) = octets(v);
    (a == 192 && b == 0 && c == 2)
    || (a == 198 && b == 51 && c == 100)
    || (a == 203 && b == 0 && c == 113)
}

/// Whether `v` is the broadcast address `255.255.255.255`.
pub fn is_broadcast(v: u32) -> (r: bool)
    ensures
        r == is_broadcast_spec(v),
{
    v == 0xFFFF_FFFF
}

/// Whether `v` lies in the reserved range `240.0.0.0/4`, broadcast excluded.
pub fn is_reserved(v: u32) -> (r: bool)
    ensures
        r == is_reserved_spec(v),
{
    let (a, _, _, _) = octets(v);
    a >= 240 && v != 0xFFFF_FFFF
}

/// Whether `v` lies in the multicast range `224.0.0.0/4`.
pub fn is_multicast(v: u32) -> (r: bool)
    ensures
        r == is_multicast_spec(v),
{
    let (a, _, _, _) = octets(v);
    224 <= a && a < 240
}

/// Whether `v` is globally routable, by exclusion of the other categories.
pub fn is_global(v: u32) -> (r: bool)
    ensures
        r == is_global_spec(v),
{
    !(is_private(v) || is_loopback(v) || is_link_local(v) || is_unspecified(v)
        || is_documentation(v) || is_shared(v) || is_benchmarking(v)
        || is_reserved(v) || is_broadcast(v))
}

/// By-exclusion law: an address is global exactly when none of the nine
/// special-purpose categories other than multicast applies to it.
pub proof fn lemma_global_by_exclusion(v: u32)
    ensures
        is_global_spec(v) == !(is_private_spec(v) || is_loopback_spec(v)
            || is_link_local_spec(v) || is_unspecified_spec(v) || is_documentation_spec(v)
            || is_shared_spec(v) || is_benchmarking_spec(v) || is_reserved_spec(v)
            || is_broadcast_spec(v)),
{
}

/// How many of the eleven classification categories hold of `v`.
pub open spec fn category_count(v: u32) -> int {
    (if is_unspecified_spec(v) { 1int } else { 0int })
    + (if is_loopback_spec(v) { 1int } else { 0int })
    + (if is_private_spec(v) { 1int } else { 0int })
    + (if is_link_local_spec(v) { 1int } else { 0int })
    + (if is_shared_spec(v) { 1int } else { 0int })
    + (if is_benchmarking_spec(v) { 1int } else { 0int })
    + (if is_documentation_spec(v) { 1int } else { 0int })
    + (if is_reserved_spec(v) { 1int } else { 0int })
    + (if is_multicast_spec(v) { 1int } else { 0int })
    + (if is_broadcast_spec(v) { 1int } else { 0int })
    + (if is_global_spec(v) { 1int } else { 0int })
}

/// Partition law: outside the multicast range, exactly one of the eleven
/// categories holds of every address. (A multicast address that is not
/// otherwise special also counts as global under the by-exclusion
/// definition, so exactly two categories hold of it.)
pub proof fn lemma_exactly_one_category(v: u32)
    requires
        !is_multicast_spec(v),
    ensures
        category_count(v) == 1,
{
    assert(category_count(v) == 1) by (bit_vector)
        requires
            !is_multicast_spec(v),
    ;
}

/// Batch form of `is_unspecified`: one boolean per input address, in order.
pub fn is_unspecified4(x: &Vec<u32>) -> (out: Vec<bool>)
    ensures
        out@.len() == x@.len(),
        forall|i: int| 0 <= i < x@.len() ==> out@[i] == is_unspecified_spec(x@[i]),
{
    let mut out: Vec<bool> = Vec::new();
    let mut k: usize = 0;
    while k < x.len()
        invariant
            k <= x@.len(),
            out@.len() == k,
            forall|i: int| 0 <= i < k ==> out@[i] == is_unspecified_spec(x@[i]),
        decreases x@.len() - k,
    {
        out.push(is_unspecified(x[k]));
        k = k + 1;
    }
    out
}

/// Batch form of `is_loopback`: one boolean per input address, in order.
pub fn is_loopback4(x: &Vec<u32>) -> (out: Vec<bool>)
    ensures
        out@.len() == x@.len(),
        forall|i: int| 0 <= i < x@.len() ==> out@[i] == is_loopback_spec(x@[i]),
{
    let mut out: Vec<bool> = Vec::new();
    let mut k: usize = 0;
    while k < x.len()
        invariant
            k <= x@.len(),
            out@.len() == k,
            forall|i: int| 0 <= i < k ==> out@[i] == is_loopback_spec(x@[i]),
        decreases x@.len() - k,
    {
        out.push(is_loopback(x[k]));
        k = k + 1;
    }
    out
}

/// Batch form of `is_private`: one boolean per input address, in order.
pub fn is_private4(x: &Vec<u32>) -> (out: Vec<bool>)
    ensures
        out@.len() == x@.len(),
        forall|i: int| 0 <= i < x@.len() ==> out@[i] == is_private_spec(x@[i]),
{
    let mut out: Vec<bool> = Vec::new();
    let mut k: usize = 0;
    while k < x.len()
        invariant
            k <= x@.len(),
            out@.len() == k,
            forall|i: int| 0 <= i < k ==> out@[i] == is_private_spec(x@[i]),
        decreases x@.len() - k,
    {
        out.push(is_private(x[k]));
        k = k + 1;
    }
    out
}

/// Batch form of `is_link_local`: one boolean per input address, in order.
pub fn is_link_local4(x: &Vec<u32>) -> (out: Vec<bool>)
    ensures
        out@.len() == x@.len(),
        forall|i: int| 0 <= i < x@.len() ==> out@[i] == is_link_local_spec(x@[i]),
{
    let mut out: Vec<bool> = Vec::new();
    let mut k: usize = 0;
    while k < x.len()
        invariant
            k <= x@.len(),
            out@.len() == k,
            forall|i: int| 0 <= i < k ==> out@[i] == is_link_local_spec(x@[i]),
        decreases x@.len() - k,
    {
        out.push(is_link_local(x[k]));
        k = k + 1;
    }
    out
}

/// Batch form of `is_shared`: one boolean per input address, in order.
pub fn is_shared4(x: &Vec<u32>) -> (out: Vec<bool>)
    ensures
        out@.len() == x@.len(),
        forall|i: int| 0 <= i < x@.len() ==> out@[i] == is_shared_spec(x@[i]),
{
    let mut out: Vec<bool> = Vec::new();
    let mut k: usize = 0;
    while k < x.len()
        invariant
            k <= x@.len(),
            out@.len() == k,
            forall|i: int| 0 <= i < k ==> out@[i] == is_shared_spec(x@[i]),
        decreases x@.len() - k,
    {
        out.push(is_shared(x[k]));
        k = k + 1;
    }
    out
}

/// Batch form of `is_benchmarking`: one boolean per input address, in order.
pub fn is_benchmarking4(x: &Vec<u32>) -> (out: Vec<bool>)
    ensures
        out@.len() == x@.len(),
        forall|i: int| 0 <= i < x@.len() ==> out@[i] == is_benchmarking_spec(x@[i]),
{
    let mut out: Vec<bool> = Vec::new();
    let mut k: usize = 0;
    while k < x.len()
        invariant
            k <= x@.len(),
            out@.len() == k,
            forall|i: int| 0 <= i < k ==> out@[i] == is_benchmarking_spec(x@[i]),
        decreases x@.len() - k,
    {
        out.push(is_benchmarking(x[k]));
        k = k + 1;
    }
    out
}

/// Batch form of `is_documentation`: one boolean per input address, in order.
pub fn is_documentation4(x: &Vec<u32>) -> (out: Vec<bool>)
    ensures
        out@.len() == x@.len(),
        forall|i: int| 0 <= i < x@.len() ==> out@[i] == is_documentation_spec(x@[i]),
{
    let mut out: Vec<bool> = Vec::new();
    let mut k: usize = 0;
    while k < x.len()
        invariant
            k <= x@.len(),
            out@.len() == k,
            forall|i: int| 0 <= i < k ==> out@[i] == is_documentation_spec(x@[i]),
        decreases x@.len() - k,
    {
        out.push(is_documentation(x[k]));
        k = k + 1;
    }
    out
}

/// Batch form of `is_reserved`: one boolean per input address, in order.
pub fn is_reserved4(x: &Vec<u32>) -> (out: Vec<bool>)
    ensures
        out@.len() == x@.len(),
        forall|i: int| 0 <= i < x@.len() ==> out@[i] == is_reserved_spec(x@[i]),
{
    let mut out: Vec<bool> = Vec::new();
    let mut k: usize = 0;
    while k < x.len()
        invariant
            k <= x@.len(),
            out@.len() == k,
            forall|i: int| 0 <= i < k ==> out@[i] == is_reserved_spec(x@[i]),
        decreases x@.len() - k,
    {
        out.push(is_reserved(x[k]));
        k = k + 1;
    }
    out
}

/// Batch form of `is_multicast`: one boolean per input address, in order.
pub fn is_multicast4(x: &Vec<u32>) -> (out: Vec<bool>)
    ensures
        out@.len() == x@.len(),
        forall|i: int| 0 <= i < x@.len() ==> out@[i] == is_multicast_spec(x@[i]),
{
    let mut out: Vec<bool> = Vec::new();
    let mut k: usize = 0;
    while k < x.len()
        invariant
            k <= x@.len(),
            out@.len() == k,
            forall|i: int| 0 <= i < k ==> out@[i] == is_multicast_spec(x@[i]),
        decreases x@.len() - k,
    {
        out.push(is_multicast(x[k]));
        k = k + 1;
    }
    out
}

/// Batch form of `is_broadcast`: one boolean per input address, in order.
pub fn is_broadcast4(x: &Vec<u32>) -> (out: Vec<bool>)
    ensures
        out@.len() == x@.len(),
        forall|i: int| 0 <= i < x@.len() ==> out@[i] == is_broadcast_spec(x@[i]),
{
    let mut out: Vec<bool> = Vec::new();
    let mut k: usize = 0;
    while k < x.len()
        invariant
            k <= x@.len(),
            out@.len() == k,
            forall|i: int| 0 <= i < k ==> out@[i] == is_broadcast_spec(x@[i]),
        decreases x@.len() - k,
    {
        out.push(is_broadcast(x[k]));
        k = k + 1;
    }
    out
}

/// Batch form of `is_global`: one boolean per input address, in order.
pub fn is_global4(x: &Vec<u32>) -> (out: Vec<bool>)
    ensures
        out@.len() == x@.len(),
        forall|i: int| 0 <= i < x@.len() ==> out@[i] == is_global_spec(x@[i]),
{
    let mut out: Vec<bool> = Vec::new();
    let mut k: usize = 0;
    while k < x.len()
        invariant
            k <= x@.len(),
            out@.len() == k,
            forall|i: int| 0 <= i < k ==> out@[i] == is_global_spec(x@[i]),
        decreases x@.len() - k,
    {
        out.push(is_global(x[k]));
        k = k + 1;
    }
    out
}

} // verus!
