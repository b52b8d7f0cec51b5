//! Netmasks as bit patterns: prefix masks, CIDR detection, and the span of
//! a CIDR network.

use vstd::prelude::*;

use vstd::arithmetic::div_mod::lemma_fundamental_div_mod_converse;
use vstd::arithmetic::power2::{lemma2_to64, lemma_pow2_adds, lemma_pow2_pos, pow2};
use vstd::bits::{lemma_u128_shr_is_div, lemma_u32_shr_is_div};

verus! {

/// The IPv4 netmask whose first `p` bits are ones and the rest zeros
/// (all ones XOR all ones shifted right by `p`; all ones from 32 up).
pub open spec fn v4_prefix_mask(p: u32) -> u32 {
    if p >= 32 {
        0xffff_ffffu32
    } else {
        !(0xffff_ffffu32 >> p)
    }
}

/// The IPv6 netmask whose first `p` bits are ones and the rest zeros.
pub open spec fn v6_prefix_mask(p: u32) -> u128 {
    if p >= 128 {
        0xffff_ffff_ffff_ffff_ffff_ffff_ffff_ffffu128
    } else {
        !(0xffff_ffff_ffff_ffff_ffff_ffff_ffff_ffffu128 >> p)
    }
}

/// A CIDR netmask: a run of ones followed by a run of zeros.
pub open spec fn is_cidr_v4(m: u32) -> bool {
    exists|p: u32| p <= 32 && m == v4_prefix_mask(p)
}

/// A CIDR netmask: a run of ones followed by a run of zeros.
pub open spec fn is_cidr_v6(m: u128) -> bool {
    exists|p: u32| p <= 128 && m == v6_prefix_mask(p)
}

/// Computes `v4_prefix_mask(p)`.
pub fn prefix_mask_v4(p: u32) -> (r: u32)
    ensures
        r == v4_prefix_mask(p),
{
    if p >= 32 {
        0xffff_ffffu32
    } else {
        !(0xffff_ffffu32 >> p)
    }
}

/// Computes `v6_prefix_mask(p)`.
pub fn prefix_mask_v6(p: u32) -> (r: u128)
    ensures
        r == v6_prefix_mask(p),
{
    if p >= 128 {
        0xffff_ffff_ffff_ffff_ffff_ffff_ffff_ffffu128
    } else {
        !(0xffff_ffff_ffff_ffff_ffff_ffff_ffff_ffffu128 >> p)
    }
}

/// Distinct prefix lengths give distinct masks.
pub proof fn lemma_v4_prefix_mask_injective(p: u32, q: u32)
    requires
        p <= 32,
        q <= 32,
        v4_prefix_mask(p) == v4_prefix_mask(q),
    ensures
        p == q,
{
    assert(p <= 32 && q <= 32 && v4_prefix_mask(p) == v4_prefix_mask(q) ==> p == q) by (bit_vector);
}

/// Distinct prefix lengths give distinct masks.
pub proof fn lemma_v6_prefix_mask_injective(p: u32, q: u32)
    requires
        p <= 128,
        q <= 128,
        v6_prefix_mask(p) == v6_prefix_mask(q),
    ensures
        p == q,
{
    assert(p <= 128 && q <= 128 && v6_prefix_mask(p) == v6_prefix_mask(q) ==> p == q)
        by (bit_vector);
}

/// The prefix length of a CIDR netmask, or `None` for any other mask.
pub fn cidr_prefix_v4(m: u32) -> (r: Option<u32>)
    ensures
        match r {
            Some(p) => p <= 32 && m == v4_prefix_mask(p),
            None => !is_cidr_v4(m),
        },
{
    let mut p: u32 = 0;
    while p <= 32
        invariant
            p <= 33,
            forall|q: u32| q < p ==> m != v4_prefix_mask(q),
        decreases 33 - p,
    {
        if m == prefix_mask_v4(p) {
            return Some(p);
        }
        p = p + 1;
    }
    None
}

/// The prefix length of a CIDR netmask, or `None` for any other mask.
pub fn cidr_prefix_v6(m: u128) -> (r: Option<u32>)
    ensures
        match r {
            Some(p) => p <= 128 && m == v6_prefix_mask(p),
            None => !is_cidr_v6(m),
        },
{
    let mut p: u32 = 0;
    while p <= 128
        invariant
            p <= 129,
            forall|q: u32| q < p ==> m != v6_prefix_mask(q),
        decreases 129 - p,
    {
        if m == prefix_mask_v6(p) {
            return Some(p);
        }
        p = p + 1;
    }
    None
}

/// Under a CIDR netmask the network spans `2^k` addresses, `k` the number
/// of zero bits: one more than the host bits `!mask`.
pub proof fn lemma_host_count_v4(k: nat)
    requires
        k <= 32,
    ensures
        (!v4_prefix_mask((32 - k) as u32)) as nat + 1 == pow2(k),
{
    lemma2_to64();
    let p = (32 - k) as u32;
    if k == 0 {
        assert(!0xffff_ffffu32 == 0) by (bit_vector);
    } else {
        assert(p < 32 ==> !v4_prefix_mask(p) == 0xffff_ffffu32 >> p) by (bit_vector);
        lemma_u32_shr_is_div(0xffff_ffffu32, p);
        lemma_pow2_adds(k, p as nat);
        lemma_pow2_pos(k);
        lemma_pow2_pos(p as nat);
        let (a, b) = (pow2(k) as int, pow2(p as nat) as int);
        assert(a * b == 0x1_0000_0000);
        assert((a - 1) * b + (b - 1) == a * b - 1) by (nonlinear_arith);
        lemma_fundamental_div_mod_converse(0xffff_ffff, b, a - 1, b - 1);
    }
}

/// Under a CIDR netmask the network spans `2^k` addresses, `k` the number
/// of zero bits: one more than the host bits `!mask`.
pub proof fn lemma_host_count_v6(k: nat)
    requires
        k <= 128,
    ensures
        (!v6_prefix_mask((128 - k) as u32)) as nat + 1 == pow2(k),
{
    lemma2_to64();
    let p = (128 - k) as u32;
    if k == 0 {
        assert(!0xffff_ffff_ffff_ffff_ffff_ffff_ffff_ffffu128 == 0) by (bit_vector);
    } else {
        assert(p < 128 ==> !v6_prefix_mask(p) == 0xffff_ffff_ffff_ffff_ffff_ffff_ffff_ffffu128 >> p)
            by (bit_vector);
        lemma_u128_shr_is_div(0xffff_ffff_ffff_ffff_ffff_ffff_ffff_ffffu128, p as u128);
        lemma_pow2_adds(k, p as nat);
        lemma_pow2_adds(64, 64);
        lemma_pow2_pos(k);
        lemma_pow2_pos(p as nat);
        let (a, b) = (pow2(k) as int, pow2(p as nat) as int);
        assert(pow2(128) == 0x1_0000_0000_0000_0000_0000_0000_0000_0000);
        assert(a * b == 0x1_0000_0000_0000_0000_0000_0000_0000_0000);
        assert((a - 1) * b + (b - 1) == a * b - 1) by (nonlinear_arith);
        lemma_fundamental_div_mod_converse(0xffff_ffff_ffff_ffff_ffff_ffff_ffff_ffff, b, a - 1, b - 1);
    }
}

/// Under a CIDR netmask, the addresses a network holds are those from its
/// network address through the network address plus the host bits.
pub proof fn lemma_cidr_range_v4(n: u32, p: u32, x: u32)
    requires
        p <= 32,
        n & v4_prefix_mask(p) == n,
    ensures
        n + !v4_prefix_mask(p) <= u32::MAX,
        (x & v4_prefix_mask(p) == n) <==> (n <= x && x <= n + !v4_prefix_mask(p)),
{
    assert(p <= 32 && n & v4_prefix_mask(p) == n ==> (n as u64) + ((!v4_prefix_mask(p)) as u64)
        <= 0xffff_ffffu64) by (bit_vector);
    assert(p <= 32 && n & v4_prefix_mask(p) == n ==> ((x & v4_prefix_mask(p) == n) <==> (n <= x
        && (x as u64) <= (n as u64) + ((!v4_prefix_mask(p)) as u64)))) by (bit_vector);
}

/// Under a CIDR netmask, the addresses a network holds are those from its
/// network address through the network address plus the host bits.
pub proof fn lemma_cidr_range_v6(n: u128, p: u32, x: u128)
    requires
        p <= 128,
        n & v6_prefix_mask(p) == n,
    ensures
        n + !v6_prefix_mask(p) <= u128::MAX,
        (x & v6_prefix_mask(p) == n) <==> (n <= x && x <= n + !v6_prefix_mask(p)),
{
    assert(p <= 128 && n & v6_prefix_mask(p) == n ==> n & !v6_prefix_mask(p) == 0) by (bit_vector);
    assert(n & !v6_prefix_mask(p) == 0 ==> (n | !v6_prefix_mask(p)) == n + !v6_prefix_mask(p))
        by (bit_vector);
    assert(p <= 128 && n & v6_prefix_mask(p) == n ==> ((x & v6_prefix_mask(p) == n) <==> (n <= x
        && x <= (n | !v6_prefix_mask(p))))) by (bit_vector);
}

} // verus!
