//! General properties of networks, stated over the contracts of the
//! operations and proved.

use vstd::prelude::*;

use crate::address::{Ipv4Address, Ipv6Address};
use crate::netaddr::NetAddr;
use crate::netv4addr::Netv4Addr;
use crate::netv6addr::Netv6Addr;
use vstd::arithmetic::power2::pow2;

use crate::bits::{
    is_cidr_v4, is_cidr_v6, lemma_cidr_range_v4, lemma_cidr_range_v6, lemma_host_count_v4,
    lemma_host_count_v6, v4_prefix_mask, v6_prefix_mask,
};
use crate::iter::{
    Offset,
    address_run, device_count_v4, device_count_v6, subnet_run_v4, subnet_run_v6, zero_bits_v4,
    zero_bits_v6,
};
use vstd::arithmetic::power2::lemma_pow2_adds;
use crate::grammar::{
    netaddr_of_text, netaddr_text, netv4_of_text, netv4_text, netv6_of_text, netv6_text,
    lemma_first_delimiter, numeral_value, tokens, v4_mask_of, v4_prefix_of, v6_mask_of, v6_prefix_of,
};
use crate::ipv4_text::{lemma_parse_v4_chars, lemma_v4_round_trip, parse_v4, v4_text};
use crate::ipv6_text::{lemma_v6_round_trip, v6_text};
use crate::text::{all_digits, dec_text, free_of, lemma_dec_text};
use crate::traits::{Broadcast, Contains, Merge};

verus! {

/// Building a network masks its address: the network address of every
/// network that `new` builds is unchanged by its netmask.
pub proof fn law_new_is_masked_v4(addr: u32, mask: u32)
    ensures
        Netv4Addr::spec_new(addr, mask).network() & mask == Netv4Addr::spec_new(addr, mask).network(),
        Netv4Addr::spec_new(addr, mask).netmask() == mask,
{
    Netv4Addr::lemma_spec_new(addr, mask);
}

/// Building a network masks its address: the network address of every
/// network that `new` builds is unchanged by its netmask.
pub proof fn law_new_is_masked_v6(addr: u128, mask: u128)
    ensures
        Netv6Addr::spec_new(addr, mask).network() & mask == Netv6Addr::spec_new(addr, mask).network(),
        Netv6Addr::spec_new(addr, mask).netmask() == mask,
{
    Netv6Addr::lemma_spec_new(addr, mask);
}

/// A network contains its own network address and its own last address
/// (its broadcast address).
pub proof fn law_contains_own_bounds_v4(n: Netv4Addr)
    requires
        n.wf(),
    ensures
        n.spec_contains(&Ipv4Address(n.network())),
        n.spec_contains(&n.spec_broadcast()),
{
    let (a, m) = (n.network(), n.netmask());
    assert(a & m == a ==> (a | !m) & m == a) by (bit_vector);
}

/// A network contains its own network address and its own last address.
pub proof fn law_contains_own_bounds_v6(n: Netv6Addr)
    requires
        n.wf(),
    ensures
        n.spec_contains(&Ipv6Address(n.network())),
        n.spec_contains(&Ipv6Address(n.network() | !n.netmask())),
{
    let (a, m) = (n.network(), n.netmask());
    assert(a & m == a ==> (a | !m) & m == a) by (bit_vector);
}

/// Two networks that contain each other have the same network address; with
/// the same netmask they are the same network. (Networks with different
/// netmasks can contain each other: `0.0.0.0/0` and `0.0.0.0/8` do.)
pub proof fn law_containment_antisymmetric_v4(a: Netv4Addr, b: Netv4Addr)
    requires
        a.wf(),
        b.wf(),
        a.spec_contains(&b),
        b.spec_contains(&a),
    ensures
        a.network() == b.network(),
        a.netmask() == b.netmask() ==> a == b,
{
    let (x, m, y, k) = (a.network(), a.netmask(), b.network(), b.netmask());
    assert(x & m == x && y & k == y && y & m == x && x & k == y ==> x == y) by (bit_vector);
    Netv4Addr::lemma_eq(a, b);
}

/// Two networks that contain each other have the same network address; with
/// the same netmask they are the same network.
pub proof fn law_containment_antisymmetric_v6(a: Netv6Addr, b: Netv6Addr)
    requires
        a.wf(),
        b.wf(),
        a.spec_contains(&b),
        b.spec_contains(&a),
    ensures
        a.network() == b.network(),
        a.netmask() == b.netmask() ==> a == b,
{
    let (x, m, y, k) = (a.network(), a.netmask(), b.network(), b.netmask());
    assert(x & m == x && y & k == y && y & m == x && x & k == y ==> x == y) by (bit_vector);
    Netv6Addr::lemma_eq(a, b);
}

/// Merging does not depend on the order of the two networks.
pub proof fn law_merge_commutative_v4(a: Netv4Addr, b: Netv4Addr)
    ensures
        a.spec_merge(&b) == b.spec_merge(&a),
{
}

/// Merging does not depend on the order of the two networks.
pub proof fn law_merge_commutative_v6(a: Netv6Addr, b: Netv6Addr)
    ensures
        a.spec_merge(&b) == b.spec_merge(&a),
{
}

/// Merging does not depend on the order of the two networks.
pub proof fn law_merge_commutative(a: NetAddr, b: NetAddr)
    ensures
        a.spec_merge(&b) == b.spec_merge(&a),
{
}

/// A merged network contains both networks merged.
pub proof fn law_merge_contains_both_v4(a: Netv4Addr, b: Netv4Addr)
    requires
        a.spec_merge(&b) is Some,
    ensures
        a.spec_merge(&b)->Some_0.spec_contains(&a),
        a.spec_merge(&b)->Some_0.spec_contains(&b),
{
    let m = crate::netv4addr::merge_mask_v4(a.netmask(), b.netmask());
    Netv4Addr::lemma_spec_new(a.network() & m, m);
    let x = a.network();
    assert((x & m) & m == x & m) by (bit_vector);
}

/// A merged network contains both networks merged.
pub proof fn law_merge_contains_both_v6(a: Netv6Addr, b: Netv6Addr)
    requires
        a.spec_merge(&b) is Some,
    ensures
        a.spec_merge(&b)->Some_0.spec_contains(&a),
        a.spec_merge(&b)->Some_0.spec_contains(&b),
{
    let m = crate::netv6addr::merge_mask_v6(a.netmask(), b.netmask());
    Netv6Addr::lemma_spec_new(a.network() & m, m);
    let x = a.network();
    assert((x & m) & m == x & m) by (bit_vector);
}

/// A merged network contains both networks merged.
pub proof fn law_merge_contains_both(a: NetAddr, b: NetAddr)
    requires
        a.spec_merge(&b) is Some,
    ensures
        a.spec_merge(&b)->Some_0.spec_contains(&a),
        a.spec_merge(&b)->Some_0.spec_contains(&b),
{
    match (a, b) {
        (NetAddr::V4(x), NetAddr::V4(y)) => law_merge_contains_both_v4(x, y),
        (NetAddr::V6(x), NetAddr::V6(y)) => law_merge_contains_both_v6(x, y),
        _ => {},
    }
}


/// The tokens of `x/y`, where neither holds a `/` or space, are `x` and `y`.
proof fn lemma_tokens(x: Seq<char>, y: Seq<char>)
    requires
        free_of(x, '/', ' '),
        free_of(y, '/', ' '),
    ensures
        tokens(x + seq!['/'] + y) == Some((x, y)),
{
    let t = x + (seq!['/'] + y);
    assert(x + seq!['/'] + y == t);
    lemma_first_delimiter(x, seq!['/'] + y, 0);
    assert(t.subrange(0, x.len() as int) == x);
    assert(t.subrange(x.len() as int + 1, t.len() as int) == y);
}

/// A prefix length written in decimal reads back as that number.
proof fn lemma_numeral_of_dec(p: nat)
    ensures
        numeral_value(dec_text(p)) == Some(p),
        free_of(dec_text(p), '/', ' '),
{
    lemma_dec_text(p);
    let t = dec_text(p);
    assert(crate::text::is_digit(t[0]));
    assert forall|i: int| 0 <= i < t.len() implies t[i] != '/' && t[i] != ' ' by {
        assert(crate::text::is_digit(t[i]));
    }
}

/// Reading the canonical text of an IPv4 network gives the network back.
pub proof fn law_round_trip_v4(n: Netv4Addr)
    requires
        n.wf(),
    ensures
        netv4_of_text(netv4_text(n)) == Some(n),
{
    let (a, m) = (n.network(), n.netmask());
    lemma_v4_round_trip(a);
    let rhs = if is_cidr_v4(m) {
        dec_text(v4_prefix_of(m) as nat)
    } else {
        v4_text(m)
    };
    if is_cidr_v4(m) {
        let p = v4_prefix_of(m);
        lemma_numeral_of_dec(p as nat);
    } else {
        lemma_v4_round_trip(m);
    }
    lemma_tokens(v4_text(a), rhs);
    assert(netv4_text(n) == v4_text(a) + seq!['/'] + rhs);
    assert(v4_mask_of(rhs) == m);
    Netv4Addr::lemma_spec_new_of_wf(n);
}

/// The text after the `/` in the canonical text of an IPv6 network.
spec fn v6_mask_text(m: u128) -> Seq<char> {
    if is_cidr_v6(m) {
        dec_text(v6_prefix_of(m) as nat)
    } else {
        v6_text(m)
    }
}

/// The tokens of the canonical text of an IPv6 network, and the mask its
/// right token reads as.
proof fn lemma_netv6_text_parts(n: Netv6Addr)
    ensures
        tokens(netv6_text(n)) == Some((v6_text(n.network()), v6_mask_text(n.netmask()))),
        v6_mask_of(v6_mask_text(n.netmask())) == n.netmask(),
{
    let (a, m) = (n.network(), n.netmask());
    lemma_v6_round_trip(a);
    let rhs = v6_mask_text(m);
    if is_cidr_v6(m) {
        let p = v6_prefix_of(m);
        lemma_numeral_of_dec(p as nat);
    } else {
        lemma_v6_round_trip(m);
        let k = choose|k: int| 0 <= k < v6_text(m).len() && v6_text(m)[k] == ':';
        assert(!crate::text::is_digit(v6_text(m)[k]));
        assert(!all_digits(v6_text(m)));
        assert(numeral_value(rhs) is None);
    }
    lemma_tokens(v6_text(a), rhs);
    assert(netv6_text(n) == v6_text(a) + seq!['/'] + rhs);
}

/// Reading the canonical text of an IPv6 network gives the network back.
pub proof fn law_round_trip_v6(n: Netv6Addr)
    requires
        n.wf(),
    ensures
        netv6_of_text(netv6_text(n)) == Some(n),
{
    lemma_netv6_text_parts(n);
    lemma_v6_round_trip(n.network());
    Netv6Addr::lemma_spec_new_of_wf(n);
}

/// Reading the canonical text of a network of either family gives the
/// network back.
pub proof fn law_round_trip(n: NetAddr)
    requires
        n.wf(),
    ensures
        netaddr_of_text(netaddr_text(n)) == Some(n),
{
    match n {
        NetAddr::V4(x) => law_round_trip_v4(x),
        NetAddr::V6(x) => {
            law_round_trip_v6(x);
            lemma_netv6_text_parts(x);
            let t = netv6_text(x);
            let l = v6_text(x.network());
            lemma_v6_round_trip(x.network());
            if parse_v4(l) is Some {
                lemma_parse_v4_chars(l);
            }
            assert(netv4_of_text(t) is None);
        },
    }
}


/// From the `i`-th address of a CIDR network on, iteration yields every
/// remaining address in turn and then stops.
proof fn lemma_address_run_v4(n: Netv4Addr, p: u32, i: nat)
    requires
        n.wf(),
        p <= 32,
        n.netmask() == v4_prefix_mask(p),
        i <= !n.netmask(),
    ensures
        address_run(n, Some(Ipv4Address((n.network() + i) as u32)), (!n.netmask() - i + 2) as nat)
            == Seq::new((!n.netmask() - i + 1) as nat, |j: int| Ipv4Address((n.network() + i + j) as u32)),
    decreases !n.netmask() - i,
{
    let (a, h) = (n.network(), !n.netmask());
    let c = (a + i) as u32;
    lemma_cidr_range_v4(a, p, c);
    let fuel = (h - i + 2) as nat;
    let expected = Seq::new((h - i + 1) as nat, |j: int| Ipv4Address((a + i + j) as u32));
    if i < h {
        lemma_address_run_v4(n, p, i + 1);
        let rest = Seq::new((h - (i + 1) + 1) as nat, |j: int| Ipv4Address((a + (i + 1) + j) as u32));
        assert(address_run(n, Some(Ipv4Address(c)), fuel) == seq![Ipv4Address(c)] + address_run(
            n,
            Some(Ipv4Address((a + (i + 1)) as u32)),
            (fuel - 1) as nat,
        ));
        assert(seq![Ipv4Address(c)] + rest =~= expected);
    } else {
        if c + 1 <= u32::MAX {
            let d = (c + 1) as u32;
            lemma_cidr_range_v4(a, p, d);
            assert(address_run(n, Some(Ipv4Address(d)), 1) == Seq::<Ipv4Address>::empty());
            assert(address_run(n, Some(Ipv4Address(c)), fuel) == seq![Ipv4Address(c)] + address_run(
                n,
                Some(Ipv4Address(d)),
                1,
            ));
        } else {
            assert(address_run(n, None::<Ipv4Address>, 1) == Seq::<Ipv4Address>::empty());
            assert(address_run(n, Some(Ipv4Address(c)), fuel) == seq![Ipv4Address(c)] + address_run(
                n,
                None::<Ipv4Address>,
                1,
            ));
        }
        assert(address_run(n, Some(Ipv4Address(c)), fuel) =~= seq![Ipv4Address(c)]);
        assert(seq![Ipv4Address(c)] =~= expected);
    }
}

/// Iterating a CIDR network with `k` zero bits in its netmask yields exactly
/// `2^k` addresses: the network address and each following address in
/// ascending order, and then nothing more.
pub proof fn law_address_count_v4(n: Netv4Addr, k: nat)
    requires
        n.wf(),
        k <= 32,
        n.netmask() == v4_prefix_mask((32 - k) as u32),
    ensures
        address_run(n, Some(Ipv4Address(n.network())), pow2(k) + 1) == Seq::new(
            pow2(k),
            |i: int| Ipv4Address((n.network() + i) as u32),
        ),
{
    lemma_host_count_v4(k);
    lemma_address_run_v4(n, (32 - k) as u32, 0);
    assert(Ipv4Address((n.network() + 0) as u32) == Ipv4Address(n.network()));
    assert(Seq::new((!n.netmask() - 0 + 1) as nat, |j: int| Ipv4Address((n.network() + 0 + j) as u32))
        =~= Seq::new(pow2(k), |i: int| Ipv4Address((n.network() + i) as u32)));
}

/// From the `i`-th address of a CIDR network on, iteration yields every
/// remaining address in turn and then stops.
proof fn lemma_address_run_v6(n: Netv6Addr, p: u32, i: nat)
    requires
        n.wf(),
        p <= 128,
        n.netmask() == v6_prefix_mask(p),
        i <= !n.netmask(),
    ensures
        address_run(n, Some(Ipv6Address((n.network() + i) as u128)), (!n.netmask() - i + 2) as nat)
            == Seq::new((!n.netmask() - i + 1) as nat, |j: int| Ipv6Address((n.network() + i + j) as u128)),
    decreases !n.netmask() - i,
{
    let (a, h) = (n.network(), !n.netmask());
    let c = (a + i) as u128;
    lemma_cidr_range_v6(a, p, c);
    let fuel = (h - i + 2) as nat;
    let expected = Seq::new((h - i + 1) as nat, |j: int| Ipv6Address((a + i + j) as u128));
    if i < h {
        lemma_address_run_v6(n, p, i + 1);
        let rest = Seq::new((h - (i + 1) + 1) as nat, |j: int| Ipv6Address((a + (i + 1) + j) as u128));
        assert(address_run(n, Some(Ipv6Address(c)), fuel) == seq![Ipv6Address(c)] + address_run(
            n,
            Some(Ipv6Address((a + (i + 1)) as u128)),
            (fuel - 1) as nat,
        ));
        assert(seq![Ipv6Address(c)] + rest =~= expected);
    } else {
        if c + 1 <= u128::MAX {
            let d = (c + 1) as u128;
            lemma_cidr_range_v6(a, p, d);
            assert(address_run(n, Some(Ipv6Address(d)), 1) == Seq::<Ipv6Address>::empty());
            assert(address_run(n, Some(Ipv6Address(c)), fuel) == seq![Ipv6Address(c)] + address_run(
                n,
                Some(Ipv6Address(d)),
                1,
            ));
        } else {
            assert(address_run(n, None::<Ipv6Address>, 1) == Seq::<Ipv6Address>::empty());
            assert(address_run(n, Some(Ipv6Address(c)), fuel) == seq![Ipv6Address(c)] + address_run(
                n,
                None::<Ipv6Address>,
                1,
            ));
        }
        assert(address_run(n, Some(Ipv6Address(c)), fuel) =~= seq![Ipv6Address(c)]);
        assert(seq![Ipv6Address(c)] =~= expected);
    }
}

/// Iterating a CIDR network with `k` zero bits in its netmask yields exactly
/// `2^k` addresses: the network address and each following address in
/// ascending order, and then nothing more.
pub proof fn law_address_count_v6(n: Netv6Addr, k: nat)
    requires
        n.wf(),
        k <= 128,
        n.netmask() == v6_prefix_mask((128 - k) as u32),
    ensures
        address_run(n, Some(Ipv6Address(n.network())), pow2(k) + 1) == Seq::new(
            pow2(k),
            |i: int| Ipv6Address((n.network() + i) as u128),
        ),
{
    lemma_host_count_v6(k);
    lemma_address_run_v6(n, (128 - k) as u32, 0);
    assert(Ipv6Address((n.network() + 0) as u128) == Ipv6Address(n.network()));
    assert(Seq::new((!n.netmask() - 0 + 1) as nat, |j: int| Ipv6Address((n.network() + 0 + j) as u128))
        =~= Seq::new(pow2(k), |i: int| Ipv6Address((n.network() + i) as u128)));
}


/// A CIDR netmask of prefix length `q` has `32 - q` zero bits: among its
/// lowest `n` bits, as many as lie below the prefix.
proof fn lemma_zero_bits_prefix_v4(q: u32, n: nat)
    requires
        q <= 32,
        n <= 32,
    ensures
        zero_bits_v4(v4_prefix_mask(q), n) == if n <= 32 - q { n } else { (32 - q) as nat },
    decreases n,
{
    if n > 0 {
        lemma_zero_bits_prefix_v4(q, (n - 1) as nat);
        let b = (n - 1) as u32;
        assert(b < 32 && q <= 32 ==> (((v4_prefix_mask(q) >> b) & 1 == 0) <==> b < 32 - q))
            by (bit_vector);
    }
}

/// A CIDR netmask of prefix length `q` has `128 - q` zero bits: among its
/// lowest `n` bits, as many as lie below the prefix.
proof fn lemma_zero_bits_prefix_v6(q: u32, n: nat)
    requires
        q <= 128,
        n <= 128,
    ensures
        zero_bits_v6(v6_prefix_mask(q), n) == if n <= 128 - q { n } else { (128 - q) as nat },
    decreases n,
{
    if n > 0 {
        lemma_zero_bits_prefix_v6(q, (n - 1) as nat);
        let b = (n - 1) as u128;
        assert(b < 128 && q <= 128 ==> (((v6_prefix_mask(q) >> b) & 1 == 0) <==> b < 128 - q))
            by (bit_vector);
    }
}

/// From the `i`-th block on, sub-network iteration yields the remaining
/// blocks of size `s` one after another and then stops.
proof fn lemma_subnet_run_v4(outer: Netv4Addr, p: u32, q: u32, count: nat, i: nat, x: u32)
    requires
        outer.wf(),
        p <= q <= 32,
        1 <= q,
        outer.netmask() == v4_prefix_mask(p),
        count * ((!v4_prefix_mask(q)) as nat + 1) == (!outer.netmask()) as nat + 1,
        i < count,
        x == outer.network() + i * ((!v4_prefix_mask(q)) as nat + 1),
        x & v4_prefix_mask(q) == x,
    ensures
        ({
            let run = subnet_run_v4(outer, Some(Netv4Addr::spec_new(x, v4_prefix_mask(q))), (count - i + 1) as nat);
            &&& run.len() == count - i
            &&& forall|j: int| 0 <= j < run.len() ==> (#[trigger] run[j]).network() == x + j * ((!v4_prefix_mask(q)) as nat + 1)
                && run[j].netmask() == v4_prefix_mask(q)
        }),
    decreases count - i,
{
    let mq = v4_prefix_mask(q);
    let s = (!mq) as nat + 1;
    assert(p <= q && q <= 32 ==> v4_prefix_mask(p) & v4_prefix_mask(q) == v4_prefix_mask(p))
        by (bit_vector);
    let (a, h) = (outer.network(), (!outer.netmask()) as nat);
    let cur = Netv4Addr::spec_new(x, mq);
    Netv4Addr::lemma_spec_new(x, mq);
    assert(i * s <= h) by (nonlinear_arith)
        requires
            i < count,
            count * s == h + 1,
            s >= 1,
    ;
    lemma_cidr_range_v4(a, p, x);
    assert(outer.spec_contains(&cur));
    lemma_zero_bits_prefix_v4(q, 32);
    assert(1 <= q && q <= 32 ==> (1u32 << (32 - q) as u32) as nat == (!v4_prefix_mask(q)) as nat + 1)
        by (bit_vector);
    assert(device_count_v4(mq) == Some(s as u32));
    let fuel = (count - i + 1) as nat;
    let run = subnet_run_v4(outer, Some(cur), fuel);
    if x + s <= u32::MAX {
        let y = (x + s) as u32;
        assert(1 <= q && q <= 32 && x & v4_prefix_mask(q) == x && (x as u64) + ((!v4_prefix_mask(q)) as u64)
            + 1 <= 0xffff_ffff ==> (((x as u64 + (!v4_prefix_mask(q)) as u64 + 1) as u32)
            & v4_prefix_mask(q)) == (x as u64 + (!v4_prefix_mask(q)) as u64 + 1) as u32) by (bit_vector);
        assert(y & mq == y);
        let next = Netv4Addr::spec_new(y, mq);
        Netv4Addr::lemma_spec_new(y, mq);
        assert(cur.spec_offset(s as u32) == Some(next));
        lemma_cidr_range_v4(a, p, y);
        if i + 1 < count {
            assert((i + 1) * s <= h) by (nonlinear_arith)
                requires
                    i + 1 < count,
                    count * s == h + 1,
                    s >= 1,
            ;
            assert(y == a + (i + 1) * s) by (nonlinear_arith)
                requires
                    y == x + s,
                    x == a + i * s,
            ;
            assert(outer.spec_contains(&next));
            lemma_subnet_run_v4(outer, p, q, count, i + 1, y);
            let rest = subnet_run_v4(outer, Some(next), (fuel - 1) as nat);
            assert(run == seq![cur] + rest);
            assert forall|j: int| 0 <= j < run.len() implies (#[trigger] run[j]).network() == x + j * s
                && run[j].netmask() == mq by {
                if j > 0 {
                    assert(run[j] == rest[j - 1]);
                    assert(y + (j - 1) * s == x + j * s) by (nonlinear_arith)
                        requires
                            y == x + s,
                    ;
                }
            }
        } else {
            assert(y == a + count * s) by (nonlinear_arith)
                requires
                    y == x + s,
                    x == a + i * s,
                    i + 1 == count,
            ;
            assert(!outer.spec_contains(&next));
            assert(subnet_run_v4(outer, None, (fuel - 1) as nat) == Seq::<Netv4Addr>::empty());
            assert(run == seq![cur] + subnet_run_v4(outer, None, (fuel - 1) as nat));
            assert(run =~= seq![cur]);
        }
    } else {
        assert(i + 1 == count) by (nonlinear_arith)
            requires
                i < count,
                x == a + i * s,
                x + s > u32::MAX,
                a + h <= u32::MAX,
                count * s == h + 1,
                s >= 1,
        ;
        assert(cur.spec_offset(s as u32) is None);
        assert(subnet_run_v4(outer, None, (fuel - 1) as nat) == Seq::<Netv4Addr>::empty());
        assert(run == seq![cur] + subnet_run_v4(outer, None, (fuel - 1) as nat));
        assert(run =~= seq![cur]);
    }
}

/// Sub-network iteration tiles a CIDR network exactly. For a network of
/// prefix length `p` and a CIDR netmask of prefix length `q` no shorter,
/// iteration yields `2^(q - p)` networks of that netmask and then stops; the
/// `i`-th starts `i` blocks of `2^(32 - q)` addresses after the network
/// address, and the blocks together span the network's `2^(32 - p)`
/// addresses: no gaps and no overlaps.
pub proof fn law_subnets_tile_v4(outer: Netv4Addr, p: u32, q: u32)
    requires
        outer.wf(),
        p <= q <= 32,
        outer.netmask() == v4_prefix_mask(p),
    ensures
        ({
            let count = pow2((q - p) as nat);
            let size = pow2((32 - q) as nat);
            let run = subnet_run_v4(
                outer,
                Some(Netv4Addr::spec_new(outer.network(), v4_prefix_mask(q))),
                count + 1,
            );
            &&& run.len() == count
            &&& forall|i: int| 0 <= i < run.len() ==> (#[trigger] run[i]).network() == outer.network() + i * size
                && run[i].netmask() == v4_prefix_mask(q)
            &&& count * size == pow2((32 - p) as nat)
            &&& pow2((32 - p) as nat) == (!outer.netmask()) as nat + 1
        }),
{
    let (a, mq) = (outer.network(), v4_prefix_mask(q));
    lemma_host_count_v4((32 - q) as nat);
    lemma_host_count_v4((32 - p) as nat);
    lemma_pow2_adds((q - p) as nat, (32 - q) as nat);
    assert((q - p) as nat + (32 - q) as nat == (32 - p) as nat);
    let count = pow2((q - p) as nat);
    let size = pow2((32 - q) as nat);
    assert(p <= q && q <= 32 && a & v4_prefix_mask(p) == a ==> a & v4_prefix_mask(q) == a) by (bit_vector);
    if q >= 1 {
        assert(a == a + 0 * size);
        lemma_subnet_run_v4(outer, p, q, count, 0, a);
    } else {
        // The whole address space under the mask 0.0.0.0: one network.
        let cur = Netv4Addr::spec_new(a, mq);
        Netv4Addr::lemma_spec_new(a, mq);
        lemma_zero_bits_prefix_v4(q, 32);
        assert(device_count_v4(mq) is None);
        assert(forall|x: u32| x & x == x) by (bit_vector);
        assert(outer.netmask() & mq == outer.netmask());
        lemma_cidr_range_v4(a, p, a);
        assert(vstd::arithmetic::power2::pow2(0) == 1) by {
            vstd::arithmetic::power2::lemma2_to64();
        }
        let run = subnet_run_v4(outer, Some(cur), count + 1);
        assert(subnet_run_v4(outer, None, 1) == Seq::<Netv4Addr>::empty());
        assert(run == seq![cur] + subnet_run_v4(outer, None, 1));
        assert(run =~= seq![cur]);
    }
}

/// From the `i`-th block on, sub-network iteration yields the remaining
/// blocks of size `s` one after another and then stops.
proof fn lemma_subnet_run_v6(outer: Netv6Addr, p: u32, q: u32, count: nat, i: nat, x: u128)
    requires
        outer.wf(),
        p <= q <= 128,
        1 <= q,
        outer.netmask() == v6_prefix_mask(p),
        count * ((!v6_prefix_mask(q)) as nat + 1) == (!outer.netmask()) as nat + 1,
        i < count,
        x == outer.network() + i * ((!v6_prefix_mask(q)) as nat + 1),
        x & v6_prefix_mask(q) == x,
    ensures
        ({
            let run = subnet_run_v6(outer, Some(Netv6Addr::spec_new(x, v6_prefix_mask(q))), (count - i + 1) as nat);
            &&& run.len() == count - i
            &&& forall|j: int| 0 <= j < run.len() ==> (#[trigger] run[j]).network() == x + j * ((!v6_prefix_mask(q)) as nat + 1)
                && run[j].netmask() == v6_prefix_mask(q)
        }),
    decreases count - i,
{
    let mq = v6_prefix_mask(q);
    let s = (!mq) as nat + 1;
    assert(p <= q && q <= 128 ==> v6_prefix_mask(p) & v6_prefix_mask(q) == v6_prefix_mask(p))
        by (bit_vector);
    let (a, h) = (outer.network(), (!outer.netmask()) as nat);
    let cur = Netv6Addr::spec_new(x, mq);
    Netv6Addr::lemma_spec_new(x, mq);
    assert(i * s <= h) by (nonlinear_arith)
        requires
            i < count,
            count * s == h + 1,
            s >= 1,
    ;
    lemma_cidr_range_v6(a, p, x);
    assert(outer.spec_contains(&cur));
    lemma_zero_bits_prefix_v6(q, 128);
    assert(1 <= q && q <= 128 ==> (1u128 << (128 - q) as u128) as nat == (!v6_prefix_mask(q)) as nat + 1)
        by (bit_vector);
    assert(device_count_v6(mq) == Some(s as u128));
    let fuel = (count - i + 1) as nat;
    let run = subnet_run_v6(outer, Some(cur), fuel);
    if x + s <= u128::MAX {
        let y = (x + s) as u128;
        assert(1 <= q && q <= 128 && x & v6_prefix_mask(q) == x && x + (!v6_prefix_mask(q)) + 1
            <= 0xffff_ffff_ffff_ffff_ffff_ffff_ffff_ffffu128 ==> ((x + ((!v6_prefix_mask(q)) + 1)) as u128)
            & v6_prefix_mask(q) == (x + ((!v6_prefix_mask(q)) + 1)) as u128) by (bit_vector);
        assert(y & mq == y);
        let next = Netv6Addr::spec_new(y, mq);
        Netv6Addr::lemma_spec_new(y, mq);
        assert(cur.spec_offset(s as u128) == Some(next));
        lemma_cidr_range_v6(a, p, y);
        if i + 1 < count {
            assert((i + 1) * s <= h) by (nonlinear_arith)
                requires
                    i + 1 < count,
                    count * s == h + 1,
                    s >= 1,
            ;
            assert(y == a + (i + 1) * s) by (nonlinear_arith)
                requires
                    y == x + s,
                    x == a + i * s,
            ;
            assert(outer.spec_contains(&next));
            lemma_subnet_run_v6(outer, p, q, count, i + 1, y);
            let rest = subnet_run_v6(outer, Some(next), (fuel - 1) as nat);
            assert(run == seq![cur] + rest);
            assert forall|j: int| 0 <= j < run.len() implies (#[trigger] run[j]).network() == x + j * s
                && run[j].netmask() == mq by {
                if j > 0 {
                    assert(run[j] == rest[j - 1]);
                    assert(y + (j - 1) * s == x + j * s) by (nonlinear_arith)
                        requires
                            y == x + s,
                    ;
                }
            }
        } else {
            assert(y == a + count * s) by (nonlinear_arith)
                requires
                    y == x + s,
                    x == a + i * s,
                    i + 1 == count,
            ;
            assert(!outer.spec_contains(&next));
            assert(subnet_run_v6(outer, None, (fuel - 1) as nat) == Seq::<Netv6Addr>::empty());
            assert(run == seq![cur] + subnet_run_v6(outer, None, (fuel - 1) as nat));
            assert(run =~= seq![cur]);
        }
    } else {
        assert(i + 1 == count) by (nonlinear_arith)
            requires
                i < count,
                x == a + i * s,
                x + s > u128::MAX,
                a + h <= u128::MAX,
                count * s == h + 1,
                s >= 1,
        ;
        assert(cur.spec_offset(s as u128) is None);
        assert(subnet_run_v6(outer, None, (fuel - 1) as nat) == Seq::<Netv6Addr>::empty());
        assert(run == seq![cur] + subnet_run_v6(outer, None, (fuel - 1) as nat));
        assert(run =~= seq![cur]);
    }
}

/// Sub-network iteration tiles a CIDR network exactly. For a network of
/// prefix length `p` and a CIDR netmask of prefix length `q` no shorter,
/// iteration yields `2^(q - p)` networks of that netmask and then stops; the
/// `i`-th starts `i` blocks of `2^(128 - q)` addresses after the network
/// address, and the blocks together span the network's `2^(128 - p)`
/// addresses: no gaps and no overlaps.
pub proof fn law_subnets_tile_v6(outer: Netv6Addr, p: u32, q: u32)
    requires
        outer.wf(),
        p <= q <= 128,
        outer.netmask() == v6_prefix_mask(p),
    ensures
        ({
            let count = pow2((q - p) as nat);
            let size = pow2((128 - q) as nat);
            let run = subnet_run_v6(
                outer,
                Some(Netv6Addr::spec_new(outer.network(), v6_prefix_mask(q))),
                count + 1,
            );
            &&& run.len() == count
            &&& forall|i: int| 0 <= i < run.len() ==> (#[trigger] run[i]).network() == outer.network() + i * size
                && run[i].netmask() == v6_prefix_mask(q)
            &&& count * size == pow2((128 - p) as nat)
            &&& pow2((128 - p) as nat) == (!outer.netmask()) as nat + 1
        }),
{
    let (a, mq) = (outer.network(), v6_prefix_mask(q));
    lemma_host_count_v6((128 - q) as nat);
    lemma_host_count_v6((128 - p) as nat);
    lemma_pow2_adds((q - p) as nat, (128 - q) as nat);
    assert((q - p) as nat + (128 - q) as nat == (128 - p) as nat);
    let count = pow2((q - p) as nat);
    let size = pow2((128 - q) as nat);
    assert(p <= q && q <= 128 && a & v6_prefix_mask(p) == a ==> a & v6_prefix_mask(q) == a) by (bit_vector);
    if q >= 1 {
        assert(a == a + 0 * size);
        lemma_subnet_run_v6(outer, p, q, count, 0, a);
    } else {
        // The whole address space under the mask 0.0.0.0: one network.
        let cur = Netv6Addr::spec_new(a, mq);
        Netv6Addr::lemma_spec_new(a, mq);
        lemma_zero_bits_prefix_v6(q, 128);
        assert(device_count_v6(mq) is None);
        assert(forall|x: u128| x & x == x) by (bit_vector);
        assert(outer.netmask() & mq == outer.netmask());
        lemma_cidr_range_v6(a, p, a);
        assert(vstd::arithmetic::power2::pow2(0) == 1) by {
            vstd::arithmetic::power2::lemma2_to64();
        }
        let run = subnet_run_v6(outer, Some(cur), count + 1);
        assert(subnet_run_v6(outer, None, 1) == Seq::<Netv6Addr>::empty());
        assert(run == seq![cur] + subnet_run_v6(outer, None, 1));
        assert(run =~= seq![cur]);
    }
}

/// Asking for sub-networks larger than the network yields nothing, whether
/// or not the network address is aligned to the larger netmask.
pub proof fn law_larger_subnets_yield_nothing_v4(outer: Netv4Addr, p: u32, q: u32, n: nat)
    requires
        q < p <= 32,
        outer.netmask() == v4_prefix_mask(p),
    ensures
        subnet_run_v4(outer, Some(Netv4Addr::spec_new(outer.network(), v4_prefix_mask(q))), n)
            == Seq::<Netv4Addr>::empty(),
{
    let mq = v4_prefix_mask(q);
    Netv4Addr::lemma_spec_new(outer.network(), mq);
    assert(q < p && p <= 32 ==> v4_prefix_mask(p) & v4_prefix_mask(q) != v4_prefix_mask(p))
        by (bit_vector);
}

/// Asking for sub-networks larger than the network yields nothing, whether
/// or not the network address is aligned to the larger netmask.
pub proof fn law_larger_subnets_yield_nothing_v6(outer: Netv6Addr, p: u32, q: u32, n: nat)
    requires
        q < p <= 128,
        outer.netmask() == v6_prefix_mask(p),
    ensures
        subnet_run_v6(outer, Some(Netv6Addr::spec_new(outer.network(), v6_prefix_mask(q))), n)
            == Seq::<Netv6Addr>::empty(),
{
    let mq = v6_prefix_mask(q);
    Netv6Addr::lemma_spec_new(outer.network(), mq);
    assert(q < p && p <= 128 ==> v6_prefix_mask(p) & v6_prefix_mask(q) != v6_prefix_mask(p))
        by (bit_vector);
}

} // verus!
