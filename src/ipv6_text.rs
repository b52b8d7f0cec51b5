//! IPv6 addresses in text: groups of hexadecimal digits, `::` for a run of
//! zero groups, and an optional IPv4 tail.

use vstd::prelude::*;

use crate::ipv4_text::{lemma_v4_round_trip, parse_ipv4, parse_v4, push_ipv4, v4_text};
use crate::text::{
    all_hex_digits, free_of, hex_digit_of, hex_digit_value, hex_text, hex_value, is_hex_digit,
    join_with, lemma_hex_text, lemma_join_free, lemma_join_no_double_colon, lemma_split_join,
    no_double_colon, push_hex, split_at_any, split_chars, copy_range,
};

verus! {

/// The 128-bit value of a sequence of 16-bit groups, first group highest.
pub open spec fn groups_value(gs: Seq<u16>) -> u128
    decreases gs.len(),
{
    if gs.len() == 0 {
        0
    } else {
        (groups_value(gs.drop_last()) << 16u128) | (gs.last() as u128)
    }
}

/// The eight 16-bit groups of `a`, first group first.
pub open spec fn groups_of(a: u128) -> Seq<u16> {
    Seq::new(8, |i: int| ((a >> (112 - 16 * i) as u128) & 0xffff) as u16)
}

/// A group as text writes it: one to four hexadecimal digits.
pub open spec fn group_ok(p: Seq<char>) -> bool {
    1 <= p.len() <= 4 && all_hex_digits(p)
}

/// The groups that the colon-separated pieces `ps` write. Each piece is one
/// group, except that the last may be an IPv4 address in dotted-decimal form
/// (two groups) where `v4_last` holds. `None` where a piece is neither.
pub open spec fn pieces_groups(ps: Seq<Seq<char>>, v4_last: bool) -> Option<Seq<u16>>
    decreases ps.len(),
{
    if ps.len() == 0 {
        Some(seq![])
    } else {
        match pieces_groups(ps.drop_last(), false) {
            None => None,
            Some(g) => if group_ok(ps.last()) {
                Some(g.push(hex_value(ps.last()) as u16))
            } else if v4_last && parse_v4(ps.last()) is Some {
                let v = parse_v4(ps.last())->Some_0;
                Some(g.push((v >> 16u32) as u16).push(v as u16))
            } else {
                None
            },
        }
    }
}

/// The index of the first `::` in `s` at or after `i`.
pub open spec fn find_double_colon(s: Seq<char>, i: int) -> Option<int>
    decreases s.len() - i,
{
    if i < 0 || i + 1 >= s.len() {
        None
    } else if s[i] == ':' && s[i + 1] == ':' {
        Some(i)
    } else {
        find_double_colon(s, i + 1)
    }
}

/// The groups written by the part of a text on one side of `::`; the side
/// may be empty. The last piece may be an IPv4 address where `v4_last`.
pub open spec fn side_groups(s: Seq<char>, v4_last: bool) -> Option<Seq<u16>> {
    if s.len() == 0 {
        Some(seq![])
    } else {
        pieces_groups(split_at_any(s, ':', ':'), v4_last)
    }
}

/// The eight groups that `s` writes in IPv6 text form: either eight groups
/// separated by colons, or groups before and after one `::` that stands for
/// at least one group of zeros. In both forms the last two groups may be
/// written as an IPv4 address in dotted-decimal form.
pub open spec fn text_groups(s: Seq<char>) -> Option<Seq<u16>> {
    match find_double_colon(s, 0) {
        None => match pieces_groups(split_at_any(s, ':', ':'), true) {
            Some(g) => if g.len() == 8 {
                Some(g)
            } else {
                None
            },
            None => None,
        },
        Some(i) => match (
            side_groups(s.subrange(0, i), false),
            side_groups(s.subrange(i + 2, s.len() as int), true),
        ) {
            (Some(h), Some(t)) => if h.len() + t.len() <= 7 {
                Some(h + Seq::new((8 - h.len() - t.len()) as nat, |j: int| 0u16) + t)
            } else {
                None
            },
            _ => None,
        },
    }
}

/// The address that `s` writes in IPv6 text form; `None` where `s` is not
/// such a text.
pub open spec fn parse_v6(s: Seq<char>) -> Option<u128> {
    match text_groups(s) {
        Some(g) => Some(groups_value(g)),
        None => None,
    }
}

/// Appends group `g` below the groups already in `v`.
pub fn push_group(v: u128, g: u16) -> (r: u128)
    ensures
        r == (v << 16u128) | (g as u128),
{
    (v << 16u128) | (g as u128)
}

/// Reads one group.
fn parse_group(p: &Vec<char>) -> (r: Option<u16>)
    ensures
        r == (if group_ok(p@) {
            Some(hex_value(p@) as u16)
        } else {
            None::<u16>
        }),
{
    if p.len() < 1 || p.len() > 4 {
        return None;
    }
    let mut v: u32 = 0;
    let mut i: usize = 0;
    while i < p.len()
        invariant
            0 <= i <= p.len() <= 4,
            all_hex_digits(p@.subrange(0, i as int)),
            v == hex_value(p@.subrange(0, i as int)),
            i == 0 ==> v < 1,
            i == 1 ==> v < 16,
            i == 2 ==> v < 256,
            i == 3 ==> v < 4096,
            i == 4 ==> v < 65536,
        decreases p.len() - i,
    {
        match hex_digit_of(p[i]) {
            None => {
                proof {
                    assert(!all_hex_digits(p@));
                }
                return None;
            },
            Some(d) => {
                proof {
                    assert(p@.subrange(0, i + 1).drop_last() == p@.subrange(0, i as int));
                }
                v = v * 16 + d;
                i = i + 1;
            },
        }
    }
    proof {
        assert(p@.subrange(0, p@.len() as int) == p@);
    }
    Some(v as u16)
}

/// Reads the groups of colon-separated pieces.
fn groups_of_pieces(ps: &Vec<Vec<char>>, v4_last: bool) -> (r: Option<Vec<u16>>)
    ensures
        match r {
            Some(g) => pieces_groups(ps@.map_values(|p: Vec<char>| p@), v4_last) == Some(g@),
            None => pieces_groups(ps@.map_values(|p: Vec<char>| p@), v4_last) is None,
        },
{
    let ghost views = ps@.map_values(|p: Vec<char>| p@);
    let mut g: Vec<u16> = Vec::new();
    if ps.len() == 0 {
        return Some(g);
    }
    let n = ps.len() - 1;
    let mut i: usize = 0;
    while i < n
        invariant
            0 <= i <= n,
            n + 1 == ps.len(),
            views == ps@.map_values(|p: Vec<char>| p@),
            pieces_groups(views.subrange(0, i as int), false) == Some(g@),
        decreases n - i,
    {
        proof {
            assert(views.subrange(0, i + 1).drop_last() == views.subrange(0, i as int));
            assert(views.subrange(0, i + 1).last() == ps@[i as int]@);
        }
        match parse_group(&ps[i]) {
            Some(v) => {
                g.push(v);
            },
            None => {
                proof {
                    assert(pieces_groups(views.subrange(0, i + 1), false) is None);
                    lemma_pieces_groups_prefix_none(views, i as int + 1, v4_last);
                }
                return None;
            },
        }
        i = i + 1;
    }
    proof {
        assert(views.drop_last() == views.subrange(0, n as int));
        assert(views.last() == ps@[n as int]@);
    }
    match parse_group(&ps[n]) {
        Some(v) => {
            g.push(v);
            Some(g)
        },
        None => {
            if v4_last {
                match parse_ipv4(&ps[n]) {
                    Some(v) => {
                        g.push((v >> 16u32) as u16);
                        g.push(v as u16);
                        Some(g)
                    },
                    None => None,
                }
            } else {
                None
            }
        },
    }
}

/// Where a proper prefix of the pieces writes no groups, neither do the
/// pieces.
proof fn lemma_pieces_groups_prefix_none(ps: Seq<Seq<char>>, k: int, v4_last: bool)
    requires
        0 < k < ps.len(),
        pieces_groups(ps.subrange(0, k), false) is None,
    ensures
        pieces_groups(ps, v4_last) is None,
    decreases ps.len() - k,
{
    assert(ps.subrange(0, k + 1).drop_last() == ps.subrange(0, k));
    if k + 1 == ps.len() {
        assert(ps.subrange(0, k + 1) == ps);
    } else {
        lemma_pieces_groups_prefix_none(ps, k + 1, v4_last);
    }
}

/// The index of the first `::` in `s`.
fn find_dc(s: &Vec<char>) -> (r: Option<usize>)
    ensures
        match r {
            Some(i) => i + 1 < s.len() && find_double_colon(s@, 0) == Some(i as int),
            None => find_double_colon(s@, 0) is None,
        },
{
    let mut i: usize = 0;
    while i < s.len()
        invariant
            0 <= i <= s.len(),
            find_double_colon(s@, 0) == find_double_colon(s@, i as int),
        decreases s.len() - i,
    {
        if i + 1 < s.len() && s[i] == ':' && s[i + 1] == ':' {
            return Some(i);
        }
        i = i + 1;
    }
    None
}

/// Reads the groups of one side of `::`.
fn side_groups_of(s: &Vec<char>, v4_last: bool) -> (r: Option<Vec<u16>>)
    ensures
        match r {
            Some(g) => side_groups(s@, v4_last) == Some(g@),
            None => side_groups(s@, v4_last) is None,
        },
{
    if s.len() == 0 {
        return Some(Vec::new());
    }
    let ps = split_chars(s, ':', ':');
    proof {
        assert(ps@.map_values(|p: Vec<char>| p@) == split_at_any(s@, ':', ':'));
    }
    groups_of_pieces(&ps, v4_last)
}

/// The value of groups `g`.
fn value_of_groups(g: &Vec<u16>) -> (r: u128)
    ensures
        r == groups_value(g@),
{
    let mut v: u128 = 0;
    let mut i: usize = 0;
    while i < g.len()
        invariant
            0 <= i <= g.len(),
            v == groups_value(g@.subrange(0, i as int)),
        decreases g.len() - i,
    {
        proof {
            assert(g@.subrange(0, i + 1).drop_last() == g@.subrange(0, i as int));
        }
        v = push_group(v, g[i]);
        i = i + 1;
    }
    proof {
        assert(g@.subrange(0, g@.len() as int) == g@);
    }
    v
}

/// Reads an address in IPv6 text form.
pub fn parse_ipv6(s: &Vec<char>) -> (r: Option<u128>)
    ensures
        r == parse_v6(s@),
{
    match find_dc(s) {
        None => {
            let ps = split_chars(s, ':', ':');
            proof {
                assert(ps@.map_values(|p: Vec<char>| p@) == split_at_any(s@, ':', ':'));
            }
            match groups_of_pieces(&ps, true) {
                Some(g) => if g.len() == 8 {
                    Some(value_of_groups(&g))
                } else {
                    None
                },
                None => None,
            }
        },
        Some(i) => {
            let head = copy_range(s, 0, i);
            let tail = copy_range(s, i + 2, s.len());
            match (side_groups_of(&head, false), side_groups_of(&tail, true)) {
                (Some(h), Some(t)) => {
                    if h.len() > 7 || t.len() > 7 - h.len() {
                        return None;
                    }
                    let zeros: usize = 8 - h.len() - t.len();
                    let mut g: Vec<u16> = h;
                    let ghost hv = g@;
                    let mut j: usize = 0;
                    while j < zeros
                        invariant
                            0 <= j <= zeros,
                            g@ == hv + Seq::new(j as nat, |k: int| 0u16),
                        decreases zeros - j,
                    {
                        g.push(0u16);
                        j = j + 1;
                        assert(g@ == hv + Seq::new(j as nat, |k: int| 0u16));
                    }
                    let mut k: usize = 0;
                    let ghost mid = g@;
                    while k < t.len()
                        invariant
                            0 <= k <= t.len(),
                            g@ == mid + t@.subrange(0, k as int),
                        decreases t.len() - k,
                    {
                        g.push(t[k]);
                        k = k + 1;
                        assert(g@ == mid + t@.subrange(0, k as int));
                    }
                    proof {
                        assert(t@.subrange(0, t@.len() as int) == t@);
                    }
                    Some(value_of_groups(&g))
                },
                _ => None,
            }
        },
    }
}


/// Scans the first `n` groups of `gs` for runs of zero groups. Gives the
/// longest run so far (the first of several equally long) and the run that
/// the scan is in, each as a start and a length.
pub open spec fn zero_scan(gs: Seq<u16>, n: nat) -> (int, int, int, int)
    decreases n,
{
    if n == 0 {
        (0, 0, 0, 0)
    } else {
        let (bs, bl, cs, cl) = zero_scan(gs, (n - 1) as nat);
        if gs[n - 1] == 0 {
            let cs2 = if cl == 0 { n - 1 } else { cs };
            let cl2 = cl + 1;
            if cl2 > bl {
                (cs2, cl2, cs2, cl2)
            } else {
                (bs, bl, cs2, cl2)
            }
        } else {
            (bs, bl, 0, 0)
        }
    }
}

/// An IPv4-mapped address, `::ffff:a.b.c.d`.
pub open spec fn is_v4_mapped(a: u128) -> bool {
    a >> 32u128 == 0xffff
}

/// The hexadecimal text of each group.
pub open spec fn hex_pieces(gs: Seq<u16>) -> Seq<Seq<char>> {
    gs.map_values(|g: u16| hex_text(g as nat))
}

/// The text of `a` in IPv6 form. An IPv4-mapped address is written
/// `::ffff:` and its IPv4 part in dotted-decimal form. Otherwise the groups
/// are written in lower-case hexadecimal without leading zeros, separated by
/// colons, and the first longest run of two or more zero groups is written
/// `::`.
pub open spec fn v6_text(a: u128) -> Seq<char> {
    if is_v4_mapped(a) {
        seq![':', ':', 'f', 'f', 'f', 'f', ':'] + v4_text(a as u32)
    } else {
        let gs = groups_of(a);
        let (bs, bl, cs, cl) = zero_scan(gs, 8);
        if bl > 1 {
            join_with(hex_pieces(gs.subrange(0, bs)), ':') + seq![':', ':'] + join_with(
                hex_pieces(gs.subrange(bs + bl, 8)),
                ':',
            )
        } else {
            join_with(hex_pieces(gs), ':')
        }
    }
}

/// The runs that `zero_scan` reports lie within the groups scanned and hold
/// only zeros.
pub proof fn lemma_zero_scan(gs: Seq<u16>, n: nat)
    requires
        n <= gs.len(),
    ensures
        ({
            let (bs, bl, cs, cl) = zero_scan(gs, n);
            &&& 0 <= bs && 0 <= bl && bs + bl <= n
            &&& 0 <= cs && 0 <= cl && cs + cl <= n
            &&& cl > 0 ==> cs + cl == n
            &&& bl >= cl
            &&& forall|j: int| bs <= j < bs + bl ==> gs[j] == 0
            &&& forall|j: int| cs <= j < cs + cl ==> gs[j] == 0
        }),
    decreases n,
{
    if n > 0 {
        lemma_zero_scan(gs, (n - 1) as nat);
    }
}

/// Appends the texts of groups `gs[from..to]`, separated by colons.
fn push_groups(out: &mut Vec<char>, gs: &Vec<u16>, from: usize, to: usize)
    requires
        from <= to <= gs.len(),
    ensures
        final(out)@ == old(out)@ + join_with(hex_pieces(gs@.subrange(from as int, to as int)), ':'),
{
    let ghost start = old(out)@;
    let mut j: usize = from;
    while j < to
        invariant
            from <= j <= to <= gs.len(),
            out@ == start + join_with(hex_pieces(gs@.subrange(from as int, j as int)), ':'),
        decreases to - j,
    {
        let ghost before = hex_pieces(gs@.subrange(from as int, j as int));
        let ghost after = hex_pieces(gs@.subrange(from as int, j + 1));
        proof {
            assert(after.drop_last() == before);
            assert(after.last() == hex_text(gs@[j as int] as nat));
        }
        if j > from {
            out.push(':');
        }
        push_hex(out, gs[j] as u32);
        j = j + 1;
        proof {
            if before.len() == 0 {
                assert(after == seq![hex_text(gs@[j - 1] as nat)]);
            }
        }
    }
}

/// Appends the IPv6 text of `a`.
pub fn push_ipv6(out: &mut Vec<char>, a: u128)
    ensures
        final(out)@ == old(out)@ + v6_text(a),
{
    let ghost start = old(out)@;
    if a >> 32u128 == 0xffff {
        out.push(':');
        out.push(':');
        out.push('f');
        out.push('f');
        out.push('f');
        out.push('f');
        out.push(':');
        push_ipv4(out, a as u32);
        proof {
            assert(out@ == start + v6_text(a));
        }
        return;
    }
    let mut gs: Vec<u16> = Vec::new();
    let mut i: usize = 0;
    while i < 8
        invariant
            0 <= i <= 8,
            gs@ == groups_of(a).subrange(0, i as int),
        decreases 8 - i,
    {
        let shift: u128 = 112 - 16 * (i as u128);
        gs.push(((a >> shift) & 0xffff) as u16);
        i = i + 1;
        assert(gs@ == groups_of(a).subrange(0, i as int));
    }
    assert(gs@ == groups_of(a));
    let mut bs: usize = 0;
    let mut bl: usize = 0;
    let mut cs: usize = 0;
    let mut cl: usize = 0;
    let mut k: usize = 0;
    while k < 8
        invariant
            0 <= k <= 8,
            gs@ == groups_of(a),
            zero_scan(gs@, k as nat) == (bs as int, bl as int, cs as int, cl as int),
            bl <= k && cl <= k && bs <= k && cs <= k,
        decreases 8 - k,
    {
        if gs[k] == 0 {
            if cl == 0 {
                cs = k;
            }
            cl = cl + 1;
            if cl > bl {
                bs = cs;
                bl = cl;
            }
        } else {
            cs = 0;
            cl = 0;
        }
        k = k + 1;
    }
    proof {
        lemma_zero_scan(gs@, 8);
    }
    if bl > 1 {
        push_groups(out, &gs, 0, bs);
        out.push(':');
        out.push(':');
        push_groups(out, &gs, bs + bl, 8);
    } else {
        push_groups(out, &gs, 0, 8);
        proof {
            assert(gs@.subrange(0, 8) == gs@);
        }
    }
}


/// Appends group `g` below the bits of `v`.
pub open spec fn shift_in(v: u128, g: u16) -> u128 {
    (v << 16u128) | (g as u128)
}

/// The value of eight groups, written out.
pub open spec fn nest8(g: Seq<u16>) -> u128 {
    let v1 = shift_in(g[0] as u128, g[1]);
    let v2 = shift_in(v1, g[2]);
    let v3 = shift_in(v2, g[3]);
    let v4 = shift_in(v3, g[4]);
    let v5 = shift_in(v4, g[5]);
    let v6 = shift_in(v5, g[6]);
    shift_in(v6, g[7])
}

/// The value of eight groups unfolds to `nest8`.
proof fn lemma_groups_value8(g: Seq<u16>)
    requires
        g.len() == 8,
    ensures
        groups_value(g) == nest8(g),
{
    let e = Seq::<u16>::empty();
    assert(g.subrange(0, 1).drop_last() == e);
    assert(g.subrange(0, 2).drop_last() == g.subrange(0, 1));
    assert(g.subrange(0, 3).drop_last() == g.subrange(0, 2));
    assert(g.subrange(0, 4).drop_last() == g.subrange(0, 3));
    assert(g.subrange(0, 5).drop_last() == g.subrange(0, 4));
    assert(g.subrange(0, 6).drop_last() == g.subrange(0, 5));
    assert(g.subrange(0, 7).drop_last() == g.subrange(0, 6));
    assert(g.drop_last() == g.subrange(0, 7));
    assert(forall|x: u128| (0u128 << 16u128) | x == x) by (bit_vector);
    assert(groups_value(e) == 0);
    assert(g.subrange(0, 1).last() == g[0]);
    assert(groups_value(g.subrange(0, 1)) == g[0] as u128);
    let v1 = shift_in(g[0] as u128, g[1]);
    assert(groups_value(g.subrange(0, 2)) == v1);
    let v2 = shift_in(v1, g[2]);
    assert(groups_value(g.subrange(0, 3)) == v2);
    let v3 = shift_in(v2, g[3]);
    assert(groups_value(g.subrange(0, 4)) == v3);
    let v4 = shift_in(v3, g[4]);
    assert(groups_value(g.subrange(0, 5)) == v4);
    let v5 = shift_in(v4, g[5]);
    assert(groups_value(g.subrange(0, 6)) == v5);
    let v6 = shift_in(v5, g[6]);
    assert(groups_value(g.subrange(0, 7)) == v6);
}

/// Eight groups cut from `a` give `a` back.
proof fn lemma_nest8_bits(a: u128, g: Seq<u16>)
    requires
        g.len() == 8,
        forall|i: int| 0 <= i < 8 ==> #[trigger] g[i] == ((a >> (112 - 16 * i) as u128) & 0xffff) as u16,
    ensures
        nest8(g) == a,
{
    let (g0, g1, g2, g3) = (g[0], g[1], g[2], g[3]);
    let (g4, g5, g6, g7) = (g[4], g[5], g[6], g[7]);
    assert(g0 == ((a >> 112u128) & 0xffff) as u16);
    assert(g1 == ((a >> 96u128) & 0xffff) as u16);
    assert(g2 == ((a >> 80u128) & 0xffff) as u16);
    assert(g3 == ((a >> 64u128) & 0xffff) as u16);
    assert(g4 == ((a >> 48u128) & 0xffff) as u16);
    assert(g5 == ((a >> 32u128) & 0xffff) as u16);
    assert(g6 == ((a >> 16u128) & 0xffff) as u16);
    assert(g7 == ((a >> 0u128) & 0xffff) as u16);
    let v1 = shift_in(g0 as u128, g1);
    let v2 = shift_in(v1, g2);
    let v3 = shift_in(v2, g3);
    let v4 = shift_in(v3, g4);
    let v5 = shift_in(v4, g5);
    let v6 = shift_in(v5, g6);
    let v7 = shift_in(v6, g7);
    assert(v7 == a) by (bit_vector)
        requires
            g0 == ((a >> 112u128) & 0xffff) as u16,
            g1 == ((a >> 96u128) & 0xffff) as u16,
            g2 == ((a >> 80u128) & 0xffff) as u16,
            g3 == ((a >> 64u128) & 0xffff) as u16,
            g4 == ((a >> 48u128) & 0xffff) as u16,
            g5 == ((a >> 32u128) & 0xffff) as u16,
            g6 == ((a >> 16u128) & 0xffff) as u16,
            g7 == ((a >> 0u128) & 0xffff) as u16,
            v1 == ((g0 as u128) << 16u128) | (g1 as u128),
            v2 == (v1 << 16u128) | (g2 as u128),
            v3 == (v2 << 16u128) | (g3 as u128),
            v4 == (v3 << 16u128) | (g4 as u128),
            v5 == (v4 << 16u128) | (g5 as u128),
            v6 == (v5 << 16u128) | (g6 as u128),
            v7 == (v6 << 16u128) | (g7 as u128),
    ;
}

/// The groups of an address give the address back.
pub proof fn lemma_groups_of_value(a: u128)
    ensures
        groups_value(groups_of(a)) == a,
{
    lemma_groups_value8(groups_of(a));
    lemma_nest8_bits(a, groups_of(a));
}

/// The hexadecimal texts of groups read back as those groups.
proof fn lemma_pieces_groups_hex(g: Seq<u16>, v4_last: bool)
    ensures
        pieces_groups(hex_pieces(g), v4_last) == Some(g),
    decreases g.len(),
{
    if g.len() > 0 {
        assert(hex_pieces(g).drop_last() == hex_pieces(g.drop_last()));
        lemma_pieces_groups_hex(g.drop_last(), false);
        let x = g.last();
        lemma_hex_text(x as nat);
        assert(hex_pieces(g).last() == hex_text(x as nat));
        assert(g.drop_last().push(x) == g);
    }
}

/// The hexadecimal text of a group is non-empty and free of colons and of
/// the network separators.
proof fn lemma_hex_pieces_plain(g: Seq<u16>)
    ensures
        forall|i: int| 0 <= i < hex_pieces(g).len() ==> free_of(#[trigger] hex_pieces(g)[i], ':', ':')
            && hex_pieces(g)[i].len() > 0 && free_of(hex_pieces(g)[i], '/', ' ')
            && free_of(hex_pieces(g)[i], '.', '.') && free_of(hex_pieces(g)[i], '+', '+'),
{
    assert forall|i: int| 0 <= i < hex_pieces(g).len() implies free_of(#[trigger] hex_pieces(g)[i], ':', ':')
        && hex_pieces(g)[i].len() > 0 && free_of(hex_pieces(g)[i], '/', ' ')
        && free_of(hex_pieces(g)[i], '.', '.') && free_of(hex_pieces(g)[i], '+', '+') by {
        lemma_hex_text(g[i] as nat);
        let t = hex_pieces(g)[i];
        assert(t == hex_text(g[i] as nat));
        assert forall|k: int| 0 <= k < t.len() implies t[k] != ':' && t[k] != '/' && t[k] != ' '
            && t[k] != '.' && t[k] != '+' by {
            assert(is_hex_digit(t[k]));
        }
    }
}

/// Text without two colons in a row has no `::` to find.
proof fn lemma_find_none(s: Seq<char>, i: int)
    requires
        no_double_colon(s),
        0 <= i,
    ensures
        find_double_colon(s, i) is None,
    decreases s.len() - i,
{
    if i + 1 < s.len() {
        assert(!(s[i] == ':' && s[i + 1] == ':'));
        lemma_find_none(s, i + 1);
    }
}

/// The first `::` of `x + y` is where `y` starts, when `x` holds none and
/// does not end in a colon and `y` starts with `::`.
proof fn lemma_find_at(x: Seq<char>, y: Seq<char>, i: int)
    requires
        no_double_colon(x),
        x.len() == 0 || x.last() != ':',
        y.len() >= 2,
        y[0] == ':',
        y[1] == ':',
        0 <= i <= x.len(),
    ensures
        find_double_colon(x + y, i) == Some(x.len() as int),
    decreases x.len() - i,
{
    let s = x + y;
    if i < x.len() {
        if i + 1 < x.len() {
            assert(s[i] == x[i] && s[i + 1] == x[i + 1]);
            assert(!(x[i] == ':' && x[i + 1] == ':'));
        } else {
            assert(s[i] == x.last());
        }
        lemma_find_at(x, y, i + 1);
    } else {
        assert(s[i] == y[0] && s[i + 1] == y[1]);
    }
}

/// One side of `::` written as hexadecimal groups reads back as them.
proof fn lemma_side_groups_hex(g: Seq<u16>, v4_last: bool)
    ensures
        side_groups(join_with(hex_pieces(g), ':'), v4_last) == Some(g),
{
    lemma_hex_pieces_plain(g);
    lemma_join_no_double_colon(hex_pieces(g));
    if g.len() == 0 {
        assert(g == Seq::<u16>::empty());
    } else {
        lemma_split_join(hex_pieces(g), ':', ':');
        lemma_pieces_groups_hex(g, v4_last);
    }
}

/// The IPv6 text of an address reads back as that address; it holds a colon
/// and no `/` or space.
pub proof fn lemma_v6_round_trip(a: u128)
    ensures
        parse_v6(v6_text(a)) == Some(a),
        free_of(v6_text(a), '/', ' '),
        !free_of(v6_text(a), ':', ':'),
        v6_text(a).len() > 0,
        v6_text(a)[0] != '+',
{
    let gs = groups_of(a);
    lemma_zero_scan(gs, 8);
    if is_v4_mapped(a) {
        lemma_v6_mapped(a);
    } else if zero_scan(gs, 8).1 > 1 {
        lemma_v6_compressed(a);
    } else {
        lemma_v6_plain(a);
    }
}

/// The round trip for IPv4-mapped addresses.
proof fn lemma_v6_mapped(a: u128)
    requires
        is_v4_mapped(a),
    ensures
        parse_v6(v6_text(a)) == Some(a),
        free_of(v6_text(a), '/', ' '),
        !free_of(v6_text(a), ':', ':'),
        v6_text(a).len() > 0,
        v6_text(a)[0] != '+',
{
    let t = v6_text(a);
    let low = a as u32;
    lemma_v4_round_trip(low);
    let v4t = crate::ipv4_text::v4_text(low);
    let ffff = seq!['f', 'f', 'f', 'f'];
    assert(t[0] == ':' && t[1] == ':');
    assert(find_double_colon(t, 0) == Some(0int));
    assert(t.subrange(0, 0) == Seq::<char>::empty());
    let tail = t.subrange(2, t.len() as int);
    assert(free_of(v4t, ':', ':')) by {
        assert forall|i: int| 0 <= i < v4t.len() implies v4t[i] != ':' by {
            assert(crate::text::is_digit(v4t[i]) || v4t[i] == '.');
        }
    }
    assert(free_of(ffff, ':', ':'));
    let ps = seq![ffff, v4t];
    assert(ps.drop_last() == seq![ffff]);
    assert(join_with(seq![ffff], ':') == ffff);
    assert(tail == join_with(ps, ':'));
    lemma_split_join(ps, ':', ':');
    assert(tail.len() > 0);
    // The first piece is the group ffff.
    let e = Seq::<Seq<char>>::empty();
    assert(seq![ffff].drop_last() == e);
    assert(ffff.drop_last() == seq!['f', 'f', 'f']);
    assert(seq!['f', 'f', 'f'].drop_last() == seq!['f', 'f']);
    assert(seq!['f', 'f'].drop_last() == seq!['f']);
    assert(seq!['f'].drop_last() == Seq::<char>::empty());
    assert(hex_digit_value('f') == 15);
    assert(hex_value(Seq::<char>::empty()) == 0);
    assert(hex_value(seq!['f']) == 15);
    assert(hex_value(seq!['f', 'f']) == 255);
    assert(hex_value(seq!['f', 'f', 'f']) == 4095);
    assert(hex_value(ffff) == 0xffff);
    assert(pieces_groups(e, false) == Some(Seq::<u16>::empty()));
    assert(Seq::<u16>::empty().push(0xffffu16) == seq![0xffffu16]);
    assert(group_ok(ffff));
    assert(pieces_groups(seq![ffff], false) == Some(seq![0xffffu16]));
    // The last piece is the IPv4 part.
    assert(!all_hex_digits(v4t)) by {
        let k = crate::text::dec_text(crate::ipv4_text::octet(low, 0)).len() as int;
        crate::text::lemma_dec_text(crate::ipv4_text::octet(low, 0));
        assert(v4t[k] == '.');
    }
    let hi16 = (low >> 16u32) as u16;
    let lo16 = low as u16;
    assert(pieces_groups(ps, true) == Some(seq![0xffffu16, hi16, lo16]));
    let g = Seq::<u16>::empty() + Seq::new(5, |j: int| 0u16) + seq![0xffffu16, hi16, lo16];
    assert(text_groups(t) == Some(g));
    lemma_groups_value8(g);
    assert(g =~= seq![0u16, 0u16, 0u16, 0u16, 0u16, 0xffffu16, hi16, lo16]);
    let gm = seq![0u16, 0u16, 0u16, 0u16, 0u16, 0xffffu16, hi16, lo16];
    assert(a >> 32u128 == 0xffff);
    assert forall|i: int| 0 <= i < 8 implies #[trigger] gm[i] == ((a >> (112 - 16 * i) as u128)
        & 0xffff) as u16 by {
        let x = a;
        assert(x >> 32u128 == 0xffff ==> ((x >> 112u128) & 0xffff) as u16 == 0u16 && ((x >> 96u128)
            & 0xffff) as u16 == 0u16 && ((x >> 80u128) & 0xffff) as u16 == 0u16 && ((x >> 64u128)
            & 0xffff) as u16 == 0u16 && ((x >> 48u128) & 0xffff) as u16 == 0u16 && ((x >> 32u128)
            & 0xffff) as u16 == 0xffffu16) by (bit_vector);
        assert(((x as u32 >> 16u32) as u16) == ((x >> 16u128) & 0xffff) as u16 && ((x as u32)
            as u16) == ((x >> 0u128) & 0xffff) as u16) by (bit_vector);
    }
    lemma_nest8_bits(a, gm);
    // What the text holds.
    assert forall|i: int| 0 <= i < t.len() implies t[i] != '/' && t[i] != ' ' by {
        if i >= 7 {
            assert(t[i] == v4t[i - 7]);
            assert(crate::text::is_digit(v4t[i - 7]) || v4t[i - 7] == '.');
        }
    }
}

/// The round trip for addresses written with `::`.
proof fn lemma_v6_compressed(a: u128)
    requires
        !is_v4_mapped(a),
        zero_scan(groups_of(a), 8).1 > 1,
    ensures
        parse_v6(v6_text(a)) == Some(a),
        free_of(v6_text(a), '/', ' '),
        !free_of(v6_text(a), ':', ':'),
        v6_text(a).len() > 0,
        v6_text(a)[0] != '+',
{
    let t = v6_text(a);
    let gs = groups_of(a);
    lemma_groups_of_value(a);
    let (bs, bl, cs, cl) = zero_scan(gs, 8);
    lemma_zero_scan(gs, 8);
    let hg = gs.subrange(0, bs);
    let tg = gs.subrange(bs + bl, 8);
    let x = join_with(hex_pieces(hg), ':');
    let y = join_with(hex_pieces(tg), ':');
    lemma_hex_pieces_plain(hg);
    lemma_hex_pieces_plain(tg);
    lemma_join_no_double_colon(hex_pieces(hg));
    lemma_join_no_double_colon(hex_pieces(tg));
    let dy = seq![':', ':'] + y;
    assert(t == x + dy);
    lemma_find_at(x, dy, 0);
    assert(t.subrange(0, x.len() as int) == x);
    assert(t.subrange(x.len() as int + 2, t.len() as int) == y);
    lemma_side_groups_hex(hg, false);
    lemma_side_groups_hex(tg, true);
    let g = hg + Seq::new((8 - hg.len() - tg.len()) as nat, |j: int| 0u16) + tg;
    assert(g =~= gs);
    assert(text_groups(t) == Some(g));
    lemma_join_free(hex_pieces(hg), ':', '/', ' ');
    lemma_join_free(hex_pieces(tg), ':', '/', ' ');
    assert forall|i: int| 0 <= i < t.len() implies t[i] != '/' && t[i] != ' ' by {
        if i < x.len() {
            assert(t[i] == x[i]);
        } else if i >= x.len() + 2 {
            assert(t[i] == y[i - x.len() - 2]);
        }
    }
    assert(t[x.len() as int] == ':');
    if x.len() == 0 {
        assert(t[0] == ':');
    } else {
        lemma_join_free(hex_pieces(hg), ':', '+', '+');
        assert(t[0] == x[0]);
    }
}

/// The round trip for addresses written as eight groups.
proof fn lemma_v6_plain(a: u128)
    requires
        !is_v4_mapped(a),
        zero_scan(groups_of(a), 8).1 <= 1,
    ensures
        parse_v6(v6_text(a)) == Some(a),
        free_of(v6_text(a), '/', ' '),
        !free_of(v6_text(a), ':', ':'),
        v6_text(a).len() > 0,
        v6_text(a)[0] != '+',
{
    let t = v6_text(a);
    let gs = groups_of(a);
    lemma_groups_of_value(a);
    let (bs, bl, cs, cl) = zero_scan(gs, 8);
    lemma_zero_scan(gs, 8);
    let ps = hex_pieces(gs);
    lemma_hex_pieces_plain(gs);
    lemma_join_no_double_colon(ps);
    lemma_find_none(t, 0);
    lemma_split_join(ps, ':', ':');
    lemma_pieces_groups_hex(gs, true);
    assert(text_groups(t) == Some(gs));
    lemma_join_free(ps, ':', '/', ' ');
    let k = ps[0].len() as int;
    assert(ps.drop_last().drop_last().drop_last().drop_last().drop_last().drop_last().drop_last()
        == seq![ps[0]]);
    let i1 = seq![ps[0], ps[1]];
    assert(i1.drop_last() == seq![ps[0]]);
    assert(join_with(seq![ps[0]], ':') == ps[0]);
    assert(join_with(i1, ':') == ps[0] + seq![':'] + ps[1]);
    lemma_join_prefix(ps, 2);
    assert(ps.subrange(0, 2) == i1);
    assert(t[k] == join_with(i1, ':')[k]);
    assert(t[k] == ':');
    lemma_join_free(ps, ':', '+', '+');
    assert(t[0] != '+');
}

/// Text joined from the first `k` pieces starts the text joined from all.
proof fn lemma_join_prefix(ps: Seq<Seq<char>>, k: int)
    requires
        1 <= k <= ps.len(),
    ensures
        join_with(ps, ':').len() >= join_with(ps.subrange(0, k), ':').len(),
        forall|i: int| 0 <= i < join_with(ps.subrange(0, k), ':').len() ==> #[trigger] join_with(ps, ':')[i]
            == join_with(ps.subrange(0, k), ':')[i],
    decreases ps.len() - k,
{
    if k == ps.len() {
        assert(ps.subrange(0, k) == ps);
    } else {
        lemma_join_prefix(ps, k + 1);
        let a = ps.subrange(0, k + 1);
        assert(a.drop_last() == ps.subrange(0, k));
        assert(join_with(a, ':') == join_with(ps.subrange(0, k), ':') + seq![':'] + a.last());
    }
}

} // verus!
