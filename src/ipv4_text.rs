//! IPv4 addresses in dotted-decimal text.

use vstd::prelude::*;

use crate::text::{
    all_digits, all_digits_or, dec_text, dec_value, digit_of, free_of, is_digit, join_with,
    lemma_dec_text, lemma_split_free, lemma_split_join, push_dec, split_at_any, split_chars,
};

verus! {

/// An octet as dotted-decimal text writes it: one to three decimal digits,
/// no leading zero, at most 255.
pub open spec fn octet_ok(p: Seq<char>) -> bool {
    &&& 1 <= p.len() <= 3
    &&& all_digits(p)
    &&& (p.len() == 1 || p[0] != '0')
    &&& dec_value(p) <= 255
}

/// Octet `i` (0 to 3, first octet first) of `a`.
pub open spec fn octet(a: u32, i: int) -> nat {
    ((a >> (24 - 8 * i) as u32) & 0xff) as nat
}

/// The address whose octets are `a.b.c.d`.
pub open spec fn octets_value(a: nat, b: nat, c: nat, d: nat) -> u32 {
    (a * 0x100_0000 + b * 0x1_0000 + c * 0x100 + d) as u32
}

/// The address that `s` writes in dotted-decimal form: four octets
/// separated by dots. `None` where `s` is not such a text.
pub open spec fn parse_v4(s: Seq<char>) -> Option<u32> {
    let ps = split_at_any(s, '.', '.');
    if ps.len() == 4 && octet_ok(ps[0]) && octet_ok(ps[1]) && octet_ok(ps[2]) && octet_ok(ps[3]) {
        Some(octets_value(dec_value(ps[0]), dec_value(ps[1]), dec_value(ps[2]), dec_value(ps[3])))
    } else {
        None
    }
}

/// The dotted-decimal text of `a`.
pub open spec fn v4_text(a: u32) -> Seq<char> {
    dec_text(octet(a, 0)) + seq!['.'] + dec_text(octet(a, 1)) + seq!['.'] + dec_text(octet(a, 2))
        + seq!['.'] + dec_text(octet(a, 3))
}

/// Reads one octet.
fn parse_octet(p: &Vec<char>) -> (r: Option<u32>)
    ensures
        r == (if octet_ok(p@) {
            Some(dec_value(p@) as u32)
        } else {
            None::<u32>
        }),
{
    if p.len() < 1 || p.len() > 3 {
        return None;
    }
    if p.len() > 1 && p[0] == '0' {
        return None;
    }
    let mut v: u32 = 0;
    let mut i: usize = 0;
    while i < p.len()
        invariant
            0 <= i <= p.len() <= 3,
            all_digits(p@.subrange(0, i as int)),
            v == dec_value(p@.subrange(0, i as int)),
            v < 1000,
            i == 0 ==> v == 0,
            i == 1 ==> v < 10,
            i == 2 ==> v < 100,
        decreases p.len() - i,
    {
        match digit_of(p[i]) {
            None => {
                proof {
                    assert(!all_digits(p@));
                }
                return None;
            },
            Some(d) => {
                proof {
                    assert(p@.subrange(0, i + 1).drop_last() == p@.subrange(0, i as int));
                }
                v = v * 10 + d;
                i = i + 1;
            },
        }
    }
    proof {
        assert(p@.subrange(0, p@.len() as int) == p@);
    }
    if v > 255 {
        None
    } else {
        Some(v)
    }
}

/// Reads an address in dotted-decimal form.
pub fn parse_ipv4(s: &Vec<char>) -> (r: Option<u32>)
    ensures
        r == parse_v4(s@),
{
    let ps = split_chars(s, '.', '.');
    if ps.len() != 4 {
        return None;
    }
    let a = parse_octet(&ps[0]);
    let b = parse_octet(&ps[1]);
    let c = parse_octet(&ps[2]);
    let d = parse_octet(&ps[3]);
    match (a, b, c, d) {
        (Some(a), Some(b), Some(c), Some(d)) => Some(a * 0x100_0000 + b * 0x1_0000 + c * 0x100 + d),
        _ => None,
    }
}

/// Appends the dotted-decimal text of `a`.
pub fn push_ipv4(out: &mut Vec<char>, a: u32)
    ensures
        final(out)@ == old(out)@ + v4_text(a),
{
    let o0: u32 = (a >> 24u32) & 0xff;
    let o1: u32 = (a >> 16u32) & 0xff;
    let o2: u32 = (a >> 8u32) & 0xff;
    let o3: u32 = (a >> 0u32) & 0xff;
    let ghost start = out@;
    push_dec(out, o0);
    out.push('.');
    push_dec(out, o1);
    out.push('.');
    push_dec(out, o2);
    out.push('.');
    push_dec(out, o3);
    proof {
        assert(out@ == start + v4_text(a));
    }
}

/// The octets of an address give the address back.
pub proof fn lemma_octets_value(a: u32)
    ensures
        octets_value(octet(a, 0), octet(a, 1), octet(a, 2), octet(a, 3)) == a,
        octet(a, 0) <= 255,
        octet(a, 1) <= 255,
        octet(a, 2) <= 255,
        octet(a, 3) <= 255,
{
    assert(octet(a, 0) == ((a >> 24u32) & 0xff) as nat);
    assert(octet(a, 1) == ((a >> 16u32) & 0xff) as nat);
    assert(octet(a, 2) == ((a >> 8u32) & 0xff) as nat);
    assert(octet(a, 3) == ((a >> 0u32) & 0xff) as nat);
    assert(((a >> 24u32) & 0xff) * 0x100_0000 + ((a >> 16u32) & 0xff) * 0x1_0000 + ((a >> 8u32)
        & 0xff) * 0x100 + ((a >> 0u32) & 0xff) == a) by (bit_vector);
    assert((a >> 24u32) & 0xff <= 255 && (a >> 16u32) & 0xff <= 255 && (a >> 8u32) & 0xff <= 255 && (a
        >> 0u32) & 0xff <= 255) by (bit_vector);
}

/// The text of an address reads back as that address.
pub proof fn lemma_v4_round_trip(a: u32)
    ensures
        parse_v4(v4_text(a)) == Some(a),
        all_digits_or(v4_text(a), '.'),
        !all_digits(v4_text(a)),
        v4_text(a).len() > 0,
        v4_text(a)[0] != '+',
        free_of(v4_text(a), '/', ' '),
{
    lemma_octets_value(a);
    let t0 = dec_text(octet(a, 0));
    let t1 = dec_text(octet(a, 1));
    let t2 = dec_text(octet(a, 2));
    let t3 = dec_text(octet(a, 3));
    lemma_dec_text(octet(a, 0));
    lemma_dec_text(octet(a, 1));
    lemma_dec_text(octet(a, 2));
    lemma_dec_text(octet(a, 3));
    let ps = seq![t0, t1, t2, t3];
    assert(ps.drop_last() == seq![t0, t1, t2]);
    assert(seq![t0, t1, t2].drop_last() == seq![t0, t1]);
    assert(seq![t0, t1].drop_last() == seq![t0]);
    assert(join_with(seq![t0], '.') == t0);
    assert(join_with(seq![t0, t1], '.') == t0 + seq!['.'] + t1);
    assert(join_with(seq![t0, t1, t2], '.') == t0 + seq!['.'] + t1 + seq!['.'] + t2);
    assert(join_with(ps, '.') == v4_text(a));
    assert forall|i: int| 0 <= i < ps.len() implies free_of(#[trigger] ps[i], '.', '.') by {
        assert(all_digits(ps[i]));
    }
    lemma_split_join(ps, '.', '.');
    assert forall|i: int| 0 <= i < v4_text(a).len() implies is_digit(#[trigger] v4_text(a)[i]) || v4_text(a)[i] == '.' by {
        let t = v4_text(a);
        let l0 = t0.len() as int;
        let l1 = l0 + 1 + t1.len();
        let l2 = l1 + 1 + t2.len();
        if i < l0 {
            assert(t[i] == t0[i]);
        } else if i == l0 {
        } else if i < l1 {
            assert(t[i] == t1[i - l0 - 1]);
        } else if i == l1 {
        } else if i < l2 {
            assert(t[i] == t2[i - l1 - 1]);
        } else if i == l2 {
        } else {
            assert(t[i] == t3[i - l2 - 1]);
        }
    }
    assert(v4_text(a)[t0.len() as int] == '.');
    assert(v4_text(a)[0] == t0[0]);
    assert forall|i: int| 0 <= i < v4_text(a).len() implies v4_text(a)[i] != '/' && v4_text(a)[i] != ' ' by {
        assert(is_digit(v4_text(a)[i]) || v4_text(a)[i] == '.');
    }
}

/// Text that reads as an IPv4 address holds only digits and dots.
pub proof fn lemma_parse_v4_chars(s: Seq<char>)
    requires
        parse_v4(s) is Some,
    ensures
        free_of(s, ':', ':'),
{
    let ps = split_at_any(s, '.', '.');
    assert forall|i: int| 0 <= i < ps.len() implies free_of(#[trigger] ps[i], ':', ':') by {
        assert(octet_ok(ps[i]));
        assert forall|k: int| 0 <= k < ps[i].len() implies ps[i][k] != ':' by {
            assert(is_digit(ps[i][k]));
        }
    }
    lemma_split_free(s, '.', '.', ':', ':');
}

} // verus!
