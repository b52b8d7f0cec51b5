//! Text helpers: splitting and joining at separators, decimal and
//! hexadecimal numerals, and moving between `str`, `String` and characters.

use vstd::prelude::*;

verus! {

/// Splits `s` at every character equal to `a` or `b`; the separators are
/// dropped. There is always at least one piece.
pub open spec fn split_at_any(s: Seq<char>, a: char, b: char) -> Seq<Seq<char>>
    decreases s.len(),
{
    if s.len() == 0 {
        seq![seq![]]
    } else {
        let init = split_at_any(s.drop_last(), a, b);
        let c = s.last();
        if c == a || c == b {
            init.push(seq![])
        } else {
            init.update(init.len() - 1, init.last().push(c))
        }
    }
}

/// The pieces of `ps` with `sep` between each two.
pub open spec fn join_with(ps: Seq<Seq<char>>, sep: char) -> Seq<char>
    decreases ps.len(),
{
    if ps.len() == 0 {
        seq![]
    } else if ps.len() == 1 {
        ps[0]
    } else {
        join_with(ps.drop_last(), sep) + seq![sep] + ps.last()
    }
}

/// No character of `s` is `a` or `b`.
pub open spec fn free_of(s: Seq<char>, a: char, b: char) -> bool {
    forall|i: int| 0 <= i < s.len() ==> s[i] != a && s[i] != b
}

/// A split has at least one piece.
pub proof fn lemma_split_len(s: Seq<char>, a: char, b: char)
    ensures
        split_at_any(s, a, b).len() >= 1,
    decreases s.len(),
{
    if s.len() > 0 {
        lemma_split_len(s.drop_last(), a, b);
    }
}

/// Text free of separators extends the last piece.
pub proof fn lemma_split_append_plain(x: Seq<char>, y: Seq<char>, a: char, b: char)
    requires
        free_of(y, a, b),
    ensures
        split_at_any(x + y, a, b) == split_at_any(x, a, b).update(
            split_at_any(x, a, b).len() - 1,
            split_at_any(x, a, b).last() + y,
        ),
    decreases y.len(),
{
    lemma_split_len(x, a, b);
    if y.len() == 0 {
        assert(x + y == x);
        assert(split_at_any(x, a, b).last() + y == split_at_any(x, a, b).last());
        assert(split_at_any(x, a, b).update(
            split_at_any(x, a, b).len() - 1,
            split_at_any(x, a, b).last(),
        ) == split_at_any(x, a, b));
    } else {
        let y0 = y.drop_last();
        lemma_split_append_plain(x, y0, a, b);
        assert((x + y).drop_last() == x + y0);
        assert((x + y).last() == y.last());
        assert(split_at_any(x, a, b).last() + y0 + seq![y.last()] == split_at_any(x, a, b).last() + y);
        assert(y0.push(y.last()) == y);
        assert((split_at_any(x, a, b).last() + y0).push(y.last()) == split_at_any(x, a, b).last() + y);
    }
}

/// Splitting text joined from separator-free pieces gives the pieces back.
pub proof fn lemma_split_join(ps: Seq<Seq<char>>, sep: char, other: char)
    requires
        ps.len() >= 1,
        forall|i: int| 0 <= i < ps.len() ==> free_of(#[trigger] ps[i], sep, other),
    ensures
        split_at_any(join_with(ps, sep), sep, other) == ps,
        split_at_any(join_with(ps, sep), other, sep) == ps,
    decreases ps.len(),
{
    if ps.len() == 1 {
        let e = Seq::<char>::empty();
        lemma_split_append_plain(e, ps[0], sep, other);
        lemma_split_append_plain(e, ps[0], other, sep);
        assert(e + ps[0] == ps[0]);
        assert(split_at_any(e, sep, other) == seq![e]);
        assert(split_at_any(e, other, sep) == seq![e]);
        assert(seq![e].update(0, e + ps[0]) == ps);
    } else {
        let init = ps.drop_last();
        assert forall|i: int| 0 <= i < init.len() implies free_of(#[trigger] init[i], sep, other) by {
            assert(init[i] == ps[i]);
        }
        lemma_split_join(init, sep, other);
        let x = join_with(init, sep) + seq![sep];
        assert(x.drop_last() == join_with(init, sep));
        assert(split_at_any(x, sep, other) == init.push(seq![]));
        assert(split_at_any(x, other, sep) == init.push(seq![]));
        assert(free_of(ps.last(), sep, other));
        lemma_split_append_plain(x, ps.last(), sep, other);
        lemma_split_append_plain(x, ps.last(), other, sep);
        let e = Seq::<char>::empty();
        assert(e + ps.last() == ps.last());
        assert(init.push(e).update(init.len() as int, e + ps.last()) == ps);
    }
}

/// `s` holds no two colons in a row.
pub open spec fn no_double_colon(s: Seq<char>) -> bool {
    forall|i: int| 0 <= i < s.len() - 1 ==> !(#[trigger] s[i] == ':' && s[i + 1] == ':')
}

/// Text joined with colons from non-empty pieces free of colons has no two
/// colons in a row, and neither starts nor ends with a colon.
pub proof fn lemma_join_no_double_colon(ps: Seq<Seq<char>>)
    requires
        forall|i: int| 0 <= i < ps.len() ==> free_of(#[trigger] ps[i], ':', ':') && ps[i].len() > 0,
    ensures
        no_double_colon(join_with(ps, ':')),
        ps.len() > 0 ==> join_with(ps, ':').len() > 0,
        ps.len() > 0 ==> join_with(ps, ':')[0] != ':',
        ps.len() > 0 ==> join_with(ps, ':').last() != ':',
    decreases ps.len(),
{
    if ps.len() == 1 {
        assert(free_of(ps[0], ':', ':'));
    } else if ps.len() > 1 {
        let init = ps.drop_last();
        assert forall|i: int| 0 <= i < init.len() implies free_of(#[trigger] init[i], ':', ':')
            && init[i].len() > 0 by {
            assert(init[i] == ps[i]);
        }
        lemma_join_no_double_colon(init);
        let x = join_with(init, ':');
        let y = ps.last();
        assert(free_of(ps[ps.len() - 1], ':', ':'));
        let j = join_with(ps, ':');
        assert(j == x + seq![':'] + y);
        assert forall|i: int| 0 <= i < j.len() - 1 implies !(#[trigger] j[i] == ':' && j[i + 1] == ':') by {
            if i < x.len() - 1 {
                assert(j[i] == x[i] && j[i + 1] == x[i + 1]);
            } else if i == x.len() - 1 {
                assert(j[i] == x.last());
            } else if i == x.len() {
                assert(j[i + 1] == y[0]);
            } else {
                assert(j[i] == y[i - x.len() - 1]);
            }
        }
        assert(j[0] == x[0]);
        assert(j.last() == y.last());
    }
}

/// Joined pieces free of `a` and `b`, with a separator that is neither,
/// are free of `a` and `b`.
pub proof fn lemma_join_free(ps: Seq<Seq<char>>, sep: char, a: char, b: char)
    requires
        sep != a && sep != b,
        forall|i: int| 0 <= i < ps.len() ==> free_of(#[trigger] ps[i], a, b),
    ensures
        free_of(join_with(ps, sep), a, b),
    decreases ps.len(),
{
    if ps.len() == 1 {
        assert(free_of(ps[0], a, b));
    } else if ps.len() > 1 {
        let init = ps.drop_last();
        assert forall|i: int| 0 <= i < init.len() implies free_of(#[trigger] init[i], a, b) by {
            assert(init[i] == ps[i]);
        }
        lemma_join_free(init, sep, a, b);
        let x = join_with(init, sep);
        let y = ps.last();
        assert(free_of(ps[ps.len() - 1], a, b));
        let j = join_with(ps, sep);
        assert forall|i: int| 0 <= i < j.len() implies j[i] != a && j[i] != b by {
            if i < x.len() {
                assert(j[i] == x[i]);
            } else if i > x.len() {
                assert(j[i] == y[i - x.len() - 1]);
            }
        }
    }
}

/// Where every piece of a split is free of `c` and `d`, and neither
/// separator is, so is the text.
pub proof fn lemma_split_free(s: Seq<char>, a: char, b: char, c: char, d: char)
    requires
        a != c && a != d && b != c && b != d,
        forall|i: int| 0 <= i < split_at_any(s, a, b).len() ==> free_of(
            #[trigger] split_at_any(s, a, b)[i],
            c,
            d,
        ),
    ensures
        free_of(s, c, d),
    decreases s.len(),
{
    if s.len() > 0 {
        let init = split_at_any(s.drop_last(), a, b);
        lemma_split_len(s.drop_last(), a, b);
        let ch = s.last();
        if ch == a || ch == b {
            assert forall|i: int| 0 <= i < init.len() implies free_of(#[trigger] init[i], c, d) by {
                assert(split_at_any(s, a, b)[i] == init[i]);
            }
        } else {
            assert forall|i: int| 0 <= i < init.len() implies free_of(#[trigger] init[i], c, d) by {
                if i == init.len() - 1 {
                    let p = split_at_any(s, a, b)[i];
                    assert(p == init.last().push(ch));
                    assert(free_of(p, c, d));
                    assert forall|k: int| 0 <= k < init[i].len() implies init[i][k] != c && init[i][k]
                        != d by {
                        assert(init[i][k] == p[k]);
                    }
                } else {
                    assert(split_at_any(s, a, b)[i] == init[i]);
                }
            }
            let p = split_at_any(s, a, b)[init.len() - 1];
            assert(free_of(p, c, d));
            assert(p.last() == ch);
        }
        lemma_split_free(s.drop_last(), a, b, c, d);
        assert forall|i: int| 0 <= i < s.len() implies s[i] != c && s[i] != d by {
            if i < s.len() - 1 {
                assert(s[i] == s.drop_last()[i]);
            }
        }
    }
}

/// Splits `s` at every character equal to `a` or `b`.
pub fn split_chars(s: &Vec<char>, a: char, b: char) -> (r: Vec<Vec<char>>)
    ensures
        r.len() >= 1,
        r@.len() == split_at_any(s@, a, b).len(),
        forall|i: int| 0 <= i < r.len() ==> #[trigger] r@[i]@ == split_at_any(s@, a, b)[i],
{
    let mut done: Vec<Vec<char>> = Vec::new();
    let mut cur: Vec<char> = Vec::new();
    let mut i: usize = 0;
    while i < s.len()
        invariant
            0 <= i <= s.len(),
            done@.len() + 1 == split_at_any(s@.subrange(0, i as int), a, b).len(),
            forall|j: int|
                0 <= j < done@.len() ==> #[trigger] done@[j]@ == split_at_any(
                    s@.subrange(0, i as int),
                    a,
                    b,
                )[j],
            cur@ == split_at_any(s@.subrange(0, i as int), a, b).last(),
        decreases s.len() - i,
    {
        let c = s[i];
        proof {
            lemma_split_len(s@.subrange(0, i as int), a, b);
            assert(s@.subrange(0, i + 1).drop_last() == s@.subrange(0, i as int));
            assert(s@.subrange(0, i + 1).last() == c);
        }
        if c == a || c == b {
            done.push(cur);
            cur = Vec::new();
        } else {
            cur.push(c);
        }
        i = i + 1;
    }
    proof {
        assert(s@.subrange(0, s@.len() as int) == s@);
        lemma_split_len(s@, a, b);
    }
    done.push(cur);
    done
}

/// A decimal digit.
pub open spec fn is_digit(c: char) -> bool {
    '0' <= c <= '9'
}

/// The value of decimal digit `c`.
pub open spec fn digit_value(c: char) -> nat {
    (c as nat - '0' as nat) as nat
}

/// A hexadecimal digit, in either case.
pub open spec fn is_hex_digit(c: char) -> bool {
    ('0' <= c <= '9') || ('a' <= c <= 'f') || ('A' <= c <= 'F')
}

/// The value of hexadecimal digit `c`.
pub open spec fn hex_digit_value(c: char) -> nat {
    if '0' <= c <= '9' {
        (c as nat - '0' as nat) as nat
    } else if 'a' <= c <= 'f' {
        (c as nat - 'a' as nat + 10) as nat
    } else {
        (c as nat - 'A' as nat + 10) as nat
    }
}

/// All characters of `s` are decimal digits.
pub open spec fn all_digits(s: Seq<char>) -> bool {
    forall|i: int| 0 <= i < s.len() ==> is_digit(#[trigger] s[i])
}

/// All characters of `s` are hexadecimal digits.
pub open spec fn all_hex_digits(s: Seq<char>) -> bool {
    forall|i: int| 0 <= i < s.len() ==> is_hex_digit(#[trigger] s[i])
}

/// Every character of `s` is a decimal digit or `sep`.
pub open spec fn all_digits_or(s: Seq<char>, sep: char) -> bool {
    forall|i: int| 0 <= i < s.len() ==> is_digit(#[trigger] s[i]) || s[i] == sep
}

/// The value of the decimal numeral `s`.
pub open spec fn dec_value(s: Seq<char>) -> nat
    decreases s.len(),
{
    if s.len() == 0 {
        0
    } else {
        dec_value(s.drop_last()) * 10 + digit_value(s.last())
    }
}

/// The value of the hexadecimal numeral `s`.
pub open spec fn hex_value(s: Seq<char>) -> nat
    decreases s.len(),
{
    if s.len() == 0 {
        0
    } else {
        hex_value(s.drop_last()) * 16 + hex_digit_value(s.last())
    }
}

/// The decimal digit for `d` (below ten).
pub open spec fn dec_char(d: nat) -> char {
    (d + '0' as nat) as char
}

/// The lower-case hexadecimal digit for `d` (below sixteen).
pub open spec fn hex_char(d: nat) -> char {
    if d < 10 {
        (d + '0' as nat) as char
    } else {
        (d - 10 + 'a' as nat) as char
    }
}

/// The decimal numeral of `n`, without leading zeros.
pub open spec fn dec_text(n: nat) -> Seq<char>
    decreases n,
{
    if n < 10 {
        seq![dec_char(n)]
    } else {
        dec_text(n / 10).push(dec_char(n % 10))
    }
}

/// The lower-case hexadecimal numeral of `n`, without leading zeros.
pub open spec fn hex_text(n: nat) -> Seq<char>
    decreases n,
{
    if n < 16 {
        seq![hex_char(n)]
    } else {
        hex_text(n / 16).push(hex_char(n % 16))
    }
}

/// A decimal numeral reads back as its number; it has no leading zero and
/// is short.
pub proof fn lemma_dec_text(n: nat)
    ensures
        dec_value(dec_text(n)) == n,
        all_digits(dec_text(n)),
        dec_text(n).len() >= 1,
        dec_text(n).len() == 1 || dec_text(n)[0] != '0',
        n < 10 ==> dec_text(n).len() == 1,
        n >= 10 ==> dec_text(n).len() >= 2,
        n < 100 ==> dec_text(n).len() <= 2,
        n < 1000 ==> dec_text(n).len() <= 3,
    decreases n,
{
    if n >= 10 {
        lemma_dec_text(n / 10);
        let t = dec_text(n / 10);
        assert(dec_text(n).drop_last() == t);
        assert(dec_text(n)[0] == t[0]);
        assert(n / 10 * 10 + n % 10 == n) by (nonlinear_arith);
        assert(digit_value(dec_char(n % 10)) == n % 10);
        assert(dec_text(n).last() == dec_char(n % 10));
        assert(dec_value(dec_text(n)) == dec_value(t) * 10 + digit_value(dec_char(n % 10)));
        if t.len() == 1 {
            assert(n / 10 < 10 && n / 10 >= 1);
            assert(t[0] == dec_char(n / 10));
        }
    } else {
        assert(dec_text(n).drop_last() == Seq::<char>::empty());
        assert(dec_value(Seq::<char>::empty()) == 0);
        assert(digit_value(dec_char(n)) == n);
        assert(dec_value(dec_text(n)) == dec_value(Seq::<char>::empty()) * 10 + digit_value(dec_char(n)));
    }
}

/// A hexadecimal numeral reads back as its number and is short.
pub proof fn lemma_hex_text(n: nat)
    ensures
        hex_value(hex_text(n)) == n,
        all_hex_digits(hex_text(n)),
        hex_text(n).len() >= 1,
        n < 16 ==> hex_text(n).len() == 1,
        n < 256 ==> hex_text(n).len() <= 2,
        n < 4096 ==> hex_text(n).len() <= 3,
        n < 65536 ==> hex_text(n).len() <= 4,
    decreases n,
{
    if n >= 16 {
        lemma_hex_text(n / 16);
        let t = hex_text(n / 16);
        assert(hex_text(n).drop_last() == t);
        assert(hex_digit_value(hex_char(n % 16)) == n % 16);
        assert(n / 16 * 16 + n % 16 == n) by (nonlinear_arith);
        assert(hex_text(n).last() == hex_char(n % 16));
        assert(hex_value(hex_text(n)) == hex_value(t) * 16 + hex_digit_value(hex_char(n % 16)));
    } else {
        assert(hex_text(n).drop_last() == Seq::<char>::empty());
        assert(hex_value(Seq::<char>::empty()) == 0);
        assert(hex_digit_value(hex_char(n)) == n);
        assert(hex_value(hex_text(n)) == hex_value(Seq::<char>::empty()) * 16 + hex_digit_value(hex_char(n)));
    }
}

/// Appends the decimal numeral of `n`.
pub fn push_dec(out: &mut Vec<char>, n: u32)
    ensures
        final(out)@ == old(out)@ + dec_text(n as nat),
    decreases n,
{
    if n >= 10 {
        push_dec(out, n / 10);
    }
    let d: u32 = n % 10;
    out.push(char_from_digit(d));
    proof {
        if n >= 10 {
            assert(dec_text(n as nat) == dec_text((n / 10) as nat).push(dec_char((n % 10) as nat)));
        }
    }
}

/// Appends the lower-case hexadecimal numeral of `n`.
pub fn push_hex(out: &mut Vec<char>, n: u32)
    ensures
        final(out)@ == old(out)@ + hex_text(n as nat),
    decreases n,
{
    if n >= 16 {
        push_hex(out, n / 16);
    }
    let d: u32 = n % 16;
    out.push(char_from_hex_digit(d));
    proof {
        if n >= 16 {
            assert(hex_text(n as nat) == hex_text((n / 16) as nat).push(hex_char((n % 16) as nat)));
        }
    }
}

/// The decimal digit for `d`.
fn char_from_digit(d: u32) -> (c: char)
    requires
        d < 10,
    ensures
        c == dec_char(d as nat),
{
    ((d + '0' as u32) as u8) as char
}

/// The lower-case hexadecimal digit for `d`.
fn char_from_hex_digit(d: u32) -> (c: char)
    requires
        d < 16,
    ensures
        c == hex_char(d as nat),
{
    if d < 10 {
        ((d + '0' as u32) as u8) as char
    } else {
        ((d - 10 + 'a' as u32) as u8) as char
    }
}

/// The value of decimal digit `c`, if it is one.
pub fn digit_of(c: char) -> (r: Option<u32>)
    ensures
        match r {
            Some(d) => is_digit(c) && d == digit_value(c) && d < 10,
            None => !is_digit(c),
        },
{
    if '0' <= c && c <= '9' {
        Some((c as u32) - ('0' as u32))
    } else {
        None
    }
}

/// The value of hexadecimal digit `c`, if it is one.
pub fn hex_digit_of(c: char) -> (r: Option<u32>)
    ensures
        match r {
            Some(d) => is_hex_digit(c) && d == hex_digit_value(c) && d < 16,
            None => !is_hex_digit(c),
        },
{
    if '0' <= c && c <= '9' {
        Some((c as u32) - ('0' as u32))
    } else if 'a' <= c && c <= 'f' {
        Some((c as u32) - ('a' as u32) + 10)
    } else if 'A' <= c && c <= 'F' {
        Some((c as u32) - ('A' as u32) + 10)
    } else {
        None
    }
}

/// The characters `s[from..to]`.
pub fn copy_range(s: &Vec<char>, from: usize, to: usize) -> (r: Vec<char>)
    requires
        from <= to <= s.len(),
    ensures
        r@ == s@.subrange(from as int, to as int),
{
    let mut r: Vec<char> = Vec::new();
    let mut i: usize = from;
    while i < to
        invariant
            from <= i <= to <= s.len(),
            r@ == s@.subrange(from as int, i as int),
        decreases to - i,
    {
        r.push(s[i]);
        i = i + 1;
        assert(r@ == s@.subrange(from as int, i as int));
    }
    r
}

/// The characters of `s`.
pub fn chars_of(s: &str) -> (r: Vec<char>)
    ensures
        r@ == s@,
{
    let n = s.unicode_len();
    let mut r: Vec<char> = Vec::new();
    let mut i: usize = 0;
    while i < n
        invariant
            0 <= i <= n,
            n == s@.len(),
            r@ == s@.subrange(0, i as int),
        decreases n - i,
    {
        r.push(s.get_char(i));
        i = i + 1;
        assert(r@ == s@.subrange(0, i as int));
    }
    assert(s@.subrange(0, n as int) == s@);
    r
}

/// Relies on `String::push`, which appends one character to the string.
#[verifier::external_body]
fn push_char(s: &mut String, c: char)
    ensures
        final(s)@ == old(s)@.push(c),
{
    s.push(c);
}

/// The string of the characters `v`.
pub fn string_of(v: &Vec<char>) -> (r: String)
    ensures
        r@ == v@,
{
    let mut r = String::new();
    let mut i: usize = 0;
    while i < v.len()
        invariant
            0 <= i <= v.len(),
            r@ == v@.subrange(0, i as int),
        decreases v.len() - i,
    {
        push_char(&mut r, v[i]);
        i = i + 1;
        assert(r@ == v@.subrange(0, i as int));
    }
    assert(v@.subrange(0, v@.len() as int) == v@);
    r
}

} // verus!
