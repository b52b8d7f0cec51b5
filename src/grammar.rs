//! The text of networks: reading `address/prefix`, `address/mask` and
//! `address mask`, and writing the canonical form.

use vstd::prelude::*;

use core::str::FromStr;

use crate::bits::{is_cidr_v4, is_cidr_v6, prefix_mask_v4, prefix_mask_v6, v4_prefix_mask, v6_prefix_mask};
use crate::error::{Error, INVALID_V4, INVALID_V6, NO_SPLIT};
use crate::ipv4_text::{parse_ipv4, parse_v4, push_ipv4, v4_text};
use crate::ipv6_text::{parse_ipv6, parse_v6, push_ipv6, v6_text};
use crate::netaddr::NetAddr;
use crate::netv4addr::Netv4Addr;
use crate::netv6addr::Netv6Addr;
use crate::address::{IpAddress, Ipv4Address, Ipv6Address};
use crate::text::{
    all_digits, chars_of, copy_range, dec_text, dec_value, digit_of, free_of, is_digit, push_dec,
    string_of,
};

verus! {

/// The index of the first `/` or space in `s` at or after `i`.
pub open spec fn first_delimiter(s: Seq<char>, i: int) -> Option<int>
    decreases s.len() - i,
{
    if i < 0 || i >= s.len() {
        None
    } else if s[i] == '/' || s[i] == ' ' {
        Some(i)
    } else {
        first_delimiter(s, i + 1)
    }
}

/// The two tokens of a network text: the text before the first `/` or
/// space, and all the text after it. `None` where the text holds no `/` or
/// space.
pub open spec fn tokens(s: Seq<char>) -> Option<(Seq<char>, Seq<char>)> {
    match first_delimiter(s, 0) {
        Some(i) => Some((s.subrange(0, i), s.subrange(i + 1, s.len() as int))),
        None => None,
    }
}

/// Where `x` holds no `/` or space and a delimiter follows it, the first
/// delimiter is the one right after `x`.
pub proof fn lemma_first_delimiter(x: Seq<char>, y: Seq<char>, i: int)
    requires
        free_of(x, '/', ' '),
        y.len() > 0,
        y[0] == '/' || y[0] == ' ',
        0 <= i <= x.len(),
    ensures
        first_delimiter(x + y, i) == Some(x.len() as int),
    decreases x.len() - i,
{
    if i < x.len() {
        assert((x + y)[i] == x[i]);
        lemma_first_delimiter(x, y, i + 1);
    } else {
        assert((x + y)[i] == y[0]);
    }
}

/// The value of `t` read as an unsigned number: an optional `+` and one or
/// more decimal digits.
pub open spec fn numeral_value(t: Seq<char>) -> Option<nat> {
    let d = if t.len() > 0 && t[0] == '+' {
        t.subrange(1, t.len() as int)
    } else {
        t
    };
    if d.len() > 0 && all_digits(d) {
        Some(dec_value(d))
    } else {
        None
    }
}

/// The netmask that the right token `t` of an IPv4 network text gives: a
/// prefix length up to 32, else an IPv4 address, else the host mask.
pub open spec fn v4_mask_of(t: Seq<char>) -> u32 {
    match numeral_value(t) {
        Some(p) if p <= 32 => v4_prefix_mask(p as u32),
        _ => match parse_v4(t) {
            Some(m) => m,
            None => 0xffff_ffffu32,
        },
    }
}

/// The netmask that the right token `t` of an IPv6 network text gives: a
/// prefix length up to 128, else an IPv6 address, else the host mask.
pub open spec fn v6_mask_of(t: Seq<char>) -> u128 {
    match numeral_value(t) {
        Some(p) if p <= 128 => v6_prefix_mask(p as u32),
        _ => match parse_v6(t) {
            Some(m) => m,
            None => 0xffff_ffff_ffff_ffff_ffff_ffff_ffff_ffffu128,
        },
    }
}

/// The IPv4 network that `s` writes: an IPv4 address, then a `/` or space,
/// then a prefix length or a netmask.
pub open spec fn netv4_of_text(s: Seq<char>) -> Option<Netv4Addr> {
    match tokens(s) {
        None => None,
        Some((l, r)) => match parse_v4(l) {
            None => None,
            Some(a) => Some(Netv4Addr::spec_new(a, v4_mask_of(r))),
        },
    }
}

/// The IPv6 network that `s` writes: an IPv6 address, then a `/` or space,
/// then a prefix length or a netmask.
pub open spec fn netv6_of_text(s: Seq<char>) -> Option<Netv6Addr> {
    match tokens(s) {
        None => None,
        Some((l, r)) => match parse_v6(l) {
            None => None,
            Some(a) => Some(Netv6Addr::spec_new(a, v6_mask_of(r))),
        },
    }
}

/// The network of either family that `s` writes; IPv4 is tried first.
pub open spec fn netaddr_of_text(s: Seq<char>) -> Option<NetAddr> {
    match netv4_of_text(s) {
        Some(n) => Some(NetAddr::V4(n)),
        None => match netv6_of_text(s) {
            Some(n) => Some(NetAddr::V6(n)),
            None => None,
        },
    }
}

/// The prefix length of a CIDR mask.
pub open spec fn v4_prefix_of(m: u32) -> u32 {
    choose|p: u32| p <= 32 && m == v4_prefix_mask(p)
}

/// The prefix length of a CIDR mask.
pub open spec fn v6_prefix_of(m: u128) -> u32 {
    choose|p: u32| p <= 128 && m == v6_prefix_mask(p)
}

/// The canonical text of an IPv4 network: the network address, a `/`, and
/// the prefix length where the mask is CIDR, else the mask.
pub open spec fn netv4_text(n: Netv4Addr) -> Seq<char> {
    v4_text(n.network()) + seq!['/'] + if is_cidr_v4(n.netmask()) {
        dec_text(v4_prefix_of(n.netmask()) as nat)
    } else {
        v4_text(n.netmask())
    }
}

/// The canonical text of an IPv6 network: the network address, a `/`, and
/// the prefix length where the mask is CIDR, else the mask.
pub open spec fn netv6_text(n: Netv6Addr) -> Seq<char> {
    v6_text(n.network()) + seq!['/'] + if is_cidr_v6(n.netmask()) {
        dec_text(v6_prefix_of(n.netmask()) as nat)
    } else {
        v6_text(n.netmask())
    }
}

/// The canonical text of a network of either family.
pub open spec fn netaddr_text(n: NetAddr) -> Seq<char> {
    match n {
        NetAddr::V4(n) => netv4_text(n),
        NetAddr::V6(n) => netv6_text(n),
    }
}

/// Reads a prefix length of at most `width`.
fn prefix_len_of(t: &Vec<char>, width: u32) -> (r: Option<u32>)
    requires
        width <= 128,
    ensures
        r == (match numeral_value(t@) {
            Some(p) if p <= width => Some(p as u32),
            _ => None::<u32>,
        }),
{
    let start: usize = if t.len() > 0 && t[0] == '+' {
        1
    } else {
        0
    };
    let ghost d = if t@.len() > 0 && t@[0] == '+' {
        t@.subrange(1, t@.len() as int)
    } else {
        t@
    };
    assert(d == t@.subrange(start as int, t@.len() as int));
    if start >= t.len() {
        return None;
    }
    let mut v: u32 = 0;
    let mut big: bool = false;
    let mut i: usize = start;
    while i < t.len()
        invariant
            start <= i <= t.len(),
            d == t@.subrange(start as int, t@.len() as int),
            d == (if t@.len() > 0 && t@[0] == '+' {
                t@.subrange(1, t@.len() as int)
            } else {
                t@
            }),
            width <= 128,
            all_digits(t@.subrange(start as int, i as int)),
            big ==> dec_value(t@.subrange(start as int, i as int)) > width,
            !big ==> v == dec_value(t@.subrange(start as int, i as int)) && v <= width,
        decreases t.len() - i,
    {
        proof {
            assert(t@.subrange(start as int, i + 1).drop_last() == t@.subrange(start as int, i as int));
        }
        match digit_of(t[i]) {
            None => {
                proof {
                    assert(d[i - start] == t@[i as int]);
                    assert(!is_digit(d[i - start]));
                    assert(!all_digits(d));
                    assert(numeral_value(t@) is None);
                }
                return None;
            },
            Some(c) => {
                if !big {
                    let nv: u32 = v * 10 + c;
                    if nv > width {
                        big = true;
                    } else {
                        v = nv;
                    }
                }
                i = i + 1;
            },
        }
    }
    proof {
        assert(t@.subrange(start as int, i as int) == d);
    }
    if big {
        None
    } else {
        Some(v)
    }
}

/// Splits a network text into its two tokens.
fn tokens_of(s: &str) -> (r: Option<(Vec<char>, Vec<char>)>)
    ensures
        match r {
            Some((l, rr)) => tokens(s@) == Some((l@, rr@)),
            None => tokens(s@) is None,
        },
{
    let cs = chars_of(s);
    let mut i: usize = 0;
    while i < cs.len()
        invariant
            0 <= i <= cs.len(),
            cs@ == s@,
            first_delimiter(s@, 0) == first_delimiter(s@, i as int),
        decreases cs.len() - i,
    {
        if cs[i] == '/' || cs[i] == ' ' {
            let l = copy_range(&cs, 0, i);
            let r = copy_range(&cs, i + 1, cs.len());
            return Some((l, r));
        }
        i = i + 1;
    }
    None
}

impl Netv4Addr {
    /// Reads an IPv4 network: `192.0.2.16/29`, `192.0.2.16/255.255.255.248`
    /// or `192.0.2.16 255.255.255.248`. A right token that is neither a
    /// prefix length nor a netmask gives the host mask.
    pub fn parse(s: &str) -> (r: Result<Netv4Addr, Error>)
        ensures
            match r {
                Ok(n) => netv4_of_text(s@) == Some(n),
                Err(e) => netv4_of_text(s@) is None && e.message() == (if tokens(s@) is None {
                    NO_SPLIT@
                } else {
                    INVALID_V4@
                }),
            },
    {
        let (l, t) = match tokens_of(s) {
            Some(p) => p,
            None => return Err(Error::parse_error(NO_SPLIT)),
        };
        let addr = match parse_ipv4(&l) {
            Some(a) => a,
            None => return Err(Error::parse_error(INVALID_V4)),
        };
        let mask: u32 = match prefix_len_of(&t, 32) {
            Some(p) => prefix_mask_v4(p),
            None => match parse_ipv4(&t) {
                Some(m) => m,
                None => 0xffff_ffffu32,
            },
        };
        Ok(Netv4Addr::new(Ipv4Address(addr), Ipv4Address(mask)))
    }

    /// The canonical text: the network address, a `/`, and the prefix
    /// length where the mask is CIDR, else the mask.
    pub fn to_string(&self) -> (r: String)
        ensures
            r@ == netv4_text(*self),
    {
        let mut out: Vec<char> = Vec::new();
        push_ipv4(&mut out, self.addr().0);
        out.push('/');
        match self.prefix_len() {
            Some(p) => {
                proof {
                    let q = v4_prefix_of(self.netmask());
                    crate::bits::lemma_v4_prefix_mask_injective(p, q);
                }
                push_dec(&mut out, p);
            },
            None => push_ipv4(&mut out, self.mask().0),
        }
        string_of(&out)
    }
}

impl Netv6Addr {
    /// Reads an IPv6 network: `2001:db8::1/64`, `2001:db8::1/ffff:ffff::`
    /// or `2001:db8::1 ffff:ffff::`. A right token that is neither a prefix
    /// length nor a netmask gives the host mask.
    pub fn parse(s: &str) -> (r: Result<Netv6Addr, Error>)
        ensures
            match r {
                Ok(n) => netv6_of_text(s@) == Some(n),
                Err(e) => netv6_of_text(s@) is None && e.message() == (if tokens(s@) is None {
                    NO_SPLIT@
                } else {
                    INVALID_V6@
                }),
            },
    {
        let (l, t) = match tokens_of(s) {
            Some(p) => p,
            None => return Err(Error::parse_error(NO_SPLIT)),
        };
        let addr = match parse_ipv6(&l) {
            Some(a) => a,
            None => return Err(Error::parse_error(INVALID_V6)),
        };
        let mask: u128 = match prefix_len_of(&t, 128) {
            Some(p) => prefix_mask_v6(p),
            None => match parse_ipv6(&t) {
                Some(m) => m,
                None => 0xffff_ffff_ffff_ffff_ffff_ffff_ffff_ffffu128,
            },
        };
        Ok(Netv6Addr::new(Ipv6Address(addr), Ipv6Address(mask)))
    }

    /// The canonical text: the network address, a `/`, and the prefix
    /// length where the mask is CIDR, else the mask.
    pub fn to_string(&self) -> (r: String)
        ensures
            r@ == netv6_text(*self),
    {
        let mut out: Vec<char> = Vec::new();
        push_ipv6(&mut out, self.addr().0);
        out.push('/');
        match self.prefix_len() {
            Some(p) => {
                proof {
                    let q = v6_prefix_of(self.netmask());
                    crate::bits::lemma_v6_prefix_mask_injective(p, q);
                }
                push_dec(&mut out, p);
            },
            None => push_ipv6(&mut out, self.mask().0),
        }
        string_of(&out)
    }
}

impl NetAddr {
    /// Reads a network of either family, trying IPv4 first. Where neither
    /// reads, the error is that of the IPv6 attempt.
    pub fn parse(s: &str) -> (r: Result<NetAddr, Error>)
        ensures
            match r {
                Ok(n) => netaddr_of_text(s@) == Some(n),
                Err(e) => netaddr_of_text(s@) is None && e.message() == (if tokens(s@) is None {
                    NO_SPLIT@
                } else {
                    INVALID_V6@
                }),
            },
    {
        match Netv4Addr::parse(s) {
            Ok(n) => Ok(NetAddr::V4(n)),
            Err(_) => match Netv6Addr::parse(s) {
                Ok(n) => Ok(NetAddr::V6(n)),
                Err(e) => Err(e),
            },
        }
    }

    /// The canonical text of the inner network.
    pub fn to_string(&self) -> (r: String)
        ensures
            r@ == netaddr_text(*self),
    {
        match self {
            NetAddr::V4(n) => n.to_string(),
            NetAddr::V6(n) => n.to_string(),
        }
    }
}

impl Ipv4Address {
    /// Reads an address in dotted-decimal form: four decimal octets of one
    /// to three digits each, no leading zeros, separated by dots.
    pub fn parse(s: &str) -> (r: Result<Ipv4Address, Error>)
        ensures
            match r {
                Ok(a) => parse_v4(s@) == Some(a.0),
                Err(e) => parse_v4(s@) is None && e.message() == INVALID_V4@,
            },
    {
        match parse_ipv4(&chars_of(s)) {
            Some(a) => Ok(Ipv4Address(a)),
            None => Err(Error::parse_error(INVALID_V4)),
        }
    }

    /// The dotted-decimal text of the address.
    pub fn to_string(&self) -> (r: String)
        ensures
            r@ == v4_text(self.0),
    {
        let mut out: Vec<char> = Vec::new();
        push_ipv4(&mut out, self.0);
        string_of(&out)
    }
}

impl Ipv6Address {
    /// Reads an address in IPv6 text form.
    pub fn parse(s: &str) -> (r: Result<Ipv6Address, Error>)
        ensures
            match r {
                Ok(a) => parse_v6(s@) == Some(a.0),
                Err(e) => parse_v6(s@) is None && e.message() == INVALID_V6@,
            },
    {
        match parse_ipv6(&chars_of(s)) {
            Some(a) => Ok(Ipv6Address(a)),
            None => Err(Error::parse_error(INVALID_V6)),
        }
    }

    /// The IPv6 text of the address.
    pub fn to_string(&self) -> (r: String)
        ensures
            r@ == v6_text(self.0),
    {
        let mut out: Vec<char> = Vec::new();
        push_ipv6(&mut out, self.0);
        string_of(&out)
    }
}

impl IpAddress {
    /// Reads an address of either family, trying IPv4 first.
    pub fn parse(s: &str) -> (r: Result<IpAddress, Error>)
        ensures
            match r {
                Ok(IpAddress::V4(a)) => parse_v4(s@) == Some(a.0),
                Ok(IpAddress::V6(a)) => parse_v4(s@) is None && parse_v6(s@) == Some(a.0),
                Err(e) => parse_v4(s@) is None && parse_v6(s@) is None && e.message() == INVALID_V6@,
            },
    {
        let cs = chars_of(s);
        match parse_ipv4(&cs) {
            Some(a) => Ok(IpAddress::V4(Ipv4Address(a))),
            None => match parse_ipv6(&cs) {
                Some(a) => Ok(IpAddress::V6(Ipv6Address(a))),
                None => Err(Error::parse_error(INVALID_V6)),
            },
        }
    }

    /// The text of the address in its family's form.
    pub fn to_string(&self) -> (r: String)
        ensures
            r@ == match *self {
                IpAddress::V4(a) => v4_text(a.0),
                IpAddress::V6(a) => v6_text(a.0),
            },
    {
        match self {
            IpAddress::V4(a) => a.to_string(),
            IpAddress::V6(a) => a.to_string(),
        }
    }
}

impl FromStr for Ipv4Address {
    type Err = Error;

    /// Reads the text as `Ipv4Address::parse` does.
    fn from_str(s: &str) -> (r: Result<Ipv4Address, Error>)
        ensures
            match r {
                Ok(a) => parse_v4(s@) == Some(a.0),
                Err(e) => parse_v4(s@) is None && e.message() == INVALID_V4@,
            },
    {
        Ipv4Address::parse(s)
    }
}

impl FromStr for Ipv6Address {
    type Err = Error;

    /// Reads the text as `Ipv6Address::parse` does.
    fn from_str(s: &str) -> (r: Result<Ipv6Address, Error>)
        ensures
            match r {
                Ok(a) => parse_v6(s@) == Some(a.0),
                Err(e) => parse_v6(s@) is None && e.message() == INVALID_V6@,
            },
    {
        Ipv6Address::parse(s)
    }
}

impl FromStr for IpAddress {
    type Err = Error;

    /// Reads the text as `IpAddress::parse` does.
    fn from_str(s: &str) -> (r: Result<IpAddress, Error>)
        ensures
            match r {
                Ok(IpAddress::V4(a)) => parse_v4(s@) == Some(a.0),
                Ok(IpAddress::V6(a)) => parse_v4(s@) is None && parse_v6(s@) == Some(a.0),
                Err(e) => parse_v4(s@) is None && parse_v6(s@) is None && e.message() == INVALID_V6@,
            },
    {
        IpAddress::parse(s)
    }
}

impl FromStr for Netv4Addr {
    type Err = Error;

    /// Reads the text as `Netv4Addr::parse` does.
    fn from_str(s: &str) -> (r: Result<Netv4Addr, Error>)
        ensures
            match r {
                Ok(n) => netv4_of_text(s@) == Some(n),
                Err(e) => netv4_of_text(s@) is None && e.message() == (if tokens(s@) is None {
                    NO_SPLIT@
                } else {
                    INVALID_V4@
                }),
            },
    {
        Netv4Addr::parse(s)
    }
}

impl FromStr for Netv6Addr {
    type Err = Error;

    /// Reads the text as `Netv6Addr::parse` does.
    fn from_str(s: &str) -> (r: Result<Netv6Addr, Error>)
        ensures
            match r {
                Ok(n) => netv6_of_text(s@) == Some(n),
                Err(e) => netv6_of_text(s@) is None && e.message() == (if tokens(s@) is None {
                    NO_SPLIT@
                } else {
                    INVALID_V6@
                }),
            },
    {
        Netv6Addr::parse(s)
    }
}

impl FromStr for NetAddr {
    type Err = Error;

    /// Reads the text as `NetAddr::parse` does.
    fn from_str(s: &str) -> (r: Result<NetAddr, Error>)
        ensures
            match r {
                Ok(n) => netaddr_of_text(s@) == Some(n),
                Err(e) => netaddr_of_text(s@) is None && e.message() == (if tokens(s@) is None {
                    NO_SPLIT@
                } else {
                    INVALID_V6@
                }),
            },
    {
        NetAddr::parse(s)
    }
}

} // verus!
