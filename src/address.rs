//! Addresses of each family as plain integers, and masking.

use vstd::prelude::*;

use crate::traits::Mask;

verus! {

/// An IPv4 address, held as its 32-bit value (the first octet is the high byte).
#[derive(Clone, Copy, Debug, PartialEq, Eq, Structural, Hash, PartialOrd, Ord)]
pub struct Ipv4Address(pub u32);

/// An IPv6 address, held as its 128-bit value (the first group is the high 16 bits).
#[derive(Clone, Copy, Debug, PartialEq, Eq, Structural, Hash, PartialOrd, Ord)]
pub struct Ipv6Address(pub u128);

/// An address of either family.
#[derive(Clone, Copy, Debug, PartialEq, Eq, Structural, Hash, PartialOrd, Ord)]
pub enum IpAddress {
    V4(Ipv4Address),
    V6(Ipv6Address),
}

/// The message of the error that masking across families gives.
pub const MISMATCHED_FAMILIES: &'static str = "mismatched address types";

impl Ipv4Address {
    /// The address whose octets are `a.b.c.d`.
    pub fn new(a: u8, b: u8, c: u8, d: u8) -> (r: Ipv4Address)
        ensures
            r.0 == a as u32 * 0x100_0000 + b as u32 * 0x1_0000 + c as u32 * 0x100 + d as u32,
    {
        let v: u32 = ((a as u32) << 24u32) | ((b as u32) << 16u32) | ((c as u32) << 8u32) | (d as u32);
        assert(v == a as u32 * 0x100_0000 + b as u32 * 0x1_0000 + c as u32 * 0x100 + d as u32)
            by (bit_vector)
            requires
                v == ((a as u32) << 24u32) | ((b as u32) << 16u32) | ((c as u32) << 8u32) | (d as u32),
        ;
        Ipv4Address(v)
    }

    /// The four octets, first octet first.
    pub fn octets(&self) -> (r: [u8; 4])
        ensures
            r@ == seq![(self.0 >> 24u32) as u8, (self.0 >> 16u32) as u8, (self.0 >> 8u32) as u8, self.0 as u8],
    {
        let v = self.0;
        [(v >> 24u32) as u8, (v >> 16u32) as u8, (v >> 8u32) as u8, v as u8]
    }
}

impl Ipv6Address {
    /// The address whose eight 16-bit groups are the arguments, first group first.
    pub fn new(a: u16, b: u16, c: u16, d: u16, e: u16, f: u16, g: u16, h: u16) -> (r: Ipv6Address)
        ensures
            r.0 == crate::ipv6_text::groups_value(seq![a, b, c, d, e, f, g, h]),
    {
        let mut v: u128 = 0;
        let gs: [u16; 8] = [a, b, c, d, e, f, g, h];
        let mut i: usize = 0;
        while i < 8
            invariant
                0 <= i <= 8,
                gs@ == seq![a, b, c, d, e, f, g, h],
                v == crate::ipv6_text::groups_value(gs@.subrange(0, i as int)),
            decreases 8 - i,
        {
            assert(gs@.subrange(0, i + 1).drop_last() == gs@.subrange(0, i as int));
            v = crate::ipv6_text::push_group(v, gs[i]);
            i = i + 1;
        }
        assert(gs@.subrange(0, 8) == gs@);
        Ipv6Address(v)
    }
}

impl Mask for Ipv4Address {
    type Output = Ipv4Address;

    open spec fn spec_mask(&self, other: &Ipv4Address) -> Ipv4Address {
        Ipv4Address(self.0 & other.0)
    }

    fn mask(&self, other: &Ipv4Address) -> (r: Ipv4Address) {
        Ipv4Address(self.0 & other.0)
    }
}

impl Mask for Ipv6Address {
    type Output = Ipv6Address;

    open spec fn spec_mask(&self, other: &Ipv6Address) -> Ipv6Address {
        Ipv6Address(self.0 & other.0)
    }

    fn mask(&self, other: &Ipv6Address) -> (r: Ipv6Address) {
        Ipv6Address(self.0 & other.0)
    }
}

/// Masking addresses of one family is bitwise and; masking across families is an error.
impl Mask for IpAddress {
    type Output = Result<IpAddress, &'static str>;

    open spec fn spec_mask(&self, other: &IpAddress) -> Result<IpAddress, &'static str> {
        match (*self, *other) {
            (IpAddress::V4(a), IpAddress::V4(b)) => Ok(IpAddress::V4(a.spec_mask(&b))),
            (IpAddress::V6(a), IpAddress::V6(b)) => Ok(IpAddress::V6(a.spec_mask(&b))),
            _ => Err(MISMATCHED_FAMILIES),
        }
    }

    fn mask(&self, other: &IpAddress) -> (r: Result<IpAddress, &'static str>) {
        match (self, other) {
            (IpAddress::V4(a), IpAddress::V4(b)) => Ok(IpAddress::V4(a.mask(b))),
            (IpAddress::V6(a), IpAddress::V6(b)) => Ok(IpAddress::V6(a.mask(b))),
            _ => Err(MISMATCHED_FAMILIES),
        }
    }
}

} // verus!
