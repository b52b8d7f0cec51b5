//! IPv4 networks.

use vstd::prelude::*;

use core::cmp::Ordering;

use crate::address::{IpAddress, Ipv4Address};
use crate::bits::{cidr_prefix_v4, is_cidr_v4};
use crate::traits::{Broadcast, Contains, Mask, Merge};

verus! {

/// An IPv4 network: a network address and a netmask.
///
/// The network address is always masked by the netmask: `new` masks the
/// address it is given. The netmask is kept as given, so masks that are not
/// CIDR (such as `255.0.255.0`) can be represented.
#[derive(Clone, Copy, Debug, PartialEq, Eq, Structural, Hash, Ord)]
pub struct Netv4Addr {
    addr: Ipv4Address,
    mask: Ipv4Address,
}

/// The netmask that `merge` tries for two networks: one bit wider than the
/// common mask when the masks are equal, else the numerically smaller mask.
pub open spec fn merge_mask_v4(a: u32, b: u32) -> u32 {
    if a == b {
        a << 1u32
    } else if a < b {
        a
    } else {
        b
    }
}

/// The order of networks: by network address, then by netmask.
pub open spec fn order_v4(a_net: u32, a_mask: u32, b_net: u32, b_mask: u32) -> Ordering {
    if a_net < b_net {
        Ordering::Less
    } else if a_net > b_net {
        Ordering::Greater
    } else if a_mask < b_mask {
        Ordering::Less
    } else if a_mask > b_mask {
        Ordering::Greater
    } else {
        Ordering::Equal
    }
}

impl Netv4Addr {
    /// The network address is masked by the netmask.
    #[verifier::type_invariant]
    spec fn canonical(&self) -> bool {
        self.addr.0 & self.mask.0 == self.addr.0
    }

    /// The network address, as a 32-bit value.
    pub closed spec fn network(&self) -> u32 {
        self.addr.0
    }

    /// The netmask, as a 32-bit value.
    pub closed spec fn netmask(&self) -> u32 {
        self.mask.0
    }

    /// The network that `new` builds from `addr` and `mask`.
    pub closed spec fn spec_new(addr: u32, mask: u32) -> Netv4Addr {
        Netv4Addr { addr: Ipv4Address(addr & mask), mask: Ipv4Address(mask) }
    }

    /// The network address is masked by the netmask.
    pub open spec fn wf(&self) -> bool {
        self.network() & self.netmask() == self.network()
    }

    /// What `spec_new` holds.
    pub broadcast proof fn lemma_spec_new(addr: u32, mask: u32)
        ensures
            #[trigger] Netv4Addr::spec_new(addr, mask).network() == addr & mask,
            Netv4Addr::spec_new(addr, mask).netmask() == mask,
            Netv4Addr::spec_new(addr, mask).wf(),
    {
        assert((addr & mask) & mask == addr & mask) by (bit_vector);
    }

    /// Two networks are equal exactly when their network addresses and
    /// netmasks are.
    pub proof fn lemma_eq(a: Netv4Addr, b: Netv4Addr)
        ensures
            (a.network() == b.network() && a.netmask() == b.netmask()) <==> a == b,
    {
    }

    /// Every value built by `spec_new` is one with the network address and
    /// netmask it holds.
    pub proof fn lemma_spec_new_of_wf(a: Netv4Addr)
        requires
            a.wf(),
        ensures
            Netv4Addr::spec_new(a.network(), a.netmask()) == a,
    {
    }

    /// Builds the network of `addr` under `mask`; the address is masked.
    pub fn new(addr: Ipv4Address, mask: Ipv4Address) -> (r: Netv4Addr)
        ensures
            r == Netv4Addr::spec_new(addr.0, mask.0),
            r.network() == addr.0 & mask.0,
            r.netmask() == mask.0,
            r.wf(),
    {
        proof {
            Netv4Addr::lemma_spec_new(addr.0, mask.0);
        }
        let addr = addr.mask(&mask);
        Netv4Addr { addr, mask }
    }

    /// The netmask.
    pub fn mask(&self) -> (r: Ipv4Address)
        ensures
            r.0 == self.netmask(),
    {
        self.mask
    }

    /// The network address.
    pub fn addr(&self) -> (r: Ipv4Address)
        ensures
            r.0 == self.network(),
            r.0 & self.netmask() == r.0,
    {
        proof {
            use_type_invariant(self);
        }
        self.addr
    }

    /// Whether the netmask is a CIDR mask.
    pub fn is_cidr(&self) -> (r: bool)
        ensures
            r == is_cidr_v4(self.netmask()),
    {
        cidr_prefix_v4(self.mask.0).is_some()
    }

    /// The prefix length of a CIDR netmask, or `None` for any other mask.
    pub fn prefix_len(&self) -> (r: Option<u32>)
        ensures
            match r {
                Some(p) => p <= 32 && self.netmask() == crate::bits::v4_prefix_mask(p),
                None => !is_cidr_v4(self.netmask()),
            },
    {
        cidr_prefix_v4(self.mask.0)
    }
}

impl Contains<Ipv4Address> for Netv4Addr {
    /// An address lies in the network when masking it gives the network address.
    open spec fn spec_contains(&self, other: &Ipv4Address) -> bool {
        other.0 & self.netmask() == self.network()
    }

    fn contains(&self, other: &Ipv4Address) -> (r: bool) {
        other.mask(&self.mask) == self.addr
    }
}

impl Contains<Netv4Addr> for Netv4Addr {
    /// A network lies in this one when its network address does.
    open spec fn spec_contains(&self, other: &Netv4Addr) -> bool {
        other.network() & self.netmask() == self.network()
    }

    fn contains(&self, other: &Netv4Addr) -> (r: bool) {
        other.addr.mask(&self.mask) == self.addr
    }
}

impl Contains<IpAddress> for Netv4Addr {
    /// Only IPv4 addresses can lie in an IPv4 network.
    open spec fn spec_contains(&self, other: &IpAddress) -> bool {
        match *other {
            IpAddress::V4(a) => self.spec_contains(&a),
            IpAddress::V6(_) => false,
        }
    }

    fn contains(&self, other: &IpAddress) -> (r: bool) {
        match other {
            IpAddress::V4(a) => self.contains(a),
            IpAddress::V6(_) => false,
        }
    }
}

impl Merge for Netv4Addr {
    type Output = Option<Netv4Addr>;

    /// Under the mask that `merge_mask_v4` picks, both network addresses must
    /// agree; the result is then that common prefix under that mask.
    open spec fn spec_merge(&self, other: &Netv4Addr) -> Option<Netv4Addr> {
        let m = merge_mask_v4(self.netmask(), other.netmask());
        if self.network() & m == other.network() & m {
            Some(Netv4Addr::spec_new(self.network() & m, m))
        } else {
            None
        }
    }

    fn merge(&self, other: &Netv4Addr) -> (r: Option<Netv4Addr>) {
        let addr: u32 = self.addr.0;
        let mask: u32 = self.mask.0;
        let other_addr: u32 = other.addr.0;
        let other_mask: u32 = other.mask.0;
        let m: u32 = if mask == other_mask {
            mask << 1u32
        } else if mask < other_mask {
            mask
        } else {
            other_mask
        };
        if addr & m == other_addr & m {
            Some(Netv4Addr::new(Ipv4Address(addr & m), Ipv4Address(m)))
        } else {
            None
        }
    }
}

impl Broadcast for Netv4Addr {
    type Output = Ipv4Address;

    /// The network address with every host bit set.
    open spec fn spec_broadcast(&self) -> Ipv4Address {
        Ipv4Address(self.network() | !self.netmask())
    }

    fn broadcast(&self) -> (r: Ipv4Address) {
        Ipv4Address(self.addr.0 | !self.mask.0)
    }
}

impl From<Ipv4Address> for Netv4Addr {
    fn from(addr: Ipv4Address) -> Netv4Addr {
        Netv4Addr::new(addr, Ipv4Address(0xffff_ffffu32))
    }
}

impl vstd::std_specs::convert::FromSpecImpl<Ipv4Address> for Netv4Addr {
    /// A bare address is the network of that one host.
    open spec fn obeys_from_spec() -> bool {
        true
    }

    open spec fn from_spec(addr: Ipv4Address) -> Netv4Addr {
        Netv4Addr::spec_new(addr.0, 0xffff_ffffu32)
    }
}

impl PartialOrd for Netv4Addr {
    fn partial_cmp(&self, other: &Netv4Addr) -> Option<Ordering> {
        let (a, am, b, bm) = (self.addr.0, self.mask.0, other.addr.0, other.mask.0);
        if a < b {
            Some(Ordering::Less)
        } else if a > b {
            Some(Ordering::Greater)
        } else if am < bm {
            Some(Ordering::Less)
        } else if am > bm {
            Some(Ordering::Greater)
        } else {
            Some(Ordering::Equal)
        }
    }
}

impl vstd::std_specs::cmp::PartialOrdSpecImpl for Netv4Addr {
    open spec fn obeys_partial_cmp_spec() -> bool {
        true
    }

    open spec fn partial_cmp_spec(&self, other: &Netv4Addr) -> Option<Ordering> {
        Some(order_v4(self.network(), self.netmask(), other.network(), other.netmask()))
    }
}

} // verus!
