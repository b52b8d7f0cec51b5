//! IPv6 networks.

use vstd::prelude::*;

use core::cmp::Ordering;

use crate::address::{IpAddress, Ipv6Address};
use crate::bits::{cidr_prefix_v6, is_cidr_v6};
use crate::traits::{Contains, Mask, Merge};

verus! {

/// An IPv6 network: a network address and a netmask.
///
/// The network address is always masked by the netmask: `new` masks the
/// address it is given. The netmask is kept as given, so masks that are not
/// CIDR (such as `ffff::ffff:0`) can be represented.
#[derive(Clone, Copy, Debug, PartialEq, Eq, Structural, Hash, Ord)]
pub struct Netv6Addr {
    addr: Ipv6Address,
    mask: Ipv6Address,
}

/// The netmask that `merge` tries for two networks: one bit wider than the
/// common mask when the masks are equal, else the numerically smaller mask.
pub open spec fn merge_mask_v6(a: u128, b: u128) -> u128 {
    if a == b {
        a << 1u128
    } else if a < b {
        a
    } else {
        b
    }
}

/// The order of networks: by network address, then by netmask.
pub open spec fn order_v6(a_net: u128, a_mask: u128, b_net: u128, b_mask: u128) -> Ordering {
    if a_net < b_net {
        Ordering::Less
    } else if a_net > b_net {
        Ordering::Greater
    } else if a_mask < b_mask {
        Ordering::Less
    } else if a_mask > b_mask {
        Ordering::Greater
    } else {
        Ordering::Equal
    }
}

impl Netv6Addr {
    /// The network address is masked by the netmask.
    #[verifier::type_invariant]
    spec fn canonical(&self) -> bool {
        self.addr.0 & self.mask.0 == self.addr.0
    }

    /// The network address, as a 128-bit value.
    pub closed spec fn network(&self) -> u128 {
        self.addr.0
    }

    /// The netmask, as a 128-bit value.
    pub closed spec fn netmask(&self) -> u128 {
        self.mask.0
    }

    /// The network that `new` builds from `addr` and `mask`.
    pub closed spec fn spec_new(addr: u128, mask: u128) -> Netv6Addr {
        Netv6Addr { addr: Ipv6Address(addr & mask), mask: Ipv6Address(mask) }
    }

    /// The network address is masked by the netmask.
    pub open spec fn wf(&self) -> bool {
        self.network() & self.netmask() == self.network()
    }

    /// What `spec_new` holds.
    pub broadcast proof fn lemma_spec_new(addr: u128, mask: u128)
        ensures
            #[trigger] Netv6Addr::spec_new(addr, mask).network() == addr & mask,
            Netv6Addr::spec_new(addr, mask).netmask() == mask,
            Netv6Addr::spec_new(addr, mask).wf(),
    {
        assert((addr & mask) & mask == addr & mask) by (bit_vector);
    }

    /// Two networks are equal exactly when their network addresses and
    /// netmasks are.
    pub proof fn lemma_eq(a: Netv6Addr, b: Netv6Addr)
        ensures
            (a.network() == b.network() && a.netmask() == b.netmask()) <==> a == b,
    {
    }

    /// Every value built by `spec_new` is one with the network address and
    /// netmask it holds.
    pub proof fn lemma_spec_new_of_wf(a: Netv6Addr)
        requires
            a.wf(),
        ensures
            Netv6Addr::spec_new(a.network(), a.netmask()) == a,
    {
    }

    /// Builds the network of `addr` under `mask`; the address is masked.
    pub fn new(addr: Ipv6Address, mask: Ipv6Address) -> (r: Netv6Addr)
        ensures
            r == Netv6Addr::spec_new(addr.0, mask.0),
            r.network() == addr.0 & mask.0,
            r.netmask() == mask.0,
            r.wf(),
    {
        proof {
            Netv6Addr::lemma_spec_new(addr.0, mask.0);
        }
        let addr = addr.mask(&mask);
        Netv6Addr { addr, mask }
    }

    /// The netmask.
    pub fn mask(&self) -> (r: Ipv6Address)
        ensures
            r.0 == self.netmask(),
    {
        self.mask
    }

    /// The network address.
    pub fn addr(&self) -> (r: Ipv6Address)
        ensures
            r.0 == self.network(),
            r.0 & self.netmask() == r.0,
    {
        proof {
            use_type_invariant(self);
        }
        self.addr
    }

    /// Whether the netmask is a CIDR mask.
    pub fn is_cidr(&self) -> (r: bool)
        ensures
            r == is_cidr_v6(self.netmask()),
    {
        cidr_prefix_v6(self.mask.0).is_some()
    }

    /// The prefix length of a CIDR netmask, or `None` for any other mask.
    pub fn prefix_len(&self) -> (r: Option<u32>)
        ensures
            match r {
                Some(p) => p <= 128 && self.netmask() == crate::bits::v6_prefix_mask(p),
                None => !is_cidr_v6(self.netmask()),
            },
    {
        cidr_prefix_v6(self.mask.0)
    }
}

impl Contains<Ipv6Address> for Netv6Addr {
    /// An address lies in the network when masking it gives the network address.
    open spec fn spec_contains(&self, other: &Ipv6Address) -> bool {
        other.0 & self.netmask() == self.network()
    }

    fn contains(&self, other: &Ipv6Address) -> (r: bool) {
        other.mask(&self.mask) == self.addr
    }
}

impl Contains<Netv6Addr> for Netv6Addr {
    /// A network lies in this one when its network address does.
    open spec fn spec_contains(&self, other: &Netv6Addr) -> bool {
        other.network() & self.netmask() == self.network()
    }

    fn contains(&self, other: &Netv6Addr) -> (r: bool) {
        other.addr.mask(&self.mask) == self.addr
    }
}

impl Contains<IpAddress> for Netv6Addr {
    /// Only IPv6 addresses can lie in an IPv6 network.
    open spec fn spec_contains(&self, other: &IpAddress) -> bool {
        match *other {
            IpAddress::V6(a) => self.spec_contains(&a),
            IpAddress::V4(_) => false,
        }
    }

    fn contains(&self, other: &IpAddress) -> (r: bool) {
        match other {
            IpAddress::V6(a) => self.contains(a),
            IpAddress::V4(_) => false,
        }
    }
}

impl Merge for Netv6Addr {
    type Output = Option<Netv6Addr>;

    /// Under the mask that `merge_mask_v6` picks, both network addresses must
    /// agree; the result is then that common prefix under that mask.
    open spec fn spec_merge(&self, other: &Netv6Addr) -> Option<Netv6Addr> {
        let m = merge_mask_v6(self.netmask(), other.netmask());
        if self.network() & m == other.network() & m {
            Some(Netv6Addr::spec_new(self.network() & m, m))
        } else {
            None
        }
    }

    fn merge(&self, other: &Netv6Addr) -> (r: Option<Netv6Addr>) {
        let addr: u128 = self.addr.0;
        let mask: u128 = self.mask.0;
        let other_addr: u128 = other.addr.0;
        let other_mask: u128 = other.mask.0;
        let m: u128 = if mask == other_mask {
            mask << 1u128
        } else if mask < other_mask {
            mask
        } else {
            other_mask
        };
        if addr & m == other_addr & m {
            Some(Netv6Addr::new(Ipv6Address(addr & m), Ipv6Address(m)))
        } else {
            None
        }
    }
}

impl From<Ipv6Address> for Netv6Addr {
    fn from(addr: Ipv6Address) -> Netv6Addr {
        Netv6Addr::new(addr, Ipv6Address(0xffff_ffff_ffff_ffff_ffff_ffff_ffff_ffffu128))
    }
}

impl vstd::std_specs::convert::FromSpecImpl<Ipv6Address> for Netv6Addr {
    /// A bare address is the network of that one host.
    open spec fn obeys_from_spec() -> bool {
        true
    }

    open spec fn from_spec(addr: Ipv6Address) -> Netv6Addr {
        Netv6Addr::spec_new(addr.0, 0xffff_ffff_ffff_ffff_ffff_ffff_ffff_ffffu128)
    }
}

impl PartialOrd for Netv6Addr {
    fn partial_cmp(&self, other: &Netv6Addr) -> Option<Ordering> {
        let (a, am, b, bm) = (self.addr.0, self.mask.0, other.addr.0, other.mask.0);
        if a < b {
            Some(Ordering::Less)
        } else if a > b {
            Some(Ordering::Greater)
        } else if am < bm {
            Some(Ordering::Less)
        } else if am > bm {
            Some(Ordering::Greater)
        } else {
            Some(Ordering::Equal)
        }
    }
}

impl vstd::std_specs::cmp::PartialOrdSpecImpl for Netv6Addr {
    open spec fn obeys_partial_cmp_spec() -> bool {
        true
    }

    open spec fn partial_cmp_spec(&self, other: &Netv6Addr) -> Option<Ordering> {
        Some(order_v6(self.network(), self.netmask(), other.network(), other.netmask()))
    }
}

} // verus!
