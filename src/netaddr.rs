//! Networks of either family.

use vstd::prelude::*;

use core::cmp::Ordering;

use crate::address::{IpAddress, Ipv4Address, Ipv6Address};
use crate::bits::{is_cidr_v4, is_cidr_v6};
use crate::netv4addr::{order_v4, Netv4Addr};
use crate::netv6addr::{order_v6, Netv6Addr};
use crate::traits::{Broadcast, Contains, Merge};

verus! {

/// A network of either family.
///
/// Operations never mix families: a network contains nothing of the other
/// family, and networks of different families do not merge.
#[derive(Clone, Copy, Debug, PartialEq, Eq, Structural, Hash, Ord)]
pub enum NetAddr {
    /// An IPv4 network.
    V4(Netv4Addr),
    /// An IPv6 network.
    V6(Netv6Addr),
}

impl NetAddr {
    /// The network address and netmask of every network of this family
    /// agree.
    pub open spec fn wf(&self) -> bool {
        match *self {
            NetAddr::V4(n) => n.wf(),
            NetAddr::V6(n) => n.wf(),
        }
    }

    /// The netmask of the inner network.
    pub fn mask(&self) -> (r: IpAddress)
        ensures
            r == match *self {
                NetAddr::V4(n) => IpAddress::V4(Ipv4Address(n.netmask())),
                NetAddr::V6(n) => IpAddress::V6(Ipv6Address(n.netmask())),
            },
    {
        match self {
            NetAddr::V4(n) => IpAddress::V4(n.mask()),
            NetAddr::V6(n) => IpAddress::V6(n.mask()),
        }
    }

    /// The network address of the inner network.
    pub fn addr(&self) -> (r: IpAddress)
        ensures
            r == match *self {
                NetAddr::V4(n) => IpAddress::V4(Ipv4Address(n.network())),
                NetAddr::V6(n) => IpAddress::V6(Ipv6Address(n.network())),
            },
    {
        match self {
            NetAddr::V4(n) => IpAddress::V4(n.addr()),
            NetAddr::V6(n) => IpAddress::V6(n.addr()),
        }
    }

    /// Whether the netmask of the inner network is a CIDR mask.
    pub fn is_cidr(&self) -> (r: bool)
        ensures
            r == match *self {
                NetAddr::V4(n) => is_cidr_v4(n.netmask()),
                NetAddr::V6(n) => is_cidr_v6(n.netmask()),
            },
    {
        match self {
            NetAddr::V4(n) => n.is_cidr(),
            NetAddr::V6(n) => n.is_cidr(),
        }
    }
}

impl Contains<IpAddress> for NetAddr {
    open spec fn spec_contains(&self, other: &IpAddress) -> bool {
        match *self {
            NetAddr::V4(n) => n.spec_contains(other),
            NetAddr::V6(n) => n.spec_contains(other),
        }
    }

    fn contains(&self, other: &IpAddress) -> (r: bool) {
        match self {
            NetAddr::V4(n) => n.contains(other),
            NetAddr::V6(n) => n.contains(other),
        }
    }
}

impl Contains<Ipv4Address> for NetAddr {
    open spec fn spec_contains(&self, other: &Ipv4Address) -> bool {
        match *self {
            NetAddr::V4(n) => n.spec_contains(other),
            NetAddr::V6(_) => false,
        }
    }

    fn contains(&self, other: &Ipv4Address) -> (r: bool) {
        match self {
            NetAddr::V4(n) => n.contains(other),
            NetAddr::V6(_) => false,
        }
    }
}

impl Contains<Ipv6Address> for NetAddr {
    open spec fn spec_contains(&self, other: &Ipv6Address) -> bool {
        match *self {
            NetAddr::V4(_) => false,
            NetAddr::V6(n) => n.spec_contains(other),
        }
    }

    fn contains(&self, other: &Ipv6Address) -> (r: bool) {
        match self {
            NetAddr::V4(_) => false,
            NetAddr::V6(n) => n.contains(other),
        }
    }
}

impl Contains<NetAddr> for Netv4Addr {
    /// Only IPv4 networks can lie in an IPv4 network.
    open spec fn spec_contains(&self, other: &NetAddr) -> bool {
        match *other {
            NetAddr::V4(o) => self.spec_contains(&o),
            NetAddr::V6(_) => false,
        }
    }

    fn contains(&self, other: &NetAddr) -> (r: bool) {
        match other {
            NetAddr::V4(o) => self.contains(o),
            NetAddr::V6(_) => false,
        }
    }
}

impl Contains<NetAddr> for Netv6Addr {
    /// Only IPv6 networks can lie in an IPv6 network.
    open spec fn spec_contains(&self, other: &NetAddr) -> bool {
        match *other {
            NetAddr::V4(_) => false,
            NetAddr::V6(o) => self.spec_contains(&o),
        }
    }

    fn contains(&self, other: &NetAddr) -> (r: bool) {
        match other {
            NetAddr::V4(_) => false,
            NetAddr::V6(o) => self.contains(o),
        }
    }
}

impl Contains<NetAddr> for NetAddr {
    open spec fn spec_contains(&self, other: &NetAddr) -> bool {
        match *self {
            NetAddr::V4(n) => n.spec_contains(other),
            NetAddr::V6(n) => n.spec_contains(other),
        }
    }

    fn contains(&self, other: &NetAddr) -> (r: bool) {
        match self {
            NetAddr::V4(n) => n.contains(other),
            NetAddr::V6(n) => n.contains(other),
        }
    }
}

impl Contains<Netv4Addr> for NetAddr {
    open spec fn spec_contains(&self, other: &Netv4Addr) -> bool {
        match *self {
            NetAddr::V4(n) => n.spec_contains(other),
            NetAddr::V6(_) => false,
        }
    }

    fn contains(&self, other: &Netv4Addr) -> (r: bool) {
        match self {
            NetAddr::V4(n) => n.contains(other),
            NetAddr::V6(_) => false,
        }
    }
}

impl Contains<Netv6Addr> for NetAddr {
    open spec fn spec_contains(&self, other: &Netv6Addr) -> bool {
        match *self {
            NetAddr::V4(_) => false,
            NetAddr::V6(n) => n.spec_contains(other),
        }
    }

    fn contains(&self, other: &Netv6Addr) -> (r: bool) {
        match self {
            NetAddr::V4(_) => false,
            NetAddr::V6(n) => n.contains(other),
        }
    }
}

impl Merge for NetAddr {
    type Output = Option<NetAddr>;

    /// Networks of one family merge as that family does; networks of
    /// different families do not merge.
    open spec fn spec_merge(&self, other: &NetAddr) -> Option<NetAddr> {
        match (*self, *other) {
            (NetAddr::V4(a), NetAddr::V4(b)) => match a.spec_merge(&b) {
                Some(c) => Some(NetAddr::V4(c)),
                None => None,
            },
            (NetAddr::V6(a), NetAddr::V6(b)) => match a.spec_merge(&b) {
                Some(c) => Some(NetAddr::V6(c)),
                None => None,
            },
            _ => None,
        }
    }

    fn merge(&self, other: &NetAddr) -> (r: Option<NetAddr>) {
        match (self, other) {
            (NetAddr::V4(a), NetAddr::V4(b)) => match a.merge(b) {
                Some(c) => Some(NetAddr::V4(c)),
                None => None,
            },
            (NetAddr::V6(a), NetAddr::V6(b)) => match a.merge(b) {
                Some(c) => Some(NetAddr::V6(c)),
                None => None,
            },
            _ => None,
        }
    }
}

impl Broadcast for NetAddr {
    type Output = Option<IpAddress>;

    /// IPv4 networks have a broadcast address; IPv6 networks have none.
    open spec fn spec_broadcast(&self) -> Option<IpAddress> {
        match *self {
            NetAddr::V4(n) => Some(IpAddress::V4(n.spec_broadcast())),
            NetAddr::V6(_) => None,
        }
    }

    fn broadcast(&self) -> (r: Option<IpAddress>) {
        match self {
            NetAddr::V4(n) => Some(IpAddress::V4(n.broadcast())),
            NetAddr::V6(_) => None,
        }
    }
}

impl From<IpAddress> for NetAddr {
    fn from(addr: IpAddress) -> NetAddr {
        match addr {
            IpAddress::V4(a) => NetAddr::V4(Netv4Addr::from(a)),
            IpAddress::V6(a) => NetAddr::V6(Netv6Addr::from(a)),
        }
    }
}

impl vstd::std_specs::convert::FromSpecImpl<IpAddress> for NetAddr {
    /// A bare address is the network of that one host.
    open spec fn obeys_from_spec() -> bool {
        true
    }

    open spec fn from_spec(addr: IpAddress) -> NetAddr {
        match addr {
            IpAddress::V4(a) => NetAddr::V4(Netv4Addr::spec_new(a.0, 0xffff_ffffu32)),
            IpAddress::V6(a) => NetAddr::V6(
                Netv6Addr::spec_new(a.0, 0xffff_ffff_ffff_ffff_ffff_ffff_ffff_ffffu128),
            ),
        }
    }
}

impl From<Ipv4Address> for NetAddr {
    fn from(addr: Ipv4Address) -> NetAddr {
        NetAddr::V4(Netv4Addr::from(addr))
    }
}

impl vstd::std_specs::convert::FromSpecImpl<Ipv4Address> for NetAddr {
    open spec fn obeys_from_spec() -> bool {
        true
    }

    open spec fn from_spec(addr: Ipv4Address) -> NetAddr {
        NetAddr::V4(Netv4Addr::spec_new(addr.0, 0xffff_ffffu32))
    }
}

impl From<Ipv6Address> for NetAddr {
    fn from(addr: Ipv6Address) -> NetAddr {
        NetAddr::V6(Netv6Addr::from(addr))
    }
}

impl vstd::std_specs::convert::FromSpecImpl<Ipv6Address> for NetAddr {
    open spec fn obeys_from_spec() -> bool {
        true
    }

    open spec fn from_spec(addr: Ipv6Address) -> NetAddr {
        NetAddr::V6(Netv6Addr::spec_new(addr.0, 0xffff_ffff_ffff_ffff_ffff_ffff_ffff_ffffu128))
    }
}

impl From<Netv4Addr> for NetAddr {
    fn from(net: Netv4Addr) -> NetAddr {
        NetAddr::V4(net)
    }
}

impl vstd::std_specs::convert::FromSpecImpl<Netv4Addr> for NetAddr {
    open spec fn obeys_from_spec() -> bool {
        true
    }

    open spec fn from_spec(net: Netv4Addr) -> NetAddr {
        NetAddr::V4(net)
    }
}

impl From<Netv6Addr> for NetAddr {
    fn from(net: Netv6Addr) -> NetAddr {
        NetAddr::V6(net)
    }
}

impl vstd::std_specs::convert::FromSpecImpl<Netv6Addr> for NetAddr {
    open spec fn obeys_from_spec() -> bool {
        true
    }

    open spec fn from_spec(net: Netv6Addr) -> NetAddr {
        NetAddr::V6(net)
    }
}

impl PartialOrd for NetAddr {
    fn partial_cmp(&self, other: &NetAddr) -> Option<Ordering> {
        match (self, other) {
            (NetAddr::V4(a), NetAddr::V4(b)) => a.partial_cmp(b),
            (NetAddr::V6(a), NetAddr::V6(b)) => a.partial_cmp(b),
            (NetAddr::V4(_), NetAddr::V6(_)) => Some(Ordering::Less),
            (NetAddr::V6(_), NetAddr::V4(_)) => Some(Ordering::Greater),
        }
    }
}

impl vstd::std_specs::cmp::PartialOrdSpecImpl for NetAddr {
    /// IPv4 networks come before IPv6 networks; within a family, by network
    /// address and then by netmask.
    open spec fn obeys_partial_cmp_spec() -> bool {
        true
    }

    open spec fn partial_cmp_spec(&self, other: &NetAddr) -> Option<Ordering> {
        match (*self, *other) {
            (NetAddr::V4(a), NetAddr::V4(b)) => Some(
                order_v4(a.network(), a.netmask(), b.network(), b.netmask()),
            ),
            (NetAddr::V6(a), NetAddr::V6(b)) => Some(
                order_v6(a.network(), a.netmask(), b.network(), b.netmask()),
            ),
            (NetAddr::V4(_), NetAddr::V6(_)) => Some(Ordering::Less),
            (NetAddr::V6(_), NetAddr::V4(_)) => Some(Ordering::Greater),
        }
    }
}

} // verus!
