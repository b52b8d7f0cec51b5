//! Moving addresses and networks by an offset, and cursors over the
//! addresses of a network and over the sub-networks that tile it.

use vstd::prelude::*;

use crate::address::{IpAddress, Ipv4Address, Ipv6Address};
use crate::netaddr::NetAddr;
use crate::netv4addr::Netv4Addr;
use crate::netv6addr::Netv6Addr;
use crate::traits::Contains;

verus! {

/// Moving a value forward (or back) by an amount, without wrapping.
pub trait Offset<T>: Sized {
    /// `self` moved by `offset`, or `None` where that leaves the value's range.
    spec fn spec_offset(&self, offset: T) -> Option<Self>;

    /// Moves `self` by `offset`.
    fn offset(&self, offset: T) -> (r: Option<Self>)
        ensures
            r == self.spec_offset(offset),
    ;
}

impl Offset<u32> for Ipv4Address {
    open spec fn spec_offset(&self, offset: u32) -> Option<Ipv4Address> {
        if self.0 + offset <= u32::MAX {
            Some(Ipv4Address((self.0 + offset) as u32))
        } else {
            None
        }
    }

    fn offset(&self, offset: u32) -> (r: Option<Ipv4Address>) {
        match self.0.checked_add(offset) {
            Some(v) => Some(Ipv4Address(v)),
            None => None,
        }
    }
}

impl Offset<u128> for Ipv4Address {
    open spec fn spec_offset(&self, offset: u128) -> Option<Ipv4Address> {
        if self.0 + offset <= u32::MAX {
            Some(Ipv4Address((self.0 + offset) as u32))
        } else {
            None
        }
    }

    fn offset(&self, offset: u128) -> (r: Option<Ipv4Address>) {
        if offset > u32::MAX as u128 {
            None
        } else {
            self.offset(offset as u32)
        }
    }
}

impl Offset<i32> for Ipv4Address {
    open spec fn spec_offset(&self, offset: i32) -> Option<Ipv4Address> {
        if 0 <= self.0 + offset <= u32::MAX {
            Some(Ipv4Address((self.0 + offset) as u32))
        } else {
            None
        }
    }

    fn offset(&self, offset: i32) -> (r: Option<Ipv4Address>) {
        match self.0.checked_add_signed(offset) {
            Some(v) => Some(Ipv4Address(v)),
            None => None,
        }
    }
}

impl Offset<u128> for Ipv6Address {
    open spec fn spec_offset(&self, offset: u128) -> Option<Ipv6Address> {
        if self.0 + offset <= u128::MAX {
            Some(Ipv6Address((self.0 + offset) as u128))
        } else {
            None
        }
    }

    fn offset(&self, offset: u128) -> (r: Option<Ipv6Address>) {
        match self.0.checked_add(offset) {
            Some(v) => Some(Ipv6Address(v)),
            None => None,
        }
    }
}

impl Offset<u32> for Ipv6Address {
    open spec fn spec_offset(&self, offset: u32) -> Option<Ipv6Address> {
        if self.0 + offset <= u128::MAX {
            Some(Ipv6Address((self.0 + offset) as u128))
        } else {
            None
        }
    }

    fn offset(&self, offset: u32) -> (r: Option<Ipv6Address>) {
        self.offset(offset as u128)
    }
}

impl Offset<i32> for Ipv6Address {
    open spec fn spec_offset(&self, offset: i32) -> Option<Ipv6Address> {
        if 0 <= self.0 + offset <= u128::MAX {
            Some(Ipv6Address((self.0 + offset) as u128))
        } else {
            None
        }
    }

    fn offset(&self, offset: i32) -> (r: Option<Ipv6Address>) {
        if offset >= 0 {
            self.offset(offset as u128)
        } else {
            let back: u128 = (0i64 - offset as i64) as u128;
            match self.0.checked_sub(back) {
                Some(v) => Some(Ipv6Address(v)),
                None => None,
            }
        }
    }
}

impl Offset<u32> for IpAddress {
    open spec fn spec_offset(&self, offset: u32) -> Option<IpAddress> {
        match *self {
            IpAddress::V4(a) => match a.spec_offset(offset) {
                Some(b) => Some(IpAddress::V4(b)),
                None => None,
            },
            IpAddress::V6(a) => match a.spec_offset(offset) {
                Some(b) => Some(IpAddress::V6(b)),
                None => None,
            },
        }
    }

    fn offset(&self, offset: u32) -> (r: Option<IpAddress>) {
        match self {
            IpAddress::V4(a) => match a.offset(offset) {
                Some(b) => Some(IpAddress::V4(b)),
                None => None,
            },
            IpAddress::V6(a) => match a.offset(offset) {
                Some(b) => Some(IpAddress::V6(b)),
                None => None,
            },
        }
    }
}

impl Offset<u128> for IpAddress {
    open spec fn spec_offset(&self, offset: u128) -> Option<IpAddress> {
        match *self {
            IpAddress::V4(a) => match a.spec_offset(offset) {
                Some(b) => Some(IpAddress::V4(b)),
                None => None,
            },
            IpAddress::V6(a) => match a.spec_offset(offset) {
                Some(b) => Some(IpAddress::V6(b)),
                None => None,
            },
        }
    }

    fn offset(&self, offset: u128) -> (r: Option<IpAddress>) {
        match self {
            IpAddress::V4(a) => match a.offset(offset) {
                Some(b) => Some(IpAddress::V4(b)),
                None => None,
            },
            IpAddress::V6(a) => match a.offset(offset) {
                Some(b) => Some(IpAddress::V6(b)),
                None => None,
            },
        }
    }
}

impl Offset<i32> for IpAddress {
    open spec fn spec_offset(&self, offset: i32) -> Option<IpAddress> {
        match *self {
            IpAddress::V4(a) => match a.spec_offset(offset) {
                Some(b) => Some(IpAddress::V4(b)),
                None => None,
            },
            IpAddress::V6(a) => match a.spec_offset(offset) {
                Some(b) => Some(IpAddress::V6(b)),
                None => None,
            },
        }
    }

    fn offset(&self, offset: i32) -> (r: Option<IpAddress>) {
        match self {
            IpAddress::V4(a) => match a.offset(offset) {
                Some(b) => Some(IpAddress::V4(b)),
                None => None,
            },
            IpAddress::V6(a) => match a.offset(offset) {
                Some(b) => Some(IpAddress::V6(b)),
                None => None,
            },
        }
    }
}

/// A network moves by moving its network address; the netmask stays and the
/// moved address is masked again.
impl Offset<u32> for Netv4Addr {
    open spec fn spec_offset(&self, offset: u32) -> Option<Netv4Addr> {
        if self.network() + offset <= u32::MAX {
            Some(Netv4Addr::spec_new((self.network() + offset) as u32, self.netmask()))
        } else {
            None
        }
    }

    fn offset(&self, offset: u32) -> (r: Option<Netv4Addr>) {
        match self.addr().0.checked_add(offset) {
            Some(v) => Some(Netv4Addr::new(Ipv4Address(v), self.mask())),
            None => None,
        }
    }
}

/// A network moves by moving its network address; the netmask stays and the
/// moved address is masked again.
impl Offset<u128> for Netv6Addr {
    open spec fn spec_offset(&self, offset: u128) -> Option<Netv6Addr> {
        if self.network() + offset <= u128::MAX {
            Some(Netv6Addr::spec_new((self.network() + offset) as u128, self.netmask()))
        } else {
            None
        }
    }

    fn offset(&self, offset: u128) -> (r: Option<Netv6Addr>) {
        match self.addr().0.checked_add(offset) {
            Some(v) => Some(Netv6Addr::new(Ipv6Address(v), self.mask())),
            None => None,
        }
    }
}


/// A cursor over the addresses of a network, in ascending order from its
/// network address.
pub struct AddressIterator<N, A> {
    net: N,
    cur: Option<A>,
}

/// One step of address iteration from `cur` within `net`: the next state
/// and the address yielded.
///
/// An address that the network does not contain ends the iteration and is
/// not yielded. A contained address is yielded; the next state is the
/// following address, or the end where no address follows it.
pub open spec fn address_step<N: Contains<A>, A: Offset<u32>>(net: N, cur: Option<A>) -> (
    Option<A>,
    Option<A>,
) {
    match cur {
        None => (None, None),
        Some(c) => if !net.spec_contains(&c) {
            (None, None)
        } else {
            match c.spec_offset(1u32) {
                Some(n) => (Some(n), Some(c)),
                None => (None, Some(c)),
            }
        },
    }
}

/// What at most `n` steps from `cur` yield, up to the first step that
/// yields nothing.
pub open spec fn address_run<N: Contains<A>, A: Offset<u32>>(net: N, cur: Option<A>, n: nat) -> Seq<A>
    decreases n,
{
    if n == 0 {
        seq![]
    } else {
        let (next, out) = address_step(net, cur);
        match out {
            Some(a) => seq![a] + address_run(net, next, (n - 1) as nat),
            None => seq![],
        }
    }
}

impl<N, A> AddressIterator<N, A> {
    /// The network iterated over.
    pub closed spec fn network(&self) -> N {
        self.net
    }

    /// The address the next step starts from; `None` once iteration is over.
    pub closed spec fn current(&self) -> Option<A> {
        self.cur
    }

    /// A cursor over `net` that starts at `cur`.
    pub fn new(net: N, cur: Option<A>) -> (r: AddressIterator<N, A>)
        ensures
            r.network() == net,
            r.current() == cur,
    {
        AddressIterator { net, cur }
    }
}

impl<N: Contains<A>, A: Offset<u32> + Copy> AddressIterator<N, A> {
    /// Yields the next address of the network, or `None` once all are done.
    pub fn next(&mut self) -> (r: Option<A>)
        ensures
            final(self).network() == old(self).network(),
            (final(self).current(), r) == address_step(old(self).network(), old(self).current()),
    {
        match self.cur {
            None => None,
            Some(c) => {
                if !self.net.contains(&c) {
                    self.cur = None;
                    None
                } else {
                    self.cur = c.offset(1u32);
                    Some(c)
                }
            },
        }
    }
}

impl Netv4Addr {
    /// A cursor over the addresses of this network.
    pub fn iter(&self) -> (r: AddressIterator<Netv4Addr, Ipv4Address>)
        ensures
            r.network() == *self,
            r.current() == Some(Ipv4Address(self.network())),
    {
        AddressIterator::new(*self, Some(self.addr()))
    }
}

impl Netv6Addr {
    /// A cursor over the addresses of this network.
    pub fn iter(&self) -> (r: AddressIterator<Netv6Addr, Ipv6Address>)
        ensures
            r.network() == *self,
            r.current() == Some(Ipv6Address(self.network())),
    {
        AddressIterator::new(*self, Some(self.addr()))
    }
}

impl NetAddr {
    /// A cursor over the addresses of this network.
    pub fn iter(&self) -> (r: AddressIterator<NetAddr, IpAddress>)
        ensures
            r.network() == *self,
            r.current() == Some(match *self {
                NetAddr::V4(n) => IpAddress::V4(Ipv4Address(n.network())),
                NetAddr::V6(n) => IpAddress::V6(Ipv6Address(n.network())),
            }),
    {
        AddressIterator::new(*self, Some(self.addr()))
    }
}


/// The number of zero bits among the lowest `n` bits of `m`.
pub open spec fn zero_bits_v4(m: u32, n: nat) -> nat
    decreases n,
{
    if n == 0 {
        0
    } else {
        zero_bits_v4(m, (n - 1) as nat) + if (m >> (n - 1) as u32) & 1 == 0 { 1nat } else { 0nat }
    }
}

/// The number of zero bits among the lowest `n` bits of `m`.
pub open spec fn zero_bits_v6(m: u128, n: nat) -> nat
    decreases n,
{
    if n == 0 {
        0
    } else {
        zero_bits_v6(m, (n - 1) as nat) + if (m >> (n - 1) as u128) & 1 == 0 { 1nat } else { 0nat }
    }
}

/// The number of addresses a network with netmask `m` spans: two to the
/// number of zero bits of `m`, or `None` where that does not fit in 32 bits
/// (the mask `0.0.0.0`).
pub open spec fn device_count_v4(m: u32) -> Option<u32> {
    if zero_bits_v4(m, 32) < 32 {
        Some(1u32 << zero_bits_v4(m, 32) as u32)
    } else {
        None
    }
}

/// The number of addresses a network with netmask `m` spans: two to the
/// number of zero bits of `m`, or `None` where that does not fit in 128 bits
/// (the mask `::`).
pub open spec fn device_count_v6(m: u128) -> Option<u128> {
    if zero_bits_v6(m, 128) < 128 {
        Some(1u128 << zero_bits_v6(m, 128) as u128)
    } else {
        None
    }
}

/// Computes `device_count_v4(m)`.
fn device_count_of_v4(m: u32) -> (r: Option<u32>)
    ensures
        r == device_count_v4(m),
{
    let mut zeros: u32 = 0;
    let mut i: u32 = 0;
    while i < 32
        invariant
            i <= 32,
            zeros == zero_bits_v4(m, i as nat),
            zeros <= i,
        decreases 32 - i,
    {
        if (m >> i) & 1 == 0 {
            zeros = zeros + 1;
        }
        i = i + 1;
    }
    if zeros < 32 {
        Some(1u32 << zeros)
    } else {
        None
    }
}

/// Computes `device_count_v6(m)`.
fn device_count_of_v6(m: u128) -> (r: Option<u128>)
    ensures
        r == device_count_v6(m),
{
    let mut zeros: u128 = 0;
    let mut i: u128 = 0;
    while i < 128
        invariant
            i <= 128,
            zeros == zero_bits_v6(m, i as nat),
            zeros <= i,
        decreases 128 - i,
    {
        if (m >> i) & 1 == 0 {
            zeros = zeros + 1;
        }
        i = i + 1;
    }
    if zeros < 128 {
        Some(1u128 << zeros)
    } else {
        None
    }
}

/// A cursor over the same-sized sub-networks that tile a network, in
/// ascending order.
pub struct SubnetIterator<N, S> {
    net: N,
    cur: Option<S>,
}

impl<N, S> SubnetIterator<N, S> {
    /// The network whose sub-networks are visited.
    pub closed spec fn network(&self) -> N {
        self.net
    }

    /// The sub-network the next step starts from; `None` once iteration is
    /// over.
    pub closed spec fn current(&self) -> Option<S> {
        self.cur
    }

    /// A cursor over the sub-networks of `net` that starts at `cur`.
    pub fn new(net: N, cur: Option<S>) -> (r: SubnetIterator<N, S>)
        ensures
            r.network() == net,
            r.current() == cur,
    {
        SubnetIterator { net, cur }
    }
}

/// One step of sub-network iteration from `cur` within `outer`: the next
/// state and the sub-network yielded.
///
/// A sub-network that `outer` does not contain, or that is larger than
/// `outer` (its netmask lacks a bit of `outer`'s netmask), ends the
/// iteration and is not yielded. A contained one is yielded; the next state is the sub-network
/// one span further on, where that exists and `outer` contains it, and the
/// end otherwise.
pub open spec fn subnet_step_v4(outer: Netv4Addr, cur: Option<Netv4Addr>) -> (
    Option<Netv4Addr>,
    Option<Netv4Addr>,
) {
    match cur {
        None => (None, None),
        Some(c) => if !outer.spec_contains(&c) || outer.netmask() & c.netmask() != outer.netmask() {
            (None, None)
        } else {
            match device_count_v4(c.netmask()) {
                None => (None, Some(c)),
                Some(d) => match c.spec_offset(d) {
                    Some(n) => if outer.spec_contains(&n) {
                        (Some(n), Some(c))
                    } else {
                        (None, Some(c))
                    },
                    None => (None, Some(c)),
                },
            }
        },
    }
}

/// One step of sub-network iteration from `cur` within `outer`, as
/// `subnet_step_v4` describes.
pub open spec fn subnet_step_v6(outer: Netv6Addr, cur: Option<Netv6Addr>) -> (
    Option<Netv6Addr>,
    Option<Netv6Addr>,
) {
    match cur {
        None => (None, None),
        Some(c) => if !outer.spec_contains(&c) || outer.netmask() & c.netmask() != outer.netmask() {
            (None, None)
        } else {
            match device_count_v6(c.netmask()) {
                None => (None, Some(c)),
                Some(d) => match c.spec_offset(d) {
                    Some(n) => if outer.spec_contains(&n) {
                        (Some(n), Some(c))
                    } else {
                        (None, Some(c))
                    },
                    None => (None, Some(c)),
                },
            }
        },
    }
}

/// What at most `n` steps from `cur` yield, up to the first step that
/// yields nothing.
pub open spec fn subnet_run_v4(outer: Netv4Addr, cur: Option<Netv4Addr>, n: nat) -> Seq<Netv4Addr>
    decreases n,
{
    if n == 0 {
        seq![]
    } else {
        let (next, out) = subnet_step_v4(outer, cur);
        match out {
            Some(a) => seq![a] + subnet_run_v4(outer, next, (n - 1) as nat),
            None => seq![],
        }
    }
}

/// What at most `n` steps from `cur` yield, up to the first step that
/// yields nothing.
pub open spec fn subnet_run_v6(outer: Netv6Addr, cur: Option<Netv6Addr>, n: nat) -> Seq<Netv6Addr>
    decreases n,
{
    if n == 0 {
        seq![]
    } else {
        let (next, out) = subnet_step_v6(outer, cur);
        match out {
            Some(a) => seq![a] + subnet_run_v6(outer, next, (n - 1) as nat),
            None => seq![],
        }
    }
}

impl SubnetIterator<Netv4Addr, Netv4Addr> {
    /// Yields the next sub-network, or `None` once all are done.
    pub fn next(&mut self) -> (r: Option<Netv4Addr>)
        ensures
            final(self).network() == old(self).network(),
            (final(self).current(), r) == subnet_step_v4(old(self).network(), old(self).current()),
    {
        match self.cur {
            None => None,
            Some(c) => {
                let outer_mask = self.net.mask().0;
                if !self.net.contains(&c) || outer_mask & c.mask().0 != outer_mask {
                    self.cur = None;
                    return None;
                }
                let next = match c.len() {
                    Some(d) => c.offset(d),
                    None => None,
                };
                self.cur = match next {
                    Some(n) => if self.net.contains(&n) {
                        Some(n)
                    } else {
                        None
                    },
                    None => None,
                };
                Some(c)
            },
        }
    }
}

impl SubnetIterator<Netv6Addr, Netv6Addr> {
    /// Yields the next sub-network, or `None` once all are done.
    pub fn next(&mut self) -> (r: Option<Netv6Addr>)
        ensures
            final(self).network() == old(self).network(),
            (final(self).current(), r) == subnet_step_v6(old(self).network(), old(self).current()),
    {
        match self.cur {
            None => None,
            Some(c) => {
                let outer_mask = self.net.mask().0;
                if !self.net.contains(&c) || outer_mask & c.mask().0 != outer_mask {
                    self.cur = None;
                    return None;
                }
                let next = match c.len() {
                    Some(d) => c.offset(d),
                    None => None,
                };
                self.cur = match next {
                    Some(n) => if self.net.contains(&n) {
                        Some(n)
                    } else {
                        None
                    },
                    None => None,
                };
                Some(c)
            },
        }
    }
}

impl Netv4Addr {
    /// The number of addresses the network spans: two to the number of zero
    /// bits of the netmask, or `None` where that does not fit in 32 bits.
    pub fn len(&self) -> (r: Option<u32>)
        ensures
            r == device_count_v4(self.netmask()),
    {
        device_count_of_v4(self.mask().0)
    }

    /// A cursor over the sub-networks with netmask `mask` that tile this
    /// network, starting at this network's address.
    pub fn subnets(&self, mask: Ipv4Address) -> (r: SubnetIterator<Netv4Addr, Netv4Addr>)
        ensures
            r.network() == *self,
            r.current() == Some(Netv4Addr::spec_new(self.network(), mask.0)),
    {
        SubnetIterator::new(*self, Some(Netv4Addr::new(self.addr(), mask)))
    }
}

impl Netv6Addr {
    /// The number of addresses the network spans: two to the number of zero
    /// bits of the netmask, or `None` where that does not fit in 128 bits.
    pub fn len(&self) -> (r: Option<u128>)
        ensures
            r == device_count_v6(self.netmask()),
    {
        device_count_of_v6(self.mask().0)
    }

    /// A cursor over the sub-networks with netmask `mask` that tile this
    /// network, starting at this network's address.
    pub fn subnets(&self, mask: Ipv6Address) -> (r: SubnetIterator<Netv6Addr, Netv6Addr>)
        ensures
            r.network() == *self,
            r.current() == Some(Netv6Addr::spec_new(self.network(), mask.0)),
    {
        SubnetIterator::new(*self, Some(Netv6Addr::new(self.addr(), mask)))
    }
}

} // verus!
