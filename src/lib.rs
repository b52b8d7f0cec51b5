//! Network addresses (an address and a netmask) for IPv4 and IPv6: parsing,
//! containment, merging, broadcast addresses, ordering and iteration over the
//! member addresses and sub-networks of a network.

pub mod address;
pub mod bits;
pub mod error;
pub mod grammar;
pub mod ipv4_text;
pub mod ipv6_text;
pub mod iter;
pub mod laws;
pub mod netaddr;
pub mod netv4addr;
pub mod netv6addr;
pub mod text;
pub mod traits;

pub use address::{IpAddress, Ipv4Address, Ipv6Address};
pub use error::{Error, NetAddrError};
pub use iter::{AddressIterator, Offset, SubnetIterator};
pub use netaddr::NetAddr;
pub use netv4addr::Netv4Addr;
pub use netv6addr::Netv6Addr;
pub use traits::{Broadcast, Contains, Mask, Merge};
