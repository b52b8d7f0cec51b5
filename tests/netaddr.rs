use std::cmp::Ordering;

use netaddr2::{Broadcast, Contains, Error, IpAddress, Ipv4Address, Ipv6Address, Merge, NetAddr, NetAddrError, Netv4Addr, Netv6Addr};

fn net(s: &str) -> NetAddr {
    s.parse().unwrap()
}

fn ip(s: &str) -> IpAddress {
    s.parse().unwrap()
}

#[test]
fn netaddr_non_cidr_returns_false() {
    assert_eq!(net("0.0.0.0/255.255.127.0").is_cidr(), false);
    assert_eq!(net("::/ffff:ffff:fff::").is_cidr(), false);
}

#[test]
fn netaddr_cidr_returns_true() {
    assert_eq!(net("0.0.0.0/255.255.192.0").is_cidr(), true);
    assert_eq!(net("::/ffff:ffff:fffc::").is_cidr(), true);
}

#[test]
fn v4_seems_correct() {
    assert_eq!(net("127.0.0.1/8").broadcast().unwrap(), IpAddress::V4(Ipv4Address::new(127, 255, 255, 255)));
    assert_eq!(net("192.168.69.25/29").broadcast().unwrap(), IpAddress::V4(Ipv4Address::new(192, 168, 69, 31)));
    assert_eq!(net("192.168.128.127/32").broadcast().unwrap(), IpAddress::V4(Ipv4Address::new(192, 168, 128, 127)));
}

#[test]
fn v6_returns_none() {
    assert_eq!(net("fe80::1/64").broadcast(), None);
}

#[test]
fn contains_ipaddr_v4() {
    let n = net("127.0.0.1/8");
    assert!(n.contains(&ip("127.0.0.1")));
    assert!(n.contains(&ip("127.127.255.1")));
    assert!(!n.contains(&ip("64.73.69.2")));
    assert!(!n.contains(&ip("ff02::1")));
    assert!(!n.contains(&ip("::ffff:127.0.0.1")));
}

#[test]
fn contains_ipaddr_v6() {
    let n = net("2001:db8:dead:beef::/64");
    assert!(!n.contains(&ip("127.0.0.1")));
    assert!(!n.contains(&ip("ff02::1")));
    assert!(!n.contains(&ip("::ffff:127.0.0.1")));
    assert!(n.contains(&ip("2001:db8:dead:beef::1")));
    assert!(n.contains(&ip("2001:db8:dead:beef:c0f:fee:dab:69")));
}

#[test]
fn contains_ipv4addr() {
    let n = net("127.0.0.1/8");
    assert!(n.contains(&"127.0.0.1".parse::<Ipv4Address>().unwrap()));
    assert!(!n.contains(&"64.73.69.2".parse::<Ipv4Address>().unwrap()));
    let n6 = net("2001:db8:dead:beef::/64");
    assert!(!n6.contains(&"127.0.0.1".parse::<Ipv4Address>().unwrap()));
}

#[test]
fn contains_ipv6addr() {
    let n = net("127.0.0.1/8");
    assert!(!n.contains(&"ff02::1".parse::<Ipv6Address>().unwrap()));
    let n6 = net("2001:db8:dead:beef::/64");
    assert!(n6.contains(&"2001:db8:dead:beef::1".parse::<Ipv6Address>().unwrap()));
    assert!(!n6.contains(&"ff02::1".parse::<Ipv6Address>().unwrap()));
}

#[test]
fn contains_netaddr_v4() {
    let n = net("127.0.0.1/8");
    assert!(n.contains(&net("127.128.0.1/24")));
    assert!(!n.contains(&net("ff02::1/16")));
    assert!(!n.contains(&net("::ffff:127.0.0.1/96")));
}

#[test]
fn contains_netaddr_v6() {
    let n = net("2001:db8:dead:beef::/64");
    assert!(!n.contains(&net("127.128.0.1/24")));
    assert!(n.contains(&net("2001:db8:dead:beef::1/64")));
    assert!(n.contains(&net("2001:db8:dead:beef:c0f:fee::/96")));
    assert!(!n.contains(&net("ff02::1/16")));
}

#[test]
fn contains_netv4addr() {
    let n = net("127.0.0.1/8");
    assert!(n.contains(&"127.0.0.1/24".parse::<Netv4Addr>().unwrap()));
    assert!(n.contains(&"127.127.255.63/24".parse::<Netv4Addr>().unwrap()));
    assert!(!n.contains(&"64.73.81.69/24".parse::<Netv4Addr>().unwrap()));
    assert!(!net("2001:db8:dead:beef::/64").contains(&"127.0.0.1/24".parse::<Netv4Addr>().unwrap()));
}

#[test]
fn contains_netv6addr() {
    let n = net("2001:db8:dead:beef::/64");
    assert!(!n.contains(&"ff02::1/16".parse::<Netv6Addr>().unwrap()));
    assert!(n.contains(&"2001:db8:dead:beef::1/64".parse::<Netv6Addr>().unwrap()));
    assert!(n.contains(&"2001:db8:dead:beef:c0f:fee::/96".parse::<Netv6Addr>().unwrap()));
    assert!(!net("127.0.0.1/8").contains(&"ff02::1/16".parse::<Netv6Addr>().unwrap()));
}

#[test]
fn v4_ip() {
    let n = net("127.0.0.1/8");
    assert!(n.contains(&IpAddress::V4(Ipv4Address::new(127, 0, 0, 1))));
    assert!(n.contains(&IpAddress::V4(Ipv4Address::new(127, 127, 255, 1))));
    assert!(!n.contains(&IpAddress::V4(Ipv4Address::new(64, 0, 0, 0))));
}

#[test]
fn v4_net() {
    assert!(net("127.0.0.1/8").contains(&net("127.128.0.1/24")));
}

#[test]
fn v6_ip() {
    let n = net("2001:db8:d00b::/48");
    assert!(n.contains(&IpAddress::V6(Ipv6Address::new(0x2001, 0x0db8, 0xd00b, 0, 0, 0, 0, 0x0001))));
    assert!(n.contains(&IpAddress::V6(Ipv6Address::new(
        0x2001, 0x0db8, 0xd00b, 0xffff, 0xffff, 0xffff, 0xffff, 0xffff
    ))));
    assert!(!n.contains(&IpAddress::V6(Ipv6Address::new(0x2001, 0x0db8, 0xd00c, 0, 0, 0, 0, 1))));
}

#[test]
fn v6_net() {
    assert!(net("2001:db8:d000::/40").contains(&net("2001:db8:d00b::/48")));
}

#[test]
fn display_cidr_netaddr() {
    assert_eq!(net("127.0.0.1/0.0.0.0").to_string(), "0.0.0.0/0");
    assert_eq!(net("127.0.0.1/255.255.255.0").to_string(), "127.0.0.0/24");
    assert_eq!(net("127.0.0.1/255.255.255.255.").to_string(), "127.0.0.1/32");
    assert_eq!(net("2001:db8:dead:beef::/::").to_string(), "::/0");
    assert_eq!(net("2001:db8:dead:beef::/ffff:ffff:ffff:fff0::").to_string(), "2001:db8:dead:bee0::/60");
}

#[test]
fn display_non_cidr_netaddr() {
    assert_eq!(net("127.0.0.1/251.255.255.0").to_string(), "123.0.0.0/251.255.255.0");
    assert_eq!(
        net("2001:db8:dead:beef::/ffff:ffff:ffff:fddf::").to_string(),
        "2001:db8:dead:bccf::/ffff:ffff:ffff:fddf::"
    );
}

#[test]
fn ipaddr_uses_max_netmask() {
    let netaddr = NetAddr::from(ip("192.0.2.42"));
    assert_eq!(netaddr, NetAddr::V4(Netv4Addr::new(Ipv4Address::new(192, 0, 2, 42), Ipv4Address(u32::MAX))));
    let netaddr = NetAddr::from(ip("2001:db8:dead:beef::42"));
    assert_eq!(
        netaddr,
        NetAddr::V6(Netv6Addr::new(
            Ipv6Address::new(0x2001, 0xdb8, 0xdead, 0xbeef, 0, 0, 0, 0x0042),
            Ipv6Address(u128::MAX)
        ))
    );
}

#[test]
fn v4_returns_full_netmask() {
    let addr = "192.0.2.42".parse::<Ipv4Address>().unwrap();
    assert_eq!(NetAddr::from(addr), NetAddr::V4(Netv4Addr::new(addr, Ipv4Address(u32::MAX))));
}

#[test]
fn v6_returns_full_netmask() {
    let addr = "2001:db8:dead:beef::42".parse::<Ipv6Address>().unwrap();
    assert_eq!(NetAddr::from(addr), NetAddr::V6(Netv6Addr::new(addr, Ipv6Address(u128::MAX))));
}

#[test]
fn wraps_given_value_in_v4_variant() {
    let addr: Netv4Addr = "192.0.2.42/27".parse().unwrap();
    assert_eq!(NetAddr::from(addr), NetAddr::V4(addr));
}

#[test]
fn wraps_given_value_in_v6_variant() {
    let addr: Netv6Addr = "2001:db8:dead:beef::42/40".parse().unwrap();
    assert_eq!(NetAddr::from(addr), NetAddr::V6(addr));
}

#[test]
fn parse_invalid_is_safe() {
    let _: Result<NetAddr, _> = "zoop".parse::<NetAddr>();
}

#[test]
fn addr_no_mask_returns_full_bitstring() {
    assert_eq!(net("127.0.0.1/zoop"), net("127.0.0.1/32"));
    assert_eq!(net("ff02::1/zoop"), net("ff02::1/128"));
}

#[test]
fn addr_only() {
    assert_eq!(net("127.0.0.1/zoop"), net("127.0.0.1/32"));
}

#[test]
fn parse_non_addr_passes_out_error() {
    let result = "zoop".parse::<NetAddr>();
    assert_eq!(result, Err(NetAddrError::ParseError("could not split provided input".to_string())));
}

#[test]
fn parse_neither_family_gives_v6_error() {
    let result = "zoop/8".parse::<NetAddr>();
    assert_eq!(result, Err(Error::ParseError("invalid IPv6 address syntax".to_string())));
}

#[test]
fn cidr_32_correct_network_and_netmask() {
    let n = net("192.0.2.0/32");
    assert_eq!(n.mask(), IpAddress::V4(Ipv4Address::new(255, 255, 255, 255)));
    assert_eq!(n.addr(), IpAddress::V4(Ipv4Address::new(192, 0, 2, 0)));
}

#[test]
fn fromstr_cidr_8_correct_network_and_netmask() {
    let n = net("127.0.0.1/8");
    assert_eq!(n.mask(), IpAddress::V4(Ipv4Address::new(255, 0, 0, 0)));
    assert_eq!(n.addr(), IpAddress::V4(Ipv4Address::new(127, 0, 0, 0)));
}

#[test]
fn cidr_22_correct_network_and_netmask() {
    let n = net("192.168.16.1/22");
    assert_eq!(n.mask(), IpAddress::V4(Ipv4Address::new(255, 255, 252, 0)));
    assert_eq!(n.addr(), IpAddress::V4(Ipv4Address::new(192, 168, 16, 0)));
}

#[test]
fn localhost_extended_correct_network_and_netmask() {
    let n = net("127.0.0.1 255.0.0.0");
    assert_eq!(n.mask(), IpAddress::V4(Ipv4Address::new(255, 0, 0, 0)));
    assert_eq!(n.addr(), IpAddress::V4(Ipv4Address::new(127, 0, 0, 0)));
}

#[test]
fn localhost_slashed_extended_correct_network_and_netmask() {
    let n = net("127.0.0.1/255.0.0.0");
    assert_eq!(n.mask(), IpAddress::V4(Ipv4Address::new(255, 0, 0, 0)));
    assert_eq!(n.addr(), IpAddress::V4(Ipv4Address::new(127, 0, 0, 0)));
}

#[test]
fn v6_cidr_8() {
    let n = net("ff02::1/8");
    assert_eq!(n.mask(), IpAddress::V6(Ipv6Address::new(0xff00, 0, 0, 0, 0, 0, 0, 0)));
    assert_eq!(n.addr(), IpAddress::V6(Ipv6Address::new(0xff00, 0, 0, 0, 0, 0, 0, 0)));
}

#[test]
fn cidr_128_correct_network_and_netmask() {
    let n = net("ff02::1/128");
    assert_eq!(n.mask(), IpAddress::V6(Ipv6Address(u128::MAX)));
    assert_eq!(n.addr(), IpAddress::V6(Ipv6Address::new(0xff02, 0, 0, 0, 0, 0, 0, 0x0001)));
}

#[test]
fn extended_correct_network_and_netmask() {
    let n = net("ff02::1 ffff::0");
    assert_eq!(n.mask(), IpAddress::V6(Ipv6Address::new(0xffff, 0, 0, 0, 0, 0, 0, 0)));
    assert_eq!(n.addr(), IpAddress::V6(Ipv6Address::new(0xff02, 0, 0, 0, 0, 0, 0, 0)));
}

#[test]
fn extended_slashed_correct_network_and_netmask() {
    let n = net("ff02::1/128");
    assert_eq!(n.mask(), IpAddress::V6(Ipv6Address(u128::MAX)));
    assert_eq!(n.addr(), IpAddress::V6(Ipv6Address::new(0xff02, 0, 0, 0, 0, 0, 0, 0x0001)));
}

#[test]
fn v6_cidr_128() {
    let n = net("ff02::1/128");
    assert_eq!(n.mask(), IpAddress::V6(Ipv6Address(u128::MAX)));
    assert_eq!(n.addr(), IpAddress::V6(Ipv6Address::new(0xff02, 0, 0, 0, 0, 0, 0, 0x0001)));
}

#[test]
fn v6_extended() {
    let n = net("ff02::1 ffff::0");
    assert_eq!(n.mask(), IpAddress::V6(Ipv6Address::new(0xffff, 0, 0, 0, 0, 0, 0, 0)));
    assert_eq!(n.addr(), IpAddress::V6(Ipv6Address::new(0xff02, 0, 0, 0, 0, 0, 0, 0)));
}

#[test]
fn v6_slashed() {
    let n = net("ff02::1/ffff::0");
    assert_eq!(n.mask(), IpAddress::V6(Ipv6Address::new(0xffff, 0, 0, 0, 0, 0, 0, 0)));
    assert_eq!(n.addr(), IpAddress::V6(Ipv6Address::new(0xff02, 0, 0, 0, 0, 0, 0, 0)));
}

#[test]
fn v4_correct_network() {
    let n = net("192.0.2.0/32");
    assert_eq!(n.mask(), IpAddress::V4(Ipv4Address::new(255, 255, 255, 255)));
    assert_eq!(n.addr(), IpAddress::V4(Ipv4Address::new(192, 0, 2, 0)));
}

#[test]
fn v4_localhost_8() {
    let n = net("127.0.0.1/8");
    assert_eq!(n.mask(), IpAddress::V4(Ipv4Address::new(255, 0, 0, 0)));
    assert_eq!(n.addr(), IpAddress::V4(Ipv4Address::new(127, 0, 0, 0)));
}

#[test]
fn v4_cidr_22() {
    let n = net("192.168.16.1/22");
    assert_eq!(n.mask(), IpAddress::V4(Ipv4Address::new(255, 255, 252, 0)));
    assert_eq!(n.addr(), IpAddress::V4(Ipv4Address::new(192, 168, 16, 0)));
}

#[test]
fn v4_extended_localhost() {
    let n = net("127.0.0.1 255.0.0.0");
    assert_eq!(n.mask(), IpAddress::V4(Ipv4Address::new(255, 0, 0, 0)));
    assert_eq!(n.addr(), IpAddress::V4(Ipv4Address::new(127, 0, 0, 0)));
}

#[test]
fn v4_slashed_localhost() {
    let n = net("127.0.0.1/255.0.0.0");
    assert_eq!(n.mask(), IpAddress::V4(Ipv4Address::new(255, 0, 0, 0)));
    assert_eq!(n.addr(), IpAddress::V4(Ipv4Address::new(127, 0, 0, 0)));
}

fn v4_mask(ones: u32) -> u32 {
    u32::MAX.checked_shl(32 - ones).unwrap_or(0)
}

fn v6_mask(ones: u32) -> u128 {
    u128::MAX.checked_shl(128 - ones).unwrap_or(0)
}

#[test]
fn v4_netv4addr_cidr_correct_network() {
    for addr in [0xcb00_714du32, 0, u32::MAX, 0x0a01_0203] {
        for ones in 0..=32u32 {
            let text = format!("{}/{}", Ipv4Address(addr).to_string(), ones);
            let n: Netv4Addr = text.parse().unwrap();
            assert_eq!(n.addr(), Ipv4Address(addr & v4_mask(ones)));
            assert_eq!(n.mask(), Ipv4Address(v4_mask(ones)));
        }
    }
}

#[test]
fn v6_netv6addr_cidr_correct_network() {
    for addr in [0x2001_0db8_dead_beef_0c0f_0fee_0dab_0069u128, 0, u128::MAX, 1] {
        for ones in 0..=128u32 {
            let text = format!("{}/{}", Ipv6Address(addr).to_string(), ones);
            let n: Netv6Addr = text.parse().unwrap();
            assert_eq!(n.addr(), Ipv6Address(addr & v6_mask(ones)));
            assert_eq!(n.mask(), Ipv6Address(v6_mask(ones)));
        }
    }
}

#[test]
fn merge_v4_adjacent_networks_correct() {
    assert_eq!(net("10.0.0.0/24").merge(&net("10.0.1.0/24")), Some(net("10.0.0.0/23")));
}

#[test]
fn merge_v6_adjacent_networks_correct() {
    assert_eq!(
        net("2001:db8:dead:beef::/64").merge(&net("2001:db8:dead:beee::/64")),
        Some(net("2001:db8:dead:beee::/63"))
    );
}

#[test]
fn merge_v4_nested_networks_takes_biggest() {
    let b = net("10.0.0.0/23");
    assert_eq!(net("10.0.0.0/24").merge(&b), Some(b));
    assert_eq!(b.merge(&net("10.0.0.0/24")), Some(b));
}

#[test]
fn merge_v4_adjacent_but_not_mergable_none() {
    let a = net("10.0.1.0/24");
    let b = net("10.0.2.0/24");
    assert_eq!(a.merge(&b), None);
    assert_eq!(b.merge(&a), None);
}

#[test]
fn merge_across_families_is_none() {
    let a = net("10.0.0.0/24");
    let b = net("2001:db8::/64");
    assert_eq!(a.merge(&b), None);
    assert_eq!(b.merge(&a), None);
}

#[test]
fn v4_different_networks() {
    assert_eq!(net("1.0.0.0/8").partial_cmp(&net("2.0.0.0/8")), Some(Ordering::Less))
}

#[test]
fn v4_different_netmasks() {
    assert_eq!(net("1.0.0.0/7").partial_cmp(&net("1.0.0.0/8")), Some(Ordering::Less))
}

#[test]
fn v4_different() {
    assert_eq!(net("1.0.0.0/8").partial_cmp(&net("0.0.0.0/24")), Some(Ordering::Greater))
}

#[test]
fn v4_equal() {
    assert_eq!(net("1.0.0.0/8").partial_cmp(&net("1.0.0.0/8")), Some(Ordering::Equal))
}

#[test]
fn v6_different_networks() {
    assert_eq!(net("2001:db8:0:0::0/64").cmp(&net("2001:db8:0:1::0/64")), Ordering::Less)
}

#[test]
fn v6_different_netmasks() {
    assert_eq!(net("2001:db8:0:0::0/63").cmp(&net("2001:db8:0:0::0/64")), Ordering::Less)
}

#[test]
fn v6_different() {
    assert_eq!(net("ff02::1/16").cmp(&net("2001:db8:0:1::0/64")), Ordering::Greater)
}

#[test]
fn v6_equal() {
    assert_eq!(net("2001:db8:dead:beef::0/64").cmp(&net("2001:db8:dead:beef::0/64")), Ordering::Equal)
}

#[test]
fn v4_sorts_before_v6() {
    assert_eq!(net("255.0.0.0/8").partial_cmp(&net("::/0")), Some(Ordering::Less));
    assert_eq!(net("::/0").cmp(&net("255.0.0.0/8")), Ordering::Greater);
}
