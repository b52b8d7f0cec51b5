use std::cmp::Ordering;

use netaddr2::{Contains, Error, Ipv6Address, Merge, Netv6Addr};

fn net(s: &str) -> Netv6Addr {
    s.parse().unwrap()
}

fn ip(s: &str) -> Ipv6Address {
    s.parse().unwrap()
}

#[test]
fn netv6addr_returns_mask_field() {
    let netaddr = Netv6Addr::new(ip("2001:db8:dead:beef::0"), ip("ffff:ffff:ffff:ffff::0"));
    assert_eq!(netaddr.mask(), ip("ffff:ffff:ffff:ffff::0"));
}

#[test]
fn netv6addr_returns_addr_field() {
    let netaddr = Netv6Addr::new(ip("2001:db8:dead:beef::0"), ip("ffff:ffff:ffff:ffff::0"));
    assert_eq!(netaddr.addr(), ip("2001:db8:dead:beef::0"));
}

#[test]
fn netv6addr_non_cidr_returns_false() {
    let netaddr = Netv6Addr::new(ip("::"), ip("ffff:ffff:ffff:7f7f::0"));
    assert_eq!(netaddr.is_cidr(), false);
}

#[test]
fn netv6addr_cidr_returns_true() {
    let netaddr = Netv6Addr::new(ip("::"), ip("ffff:ffff:ffff:fffc::0"));
    assert_eq!(netaddr.is_cidr(), true);
}

#[test]
fn netv6addr_masks_addr() {
    let addr = ip("2001:db8:dead:beef::0");
    let mask = ip("ffff:ffff:ffff:ff00::0");
    let netaddr = Netv6Addr::new(addr, mask);
    assert_eq!(netaddr.mask(), mask);
    assert_eq!(netaddr.addr(), ip("2001:db8:dead:be00::0"));
}

#[test]
fn contains_ip_v6() {
    let n = net("2001:db8:d00b::/48");
    assert!(n.contains(&Ipv6Address::new(0x2001, 0x0db8, 0xd00b, 0, 0, 0, 0, 0x0001)));
    assert!(n.contains(&Ipv6Address::new(0x2001, 0x0db8, 0xd00b, 0xffff, 0xffff, 0xffff, 0xffff, 0xffff)));
    assert!(!n.contains(&Ipv6Address::new(0x2001, 0x0db8, 0xd00c, 0, 0, 0, 0, 1)));
}

#[test]
fn contains_net_v6() {
    let n = net("2001:db8:d000::/40");
    let inner = net("2001:db8:d00b::/48");
    assert!(n.contains(&inner));
}

#[test]
fn display_cidr_v6() {
    assert_eq!(net("2001:db8:dead:beef::/::").to_string(), "::/0");
    assert_eq!(net("2001:db8:dead:beef::/ffff:ffff:ffff:fff0::").to_string(), "2001:db8:dead:bee0::/60");
    assert_eq!(
        net("2001:db8:dead:beef::/ffff:ffff:ffff:ffff:ffff:ffff:ffff:ffff").to_string(),
        "2001:db8:dead:beef::/128"
    );
}

#[test]
fn display_non_cidr_v6() {
    assert_eq!(
        net("2001:db8:dead:beef::/ffff:ffff:ffff:fddf::").to_string(),
        "2001:db8:dead:bccf::/ffff:ffff:ffff:fddf::"
    )
}

#[test]
fn ipv6addr_uses_max_netmask() {
    let addr = ip("2001:db8:dead:beef::42");
    let netaddr = Netv6Addr::from(addr);
    assert_eq!(netaddr, Netv6Addr::new(addr, Ipv6Address(u128::MAX)));
}

#[test]
fn fromstr_invalid_is_safe_v6() {
    let _: Result<Netv6Addr, _> = "zoop".parse::<Netv6Addr>();
}

#[test]
fn fromstr_addr_only_returns_full_bitstring_v6() {
    assert_eq!(net("ff02::1/zoop"), net("ff02::1/128"));
}

#[test]
fn fromstr_non_addr_passes_out_error_v6() {
    let result = "zoop".parse::<Netv6Addr>();
    assert_eq!(result, Err(Error::ParseError("could not split provided input".to_string())));
}

#[test]
fn fromstr_bad_address_error_v6() {
    let result = "zoop/64".parse::<Netv6Addr>();
    assert_eq!(result, Err(Error::ParseError("invalid IPv6 address syntax".to_string())));
}

#[test]
fn merge_mergeable_networks_correct_v6() {
    let a = net("2001:db8:dead:beef::/64");
    let b = net("2001:db8:dead:beee::/64");
    assert_eq!(a.merge(&b), Some(net("2001:db8:dead:beee::/63")));
}

#[test]
fn merge_mergeable_networks_reflexive_v6() {
    let a = net("2001:db8:dead:beef::/64");
    let b = net("2001:db8:dead:beee::/64");
    assert_eq!(a.merge(&b), b.merge(&a));
}

#[test]
fn merge_nested_networks_takes_biggest_v6() {
    let a = net("2001:db8:dead:beee::/63");
    let b = net("2001:db8:dead:beef::/64");
    assert_eq!(a.merge(&b), Some(a));
}

#[test]
fn merge_nested_networks_reflexive_v6() {
    let a = net("2001:db8:dead:beee::/63");
    let b = net("2001:db8:dead:beef::/64");
    assert_eq!(a.merge(&b), b.merge(&a));
}

#[test]
fn merge_adjacent_but_not_mergable_none_v6() {
    let a = net("2001:db8:dead:beee::/64");
    let b = net("2001:db8:dead:beed::/64");
    assert_eq!(a.merge(&b), None);
    assert_eq!(b.merge(&a), None);
    assert_eq!(a.merge(&b), b.merge(&a));
}

#[test]
fn ord_different_networks_v6() {
    assert_eq!(net("2001:db8:0:0::0/64").cmp(&net("2001:db8:0:1::0/64")), Ordering::Less)
}

#[test]
fn ord_different_netmasks_v6() {
    assert_eq!(net("2001:db8:0:0::0/63").cmp(&net("2001:db8:0:0::0/64")), Ordering::Less)
}

#[test]
fn ord_different_v6() {
    assert_eq!(net("ff02::1/16").cmp(&net("2001:db8:0:1::0/64")), Ordering::Greater)
}

#[test]
fn ord_equal_v6() {
    assert_eq!(net("2001:db8:dead:beef::0/64").cmp(&net("2001:db8:dead:beef::0/64")), Ordering::Equal)
}

#[test]
fn partialord_different_networks_v6() {
    assert_eq!(net("2001:db8:0:0::0/64").partial_cmp(&net("2001:db8:0:1::0/64")), Some(Ordering::Less))
}

#[test]
fn partialord_different_netmasks_v6() {
    assert_eq!(net("2001:db8:0:0::0/63").partial_cmp(&net("2001:db8:0:0::0/64")), Some(Ordering::Less))
}

#[test]
fn partialord_different_v6() {
    assert_eq!(net("ff02::1/16").partial_cmp(&net("2001:db8:0:1::0/64")), Some(Ordering::Greater))
}

#[test]
fn partialord_equal_v6() {
    assert_eq!(
        net("2001:db8:dead:beef::0/64").partial_cmp(&net("2001:db8:dead:beef::0/64")),
        Some(Ordering::Equal)
    )
}
