use netaddr2::{AddressIterator, IpAddress, Ipv4Address, Ipv6Address, NetAddr, Netv4Addr, Netv6Addr, SubnetIterator};

fn v4(s: &str) -> Ipv4Address {
    s.parse().unwrap()
}

fn v6(s: &str) -> Ipv6Address {
    s.parse().unwrap()
}

fn ip(s: &str) -> Option<IpAddress> {
    s.parse::<IpAddress>().ok()
}

#[test]
fn address_loopback_slash_32_produces_one_off() {
    let net: Netv4Addr = "127.0.16.0/32".parse().unwrap();
    let mut it: AddressIterator<Netv4Addr, Ipv4Address> = net.iter();
    assert_eq!(it.next(), Some(v4("127.0.16.0")));
    assert_eq!(it.next(), None);
}

#[test]
fn loopback_slash_29_produces_one_off() {
    let net: Netv4Addr = "127.0.16.0/29".parse().unwrap();
    let mut it = net.iter();
    for last in 0..8u8 {
        assert_eq!(it.next(), Some(Ipv4Address::new(127, 0, 16, last)));
    }
    assert_eq!(it.next(), None);
}

#[test]
fn address_loopback_max_value_properly_stops() {
    let net: Netv4Addr = "255.255.255.255/31".parse().unwrap();
    let mut it = net.iter();
    assert_eq!(it.next(), Some(v4("255.255.255.254")));
    assert_eq!(it.next(), Some(v4("255.255.255.255")));
    assert_eq!(it.next(), None);
    assert_eq!(it.next(), None);
}

#[test]
fn netaddr_loopback_slash_32_produces_one_off() {
    let net: NetAddr = "127.0.16.0/32".parse().unwrap();
    let mut it: AddressIterator<NetAddr, IpAddress> = net.iter();
    assert_eq!(it.next(), ip("127.0.16.0"));
    assert_eq!(it.next(), None);
}

#[test]
fn loopback_slash_29_produces_all_ips_in_network() {
    let net: NetAddr = "127.0.16.0/29".parse().unwrap();
    let mut it = net.iter();
    for text in ["127.0.16.0", "127.0.16.1", "127.0.16.2", "127.0.16.3", "127.0.16.4", "127.0.16.5", "127.0.16.6", "127.0.16.7"] {
        assert_eq!(it.next(), ip(text));
    }
    assert_eq!(it.next(), None);
}

#[test]
fn netaddr_loopback_max_value_properly_stops() {
    let net: NetAddr = "255.255.255.255/31".parse().unwrap();
    let mut it = net.iter();
    assert_eq!(it.next(), ip("255.255.255.254"));
    assert_eq!(it.next(), ip("255.255.255.255"));
    assert_eq!(it.next(), None);
}

#[test]
fn slash_128_produces_one_off() {
    let net: NetAddr = "2001:db8::1/128".parse().unwrap();
    let mut it = net.iter();
    assert_eq!(it.next(), ip("2001:db8::1"));
    assert_eq!(it.next(), None);
}

#[test]
fn slash_125_produces_all_ips_in_network() {
    let net: NetAddr = "2001:db8::1/125".parse().unwrap();
    let mut it = net.iter();
    for text in ["2001:db8::0", "2001:db8::1", "2001:db8::2", "2001:db8::3", "2001:db8::4", "2001:db8::5", "2001:db8::6", "2001:db8::7"] {
        assert_eq!(it.next(), ip(text));
    }
    assert_eq!(it.next(), None);
}

#[test]
fn v6_loopback_max_value_properly_stops() {
    let net: NetAddr = "ffff:ffff:ffff:ffff:ffff:ffff:ffff:ffff/127".parse().unwrap();
    let mut it = net.iter();
    assert_eq!(it.next(), ip("ffff:ffff:ffff:ffff:ffff:ffff:ffff:fffe"));
    assert_eq!(it.next(), ip("ffff:ffff:ffff:ffff:ffff:ffff:ffff:ffff"));
    assert_eq!(it.next(), None);
}

#[test]
fn host_network_before_the_last_address_yields_once() {
    let net: Netv4Addr = "255.255.255.254/32".parse().unwrap();
    let mut it = net.iter();
    assert_eq!(it.next(), Some(v4("255.255.255.254")));
    assert_eq!(it.next(), None);
}

#[test]
fn cidr_iteration_count_is_a_power_of_two() {
    for ones in 24..=32u32 {
        let net: Netv4Addr = format!("10.20.30.40/{}", ones).parse().unwrap();
        let mut it = net.iter();
        let mut count: u64 = 0;
        let mut prev: Option<u32> = None;
        while let Some(a) = it.next() {
            if let Some(p) = prev {
                assert!(a.0 > p);
            }
            prev = Some(a.0);
            count += 1;
        }
        assert_eq!(count, 1u64 << (32 - ones));
    }
}

#[test]
fn subnet_larger_network_returns_none() {
    let outer: Netv4Addr = "127.0.16.0/24".parse().unwrap();
    let mut it: SubnetIterator<Netv4Addr, Netv4Addr> = outer.subnets(v4("255.0.0.0"));
    assert_eq!(it.next(), None);
}

#[test]
fn subnet_same_sized_returns_once() {
    let outer: Netv4Addr = "127.16.32.0/24".parse().unwrap();
    let mut it = outer.subnets(v4("255.255.255.0"));
    assert_eq!(it.next(), Some("127.16.32.0/24".parse().unwrap()));
    assert_eq!(it.next(), None);
}

#[test]
fn subnet_half_sized_returns_twice() {
    let outer: Netv4Addr = "127.16.32.0/24".parse().unwrap();
    let mut it = outer.subnets(v4("255.255.255.128"));
    assert_eq!(it.next(), Some("127.16.32.0/25".parse().unwrap()));
    assert_eq!(it.next(), Some("127.16.32.128/25".parse().unwrap()));
    assert_eq!(it.next(), None);
}

#[test]
fn subnet_quarter_sized_returns_four_times() {
    let outer: Netv4Addr = "127.16.32.0/24".parse().unwrap();
    let mut it = outer.subnets(v4("255.255.255.192"));
    for text in ["127.16.32.0/26", "127.16.32.64/26", "127.16.32.128/26", "127.16.32.192/26"] {
        assert_eq!(it.next(), Some(text.parse().unwrap()));
    }
    assert_eq!(it.next(), None);
}

#[test]
fn subnet_eighth_sized_returns_eight_times() {
    let outer: Netv4Addr = "127.16.32.0/24".parse().unwrap();
    let mut it = outer.subnets(v4("255.255.255.224"));
    for last in [0, 32, 64, 96, 128, 160, 192, 224] {
        let expected: Netv4Addr = format!("127.16.32.{}/27", last).parse().unwrap();
        assert_eq!(it.next(), Some(expected));
    }
    assert_eq!(it.next(), None);
}

#[test]
fn subnet_larger_network_returns_none_v6() {
    let outer: Netv6Addr = "2001:db8:dead:beef::/64".parse().unwrap();
    let mut it: SubnetIterator<Netv6Addr, Netv6Addr> = outer.subnets(v6("ffff:ffff::"));
    assert_eq!(it.next(), None);
}

#[test]
fn subnet_same_sized_returns_once_v6() {
    let outer: Netv6Addr = "2001:db8:dead:beef::/64".parse().unwrap();
    let mut it = outer.subnets(v6("ffff:ffff:ffff:ffff::"));
    assert_eq!(it.next(), Some("2001:db8:dead:beef::/64".parse().unwrap()));
    assert_eq!(it.next(), None);
}

#[test]
fn subnet_half_sized_returns_twice_v6() {
    let outer: Netv6Addr = "2001:db8:dead:beef::/63".parse().unwrap();
    let mut it = outer.subnets(v6("ffff:ffff:ffff:ffff::"));
    assert_eq!(it.next(), "2001:db8:dead:beee::/64".parse().ok());
    assert_eq!(it.next(), "2001:db8:dead:beef::/64".parse().ok());
    assert_eq!(it.next(), None);
}

#[test]
fn subnet_quarter_sized_returns_four_times_v6() {
    let outer: Netv6Addr = "2001:db8:dead:beef::/62".parse().unwrap();
    let mut it = outer.subnets(v6("ffff:ffff:ffff:ffff::"));
    for text in ["2001:db8:dead:beec::/64", "2001:db8:dead:beed::/64", "2001:db8:dead:beee::/64", "2001:db8:dead:beef::/64"] {
        assert_eq!(it.next(), text.parse().ok());
    }
    assert_eq!(it.next(), None);
}

#[test]
fn subnet_eighth_sized_returns_eight_times_v6() {
    let outer: Netv6Addr = "2001:db8:dead:beef::/61".parse().unwrap();
    let mut it = outer.subnets(v6("ffff:ffff:ffff:ffff::"));
    for group in ["bee8", "bee9", "beea", "beeb", "beec", "beed", "beee", "beef"] {
        assert_eq!(it.next(), format!("2001:db8:dead:{}::/64", group).parse().ok());
    }
    assert_eq!(it.next(), None);
}

#[test]
fn subnets_of_the_whole_space_under_mask_zero() {
    let outer: Netv4Addr = "0.0.0.0/0".parse().unwrap();
    let mut it = outer.subnets(v4("0.0.0.0"));
    assert_eq!(it.next(), Some(outer));
    assert_eq!(it.next(), None);
}

#[test]
fn subnets_tile_the_outer_network() {
    let outer: Netv4Addr = "192.168.0.0/22".parse().unwrap();
    let mut it = outer.subnets(v4("255.255.255.0"));
    let mut next_start: u32 = outer.addr().0;
    let mut count = 0;
    while let Some(sub) = it.next() {
        assert_eq!(sub.addr().0, next_start);
        assert_eq!(sub.mask(), v4("255.255.255.0"));
        next_start += 256;
        count += 1;
    }
    assert_eq!(count, 4);
    assert_eq!(next_start, outer.addr().0 + 1024);
}

#[test]
fn subnet_larger_network_of_aligned_outer_returns_none() {
    let outer: Netv4Addr = "10.0.0.0/24".parse().unwrap();
    let mut it = outer.subnets(v4("255.0.0.0"));
    assert_eq!(it.next(), None);
    assert_eq!(it.next(), None);
    let outer: Netv6Addr = "2001:db8::/64".parse().unwrap();
    let mut it = outer.subnets(v6("ffff:ffff::"));
    assert_eq!(it.next(), None);
}
