use netaddr2::{IpAddress, Ipv4Address, Ipv6Address, Mask, Netv4Addr, Netv6Addr, Offset};

fn v4(s: &str) -> Ipv4Address {
    s.parse().unwrap()
}

fn v6(s: &str) -> Ipv6Address {
    s.parse().unwrap()
}

fn ip(s: &str) -> IpAddress {
    s.parse().unwrap()
}

#[test]
fn ipaddr_bidirectionally_returns_ok() {
    let a = ip("192.0.2.1");
    let b = ip("255.255.255.0");
    assert!(a.mask(&b).is_ok());
    assert!(b.mask(&a).is_ok());
}

#[test]
fn ipaddr_returns_correct_answer() {
    assert_eq!(ip("192.0.2.1").mask(&ip("255.255.255.0")), Ok(ip("192.0.2.0")));
    assert_eq!(ip("2001:db8::dead:beef").mask(&ip("ffff:ffff::")), Ok(ip("2001:db8::")));
}

#[test]
fn ipaddr_is_reflexive() {
    let a = ip("192.0.2.1");
    let b = ip("255.255.255.0");
    assert_eq!(a.mask(&b), b.mask(&a));
    let a = ip("2001:db8::dead:beef");
    let b = ip("ffff:ffff::");
    assert_eq!(a.mask(&b), b.mask(&a));
}

#[test]
fn v6_bidirectionally_returns_err() {
    let a = ip("192.0.2.0");
    let b = ip("ffff:ffff::");
    assert!(a.mask(&b).is_err());
    assert!(b.mask(&a).is_err());
}

#[test]
fn v6_returns_correct_error() {
    assert_eq!(ip("192.0.2.0").mask(&ip("ffff:ffff::")), Err("mismatched address types"));
}

#[test]
fn v6_is_reflexive() {
    let a = ip("192.0.2.0");
    let b = ip("ffff:ffff::");
    assert_eq!(a.mask(&b), b.mask(&a));
}

#[test]
fn v4_returns_correct_answer() {
    assert_eq!(ip("2001:db8::dead:beef").mask(&ip("255.255.255.0")), Err("mismatched address types"));
}

#[test]
fn ipv4addr_returns_correct_answer() {
    assert_eq!(v4("192.0.2.1").mask(&v4("255.255.255.0")), v4("192.0.2.0"));
}

#[test]
fn ipv4addr_is_reflexive() {
    let a = v4("192.0.2.1");
    let b = v4("255.255.255.0");
    assert_eq!(a.mask(&b), b.mask(&a));
}

#[test]
fn ipv6addr_returns_correct_answer() {
    assert_eq!(v6("2001:db8::dead:beef").mask(&v6("ffff:ffff::")), v6("2001:db8::"));
}

#[test]
fn ipv6addr_is_reflexive() {
    let a = v6("2001:db8::dead:beef");
    let b = v6("ffff:ffff::");
    assert_eq!(a.mask(&b), b.mask(&a));
}

#[test]
fn offsets_of_v4_addresses() {
    assert_eq!(v4("127.0.0.0").offset(0u32), Some(v4("127.0.0.0")));
    assert_eq!(v4("127.0.0.0").offset(2u32), Some(v4("127.0.0.2")));
    assert_eq!(v4("127.0.0.0").offset(1024u128), Some(v4("127.0.4.0")));
    assert_eq!(v4("127.0.0.0").offset(0x1_0000_0000u128), None);
    assert_eq!(v4("127.0.0.0").offset(-1i32), Some(v4("126.255.255.255")));
    assert_eq!(v4("0.0.0.0").offset(-1i32), None);
    assert_eq!(v4("255.255.255.255").offset(1i32), None);
    assert_eq!(v4("255.255.255.255").offset(1u32), None);
}

#[test]
fn offsets_of_v6_addresses() {
    assert_eq!(v6("2001:db8::").offset(1u32), Some(v6("2001:db8::1")));
    assert_eq!(v6("2001:db8::").offset(1024u128), Some(v6("2001:db8::400")));
    assert_eq!(v6("2001:db8::").offset(65536u128), Some(v6("2001:db8::1:0")));
    assert_eq!(v6("2001:db8::").offset(-1i32), Some(v6("2001:db7:ffff:ffff:ffff:ffff:ffff:ffff")));
    assert_eq!(v6("::").offset(-1i32), None);
    assert_eq!(v6("ffff:ffff:ffff:ffff:ffff:ffff:ffff:ffff").offset(1i32), None);
}

#[test]
fn offsets_of_addresses_of_either_family() {
    assert_eq!(ip("127.0.0.0").offset(2u32), Some(ip("127.0.0.2")));
    assert_eq!(ip("2001:db8::").offset(2i32), Some(ip("2001:db8::2")));
    assert_eq!(ip("2001:db8::").offset(2u128), Some(ip("2001:db8::2")));
}

#[test]
fn offsets_of_networks_stay_masked() {
    let n: Netv4Addr = "0.0.0.0/24".parse().unwrap();
    assert_eq!(n.offset(1u32), Some(n));
    assert_eq!(n.offset(256u32), Some("0.0.1.0/24".parse().unwrap()));
    let n: Netv6Addr = "::/64".parse().unwrap();
    assert_eq!(n.offset(2u128), Some(n));
}

#[test]
fn ipv6_text_forms() {
    assert_eq!(v6("::").0, 0);
    assert_eq!(v6("::1").0, 1);
    assert_eq!(v6("1::").0, 1u128 << 112);
    assert_eq!(v6("1:2:3:4:5:6:7:8"), Ipv6Address::new(1, 2, 3, 4, 5, 6, 7, 8));
    assert_eq!(v6("1:2:3:4:5:6:1.2.3.4"), Ipv6Address::new(1, 2, 3, 4, 5, 6, 0x0102, 0x0304));
    assert_eq!(v6("::ffff:127.0.0.1"), Ipv6Address::new(0, 0, 0, 0, 0, 0xffff, 0x7f00, 1));
    assert_eq!(v6("ABCD::EF"), Ipv6Address::new(0xabcd, 0, 0, 0, 0, 0, 0, 0xef));
    for bad in ["", ":", ":::", "1::2::3", "12345::", "1:2:3:4:5:6:7:8:9", "1:2:3:4:5:6:7:8::", "1.2.3.4::", "::1.2.3", "g::", "1:2:3:4:5:6:7", ":1:2:3:4:5:6:7"] {
        assert!(bad.parse::<Ipv6Address>().is_err(), "{}", bad);
    }
}

#[test]
fn ipv4_text_forms() {
    assert_eq!(v4("0.0.0.0").0, 0);
    assert_eq!(v4("255.255.255.255").0, u32::MAX);
    for bad in ["", "1.2.3", "1.2.3.4.5", "01.2.3.4", "256.0.0.0", "1..2.3", "a.b.c.d", "1.2.3.4 "] {
        assert!(bad.parse::<Ipv4Address>().is_err(), "{}", bad);
    }
}

#[test]
fn address_text_output() {
    assert_eq!(v4("192.0.2.1").to_string(), "192.0.2.1");
    assert_eq!(v6("2001:db8::1").to_string(), "2001:db8::1");
    assert_eq!(v6("::").to_string(), "::");
    assert_eq!(v6("::1").to_string(), "::1");
    assert_eq!(v6("1:0:0:2:0:0:0:3").to_string(), "1:0:0:2::3");
    assert_eq!(v6("1:0:0:2:3:0:0:4").to_string(), "1::2:3:0:0:4");
    assert_eq!(v6("1:0:2:3:4:5:6:7").to_string(), "1:0:2:3:4:5:6:7");
    assert_eq!(v6("::ffff:10.0.0.1").to_string(), "::ffff:10.0.0.1");
    assert_eq!(ip("10.0.0.1").to_string(), "10.0.0.1");
}
