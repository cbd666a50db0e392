use gossip_core::addr::Address;
use gossip_core::addr::IpSocket;
use gossip_core::addr::Ipv4;
use gossip_core::addr::Ipv6;
use gossip_core::gossip::Gossip;
use gossip_core::gossip::Profile;

fn v4(o0: u8, o1: u8, o2: u8, o3: u8) -> Ipv4 {
    Ipv4 { o0, o1, o2, o3 }
}

fn gossip_with_v4(ip: Ipv4, port: u16) -> Gossip {
    Gossip::from_profile(Profile {
        payload: Vec::new(),
        addr: Some(Address::Ip(IpSocket::V4(ip, port))),
    })
}

fn gossip_with_v6(ip: Ipv6, port: u16) -> Gossip {
    Gossip::from_profile(Profile {
        payload: Vec::new(),
        addr: Some(Address::Ip(IpSocket::V6(ip, port))),
    })
}

#[test]
fn gossip_global_ipv4_private() {
    let ip = v4(10, 0, 0, 1);
    let node = gossip_with_v4(ip, 1234);
    assert!(!node.is_global());
}

#[test]
fn gossip_global_ipv6_private() {
    let ip = v4(0, 0, 0, 0);
    let ipv6 = ip.to_ipv6_compatible();
    let node = gossip_with_v6(ipv6, 1234);
    assert!(!node.is_global());
}

#[test]
fn gossip_global_ipv4_loopback() {
    let ip = v4(127, 255, 255, 255);
    // Address should not be private but be loopback
    assert!(!ip.is_private());
    let node = gossip_with_v4(ip, 1234);
    assert!(!node.is_global());
}

#[test]
fn gossip_global_ipv6_loopback() {
    let ip = v4(127, 255, 255, 255);
    // Address should not be private but be loopback
    assert!(!ip.is_private());
    let ipv6 = ip.to_ipv6_compatible();
    let node = gossip_with_v6(ipv6, 1234);
    assert!(!node.is_global());
}

#[test]
fn gossip_global_ipv4_link_local() {
    let ip = v4(169, 254, 10, 65);
    // Address should not be private nor loopback
    assert!(!ip.is_private());
    assert!(!ip.is_loopback());
    let node = gossip_with_v4(ip, 1234);
    assert!(!node.is_global());
}

#[test]
fn gossip_global_ipv6_link_local() {
    let ip = v4(169, 254, 10, 65);
    // Address should not be private nor loopback
    assert!(!ip.is_private());
    assert!(!ip.is_loopback());
    let ipv6 = ip.to_ipv6_compatible();
    let node = gossip_with_v6(ipv6, 1234);
    assert!(!node.is_global());
}

#[test]
fn reserved_ipv4_ranges_not_global() {
    for ip in [
        v4(10, 0, 0, 1),
        v4(10, 255, 255, 255),
        v4(172, 16, 0, 1),
        v4(172, 31, 255, 255),
        v4(192, 168, 0, 1),
        v4(192, 168, 255, 255),
        v4(127, 0, 0, 1),
        v4(169, 254, 0, 1),
    ] {
        let node = gossip_with_v4(ip, 8080);
        assert!(node.has_valid_address());
        assert!(!node.is_global());
    }
}

#[test]
fn invalid_ipv4_neither_valid_nor_global() {
    for ip in [
        v4(0, 0, 0, 0),
        v4(255, 255, 255, 255),
        v4(224, 0, 0, 0),
        v4(224, 0, 0, 1),
        v4(239, 255, 255, 255),
        v4(192, 0, 2, 5),
        v4(198, 51, 100, 7),
        v4(203, 0, 113, 9),
    ] {
        let node = gossip_with_v4(ip, 8080);
        assert!(!node.has_valid_address());
        assert!(!node.is_global());
    }
}

#[test]
fn public_ipv4_valid_and_global() {
    let node = gossip_with_v4(v4(93, 184, 216, 34), 443);
    assert_eq!(
        node.address(),
        Some(Address::Ip(IpSocket::V4(v4(93, 184, 216, 34), 443)))
    );
    assert!(node.has_valid_address());
    assert!(node.is_global());
}

#[test]
fn ipv6_loopback_and_unspecified_not_global() {
    let loopback = Ipv6 { s0: 0, s1: 0, s2: 0, s3: 0, s4: 0, s5: 0, s6: 0, s7: 1 };
    let node = gossip_with_v6(loopback, 1234);
    assert!(node.has_valid_address());
    assert!(!node.is_global());

    let unspecified = Ipv6 { s0: 0, s1: 0, s2: 0, s3: 0, s4: 0, s5: 0, s6: 0, s7: 0 };
    let node = gossip_with_v6(unspecified, 1234);
    assert!(!node.has_valid_address());
    assert!(!node.is_global());
}

#[test]
fn ipv6_embedding_private_not_global() {
    let private = v4(10, 0, 0, 1);
    let compatible = gossip_with_v6(private.to_ipv6_compatible(), 1234);
    assert!(compatible.has_valid_address());
    assert!(!compatible.is_global());
    let mapped = gossip_with_v6(private.to_ipv6_mapped(), 1234);
    assert!(mapped.has_valid_address());
    assert!(!mapped.is_global());
}

#[test]
fn ipv6_multicast_not_valid() {
    let multicast = Ipv6 { s0: 0xff02, s1: 0, s2: 0, s3: 0, s4: 0, s5: 0, s6: 0, s7: 1 };
    let node = gossip_with_v6(multicast, 1234);
    assert!(!node.has_valid_address());
    assert!(!node.is_global());
}

#[test]
fn native_ipv6_passes_global_check() {
    // A native IPv6 unique-local address: the asymmetric policy does not
    // filter fc00::/7, so it counts as global once structurally valid.
    let ula = Ipv6 { s0: 0xfd00, s1: 0, s2: 0, s3: 0, s4: 0, s5: 0, s6: 0, s7: 1 };
    let node = gossip_with_v6(ula, 1234);
    assert!(node.has_valid_address());
    assert!(node.is_global());
}

#[test]
fn missing_or_unresolved_address_fails_closed() {
    let none = Gossip::from_profile(Profile { payload: vec![1, 2, 3], addr: None });
    assert_eq!(none.address(), None);
    assert!(!none.has_valid_address());
    assert!(!none.is_global());

    let unresolved = Gossip::from_profile(Profile {
        payload: vec![1, 2, 3],
        addr: Some(Address::Unresolved),
    });
    assert_eq!(unresolved.address(), Some(Address::Unresolved));
    assert!(!unresolved.has_valid_address());
    assert!(!unresolved.is_global());
}

#[test]
fn embedded_ipv4_extraction() {
    let ip = v4(93, 184, 216, 34);
    assert_eq!(ip.to_ipv6_compatible().to_ipv4(), Some(ip));
    assert_eq!(ip.to_ipv6_mapped().to_ipv4(), Some(ip));
    let native = Ipv6 { s0: 0x2001, s1: 0xdb8, s2: 0, s3: 0, s4: 0, s5: 0, s6: 0, s7: 1 };
    assert_eq!(native.to_ipv4(), None);
}
