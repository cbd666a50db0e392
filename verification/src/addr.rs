//! Address model and classification.
//!
//! A peer advertises an endpoint that may resolve to an IPv4 or IPv6 socket
//! address, or may be a non-IP endpoint that does not resolve at all.
//! Classification decides whether a resolved address is structurally
//! acceptable and whether it is globally routable. It is a pure function of
//! the address bytes and never errs: missing or unresolvable data always
//! yields the conservative answer.

use vstd::prelude::*;

verus! {

/// An IPv4 address as four octets, `o0.o1.o2.o3`.
#[derive(Clone, Copy, Debug, Hash, PartialEq, Eq, Structural)]
pub struct Ipv4 {
    pub o0: u8,
    pub o1: u8,
    pub o2: u8,
    pub o3: u8,
}

/// An IPv6 address as eight 16-bit segments, `s0:s1:...:s7`.
#[derive(Clone, Copy, Debug, Hash, PartialEq, Eq, Structural)]
pub struct Ipv6 {
    pub s0: u16,
    pub s1: u16,
    pub s2: u16,
    pub s3: u16,
    pub s4: u16,
    pub s5: u16,
    pub s6: u16,
    pub s7: u16,
}

/// A resolved socket address: an IP address together with a port.
#[derive(Clone, Copy, Debug, Hash, PartialEq, Eq, Structural)]
pub enum IpSocket {
    V4(Ipv4, u16),
    V6(Ipv6, u16),
}

/// A peer's advertised endpoint. `Unresolved` stands for an endpoint that
/// does not resolve to a socket address (for example a name not yet
/// resolved, or a non-IP transport); classification fails closed on it.
#[derive(Clone, Copy, Debug, Hash, PartialEq, Eq, Structural)]
pub enum Address {
    Ip(IpSocket),
    Unresolved,
}

pub open spec fn spec_ipv4_unspecified(ip: Ipv4) -> bool {
    ip.o0 == 0 && ip.o1 == 0 && ip.o2 == 0 && ip.o3 == 0
}

pub open spec fn spec_ipv4_broadcast(ip: Ipv4) -> bool {
    ip.o0 == 255 && ip.o1 == 255 && ip.o2 == 255 && ip.o3 == 255
}

/// 224.0.0.0/4
pub open spec fn spec_ipv4_multicast(ip: Ipv4) -> bool {
    224 <= ip.o0 <= 239
}

/// 192.0.2.0/24, 198.51.100.0/24, 203.0.113.0/24
pub open spec fn spec_ipv4_documentation(ip: Ipv4) -> bool {
    ||| (ip.o0 == 192 && ip.o1 == 0 && ip.o2 == 2)
    ||| (ip.o0 == 198 && ip.o1 == 51 && ip.o2 == 100)
    ||| (ip.o0 == 203 && ip.o1 == 0 && ip.o2 == 113)
}

/// 10.0.0.0/8, 172.16.0.0/12, 192.168.0.0/16
pub open spec fn spec_ipv4_private(ip: Ipv4) -> bool {
    ||| ip.o0 == 10
    ||| (ip.o0 == 172 && 16 <= ip.o1 <= 31)
    ||| (ip.o0 == 192 && ip.o1 == 168)
}

/// 127.0.0.0/8
pub open spec fn spec_ipv4_loopback(ip: Ipv4) -> bool {
    ip.o0 == 127
}

/// 169.254.0.0/16
pub open spec fn spec_ipv4_link_local(ip: Ipv4) -> bool {
    ip.o0 == 169 && ip.o1 == 254
}

impl Ipv4 {
    pub fn is_unspecified(&self) -> (r: bool)
        ensures
            r == spec_ipv4_unspecified(*self),
    {
        self.o0 == 0 && self.o1 == 0 && self.o2 == 0 && self.o3 == 0
    }

    pub fn is_broadcast(&self) -> (r: bool)
        ensures
            r == spec_ipv4_broadcast(*self),
    {
        self.o0 == 255 && self.o1 == 255 && self.o2 == 255 && self.o3 == 255
    }

    pub fn is_multicast(&self) -> (r: bool)
        ensures
            r == spec_ipv4_multicast(*self),
    {
        224 <= self.o0 && self.o0 <= 239
    }

    pub fn is_documentation(&self) -> (r: bool)
        ensures
            r == spec_ipv4_documentation(*self),
    {
        (self.o0 == 192 && self.o1 == 0 && self.o2 == 2)
            || (self.o0 == 198 && self.o1 == 51 && self.o2 == 100)
            || (self.o0 == 203 && self.o1 == 0 && self.o2 == 113)
    }

    pub fn is_private(&self) -> (r: bool)
        ensures
            r == spec_ipv4_private(*self),
    {
        self.o0 == 10 || (self.o0 == 172 && 16 <= self.o1 && self.o1 <= 31) || (self.o0 == 192
            && self.o1 == 168)
    }

    pub fn is_loopback(&self) -> (r: bool)
        ensures
            r == spec_ipv4_loopback(*self),
    {
        self.o0 == 127
    }

    pub fn is_link_local(&self) -> (r: bool)
        ensures
            r == spec_ipv4_link_local(*self),
    {
        self.o0 == 169 && self.o1 == 254
    }
}

pub open spec fn spec_ipv6_unspecified(ip: Ipv6) -> bool {
    ip.s0 == 0 && ip.s1 == 0 && ip.s2 == 0 && ip.s3 == 0 && ip.s4 == 0 && ip.s5 == 0 && ip.s6 == 0
        && ip.s7 == 0
}

/// ff00::/8
pub open spec fn spec_ipv6_multicast(ip: Ipv6) -> bool {
    0xff00 <= ip.s0
}

/// ::1
pub open spec fn spec_ipv6_loopback(ip: Ipv6) -> bool {
    ip.s0 == 0 && ip.s1 == 0 && ip.s2 == 0 && ip.s3 == 0 && ip.s4 == 0 && ip.s5 == 0 && ip.s6 == 0
        && ip.s7 == 1
}

/// The IPv4 address embedded in an IPv4-compatible (`::a.b.c.d`) or
/// IPv4-mapped (`::ffff:a.b.c.d`) IPv6 address, if there is one.
pub open spec fn spec_ipv6_to_ipv4(ip: Ipv6) -> Option<Ipv4> {
    if ip.s0 == 0 && ip.s1 == 0 && ip.s2 == 0 && ip.s3 == 0 && ip.s4 == 0 && (ip.s5 == 0 || ip.s5
        == 0xffff) {
        Some(
            Ipv4 {
                o0: (ip.s6 / 256) as u8,
                o1: (ip.s6 % 256) as u8,
                o2: (ip.s7 / 256) as u8,
                o3: (ip.s7 % 256) as u8,
            },
        )
    } else {
        None
    }
}

/// `::a.b.c.d` for an IPv4 address `a.b.c.d`.
pub open spec fn spec_ipv4_to_ipv6_compatible(ip: Ipv4) -> Ipv6 {
    Ipv6 {
        s0: 0,
        s1: 0,
        s2: 0,
        s3: 0,
        s4: 0,
        s5: 0,
        s6: (ip.o0 as u16 * 256 + ip.o1 as u16) as u16,
        s7: (ip.o2 as u16 * 256 + ip.o3 as u16) as u16,
    }
}

/// `::ffff:a.b.c.d` for an IPv4 address `a.b.c.d`.
pub open spec fn spec_ipv4_to_ipv6_mapped(ip: Ipv4) -> Ipv6 {
    Ipv6 {
        s5: 0xffff,
        ..spec_ipv4_to_ipv6_compatible(ip)
    }
}

impl Ipv6 {
    pub fn is_unspecified(&self) -> (r: bool)
        ensures
            r == spec_ipv6_unspecified(*self),
    {
        self.s0 == 0 && self.s1 == 0 && self.s2 == 0 && self.s3 == 0 && self.s4 == 0 && self.s5
            == 0 && self.s6 == 0 && self.s7 == 0
    }

    pub fn is_multicast(&self) -> (r: bool)
        ensures
            r == spec_ipv6_multicast(*self),
    {
        0xff00 <= self.s0
    }

    pub fn is_loopback(&self) -> (r: bool)
        ensures
            r == spec_ipv6_loopback(*self),
    {
        self.s0 == 0 && self.s1 == 0 && self.s2 == 0 && self.s3 == 0 && self.s4 == 0 && self.s5
            == 0 && self.s6 == 0 && self.s7 == 1
    }

    /// The embedded IPv4 address of an IPv4-compatible or IPv4-mapped
    /// address, or none for a native IPv6 address.
    pub fn to_ipv4(&self) -> (r: Option<Ipv4>)
        ensures
            r == spec_ipv6_to_ipv4(*self),
    {
        if self.s0 == 0 && self.s1 == 0 && self.s2 == 0 && self.s3 == 0 && self.s4 == 0 && (
        self.s5 == 0 || self.s5 == 0xffff) {
            Some(
                Ipv4 {
                    o0: (self.s6 / 256) as u8,
                    o1: (self.s6 % 256) as u8,
                    o2: (self.s7 / 256) as u8,
                    o3: (self.s7 % 256) as u8,
                },
            )
        } else {
            None
        }
    }
}

impl Ipv4 {
    /// The IPv4-compatible IPv6 address `::a.b.c.d`.
    pub fn to_ipv6_compatible(&self) -> (r: Ipv6)
        ensures
            r == spec_ipv4_to_ipv6_compatible(*self),
    {
        Ipv6 {
            s0: 0,
            s1: 0,
            s2: 0,
            s3: 0,
            s4: 0,
            s5: 0,
            s6: self.o0 as u16 * 256 + self.o1 as u16,
            s7: self.o2 as u16 * 256 + self.o3 as u16,
        }
    }

    /// The IPv4-mapped IPv6 address `::ffff:a.b.c.d`.
    pub fn to_ipv6_mapped(&self) -> (r: Ipv6)
        ensures
            r == spec_ipv4_to_ipv6_mapped(*self),
    {
        Ipv6 {
            s0: 0,
            s1: 0,
            s2: 0,
            s3: 0,
            s4: 0,
            s5: 0xffff,
            s6: self.o0 as u16 * 256 + self.o1 as u16,
            s7: self.o2 as u16 * 256 + self.o3 as u16,
        }
    }
}

/// A socket address is structurally acceptable for use in the overlay:
/// not unspecified, and for IPv4 not broadcast, multicast or a
/// documentation range, for IPv6 not multicast. Global routability is a
/// separate, stricter judgement.
pub open spec fn spec_valid_socket(sa: IpSocket) -> bool {
    match sa {
        IpSocket::V4(ip, _) => !spec_ipv4_unspecified(ip) && !spec_ipv4_broadcast(ip)
            && !spec_ipv4_multicast(ip) && !spec_ipv4_documentation(ip),
        IpSocket::V6(ip, _) => !spec_ipv6_unspecified(ip) && !spec_ipv6_multicast(ip),
    }
}

/// An IPv4 address is globally routable if it is not private, loopback or
/// link-local (on top of the structural checks of `spec_valid_socket`).
pub open spec fn spec_ipv4_global(ip: Ipv4) -> bool {
    !spec_ipv4_private(ip) && !spec_ipv4_loopback(ip) && !spec_ipv4_link_local(ip)
}

/// A socket address is globally routable. For IPv6 only the loopback is
/// rejected directly; if an IPv4 address is embedded (compatible or mapped
/// form), the IPv4 rules are applied to it and a negative result
/// propagates. Native IPv6 private and link-local ranges (fc00::/7,
/// fe80::/10) are deliberately not filtered here: the IPv6 path leans on
/// the IPv4 rules and is asymmetric by design.
pub open spec fn spec_global_socket(sa: IpSocket) -> bool {
    spec_valid_socket(sa) && match sa {
        IpSocket::V4(ip, _) => spec_ipv4_global(ip),
        IpSocket::V6(ip, _) => !spec_ipv6_loopback(ip) && match spec_ipv6_to_ipv4(ip) {
            Some(v4) => spec_ipv4_global(v4),
            None => true,
        },
    }
}

pub fn is_ipv4_global(ip: Ipv4) -> (r: bool)
    ensures
        r == spec_ipv4_global(ip),
{
    if ip.is_private() {
        return false;
    }
    if ip.is_loopback() {
        return false;
    }
    if ip.is_link_local() {
        return false;
    }
    true
}

impl IpSocket {
    /// Structural acceptability of this socket address.
    pub fn is_valid(&self) -> (r: bool)
        ensures
            r == spec_valid_socket(*self),
    {
        match self {
            IpSocket::V4(ip, _) => {
                if ip.is_unspecified() {
                    return false;
                }
                if ip.is_broadcast() {
                    return false;
                }
                if ip.is_multicast() {
                    return false;
                }
                if ip.is_documentation() {
                    return false;
                }
                true
            },
            IpSocket::V6(ip, _) => {
                if ip.is_unspecified() {
                    return false;
                }
                if ip.is_multicast() {
                    return false;
                }
                true
            },
        }
    }

    /// Global routability of this socket address.
    pub fn is_global(&self) -> (r: bool)
        ensures
            r == spec_global_socket(*self),
    {
        if !self.is_valid() {
            return false;
        }
        match self {
            IpSocket::V4(ip, _) => is_ipv4_global(*ip),
            IpSocket::V6(ip, _) => {
                if ip.is_loopback() {
                    return false;
                }
                match ip.to_ipv4() {
                    Some(v4) => is_ipv4_global(v4),
                    None => true,
                }
            },
        }
    }
}

impl Address {
    /// The socket address this endpoint resolves to, if any.
    pub fn to_socket_addr(&self) -> (r: Option<IpSocket>)
        ensures
            r == spec_to_socket_addr(*self),
    {
        match self {
            Address::Ip(sa) => Some(*sa),
            Address::Unresolved => None,
        }
    }
}

pub open spec fn spec_to_socket_addr(a: Address) -> Option<IpSocket> {
    match a {
        Address::Ip(sa) => Some(sa),
        Address::Unresolved => None,
    }
}

/// Every address in the IPv4 private (10.0.0.0/8, 172.16.0.0/12,
/// 192.168.0.0/16), loopback (127.0.0.0/8) or link-local (169.254.0.0/16)
/// ranges is not globally routable, on any port.
pub proof fn lemma_ipv4_reserved_not_global(ip: Ipv4, port: u16)
    requires
        spec_ipv4_private(ip) || spec_ipv4_loopback(ip) || spec_ipv4_link_local(ip),
    ensures
        !spec_global_socket(IpSocket::V4(ip, port)),
{
}

/// Every unspecified (0.0.0.0), broadcast (255.255.255.255), multicast
/// (224.0.0.0/4) or documentation-range (192.0.2.0/24, 198.51.100.0/24,
/// 203.0.113.0/24) IPv4 address is neither structurally acceptable nor
/// globally routable, on any port.
pub proof fn lemma_ipv4_invalid_not_global(ip: Ipv4, port: u16)
    requires
        spec_ipv4_unspecified(ip) || spec_ipv4_broadcast(ip) || spec_ipv4_multicast(ip)
            || spec_ipv4_documentation(ip),
    ensures
        !spec_valid_socket(IpSocket::V4(ip, port)),
        !spec_global_socket(IpSocket::V4(ip, port)),
{
}

/// The IPv6 loopback and unspecified addresses are not globally routable,
/// on any port.
pub proof fn lemma_ipv6_loopback_unspecified_not_global(ip: Ipv6, port: u16)
    requires
        spec_ipv6_loopback(ip) || spec_ipv6_unspecified(ip),
    ensures
        !spec_global_socket(IpSocket::V6(ip, port)),
{
}

/// Embedding an IPv4 address into IPv6 (compatible `::a.b.c.d` or mapped
/// `::ffff:a.b.c.d` form) and extracting it again gives the address back.
pub proof fn lemma_ipv6_embedding_round_trip(ip: Ipv4)
    ensures
        spec_ipv6_to_ipv4(spec_ipv4_to_ipv6_compatible(ip)) == Some(ip),
        spec_ipv6_to_ipv4(spec_ipv4_to_ipv6_mapped(ip)) == Some(ip),
{
    assert((ip.o0 as int * 256 + ip.o1 as int) / 256 == ip.o0 as int && (ip.o0 as int * 256
        + ip.o1 as int) % 256 == ip.o1 as int) by (nonlinear_arith)
        requires
            0 <= ip.o0 < 256,
            0 <= ip.o1 < 256,
    ;
    assert((ip.o2 as int * 256 + ip.o3 as int) / 256 == ip.o2 as int && (ip.o2 as int * 256
        + ip.o3 as int) % 256 == ip.o3 as int) by (nonlinear_arith)
        requires
            0 <= ip.o2 < 256,
            0 <= ip.o3 < 256,
    ;
}

/// An IPv6 address that embeds an IPv4 private, loopback or link-local
/// address (in compatible or mapped form) is not globally routable: the
/// negative IPv4 judgement propagates through the embedding.
pub proof fn lemma_embedded_ipv4_reserved_not_global(ip: Ipv4, port: u16)
    requires
        spec_ipv4_private(ip) || spec_ipv4_loopback(ip) || spec_ipv4_link_local(ip),
    ensures
        !spec_global_socket(IpSocket::V6(spec_ipv4_to_ipv6_compatible(ip), port)),
        !spec_global_socket(IpSocket::V6(spec_ipv4_to_ipv6_mapped(ip), port)),
{
    lemma_ipv6_embedding_round_trip(ip);
}

} // verus!
