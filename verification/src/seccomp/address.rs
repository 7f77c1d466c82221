//! Socket addresses, and how the kernel lays them out in memory.
use crate::bytes::{
    be_bytes, be_value, lemma_be_bytes, lemma_be_value_2, lemma_be_value_4, lemma_be_value_bound,
    lemma_native_bytes, lemma_pow256_grows, native_bytes, native_value, pow256,
};
use vstd::prelude::*;

verus! {

/// An IPv4 address. The first octet is the most significant byte of `bits`.
#[derive(Debug, Clone, Copy, PartialEq, Eq, Structural)]
pub struct Ipv4Addr {
    pub bits: u32,
}

/// An IPv6 address. The first octet is the most significant byte of `bits`.
#[derive(Debug, Clone, Copy, PartialEq, Eq, Structural)]
pub struct Ipv6Addr {
    pub bits: u128,
}

#[derive(Debug, Clone, Copy, PartialEq, Eq, Structural)]
pub enum IpAddr {
    V4(Ipv4Addr),
    V6(Ipv6Addr),
}

#[derive(Debug, Clone, Copy, PartialEq, Eq, Structural)]
pub struct SocketAddrV4 {
    pub ip: Ipv4Addr,
    pub port: u16,
}

#[derive(Debug, Clone, Copy, PartialEq, Eq, Structural)]
pub struct SocketAddrV6 {
    pub ip: Ipv6Addr,
    pub port: u16,
    pub flowinfo: u32,
    pub scope_id: u32,
}

#[derive(Debug, Clone, Copy, PartialEq, Eq, Structural)]
pub enum SocketAddr {
    V4(SocketAddrV4),
    V6(SocketAddrV6),
}

impl Ipv4Addr {
    /// The address `a.b.c.d`.
    pub fn new(a: u8, b: u8, c: u8, d: u8) -> (r: Ipv4Addr)
        ensures
            r.bits == be_value(seq![a, b, c, d]),
    {
        proof {
            lemma_be_value_4(a, b, c, d);
        }
        Ipv4Addr { bits: a as u32 * 0x100_0000 + b as u32 * 0x1_0000 + c as u32 * 0x100 + d as u32 }
    }

    /// The loopback address `127.0.0.1`.
    pub fn localhost() -> (r: Ipv4Addr)
        ensures
            r.bits == 0x7F00_0001,
    {
        Ipv4Addr { bits: 0x7F00_0001 }
    }
}

impl Ipv6Addr {
    /// The loopback address `::1`.
    pub fn localhost() -> (r: Ipv6Addr)
        ensures
            r.bits == 1,
    {
        Ipv6Addr { bits: 1 }
    }
}

impl SocketAddr {
    pub open spec fn spec_ip(self) -> IpAddr {
        match self {
            SocketAddr::V4(a) => IpAddr::V4(a.ip),
            SocketAddr::V6(a) => IpAddr::V6(a.ip),
        }
    }

    pub fn new(ip: IpAddr, port: u16) -> (r: SocketAddr)
        ensures
            r == (match ip {
                IpAddr::V4(ip) => SocketAddr::V4(SocketAddrV4 { ip, port }),
                IpAddr::V6(ip) => SocketAddr::V6(
                    SocketAddrV6 { ip, port, flowinfo: 0, scope_id: 0 },
                ),
            }),
    {
        match ip {
            IpAddr::V4(ip) => SocketAddr::V4(SocketAddrV4 { ip, port }),
            IpAddr::V6(ip) => SocketAddr::V6(SocketAddrV6 { ip, port, flowinfo: 0, scope_id: 0 }),
        }
    }

    #[verifier::when_used_as_spec(spec_ip)]
    pub fn ip(self) -> (r: IpAddr)
        ensures
            r == self.spec_ip(),
    {
        match self {
            SocketAddr::V4(a) => IpAddr::V4(a.ip),
            SocketAddr::V6(a) => IpAddr::V6(a.ip),
        }
    }

    pub fn port(&self) -> (r: u16)
        ensures
            r == (match *self {
                SocketAddr::V4(a) => a.port,
                SocketAddr::V6(a) => a.port,
            }),
    {
        match self {
            SocketAddr::V4(a) => a.port,
            SocketAddr::V6(a) => a.port,
        }
    }
}

/// The address family of IPv4 on Linux.
pub const AF_INET: u16 = 2;

/// The address family of IPv6 on Linux.
pub const AF_INET6: u16 = 10;

/// The size of `struct sockaddr_in`.
pub const SOCKADDR_IN_LEN: usize = 16;

/// The size of `struct sockaddr_in6`.
pub const SOCKADDR_IN6_LEN: usize = 28;

/// The socket address that lies in `buf`, on a machine of the given byte order. The
/// family and the scope are in that order; the port and the flow label are in network
/// order.
pub open spec fn sockaddr_in(buf: Seq<u8>, little_endian: bool) -> Option<SocketAddr> {
    if buf.len() < 2 {
        None
    } else {
        let family = native_value(buf.subrange(0, 2), little_endian);
        if family == AF_INET && buf.len() >= SOCKADDR_IN_LEN {
            Some(
                SocketAddr::V4(
                    SocketAddrV4 {
                        ip: Ipv4Addr { bits: be_value(buf.subrange(4, 8)) as u32 },
                        port: be_value(buf.subrange(2, 4)) as u16,
                    },
                ),
            )
        } else if family == AF_INET6 && buf.len() >= SOCKADDR_IN6_LEN {
            Some(
                SocketAddr::V6(
                    SocketAddrV6 {
                        ip: Ipv6Addr { bits: be_value(buf.subrange(8, 24)) as u128 },
                        port: be_value(buf.subrange(2, 4)) as u16,
                        flowinfo: be_value(buf.subrange(4, 8)) as u32,
                        scope_id: native_value(buf.subrange(24, 28), little_endian) as u32,
                    },
                ),
            )
        } else {
            None
        }
    }
}

/// `value` is a reading of two bytes in one of the two byte orders.
pub open spec fn is_reading(first: u8, second: u8, value: u16) -> bool {
    value == first + second * 0x100 || value == first * 0x100 + second
}

/// Calls `u16::from_ne_bytes`. Claims that the two bytes are read with the first one
/// either the least or the most significant. Which of the two it is depends on the
/// machine.
#[verifier::external_body]
fn native_u16(first: u8, second: u8) -> (r: u16)
    ensures
        is_reading(first, second, r),
{
    u16::from_ne_bytes([first, second])
}

fn be16(buf: &[u8], at: usize) -> (r: u16)
    requires
        at + 2 <= buf@.len(),
    ensures
        r == be_value(buf@.subrange(at as int, at + 2)),
{
    let a = buf[at];
    let b = buf[at + 1];
    proof {
        lemma_be_value_2(a, b);
        assert(buf@.subrange(at as int, at + 2) =~= seq![a, b]);
    }
    a as u16 * 0x100 + b as u16
}

fn be32(buf: &[u8], at: usize) -> (r: u32)
    requires
        at + 4 <= buf@.len(),
    ensures
        r == be_value(buf@.subrange(at as int, at + 4)),
{
    let a = buf[at];
    let b = buf[at + 1];
    let c = buf[at + 2];
    let d = buf[at + 3];
    assert(buf@.subrange(at as int, at + 4) =~= seq![a, b, c, d]);
    Ipv4Addr::new(a, b, c, d).bits
}

fn native16(buf: &[u8], at: usize, little_endian: bool) -> (r: u16)
    requires
        at + 2 <= buf@.len(),
    ensures
        r == native_value(buf@.subrange(at as int, at + 2), little_endian),
{
    if little_endian {
        let a = buf[at];
        let b = buf[at + 1];
        proof {
            lemma_be_value_2(b, a);
            assert(buf@.subrange(at as int, at + 2).reverse() =~= seq![b, a]);
        }
        b as u16 * 0x100 + a as u16
    } else {
        be16(buf, at)
    }
}

fn native32(buf: &[u8], at: usize, little_endian: bool) -> (r: u32)
    requires
        at + 4 <= buf@.len(),
    ensures
        r == native_value(buf@.subrange(at as int, at + 4), little_endian),
{
    if little_endian {
        let a = buf[at];
        let b = buf[at + 1];
        let c = buf[at + 2];
        let d = buf[at + 3];
        assert(buf@.subrange(at as int, at + 4).reverse() =~= seq![d, c, b, a]);
        Ipv4Addr::new(d, c, b, a).bits
    } else {
        be32(buf, at)
    }
}

fn be128(buf: &[u8], at: usize) -> (r: u128)
    requires
        at + 16 <= buf@.len(),
    ensures
        r == be_value(buf@.subrange(at as int, at + 16)),
{
    let mut r: u128 = 0;
    assert(buf.len() <= usize::MAX);
    assert(buf@.subrange(at as int, at as int) =~= Seq::<u8>::empty());
    for i in 0usize..16
        invariant
            at + 16 <= buf@.len(),
            at + 16 <= usize::MAX,
            r == be_value(buf@.subrange(at as int, at + i)),
    {
        proof {
            let bytes = buf@.subrange(at as int, at + i + 1);
            assert(bytes.drop_last() =~= buf@.subrange(at as int, at + i));
            lemma_be_value_bound(buf@.subrange(at as int, at + i));
            reveal_with_fuel(pow256, 17);
            assert(pow256(15) * 256 == pow256(16));
            lemma_pow256_grows(i as nat, 15);
            assert(pow256(16) == 0x1_0000_0000_0000_0000_0000_0000_0000_0000);
        }
        r = r * 256 + buf[at + i] as u128;
    }
    r
}

/// The socket address that lies in `buf`, on a machine of the given byte order.
pub fn parse_sockaddr_ordered(buf: &[u8], little_endian: bool) -> (r: Option<SocketAddr>)
    ensures
        r == sockaddr_in(buf@, little_endian),
{
    if buf.len() < 2 {
        return None;
    }
    let family = native16(buf, 0, little_endian);
    if family == AF_INET && buf.len() >= SOCKADDR_IN_LEN {
        let port = be16(buf, 2);
        let bits = be32(buf, 4);
        Some(SocketAddr::V4(SocketAddrV4 { ip: Ipv4Addr { bits }, port }))
    } else if family == AF_INET6 && buf.len() >= SOCKADDR_IN6_LEN {
        let port = be16(buf, 2);
        let flowinfo = be32(buf, 4);
        let bits = be128(buf, 8);
        let scope_id = native32(buf, 24, little_endian);
        Some(SocketAddr::V6(SocketAddrV6 { ip: Ipv6Addr { bits }, port, flowinfo, scope_id }))
    } else {
        None
    }
}

/// The socket address that lies in `buf`, on a machine that reads the bytes 1 and 0 as
/// `probe`: as 1 where the first byte is the least significant, else as 0x100.
pub fn parse_sockaddr_probed(buf: &[u8], probe: u16) -> (r: Option<SocketAddr>)
    requires
        is_reading(1, 0, probe),
    ensures
        r == sockaddr_in(buf@, probe == 1),
{
    parse_sockaddr_ordered(buf, probe == 1)
}

/// The `sockaddr_in` or `sockaddr_in6` that lies in `buf`, in the byte order of this
/// machine, which shows in how it reads the bytes 1 and 0.
pub fn parse_sockaddr(buf: &[u8]) -> (r: Option<SocketAddr>)
    ensures
        exists|probe: u16| #[trigger]
            is_reading(1, 0, probe) && r == sockaddr_in(buf@, probe == 1),
{
    let probe = native_u16(1, 0);
    parse_sockaddr_probed(buf, probe)
}

/// How the kernel lays `addr` out in memory.
pub open spec fn sockaddr_bytes(addr: SocketAddr, little_endian: bool) -> Seq<u8> {
    match addr {
        SocketAddr::V4(a) => native_bytes(AF_INET as nat, 2, little_endian) + be_bytes(
            a.port as nat,
            2,
        ) + be_bytes(a.ip.bits as nat, 4) + Seq::new(8, |i: int| 0u8),
        SocketAddr::V6(a) => native_bytes(AF_INET6 as nat, 2, little_endian) + be_bytes(
            a.port as nat,
            2,
        ) + be_bytes(a.flowinfo as nat, 4) + be_bytes(a.ip.bits as nat, 16) + native_bytes(
            a.scope_id as nat,
            4,
            little_endian,
        ),
    }
}

/// Reading the memory that the kernel laid an address out in gives that address.
pub proof fn sockaddr_round_trip(addr: SocketAddr, little_endian: bool)
    ensures
        sockaddr_in(sockaddr_bytes(addr, little_endian), little_endian) == Some(addr),
{
    let buf = sockaddr_bytes(addr, little_endian);
    reveal_with_fuel(pow256, 17);
    match addr {
        SocketAddr::V4(a) => {
            lemma_native_bytes(AF_INET as nat, 2, little_endian);
            lemma_be_bytes(a.port as nat, 2);
            lemma_be_bytes(a.ip.bits as nat, 4);
            assert(buf.subrange(0, 2) =~= native_bytes(AF_INET as nat, 2, little_endian));
            assert(buf.subrange(2, 4) =~= be_bytes(a.port as nat, 2));
            assert(buf.subrange(4, 8) =~= be_bytes(a.ip.bits as nat, 4));
        },
        SocketAddr::V6(a) => {
            lemma_native_bytes(AF_INET6 as nat, 2, little_endian);
            lemma_be_bytes(a.port as nat, 2);
            lemma_be_bytes(a.flowinfo as nat, 4);
            lemma_be_bytes(a.ip.bits as nat, 16);
            lemma_native_bytes(a.scope_id as nat, 4, little_endian);
            assert(buf.subrange(0, 2) =~= native_bytes(AF_INET6 as nat, 2, little_endian));
            assert(buf.subrange(2, 4) =~= be_bytes(a.port as nat, 2));
            assert(buf.subrange(4, 8) =~= be_bytes(a.flowinfo as nat, 4));
            assert(buf.subrange(8, 24) =~= be_bytes(a.ip.bits as nat, 16));
            assert(buf.subrange(24, 28) =~= native_bytes(a.scope_id as nat, 4, little_endian));
        },
    }
}

/// Memory that is too short for an address of its family, and memory of any other family than
/// IPv4 and IPv6, holds no address; all other memory does.
pub proof fn whole_addresses_are_read(buf: Seq<u8>, little_endian: bool)
    ensures
        sockaddr_in(buf, little_endian) is Some <==> buf.len() >= 2 && {
            let family = native_value(buf.subrange(0, 2), little_endian);
            family == 2 && buf.len() >= 16 || family == 10 && buf.len() >= 28
        },
{
}

} // verus!
