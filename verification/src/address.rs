//! Socket addresses as plain integers.
//!
//! The engine never opens a socket itself; it only decides which address a
//! caller should bind, dial or listen on. An address is therefore kept as the
//! numbers it is made of, in host byte order.

use vstd::prelude::*;

verus! {

/// An IPv4 or IPv6 socket address.
///
/// `ip` holds the address bits with the first octet (or segment) in the most
/// significant position, so `127.0.0.1` is `0x7f00_0001`.
#[derive(Clone, Copy, Debug, PartialEq, Eq, Hash, Structural)]
#[allow(inconsistent_fields)]
pub enum SocketAddress {
    V4 { ip: u32, port: u16 },
    V6 { ip: u128, port: u16, flowinfo: u32, scope_id: u32 },
}

/// The address bits of the dotted quad `a.b.c.d`.
pub open spec fn quad(a: u8, b: u8, c: u8, d: u8) -> int {
    a as int * 0x100_0000 + b as int * 0x1_0000 + c as int * 0x100 + d as int
}

impl SocketAddress {
    /// The IPv4 address `a.b.c.d` with the given port.
    pub fn v4(a: u8, b: u8, c: u8, d: u8, port: u16) -> (addr: SocketAddress)
        ensures
            addr == (SocketAddress::V4 { ip: quad(a, b, c, d) as u32, port }),
            quad(a, b, c, d) <= u32::MAX,
    {
        let ip: u32 = a as u32 * 0x100_0000 + b as u32 * 0x1_0000 + c as u32 * 0x100 + d as u32;
        SocketAddress::V4 { ip, port }
    }

    /// Whether this is an IPv6 address.
    pub open spec fn spec_is_ipv6(&self) -> bool {
        self is V6
    }

    /// Whether this is an IPv6 address.
    #[verifier::when_used_as_spec(spec_is_ipv6)]
    pub fn is_ipv6(&self) -> (b: bool)
        ensures
            b == self.spec_is_ipv6(),
    {
        match self {
            SocketAddress::V4 { .. } => false,
            SocketAddress::V6 { .. } => true,
        }
    }

    /// The port number.
    pub open spec fn spec_port(&self) -> u16 {
        match *self {
            SocketAddress::V4 { port, .. } => port,
            SocketAddress::V6 { port, .. } => port,
        }
    }

    /// The port number.
    #[verifier::when_used_as_spec(spec_port)]
    pub fn port(&self) -> (p: u16)
        ensures
            p == self.spec_port(),
    {
        match self {
            SocketAddress::V4 { port, .. } => *port,
            SocketAddress::V6 { port, .. } => *port,
        }
    }

    /// The wildcard address of the given family with port zero: `0.0.0.0:0`
    /// for IPv4 and `[::]:0` for IPv6.
    pub open spec fn any(ipv6: bool) -> SocketAddress {
        if ipv6 {
            SocketAddress::V6 { ip: 0, port: 0, flowinfo: 0, scope_id: 0 }
        } else {
            SocketAddress::V4 { ip: 0, port: 0 }
        }
    }

    /// The wildcard address, with port zero, of the family that `self`
    /// belongs to.
    pub fn unspecified_like(&self) -> (addr: SocketAddress)
        ensures
            addr == SocketAddress::any(self.is_ipv6()),
    {
        if self.is_ipv6() {
            SocketAddress::V6 { ip: 0, port: 0, flowinfo: 0, scope_id: 0 }
        } else {
            SocketAddress::V4 { ip: 0, port: 0 }
        }
    }
}

} // verus!
