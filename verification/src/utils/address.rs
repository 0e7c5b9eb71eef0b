use vstd::prelude::*;

verus! {

/// A socket address as plain values: an IPv4 address and port, or an IPv6
/// address, port, flow information and scope.
#[derive(Clone, Copy, Debug, PartialEq, Eq)]
pub enum SocketAddress {
    V4 { ip: [u8; 4], port: u16 },
    V6 { segments: [u16; 8], port: u16, flowinfo: u32, scope_id: u32 },
}

impl SocketAddress {
    /// The port of the address.
    pub fn port(&self) -> (p: u16)
        ensures
            p == match *self {
                SocketAddress::V4 { port, .. } => port,
                SocketAddress::V6 { port, .. } => port,
            },
    {
        match self {
            SocketAddress::V4 { port, .. } => *port,
            SocketAddress::V6 { port, .. } => *port,
        }
    }
}

/// Builds the IPv4 socket address `ip[0].ip[1].ip[2].ip[3]:port`.
pub fn addr(ip: [u8; 4], port: u16) -> (a: SocketAddress)
    ensures
        a == (SocketAddress::V4 { ip: ip, port: port }),
{
    SocketAddress::V4 { ip, port }
}

} // verus!
