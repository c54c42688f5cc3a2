//! Addresses of the two ends of a connection.
use vstd::prelude::*;

verus! {

/// The address of one end of a TCP connection.
#[derive(Clone, Copy, Debug, PartialEq, Eq, Structural)]
pub enum Addr {
    /// An IPv4 address, as the number its four octets spell, and a port.
    V4 { ip4: u32, port: u16 },
    /// An IPv6 address, as the number its sixteen octets spell, a port, and the two fields that
    /// IPv6 sockets add.
    V6 { ip6: u128, port: u16, flowinfo: u32, scope_id: u32 },
}

} // verus!
