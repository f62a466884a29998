//! Network addresses of peers.
use vstd::prelude::*;

verus! {

/// An IP address, as the integer that its octets spell in network order.
#[derive(Debug, Clone, Copy, PartialEq, Eq, Structural, Hash)]
pub enum IpAddr {
    V4(u32),
    V6(u128),
}

/// An IP address with a port.
#[derive(Debug, Clone, Copy, PartialEq, Eq, Structural, Hash)]
pub struct SocketAddr {
    pub ip: IpAddr,
    pub port: u16,
    /// The flow information of an IPv6 address; zero for IPv4.
    pub flow_info: u32,
    /// The scope of an IPv6 address; zero for IPv4.
    pub scope_id: u32,
}

impl SocketAddr {
    /// An address without flow information and scope.
    pub fn new(ip: IpAddr, port: u16) -> (addr: Self)
        ensures
            addr == (SocketAddr { ip, port, flow_info: 0, scope_id: 0 }),
    {
        Self { ip, port, flow_info: 0, scope_id: 0 }
    }
}

} // verus!
