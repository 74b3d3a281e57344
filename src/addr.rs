//! Network addresses held as plain values.
use vstd::prelude::*;

verus! {

/// An IP address: four octets for IPv4, one 128-bit value for IPv6.
#[derive(Clone, Copy, Debug, PartialEq, Eq, Structural, Hash, PartialOrd, Ord)]
pub enum IpAddr {
    V4(u8, u8, u8, u8),
    V6(u128),
}

/// An IP address together with a port.
#[derive(Clone, Copy, Debug, PartialEq, Eq, Structural, Hash, PartialOrd, Ord)]
pub struct SocketAddr {
    pub ip: IpAddr,
    pub port: u16,
}

impl SocketAddr {
    pub fn new(ip: IpAddr, port: u16) -> (r: SocketAddr)
        ensures
            r.ip == ip,
            r.port == port,
    {
        SocketAddr { ip, port }
    }
}

} // verus!
