//! Transport-level addresses.

use vstd::prelude::*;

verus! {

/// An IP address as one number, most significant byte first.
#[derive(Clone, Copy, Debug, PartialEq, Eq, Hash, Structural)]
pub enum IpAddress {
    V4(u32),
    V6(u128),
}

/// The protocol a socket speaks.
#[derive(Clone, Copy, Debug, PartialEq, Eq, Hash, Structural)]
pub enum Transport {
    Tcp,
    Udp,
}

/// The address of one peer socket: IP, port and protocol.
///
/// Two endpoints are the same when all three parts are the same, so the port
/// tells two sockets of one host apart.
#[derive(Clone, Copy, Debug, PartialEq, Eq, Hash, Structural)]
pub struct Endpoint {
    pub ip: IpAddress,
    pub port: u16,
    pub transport: Transport,
}

/// The multicast group on which presence is announced: 238.255.0.1.
pub const DISCOVERY_GROUP: u32 = 0xEEFF_0001;

/// The UDP port of the discovery group.
pub const DISCOVERY_PORT: u16 = 5877;

impl Endpoint {
    /// The TCP socket at `ip`, `port`.
    pub fn tcp(ip: IpAddress, port: u16) -> (e: Endpoint)
        ensures
            e == (Endpoint { ip, port, transport: Transport::Tcp }),
    {
        Endpoint { ip, port, transport: Transport::Tcp }
    }

    /// The UDP socket at `ip`, `port`.
    pub fn udp(ip: IpAddress, port: u16) -> (e: Endpoint)
        ensures
            e == (Endpoint { ip, port, transport: Transport::Udp }),
    {
        Endpoint { ip, port, transport: Transport::Udp }
    }

    /// The address every node sends its announcement to.
    pub fn discovery_group() -> (e: Endpoint)
        ensures
            e == (Endpoint {
                ip: IpAddress::V4(DISCOVERY_GROUP),
                port: DISCOVERY_PORT,
                transport: Transport::Udp,
            }),
    {
        Endpoint::udp(IpAddress::V4(DISCOVERY_GROUP), DISCOVERY_PORT)
    }

    /// Whether a stream connection stands behind this endpoint.
    pub fn is_tcp(&self) -> (b: bool)
        ensures
            b == (self.transport == Transport::Tcp),
    {
        self.transport == Transport::Tcp
    }
}

} // verus!
