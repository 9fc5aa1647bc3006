//! Concrete network endpoints: an address and a port.

use vstd::prelude::*;

verus! {

/// A resolved destination for datagrams.
#[derive(Clone, Copy, Debug, PartialEq, Eq, Hash)]
pub enum Destination {
    /// An IPv4 address, most significant octet first, and a port.
    V4 { octets: [u8; 4], port: u16 },
    /// An IPv6 address as eight 16-bit groups, most significant first, a port,
    /// and the flow information and scope identifier that go with the address.
    V6 { segments: [u16; 8], port: u16, flowinfo: u32, scope_id: u32 },
}

/// The mathematical value of a [`Destination`].
pub enum Endpoint {
    V4 { octets: Seq<u8>, port: u16 },
    V6 { segments: Seq<u16>, port: u16, flowinfo: u32, scope_id: u32 },
}

impl Endpoint {
    /// The port of the endpoint.
    pub open spec fn port(self) -> u16 {
        match self {
            Endpoint::V4 { port, .. } => port,
            Endpoint::V6 { port, .. } => port,
        }
    }

    /// The same address, flow information and scope, with `port` as the port.
    pub open spec fn with_port(self, port: u16) -> Endpoint {
        match self {
            Endpoint::V4 { octets, .. } => Endpoint::V4 { octets, port },
            Endpoint::V6 { segments, flowinfo, scope_id, .. } => Endpoint::V6 {
                segments,
                port,
                flowinfo,
                scope_id,
            },
        }
    }
}

impl View for Destination {
    type V = Endpoint;

    open spec fn view(&self) -> Endpoint {
        match *self {
            Destination::V4 { octets, port } => Endpoint::V4 { octets: octets@, port },
            Destination::V6 { segments, port, flowinfo, scope_id } => Endpoint::V6 {
                segments: segments@,
                port,
                flowinfo,
                scope_id,
            },
        }
    }
}

impl Destination {
    /// The port of the destination.
    pub fn port(&self) -> (port: u16)
        ensures
            port == self@.port(),
    {
        match self {
            Destination::V4 { port, .. } => *port,
            Destination::V6 { port, .. } => *port,
        }
    }

    /// The destination with its port replaced by `port`.
    pub fn with_port(self, port: u16) -> (moved: Destination)
        ensures
            moved@ == self@.with_port(port),
    {
        match self {
            Destination::V4 { octets, .. } => Destination::V4 { octets, port },
            Destination::V6 { segments, flowinfo, scope_id, .. } => Destination::V6 {
                segments,
                port,
                flowinfo,
                scope_id,
            },
        }
    }
}

} // verus!
