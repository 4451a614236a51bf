//! Shared data: the probe protocol, frame-size rules and interface descriptors.
use vstd::prelude::*;

pub mod address;
pub mod frame_classifier;
pub mod packet_builder;

verus! {

/// Length of an Ethernet II header.
pub const ETHERNET_HEADER_LEN: usize = 14;

/// Length of an IPv4 header without options.
pub const IPV4_HEADER_LEN: usize = 20;

/// Largest frame this library builds.
pub const MAX_FRAME_SIZE: usize = 1500;

/// The transport carried by each probe.
#[derive(Clone, Copy, Debug, PartialEq, Eq, Structural)]
pub enum Protocol {
    ICMP,
    UDP,
    TCP,
}

/// Length of the transport header that a probe of protocol `p` carries.
pub open spec fn transport_header_len(p: Protocol) -> nat {
    match p {
        Protocol::ICMP => 8,
        Protocol::UDP => 8,
        Protocol::TCP => 20,
    }
}

/// Smallest frame that holds the Ethernet, IPv4 and transport headers.
pub open spec fn min_frame_size_spec(p: Protocol) -> nat {
    (ETHERNET_HEADER_LEN + IPV4_HEADER_LEN + transport_header_len(p)) as nat
}

/// A frame size that probes of protocol `p` can be built with.
pub open spec fn frame_size_ok(p: Protocol, mtu: nat) -> bool {
    min_frame_size_spec(p) <= mtu && mtu <= MAX_FRAME_SIZE
}

/// Smallest frame size accepted for protocol `p`.
pub fn min_frame_size(p: Protocol) -> (r: usize)
    ensures
        r == min_frame_size_spec(p),
{
    match p {
        Protocol::ICMP => 42,
        Protocol::UDP => 42,
        Protocol::TCP => 54,
    }
}

/// A network adapter as the host reports it: its name, MAC address and
/// bound IPv4 addresses.
#[derive(Clone, Debug)]
pub struct InterfaceDescriptor {
    pub name: String,
    pub mac: [u8; 6],
    pub ips: Vec<[u8; 4]>,
}

} // verus!
