//! Port configuration for the rack network: the address plan of a port,
//! its dynamic NAT range and, optionally, its overlay attachment.
use std::ops::Range;
use vstd::prelude::*;

use crate::net::{EtherAddr, Ipv4Addr, Ipv6Addr, Vni, VpcSubnet4};

verus! {

/// Dynamic NAT: the public address and MAC, and the public ports
/// `ports.start .. ports.end` that outbound flows are translated to.
#[derive(Debug)]
pub struct DynNat4Config {
    pub public_mac: EtherAddr,
    pub public_ip: Ipv4Addr,
    pub ports: Range<u16>,
}

impl Clone for DynNat4Config {
    fn clone(&self) -> (r: Self)
        ensures
            r == *self,
    {
        DynNat4Config {
            public_mac: self.public_mac,
            public_ip: self.public_ip,
            ports: Range { start: self.ports.start, end: self.ports.end },
        }
    }
}

/// A host on the physical network: the boundary-services target.
#[derive(Clone, Copy, Debug, PartialEq, Eq, Structural)]
pub struct PhysNet {
    pub ether: EtherAddr,
    pub ip: Ipv6Addr,
    pub vni: Vni,
}

/// Overlay attachment of a port. The physical MACs stand in for the
/// physical routing service: the source is the host NIC, the destination
/// the physical gateway.
#[derive(Clone, Debug)]
pub struct OverlayConfig {
    pub boundary_services: PhysNet,
    pub vni: Vni,
    pub phys_mac_src: EtherAddr,
    pub phys_mac_dst: EtherAddr,
    pub phys_ip_src: Ipv6Addr,
}

/// Everything a port is created from. The overlay is optional: without
/// it the port runs on a local IPv4 network.
#[derive(Clone, Debug)]
pub struct PortConfig {
    pub vpc_subnet: VpcSubnet4,
    pub private_mac: EtherAddr,
    pub private_ip: Ipv4Addr,
    pub gw_mac: EtherAddr,
    pub gw_ip: Ipv4Addr,
    pub dyn_nat: DynNat4Config,
    pub overlay: Option<OverlayConfig>,
}

} // verus!
