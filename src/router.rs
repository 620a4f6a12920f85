//! Routing from static configuration, and the gateway's ARP answers.
use vstd::prelude::*;

use crate::net::{EtherAddr, Ipv4Addr};
use crate::oxide_net::PortConfig;

verus! {

/// Where a destination is reached from a port.
#[derive(Clone, Copy, Debug, PartialEq, Eq, Structural)]
pub enum Route {
    /// Inside the VPC subnet: delivered directly.
    Local,
    /// Outside it: forwarded to the gateway.
    Gateway,
}

pub open spec fn spec_route(cfg: PortConfig, dst: Ipv4Addr) -> Route {
    if cfg.vpc_subnet.spec_contains(dst) {
        Route::Local
    } else {
        Route::Gateway
    }
}

pub fn route(cfg: &PortConfig, dst: Ipv4Addr) -> (r: Route)
    ensures
        r == spec_route(*cfg, dst),
{
    if cfg.vpc_subnet.contains(dst) {
        Route::Local
    } else {
        Route::Gateway
    }
}

/// The MAC that the port's ARP responder gives for `target`: the
/// gateway's, for the gateway's address, and none for any other.
pub fn arp_reply(cfg: &PortConfig, target: Ipv4Addr) -> (r: Option<EtherAddr>)
    ensures
        target == cfg.gw_ip ==> r == Some(cfg.gw_mac),
        target != cfg.gw_ip ==> r is None,
{
    if target == cfg.gw_ip {
        Some(cfg.gw_mac)
    } else {
        None
    }
}

} // verus!
