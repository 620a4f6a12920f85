//! A flow-centric packet transformation engine: rule matching, flow
//! tables, dynamic NAT, overlay encapsulation and the per-port pipeline.

pub mod net;
pub mod oxide_net;
pub mod rule;
pub mod flow_table;
pub mod dyn_nat;
pub mod overlay;
pub mod firewall;
pub mod router;
pub mod tcp;
pub mod port;
pub mod registry;
