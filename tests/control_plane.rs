use std::ops::Range;

use opte::firewall::{FirewallRule, Filters, LayerError, Ports, ProtoFilter};
use opte::net::{Direction, EtherAddr, FlowId, Ipv4Addr, Protocol, VpcSubnet4};
use opte::oxide_net::{DynNat4Config, PortConfig};
use opte::port::{Decision, DropReason};
use opte::registry::{PortRegistry, RegistryError};
use opte::rule::{Action, Predicate};
use opte::tcp::{TcpFlags, TcpState};

fn ip(a: u8, b: u8, c: u8, d: u8) -> Ipv4Addr {
    Ipv4Addr { value: u32::from_be_bytes([a, b, c, d]) }
}

fn config(mac: u64) -> PortConfig {
    PortConfig {
        vpc_subnet: VpcSubnet4 { cidr: ip(10, 0, 0, 0), prefix_len: 8 },
        private_mac: EtherAddr { value: mac },
        private_ip: ip(10, 0, 0, 5),
        gw_mac: EtherAddr { value: 0x1 },
        gw_ip: ip(10, 0, 0, 1),
        dyn_nat: DynNat4Config {
            public_mac: EtherAddr { value: 0x2 },
            public_ip: ip(192, 168, 1, 50),
            ports: Range { start: 2000, end: 2002 },
        },
        overlay: None,
    }
}

fn flags() -> TcpFlags {
    TcpFlags { syn: true, ack: false, fin: false, rst: false }
}

#[test]
fn register_list_unregister() {
    let mut reg = PortRegistry::new();
    assert_eq!(reg.register("a".to_string(), config(0xa)), Ok(()));
    assert_eq!(reg.register("b".to_string(), config(0xb)), Ok(()));
    assert_eq!(reg.register("a".to_string(), config(0xc)), Err(RegistryError::PortExists));
    let ports = reg.list_ports();
    assert_eq!(ports, vec![("a".to_string(), EtherAddr { value: 0xa }), ("b".to_string(), EtherAddr { value: 0xb })]);
    let p = reg.unregister(&"a".to_string()).unwrap();
    assert_eq!(p.name, "a");
    assert_eq!(reg.unregister(&"a".to_string()).err(), Some(RegistryError::PortNotFound));
    assert_eq!(reg.list_ports().len(), 1);
}

#[test]
fn requests_on_unknown_port_fail() {
    let mut reg = PortRegistry::new();
    let name = "nope".to_string();
    let f = FlowId { proto: Protocol::Udp, src_ip: ip(10, 0, 0, 5), src_port: 1, dst_ip: ip(8, 8, 8, 8), dst_port: 2 };
    assert_eq!(reg.process(&name, Direction::Out, &f, flags()), Err(RegistryError::PortNotFound));
    assert_eq!(reg.remove_firewall_rule(&name, Direction::In, 0), Err(RegistryError::PortNotFound));
    assert!(reg.dump_uft(&name).is_err());
    assert!(reg.dump_layer(&name).is_err());
    assert!(reg.dump_tcp_flows(&name).is_err());
}

#[test]
fn firewall_requests_and_dumps() {
    let mut reg = PortRegistry::new();
    let name = "p".to_string();
    reg.register(name.clone(), config(0xa)).unwrap();
    let rule = FirewallRule {
        direction: Direction::Out,
        filters: Filters::new().protocol(ProtoFilter::Proto(Protocol::Tcp)).ports(Ports::PortRange(443, 443)),
        action: Action::Allow,
        priority: 3,
    };
    assert_eq!(reg.add_firewall_rule(&name, &rule), Ok(0));
    assert_eq!(reg.add_firewall_rule(&name, &rule), Ok(1));
    assert_eq!(
        reg.remove_firewall_rule(&name, Direction::In, 0),
        Err(RegistryError::Layer(LayerError::RuleNotFound))
    );
    assert_eq!(reg.remove_firewall_rule(&name, Direction::Out, 1), Ok(()));

    let web = FlowId { proto: Protocol::Tcp, src_ip: ip(10, 0, 0, 5), src_port: 5000, dst_ip: ip(1, 2, 3, 4), dst_port: 443 };
    let ssh = FlowId { dst_port: 22, ..web };
    let d = reg.process(&name, Direction::Out, &web, flags()).unwrap();
    assert!(matches!(d, Decision::Forward(_)));
    assert_eq!(reg.process(&name, Direction::Out, &ssh, flags()), Ok(Decision::Drop(DropReason::Denied)));

    let layer = reg.dump_layer(&name).unwrap();
    assert_eq!(layer.rules_out.len(), 1);
    assert_eq!(layer.rules_out[0].id, 0);
    assert_eq!(layer.rules_out[0].predicates, vec![Predicate::Proto(Protocol::Tcp), Predicate::DstPorts(443, 443)]);
    assert!(layer.rules_in.is_empty());
    assert_eq!(layer.ft_out.len(), 2);

    let uft = reg.dump_uft(&name).unwrap();
    assert_eq!(uft.uft_out_num_flows, 2);
    assert_eq!(uft.uft_in_num_flows, 0);

    let tcp = reg.dump_tcp_flows(&name).unwrap();
    assert_eq!(tcp.len(), 1);
    assert_eq!(tcp[0].id, web);
    assert_eq!(tcp[0].value, TcpState::New);
}

#[test]
fn rst_tears_down_at_once() {
    let mut reg = PortRegistry::new();
    let name = "p".to_string();
    reg.register(name.clone(), config(0xa)).unwrap();
    reg.add_firewall_rule(&name, &FirewallRule {
        direction: Direction::Out,
        filters: Filters::new(),
        action: Action::Allow,
        priority: 1,
    })
    .unwrap();
    let f = FlowId { proto: Protocol::Tcp, src_ip: ip(10, 0, 0, 5), src_port: 5000, dst_ip: ip(1, 2, 3, 4), dst_port: 80 };
    let g = FlowId { src_port: 5001, ..f };
    let h = FlowId { src_port: 5002, ..f };
    reg.process(&name, Direction::Out, &f, flags()).unwrap();
    reg.process(&name, Direction::Out, &g, flags()).unwrap();
    assert_eq!(reg.process(&name, Direction::Out, &h, flags()), Ok(Decision::Drop(DropReason::NatExhausted)));
    let rst = TcpFlags { syn: false, ack: false, fin: false, rst: true };
    reg.process(&name, Direction::Out, &f, rst).unwrap();
    assert_eq!(reg.dump_uft(&name).unwrap().uft_out_num_flows, 1);
    assert!(matches!(reg.process(&name, Direction::Out, &h, flags()), Ok(Decision::Forward(_))));
}

#[test]
fn rules_are_dumped_in_selection_order() {
    let mut reg = PortRegistry::new();
    let name = "p".to_string();
    reg.register(name.clone(), config(0xa)).unwrap();
    let mk = |priority: u16, action: Action| FirewallRule {
        direction: Direction::Out,
        filters: Filters::new(),
        action,
        priority,
    };
    assert_eq!(reg.add_firewall_rule(&name, &mk(20, Action::Deny)), Ok(0));
    assert_eq!(reg.add_firewall_rule(&name, &mk(10, Action::Allow)), Ok(1));
    assert_eq!(reg.add_firewall_rule(&name, &mk(20, Action::Allow)), Ok(2));
    assert_eq!(reg.add_firewall_rule(&name, &mk(10, Action::Deny)), Ok(3));
    let layer = reg.dump_layer(&name).unwrap();
    let ids: Vec<u64> = layer.rules_out.iter().map(|r| r.id).collect();
    assert_eq!(ids, vec![1, 3, 0, 2]);
    let f = FlowId { proto: Protocol::Udp, src_ip: ip(10, 0, 0, 5), src_port: 1, dst_ip: ip(10, 0, 0, 6), dst_port: 2 };
    assert!(matches!(reg.process(&name, Direction::Out, &f, flags()), Ok(Decision::Forward(_))));
}

#[test]
fn nat_mappings_are_dumped() {
    let mut reg = PortRegistry::new();
    let name = "p".to_string();
    reg.register(name.clone(), config(0xa)).unwrap();
    reg.add_firewall_rule(&name, &FirewallRule {
        direction: Direction::Out,
        filters: Filters::new(),
        action: Action::Allow,
        priority: 1,
    })
    .unwrap();
    let f = FlowId { proto: Protocol::Udp, src_ip: ip(10, 0, 0, 5), src_port: 7, dst_ip: ip(1, 2, 3, 4), dst_port: 53 };
    reg.process(&name, Direction::Out, &f, flags()).unwrap();
    let m = reg.dump_nat(&name).unwrap();
    assert_eq!(m.len(), 1);
    assert_eq!(m[0].public_port, 2000);
    assert_eq!(m[0].private_port, 7);
    assert_eq!(m[0].flow, f);
    assert!(reg.dump_nat(&"q".to_string()).is_err());
}
