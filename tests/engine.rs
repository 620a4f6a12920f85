use std::ops::Range;

use opte::dyn_nat::{NatError, NatPool};
use opte::firewall::{Address, FirewallRule, Filters, Layer, LayerError, Ports, ProtoFilter};
use opte::flow_table::FlowTable;
use opte::net::{Direction, EtherAddr, FlowId, Ipv4Addr, Ipv6Addr, Protocol, Vni, VpcSubnet4};
use opte::oxide_net::{DynNat4Config, OverlayConfig, PhysNet, PortConfig};
use opte::overlay::{decapsulate, encapsulate, OverlayError, HEADER_LEN};
use opte::port::{Decision, DropReason, Endpoint, Port, Transform};
use opte::router::{arp_reply, route, Route};
use opte::rule::{decide, select_rule, Action, Predicate, Rule};
use opte::tcp::{TcpFlags, TcpState};

fn ip(a: u8, b: u8, c: u8, d: u8) -> Ipv4Addr {
    Ipv4Addr { value: u32::from_be_bytes([a, b, c, d]) }
}

fn flow(proto: Protocol, src: Ipv4Addr, sport: u16, dst: Ipv4Addr, dport: u16) -> FlowId {
    FlowId { proto, src_ip: src, src_port: sport, dst_ip: dst, dst_port: dport }
}

fn nat_config(start: u16, end: u16) -> DynNat4Config {
    DynNat4Config {
        public_mac: EtherAddr { value: 0xa8_40_25_00_00_63 },
        public_ip: ip(10, 0, 0, 99),
        ports: Range { start, end },
    }
}

fn overlay_config(vni: u32) -> OverlayConfig {
    OverlayConfig {
        boundary_services: PhysNet {
            ether: EtherAddr { value: 0xa8_40_25_77_77_77 },
            ip: Ipv6Addr { value: 0xfd00_0000_0000_0000_0000_0000_0000_0001 },
            vni: Vni::new(99).unwrap(),
        },
        vni: Vni::new(vni).unwrap(),
        phys_mac_src: EtherAddr { value: 0xa8_40_25_00_00_01 },
        phys_mac_dst: EtherAddr { value: 0x78_23_ae_5d_4f_0d },
        phys_ip_src: Ipv6Addr { value: 0xfd00_0000_0000_0000_0000_0000_0000_00aa },
    }
}

fn port_config(start: u16, end: u16) -> PortConfig {
    PortConfig {
        vpc_subnet: VpcSubnet4 { cidr: ip(172, 20, 0, 0), prefix_len: 24 },
        private_mac: EtherAddr { value: 0xa8_40_25_00_00_05 },
        private_ip: ip(172, 20, 0, 5),
        gw_mac: EtherAddr { value: 0xa8_40_25_00_00_01 },
        gw_ip: ip(172, 20, 0, 1),
        dyn_nat: nat_config(start, end),
        overlay: None,
    }
}

fn allow_all(dir: Direction) -> FirewallRule {
    FirewallRule { direction: dir, filters: Filters::new(), action: Action::Allow, priority: 65535 }
}

fn no_flags() -> TcpFlags {
    TcpFlags { syn: false, ack: false, fin: false, rst: false }
}

fn rule(id: u64, priority: u16, predicates: Vec<Predicate>, action: Action) -> Rule {
    Rule { id, priority, predicates, action }
}

#[test]
fn selection_prefers_lower_priority_value() {
    let f = flow(Protocol::Tcp, ip(172, 20, 0, 5), 4000, ip(8, 8, 8, 8), 22);
    let rules = vec![
        rule(0, 100, vec![Predicate::Proto(Protocol::Tcp)], Action::Deny),
        rule(1, 10, vec![Predicate::DstPorts(22, 22)], Action::Allow),
        rule(2, 5, vec![Predicate::DstPorts(80, 80)], Action::Deny),
    ];
    assert_eq!(select_rule(&rules, &f), Some(1));
    assert_eq!(decide(&rules, Action::Deny, &f), Action::Allow);
}

#[test]
fn selection_breaks_ties_by_insertion_order() {
    let f = flow(Protocol::Udp, ip(172, 20, 0, 5), 53, ip(1, 1, 1, 1), 53);
    let rules = vec![
        rule(7, 10, vec![Predicate::Proto(Protocol::Tcp)], Action::Allow),
        rule(8, 10, vec![Predicate::Proto(Protocol::Udp)], Action::Deny),
        rule(9, 10, vec![], Action::Allow),
    ];
    assert_eq!(select_rule(&rules, &f), Some(1));
    for _ in 0..5 {
        assert_eq!(select_rule(&rules, &f), Some(1));
        assert_eq!(decide(&rules, Action::Allow, &f), Action::Deny);
    }
}

#[test]
fn selection_without_match_takes_default() {
    let f = flow(Protocol::Unknown(47), ip(10, 1, 1, 1), 0, ip(10, 1, 1, 2), 0);
    let rules = vec![rule(0, 1, vec![Predicate::Proto(Protocol::Tcp)], Action::Allow)];
    assert_eq!(select_rule(&rules, &f), None);
    assert_eq!(decide(&rules, Action::Deny, &f), Action::Deny);
    assert_eq!(decide(&Vec::new(), Action::Allow, &f), Action::Allow);
}

#[test]
fn subnet_and_port_predicates() {
    let sub = VpcSubnet4 { cidr: ip(172, 20, 0, 0), prefix_len: 24 };
    assert!(sub.contains(ip(172, 20, 0, 200)));
    assert!(!sub.contains(ip(172, 20, 1, 1)));
    let all = VpcSubnet4 { cidr: ip(0, 0, 0, 0), prefix_len: 0 };
    assert!(all.contains(ip(9, 9, 9, 9)));
    assert_eq!(opte::net::mask(24), 0xffff_ff00);
    assert_eq!(opte::net::mask(0), 0);
    assert_eq!(opte::net::mask(32), 0xffff_ffff);
    let f = flow(Protocol::Tcp, ip(172, 20, 0, 5), 1000, ip(172, 20, 0, 9), 443);
    let r = rule(0, 1, vec![Predicate::DstSubnet(sub), Predicate::DstPorts(400, 500), Predicate::SrcPorts(1000, 1000)], Action::Allow);
    assert!(r.matches(&f));
    let r2 = rule(0, 1, vec![Predicate::DstSubnet(sub), Predicate::DstPorts(444, 500)], Action::Allow);
    assert!(!r2.matches(&f));
}

#[test]
fn protocol_numbers() {
    assert_eq!(Protocol::from_number(6), Protocol::Tcp);
    assert_eq!(Protocol::from_number(17), Protocol::Udp);
    assert_eq!(Protocol::from_number(1), Protocol::Icmp);
    assert_eq!(Protocol::from_number(47), Protocol::Unknown(47));
}

#[test]
fn vni_is_24_bits() {
    assert_eq!(Vni::new(0xff_ffff).map(|v| v.value()), Some(0xff_ffff));
    assert!(Vni::new(0x100_0000).is_none());
}

#[test]
fn flow_table_evicts_least_recently_used() {
    let mut ft: FlowTable<u32> = FlowTable::new(3);
    let a = flow(Protocol::Udp, ip(1, 0, 0, 1), 1, ip(2, 0, 0, 1), 1);
    let b = flow(Protocol::Udp, ip(1, 0, 0, 2), 1, ip(2, 0, 0, 1), 1);
    let c = flow(Protocol::Udp, ip(1, 0, 0, 3), 1, ip(2, 0, 0, 1), 1);
    let d = flow(Protocol::Udp, ip(1, 0, 0, 4), 1, ip(2, 0, 0, 1), 1);
    assert_eq!(ft.insert(a, 1), None);
    assert_eq!(ft.insert(b, 2), None);
    assert_eq!(ft.insert(c, 3), None);
    assert!(ft.touch(&a));
    assert_eq!(ft.insert(d, 4), Some(b));
    assert_eq!(ft.len(), 3);
    assert_eq!(ft.lookup(&b), None);
    assert_eq!(ft.lookup(&a), Some(1));
    assert_eq!(ft.lookup(&d), Some(4));
    assert_eq!(ft.insert(b, 5), Some(c));
}

#[test]
fn flow_table_replace_remove_clear() {
    let mut ft: FlowTable<u32> = FlowTable::new(2);
    let a = flow(Protocol::Tcp, ip(1, 0, 0, 1), 1, ip(2, 0, 0, 1), 1);
    let b = a.reverse();
    assert_eq!(ft.insert(a, 1), None);
    assert_eq!(ft.insert(a, 9), None);
    assert_eq!(ft.len(), 1);
    assert_eq!(ft.lookup(&a), Some(9));
    assert_eq!(ft.remove(&b), None);
    assert_eq!(ft.remove(&a), Some(9));
    assert_eq!(ft.len(), 0);
    ft.insert(a, 1);
    ft.insert(b, 2);
    ft.clear();
    assert_eq!(ft.len(), 0);
    assert_eq!(ft.limit(), 2);
}

#[test]
fn nat_pool_first_fit_and_release() {
    let mut pool = NatPool::new(&nat_config(100, 103));
    let f1 = flow(Protocol::Tcp, ip(172, 20, 0, 5), 1, ip(8, 8, 8, 8), 80);
    let f2 = flow(Protocol::Tcp, ip(172, 20, 0, 5), 2, ip(8, 8, 8, 8), 80);
    let f3 = flow(Protocol::Tcp, ip(172, 20, 0, 5), 3, ip(8, 8, 8, 8), 80);
    let f4 = flow(Protocol::Tcp, ip(172, 20, 0, 5), 4, ip(8, 8, 8, 8), 80);
    assert_eq!(pool.allocate(&f1), Ok((ip(10, 0, 0, 99), 100)));
    assert_eq!(pool.allocate(&f2), Ok((ip(10, 0, 0, 99), 101)));
    assert_eq!(pool.allocate(&f1), Ok((ip(10, 0, 0, 99), 100)));
    assert_eq!(pool.allocate(&f3), Ok((ip(10, 0, 0, 99), 102)));
    assert_eq!(pool.allocate(&f4), Err(NatError::PoolExhausted));
    assert_eq!(pool.num_mappings(), 3);
    let m = pool.release(101).unwrap();
    assert_eq!(m.flow, f2);
    assert_eq!(m.private_port, 2);
    assert_eq!(pool.release(101), Err(NatError::NotMapped));
    assert_eq!(pool.allocate(&f4), Ok((ip(10, 0, 0, 99), 101)));
    assert_eq!(pool.lookup_public(101).map(|m| m.flow), Some(f4));
    assert_eq!(pool.release_flow(&f4).map(|m| m.public_port), Some(101));
    assert_eq!(pool.release_flow(&f4), None);
    assert!(pool.mapping_of(&f4).is_none());
}

#[test]
fn nat_pool_empty_range() {
    let mut pool = NatPool::new(&nat_config(500, 500));
    let f = flow(Protocol::Udp, ip(172, 20, 0, 5), 1, ip(8, 8, 8, 8), 53);
    assert_eq!(pool.allocate(&f), Err(NatError::PoolExhausted));
}

#[test]
fn overlay_round_trip_across_vnis() {
    let inner: Vec<u8> = (0u8..=200).collect();
    for vni in [0u32, 1, 255, 256, 7777, 0x12_3456, 0xff_ffff] {
        let cfg = overlay_config(vni);
        let outer = encapsulate(&inner, &cfg);
        assert_eq!(outer.len(), HEADER_LEN + inner.len());
        assert_eq!(&outer[..6], &[0x78, 0x23, 0xae, 0x5d, 0x4f, 0x0d]);
        assert_eq!(&outer[44..47], &[(vni >> 16) as u8, (vni >> 8) as u8, vni as u8]);
        assert_eq!(decapsulate(&outer, cfg.vni), Ok(inner.clone()));
    }
    let cfg = overlay_config(5);
    assert_eq!(decapsulate(&encapsulate(&Vec::new(), &cfg), cfg.vni), Ok(Vec::new()));
}

#[test]
fn overlay_rejects_bad_packets() {
    let cfg = overlay_config(5);
    let outer = encapsulate(&vec![1, 2, 3], &cfg);
    assert_eq!(decapsulate(&outer, Vni::new(6).unwrap()), Err(OverlayError::VniMismatch));
    assert_eq!(decapsulate(&outer[..47].to_vec(), cfg.vni), Err(OverlayError::Truncated));
}

#[test]
fn router_and_arp() {
    let cfg = port_config(10000, 10010);
    assert_eq!(route(&cfg, ip(172, 20, 0, 77)), Route::Local);
    assert_eq!(route(&cfg, ip(8, 8, 8, 8)), Route::Gateway);
    assert_eq!(arp_reply(&cfg, ip(172, 20, 0, 1)), Some(cfg.gw_mac));
    assert_eq!(arp_reply(&cfg, ip(172, 20, 0, 2)), None);
}

#[test]
fn tcp_state_machine() {
    let syn_ack = TcpFlags { syn: true, ack: true, fin: false, rst: false };
    let fin = TcpFlags { syn: false, ack: true, fin: true, rst: false };
    let rst = TcpFlags { syn: false, ack: false, fin: false, rst: true };
    let s = TcpState::New.next(Direction::In, syn_ack);
    assert_eq!(s, TcpState::Established);
    let s = s.next(Direction::Out, no_flags());
    assert_eq!(s, TcpState::Established);
    let s = s.next(Direction::Out, fin);
    assert_eq!(s, TcpState::Closing { fin_out: true, fin_in: false });
    assert_eq!(s.next(Direction::Out, fin), s);
    assert_eq!(s.next(Direction::In, fin), TcpState::Closed);
    assert_eq!(TcpState::Established.next(Direction::In, rst), TcpState::Closed);
}

#[test]
fn filters_build_predicates() {
    let f = Filters::new()
        .set_hosts(Address::Ip(ip(8, 8, 8, 8)))
        .protocol(ProtoFilter::Proto(Protocol::Tcp))
        .ports(Ports::PortRange(22, 22));
    assert_eq!(
        opte::firewall::predicates(Direction::Out, &f),
        vec![Predicate::DstIp(ip(8, 8, 8, 8)), Predicate::Proto(Protocol::Tcp), Predicate::DstPorts(22, 22)]
    );
    assert_eq!(opte::firewall::predicates(Direction::In, &f)[0], Predicate::SrcIp(ip(8, 8, 8, 8)));
    assert!(opte::firewall::predicates(Direction::In, &Filters::new()).is_empty());
}

#[test]
fn layer_rules_and_cache() {
    let mut layer = Layer::new(4);
    let f = flow(Protocol::Tcp, ip(8, 8, 8, 8), 5555, ip(172, 20, 0, 5), 22);
    assert_eq!(layer.process(Direction::In, &f), Action::Deny);
    let id = layer.add_rule(&FirewallRule {
        direction: Direction::In,
        filters: Filters::new().ports(Ports::PortRange(22, 22)),
        action: Action::Allow,
        priority: 1,
    });
    assert_eq!(id, Ok(0));
    assert_eq!(layer.process(Direction::In, &f), Action::Allow);
    assert_eq!(layer.process(Direction::In, &f), Action::Allow);
    assert_eq!(layer.remove_rule(Direction::Out, 0), Err(LayerError::RuleNotFound));
    assert_eq!(layer.remove_rule(Direction::In, 0), Ok(()));
    assert_eq!(layer.process(Direction::In, &f), Action::Deny);
}

#[test]
fn nat_exhaustion_scenario() {
    let mut port = Port::new("p".to_string(), port_config(10000, 10010));
    port.add_firewall_rule(&allow_all(Direction::Out)).unwrap();
    let mut seen = Vec::new();
    for i in 0..10u16 {
        let f = flow(Protocol::Udp, ip(172, 20, 0, 5), 3000 + i, ip(93, 184, 216, 34), 53);
        match port.process(Direction::Out, &f, no_flags()) {
            Decision::Forward(Transform { src_nat: Some(e), route: Route::Gateway, .. }) => {
                assert_eq!(e.ip, ip(10, 0, 0, 99));
                assert!((10000..10010).contains(&e.port));
                assert!(!seen.contains(&e.port));
                seen.push(e.port);
            }
            d => panic!("flow {} not translated: {:?}", i, d),
        }
    }
    let f = flow(Protocol::Udp, ip(172, 20, 0, 5), 4000, ip(93, 184, 216, 34), 53);
    assert_eq!(port.process(Direction::Out, &f, no_flags()), Decision::Drop(DropReason::NatExhausted));
    assert_eq!(port.dump_uft().uft_out_num_flows, 10);
}

#[test]
fn firewall_rule_add_remove_scenario() {
    let mut port = Port::new("p".to_string(), port_config(10000, 10010));
    let f = flow(Protocol::Tcp, ip(172, 20, 0, 5), 40000, ip(172, 20, 0, 9), 22);
    let rule = FirewallRule {
        direction: Direction::Out,
        filters: Filters::new().protocol(ProtoFilter::Proto(Protocol::Tcp)).ports(Ports::PortRange(22, 22)),
        action: Action::Allow,
        priority: 10,
    };
    let id = port.add_firewall_rule(&rule).unwrap();
    let allowed = port.process(Direction::Out, &f, no_flags());
    assert_eq!(
        allowed,
        Decision::Forward(Transform { src_nat: None, dst_nat: None, route: Route::Local, encap: false })
    );
    assert_eq!(port.process(Direction::Out, &f, no_flags()), allowed);
    port.remove_firewall_rule(Direction::Out, id).unwrap();
    assert_eq!(port.process(Direction::Out, &f, no_flags()), Decision::Drop(DropReason::Denied));
    assert_eq!(port.remove_firewall_rule(Direction::Out, id), Err(LayerError::RuleNotFound));
}

#[test]
fn tcp_close_releases_mapping_scenario() {
    let mut port = Port::new("p".to_string(), port_config(10000, 10010));
    port.add_firewall_rule(&allow_all(Direction::Out)).unwrap();
    port.add_firewall_rule(&allow_all(Direction::In)).unwrap();
    let out = flow(Protocol::Tcp, ip(172, 20, 0, 5), 40000, ip(93, 184, 216, 34), 443);
    let syn = TcpFlags { syn: true, ack: false, fin: false, rst: false };
    let syn_ack = TcpFlags { syn: true, ack: true, fin: false, rst: false };
    let fin = TcpFlags { syn: false, ack: true, fin: true, rst: false };
    let d = port.process(Direction::Out, &out, syn);
    let public = match d {
        Decision::Forward(Transform { src_nat: Some(e), .. }) => e,
        d => panic!("not translated: {:?}", d),
    };
    assert_eq!(public, Endpoint { ip: ip(10, 0, 0, 99), port: 10000 });
    let back = flow(Protocol::Tcp, ip(93, 184, 216, 34), 443, public.ip, public.port);
    let d = port.process(Direction::In, &back, syn_ack);
    assert_eq!(
        d,
        Decision::Forward(Transform {
            src_nat: None,
            dst_nat: Some(Endpoint { ip: ip(172, 20, 0, 5), port: 40000 }),
            route: Route::Local,
            encap: false,
        })
    );
    port.process(Direction::Out, &out, fin);
    assert_eq!(port.nat_pool.num_mappings(), 1);
    port.process(Direction::In, &back, fin);
    assert_eq!(port.nat_pool.num_mappings(), 0);
    assert!(port.uft_out.lookup(&out).is_none());
    assert!(port.tcp_flows.lookup(&out).is_none());
    assert_eq!(port.process(Direction::In, &back, no_flags()), Decision::Drop(DropReason::NoMapping));
}

#[test]
fn uft_dump_scenario() {
    let mut port = Port::new("p".to_string(), port_config(10000, 10010));
    port.add_firewall_rule(&allow_all(Direction::Out)).unwrap();
    port.add_firewall_rule(&allow_all(Direction::In)).unwrap();
    for i in 0..3u16 {
        let f = flow(Protocol::Udp, ip(172, 20, 0, 5), 5000 + i, ip(1, 1, 1, 1), 53);
        port.process(Direction::Out, &f, no_flags());
    }
    let f = flow(Protocol::Udp, ip(172, 20, 0, 9), 53, ip(172, 20, 0, 5), 6000);
    port.process(Direction::In, &f, no_flags());
    let dump = port.dump_uft();
    assert_eq!(dump.uft_out_num_flows, 3);
    assert_eq!(dump.uft_in_num_flows, 1);
    assert_eq!(dump.uft_out_limit, opte::port::UFT_LIMIT);
    assert_eq!(dump.uft_in_limit, opte::port::UFT_LIMIT);
    assert_eq!(dump.uft_out.len(), 3);
    assert_eq!(dump.uft_in[0].id, f);
}

#[test]
fn uft_hit_matches_full_pipeline() {
    let mut cached = Port::new("a".to_string(), port_config(10000, 10010));
    cached.add_firewall_rule(&allow_all(Direction::Out)).unwrap();
    let f = flow(Protocol::Udp, ip(172, 20, 0, 5), 7000, ip(9, 9, 9, 9), 123);
    let first = cached.process(Direction::Out, &f, no_flags());
    let hit = cached.process(Direction::Out, &f, no_flags());
    assert_eq!(first, hit);
    assert_eq!(cached.uft_out.entries[0].hits, 2);
    // The same pipeline with its UFT emptied before the packet.
    let mut fresh = Port::new("b".to_string(), port_config(10000, 10010));
    fresh.add_firewall_rule(&allow_all(Direction::Out)).unwrap();
    fresh.process(Direction::Out, &f, no_flags());
    fresh.uft_out.clear();
    assert_eq!(fresh.process(Direction::Out, &f, no_flags()), hit);
}

#[test]
fn overlay_port_marks_gateway_traffic_for_encapsulation() {
    let mut cfg = port_config(10000, 10010);
    cfg.overlay = Some(overlay_config(1234));
    let mut port = Port::new("o".to_string(), cfg);
    port.add_firewall_rule(&allow_all(Direction::Out)).unwrap();
    let f = flow(Protocol::Udp, ip(172, 20, 0, 5), 7000, ip(9, 9, 9, 9), 123);
    match port.process(Direction::Out, &f, no_flags()) {
        Decision::Forward(t) => assert!(t.encap),
        d => panic!("dropped: {:?}", d),
    }
    let local = flow(Protocol::Udp, ip(172, 20, 0, 5), 7000, ip(172, 20, 0, 6), 123);
    match port.process(Direction::Out, &local, no_flags()) {
        Decision::Forward(t) => assert!(!t.encap),
        d => panic!("dropped: {:?}", d),
    }
}

#[test]
fn overlay_stage_passes_through_without_overlay() {
    let pkt = vec![9u8, 8, 7];
    assert_eq!(opte::overlay::overlay_out(&None, pkt.clone()), pkt);
    assert_eq!(opte::overlay::overlay_in(&None, pkt.clone()), Ok(pkt.clone()));
    let cfg = Some(overlay_config(42));
    let outer = opte::overlay::overlay_out(&cfg, pkt.clone());
    assert_eq!(outer.len(), HEADER_LEN + 3);
    assert_eq!(opte::overlay::overlay_in(&cfg, outer), Ok(pkt.clone()));
    assert_eq!(opte::overlay::overlay_in(&cfg, pkt), Err(OverlayError::Truncated));
}
