//! The port pipeline: firewall, router, dynamic NAT and overlay composed
//! for one virtual endpoint, with a Unified Flow Table (UFT) per
//! direction caching the composed decision of each flow.
use vstd::prelude::*;

use crate::dyn_nat::NatPool;
use crate::firewall::{rule_added, rule_removed, FirewallRule, Layer, LayerError};
use crate::flow_table::{FlowEntry, FlowTable};
use crate::net::{Direction, FlowId, Ipv4Addr, Protocol};
use crate::oxide_net::PortConfig;
use crate::router::{route, spec_route, Route};
use crate::rule::Action;
use crate::tcp::{TcpFlags, TcpState};

verus! {

/// Flows each layer's cache holds per direction.
pub const FT_LIMIT: usize = 8192;

/// Flows each UFT holds per direction.
pub const UFT_LIMIT: usize = 8192;

/// Flows whose TCP state is tracked.
pub const TCP_LIMIT: usize = 8192;

#[derive(Clone, Copy, Debug, PartialEq, Eq, Structural)]
pub struct Endpoint {
    pub ip: Ipv4Addr,
    pub port: u16,
}

#[derive(Clone, Copy, Debug, PartialEq, Eq, Structural)]
pub enum DropReason {
    /// The firewall denied the flow.
    Denied,
    /// No public port was free for the flow.
    NatExhausted,
    /// Traffic to the public address on a port that no flow holds.
    NoMapping,
}

/// The composed rewrite of a flow: source translation (outbound),
/// destination translation (inbound), the route, and whether the packet
/// goes out encapsulated.
#[derive(Clone, Copy, Debug, PartialEq, Eq, Structural)]
pub struct Transform {
    pub src_nat: Option<Endpoint>,
    pub dst_nat: Option<Endpoint>,
    pub route: Route,
    pub encap: bool,
}

#[derive(Clone, Copy, Debug, PartialEq, Eq, Structural)]
pub enum Decision {
    Drop(DropReason),
    Forward(Transform),
}

pub open spec fn local_transform() -> Transform {
    Transform { src_nat: None, dst_nat: None, route: Route::Local, encap: false }
}

/// What a dump of the UFT reports.
#[derive(Debug)]
pub struct UftDump {
    pub uft_in_num_flows: usize,
    pub uft_in_limit: usize,
    pub uft_out_num_flows: usize,
    pub uft_out_limit: usize,
    pub uft_in: Vec<FlowEntry<Decision>>,
    pub uft_out: Vec<FlowEntry<Decision>>,
}

/// One virtual endpoint: its configuration, its firewall layer, its NAT
/// pool, a UFT per direction and the TCP state of its flows.
#[derive(Debug)]
pub struct Port {
    pub name: String,
    pub config: PortConfig,
    pub firewall: Layer,
    pub nat_pool: NatPool,
    pub uft_in: FlowTable<Decision>,
    pub uft_out: FlowTable<Decision>,
    pub tcp_flows: FlowTable<TcpState>,
}

impl Port {
    /// The full pipeline on an outbound flow: the firewall, then the
    /// router; traffic for the gateway is source-translated by the flow's
    /// NAT mapping and encapsulated when the port has an overlay.
    pub open spec fn spec_outbound(&self, f: FlowId) -> Decision {
        if self.firewall.spec_evaluate(Direction::Out, f) == Action::Deny {
            Decision::Drop(DropReason::Denied)
        } else if spec_route(self.config, f.dst_ip) == Route::Local {
            Decision::Forward(local_transform())
        } else if self.nat_pool.flow_mapped(f) {
            Decision::Forward(
                Transform {
                    src_nat: Some(
                        Endpoint {
                            ip: self.nat_pool.public_ip,
                            port: self.nat_pool.spec_mapping_of(f).public_port,
                        },
                    ),
                    dst_nat: None,
                    route: Route::Gateway,
                    encap: self.config.overlay is Some,
                },
            )
        } else {
            Decision::Drop(DropReason::NoMapping)
        }
    }

    /// The full pipeline on an inbound flow: the firewall, then, for the
    /// public address, the reverse translation of the mapping holding the
    /// destination port.
    pub open spec fn spec_inbound(&self, f: FlowId) -> Decision {
        if self.firewall.spec_evaluate(Direction::In, f) == Action::Deny {
            Decision::Drop(DropReason::Denied)
        } else if f.dst_ip == self.nat_pool.public_ip {
            if self.nat_pool.port_used(f.dst_port) {
                Decision::Forward(
                    Transform {
                        src_nat: None,
                        dst_nat: Some(
                            Endpoint {
                                ip: self.nat_pool.spec_mapping_at(f.dst_port).private_ip,
                                port: self.nat_pool.spec_mapping_at(f.dst_port).private_port,
                            },
                        ),
                        route: Route::Local,
                        encap: false,
                    },
                )
            } else {
                Decision::Drop(DropReason::NoMapping)
            }
        } else {
            Decision::Forward(local_transform())
        }
    }

    pub open spec fn spec_pipeline(&self, dir: Direction, f: FlowId) -> Decision {
        if dir == Direction::In {
            self.spec_inbound(f)
        } else {
            self.spec_outbound(f)
        }
    }

    pub open spec fn uft(&self, dir: Direction) -> FlowTable<Decision> {
        if dir == Direction::In {
            self.uft_in
        } else {
            self.uft_out
        }
    }

    /// Every UFT entry holds what the full pipeline decides now.
    pub open spec fn uft_agrees(&self, dir: Direction) -> bool {
        forall|i: int|
            0 <= i < self.uft(dir).entries@.len() ==> (#[trigger] self.uft(dir).entries@[i]).value
                == self.spec_pipeline(dir, self.uft(dir).entries@[i].id)
    }

    pub open spec fn wf(&self) -> bool {
        &&& self.firewall.wf()
        &&& self.nat_pool.wf()
        &&& self.uft_in.wf()
        &&& self.uft_out.wf()
        &&& self.tcp_flows.wf()
        &&& self.uft_agrees(Direction::In)
        &&& self.uft_agrees(Direction::Out)
        &&& self.uft_in.limit == UFT_LIMIT
        &&& self.uft_out.limit == UFT_LIMIT
        &&& forall|i: int|
            0 <= i < self.uft_out.entries@.len() ==> (#[trigger] self.uft_out.entries@[i]).value
                != Decision::Drop(DropReason::NoMapping)
    }

    pub fn new(name: String, config: PortConfig) -> (r: Port)
        ensures
            r.wf(),
            r.name == name,
            r.config == config,
            r.firewall.rules_in@.len() == 0,
            r.firewall.rules_out@.len() == 0,
            r.nat_pool.mappings@.len() == 0,
            r.nat_pool.public_ip == config.dyn_nat.public_ip,
            r.nat_pool.start == config.dyn_nat.ports.start,
            r.nat_pool.end == config.dyn_nat.ports.end,
            r.uft_in.entries@.len() == 0,
            r.uft_out.entries@.len() == 0,
            r.uft_in.limit == UFT_LIMIT,
            r.uft_out.limit == UFT_LIMIT,
            r.firewall.next_id == 0,
    {
        let nat_pool = NatPool::new(&config.dyn_nat);
        Port {
            name,
            config,
            firewall: Layer::new(FT_LIMIT),
            nat_pool,
            uft_in: FlowTable::new(UFT_LIMIT),
            uft_out: FlowTable::new(UFT_LIMIT),
            tcp_flows: FlowTable::new(TCP_LIMIT),
        }
    }

    /// Decide an inbound flow: from the UFT on a hit, else by the full
    /// pipeline, whose decision is then cached.
    pub fn process_in(&mut self, f: &FlowId) -> (r: Decision)
        requires
            old(self).wf(),
        ensures
            final(self).wf(),
            r == old(self).spec_inbound(*f),
            r == final(self).spec_inbound(*f),
            final(self).config == old(self).config,
            final(self).name == old(self).name,
            final(self).nat_pool == old(self).nat_pool,
            final(self).firewall.rules_in@ == old(self).firewall.rules_in@,
            final(self).firewall.rules_out@ == old(self).firewall.rules_out@,
            final(self).uft_out == old(self).uft_out,
            final(self).tcp_flows == old(self).tcp_flows,
    {
        match self.uft_in.lookup(f) {
            Some(d) => {
                self.uft_in.touch(f);
                proof {
                    let i = choose|i: int|
                        0 <= i < old(self).uft_in.entries@.len()
                            && #[trigger] old(self).uft_in.entries@[i].id == *f
                            && old(self).uft_in.entries@[i].value == d;
                    assert(old(self).uft(Direction::In).entries@[i] == old(self).uft_in.entries@[i]);
                    assert forall|j: int| 0 <= j < self.uft(Direction::In).entries@.len() implies
                        (#[trigger] self.uft(Direction::In).entries@[j]).value
                        == self.spec_pipeline(Direction::In, self.uft(Direction::In).entries@[j].id) by {
                        assert(self.uft_in.entries@[j] == self.uft(Direction::In).entries@[j]);
                        assert(old(self).uft(Direction::In).entries@[j] == old(self).uft_in.entries@[j]);
                    }
                    assert forall|j: int| 0 <= j < self.uft(Direction::Out).entries@.len() implies
                        (#[trigger] self.uft(Direction::Out).entries@[j]).value
                        == self.spec_pipeline(Direction::Out, self.uft(Direction::Out).entries@[j].id) by {
                        assert(old(self).uft(Direction::Out).entries@[j] == self.uft(Direction::Out).entries@[j]);
                    }
                }
                d
            },
            None => {
                let act = self.firewall.process(Direction::In, f);
                let d = if act == Action::Deny {
                    Decision::Drop(DropReason::Denied)
                } else if f.dst_ip == self.nat_pool.public_ip {
                    match self.nat_pool.find_port(f.dst_port) {
                        Some(i) => {
                            let m = self.nat_pool.mappings[i];
                            proof {
                                self.nat_pool.lemma_mapping_of(i as int);
                            }
                            Decision::Forward(
                                Transform {
                                    src_nat: None,
                                    dst_nat: Some(Endpoint { ip: m.private_ip, port: m.private_port }),
                                    route: Route::Local,
                                    encap: false,
                                },
                            )
                        },
                        None => Decision::Drop(DropReason::NoMapping),
                    }
                } else {
                    Decision::Forward(
                        Transform { src_nat: None, dst_nat: None, route: Route::Local, encap: false },
                    )
                };
                let ghost mid = self.uft_in;
                self.uft_in.insert(*f, d);
                proof {
                    assert forall|j: int| 0 <= j < self.uft(Direction::In).entries@.len() implies
                        (#[trigger] self.uft(Direction::In).entries@[j]).value
                        == self.spec_pipeline(Direction::In, self.uft(Direction::In).entries@[j].id) by {
                        let e = self.uft_in.entries@[j];
                        assert(self.uft(Direction::In).entries@[j] == e);
                        if !(e.id == *f && e.value == d) {
                            let k = choose|k: int|
                                0 <= k < mid.entries@.len() && #[trigger] mid.entries@[k].id == e.id
                                    && mid.entries@[k].value == e.value;
                            assert(old(self).uft(Direction::In).entries@[k] == mid.entries@[k]);
                        }
                    }
                    assert forall|j: int| 0 <= j < self.uft(Direction::Out).entries@.len() implies
                        (#[trigger] self.uft(Direction::Out).entries@[j]).value
                        == self.spec_pipeline(Direction::Out, self.uft(Direction::Out).entries@[j].id) by {
                        assert(old(self).uft(Direction::Out).entries@[j] == self.uft(Direction::Out).entries@[j]);
                    }
                }
                d
            },
        }
    }

    /// Outbound decisions of flows other than `f` are unchanged from
    /// `before`, whose NAT mappings differ at most by one for `f`.
    proof fn lemma_outbound_kept(&self, before: Port, f: FlowId, g: FlowId)
        requires
            before.wf(),
            self.nat_pool.wf(),
            g != f,
            self.config == before.config,
            self.firewall.rules_out@ == before.firewall.rules_out@,
            self.nat_pool.public_ip == before.nat_pool.public_ip,
            self.nat_pool.mappings@ == before.nat_pool.mappings@ || (self.nat_pool.mappings@
                == before.nat_pool.mappings@.push(self.nat_pool.mappings@.last())
                && self.nat_pool.mappings@.last().flow == f) || exists|i: int|
                0 <= i < before.nat_pool.mappings@.len()
                    && (#[trigger] before.nat_pool.mappings@[i]).flow == f
                    && self.nat_pool.mappings@ == before.nat_pool.mappings@.remove(i),
        ensures
            self.spec_outbound(g) == before.spec_outbound(g),
    {
        if self.nat_pool.mappings@ == before.nat_pool.mappings@ {
        } else if self.nat_pool.mappings@ == before.nat_pool.mappings@.push(
            self.nat_pool.mappings@.last(),
        ) && self.nat_pool.mappings@.last().flow == f {
            self.nat_pool.lemma_other_flow_kept_push(before.nat_pool, g);
        } else {
            self.nat_pool.lemma_other_flow_kept(before.nat_pool, g);
        }
    }

    /// Cache the outbound decision `d` of `f`, which the pipeline takes.
    fn cache_out(&mut self, f: FlowId, d: Decision)
        requires
            old(self).wf(),
            d == old(self).spec_outbound(f),
            d != Decision::Drop(DropReason::NoMapping),
        ensures
            final(self).wf(),
            final(self).uft_out.maps(f, d),
            final(self).config == old(self).config,
            final(self).name == old(self).name,
            final(self).firewall == old(self).firewall,
            final(self).nat_pool == old(self).nat_pool,
            final(self).uft_in == old(self).uft_in,
            final(self).tcp_flows == old(self).tcp_flows,
    {
        self.uft_out.insert(f, d);
        proof {
            assert forall|j: int| 0 <= j < self.uft(Direction::Out).entries@.len() implies
                (#[trigger] self.uft(Direction::Out).entries@[j]).value
                == self.spec_pipeline(Direction::Out, self.uft(Direction::Out).entries@[j].id) by {
                let e = self.uft_out.entries@[j];
                assert(self.uft(Direction::Out).entries@[j] == e);
                if !(e.id == f && e.value == d) {
                    let k = choose|k: int|
                        0 <= k < old(self).uft_out.entries@.len() && #[trigger] old(self).uft_out.entries@[k].id == e.id
                            && old(self).uft_out.entries@[k].value == e.value;
                    assert(old(self).uft(Direction::Out).entries@[k] == old(self).uft_out.entries@[k]);
                }
            }
            assert forall|j: int| 0 <= j < self.uft_out.entries@.len() implies
                (#[trigger] self.uft_out.entries@[j]).value != Decision::Drop(DropReason::NoMapping) by {
                let e = self.uft_out.entries@[j];
                if !(e.id == f && e.value == d) {
                    let k = choose|k: int|
                        0 <= k < old(self).uft_out.entries@.len() && #[trigger] old(self).uft_out.entries@[k].id == e.id
                            && old(self).uft_out.entries@[k].value == e.value;
                }
            }
            assert forall|j: int| 0 <= j < self.uft(Direction::In).entries@.len() implies
                (#[trigger] self.uft(Direction::In).entries@[j]).value
                == self.spec_pipeline(Direction::In, self.uft(Direction::In).entries@[j].id) by {
                assert(old(self).uft(Direction::In).entries@[j] == self.uft(Direction::In).entries@[j]);
            }
        }
    }

    /// Run the full outbound pipeline on `f`, which the UFT does not hold,
    /// allocating a NAT mapping where the flow needs one.
    #[verifier::spinoff_prover]
    #[verifier::rlimit(80)]
    fn outbound_miss(&mut self, f: &FlowId) -> (r: Decision)
        requires
            old(self).wf(),
            !old(self).uft_out.has(*f),
        ensures
            final(self).wf(),
            !final(self).uft_out.has(*f),
            final(self).config == old(self).config,
            final(self).name == old(self).name,
            final(self).firewall.rules_in@ == old(self).firewall.rules_in@,
            final(self).firewall.rules_out@ == old(self).firewall.rules_out@,
            final(self).tcp_flows == old(self).tcp_flows,
            final(self).uft_out == old(self).uft_out,
            final(self).nat_pool.public_ip == old(self).nat_pool.public_ip,
            final(self).nat_pool.start == old(self).nat_pool.start,
            final(self).nat_pool.end == old(self).nat_pool.end,
            old(self).spec_outbound(*f) != Decision::Drop(DropReason::NoMapping) ==> r == old(
                self,
            ).spec_outbound(*f) && final(self).nat_pool.mappings@ == old(self).nat_pool.mappings@,
            old(self).spec_outbound(*f) == Decision::Drop(DropReason::NoMapping) ==> {
                if old(self).nat_pool.exhausted() {
                    &&& r == Decision::Drop(DropReason::NatExhausted)
                    &&& final(self).nat_pool.mappings@ == old(self).nat_pool.mappings@
                } else {
                    &&& r is Forward
                    &&& final(self).nat_pool.mappings@.len() == old(self).nat_pool.mappings@.len() + 1
                    &&& final(self).nat_pool.mappings@.drop_last() == old(self).nat_pool.mappings@
                    &&& final(self).nat_pool.mappings@.last().flow == *f
                    &&& !old(self).nat_pool.port_used(final(self).nat_pool.mappings@.last().public_port)
                    &&& forall|q: u16|
                        old(self).nat_pool.start <= q < final(self).nat_pool.mappings@.last().public_port
                            ==> #[trigger] old(self).nat_pool.port_used(q)
                }
            },
            r != Decision::Drop(DropReason::NatExhausted) ==> r == final(self).spec_outbound(*f),
    {
        let act = self.firewall.process(Direction::Out, f);
        let ghost mid = *self;
        assert(forall|g: FlowId| mid.spec_outbound(g) == old(self).spec_outbound(g));
        assert(forall|g: FlowId| mid.spec_inbound(g) == old(self).spec_inbound(g));
        assert forall|j: int| 0 <= j < mid.uft(Direction::In).entries@.len() implies
            (#[trigger] mid.uft(Direction::In).entries@[j]).value
            == mid.spec_pipeline(Direction::In, mid.uft(Direction::In).entries@[j].id) by {
            assert(old(self).uft(Direction::In).entries@[j] == mid.uft(Direction::In).entries@[j]);
        }
        assert forall|j: int| 0 <= j < mid.uft(Direction::Out).entries@.len() implies
            (#[trigger] mid.uft(Direction::Out).entries@[j]).value
            == mid.spec_pipeline(Direction::Out, mid.uft(Direction::Out).entries@[j].id) by {
            assert(old(self).uft(Direction::Out).entries@[j] == mid.uft(Direction::Out).entries@[j]);
        }
        assert(mid.wf());
        if act == Action::Deny {
            return Decision::Drop(DropReason::Denied);
        }
        if route(&self.config, f.dst_ip) == Route::Local {
            return Decision::Forward(
                Transform { src_nat: None, dst_nat: None, route: Route::Local, encap: false },
            );
        }
        let before: usize = self.nat_pool.num_mappings();
        match self.nat_pool.allocate(f) {
            Err(_) => Decision::Drop(DropReason::NatExhausted),
            Ok((ip, p)) => {
                if self.nat_pool.num_mappings() != before {
                    self.uft_in.clear();
                }
                proof {
                    let m = crate::dyn_nat::NatMapping {
                        private_ip: f.src_ip,
                        private_port: f.src_port,
                        public_port: p,
                        flow: *f,
                    };
                    let k = choose|k: int| 0 <= k < self.nat_pool.mappings@.len() && self.nat_pool.mappings@[k] == m;
                    self.nat_pool.lemma_mapping_of(k);
                    assert forall|j: int| 0 <= j < self.uft(Direction::Out).entries@.len() implies
                        (#[trigger] self.uft(Direction::Out).entries@[j]).value
                        == self.spec_pipeline(Direction::Out, self.uft(Direction::Out).entries@[j].id) by {
                        let e = self.uft_out.entries@[j];
                        assert(mid.uft(Direction::Out).entries@[j] == e);
                        assert(self.uft(Direction::Out).entries@[j] == e);
                        assert(e.id != *f);
                        self.lemma_outbound_kept(mid, *f, e.id);
                    }
                    assert forall|j: int| 0 <= j < self.uft(Direction::In).entries@.len() implies
                        (#[trigger] self.uft(Direction::In).entries@[j]).value
                        == self.spec_pipeline(Direction::In, self.uft(Direction::In).entries@[j].id) by {
                        assert(self.nat_pool.mappings@ == mid.nat_pool.mappings@);
                        assert(mid.uft(Direction::In).entries@[j] == self.uft(Direction::In).entries@[j]);
                    }
                }
                Decision::Forward(
                    Transform {
                        src_nat: Some(Endpoint { ip, port: p }),
                        dst_nat: None,
                        route: Route::Gateway,
                        encap: self.config.overlay.is_some(),
                    },
                )
            },
        }
    }

    /// Decide an outbound flow: from the UFT on a hit, else by the full
    /// pipeline, whose decision is then cached. A new flow for the
    /// gateway gets a NAT mapping; when the pool is exhausted the flow is
    /// dropped and nothing is cached for it.
    pub fn process_out(&mut self, f: &FlowId) -> (r: Decision)
        requires
            old(self).wf(),
        ensures
            final(self).wf(),
            final(self).config == old(self).config,
            final(self).name == old(self).name,
            final(self).firewall.rules_in@ == old(self).firewall.rules_in@,
            final(self).firewall.rules_out@ == old(self).firewall.rules_out@,
            final(self).tcp_flows == old(self).tcp_flows,
            final(self).nat_pool.public_ip == old(self).nat_pool.public_ip,
            final(self).nat_pool.start == old(self).nat_pool.start,
            final(self).nat_pool.end == old(self).nat_pool.end,
            old(self).spec_outbound(*f) != Decision::Drop(DropReason::NoMapping) ==> r == old(
                self,
            ).spec_outbound(*f) && final(self).nat_pool.mappings@ == old(self).nat_pool.mappings@,
            old(self).spec_outbound(*f) == Decision::Drop(DropReason::NoMapping) ==> {
                if old(self).nat_pool.exhausted() {
                    &&& r == Decision::Drop(DropReason::NatExhausted)
                    &&& final(self).nat_pool.mappings@ == old(self).nat_pool.mappings@
                } else {
                    &&& r is Forward
                    &&& final(self).nat_pool.mappings@.len() == old(self).nat_pool.mappings@.len() + 1
                    &&& final(self).nat_pool.mappings@.drop_last() == old(self).nat_pool.mappings@
                    &&& final(self).nat_pool.mappings@.last().flow == *f
                    &&& !old(self).nat_pool.port_used(final(self).nat_pool.mappings@.last().public_port)
                    &&& forall|q: u16|
                        old(self).nat_pool.start <= q < final(self).nat_pool.mappings@.last().public_port
                            ==> #[trigger] old(self).nat_pool.port_used(q)
                }
            },
            r != Decision::Drop(DropReason::NatExhausted) ==> r == final(self).spec_outbound(*f)
                && final(self).uft_out.maps(*f, r),
    {
        match self.uft_out.lookup(f) {
            Some(d) => {
                self.uft_out.touch(f);
                proof {
                    let i = choose|i: int|
                        0 <= i < old(self).uft_out.entries@.len()
                            && #[trigger] old(self).uft_out.entries@[i].id == *f
                            && old(self).uft_out.entries@[i].value == d;
                    assert(old(self).uft(Direction::Out).entries@[i] == old(self).uft_out.entries@[i]);
                    assert(self.uft_out.entries@[i].id == *f);
                    assert(self.uft_out.maps(*f, d));
                    assert forall|j: int| 0 <= j < self.uft_out.entries@.len() implies
                        (#[trigger] self.uft_out.entries@[j]).value != Decision::Drop(DropReason::NoMapping) by {
                        assert(old(self).uft_out.entries@[j].value == self.uft_out.entries@[j].value);
                    }
                    assert forall|j: int| 0 <= j < self.uft(Direction::Out).entries@.len() implies
                        (#[trigger] self.uft(Direction::Out).entries@[j]).value
                        == self.spec_pipeline(Direction::Out, self.uft(Direction::Out).entries@[j].id) by {
                        assert(self.uft_out.entries@[j] == self.uft(Direction::Out).entries@[j]);
                        assert(old(self).uft(Direction::Out).entries@[j] == old(self).uft_out.entries@[j]);
                    }
                    assert forall|j: int| 0 <= j < self.uft(Direction::In).entries@.len() implies
                        (#[trigger] self.uft(Direction::In).entries@[j]).value
                        == self.spec_pipeline(Direction::In, self.uft(Direction::In).entries@[j].id) by {
                        assert(old(self).uft(Direction::In).entries@[j] == self.uft(Direction::In).entries@[j]);
                    }
                }
                d
            },
            None => {
                let d = self.outbound_miss(f);
                if d != Decision::Drop(DropReason::NatExhausted) {
                    self.cache_out(*f, d);
                }
                d
            },
        }
    }

    /// The TCP state tracked for outbound flow `key`; an untracked flow
    /// is new.
    pub open spec fn tcp_state(&self, key: FlowId) -> TcpState {
        if self.tcp_flows.has(key) {
            self.tcp_flows.entries@[choose|i: int|
                0 <= i < self.tcp_flows.entries@.len() && #[trigger] self.tcp_flows.entries@[i].id
                    == key].value
        } else {
            TcpState::New
        }
    }

    /// End flow `key` (an outbound flow identity): its TCP state and UFT
    /// entry are removed and its NAT mapping, if any, goes back to the
    /// pool, once. Inbound UFT entries are dropped when a mapping goes, as
    /// they may have been decided by it.
    pub fn teardown(&mut self, key: &FlowId)
        requires
            old(self).wf(),
        ensures
            final(self).wf(),
            !final(self).nat_pool.flow_mapped(*key),
            !final(self).uft_out.has(*key),
            !final(self).tcp_flows.has(*key),
            final(self).config == old(self).config,
            final(self).name == old(self).name,
            final(self).nat_pool.public_ip == old(self).nat_pool.public_ip,
            final(self).nat_pool.start == old(self).nat_pool.start,
            final(self).nat_pool.end == old(self).nat_pool.end,
            !old(self).nat_pool.flow_mapped(*key) ==> final(self).nat_pool.mappings@ == old(
                self,
            ).nat_pool.mappings@,
            old(self).nat_pool.flow_mapped(*key) ==> exists|i: int|
                0 <= i < old(self).nat_pool.mappings@.len()
                    && (#[trigger] old(self).nat_pool.mappings@[i]).flow == *key
                    && final(self).nat_pool.mappings@ == old(self).nat_pool.mappings@.remove(i),
            !final(self).firewall.ft_out.has(*key),
            old(self).uft_out.has(*key) ==> exists|i: int|
                0 <= i < old(self).uft_out.entries@.len() && #[trigger] old(self).uft_out.entries@[i].id
                    == *key && final(self).uft_out.entries@ == old(self).uft_out.entries@.remove(i),
            !old(self).uft_out.has(*key) ==> final(self).uft_out.entries@ == old(self).uft_out.entries@,
            !old(self).nat_pool.flow_mapped(*key) ==> final(self).uft_in == old(self).uft_in,
            old(self).nat_pool.flow_mapped(*key) ==> ({
                let p = old(self).nat_pool.spec_mapping_of(*key).public_port;
                &&& forall|i: int|
                    0 <= i < final(self).uft_in.entries@.len() ==> old(self).uft_in.maps(
                        (#[trigger] final(self).uft_in.entries@[i]).id,
                        final(self).uft_in.entries@[i].value,
                    ) && !(final(self).uft_in.entries@[i].id.dst_ip == old(self).nat_pool.public_ip
                        && final(self).uft_in.entries@[i].id.dst_port == p)
                &&& forall|k: int|
                    0 <= k < old(self).uft_in.entries@.len() && !((#[trigger] old(
                        self,
                    ).uft_in.entries@[k]).id.dst_ip == old(self).nat_pool.public_ip
                        && old(self).uft_in.entries@[k].id.dst_port == p) ==> final(self).uft_in.maps(
                        old(self).uft_in.entries@[k].id,
                        old(self).uft_in.entries@[k].value,
                    )
            }),
            final(self).firewall.rules_in@ == old(self).firewall.rules_in@,
            final(self).firewall.rules_out@ == old(self).firewall.rules_out@,
            final(self).firewall.next_id == old(self).firewall.next_id,
    {
        self.firewall.forget_out(key);
        self.tcp_flows.remove(key);
        self.uft_out.remove(key);
        let ghost mid = *self;
        proof {
            assert forall|j: int| 0 <= j < mid.uft_out.entries@.len() implies
                (#[trigger] mid.uft_out.entries@[j]).value == old(self).spec_outbound(mid.uft_out.entries@[j].id)
                && mid.uft_out.entries@[j].value != Decision::Drop(DropReason::NoMapping) by {
                let e = mid.uft_out.entries@[j];
                let k = choose|k: int|
                    0 <= k < old(self).uft_out.entries@.len() && #[trigger] old(self).uft_out.entries@[k].id == e.id
                        && old(self).uft_out.entries@[k].value == e.value;
                assert(old(self).uft(Direction::Out).entries@[k] == old(self).uft_out.entries@[k]);
            }
            assert forall|j: int| 0 <= j < mid.uft_out.entries@.len() implies (#[trigger] mid.uft_out.entries@[j]).id != *key by {
                if mid.uft_out.entries@[j].id == *key {
                    assert(mid.uft_out.has(*key));
                }
            }
        }
        let released = self.nat_pool.release_flow(key);
        let ghost pre_in = self.uft_in;
        if let Some(m) = released {
            self.uft_in.remove_to(self.nat_pool.public_ip, m.public_port);
        }
        proof {
            assert forall|j: int| 0 <= j < self.uft(Direction::Out).entries@.len() implies
                (#[trigger] self.uft(Direction::Out).entries@[j]).value
                == self.spec_pipeline(Direction::Out, self.uft(Direction::Out).entries@[j].id) by {
                let e = self.uft_out.entries@[j];
                assert(self.uft(Direction::Out).entries@[j] == e);
                assert(mid.uft_out.entries@[j] == e);
                if released is Some {
                    self.lemma_outbound_kept(*old(self), *key, e.id);
                }
            }
            assert forall|j: int| 0 <= j < self.uft(Direction::In).entries@.len() implies
                (#[trigger] self.uft(Direction::In).entries@[j]).value
                == self.spec_pipeline(Direction::In, self.uft(Direction::In).entries@[j].id) by {
                let e = self.uft_in.entries@[j];
                assert(self.uft(Direction::In).entries@[j] == e);
                assert(pre_in == old(self).uft_in);
                if let Some(m) = released {
                    let k = choose|k: int|
                        0 <= k < pre_in.entries@.len() && #[trigger] pre_in.entries@[k].id == e.id
                            && pre_in.entries@[k].value == e.value;
                    assert(old(self).uft(Direction::In).entries@[k] == pre_in.entries@[k]);
                    if e.id.dst_ip == self.nat_pool.public_ip {
                        let i = choose|i: int|
                            0 <= i < old(self).nat_pool.mappings@.len() && old(self).nat_pool.mappings@[i] == m
                                && self.nat_pool.mappings@ == old(self).nat_pool.mappings@.remove(i);
                        self.nat_pool.lemma_other_port_kept(old(self).nat_pool, i, e.id.dst_port);
                    }
                } else {
                    assert(old(self).uft(Direction::In).entries@[j] == e);
                }
            }
            assert forall|j: int| 0 <= j < self.uft_out.entries@.len() implies
                (#[trigger] self.uft_out.entries@[j]).value != Decision::Drop(DropReason::NoMapping) by {
                assert(mid.uft_out.entries@[j] == self.uft_out.entries@[j]);
            }
        }
    }

    /// Advance the TCP state of outbound flow `key` by a packet with
    /// flags `fl` in `dir`; a flow that reaches Closed is torn down at
    /// once.
    pub fn track_tcp(&mut self, key: &FlowId, dir: Direction, fl: TcpFlags) -> (r: TcpState)
        requires
            old(self).wf(),
        ensures
            final(self).wf(),
            r == crate::tcp::spec_next(old(self).tcp_state(*key), dir, fl),
            r == TcpState::Closed ==> !final(self).nat_pool.flow_mapped(*key)
                && !final(self).uft_out.has(*key) && !final(self).tcp_flows.has(*key)
                && !final(self).firewall.ft_out.has(*key),
            r != TcpState::Closed ==> final(self).tcp_state(*key) == r && final(self).nat_pool
                == old(self).nat_pool && final(self).uft_out == old(self).uft_out
                && final(self).firewall == old(self).firewall,
            final(self).config == old(self).config,
            final(self).name == old(self).name,
            final(self).firewall.rules_in@ == old(self).firewall.rules_in@,
            final(self).firewall.rules_out@ == old(self).firewall.rules_out@,
            final(self).nat_pool.public_ip == old(self).nat_pool.public_ip,
            final(self).nat_pool.start == old(self).nat_pool.start,
            final(self).nat_pool.end == old(self).nat_pool.end,
    {
        let s = match self.tcp_flows.lookup(key) {
            Some(s) => s,
            None => TcpState::New,
        };
        proof {
            if self.tcp_flows.has(*key) {
                let i = choose|i: int|
                    0 <= i < self.tcp_flows.entries@.len() && #[trigger] self.tcp_flows.entries@[i].id == *key
                        && self.tcp_flows.entries@[i].value == s;
                let c = choose|c: int|
                    0 <= c < self.tcp_flows.entries@.len() && #[trigger] self.tcp_flows.entries@[c].id == *key;
                assert(i == c);
            }
        }
        let n = s.next(dir, fl);
        if n == TcpState::Closed {
            self.teardown(key);
        } else {
            self.tcp_flows.insert(*key, n);
            proof {
                let i = choose|i: int|
                    0 <= i < self.tcp_flows.entries@.len() && #[trigger] self.tcp_flows.entries@[i].id == *key
                        && self.tcp_flows.entries@[i].value == n;
                let c = choose|c: int|
                    0 <= c < self.tcp_flows.entries@.len() && #[trigger] self.tcp_flows.entries@[c].id == *key;
                assert(i == c);
                assert forall|j: int| 0 <= j < self.uft(Direction::Out).entries@.len() implies
                    (#[trigger] self.uft(Direction::Out).entries@[j]).value
                    == self.spec_pipeline(Direction::Out, self.uft(Direction::Out).entries@[j].id) by {
                    assert(old(self).uft(Direction::Out).entries@[j] == self.uft(Direction::Out).entries@[j]);
                }
                assert forall|j: int| 0 <= j < self.uft(Direction::In).entries@.len() implies
                    (#[trigger] self.uft(Direction::In).entries@[j]).value
                    == self.spec_pipeline(Direction::In, self.uft(Direction::In).entries@[j].id) by {
                    assert(old(self).uft(Direction::In).entries@[j] == self.uft(Direction::In).entries@[j]);
                }
            }
        }
        n
    }

    /// Drop every UFT entry of both directions.
    fn clear_ufts(&mut self)
        requires
            old(self).firewall.wf(),
            old(self).nat_pool.wf(),
            old(self).uft_in.wf(),
            old(self).uft_out.wf(),
            old(self).tcp_flows.wf(),
            old(self).uft_in.limit == UFT_LIMIT,
            old(self).uft_out.limit == UFT_LIMIT,
        ensures
            final(self).wf(),
            final(self).uft_in.entries@.len() == 0,
            final(self).uft_out.entries@.len() == 0,
            final(self).uft_in.limit == old(self).uft_in.limit,
            final(self).uft_out.limit == old(self).uft_out.limit,
            final(self).config == old(self).config,
            final(self).name == old(self).name,
            final(self).firewall == old(self).firewall,
            final(self).nat_pool == old(self).nat_pool,
            final(self).tcp_flows == old(self).tcp_flows,
    {
        self.uft_in.clear();
        self.uft_out.clear();
    }

    /// Add a firewall rule and return its id. Both UFTs are cleared, so
    /// that the rule holds for every flow from the next packet on; a
    /// refused rule leaves the port as it was.
    pub fn add_firewall_rule(&mut self, rule: &FirewallRule) -> (r: Result<u64, LayerError>)
        requires
            old(self).wf(),
        ensures
            final(self).wf(),
            add_outcome(*old(self), *final(self), *rule, r),
    {
        let r = self.firewall.add_rule(rule);
        if r.is_ok() {
            self.clear_ufts();
        }
        r
    }

    /// Remove firewall rule `id` of direction `dir`, clearing both UFTs.
    /// An unknown id leaves the port as it was.
    pub fn remove_firewall_rule(&mut self, dir: Direction, id: u64) -> (r: Result<(), LayerError>)
        requires
            old(self).wf(),
        ensures
            final(self).wf(),
            remove_outcome(*old(self), *final(self), dir, id, r),
    {
        let r = self.firewall.remove_rule(dir, id);
        if r.is_ok() {
            self.clear_ufts();
        }
        r
    }

    /// The TCP flow that a forwarded packet of `f` belongs to, named by
    /// its outbound identity before translation.
    pub open spec fn spec_tcp_key(dir: Direction, f: FlowId, t: Transform) -> FlowId {
        if dir == Direction::Out {
            f
        } else {
            match t.dst_nat {
                Some(e) => FlowId {
                    proto: f.proto,
                    src_ip: e.ip,
                    src_port: e.port,
                    dst_ip: f.src_ip,
                    dst_port: f.src_port,
                },
                None => f.spec_reverse(),
            }
        }
    }

    fn tcp_key(dir: Direction, f: &FlowId, t: &Transform) -> (r: FlowId)
        ensures
            r == Self::spec_tcp_key(dir, *f, *t),
    {
        if dir == Direction::Out {
            *f
        } else {
            match t.dst_nat {
                Some(e) => FlowId {
                    proto: f.proto,
                    src_ip: e.ip,
                    src_port: e.port,
                    dst_ip: f.src_ip,
                    dst_port: f.src_port,
                },
                None => f.reverse(),
            }
        }
    }

    /// Process one packet of flow `f` travelling in `dir`, with TCP flags
    /// `fl` (ignored for other protocols), and return its decision. A
    /// forwarded TCP packet advances its flow's state, and a flow that
    /// reaches Closed is torn down at once.
    pub fn process(&mut self, dir: Direction, f: &FlowId, fl: TcpFlags) -> (r: Decision)
        requires
            old(self).wf(),
        ensures
            final(self).wf(),
            process_outcome(*old(self), *final(self), dir, *f, fl, r),
    {
        let d = if dir == Direction::In {
            self.process_in(f)
        } else {
            self.process_out(f)
        };
        if f.proto == Protocol::Tcp {
            if let Decision::Forward(t) = d {
                let key = Self::tcp_key(dir, f, &t);
                self.track_tcp(&key, dir, fl);
            }
        }
        d
    }

    /// Each tracked TCP flow with its state.
    pub fn dump_tcp_flows(&self) -> (r: Vec<FlowEntry<TcpState>>)
        ensures
            r@ == self.tcp_flows.entries@,
    {
        self.tcp_flows.dump()
    }

    /// A snapshot of both UFTs: entry counts, limits and entries.
    pub fn dump_uft(&self) -> (r: UftDump)
        ensures
            r.uft_in_num_flows == self.uft_in.entries@.len(),
            r.uft_in_limit == self.uft_in.limit,
            r.uft_out_num_flows == self.uft_out.entries@.len(),
            r.uft_out_limit == self.uft_out.limit,
            r.uft_in@ == self.uft_in.entries@,
            r.uft_out@ == self.uft_out.entries@,
    {
        UftDump {
            uft_in_num_flows: self.uft_in.len(),
            uft_in_limit: self.uft_in.limit(),
            uft_out_num_flows: self.uft_out.len(),
            uft_out_limit: self.uft_out.limit(),
            uft_in: self.uft_in.dump(),
            uft_out: self.uft_out.dump(),
        }
    }
}

/// What adding `rule` to a port does: the outcome `r` and the port after.
pub open spec fn add_outcome(before: Port, after: Port, rule: FirewallRule, r: Result<u64, LayerError>) -> bool {
    &&& (r is Err <==> before.firewall.next_id == u64::MAX)
    &&& (r matches Err(e) ==> e == LayerError::IdsExhausted && after == before)
    &&& (r matches Ok(id) ==> {
        &&& id == before.firewall.next_id
        &&& after.firewall.next_id == before.firewall.next_id + 1
        &&& rule_added(before.firewall.rules(rule.direction), after.firewall.rules(rule.direction), id, rule)
        &&& after.firewall.ft(rule.direction).entries@.len() == 0
        &&& rule.direction == Direction::In ==> after.firewall.rules_out@ == before.firewall.rules_out@
        &&& rule.direction == Direction::Out ==> after.firewall.rules_in@ == before.firewall.rules_in@
        &&& after.uft_in.entries@.len() == 0
        &&& after.uft_out.entries@.len() == 0
    })
    &&& after.config == before.config
    &&& after.name == before.name
    &&& after.nat_pool == before.nat_pool
    &&& after.tcp_flows == before.tcp_flows
}

/// What removing rule `id` of direction `dir` from a port does.
pub open spec fn remove_outcome(before: Port, after: Port, dir: Direction, id: u64, r: Result<(), LayerError>) -> bool {
    &&& (r is Err <==> forall|i: int|
        0 <= i < before.firewall.rules(dir).len() ==> (#[trigger] before.firewall.rules(dir)[i]).id != id)
    &&& (r matches Err(e) ==> e == LayerError::RuleNotFound && after == before)
    &&& (r is Ok ==> {
        &&& rule_removed(before.firewall.rules(dir), after.firewall.rules(dir), id)
        &&& after.firewall.ft(dir).entries@.len() == 0
        &&& after.uft_in.entries@.len() == 0
        &&& after.uft_out.entries@.len() == 0
    })
    &&& (dir == Direction::In ==> after.firewall.rules_out@ == before.firewall.rules_out@)
    &&& (dir == Direction::Out ==> after.firewall.rules_in@ == before.firewall.rules_in@)
    &&& after.firewall.next_id == before.firewall.next_id
    &&& after.config == before.config
    &&& after.name == before.name
    &&& after.nat_pool == before.nat_pool
    &&& after.tcp_flows == before.tcp_flows
}

/// The NAT pool `after` is `before` with one new mapping, for `f`, on
/// the lowest port that was free.
pub open spec fn mapping_added(before: NatPool, after: NatPool, f: FlowId) -> bool {
    &&& after.mappings@.len() == before.mappings@.len() + 1
    &&& after.mappings@.drop_last() == before.mappings@
    &&& after.mappings@.last().flow == f
    &&& !before.port_used(after.mappings@.last().public_port)
    &&& forall|q: u16| before.start <= q < after.mappings@.last().public_port ==> #[trigger] before.port_used(q)
}

/// What processing a packet of `f` in `dir` with flags `fl` does.
pub open spec fn process_outcome(before: Port, after: Port, dir: Direction, f: FlowId, fl: TcpFlags, r: Decision) -> bool {
    &&& after.config == before.config
    &&& after.name == before.name
    &&& after.firewall.rules_in@ == before.firewall.rules_in@
    &&& after.firewall.rules_out@ == before.firewall.rules_out@
    &&& (dir == Direction::In ==> r == before.spec_inbound(f))
    &&& (dir == Direction::Out && before.spec_outbound(f) != Decision::Drop(DropReason::NoMapping)
        ==> r == before.spec_outbound(f))
    &&& (dir == Direction::Out && before.spec_outbound(f) == Decision::Drop(DropReason::NoMapping)
        ==> if before.nat_pool.exhausted() {
            r == Decision::Drop(DropReason::NatExhausted)
        } else {
            r matches Decision::Forward(t) && t.src_nat matches Some(e) && e.ip
                == before.nat_pool.public_ip && before.nat_pool.start <= e.port < before.nat_pool.end
                && !before.nat_pool.port_used(e.port) && forall|q: u16|
                before.nat_pool.start <= q < e.port ==> #[trigger] before.nat_pool.port_used(q)
        })
    &&& (f.proto != Protocol::Tcp && r != Decision::Drop(DropReason::NatExhausted)
        ==> r == after.spec_pipeline(dir, f))
    &&& (f.proto != Protocol::Tcp && dir == Direction::Out && before.spec_outbound(f)
        == Decision::Drop(DropReason::NoMapping) && !before.nat_pool.exhausted()
        ==> mapping_added(before.nat_pool, after.nat_pool, f))
    &&& (f.proto == Protocol::Tcp ==> (r matches Decision::Forward(t) ==> ({
        let key = Port::spec_tcp_key(dir, f, t);
        let next = crate::tcp::spec_next(before.tcp_state(key), dir, fl);
        &&& next == TcpState::Closed ==> !after.nat_pool.flow_mapped(key)
            && !after.uft_out.has(key) && !after.tcp_flows.has(key)
            && !after.firewall.ft_out.has(key)
        &&& next != TcpState::Closed ==> after.tcp_state(key) == next
    })))
}

/// A UFT hit gives what the full layer pipeline would decide on the
/// current rule sets and NAT state: every cached decision of a
/// well-formed port is the pipeline's.
pub proof fn lemma_uft_hit_is_pipeline(port: Port, dir: Direction, f: FlowId, d: Decision)
    requires
        port.wf(),
        port.uft(dir).maps(f, d),
    ensures
        d == port.spec_pipeline(dir, f),
{
    let i = choose|i: int|
        0 <= i < port.uft(dir).entries@.len() && #[trigger] port.uft(dir).entries@[i].id == f
            && port.uft(dir).entries@[i].value == d;
    if dir == Direction::In {
        assert(port.uft_agrees(Direction::In));
    } else {
        assert(port.uft_agrees(Direction::Out));
    }
}

} // verus!