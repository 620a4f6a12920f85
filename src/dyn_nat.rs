//! The dynamic NAT pool: private endpoints of outbound flows translated
//! to ports of one public address, each public port held by at most one
//! live flow.
use vstd::prelude::*;

use crate::net::{EtherAddr, FlowId, Ipv4Addr};
use crate::oxide_net::DynNat4Config;

verus! {

/// A live translation, owned by the flow that caused it.
#[derive(Clone, Copy, Debug, PartialEq, Eq, Structural)]
pub struct NatMapping {
    pub private_ip: Ipv4Addr,
    pub private_port: u16,
    pub public_port: u16,
    pub flow: FlowId,
}

#[derive(Clone, Copy, Debug, PartialEq, Eq, Structural)]
pub enum NatError {
    /// Every public port of the range is held by a live flow.
    PoolExhausted,
    /// No live flow holds the public port.
    NotMapped,
}

#[derive(Debug)]
pub struct NatPool {
    pub public_mac: EtherAddr,
    pub public_ip: Ipv4Addr,
    pub start: u16,
    pub end: u16,
    pub mappings: Vec<NatMapping>,
}

impl NatPool {
    /// Every mapping holds a port of the range and translates its flow's
    /// source; no two share a public port, and no flow has two.
    pub open spec fn wf(&self) -> bool {
        &&& forall|i: int|
            0 <= i < self.mappings@.len() ==> self.start <= (#[trigger] self.mappings@[i]).public_port
                < self.end && self.mappings@[i].private_ip == self.mappings@[i].flow.src_ip
                && self.mappings@[i].private_port == self.mappings@[i].flow.src_port
        &&& forall|i: int, j: int|
            0 <= i < self.mappings@.len() && 0 <= j < self.mappings@.len() && i != j
                ==> (#[trigger] self.mappings@[i]).public_port != (#[trigger] self.mappings@[j]).public_port
                && self.mappings@[i].flow != self.mappings@[j].flow
    }

    pub open spec fn port_used(&self, p: u16) -> bool {
        exists|i: int| 0 <= i < self.mappings@.len() && (#[trigger] self.mappings@[i]).public_port == p
    }

    pub open spec fn flow_mapped(&self, f: FlowId) -> bool {
        exists|i: int| 0 <= i < self.mappings@.len() && (#[trigger] self.mappings@[i]).flow == f
    }

    /// The mapping owned by `f`, where one is.
    pub open spec fn spec_mapping_of(&self, f: FlowId) -> NatMapping {
        self.mappings@[choose|i: int| 0 <= i < self.mappings@.len() && (#[trigger] self.mappings@[i]).flow == f]
    }

    /// The mapping that holds public port `p`, where one does.
    pub open spec fn spec_mapping_at(&self, p: u16) -> NatMapping {
        self.mappings@[choose|i: int| 0 <= i < self.mappings@.len() && (#[trigger] self.mappings@[i]).public_port == p]
    }

    pub proof fn lemma_mapping_of(&self, i: int)
        requires
            self.wf(),
            0 <= i < self.mappings@.len(),
        ensures
            self.flow_mapped(self.mappings@[i].flow),
            self.spec_mapping_of(self.mappings@[i].flow) == self.mappings@[i],
            self.port_used(self.mappings@[i].public_port),
            self.spec_mapping_at(self.mappings@[i].public_port) == self.mappings@[i],
    {
        assert(self.flow_mapped(self.mappings@[i].flow));
        assert(self.port_used(self.mappings@[i].public_port));
    }

    /// Other flows keep their mappings when one is added or removed.
    pub proof fn lemma_other_flow_kept(&self, before: NatPool, g: FlowId)
        requires
            before.wf(),
            self.wf(),
            exists|i: int|
                0 <= i < before.mappings@.len() && (#[trigger] before.mappings@[i]).flow != g
                    && self.mappings@ == before.mappings@.remove(i),
        ensures
            self.flow_mapped(g) == before.flow_mapped(g),
            self.flow_mapped(g) ==> self.spec_mapping_of(g) == before.spec_mapping_of(g),
    {
        let i = choose|i: int|
            0 <= i < before.mappings@.len() && (#[trigger] before.mappings@[i]).flow != g
                && self.mappings@ == before.mappings@.remove(i);
        if self.flow_mapped(g) {
            let j = choose|j: int| 0 <= j < self.mappings@.len() && (#[trigger] self.mappings@[j]).flow == g;
            let k = if j < i { j } else { j + 1 };
            assert(self.mappings@[j] == before.mappings@[k]);
            self.lemma_mapping_of(j);
            before.lemma_mapping_of(k);
        }
        if before.flow_mapped(g) {
            let k = choose|k: int| 0 <= k < before.mappings@.len() && (#[trigger] before.mappings@[k]).flow == g;
            let j = if k < i { k } else { k - 1 };
            assert(self.mappings@[j] == before.mappings@[k]);
        }
    }

    /// Other public ports keep their mappings when one is removed.
    pub proof fn lemma_other_port_kept(&self, before: NatPool, i: int, q: u16)
        requires
            before.wf(),
            self.wf(),
            0 <= i < before.mappings@.len(),
            before.mappings@[i].public_port != q,
            self.mappings@ == before.mappings@.remove(i),
        ensures
            self.port_used(q) == before.port_used(q),
            self.port_used(q) ==> self.spec_mapping_at(q) == before.spec_mapping_at(q),
    {
        if self.port_used(q) {
            let j = choose|j: int| 0 <= j < self.mappings@.len() && (#[trigger] self.mappings@[j]).public_port == q;
            let k = if j < i { j } else { j + 1 };
            assert(self.mappings@[j] == before.mappings@[k]);
            self.lemma_mapping_of(j);
            before.lemma_mapping_of(k);
        }
        if before.port_used(q) {
            let k = choose|k: int| 0 <= k < before.mappings@.len() && (#[trigger] before.mappings@[k]).public_port == q;
            let j = if k < i { k } else { k - 1 };
            assert(self.mappings@[j] == before.mappings@[k]);
        }
    }

    /// Other flows keep their mappings when one is added.
    pub proof fn lemma_other_flow_kept_push(&self, before: NatPool, g: FlowId)
        requires
            before.wf(),
            self.wf(),
            self.mappings@ == before.mappings@.push(self.mappings@.last()),
            self.mappings@.last().flow != g,
        ensures
            self.flow_mapped(g) == before.flow_mapped(g),
            self.flow_mapped(g) ==> self.spec_mapping_of(g) == before.spec_mapping_of(g),
    {
        if self.flow_mapped(g) {
            let j = choose|j: int| 0 <= j < self.mappings@.len() && (#[trigger] self.mappings@[j]).flow == g;
            assert(self.mappings@[j] == before.mappings@[j]);
            self.lemma_mapping_of(j);
            before.lemma_mapping_of(j);
        }
        if before.flow_mapped(g) {
            let k = choose|k: int| 0 <= k < before.mappings@.len() && (#[trigger] before.mappings@[k]).flow == g;
            assert(self.mappings@[k] == before.mappings@[k]);
        }
    }

    /// Every port of the range is held.
    pub open spec fn exhausted(&self) -> bool {
        forall|p: u16| self.start <= p < self.end ==> #[trigger] self.port_used(p)
    }

    /// An empty pool over the configured range.
    pub fn new(cfg: &DynNat4Config) -> (r: NatPool)
        ensures
            r.wf(),
            r.mappings@.len() == 0,
            r.public_ip == cfg.public_ip,
            r.public_mac == cfg.public_mac,
            r.start == cfg.ports.start,
            r.end == cfg.ports.end,
    {
        NatPool {
            public_mac: cfg.public_mac,
            public_ip: cfg.public_ip,
            start: cfg.ports.start,
            end: cfg.ports.end,
            mappings: Vec::new(),
        }
    }

    pub fn num_mappings(&self) -> (r: usize)
        ensures
            r == self.mappings@.len(),
    {
        self.mappings.len()
    }

    /// A copy of the live mappings, in order of allocation.
    pub fn dump(&self) -> (r: Vec<NatMapping>)
        ensures
            r@ == self.mappings@,
    {
        let mut r: Vec<NatMapping> = Vec::new();
        let mut i: usize = 0;
        while i < self.mappings.len()
            invariant
                i <= self.mappings@.len(),
                r@ == self.mappings@.subrange(0, i as int),
            decreases self.mappings@.len() - i,
        {
            r.push(self.mappings[i]);
            assert(self.mappings@.subrange(0, i + 1) == self.mappings@.subrange(0, i as int).push(
                self.mappings@[i as int],
            ));
            i += 1;
        }
        assert(self.mappings@.subrange(0, self.mappings@.len() as int) == self.mappings@);
        r
    }

    /// The position of the mapping owned by `f`.
    pub fn find_flow(&self, f: &FlowId) -> (r: Option<usize>)
        ensures
            r is None <==> !self.flow_mapped(*f),
            r matches Some(i) ==> i < self.mappings@.len() && self.mappings@[i as int].flow == *f,
    {
        let mut i: usize = 0;
        while i < self.mappings.len()
            invariant
                i <= self.mappings@.len(),
                forall|j: int| 0 <= j < i ==> (#[trigger] self.mappings@[j]).flow != *f,
            decreases self.mappings@.len() - i,
        {
            if self.mappings[i].flow == *f {
                return Some(i);
            }
            i += 1;
        }
        None
    }

    /// The position of the mapping that holds public port `p`.
    pub fn find_port(&self, p: u16) -> (r: Option<usize>)
        ensures
            r is None <==> !self.port_used(p),
            r matches Some(i) ==> i < self.mappings@.len() && self.mappings@[i as int].public_port == p,
    {
        let mut i: usize = 0;
        while i < self.mappings.len()
            invariant
                i <= self.mappings@.len(),
                forall|j: int| 0 <= j < i ==> (#[trigger] self.mappings@[j]).public_port != p,
            decreases self.mappings@.len() - i,
        {
            if self.mappings[i].public_port == p {
                return Some(i);
            }
            i += 1;
        }
        None
    }

    /// The mapping owned by `f`.
    pub fn mapping_of(&self, f: &FlowId) -> (r: Option<NatMapping>)
        ensures
            r is None <==> !self.flow_mapped(*f),
            r matches Some(m) ==> m.flow == *f && self.mappings@.contains(m),
    {
        match self.find_flow(f) {
            None => None,
            Some(i) => Some(self.mappings[i]),
        }
    }

    /// The mapping that holds public port `p`, for return traffic.
    pub fn lookup_public(&self, p: u16) -> (r: Option<NatMapping>)
        ensures
            r is None <==> !self.port_used(p),
            r matches Some(m) ==> m.public_port == p && self.mappings@.contains(m),
    {
        match self.find_port(p) {
            None => None,
            Some(i) => Some(self.mappings[i]),
        }
    }

    /// The lowest free public port of the range.
    pub fn first_free(&self) -> (r: Option<u16>)
        ensures
            r is None <==> self.exhausted(),
            r matches Some(p) ==> self.start <= p < self.end && !self.port_used(p) && forall|q: u16|
                self.start <= q < p ==> #[trigger] self.port_used(q),
    {
        let mut p: u16 = self.start;
        while p < self.end
            invariant
                self.start <= p || self.start >= self.end,
                p >= self.start,
                forall|q: u16| self.start <= q < p ==> #[trigger] self.port_used(q),
            decreases self.end - p,
        {
            if self.find_port(p).is_none() {
                return Some(p);
            }
            p = p + 1;
        }
        None
    }

    /// Translate the private endpoint of `f`, its source, to a public
    /// one. A flow that holds a mapping keeps it; a new flow gets the
    /// lowest free port, or `PoolExhausted` when none is free, and then
    /// the pool is left as it was.
    pub fn allocate(&mut self, f: &FlowId) -> (r: Result<(Ipv4Addr, u16), NatError>)
        requires
            old(self).wf(),
        ensures
            final(self).wf(),
            final(self).public_ip == old(self).public_ip,
            final(self).start == old(self).start,
            final(self).end == old(self).end,
            r is Err <==> !old(self).flow_mapped(*f) && old(self).exhausted(),
            r matches Err(e) ==> e == NatError::PoolExhausted && final(self).mappings@ == old(
                self,
            ).mappings@,
            old(self).flow_mapped(*f) ==> final(self).mappings@ == old(self).mappings@,
            r matches Ok((ip, p)) ==> {
                &&& ip == old(self).public_ip
                &&& final(self).mappings@.contains(
                    NatMapping {
                        private_ip: f.src_ip,
                        private_port: f.src_port,
                        public_port: p,
                        flow: *f,
                    },
                )
                &&& !old(self).flow_mapped(*f) ==> {
                    &&& !old(self).port_used(p)
                    &&& forall|q: u16| old(self).start <= q < p ==> #[trigger] old(self).port_used(q)
                    &&& final(self).mappings@ == old(self).mappings@.push(
                        NatMapping {
                            private_ip: f.src_ip,
                            private_port: f.src_port,
                            public_port: p,
                            flow: *f,
                        },
                    )
                }
            },
    {
        match self.find_flow(f) {
            Some(i) => {
                let m = self.mappings[i];
                assert(self.mappings@[i as int] == NatMapping {
                    private_ip: f.src_ip,
                    private_port: f.src_port,
                    public_port: m.public_port,
                    flow: *f,
                });
                Ok((self.public_ip, m.public_port))
            },
            None => match self.first_free() {
                None => Err(NatError::PoolExhausted),
                Some(p) => {
                    let m = NatMapping {
                        private_ip: f.src_ip,
                        private_port: f.src_port,
                        public_port: p,
                        flow: *f,
                    };
                    self.mappings.push(m);
                    assert(self.mappings@[self.mappings@.len() - 1] == m);
                    Ok((self.public_ip, p))
                },
            },
        }
    }

    /// Give public port `p` back to the pool.
    pub fn release(&mut self, p: u16) -> (r: Result<NatMapping, NatError>)
        requires
            old(self).wf(),
        ensures
            final(self).wf(),
            final(self).public_ip == old(self).public_ip,
            final(self).start == old(self).start,
            final(self).end == old(self).end,
            r is Err <==> !old(self).port_used(p),
            r matches Err(e) ==> e == NatError::NotMapped && final(self).mappings@ == old(
                self,
            ).mappings@,
            r matches Ok(m) ==> m.public_port == p && exists|i: int|
                0 <= i < old(self).mappings@.len() && old(self).mappings@[i] == m
                    && final(self).mappings@ == old(self).mappings@.remove(i),
            !final(self).port_used(p),
    {
        match self.find_port(p) {
            None => Err(NatError::NotMapped),
            Some(i) => {
                let m = self.mappings.remove(i);
                proof {
                    self.lemma_remove_keeps_wf(*old(self), i as int);
                }
                Ok(m)
            },
        }
    }

    /// Release the mapping owned by flow `f`, if it holds one.
    pub fn release_flow(&mut self, f: &FlowId) -> (r: Option<NatMapping>)
        requires
            old(self).wf(),
        ensures
            final(self).wf(),
            final(self).public_ip == old(self).public_ip,
            final(self).start == old(self).start,
            final(self).end == old(self).end,
            r is None <==> !old(self).flow_mapped(*f),
            r is None ==> final(self).mappings@ == old(self).mappings@,
            r matches Some(m) ==> m.flow == *f && exists|i: int|
                0 <= i < old(self).mappings@.len() && old(self).mappings@[i] == m
                    && final(self).mappings@ == old(self).mappings@.remove(i),
            !final(self).flow_mapped(*f),
    {
        match self.find_flow(f) {
            None => None,
            Some(i) => {
                let m = self.mappings.remove(i);
                proof {
                    self.lemma_remove_keeps_wf(*old(self), i as int);
                }
                Some(m)
            },
        }
    }

    proof fn lemma_remove_keeps_wf(&self, before: NatPool, i: int)
        requires
            before.wf(),
            0 <= i < before.mappings@.len(),
            self.mappings@ == before.mappings@.remove(i),
            self.start == before.start,
            self.end == before.end,
        ensures
            self.wf(),
            !self.port_used(before.mappings@[i].public_port),
            !self.flow_mapped(before.mappings@[i].flow),
    {
        let s = self.mappings@;
        let b = before.mappings@;
        assert forall|j: int| 0 <= j < s.len() implies #[trigger] s[j] == b[if j < i { j } else { j + 1 }] by {}
        assert forall|j: int| 0 <= j < s.len() implies (#[trigger] s[j]).public_port != b[i].public_port && s[j].flow != b[i].flow by {
            assert(s[j] == b[if j < i { j } else { j + 1 }]);
        }
        assert forall|j: int, k: int| 0 <= j < s.len() && 0 <= k < s.len() && j != k
            implies (#[trigger] s[j]).public_port != (#[trigger] s[k]).public_port && s[j].flow != s[k].flow by {
            assert(s[j] == b[if j < i { j } else { j + 1 }]);
            assert(s[k] == b[if k < i { k } else { k + 1 }]);
        }
    }
}

/// No two live mappings of a well-formed pool share a public (address,
/// port) pair: the pool has a single public address, and every operation
/// keeps the pool well formed.
pub proof fn lemma_allocation_injective(pool: NatPool, i: int, j: int)
    requires
        pool.wf(),
        0 <= i < pool.mappings@.len(),
        0 <= j < pool.mappings@.len(),
        i != j,
    ensures
        pool.mappings@[i].public_port != pool.mappings@[j].public_port,
{
}

} // verus!
