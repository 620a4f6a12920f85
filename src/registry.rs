//! The set of registered ports and the control-plane requests on them.
use vstd::prelude::*;

use crate::firewall::{same_rules, FirewallRule, LayerDump, LayerError};
use crate::dyn_nat::NatMapping;
use crate::flow_table::FlowEntry;
use crate::net::{Direction, EtherAddr, FlowId};
use crate::oxide_net::PortConfig;
use crate::port::{add_outcome, process_outcome, remove_outcome, Decision, Port, UftDump};
use crate::tcp::{TcpFlags, TcpState};

verus! {

#[derive(Clone, Copy, Debug, PartialEq, Eq, Structural)]
pub enum RegistryError {
    /// A port of that name is registered already.
    PortExists,
    /// No port of that name is registered.
    PortNotFound,
    /// The firewall refused the request.
    Layer(LayerError),
}

/// Registered ports, at most one per name.
#[derive(Debug)]
pub struct PortRegistry {
    pub ports: Vec<Port>,
}

impl PortRegistry {
    pub open spec fn wf(&self) -> bool {
        &&& forall|i: int| 0 <= i < self.ports@.len() ==> (#[trigger] self.ports@[i]).wf()
        &&& forall|i: int, j: int|
            0 <= i < self.ports@.len() && 0 <= j < self.ports@.len() && i != j
                ==> (#[trigger] self.ports@[i]).name@ != (#[trigger] self.ports@[j]).name@
    }

    pub open spec fn registered(&self, name: Seq<char>) -> bool {
        exists|i: int| 0 <= i < self.ports@.len() && (#[trigger] self.ports@[i]).name@ == name
    }

    /// The names of the registered ports, in order of registration.
    pub open spec fn names(&self) -> Seq<Seq<char>> {
        self.ports@.map_values(|p: Port| p.name@)
    }

    pub fn new() -> (r: PortRegistry)
        ensures
            r.wf(),
            r.ports@.len() == 0,
    {
        PortRegistry { ports: Vec::new() }
    }

    /// The position of the port called `name`.
    pub fn find(&self, name: &String) -> (r: Option<usize>)
        ensures
            r is None <==> !self.registered(name@),
            r matches Some(i) ==> i < self.ports@.len() && self.ports@[i as int].name@ == name@,
    {
        let mut i: usize = 0;
        while i < self.ports.len()
            invariant
                i <= self.ports@.len(),
                forall|j: int| 0 <= j < i ==> (#[trigger] self.ports@[j]).name@ != name@,
            decreases self.ports@.len() - i,
        {
            if self.ports[i].name == *name {
                return Some(i);
            }
            i += 1;
        }
        None
    }

    /// Create a port from `config`; fails if the name is taken.
    pub fn register(&mut self, name: String, config: PortConfig) -> (r: Result<(), RegistryError>)
        requires
            old(self).wf(),
        ensures
            final(self).wf(),
            r is Err <==> old(self).registered(name@),
            r matches Err(e) ==> e == RegistryError::PortExists && final(self).ports@ == old(
                self,
            ).ports@,
            r is Ok ==> final(self).names() == old(self).names().push(name@)
                && final(self).ports@.last().config == config && final(self).ports@.drop_last()
                == old(self).ports@,
            r is Ok ==> final(self).ports@.last().firewall.rules_in@.len() == 0
                && final(self).ports@.last().firewall.rules_out@.len() == 0
                && final(self).ports@.last().nat_pool.mappings@.len() == 0,
    {
        if self.find(&name).is_some() {
            return Err(RegistryError::PortExists);
        }
        let ghost n = name@;
        let p = Port::new(name, config);
        self.ports.push(p);
        assert(self.ports@.drop_last() =~= old(self).ports@);
        assert(self.names() =~= old(self).names().push(n));
        Ok(())
    }

    /// Remove the port called `name` and hand it back.
    pub fn unregister(&mut self, name: &String) -> (r: Result<Port, RegistryError>)
        requires
            old(self).wf(),
        ensures
            final(self).wf(),
            r is Err <==> !old(self).registered(name@),
            r matches Err(e) ==> e == RegistryError::PortNotFound && final(self).ports@ == old(
                self,
            ).ports@,
            r matches Ok(p) ==> p.name@ == name@ && exists|i: int|
                0 <= i < old(self).ports@.len() && old(self).ports@[i] == p && final(self).ports@
                    == old(self).ports@.remove(i),
            !final(self).registered(name@),
    {
        match self.find(name) {
            None => Err(RegistryError::PortNotFound),
            Some(i) => {
                let p = self.ports.remove(i);
                proof {
                    let s = self.ports@;
                    let o = old(self).ports@;
                    assert forall|j: int| 0 <= j < s.len() implies #[trigger] s[j] == o[if j < i { j } else { j + 1 }] by {}
                    assert forall|j: int| 0 <= j < s.len() implies (#[trigger] s[j]).name@ != name@ by {
                        assert(s[j] == o[if j < i { j } else { j + 1 }]);
                    }
                    assert forall|j: int, k: int| 0 <= j < s.len() && 0 <= k < s.len() && j != k
                        implies (#[trigger] s[j]).name@ != (#[trigger] s[k]).name@ by {
                        assert(s[j] == o[if j < i { j } else { j + 1 }]);
                        assert(s[k] == o[if k < i { k } else { k + 1 }]);
                    }
                }
                Ok(p)
            },
        }
    }

    /// The name and private MAC of every registered port.
    pub fn list_ports(&self) -> (r: Vec<(String, EtherAddr)>)
        ensures
            r@.len() == self.ports@.len(),
            forall|i: int|
                0 <= i < r@.len() ==> (#[trigger] r@[i]).0@ == self.ports@[i].name@ && r@[i].1
                    == self.ports@[i].config.private_mac,
    {
        let mut r: Vec<(String, EtherAddr)> = Vec::new();
        let mut i: usize = 0;
        while i < self.ports.len()
            invariant
                i <= self.ports@.len(),
                r@.len() == i,
                forall|j: int|
                    0 <= j < i ==> (#[trigger] r@[j]).0@ == self.ports@[j].name@ && r@[j].1
                        == self.ports@[j].config.private_mac,
            decreases self.ports@.len() - i,
        {
            let name = self.ports[i].name.clone();
            r.push((name, self.ports[i].config.private_mac));
            i += 1;
        }
        r
    }

    /// Take the port at `i` out.
    fn take(&mut self, i: usize) -> (p: Port)
        requires
            old(self).wf(),
            i < old(self).ports@.len(),
        ensures
            p == old(self).ports@[i as int],
            final(self).ports@ == old(self).ports@.remove(i as int),
    {
        self.ports.remove(i)
    }

    #[verifier::rlimit(60)]
    fn put_back(&mut self, i: usize, p: Port)
        requires
            i <= old(self).ports@.len(),
            p.wf(),
            forall|j: int| 0 <= j < old(self).ports@.len() ==> (#[trigger] old(self).ports@[j]).wf(),
            forall|j: int|
                0 <= j < old(self).ports@.len() ==> (#[trigger] old(self).ports@[j]).name@ != p.name@,
            forall|j: int, k: int|
                0 <= j < old(self).ports@.len() && 0 <= k < old(self).ports@.len() && j != k
                    ==> (#[trigger] old(self).ports@[j]).name@ != (#[trigger] old(self).ports@[k]).name@,
        ensures
            final(self).wf(),
            final(self).ports@ == old(self).ports@.insert(i as int, p),
    {
        self.ports.insert(i, p);
        proof {
            let s = self.ports@;
            let o = old(self).ports@;
            assert forall|j: int| 0 <= j < s.len() implies (#[trigger] s[j]) == (if j < i { o[j] } else if j == i { p } else { o[j - 1] }) by {}
            assert forall|j: int, k: int| 0 <= j < s.len() && 0 <= k < s.len() && j != k
                implies (#[trigger] s[j]).name@ != (#[trigger] s[k]).name@ by {
                assert(s[j] == (if j < i { o[j] } else if j == i { p } else { o[j - 1] }));
                assert(s[k] == (if k < i { o[k] } else if k == i { p } else { o[k - 1] }));
            }
            assert forall|j: int| 0 <= j < s.len() implies (#[trigger] s[j]).wf() by {
                assert(s[j] == (if j < i { o[j] } else if j == i { p } else { o[j - 1] }));
            }
        }
    }

    proof fn lemma_rest(&self, before: PortRegistry, i: int)
        requires
            before.wf(),
            0 <= i < before.ports@.len(),
            self.ports@ == before.ports@.remove(i),
        ensures
            forall|j: int| 0 <= j < self.ports@.len() ==> (#[trigger] self.ports@[j]).wf(),
            forall|j: int|
                0 <= j < self.ports@.len() ==> (#[trigger] self.ports@[j]).name@ != before.ports@[i].name@,
            forall|j: int, k: int|
                0 <= j < self.ports@.len() && 0 <= k < self.ports@.len() && j != k
                    ==> (#[trigger] self.ports@[j]).name@ != (#[trigger] self.ports@[k]).name@,
    {
        let s = self.ports@;
        let o = before.ports@;
        assert forall|j: int| 0 <= j < s.len() implies #[trigger] s[j] == o[if j < i { j } else { j + 1 }] by {}
        assert forall|j: int| 0 <= j < s.len() implies (#[trigger] s[j]).wf() && s[j].name@ != o[i].name@ by {
            assert(s[j] == o[if j < i { j } else { j + 1 }]);
        }
        assert forall|j: int, k: int| 0 <= j < s.len() && 0 <= k < s.len() && j != k
            implies (#[trigger] s[j]).name@ != (#[trigger] s[k]).name@ by {
            assert(s[j] == o[if j < i { j } else { j + 1 }]);
            assert(s[k] == o[if k < i { k } else { k + 1 }]);
        }
    }

    /// Process a packet on the port called `name`.
    pub fn process(&mut self, name: &String, dir: Direction, f: &FlowId, fl: TcpFlags) -> (r: Result<
        Decision,
        RegistryError,
    >)
        requires
            old(self).wf(),
        ensures
            final(self).wf(),
            final(self).names() == old(self).names(),
            r is Err <==> !old(self).registered(name@),
            r matches Err(e) ==> e == RegistryError::PortNotFound && final(self).ports@ == old(
                self,
            ).ports@,
            r matches Ok(d) ==> exists|i: int|
                0 <= i < old(self).ports@.len() && (#[trigger] old(self).ports@[i]).name@ == name@
                    && final(self).ports@ == old(self).ports@.update(i, final(self).ports@[i])
                    && process_outcome(old(self).ports@[i], final(self).ports@[i], dir, *f, fl, d),
    {
        match self.find(name) {
            None => Err(RegistryError::PortNotFound),
            Some(i) => {
                let mut p = self.take(i);
                proof {
                    self.lemma_rest(*old(self), i as int);
                }
                let d = p.process(dir, f, fl);
                self.put_back(i, p);
                assert(self.ports@ =~= old(self).ports@.update(i as int, p));
                assert(self.names() =~= old(self).names());
                Ok(d)
            },
        }
    }

    /// Add a firewall rule to the port called `name`; the rule's id is
    /// returned.
    pub fn add_firewall_rule(&mut self, name: &String, rule: &FirewallRule) -> (r: Result<
        u64,
        RegistryError,
    >)
        requires
            old(self).wf(),
        ensures
            final(self).wf(),
            final(self).names() == old(self).names(),
            !old(self).registered(name@) ==> r == Err::<u64, RegistryError>(
                RegistryError::PortNotFound,
            ) && final(self).ports@ == old(self).ports@,
            old(self).registered(name@) ==> exists|i: int|
                0 <= i < old(self).ports@.len() && (#[trigger] old(self).ports@[i]).name@ == name@
                    && final(self).ports@ == old(self).ports@.update(i, final(self).ports@[i])
                    && exists|lr: Result<u64, LayerError>|
                    add_outcome(old(self).ports@[i], final(self).ports@[i], *rule, lr) && match lr {
                        Ok(id) => r == Ok::<u64, RegistryError>(id),
                        Err(e) => r == Err::<u64, RegistryError>(RegistryError::Layer(e)),
                    },
    {
        match self.find(name) {
            None => Err(RegistryError::PortNotFound),
            Some(i) => {
                let mut p = self.take(i);
                proof {
                    self.lemma_rest(*old(self), i as int);
                }
                let r = p.add_firewall_rule(rule);
                self.put_back(i, p);
                assert(self.ports@ =~= old(self).ports@.update(i as int, p));
                assert(add_outcome(old(self).ports@[i as int], self.ports@[i as int], *rule, r));
                assert(self.names() =~= old(self).names());
                match r {
                    Ok(id) => Ok(id),
                    Err(e) => Err(RegistryError::Layer(e)),
                }
            },
        }
    }

    /// Remove firewall rule `id` of direction `dir` from the port called
    /// `name`.
    pub fn remove_firewall_rule(&mut self, name: &String, dir: Direction, id: u64) -> (r: Result<
        (),
        RegistryError,
    >)
        requires
            old(self).wf(),
        ensures
            final(self).wf(),
            final(self).names() == old(self).names(),
            !old(self).registered(name@) ==> r == Err::<(), RegistryError>(
                RegistryError::PortNotFound,
            ) && final(self).ports@ == old(self).ports@,
            old(self).registered(name@) ==> exists|i: int|
                0 <= i < old(self).ports@.len() && (#[trigger] old(self).ports@[i]).name@ == name@
                    && final(self).ports@ == old(self).ports@.update(i, final(self).ports@[i])
                    && exists|lr: Result<(), LayerError>|
                    remove_outcome(old(self).ports@[i], final(self).ports@[i], dir, id, lr) && match lr {
                        Ok(_) => r == Ok::<(), RegistryError>(()),
                        Err(e) => r == Err::<(), RegistryError>(RegistryError::Layer(e)),
                    },
    {
        match self.find(name) {
            None => Err(RegistryError::PortNotFound),
            Some(i) => {
                let mut p = self.take(i);
                proof {
                    self.lemma_rest(*old(self), i as int);
                }
                let r = p.remove_firewall_rule(dir, id);
                self.put_back(i, p);
                assert(self.ports@ =~= old(self).ports@.update(i as int, p));
                assert(remove_outcome(old(self).ports@[i as int], self.ports@[i as int], dir, id, r));
                assert(self.names() =~= old(self).names());
                match r {
                    Ok(()) => Ok(()),
                    Err(e) => Err(RegistryError::Layer(e)),
                }
            },
        }
    }

    /// Dump the firewall layer of the port called `name`.
    pub fn dump_layer(&self, name: &String) -> (r: Result<LayerDump, RegistryError>)
        requires
            self.wf(),
        ensures
            r is Err <==> !self.registered(name@),
            r matches Err(e) ==> e == RegistryError::PortNotFound,
            r matches Ok(d) ==> exists|i: int|
                0 <= i < self.ports@.len() && (#[trigger] self.ports@[i]).name@ == name@
                    && d.ft_in@ == self.ports@[i].firewall.ft_in.entries@ && d.ft_out@
                    == self.ports@[i].firewall.ft_out.entries@ && same_rules(
                    d.rules_in@,
                    self.ports@[i].firewall.rules_in@,
                ) && same_rules(d.rules_out@, self.ports@[i].firewall.rules_out@),
    {
        match self.find(name) {
            None => Err(RegistryError::PortNotFound),
            Some(i) => Ok(self.ports[i].firewall.dump()),
        }
    }

    /// The live NAT mappings of the port called `name`.
    pub fn dump_nat(&self, name: &String) -> (r: Result<Vec<NatMapping>, RegistryError>)
        requires
            self.wf(),
        ensures
            r is Err <==> !self.registered(name@),
            r matches Err(e) ==> e == RegistryError::PortNotFound,
            r matches Ok(v) ==> exists|i: int|
                0 <= i < self.ports@.len() && (#[trigger] self.ports@[i]).name@ == name@ && v@
                    == self.ports@[i].nat_pool.mappings@,
    {
        match self.find(name) {
            None => Err(RegistryError::PortNotFound),
            Some(i) => Ok(self.ports[i].nat_pool.dump()),
        }
    }

    /// The tracked TCP flows of the port called `name`.
    pub fn dump_tcp_flows(&self, name: &String) -> (r: Result<Vec<FlowEntry<TcpState>>, RegistryError>)
        requires
            self.wf(),
        ensures
            r is Err <==> !self.registered(name@),
            r matches Err(e) ==> e == RegistryError::PortNotFound,
            r matches Ok(v) ==> exists|i: int|
                0 <= i < self.ports@.len() && (#[trigger] self.ports@[i]).name@ == name@ && v@
                    == self.ports@[i].tcp_flows.entries@,
    {
        match self.find(name) {
            None => Err(RegistryError::PortNotFound),
            Some(i) => Ok(self.ports[i].dump_tcp_flows()),
        }
    }

    /// Dump the UFTs of the port called `name`.
    pub fn dump_uft(&self, name: &String) -> (r: Result<UftDump, RegistryError>)
        requires
            self.wf(),
        ensures
            r is Err <==> !self.registered(name@),
            r matches Err(e) ==> e == RegistryError::PortNotFound,
            r matches Ok(d) ==> exists|i: int|
                0 <= i < self.ports@.len() && (#[trigger] self.ports@[i]).name@ == name@
                    && d.uft_in_num_flows == self.ports@[i].uft_in.entries@.len()
                    && d.uft_out_num_flows == self.ports@[i].uft_out.entries@.len()
                    && d.uft_in_limit == self.ports@[i].uft_in.limit && d.uft_out_limit
                    == self.ports@[i].uft_out.limit && d.uft_in@ == self.ports@[i].uft_in.entries@
                    && d.uft_out@ == self.ports@[i].uft_out.entries@,
    {
        match self.find(name) {
            None => Err(RegistryError::PortNotFound),
            Some(i) => Ok(self.ports[i].dump_uft()),
        }
    }
}

} // verus!
