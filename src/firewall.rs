//! The firewall layer: per-direction rule sets built from filters, a
//! default of Deny, and a flow cache of the decisions taken.
use vstd::prelude::*;

use crate::flow_table::{FlowEntry, FlowTable};
use crate::net::{Direction, FlowId, Ipv4Addr, Protocol, VpcSubnet4};
use crate::rule::{decide, sorted_by_priority, spec_decide, Action, Predicate, Rule};

verus! {

/// The remote host a rule applies to.
#[derive(Clone, Copy, Debug, PartialEq, Eq, Structural)]
pub enum Address {
    Any,
    Ip(Ipv4Addr),
    Subnet(VpcSubnet4),
}

#[derive(Clone, Copy, Debug, PartialEq, Eq, Structural)]
pub enum ProtoFilter {
    Any,
    Proto(Protocol),
}

/// The destination ports a rule applies to, `lo ..= hi`.
#[derive(Clone, Copy, Debug, PartialEq, Eq, Structural)]
pub enum Ports {
    Any,
    PortRange(u16, u16),
}

#[derive(Clone, Copy, Debug, PartialEq, Eq, Structural)]
pub struct Filters {
    pub hosts: Address,
    pub protocol: ProtoFilter,
    pub ports: Ports,
}

impl Filters {
    /// Filters that match every flow.
    pub fn new() -> (r: Filters)
        ensures
            r == (Filters { hosts: Address::Any, protocol: ProtoFilter::Any, ports: Ports::Any }),
    {
        Filters { hosts: Address::Any, protocol: ProtoFilter::Any, ports: Ports::Any }
    }

    pub fn set_hosts(self, hosts: Address) -> (r: Filters)
        ensures
            r == (Filters { hosts, ..self }),
    {
        Filters { hosts, ..self }
    }

    pub fn protocol(self, protocol: ProtoFilter) -> (r: Filters)
        ensures
            r == (Filters { protocol, ..self }),
    {
        Filters { protocol, ..self }
    }

    pub fn ports(self, ports: Ports) -> (r: Filters)
        ensures
            r == (Filters { ports, ..self }),
    {
        Filters { ports, ..self }
    }
}

/// A firewall rule as the control plane hands it in.
#[derive(Clone, Copy, Debug, PartialEq, Eq, Structural)]
pub struct FirewallRule {
    pub direction: Direction,
    pub filters: Filters,
    pub action: Action,
    pub priority: u16,
}

/// The predicates of `filters` for direction `dir`: the host filter
/// speaks of the remote end (the destination of outbound traffic, the
/// source of inbound traffic), the port filter of the destination port.
pub open spec fn spec_predicates(dir: Direction, filters: Filters) -> Seq<Predicate> {
    let hosts: Seq<Predicate> = match filters.hosts {
        Address::Any => seq![],
        Address::Ip(a) => if dir == Direction::Out {
            seq![Predicate::DstIp(a)]
        } else {
            seq![Predicate::SrcIp(a)]
        },
        Address::Subnet(s) => if dir == Direction::Out {
            seq![Predicate::DstSubnet(s)]
        } else {
            seq![Predicate::SrcSubnet(s)]
        },
    };
    let proto: Seq<Predicate> = match filters.protocol {
        ProtoFilter::Any => seq![],
        ProtoFilter::Proto(p) => seq![Predicate::Proto(p)],
    };
    let ports: Seq<Predicate> = match filters.ports {
        Ports::Any => seq![],
        Ports::PortRange(lo, hi) => seq![Predicate::DstPorts(lo, hi)],
    };
    hosts + proto + ports
}

pub fn predicates(dir: Direction, filters: &Filters) -> (r: Vec<Predicate>)
    ensures
        r@ == spec_predicates(dir, *filters),
{
    let mut r: Vec<Predicate> = Vec::new();
    match filters.hosts {
        Address::Any => {},
        Address::Ip(a) => {
            if dir == Direction::Out {
                r.push(Predicate::DstIp(a));
            } else {
                r.push(Predicate::SrcIp(a));
            }
        },
        Address::Subnet(s) => {
            if dir == Direction::Out {
                r.push(Predicate::DstSubnet(s));
            } else {
                r.push(Predicate::SrcSubnet(s));
            }
        },
    }
    let ghost h = r@;
    match filters.protocol {
        ProtoFilter::Any => {},
        ProtoFilter::Proto(p) => r.push(Predicate::Proto(p)),
    }
    let ghost hp = r@;
    match filters.ports {
        Ports::Any => {},
        Ports::PortRange(lo, hi) => r.push(Predicate::DstPorts(lo, hi)),
    }
    assert(r@ =~= spec_predicates(dir, *filters));
    r
}

#[derive(Clone, Copy, Debug, PartialEq, Eq, Structural)]
pub enum LayerError {
    /// No rule of that id in that direction.
    RuleNotFound,
    /// Every rule id has been handed out.
    IdsExhausted,
}

/// What a dump of a layer reports: each direction's cached flows and
/// rules.
#[derive(Debug)]
pub struct LayerDump {
    pub ft_in: Vec<FlowEntry<Action>>,
    pub ft_out: Vec<FlowEntry<Action>>,
    pub rules_in: Vec<Rule>,
    pub rules_out: Vec<Rule>,
}

/// The same rules, each with its id, priority, predicates and action.
pub open spec fn same_rules(a: Seq<Rule>, b: Seq<Rule>) -> bool {
    &&& a.len() == b.len()
    &&& forall|i: int|
        0 <= i < a.len() ==> (#[trigger] a[i]).id == b[i].id && a[i].priority == b[i].priority
            && a[i].predicates@ == b[i].predicates@ && a[i].action == b[i].action
}

fn copy_rules(rules: &Vec<Rule>) -> (r: Vec<Rule>)
    ensures
        same_rules(r@, rules@),
{
    let mut r: Vec<Rule> = Vec::new();
    let mut i: usize = 0;
    while i < rules.len()
        invariant
            i <= rules@.len(),
            r@.len() == i,
            forall|j: int|
                0 <= j < i ==> (#[trigger] r@[j]).id == rules@[j].id && r@[j].priority
                    == rules@[j].priority && r@[j].predicates@ == rules@[j].predicates@
                    && r@[j].action == rules@[j].action,
        decreases rules@.len() - i,
    {
        r.push(rules[i].copy());
        i += 1;
    }
    r
}

/// A rule layer: a rule set and a flow cache per direction. A rule id is
/// unique across both directions; the default action is Deny.
#[derive(Debug)]
pub struct Layer {
    pub rules_in: Vec<Rule>,
    pub rules_out: Vec<Rule>,
    pub ft_in: FlowTable<Action>,
    pub ft_out: FlowTable<Action>,
    pub next_id: u64,
}

/// The action a layer takes when no rule matches.
pub open spec fn default_action() -> Action {
    Action::Deny
}

impl Layer {
    pub open spec fn rules(&self, dir: Direction) -> Seq<Rule> {
        if dir == Direction::In {
            self.rules_in@
        } else {
            self.rules_out@
        }
    }

    pub open spec fn ft(&self, dir: Direction) -> FlowTable<Action> {
        if dir == Direction::In {
            self.ft_in
        } else {
            self.ft_out
        }
    }

    /// The decision of the rule set of `dir` on `f`.
    pub open spec fn spec_evaluate(&self, dir: Direction, f: FlowId) -> Action {
        spec_decide(self.rules(dir), default_action(), f)
    }

    /// The rule ids of one direction are below `next_id`.
    pub open spec fn ids_below(rules: Seq<Rule>, next: u64) -> bool {
        forall|i: int| 0 <= i < rules.len() ==> (#[trigger] rules[i]).id < next
    }

    /// Every cached decision is the one the rules take now.
    pub open spec fn cache_agrees(&self, dir: Direction) -> bool {
        forall|i: int|
            0 <= i < self.ft(dir).entries@.len() ==> (#[trigger] self.ft(dir).entries@[i]).value
                == self.spec_evaluate(dir, self.ft(dir).entries@[i].id)
    }

    /// No two rules of `rules` share an id.
    pub open spec fn ids_distinct(rules: Seq<Rule>) -> bool {
        forall|i: int, j: int|
            0 <= i < rules.len() && 0 <= j < rules.len() && i != j ==> (#[trigger] rules[i]).id
                != (#[trigger] rules[j]).id
    }

    /// No rule of `a` shares an id with a rule of `b`.
    pub open spec fn ids_apart(a: Seq<Rule>, b: Seq<Rule>) -> bool {
        forall|i: int, j: int|
            0 <= i < a.len() && 0 <= j < b.len() ==> (#[trigger] a[i]).id != (#[trigger] b[j]).id
    }

    /// Each rule list is kept in selection order: by priority, and among
    /// equal priorities in order of insertion. Rule ids are unique across
    /// both directions.
    pub open spec fn wf(&self) -> bool {
        &&& self.ft_in.wf()
        &&& self.ft_out.wf()
        &&& Self::ids_below(self.rules_in@, self.next_id)
        &&& Self::ids_below(self.rules_out@, self.next_id)
        &&& Self::ids_distinct(self.rules_in@)
        &&& Self::ids_distinct(self.rules_out@)
        &&& Self::ids_apart(self.rules_in@, self.rules_out@)
        &&& sorted_by_priority(self.rules_in@)
        &&& sorted_by_priority(self.rules_out@)
        &&& self.cache_agrees(Direction::In)
        &&& self.cache_agrees(Direction::Out)
    }

    /// An empty layer whose flow caches hold `limit` flows each.
    pub fn new(limit: usize) -> (r: Layer)
        requires
            limit > 0,
        ensures
            r.wf(),
            r.rules_in@.len() == 0,
            r.rules_out@.len() == 0,
            r.next_id == 0,
            r.ft_in.limit == limit,
            r.ft_out.limit == limit,
    {
        Layer {
            rules_in: Vec::new(),
            rules_out: Vec::new(),
            ft_in: FlowTable::new(limit),
            ft_out: FlowTable::new(limit),
            next_id: 0,
        }
    }

    /// Decide `f` in direction `dir`, from the flow cache where it holds
    /// the flow, else from the rules, caching the result.
    pub fn process(&mut self, dir: Direction, f: &FlowId) -> (r: Action)
        requires
            old(self).wf(),
        ensures
            final(self).wf(),
            r == old(self).spec_evaluate(dir, *f),
            final(self).rules_in@ == old(self).rules_in@,
            final(self).rules_out@ == old(self).rules_out@,
            final(self).next_id == old(self).next_id,
    {
        if dir == Direction::In {
            match self.ft_in.lookup(f) {
                Some(a) => {
                    self.ft_in.touch(f);
                    a
                },
                None => {
                    let a = decide(&self.rules_in, Action::Deny, f);
                    self.ft_in.insert(*f, a);
                    a
                },
            }
        } else {
            match self.ft_out.lookup(f) {
                Some(a) => {
                    self.ft_out.touch(f);
                    a
                },
                None => {
                    let a = decide(&self.rules_out, Action::Deny, f);
                    self.ft_out.insert(*f, a);
                    a
                },
            }
        }
    }

    /// The position at which a rule of priority `priority` goes: after
    /// every rule of lower or equal priority number.
    fn insert_pos(rules: &Vec<Rule>, priority: u16) -> (r: usize)
        requires
            sorted_by_priority(rules@),
        ensures
            r <= rules@.len(),
            forall|j: int| 0 <= j < r ==> (#[trigger] rules@[j]).priority <= priority,
            forall|j: int| r <= j < rules@.len() ==> (#[trigger] rules@[j]).priority > priority,
    {
        let mut i: usize = 0;
        while i < rules.len() && rules[i].priority <= priority
            invariant
                i <= rules@.len(),
                forall|j: int| 0 <= j < i ==> (#[trigger] rules@[j]).priority <= priority,
            decreases rules@.len() - i,
        {
            i += 1;
        }
        proof {
            assert forall|j: int| i <= j < rules@.len() implies (#[trigger] rules@[j]).priority > priority by {
                assert(rules@[i as int].priority <= rules@[j].priority);
            }
        }
        i
    }

    /// Add a rule in selection order and return its id. The direction's
    /// flow cache is cleared, so that no cached decision outlives the
    /// rule set.
    pub fn add_rule(&mut self, rule: &FirewallRule) -> (r: Result<u64, LayerError>)
        requires
            old(self).wf(),
        ensures
            final(self).wf(),
            r is Err <==> old(self).next_id == u64::MAX,
            r matches Err(e) ==> e == LayerError::IdsExhausted && *final(self) == *old(self),
            r matches Ok(id) ==> {
                &&& id == old(self).next_id
                &&& final(self).next_id == old(self).next_id + 1
                &&& rule_added(
                    old(self).rules(rule.direction),
                    final(self).rules(rule.direction),
                    id,
                    *rule,
                )
                &&& final(self).ft(rule.direction).entries@.len() == 0
                &&& rule.direction == Direction::In ==> final(self).rules_out@ == old(self).rules_out@
                    && final(self).ft_out == old(self).ft_out
                &&& rule.direction == Direction::Out ==> final(self).rules_in@ == old(self).rules_in@
                    && final(self).ft_in == old(self).ft_in
            },
            final(self).ft_in.limit == old(self).ft_in.limit,
            final(self).ft_out.limit == old(self).ft_out.limit,
    {
        if self.next_id == u64::MAX {
            return Err(LayerError::IdsExhausted);
        }
        let id = self.next_id;
        let r = Rule {
            id,
            priority: rule.priority,
            predicates: predicates(rule.direction, &rule.filters),
            action: rule.action,
        };
        let ghost rg = r;
        self.next_id = id + 1;
        if rule.direction == Direction::In {
            let pos = Self::insert_pos(&self.rules_in, rule.priority);
            self.rules_in.insert(pos, r);
            self.ft_in.clear();
            proof {
                lemma_insert_sorted(old(self).rules_in@, self.rules_in@, pos as int, rg, id);
                assert(self.rules_in@[pos as int] == rg);
                let o = old(self).rules_out@;
                let n = self.rules_in@;
                assert forall|i: int, j: int| 0 <= i < n.len() && 0 <= j < o.len() implies (#[trigger] n[i]).id != (#[trigger] o[j]).id by {
                    if i < pos {
                        assert(n[i] == old(self).rules_in@[i]);
                    } else if i > pos {
                        assert(n[i] == old(self).rules_in@[i - 1]);
                    }
                }
            }
        } else {
            let pos = Self::insert_pos(&self.rules_out, rule.priority);
            self.rules_out.insert(pos, r);
            self.ft_out.clear();
            proof {
                lemma_insert_sorted(old(self).rules_out@, self.rules_out@, pos as int, rg, id);
                assert(self.rules_out@[pos as int] == rg);
                let o = old(self).rules_in@;
                let n = self.rules_out@;
                assert forall|i: int, j: int| 0 <= i < o.len() && 0 <= j < n.len() implies (#[trigger] o[i]).id != (#[trigger] n[j]).id by {
                    if j < pos {
                        assert(n[j] == old(self).rules_out@[j]);
                    } else if j > pos {
                        assert(n[j] == old(self).rules_out@[j - 1]);
                    }
                }
            }
        }
        Ok(id)
    }

    /// Drop the cached outbound decision of flow `f`, once the flow has
    /// ended.
    pub fn forget_out(&mut self, f: &FlowId)
        requires
            old(self).wf(),
        ensures
            final(self).wf(),
            !final(self).ft_out.has(*f),
            final(self).rules_in@ == old(self).rules_in@,
            final(self).rules_out@ == old(self).rules_out@,
            final(self).next_id == old(self).next_id,
            final(self).ft_in == old(self).ft_in,
            final(self).ft_out.limit == old(self).ft_out.limit,
    {
        self.ft_out.remove(f);
        proof {
            assert forall|j: int| 0 <= j < self.ft(Direction::Out).entries@.len() implies
                (#[trigger] self.ft(Direction::Out).entries@[j]).value
                == self.spec_evaluate(Direction::Out, self.ft(Direction::Out).entries@[j].id) by {
                let e = self.ft_out.entries@[j];
                assert(self.ft(Direction::Out).entries@[j] == e);
                let k = choose|k: int|
                    0 <= k < old(self).ft_out.entries@.len() && #[trigger] old(self).ft_out.entries@[k].id == e.id
                        && old(self).ft_out.entries@[k].value == e.value;
                assert(old(self).ft(Direction::Out).entries@[k] == old(self).ft_out.entries@[k]);
            }
            assert forall|j: int| 0 <= j < self.ft(Direction::In).entries@.len() implies
                (#[trigger] self.ft(Direction::In).entries@[j]).value
                == self.spec_evaluate(Direction::In, self.ft(Direction::In).entries@[j].id) by {
                assert(old(self).ft(Direction::In).entries@[j] == self.ft(Direction::In).entries@[j]);
            }
        }
    }

    /// A snapshot of the layer's flow caches and rules.
    pub fn dump(&self) -> (r: LayerDump)
        ensures
            r.ft_in@ == self.ft_in.entries@,
            r.ft_out@ == self.ft_out.entries@,
            same_rules(r.rules_in@, self.rules_in@),
            same_rules(r.rules_out@, self.rules_out@),
    {
        LayerDump {
            ft_in: self.ft_in.dump(),
            ft_out: self.ft_out.dump(),
            rules_in: copy_rules(&self.rules_in),
            rules_out: copy_rules(&self.rules_out),
        }
    }

    fn find_rule(rules: &Vec<Rule>, id: u64) -> (r: Option<usize>)
        ensures
            r is None <==> forall|i: int| 0 <= i < rules@.len() ==> (#[trigger] rules@[i]).id != id,
            r matches Some(i) ==> i < rules@.len() && rules@[i as int].id == id,
    {
        let mut i: usize = 0;
        while i < rules.len()
            invariant
                i <= rules@.len(),
                forall|j: int| 0 <= j < i ==> (#[trigger] rules@[j]).id != id,
            decreases rules@.len() - i,
        {
            if rules[i].id == id {
                return Some(i);
            }
            i += 1;
        }
        None
    }

    /// Remove the rule `id` of direction `dir`, clearing that direction's
    /// flow cache. An unknown id leaves the layer as it was.
    pub fn remove_rule(&mut self, dir: Direction, id: u64) -> (r: Result<(), LayerError>)
        requires
            old(self).wf(),
        ensures
            final(self).wf(),
            r is Err <==> forall|i: int|
                0 <= i < old(self).rules(dir).len() ==> (#[trigger] old(self).rules(dir)[i]).id != id,
            r matches Err(e) ==> e == LayerError::RuleNotFound && *final(self) == *old(self),
            r is Ok ==> rule_removed(old(self).rules(dir), final(self).rules(dir), id)
                && final(self).ft(dir).entries@.len() == 0,
            dir == Direction::In ==> final(self).rules_out@ == old(self).rules_out@
                && final(self).ft_out == old(self).ft_out,
            dir == Direction::Out ==> final(self).rules_in@ == old(self).rules_in@
                && final(self).ft_in == old(self).ft_in,
            final(self).next_id == old(self).next_id,
            final(self).ft_in.limit == old(self).ft_in.limit,
            final(self).ft_out.limit == old(self).ft_out.limit,
    {
        let found = if dir == Direction::In {
            Self::find_rule(&self.rules_in, id)
        } else {
            Self::find_rule(&self.rules_out, id)
        };
        match found {
            None => Err(LayerError::RuleNotFound),
            Some(i) => {
                if dir == Direction::In {
                    self.rules_in.remove(i);
                    self.ft_in.clear();
                    proof {
                        lemma_remove_sorted(old(self).rules_in@, self.rules_in@, i as int, self.next_id);
                        let o = old(self).rules_out@;
                        let n = self.rules_in@;
                        assert forall|a: int, b: int| 0 <= a < n.len() && 0 <= b < o.len() implies (#[trigger] n[a]).id != (#[trigger] o[b]).id by {
                            assert(n[a] == old(self).rules_in@[if a < i { a } else { a + 1 }]);
                        }
                    }
                } else {
                    self.rules_out.remove(i);
                    self.ft_out.clear();
                    proof {
                        lemma_remove_sorted(old(self).rules_out@, self.rules_out@, i as int, self.next_id);
                        let o = old(self).rules_in@;
                        let n = self.rules_out@;
                        assert forall|a: int, b: int| 0 <= a < o.len() && 0 <= b < n.len() implies (#[trigger] o[a]).id != (#[trigger] n[b]).id by {
                            assert(n[b] == old(self).rules_out@[if b < i { b } else { b + 1 }]);
                        }
                    }
                }
                Ok(())
            },
        }
    }
}

/// `after` is `before` with a rule of id `id` made from `rule` inserted in
/// selection order: after every rule of lower or equal priority number,
/// before every rule of a higher one.
pub open spec fn rule_added(before: Seq<Rule>, after: Seq<Rule>, id: u64, rule: FirewallRule) -> bool {
    exists|pos: int|
        0 <= pos <= before.len() && after == before.insert(pos, after[pos]) && after[pos].id == id
            && after[pos].priority == rule.priority && after[pos].action == rule.action
            && after[pos].predicates@ == spec_predicates(rule.direction, rule.filters) && (forall|j: int|
            0 <= j < pos ==> (#[trigger] before[j]).priority <= rule.priority) && (forall|j: int|
            pos <= j < before.len() ==> (#[trigger] before[j]).priority > rule.priority)
}

/// `after` is `before` without its rule of id `id`.
pub open spec fn rule_removed(before: Seq<Rule>, after: Seq<Rule>, id: u64) -> bool {
    exists|i: int| 0 <= i < before.len() && (#[trigger] before[i]).id == id && after == before.remove(i)
}

proof fn lemma_insert_sorted(before: Seq<Rule>, after: Seq<Rule>, pos: int, r: Rule, next: u64)
    requires
        sorted_by_priority(before),
        Layer::ids_below(before, next),
        Layer::ids_distinct(before),
        r.id == next,
        next < u64::MAX,
        0 <= pos <= before.len(),
        after == before.insert(pos, r),
        forall|j: int| 0 <= j < pos ==> (#[trigger] before[j]).priority <= r.priority,
        forall|j: int| pos <= j < before.len() ==> (#[trigger] before[j]).priority > r.priority,
    ensures
        sorted_by_priority(after),
        Layer::ids_below(after, (next + 1) as u64),
        Layer::ids_distinct(after),
        after[pos] == r,
{
    assert forall|k: int| 0 <= k < after.len() implies #[trigger] after[k] == (if k < pos {
        before[k]
    } else if k == pos {
        r
    } else {
        before[k - 1]
    }) by {}
    assert forall|a: int, b: int| 0 <= a < b < after.len() implies (#[trigger] after[a]).priority
        <= (#[trigger] after[b]).priority by {
        assert(after[a] == (if a < pos { before[a] } else if a == pos { r } else { before[a - 1] }));
        assert(after[b] == (if b < pos { before[b] } else if b == pos { r } else { before[b - 1] }));
    }
    assert forall|a: int, b: int| 0 <= a < after.len() && 0 <= b < after.len() && a != b implies (#[trigger] after[a]).id
        != (#[trigger] after[b]).id by {
        assert(after[a] == (if a < pos { before[a] } else if a == pos { r } else { before[a - 1] }));
        assert(after[b] == (if b < pos { before[b] } else if b == pos { r } else { before[b - 1] }));
    }
    assert forall|a: int| 0 <= a < after.len() implies (#[trigger] after[a]).id < next + 1 by {
        assert(after[a] == (if a < pos { before[a] } else if a == pos { r } else { before[a - 1] }));
    }
}

proof fn lemma_remove_sorted(before: Seq<Rule>, after: Seq<Rule>, i: int, next: u64)
    requires
        sorted_by_priority(before),
        Layer::ids_below(before, next),
        Layer::ids_distinct(before),
        0 <= i < before.len(),
        after == before.remove(i),
    ensures
        sorted_by_priority(after),
        Layer::ids_below(after, next),
        Layer::ids_distinct(after),
{
    assert forall|k: int| 0 <= k < after.len() implies #[trigger] after[k] == before[if k < i { k } else { k + 1 }] by {}
    assert forall|a: int, b: int| 0 <= a < b < after.len() implies (#[trigger] after[a]).priority
        <= (#[trigger] after[b]).priority by {
        assert(after[a] == before[if a < i { a } else { a + 1 }]);
        assert(after[b] == before[if b < i { b } else { b + 1 }]);
    }
    assert forall|a: int, b: int| 0 <= a < after.len() && 0 <= b < after.len() && a != b implies (#[trigger] after[a]).id
        != (#[trigger] after[b]).id by {
        assert(after[a] == before[if a < i { a } else { a + 1 }]);
        assert(after[b] == before[if b < i { b } else { b + 1 }]);
    }
    assert forall|a: int| 0 <= a < after.len() implies (#[trigger] after[a]).id < next by {
        assert(after[a] == before[if a < i { a } else { a + 1 }]);
    }
}

} // verus!
