//! Predicates, rules and priority-ordered rule selection.
use vstd::prelude::*;

use crate::net::{FlowId, Ipv4Addr, Protocol, VpcSubnet4};

verus! {

/// One match clause over a flow's identity.
#[derive(Clone, Copy, Debug, PartialEq, Eq, Structural)]
pub enum Predicate {
    SrcIp(Ipv4Addr),
    DstIp(Ipv4Addr),
    SrcSubnet(VpcSubnet4),
    DstSubnet(VpcSubnet4),
    Proto(Protocol),
    /// The source port lies in `lo ..= hi`.
    SrcPorts(u16, u16),
    /// The destination port lies in `lo ..= hi`.
    DstPorts(u16, u16),
}

/// What a rule decides for the flows it matches.
#[derive(Clone, Copy, Debug, PartialEq, Eq, Structural)]
pub enum Action {
    Allow,
    Deny,
}

/// A rule: its predicates all have to match. A numerically lower
/// priority takes precedence; among equal priorities the rule inserted
/// first wins.
#[derive(Clone, Debug)]
pub struct Rule {
    pub id: u64,
    pub priority: u16,
    pub predicates: Vec<Predicate>,
    pub action: Action,
}

pub open spec fn pred_matches(p: Predicate, f: FlowId) -> bool {
    match p {
        Predicate::SrcIp(a) => f.src_ip == a,
        Predicate::DstIp(a) => f.dst_ip == a,
        Predicate::SrcSubnet(s) => s.spec_contains(f.src_ip),
        Predicate::DstSubnet(s) => s.spec_contains(f.dst_ip),
        Predicate::Proto(p) => f.proto == p,
        Predicate::SrcPorts(lo, hi) => lo <= f.src_port <= hi,
        Predicate::DstPorts(lo, hi) => lo <= f.dst_port <= hi,
    }
}

pub fn predicate_matches(p: &Predicate, f: &FlowId) -> (r: bool)
    ensures
        r == pred_matches(*p, *f),
{
    match p {
        Predicate::SrcIp(a) => f.src_ip == *a,
        Predicate::DstIp(a) => f.dst_ip == *a,
        Predicate::SrcSubnet(s) => s.contains(f.src_ip),
        Predicate::DstSubnet(s) => s.contains(f.dst_ip),
        Predicate::Proto(p) => f.proto == *p,
        Predicate::SrcPorts(lo, hi) => *lo <= f.src_port && f.src_port <= *hi,
        Predicate::DstPorts(lo, hi) => *lo <= f.dst_port && f.dst_port <= *hi,
    }
}

/// A rule matches a flow when every one of its predicates does.
pub open spec fn rule_matches(r: Rule, f: FlowId) -> bool {
    forall|i: int| 0 <= i < r.predicates@.len() ==> pred_matches(#[trigger] r.predicates@[i], f)
}

impl Rule {
    /// A copy of the rule.
    pub fn copy(&self) -> (r: Rule)
        ensures
            r.id == self.id,
            r.priority == self.priority,
            r.predicates@ == self.predicates@,
            r.action == self.action,
    {
        let mut predicates: Vec<Predicate> = Vec::new();
        let mut i: usize = 0;
        while i < self.predicates.len()
            invariant
                i <= self.predicates@.len(),
                predicates@ == self.predicates@.subrange(0, i as int),
            decreases self.predicates@.len() - i,
        {
            predicates.push(self.predicates[i]);
            assert(self.predicates@.subrange(0, i + 1) == self.predicates@.subrange(0, i as int).push(
                self.predicates@[i as int],
            ));
            i += 1;
        }
        assert(self.predicates@.subrange(0, self.predicates@.len() as int) == self.predicates@);
        Rule { id: self.id, priority: self.priority, predicates, action: self.action }
    }

    pub fn matches(&self, f: &FlowId) -> (r: bool)
        ensures
            r == rule_matches(*self, *f),
    {
        let mut i: usize = 0;
        while i < self.predicates.len()
            invariant
                i <= self.predicates@.len(),
                forall|j: int| 0 <= j < i ==> pred_matches(#[trigger] self.predicates@[j], *f),
            decreases self.predicates@.len() - i,
        {
            if !predicate_matches(&self.predicates[i], f) {
                return false;
            }
            i += 1;
        }
        true
    }
}

/// Rule `i` takes precedence over rule `j`.
pub open spec fn precedes(rules: Seq<Rule>, i: int, j: int) -> bool {
    rules[i].priority < rules[j].priority || (rules[i].priority == rules[j].priority && i <= j)
}

/// Rule `i` is the one selected for `f`: it matches, and it precedes
/// every other matching rule.
pub open spec fn is_selected(rules: Seq<Rule>, f: FlowId, i: int) -> bool {
    &&& 0 <= i < rules.len()
    &&& rule_matches(rules[i], f)
    &&& forall|j: int|
        0 <= j < rules.len() && rule_matches(#[trigger] rules[j], f) ==> precedes(rules, i, j)
}

/// Some rule of `rules` matches `f`.
pub open spec fn any_matches(rules: Seq<Rule>, f: FlowId) -> bool {
    exists|j: int| 0 <= j < rules.len() && rule_matches(#[trigger] rules[j], f)
}

/// The action that a rule set with default `default` takes on `f`.
pub open spec fn spec_decide(rules: Seq<Rule>, default: Action, f: FlowId) -> Action {
    if any_matches(rules, f) {
        rules[choose|i: int| is_selected(rules, f, i)].action
    } else {
        default
    }
}

/// The index of the selected rule for `f`, if any rule matches.
pub fn select_rule(rules: &Vec<Rule>, f: &FlowId) -> (r: Option<usize>)
    ensures
        r is None <==> !any_matches(rules@, *f),
        r matches Some(i) ==> is_selected(rules@, *f, i as int),
{
    let mut best: Option<usize> = None;
    let mut i: usize = 0;
    while i < rules.len()
        invariant
            i <= rules@.len(),
            best is None ==> forall|j: int| 0 <= j < i ==> !rule_matches(#[trigger] rules@[j], *f),
            best matches Some(b) ==> {
                &&& b < i
                &&& rule_matches(rules@[b as int], *f)
                &&& forall|j: int|
                    0 <= j < i && rule_matches(#[trigger] rules@[j], *f) ==> precedes(
                        rules@,
                        b as int,
                        j,
                    )
            },
        decreases rules@.len() - i,
    {
        if rules[i].matches(f) {
            match best {
                None => {
                    best = Some(i);
                },
                Some(b) => {
                    if rules[i].priority < rules[b].priority {
                        best = Some(i);
                    }
                },
            }
        }
        i += 1;
    }
    best
}

/// Two selections for the same rules and flow pick the same rule.
pub proof fn lemma_selection_unique(rules: Seq<Rule>, f: FlowId, i: int, j: int)
    requires
        is_selected(rules, f, i),
        is_selected(rules, f, j),
    ensures
        i == j,
{
    assert(precedes(rules, i, j));
    assert(precedes(rules, j, i));
}

/// The rules are in selection order: by priority number, lowest first.
/// Among equal priorities the index order is the order of insertion.
pub open spec fn sorted_by_priority(rules: Seq<Rule>) -> bool {
    forall|i: int, j: int|
        0 <= i < j < rules.len() ==> (#[trigger] rules[i]).priority <= (#[trigger] rules[j]).priority
}

/// In a rule list kept in selection order, the first matching rule is the
/// selected one: a listing of the rules in their order shows them in the
/// order in which selection prefers them.
pub proof fn lemma_first_match_selected(rules: Seq<Rule>, f: FlowId, i: int)
    requires
        sorted_by_priority(rules),
        0 <= i < rules.len(),
        rule_matches(rules[i], f),
        forall|j: int| 0 <= j < i ==> !rule_matches(#[trigger] rules[j], f),
    ensures
        is_selected(rules, f, i),
{
    assert forall|j: int| 0 <= j < rules.len() && rule_matches(#[trigger] rules[j], f) implies precedes(
        rules,
        i,
        j,
    ) by {
        if i < j {
            assert(rules[i].priority <= rules[j].priority);
        }
    }
}

/// Decide `f` by the rule set: the selected rule's action, or the
/// default when no rule matches.
pub fn decide(rules: &Vec<Rule>, default: Action, f: &FlowId) -> (r: Action)
    ensures
        r == spec_decide(rules@, default, *f),
{
    match select_rule(rules, f) {
        None => default,
        Some(i) => {
            proof {
                let k = choose|k: int| is_selected(rules@, *f, k);
                lemma_selection_unique(rules@, *f, i as int, k);
            }
            rules[i].action
        },
    }
}

/// Rule selection is a function of the rules and the flow: whichever
/// rule is selected, its action is the decision, and that rule is the
/// most precedent of all matching rules, ties going to the earlier one.
pub proof fn lemma_selection_deterministic(rules: Seq<Rule>, default: Action, f: FlowId, i: int)
    requires
        is_selected(rules, f, i),
    ensures
        spec_decide(rules, default, f) == rules[i].action,
        forall|j: int| #[trigger] is_selected(rules, f, j) ==> j == i,
        forall|j: int|
            0 <= j < rules.len() && rule_matches(#[trigger] rules[j], f) ==> rules[i].priority
                < rules[j].priority || (rules[i].priority == rules[j].priority && i <= j),
{
    assert(any_matches(rules, f));
    let k = choose|k: int| is_selected(rules, f, k);
    lemma_selection_unique(rules, f, i, k);
    assert forall|j: int| #[trigger] is_selected(rules, f, j) implies j == i by {
        lemma_selection_unique(rules, f, i, j);
    }
}

} // verus!
