//! A bounded table from flow identity to a cached value, with
//! least-recently-used eviction.
use vstd::prelude::*;

use crate::net::{FlowId, Ipv4Addr};

verus! {

/// One cached flow: its value, how many packets hit it, and the table's
/// clock reading when it was last used.
#[derive(Clone, Copy, Debug)]
pub struct FlowEntry<T> {
    pub id: FlowId,
    pub value: T,
    pub hits: u64,
    pub last_used: u64,
}

/// A flow table holding at most `limit` entries, each flow at most once.
#[derive(Debug)]
pub struct FlowTable<T> {
    pub entries: Vec<FlowEntry<T>>,
    pub limit: usize,
    pub clock: u64,
}

impl<T: Copy> FlowTable<T> {
    pub open spec fn wf(&self) -> bool {
        &&& 0 < self.limit
        &&& self.entries@.len() <= self.limit
        &&& forall|i: int, j: int|
            0 <= i < self.entries@.len() && 0 <= j < self.entries@.len() && i != j
                ==> #[trigger] self.entries@[i].id != #[trigger] self.entries@[j].id
        &&& forall|i: int| 0 <= i < self.entries@.len() ==> #[trigger] self.entries@[i].last_used <= self.clock
    }

    /// The table holds an entry for `id`.
    pub open spec fn has(&self, id: FlowId) -> bool {
        exists|i: int| 0 <= i < self.entries@.len() && #[trigger] self.entries@[i].id == id
    }

    /// The table maps `id` to `v`.
    pub open spec fn maps(&self, id: FlowId, v: T) -> bool {
        exists|i: int|
            0 <= i < self.entries@.len() && #[trigger] self.entries@[i].id == id
                && self.entries@[i].value == v
    }

    pub fn new(limit: usize) -> (r: Self)
        requires
            limit > 0,
        ensures
            r.wf(),
            r.entries@.len() == 0,
            r.limit == limit,
    {
        FlowTable { entries: Vec::new(), limit, clock: 0 }
    }

    pub fn len(&self) -> (r: usize)
        ensures
            r == self.entries@.len(),
    {
        self.entries.len()
    }

    pub fn limit(&self) -> (r: usize)
        ensures
            r == self.limit,
    {
        self.limit
    }

    /// A copy of the entries, in the table's order.
    pub fn dump(&self) -> (r: Vec<FlowEntry<T>>)
        ensures
            r@ == self.entries@,
    {
        let mut r: Vec<FlowEntry<T>> = Vec::new();
        let mut i: usize = 0;
        while i < self.entries.len()
            invariant
                i <= self.entries@.len(),
                r@ == self.entries@.subrange(0, i as int),
            decreases self.entries@.len() - i,
        {
            r.push(self.entries[i]);
            assert(self.entries@.subrange(0, i + 1) == self.entries@.subrange(0, i as int).push(
                self.entries@[i as int],
            ));
            i += 1;
        }
        assert(self.entries@.subrange(0, self.entries@.len() as int) == self.entries@);
        r
    }

    /// The position of `id` in the table.
    pub fn find(&self, id: &FlowId) -> (r: Option<usize>)
        ensures
            r is None <==> !self.has(*id),
            r matches Some(i) ==> i < self.entries@.len() && self.entries@[i as int].id == *id,
    {
        let mut i: usize = 0;
        while i < self.entries.len()
            invariant
                i <= self.entries@.len(),
                forall|j: int| 0 <= j < i ==> #[trigger] self.entries@[j].id != *id,
            decreases self.entries@.len() - i,
        {
            if self.entries[i].id == *id {
                return Some(i);
            }
            i += 1;
        }
        None
    }

    /// The value cached for `id`.
    pub fn lookup(&self, id: &FlowId) -> (r: Option<T>)
        requires
            self.wf(),
        ensures
            r is None <==> !self.has(*id),
            r matches Some(v) ==> self.maps(*id, v),
    {
        match self.find(id) {
            None => None,
            Some(i) => Some(self.entries[i].value),
        }
    }

    /// Record a packet of `id`: one more hit, and now its last use.
    /// Returns whether the table holds `id`.
    pub fn touch(&mut self, id: &FlowId) -> (r: bool)
        requires
            old(self).wf(),
        ensures
            final(self).wf(),
            r == old(self).has(*id),
            final(self).limit == old(self).limit,
            r ==> exists|i: int|
                0 <= i < old(self).entries@.len() && #[trigger] old(self).entries@[i].id == *id
                    && final(self).entries@[i].last_used == final(self).clock
                    && final(self).entries@[i].hits == (if old(self).entries@[i].hits < u64::MAX {
                    (old(self).entries@[i].hits + 1) as u64
                } else {
                    old(self).entries@[i].hits
                }) && forall|j: int|
                    0 <= j < old(self).entries@.len() && j != i ==> #[trigger] final(self).entries@[j]
                        == old(self).entries@[j],
            !r ==> *final(self) == *old(self),
            forall|i: int|
                0 <= i < final(self).entries@.len() ==> old(self).maps(
                    (#[trigger] final(self).entries@[i]).id,
                    final(self).entries@[i].value,
                ),
            final(self).entries@.len() == old(self).entries@.len(),
            forall|i: int|
                0 <= i < final(self).entries@.len() ==> (#[trigger] final(self).entries@[i]).id
                    == old(self).entries@[i].id && final(self).entries@[i].value
                    == old(self).entries@[i].value,
    {
        match self.find(id) {
            None => false,
            Some(i) => {
                if self.clock < u64::MAX {
                    self.clock = self.clock + 1;
                }
                let mut e = self.entries[i];
                e.hits = if e.hits < u64::MAX {
                    e.hits + 1
                } else {
                    e.hits
                };
                e.last_used = self.clock;
                self.entries.set(i, e);
                true
            },
        }
    }

    /// The position of the least recently used entry.
    pub fn oldest(&self) -> (r: usize)
        requires
            self.entries@.len() > 0,
        ensures
            r < self.entries@.len(),
            forall|j: int|
                0 <= j < self.entries@.len() ==> self.entries@[r as int].last_used
                    <= #[trigger] self.entries@[j].last_used,
    {
        let mut best: usize = 0;
        let mut i: usize = 1;
        while i < self.entries.len()
            invariant
                1 <= i <= self.entries@.len(),
                best < i,
                forall|j: int|
                    0 <= j < i ==> self.entries@[best as int].last_used
                        <= #[trigger] self.entries@[j].last_used,
            decreases self.entries@.len() - i,
        {
            if self.entries[i].last_used < self.entries[best].last_used {
                best = i;
            }
            i += 1;
        }
        best
    }

    /// Remove the entry of `id`, returning its value.
    pub fn remove(&mut self, id: &FlowId) -> (r: Option<T>)
        requires
            old(self).wf(),
        ensures
            final(self).wf(),
            final(self).limit == old(self).limit,
            r is None <==> !old(self).has(*id),
            r is None ==> final(self).entries@ == old(self).entries@,
            r matches Some(v) ==> exists|i: int|
                0 <= i < old(self).entries@.len() && #[trigger] old(self).entries@[i].id == *id
                    && old(self).entries@[i].value == v && final(self).entries@
                    == old(self).entries@.remove(i),
            !final(self).has(*id),
            forall|i: int|
                0 <= i < final(self).entries@.len() ==> old(self).maps(
                    (#[trigger] final(self).entries@[i]).id,
                    final(self).entries@[i].value,
                ),
    {
        match self.find(id) {
            None => None,
            Some(i) => {
                let e = self.entries.remove(i);
                assert(self.entries@ == old(self).entries@.remove(i as int));
                assert forall|j: int| 0 <= j < self.entries@.len() implies #[trigger] self.entries@[j].id != *id by {
                    if j < i {
                        assert(self.entries@[j] == old(self).entries@[j]);
                    } else {
                        assert(self.entries@[j] == old(self).entries@[j + 1]);
                    }
                }
                assert forall|j: int| 0 <= j < self.entries@.len() implies old(self).maps(
                    (#[trigger] self.entries@[j]).id,
                    self.entries@[j].value,
                ) by {
                    let k = if j < i { j } else { j + 1 };
                    assert(self.entries@[j] == old(self).entries@[k]);
                }
                Some(e.value)
            },
        }
    }

    /// Remove every entry of a flow addressed to `ip`, port `port`; keep
    /// every other.
    pub fn remove_to(&mut self, ip: Ipv4Addr, port: u16)
        requires
            old(self).wf(),
        ensures
            final(self).wf(),
            final(self).limit == old(self).limit,
            forall|i: int|
                0 <= i < final(self).entries@.len() ==> old(self).maps(
                    (#[trigger] final(self).entries@[i]).id,
                    final(self).entries@[i].value,
                ) && !(final(self).entries@[i].id.dst_ip == ip && final(self).entries@[i].id.dst_port
                    == port),
            forall|k: int|
                0 <= k < old(self).entries@.len() && !((#[trigger] old(self).entries@[k]).id.dst_ip
                    == ip && old(self).entries@[k].id.dst_port == port) ==> final(self).maps(
                    old(self).entries@[k].id,
                    old(self).entries@[k].value,
                ),
    {
        let mut i: usize = 0;
        while i < self.entries.len()
            invariant
                self.wf(),
                self.limit == old(self).limit,
                i <= self.entries@.len(),
                forall|j: int|
                    0 <= j < i ==> !((#[trigger] self.entries@[j]).id.dst_ip == ip
                        && self.entries@[j].id.dst_port == port),
                forall|j: int|
                    0 <= j < self.entries@.len() ==> old(self).maps(
                        (#[trigger] self.entries@[j]).id,
                        self.entries@[j].value,
                    ),
                forall|k: int|
                    0 <= k < old(self).entries@.len() && !((#[trigger] old(self).entries@[k]).id.dst_ip
                        == ip && old(self).entries@[k].id.dst_port == port) ==> self.maps(
                        old(self).entries@[k].id,
                        old(self).entries@[k].value,
                    ),
            decreases self.entries@.len() - i,
        {
            let id = self.entries[i].id;
            if id.dst_ip == ip && id.dst_port == port {
                let ghost prev = *self;
                let ghost pi = i as int;
                self.entries.remove(i);
                proof {
                    let n = self.entries@;
                    let o = prev.entries@;
                    assert forall|j: int| 0 <= j < n.len() implies #[trigger] n[j] == o[if j < pi { j } else { j + 1 }] by {}
                    assert forall|a: int, b: int| 0 <= a < n.len() && 0 <= b < n.len() && a != b
                        implies #[trigger] n[a].id != #[trigger] n[b].id by {
                        assert(n[a] == o[if a < pi { a } else { a + 1 }]);
                        assert(n[b] == o[if b < pi { b } else { b + 1 }]);
                    }
                    assert forall|j: int| 0 <= j < n.len() implies #[trigger] n[j].last_used <= self.clock by {
                        assert(n[j] == o[if j < pi { j } else { j + 1 }]);
                    }
                    assert forall|j: int| 0 <= j < n.len() implies old(self).maps((#[trigger] n[j]).id, n[j].value) by {
                        assert(n[j] == o[if j < pi { j } else { j + 1 }]);
                    }
                    assert forall|k: int|
                        0 <= k < old(self).entries@.len() && !((#[trigger] old(self).entries@[k]).id.dst_ip
                            == ip && old(self).entries@[k].id.dst_port == port) implies self.maps(
                            old(self).entries@[k].id,
                            old(self).entries@[k].value,
                        ) by {
                        let e = old(self).entries@[k];
                        assert(prev.maps(e.id, e.value));
                        let m = choose|m: int| 0 <= m < o.len() && #[trigger] o[m].id == e.id && o[m].value == e.value;
                        assert(m != pi);
                        let t = if m < pi { m } else { m - 1 };
                        assert(n[t] == o[m]);
                    }
                }
            } else {
                i += 1;
            }
        }
    }

    /// Drop every entry.
    pub fn clear(&mut self)
        requires
            old(self).wf(),
        ensures
            final(self).wf(),
            final(self).limit == old(self).limit,
            final(self).entries@.len() == 0,
    {
        self.entries.clear();
    }

    /// Cache `v` for `id`. An entry already held for `id` is replaced;
    /// otherwise, in a full table, the least recently used entry is
    /// evicted first and its flow returned.
    pub fn insert(&mut self, id: FlowId, v: T) -> (r: Option<FlowId>)
        requires
            old(self).wf(),
        ensures
            final(self).wf(),
            final(self).limit == old(self).limit,
            final(self).maps(id, v),
            forall|i: int|
                0 <= i < final(self).entries@.len() ==> ((#[trigger] final(self).entries@[i]).id == id
                    && final(self).entries@[i].value == v) || old(self).maps(
                    final(self).entries@[i].id,
                    final(self).entries@[i].value,
                ),
            old(self).has(id) ==> r is None && final(self).entries@.len() == old(self).entries@.len()
                && forall|i: int|
                0 <= i < old(self).entries@.len() ==> (#[trigger] final(self).entries@[i]).id
                    == old(self).entries@[i].id && (old(self).entries@[i].id != id
                    ==> final(self).entries@[i].value == old(self).entries@[i].value),
            !old(self).has(id) && old(self).entries@.len() < old(self).limit ==> r is None
                && final(self).entries@ == old(self).entries@.push(final(self).entries@.last())
                && final(self).entries@.last().id == id,
            !old(self).has(id) && old(self).entries@.len() == old(self).limit ==> exists|k: int|
                0 <= k < old(self).entries@.len() && r == Some(
                    #[trigger] old(self).entries@[k].id,
                ) && (forall|j: int|
                    0 <= j < old(self).entries@.len() ==> old(self).entries@[k].last_used
                        <= #[trigger] old(self).entries@[j].last_used) && final(self).entries@
                    == old(self).entries@.remove(k).push(final(self).entries@.last())
                    && final(self).entries@.last().id == id,
    {
        if self.clock < u64::MAX {
            self.clock = self.clock + 1;
        }
        let now = self.clock;
        match self.find(&id) {
            Some(i) => {
                let mut e = self.entries[i];
                e.value = v;
                e.last_used = now;
                self.entries.set(i, e);
                assert(self.entries@[i as int].id == id);
                assert forall|j: int| 0 <= j < self.entries@.len() && j != i implies old(self).maps(
                    (#[trigger] self.entries@[j]).id,
                    self.entries@[j].value,
                ) by {
                    assert(self.entries@[j] == old(self).entries@[j]);
                }
                None
            },
            None => {
                let mut evicted: Option<FlowId> = None;
                if self.entries.len() == self.limit {
                    let k = self.oldest();
                    let e = self.entries.remove(k);
                    evicted = Some(e.id);
                    assert(self.entries@ == old(self).entries@.remove(k as int));
                }
                let ghost before = self.entries@;
                assert(forall|j: int| 0 <= j < before.len() ==> #[trigger] before[j].id != id) by {
                    assert forall|j: int| 0 <= j < before.len() implies #[trigger] before[j].id != id by {
                        if evicted is Some {
                            let k = choose|k: int| 0 <= k < old(self).entries@.len() && before == old(self).entries@.remove(k);
                            if j < k {
                                assert(before[j] == old(self).entries@[j]);
                            } else {
                                assert(before[j] == old(self).entries@[j + 1]);
                            }
                        } else {
                            assert(before[j] == old(self).entries@[j]);
                        }
                    }
                }
                assert(forall|j: int| 0 <= j < before.len() ==> old(self).maps(
                    (#[trigger] before[j]).id,
                    before[j].value,
                )) by {
                    assert forall|j: int| 0 <= j < before.len() implies old(self).maps(
                        (#[trigger] before[j]).id,
                        before[j].value,
                    ) by {
                        if evicted is Some {
                            let k = choose|k: int| 0 <= k < old(self).entries@.len() && before == old(self).entries@.remove(k);
                            let m = if j < k { j } else { j + 1 };
                            assert(before[j] == old(self).entries@[m]);
                        } else {
                            assert(before[j] == old(self).entries@[j]);
                        }
                    }
                }
                self.entries.push(FlowEntry { id, value: v, hits: 1, last_used: now });
                assert(self.entries@[before.len() as int].id == id);
                assert forall|j: int| 0 <= j < before.len() implies #[trigger] self.entries@[j] == before[j] by {}
                evicted
            },
        }
    }
}

} // verus!
