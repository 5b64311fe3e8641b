//! Registry of protocols: their metadata by identifier, in registration
//! order, and which of them have an instance and whether it runs.

use vstd::prelude::*;
use vstd::string::StringExecFns;
use crate::protocol::ProtocolInfo;
use crate::table::KeyedTable;

verus! {

/// Whether the entry at `a` goes before the one at `b`: higher priority
/// first, and among equal priorities the earlier registration first.
pub open spec fn goes_before(prios: Seq<u32>, a: int, b: int) -> bool {
    prios[a] > prios[b] || (prios[a] == prios[b] && a < b)
}

/// `order` lists every index of `prios` once, by descending priority,
/// equal priorities in their original order.
pub open spec fn is_priority_order(prios: Seq<u32>, order: Seq<usize>) -> bool {
    &&& order.len() == prios.len()
    &&& forall|i: int| 0 <= i < order.len() ==> #[trigger] order[i] < prios.len()
    &&& forall|i: int, j: int| 0 <= i < j < order.len() ==> goes_before(prios, order[i] as int, order[j] as int)
}

/// Indices of `prios` by descending priority, ties in index order.
pub fn priority_order(prios: &Vec<u32>) -> (r: Vec<usize>)
    ensures
        is_priority_order(prios@, r@),
{
    let mut out: Vec<usize> = Vec::new();
    let mut j: usize = 0;
    while j < prios.len()
        invariant
            j <= prios@.len(),
            out@.len() == j,
            forall|i: int| 0 <= i < out@.len() ==> #[trigger] out@[i] < j,
            forall|a: int, b: int| 0 <= a < b < out@.len() ==> goes_before(prios@, out@[a] as int, out@[b] as int),
        decreases prios.len() - j,
    {
        let p = prios[j];
        let mut k: usize = 0;
        while k < out.len() && prios[out[k]] >= p
            invariant
                k <= out@.len(),
                forall|i: int| 0 <= i < out@.len() ==> #[trigger] out@[i] < j,
                j < prios@.len(),
                p == prios@[j as int],
                forall|i: int| 0 <= i < k ==> prios@[#[trigger] out@[i] as int] >= p,
            decreases out.len() - k,
        {
            k = k + 1;
        }
        let ghost before = out@;
        proof {
            assert forall|i: int| k <= i < before.len() implies prios@[#[trigger] before[i] as int] < p by {
                assert(prios@[before[k as int] as int] < p);
                if i > k {
                    assert(goes_before(prios@, before[k as int] as int, before[i] as int));
                }
            }
        }
        out.insert(k, j);
        proof {
            assert forall|a: int, b: int| 0 <= a < b < out@.len() implies goes_before(prios@, out@[a] as int, out@[b] as int) by {
                if b < k {
                    assert(out@[a] == before[a] && out@[b] == before[b]);
                } else if b == k {
                    assert(out@[a] == before[a]);
                } else if a < k {
                    assert(out@[a] == before[a] && out@[b] == before[b - 1]);
                } else if a == k {
                    assert(out@[b] == before[b - 1]);
                } else {
                    assert(out@[a] == before[a - 1] && out@[b] == before[b - 1]);
                }
            }
            assert forall|i: int| 0 <= i < out@.len() implies #[trigger] out@[i] < j + 1 by {
                if i < k {
                    assert(out@[i] == before[i]);
                } else if i > k {
                    assert(out@[i] == before[i - 1]);
                }
            }
        }
        j = j + 1;
    }
    out
}

/// The priorities of a list of protocol descriptions.
pub open spec fn priorities(infos: Seq<(String, ProtocolInfo)>) -> Seq<u32> {
    infos.map_values(|e: (String, ProtocolInfo)| e.1.priority)
}

/// Registered protocols and their instances.
pub struct ProtocolRegistry {
    /// Metadata of each registered protocol, by identifier.
    pub factories: KeyedTable<ProtocolInfo>,
    /// Protocols with an instance, and whether that instance runs.
    pub instances: KeyedTable<bool>,
}

impl ProtocolRegistry {
    pub open spec fn wf(&self) -> bool {
        &&& self.factories.wf()
        &&& self.instances.wf()
        &&& forall|k: Seq<char>| #[trigger] self.factories@.contains_key(k) ==> self.factories@[k].id.0@ == k
    }

    pub fn new() -> (r: ProtocolRegistry)
        ensures
            r.wf(),
            r.factories@ == Map::<Seq<char>, ProtocolInfo>::empty(),
            r.instances@ == Map::<Seq<char>, bool>::empty(),
    {
        ProtocolRegistry { factories: KeyedTable::new(), instances: KeyedTable::new() }
    }

    /// Registers a protocol; one not supported on this platform is refused.
    pub fn register(&mut self, info: ProtocolInfo) -> (r: bool)
        requires
            old(self).wf(),
        ensures
            final(self).wf(),
            r == info.supported,
            final(self).instances@ == old(self).instances@,
            info.supported ==> final(self).factories@ == old(self).factories@.insert(info.id.0@, info),
            !info.supported ==> final(self).factories@ == old(self).factories@,
    {
        if !info.supported {
            return false;
        }
        let id = info.id.0.clone();
        self.factories.insert(id, info);
        true
    }

    /// Removes a protocol and its instance; whether it was registered.
    pub fn unregister(&mut self, id: &str) -> (r: bool)
        requires
            old(self).wf(),
        ensures
            final(self).wf(),
            r == old(self).factories@.contains_key(id@),
            final(self).factories@ == old(self).factories@.remove(id@),
            r ==> final(self).instances@ == old(self).instances@.remove(id@),
            !r ==> final(self).instances@ == old(self).instances@,
    {
        let removed = self.factories.remove(id).is_some();
        if removed {
            let _ = self.instances.remove(id);
        }
        removed
    }

    pub fn contains(&self, id: &str) -> (r: bool)
        requires
            self.wf(),
        ensures
            r == self.factories@.contains_key(id@),
    {
        self.factories.contains_key(id)
    }

    /// Metadata of every registered protocol, in registration order.
    pub fn list(&self) -> (r: Vec<ProtocolInfo>)
        requires
            self.wf(),
        ensures
            r@.len() == self.factories.entries@.len(),
            forall|i: int| 0 <= i < r@.len() ==> #[trigger] r@[i].id.0@ == self.factories.entries@[i].1.id.0@
                && r@[i].priority == self.factories.entries@[i].1.priority
                && r@[i].name@ == self.factories.entries@[i].1.name@,
    {
        let mut out: Vec<ProtocolInfo> = Vec::new();
        let mut i: usize = 0;
        while i < self.factories.entries.len()
            invariant
                i <= self.factories.entries@.len(),
                out@.len() == i,
                forall|k: int| 0 <= k < i ==> #[trigger] out@[k].id.0@ == self.factories.entries@[k].1.id.0@
                    && out@[k].priority == self.factories.entries@[k].1.priority
                    && out@[k].name@ == self.factories.entries@[k].1.name@,
            decreases self.factories.entries.len() - i,
        {
            out.push(self.factories.entries[i].1.duplicate());
            i = i + 1;
        }
        out
    }

    /// Metadata of every registered protocol by descending priority, equal
    /// priorities in registration order.
    pub fn sorted_by_priority(&self) -> (r: Vec<ProtocolInfo>)
        requires
            self.wf(),
        ensures
            exists|order: Seq<usize>| {
                &&& is_priority_order(priorities(self.factories.entries@), order)
                &&& r@.len() == order.len()
                &&& forall|i: int| 0 <= i < r@.len() ==> #[trigger] r@[i].id.0@ == self.factories.entries@[order[i] as int].1.id.0@
                    && r@[i].priority == self.factories.entries@[order[i] as int].1.priority
            },
            forall|i: int| 0 <= i < r@.len() ==> self.factories@.contains_key(#[trigger] r@[i].id.0@),
    {
        let mut prios: Vec<u32> = Vec::new();
        let mut i: usize = 0;
        while i < self.factories.entries.len()
            invariant
                i <= self.factories.entries@.len(),
                prios@ == priorities(self.factories.entries@).take(i as int),
            decreases self.factories.entries.len() - i,
        {
            prios.push(self.factories.entries[i].1.priority);
            proof {
                assert(prios@ =~= priorities(self.factories.entries@).take(i + 1));
            }
            i = i + 1;
        }
        assert(prios@ =~= priorities(self.factories.entries@));
        let order = priority_order(&prios);
        let mut out: Vec<ProtocolInfo> = Vec::new();
        let mut k: usize = 0;
        while k < order.len()
            invariant
                self.wf(),
                is_priority_order(prios@, order@),
                prios@ == priorities(self.factories.entries@),
                k <= order@.len(),
                out@.len() == k,
                forall|i: int| 0 <= i < k ==> #[trigger] out@[i].id.0@ == self.factories.entries@[order@[i] as int].1.id.0@
                    && out@[i].priority == self.factories.entries@[order@[i] as int].1.priority,
                forall|i: int| 0 <= i < k ==> self.factories@.contains_key(#[trigger] out@[i].id.0@),
            decreases order.len() - k,
        {
            let idx = order[k];
            proof {
                crate::table::lemma_entries_map_lookup(self.factories.entries@, idx as int);
            }
            out.push(self.factories.entries[idx].1.duplicate());
            k = k + 1;
        }
        proof {
            let o = order@;
            assert(is_priority_order(priorities(self.factories.entries@), o));
            assert(forall|i: int| 0 <= i < out@.len() ==> #[trigger] out@[i].id.0@ == self.factories.entries@[o[i] as int].1.id.0@
                && out@[i].priority == self.factories.entries@[o[i] as int].1.priority);
        }
        out
    }

    /// The instance of a protocol, made on first use: whether one exists
    /// afterwards and whether this call made it.
    pub fn get_or_create(&mut self, id: &str) -> (r: Option<bool>)
        requires
            old(self).wf(),
        ensures
            final(self).wf(),
            final(self).factories == old(self).factories,
            old(self).instances@.contains_key(id@) ==> r == Some(false) && final(self).instances@ == old(self).instances@,
            !old(self).instances@.contains_key(id@) && old(self).factories@.contains_key(id@) ==>
                r == Some(true) && final(self).instances@ == old(self).instances@.insert(id@, false),
            !old(self).instances@.contains_key(id@) && !old(self).factories@.contains_key(id@) ==>
                r is None && final(self).instances@ == old(self).instances@,
    {
        if self.instances.contains_key(id) {
            return Some(false);
        }
        if !self.factories.contains_key(id) {
            return None;
        }
        self.instances.insert(String::from_str(id), false);
        Some(true)
    }

    /// Whether the protocol has an instance.
    pub fn get(&self, id: &str) -> (r: bool)
        requires
            self.wf(),
        ensures
            r == self.instances@.contains_key(id@),
    {
        self.instances.contains_key(id)
    }

    /// Whether the protocol has an instance that runs.
    pub fn is_running(&self, id: &str) -> (r: bool)
        requires
            self.wf(),
        ensures
            r == (self.instances@.contains_key(id@) && self.instances@[id@]),
    {
        match self.instances.get(id) {
            Some(b) => *b,
            None => false,
        }
    }

    /// Records whether the instance of a protocol runs.
    pub fn set_running(&mut self, id: &str, running: bool)
        requires
            old(self).wf(),
        ensures
            final(self).wf(),
            final(self).factories@ == old(self).factories@,
            old(self).instances@.contains_key(id@) ==> final(self).instances@ == old(self).instances@.insert(id@, running),
            !old(self).instances@.contains_key(id@) ==> final(self).instances@ == old(self).instances@,
    {
        if self.instances.contains_key(id) {
            self.instances.insert(String::from_str(id), running);
        }
    }
}

} // verus!
