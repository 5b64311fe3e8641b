//! The engine's decisions: lifecycle, device aggregation across protocols,
//! and routing of transfers to the protocol that owns the target.

use vstd::prelude::*;
use vstd::string::StringExecFns;
use crate::device::{Device, DeviceId, id_key};
use crate::error::Error;
use crate::event::{Event, EventKind};
use crate::protocol::{ProtocolConfig, ProtocolId, ProtocolInfo};
use crate::registry::{ProtocolRegistry, is_priority_order, priorities};
use crate::text::push_str;

verus! {

/// Configuration of the engine.
#[derive(Debug, Clone)]
pub struct EngineConfig {
    pub device_name: String,
    pub save_dir: String,
    pub encryption: bool,
    pub pin: Option<String>,
}

impl EngineConfig {
    /// The configuration handed to each protocol: the same values, with
    /// the port left to the protocol's default.
    pub fn to_protocol_config(self) -> (r: ProtocolConfig)
        ensures
            r.device_name == self.device_name,
            r.port == 0,
            r.save_dir == self.save_dir,
            r.encryption == self.encryption,
            r.pin == self.pin,
    {
        ProtocolConfig {
            device_name: self.device_name,
            port: 0,
            save_dir: self.save_dir,
            encryption: self.encryption,
            pin: self.pin,
        }
    }
}

/// State of the engine as the laws speak of it: whether it runs, which
/// protocol instances run, and the cached devices.
pub struct EngineView {
    pub running: bool,
    pub instances: Map<Seq<char>, bool>,
    pub cached: Seq<Device>,
}

/// The state after `start`: a running engine is left as it is.
pub open spec fn view_after_start(v: EngineView) -> EngineView {
    if v.running { v } else { EngineView { running: true, ..v } }
}

/// The state after `stop`: a stopped engine is left as it is; otherwise no
/// instance runs and the cache is empty.
pub open spec fn view_after_stop(v: EngineView) -> EngineView {
    if !v.running {
        v
    } else {
        EngineView {
            running: false,
            instances: v.instances.map_values(|b: bool| false),
            cached: Seq::empty(),
        }
    }
}

/// Starting twice is starting once, and stopping twice is stopping once.
pub proof fn lemma_start_stop_idempotent(v: EngineView)
    ensures
        view_after_start(view_after_start(v)) == view_after_start(v),
        view_after_stop(view_after_stop(v)) == view_after_stop(v),
{
}

/// Whether a device may be shown: its protocol has an instance that runs.
pub open spec fn on_running(instances: Map<Seq<char>, bool>, d: Device) -> bool {
    instances.contains_key(d.peer.id.protocol.0@) && instances[d.peer.id.protocol.0@]
}

/// No device identifier occurs twice.
pub open spec fn ids_distinct(s: Seq<Device>) -> bool {
    forall|i: int, j: int| 0 <= i < j < s.len() ==> id_key(&(#[trigger] s[i]).peer.id) != id_key(&(#[trigger] s[j]).peer.id)
}

/// Whether a device with this identifier is in the list.
pub open spec fn has_id(s: Seq<Device>, k: (Seq<char>, Seq<char>)) -> bool {
    exists|i: int| 0 <= i < s.len() && id_key(&(#[trigger] s[i]).peer.id) == k
}

/// Whether device `b` of report `a` may be shown: it belongs to the
/// protocol that reported it, and that protocol runs.
pub open spec fn admissible(reports: Seq<DeviceReport>, instances: Map<Seq<char>, bool>, a: int, b: int) -> bool {
    &&& 0 <= a < reports.len()
    &&& 0 <= b < reports[a].devices@.len()
    &&& reports[a].devices@[b].peer.id.protocol.0@ == reports[a].protocol.0@
    &&& on_running(instances, reports[a].devices@[b])
}

/// Whether position `(a, b)` of the reports comes before `(c, d)`.
pub open spec fn earlier(a: int, b: int, c: int, d: int) -> bool {
    a < c || (a == c && b < d)
}

/// `dev` is device `b` of report `a`, admissible, and no admissible device
/// with its identifier is reported after it and before position `(i, j)`.
pub open spec fn last_report_of(reports: Seq<DeviceReport>, instances: Map<Seq<char>, bool>, dev: Device,
    a: int, b: int, i: int, j: int) -> bool {
    &&& earlier(a, b, i, j)
    &&& admissible(reports, instances, a, b)
    &&& dev == reports[a].devices@[b]
    &&& forall|c: int, e: int| #[trigger] admissible(reports, instances, c, e) && earlier(a, b, c, e) && earlier(c, e, i, j)
        ==> id_key(&reports[c].devices@[e].peer.id) != id_key(&dev.peer.id)
}

/// Every device of `s` is the last admissible report of its identifier
/// before position `(i, j)`.
pub open spec fn sourced(reports: Seq<DeviceReport>, instances: Map<Seq<char>, bool>, s: Seq<Device>, i: int, j: int) -> bool {
    forall|k: int| 0 <= k < s.len() ==> #[trigger] has_source(reports, instances, s[k], i, j)
}

/// `dev` is the last admissible report of its identifier before `(i, j)`.
pub open spec fn has_source(reports: Seq<DeviceReport>, instances: Map<Seq<char>, bool>, dev: Device, i: int, j: int) -> bool {
    exists|a: int, b: int| #[trigger] last_report_of(reports, instances, dev, a, b, i, j)
}

proof fn lemma_sourced_skip(reports: Seq<DeviceReport>, instances: Map<Seq<char>, bool>, s: Seq<Device>, i: int, j: int)
    requires
        sourced(reports, instances, s, i, j),
        !admissible(reports, instances, i, j),
    ensures
        sourced(reports, instances, s, i, j + 1),
{
    assert forall|k: int| 0 <= k < s.len() implies #[trigger] has_source(reports, instances, s[k], i, j + 1) by {
        assert(has_source(reports, instances, s[k], i, j));
        let (a, b) = choose|a: int, b: int| #[trigger] last_report_of(reports, instances, s[k], a, b, i, j);
        assert(last_report_of(reports, instances, s[k], a, b, i, j + 1));
    }
}

proof fn lemma_sourced_next_report(reports: Seq<DeviceReport>, instances: Map<Seq<char>, bool>, s: Seq<Device>, i: int)
    requires
        0 <= i < reports.len(),
        sourced(reports, instances, s, i, reports[i].devices@.len() as int),
    ensures
        sourced(reports, instances, s, i + 1, 0),
{
    assert forall|k: int| 0 <= k < s.len() implies #[trigger] has_source(reports, instances, s[k], i + 1, 0) by {
        assert(has_source(reports, instances, s[k], i, reports[i].devices@.len() as int));
        let (a, b) = choose|a: int, b: int| #[trigger] last_report_of(reports, instances, s[k], a, b, i, reports[i].devices@.len() as int);
        assert(last_report_of(reports, instances, s[k], a, b, i + 1, 0));
    }
}

proof fn lemma_sourced_upsert(reports: Seq<DeviceReport>, instances: Map<Seq<char>, bool>, before: Seq<Device>,
    after: Seq<Device>, d: Device, i: int, j: int)
    requires
        sourced(reports, instances, before, i, j),
        admissible(reports, instances, i, j),
        d == reports[i].devices@[j],
        ids_distinct(after),
        after.contains(d),
        forall|k: int| 0 <= k < after.len() ==> (#[trigger] after[k] == d || before.contains(after[k])),
    ensures
        sourced(reports, instances, after, i, j + 1),
{
    assert forall|k: int| 0 <= k < after.len() implies #[trigger] has_source(reports, instances, after[k], i, j + 1) by {
        if after[k] == d {
            assert(last_report_of(reports, instances, after[k], i, j, i, j + 1));
        } else {
            let m = choose|m: int| 0 <= m < before.len() && before[m] == after[k];
            assert(before[m] == after[k]);
            assert(has_source(reports, instances, before[m], i, j));
            let (a, b) = choose|a: int, b: int| #[trigger] last_report_of(reports, instances, before[m], a, b, i, j);
            let w = choose|w: int| 0 <= w < after.len() && after[w] == d;
            assert(k != w);
            assert(id_key(&after[k].peer.id) != id_key(&after[w].peer.id));
            assert(last_report_of(reports, instances, after[k], a, b, i, j + 1));
        }
    }
}

/// One protocol's answer to a device query.
pub struct DeviceReport {
    pub protocol: ProtocolId,
    pub devices: Vec<Device>,
}

/// Sets `d` in a list of distinct identifiers: replaces the device with
/// the same identifier, or appends it.
fn upsert(list: &mut Vec<Device>, d: Device)
    requires
        ids_distinct(old(list)@),
    ensures
        ids_distinct(final(list)@),
        has_id(final(list)@, id_key(&d.peer.id)),
        final(list)@.contains(d),
        forall|k| #[trigger] has_id(final(list)@, k) <==> (has_id(old(list)@, k) || k == id_key(&d.peer.id)),
        forall|i: int| 0 <= i < final(list)@.len() ==> (#[trigger] final(list)@[i] == d || old(list)@.contains(final(list)@[i])),
{
    let mut i: usize = 0;
    while i < list.len()
        invariant
            list@ == old(list)@,
            ids_distinct(old(list)@),
            i <= list@.len(),
            forall|j: int| 0 <= j < i ==> id_key(&(#[trigger] list@[j]).peer.id) != id_key(&d.peer.id),
        decreases list.len() - i,
    {
        if list[i].peer.id.same_as(&d.peer.id) {
            let ghost before = list@;
            list.set(i, d);
            proof {
                assert(list@[i as int] == d);
                assert(list@.contains(d));
                assert(ids_distinct(before));
                assert forall|a: int, b: int| 0 <= a < b < list@.len() implies
                    id_key(&(#[trigger] list@[a]).peer.id) != id_key(&(#[trigger] list@[b]).peer.id) by {
                    let x = before[a];
                    let y = before[b];
                    assert(id_key(&x.peer.id) != id_key(&y.peer.id));
                    if a == i {
                        assert(id_key(&list@[a].peer.id) == id_key(&x.peer.id));
                    } else {
                        assert(list@[a] == x);
                    }
                    if b == i {
                        assert(id_key(&list@[b].peer.id) == id_key(&y.peer.id));
                    } else {
                        assert(list@[b] == y);
                    }
                }
                assert forall|k| #[trigger] has_id(list@, k) <==> (has_id(before, k) || k == id_key(&d.peer.id)) by {
                    if has_id(before, k) {
                        let j = choose|j: int| 0 <= j < before.len() && id_key(&(#[trigger] before[j]).peer.id) == k;
                        assert(id_key(&list@[j].peer.id) == k);
                    }
                    if has_id(list@, k) {
                        let j = choose|j: int| 0 <= j < list@.len() && id_key(&(#[trigger] list@[j]).peer.id) == k;
                        if j != i {
                            assert(before[j] == list@[j]);
                        }
                    }
                    if k == id_key(&d.peer.id) {
                        assert(id_key(&list@[i as int].peer.id) == k);
                    }
                }
                assert forall|j: int| 0 <= j < list@.len() implies (#[trigger] list@[j] == d || before.contains(list@[j])) by {
                    if j != i {
                        assert(before[j] == list@[j]);
                    }
                }
            }
            return;
        }
        i = i + 1;
    }
    let ghost before = list@;
    list.push(d);
    proof {
        assert(list@[before.len() as int] == d);
        assert(list@.contains(d));
        assert forall|a: int, b: int| 0 <= a < b < list@.len() implies
            id_key(&(#[trigger] list@[a]).peer.id) != id_key(&(#[trigger] list@[b]).peer.id) by {
            if b == before.len() {
                assert(list@[a] == before[a]);
            } else {
                assert(list@[a] == before[a] && list@[b] == before[b]);
            }
        }
        assert forall|k| #[trigger] has_id(list@, k) <==> (has_id(before, k) || k == id_key(&d.peer.id)) by {
            if has_id(before, k) {
                let j = choose|j: int| 0 <= j < before.len() && id_key(&(#[trigger] before[j]).peer.id) == k;
                assert(list@[j] == before[j]);
            }
            if has_id(list@, k) {
                let j = choose|j: int| 0 <= j < list@.len() && id_key(&(#[trigger] list@[j]).peer.id) == k;
                if j < before.len() {
                    assert(before[j] == list@[j]);
                }
            }
            if k == id_key(&d.peer.id) {
                assert(id_key(&list@[before.len() as int].peer.id) == k);
            }
        }
        assert forall|j: int| 0 <= j < list@.len() implies (#[trigger] list@[j] == d || before.contains(list@[j])) by {
            if j < before.len() {
                assert(before[j] == list@[j]);
            }
        }
    }
}

/// Drops the device with identifier `k` from a list of distinct identifiers.
fn remove_id(list: &mut Vec<Device>, k: &DeviceId)
    requires
        ids_distinct(old(list)@),
    ensures
        ids_distinct(final(list)@),
        !has_id(final(list)@, id_key(k)),
        forall|x| x != id_key(k) ==> (#[trigger] has_id(final(list)@, x) <==> has_id(old(list)@, x)),
        forall|i: int| 0 <= i < final(list)@.len() ==> old(list)@.contains(#[trigger] final(list)@[i]),
{
    let mut i: usize = 0;
    while i < list.len()
        invariant
            list@ == old(list)@,
            ids_distinct(old(list)@),
            i <= list@.len(),
            forall|j: int| 0 <= j < i ==> id_key(&(#[trigger] list@[j]).peer.id) != id_key(k),
        decreases list.len() - i,
    {
        if list[i].peer.id.same_as(k) {
            let ghost before = list@;
            let _gone = list.remove(i);
            proof {
                assert(ids_distinct(before));
                assert forall|a: int, b: int| 0 <= a < b < list@.len() implies
                    id_key(&(#[trigger] list@[a]).peer.id) != id_key(&(#[trigger] list@[b]).peer.id) by {
                    let a2 = if a < i { a } else { a + 1 };
                    let b2 = if b < i { b } else { b + 1 };
                    assert(list@[a] == before[a2] && list@[b] == before[b2]);
                }
                assert forall|x| #[trigger] has_id(list@, x) implies has_id(before, x) && x != id_key(k) by {
                    {
                        let j = choose|j: int| 0 <= j < list@.len() && id_key(&(#[trigger] list@[j]).peer.id) == x;
                        let j2 = if j < i { j } else { j + 1 };
                        assert(list@[j] == before[j2]);
                        assert(j2 != i);
                    }
                }
                assert forall|x| x != id_key(k) && has_id(before, x) implies #[trigger] has_id(list@, x) by {
                    let j = choose|j: int| 0 <= j < before.len() && id_key(&(#[trigger] before[j]).peer.id) == x;
                    if j < i {
                        assert(list@[j] == before[j]);
                    } else {
                        assert(j != i);
                        assert(list@[j - 1] == before[j]);
                    }
                }
                assert forall|j: int| 0 <= j < list@.len() implies before.contains(#[trigger] list@[j]) by {
                    let j2 = if j < i { j } else { j + 1 };
                    assert(list@[j] == before[j2]);
                }
            }
            return;
        }
        i = i + 1;
    }
    proof {
        assert forall|j: int| 0 <= j < list@.len() implies old(list)@.contains(#[trigger] list@[j]) by {
            assert(list@[j] == old(list)@[j]);
        }
    }
}

/// The engine: registry, lifecycle flag and device cache.
pub struct EngineCore {
    pub registry: ProtocolRegistry,
    pub running: bool,
    pub cache: Vec<Device>,
}

impl EngineCore {
    pub open spec fn view(&self) -> EngineView {
        EngineView { running: self.running, instances: self.registry.instances@, cached: self.cache@ }
    }

    /// The registry is well formed and every cached device belongs to a
    /// running protocol instance.
    pub open spec fn wf(&self) -> bool {
        &&& self.registry.wf()
        &&& ids_distinct(self.cache@)
        &&& forall|i: int| 0 <= i < self.cache@.len() ==> on_running(self.registry.instances@, #[trigger] self.cache@[i])
    }

    pub fn new() -> (r: EngineCore)
        ensures
            r.wf(),
            !r.running,
            r.cache@.len() == 0,
            r.registry.factories@ == Map::<Seq<char>, ProtocolInfo>::empty(),
            r.registry.instances@ == Map::<Seq<char>, bool>::empty(),
    {
        EngineCore { registry: ProtocolRegistry::new(), running: false, cache: Vec::new() }
    }

    /// The protocols to start, by descending priority, each with an
    /// instance afterwards; nothing when the engine already runs.
    pub fn start_plan(&mut self) -> (r: Vec<ProtocolInfo>)
        requires
            old(self).wf(),
        ensures
            final(self).wf(),
            final(self).running == old(self).running,
            old(self).running ==> r@.len() == 0 && final(self).view() == old(self).view(),
            !old(self).running ==> exists|order: Seq<usize>| {
                &&& is_priority_order(priorities(old(self).registry.factories.entries@), order)
                &&& r@.len() == order.len()
                &&& forall|i: int| 0 <= i < r@.len() ==> #[trigger] r@[i].id.0@
                    == old(self).registry.factories.entries@[order[i] as int].1.id.0@
            },
            !old(self).running ==> forall|k: Seq<char>| #[trigger] old(self).registry.factories@.contains_key(k)
                ==> final(self).registry.instances@.contains_key(k),
            !old(self).running ==> forall|i: int| 0 <= i < r@.len() ==>
                final(self).registry.instances@.contains_key(#[trigger] r@[i].id.0@),
            final(self).registry.factories == old(self).registry.factories,
            forall|k| #[trigger] old(self).registry.instances@.contains_key(k) ==>
                final(self).registry.instances@.contains_key(k) && final(self).registry.instances@[k] == old(self).registry.instances@[k],
    {
        if self.running {
            return Vec::new();
        }
        let plan = self.registry.sorted_by_priority();
        let mut i: usize = 0;
        while i < self.registry.factories.entries.len()
            invariant
                self.registry.wf(),
                ids_distinct(self.cache@),
                self.cache@ == old(self).cache@,
                self.running == old(self).running,
                i <= self.registry.factories.entries@.len(),
                self.registry.factories == old(self).registry.factories,
                forall|k| #[trigger] old(self).registry.instances@.contains_key(k) ==>
                    self.registry.instances@.contains_key(k) && self.registry.instances@[k] == old(self).registry.instances@[k],
                forall|j: int| 0 <= j < i ==>
                    self.registry.instances@.contains_key(#[trigger] self.registry.factories.entries@[j].0@),
            decreases self.registry.factories.entries.len() - i,
        {
            proof {
                crate::table::lemma_entries_map_dom(self.registry.factories.entries@, self.registry.factories.entries@[i as int].0@);
            }
            let key = self.registry.factories.entries[i].0.clone();
            let _ = self.registry.get_or_create(key.as_str());
            i = i + 1;
        }
        proof {
            assert forall|k: Seq<char>| #[trigger] old(self).registry.factories@.contains_key(k)
                implies self.registry.instances@.contains_key(k) by {
                crate::table::lemma_entries_map_dom(self.registry.factories.entries@, k);
                let j = choose|j: int| 0 <= j < self.registry.factories.entries@.len() && self.registry.factories.entries@[j].0@ == k;
                assert(self.registry.instances@.contains_key(self.registry.factories.entries@[j].0@));
            }
            assert forall|j: int| 0 <= j < self.cache@.len() implies on_running(self.registry.instances@, #[trigger] self.cache@[j]) by {
                assert(on_running(old(self).registry.instances@, old(self).cache@[j]));
            }
        }
        plan
    }

    /// Records the outcome of starting one protocol.
    pub fn protocol_started(&mut self, id: &str, ok: bool)
        requires
            old(self).wf(),
        ensures
            final(self).wf(),
            final(self).running == old(self).running,
            final(self).registry.factories@ == old(self).registry.factories@,
            ok && old(self).registry.instances@.contains_key(id@) ==>
                final(self).registry.instances@ == old(self).registry.instances@.insert(id@, true),
            !(ok && old(self).registry.instances@.contains_key(id@)) ==>
                final(self).registry.instances@ == old(self).registry.instances@,
    {
        if ok {
            self.registry.set_running(id, true);
            proof {
                assert forall|j: int| 0 <= j < self.cache@.len() implies on_running(self.registry.instances@, #[trigger] self.cache@[j]) by {
                    assert(on_running(old(self).registry.instances@, old(self).cache@[j]));
                }
            }
        }
    }

    /// Marks the engine started; a running engine is left as it is.
    pub fn mark_started(&mut self) -> (r: Option<Event>)
        requires
            old(self).wf(),
        ensures
            final(self).wf(),
            final(self).view() == view_after_start(old(self).view()),
            final(self).registry.factories@ == old(self).registry.factories@,
            old(self).running ==> r is None,
            !old(self).running ==> (r matches Some(e) && (e.kind matches EventKind::ProtocolStarted { protocol } && protocol@ == "engine"@)),
    {
        if self.running {
            return None;
        }
        self.running = true;
        Some(Event::engine_started())
    }

    /// The protocols to stop: every instance; nothing when the engine does
    /// not run.
    pub fn stop_plan(&self) -> (r: Vec<String>)
        requires
            self.wf(),
        ensures
            !self.running ==> r@.len() == 0,
            self.running ==> r@.len() == self.registry.instances.entries@.len(),
            self.running ==> forall|i: int| 0 <= i < r@.len() ==> #[trigger] r@[i]@ == self.registry.instances.entries@[i].0@,
    {
        let mut out: Vec<String> = Vec::new();
        if !self.running {
            return out;
        }
        let mut i: usize = 0;
        while i < self.registry.instances.entries.len()
            invariant
                i <= self.registry.instances.entries@.len(),
                out@.len() == i,
                forall|k: int| 0 <= k < i ==> #[trigger] out@[k]@ == self.registry.instances.entries@[k].0@,
            decreases self.registry.instances.entries.len() - i,
        {
            out.push(self.registry.instances.entries[i].0.clone());
            i = i + 1;
        }
        out
    }

    /// Marks the engine stopped: no instance runs and the cache is empty;
    /// a stopped engine is left as it is.
    pub fn mark_stopped(&mut self) -> (r: Option<Event>)
        requires
            old(self).wf(),
        ensures
            final(self).wf(),
            final(self).view() == view_after_stop(old(self).view()),
            final(self).registry.factories@ == old(self).registry.factories@,
            !old(self).running ==> r is None,
            old(self).running ==> (r matches Some(e) && (e.kind matches EventKind::ProtocolStopped { protocol } && protocol@ == "engine"@)),
    {
        if !self.running {
            return None;
        }
        let ghost before = self.registry.instances@;
        let mut i: usize = 0;
        while i < self.registry.instances.entries.len()
            invariant
                self.registry.wf(),
                self.registry.factories@ == old(self).registry.factories@,
                i <= self.registry.instances.entries@.len(),
                self.registry.instances.entries@.len() == old(self).registry.instances.entries@.len(),
                forall|j: int| 0 <= j < self.registry.instances.entries@.len() ==>
                    #[trigger] self.registry.instances.entries@[j].0@ == old(self).registry.instances.entries@[j].0@,
                forall|j: int| 0 <= j < i ==> !(#[trigger] self.registry.instances.entries@[j]).1,
            decreases self.registry.instances.entries.len() - i,
        {
            let key = self.registry.instances.entries[i].0.clone();
            let ghost prev = self.registry.instances.entries@;
            self.registry.instances.entries.set(i, (key, false));
            proof {
                assert forall|a: int, b: int| 0 <= a < b < self.registry.instances.entries@.len() implies
                    self.registry.instances.entries@[a].0@ != self.registry.instances.entries@[b].0@ by {
                    assert(prev[a].0@ != prev[b].0@);
                }
                assert forall|k: Seq<char>| #[trigger] self.registry.factories@.contains_key(k) implies self.registry.factories@[k].id.0@ == k by {
                    assert(old(self).registry.factories@.contains_key(k));
                }
            }
            i = i + 1;
        }
        proof {
            lemma_all_false(old(self).registry.instances.entries@, self.registry.instances.entries@);
        }
        self.running = false;
        self.cache = Vec::new();
        assert(self.view().instances =~= before.map_values(|b: bool| false));
        assert(self.view().cached =~= Seq::<Device>::empty());
        Some(Event::engine_stopped())
    }

    /// The devices of every running protocol, each identifier once (the
    /// later report wins), and only those that belong to the protocol that
    /// reported them. The cache takes them in.
    ///
    /// Every returned device is the last admissible report of its
    /// identifier, and every admissible reported identifier is returned.
    pub fn collect_devices(&mut self, reports: Vec<DeviceReport>) -> (r: Vec<Device>)
        requires
            old(self).wf(),
        ensures
            final(self).wf(),
            final(self).running == old(self).running,
            final(self).registry == old(self).registry,
            ids_distinct(r@),
            forall|i: int| 0 <= i < r@.len() ==> on_running(final(self).registry.instances@, #[trigger] r@[i]),
            forall|i: int, j: int| 0 <= i < reports@.len() && 0 <= j < reports@[i].devices@.len()
                && #[trigger] reports@[i].devices@[j].peer.id.protocol.0@ == reports@[i].protocol.0@
                && on_running(old(self).registry.instances@, reports@[i].devices@[j])
                ==> has_id(r@, id_key(&reports@[i].devices@[j].peer.id)),
            sourced(reports@, old(self).registry.instances@, r@, reports@.len() as int, 0),
            forall|k: int| 0 <= k < r@.len() ==> has_id(final(self).cache@, id_key(&(#[trigger] r@[k]).peer.id)),
    {
        let mut out: Vec<Device> = Vec::new();
        let mut i: usize = 0;
        while i < reports.len()
            invariant
                self.registry.wf(),
                self.registry == old(self).registry,
                self.running == old(self).running,
                self.cache == old(self).cache,
                i <= reports@.len(),
                ids_distinct(out@),
                forall|k: int| 0 <= k < out@.len() ==> on_running(self.registry.instances@, #[trigger] out@[k]),
                forall|a: int, j: int| 0 <= a < i && 0 <= j < reports@[a].devices@.len()
                    && #[trigger] reports@[a].devices@[j].peer.id.protocol.0@ == reports@[a].protocol.0@
                    && on_running(old(self).registry.instances@, reports@[a].devices@[j])
                    ==> has_id(out@, id_key(&reports@[a].devices@[j].peer.id)),
                sourced(reports@, old(self).registry.instances@, out@, i as int, 0),
            decreases reports.len() - i,
        {
            let rep = &reports[i];
            let mut j: usize = 0;
            while j < rep.devices.len()
                invariant
                    self.registry.wf(),
                    self.registry == old(self).registry,
                    i < reports@.len(),
                    *rep == reports@[i as int],
                    j <= rep.devices@.len(),
                    ids_distinct(out@),
                    forall|k: int| 0 <= k < out@.len() ==> on_running(self.registry.instances@, #[trigger] out@[k]),
                    forall|a: int, b: int| 0 <= a < i && 0 <= b < reports@[a].devices@.len()
                        && #[trigger] reports@[a].devices@[b].peer.id.protocol.0@ == reports@[a].protocol.0@
                        && on_running(old(self).registry.instances@, reports@[a].devices@[b])
                        ==> has_id(out@, id_key(&reports@[a].devices@[b].peer.id)),
                    forall|b: int| 0 <= b < j
                        && #[trigger] rep.devices@[b].peer.id.protocol.0@ == rep.protocol.0@
                        && on_running(old(self).registry.instances@, rep.devices@[b])
                        ==> has_id(out@, id_key(&rep.devices@[b].peer.id)),
                    sourced(reports@, old(self).registry.instances@, out@, i as int, j as int),
                decreases rep.devices.len() - j,
            {
                let d = &rep.devices[j];
                let ghost inst = old(self).registry.instances@;
                let ghost reps = reports@;
                if d.peer.id.protocol.same_as(&rep.protocol) && self.registry.is_running(d.peer.id.protocol.as_str()) {
                    let ghost before = out@;
                    upsert(&mut out, d.clone_device());
                    proof {
                        assert(admissible(reps, inst, i as int, j as int));
                        assert forall|k: int| 0 <= k < out@.len() implies on_running(self.registry.instances@, #[trigger] out@[k]) by {
                            if out@[k] != *d {
                                let m = choose|m: int| 0 <= m < before.len() && before[m] == out@[k];
                                assert(on_running(self.registry.instances@, before[m]));
                            }
                        }
                        lemma_sourced_upsert(reps, inst, before, out@, *d, i as int, j as int);
                    }
                } else {
                    proof {
                        lemma_sourced_skip(reps, inst, out@, i as int, j as int);
                    }
                }
                j = j + 1;
            }
            proof {
                lemma_sourced_next_report(reports@, old(self).registry.instances@, out@, i as int);
            }
            i = i + 1;
        }
        let mut k: usize = 0;
        while k < out.len()
            invariant
                self.registry.wf(),
                self.registry == old(self).registry,
                self.running == old(self).running,
                ids_distinct(self.cache@),
                forall|m: int| 0 <= m < self.cache@.len() ==> on_running(self.registry.instances@, #[trigger] self.cache@[m]),
                forall|m: int| 0 <= m < out@.len() ==> on_running(self.registry.instances@, #[trigger] out@[m]),
                k <= out@.len(),
                forall|m: int| 0 <= m < k ==> has_id(self.cache@, id_key(&(#[trigger] out@[m]).peer.id)),
            decreases out.len() - k,
        {
            let ghost before = self.cache@;
            upsert(&mut self.cache, out[k].clone_device());
            proof {
                assert forall|m: int| 0 <= m < self.cache@.len() implies on_running(self.registry.instances@, #[trigger] self.cache@[m]) by {
                    if self.cache@[m] != out@[k as int] {
                        let n = choose|n: int| 0 <= n < before.len() && before[n] == self.cache@[m];
                        assert(on_running(self.registry.instances@, before[n]));
                    }
                }
            }
            k = k + 1;
        }
        out
    }

    /// Takes in an event forwarded from a protocol: discoveries and updates
    /// of devices on running protocols enter the cache, losses leave it.
    pub fn on_event(&mut self, event: &Event)
        requires
            old(self).wf(),
        ensures
            final(self).wf(),
            final(self).running == old(self).running,
            final(self).registry == old(self).registry,
            event.kind matches EventKind::DeviceDiscovered(d) ==> (on_running(old(self).registry.instances@, d)
                ==> has_id(final(self).cache@, id_key(&d.peer.id))),
            event.kind matches EventKind::DeviceUpdated(d) ==> (on_running(old(self).registry.instances@, d)
                ==> has_id(final(self).cache@, id_key(&d.peer.id))),
            event.kind matches EventKind::DeviceLost(id) ==> !has_id(final(self).cache@, id_key(&id)),
            !(event.kind is DeviceDiscovered || event.kind is DeviceUpdated || event.kind is DeviceLost) ==> final(self).cache@ == old(self).cache@,
    {
        match &event.kind {
            EventKind::DeviceDiscovered(d) | EventKind::DeviceUpdated(d) => {
                if self.registry.is_running(d.peer.id.protocol.as_str()) {
                    let ghost before = self.cache@;
                    upsert(&mut self.cache, d.clone_device());
                    proof {
                        assert forall|m: int| 0 <= m < self.cache@.len() implies on_running(self.registry.instances@, #[trigger] self.cache@[m]) by {
                            if self.cache@[m] != *d {
                                let n = choose|n: int| 0 <= n < before.len() && before[n] == self.cache@[m];
                                assert(on_running(self.registry.instances@, before[n]));
                            }
                        }
                    }
                }
            },
            EventKind::DeviceLost(id) => {
                let ghost before = self.cache@;
                remove_id(&mut self.cache, id);
                proof {
                    assert forall|m: int| 0 <= m < self.cache@.len() implies on_running(self.registry.instances@, #[trigger] self.cache@[m]) by {
                        let n = choose|n: int| 0 <= n < before.len() && before[n] == self.cache@[m];
                        assert(on_running(self.registry.instances@, before[n]));
                    }
                }
            },
            _ => {},
        }
    }

    /// The cached device with this identifier.
    pub fn cached_device(&self, id: &DeviceId) -> (r: Option<Device>)
        requires
            self.wf(),
        ensures
            r is Some <==> has_id(self.cache@, id_key(id)),
            r matches Some(d) ==> id_key(&d.peer.id) == id_key(id) && self.cache@.contains(d),
    {
        let mut i: usize = 0;
        while i < self.cache.len()
            invariant
                i <= self.cache@.len(),
                forall|j: int| 0 <= j < i ==> id_key(&(#[trigger] self.cache@[j]).peer.id) != id_key(id),
            decreases self.cache.len() - i,
        {
            if self.cache[i].peer.id.same_as(id) {
                let d = self.cache[i].clone_device();
                proof {
                    assert(self.cache@[i as int] == d);
                }
                return Some(d);
            }
            i = i + 1;
        }
        None
    }

    /// Where a transfer to `target` goes: the protocol named by the target,
    /// which must have a running instance.
    pub fn route(&self, target: &DeviceId) -> (r: Result<(), Error>)
        requires
            self.wf(),
        ensures
            !self.registry.instances@.contains_key(target.protocol.0@) ==>
                (r matches Err(Error::ProtocolNotFound(m)) && m@ == target.protocol.0@),
            self.registry.instances@.contains_key(target.protocol.0@) && !self.registry.instances@[target.protocol.0@] ==>
                (r matches Err(Error::Protocol(m)) && m@ == "Protocol "@ + target.protocol.0@ + " is not running"@),
            self.registry.instances@.contains_key(target.protocol.0@) && self.registry.instances@[target.protocol.0@] ==> r is Ok,
    {
        let id = target.protocol.as_str();
        if !self.registry.get(id) {
            return Err(Error::ProtocolNotFound(String::from_str(id)));
        }
        if !self.registry.is_running(id) {
            let mut m = String::from_str("Protocol ");
            push_str(&mut m, id);
            push_str(&mut m, " is not running");
            return Err(Error::Protocol(m));
        }
        Ok(())
    }

    /// The protocol that accepts, rejects or cancels a transfer must have
    /// an instance.
    pub fn owner(&self, protocol: &ProtocolId) -> (r: Result<(), Error>)
        requires
            self.wf(),
        ensures
            self.registry.instances@.contains_key(protocol.0@) ==> r is Ok,
            !self.registry.instances@.contains_key(protocol.0@) ==> (r matches Err(Error::ProtocolNotFound(m)) && m@ == protocol.0@),
    {
        if self.registry.get(protocol.as_str()) {
            Ok(())
        } else {
            Err(Error::ProtocolNotFound(protocol.to_string()))
        }
    }
}

proof fn lemma_all_false(before: Seq<(String, bool)>, after: Seq<(String, bool)>)
    requires
        before.len() == after.len(),
        forall|j: int| 0 <= j < after.len() ==> #[trigger] after[j].0@ == before[j].0@,
        forall|j: int| 0 <= j < after.len() ==> !(#[trigger] after[j]).1,
    ensures
        crate::table::entries_map(after) == crate::table::entries_map(before).map_values(|b: bool| false),
    decreases before.len(),
{
    if before.len() > 0 {
        lemma_all_false(before.drop_last(), after.drop_last());
        assert(crate::table::entries_map(after) =~= crate::table::entries_map(before).map_values(|b: bool| false));
    } else {
        assert(crate::table::entries_map(after) =~= crate::table::entries_map(before).map_values(|b: bool| false));
    }
}

} // verus!
