//! Choice of the target device for the command line's `send`.

use vstd::prelude::*;
use crate::device::Device;
use crate::text::{contains_seq, contains_str, is_prefix, lower_of, lowercase, starts_with};

verus! {

/// Whether a device answers to a query: its name contains the query in any
/// letter case, or its fingerprint starts with the query.
pub open spec fn answers_to(d: Device, query: Seq<char>) -> bool {
    contains_seq(lower_of(d.peer.name@), lower_of(query)) || is_prefix(query, d.peer.id.fingerprint@)
}

/// Outcome of choosing a target.
#[derive(Debug, Clone, PartialEq, Eq)]
pub enum TargetChoice {
    /// The device at this index.
    Chosen(usize),
    /// No device was discovered.
    NoDevices,
    /// No device answers to the query.
    NotFound,
    /// Several devices answer to the query; their indices.
    Ambiguous(Vec<usize>),
    /// Several devices and no query.
    NeedTarget,
}

/// Whether device `i` answers to the query.
pub fn device_answers(d: &Device, query: &str) -> (r: bool)
    ensures
        r == answers_to(*d, query@),
{
    let name = lowercase(d.peer.name.as_str());
    let q = lowercase(query);
    contains_str(name.as_str(), q.as_str()) || starts_with(d.peer.id.fingerprint.as_str(), query)
}

/// Chooses the target: with a query, the one device that answers to it;
/// without one, the only device.
pub fn select_target(devices: &Vec<Device>, query: Option<&str>) -> (r: TargetChoice)
    ensures
        devices@.len() == 0 ==> r == TargetChoice::NoDevices,
        devices@.len() > 0 && query is None ==>
            (if devices@.len() == 1 { r == TargetChoice::Chosen(0) } else { r == TargetChoice::NeedTarget }),
        devices@.len() > 0 && query is Some ==> {
            let q = query->0@;
            &&& (r matches TargetChoice::Chosen(i) ==> i < devices@.len() && answers_to(devices@[i as int], q)
                && forall|j: int| 0 <= j < devices@.len() && j != i ==> !answers_to(#[trigger] devices@[j], q))
            &&& (r == TargetChoice::NotFound <==> forall|j: int| 0 <= j < devices@.len() ==> !answers_to(#[trigger] devices@[j], q))
            &&& (r matches TargetChoice::Ambiguous(v) ==> v@.len() >= 2
                && forall|k: int| 0 <= k < v@.len() ==> #[trigger] v@[k] < devices@.len() && answers_to(devices@[v@[k] as int], q))
            &&& (r is Chosen || r is NotFound || r is Ambiguous)
        },
{
    if devices.len() == 0 {
        return TargetChoice::NoDevices;
    }
    match query {
        None => {
            if devices.len() == 1 {
                TargetChoice::Chosen(0)
            } else {
                TargetChoice::NeedTarget
            }
        },
        Some(q) => {
            let mut hits: Vec<usize> = Vec::new();
            let mut i: usize = 0;
            while i < devices.len()
                invariant
                    i <= devices@.len(),
                    forall|k: int| 0 <= k < hits@.len() ==> #[trigger] hits@[k] < i && answers_to(devices@[hits@[k] as int], q@),
                    forall|j: int| 0 <= j < i && answers_to(#[trigger] devices@[j], q@) ==> hits@.contains(j as usize),
                    forall|a: int, b: int| 0 <= a < b < hits@.len() ==> hits@[a] < hits@[b],
                decreases devices.len() - i,
            {
                let ghost before = hits@;
                if device_answers(&devices[i], q) {
                    hits.push(i);
                    proof {
                        assert forall|j: int| 0 <= j < i + 1 && answers_to(#[trigger] devices@[j], q@) implies hits@.contains(j as usize) by {
                            if j < i {
                                let k = choose|k: int| 0 <= k < before.len() && before[k] == j as usize;
                                assert(hits@[k] == j as usize);
                            } else {
                                assert(hits@[before.len() as int] == j as usize);
                            }
                        }
                    }
                }
                i = i + 1;
            }
            if hits.len() == 0 {
                proof {
                    assert forall|j: int| 0 <= j < devices@.len() implies !answers_to(#[trigger] devices@[j], q@) by {
                        if answers_to(devices@[j], q@) {
                            assert(hits@.contains(j as usize));
                        }
                    }
                }
                TargetChoice::NotFound
            } else if hits.len() == 1 {
                let only = hits[0];
                proof {
                    assert forall|j: int| 0 <= j < devices@.len() && j != only implies !answers_to(#[trigger] devices@[j], q@) by {
                        if answers_to(devices@[j], q@) {
                            assert(hits@.contains(j as usize));
                        }
                    }
                }
                TargetChoice::Chosen(only)
            } else {
                proof {
                    assert(answers_to(devices@[hits@[0] as int], q@));
                }
                TargetChoice::Ambiguous(hits)
            }
        },
    }
}

} // verus!
