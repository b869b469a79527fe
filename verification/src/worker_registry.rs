//! The registry of workers: a mapping from worker identifier to worker.
//!
//! Readers take copies out of the registry and work on those, so that what
//! is registered or removed meanwhile never disturbs a routing decision
//! under way.

use crate::worker::BasicWorker;
use crate::worker::WorkerView;
use dashmap::DashMap;
use vstd::prelude::*;

verus! {

/// Names a registered worker; unlike its URL, it means nothing else.
#[derive(Clone, Copy, Debug, PartialEq, Eq, Structural)]
pub struct WorkerId(pub u64);

/// `dashmap::DashMap`: a concurrent hash map. What one holds is known only
/// through `map_contents`.
#[verifier::external_type_specification]
#[verifier::external_body]
#[verifier::reject_recursive_types(K)]
#[verifier::reject_recursive_types(V)]
#[verifier::reject_recursive_types(S)]
pub struct ExDashMap<K, V, S>(DashMap<K, V, S>);

/// What a map holds: the worker under each key. The registry owns its map
/// and changes it through `&mut` only, so what it holds changes with those
/// calls and with nothing else.
pub uninterp spec fn map_contents(map: DashMap<u64, BasicWorker>) -> Map<u64, WorkerView>;

/// `DashMap::new`: a map that holds nothing.
#[verifier::external_body]
fn map_new() -> (made: DashMap<u64, BasicWorker>)
    ensures
        map_contents(made) == (Map::<u64, WorkerView>::empty()),
{
    DashMap::new()
}

/// `DashMap::insert`: puts `worker` under `key`, in place of what was there,
/// and returns what was there.
#[verifier::external_body]
fn map_insert(map: &mut DashMap<u64, BasicWorker>, key: u64, worker: BasicWorker) -> (before:
    Option<BasicWorker>)
    ensures
        map_contents(*final(map)) == map_contents(*old(map)).insert(key, worker@),
        before is Some <==> map_contents(*old(map)).contains_key(key),
        before is Some ==> before.unwrap()@ == map_contents(*old(map))[key],
{
    map.insert(key, worker)
}

/// `DashMap::remove`: takes out what is under `key` and returns it with the
/// key.
#[verifier::external_body]
fn map_remove(map: &mut DashMap<u64, BasicWorker>, key: u64) -> (removed: Option<
    (u64, BasicWorker),
>)
    ensures
        map_contents(*final(map)) == map_contents(*old(map)).remove(key),
        removed is Some <==> map_contents(*old(map)).contains_key(key),
        removed is Some ==> removed.unwrap().0 == key && removed.unwrap().1@ == map_contents(
            *old(map),
        )[key],
{
    map.remove(&key)
}

/// `DashMap::get`: a copy of what is under `key`.
#[verifier::external_body]
fn map_get(map: &DashMap<u64, BasicWorker>, key: u64) -> (found: Option<BasicWorker>)
    ensures
        found is Some <==> map_contents(*map).contains_key(key),
        found is Some ==> found.unwrap()@ == map_contents(*map)[key],
{
    map.get(&key).map(|entry| entry.value().clone())
}

/// `DashMap::iter`: a copy of every entry, each key once, in no order
/// that can be told beforehand.
#[verifier::external_body]
fn map_entries(map: &DashMap<u64, BasicWorker>) -> (entries: Vec<(u64, BasicWorker)>)
    ensures
        (forall|key: u64| #[trigger]
            map_contents(*map).contains_key(key) ==> exists|i: int|
                0 <= i < entries@.len() && (#[trigger] entries@[i]).0 == key),
        (forall|i: int, j: int|
            0 <= i < j < entries@.len() ==> (#[trigger] entries@[i]).0 != (#[trigger] entries@[j]).0),
        (forall|i: int|
            0 <= i < entries@.len() ==> map_contents(*map).contains_key((#[trigger] entries@[i]).0)
                && map_contents(*map)[entries@[i].0] == entries@[i].1@),
{
    map.iter().map(|entry| (*entry.key(), entry.value().clone())).collect()
}

/// The workers that are registered, each under its identifier.
pub struct WorkerRegistry {
    workers: DashMap<u64, BasicWorker>,
}

impl View for WorkerRegistry {
    type V = Map<u64, WorkerView>;

    closed spec fn view(&self) -> Map<u64, WorkerView> {
        map_contents(self.workers)
    }
}

/// Whether `entries` lists what `registered` holds: every entry is
/// registered as it stands, no identifier is listed twice, and none is left
/// out.
pub open spec fn lists(entries: Seq<(WorkerId, BasicWorker)>, registered: Map<u64, WorkerView>) -> bool {
    &&& forall|i: int|
        0 <= i < entries.len() ==> registered.contains_key((#[trigger] entries[i]).0.0)
            && registered[entries[i].0.0] == entries[i].1@
    &&& forall|i: int, j: int|
        0 <= i < j < entries.len() ==> (#[trigger] entries[i]).0 != (#[trigger] entries[j]).0
    &&& forall|key: u64| #[trigger]
        registered.contains_key(key) ==> exists|i: int|
            0 <= i < entries.len() && (#[trigger] entries[i]).0.0 == key
}

/// Whether `found` names the healthy workers of `registered`: every one
/// named is registered and healthy and is named with its URL, none is named
/// twice, and no healthy worker is left out.
pub open spec fn names_healthy(found: Seq<(WorkerId, String)>, registered: Map<u64, WorkerView>) -> bool {
    &&& forall|k: int|
        0 <= k < found.len() ==> {
            &&& registered.contains_key((#[trigger] found[k]).0.0)
            &&& registered[found[k].0.0].healthy
            &&& registered[found[k].0.0].url == found[k].1@
        }
    &&& forall|k: int, l: int|
        0 <= k < l < found.len() ==> (#[trigger] found[k]).0 != (#[trigger] found[l]).0
    &&& forall|key: u64|
        #[trigger] registered.contains_key(key) && registered[key].healthy ==> exists|k: int|
            0 <= k < found.len() && (#[trigger] found[k]).0.0 == key
}

impl WorkerRegistry {
    /// A registry with no worker.
    pub fn new() -> (registry: Self)
        ensures
            registry@ == Map::<u64, WorkerView>::empty(),
    {
        WorkerRegistry { workers: map_new() }
    }

    /// Registers `worker` under `id`, in place of the worker that was
    /// registered there, and returns that worker.
    pub fn insert(&mut self, id: WorkerId, worker: BasicWorker) -> (before: Option<BasicWorker>)
        ensures
            final(self)@ == old(self)@.insert(id.0, worker@),
            before is Some <==> old(self)@.contains_key(id.0),
            before is Some ==> before.unwrap()@ == old(self)@[id.0],
    {
        map_insert(&mut self.workers, id.0, worker)
    }

    /// Removes the worker registered under `id` and returns it.
    pub fn remove(&mut self, id: WorkerId) -> (removed: Option<BasicWorker>)
        ensures
            final(self)@ == old(self)@.remove(id.0),
            removed is Some <==> old(self)@.contains_key(id.0),
            removed is Some ==> removed.unwrap()@ == old(self)@[id.0],
    {
        match map_remove(&mut self.workers, id.0) {
            Some((_, worker)) => Some(worker),
            None => None,
        }
    }

    /// A copy of the worker registered under `id`.
    pub fn get(&self, id: WorkerId) -> (found: Option<BasicWorker>)
        ensures
            found is Some <==> self@.contains_key(id.0),
            found is Some ==> found.unwrap()@ == self@[id.0],
    {
        map_get(&self.workers, id.0)
    }

    /// Sets the health flag of the worker registered under `id`; tells
    /// whether there is such a worker.
    pub fn set_healthy(&mut self, id: WorkerId, healthy: bool) -> (found: bool)
        ensures
            found <==> old(self)@.contains_key(id.0),
            found ==> final(self)@ == old(self)@.insert(
                id.0,
                WorkerView { healthy, ..old(self)@[id.0] },
            ),
            !found ==> final(self)@ == old(self)@,
    {
        match map_get(&self.workers, id.0) {
            Some(mut worker) => {
                worker.set_healthy(healthy);
                map_insert(&mut self.workers, id.0, worker);
                true
            },
            None => false,
        }
    }

    /// A copy of every registered worker with its identifier, in no
    /// particular order.
    pub fn entries(&self) -> (entries: Vec<(WorkerId, BasicWorker)>)
        ensures
            lists(entries@, self@),
    {
        let raw = map_entries(&self.workers);
        let mut entries: Vec<(WorkerId, BasicWorker)> = Vec::new();
        let mut i: usize = 0;
        while i < raw.len()
            invariant
                i <= raw@.len(),
                entries@.len() == i,
                forall|k: int|
                    0 <= k < i ==> (#[trigger] entries@[k]).0.0 == raw@[k].0 && entries@[k].1@
                        == raw@[k].1@,
            decreases raw@.len() - i,
        {
            entries.push((WorkerId(raw[i].0), raw[i].1.clone()));
            i += 1;
        }
        proof {
            assert forall|key: u64| #[trigger] self@.contains_key(key) implies exists|k: int|
                0 <= k < entries@.len() && (#[trigger] entries@[k]).0.0 == key by {
                let k = choose|k: int| 0 <= k < raw@.len() && (#[trigger] raw@[k]).0 == key;
                assert(entries@[k].0.0 == key);
            }
            assert forall|a: int, b: int| 0 <= a < b < entries@.len() implies (
            #[trigger] entries@[a]).0 != (#[trigger] entries@[b]).0 by {
                assert(raw@[a].0 != raw@[b].0);
            }
        }
        entries
    }

    /// The healthy workers, each with its identifier and URL, in no
    /// particular order: the candidates when sustained load is reported.
    pub fn healthy_candidates(&self) -> (found: Vec<(WorkerId, String)>)
        ensures
            names_healthy(found@, self@),
    {
        let entries = self.entries();
        let mut found: Vec<(WorkerId, String)> = Vec::new();
        let ghost mut from: Seq<int> = Seq::empty();
        let mut i: usize = 0;
        while i < entries.len()
            invariant
                i <= entries@.len(),
                lists(entries@, self@),
                from.len() == found@.len(),
                forall|k: int|
                    0 <= k < found@.len() ==> {
                        &&& 0 <= #[trigger] from[k] < i
                        &&& found@[k].0 == entries@[from[k]].0
                        &&& found@[k].1@ == entries@[from[k]].1@.url
                        &&& entries@[from[k]].1@.healthy
                    },
                forall|k: int, l: int|
                    0 <= k < l < found@.len() ==> #[trigger] from[k] < #[trigger] from[l],
                forall|j: int|
                    0 <= j < i && (#[trigger] entries@[j]).1@.healthy ==> exists|k: int|
                        0 <= k < found@.len() && #[trigger] from[k] == j,
            decreases entries@.len() - i,
        {
            if entries[i].1.is_healthy() {
                let url = String::from_str(entries[i].1.url());
                let ghost before = from;
                found.push((entries[i].0, url));
                proof {
                    from = from.push(i as int);
                    assert forall|j: int|
                        0 <= j < i + 1 && (#[trigger] entries@[j]).1@.healthy implies exists|k: int|
                        0 <= k < found@.len() && #[trigger] from[k] == j by {
                        if j < i {
                            let k = choose|k: int| 0 <= k < before.len() && #[trigger] before[k] == j;
                            assert(from[k] == j);
                        } else {
                            assert(from[found@.len() - 1] == j);
                        }
                    }
                }
            }
            i += 1;
        }
        proof {
            assert forall|k: int, l: int| 0 <= k < l < found@.len() implies (#[trigger] found@[k]).0
                != (#[trigger] found@[l]).0 by {
                assert(from[k] < from[l]);
                assert(entries@[from[k]].0 != entries@[from[l]].0);
            }
            assert forall|key: u64| #[trigger]
                self@.contains_key(key) && self@[key].healthy implies exists|k: int|
                0 <= k < found@.len() && (#[trigger] found@[k]).0.0 == key by {
                let j = choose|j: int| 0 <= j < entries@.len() && (#[trigger] entries@[j]).0.0 == key;
                let k = choose|k: int| 0 <= k < found@.len() && #[trigger] from[k] == j;
                assert(found@[k].0.0 == key);
            }
            assert forall|k: int| 0 <= k < found@.len() implies {
                &&& self@.contains_key((#[trigger] found@[k]).0.0)
                &&& self@[found@[k].0.0].healthy
                &&& self@[found@[k].0.0].url == found@[k].1@
            } by {
                assert(self@.contains_key(entries@[from[k]].0.0));
            }
        }
        found
    }
}

} // verus!
