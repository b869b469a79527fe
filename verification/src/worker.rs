//! Workers and their availability.
//!
//! A worker is a routable backend, known by its URL. Routing works on a
//! snapshot of the fleet: a plain list of workers, filtered by availability
//! before a policy picks from it.

use vstd::prelude::*;

verus! {

/// What a worker serves.
#[derive(Clone, Copy, Debug, PartialEq, Eq, Structural)]
pub enum WorkerType {
    /// Serves whole requests.
    Regular,
    /// Serves the prefill phase; may offer a port for the handoff.
    Prefill { bootstrap_port: Option<u16> },
    /// Serves the decode phase.
    Decode,
}

impl WorkerType {
    /// The handoff port: that of a prefill worker which has one.
    pub open spec fn port(self) -> Option<u16> {
        match self {
            WorkerType::Prefill { bootstrap_port } => bootstrap_port,
            _ => None,
        }
    }

    /// The handoff port: that of a prefill worker which has one.
    pub fn bootstrap_port(&self) -> (port: Option<u16>)
        ensures
            port == self.port(),
    {
        match self {
            WorkerType::Prefill { bootstrap_port } => *bootstrap_port,
            _ => None,
        }
    }
}

/// A worker as contracts see it.
pub struct WorkerView {
    pub url: Seq<char>,
    pub worker_type: WorkerType,
    pub healthy: bool,
    pub load: nat,
}

impl WorkerView {
    /// A worker can be routed to while it is healthy.
    pub open spec fn available(self) -> bool {
        self.healthy
    }
}

/// A worker with its health flag and the number of requests it is serving.
#[derive(Debug)]
pub struct BasicWorker {
    url: String,
    worker_type: WorkerType,
    healthy: bool,
    load: usize,
}

impl View for BasicWorker {
    type V = WorkerView;

    closed spec fn view(&self) -> WorkerView {
        WorkerView {
            url: self.url@,
            worker_type: self.worker_type,
            healthy: self.healthy,
            load: self.load as nat,
        }
    }
}

impl Clone for BasicWorker {
    fn clone(&self) -> (copy: Self)
        ensures
            copy@ == self@,
    {
        BasicWorker {
            url: self.url.clone(),
            worker_type: self.worker_type,
            healthy: self.healthy,
            load: self.load,
        }
    }
}

impl BasicWorker {
    /// A healthy worker that serves nothing yet.
    pub fn new(url: String, worker_type: WorkerType) -> (worker: Self)
        ensures
            worker@ == (WorkerView { url: url@, worker_type, healthy: true, load: 0 }),
    {
        BasicWorker { url, worker_type, healthy: true, load: 0 }
    }

    pub fn url(&self) -> (url: &str)
        ensures
            url@ == self@.url,
    {
        self.url.as_str()
    }

    pub fn worker_type(&self) -> (worker_type: WorkerType)
        ensures
            worker_type == self@.worker_type,
    {
        self.worker_type
    }

    pub fn is_healthy(&self) -> (healthy: bool)
        ensures
            healthy == self@.healthy,
    {
        self.healthy
    }

    /// Sets the health flag; nothing else changes.
    pub fn set_healthy(&mut self, healthy: bool)
        ensures
            final(self)@ == (WorkerView { healthy, ..old(self)@ }),
    {
        self.healthy = healthy;
    }

    pub fn is_available(&self) -> (available: bool)
        ensures
            available == self@.available(),
    {
        self.healthy
    }

    pub fn load(&self) -> (load: usize)
        ensures
            load == self@.load,
    {
        self.load
    }

    /// Sets the number of requests in flight; nothing else changes.
    pub fn set_load(&mut self, load: usize)
        ensures
            final(self)@ == (WorkerView { load: load as nat, ..old(self)@ }),
    {
        self.load = load;
    }
}

/// The views of a list of workers.
pub open spec fn views(workers: Seq<BasicWorker>) -> Seq<WorkerView> {
    workers.map_values(|w: BasicWorker| w@)
}

/// The workers of `fleet` that can be routed to, in the order of `fleet`.
pub open spec fn available(fleet: Seq<WorkerView>) -> Seq<WorkerView>
    decreases fleet.len(),
{
    if fleet.len() == 0 {
        fleet
    } else if fleet.last().available() {
        available(fleet.drop_last()).push(fleet.last())
    } else {
        available(fleet.drop_last())
    }
}

/// The workers of `fleet` that can be routed to, in the order of `fleet`.
pub fn available_workers(fleet: &Vec<BasicWorker>) -> (candidates: Vec<BasicWorker>)
    ensures
        views(candidates@) == available(views(fleet@)),
{
    let mut candidates: Vec<BasicWorker> = Vec::new();
    let mut i: usize = 0;
    while i < fleet.len()
        invariant
            i <= fleet.len(),
            views(candidates@) == available(views(fleet@).take(i as int)),
        decreases fleet.len() - i,
    {
        proof {
            assert(views(fleet@).take(i + 1).drop_last() == views(fleet@).take(i as int));
        }
        if fleet[i].is_available() {
            let worker = fleet[i].clone();
            proof {
                assert(views(candidates@.push(worker)) == views(candidates@).push(worker@));
            }
            candidates.push(worker);
        }
        i += 1;
    }
    proof {
        assert(views(fleet@).take(i as int) == views(fleet@));
    }
    candidates
}

/// Every worker that availability filtering lets through is healthy.
pub proof fn law_available_are_healthy(fleet: Seq<WorkerView>, i: int)
    requires
        0 <= i < available(fleet).len(),
    ensures
        available(fleet)[i].healthy,
    decreases fleet.len(),
{
    if fleet.len() > 0 {
        if i < available(fleet.drop_last()).len() {
            law_available_are_healthy(fleet.drop_last(), i);
        }
    }
}

/// Where in `fleet` the worker stands that comes `j`-th among the available.
pub open spec fn origin(fleet: Seq<WorkerView>, j: int) -> int
    decreases fleet.len(),
{
    if fleet.len() == 0 {
        0
    } else if fleet.last().available() && available(fleet.drop_last()).len() == j {
        fleet.len() - 1
    } else {
        origin(fleet.drop_last(), j)
    }
}

/// The `j`-th available worker is a worker of the fleet, and exactly `j`
/// available workers stand before it there.
pub proof fn lemma_origin(fleet: Seq<WorkerView>, j: int)
    requires
        0 <= j < available(fleet).len(),
    ensures
        0 <= origin(fleet, j) < fleet.len(),
        fleet[origin(fleet, j)] == available(fleet)[j],
        available(fleet.take(origin(fleet, j))).len() == j,
    decreases fleet.len(),
{
    if fleet.last().available() && available(fleet.drop_last()).len() == j {
        assert(fleet.take(fleet.len() - 1) == fleet.drop_last());
    } else {
        lemma_origin(fleet.drop_last(), j);
        assert(fleet.drop_last().take(origin(fleet.drop_last(), j)) == fleet.take(
            origin(fleet.drop_last(), j),
        ));
    }
}

/// The available workers of a longer beginning of the fleet are no fewer.
pub proof fn lemma_available_grows(fleet: Seq<WorkerView>, a: int, b: int)
    requires
        0 <= a <= b <= fleet.len(),
    ensures
        available(fleet.take(a)).len() <= available(fleet.take(b)).len(),
    decreases b - a,
{
    if a < b {
        lemma_available_grows(fleet, a, b - 1);
        assert(fleet.take(b).drop_last() == fleet.take(b - 1));
    }
}

/// The available workers of a beginning of the fleet are the first of the
/// available workers of the fleet.
pub proof fn lemma_available_prefix(fleet: Seq<WorkerView>, k: int)
    requires
        0 <= k <= fleet.len(),
    ensures
        available(fleet.take(k)).is_prefix_of(available(fleet)),
    decreases fleet.len() - k,
{
    if k < fleet.len() {
        lemma_available_prefix(fleet, k + 1);
        assert(fleet.take(k + 1).drop_last() == fleet.take(k));
    } else {
        assert(fleet.take(k) == fleet);
    }
}

/// An available worker keeps its place among the available: it comes after
/// as many of them as stand before it in the fleet.
pub proof fn lemma_rank(fleet: Seq<WorkerView>, i: int)
    requires
        0 <= i < fleet.len(),
        fleet[i].available(),
    ensures
        available(fleet.take(i)).len() < available(fleet).len(),
        available(fleet)[available(fleet.take(i)).len() as int] == fleet[i],
{
    lemma_available_prefix(fleet, i + 1);
    assert(fleet.take(i + 1).drop_last() == fleet.take(i));
    assert(fleet.take(i + 1).last() == fleet[i]);
    let upto = available(fleet.take(i + 1));
    assert(upto == available(fleet.take(i)).push(fleet[i]));
    assert(upto[upto.len() - 1] == fleet[i]);
}

} // verus!
