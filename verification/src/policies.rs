//! Load-balancing policies: how one worker is picked from the candidates.
//!
//! A policy is handed the candidates of one request, already filtered by
//! availability, and picks one of them by its index in the list.

pub mod affinity;
pub mod consistent_hash;
pub mod hashing;
pub mod headers;

use crate::policies::affinity::body_text;
use crate::policies::affinity::header_values;
use crate::policies::consistent_hash::selects;
use crate::policies::consistent_hash::ConsistentHashPolicy;
use crate::policies::headers::RequestHeaders;
use crate::random::random_u64;
use crate::worker::views;
use crate::worker::BasicWorker;
use crate::worker::WorkerView;
use vstd::prelude::*;

verus! {

/// The candidate that the random number `raw` stands for among `count`.
pub open spec fn drawn(raw: u64, count: nat) -> int {
    raw as int % count as int
}

/// Of candidates `first` and `second`, the one that serves fewer requests;
/// `first` if they serve as many.
pub open spec fn lighter(fleet: Seq<WorkerView>, first: int, second: int) -> int {
    if fleet[first].load <= fleet[second].load {
        first
    } else {
        second
    }
}

/// The candidate that the random number `raw` stands for among `count`.
pub fn pick_index(raw: u64, count: usize) -> (index: usize)
    requires
        count > 0,
    ensures
        index == drawn(raw, count as nat),
        index < count,
{
    (raw % (count as u64)) as usize
}

/// Of candidates `first` and `second`, the one that serves fewer requests.
pub fn less_loaded(workers: &Vec<BasicWorker>, first: usize, second: usize) -> (index: usize)
    requires
        first < workers@.len(),
        second < workers@.len(),
    ensures
        index == lighter(views(workers@), first as int, second as int),
{
    if workers[first].load() <= workers[second].load() {
        first
    } else {
        second
    }
}

/// How a router picks among its candidates.
#[derive(Clone, Copy, Debug)]
pub enum LoadBalancingPolicy {
    /// Any candidate, all alike.
    Random,
    /// Of two candidates drawn at random, the one that serves fewer requests.
    PowerOfTwo,
    /// The candidate that owns the request's affinity key.
    ConsistentHash(ConsistentHashPolicy),
}

impl LoadBalancingPolicy {
    /// Whether `choice` is an answer of this policy for the candidates
    /// `fleet` and a request with body `body` and headers `headers`. From no
    /// candidates nothing is picked. `Random` may pick any candidate.
    /// `PowerOfTwo` picks the lighter of some two candidates. `ConsistentHash`
    /// picks the owner of the request's affinity key.
    pub open spec fn allows(
        self,
        fleet: Seq<WorkerView>,
        body: Option<Seq<char>>,
        headers: Option<Map<Seq<char>, Seq<char>>>,
        choice: Option<usize>,
    ) -> bool {
        match choice {
            None => fleet.len() == 0,
            Some(i) => i < fleet.len() && match self {
                LoadBalancingPolicy::Random => true,
                LoadBalancingPolicy::PowerOfTwo => exists|first: int, second: int|
                    0 <= first < fleet.len() && 0 <= second < fleet.len() && i == #[trigger] lighter(
                        fleet,
                        first,
                        second,
                    ),
                LoadBalancingPolicy::ConsistentHash(_) => selects(fleet, body, headers, choice),
            },
        }
    }

    /// Picks the candidate for a request: an index into `workers`, or
    /// nothing if there is no candidate.
    pub fn select_worker_with_headers(
        &self,
        workers: &Vec<BasicWorker>,
        body: Option<&str>,
        headers: Option<&RequestHeaders>,
    ) -> (choice: Option<usize>)
        ensures
            choice is None <==> workers@.len() == 0,
            choice is Some ==> choice.unwrap() < workers@.len(),
            self.allows(views(workers@), body_text(body), header_values(headers), choice),
    {
        if workers.len() == 0 {
            return None;
        }
        match self {
            LoadBalancingPolicy::Random => Some(pick_index(random_u64(), workers.len())),
            LoadBalancingPolicy::PowerOfTwo => {
                let first = pick_index(random_u64(), workers.len());
                let second = pick_index(random_u64(), workers.len());
                Some(less_loaded(workers, first, second))
            },
            LoadBalancingPolicy::ConsistentHash(policy) => policy.select_worker_with_headers(
                workers,
                body,
                headers,
            ),
        }
    }
}

/// Whatever the policy, nothing is picked from no candidates, and from some
/// candidates one of them.
pub proof fn law_every_policy_picks_a_candidate(
    policy: LoadBalancingPolicy,
    fleet: Seq<WorkerView>,
    body: Option<Seq<char>>,
    headers: Option<Map<Seq<char>, Seq<char>>>,
    choice: Option<usize>,
)
    requires
        policy.allows(fleet, body, headers, choice),
    ensures
        choice is None <==> fleet.len() == 0,
        choice is Some ==> choice.unwrap() < fleet.len(),
{
}

} // verus!
