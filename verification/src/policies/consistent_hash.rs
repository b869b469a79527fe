//! Consistent hashing.
//!
//! Every worker stands on a ring of 2^64 positions at the hashes of its
//! virtual nodes. A key belongs to the worker whose node is the first at or
//! after the key's own position, going round the ring. The ring is made from
//! the URLs of the candidates of one call, so a key keeps its worker as long
//! as that worker stays among the candidates.

use crate::policies::affinity::affinity_hash;
use crate::policies::affinity::affinity_key;
use crate::policies::affinity::body_text;
use crate::policies::affinity::header_values;
use crate::policies::affinity::session_header;
use crate::policies::hashing::fnv1a_fold;
use crate::policies::hashing::fold;
use crate::policies::hashing::replica_position;
use crate::policies::hashing::hash_bytes;
use crate::policies::hashing::replica_position_from;
use crate::policies::hashing::ring_position;
use crate::policies::hashing::FNV_OFFSET;
use crate::policies::headers::RequestHeaders;
use crate::worker::available;
use crate::worker::lemma_available_grows;
use crate::worker::lemma_origin;
use crate::worker::lemma_rank;
use crate::worker::origin;
use crate::worker::views;
use crate::worker::BasicWorker;
use crate::worker::WorkerView;
use vstd::prelude::*;
use vstd::utf8::encode_utf8;

verus! {

/// Virtual nodes per worker.
pub const VIRTUAL_NODES: u16 = 160;

/// How far `position` lies after `key`, going round the ring.
pub open spec fn distance(position: u64, key: u64) -> u64 {
    position.wrapping_sub(key)
}

/// The distance from `key` to the nearest of the first `replicas` virtual
/// nodes of the worker whose URL folds to `url_state`.
pub open spec fn nearest(url_state: u64, key: u64, replicas: nat) -> u64
    decreases replicas,
{
    if replicas == 0 {
        u64::MAX
    } else {
        let before = nearest(url_state, key, (replicas - 1) as nat);
        let here = distance(replica_position_from(url_state, (replicas - 1) as u16), key);
        if here < before {
            here
        } else {
            before
        }
    }
}

/// How far after `key` the worker at `url` stands: the distance to the
/// nearest of its virtual nodes.
pub open spec fn reach(url: Seq<u8>, key: u64) -> u64 {
    nearest(fnv1a_fold(FNV_OFFSET, url), key, VIRTUAL_NODES as nat)
}

/// Whether candidate `i` owns `key`: no candidate stands nearer after the
/// key, and of those that stand as near, it comes first in the list.
pub open spec fn owns(urls: Seq<Seq<u8>>, key: u64, i: int) -> bool {
    &&& 0 <= i < urls.len()
    &&& forall|j: int| 0 <= j < urls.len() ==> reach(urls[i], key) <= reach(#[trigger] urls[j], key)
    &&& forall|j: int| 0 <= j < i ==> reach(urls[i], key) < reach(#[trigger] urls[j], key)
}

/// Going round the ring: a node at or after the key is as far as it lies
/// beyond the key, a node before the key a whole turn further.
pub proof fn law_distance_goes_round(position: u64, key: u64)
    ensures
        position >= key ==> distance(position, key) == position - key,
        position < key ==> distance(position, key) == position - key + 0x1_0000_0000_0000_0000,
{
}

/// `nearest` is the distance to one of the virtual nodes, and to none of
/// them is it further.
pub proof fn lemma_nearest(url_state: u64, key: u64, replicas: nat)
    requires
        0 < replicas <= u16::MAX,
    ensures
        exists|r: u16|
            r < replicas && nearest(url_state, key, replicas) == distance(
                #[trigger] replica_position_from(url_state, r),
                key,
            ),
        forall|r: u16|
            r < replicas ==> nearest(url_state, key, replicas) <= distance(
                #[trigger] replica_position_from(url_state, r),
                key,
            ),
    decreases replicas,
{
    let last = (replicas - 1) as u16;
    let here = distance(replica_position_from(url_state, last), key);
    if replicas > 1 {
        lemma_nearest(url_state, key, (replicas - 1) as nat);
        let before = nearest(url_state, key, (replicas - 1) as nat);
        if !(here < before) {
            let r = choose|r: u16|
                r < replicas - 1 && before == distance(
                    #[trigger] replica_position_from(url_state, r),
                    key,
                );
            assert(r < replicas && nearest(url_state, key, replicas) == distance(
                replica_position_from(url_state, r),
                key,
            ));
        } else {
            assert(nearest(url_state, key, replicas) == distance(
                replica_position_from(url_state, last),
                key,
            ));
        }
    } else {
        assert(nearest(url_state, key, 0) == u64::MAX);
        assert(nearest(url_state, key, replicas) == distance(
            replica_position_from(url_state, last),
            key,
        ));
    }
}

/// No virtual node of a worker lies nearer after the key than the worker's
/// reach.
pub proof fn lemma_reach_is_least(url: Seq<u8>, key: u64, replica: u16)
    requires
        replica < VIRTUAL_NODES,
    ensures
        reach(url, key) <= distance(ring_position(url, replica), key),
{
    lemma_nearest(fnv1a_fold(FNV_OFFSET, url), key, VIRTUAL_NODES as nat);
}

/// A virtual node of a worker that lies as near after the key as the
/// worker's reach.
pub proof fn lemma_reach_is_a_node(url: Seq<u8>, key: u64) -> (replica: u16)
    ensures
        replica < VIRTUAL_NODES,
        reach(url, key) == distance(ring_position(url, replica), key),
{
    let url_state = fnv1a_fold(FNV_OFFSET, url);
    lemma_nearest(url_state, key, VIRTUAL_NODES as nat);
    choose|r: u16|
        r < VIRTUAL_NODES && nearest(url_state, key, VIRTUAL_NODES as nat) == distance(
            #[trigger] replica_position_from(url_state, r),
            key,
        )
}

/// Whether virtual node `replica` of candidate `i` is the next node on the
/// ring from `key`: going round from the key, no virtual node of any
/// candidate comes before it.
pub open spec fn next_node(urls: Seq<Seq<u8>>, key: u64, i: int, replica: u16) -> bool {
    forall|j: int, other: u16|
        0 <= j < urls.len() && other < VIRTUAL_NODES ==> distance(
            ring_position(urls[i], replica),
            key,
        ) <= distance(#[trigger] ring_position(urls[j], other), key)
}

/// The owner of a key has the next node on the ring.
pub proof fn law_owner_has_the_next_node(urls: Seq<Seq<u8>>, key: u64, i: int) -> (replica: u16)
    requires
        owns(urls, key, i),
    ensures
        replica < VIRTUAL_NODES,
        next_node(urls, key, i, replica),
{
    let replica = lemma_reach_is_a_node(urls[i], key);
    let best = distance(ring_position(urls[i], replica), key);
    assert forall|j: int, other: u16| 0 <= j < urls.len() && other < VIRTUAL_NODES implies best
        <= distance(#[trigger] ring_position(urls[j], other), key) by {
        lemma_reach_is_least(urls[j], key, other);
        assert(reach(urls[i], key) <= reach(urls[j], key));
    }
    replica
}

/// The URLs of a list of workers, as bytes.
pub open spec fn url_bytes(fleet: Seq<WorkerView>) -> Seq<Seq<u8>> {
    fleet.map_values(|w: WorkerView| encode_utf8(w.url))
}

/// How far after `key` the worker at `url` stands.
pub fn reach_of(url: &str, key: u64) -> (d: u64)
    ensures
        d == reach(encode_utf8(url@), key),
{
    let url_state = fold(FNV_OFFSET, url.as_bytes());
    let mut best: u64 = u64::MAX;
    let mut replica: u16 = 0;
    while replica < VIRTUAL_NODES
        invariant
            replica <= VIRTUAL_NODES,
            best == nearest(url_state, key, replica as nat),
        decreases VIRTUAL_NODES - replica,
    {
        let here = replica_position(url_state, replica).wrapping_sub(key);
        if here < best {
            best = here;
        }
        replica += 1;
    }
    best
}

/// The candidate that owns `key`; none if there is no candidate.
pub fn select_by_key(workers: &Vec<BasicWorker>, key: u64) -> (choice: Option<usize>)
    ensures
        choice is None <==> workers@.len() == 0,
        choice is Some ==> owns(url_bytes(views(workers@)), key, choice.unwrap() as int),
{
    if workers.len() == 0 {
        return None;
    }
    let ghost urls = url_bytes(views(workers@));
    let mut best: usize = 0;
    let mut best_reach = reach_of(workers[0].url(), key);
    let mut i: usize = 1;
    while i < workers.len()
        invariant
            1 <= i <= workers.len(),
            urls == url_bytes(views(workers@)),
            best < i,
            best_reach == reach(urls[best as int], key),
            forall|j: int| 0 <= j < i ==> best_reach <= reach(#[trigger] urls[j], key),
            forall|j: int| 0 <= j < best ==> best_reach < reach(#[trigger] urls[j], key),
        decreases workers.len() - i,
    {
        let here = reach_of(workers[i].url(), key);
        if here < best_reach {
            best = i;
            best_reach = here;
        }
        i += 1;
    }
    Some(best)
}

/// A key has one owner.
pub proof fn law_owner_is_unique(urls: Seq<Seq<u8>>, key: u64, i: int, j: int)
    requires
        owns(urls, key, i),
        owns(urls, key, j),
    ensures
        i == j,
{
    assert(reach(urls[i], key) <= reach(urls[j], key));
    assert(reach(urls[j], key) <= reach(urls[i], key));
}

/// Whether `choice` is what consistent hashing picks from the candidates
/// `fleet` for a request with body `body` and headers `headers`: nothing
/// from no candidates, else the candidate that owns the position of the
/// request's affinity key.
pub open spec fn selects(
    fleet: Seq<WorkerView>,
    body: Option<Seq<char>>,
    headers: Option<Map<Seq<char>, Seq<char>>>,
    choice: Option<usize>,
) -> bool {
    match choice {
        None => fleet.len() == 0,
        Some(i) => owns(url_bytes(fleet), hash_bytes(affinity_key(body, headers)), i as int),
    }
}

/// Sticky routing: requests with one affinity key go to one worker.
#[derive(Clone, Copy, Debug)]
pub struct ConsistentHashPolicy {}

impl ConsistentHashPolicy {
    pub fn new() -> Self {
        ConsistentHashPolicy {}
    }

    /// Picks the candidate for a request: an index into `workers`, or
    /// nothing if there is no candidate.
    pub fn select_worker_with_headers(
        &self,
        workers: &Vec<BasicWorker>,
        body: Option<&str>,
        headers: Option<&RequestHeaders>,
    ) -> (choice: Option<usize>)
        ensures
            choice is None <==> workers@.len() == 0,
            choice is Some ==> choice.unwrap() < workers@.len(),
            selects(views(workers@), body_text(body), header_values(headers), choice),
    {
        select_by_key(workers, affinity_hash(body, headers))
    }

    /// Picks the candidate for a request of which only the body is known.
    pub fn select_worker(&self, workers: &Vec<BasicWorker>, body: Option<&str>) -> (choice: Option<
        usize,
    >)
        ensures
            choice is None <==> workers@.len() == 0,
            choice is Some ==> choice.unwrap() < workers@.len(),
            selects(views(workers@), body_text(body), None, choice),
    {
        self.select_worker_with_headers(workers, body, None)
    }
}

/// The same candidates, body and headers give the same choice, call after
/// call.
pub proof fn law_selection_is_determined(
    fleet: Seq<WorkerView>,
    body: Option<Seq<char>>,
    headers: Option<Map<Seq<char>, Seq<char>>>,
    first: Option<usize>,
    second: Option<usize>,
)
    requires
        selects(fleet, body, headers, first),
        selects(fleet, body, headers, second),
    ensures
        first == second,
{
    if first is Some && second is Some {
        law_owner_is_unique(
            url_bytes(fleet),
            hash_bytes(affinity_key(body, headers)),
            first.unwrap() as int,
            second.unwrap() as int,
        );
    }
}

/// With the header `x-session-id` set, the body has no say: what is picked
/// for one body is picked for every other.
pub proof fn law_session_header_decides(
    fleet: Seq<WorkerView>,
    headers: Map<Seq<char>, Seq<char>>,
    body: Option<Seq<char>>,
    other_body: Option<Seq<char>>,
    choice: Option<usize>,
)
    requires
        headers.contains_key(session_header()),
        selects(fleet, body, Some(headers), choice),
    ensures
        selects(fleet, other_body, Some(headers), choice),
{
}

/// From no candidates nothing is picked, and from some, one of them.
pub proof fn law_choice_is_a_candidate(
    fleet: Seq<WorkerView>,
    body: Option<Seq<char>>,
    headers: Option<Map<Seq<char>, Seq<char>>>,
    choice: Option<usize>,
)
    requires
        selects(fleet, body, headers, choice),
    ensures
        choice is None <==> fleet.len() == 0,
        choice is Some ==> choice.unwrap() < fleet.len(),
{
}

/// Only the URLs of the candidates count: health, load and kind of worker
/// do not move a key.
pub proof fn law_only_urls_count(
    fleet: Seq<WorkerView>,
    other_fleet: Seq<WorkerView>,
    body: Option<Seq<char>>,
    headers: Option<Map<Seq<char>, Seq<char>>>,
    choice: Option<usize>,
)
    requires
        fleet.len() == other_fleet.len(),
        forall|i: int| 0 <= i < fleet.len() ==> fleet[i].url == other_fleet[i].url,
        selects(fleet, body, headers, choice),
    ensures
        selects(other_fleet, body, headers, choice),
{
    assert(url_bytes(fleet) == url_bytes(other_fleet));
}

/// A key stays with its owner while the owner is available: if candidate `i`
/// of `fleet` owns `key` and is available, it owns `key` among the available
/// workers of `fleet` too, at the place it has there.
pub proof fn law_key_stays_with_available_owner(fleet: Seq<WorkerView>, key: u64, i: int)
    requires
        owns(url_bytes(fleet), key, i),
        fleet[i].available(),
    ensures
        owns(url_bytes(available(fleet)), key, available(fleet.take(i)).len() as int),
        available(fleet)[available(fleet.take(i)).len() as int] == fleet[i],
{
    let kept = available(fleet);
    let place = available(fleet.take(i)).len() as int;
    lemma_rank(fleet, i);
    assert(url_bytes(kept)[place] == url_bytes(fleet)[i]);
    assert forall|j: int| 0 <= j < url_bytes(kept).len() implies reach(url_bytes(kept)[place], key)
        <= reach(#[trigger] url_bytes(kept)[j], key) by {
        lemma_origin(fleet, j);
        assert(url_bytes(kept)[j] == url_bytes(fleet)[origin(fleet, j)]);
    }
    assert forall|j: int| 0 <= j < place implies reach(url_bytes(kept)[place], key) < reach(
        #[trigger] url_bytes(kept)[j],
        key,
    ) by {
        lemma_origin(fleet, j);
        let from = origin(fleet, j);
        if from >= i {
            lemma_available_grows(fleet, i, from);
        }
        assert(url_bytes(kept)[j] == url_bytes(fleet)[from]);
    }
}

/// A session survives availability filtering: if the worker picked from the
/// whole fleet is available, the same worker is picked from the fleet's
/// available workers.
pub proof fn law_session_survives_filtering(
    fleet: Seq<WorkerView>,
    body: Option<Seq<char>>,
    headers: Option<Map<Seq<char>, Seq<char>>>,
    choice: usize,
    filtered_choice: Option<usize>,
)
    requires
        selects(fleet, body, headers, Some(choice)),
        fleet[choice as int].available(),
        selects(available(fleet), body, headers, filtered_choice),
    ensures
        filtered_choice is Some,
        available(fleet)[filtered_choice.unwrap() as int] == fleet[choice as int],
{
    let key = hash_bytes(affinity_key(body, headers));
    law_key_stays_with_available_owner(fleet, key, choice as int);
    let place = available(fleet.take(choice as int)).len() as int;
    if filtered_choice is Some {
        law_owner_is_unique(url_bytes(available(fleet)), key, place, filtered_choice.unwrap() as int);
    }
}

} // verus!
