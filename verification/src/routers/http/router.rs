//! The routing decision: filter the fleet by availability, then let the
//! policy pick. In prefill/decode mode the same is done once per role, with
//! the same request, so that a session lands on the same pair.

use crate::policies::affinity::body_text;
use crate::policies::affinity::header_values;
use crate::policies::consistent_hash::law_selection_is_determined;
use crate::policies::headers::RequestHeaders;
use crate::policies::LoadBalancingPolicy;
use crate::routers::http::pd_types::PDRouterError;
use crate::worker::available;
use crate::worker::available_workers;
use crate::worker::law_available_are_healthy;
use crate::worker::views;
use crate::worker::BasicWorker;
use crate::worker::WorkerView;
use vstd::prelude::*;

verus! {

/// Whether `worker` is an answer of `policy` for a request, picked among
/// the available workers of `fleet`.
pub open spec fn picked_from(
    policy: LoadBalancingPolicy,
    fleet: Seq<WorkerView>,
    body: Option<Seq<char>>,
    headers: Option<Map<Seq<char>, Seq<char>>>,
    worker: WorkerView,
) -> bool {
    exists|i: usize|
        i < available(fleet).len() && #[trigger] available(fleet)[i as int] == worker
            && policy.allows(available(fleet), body, headers, Some(i))
}

/// Picks the worker for a request from `fleet`. Fails with
/// `NoAvailableWorker` if, and only if, no worker of `fleet` is available.
pub fn route(
    policy: &LoadBalancingPolicy,
    fleet: &Vec<BasicWorker>,
    body: Option<&str>,
    headers: Option<&RequestHeaders>,
) -> (routed: Result<BasicWorker, PDRouterError>)
    ensures
        routed is Err <==> available(views(fleet@)).len() == 0,
        routed is Err ==> routed->Err_0 is NoAvailableWorker,
        routed is Ok ==> routed->Ok_0@.healthy,
        routed is Ok ==> picked_from(
            *policy,
            views(fleet@),
            body_text(body),
            header_values(headers),
            routed->Ok_0@,
        ),
{
    let candidates = available_workers(fleet);
    match policy.select_worker_with_headers(&candidates, body, headers) {
        Some(index) => {
            proof {
                law_available_are_healthy(views(fleet@), index as int);
                assert(available(views(fleet@))[index as int] == candidates@[index as int]@);
            }
            Ok(candidates[index].clone())
        },
        None => Err(PDRouterError::NoAvailableWorker),
    }
}

/// Picks the prefill worker and the decode worker for a request, each from
/// the fleet of its role. Fails with `NoAvailableWorker` if, and only if, one
/// of the two fleets has no available worker.
pub fn route_pair(
    policy: &LoadBalancingPolicy,
    prefill_fleet: &Vec<BasicWorker>,
    decode_fleet: &Vec<BasicWorker>,
    body: Option<&str>,
    headers: Option<&RequestHeaders>,
) -> (routed: Result<(BasicWorker, BasicWorker), PDRouterError>)
    ensures
        routed is Err <==> available(views(prefill_fleet@)).len() == 0 || available(
            views(decode_fleet@),
        ).len() == 0,
        routed is Err ==> routed->Err_0 is NoAvailableWorker,
        routed is Ok ==> routed->Ok_0.0@.healthy && routed->Ok_0.1@.healthy,
        routed is Ok ==> picked_from(
            *policy,
            views(prefill_fleet@),
            body_text(body),
            header_values(headers),
            routed->Ok_0.0@,
        ),
        routed is Ok ==> picked_from(
            *policy,
            views(decode_fleet@),
            body_text(body),
            header_values(headers),
            routed->Ok_0.1@,
        ),
{
    let prefill = route(policy, prefill_fleet, body, headers);
    let decode = route(policy, decode_fleet, body, headers);
    match (prefill, decode) {
        (Ok(prefill_worker), Ok(decode_worker)) => Ok((prefill_worker, decode_worker)),
        _ => Err(PDRouterError::NoAvailableWorker),
    }
}

/// Whatever the policy, what it picks from the available workers of a fleet
/// is a healthy worker.
pub proof fn law_choice_among_available_is_healthy(
    policy: LoadBalancingPolicy,
    fleet: Seq<WorkerView>,
    body: Option<Seq<char>>,
    headers: Option<Map<Seq<char>, Seq<char>>>,
    choice: usize,
)
    requires
        policy.allows(available(fleet), body, headers, Some(choice)),
    ensures
        choice < available(fleet).len(),
        available(fleet)[choice as int].healthy,
{
    law_available_are_healthy(fleet, choice as int);
}

/// Under consistent hashing a request has one destination: routing the same
/// request over the same fleet again gives the same worker.
pub proof fn law_consistent_route_is_determined(
    policy: LoadBalancingPolicy,
    fleet: Seq<WorkerView>,
    body: Option<Seq<char>>,
    headers: Option<Map<Seq<char>, Seq<char>>>,
    first: WorkerView,
    second: WorkerView,
)
    requires
        policy is ConsistentHash,
        picked_from(policy, fleet, body, headers, first),
        picked_from(policy, fleet, body, headers, second),
    ensures
        first == second,
{
    let i = choose|i: usize|
        i < available(fleet).len() && #[trigger] available(fleet)[i as int] == first
            && policy.allows(available(fleet), body, headers, Some(i));
    let j = choose|j: usize|
        j < available(fleet).len() && #[trigger] available(fleet)[j as int] == second
            && policy.allows(available(fleet), body, headers, Some(j));
    law_selection_is_determined(available(fleet), body, headers, Some(i), Some(j));
}

} // verus!
