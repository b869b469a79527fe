//! Routing with headers and availability filtering: headers reach the
//! consistent-hash policy, and workers are filtered by `is_available()`
//! before a worker is selected.

use std::collections::HashMap;
use std::collections::HashSet;

use http::HeaderMap;
use http::HeaderValue;
use vllm_router_rs::policies::consistent_hash::ConsistentHashPolicy;
use vllm_router_rs::policies::headers::RequestHeaders;
use vllm_router_rs::worker::BasicWorker;
use vllm_router_rs::worker::WorkerType;

/// Helper to create test workers
fn create_workers(n: usize) -> Vec<BasicWorker> {
    (0..n)
        .map(|i| BasicWorker::new(format!("http://worker{}:8080", i + 1), WorkerType::Regular))
        .collect()
}

/// Helper to build RequestHeaders from key-value pairs
fn make_headers(pairs: &[(&str, &str)]) -> RequestHeaders {
    RequestHeaders::from_pairs(
        pairs
            .iter()
            .map(|(k, v)| (k.to_string(), v.to_string()))
            .collect(),
    )
}

/// The inline pattern that turns transport headers into policy headers.
fn convert(header_map: &HeaderMap) -> HashMap<String, String> {
    header_map
        .iter()
        .filter_map(|(name, value)| {
            value
                .to_str()
                .ok()
                .map(|v| (name.as_str().to_lowercase(), v.to_string()))
        })
        .collect()
}

fn request_headers(converted: &HashMap<String, String>) -> RequestHeaders {
    RequestHeaders::from_pairs(
        converted
            .iter()
            .map(|(k, v)| (k.clone(), v.clone()))
            .collect(),
    )
}

#[test]
fn test_availability_filter_excludes_unhealthy_workers() {
    let policy = ConsistentHashPolicy::new();
    let mut workers = create_workers(3);

    // Mark worker1 as unhealthy
    workers[0].set_healthy(false);

    // Filter by availability
    let available: Vec<BasicWorker> = workers
        .iter()
        .filter(|w| w.is_available())
        .cloned()
        .collect();

    assert_eq!(available.len(), 2, "Only 2 of 3 workers should be available");

    // Policy should still work with filtered workers
    let headers = make_headers(&[("x-session-id", "test-session")]);
    let result = policy.select_worker_with_headers(
        &available,
        Some(r#"{"prompt": "test"}"#),
        Some(&headers),
    );
    assert!(result.is_some(), "Should select from available workers");

    let idx = result.unwrap();
    assert!(available[idx].is_healthy(), "Selected worker must be healthy");
}

#[test]
fn test_availability_filter_returns_empty_when_all_unhealthy() {
    let mut workers = create_workers(3);

    // Mark all workers as unhealthy
    for w in &mut workers {
        w.set_healthy(false);
    }

    let available: Vec<BasicWorker> = workers
        .iter()
        .filter(|w| w.is_available())
        .cloned()
        .collect();

    assert!(
        available.is_empty(),
        "No workers should be available when all are unhealthy"
    );

    // Policy should return None for empty list
    let policy = ConsistentHashPolicy::new();
    let result = policy.select_worker_with_headers(&available, None, None);
    assert!(result.is_none(), "Should return None for empty worker list");
}

#[test]
fn test_session_id_header_produces_sticky_routing() {
    let policy = ConsistentHashPolicy::new();
    let workers = create_workers(5);

    let headers = make_headers(&[("x-session-id", "my-sticky-session")]);

    let mut selected: Vec<usize> = Vec::new();
    for i in 0..20 {
        let body = format!(
            r#"{{"prompt": "different prompt {}", "model": "default"}}"#,
            i
        );
        if let Some(idx) = policy.select_worker_with_headers(&workers, Some(&body), Some(&headers))
        {
            selected.push(idx);
        }
    }

    // All requests with the same session ID should route to the same worker
    assert!(!selected.is_empty());
    let first = selected[0];
    for (i, &idx) in selected.iter().enumerate() {
        assert_eq!(
            idx, first,
            "Request {} routed to worker {}, expected {} (session stickiness broken)",
            i, idx, first
        );
    }
}

#[test]
fn test_without_headers_uses_body_fallback() {
    let policy = ConsistentHashPolicy::new();
    let workers = create_workers(3);

    // Without headers, consistent hash should fall back to body content
    let body = r#"{"session_params": {"session_id": "body-session"}, "prompt": "test"}"#;

    let mut selected: Vec<usize> = Vec::new();
    for _ in 0..10 {
        if let Some(idx) = policy.select_worker_with_headers(&workers, Some(body), None) {
            selected.push(idx);
        }
    }

    // Same body → same worker (body fallback is deterministic)
    assert!(!selected.is_empty());
    let first = selected[0];
    for &idx in &selected {
        assert_eq!(idx, first, "Body fallback should be deterministic");
    }
}

#[test]
fn test_header_session_id_takes_priority_over_body_session_id() {
    let policy = ConsistentHashPolicy::new();
    let workers = create_workers(5);

    let header_session = "header-session-wins";
    let body_session = "body-session-ignored";

    let headers = make_headers(&[("x-session-id", header_session)]);
    let body = format!(
        r#"{{"session_params": {{"session_id": "{}"}}, "prompt": "test"}}"#,
        body_session
    );

    // Route with both header and body session ID
    let with_both = policy
        .select_worker_with_headers(&workers, Some(&body), Some(&headers))
        .expect("Should select a worker");

    // Route with header only (different body)
    let header_only = policy
        .select_worker_with_headers(
            &workers,
            Some(r#"{"prompt": "completely different"}"#),
            Some(&headers),
        )
        .expect("Should select a worker");

    assert_eq!(
        with_both, header_only,
        "Header x-session-id should take priority - different body should not change routing"
    );
}

#[test]
fn test_sticky_routing_with_availability_filtering() {
    let policy = ConsistentHashPolicy::new();
    let workers = create_workers(4);

    // Initial routing with all workers available
    let headers = make_headers(&[("x-session-id", "stable-session")]);
    let body = r#"{"prompt": "test"}"#;

    let initial_idx = policy
        .select_worker_with_headers(&workers, Some(body), Some(&headers))
        .expect("Should select a worker");

    // Now filter by availability
    let available: Vec<BasicWorker> = workers
        .iter()
        .filter(|w| w.is_available())
        .cloned()
        .collect();

    // Should get the same worker since all are still available
    let after_filter_idx = policy
        .select_worker_with_headers(&available, Some(body), Some(&headers))
        .expect("Should select a worker");

    assert_eq!(
        workers[initial_idx].url(),
        available[after_filter_idx].url(),
        "Same session ID should route to same worker URL when all workers are available"
    );
}

#[test]
fn test_distribution_with_headers_across_sessions() {
    let policy = ConsistentHashPolicy::new();
    let workers = create_workers(3);

    let mut worker_urls: HashSet<String> = HashSet::new();

    for i in 0..100 {
        let session = format!("unique-session-{}", i);
        let headers = make_headers(&[("x-session-id", &session)]);

        if let Some(idx) = policy.select_worker_with_headers(
            &workers,
            Some(r#"{"prompt": "test"}"#),
            Some(&headers),
        ) {
            worker_urls.insert(workers[idx].url().to_string());
        }
    }

    // With 100 different sessions and 3 workers, all workers should be used
    assert!(
        worker_urls.len() >= 2,
        "Expected distribution, only used {} workers: {:?}",
        worker_urls.len(),
        worker_urls
    );
}

#[test]
fn test_inline_header_conversion_lowercases_keys() {
    let mut header_map = HeaderMap::new();
    header_map.insert("X-Session-Id", HeaderValue::from_static("abc-123"));
    header_map.insert("X-USER-ID", HeaderValue::from_static("user-456"));
    header_map.insert("content-type", HeaderValue::from_static("application/json"));

    let converted: Option<HashMap<String, String>> = Some(&header_map).map(convert);

    let headers = converted.unwrap();

    // header names arrive in lower case already, but the conversion's own
    // to_lowercase() has to be idempotent and correct
    assert_eq!(headers.get("x-session-id").unwrap(), "abc-123");
    assert_eq!(headers.get("x-user-id").unwrap(), "user-456");
    assert_eq!(headers.get("content-type").unwrap(), "application/json");

    // and the policy's headers hold the same
    let policy_headers = request_headers(&headers);
    assert_eq!(policy_headers.get("x-session-id").unwrap(), "abc-123");
    assert_eq!(policy_headers.get("x-user-id").unwrap(), "user-456");
    assert_eq!(policy_headers.get("content-type").unwrap(), "application/json");
    assert!(policy_headers.get("X-Session-Id").is_none());
}

#[test]
fn test_inline_header_conversion_used_by_policy() {
    let policy = ConsistentHashPolicy::new();
    let workers = create_workers(3);

    // Convert via the inline pattern
    let mut header_map = HeaderMap::new();
    header_map.insert(
        "x-session-id",
        HeaderValue::from_static("policy-test-session"),
    );

    let converted: Option<HashMap<String, String>> = Some(&header_map).map(convert);
    let request_headers: Option<RequestHeaders> = converted.as_ref().map(request_headers);

    // Use the converted headers with the policy
    let mut selected: Vec<usize> = Vec::new();
    for i in 0..10 {
        let body = format!(r#"{{"prompt": "request {}"}}"#, i);
        if let Some(idx) =
            policy.select_worker_with_headers(&workers, Some(&body), request_headers.as_ref())
        {
            selected.push(idx);
        }
    }

    // All should go to the same worker (session stickiness via header)
    assert!(!selected.is_empty());
    let first = selected[0];
    for &idx in &selected {
        assert_eq!(
            idx, first,
            "Inline header conversion should produce sticky routing"
        );
    }

    // Also verify with make_headers helper
    let direct_headers = make_headers(&[("x-session-id", "policy-test-session")]);
    let direct_result = policy
        .select_worker_with_headers(
            &workers,
            Some(r#"{"prompt": "request 0"}"#),
            Some(&direct_headers),
        )
        .expect("Direct headers should work");

    assert_eq!(
        workers[first].url(),
        workers[direct_result].url(),
        "Inline conversion and direct headers should route to the same worker"
    );
}

fn prefill_workers() -> Vec<BasicWorker> {
    (0..3)
        .map(|i| {
            BasicWorker::new(
                format!("http://prefill{}:8080", i + 1),
                WorkerType::Prefill {
                    bootstrap_port: None,
                },
            )
        })
        .collect()
}

fn decode_workers() -> Vec<BasicWorker> {
    (0..3)
        .map(|i| BasicWorker::new(format!("http://decode{}:8080", i + 1), WorkerType::Decode))
        .collect()
}

#[test]
fn test_pd_mode_worker_pair_with_headers() {
    let policy = ConsistentHashPolicy::new();

    let prefill_workers = prefill_workers();
    let decode_workers = decode_workers();

    let headers = make_headers(&[("x-session-id", "pd-session")]);
    let body = r#"{"prompt": "test"}"#;

    // select_worker_with_headers on each pool
    let prefill_idx = policy
        .select_worker_with_headers(&prefill_workers, Some(body), Some(&headers))
        .expect("Should select prefill worker");

    let decode_idx = policy
        .select_worker_with_headers(&decode_workers, Some(body), Some(&headers))
        .expect("Should select decode worker");

    // Verify consistency: same session → same workers
    let prefill_idx2 = policy
        .select_worker_with_headers(&prefill_workers, Some(body), Some(&headers))
        .expect("Should select prefill worker again");

    let decode_idx2 = policy
        .select_worker_with_headers(&decode_workers, Some(body), Some(&headers))
        .expect("Should select decode worker again");

    assert_eq!(
        prefill_idx, prefill_idx2,
        "Prefill selection should be consistent"
    );
    assert_eq!(
        decode_idx, decode_idx2,
        "Decode selection should be consistent"
    );

    // Verify the workers are valid
    assert!(prefill_idx < prefill_workers.len());
    assert!(decode_idx < decode_workers.len());
}

#[test]
fn test_pd_mode_availability_filtering() {
    let mut prefill_workers = prefill_workers();
    let mut decode_workers = decode_workers();

    // Mark one prefill and one decode worker as unhealthy
    prefill_workers[0].set_healthy(false);
    decode_workers[1].set_healthy(false);

    // Filter by availability
    let available_prefill: Vec<BasicWorker> = prefill_workers
        .iter()
        .filter(|w| w.is_available())
        .cloned()
        .collect();

    let available_decode: Vec<BasicWorker> = decode_workers
        .iter()
        .filter(|w| w.is_available())
        .cloned()
        .collect();

    assert_eq!(
        available_prefill.len(),
        2,
        "2 of 3 prefill workers should be available"
    );
    assert_eq!(
        available_decode.len(),
        2,
        "2 of 3 decode workers should be available"
    );

    // Policy should select from available workers only
    let policy = ConsistentHashPolicy::new();
    let headers = make_headers(&[("x-session-id", "pd-avail-test")]);

    let prefill_idx = policy
        .select_worker_with_headers(
            &available_prefill,
            Some(r#"{"prompt": "test"}"#),
            Some(&headers),
        )
        .expect("Should select available prefill worker");

    let decode_idx = policy
        .select_worker_with_headers(
            &available_decode,
            Some(r#"{"prompt": "test"}"#),
            Some(&headers),
        )
        .expect("Should select available decode worker");

    assert!(available_prefill[prefill_idx].is_healthy());
    assert!(available_decode[decode_idx].is_healthy());
}
