//! Endpoint-selector behavior: override wins, first healthy candidate wins,
//! all-unhealthy falls back to the default, probing is bounded.

use txflow::endpoint::{select_endpoint, EndpointSelector, PROBE_TIMEOUT_SECS};

fn urls(names: &[&str]) -> Vec<String> {
    names.iter().map(|s| s.to_string()).collect()
}

#[test]
fn all_unhealthy_falls_back_to_default() {
    let candidates = urls(&["http://a", "http://b", "http://c"]);
    let outcomes = vec![false, false, false];
    let picked = select_endpoint(None, candidates, &outcomes, "http://default".to_string());
    assert_eq!(picked, "http://default");
}

#[test]
fn first_healthy_candidate_wins() {
    let candidates = urls(&["http://a", "http://b", "http://c"]);
    let outcomes = vec![false, true, true];
    let picked = select_endpoint(None, candidates, &outcomes, "http://default".to_string());
    assert_eq!(picked, "http://b");
}

#[test]
fn override_wins_unchecked() {
    let candidates = urls(&["http://a"]);
    let outcomes = vec![true];
    let picked = select_endpoint(
        Some("http://forced".to_string()),
        candidates,
        &outcomes,
        "http://default".to_string(),
    );
    assert_eq!(picked, "http://forced");
}

#[test]
fn empty_candidate_list_falls_back() {
    let picked = select_endpoint(None, Vec::new(), &Vec::new(), "http://default".to_string());
    assert_eq!(picked, "http://default");
}

#[test]
fn selector_machine_walks_candidates_in_order() {
    let mut sel = EndpointSelector::new(
        urls(&["http://a", "http://b"]),
        "http://default".to_string(),
    );
    assert_eq!(sel.remaining(), 2);
    assert_eq!(sel.next_to_probe(), Some("http://a".to_string()));
    assert_eq!(sel.record_probe(false), None);
    assert_eq!(sel.remaining(), 1);
    assert_eq!(sel.next_to_probe(), Some("http://b".to_string()));
    assert_eq!(sel.record_probe(true), Some("http://b".to_string()));
}

#[test]
fn selector_machine_exhausts_and_falls_back() {
    let mut sel = EndpointSelector::new(urls(&["http://a"]), "http://default".to_string());
    assert_eq!(sel.record_probe(false), None);
    assert_eq!(sel.next_to_probe(), None);
    assert_eq!(sel.remaining(), 0);
    assert_eq!(sel.fallback(), "http://default");
}

#[test]
fn probe_budget_is_eight_seconds() {
    assert_eq!(PROBE_TIMEOUT_SECS, 8);
}
