//! Semantic-search and readiness bookkeeping.
use issues_tui::readiness::ReadinessState;
use issues_tui::search::SearchState;

fn ids(v: &[&str]) -> Vec<String> {
    v.iter().map(|s| s.to_string()).collect()
}

#[test]
fn a_search_starts_only_when_it_can_tell_something_new() {
    let mut s = SearchState::new();
    assert_eq!(s.begin("bug", false, ids(&["I_1"])), None, "not a query to send");
    assert_eq!(s.begin("bug", true, ids(&[])), None, "no candidates");
    assert_eq!(s.begin("bug", true, ids(&["I_1", "I_2"])), Some(1));
    // Same query, nothing unjudged: nothing to ask.
    assert_eq!(s.begin("bug", true, ids(&["I_2"])), None);
    // A new candidate joins: ask again, under a fresh generation.
    assert_eq!(s.begin("bug", true, ids(&["I_2", "I_3"])), Some(2));
    // Another query always asks.
    assert_eq!(s.begin("crash", true, ids(&["I_2"])), Some(3));
}

#[test]
fn a_stale_answer_is_dropped() {
    let mut s = SearchState::new();
    let g1 = s.begin("bug", true, ids(&["I_1"])).unwrap();
    s.invalidate();
    assert!(!s.land(g1, Ok(())), "the query changed under it");
    let g2 = s.begin("bug", true, ids(&["I_1"])).unwrap();
    assert!(g2 > g1);
    assert!(s.land(g2, Ok(())));
}

#[test]
fn a_failed_search_latches_off() {
    let mut s = SearchState::new();
    let g = s.begin("bug", true, ids(&["I_1"])).unwrap();
    assert!(!s.land(g, Err("timeout\nmore".into())));
    assert!(s.has_failed());
    assert_eq!(s.begin("other", true, ids(&["I_9"])), None);
    s.reset();
    assert!(!s.has_failed());
    assert!(s.begin("other", true, ids(&["I_9"])).is_some());
}

#[test]
fn readiness_asks_once_per_issue_and_keeps_the_answer() {
    let mut r: ReadinessState<u8> = ReadinessState::new();
    assert!(r.begin("I_1"));
    assert!(!r.begin("I_1"), "a request is already out");
    r.apply("I_1".into(), Ok(7));
    assert_eq!(r.get("I_1"), Some(&7));
    assert!(!r.begin("I_1"), "an answer is kept");
    r.invalidate("I_1");
    assert_eq!(r.get("I_1"), None);
    assert!(r.begin("I_1"));
}

#[test]
fn a_readiness_failure_stops_asking_until_cleared() {
    let mut r: ReadinessState<u8> = ReadinessState::new();
    assert!(r.begin("I_1"));
    r.apply("I_1".into(), Err("down".into()));
    assert!(r.has_failed());
    assert!(!r.begin("I_2"));
    r.clear();
    assert!(!r.has_failed());
    assert!(r.begin("I_2"));
}
