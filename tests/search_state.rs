use vanity::search_state::{SearchState, WorkerPhase};

#[test]
fn fresh_state_is_idle_and_empty() {
    let s = SearchState::new(5, 3);
    assert_eq!(s.generated_count(), 0);
    assert_eq!(s.found_count(), 0);
    assert_eq!(s.target_count(), 5);
    assert_eq!(s.worker_count(), 3);
    for w in 0..3 {
        assert_eq!(s.worker_phase(w), WorkerPhase::Idle);
        assert_eq!(s.worker_unmatched(w), 0);
    }
    assert!(!s.should_stop());
}

#[test]
fn zero_target_stops_every_worker_at_once() {
    let mut s = SearchState::new(0, 2);
    assert!(s.should_stop());
    assert!(!s.begin_round(0));
    assert!(!s.begin_round(1));
    assert_eq!(s.worker_phase(0), WorkerPhase::Done);
    assert_eq!(s.worker_phase(1), WorkerPhase::Done);
    assert_eq!(s.found_count(), 0);
    assert_eq!(s.generated_count(), 0);
}

#[test]
fn a_round_counts_generated_and_found() {
    let mut s = SearchState::new(3, 1);
    assert!(s.begin_round(0));
    assert_eq!(s.worker_phase(0), WorkerPhase::Searching);
    s.record_generated(0, 1000);
    assert_eq!(s.generated_count(), 1000);
    assert_eq!(s.worker_unmatched(0), 1000);
    assert!(!s.record_match(0));
    assert_eq!(s.found_count(), 1);
    assert_eq!(s.worker_unmatched(0), 999);
    s.end_round(0);
    assert_eq!(s.worker_phase(0), WorkerPhase::Idle);
    assert_eq!(s.worker_unmatched(0), 0);
    assert_eq!(s.generated_count(), 1000);
}

#[test]
fn reaching_the_target_stops_the_worker() {
    let mut s = SearchState::new(2, 1);
    assert!(s.begin_round(0));
    s.record_generated(0, 10);
    assert!(!s.record_match(0));
    assert!(s.record_match(0));
    assert_eq!(s.worker_phase(0), WorkerPhase::Done);
    assert!(s.should_stop());
    assert_eq!(s.found_count(), 2);
}

#[test]
fn racing_workers_overshoot_by_at_most_one_each() {
    // All four workers see the target unmet, then each reports a match.
    let mut s = SearchState::new(1, 4);
    for w in 0..4 {
        assert!(s.begin_round(w));
        s.record_generated(w, 1000);
    }
    for w in 0..4 {
        assert!(s.record_match(w));
        assert_eq!(s.worker_phase(w), WorkerPhase::Done);
    }
    assert_eq!(s.found_count(), 4);
    assert!(s.found_count() <= s.target_count() + (s.worker_count() as u64 - 1));
    assert!(s.generated_count() >= s.found_count());
}

#[test]
fn counters_never_decrease() {
    let mut s = SearchState::new(10, 2);
    let mut last = (0u64, 0u64);
    for round in 0..3u64 {
        for w in 0..2 {
            assert!(s.begin_round(w));
            s.record_generated(w, 5 + round);
            let now = (s.generated_count(), s.found_count());
            assert!(now.0 >= last.0 && now.1 >= last.1);
            last = now;
            assert!(!s.record_match(w));
            let now = (s.generated_count(), s.found_count());
            assert!(now.0 >= last.0 && now.1 >= last.1);
            assert!(now.0 >= now.1);
            last = now;
            s.end_round(w);
        }
    }
    assert_eq!(s.found_count(), 6);
    assert_eq!(s.generated_count(), 2 * (5 + 6 + 7));
}

#[test]
fn stop_signal_stays_on() {
    let mut s = SearchState::new(1, 2);
    assert!(s.begin_round(0));
    assert!(s.begin_round(1));
    s.record_generated(0, 3);
    s.record_generated(1, 3);
    assert!(s.record_match(0));
    assert!(s.should_stop());
    assert!(s.record_match(1));
    assert!(s.should_stop());
    assert_eq!(s.found_count(), 2);
}

#[test]
fn single_worker_finds_exactly_the_target() {
    let mut s = SearchState::new(3, 1);
    let mut rounds = 0;
    while s.begin_round(0) {
        s.record_generated(0, 2);
        let mut stopped = false;
        for _ in 0..2 {
            if s.record_match(0) {
                stopped = true;
                break;
            }
        }
        if stopped {
            break;
        }
        s.end_round(0);
        rounds += 1;
    }
    assert_eq!(rounds, 1);
    assert!(s.should_stop());
    assert_eq!(s.found_count(), 3);
    assert_eq!(s.generated_count(), 4);
}
