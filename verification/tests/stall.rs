use zerostack::stall::{hash_pair, StallTracker, IDENTICAL_REPEATS};

fn args(cmd: &str) -> String {
    let mut map = serde_json::Map::new();
    map.insert("command".to_string(), serde_json::Value::from(cmd));
    serde_json::Value::Object(map).to_string()
}

#[test]
fn three_identical_pairs_trigger() {
    let mut s = StallTracker::new(3);
    for i in 0..2 {
        s.observe_call(&format!("c{i}"), "bash", &args("sleep 2; echo ok"));
        assert!(
            !s.observe_result(&format!("c{i}"), "ok\n"),
            "pair {i} must not trigger"
        );
    }
    s.observe_call("c2", "bash", &args("sleep 2; echo ok"));
    assert!(
        s.observe_result("c2", "ok\n"),
        "third identical pair must trigger"
    );
}

#[test]
fn differing_output_resets() {
    let mut s = StallTracker::new(3);
    for i in 0..2 {
        s.observe_call(&format!("c{i}"), "bash", &args("check"));
        assert!(!s.observe_result(&format!("c{i}"), "ok\n"));
    }
    // Same input, new output: streak restarts, no trigger.
    s.observe_call("c2", "bash", &args("check"));
    assert!(!s.observe_result("c2", "changed\n"));
    // Two more identical to the new pair still only reach streak 2.
    s.observe_call("c3", "bash", &args("check"));
    assert!(!s.observe_result("c3", "changed\n"));
}

#[test]
fn differing_args_reset() {
    let mut s = StallTracker::new(3);
    s.observe_call("c0", "bash", &args("sleep 2; echo ok"));
    assert!(!s.observe_result("c0", "ok\n"));
    s.observe_call("c1", "bash", &args("sleep 4; echo ok"));
    assert!(!s.observe_result("c1", "ok\n"));
    // Back to the first command: streak restarts from 1, no trigger.
    s.observe_call("c2", "bash", &args("sleep 2; echo ok"));
    assert!(!s.observe_result("c2", "ok\n"));
}

#[test]
fn unknown_result_id_is_ignored() {
    let mut s = StallTracker::new(3);
    assert!(!s.observe_result("nope", "ok\n"));
    s.observe_call("c0", "bash", &args("check"));
    assert!(!s.observe_result("c0", "ok\n"));
}

#[test]
fn reset_clears_streak() {
    let mut s = StallTracker::new(3);
    for i in 0..2 {
        s.observe_call(&format!("c{i}"), "bash", &args("check"));
        assert!(!s.observe_result(&format!("c{i}"), "ok\n"));
    }
    s.reset();
    s.observe_call("c2", "bash", &args("check"));
    assert!(!s.observe_result("c2", "ok\n"));
}

#[test]
fn unmatched_results_leave_the_streak_alone() {
    let mut s = StallTracker::new(2);
    s.observe_call("a", "bash", &args("check"));
    assert!(!s.observe_result("a", "ok\n"));
    assert!(!s.observe_result("nope", "other\n"));
    s.observe_call("b", "bash", &args("check"));
    assert!(s.observe_result("b", "ok\n"));
}

#[test]
fn a_result_consumes_its_call() {
    let mut s = StallTracker::new(2);
    s.observe_call("a", "bash", &args("check"));
    assert!(!s.observe_result("a", "ok\n"));
    assert!(!s.observe_result("a", "ok\n"));
    assert!(!s.observe_result("a", "ok\n"));
}

#[test]
fn interleaved_calls_count_in_order_of_results() {
    let mut s = StallTracker::new(IDENTICAL_REPEATS);
    for id in ["a", "b", "c"] {
        s.observe_call(id, "bash", &args("check"));
    }
    assert!(!s.observe_result("c", "ok\n"));
    assert!(!s.observe_result("a", "ok\n"));
    assert!(s.observe_result("b", "ok\n"));
}

#[test]
fn the_limit_is_kept_by_reset() {
    let mut s = StallTracker::new(2);
    s.reset();
    s.observe_call("a", "bash", &args("check"));
    assert!(!s.observe_result("a", "ok\n"));
    s.observe_call("b", "bash", &args("check"));
    assert!(s.observe_result("b", "ok\n"));
}

#[test]
fn a_stalled_tracker_stays_stalled_while_the_pair_repeats() {
    let mut s = StallTracker::new(1);
    for i in 0..5 {
        s.observe_call(&format!("c{i}"), "bash", &args("check"));
        assert!(s.observe_result(&format!("c{i}"), "ok\n"));
    }
}

#[test]
fn tool_and_args_are_kept_apart() {
    let mut s = StallTracker::new(2);
    s.observe_call("a", "bashx", "y");
    assert!(!s.observe_result("a", "ok\n"));
    s.observe_call("b", "bash", "xy");
    assert!(!s.observe_result("b", "ok\n"));
}

#[test]
fn pair_hash_depends_on_both_parts() {
    assert_eq!(hash_pair(7, "ok\n"), hash_pair(7, "ok\n"));
    assert_ne!(hash_pair(7, "ok\n"), hash_pair(8, "ok\n"));
    assert_ne!(hash_pair(7, "ok\n"), hash_pair(7, "changed\n"));
}

#[test]
fn a_limit_of_zero_stops_at_every_completed_pair() {
    let mut s = StallTracker::new(0);
    assert!(!s.observe_result("nope", "ok\n"));
    s.observe_call("a", "bash", &args("check"));
    assert!(s.observe_result("a", "ok\n"));
    s.observe_call("b", "bash", &args("other"));
    assert!(s.observe_result("b", "changed\n"));
}
