use zerostack::ask_freeze::{
    candidate_sessions, clear_current_session, clear_wrapper_session, current_session_id, dec, inc,
    is_frozen, is_frozen_current, resolve_session, set_current_session, set_wrapper_session,
    task_session, wait_for_session, wait_if_frozen, wrapper_sessions, FreezeState, WaitAction,
};

fn parked_on(action: &WaitAction) -> Option<&str> {
    match action {
        WaitAction::Proceed => None,
        WaitAction::Park { session } => Some(session.as_str()),
    }
}

#[test]
fn task_pin_wins_for_attribution() {
    let mut state = FreezeState::new();
    set_current_session(&mut state, "freeze-test-turn");
    set_wrapper_session(&mut state, "freeze-test-wrapper");
    let pin = Some("freeze-test-pin-a".to_string());
    assert_eq!(
        resolve_session(&state, &pin).as_deref(),
        Some("freeze-test-pin-a")
    );
    assert_eq!(
        candidate_sessions(&state, &pin),
        vec!["freeze-test-pin-a".to_string()]
    );
}

#[test]
fn wrapper_set_remembers_all_sessions() {
    let mut state = FreezeState::new();
    set_wrapper_session(&mut state, "freeze-test-w1");
    set_wrapper_session(&mut state, "freeze-test-w2");
    let all = wrapper_sessions(&state);
    assert!(all.contains(&"freeze-test-w1".to_string()));
    assert!(all.contains(&"freeze-test-w2".to_string()));
    clear_wrapper_session(&mut state, "freeze-test-w1");
    clear_wrapper_session(&mut state, "freeze-test-w2");
    let rest = wrapper_sessions(&state);
    assert!(!rest.contains(&"freeze-test-w1".to_string()));
    assert!(!rest.contains(&"freeze-test-w2".to_string()));
}

#[test]
fn scoped_wait_unblocks_on_dec() {
    let mut state = FreezeState::new();
    let sid = "freeze-test-park-b";
    inc(&mut state, sid);
    assert!(is_frozen(&state, sid));
    let mut waiter = wait_if_frozen(&state, &Some(sid.to_string()));
    assert_eq!(parked_on(&waiter.poll(&mut state)), Some(sid));
    assert!(dec(&mut state, sid));
    assert_eq!(parked_on(&waiter.poll(&mut state)), None);
    assert!(!is_frozen(&state, sid));
}

#[test]
fn each_answer_decrements() {
    let mut state = FreezeState::new();
    inc(&mut state, "s");
    inc(&mut state, "s");
    inc(&mut state, "s");
    dec(&mut state, "s");
    assert!(is_frozen(&state, "s"));
    dec(&mut state, "s");
    assert!(is_frozen(&state, "s"));
    dec(&mut state, "s");
    assert!(!is_frozen(&state, "s"));
}

#[test]
fn surplus_answers_are_ignored() {
    let mut state = FreezeState::new();
    assert!(dec(&mut state, "s"));
    assert!(dec(&mut state, "s"));
    assert!(!is_frozen(&state, "s"));
    inc(&mut state, "s");
    assert!(is_frozen(&state, "s"));
    dec(&mut state, "s");
    assert!(!is_frozen(&state, "s"));
}

#[test]
fn sessions_do_not_share_a_counter() {
    let mut state = FreezeState::new();
    inc(&mut state, "a");
    assert!(is_frozen(&state, "a"));
    assert!(!is_frozen(&state, "b"));
    dec(&mut state, "b");
    assert!(is_frozen(&state, "a"));
}

#[test]
fn the_empty_id_is_inert() {
    let mut state = FreezeState::new();
    inc(&mut state, "");
    assert!(!is_frozen(&state, ""));
    assert!(!dec(&mut state, ""));
    set_wrapper_session(&mut state, "");
    assert!(wrapper_sessions(&state).is_empty());
    assert!(wait_for_session(&mut state, ""));
}

#[test]
fn attribution_falls_back_from_turn_to_lone_wrapper() {
    let mut state = FreezeState::new();
    assert_eq!(resolve_session(&state, &None), None);
    assert!(candidate_sessions(&state, &None).is_empty());
    set_wrapper_session(&mut state, "w1");
    set_wrapper_session(&mut state, "w1");
    assert_eq!(resolve_session(&state, &None).as_deref(), Some("w1"));
    set_current_session(&mut state, "turn");
    assert_eq!(current_session_id(&state).as_deref(), Some("turn"));
    assert_eq!(resolve_session(&state, &None).as_deref(), Some("turn"));
    assert_eq!(candidate_sessions(&state, &None), vec!["turn".to_string()]);
    clear_current_session(&mut state);
    assert_eq!(current_session_id(&state), None);
    set_wrapper_session(&mut state, "w2");
    assert_eq!(resolve_session(&state, &None), None);
    let mut both = candidate_sessions(&state, &None);
    both.sort();
    assert_eq!(both, vec!["w1".to_string(), "w2".to_string()]);
    clear_wrapper_session(&mut state, "w1");
    clear_wrapper_session(&mut state, "unknown");
    assert_eq!(resolve_session(&state, &None).as_deref(), Some("w2"));
}

#[test]
fn ambiguous_callers_are_frozen_by_any_candidate() {
    let mut state = FreezeState::new();
    set_wrapper_session(&mut state, "w1");
    set_wrapper_session(&mut state, "w2");
    assert!(!is_frozen_current(&state, &None));
    inc(&mut state, "w2");
    assert!(is_frozen_current(&state, &None));
    assert!(!is_frozen_current(&state, &Some("w1".to_string())));
    assert!(is_frozen_current(&state, &Some("w2".to_string())));
}

#[test]
fn ambiguous_wait_rechecks_the_whole_set() {
    let mut state = FreezeState::new();
    set_wrapper_session(&mut state, "w1");
    set_wrapper_session(&mut state, "w2");
    inc(&mut state, "w1");
    inc(&mut state, "w2");
    let mut wait = wait_if_frozen(&state, &None);
    let first = match wait.poll(&mut state) {
        WaitAction::Park { session } => session,
        WaitAction::Proceed => panic!("must park"),
    };
    let other = if first == "w1" { "w2" } else { "w1" };
    // Still the same session while it is frozen.
    assert_eq!(parked_on(&wait.poll(&mut state)), Some(first.as_str()));
    dec(&mut state, &first);
    assert_eq!(parked_on(&wait.poll(&mut state)), Some(other));
    // The first session freezes again while parked on the other one.
    inc(&mut state, &first);
    assert_eq!(parked_on(&wait.poll(&mut state)), Some(other));
    dec(&mut state, other);
    assert_eq!(parked_on(&wait.poll(&mut state)), Some(first.as_str()));
    dec(&mut state, &first);
    assert_eq!(parked_on(&wait.poll(&mut state)), None);
}

#[test]
fn a_wait_without_context_proceeds() {
    let mut state = FreezeState::new();
    inc(&mut state, "someone-else");
    let mut wait = wait_if_frozen(&state, &None);
    assert_eq!(parked_on(&wait.poll(&mut state)), None);
}

#[test]
fn one_turn_of_a_single_wait() {
    let mut state = FreezeState::new();
    assert!(wait_for_session(&mut state, "s"));
    inc(&mut state, "s");
    assert!(!wait_for_session(&mut state, "s"));
    dec(&mut state, "s");
    assert!(wait_for_session(&mut state, "s"));
}

#[test]
fn the_pin_is_handed_back() {
    assert_eq!(task_session(&None), None);
    assert_eq!(task_session(&Some("p".to_string())).as_deref(), Some("p"));
}
