//! In which order sessions are tried.

use construct_core::orchestration::receiving_decrypt_plan::plan_receiving_decrypt;

fn ids(v: &[&str]) -> Vec<String> {
    v.iter().map(|s| s.to_string()).collect()
}

#[test]
fn the_last_device_to_decrypt_is_tried_first() {
    assert_eq!(
        plan_receiving_decrypt(&ids(&["a", "b", "c"]), "b"),
        ids(&["b", "a", "c"])
    );
}

#[test]
fn every_session_we_hold_is_tried() {
    assert_eq!(
        plan_receiving_decrypt(&ids(&["a", "b"]), ""),
        ids(&["a", "b"])
    );
}

#[test]
fn an_unknown_preference_does_not_narrow_the_plan() {
    assert_eq!(
        plan_receiving_decrypt(&ids(&["a", "b"]), "gone"),
        ids(&["a", "b"])
    );
}

#[test]
fn the_preferred_device_is_not_tried_twice() {
    let plan = plan_receiving_decrypt(&ids(&["a", "b"]), "a");
    assert_eq!(plan, ids(&["a", "b"]));
    assert_eq!(plan.iter().filter(|id| *id == "a").count(), 1);
}

#[test]
fn duplicates_in_the_input_collapse() {
    assert_eq!(
        plan_receiving_decrypt(&ids(&["a", "b", "a"]), ""),
        ids(&["a", "b"])
    );
}

#[test]
fn receiving_decrypt_plan_empty_ids_are_dropped() {
    assert_eq!(
        plan_receiving_decrypt(&ids(&["", "a", ""]), ""),
        ids(&["a"])
    );
}

#[test]
fn an_empty_preference_reorders_nothing() {
    assert_eq!(
        plan_receiving_decrypt(&ids(&["a", "b"]), ""),
        ids(&["a", "b"])
    );
}

#[test]
fn no_sessions_is_an_empty_plan() {
    assert!(plan_receiving_decrypt(&[], "a").is_empty());
}

#[test]
fn one_session_is_one_attempt() {
    assert_eq!(plan_receiving_decrypt(&ids(&["a"]), "a"), ids(&["a"]));
    assert_eq!(plan_receiving_decrypt(&ids(&["a"]), ""), ids(&["a"]));
}
