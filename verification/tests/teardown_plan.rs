//! Whose session is ended.

use construct_core::orchestration::teardown_plan::{
    plan_teardown, TeardownAction, TeardownDecision,
};

fn ids(v: &[&str]) -> Vec<String> {
    v.iter().map(|s| s.to_string()).collect()
}

fn actions(d: &[TeardownDecision]) -> Vec<TeardownAction> {
    d.iter().map(|x| x.action).collect()
}

#[test]
fn only_the_device_we_have_a_session_with_is_condemned() {
    let plan = plan_teardown(&ids(&["aa", "bb"]), &ids(&["aa"]), false);
    assert_eq!(
        actions(&plan),
        vec![TeardownAction::SendAndArchive, TeardownAction::Skip]
    );
}

#[test]
fn evidence_makes_a_sessionless_device_worth_telling() {
    let plan = plan_teardown(&ids(&["aa", "bb"]), &ids(&["aa"]), true);
    assert_eq!(
        actions(&plan),
        vec![TeardownAction::SendAndArchive, TeardownAction::SendOnly]
    );
}

#[test]
fn nothing_to_condemn_and_no_evidence_is_silence() {
    let plan = plan_teardown(&ids(&["aa"]), &[], false);
    assert_eq!(actions(&plan), vec![TeardownAction::Skip]);
}

#[test]
fn duplicates_collapse_to_the_first_occurrence() {
    let plan = plan_teardown(&ids(&["aa", "bb", "aa"]), &ids(&["aa"]), false);
    assert_eq!(
        plan,
        vec![
            TeardownDecision {
                device_id: "aa".into(),
                action: TeardownAction::SendAndArchive
            },
            TeardownDecision {
                device_id: "bb".into(),
                action: TeardownAction::Skip
            },
        ]
    );
}

#[test]
fn caller_order_is_preserved() {
    let plan = plan_teardown(&ids(&["cc", "aa", "bb"]), &ids(&["aa", "bb", "cc"]), false);
    assert_eq!(
        plan.iter()
            .map(|d| d.device_id.as_str())
            .collect::<Vec<_>>(),
        vec!["cc", "aa", "bb"]
    );
}

#[test]
fn empty_ids_are_not_targets() {
    let plan = plan_teardown(&ids(&["", "aa"]), &ids(&["aa"]), true);
    assert_eq!(
        plan.iter()
            .map(|d| d.device_id.as_str())
            .collect::<Vec<_>>(),
        vec!["aa"]
    );
}

#[test]
fn no_candidates_is_an_empty_plan_even_with_evidence() {
    assert!(plan_teardown(&[], &ids(&["aa"]), true).is_empty());
}
