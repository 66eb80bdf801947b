//! Who gets a copy.

use construct_core::orchestration::send_plan::{plan_send, DeliveryAudience, DeliveryTarget};

fn ids(v: &[&str]) -> Vec<String> {
    v.iter().map(|s| s.to_string()).collect()
}

fn plan(t: &[DeliveryTarget]) -> Vec<(&str, DeliveryAudience)> {
    t.iter()
        .map(|x| (x.device_id.as_str(), x.audience))
        .collect()
}

#[test]
fn recipients_first_then_replicas() {
    let targets = plan_send(
        &ids(&["them1", "them2"]),
        &ids(&["me", "mine2"]),
        "me",
        false,
    );
    assert_eq!(
        plan(&targets),
        vec![
            ("them1", DeliveryAudience::Recipient),
            ("them2", DeliveryAudience::Recipient),
            ("mine2", DeliveryAudience::OwnReplica),
        ]
    );
}

#[test]
fn our_own_device_is_never_a_target() {
    let targets = plan_send(&[], &ids(&["me", "mine2"]), "me", true);
    assert_eq!(
        plan(&targets),
        vec![("mine2", DeliveryAudience::OwnReplica)]
    );
}

#[test]
fn an_unknown_own_device_plans_no_replicas() {
    let targets = plan_send(&ids(&["them1"]), &ids(&["a", "b"]), "", false);
    assert_eq!(plan(&targets), vec![("them1", DeliveryAudience::Recipient)]);
}

#[test]
fn a_note_to_self_plans_replicas_only() {
    let targets = plan_send(&ids(&["me", "mine2"]), &ids(&["me", "mine2"]), "me", true);
    assert_eq!(
        plan(&targets),
        vec![("mine2", DeliveryAudience::OwnReplica)]
    );
}

#[test]
fn a_device_is_planned_once() {
    let targets = plan_send(&ids(&["x"]), &ids(&["x", "me"]), "me", false);
    assert_eq!(plan(&targets), vec![("x", DeliveryAudience::Recipient)]);
}

#[test]
fn send_plan_empty_ids_are_dropped() {
    let targets = plan_send(
        &ids(&["", "them1"]),
        &ids(&["", "mine2", "me"]),
        "me",
        false,
    );
    assert_eq!(
        plan(&targets),
        vec![
            ("them1", DeliveryAudience::Recipient),
            ("mine2", DeliveryAudience::OwnReplica),
        ]
    );
}

#[test]
fn nothing_to_copy_is_an_empty_plan() {
    assert!(plan_send(&[], &ids(&["me"]), "me", false).is_empty());
}

#[test]
fn this_device_is_no_target_of_either_list() {
    assert!(plan_send(&ids(&["me"]), &ids(&["me"]), "me", false).is_empty());
    let targets = plan_send(&ids(&["me", "them"]), &ids(&["mine2", "me"]), "me", false);
    assert_eq!(
        plan(&targets),
        vec![("them", DeliveryAudience::Recipient), ("mine2", DeliveryAudience::OwnReplica)]
    );
}
