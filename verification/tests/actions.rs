//! Actions and events.

use construct_core::orchestration::actions::{
    Action, IncomingEvent, ReceiptStatus, SecureStoreSlot,
};

#[test]
fn test_action_debug() {
    let a = Action::SaveToSecureStore {
        slot: SecureStoreSlot::Session {
            contact_id: "bob".to_string(),
        },
        data: vec![1, 2, 3],
    };
    let s = format!("{:?}", a);
    assert!(s.contains("SaveToSecureStore"));
    assert!(s.contains("bob"));
    assert!(
        !s.contains("session_bob"),
        "the core must not format a storage key: {s}"
    );
}

#[test]
fn test_receipt_status_variants() {
    let statuses = [
        ReceiptStatus::Sent,
        ReceiptStatus::Delivered,
        ReceiptStatus::Read,
        ReceiptStatus::Failed,
    ];
    for s in &statuses {
        let _ = format!("{:?}", s);
    }
}

#[test]
fn test_incoming_event_clone() {
    let ev = IncomingEvent::AckReceived {
        message_id: "abc-123".to_string(),
    };
    let ev2 = ev.clone();
    assert!(matches!(ev2, IncomingEvent::AckReceived { .. }));
}
