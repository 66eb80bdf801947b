//! Which first message is tried against which bundle.

use construct_core::orchestration::receiving_init_plan::{
    plan_receiving_init, receiving_init_kind, ReceivingInitAttempt, ReceivingInitCarrier,
    ReceivingInitKind,
};

fn carrier(message_number: u32) -> ReceivingInitCarrier {
    ReceivingInitCarrier {
        message_number,
        one_time_prekey_id: 0,
        kem_ciphertext_bytes: 0,
        pq_message_epoch: 0,
        is_session_reset_init: false,
    }
}

fn pairs(plan: &[ReceivingInitAttempt]) -> Vec<(u32, u32)> {
    plan.iter()
        .map(|a| (a.carrier_index, a.bundle_index))
        .collect()
}

#[test]
fn a_mid_ratchet_message_never_opens_a_session() {
    assert_eq!(
        receiving_init_kind(&carrier(3)),
        ReceivingInitKind::MidRatchet
    );
}

#[test]
fn a_bare_first_message_is_a_handshake() {
    assert_eq!(
        receiving_init_kind(&carrier(0)),
        ReceivingInitKind::Handshake
    );
}

#[test]
fn an_otpk_id_or_a_kem_ciphertext_proves_a_handshake() {
    let mut with_otpk = carrier(0);
    with_otpk.one_time_prekey_id = 1_000_461;
    assert_eq!(
        receiving_init_kind(&with_otpk),
        ReceivingInitKind::Handshake
    );

    let mut with_kem = carrier(0);
    with_kem.kem_ciphertext_bytes = 1088;
    assert_eq!(receiving_init_kind(&with_kem), ReceivingInitKind::Handshake);
}

#[test]
fn a_pq_epoch_on_a_first_message_is_a_leftover_not_an_opener() {
    let mut leftover = carrier(0);
    leftover.pq_message_epoch = 4;
    assert_eq!(
        receiving_init_kind(&leftover),
        ReceivingInitKind::MidSessionLeftover
    );
}

#[test]
fn a_session_reset_init_opens_even_with_a_pq_epoch() {
    let mut sri = carrier(0);
    sri.pq_message_epoch = 4;
    sri.is_session_reset_init = true;
    assert_eq!(receiving_init_kind(&sri), ReceivingInitKind::Handshake);
}

#[test]
fn both_dimensions_vary() {
    let plan = plan_receiving_init(&[carrier(0), carrier(0)], 2);
    assert_eq!(pairs(&plan), vec![(0, 0), (0, 1), (1, 0), (1, 1)]);
}

#[test]
fn skipped_carriers_do_not_shift_the_indices_of_the_others() {
    let plan = plan_receiving_init(&[carrier(3), carrier(0)], 1);
    assert_eq!(pairs(&plan), vec![(1, 0)]);
}

#[test]
fn one_device_is_one_attempt_per_eligible_carrier() {
    let plan = plan_receiving_init(&[carrier(0), carrier(5), carrier(0)], 1);
    assert_eq!(pairs(&plan), vec![(0, 0), (2, 0)]);
}

#[test]
fn no_eligible_carrier_is_an_empty_plan() {
    assert!(plan_receiving_init(&[carrier(3), carrier(9)], 3).is_empty());
}

#[test]
fn no_bundles_is_an_empty_plan() {
    assert!(plan_receiving_init(&[carrier(0)], 0).is_empty());
}

#[test]
fn the_order_is_carrier_major_and_stable() {
    let plan = plan_receiving_init(&[carrier(0), carrier(0)], 3);
    assert_eq!(
        pairs(&plan),
        vec![(0, 0), (0, 1), (0, 2), (1, 0), (1, 1), (1, 2)]
    );
}

#[test]
fn a_numbered_session_reset_opens_too() {
    let mut reset = carrier(3);
    reset.is_session_reset_init = true;
    assert_eq!(receiving_init_kind(&reset), ReceivingInitKind::Handshake);
    assert_eq!(pairs(&plan_receiving_init(&[carrier(3), reset], 1)), vec![(1, 0)]);
}
