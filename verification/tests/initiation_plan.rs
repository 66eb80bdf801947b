//! Whether to open a session.

use construct_core::orchestration::initiation_plan::{
    plan_initiation, InitiationContext, InitiationDecision,
};
use construct_core::orchestration::message_router::{tie_break_role, Role};

const HIGH: &str = "ff00000000000000000000000000000f";
const LOW: &str = "0011111111111111111111111111111f";

fn ctx(my: &str, peer: &str) -> InitiationContext {
    InitiationContext {
        my_device_id: my.to_string(),
        peer_device_id: peer.to_string(),
        our_init_in_flight: false,
        peer_init_in_flight: false,
        have_outbound_work: false,
    }
}

#[test]
fn a_restart_with_nothing_to_say_does_not_open_a_session() {
    assert_eq!(plan_initiation(&ctx(LOW, HIGH)), InitiationDecision::Wait);
    assert_eq!(plan_initiation(&ctx(HIGH, LOW)), InitiationDecision::Wait);
}

#[test]
fn something_to_send_opens_a_session() {
    let mut c = ctx(LOW, HIGH);
    c.have_outbound_work = true;
    assert_eq!(plan_initiation(&c), InitiationDecision::Initiate);
}

#[test]
fn a_second_init_is_never_started_while_ours_is_in_flight() {
    let mut c = ctx(HIGH, LOW);
    c.our_init_in_flight = true;
    assert_eq!(plan_initiation(&c), InitiationDecision::JoinInFlight);

    c.have_outbound_work = true;
    assert_eq!(plan_initiation(&c), InitiationDecision::JoinInFlight);

    c.peer_init_in_flight = true;
    assert_eq!(plan_initiation(&c), InitiationDecision::JoinInFlight);
}

#[test]
fn a_visible_collision_is_ranked_and_one_side_yields() {
    let mut mine = ctx(HIGH, LOW);
    mine.peer_init_in_flight = true;
    let mut theirs = ctx(LOW, HIGH);
    theirs.peer_init_in_flight = true;

    assert_eq!(plan_initiation(&mine), InitiationDecision::Initiate);
    assert_eq!(plan_initiation(&theirs), InitiationDecision::YieldToPeer);
}

#[test]
fn the_lower_id_yields_even_with_something_to_send() {
    let mut c = ctx(LOW, HIGH);
    c.peer_init_in_flight = true;
    c.have_outbound_work = true;
    assert_eq!(plan_initiation(&c), InitiationDecision::YieldToPeer);
}

#[test]
fn the_ranking_is_the_one_tie_break_role_makes() {
    for (my, peer) in [(HIGH, LOW), (LOW, HIGH)] {
        let mut c = ctx(my, peer);
        c.peer_init_in_flight = true;
        let expected = match tie_break_role(my, peer) {
            Role::Initiator => InitiationDecision::Initiate,
            Role::Responder => InitiationDecision::YieldToPeer,
        };
        assert_eq!(plan_initiation(&c), expected);
    }
}

#[test]
fn an_unnameable_device_is_waited_on_not_initiated_with() {
    let mut c = ctx(HIGH, "");
    c.have_outbound_work = true;
    assert_eq!(plan_initiation(&c), InitiationDecision::Wait);

    let mut c = ctx("", HIGH);
    c.have_outbound_work = true;
    assert_eq!(plan_initiation(&c), InitiationDecision::Wait);
}

#[test]
fn a_device_is_not_its_own_peer() {
    let mut c = ctx(HIGH, HIGH);
    c.peer_init_in_flight = true;
    assert_eq!(plan_initiation(&c), InitiationDecision::YieldToPeer);
}

#[test]
fn the_wire_spellings_are_stable() {
    assert_eq!(InitiationDecision::Initiate.as_wire(), "Initiate");
    assert_eq!(InitiationDecision::JoinInFlight.as_wire(), "JoinInFlight");
    assert_eq!(InitiationDecision::YieldToPeer.as_wire(), "YieldToPeer");
    assert_eq!(InitiationDecision::Wait.as_wire(), "Wait");
}
