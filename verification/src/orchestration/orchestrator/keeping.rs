//! What every event keeps.
//!
//! The laws that speak of a state take for granted that it is well kept. A fresh orchestrator is, and
//! no event, no opening from what waits and no forgetting changes that.

use vstd::prelude::*;

use crate::crypto::client_api::ClientView;
use crate::crypto::engine::CryptoEngine;
use crate::crypto::handshake::BundleView;
use crate::crypto::kyber_prekeys;
use crate::orchestration::ack_store;
use crate::orchestration::actions::{ActionView, EventView};
use crate::orchestration::healing_queue::{self, HealDirection};
use crate::orchestration::message_router::{
    self, DecisionView, MessageView, RouterView,
};
use crate::orchestration::orchestrator::confirming;
use crate::orchestration::orchestrator::decisions::{self, CT_HEARTBEAT};
use crate::orchestration::orchestrator::events;
use crate::orchestration::orchestrator::holds;
use crate::orchestration::orchestrator::messaging;
use crate::orchestration::orchestrator::opening;
use crate::orchestration::orchestrator::origins::{self, Handled};
use crate::orchestration::orchestrator::persisting;
use crate::orchestration::orchestrator::receiving::{self, ReceivingView};
use crate::orchestration::orchestrator::responding;
use crate::orchestration::orchestrator::settling;
use crate::orchestration::orchestrator::timers;
use crate::orchestration::orchestrator::{self, OrchView};
use crate::orchestration::receiving_init_plan::ReceivingInitAttempt;
use crate::orchestration::session_lifecycle::{self, DecryptResultView, LifeView};

verus! {

/// A state as every run leaves it: only messages wait, each in the queue of its device; no message
/// is held twice; every heal is filed under its device; and the Kyber prekeys have ids in order.
pub open spec fn well_kept(o: OrchView) -> bool {
    &&& message_router::only_messages_wait(o.router)
    &&& holds::held_once(o)
    &&& healing_queue::keyed(o.life.healing)
    &&& kyber_prekeys::well_numbered(persisting::prekeys(o))
}

// ── Heals ───────────────────────────────────────────────────────────────────

/// Whether heals stay filed under their devices from `l` to `next`.
pub open spec fn files_heals(l: LifeView, next: LifeView) -> bool {
    healing_queue::keyed(l.healing) ==> healing_queue::keyed(next.healing)
}

proof fn a_new_message_files_its_heal<E: CryptoEngine>(
    engine: &E,
    r: RouterView,
    l: LifeView,
    m: MessageView,
    now: u64,
    r2: RouterView,
    l2: LifeView,
    d: DecisionView,
)
    requires
        message_router::new_message_may(engine, r, l, m, now, r2, l2, d),
    ensures
        files_heals(l, l2),
{
    if l.client.sessions.contains_key(m.contact_id) {
        let (tried, x) = choose|tried: LifeView, x: Result<DecryptResultView, Seq<char>>| #[trigger]
            message_router::tried_may(engine, l, m, tried, x, now, l2, d);
        assert(tried.healing == l.healing);
        if x is Ok {
            let p = x->Ok_0;
            let pq = choose|pq: Seq<ActionView>|
                session_lifecycle::contribution_may(
                    engine,
                    message_router::life_marked(tried, m, now),
                    m.contact_id,
                    l2,
                    pq,
                ) && d == #[trigger] message_router::accepted(m, p, now, tried, pq);
            assert(l2.healing == tried.healing);
        } else if healing_queue::keyed(l.healing) {
            healing_queue::records_stay_with_their_device(
                l.healing,
                m.contact_id,
                m.wire_payload,
                HealDirection::Incoming,
                now,
            );
        }
    }
}

proof fn routing_files_its_heal<E: CryptoEngine>(
    engine: &E,
    r: RouterView,
    l: LifeView,
    m: MessageView,
    now: u64,
    r2: RouterView,
    l2: LifeView,
    d: DecisionView,
)
    requires
        message_router::route_may(engine, r, l, m, now, r2, l2, d),
    ensures
        files_heals(l, l2),
{
    if !m.is_control && ack_store::ack_check(l.ack, m.message_id) is NotProcessed {
        a_new_message_files_its_heal(engine, r, l, m, now, r2, l2, d);
    }
}

proof fn routing_all_files_heals<E: CryptoEngine>(
    engine: &E,
    r: RouterView,
    l: LifeView,
    ms: Seq<MessageView>,
    now: u64,
    r2: RouterView,
    l2: LifeView,
    ds: Seq<DecisionView>,
)
    requires
        message_router::route_all_may(engine, r, l, ms, now, r2, l2, ds),
    ensures
        files_heals(l, l2),
    decreases ms.len(),
{
    if ms.len() > 0 {
        let (rm, lm) = choose|rm: RouterView, lm: LifeView|
            message_router::route_all_may(
                engine,
                r,
                l,
                ms.drop_last(),
                now,
                rm,
                lm,
                ds.drop_last(),
            ) && #[trigger] message_router::route_may(
                engine,
                rm,
                lm,
                ms.last(),
                now,
                r2,
                l2,
                ds.last(),
            );
        routing_all_files_heals(engine, r, l, ms.drop_last(), now, rm, lm, ds.drop_last());
        routing_files_its_heal(engine, rm, lm, ms.last(), now, r2, l2, ds.last());
    }
}

proof fn answers_touch_no_heal(o: OrchView, ds: Seq<DecisionView>, now: u64)
    ensures
        decisions::conclude_all(o, ds, now).0.life == o.life,
    decreases ds.len(),
{
    if ds.len() > 0 {
        answers_touch_no_heal(o, ds.drop_last(), now);
        decisions::an_answer_touches_no_session(
            decisions::conclude_all(o, ds.drop_last(), now).0,
            ds.last(),
            now,
        );
    }
}

proof fn a_heartbeat_touches_no_heal(o: OrchView, d: DecisionView, now: u64)
    ensures
        events::heartbeat_answered(o, d, now).0.life == o.life,
{
}

proof fn a_drain_files_heals<E: CryptoEngine>(
    engine: &E,
    o: OrchView,
    contact: Seq<char>,
    now: u64,
    next: OrchView,
    actions: Seq<ActionView>,
)
    requires
        settling::drained_may(engine, o, contact, now, next, actions),
    ensures
        files_heals(o.life, next.life),
{
    let (r2, l2, ds) = choose|r2: RouterView, l2: LifeView, ds: Seq<DecisionView>| #[trigger]
        settling::drained_outcome(engine, o, contact, now, r2, l2, ds, next, actions);
    routing_all_files_heals(
        engine,
        message_router::with_queue(o.router, contact, Seq::empty()),
        o.life,
        message_router::waiting(o.router, contact),
        now,
        r2,
        l2,
        ds,
    );
    answers_touch_no_heal(orchestrator::with_core(o, r2, l2), ds, now);
}

proof fn drains_file_heals<E: CryptoEngine>(
    engine: &E,
    o: OrchView,
    order: Seq<Seq<char>>,
    now: u64,
    next: OrchView,
    actions: Seq<ActionView>,
)
    requires
        settling::drained_all_may(engine, o, order, now, next, actions),
    ensures
        files_heals(o.life, next.life),
    decreases order.len(),
{
    if order.len() > 0 {
        let (mid, before, last) = choose|
            mid: OrchView,
            before: Seq<ActionView>,
            last: Seq<ActionView>,
        |
            settling::drained_all_may(
                engine,
                o,
                order.drop_last(),
                now,
                mid,
                before,
            ) && #[trigger] settling::drained_may(
                engine,
                mid,
                order.last(),
                now,
                next,
                last,
            ) && actions == #[trigger] (before + last);
        drains_file_heals(engine, o, order.drop_last(), now, mid, before);
        a_drain_files_heals(engine, mid, order.last(), now, next, last);
    }
}

proof fn a_completion_files_heals<E: CryptoEngine>(
    engine: &E,
    o: OrchView,
    contact: Seq<char>,
    data: Seq<u8>,
    now: u64,
    next: OrchView,
    actions: Seq<ActionView>,
)
    requires
        settling::completed_may(engine, o, contact, data, now, next, actions),
    ensures
        files_heals(o.life, next.life),
{
    let (l2, imported) = choose|l2: LifeView, imported: Result<(), Seq<char>>| #[trigger]
        settling::completed_outcome(
            engine,
            o,
            contact,
            data,
            now,
            l2,
            imported,
            next,
            actions,
        );
    let done = settling::opening_over(o, contact, now);
    if healing_queue::keyed(o.life.healing) {
        healing_queue::records_stay_with_their_device(
            o.life.healing,
            contact,
            Seq::empty(),
            HealDirection::Incoming,
            now,
        );
    }
    assert(l2.healing == done.life.healing);
    let ready = OrchView { life: l2, ..done };
    if imported is Ok {
        let (x, drained) = choose|x: Result<Seq<u8>, Seq<char>>, drained: Seq<ActionView>| #[trigger]
            settling::settled_outcome(engine, ready, contact, now, x, drained, next, actions);
        a_drain_files_heals(engine, ready, contact, now, next, drained);
    }
}

proof fn a_sent_message_touches_no_heal<E: CryptoEngine>(
    engine: &E,
    o: OrchView,
    contact: Seq<char>,
    message_id: Seq<char>,
    plaintext: Seq<u8>,
    content_type: u8,
    next: OrchView,
    actions: Seq<ActionView>,
)
    requires
        messaging::outgoing_may(
            engine,
            o,
            contact,
            message_id,
            plaintext,
            content_type,
            next,
            actions,
        ) || messaging::call_signal_may(
            engine,
            o,
            contact,
            message_id,
            plaintext,
            next,
            actions,
        ),
    ensures
        next.life.healing == o.life.healing,
{
}

proof fn upgrades_touch_no_heal(o: OrchView, cs: Seq<Seq<char>>, now: u64)
    ensures
        timers::upgrades_asked(o, cs, now).0.life == o.life,
    decreases cs.len(),
{
    if cs.len() > 0 {
        upgrades_touch_no_heal(o, cs.drop_last(), now);
    }
}

/// Whatever event comes, heals stay filed under their devices.
pub proof fn no_event_misfiles_a_heal<E: CryptoEngine>(
    engine: &E,
    o: OrchView,
    event: EventView,
    now: u64,
    next: OrchView,
    actions: Seq<ActionView>,
)
    requires
        events::event_may(engine, o, event, now, next, actions),
    ensures
        files_heals(o.life, next.life),
{
    let (mid, answer, back) = choose|
        mid: OrchView,
        answer: Seq<ActionView>,
        back: Seq<ActionView>,
    | #[trigger]
        events::event_outcome(engine, o, event, now, mid, answer, back, next, actions);
    assert(next.life == mid.life);
    match event {
        EventView::MessageReceived {
            message_id,
            from,
            data,
            msg_num,
            kem_ct,
            otpk_id,
            is_control,
            content_type,
        } => {
            let number = events::routing_number(data, msg_num, kem_ct, is_control);
            if number is Ok {
                let m = MessageView {
                    contact_id: from,
                    wire_payload: data,
                    message_id,
                    msg_number: number->Ok_0,
                    is_control,
                    content_type,
                };
                let (r2, l2, d, saved) = choose|
                    r2: RouterView,
                    l2: LifeView,
                    d: DecisionView,
                    saved: Result<Seq<u8>, Seq<char>>,
                | #[trigger]
                    events::routed_outcome(engine, o, m, now, r2, l2, d, saved, mid, answer);
                routing_files_its_heal(engine, o.router, o.life, m, now, r2, l2, d);
                decisions::an_answer_touches_no_session(
                    orchestrator::with_core(o, r2, l2),
                    d,
                    now,
                );
            }
        },
        EventView::HeartbeatReceived { contact_id, message_id, data, msg_num } => {
            let m = MessageView {
                contact_id,
                wire_payload: data,
                message_id,
                msg_number: msg_num,
                is_control: false,
                content_type: CT_HEARTBEAT,
            };
            let (r2, l2, d) = choose|r2: RouterView, l2: LifeView, d: DecisionView| #[trigger]
                events::heartbeat_outcome(engine, o, m, now, r2, l2, d, mid, answer);
            routing_files_its_heal(engine, o.router, o.life, m, now, r2, l2, d);
            a_heartbeat_touches_no_heal(orchestrator::with_core(o, r2, l2), d, now);
        },
        EventView::AckDbResult { message_id, is_processed } => {
            let (r2, l2, d) = choose|r2: RouterView, l2: LifeView, d: DecisionView| #[trigger]
                events::resumed_outcome(
                    engine,
                    o,
                    message_id,
                    is_processed,
                    now,
                    r2,
                    l2,
                    d,
                    mid,
                    answer,
                );
            if o.router.unchecked.contains_key(message_id) && !is_processed {
                let resumed = RouterView {
                    unchecked: o.router.unchecked.remove(message_id),
                    ..o.router
                };
                a_new_message_files_its_heal(
                    engine,
                    resumed,
                    o.life,
                    o.router.unchecked[message_id],
                    now,
                    r2,
                    l2,
                    d,
                );
            }
            decisions::an_answer_touches_no_session(orchestrator::with_core(o, r2, l2), d, now);
        },
        EventView::OutgoingMessage { contact_id, message_id, plaintext, content_type } => {
            a_sent_message_touches_no_heal(
                engine,
                o,
                contact_id,
                message_id,
                plaintext,
                content_type,
                mid,
                answer,
            );
        },
        EventView::OutgoingCallSignal { contact_id, message_id, proto_bytes } => {
            a_sent_message_touches_no_heal(
                engine,
                o,
                contact_id,
                message_id,
                proto_bytes,
                0,
                mid,
                answer,
            );
        },
        EventView::SessionInitCompleted { contact_id, session_data } => {
            a_completion_files_heals(engine, o, contact_id, session_data, now, mid, answer);
        },
        EventView::NetworkReconnected => {
            let (order, drained) = choose|order: Seq<Seq<char>>, drained: Seq<ActionView>|
                #![trigger settling::drained_all_may(engine, o, order, now, mid, drained)]
                settling::drained_all_may(engine, o, order, now, mid, drained);
            drains_file_heals(engine, o, order, now, mid, drained);
        },
        EventView::TimerFired { timer_id } => {
            if timer_id == "gc_sweep"@ {
                if healing_queue::keyed(o.life.healing) {
                    healing_queue::records_stay_with_their_device(
                        o.life.healing,
                        timer_id,
                        Seq::empty(),
                        HealDirection::Incoming,
                        now,
                    );
                }
                assert(mid.life.healing == healing_queue::heal_pruned(o.life.healing, now));
            } else if timer_id == "pq_upgrade_sweep"@ {
                let cs = choose|cs: Seq<Seq<char>>|
                    timers::lists_candidates(cs, o) && (mid, answer)
                        == #[trigger] timers::upgrade_swept(o, cs, now);
                upgrades_touch_no_heal(o, cs.take(timers::batch_of(cs.len())), now);
            }
        },
        EventView::HealAttempted { contact_id } => {
            if healing_queue::keyed(o.life.healing) {
                healing_queue::records_stay_with_their_device(
                    o.life.healing,
                    contact_id,
                    Seq::empty(),
                    HealDirection::Incoming,
                    now,
                );
            }
        },
        EventView::PeerToreDown { contact_id } => {
            if healing_queue::keyed(o.life.healing) {
                healing_queue::records_stay_with_their_device(
                    o.life.healing,
                    contact_id,
                    Seq::empty(),
                    HealDirection::Incoming,
                    now,
                );
            }
        },
        _ => {},
    }
}

// ── Laws ────────────────────────────────────────────────────────────────────

/// A fresh orchestrator is well kept, if the prekeys of its client are.
pub proof fn a_fresh_orchestrator_is_well_kept(client: ClientView, user_id: Seq<char>)
    requires
        kyber_prekeys::well_numbered(client.keys.kyber),
    ensures
        well_kept(orchestrator::fresh(client, user_id)),
{
}

/// Whatever event comes, the orchestrator stays well kept.
pub proof fn an_event_leaves_everything_well_kept<E: CryptoEngine>(
    engine: &E,
    o: OrchView,
    event: EventView,
    now: u64,
    next: OrchView,
    actions: Seq<ActionView>,
)
    requires
        well_kept(o),
        events::event_may(engine, o, event, now, next, actions),
    ensures
        well_kept(next),
{
    events::no_event_lets_a_control_frame_wait(engine, o, event, now, next, actions);
    confirming::a_gate_that_is_up_keeps_what_it_holds(
        engine,
        o,
        event,
        now,
        next,
        actions,
        Seq::empty(),
    );
    no_event_misfiles_a_heal(engine, o, event, now, next, actions);
    persisting::an_event_burns_nothing(engine, o, event, now, next, actions);
}

/// So does a run of them.
pub proof fn a_run_leaves_everything_well_kept<E: CryptoEngine>(
    engine: &E,
    start: OrchView,
    run: Seq<Handled>,
    n: int,
)
    requires
        well_kept(start),
        origins::is_run(engine, start, run),
        0 <= n <= run.len(),
    ensures
        well_kept(origins::state_after(start, run, n)),
    decreases n,
{
    if n > 0 {
        a_run_leaves_everything_well_kept(engine, start, run, n - 1);
        let h = run[n - 1];
        an_event_leaves_everything_well_kept(
            engine,
            origins::state_after(start, run, n - 1),
            h.event,
            h.now,
            h.next,
            h.actions,
        );
    }
}

/// Forgetting a contact leaves everything else well kept.
pub proof fn forgetting_leaves_everything_well_kept(o: OrchView, contact: Seq<char>, now: u64)
    requires
        well_kept(o),
    ensures
        well_kept(orchestrator::forgotten(o, contact, now)),
{
    let f = orchestrator::forgotten(o, contact, now);
    origins::a_forgotten_contact_is_not_known(o, contact, now, contact, contact);
    healing_queue::records_stay_with_their_device(
        o.life.healing,
        contact,
        Seq::empty(),
        HealDirection::Incoming,
        now,
    );
    assert forall|c: Seq<char>, i: int, j: int|
        #![trigger holds::held(f, c)[i], holds::held(f, c)[j]]
        0 <= i < j < holds::held(f, c).len() implies holds::held(f, c)[i].message_id != holds::held(
        f,
        c,
    )[j].message_id by {
        assert(c != contact);
        assert(holds::held(f, c) == holds::held(o, c));
        assert(holds::held(o, c)[i].message_id != holds::held(o, c)[j].message_id);
    }
}

proof fn an_opened_session_keeps_heals_and_holds<E: CryptoEngine>(
    engine: &E,
    o: OrchView,
    claimed: Seq<char>,
    device: Seq<char>,
    opener: MessageView,
    plaintext: Seq<u8>,
    replaced: Option<Seq<u8>>,
    now: u64,
    next: OrchView,
    out: ReceivingView,
)
    requires
        receiving::opened_may(
            engine,
            o,
            claimed,
            device,
            opener,
            plaintext,
            replaced,
            now,
            next,
            out,
        ),
    ensures
        files_heals(o.life, next.life),
        confirming::holds_grow(o, next),
{
    let (ready, first) = receiving::opener_answered(
        o,
        claimed,
        device,
        opener,
        plaintext,
        replaced,
        now,
    );
    assert(ready.life.healing == healing_queue::heal_settle(o.life.healing, device));
    if healing_queue::keyed(o.life.healing) {
        healing_queue::records_stay_with_their_device(
            o.life.healing,
            device,
            Seq::empty(),
            HealDirection::Incoming,
            now,
        );
    }
    confirming::unchanged_holds_grow(o, ready);
    let settled = choose|settled: Seq<ActionView>| #[trigger]
        settling::settled_may(engine, ready, device, now, next, settled) && out == (ReceivingView {
            opened_device: Some(device),
            opener_message_id: Some(opener.message_id),
            actions: first + settled,
            tried_message_ids: Seq::empty(),
            dropped_message_ids: Seq::empty(),
            last_error: None,
        });
    let (x, drained) = choose|x: Result<Seq<u8>, Seq<char>>, drained: Seq<ActionView>| #[trigger]
        settling::settled_outcome(engine, ready, device, now, x, drained, next, settled);
    a_drain_files_heals(engine, ready, device, now, next, drained);
    confirming::a_drain_grows_holds(engine, ready, device, now, next, drained);
    confirming::holds_grow_on(o, ready, next);
}

proof fn a_walk_keeps_heals_and_holds<E: CryptoEngine>(
    engine: &E,
    o: OrchView,
    claimed: Seq<char>,
    queued: Seq<MessageView>,
    bundles: Seq<BundleView>,
    plan: Seq<ReceivingInitAttempt>,
    tried: Seq<Seq<char>>,
    last_error: Option<Seq<char>>,
    now: u64,
    next: OrchView,
    out: ReceivingView,
)
    requires
        receiving::walk_may(
            engine,
            o,
            claimed,
            queued,
            bundles,
            plan,
            tried,
            last_error,
            now,
            next,
            out,
        ),
    ensures
        files_heals(o.life, next.life),
        confirming::holds_grow(o, next),
        out.opened_device is None ==> next.router == message_router::with_queue(
            o.router,
            claimed,
            Seq::empty(),
        ),
    decreases plan.len(),
{
    if plan.len() == 0 {
        confirming::unchanged_holds_grow(o, next);
    } else if !receiving::can_try(queued, bundles, plan[0]) {
        a_walk_keeps_heals_and_holds(
            engine,
            o,
            claimed,
            queued,
            bundles,
            plan.drop_first(),
            tried,
            last_error,
            now,
            next,
            out,
        );
    } else {
        let carrier = queued[plan[0].carrier_index as int];
        let bundle = bundles[plan[0].bundle_index as int];
        let first = responding::first_message_of(carrier.wire_payload)->Ok_0;
        let (device, x, left, result) = choose|
            device: Seq<char>,
            x: Result<Seq<u8>, Seq<char>>,
            left: OrchView,
            result: Result<Seq<u8>, Seq<char>>,
        | #[trigger]
            receiving::attempt_outcome(engine, o, bundle, first, device, x, left, result)
                && match result {
                Ok(plaintext) => receiving::opened_may(
                    engine,
                    left,
                    claimed,
                    device,
                    carrier,
                    plaintext,
                    receiving::archivable(x),
                    now,
                    next,
                    out,
                ),
                Err(e) => receiving::walk_may(
                    engine,
                    o,
                    claimed,
                    queued,
                    bundles,
                    plan.drop_first(),
                    receiving::tried_with(tried, carrier.message_id),
                    Some(e),
                    now,
                    next,
                    out,
                ),
            };
        match result {
            Ok(plaintext) => {
                responding::a_first_message_touches_only_the_client(
                    engine,
                    opening::set_aside(o, device),
                    device,
                    bundle,
                    first,
                    left,
                    result,
                );
                confirming::unchanged_holds_grow(o, left);
                an_opened_session_keeps_heals_and_holds(
                    engine,
                    left,
                    claimed,
                    device,
                    carrier,
                    plaintext,
                    receiving::archivable(x),
                    now,
                    next,
                    out,
                );
                confirming::holds_grow_on(o, left, next);
            },
            Err(e) => {
                a_walk_keeps_heals_and_holds(
                    engine,
                    o,
                    claimed,
                    queued,
                    bundles,
                    plan.drop_first(),
                    receiving::tried_with(tried, carrier.message_id),
                    Some(e),
                    now,
                    next,
                    out,
                );
            },
        }
    }
}

/// Opening a session from what waits leaves everything well kept, whether or not one opened.
pub proof fn a_receiving_open_leaves_everything_well_kept<E: CryptoEngine>(
    engine: &E,
    o: OrchView,
    claimed: Seq<char>,
    bundles: Seq<BundleView>,
    now: u64,
    next: OrchView,
    out: ReceivingView,
)
    requires
        well_kept(o),
        receiving::open_receiving_may(engine, o, claimed, bundles, now, next, out),
    ensures
        well_kept(next),
{
    let queued = message_router::waiting(o.router, claimed);
    let plan = receiving::walk_plan(queued, bundles);
    a_walk_keeps_heals_and_holds(
        engine,
        o,
        claimed,
        queued,
        bundles,
        plan,
        Seq::empty(),
        None,
        now,
        next,
        out,
    );
    persisting::a_receiving_open_marks_its_burn(engine, o, claimed, bundles, now, next, out);
    assert(message_router::only_messages_of(queued, claimed));
    if out.opened_device is Some {
        receiving::a_walk_that_opens_holds_its_session(
            engine,
            o,
            claimed,
            queued,
            bundles,
            plan,
            Seq::empty(),
            None,
            now,
            next,
            out,
        );
    } else {
        assert forall|k: Seq<char>| #[trigger] next.router.queues.contains_key(
            k,
        ) implies message_router::only_messages_of(next.router.queues[k], k) by {
            assert(o.router.queues.contains_key(k));
        }
    }
}

} // verus!
