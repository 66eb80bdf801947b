//! What is due to be persisted of the one-time Kyber prekeys.
//!
//! Only a first message that opens a session burns a one-time prekey, and the burn is marked until
//! the prekeys are taken to be persisted.

use vstd::prelude::*;

use crate::crypto::client_api::ClientView;
use crate::crypto::engine::{self, CryptoEngine};
use crate::crypto::handshake::BundleView;
use crate::crypto::kyber_prekeys::{self, KyberView};
use crate::crypto::messaging::double_ratchet::RatchetMessageView;
use crate::crypto::suite_id;
use crate::orchestration::ack_store;
use crate::orchestration::actions::{ActionView, EventView};
use crate::orchestration::message_router::{
    self, DecisionView, MessageView, RouterView,
};
use crate::orchestration::orchestrator::decisions::{self, CT_HEARTBEAT};
use crate::orchestration::orchestrator::events;
use crate::orchestration::orchestrator::messaging;
use crate::orchestration::orchestrator::opening;
use crate::orchestration::orchestrator::receiving::{self, ReceivingView};
use crate::orchestration::orchestrator::responding::{self, FirstView, KeyBundleView, KemView};
use crate::orchestration::orchestrator::settling;
use crate::orchestration::orchestrator::timers;
use crate::orchestration::orchestrator::{self, OrchView};
use crate::orchestration::receiving_init_plan::ReceivingInitAttempt;
use crate::orchestration::session_lifecycle::{self, DecryptResultView, LifeView};

verus! {

/// The Kyber prekeys held.
pub open spec fn prekeys(o: OrchView) -> KyberView {
    o.life.client.keys.kyber
}

/// What taking the prekeys to persist may come to: a record of them if a burn is marked, and the
/// mark is gone either way.
pub open spec fn taken_may<E: CryptoEngine>(
    engine: &E,
    o: OrchView,
    next: OrchView,
    record: Option<Seq<u8>>,
) -> bool {
    &&& next == (OrchView { kyber_dirty: false, ..o })
    &&& if o.kyber_dirty {
        exists|x: Result<Seq<u8>, Seq<char>>| #[trigger]
            engine::said_encode_kyber_prekeys(engine, prekeys(o), x) && record == (match x {
                Ok(data) => Some(data),
                Err(_) => None,
            })
    } else {
        record is None
    }
}

// ── Laws ────────────────────────────────────────────────────────────────────

/// Whether the prekeys and the mark of a burn are as they were.
pub open spec fn keeps_prekeys(o: OrchView, next: OrchView) -> bool {
    prekeys(next) == prekeys(o) && next.kyber_dirty == o.kyber_dirty
}

proof fn a_new_message_keeps_prekeys<E: CryptoEngine>(
    engine: &E,
    r: RouterView,
    l: LifeView,
    m: MessageView,
    now: u64,
    r2: RouterView,
    l2: LifeView,
    d: DecisionView,
)
    requires
        message_router::new_message_may(engine, r, l, m, now, r2, l2, d),
    ensures
        l2.client.keys == l.client.keys,
{
    if l.client.sessions.contains_key(m.contact_id) {
        let (tried, x) = choose|tried: LifeView, x: Result<DecryptResultView, Seq<char>>| #[trigger]
            message_router::tried_may(engine, l, m, tried, x, now, l2, d);
        assert(tried.client.keys == l.client.keys);
        if x is Ok {
            let p = x->Ok_0;
            let pq = choose|pq: Seq<ActionView>|
                session_lifecycle::contribution_may(
                    engine,
                    message_router::life_marked(tried, m, now),
                    m.contact_id,
                    l2,
                    pq,
                ) && d == #[trigger] message_router::accepted(m, p, now, tried, pq);
            assert(l2.client.keys == tried.client.keys);
        }
    }
}

proof fn routing_keeps_prekeys<E: CryptoEngine>(
    engine: &E,
    r: RouterView,
    l: LifeView,
    m: MessageView,
    now: u64,
    r2: RouterView,
    l2: LifeView,
    d: DecisionView,
)
    requires
        message_router::route_may(engine, r, l, m, now, r2, l2, d),
    ensures
        l2.client.keys == l.client.keys,
{
    if !m.is_control && ack_store::ack_check(l.ack, m.message_id) is NotProcessed {
        a_new_message_keeps_prekeys(engine, r, l, m, now, r2, l2, d);
    }
}

proof fn routing_all_keeps_prekeys<E: CryptoEngine>(
    engine: &E,
    r: RouterView,
    l: LifeView,
    ms: Seq<MessageView>,
    now: u64,
    r2: RouterView,
    l2: LifeView,
    ds: Seq<DecisionView>,
)
    requires
        message_router::route_all_may(engine, r, l, ms, now, r2, l2, ds),
    ensures
        l2.client.keys == l.client.keys,
    decreases ms.len(),
{
    if ms.len() > 0 {
        let (rm, lm) = choose|rm: RouterView, lm: LifeView|
            message_router::route_all_may(
                engine,
                r,
                l,
                ms.drop_last(),
                now,
                rm,
                lm,
                ds.drop_last(),
            ) && #[trigger] message_router::route_may(
                engine,
                rm,
                lm,
                ms.last(),
                now,
                r2,
                l2,
                ds.last(),
            );
        routing_all_keeps_prekeys(engine, r, l, ms.drop_last(), now, rm, lm, ds.drop_last());
        routing_keeps_prekeys(engine, rm, lm, ms.last(), now, r2, l2, ds.last());
    }
}

proof fn an_answer_keeps_prekeys(o: OrchView, d: DecisionView, now: u64)
    ensures
        keeps_prekeys(o, decisions::conclude(o, d, now).0),
        keeps_prekeys(o, events::heartbeat_answered(o, d, now).0),
{
}

proof fn answers_keep_prekeys(o: OrchView, ds: Seq<DecisionView>, now: u64)
    ensures
        keeps_prekeys(o, decisions::conclude_all(o, ds, now).0),
    decreases ds.len(),
{
    if ds.len() > 0 {
        answers_keep_prekeys(o, ds.drop_last(), now);
        an_answer_keeps_prekeys(
            decisions::conclude_all(o, ds.drop_last(), now).0,
            ds.last(),
            now,
        );
    }
}

proof fn a_drain_keeps_prekeys<E: CryptoEngine>(
    engine: &E,
    o: OrchView,
    contact: Seq<char>,
    now: u64,
    next: OrchView,
    actions: Seq<ActionView>,
)
    requires
        settling::drained_may(engine, o, contact, now, next, actions),
    ensures
        keeps_prekeys(o, next),
{
    let (r2, l2, ds) = choose|r2: RouterView, l2: LifeView, ds: Seq<DecisionView>| #[trigger]
        settling::drained_outcome(engine, o, contact, now, r2, l2, ds, next, actions);
    routing_all_keeps_prekeys(
        engine,
        message_router::with_queue(o.router, contact, Seq::empty()),
        o.life,
        message_router::waiting(o.router, contact),
        now,
        r2,
        l2,
        ds,
    );
    answers_keep_prekeys(orchestrator::with_core(o, r2, l2), ds, now);
}

proof fn drains_keep_prekeys<E: CryptoEngine>(
    engine: &E,
    o: OrchView,
    order: Seq<Seq<char>>,
    now: u64,
    next: OrchView,
    actions: Seq<ActionView>,
)
    requires
        settling::drained_all_may(engine, o, order, now, next, actions),
    ensures
        keeps_prekeys(o, next),
    decreases order.len(),
{
    if order.len() > 0 {
        let (mid, before, last) = choose|
            mid: OrchView,
            before: Seq<ActionView>,
            last: Seq<ActionView>,
        |
            settling::drained_all_may(
                engine,
                o,
                order.drop_last(),
                now,
                mid,
                before,
            ) && #[trigger] settling::drained_may(
                engine,
                mid,
                order.last(),
                now,
                next,
                last,
            ) && actions == #[trigger] (before + last);
        drains_keep_prekeys(engine, o, order.drop_last(), now, mid, before);
        a_drain_keeps_prekeys(engine, mid, order.last(), now, next, last);
    }
}

proof fn upgrades_keep_prekeys(o: OrchView, cs: Seq<Seq<char>>, now: u64)
    ensures
        keeps_prekeys(o, timers::upgrades_asked(o, cs, now).0),
    decreases cs.len(),
{
    if cs.len() > 0 {
        upgrades_keep_prekeys(o, cs.drop_last(), now);
    }
}

proof fn a_completion_keeps_prekeys<E: CryptoEngine>(
    engine: &E,
    o: OrchView,
    contact: Seq<char>,
    data: Seq<u8>,
    now: u64,
    next: OrchView,
    actions: Seq<ActionView>,
)
    requires
        settling::completed_may(engine, o, contact, data, now, next, actions),
    ensures
        keeps_prekeys(o, next),
{
    let (l2, imported) = choose|l2: LifeView, imported: Result<(), Seq<char>>| #[trigger]
        settling::completed_outcome(
            engine,
            o,
            contact,
            data,
            now,
            l2,
            imported,
            next,
            actions,
        );
    assert(l2.client.keys == o.life.client.keys);
    let held = OrchView { life: l2, ..settling::opening_over(o, contact, now) };
    if imported is Ok {
        let (x, drained) = choose|x: Result<Seq<u8>, Seq<char>>, drained: Seq<ActionView>| #[trigger]
            settling::settled_outcome(engine, held, contact, now, x, drained, next, actions);
        a_drain_keeps_prekeys(engine, held, contact, now, next, drained);
    }
}

proof fn a_sent_message_keeps_prekeys<E: CryptoEngine>(
    engine: &E,
    o: OrchView,
    contact: Seq<char>,
    message_id: Seq<char>,
    plaintext: Seq<u8>,
    content_type: u8,
    next: OrchView,
    actions: Seq<ActionView>,
)
    requires
        messaging::outgoing_may(
            engine,
            o,
            contact,
            message_id,
            plaintext,
            content_type,
            next,
            actions,
        ) || messaging::call_signal_may(
            engine,
            o,
            contact,
            message_id,
            plaintext,
            next,
            actions,
        ),
    ensures
        keeps_prekeys(o, next),
{
}

/// No event burns a prekey or marks a burn: only opening a session from a first message does.
pub proof fn an_event_burns_nothing<E: CryptoEngine>(
    engine: &E,
    o: OrchView,
    event: EventView,
    now: u64,
    next: OrchView,
    actions: Seq<ActionView>,
)
    requires
        events::event_may(engine, o, event, now, next, actions),
    ensures
        keeps_prekeys(o, next),
{
    let (mid, answer, back) = choose|
        mid: OrchView,
        answer: Seq<ActionView>,
        back: Seq<ActionView>,
    | #[trigger]
        events::event_outcome(engine, o, event, now, mid, answer, back, next, actions);
    match event {
        EventView::MessageReceived {
            message_id,
            from,
            data,
            msg_num,
            kem_ct,
            otpk_id,
            is_control,
            content_type,
        } => {
            let number = events::routing_number(data, msg_num, kem_ct, is_control);
            if number is Ok {
                let m = MessageView {
                    contact_id: from,
                    wire_payload: data,
                    message_id,
                    msg_number: number->Ok_0,
                    is_control,
                    content_type,
                };
                let (r2, l2, d, saved) = choose|
                    r2: RouterView,
                    l2: LifeView,
                    d: DecisionView,
                    saved: Result<Seq<u8>, Seq<char>>,
                | #[trigger]
                    events::routed_outcome(engine, o, m, now, r2, l2, d, saved, mid, answer);
                routing_keeps_prekeys(engine, o.router, o.life, m, now, r2, l2, d);
                an_answer_keeps_prekeys(orchestrator::with_core(o, r2, l2), d, now);
            }
        },
        EventView::HeartbeatReceived { contact_id, message_id, data, msg_num } => {
            let m = MessageView {
                contact_id,
                wire_payload: data,
                message_id,
                msg_number: msg_num,
                is_control: false,
                content_type: CT_HEARTBEAT,
            };
            let (r2, l2, d) = choose|r2: RouterView, l2: LifeView, d: DecisionView| #[trigger]
                events::heartbeat_outcome(engine, o, m, now, r2, l2, d, mid, answer);
            routing_keeps_prekeys(engine, o.router, o.life, m, now, r2, l2, d);
            an_answer_keeps_prekeys(orchestrator::with_core(o, r2, l2), d, now);
        },
        EventView::AckDbResult { message_id, is_processed } => {
            let (r2, l2, d) = choose|r2: RouterView, l2: LifeView, d: DecisionView| #[trigger]
                events::resumed_outcome(
                    engine,
                    o,
                    message_id,
                    is_processed,
                    now,
                    r2,
                    l2,
                    d,
                    mid,
                    answer,
                );
            if o.router.unchecked.contains_key(message_id) && !is_processed {
                let resumed = RouterView {
                    unchecked: o.router.unchecked.remove(message_id),
                    ..o.router
                };
                a_new_message_keeps_prekeys(
                    engine,
                    resumed,
                    o.life,
                    o.router.unchecked[message_id],
                    now,
                    r2,
                    l2,
                    d,
                );
            }
            an_answer_keeps_prekeys(orchestrator::with_core(o, r2, l2), d, now);
        },
        EventView::SessionInitCompleted { contact_id, session_data } => {
            a_completion_keeps_prekeys(engine, o, contact_id, session_data, now, mid, answer);
        },
        EventView::OutgoingMessage { contact_id, message_id, plaintext, content_type } => {
            a_sent_message_keeps_prekeys(
                engine,
                o,
                contact_id,
                message_id,
                plaintext,
                content_type,
                mid,
                answer,
            );
        },
        EventView::OutgoingCallSignal { contact_id, message_id, proto_bytes } => {
            a_sent_message_keeps_prekeys(
                engine,
                o,
                contact_id,
                message_id,
                proto_bytes,
                0,
                mid,
                answer,
            );
        },
        EventView::NetworkReconnected => {
            let (order, drained) = choose|order: Seq<Seq<char>>, drained: Seq<ActionView>|
                #![trigger settling::drained_all_may(engine, o, order, now, mid, drained)]
                settling::drained_all_may(engine, o, order, now, mid, drained);
            drains_keep_prekeys(engine, o, order, now, mid, drained);
        },
        EventView::TimerFired { timer_id } => {
            if timer_id != "gc_sweep"@ && timer_id == "pq_upgrade_sweep"@ {
                let cs = choose|cs: Seq<Seq<char>>|
                    timers::lists_candidates(cs, o) && (mid, answer)
                        == #[trigger] timers::upgrade_swept(o, cs, now);
                upgrades_keep_prekeys(o, cs.take(timers::batch_of(cs.len())), now);
            }
        },
        _ => {},
    }
}

/// Whether a one-time prekey that `o` holds is burned in `next`.
pub open spec fn burned(o: OrchView, next: OrchView) -> bool {
    prekeys(next).otpks.len() < prekeys(o).otpks.len()
}

/// Whether the mark says of the prekeys what became of them: a burn is marked, at most one prekey
/// is burned, and nothing else changes.
pub open spec fn marks_its_burn(o: OrchView, next: OrchView) -> bool {
    &&& next.kyber_dirty <==> o.kyber_dirty || burned(o, next)
    &&& prekeys(next) == (KyberView { otpks: prekeys(next).otpks, ..prekeys(o) })
    &&& burned(o, next) ==> prekeys(next).otpks.len() == prekeys(o).otpks.len() - 1
    &&& !burned(o, next) ==> prekeys(next) == prekeys(o)
    &&& kyber_prekeys::well_numbered(prekeys(next))
}

proof fn a_verified_message_marks_its_burn<E: CryptoEngine>(
    engine: &E,
    o: OrchView,
    contact: Seq<char>,
    bundle: KeyBundleView,
    m: RatchetMessageView,
    one_time_prekey_id: u32,
    kem: KemView,
    ok: bool,
    next: OrchView,
    result: Result<Seq<u8>, Seq<char>>,
)
    requires
        kyber_prekeys::well_numbered(prekeys(o)),
        responding::verified_may(
            engine,
            o,
            contact,
            bundle,
            m,
            one_time_prekey_id,
            kem,
            ok,
            next,
            result,
        ),
    ensures
        marks_its_burn(o, next),
        result is Err ==> next == o,
{
    let k = prekeys(o);
    kyber_prekeys::a_burn_takes_one_key(k, kem.kyber_prekey_id);
    kyber_prekeys::prekeys_stay_well_numbered(
        k,
        kem.kyber_prekey_id,
        Seq::empty(),
        Seq::empty(),
        0,
    );
}

/// A first message burns at most one one-time prekey, and the burn is marked, if and only if it
/// burned one.
pub proof fn a_first_message_marks_its_burn<E: CryptoEngine>(
    engine: &E,
    o: OrchView,
    contact: Seq<char>,
    bundle: BundleView,
    first: FirstView,
    next: OrchView,
    result: Result<Seq<u8>, Seq<char>>,
)
    requires
        kyber_prekeys::well_numbered(prekeys(o)),
        responding::received_may(engine, o, contact, bundle, first, next, result),
    ensures
        marks_its_burn(o, next),
        result is Err ==> next == o,
{
    let a = messaging::assembled(
        first.ephemeral_public_key,
        first.message_number,
        first.content,
        first.suite_id,
        first.pq_message_epoch,
        first.pq_ratchet_field,
    );
    if a is Ok {
        let ok = choose|ok: bool| #[trigger]
            responding::verified_may(
                engine,
                o,
                contact,
                responding::key_part(bundle),
                a->Ok_0,
                first.one_time_prekey_id,
                responding::kem_part(first),
                ok,
                next,
                result,
            );
        a_verified_message_marks_its_burn(
            engine,
            o,
            contact,
            responding::key_part(bundle),
            a->Ok_0,
            first.one_time_prekey_id,
            responding::kem_part(first),
            ok,
            next,
            result,
        );
    }
}

/// So does a payload a session is opened from.
pub proof fn a_payload_marks_its_burn<E: CryptoEngine>(
    engine: &E,
    o: OrchView,
    contact: Seq<char>,
    bundle: KeyBundleView,
    payload: Seq<u8>,
    next: OrchView,
    result: Result<Seq<u8>, Seq<char>>,
)
    requires
        kyber_prekeys::well_numbered(prekeys(o)),
        responding::wire_received_may(engine, o, contact, bundle, payload, next, result),
    ensures
        marks_its_burn(o, next),
        result is Err ==> next == o,
{
    let x = responding::opener_of(payload);
    if x is Ok && suite_id::suite_of(bundle.suite_id) is Some {
        let (f, m) = x->Ok_0;
        let kem = responding::kem_part(responding::first_of(f));
        let ok = choose|ok: bool| #[trigger]
            responding::verified_may(
                engine,
                o,
                contact,
                bundle,
                m,
                f.one_time_prekey_id,
                kem,
                ok,
                next,
                result,
            );
        a_verified_message_marks_its_burn(
            engine,
            o,
            contact,
            bundle,
            m,
            f.one_time_prekey_id,
            kem,
            ok,
            next,
            result,
        );
    }
}

proof fn an_opened_session_keeps_prekeys<E: CryptoEngine>(
    engine: &E,
    o: OrchView,
    claimed: Seq<char>,
    device: Seq<char>,
    opener: MessageView,
    plaintext: Seq<u8>,
    replaced: Option<Seq<u8>>,
    now: u64,
    next: OrchView,
    out: ReceivingView,
)
    requires
        receiving::opened_may(
            engine,
            o,
            claimed,
            device,
            opener,
            plaintext,
            replaced,
            now,
            next,
            out,
        ),
    ensures
        keeps_prekeys(o, next),
{
    let (ready, first) = receiving::opener_answered(
        o,
        claimed,
        device,
        opener,
        plaintext,
        replaced,
        now,
    );
    assert(keeps_prekeys(o, ready));
    let settled = choose|settled: Seq<ActionView>| #[trigger]
        settling::settled_may(engine, ready, device, now, next, settled) && out == (ReceivingView {
            opened_device: Some(device),
            opener_message_id: Some(opener.message_id),
            actions: first + settled,
            tried_message_ids: Seq::empty(),
            dropped_message_ids: Seq::empty(),
            last_error: None,
        });
    let (x, drained) = choose|x: Result<Seq<u8>, Seq<char>>, drained: Seq<ActionView>| #[trigger]
        settling::settled_outcome(engine, ready, device, now, x, drained, next, settled);
    a_drain_keeps_prekeys(engine, ready, device, now, next, drained);
}

proof fn a_walk_marks_its_burn<E: CryptoEngine>(
    engine: &E,
    o: OrchView,
    claimed: Seq<char>,
    queued: Seq<MessageView>,
    bundles: Seq<BundleView>,
    plan: Seq<ReceivingInitAttempt>,
    tried: Seq<Seq<char>>,
    last_error: Option<Seq<char>>,
    now: u64,
    next: OrchView,
    out: ReceivingView,
)
    requires
        kyber_prekeys::well_numbered(prekeys(o)),
        receiving::walk_may(
            engine,
            o,
            claimed,
            queued,
            bundles,
            plan,
            tried,
            last_error,
            now,
            next,
            out,
        ),
    ensures
        marks_its_burn(o, next),
        out.opened_device is None ==> keeps_prekeys(o, next),
    decreases plan.len(),
{
    if plan.len() == 0 {
    } else if !receiving::can_try(queued, bundles, plan[0]) {
        a_walk_marks_its_burn(
            engine,
            o,
            claimed,
            queued,
            bundles,
            plan.drop_first(),
            tried,
            last_error,
            now,
            next,
            out,
        );
    } else {
        let carrier = queued[plan[0].carrier_index as int];
        let bundle = bundles[plan[0].bundle_index as int];
        let first = responding::first_message_of(carrier.wire_payload)->Ok_0;
        let (device, x, left, result) = choose|
            device: Seq<char>,
            x: Result<Seq<u8>, Seq<char>>,
            left: OrchView,
            result: Result<Seq<u8>, Seq<char>>,
        | #[trigger]
            receiving::attempt_outcome(engine, o, bundle, first, device, x, left, result)
                && match result {
                Ok(plaintext) => receiving::opened_may(
                    engine,
                    left,
                    claimed,
                    device,
                    carrier,
                    plaintext,
                    receiving::archivable(x),
                    now,
                    next,
                    out,
                ),
                Err(e) => receiving::walk_may(
                    engine,
                    o,
                    claimed,
                    queued,
                    bundles,
                    plan.drop_first(),
                    receiving::tried_with(tried, carrier.message_id),
                    Some(e),
                    now,
                    next,
                    out,
                ),
            };
        match result {
            Ok(plaintext) => {
                let aside = opening::set_aside(o, device);
                assert(keeps_prekeys(o, aside));
                a_first_message_marks_its_burn(
                    engine,
                    aside,
                    device,
                    bundle,
                    first,
                    left,
                    result,
                );
                an_opened_session_keeps_prekeys(
                    engine,
                    left,
                    claimed,
                    device,
                    carrier,
                    plaintext,
                    receiving::archivable(x),
                    now,
                    next,
                    out,
                );
            },
            Err(e) => {
                a_walk_marks_its_burn(
                    engine,
                    o,
                    claimed,
                    queued,
                    bundles,
                    plan.drop_first(),
                    receiving::tried_with(tried, carrier.message_id),
                    Some(e),
                    now,
                    next,
                    out,
                );
            },
        }
    }
}

/// So does opening a session from what waits: however many messages and bundles are tried, at most
/// one one-time prekey is burned, and none if nothing opened.
pub proof fn a_receiving_open_marks_its_burn<E: CryptoEngine>(
    engine: &E,
    o: OrchView,
    claimed: Seq<char>,
    bundles: Seq<BundleView>,
    now: u64,
    next: OrchView,
    out: ReceivingView,
)
    requires
        kyber_prekeys::well_numbered(prekeys(o)),
        receiving::open_receiving_may(engine, o, claimed, bundles, now, next, out),
    ensures
        marks_its_burn(o, next),
        out.opened_device is None ==> keeps_prekeys(o, next),
{
    let queued = message_router::waiting(o.router, claimed);
    a_walk_marks_its_burn(
        engine,
        o,
        claimed,
        queued,
        bundles,
        receiving::walk_plan(queued, bundles),
        Seq::empty(),
        None,
        now,
        next,
        out,
    );
}

/// Whether a session is opened as RESPONDER from the state `o`, leaving `next`: from a first
/// message, from a payload, or from what waits.
pub open spec fn responds<E: CryptoEngine>(engine: &E, o: OrchView, next: OrchView) -> bool {
    ||| exists|
        contact: Seq<char>,
        bundle: BundleView,
        first: FirstView,
        result: Result<Seq<u8>, Seq<char>>,
    | #[trigger]
        responding::received_may(engine, o, contact, bundle, first, next, result)
    ||| exists|
        contact: Seq<char>,
        bundle: KeyBundleView,
        payload: Seq<u8>,
        result: Result<Seq<u8>, Seq<char>>,
    | #[trigger]
        responding::wire_received_may(engine, o, contact, bundle, payload, next, result)
    ||| exists|claimed: Seq<char>, bundles: Seq<BundleView>, now: u64, out: ReceivingView|
        #[trigger]
        receiving::open_receiving_may(engine, o, claimed, bundles, now, next, out)
}

/// Opening a session as RESPONDER marks a burn if and only if it burned a one-time prekey.
pub proof fn responding_marks_its_burn<E: CryptoEngine>(engine: &E, o: OrchView, next: OrchView)
    requires
        kyber_prekeys::well_numbered(prekeys(o)),
        responds(engine, o, next),
    ensures
        marks_its_burn(o, next),
{
    if exists|
        contact: Seq<char>,
        bundle: BundleView,
        first: FirstView,
        result: Result<Seq<u8>, Seq<char>>,
    | #[trigger]
        responding::received_may(engine, o, contact, bundle, first, next, result) {
        let (contact, bundle, first, result) = choose|
            contact: Seq<char>,
            bundle: BundleView,
            first: FirstView,
            result: Result<Seq<u8>, Seq<char>>,
        | #[trigger]
            responding::received_may(engine, o, contact, bundle, first, next, result);
        a_first_message_marks_its_burn(engine, o, contact, bundle, first, next, result);
    } else if exists|
        contact: Seq<char>,
        bundle: KeyBundleView,
        payload: Seq<u8>,
        result: Result<Seq<u8>, Seq<char>>,
    | #[trigger]
        responding::wire_received_may(engine, o, contact, bundle, payload, next, result) {
        let (contact, bundle, payload, result) = choose|
            contact: Seq<char>,
            bundle: KeyBundleView,
            payload: Seq<u8>,
            result: Result<Seq<u8>, Seq<char>>,
        | #[trigger]
            responding::wire_received_may(engine, o, contact, bundle, payload, next, result);
        a_payload_marks_its_burn(engine, o, contact, bundle, payload, next, result);
    } else {
        let (claimed, bundles, now, out) = choose|
            claimed: Seq<char>,
            bundles: Seq<BundleView>,
            now: u64,
            out: ReceivingView,
        | #[trigger]
            receiving::open_receiving_may(engine, o, claimed, bundles, now, next, out);
        a_receiving_open_marks_its_burn(engine, o, claimed, bundles, now, next, out);
    }
}

/// Whether the `i`-th step of a run of states opened a session as RESPONDER and burned a one-time
/// prekey.
pub open spec fn burned_at<E: CryptoEngine>(engine: &E, states: Seq<OrchView>, i: int) -> bool {
    responds(engine, states[i], states[i + 1]) && burned(states[i], states[i + 1])
}

/// Whether each step of a run of states opens a session as RESPONDER, handles an event, or is one
/// of those that leave the mark of a burn alone.
pub open spec fn steps_between<E: CryptoEngine>(engine: &E, states: Seq<OrchView>) -> bool {
    forall|i: int|
        0 <= i < states.len() - 1 ==> {
            ||| responds(engine, #[trigger] states[i], states[i + 1])
            ||| exists|event: EventView, now: u64, actions: Seq<ActionView>| #[trigger]
                events::event_may(engine, states[i], event, now, states[i + 1], actions)
            ||| states[i + 1].kyber_dirty == states[i].kyber_dirty
        }
}

proof fn a_run_marks_its_burns<E: CryptoEngine>(engine: &E, states: Seq<OrchView>, n: int)
    requires
        0 <= n < states.len(),
        !states[0].kyber_dirty,
        forall|i: int|
            0 <= i < states.len() ==> kyber_prekeys::well_numbered(prekeys(#[trigger] states[i])),
        steps_between(engine, states),
    ensures
        states[n].kyber_dirty <==> exists|i: int| 0 <= i < n && #[trigger] burned_at(engine, states, i),
    decreases n,
{
    if n > 0 {
        a_run_marks_its_burns(engine, states, n - 1);
        let o = states[n - 1];
        let next = states[n];
        assert(kyber_prekeys::well_numbered(prekeys(o)));
        if responds(engine, o, next) {
            responding_marks_its_burn(engine, o, next);
            assert(burned_at(engine, states, n - 1) <==> burned(o, next));
        } else {
            assert(!burned_at(engine, states, n - 1));
            if exists|event: EventView, now: u64, actions: Seq<ActionView>| #[trigger]
                events::event_may(engine, o, event, now, next, actions) {
                let (event, now, actions) = choose|
                    event: EventView,
                    now: u64,
                    actions: Seq<ActionView>,
                | #[trigger]
                    events::event_may(engine, o, event, now, next, actions);
                an_event_burns_nothing(engine, o, event, now, next, actions);
            }
            assert(next.kyber_dirty == o.kyber_dirty);
        }
    }
}

/// The prekeys are handed out to be persisted exactly when one was burned.
///
/// From a fresh orchestrator, or from one whose prekeys were taken, any number of steps follow.
/// Then taking the prekeys gives a record of those held now, as the engine writes it, if and only
/// if one of the steps opened a session as RESPONDER and burned a one-time prekey; otherwise the
/// engine is not asked and there is no record. Taking them once more gives none and changes
/// nothing.
pub proof fn prekeys_are_handed_out_once_burned<E: CryptoEngine>(
    engine: &E,
    states: Seq<OrchView>,
    next: OrchView,
    record: Option<Seq<u8>>,
    again: OrchView,
    record_again: Option<Seq<u8>>,
    client: ClientView,
    user_id: Seq<char>,
)
    requires
        states.len() > 0,
        states[0] == orchestrator::fresh(client, user_id) || (exists|
            before: OrchView,
            taken: Option<Seq<u8>>,
        | #[trigger]
            taken_may(engine, before, states[0], taken)),
        forall|i: int|
            0 <= i < states.len() ==> kyber_prekeys::well_numbered(prekeys(#[trigger] states[i])),
        steps_between(engine, states),
        taken_may(engine, states.last(), next, record),
        taken_may(engine, next, again, record_again),
    ensures
        if exists|i: int| 0 <= i < states.len() - 1 && #[trigger] burned_at(engine, states, i) {
            exists|x: Result<Seq<u8>, Seq<char>>| #[trigger]
                engine::said_encode_kyber_prekeys(engine, prekeys(states.last()), x) && record == (
                match x {
                    Ok(data) => Some(data),
                    Err(_) => None,
                })
        } else {
            record is None
        },
        prekeys(next) == prekeys(states.last()),
        record_again is None,
        again == next,
{
    a_run_marks_its_burns(engine, states, states.len() - 1);
}

} // verus!
