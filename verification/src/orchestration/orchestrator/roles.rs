//! Which side rebuilds a session: the device with the higher id, and every heal says so.

use vstd::prelude::*;

use crate::crypto::engine::CryptoEngine;
use crate::orchestration::ack_store;
use crate::orchestration::actions::{ActionView, EventView};
use crate::orchestration::message_router::{self, DecisionView, MessageView, RouterView};
use crate::orchestration::orchestrator::asking;
use crate::orchestration::orchestrator::answering;
use crate::orchestration::orchestrator::decisions;
use crate::orchestration::orchestrator::draining;
use crate::orchestration::orchestrator::events;
use crate::orchestration::orchestrator::settling;
use crate::orchestration::orchestrator::timers;
use crate::orchestration::orchestrator::{self, OrchView};
use crate::orchestration::pq_contribution::DeferredView;
use crate::orchestration::session_lifecycle::{self, DecryptResultView, LifeView};
use crate::orchestration::session_machine::{self, Effect, Event};
use crate::str_map;
use crate::strings;

verus! {

/// The role of the device `local` towards `contact`, as it is told: the initiator is the one with
/// the higher id.
pub open spec fn own_role(local: Seq<char>, contact: Seq<char>) -> Seq<char> {
    if strings::lex_less(contact, local) {
        "Initiator"@
    } else {
        "Responder"@
    }
}

/// A heal that is asked for names the role this device takes in it.
pub open spec fn tells_own_role(a: ActionView, local: Seq<char>) -> bool {
    a matches ActionView::SessionHealNeeded { contact_id, role } ==> role == own_role(
        local,
        contact_id,
    )
}

/// Every heal among these names the role this device takes in it.
pub open spec fn all_tell_own_role(actions: Seq<ActionView>, local: Seq<char>) -> bool {
    forall|k: int| 0 <= k < actions.len() ==> tells_own_role(#[trigger] actions[k], local)
}

/// What a decision brings along asks for no heal, and the heal it may be names the own role.
pub open spec fn decides_own_role(d: DecisionView, local: Seq<char>) -> bool {
    match d {
        DecisionView::SessionHealNeeded { contact_id, role, is_handshake, reason, refused } => (
        role is Initiator <==> strings::lex_less(contact_id, local)),
        DecisionView::Decrypted {
            contact_id,
            message_id,
            plaintext,
            content_type,
            actions,
        } => all_tell_own_role(actions, local),
        DecisionView::EndSessionReceived { contact_id, actions } => all_tell_own_role(
            actions,
            local,
        ),
        _ => true,
    }
}

proof fn contributions_ask_for_no_heal<E: CryptoEngine>(
    engine: &E,
    l: LifeView,
    contact: Seq<char>,
    next: LifeView,
    actions: Seq<ActionView>,
    local: Seq<char>,
)
    requires
        session_lifecycle::contribution_may(engine, l, contact, next, actions),
    ensures
        all_tell_own_role(actions, local),
        next.client.local_user_id == l.client.local_user_id,
{
    if l.deferred.contains_key(contact) {
        let (m, x, entries, y) = choose|
            m: Result<Seq<u8>, Seq<char>>,
            x: Result<Seq<u8>, Seq<char>>,
            entries: Seq<(Seq<char>, DeferredView)>,
            y: Result<Seq<u8>, Seq<char>>,
        | #[trigger]
            session_lifecycle::contribution_outcome(
                engine,
                l,
                contact,
                l.deferred[contact].shared_secret,
                m,
                x,
                entries,
                y,
                next,
                actions,
            );
    }
}

/// A heal raised by a refused message names the role of this device: it is the initiator's exactly
/// when the contact's id comes before the id of this device. Routing never changes that id.
pub proof fn a_raised_heal_names_the_own_role<E: CryptoEngine>(
    engine: &E,
    r: RouterView,
    l: LifeView,
    m: MessageView,
    now: u64,
    r2: RouterView,
    l2: LifeView,
    d: DecisionView,
)
    requires
        message_router::route_may(engine, r, l, m, now, r2, l2, d),
    ensures
        d matches DecisionView::SessionHealNeeded {
            contact_id,
            role,
            is_handshake,
            reason,
            refused,
        } ==> contact_id == m.contact_id && (role is Initiator <==> strings::lex_less(
            contact_id,
            l.client.local_user_id,
        )) && (role is Responder <==> !strings::lex_less(contact_id, l.client.local_user_id)),
        decides_own_role(d, l.client.local_user_id),
        l2.client.local_user_id == l.client.local_user_id,
{
    if !m.is_control && ack_store::ack_check(l.ack, m.message_id) is NotProcessed {
        a_new_message_names_the_own_role(engine, r, l, m, now, r2, l2, d);
    }
}

proof fn a_new_message_names_the_own_role<E: CryptoEngine>(
    engine: &E,
    r: RouterView,
    l: LifeView,
    m: MessageView,
    now: u64,
    r2: RouterView,
    l2: LifeView,
    d: DecisionView,
)
    requires
        message_router::new_message_may(engine, r, l, m, now, r2, l2, d),
    ensures
        d matches DecisionView::SessionHealNeeded {
            contact_id,
            role,
            is_handshake,
            reason,
            refused,
        } ==> contact_id == m.contact_id,
        decides_own_role(d, l.client.local_user_id),
        l2.client.local_user_id == l.client.local_user_id,
{
    if l.client.sessions.contains_key(m.contact_id) {
        let (tried, x) = choose|tried: LifeView, x: Result<DecryptResultView, Seq<char>>| #[trigger]
            message_router::tried_may(engine, l, m, tried, x, now, l2, d);
        if x is Ok {
            let pq = choose|pq: Seq<ActionView>|
                session_lifecycle::contribution_may(
                    engine,
                    message_router::life_marked(tried, m, now),
                    m.contact_id,
                    l2,
                    pq,
                ) && d == #[trigger] message_router::accepted(m, x->Ok_0, now, tried, pq);
            contributions_ask_for_no_heal(
                engine,
                message_router::life_marked(tried, m, now),
                m.contact_id,
                l2,
                pq,
                l.client.local_user_id,
            );
        }
    }
}

proof fn an_answer_tells_the_own_role(o: OrchView, d: DecisionView, now: u64, local: Seq<char>)
    requires
        decides_own_role(d, local),
    ensures
        all_tell_own_role(decisions::conclude(o, d, now).1, local),
{
}

proof fn a_drain_tells_the_own_role<E: CryptoEngine>(
    engine: &E,
    o: OrchView,
    contact: Seq<char>,
    now: u64,
    next: OrchView,
    actions: Seq<ActionView>,
)
    requires
        settling::drained_may(engine, o, contact, now, next, actions),
    ensures
        all_tell_own_role(actions, o.life.client.local_user_id),
        next.life.client.local_user_id == o.life.client.local_user_id,
{
    let local = o.life.client.local_user_id;
    let ms = message_router::waiting(o.router, contact);
    let taken = message_router::with_queue(o.router, contact, Seq::empty());
    let w = draining::a_drain_goes_message_by_message(engine, o, contact, now, next, actions);
    the_id_stays(engine, taken, o.life, o, ms, now, w, ms.len() as int);
    assert forall|k: int| 0 <= k < actions.len() implies tells_own_role(
        #[trigger] actions[k],
        local,
    ) by {
        let i = draining::part_of(w.parts, k);
        the_id_stays(engine, taken, o.life, o, ms, now, w, i);
        assert(message_router::route_may(
            engine,
            w.routers[i],
            w.lives[i],
            ms[i],
            now,
            w.routers[i + 1],
            w.lives[i + 1],
            w.decisions[i],
        ));
        a_raised_heal_names_the_own_role(
            engine,
            w.routers[i],
            w.lives[i],
            ms[i],
            now,
            w.routers[i + 1],
            w.lives[i + 1],
            w.decisions[i],
        );
        an_answer_tells_the_own_role(w.states[i], w.decisions[i], now, local);
        assert((w.states[i + 1], w.parts[i]) == decisions::conclude(
            w.states[i],
            w.decisions[i],
            now,
        ));
    }
}

proof fn the_id_stays<E: CryptoEngine>(
    engine: &E,
    r: RouterView,
    l: LifeView,
    o: OrchView,
    ms: Seq<MessageView>,
    now: u64,
    w: draining::Drain,
    n: int,
)
    requires
        draining::is_drain(engine, r, l, o, ms, now, w),
        0 <= n <= ms.len(),
    ensures
        w.lives[n].client.local_user_id == l.client.local_user_id,
    decreases n,
{
    if n > 0 {
        the_id_stays(engine, r, l, o, ms, now, w, n - 1);
        let i = n - 1;
        assert(message_router::route_may(
            engine,
            w.routers[i],
            w.lives[i],
            ms[i],
            now,
            w.routers[i + 1],
            w.lives[i + 1],
            w.decisions[i],
        ));
        a_raised_heal_names_the_own_role(
            engine,
            w.routers[i],
            w.lives[i],
            ms[i],
            now,
            w.routers[i + 1],
            w.lives[i + 1],
            w.decisions[i],
        );
    }
}

proof fn all_drains_tell_the_own_role<E: CryptoEngine>(
    engine: &E,
    o: OrchView,
    order: Seq<Seq<char>>,
    now: u64,
    next: OrchView,
    actions: Seq<ActionView>,
)
    requires
        settling::drained_all_may(engine, o, order, now, next, actions),
    ensures
        all_tell_own_role(actions, o.life.client.local_user_id),
        next.life.client.local_user_id == o.life.client.local_user_id,
    decreases order.len(),
{
    if order.len() > 0 {
        let (mid, before, last) = choose|
            mid: OrchView,
            before: Seq<ActionView>,
            last: Seq<ActionView>,
        |
            settling::drained_all_may(engine, o, order.drop_last(), now, mid, before)
                && #[trigger] settling::drained_may(engine, mid, order.last(), now, next, last)
                && actions == #[trigger] (before + last);
        all_drains_tell_the_own_role(engine, o, order.drop_last(), now, mid, before);
        a_drain_tells_the_own_role(engine, mid, order.last(), now, next, last);
    }
}

proof fn a_settled_session_tells_the_own_role<E: CryptoEngine>(
    engine: &E,
    o: OrchView,
    contact: Seq<char>,
    now: u64,
    next: OrchView,
    actions: Seq<ActionView>,
)
    requires
        settling::settled_may(engine, o, contact, now, next, actions),
    ensures
        all_tell_own_role(actions, o.life.client.local_user_id),
        next.life.client.local_user_id == o.life.client.local_user_id,
{
    let (x, drained) = choose|x: Result<Seq<u8>, Seq<char>>, drained: Seq<ActionView>| #[trigger]
        settling::settled_outcome(engine, o, contact, now, x, drained, next, actions);
    a_drain_tells_the_own_role(engine, o, contact, now, next, drained);
}

proof fn an_alarm_tells_the_own_role(
    o: OrchView,
    timer_id: Seq<char>,
    now: u64,
    next: OrchView,
    actions: Seq<ActionView>,
    local: Seq<char>,
)
    requires
        timers::timer_may(o, timer_id, now, next, actions),
    ensures
        all_tell_own_role(actions, local),
        next.life.client == o.life.client,
{
    if timer_id == "gc_sweep"@ {
    } else if timer_id == "pq_upgrade_sweep"@ {
        let cs = choose|cs: Seq<Seq<char>>|
            timers::lists_candidates(cs, o) && (next, actions) == #[trigger] timers::upgrade_swept(
                o,
                cs,
                now,
            );
        upgrades_tell_the_own_role(o, cs.take(timers::batch_of(cs.len())), now, local);
    }
}

proof fn upgrades_tell_the_own_role(o: OrchView, cs: Seq<Seq<char>>, now: u64, local: Seq<char>)
    ensures
        all_tell_own_role(timers::upgrades_asked(o, cs, now).1, local),
        timers::upgrades_asked(o, cs, now).0.life == o.life,
    decreases cs.len(),
{
    if cs.len() > 0 {
        upgrades_tell_the_own_role(o, cs.drop_last(), now, local);
    }
}

/// Whatever event leads to a heal, the role the heal names is the role of this device: the
/// initiator's exactly when the contact's id comes before the own. No event changes the own id.
pub proof fn every_heal_names_the_own_role<E: CryptoEngine>(
    engine: &E,
    o: OrchView,
    event: EventView,
    now: u64,
    next: OrchView,
    actions: Seq<ActionView>,
)
    requires
        events::event_may(engine, o, event, now, next, actions),
    ensures
        all_tell_own_role(actions, o.life.client.local_user_id),
        next.life.client.local_user_id == o.life.client.local_user_id,
{
    let local = o.life.client.local_user_id;
    let (mid, answer) = answering::an_event_is_answered_first(
        engine,
        o,
        event,
        now,
        next,
        actions,
    );
    dispatch_tells_the_own_role(engine, o, event, now, mid, answer);
    assert forall|k: int| 0 <= k < actions.len() implies tells_own_role(
        #[trigger] actions[k],
        local,
    ) by {
        if k < answer.len() {
            assert(actions.take(answer.len() as int)[k] == answer[k]);
        }
    }
}

proof fn dispatch_tells_the_own_role<E: CryptoEngine>(
    engine: &E,
    o: OrchView,
    event: EventView,
    now: u64,
    next: OrchView,
    actions: Seq<ActionView>,
)
    requires
        events::dispatch_may(engine, o, event, now, next, actions),
    ensures
        all_tell_own_role(actions, o.life.client.local_user_id),
        next.life.client.local_user_id == o.life.client.local_user_id,
{
    let local = o.life.client.local_user_id;
    match event {
        EventView::MessageReceived {
            message_id,
            from,
            data,
            msg_num,
            kem_ct,
            otpk_id,
            is_control,
            content_type,
        } => {
            let number = events::routing_number(data, msg_num, kem_ct, is_control);
            if number is Ok {
                let m = MessageView {
                    contact_id: from,
                    wire_payload: data,
                    message_id,
                    msg_number: number->Ok_0,
                    is_control,
                    content_type,
                };
                let (r2, l2, d, saved) = choose|
                    r2: RouterView,
                    l2: LifeView,
                    d: DecisionView,
                    saved: Result<Seq<u8>, Seq<char>>,
                | #[trigger]
                    events::routed_outcome(engine, o, m, now, r2, l2, d, saved, next, actions);
                a_raised_heal_names_the_own_role(engine, o.router, o.life, m, now, r2, l2, d);
                let core = orchestrator::with_core(o, r2, l2);
                an_answer_tells_the_own_role(core, d, now, local);
                decisions::an_answer_touches_no_session(core, d, now);
            }
        },
        EventView::AckDbResult { message_id, is_processed } => {
            let (r2, l2, d) = choose|r2: RouterView, l2: LifeView, d: DecisionView| #[trigger]
                events::resumed_outcome(
                    engine,
                    o,
                    message_id,
                    is_processed,
                    now,
                    r2,
                    l2,
                    d,
                    next,
                    actions,
                );
            if o.router.unchecked.contains_key(message_id) && !is_processed {
                let resumed = RouterView {
                    unchecked: o.router.unchecked.remove(message_id),
                    ..o.router
                };
                a_new_message_names_the_own_role(
                    engine,
                    resumed,
                    o.life,
                    o.router.unchecked[message_id],
                    now,
                    r2,
                    l2,
                    d,
                );
            }
            let core = orchestrator::with_core(o, r2, l2);
            an_answer_tells_the_own_role(core, d, now, local);
            decisions::an_answer_touches_no_session(core, d, now);
        },
        EventView::HeartbeatReceived { contact_id, message_id, data, msg_num } => {
            let m = MessageView {
                contact_id,
                wire_payload: data,
                message_id,
                msg_number: msg_num,
                is_control: false,
                content_type: decisions::CT_HEARTBEAT,
            };
            let (r2, l2, d) = choose|r2: RouterView, l2: LifeView, d: DecisionView| #[trigger]
                events::heartbeat_outcome(engine, o, m, now, r2, l2, d, next, actions);
            a_raised_heal_names_the_own_role(engine, o.router, o.life, m, now, r2, l2, d);
            let core = orchestrator::with_core(o, r2, l2);
            an_answer_tells_the_own_role(core, d, now, local);
            decisions::an_answer_touches_no_session(core, d, now);
        },
        EventView::OutgoingMessage { contact_id, message_id, plaintext, content_type } => {},
        EventView::OutgoingCallSignal { contact_id, message_id, proto_bytes } => {},
        EventView::SessionInitCompleted { contact_id, session_data } => {
            let (l2, imported) = choose|l2: LifeView, imported: Result<(), Seq<char>>| #[trigger]
                settling::completed_outcome(
                    engine,
                    o,
                    contact_id,
                    session_data,
                    now,
                    l2,
                    imported,
                    next,
                    actions,
                );
            let done = settling::opening_over(o, contact_id, now);
            if imported is Ok {
                a_settled_session_tells_the_own_role(
                    engine,
                    OrchView { life: l2, ..done },
                    contact_id,
                    now,
                    next,
                    actions,
                );
            }
        },
        EventView::NetworkReconnected => {
            let (order, drained) = choose|order: Seq<Seq<char>>, drained: Seq<ActionView>|
                #![trigger settling::drained_all_may(engine, o, order, now, next, drained)]
                str_map::names_keys(order, o.router.queues) && settling::drained_all_may(
                    engine,
                    o,
                    order,
                    now,
                    next,
                    drained,
                ) && actions == seq![decisions::schedule("gc_sweep"@, 1_000)] + drained;
            all_drains_tell_the_own_role(engine, o, order, now, next, drained);
        },
        EventView::TimerFired { timer_id } => {
            an_alarm_tells_the_own_role(o, timer_id, now, next, actions, local);
        },
        _ => {},
    }
}

/// Of two devices with different ids exactly one initiates, and it is the one with the higher id.
pub proof fn the_higher_id_initiates(a: Seq<char>, b: Seq<char>)
    requires
        a != b,
    ensures
        message_router::role_of(a, b) is Initiator <==> strings::lex_less(b, a),
        message_router::role_of(a, b) is Initiator <==> message_router::role_of(b, a) is Responder,
        own_role(a, b) == "Initiator"@ && own_role(b, a) == "Responder"@ || own_role(a, b)
            == "Responder"@ && own_role(b, a) == "Initiator"@,
{
    strings::lex_total(a, b);
    strings::lex_asymmetric(a, b);
}

/// A reopen leaves the rebuild to the peer exactly when the peer has the higher id, or the same.
pub proof fn a_reopen_yields_to_the_higher_id(o: OrchView, contact: Seq<char>, now: u64)
    ensures
        ({
            let peer_rebuilds = !strings::lex_less(contact, o.life.client.local_user_id);
            let (machine, effect) = session_machine::machine_step(
                o.machine,
                contact,
                now,
                Event::WantToReopen { peer_rebuilds },
            );
            let (next, actions) = asking::reopen_asked(o, contact, now);
            &&& next == (OrchView { machine, ..o })
            &&& effect is Open <==> actions == seq![ActionView::OpenSession { contact_id: contact }]
            &&& effect is WaitForOpen <==> actions.len() == 0
            &&& effect matches Effect::DeferOpen {
                retry_after_ms,
            } ==> actions == seq![
                ActionView::OpenDeferred { contact_id: contact, retry_after_ms },
                ActionView::ScheduleTimer {
                    timer_id: "reopen:"@ + contact,
                    delay_ms: retry_after_ms,
                },
            ]
        }),
{
    let (next, actions) = asking::reopen_asked(o, contact, now);
    assert(actions.len() > 0 ==> actions[0] is OpenSession || actions[0] is OpenDeferred);
}

} // verus!
