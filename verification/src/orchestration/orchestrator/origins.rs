//! Where what is handed back and what is paid comes from.
//!
//! No event invents a message or a debt: what waits, what is held and what is handed back was
//! brought by an event, and a teardown an alarm pays was deferred by one. So nothing of a contact
//! that was forgotten comes back on its own.

use vstd::prelude::*;

use crate::crypto::engine::CryptoEngine;
use crate::orchestration::ack_store;
use crate::orchestration::actions::{ActionView, EventView};
use crate::orchestration::message_router::{
    self, DecisionView, MessageView, RouterView,
};
use crate::orchestration::orchestrator::decisions::{self, CT_HEARTBEAT};
use crate::orchestration::orchestrator::events;
use crate::orchestration::orchestrator::holds;
use crate::orchestration::orchestrator::messaging;
use crate::orchestration::orchestrator::settling;
use crate::orchestration::orchestrator::timers;
use crate::orchestration::orchestrator::{self, OrchView};
use crate::orchestration::session_lifecycle::{self, DecryptResultView, LifeView};
use crate::orchestration::session_machine::{self, Event as SessionEvent};
use crate::str_map;
use crate::strings;

verus! {

// ── Messages ────────────────────────────────────────────────────────────────

/// Whether every message that waits for a session or for the durable store is among `s`, by its
/// device and its id, and each queue holds messages of its own device.
pub open spec fn waits_from(r: RouterView, s: Set<(Seq<char>, Seq<char>)>) -> bool {
    &&& forall|k: Seq<char>| #[trigger] r.queues.contains_key(k) ==> queue_from(r.queues[k], k, s)
    &&& forall|k: Seq<char>| #[trigger]
        r.unchecked.contains_key(k) ==> s.contains(
            (r.unchecked[k].contact_id, r.unchecked[k].message_id),
        )
}

/// Whether every message of a list is one of `contact` among `s`.
pub open spec fn queue_from(
    q: Seq<MessageView>,
    contact: Seq<char>,
    s: Set<(Seq<char>, Seq<char>)>,
) -> bool {
    forall|i: int|
        0 <= i < q.len() ==> (#[trigger] q[i]).contact_id == contact && s.contains(
            (contact, q[i].message_id),
        )
}

/// Whether every message that waits or is held is among `s`, by its device and its id.
pub open spec fn drawn_from(o: OrchView, s: Set<(Seq<char>, Seq<char>)>) -> bool {
    &&& waits_from(o.router, s)
    &&& forall|k: Seq<char>, i: int|
        o.holds.contains_key(k) && 0 <= i < o.holds[k].len() ==> s.contains(
            (k, (#[trigger] o.holds[k][i]).message_id),
        )
}

/// Whether a message of this device waits for a session, waits for the durable store, or is held.
pub open spec fn knows(o: OrchView, device: Seq<char>, id: Seq<char>) -> bool {
    ||| message_router::has_id(message_router::waiting(o.router, device), id)
    ||| holds::is_held(holds::held(o, device), id)
    ||| exists|k: Seq<char>| #[trigger]
        o.router.unchecked.contains_key(k) && o.router.unchecked[k].contact_id == device
            && o.router.unchecked[k].message_id == id
}

/// Whether an event brings the message `id` of `device`.
pub open spec fn brings(event: EventView, device: Seq<char>, id: Seq<char>) -> bool {
    match event {
        EventView::MessageReceived {
            message_id,
            from,
            data,
            msg_num,
            kem_ct,
            otpk_id,
            is_control,
            content_type,
        } => from == device && message_id == id,
        EventView::HeartbeatReceived { contact_id, message_id, data, msg_num } => contact_id
            == device && message_id == id,
        _ => false,
    }
}

/// The message an action hands back.
pub open spec fn handed(a: ActionView) -> Option<Seq<char>> {
    match a {
        ActionView::ReplayHeld { message_id } => Some(message_id),
        ActionView::HeldSuperseded { message_id } => Some(message_id),
        _ => None,
    }
}

/// Whether none of these actions hands a message back.
pub open spec fn hands_nothing_back(actions: Seq<ActionView>) -> bool {
    forall|i: int| 0 <= i < actions.len() ==> handed(#[trigger] actions[i]) is None
}

// ── Debts ───────────────────────────────────────────────────────────────────

/// Whether a teardown is owed to a device.
pub open spec fn owed_to(o: OrchView, device: Seq<char>) -> bool {
    session_machine::owes(str_map::lookup(o.machine.phases, device))
}

/// Whether the platform is told that a teardown of this device is deferred.
pub open spec fn defers(actions: Seq<ActionView>, device: Seq<char>) -> bool {
    exists|i: int|
        0 <= i < actions.len() && (#[trigger] actions[i] matches ActionView::EndSessionSuppressed {
            contact_id,
            retry_after_ms,
        } && contact_id == device)
}

/// Whether every debt of `next` is one of `o`, or was told to be deferred in `actions`.
pub open spec fn debts_told(o: OrchView, next: OrchView, actions: Seq<ActionView>) -> bool {
    forall|d: Seq<char>| #[trigger] owed_to(next, d) ==> owed_to(o, d) || defers(actions, d)
}

proof fn debts_told_of_both(
    o: OrchView,
    mid: OrchView,
    next: OrchView,
    front: Seq<ActionView>,
    rest: Seq<ActionView>,
)
    requires
        debts_told(o, mid, front),
        debts_told(mid, next, rest),
    ensures
        debts_told(o, next, front + rest),
{
    assert forall|d: Seq<char>| #[trigger] owed_to(next, d) implies owed_to(o, d) || defers(
        front + rest,
        d,
    ) by {
        let all = front + rest;
        if defers(rest, d) {
            let i = choose|i: int|
                0 <= i < rest.len() && (#[trigger] rest[i] matches ActionView::EndSessionSuppressed {
                    contact_id,
                    retry_after_ms,
                } && contact_id == d);
            assert(all[front.len() + i] == rest[i]);
        } else {
            assert(owed_to(mid, d));
            if defers(front, d) {
                let i = choose|i: int|
                    0 <= i < front.len() && (
                    #[trigger] front[i] matches ActionView::EndSessionSuppressed {
                        contact_id,
                        retry_after_ms,
                    } && contact_id == d);
                assert(all[i] == front[i]);
            }
        }
    }
}

proof fn told_stays_told(
    o: OrchView,
    next: OrchView,
    front: Seq<ActionView>,
    mid: Seq<ActionView>,
    rest: Seq<ActionView>,
)
    requires
        debts_told(o, next, mid),
    ensures
        debts_told(o, next, front + mid + rest),
{
    let all = front + mid + rest;
    assert forall|d: Seq<char>| #[trigger] owed_to(next, d) implies owed_to(o, d) || defers(
        all,
        d,
    ) by {
        if defers(mid, d) {
            let i = choose|i: int|
                0 <= i < mid.len() && (#[trigger] mid[i] matches ActionView::EndSessionSuppressed {
                    contact_id,
                    retry_after_ms,
                } && contact_id == d);
            assert(all[front.len() + i] == mid[i]);
        }
    }
}

// ── Routing ─────────────────────────────────────────────────────────────────

/// Whether a decision hands on only messages among `s`, and no message held before.
pub open spec fn decides_from(d: DecisionView, s: Set<(Seq<char>, Seq<char>)>) -> bool {
    match d {
        DecisionView::SessionHealNeeded { contact_id, role, is_handshake, reason, refused } => {
            &&& s.contains((contact_id, refused.message_id))
            &&& s.contains((refused.message.contact_id, refused.message.message_id))
        },
        DecisionView::EndSessionNeeded { contact_id, reason, refused } => s.contains(
            (contact_id, refused.message_id),
        ),
        DecisionView::Decrypted { contact_id, message_id, plaintext, content_type, actions }
            => hands_nothing_back(actions),
        DecisionView::EndSessionReceived { contact_id, actions } => hands_nothing_back(actions),
        _ => true,
    }
}

proof fn a_queued_message_is_among(
    r: RouterView,
    m: MessageView,
    s: Set<(Seq<char>, Seq<char>)>,
)
    requires
        waits_from(r, s),
        s.contains((m.contact_id, m.message_id)),
    ensures
        waits_from(message_router::held_for_open(r, m), s),
        waits_from(message_router::enqueued(r, m).0, s),
        waits_from(RouterView { unchecked: r.unchecked.insert(m.message_id, m), ..r }, s),
{
    let c = m.contact_id;
    let q = message_router::waiting(r, c);
    let n = message_router::held_for_open(r, m);
    assert(queue_from(q, c, s));
    assert(queue_from(message_router::queued(q, m), c, s));
    assert forall|k: Seq<char>| #[trigger] n.queues.contains_key(k) implies queue_from(
        n.queues[k],
        k,
        s,
    ) by {
        if k != c {
            assert(r.queues.contains_key(k));
        }
    }
    let u = RouterView { unchecked: r.unchecked.insert(m.message_id, m), ..r };
    assert forall|k: Seq<char>| #[trigger] u.unchecked.contains_key(k) implies s.contains(
        (u.unchecked[k].contact_id, u.unchecked[k].message_id),
    ) by {
        if k != m.message_id {
            assert(r.unchecked.contains_key(k));
        }
    }
}

proof fn an_emptied_queue_is_among(
    r: RouterView,
    contact: Seq<char>,
    s: Set<(Seq<char>, Seq<char>)>,
)
    requires
        waits_from(r, s),
    ensures
        waits_from(message_router::with_queue(r, contact, Seq::empty()), s),
        queue_from(message_router::waiting(r, contact), contact, s),
{
    let n = message_router::with_queue(r, contact, Seq::empty());
    assert forall|k: Seq<char>| #[trigger] n.queues.contains_key(k) implies queue_from(
        n.queues[k],
        k,
        s,
    ) by {
        assert(r.queues.contains_key(k));
    }
}

proof fn a_new_message_decides_from<E: CryptoEngine>(
    engine: &E,
    r: RouterView,
    l: LifeView,
    m: MessageView,
    now: u64,
    r2: RouterView,
    l2: LifeView,
    d: DecisionView,
    s: Set<(Seq<char>, Seq<char>)>,
)
    requires
        waits_from(r, s),
        s.contains((m.contact_id, m.message_id)),
        message_router::new_message_may(engine, r, l, m, now, r2, l2, d),
    ensures
        waits_from(r2, s),
        decides_from(d, s),
{
    if l.client.sessions.contains_key(m.contact_id) {
        let (tried, x) = choose|tried: LifeView, x: Result<DecryptResultView, Seq<char>>| #[trigger]
            message_router::tried_may(engine, l, m, tried, x, now, l2, d);
        if x is Ok {
            let p = x->Ok_0;
            let pq = choose|pq: Seq<ActionView>|
                session_lifecycle::contribution_may(
                    engine,
                    message_router::life_marked(tried, m, now),
                    m.contact_id,
                    l2,
                    pq,
                ) && d == #[trigger] message_router::accepted(m, p, now, tried, pq);
            assert(hands_nothing_back(p.actions));
            assert(hands_nothing_back(pq));
            assert(d is Decrypted);
            let all = d->Decrypted_actions;
            assert(hands_nothing_back(all));
        }
    } else {
        a_queued_message_is_among(r, m, s);
    }
}

proof fn routing_decides_from<E: CryptoEngine>(
    engine: &E,
    r: RouterView,
    l: LifeView,
    m: MessageView,
    now: u64,
    r2: RouterView,
    l2: LifeView,
    d: DecisionView,
    s: Set<(Seq<char>, Seq<char>)>,
)
    requires
        waits_from(r, s),
        s.contains((m.contact_id, m.message_id)),
        message_router::route_may(engine, r, l, m, now, r2, l2, d),
    ensures
        waits_from(r2, s),
        decides_from(d, s),
{
    if !m.is_control {
        a_queued_message_is_among(r, m, s);
        if ack_store::ack_check(l.ack, m.message_id) is NotProcessed {
            a_new_message_decides_from(engine, r, l, m, now, r2, l2, d, s);
        }
    }
}

proof fn routing_all_decides_from<E: CryptoEngine>(
    engine: &E,
    r: RouterView,
    l: LifeView,
    ms: Seq<MessageView>,
    now: u64,
    r2: RouterView,
    l2: LifeView,
    ds: Seq<DecisionView>,
    s: Set<(Seq<char>, Seq<char>)>,
)
    requires
        waits_from(r, s),
        forall|i: int|
            0 <= i < ms.len() ==> s.contains(((#[trigger] ms[i]).contact_id, ms[i].message_id)),
        message_router::route_all_may(engine, r, l, ms, now, r2, l2, ds),
    ensures
        waits_from(r2, s),
        forall|i: int| 0 <= i < ds.len() ==> decides_from(#[trigger] ds[i], s),
    decreases ms.len(),
{
    if ms.len() > 0 {
        let (rm, lm) = choose|rm: RouterView, lm: LifeView|
            message_router::route_all_may(
                engine,
                r,
                l,
                ms.drop_last(),
                now,
                rm,
                lm,
                ds.drop_last(),
            ) && #[trigger] message_router::route_may(
                engine,
                rm,
                lm,
                ms.last(),
                now,
                r2,
                l2,
                ds.last(),
            );
        assert forall|i: int| 0 <= i < ms.drop_last().len() implies s.contains(
            ((#[trigger] ms.drop_last()[i]).contact_id, ms.drop_last()[i].message_id),
        ) by {
            assert(ms.drop_last()[i] == ms[i]);
        }
        routing_all_decides_from(
            engine,
            r,
            l,
            ms.drop_last(),
            now,
            rm,
            lm,
            ds.drop_last(),
            s,
        );
        assert(ms[ms.len() - 1] == ms.last());
        routing_decides_from(engine, rm, lm, ms.last(), now, r2, l2, ds.last(), s);
        assert forall|i: int| 0 <= i < ds.len() implies decides_from(#[trigger] ds[i], s) by {
            if i < ds.len() - 1 {
                assert(ds.drop_last()[i] == ds[i]);
            }
        }
    }
}

// ── Answers ─────────────────────────────────────────────────────────────────

/// What an answer that leads from `o` to `next` keeps: the messages are among `s`, none is handed
/// back, and the platform is told of every debt.
pub open spec fn answers_from(
    o: OrchView,
    next: OrchView,
    actions: Seq<ActionView>,
    s: Set<(Seq<char>, Seq<char>)>,
) -> bool {
    &&& drawn_from(next, s)
    &&& hands_nothing_back(actions)
    &&& debts_told(o, next, actions)
}

proof fn a_hold_is_among(
    o: OrchView,
    contact: Seq<char>,
    refused: message_router::RefusedView,
    s: Set<(Seq<char>, Seq<char>)>,
)
    requires
        drawn_from(o, s),
        s.contains((contact, refused.message_id)),
    ensures
        drawn_from(holds::hold_step(o, contact, refused), s),
{
    let n = holds::hold_step(o, contact, refused);
    assert forall|k: Seq<char>, i: int|
        n.holds.contains_key(k) && 0 <= i < n.holds[k].len() implies s.contains(
        (k, (#[trigger] n.holds[k][i]).message_id),
    ) by {
        if k != contact {
            assert(o.holds.contains_key(k));
            assert(n.holds[k][i] == o.holds[k][i]);
        } else if i < holds::held(o, contact).len() {
            assert(n.holds[k][i] == holds::held(o, contact)[i]);
            assert(o.holds.contains_key(k));
            assert(n.holds[k][i] == o.holds[k][i]);
        }
    }
}

proof fn a_step_tells_its_debt(
    o: OrchView,
    device: Seq<char>,
    now: u64,
    event: SessionEvent,
    d: Seq<char>,
)
    requires
        owed_to(orchestrator::stepped(o, device, now, event), d),
    ensures
        owed_to(o, d) || (d == device && event is WantToTearDown && session_machine::machine_step(
            o.machine,
            device,
            now,
            event,
        ).1 is DeferTearDown),
{
    let p = str_map::lookup(o.machine.phases, device);
    if d == device && !session_machine::owes(p) {
        session_machine::only_a_deferral_begins_a_debt(p, now, event);
    }
}

proof fn a_decision_is_answered_from(
    o: OrchView,
    d: DecisionView,
    now: u64,
    s: Set<(Seq<char>, Seq<char>)>,
)
    requires
        drawn_from(o, s),
        decides_from(d, s),
    ensures
        answers_from(o, decisions::conclude(o, d, now).0, decisions::conclude(o, d, now).1, s),
{
    let (next, actions) = decisions::conclude(o, d, now);
    match d {
        DecisionView::SessionHealNeeded { contact_id, role, is_handshake, reason, refused } => {
            a_hold_is_among(o, contact_id, refused, s);
            a_queued_message_is_among(o.router, refused.message, s);
            assert forall|k: Seq<char>| #[trigger] owed_to(next, k) implies owed_to(o, k) by {
                if next.machine != o.machine {
                    assert(owed_to(
                        orchestrator::stepped(o, contact_id, now, SessionEvent::WantToHeal),
                        k,
                    ));
                    a_step_tells_its_debt(o, contact_id, now, SessionEvent::WantToHeal, k);
                }
            }
        },
        DecisionView::EndSessionNeeded { contact_id, reason, refused } => {
            a_hold_is_among(o, contact_id, refused, s);
            let event = SessionEvent::WantToTearDown {
                cause: session_machine::TearDownCause::Unacknowledged,
            };
            assert forall|k: Seq<char>| #[trigger] owed_to(next, k) implies owed_to(o, k) || defers(
                actions,
                k,
            ) by {
                if !session_machine::gate_up(o.machine, contact_id, now) {
                    assert(owed_to(orchestrator::stepped(o, contact_id, now, event), k));
                    a_step_tells_its_debt(o, contact_id, now, event, k);
                    if !owed_to(o, k) {
                        assert(actions[0] is EndSessionSuppressed);
                    }
                }
            }
        },
        DecisionView::NeedSessionInit { contact_id, queued_count } => {
            assert forall|k: Seq<char>| #[trigger] owed_to(next, k) implies owed_to(o, k) by {
                assert(owed_to(
                    orchestrator::stepped(o, contact_id, now, SessionEvent::WantToOpen),
                    k,
                ));
                a_step_tells_its_debt(o, contact_id, now, SessionEvent::WantToOpen, k);
            }
        },
        _ => {},
    }
}

proof fn decisions_are_answered_from(
    o: OrchView,
    ds: Seq<DecisionView>,
    now: u64,
    s: Set<(Seq<char>, Seq<char>)>,
)
    requires
        drawn_from(o, s),
        forall|i: int| 0 <= i < ds.len() ==> decides_from(#[trigger] ds[i], s),
    ensures
        answers_from(
            o,
            decisions::conclude_all(o, ds, now).0,
            decisions::conclude_all(o, ds, now).1,
            s,
        ),
    decreases ds.len(),
{
    if ds.len() > 0 {
        let front = ds.drop_last();
        assert forall|i: int| 0 <= i < front.len() implies decides_from(#[trigger] front[i], s) by {
            assert(front[i] == ds[i]);
        }
        decisions_are_answered_from(o, front, now, s);
        let (mid, before) = decisions::conclude_all(o, front, now);
        let d = ds[ds.len() - 1];
        a_decision_is_answered_from(mid, d, now, s);
        let (next, last) = decisions::conclude(mid, d, now);
        debts_told_of_both(o, mid, next, before, last);
    }
}

proof fn a_drain_answers_from<E: CryptoEngine>(
    engine: &E,
    o: OrchView,
    contact: Seq<char>,
    now: u64,
    next: OrchView,
    actions: Seq<ActionView>,
    s: Set<(Seq<char>, Seq<char>)>,
)
    requires
        drawn_from(o, s),
        settling::drained_may(engine, o, contact, now, next, actions),
    ensures
        answers_from(o, next, actions, s),
{
    let (r2, l2, ds) = choose|r2: RouterView, l2: LifeView, ds: Seq<DecisionView>| #[trigger]
        settling::drained_outcome(engine, o, contact, now, r2, l2, ds, next, actions);
    let taken = message_router::with_queue(o.router, contact, Seq::empty());
    let q = message_router::waiting(o.router, contact);
    an_emptied_queue_is_among(o.router, contact, s);
    routing_all_decides_from(engine, taken, o.life, q, now, r2, l2, ds, s);
    let core = orchestrator::with_core(o, r2, l2);
    assert(drawn_from(core, s));
    decisions_are_answered_from(core, ds, now, s);
    assert forall|d: Seq<char>| #[trigger] owed_to(next, d) implies owed_to(o, d) || defers(
        actions,
        d,
    ) by {
        assert(owed_to(core, d) == owed_to(o, d));
    }
}

proof fn drains_answer_from<E: CryptoEngine>(
    engine: &E,
    o: OrchView,
    order: Seq<Seq<char>>,
    now: u64,
    next: OrchView,
    actions: Seq<ActionView>,
    s: Set<(Seq<char>, Seq<char>)>,
)
    requires
        drawn_from(o, s),
        settling::drained_all_may(engine, o, order, now, next, actions),
    ensures
        answers_from(o, next, actions, s),
    decreases order.len(),
{
    if order.len() > 0 {
        let (mid, before, last) = choose|
            mid: OrchView,
            before: Seq<ActionView>,
            last: Seq<ActionView>,
        |
            settling::drained_all_may(
                engine,
                o,
                order.drop_last(),
                now,
                mid,
                before,
            ) && #[trigger] settling::drained_may(
                engine,
                mid,
                order.last(),
                now,
                next,
                last,
            ) && actions == #[trigger] (before + last);
        drains_answer_from(engine, o, order.drop_last(), now, mid, before, s);
        a_drain_answers_from(engine, mid, order.last(), now, next, last, s);
        debts_told_of_both(o, mid, next, before, last);
    }
}

proof fn a_heartbeat_is_answered_from(
    o: OrchView,
    d: DecisionView,
    now: u64,
    s: Set<(Seq<char>, Seq<char>)>,
)
    requires
        drawn_from(o, s),
        decides_from(d, s),
    ensures
        answers_from(
            o,
            events::heartbeat_answered(o, d, now).0,
            events::heartbeat_answered(o, d, now).1,
            s,
        ),
{
    a_decision_is_answered_from(o, d, now, s);
    let (next, actions) = events::heartbeat_answered(o, d, now);
    if d is SessionHealNeeded && !d->is_handshake {
        let contact = d->SessionHealNeeded_contact_id;
        let refused = d->SessionHealNeeded_refused;
        a_hold_is_among(o, contact, refused, s);
        a_queued_message_is_among(o.router, refused.message, s);
        assert forall|k: Seq<char>| #[trigger] owed_to(next, k) implies owed_to(o, k) by {
            if next.machine != o.machine {
                assert(owed_to(
                    orchestrator::stepped(o, contact, now, SessionEvent::WantToHeal),
                    k,
                ));
                a_step_tells_its_debt(o, contact, now, SessionEvent::WantToHeal, k);
            }
        }
    }
}

proof fn upgrades_tell_their_debts(o: OrchView, cs: Seq<Seq<char>>, now: u64)
    ensures
        hands_nothing_back(timers::upgrades_asked(o, cs, now).1),
        forall|i: int|
            0 <= i < timers::upgrades_asked(o, cs, now).1.len() ==> (
            #[trigger] timers::upgrades_asked(o, cs, now).1[i]) is OpenSession,
        forall|d: Seq<char>| #[trigger]
            owed_to(timers::upgrades_asked(o, cs, now).0, d) ==> owed_to(o, d),
    decreases cs.len(),
{
    if cs.len() > 0 {
        upgrades_tell_their_debts(o, cs.drop_last(), now);
        let mid = timers::upgrades_asked(o, cs.drop_last(), now).0;
        let event = SessionEvent::WantToReopen { peer_rebuilds: false };
        let next = timers::upgrades_asked(o, cs, now).0;
        assert forall|d: Seq<char>| #[trigger] owed_to(next, d) implies owed_to(o, d) by {
            assert(owed_to(orchestrator::stepped(mid, cs.last(), now, event), d));
            a_step_tells_its_debt(mid, cs.last(), now, event, d);
            assert(owed_to(mid, d));
        }
    }
}

/// What an alarm keeps: no message moves, none is handed back, no debt begins, and a teardown it
/// sends was owed before.
pub open spec fn alarm_keeps(o: OrchView, next: OrchView, actions: Seq<ActionView>) -> bool {
    &&& next.router == o.router && next.holds == o.holds
    &&& hands_nothing_back(actions)
    &&& forall|d: Seq<char>| #[trigger] owed_to(next, d) ==> owed_to(o, d)
    &&& forall|i: int|
        0 <= i < actions.len() ==> (#[trigger] actions[i] matches ActionView::SendEndSession {
            contact_id,
        } ==> owed_to(o, contact_id))
}

/// An alarm pays what is owed and nothing else: it begins no debt, and a teardown it sends was owed.
pub proof fn an_alarm_pays_only_what_is_owed(
    o: OrchView,
    timer_id: Seq<char>,
    now: u64,
    next: OrchView,
    actions: Seq<ActionView>,
)
    requires
        timers::timer_may(o, timer_id, now, next, actions),
    ensures
        alarm_keeps(o, next, actions),
{
    timers::an_alarm_moves_no_message(o, timer_id, now, next, actions);
    if timer_id == "gc_sweep"@ {
        let order = choose|order: Seq<Seq<char>>| #[trigger]
            session_lifecycle::names_stale(order, o.life, now) && actions == order.map_values(
                |k: Seq<char>| session_lifecycle::delete_archive(k),
            ) + seq![
                ActionView::PruneAckStore { cutoff_ts: ack_store::ack_cutoff(o.life.ack, now) },
            ];
        assert forall|i: int| 0 <= i < actions.len() implies handed(#[trigger] actions[i]) is None
            && !(actions[i] is SendEndSession) by {
            if i < order.len() {
                assert(actions[i] == session_lifecycle::delete_archive(order[i]));
            }
        }
    } else if timer_id == "pq_upgrade_sweep"@ {
        let cs = choose|cs: Seq<Seq<char>>|
            timers::lists_candidates(cs, o) && (next, actions) == #[trigger] timers::upgrade_swept(
                o,
                cs,
                now,
            );
        upgrades_tell_their_debts(o, cs.take(timers::batch_of(cs.len())), now);
    } else {
        assert forall|d: Seq<char>| #[trigger] owed_to(next, d) implies owed_to(o, d) by {
            alarms_begin_no_debt(o, timer_id, now, d);
        }
    }
}

proof fn alarms_begin_no_debt(o: OrchView, timer_id: Seq<char>, now: u64, d: Seq<char>)
    requires
        owed_to(timers::alarm(o, timer_id, now).0, d),
    ensures
        owed_to(o, d),
{
    let next = timers::alarm(o, timer_id, now).0;
    let cool = strings::tail_after(timer_id, "cooldown_expired:"@);
    let reopen = strings::tail_after(timer_id, "reopen:"@);
    let confirm = strings::tail_after(timer_id, "open_confirm:"@);
    if cool is Some {
        assert(owed_to(orchestrator::stepped(o, cool->Some_0, now, SessionEvent::Timeout), d));
        a_step_tells_its_debt(o, cool->Some_0, now, SessionEvent::Timeout, d);
    } else if reopen is Some {
        let event = if o.life.client.sessions.contains_key(reopen->Some_0) {
            SessionEvent::OpenFinished
        } else {
            SessionEvent::WantToOpen
        };
        assert(owed_to(orchestrator::stepped(o, reopen->Some_0, now, event), d));
        a_step_tells_its_debt(o, reopen->Some_0, now, event, d);
    } else if confirm is Some {
        assert(owed_to(orchestrator::stepped(o, confirm->Some_0, now, SessionEvent::Timeout), d));
        a_step_tells_its_debt(o, confirm->Some_0, now, SessionEvent::Timeout, d);
    }
}

// ── Events ──────────────────────────────────────────────────────────────────

/// The messages of `s` and the one an event brings.
pub open spec fn with_brought(s: Set<(Seq<char>, Seq<char>)>, event: EventView) -> Set<
    (Seq<char>, Seq<char>),
> {
    Set::new(|x: (Seq<char>, Seq<char>)| s.contains(x) || brings(event, x.0, x.1))
}

proof fn more_may_be_known(
    o: OrchView,
    s: Set<(Seq<char>, Seq<char>)>,
    t: Set<(Seq<char>, Seq<char>)>,
)
    requires
        drawn_from(o, s),
        forall|x: (Seq<char>, Seq<char>)| #[trigger] s.contains(x) ==> t.contains(x),
    ensures
        drawn_from(o, t),
{
    assert forall|k: Seq<char>| #[trigger] o.router.queues.contains_key(k) implies queue_from(
        o.router.queues[k],
        k,
        t,
    ) by {
        assert(queue_from(o.router.queues[k], k, s));
    }
}

proof fn a_dispatch_answers_from<E: CryptoEngine>(
    engine: &E,
    o: OrchView,
    event: EventView,
    now: u64,
    next: OrchView,
    actions: Seq<ActionView>,
    s: Set<(Seq<char>, Seq<char>)>,
)
    requires
        drawn_from(o, s),
        forall|d: Seq<char>, id: Seq<char>| #[trigger] brings(event, d, id) ==> s.contains((d, id)),
        events::dispatch_may(engine, o, event, now, next, actions),
    ensures
        answers_from(o, next, actions, s),
        event is TimerFired ==> alarm_keeps(o, next, actions),
{
    match event {
        EventView::MessageReceived {
            message_id,
            from,
            data,
            msg_num,
            kem_ct,
            otpk_id,
            is_control,
            content_type,
        } => {
            let number = events::routing_number(data, msg_num, kem_ct, is_control);
            if number is Ok {
                let m = MessageView {
                    contact_id: from,
                    wire_payload: data,
                    message_id,
                    msg_number: number->Ok_0,
                    is_control,
                    content_type,
                };
                let (r2, l2, d, saved) = choose|
                    r2: RouterView,
                    l2: LifeView,
                    d: DecisionView,
                    saved: Result<Seq<u8>, Seq<char>>,
                | #[trigger]
                    events::routed_outcome(engine, o, m, now, r2, l2, d, saved, next, actions);
                assert(brings(event, from, message_id));
                routing_decides_from(engine, o.router, o.life, m, now, r2, l2, d, s);
                let core = orchestrator::with_core(o, r2, l2);
                assert(drawn_from(core, s));
                a_decision_is_answered_from(core, d, now, s);
                let answer = decisions::conclude(core, d, now).1;
                let tail = if events::needs_state_save(d) {
                    events::save_state(saved)
                } else {
                    Seq::empty()
                };
                assert(actions =~= Seq::<ActionView>::empty() + answer + tail);
                core_owes_the_same(o, r2, l2, next, answer);
                told_stays_told(o, next, Seq::empty(), answer, tail);
            }
        },
        EventView::HeartbeatReceived { contact_id, message_id, data, msg_num } => {
            let m = MessageView {
                contact_id,
                wire_payload: data,
                message_id,
                msg_number: msg_num,
                is_control: false,
                content_type: CT_HEARTBEAT,
            };
            let (r2, l2, d) = choose|r2: RouterView, l2: LifeView, d: DecisionView| #[trigger]
                events::heartbeat_outcome(engine, o, m, now, r2, l2, d, next, actions);
            assert(brings(event, contact_id, message_id));
            routing_decides_from(engine, o.router, o.life, m, now, r2, l2, d, s);
            let core = orchestrator::with_core(o, r2, l2);
            assert(drawn_from(core, s));
            a_heartbeat_is_answered_from(core, d, now, s);
            core_owes_the_same(o, r2, l2, next, actions);
        },
        EventView::AckDbResult { message_id, is_processed } => {
            let (r2, l2, d) = choose|r2: RouterView, l2: LifeView, d: DecisionView| #[trigger]
                events::resumed_outcome(
                    engine,
                    o,
                    message_id,
                    is_processed,
                    now,
                    r2,
                    l2,
                    d,
                    next,
                    actions,
                );
            let resumed = RouterView { unchecked: o.router.unchecked.remove(message_id), ..o.router };
            if o.router.unchecked.contains_key(message_id) {
                let m = o.router.unchecked[message_id];
                assert(s.contains((m.contact_id, m.message_id)));
                assert forall|k: Seq<char>| #[trigger] resumed.unchecked.contains_key(
                    k,
                ) implies s.contains(
                    (resumed.unchecked[k].contact_id, resumed.unchecked[k].message_id),
                ) by {
                    assert(o.router.unchecked.contains_key(k));
                }
                assert(waits_from(resumed, s));
                if !is_processed {
                    a_new_message_decides_from(engine, resumed, o.life, m, now, r2, l2, d, s);
                }
            }
            let core = orchestrator::with_core(o, r2, l2);
            assert(drawn_from(core, s));
            a_decision_is_answered_from(core, d, now, s);
            core_owes_the_same(o, r2, l2, next, actions);
        },
        EventView::SessionInitCompleted { contact_id, session_data } => {
            let (l2, imported) = choose|l2: LifeView, imported: Result<(), Seq<char>>| #[trigger]
                settling::completed_outcome(
                    engine,
                    o,
                    contact_id,
                    session_data,
                    now,
                    l2,
                    imported,
                    next,
                    actions,
                );
            let held = OrchView { life: l2, ..settling::opening_over(o, contact_id, now) };
            assert(drawn_from(held, s));
            assert forall|d: Seq<char>| #[trigger] owed_to(held, d) implies owed_to(o, d) by {
                assert(owed_to(
                    orchestrator::stepped(o, contact_id, now, SessionEvent::OpenFinished),
                    d,
                ));
                a_step_tells_its_debt(o, contact_id, now, SessionEvent::OpenFinished, d);
            }
            if imported is Ok {
                let (x, drained) = choose|
                    x: Result<Seq<u8>, Seq<char>>,
                    drained: Seq<ActionView>,
                | #[trigger]
                    settling::settled_outcome(
                        engine,
                        held,
                        contact_id,
                        now,
                        x,
                        drained,
                        next,
                        actions,
                    );
                a_drain_answers_from(engine, held, contact_id, now, next, drained, s);
                assert(debts_told(o, next, drained));
                told_stays_told(
                    o,
                    next,
                    messaging::save_exported(contact_id, x),
                    drained,
                    seq![ActionView::NotifySessionCreated { contact_id }],
                );
            }
        },
        EventView::NetworkReconnected => {
            let (order, drained) = choose|order: Seq<Seq<char>>, drained: Seq<ActionView>|
                #![trigger settling::drained_all_may(engine, o, order, now, next, drained)]
                str_map::names_keys(order, o.router.queues) && settling::drained_all_may(
                    engine,
                    o,
                    order,
                    now,
                    next,
                    drained,
                ) && actions == seq![decisions::schedule("gc_sweep"@, 1_000)] + drained;
            drains_answer_from(engine, o, order, now, next, drained, s);
            let sweep = seq![decisions::schedule("gc_sweep"@, 1_000)];
            told_stays_told(o, next, sweep, drained, Seq::empty());
            assert(actions =~= sweep + drained + Seq::<ActionView>::empty());
        },
        EventView::HealAttempted { contact_id } => {
            an_emptied_queue_is_among(o.router, contact_id, s);
        },
        EventView::TimerFired { timer_id } => {
            an_alarm_pays_only_what_is_owed(o, timer_id, now, next, actions);
        },
        EventView::TeardownRequested { contact_id, cause } => {
            let ask = SessionEvent::WantToTearDown { cause };
            assert forall|d: Seq<char>| #[trigger] owed_to(next, d) implies owed_to(o, d) || defers(
                actions,
                d,
            ) by {
                assert(owed_to(orchestrator::stepped(o, contact_id, now, ask), d));
                a_step_tells_its_debt(o, contact_id, now, ask, d);
                if !owed_to(o, d) {
                    assert(actions[0] is EndSessionSuppressed);
                }
            }
        },
        EventView::PeerToreDown { contact_id } => {
            assert forall|d: Seq<char>| #[trigger] owed_to(next, d) implies owed_to(o, d) by {
                a_step_tells_its_debt(o, contact_id, now, SessionEvent::PeerToreDown, d);
            }
        },
        EventView::ReopenRequested { contact_id } => {
            let peer_rebuilds = message_router::role_of(
                o.life.client.local_user_id,
                contact_id,
            ) is Responder;
            let ask = SessionEvent::WantToReopen { peer_rebuilds };
            assert forall|d: Seq<char>| #[trigger] owed_to(next, d) implies owed_to(o, d) by {
                assert(owed_to(orchestrator::stepped(o, contact_id, now, ask), d));
                a_step_tells_its_debt(o, contact_id, now, ask, d);
            }
        },
        EventView::SriAnnounced { contact_id } => {
            assert forall|d: Seq<char>| #[trigger] owed_to(next, d) implies owed_to(o, d) by {
                a_step_tells_its_debt(o, contact_id, now, SessionEvent::SriAnnounced, d);
            }
        },
        EventView::PeerAcked { contact_id } => {
            assert forall|d: Seq<char>| #[trigger] owed_to(next, d) implies owed_to(o, d) by {
                a_step_tells_its_debt(o, contact_id, now, SessionEvent::PeerAcked, d);
            }
        },
        _ => {},
    }
}

proof fn core_owes_the_same(
    o: OrchView,
    r2: RouterView,
    l2: LifeView,
    next: OrchView,
    actions: Seq<ActionView>,
)
    requires
        debts_told(orchestrator::with_core(o, r2, l2), next, actions),
    ensures
        debts_told(o, next, actions),
{
    let core = orchestrator::with_core(o, r2, l2);
    assert forall|d: Seq<char>| #[trigger] owed_to(next, d) implies owed_to(o, d) || defers(
        actions,
        d,
    ) by {
        assert(owed_to(core, d) == owed_to(o, d));
    }
}

/// Everything a release does is to hand a message back.
pub proof fn all_handed_back_is_handed_back(o: OrchView, order: Seq<Seq<char>>)
    ensures
        forall|i: int|
            0 <= i < holds::all_handed_back(o, order).len() ==> handed(
                #[trigger] holds::all_handed_back(o, order)[i],
            ) is Some,
    decreases order.len(),
{
    if order.len() > 0 {
        all_handed_back_is_handed_back(o, order.drop_last());
        let front = holds::all_handed_back(o, order.drop_last());
        let all = holds::all_handed_back(o, order);
        assert forall|i: int| 0 <= i < all.len() implies handed(#[trigger] all[i]) is Some by {
            if i < front.len() {
                assert(all[i] == front[i]);
            }
        }
    }
}

proof fn a_release_hands_back_from(
    o: OrchView,
    order: Seq<Seq<char>>,
    s: Set<(Seq<char>, Seq<char>)>,
)
    requires
        drawn_from(o, s),
    ensures
        hands_back_from(holds::all_handed_back(o, order), s),
        forall|i: int|
            0 <= i < holds::all_handed_back(o, order).len() ==> handed(
                #[trigger] holds::all_handed_back(o, order)[i],
            ) is Some,
    decreases order.len(),
{
    if order.len() > 0 {
        let device = order.last();
        a_release_hands_back_from(o, order.drop_last(), s);
        let front = holds::all_handed_back(o, order.drop_last());
        let hs = holds::held(o, device);
        let current = session_lifecycle::session_id_of(o.life, device);
        let back = holds::handed_back(hs, current);
        let all = holds::all_handed_back(o, order);
        assert(all == front + back);
        assert forall|i: int| 0 <= i < all.len() implies handed(#[trigger] all[i]) is Some
            && handed_among(all[i], s) by {
            if i < front.len() {
                assert(all[i] == front[i]);
                assert(handed_among(front[i], s));
            } else {
                let j = i - front.len();
                assert(all[i] == back[j]);
                assert(back[j] == holds::hand_back(hs[j], current));
                assert(handed(all[i]) == Some(hs[j].message_id));
                assert(o.holds.contains_key(device));
                assert(o.holds[device][j] == hs[j]);
                let id = handed(all[i])->Some_0;
                assert(s.contains((device, id)));
            }
        }
    }
}

/// Whether the message an action hands back, if it does, is one of `s`.
pub open spec fn handed_among(a: ActionView, s: Set<(Seq<char>, Seq<char>)>) -> bool {
    handed(a) matches Some(id) ==> exists|d: Seq<char>| #[trigger] s.contains((d, id))
}

/// Whether every message these actions hand back is one of `s`.
pub open spec fn hands_back_from(
    actions: Seq<ActionView>,
    s: Set<(Seq<char>, Seq<char>)>,
) -> bool {
    forall|i: int| 0 <= i < actions.len() ==> handed_among(#[trigger] actions[i], s)
}

// ── Laws ────────────────────────────────────────────────────────────────────

/// No event invents a message: what waits or is held after it, and what it hands back, is of `s`,
/// which names what waited or was held before, or is the message that arrived with the event.
///
/// And no event invents a debt: a teardown owed after it was owed before, or the platform is told
/// that it is deferred; and a teardown an alarm sends was owed before.
pub proof fn no_event_invents_anything<E: CryptoEngine>(
    engine: &E,
    o: OrchView,
    event: EventView,
    now: u64,
    next: OrchView,
    actions: Seq<ActionView>,
    s: Set<(Seq<char>, Seq<char>)>,
)
    requires
        drawn_from(o, s),
        events::event_may(engine, o, event, now, next, actions),
    ensures
        drawn_from(next, with_brought(s, event)),
        hands_back_from(actions, with_brought(s, event)),
        debts_told(o, next, actions),
        event is TimerFired ==> forall|i: int|
            0 <= i < actions.len() ==> (#[trigger] actions[i] matches ActionView::SendEndSession {
                contact_id,
            } ==> owed_to(o, contact_id)),
{
    let t = with_brought(s, event);
    let (mid, answer, back) = choose|
        mid: OrchView,
        answer: Seq<ActionView>,
        back: Seq<ActionView>,
    | #[trigger]
        events::event_outcome(engine, o, event, now, mid, answer, back, next, actions);
    more_may_be_known(o, s, t);
    a_dispatch_answers_from(engine, o, event, now, mid, answer, t);
    let order = choose|order: Seq<Seq<char>>| #[trigger]
        holds::names_released(order, mid, now) && back == holds::all_handed_back(mid, order);
    a_release_hands_back_from(mid, order, t);
    assert forall|k: Seq<char>, i: int|
        next.holds.contains_key(k) && 0 <= i < next.holds[k].len() implies t.contains(
        (k, (#[trigger] next.holds[k][i]).message_id),
    ) by {
        assert(mid.holds.contains_key(k));
        assert(next.holds[k][i] == mid.holds[k][i]);
    }
    assert forall|i: int| 0 <= i < actions.len() implies handed_among(#[trigger] actions[i], t) by {
        if i < answer.len() {
            assert(actions[i] == answer[i]);
        } else {
            assert(actions[i] == back[i - answer.len()]);
        }
    }
    assert(debts_told(o, next, answer)) by {
        assert forall|d: Seq<char>| #[trigger] owed_to(next, d) implies owed_to(o, d) || defers(
            answer,
            d,
        ) by {
            assert(owed_to(mid, d));
        }
    }
    told_stays_told(o, next, Seq::empty(), answer, back);
    assert(actions =~= Seq::<ActionView>::empty() + answer + back);
    if event is TimerFired {
        assert forall|i: int| 0 <= i < actions.len() implies (
        #[trigger] actions[i] matches ActionView::SendEndSession { contact_id } ==> owed_to(
            o,
            contact_id,
        )) by {
            if i < answer.len() {
                assert(actions[i] == answer[i]);
            } else {
                assert(actions[i] == back[i - answer.len()]);
                assert(handed(back[i - answer.len()]) is Some);
            }
        }
    }
}

/// One event that was handled: what it was, when, and what it led to.
pub struct Handled {
    pub event: EventView,
    pub now: u64,
    pub next: OrchView,
    pub actions: Seq<ActionView>,
}

/// The state the first `n` events of a run left.
pub open spec fn state_after(start: OrchView, run: Seq<Handled>, n: int) -> OrchView {
    if n <= 0 {
        start
    } else {
        run[n - 1].next
    }
}

/// Whether `run` is a run of events handled one after the other, from the state `start`.
pub open spec fn is_run<E: CryptoEngine>(engine: &E, start: OrchView, run: Seq<Handled>) -> bool {
    forall|i: int|
        0 <= i < run.len() ==> events::event_may(
            engine,
            state_after(start, run, i),
            (#[trigger] run[i]).event,
            run[i].now,
            run[i].next,
            run[i].actions,
        )
}

/// Whether one of the first `n` events of a run brings the message `id` of `device`.
pub open spec fn brought_by(run: Seq<Handled>, n: int, device: Seq<char>, id: Seq<char>) -> bool {
    exists|e: int| 0 <= e < n && brings((#[trigger] run[e]).event, device, id)
}

/// The messages that wait or are held in `start`, and those the first `n` events of a run bring.
pub open spec fn known_or_brought(start: OrchView, run: Seq<Handled>, n: int) -> Set<
    (Seq<char>, Seq<char>),
> {
    Set::new(
        |x: (Seq<char>, Seq<char>)| knows(start, x.0, x.1) || brought_by(run, n, x.0, x.1),
    )
}

proof fn known_messages_are_known(o: OrchView, s: Set<(Seq<char>, Seq<char>)>)
    requires
        message_router::only_messages_wait(o.router),
        forall|d: Seq<char>, id: Seq<char>| #[trigger] knows(o, d, id) ==> s.contains((d, id)),
    ensures
        drawn_from(o, s),
{
    assert forall|k: Seq<char>| #[trigger] o.router.queues.contains_key(k) implies queue_from(
        o.router.queues[k],
        k,
        s,
    ) by {
        let q = o.router.queues[k];
        assert(message_router::waiting(o.router, k) == q);
        assert(message_router::only_messages_of(q, k));
        assert forall|i: int| 0 <= i < q.len() implies (#[trigger] q[i]).contact_id == k
            && s.contains((k, q[i].message_id)) by {
            assert(!q[i].is_control);
            assert(message_router::has_id(q, q[i].message_id));
            assert(knows(o, k, q[i].message_id));
        }
    }
    assert forall|k: Seq<char>| #[trigger] o.router.unchecked.contains_key(k) implies s.contains(
        (o.router.unchecked[k].contact_id, o.router.unchecked[k].message_id),
    ) by {
        assert(knows(o, o.router.unchecked[k].contact_id, o.router.unchecked[k].message_id));
    }
    assert forall|k: Seq<char>, i: int|
        o.holds.contains_key(k) && 0 <= i < o.holds[k].len() implies s.contains(
        (k, (#[trigger] o.holds[k][i]).message_id),
    ) by {
        assert(holds::held(o, k)[i] == o.holds[k][i]);
        assert(holds::is_held(holds::held(o, k), o.holds[k][i].message_id));
        assert(knows(o, k, o.holds[k][i].message_id));
    }
}

proof fn drawn_messages_are_known(
    o: OrchView,
    s: Set<(Seq<char>, Seq<char>)>,
    device: Seq<char>,
    id: Seq<char>,
)
    requires
        drawn_from(o, s),
        knows(o, device, id),
    ensures
        s.contains((device, id)),
{
    let q = message_router::waiting(o.router, device);
    let hs = holds::held(o, device);
    if message_router::has_id(q, id) {
        let i = choose|i: int| 0 <= i < q.len() && #[trigger] q[i].message_id == id;
        assert(o.router.queues.contains_key(device));
        assert(queue_from(q, device, s));
        assert(q[i].message_id == id);
    } else if holds::is_held(hs, id) {
        let i = choose|i: int| 0 <= i < hs.len() && #[trigger] hs[i].message_id == id;
        assert(o.holds[device][i] == hs[i]);
    }
}

proof fn a_run_draws_from<E: CryptoEngine>(engine: &E, start: OrchView, run: Seq<Handled>, n: int)
    requires
        message_router::only_messages_wait(start.router),
        is_run(engine, start, run),
        0 <= n <= run.len(),
    ensures
        drawn_from(state_after(start, run, n), known_or_brought(start, run, n)),
        n > 0 ==> hands_back_from(run[n - 1].actions, known_or_brought(start, run, n)),
    decreases n,
{
    let t = known_or_brought(start, run, n);
    if n == 0 {
        known_messages_are_known(start, t);
    } else {
        a_run_draws_from(engine, start, run, n - 1);
        let s = known_or_brought(start, run, n - 1);
        let h = run[n - 1];
        let o = state_after(start, run, n - 1);
        no_event_invents_anything(engine, o, h.event, h.now, h.next, h.actions, s);
        let b = with_brought(s, h.event);
        assert forall|x: (Seq<char>, Seq<char>)| #[trigger] b.contains(x) implies t.contains(x) by {
            if brings(h.event, x.0, x.1) {
                assert(brings(run[n - 1].event, x.0, x.1));
            } else if !knows(start, x.0, x.1) {
                let e = choose|e: int| 0 <= e < n - 1 && brings((#[trigger] run[e]).event, x.0, x.1);
                assert(brings(run[e].event, x.0, x.1));
            }
        }
        more_may_be_known(h.next, b, t);
        assert forall|i: int| 0 <= i < h.actions.len() implies handed_among(
            #[trigger] h.actions[i],
            t,
        ) by {
            assert(handed_among(h.actions[i], b));
            if handed(h.actions[i]) is Some {
                let id = handed(h.actions[i])->Some_0;
                let d = choose|d: Seq<char>| #[trigger] b.contains((d, id));
                assert(t.contains((d, id)));
            }
        }
    }
}

/// Forgetting a contact leaves nothing of it that waits or is held, and adds nothing to any other.
pub proof fn a_forgotten_contact_is_not_known(
    o: OrchView,
    contact: Seq<char>,
    now: u64,
    device: Seq<char>,
    id: Seq<char>,
)
    requires
        message_router::only_messages_wait(o.router),
    ensures
        !knows(orchestrator::forgotten(o, contact, now), contact, id),
        device != contact ==> (knows(orchestrator::forgotten(o, contact, now), device, id)
            <==> knows(o, device, id)),
        message_router::only_messages_wait(orchestrator::forgotten(o, contact, now).router),
        !owed_to(orchestrator::forgotten(o, contact, now), contact),
        device != contact ==> (owed_to(orchestrator::forgotten(o, contact, now), device)
            <==> owed_to(o, device)),
{
    let f = orchestrator::forgotten(o, contact, now);
    assert forall|k: Seq<char>| #[trigger] f.router.queues.contains_key(
        k,
    ) implies message_router::only_messages_of(f.router.queues[k], k) by {
        assert(o.router.queues.contains_key(k));
    }
    assert forall|k: Seq<char>| #[trigger] f.router.unchecked.contains_key(k) implies
        !f.router.unchecked[k].is_control by {
        assert(o.router.unchecked.contains_key(k));
    }
    if device != contact {
        assert(message_router::waiting(f.router, device) == message_router::waiting(
            o.router,
            device,
        ));
        assert(holds::held(f, device) == holds::held(o, device));
        if knows(o, device, id) && !message_router::has_id(
            message_router::waiting(o.router, device),
            id,
        ) && !holds::is_held(holds::held(o, device), id) {
            let k = choose|k: Seq<char>| #[trigger]
                o.router.unchecked.contains_key(k) && o.router.unchecked[k].contact_id == device
                    && o.router.unchecked[k].message_id == id;
            assert(f.router.unchecked.contains_key(k));
        }
    }
}

/// What was forgotten does not come back: in every run of events after a contact was forgotten,
/// a message of the contact that waits or is held was brought by an event of that run; and a
/// message that is handed back was brought by an event of that run, or waited or was held for
/// another device when the contact was forgotten.
pub proof fn nothing_forgotten_is_handed_back<E: CryptoEngine>(
    engine: &E,
    o: OrchView,
    contact: Seq<char>,
    now: u64,
    run: Seq<Handled>,
    n: int,
    i: int,
    id: Seq<char>,
)
    requires
        message_router::only_messages_wait(o.router),
        is_run(engine, orchestrator::forgotten(o, contact, now), run),
        0 <= n < run.len(),
    ensures
        knows(run[n].next, contact, id) ==> brought_by(run, n + 1, contact, id),
        0 <= i < run[n].actions.len() && handed(run[n].actions[i]) == Some(id) ==> exists|
            d: Seq<char>,
        |
            #[trigger] brought_by(run, n + 1, d, id) || (d != contact && knows(o, d, id)),
{
    let f = orchestrator::forgotten(o, contact, now);
    let s = known_or_brought(f, run, n + 1);
    a_forgotten_contact_is_not_known(o, contact, now, contact, id);
    a_run_draws_from(engine, f, run, n + 1);
    if knows(run[n].next, contact, id) {
        drawn_messages_are_known(run[n].next, s, contact, id);
    }
    if 0 <= i < run[n].actions.len() && handed(run[n].actions[i]) == Some(id) {
        assert(handed_among(run[n].actions[i], s));
        let d = choose|d: Seq<char>| #[trigger] s.contains((d, id));
        a_forgotten_contact_is_not_known(o, contact, now, d, id);
        assert(brought_by(run, n + 1, d, id) || (d != contact && knows(o, d, id)));
    }
}

proof fn debts_were_told<E: CryptoEngine>(
    engine: &E,
    start: OrchView,
    run: Seq<Handled>,
    n: int,
    device: Seq<char>,
)
    requires
        message_router::only_messages_wait(start.router),
        is_run(engine, start, run),
        0 <= n <= run.len(),
        owed_to(state_after(start, run, n), device),
        !owed_to(start, device),
    ensures
        exists|e: int| 0 <= e < n && defers((#[trigger] run[e]).actions, device),
    decreases n,
{
    if n > 0 {
        let o = state_after(start, run, n - 1);
        let h = run[n - 1];
        a_run_draws_from(engine, start, run, n - 1);
        no_event_invents_anything(
            engine,
            o,
            h.event,
            h.now,
            h.next,
            h.actions,
            known_or_brought(start, run, n - 1),
        );
        if owed_to(o, device) {
            debts_were_told(engine, start, run, n - 1, device);
        } else {
            assert(defers(run[n - 1].actions, device));
        }
    }
}

/// A debt that was forgotten is not paid: in every run of events after a contact was forgotten, an
/// alarm sends it a teardown only if an event of that run before the alarm deferred one.
pub proof fn no_forgotten_debt_is_paid<E: CryptoEngine>(
    engine: &E,
    o: OrchView,
    contact: Seq<char>,
    now: u64,
    run: Seq<Handled>,
    n: int,
    i: int,
)
    requires
        message_router::only_messages_wait(o.router),
        is_run(engine, orchestrator::forgotten(o, contact, now), run),
        0 <= n < run.len(),
        run[n].event is TimerFired,
        0 <= i < run[n].actions.len(),
        run[n].actions[i] == (ActionView::SendEndSession { contact_id: contact }),
    ensures
        exists|e: int| 0 <= e < n && defers((#[trigger] run[e]).actions, contact),
{
    let f = orchestrator::forgotten(o, contact, now);
    a_forgotten_contact_is_not_known(o, contact, now, contact, contact);
    a_run_draws_from(engine, f, run, n);
    let h = run[n];
    no_event_invents_anything(
        engine,
        state_after(f, run, n),
        h.event,
        h.now,
        h.next,
        h.actions,
        known_or_brought(f, run, n),
    );
    debts_were_told(engine, f, run, n, contact);
}

} // verus!
