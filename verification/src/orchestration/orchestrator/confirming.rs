//! The confirm gate from the announcement to the peer's answer.
//!
//! What the confirm gate does with one message, and what it hands back when it falls, is stated
//! where it is done. Here the pieces are joined: an announcement goes out, messages the ratchet
//! refuses arrive while it is unanswered, and the peer's acknowledgement hands every one of them
//! back, once and in the order they came.

use vstd::prelude::*;

use crate::crypto::engine::CryptoEngine;
use crate::orchestration::actions::{ActionView, EventView};
use crate::orchestration::message_router::{
    self, DecisionView, MessageView, RefusedView, RouterView,
};
use crate::orchestration::orchestrator::decisions;
use crate::orchestration::orchestrator::events;
use crate::orchestration::orchestrator::holds::{self, HoldView};
use crate::orchestration::orchestrator::origins::{self, Handled};
use crate::orchestration::orchestrator::settling;
use crate::orchestration::orchestrator::timers;
use crate::orchestration::orchestrator::{self, OrchView};
use crate::orchestration::session_lifecycle::{self, LifeView};
use crate::orchestration::session_machine::{self, Phase, OPENING_CONFIRM_WINDOW_MS};
use crate::str_map;
use crate::wire_payload::WirePayloadError;

verus! {

/// Whether a decision is the refusal of a message of `contact` that would tear its session down, or
/// heal it without being a handshake.
pub open spec fn refuses(d: DecisionView, contact: Seq<char>, refused: RefusedView) -> bool {
    match d {
        DecisionView::EndSessionNeeded { contact_id, reason, refused: x } => contact_id == contact
            && x == refused,
        DecisionView::SessionHealNeeded { contact_id, role, is_handshake, reason, refused: x } => {
            contact_id == contact && !is_handshake && x == refused
        },
        _ => false,
    }
}

/// The message is routed to the refusal `d`, leaving `r2` and `l2`, and the gates that fell hand
/// back `back`: what the event of its arrival leads to.
pub open spec fn refusal_outcome<E: CryptoEngine>(
    engine: &E,
    o: OrchView,
    m: MessageView,
    now: u64,
    r2: RouterView,
    l2: LifeView,
    d: DecisionView,
    saved: Result<Seq<u8>, Seq<char>>,
    mid: OrchView,
    answer: Seq<ActionView>,
    back: Seq<ActionView>,
    refused: RefusedView,
    next: OrchView,
    actions: Seq<ActionView>,
) -> bool {
    &&& refuses(d, m.contact_id, refused)
    &&& events::routed_outcome(engine, o, m, now, r2, l2, d, saved, mid, answer)
    &&& holds::release_may(mid, now, next, back)
    &&& actions == answer + back
}

/// The arrival of `m` at `now` may lead to `next` and `actions`, its refusal being `refused`.
pub open spec fn arrives_refused<E: CryptoEngine>(
    engine: &E,
    o: OrchView,
    m: MessageView,
    now: u64,
    refused: RefusedView,
    next: OrchView,
    actions: Seq<ActionView>,
) -> bool {
    exists|
        r2: RouterView,
        l2: LifeView,
        d: DecisionView,
        saved: Result<Seq<u8>, Seq<char>>,
        mid: OrchView,
        answer: Seq<ActionView>,
        back: Seq<ActionView>,
    | #[trigger]
        refusal_outcome(
            engine,
            o,
            m,
            now,
            r2,
            l2,
            d,
            saved,
            mid,
            answer,
            back,
            refused,
            next,
            actions,
        )
}

/// The arrival of a refused message is the event of its arrival.
pub proof fn a_refused_arrival_is_an_event<E: CryptoEngine>(
    engine: &E,
    o: OrchView,
    m: MessageView,
    msg_num: u32,
    kem_ct: Seq<u8>,
    otpk_id: u32,
    now: u64,
    refused: RefusedView,
    next: OrchView,
    actions: Seq<ActionView>,
)
    requires
        arrives_refused(engine, o, m, now, refused, next, actions),
        events::routing_number(m.wire_payload, msg_num, kem_ct, m.is_control) == Ok::<
            u32,
            WirePayloadError,
        >(m.msg_number),
    ensures
        events::event_may(
            engine,
            o,
            EventView::MessageReceived {
                message_id: m.message_id,
                from: m.contact_id,
                data: m.wire_payload,
                msg_num,
                kem_ct,
                otpk_id,
                is_control: m.is_control,
                content_type: m.content_type,
            },
            now,
            next,
            actions,
        ),
{
    let (r2, l2, d, saved, mid, answer, back) = choose|
        r2: RouterView,
        l2: LifeView,
        d: DecisionView,
        saved: Result<Seq<u8>, Seq<char>>,
        mid: OrchView,
        answer: Seq<ActionView>,
        back: Seq<ActionView>,
    | #[trigger]
        refusal_outcome(
            engine,
            o,
            m,
            now,
            r2,
            l2,
            d,
            saved,
            mid,
            answer,
            back,
            refused,
            next,
            actions,
        );
    let event = EventView::MessageReceived {
        message_id: m.message_id,
        from: m.contact_id,
        data: m.wire_payload,
        msg_num,
        kem_ct,
        otpk_id,
        is_control: m.is_control,
        content_type: m.content_type,
    };
    assert(events::routed_outcome(engine, o, m, now, r2, l2, d, saved, mid, answer));
    assert(events::dispatch_may(engine, o, event, now, mid, answer));
    assert(events::event_outcome(engine, o, event, now, mid, answer, back, next, actions));
}

/// The list with `h` behind it, unless a copy of the message is held.
pub open spec fn taking(hs: Seq<HoldView>, h: HoldView) -> Seq<HoldView> {
    if holds::is_held(hs, h.message_id) {
        hs
    } else {
        hs.push(h)
    }
}

/// A refused message as it is held in the state `o`.
pub open spec fn hold_of(o: OrchView, contact: Seq<char>, refused: RefusedView) -> HoldView {
    HoldView {
        message_id: refused.message_id,
        epoch: session_lifecycle::session_id_of(o.life, contact),
        opens_session: refused.opens_session,
    }
}

proof fn a_refusal_keeps_the_session_id<E: CryptoEngine>(
    engine: &E,
    r: RouterView,
    l: LifeView,
    m: MessageView,
    now: u64,
    r2: RouterView,
    l2: LifeView,
    d: DecisionView,
)
    requires
        message_router::route_may(engine, r, l, m, now, r2, l2, d),
        message_router::refused_message(d) is Some,
    ensures
        session_lifecycle::session_id_of(l2, m.contact_id) == session_lifecycle::session_id_of(
            l,
            m.contact_id,
        ),
{
}

/// A message refused while our announcement is unanswered is held, with the session it was held
/// against, and a copy of one that is held is not held again. Nothing is torn down and nothing
/// heals, the machine stays as it is, and the platform is told that the message is held.
pub proof fn a_refusal_behind_the_gate_is_held<E: CryptoEngine>(
    engine: &E,
    o: OrchView,
    m: MessageView,
    now: u64,
    refused: RefusedView,
    next: OrchView,
    actions: Seq<ActionView>,
)
    requires
        arrives_refused(engine, o, m, now, refused, next, actions),
        session_machine::gate_up(o.machine, m.contact_id, now),
    ensures
        next.machine == o.machine,
        holds::held(next, m.contact_id) == taking(
            holds::held(o, m.contact_id),
            hold_of(o, m.contact_id, refused),
        ),
        actions.contains(ActionView::HeldPendingAck { contact_id: m.contact_id }),
        forall|i: int|
            0 <= i < actions.len() ==> !((#[trigger] actions[i]) is SendEndSession)
                && !(actions[i] is SessionHealNeeded),
{
    let contact = m.contact_id;
    let (r2, l2, d, saved, mid, answer, back) = choose|
        r2: RouterView,
        l2: LifeView,
        d: DecisionView,
        saved: Result<Seq<u8>, Seq<char>>,
        mid: OrchView,
        answer: Seq<ActionView>,
        back: Seq<ActionView>,
    | #[trigger]
        refusal_outcome(
            engine,
            o,
            m,
            now,
            r2,
            l2,
            d,
            saved,
            mid,
            answer,
            back,
            refused,
            next,
            actions,
        );
    a_refusal_keeps_the_session_id(engine, o.router, o.life, m, now, r2, l2, d);
    let core = orchestrator::with_core(o, r2, l2);
    assert(mid == holds::hold_step(core, contact, refused));
    assert(holds::held(mid, contact) == taking(
        holds::held(o, contact),
        hold_of(o, contact, refused),
    ));
    let told = decisions::conclude(core, d, now).1;
    assert(told[0] == (ActionView::HeldPendingAck { contact_id: contact }));
    assert(actions[0] == told[0]);
    let order = choose|order: Seq<Seq<char>>| #[trigger]
        holds::names_released(order, mid, now) && back == holds::all_handed_back(mid, order);
    handed_back_are_replays(mid, order);
    assert forall|i: int| 0 <= i < actions.len() implies !((
    #[trigger] actions[i]) is SendEndSession) && !(actions[i] is SessionHealNeeded) by {
        if i < answer.len() {
            assert(actions[i] == answer[i]);
        } else {
            assert(actions[i] == back[i - answer.len()]);
        }
    }
}

/// Whether an action hands a held message back.
pub open spec fn hands_back(a: ActionView) -> bool {
    a is ReplayHeld || a is HeldSuperseded
}

proof fn handed_back_are_replays(o: OrchView, order: Seq<Seq<char>>)
    ensures
        forall|i: int|
            0 <= i < holds::all_handed_back(o, order).len() ==> hands_back(
                #[trigger] holds::all_handed_back(o, order)[i],
            ),
    decreases order.len(),
{
    if order.len() > 0 {
        handed_back_are_replays(o, order.drop_last());
        let front = holds::all_handed_back(o, order.drop_last());
        let all = holds::all_handed_back(o, order);
        assert forall|i: int| 0 <= i < all.len() implies hands_back(#[trigger] all[i]) by {
            if i < front.len() {
                assert(all[i] == front[i]);
            }
        }
    }
}

/// The announcement made at `since` still waits for its answer.
pub open spec fn still_announced(o: OrchView, contact: Seq<char>, since: u64) -> bool {
    str_map::lookup(o.machine.phases, contact) matches Some(
        Phase::Opening { since_ms, unacked_sri },
    ) && since_ms == since && unacked_sri >= 1
}

/// Messages of `contact` arrive one after the other and are refused while the announcement made at
/// `since` waits for its answer. What happens between them is free, as long as it neither answers
/// the announcement nor touches what is held: the states before each arrival are `before`, those
/// after it `after`.
pub open spec fn refusals_arrive<E: CryptoEngine>(
    engine: &E,
    start: OrchView,
    contact: Seq<char>,
    since: u64,
    before: Seq<OrchView>,
    ms: Seq<MessageView>,
    times: Seq<u64>,
    refused: Seq<RefusedView>,
    after: Seq<OrchView>,
    acts: Seq<Seq<ActionView>>,
) -> bool {
    let n = before.len();
    &&& ms.len() == n && times.len() == n && refused.len() == n && after.len() == n && acts.len()
        == n
    &&& forall|i: int|
        0 <= i < n ==> {
            &&& arrives_refused(
                engine,
                #[trigger] before[i],
                ms[i],
                times[i],
                refused[i],
                after[i],
                acts[i],
            )
            &&& ms[i].contact_id == contact
            &&& since <= times[i] < since + OPENING_CONFIRM_WINDOW_MS
            &&& still_announced(before[i], contact, since)
            &&& holds::held(before[i], contact) == holds::held(
                left_by(start, after, i),
                contact,
            )
        }
}

/// The state the first `n` arrivals left.
pub open spec fn left_by(start: OrchView, after: Seq<OrchView>, n: int) -> OrchView {
    if n <= 0 {
        start
    } else {
        after[n - 1]
    }
}

/// What is held of the first `n` arrivals: each message once, in the order they first came.
pub open spec fn holds_taken(
    contact: Seq<char>,
    before: Seq<OrchView>,
    refused: Seq<RefusedView>,
    n: int,
) -> Seq<HoldView>
    decreases n,
{
    if n <= 0 {
        Seq::empty()
    } else {
        taking(
            holds_taken(contact, before, refused, n - 1),
            hold_of(before[n - 1], contact, refused[n - 1]),
        )
    }
}

/// What is held of a run of arrivals names each message that arrived, and each once; what came
/// first stays first.
pub proof fn arrivals_are_held_once_in_order(
    contact: Seq<char>,
    before: Seq<OrchView>,
    refused: Seq<RefusedView>,
    n: int,
)
    requires
        0 <= n <= refused.len(),
    ensures
        forall|i: int|
            0 <= i < n ==> holds::is_held(
                holds_taken(contact, before, refused, n),
                (#[trigger] refused[i]).message_id,
            ),
        forall|i: int, j: int|
            0 <= i < j < holds_taken(contact, before, refused, n).len() ==> (
            #[trigger] holds_taken(contact, before, refused, n)[i]).message_id != (
            #[trigger] holds_taken(contact, before, refused, n)[j]).message_id,
        n > 0 ==> holds_taken(contact, before, refused, n - 1).is_prefix_of(
            holds_taken(contact, before, refused, n),
        ),
    decreases n,
{
    if n > 0 {
        arrivals_are_held_once_in_order(contact, before, refused, n - 1);
        let hs = holds_taken(contact, before, refused, n - 1);
        let all = holds_taken(contact, before, refused, n);
        let h = hold_of(before[n - 1], contact, refused[n - 1]);
        assert(hs =~= all.subrange(0, hs.len() as int));
        assert forall|i: int| 0 <= i < n implies holds::is_held(
            all,
            (#[trigger] refused[i]).message_id,
        ) by {
            if i < n - 1 {
                let k = choose|k: int|
                    0 <= k < hs.len() && #[trigger] hs[k].message_id == refused[i].message_id;
                assert(all[k].message_id == refused[i].message_id);
            } else if !holds::is_held(hs, h.message_id) {
                assert(all[hs.len() as int].message_id == h.message_id);
            }
        }
        assert forall|i: int, j: int| 0 <= i < j < all.len() implies (
        #[trigger] all[i]).message_id != (#[trigger] all[j]).message_id by {
            if j < hs.len() {
                assert(hs[i].message_id != hs[j].message_id);
            } else {
                assert(hs[i].message_id != h.message_id);
            }
        }
    }
}

proof fn a_run_is_held<E: CryptoEngine>(
    engine: &E,
    start: OrchView,
    contact: Seq<char>,
    since: u64,
    before: Seq<OrchView>,
    ms: Seq<MessageView>,
    times: Seq<u64>,
    refused: Seq<RefusedView>,
    after: Seq<OrchView>,
    acts: Seq<Seq<ActionView>>,
    n: int,
)
    requires
        refusals_arrive(
            engine,
            start,
            contact,
            since,
            before,
            ms,
            times,
            refused,
            after,
            acts,
        ),
        holds::held(start, contact).len() == 0,
        0 <= n <= before.len(),
    ensures
        holds::held(left_by(start, after, n), contact) == holds_taken(contact, before, refused, n),
    decreases n,
{
    if n > 0 {
        a_run_is_held(
            engine,
            start,
            contact,
            since,
            before,
            ms,
            times,
            refused,
            after,
            acts,
            n - 1,
        );
        let o = before[n - 1];
        assert(arrives_refused(
            engine,
            o,
            ms[n - 1],
            times[n - 1],
            refused[n - 1],
            after[n - 1],
            acts[n - 1],
        ));
        assert(session_machine::gate_up(o.machine, contact, times[n - 1]));
        a_refusal_behind_the_gate_is_held(
            engine,
            o,
            ms[n - 1],
            times[n - 1],
            refused[n - 1],
            after[n - 1],
            acts[n - 1],
        );
    } else {
        assert(holds::held(start, contact) =~= Seq::<HoldView>::empty());
    }
}

/// `actions` hands back `part`, whole and in order, among what else it does.
pub open spec fn hands_back_in_order(
    actions: Seq<ActionView>,
    front: Seq<ActionView>,
    part: Seq<ActionView>,
    rest: Seq<ActionView>,
) -> bool {
    actions == front + part + rest
}

proof fn one_device_among_the_released(
    o: OrchView,
    order: Seq<Seq<char>>,
    device: Seq<char>,
) -> (r: (Seq<ActionView>, Seq<ActionView>))
    requires
        order.contains(device),
    ensures
        hands_back_in_order(
            holds::all_handed_back(o, order),
            r.0,
            holds::handed_back(
                holds::held(o, device),
                session_lifecycle::session_id_of(o.life, device),
            ),
            r.1,
        ),
    decreases order.len(),
{
    let front = holds::all_handed_back(o, order.drop_last());
    let back = holds::handed_back(
        holds::held(o, order.last()),
        session_lifecycle::session_id_of(o.life, order.last()),
    );
    if order.last() == device {
        assert(front + back =~= front + back + Seq::<ActionView>::empty());
        (front, Seq::empty())
    } else {
        let j = choose|j: int| 0 <= j < order.len() && order[j] == device;
        assert(order.drop_last()[j] == device);
        let (a, b) = one_device_among_the_released(o, order.drop_last(), device);
        let part = holds::handed_back(
            holds::held(o, device),
            session_lifecycle::session_id_of(o.life, device),
        );
        assert(front + back =~= a + part + (b + back));
        (a, b + back)
    }
}

/// When the peer acknowledges, the alarm of the wait is cancelled and everything held for the device
/// is handed back, in its order. After that nothing of the device is held, and a second
/// acknowledgement hands nothing back.
pub proof fn an_acknowledgement_hands_everything_back<E: CryptoEngine>(
    engine: &E,
    waited: OrchView,
    contact: Seq<char>,
    at: u64,
    next: OrchView,
    actions: Seq<ActionView>,
    again: OrchView,
    actions_again: Seq<ActionView>,
)
    requires
        events::event_may(
            engine,
            waited,
            EventView::PeerAcked { contact_id: contact },
            at,
            next,
            actions,
        ),
        events::event_may(
            engine,
            next,
            EventView::PeerAcked { contact_id: contact },
            at,
            again,
            actions_again,
        ),
    ensures
        actions.len() > 0,
        actions[0] == (ActionView::CancelTimer { timer_id: decisions::confirm_timer(contact) }),
        exists|front: Seq<ActionView>, rest: Seq<ActionView>| #[trigger]
            hands_back_in_order(
                actions,
                front,
                holds::handed_back(
                    holds::held(waited, contact),
                    session_lifecycle::session_id_of(waited.life, contact),
                ),
                rest,
            ),
        holds::held(next, contact).len() == 0,
        actions_again == seq![
            ActionView::CancelTimer { timer_id: decisions::confirm_timer(contact) },
        ],
{
    let cancel = seq![
        ActionView::CancelTimer { timer_id: decisions::confirm_timer(contact) },
    ];
    let (mid, answer, back) = choose|
        mid: OrchView,
        answer: Seq<ActionView>,
        back: Seq<ActionView>,
    | #[trigger]
        events::event_outcome(
            engine,
            waited,
            EventView::PeerAcked { contact_id: contact },
            at,
            mid,
            answer,
            back,
            next,
            actions,
        );
    let taken = holds::held(waited, contact);
    let part = holds::handed_back(taken, session_lifecycle::session_id_of(waited.life, contact));
    let order = choose|order: Seq<Seq<char>>| #[trigger]
        holds::names_released(order, mid, at) && back == holds::all_handed_back(mid, order);
    assert(!session_machine::gate_up(mid.machine, contact, at));
    assert(holds::held(mid, contact) == taken);
    if mid.holds.contains_key(contact) {
        assert(holds::is_released(mid, contact, at));
        assert(order.contains(contact));
        let (a, b) = one_device_among_the_released(mid, order, contact);
        assert(actions =~= (cancel + a) + part + b);
        assert(hands_back_in_order(actions, cancel + a, part, b));
    } else {
        assert(part =~= Seq::<ActionView>::empty());
        assert(actions =~= actions + part + Seq::<ActionView>::empty());
        assert(hands_back_in_order(actions, actions, part, Seq::empty()));
    }
    let (mid2, answer2, back2) = choose|
        mid2: OrchView,
        answer2: Seq<ActionView>,
        back2: Seq<ActionView>,
    | #[trigger]
        events::event_outcome(
            engine,
            next,
            EventView::PeerAcked { contact_id: contact },
            at,
            mid2,
            answer2,
            back2,
            again,
            actions_again,
        );
    let order2 = choose|order2: Seq<Seq<char>>| #[trigger]
        holds::names_released(order2, mid2, at) && back2 == holds::all_handed_back(mid2, order2);
    if order2.len() > 0 {
        let k = order2[0];
        assert(order2.contains(k));
        assert(holds::is_released(mid2, k, at));
        assert(mid2.holds.contains_key(k));
        assert(session_machine::gate_up(mid.machine, k, at));
        assert(k != contact);
        assert(session_machine::gate_up(mid2.machine, k, at));
    }
    assert(actions_again =~= cancel);
}

/// What the confirm gate held comes back when the peer acknowledges.
///
/// An announcement goes out to `contact` with nothing held. Inside its window messages of `contact`
/// arrive and are refused, each possibly more than once. Each arrival is answered with
/// `HeldPendingAck`, and none with a teardown or a heal. When the peer acknowledges, the alarm of
/// the wait is cancelled and every message that arrived is handed back once, in the order they
/// first came: replayed, or named superseded if it opens a session and the device now has another
/// session than when it was held. After that nothing of the device is held, and a second
/// acknowledgement hands nothing back.
pub proof fn what_the_gate_held_comes_back<E: CryptoEngine>(
    engine: &E,
    o: OrchView,
    contact: Seq<char>,
    since: u64,
    start: OrchView,
    announced: Seq<ActionView>,
    before: Seq<OrchView>,
    ms: Seq<MessageView>,
    times: Seq<u64>,
    refused: Seq<RefusedView>,
    after: Seq<OrchView>,
    acts: Seq<Seq<ActionView>>,
    waited: OrchView,
    at: u64,
    next: OrchView,
    actions: Seq<ActionView>,
    again: OrchView,
    actions_again: Seq<ActionView>,
)
    requires
        holds::held(o, contact).len() == 0,
        events::event_may(
            engine,
            o,
            EventView::SriAnnounced { contact_id: contact },
            since,
            start,
            announced,
        ),
        refusals_arrive(
            engine,
            start,
            contact,
            since,
            before,
            ms,
            times,
            refused,
            after,
            acts,
        ),
        holds::held(waited, contact) == holds::held(
            left_by(start, after, before.len() as int),
            contact,
        ),
        events::event_may(
            engine,
            waited,
            EventView::PeerAcked { contact_id: contact },
            at,
            next,
            actions,
        ),
        events::event_may(
            engine,
            next,
            EventView::PeerAcked { contact_id: contact },
            at,
            again,
            actions_again,
        ),
    ensures
        still_announced(start, contact, since),
        forall|i: int|
            0 <= i < before.len() ==> (#[trigger] acts[i]).contains(
                ActionView::HeldPendingAck { contact_id: contact },
            ),
        forall|i: int, j: int|
            0 <= i < before.len() && 0 <= j < acts[i].len() ==> !((
            #[trigger] acts[i][j]) is SendEndSession) && !(acts[i][j] is SessionHealNeeded),
        actions.len() > 0,
        actions[0] == (ActionView::CancelTimer { timer_id: decisions::confirm_timer(contact) }),
        exists|front: Seq<ActionView>, rest: Seq<ActionView>| #[trigger]
            hands_back_in_order(
                actions,
                front,
                holds::handed_back(
                    holds_taken(contact, before, refused, before.len() as int),
                    session_lifecycle::session_id_of(waited.life, contact),
                ),
                rest,
            ),
        holds::held(next, contact).len() == 0,
        actions_again == seq![
            ActionView::CancelTimer { timer_id: decisions::confirm_timer(contact) },
        ],
{
    let n = before.len() as int;
    assert(still_announced(start, contact, since));
    assert(holds::held(start, contact).len() == 0);
    a_run_is_held(
        engine,
        start,
        contact,
        since,
        before,
        ms,
        times,
        refused,
        after,
        acts,
        n,
    );
    let taken = holds_taken(contact, before, refused, n);
    assert(holds::held(waited, contact) == taken);
    assert forall|i: int| 0 <= i < before.len() implies (#[trigger] acts[i]).contains(
        ActionView::HeldPendingAck { contact_id: contact },
    ) && (forall|j: int|
        0 <= j < acts[i].len() ==> !((#[trigger] acts[i][j]) is SendEndSession) && !(
        acts[i][j] is SessionHealNeeded)) by {
        let b = before[i];
        assert(session_machine::gate_up(b.machine, contact, times[i]));
        a_refusal_behind_the_gate_is_held(
            engine,
            b,
            ms[i],
            times[i],
            refused[i],
            after[i],
            acts[i],
        );
    }
    an_acknowledgement_hands_everything_back(
        engine,
        waited,
        contact,
        at,
        next,
        actions,
        again,
        actions_again,
    );
}

// ── Any run of events ───────────────────────────────────────────────────────

/// Whether what is held for each device is what was, with perhaps more behind it, and no message is
/// held twice that was not before.
pub open spec fn holds_grow(o: OrchView, next: OrchView) -> bool {
    &&& forall|c: Seq<char>| (#[trigger] holds::held(o, c)).is_prefix_of(holds::held(next, c))
    &&& holds::held_once(o) ==> holds::held_once(next)
}

/// What grows and grows again has grown.
pub proof fn holds_grow_on(o: OrchView, mid: OrchView, next: OrchView)
    requires
        holds_grow(o, mid),
        holds_grow(mid, next),
    ensures
        holds_grow(o, next),
{
    assert forall|c: Seq<char>| (#[trigger] holds::held(o, c)).is_prefix_of(
        holds::held(next, c),
    ) by {
        let a = holds::held(o, c);
        let b = holds::held(mid, c);
        let d = holds::held(next, c);
        assert(a.is_prefix_of(b) && b.is_prefix_of(d));
        assert(a =~= d.subrange(0, a.len() as int)) by {
            assert forall|i: int| 0 <= i < a.len() implies a[i] == d[i] by {
                assert(b.subrange(0, a.len() as int)[i] == b[i]);
                assert(d.subrange(0, b.len() as int)[i] == d[i]);
            }
        }
    }
}

/// What is held as it was has grown by nothing.
pub proof fn unchanged_holds_grow(o: OrchView, next: OrchView)
    requires
        next.holds == o.holds,
    ensures
        holds_grow(o, next),
{
    assert forall|c: Seq<char>| (#[trigger] holds::held(o, c)).is_prefix_of(
        holds::held(next, c),
    ) by {
        assert(holds::held(next, c) == holds::held(o, c));
        assert(holds::held(o, c) =~= holds::held(o, c).subrange(
            0,
            holds::held(o, c).len() as int,
        ));
    }
    if holds::held_once(o) {
        assert forall|c: Seq<char>, i: int, j: int|
            #![trigger holds::held(next, c)[i], holds::held(next, c)[j]]
            0 <= i < j < holds::held(next, c).len() implies holds::held(next, c)[i].message_id
            != holds::held(next, c)[j].message_id by {
            assert(holds::held(o, c)[i].message_id != holds::held(o, c)[j].message_id);
        }
    }
}

proof fn a_hold_grows(o: OrchView, contact: Seq<char>, refused: RefusedView)
    ensures
        holds_grow(o, holds::hold_step(o, contact, refused)),
{
    let next = holds::hold_step(o, contact, refused);
    if holds::held_once(o) {
        holds::a_redelivered_message_is_held_once(o, contact, refused);
    }
    assert forall|c: Seq<char>| (#[trigger] holds::held(o, c)).is_prefix_of(
        holds::held(next, c),
    ) by {
        let a = holds::held(o, c);
        assert(a =~= holds::held(next, c).subrange(0, a.len() as int));
    }
}

proof fn an_answer_grows_holds(o: OrchView, d: DecisionView, now: u64)
    ensures
        holds_grow(o, decisions::conclude(o, d, now).0),
        holds_grow(o, events::heartbeat_answered(o, d, now).0),
{
    let a = decisions::conclude(o, d, now).0;
    let b = events::heartbeat_answered(o, d, now).0;
    match d {
        DecisionView::SessionHealNeeded { contact_id, role, is_handshake, reason, refused } => {
            a_hold_grows(o, contact_id, refused);
        },
        DecisionView::EndSessionNeeded { contact_id, reason, refused } => {
            a_hold_grows(o, contact_id, refused);
        },
        _ => {},
    }
    if a.holds == o.holds {
        unchanged_holds_grow(o, a);
    }
    if b.holds == o.holds {
        unchanged_holds_grow(o, b);
    }
}

proof fn answers_grow_holds(o: OrchView, ds: Seq<DecisionView>, now: u64)
    ensures
        holds_grow(o, decisions::conclude_all(o, ds, now).0),
    decreases ds.len(),
{
    if ds.len() == 0 {
        unchanged_holds_grow(o, o);
    } else {
        let mid = decisions::conclude_all(o, ds.drop_last(), now).0;
        answers_grow_holds(o, ds.drop_last(), now);
        an_answer_grows_holds(mid, ds.last(), now);
        holds_grow_on(o, mid, decisions::conclude_all(o, ds, now).0);
    }
}

/// Draining what waits takes nothing from what is held.
pub proof fn a_drain_grows_holds<E: CryptoEngine>(
    engine: &E,
    o: OrchView,
    contact: Seq<char>,
    now: u64,
    next: OrchView,
    actions: Seq<ActionView>,
)
    requires
        settling::drained_may(engine, o, contact, now, next, actions),
    ensures
        holds_grow(o, next),
{
    let (r2, l2, ds) = choose|r2: RouterView, l2: LifeView, ds: Seq<DecisionView>| #[trigger]
        settling::drained_outcome(engine, o, contact, now, r2, l2, ds, next, actions);
    let core = orchestrator::with_core(o, r2, l2);
    unchanged_holds_grow(o, core);
    answers_grow_holds(core, ds, now);
    holds_grow_on(o, core, next);
}

proof fn drains_grow_holds<E: CryptoEngine>(
    engine: &E,
    o: OrchView,
    order: Seq<Seq<char>>,
    now: u64,
    next: OrchView,
    actions: Seq<ActionView>,
)
    requires
        settling::drained_all_may(engine, o, order, now, next, actions),
    ensures
        holds_grow(o, next),
    decreases order.len(),
{
    if order.len() == 0 {
        unchanged_holds_grow(o, next);
    } else {
        let (mid, before, last) = choose|
            mid: OrchView,
            before: Seq<ActionView>,
            last: Seq<ActionView>,
        |
            settling::drained_all_may(
                engine,
                o,
                order.drop_last(),
                now,
                mid,
                before,
            ) && #[trigger] settling::drained_may(
                engine,
                mid,
                order.last(),
                now,
                next,
                last,
            ) && actions == #[trigger] (before + last);
        drains_grow_holds(engine, o, order.drop_last(), now, mid, before);
        a_drain_grows_holds(engine, mid, order.last(), now, next, last);
        holds_grow_on(o, mid, next);
    }
}

proof fn a_completion_grows_holds<E: CryptoEngine>(
    engine: &E,
    o: OrchView,
    contact: Seq<char>,
    data: Seq<u8>,
    now: u64,
    next: OrchView,
    actions: Seq<ActionView>,
)
    requires
        settling::completed_may(engine, o, contact, data, now, next, actions),
    ensures
        holds_grow(o, next),
{
    let (l2, imported) = choose|l2: LifeView, imported: Result<(), Seq<char>>| #[trigger]
        settling::completed_outcome(
            engine,
            o,
            contact,
            data,
            now,
            l2,
            imported,
            next,
            actions,
        );
    let ready = OrchView { life: l2, ..settling::opening_over(o, contact, now) };
    unchanged_holds_grow(o, ready);
    if imported is Ok {
        let (x, drained) = choose|x: Result<Seq<u8>, Seq<char>>, drained: Seq<ActionView>| #[trigger]
            settling::settled_outcome(engine, ready, contact, now, x, drained, next, actions);
        a_drain_grows_holds(engine, ready, contact, now, next, drained);
        holds_grow_on(o, ready, next);
    }
}

/// Until the gates that fell hand back what they held, an event takes nothing from what is held:
/// it can only put more behind it.
pub proof fn an_event_only_adds_to_what_is_held<E: CryptoEngine>(
    engine: &E,
    o: OrchView,
    event: EventView,
    now: u64,
    mid: OrchView,
    answer: Seq<ActionView>,
)
    requires
        events::dispatch_may(engine, o, event, now, mid, answer),
    ensures
        holds_grow(o, mid),
{
    match event {
        EventView::MessageReceived {
            message_id,
            from,
            data,
            msg_num,
            kem_ct,
            otpk_id,
            is_control,
            content_type,
        } => {
            let number = events::routing_number(data, msg_num, kem_ct, is_control);
            if number is Ok {
                let m = MessageView {
                    contact_id: from,
                    wire_payload: data,
                    message_id,
                    msg_number: number->Ok_0,
                    is_control,
                    content_type,
                };
                let (r2, l2, d, saved) = choose|
                    r2: RouterView,
                    l2: LifeView,
                    d: DecisionView,
                    saved: Result<Seq<u8>, Seq<char>>,
                | #[trigger]
                    events::routed_outcome(engine, o, m, now, r2, l2, d, saved, mid, answer);
                let core = orchestrator::with_core(o, r2, l2);
                unchanged_holds_grow(o, core);
                an_answer_grows_holds(core, d, now);
                holds_grow_on(o, core, mid);
            } else {
                unchanged_holds_grow(o, mid);
            }
        },
        EventView::HeartbeatReceived { contact_id, message_id, data, msg_num } => {
            let m = MessageView {
                contact_id,
                wire_payload: data,
                message_id,
                msg_number: msg_num,
                is_control: false,
                content_type: decisions::CT_HEARTBEAT,
            };
            let (r2, l2, d) = choose|r2: RouterView, l2: LifeView, d: DecisionView| #[trigger]
                events::heartbeat_outcome(engine, o, m, now, r2, l2, d, mid, answer);
            let core = orchestrator::with_core(o, r2, l2);
            unchanged_holds_grow(o, core);
            an_answer_grows_holds(core, d, now);
            holds_grow_on(o, core, mid);
        },
        EventView::AckDbResult { message_id, is_processed } => {
            let (r2, l2, d) = choose|r2: RouterView, l2: LifeView, d: DecisionView| #[trigger]
                events::resumed_outcome(
                    engine,
                    o,
                    message_id,
                    is_processed,
                    now,
                    r2,
                    l2,
                    d,
                    mid,
                    answer,
                );
            let core = orchestrator::with_core(o, r2, l2);
            unchanged_holds_grow(o, core);
            an_answer_grows_holds(core, d, now);
            holds_grow_on(o, core, mid);
        },
        EventView::SessionInitCompleted { contact_id, session_data } => {
            a_completion_grows_holds(engine, o, contact_id, session_data, now, mid, answer);
        },
        EventView::NetworkReconnected => {
            let (order, drained) = choose|order: Seq<Seq<char>>, drained: Seq<ActionView>|
                #![trigger settling::drained_all_may(engine, o, order, now, mid, drained)]
                settling::drained_all_may(engine, o, order, now, mid, drained);
            drains_grow_holds(engine, o, order, now, mid, drained);
        },
        EventView::TimerFired { timer_id } => {
            timers::an_alarm_moves_no_message(o, timer_id, now, mid, answer);
            unchanged_holds_grow(o, mid);
        },
        _ => {
            assert(mid.holds == o.holds);
            unchanged_holds_grow(o, mid);
        },
    }
}

/// While its gate is up, whatever event comes, nothing held for a device is lost or handed back:
/// what was held stays, in its order and with more perhaps behind it, and no message is held twice.
pub proof fn a_gate_that_is_up_keeps_what_it_holds<E: CryptoEngine>(
    engine: &E,
    o: OrchView,
    event: EventView,
    now: u64,
    next: OrchView,
    actions: Seq<ActionView>,
    contact: Seq<char>,
)
    requires
        events::event_may(engine, o, event, now, next, actions),
    ensures
        session_machine::gate_up(next.machine, contact, now) ==> holds::held(
            o,
            contact,
        ).is_prefix_of(holds::held(next, contact)),
        holds::held_once(o) ==> holds::held_once(next),
{
    let (mid, answer, back) = choose|
        mid: OrchView,
        answer: Seq<ActionView>,
        back: Seq<ActionView>,
    | #[trigger]
        events::event_outcome(engine, o, event, now, mid, answer, back, next, actions);
    an_event_only_adds_to_what_is_held(engine, o, event, now, mid, answer);
    assert(holds::held(o, contact).is_prefix_of(holds::held(mid, contact)));
    if holds::held_once(o) {
        assert forall|c: Seq<char>, i: int, j: int|
            #![trigger holds::held(next, c)[i], holds::held(next, c)[j]]
            0 <= i < j < holds::held(next, c).len() implies holds::held(next, c)[i].message_id
            != holds::held(next, c)[j].message_id by {
            assert(holds::held(next, c) == holds::held(mid, c));
            assert(holds::held(mid, c)[i].message_id != holds::held(mid, c)[j].message_id);
        }
    }
}

/// Whether the confirm gate of `contact` is up before and after each event of a run, at its time.
pub open spec fn gate_stays_up(start: OrchView, run: Seq<Handled>, contact: Seq<char>) -> bool {
    forall|k: int|
        0 <= k < run.len() ==> {
            &&& session_machine::gate_up(
                origins::state_after(start, run, k).machine,
                contact,
                (#[trigger] run[k]).now,
            )
            &&& session_machine::gate_up(run[k].next.machine, contact, run[k].now)
        }
}

proof fn a_run_keeps_what_is_held<E: CryptoEngine>(
    engine: &E,
    start: OrchView,
    run: Seq<Handled>,
    contact: Seq<char>,
    k: int,
    n: int,
)
    requires
        origins::is_run(engine, start, run),
        gate_stays_up(start, run, contact),
        0 <= k <= n <= run.len(),
    ensures
        holds::held(origins::state_after(start, run, k), contact).is_prefix_of(
            holds::held(origins::state_after(start, run, n), contact),
        ),
        holds::held_once(start) ==> holds::held_once(origins::state_after(start, run, n)),
    decreases n,
{
    let a = holds::held(origins::state_after(start, run, k), contact);
    if n == 0 {
        assert(a =~= a.subrange(0, a.len() as int));
    } else {
        let o = origins::state_after(start, run, n - 1);
        let h = run[n - 1];
        a_gate_that_is_up_keeps_what_it_holds(
            engine,
            o,
            h.event,
            h.now,
            h.next,
            h.actions,
            contact,
        );
        let b = holds::held(o, contact);
        let d = holds::held(h.next, contact);
        if k == n {
            assert(a =~= a.subrange(0, a.len() as int));
            a_run_keeps_what_is_held(engine, start, run, contact, n - 1, n - 1);
        } else {
            a_run_keeps_what_is_held(engine, start, run, contact, k, n - 1);
            assert(a =~= d.subrange(0, a.len() as int)) by {
                assert forall|i: int| 0 <= i < a.len() implies a[i] == d[i] by {
                    assert(b.subrange(0, a.len() as int)[i] == b[i]);
                    assert(d.subrange(0, b.len() as int)[i] == d[i]);
                }
            }
        }
    }
}

/// What the confirm gate holds comes back when the peer acknowledges, whatever else happens.
///
/// An announcement goes out to `contact`, and from then on its gate is up for the window of the
/// announcement. Any run of events follows that leaves it up. A message of the device that
/// arrives in it and is refused is held, told with `HeldPendingAck` and answered with no teardown
/// and no heal. What is held after any of the events is the beginning of what is held in the end,
/// and no message is held twice. When the peer acknowledges, the alarm of the wait is cancelled,
/// and all that is held is handed back, each message once and in its order: replayed, or named
/// superseded if it opens a session and the device now has another session than when it was held.
/// After that nothing of the device is held, and a second acknowledgement hands nothing back.
pub proof fn what_any_run_holds_comes_back<E: CryptoEngine>(
    engine: &E,
    o: OrchView,
    contact: Seq<char>,
    since: u64,
    start: OrchView,
    announced: Seq<ActionView>,
    run: Seq<Handled>,
    at: u64,
    next: OrchView,
    actions: Seq<ActionView>,
    again: OrchView,
    actions_again: Seq<ActionView>,
)
    requires
        holds::held_once(o),
        events::event_may(
            engine,
            o,
            EventView::SriAnnounced { contact_id: contact },
            since,
            start,
            announced,
        ),
        origins::is_run(engine, start, run),
        gate_stays_up(start, run, contact),
        events::event_may(
            engine,
            origins::state_after(start, run, run.len() as int),
            EventView::PeerAcked { contact_id: contact },
            at,
            next,
            actions,
        ),
        events::event_may(
            engine,
            next,
            EventView::PeerAcked { contact_id: contact },
            at,
            again,
            actions_again,
        ),
    ensures
        forall|t: u64|
            since <= t < since + OPENING_CONFIRM_WINDOW_MS
                ==> #[trigger] session_machine::gate_up(start.machine, contact, t),
        ({
            let end = origins::state_after(start, run, run.len() as int);
            let hs = holds::held(end, contact);
            &&& holds::held(start, contact) == holds::held(o, contact)
            &&& forall|k: int|
                0 <= k <= run.len() ==> holds::held(
                    #[trigger] origins::state_after(start, run, k),
                    contact,
                ).is_prefix_of(hs)
            &&& forall|i: int, j: int|
                0 <= i < j < hs.len() ==> (#[trigger] hs[i]).message_id != (
                #[trigger] hs[j]).message_id
            &&& exists|front: Seq<ActionView>, rest: Seq<ActionView>| #[trigger]
                hands_back_in_order(
                    actions,
                    front,
                    holds::handed_back(hs, session_lifecycle::session_id_of(end.life, contact)),
                    rest,
                )
        }),
        forall|k: int, m: MessageView, refused: RefusedView|
            #![trigger run[k], arrives_refused(
                engine,
                origins::state_after(start, run, k),
                m,
                run[k].now,
                refused,
                run[k].next,
                run[k].actions,
            )]
            0 <= k < run.len() && m.contact_id == contact && arrives_refused(
                engine,
                origins::state_after(start, run, k),
                m,
                run[k].now,
                refused,
                run[k].next,
                run[k].actions,
            ) ==> held_as_it_came(
                origins::state_after(start, run, k),
                contact,
                refused,
                run[k].next,
                run[k].actions,
            ),
        actions.len() > 0,
        actions[0] == (ActionView::CancelTimer { timer_id: decisions::confirm_timer(contact) }),
        holds::held(next, contact).len() == 0,
        actions_again == seq![
            ActionView::CancelTimer { timer_id: decisions::confirm_timer(contact) },
        ],
{
    let n = run.len() as int;
    let end = origins::state_after(start, run, n);
    assert forall|t: u64|
        since <= t < since + OPENING_CONFIRM_WINDOW_MS implies #[trigger] session_machine::gate_up(
        start.machine,
        contact,
        t,
    ) by {
        assert(still_announced(start, contact, since));
    }
    assert(holds::held(start, contact) == holds::held(o, contact)) by {
        assert(session_machine::gate_up(start.machine, contact, since));
    }
    a_gate_that_is_up_keeps_what_it_holds(
        engine,
        o,
        EventView::SriAnnounced { contact_id: contact },
        since,
        start,
        announced,
        contact,
    );
    a_run_keeps_what_is_held(engine, start, run, contact, n, n);
    assert forall|k: int| 0 <= k <= run.len() implies holds::held(
        #[trigger] origins::state_after(start, run, k),
        contact,
    ).is_prefix_of(holds::held(end, contact)) by {
        a_run_keeps_what_is_held(engine, start, run, contact, k, n);
    }
    let hs = holds::held(end, contact);
    assert forall|i: int, j: int| 0 <= i < j < hs.len() implies (#[trigger] hs[i]).message_id != (
    #[trigger] hs[j]).message_id by {
        assert(holds::held(end, contact)[i].message_id != holds::held(end, contact)[j].message_id);
    }
    assert forall|k: int, m: MessageView, refused: RefusedView|
        #![trigger run[k], arrives_refused(
            engine,
            origins::state_after(start, run, k),
            m,
            run[k].now,
            refused,
            run[k].next,
            run[k].actions,
        )]
        0 <= k < run.len() && m.contact_id == contact && arrives_refused(
            engine,
            origins::state_after(start, run, k),
            m,
            run[k].now,
            refused,
            run[k].next,
            run[k].actions,
        ) implies held_as_it_came(
        origins::state_after(start, run, k),
        contact,
        refused,
        run[k].next,
        run[k].actions,
    ) by {
        a_refusal_behind_the_gate_is_held(
            engine,
            origins::state_after(start, run, k),
            m,
            run[k].now,
            refused,
            run[k].next,
            run[k].actions,
        );
    }
    an_acknowledgement_hands_everything_back(
        engine,
        end,
        contact,
        at,
        next,
        actions,
        again,
        actions_again,
    );
}

/// Whether a refused message is held as it came, and the platform is told so and nothing else of
/// it: no teardown, and no heal.
pub open spec fn held_as_it_came(
    o: OrchView,
    contact: Seq<char>,
    refused: RefusedView,
    next: OrchView,
    actions: Seq<ActionView>,
) -> bool {
    &&& holds::held(next, contact) == taking(
        holds::held(o, contact),
        hold_of(o, contact, refused),
    )
    &&& actions.contains(ActionView::HeldPendingAck { contact_id: contact })
    &&& forall|i: int|
        0 <= i < actions.len() ==> !((#[trigger] actions[i]) is SendEndSession)
            && !(actions[i] is SessionHealNeeded)
}

/// Whatever event ends the wait for a device, every message held for it comes back: to be replayed,
/// unless it would open a session and the one now held is another than the one it was refused by;
/// then it is superseded.
pub proof fn a_message_held_comes_back_by_its_session<E: CryptoEngine>(
    engine: &E,
    o: OrchView,
    event: EventView,
    now: u64,
    next: OrchView,
    actions: Seq<ActionView>,
    device: Seq<char>,
    i: int,
) -> (k: int)
    requires
        events::event_may(engine, o, event, now, next, actions),
        0 <= i < holds::held(o, device).len(),
        !session_machine::gate_up(next.machine, device, now),
    ensures
        0 <= k < actions.len(),
        ({
            let h = holds::held(o, device)[i];
            let current = match str_map::lookup(next.life.client.sessions, device) {
                Some(s) => Some(s.session_id),
                None => None,
            };
            actions[k] == (if h.opens_session && current is Some && current != h.epoch {
                ActionView::HeldSuperseded { message_id: h.message_id }
            } else {
                ActionView::ReplayHeld { message_id: h.message_id }
            })
        }),
{
    let (mid, answer, back) = choose|
        mid: OrchView,
        answer: Seq<ActionView>,
        back: Seq<ActionView>,
    | #[trigger]
        events::event_outcome(engine, o, event, now, mid, answer, back, next, actions);
    an_event_only_adds_to_what_is_held(engine, o, event, now, mid, answer);
    let order = choose|order: Seq<Seq<char>>| #[trigger]
        holds::names_released(order, mid, now) && back == holds::all_handed_back(mid, order);
    let hs = holds::held(mid, device);
    assert(holds::held(o, device).is_prefix_of(hs));
    assert(hs.subrange(0, holds::held(o, device).len() as int)[i] == hs[i]);
    assert(holds::is_released(mid, device, now));
    assert(order.contains(device));
    let (a, b) = one_device_among_the_released(mid, order, device);
    let part = holds::handed_back(hs, session_lifecycle::session_id_of(mid.life, device));
    let k = answer.len() + a.len() + i;
    assert(back[a.len() + i] == part[i]);
    assert(actions[k] == back[a.len() + i]);
    k
}

} // verus!
