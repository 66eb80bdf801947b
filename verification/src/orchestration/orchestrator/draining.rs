//! The order in which what waited is answered.
//!
//! A queue is drained in the order its messages arrived: everything that answers one message stands
//! before everything that answers the next, and the session that is saved last is the session that
//! is held in the end.

use vstd::prelude::*;

use crate::crypto::client_api;
use crate::crypto::engine::{self, CryptoEngine};
use crate::crypto::messaging::double_ratchet::SessionView;
use crate::orchestration::ack_store;
use crate::orchestration::actions::{ActionView, EventView, SlotView};
use crate::orchestration::message_router::{
    self, DecisionView, MessageView, RouterView,
};
use crate::orchestration::orchestrator::answering;
use crate::orchestration::orchestrator::decisions;
use crate::orchestration::orchestrator::delivering;
use crate::orchestration::orchestrator::events;
use crate::orchestration::orchestrator::holds;
use crate::orchestration::orchestrator::messaging;
use crate::orchestration::orchestrator::origins;
use crate::orchestration::orchestrator::settling;
use crate::orchestration::orchestrator::{self, OrchView};
use crate::orchestration::pq_contribution::DeferredView;
use crate::orchestration::session_lifecycle::{self, DecryptResultView, LifeView};
use crate::str_map;
use crate::vecs;

verus! {

/// Whether an action answers the message `id`: it hands the message over, drops it as a copy, asks
/// the durable store about it, or records it as processed.
pub open spec fn answers(a: ActionView, id: Seq<char>) -> bool {
    match a {
        ActionView::MessageDecrypted { contact_id, message_id, plaintext } => message_id == id,
        ActionView::CallSignalDecrypted { contact_id, message_id, proto_bytes } => message_id == id,
        ActionView::DuplicateDropped { message_id } => message_id == id,
        ActionView::CheckAckInDb { message_id } => message_id == id,
        ActionView::PersistAck { message_id, timestamp } => message_id == id,
        _ => false,
    }
}

/// Whether these messages are answered in their order: whatever answers an earlier one stands
/// before whatever answers a later one.
pub open spec fn answered_in_order(actions: Seq<ActionView>, ms: Seq<MessageView>) -> bool {
    forall|a: int, b: int, i: int, j: int|
        0 <= i < j < ms.len() && 0 <= a < actions.len() && 0 <= b < actions.len() && answers(
            #[trigger] actions[a],
            #[trigger] ms[i].message_id,
        ) && answers(#[trigger] actions[b], #[trigger] ms[j].message_id) ==> a < b
}

/// Whether an action saves the session of `contact`.
pub open spec fn saves_session(a: ActionView, contact: Seq<char>) -> bool {
    a matches ActionView::SaveToSecureStore { slot, data } && slot == (SlotView::Session {
        contact_id: contact,
    })
}

/// Whether the last of these actions that saves the session of `contact` is the `k`-th.
pub open spec fn last_save(actions: Seq<ActionView>, contact: Seq<char>, k: int) -> bool {
    &&& 0 <= k < actions.len()
    &&& saves_session(actions[k], contact)
    &&& forall|j: int| k < j < actions.len() ==> !saves_session(#[trigger] actions[j], contact)
}

/// Whether none of these actions saves the session of `contact`.
pub open spec fn no_save(actions: Seq<ActionView>, contact: Seq<char>) -> bool {
    forall|j: int| 0 <= j < actions.len() ==> !saves_session(#[trigger] actions[j], contact)
}

/// Whether what is saved last of the session of `contact`, if anything is, is a record of the
/// session held in `l`; and if nothing is, the session is the one that was held in `before`.
pub open spec fn saves_what_is_held<E: CryptoEngine>(
    engine: &E,
    before: LifeView,
    actions: Seq<ActionView>,
    contact: Seq<char>,
    l: LifeView,
) -> bool {
    &&& forall|k: int| #[trigger]
        last_save(actions, contact, k) ==> l.client.sessions.contains_key(contact)
            && engine::said_encode_session(
            engine,
            l.client.sessions[contact],
            Ok(actions[k]->SaveToSecureStore_data),
        )
    &&& no_save(actions, contact) ==> str_map::lookup(l.client.sessions, contact)
        == str_map::lookup(before.client.sessions, contact)
}

/// An engine that can write every session.
pub open spec fn writes_every_session<E: CryptoEngine>(engine: &E) -> bool {
    forall|s: SessionView, reply: Result<Seq<u8>, Seq<char>>| #[trigger]
        engine::said_encode_session(engine, s, reply) ==> reply is Ok
}

/// How a queue is drained, message by message: what waits and what is held after each was routed,
/// what each was routed to, the state after each was answered, and the actions that answer it.
pub struct Drain {
    pub routers: Seq<RouterView>,
    pub lives: Seq<LifeView>,
    pub decisions: Seq<DecisionView>,
    pub states: Seq<OrchView>,
    pub parts: Seq<Seq<ActionView>>,
}

/// Whether `w` drains the messages `ms` in their order, from `r` and `l` on: the `i`-th message is
/// routed to the `i`-th decision, and the `i`-th part answers that decision.
pub open spec fn is_drain<E: CryptoEngine>(
    engine: &E,
    r: RouterView,
    l: LifeView,
    o: OrchView,
    ms: Seq<MessageView>,
    now: u64,
    w: Drain,
) -> bool {
    let n = ms.len();
    &&& w.routers.len() == n + 1 && w.lives.len() == n + 1 && w.states.len() == n + 1
    &&& w.decisions.len() == n && w.parts.len() == n
    &&& w.routers[0] == r && w.lives[0] == l
    &&& w.states[0] == orchestrator::with_core(o, w.routers[n as int], w.lives[n as int])
    &&& forall|i: int|
        0 <= i < n ==> message_router::route_may(
            engine,
            w.routers[i],
            w.lives[i],
            #[trigger] ms[i],
            now,
            w.routers[i + 1],
            w.lives[i + 1],
            w.decisions[i],
        )
    &&& forall|i: int|
        0 <= i < n ==> (w.states[i + 1], #[trigger] w.parts[i]) == decisions::conclude(
            w.states[i],
            w.decisions[i],
            now,
        )
}

proof fn routed_one_by_one<E: CryptoEngine>(
    engine: &E,
    r: RouterView,
    l: LifeView,
    ms: Seq<MessageView>,
    now: u64,
    r2: RouterView,
    l2: LifeView,
    ds: Seq<DecisionView>,
) -> (w: (Seq<RouterView>, Seq<LifeView>))
    requires
        message_router::route_all_may(engine, r, l, ms, now, r2, l2, ds),
    ensures
        ds.len() == ms.len(),
        w.0.len() == ms.len() + 1 && w.1.len() == ms.len() + 1,
        w.0[0] == r && w.1[0] == l,
        w.0[ms.len() as int] == r2 && w.1[ms.len() as int] == l2,
        forall|i: int|
            0 <= i < ms.len() ==> message_router::route_may(
                engine,
                w.0[i],
                w.1[i],
                #[trigger] ms[i],
                now,
                w.0[i + 1],
                w.1[i + 1],
                ds[i],
            ),
    decreases ms.len(),
{
    if ms.len() == 0 {
        (seq![r], seq![l])
    } else {
        let (rm, lm) = choose|rm: RouterView, lm: LifeView|
            message_router::route_all_may(
                engine,
                r,
                l,
                ms.drop_last(),
                now,
                rm,
                lm,
                ds.drop_last(),
            ) && #[trigger] message_router::route_may(
                engine,
                rm,
                lm,
                ms.last(),
                now,
                r2,
                l2,
                ds.last(),
            );
        let (rs, ls) = routed_one_by_one(
            engine,
            r,
            l,
            ms.drop_last(),
            now,
            rm,
            lm,
            ds.drop_last(),
        );
        let w = (rs.push(r2), ls.push(l2));
        assert forall|i: int| 0 <= i < ms.len() implies message_router::route_may(
            engine,
            w.0[i],
            w.1[i],
            #[trigger] ms[i],
            now,
            w.0[i + 1],
            w.1[i + 1],
            ds[i],
        ) by {
            if i < ms.len() - 1 {
                assert(ms.drop_last()[i] == ms[i]);
                assert(ds.drop_last()[i] == ds[i]);
            }
        }
        w
    }
}

proof fn concluded_one_by_one(o: OrchView, ds: Seq<DecisionView>, now: u64) -> (w: (
    Seq<OrchView>,
    Seq<Seq<ActionView>>,
))
    ensures
        w.0.len() == ds.len() + 1 && w.1.len() == ds.len(),
        w.0[0] == o,
        forall|i: int|
            0 <= i < ds.len() ==> (w.0[i + 1], #[trigger] w.1[i]) == decisions::conclude(
                w.0[i],
                ds[i],
                now,
            ),
        w.0[ds.len() as int] == decisions::conclude_all(o, ds, now).0,
        w.1.flatten() == decisions::conclude_all(o, ds, now).1,
    decreases ds.len(),
{
    if ds.len() == 0 {
        let parts = Seq::<Seq<ActionView>>::empty();
        assert(parts.flatten() =~= Seq::<ActionView>::empty());
        (seq![o], parts)
    } else {
        let (states, parts) = concluded_one_by_one(o, ds.drop_last(), now);
        let (next, last) = decisions::conclude(states[ds.len() - 1], ds.last(), now);
        let w = (states.push(next), parts.push(last));
        w.1.lemma_flatten_and_flatten_alt_are_equivalent();
        parts.lemma_flatten_and_flatten_alt_are_equivalent();
        assert(w.1.drop_last() =~= parts);
        assert(w.1.flatten() == parts.flatten() + last);
        assert forall|i: int| 0 <= i < ds.len() implies (w.0[i + 1], #[trigger] w.1[i])
            == decisions::conclude(w.0[i], ds[i], now) by {
            if i < ds.len() - 1 {
                assert(parts[i] == w.1[i]);
                assert(ds.drop_last()[i] == ds[i]);
            }
        }
        w
    }
}

// ── Laws ────────────────────────────────────────────────────────────────────

/// A queue is drained message by message, in the order the messages arrived: the actions are the
/// answers to the first message, then those to the second, and so on, and nothing else.
pub proof fn a_drain_goes_message_by_message<E: CryptoEngine>(
    engine: &E,
    o: OrchView,
    contact: Seq<char>,
    now: u64,
    next: OrchView,
    actions: Seq<ActionView>,
) -> (w: Drain)
    requires
        settling::drained_may(engine, o, contact, now, next, actions),
    ensures
        ({
            let ms = message_router::waiting(o.router, contact);
            &&& is_drain(
                engine,
                message_router::with_queue(o.router, contact, Seq::empty()),
                o.life,
                o,
                ms,
                now,
                w,
            )
            &&& actions == w.parts.flatten()
            &&& next == w.states[ms.len() as int]
            &&& next.life == w.lives[ms.len() as int]
        }),
{
    let (r2, l2, ds) = choose|r2: RouterView, l2: LifeView, ds: Seq<DecisionView>| #[trigger]
        settling::drained_outcome(engine, o, contact, now, r2, l2, ds, next, actions);
    let taken = message_router::with_queue(o.router, contact, Seq::empty());
    let ms = message_router::waiting(o.router, contact);
    let (rs, ls) = routed_one_by_one(engine, taken, o.life, ms, now, r2, l2, ds);
    let core = orchestrator::with_core(o, r2, l2);
    let (states, parts) = concluded_one_by_one(core, ds, now);
    life_stays(states, parts, ds, now, ds.len() as int);
    Drain { routers: rs, lives: ls, decisions: ds, states, parts }
}

proof fn life_stays(
    states: Seq<OrchView>,
    parts: Seq<Seq<ActionView>>,
    ds: Seq<DecisionView>,
    now: u64,
    n: int,
)
    requires
        states.len() == ds.len() + 1,
        parts.len() == ds.len(),
        forall|i: int|
            0 <= i < ds.len() ==> (states[i + 1], #[trigger] parts[i]) == decisions::conclude(
                states[i],
                ds[i],
                now,
            ),
        0 <= n <= ds.len(),
    ensures
        states[n].life == states[0].life,
    decreases n,
{
    if n > 0 {
        life_stays(states, parts, ds, now, n - 1);
        assert((states[n - 1 + 1], parts[n - 1]) == decisions::conclude(
            states[n - 1],
            ds[n - 1],
            now,
        ));
        decisions::an_answer_touches_no_session(states[n - 1], ds[n - 1], now);
    }
}

/// Whether every action of a list that answers a message answers `id`.
pub open spec fn answers_only(actions: Seq<ActionView>, id: Seq<char>) -> bool {
    forall|a: int, other: Seq<char>|
        0 <= a < actions.len() && #[trigger] answers(actions[a], other) ==> other == id
}

proof fn a_message_answers_itself<E: CryptoEngine>(
    engine: &E,
    r: RouterView,
    l: LifeView,
    m: MessageView,
    now: u64,
    r2: RouterView,
    l2: LifeView,
    d: DecisionView,
    o: OrchView,
)
    requires
        message_router::route_may(engine, r, l, m, now, r2, l2, d),
    ensures
        answers_only(decisions::conclude(o, d, now).1, m.message_id),
{
    let out = decisions::conclude(o, d, now).1;
    if !m.is_control && ack_store::ack_check(l.ack, m.message_id) is NotProcessed
        && l.client.sessions.contains_key(m.contact_id) {
        let (tried, x) = choose|tried: LifeView, x: Result<DecryptResultView, Seq<char>>| #[trigger]
            message_router::tried_may(engine, l, m, tried, x, now, l2, d);
        if x is Ok {
            let p = x->Ok_0;
            let pq = choose|pq: Seq<ActionView>|
                session_lifecycle::contribution_may(
                    engine,
                    message_router::life_marked(tried, m, now),
                    m.contact_id,
                    l2,
                    pq,
                ) && d == #[trigger] message_router::accepted(m, p, now, tried, pq);
            assert(forall|a: int, other: Seq<char>|
                0 <= a < p.actions.len() ==> !(#[trigger] answers(p.actions[a], other)));
            assert(forall|a: int, other: Seq<char>|
                0 <= a < pq.len() ==> !(#[trigger] answers(pq[a], other)));
            let all = d->Decrypted_actions;
            let ack = ack_store::ack_mark(tried.ack, m.message_id, now).1;
            assert(all == p.actions + ack + pq);
            assert(answers_only(all, m.message_id)) by {
                assert forall|a: int, other: Seq<char>|
                    0 <= a < all.len() && #[trigger] answers(all[a], other) implies other
                    == m.message_id by {
                    if a < p.actions.len() {
                        assert(all[a] == p.actions[a]);
                        assert(!answers(p.actions[a], other));
                    } else if a < p.actions.len() + ack.len() {
                        assert(all[a] == ack[a - p.actions.len()]);
                    } else {
                        assert(all[a] == pq[a - p.actions.len() - ack.len()]);
                        assert(!answers(pq[a - p.actions.len() - ack.len()], other));
                    }
                }
            }
            assert forall|a: int, other: Seq<char>|
                0 <= a < out.len() && #[trigger] answers(out[a], other) implies other
                == m.message_id by {
                if a < all.len() {
                    assert(out[a] == all[a]);
                    assert(answers(all[a], other));
                }
            }
        } else {
            assert((l2, d) == message_router::refusal(tried, m, x->Err_0, now));
        }
    }
}

/// Where the `i`-th part of a list of lists begins when they are put one behind the other.
pub open spec fn starts_at<T>(parts: Seq<Seq<T>>, i: int) -> int
    decreases i,
{
    if i <= 0 {
        0
    } else {
        starts_at(parts, i - 1) + parts[i - 1].len()
    }
}

/// The part that holds the `a`-th item when parts are put one behind the other.
pub proof fn part_of<T>(parts: Seq<Seq<T>>, a: int) -> (i: int)
    requires
        0 <= a < parts.flatten().len(),
    ensures
        0 <= i < parts.len(),
        starts_at(parts, i) <= a < starts_at(parts, i + 1),
        parts.flatten()[a] == parts[i][a - starts_at(parts, i)],
    decreases parts.len(),
{
    parts.lemma_flatten_and_flatten_alt_are_equivalent();
    if parts.len() == 0 {
        assert(parts.flatten() =~= Seq::<T>::empty());
        0
    } else {
        let front = parts.drop_last();
        front.lemma_flatten_and_flatten_alt_are_equivalent();
        assert(parts.flatten() == front.flatten() + parts.last());
        lengths_add_up(front);
        starts_agree(parts, parts.len() - 1);
        if a < front.flatten().len() {
            let i = part_of(front, a);
            starts_agree(parts, i);
            starts_agree(parts, i + 1);
            i
        } else {
            assert(starts_at(parts, parts.len() as int) == starts_at(parts, parts.len() - 1)
                + parts[parts.len() - 1].len());
            parts.len() - 1
        }
    }
}

proof fn lengths_add_up<T>(parts: Seq<Seq<T>>)
    ensures
        parts.flatten().len() == starts_at(parts, parts.len() as int),
    decreases parts.len(),
{
    parts.lemma_flatten_and_flatten_alt_are_equivalent();
    if parts.len() == 0 {
        assert(parts.flatten() =~= Seq::<T>::empty());
    } else {
        let front = parts.drop_last();
        front.lemma_flatten_and_flatten_alt_are_equivalent();
        lengths_add_up(front);
        starts_agree(parts, parts.len() - 1);
    }
}

proof fn starts_agree<T>(parts: Seq<Seq<T>>, i: int)
    requires
        parts.len() > 0,
        i <= parts.len() - 1,
    ensures
        starts_at(parts.drop_last(), i) == starts_at(parts, i),
    decreases i,
{
    if i > 0 {
        starts_agree(parts, i - 1);
    }
}

proof fn starts_grow<T>(parts: Seq<Seq<T>>, i: int, j: int)
    requires
        i <= j,
    ensures
        starts_at(parts, i) <= starts_at(parts, j),
    decreases j,
{
    if i < j && j > 0 {
        starts_grow(parts, i, j - 1);
    }
}

/// No two of these messages have the same id.
pub open spec fn ids_differ(ms: Seq<MessageView>) -> bool {
    forall|i: int, j: int|
        0 <= i < j < ms.len() ==> #[trigger] ms[i].message_id != #[trigger] ms[j].message_id
}

proof fn ids_differ_in_every_queue(r: RouterView, contact: Seq<char>)
    requires
        message_router::each_once(r),
    ensures
        ids_differ(message_router::waiting(r, contact)),
{
    let ms = message_router::waiting(r, contact);
    assert forall|i: int, j: int| 0 <= i < j < ms.len() implies #[trigger] ms[i].message_id
        != #[trigger] ms[j].message_id by {
        assert(message_router::waiting(r, contact)[i].message_id != message_router::waiting(
            r,
            contact,
        )[j].message_id);
    }
}

/// Draining a queue answers its messages in the order they arrived: whatever answers a message
/// stands before whatever answers one that arrived behind it.
pub proof fn a_drain_answers_in_arrival_order<E: CryptoEngine>(
    engine: &E,
    o: OrchView,
    contact: Seq<char>,
    now: u64,
    next: OrchView,
    actions: Seq<ActionView>,
)
    requires
        settling::drained_may(engine, o, contact, now, next, actions),
        ids_differ(message_router::waiting(o.router, contact)),
    ensures
        answered_in_order(actions, message_router::waiting(o.router, contact)),
{
    let ms = message_router::waiting(o.router, contact);
    let w = a_drain_goes_message_by_message(engine, o, contact, now, next, actions);
    assert forall|k: int| 0 <= k < ms.len() implies answers_only(
        #[trigger] w.parts[k],
        ms[k].message_id,
    ) by {
        assert(message_router::route_may(
            engine,
            w.routers[k],
            w.lives[k],
            ms[k],
            now,
            w.routers[k + 1],
            w.lives[k + 1],
            w.decisions[k],
        ));
        a_message_answers_itself(
            engine,
            w.routers[k],
            w.lives[k],
            ms[k],
            now,
            w.routers[k + 1],
            w.lives[k + 1],
            w.decisions[k],
            w.states[k],
        );
        assert((w.states[k + 1], w.parts[k]) == decisions::conclude(
            w.states[k],
            w.decisions[k],
            now,
        ));
    }
    assert forall|a: int, b: int, i: int, j: int|
        0 <= i < j < ms.len() && 0 <= a < actions.len() && 0 <= b < actions.len() && answers(
            #[trigger] actions[a],
            #[trigger] ms[i].message_id,
        ) && answers(#[trigger] actions[b], #[trigger] ms[j].message_id) implies a < b by {
        let x = part_of(w.parts, a);
        let y = part_of(w.parts, b);
        assert(answers_only(w.parts[x], ms[x].message_id));
        assert(answers_only(w.parts[y], ms[y].message_id));
        assert(answers(w.parts[x][a - starts_at(w.parts, x)], ms[i].message_id));
        assert(answers(w.parts[y][b - starts_at(w.parts, y)], ms[j].message_id));
        assert(ms[x].message_id == ms[i].message_id);
        assert(ms[y].message_id == ms[j].message_id);
        assert(x == i);
        assert(y == j);
        starts_grow(w.parts, x + 1, y);
    }
}

proof fn saves_of_both<E: CryptoEngine>(
    engine: &E,
    a: LifeView,
    front: Seq<ActionView>,
    b: LifeView,
    rest: Seq<ActionView>,
    c: LifeView,
    contact: Seq<char>,
)
    requires
        saves_what_is_held(engine, a, front, contact, b),
        saves_what_is_held(engine, b, rest, contact, c),
    ensures
        saves_what_is_held(engine, a, front + rest, contact, c),
{
    let all = front + rest;
    if no_save(rest, contact) {
        assert forall|k: int| #[trigger]
            last_save(all, contact, k) implies c.client.sessions.contains_key(contact) && engine::said_encode_session(
            engine,
            c.client.sessions[contact],
            Ok(all[k]->SaveToSecureStore_data),
        ) by {
            if k >= front.len() {
                assert(!saves_session(rest[k - front.len()], contact));
            }
            assert(all[k] == front[k]);
            assert forall|j: int| k < j < front.len() implies !saves_session(
                #[trigger] front[j],
                contact,
            ) by {
                assert(all[j] == front[j]);
            }
            assert(last_save(front, contact, k));
        }
        if no_save(all, contact) {
            assert forall|j: int| 0 <= j < front.len() implies !saves_session(
                #[trigger] front[j],
                contact,
            ) by {
                assert(all[j] == front[j]);
            }
        }
    } else {
        let x = choose|x: int| 0 <= x < rest.len() && saves_session(#[trigger] rest[x], contact);
        assert(all[front.len() + x] == rest[x]);
        assert(saves_session(all[front.len() + x], contact));
        assert forall|k: int| #[trigger]
            last_save(all, contact, k) implies c.client.sessions.contains_key(contact) && engine::said_encode_session(
            engine,
            c.client.sessions[contact],
            Ok(all[k]->SaveToSecureStore_data),
        ) by {
            assert(k >= front.len() + x);
            assert(all[k] == rest[k - front.len()]);
            assert forall|j: int| k - front.len() < j < rest.len() implies !saves_session(
                #[trigger] rest[j],
                contact,
            ) by {
                assert(all[front.len() + j] == rest[j]);
            }
            assert(last_save(rest, contact, k - front.len()));
        }
    }
}

proof fn nothing_saved_nothing_changed<E: CryptoEngine>(
    engine: &E,
    before: LifeView,
    actions: Seq<ActionView>,
    contact: Seq<char>,
    l: LifeView,
)
    requires
        no_save(actions, contact),
        str_map::lookup(l.client.sessions, contact) == str_map::lookup(
            before.client.sessions,
            contact,
        ),
    ensures
        saves_what_is_held(engine, before, actions, contact, l),
{
    assert forall|k: int| #[trigger] last_save(actions, contact, k) implies false by {
        assert(saves_session(actions[k], contact));
    }
}

proof fn one_save_of_what_is_held<E: CryptoEngine>(
    engine: &E,
    before: LifeView,
    actions: Seq<ActionView>,
    contact: Seq<char>,
    l: LifeView,
    data: Seq<u8>,
)
    requires
        actions.len() > 0,
        actions[0] == session_lifecycle::save_session(contact, data),
        forall|j: int| 0 < j < actions.len() ==> !saves_session(#[trigger] actions[j], contact),
        session_lifecycle::exported(engine, l, contact, Ok(data)),
    ensures
        saves_what_is_held(engine, before, actions, contact, l),
{
    assert(saves_session(actions[0], contact));
    assert forall|k: int| #[trigger] last_save(actions, contact, k) implies k == 0 by {
        assert(saves_session(actions[k], contact));
    }
}

proof fn a_contribution_saves_what_is_held<E: CryptoEngine>(
    engine: &E,
    l: LifeView,
    contact: Seq<char>,
    next: LifeView,
    actions: Seq<ActionView>,
)
    requires
        writes_every_session(engine),
        session_lifecycle::contribution_may(engine, l, contact, next, actions),
    ensures
        saves_what_is_held(engine, l, actions, contact, next),
{
    if !l.deferred.contains_key(contact) {
        nothing_saved_nothing_changed(engine, l, actions, contact, next);
    } else {
        let c = l.deferred[contact];
        let (m, x, entries, y) = choose|
            m: Result<Seq<u8>, Seq<char>>,
            x: Result<Seq<u8>, Seq<char>>,
            entries: Seq<(Seq<char>, DeferredView)>,
            y: Result<Seq<u8>, Seq<char>>,
        | #[trigger]
            session_lifecycle::contribution_outcome(
                engine,
                l,
                contact,
                c.shared_secret,
                m,
                x,
                entries,
                y,
                next,
                actions,
            );
        let mixed = client_api::mix_step(l.client, contact, m);
        if mixed.1 is Err {
            nothing_saved_nothing_changed(engine, l, actions, contact, next);
        } else {
            assert(x is Ok);
            one_save_of_what_is_held(engine, l, actions, contact, next, x->Ok_0);
        }
    }
}

proof fn an_answer_saves_what_is_held<E: CryptoEngine>(
    engine: &E,
    r: RouterView,
    l: LifeView,
    m: MessageView,
    now: u64,
    r2: RouterView,
    l2: LifeView,
    d: DecisionView,
    o: OrchView,
)
    requires
        writes_every_session(engine),
        !m.is_control,
        message_router::route_may(engine, r, l, m, now, r2, l2, d),
    ensures
        saves_what_is_held(engine, l, decisions::conclude(o, d, now).1, m.contact_id, l2),
{
    let contact = m.contact_id;
    let out = decisions::conclude(o, d, now).1;
    if ack_store::ack_check(l.ack, m.message_id) is NotProcessed
        && l.client.sessions.contains_key(contact) {
        let (tried, x) = choose|tried: LifeView, x: Result<DecryptResultView, Seq<char>>| #[trigger]
            message_router::tried_may(engine, l, m, tried, x, now, l2, d);
        if x is Ok {
            let p = x->Ok_0;
            let pq = choose|pq: Seq<ActionView>|
                session_lifecycle::contribution_may(
                    engine,
                    message_router::life_marked(tried, m, now),
                    contact,
                    l2,
                    pq,
                ) && d == #[trigger] message_router::accepted(m, p, now, tried, pq);
            let ack = ack_store::ack_mark(tried.ack, m.message_id, now).1;
            let marked = message_router::life_marked(tried, m, now);
            let data = p.actions[0]->SaveToSecureStore_data;
            assert(p.actions == seq![session_lifecycle::save_session(contact, data)]);
            assert(session_lifecycle::exported(engine, tried, contact, Ok(data)));
            assert(session_lifecycle::exported(engine, marked, contact, Ok(data)));
            one_save_of_what_is_held(engine, l, p.actions + ack, contact, marked, data);
            a_contribution_saves_what_is_held(engine, marked, contact, l2, pq);
            saves_of_both(engine, l, p.actions + ack, marked, pq, l2, contact);
            let all = d->Decrypted_actions;
            assert(all =~= (p.actions + ack) + pq);
            let tail = out.subrange(all.len() as int, out.len() as int);
            assert(out =~= all + tail);
            nothing_saved_nothing_changed(engine, l2, tail, contact, l2);
            saves_of_both(engine, l, all, l2, tail, l2, contact);
        } else {
            assert((l2, d) == message_router::refusal(tried, m, x->Err_0, now));
            assert(str_map::lookup(tried.client.sessions, contact) == str_map::lookup(
                l.client.sessions,
                contact,
            ));
            nothing_saved_nothing_changed(engine, l, out, contact, l2);
        }
    } else {
        nothing_saved_nothing_changed(engine, l, out, contact, l2);
    }
}

proof fn parts_save_what_is_held<E: CryptoEngine>(
    engine: &E,
    r: RouterView,
    l: LifeView,
    o: OrchView,
    ms: Seq<MessageView>,
    now: u64,
    w: Drain,
    contact: Seq<char>,
    n: int,
)
    requires
        writes_every_session(engine),
        is_drain(engine, r, l, o, ms, now, w),
        message_router::only_messages_of(ms, contact),
        0 <= n <= ms.len(),
    ensures
        saves_what_is_held(engine, l, w.parts.take(n).flatten(), contact, w.lives[n]),
    decreases n,
{
    let front = w.parts.take(n);
    if n == 0 {
        assert(front.flatten() =~= Seq::<ActionView>::empty());
        nothing_saved_nothing_changed(engine, l, front.flatten(), contact, w.lives[0]);
    } else {
        parts_save_what_is_held(engine, r, l, o, ms, now, w, contact, n - 1);
        let k = n - 1;
        assert(message_router::route_may(
            engine,
            w.routers[k],
            w.lives[k],
            ms[k],
            now,
            w.routers[k + 1],
            w.lives[k + 1],
            w.decisions[k],
        ));
        assert((w.states[k + 1], w.parts[k]) == decisions::conclude(
            w.states[k],
            w.decisions[k],
            now,
        ));
        an_answer_saves_what_is_held(
            engine,
            w.routers[k],
            w.lives[k],
            ms[k],
            now,
            w.routers[k + 1],
            w.lives[k + 1],
            w.decisions[k],
            w.states[k],
        );
        front.lemma_flatten_and_flatten_alt_are_equivalent();
        front.drop_last().lemma_flatten_and_flatten_alt_are_equivalent();
        assert(front.drop_last() =~= w.parts.take(k));
        assert(front.flatten() == w.parts.take(k).flatten() + w.parts[k]);
        saves_of_both(
            engine,
            l,
            w.parts.take(k).flatten(),
            w.lives[k],
            w.parts[k],
            w.lives[n],
            contact,
        );
    }
}

/// With an engine that can write every session, what a drain saves last of its session is a record
/// of the session that is held when the drain is over; and if it saves nothing, the session is the
/// one that was held before.
pub proof fn a_drain_saves_last_what_is_held<E: CryptoEngine>(
    engine: &E,
    o: OrchView,
    contact: Seq<char>,
    now: u64,
    next: OrchView,
    actions: Seq<ActionView>,
)
    requires
        writes_every_session(engine),
        settling::drained_may(engine, o, contact, now, next, actions),
        message_router::only_messages_wait(o.router),
    ensures
        saves_what_is_held(engine, o.life, actions, contact, next.life),
{
    let ms = message_router::waiting(o.router, contact);
    let w = a_drain_goes_message_by_message(engine, o, contact, now, next, actions);
    let taken = message_router::with_queue(o.router, contact, Seq::empty());
    assert(message_router::only_messages_of(ms, contact));
    parts_save_what_is_held(engine, taken, o.life, o, ms, now, w, contact, ms.len() as int);
    assert(w.parts.take(ms.len() as int) =~= w.parts);
}

proof fn framed_answers_in_order(
    front: Seq<ActionView>,
    mid: Seq<ActionView>,
    rest: Seq<ActionView>,
    ms: Seq<MessageView>,
)
    requires
        answered_in_order(mid, ms),
        forall|a: int, id: Seq<char>|
            0 <= a < front.len() ==> !(#[trigger] answers(front[a], id)),
        forall|a: int, id: Seq<char>| 0 <= a < rest.len() ==> !(#[trigger] answers(rest[a], id)),
    ensures
        answered_in_order(front + mid + rest, ms),
{
    let all = front + mid + rest;
    assert forall|a: int, b: int, i: int, j: int|
        0 <= i < j < ms.len() && 0 <= a < all.len() && 0 <= b < all.len() && answers(
            #[trigger] all[a],
            #[trigger] ms[i].message_id,
        ) && answers(#[trigger] all[b], #[trigger] ms[j].message_id) implies a < b by {
        within(front, mid, rest, a, ms[i].message_id);
        within(front, mid, rest, b, ms[j].message_id);
        let x = a - front.len();
        let y = b - front.len();
        assert(answers(mid[x], ms[i].message_id) && answers(mid[y], ms[j].message_id));
        assert(x < y);
    }
}

proof fn within(
    front: Seq<ActionView>,
    mid: Seq<ActionView>,
    rest: Seq<ActionView>,
    a: int,
    id: Seq<char>,
)
    requires
        0 <= a < (front + mid + rest).len(),
        answers((front + mid + rest)[a], id),
        forall|a: int, id: Seq<char>|
            0 <= a < front.len() ==> !(#[trigger] answers(front[a], id)),
        forall|a: int, id: Seq<char>| 0 <= a < rest.len() ==> !(#[trigger] answers(rest[a], id)),
    ensures
        front.len() <= a < front.len() + mid.len(),
        (front + mid + rest)[a] == mid[a - front.len()],
{
    let all = front + mid + rest;
    if a < front.len() {
        assert(all[a] == front[a]);
        assert(!answers(front[a], id));
    } else if a >= front.len() + mid.len() {
        assert(all[a] == rest[a - front.len() - mid.len()]);
        assert(!answers(rest[a - front.len() - mid.len()], id));
    }
}

/// A session that now exists settles what waited for it in the order it arrived: the answers to the
/// messages that waited come in that order, the record saved last is of the session held in the
/// end, and the notice of the session comes behind all of them.
pub proof fn a_session_settles_its_queue_in_order<E: CryptoEngine>(
    engine: &E,
    o: OrchView,
    contact: Seq<char>,
    now: u64,
    next: OrchView,
    actions: Seq<ActionView>,
)
    requires
        settling::settled_may(engine, o, contact, now, next, actions),
        message_router::each_once(o.router),
        message_router::only_messages_wait(o.router),
    ensures
        answered_in_order(actions, message_router::waiting(o.router, contact)),
        actions.last() == (ActionView::NotifySessionCreated { contact_id: contact }),
        writes_every_session(engine) ==> saves_what_is_held(
            engine,
            o.life,
            actions,
            contact,
            next.life,
        ),
{
    let (x, drained) = choose|x: Result<Seq<u8>, Seq<char>>, drained: Seq<ActionView>| #[trigger]
        settling::settled_outcome(engine, o, contact, now, x, drained, next, actions);
    let front = messaging::save_exported(contact, x);
    let told = seq![ActionView::NotifySessionCreated { contact_id: contact }];
    ids_differ_in_every_queue(o.router, contact);
    a_drain_answers_in_arrival_order(engine, o, contact, now, next, drained);
    framed_answers_in_order(front, drained, told, message_router::waiting(o.router, contact));
    if writes_every_session(engine) {
        a_drain_saves_last_what_is_held(engine, o, contact, now, next, drained);
        if x is Ok {
            one_save_of_what_is_held(engine, o.life, front, contact, o.life, x->Ok_0);
        } else {
            nothing_saved_nothing_changed(engine, o.life, front, contact, o.life);
        }
        nothing_saved_nothing_changed(engine, next.life, told, contact, next.life);
        saves_of_both(engine, o.life, front, o.life, drained, next.life, contact);
        saves_of_both(engine, o.life, front + drained, next.life, told, next.life, contact);
    }
}

/// The event of a completed opening answers what waited for the session in the order it arrived,
/// and the record of the session it saves last is of the session held in the end.
pub proof fn a_completed_opening_answers_in_order<E: CryptoEngine>(
    engine: &E,
    o: OrchView,
    contact: Seq<char>,
    data: Seq<u8>,
    now: u64,
    next: OrchView,
    actions: Seq<ActionView>,
)
    requires
        events::event_may(
            engine,
            o,
            EventView::SessionInitCompleted { contact_id: contact, session_data: data },
            now,
            next,
            actions,
        ),
        message_router::each_once(o.router),
        message_router::only_messages_wait(o.router),
    ensures
        answered_in_order(actions, message_router::waiting(o.router, contact)),
        writes_every_session(engine) ==> forall|k: int| #[trigger]
            last_save(actions, contact, k) ==> next.life.client.sessions.contains_key(contact)
                && engine::said_encode_session(
                engine,
                next.life.client.sessions[contact],
                Ok(actions[k]->SaveToSecureStore_data),
            ),
{
    let (mid, answer, back) = choose|
        mid: OrchView,
        answer: Seq<ActionView>,
        back: Seq<ActionView>,
    | #[trigger]
        events::event_outcome(
            engine,
            o,
            EventView::SessionInitCompleted { contact_id: contact, session_data: data },
            now,
            mid,
            answer,
            back,
            next,
            actions,
        );
    what_is_handed_back_answers_nothing(mid, now, next, back);
    let (l2, imported) = choose|l2: LifeView, imported: Result<(), Seq<char>>| #[trigger]
        settling::completed_outcome(
            engine,
            o,
            contact,
            data,
            now,
            l2,
            imported,
            mid,
            answer,
        );
    let held = OrchView { life: l2, ..settling::opening_over(o, contact, now) };
    let ms = message_router::waiting(o.router, contact);
    assert(held.router == o.router);
    assert(actions =~= Seq::<ActionView>::empty() + answer + back);
    if imported is Ok {
        a_session_settles_its_queue_in_order(engine, held, contact, now, mid, answer);
        framed_answers_in_order(Seq::empty(), answer, back, ms);
        if writes_every_session(engine) {
            nothing_saved_nothing_changed(engine, mid.life, back, contact, next.life);
            saves_of_both(engine, held.life, answer, mid.life, back, next.life, contact);
            assert(actions =~= answer + back);
        }
    } else {
        assert(answered_in_order(answer, ms));
        framed_answers_in_order(Seq::empty(), answer, back, ms);
        assert forall|k: int| #[trigger] last_save(actions, contact, k) implies false by {
            assert(saves_session(actions[k], contact));
            if k > 0 {
                assert(actions[k] == back[k - 1]);
            }
        }
    }
}

proof fn what_is_handed_back_answers_nothing(
    o: OrchView,
    now: u64,
    next: OrchView,
    back: Seq<ActionView>,
)
    requires
        holds::release_may(o, now, next, back),
    ensures
        forall|a: int, id: Seq<char>| 0 <= a < back.len() ==> !(#[trigger] answers(back[a], id)),
        forall|a: int, c: Seq<char>|
            0 <= a < back.len() ==> !(#[trigger] saves_session(back[a], c)),
        forall|a: int| 0 <= a < back.len() ==> origins::handed(#[trigger] back[a]) is Some,
        next.life == o.life,
{
    let order = choose|order: Seq<Seq<char>>| #[trigger]
        holds::names_released(order, o, now) && back == holds::all_handed_back(o, order);
    origins::all_handed_back_is_handed_back(o, order);
    assert forall|a: int, id: Seq<char>| 0 <= a < back.len() implies !(#[trigger] answers(
        back[a],
        id,
    )) by {
        assert(origins::handed(back[a]) is Some);
    }
    assert forall|a: int, c: Seq<char>| 0 <= a < back.len() implies !(#[trigger] saves_session(
        back[a],
        c,
    )) by {
        assert(origins::handed(back[a]) is Some);
    }
}

// ── All queues ──────────────────────────────────────────────────────────────

proof fn a_new_message_keeps_other_queues<E: CryptoEngine>(
    engine: &E,
    r: RouterView,
    l: LifeView,
    m: MessageView,
    now: u64,
    r2: RouterView,
    l2: LifeView,
    d: DecisionView,
    other: Seq<char>,
)
    requires
        message_router::route_may(engine, r, l, m, now, r2, l2, d),
        m.contact_id != other,
    ensures
        message_router::waiting(r2, other) == message_router::waiting(r, other),
{
}

proof fn an_answer_keeps_other_queues(
    o: OrchView,
    d: DecisionView,
    now: u64,
    contact: Seq<char>,
    id: Seq<char>,
    other: Seq<char>,
)
    requires
        delivering::decision_concerns(d, contact, id),
        contact != other,
    ensures
        message_router::waiting(decisions::conclude(o, d, now).0.router, other)
            == message_router::waiting(o.router, other),
{
}

proof fn a_drain_keeps_other_queues<E: CryptoEngine>(
    engine: &E,
    r: RouterView,
    l: LifeView,
    o: OrchView,
    ms: Seq<MessageView>,
    now: u64,
    w: Drain,
    contact: Seq<char>,
    other: Seq<char>,
    n: int,
)
    requires
        is_drain(engine, r, l, o, ms, now, w),
        message_router::only_messages_of(ms, contact),
        contact != other,
        0 <= n <= ms.len(),
    ensures
        message_router::waiting(w.routers[n], other) == message_router::waiting(r, other),
        message_router::waiting(w.states[n].router, other) == message_router::waiting(
            w.states[0].router,
            other,
        ),
    decreases n,
{
    if n > 0 {
        a_drain_keeps_other_queues(engine, r, l, o, ms, now, w, contact, other, n - 1);
        let k = n - 1;
        assert(message_router::route_may(
            engine,
            w.routers[k],
            w.lives[k],
            ms[k],
            now,
            w.routers[k + 1],
            w.lives[k + 1],
            w.decisions[k],
        ));
        assert((w.states[k + 1], w.parts[k]) == decisions::conclude(
            w.states[k],
            w.decisions[k],
            now,
        ));
        a_new_message_keeps_other_queues(
            engine,
            w.routers[k],
            w.lives[k],
            ms[k],
            now,
            w.routers[k + 1],
            w.lives[k + 1],
            w.decisions[k],
            other,
        );
        delivering::a_decision_concerns_its_message(
            engine,
            w.routers[k],
            w.lives[k],
            ms[k],
            now,
            w.routers[k + 1],
            w.lives[k + 1],
            w.decisions[k],
        );
        an_answer_keeps_other_queues(
            w.states[k],
            w.decisions[k],
            now,
            contact,
            ms[k].message_id,
            other,
        );
    }
}

/// Draining one queue leaves the queues of all other devices as they are.
pub proof fn a_drain_touches_one_queue<E: CryptoEngine>(
    engine: &E,
    o: OrchView,
    contact: Seq<char>,
    now: u64,
    next: OrchView,
    actions: Seq<ActionView>,
    other: Seq<char>,
)
    requires
        settling::drained_may(engine, o, contact, now, next, actions),
        message_router::only_messages_of(message_router::waiting(o.router, contact), contact),
        contact != other,
    ensures
        message_router::waiting(next.router, other) == message_router::waiting(o.router, other),
{
    let ms = message_router::waiting(o.router, contact);
    let w = a_drain_goes_message_by_message(engine, o, contact, now, next, actions);
    let taken = message_router::with_queue(o.router, contact, Seq::empty());
    a_drain_keeps_other_queues(
        engine,
        taken,
        o.life,
        o,
        ms,
        now,
        w,
        contact,
        other,
        ms.len() as int,
    );
}

/// Whether the queues named by `order` are drained one after the other, each as it was at first and
/// each in the order of its arrivals.
pub open spec fn drains_in_order<E: CryptoEngine>(
    engine: &E,
    o: OrchView,
    order: Seq<Seq<char>>,
    now: u64,
    next: OrchView,
    states: Seq<OrchView>,
    parts: Seq<Seq<ActionView>>,
) -> bool {
    &&& states.len() == order.len() + 1
    &&& parts.len() == order.len()
    &&& states[0] == o
    &&& states[order.len() as int] == next
    &&& forall|i: int|
        #![trigger parts[i]]
        0 <= i < order.len() ==> {
            &&& settling::drained_may(engine, states[i], order[i], now, states[i + 1], parts[i])
            &&& message_router::waiting(states[i].router, order[i]) == message_router::waiting(
                o.router,
                order[i],
            )
            &&& answered_in_order(parts[i], message_router::waiting(o.router, order[i]))
        }
}

proof fn queues_are_drained_in_order<E: CryptoEngine>(
    engine: &E,
    o: OrchView,
    order: Seq<Seq<char>>,
    now: u64,
    next: OrchView,
    actions: Seq<ActionView>,
) -> (w: (Seq<OrchView>, Seq<Seq<ActionView>>))
    requires
        settling::drained_all_may(engine, o, order, now, next, actions),
        order.no_duplicates(),
        message_router::each_once(o.router),
        message_router::only_messages_wait(o.router),
    ensures
        drains_in_order(engine, o, order, now, next, w.0, w.1),
        actions == w.1.flatten(),
        forall|c: Seq<char>|
            !order.contains(c) ==> #[trigger] message_router::waiting(next.router, c)
                == message_router::waiting(o.router, c),
    decreases order.len(),
{
    if order.len() == 0 {
        let none: Seq<Seq<ActionView>> = Seq::empty();
        none.lemma_flatten_and_flatten_alt_are_equivalent();
        assert(none.flatten() =~= Seq::<ActionView>::empty());
        assert(actions =~= none.flatten());
        (seq![o], none)
    } else {
        let front = order.drop_last();
        let d = order.last();
        let (mid, before, last) = choose|
            mid: OrchView,
            before: Seq<ActionView>,
            last: Seq<ActionView>,
        |
            settling::drained_all_may(engine, o, front, now, mid, before)
                && #[trigger] settling::drained_may(engine, mid, d, now, next, last) && actions
                == #[trigger] (before + last);
        let (states, parts) = queues_are_drained_in_order(engine, o, front, now, mid, before);
        assert(order =~= front.push(d));
        assert(!front.contains(d)) by {
            if front.contains(d) {
                let i = choose|i: int| 0 <= i < front.len() && front[i] == d;
                assert(order[i] == order[order.len() - 1]);
            }
        }
        assert(message_router::waiting(mid.router, d) == message_router::waiting(o.router, d));
        ids_differ_in_every_queue(o.router, d);
        assert(message_router::only_messages_of(message_router::waiting(o.router, d), d));
        a_drain_answers_in_arrival_order(engine, mid, d, now, next, last);
        let all = parts.push(last);
        all.lemma_flatten_and_flatten_alt_are_equivalent();
        parts.lemma_flatten_and_flatten_alt_are_equivalent();
        assert(all.drop_last() =~= parts);
        let every = states.push(next);
        assert forall|i: int|
            #![trigger all[i]]
            0 <= i < order.len() implies {
            &&& settling::drained_may(engine, every[i], order[i], now, every[i + 1], all[i])
            &&& message_router::waiting(every[i].router, order[i]) == message_router::waiting(
                o.router,
                order[i],
            )
            &&& answered_in_order(all[i], message_router::waiting(o.router, order[i]))
        } by {
            if i < front.len() {
                assert(all[i] == parts[i]);
                assert(every[i] == states[i] && every[i + 1] == states[i + 1]);
                assert(order[i] == front[i]);
            }
        }
        assert forall|c: Seq<char>| !order.contains(c) implies #[trigger] message_router::waiting(
            next.router,
            c,
        ) == message_router::waiting(o.router, c) by {
            vecs::push_contains(front, d, c);
            a_drain_touches_one_queue(engine, mid, d, now, next, last, c);
            assert(message_router::waiting(mid.router, c) == message_router::waiting(o.router, c));
        }
        (every, all)
    }
}

/// When the network is back a sweep is scheduled, and then every queue is drained, each once, each
/// as it was and each in the order of its arrivals, one device after the other.
pub proof fn a_reconnection_drains_every_queue<E: CryptoEngine>(
    engine: &E,
    o: OrchView,
    now: u64,
    next: OrchView,
    actions: Seq<ActionView>,
) -> (w: (Seq<Seq<char>>, OrchView, Seq<OrchView>, Seq<Seq<ActionView>>))
    requires
        events::event_may(engine, o, EventView::NetworkReconnected, now, next, actions),
        message_router::each_once(o.router),
        message_router::only_messages_wait(o.router),
    ensures
        w.0.no_duplicates(),
        forall|d: Seq<char>| #[trigger] w.0.contains(d) <==> o.router.queues.contains_key(d),
        answering::answered_with(
            actions,
            seq![ActionView::ScheduleTimer { timer_id: "gc_sweep"@, delay_ms: 1_000 }]
                + w.3.flatten(),
        ),
        drains_in_order(engine, o, w.0, now, w.1, w.2, w.3),
        answering::same_but_held(next, w.1),
{
    let event = EventView::NetworkReconnected;
    let (mid, answer) = answering::an_event_is_answered_first(engine, o, event, now, next, actions);
    let (order, drained) = choose|order: Seq<Seq<char>>, drained: Seq<ActionView>|
        #![trigger settling::drained_all_may(engine, o, order, now, mid, drained)]
        str_map::names_keys(order, o.router.queues) && settling::drained_all_may(
            engine,
            o,
            order,
            now,
            mid,
            drained,
        ) && answer == seq![decisions::schedule("gc_sweep"@, 1_000)] + drained;
    let (states, parts) = queues_are_drained_in_order(engine, o, order, now, mid, drained);
    (order, mid, states, parts)
}

} // verus!
