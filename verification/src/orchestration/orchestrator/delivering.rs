//! What becomes of a message that arrives, read off the event that brings it.

use vstd::prelude::*;

use crate::crypto::engine::{self, CryptoEngine, DecryptedView};
use crate::crypto::messaging::double_ratchet::SessionView;
use crate::orchestration::ack_store;
use crate::orchestration::actions::{ActionView, EventView, SlotView};
use crate::orchestration::message_router::{self, DecisionView, MessageView, RefusedView, RouterView};
use crate::orchestration::orchestrator::answering;
use crate::orchestration::orchestrator::decisions;
use crate::orchestration::orchestrator::draining;
use crate::orchestration::orchestrator::events;
use crate::orchestration::orchestrator::holds::{self, HoldView};
use crate::orchestration::orchestrator::OrchView;
use crate::orchestration::pq_contribution::DeferredView;
use crate::orchestration::session_lifecycle::{self, DecryptResultView, LifeView};
use crate::orchestration::session_machine::{self, Effect, Event, Phase, TearDownCause};
use crate::orchestration::session_windows;
use crate::orchestration::state::StateView;
use crate::str_map;
use crate::wire_payload;

verus! {

// ── Whom and what an answer concerns ────────────────────────────────────────

/// Whether an action is about no other device than `contact` and no other message than `id`.
pub open spec fn concerns(a: ActionView, contact: Seq<char>, id: Seq<char>) -> bool {
    match a {
        ActionView::MessageDecrypted { contact_id, message_id, plaintext } => contact_id == contact
            && message_id == id,
        ActionView::CallSignalDecrypted { contact_id, message_id, proto_bytes } => contact_id
            == contact && message_id == id,
        ActionView::SessionHealNeeded { contact_id, role } => contact_id == contact,
        ActionView::HealSuppressed { contact_id, retry_after_ms } => contact_id == contact,
        ActionView::EndSessionSuppressed { contact_id, retry_after_ms } => contact_id == contact,
        ActionView::MessageQueuedPendingInit { contact_id, queued_count } => contact_id == contact,
        ActionView::HeldPendingAck { contact_id } => contact_id == contact,
        ActionView::DuplicateDropped { message_id } => message_id == id,
        ActionView::SaveToSecureStore { slot, data } => match slot {
            SlotView::Session { contact_id } => contact_id == contact,
            SlotView::PqDeferred { contact_id } => contact_id == contact,
            SlotView::KyberSessionState => true,
            SlotView::OrchestratorState => true,
            _ => false,
        },
        ActionView::PersistAck { message_id, timestamp } => message_id == id,
        ActionView::FetchPublicKeyBundle { user_id } => user_id == contact,
        ActionView::SendEndSession { contact_id } => contact_id == contact,
        ActionView::NotifyNewMessage { chat_id, preview } => chat_id == contact,
        ActionView::NotifyError { code, message } => true,
        ActionView::CheckAckInDb { message_id } => message_id == id,
        ActionView::ScheduleTimer { timer_id, delay_ms } => timer_id == "cooldown_expired:"@
            + contact || timer_id == "reopen:"@ + contact,
        ActionView::NotifyLinkedDevicesOfSessionReset { contact_id } => contact_id == contact,
        ActionView::SessionTerminated { contact_id, archive_bytes } => contact_id == contact,
        _ => false,
    }
}

/// Every one of these is about no other device and no other message.
pub open spec fn all_concern(actions: Seq<ActionView>, contact: Seq<char>, id: Seq<char>) -> bool {
    forall|k: int| 0 <= k < actions.len() ==> concerns(#[trigger] actions[k], contact, id)
}

/// What a decision says and brings along is about no other device and no other message.
pub open spec fn decision_concerns(d: DecisionView, contact: Seq<char>, id: Seq<char>) -> bool {
    match d {
        DecisionView::Decrypted { contact_id, message_id, plaintext, content_type, actions } => {
            contact_id == contact && message_id == id && all_concern(actions, contact, id)
        },
        DecisionView::NeedSessionInit { contact_id, queued_count } => contact_id == contact,
        DecisionView::SessionHealNeeded { contact_id, role, is_handshake, reason, refused } => {
            contact_id == contact && refused.message_id == id && refused.message.contact_id
                == contact && refused.message.message_id == id
        },
        DecisionView::EndSessionNeeded { contact_id, reason, refused } => contact_id == contact
            && refused.message_id == id && refused.message.contact_id == contact
            && refused.message.message_id == id,
        DecisionView::Duplicate { message_id } => message_id == id,
        DecisionView::PendingAckCheck { message_id } => message_id == id,
        DecisionView::QueueFull { contact_id } => contact_id == contact,
        DecisionView::EndSessionReceived { contact_id, actions } => contact_id == contact
            && all_concern(actions, contact, id),
        DecisionView::Error { message } => true,
    }
}

proof fn a_contribution_concerns_its_device<E: CryptoEngine>(
    engine: &E,
    l: LifeView,
    contact: Seq<char>,
    next: LifeView,
    actions: Seq<ActionView>,
    id: Seq<char>,
)
    requires
        session_lifecycle::contribution_may(engine, l, contact, next, actions),
    ensures
        all_concern(actions, contact, id),
        next.ack == l.ack,
        next.healing == l.healing,
        next.client.sessions.contains_key(contact) == l.client.sessions.contains_key(contact),
{
    if l.deferred.contains_key(contact) {
        let (m, x, entries, y) = choose|
            m: Result<Seq<u8>, Seq<char>>,
            x: Result<Seq<u8>, Seq<char>>,
            entries: Seq<(Seq<char>, DeferredView)>,
            y: Result<Seq<u8>, Seq<char>>,
        | #[trigger]
            session_lifecycle::contribution_outcome(
                engine,
                l,
                contact,
                l.deferred[contact].shared_secret,
                m,
                x,
                entries,
                y,
                next,
                actions,
            );
    }
}

proof fn a_new_message_concerns_its_sender<E: CryptoEngine>(
    engine: &E,
    r: RouterView,
    l: LifeView,
    m: MessageView,
    now: u64,
    r2: RouterView,
    l2: LifeView,
    d: DecisionView,
)
    requires
        message_router::new_message_may(engine, r, l, m, now, r2, l2, d),
    ensures
        decision_concerns(d, m.contact_id, m.message_id),
{
    if l.client.sessions.contains_key(m.contact_id) {
        let (tried, x) = choose|tried: LifeView, x: Result<DecryptResultView, Seq<char>>| #[trigger]
            message_router::tried_may(engine, l, m, tried, x, now, l2, d);
        if x is Ok {
            let pq = choose|pq: Seq<ActionView>|
                session_lifecycle::contribution_may(
                    engine,
                    message_router::life_marked(tried, m, now),
                    m.contact_id,
                    l2,
                    pq,
                ) && d == #[trigger] message_router::accepted(m, x->Ok_0, now, tried, pq);
            a_contribution_concerns_its_device(
                engine,
                message_router::life_marked(tried, m, now),
                m.contact_id,
                l2,
                pq,
                m.message_id,
            );
            let all = d->Decrypted_actions;
            let own = x->Ok_0.actions + ack_store::ack_mark(tried.ack, m.message_id, now).1;
            assert(all_concern(own, m.contact_id, m.message_id));
            assert(all =~= own + pq);
        }
    }
}

/// Routing decides about the message it was given and no other.
pub proof fn a_decision_concerns_its_message<E: CryptoEngine>(
    engine: &E,
    r: RouterView,
    l: LifeView,
    m: MessageView,
    now: u64,
    r2: RouterView,
    l2: LifeView,
    d: DecisionView,
)
    requires
        message_router::route_may(engine, r, l, m, now, r2, l2, d),
    ensures
        decision_concerns(d, m.contact_id, m.message_id),
{
    if !m.is_control && ack_store::ack_check(l.ack, m.message_id) is NotProcessed {
        a_new_message_concerns_its_sender(engine, r, l, m, now, r2, l2, d);
    }
}

proof fn an_answer_concerns_its_message(
    o: OrchView,
    d: DecisionView,
    now: u64,
    contact: Seq<char>,
    id: Seq<char>,
)
    requires
        decision_concerns(d, contact, id),
    ensures
        all_concern(decisions::conclude(o, d, now).1, contact, id),
{
}

/// The number a message is routed by: what its payload carries; what the event says where the
/// payload cannot be read, unless the event says nothing either.
pub open spec fn number_of(data: Seq<u8>, msg_num: u32, kem_ct: Seq<u8>) -> Option<u32> {
    match wire_payload::decode(data) {
        Ok(f) => Some(f.message_number),
        Err(_) => if msg_num != 0 || kem_ct.len() > 0 {
            Some(msg_num)
        } else {
            None
        },
    }
}

/// Behind the first `n` actions the state is saved at most, and held messages are handed back.
pub open spec fn only_saves_after(actions: Seq<ActionView>, n: nat) -> bool {
    &&& n <= actions.len()
    &&& forall|i: int|
        n <= i < actions.len() ==> #[trigger] actions[i] is ReplayHeld
            || actions[i] is HeldSuperseded || (actions[i] is SaveToSecureStore
            && actions[i]->SaveToSecureStore_slot is OrchestratorState)
}

/// The actions are the given answer; behind it the state is saved at most, and held messages are
/// handed back.
pub open spec fn answered_and_saved(actions: Seq<ActionView>, answer: Seq<ActionView>) -> bool {
    &&& only_saves_after(actions, answer.len())
    &&& actions.take(answer.len() as int) == answer
}

/// A message that arrives is routed as it arrived: from its sender, under its id, with its content
/// type, its payload and its number. The decision is answered and the state saved behind it; then
/// held messages are handed back.
pub proof fn an_arriving_message_is_routed<E: CryptoEngine>(
    engine: &E,
    o: OrchView,
    message_id: Seq<char>,
    from: Seq<char>,
    data: Seq<u8>,
    msg_num: u32,
    kem_ct: Seq<u8>,
    otpk_id: u32,
    is_control: bool,
    content_type: u8,
    number: u32,
    now: u64,
    next: OrchView,
    actions: Seq<ActionView>,
) -> (w: (RouterView, LifeView, DecisionView))
    requires
        events::event_may(
            engine,
            o,
            EventView::MessageReceived {
                message_id,
                from,
                data,
                msg_num,
                kem_ct,
                otpk_id,
                is_control,
                content_type,
            },
            now,
            next,
            actions,
        ),
        is_control && number == msg_num || !is_control && number_of(data, msg_num, kem_ct) == Some(
            number,
        ),
    ensures
        message_router::route_may(
            engine,
            o.router,
            o.life,
            MessageView {
                contact_id: from,
                wire_payload: data,
                message_id,
                msg_number: number,
                is_control,
                content_type,
            },
            now,
            w.0,
            w.1,
            w.2,
        ),
        ({
            let (concluded, answer) = decisions::conclude(
                OrchView { router: w.0, life: w.1, ..o },
                w.2,
                now,
            );
            &&& answering::same_but_held(next, concluded)
            &&& answered_and_saved(actions, answer)
            &&& decision_concerns(w.2, from, message_id)
            &&& all_concern(answer, from, message_id)
        }),
{
    let event = EventView::MessageReceived {
        message_id,
        from,
        data,
        msg_num,
        kem_ct,
        otpk_id,
        is_control,
        content_type,
    };
    let (mid, sent) = answering::an_event_is_answered_first(engine, o, event, now, next, actions);
    let m = MessageView {
        contact_id: from,
        wire_payload: data,
        message_id,
        msg_number: number,
        is_control,
        content_type,
    };
    let (r2, l2, d, saved) = choose|
        r2: RouterView,
        l2: LifeView,
        d: DecisionView,
        saved: Result<Seq<u8>, Seq<char>>,
    | #[trigger]
        events::routed_outcome(engine, o, m, now, r2, l2, d, saved, mid, sent);
    a_decision_concerns_its_message(engine, o.router, o.life, m, now, r2, l2, d);
    let core = OrchView { router: r2, life: l2, ..o };
    an_answer_concerns_its_message(core, d, now, from, message_id);
    let answer = decisions::conclude(core, d, now).1;
    assert forall|i: int| 0 <= i < answer.len() implies actions[i] == #[trigger] answer[i] by {
        assert(actions.take(sent.len() as int)[i] == sent[i]);
    }
    assert(actions.take(answer.len() as int) =~= answer);
    assert forall|i: int| answer.len() <= i < actions.len() implies #[trigger] actions[i]
        is ReplayHeld || actions[i] is HeldSuperseded || (actions[i] is SaveToSecureStore
        && actions[i]->SaveToSecureStore_slot is OrchestratorState) by {
        if i < sent.len() {
            assert(actions.take(sent.len() as int)[i] == sent[i]);
        }
    }
    (r2, l2, d)
}

/// A message that arrives is answered to its sender and under its id alone.
pub proof fn an_arriving_message_concerns_its_sender<E: CryptoEngine>(
    engine: &E,
    o: OrchView,
    message_id: Seq<char>,
    from: Seq<char>,
    data: Seq<u8>,
    msg_num: u32,
    kem_ct: Seq<u8>,
    otpk_id: u32,
    is_control: bool,
    content_type: u8,
    now: u64,
    next: OrchView,
    actions: Seq<ActionView>,
)
    requires
        events::event_may(
            engine,
            o,
            EventView::MessageReceived {
                message_id,
                from,
                data,
                msg_num,
                kem_ct,
                otpk_id,
                is_control,
                content_type,
            },
            now,
            next,
            actions,
        ),
    ensures
        forall|k: int|
            0 <= k < actions.len() ==> concerns(#[trigger] actions[k], from, message_id)
                || actions[k] is ReplayHeld || actions[k] is HeldSuperseded,
{
    let event = EventView::MessageReceived {
        message_id,
        from,
        data,
        msg_num,
        kem_ct,
        otpk_id,
        is_control,
        content_type,
    };
    let (mid, sent) = answering::an_event_is_answered_first(engine, o, event, now, next, actions);
    if is_control || number_of(data, msg_num, kem_ct) is Some {
        let number = if is_control {
            msg_num
        } else {
            number_of(data, msg_num, kem_ct)->Some_0
        };
        let (r2, l2, d) = an_arriving_message_is_routed(
            engine,
            o,
            message_id,
            from,
            data,
            msg_num,
            kem_ct,
            otpk_id,
            is_control,
            content_type,
            number,
            now,
            next,
            actions,
        );
        let answer = decisions::conclude(OrchView { router: r2, life: l2, ..o }, d, now).1;
        assert forall|k: int| 0 <= k < actions.len() implies concerns(
            #[trigger] actions[k],
            from,
            message_id,
        ) || actions[k] is ReplayHeld || actions[k] is HeldSuperseded by {
            if k < answer.len() {
                assert(actions.take(answer.len() as int)[k] == answer[k]);
            }
        }
    } else {
        assert forall|k: int| 0 <= k < actions.len() implies concerns(
            #[trigger] actions[k],
            from,
            message_id,
        ) || actions[k] is ReplayHeld || actions[k] is HeldSuperseded by {
            if k < sent.len() {
                assert(actions.take(sent.len() as int)[k] == sent[k]);
            }
        }
    }
}

/// A payload that cannot be read, of a message of which nothing else is known, is told and changes
/// nothing.
pub proof fn an_unreadable_message_changes_nothing<E: CryptoEngine>(
    engine: &E,
    o: OrchView,
    message_id: Seq<char>,
    from: Seq<char>,
    data: Seq<u8>,
    otpk_id: u32,
    content_type: u8,
    now: u64,
    next: OrchView,
    actions: Seq<ActionView>,
)
    requires
        wire_payload::decode(data) is Err,
        events::event_may(
            engine,
            o,
            EventView::MessageReceived {
                message_id,
                from,
                data,
                msg_num: 0,
                kem_ct: Seq::empty(),
                otpk_id,
                is_control: false,
                content_type,
            },
            now,
            next,
            actions,
        ),
    ensures
        answering::same_but_held(next, o),
        answering::answered_with(
            actions,
            seq![
                ActionView::NotifyError {
                    code: "MALFORMED_WIRE_PAYLOAD"@,
                    message: wire_payload::decode(data)->Err_0.text() + " (message "@ + message_id
                        + " from "@ + from + ")"@,
                },
            ],
        ),
{
    let event = EventView::MessageReceived {
        message_id,
        from,
        data,
        msg_num: 0,
        kem_ct: Seq::empty(),
        otpk_id,
        is_control: false,
        content_type,
    };
    let (mid, sent) = answering::an_event_is_answered_first(engine, o, event, now, next, actions);
}

// ── Seen before, not known, no session ──────────────────────────────────────

/// A message recorded as processed is dropped as a copy and changes nothing. One that is not, after
/// a restart, waits for the durable store's word, whole. Otherwise, without a session it waits for
/// one behind what waits already, once, and no more than a hundred wait.
pub proof fn what_cannot_be_read_yet_waits<E: CryptoEngine>(
    engine: &E,
    r: RouterView,
    l: LifeView,
    m: MessageView,
    now: u64,
    r2: RouterView,
    l2: LifeView,
    d: DecisionView,
)
    requires
        message_router::route_may(engine, r, l, m, now, r2, l2, d),
        !m.is_control,
        l.ack.processed.contains_key(m.message_id) || l.ack.post_restart
            || !l.client.sessions.contains_key(m.contact_id),
    ensures
        l2 == l,
        ({
            let q = message_router::waiting(r, m.contact_id);
            let copy = exists|i: int| 0 <= i < q.len() && #[trigger] q[i].message_id == m.message_id;
            let seen = l.ack.processed.contains_key(m.message_id);
            &&& seen <==> d is Duplicate
            &&& !seen && l.ack.post_restart <==> d is PendingAckCheck
            &&& !seen && !l.ack.post_restart && !copy && q.len() >= 100 <==> d is QueueFull
            &&& !seen && !l.ack.post_restart && (copy || q.len() < 100) <==> d is NeedSessionInit
            &&& d is PendingAckCheck ==> r2 == (RouterView {
                unchecked: r.unchecked.insert(m.message_id, m),
                ..r
            })
            &&& d is Duplicate || d is QueueFull ==> r2 == r
            &&& d is NeedSessionInit && q.len() <= 100 ==> {
                &&& message_router::waiting(r2, m.contact_id) == (if copy {
                    q
                } else {
                    q.push(m)
                })
                &&& d->NeedSessionInit_queued_count == message_router::waiting(
                    r2,
                    m.contact_id,
                ).len()
                &&& r2.unchecked == r.unchecked
                &&& r2.queues.remove(m.contact_id) == r.queues.remove(m.contact_id)
            }
        }),
{
    let q = message_router::waiting(r, m.contact_id);
    if d is NeedSessionInit {
        assert(r2.queues.remove(m.contact_id) =~= r.queues.remove(m.contact_id));
        let copy = exists|i: int| 0 <= i < q.len() && #[trigger] q[i].message_id == m.message_id;
        assert(message_router::has_id(q, m.message_id) == copy);
    }
}

// ── Read, or refused ────────────────────────────────────────────────────────

/// A message that is known not to have been processed: it is no control frame, not recorded, and
/// nothing was forgotten in a restart.
pub open spec fn is_new(l: LifeView, m: MessageView) -> bool {
    !m.is_control && !l.ack.processed.contains_key(m.message_id) && !l.ack.post_restart
}

/// What the engine was asked: to open, on the session held with the sender, the message the payload
/// carries; and this is what it gave.
pub open spec fn opened_as<E: CryptoEngine>(
    engine: &E,
    l: LifeView,
    m: MessageView,
    x: DecryptedView,
) -> bool {
    &&& l.client.sessions.contains_key(m.contact_id)
    &&& session_lifecycle::wire_message_of(m.wire_payload) is Ok
    &&& engine::said_decrypt(
        engine,
        l.client.sessions[m.contact_id],
        session_lifecycle::wire_message_of(m.wire_payload)->Ok_0,
        Ok(x),
    )
}

/// A message is handed over with what the engine opened its payload to, and with the content type
/// it came with. It is recorded as processed in that second, here and in the durable store, and the
/// session is saved as the message left it.
pub proof fn a_message_that_opens_is_handed_over<E: CryptoEngine>(
    engine: &E,
    r: RouterView,
    l: LifeView,
    m: MessageView,
    now: u64,
    r2: RouterView,
    l2: LifeView,
    d: DecisionView,
) -> (x: DecryptedView)
    requires
        message_router::route_may(engine, r, l, m, now, r2, l2, d)
            || message_router::new_message_may(engine, r, l, m, now, r2, l2, d),
        d is Decrypted,
    ensures
        message_router::route_may(engine, r, l, m, now, r2, l2, d) ==> !m.is_control,
        opened_as(engine, l, m, x),
        d->Decrypted_plaintext == x.plaintext,
        d->Decrypted_content_type == m.content_type,
        d->Decrypted_contact_id == m.contact_id,
        d->Decrypted_message_id == m.message_id,
        r2 == r,
        l2.ack.processed == l.ack.processed.insert(m.message_id, now / 1000),
        l2.healing == l.healing,
        d->Decrypted_actions.len() >= 2,
        draining::saves_session(d->Decrypted_actions[0], m.contact_id),
        d->Decrypted_actions[1] == (ActionView::PersistAck {
            message_id: m.message_id,
            timestamp: now / 1000,
        }),
{
    let (tried, p) = choose|tried: LifeView, p: Result<DecryptResultView, Seq<char>>| #[trigger]
        message_router::tried_may(engine, l, m, tried, p, now, l2, d);
    let pq = choose|pq: Seq<ActionView>|
        session_lifecycle::contribution_may(
            engine,
            message_router::life_marked(tried, m, now),
            m.contact_id,
            l2,
            pq,
        ) && d == #[trigger] message_router::accepted(m, p->Ok_0, now, tried, pq);
    a_contribution_concerns_its_device(
        engine,
        message_router::life_marked(tried, m, now),
        m.contact_id,
        l2,
        pq,
        m.message_id,
    );
    let sent = session_lifecycle::wire_message_of(m.wire_payload)->Ok_0;
    let s = l.client.sessions[m.contact_id];
    let (x, y) = choose|
        x: Result<DecryptedView, Seq<char>>,
        y: Result<Seq<u8>, Seq<char>>,
    | #[trigger]
        session_lifecycle::decrypt_outcome(
            engine,
            l,
            m.contact_id,
            s,
            sent,
            x,
            y,
            tried,
            p,
        );
    x->Ok_0
}

/// A new message that the engine opens, on a session whose record it can write, is handed over.
pub proof fn what_opens_is_handed_over<E: CryptoEngine>(
    engine: &E,
    r: RouterView,
    l: LifeView,
    m: MessageView,
    now: u64,
    r2: RouterView,
    l2: LifeView,
    d: DecisionView,
)
    requires
        is_new(l, m) && message_router::route_may(engine, r, l, m, now, r2, l2, d)
            || message_router::new_message_may(engine, r, l, m, now, r2, l2, d),
        l.client.sessions.contains_key(m.contact_id),
        session_lifecycle::wire_message_of(m.wire_payload) is Ok,
        forall|x: Result<DecryptedView, Seq<char>>| #[trigger]
            engine::said_decrypt(
                engine,
                l.client.sessions[m.contact_id],
                session_lifecycle::wire_message_of(m.wire_payload)->Ok_0,
                x,
            ) ==> x is Ok,
        draining::writes_every_session(engine),
    ensures
        d is Decrypted,
{
    let (tried, p) = choose|tried: LifeView, p: Result<DecryptResultView, Seq<char>>| #[trigger]
        message_router::tried_may(engine, l, m, tried, p, now, l2, d);
    let sent = session_lifecycle::wire_message_of(m.wire_payload)->Ok_0;
    let s = l.client.sessions[m.contact_id];
    let (x, y) = choose|
        x: Result<DecryptedView, Seq<char>>,
        y: Result<Seq<u8>, Seq<char>>,
    | #[trigger]
        session_lifecycle::decrypt_outcome(engine, l, m.contact_id, s, sent, x, y, tried, p);
    assert(engine::said_decrypt(engine, s, sent, x));
    assert(x is Ok);
}

/// How many heals the device has raised.
pub open spec fn heals_raised(l: LifeView, contact: Seq<char>) -> int {
    match str_map::lookup(l.healing.records, contact) {
        Some(h) => h.incoming_triggers as int,
        None => 0,
    }
}

/// A message the session does not open leaves the session as it was. It is a copy if its key was
/// used up. Otherwise the first of a chain raises a heal, while fewer than ten were raised, and is
/// counted; any other asks for the end of the session. Both carry the message itself, and a heal is
/// a handshake exactly when the content type is fifteen.
pub proof fn a_refused_message_heals_or_ends<E: CryptoEngine>(
    engine: &E,
    r: RouterView,
    l: LifeView,
    m: MessageView,
    now: u64,
    r2: RouterView,
    l2: LifeView,
    d: DecisionView,
)
    requires
        is_new(l, m) && message_router::route_may(engine, r, l, m, now, r2, l2, d)
            || message_router::new_message_may(engine, r, l, m, now, r2, l2, d),
        l.client.sessions.contains_key(m.contact_id),
        !(d is Decrypted),
    ensures
        r2 == r,
        l2.ack == l.ack,
        d is Duplicate || d is SessionHealNeeded || d is EndSessionNeeded,
        d matches DecisionView::SessionHealNeeded {
            contact_id,
            role,
            is_handshake,
            reason,
            refused,
        } ==> {
            &&& m.msg_number == 0
            &&& heals_raised(l, m.contact_id) < 10
            &&& heals_raised(l2, m.contact_id) == heals_raised(l, m.contact_id) + 1
            &&& l2.healing.records.remove(m.contact_id) == l.healing.records.remove(m.contact_id)
            &&& is_handshake == (m.content_type == 15)
            &&& refused.message == m
            &&& refused.message_id == m.message_id
            &&& refused.opens_session == (m.content_type == 15)
        },
        d matches DecisionView::EndSessionNeeded { contact_id, reason, refused } ==> {
            &&& m.msg_number != 0 || heals_raised(l, m.contact_id) >= 10
            &&& l2.healing == l.healing
            &&& refused.message == m
            &&& refused.message_id == m.message_id
            &&& refused.opens_session == (m.content_type == 15)
        },
        d is Duplicate ==> l2.healing == l.healing,
{
    let (tried, p) = choose|tried: LifeView, p: Result<DecryptResultView, Seq<char>>| #[trigger]
        message_router::tried_may(engine, l, m, tried, p, now, l2, d);
    assert((l2, d) == message_router::refusal(tried, m, p->Err_0, now));
    assert(tried.healing == l.healing && tried.ack == l.ack);
    assert(l2.healing.records.remove(m.contact_id) =~= l.healing.records.remove(m.contact_id));
}

/// A control frame ends the session it came on: the session is archived as the engine writes it, in
/// that second, and told; where it cannot be written, or there is none, nothing happens.
pub proof fn a_control_frame_archives_the_session<E: CryptoEngine>(
    engine: &E,
    r: RouterView,
    l: LifeView,
    m: MessageView,
    now: u64,
    r2: RouterView,
    l2: LifeView,
    d: DecisionView,
)
    requires
        message_router::route_may(engine, r, l, m, now, r2, l2, d),
        m.is_control,
    ensures
        r2 == r,
        d is EndSessionReceived,
        ({
            let actions = d->EndSessionReceived_actions;
            ||| actions.len() == 0 && l2 == l && !(l.client.sessions.contains_key(m.contact_id)
                && draining::writes_every_session(engine))
            ||| {
                &&& l.client.sessions.contains_key(m.contact_id)
                &&& actions.len() == 1
                &&& actions[0] is SessionTerminated
                &&& actions[0]->SessionTerminated_contact_id == m.contact_id
                &&& engine::said_encode_session(
                    engine,
                    l.client.sessions[m.contact_id],
                    Ok(actions[0]->archive_bytes),
                )
                &&& !l2.client.sessions.contains_key(m.contact_id)
                &&& l2.client.sessions == l.client.sessions.remove(m.contact_id)
                &&& l2.archives == l.archives.insert(m.contact_id, actions[0]->archive_bytes)
                &&& l2.archive_times == l.archive_times.insert(m.contact_id, now / 1000)
            }
        }),
{
    let x = choose|x: Result<Seq<u8>, Seq<char>>| #[trigger]
        session_lifecycle::exported(engine, l, m.contact_id, x) && l2
            == session_lifecycle::archived(l, m.contact_id, x, now).0 && d == (
        DecisionView::EndSessionReceived {
            contact_id: m.contact_id,
            actions: session_lifecycle::archived(l, m.contact_id, x, now).1,
        });
}

// ── How a decision is answered ──────────────────────────────────────────────

/// A message that was read is handed over last: as a call signal if its type is twelve, else as a
/// message. A preview of at most fifty characters is shown before it, but for call signals (12),
/// heartbeats (13) and receipts (14).
pub proof fn a_read_message_is_answered(
    o: OrchView,
    contact: Seq<char>,
    id: Seq<char>,
    plaintext: Seq<u8>,
    content_type: u8,
    before: Seq<ActionView>,
    now: u64,
)
    ensures
        ({
            let d = DecisionView::Decrypted {
                contact_id: contact,
                message_id: id,
                plaintext,
                content_type,
                actions: before,
            };
            let (next, actions) = decisions::conclude(o, d, now);
            let text = decisions::lossy_text(plaintext);
            let shown = ActionView::NotifyNewMessage {
                chat_id: contact,
                preview: if text.len() <= 50 {
                    text
                } else {
                    text.take(50)
                },
            };
            let handed = ActionView::MessageDecrypted {
                contact_id: contact,
                message_id: id,
                plaintext,
            };
            &&& next == o
            &&& content_type == 12 ==> actions == before.push(
                ActionView::CallSignalDecrypted {
                    contact_id: contact,
                    message_id: id,
                    proto_bytes: plaintext,
                },
            )
            &&& content_type == 13 || content_type == 14 ==> actions == before.push(handed)
            &&& content_type != 12 && content_type != 13 && content_type != 14 ==> actions
                == before.push(shown).push(handed)
        }),
{
}

/// A message that waits asks for the keys of its sender, unless an opening runs or the peer's own
/// rebuild is due; then it is told to wait, with how many wait, and in the latter case when to try.
pub proof fn a_waiting_message_is_answered(
    o: OrchView,
    contact: Seq<char>,
    queued_count: usize,
    now: u64,
)
    requires
        queued_count <= 100,
    ensures
        ({
            let d = DecisionView::NeedSessionInit { contact_id: contact, queued_count };
            let (next, actions) = decisions::conclude(o, d, now);
            let p = str_map::lookup(o.machine.phases, contact);
            let waits = ActionView::MessageQueuedPendingInit {
                contact_id: contact,
                queued_count: queued_count as u32,
            };
            &&& answering::machine_moved(o, next, contact, now, Event::WantToOpen)
            &&& next.holds == o.holds
            &&& session_windows::opening_lives(p, now) ==> actions == seq![waits]
            &&& !session_windows::opening_lives(p, now) ==> match p {
                Some(
                    Phase::TearingDown { since_ms, owed, unacked, peer_asked, on_evidence },
                ) => if peer_asked && session_windows::ago(now, since_ms) < 1_500 {
                    actions == seq![
                        waits,
                        ActionView::ScheduleTimer {
                            timer_id: "reopen:"@ + contact,
                            delay_ms: (1_600 - session_windows::ago(now, since_ms)) as u64,
                        },
                    ]
                } else {
                    actions == seq![ActionView::FetchPublicKeyBundle { user_id: contact }]
                },
                _ => actions == seq![ActionView::FetchPublicKeyBundle { user_id: contact }],
            }
        }),
{
    session_windows::a_needed_session_is_opened(str_map::lookup(o.machine.phases, contact), now);
}

/// A message a heal was raised for is held back while an announcement waits for its answer, unless
/// it is a handshake itself. Otherwise the heal is granted, and the message waits for the new
/// session; or, within five seconds of the last, it is suppressed until they are over. The cause is
/// told last.
pub proof fn a_raised_heal_is_answered(
    o: OrchView,
    d: DecisionView,
    now: u64,
)
    requires
        d is SessionHealNeeded,
        d->SessionHealNeeded_refused.message.contact_id == d->SessionHealNeeded_contact_id,
    ensures
        ({
            let contact = d->SessionHealNeeded_contact_id;
            let refused = d->SessionHealNeeded_refused;
            let (next, actions) = decisions::conclude(o, d, now);
            let p = str_map::lookup(o.machine.phases, contact);
            let gated = session_windows::opening_lives(p, now) && p->Some_0->Opening_unacked_sri
                > 0;
            let soon = p matches Some(
                Phase::TearingDown { since_ms, owed, unacked, peer_asked, on_evidence },
            ) && session_windows::ago(now, since_ms) < 5_000;
            let told = ActionView::NotifyError {
                code: "decrypt_failed"@,
                message: d->SessionHealNeeded_reason,
            };
            if gated && !d->SessionHealNeeded_is_handshake {
                &&& actions == seq![ActionView::HeldPendingAck { contact_id: contact }, told]
                &&& next == (OrchView { holds: next.holds, ..o })
                &&& held_behind(o, next, contact, refused.message_id, refused.opens_session)
            } else if soon {
                let left = (5_100 - session_windows::ago(
                    now,
                    p->Some_0->TearingDown_since_ms,
                )) as u64;
                &&& actions == seq![
                    ActionView::HealSuppressed { contact_id: contact, retry_after_ms: left },
                    ActionView::ScheduleTimer {
                        timer_id: "cooldown_expired:"@ + contact,
                        delay_ms: left,
                    },
                    told,
                ]
                &&& next.router == o.router
                &&& next.holds == o.holds
                &&& answering::machine_moved(o, next, contact, now, Event::WantToHeal)
            } else {
                let q = message_router::waiting(o.router, contact);
                let copy = exists|i: int|
                    0 <= i < q.len() && #[trigger] q[i].message_id == refused.message.message_id;
                &&& actions == seq![
                    ActionView::SessionHealNeeded {
                        contact_id: contact,
                        role: if d->SessionHealNeeded_role is Initiator {
                            "Initiator"@
                        } else {
                            "Responder"@
                        },
                    },
                    told,
                ]
                &&& message_router::waiting(next.router, contact) == (if copy {
                    q
                } else {
                    q.push(refused.message)
                })
                &&& next.router.queues.remove(contact) == o.router.queues.remove(contact)
                &&& next.holds == o.holds
                &&& answering::machine_moved(
                    OrchView { router: next.router, ..o },
                    next,
                    contact,
                    now,
                    Event::WantToHeal,
                )
            }
        }),
{
    let contact = d->SessionHealNeeded_contact_id;
    let refused = d->SessionHealNeeded_refused;
    let p = str_map::lookup(o.machine.phases, contact);
    let (next, actions) = decisions::conclude(o, d, now);
    session_windows::a_heal_waits_five_seconds(p, now);
    session_windows::what_is_reported(p, now);
    let q = message_router::waiting(o.router, contact);
    assert(message_router::has_id(q, refused.message.message_id) <==> exists|i: int|
        0 <= i < q.len() && #[trigger] q[i].message_id == refused.message.message_id);
    assert(next.router.queues.remove(contact) =~= o.router.queues.remove(contact));
    held_back_behind(o, contact, refused.message_id, refused.opens_session, refused.message);
}

/// The message is held behind what is held of the device already, once, with the session it was
/// refused by; nothing else is held that was not.
pub open spec fn held_behind(
    o: OrchView,
    next: OrchView,
    contact: Seq<char>,
    id: Seq<char>,
    opens_session: bool,
) -> bool {
    let hs = holds::held(o, contact);
    let copy = exists|i: int| 0 <= i < hs.len() && #[trigger] hs[i].message_id == id;
    &&& holds::held(next, contact) == (if copy {
        hs
    } else {
        hs.push(
            HoldView {
                message_id: id,
                epoch: match str_map::lookup(o.life.client.sessions, contact) {
                    Some(s) => Some(s.session_id),
                    None => None,
                },
                opens_session,
            },
        )
    })
    &&& next.holds.remove(contact) == o.holds.remove(contact)
}

proof fn held_back_behind(
    o: OrchView,
    contact: Seq<char>,
    id: Seq<char>,
    opens_session: bool,
    message: MessageView,
)
    ensures
        held_behind(
            o,
            holds::hold_step(
                o,
                contact,
                RefusedView { message_id: id, opens_session, message },
            ),
            contact,
            id,
            opens_session,
        ),
{
    let hs = holds::held(o, contact);
    let refused = RefusedView { message_id: id, opens_session, message };
    let next = holds::hold_step(o, contact, refused);
    assert(holds::is_held(hs, id) <==> exists|i: int|
        0 <= i < hs.len() && #[trigger] hs[i].message_id == id);
    assert(next.holds.remove(contact) =~= o.holds.remove(contact));
}

/// A message whose session is gone is held back while an announcement waits for its answer.
/// Otherwise the end of the session is sent, to the peer and the own devices, or deferred, as
/// evidence that the last one did not arrive allows. The cause is told last.
pub proof fn an_asked_end_is_answered(o: OrchView, d: DecisionView, now: u64)
    requires
        d is EndSessionNeeded,
    ensures
        ({
            let contact = d->EndSessionNeeded_contact_id;
            let refused = d->EndSessionNeeded_refused;
            let (next, actions) = decisions::conclude(o, d, now);
            let p = str_map::lookup(o.machine.phases, contact);
            let gated = session_windows::opening_lives(p, now) && p->Some_0->Opening_unacked_sri
                > 0;
            let told = ActionView::NotifyError {
                code: "decrypt_failed"@,
                message: d->EndSessionNeeded_reason,
            };
            let event = Event::WantToTearDown { cause: TearDownCause::Unacknowledged };
            let (q, effect) = session_machine::transition(p, now, event);
            if gated {
                &&& actions == seq![ActionView::HeldPendingAck { contact_id: contact }, told]
                &&& next == (OrchView { holds: next.holds, ..o })
                &&& held_behind(o, next, contact, refused.message_id, refused.opens_session)
            } else {
                &&& next == (OrchView { machine: next.machine, ..o })
                &&& str_map::lookup(next.machine.phases, contact) == q
                &&& effect is TearDown ==> actions == seq![
                    ActionView::SendEndSession { contact_id: contact },
                    ActionView::NotifyLinkedDevicesOfSessionReset { contact_id: contact },
                    told,
                ]
                &&& effect matches Effect::DeferTearDown { retry_after_ms } ==> actions == seq![
                    ActionView::EndSessionSuppressed { contact_id: contact, retry_after_ms },
                    ActionView::ScheduleTimer {
                        timer_id: "cooldown_expired:"@ + contact,
                        delay_ms: retry_after_ms,
                    },
                    told,
                ] && str_map::lookup(next.machine.condemned, contact) == (match str_map::lookup(
                    o.life.client.sessions,
                    contact,
                ) {
                    Some(s) => Some(s.session_id),
                    None => None,
                })
                &&& effect is TearDown || effect is DeferTearDown
            }
        }),
{
    let contact = d->EndSessionNeeded_contact_id;
    let refused = d->EndSessionNeeded_refused;
    let p = str_map::lookup(o.machine.phases, contact);
    session_windows::what_is_reported(p, now);
    held_back_behind(o, contact, refused.message_id, refused.opens_session, refused.message);
}

/// A copy is told to be dropped, an unchecked message asked about, and a full queue or a fault told
/// as an error; none of them changes anything.
pub proof fn the_plain_decisions(o: OrchView, d: DecisionView, now: u64)
    requires
        d is Duplicate || d is PendingAckCheck || d is QueueFull || d is EndSessionReceived
            || d is Error,
    ensures
        decisions::conclude(o, d, now).0 == o,
        decisions::conclude(o, d, now).1 == (match d {
            DecisionView::Duplicate { message_id } => seq![
                ActionView::DuplicateDropped { message_id },
            ],
            DecisionView::PendingAckCheck { message_id } => seq![
                ActionView::CheckAckInDb { message_id },
            ],
            DecisionView::QueueFull { contact_id } => seq![
                ActionView::NotifyError {
                    code: "QUEUE_FULL"@,
                    message: "Message queue full for "@ + contact_id,
                },
            ],
            DecisionView::EndSessionReceived { contact_id, actions } => actions,
            DecisionView::Error { message } => seq![
                ActionView::NotifyError { code: "ROUTING_ERROR"@, message },
            ],
            _ => Seq::empty(),
        }),
{
}

// ── Heartbeats, and what waited for the durable store ───────────────────────

/// A heartbeat is routed as a message of type thirteen, from its sender and under its id. One that
/// is read is answered by nothing. One that raises a heal is answered as any other, but arms no
/// alarm when the heal is suppressed.
pub proof fn a_heartbeat_is_routed<E: CryptoEngine>(
    engine: &E,
    o: OrchView,
    contact: Seq<char>,
    id: Seq<char>,
    data: Seq<u8>,
    msg_num: u32,
    now: u64,
    next: OrchView,
    actions: Seq<ActionView>,
) -> (w: (RouterView, LifeView, DecisionView))
    requires
        events::event_may(
            engine,
            o,
            EventView::HeartbeatReceived { contact_id: contact, message_id: id, data, msg_num },
            now,
            next,
            actions,
        ),
    ensures
        message_router::route_may(
            engine,
            o.router,
            o.life,
            MessageView {
                contact_id: contact,
                wire_payload: data,
                message_id: id,
                msg_number: msg_num,
                is_control: false,
                content_type: 13,
            },
            now,
            w.0,
            w.1,
            w.2,
        ),
        decision_concerns(w.2, contact, id),
        ({
            let core = OrchView { router: w.0, life: w.1, ..o };
            let (concluded, answer) = decisions::conclude(core, w.2, now);
            let p = str_map::lookup(o.machine.phases, contact);
            let soon = p matches Some(
                Phase::TearingDown { since_ms, owed, unacked, peer_asked, on_evidence },
            ) && session_windows::ago(now, since_ms) < 5_000;
            &&& w.2 is Decrypted ==> answering::answered_with(actions, Seq::empty())
                && answering::same_but_held(next, core)
            &&& !(w.2 is Decrypted) ==> answering::same_but_held(next, concluded)
            &&& w.2 is SessionHealNeeded && soon ==> answering::answered_with(
                actions,
                seq![
                    ActionView::HealSuppressed {
                        contact_id: contact,
                        retry_after_ms: (5_100 - session_windows::ago(
                            now,
                            p->Some_0->TearingDown_since_ms,
                        )) as u64,
                    },
                    ActionView::NotifyError {
                        code: "decrypt_failed"@,
                        message: w.2->SessionHealNeeded_reason,
                    },
                ],
            )
            &&& !(w.2 is Decrypted) && !(w.2 is SessionHealNeeded && soon)
                ==> answering::answered_with(actions, answer)
        }),
{
    let event = EventView::HeartbeatReceived { contact_id: contact, message_id: id, data, msg_num };
    let (mid, sent) = answering::an_event_is_answered_first(engine, o, event, now, next, actions);
    let m = MessageView {
        contact_id: contact,
        wire_payload: data,
        message_id: id,
        msg_number: msg_num,
        is_control: false,
        content_type: 13,
    };
    let (r2, l2, d) = choose|r2: RouterView, l2: LifeView, d: DecisionView| #[trigger]
        events::heartbeat_outcome(engine, o, m, now, r2, l2, d, mid, sent);
    a_decision_concerns_its_message(engine, o.router, o.life, m, now, r2, l2, d);
    let p = str_map::lookup(o.machine.phases, contact);
    let core = OrchView { router: r2, life: l2, ..o };
    session_windows::a_heal_waits_five_seconds(p, now);
    session_windows::what_is_reported(p, now);
    if d is SessionHealNeeded {
        if m.content_type != 15 {
            a_heartbeat_is_no_handshake(engine, o.router, o.life, m, now, r2, l2, d);
        }
        assert(decisions::conclude(core, d, now).1.last() == sent.last());
        let answer = decisions::conclude(core, d, now).1;
        if sent.len() == answer.len() {
            assert(sent =~= answer);
        }
    }
    (r2, l2, d)
}

proof fn a_heartbeat_is_no_handshake<E: CryptoEngine>(
    engine: &E,
    r: RouterView,
    l: LifeView,
    m: MessageView,
    now: u64,
    r2: RouterView,
    l2: LifeView,
    d: DecisionView,
)
    requires
        message_router::route_may(engine, r, l, m, now, r2, l2, d),
        m.content_type != 15,
        d is SessionHealNeeded,
    ensures
        !d->SessionHealNeeded_is_handshake,
{
    if is_new(l, m) && l.client.sessions.contains_key(m.contact_id) {
        a_refused_message_heals_or_ends(engine, r, l, m, now, r2, l2, d);
    }
}

/// The durable store's word on a message that waited for it: one that was processed is dropped as a
/// copy; any other is routed as new, as it arrived; and neither waits any longer. A word on a
/// message nothing waits for is told as an error.
pub proof fn the_durable_stores_word_is_taken<E: CryptoEngine>(
    engine: &E,
    o: OrchView,
    id: Seq<char>,
    is_processed: bool,
    now: u64,
    next: OrchView,
    actions: Seq<ActionView>,
) -> (w: (RouterView, LifeView, DecisionView))
    requires
        events::event_may(
            engine,
            o,
            EventView::AckDbResult { message_id: id, is_processed },
            now,
            next,
            actions,
        ),
    ensures
        !o.router.unchecked.contains_key(id) ==> answering::same_but_held(next, o)
            && answering::answered_with(
            actions,
            seq![
                ActionView::NotifyError {
                    code: "ROUTING_ERROR"@,
                    message: "No message waits for an ACK check: "@ + id,
                },
            ],
        ),
        o.router.unchecked.contains_key(id) ==> {
            let resumed = RouterView { unchecked: o.router.unchecked.remove(id), ..o.router };
            let m = o.router.unchecked[id];
            &&& is_processed ==> answering::same_but_held(next, OrchView { router: resumed, ..o })
                && answering::answered_with(
                actions,
                seq![ActionView::DuplicateDropped { message_id: id }],
            )
            &&& !is_processed ==> {
                let (concluded, answer) = decisions::conclude(
                    OrchView { router: w.0, life: w.1, ..o },
                    w.2,
                    now,
                );
                &&& message_router::new_message_may(
                    engine,
                    resumed,
                    o.life,
                    m,
                    now,
                    w.0,
                    w.1,
                    w.2,
                )
                &&& decision_concerns(w.2, m.contact_id, m.message_id)
                &&& answering::same_but_held(next, concluded)
                &&& answering::answered_with(actions, answer)
            }
        },
{
    let event = EventView::AckDbResult { message_id: id, is_processed };
    let (mid, sent) = answering::an_event_is_answered_first(engine, o, event, now, next, actions);
    let (r2, l2, d) = choose|r2: RouterView, l2: LifeView, d: DecisionView| #[trigger]
        events::resumed_outcome(engine, o, id, is_processed, now, r2, l2, d, mid, sent);
    if o.router.unchecked.contains_key(id) && !is_processed {
        let resumed = RouterView { unchecked: o.router.unchecked.remove(id), ..o.router };
        let m = o.router.unchecked[id];
        a_new_message_concerns_its_sender(engine, resumed, o.life, m, now, r2, l2, d);
    }
    (r2, l2, d)
}

// ── What is saved ───────────────────────────────────────────────────────────

/// The saved record holds the state: who this device is, what heals run, which openings are in
/// flight, the archives with their times, the prekeys seen and the identities pinned.
pub open spec fn records<E: CryptoEngine>(
    engine: &E,
    o: OrchView,
    now: u64,
    data: Seq<u8>,
    s: StateView,
) -> bool {
    &&& engine::said_encode_state(engine, s, Ok(data))
    &&& s.my_user_id == o.life.my_user_id
    &&& s.init_locks.no_duplicates()
    &&& forall|d: Seq<char>| #[trigger]
        s.init_locks.contains(d) <==> session_windows::opening_lives(
            str_map::lookup(o.machine.phases, d),
            now,
        )
    &&& session_lifecycle::records_state(s, o.life, s.init_locks)
}

/// With an engine that can write every state, the state is saved, once and behind the answer,
/// whenever a message that arrives was read, waits for a session, or was refused.
pub proof fn the_state_is_saved_behind_the_answer<E: CryptoEngine>(
    engine: &E,
    o: OrchView,
    message_id: Seq<char>,
    from: Seq<char>,
    data: Seq<u8>,
    msg_num: u32,
    kem_ct: Seq<u8>,
    otpk_id: u32,
    content_type: u8,
    now: u64,
    next: OrchView,
    actions: Seq<ActionView>,
) -> (w: (int, StateView))
    requires
        events::event_may(
            engine,
            o,
            EventView::MessageReceived {
                message_id,
                from,
                data,
                msg_num,
                kem_ct,
                otpk_id,
                is_control: false,
                content_type,
            },
            now,
            next,
            actions,
        ),
        number_of(data, msg_num, kem_ct) is Some,
        !o.life.ack.processed.contains_key(message_id),
        !o.life.ack.post_restart,
        forall|s: StateView, r: Result<Seq<u8>, Seq<char>>| #[trigger]
            engine::said_encode_state(engine, s, r) ==> r is Ok,
    ensures
        (0 <= w.0 < actions.len() && actions[w.0] is SaveToSecureStore
            && actions[w.0]->SaveToSecureStore_slot is OrchestratorState && records(
            engine,
            next,
            now,
            actions[w.0]->SaveToSecureStore_data,
            w.1,
        )) || (actions.len() > 0 && (actions[0] is DuplicateDropped || actions[0] is NotifyError)),
{
    let event = EventView::MessageReceived {
        message_id,
        from,
        data,
        msg_num,
        kem_ct,
        otpk_id,
        is_control: false,
        content_type,
    };
    let (mid, sent) = answering::an_event_is_answered_first(engine, o, event, now, next, actions);
    let m = MessageView {
        contact_id: from,
        wire_payload: data,
        message_id,
        msg_number: number_of(data, msg_num, kem_ct)->Some_0,
        is_control: false,
        content_type,
    };
    let (r2, l2, d, saved) = choose|
        r2: RouterView,
        l2: LifeView,
        d: DecisionView,
        saved: Result<Seq<u8>, Seq<char>>,
    | #[trigger]
        events::routed_outcome(engine, o, m, now, r2, l2, d, saved, mid, sent);
    if d is Decrypted || d is SessionHealNeeded || d is NeedSessionInit || d is EndSessionNeeded {
        let (locks, s) = choose|locks: Seq<Seq<char>>, s: StateView|
            #![trigger events::names_openings(locks, mid.machine, now), engine::said_encode_state(engine, s, saved)]
            events::names_openings(locks, mid.machine, now) && session_lifecycle::records_state(
                s,
                mid.life,
                locks,
            ) && engine::said_encode_state(engine, s, saved);
        assert(saved is Ok);
        assert forall|c: Seq<char>| #[trigger] s.init_locks.contains(c)
            <==> session_windows::opening_lives(
            str_map::lookup(next.machine.phases, c),
            now,
        ) by {
            assert(locks.contains(c) <==> session_machine::phase_at(mid.machine, c, now)
                is Opening);
            session_windows::what_is_reported(str_map::lookup(mid.machine.phases, c), now);
        }
        let k = sent.len() - 1;
        assert(actions.take(sent.len() as int)[k] == sent[k]);
        assert(sent[k] == (ActionView::SaveToSecureStore {
            slot: SlotView::OrchestratorState,
            data: saved->Ok_0,
        }));
        (k, s)
    } else {
        a_new_message_is_decided(engine, o.router, o.life, m, now, r2, l2, d);
        assert(actions.take(sent.len() as int)[0] == sent[0]);
        (0, arbitrary())
    }
}

proof fn a_new_message_is_decided<E: CryptoEngine>(
    engine: &E,
    r: RouterView,
    l: LifeView,
    m: MessageView,
    now: u64,
    r2: RouterView,
    l2: LifeView,
    d: DecisionView,
)
    requires
        message_router::route_may(engine, r, l, m, now, r2, l2, d),
        is_new(l, m),
    ensures
        d is Decrypted || d is SessionHealNeeded || d is NeedSessionInit || d is EndSessionNeeded
            || d is Duplicate || d is QueueFull,
{
    if l.client.sessions.contains_key(m.contact_id) {
        if !(d is Decrypted) {
            a_refused_message_heals_or_ends(engine, r, l, m, now, r2, l2, d);
        }
    }
}

/// What the session answered to a message it did not hand over: the payload carries no message, the
/// engine refused it, or the session it left could not be written.
pub open spec fn refused_with<E: CryptoEngine>(
    engine: &E,
    l: LifeView,
    m: MessageView,
    reason: Seq<char>,
) -> bool {
    let s = l.client.sessions[m.contact_id];
    match session_lifecycle::wire_message_of(m.wire_payload) {
        Err(e) => reason == e,
        Ok(sent) => {
            ||| engine::said_decrypt(engine, s, sent, Err(reason))
            ||| exists|x: DecryptedView| #[trigger]
                engine::said_decrypt(engine, s, sent, Ok(x)) && engine::said_encode_session(
                    engine,
                    SessionView { ratchet: x.ratchet, prekey_header: None, ..s },
                    Err(reason),
                )
        },
    }
}

/// A message is dropped as a copy exactly when the refusal says that its key was used up; any other
/// refusal is told with the reason the session gave.
pub proof fn a_refusal_is_told_with_its_reason<E: CryptoEngine>(
    engine: &E,
    r: RouterView,
    l: LifeView,
    m: MessageView,
    now: u64,
    r2: RouterView,
    l2: LifeView,
    d: DecisionView,
) -> (reason: Seq<char>)
    requires
        is_new(l, m) && message_router::route_may(engine, r, l, m, now, r2, l2, d)
            || message_router::new_message_may(engine, r, l, m, now, r2, l2, d),
        l.client.sessions.contains_key(m.contact_id),
        !(d is Decrypted),
    ensures
        refused_with(engine, l, m, reason),
        d is Duplicate <==> "MESSAGE_KEY_CONSUMED"@.is_prefix_of(reason),
        d is SessionHealNeeded ==> d->SessionHealNeeded_reason == reason,
        d is EndSessionNeeded ==> d->EndSessionNeeded_reason == reason,
{
    let (tried, p) = choose|tried: LifeView, p: Result<DecryptResultView, Seq<char>>| #[trigger]
        message_router::tried_may(engine, l, m, tried, p, now, l2, d);
    let reason = p->Err_0;
    assert((l2, d) == message_router::refusal(tried, m, reason, now));
    if session_lifecycle::wire_message_of(m.wire_payload) is Ok {
        let sent = session_lifecycle::wire_message_of(m.wire_payload)->Ok_0;
        let s = l.client.sessions[m.contact_id];
        let (x, y) = choose|
            x: Result<DecryptedView, Seq<char>>,
            y: Result<Seq<u8>, Seq<char>>,
        | #[trigger]
            session_lifecycle::decrypt_outcome(
                engine,
                l,
                m.contact_id,
                s,
                sent,
                x,
                y,
                tried,
                p,
            );
        if x is Ok {
            assert(engine::said_decrypt(engine, s, sent, Ok(x->Ok_0)));
            assert(y == Err::<Seq<u8>, Seq<char>>(reason));
        }
    }
    reason
}

} // verus!
