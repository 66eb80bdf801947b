//! What each event is answered, read off the event itself: to whom, about what, and how often.

use vstd::prelude::*;

use crate::crypto::engine::{self, CryptoEngine, EncryptedView};
use crate::crypto::messaging::double_ratchet::{PqFieldView, SessionView};
use crate::orchestration::actions::{ActionView, EventView};
use crate::orchestration::healing_queue::{self, HealRec};
use crate::orchestration::message_router;
use crate::orchestration::orchestrator::draining;
use crate::orchestration::orchestrator::events;
use crate::orchestration::orchestrator::holds;
use crate::orchestration::orchestrator::messaging;
use crate::orchestration::orchestrator::origins;
use crate::orchestration::orchestrator::OrchView;
use crate::orchestration::orchestrator::settling;
use crate::orchestration::session_lifecycle::{self, LifeView};
use crate::orchestration::session_machine::{
    self, Effect, Event, MachineView, Phase, TearDownCause,
};
use crate::orchestration::session_windows;
use crate::orchestration::state::StateView;
use crate::str_map;
use crate::strings;
use crate::wire_payload::{self, WireFields};

verus! {

// ── What every answer has in common ─────────────────────────────────────────

/// Everything behind the first `n` actions hands a held message back.
pub open spec fn only_hands_back_after(actions: Seq<ActionView>, n: nat) -> bool {
    &&& n <= actions.len()
    &&& forall|i: int|
        n <= i < actions.len() ==> #[trigger] actions[i] is ReplayHeld
            || actions[i] is HeldSuperseded
}

/// The actions are the given answer, and behind it held messages are handed back.
pub open spec fn answered_with(actions: Seq<ActionView>, answer: Seq<ActionView>) -> bool {
    &&& only_hands_back_after(actions, answer.len())
    &&& actions.take(answer.len() as int) == answer
}

/// The states differ at most in the messages they hold back.
pub open spec fn same_but_held(a: OrchView, b: OrchView) -> bool {
    a == (OrchView { holds: a.holds, ..b })
}

/// An event is answered first, and then what the answer released is handed back: nothing else
/// happens behind the answer, and the state is the one the answer left but for what is held.
pub proof fn an_event_is_answered_first<E: CryptoEngine>(
    engine: &E,
    o: OrchView,
    event: EventView,
    now: u64,
    next: OrchView,
    actions: Seq<ActionView>,
) -> (r: (OrchView, Seq<ActionView>))
    requires
        events::event_may(engine, o, event, now, next, actions),
    ensures
        events::dispatch_may(engine, o, event, now, r.0, r.1),
        answered_with(actions, r.1),
        same_but_held(next, r.0),
        forall|d: Seq<char>|
            #![trigger next.holds.contains_key(d)]
            next.holds.contains_key(d) <==> r.0.holds.contains_key(d) && session_machine::gate_up(
                next.machine,
                d,
                now,
            ),
{
    let (mid, answer, back) = choose|
        mid: OrchView,
        answer: Seq<ActionView>,
        back: Seq<ActionView>,
    | #[trigger]
        events::event_outcome(engine, o, event, now, mid, answer, back, next, actions);
    let order = choose|order: Seq<Seq<char>>| #[trigger]
        holds::names_released(order, mid, now) && back == holds::all_handed_back(mid, order);
    origins::all_handed_back_is_handed_back(mid, order);
    assert(actions.take(answer.len() as int) =~= answer);
    assert forall|i: int| answer.len() <= i < actions.len() implies #[trigger] actions[i]
        is ReplayHeld || actions[i] is HeldSuperseded by {
        assert(actions[i] == back[i - answer.len()]);
        assert(origins::handed(back[i - answer.len()]) is Some);
    }
    (mid, answer)
}

// ── Sending ─────────────────────────────────────────────────────────────────

/// The payload carries what the engine made of `plaintext` on the session: the message's own
/// fields, the nonce with the ciphertext behind it, and the handshake while the first flight lasts.
pub open spec fn carries<E: CryptoEngine>(
    engine: &E,
    o: OrchView,
    contact: Seq<char>,
    plaintext: Seq<u8>,
    payload: Seq<u8>,
    e: EncryptedView,
) -> bool {
    let s = o.life.client.sessions[contact];
    let m = e.message;
    &&& o.life.client.sessions.contains_key(contact)
    &&& engine::said_encrypt(engine, s, plaintext, Ok(e))
    &&& m.dh_public_key.len() == 32
    &&& payload == wire_payload::encode(
        WireFields {
            message_number: m.message_number,
            dh_public_key: m.dh_public_key,
            one_time_prekey_id: match s.prekey_header {
                Some(h) => h.one_time_prekey_id,
                None => 0,
            },
            kyber_otpk_id: match s.prekey_header {
                Some(h) => h.kyber_prekey_id,
                None => 0,
            },
            previous_chain_length: m.previous_chain_length,
            suite_id: m.suite_id,
            kem_ciphertext: match s.prekey_header {
                Some(h) => if h.kem_ciphertext.len() > 0 {
                    Some(h.kem_ciphertext)
                } else {
                    None
                },
                None => None,
            },
            sealed_box: m.nonce + m.ciphertext,
            pq_message_epoch: m.pq_message_epoch,
            pq_ratchet_field: m.pq_ratchet_field,
        },
    )
}

/// A send of this message of this type, as `to`'s session sealed it.
pub open spec fn sends<E: CryptoEngine>(
    engine: &E,
    o: OrchView,
    a: ActionView,
    to: Seq<char>,
    message_id: Seq<char>,
    content_type: u8,
    plaintext: Seq<u8>,
) -> bool {
    &&& a is SendEncryptedMessage
    &&& a->SendEncryptedMessage_to == to
    &&& a->SendEncryptedMessage_message_id == message_id
    &&& a->SendEncryptedMessage_content_type == content_type
    &&& exists|e: EncryptedView| #[trigger]
        carries(engine, o, to, plaintext, a->SendEncryptedMessage_payload, e)
}

/// An answer to something that was to be sent: either it is sent, once, behind nothing but the
/// record of the session that sealed it, or the failure is told and nothing is sent.
pub open spec fn sent_or_told<E: CryptoEngine>(
    engine: &E,
    o: OrchView,
    next: OrchView,
    actions: Seq<ActionView>,
    to: Seq<char>,
    message_id: Seq<char>,
    content_type: u8,
    plaintext: Seq<u8>,
) -> bool {
    ||| {
        &&& actions.len() >= 1
        &&& actions[0] is NotifyError
        &&& only_hands_back_after(actions, 1)
    }
    ||| {
        &&& actions.len() >= 1
        &&& sends(engine, o, actions[0], to, message_id, content_type, plaintext)
        &&& only_hands_back_after(actions, 1)
        &&& !draining::writes_every_session(engine)
    }
    ||| {
        &&& actions.len() >= 2
        &&& draining::saves_session(actions[0], to)
        &&& next.life.client.sessions.contains_key(to)
        &&& engine::said_encode_session(
            engine,
            next.life.client.sessions[to],
            Ok(actions[0]->SaveToSecureStore_data),
        )
        &&& sends(engine, o, actions[1], to, message_id, content_type, plaintext)
        &&& only_hands_back_after(actions, 2)
    }
}

/// What sending changes: the ratchet of the session that sealed it, and nothing of anyone else.
pub open spec fn only_the_ratchet_turned(o: OrchView, next: OrchView, to: Seq<char>) -> bool {
    &&& same_but_held(
        next,
        OrchView {
            life: LifeView {
                client: next.life.client,
                ..o.life
            },
            ..o
        },
    )
    &&& next.life.client.keys == o.life.client.keys
    &&& next.life.client.local_user_id == o.life.client.local_user_id
    &&& next.life.client.sessions.remove(to) == o.life.client.sessions.remove(to)
    &&& next.life.client.sessions.contains_key(to) <==> o.life.client.sessions.contains_key(to)
    &&& o.life.client.sessions.contains_key(to) ==> next.life.client.sessions[to] == (
    SessionView {
        ratchet: next.life.client.sessions[to].ratchet,
        ..o.life.client.sessions[to]
    })
}

/// An outgoing message goes to the device the event names, under the id and with the content type
/// of the event, and carries what the engine made of the event's plaintext. Its session is recorded
/// first, as it is behind the message, and of everything else nothing changes. Without a session
/// nothing is sent.
pub proof fn an_outgoing_message_goes_where_it_should<E: CryptoEngine>(
    engine: &E,
    o: OrchView,
    contact: Seq<char>,
    message_id: Seq<char>,
    plaintext: Seq<u8>,
    content_type: u8,
    now: u64,
    next: OrchView,
    actions: Seq<ActionView>,
)
    requires
        events::event_may(
            engine,
            o,
            EventView::OutgoingMessage { contact_id: contact, message_id, plaintext, content_type },
            now,
            next,
            actions,
        ),
    ensures
        sent_or_told(engine, o, next, actions, contact, message_id, content_type, plaintext),
        only_the_ratchet_turned(o, next, contact),
        !o.life.client.sessions.contains_key(contact) ==> actions[0] == (ActionView::NotifyError {
            code: "OUTGOING_MESSAGE_ENCRYPT_FAILED"@,
            message: "Session not found: "@ + contact,
        }),
        forall|k: int|
            0 <= k < actions.len() && #[trigger] actions[k] is SendEncryptedMessage ==> {
                &&& actions[k]->SendEncryptedMessage_to == contact
                &&& actions[k]->SendEncryptedMessage_message_id == message_id
                &&& actions[k]->SendEncryptedMessage_content_type == content_type
            },
{
    let event = EventView::OutgoingMessage {
        contact_id: contact,
        message_id,
        plaintext,
        content_type,
    };
    let (mid, answer) = an_event_is_answered_first(engine, o, event, now, next, actions);
    a_message_is_sent_or_told(
        engine,
        o,
        contact,
        message_id,
        plaintext,
        content_type,
        mid,
        answer,
    );
    hand_backs_send_nothing(
        engine,
        o,
        mid,
        next,
        actions,
        answer,
        contact,
        message_id,
        content_type,
        plaintext,
    );
}

proof fn hand_backs_send_nothing<E: CryptoEngine>(
    engine: &E,
    o: OrchView,
    mid: OrchView,
    next: OrchView,
    actions: Seq<ActionView>,
    answer: Seq<ActionView>,
    contact: Seq<char>,
    message_id: Seq<char>,
    content_type: u8,
    plaintext: Seq<u8>,
)
    requires
        answered_with(actions, answer),
        same_but_held(next, mid),
        sent_or_told(engine, o, mid, answer, contact, message_id, content_type, plaintext),
    ensures
        sent_or_told(engine, o, next, actions, contact, message_id, content_type, plaintext),
        actions[0] == answer[0],
        forall|k: int|
            0 <= k < actions.len() && #[trigger] actions[k] is SendEncryptedMessage ==> {
                &&& actions[k]->SendEncryptedMessage_to == contact
                &&& actions[k]->SendEncryptedMessage_message_id == message_id
                &&& actions[k]->SendEncryptedMessage_content_type == content_type
            },
{
    assert(forall|i: int|
        0 <= i < answer.len() ==> actions.take(answer.len() as int)[i] == actions[i]);
    assert(forall|i: int| 0 <= i < answer.len() ==> actions[i] == answer[i]);
    assert(actions[0] == answer[0]);
    if answer.len() > 1 {
        assert(actions[1] == answer[1]);
    }
    let n = if only_hands_back_after(answer, 1) {
        1nat
    } else {
        2nat
    };
    assert(only_hands_back_after(answer, n));
    assert forall|i: int| n <= i < actions.len() implies #[trigger] actions[i] is ReplayHeld
        || actions[i] is HeldSuperseded by {
        if i < answer.len() {
            assert(actions[i] == answer[i]);
        }
    }
    assert(only_hands_back_after(actions, n));
}

/// Sending a message either sends it, to the device, under the id and with the content type given, or
/// tells why it cannot; and it turns no other ratchet than that of the session it is sent on.
pub proof fn a_message_is_sent_or_told<E: CryptoEngine>(
    engine: &E,
    o: OrchView,
    contact: Seq<char>,
    message_id: Seq<char>,
    plaintext: Seq<u8>,
    content_type: u8,
    next: OrchView,
    actions: Seq<ActionView>,
)
    requires
        messaging::outgoing_may(
            engine,
            o,
            contact,
            message_id,
            plaintext,
            content_type,
            next,
            actions,
        ),
    ensures
        sent_or_told(engine, o, next, actions, contact, message_id, content_type, plaintext),
        only_the_ratchet_turned(o, next, contact),
        !o.life.client.sessions.contains_key(contact) ==> actions[0] == (ActionView::NotifyError {
            code: "OUTGOING_MESSAGE_ENCRYPT_FAILED"@,
            message: "Session not found: "@ + contact,
        }),
{
    let (reply, x) = choose|
        reply: Result<EncryptedView, Seq<char>>,
        x: Result<Seq<u8>, Seq<char>>,
    | #[trigger]
        messaging::outgoing_outcome(
            engine,
            o,
            contact,
            message_id,
            plaintext,
            content_type,
            reply,
            x,
            next,
            actions,
        );
    let out = messaging::sent_step(o, contact, reply).1;
    if o.life.client.sessions.contains_key(contact) && reply is Ok && messaging::packed(
        out->Ok_0,
    ) is Ok {
        let e = reply->Ok_0;
        let payload = messaging::packed(out->Ok_0)->Ok_0;
        assert(carries(engine, o, contact, plaintext, payload, e));
        let last = actions.last();
        assert(last->SendEncryptedMessage_payload == payload);
        assert(sends(engine, o, last, contact, message_id, content_type, plaintext));
    }
    assert(next.life.client.sessions.remove(contact) =~= o.life.client.sessions.remove(contact));
}

/// A call signal goes out as a message does, with the content type of call signals, which is
/// twelve.
pub proof fn a_call_signal_goes_where_it_should<E: CryptoEngine>(
    engine: &E,
    o: OrchView,
    contact: Seq<char>,
    message_id: Seq<char>,
    proto_bytes: Seq<u8>,
    now: u64,
    next: OrchView,
    actions: Seq<ActionView>,
)
    requires
        events::event_may(
            engine,
            o,
            EventView::OutgoingCallSignal { contact_id: contact, message_id, proto_bytes },
            now,
            next,
            actions,
        ),
    ensures
        sent_or_told(engine, o, next, actions, contact, message_id, 12, proto_bytes),
        only_the_ratchet_turned(o, next, contact),
        !o.life.client.sessions.contains_key(contact) ==> actions[0] == (ActionView::NotifyError {
            code: "CALL_SIGNAL_ENCRYPT_FAILED"@,
            message: "Session not found: "@ + contact,
        }),
{
    let event = EventView::OutgoingCallSignal { contact_id: contact, message_id, proto_bytes };
    let (mid, answer) = an_event_is_answered_first(engine, o, event, now, next, actions);
    let (reply, x) = choose|
        reply: Result<EncryptedView, Seq<char>>,
        x: Result<Seq<u8>, Seq<char>>,
    | #[trigger]
        messaging::call_signal_outcome(
            engine,
            o,
            contact,
            message_id,
            proto_bytes,
            reply,
            x,
            mid,
            answer,
        );
    let out = messaging::sent_step(o, contact, reply).1;
    if o.life.client.sessions.contains_key(contact) && reply is Ok && messaging::packed(
        out->Ok_0,
    ) is Ok {
        let payload = messaging::packed(out->Ok_0)->Ok_0;
        assert(carries(engine, o, contact, proto_bytes, payload, reply->Ok_0));
        let last = answer.last();
        assert(last->SendEncryptedMessage_payload == payload);
        assert(sends(engine, o, last, contact, message_id, 12, proto_bytes));
    }
    assert(next.life.client.sessions.remove(contact) =~= o.life.client.sessions.remove(contact));
    hand_backs_send_nothing(
        engine,
        o,
        mid,
        next,
        actions,
        answer,
        contact,
        message_id,
        12,
        proto_bytes,
    );
}

/// A message that fits on the wire: a key of 32 bytes, and a KEM ciphertext and PQ field whose
/// lengths two bytes can tell.
pub open spec fn fits_the_wire(s: SessionView, e: EncryptedView) -> bool {
    let m = e.message;
    &&& m.dh_public_key.len() == 32
    &&& s.prekey_header matches Some(h) ==> h.kem_ciphertext.len() <= 65_535
    &&& m.suite_id == 3 ==> match m.pq_ratchet_field {
        None => true,
        Some(PqFieldView::PublicKey { epoch, key }) => key.len() <= 65_535,
        Some(PqFieldView::Ciphertext { epoch, ek_hash, ct }) => ct.len() <= 65_535,
    }
}

/// Whenever there is a session and the engine seals the text into something that fits on the wire,
/// the message is sent; a failure is told only where there is none, where the engine refuses, or
/// where what it made does not fit.
pub proof fn what_can_be_sealed_is_sent<E: CryptoEngine>(
    engine: &E,
    o: OrchView,
    contact: Seq<char>,
    message_id: Seq<char>,
    plaintext: Seq<u8>,
    content_type: u8,
    now: u64,
    next: OrchView,
    actions: Seq<ActionView>,
)
    requires
        o.life.client.sessions.contains_key(contact),
        forall|r: Result<EncryptedView, Seq<char>>| #[trigger]
            engine::said_encrypt(engine, o.life.client.sessions[contact], plaintext, r) ==> r is Ok
                && fits_the_wire(o.life.client.sessions[contact], r->Ok_0),
        events::event_may(
            engine,
            o,
            EventView::OutgoingMessage { contact_id: contact, message_id, plaintext, content_type },
            now,
            next,
            actions,
        ) || (content_type == 12 && events::event_may(
            engine,
            o,
            EventView::OutgoingCallSignal {
                contact_id: contact,
                message_id,
                proto_bytes: plaintext,
            },
            now,
            next,
            actions,
        )),
    ensures
        exists|k: int|
            0 <= k < 2 && k < actions.len() && #[trigger] sends(
                engine,
                o,
                actions[k],
                contact,
                message_id,
                content_type,
                plaintext,
            ),
{
    let s = o.life.client.sessions[contact];
    let as_message = EventView::OutgoingMessage {
        contact_id: contact,
        message_id,
        plaintext,
        content_type,
    };
    let event = if events::event_may(engine, o, as_message, now, next, actions) {
        an_outgoing_message_goes_where_it_should(
            engine,
            o,
            contact,
            message_id,
            plaintext,
            content_type,
            now,
            next,
            actions,
        );
        as_message
    } else {
        a_call_signal_goes_where_it_should(
            engine,
            o,
            contact,
            message_id,
            plaintext,
            now,
            next,
            actions,
        );
        EventView::OutgoingCallSignal { contact_id: contact, message_id, proto_bytes: plaintext }
    };
    let (mid, answer) = an_event_is_answered_first(engine, o, event, now, next, actions);
    if event is OutgoingMessage {
        let (reply, x) = choose|
            reply: Result<EncryptedView, Seq<char>>,
            x: Result<Seq<u8>, Seq<char>>,
        | #[trigger]
            messaging::outgoing_outcome(
                engine,
                o,
                contact,
                message_id,
                plaintext,
                content_type,
                reply,
                x,
                mid,
                answer,
            );
        assert(engine::said_encrypt(engine, s, plaintext, reply));
        assert(fits_the_wire(s, reply->Ok_0));
        assert(!(answer[0] is NotifyError));
    } else {
        let (reply, x) = choose|
            reply: Result<EncryptedView, Seq<char>>,
            x: Result<Seq<u8>, Seq<char>>,
        | #[trigger]
            messaging::call_signal_outcome(
                engine,
                o,
                contact,
                message_id,
                plaintext,
                reply,
                x,
                mid,
                answer,
            );
        assert(engine::said_encrypt(engine, s, plaintext, reply));
        assert(fits_the_wire(s, reply->Ok_0));
        assert(!(answer[0] is NotifyError));
    }
    assert(actions.take(answer.len() as int)[0] == answer[0]);
    if !sends(engine, o, actions[0], contact, message_id, content_type, plaintext) {
        assert(sends(engine, o, actions[1], contact, message_id, content_type, plaintext));
    }
}

// ── Receipts, bundles, launch ───────────────────────────────────────────────

/// An acknowledgement marks its message delivered, a fetched bundle opens a session with the device
/// it was fetched for, and a launch schedules the three sweeps. Nothing else changes.
pub proof fn the_plain_events<E: CryptoEngine>(
    engine: &E,
    o: OrchView,
    event: EventView,
    now: u64,
    next: OrchView,
    actions: Seq<ActionView>,
)
    requires
        events::event_may(engine, o, event, now, next, actions),
        event is AckReceived || event is KeyBundleFetched || event is AppLaunched,
    ensures
        same_but_held(next, o),
        match event {
            EventView::AckReceived { message_id } => answered_with(
                actions,
                seq![ActionView::MarkMessageDelivered { message_id }],
            ),
            EventView::KeyBundleFetched { user_id, bundle_json } => answered_with(
                actions,
                seq![ActionView::InitSession { contact_id: user_id, bundle_json }],
            ),
            _ => answered_with(
                actions,
                seq![
                    ActionView::ScheduleTimer { timer_id: "gc_sweep"@, delay_ms: 5_000 },
                    ActionView::ScheduleTimer { timer_id: "prewarm_sweep"@, delay_ms: 2_000 },
                    ActionView::ScheduleTimer { timer_id: "pq_upgrade_sweep"@, delay_ms: 15_000 },
                ],
            ),
        },
{
    let (mid, answer) = an_event_is_answered_first(engine, o, event, now, next, actions);
    if event is AppLaunched {
        assert(answer =~= seq![
            ActionView::ScheduleTimer { timer_id: "gc_sweep"@, delay_ms: 5_000 },
            ActionView::ScheduleTimer { timer_id: "prewarm_sweep"@, delay_ms: 2_000 },
            ActionView::ScheduleTimer { timer_id: "pq_upgrade_sweep"@, delay_ms: 15_000 },
        ]);
    }
}

// ── Asking the machine ──────────────────────────────────────────────────────

/// The machine after this event of this device, with everything else as it was.
pub open spec fn machine_moved(
    o: OrchView,
    next: OrchView,
    device: Seq<char>,
    now: u64,
    event: Event,
) -> bool {
    same_but_held(
        next,
        OrchView { machine: session_machine::machine_step(o.machine, device, now, event).0, ..o },
    )
}

/// A teardown that is asked for is sent, deferred or needless as the record of the device says; a
/// deferred one names the session it condemns and arms the alarm that pays it.
pub proof fn a_requested_teardown_is_answered<E: CryptoEngine>(
    engine: &E,
    o: OrchView,
    contact: Seq<char>,
    cause: TearDownCause,
    now: u64,
    next: OrchView,
    actions: Seq<ActionView>,
)
    requires
        events::event_may(
            engine,
            o,
            EventView::TeardownRequested { contact_id: contact, cause },
            now,
            next,
            actions,
        ),
    ensures
        ({
            let p = str_map::lookup(o.machine.phases, contact);
            match session_machine::transition(p, now, Event::WantToTearDown { cause }).1 {
                Effect::DeferTearDown { retry_after_ms } => {
                    &&& answered_with(
                        actions,
                        seq![
                            ActionView::EndSessionSuppressed {
                                contact_id: contact,
                                retry_after_ms,
                            },
                            ActionView::ScheduleTimer {
                                timer_id: "cooldown_expired:"@ + contact,
                                delay_ms: retry_after_ms,
                            },
                        ],
                    )
                    &&& str_map::lookup(next.machine.condemned, contact) == (match str_map::lookup(
                        o.life.client.sessions,
                        contact,
                    ) {
                        Some(s) => Some(s.session_id),
                        None => None,
                    })
                },
                Effect::TearDownNotNeeded => answered_with(
                    actions,
                    seq![ActionView::EndSessionNotNeeded { contact_id: contact }],
                ),
                _ => answered_with(
                    actions,
                    seq![ActionView::SendEndSession { contact_id: contact }],
                ) && str_map::lookup(next.machine.condemned, contact) is None,
            }
        }),
        str_map::lookup(next.machine.phases, contact) == session_machine::transition(
            str_map::lookup(o.machine.phases, contact),
            now,
            Event::WantToTearDown { cause },
        ).0,
        same_but_held(next, OrchView { machine: next.machine, ..o }),
{
    let event = EventView::TeardownRequested { contact_id: contact, cause };
    let (mid, answer) = an_event_is_answered_first(engine, o, event, now, next, actions);
    let p = str_map::lookup(o.machine.phases, contact);
    if let Effect::DeferTearDown { retry_after_ms } = session_machine::transition(
        p,
        now,
        Event::WantToTearDown { cause },
    ).1 {
        assert(answer =~= seq![
            ActionView::EndSessionSuppressed { contact_id: contact, retry_after_ms },
            ActionView::ScheduleTimer {
                timer_id: "cooldown_expired:"@ + contact,
                delay_ms: retry_after_ms,
            },
        ]);
    }
}

/// A reopen is granted, deferred or waits as the record of the device says, and leaves the rebuild
/// to the peer exactly when the peer's id is not below the own.
pub proof fn a_requested_reopen_is_answered<E: CryptoEngine>(
    engine: &E,
    o: OrchView,
    contact: Seq<char>,
    now: u64,
    next: OrchView,
    actions: Seq<ActionView>,
)
    requires
        events::event_may(
            engine,
            o,
            EventView::ReopenRequested { contact_id: contact },
            now,
            next,
            actions,
        ),
    ensures
        ({
            let event = Event::WantToReopen {
                peer_rebuilds: !strings::lex_less(contact, o.life.client.local_user_id),
            };
            let p = str_map::lookup(o.machine.phases, contact);
            &&& machine_moved(o, next, contact, now, event)
            &&& match session_machine::transition(p, now, event).1 {
                Effect::DeferOpen { retry_after_ms } => answered_with(
                    actions,
                    seq![
                        ActionView::OpenDeferred { contact_id: contact, retry_after_ms },
                        ActionView::ScheduleTimer {
                            timer_id: "reopen:"@ + contact,
                            delay_ms: retry_after_ms,
                        },
                    ],
                ),
                Effect::WaitForOpen => answered_with(actions, Seq::empty()),
                _ => answered_with(
                    actions,
                    seq![ActionView::OpenSession { contact_id: contact }],
                ),
            }
        }),
{
    let event = EventView::ReopenRequested { contact_id: contact };
    let (mid, answer) = an_event_is_answered_first(engine, o, event, now, next, actions);
}

/// An announcement is awaited: the opening is stored as announced now, and its alarm is armed.
pub proof fn an_announcement_is_awaited<E: CryptoEngine>(
    engine: &E,
    o: OrchView,
    contact: Seq<char>,
    now: u64,
    next: OrchView,
    actions: Seq<ActionView>,
)
    requires
        events::event_may(
            engine,
            o,
            EventView::SriAnnounced { contact_id: contact },
            now,
            next,
            actions,
        ),
    ensures
        answered_with(
            actions,
            seq![
                ActionView::ScheduleTimer {
                    timer_id: "open_confirm:"@ + contact,
                    delay_ms: 30_100,
                },
            ],
        ),
        str_map::lookup(next.machine.phases, contact) == Some(
            Phase::Opening { since_ms: now, unacked_sri: 1 },
        ),
        machine_moved(o, next, contact, now, Event::SriAnnounced),
{
    let event = EventView::SriAnnounced { contact_id: contact };
    let (mid, answer) = an_event_is_answered_first(engine, o, event, now, next, actions);
    session_windows::an_announcement_begins_its_wait(
        str_map::lookup(o.machine.phases, contact),
        now,
    );
}

/// The peer's answer ends the wait: nothing is stored of the device any more, its alarm is
/// cancelled, and what was held for it is no longer held.
pub proof fn an_answer_of_the_peer_ends_the_wait<E: CryptoEngine>(
    engine: &E,
    o: OrchView,
    contact: Seq<char>,
    now: u64,
    next: OrchView,
    actions: Seq<ActionView>,
)
    requires
        events::event_may(
            engine,
            o,
            EventView::PeerAcked { contact_id: contact },
            now,
            next,
            actions,
        ),
    ensures
        answered_with(
            actions,
            seq![ActionView::CancelTimer { timer_id: "open_confirm:"@ + contact }],
        ),
        str_map::lookup(next.machine.phases, contact) is None,
        machine_moved(o, next, contact, now, Event::PeerAcked),
        !next.holds.contains_key(contact),
{
    let event = EventView::PeerAcked { contact_id: contact };
    let (mid, answer) = an_event_is_answered_first(engine, o, event, now, next, actions);
}

/// The peer's own teardown is told to the machine and ends the heal of that device; nothing is
/// answered.
pub proof fn the_peers_teardown_is_taken_in<E: CryptoEngine>(
    engine: &E,
    o: OrchView,
    contact: Seq<char>,
    now: u64,
    next: OrchView,
    actions: Seq<ActionView>,
)
    requires
        events::event_may(
            engine,
            o,
            EventView::PeerToreDown { contact_id: contact },
            now,
            next,
            actions,
        ),
    ensures
        answered_with(actions, Seq::empty()),
        machine_moved(
            OrchView {
                life: LifeView {
                    healing: healing_queue::heal_settle(o.life.healing, contact),
                    ..o.life
                },
                ..o
            },
            next,
            contact,
            now,
            Event::PeerToreDown,
        ),
{
    let event = EventView::PeerToreDown { contact_id: contact };
    let (mid, answer) = an_event_is_answered_first(engine, o, event, now, next, actions);
    assert(answer =~= Seq::<ActionView>::empty());
}

/// A heal may be tried again as long as fewer attempts were made than are allowed, and each try is
/// counted. Where it may not, or nothing is known of a heal, it is exhausted; and if there is a
/// session, what waited for a new one is dropped.
pub proof fn a_heal_is_tried_so_often<E: CryptoEngine>(
    engine: &E,
    o: OrchView,
    contact: Seq<char>,
    now: u64,
    next: OrchView,
    actions: Seq<ActionView>,
)
    requires
        events::event_may(
            engine,
            o,
            EventView::HealAttempted { contact_id: contact },
            now,
            next,
            actions,
        ),
    ensures
        ({
            let before = str_map::lookup(o.life.healing.records, contact);
            let after = str_map::lookup(next.life.healing.records, contact);
            let tries = before->Some_0.attempts + 1;
            let allowed = before is Some && tries < o.life.healing.max_attempts;
            &&& before is None ==> after is None
            &&& before is Some && before->Some_0.attempts < u32::MAX ==> after == Some(
                HealRec { attempts: tries as u32, ..before->Some_0 },
            )
            &&& allowed ==> answered_with(
                actions,
                seq![
                    ActionView::HealAttemptAllowed { contact_id: contact, attempt: tries as u32 },
                ],
            ) && next.router == o.router
            &&& !allowed ==> {
                &&& answered_with(actions, seq![ActionView::HealExhausted { contact_id: contact }])
                &&& o.life.client.sessions.contains_key(contact) ==> message_router::waiting(
                    next.router,
                    contact,
                ).len() == 0
                &&& !o.life.client.sessions.contains_key(contact) ==> next.router == o.router
                &&& next.router.unchecked == o.router.unchecked
                &&& next.router.queues.remove(contact) == o.router.queues.remove(contact)
            }
        }),
        same_but_held(
            next,
            OrchView {
                router: next.router,
                life: LifeView { healing: next.life.healing, ..o.life },
                ..o
            },
        ),
        next.life.healing.records.remove(contact) == o.life.healing.records.remove(contact),
        next.life.healing.max_attempts == o.life.healing.max_attempts,
        next.life.healing.ttl_secs == o.life.healing.ttl_secs,
{
    let event = EventView::HealAttempted { contact_id: contact };
    let (mid, answer) = an_event_is_answered_first(engine, o, event, now, next, actions);
    assert(next.life.healing.records.remove(contact) =~= o.life.healing.records.remove(contact));
    assert(next.router.queues.remove(contact) =~= o.router.queues.remove(contact));
}

/// A reset of a session is applied, or said to be superseded, by its key and its time: one that
/// carries the key last applied is a redelivery; any other is applied exactly when no session is
/// established or it was sent no earlier than the session was.
pub proof fn an_arriving_reset_is_answered<E: CryptoEngine>(
    engine: &E,
    o: OrchView,
    contact: Seq<char>,
    key: Seq<u8>,
    sent_at_s: u64,
    established_at_s: Option<u64>,
    now: u64,
    next: OrchView,
    actions: Seq<ActionView>,
)
    requires
        events::event_may(
            engine,
            o,
            EventView::ResetInitArrived {
                contact_id: contact,
                init_ephemeral: key,
                sent_at_s,
                established_at_s,
            },
            now,
            next,
            actions,
        ),
    ensures
        ({
            let again = str_map::lookup(o.machine.resets, contact) == Some(key);
            let early = established_at_s matches Some(e) && sent_at_s < e;
            &&& again ==> answered_with(
                actions,
                seq![
                    ActionView::ResetInitSuperseded { contact_id: contact, redelivery: true },
                ],
            )
            &&& !again && early ==> answered_with(
                actions,
                seq![
                    ActionView::ResetInitSuperseded { contact_id: contact, redelivery: false },
                ],
            )
            &&& !again && !early ==> answered_with(
                actions,
                seq![ActionView::ApplyResetInit { contact_id: contact }],
            ) && str_map::lookup(next.machine.resets, contact) == Some(key)
            &&& again || early ==> same_but_held(next, o)
            &&& same_but_held(
                next,
                OrchView { machine: MachineView { resets: next.machine.resets, ..o.machine }, ..o },
            )
            &&& next.machine.resets.remove(contact) == o.machine.resets.remove(contact)
        }),
{
    let event = EventView::ResetInitArrived {
        contact_id: contact,
        init_ephemeral: key,
        sent_at_s,
        established_at_s,
    };
    let (mid, answer) = an_event_is_answered_first(engine, o, event, now, next, actions);
    assert(next.machine.resets.remove(contact) =~= o.machine.resets.remove(contact));
}

/// A session whose opening is complete is read from the record that came with it, where one came;
/// a record that cannot be taken is told, with the device, and no session changes. Otherwise the
/// session is recorded, what waited is answered, and the session is told.
pub proof fn a_completed_opening_is_taken_in<E: CryptoEngine>(
    engine: &E,
    o: OrchView,
    contact: Seq<char>,
    data: Seq<u8>,
    now: u64,
    next: OrchView,
    actions: Seq<ActionView>,
) -> (w: (LifeView, Result<(), Seq<char>>, OrchView, Seq<ActionView>))
    requires
        events::event_may(
            engine,
            o,
            EventView::SessionInitCompleted { contact_id: contact, session_data: data },
            now,
            next,
            actions,
        ),
    ensures
        ({
            let (life, imported, mid, answer) = w;
            let settled = LifeView {
                healing: healing_queue::heal_settle(o.life.healing, contact),
                ..o.life
            };
            let over = OrchView {
                life,
                machine: session_machine::machine_step(
                    o.machine,
                    contact,
                    now,
                    Event::OpenFinished,
                ).0,
                ..o
            };
            &&& data.len() == 0 ==> life == settled && imported is Ok
            &&& data.len() > 0 ==> session_lifecycle::import_may(
                engine,
                settled,
                contact,
                data,
                life,
                imported,
            )
            &&& imported matches Err(e) ==> {
                &&& same_but_held(next, over)
                &&& life == settled
                &&& answered_with(
                    actions,
                    seq![
                        ActionView::NotifyError {
                            code: "session_import_failed"@,
                            message: "contact="@ + contact + ": "@ + e,
                        },
                    ],
                )
            }
            &&& imported is Ok ==> {
                &&& settling::settled_may(engine, over, contact, now, mid, answer)
                &&& answered_with(actions, answer)
                &&& same_but_held(next, mid)
                &&& answer.len() > 0
                &&& answer.last() == (ActionView::NotifySessionCreated { contact_id: contact })
                &&& draining::writes_every_session(engine) && life.client.sessions.contains_key(
                    contact,
                ) ==> draining::saves_session(answer[0], contact) && engine::said_encode_session(
                    engine,
                    life.client.sessions[contact],
                    Ok(answer[0]->SaveToSecureStore_data),
                )
            }
        }),
{
    let event = EventView::SessionInitCompleted { contact_id: contact, session_data: data };
    let (mid, answer) = an_event_is_answered_first(engine, o, event, now, next, actions);
    let (l2, imported) = choose|l2: LifeView, imported: Result<(), Seq<char>>| #[trigger]
        settling::completed_outcome(engine, o, contact, data, now, l2, imported, mid, answer);
    let over = OrchView {
        life: l2,
        machine: session_machine::machine_step(o.machine, contact, now, Event::OpenFinished).0,
        ..o
    };
    if imported is Ok {
        let (x, drained) = choose|x: Result<Seq<u8>, Seq<char>>, drained: Seq<ActionView>| #[trigger]
            settling::settled_outcome(engine, over, contact, now, x, drained, mid, answer);
        assert(session_lifecycle::exported(engine, over.life, contact, x));
        if x is Ok {
            assert(answer[0] == session_lifecycle::save_session(contact, x->Ok_0));
        }
    }
    (l2, imported, mid, answer)
}

/// A state that is read back takes effect: the openings it names are in flight again as of now, the
/// messages it names are known as processed and all others are to be asked about; sessions, keys
/// and what waits stay. A state that cannot be read changes nothing, and that is told.
pub proof fn a_state_read_back_takes_effect(
    o: OrchView,
    d: Result<StateView, Seq<char>>,
    now: u64,
    id: Seq<char>,
)
    ensures
        ({
            let (next, result) = events::state_imported(o, d, now);
            &&& d matches Err(e) ==> next == o && result == Err::<(), Seq<char>>(e)
            &&& d matches Ok(s) ==> {
                &&& result is Ok
                &&& s.init_locks.contains(id) ==> str_map::lookup(next.machine.phases, id) == Some(
                    Phase::Opening { since_ms: now, unacked_sri: 0 },
                )
                &&& next.life.ack.processed.contains_key(id) <==> s.processed_ids.contains(id)
                &&& next.life.ack.post_restart
                &&& next.life.client == o.life.client
                &&& next.life.my_user_id == o.life.my_user_id
                &&& next.life.deferred == o.life.deferred
                &&& next.router == o.router
                &&& next.holds == o.holds
            }
        }),
{
}

} // verus!
