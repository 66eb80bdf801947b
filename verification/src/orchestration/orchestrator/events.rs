//! The unified event handler.

use vstd::prelude::*;

use crate::crypto::engine::{self, CryptoEngine};
use crate::orchestration::ack_store;
use crate::orchestration::actions::{
    Action, ActionView, EventView, IncomingEvent, SecureStoreSlot, SlotView,
};
use crate::orchestration::clock::Clock;
use crate::orchestration::healing_queue;
use crate::orchestration::message_router::{
    self, DecisionView, IncomingMessage, MessageView, RouterView, RoutingDecision,
};
use crate::orchestration::orchestrator::asking;
use crate::orchestration::orchestrator::decisions::{self, decrypt_failed, CT_HEARTBEAT};
use crate::orchestration::orchestrator::holds;
use crate::orchestration::orchestrator::messaging;
use crate::orchestration::orchestrator::settling;
use crate::orchestration::orchestrator::timers::{self, PQ_UPGRADE_SWEEP_DELAY_MS};
use crate::orchestration::orchestrator::{self, OrchView, Orchestrator};
use crate::orchestration::session_lifecycle::{self, LifeView};
use crate::orchestration::session_machine::{
    self, Effect as SessionEffect, Event as SessionEvent, MachineView, Phase,
};
use crate::orchestration::state::StateView;
use crate::str_map;
use crate::strings::{join, join3};
use crate::vecs;
use crate::wire_payload::{self, unpack, WirePayloadError};

verus! {

// ── Coordination state ──────────────────────────────────────────────────────

/// A list that names every device with an opening in flight exactly once.
pub open spec fn names_openings(locks: Seq<Seq<char>>, m: MachineView, now: u64) -> bool {
    &&& locks.no_duplicates()
    &&& forall|k: Seq<char>| #[trigger] locks.contains(k) <==> session_machine::phase_at(
        m,
        k,
        now,
    ) is Opening
}

/// A reply the engine may give when asked to encode the coordination state at `now`.
pub open spec fn state_encoded<E: CryptoEngine>(
    engine: &E,
    o: OrchView,
    now: u64,
    reply: Result<Seq<u8>, Seq<char>>,
) -> bool {
    exists|locks: Seq<Seq<char>>, s: StateView|
        #![trigger names_openings(locks, o.machine, now), engine::said_encode_state(engine, s, reply)]
        names_openings(locks, o.machine, now) && session_lifecycle::records_state(s, o.life, locks)
            && engine::said_encode_state(engine, s, reply)
}

/// Saving the coordination state, where it could be encoded.
pub open spec fn save_state(reply: Result<Seq<u8>, Seq<char>>) -> Seq<ActionView> {
    match reply {
        Ok(data) => seq![
            ActionView::SaveToSecureStore { slot: SlotView::OrchestratorState, data },
        ],
        Err(_) => Seq::empty(),
    }
}

/// What a coordination record that decodes to `d` leads to. All queues and the openings in flight
/// are replaced; a record that cannot be read changes nothing.
pub open spec fn state_imported(o: OrchView, d: Result<StateView, Seq<char>>, now: u64) -> (
    OrchView,
    Result<(), Seq<char>>,
) {
    match d {
        Err(e) => (o, Err(e)),
        Ok(s) => (
            OrchView {
                life: session_lifecycle::state_loaded(o.life, s, now),
                machine: session_machine::restored(o.machine, s.init_locks, now),
                ..o
            },
            Ok(()),
        ),
    }
}

// ── Incoming messages ───────────────────────────────────────────────────────

/// The number a message is routed by. The payload is the authority; a platform that fills the field
/// itself is believed only where the payload cannot be read. Unreadable and nothing to fall back
/// on: it can never decrypt, and routing it as message 0 would raise a heal.
pub open spec fn routing_number(
    data: Seq<u8>,
    msg_num: u32,
    kem_ct: Seq<u8>,
    is_control: bool,
) -> Result<u32, WirePayloadError> {
    if is_control {
        Ok(msg_num)
    } else {
        match wire_payload::decode(data) {
            Ok(f) => Ok(f.message_number),
            Err(e) => if msg_num != 0 || kem_ct.len() > 0 {
                Ok(msg_num)
            } else {
                Err(e)
            },
        }
    }
}

/// The report of a payload that cannot be read.
pub open spec fn malformed(
    e: WirePayloadError,
    message_id: Seq<char>,
    from: Seq<char>,
) -> ActionView {
    session_lifecycle::notify_error(
        "MALFORMED_WIRE_PAYLOAD"@,
        e.text() + " (message "@ + message_id + " from "@ + from + ")"@,
    )
}

/// Whether a decision changes coordination state that no session save carries.
pub open spec fn needs_state_save(d: DecisionView) -> bool {
    d is Decrypted || d is SessionHealNeeded || d is NeedSessionInit || d is EndSessionNeeded
}

/// The message is routed to `d`, leaving `r2` and `l2`, and the state encodes to `saved`: what
/// follows.
pub open spec fn routed_outcome<E: CryptoEngine>(
    engine: &E,
    o: OrchView,
    m: MessageView,
    now: u64,
    r2: RouterView,
    l2: LifeView,
    d: DecisionView,
    saved: Result<Seq<u8>, Seq<char>>,
    next: OrchView,
    actions: Seq<ActionView>,
) -> bool {
    let (concluded, answer) = decisions::conclude(orchestrator::with_core(o, r2, l2), d, now);
    &&& message_router::route_may(engine, o.router, o.life, m, now, r2, l2, d)
    &&& next == concluded
    &&& if needs_state_save(d) {
        state_encoded(engine, concluded, now, saved) && actions == answer + save_state(saved)
    } else {
        actions == answer
    }
}

/// What an arriving message may lead to.
pub open spec fn received_message_may<E: CryptoEngine>(
    engine: &E,
    o: OrchView,
    message_id: Seq<char>,
    from: Seq<char>,
    data: Seq<u8>,
    msg_num: u32,
    kem_ct: Seq<u8>,
    is_control: bool,
    content_type: u8,
    now: u64,
    next: OrchView,
    actions: Seq<ActionView>,
) -> bool {
    match routing_number(data, msg_num, kem_ct, is_control) {
        Err(e) => next == o && actions == seq![malformed(e, message_id, from)],
        Ok(number) => {
            let m = MessageView {
                contact_id: from,
                wire_payload: data,
                message_id,
                msg_number: number,
                is_control,
                content_type,
            };
            exists|
                r2: RouterView,
                l2: LifeView,
                d: DecisionView,
                saved: Result<Seq<u8>, Seq<char>>,
            | #[trigger]
                routed_outcome(engine, o, m, now, r2, l2, d, saved, next, actions)
        },
    }
}

/// The answer to a heartbeat that was routed to `d`. One that decrypts needs no answer; one the
/// ratchet refuses at the start of a chain raises a heal, held and put off like any other but never
/// on an alarm of its own.
pub open spec fn heartbeat_answered(o: OrchView, d: DecisionView, now: u64) -> (
    OrchView,
    Seq<ActionView>,
) {
    match d {
        DecisionView::Decrypted { contact_id, message_id, plaintext, content_type, actions } => (
            o,
            Seq::empty(),
        ),
        DecisionView::SessionHealNeeded { contact_id, role, is_handshake, reason, refused } => if is_handshake {
            decisions::conclude(o, d, now)
        } else if session_machine::gate_up(o.machine, contact_id, now) {
            (
                holds::hold_step(o, contact_id, refused),
                seq![ActionView::HeldPendingAck { contact_id }, decisions::decrypt_failed_view(reason)],
            )
        } else {
            let (machine, effect) = session_machine::machine_step(
                o.machine,
                contact_id,
                now,
                SessionEvent::WantToHeal,
            );
            let stepped_o = orchestrator::with_machine(o, machine);
            match effect {
                SessionEffect::DeferHeal { retry_after_ms } => (
                    stepped_o,
                    seq![
                        ActionView::HealSuppressed { contact_id, retry_after_ms },
                        decisions::decrypt_failed_view(reason),
                    ],
                ),
                _ => (
                    OrchView { router: message_router::held_for_open(
                        stepped_o.router,
                        refused.message,
                    ), ..stepped_o },
                    seq![
                        ActionView::SessionHealNeeded { contact_id, role: role.wire() },
                        decisions::decrypt_failed_view(reason),
                    ],
                ),
            }
        },
        _ => decisions::conclude(o, d, now),
    }
}

/// The heartbeat is routed to `d`, leaving `r2` and `l2`: what follows.
pub open spec fn heartbeat_outcome<E: CryptoEngine>(
    engine: &E,
    o: OrchView,
    m: MessageView,
    now: u64,
    r2: RouterView,
    l2: LifeView,
    d: DecisionView,
    next: OrchView,
    actions: Seq<ActionView>,
) -> bool {
    &&& message_router::route_may(engine, o.router, o.life, m, now, r2, l2, d)
    &&& (next, actions) == heartbeat_answered(orchestrator::with_core(o, r2, l2), d, now)
}

/// What a heartbeat may lead to.
pub open spec fn heartbeat_may<E: CryptoEngine>(
    engine: &E,
    o: OrchView,
    contact: Seq<char>,
    message_id: Seq<char>,
    data: Seq<u8>,
    msg_num: u32,
    now: u64,
    next: OrchView,
    actions: Seq<ActionView>,
) -> bool {
    let m = MessageView {
        contact_id: contact,
        wire_payload: data,
        message_id,
        msg_number: msg_num,
        is_control: false,
        content_type: CT_HEARTBEAT,
    };
    exists|r2: RouterView, l2: LifeView, d: DecisionView| #[trigger]
        heartbeat_outcome(engine, o, m, now, r2, l2, d, next, actions)
}

/// The answer of the durable store is resumed to `d`, leaving `r2` and `l2`: what follows.
pub open spec fn resumed_outcome<E: CryptoEngine>(
    engine: &E,
    o: OrchView,
    message_id: Seq<char>,
    is_processed: bool,
    now: u64,
    r2: RouterView,
    l2: LifeView,
    d: DecisionView,
    next: OrchView,
    actions: Seq<ActionView>,
) -> bool {
    &&& message_router::resume_may(
        engine,
        o.router,
        o.life,
        message_id,
        is_processed,
        now,
        r2,
        l2,
        d,
    )
    &&& (next, actions) == decisions::conclude(orchestrator::with_core(o, r2, l2), d, now)
}

/// What the answer of the durable store may lead to.
pub open spec fn resumed_may<E: CryptoEngine>(
    engine: &E,
    o: OrchView,
    message_id: Seq<char>,
    is_processed: bool,
    now: u64,
    next: OrchView,
    actions: Seq<ActionView>,
) -> bool {
    exists|r2: RouterView, l2: LifeView, d: DecisionView| #[trigger]
        resumed_outcome(engine, o, message_id, is_processed, now, r2, l2, d, next, actions)
}

/// The timers armed at launch.
pub open spec fn launch_timers() -> Seq<ActionView> {
    seq![
        decisions::schedule("gc_sweep"@, 5_000),
        decisions::schedule("prewarm_sweep"@, 2_000),
        decisions::schedule("pq_upgrade_sweep"@, PQ_UPGRADE_SWEEP_DELAY_MS),
    ]
}

// ── Events ──────────────────────────────────────────────────────────────────

/// What an event may lead to, before what a fallen gate hands back.
pub open spec fn dispatch_may<E: CryptoEngine>(
    engine: &E,
    o: OrchView,
    event: EventView,
    now: u64,
    next: OrchView,
    actions: Seq<ActionView>,
) -> bool {
    match event {
        EventView::MessageReceived {
            message_id,
            from,
            data,
            msg_num,
            kem_ct,
            otpk_id,
            is_control,
            content_type,
        } => received_message_may(
            engine,
            o,
            message_id,
            from,
            data,
            msg_num,
            kem_ct,
            is_control,
            content_type,
            now,
            next,
            actions,
        ),
        EventView::OutgoingMessage { contact_id, message_id, plaintext, content_type }
            => messaging::outgoing_may(
            engine,
            o,
            contact_id,
            message_id,
            plaintext,
            content_type,
            next,
            actions,
        ),
        EventView::OutgoingCallSignal { contact_id, message_id, proto_bytes } => messaging::call_signal_may(
            engine,
            o,
            contact_id,
            message_id,
            proto_bytes,
            next,
            actions,
        ),
        EventView::SessionInitCompleted { contact_id, session_data } => settling::completed_may(
            engine,
            o,
            contact_id,
            session_data,
            now,
            next,
            actions,
        ),
        EventView::AckReceived { message_id } => next == o && actions == seq![
            ActionView::MarkMessageDelivered { message_id },
        ],
        EventView::KeyBundleFetched { user_id, bundle_json } => next == o && actions == seq![
            ActionView::InitSession { contact_id: user_id, bundle_json },
        ],
        EventView::NetworkReconnected => settling::reconnected_may(engine, o, now, next, actions),
        EventView::AppLaunched => next == o && actions == launch_timers(),
        EventView::TimerFired { timer_id } => timers::timer_may(o, timer_id, now, next, actions),
        EventView::AckDbResult { message_id, is_processed } => resumed_may(
            engine,
            o,
            message_id,
            is_processed,
            now,
            next,
            actions,
        ),
        EventView::HeartbeatReceived { contact_id, message_id, data, msg_num } => heartbeat_may(
            engine,
            o,
            contact_id,
            message_id,
            data,
            msg_num,
            now,
            next,
            actions,
        ),
        EventView::TeardownRequested { contact_id, cause } => (next, actions) == asking::teardown_asked(
            o,
            contact_id,
            cause,
            now,
        ),
        EventView::PeerToreDown { contact_id } => next == asking::peer_tore_down(o, contact_id, now)
            && actions.len() == 0,
        EventView::HealAttempted { contact_id } => (next, actions) == asking::heal_attempted(
            o,
            contact_id,
        ),
        EventView::ReopenRequested { contact_id } => (next, actions) == asking::reopen_asked(
            o,
            contact_id,
            now,
        ),
        EventView::SriAnnounced { contact_id } => (next, actions) == asking::announced(
            o,
            contact_id,
            now,
        ),
        EventView::ResetInitArrived { contact_id, init_ephemeral, sent_at_s, established_at_s }
            => (next, actions) == asking::reset_init_arrived(
            o,
            contact_id,
            init_ephemeral,
            sent_at_s,
            established_at_s,
        ),
        EventView::PeerAcked { contact_id } => next == orchestrator::stepped(
            o,
            contact_id,
            now,
            SessionEvent::PeerAcked,
        ) && actions == seq![ActionView::CancelTimer { timer_id: decisions::confirm_timer(contact_id) }],
    }
}

/// The event leads to `mid` and `answer`, and the gates that fell hand back `back`.
pub open spec fn event_outcome<E: CryptoEngine>(
    engine: &E,
    o: OrchView,
    event: EventView,
    now: u64,
    mid: OrchView,
    answer: Seq<ActionView>,
    back: Seq<ActionView>,
    next: OrchView,
    actions: Seq<ActionView>,
) -> bool {
    &&& dispatch_may(engine, o, event, now, mid, answer)
    &&& holds::release_may(mid, now, next, back)
    &&& actions == answer + back
}

/// What an event may lead to.
pub open spec fn event_may<E: CryptoEngine>(
    engine: &E,
    o: OrchView,
    event: EventView,
    now: u64,
    next: OrchView,
    actions: Seq<ActionView>,
) -> bool {
    exists|mid: OrchView, answer: Seq<ActionView>, back: Seq<ActionView>| #[trigger]
        event_outcome(engine, o, event, now, mid, answer, back, next, actions)
}

impl<C: Clock, E: CryptoEngine> Orchestrator<C, E> {
    // ── Coordination state ──────────────────────────────────────────────────

    /// The coordination state at `now` as a binary record.
    pub fn export_orchestrator_state_cfe_at(&self, now: u64) -> (r: Result<Vec<u8>, String>)
        ensures
            state_encoded(
                &self.lifecycle.client.engine,
                self@,
                now,
                vecs::outcome_bytes(r),
            ),
    {
        let locks = self.sessions.opening_device_ids_at(now);
        let ghost lv = locks.deep_view();
        assert(names_openings(lv, self@.machine, now));
        let r = self.lifecycle.export_orchestrator_state_cfe(&locks);
        let ghost s = choose|s: StateView|
            session_lifecycle::records_state(
                s,
                self@.life,
                lv,
            ) && #[trigger] engine::said_encode_state(
                &self.lifecycle.client.engine,
                s,
                vecs::outcome_bytes(r),
            );
        assert(engine::said_encode_state(&self.lifecycle.client.engine, s, vecs::outcome_bytes(r)));
        r
    }

    /// The coordination state as a binary record: what was healed and archived, the prekeys seen,
    /// and the openings in flight.
    pub fn export_orchestrator_state_cfe(&self) -> (r: Result<Vec<u8>, String>)
        ensures
            exists|now: u64| #[trigger]
                self.reads(now) && state_encoded(
                    &self.lifecycle.client.engine,
                    self@,
                    now,
                    vecs::outcome_bytes(r),
                ),
    {
        let now: u64 = self.now_ms();
        self.export_orchestrator_state_cfe_at(now)
    }

    /// Replaces the coordination state by that of a binary record.
    pub fn import_orchestrator_state_cfe(&mut self, data: &[u8]) -> (r: Result<(), String>)
        ensures
            exists|d: Result<StateView, Seq<char>>, now: u64| #[trigger]
                old(self).reads(now) && #[trigger] engine::said_decode_state(
                    &old(self).lifecycle.client.engine,
                    data@,
                    d,
                ) && (
                final(self)@,
                vecs::outcome_unit(r),
                ) == state_imported(old(self)@, d, now),
            final(self).lifecycle.client.engine == old(self).lifecycle.client.engine,
            final(self).same_clocks(*old(self)),
    {
        let ghost o = self@;
        let ghost e = self.lifecycle.client.engine;
        let now: u64 = self.now_ms();
        let imported = self.lifecycle.import_orchestrator_state_cfe_at(data, now);
        let ghost d = choose|d: Result<StateView, Seq<char>>| #[trigger]
            engine::said_decode_state(
                &e,
                data@,
                d,
            ) && (self.lifecycle@, vecs::outcome(imported)) == session_lifecycle::state_decoded(
                o.life,
                d,
                now,
            );
        let ghost step = state_imported(o, d, now);
        match imported {
            Err(f) => Err(f),
            Ok(locks) => {
                self.sessions.restore_opening_at(locks, now);
                Ok(())
            },
        }
    }

    // ── Messages ────────────────────────────────────────────────────────────

    fn handle_message_received(
        &mut self,
        message_id: String,
        from: String,
        data: Vec<u8>,
        msg_num: u32,
        kem_ct: Vec<u8>,
        is_control: bool,
        content_type: u8,
        now: u64,
    ) -> (r: Vec<Action>)
        ensures
            received_message_may(
                &old(self).lifecycle.client.engine,
                old(self)@,
                message_id@,
                from@,
                data@,
                msg_num,
                kem_ct@,
                is_control,
                content_type,
                now,
                final(self)@,
                r.deep_view(),
            ),
            final(self).lifecycle.client.engine == old(self).lifecycle.client.engine,
            final(self).same_clocks(*old(self)),
    {
        let ghost o = self@;
        let ghost e = self.lifecycle.client.engine;
        let mut msg_number: u32 = msg_num;
        if !is_control {
            match unpack(data.as_slice()) {
                Ok(d) => {
                    msg_number = d.message_number;
                },
                Err(f) => {
                    if msg_num == 0 && kem_ct.len() == 0 {
                        let text = f.to_text();
                        let text = join3(text.as_str(), " (message ", message_id.as_str());
                        let text = join3(text.as_str(), " from ", from.as_str());
                        return vecs::one(
                            Action::NotifyError {
                                code: "MALFORMED_WIRE_PAYLOAD".to_owned(),
                                message: join(text.as_str(), ")"),
                            },
                        );
                    }
                },
            }
        }
        assert(routing_number(data@, msg_num, kem_ct@, is_control) == Ok::<u32, WirePayloadError>(
            msg_number,
        ));
        let incoming = IncomingMessage {
            contact_id: from,
            wire_payload: data,
            message_id,
            msg_number,
            is_control,
            content_type,
        };
        let ghost m = incoming.deep_view();
        let decision = self.router.route_message_at(&mut self.lifecycle, &incoming, now);
        let ghost r2 = self.router@;
        let ghost l2 = self.lifecycle@;
        let ghost d = decision.deep_view();
        assert(self@ =~= orchestrator::with_core(o, r2, l2));
        let save = match &decision {
            RoutingDecision::Decrypted { .. } => true,
            RoutingDecision::SessionHealNeeded { .. } => true,
            RoutingDecision::NeedSessionInit { .. } => true,
            RoutingDecision::EndSessionNeeded { .. } => true,
            _ => false,
        };
        let mut actions = self.decision_to_actions_at(decision, now);
        let ghost answer = actions.deep_view();
        let ghost mut saved: Result<Seq<u8>, Seq<char>> = Err(Seq::empty());
        if save {
            let state = self.export_orchestrator_state_cfe_at(now);
            proof {
                saved = vecs::outcome_bytes(state);
            }
            if let Ok(bytes) = state {
                vecs::push(
                    &mut actions,
                    Action::SaveToSecureStore {
                        slot: SecureStoreSlot::OrchestratorState,
                        data: bytes,
                    },
                );
            }
            assert(actions.deep_view() =~= answer + save_state(saved));
        }
        assert(routed_outcome(
            &e,
            o,
            m,
            now,
            r2,
            l2,
            d,
            saved,
            self@,
            actions.deep_view(),
        ));
        actions
    }

    /// Answers a heartbeat that was routed.
    pub fn answer_heartbeat(&mut self, decision: RoutingDecision, now: u64) -> (r: Vec<Action>)
        ensures
            (final(self)@, r.deep_view()) == heartbeat_answered(
                old(self)@,
                decision.deep_view(),
                now,
            ),
            final(self).lifecycle.client.engine == old(self).lifecycle.client.engine,
            final(self).same_clocks(*old(self)),
    {
        match decision {
            // The session is healthy.
            RoutingDecision::Decrypted { .. } => vecs::none(),
            RoutingDecision::SessionHealNeeded {
                contact_id,
                role,
                is_handshake,
                reason,
                refused,
            } => {
                if is_handshake {
                    return self.decision_to_actions_at(
                        RoutingDecision::SessionHealNeeded {
                            contact_id,
                            role,
                            is_handshake,
                            reason,
                            refused,
                        },
                        now,
                    );
                }
                if self.sessions.awaits_acknowledgement_at(contact_id.as_str(), now) {
                    self.hold_behind_confirm(contact_id.as_str(), refused);
                    return vecs::two(
                        Action::HeldPendingAck { contact_id },
                        decrypt_failed(reason),
                    );
                }
                let effect = self.sessions.handle_at(
                    contact_id.as_str(),
                    SessionEvent::WantToHeal,
                    now,
                );
                match effect {
                    SessionEffect::DeferHeal { retry_after_ms } => vecs::two(
                        Action::HealSuppressed { contact_id, retry_after_ms },
                        decrypt_failed(reason),
                    ),
                    _ => {
                        self.router.hold_for_open(refused.message);
                        vecs::two(
                            Action::SessionHealNeeded {
                                contact_id,
                                role: role.as_wire().to_owned(),
                            },
                            decrypt_failed(reason),
                        )
                    },
                }
            },
            other => self.decision_to_actions_at(other, now),
        }
    }

    fn handle_heartbeat_received(
        &mut self,
        contact_id: String,
        message_id: String,
        data: Vec<u8>,
        msg_num: u32,
        now: u64,
    ) -> (r: Vec<Action>)
        ensures
            heartbeat_may(
                &old(self).lifecycle.client.engine,
                old(self)@,
                contact_id@,
                message_id@,
                data@,
                msg_num,
                now,
                final(self)@,
                r.deep_view(),
            ),
            final(self).lifecycle.client.engine == old(self).lifecycle.client.engine,
            final(self).same_clocks(*old(self)),
    {
        let ghost o = self@;
        let ghost e = self.lifecycle.client.engine;
        let incoming = IncomingMessage {
            contact_id,
            wire_payload: data,
            message_id,
            msg_number: msg_num,
            is_control: false,
            content_type: CT_HEARTBEAT,
        };
        let decision = self.router.route_message_at(&mut self.lifecycle, &incoming, now);
        let ghost r2 = self.router@;
        let ghost l2 = self.lifecycle@;
        let ghost d = decision.deep_view();
        assert(self@ =~= orchestrator::with_core(o, r2, l2));
        let actions = self.answer_heartbeat(decision, now);
        assert(heartbeat_outcome(
            &e,
            o,
            incoming.deep_view(),
            now,
            r2,
            l2,
            d,
            self@,
            actions.deep_view(),
        ));
        actions
    }

    fn handle_ack_db_result(&mut self, message_id: String, is_processed: bool, now: u64) -> (r: Vec<
        Action,
    >)
        ensures
            resumed_may(
                &old(self).lifecycle.client.engine,
                old(self)@,
                message_id@,
                is_processed,
                now,
                final(self)@,
                r.deep_view(),
            ),
            final(self).lifecycle.client.engine == old(self).lifecycle.client.engine,
            final(self).same_clocks(*old(self)),
    {
        let ghost o = self@;
        let ghost e = self.lifecycle.client.engine;
        let decision = self.router.resume_after_ack_check_at(
            message_id.as_str(),
            is_processed,
            &mut self.lifecycle,
            now,
        );
        let ghost r2 = self.router@;
        let ghost l2 = self.lifecycle@;
        let ghost d = decision.deep_view();
        assert(self@ =~= orchestrator::with_core(o, r2, l2));
        let actions = self.decision_to_actions_at(decision, now);
        assert(resumed_outcome(
            &e,
            o,
            message_id@,
            is_processed,
            now,
            r2,
            l2,
            d,
            self@,
            actions.deep_view(),
        ));
        actions
    }

    fn handle_app_launched() -> (r: Vec<Action>)
        ensures
            r.deep_view() == launch_timers(),
    {
        let mut actions = vecs::two(
            Action::ScheduleTimer { timer_id: "gc_sweep".to_owned(), delay_ms: 5_000 },
            Action::ScheduleTimer { timer_id: "prewarm_sweep".to_owned(), delay_ms: 2_000 },
        );
        vecs::push(
            &mut actions,
            Action::ScheduleTimer {
                timer_id: "pq_upgrade_sweep".to_owned(),
                delay_ms: PQ_UPGRADE_SWEEP_DELAY_MS,
            },
        );
        assert(actions.deep_view() =~= launch_timers());
        actions
    }

    // ── Dispatch ────────────────────────────────────────────────────────────

    fn dispatch_event(&mut self, event: IncomingEvent, now: u64) -> (r: Vec<Action>)
        ensures
            dispatch_may(
                &old(self).lifecycle.client.engine,
                old(self)@,
                event.deep_view(),
                now,
                final(self)@,
                r.deep_view(),
            ),
            final(self).lifecycle.client.engine == old(self).lifecycle.client.engine,
            final(self).same_clocks(*old(self)),
    {
        match event {
            IncomingEvent::MessageReceived {
                message_id,
                from,
                data,
                msg_num,
                kem_ct,
                otpk_id: _,
                is_control,
                content_type,
            } => self.handle_message_received(
                message_id,
                from,
                data,
                msg_num,
                kem_ct,
                is_control,
                content_type,
                now,
            ),
            IncomingEvent::OutgoingMessage {
                contact_id,
                message_id,
                plaintext,
                content_type,
            } => self.handle_outgoing_message(contact_id, message_id, plaintext, content_type),
            IncomingEvent::OutgoingCallSignal {
                contact_id,
                message_id,
                proto_bytes,
            } => self.handle_outgoing_call_signal(contact_id, message_id, proto_bytes),
            IncomingEvent::SessionInitCompleted {
                contact_id,
                session_data,
            } => self.handle_session_init_completed(contact_id, session_data, now),
            IncomingEvent::AckReceived { message_id } => vecs::one(
                Action::MarkMessageDelivered { message_id },
            ),
            IncomingEvent::KeyBundleFetched { user_id, bundle_json } => vecs::one(
                Action::InitSession { contact_id: user_id, bundle_json },
            ),
            IncomingEvent::NetworkReconnected => self.handle_network_reconnected(now),
            IncomingEvent::AppLaunched => Self::handle_app_launched(),
            IncomingEvent::TimerFired { timer_id } => self.handle_timer_fired(timer_id, now),
            IncomingEvent::AckDbResult {
                message_id,
                is_processed,
            } => self.handle_ack_db_result(message_id, is_processed, now),
            IncomingEvent::HeartbeatReceived {
                contact_id,
                message_id,
                data,
                msg_num,
            } => self.handle_heartbeat_received(contact_id, message_id, data, msg_num, now),
            IncomingEvent::TeardownRequested {
                contact_id,
                cause,
            } => self.handle_teardown_requested(contact_id, cause, now),
            IncomingEvent::PeerToreDown { contact_id } => {
                self.handle_peer_tore_down(contact_id.as_str(), now);
                vecs::none()
            },
            IncomingEvent::HealAttempted { contact_id } => self.handle_heal_attempted(contact_id),
            IncomingEvent::ReopenRequested { contact_id } => self.handle_reopen_requested(
                contact_id,
                now,
            ),
            IncomingEvent::SriAnnounced { contact_id } => self.handle_sri_announced(
                contact_id,
                now,
            ),
            IncomingEvent::ResetInitArrived {
                contact_id,
                init_ephemeral,
                sent_at_s,
                established_at_s,
            } => self.handle_reset_init(contact_id, init_ephemeral, sent_at_s, established_at_s),
            IncomingEvent::PeerAcked { contact_id } => {
                let _ = self.sessions.handle_at(
                    contact_id.as_str(),
                    SessionEvent::PeerAcked,
                    now,
                );
                vecs::one(
                    Action::CancelTimer { timer_id: join("open_confirm:", contact_id.as_str()) },
                )
            },
        }
    }

    /// Handles an event at `now`.
    pub fn handle_event_at(&mut self, event: IncomingEvent, now: u64) -> (r: Vec<Action>)
        ensures
            event_may(
                &old(self).lifecycle.client.engine,
                old(self)@,
                event.deep_view(),
                now,
                final(self)@,
                r.deep_view(),
            ),
            final(self).lifecycle.client.engine == old(self).lifecycle.client.engine,
            final(self).same_clocks(*old(self)),
    {
        let ghost o = self@;
        let ghost e = self.lifecycle.client.engine;
        let ghost ev = event.deep_view();
        let mut actions = self.dispatch_event(event, now);
        let ghost mid = self@;
        let ghost answer = actions.deep_view();
        let back = self.release_confirm_holds_at(now);
        let ghost bv = back.deep_view();
        vecs::append(&mut actions, back);
        assert(event_outcome(
            &e,
            o,
            ev,
            now,
            mid,
            answer,
            bv,
            self@,
            actions.deep_view(),
        ));
        actions
    }

    /// Unified event handler — the **only** method the platform needs to call.
    ///
    /// Returns a list of actions that the platform must execute in order. After executing I/O
    /// actions, the platform feeds results back via further calls. Whatever the event, the gates
    /// that fell hand back what they held.
    pub fn handle_event(&mut self, event: IncomingEvent) -> (r: Vec<Action>)
        ensures
            exists|now: u64| #[trigger]
                old(self).reads(now) && event_may(
                    &old(self).lifecycle.client.engine,
                    old(self)@,
                    event.deep_view(),
                    now,
                    final(self)@,
                    r.deep_view(),
                ),
            final(self).lifecycle.client.engine == old(self).lifecycle.client.engine,
            final(self).same_clocks(*old(self)),
    {
        let now: u64 = self.now_ms();
        self.handle_event_at(event, now)
    }
}

// ── Laws ────────────────────────────────────────────────────────────────────

/// A payload that cannot be read, with nothing to fall back on, is reported and raises nothing:
/// no heal, no fetch, no teardown.
pub proof fn a_malformed_payload_raises_no_heal<E: CryptoEngine>(
    engine: &E,
    o: OrchView,
    message_id: Seq<char>,
    from: Seq<char>,
    data: Seq<u8>,
    now: u64,
    content_type: u8,
    next: OrchView,
    actions: Seq<ActionView>,
)
    requires
        wire_payload::decode(data) is Err,
        received_message_may(
            engine,
            o,
            message_id,
            from,
            data,
            0,
            Seq::empty(),
            false,
            content_type,
            now,
            next,
            actions,
        ),
    ensures
        next == o,
        actions.len() == 1,
        actions[0] is NotifyError,
{
}

/// A heartbeat the ratchet refuses reports its cause as any other message does.
pub proof fn a_refused_heartbeat_reports_its_cause(
    o: OrchView,
    d: DecisionView,
    reason: Seq<char>,
    now: u64,
)
    requires
        decisions::refusal_reason(d) == Some(reason),
    ensures
        heartbeat_answered(o, d, now).1.len() > 0,
        heartbeat_answered(o, d, now).1.last() == decisions::decrypt_failed_view(reason),
{
}

/// A coordination record that cannot be read changes nothing.
pub proof fn an_unreadable_state_changes_nothing(o: OrchView, e: Seq<char>, now: u64)
    ensures
        state_imported(o, Err(e), now) == (o, Err::<(), Seq<char>>(e)),
{
}

/// An opening in flight survives a restart, and only those do: after the record of `o` is loaded
/// into `other`, exactly the devices that were opening are.
pub proof fn openings_survive_a_restart(
    o: OrchView,
    s: StateView,
    locks: Seq<Seq<char>>,
    other: OrchView,
    contact: Seq<char>,
    then: u64,
    now: u64,
)
    requires
        names_openings(locks, o.machine, then),
        session_lifecycle::records_state(s, o.life, locks),
    ensures
        session_machine::phase_at(state_imported(other, Ok(s), now).0.machine, contact, now)
            is Opening <==> session_machine::phase_at(o.machine, contact, then) is Opening,
{
    let m = session_machine::restored(other.machine, s.init_locks, now);
    assert(locks.contains(contact) <==> session_machine::phase_at(o.machine, contact, then)
        is Opening);
    assert(state_imported(other, Ok::<StateView, Seq<char>>(s), now).0.machine == m);
}

/// With an engine that reads back the states it wrote, the exported coordination state is what is
/// known after it is imported, whatever was known before: exactly the devices that were opening
/// are, from now on and without an announcement; the archives, prekeys, pins and heals are those
/// that were exported; and of no message the cache says whether it was processed.
pub proof fn an_exported_state_survives_a_restart<E: CryptoEngine, R: CryptoEngine>(
    engine: &E,
    reader: &R,
    o: OrchView,
    then: u64,
    record: Seq<u8>,
    other: OrchView,
    d: Result<StateView, Seq<char>>,
    now: u64,
    contact: Seq<char>,
    message_id: Seq<char>,
)
    requires
        engine::keeps_states(engine, reader),
        healing_queue::keyed(o.life.healing),
        state_encoded(engine, o, then, Ok(record)),
        engine::said_decode_state(reader, record, d),
    ensures
        ({
            let (next, result) = state_imported(other, d, now);
            &&& result is Ok
            &&& next.life.archives == o.life.archives
            &&& next.life.archive_times == o.life.archive_times
            &&& next.life.prekeys == o.life.prekeys
            &&& next.life.pins == o.life.pins
            &&& next.life.healing.records == o.life.healing.records
            &&& session_machine::phase_at(next.machine, contact, now) is Opening
                <==> session_machine::phase_at(o.machine, contact, then) is Opening
            &&& session_machine::phase_at(next.machine, contact, now) is Opening ==> str_map::lookup(
                next.machine.phases,
                contact,
            ) == Some(Phase::Opening { since_ms: now, unacked_sri: 0 })
            &&& !session_machine::gate_up(next.machine, contact, now)
            &&& ack_store::ack_check(next.life.ack, message_id) is NeedDbCheck
        }),
{
    let (locks, s) = choose|locks: Seq<Seq<char>>, s: StateView|
        #![trigger
            names_openings(locks, o.machine, then),
            engine::said_encode_state(engine, s, Ok::<Seq<u8>, Seq<char>>(record))]
        names_openings(locks, o.machine, then) && session_lifecycle::records_state(s, o.life, locks)
            && engine::said_encode_state(engine, s, Ok::<Seq<u8>, Seq<char>>(record));
    assert(d == Ok::<StateView, Seq<char>>(s));
    session_lifecycle::a_loaded_state_is_the_state_recorded(s, o.life, locks, other.life, now);
    openings_survive_a_restart(o, s, locks, other, contact, then, now);
}

/// With an engine whose record of a state has a length that does not depend on the order it lists
/// things in, the exported coordination state does not grow with the messages that were processed:
/// whatever is in the cache, and as long as the same devices are opening, the record is as long.
pub proof fn processed_messages_do_not_lengthen_the_record<E: CryptoEngine>(
    engine: &E,
    o: OrchView,
    now: u64,
    record: Seq<u8>,
    marked: OrchView,
    later: u64,
    longer: Seq<u8>,
)
    requires
        engine::sizes_by_content(engine),
        healing_queue::keyed(o.life.healing),
        state_encoded(engine, o, now, Ok(record)),
        marked == (OrchView { life: LifeView { ack: marked.life.ack, ..o.life }, ..o }),
        forall|k: Seq<char>|
            (#[trigger] session_machine::phase_at(o.machine, k, now)) is Opening
                <==> session_machine::phase_at(o.machine, k, later) is Opening,
        state_encoded(engine, marked, later, Ok(longer)),
    ensures
        longer.len() == record.len(),
{
    let (locks, s) = choose|locks: Seq<Seq<char>>, s: StateView|
        #![trigger
            names_openings(locks, o.machine, now),
            engine::said_encode_state(engine, s, Ok::<Seq<u8>, Seq<char>>(record))]
        names_openings(locks, o.machine, now) && session_lifecycle::records_state(s, o.life, locks)
            && engine::said_encode_state(engine, s, Ok::<Seq<u8>, Seq<char>>(record));
    let (others, t) = choose|others: Seq<Seq<char>>, t: StateView|
        #![trigger
            names_openings(others, marked.machine, later),
            engine::said_encode_state(engine, t, Ok::<Seq<u8>, Seq<char>>(longer))]
        names_openings(others, marked.machine, later) && session_lifecycle::records_state(
            t,
            marked.life,
            others,
        ) && engine::said_encode_state(engine, t, Ok::<Seq<u8>, Seq<char>>(longer));
    assert(session_lifecycle::records_state(t, o.life, others));
    assert forall|k: Seq<char>| #[trigger] locks.contains(k) <==> others.contains(k) by {
        assert(session_machine::phase_at(o.machine, k, now) is Opening
            <==> session_machine::phase_at(o.machine, k, later) is Opening);
    }
    session_lifecycle::records_of_one_state_list_the_same(s, t, o.life, locks, others);
}

/// With an engine that reads back the states it wrote, the record of a coordination state names no
/// processed message, and names exactly the devices that are opening.
pub proof fn a_recorded_state_names_its_openings<E: CryptoEngine, R: CryptoEngine>(
    engine: &E,
    reader: &R,
    o: OrchView,
    now: u64,
    record: Seq<u8>,
    d: Result<StateView, Seq<char>>,
    contact: Seq<char>,
)
    requires
        engine::keeps_states(engine, reader),
        state_encoded(engine, o, now, Ok(record)),
        engine::said_decode_state(reader, record, d),
    ensures
        d matches Ok(s) && s.processed_ids.len() == 0 && (s.init_locks.contains(contact)
            <==> session_machine::phase_at(o.machine, contact, now) is Opening),
{
    let (locks, s) = choose|locks: Seq<Seq<char>>, s: StateView|
        #![trigger
            names_openings(locks, o.machine, now),
            engine::said_encode_state(engine, s, Ok::<Seq<u8>, Seq<char>>(record))]
        names_openings(locks, o.machine, now) && session_lifecycle::records_state(s, o.life, locks)
            && engine::said_encode_state(engine, s, Ok::<Seq<u8>, Seq<char>>(record));
    assert(d == Ok::<StateView, Seq<char>>(s));
    assert(locks.contains(contact) <==> session_machine::phase_at(o.machine, contact, now)
        is Opening);
}

/// No event lets a control frame wait for a session or for the durable store: a control frame is
/// acted on when it arrives, and what is drained later are messages only.
pub proof fn no_event_lets_a_control_frame_wait<E: CryptoEngine>(
    engine: &E,
    o: OrchView,
    event: EventView,
    now: u64,
    next: OrchView,
    actions: Seq<ActionView>,
)
    requires
        message_router::only_messages_wait(o.router),
        event_may(engine, o, event, now, next, actions),
    ensures
        message_router::only_messages_wait(next.router),
{
    let (mid, answer, back) = choose|
        mid: OrchView,
        answer: Seq<ActionView>,
        back: Seq<ActionView>,
    | #[trigger]
        event_outcome(engine, o, event, now, mid, answer, back, next, actions);
    match event {
        EventView::MessageReceived {
            message_id,
            from,
            data,
            msg_num,
            kem_ct,
            otpk_id,
            is_control,
            content_type,
        } => {
            if routing_number(data, msg_num, kem_ct, is_control) is Ok {
                let m = MessageView {
                    contact_id: from,
                    wire_payload: data,
                    message_id,
                    msg_number: routing_number(data, msg_num, kem_ct, is_control)->Ok_0,
                    is_control,
                    content_type,
                };
                let (r2, l2, d, saved) = choose|
                    r2: RouterView,
                    l2: LifeView,
                    d: DecisionView,
                    saved: Result<Seq<u8>, Seq<char>>,
                | #[trigger]
                    routed_outcome(engine, o, m, now, r2, l2, d, saved, mid, answer);
                message_router::routing_keeps_only_messages(
                    engine,
                    o.router,
                    o.life,
                    m,
                    now,
                    r2,
                    l2,
                    d,
                );
                decisions::an_answer_queues_only_what_was_refused(
                    orchestrator::with_core(o, r2, l2),
                    d,
                    now,
                    from,
                    message_id,
                );
            }
        },
        EventView::HeartbeatReceived { contact_id, message_id, data, msg_num } => {
            let m = MessageView {
                contact_id,
                wire_payload: data,
                message_id,
                msg_number: msg_num,
                is_control: false,
                content_type: CT_HEARTBEAT,
            };
            let (r2, l2, d) = choose|r2: RouterView, l2: LifeView, d: DecisionView| #[trigger]
                heartbeat_outcome(engine, o, m, now, r2, l2, d, mid, answer);
            message_router::routing_keeps_only_messages(
                engine,
                o.router,
                o.life,
                m,
                now,
                r2,
                l2,
                d,
            );
            decisions::an_answer_queues_only_what_was_refused(
                orchestrator::with_core(o, r2, l2),
                d,
                now,
                contact_id,
                message_id,
            );
            if message_router::refused_message(d) is Some {
                let x = message_router::refused_message(d)->Some_0.message;
                message_router::control_frames_never_wait(
                    r2,
                    x,
                    contact_id,
                    contact_id,
                    message_id,
                );
            }
        },
        EventView::AckDbResult { message_id, is_processed } => {
            let (r2, l2, d) = choose|r2: RouterView, l2: LifeView, d: DecisionView| #[trigger]
                resumed_outcome(
                    engine,
                    o,
                    message_id,
                    is_processed,
                    now,
                    r2,
                    l2,
                    d,
                    mid,
                    answer,
                );
            message_router::resuming_keeps_only_messages(
                engine,
                o.router,
                o.life,
                message_id,
                is_processed,
                now,
                r2,
                l2,
                d,
            );
            decisions::an_answer_queues_only_what_was_refused(
                orchestrator::with_core(o, r2, l2),
                d,
                now,
                message_id,
                message_id,
            );
        },
        EventView::SessionInitCompleted { contact_id, session_data } => {
            let (l2, imported) = choose|l2: LifeView, imported: Result<(), Seq<char>>| #[trigger]
                settling::completed_outcome(
                    engine,
                    o,
                    contact_id,
                    session_data,
                    now,
                    l2,
                    imported,
                    mid,
                    answer,
                );
            if imported is Ok {
                let held = OrchView {
                    life: l2,
                    ..settling::opening_over(o, contact_id, now)
                };
                let (x, drained) = choose|
                    x: Result<Seq<u8>, Seq<char>>,
                    drained: Seq<ActionView>,
                | #[trigger]
                    settling::settled_outcome(
                        engine,
                        held,
                        contact_id,
                        now,
                        x,
                        drained,
                        mid,
                        answer,
                    );
                settling::a_drain_keeps_only_messages(
                    engine,
                    held,
                    contact_id,
                    now,
                    mid,
                    drained,
                );
            }
        },
        EventView::NetworkReconnected => {
            let (order, drained) = choose|order: Seq<Seq<char>>, drained: Seq<ActionView>|
                #![trigger settling::drained_all_may(engine, o, order, now, mid, drained)]
                settling::drained_all_may(engine, o, order, now, mid, drained);
            settling::drains_keep_only_messages(engine, o, order, now, mid, drained);
        },
        EventView::HealAttempted { contact_id } => {
            let n = message_router::with_queue(o.router, contact_id, Seq::empty());
            assert forall|k: Seq<char>| #[trigger] n.queues.contains_key(
                k,
            ) implies message_router::only_messages_of(n.queues[k], k) by {
                assert(o.router.queues.contains_key(k));
            }
        },
        EventView::TimerFired { timer_id } => {
            timers::an_alarm_moves_no_message(o, timer_id, now, mid, answer);
        },
        _ => {},
    }
}

} // verus!
