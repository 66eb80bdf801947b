//! From a routing decision to the actions that answer it.

use vstd::prelude::*;

use crate::crypto::engine::CryptoEngine;
use crate::orchestration::actions::{Action, ActionView};
use crate::orchestration::clock::Clock;
use crate::orchestration::message_router::{self, DecisionView, RefusedView, RoutingDecision};
use crate::orchestration::orchestrator::holds;
use crate::orchestration::orchestrator::{self, OrchView, Orchestrator};
use crate::orchestration::session_lifecycle;
use crate::orchestration::session_machine::{
    self, Effect as SessionEffect, Event as SessionEvent, TearDownCause,
};
use crate::strings::{self, join, take_chars};
use crate::vecs;

verus! {

/// `NotifyError` code for a decrypt the ratchet refused. The message is the ratchet's own error.
pub const DECRYPT_FAILED: &'static str = "decrypt_failed";

/// The content type of a call signal.
pub const CT_CALL_SIGNAL: u8 = 12;

/// The content type of a heartbeat.
pub const CT_HEARTBEAT: u8 = 13;

/// The content type of a delivery receipt.
pub const CT_DELIVERY_RECEIPT: u8 = 14;

/// How many characters of a message its notification shows.
pub const PREVIEW_CHARS: usize = 50;

// ── Preview ─────────────────────────────────────────────────────────────────

/// `data` as text, with what is not UTF-8 replaced.
pub uninterp spec fn lossy_text(data: Seq<u8>) -> Seq<char>;

/// `String::from_utf8_lossy`: the text of `data`, which depends on `data` alone. What is not UTF-8
/// is replaced, and data that is UTF-8 throughout is decoded as it stands.
#[verifier::external_body]
fn text_of(data: &[u8]) -> (r: String)
    ensures
        r@ == lossy_text(data@),
        vstd::utf8::valid_utf8(data@) ==> r@ == vstd::utf8::decode_utf8(data@),
{
    String::from_utf8_lossy(data).into_owned()
}

/// What the notification of a message shows of it.
pub open spec fn preview_of(plaintext: Seq<u8>) -> Seq<char> {
    strings::first_chars(lossy_text(plaintext), PREVIEW_CHARS as int)
}

/// The beginning of a text, as a notification shows it.
pub fn preview_text(text: &str) -> (r: String)
    ensures
        r@ == strings::first_chars(text@, PREVIEW_CHARS as int),
{
    take_chars(text, PREVIEW_CHARS)
}

fn preview(plaintext: &[u8]) -> (r: String)
    ensures
        r@ == preview_of(plaintext@),
{
    let text = text_of(plaintext);
    preview_text(text.as_str())
}

// ── Actions ─────────────────────────────────────────────────────────────────

/// The request to be woken.
pub open spec fn schedule(timer_id: Seq<char>, delay_ms: u64) -> ActionView {
    ActionView::ScheduleTimer { timer_id, delay_ms }
}

/// The alarm that pays the teardown owed to a device.
pub open spec fn cooldown_timer(contact: Seq<char>) -> Seq<char> {
    "cooldown_expired:"@ + contact
}

/// The alarm that opens a session once the wait for the peer's has had its moment.
pub open spec fn reopen_timer(contact: Seq<char>) -> Seq<char> {
    "reopen:"@ + contact
}

/// The alarm that ends the wait for an answer to our announcement.
pub open spec fn confirm_timer(contact: Seq<char>) -> Seq<char> {
    "open_confirm:"@ + contact
}

/// The cause of a refused decrypt, for the log.
pub open spec fn decrypt_failed_view(reason: Seq<char>) -> ActionView {
    session_lifecycle::notify_error(DECRYPT_FAILED@, reason)
}

/// The cause of a refused decrypt, for the log.
pub fn decrypt_failed(reason: String) -> (r: Action)
    ensures
        r.deep_view() == decrypt_failed_view(reason@),
{
    Action::NotifyError { code: DECRYPT_FAILED.to_owned(), message: reason }
}

/// The state after the ratchet a deferred teardown condemns was named.
pub open spec fn condemned_active(o: OrchView, contact: Seq<char>) -> OrchView {
    orchestrator::with_machine(
        o,
        session_machine::condemn_step(
            o.machine,
            contact,
            session_lifecycle::session_id_of(o.life, contact),
        ),
    )
}

/// The answer to a message that was decrypted.
pub open spec fn delivered(
    contact: Seq<char>,
    message_id: Seq<char>,
    plaintext: Seq<u8>,
    content_type: u8,
    actions: Seq<ActionView>,
) -> Seq<ActionView> {
    if content_type == CT_CALL_SIGNAL {
        actions.push(
            ActionView::CallSignalDecrypted {
                contact_id: contact,
                message_id,
                proto_bytes: plaintext,
            },
        )
    } else {
        let told = if content_type != CT_HEARTBEAT && content_type != CT_DELIVERY_RECEIPT {
            actions.push(
                ActionView::NotifyNewMessage { chat_id: contact, preview: preview_of(plaintext) },
            )
        } else {
            actions
        };
        told.push(ActionView::MessageDecrypted { contact_id: contact, message_id, plaintext })
    }
}

/// The answer to a message that waits for a session.
pub open spec fn opening_asked(o: OrchView, contact: Seq<char>, queued_count: usize, now: u64) -> (
    OrchView,
    Seq<ActionView>,
) {
    let (machine, effect) = session_machine::machine_step(
        o.machine,
        contact,
        now,
        SessionEvent::WantToOpen,
    );
    let waits = ActionView::MessageQueuedPendingInit {
        contact_id: contact,
        queued_count: queued_count as u32,
    };
    (
        orchestrator::with_machine(o, machine),
        match effect {
            SessionEffect::WaitForOpen => seq![waits],
            SessionEffect::DeferOpen { retry_after_ms } => seq![
                waits,
                schedule(reopen_timer(contact), retry_after_ms),
            ],
            _ => seq![ActionView::FetchPublicKeyBundle { user_id: contact }],
        },
    )
}

/// The answer to a message the session must be rebuilt from.
pub open spec fn heal_asked(
    o: OrchView,
    contact: Seq<char>,
    role: Seq<char>,
    is_handshake: bool,
    refused: RefusedView,
    now: u64,
) -> (OrchView, Seq<ActionView>) {
    if !is_handshake && session_machine::gate_up(o.machine, contact, now) {
        (
            holds::hold_step(o, contact, refused),
            seq![ActionView::HeldPendingAck { contact_id: contact }],
        )
    } else {
        let (machine, effect) = session_machine::machine_step(
            o.machine,
            contact,
            now,
            SessionEvent::WantToHeal,
        );
        let next = orchestrator::with_machine(o, machine);
        match effect {
            SessionEffect::DeferHeal { retry_after_ms } => (
                next,
                seq![
                    ActionView::HealSuppressed { contact_id: contact, retry_after_ms },
                    schedule(cooldown_timer(contact), retry_after_ms),
                ],
            ),
            _ => (
                OrchView { router: message_router::held_for_open(
                    next.router,
                    refused.message,
                ), ..next },
                seq![ActionView::SessionHealNeeded { contact_id: contact, role }],
            ),
        }
    }
}

/// The answer to a message whose session is gone.
pub open spec fn end_asked(o: OrchView, contact: Seq<char>, refused: RefusedView, now: u64) -> (
    OrchView,
    Seq<ActionView>,
) {
    if session_machine::gate_up(o.machine, contact, now) {
        (
            holds::hold_step(o, contact, refused),
            seq![ActionView::HeldPendingAck { contact_id: contact }],
        )
    } else {
        let event = SessionEvent::WantToTearDown { cause: TearDownCause::Unacknowledged };
        let (machine, effect) = session_machine::machine_step(o.machine, contact, now, event);
        let next = orchestrator::with_machine(o, machine);
        match effect {
            SessionEffect::DeferTearDown { retry_after_ms } => (
                condemned_active(next, contact),
                seq![
                    ActionView::EndSessionSuppressed { contact_id: contact, retry_after_ms },
                    schedule(cooldown_timer(contact), retry_after_ms),
                ],
            ),
            _ => (
                next,
                seq![
                    ActionView::SendEndSession { contact_id: contact },
                    ActionView::NotifyLinkedDevicesOfSessionReset { contact_id: contact },
                ],
            ),
        }
    }
}

/// The answer to a routing decision.
pub open spec fn decide(o: OrchView, d: DecisionView, now: u64) -> (OrchView, Seq<ActionView>) {
    match d {
        DecisionView::Decrypted { contact_id, message_id, plaintext, content_type, actions } => (
            o,
            delivered(contact_id, message_id, plaintext, content_type, actions),
        ),
        DecisionView::NeedSessionInit { contact_id, queued_count } => opening_asked(
            o,
            contact_id,
            queued_count,
            now,
        ),
        DecisionView::SessionHealNeeded { contact_id, role, is_handshake, reason, refused }
            => heal_asked(o, contact_id, role.wire(), is_handshake, refused, now),
        DecisionView::EndSessionNeeded { contact_id, reason, refused } => end_asked(
            o,
            contact_id,
            refused,
            now,
        ),
        DecisionView::Duplicate { message_id } => (
            o,
            seq![ActionView::DuplicateDropped { message_id }],
        ),
        DecisionView::PendingAckCheck { message_id } => (
            o,
            seq![ActionView::CheckAckInDb { message_id }],
        ),
        DecisionView::QueueFull { contact_id } => (
            o,
            seq![session_lifecycle::notify_error("QUEUE_FULL"@, "Message queue full for "@ + contact_id)],
        ),
        DecisionView::EndSessionReceived { contact_id, actions } => (o, actions),
        DecisionView::Error { message } => (o, seq![session_lifecycle::notify_error("ROUTING_ERROR"@, message)]),
    }
}

/// Why the ratchet refused, for the decisions a refusal leads to.
pub open spec fn refusal_reason(d: DecisionView) -> Option<Seq<char>> {
    match d {
        DecisionView::SessionHealNeeded { contact_id, role, is_handshake, reason, refused } => Some(
            reason,
        ),
        DecisionView::EndSessionNeeded { contact_id, reason, refused } => Some(reason),
        _ => None,
    }
}

/// The answer to a routing decision, with the cause of a refusal behind it.
pub open spec fn conclude(o: OrchView, d: DecisionView, now: u64) -> (OrchView, Seq<ActionView>) {
    let (next, actions) = decide(o, d, now);
    (
        next,
        match refusal_reason(d) {
            Some(reason) => actions.push(decrypt_failed_view(reason)),
            None => actions,
        },
    )
}

/// The answers to routing decisions, one after the other.
pub open spec fn conclude_all(o: OrchView, ds: Seq<DecisionView>, now: u64) -> (
    OrchView,
    Seq<ActionView>,
)
    decreases ds.len(),
{
    if ds.len() == 0 {
        (o, Seq::empty())
    } else {
        let (mid, before) = conclude_all(o, ds.drop_last(), now);
        let (next, last) = conclude(mid, ds.last(), now);
        (next, before + last)
    }
}

impl<C: Clock, E: CryptoEngine> Orchestrator<C, E> {
    /// Names the ratchet a just-deferred teardown condemns, so the alarm that pays it can tell it
    /// from one established in the meantime.
    pub fn condemn_active_session(&mut self, contact_id: &str)
        ensures
            final(self)@ == condemned_active(old(self)@, contact_id@),
            final(self).lifecycle.client.engine == old(self).lifecycle.client.engine,
            final(self).same_clocks(*old(self)),
    {
        let session = self.lifecycle.active_session_id(contact_id);
        self.sessions.condemn(contact_id, session);
    }

    fn decrypted_actions(
        contact_id: String,
        message_id: String,
        plaintext: Vec<u8>,
        content_type: u8,
        actions: Vec<Action>,
    ) -> (r: Vec<Action>)
        ensures
            r.deep_view() == delivered(
                contact_id@,
                message_id@,
                plaintext@,
                content_type,
                actions.deep_view(),
            ),
    {
        let mut all = actions;
        if content_type == CT_CALL_SIGNAL {
            vecs::push(
                &mut all,
                Action::CallSignalDecrypted { contact_id, message_id, proto_bytes: plaintext },
            );
        } else {
            if content_type != CT_HEARTBEAT && content_type != CT_DELIVERY_RECEIPT {
                vecs::push(
                    &mut all,
                    Action::NotifyNewMessage {
                        chat_id: contact_id.clone(),
                        preview: preview(plaintext.as_slice()),
                    },
                );
            }
            vecs::push(&mut all, Action::MessageDecrypted { contact_id, message_id, plaintext });
        }
        all
    }

    fn open_for_message(&mut self, contact_id: String, queued_count: usize, now: u64) -> (r: Vec<
        Action,
    >)
        ensures
            (final(self)@, r.deep_view()) == opening_asked(
                old(self)@,
                contact_id@,
                queued_count,
                now,
            ),
            final(self).lifecycle.client.engine == old(self).lifecycle.client.engine,
            final(self).same_clocks(*old(self)),
    {
        let effect = self.sessions.handle_at(contact_id.as_str(), SessionEvent::WantToOpen, now);
        #[verifier::truncate]
        let count: u32 = queued_count as u32;
        match effect {
            SessionEffect::WaitForOpen => vecs::one(
                Action::MessageQueuedPendingInit { contact_id, queued_count: count },
            ),
            SessionEffect::DeferOpen { retry_after_ms } => {
                let timer_id = join("reopen:", contact_id.as_str());
                vecs::two(
                    Action::MessageQueuedPendingInit { contact_id, queued_count: count },
                    Action::ScheduleTimer { timer_id, delay_ms: retry_after_ms },
                )
            },
            _ => vecs::one(Action::FetchPublicKeyBundle { user_id: contact_id }),
        }
    }

    /// Answers a routing decision at `now`.
    pub fn decide_actions_at(&mut self, decision: RoutingDecision, now: u64) -> (r: Vec<Action>)
        ensures
            (final(self)@, r.deep_view()) == decide(old(self)@, decision.deep_view(), now),
            final(self).lifecycle.client.engine == old(self).lifecycle.client.engine,
            final(self).same_clocks(*old(self)),
    {
        match decision {
            RoutingDecision::Decrypted {
                contact_id,
                message_id,
                plaintext,
                content_type,
                actions,
            } => Self::decrypted_actions(contact_id, message_id, plaintext, content_type, actions),
            RoutingDecision::NeedSessionInit { contact_id, queued_count } => self.open_for_message(
                contact_id,
                queued_count,
                now,
            ),
            RoutingDecision::SessionHealNeeded {
                contact_id,
                role,
                is_handshake,
                reason: _,
                refused,
            } => {
                // A handshake carrier is exempt from the confirm gate: it is what the wait is
                // waiting for.
                if !is_handshake && self.sessions.awaits_acknowledgement_at(
                    contact_id.as_str(),
                    now,
                ) {
                    self.hold_behind_confirm(contact_id.as_str(), refused);
                    return vecs::one(Action::HeldPendingAck { contact_id });
                }
                let effect = self.sessions.handle_at(
                    contact_id.as_str(),
                    SessionEvent::WantToHeal,
                    now,
                );
                match effect {
                    SessionEffect::DeferHeal { retry_after_ms } => {
                        let timer_id = join("cooldown_expired:", contact_id.as_str());
                        vecs::two(
                            Action::HealSuppressed { contact_id, retry_after_ms },
                            Action::ScheduleTimer { timer_id, delay_ms: retry_after_ms },
                        )
                    },
                    _ => {
                        // The heal rebuilds the session from this message; it waits for that with
                        // everything else that waits for a session.
                        self.router.hold_for_open(refused.message);
                        vecs::one(
                            Action::SessionHealNeeded {
                                contact_id,
                                role: role.as_wire().to_owned(),
                            },
                        )
                    },
                }
            },
            RoutingDecision::EndSessionNeeded { contact_id, reason: _, refused } => {
                if self.sessions.awaits_acknowledgement_at(contact_id.as_str(), now) {
                    self.hold_behind_confirm(contact_id.as_str(), refused);
                    return vecs::one(Action::HeldPendingAck { contact_id });
                }
                let effect = self.sessions.handle_at(
                    contact_id.as_str(),
                    SessionEvent::WantToTearDown { cause: TearDownCause::Unacknowledged },
                    now,
                );
                match effect {
                    SessionEffect::DeferTearDown { retry_after_ms } => {
                        // Owed, not dropped: what recovers the message is the peer re-establishing
                        // and sending it again, which is what the teardown asks for.
                        self.condemn_active_session(contact_id.as_str());
                        let timer_id = join("cooldown_expired:", contact_id.as_str());
                        vecs::two(
                            Action::EndSessionSuppressed { contact_id, retry_after_ms },
                            Action::ScheduleTimer { timer_id, delay_ms: retry_after_ms },
                        )
                    },
                    _ => {
                        let told = contact_id.clone();
                        vecs::two(
                            Action::SendEndSession { contact_id },
                            Action::NotifyLinkedDevicesOfSessionReset { contact_id: told },
                        )
                    },
                }
            },
            RoutingDecision::Duplicate { message_id } => vecs::one(
                Action::DuplicateDropped { message_id },
            ),
            RoutingDecision::PendingAckCheck { message_id } => vecs::one(
                Action::CheckAckInDb { message_id },
            ),
            RoutingDecision::QueueFull { contact_id } => vecs::one(
                Action::NotifyError {
                    code: "QUEUE_FULL".to_owned(),
                    message: join("Message queue full for ", contact_id.as_str()),
                },
            ),
            RoutingDecision::EndSessionReceived { contact_id: _, actions } => actions,
            RoutingDecision::Error { message } => vecs::one(
                Action::NotifyError { code: "ROUTING_ERROR".to_owned(), message },
            ),
        }
    }

    /// Answers a routing decision at `now`; one that a refused decrypt led to also says why it was
    /// refused.
    pub fn decision_to_actions_at(&mut self, decision: RoutingDecision, now: u64) -> (r: Vec<
        Action,
    >)
        ensures
            (final(self)@, r.deep_view()) == conclude(old(self)@, decision.deep_view(), now),
            final(self).lifecycle.client.engine == old(self).lifecycle.client.engine,
            final(self).same_clocks(*old(self)),
    {
        let refused = match &decision {
            RoutingDecision::SessionHealNeeded { reason, .. } => Some(reason.clone()),
            RoutingDecision::EndSessionNeeded { reason, .. } => Some(reason.clone()),
            _ => None,
        };
        let mut actions = self.decide_actions_at(decision, now);
        if let Some(reason) = refused {
            vecs::push(&mut actions, decrypt_failed(reason));
        }
        actions
    }

    /// Answers a routing decision.
    pub fn decision_to_actions(&mut self, decision: RoutingDecision) -> (r: Vec<Action>)
        ensures
            exists|now: u64| #[trigger]
                old(self).reads(now) && (final(self)@, r.deep_view()) == conclude(
                    old(self)@,
                    decision.deep_view(),
                    now,
                ),
            final(self).lifecycle.client.engine == old(self).lifecycle.client.engine,
            final(self).same_clocks(*old(self)),
    {
        let now: u64 = self.now_ms();
        self.decision_to_actions_at(decision, now)
    }

    /// Answers routing decisions at `now`, one after the other.
    pub fn decisions_to_actions_at(&mut self, decisions: Vec<RoutingDecision>, now: u64) -> (r: Vec<
        Action,
    >)
        ensures
            (final(self)@, r.deep_view()) == conclude_all(
                old(self)@,
                decisions.deep_view(),
                now,
            ),
            final(self).lifecycle.client.engine == old(self).lifecycle.client.engine,
            final(self).same_clocks(*old(self)),
    {
        let ghost o = self@;
        let ghost engine = self.lifecycle.client.engine;
        let ghost all = decisions.deep_view();
        let mut rest = decisions;
        let mut out: Vec<Action> = vecs::none();
        let ghost mut i: int = 0;
        assert(all.take(0) =~= Seq::<DecisionView>::empty());
        while rest.len() > 0
            invariant
                self.lifecycle.client.engine == engine,
                self.same_clocks(*old(self)),
                0 <= i <= all.len(),
                rest.deep_view() == all.skip(i),
                (self@, out.deep_view()) == conclude_all(o, all.take(i), now),
            decreases rest@.len(),
        {
            let ghost before = rest.deep_view();
            let d = rest.remove(0);
            assert(d.deep_view() == before[0]);
            assert(rest.deep_view() =~= before.skip(1));
            assert(before.skip(1) =~= all.skip(i + 1));
            assert(all.take(i + 1).drop_last() =~= all.take(i));
            let more = self.decision_to_actions_at(d, now);
            vecs::append(&mut out, more);
            proof {
                i = i + 1;
            }
        }
        assert(all.take(i) =~= all);
        out
    }
}

// ── Laws ────────────────────────────────────────────────────────────────────

/// Whatever a refused decrypt leads to - a heal, a teardown, a wait behind the confirm gate or
/// behind the window - its cause is reported, last.
pub proof fn every_refusal_reports_its_cause(
    o: OrchView,
    d: DecisionView,
    reason: Seq<char>,
    now: u64,
)
    requires
        refusal_reason(d) == Some(reason),
    ensures
        conclude(o, d, now).1.len() > 0,
        conclude(o, d, now).1.last() == decrypt_failed_view(reason),
        conclude(o, d, now).1.drop_last() == decide(o, d, now).1,
{
    let actions = decide(o, d, now).1;
    assert(actions.push(decrypt_failed_view(reason)).drop_last() =~= actions);
}

/// Only a refusal reports a failed decrypt: the answer to any other decision is the bare answer.
pub proof fn only_a_refusal_reports(o: OrchView, d: DecisionView, now: u64)
    requires
        refusal_reason(d) is None,
    ensures
        conclude(o, d, now) == decide(o, d, now),
{
}

/// A decrypted message is handed over, last, behind the actions that save its session; and only
/// content is announced: a heartbeat, a receipt or a call signal raises no notification.
pub proof fn only_content_is_announced(
    contact: Seq<char>,
    message_id: Seq<char>,
    plaintext: Seq<u8>,
    content_type: u8,
    actions: Seq<ActionView>,
)
    ensures
        ({
            let out = delivered(contact, message_id, plaintext, content_type, actions);
            let silent = content_type == CT_CALL_SIGNAL || content_type == CT_HEARTBEAT
                || content_type == CT_DELIVERY_RECEIPT;
            let announced = ActionView::NotifyNewMessage {
                chat_id: contact,
                preview: preview_of(plaintext),
            };
            &&& out.take(actions.len() as int) == actions
            &&& out.last() == (if content_type == CT_CALL_SIGNAL {
                ActionView::CallSignalDecrypted {
                    contact_id: contact,
                    message_id,
                    proto_bytes: plaintext,
                }
            } else {
                ActionView::MessageDecrypted { contact_id: contact, message_id, plaintext }
            })
            &&& if silent {
                out.len() == actions.len() + 1
            } else {
                out.len() == actions.len() + 2 && out[actions.len() as int] == announced
            }
        }),
{
    let out = delivered(contact, message_id, plaintext, content_type, actions);
    assert(out.take(actions.len() as int) =~= actions);
}

/// While our own announcement is unanswered nothing is torn down and nothing but a handshake
/// carrier heals: the message is held and the session stays as it is.
pub proof fn nothing_is_torn_down_behind_the_gate(o: OrchView, d: DecisionView, now: u64)
    requires
        match d {
            DecisionView::EndSessionNeeded { contact_id, reason, refused }
                => session_machine::gate_up(o.machine, contact_id, now),
            DecisionView::SessionHealNeeded { contact_id, role, is_handshake, reason, refused } => {
                !is_handshake && session_machine::gate_up(o.machine, contact_id, now)
            },
            _ => false,
        },
    ensures
        decide(o, d, now).1.len() == 1,
        decide(o, d, now).1[0] is HeldPendingAck,
        decide(o, d, now).0.life == o.life,
        decide(o, d, now).0.machine == o.machine,
{
}

/// Answering decisions touches no session: only the machine, the confirm gate and what waits
/// change.
pub proof fn an_answer_touches_no_session(o: OrchView, d: DecisionView, now: u64)
    ensures
        decide(o, d, now).0.life == o.life,
        conclude(o, d, now).0.life == o.life,
{
}

/// Answering decisions lets no control frame wait, and queues again only what was refused.
pub proof fn answers_queue_only_what_was_refused(
    o: OrchView,
    ds: Seq<DecisionView>,
    now: u64,
    contact: Seq<char>,
    id: Seq<char>,
)
    requires
        message_router::only_messages_wait(o.router),
        forall|i: int| 0 <= i < ds.len() ==> message_router::refuses_messages(#[trigger] ds[i]),
    ensures
        message_router::only_messages_wait(conclude_all(o, ds, now).0.router),
        conclude_all(o, ds, now).0.life == o.life,
        !message_router::has_id(message_router::waiting(o.router, contact), id) && (forall|i: int|
            0 <= i < ds.len() ==> (message_router::refused_message(#[trigger] ds[i]) matches Some(x)
                ==> x.message.message_id != id)) ==> !message_router::has_id(
            message_router::waiting(conclude_all(o, ds, now).0.router, contact),
            id,
        ),
    decreases ds.len(),
{
    if ds.len() > 0 {
        let front = ds.drop_last();
        assert forall|i: int| 0 <= i < front.len() implies message_router::refuses_messages(
            #[trigger] front[i],
        ) by {
            assert(front[i] == ds[i]);
        }
        answers_queue_only_what_was_refused(o, front, now, contact, id);
        let mid = conclude_all(o, front, now).0;
        let d = ds[ds.len() - 1];
        an_answer_queues_only_what_was_refused(mid, d, now, contact, id);
        if !message_router::has_id(message_router::waiting(o.router, contact), id) && (forall|
            i: int,
        |
            0 <= i < ds.len() ==> (message_router::refused_message(#[trigger] ds[i]) matches Some(x)
                ==> x.message.message_id != id)) {
            assert forall|i: int| 0 <= i < front.len() implies (message_router::refused_message(
                #[trigger] front[i],
            ) matches Some(x) ==> x.message.message_id != id) by {
                assert(front[i] == ds[i]);
            }
        }
    }
}

/// Answering one decision lets no control frame wait, and queues again only what was refused.
pub proof fn an_answer_queues_only_what_was_refused(
    o: OrchView,
    d: DecisionView,
    now: u64,
    contact: Seq<char>,
    id: Seq<char>,
)
    requires
        message_router::only_messages_wait(o.router),
        message_router::refuses_messages(d),
    ensures
        message_router::only_messages_wait(conclude(o, d, now).0.router),
        !message_router::has_id(message_router::waiting(o.router, contact), id) && (
        message_router::refused_message(d) matches Some(x) ==> x.message.message_id != id)
            ==> !message_router::has_id(
            message_router::waiting(conclude(o, d, now).0.router, contact),
            id,
        ),
{
    if message_router::refused_message(d) is Some {
        let m = message_router::refused_message(d)->Some_0.message;
        message_router::control_frames_never_wait(o.router, m, m.contact_id, m.contact_id, id);
    }
}

/// Decisions answered in two goes are answered as in one: what the first go leads to comes first,
/// and the second goes on from the state the first left.
pub proof fn decisions_are_answered_one_behind_the_other(
    o: OrchView,
    a: Seq<DecisionView>,
    b: Seq<DecisionView>,
    now: u64,
)
    ensures
        ({
            let (mid, first) = conclude_all(o, a, now);
            let (next, second) = conclude_all(mid, b, now);
            conclude_all(o, a + b, now) == (next, first + second)
        }),
    decreases b.len(),
{
    let (mid, first) = conclude_all(o, a, now);
    if b.len() == 0 {
        assert(a + b =~= a);
        assert(first + Seq::<ActionView>::empty() =~= first);
    } else {
        decisions_are_answered_one_behind_the_other(o, a, b.drop_last(), now);
        assert((a + b).drop_last() =~= a + b.drop_last());
        let (almost, before) = conclude_all(mid, b.drop_last(), now);
        let (next, last) = conclude(almost, b.last(), now);
        assert(first + before + last =~= first + (before + last));
    }
}

} // verus!
