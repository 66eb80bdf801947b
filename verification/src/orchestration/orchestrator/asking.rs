//! What the platform asks of the machine, and the answers it gets.

use vstd::prelude::*;

use crate::crypto::engine::CryptoEngine;
use crate::orchestration::actions::{Action, ActionView};
use crate::orchestration::clock::Clock;
use crate::orchestration::healing_queue::{self, HealingDecision};
use crate::orchestration::message_router::{self, tie_break_role, Role};
use crate::orchestration::orchestrator::decisions;
use crate::orchestration::orchestrator::{self, OrchView, Orchestrator};
use crate::orchestration::session_lifecycle::LifeView;
use crate::orchestration::session_machine::{
    self, Effect as SessionEffect, Event as SessionEvent, ResetInitVerdict, TearDownCause,
};
use crate::str_map;
use crate::strings::join;
use crate::vecs;

verus! {

/// The answer to "may I tear this ratchet down?".
pub open spec fn teardown_asked(
    o: OrchView,
    contact: Seq<char>,
    cause: TearDownCause,
    now: u64,
) -> (
    OrchView,
    Seq<ActionView>,
) {
    let (machine, effect) = session_machine::machine_step(
        o.machine,
        contact,
        now,
        SessionEvent::WantToTearDown { cause },
    );
    let next = orchestrator::with_machine(o, machine);
    match effect {
        SessionEffect::DeferTearDown { retry_after_ms } => (
            decisions::condemned_active(next, contact),
            seq![
                ActionView::EndSessionSuppressed { contact_id: contact, retry_after_ms },
                decisions::schedule(decisions::cooldown_timer(contact), retry_after_ms),
            ],
        ),
        SessionEffect::TearDownNotNeeded => (
            next,
            seq![ActionView::EndSessionNotNeeded { contact_id: contact }],
        ),
        _ => (next, seq![ActionView::SendEndSession { contact_id: contact }]),
    }
}

/// The answer to an announcement that went out.
pub open spec fn announced(o: OrchView, contact: Seq<char>, now: u64) -> (
    OrchView,
    Seq<ActionView>,
) {
    let (machine, effect) = session_machine::machine_step(
        o.machine,
        contact,
        now,
        SessionEvent::SriAnnounced,
    );
    (
        orchestrator::with_machine(o, machine),
        match effect {
            SessionEffect::AwaitAck { retry_after_ms } => seq![
                decisions::schedule(decisions::confirm_timer(contact), retry_after_ms),
            ],
            _ => Seq::empty(),
        },
    )
}

/// The answer to "I need a session with this device". Who rebuilds is ranked here.
pub open spec fn reopen_asked(o: OrchView, contact: Seq<char>, now: u64) -> (
    OrchView,
    Seq<ActionView>,
) {
    let peer_rebuilds = message_router::role_of(o.life.client.local_user_id, contact) is Responder;
    let (machine, effect) = session_machine::machine_step(
        o.machine,
        contact,
        now,
        SessionEvent::WantToReopen { peer_rebuilds },
    );
    (
        orchestrator::with_machine(o, machine),
        match effect {
            SessionEffect::DeferOpen { retry_after_ms } => seq![
                ActionView::OpenDeferred { contact_id: contact, retry_after_ms },
                decisions::schedule(decisions::reopen_timer(contact), retry_after_ms),
            ],
            SessionEffect::WaitForOpen => Seq::empty(),
            _ => seq![ActionView::OpenSession { contact_id: contact }],
        },
    )
}

/// The answer to one heal attempt. A spent budget takes the heal's carriers with it, but only under
/// a session held: without one, what waits is a first contact.
pub open spec fn heal_attempted(o: OrchView, contact: Seq<char>) -> (OrchView, Seq<ActionView>) {
    let (healing, decision) = healing_queue::heal_attempt(o.life.healing, contact);
    let counted = OrchView { life: LifeView { healing, ..o.life }, ..o };
    match decision {
        HealingDecision::RetryAllowed { attempt } => (
            counted,
            seq![ActionView::HealAttemptAllowed { contact_id: contact, attempt }],
        ),
        _ => (
            if o.life.client.sessions.contains_key(contact) {
                OrchView { router: message_router::with_queue(
                    o.router,
                    contact,
                    Seq::empty(),
                ), ..counted }
            } else {
                counted
            },
            seq![ActionView::HealExhausted { contact_id: contact }],
        ),
    }
}

/// The answer to a SESSION_RESET_INIT that arrived.
pub open spec fn reset_init_arrived(
    o: OrchView,
    contact: Seq<char>,
    init_ephemeral: Seq<u8>,
    sent_at_s: u64,
    established_at_s: Option<u64>,
) -> (OrchView, Seq<ActionView>) {
    let (machine, verdict) = session_machine::judge_step(
        o.machine,
        contact,
        init_ephemeral,
        sent_at_s,
        established_at_s,
    );
    (
        orchestrator::with_machine(o, machine),
        seq![
            match verdict {
                ResetInitVerdict::Apply => ActionView::ApplyResetInit { contact_id: contact },
                ResetInitVerdict::Redelivery => ActionView::ResetInitSuperseded {
                    contact_id: contact,
                    redelivery: true,
                },
                ResetInitVerdict::PredatesSession => ActionView::ResetInitSuperseded {
                    contact_id: contact,
                    redelivery: false,
                },
            },
        ],
    )
}

/// The state after the peer tore the ratchet down. The carrier of a heal is spent with it, but what
/// the peer has raised stays counted.
pub open spec fn peer_tore_down(o: OrchView, contact: Seq<char>, now: u64) -> OrchView {
    let next = orchestrator::stepped(o, contact, now, SessionEvent::PeerToreDown);
    OrchView {
        life: LifeView { healing: healing_queue::heal_settle(
            next.life.healing,
            contact,
        ), ..next.life },
        ..next
    }
}

impl<C: Clock, E: CryptoEngine> Orchestrator<C, E> {
    /// Answers the platform's "may I tear this ratchet down?".
    ///
    /// A refusal is not a drop: the debt is recorded and the timer pays it, exactly as it does for
    /// a teardown the core concluded itself.
    pub fn handle_teardown_requested(
        &mut self,
        contact_id: String,
        cause: TearDownCause,
        now: u64,
    ) -> (r: Vec<Action>)
        ensures
            (final(self)@, r.deep_view()) == teardown_asked(old(self)@, contact_id@, cause, now),
            final(self).lifecycle.client.engine == old(self).lifecycle.client.engine,
            final(self).same_clocks(*old(self)),
    {
        let effect = self.sessions.handle_at(
            contact_id.as_str(),
            SessionEvent::WantToTearDown { cause },
            now,
        );
        match effect {
            SessionEffect::DeferTearDown { retry_after_ms } => {
                self.condemn_active_session(contact_id.as_str());
                let timer_id = join("cooldown_expired:", contact_id.as_str());
                vecs::two(
                    Action::EndSessionSuppressed { contact_id, retry_after_ms },
                    Action::ScheduleTimer { timer_id, delay_ms: retry_after_ms },
                )
            },
            // No timer: nothing is owed. The peer tore this ratchet down and knows it is gone.
            SessionEffect::TearDownNotNeeded => vecs::one(
                Action::EndSessionNotNeeded { contact_id },
            ),
            _ => vecs::one(Action::SendEndSession { contact_id }),
        }
    }

    /// Records that a SESSION_RESET_INIT went out, and arms the only thing that ever ends the wait
    /// for an answer to it.
    pub fn handle_sri_announced(&mut self, contact_id: String, now: u64) -> (r: Vec<Action>)
        ensures
            (final(self)@, r.deep_view()) == announced(old(self)@, contact_id@, now),
            final(self).lifecycle.client.engine == old(self).lifecycle.client.engine,
            final(self).same_clocks(*old(self)),
    {
        match self.sessions.handle_at(contact_id.as_str(), SessionEvent::SriAnnounced, now) {
            SessionEffect::AwaitAck { retry_after_ms } => {
                let timer_id = join("open_confirm:", contact_id.as_str());
                vecs::one(Action::ScheduleTimer { timer_id, delay_ms: retry_after_ms })
            },
            _ => vecs::none(),
        }
    }

    /// Answers the platform's "I need a session with this device".
    pub fn handle_reopen_requested(&mut self, contact_id: String, now: u64) -> (r: Vec<Action>)
        ensures
            (final(self)@, r.deep_view()) == reopen_asked(old(self)@, contact_id@, now),
            final(self).lifecycle.client.engine == old(self).lifecycle.client.engine,
            final(self).same_clocks(*old(self)),
    {
        let role = tie_break_role(
            self.lifecycle.client.local_user_id(),
            contact_id.as_str(),
        );
        let peer_rebuilds = role == Role::Responder;
        let effect = self.sessions.handle_at(
            contact_id.as_str(),
            SessionEvent::WantToReopen { peer_rebuilds },
            now,
        );
        match effect {
            SessionEffect::DeferOpen { retry_after_ms } => {
                let timer_id = join("reopen:", contact_id.as_str());
                vecs::two(
                    Action::OpenDeferred { contact_id, retry_after_ms },
                    Action::ScheduleTimer { timer_id, delay_ms: retry_after_ms },
                )
            },
            // Someone is already opening this ratchet. A second announce would spend a second
            // one-time prekey and replace the first session.
            SessionEffect::WaitForOpen => vecs::none(),
            _ => vecs::one(Action::OpenSession { contact_id }),
        }
    }

    /// One heal attempt, counted where the queued carrier already lives.
    pub fn handle_heal_attempted(&mut self, contact_id: String) -> (r: Vec<Action>)
        ensures
            (final(self)@, r.deep_view()) == heal_attempted(old(self)@, contact_id@),
            final(self).lifecycle.client.engine == old(self).lifecycle.client.engine,
            final(self).same_clocks(*old(self)),
    {
        match self.lifecycle.healing_queue.record_attempt(contact_id.as_str()) {
            HealingDecision::RetryAllowed { attempt } => vecs::one(
                Action::HealAttemptAllowed { contact_id, attempt },
            ),
            _ => {
                if self.lifecycle.has_active_session(contact_id.as_str()) {
                    let _ = self.router.take_pending(contact_id.as_str());
                }
                vecs::one(Action::HealExhausted { contact_id })
            },
        }
    }

    /// Judges a SESSION_RESET_INIT that arrived.
    pub fn handle_reset_init(
        &mut self,
        contact_id: String,
        init_ephemeral: Vec<u8>,
        sent_at_s: u64,
        established_at_s: Option<u64>,
    ) -> (r: Vec<Action>)
        ensures
            (final(self)@, r.deep_view()) == reset_init_arrived(
                old(self)@,
                contact_id@,
                init_ephemeral@,
                sent_at_s,
                established_at_s,
            ),
            final(self).lifecycle.client.engine == old(self).lifecycle.client.engine,
            final(self).same_clocks(*old(self)),
    {
        let verdict = self.sessions.judge_reset_init(
            contact_id.as_str(),
            init_ephemeral.as_slice(),
            sent_at_s,
            established_at_s,
        );
        vecs::one(
            match verdict {
                ResetInitVerdict::Apply => Action::ApplyResetInit { contact_id },
                ResetInitVerdict::Redelivery => Action::ResetInitSuperseded {
                    contact_id,
                    redelivery: true,
                },
                ResetInitVerdict::PredatesSession => Action::ResetInitSuperseded {
                    contact_id,
                    redelivery: false,
                },
            },
        )
    }

    /// The peer tore the ratchet down and that was applied.
    pub fn handle_peer_tore_down(&mut self, contact_id: &str, now: u64)
        ensures
            final(self)@ == peer_tore_down(old(self)@, contact_id@, now),
            final(self).lifecycle.client.engine == old(self).lifecycle.client.engine,
            final(self).same_clocks(*old(self)),
    {
        let _ = self.sessions.handle_at(contact_id, SessionEvent::PeerToreDown, now);
        self.lifecycle.healing_queue.settle(contact_id);
    }
}

// ── Laws ────────────────────────────────────────────────────────────────────

/// A teardown that is put off is owed: the platform is told so, and the alarm that pays it is armed
/// for the same moment.
pub proof fn a_suppressed_teardown_is_owed(
    o: OrchView,
    contact: Seq<char>,
    cause: TearDownCause,
    now: u64,
)
    ensures
        ({
            let (next, actions) = teardown_asked(o, contact, cause, now);
            actions.len() == 2 ==> {
                &&& actions[0] matches ActionView::EndSessionSuppressed {
                    contact_id,
                    retry_after_ms,
                } && contact_id == contact && actions[1] == decisions::schedule(
                    decisions::cooldown_timer(contact),
                    retry_after_ms,
                )
                &&& session_machine::owes(
                    str_map::lookup(next.machine.phases, contact),
                )
            }
        }),
{
}

/// An exhausted heal takes its carriers with it, so that no reconnect raises it again; without a
/// session nothing that waits is touched.
pub proof fn an_exhausted_heal_drops_its_carriers(o: OrchView, contact: Seq<char>)
    requires
        healing_queue::heal_attempt(o.life.healing, contact).1 !is RetryAllowed,
    ensures
        o.life.client.sessions.contains_key(contact) ==> !heal_attempted(
            o,
            contact,
        ).0.router.queues.contains_key(contact),
        !o.life.client.sessions.contains_key(contact) ==> heal_attempted(o, contact).0.router
            == o.router,
        heal_attempted(o, contact).1 == seq![ActionView::HealExhausted { contact_id: contact }],
{
}

} // verus!
