//! The alarms the core asks for, and the upgrade of sessions opened without ML-KEM.

use vstd::prelude::*;

use crate::crypto::engine::CryptoEngine;
use crate::crypto::kyber_prekey_auth::PqHandshake;
use crate::orchestration::ack_store;
use crate::orchestration::actions::{Action, ActionView};
use crate::orchestration::clock::Clock;
use crate::orchestration::healing_queue;
use crate::orchestration::message_router::{self, tie_break_role, Role};
use crate::orchestration::orchestrator::decisions;
use crate::orchestration::orchestrator::{self, OrchView, Orchestrator};
use crate::orchestration::session_lifecycle::{self, LifeView};
use crate::orchestration::session_machine::{self, Effect as SessionEffect, Event as SessionEvent};
use crate::str_map;
use crate::strings::{self, after_prefix, join, same_str, str_less};
use crate::vecs;

verus! {

/// How long after launch the upgrade sweep runs (ms): after the prewarm sweep and the launch-time
/// fetch of pending messages, not with them.
pub const PQ_UPGRADE_SWEEP_DELAY_MS: u64 = 15_000;

/// How many devices one pass of the upgrade sweep reopens.
pub const PQ_UPGRADE_BATCH: usize = 8;

/// The pause between two batches of the upgrade sweep (ms).
pub const PQ_UPGRADE_BATCH_INTERVAL_MS: u64 = 30_000;

// ── The upgrade ─────────────────────────────────────────────────────────────

/// Whether the session of a device should be reopened: it is classical, this device is the one that
/// initiates, and it has not asked since launch.
pub open spec fn is_candidate(o: OrchView, k: Seq<char>) -> bool {
    &&& o.life.client.sessions.contains_key(k)
    &&& !o.upgrade_asked.contains(k)
    &&& message_router::role_of(o.life.client.local_user_id, k) is Initiator
    &&& o.life.client.sessions[k].pq_handshake == PqHandshake::Classical
}

/// Ids in ascending order, each once.
pub open spec fn ascending(s: Seq<Seq<char>>) -> bool {
    forall|i: int, j: int| 0 <= i < j < s.len() ==> #[trigger] strings::lex_less(s[i], s[j])
}

/// The devices whose session should be reopened, in ascending order.
pub open spec fn lists_candidates(cs: Seq<Seq<char>>, o: OrchView) -> bool {
    &&& ascending(cs)
    &&& forall|k: Seq<char>| #[trigger] cs.contains(k) <==> is_candidate(o, k)
}

/// Asking to reopen the sessions of these devices, one after the other. Whatever the machine says
/// other than to open ends in a new session anyway, so those devices count as asked too.
pub open spec fn upgrades_asked(o: OrchView, cs: Seq<Seq<char>>, now: u64) -> (
    OrchView,
    Seq<ActionView>,
)
    decreases cs.len(),
{
    if cs.len() == 0 {
        (o, Seq::empty())
    } else {
        let (mid, before) = upgrades_asked(o, cs.drop_last(), now);
        let k = cs.last();
        let (machine, effect) = session_machine::machine_step(
            mid.machine,
            k,
            now,
            SessionEvent::WantToReopen { peer_rebuilds: false },
        );
        (
            OrchView { machine, upgrade_asked: mid.upgrade_asked.insert(k), ..mid },
            if effect is Open {
                before.push(ActionView::OpenSession { contact_id: k })
            } else {
                before
            },
        )
    }
}

/// How many of `n` candidates one pass takes.
pub open spec fn batch_of(n: nat) -> int {
    if n > PQ_UPGRADE_BATCH {
        PQ_UPGRADE_BATCH as int
    } else {
        n as int
    }
}

/// One batch of the upgrade; the rest waits for the next pass.
pub open spec fn upgrade_swept(o: OrchView, cs: Seq<Seq<char>>, now: u64) -> (
    OrchView,
    Seq<ActionView>,
) {
    let (next, asked) = upgrades_asked(o, cs.take(batch_of(cs.len())), now);
    (
        next,
        if cs.len() > PQ_UPGRADE_BATCH {
            asked.push(decisions::schedule("pq_upgrade_sweep"@, PQ_UPGRADE_BATCH_INTERVAL_MS))
        } else {
            asked
        },
    )
}

// ── The alarms ──────────────────────────────────────────────────────────────

/// The state without what is past its time.
pub open spec fn swept(o: OrchView, now: u64) -> OrchView {
    let l = session_lifecycle::archives_swept(o.life, now);
    OrchView {
        life: LifeView {
            ack: ack_store::ack_pruned(l.ack, now),
            healing: healing_queue::heal_pruned(l.healing, now),
            ..l
        },
        machine: session_machine::pruned(o.machine, now),
        ..o
    }
}

/// What the sweep may come to. The archives are deleted in any order.
pub open spec fn sweep_may(
    o: OrchView,
    now: u64,
    next: OrchView,
    actions: Seq<ActionView>,
) -> bool {
    next == swept(o, now) && exists|order: Seq<Seq<char>>| #[trigger]
        session_lifecycle::names_stale(order, o.life, now) && actions == order.map_values(
            |k: Seq<char>| session_lifecycle::delete_archive(k),
        ) + seq![ActionView::PruneAckStore { cutoff_ts: ack_store::ack_cutoff(o.life.ack, now) }]
}

/// What pays a teardown that is due: nothing if the session it condemns was replaced meanwhile.
pub open spec fn payment(o: OrchView, contact: Seq<char>) -> Seq<ActionView> {
    let condemned = str_map::lookup(o.machine.condemned, contact);
    let current = session_lifecycle::session_id_of(o.life, contact);
    if current is Some && current != condemned {
        Seq::empty()
    } else {
        seq![
            ActionView::SendEndSession { contact_id: contact },
            ActionView::NotifyLinkedDevicesOfSessionReset { contact_id: contact },
        ]
    }
}

/// The alarm of a teardown's window: a teardown that is owed is paid, unless the session it
/// condemns was replaced meanwhile. An alarm that came too early is armed again.
pub open spec fn cooldown_over(o: OrchView, contact: Seq<char>, now: u64) -> (
    OrchView,
    Seq<ActionView>,
) {
    let (machine, effect) = session_machine::machine_step(
        o.machine,
        contact,
        now,
        SessionEvent::Timeout,
    );
    let sweep = decisions::schedule("gc_sweep"@, 100);
    (
        orchestrator::with_machine(o, machine),
        match effect {
            SessionEffect::TearDown => seq![sweep] + payment(o, contact),
            SessionEffect::DeferTearDown { retry_after_ms } => seq![
                sweep,
                decisions::schedule(decisions::cooldown_timer(contact), retry_after_ms),
            ],
            _ => seq![sweep],
        },
    )
}

/// The wait for the peer's rebuild has had its moment: a session that came back settles it, and
/// otherwise the session is opened. The alarm yields to nobody.
pub open spec fn reopen_due(o: OrchView, contact: Seq<char>, timer_id: Seq<char>, now: u64) -> (
    OrchView,
    Seq<ActionView>,
) {
    if o.life.client.sessions.contains_key(contact) {
        (
            orchestrator::stepped(o, contact, now, SessionEvent::OpenFinished),
            seq![ActionView::OpenNotNeeded { contact_id: contact }],
        )
    } else {
        let (machine, effect) = session_machine::machine_step(
            o.machine,
            contact,
            now,
            SessionEvent::WantToOpen,
        );
        (
            orchestrator::with_machine(o, machine),
            match effect {
                SessionEffect::DeferOpen { retry_after_ms } => seq![
                    decisions::schedule(timer_id, retry_after_ms),
                ],
                SessionEffect::WaitForOpen => Seq::empty(),
                _ => seq![ActionView::OpenSession { contact_id: contact }],
            },
        )
    }
}

/// The announcement has gone unanswered for a retry interval, or for the whole window. A teardown
/// that replaced the opening, and is due, is paid by this alarm as by its own.
pub open spec fn confirm_due(o: OrchView, contact: Seq<char>, timer_id: Seq<char>, now: u64) -> (
    OrchView,
    Seq<ActionView>,
) {
    let (machine, effect) = session_machine::machine_step(
        o.machine,
        contact,
        now,
        SessionEvent::Timeout,
    );
    (
        orchestrator::with_machine(o, machine),
        match effect {
            SessionEffect::ResendSri { retry_after_ms } => seq![
                ActionView::ResendSri { contact_id: contact },
                decisions::schedule(timer_id, retry_after_ms),
            ],
            SessionEffect::GiveUpOpening => seq![
                ActionView::OpeningGaveUp { contact_id: contact },
            ],
            SessionEffect::TearDown => payment(o, contact),
            _ => Seq::empty(),
        },
    )
}

/// The answer to an alarm of one device; nothing for an alarm the core does not know.
pub open spec fn alarm(o: OrchView, timer_id: Seq<char>, now: u64) -> (OrchView, Seq<ActionView>) {
    match strings::tail_after(timer_id, "cooldown_expired:"@) {
        Some(contact) => cooldown_over(o, contact, now),
        None => match strings::tail_after(timer_id, "reopen:"@) {
            Some(contact) => reopen_due(o, contact, timer_id, now),
            None => match strings::tail_after(timer_id, "open_confirm:"@) {
                Some(contact) => confirm_due(o, contact, timer_id, now),
                None => (o, Seq::empty()),
            },
        },
    }
}

/// What an alarm may come to.
pub open spec fn timer_may(
    o: OrchView,
    timer_id: Seq<char>,
    now: u64,
    next: OrchView,
    actions: Seq<ActionView>,
) -> bool {
    if timer_id == "gc_sweep"@ {
        sweep_may(o, now, next, actions)
    } else if timer_id == "pq_upgrade_sweep"@ {
        exists|cs: Seq<Seq<char>>|
            lists_candidates(cs, o) && (next, actions) == #[trigger] upgrade_swept(o, cs, now)
    } else {
        (next, actions) == alarm(o, timer_id, now)
    }
}

/// Puts `id` into its place.
fn insert_ascending(v: &mut Vec<String>, id: String)
    requires
        ascending(old(v).deep_view()),
        !old(v).deep_view().contains(id@),
    ensures
        ascending(final(v).deep_view()),
        forall|k: Seq<char>| #[trigger]
            final(v).deep_view().contains(k) <==> old(v).deep_view().contains(k) || k == id@,
{
    let ghost s = v.deep_view();
    let ghost x = id@;
    let mut i: usize = 0;
    while i < v.len() && str_less(v[i].as_str(), id.as_str())
        invariant
            i <= v@.len(),
            s == v.deep_view(),
            x == id@,
            forall|j: int| 0 <= j < i ==> #[trigger] strings::lex_less(s[j], x),
        decreases v@.len() - i,
    {
        assert(s[i as int] == v@[i as int]@);
        i = i + 1;
    }
    proof {
        if i < v@.len() {
            assert(s[i as int] == v@[i as int]@);
            assert(s.contains(s[i as int]));
            strings::lex_total(s[i as int], x);
            assert(strings::lex_less(x, s[i as int]));
        }
        assert forall|j: int| i <= j < s.len() implies #[trigger] strings::lex_less(x, s[j]) by {
            if j > i {
                assert(strings::lex_less(s[i as int], s[j]));
                strings::lex_transitive(x, s[i as int], s[j]);
            }
        }
    }
    v.insert(i, id);
    proof {
        let t = v.deep_view();
        assert(t =~= s.insert(i as int, x));
        assert forall|a: int, b: int| 0 <= a < b < t.len() implies #[trigger] strings::lex_less(
            t[a],
            t[b],
        ) by {
            if b < i {
                assert(strings::lex_less(s[a], s[b]));
            } else if b == i {
                assert(strings::lex_less(s[a], x));
            } else if a < i {
                assert(strings::lex_less(s[a], s[b - 1]));
            } else if a == i {
                assert(strings::lex_less(x, s[b - 1]));
            } else {
                assert(strings::lex_less(s[a - 1], s[b - 1]));
            }
        }
        assert forall|k: Seq<char>| #[trigger] t.contains(k) <==> s.contains(k) || k == x by {
            if s.contains(k) {
                let j = choose|j: int| 0 <= j < s.len() && s[j] == k;
                if j < i {
                    assert(t[j] == k);
                } else {
                    assert(t[j + 1] == k);
                }
            }
            if k == x {
                assert(t[i as int] == k);
            }
            if t.contains(k) {
                let j = choose|j: int| 0 <= j < t.len() && t[j] == k;
                if j < i {
                    assert(s[j] == k);
                } else if j > i {
                    assert(s[j - 1] == k);
                }
            }
        }
    }
}

impl<C: Clock, E: CryptoEngine> Orchestrator<C, E> {
    fn is_upgrade_candidate(&self, contact_id: &str) -> (r: bool)
        ensures
            r == is_candidate(self@, contact_id@),
    {
        if self.pq_upgrade_asked.contains(contact_id) {
            return false;
        }
        let role = tie_break_role(self.lifecycle.client.local_user_id(), contact_id);
        if role != Role::Initiator {
            return false;
        }
        match self.lifecycle.client.get_session(contact_id) {
            Some(s) => s.pq_handshake == PqHandshake::Classical,
            None => false,
        }
    }

    /// Devices whose session should be reopened to get an ML-KEM secret from its first message.
    ///
    /// A session opened without one stays classical for its whole life. Only the side the tie-break
    /// makes INITIATOR asks: if both reopened, the two announcements would cross. Devices already
    /// asked since launch are left out. Sorted, so the batches are the same on every run.
    pub fn pq_upgrade_candidates(&self) -> (r: Vec<String>)
        ensures
            lists_candidates(r.deep_view(), self@),
    {
        let contacts = self.lifecycle.client.active_contacts();
        let ghost all = contacts.deep_view();
        let mut out: Vec<String> = vecs::none();
        let mut i: usize = 0;
        while i < contacts.len()
            invariant
                i <= contacts@.len(),
                all == contacts.deep_view(),
                str_map::names_keys(all, self@.life.client.sessions),
                ascending(out.deep_view()),
                forall|k: Seq<char>| #[trigger]
                    out.deep_view().contains(k) <==> all.take(i as int).contains(k) && is_candidate(
                        self@,
                        k,
                    ),
            decreases contacts@.len() - i,
        {
            let ghost key = all[i as int];
            let ghost before = out.deep_view();
            proof {
                assert(key == contacts@[i as int]@);
                assert(all.take(i + 1) =~= all.take(i as int).push(key));
                assert forall|k: Seq<char>| #[trigger] all.take(i + 1).contains(k) <==> (all.take(
                    i as int,
                ).contains(k) || k == key) by {
                    vecs::push_contains(all.take(i as int), key, k);
                }
                assert(!all.take(i as int).contains(key)) by {
                    if all.take(i as int).contains(key) {
                        let j = choose|j: int| 0 <= j < i && all.take(i as int)[j] == key;
                        assert(all[j] == all[i as int]);
                    }
                }
                assert(!before.contains(key));
            }
            if self.is_upgrade_candidate(contacts[i].as_str()) {
                insert_ascending(&mut out, contacts[i].clone());
            }
            i = i + 1;
        }
        proof {
            assert(all.take(i as int) =~= all);
            assert forall|k: Seq<char>| #[trigger] out.deep_view().contains(k) <==> is_candidate(
                self@,
                k,
            ) by {
                if is_candidate(self@, k) {
                    assert(all.contains(k));
                }
            }
        }
        out
    }

    /// One batch of the upgrade: reopen, through the machine, as an announced opening.
    ///
    /// An opening and not a teardown first: a peer that cannot take the new session keeps the one
    /// it has.
    pub fn pq_upgrade_sweep(&mut self, now: u64) -> (r: Vec<Action>)
        ensures
            exists|cs: Seq<Seq<char>>|
                lists_candidates(cs, old(self)@) && (final(self)@, r.deep_view())
                    == #[trigger] upgrade_swept(old(self)@, cs, now),
            final(self).lifecycle.client.engine == old(self).lifecycle.client.engine,
            final(self).same_clocks(*old(self)),
    {
        let ghost o = self@;
        let ghost engine = self.lifecycle.client.engine;
        let candidates = self.pq_upgrade_candidates();
        let ghost cs = candidates.deep_view();
        let more = candidates.len() > PQ_UPGRADE_BATCH;
        let n: usize = if more {
            PQ_UPGRADE_BATCH
        } else {
            candidates.len()
        };
        let mut actions: Vec<Action> = vecs::none();
        let mut i: usize = 0;
        assert(cs.take(0) =~= Seq::<Seq<char>>::empty());
        while i < n
            invariant
                i <= n <= candidates@.len(),
                cs == candidates.deep_view(),
                self.lifecycle.client.engine == engine,
                self.same_clocks(*old(self)),
                (self@, actions.deep_view()) == upgrades_asked(o, cs.take(i as int), now),
            decreases n - i,
        {
            let contact = candidates[i].clone();
            assert(cs.take(i + 1).drop_last() =~= cs.take(i as int));
            assert(cs.take(i + 1).last() == contact@);
            self.pq_upgrade_asked.insert(contact.clone());
            let effect = self.sessions.handle_at(
                contact.as_str(),
                SessionEvent::WantToReopen { peer_rebuilds: false },
                now,
            );
            if let SessionEffect::Open = effect {
                vecs::push(&mut actions, Action::OpenSession { contact_id: contact });
            }
            i = i + 1;
        }
        if more {
            vecs::push(
                &mut actions,
                Action::ScheduleTimer {
                    timer_id: "pq_upgrade_sweep".to_owned(),
                    delay_ms: PQ_UPGRADE_BATCH_INTERVAL_MS,
                },
            );
        }
        assert((self@, actions.deep_view()) == upgrade_swept(o, cs, now));
        actions
    }

    /// Drops everything that is past its time.
    pub fn gc_sweep(&mut self, now: u64) -> (r: Vec<Action>)
        ensures
            sweep_may(old(self)@, now, final(self)@, r.deep_view()),
            final(self).lifecycle.client.engine == old(self).lifecycle.client.engine,
            final(self).same_clocks(*old(self)),
    {
        let ghost o = self@;
        let mut actions = self.lifecycle.gc_old_archives_at(now);
        let ghost order = choose|order: Seq<Seq<char>>| #[trigger]
            session_lifecycle::names_stale(
                order,
                o.life,
                now,
            ) && actions.deep_view() == order.map_values(
                |k: Seq<char>| session_lifecycle::delete_archive(k),
            );
        assert(session_lifecycle::names_stale(order, o.life, now));
        let acks = self.lifecycle.ack_store.prune_expired_at(now);
        vecs::append(&mut actions, acks);
        self.lifecycle.healing_queue.prune_expired_at(now);
        self.sessions.prune_expired_at(now);
        assert(self@ =~= swept(o, now));
        actions
    }

    /// The payment of a teardown that condemned `condemned`.
    fn pay(&self, contact_id: String, condemned: Option<String>) -> (r: Vec<Action>)
        ensures
            r.deep_view() == (if session_lifecycle::session_id_of(self@.life, contact_id@) is Some
                && session_lifecycle::session_id_of(self@.life, contact_id@)
                != condemned.deep_view() {
                Seq::empty()
            } else {
                seq![
                    ActionView::SendEndSession { contact_id: contact_id@ },
                    ActionView::NotifyLinkedDevicesOfSessionReset { contact_id: contact_id@ },
                ]
            }),
    {
        // A session that is not the one condemned was established during the cooldown, and must
        // not be torn down by a debt owed to its predecessor.
        let replaced = match (self.lifecycle.active_session_id(contact_id.as_str()), condemned) {
            (Some(current), Some(old_id)) => !same_str(current.as_str(), old_id.as_str()),
            (Some(_), None) => true,
            (None, _) => false,
        };
        if replaced {
            return vecs::none();
        }
        let told = contact_id.clone();
        vecs::two(
            Action::SendEndSession { contact_id },
            Action::NotifyLinkedDevicesOfSessionReset { contact_id: told },
        )
    }

    fn pay_teardown(&mut self, contact_id: String, now: u64) -> (r: Vec<Action>)
        ensures
            (final(self)@, r.deep_view()) == cooldown_over(old(self)@, contact_id@, now),
            final(self).lifecycle.client.engine == old(self).lifecycle.client.engine,
            final(self).same_clocks(*old(self)),
    {
        let ghost o = self@;
        let mut actions = vecs::one(
            Action::ScheduleTimer { timer_id: "gc_sweep".to_owned(), delay_ms: 100 },
        );
        // Read before the timeout: paying the debt starts a fresh window, which carries none.
        let condemned = self.sessions.condemned(contact_id.as_str());
        match self.sessions.handle_at(contact_id.as_str(), SessionEvent::Timeout, now) {
            SessionEffect::TearDown => {
                let paid = self.pay(contact_id, condemned);
                vecs::append(&mut actions, paid);
            },
            SessionEffect::DeferTearDown { retry_after_ms } => {
                let timer_id = join("cooldown_expired:", contact_id.as_str());
                vecs::push(
                    &mut actions,
                    Action::ScheduleTimer { timer_id, delay_ms: retry_after_ms },
                );
            },
            _ => {},
        }
        assert(actions.deep_view() =~= cooldown_over(o, contact_id@, now).1);
        actions
    }

    fn reopen_after_wait(&mut self, contact_id: String, timer_id: String, now: u64) -> (r: Vec<
        Action,
    >)
        ensures
            (final(self)@, r.deep_view()) == reopen_due(old(self)@, contact_id@, timer_id@, now),
            final(self).lifecycle.client.engine == old(self).lifecycle.client.engine,
            final(self).same_clocks(*old(self)),
    {
        if self.lifecycle.has_active_session(contact_id.as_str()) {
            let _ = self.sessions.handle_at(contact_id.as_str(), SessionEvent::OpenFinished, now);
            return vecs::one(Action::OpenNotNeeded { contact_id });
        }
        match self.sessions.handle_at(contact_id.as_str(), SessionEvent::WantToOpen, now) {
            SessionEffect::DeferOpen { retry_after_ms } => vecs::one(
                Action::ScheduleTimer { timer_id, delay_ms: retry_after_ms },
            ),
            SessionEffect::WaitForOpen => vecs::none(),
            _ => vecs::one(Action::OpenSession { contact_id }),
        }
    }

    fn confirm_after_wait(&mut self, contact_id: String, timer_id: String, now: u64) -> (r: Vec<
        Action,
    >)
        ensures
            (final(self)@, r.deep_view()) == confirm_due(old(self)@, contact_id@, timer_id@, now),
            final(self).lifecycle.client.engine == old(self).lifecycle.client.engine,
            final(self).same_clocks(*old(self)),
    {
        let condemned = self.sessions.condemned(contact_id.as_str());
        match self.sessions.handle_at(contact_id.as_str(), SessionEvent::Timeout, now) {
            SessionEffect::ResendSri { retry_after_ms } => vecs::two(
                Action::ResendSri { contact_id },
                Action::ScheduleTimer { timer_id, delay_ms: retry_after_ms },
            ),
            SessionEffect::GiveUpOpening => vecs::one(Action::OpeningGaveUp { contact_id }),
            SessionEffect::TearDown => self.pay(contact_id, condemned),
            // The peer answered, or the session was torn down, between the alarm being armed and
            // firing.
            _ => vecs::none(),
        }
    }

    /// An alarm went off.
    pub fn handle_timer_fired(&mut self, timer_id: String, now: u64) -> (r: Vec<Action>)
        ensures
            timer_may(old(self)@, timer_id@, now, final(self)@, r.deep_view()),
            final(self).lifecycle.client.engine == old(self).lifecycle.client.engine,
            final(self).same_clocks(*old(self)),
    {
        if same_str(timer_id.as_str(), "gc_sweep") {
            return self.gc_sweep(now);
        }
        if same_str(timer_id.as_str(), "pq_upgrade_sweep") {
            return self.pq_upgrade_sweep(now);
        }
        if let Some(contact_id) = after_prefix(timer_id.as_str(), "cooldown_expired:") {
            return self.pay_teardown(contact_id, now);
        }
        if let Some(contact_id) = after_prefix(timer_id.as_str(), "reopen:") {
            return self.reopen_after_wait(contact_id, timer_id, now);
        }
        if let Some(contact_id) = after_prefix(timer_id.as_str(), "open_confirm:") {
            return self.confirm_after_wait(contact_id, timer_id, now);
        }
        vecs::none()
    }
}

// ── Laws ────────────────────────────────────────────────────────────────────

/// Every alarm the core arms comes back to its own handler, for the device it was armed for and
/// whatever that device is called.
pub proof fn alarms_reach_their_device(
    o: OrchView,
    contact: Seq<char>,
    now: u64,
    next: OrchView,
    actions: Seq<ActionView>,
)
    ensures
        timer_may(o, decisions::cooldown_timer(contact), now, next, actions) <==> (next, actions)
            == cooldown_over(o, contact, now),
        timer_may(
            o,
            decisions::reopen_timer(contact),
            now,
            next,
            actions,
        ) <==> (next, actions) == reopen_due(
            o,
            contact,
            decisions::reopen_timer(contact),
            now,
        ),
        timer_may(o, decisions::confirm_timer(contact), now, next, actions) <==> (next, actions)
            == confirm_due(o, contact, decisions::confirm_timer(contact), now),
{
    reveal_strlit("gc_sweep");
    reveal_strlit("pq_upgrade_sweep");
    reveal_strlit("cooldown_expired:");
    reveal_strlit("reopen:");
    reveal_strlit("open_confirm:");
    strings::tail_after_join("cooldown_expired:"@, contact);
    strings::tail_after_join("reopen:"@, contact);
    strings::tail_after_join("open_confirm:"@, contact);
    assert(decisions::cooldown_timer(contact)[0] == 'c');
    assert(decisions::reopen_timer(contact)[0] == 'r');
    assert(decisions::confirm_timer(contact)[0] == 'o');
    assert("gc_sweep"@[0] == 'g');
    assert("pq_upgrade_sweep"@[0] == 'p');
    assert("cooldown_expired:"@[0] == 'c');
    assert("reopen:"@[0] == 'r');
}

/// No alarm moves a message that waits, or one the confirm gate holds.
pub proof fn an_alarm_moves_no_message(
    o: OrchView,
    timer_id: Seq<char>,
    now: u64,
    next: OrchView,
    actions: Seq<ActionView>,
)
    requires
        timer_may(o, timer_id, now, next, actions),
    ensures
        next.router == o.router,
        next.holds == o.holds,
{
    if timer_id != "gc_sweep"@ && timer_id == "pq_upgrade_sweep"@ {
        let cs = choose|cs: Seq<Seq<char>>|
            lists_candidates(cs, o) && (next, actions) == #[trigger] upgrade_swept(o, cs, now);
        upgrades_move_no_message(o, cs.take(batch_of(cs.len())), now);
    }
}

proof fn upgrades_move_no_message(o: OrchView, cs: Seq<Seq<char>>, now: u64)
    ensures
        upgrades_asked(o, cs, now).0.router == o.router,
        upgrades_asked(o, cs, now).0.holds == o.holds,
    decreases cs.len(),
{
    if cs.len() > 0 {
        upgrades_move_no_message(o, cs.drop_last(), now);
    }
}

/// A session established during the cooldown is not torn down by a debt owed to its predecessor.
pub proof fn a_new_session_voids_the_debt(o: OrchView, contact: Seq<char>, now: u64)
    requires
        o.life.client.sessions.contains_key(contact),
        str_map::lookup(
            o.machine.condemned,
            contact,
        ) != session_lifecycle::session_id_of(o.life, contact),
    ensures
        !cooldown_over(o, contact, now).1.contains(
            ActionView::SendEndSession { contact_id: contact },
        ),
{
    let a = cooldown_over(o, contact, now).1;
    assert(forall|i: int| 0 <= i < a.len() ==> #[trigger] a[i] is ScheduleTimer);
}

/// A debt owed against the session still held is paid.
pub proof fn a_debt_against_the_held_session_is_paid(o: OrchView, contact: Seq<char>, now: u64)
    requires
        session_machine::machine_step(o.machine, contact, now, SessionEvent::Timeout).1 is TearDown,
        str_map::lookup(
            o.machine.condemned,
            contact,
        ) == session_lifecycle::session_id_of(o.life, contact),
    ensures
        cooldown_over(o, contact, now).1.contains(
            ActionView::SendEndSession { contact_id: contact },
        ),
{
    assert(cooldown_over(o, contact, now).1[1] == (ActionView::SendEndSession {
        contact_id: contact,
    }));
}

/// A device is asked to reopen once per launch: what one pass asked is no candidate of the next.
pub proof fn a_device_is_asked_once_per_launch(
    o: OrchView,
    cs: Seq<Seq<char>>,
    now: u64,
    i: int,
)
    requires
        0 <= i < batch_of(cs.len()),
    ensures
        upgrade_swept(o, cs, now).0.upgrade_asked.contains(cs[i]),
        !is_candidate(upgrade_swept(o, cs, now).0, cs[i]),
{
    let batch = cs.take(batch_of(cs.len()));
    assert(batch[i] == cs[i]);
    asked_are_remembered(o, batch, now, i);
}

proof fn asked_are_remembered(o: OrchView, cs: Seq<Seq<char>>, now: u64, i: int)
    requires
        0 <= i < cs.len(),
    ensures
        upgrades_asked(o, cs, now).0.upgrade_asked.contains(cs[i]),
    decreases cs.len(),
{
    if i < cs.len() - 1 {
        asked_are_remembered(o, cs.drop_last(), now, i);
    }
}

/// The sessions to be upgraded are listed in one order only, so that the batches are the same on
/// every run.
pub proof fn candidates_have_one_order(a: Seq<Seq<char>>, b: Seq<Seq<char>>, o: OrchView)
    requires
        lists_candidates(a, o),
        lists_candidates(b, o),
    ensures
        a == b,
{
    same_members_same_order(a, b);
}

proof fn same_members_same_order(a: Seq<Seq<char>>, b: Seq<Seq<char>>)
    requires
        ascending(a),
        ascending(b),
        forall|k: Seq<char>| #[trigger] a.contains(k) <==> b.contains(k),
    ensures
        a == b,
    decreases a.len(),
{
    if a.len() == 0 {
        if b.len() > 0 {
            assert(b.contains(b[0]));
            assert(a.contains(b[0]));
        }
        assert(a =~= b);
    } else {
        assert(a.contains(a.last()));
        let j = choose|j: int| 0 <= j < b.len() && b[j] == a.last();
        assert(b.contains(b.last()));
        assert(a.contains(b.last()));
        let i = choose|i: int| 0 <= i < a.len() && a[i] == b.last();
        // The last of each is the largest of both.
        if a.last() != b.last() {
            assert(strings::lex_less(b[j], b[b.len() - 1]));
            assert(strings::lex_less(a[i], a[a.len() - 1]));
            strings::lex_asymmetric(a.last(), b.last());
        }
        let a2 = a.drop_last();
        let b2 = b.drop_last();
        assert forall|p: int, q: int| 0 <= p < q < a2.len() implies #[trigger] strings::lex_less(
            a2[p],
            a2[q],
        ) by {
            assert(strings::lex_less(a[p], a[q]));
        }
        assert forall|p: int, q: int| 0 <= p < q < b2.len() implies #[trigger] strings::lex_less(
            b2[p],
            b2[q],
        ) by {
            assert(strings::lex_less(b[p], b[q]));
        }
        assert forall|k: Seq<char>| #[trigger] a2.contains(k) <==> b2.contains(k) by {
            if a2.contains(k) {
                let p = choose|p: int| 0 <= p < a2.len() && a2[p] == k;
                assert(a[p] == k);
                assert(a.contains(k));
                assert(strings::lex_less(a[p], a[a.len() - 1]));
                strings::lex_asymmetric(k, a.last());
                let q = choose|q: int| 0 <= q < b.len() && b[q] == k;
                assert(b2[q] == k);
            }
            if b2.contains(k) {
                let p = choose|p: int| 0 <= p < b2.len() && b2[p] == k;
                assert(b[p] == k);
                assert(b.contains(k));
                assert(a.contains(k));
                assert(strings::lex_less(b[p], b[b.len() - 1]));
                strings::lex_asymmetric(k, b.last());
                let q = choose|q: int| 0 <= q < a.len() && a[q] == k;
                assert(a2[q] == k);
            }
        }
        same_members_same_order(a2, b2);
        assert(a =~= a2.push(a.last()));
        assert(b =~= b2.push(b.last()));
    }
}

} // verus!
