//! The one entry point of the platform: events go in, actions come out.
//!
//! The `Orchestrator` holds everything that is decided from: the sessions and what is remembered of
//! them, the messages that wait, and the phase of every ratchet.

pub mod alarms;
pub mod answering;
pub mod asking;
pub mod confirming;
pub mod decisions;
pub mod delivering;
pub mod draining;
pub mod events;
pub mod handshaking;
pub mod holds;
pub mod keeping;
pub mod keyring;
pub mod messaging;
pub mod opening;
pub mod origins;
pub mod persisting;
pub mod provisioning;
pub mod receiving;
pub mod responding;
pub mod roles;
pub mod settling;
pub mod timers;

use std::sync::Arc;

use vstd::prelude::*;

use crate::crypto::client_api::{ClassicClient, ClientView};
use crate::crypto::engine::CryptoEngine;
use crate::orchestration::ack_store::{self, AckCheckResult};
use crate::orchestration::actions::Action;
use crate::orchestration::clock::{self, Clock};
use crate::orchestration::message_router::{self, MessageRouter, RouterView};
use crate::orchestration::orchestrator::holds::{ConfirmHold, HoldView};
use crate::orchestration::session_lifecycle::{self, LifeView, SessionLifecycleManager};
use crate::orchestration::session_machine::{
    self, Event as SessionEvent, MachineView, SessionMachine,
};
use crate::str_map::{self, StrMap, StrSet};
use crate::utils::time::SystemClock;

verus! {

/// The contents of an `Orchestrator`.
#[verifier::ext_equal]
pub struct OrchView {
    pub life: LifeView,
    pub router: RouterView,
    pub machine: MachineView,
    /// The contacts that have been pre-warmed.
    pub prewarmed: Set<Seq<char>>,
    /// Whether a one-time Kyber prekey was used up and that is not persisted yet.
    pub kyber_dirty: bool,
    /// The devices the upgrade sweep has asked to reopen since launch.
    pub upgrade_asked: Set<Seq<char>>,
    /// The messages the confirm gate of each device holds, in the order they arrived.
    pub holds: Map<Seq<char>, Seq<HoldView>>,
}

/// The state with the machine replaced.
pub open spec fn with_machine(o: OrchView, machine: MachineView) -> OrchView {
    OrchView { machine, ..o }
}

/// The state after an event of one device was fed to the machine.
pub open spec fn stepped(
    o: OrchView,
    device: Seq<char>,
    now: u64,
    event: SessionEvent,
) -> OrchView {
    with_machine(o, session_machine::machine_step(o.machine, device, now, event).0)
}

/// The state with the messages that wait and the sessions replaced.
pub open spec fn with_core(o: OrchView, router: RouterView, life: LifeView) -> OrchView {
    OrchView { router, life, ..o }
}

/// The state with everything of one contact forgotten.
pub open spec fn forgotten(o: OrchView, contact: Seq<char>, now: u64) -> OrchView {
    OrchView {
        life: session_lifecycle::contact_forgotten(o.life, contact),
        router: message_router::router_forgot(o.router, contact),
        machine: session_machine::machine_step(o.machine, contact, now, SessionEvent::Forget).0,
        prewarmed: o.prewarmed.remove(contact),
        holds: o.holds.remove(contact),
        ..o
    }
}

/// Everything the core decides from.
pub struct Orchestrator<C: Clock, E: CryptoEngine> {
    pub lifecycle: SessionLifecycleManager<C, E>,
    pub router: MessageRouter,
    /// What phase each ratchet is in, and the only thing that decides whether a session may be
    /// opened or torn down right now.
    pub sessions: SessionMachine<C>,
    /// Contacts that have been pre-warmed.
    pub prewarm_done: StrSet,
    /// A one-time Kyber prekey was used up since `take_kyber_prekeys_to_persist`.
    pub kyber_prekeys_dirty: bool,
    /// Devices the upgrade sweep has already asked to reopen since launch. In memory on purpose:
    /// the next launch is when to try again.
    pub pq_upgrade_asked: StrSet,
    /// Messages the confirm gate is holding, per device, in arrival order. In memory on purpose: a
    /// held message is never acknowledged to the server, so after a restart it is redelivered.
    pub confirm_holds: StrMap<Vec<ConfirmHold>>,
}

impl<C: Clock, E: CryptoEngine> View for Orchestrator<C, E> {
    type V = OrchView;

    open spec fn view(&self) -> OrchView {
        OrchView {
            life: self.lifecycle@,
            router: self.router@,
            machine: self.sessions@,
            prewarmed: self.prewarm_done@,
            kyber_dirty: self.kyber_prekeys_dirty,
            upgrade_asked: self.pq_upgrade_asked@,
            holds: self.confirm_holds@,
        }
    }
}

/// An orchestrator that knows nothing but its client.
pub open spec fn fresh(client: ClientView, user_id: Seq<char>) -> OrchView {
    OrchView {
        life: session_lifecycle::fresh_life(client, user_id),
        router: RouterView { queues: Map::empty(), unchecked: Map::empty() },
        machine: MachineView {
            phases: Map::empty(),
            condemned: Map::empty(),
            resets: Map::empty(),
        },
        prewarmed: Set::empty(),
        kyber_dirty: false,
        upgrade_asked: Set::empty(),
        holds: Map::empty(),
    }
}

impl<E: CryptoEngine> Orchestrator<SystemClock, E> {
    /// An orchestrator for the given local user that reads the time of the system.
    pub fn new(client: ClassicClient<E>, my_user_id: String) -> (r: Self)
        ensures
            r@ == fresh(client@, my_user_id@),
            r.lifecycle.client.engine == client.engine,
            r.reads_from(SystemClock),
    {
        Self::new_with_clock(client, my_user_id, Arc::new(SystemClock))
    }
}

impl<C: Clock, E: CryptoEngine> Orchestrator<C, E> {
    /// An orchestrator for the given local user that reads the time from `clock`.
    pub fn new_with_clock(client: ClassicClient<E>, my_user_id: String, clock: Arc<C>) -> (r: Self)
        ensures
            r@ == fresh(client@, my_user_id@),
            r.lifecycle.client.engine == client.engine,
            r.reads_from(*clock),
    {
        Orchestrator {
            lifecycle: SessionLifecycleManager::new_with_clock(
                client,
                my_user_id,
                clock::shared(&clock),
            ),
            router: MessageRouter::new(),
            sessions: SessionMachine::new(clock),
            prewarm_done: StrSet::new(),
            kyber_prekeys_dirty: false,
            pq_upgrade_asked: StrSet::new(),
            confirm_holds: StrMap::new(),
        }
    }

    /// Whether `clock` is the one clock everything in this orchestrator reads.
    pub open spec fn reads_from(self, clock: C) -> bool {
        self.lifecycle.reads_from(clock) && self.sessions.source() == clock
    }

    /// Whether everything in this orchestrator reads the clock it reads in `other`.
    pub open spec fn same_clocks(self, other: Self) -> bool {
        self.lifecycle.same_clocks(other.lifecycle) && self.sessions.source()
            == other.sessions.source()
    }

    /// A reading the clock of this orchestrator may give.
    pub open spec fn reads(&self, now: u64) -> bool {
        clock::reads(&*self.lifecycle.clock, now)
    }

    /// The time, read once for everything one call decides.
    pub fn now_ms(&self) -> (r: u64)
        ensures
            self.reads(r),
    {
        self.lifecycle.clock.now_ms()
    }

    // ── Accessors ───────────────────────────────────────────────────────────

    pub fn my_user_id(&self) -> (r: &str)
        ensures
            r@ == self@.life.my_user_id,
    {
        self.lifecycle.my_user_id()
    }

    /// Whether an announced opening of this device is unanswered at `now`.
    pub fn awaits_acknowledgement_at(&self, contact_id: &str, now: u64) -> (r: bool)
        ensures
            r == session_machine::gate_up(self@.machine, contact_id@, now),
    {
        self.sessions.awaits_acknowledgement_at(contact_id, now)
    }

    /// Whether an announced opening of this device is unanswered.
    pub fn awaits_acknowledgement(&self, contact_id: &str) -> (r: bool)
        ensures
            exists|now: u64| #[trigger]
                self.reads(now) && r == session_machine::gate_up(
                self@.machine,
                contact_id@,
                now,
            ),
    {
        let now: u64 = self.now_ms();
        self.awaits_acknowledgement_at(contact_id, now)
    }

    pub fn has_active_session(&self, contact_id: &str) -> (r: bool)
        ensures
            r == self@.life.client.sessions.contains_key(contact_id@),
    {
        self.lifecycle.has_active_session(contact_id)
    }

    pub fn pending_message_count(&self, contact_id: &str) -> (r: usize)
        ensures
            r == message_router::waiting(self@.router, contact_id@).len(),
    {
        self.router.pending_count(contact_id)
    }

    pub fn set_my_user_id(&mut self, user_id: String)
        ensures
            final(self)@ == (OrchView { life: session_lifecycle::renamed(
                old(self)@.life,
                user_id@,
            ), ..old(self)@ }),
            final(self).lifecycle.client.engine == old(self).lifecycle.client.engine,
            final(self).same_clocks(*old(self)),
    {
        self.lifecycle.set_my_user_id(user_id);
    }

    /// Forgets everything of a contact at `now`. See `forget_contact_state`.
    pub fn forget_contact_state_at(&mut self, contact_id: &str, now: u64)
        ensures
            final(self)@ == forgotten(old(self)@, contact_id@, now),
            final(self).lifecycle.client.engine == old(self).lifecycle.client.engine,
            final(self).same_clocks(*old(self)),
    {
        self.router.forget_contact(contact_id);
        self.lifecycle.forget_contact_state(contact_id);
        let _ = self.sessions.handle_at(contact_id, SessionEvent::Forget, now);
        self.prewarm_done.remove(contact_id);
        let _ = self.confirm_holds.remove(contact_id);
    }

    /// Removes all volatile local state of a contact the platform deliberately forgot.
    ///
    /// This is not a protocol reset and tells the peer nothing. It exists so that deleting and
    /// re-adding a contact cannot reuse stale messages, heals or phases.
    pub fn forget_contact_state(&mut self, contact_id: &str)
        ensures
            exists|now: u64| #[trigger]
                old(self).reads(now) && final(self)@ == forgotten(old(self)@, contact_id@, now),
            final(self).lifecycle.client.engine == old(self).lifecycle.client.engine,
            final(self).same_clocks(*old(self)),
    {
        let now: u64 = self.now_ms();
        self.forget_contact_state_at(contact_id, now);
    }

    pub fn ack_is_processed(&self, message_id: &str) -> (r: AckCheckResult)
        ensures
            r == ack_store::ack_check(self@.life.ack, message_id@),
    {
        self.lifecycle.ack_store.is_processed(message_id)
    }

    pub fn ack_mark_processed(&mut self, message_id: &str) -> (r: Vec<Action>)
        ensures
            exists|now: u64| #[trigger]
                old(self).reads(now) && ({
                    let (ack, actions) = ack_store::ack_mark(old(self)@.life.ack, message_id@, now);
                    &&& final(self)@ == (OrchView {
                        life: LifeView { ack, ..old(self)@.life },
                        ..old(self)@
                    })
                    &&& r.deep_view() == actions
                }),
            final(self).lifecycle.client.engine == old(self).lifecycle.client.engine,
            final(self).same_clocks(*old(self)),
    {
        let now: u64 = self.now_ms();
        let ghost a = self@.life.ack;
        let r = self.lifecycle.ack_store.mark_processed_at(message_id, now);
        assert((self@.life.ack, r.deep_view()) == ack_store::ack_mark(a, message_id@, now));
        r
    }
}

/// Forgetting a device leaves nothing of it waiting, held or pre-warmed and no phase of it, and
/// leaves every other device as it was.
pub proof fn forgetting_is_of_one_device(
    o: OrchView,
    contact: Seq<char>,
    now: u64,
    other: Seq<char>,
)
    ensures
        ({
            let next = forgotten(o, contact, now);
            &&& !next.life.client.sessions.contains_key(contact)
            &&& message_router::waiting(next.router, contact).len() == 0
            &&& str_map::lookup(next.machine.phases, contact) is None
            &&& str_map::lookup(next.machine.condemned, contact) is None
            &&& str_map::lookup(next.machine.resets, contact) is None
            &&& !next.prewarmed.contains(contact)
            &&& !next.holds.contains_key(contact)
            &&& other != contact ==> {
                &&& str_map::lookup(next.life.client.sessions, other) == str_map::lookup(
                    o.life.client.sessions,
                    other,
                )
                &&& message_router::waiting(next.router, other) == message_router::waiting(
                    o.router,
                    other,
                )
                &&& str_map::lookup(next.machine.phases, other) == str_map::lookup(
                    o.machine.phases,
                    other,
                )
                &&& next.prewarmed.contains(other) == o.prewarmed.contains(other)
                &&& str_map::lookup(next.holds, other) == str_map::lookup(o.holds, other)
            }
            &&& next.upgrade_asked == o.upgrade_asked
            &&& next.kyber_dirty == o.kyber_dirty
        }),
{
}

/// A new state knows nothing: nothing waits, no device has a phase, nothing is held, asked or
/// pre-warmed.
pub proof fn a_new_state_is_empty(client: ClientView, user_id: Seq<char>, device: Seq<char>)
    ensures
        ({
            let o = fresh(client, user_id);
            &&& message_router::waiting(o.router, device).len() == 0
            &&& !o.router.unchecked.contains_key(device)
            &&& str_map::lookup(o.machine.phases, device) is None
            &&& str_map::lookup(o.machine.condemned, device) is None
            &&& str_map::lookup(o.machine.resets, device) is None
            &&& !o.prewarmed.contains(device)
            &&& !o.upgrade_asked.contains(device)
            &&& !o.holds.contains_key(device)
            &&& !o.kyber_dirty
            &&& !o.life.ack.processed.contains_key(device)
            &&& !o.life.ack.post_restart
            &&& !o.life.healing.records.contains_key(device)
            &&& !o.life.deferred.contains_key(device)
            &&& !o.life.archives.contains_key(device)
            &&& !o.life.pins.contains_key(device)
            &&& o.life.client.sessions == client.sessions
            &&& o.life.client.keys == client.keys
        }),
{
}

} // verus!
