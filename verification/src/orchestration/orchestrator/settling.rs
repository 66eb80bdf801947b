//! What a session that now exists settles: the save, the queue behind it, the notice.

use vstd::prelude::*;

use crate::crypto::engine::CryptoEngine;
use crate::orchestration::actions::{Action, ActionView};
use crate::orchestration::clock::Clock;
use crate::orchestration::healing_queue;
use crate::orchestration::message_router::{self, DecisionView, RouterView};
use crate::orchestration::orchestrator::decisions;
use crate::orchestration::orchestrator::messaging;
use crate::orchestration::orchestrator::{self, OrchView, Orchestrator};
use crate::orchestration::session_lifecycle::{self, save_session_action, LifeView};
use crate::orchestration::session_machine::Event as SessionEvent;
use crate::str_map;
use crate::strings::{join, join3};
use crate::vecs;

verus! {

/// The queue of `contact` is drained to `ds`, leaving `r2` and `l2`: what follows.
pub open spec fn drained_outcome<E: CryptoEngine>(
    engine: &E,
    o: OrchView,
    contact: Seq<char>,
    now: u64,
    r2: RouterView,
    l2: LifeView,
    ds: Seq<DecisionView>,
    next: OrchView,
    actions: Seq<ActionView>,
) -> bool {
    &&& message_router::drain_may(engine, o.router, o.life, contact, now, r2, l2, ds)
    &&& (next, actions) == decisions::conclude_all(orchestrator::with_core(o, r2, l2), ds, now)
}

/// What draining the queue of `contact` may lead to.
pub open spec fn drained_may<E: CryptoEngine>(
    engine: &E,
    o: OrchView,
    contact: Seq<char>,
    now: u64,
    next: OrchView,
    actions: Seq<ActionView>,
) -> bool {
    exists|r2: RouterView, l2: LifeView, ds: Seq<DecisionView>| #[trigger]
        drained_outcome(engine, o, contact, now, r2, l2, ds, next, actions)
}

/// What draining the queues of the devices in `order`, one after the other, may lead to.
pub open spec fn drained_all_may<E: CryptoEngine>(
    engine: &E,
    o: OrchView,
    order: Seq<Seq<char>>,
    now: u64,
    next: OrchView,
    actions: Seq<ActionView>,
) -> bool
    decreases order.len(),
{
    if order.len() == 0 {
        next == o && actions.len() == 0
    } else {
        exists|mid: OrchView, before: Seq<ActionView>, last: Seq<ActionView>|
            drained_all_may(
                engine,
                o,
                order.drop_last(),
                now,
                mid,
                before,
            ) && #[trigger] drained_may(
                engine,
                mid,
                order.last(),
                now,
                next,
                last,
            ) && actions == #[trigger] (before + last)
    }
}

/// The session exports to `x` and its queue drains to `drained`: what a session that now exists
/// settles.
pub open spec fn settled_outcome<E: CryptoEngine>(
    engine: &E,
    o: OrchView,
    contact: Seq<char>,
    now: u64,
    x: Result<Seq<u8>, Seq<char>>,
    drained: Seq<ActionView>,
    next: OrchView,
    actions: Seq<ActionView>,
) -> bool {
    &&& session_lifecycle::exported(engine, o.life, contact, x)
    &&& drained_may(engine, o, contact, now, next, drained)
    &&& actions == messaging::save_exported(contact, x) + drained + seq![
        ActionView::NotifySessionCreated { contact_id: contact },
    ]
}

/// What a session that now exists may settle.
pub open spec fn settled_may<E: CryptoEngine>(
    engine: &E,
    o: OrchView,
    contact: Seq<char>,
    now: u64,
    next: OrchView,
    actions: Seq<ActionView>,
) -> bool {
    exists|x: Result<Seq<u8>, Seq<char>>, drained: Seq<ActionView>| #[trigger]
        settled_outcome(engine, o, contact, now, x, drained, next, actions)
}

/// The state after an opening ended in a session: its phase is released, with any teardown owed
/// from before, and the heal episode is over.
pub open spec fn opening_over(o: OrchView, contact: Seq<char>, now: u64) -> OrchView {
    let done = orchestrator::stepped(o, contact, now, SessionEvent::OpenFinished);
    OrchView {
        life: LifeView { healing: healing_queue::heal_settle(
            done.life.healing,
            contact,
        ), ..done.life },
        ..done
    }
}

/// The text of the error for a session that could not be imported.
pub open spec fn import_failed(contact: Seq<char>, e: Seq<char>) -> Seq<char> {
    "contact="@ + contact + ": "@ + e
}

/// The session is imported to `imported`: what the platform's completion of an opening leads to.
/// A session that was never created is neither drained for nor announced.
pub open spec fn completed_outcome<E: CryptoEngine>(
    engine: &E,
    o: OrchView,
    contact: Seq<char>,
    data: Seq<u8>,
    now: u64,
    l2: LifeView,
    imported: Result<(), Seq<char>>,
    next: OrchView,
    actions: Seq<ActionView>,
) -> bool {
    let done = opening_over(o, contact, now);
    let held = OrchView { life: l2, ..done };
    &&& if data.len() > 0 {
        session_lifecycle::import_may(engine, done.life, contact, data, l2, imported)
    } else {
        l2 == done.life && imported is Ok
    }
    &&& match imported {
        Err(e) => next == held && actions == seq![
            session_lifecycle::notify_error("session_import_failed"@, import_failed(contact, e)),
        ],
        Ok(_) => settled_may(engine, held, contact, now, next, actions),
    }
}

/// What the platform's completion of an opening may lead to.
pub open spec fn completed_may<E: CryptoEngine>(
    engine: &E,
    o: OrchView,
    contact: Seq<char>,
    data: Seq<u8>,
    now: u64,
    next: OrchView,
    actions: Seq<ActionView>,
) -> bool {
    exists|l2: LifeView, imported: Result<(), Seq<char>>| #[trigger]
        completed_outcome(engine, o, contact, data, now, l2, imported, next, actions)
}

/// What coming back online may lead to: everything that waits is tried again, device by device in
/// any order.
pub open spec fn reconnected_may<E: CryptoEngine>(
    engine: &E,
    o: OrchView,
    now: u64,
    next: OrchView,
    actions: Seq<ActionView>,
) -> bool {
    exists|order: Seq<Seq<char>>, drained: Seq<ActionView>|
        #![trigger drained_all_may(engine, o, order, now, next, drained)]
        str_map::names_keys(order, o.router.queues) && drained_all_may(
            engine,
            o,
            order,
            now,
            next,
            drained,
        ) && actions == seq![decisions::schedule("gc_sweep"@, 1_000)] + drained
}

impl<C: Clock, E: CryptoEngine> Orchestrator<C, E> {
    /// Routes everything of this device that waits, and answers each decision, at `now`.
    pub fn drain_at(&mut self, contact_id: &str, now: u64) -> (r: Vec<Action>)
        ensures
            drained_may(
                &old(self).lifecycle.client.engine,
                old(self)@,
                contact_id@,
                now,
                final(self)@,
                r.deep_view(),
            ),
            final(self).lifecycle.client.engine == old(self).lifecycle.client.engine,
            final(self).same_clocks(*old(self)),
    {
        let ghost o = self@;
        let ghost e = self.lifecycle.client.engine;
        let decisions = self.router.drain_pending_at(contact_id, &mut self.lifecycle, now);
        let ghost r2 = self.router@;
        let ghost l2 = self.lifecycle@;
        let ghost ds = decisions.deep_view();
        assert(self@ =~= orchestrator::with_core(o, r2, l2));
        let actions = self.decisions_to_actions_at(decisions, now);
        assert(drained_outcome(
            &e,
            o,
            contact_id@,
            now,
            r2,
            l2,
            ds,
            self@,
            actions.deep_view(),
        ));
        actions
    }

    /// Everything a session that now exists settles, at `now`: the save, the queue behind it, the
    /// notice.
    ///
    /// The machine's phase and the heal episode are settled by the caller, before an import that
    /// can fail.
    pub fn after_session_opened(&mut self, contact_id: &str, now: u64) -> (r: Vec<Action>)
        ensures
            settled_may(
                &old(self).lifecycle.client.engine,
                old(self)@,
                contact_id@,
                now,
                final(self)@,
                r.deep_view(),
            ),
            final(self).lifecycle.client.engine == old(self).lifecycle.client.engine,
            final(self).same_clocks(*old(self)),
    {
        let ghost o = self@;
        let ghost e = self.lifecycle.client.engine;
        let export = self.lifecycle.export_session_bytes_for(contact_id);
        let ghost x = vecs::outcome_bytes(export);
        let mut actions: Vec<Action> = vecs::none();
        if let Ok(data) = export {
            vecs::push(&mut actions, save_session_action(contact_id, data));
        }
        assert(actions.deep_view() =~= messaging::save_exported(contact_id@, x));
        let drained = self.drain_at(contact_id, now);
        let ghost dv = drained.deep_view();
        vecs::append(&mut actions, drained);
        vecs::push(
            &mut actions,
            Action::NotifySessionCreated { contact_id: contact_id.to_owned() },
        );
        assert(actions.deep_view() =~= messaging::save_exported(contact_id@, x) + dv + seq![
            ActionView::NotifySessionCreated { contact_id: contact_id@ },
        ]);
        assert(settled_outcome(&e, o, contact_id@, now, x, dv, self@, actions.deep_view()));
        actions
    }

    /// Ends an opening that came to a session: its phase is released, and the heal episode is over.
    pub fn end_opening(&mut self, contact_id: &str, now: u64)
        ensures
            final(self)@ == opening_over(old(self)@, contact_id@, now),
            final(self).lifecycle.client.engine == old(self).lifecycle.client.engine,
            final(self).same_clocks(*old(self)),
    {
        let _ = self.sessions.handle_at(contact_id, SessionEvent::OpenFinished, now);
        self.lifecycle.healing_queue.settle(contact_id);
    }

    /// The platform finished opening a session.
    pub fn handle_session_init_completed(
        &mut self,
        contact_id: String,
        session_data: Vec<u8>,
        now: u64,
    ) -> (r: Vec<Action>)
        ensures
            completed_may(
                &old(self).lifecycle.client.engine,
                old(self)@,
                contact_id@,
                session_data@,
                now,
                final(self)@,
                r.deep_view(),
            ),
            final(self).lifecycle.client.engine == old(self).lifecycle.client.engine,
            final(self).same_clocks(*old(self)),
    {
        let ghost o = self@;
        let ghost e = self.lifecycle.client.engine;
        let ghost c = contact_id@;
        let ghost data = session_data@;
        self.end_opening(contact_id.as_str(), now);
        let imported = if session_data.len() > 0 {
            self.lifecycle.import_session_bytes(contact_id.as_str(), session_data.as_slice())
        } else {
            Ok(())
        };
        let ghost l2 = self.lifecycle@;
        let ghost iv = vecs::outcome_unit(imported);
        if let Err(f) = imported {
            let text = join3("contact=", contact_id.as_str(), ": ");
            let r = vecs::one(
                Action::NotifyError {
                    code: "session_import_failed".to_owned(),
                    message: join(text.as_str(), f.as_str()),
                },
            );
            assert(completed_outcome(&e, o, c, data, now, l2, iv, self@, r.deep_view()));
            return r;
        }
        let r = self.after_session_opened(contact_id.as_str(), now);
        assert(completed_outcome(&e, o, c, data, now, l2, iv, self@, r.deep_view()));
        r
    }

    /// The network is back: everything that waits is tried again.
    pub fn handle_network_reconnected(&mut self, now: u64) -> (r: Vec<Action>)
        ensures
            reconnected_may(
                &old(self).lifecycle.client.engine,
                old(self)@,
                now,
                final(self)@,
                r.deep_view(),
            ),
            final(self).lifecycle.client.engine == old(self).lifecycle.client.engine,
            final(self).same_clocks(*old(self)),
    {
        let ghost o = self@;
        let ghost e = self.lifecycle.client.engine;
        let mut actions = vecs::one(
            Action::ScheduleTimer { timer_id: "gc_sweep".to_owned(), delay_ms: 1_000 },
        );
        let ghost first = actions.deep_view();
        let contacts = self.router.contacts_with_pending();
        let ghost order = contacts.deep_view();
        let ghost mut drained: Seq<ActionView> = Seq::empty();
        let mut i: usize = 0;
        assert(order.take(0) =~= Seq::<Seq<char>>::empty());
        assert(first =~= first + drained);
        while i < contacts.len()
            invariant
                i <= contacts@.len(),
                order == contacts.deep_view(),
                self.lifecycle.client.engine == e,
                self.same_clocks(*old(self)),
                drained_all_may(&e, o, order.take(i as int), now, self@, drained),
                actions.deep_view() == first + drained,
            decreases contacts@.len() - i,
        {
            let ghost mid = self@;
            let more = self.drain_at(contacts[i].as_str(), now);
            proof {
                let now_order = order.take(i + 1);
                assert(now_order.drop_last() =~= order.take(i as int));
                assert(now_order.last() == contacts@[i as int]@);
                let last = more.deep_view();
                assert(drained_may(&e, mid, now_order.last(), now, self@, last));
                assert(drained_all_may(&e, o, now_order, now, self@, drained + last));
                assert((first + drained) + last =~= first + (drained + last));
                drained = drained + last;
            }
            vecs::append(&mut actions, more);
            i = i + 1;
        }
        assert(order.take(i as int) =~= order);
        actions
    }
}

// ── Laws ────────────────────────────────────────────────────────────────────

/// An import that fails creates nothing: no session is announced, nothing waiting is touched, and
/// the session held before, if any, is the one held after.
pub proof fn a_failed_import_announces_no_session<E: CryptoEngine>(
    engine: &E,
    o: OrchView,
    contact: Seq<char>,
    data: Seq<u8>,
    now: u64,
    l2: LifeView,
    e: Seq<char>,
    next: OrchView,
    actions: Seq<ActionView>,
)
    requires
        completed_outcome(engine, o, contact, data, now, l2, Err(e), next, actions),
    ensures
        next == opening_over(o, contact, now),
        next.router == o.router,
        next.life.client == o.life.client,
        actions.len() == 1,
        actions[0] == session_lifecycle::notify_error("session_import_failed"@, import_failed(contact, e)),
{
}

/// The notice of a session that now exists comes last, behind everything that waited for it.
pub proof fn a_session_is_announced_behind_its_queue<E: CryptoEngine>(
    engine: &E,
    o: OrchView,
    contact: Seq<char>,
    now: u64,
    next: OrchView,
    actions: Seq<ActionView>,
)
    requires
        settled_may(engine, o, contact, now, next, actions),
    ensures
        actions.len() > 0,
        actions.last() == (ActionView::NotifySessionCreated { contact_id: contact }),
{
}

/// A drain lets no control frame wait.
pub proof fn a_drain_keeps_only_messages<E: CryptoEngine>(
    engine: &E,
    o: OrchView,
    contact: Seq<char>,
    now: u64,
    next: OrchView,
    actions: Seq<ActionView>,
)
    requires
        message_router::only_messages_wait(o.router),
        drained_may(engine, o, contact, now, next, actions),
    ensures
        message_router::only_messages_wait(next.router),
{
    let (r2, l2, ds) = choose|r2: RouterView, l2: LifeView, ds: Seq<DecisionView>| #[trigger]
        drained_outcome(engine, o, contact, now, r2, l2, ds, next, actions);
    let taken = message_router::with_queue(o.router, contact, Seq::empty());
    let q = message_router::waiting(o.router, contact);
    emptied_queues_stay(o.router, contact);
    message_router::routing_all_keeps_only_messages(engine, taken, o.life, q, now, r2, l2, ds);
    decisions::answers_queue_only_what_was_refused(
        orchestrator::with_core(o, r2, l2),
        ds,
        now,
        contact,
        contact,
    );
}

proof fn emptied_queues_stay(r: RouterView, contact: Seq<char>)
    requires
        message_router::only_messages_wait(r),
    ensures
        message_router::only_messages_wait(
            message_router::with_queue(r, contact, Seq::empty()),
        ),
        message_router::only_messages_of(message_router::waiting(r, contact), contact),
{
    let n = message_router::with_queue(r, contact, Seq::empty());
    assert forall|k: Seq<char>| #[trigger] n.queues.contains_key(
        k,
    ) implies message_router::only_messages_of(n.queues[k], k) by {
        assert(r.queues.contains_key(k));
    }
}

/// Draining the queues of several devices lets no control frame wait.
pub proof fn drains_keep_only_messages<E: CryptoEngine>(
    engine: &E,
    o: OrchView,
    order: Seq<Seq<char>>,
    now: u64,
    next: OrchView,
    actions: Seq<ActionView>,
)
    requires
        message_router::only_messages_wait(o.router),
        drained_all_may(engine, o, order, now, next, actions),
    ensures
        message_router::only_messages_wait(next.router),
    decreases order.len(),
{
    if order.len() > 0 {
        let (mid, before, last) = choose|
            mid: OrchView,
            before: Seq<ActionView>,
            last: Seq<ActionView>,
        |
            drained_all_may(
                engine,
                o,
                order.drop_last(),
                now,
                mid,
                before,
            ) && #[trigger] drained_may(
                engine,
                mid,
                order.last(),
                now,
                next,
                last,
            ) && actions == #[trigger] (before + last);
        drains_keep_only_messages(engine, o, order.drop_last(), now, mid, before);
        a_drain_keeps_only_messages(engine, mid, order.last(), now, next, last);
    }
}

/// What waits behind a session that now exists does not take it away: after it is settled the
/// session is held, and a message that was processed before waits nowhere it did not wait.
pub proof fn a_settled_session_is_held<E: CryptoEngine>(
    engine: &E,
    o: OrchView,
    contact: Seq<char>,
    now: u64,
    next: OrchView,
    actions: Seq<ActionView>,
    id: Seq<char>,
    other: Seq<char>,
)
    requires
        settled_may(engine, o, contact, now, next, actions),
        o.life.client.sessions.contains_key(contact),
        o.life.ack.processed.contains_key(id),
        message_router::only_messages_wait(o.router),
    ensures
        next.life.client.sessions.contains_key(contact),
        next.life.ack.processed.contains_key(id),
        message_router::only_messages_wait(next.router),
        !message_router::has_id(message_router::waiting(next.router, contact), id),
        !message_router::has_id(message_router::waiting(o.router, other), id)
            ==> !message_router::has_id(message_router::waiting(next.router, other), id),
{
    let (x, drained) = choose|x: Result<Seq<u8>, Seq<char>>, drained: Seq<ActionView>| #[trigger]
        settled_outcome(engine, o, contact, now, x, drained, next, actions);
    a_drain_keeps_only_messages(engine, o, contact, now, next, drained);
    let (r2, l2, ds) = choose|r2: RouterView, l2: LifeView, ds: Seq<DecisionView>| #[trigger]
        drained_outcome(engine, o, contact, now, r2, l2, ds, next, drained);
    let taken = message_router::with_queue(o.router, contact, Seq::empty());
    let q = message_router::waiting(o.router, contact);
    emptied_queues_stay(o.router, contact);
    message_router::routing_all_keeps_only_messages(engine, taken, o.life, q, now, r2, l2, ds);
    message_router::a_drain_keeps_its_session(
        engine,
        taken,
        o.life,
        q,
        now,
        r2,
        l2,
        ds,
        contact,
        id,
    );
    let core = orchestrator::with_core(o, r2, l2);
    decisions::answers_queue_only_what_was_refused(core, ds, now, contact, id);
    decisions::answers_queue_only_what_was_refused(core, ds, now, other, id);
}

} // verus!
