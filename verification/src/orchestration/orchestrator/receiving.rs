//! Opening a receiving session from what waits under a claimed device.
//!
//! The device a sender certificate names is a claim, proven only by decryption. Everything queued
//! under it is tried against every bundle of the account the claim belongs to.

use vstd::prelude::*;

use crate::crypto::engine::{self, CryptoEngine};
use crate::crypto::handshake::{BundleView, X3DHPublicKeyBundle};
use crate::orchestration::ack_store;
use crate::orchestration::actions::{Action, ActionView};
use crate::orchestration::clock::Clock;
use crate::orchestration::message_router::{
    self, DecisionView, IncomingMessage, MessageView, RoutingDecision, CT_SESSION_RESET_INIT,
};
use crate::orchestration::orchestrator::decisions;
use crate::orchestration::orchestrator::opening;
use crate::orchestration::orchestrator::responding::{self, FirstView, IncomingFirstMessage};
use crate::orchestration::orchestrator::settling;
use crate::orchestration::orchestrator::{self, OrchView, Orchestrator};
use crate::orchestration::receiving_init_plan::{
    self, plan_receiving_init, ReceivingInitAttempt, ReceivingInitCarrier,
};
use crate::orchestration::session_lifecycle::{self, LifeView};
use crate::orchestration::session_machine::Event as SessionEvent;
use crate::strings::{join, join3, same_str};
use crate::vecs;

verus! {

/// What `Orchestrator::open_receiving` did.
#[derive(Debug)]
pub struct ReceivingOpen {
    /// The device the session opened with — derived from the bundle that opened, not the claim.
    pub opened_device: Option<String>,
    /// The message the session opened from.
    pub opener_message_id: Option<String>,
    /// The archive of a replaced session, the opener's own answer, the save, the drain, the notice.
    pub actions: Vec<Action>,
    /// On failure: every carrier attempted — each proven unopenable against every bundle given.
    pub tried_message_ids: Vec<String>,
    /// On failure: the rest of the queue, dropped with it.
    pub dropped_message_ids: Vec<String>,
    /// On failure: the last attempt's refusal.
    pub last_error: Option<String>,
}

/// A `ReceivingOpen` by what its fields hold.
pub struct ReceivingView {
    pub opened_device: Option<Seq<char>>,
    pub opener_message_id: Option<Seq<char>>,
    pub actions: Seq<ActionView>,
    pub tried_message_ids: Seq<Seq<char>>,
    pub dropped_message_ids: Seq<Seq<char>>,
    pub last_error: Option<Seq<char>>,
}

impl DeepView for ReceivingOpen {
    type V = ReceivingView;

    open spec fn deep_view(&self) -> ReceivingView {
        ReceivingView {
            opened_device: self.opened_device.deep_view(),
            opener_message_id: self.opener_message_id.deep_view(),
            actions: self.actions.deep_view(),
            tried_message_ids: self.tried_message_ids.deep_view(),
            dropped_message_ids: self.dropped_message_ids.deep_view(),
            last_error: self.last_error.deep_view(),
        }
    }
}

// ── The plan ────────────────────────────────────────────────────────────────

/// A waiting message as the plan sees it. One that cannot be read is shaped so that the plan skips
/// it.
pub open spec fn carrier_of(m: MessageView) -> ReceivingInitCarrier {
    match responding::first_message_of(m.wire_payload) {
        Ok(f) => ReceivingInitCarrier {
            message_number: f.message_number,
            one_time_prekey_id: f.one_time_prekey_id,
            kem_ciphertext_bytes: f.kem_ciphertext.len() as u32,
            pq_message_epoch: f.pq_message_epoch,
            is_session_reset_init: m.content_type == CT_SESSION_RESET_INIT,
        },
        Err(_) => ReceivingInitCarrier {
            message_number: u32::MAX,
            one_time_prekey_id: 0,
            kem_ciphertext_bytes: 0,
            pq_message_epoch: 0,
            is_session_reset_init: false,
        },
    }
}

/// The attempts to make, in order.
pub open spec fn walk_plan(queued: Seq<MessageView>, bundles: Seq<BundleView>) -> Seq<
    ReceivingInitAttempt,
> {
    receiving_init_plan::attempts(
        queued.map_values(|m: MessageView| carrier_of(m)),
        bundles.len() as u32,
    )
}

// ── Success ─────────────────────────────────────────────────────────────────

/// The text of the report that a certificate named the wrong device.
pub open spec fn mismatch(claimed: Seq<char>, device: Seq<char>) -> Seq<char> {
    "certificate named "@ + claimed + ", the session opened with "@ + device
}

/// The state with the session that was replaced archived, if one was.
pub open spec fn replaced_archived(
    o: OrchView,
    device: Seq<char>,
    replaced: Option<Seq<u8>>,
    now: u64,
) -> (OrchView, Seq<ActionView>) {
    match replaced {
        Some(data) => (
            OrchView { life: session_lifecycle::archive_recorded(o.life, device, data, now), ..o },
            seq![ActionView::SessionTerminated { contact_id: device, archive_bytes: data }],
        ),
        None => (o, Seq::empty()),
    }
}

/// The state with the opener taken from the queue; and, where the claim was wrong, what waits filed
/// under the device that wrote it, the opening of the claimed device over, and the mismatch
/// reported.
pub open spec fn claim_settled(
    o: OrchView,
    claimed: Seq<char>,
    device: Seq<char>,
    opener_id: Seq<char>,
    now: u64,
) -> (OrchView, Seq<ActionView>) {
    let taken = OrchView {
        router: message_router::with_queue(
            o.router,
            claimed,
            message_router::without_id(message_router::waiting(o.router, claimed), opener_id),
        ),
        ..o
    };
    if claimed == device {
        (taken, Seq::empty())
    } else {
        let moved = OrchView { router: message_router::rekeyed(
            taken.router,
            claimed,
            device,
        ), ..taken };
        (
            orchestrator::stepped(moved, claimed, now, SessionEvent::OpenFailed),
            seq![session_lifecycle::notify_error("sender_device_mismatch"@, mismatch(claimed, device))],
        )
    }
}

/// Everything that follows a session that opened, up to what the session itself settles. The opener
/// is a message like any other: recorded as processed, and answered as a live decrypt of it would
/// be.
pub open spec fn opener_answered(
    o: OrchView,
    claimed: Seq<char>,
    device: Seq<char>,
    opener: MessageView,
    plaintext: Seq<u8>,
    replaced: Option<Seq<u8>>,
    now: u64,
) -> (OrchView, Seq<ActionView>) {
    let (o1, a1) = replaced_archived(o, device, replaced, now);
    let (o2, a2) = claim_settled(o1, claimed, device, opener.message_id, now);
    let (ack, processed) = ack_store::ack_mark(o2.life.ack, opener.message_id, now);
    let o3 = OrchView { life: LifeView { ack, ..o2.life }, ..o2 };
    let decision = DecisionView::Decrypted {
        contact_id: device,
        message_id: opener.message_id,
        plaintext,
        content_type: opener.content_type,
        actions: processed,
    };
    let (o4, a4) = decisions::decide(o3, decision, now);
    (settling::opening_over(o4, device, now), a1 + a2 + a4)
}

/// What a session that opened may come to.
pub open spec fn opened_may<E: CryptoEngine>(
    engine: &E,
    o: OrchView,
    claimed: Seq<char>,
    device: Seq<char>,
    opener: MessageView,
    plaintext: Seq<u8>,
    replaced: Option<Seq<u8>>,
    now: u64,
    next: OrchView,
    out: ReceivingView,
) -> bool {
    let (ready, first) = opener_answered(
        o,
        claimed,
        device,
        opener,
        plaintext,
        replaced,
        now,
    );
    exists|settled: Seq<ActionView>| #[trigger]
        settling::settled_may(engine, ready, device, now, next, settled) && out == (ReceivingView {
            opened_device: Some(device),
            opener_message_id: Some(opener.message_id),
            actions: first + settled,
            tried_message_ids: Seq::empty(),
            dropped_message_ids: Seq::empty(),
            last_error: None,
        })
}

// ── Failure ─────────────────────────────────────────────────────────────────

/// The ids of the messages of a queue that were not tried.
pub open spec fn untried(q: Seq<MessageView>, tried: Seq<Seq<char>>) -> Seq<Seq<char>>
    decreases q.len(),
{
    if q.len() == 0 {
        Seq::empty()
    } else {
        let before = untried(q.drop_last(), tried);
        if tried.contains(q.last().message_id) {
            before
        } else {
            before.push(q.last().message_id)
        }
    }
}

/// Nothing opened. What was tried is proven unopenable, and the rest cannot open without a session
/// either: the queue goes, and the opening it asked for ends with it.
pub open spec fn nothing_opened(
    o: OrchView,
    claimed: Seq<char>,
    tried: Seq<Seq<char>>,
    last_error: Option<Seq<char>>,
    now: u64,
) -> (OrchView, ReceivingView) {
    let dropped = OrchView { router: message_router::with_queue(
        o.router,
        claimed,
        Seq::empty(),
    ), ..o };
    (
        orchestrator::stepped(dropped, claimed, now, SessionEvent::OpenFailed),
        ReceivingView {
            opened_device: None,
            opener_message_id: None,
            actions: Seq::empty(),
            tried_message_ids: tried,
            dropped_message_ids: untried(message_router::waiting(o.router, claimed), tried),
            last_error,
        },
    )
}

// ── The walk ────────────────────────────────────────────────────────────────

/// The list with `id` behind it, unless it is there.
pub open spec fn tried_with(tried: Seq<Seq<char>>, id: Seq<char>) -> Seq<Seq<char>> {
    if tried.contains(id) {
        tried
    } else {
        tried.push(id)
    }
}

/// One attempt: the bundle's key derives to `device`, whose session exports to `x` and is taken
/// aside, and the first message comes to `result`.
pub open spec fn attempt_outcome<E: CryptoEngine>(
    engine: &E,
    o: OrchView,
    bundle: BundleView,
    first: FirstView,
    device: Seq<char>,
    x: Result<Seq<u8>, Seq<char>>,
    left: OrchView,
    result: Result<Seq<u8>, Seq<char>>,
) -> bool {
    &&& engine::said_derive_device_id(engine, bundle.identity_public, device)
    &&& session_lifecycle::exported(engine, o.life, device, x)
    &&& responding::received_may(
        engine,
        opening::set_aside(o, device),
        device,
        bundle,
        first,
        left,
        result,
    )
}

/// What is archived of a session that was replaced.
pub open spec fn archivable(x: Result<Seq<u8>, Seq<char>>) -> Option<Seq<u8>> {
    match x {
        Ok(data) => Some(data),
        Err(_) => None,
    }
}

/// What an attempt may come to, once a session taken aside for nothing was put back.
pub open spec fn attempted<E: CryptoEngine>(
    engine: &E,
    o: OrchView,
    bundle: BundleView,
    first: FirstView,
    device: Seq<char>,
    replaced: Option<Seq<u8>>,
    result: Result<Seq<u8>, Seq<char>>,
    next: OrchView,
) -> bool {
    exists|x: Result<Seq<u8>, Seq<char>>, left: OrchView| #[trigger]
        attempt_outcome(
            engine,
            o,
            bundle,
            first,
            device,
            x,
            left,
            result,
        ) && replaced == archivable(
            x,
        ) && next == (if result is Ok {
            left
        } else {
            o
        })
}

/// Whether an attempt of the plan can be made: there is such a message and such a bundle, and the
/// message can be read.
pub open spec fn can_try(
    queued: Seq<MessageView>,
    bundles: Seq<BundleView>,
    a: ReceivingInitAttempt,
) -> bool {
    &&& a.carrier_index < queued.len()
    &&& a.bundle_index < bundles.len()
    &&& responding::first_message_of(queued[a.carrier_index as int].wire_payload) is Ok
}

/// What walking the rest of a plan may come to. An attempt that fails leaves the state as it was;
/// the first that opens ends the walk.
pub open spec fn walk_may<E: CryptoEngine>(
    engine: &E,
    o: OrchView,
    claimed: Seq<char>,
    queued: Seq<MessageView>,
    bundles: Seq<BundleView>,
    plan: Seq<ReceivingInitAttempt>,
    tried: Seq<Seq<char>>,
    last_error: Option<Seq<char>>,
    now: u64,
    next: OrchView,
    out: ReceivingView,
) -> bool
    decreases plan.len(),
{
    if plan.len() == 0 {
        (next, out) == nothing_opened(o, claimed, tried, last_error, now)
    } else if !can_try(queued, bundles, plan[0]) {
        walk_may(
            engine,
            o,
            claimed,
            queued,
            bundles,
            plan.drop_first(),
            tried,
            last_error,
            now,
            next,
            out,
        )
    } else {
        let carrier = queued[plan[0].carrier_index as int];
        let bundle = bundles[plan[0].bundle_index as int];
        let first = responding::first_message_of(carrier.wire_payload)->Ok_0;
        exists|
            device: Seq<char>,
            x: Result<Seq<u8>, Seq<char>>,
            left: OrchView,
            result: Result<Seq<u8>, Seq<char>>,
        | #[trigger]
            attempt_outcome(engine, o, bundle, first, device, x, left, result) && match result {
                Ok(plaintext) => opened_may(
                    engine,
                    left,
                    claimed,
                    device,
                    carrier,
                    plaintext,
                    archivable(x),
                    now,
                    next,
                    out,
                ),
                Err(e) => walk_may(
                    engine,
                    o,
                    claimed,
                    queued,
                    bundles,
                    plan.drop_first(),
                    tried_with(tried, carrier.message_id),
                    Some(e),
                    now,
                    next,
                    out,
                ),
            }
    }
}

/// What opening a receiving session from what waits under `claimed` may come to.
pub open spec fn open_receiving_may<E: CryptoEngine>(
    engine: &E,
    o: OrchView,
    claimed: Seq<char>,
    bundles: Seq<BundleView>,
    now: u64,
    next: OrchView,
    out: ReceivingView,
) -> bool {
    let queued = message_router::waiting(o.router, claimed);
    walk_may(
        engine,
        o,
        claimed,
        queued,
        bundles,
        walk_plan(queued, bundles),
        Seq::empty(),
        None,
        now,
        next,
        out,
    )
}

impl<C: Clock, E: CryptoEngine> Orchestrator<C, E> {
    /// Everything that follows a session that opened, up to what the session itself settles.
    pub fn answer_opener(
        &mut self,
        claimed: &str,
        device: &str,
        opener: &IncomingMessage,
        plaintext: Vec<u8>,
        replaced: Option<Vec<u8>>,
        now: u64,
    ) -> (r: Vec<Action>)
        ensures
            (final(self)@, r.deep_view()) == opener_answered(
                old(self)@,
                claimed@,
                device@,
                opener.deep_view(),
                plaintext@,
                vecs::opt_bytes(replaced),
                now,
            ),
            final(self).lifecycle.client.engine == old(self).lifecycle.client.engine,
            final(self).same_clocks(*old(self)),
    {
        let ghost o = self@;
        let ghost rv = vecs::opt_bytes(replaced);
        let ghost (o1, a1) = replaced_archived(o, device@, rv, now);
        let mut actions: Vec<Action> = vecs::none();
        if let Some(data) = replaced {
            let archived = self.lifecycle.record_archive_at(device, data, now);
            vecs::push(&mut actions, archived);
        }
        assert(actions.deep_view() =~= a1);
        assert(self@ == o1);

        let ghost (o2, a2) = claim_settled(
            o1,
            claimed@,
            device@,
            opener.deep_view().message_id,
            now,
        );
        self.router.remove_pending(claimed, opener.message_id.as_str());
        if !same_str(claimed, device) {
            self.router.rekey_pending(claimed, device);
            let _ = self.sessions.handle_at(claimed, SessionEvent::OpenFailed, now);
            let text = join3("certificate named ", claimed, ", the session opened with ");
            vecs::push(
                &mut actions,
                Action::NotifyError {
                    code: "sender_device_mismatch".to_owned(),
                    message: join(text.as_str(), device),
                },
            );
        }
        assert(actions.deep_view() =~= a1 + a2);
        assert(self@ == o2);

        let processed = self.lifecycle.ack_store.mark_processed_at(
            opener.message_id.as_str(),
            now,
        );
        let ghost o3 = self@;
        let decision = RoutingDecision::Decrypted {
            contact_id: device.to_owned(),
            message_id: opener.message_id.clone(),
            plaintext,
            content_type: opener.content_type,
            actions: processed,
        };
        let ghost (o4, a4) = decisions::decide(o3, decision.deep_view(), now);
        let answer = self.decide_actions_at(decision, now);
        vecs::append(&mut actions, answer);
        assert(actions.deep_view() =~= a1 + a2 + a4);
        self.end_opening(device, now);
        actions
    }

    /// The success half of `open_receiving`.
    fn receiving_opened(
        &mut self,
        claimed: &str,
        device: String,
        opener: &IncomingMessage,
        plaintext: Vec<u8>,
        replaced: Option<Vec<u8>>,
        now: u64,
    ) -> (r: ReceivingOpen)
        ensures
            opened_may(
                &old(self).lifecycle.client.engine,
                old(self)@,
                claimed@,
                device@,
                opener.deep_view(),
                plaintext@,
                vecs::opt_bytes(replaced),
                now,
                final(self)@,
                r.deep_view(),
            ),
            final(self).lifecycle.client.engine == old(self).lifecycle.client.engine,
            final(self).same_clocks(*old(self)),
    {
        let ghost e = self.lifecycle.client.engine;
        let mut actions = self.answer_opener(
            claimed,
            device.as_str(),
            opener,
            plaintext,
            replaced,
            now,
        );
        let ghost ready = self@;
        let ghost first = actions.deep_view();
        let settled = self.after_session_opened(device.as_str(), now);
        let ghost sv = settled.deep_view();
        assert(settling::settled_may(&e, ready, device@, now, self@, sv));
        vecs::append(&mut actions, settled);
        ReceivingOpen {
            opened_device: Some(device),
            opener_message_id: Some(opener.message_id.clone()),
            actions,
            tried_message_ids: vecs::none(),
            dropped_message_ids: vecs::none(),
            last_error: None,
        }
    }

    /// The failure half of `open_receiving`.
    fn receiving_failed(
        &mut self,
        claimed: &str,
        tried: Vec<String>,
        last_error: Option<String>,
        now: u64,
    ) -> (r: ReceivingOpen)
        ensures
            (final(self)@, r.deep_view()) == nothing_opened(
                old(self)@,
                claimed@,
                tried.deep_view(),
                last_error.deep_view(),
                now,
            ),
            final(self).lifecycle.client.engine == old(self).lifecycle.client.engine,
            final(self).same_clocks(*old(self)),
    {
        let ghost tv = tried.deep_view();
        let taken = self.router.take_pending(claimed);
        let ghost q = taken.deep_view();
        let mut dropped: Vec<String> = vecs::none();
        let mut i: usize = 0;
        assert(q.take(0) =~= Seq::<MessageView>::empty());
        while i < taken.len()
            invariant
                i <= taken@.len(),
                q == taken.deep_view(),
                tv == tried.deep_view(),
                dropped.deep_view() == untried(q.take(i as int), tv),
            decreases taken@.len() - i,
        {
            assert(q.take(i + 1).drop_last() =~= q.take(i as int));
            assert(q.take(i + 1).last() == taken@[i as int].deep_view());
            if !vecs::contains_str(&tried, taken[i].message_id.as_str()) {
                vecs::push(&mut dropped, taken[i].message_id.clone());
            }
            i = i + 1;
        }
        assert(q.take(i as int) =~= q);
        let _ = self.sessions.handle_at(claimed, SessionEvent::OpenFailed, now);
        ReceivingOpen {
            opened_device: None,
            opener_message_id: None,
            actions: vecs::none(),
            tried_message_ids: tried,
            dropped_message_ids: dropped,
            last_error,
        }
    }

    fn carriers(queued: &Vec<IncomingMessage>) -> (r: Vec<ReceivingInitCarrier>)
        ensures
            r@ == queued.deep_view().map_values(|m: MessageView| carrier_of(m)),
    {
        let ghost whole = queued.deep_view().map_values(|m: MessageView| carrier_of(m));
        let mut out: Vec<ReceivingInitCarrier> = Vec::new();
        let mut i: usize = 0;
        while i < queued.len()
            invariant
                i <= queued@.len(),
                whole == queued.deep_view().map_values(|m: MessageView| carrier_of(m)),
                out@ == whole.take(i as int),
            decreases queued@.len() - i,
        {
            let m = &queued[i];
            assert(whole[i as int] == carrier_of(m.deep_view()));
            assert(whole.take(i + 1) =~= whole.take(i as int).push(whole[i as int]));
            let carrier = match IncomingFirstMessage::from_wire_payload(m.wire_payload.as_slice()) {
                Ok(f) => {
                    #[verifier::truncate]
                    let kem_bytes: u32 = f.kem_ciphertext.len() as u32;
                    ReceivingInitCarrier {
                        message_number: f.message_number,
                        one_time_prekey_id: f.one_time_prekey_id,
                        kem_ciphertext_bytes: kem_bytes,
                        pq_message_epoch: f.pq_message_epoch,
                        is_session_reset_init: m.content_type == CT_SESSION_RESET_INIT,
                    }
                },
                Err(_) => ReceivingInitCarrier {
                    message_number: u32::MAX,
                    one_time_prekey_id: 0,
                    kem_ciphertext_bytes: 0,
                    pq_message_epoch: 0,
                    is_session_reset_init: false,
                },
            };
            out.push(carrier);
            i = i + 1;
        }
        assert(whole.take(i as int) =~= whole);
        out
    }

    /// One attempt of the walk. A session already held for the bundle's device is taken aside
    /// first, and put back unless the attempt opens.
    fn attempt(&mut self, bundle: &X3DHPublicKeyBundle, first: &IncomingFirstMessage) -> (r: (
        String,
        Option<Vec<u8>>,
        Result<Vec<u8>, String>,
    ))
        ensures
            attempted(
                &old(self).lifecycle.client.engine,
                old(self)@,
                bundle.deep_view(),
                first.deep_view(),
                r.0@,
                vecs::opt_bytes(r.1),
                vecs::outcome_bytes(r.2),
                final(self)@,
            ),
            final(self).lifecycle.client.engine == old(self).lifecycle.client.engine,
            final(self).same_clocks(*old(self)),
    {
        let ghost o = self@;
        let ghost e = self.lifecycle.client.engine;
        let device = self.lifecycle.client.engine.derive_device_id(
            bundle.identity_public.as_slice(),
        );
        assert(engine::said_derive_device_id(&e, bundle.deep_view().identity_public, device@));
        let export = self.lifecycle.export_session_bytes_for(device.as_str());
        let ghost x = vecs::outcome_bytes(export);
        let replaced = match export {
            Ok(data) => Some(data),
            Err(_) => None,
        };
        let held = self.lifecycle.client.take_session(device.as_str());
        assert(self@ =~= opening::set_aside(o, device@));
        let opened = self.init_receiving_session_with_msg(device.as_str(), bundle, first);
        let ghost left = self@;
        let ghost result = responding::opened_plain(opened);
        assert(attempt_outcome(
            &e,
            o,
            bundle.deep_view(),
            first.deep_view(),
            device@,
            x,
            left,
            result,
        ));
        match opened {
            Ok(pair) => {
                let r = (device, replaced, Ok::<Vec<u8>, String>(pair.1));
                assert(vecs::outcome_bytes(r.2) == result);
                assert(vecs::opt_bytes(r.1) == archivable(x));
                r
            },
            Err(f) => {
                proof {
                    responding::a_first_message_that_fails_leaves_nothing_behind(
                        &e,
                        opening::set_aside(o, device@),
                        device@,
                        bundle.deep_view(),
                        first.deep_view(),
                        left,
                        result,
                    );
                }
                if let Some(session) = held {
                    self.lifecycle.client.put_back_session(device.as_str(), session);
                }
                assert(self@.life.client.sessions =~= o.life.client.sessions);
                assert(self@ =~= o);
                let r = (device, replaced, Err::<Vec<u8>, String>(f));
                assert(vecs::outcome_bytes(r.2) == result);
                assert(vecs::opt_bytes(r.1) == archivable(x));
                r
            },
        }
    }

    /// Opens a receiving session at `now` from what waits under `claimed`, against `bundles`.
    pub fn open_receiving_at(
        &mut self,
        claimed: &str,
        bundles: &[X3DHPublicKeyBundle],
        now: u64,
    ) -> (r: ReceivingOpen)
        ensures
            open_receiving_may(
                &old(self).lifecycle.client.engine,
                old(self)@,
                claimed@,
                bundles.deep_view(),
                now,
                final(self)@,
                r.deep_view(),
            ),
            final(self).lifecycle.client.engine == old(self).lifecycle.client.engine,
            final(self).same_clocks(*old(self)),
    {
        let ghost o = self@;
        let ghost e = self.lifecycle.client.engine;
        let ghost bs = bundles.deep_view();
        let queued = self.router.pending_messages(claimed);
        let ghost qs = queued.deep_view();
        let carriers = Self::carriers(&queued);
        #[verifier::truncate]
        let count: u32 = bundles.len() as u32;
        let plan = plan_receiving_init(carriers.as_slice(), count);
        let ghost ps = plan@;
        assert(ps == walk_plan(qs, bs));
        let mut tried: Vec<String> = vecs::none();
        let mut last_error: Option<String> = None;
        let mut i: usize = 0;
        assert(ps.skip(0) =~= ps);
        while i < plan.len()
            invariant
                i <= plan@.len(),
                ps == plan@,
                qs == queued.deep_view(),
                bs == bundles.deep_view(),
                self@ == o,
                self.lifecycle.client.engine == e,
                self.same_clocks(*old(self)),
                e == old(self).lifecycle.client.engine,
                o == old(self)@,
                qs == message_router::waiting(o.router, claimed@),
                ps == walk_plan(qs, bs),
                forall|n: OrchView, out: ReceivingView| #[trigger]
                    walk_may(
                        &e,
                        o,
                        claimed@,
                        qs,
                        bs,
                        ps.skip(i as int),
                        tried.deep_view(),
                        last_error.deep_view(),
                        now,
                        n,
                        out,
                    ) ==> open_receiving_may(&e, o, claimed@, bs, now, n, out),
            decreases plan@.len() - i,
        {
            let a = plan[i];
            let ghost rest = ps.skip(i as int);
            let ghost tv = tried.deep_view();
            let ghost lv = last_error.deep_view();
            proof {
                assert(rest[0] == a);
                assert(rest.drop_first() =~= ps.skip(i + 1));
            }
            let c: usize = a.carrier_index as usize;
            let b: usize = a.bundle_index as usize;
            if c < queued.len() && b < bundles.len() {
                let carrier = &queued[c];
                let bundle = &bundles[b];
                assert(qs[c as int] == carrier.deep_view());
                assert(bs[b as int] == bundle.deep_view());
                match IncomingFirstMessage::from_wire_payload(carrier.wire_payload.as_slice()) {
                    Err(_) => {
                        assert(!can_try(qs, bs, rest[0]));
                    },
                    Ok(first) => {
                        let (device, replaced, opened) = self.attempt(bundle, &first);
                        let ghost result = vecs::outcome_bytes(opened);
                        let ghost (x, left) = choose|
                            x: Result<Seq<u8>, Seq<char>>,
                            left: OrchView,
                        | #[trigger]
                            attempt_outcome(
                                &e,
                                o,
                                bundle.deep_view(),
                                first.deep_view(),
                                device@,
                                x,
                                left,
                                result,
                            ) && vecs::opt_bytes(replaced) == archivable(x) && self@ == (
                            if result is Ok {
                                left
                            } else {
                                o
                            });
                        assert(attempt_outcome(
                            &e,
                            o,
                            bs[rest[0].bundle_index as int],
                            first.deep_view(),
                            device@,
                            x,
                            left,
                            result,
                        ));
                        match opened {
                            Ok(plaintext) => {
                                let r = self.receiving_opened(
                                    claimed,
                                    device,
                                    carrier,
                                    plaintext,
                                    replaced,
                                    now,
                                );
                                assert(walk_may(
                                    &e,
                                    o,
                                    claimed@,
                                    qs,
                                    bs,
                                    rest,
                                    tv,
                                    lv,
                                    now,
                                    self@,
                                    r.deep_view(),
                                ));
                                return r;
                            },
                            Err(f) => {
                                let ghost fv = f@;
                                if !vecs::contains_str(&tried, carrier.message_id.as_str()) {
                                    vecs::push(&mut tried, carrier.message_id.clone());
                                }
                                last_error = Some(f);
                                assert(tried.deep_view() == tried_with(
                                    tv,
                                    qs[c as int].message_id,
                                ));
                                assert forall|n: OrchView, out: ReceivingView| #[trigger]
                                    walk_may(
                                        &e,
                                        o,
                                        claimed@,
                                        qs,
                                        bs,
                                        ps.skip(i + 1),
                                        tried.deep_view(),
                                        last_error.deep_view(),
                                        now,
                                        n,
                                        out,
                                    ) implies open_receiving_may(
                                    &e,
                                    o,
                                    claimed@,
                                    bs,
                                    now,
                                    n,
                                    out,
                                ) by {
                                    assert(walk_may(
                                        &e,
                                        o,
                                        claimed@,
                                        qs,
                                        bs,
                                        rest,
                                        tv,
                                        lv,
                                        now,
                                        n,
                                        out,
                                    ));
                                }
                            },
                        }
                    },
                }
            } else {
                assert(!can_try(qs, bs, rest[0]));
            }
            proof {
                if !can_try(qs, bs, rest[0]) {
                    assert forall|n: OrchView, out: ReceivingView| #[trigger]
                        walk_may(
                            &e,
                            o,
                            claimed@,
                            qs,
                            bs,
                            ps.skip(i + 1),
                            tried.deep_view(),
                            last_error.deep_view(),
                            now,
                            n,
                            out,
                        ) implies open_receiving_may(&e, o, claimed@, bs, now, n, out) by {
                        assert(walk_may(&e, o, claimed@, qs, bs, rest, tv, lv, now, n, out));
                    }
                }
            }
            i = i + 1;
        }
        let ghost tv = tried.deep_view();
        let ghost lv = last_error.deep_view();
        let r = self.receiving_failed(claimed, tried, last_error, now);
        assert(walk_may(
            &e,
            o,
            claimed@,
            qs,
            bs,
            ps.skip(i as int),
            tv,
            lv,
            now,
            self@,
            r.deep_view(),
        ));
        r
    }

    /// Opens a receiving session from what waits under `claimed`, against `bundles`.
    ///
    /// A failed attempt leaves nothing behind. One that opens replaces the session held for the
    /// bundle's device, and the old one is archived. The session is filed under the device the
    /// bundle's identity key derives to; if that is not `claimed`, the rest of the queue moves with
    /// it and the mismatch is reported.
    pub fn open_receiving(&mut self, claimed: &str, bundles: &[X3DHPublicKeyBundle]) -> (r:
        ReceivingOpen)
        ensures
            exists|now: u64| #[trigger]
                old(self).reads(now) && open_receiving_may(
                    &old(self).lifecycle.client.engine,
                    old(self)@,
                    claimed@,
                    bundles.deep_view(),
                    now,
                    final(self)@,
                    r.deep_view(),
                ),
            final(self).lifecycle.client.engine == old(self).lifecycle.client.engine,
            final(self).same_clocks(*old(self)),
    {
        let now: u64 = self.now_ms();
        self.open_receiving_at(claimed, bundles, now)
    }
}

// ── Laws ────────────────────────────────────────────────────────────────────

/// A walk that opens nothing keeps every session it found: it ends in `nothing_opened` for some
/// list of what was tried.
pub proof fn a_failed_walk_keeps_every_session<E: CryptoEngine>(
    engine: &E,
    o: OrchView,
    claimed: Seq<char>,
    queued: Seq<MessageView>,
    bundles: Seq<BundleView>,
    plan: Seq<ReceivingInitAttempt>,
    tried: Seq<Seq<char>>,
    last_error: Option<Seq<char>>,
    now: u64,
    next: OrchView,
    out: ReceivingView,
)
    requires
        walk_may(
            engine,
            o,
            claimed,
            queued,
            bundles,
            plan,
            tried,
            last_error,
            now,
            next,
            out,
        ),
        out.opened_device is None,
    ensures
        (next, out) == nothing_opened(o, claimed, out.tried_message_ids, out.last_error, now),
        next.life == o.life,
        message_router::waiting(next.router, claimed).len() == 0,
    decreases plan.len(),
{
    if plan.len() > 0 {
        if !can_try(queued, bundles, plan[0]) {
            a_failed_walk_keeps_every_session(
                engine,
                o,
                claimed,
                queued,
                bundles,
                plan.drop_first(),
                tried,
                last_error,
                now,
                next,
                out,
            );
        } else {
            let carrier = queued[plan[0].carrier_index as int];
            let bundle = bundles[plan[0].bundle_index as int];
            let first = responding::first_message_of(carrier.wire_payload)->Ok_0;
            let (device, x, left, result) = choose|
                device: Seq<char>,
                x: Result<Seq<u8>, Seq<char>>,
                left: OrchView,
                result: Result<Seq<u8>, Seq<char>>,
            | #[trigger]
                attempt_outcome(engine, o, bundle, first, device, x, left, result) && match result {
                    Ok(plaintext) => opened_may(
                        engine,
                        left,
                        claimed,
                        device,
                        carrier,
                        plaintext,
                        archivable(x),
                        now,
                        next,
                        out,
                    ),
                    Err(e) => walk_may(
                        engine,
                        o,
                        claimed,
                        queued,
                        bundles,
                        plan.drop_first(),
                        tried_with(tried, carrier.message_id),
                        Some(e),
                        now,
                        next,
                        out,
                    ),
                };
            match result {
                Ok(_) => {},
                Err(e) => {
                    a_failed_walk_keeps_every_session(
                        engine,
                        o,
                        claimed,
                        queued,
                        bundles,
                        plan.drop_first(),
                        tried_with(tried, carrier.message_id),
                        Some(e),
                        now,
                        next,
                        out,
                    );
                },
            }
        }
    }
}

/// Every message that waited is accounted for when nothing opens: it was tried, or it is named as
/// dropped.
pub proof fn nothing_that_waited_is_lost_in_silence(
    q: Seq<MessageView>,
    tried: Seq<Seq<char>>,
    i: int,
)
    requires
        0 <= i < q.len(),
    ensures
        tried.contains(q[i].message_id) || untried(q, tried).contains(q[i].message_id),
    decreases q.len(),
{
    let before = untried(q.drop_last(), tried);
    let id = q.last().message_id;
    if i < q.len() - 1 {
        nothing_that_waited_is_lost_in_silence(q.drop_last(), tried, i);
        assert(q.drop_last()[i] == q[i]);
        if !tried.contains(id) {
            vecs::push_contains(before, id, q[i].message_id);
        }
    } else if !tried.contains(id) {
        vecs::push_contains(before, id, id);
    }
}

/// A message a session opened from is not drained again: it is recorded as processed and waits
/// nowhere.
pub proof fn an_opener_is_answered_once(
    o: OrchView,
    claimed: Seq<char>,
    device: Seq<char>,
    opener: MessageView,
    plaintext: Seq<u8>,
    replaced: Option<Seq<u8>>,
    now: u64,
)
    ensures
        opener_answered(
            o,
            claimed,
            device,
            opener,
            plaintext,
            replaced,
            now,
        ).0.life.ack.processed.contains_key(
            opener.message_id,
        ),
{
}

/// A session that opened is held when everything it settles has been done, and the message it
/// opened from waits nowhere: neither under the device that was claimed nor under the one that
/// wrote it.
pub proof fn an_opened_session_is_held<E: CryptoEngine>(
    engine: &E,
    o: OrchView,
    claimed: Seq<char>,
    device: Seq<char>,
    opener: MessageView,
    plaintext: Seq<u8>,
    replaced: Option<Seq<u8>>,
    now: u64,
    next: OrchView,
    out: ReceivingView,
)
    requires
        opened_may(
            engine,
            o,
            claimed,
            device,
            opener,
            plaintext,
            replaced,
            now,
            next,
            out,
        ),
        o.life.client.sessions.contains_key(device),
        message_router::only_messages_wait(o.router),
        !opener.is_control,
    ensures
        next.life.client.sessions.contains_key(device),
        next.life.ack.processed.contains_key(opener.message_id),
        message_router::only_messages_wait(next.router),
        !message_router::has_id(message_router::waiting(next.router, device), opener.message_id),
        !message_router::has_id(message_router::waiting(next.router, claimed), opener.message_id),
{
    let id = opener.message_id;
    let (ready, first) = opener_answered(o, claimed, device, opener, plaintext, replaced, now);
    let settled = choose|settled: Seq<ActionView>| #[trigger]
        settling::settled_may(engine, ready, device, now, next, settled) && out == (ReceivingView {
            opened_device: Some(device),
            opener_message_id: Some(opener.message_id),
            actions: first + settled,
            tried_message_ids: Seq::empty(),
            dropped_message_ids: Seq::empty(),
            last_error: None,
        });
    let kept = message_router::without_id(message_router::waiting(o.router, claimed), id);
    message_router::control_frames_never_wait(o.router, opener, claimed, device, id);
    let taken = message_router::with_queue(o.router, claimed, kept);
    message_router::control_frames_never_wait(taken, opener, claimed, device, id);
    assert(!message_router::has_id(kept, id)) by {
        assert forall|i: int| 0 <= i < kept.len() implies #[trigger] kept[i].message_id != id by {
            message_router::waiting(o.router, claimed).lemma_filter_pred(
                |m: MessageView| m.message_id != id,
                i,
            );
        }
    }
    assert(!message_router::has_id(message_router::waiting(ready.router, claimed), id)
        || claimed == device);
    settling::a_settled_session_is_held(
        engine,
        ready,
        device,
        now,
        next,
        settled,
        id,
        claimed,
    );
}

/// A walk that opened a session ends with the session held and its opener answered: the opener is
/// recorded as processed and waits nowhere it could be drained from again.
pub proof fn a_walk_that_opens_holds_its_session<E: CryptoEngine>(
    engine: &E,
    o: OrchView,
    claimed: Seq<char>,
    queued: Seq<MessageView>,
    bundles: Seq<BundleView>,
    plan: Seq<ReceivingInitAttempt>,
    tried: Seq<Seq<char>>,
    last_error: Option<Seq<char>>,
    now: u64,
    next: OrchView,
    out: ReceivingView,
)
    requires
        walk_may(
            engine,
            o,
            claimed,
            queued,
            bundles,
            plan,
            tried,
            last_error,
            now,
            next,
            out,
        ),
        out.opened_device is Some,
        message_router::only_messages_wait(o.router),
        message_router::only_messages_of(queued, claimed),
    ensures
        next.life.client.sessions.contains_key(out.opened_device->Some_0),
        out.opener_message_id matches Some(id) && next.life.ack.processed.contains_key(id),
        message_router::only_messages_wait(next.router),
        !message_router::has_id(
            message_router::waiting(next.router, out.opened_device->Some_0),
            out.opener_message_id->Some_0,
        ),
        !message_router::has_id(
            message_router::waiting(next.router, claimed),
            out.opener_message_id->Some_0,
        ),
    decreases plan.len(),
{
    if plan.len() > 0 {
        if !can_try(queued, bundles, plan[0]) {
            a_walk_that_opens_holds_its_session(
                engine,
                o,
                claimed,
                queued,
                bundles,
                plan.drop_first(),
                tried,
                last_error,
                now,
                next,
                out,
            );
        } else {
            let carrier = queued[plan[0].carrier_index as int];
            let bundle = bundles[plan[0].bundle_index as int];
            let first = responding::first_message_of(carrier.wire_payload)->Ok_0;
            let (device, x, left, result) = choose|
                device: Seq<char>,
                x: Result<Seq<u8>, Seq<char>>,
                left: OrchView,
                result: Result<Seq<u8>, Seq<char>>,
            | #[trigger]
                attempt_outcome(engine, o, bundle, first, device, x, left, result) && match result {
                    Ok(plaintext) => opened_may(
                        engine,
                        left,
                        claimed,
                        device,
                        carrier,
                        plaintext,
                        archivable(x),
                        now,
                        next,
                        out,
                    ),
                    Err(e) => walk_may(
                        engine,
                        o,
                        claimed,
                        queued,
                        bundles,
                        plan.drop_first(),
                        tried_with(tried, carrier.message_id),
                        Some(e),
                        now,
                        next,
                        out,
                    ),
                };
            match result {
                Ok(plaintext) => {
                    responding::a_first_message_touches_only_the_client(
                        engine,
                        opening::set_aside(o, device),
                        device,
                        bundle,
                        first,
                        left,
                        result,
                    );
                    an_opened_session_is_held(
                        engine,
                        left,
                        claimed,
                        device,
                        carrier,
                        plaintext,
                        archivable(x),
                        now,
                        next,
                        out,
                    );
                },
                Err(e) => {
                    a_walk_that_opens_holds_its_session(
                        engine,
                        o,
                        claimed,
                        queued,
                        bundles,
                        plan.drop_first(),
                        tried_with(tried, carrier.message_id),
                        Some(e),
                        now,
                        next,
                        out,
                    );
                },
            }
        }
    }
}

/// Opening a receiving session from what waits either opens one, which is then held with its opener
/// answered, or keeps every session there was.
pub proof fn a_receiving_open_holds_or_keeps<E: CryptoEngine>(
    engine: &E,
    o: OrchView,
    claimed: Seq<char>,
    bundles: Seq<BundleView>,
    now: u64,
    next: OrchView,
    out: ReceivingView,
)
    requires
        open_receiving_may(engine, o, claimed, bundles, now, next, out),
        message_router::only_messages_wait(o.router),
    ensures
        match out.opened_device {
            Some(device) => {
                &&& next.life.client.sessions.contains_key(device)
                &&& out.opener_message_id matches Some(id) && !message_router::has_id(
                    message_router::waiting(next.router, device),
                    id,
                ) && !message_router::has_id(message_router::waiting(next.router, claimed), id)
            },
            None => next.life == o.life && message_router::waiting(next.router, claimed).len() == 0,
        },
{
    let queued = message_router::waiting(o.router, claimed);
    let plan = walk_plan(queued, bundles);
    if out.opened_device is Some {
        a_walk_that_opens_holds_its_session(
            engine,
            o,
            claimed,
            queued,
            bundles,
            plan,
            Seq::empty(),
            None,
            now,
            next,
            out,
        );
    } else {
        a_failed_walk_keeps_every_session(
            engine,
            o,
            claimed,
            queued,
            bundles,
            plan,
            Seq::empty(),
            None,
            now,
            next,
            out,
        );
    }
}

} // verus!
