//! Which messages were processed before.
//!
//! A hot-path cache in front of the platform's durable ACK store. After a restart the cache is cold,
//! and a miss is answered by asking the durable store rather than by guessing.

use std::sync::Arc;

use vstd::prelude::*;

use crate::orchestration::actions::{Action, ActionView};
use crate::orchestration::clock::{self, to_secs, Clock};
use crate::str_map::{self, StrMap};
use crate::vecs;

verus! {

/// What the cache knows of a message.
#[derive(Debug, Clone, Copy, PartialEq, Eq, Structural)]
pub enum AckCheckResult {
    /// Processed: the cache holds it.
    InCache,
    /// Not in the cache, but the cache was restored: only the durable store can tell.
    NeedDbCheck,
    /// Not processed.
    NotProcessed,
}

/// The contents of an `AckStore`.
#[verifier::ext_equal]
pub struct AckView {
    /// When each message was processed (unix seconds).
    pub processed: Map<Seq<char>, u64>,
    /// Whether the cache was restored, so that a miss proves nothing.
    pub post_restart: bool,
    /// How long a record is kept (seconds).
    pub ttl_secs: u64,
}

/// The answer for one message.
pub open spec fn ack_check(a: AckView, id: Seq<char>) -> AckCheckResult {
    if a.processed.contains_key(id) {
        AckCheckResult::InCache
    } else if a.post_restart {
        AckCheckResult::NeedDbCheck
    } else {
        AckCheckResult::NotProcessed
    }
}

/// The store after `id` was processed at `now`, and what the platform must persist.
pub open spec fn ack_mark(a: AckView, id: Seq<char>, now: u64) -> (AckView, Seq<ActionView>) {
    (
        AckView { processed: a.processed.insert(id, clock::secs(now)), ..a },
        seq![ActionView::PersistAck { message_id: id, timestamp: clock::secs(now) }],
    )
}

/// Records processed before this are expired.
pub open spec fn ack_cutoff(a: AckView, now: u64) -> u64 {
    if clock::secs(now) >= a.ttl_secs {
        (clock::secs(now) - a.ttl_secs) as u64
    } else {
        0
    }
}

/// The store without its expired records.
pub open spec fn ack_pruned(a: AckView, now: u64) -> AckView {
    AckView {
        processed: Map::new(
            |k: Seq<char>| a.processed.contains_key(k) && a.processed[k] >= ack_cutoff(a, now),
            |k: Seq<char>| a.processed[k],
        ),
        ..a
    }
}

/// The store after a restart: exactly the given messages are cached, and a miss proves nothing.
pub open spec fn ack_restored(a: AckView, ids: Seq<Seq<char>>, now: u64) -> AckView {
    AckView {
        processed: Map::new(|k: Seq<char>| ids.contains(k), |k: Seq<char>| clock::secs(now)),
        post_restart: true,
        ..a
    }
}

/// ACK deduplication.
pub struct AckStore<C: Clock> {
    processed: StrMap<u64>,
    post_restart_mode: bool,
    ttl_secs: u64,
    clock: Arc<C>,
}

impl<C: Clock> View for AckStore<C> {
    type V = AckView;

    closed spec fn view(&self) -> AckView {
        AckView {
            processed: self.processed@,
            post_restart: self.post_restart_mode,
            ttl_secs: self.ttl_secs,
        }
    }
}

impl<C: Clock> AckStore<C> {
    /// The clock of this value.
    pub closed spec fn source(&self) -> C {
        *self.clock
    }

    /// A reading the clock of this value may give.
    pub open spec fn reads(&self, now: u64) -> bool {
        clock::reads(&self.source(), now)
    }

    /// An empty store whose records live `ttl_secs`.
    pub fn new_with_clock(ttl_secs: u64, clock: Arc<C>) -> (r: Self)
        ensures
            r@ == (AckView { processed: Map::empty(), post_restart: false, ttl_secs }),
            r.source() == *clock,
    {
        AckStore { processed: StrMap::new(), post_restart_mode: false, ttl_secs, clock }
    }

    /// Whether `message_id` was processed.
    pub fn is_processed(&self, message_id: &str) -> (r: AckCheckResult)
        ensures
            r == ack_check(self@, message_id@),
    {
        if self.processed.contains_key(message_id) {
            AckCheckResult::InCache
        } else if self.post_restart_mode {
            AckCheckResult::NeedDbCheck
        } else {
            AckCheckResult::NotProcessed
        }
    }

    /// Records that `message_id` was processed at `now`.
    pub fn mark_processed_at(&mut self, message_id: &str, now: u64) -> (r: Vec<Action>)
        ensures
            (final(self)@, r.deep_view()) == ack_mark(old(self)@, message_id@, now),
            final(self).source() == old(self).source(),
    {
        let timestamp: u64 = to_secs(now);
        self.processed.insert(message_id.to_owned(), timestamp);
        vecs::one(Action::PersistAck { message_id: message_id.to_owned(), timestamp })
    }

    /// Records that `message_id` was processed now.
    pub fn mark_processed(&mut self, message_id: &str) -> (r: Vec<Action>)
        ensures
            exists|now: u64| #[trigger]
                old(self).reads(now) && (final(self)@, r.deep_view()) == ack_mark(
                    old(self)@,
                    message_id@,
                    now,
                ),
            final(self).source() == old(self).source(),
    {
        let now: u64 = self.clock.now_ms();
        assert(self.reads(now));
        self.mark_processed_at(message_id, now)
    }

    /// Drops expired records and asks the platform to do the same.
    pub fn prune_expired_at(&mut self, now: u64) -> (r: Vec<Action>)
        ensures
            final(self)@ == ack_pruned(old(self)@, now),
            r.deep_view() == seq![
                ActionView::PruneAckStore { cutoff_ts: ack_cutoff(old(self)@, now) },
            ],
            final(self).source() == old(self).source(),
    {
        let ghost before = self@;
        let cutoff: u64 = to_secs(now).saturating_sub(self.ttl_secs);
        let keys = self.processed.keys();
        let ghost all = keys.deep_view();
        let mut i: usize = 0;
        while i < keys.len()
            invariant
                i <= keys@.len(),
                all == keys.deep_view(),
                cutoff == ack_cutoff(before, now),
                str_map::names_keys(all, before.processed),
                self@.post_restart == before.post_restart,
                self@.ttl_secs == before.ttl_secs,
                self.source() == old(self).source(),
                forall|k: Seq<char>| #[trigger]
                    self@.processed.contains_key(k) <==> before.processed.contains_key(k) && (
                    all.take(i as int).contains(k) ==> before.processed[k] >= cutoff),
                forall|k: Seq<char>| #[trigger]
                    self@.processed.contains_key(k) ==> self@.processed[k] == before.processed[k],
            decreases keys@.len() - i,
        {
            assert(all[i as int] == keys@[i as int]@);
            assert(all.take(i + 1) =~= all.take(i as int).push(all[i as int]));
            assert forall|k: Seq<char>| #[trigger] all.take(i + 1).contains(k) <==> (all.take(
                i as int,
            ).contains(k) || k == all[i as int]) by {
                vecs::push_contains(all.take(i as int), all[i as int], k);
            }
            assert(all.contains(all[i as int]));
            let expired = match self.processed.get(keys[i].as_str()) {
                Some(ts) => *ts < cutoff,
                None => false,
            };
            assert(self@.processed.contains_key(all[i as int]));
            if expired {
                let _ = self.processed.remove(keys[i].as_str());
            }
            i = i + 1;
        }
        assert(all.take(i as int) =~= all);
        assert(self@.processed =~= ack_pruned(before, now).processed);
        assert(self@ =~= ack_pruned(before, now));
        vecs::one(Action::PruneAckStore { cutoff_ts: cutoff })
    }

    /// Replaces the cache by what a previous run persisted.
    pub fn restore_cache_at(&mut self, message_ids: Vec<String>, now: u64)
        ensures
            final(self)@ == ack_restored(old(self)@, message_ids.deep_view(), now),
            final(self).source() == old(self).source(),
    {
        let ghost before = self@;
        let ghost ids = message_ids.deep_view();
        let ts: u64 = to_secs(now);
        let mut fresh: StrMap<u64> = StrMap::new();
        let mut i: usize = 0;
        while i < message_ids.len()
            invariant
                i <= message_ids@.len(),
                ids == message_ids.deep_view(),
                ts == clock::secs(now),
                forall|k: Seq<char>| #[trigger]
                    fresh@.contains_key(k) <==> ids.take(i as int).contains(k),
                forall|k: Seq<char>| #[trigger] fresh@.contains_key(k) ==> fresh@[k] == clock::secs(now),
            decreases message_ids@.len() - i,
        {
            assert(ids[i as int] == message_ids@[i as int]@);
            assert(ids.take(i + 1) =~= ids.take(i as int).push(ids[i as int]));
            assert forall|k: Seq<char>| #[trigger] ids.take(i + 1).contains(k) <==> (ids.take(
                i as int,
            ).contains(k) || k == ids[i as int]) by {
                vecs::push_contains(ids.take(i as int), ids[i as int], k);
            }
            fresh.insert(message_ids[i].clone(), ts);
            i = i + 1;
        }
        assert(ids.take(i as int) =~= ids);
        assert(fresh@ =~= ack_restored(before, ids, now).processed);
        self.processed = fresh;
        self.post_restart_mode = true;
    }

    /// How many messages the cache holds.
    pub fn cache_len(&self) -> (r: usize)
        ensures
            r == self@.processed.dom().len(),
            self@.processed.dom().finite(),
    {
        self.processed.len()
    }
}

/// A message that was marked is known from then on, until it expires or the cache is replaced.
pub proof fn a_marked_message_is_known(a: AckView, id: Seq<char>, now: u64)
    ensures
        ack_check(ack_mark(a, id, now).0, id) is InCache,
{
}

/// Marking one message says nothing of another.
pub proof fn marking_one_says_nothing_of_another(
    a: AckView,
    id: Seq<char>,
    other: Seq<char>,
    now: u64,
)
    requires
        id != other,
    ensures
        ack_check(ack_mark(a, id, now).0, other) == ack_check(a, other),
{
}

/// After a restart nothing is taken for unprocessed on the word of the cache alone.
pub proof fn a_miss_after_a_restart_asks_the_durable_store(
    a: AckView,
    ids: Seq<Seq<char>>,
    now: u64,
    id: Seq<char>,
)
    ensures
        ack_check(ack_restored(a, ids, now), id) == (if ids.contains(id) {
            AckCheckResult::InCache
        } else {
            AckCheckResult::NeedDbCheck
        }),
{
}

/// A message is recorded in the second it was processed, here and in the durable store, and no
/// other is touched. What is not recorded is asked of the durable store after a restart, and is new
/// otherwise.
pub proof fn a_processed_message_is_recorded(a: AckView, id: Seq<char>, now: u64, other: Seq<char>)
    ensures
        ({
            let (next, actions) = ack_mark(a, id, now);
            &&& next.processed == a.processed.insert(id, now / 1000)
            &&& next.post_restart == a.post_restart
            &&& next.ttl_secs == a.ttl_secs
            &&& actions == seq![ActionView::PersistAck { message_id: id, timestamp: now / 1000 }]
        }),
        ack_check(a, other) is InCache <==> a.processed.contains_key(other),
        ack_check(a, other) is NeedDbCheck <==> !a.processed.contains_key(other) && a.post_restart,
        ack_check(a, other) is NotProcessed <==> !a.processed.contains_key(other)
            && !a.post_restart,
{
}

/// A record is dropped exactly when its lifetime has passed, counted in seconds; the durable store
/// is told the same bound. After a restart exactly what was persisted is recorded, as of now, and
/// what is not recorded is not known.
pub proof fn records_live_their_time(
    a: AckView,
    now: u64,
    id: Seq<char>,
    ids: Seq<Seq<char>>,
)
    ensures
        ack_pruned(a, now).processed.contains_key(id) <==> a.processed.contains_key(id)
            && a.processed[id] + a.ttl_secs >= now / 1000,
        ack_pruned(a, now).processed.contains_key(id) ==> ack_pruned(a, now).processed[id]
            == a.processed[id],
        ack_pruned(a, now).post_restart == a.post_restart,
        ack_cutoff(a, now) == (if now / 1000 > a.ttl_secs {
            now / 1000 - a.ttl_secs
        } else {
            0
        }),
        ack_restored(a, ids, now).processed.contains_key(id) <==> ids.contains(id),
        ids.contains(id) ==> ack_restored(a, ids, now).processed[id] == now / 1000,
        ack_restored(a, ids, now).post_restart,
        ack_restored(a, ids, now).ttl_secs == a.ttl_secs,
{
}

} // verus!
