//! Sessions that need healing: the message each heal starts from, and how often it was tried.

use std::sync::Arc;

use vstd::prelude::*;

use crate::orchestration::clock::{self, to_secs, Clock};
use crate::str_map::{self, StrMap};
use crate::vecs;

verus! {

/// How many incoming messages may raise a heal of one device over the life of its record.
pub const MAX_INCOMING_TRIGGERS: u32 = 10;

/// Which way the message that failed was going.
#[derive(Debug, Clone, Copy, PartialEq, Eq, Structural)]
pub enum HealDirection {
    Incoming,
    Outgoing,
}

/// What `record_attempt` decided.
#[derive(Debug, Clone, Copy, PartialEq, Eq, Structural)]
pub enum HealingDecision {
    /// The attempt may be made; it is the `attempt`-th.
    RetryAllowed { attempt: u32 },
    /// The budget is spent.
    MaxAttemptsReached,
    /// There is no record to count against.
    NotFound,
}

/// One heal in progress.
#[derive(Debug)]
pub struct HealingRecord {
    pub contact_id: String,
    /// The message the heal starts from; nothing once it is spent.
    pub message_payload: Vec<u8>,
    /// The episode the message belongs to has ended: the next failure brings its own.
    pub spent: bool,
    pub attempts: u32,
    pub incoming_triggers: u32,
    /// Unix seconds.
    pub created_at: u64,
}

/// A `HealingRecord` by what its fields hold.
pub struct HealRec {
    pub contact_id: Seq<char>,
    pub payload: Seq<u8>,
    pub spent: bool,
    pub attempts: u32,
    pub incoming_triggers: u32,
    pub created_at: u64,
}

impl DeepView for HealingRecord {
    type V = HealRec;

    open spec fn deep_view(&self) -> HealRec {
        HealRec {
            contact_id: self.contact_id@,
            payload: self.message_payload@,
            spent: self.spent,
            attempts: self.attempts,
            incoming_triggers: self.incoming_triggers,
            created_at: self.created_at,
        }
    }
}

impl Clone for HealingRecord {
    fn clone(&self) -> (r: Self)
        ensures
            r.deep_view() == self.deep_view(),
    {
        HealingRecord {
            contact_id: self.contact_id.clone(),
            message_payload: vecs::bytes(self.message_payload.as_slice()),
            spent: self.spent,
            attempts: self.attempts,
            incoming_triggers: self.incoming_triggers,
            created_at: self.created_at,
        }
    }
}

/// The contents of a `HealingQueue`.
#[verifier::ext_equal]
pub struct HealView {
    pub records: Map<Seq<char>, HealRec>,
    /// The attempt that is refused.
    pub max_attempts: u32,
    pub ttl_secs: u64,
}

/// One more, up to the largest number there is.
pub open spec fn one_more(n: u32) -> u32 {
    if n < u32::MAX {
        (n + 1) as u32
    } else {
        n
    }
}

/// The queue after a message failed. The first failure of an episode wins: the carrier already
/// there is kept, whatever it holds; a spent one is replaced. Every incoming failure counts towards
/// the cap.
pub open spec fn heal_enqueue(
    q: HealView,
    contact: Seq<char>,
    payload: Seq<u8>,
    direction: HealDirection,
    now: u64,
) -> HealView {
    let r = match str_map::lookup(q.records, contact) {
        Some(r) => HealRec {
            payload: if r.spent {
                payload
            } else {
                r.payload
            },
            spent: false,
            incoming_triggers: if direction is Incoming {
                one_more(r.incoming_triggers)
            } else {
                r.incoming_triggers
            },
            ..r
        },
        None => HealRec {
            contact_id: contact,
            payload,
            spent: false,
            attempts: 0,
            incoming_triggers: if direction is Incoming {
                1
            } else {
                0
            },
            created_at: clock::secs(now),
        },
    };
    HealView { records: q.records.insert(contact, r), ..q }
}

/// The queue after one attempt, and whether it may be made.
pub open spec fn heal_attempt(q: HealView, contact: Seq<char>) -> (HealView, HealingDecision) {
    match str_map::lookup(q.records, contact) {
        None => (q, HealingDecision::NotFound),
        Some(r) => {
            let n = one_more(r.attempts);
            (
                HealView { records: q.records.insert(contact, HealRec { attempts: n, ..r }), ..q },
                if n >= q.max_attempts {
                    HealingDecision::MaxAttemptsReached
                } else {
                    HealingDecision::RetryAllowed { attempt: n }
                },
            )
        },
    }
}

/// The queue after the episode of one device ended: the carrier is spent and the next episode
/// starts with its own budget, but what the peer has raised stays counted.
pub open spec fn heal_settle(q: HealView, contact: Seq<char>) -> HealView {
    match str_map::lookup(q.records, contact) {
        None => q,
        Some(r) => HealView {
            records: q.records.insert(
                contact,
                HealRec { attempts: 0, payload: Seq::empty(), spent: true, ..r },
            ),
            ..q
        },
    }
}

/// The queue without the record of one device.
pub open spec fn heal_remove(q: HealView, contact: Seq<char>) -> HealView {
    HealView { records: q.records.remove(contact), ..q }
}

/// Whether the peer has raised as many heals as it may.
pub open spec fn heal_throttled(q: HealView, contact: Seq<char>) -> bool {
    str_map::lookup(q.records, contact) matches Some(r)
        && r.incoming_triggers >= MAX_INCOMING_TRIGGERS
}

/// Whether a record is past its lifetime.
pub open spec fn heal_expired(q: HealView, r: HealRec, now: u64) -> bool {
    clock::secs(now) >= r.created_at && clock::secs(now) - r.created_at >= q.ttl_secs
}

/// The queue without its expired records.
pub open spec fn heal_pruned(q: HealView, now: u64) -> HealView {
    HealView {
        records: Map::new(
            |k: Seq<char>| q.records.contains_key(k) && !heal_expired(q, q.records[k], now),
            |k: Seq<char>| q.records[k],
        ),
        ..q
    }
}

/// The given records by their contact; of two for one contact the later.
pub open spec fn by_contact(rs: Seq<HealRec>) -> Map<Seq<char>, HealRec>
    decreases rs.len(),
{
    if rs.len() == 0 {
        Map::empty()
    } else {
        by_contact(rs.drop_last()).insert(rs.last().contact_id, rs.last())
    }
}

/// A list of all records of a queue, each once.
pub open spec fn lists_records(rs: Seq<HealRec>, q: HealView) -> bool {
    exists|order: Seq<Seq<char>>| #[trigger]
        str_map::names_keys(order, q.records) && rs == order.map_values(|k: Seq<char>| q.records[k])
}

/// Heals in progress, by device.
pub struct HealingQueue<C: Clock> {
    records: StrMap<HealingRecord>,
    max_attempts: u32,
    ttl_secs: u64,
    clock: Arc<C>,
}

impl<C: Clock> View for HealingQueue<C> {
    type V = HealView;

    closed spec fn view(&self) -> HealView {
        HealView {
            records: self.records@,
            max_attempts: self.max_attempts,
            ttl_secs: self.ttl_secs,
        }
    }
}

impl<C: Clock> HealingQueue<C> {
    /// The clock of this value.
    pub closed spec fn source(&self) -> C {
        *self.clock
    }

    /// A reading the clock of this value may give.
    pub open spec fn reads(&self, now: u64) -> bool {
        clock::reads(&self.source(), now)
    }

    /// An empty queue. `max_attempts` is the attempt that is refused.
    pub fn new_with_clock(max_attempts: u32, ttl_secs: u64, clock: Arc<C>) -> (r: Self)
        ensures
            r@ == (HealView { records: Map::empty(), max_attempts, ttl_secs }),
            r.source() == *clock,
    {
        HealingQueue { records: StrMap::new(), max_attempts, ttl_secs, clock }
    }

    /// Stores a failed message as the carrier of a heal.
    pub fn enqueue_at(
        &mut self,
        contact_id: &str,
        payload: Vec<u8>,
        direction: HealDirection,
        now: u64,
    )
        ensures
            final(self)@ == heal_enqueue(old(self)@, contact_id@, payload@, direction, now),
            final(self).source() == old(self).source(),
    {
        let incoming = direction == HealDirection::Incoming;
        let record = match self.records.remove(contact_id) {
            Some(mut r) => {
                if r.spent {
                    r.message_payload = payload;
                    r.spent = false;
                }
                if incoming {
                    r.incoming_triggers = r.incoming_triggers.saturating_add(1);
                }
                r
            },
            None => HealingRecord {
                contact_id: contact_id.to_owned(),
                message_payload: payload,
                spent: false,
                attempts: 0,
                incoming_triggers: if incoming {
                    1
                } else {
                    0
                },
                created_at: to_secs(now),
            },
        };
        self.records.insert(contact_id.to_owned(), record);
        assert(self@ =~= heal_enqueue(old(self)@, contact_id@, payload@, direction, now));
    }

    /// Stores a failed message as the carrier of a heal.
    pub fn enqueue(&mut self, contact_id: &str, payload: Vec<u8>, direction: HealDirection)
        ensures
            exists|now: u64| #[trigger]
                old(self).reads(now) && final(self)@ == heal_enqueue(
                    old(self)@,
                    contact_id@,
                    payload@,
                    direction,
                    now,
                ),
            final(self).source() == old(self).source(),
    {
        let now: u64 = self.clock.now_ms();
        assert(self.reads(now));
        self.enqueue_at(contact_id, payload, direction, now);
    }

    /// Counts one attempt and says whether it may be made.
    pub fn record_attempt(&mut self, contact_id: &str) -> (r: HealingDecision)
        ensures
            (final(self)@, r) == heal_attempt(old(self)@, contact_id@),
            final(self).source() == old(self).source(),
    {
        match self.records.remove(contact_id) {
            None => {
                assert(self@ =~= old(self)@);
                HealingDecision::NotFound
            },
            Some(mut r) => {
                let n: u32 = r.attempts.saturating_add(1);
                r.attempts = n;
                self.records.insert(contact_id.to_owned(), r);
                assert(self@ =~= heal_attempt(old(self)@, contact_id@).0);
                if n >= self.max_attempts {
                    HealingDecision::MaxAttemptsReached
                } else {
                    HealingDecision::RetryAllowed { attempt: n }
                }
            },
        }
    }

    /// Ends the episode of one device.
    pub fn settle(&mut self, contact_id: &str)
        ensures
            final(self)@ == heal_settle(old(self)@, contact_id@),
            final(self).source() == old(self).source(),
    {
        if let Some(mut r) = self.records.remove(contact_id) {
            r.attempts = 0;
            r.message_payload = Vec::new();
            r.spent = true;
            self.records.insert(contact_id.to_owned(), r);
        }
        assert(self@ =~= heal_settle(old(self)@, contact_id@));
    }

    /// Drops the record of one device.
    pub fn remove(&mut self, contact_id: &str)
        ensures
            final(self)@ == heal_remove(old(self)@, contact_id@),
            final(self).source() == old(self).source(),
    {
        let _ = self.records.remove(contact_id);
    }

    /// The record of one device.
    pub fn get(&self, contact_id: &str) -> (r: Option<&HealingRecord>)
        ensures
            r.deep_view() == str_map::lookup(self@.records, contact_id@),
    {
        self.records.get(contact_id)
    }

    /// Whether there is a record of this device.
    pub fn has_pending(&self, contact_id: &str) -> (r: bool)
        ensures
            r == self@.records.contains_key(contact_id@),
    {
        self.records.contains_key(contact_id)
    }

    /// Whether the peer has raised as many heals as it may.
    pub fn is_incoming_throttled(&self, contact_id: &str) -> (r: bool)
        ensures
            r == heal_throttled(self@, contact_id@),
    {
        match self.records.get(contact_id) {
            Some(r) => r.incoming_triggers >= MAX_INCOMING_TRIGGERS,
            None => false,
        }
    }

    /// Drops the records past their lifetime at `now`.
    pub fn prune_expired_at(&mut self, now: u64)
        ensures
            final(self)@ == heal_pruned(old(self)@, now),
            final(self).source() == old(self).source(),
    {
        let ghost before = self@;
        let s: u64 = to_secs(now);
        let keys = self.records.keys();
        let ghost all = keys.deep_view();
        let mut i: usize = 0;
        while i < keys.len()
            invariant
                i <= keys@.len(),
                all == keys.deep_view(),
                s == clock::secs(now),
                str_map::names_keys(all, before.records),
                self@.max_attempts == before.max_attempts,
                self@.ttl_secs == before.ttl_secs,
                self.source() == old(self).source(),
                forall|k: Seq<char>| #[trigger]
                    self@.records.contains_key(k) <==> before.records.contains_key(k) && (
                    all.take(i as int).contains(k) ==> !heal_expired(
                        before,
                        before.records[k],
                        now,
                    )),
                forall|k: Seq<char>| #[trigger]
                    self@.records.contains_key(k) ==> self@.records[k] == before.records[k],
            decreases keys@.len() - i,
        {
            assert(all[i as int] == keys@[i as int]@);
            assert(all.take(i + 1) =~= all.take(i as int).push(all[i as int]));
            assert forall|k: Seq<char>| #[trigger] all.take(i + 1).contains(k) <==> (all.take(
                i as int,
            ).contains(k) || k == all[i as int]) by {
                vecs::push_contains(all.take(i as int), all[i as int], k);
            }
            assert(all.contains(all[i as int]));
            let expired = match self.records.get(keys[i].as_str()) {
                Some(r) => s >= r.created_at && s - r.created_at >= self.ttl_secs,
                None => false,
            };
            assert(self@.records.contains_key(all[i as int]));
            if expired {
                let _ = self.records.remove(keys[i].as_str());
            }
            i = i + 1;
        }
        assert(all.take(i as int) =~= all);
        assert(self@.records =~= heal_pruned(before, now).records);
        assert(self@ =~= heal_pruned(before, now));
    }

    /// Every record, each once.
    pub fn snapshot_records(&self) -> (r: Vec<HealingRecord>)
        ensures
            lists_records(r.deep_view(), self@),
    {
        let keys = self.records.keys();
        let ghost order = keys.deep_view();
        let ghost whole = order.map_values(|k: Seq<char>| self@.records[k]);
        let mut out: Vec<HealingRecord> = vecs::none();
        let mut i: usize = 0;
        while i < keys.len()
            invariant
                i <= keys@.len(),
                order == keys.deep_view(),
                str_map::names_keys(order, self@.records),
                whole == order.map_values(|k: Seq<char>| self@.records[k]),
                out.deep_view() == whole.take(i as int),
            decreases keys@.len() - i,
        {
            assert(order[i as int] == keys@[i as int]@);
            assert(order.contains(order[i as int]));
            if let Some(r) = self.records.get(keys[i].as_str()) {
                vecs::push(&mut out, r.clone());
            }
            assert(whole.take(i + 1) =~= whole.take(i as int).push(whole[i as int]));
            i = i + 1;
        }
        assert(whole.take(i as int) =~= whole);
        out
    }

    /// Replaces all records.
    pub fn restore_records(&mut self, records: Vec<HealingRecord>)
        ensures
            final(self)@ == (HealView { records: by_contact(records.deep_view()), ..old(self)@ }),
            final(self).source() == old(self).source(),
    {
        let ghost all = records.deep_view();
        let mut fresh: StrMap<HealingRecord> = StrMap::new();
        let mut i: usize = 0;
        assert(all.take(0) =~= Seq::<HealRec>::empty());
        while i < records.len()
            invariant
                i <= records@.len(),
                all == records.deep_view(),
                fresh@ == by_contact(all.take(i as int)),
            decreases records@.len() - i,
        {
            assert(all.take(i + 1).drop_last() =~= all.take(i as int));
            assert(all.take(i + 1).last() == records@[i as int].deep_view());
            fresh.insert(records[i].contact_id.clone(), records[i].clone());
            i = i + 1;
        }
        assert(all.take(i as int) =~= all);
        self.records = fresh;
    }
}

/// The budget runs out: from a fresh episode exactly `max_attempts - 1` attempts are allowed, the
/// next and every later one is refused.
pub proof fn the_heal_budget_runs_out(q: HealView, contact: Seq<char>)
    requires
        str_map::lookup(q.records, contact) is Some,
        q.max_attempts > 0,
        str_map::lookup(q.records, contact)->Some_0.attempts < q.max_attempts,
    ensures
        ({
            let r = str_map::lookup(q.records, contact)->Some_0;
            let (next, d) = heal_attempt(q, contact);
            &&& d == (if r.attempts + 1 < q.max_attempts {
                HealingDecision::RetryAllowed { attempt: (r.attempts + 1) as u32 }
            } else {
                HealingDecision::MaxAttemptsReached
            })
            &&& d is MaxAttemptsReached ==> heal_attempt(next, contact).1 is MaxAttemptsReached
        }),
{
}

/// An episode that ended leaves the next one its whole budget, and leaves the peer's triggers
/// counted: a peer cannot get them back by ending the episode.
pub proof fn settling_is_not_forgetting(q: HealView, contact: Seq<char>)
    requires
        str_map::lookup(q.records, contact) is Some,
        q.max_attempts > 1,
    ensures
        heal_attempt(heal_settle(q, contact), contact).1 == (HealingDecision::RetryAllowed {
            attempt: 1,
        }),
        heal_throttled(heal_settle(q, contact), contact) == heal_throttled(q, contact),
{
}

/// The first failure of an episode wins: a later one does not overwrite the carrier, it only
/// counts, and no other device's carrier changes.
pub proof fn the_first_carrier_is_kept(
    q: HealView,
    contact: Seq<char>,
    other: Seq<char>,
    first: Seq<u8>,
    second: Seq<u8>,
    direction: HealDirection,
    direction_later: HealDirection,
    now: u64,
    later: u64,
)
    requires
        str_map::lookup(q.records, contact) matches Some(r) ==> r.spent,
        other != contact,
    ensures
        ({
            let once = heal_enqueue(q, contact, first, direction, now);
            let twice = heal_enqueue(once, contact, second, direction_later, later);
            &&& str_map::lookup(once.records, contact)->Some_0.payload == first
            &&& str_map::lookup(twice.records, contact)->Some_0.payload == first
            &&& str_map::lookup(twice.records, contact)->Some_0.attempts == str_map::lookup(
                once.records,
                contact,
            )->Some_0.attempts
            &&& str_map::lookup(twice.records, other) == str_map::lookup(q.records, other)
        }),
{
}

/// Every record is filed under the device it is of.
pub open spec fn keyed(q: HealView) -> bool {
    forall|k: Seq<char>| #[trigger] q.records.contains_key(k) ==> q.records[k].contact_id == k
}

/// Records stay filed under their devices, whatever is done to the queue.
pub proof fn records_stay_with_their_device(
    q: HealView,
    contact: Seq<char>,
    payload: Seq<u8>,
    direction: HealDirection,
    now: u64,
)
    requires
        keyed(q),
    ensures
        keyed(heal_enqueue(q, contact, payload, direction, now)),
        keyed(heal_attempt(q, contact).0),
        keyed(heal_settle(q, contact)),
        keyed(heal_remove(q, contact)),
        keyed(heal_pruned(q, now)),
{
}

/// Records read back from a list are filed under their devices.
pub proof fn listed_records_are_keyed(rs: Seq<HealRec>, q: HealView)
    ensures
        keyed(HealView { records: by_contact(rs), ..q }),
    decreases rs.len(),
{
    if rs.len() > 0 {
        listed_records_are_keyed(rs.drop_last(), q);
        let before = HealView { records: by_contact(rs.drop_last()), ..q };
        let after = HealView { records: by_contact(rs), ..q };
        assert forall|k: Seq<char>| #[trigger]
            after.records.contains_key(k) implies after.records[k].contact_id == k by {
            if k != rs.last().contact_id {
                assert(before.records.contains_key(k));
            }
        }
    }
}

/// The first failed message of a device opens a record: with that message, of that second, with no
/// attempt made, and counted if the peer raised it. A further one is counted in the same way; its
/// message is kept only where the record was settled, and neither the time nor the attempts change.
/// No other device is touched.
pub proof fn a_failed_message_is_recorded(
    q: HealView,
    contact: Seq<char>,
    payload: Seq<u8>,
    direction: HealDirection,
    now: u64,
    other: Seq<char>,
)
    ensures
        ({
            let next = heal_enqueue(q, contact, payload, direction, now);
            let r = str_map::lookup(next.records, contact);
            let one: int = if direction is Incoming {
                1
            } else {
                0
            };
            &&& r is Some
            &&& !r->Some_0.spent
            &&& match str_map::lookup(q.records, contact) {
                None => {
                    &&& r->Some_0.contact_id == contact
                    &&& r->Some_0.payload == payload
                    &&& r->Some_0.attempts == 0
                    &&& r->Some_0.incoming_triggers == one
                    &&& r->Some_0.created_at == now / 1000
                },
                Some(before) => {
                    &&& r->Some_0.contact_id == before.contact_id
                    &&& r->Some_0.payload == (if before.spent {
                        payload
                    } else {
                        before.payload
                    })
                    &&& r->Some_0.attempts == before.attempts
                    &&& before.incoming_triggers < u32::MAX ==> r->Some_0.incoming_triggers
                        == before.incoming_triggers + one
                    &&& r->Some_0.created_at == before.created_at
                },
            }
            &&& other != contact ==> str_map::lookup(next.records, other) == str_map::lookup(
                q.records,
                other,
            )
            &&& next.max_attempts == q.max_attempts
            &&& next.ttl_secs == q.ttl_secs
        }),
{
}

/// An attempt is counted and allowed while fewer were made than the one that is refused; settling
/// sets the attempts back and drops the message, and keeps when the record began and how often the
/// peer raised it; ten raised by the peer throttle it; and a record is expired once its lifetime
/// has passed. Each concerns its own device alone.
pub proof fn the_life_of_a_heal(q: HealView, contact: Seq<char>, now: u64, other: Seq<char>)
    requires
        str_map::lookup(q.records, contact) matches Some(r) && r.attempts < u32::MAX,
    ensures
        ({
            let r = q.records[contact];
            let (tried, decision) = heal_attempt(q, contact);
            let settled = heal_settle(q, contact);
            &&& str_map::lookup(tried.records, contact) == Some(
                HealRec { attempts: (r.attempts + 1) as u32, ..r },
            )
            &&& decision is RetryAllowed <==> r.attempts + 1 < q.max_attempts
            &&& decision is MaxAttemptsReached <==> r.attempts + 1 >= q.max_attempts
            &&& decision matches HealingDecision::RetryAllowed { attempt } ==> attempt == r.attempts
                + 1
            &&& str_map::lookup(settled.records, contact) == Some(
                HealRec { attempts: 0, payload: Seq::empty(), spent: true, ..r },
            )
            &&& heal_throttled(q, contact) <==> r.incoming_triggers >= 10
            &&& heal_expired(q, r, now) <==> now / 1000 >= r.created_at && now / 1000 - r.created_at
                >= q.ttl_secs
            &&& str_map::lookup(heal_remove(q, contact).records, contact) is None
            &&& other != contact ==> {
                &&& str_map::lookup(tried.records, other) == str_map::lookup(q.records, other)
                &&& str_map::lookup(settled.records, other) == str_map::lookup(q.records, other)
                &&& str_map::lookup(heal_remove(q, contact).records, other) == str_map::lookup(
                    q.records,
                    other,
                )
            }
        }),
{
}

/// Of a device without a record no heal may be tried, settling does nothing, and it is not
/// throttled.
pub proof fn nothing_is_known_of_a_new_device(q: HealView, contact: Seq<char>)
    requires
        !q.records.contains_key(contact),
    ensures
        heal_attempt(q, contact) == (q, HealingDecision::NotFound),
        heal_settle(q, contact) == q,
        !heal_throttled(q, contact),
{
}

} // verus!
