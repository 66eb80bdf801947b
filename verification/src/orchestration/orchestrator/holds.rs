//! The confirm gate: messages held behind an announcement the peer has not answered.
//!
//! While our own SESSION_RESET_INIT is unanswered, a message that will not open is our own reset's
//! consequence. It is neither healed on nor torn down on; it is held, and handed back once the
//! confirm gate falls.

use vstd::prelude::*;

use crate::crypto::engine::CryptoEngine;
use crate::orchestration::actions::{Action, ActionView};
use crate::orchestration::clock::Clock;
use crate::orchestration::message_router::{Refused, RefusedView};
use crate::orchestration::orchestrator::{OrchView, Orchestrator};
use crate::orchestration::session_lifecycle;
use crate::orchestration::session_machine;
use crate::str_map;
use crate::strings::same_str;
use crate::vecs;

verus! {

/// One message held behind an unacknowledged SESSION_RESET_INIT.
///
/// Only its id and the epoch it was held against: the envelope stays with the platform, which gets
/// it back through `Action::ReplayHeld`.
#[derive(Debug)]
pub struct ConfirmHold {
    pub message_id: String,
    /// The ratchet's session id when the message was held; `None` if there was no session.
    pub epoch: Option<String>,
    pub opens_session: bool,
}

/// A `ConfirmHold` by what its fields hold.
pub struct HoldView {
    pub message_id: Seq<char>,
    pub epoch: Option<Seq<char>>,
    pub opens_session: bool,
}

impl DeepView for ConfirmHold {
    type V = HoldView;

    open spec fn deep_view(&self) -> HoldView {
        HoldView {
            message_id: self.message_id@,
            epoch: self.epoch.deep_view(),
            opens_session: self.opens_session,
        }
    }
}

/// Whether a held message belongs to a handshake that concluded while it waited: only an opener,
/// and only against a session that exists and is not the one it was held against.
pub open spec fn superseded(h: HoldView, current: Option<Seq<char>>) -> bool {
    h.opens_session && current is Some && h.epoch != current
}

/// Whether a held message belongs to a handshake that concluded while it waited.
///
/// Only an opener, and only against a session that exists: with none, nothing has replaced it and
/// it may be the very handshake that builds one. Any other epoch than the one it was held against
/// is a replacement, "held with no session, one exists now" among them.
pub fn held_opener_superseded(hold: &ConfirmHold, current: Option<&str>) -> (r: bool)
    ensures
        r == superseded(
            hold.deep_view(),
            match current {
                Some(s) => Some(s@),
                None => None,
            },
        ),
{
    match current {
        Some(current) => hold.opens_session && match &hold.epoch {
            Some(epoch) => !same_str(epoch.as_str(), current),
            None => true,
        },
        None => false,
    }
}

/// The messages the confirm gate of one device holds.
pub open spec fn held(o: OrchView, contact: Seq<char>) -> Seq<HoldView> {
    match str_map::lookup(o.holds, contact) {
        Some(h) => h,
        None => Seq::empty(),
    }
}

/// Whether a message of this id is held.
pub open spec fn is_held(hs: Seq<HoldView>, id: Seq<char>) -> bool {
    exists|i: int| 0 <= i < hs.len() && #[trigger] hs[i].message_id == id
}

/// The state after the confirm gate of `contact` took `refused`. A copy of a message that is held
/// is not held twice.
pub open spec fn hold_step(o: OrchView, contact: Seq<char>, refused: RefusedView) -> OrchView {
    let hs = held(o, contact);
    OrchView {
        holds: o.holds.insert(
            contact,
            if is_held(hs, refused.message_id) {
                hs
            } else {
                hs.push(
                    HoldView {
                        message_id: refused.message_id,
                        epoch: session_lifecycle::session_id_of(o.life, contact),
                        opens_session: refused.opens_session,
                    },
                )
            },
        ),
        ..o
    }
}

/// What the platform is told of one held message.
pub open spec fn hand_back(h: HoldView, current: Option<Seq<char>>) -> ActionView {
    if superseded(h, current) {
        ActionView::HeldSuperseded { message_id: h.message_id }
    } else {
        ActionView::ReplayHeld { message_id: h.message_id }
    }
}

/// What the platform is told of the held messages of one device.
pub open spec fn handed_back(hs: Seq<HoldView>, current: Option<Seq<char>>) -> Seq<ActionView> {
    hs.map_values(|h: HoldView| hand_back(h, current))
}

/// What the platform is told of the held messages of the devices in `order`.
pub open spec fn all_handed_back(o: OrchView, order: Seq<Seq<char>>) -> Seq<ActionView>
    decreases order.len(),
{
    if order.len() == 0 {
        Seq::empty()
    } else {
        all_handed_back(o, order.drop_last()) + handed_back(
            held(o, order.last()),
            session_lifecycle::session_id_of(o.life, order.last()),
        )
    }
}

/// Whether messages of this device are held and its gate is down.
pub open spec fn is_released(o: OrchView, device: Seq<char>, now: u64) -> bool {
    o.holds.contains_key(device) && !session_machine::gate_up(o.machine, device, now)
}

/// A list that names every device with a gate that fell exactly once.
pub open spec fn names_released(order: Seq<Seq<char>>, o: OrchView, now: u64) -> bool {
    &&& order.no_duplicates()
    &&& forall|k: Seq<char>| #[trigger] order.contains(k) <==> is_released(o, k, now)
}

/// The state with nothing held for a device whose gate is down.
pub open spec fn released(o: OrchView, now: u64) -> OrchView {
    OrchView {
        holds: Map::new(
            |k: Seq<char>| o.holds.contains_key(k) && session_machine::gate_up(o.machine, k, now),
            |k: Seq<char>| o.holds[k],
        ),
        ..o
    }
}

/// What handing back everything a fallen gate held may come to. The devices come in any order, the
/// messages of one device in theirs.
pub open spec fn release_may(
    o: OrchView,
    now: u64,
    next: OrchView,
    actions: Seq<ActionView>,
) -> bool {
    next == released(o, now) && exists|order: Seq<Seq<char>>| #[trigger]
        names_released(order, o, now) && actions == all_handed_back(o, order)
}

impl<C: Clock, E: CryptoEngine> Orchestrator<C, E> {
    /// Holds `refused` behind the confirm gate of this device.
    ///
    /// Idempotent per message: a held message is not acknowledged, so the server redelivers it
    /// while it waits, and each copy reaches the confirm gate again.
    pub fn hold_behind_confirm(&mut self, contact_id: &str, refused: Refused)
        ensures
            final(self)@ == hold_step(old(self)@, contact_id@, refused.deep_view()),
            final(self).lifecycle.client.engine == old(self).lifecycle.client.engine,
            final(self).same_clocks(*old(self)),
    {
        let epoch = self.lifecycle.active_session_id(contact_id);
        let mut holds: Vec<ConfirmHold> = match self.confirm_holds.remove(contact_id) {
            Some(h) => h,
            None => vecs::none(),
        };
        let ghost hs = holds.deep_view();
        assert(hs == held(old(self)@, contact_id@));
        let mut known = false;
        let mut i: usize = 0;
        while i < holds.len() && !known
            invariant
                i <= holds@.len(),
                hs == holds.deep_view(),
                known ==> is_held(hs, refused.message_id@),
                !known ==> forall|j: int|
                    0 <= j < i ==> #[trigger] hs[j].message_id != refused.message_id@,
            decreases holds@.len() - i,
        {
            assert(hs[i as int] == holds@[i as int].deep_view());
            if same_str(holds[i].message_id.as_str(), refused.message_id.as_str()) {
                assert(hs[i as int].message_id == refused.message_id@);
                known = true;
            }
            i = i + 1;
        }
        assert(known == is_held(hs, refused.message_id@));
        if !known {
            vecs::push(
                &mut holds,
                ConfirmHold {
                    message_id: refused.message_id,
                    epoch,
                    opens_session: refused.opens_session,
                },
            );
        }
        self.confirm_holds.insert(contact_id.to_owned(), holds);
        assert(self@ =~= hold_step(old(self)@, contact_id@, refused.deep_view()));
    }

    /// What the platform is told of `holds`, with `current` as the session held.
    fn hand_back_all(holds: &Vec<ConfirmHold>, current: &Option<String>) -> (r: Vec<Action>)
        ensures
            r.deep_view() == handed_back(holds.deep_view(), current.deep_view()),
    {
        let ghost whole = handed_back(holds.deep_view(), current.deep_view());
        let mut out: Vec<Action> = vecs::none();
        let mut i: usize = 0;
        assert(whole.take(0) =~= Seq::<ActionView>::empty());
        while i < holds.len()
            invariant
                i <= holds@.len(),
                whole == handed_back(holds.deep_view(), current.deep_view()),
                out.deep_view() == whole.take(i as int),
            decreases holds@.len() - i,
        {
            let h = &holds[i];
            assert(whole.take(i + 1) =~= whole.take(i as int).push(whole[i as int]));
            assert(whole[i as int] == hand_back(h.deep_view(), current.deep_view()));
            let gone = match current {
                Some(s) => held_opener_superseded(h, Some(s.as_str())),
                None => held_opener_superseded(h, None),
            };
            vecs::push(
                &mut out,
                if gone {
                    Action::HeldSuperseded { message_id: h.message_id.clone() }
                } else {
                    Action::ReplayHeld { message_id: h.message_id.clone() }
                },
            );
            i = i + 1;
        }
        assert(whole.take(i as int) =~= whole);
        out
    }

    /// Hands back everything held for a device whose gate is down at `now`.
    ///
    /// An opener whose ratchet was replaced while it waited is superseded. Anything else replays,
    /// whatever its age: dropping content on a guess is what the hold exists to prevent.
    pub fn release_confirm_holds_at(&mut self, now: u64) -> (r: Vec<Action>)
        ensures
            release_may(old(self)@, now, final(self)@, r.deep_view()),
            final(self).lifecycle.client.engine == old(self).lifecycle.client.engine,
            final(self).same_clocks(*old(self)),
    {
        let ghost before = self@;
        let ghost engine = self.lifecycle.client.engine;
        let keys = self.confirm_holds.keys();
        let ghost all = keys.deep_view();
        let ghost mut order: Seq<Seq<char>> = Seq::empty();
        let mut out: Vec<Action> = vecs::none();
        let mut i: usize = 0;
        while i < keys.len()
            invariant
                i <= keys@.len(),
                all == keys.deep_view(),
                str_map::names_keys(all, before.holds),
                self.lifecycle.client.engine == engine,
                self.same_clocks(*old(self)),
                self@ == (OrchView { holds: self@.holds, ..before }),
                forall|k: Seq<char>| #[trigger]
                    self@.holds.contains_key(k) <==> before.holds.contains_key(k) && !(all.take(
                        i as int,
                    ).contains(k) && is_released(before, k, now)),
                forall|k: Seq<char>| #[trigger]
                    self@.holds.contains_key(k) ==> self@.holds[k] == before.holds[k],
                order.no_duplicates(),
                forall|k: Seq<char>| #[trigger]
                    order.contains(k) <==> all.take(i as int).contains(k) && is_released(
                        before,
                        k,
                        now,
                    ),
                out.deep_view() == all_handed_back(before, order),
            decreases keys@.len() - i,
        {
            let ghost key = all[i as int];
            proof {
                assert(key == keys@[i as int]@);
                assert(all.take(i + 1) =~= all.take(i as int).push(key));
                assert forall|k: Seq<char>| #[trigger] all.take(i + 1).contains(k) <==> (all.take(
                    i as int,
                ).contains(k) || k == key) by {
                    vecs::push_contains(all.take(i as int), key, k);
                }
                assert(all.contains(key));
                assert(!all.take(i as int).contains(key)) by {
                    if all.take(i as int).contains(key) {
                        let j = choose|j: int| 0 <= j < i && all.take(i as int)[j] == key;
                        assert(all[j] == all[i as int]);
                    }
                }
                assert(self@.holds.contains_key(key));
            }
            let device = keys[i].as_str();
            if !self.sessions.awaits_acknowledgement_at(device, now) {
                if let Some(holds) = self.confirm_holds.remove(device) {
                    let current = self.lifecycle.active_session_id(device);
                    assert(holds.deep_view() == held(before, key));
                    let back = Self::hand_back_all(&holds, &current);
                    vecs::append(&mut out, back);
                    proof {
                        assert forall|k: Seq<char>| #[trigger] order.push(key).contains(k) <==> (
                        order.contains(k) || k == key) by {
                            vecs::push_contains(order, key, k);
                        }
                        vecs::push_no_duplicates(order, key);
                        assert(order.push(key).drop_last() =~= order);
                        order = order.push(key);
                    }
                }
            }
            i = i + 1;
        }
        proof {
            assert(all.take(i as int) =~= all);
            assert(self@.holds =~= released(before, now).holds);
            assert(self@ =~= released(before, now));
            assert(names_released(order, before, now));
        }
        out
    }

    /// Hands back everything held for a device whose gate is down.
    pub fn release_confirm_holds(&mut self) -> (r: Vec<Action>)
        ensures
            exists|now: u64| #[trigger]
                old(self).reads(now) && release_may(old(self)@, now, final(self)@, r.deep_view()),
            final(self).lifecycle.client.engine == old(self).lifecycle.client.engine,
            final(self).same_clocks(*old(self)),
    {
        let now: u64 = self.now_ms();
        self.release_confirm_holds_at(now)
    }
}

// ── Laws ────────────────────────────────────────────────────────────────────

/// The held messages of every device are distinct.
pub open spec fn held_once(o: OrchView) -> bool {
    forall|c: Seq<char>, i: int, j: int|
        #![trigger held(o, c)[i], held(o, c)[j]]
        0 <= i < j < held(o, c).len() ==> held(o, c)[i].message_id != held(o, c)[j].message_id
}

/// A redelivered message is held once: holding it again changes nothing, and no gate ever holds two
/// copies of one message.
pub proof fn a_redelivered_message_is_held_once(
    o: OrchView,
    contact: Seq<char>,
    refused: RefusedView,
)
    requires
        held_once(o),
    ensures
        held_once(hold_step(o, contact, refused)),
        is_held(held(hold_step(o, contact, refused), contact), refused.message_id),
        hold_step(hold_step(o, contact, refused), contact, refused) == hold_step(
            o,
            contact,
            refused,
        ),
{
    let n = hold_step(o, contact, refused);
    let hs = held(o, contact);
    let h2 = held(n, contact);
    if !is_held(hs, refused.message_id) {
        assert(h2[hs.len() as int].message_id == refused.message_id);
    }
    assert forall|c: Seq<char>, i: int, j: int|
        #![trigger held(n, c)[i], held(n, c)[j]]
        0 <= i < j < held(
            n,
            c,
        ).len() implies held(n, c)[i].message_id != held(n, c)[j].message_id by {
        if c == contact {
            if j < hs.len() {
                assert(held(o, c)[i].message_id != held(o, c)[j].message_id);
            } else {
                assert(hs[i].message_id != refused.message_id);
            }
        } else {
            assert(held(n, c) == held(o, c));
            assert(held(o, c)[i].message_id != held(o, c)[j].message_id);
        }
    }
    assert(hold_step(n, contact, refused) =~= n);
}

/// What a gate held is handed back once: after a release nothing is held behind a gate that is
/// down, and releasing again gives back nothing.
pub proof fn held_messages_are_handed_back_once(
    o: OrchView,
    now: u64,
    n: OrchView,
    actions: Seq<ActionView>,
    n2: OrchView,
    actions2: Seq<ActionView>,
)
    requires
        release_may(o, now, n, actions),
        release_may(n, now, n2, actions2),
    ensures
        n2 == n,
        actions2.len() == 0,
{
    let order = choose|order: Seq<Seq<char>>| #[trigger]
        names_released(order, n, now) && actions2 == all_handed_back(n, order);
    if order.len() > 0 {
        assert(order.contains(order[0]));
        assert(is_released(n, order[0], now));
    }
    assert(n2 =~= n);
}

/// Nothing leaves a gate that is up.
pub proof fn nothing_leaves_a_gate_that_is_up(
    o: OrchView,
    now: u64,
    next: OrchView,
    actions: Seq<ActionView>,
    device: Seq<char>,
)
    requires
        release_may(o, now, next, actions),
        session_machine::gate_up(o.machine, device, now),
    ensures
        held(next, device) == held(o, device),
{
}

proof fn handed_back_holds(o: OrchView, order: Seq<Seq<char>>, device: Seq<char>, i: int)
    requires
        order.contains(device),
        0 <= i < held(o, device).len(),
    ensures
        all_handed_back(o, order).contains(
            hand_back(held(o, device)[i], session_lifecycle::session_id_of(o.life, device)),
        ),
    decreases order.len(),
{
    let a = hand_back(held(o, device)[i], session_lifecycle::session_id_of(o.life, device));
    let front = all_handed_back(o, order.drop_last());
    let back = handed_back(
        held(o, order.last()),
        session_lifecycle::session_id_of(o.life, order.last()),
    );
    if order.last() == device {
        assert(back[i] == a);
        assert((front + back)[front.len() + i] == a);
    } else {
        let j = choose|j: int| 0 <= j < order.len() && order[j] == device;
        assert(order.drop_last()[j] == device);
        handed_back_holds(o, order.drop_last(), device, i);
        let k = choose|k: int| 0 <= k < front.len() && front[k] == a;
        assert((front + back)[k] == a);
    }
}

/// Everything a fallen gate held is handed back: each message is replayed, or named superseded.
pub proof fn a_fallen_gate_hands_everything_back(
    o: OrchView,
    now: u64,
    next: OrchView,
    actions: Seq<ActionView>,
    device: Seq<char>,
    i: int,
)
    requires
        release_may(o, now, next, actions),
        !session_machine::gate_up(o.machine, device, now),
        0 <= i < held(o, device).len(),
    ensures
        actions.contains(
            hand_back(held(o, device)[i], session_lifecycle::session_id_of(o.life, device)),
        ),
{
    let order = choose|order: Seq<Seq<char>>| #[trigger]
        names_released(order, o, now) && actions == all_handed_back(o, order);
    assert(is_released(o, device, now));
    assert(order.contains(device));
    handed_back_holds(o, order, device, i);
}

/// Content is never named superseded, whatever became of the session while it waited.
pub proof fn content_always_replays(h: HoldView, current: Option<Seq<char>>)
    requires
        !h.opens_session,
    ensures
        hand_back(h, current) == (ActionView::ReplayHeld { message_id: h.message_id }),
{
}

} // verus!
