//! Which of a peer's devices a session teardown actually goes to, and what to do with each.
//!
//! A teardown that reaches the wrong device produces no error, only a peer that keeps using a
//! session nobody can read. The caller hands over the **set** of the peer's devices; what it gets
//! back is the decision over it.

use vstd::prelude::*;

use crate::orchestration::device_ids::{self, extend_distinct, holds};
use crate::vecs;

verus! {

/// What to do about one device of the peer.
#[derive(Debug, Clone, Copy, PartialEq, Eq, Structural)]
pub enum TeardownAction {
    /// We hold a session with this device. Send the teardown, then archive ours.
    SendAndArchive,
    /// No session of ours to condemn, but the peer is demonstrably still on one.
    SendOnly,
    /// Nothing to condemn and no evidence anyone is on a dead session.
    Skip,
}

/// One device and what to do about it.
#[derive(Debug, Clone, PartialEq, Eq)]
pub struct TeardownDecision {
    pub device_id: String,
    pub action: TeardownAction,
}

/// A `TeardownDecision` by the characters of its device id.
pub struct TeardownView {
    pub device_id: Seq<char>,
    pub action: TeardownAction,
}

impl DeepView for TeardownDecision {
    type V = TeardownView;

    open spec fn deep_view(&self) -> TeardownView {
        TeardownView { device_id: self.device_id@, action: self.action }
    }
}

/// What to do about `device`.
pub open spec fn teardown_action(
    device: Seq<char>,
    active: Seq<Seq<char>>,
    peer_on_dead_session: bool,
) -> TeardownAction {
    if active.contains(device) {
        TeardownAction::SendAndArchive
    } else if peer_on_dead_session {
        TeardownAction::SendOnly
    } else {
        TeardownAction::Skip
    }
}

/// The decisions over a peer's devices: one per device, in the caller's order.
pub open spec fn teardown_decisions(
    candidates: Seq<Seq<char>>,
    active: Seq<Seq<char>>,
    peer_on_dead_session: bool,
) -> Seq<TeardownView> {
    let devices = device_ids::distinct_onto(Seq::empty(), candidates, Seq::empty());
    Seq::new(
        devices.len(),
        |i: int|
            TeardownView {
                device_id: devices[i],
                action: teardown_action(devices[i], active, peer_on_dead_session),
            },
    )
}

/// Decide the teardown for each candidate device.
///
/// `active_contacts` is the set of devices we hold sessions with. `peer_on_dead_session` is
/// evidence: a message arrived on a session we no longer have. Duplicates in `candidates` collapse,
/// first occurrence wins.
pub fn plan_teardown(
    candidates: &[String],
    active_contacts: &[String],
    peer_on_dead_session: bool,
) -> (r: Vec<TeardownDecision>)
    ensures
        r.deep_view() == teardown_decisions(
            candidates.deep_view(),
            active_contacts.deep_view(),
            peer_on_dead_session,
        ),
{
    let mut devices: Vec<String> = vecs::none();
    let none = String::new();
    extend_distinct(&mut devices, candidates, none.as_str());
    let ghost plan = teardown_decisions(
        candidates.deep_view(),
        active_contacts.deep_view(),
        peer_on_dead_session,
    );
    assert(none@ =~= Seq::<char>::empty());
    let mut out: Vec<TeardownDecision> = vecs::none();
    let mut i: usize = 0;
    while i < devices.len()
        invariant
            i <= devices@.len(),
            devices.deep_view() == device_ids::distinct_onto(
                Seq::empty(),
                candidates.deep_view(),
                Seq::empty(),
            ),
            plan == teardown_decisions(
                candidates.deep_view(),
                active_contacts.deep_view(),
                peer_on_dead_session,
            ),
            out.deep_view() == plan.take(i as int),
        decreases devices@.len() - i,
    {
        assert(devices.deep_view()[i as int] == devices@[i as int]@);
        let action = if holds(active_contacts, devices[i].as_str()) {
            TeardownAction::SendAndArchive
        } else if peer_on_dead_session {
            TeardownAction::SendOnly
        } else {
            TeardownAction::Skip
        };
        vecs::push(&mut out, TeardownDecision { device_id: devices[i].clone(), action });
        assert(plan.take(i + 1) =~= plan.take(i as int).push(plan[i as int]));
        i = i + 1;
    }
    assert(plan.take(i as int) =~= plan);
    out
}

/// Every candidate is decided exactly once, and a healthy device that is no candidate is not swept
/// up.
pub proof fn each_candidate_is_decided_once(
    candidates: Seq<Seq<char>>,
    active: Seq<Seq<char>>,
    dead: bool,
)
    ensures
        ({
            let plan = teardown_decisions(candidates, active, dead);
            &&& forall|i: int, j: int|
                0 <= i < j < plan.len() ==> #[trigger] plan[i].device_id
                    != #[trigger] plan[j].device_id
            &&& forall|i: int|
                0 <= i < plan.len() ==> candidates.contains(#[trigger] plan[i].device_id)
                    && plan[i].device_id.len() > 0
            &&& forall|d: Seq<char>| #[trigger]
                candidates.contains(d) && d.len() > 0 ==> exists|i: int|
                    0 <= i < plan.len() && (#[trigger] plan[i]).device_id == d
        }),
{
    let devices = device_ids::distinct_onto(Seq::empty(), candidates, Seq::empty());
    let plan = teardown_decisions(candidates, active, dead);
    device_ids::distinct_onto_members(Seq::empty(), candidates, Seq::empty());
    assert forall|i: int| 0 <= i < plan.len() implies candidates.contains(
        #[trigger] plan[i].device_id,
    ) && plan[i].device_id.len() > 0 by {
        assert(devices.contains(devices[i]));
    }
    assert forall|d: Seq<char>| #[trigger] candidates.contains(d) && d.len() > 0 implies exists|
        i: int,
    |
        0 <= i < plan.len() && (#[trigger] plan[i]).device_id == d by {
        assert(devices.contains(d));
        let i = choose|i: int| 0 <= i < devices.len() && devices[i] == d;
        assert(plan[i].device_id == d);
    }
}

/// A session of ours is archived only where we hold one, and a device is passed over only where
/// there is neither a session nor evidence.
pub proof fn archived_means_held(
    candidates: Seq<Seq<char>>,
    active: Seq<Seq<char>>,
    dead: bool,
    i: int,
)
    requires
        0 <= i < teardown_decisions(candidates, active, dead).len(),
    ensures
        ({
            let d = teardown_decisions(candidates, active, dead)[i];
            &&& d.action is SendAndArchive <==> active.contains(d.device_id)
            &&& d.action is Skip <==> !active.contains(d.device_id) && !dead
        }),
{
}

/// The decisions come in the order in which the candidates are first named, and what is sent
/// without archiving goes to a device that holds on to a session we do not have.
pub proof fn decisions_keep_their_order(
    candidates: Seq<Seq<char>>,
    active: Seq<Seq<char>>,
    dead: bool,
    i: int,
    j: int,
)
    requires
        0 <= i < j < teardown_decisions(candidates, active, dead).len(),
    ensures
        ({
            let plan = teardown_decisions(candidates, active, dead);
            &&& candidates.index_of_first(plan[i].device_id)->Some_0 < candidates.index_of_first(
                plan[j].device_id,
            )->Some_0
            &&& plan[i].action is SendOnly <==> !active.contains(plan[i].device_id) && dead
        }),
{
    device_ids::distinct_onto_order(Seq::empty(), candidates, Seq::empty(), i, j);
}

} // verus!
