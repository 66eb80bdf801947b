//! Who gets a copy of an outgoing message.
//!
//! The plan answers three questions at once: which devices are targets, whether our own sending
//! device is one of them, and whose device each copy is.

use vstd::prelude::*;

use crate::orchestration::device_ids::{self, extend_distinct};
use crate::strings::is_blank;
use crate::vecs;

verus! {

/// Whose device a copy is for.
#[derive(Debug, Clone, Copy, PartialEq, Eq, Structural)]
pub enum DeliveryAudience {
    /// A device of the person we are writing to.
    Recipient,
    /// Another of our own devices, so the message appears in its transcript too.
    OwnReplica,
}

/// One device that must receive its own ciphertext of an outgoing message.
#[derive(Debug, Clone, PartialEq, Eq)]
pub struct DeliveryTarget {
    pub device_id: String,
    pub audience: DeliveryAudience,
}

/// A `DeliveryTarget` by the characters of its device id.
pub struct TargetView {
    pub device_id: Seq<char>,
    pub audience: DeliveryAudience,
}

impl DeepView for DeliveryTarget {
    type V = TargetView;

    open spec fn deep_view(&self) -> TargetView {
        TargetView { device_id: self.device_id@, audience: self.audience }
    }
}

/// The recipient's devices that get a copy: never this device, and none when writing to ourselves.
pub open spec fn recipient_targets(
    recipients: Seq<Seq<char>>,
    our_device: Seq<char>,
    recipient_is_self: bool,
) -> Seq<Seq<char>> {
    if recipient_is_self {
        Seq::empty()
    } else {
        device_ids::distinct_onto(Seq::empty(), recipients, our_device)
    }
}

/// All devices that get a copy: the recipient's, then our own replicas other than this device. None
/// of our own when this device does not know its id.
pub open spec fn all_targets(
    recipients: Seq<Seq<char>>,
    own: Seq<Seq<char>>,
    our_device: Seq<char>,
    recipient_is_self: bool,
) -> Seq<Seq<char>> {
    let first = recipient_targets(recipients, our_device, recipient_is_self);
    if our_device.len() == 0 {
        first
    } else {
        device_ids::distinct_onto(first, own, our_device)
    }
}

/// The plan: every target with its audience, recipients first.
pub open spec fn delivery_plan(
    recipients: Seq<Seq<char>>,
    own: Seq<Seq<char>>,
    our_device: Seq<char>,
    recipient_is_self: bool,
) -> Seq<TargetView> {
    let n = recipient_targets(recipients, our_device, recipient_is_self).len();
    let all = all_targets(recipients, own, our_device, recipient_is_self);
    Seq::new(
        all.len(),
        |i: int|
            TargetView {
                device_id: all[i],
                audience: if i < n {
                    DeliveryAudience::Recipient
                } else {
                    DeliveryAudience::OwnReplica
                },
            },
    )
}

/// Every device that must receive a copy. This device is never its own target.
///
/// * `recipient_device_ids` — the devices of the person we are writing to.
/// * `own_device_ids` — our account's devices, **including this one**.
/// * `our_device_id` — this device; empty means unknown, and then no own-replica copies are
///   planned.
/// * `recipient_is_self` — a note to self: the recipient's devices *are* our devices.
pub fn plan_send(
    recipient_device_ids: &[String],
    own_device_ids: &[String],
    our_device_id: &str,
    recipient_is_self: bool,
) -> (r: Vec<DeliveryTarget>)
    ensures
        r.deep_view() == delivery_plan(
            recipient_device_ids.deep_view(),
            own_device_ids.deep_view(),
            our_device_id@,
            recipient_is_self,
        ),
{
    let ghost plan = delivery_plan(
        recipient_device_ids.deep_view(),
        own_device_ids.deep_view(),
        our_device_id@,
        recipient_is_self,
    );
    let mut all: Vec<String> = vecs::none();
    if !recipient_is_self {
        extend_distinct(&mut all, recipient_device_ids, our_device_id);
    }
    let n: usize = all.len();
    if !is_blank(our_device_id) {
        extend_distinct(&mut all, own_device_ids, our_device_id);
    }
    let ghost targets = all.deep_view();
    assert(targets == all_targets(
        recipient_device_ids.deep_view(),
        own_device_ids.deep_view(),
        our_device_id@,
        recipient_is_self,
    ));
    let mut out: Vec<DeliveryTarget> = vecs::none();
    let mut i: usize = 0;
    while i < all.len()
        invariant
            i <= all@.len(),
            targets == all.deep_view(),
            plan.len() == targets.len(),
            forall|k: int|
                0 <= k < plan.len() ==> #[trigger] plan[k] == (TargetView {
                    device_id: targets[k],
                    audience: if k < n {
                        DeliveryAudience::Recipient
                    } else {
                        DeliveryAudience::OwnReplica
                    },
                }),
            out.deep_view() == plan.take(i as int),
        decreases all@.len() - i,
    {
        assert(targets[i as int] == all@[i as int]@);
        let audience = if i < n {
            DeliveryAudience::Recipient
        } else {
            DeliveryAudience::OwnReplica
        };
        vecs::push(&mut out, DeliveryTarget { device_id: all[i].clone(), audience });
        assert(plan.take(i + 1) =~= plan.take(i as int).push(plan[i as int]));
        i = i + 1;
    }
    assert(plan.take(i as int) =~= plan);
    out
}

/// This device is never its own target, whichever list names it.
pub proof fn this_device_is_never_a_target(
    recipients: Seq<Seq<char>>,
    own: Seq<Seq<char>>,
    our_device: Seq<char>,
    recipient_is_self: bool,
)
    ensures
        forall|i: int|
            0 <= i < delivery_plan(recipients, own, our_device, recipient_is_self).len()
                ==> (#[trigger] delivery_plan(
                recipients,
                own,
                our_device,
                recipient_is_self,
            )[i]).device_id != our_device,
{
    let first = recipient_targets(recipients, our_device, recipient_is_self);
    let all = all_targets(recipients, own, our_device, recipient_is_self);
    device_ids::distinct_onto_members(Seq::empty(), recipients, our_device);
    device_ids::distinct_onto_members(first, own, our_device);
    assert forall|i: int|
        0 <= i < delivery_plan(recipients, own, our_device, recipient_is_self).len() implies (
    #[trigger] delivery_plan(recipients, own, our_device, recipient_is_self)[i]).device_id
        != our_device by {
        assert(all.contains(all[i]));
    }
}

/// No device gets two copies of one message, none is addressed to nobody, and none of our own
/// copies goes to the device that writes it.
pub proof fn no_device_gets_two_copies(
    recipients: Seq<Seq<char>>,
    own: Seq<Seq<char>>,
    our_device: Seq<char>,
    recipient_is_self: bool,
)
    ensures
        ({
            let plan = delivery_plan(recipients, own, our_device, recipient_is_self);
            &&& forall|i: int, j: int|
                0 <= i < j < plan.len() ==> #[trigger] plan[i].device_id
                    != #[trigger] plan[j].device_id
            &&& forall|i: int| 0 <= i < plan.len() ==> (#[trigger] plan[i]).device_id.len() > 0
            &&& forall|i: int|
                0 <= i < plan.len() && (#[trigger] plan[i]).audience is OwnReplica
                    ==> plan[i].device_id != our_device && own.contains(plan[i].device_id)
                    && our_device.len() > 0
            &&& forall|i: int|
                0 <= i < plan.len() && (#[trigger] plan[i]).audience is Recipient
                    ==> !recipient_is_self && recipients.contains(plan[i].device_id)
        }),
{
    let first = recipient_targets(recipients, our_device, recipient_is_self);
    let all = all_targets(recipients, own, our_device, recipient_is_self);
    device_ids::distinct_onto_members(Seq::empty(), recipients, our_device);
    assert(first.no_duplicates());
    device_ids::distinct_onto_members(first, own, our_device);
    let plan = delivery_plan(recipients, own, our_device, recipient_is_self);
    assert forall|i: int| 0 <= i < plan.len() && (#[trigger] plan[i]).audience is Recipient implies
        !recipient_is_self && recipients.contains(plan[i].device_id) by {
        assert(all[i] == first[i]) by {
            assert(first.is_prefix_of(all) || first == all);
            assert(first =~= all.subrange(0, first.len() as int));
        }
        assert(first.contains(first[i]));
    }
    assert forall|i: int| 0 <= i < plan.len() implies (#[trigger] plan[i]).device_id.len() > 0 by {
        assert(all.contains(all[i]));
    }
    assert forall|i: int|
        0 <= i < plan.len() && (#[trigger] plan[i]).audience is OwnReplica implies plan[i].device_id
        != our_device && own.contains(plan[i].device_id) && our_device.len() > 0 by {
        assert(all.contains(all[i]));
        assert(!first.contains(all[i])) by {
            if first.contains(all[i]) {
                let k = choose|k: int| 0 <= k < first.len() && first[k] == all[i];
                assert(first =~= all.subrange(0, first.len() as int));
                assert(all[k] == all[i]);
            }
        }
    }
}

/// Nobody else is left out: every nameable device of the recipient but this one gets a copy, and so
/// does every other device of ours once this device knows its own id.
pub proof fn nobody_is_left_out(
    recipients: Seq<Seq<char>>,
    own: Seq<Seq<char>>,
    our_device: Seq<char>,
    recipient_is_self: bool,
    d: Seq<char>,
)
    requires
        d.len() > 0,
        d != our_device,
        (!recipient_is_self && recipients.contains(d)) || (our_device.len() > 0 && own.contains(
            d,
        )),
    ensures
        exists|i: int|
            0 <= i < delivery_plan(recipients, own, our_device, recipient_is_self).len()
                && #[trigger] delivery_plan(
                recipients,
                own,
                our_device,
                recipient_is_self,
            )[i].device_id == d,
{
    let first = recipient_targets(recipients, our_device, recipient_is_self);
    let all = all_targets(recipients, own, our_device, recipient_is_self);
    device_ids::distinct_onto_members(Seq::empty(), recipients, our_device);
    device_ids::distinct_onto_members(first, own, our_device);
    assert(all.contains(d));
    let i = choose|i: int| 0 <= i < all.len() && all[i] == d;
    assert(delivery_plan(recipients, own, our_device, recipient_is_self)[i].device_id == d);
}

/// The recipient's devices come first and then our own, each in the order in which its list first
/// names them; a device that both lists name is the recipient's.
pub proof fn targets_keep_their_order(
    recipients: Seq<Seq<char>>,
    own: Seq<Seq<char>>,
    our_device: Seq<char>,
    recipient_is_self: bool,
    i: int,
    j: int,
)
    requires
        0 <= i < j < delivery_plan(recipients, own, our_device, recipient_is_self).len(),
    ensures
        ({
            let plan = delivery_plan(recipients, own, our_device, recipient_is_self);
            let (a, b) = (plan[i], plan[j]);
            &&& b.audience is Recipient ==> a.audience is Recipient
            &&& b.audience is Recipient ==> recipients.index_of_first(a.device_id)->Some_0
                < recipients.index_of_first(b.device_id)->Some_0
            &&& a.audience is OwnReplica ==> own.index_of_first(a.device_id)->Some_0
                < own.index_of_first(b.device_id)->Some_0
            &&& b.audience is OwnReplica ==> recipient_is_self || !recipients.contains(b.device_id)
        }),
{
    let first = recipient_targets(recipients, our_device, recipient_is_self);
    let all = all_targets(recipients, own, our_device, recipient_is_self);
    device_ids::distinct_onto_members(Seq::empty(), recipients, our_device);
    device_ids::distinct_onto_members(first, own, our_device);
    assert(first =~= all.subrange(0, first.len() as int));
    if j < first.len() {
        assert(all[i] == first[i] && all[j] == first[j]);
        device_ids::distinct_onto_order(Seq::empty(), recipients, our_device, i, j);
    } else {
        assert(all.contains(all[j]));
        if first.contains(all[j]) {
            let k = choose|k: int| 0 <= k < first.len() && first[k] == all[j];
            assert(all[k] == first[k]);
        }
        if i >= first.len() {
            device_ids::distinct_onto_order(first, own, our_device, i, j);
        }
    }
}

} // verus!
