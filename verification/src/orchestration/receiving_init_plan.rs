//! Which queued message opens a receiving session, against which of the sender's devices.
//!
//! The pending queue of a multi-device peer holds handshakes from several devices *and* several
//! reset generations at once. Both dimensions of the search vary: a client that fixes one of them
//! finds the session only if it happened to fix the right one.

use vstd::prelude::*;


verus! {

/// The wire-visible shape of a queued message — everything the eligibility rule reads, and nothing
/// else.
#[derive(Debug, Clone, Copy, PartialEq, Eq, Structural)]
pub struct ReceivingInitCarrier {
    pub message_number: u32,
    pub one_time_prekey_id: u32,
    pub kem_ciphertext_bytes: u32,
    pub pq_message_epoch: u32,
    pub is_session_reset_init: bool,
}

/// What a queued message is, for the purpose of opening a receiving session.
#[derive(Debug, Clone, Copy, PartialEq, Eq, Structural)]
pub enum ReceivingInitKind {
    /// Carries an X3DH init: this message can open a session.
    Handshake,
    /// Already inside a ratchet. Initialising from it fails and destroys the queue behind it.
    MidRatchet,
    /// `message_number == 0` but a PQ epoch has advanced: a re-keyed continuation rather than a
    /// fresh handshake.
    MidSessionLeftover,
}

/// One attempt: open carrier `carrier_index` against bundle `bundle_index`.
#[derive(Debug, Clone, Copy, PartialEq, Eq, Structural)]
pub struct ReceivingInitAttempt {
    pub carrier_index: u32,
    pub bundle_index: u32,
}

impl DeepView for ReceivingInitAttempt {
    type V = ReceivingInitAttempt;

    open spec fn deep_view(&self) -> ReceivingInitAttempt {
        *self
    }
}

/// What a carrier is. A session reset opens, whatever else it looks like. Otherwise a numbered
/// message is inside a ratchet; a bare message 0 with a PQ epoch, and nothing that proves an X3DH
/// header, is a leftover; every other message 0 is a handshake.
pub open spec fn kind_of(c: ReceivingInitCarrier) -> ReceivingInitKind {
    if c.is_session_reset_init {
        ReceivingInitKind::Handshake
    } else if c.message_number != 0 {
        ReceivingInitKind::MidRatchet
    } else if c.pq_message_epoch > 0 && c.one_time_prekey_id == 0 && c.kem_ciphertext_bytes == 0 {
        ReceivingInitKind::MidSessionLeftover
    } else {
        ReceivingInitKind::Handshake
    }
}

/// Classify one queued message.
pub fn receiving_init_kind(carrier: &ReceivingInitCarrier) -> (r: ReceivingInitKind)
    ensures
        r == kind_of(*carrier),
{
    if carrier.is_session_reset_init {
        return ReceivingInitKind::Handshake;
    }
    if carrier.message_number != 0 {
        return ReceivingInitKind::MidRatchet;
    }
    if carrier.one_time_prekey_id != 0 {
        return ReceivingInitKind::Handshake;
    }
    if carrier.kem_ciphertext_bytes > 0 {
        return ReceivingInitKind::Handshake;
    }
    if carrier.pq_message_epoch > 0 {
        return ReceivingInitKind::MidSessionLeftover;
    }
    ReceivingInitKind::Handshake
}

/// Carrier `c` against every bundle, in order.
pub open spec fn against_all(c: int, bundle_count: u32) -> Seq<ReceivingInitAttempt> {
    Seq::new(
        bundle_count as nat,
        |b: int| ReceivingInitAttempt { carrier_index: c as u32, bundle_index: b as u32 },
    )
}

/// Every handshake against every bundle, carrier by carrier.
pub open spec fn attempts(
    carriers: Seq<ReceivingInitCarrier>,
    bundle_count: u32,
) -> Seq<ReceivingInitAttempt>
    decreases carriers.len(),
{
    if carriers.len() == 0 {
        Seq::empty()
    } else {
        attempts(carriers.drop_last(), bundle_count) + (if kind_of(carriers.last()) is Handshake {
            against_all(carriers.len() - 1, bundle_count)
        } else {
            Seq::empty()
        })
    }
}

/// Every (carrier, bundle) pair worth attempting, in the order to attempt them: carrier-major, the
/// caller's order preserved within each dimension.
///
/// Deliberately unbounded: a cap would silently drop a carrier that might be the right one.
pub fn plan_receiving_init(carriers: &[ReceivingInitCarrier], bundle_count: u32) -> (r: Vec<
    ReceivingInitAttempt,
>)
    ensures
        r@ == attempts(carriers@, bundle_count),
{
    let mut out: Vec<ReceivingInitAttempt> = Vec::new();
    let mut i: usize = 0;
    assert(carriers@.take(0) =~= Seq::<ReceivingInitCarrier>::empty());
    while i < carriers.len()
        invariant
            i <= carriers@.len(),
            out@ == attempts(carriers@.take(i as int), bundle_count),
        decreases carriers@.len() - i,
    {
        assert(carriers@.take(i + 1).drop_last() =~= carriers@.take(i as int));
        if receiving_init_kind(&carriers[i]) == ReceivingInitKind::Handshake {
            let mut b: u32 = 0;
            let ghost before = out@;
            while b < bundle_count
                invariant
                    b <= bundle_count,
                    out@ == before + against_all(i as int, bundle_count).take(b as int),
                decreases bundle_count - b,
            {
                out.push(ReceivingInitAttempt { carrier_index: i as u32, bundle_index: b });
                b = b + 1;
                assert(out@ =~= before + against_all(i as int, bundle_count).take(b as int));
            }
            assert(against_all(i as int, bundle_count).take(b as int) =~= against_all(
                i as int,
                bundle_count,
            ));
        } else {
            assert(out@ + Seq::<ReceivingInitAttempt>::empty() =~= out@);
        }
        i = i + 1;
    }
    assert(carriers@.take(i as int) =~= carriers@);
    out
}

/// A session reset opens whatever else it looks like.
pub proof fn a_session_reset_always_opens(c: ReceivingInitCarrier)
    requires
        c.is_session_reset_init,
    ensures
        kind_of(c) is Handshake,
{
}

/// The plan is complete: every handshake is attempted against every bundle.
pub proof fn every_handshake_meets_every_bundle(
    carriers: Seq<ReceivingInitCarrier>,
    bundle_count: u32,
    c: int,
    b: int,
)
    requires
        0 <= c < carriers.len(),
        0 <= b < bundle_count,
        kind_of(carriers[c]) is Handshake,
    ensures
        attempts(carriers, bundle_count).contains(
            ReceivingInitAttempt { carrier_index: c as u32, bundle_index: b as u32 },
        ),
    decreases carriers.len(),
{
    let a = ReceivingInitAttempt { carrier_index: c as u32, bundle_index: b as u32 };
    let rest = attempts(carriers.drop_last(), bundle_count);
    let all = attempts(carriers, bundle_count);
    if c == carriers.len() - 1 {
        assert(against_all(c, bundle_count)[b] == a);
        assert(all[rest.len() + b] == a);
    } else {
        every_handshake_meets_every_bundle(carriers.drop_last(), bundle_count, c, b);
        let k = choose|k: int| 0 <= k < rest.len() && rest[k] == a;
        assert(all[k] == a);
    }
}

/// Only handshakes are attempted, only against bundles there are, and the plan goes through the
/// carriers in their order and for each through the bundles in theirs.
pub proof fn the_plan_is_carrier_major(
    carriers: Seq<ReceivingInitCarrier>,
    bundle_count: u32,
)
    requires
        carriers.len() <= u32::MAX,
    ensures
        forall|k: int|
            0 <= k < attempts(carriers, bundle_count).len() ==> {
                let a = #[trigger] attempts(carriers, bundle_count)[k];
                &&& a.carrier_index < carriers.len()
                &&& kind_of(carriers[a.carrier_index as int]) is Handshake
                &&& a.bundle_index < bundle_count
            },
        forall|k: int, l: int|
            0 <= k < l < attempts(carriers, bundle_count).len() ==> {
                let a = #[trigger] attempts(carriers, bundle_count)[k];
                let z = #[trigger] attempts(carriers, bundle_count)[l];
                a.carrier_index < z.carrier_index || (a.carrier_index == z.carrier_index
                    && a.bundle_index < z.bundle_index)
            },
    decreases carriers.len(),
{
    if carriers.len() > 0 {
        let init = carriers.drop_last();
        the_plan_is_carrier_major(init, bundle_count);
        let rest = attempts(init, bundle_count);
        let all = attempts(carriers, bundle_count);
        assert forall|k: int| 0 <= k < all.len() implies {
            let a = #[trigger] all[k];
            &&& a.carrier_index < carriers.len()
            &&& kind_of(carriers[a.carrier_index as int]) is Handshake
            &&& a.bundle_index < bundle_count
        } by {
            if k < rest.len() {
                assert(all[k] == rest[k]);
                assert(carriers[rest[k].carrier_index as int]
                    == init[rest[k].carrier_index as int]);
            }
        }
        assert forall|k: int, l: int| 0 <= k < l < all.len() implies {
            let a = #[trigger] all[k];
            let z = #[trigger] all[l];
            a.carrier_index < z.carrier_index || (a.carrier_index == z.carrier_index
                && a.bundle_index < z.bundle_index)
        } by {
            if k < rest.len() {
                assert(all[k] == rest[k]);
            }
            if l < rest.len() {
                assert(all[l] == rest[l]);
            }
        }
    }
}

/// Without a bundle there is nothing to attempt.
pub proof fn no_bundles_no_attempts(carriers: Seq<ReceivingInitCarrier>)
    ensures
        attempts(carriers, 0).len() == 0,
    decreases carriers.len(),
{
    if carriers.len() > 0 {
        no_bundles_no_attempts(carriers.drop_last());
    }
}

/// Which messages can open a session: every announced reset, and every first message of a chain
/// but one that belongs to a running post-quantum ratchet, which has an epoch above zero and
/// neither a one-time prekey nor a KEM ciphertext.
pub proof fn which_carriers_can_open(c: ReceivingInitCarrier)
    ensures
        kind_of(c) is MidRatchet <==> !c.is_session_reset_init && c.message_number > 0,
        kind_of(c) is MidSessionLeftover <==> !c.is_session_reset_init && c.message_number == 0
            && c.pq_message_epoch > 0 && c.one_time_prekey_id == 0 && c.kem_ciphertext_bytes == 0,
        kind_of(c) is Handshake <==> c.is_session_reset_init || (c.message_number == 0 && (
        c.pq_message_epoch == 0 || c.one_time_prekey_id > 0 || c.kem_ciphertext_bytes > 0)),
{
}

} // verus!
