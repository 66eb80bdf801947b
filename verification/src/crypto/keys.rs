//! The key material of this device.

use vstd::prelude::*;

use crate::crypto::handshake::{BundleView, X3DHPublicKeyBundle};
use crate::crypto::kyber_prekeys::{KyberPrekeys, KyberView};
use crate::crypto::suite_id::SuiteID;
use crate::vecs;

verus! {

/// A secret key and its public half.
#[derive(Debug)]
pub struct KeyPair {
    pub secret: Vec<u8>,
    pub public: Vec<u8>,
}

/// A `KeyPair` by its bytes.
pub struct PairView {
    pub secret: Seq<u8>,
    pub public: Seq<u8>,
}

impl DeepView for KeyPair {
    type V = PairView;

    open spec fn deep_view(&self) -> PairView {
        PairView { secret: self.secret@, public: self.public@ }
    }
}

/// A signed prekey.
#[derive(Debug)]
pub struct SignedPrekey {
    pub key_id: u32,
    pub pair: KeyPair,
    pub signature: Vec<u8>,
}

/// A `SignedPrekey` by its bytes.
pub struct SpkView {
    pub key_id: u32,
    pub pair: PairView,
    pub signature: Seq<u8>,
}

impl DeepView for SignedPrekey {
    type V = SpkView;

    open spec fn deep_view(&self) -> SpkView {
        SpkView {
            key_id: self.key_id,
            pair: self.pair.deep_view(),
            signature: self.signature@,
        }
    }
}

/// A one-time prekey.
#[derive(Debug)]
pub struct OneTimePrekey {
    pub key_id: u32,
    pub private_key: Vec<u8>,
    pub public_key: Vec<u8>,
}

/// A `OneTimePrekey` by its bytes.
pub struct OtpkView {
    pub key_id: u32,
    pub private_key: Seq<u8>,
    pub public_key: Seq<u8>,
}

impl DeepView for OneTimePrekey {
    type V = OtpkView;

    open spec fn deep_view(&self) -> OtpkView {
        OtpkView {
            key_id: self.key_id,
            private_key: self.private_key@,
            public_key: self.public_key@,
        }
    }
}

impl Clone for OneTimePrekey {
    fn clone(&self) -> (r: Self)
        ensures
            r.deep_view() == self.deep_view(),
    {
        OneTimePrekey {
            key_id: self.key_id,
            private_key: vecs::bytes(self.private_key.as_slice()),
            public_key: vecs::bytes(self.public_key.as_slice()),
        }
    }
}

/// One-time prekeys as they are persisted.
#[derive(Debug)]
pub struct OtpkBundle {
    pub records: Vec<OneTimePrekey>,
    pub next_id: u32,
}

/// An `OtpkBundle` by what its fields hold.
pub struct OtpkBundleView {
    pub records: Seq<OtpkView>,
    pub next_id: u32,
}

impl DeepView for OtpkBundle {
    type V = OtpkBundleView;

    open spec fn deep_view(&self) -> OtpkBundleView {
        OtpkBundleView { records: self.records.deep_view(), next_id: self.next_id }
    }
}

/// The key material of this device.
#[derive(Debug)]
pub struct KeyManager {
    pub identity: KeyPair,
    pub signing: KeyPair,
    pub signed_prekey: SignedPrekey,
    /// Signed prekeys that were replaced.
    pub old_prekeys: Vec<SignedPrekey>,
    pub otpks: Vec<OneTimePrekey>,
    pub next_otpk_id: u32,
    pub hybrid: Option<KeyPair>,
    pub kyber: KyberPrekeys,
}

/// The contents of a `KeyManager`.
#[verifier::ext_equal]
pub struct KeysView {
    pub identity: PairView,
    pub signing: PairView,
    pub signed_prekey: SpkView,
    pub old_prekeys: Seq<SpkView>,
    pub otpks: Seq<OtpkView>,
    pub next_otpk_id: u32,
    pub hybrid: Option<PairView>,
    pub kyber: KyberView,
}

impl DeepView for KeyManager {
    type V = KeysView;

    open spec fn deep_view(&self) -> KeysView {
        KeysView {
            identity: self.identity.deep_view(),
            signing: self.signing.deep_view(),
            signed_prekey: self.signed_prekey.deep_view(),
            old_prekeys: self.old_prekeys.deep_view(),
            otpks: self.otpks.deep_view(),
            next_otpk_id: self.next_otpk_id,
            hybrid: self.hybrid.deep_view(),
            kyber: self.kyber.deep_view(),
        }
    }
}

/// What this device publishes.
pub open spec fn bundle_of(k: KeysView) -> BundleView {
    BundleView {
        identity_public: k.identity.public,
        signed_prekey_public: k.signed_prekey.pair.public,
        signature: k.signed_prekey.signature,
        verifying_key: k.signing.public,
        suite_id: SuiteID::CLASSIC,
        one_time_prekey_public: None,
        one_time_prekey_id: None,
        spk_uploaded_at: 0,
        spk_rotation_epoch: 0,
        kyber_spk_uploaded_at: 0,
        kyber_spk_rotation_epoch: 0,
    }
}

/// One-time prekeys made of `pairs`, numbered from `first`.
pub open spec fn numbered_otpks(pairs: Seq<PairView>, first: u32) -> Seq<OtpkView> {
    Seq::new(
        pairs.len(),
        |i: int|
            OtpkView {
                key_id: (first + i) as u32,
                private_key: pairs[i].secret,
                public_key: pairs[i].public,
            },
    )
}

/// The pool after keys made of `pairs` were added.
pub open spec fn otpks_added(k: KeysView, pairs: Seq<PairView>) -> KeysView {
    KeysView {
        otpks: k.otpks + numbered_otpks(pairs, k.next_otpk_id),
        next_otpk_id: (k.next_otpk_id + pairs.len()) as u32,
        ..k
    }
}

/// The one-time prekeys whose id is at least `min`.
pub open spec fn otpks_from(keys: Seq<OtpkView>, min: u32) -> Seq<OtpkView> {
    keys.filter(|x: OtpkView| x.key_id >= min)
}

/// The keys after a new signed prekey took over.
pub open spec fn spk_rotated(k: KeysView, pair: PairView, signature: Seq<u8>) -> KeysView {
    KeysView {
        signed_prekey: SpkView {
            key_id: (k.signed_prekey.key_id + 1) as u32,
            pair,
            signature,
        },
        old_prekeys: k.old_prekeys.push(k.signed_prekey),
        ..k
    }
}

proof fn otpk_filter_push(s: Seq<OtpkView>, x: OtpkView, p: spec_fn(OtpkView) -> bool)
    ensures
        s.push(x).filter(p) == (if p(x) {
            s.filter(p).push(x)
        } else {
            s.filter(p)
        }),
{
    reveal(Seq::filter);
    assert(s.push(x).drop_last() =~= s);
}

impl KeyManager {
    /// What this device publishes.
    pub fn export_registration_bundle(&self) -> (r: X3DHPublicKeyBundle)
        ensures
            r.deep_view() == bundle_of(self.deep_view()),
    {
        X3DHPublicKeyBundle {
            identity_public: vecs::bytes(self.identity.public.as_slice()),
            signed_prekey_public: vecs::bytes(self.signed_prekey.pair.public.as_slice()),
            signature: vecs::bytes(self.signed_prekey.signature.as_slice()),
            verifying_key: vecs::bytes(self.signing.public.as_slice()),
            suite_id: SuiteID::CLASSIC,
            one_time_prekey_public: None,
            one_time_prekey_id: None,
            spk_uploaded_at: 0,
            spk_rotation_epoch: 0,
            kyber_spk_uploaded_at: 0,
            kyber_spk_rotation_epoch: 0,
        }
    }

    /// Puts a new signed prekey in place; false when the ids are used up.
    pub fn install_signed_prekey(&mut self, pair: KeyPair, signature: Vec<u8>) -> (r: bool)
        ensures
            r == (old(self).deep_view().signed_prekey.key_id < u32::MAX),
            final(self).deep_view() == (if r {
                spk_rotated(old(self).deep_view(), pair.deep_view(), signature@)
            } else {
                old(self).deep_view()
            }),
    {
        if self.signed_prekey.key_id == u32::MAX {
            return false;
        }
        let mut next = SignedPrekey { key_id: self.signed_prekey.key_id + 1, pair, signature };
        std::mem::swap(&mut next, &mut self.signed_prekey);
        vecs::push(&mut self.old_prekeys, next);
        assert(self.deep_view() =~= spk_rotated(
            old(self).deep_view(),
            pair.deep_view(),
            signature@,
        ));
        true
    }

    /// Adds one-time prekeys made of `pairs`; false when the ids are used up.
    pub fn add_otpks(&mut self, pairs: Vec<KeyPair>) -> (r: bool)
        ensures
            r == (pairs.deep_view().len() <= u32::MAX - old(self).deep_view().next_otpk_id),
            final(self).deep_view() == (if r {
                otpks_added(old(self).deep_view(), pairs.deep_view())
            } else {
                old(self).deep_view()
            }),
    {
        let ghost k = self.deep_view();
        let ghost all = pairs.deep_view();
        let first: u32 = self.next_otpk_id;
        let room: u32 = u32::MAX - first;
        if pairs.len() > room as usize {
            return false;
        }
        let ghost fresh = numbered_otpks(all, first);
        let mut i: usize = 0;
        assert(k.otpks + fresh.take(0) =~= k.otpks);
        while i < pairs.len()
            invariant
                i <= pairs@.len() <= room,
                all == pairs.deep_view(),
                room == u32::MAX - first,
                first == k.next_otpk_id,
                fresh == numbered_otpks(all, first),
                self.deep_view() == (KeysView { otpks: k.otpks + fresh.take(i as int), ..k }),
            decreases pairs@.len() - i,
        {
            assert(all[i as int] == pairs@[i as int].deep_view());
            vecs::push(
                &mut self.otpks,
                OneTimePrekey {
                    key_id: first + i as u32,
                    private_key: vecs::bytes(pairs[i].secret.as_slice()),
                    public_key: vecs::bytes(pairs[i].public.as_slice()),
                },
            );
            assert(k.otpks + fresh.take(i + 1) =~= (k.otpks + fresh.take(i as int)).push(
                fresh[i as int],
            ));
            i = i + 1;
        }
        assert(fresh.take(i as int) =~= fresh);
        self.next_otpk_id = first + pairs.len() as u32;
        true
    }

    /// The one-time prekeys from the `from`-th on, as they are uploaded.
    pub fn otpk_uploads(&self, from: usize) -> (r: Vec<(u32, Vec<u8>)>)
        requires
            from <= self.deep_view().otpks.len(),
        ensures
            r.deep_view() == self.deep_view().otpks.skip(from as int).map_values(
                |x: OtpkView| (x.key_id, x.public_key),
            ),
    {
        let ghost whole = self.deep_view().otpks.skip(from as int).map_values(
            |x: OtpkView| (x.key_id, x.public_key),
        );
        let mut out: Vec<(u32, Vec<u8>)> = vecs::none();
        let mut i: usize = from;
        while i < self.otpks.len()
            invariant
                from <= i <= self.otpks@.len(),
                whole == self.deep_view().otpks.skip(from as int).map_values(
                    |x: OtpkView| (x.key_id, x.public_key),
                ),
                out.deep_view() == whole.take(i - from),
            decreases self.otpks@.len() - i,
        {
            let item = (self.otpks[i].key_id, vecs::bytes(self.otpks[i].public_key.as_slice()));
            assert(item.1.deep_view() =~= self.otpks@[i as int].public_key@);
            vecs::push(&mut out, item);
            assert(whole.take(i + 1 - from) =~= whole.take(i - from).push(whole[i - from]));
            i = i + 1;
        }
        assert(whole.take(i - from) =~= whole);
        out
    }

    /// Every one-time prekey.
    pub fn export_otpks(&self) -> (r: Vec<OneTimePrekey>)
        ensures
            r.deep_view() == self.deep_view().otpks,
    {
        let mut out: Vec<OneTimePrekey> = vecs::none();
        let mut i: usize = 0;
        while i < self.otpks.len()
            invariant
                i <= self.otpks@.len(),
                out.deep_view() == self.otpks.deep_view().take(i as int),
            decreases self.otpks@.len() - i,
        {
            vecs::push(&mut out, self.otpks[i].clone());
            assert(self.otpks.deep_view().take(i + 1) =~= self.otpks.deep_view().take(
                i as int,
            ).push(self.otpks.deep_view()[i as int]));
            i = i + 1;
        }
        assert(self.otpks.deep_view().take(i as int) =~= self.otpks.deep_view());
        out
    }

    /// Drops the one-time prekeys numbered below `min_keep_id`; how many.
    pub fn prune_otpks_below(&mut self, min_keep_id: u32) -> (r: usize)
        ensures
            final(self).deep_view() == (KeysView {
                otpks: otpks_from(old(self).deep_view().otpks, min_keep_id),
                ..old(self).deep_view()
            }),
            r == old(self).deep_view().otpks.len() - final(self).deep_view().otpks.len(),
    {
        let ghost p = |x: OtpkView| x.key_id >= min_keep_id;
        let ghost all = self.otpks.deep_view();
        let mut kept: Vec<OneTimePrekey> = vecs::none();
        let mut i: usize = 0;
        proof {
            reveal(Seq::filter);
            assert(all.take(0) =~= Seq::<OtpkView>::empty());
        }
        while i < self.otpks.len()
            invariant
                i <= self.otpks@.len(),
                all == self.otpks.deep_view(),
                p == (|x: OtpkView| x.key_id >= min_keep_id),
                kept.deep_view() == all.take(i as int).filter(p),
            decreases self.otpks@.len() - i,
        {
            proof {
                assert(all.take(i + 1) =~= all.take(i as int).push(all[i as int]));
                otpk_filter_push(all.take(i as int), all[i as int], p);
            }
            if self.otpks[i].key_id >= min_keep_id {
                vecs::push(&mut kept, self.otpks[i].clone());
            }
            i = i + 1;
        }
        proof {
            assert(all.take(i as int) =~= all);
            all.lemma_filter_len(p);
        }
        let n: usize = self.otpks.len() - kept.len();
        self.otpks = kept;
        n
    }

    /// Uses up the one-time prekey with this id.
    pub fn remove_otpk(&mut self, id: u32)
        ensures
            final(self).deep_view() == (KeysView {
                otpks: old(self).deep_view().otpks.filter(|x: OtpkView| x.key_id != id),
                ..old(self).deep_view()
            }),
    {
        let ghost p = |x: OtpkView| x.key_id != id;
        let ghost all = self.otpks.deep_view();
        let mut kept: Vec<OneTimePrekey> = vecs::none();
        let mut i: usize = 0;
        proof {
            reveal(Seq::filter);
            assert(all.take(0) =~= Seq::<OtpkView>::empty());
        }
        while i < self.otpks.len()
            invariant
                i <= self.otpks@.len(),
                all == self.otpks.deep_view(),
                p == (|x: OtpkView| x.key_id != id),
                kept.deep_view() == all.take(i as int).filter(p),
            decreases self.otpks@.len() - i,
        {
            proof {
                assert(all.take(i + 1) =~= all.take(i as int).push(all[i as int]));
                otpk_filter_push(all.take(i as int), all[i as int], p);
            }
            if self.otpks[i].key_id != id {
                vecs::push(&mut kept, self.otpks[i].clone());
            }
            i = i + 1;
        }
        assert(all.take(i as int) =~= all);
        self.otpks = kept;
    }

    /// Replaces the pool of one-time prekeys.
    pub fn import_otpks(&mut self, records: Vec<OneTimePrekey>)
        ensures
            final(self).deep_view() == (KeysView {
                otpks: records.deep_view(),
                ..old(self).deep_view()
            }),
    {
        self.otpks = records;
    }
}

} // verus!
