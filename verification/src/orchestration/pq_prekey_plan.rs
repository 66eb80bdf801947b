//! Which Kyber prekey an initiator encapsulates to — or why it opens no session at all.
//!
//! Post-quantum security is mandatory for new sessions: a bundle either yields a Kyber prekey this
//! device can trust, or the session is refused before anything is created.
//!
//! What "trust" means here:
//! - the device's **hybrid identity key** (Ed25519 + ML-DSA-65) is in the bundle, bound to its
//!   Ed25519 identity by the cross-signature, and is the one pinned for this device the first time
//!   it was seen;
//! - the Kyber prekey carries **both** signatures, Ed25519 and hybrid;
//! - a signed prekey is no older than `KYBER_SPK_MAX_AGE_SECS` by its **signed** time.
//!
//! A one-time prekey is preferred. Anything wrong with it falls back to the signed prekey rather
//! than refusing: a server can always omit the one-time key.

use vstd::prelude::*;

use crate::crypto::engine::{self, CryptoEngine};
use crate::crypto::kyber_prekey_auth::{self, kyber_prekey_sign_message_v2, KYBER_SPK_MAX_AGE_SECS};
use crate::crypto::kyber_prekeys::{KYBER_OTPK_ID_START, MLKEM1024_PK_SIZE};
use crate::strings::same_bytes;
use crate::vecs;
use crate::wire_payload;

verus! {

/// One Kyber prekey as the bundle presents it.
#[derive(Debug, Clone, Copy)]
pub struct KyberPrekeyOffer<'a> {
    pub key_id: u32,
    pub public: &'a [u8],
    /// Signed creation time; the signatures cannot verify without it.
    pub created_at: Option<u64>,
    pub signature: Option<&'a [u8]>,
    pub hybrid_signature: Option<&'a [u8]>,
}

/// The PQ-relevant part of a peer device's bundle.
#[derive(Debug, Clone, Copy)]
pub struct PqxdhOffer<'a> {
    /// Ed25519 identity verifying key.
    pub verifying_key: &'a [u8],
    /// Hybrid identity key.
    pub hybrid_identity_key: Option<&'a [u8]>,
    /// Ed25519 cross-signature binding it to `verifying_key`.
    pub hybrid_identity_signature: Option<&'a [u8]>,
    pub signed_prekey: Option<KyberPrekeyOffer<'a>>,
    pub one_time_prekey: Option<KyberPrekeyOffer<'a>>,
}

/// What this device already knows.
#[derive(Debug, Clone, Copy)]
pub struct PqxdhContext<'a> {
    pub now: u64,
    /// SHA-256 of the hybrid identity key pinned for this device, if it was seen before.
    pub pinned_hybrid_identity: Option<&'a [u8; 32]>,
}

/// Why no session is opened.
#[derive(Debug, Clone, Copy, PartialEq, Eq, Structural)]
pub enum PqxdhRefusal {
    /// The bundle has no Kyber signed prekey.
    NoKyberPrekey,
    /// Wrong size or an id outside its range.
    KyberPrekeyMalformed,
    /// No Ed25519 signature (or no signed time) on the Kyber signed prekey.
    KyberSignatureMissing,
    /// An Ed25519 signature that does not verify — tampering, not a transition.
    KyberSignatureInvalid,
    /// Older than `KYBER_SPK_MAX_AGE_SECS` by its signed time.
    KyberPrekeyStale,
    /// No hybrid identity key, or no cross-signature binding it.
    HybridIdentityMissing,
    /// The cross-signature does not verify under the device's identity key.
    HybridIdentityBindingInvalid,
    /// A hybrid identity key other than the one pinned for this device.
    HybridIdentityChanged,
    /// No hybrid signature on the Kyber signed prekey.
    HybridSignatureMissing,
    /// A hybrid signature that does not verify.
    HybridSignatureInvalid,
}

impl PqxdhRefusal {
    /// The name of a refusal.
    pub open spec fn label(self) -> Seq<char> {
        match self {
            PqxdhRefusal::NoKyberPrekey => "NoKyberPrekey"@,
            PqxdhRefusal::KyberPrekeyMalformed => "KyberPrekeyMalformed"@,
            PqxdhRefusal::KyberSignatureMissing => "KyberSignatureMissing"@,
            PqxdhRefusal::KyberSignatureInvalid => "KyberSignatureInvalid"@,
            PqxdhRefusal::KyberPrekeyStale => "KyberPrekeyStale"@,
            PqxdhRefusal::HybridIdentityMissing => "HybridIdentityMissing"@,
            PqxdhRefusal::HybridIdentityBindingInvalid => "HybridIdentityBindingInvalid"@,
            PqxdhRefusal::HybridIdentityChanged => "HybridIdentityChanged"@,
            PqxdhRefusal::HybridSignatureMissing => "HybridSignatureMissing"@,
            PqxdhRefusal::HybridSignatureInvalid => "HybridSignatureInvalid"@,
        }
    }

    /// The name of a refusal.
    pub fn name(&self) -> (r: &'static str)
        ensures
            r@ == self.label(),
    {
        match self {
            PqxdhRefusal::NoKyberPrekey => "NoKyberPrekey",
            PqxdhRefusal::KyberPrekeyMalformed => "KyberPrekeyMalformed",
            PqxdhRefusal::KyberSignatureMissing => "KyberSignatureMissing",
            PqxdhRefusal::KyberSignatureInvalid => "KyberSignatureInvalid",
            PqxdhRefusal::KyberPrekeyStale => "KyberPrekeyStale",
            PqxdhRefusal::HybridIdentityMissing => "HybridIdentityMissing",
            PqxdhRefusal::HybridIdentityBindingInvalid => "HybridIdentityBindingInvalid",
            PqxdhRefusal::HybridIdentityChanged => "HybridIdentityChanged",
            PqxdhRefusal::HybridSignatureMissing => "HybridSignatureMissing",
            PqxdhRefusal::HybridSignatureInvalid => "HybridSignatureInvalid",
        }
    }
}

/// The prekey to encapsulate to.
#[derive(Debug, Clone, PartialEq, Eq)]
pub struct PqxdhChoice {
    pub kyber_prekey_id: u32,
    pub kyber_public: Vec<u8>,
    /// SHA-256 of the hybrid identity key that authenticated it — pin it once X3DH has verified
    /// the bundle.
    pub hybrid_identity_fingerprint: [u8; 32],
    /// A one-time prekey was offered and could not be used.
    pub one_time_prekey_rejected: Option<PqxdhRefusal>,
}

/// A `PqxdhChoice` by its bytes.
pub struct ChoiceView {
    pub kyber_prekey_id: u32,
    pub kyber_public: Seq<u8>,
    pub hybrid_identity_fingerprint: Seq<u8>,
    pub one_time_prekey_rejected: Option<PqxdhRefusal>,
}

impl DeepView for PqxdhChoice {
    type V = ChoiceView;

    open spec fn deep_view(&self) -> ChoiceView {
        ChoiceView {
            kyber_prekey_id: self.kyber_prekey_id,
            kyber_public: self.kyber_public@,
            hybrid_identity_fingerprint: self.hybrid_identity_fingerprint@,
            one_time_prekey_rejected: self.one_time_prekey_rejected,
        }
    }
}

/// A `KyberPrekeyOffer` by its bytes.
pub struct PrekeyOfferView {
    pub key_id: u32,
    pub public: Seq<u8>,
    pub created_at: Option<u64>,
    pub signature: Option<Seq<u8>>,
    pub hybrid_signature: Option<Seq<u8>>,
}

impl<'a> DeepView for KyberPrekeyOffer<'a> {
    type V = PrekeyOfferView;

    open spec fn deep_view(&self) -> PrekeyOfferView {
        PrekeyOfferView {
            key_id: self.key_id,
            public: self.public@,
            created_at: self.created_at,
            signature: wire_payload::opt_slice(self.signature),
            hybrid_signature: wire_payload::opt_slice(self.hybrid_signature),
        }
    }
}

/// A `PqxdhOffer` by its bytes.
pub struct OfferView {
    pub verifying_key: Seq<u8>,
    pub hybrid_identity_key: Option<Seq<u8>>,
    pub hybrid_identity_signature: Option<Seq<u8>>,
    pub signed_prekey: Option<PrekeyOfferView>,
    pub one_time_prekey: Option<PrekeyOfferView>,
}

impl<'a> DeepView for PqxdhOffer<'a> {
    type V = OfferView;

    open spec fn deep_view(&self) -> OfferView {
        OfferView {
            verifying_key: self.verifying_key@,
            hybrid_identity_key: wire_payload::opt_slice(self.hybrid_identity_key),
            hybrid_identity_signature: wire_payload::opt_slice(self.hybrid_identity_signature),
            signed_prekey: self.signed_prekey.deep_view(),
            one_time_prekey: self.one_time_prekey.deep_view(),
        }
    }
}

/// The fingerprint pinned, as bytes.
pub open spec fn pin_view(pin: Option<&[u8; 32]>) -> Option<Seq<u8>> {
    match pin {
        Some(p) => Some(p@),
        None => None,
    }
}

/// Whether bytes were given at all; an empty string counts as nothing.
pub open spec fn given(b: Option<Seq<u8>>) -> bool {
    b matches Some(x) && x.len() > 0
}

/// What the signatures of a bundle came to.
#[derive(Debug, Clone, Copy, PartialEq, Eq, Structural)]
pub struct BundleVerdicts {
    /// The cross-signature binds the hybrid identity key.
    pub binding: bool,
    /// The Ed25519 and the hybrid signature of the signed prekey.
    pub signed_prekey: bool,
    pub signed_prekey_hybrid: bool,
    /// The Ed25519 and the hybrid signature of the one-time prekey.
    pub one_time_prekey: bool,
    pub one_time_prekey_hybrid: bool,
}

// ── SHA-256 ─────────────────────────────────────────────────────────────────

/// The SHA-256 digest of `data`.
pub uninterp spec fn sha256_of(data: Seq<u8>) -> Seq<u8>;

/// `sha2::Sha256::digest`: the SHA-256 digest of `data`, 32 bytes that depend on `data` alone.
#[verifier::external_body]
fn sha256(data: &[u8]) -> (r: [u8; 32])
    ensures
        r@ == sha256_of(data@),
{
    <sha2::Sha256 as sha2::Digest>::digest(data).into()
}

/// The fingerprint by which a hybrid identity key is pinned.
pub fn hybrid_identity_fingerprint(hybrid_identity_key: &[u8]) -> (r: [u8; 32])
    ensures
        r@ == sha256_of(hybrid_identity_key@),
{
    sha256(hybrid_identity_key)
}

// ── The plan ────────────────────────────────────────────────────────────────

/// Why a prekey cannot be used; `None` when it can. `one_time` is the range it is offered in.
pub open spec fn prekey_refusal(
    p: PrekeyOfferView,
    one_time: bool,
    now: u64,
    valid: bool,
    hybrid_valid: bool,
) -> Option<PqxdhRefusal> {
    let id_ok = if one_time {
        p.key_id >= KYBER_OTPK_ID_START
    } else {
        1 <= p.key_id < KYBER_OTPK_ID_START
    };
    if p.public.len() != MLKEM1024_PK_SIZE || !id_ok {
        Some(PqxdhRefusal::KyberPrekeyMalformed)
    } else if p.created_at is None || !given(p.signature) {
        Some(PqxdhRefusal::KyberSignatureMissing)
    } else if !valid {
        Some(PqxdhRefusal::KyberSignatureInvalid)
    } else if !given(p.hybrid_signature) {
        Some(PqxdhRefusal::HybridSignatureMissing)
    } else if !hybrid_valid {
        Some(PqxdhRefusal::HybridSignatureInvalid)
    } else if !one_time && now > p.created_at->Some_0 + KYBER_SPK_MAX_AGE_SECS {
        Some(PqxdhRefusal::KyberPrekeyStale)
    } else {
        None
    }
}

/// Why the hybrid identity cannot be trusted; `None` when it can.
pub open spec fn identity_refusal(
    offer: OfferView,
    pinned: Option<Seq<u8>>,
    binding: bool,
) -> Option<PqxdhRefusal> {
    if !given(offer.hybrid_identity_key) || !given(offer.hybrid_identity_signature) {
        Some(PqxdhRefusal::HybridIdentityMissing)
    } else if !binding {
        Some(PqxdhRefusal::HybridIdentityBindingInvalid)
    } else if pinned matches Some(p) && p != sha256_of(offer.hybrid_identity_key->Some_0) {
        Some(PqxdhRefusal::HybridIdentityChanged)
    } else {
        None
    }
}

/// The choice of a prekey.
pub open spec fn chosen(
    offer: OfferView,
    p: PrekeyOfferView,
    rejected: Option<PqxdhRefusal>,
) -> ChoiceView {
    ChoiceView {
        kyber_prekey_id: p.key_id,
        kyber_public: p.public,
        hybrid_identity_fingerprint: sha256_of(offer.hybrid_identity_key->Some_0),
        one_time_prekey_rejected: rejected,
    }
}

/// The plan for a bundle whose signatures came to `v`.
pub open spec fn pqxdh_plan(
    offer: OfferView,
    now: u64,
    pinned: Option<Seq<u8>>,
    v: BundleVerdicts,
) -> Result<ChoiceView, PqxdhRefusal> {
    let rejected = match offer.one_time_prekey {
        Some(p) => prekey_refusal(p, true, now, v.one_time_prekey, v.one_time_prekey_hybrid),
        None => None,
    };
    if identity_refusal(offer, pinned, v.binding) is Some {
        Err(identity_refusal(offer, pinned, v.binding)->Some_0)
    } else if offer.one_time_prekey is Some && rejected is None {
        Ok(chosen(offer, offer.one_time_prekey->Some_0, None))
    } else {
        match offer.signed_prekey {
            None => Err(PqxdhRefusal::NoKyberPrekey),
            Some(p) => match prekey_refusal(
                p,
                false,
                now,
                v.signed_prekey,
                v.signed_prekey_hybrid,
            ) {
                Some(e) => Err(e),
                None => Ok(chosen(offer, p, rejected)),
            },
        }
    }
}

fn has_bytes(b: &Option<&[u8]>) -> (r: bool)
    ensures
        r == given(wire_payload::opt_slice(*b)),
{
    match b {
        Some(x) => x.len() > 0,
        None => false,
    }
}

fn check_prekey(
    prekey: &KyberPrekeyOffer<'_>,
    one_time: bool,
    now: u64,
    valid: bool,
    hybrid_valid: bool,
) -> (r: Option<PqxdhRefusal>)
    ensures
        r == prekey_refusal(prekey.deep_view(), one_time, now, valid, hybrid_valid),
{
    let id_ok = if one_time {
        prekey.key_id >= KYBER_OTPK_ID_START
    } else {
        1 <= prekey.key_id && prekey.key_id < KYBER_OTPK_ID_START
    };
    if prekey.public.len() != MLKEM1024_PK_SIZE || !id_ok {
        return Some(PqxdhRefusal::KyberPrekeyMalformed);
    }
    let created_at: u64 = match prekey.created_at {
        Some(t) => t,
        None => {
            return Some(PqxdhRefusal::KyberSignatureMissing);
        },
    };
    if !has_bytes(&prekey.signature) {
        return Some(PqxdhRefusal::KyberSignatureMissing);
    }
    if !valid {
        return Some(PqxdhRefusal::KyberSignatureInvalid);
    }
    if !has_bytes(&prekey.hybrid_signature) {
        return Some(PqxdhRefusal::HybridSignatureMissing);
    }
    if !hybrid_valid {
        return Some(PqxdhRefusal::HybridSignatureInvalid);
    }
    // A one-time key is burned on use; replaying one only reaches a deleted secret.
    if !one_time && now.saturating_sub(created_at) > KYBER_SPK_MAX_AGE_SECS {
        return Some(PqxdhRefusal::KyberPrekeyStale);
    }
    None
}

/// Chooses the prekey of a bundle whose signatures came to `verdicts`.
pub fn decide_pqxdh(
    offer: &PqxdhOffer<'_>,
    ctx: &PqxdhContext<'_>,
    verdicts: &BundleVerdicts,
) -> (r: Result<PqxdhChoice, PqxdhRefusal>)
    ensures
        match (
            pqxdh_plan(
                offer.deep_view(),
                ctx.now,
                pin_view(ctx.pinned_hybrid_identity),
                *verdicts,
            ),
            r,
        ) {
            (Ok(c), Ok(d)) => d.deep_view() == c,
            (Err(e), Err(f)) => e == f,
            _ => false,
        },
{
    let key = match offer.hybrid_identity_key {
        Some(k) => k,
        None => {
            return Err(PqxdhRefusal::HybridIdentityMissing);
        },
    };
    if key.len() == 0 || !has_bytes(&offer.hybrid_identity_signature) {
        return Err(PqxdhRefusal::HybridIdentityMissing);
    }
    if !verdicts.binding {
        return Err(PqxdhRefusal::HybridIdentityBindingInvalid);
    }
    let fingerprint = hybrid_identity_fingerprint(key);
    if let Some(pinned) = ctx.pinned_hybrid_identity {
        if !same_bytes(pinned, &fingerprint) {
            return Err(PqxdhRefusal::HybridIdentityChanged);
        }
    }
    let mut rejected: Option<PqxdhRefusal> = None;
    if let Some(otpk) = offer.one_time_prekey {
        match check_prekey(
            &otpk,
            true,
            ctx.now,
            verdicts.one_time_prekey,
            verdicts.one_time_prekey_hybrid,
        ) {
            None => {
                return Ok(
                    PqxdhChoice {
                        kyber_prekey_id: otpk.key_id,
                        kyber_public: vecs::bytes(otpk.public),
                        hybrid_identity_fingerprint: fingerprint,
                        one_time_prekey_rejected: None,
                    },
                );
            },
            Some(reason) => {
                rejected = Some(reason);
            },
        }
    }
    let spk = match offer.signed_prekey {
        Some(p) => p,
        None => {
            return Err(PqxdhRefusal::NoKyberPrekey);
        },
    };
    match check_prekey(
        &spk,
        false,
        ctx.now,
        verdicts.signed_prekey,
        verdicts.signed_prekey_hybrid,
    ) {
        Some(e) => Err(e),
        None => Ok(
            PqxdhChoice {
                kyber_prekey_id: spk.key_id,
                kyber_public: vecs::bytes(spk.public),
                hybrid_identity_fingerprint: fingerprint,
                one_time_prekey_rejected: rejected,
            },
        ),
    }
}

/// What the engine says of the two signatures of a prekey, wherever there is something to verify.
pub open spec fn prekey_verified<E: CryptoEngine>(
    engine: &E,
    verifying_key: Seq<u8>,
    hybrid_key: Seq<u8>,
    prekey: Option<PrekeyOfferView>,
    valid: bool,
    hybrid_valid: bool,
) -> bool {
    prekey matches Some(p) ==> (p.created_at matches Some(t) ==> {
        &&& given(p.signature) ==> engine::said_verify(
            engine,
            verifying_key,
            kyber_prekey_auth::kyber_sign_message(t, p.public),
            p.signature->Some_0,
            valid,
        )
        &&& given(p.hybrid_signature) ==> engine::said_verify_hybrid(
            engine,
            hybrid_key,
            kyber_prekey_auth::kyber_sign_message(t, p.public),
            p.hybrid_signature->Some_0,
            hybrid_valid,
        )
    })
}

/// What the engine says of the signatures of a bundle, wherever there is something to verify.
pub open spec fn bundle_verified<E: CryptoEngine>(
    engine: &E,
    offer: OfferView,
    v: BundleVerdicts,
) -> bool {
    given(offer.hybrid_identity_key) ==> {
        let hybrid_key = offer.hybrid_identity_key->Some_0;
        &&& given(offer.hybrid_identity_signature) ==> exists|message: Seq<u8>|
            #[trigger] engine::said_hybrid_bind_message(engine, hybrid_key, message) && engine::said_verify(
                engine,
                offer.verifying_key,
                message,
                offer.hybrid_identity_signature->Some_0,
                v.binding,
            )
        &&& prekey_verified(
            engine,
            offer.verifying_key,
            hybrid_key,
            offer.signed_prekey,
            v.signed_prekey,
            v.signed_prekey_hybrid,
        )
        &&& prekey_verified(
            engine,
            offer.verifying_key,
            hybrid_key,
            offer.one_time_prekey,
            v.one_time_prekey,
            v.one_time_prekey_hybrid,
        )
    }
}

fn verify_prekey<E: CryptoEngine>(
    engine: &E,
    verifying_key: &[u8],
    hybrid_key: &[u8],
    prekey: &Option<KyberPrekeyOffer<'_>>,
) -> (r: (bool, bool))
    ensures
        prekey_verified(engine, verifying_key@, hybrid_key@, prekey.deep_view(), r.0, r.1),
{
    match prekey {
        None => (false, false),
        Some(p) => match p.created_at {
            None => (false, false),
            Some(t) => {
                let message = kyber_prekey_sign_message_v2(t, p.public);
                let valid = match p.signature {
                    Some(s) => engine.verify(verifying_key, message.as_slice(), s),
                    None => false,
                };
                let hybrid_valid = match p.hybrid_signature {
                    Some(s) => engine.verify_hybrid(hybrid_key, message.as_slice(), s),
                    None => false,
                };
                (valid, hybrid_valid)
            },
        },
    }
}

/// Verifies the signatures of a bundle.
pub fn verify_bundle<E: CryptoEngine>(engine: &E, offer: &PqxdhOffer<'_>) -> (r: BundleVerdicts)
    ensures
        bundle_verified(engine, offer.deep_view(), r),
{
    let key = match offer.hybrid_identity_key {
        Some(k) => k,
        None => {
            return BundleVerdicts {
                binding: false,
                signed_prekey: false,
                signed_prekey_hybrid: false,
                one_time_prekey: false,
                one_time_prekey_hybrid: false,
            };
        },
    };
    let binding = match offer.hybrid_identity_signature {
        Some(s) => {
            let message = engine.hybrid_bind_message(key);
            let ok = engine.verify(offer.verifying_key, message.as_slice(), s);
            assert(engine::said_hybrid_bind_message(engine, key@, message@));
            ok
        },
        None => false,
    };
    let spk = verify_prekey(engine, offer.verifying_key, key, &offer.signed_prekey);
    let otpk = verify_prekey(engine, offer.verifying_key, key, &offer.one_time_prekey);
    BundleVerdicts {
        binding,
        signed_prekey: spk.0,
        signed_prekey_hybrid: spk.1,
        one_time_prekey: otpk.0,
        one_time_prekey_hybrid: otpk.1,
    }
}

/// Chooses the Kyber prekey to encapsulate to, or says why there is none.
pub fn plan_pqxdh<E: CryptoEngine>(
    engine: &E,
    offer: &PqxdhOffer<'_>,
    ctx: &PqxdhContext<'_>,
) -> (r: Result<PqxdhChoice, PqxdhRefusal>)
    ensures
        exists|v: BundleVerdicts|
            #![trigger bundle_verified(engine, offer.deep_view(), v)]
            bundle_verified(engine, offer.deep_view(), v) && match (
                pqxdh_plan(
                    offer.deep_view(),
                    ctx.now,
                    pin_view(ctx.pinned_hybrid_identity),
                    v,
                ),
                r,
            ) {
                (Ok(c), Ok(d)) => d.deep_view() == c,
                (Err(e), Err(f)) => e == f,
                _ => false,
            },
{
    let verdicts = verify_bundle(engine, offer);
    decide_pqxdh(offer, ctx, &verdicts)
}

/// A prekey is chosen only when everything that makes it trustworthy holds: the hybrid identity is
/// bound and, if one is pinned, the pinned one; both signatures verify; and a signed prekey is
/// fresh.
pub proof fn a_chosen_prekey_is_trusted(
    offer: OfferView,
    now: u64,
    pinned: Option<Seq<u8>>,
    v: BundleVerdicts,
)
    requires
        pqxdh_plan(offer, now, pinned, v) is Ok,
    ensures
        ({
            let c = pqxdh_plan(offer, now, pinned, v)->Ok_0;
            &&& v.binding
            &&& pinned matches Some(p) ==> p == c.hybrid_identity_fingerprint
            &&& c.kyber_public.len() == MLKEM1024_PK_SIZE
            &&& c.kyber_prekey_id >= KYBER_OTPK_ID_START ==> v.one_time_prekey
                && v.one_time_prekey_hybrid
            &&& c.kyber_prekey_id < KYBER_OTPK_ID_START ==> v.signed_prekey
                && v.signed_prekey_hybrid && now <= offer.signed_prekey->Some_0.created_at->Some_0
                + KYBER_SPK_MAX_AGE_SECS
        }),
{
}

/// A bad one-time prekey costs nothing but itself: the answer is the one the bundle would get
/// without it, but for the note that it was rejected.
pub proof fn a_bad_one_time_key_falls_back(
    offer: OfferView,
    now: u64,
    pinned: Option<Seq<u8>>,
    v: BundleVerdicts,
)
    requires
        offer.one_time_prekey matches Some(p) && prekey_refusal(
            p,
            true,
            now,
            v.one_time_prekey,
            v.one_time_prekey_hybrid,
        ) is Some,
    ensures
        ({
            let without = OfferView { one_time_prekey: None, ..offer };
            match (pqxdh_plan(offer, now, pinned, v), pqxdh_plan(without, now, pinned, v)) {
                (Ok(a), Ok(b)) => a == (ChoiceView {
                    one_time_prekey_rejected: a.one_time_prekey_rejected,
                    ..b
                }) && a.one_time_prekey_rejected is Some,
                (Err(a), Err(b)) => a == b,
                _ => false,
            }
        }),
{
}

/// A hybrid identity other than the pinned one is refused, whatever else the bundle holds and
/// whatever its signatures say.
pub proof fn a_changed_identity_is_refused(
    offer: OfferView,
    now: u64,
    pin: Seq<u8>,
    v: BundleVerdicts,
)
    requires
        offer.hybrid_identity_key matches Some(k) && pin != sha256_of(k),
    ensures
        pqxdh_plan(offer, now, Some(pin), v) is Err,
{
}

/// A hybrid identity that can be trusted: the key and its cross-signature are there, the signature
/// binds the key, and where a key was pinned before it is the same.
pub open spec fn identity_holds(
    offer: OfferView,
    pinned: Option<Seq<u8>>,
    v: BundleVerdicts,
) -> bool {
    &&& offer.hybrid_identity_key matches Some(k) && k.len() > 0
    &&& offer.hybrid_identity_signature matches Some(s) && s.len() > 0
    &&& v.binding
    &&& pinned is None || pinned == Some(sha256_of(offer.hybrid_identity_key->Some_0))
}

/// A Kyber prekey with all its parts: a key of the right size, a signed time and two signatures.
pub open spec fn prekey_complete(p: PrekeyOfferView) -> bool {
    &&& p.public.len() == 1568
    &&& p.created_at is Some
    &&& p.signature matches Some(s) && s.len() > 0
    &&& p.hybrid_signature matches Some(s) && s.len() > 0
}

/// A one-time prekey with an id of the one-time range and two signatures that verify is the one
/// chosen, however long ago it was made and whatever else the bundle holds.
pub proof fn a_usable_one_time_prekey_is_chosen(
    offer: OfferView,
    p: PrekeyOfferView,
    now: u64,
    pinned: Option<Seq<u8>>,
    v: BundleVerdicts,
)
    requires
        identity_holds(offer, pinned, v),
        offer.one_time_prekey == Some(p),
        prekey_complete(p),
        p.key_id >= 1_000_000,
        v.one_time_prekey,
        v.one_time_prekey_hybrid,
    ensures
        pqxdh_plan(offer, now, pinned, v) == Ok::<ChoiceView, PqxdhRefusal>(
            (ChoiceView {
                kyber_prekey_id: p.key_id,
                kyber_public: p.public,
                hybrid_identity_fingerprint: sha256_of(offer.hybrid_identity_key->Some_0),
                one_time_prekey_rejected: None,
            }),
        ),
{
}

/// Without a one-time prekey the signed prekey is chosen, whenever its id is of the signed range,
/// both its signatures verify and its signed time is at most fourteen days ago.
pub proof fn a_usable_signed_prekey_is_chosen(
    offer: OfferView,
    p: PrekeyOfferView,
    now: u64,
    pinned: Option<Seq<u8>>,
    v: BundleVerdicts,
)
    requires
        identity_holds(offer, pinned, v),
        offer.one_time_prekey is None,
        offer.signed_prekey == Some(p),
        prekey_complete(p),
        1 <= p.key_id < 1_000_000,
        v.signed_prekey,
        v.signed_prekey_hybrid,
        now <= p.created_at->Some_0 + 14 * 24 * 60 * 60,
    ensures
        pqxdh_plan(offer, now, pinned, v) == Ok::<ChoiceView, PqxdhRefusal>(
            (ChoiceView {
                kyber_prekey_id: p.key_id,
                kyber_public: p.public,
                hybrid_identity_fingerprint: sha256_of(offer.hybrid_identity_key->Some_0),
                one_time_prekey_rejected: None,
            }),
        ),
{
}

/// A plan chooses a prekey of the bundle and nothing else: the one-time prekey if it is usable, or
/// else a usable signed prekey, and then the note says whether a one-time prekey was passed over.
pub proof fn a_choice_is_a_prekey_of_the_bundle(
    offer: OfferView,
    now: u64,
    pinned: Option<Seq<u8>>,
    v: BundleVerdicts,
)
    requires
        pqxdh_plan(offer, now, pinned, v) is Ok,
    ensures
        ({
            let c = pqxdh_plan(offer, now, pinned, v)->Ok_0;
            &&& identity_holds(offer, pinned, v)
            &&& c.hybrid_identity_fingerprint == sha256_of(offer.hybrid_identity_key->Some_0)
            &&& c.kyber_prekey_id >= 1_000_000 ==> {
                &&& offer.one_time_prekey matches Some(p) && prekey_complete(p) && p.key_id
                    == c.kyber_prekey_id && p.public == c.kyber_public
                &&& v.one_time_prekey
                &&& v.one_time_prekey_hybrid
                &&& c.one_time_prekey_rejected is None
            }
            &&& c.kyber_prekey_id < 1_000_000 ==> {
                &&& offer.signed_prekey matches Some(p) && prekey_complete(p) && p.key_id
                    == c.kyber_prekey_id && p.public == c.kyber_public && now
                    <= p.created_at->Some_0 + 14 * 24 * 60 * 60
                &&& c.kyber_prekey_id >= 1
                &&& v.signed_prekey
                &&& v.signed_prekey_hybrid
                &&& c.one_time_prekey_rejected is Some <==> offer.one_time_prekey is Some
            }
        }),
{
}

/// Every refusal has its own cause, and a cause that stands earlier hides the later ones: the
/// identity first, then whether there is a signed prekey at all, its shape, its Ed25519 signature,
/// its hybrid signature and its age.
pub proof fn every_refusal_has_its_cause(
    offer: OfferView,
    now: u64,
    pinned: Option<Seq<u8>>,
    v: BundleVerdicts,
    e: PqxdhRefusal,
)
    requires
        pqxdh_plan(offer, now, pinned, v) == Err::<ChoiceView, PqxdhRefusal>(e),
    ensures
        e is HybridIdentityMissing <==> !(offer.hybrid_identity_key matches Some(k) && k.len() > 0)
            || !(offer.hybrid_identity_signature matches Some(s) && s.len() > 0),
        e is HybridIdentityBindingInvalid ==> !v.binding,
        e is HybridIdentityChanged ==> v.binding && pinned is Some && pinned->Some_0 != sha256_of(
            offer.hybrid_identity_key->Some_0,
        ),
        e is NoKyberPrekey <==> identity_holds(offer, pinned, v) && offer.signed_prekey is None,
        identity_holds(offer, pinned, v) ==> (offer.signed_prekey matches Some(p) ==> {
            let shaped = p.public.len() == 1568 && 1 <= p.key_id < 1_000_000;
            let signed = p.created_at is Some && (p.signature matches Some(s) && s.len() > 0);
            let doubly = p.hybrid_signature matches Some(s) && s.len() > 0;
            &&& e is KyberPrekeyMalformed <==> !shaped
            &&& e is KyberSignatureMissing <==> shaped && !signed
            &&& e is KyberSignatureInvalid <==> shaped && signed && !v.signed_prekey
            &&& e is HybridSignatureMissing <==> shaped && signed && v.signed_prekey && !doubly
            &&& e is HybridSignatureInvalid <==> shaped && signed && v.signed_prekey && doubly
                && !v.signed_prekey_hybrid
            &&& e is KyberPrekeyStale <==> shaped && signed && v.signed_prekey && doubly
                && v.signed_prekey_hybrid && now > p.created_at->Some_0 + 14 * 24 * 60 * 60
        }),
        identity_holds(offer, pinned, v) || e is HybridIdentityMissing
            || e is HybridIdentityBindingInvalid || e is HybridIdentityChanged,
{
}

/// Both signatures of a chosen prekey were verified over the chosen key and its signed time, the
/// one under the device's identity key and the other under the hybrid key, and the hybrid key was
/// verified to be bound to that identity key.
pub proof fn a_chosen_prekey_was_verified<E: CryptoEngine>(
    engine: &E,
    offer: OfferView,
    now: u64,
    pinned: Option<Seq<u8>>,
    v: BundleVerdicts,
)
    requires
        bundle_verified(engine, offer, v),
        pqxdh_plan(offer, now, pinned, v) is Ok,
    ensures
        ({
            let c = pqxdh_plan(offer, now, pinned, v)->Ok_0;
            let hybrid_key = offer.hybrid_identity_key->Some_0;
            let p = if c.kyber_prekey_id >= 1_000_000 {
                offer.one_time_prekey->Some_0
            } else {
                offer.signed_prekey->Some_0
            };
            let message = kyber_prekey_auth::kyber_sign_message(
                p.created_at->Some_0,
                c.kyber_public,
            );
            &&& engine::said_verify(
                engine,
                offer.verifying_key,
                message,
                p.signature->Some_0,
                true,
            )
            &&& engine::said_verify_hybrid(
                engine,
                hybrid_key,
                message,
                p.hybrid_signature->Some_0,
                true,
            )
            &&& exists|bound: Seq<u8>| #[trigger]
                engine::said_hybrid_bind_message(engine, hybrid_key, bound) && engine::said_verify(
                    engine,
                    offer.verifying_key,
                    bound,
                    offer.hybrid_identity_signature->Some_0,
                    true,
                )
        }),
{
}

} // verus!
