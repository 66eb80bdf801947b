//! Opening a session as INITIATOR, from a fetched bundle — PQXDH v2.
//!
//! The ML-KEM part is mandatory: the Kyber prekey is chosen and checked first, and a bundle that
//! does not yield one is refused before anything is created.

use vstd::prelude::*;

use crate::crypto::client_api::{self, ClientView};
use crate::crypto::engine::{self, CryptoEngine, OpenedView};
use crate::crypto::handshake::{
    BundleView, EncapsulationView, PqxdhInput, PqxdhView, X3DHPublicKeyBundle,
};
use crate::crypto::kyber_prekey_auth::{PqAuthentication, PqHandshake};
use crate::crypto::messaging::double_ratchet::{HeaderView, PrekeyHeader};
use crate::orchestration::clock::{self, to_secs, Clock};
use crate::orchestration::orchestrator::{self, OrchView, Orchestrator};
use crate::orchestration::pq_prekey_plan::{
    self, plan_pqxdh, BundleVerdicts, ChoiceView, KyberPrekeyOffer, OfferView, PqxdhChoice,
    PqxdhContext, PqxdhOffer, PqxdhRefusal, PrekeyOfferView,
};
use crate::orchestration::session_lifecycle::LifeView;
use crate::orchestration::session_machine::{self, Event as SessionEvent};
use crate::str_map;
use crate::strings::{join, join3};
use crate::vecs;
use crate::wire_payload;

verus! {

/// The post-quantum half of a fetched prekey bundle, as the server served it.
#[derive(Debug)]
pub struct KyberBundleKeys {
    /// Kyber signed prekey (ML-KEM-1024), its id, signed creation time, signatures.
    pub pre_key_id: Option<u32>,
    pub pre_key_public: Option<Vec<u8>>,
    pub pre_key_created_at: Option<u64>,
    pub pre_key_signature: Option<Vec<u8>>,
    pub pre_key_hybrid_signature: Option<Vec<u8>>,
    /// Kyber one-time prekey, when the server had one.
    pub one_time_prekey_id: Option<u32>,
    pub one_time_prekey_public: Option<Vec<u8>>,
    pub one_time_prekey_created_at: Option<u64>,
    pub one_time_prekey_signature: Option<Vec<u8>>,
    pub one_time_prekey_hybrid_signature: Option<Vec<u8>>,
    /// Hybrid identity key and its Ed25519 cross-signature by the device's identity key.
    pub hybrid_identity_key: Option<Vec<u8>>,
    pub hybrid_identity_signature: Option<Vec<u8>>,
}

/// A `KyberBundleKeys` by its bytes.
pub struct KyberBundleView {
    pub pre_key_id: Option<u32>,
    pub pre_key_public: Option<Seq<u8>>,
    pub pre_key_created_at: Option<u64>,
    pub pre_key_signature: Option<Seq<u8>>,
    pub pre_key_hybrid_signature: Option<Seq<u8>>,
    pub one_time_prekey_id: Option<u32>,
    pub one_time_prekey_public: Option<Seq<u8>>,
    pub one_time_prekey_created_at: Option<u64>,
    pub one_time_prekey_signature: Option<Seq<u8>>,
    pub one_time_prekey_hybrid_signature: Option<Seq<u8>>,
    pub hybrid_identity_key: Option<Seq<u8>>,
    pub hybrid_identity_signature: Option<Seq<u8>>,
}

impl DeepView for KyberBundleKeys {
    type V = KyberBundleView;

    open spec fn deep_view(&self) -> KyberBundleView {
        KyberBundleView {
            pre_key_id: self.pre_key_id,
            pre_key_public: vecs::opt_bytes(self.pre_key_public),
            pre_key_created_at: self.pre_key_created_at,
            pre_key_signature: vecs::opt_bytes(self.pre_key_signature),
            pre_key_hybrid_signature: vecs::opt_bytes(self.pre_key_hybrid_signature),
            one_time_prekey_id: self.one_time_prekey_id,
            one_time_prekey_public: vecs::opt_bytes(self.one_time_prekey_public),
            one_time_prekey_created_at: self.one_time_prekey_created_at,
            one_time_prekey_signature: vecs::opt_bytes(self.one_time_prekey_signature),
            one_time_prekey_hybrid_signature: vecs::opt_bytes(
                self.one_time_prekey_hybrid_signature,
            ),
            hybrid_identity_key: vecs::opt_bytes(self.hybrid_identity_key),
            hybrid_identity_signature: vecs::opt_bytes(self.hybrid_identity_signature),
        }
    }
}

/// A bundle without a post-quantum half.
pub open spec fn no_kyber_keys() -> KyberBundleView {
    KyberBundleView {
        pre_key_id: None,
        pre_key_public: None,
        pre_key_created_at: None,
        pre_key_signature: None,
        pre_key_hybrid_signature: None,
        one_time_prekey_id: None,
        one_time_prekey_public: None,
        one_time_prekey_created_at: None,
        one_time_prekey_signature: None,
        one_time_prekey_hybrid_signature: None,
        hybrid_identity_key: None,
        hybrid_identity_signature: None,
    }
}

impl Default for KyberBundleKeys {
    fn default() -> (r: Self)
        ensures
            r.deep_view() == no_kyber_keys(),
    {
        KyberBundleKeys {
            pre_key_id: None,
            pre_key_public: None,
            pre_key_created_at: None,
            pre_key_signature: None,
            pre_key_hybrid_signature: None,
            one_time_prekey_id: None,
            one_time_prekey_public: None,
            one_time_prekey_created_at: None,
            one_time_prekey_signature: None,
            one_time_prekey_hybrid_signature: None,
            hybrid_identity_key: None,
            hybrid_identity_signature: None,
        }
    }
}

impl Clone for KyberBundleKeys {
    fn clone(&self) -> (r: Self)
        ensures
            r.deep_view() == self.deep_view(),
    {
        KyberBundleKeys {
            pre_key_id: self.pre_key_id,
            pre_key_public: vecs::clone_opt_bytes(&self.pre_key_public),
            pre_key_created_at: self.pre_key_created_at,
            pre_key_signature: vecs::clone_opt_bytes(&self.pre_key_signature),
            pre_key_hybrid_signature: vecs::clone_opt_bytes(&self.pre_key_hybrid_signature),
            one_time_prekey_id: self.one_time_prekey_id,
            one_time_prekey_public: vecs::clone_opt_bytes(&self.one_time_prekey_public),
            one_time_prekey_created_at: self.one_time_prekey_created_at,
            one_time_prekey_signature: vecs::clone_opt_bytes(&self.one_time_prekey_signature),
            one_time_prekey_hybrid_signature: vecs::clone_opt_bytes(
                &self.one_time_prekey_hybrid_signature,
            ),
            hybrid_identity_key: vecs::clone_opt_bytes(&self.hybrid_identity_key),
            hybrid_identity_signature: vecs::clone_opt_bytes(&self.hybrid_identity_signature),
        }
    }
}

// ── The offer ───────────────────────────────────────────────────────────────

/// One prekey of a bundle as it is judged. Without a key there is no offer.
pub open spec fn offered_prekey(
    id: Option<u32>,
    public: Option<Seq<u8>>,
    created_at: Option<u64>,
    signature: Option<Seq<u8>>,
    hybrid_signature: Option<Seq<u8>>,
) -> Option<PrekeyOfferView> {
    match public {
        Some(p) => if p.len() > 0 {
            Some(
                PrekeyOfferView {
                    key_id: match id {
                        Some(i) => i,
                        None => 0,
                    },
                    public: p,
                    created_at,
                    signature,
                    hybrid_signature,
                },
            )
        } else {
            None
        },
        None => None,
    }
}

/// A bundle as it is judged.
pub open spec fn offered(bundle: BundleView, kyber: KyberBundleView) -> OfferView {
    OfferView {
        verifying_key: bundle.verifying_key,
        hybrid_identity_key: kyber.hybrid_identity_key,
        hybrid_identity_signature: kyber.hybrid_identity_signature,
        signed_prekey: offered_prekey(
            kyber.pre_key_id,
            kyber.pre_key_public,
            kyber.pre_key_created_at,
            kyber.pre_key_signature,
            kyber.pre_key_hybrid_signature,
        ),
        one_time_prekey: offered_prekey(
            kyber.one_time_prekey_id,
            kyber.one_time_prekey_public,
            kyber.one_time_prekey_created_at,
            kyber.one_time_prekey_signature,
            kyber.one_time_prekey_hybrid_signature,
        ),
    }
}

fn slice_of(o: &Option<Vec<u8>>) -> (r: Option<&[u8]>)
    ensures
        wire_payload::opt_slice(r) == vecs::opt_bytes(*o),
{
    match o {
        Some(v) => Some(v.as_slice()),
        None => None,
    }
}

fn offer_prekey<'a>(
    id: Option<u32>,
    public: &'a Option<Vec<u8>>,
    created_at: Option<u64>,
    signature: &'a Option<Vec<u8>>,
    hybrid_signature: &'a Option<Vec<u8>>,
) -> (r: Option<KyberPrekeyOffer<'a>>)
    ensures
        r.deep_view() == offered_prekey(
            id,
            vecs::opt_bytes(*public),
            created_at,
            vecs::opt_bytes(*signature),
            vecs::opt_bytes(*hybrid_signature),
        ),
{
    match public {
        Some(p) => if p.len() > 0 {
            Some(
                KyberPrekeyOffer {
                    key_id: match id {
                        Some(i) => i,
                        None => 0,
                    },
                    public: p.as_slice(),
                    created_at,
                    signature: slice_of(signature),
                    hybrid_signature: slice_of(hybrid_signature),
                },
            )
        } else {
            None
        },
        None => None,
    }
}

/// The one-time prekey of a bundle, 0 when it has none.
pub open spec fn bundle_otpk(bundle: BundleView) -> u32 {
    match bundle.one_time_prekey_id {
        Some(i) => i,
        None => 0,
    }
}

// ── Opening ─────────────────────────────────────────────────────────────────

/// The text of the error for a bundle that does not yield a trusted Kyber prekey.
pub open spec fn pq_required(reason: PqxdhRefusal, contact: Seq<char>) -> Seq<char> {
    "PQ_REQUIRED: "@ + reason.label() + " — no session opened to device "@ + contact
}

/// The text of the error for a failed encapsulation.
pub open spec fn encapsulation_failed(e: Seq<char>) -> Seq<char> {
    "PQXDH_ENCAPSULATION_FAILED: "@ + e
}

/// The state with the session just opened labelled: the hybrid identity that authenticated it is
/// pinned, and the first flight carries the KEM ciphertext.
pub open spec fn labelled(
    o: OrchView,
    contact: Seq<char>,
    one_time_prekey_id: u32,
    choice: ChoiceView,
    kem_ciphertext: Seq<u8>,
) -> OrchView {
    let header = HeaderView {
        one_time_prekey_id,
        kyber_prekey_id: choice.kyber_prekey_id,
        kem_ciphertext,
    };
    let marked = client_api::marked_v2(o.life.client, contact, PqAuthentication::Authenticated);
    OrchView {
        life: LifeView {
            pins: o.life.pins.insert(contact, choice.hybrid_identity_fingerprint),
            client: client_api::header_set(marked, contact, header),
            ..o.life
        },
        ..o
    }
}

/// What the engine's answer to opening a session leads to.
pub open spec fn initiated(
    o: OrchView,
    contact: Seq<char>,
    one_time_prekey_id: u32,
    choice: ChoiceView,
    kem_ciphertext: Seq<u8>,
    opened: Result<OpenedView, Seq<char>>,
) -> (OrchView, Result<Seq<char>, Seq<char>>) {
    let (client, r) = client_api::open_step(o.life.client, contact, opened);
    match r {
        Err(e) => (o, Err(e)),
        Ok(_) => (
            labelled(
                OrchView { life: LifeView { client, ..o.life }, ..o },
                contact,
                one_time_prekey_id,
                choice,
                kem_ciphertext,
            ),
            Ok(contact),
        ),
    }
}

/// The KEM part of a handshake to the chosen prekey.
pub open spec fn kem_input(choice: ChoiceView, k: EncapsulationView) -> PqxdhView {
    PqxdhView {
        shared_secret: k.shared_secret,
        kyber_public: choice.kyber_public,
        kem_ciphertext: k.ciphertext,
    }
}

/// The engine encapsulates to `enc` and opens to `opened`: what follows.
pub open spec fn initiator_outcome<E: CryptoEngine>(
    engine: &E,
    o: OrchView,
    contact: Seq<char>,
    bundle: BundleView,
    choice: ChoiceView,
    allow_stale: bool,
    enc: Result<EncapsulationView, Seq<char>>,
    opened: Result<OpenedView, Seq<char>>,
    next: OrchView,
    result: Result<Seq<char>, Seq<char>>,
) -> bool {
    &&& engine::said_encapsulate(engine, choice.kyber_public, enc)
    &&& match enc {
        Err(e) => next == o && result == Err::<Seq<char>, Seq<char>>(encapsulation_failed(e)),
        Ok(k) => {
            &&& engine::said_open_initiator(
                engine,
                o.life.client.keys,
                o.life.client.local_user_id,
                contact,
                bundle,
                bundle_otpk(bundle),
                allow_stale,
                Some(kem_input(choice, k)),
                opened,
            )
            &&& (next, result) == initiated(
                o,
                contact,
                bundle_otpk(bundle),
                choice,
                k.ciphertext,
                opened,
            )
        },
    }
}

/// What opening a session may come to, once its bundle was judged.
pub open spec fn planned_may<E: CryptoEngine>(
    engine: &E,
    o: OrchView,
    contact: Seq<char>,
    bundle: BundleView,
    plan: Result<ChoiceView, PqxdhRefusal>,
    allow_stale: bool,
    next: OrchView,
    result: Result<Seq<char>, Seq<char>>,
) -> bool {
    match plan {
        Err(reason) => next == o && result == Err::<Seq<char>, Seq<char>>(
            pq_required(reason, contact),
        ),
        Ok(choice) => exists|
            enc: Result<EncapsulationView, Seq<char>>,
            opened: Result<OpenedView, Seq<char>>,
        | #[trigger]
            initiator_outcome(
                engine,
                o,
                contact,
                bundle,
                choice,
                allow_stale,
                enc,
                opened,
                next,
                result,
            ),
    }
}

/// What opening a session at `now` may come to.
pub open spec fn initiator_may<E: CryptoEngine>(
    engine: &E,
    o: OrchView,
    contact: Seq<char>,
    bundle: BundleView,
    kyber: KyberBundleView,
    allow_stale: bool,
    now: u64,
    next: OrchView,
    result: Result<Seq<char>, Seq<char>>,
) -> bool {
    exists|v: BundleVerdicts|
        #![trigger pq_prekey_plan::bundle_verified(engine, offered(bundle, kyber), v)]
        pq_prekey_plan::bundle_verified(engine, offered(bundle, kyber), v) && planned_may(
            engine,
            o,
            contact,
            bundle,
            pq_prekey_plan::pqxdh_plan(
                offered(bundle, kyber),
                clock::secs(now),
                str_map::lookup(o.life.pins, contact),
                v,
            ),
            allow_stale,
            next,
            result,
        )
}

// ── Reopening ───────────────────────────────────────────────────────────────

/// The state with the session of one device taken aside.
pub open spec fn set_aside(o: OrchView, contact: Seq<char>) -> OrchView {
    OrchView {
        life: LifeView {
            client: ClientView {
                sessions: o.life.client.sessions.remove(contact),
                ..o.life.client
            },
            ..o.life
        },
        ..o
    }
}

/// The state with what was taken aside put back.
pub open spec fn put_back(o: OrchView, held: OrchView, contact: Seq<char>) -> OrchView {
    match str_map::lookup(held.life.client.sessions, contact) {
        Some(s) => OrchView {
            life: LifeView { client: client_api::with_session(
                o.life.client,
                contact,
                s,
            ), ..o.life },
            ..o
        },
        None => o,
    }
}

/// The state after a reopening came to `result` and left `tried`.
pub open spec fn reopened(
    o: OrchView,
    contact: Seq<char>,
    tried: OrchView,
    result: Result<Seq<char>, Seq<char>>,
    now: u64,
) -> OrchView {
    match result {
        Ok(_) => tried,
        Err(_) => orchestrator::stepped(
            put_back(tried, o, contact),
            contact,
            now,
            SessionEvent::OpenFailed,
        ),
    }
}

/// What reopening a session at `now` may come to.
pub open spec fn reopen_may<E: CryptoEngine>(
    engine: &E,
    o: OrchView,
    contact: Seq<char>,
    bundle: BundleView,
    kyber: KyberBundleView,
    allow_stale: bool,
    now: u64,
    next: OrchView,
    result: Result<Seq<char>, Seq<char>>,
) -> bool {
    exists|tried: OrchView| #[trigger]
        initiator_may(
            engine,
            set_aside(o, contact),
            contact,
            bundle,
            kyber,
            allow_stale,
            now,
            tried,
            result,
        ) && next == reopened(o, contact, tried, result, now)
}

impl<C: Clock, E: CryptoEngine> Orchestrator<C, E> {
    /// Labels the session just opened with this device.
    pub fn label_opened(
        &mut self,
        contact_id: &str,
        one_time_prekey_id: u32,
        choice: &PqxdhChoice,
        kem_ciphertext: Vec<u8>,
    )
        ensures
            final(self)@ == labelled(
                old(self)@,
                contact_id@,
                one_time_prekey_id,
                choice.deep_view(),
                kem_ciphertext@,
            ),
            final(self).lifecycle.client.engine == old(self).lifecycle.client.engine,
            final(self).same_clocks(*old(self)),
    {
        self.lifecycle.pin_hybrid_identity(contact_id, choice.hybrid_identity_fingerprint);
        self.lifecycle.client.mark_pqxdh_v2(contact_id, PqAuthentication::Authenticated);
        self.lifecycle.client.set_prekey_header(
            contact_id,
            PrekeyHeader {
                one_time_prekey_id,
                kyber_prekey_id: choice.kyber_prekey_id,
                kem_ciphertext,
            },
        );
    }

    /// Opens a session to this device with the prekey that was chosen.
    fn open_with_choice(
        &mut self,
        contact_id: &str,
        bundle: &X3DHPublicKeyBundle,
        choice: PqxdhChoice,
        allow_stale: bool,
    ) -> (r: Result<String, String>)
        ensures
            planned_may(
                &old(self).lifecycle.client.engine,
                old(self)@,
                contact_id@,
                bundle.deep_view(),
                Ok(choice.deep_view()),
                allow_stale,
                final(self)@,
                vecs::outcome_text(r),
            ),
            final(self).lifecycle.client.engine == old(self).lifecycle.client.engine,
            final(self).same_clocks(*old(self)),
    {
        let ghost o = self@;
        let ghost e = self.lifecycle.client.engine;
        let ghost b = bundle.deep_view();
        let ghost ch = choice.deep_view();
        let otpk_id: u32 = match bundle.one_time_prekey_id {
            Some(i) => i,
            None => 0,
        };
        let enc = self.lifecycle.client.engine.encapsulate(choice.kyber_public.as_slice());
        let ghost encv = vecs::outcome(enc);
        assert(engine::said_encapsulate(&e, ch.kyber_public, encv));
        let k = match enc {
            Ok(k) => k,
            Err(f) => {
                let r = Err(join("PQXDH_ENCAPSULATION_FAILED: ", f.as_str()));
                assert(initiator_outcome(
                    &e,
                    o,
                    contact_id@,
                    b,
                    ch,
                    allow_stale,
                    encv,
                    Err::<OpenedView, Seq<char>>(Seq::empty()),
                    self@,
                    vecs::outcome_text(r),
                ));
                return r;
            },
        };
        let ghost kv = k.deep_view();
        let ciphertext = vecs::bytes(k.ciphertext.as_slice());
        let pq = Some(
            PqxdhInput {
                shared_secret: k.shared_secret,
                kyber_public: vecs::bytes(choice.kyber_public.as_slice()),
                kem_ciphertext: k.ciphertext,
            },
        );
        assert(pq.deep_view() == Some(kem_input(ch, kv)));
        let opened = self.lifecycle.client.init_session_with_pq(
            contact_id,
            bundle,
            otpk_id,
            allow_stale,
            &pq,
        );
        let ghost reply = choose|reply: Result<OpenedView, Seq<char>>|
            engine::said_open_initiator(
                &e,
                o.life.client.keys,
                o.life.client.local_user_id,
                contact_id@,
                b,
                otpk_id,
                allow_stale,
                pq.deep_view(),
                reply,
            ) && (self.lifecycle.client@, vecs::outcome_text(opened)) == #[trigger] client_api::open_step(
                o.life.client,
                contact_id@,
                reply,
            );
        match opened {
            Err(f) => {
                let r = Err(f);
                assert(self@ =~= o);
                assert(initiator_outcome(
                    &e,
                    o,
                    contact_id@,
                    b,
                    ch,
                    allow_stale,
                    encv,
                    reply,
                    self@,
                    vecs::outcome_text(r),
                ));
                r
            },
            Ok(_) => {
                self.label_opened(contact_id, otpk_id, &choice, ciphertext);
                let r = Ok(contact_id.to_owned());
                assert(initiator_outcome(
                    &e,
                    o,
                    contact_id@,
                    b,
                    ch,
                    allow_stale,
                    encv,
                    reply,
                    self@,
                    vecs::outcome_text(r),
                ));
                r
            },
        }
    }

    /// Judges the bundle of this device at `now`: the prekey to encapsulate to, or why there is
    /// none.
    pub fn judge_bundle_at(
        &self,
        contact_id: &str,
        public_bundle: &X3DHPublicKeyBundle,
        kyber: &KyberBundleKeys,
        now: u64,
    ) -> (r: Result<PqxdhChoice, PqxdhRefusal>)
        ensures
            exists|v: BundleVerdicts|
                #![trigger pq_prekey_plan::bundle_verified(
                    &self.lifecycle.client.engine,
                    offered(public_bundle.deep_view(), kyber.deep_view()),
                    v,
                )]
                pq_prekey_plan::bundle_verified(
                    &self.lifecycle.client.engine,
                    offered(public_bundle.deep_view(), kyber.deep_view()),
                    v,
                ) && match (
                    pq_prekey_plan::pqxdh_plan(
                        offered(public_bundle.deep_view(), kyber.deep_view()),
                        clock::secs(now),
                        str_map::lookup(self@.life.pins, contact_id@),
                        v,
                    ),
                    r,
                ) {
                    (Ok(c), Ok(d)) => d.deep_view() == c,
                    (Err(x), Err(y)) => x == y,
                    _ => false,
                },
    {
        let ghost ov = offered(public_bundle.deep_view(), kyber.deep_view());
        let offer = PqxdhOffer {
            verifying_key: public_bundle.verifying_key.as_slice(),
            hybrid_identity_key: slice_of(&kyber.hybrid_identity_key),
            hybrid_identity_signature: slice_of(&kyber.hybrid_identity_signature),
            signed_prekey: offer_prekey(
                kyber.pre_key_id,
                &kyber.pre_key_public,
                kyber.pre_key_created_at,
                &kyber.pre_key_signature,
                &kyber.pre_key_hybrid_signature,
            ),
            one_time_prekey: offer_prekey(
                kyber.one_time_prekey_id,
                &kyber.one_time_prekey_public,
                kyber.one_time_prekey_created_at,
                &kyber.one_time_prekey_signature,
                &kyber.one_time_prekey_hybrid_signature,
            ),
        };
        assert(offer.deep_view() == ov);
        let pin = self.lifecycle.pinned_hybrid_identity(contact_id);
        proof {
            if let Some(p) = pin {
                assert(p.deep_view() =~= p@);
            }
            assert(pq_prekey_plan::pin_view(pin) == str_map::lookup(self@.life.pins, contact_id@));
        }
        let ctx = PqxdhContext { now: to_secs(now), pinned_hybrid_identity: pin };
        plan_pqxdh(&self.lifecycle.client.engine, &offer, &ctx)
    }

    /// Opens a session to this device from its fetched bundle, at `now`.
    pub fn init_session_with_bundle_at(
        &mut self,
        contact_id: &str,
        public_bundle: X3DHPublicKeyBundle,
        kyber: KyberBundleKeys,
        allow_stale: bool,
        now: u64,
    ) -> (r: Result<String, String>)
        ensures
            initiator_may(
                &old(self).lifecycle.client.engine,
                old(self)@,
                contact_id@,
                public_bundle.deep_view(),
                kyber.deep_view(),
                allow_stale,
                now,
                final(self)@,
                vecs::outcome_text(r),
            ),
            final(self).lifecycle.client.engine == old(self).lifecycle.client.engine,
            final(self).same_clocks(*old(self)),
    {
        let ghost o = self@;
        let ghost e = self.lifecycle.client.engine;
        let ghost ov = offered(public_bundle.deep_view(), kyber.deep_view());
        let plan = self.judge_bundle_at(contact_id, &public_bundle, &kyber, now);
        let ghost v = choose|v: BundleVerdicts|
            #![trigger pq_prekey_plan::bundle_verified(&e, ov, v)]
            pq_prekey_plan::bundle_verified(&e, ov, v) && match (
                pq_prekey_plan::pqxdh_plan(
                    ov,
                    clock::secs(now),
                    str_map::lookup(o.life.pins, contact_id@),
                    v,
                ),
                plan,
            ) {
                (Ok(c), Ok(d)) => d.deep_view() == c,
                (Err(x), Err(y)) => x == y,
                _ => false,
            };
        assert(pq_prekey_plan::bundle_verified(&e, ov, v));
        match plan {
            Err(reason) => {
                let text = join3(
                    "PQ_REQUIRED: ",
                    reason.name(),
                    " — no session opened to device ",
                );
                Err(join(text.as_str(), contact_id))
            },
            Ok(choice) => self.open_with_choice(contact_id, &public_bundle, choice, allow_stale),
        }
    }

    /// Opens a session to this device from its fetched bundle.
    ///
    /// The ML-KEM-1024 secret goes into the session's initial key; the ciphertext and the prekey
    /// ids ride on every message of the first flight until the peer answers.
    pub fn init_session_with_bundle(
        &mut self,
        contact_id: &str,
        public_bundle: X3DHPublicKeyBundle,
        kyber: KyberBundleKeys,
        allow_stale: bool,
    ) -> (r: Result<String, String>)
        ensures
            exists|now: u64| #[trigger]
                old(self).reads(now) && initiator_may(
                    &old(self).lifecycle.client.engine,
                    old(self)@,
                    contact_id@,
                    public_bundle.deep_view(),
                    kyber.deep_view(),
                    allow_stale,
                    now,
                    final(self)@,
                    vecs::outcome_text(r),
                ),
            final(self).lifecycle.client.engine == old(self).lifecycle.client.engine,
            final(self).same_clocks(*old(self)),
    {
        let now: u64 = self.now_ms();
        self.init_session_with_bundle_at(contact_id, public_bundle, kyber, allow_stale, now)
    }

    /// Opens a session to this device at `now`, replacing the one held, but only once the new one
    /// exists.
    pub fn reopen_session_with_bundle_at(
        &mut self,
        contact_id: &str,
        public_bundle: X3DHPublicKeyBundle,
        kyber: KyberBundleKeys,
        allow_stale: bool,
        now: u64,
    ) -> (r: Result<String, String>)
        ensures
            reopen_may(
                &old(self).lifecycle.client.engine,
                old(self)@,
                contact_id@,
                public_bundle.deep_view(),
                kyber.deep_view(),
                allow_stale,
                now,
                final(self)@,
                vecs::outcome_text(r),
            ),
            final(self).lifecycle.client.engine == old(self).lifecycle.client.engine,
            final(self).same_clocks(*old(self)),
    {
        let ghost o = self@;
        let ghost e = self.lifecycle.client.engine;
        let ghost b = public_bundle.deep_view();
        let ghost k = kyber.deep_view();
        let held = self.lifecycle.client.take_session(contact_id);
        assert(self@ =~= set_aside(o, contact_id@));
        let opened = self.init_session_with_bundle_at(
            contact_id,
            public_bundle,
            kyber,
            allow_stale,
            now,
        );
        let ghost tried = self@;
        if opened.is_err() {
            if let Some(session) = held {
                self.lifecycle.client.put_back_session(contact_id, session);
            }
            assert(self@ =~= put_back(tried, o, contact_id@));
            self.reopen_refused_at(contact_id, now);
        }
        assert(initiator_may(
            &e,
            set_aside(o, contact_id@),
            contact_id@,
            b,
            k,
            allow_stale,
            now,
            tried,
            vecs::outcome_text(opened),
        ));
        opened
    }

    /// Opens a session to this device from its fetched bundle, **replacing** the one held, but only
    /// once the new one exists.
    ///
    /// The held session is set aside, the new one is built, and on any error the held one is put
    /// back exactly as it was. On success the old ratchet is dropped.
    pub fn reopen_session_with_bundle(
        &mut self,
        contact_id: &str,
        public_bundle: X3DHPublicKeyBundle,
        kyber: KyberBundleKeys,
        allow_stale: bool,
    ) -> (r: Result<String, String>)
        ensures
            exists|now: u64| #[trigger]
                old(self).reads(now) && reopen_may(
                    &old(self).lifecycle.client.engine,
                    old(self)@,
                    contact_id@,
                    public_bundle.deep_view(),
                    kyber.deep_view(),
                    allow_stale,
                    now,
                    final(self)@,
                    vecs::outcome_text(r),
                ),
            final(self).lifecycle.client.engine == old(self).lifecycle.client.engine,
            final(self).same_clocks(*old(self)),
    {
        let now: u64 = self.now_ms();
        self.reopen_session_with_bundle_at(contact_id, public_bundle, kyber, allow_stale, now)
    }

    /// The machine's half of a refused reopen, at `now`.
    pub fn reopen_refused_at(&mut self, contact_id: &str, now: u64)
        ensures
            final(self)@ == orchestrator::stepped(
                old(self)@,
                contact_id@,
                now,
                SessionEvent::OpenFailed,
            ),
            final(self).lifecycle.client.engine == old(self).lifecycle.client.engine,
            final(self).same_clocks(*old(self)),
    {
        let _ = self.sessions.handle_at(contact_id, SessionEvent::OpenFailed, now);
    }

    /// The machine's half of a refused reopen: the opening it granted ends, gate included.
    /// Idempotent: a device that is not being opened is left as it is.
    pub fn reopen_refused(&mut self, contact_id: &str)
        ensures
            exists|now: u64| #[trigger]
                old(self).reads(now) && final(self)@ == orchestrator::stepped(
                    old(self)@,
                    contact_id@,
                    now,
                    SessionEvent::OpenFailed,
                ),
            final(self).lifecycle.client.engine == old(self).lifecycle.client.engine,
            final(self).same_clocks(*old(self)),
    {
        let now: u64 = self.now_ms();
        self.reopen_refused_at(contact_id, now);
    }
}

// ── Laws ────────────────────────────────────────────────────────────────────

/// A session is refused before anything is created: whatever the reason, nothing has changed.
pub proof fn a_refused_opening_changes_nothing<E: CryptoEngine>(
    engine: &E,
    o: OrchView,
    contact: Seq<char>,
    bundle: BundleView,
    kyber: KyberBundleView,
    allow_stale: bool,
    now: u64,
    next: OrchView,
    result: Result<Seq<char>, Seq<char>>,
)
    requires
        initiator_may(engine, o, contact, bundle, kyber, allow_stale, now, next, result),
        result is Err,
    ensures
        next == o,
{
}

/// A session that opens is post-quantum from its first message: it is labelled so, the first flight
/// carries a KEM ciphertext to the chosen prekey, and the hybrid identity that authenticated the
/// prekey is the one pinned.
pub proof fn an_opened_session_is_post_quantum<E: CryptoEngine>(
    engine: &E,
    o: OrchView,
    contact: Seq<char>,
    bundle: BundleView,
    kyber: KyberBundleView,
    allow_stale: bool,
    now: u64,
    next: OrchView,
    result: Result<Seq<char>, Seq<char>>,
)
    requires
        initiator_may(engine, o, contact, bundle, kyber, allow_stale, now, next, result),
        result is Ok,
    ensures
        next.life.client.sessions.contains_key(contact),
        next.life.client.sessions[contact].pq_handshake == PqHandshake::InitialV2,
        next.life.client.sessions[contact].pq_authentication == PqAuthentication::Authenticated,
        next.life.client.sessions[contact].prekey_header is Some,
        kyber.hybrid_identity_key matches Some(key) && str_map::lookup(
            next.life.pins,
            contact,
        ) == Some(
            pq_prekey_plan::sha256_of(key),
        ),
        str_map::lookup(
            o.life.pins,
            contact,
        ) matches Some(pin) ==> str_map::lookup(next.life.pins, contact) == Some(
            pin,
        ),
{
}

/// A refused reopen keeps the session held, and ends the opening it was granted for: nothing but
/// the phase of the device changes, and no gate stays up behind it.
pub proof fn a_refused_reopen_keeps_the_session_held<E: CryptoEngine>(
    engine: &E,
    o: OrchView,
    contact: Seq<char>,
    bundle: BundleView,
    kyber: KyberBundleView,
    allow_stale: bool,
    now: u64,
    next: OrchView,
    result: Result<Seq<char>, Seq<char>>,
    later: u64,
)
    requires
        reopen_may(engine, o, contact, bundle, kyber, allow_stale, now, next, result),
        result is Err,
    ensures
        next == orchestrator::stepped(o, contact, now, SessionEvent::OpenFailed),
        next.life == o.life,
        !session_machine::gate_up(next.machine, contact, later),
{
    let tried = choose|tried: OrchView| #[trigger]
        initiator_may(
            engine,
            set_aside(o, contact),
            contact,
            bundle,
            kyber,
            allow_stale,
            now,
            tried,
            result,
        ) && next == reopened(o, contact, tried, result, now);
    a_refused_opening_changes_nothing(
        engine,
        set_aside(o, contact),
        contact,
        bundle,
        kyber,
        allow_stale,
        now,
        tried,
        result,
    );
    let back = put_back(tried, o, contact);
    assert(back.life.client.sessions =~= o.life.client.sessions);
    assert(back =~= o);
}

} // verus!
