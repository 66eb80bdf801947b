//! The key material and the session records of this device, as the platform reaches them.

use vstd::prelude::*;

use crate::crypto::client_api::ClientView;
use crate::crypto::engine::{self, CryptoEngine};
use crate::crypto::handshake::{self, build_x3dh_sign_message, X3DHPublicKeyBundle};
use crate::crypto::keys::{
    self, KeyPair, KeysView, OneTimePrekey, OtpkBundle, OtpkBundleView, OtpkView, PairView,
};
use crate::crypto::kyber_prekey_auth::{self, kyber_prekey_sign_message_v2};
use crate::crypto::kyber_prekeys::{
    self, KyberKeyView, KyberPrekey, KyberPrekeyUpload, KyberView, UploadView, KYBER_OTPK_ID_START,
};
use crate::crypto::messaging::double_ratchet::{self, DrHealthSnapshot, HealthView};
use crate::orchestration::clock::{self, to_secs, Clock};
use crate::orchestration::healing_queue::{self, HealDirection, HealView, HealingDecision};
use crate::orchestration::message_router;
use crate::orchestration::orchestrator::opening;
use crate::orchestration::orchestrator::persisting;
use crate::orchestration::orchestrator::{OrchView, Orchestrator};
use crate::orchestration::session_lifecycle::{self, LifeView};
use crate::str_map;
use crate::strings::{self, decimal, join3};
use crate::vecs;

verus! {

/// The text of the error for ids that are used up.
pub const IDS_EXHAUSTED: &'static str = "prekey ids are used up";

/// The text of the error for a hybrid signature without a key.
pub const NO_HYBRID_KEY: &'static str = "hybrid signature key is not set";

/// The low 32 bits of a count.
pub open spec fn low32(n: nat) -> u32 {
    (n % 0x1_0000_0000) as u32
}

fn to_low32(n: usize) -> (r: u32)
    ensures
        r == low32(n as nat),
{
    (n as u64 % 0x1_0000_0000) as u32
}

/// The state with the keys replaced.
pub open spec fn with_keys(o: OrchView, keys: KeysView) -> OrchView {
    OrchView {
        life: LifeView { client: ClientView { keys, ..o.life.client }, ..o.life },
        ..o
    }
}

/// The state with the Kyber prekeys replaced.
pub open spec fn with_kyber(o: OrchView, kyber: KyberView) -> OrchView {
    with_keys(o, KeysView { kyber, ..o.life.client.keys })
}

/// The state with the heals in progress replaced.
pub open spec fn with_healing(
    o: OrchView,
    healing: HealView,
) -> OrchView {
    OrchView { life: LifeView { healing, ..o.life }, ..o }
}

// ── Hybrid signatures ───────────────────────────────────────────────────────

/// The hybrid key is there, or is made as `reply`: what follows.
pub open spec fn hybrid_ensured(o: OrchView, reply: Result<PairView, Seq<char>>) -> (
    OrchView,
    Result<Seq<u8>, Seq<char>>,
) {
    match o.life.client.keys.hybrid {
        Some(pair) => (o, Ok(pair.public)),
        None => match reply {
            Err(e) => (o, Err(e)),
            Ok(pair) => (
                with_keys(o, KeysView { hybrid: Some(pair), ..o.life.client.keys }),
                Ok(pair.public),
            ),
        },
    }
}

/// What a hybrid signature over `message` may come to.
pub open spec fn hybrid_signed<E: CryptoEngine>(
    engine: &E,
    keys: KeysView,
    message: Seq<u8>,
    result: Result<Seq<u8>, Seq<char>>,
) -> bool {
    match keys.hybrid {
        None => result == Err::<Seq<u8>, Seq<char>>(NO_HYBRID_KEY@),
        Some(pair) => engine::said_sign_hybrid(engine, pair.secret, message, result),
    }
}

// ── Kyber prekeys ───────────────────────────────────────────────────────────

/// The engine gives `public`, `signature` and `hybrid` for a prekey: what follows.
pub open spec fn upload_outcome<E: CryptoEngine>(
    engine: &E,
    keys: KeysView,
    key: KyberKeyView,
    public: Result<Seq<u8>, Seq<char>>,
    signature: Result<Seq<u8>, Seq<char>>,
    hybrid: Result<Seq<u8>, Seq<char>>,
    result: Result<UploadView, Seq<char>>,
) -> bool {
    &&& engine::said_kyber_public(engine, key.seed, public)
    &&& match public {
        Err(e) => result == Err::<UploadView, Seq<char>>(e),
        Ok(p) => {
            let message = kyber_prekey_auth::kyber_sign_message(key.created_at, p);
            &&& engine::said_sign(engine, keys.signing.secret, message, signature)
            &&& match signature {
                Err(e) => result == Err::<UploadView, Seq<char>>(e),
                Ok(s) => {
                    &&& hybrid_signed(engine, keys, message, hybrid)
                    &&& result == (match hybrid {
                        Err(e) => Err::<UploadView, Seq<char>>(e),
                        Ok(h) => Ok(
                            UploadView {
                                key_id: key.key_id,
                                public_key: p,
                                created_at: key.created_at,
                                signature: s,
                                hybrid_signature: h,
                            },
                        ),
                    })
                },
            }
        },
    }
}

/// What uploading a prekey may come to: its public half, signed twice over its creation time.
pub open spec fn upload_may<E: CryptoEngine>(
    engine: &E,
    keys: KeysView,
    key: KyberKeyView,
    result: Result<UploadView, Seq<char>>,
) -> bool {
    exists|
        public: Result<Seq<u8>, Seq<char>>,
        signature: Result<Seq<u8>, Seq<char>>,
        hybrid: Result<Seq<u8>, Seq<char>>,
    | #[trigger]
        upload_outcome(engine, keys, key, public, signature, hybrid, result)
}

/// A fresh signed prekey.
pub open spec fn next_spk(k: KyberView, seed: Seq<u8>, now: u64) -> KyberKeyView {
    KyberKeyView { key_id: k.next_spk_id, seed, created_at: clock::secs(now), retired_at: 0 }
}

/// The engine gives the seed `seed` and the upload comes to `upload`: what follows.
pub open spec fn rotation_outcome<E: CryptoEngine>(
    engine: &E,
    o: OrchView,
    now: u64,
    seed: Result<Seq<u8>, Seq<char>>,
    upload: Result<UploadView, Seq<char>>,
    next: OrchView,
    result: Result<UploadView, Seq<char>>,
) -> bool {
    let k = o.life.client.keys.kyber;
    if k.next_spk_id >= KYBER_OTPK_ID_START - 1 {
        next == o && result == Err::<UploadView, Seq<char>>(IDS_EXHAUSTED@)
    } else {
        &&& engine::said_new_kyber_seed(engine, seed)
        &&& match seed {
            Err(e) => next == o && result == Err::<UploadView, Seq<char>>(e),
            Ok(s) => {
                let key = next_spk(k, s, now);
                &&& upload_may(engine, o.life.client.keys, key, upload)
                &&& result == upload
                &&& next == (match upload {
                    Err(_) => o,
                    Ok(_) => with_kyber(
                        o,
                        KyberView {
                            pending: Some(key),
                            next_spk_id: (k.next_spk_id + 1) as u32,
                            ..k
                        },
                    ),
                })
            },
        }
    }
}

/// What beginning a rotation at `now` may come to. A rotation that fails changes nothing.
pub open spec fn rotation_may<E: CryptoEngine>(
    engine: &E,
    o: OrchView,
    now: u64,
    next: OrchView,
    result: Result<UploadView, Seq<char>>,
) -> bool {
    exists|seed: Result<Seq<u8>, Seq<char>>, upload: Result<UploadView, Seq<char>>| #[trigger]
        rotation_outcome(engine, o, now, seed, upload, next, result)
}

/// Seeds the engine gave, each fresh.
pub open spec fn are_seeds<E: CryptoEngine>(engine: &E, seeds: Seq<Seq<u8>>) -> bool {
    forall|i: int| 0 <= i < seeds.len() ==> engine::said_new_kyber_seed(
        engine,
        Ok(#[trigger] seeds[i]),
    )
}

/// Uploads of the prekeys, each in its place.
pub open spec fn are_uploads<E: CryptoEngine>(
    engine: &E,
    keys: KeysView,
    ks: Seq<KyberKeyView>,
    us: Seq<UploadView>,
) -> bool {
    us.len() == ks.len() && forall|i: int|
        0 <= i < us.len() ==> upload_may(engine, keys, ks[i], Ok(#[trigger] us[i]))
}

/// The one-time Kyber prekey numbered `id`.
pub open spec fn otpk_numbered(id: u32, seed: Seq<u8>, now: u64) -> KyberKeyView {
    KyberKeyView { key_id: id, seed, created_at: clock::secs(now), retired_at: 0 }
}

/// Making the one-time Kyber prekey numbered `id` may fail with `e`: the engine gave no seed, or
/// the key of the seed it gave could not be uploaded.
pub open spec fn otpk_fails<E: CryptoEngine>(
    engine: &E,
    keys: KeysView,
    id: u32,
    now: u64,
    e: Seq<char>,
) -> bool {
    ||| engine::said_new_kyber_seed(engine, Err(e))
    ||| exists|seed: Seq<u8>| #[trigger]
        engine::said_new_kyber_seed(engine, Ok(seed)) && upload_may(
            engine,
            keys,
            otpk_numbered(id, seed, now),
            Err(e),
        )
}

/// The first one-time Kyber prekeys were made from `seeds` and uploaded as `us`.
pub open spec fn otpks_made<E: CryptoEngine>(
    engine: &E,
    keys: KeysView,
    now: u64,
    seeds: Seq<Seq<u8>>,
    us: Seq<UploadView>,
) -> bool {
    &&& are_seeds(engine, seeds)
    &&& are_uploads(
        engine,
        keys,
        kyber_prekeys::numbered(seeds, keys.kyber.next_otpk_id, clock::secs(now)),
        us,
    )
}

/// What making `count` one-time Kyber prekeys at `now` may come to. All are made, or none.
pub open spec fn kyber_otpks_may<E: CryptoEngine>(
    engine: &E,
    o: OrchView,
    count: u32,
    now: u64,
    next: OrchView,
    result: Result<Seq<UploadView>, Seq<char>>,
) -> bool {
    let k = o.life.client.keys.kyber;
    match result {
        Ok(us) => exists|seeds: Seq<Seq<u8>>|
            {
                &&& #[trigger] are_seeds(engine, seeds)
                &&& seeds.len() == count
                &&& are_uploads(
                    engine,
                    o.life.client.keys,
                    kyber_prekeys::numbered(seeds, k.next_otpk_id, clock::secs(now)),
                    us,
                )
                &&& count <= u32::MAX - k.next_otpk_id
                &&& next == with_kyber(
                    o,
                    KyberView {
                        otpks: k.otpks + kyber_prekeys::numbered(
                            seeds,
                            k.next_otpk_id,
                            clock::secs(now),
                        ),
                        next_otpk_id: (k.next_otpk_id + count) as u32,
                        ..k
                    },
                )
            },
        Err(e) => {
            &&& next == o
            &&& if count > u32::MAX - k.next_otpk_id {
                e == IDS_EXHAUSTED@
            } else {
                exists|seeds: Seq<Seq<u8>>, us: Seq<UploadView>| #[trigger]
                    otpks_made(engine, o.life.client.keys, now, seeds, us) && seeds.len() < count
                        && otpk_fails(
                        engine,
                        o.life.client.keys,
                        (k.next_otpk_id + seeds.len()) as u32,
                        now,
                        e,
                    )
            }
        },
    }
}

// ── X25519 prekeys ──────────────────────────────────────────────────────────

/// Key pairs the engine gave, each fresh.
pub open spec fn are_pairs<E: CryptoEngine>(engine: &E, pairs: Seq<PairView>) -> bool {
    forall|i: int| 0 <= i < pairs.len() ==> engine::said_new_kem_pair(
        engine,
        Ok(#[trigger] pairs[i]),
    )
}

/// What making `count` one-time prekeys may come to. All are made, or none.
pub open spec fn otpks_may<E: CryptoEngine>(
    engine: &E,
    o: OrchView,
    count: u32,
    next: OrchView,
    result: Result<Seq<(u32, Seq<u8>)>, Seq<char>>,
) -> bool {
    let keys = o.life.client.keys;
    match result {
        Ok(us) => exists|pairs: Seq<PairView>|
            {
                &&& #[trigger] are_pairs(engine, pairs)
                &&& pairs.len() == count
                &&& count <= u32::MAX - keys.next_otpk_id
                &&& next == with_keys(o, keys::otpks_added(keys, pairs))
                &&& us == keys::otpks_added(
                    keys,
                    pairs,
                ).otpks.skip(keys.otpks.len() as int).map_values(
                    |x: OtpkView| (x.key_id, x.public_key),
                )
            },
        Err(e) => {
            &&& next == o
            &&& if count > u32::MAX - keys.next_otpk_id {
                e == IDS_EXHAUSTED@
            } else {
                engine::said_new_kem_pair(engine, Err(e))
            }
        },
    }
}

/// The engine gives `pair` and `signature`: what a rotation of the signed prekey leads to.
pub open spec fn spk_outcome<E: CryptoEngine>(
    engine: &E,
    o: OrchView,
    pair: Result<PairView, Seq<char>>,
    signature: Result<Seq<u8>, Seq<char>>,
    next: OrchView,
    result: Result<(u32, Seq<u8>, Seq<u8>), Seq<char>>,
) -> bool {
    let keys = o.life.client.keys;
    &&& engine::said_new_kem_pair(engine, pair)
    &&& match pair {
        Err(e) => next == o && result == Err::<(u32, Seq<u8>, Seq<u8>), Seq<char>>(e),
        Ok(p) => {
            &&& engine::said_sign(
                engine,
                keys.signing.secret,
                handshake::prologue(1) + p.public,
                signature,
            )
            &&& match signature {
                Err(e) => next == o && result == Err::<(u32, Seq<u8>, Seq<u8>), Seq<char>>(e),
                Ok(s) => if keys.signed_prekey.key_id < u32::MAX {
                    &&& next == with_keys(o, keys::spk_rotated(keys, p, s))
                    &&& result == Ok::<(u32, Seq<u8>, Seq<u8>), Seq<char>>(
                        ((keys.signed_prekey.key_id + 1) as u32, p.public, s),
                    )
                } else {
                    next == o && result == Err::<(u32, Seq<u8>, Seq<u8>), Seq<char>>(
                        IDS_EXHAUSTED@,
                    )
                },
            }
        },
    }
}

/// What rotating the signed prekey may come to.
pub open spec fn spk_may<E: CryptoEngine>(
    engine: &E,
    o: OrchView,
    next: OrchView,
    result: Result<(u32, Seq<u8>, Seq<u8>), Seq<char>>,
) -> bool {
    exists|pair: Result<PairView, Seq<char>>, signature: Result<Seq<u8>, Seq<char>>| #[trigger]
        spk_outcome(engine, o, pair, signature, next, result)
}

/// A rotated signed prekey by its bytes.
pub open spec fn spk_view(r: Result<(u32, Vec<u8>, Vec<u8>), String>) -> Result<
    (u32, Seq<u8>, Seq<u8>),
    Seq<char>,
> {
    match r {
        Ok(t) => Ok((t.0, t.1@, t.2@)),
        Err(e) => Err(e@),
    }
}

/// What decapsulating with a prekey of this device may come to.
pub open spec fn decapsulated_may<E: CryptoEngine>(
    engine: &E,
    k: KyberView,
    key_id: u32,
    ciphertext: Seq<u8>,
    result: Result<Seq<u8>, Seq<char>>,
) -> bool {
    match kyber_prekeys::kyber_find(k, key_id) {
        None => result == Err::<Seq<u8>, Seq<char>>(
            "Kyber prekey "@ + strings::decimal_chars(key_id as nat) + " is not held"@,
        ),
        Some(key) => engine::said_decapsulate(engine, key.seed, ciphertext, result),
    }
}

impl<C: Clock, E: CryptoEngine> Orchestrator<C, E> {
    // ── Sessions ────────────────────────────────────────────────────────────

    /// Every device a session is held with.
    pub fn get_all_session_contact_ids(&self) -> (r: Vec<String>)
        ensures
            str_map::names_keys(r.deep_view(), self@.life.client.sessions),
    {
        self.lifecycle.client.active_contacts()
    }

    /// The suite of the session with this device; 0 if there is none.
    pub fn get_session_suite_id(&self, contact_id: &str) -> (r: u16)
        ensures
            r == (match str_map::lookup(self@.life.client.sessions, contact_id@) {
                Some(s) => s.suite_id,
                None => 0,
            }),
    {
        match self.lifecycle.client.get_session(contact_id) {
            Some(s) => s.suite_id,
            None => 0,
        }
    }

    /// A health snapshot of the session with this device.
    pub fn get_session_health(&self, contact_id: &str) -> (r: Option<DrHealthSnapshot>)
        ensures
            r.deep_view() == (match str_map::lookup(self@.life.client.sessions, contact_id@) {
                Some(s) => Some(double_ratchet::health_of(s)),
                None => None::<HealthView>,
            }),
    {
        self.lifecycle.client.get_session_health(contact_id)
    }

    /// Drops the session with this device; whether there was one.
    pub fn remove_session_by_contact(&mut self, contact_id: &str) -> (r: bool)
        ensures
            r == old(self)@.life.client.sessions.contains_key(contact_id@),
            final(self)@ == opening::set_aside(
                old(self)@,
                contact_id@,
            ),
            final(self).lifecycle.client.engine == old(self).lifecycle.client.engine,
            final(self).same_clocks(*old(self)),
    {
        self.lifecycle.client.remove_session(contact_id)
    }

    /// The session with this device as a binary record.
    pub fn export_session_cfe(&self, contact_id: &str) -> (r: Result<Vec<u8>, String>)
        ensures
            session_lifecycle::exported(
                &self.lifecycle.client.engine,
                self@.life,
                contact_id@,
                vecs::outcome_bytes(r),
            ),
    {
        self.lifecycle.export_session_bytes_for(contact_id)
    }

    /// Files the session of a binary record under this device; its session id. No other form of
    /// record is taken.
    pub fn import_session_cfe(&mut self, contact_id: &str, data: &[u8]) -> (r: Result<
        String,
        String,
    >)
        ensures
            exists|l2: LifeView, imported: Result<(), Seq<char>>|
                {
                    &&& #[trigger] session_lifecycle::import_binary_may(
                        &old(self).lifecycle.client.engine,
                        old(self)@.life,
                        contact_id@,
                        data@,
                        l2,
                        imported,
                    )
                    &&& final(self)@ == (OrchView { life: l2, ..old(self)@ })
                    &&& match imported {
                        Err(e) => vecs::outcome_text(r) == Err::<Seq<char>, Seq<char>>(e),
                        Ok(_) => r matches Ok(id) && session_lifecycle::session_id_of(
                            l2,
                            contact_id@,
                        ) == Some(id@),
                    }
                },
            final(self).lifecycle.client.engine == old(self).lifecycle.client.engine,
            final(self).same_clocks(*old(self)),
    {
        let ghost o = self@;
        let ghost e = self.lifecycle.client.engine;
        let imported = self.lifecycle.import_session_binary(contact_id, data);
        let ghost iv = vecs::outcome_unit(imported);
        assert(session_lifecycle::import_binary_may(
            &e,
            o.life,
            contact_id@,
            data@,
            self@.life,
            iv,
        ));
        match imported {
            Err(f) => Err(f),
            Ok(_) => match self.lifecycle.active_session_id(contact_id) {
                Some(id) => Ok(id),
                None => Err(String::new()),
            },
        }
    }

    // ── What waits, and heals ───────────────────────────────────────────────

    /// The payload of the first message of this device that waits, left where it is.
    pub fn peek_first_pending_wire_payload(&self, contact_id: &str) -> (r: Option<Vec<u8>>)
        ensures
            vecs::opt_bytes(r) == (if message_router::waiting(self@.router, contact_id@).len() > 0 {
                Some(message_router::waiting(self@.router, contact_id@)[0].wire_payload)
            } else {
                None
            }),
    {
        self.router.peek_first_pending_wire_payload(contact_id)
    }

    /// Drops the first message of this device that waits; its id.
    pub fn pop_first_pending(&mut self, contact_id: &str) -> (r: Option<String>)
        ensures
            ({
                let q = message_router::waiting(old(self)@.router, contact_id@);
                let rest = if q.len() > 0 {
                    q.skip(1)
                } else {
                    q
                };
                &&& r.deep_view() == (if q.len() > 0 {
                    Some(q[0].message_id)
                } else {
                    None
                })
                &&& final(self)@ == (OrchView {
                    router: message_router::with_queue(old(self)@.router, contact_id@, rest),
                    ..old(self)@
                })
            }),
            final(self).lifecycle.client.engine == old(self).lifecycle.client.engine,
            final(self).same_clocks(*old(self)),
    {
        proof {
            let q = message_router::waiting(self@.router, contact_id@);
            if q.len() == 0 {
                assert(q =~= Seq::empty());
            }
        }
        self.router.pop_first_pending(contact_id)
    }

    /// The payload the heal of this device starts from.
    pub fn take_heal_payload(&self, contact_id: &str) -> (r: Option<Vec<u8>>)
        ensures
            vecs::opt_bytes(r) == (match str_map::lookup(self@.life.healing.records, contact_id@) {
                Some(h) => Some(h.payload),
                None => None,
            }),
    {
        match self.lifecycle.healing_queue.get(contact_id) {
            Some(h) => Some(vecs::bytes(h.message_payload.as_slice())),
            None => None,
        }
    }

    /// Stores a failed payload for later retry; the first failure wins.
    pub fn enqueue_heal(&mut self, contact_id: &str, payload: Vec<u8>)
        ensures
            exists|now: u64| #[trigger]
                old(self).reads(now) && final(self)@ == with_healing(
                    old(self)@,
                    healing_queue::heal_enqueue(
                        old(self)@.life.healing,
                        contact_id@,
                        payload@,
                        HealDirection::Incoming,
                        now,
                    ),
                ),
            final(self).lifecycle.client.engine == old(self).lifecycle.client.engine,
            final(self).same_clocks(*old(self)),
    {
        let ghost h = self@.life.healing;
        let now: u64 = self.now_ms();
        self.lifecycle.healing_queue.enqueue_at(contact_id, payload, HealDirection::Incoming, now);
        assert(self@.life.healing == healing_queue::heal_enqueue(
            h,
            contact_id@,
            payload@,
            HealDirection::Incoming,
            now,
        ));
    }

    /// Counts one heal attempt and says whether it may be made.
    pub fn record_heal_attempt(&mut self, contact_id: &str) -> (r: HealingDecision)
        ensures
            r == healing_queue::heal_attempt(old(self)@.life.healing, contact_id@).1,
            final(self)@ == with_healing(
                old(self)@,
                healing_queue::heal_attempt(old(self)@.life.healing, contact_id@).0,
            ),
            final(self).lifecycle.client.engine == old(self).lifecycle.client.engine,
            final(self).same_clocks(*old(self)),
    {
        self.lifecycle.healing_queue.record_attempt(contact_id)
    }

    /// Removes the heal of this device.
    pub fn clear_heal_record(&mut self, contact_id: &str)
        ensures
            final(self)@ == with_healing(
                old(self)@,
                healing_queue::heal_remove(old(self)@.life.healing, contact_id@),
            ),
            final(self).lifecycle.client.engine == old(self).lifecycle.client.engine,
            final(self).same_clocks(*old(self)),
    {
        self.lifecycle.healing_queue.remove(contact_id);
    }

    // ── Identity ────────────────────────────────────────────────────────────

    /// What this device publishes.
    pub fn get_registration_bundle_fields(&self) -> (r: Result<X3DHPublicKeyBundle, String>)
        ensures
            r matches Ok(b) && b.deep_view() == keys::bundle_of(self@.life.client.keys),
    {
        Ok(self.lifecycle.client.keys.export_registration_bundle())
    }

    /// What this device publishes, as a binary record.
    pub fn export_registration_bundle_cfe(&self) -> (r: Result<Vec<u8>, String>)
        ensures
            engine::said_encode_registration_bundle(
                &self.lifecycle.client.engine,
                keys::bundle_of(self@.life.client.keys),
                vecs::outcome_bytes(r),
            ),
    {
        let bundle = self.lifecycle.client.keys.export_registration_bundle();
        self.lifecycle.client.engine.encode_registration_bundle(&bundle)
    }

    /// Signs with the signing key of this device.
    pub fn sign_bundle_bytes(&self, data: &[u8]) -> (r: Result<Vec<u8>, String>)
        ensures
            engine::said_sign(
                &self.lifecycle.client.engine,
                self@.life.client.keys.signing.secret,
                data@,
                vecs::outcome_bytes(r),
            ),
    {
        self.lifecycle.client.engine.sign(
            self.lifecycle.client.keys.signing.secret.as_slice(),
            data,
        )
    }

    /// The Ed25519 signing secret.
    pub fn get_signing_key_bytes(&self) -> (r: Result<Vec<u8>, String>)
        ensures
            r matches Ok(k) && k@ == self@.life.client.keys.signing.secret,
    {
        Ok(vecs::bytes(self.lifecycle.client.keys.signing.secret.as_slice()))
    }

    /// The X25519 identity secret.
    pub fn get_identity_key_bytes(&self) -> (r: Result<Vec<u8>, String>)
        ensures
            r matches Ok(k) && k@ == self@.life.client.keys.identity.secret,
    {
        Ok(vecs::bytes(self.lifecycle.client.keys.identity.secret.as_slice()))
    }

    /// The X25519 identity key.
    pub fn identity_public_key_bytes(&self) -> (r: Result<Vec<u8>, String>)
        ensures
            r matches Ok(k) && k@ == self@.life.client.keys.identity.public,
    {
        Ok(vecs::bytes(self.lifecycle.client.keys.identity.public.as_slice()))
    }

    /// The private keys as a binary record.
    pub fn export_private_keys_cfe(&self) -> (r: Result<Vec<u8>, String>)
        ensures
            engine::said_encode_private_keys(
                &self.lifecycle.client.engine,
                self@.life.client.keys,
                vecs::outcome_bytes(r),
            ),
    {
        self.lifecycle.client.engine.encode_private_keys(&self.lifecycle.client.keys)
    }

    // ── Hybrid signatures ───────────────────────────────────────────────────

    /// Makes the hybrid signature key if there is none; its public half.
    pub fn ensure_hybrid_signature_key(&mut self) -> (r: Result<Vec<u8>, String>)
        ensures
            exists|reply: Result<PairView, Seq<char>>|
                (old(self)@.life.client.keys.hybrid is None ==> engine::said_new_hybrid_pair(
                    &old(self).lifecycle.client.engine,
                    reply,
                )) && (final(self)@, vecs::outcome_bytes(r)) == #[trigger] hybrid_ensured(
                    old(self)@,
                    reply,
                ),
            final(self).lifecycle.client.engine == old(self).lifecycle.client.engine,
            final(self).same_clocks(*old(self)),
    {
        let ghost o = self@;
        if let Some(pair) = &self.lifecycle.client.keys.hybrid {
            let r = Ok(vecs::bytes(pair.public.as_slice()));
            assert((self@, vecs::outcome_bytes(r)) == hybrid_ensured(
                o,
                Err::<PairView, Seq<char>>(Seq::empty()),
            ));
            return r;
        }
        let made = self.lifecycle.client.engine.new_hybrid_pair();
        let ghost reply = vecs::outcome(made);
        let ghost step = hybrid_ensured(o, reply);
        assert(engine::said_new_hybrid_pair(&self.lifecycle.client.engine, reply));
        match made {
            Err(e) => Err(e),
            Ok(pair) => {
                let public = vecs::bytes(pair.public.as_slice());
                self.lifecycle.client.keys.hybrid = Some(pair);
                assert(self@ =~= step.0);
                Ok(public)
            },
        }
    }

    /// The public half of the hybrid signature key.
    pub fn hybrid_signature_public_key(&self) -> (r: Option<Vec<u8>>)
        ensures
            vecs::opt_bytes(r) == (match self@.life.client.keys.hybrid {
                Some(p) => Some(p.public),
                None => None,
            }),
    {
        match &self.lifecycle.client.keys.hybrid {
            Some(p) => Some(vecs::bytes(p.public.as_slice())),
            None => None,
        }
    }

    /// Signs with the hybrid signature key.
    pub fn sign_hybrid(&self, message: &[u8]) -> (r: Result<Vec<u8>, String>)
        ensures
            hybrid_signed(
                &self.lifecycle.client.engine,
                self@.life.client.keys,
                message@,
                vecs::outcome_bytes(r),
            ),
    {
        match &self.lifecycle.client.keys.hybrid {
            None => Err(NO_HYBRID_KEY.to_owned()),
            Some(p) => self.lifecycle.client.engine.sign_hybrid(p.secret.as_slice(), message),
        }
    }

    /// The message a signature over a prekey is made on.
    pub fn build_x3dh_sign_message(suite_id: u8, public_key: &[u8]) -> (r: Vec<u8>)
        ensures
            r@ == handshake::prologue(suite_id as u16) + public_key@,
    {
        build_x3dh_sign_message(suite_id, public_key)
    }

    /// The message that binds a hybrid identity key to the identity of this device.
    pub fn build_hybrid_identity_bind_message(&self, hybrid_public: &[u8]) -> (r: Vec<u8>)
        ensures
            engine::said_hybrid_bind_message(&self.lifecycle.client.engine, hybrid_public@, r@),
    {
        self.lifecycle.client.engine.hybrid_bind_message(hybrid_public)
    }

    /// Makes the hybrid signature key if there is none, and signs a prekey with it.
    pub fn sign_hybrid_prekey(&mut self, suite_id: u8, public_key: &[u8]) -> (r: Result<
        Vec<u8>,
        String,
    >)
        ensures
            exists|reply: Result<PairView, Seq<char>>|
                #![trigger hybrid_ensured(old(self)@, reply)]
                {
                    let (next, ensured) = hybrid_ensured(old(self)@, reply);
                    &&& old(self)@.life.client.keys.hybrid is None ==> engine::said_new_hybrid_pair(
                        &old(self).lifecycle.client.engine,
                        reply,
                    )
                    &&& final(self)@ == next
                    &&& match ensured {
                        Err(e) => vecs::outcome_bytes(r) == Err::<Seq<u8>, Seq<char>>(e),
                        Ok(_) => hybrid_signed(
                            &old(self).lifecycle.client.engine,
                            next.life.client.keys,
                            handshake::prologue(suite_id as u16) + public_key@,
                            vecs::outcome_bytes(r),
                        ),
                    }
                },
            final(self).lifecycle.client.engine == old(self).lifecycle.client.engine,
            final(self).same_clocks(*old(self)),
    {
        let ghost o = self@;
        let ensured = self.ensure_hybrid_signature_key();
        let ghost reply = choose|reply: Result<PairView, Seq<char>>|
            (o.life.client.keys.hybrid is None ==> engine::said_new_hybrid_pair(
                &self.lifecycle.client.engine,
                reply,
            )) && (self@, vecs::outcome_bytes(ensured)) == #[trigger] hybrid_ensured(o, reply);
        match ensured {
            Err(e) => Err(e),
            Ok(_) => {
                let message = build_x3dh_sign_message(suite_id, public_key);
                self.sign_hybrid(message.as_slice())
            },
        }
    }

    /// Takes over an existing hybrid signature key.
    pub fn import_hybrid_signature_private_key(&mut self, priv_bytes: Vec<u8>) -> (r: Result<
        (),
        String,
    >)
        ensures
            exists|public: Result<Seq<u8>, Seq<char>>| #[trigger]
                engine::said_hybrid_public(&old(self).lifecycle.client.engine, priv_bytes@, public)
                    && match public {
                    Err(e) => final(self)@ == old(self)@ && vecs::outcome_unit(r) == Err::<
                        (),
                        Seq<char>,
                    >(e),
                    Ok(p) => r is Ok && final(self)@ == with_keys(
                        old(self)@,
                        KeysView {
                            hybrid: Some(PairView { secret: priv_bytes@, public: p }),
                            ..old(self)@.life.client.keys
                        },
                    ),
                },
            final(self).lifecycle.client.engine == old(self).lifecycle.client.engine,
            final(self).same_clocks(*old(self)),
    {
        let public = self.lifecycle.client.engine.hybrid_public(priv_bytes.as_slice());
        let ghost pv = vecs::outcome_bytes(public);
        assert(engine::said_hybrid_public(&self.lifecycle.client.engine, priv_bytes@, pv));
        match public {
            Err(e) => Err(e),
            Ok(p) => {
                self.lifecycle.client.keys.hybrid = Some(
                    KeyPair { secret: priv_bytes, public: p },
                );
                Ok(())
            },
        }
    }

    // ── X25519 prekeys ──────────────────────────────────────────────────────

    /// How many signed prekeys still open sessions.
    pub fn prekeys_available(&self) -> (r: u32)
        ensures
            r == low32((self@.life.client.keys.old_prekeys.len() + 1) as nat),
    {
        let n: u64 = self.lifecycle.client.keys.old_prekeys.len() as u64 % 0x1_0000_0000;
        ((n + 1) % 0x1_0000_0000) as u32
    }

    /// Makes `count` one-time prekeys; their ids and public halves.
    pub fn generate_otpks(&mut self, count: u32) -> (r: Result<Vec<(u32, Vec<u8>)>, String>)
        ensures
            otpks_may(
                &old(self).lifecycle.client.engine,
                old(self)@,
                count,
                final(self)@,
                vecs::outcome(r),
            ),
            final(self).lifecycle.client.engine == old(self).lifecycle.client.engine,
            final(self).same_clocks(*old(self)),
    {
        let ghost o = self@;
        let ghost engine = self.lifecycle.client.engine;
        if count > u32::MAX - self.lifecycle.client.keys.next_otpk_id {
            return Err(IDS_EXHAUSTED.to_owned());
        }
        let mut pairs: Vec<KeyPair> = vecs::none();
        let mut i: u32 = 0;
        while i < count
            invariant
                i <= count,
                self@ == o,
                engine == self.lifecycle.client.engine,
                engine == old(self).lifecycle.client.engine,
                self.same_clocks(*old(self)),
                o == old(self)@,
                count <= u32::MAX - o.life.client.keys.next_otpk_id,
                pairs.deep_view().len() == i,
                are_pairs(&engine, pairs.deep_view()),
            decreases count - i,
        {
            let ghost before = pairs.deep_view();
            let made = self.lifecycle.client.engine.new_kem_pair();
            let ghost reply = vecs::outcome(made);
            assert(engine::said_new_kem_pair(&engine, reply));
            match made {
                Ok(pair) => {
                    vecs::push(&mut pairs, pair);
                    assert forall|j: int| 0 <= j < pairs.deep_view().len() implies engine::said_new_kem_pair(
                        &engine,
                        Ok(#[trigger] pairs.deep_view()[j]),
                    ) by {
                        if j < before.len() {
                            assert(pairs.deep_view()[j] == before[j]);
                        }
                    }
                },
                Err(e) => {
                    return Err(e);
                },
            }
            i = i + 1;
        }
        let ghost pv = pairs.deep_view();
        let from = self.lifecycle.client.keys.otpks.len();
        let _ = self.lifecycle.client.keys.add_otpks(pairs);
        assert(are_pairs(&engine, pv));
        Ok(self.lifecycle.client.keys.otpk_uploads(from))
    }

    /// How many one-time prekeys are left.
    pub fn otpk_count(&self) -> (r: u32)
        ensures
            r == low32(self@.life.client.keys.otpks.len()),
    {
        to_low32(self.lifecycle.client.keys.otpks.len())
    }

    /// Drops the one-time prekeys numbered below `min_keep_id`; how many.
    pub fn prune_otpks_below(&mut self, min_keep_id: u32) -> (r: u32)
        ensures
            ({
                let keys = old(self)@.life.client.keys;
                let kept = keys::otpks_from(keys.otpks, min_keep_id);
                &&& final(self)@ == with_keys(old(self)@, KeysView { otpks: kept, ..keys })
                &&& r == low32((keys.otpks.len() - kept.len()) as nat)
            }),
            final(self).lifecycle.client.engine == old(self).lifecycle.client.engine,
            final(self).same_clocks(*old(self)),
    {
        let n = self.lifecycle.client.keys.prune_otpks_below(min_keep_id);
        to_low32(n)
    }

    /// Every one-time prekey.
    pub fn export_otpks(&self) -> (r: Vec<OneTimePrekey>)
        ensures
            r.deep_view() == self@.life.client.keys.otpks,
    {
        self.lifecycle.client.keys.export_otpks()
    }

    /// Replaces the one-time prekeys.
    pub fn import_otpks(&mut self, records: Vec<OneTimePrekey>)
        ensures
            final(self)@ == with_keys(
                old(self)@,
                KeysView { otpks: records.deep_view(), ..old(self)@.life.client.keys },
            ),
            final(self).lifecycle.client.engine == old(self).lifecycle.client.engine,
            final(self).same_clocks(*old(self)),
    {
        self.lifecycle.client.keys.import_otpks(records);
    }

    /// The one-time prekeys, and the id of the next, as a binary record.
    pub fn export_otpks_cfe(&self) -> (r: Result<Vec<u8>, String>)
        ensures
            engine::said_encode_otpks(
                &self.lifecycle.client.engine,
                (OtpkBundleView {
                    records: self@.life.client.keys.otpks,
                    next_id: self@.life.client.keys.next_otpk_id,
                }),
                vecs::outcome_bytes(r),
            ),
    {
        let bundle = OtpkBundle {
            records: self.lifecycle.client.keys.export_otpks(),
            next_id: self.lifecycle.client.keys.next_otpk_id,
        };
        self.lifecycle.client.engine.encode_otpks(&bundle)
    }

    /// Replaces the one-time prekeys, and the id of the next, by those of a binary record.
    pub fn import_otpks_cfe(&mut self, data: &[u8]) -> (r: Result<(), String>)
        ensures
            exists|d: Result<OtpkBundleView, Seq<char>>| #[trigger]
                engine::said_decode_otpks(&old(self).lifecycle.client.engine, data@, d) && match d {
                    Err(e) => final(self)@ == old(self)@ && vecs::outcome_unit(r) == Err::<
                        (),
                        Seq<char>,
                    >(e),
                    Ok(b) => r is Ok && final(self)@ == with_keys(
                        old(self)@,
                        KeysView {
                            otpks: b.records,
                            next_otpk_id: b.next_id,
                            ..old(self)@.life.client.keys
                        },
                    ),
                },
            final(self).lifecycle.client.engine == old(self).lifecycle.client.engine,
            final(self).same_clocks(*old(self)),
    {
        let decoded = self.lifecycle.client.engine.decode_otpks(data);
        let ghost d = vecs::outcome(decoded);
        assert(engine::said_decode_otpks(&self.lifecycle.client.engine, data@, d));
        match decoded {
            Err(e) => Err(e),
            Ok(bundle) => {
                self.lifecycle.client.keys.import_otpks(bundle.records);
                self.lifecycle.client.keys.next_otpk_id = bundle.next_id;
                Ok(())
            },
        }
    }

    /// Puts a new signed prekey in place; its id, public half and signature.
    pub fn rotate_spk(&mut self) -> (r: Result<(u32, Vec<u8>, Vec<u8>), String>)
        ensures
            spk_may(
                &old(self).lifecycle.client.engine,
                old(self)@,
                final(self)@,
                spk_view(r),
            ),
            final(self).lifecycle.client.engine == old(self).lifecycle.client.engine,
            final(self).same_clocks(*old(self)),
    {
        let ghost o = self@;
        let ghost engine = self.lifecycle.client.engine;
        let made = self.lifecycle.client.engine.new_kem_pair();
        let ghost mv = vecs::outcome(made);
        assert(engine::said_new_kem_pair(&engine, mv));
        let pair = match made {
            Ok(p) => p,
            Err(e) => {
                let r = Err(e);
                assert(spk_outcome(
                    &engine,
                    o,
                    mv,
                    Err::<Seq<u8>, Seq<char>>(Seq::empty()),
                    self@,
                    spk_view(r),
                ));
                return r;
            },
        };
        let message = build_x3dh_sign_message(1, pair.public.as_slice());
        let signed = self.lifecycle.client.engine.sign(
            self.lifecycle.client.keys.signing.secret.as_slice(),
            message.as_slice(),
        );
        let ghost sv = vecs::outcome_bytes(signed);
        assert(engine::said_sign(
            &engine,
            o.life.client.keys.signing.secret,
            handshake::prologue(1) + mv->Ok_0.public,
            sv,
        ));
        let signature = match signed {
            Ok(s) => s,
            Err(e) => {
                let r = Err(e);
                assert(spk_outcome(&engine, o, mv, sv, self@, spk_view(r)));
                return r;
            },
        };
        let public = vecs::bytes(pair.public.as_slice());
        let copy = vecs::bytes(signature.as_slice());
        if !self.lifecycle.client.keys.install_signed_prekey(pair, signature) {
            let r = Err(IDS_EXHAUSTED.to_owned());
            assert(self@ =~= o);
            assert(spk_outcome(&engine, o, mv, sv, self@, spk_view(r)));
            return r;
        }
        let r = Ok((self.lifecycle.client.keys.signed_prekey.key_id, public, copy));
        assert(spk_outcome(&engine, o, mv, sv, self@, spk_view(r)));
        r
    }

    // ── Kyber prekeys ───────────────────────────────────────────────────────

    /// A prekey as it is uploaded.
    fn upload_of(&self, key: &KyberPrekey) -> (r: Result<KyberPrekeyUpload, String>)
        ensures
            upload_may(
                &self.lifecycle.client.engine,
                self@.life.client.keys,
                key.deep_view(),
                vecs::outcome(r),
            ),
    {
        let ghost e = self.lifecycle.client.engine;
        let ghost keys = self@.life.client.keys;
        let ghost k = key.deep_view();
        let ghost none = Err::<Seq<u8>, Seq<char>>(Seq::empty());
        let public = self.lifecycle.client.engine.kyber_public(key.seed.as_slice());
        let ghost pv = vecs::outcome_bytes(public);
        assert(engine::said_kyber_public(&e, k.seed, pv));
        let public_key = match public {
            Ok(p) => p,
            Err(f) => {
                let r = Err(f);
                assert(upload_outcome(&e, keys, k, pv, none, none, vecs::outcome(r)));
                return r;
            },
        };
        let message = kyber_prekey_sign_message_v2(key.created_at, public_key.as_slice());
        let signed = self.lifecycle.client.engine.sign(
            self.lifecycle.client.keys.signing.secret.as_slice(),
            message.as_slice(),
        );
        let ghost sv = vecs::outcome_bytes(signed);
        assert(engine::said_sign(
            &e,
            keys.signing.secret,
            kyber_prekey_auth::kyber_sign_message(k.created_at, public_key@),
            sv,
        ));
        let signature = match signed {
            Ok(s) => s,
            Err(f) => {
                let r = Err(f);
                assert(upload_outcome(&e, keys, k, pv, sv, none, vecs::outcome(r)));
                return r;
            },
        };
        let hybrid = self.sign_hybrid(message.as_slice());
        let ghost hv = vecs::outcome_bytes(hybrid);
        let r = match hybrid {
            Ok(hybrid_signature) => Ok(
                KyberPrekeyUpload {
                    key_id: key.key_id,
                    public_key,
                    created_at: key.created_at,
                    signature,
                    hybrid_signature,
                },
            ),
            Err(f) => Err(f),
        };
        assert(upload_outcome(&e, keys, k, pv, sv, hv, vecs::outcome(r)));
        r
    }

    /// Makes `count` one-time Kyber prekeys at `now`.
    pub fn generate_kyber_one_time_prekeys_at(&mut self, count: u32, now: u64) -> (r: Result<
        Vec<KyberPrekeyUpload>,
        String,
    >)
        ensures
            kyber_otpks_may(
                &old(self).lifecycle.client.engine,
                old(self)@,
                count,
                now,
                final(self)@,
                vecs::outcome(r),
            ),
            final(self).lifecycle.client.engine == old(self).lifecycle.client.engine,
            final(self).same_clocks(*old(self)),
    {
        let ghost o = self@;
        let ghost engine = self.lifecycle.client.engine;
        let ghost keys = o.life.client.keys;
        let first: u32 = self.lifecycle.client.keys.kyber.next_otpk_id;
        if count > u32::MAX - first {
            return Err(IDS_EXHAUSTED.to_owned());
        }
        let mut seeds: Vec<Vec<u8>> = vecs::none();
        let mut uploads: Vec<KyberPrekeyUpload> = vecs::none();
        let mut i: u32 = 0;
        assert(kyber_prekeys::numbered(
            seeds.deep_view(),
            first,
            clock::secs(now),
        ) =~= Seq::<KyberKeyView>::empty());
        while i < count
            invariant
                i <= count,
                self@ == o,
                keys == o.life.client.keys,
                engine == self.lifecycle.client.engine,
                engine == old(self).lifecycle.client.engine,
                self.same_clocks(*old(self)),
                o == old(self)@,
                first == keys.kyber.next_otpk_id,
                count <= u32::MAX - first,
                seeds.deep_view().len() == i,
                are_seeds(&engine, seeds.deep_view()),
                are_uploads(
                    &engine,
                    keys,
                    kyber_prekeys::numbered(seeds.deep_view(), first, clock::secs(now)),
                    uploads.deep_view(),
                ),
            decreases count - i,
        {
            let ghost sb = seeds.deep_view();
            let ghost ub = uploads.deep_view();
            let ghost nb = kyber_prekeys::numbered(sb, first, clock::secs(now));
            assert(otpks_made(&engine, keys, now, sb, ub));
            let made = self.lifecycle.client.engine.new_kyber_seed();
            let ghost reply = vecs::outcome_bytes(made);
            assert(engine::said_new_kyber_seed(&engine, reply));
            let seed = match made {
                Ok(s) => s,
                Err(e) => {
                    return Err(e);
                },
            };
            let key = KyberPrekey {
                key_id: first + i,
                seed: vecs::bytes(seed.as_slice()),
                created_at: to_secs(now),
                retired_at: 0,
            };
            let ghost kv = key.deep_view();
            assert(kv == otpk_numbered((first + sb.len()) as u32, seed@, now));
            let upload = self.upload_of(&key);
            let ghost uv = vecs::outcome(upload);
            assert(upload_may(&engine, keys, kv, uv));
            match upload {
                Err(e) => {
                    return Err(e);
                },
                Ok(u) => {
                    vecs::push(&mut uploads, u);
                },
            }
            vecs::push(&mut seeds, seed);
            proof {
                let sn = seeds.deep_view();
                assert(seed.deep_view() =~= seed@);
                let nn = kyber_prekeys::numbered(sn, first, clock::secs(now));
                assert(nn =~= nb.push(kv));
                assert forall|j: int| 0 <= j < sn.len() implies engine::said_new_kyber_seed(
                    &engine,
                    Ok(#[trigger] sn[j]),
                ) by {
                    if j < sb.len() {
                        assert(sn[j] == sb[j]);
                    }
                }
                let un = uploads.deep_view();
                assert forall|j: int| 0 <= j < un.len() implies upload_may(
                    &engine,
                    keys,
                    nn[j],
                    Ok(#[trigger] un[j]),
                ) by {
                    if j < ub.len() {
                        assert(un[j] == ub[j]);
                    }
                }
            }
            i = i + 1;
        }
        let ghost sv = seeds.deep_view();
        let _ = self.lifecycle.client.keys.kyber.add_otpks(seeds, to_secs(now));
        assert(are_seeds(&engine, sv));
        assert(self@ =~= with_kyber(
            o,
            KyberView {
                otpks: keys.kyber.otpks + kyber_prekeys::numbered(sv, first, clock::secs(now)),
                next_otpk_id: (first + count) as u32,
                ..keys.kyber
            },
        ));
        Ok(uploads)
    }

    /// Makes `count` one-time Kyber prekeys.
    pub fn generate_kyber_one_time_prekeys(&mut self, count: u32) -> (r: Result<
        Vec<KyberPrekeyUpload>,
        String,
    >)
        ensures
            exists|now: u64| #[trigger]
                old(self).reads(now) && kyber_otpks_may(
                    &old(self).lifecycle.client.engine,
                    old(self)@,
                    count,
                    now,
                    final(self)@,
                    vecs::outcome(r),
                ),
            final(self).lifecycle.client.engine == old(self).lifecycle.client.engine,
            final(self).same_clocks(*old(self)),
    {
        let now: u64 = self.now_ms();
        self.generate_kyber_one_time_prekeys_at(count, now)
    }

    /// How many one-time Kyber prekeys are left.
    pub fn kyber_one_time_prekey_count(&self) -> (r: u32)
        ensures
            r == low32(self@.life.client.keys.kyber.otpks.len()),
    {
        to_low32(self.lifecycle.client.keys.kyber.otpk_count())
    }

    /// Drops the one-time Kyber prekeys numbered below `min_keep_id`; how many.
    pub fn prune_kyber_one_time_prekeys_below(&mut self, min_keep_id: u32) -> (r: u32)
        ensures
            ({
                let k = old(self)@.life.client.keys.kyber;
                let kept = kyber_prekeys::ids_from(k.otpks, min_keep_id);
                &&& final(self)@ == with_kyber(old(self)@, KyberView { otpks: kept, ..k })
                &&& r == low32((k.otpks.len() - kept.len()) as nat)
            }),
            final(self).lifecycle.client.engine == old(self).lifecycle.client.engine,
            final(self).same_clocks(*old(self)),
    {
        let n = self.lifecycle.client.keys.kyber.prune_otpks_below(min_keep_id);
        to_low32(n)
    }

    /// Puts a fresh Kyber signed prekey in waiting at `now`; its upload.
    pub fn begin_kyber_spk_rotation_at(&mut self, now: u64) -> (r: Result<
        KyberPrekeyUpload,
        String,
    >)
        ensures
            rotation_may(
                &old(self).lifecycle.client.engine,
                old(self)@,
                now,
                final(self)@,
                vecs::outcome(r),
            ),
            final(self).lifecycle.client.engine == old(self).lifecycle.client.engine,
            final(self).same_clocks(*old(self)),
    {
        let ghost o = self@;
        let ghost engine = self.lifecycle.client.engine;
        let ghost none = Err::<UploadView, Seq<char>>(Seq::empty());
        let key_id: u32 = self.lifecycle.client.keys.kyber.next_spk_id;
        if key_id >= KYBER_OTPK_ID_START - 1 {
            let r = Err(IDS_EXHAUSTED.to_owned());
            assert(rotation_outcome(
                &engine,
                o,
                now,
                Err::<Seq<u8>, Seq<char>>(Seq::empty()),
                none,
                self@,
                vecs::outcome(r),
            ));
            return r;
        }
        let made = self.lifecycle.client.engine.new_kyber_seed();
        let ghost sv = vecs::outcome_bytes(made);
        assert(engine::said_new_kyber_seed(&engine, sv));
        let seed = match made {
            Ok(s) => s,
            Err(e) => {
                let r = Err(e);
                assert(rotation_outcome(&engine, o, now, sv, none, self@, vecs::outcome(r)));
                return r;
            },
        };
        let key = KyberPrekey {
            key_id,
            seed: vecs::bytes(seed.as_slice()),
            created_at: to_secs(now),
            retired_at: 0,
        };
        let r = self.upload_of(&key);
        if r.is_ok() {
            let _ = self.lifecycle.client.keys.kyber.begin_rotation(seed, to_secs(now));
        }
        assert(rotation_outcome(
            &engine,
            o,
            now,
            sv,
            vecs::outcome(r),
            self@,
            vecs::outcome(r),
        ));
        r
    }

    /// Puts a fresh Kyber signed prekey in waiting; its upload.
    pub fn begin_kyber_spk_rotation(&mut self) -> (r: Result<KyberPrekeyUpload, String>)
        ensures
            exists|now: u64| #[trigger]
                old(self).reads(now) && rotation_may(
                    &old(self).lifecycle.client.engine,
                    old(self)@,
                    now,
                    final(self)@,
                    vecs::outcome(r),
                ),
            final(self).lifecycle.client.engine == old(self).lifecycle.client.engine,
            final(self).same_clocks(*old(self)),
    {
        let now: u64 = self.now_ms();
        self.begin_kyber_spk_rotation_at(now)
    }

    /// Makes the Kyber signed prekey in waiting the one peers are served, at `now`; whether there
    /// was one.
    pub fn commit_kyber_spk_rotation_at(&mut self, now: u64) -> (r: bool)
        ensures
            r == kyber_prekeys::kyber_committed(
                old(self)@.life.client.keys.kyber,
                clock::secs(now),
            ).1,
            final(self)@ == with_kyber(
                old(self)@,
                kyber_prekeys::kyber_committed(
                    old(self)@.life.client.keys.kyber,
                    clock::secs(now),
                ).0,
            ),
            final(self).lifecycle.client.engine == old(self).lifecycle.client.engine,
            final(self).same_clocks(*old(self)),
    {
        self.lifecycle.client.keys.kyber.commit_rotation(to_secs(now))
    }

    /// Makes the Kyber signed prekey in waiting the one peers are served; whether there was one.
    pub fn commit_kyber_spk_rotation(&mut self) -> (r: bool)
        ensures
            exists|now: u64| #[trigger]
                old(self).reads(now) && r == kyber_prekeys::kyber_committed(
                    old(self)@.life.client.keys.kyber,
                    clock::secs(now),
                ).1 && final(self)@
                    == with_kyber(
                    old(self)@,
                    kyber_prekeys::kyber_committed(
                        old(self)@.life.client.keys.kyber,
                        clock::secs(now),
                    ).0,
                ),
            final(self).lifecycle.client.engine == old(self).lifecycle.client.engine,
            final(self).same_clocks(*old(self)),
    {
        let now: u64 = self.now_ms();
        self.commit_kyber_spk_rotation_at(now)
    }

    /// Drops the Kyber signed prekey in waiting.
    pub fn rollback_kyber_spk_rotation(&mut self)
        ensures
            final(self)@ == with_kyber(
                old(self)@,
                KyberView { pending: None, ..old(self)@.life.client.keys.kyber },
            ),
            final(self).lifecycle.client.engine == old(self).lifecycle.client.engine,
            final(self).same_clocks(*old(self)),
    {
        self.lifecycle.client.keys.kyber.rollback_rotation();
    }

    /// The Kyber signed prekey peers are served, as it is uploaded.
    pub fn current_kyber_spk_upload(&self) -> (r: Result<Option<KyberPrekeyUpload>, String>)
        ensures
            match self@.life.client.keys.kyber.current {
                None => r matches Ok(u) && u is None,
                Some(key) => exists|u: Result<UploadView, Seq<char>>| #[trigger]
                    upload_may(
                        &self.lifecycle.client.engine,
                        self@.life.client.keys,
                        key,
                        u,
                    ) && vecs::outcome(r) == (match u {
                        Err(e) => Err::<Option<UploadView>, Seq<char>>(e),
                        Ok(v) => Ok(Some(v)),
                    }),
            },
    {
        match &self.lifecycle.client.keys.kyber.current {
            None => Ok(None),
            Some(key) => {
                let upload = self.upload_of(key);
                let ghost u = vecs::outcome(upload);
                assert(upload_may(
                    &self.lifecycle.client.engine,
                    self@.life.client.keys,
                    self@.life.client.keys.kyber.current->0,
                    u,
                ));
                match upload {
                    Ok(v) => Ok(Some(v)),
                    Err(e) => Err(e),
                }
            },
        }
    }

    /// Decapsulates with a Kyber prekey of this device.
    pub fn kyber_prekey_decapsulate(&self, key_id: u32, ciphertext: &[u8]) -> (r: Result<
        Vec<u8>,
        String,
    >)
        ensures
            decapsulated_may(
                &self.lifecycle.client.engine,
                self@.life.client.keys.kyber,
                key_id,
                ciphertext@,
                vecs::outcome_bytes(r),
            ),
    {
        match self.lifecycle.client.keys.kyber.find(key_id) {
            None => {
                let number = decimal(key_id as u64);
                Err(join3("Kyber prekey ", number.as_str(), " is not held"))
            },
            Some(key) => self.lifecycle.client.engine.decapsulate(key.seed.as_slice(), ciphertext),
        }
    }

    /// The Kyber prekeys as a binary record.
    pub fn export_kyber_prekeys_cfe(&self) -> (r: Result<Vec<u8>, String>)
        ensures
            engine::said_encode_kyber_prekeys(
                &self.lifecycle.client.engine,
                self@.life.client.keys.kyber,
                vecs::outcome_bytes(r),
            ),
    {
        self.lifecycle.client.engine.encode_kyber_prekeys(&self.lifecycle.client.keys.kyber)
    }

    /// Replaces the Kyber prekeys by those of a binary record.
    pub fn import_kyber_prekeys_cfe(&mut self, data: &[u8]) -> (r: Result<(), String>)
        ensures
            exists|d: Result<KyberView, Seq<char>>| #[trigger]
                engine::said_decode_kyber_prekeys(
                    &old(self).lifecycle.client.engine,
                    data@,
                    d,
                ) && match d {
                    Err(e) => final(self)@ == old(self)@ && vecs::outcome_unit(r) == Err::<
                        (),
                        Seq<char>,
                    >(e),
                    Ok(k) => r is Ok && final(self)@ == with_kyber(old(self)@, k),
                },
            final(self).lifecycle.client.engine == old(self).lifecycle.client.engine,
            final(self).same_clocks(*old(self)),
    {
        let decoded = self.lifecycle.client.engine.decode_kyber_prekeys(data);
        let ghost d = vecs::outcome(decoded);
        assert(engine::said_decode_kyber_prekeys(&self.lifecycle.client.engine, data@, d));
        match decoded {
            Err(e) => Err(e),
            Ok(kyber) => {
                self.lifecycle.client.keys.kyber = kyber;
                Ok(())
            },
        }
    }

    /// The Kyber prekeys to persist if a one-time key was burned since the last call.
    pub fn take_kyber_prekeys_to_persist(&mut self) -> (r: Option<Vec<u8>>)
        ensures
            persisting::taken_may(
                &old(self).lifecycle.client.engine,
                old(self)@,
                final(self)@,
                vecs::opt_bytes(r),
            ),
            final(self).lifecycle.client.engine == old(self).lifecycle.client.engine,
            final(self).same_clocks(*old(self)),
    {
        if !self.kyber_prekeys_dirty {
            return None;
        }
        self.kyber_prekeys_dirty = false;
        let record = self.export_kyber_prekeys_cfe();
        let ghost x = vecs::outcome_bytes(record);
        assert(engine::said_encode_kyber_prekeys(
            &self.lifecycle.client.engine,
            self@.life.client.keys.kyber,
            x,
        ));
        match record {
            Ok(data) => Some(data),
            Err(_) => None,
        }
    }
}

// ── Laws ────────────────────────────────────────────────────────────────────

/// A rotation of the Kyber signed prekey that is begun does not change what peers are served or
/// what opens a session; one that fails changes nothing at all.
pub proof fn a_rotation_begun_serves_nobody<E: CryptoEngine>(
    engine: &E,
    o: OrchView,
    now: u64,
    next: OrchView,
    result: Result<UploadView, Seq<char>>,
    id: u32,
)
    requires
        rotation_may(engine, o, now, next, result),
    ensures
        next.life.client.keys.kyber.current == o.life.client.keys.kyber.current,
        kyber_prekeys::kyber_find(next.life.client.keys.kyber, id) == kyber_prekeys::kyber_find(
            o.life.client.keys.kyber,
            id,
        ),
        next.life.client.sessions == o.life.client.sessions,
        result is Err ==> next == o,
        result matches Ok(u) ==> u.key_id == o.life.client.keys.kyber.next_spk_id && u.created_at
            == clock::secs(now),
{
}

/// One-time Kyber prekeys are made all or none, and each upload carries an id no key had before.
pub proof fn one_time_prekeys_are_made_all_or_none<E: CryptoEngine>(
    engine: &E,
    o: OrchView,
    count: u32,
    now: u64,
    next: OrchView,
    result: Result<Seq<UploadView>, Seq<char>>,
    i: int,
)
    requires
        kyber_otpks_may(engine, o, count, now, next, result),
    ensures
        result is Err ==> next == o,
        result matches Ok(us) ==> us.len() == count && next.life.client.keys.kyber.otpks.len()
            == o.life.client.keys.kyber.otpks.len() + count,
        result matches Ok(us) && 0 <= i < us.len() ==> result->Ok_0[i].key_id
            == o.life.client.keys.kyber.next_otpk_id + i,
{
    if result is Ok {
        let us = result->Ok_0;
        let k = o.life.client.keys.kyber;
        let seeds = choose|seeds: Seq<Seq<u8>>|
            {
                &&& #[trigger] are_seeds(engine, seeds)
                &&& seeds.len() == count
                &&& are_uploads(
                    engine,
                    o.life.client.keys,
                    kyber_prekeys::numbered(seeds, k.next_otpk_id, clock::secs(now)),
                    us,
                )
                &&& count <= u32::MAX - k.next_otpk_id
                &&& next == with_kyber(
                    o,
                    KyberView {
                        otpks: k.otpks + kyber_prekeys::numbered(
                            seeds,
                            k.next_otpk_id,
                            clock::secs(now),
                        ),
                        next_otpk_id: (k.next_otpk_id + count) as u32,
                        ..k
                    },
                )
            };
        if 0 <= i < us.len() {
            let key = kyber_prekeys::numbered(seeds, k.next_otpk_id, clock::secs(now))[i];
            assert(upload_may(engine, o.life.client.keys, key, Ok(us[i])));
        }
    }
}

} // verus!
