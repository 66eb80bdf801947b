//! Opening a session as RESPONDER, from the first message of a peer.

use vstd::prelude::*;

use crate::crypto::client_api::{self, ClientView};
use crate::crypto::engine::{self, CryptoEngine, ReceivedView};
use crate::crypto::handshake::{
    self, build_prologue, BundleView, PqxdhInput, PqxdhView, X3DHPublicKeyBundle,
};
use crate::crypto::keys::KeysView;
use crate::crypto::kyber_prekey_auth::{PqAuthentication, PqHandshake};
use crate::crypto::kyber_prekeys::{self, KyberKeyView, KyberPrekey, KyberView, KYBER_OTPK_ID_START};
use crate::crypto::messaging::double_ratchet::{
    clone_opt_field, EncryptedRatchetMessage, PqFieldView, PqRatchetWireField, RatchetMessageView,
};
use crate::crypto::suite_id::{self, SuiteID};
use crate::orchestration::clock::Clock;
use crate::orchestration::orchestrator::messaging::{self, assemble};
use crate::orchestration::orchestrator::{OrchView, Orchestrator};
use crate::orchestration::session_lifecycle::LifeView;
use crate::orchestration::wire_message::{self, to_ratchet_message, MessageFault};
use crate::strings::{self, decimal, join, join3};
use crate::vecs;
use crate::wire_payload::{self, unpack, WireFields};

verus! {

/// The suite every new session uses.
pub const PQ_RATCHET_SUITE: u16 = 3;

/// The first message of a session, as it reaches the RESPONDER.
#[derive(Debug)]
pub struct IncomingFirstMessage {
    pub ephemeral_public_key: Vec<u8>,
    pub message_number: u32,
    /// `nonce || ciphertext`.
    pub content: Vec<u8>,
    pub one_time_prekey_id: u32,
    /// The suite the message was encrypted with, which is not the suite of the bundle.
    pub suite_id: u16,
    pub pq_message_epoch: u32,
    pub pq_ratchet_field: Option<PqRatchetWireField>,
    /// The message carries a PQXDH v2 handshake.
    pub pqxdh_v2: bool,
    /// Our Kyber prekey the initiator encapsulated to.
    pub kyber_prekey_id: u32,
    pub kem_ciphertext: Vec<u8>,
}

/// An `IncomingFirstMessage` by its bytes.
pub struct FirstView {
    pub ephemeral_public_key: Seq<u8>,
    pub message_number: u32,
    pub content: Seq<u8>,
    pub one_time_prekey_id: u32,
    pub suite_id: u16,
    pub pq_message_epoch: u32,
    pub pq_ratchet_field: Option<PqFieldView>,
    pub pqxdh_v2: bool,
    pub kyber_prekey_id: u32,
    pub kem_ciphertext: Seq<u8>,
}

impl DeepView for IncomingFirstMessage {
    type V = FirstView;

    open spec fn deep_view(&self) -> FirstView {
        FirstView {
            ephemeral_public_key: self.ephemeral_public_key@,
            message_number: self.message_number,
            content: self.content@,
            one_time_prekey_id: self.one_time_prekey_id,
            suite_id: self.suite_id,
            pq_message_epoch: self.pq_message_epoch,
            pq_ratchet_field: self.pq_ratchet_field.deep_view(),
            pqxdh_v2: self.pqxdh_v2,
            kyber_prekey_id: self.kyber_prekey_id,
            kem_ciphertext: self.kem_ciphertext@,
        }
    }
}

/// The KEM ciphertext of a payload; empty when it carries none.
pub open spec fn kem_of(f: WireFields) -> Seq<u8> {
    match f.kem_ciphertext {
        Some(k) => k,
        None => Seq::empty(),
    }
}

/// The contents of a payload as a first message.
pub open spec fn first_of(f: WireFields) -> FirstView {
    FirstView {
        ephemeral_public_key: f.dh_public_key,
        message_number: f.message_number,
        content: f.sealed_box,
        one_time_prekey_id: f.one_time_prekey_id,
        suite_id: f.suite_id,
        pq_message_epoch: f.pq_message_epoch,
        pq_ratchet_field: f.pq_ratchet_field,
        pqxdh_v2: f.kem_ciphertext is Some,
        kyber_prekey_id: f.kyber_otpk_id,
        kem_ciphertext: kem_of(f),
    }
}

/// The first message a payload carries.
pub open spec fn first_message_of(payload: Seq<u8>) -> Result<FirstView, Seq<char>> {
    match wire_payload::decode(payload) {
        Err(e) => Err("wire_payload unpack failed: "@ + e.text()),
        Ok(f) => Ok(first_of(f)),
    }
}

impl IncomingFirstMessage {
    /// The first message as the envelope carries it, unpacked here so that no field the responder
    /// needs passes through a platform copy on the way in.
    pub fn from_wire_payload(wire_payload: &[u8]) -> (r: Result<Self, String>)
        ensures
            vecs::outcome(r) == first_message_of(wire_payload@),
    {
        match unpack(wire_payload) {
            Err(e) => {
                let text = e.to_text();
                Err(join("wire_payload unpack failed: ", text.as_str()))
            },
            Ok(d) => {
                let pqxdh_v2 = d.pqxdh_v2();
                Ok(
                    IncomingFirstMessage {
                        ephemeral_public_key: d.dh_public_key,
                        message_number: d.message_number,
                        content: d.sealed_box,
                        one_time_prekey_id: d.one_time_prekey_id,
                        suite_id: d.suite_id,
                        pq_message_epoch: d.pq_message_epoch,
                        pq_ratchet_field: d.pq_ratchet_field,
                        pqxdh_v2,
                        kyber_prekey_id: d.kyber_otpk_id,
                        kem_ciphertext: match d.kem_ciphertext {
                            Some(k) => k,
                            None => Vec::new(),
                        },
                    },
                )
            },
        }
    }
}

/// The part of an initiator's registration bundle that a responder reads.
#[derive(Debug)]
pub struct KeyBundle {
    pub identity_public: Vec<u8>,
    pub signed_prekey_public: Vec<u8>,
    pub signature: Vec<u8>,
    pub verifying_key: Vec<u8>,
    pub suite_id: u16,
}

/// A `KeyBundle` by its bytes.
pub struct KeyBundleView {
    pub identity_public: Seq<u8>,
    pub signed_prekey_public: Seq<u8>,
    pub signature: Seq<u8>,
    pub verifying_key: Seq<u8>,
    pub suite_id: u16,
}

impl DeepView for KeyBundle {
    type V = KeyBundleView;

    open spec fn deep_view(&self) -> KeyBundleView {
        KeyBundleView {
            identity_public: self.identity_public@,
            signed_prekey_public: self.signed_prekey_public@,
            signature: self.signature@,
            verifying_key: self.verifying_key@,
            suite_id: self.suite_id,
        }
    }
}

// ── The ML-KEM part ─────────────────────────────────────────────────────────

/// The KEM half of a first message, as the wire carried it.
#[derive(Debug, Clone, Copy)]
pub struct ResponderKem<'a> {
    pub pqxdh_v2: bool,
    pub kyber_prekey_id: u32,
    pub kem_ciphertext: &'a [u8],
}

/// A `ResponderKem` by its bytes.
pub struct KemView {
    pub pqxdh_v2: bool,
    pub kyber_prekey_id: u32,
    pub kem_ciphertext: Seq<u8>,
}

impl<'a> DeepView for ResponderKem<'a> {
    type V = KemView;

    open spec fn deep_view(&self) -> KemView {
        KemView {
            pqxdh_v2: self.pqxdh_v2,
            kyber_prekey_id: self.kyber_prekey_id,
            kem_ciphertext: self.kem_ciphertext@,
        }
    }
}

/// Why a first message cannot be derived here: it has no PQXDH v2 handshake, it is not on the
/// mandatory suite, or the prekey it names is not held. Otherwise the prekey.
pub open spec fn kem_key(k: KyberView, suite_id: u16, kem: KemView) -> Result<
    KyberKeyView,
    Seq<char>,
> {
    if !kem.pqxdh_v2 || kem.kem_ciphertext.len() == 0 {
        Err(
            "PQXDH_REQUIRED: first message without a PQXDH v2 handshake — the sender's build predates the cutover"@,
        )
    } else if suite_id != PQ_RATCHET_SUITE {
        Err(
            "PQXDH_REQUIRED: first message on suite "@ + strings::decimal_chars(suite_id as nat)
                + "; suite 3 is mandatory"@,
        )
    } else {
        match kyber_prekeys::kyber_find(k, kem.kyber_prekey_id) {
            None => Err(
                "PQXDH_KEY_UNAVAILABLE: Kyber prekey "@ + strings::decimal_chars(kem.kyber_prekey_id as nat)
                    + " is not held"@,
            ),
            Some(key) => Ok(key),
        }
    }
}

/// The engine gives `public` for the prekey and `shared` for the ciphertext: what follows.
pub open spec fn kem_outcome<E: CryptoEngine>(
    engine: &E,
    key: KyberKeyView,
    ciphertext: Seq<u8>,
    public: Result<Seq<u8>, Seq<char>>,
    shared: Result<Seq<u8>, Seq<char>>,
    result: Result<(Seq<u8>, Seq<u8>), Seq<char>>,
) -> bool {
    &&& engine::said_kyber_public(engine, key.seed, public)
    &&& match public {
        Err(e) => result == Err::<(Seq<u8>, Seq<u8>), Seq<char>>(e),
        Ok(p) => engine::said_decapsulate(
            engine,
            key.seed,
            ciphertext,
            shared,
        ) && result == (match shared {
            Err(e) => Err::<(Seq<u8>, Seq<u8>), Seq<char>>(e),
            Ok(s) => Ok((p, s)),
        }),
    }
}

/// What deriving with a prekey that is held may come to.
pub open spec fn derived_may<E: CryptoEngine>(
    engine: &E,
    key: KyberKeyView,
    ciphertext: Seq<u8>,
    result: Result<(Seq<u8>, Seq<u8>), Seq<char>>,
) -> bool {
    exists|public: Result<Seq<u8>, Seq<char>>, shared: Result<Seq<u8>, Seq<char>>| #[trigger]
        kem_outcome(engine, key, ciphertext, public, shared, result)
}

/// What the ML-KEM part of a first message may come to: the Kyber public key and the shared secret.
pub open spec fn kem_may<E: CryptoEngine>(
    engine: &E,
    k: KyberView,
    suite_id: u16,
    kem: KemView,
    result: Result<(Seq<u8>, Seq<u8>), Seq<char>>,
) -> bool {
    match kem_key(k, suite_id, kem) {
        Err(e) => result == Err::<(Seq<u8>, Seq<u8>), Seq<char>>(e),
        Ok(key) => derived_may(engine, key, kem.kem_ciphertext, result),
    }
}

// ── The session ─────────────────────────────────────────────────────────────

/// The state after a session was opened with this Kyber prekey: the session is labelled, and a
/// one-time prekey is burned.
pub open spec fn after_init(o: OrchView, contact: Seq<char>, kyber_prekey_id: u32) -> OrchView {
    let kyber = o.life.client.keys.kyber;
    let burns = kyber_prekey_id >= KYBER_OTPK_ID_START;
    let keys = if burns {
        KeysView {
            kyber: KyberView { otpks: kyber_prekeys::without_id(
                kyber.otpks,
                kyber_prekey_id,
            ), ..kyber },
            ..o.life.client.keys
        }
    } else {
        o.life.client.keys
    };
    let client = ClientView { keys, ..o.life.client };
    OrchView {
        life: LifeView {
            client: if kyber_prekey_id != 0 {
                client_api::marked_v2(client, contact, PqAuthentication::Received)
            } else {
                client
            },
            ..o.life
        },
        kyber_dirty: o.kyber_dirty
            || (burns && kyber_prekeys::first_with_id(kyber.otpks, kyber_prekey_id) is Some),
        ..o
    }
}

/// What the engine's answer to opening a session as RESPONDER leads to.
pub open spec fn responded(
    o: OrchView,
    contact: Seq<char>,
    one_time_prekey_id: u32,
    kyber_prekey_id: u32,
    reply: Result<ReceivedView, Seq<char>>,
) -> (OrchView, Result<Seq<u8>, Seq<char>>) {
    let (client, r) = client_api::receive_step(o.life.client, contact, one_time_prekey_id, reply);
    match r {
        Err(e) => (o, Err(e)),
        Ok(p) => (
            after_init(
                OrchView { life: LifeView { client, ..o.life }, ..o },
                contact,
                kyber_prekey_id,
            ),
            Ok(p),
        ),
    }
}

/// The ML-KEM part comes to `k` and the engine opens to `reply`: what follows.
pub open spec fn responder_outcome<E: CryptoEngine>(
    engine: &E,
    o: OrchView,
    contact: Seq<char>,
    remote_identity: Seq<u8>,
    remote_ephemeral: Seq<u8>,
    m: RatchetMessageView,
    one_time_prekey_id: u32,
    kem: KemView,
    k: Result<(Seq<u8>, Seq<u8>), Seq<char>>,
    reply: Result<ReceivedView, Seq<char>>,
    next: OrchView,
    result: Result<Seq<u8>, Seq<char>>,
) -> bool {
    &&& kem_may(engine, o.life.client.keys.kyber, m.suite_id, kem, k)
    &&& match k {
        Err(e) => next == o && result == Err::<Seq<u8>, Seq<char>>(e),
        Ok((public, shared)) => {
            &&& engine::said_open_responder(
                engine,
                o.life.client.keys,
                o.life.client.local_user_id,
                contact,
                remote_identity,
                remote_ephemeral,
                m,
                one_time_prekey_id,
                Some(
                    PqxdhView {
                        shared_secret: shared,
                        kyber_public: public,
                        kem_ciphertext: kem.kem_ciphertext,
                    },
                ),
                reply,
            )
            &&& (next, result) == responded(
                o,
                contact,
                one_time_prekey_id,
                kem.kyber_prekey_id,
                reply,
            )
        },
    }
}

/// What opening a session from a verified first message may come to.
pub open spec fn responder_may<E: CryptoEngine>(
    engine: &E,
    o: OrchView,
    contact: Seq<char>,
    remote_identity: Seq<u8>,
    remote_ephemeral: Seq<u8>,
    m: RatchetMessageView,
    one_time_prekey_id: u32,
    kem: KemView,
    next: OrchView,
    result: Result<Seq<u8>, Seq<char>>,
) -> bool {
    exists|k: Result<(Seq<u8>, Seq<u8>), Seq<char>>, reply: Result<ReceivedView, Seq<char>>| #[trigger]
        responder_outcome(
            engine,
            o,
            contact,
            remote_identity,
            remote_ephemeral,
            m,
            one_time_prekey_id,
            kem,
            k,
            reply,
            next,
            result,
        )
}

/// What the signature over the initiator's signed prekey is made on.
pub open spec fn spk_message(suite: u16, signed_prekey_public: Seq<u8>) -> Seq<u8> {
    handshake::prologue(suite) + signed_prekey_public
}

/// What opening a session from a first message may come to, given the key and the suite its
/// author's signed prekey is signed with. Nothing is derived before that signature verifies.
pub open spec fn verified_may<E: CryptoEngine>(
    engine: &E,
    o: OrchView,
    contact: Seq<char>,
    bundle: KeyBundleView,
    m: RatchetMessageView,
    one_time_prekey_id: u32,
    kem: KemView,
    ok: bool,
    next: OrchView,
    result: Result<Seq<u8>, Seq<char>>,
) -> bool {
    &&& engine::said_verify(
        engine,
        bundle.verifying_key,
        spk_message(bundle.suite_id, bundle.signed_prekey_public),
        bundle.signature,
        ok,
    )
    &&& if ok {
        responder_may(
            engine,
            o,
            contact,
            bundle.identity_public,
            m.dh_public_key,
            m,
            one_time_prekey_id,
            kem,
            next,
            result,
        )
    } else {
        next == o && result == Err::<Seq<u8>, Seq<char>>(
            "invalid signed prekey signature from initiator"@,
        )
    }
}

/// The part of a bundle that a responder reads.
pub open spec fn key_part(b: BundleView) -> KeyBundleView {
    KeyBundleView {
        identity_public: b.identity_public,
        signed_prekey_public: b.signed_prekey_public,
        signature: b.signature,
        verifying_key: b.verifying_key,
        suite_id: b.suite_id.number(),
    }
}

/// The KEM half of a first message.
pub open spec fn kem_part(f: FirstView) -> KemView {
    KemView {
        pqxdh_v2: f.pqxdh_v2,
        kyber_prekey_id: f.kyber_prekey_id,
        kem_ciphertext: f.kem_ciphertext,
    }
}

/// What opening a session from a first message may come to.
pub open spec fn received_may<E: CryptoEngine>(
    engine: &E,
    o: OrchView,
    contact: Seq<char>,
    bundle: BundleView,
    first: FirstView,
    next: OrchView,
    result: Result<Seq<u8>, Seq<char>>,
) -> bool {
    match messaging::assembled(
        first.ephemeral_public_key,
        first.message_number,
        first.content,
        first.suite_id,
        first.pq_message_epoch,
        first.pq_ratchet_field,
    ) {
        Err(e) => next == o && result == Err::<Seq<u8>, Seq<char>>(e),
        Ok(m) => exists|ok: bool| #[trigger]
            verified_may(
                engine,
                o,
                contact,
                key_part(bundle),
                m,
                first.one_time_prekey_id,
                kem_part(first),
                ok,
                next,
                result,
            ),
    }
}

/// The message of a payload a session is opened from, or why it has none.
pub open spec fn opener_of(payload: Seq<u8>) -> Result<(WireFields, RatchetMessageView), Seq<char>> {
    match wire_payload::decode(payload) {
        Err(e) => Err("wire_payload unpack failed: "@ + e.name()),
        Ok(f) => match wire_message::message_fault(f) {
            Some(MessageFault::ShortBox) => Err("sealed_box too short in wire_payload"@),
            Some(MessageFault::KeyLength) => Err("dh_public_key must be 32 bytes"@),
            None => Ok((f, wire_message::carried_message(f))),
        },
    }
}

/// What opening a session from a wire payload may come to.
pub open spec fn wire_received_may<E: CryptoEngine>(
    engine: &E,
    o: OrchView,
    contact: Seq<char>,
    bundle: KeyBundleView,
    payload: Seq<u8>,
    next: OrchView,
    result: Result<Seq<u8>, Seq<char>>,
) -> bool {
    match opener_of(payload) {
        Err(e) => next == o && result == Err::<Seq<u8>, Seq<char>>(e),
        Ok((f, m)) => if suite_id::suite_of(bundle.suite_id) is None {
            next == o && result == Err::<Seq<u8>, Seq<char>>("invalid suite_id"@)
        } else {
            exists|ok: bool| #[trigger]
                verified_may(
                    engine,
                    o,
                    contact,
                    bundle,
                    m,
                    f.one_time_prekey_id,
                    kem_part(first_of(f)),
                    ok,
                    next,
                    result,
                )
        },
    }
}

/// The plaintext of an opened session, or the error.
pub open spec fn opened_plain(r: Result<(String, Vec<u8>), String>) -> Result<Seq<u8>, Seq<char>> {
    match r {
        Ok(p) => Ok(p.1@),
        Err(e) => Err(e@),
    }
}

/// A pair of a key and a secret by their bytes.
pub open spec fn kem_pair(r: Result<(Vec<u8>, Vec<u8>), String>) -> Result<
    (Seq<u8>, Seq<u8>),
    Seq<char>,
> {
    match r {
        Ok(p) => Ok((p.0@, p.1@)),
        Err(e) => Err(e@),
    }
}

impl<C: Clock, E: CryptoEngine> Orchestrator<C, E> {
    fn derive_kem(&self, prekey: &KyberPrekey, ciphertext: &[u8]) -> (r: Result<
        (Vec<u8>, Vec<u8>),
        String,
    >)
        ensures
            derived_may(
                &self.lifecycle.client.engine,
                prekey.deep_view(),
                ciphertext@,
                kem_pair(r),
            ),
    {
        let ghost key = prekey.deep_view();
        let ghost e = self.lifecycle.client.engine;
        let public = self.lifecycle.client.engine.kyber_public(prekey.seed.as_slice());
        let ghost pv = vecs::outcome_bytes(public);
        assert(engine::said_kyber_public(&e, key.seed, pv));
        match public {
            Err(f) => {
                let r = Err(f);
                assert(kem_outcome(
                    &e,
                    key,
                    ciphertext@,
                    pv,
                    Err::<Seq<u8>, Seq<char>>(Seq::empty()),
                    kem_pair(r),
                ));
                r
            },
            Ok(p) => {
                let shared = self.lifecycle.client.engine.decapsulate(
                    prekey.seed.as_slice(),
                    ciphertext,
                );
                let ghost sv = vecs::outcome_bytes(shared);
                assert(engine::said_decapsulate(&e, key.seed, ciphertext@, sv));
                let r = match shared {
                    Err(f) => Err(f),
                    Ok(s) => Ok((p, s)),
                };
                assert(kem_outcome(&e, key, ciphertext@, pv, sv, kem_pair(r)));
                r
            },
        }
    }

    /// The ML-KEM part of a first message, decapsulated with our own Kyber prekey: the Kyber
    /// public key and the shared secret.
    ///
    /// A first message without a handshake comes from a build this one does not talk to. A prekey
    /// this device no longer holds means the session cannot be derived at all; the caller heals.
    pub fn responder_kem(&self, ratchet_suite_id: u16, kem: &ResponderKem<'_>) -> (r: Result<
        (Vec<u8>, Vec<u8>),
        String,
    >)
        ensures
            kem_may(
                &self.lifecycle.client.engine,
                self@.life.client.keys.kyber,
                ratchet_suite_id,
                kem.deep_view(),
                kem_pair(r),
            ),
    {
        if !kem.pqxdh_v2 || kem.kem_ciphertext.len() == 0 {
            return Err(
                "PQXDH_REQUIRED: first message without a PQXDH v2 handshake — the sender's build predates the cutover".to_owned(),
            );
        }
        if ratchet_suite_id != PQ_RATCHET_SUITE {
            let number = decimal(ratchet_suite_id as u64);
            return Err(
                join3(
                    "PQXDH_REQUIRED: first message on suite ",
                    number.as_str(),
                    "; suite 3 is mandatory",
                ),
            );
        }
        let prekey = match self.lifecycle.client.keys.kyber.find(kem.kyber_prekey_id) {
            Some(k) => k,
            None => {
                let number = decimal(kem.kyber_prekey_id as u64);
                return Err(
                    join3(
                        "PQXDH_KEY_UNAVAILABLE: Kyber prekey ",
                        number.as_str(),
                        " is not held",
                    ),
                );
            },
        };
        self.derive_kem(&prekey, kem.kem_ciphertext)
    }

    /// After a session was opened with this Kyber prekey: labels the session, and burns the key if
    /// it was one-time. The burn marks the prekeys to be persisted.
    pub fn after_responder_init(&mut self, contact_id: &str, kyber_prekey_id: u32)
        ensures
            final(self)@ == after_init(old(self)@, contact_id@, kyber_prekey_id),
            final(self).lifecycle.client.engine == old(self).lifecycle.client.engine,
            final(self).same_clocks(*old(self)),
    {
        if kyber_prekey_id >= KYBER_OTPK_ID_START {
            let burned = self.lifecycle.client.keys.kyber.remove_otpk(kyber_prekey_id);
            if burned {
                self.kyber_prekeys_dirty = true;
            }
        }
        if kyber_prekey_id != 0 {
            self.lifecycle.client.mark_pqxdh_v2(contact_id, PqAuthentication::Received);
        }
        assert(self@ =~= after_init(old(self)@, contact_id@, kyber_prekey_id));
    }

    /// The step both entry points of a responder end in: the KEM part, the handshake with it, then
    /// what follows an opened session.
    fn complete_responder_init(
        &mut self,
        contact_id: &str,
        remote_identity: &[u8],
        remote_ephemeral: &[u8],
        message: &EncryptedRatchetMessage,
        one_time_prekey_id: u32,
        kem: ResponderKem<'_>,
    ) -> (r: Result<Vec<u8>, String>)
        ensures
            responder_may(
                &old(self).lifecycle.client.engine,
                old(self)@,
                contact_id@,
                remote_identity@,
                remote_ephemeral@,
                message.deep_view(),
                one_time_prekey_id,
                kem.deep_view(),
                final(self)@,
                vecs::outcome_bytes(r),
            ),
            final(self).lifecycle.client.engine == old(self).lifecycle.client.engine,
            final(self).same_clocks(*old(self)),
    {
        let ghost o = self@;
        let ghost e = self.lifecycle.client.engine;
        let derived = self.responder_kem(message.suite_id, &kem);
        let ghost k = kem_pair(derived);
        match derived {
            Err(f) => {
                let r = Err(f);
                assert(responder_outcome(
                    &e,
                    o,
                    contact_id@,
                    remote_identity@,
                    remote_ephemeral@,
                    message.deep_view(),
                    one_time_prekey_id,
                    kem.deep_view(),
                    k,
                    Err::<ReceivedView, Seq<char>>(Seq::empty()),
                    self@,
                    vecs::outcome_bytes(r),
                ));
                r
            },
            Ok((public, shared)) => {
                let pq = Some(
                    PqxdhInput {
                        shared_secret: shared,
                        kyber_public: public,
                        kem_ciphertext: vecs::bytes(kem.kem_ciphertext),
                    },
                );
                let opened = self.lifecycle.client.init_receiving_session_with_ephemeral(
                    contact_id,
                    remote_identity,
                    remote_ephemeral,
                    message,
                    one_time_prekey_id,
                    &pq,
                );
                let ghost reply = choose|reply: Result<ReceivedView, Seq<char>>|
                    engine::said_open_responder(
                        &e,
                        o.life.client.keys,
                        o.life.client.local_user_id,
                        contact_id@,
                        remote_identity@,
                        remote_ephemeral@,
                        message.deep_view(),
                        one_time_prekey_id,
                        pq.deep_view(),
                        reply,
                    ) && (self.lifecycle.client@, vecs::outcome_bytes(opened))
                        == #[trigger] client_api::receive_step(
                        o.life.client,
                        contact_id@,
                        one_time_prekey_id,
                        reply,
                    );
                match opened {
                    Err(f) => {
                        assert(self@ =~= o);
                        let r = Err(f);
                        assert(responder_outcome(
                            &e,
                            o,
                            contact_id@,
                            remote_identity@,
                            remote_ephemeral@,
                            message.deep_view(),
                            one_time_prekey_id,
                            kem.deep_view(),
                            k,
                            reply,
                            self@,
                            vecs::outcome_bytes(r),
                        ));
                        r
                    },
                    Ok(plaintext) => {
                        self.after_responder_init(contact_id, kem.kyber_prekey_id);
                        let r = Ok(plaintext);
                        assert(responder_outcome(
                            &e,
                            o,
                            contact_id@,
                            remote_identity@,
                            remote_ephemeral@,
                            message.deep_view(),
                            one_time_prekey_id,
                            kem.deep_view(),
                            k,
                            reply,
                            self@,
                            vecs::outcome_bytes(r),
                        ));
                        r
                    },
                }
            },
        }
    }

    /// Verifies the initiator's signed prekey, and opens the session.
    fn open_verified(
        &mut self,
        contact_id: &str,
        bundle: &KeyBundle,
        prologue_bytes: Vec<u8>,
        message: &EncryptedRatchetMessage,
        one_time_prekey_id: u32,
        kem: ResponderKem<'_>,
    ) -> (r: Result<Vec<u8>, String>)
        requires
            prologue_bytes@ == handshake::prologue(bundle.suite_id),
        ensures
            exists|ok: bool| #[trigger]
                verified_may(
                    &old(self).lifecycle.client.engine,
                    old(self)@,
                    contact_id@,
                    bundle.deep_view(),
                    message.deep_view(),
                    one_time_prekey_id,
                    kem.deep_view(),
                    ok,
                    final(self)@,
                    vecs::outcome_bytes(r),
                ),
            final(self).lifecycle.client.engine == old(self).lifecycle.client.engine,
            final(self).same_clocks(*old(self)),
    {
        let ghost o = self@;
        let ghost e = self.lifecycle.client.engine;
        let mut spk_msg = prologue_bytes;
        vecs::append_bytes(&mut spk_msg, bundle.signed_prekey_public.as_slice());
        let ok = self.lifecycle.client.engine.verify(
            bundle.verifying_key.as_slice(),
            spk_msg.as_slice(),
            bundle.signature.as_slice(),
        );
        assert(engine::said_verify(
            &e,
            bundle.verifying_key@,
            spk_message(bundle.suite_id, bundle.signed_prekey_public@),
            bundle.signature@,
            ok,
        ));
        let r = if ok {
            self.complete_responder_init(
                contact_id,
                bundle.identity_public.as_slice(),
                &message.dh_public_key,
                message,
                one_time_prekey_id,
                kem,
            )
        } else {
            Err("invalid signed prekey signature from initiator".to_owned())
        };
        assert(verified_may(
            &e,
            o,
            contact_id@,
            bundle.deep_view(),
            message.deep_view(),
            one_time_prekey_id,
            kem.deep_view(),
            ok,
            self@,
            vecs::outcome_bytes(r),
        ));
        r
    }

    /// Opens a session with this device from its first message. Returns the device and the
    /// plaintext of the message.
    pub fn init_receiving_session_with_msg(
        &mut self,
        contact_id: &str,
        public_bundle: &X3DHPublicKeyBundle,
        first_message: &IncomingFirstMessage,
    ) -> (r: Result<(String, Vec<u8>), String>)
        ensures
            received_may(
                &old(self).lifecycle.client.engine,
                old(self)@,
                contact_id@,
                public_bundle.deep_view(),
                first_message.deep_view(),
                final(self)@,
                opened_plain(r),
            ),
            r matches Ok(p) ==> p.0@ == contact_id@,
            final(self).lifecycle.client.engine == old(self).lifecycle.client.engine,
            final(self).same_clocks(*old(self)),
    {
        let message = match assemble(
            first_message.ephemeral_public_key.as_slice(),
            first_message.message_number,
            first_message.content.as_slice(),
            first_message.suite_id,
            first_message.pq_message_epoch,
            clone_opt_field(&first_message.pq_ratchet_field),
        ) {
            Ok(m) => m,
            Err(e) => {
                return Err(e);
            },
        };
        let ghost o = self@;
        let ghost e = self.lifecycle.client.engine;
        let ghost f = first_message.deep_view();
        assert(messaging::assembled(
            f.ephemeral_public_key,
            f.message_number,
            f.content,
            f.suite_id,
            f.pq_message_epoch,
            f.pq_ratchet_field,
        ) == Ok::<RatchetMessageView, Seq<char>>(message.deep_view()));
        let bundle = KeyBundle {
            identity_public: vecs::bytes(public_bundle.identity_public.as_slice()),
            signed_prekey_public: vecs::bytes(public_bundle.signed_prekey_public.as_slice()),
            signature: vecs::bytes(public_bundle.signature.as_slice()),
            verifying_key: vecs::bytes(public_bundle.verifying_key.as_slice()),
            suite_id: public_bundle.suite_id.as_u16(),
        };
        assert(bundle.deep_view() == key_part(public_bundle.deep_view()));
        let prologue_bytes = build_prologue(public_bundle.suite_id);
        let kem = ResponderKem {
            pqxdh_v2: first_message.pqxdh_v2,
            kyber_prekey_id: first_message.kyber_prekey_id,
            kem_ciphertext: first_message.kem_ciphertext.as_slice(),
        };
        assert(kem.deep_view() == kem_part(first_message.deep_view()));
        let opened = self.open_verified(
            contact_id,
            &bundle,
            prologue_bytes,
            &message,
            first_message.one_time_prekey_id,
            kem,
        );
        let ghost plain = vecs::outcome_bytes(opened);
        let ghost ok = choose|ok: bool| #[trigger]
            verified_may(
                &e,
                o,
                contact_id@,
                bundle.deep_view(),
                message.deep_view(),
                first_message.one_time_prekey_id,
                kem.deep_view(),
                ok,
                self@,
                plain,
            );
        let r = match opened {
            Ok(plaintext) => Ok((contact_id.to_owned(), plaintext)),
            Err(e) => Err(e),
        };
        assert(opened_plain(r) == plain);
        assert(verified_may(
            &e,
            o,
            contact_id@,
            key_part(public_bundle.deep_view()),
            message.deep_view(),
            f.one_time_prekey_id,
            kem_part(f),
            ok,
            self@,
            opened_plain(r),
        ));
        r
    }

    /// Opens a session with this device from a raw wire payload. Returns the device and the
    /// plaintext of the message.
    pub fn init_receiving_session_from_wire_payload(
        &mut self,
        contact_id: &str,
        recipient_bundle: &KeyBundle,
        wire_payload: &[u8],
    ) -> (r: Result<(String, Vec<u8>), String>)
        ensures
            wire_received_may(
                &old(self).lifecycle.client.engine,
                old(self)@,
                contact_id@,
                recipient_bundle.deep_view(),
                wire_payload@,
                final(self)@,
                opened_plain(r),
            ),
            r matches Ok(p) ==> p.0@ == contact_id@,
            final(self).lifecycle.client.engine == old(self).lifecycle.client.engine,
            final(self).same_clocks(*old(self)),
    {
        let decoded = match unpack(wire_payload) {
            Ok(d) => d,
            Err(e) => {
                let name = e.to_name();
                return Err(join("wire_payload unpack failed: ", name.as_str()));
            },
        };
        let message = match to_ratchet_message(&decoded) {
            Ok(m) => m,
            Err(MessageFault::ShortBox) => {
                return Err("sealed_box too short in wire_payload".to_owned());
            },
            Err(MessageFault::KeyLength) => {
                return Err("dh_public_key must be 32 bytes".to_owned());
            },
        };
        let suite = match SuiteID::new(recipient_bundle.suite_id) {
            Ok(s) => s,
            Err(_) => {
                return Err("invalid suite_id".to_owned());
            },
        };
        let prologue_bytes = build_prologue(suite);
        let ghost f = decoded.deep_view();
        let pqxdh_v2 = decoded.pqxdh_v2();
        let kem_ciphertext = match decoded.kem_ciphertext {
            Some(k) => k,
            None => Vec::new(),
        };
        let kem = ResponderKem {
            pqxdh_v2,
            kyber_prekey_id: decoded.kyber_otpk_id,
            kem_ciphertext: kem_ciphertext.as_slice(),
        };
        assert(kem.deep_view() == kem_part(first_of(f)));
        match self.open_verified(
            contact_id,
            recipient_bundle,
            prologue_bytes,
            &message,
            decoded.one_time_prekey_id,
            kem,
        ) {
            Ok(plaintext) => Ok((contact_id.to_owned(), plaintext)),
            Err(e) => Err(e),
        }
    }
}

// ── Laws ────────────────────────────────────────────────────────────────────

/// A first message that does not open a session leaves nothing behind.
pub proof fn a_first_message_that_fails_leaves_nothing_behind<E: CryptoEngine>(
    engine: &E,
    o: OrchView,
    contact: Seq<char>,
    bundle: BundleView,
    first: FirstView,
    next: OrchView,
    result: Result<Seq<u8>, Seq<char>>,
)
    requires
        received_may(engine, o, contact, bundle, first, next, result),
        result is Err,
    ensures
        next == o,
{
}

/// A payload that does not open a session leaves nothing behind.
pub proof fn a_payload_that_fails_leaves_nothing_behind<E: CryptoEngine>(
    engine: &E,
    o: OrchView,
    contact: Seq<char>,
    bundle: KeyBundleView,
    payload: Seq<u8>,
    next: OrchView,
    result: Result<Seq<u8>, Seq<char>>,
)
    requires
        wire_received_may(engine, o, contact, bundle, payload, next, result),
        result is Err,
    ensures
        next == o,
{
}

/// A first message opens a session only with a PQXDH v2 handshake on the mandatory suite, with a
/// prekey that is held; and the session is labelled so.
pub proof fn a_received_session_is_post_quantum<E: CryptoEngine>(
    engine: &E,
    o: OrchView,
    contact: Seq<char>,
    bundle: BundleView,
    first: FirstView,
    next: OrchView,
    result: Result<Seq<u8>, Seq<char>>,
)
    requires
        received_may(engine, o, contact, bundle, first, next, result),
        result is Ok,
    ensures
        first.pqxdh_v2,
        first.kem_ciphertext.len() > 0,
        first.suite_id == PQ_RATCHET_SUITE,
        kyber_prekeys::kyber_find(o.life.client.keys.kyber, first.kyber_prekey_id) is Some,
        next.life.client.sessions.contains_key(contact),
        first.kyber_prekey_id != 0 ==> next.life.client.sessions[contact].pq_handshake
            == PqHandshake::InitialV2,
{
}

/// Opening a session from a first message touches nothing but the client's keys and sessions: what
/// waits, what was processed and the phases stay as they were.
pub proof fn a_first_message_touches_only_the_client<E: CryptoEngine>(
    engine: &E,
    o: OrchView,
    contact: Seq<char>,
    bundle: BundleView,
    first: FirstView,
    next: OrchView,
    result: Result<Seq<u8>, Seq<char>>,
)
    requires
        received_may(engine, o, contact, bundle, first, next, result),
    ensures
        next.router == o.router,
        next.machine == o.machine,
        next.holds == o.holds,
        next.life == (LifeView { client: next.life.client, ..o.life }),
        result is Ok ==> next.life.client.sessions.contains_key(contact),
{
}

/// A one-time Kyber prekey opens one session: it is burned with the session it opened, no other key
/// is, the burn is marked to be persisted, and no first message that names it is derived again.
pub proof fn a_one_time_key_opens_one_session<E: CryptoEngine>(
    engine: &E,
    o: OrchView,
    contact: Seq<char>,
    bundle: BundleView,
    first: FirstView,
    next: OrchView,
    result: Result<Seq<u8>, Seq<char>>,
    suite_id: u16,
    again: KemView,
)
    requires
        received_may(engine, o, contact, bundle, first, next, result),
        result is Ok,
        first.kyber_prekey_id >= KYBER_OTPK_ID_START,
        kyber_prekeys::well_numbered(o.life.client.keys.kyber),
        again.kyber_prekey_id == first.kyber_prekey_id,
    ensures
        next.kyber_dirty,
        next.life.client.keys.kyber.otpks.len() == o.life.client.keys.kyber.otpks.len() - 1,
        kyber_prekeys::well_numbered(next.life.client.keys.kyber),
        kem_key(next.life.client.keys.kyber, suite_id, again) is Err,
{
    let k = o.life.client.keys.kyber;
    kyber_prekeys::a_burned_key_is_gone(k, first.kyber_prekey_id);
    kyber_prekeys::a_burn_takes_one_key(k, first.kyber_prekey_id);
    kyber_prekeys::a_one_time_id_is_no_signed_one(k, first.kyber_prekey_id);
    kyber_prekeys::prekeys_stay_well_numbered(
        k,
        first.kyber_prekey_id,
        Seq::empty(),
        Seq::empty(),
        0,
    );
}

} // verus!
