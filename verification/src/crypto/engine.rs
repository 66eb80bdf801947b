//! The arithmetic behind keys, signatures and ratchets.
//!
//! Everything the orchestration decides, it decides over plain values; what only cryptography can
//! compute it asks of a `CryptoEngine`. The trait makes no promise about a reply: each function that
//! asks one says what it does with the reply, whatever it is.

use vstd::prelude::*;

use crate::crypto::handshake::{
    BundleView, Encapsulation, EncapsulationView, PqxdhInput, PqxdhView, X3DHPublicKeyBundle,
};
use crate::crypto::keys::{KeyManager, KeyPair, KeysView, OtpkBundle, OtpkBundleView, PairView};
use crate::crypto::kyber_prekeys::{KyberPrekeys, KyberView};
use crate::crypto::messaging::double_ratchet::{
    EncryptedRatchetMessage, RatchetMessageView, Session, SessionView,
};
use crate::orchestration::pq_contribution::{DeferredEntry, DeferredView};
use crate::orchestration::state::{self, OrchestratorState, StateView};
use crate::vecs;

verus! {

/// A session the engine has opened.
#[derive(Debug)]
pub struct OpenedSession {
    pub session_id: String,
    pub suite_id: u16,
    pub ratchet: Vec<u8>,
}

/// A message the engine has encrypted, and the ratchet after it.
#[derive(Debug)]
pub struct Encrypted {
    pub message: EncryptedRatchetMessage,
    pub ratchet: Vec<u8>,
}

/// A message the engine has decrypted, and the ratchet after it.
#[derive(Debug)]
pub struct Decrypted {
    pub plaintext: Vec<u8>,
    pub ratchet: Vec<u8>,
}

/// A responder session the engine has opened from a first message, and that message's plaintext.
#[derive(Debug)]
pub struct Received {
    pub session: OpenedSession,
    pub plaintext: Vec<u8>,
}

/// Why bytes are not the binary record of a session, with the decoder's words.
#[derive(Debug)]
pub enum UnreadableSession {
    /// The text form sessions were once saved in.
    Legacy(String),
    /// Not a record of a session at all.
    Undecodable(String),
    /// A record of a session whose contents do not make one.
    Malformed(String),
}

/// An `UnreadableSession` by its text.
pub enum UnreadableView {
    Legacy(Seq<char>),
    Undecodable(Seq<char>),
    Malformed(Seq<char>),
}

impl DeepView for UnreadableSession {
    type V = UnreadableView;

    open spec fn deep_view(&self) -> UnreadableView {
        match self {
            UnreadableSession::Legacy(e) => UnreadableView::Legacy(e@),
            UnreadableSession::Undecodable(e) => UnreadableView::Undecodable(e@),
            UnreadableSession::Malformed(e) => UnreadableView::Malformed(e@),
        }
    }
}

/// What reading the binary record of a session came to.
pub open spec fn decoded_session(r: Result<Session, UnreadableSession>) -> Result<
    SessionView,
    UnreadableView,
> {
    match r {
        Ok(s) => Ok(s.deep_view()),
        Err(e) => Err(e.deep_view()),
    }
}

/// An `OpenedSession` by what its fields hold.
pub struct OpenedView {
    pub session_id: Seq<char>,
    pub suite_id: u16,
    pub ratchet: Seq<u8>,
}

impl DeepView for OpenedSession {
    type V = OpenedView;

    open spec fn deep_view(&self) -> OpenedView {
        OpenedView {
            session_id: self.session_id@,
            suite_id: self.suite_id,
            ratchet: self.ratchet@,
        }
    }
}

/// An `Encrypted` by what its fields hold.
pub struct EncryptedView {
    pub message: RatchetMessageView,
    pub ratchet: Seq<u8>,
}

impl DeepView for Encrypted {
    type V = EncryptedView;

    open spec fn deep_view(&self) -> EncryptedView {
        EncryptedView { message: self.message.deep_view(), ratchet: self.ratchet@ }
    }
}

/// A `Decrypted` by what its fields hold.
pub struct DecryptedView {
    pub plaintext: Seq<u8>,
    pub ratchet: Seq<u8>,
}

impl DeepView for Decrypted {
    type V = DecryptedView;

    open spec fn deep_view(&self) -> DecryptedView {
        DecryptedView { plaintext: self.plaintext@, ratchet: self.ratchet@ }
    }
}

/// A `Received` by what its fields hold.
pub struct ReceivedView {
    pub session: OpenedView,
    pub plaintext: Seq<u8>,
}

impl DeepView for Received {
    type V = ReceivedView;

    open spec fn deep_view(&self) -> ReceivedView {
        ReceivedView { session: self.session.deep_view(), plaintext: self.plaintext@ }
    }
}

/// What only cryptography can compute. Errors are texts.
pub trait CryptoEngine {
    /// A fresh X25519 key pair.
    fn new_kem_pair(&self) -> Result<KeyPair, String>;

    /// A fresh Ed25519 key pair.
    fn new_signing_pair(&self) -> Result<KeyPair, String>;

    /// A fresh hybrid (Ed25519 + ML-DSA-65) key pair.
    fn new_hybrid_pair(&self) -> Result<KeyPair, String>;

    /// A fresh ML-KEM-1024 seed.
    fn new_kyber_seed(&self) -> Result<Vec<u8>, String>;

    /// The public key of an ML-KEM-1024 seed.
    fn kyber_public(&self, seed: &[u8]) -> Result<Vec<u8>, String>;

    /// An Ed25519 signature.
    fn sign(&self, secret: &[u8], message: &[u8]) -> Result<Vec<u8>, String>;

    /// Whether an Ed25519 signature verifies.
    fn verify(&self, public: &[u8], message: &[u8], signature: &[u8]) -> bool;

    /// A hybrid signature.
    fn sign_hybrid(&self, secret: &[u8], message: &[u8]) -> Result<Vec<u8>, String>;

    /// Whether a hybrid signature verifies.
    fn verify_hybrid(&self, public: &[u8], message: &[u8], signature: &[u8]) -> bool;

    /// The public half of a hybrid private key.
    fn hybrid_public(&self, secret: &[u8]) -> Result<Vec<u8>, String>;

    /// The message that binds a hybrid identity key to an Ed25519 identity.
    fn hybrid_bind_message(&self, hybrid_public: &[u8]) -> Vec<u8>;

    /// Encapsulates to an ML-KEM-1024 public key.
    fn encapsulate(&self, kyber_public: &[u8]) -> Result<Encapsulation, String>;

    /// Decapsulates with an ML-KEM-1024 seed.
    fn decapsulate(&self, seed: &[u8], ciphertext: &[u8]) -> Result<Vec<u8>, String>;

    /// The device id an identity key derives to.
    fn derive_device_id(&self, identity_public: &[u8]) -> String;

    /// Opens a session as INITIATOR. Verifies the bundle's signed prekey.
    fn open_initiator(
        &self,
        keys: &KeyManager,
        local_user_id: &str,
        contact_id: &str,
        bundle: &X3DHPublicKeyBundle,
        one_time_prekey_id: u32,
        allow_stale: bool,
        pq: &Option<PqxdhInput>,
    ) -> Result<OpenedSession, String>;

    /// Opens a session as RESPONDER from a first message.
    fn open_responder(
        &self,
        keys: &KeyManager,
        local_user_id: &str,
        contact_id: &str,
        remote_identity: &[u8],
        remote_ephemeral: &[u8],
        message: &EncryptedRatchetMessage,
        one_time_prekey_id: u32,
        pq: &Option<PqxdhInput>,
    ) -> Result<Received, String>;

    /// Encrypts the next message of a session.
    fn encrypt(&self, session: &Session, plaintext: &[u8]) -> Result<Encrypted, String>;

    /// Decrypts a message of a session.
    fn decrypt(&self, session: &Session, message: &EncryptedRatchetMessage) -> Result<
        Decrypted,
        String,
    >;

    /// Mixes a deferred ML-KEM secret into the ratchet of a session.
    fn mix_pq_contribution(&self, session: &Session, shared_secret: &[u8]) -> Result<
        Vec<u8>,
        String,
    >;

    /// A session as a binary record.
    fn encode_session(&self, session: &Session) -> Result<Vec<u8>, String>;

    /// A session from its binary record, or why it is none.
    fn decode_session(&self, data: &[u8]) -> Result<Session, UnreadableSession>;

    /// A session from the text form sessions were once saved in.
    fn decode_legacy_session(&self, data: &[u8]) -> Result<Session, String>;

    /// The coordination state as a binary record.
    fn encode_state(&self, state: &OrchestratorState) -> Result<Vec<u8>, String>;

    /// The coordination state from its binary record.
    fn decode_state(&self, data: &[u8]) -> Result<OrchestratorState, String>;

    /// The deferred contributions as a binary record.
    fn encode_deferred(&self, entries: &Vec<DeferredEntry>) -> Result<Vec<u8>, String>;

    /// The deferred contributions from their binary record.
    fn decode_deferred(&self, data: &[u8]) -> Result<Vec<DeferredEntry>, String>;

    /// The Kyber prekeys as a binary record.
    fn encode_kyber_prekeys(&self, prekeys: &KyberPrekeys) -> Result<Vec<u8>, String>;

    /// The Kyber prekeys from their binary record.
    fn decode_kyber_prekeys(&self, data: &[u8]) -> Result<KyberPrekeys, String>;

    /// The one-time prekeys, and the id of the next, as a binary record.
    fn encode_otpks(&self, bundle: &OtpkBundle) -> Result<Vec<u8>, String>;

    /// The one-time prekeys, and the id of the next, from their binary record.
    fn decode_otpks(&self, data: &[u8]) -> Result<OtpkBundle, String>;

    /// The registration bundle as a binary record.
    fn encode_registration_bundle(&self, bundle: &X3DHPublicKeyBundle) -> Result<Vec<u8>, String>;

    /// The private keys as a binary record.
    fn encode_private_keys(&self, keys: &KeyManager) -> Result<Vec<u8>, String>;
}

// ── Questions and replies ───────────────────────────────────────────────────
//
// `reply` is an answer the engine may give when it is asked exactly this.

/// A reply to `new_kem_pair`.
pub open spec fn said_new_kem_pair<E: CryptoEngine>(
    engine: &E,
    reply: Result<PairView, Seq<char>>,
) -> bool {
    exists|r: Result<KeyPair, String>| #[trigger]
        call_ensures(E::new_kem_pair, (engine,), r) && vecs::outcome(r) == reply
}

/// A reply to `new_signing_pair`.
pub open spec fn said_new_signing_pair<E: CryptoEngine>(
    engine: &E,
    reply: Result<PairView, Seq<char>>,
) -> bool {
    exists|r: Result<KeyPair, String>| #[trigger]
        call_ensures(E::new_signing_pair, (engine,), r) && vecs::outcome(r) == reply
}

/// A reply to `new_hybrid_pair`.
pub open spec fn said_new_hybrid_pair<E: CryptoEngine>(
    engine: &E,
    reply: Result<PairView, Seq<char>>,
) -> bool {
    exists|r: Result<KeyPair, String>| #[trigger]
        call_ensures(E::new_hybrid_pair, (engine,), r) && vecs::outcome(r) == reply
}

/// A reply to `new_kyber_seed`.
pub open spec fn said_new_kyber_seed<E: CryptoEngine>(
    engine: &E,
    reply: Result<Seq<u8>, Seq<char>>,
) -> bool {
    exists|r: Result<Vec<u8>, String>| #[trigger]
        call_ensures(E::new_kyber_seed, (engine,), r) && vecs::outcome_bytes(r) == reply
}

/// A reply to `kyber_public`.
pub open spec fn said_kyber_public<E: CryptoEngine>(
    engine: &E,
    seed: Seq<u8>,
    reply: Result<Seq<u8>, Seq<char>>,
) -> bool {
    exists|a: &[u8], r: Result<Vec<u8>, String>| #[trigger]
        call_ensures(E::kyber_public, (engine, a), r) && a@ == seed
            && vecs::outcome_bytes(r) == reply
}

/// A reply to `sign`.
pub open spec fn said_sign<E: CryptoEngine>(
    engine: &E,
    secret: Seq<u8>,
    message: Seq<u8>,
    reply: Result<Seq<u8>, Seq<char>>,
) -> bool {
    exists|a: &[u8], b: &[u8], r: Result<Vec<u8>, String>| #[trigger]
        call_ensures(E::sign, (engine, a, b), r) && a@ == secret && b@ == message
            && vecs::outcome_bytes(r) == reply
}

/// A reply to `verify`.
pub open spec fn said_verify<E: CryptoEngine>(
    engine: &E,
    public: Seq<u8>,
    message: Seq<u8>,
    signature: Seq<u8>,
    reply: bool,
) -> bool {
    exists|a: &[u8], b: &[u8], c: &[u8]| #[trigger]
        call_ensures(E::verify, (engine, a, b, c), reply) && a@ == public && b@ == message
            && c@ == signature
}

/// A reply to `sign_hybrid`.
pub open spec fn said_sign_hybrid<E: CryptoEngine>(
    engine: &E,
    secret: Seq<u8>,
    message: Seq<u8>,
    reply: Result<Seq<u8>, Seq<char>>,
) -> bool {
    exists|a: &[u8], b: &[u8], r: Result<Vec<u8>, String>| #[trigger]
        call_ensures(E::sign_hybrid, (engine, a, b), r) && a@ == secret && b@ == message
            && vecs::outcome_bytes(r) == reply
}

/// A reply to `verify_hybrid`.
pub open spec fn said_verify_hybrid<E: CryptoEngine>(
    engine: &E,
    public: Seq<u8>,
    message: Seq<u8>,
    signature: Seq<u8>,
    reply: bool,
) -> bool {
    exists|a: &[u8], b: &[u8], c: &[u8]| #[trigger]
        call_ensures(E::verify_hybrid, (engine, a, b, c), reply) && a@ == public && b@ == message
            && c@ == signature
}

/// A reply to `hybrid_public`.
pub open spec fn said_hybrid_public<E: CryptoEngine>(
    engine: &E,
    secret: Seq<u8>,
    reply: Result<Seq<u8>, Seq<char>>,
) -> bool {
    exists|a: &[u8], r: Result<Vec<u8>, String>| #[trigger]
        call_ensures(E::hybrid_public, (engine, a), r) && a@ == secret
            && vecs::outcome_bytes(r) == reply
}

/// A reply to `hybrid_bind_message`.
pub open spec fn said_hybrid_bind_message<E: CryptoEngine>(
    engine: &E,
    hybrid_public: Seq<u8>,
    reply: Seq<u8>,
) -> bool {
    exists|a: &[u8], r: Vec<u8>| #[trigger]
        call_ensures(E::hybrid_bind_message, (engine, a), r) && a@ == hybrid_public && r@ == reply
}

/// A reply to `encapsulate`.
pub open spec fn said_encapsulate<E: CryptoEngine>(
    engine: &E,
    kyber_public: Seq<u8>,
    reply: Result<EncapsulationView, Seq<char>>,
) -> bool {
    exists|a: &[u8], r: Result<Encapsulation, String>| #[trigger]
        call_ensures(E::encapsulate, (engine, a), r) && a@ == kyber_public
            && vecs::outcome(r) == reply
}

/// A reply to `decapsulate`.
pub open spec fn said_decapsulate<E: CryptoEngine>(
    engine: &E,
    seed: Seq<u8>,
    ciphertext: Seq<u8>,
    reply: Result<Seq<u8>, Seq<char>>,
) -> bool {
    exists|a: &[u8], b: &[u8], r: Result<Vec<u8>, String>| #[trigger]
        call_ensures(E::decapsulate, (engine, a, b), r) && a@ == seed && b@ == ciphertext
            && vecs::outcome_bytes(r) == reply
}

/// A reply to `derive_device_id`.
pub open spec fn said_derive_device_id<E: CryptoEngine>(
    engine: &E,
    identity_public: Seq<u8>,
    reply: Seq<char>,
) -> bool {
    exists|a: &[u8], r: String| #[trigger]
        call_ensures(E::derive_device_id, (engine, a), r) && a@ == identity_public && r@ == reply
}

/// A reply to `open_initiator`.
pub open spec fn said_open_initiator<E: CryptoEngine>(
    engine: &E,
    keys: KeysView,
    local_user_id: Seq<char>,
    contact_id: Seq<char>,
    bundle: BundleView,
    one_time_prekey_id: u32,
    allow_stale: bool,
    pq: Option<PqxdhView>,
    reply: Result<OpenedView, Seq<char>>,
) -> bool {
    exists|
        a: &KeyManager,
        b: &str,
        c: &str,
        d: &X3DHPublicKeyBundle,
        e: &Option<PqxdhInput>,
        r: Result<OpenedSession, String>,
    | #[trigger]
        call_ensures(E::open_initiator, (engine, a, b, c, d, one_time_prekey_id, allow_stale, e), r)
            && a.deep_view() == keys && b@ == local_user_id && c@ == contact_id
            && d.deep_view() == bundle && e.deep_view() == pq && vecs::outcome(r) == reply
}

/// A reply to `open_responder`.
pub open spec fn said_open_responder<E: CryptoEngine>(
    engine: &E,
    keys: KeysView,
    local_user_id: Seq<char>,
    contact_id: Seq<char>,
    remote_identity: Seq<u8>,
    remote_ephemeral: Seq<u8>,
    message: RatchetMessageView,
    one_time_prekey_id: u32,
    pq: Option<PqxdhView>,
    reply: Result<ReceivedView, Seq<char>>,
) -> bool {
    exists|
        a: &KeyManager,
        b: &str,
        c: &str,
        d: &[u8],
        e: &[u8],
        f: &EncryptedRatchetMessage,
        g: &Option<PqxdhInput>,
        r: Result<Received, String>,
    | #[trigger]
        call_ensures(E::open_responder, (engine, a, b, c, d, e, f, one_time_prekey_id, g), r)
            && a.deep_view() == keys && b@ == local_user_id && c@ == contact_id
            && d@ == remote_identity && e@ == remote_ephemeral && f.deep_view() == message
            && g.deep_view() == pq && vecs::outcome(r) == reply
}

/// A reply to `encrypt`.
pub open spec fn said_encrypt<E: CryptoEngine>(
    engine: &E,
    session: SessionView,
    plaintext: Seq<u8>,
    reply: Result<EncryptedView, Seq<char>>,
) -> bool {
    exists|a: &Session, b: &[u8], r: Result<Encrypted, String>| #[trigger]
        call_ensures(E::encrypt, (engine, a, b), r) && a.deep_view() == session && b@ == plaintext
            && vecs::outcome(r) == reply
}

/// A reply to `decrypt`.
pub open spec fn said_decrypt<E: CryptoEngine>(
    engine: &E,
    session: SessionView,
    message: RatchetMessageView,
    reply: Result<DecryptedView, Seq<char>>,
) -> bool {
    exists|a: &Session, b: &EncryptedRatchetMessage, r: Result<Decrypted, String>| #[trigger]
        call_ensures(E::decrypt, (engine, a, b), r) && a.deep_view() == session
            && b.deep_view() == message && vecs::outcome(r) == reply
}

/// A reply to `mix_pq_contribution`.
pub open spec fn said_mix_pq_contribution<E: CryptoEngine>(
    engine: &E,
    session: SessionView,
    shared_secret: Seq<u8>,
    reply: Result<Seq<u8>, Seq<char>>,
) -> bool {
    exists|a: &Session, b: &[u8], r: Result<Vec<u8>, String>| #[trigger]
        call_ensures(E::mix_pq_contribution, (engine, a, b), r) && a.deep_view() == session
            && b@ == shared_secret && vecs::outcome_bytes(r) == reply
}

/// A reply to `encode_session`.
pub open spec fn said_encode_session<E: CryptoEngine>(
    engine: &E,
    session: SessionView,
    reply: Result<Seq<u8>, Seq<char>>,
) -> bool {
    exists|a: &Session, r: Result<Vec<u8>, String>| #[trigger]
        call_ensures(E::encode_session, (engine, a), r) && a.deep_view() == session
            && vecs::outcome_bytes(r) == reply
}

/// A reply to `decode_session`.
pub open spec fn said_decode_session<E: CryptoEngine>(
    engine: &E,
    data: Seq<u8>,
    reply: Result<SessionView, UnreadableView>,
) -> bool {
    exists|a: &[u8], r: Result<Session, UnreadableSession>| #[trigger]
        call_ensures(E::decode_session, (engine, a), r) && a@ == data && decoded_session(r)
            == reply
}

/// A reply to `decode_legacy_session`.
pub open spec fn said_decode_legacy_session<E: CryptoEngine>(
    engine: &E,
    data: Seq<u8>,
    reply: Result<SessionView, Seq<char>>,
) -> bool {
    exists|a: &[u8], r: Result<Session, String>| #[trigger]
        call_ensures(E::decode_legacy_session, (engine, a), r) && a@ == data && vecs::outcome(r)
            == reply
}

/// A reply to `encode_state`.
pub open spec fn said_encode_state<E: CryptoEngine>(
    engine: &E,
    state: StateView,
    reply: Result<Seq<u8>, Seq<char>>,
) -> bool {
    exists|a: &OrchestratorState, r: Result<Vec<u8>, String>| #[trigger]
        call_ensures(E::encode_state, (engine, a), r) && a.deep_view() == state
            && vecs::outcome_bytes(r) == reply
}

/// A reply to `decode_state`.
pub open spec fn said_decode_state<E: CryptoEngine>(
    engine: &E,
    data: Seq<u8>,
    reply: Result<StateView, Seq<char>>,
) -> bool {
    exists|a: &[u8], r: Result<OrchestratorState, String>| #[trigger]
        call_ensures(E::decode_state, (engine, a), r) && a@ == data && vecs::outcome(r) == reply
}

/// A reply to `encode_deferred`.
pub open spec fn said_encode_deferred<E: CryptoEngine>(
    engine: &E,
    entries: Seq<(Seq<char>, DeferredView)>,
    reply: Result<Seq<u8>, Seq<char>>,
) -> bool {
    exists|a: &Vec<DeferredEntry>, r: Result<Vec<u8>, String>| #[trigger]
        call_ensures(E::encode_deferred, (engine, a), r) && a.deep_view() == entries
            && vecs::outcome_bytes(r) == reply
}

/// A reply to `decode_deferred`.
pub open spec fn said_decode_deferred<E: CryptoEngine>(
    engine: &E,
    data: Seq<u8>,
    reply: Result<Seq<(Seq<char>, DeferredView)>, Seq<char>>,
) -> bool {
    exists|a: &[u8], r: Result<Vec<DeferredEntry>, String>| #[trigger]
        call_ensures(E::decode_deferred, (engine, a), r) && a@ == data && vecs::outcome(r) == reply
}

/// A reply to `encode_kyber_prekeys`.
pub open spec fn said_encode_kyber_prekeys<E: CryptoEngine>(
    engine: &E,
    prekeys: KyberView,
    reply: Result<Seq<u8>, Seq<char>>,
) -> bool {
    exists|a: &KyberPrekeys, r: Result<Vec<u8>, String>| #[trigger]
        call_ensures(E::encode_kyber_prekeys, (engine, a), r) && a.deep_view() == prekeys
            && vecs::outcome_bytes(r) == reply
}

/// A reply to `decode_kyber_prekeys`.
pub open spec fn said_decode_kyber_prekeys<E: CryptoEngine>(
    engine: &E,
    data: Seq<u8>,
    reply: Result<KyberView, Seq<char>>,
) -> bool {
    exists|a: &[u8], r: Result<KyberPrekeys, String>| #[trigger]
        call_ensures(E::decode_kyber_prekeys, (engine, a), r) && a@ == data
            && vecs::outcome(r) == reply
}

/// A reply to `encode_otpks`.
pub open spec fn said_encode_otpks<E: CryptoEngine>(
    engine: &E,
    bundle: OtpkBundleView,
    reply: Result<Seq<u8>, Seq<char>>,
) -> bool {
    exists|a: &OtpkBundle, r: Result<Vec<u8>, String>| #[trigger]
        call_ensures(E::encode_otpks, (engine, a), r) && a.deep_view() == bundle
            && vecs::outcome_bytes(r) == reply
}

/// A reply to `decode_otpks`.
pub open spec fn said_decode_otpks<E: CryptoEngine>(
    engine: &E,
    data: Seq<u8>,
    reply: Result<OtpkBundleView, Seq<char>>,
) -> bool {
    exists|a: &[u8], r: Result<OtpkBundle, String>| #[trigger]
        call_ensures(E::decode_otpks, (engine, a), r) && a@ == data && vecs::outcome(r) == reply
}

/// A reply to `encode_registration_bundle`.
pub open spec fn said_encode_registration_bundle<E: CryptoEngine>(
    engine: &E,
    bundle: BundleView,
    reply: Result<Seq<u8>, Seq<char>>,
) -> bool {
    exists|a: &X3DHPublicKeyBundle, r: Result<Vec<u8>, String>| #[trigger]
        call_ensures(E::encode_registration_bundle, (engine, a), r) && a.deep_view() == bundle
            && vecs::outcome_bytes(r) == reply
}

/// A reply to `encode_private_keys`.
pub open spec fn said_encode_private_keys<E: CryptoEngine>(
    engine: &E,
    keys: KeysView,
    reply: Result<Seq<u8>, Seq<char>>,
) -> bool {
    exists|a: &KeyManager, r: Result<Vec<u8>, String>| #[trigger]
        call_ensures(E::encode_private_keys, (engine, a), r) && a.deep_view() == keys
            && vecs::outcome_bytes(r) == reply
}

// ── What an engine may be relied on for ─────────────────────────────────────
//
// Nothing below is promised by the trait. A law that needs one of these says so.

/// A session this engine wrote is the session `reader` reads.
pub open spec fn keeps_sessions<E: CryptoEngine, R: CryptoEngine>(engine: &E, reader: &R) -> bool {
    forall|s: SessionView, data: Seq<u8>, d: Result<SessionView, UnreadableView>|
        #![trigger said_encode_session(engine, s, Ok(data)), said_decode_session(reader, data, d)]
        said_encode_session(engine, s, Ok(data)) && said_decode_session(reader, data, d) ==> d
            == Ok::<SessionView, UnreadableView>(s)
}

/// A coordination state this engine wrote is the state `reader` reads.
pub open spec fn keeps_states<E: CryptoEngine, R: CryptoEngine>(engine: &E, reader: &R) -> bool {
    forall|s: StateView, data: Seq<u8>, d: Result<StateView, Seq<char>>|
        #![trigger said_encode_state(engine, s, Ok(data)), said_decode_state(reader, data, d)]
        said_encode_state(engine, s, Ok(data)) && said_decode_state(reader, data, d) ==> d
            == Ok::<StateView, Seq<char>>(s)
}

/// The length of the record of a coordination state depends on what the state lists, and not on the
/// order it lists it in.
pub open spec fn sizes_by_content<E: CryptoEngine>(engine: &E) -> bool {
    forall|s: StateView, t: StateView, x: Seq<u8>, y: Seq<u8>|
        #![trigger said_encode_state(engine, s, Ok(x)), said_encode_state(engine, t, Ok(y))]
        state::same_content(s, t) && said_encode_state(engine, s, Ok(x)) && said_encode_state(
            engine,
            t,
            Ok(y),
        ) ==> x.len() == y.len()
}

/// What this engine seals on the session `ours`, `reader` opens on the session `theirs`.
pub open spec fn opens_what_is_sealed<E: CryptoEngine, R: CryptoEngine>(
    engine: &E,
    reader: &R,
    ours: SessionView,
    theirs: SessionView,
) -> bool {
    forall|plaintext: Seq<u8>, c: EncryptedView, d: Result<DecryptedView, Seq<char>>|
        #![trigger
            said_encrypt(engine, ours, plaintext, Ok(c)),
            said_decrypt(reader, theirs, c.message, d)]
        said_encrypt(engine, ours, plaintext, Ok(c)) && said_decrypt(reader, theirs, c.message, d)
            ==> (d matches Ok(x) && x.plaintext == plaintext)
}

/// A message opens once: the ratchet it leaves behind does not open it again.
pub open spec fn opens_once<E: CryptoEngine>(engine: &E) -> bool {
    forall|
        s: SessionView,
        m: RatchetMessageView,
        x: DecryptedView,
        d: Result<DecryptedView, Seq<char>>,
    |
        #![trigger said_decrypt(engine, s, m, Ok(x)), said_decrypt(engine, read_on(s, x), m, d)]
        said_decrypt(engine, s, m, Ok(x)) && said_decrypt(engine, read_on(s, x), m, d) ==> d is Err
}

/// The session after a message was read on it as `x`.
pub open spec fn read_on(s: SessionView, x: DecryptedView) -> SessionView {
    SessionView { ratchet: x.ratchet, prekey_header: None, ..s }
}

/// A message an engine sealed names a key of 32 bytes.
pub proof fn sealed_keys_have_their_length<E: CryptoEngine>(
    engine: &E,
    session: SessionView,
    plaintext: Seq<u8>,
    c: EncryptedView,
)
    requires
        said_encrypt(engine, session, plaintext, Ok(c)),
    ensures
        c.message.dh_public_key.len() == 32,
{
}

} // verus!
