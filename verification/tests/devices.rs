//! Devices that talk to each other: choosing prekeys, the life of sessions, events and decisions.

use std::collections::hash_map::RandomState;
use std::hash::{BuildHasher, Hasher};
use std::sync::atomic::{AtomicU64, Ordering};
use std::sync::Arc;

use construct_core::crypto::client_api::ClassicClient;
use construct_core::crypto::engine::{
    CryptoEngine, Decrypted, Encrypted, OpenedSession, Received, UnreadableSession,
};
use construct_core::crypto::handshake::{
    build_x3dh_sign_message, Encapsulation, PqxdhInput, X3DHPublicKeyBundle,
};
use construct_core::crypto::keys::{KeyManager, KeyPair, OneTimePrekey, OtpkBundle};
use construct_core::crypto::kyber_prekey_auth::{
    kyber_prekey_sign_message_v2, PqAuthentication, PqHandshake, KYBER_SPK_MAX_AGE_SECS,
};
use construct_core::crypto::kyber_prekeys::{
    KyberPrekey, KyberPrekeys, KYBER_OTPK_ID_START, KYBER_SPK_RETENTION_SECS, MLKEM1024_PK_SIZE,
};
use construct_core::crypto::messaging::double_ratchet::{
    EncryptedRatchetMessage, PrekeyHeader, Session, MESSAGE_KEY_CONSUMED,
};
use construct_core::orchestration::ack_store::AckCheckResult;
use construct_core::orchestration::actions::{Action, IncomingEvent, SecureStoreSlot};
use construct_core::orchestration::clock::Clock;
use construct_core::orchestration::healing_queue::{HealDirection, HealingDecision, HealingRecord};
use construct_core::orchestration::message_router::{
    IncomingMessage, Refused, Role, RoutingDecision, MAX_QUEUED_PER_CONTACT,
};
use construct_core::orchestration::orchestrator::decisions::{
    CT_CALL_SIGNAL, CT_DELIVERY_RECEIPT, CT_HEARTBEAT, DECRYPT_FAILED,
};
use construct_core::orchestration::orchestrator::holds::{held_opener_superseded, ConfirmHold};
use construct_core::orchestration::orchestrator::keyring::{IDS_EXHAUSTED, NO_HYBRID_KEY};
use construct_core::orchestration::orchestrator::messaging::OutgoingEncrypted;
use construct_core::orchestration::orchestrator::opening::KyberBundleKeys;
use construct_core::orchestration::orchestrator::responding::KeyBundle;
use construct_core::orchestration::orchestrator::timers::{
    PQ_UPGRADE_BATCH, PQ_UPGRADE_BATCH_INTERVAL_MS, PQ_UPGRADE_SWEEP_DELAY_MS,
};
use construct_core::orchestration::orchestrator::Orchestrator;
use construct_core::orchestration::pq_contribution::{DeferredContribution, DeferredEntry};
use construct_core::orchestration::pq_prekey_plan::{
    hybrid_identity_fingerprint, plan_pqxdh, KyberPrekeyOffer, PqxdhContext, PqxdhOffer,
    PqxdhRefusal,
};
use construct_core::orchestration::session_lifecycle::SessionLifecycleManager;
use construct_core::orchestration::session_machine::{
    Effect as SessionEffect, Event as SessionEvent, Phase, TearDownCause,
    END_SESSION_COOLDOWN_MS, OPENING_CONFIRM_WINDOW_MS, PEER_TEARDOWN_QUIET_MS, REOPEN_QUIET_MS,
    RESPONDER_OVERRIDE_MS, SRI_RETRY_MS,
};
use construct_core::orchestration::state::OrchestratorState;
use construct_core::orchestration::wire_message::WireMessage;
use construct_core::utils::time::{now, SystemClock};
use construct_core::wire_payload::{pack, unpack, HEADER_SIZE};
use sha2::{Digest, Sha256};

type Device = Orchestrator<SystemClock, ToyEngine>;

struct MockClock {
    now: AtomicU64,
}

impl MockClock {
    fn new(start: u64) -> Self {
        MockClock { now: AtomicU64::new(start) }
    }

    fn advance_ms(&self, ms: u64) {
        self.now.fetch_add(ms, Ordering::SeqCst);
    }
}

impl Clock for MockClock {
    fn now_ms(&self) -> u64 {
        self.now.load(Ordering::SeqCst)
    }
}

// ── A toy engine ────────────────────────────────────────────────────────────
//
// Keys are exponents of a small group, signatures and ciphers are digests: enough for two devices
// to agree on a key, and for everything else to fail.

const GROUP: u128 = (1 << 61) - 1;

fn digest(parts: &[&[u8]]) -> Vec<u8> {
    let mut h = Sha256::new();
    for p in parts {
        h.update((p.len() as u64).to_le_bytes());
        h.update(p);
    }
    h.finalize().to_vec()
}

fn expand(key: &[u8], len: usize) -> Vec<u8> {
    let mut out = Vec::new();
    let mut block = 0u64;
    while out.len() < len {
        out.extend(digest(&[b"expand", key, &block.to_le_bytes()]));
        block += 1;
    }
    out.truncate(len);
    out
}

fn xor(a: &[u8], b: &[u8]) -> Vec<u8> {
    a.iter().zip(b).map(|(x, y)| x ^ y).collect()
}

fn power(base: u64, mut exponent: u64) -> u64 {
    let mut acc: u128 = 1;
    let mut b = base as u128 % GROUP;
    while exponent > 0 {
        if exponent & 1 == 1 {
            acc = acc * b % GROUP;
        }
        b = b * b % GROUP;
        exponent >>= 1;
    }
    acc as u64
}

fn number(bytes: &[u8]) -> u64 {
    let mut b = [0u8; 8];
    b.copy_from_slice(&bytes[..8]);
    u64::from_le_bytes(b)
}

fn element(n: u64) -> Vec<u8> {
    let mut out = vec![0u8; 32];
    out[..8].copy_from_slice(&n.to_le_bytes());
    out
}

fn agree(secret: &[u8], public: &[u8]) -> Vec<u8> {
    element(power(number(public), number(secret)))
}

fn hex(bytes: &[u8]) -> String {
    bytes.iter().map(|b| format!("{b:02x}")).collect()
}

struct Writer(Vec<u8>);

impl Writer {
    fn new(tag: u8) -> Self {
        Writer(vec![b'C', b'F', tag])
    }

    fn bytes(&mut self, b: &[u8]) -> &mut Self {
        self.0.extend((b.len() as u32).to_le_bytes());
        self.0.extend(b);
        self
    }

    fn text(&mut self, s: &str) -> &mut Self {
        self.bytes(s.as_bytes())
    }

    fn num(&mut self, n: u64) -> &mut Self {
        self.0.extend(n.to_le_bytes());
        self
    }
}

struct Reader<'a>(&'a [u8]);

impl<'a> Reader<'a> {
    fn new(data: &'a [u8], tag: u8) -> Result<Self, String> {
        match data {
            [b'C', b'F', t, rest @ ..] if *t == tag => Ok(Reader(rest)),
            _ => Err("not a record of this kind".to_string()),
        }
    }

    fn take(&mut self, n: usize) -> Result<&'a [u8], String> {
        if self.0.len() < n {
            return Err("truncated record".to_string());
        }
        let (head, rest) = self.0.split_at(n);
        self.0 = rest;
        Ok(head)
    }

    fn num(&mut self) -> Result<u64, String> {
        Ok(number(self.take(8)?))
    }

    fn bytes(&mut self) -> Result<Vec<u8>, String> {
        let head = self.take(4)?;
        let len = u32::from_le_bytes([head[0], head[1], head[2], head[3]]);
        Ok(self.take(len as usize)?.to_vec())
    }

    fn text(&mut self) -> Result<String, String> {
        String::from_utf8(self.bytes()?).map_err(|e| e.to_string())
    }

    fn end(&self) -> Result<(), String> {
        if self.0.is_empty() {
            Ok(())
        } else {
            Err("trailing bytes".to_string())
        }
    }
}

fn read_session(mut r: Reader<'_>) -> Result<Session, String> {
    let contact_id = r.text()?;
    let local_user_id = r.text()?;
    let session_id = r.text()?;
    let suite_id = r.num()? as u16;
    let pq_handshake = match r.num()? {
        0 => PqHandshake::Classical,
        1 => PqHandshake::DeferredV1,
        _ => PqHandshake::InitialV2,
    };
    let pq_authentication = match r.num()? {
        0 => PqAuthentication::Unauthenticated,
        1 => PqAuthentication::Received,
        _ => PqAuthentication::Authenticated,
    };
    let ratchet = r.bytes()?;
    let prekey_header = if r.0.is_empty() {
        None
    } else {
        Some(PrekeyHeader {
            one_time_prekey_id: r.num()? as u32,
            kyber_prekey_id: r.num()? as u32,
            kem_ciphertext: r.bytes()?,
        })
    };
    r.end()?;
    Ok(Session {
        contact_id,
        local_user_id,
        session_id,
        suite_id,
        pq_handshake,
        pq_authentication,
        prekey_header,
        ratchet,
    })
}

const SESSION_TAG: u8 = 1;
const SESSION_VERSION: u64 = 1;
const STATE_TAG: u8 = 2;
const DEFERRED_TAG: u8 = 3;
const KYBER_TAG: u8 = 4;
const OTPK_TAG: u8 = 5;
const BUNDLE_TAG: u8 = 6;
const PRIVATE_TAG: u8 = 7;

/// The ratchet of a session: a root both sides share, and what each has used of it.
struct Ratchet {
    root: Vec<u8>,
    sent: u32,
    my_dh: Vec<u8>,
    remote_dh: Vec<u8>,
    consumed: Vec<u32>,
}

impl Ratchet {
    fn write(&self) -> Vec<u8> {
        let mut w = Writer(Vec::new());
        w.bytes(&self.root).num(self.sent as u64).bytes(&self.my_dh).bytes(&self.remote_dh);
        for n in &self.consumed {
            w.num(*n as u64);
        }
        w.0
    }

    fn read(data: &[u8]) -> Result<Self, String> {
        let mut r = Reader(data);
        let root = r.bytes()?;
        let sent = r.num()? as u32;
        let my_dh = r.bytes()?;
        let remote_dh = r.bytes()?;
        let mut consumed = Vec::new();
        while !r.0.is_empty() {
            consumed.push(r.num()? as u32);
        }
        Ok(Ratchet { root, sent, my_dh, remote_dh, consumed })
    }

    fn key(&self, from: &str, to: &str, n: u32) -> Vec<u8> {
        digest(&[b"message", &self.root, from.as_bytes(), to.as_bytes(), &n.to_le_bytes()])
    }
}

fn seal(key: &[u8], plaintext: &[u8]) -> Vec<u8> {
    let mut out = xor(plaintext, &expand(key, plaintext.len()));
    let tag = digest(&[b"tag", key, &out]);
    out.extend(&tag[..16]);
    out
}

fn unseal(key: &[u8], ciphertext: &[u8]) -> Result<Vec<u8>, String> {
    if ciphertext.len() < 16 {
        return Err("AEAD decryption failed".to_string());
    }
    let (body, tag) = ciphertext.split_at(ciphertext.len() - 16);
    if digest(&[b"tag", key, body])[..16] != *tag {
        return Err("AEAD decryption failed".to_string());
    }
    Ok(xor(body, &expand(key, body.len())))
}

struct ToyEngine {
    seed: u64,
    drawn: AtomicU64,
}

impl ToyEngine {
    fn new() -> Self {
        let seed = RandomState::new().build_hasher().finish();
        ToyEngine { seed, drawn: AtomicU64::new(0) }
    }

    fn draw(&self) -> Vec<u8> {
        let n = self.drawn.fetch_add(1, Ordering::SeqCst);
        digest(&[b"draw", &self.seed.to_le_bytes(), &n.to_le_bytes()])
    }

    fn pair(&self) -> KeyPair {
        let secret = self.draw();
        let public = element(power(3, number(&secret)));
        KeyPair { secret, public }
    }

    fn root(shared: &[Vec<u8>], pq: &Option<PqxdhInput>) -> Vec<u8> {
        let mut parts: Vec<&[u8]> = shared.iter().map(|s| s.as_slice()).collect();
        if let Some(p) = pq {
            parts.push(b"pq");
            parts.push(&p.shared_secret);
            parts.push(&p.kyber_public);
            parts.push(&p.kem_ciphertext);
        }
        digest(&parts)
    }

    fn suite(pq: &Option<PqxdhInput>) -> u16 {
        if pq.is_some() {
            3
        } else {
            1
        }
    }

    fn opened(&self, suite_id: u16, ratchet: &Ratchet) -> OpenedSession {
        OpenedSession { session_id: hex(&self.draw()), suite_id, ratchet: ratchet.write() }
    }
}

fn public_of(kind: &[u8], secret: &[u8]) -> Vec<u8> {
    digest(&[kind, secret])
}

impl CryptoEngine for ToyEngine {
    fn new_kem_pair(&self) -> Result<KeyPair, String> {
        Ok(self.pair())
    }

    fn new_signing_pair(&self) -> Result<KeyPair, String> {
        let secret = self.draw();
        let public = public_of(b"ed", &secret);
        Ok(KeyPair { secret, public })
    }

    fn new_hybrid_pair(&self) -> Result<KeyPair, String> {
        let secret = self.draw();
        let public = public_of(b"hybrid", &secret);
        Ok(KeyPair { secret, public })
    }

    fn new_kyber_seed(&self) -> Result<Vec<u8>, String> {
        Ok(expand(&self.draw(), 64))
    }

    fn kyber_public(&self, seed: &[u8]) -> Result<Vec<u8>, String> {
        Ok(expand(seed, 1568))
    }

    fn sign(&self, secret: &[u8], message: &[u8]) -> Result<Vec<u8>, String> {
        Ok(digest(&[b"sign", &public_of(b"ed", secret), message]))
    }

    fn verify(&self, public: &[u8], message: &[u8], signature: &[u8]) -> bool {
        digest(&[b"sign", public, message]) == signature
    }

    fn sign_hybrid(&self, secret: &[u8], message: &[u8]) -> Result<Vec<u8>, String> {
        Ok(digest(&[b"sign-hybrid", &public_of(b"hybrid", secret), message]))
    }

    fn verify_hybrid(&self, public: &[u8], message: &[u8], signature: &[u8]) -> bool {
        digest(&[b"sign-hybrid", public, message]) == signature
    }

    fn hybrid_public(&self, secret: &[u8]) -> Result<Vec<u8>, String> {
        if secret.len() == 32 {
            Ok(public_of(b"hybrid", secret))
        } else {
            Err("hybrid private key must be 32 bytes".to_string())
        }
    }

    fn hybrid_bind_message(&self, hybrid_public: &[u8]) -> Vec<u8> {
        digest(&[b"bind", hybrid_public])
    }

    fn encapsulate(&self, kyber_public: &[u8]) -> Result<Encapsulation, String> {
        let r = self.draw();
        let mut ciphertext = xor(&r, &digest(&[b"mask", kyber_public]));
        ciphertext.extend(expand(&r, 1536));
        let shared_secret = digest(&[b"kem", &r, &ciphertext]);
        Ok(Encapsulation { shared_secret, ciphertext })
    }

    fn decapsulate(&self, seed: &[u8], ciphertext: &[u8]) -> Result<Vec<u8>, String> {
        if ciphertext.len() != 1568 {
            return Err("KEM ciphertext must be 1568 bytes".to_string());
        }
        let r = xor(&ciphertext[..32], &digest(&[b"mask", &self.kyber_public(seed)?]));
        Ok(digest(&[b"kem", &r, ciphertext]))
    }

    fn derive_device_id(&self, identity_public: &[u8]) -> String {
        hex(&digest(&[b"device", identity_public])[..16])
    }

    fn open_initiator(
        &self,
        keys: &KeyManager,
        _local_user_id: &str,
        _contact_id: &str,
        bundle: &X3DHPublicKeyBundle,
        _one_time_prekey_id: u32,
        _allow_stale: bool,
        pq: &Option<PqxdhInput>,
    ) -> Result<OpenedSession, String> {
        let message =
            build_x3dh_sign_message(bundle.suite_id.as_u16() as u8, &bundle.signed_prekey_public);
        if !self.verify(&bundle.verifying_key, &message, &bundle.signature) {
            return Err("signed prekey signature does not verify".to_string());
        }
        let ephemeral = self.pair();
        let mut shared = vec![
            agree(&keys.identity.secret, &bundle.signed_prekey_public),
            agree(&ephemeral.secret, &bundle.identity_public),
            agree(&ephemeral.secret, &bundle.signed_prekey_public),
        ];
        if let Some(k) = &bundle.one_time_prekey_public {
            shared.push(agree(&ephemeral.secret, k));
        }
        let root = Self::root(&shared, pq);
        let remote_dh = digest(&[b"responder", &root]);
        let ratchet =
            Ratchet { root, sent: 0, my_dh: ephemeral.public, remote_dh, consumed: Vec::new() };
        Ok(self.opened(Self::suite(pq), &ratchet))
    }

    fn open_responder(
        &self,
        keys: &KeyManager,
        local_user_id: &str,
        contact_id: &str,
        remote_identity: &[u8],
        remote_ephemeral: &[u8],
        message: &EncryptedRatchetMessage,
        one_time_prekey_id: u32,
        pq: &Option<PqxdhInput>,
    ) -> Result<Received, String> {
        let mut shared = vec![
            agree(&keys.signed_prekey.pair.secret, remote_identity),
            agree(&keys.identity.secret, remote_ephemeral),
            agree(&keys.signed_prekey.pair.secret, remote_ephemeral),
        ];
        if one_time_prekey_id != 0 {
            let key = keys
                .otpks
                .iter()
                .find(|k| k.key_id == one_time_prekey_id)
                .ok_or("one-time prekey is gone")?;
            shared.push(agree(&key.private_key, remote_ephemeral));
        }
        let root = Self::root(&shared, pq);
        let my_dh = digest(&[b"responder", &root]);
        let ratchet = Ratchet {
            root,
            sent: 0,
            my_dh,
            remote_dh: remote_ephemeral.to_vec(),
            consumed: vec![message.message_number],
        };
        let key = ratchet.key(contact_id, local_user_id, message.message_number);
        let plaintext = unseal(&key, &message.ciphertext)?;
        Ok(Received { session: self.opened(Self::suite(pq), &ratchet), plaintext })
    }

    fn encrypt(&self, session: &Session, plaintext: &[u8]) -> Result<Encrypted, String> {
        let mut ratchet = Ratchet::read(&session.ratchet)?;
        let n = ratchet.sent;
        ratchet.sent += 1;
        let key = ratchet.key(&session.local_user_id, &session.contact_id, n);
        let mut dh_public_key = [0u8; 32];
        dh_public_key.copy_from_slice(&ratchet.my_dh);
        let message = EncryptedRatchetMessage {
            dh_public_key,
            message_number: n,
            ciphertext: seal(&key, plaintext),
            nonce: vec![n as u8; 12],
            previous_chain_length: 0,
            suite_id: session.suite_id,
            pq_message_epoch: 0,
            pq_ratchet_field: None,
        };
        Ok(Encrypted { message, ratchet: ratchet.write() })
    }

    fn decrypt(
        &self,
        session: &Session,
        message: &EncryptedRatchetMessage,
    ) -> Result<Decrypted, String> {
        let mut ratchet = Ratchet::read(&session.ratchet)?;
        if message.dh_public_key.to_vec() != ratchet.remote_dh {
            return Err("AEAD decryption failed".to_string());
        }
        let n = message.message_number;
        if ratchet.consumed.contains(&n) {
            return Err(format!("{MESSAGE_KEY_CONSUMED}: message {n}"));
        }
        let key = ratchet.key(&session.contact_id, &session.local_user_id, n);
        let plaintext = unseal(&key, &message.ciphertext)?;
        ratchet.consumed.push(n);
        Ok(Decrypted { plaintext, ratchet: ratchet.write() })
    }

    fn mix_pq_contribution(
        &self,
        session: &Session,
        shared_secret: &[u8],
    ) -> Result<Vec<u8>, String> {
        let mut ratchet = Ratchet::read(&session.ratchet)?;
        ratchet.root = digest(&[b"mix", &ratchet.root, shared_secret]);
        Ok(ratchet.write())
    }

    fn encode_session(&self, session: &Session) -> Result<Vec<u8>, String> {
        let mut w = Writer::new(SESSION_TAG);
        w.num(SESSION_VERSION)
            .text(&session.contact_id)
            .text(&session.local_user_id)
            .text(&session.session_id)
            .num(session.suite_id as u64)
            .num(match session.pq_handshake {
                PqHandshake::Classical => 0,
                PqHandshake::DeferredV1 => 1,
                PqHandshake::InitialV2 => 2,
            })
            .num(match session.pq_authentication {
                PqAuthentication::Unauthenticated => 0,
                PqAuthentication::Received => 1,
                PqAuthentication::Authenticated => 2,
            })
            .bytes(&session.ratchet);
        if let Some(h) = &session.prekey_header {
            w.num(h.one_time_prekey_id as u64).num(h.kyber_prekey_id as u64).bytes(&h.kem_ciphertext);
        }
        Ok(w.0)
    }

    fn decode_session(&self, data: &[u8]) -> Result<Session, UnreadableSession> {
        if data.first() == Some(&b'{') {
            return Err(UnreadableSession::Legacy("legacy text record".to_string()));
        }
        let mut r = Reader::new(data, SESSION_TAG).map_err(UnreadableSession::Undecodable)?;
        match r.num() {
            Ok(SESSION_VERSION) => read_session(r).map_err(UnreadableSession::Malformed),
            _ => Err(UnreadableSession::Malformed("unknown version".to_string())),
        }
    }

    fn decode_legacy_session(&self, data: &[u8]) -> Result<Session, String> {
        match data {
            [b'{', record @ ..] => read_session(Reader(record)),
            _ => Err("json fallback: not an object".to_string()),
        }
    }

    fn encode_state(&self, state: &OrchestratorState) -> Result<Vec<u8>, String> {
        let mut w = Writer::new(STATE_TAG);
        w.text(&state.my_user_id);
        w.num(state.processed_ids.len() as u64);
        for id in &state.processed_ids {
            w.text(id);
        }
        w.num(state.healing_records.len() as u64);
        for h in &state.healing_records {
            w.text(&h.contact_id)
                .bytes(&h.message_payload)
                .num(h.spent as u64)
                .num(h.attempts as u64)
                .num(h.incoming_triggers as u64)
                .num(h.created_at);
        }
        w.num(state.init_locks.len() as u64);
        for id in &state.init_locks {
            w.text(id);
        }
        w.num(state.archives.len() as u64);
        for (k, v) in &state.archives {
            w.text(k).bytes(v);
        }
        w.num(state.archive_timestamps.len() as u64);
        for (k, v) in &state.archive_timestamps {
            w.text(k).num(*v);
        }
        w.num(state.prekey_tracker.len() as u64);
        for (k, v) in &state.prekey_tracker {
            w.text(k).num(*v as u64);
        }
        w.num(state.hybrid_pins.len() as u64);
        for (k, v) in &state.hybrid_pins {
            w.text(k).bytes(v);
        }
        Ok(w.0)
    }

    fn decode_state(&self, data: &[u8]) -> Result<OrchestratorState, String> {
        let mut r = Reader::new(data, STATE_TAG)?;
        let my_user_id = r.text()?;
        let mut state = OrchestratorState {
            my_user_id,
            processed_ids: Vec::new(),
            healing_records: Vec::new(),
            init_locks: Vec::new(),
            archives: Vec::new(),
            archive_timestamps: Vec::new(),
            prekey_tracker: Vec::new(),
            hybrid_pins: Vec::new(),
        };
        for _ in 0..r.num()? {
            state.processed_ids.push(r.text()?);
        }
        for _ in 0..r.num()? {
            state.healing_records.push(HealingRecord {
                contact_id: r.text()?,
                message_payload: r.bytes()?,
                spent: r.num()? == 1,
                attempts: r.num()? as u32,
                incoming_triggers: r.num()? as u32,
                created_at: r.num()?,
            });
        }
        for _ in 0..r.num()? {
            state.init_locks.push(r.text()?);
        }
        for _ in 0..r.num()? {
            state.archives.push((r.text()?, r.bytes()?));
        }
        for _ in 0..r.num()? {
            state.archive_timestamps.push((r.text()?, r.num()?));
        }
        for _ in 0..r.num()? {
            state.prekey_tracker.push((r.text()?, r.num()? as u32));
        }
        for _ in 0..r.num()? {
            let id = r.text()?;
            let mut pin = [0u8; 32];
            pin.copy_from_slice(&r.bytes()?);
            state.hybrid_pins.push((id, pin));
        }
        r.end()?;
        Ok(state)
    }

    fn encode_deferred(&self, entries: &Vec<DeferredEntry>) -> Result<Vec<u8>, String> {
        let mut w = Writer::new(DEFERRED_TAG);
        w.num(entries.len() as u64);
        for e in entries {
            w.text(&e.contact_id)
                .num(e.contribution.otpk_id as u64)
                .bytes(&e.contribution.shared_secret);
        }
        Ok(w.0)
    }

    fn decode_deferred(&self, data: &[u8]) -> Result<Vec<DeferredEntry>, String> {
        let mut r = Reader::new(data, DEFERRED_TAG)?;
        let mut out = Vec::new();
        for _ in 0..r.num()? {
            out.push(DeferredEntry {
                contact_id: r.text()?,
                contribution: DeferredContribution {
                    otpk_id: r.num()? as u32,
                    shared_secret: r.bytes()?,
                },
            });
        }
        r.end()?;
        Ok(out)
    }

    fn encode_kyber_prekeys(&self, prekeys: &KyberPrekeys) -> Result<Vec<u8>, String> {
        let mut w = Writer::new(KYBER_TAG);
        let lists = [
            prekeys.current.iter().collect::<Vec<_>>(),
            prekeys.pending.iter().collect(),
            prekeys.retired.iter().collect(),
            prekeys.otpks.iter().collect(),
        ];
        for list in lists {
            w.num(list.len() as u64);
            for k in list {
                w.num(k.key_id as u64).bytes(&k.seed).num(k.created_at).num(k.retired_at);
            }
        }
        w.num(prekeys.next_spk_id as u64).num(prekeys.next_otpk_id as u64);
        Ok(w.0)
    }

    fn decode_kyber_prekeys(&self, data: &[u8]) -> Result<KyberPrekeys, String> {
        let mut r = Reader::new(data, KYBER_TAG)?;
        let mut lists = Vec::new();
        for _ in 0..4 {
            let mut list = Vec::new();
            for _ in 0..r.num()? {
                list.push(KyberPrekey {
                    key_id: r.num()? as u32,
                    seed: r.bytes()?,
                    created_at: r.num()?,
                    retired_at: r.num()?,
                });
            }
            lists.push(list);
        }
        let otpks = lists.pop().unwrap();
        let retired = lists.pop().unwrap();
        let pending = lists.pop().unwrap().pop();
        let current = lists.pop().unwrap().pop();
        let next_spk_id = r.num()? as u32;
        let next_otpk_id = r.num()? as u32;
        r.end()?;
        Ok(KyberPrekeys { current, pending, retired, otpks, next_spk_id, next_otpk_id })
    }

    fn encode_otpks(&self, bundle: &OtpkBundle) -> Result<Vec<u8>, String> {
        let mut w = Writer::new(OTPK_TAG);
        w.num(bundle.next_id as u64).num(bundle.records.len() as u64);
        for k in &bundle.records {
            w.num(k.key_id as u64).bytes(&k.private_key).bytes(&k.public_key);
        }
        Ok(w.0)
    }

    fn decode_otpks(&self, data: &[u8]) -> Result<OtpkBundle, String> {
        let mut r = Reader::new(data, OTPK_TAG)?;
        let next_id = r.num()? as u32;
        let mut records = Vec::new();
        for _ in 0..r.num()? {
            records.push(OneTimePrekey {
                key_id: r.num()? as u32,
                private_key: r.bytes()?,
                public_key: r.bytes()?,
            });
        }
        r.end()?;
        Ok(OtpkBundle { records, next_id })
    }

    fn encode_registration_bundle(&self, bundle: &X3DHPublicKeyBundle) -> Result<Vec<u8>, String> {
        let mut w = Writer::new(BUNDLE_TAG);
        w.bytes(&bundle.identity_public)
            .bytes(&bundle.signed_prekey_public)
            .bytes(&bundle.signature)
            .bytes(&bundle.verifying_key);
        Ok(w.0)
    }

    fn encode_private_keys(&self, keys: &KeyManager) -> Result<Vec<u8>, String> {
        let mut w = Writer::new(PRIVATE_TAG);
        w.bytes(&keys.identity.secret)
            .bytes(&keys.signing.secret)
            .bytes(&keys.signed_prekey.pair.secret);
        Ok(w.0)
    }
}

fn new_client() -> ClassicClient<ToyEngine> {
    ClassicClient::new(ToyEngine::new()).unwrap()
}

// ── Choosing a prekey ───────────────────────────────────────────────────────

const NOW: u64 = 1_800_000_000;

struct Peer {
    engine: ToyEngine,
    signing: KeyPair,
    vk: Vec<u8>,
    hybrid: KeyPair,
    hpk: Vec<u8>,
    binding: Vec<u8>,
}

struct Prekey {
    id: u32,
    public: Vec<u8>,
    created_at: u64,
    sig: Vec<u8>,
    hsig: Vec<u8>,
}

impl Peer {
    fn new() -> Self {
        let engine = ToyEngine::new();
        let signing = engine.new_signing_pair().unwrap();
        let hybrid = engine.new_hybrid_pair().unwrap();
        let bind = engine.hybrid_bind_message(&hybrid.public);
        let binding = engine.sign(&signing.secret, &bind).unwrap();
        let vk = signing.public.clone();
        let hpk = hybrid.public.clone();
        Peer { engine, signing, vk, hybrid, hpk, binding }
    }

    fn prekey(&self, id: u32, created_at: u64) -> Prekey {
        let public = vec![id as u8; MLKEM1024_PK_SIZE];
        let msg = kyber_prekey_sign_message_v2(created_at, &public);
        Prekey {
            id,
            sig: self.engine.sign(&self.signing.secret, &msg).unwrap(),
            hsig: self.engine.sign_hybrid(&self.hybrid.secret, &msg).unwrap(),
            public,
            created_at,
        }
    }
}

fn offer_of(p: &Prekey) -> KyberPrekeyOffer<'_> {
    KyberPrekeyOffer {
        key_id: p.id,
        public: &p.public,
        created_at: Some(p.created_at),
        signature: Some(&p.sig),
        hybrid_signature: Some(&p.hsig),
    }
}

fn bundle<'a>(
    peer: &'a Peer,
    spk: Option<&'a Prekey>,
    otpk: Option<&'a Prekey>,
) -> PqxdhOffer<'a> {
    PqxdhOffer {
        verifying_key: &peer.vk,
        hybrid_identity_key: Some(&peer.hpk),
        hybrid_identity_signature: Some(&peer.binding),
        signed_prekey: spk.map(offer_of),
        one_time_prekey: otpk.map(offer_of),
    }
}

fn ctx() -> PqxdhContext<'static> {
    PqxdhContext {
        now: NOW,
        pinned_hybrid_identity: None,
    }
}

#[test]
fn a_signed_one_time_key_is_preferred() {
    let peer = Peer::new();
    let (spk, otpk) = (peer.prekey(3, NOW), peer.prekey(1_000_005, NOW));
    let choice = plan_pqxdh(&ToyEngine::new(), &bundle(&peer, Some(&spk), Some(&otpk)), &ctx()).unwrap();
    assert_eq!(choice.kyber_prekey_id, 1_000_005);
    assert_eq!(choice.kyber_public, otpk.public);
    assert_eq!(
        choice.hybrid_identity_fingerprint,
        hybrid_identity_fingerprint(&peer.hpk)
    );
}

#[test]
fn without_a_usable_one_time_key_the_signed_key_is_used() {
    let peer = Peer::new();
    let spk = peer.prekey(3, NOW);
    let choice = plan_pqxdh(&ToyEngine::new(), &bundle(&peer, Some(&spk), None), &ctx()).unwrap();
    assert_eq!(choice.kyber_prekey_id, 3);
    assert_eq!(choice.one_time_prekey_rejected, None);

    let mut unsigned = peer.prekey(1_000_001, NOW);
    unsigned.sig.clear();
    let choice = plan_pqxdh(&ToyEngine::new(), &bundle(&peer, Some(&spk), Some(&unsigned)), &ctx()).unwrap();
    assert_eq!(choice.kyber_prekey_id, 3);
    assert_eq!(
        choice.one_time_prekey_rejected,
        Some(PqxdhRefusal::KyberSignatureMissing)
    );

    let mut tampered = peer.prekey(1_000_002, NOW);
    tampered.public[0] ^= 1;
    let choice = plan_pqxdh(&ToyEngine::new(), &bundle(&peer, Some(&spk), Some(&tampered)), &ctx()).unwrap();
    assert_eq!(
        choice.one_time_prekey_rejected,
        Some(PqxdhRefusal::KyberSignatureInvalid)
    );
}

#[test]
fn each_refusal() {
    let peer = Peer::new();
    let good = peer.prekey(3, NOW);
    let refuse = |offer: PqxdhOffer<'_>| plan_pqxdh(&ToyEngine::new(), &offer, &ctx()).unwrap_err();

    assert_eq!(
        refuse(bundle(&peer, None, None)),
        PqxdhRefusal::NoKyberPrekey
    );

    let mut short = peer.prekey(3, NOW);
    short.public.truncate(1184);
    assert_eq!(
        refuse(bundle(&peer, Some(&short), None)),
        PqxdhRefusal::KyberPrekeyMalformed
    );
    let one_time_id_as_spk = peer.prekey(1_000_000, NOW);
    assert_eq!(
        refuse(bundle(&peer, Some(&one_time_id_as_spk), None)),
        PqxdhRefusal::KyberPrekeyMalformed
    );

    let mut no_sig = peer.prekey(3, NOW);
    no_sig.sig.clear();
    assert_eq!(
        refuse(bundle(&peer, Some(&no_sig), None)),
        PqxdhRefusal::KyberSignatureMissing
    );
    let mut no_time = bundle(&peer, Some(&good), None);
    no_time.signed_prekey.as_mut().unwrap().created_at = None;
    assert_eq!(refuse(no_time), PqxdhRefusal::KyberSignatureMissing);

    let mut rewritten_time = bundle(&peer, Some(&good), None);
    rewritten_time.signed_prekey.as_mut().unwrap().created_at = Some(NOW + 1);
    assert_eq!(refuse(rewritten_time), PqxdhRefusal::KyberSignatureInvalid);

    let stale = peer.prekey(3, NOW - KYBER_SPK_MAX_AGE_SECS - 1);
    assert_eq!(
        refuse(bundle(&peer, Some(&stale), None)),
        PqxdhRefusal::KyberPrekeyStale
    );
    let old_but_fine = peer.prekey(3, NOW - KYBER_SPK_MAX_AGE_SECS);
    assert!(plan_pqxdh(&ToyEngine::new(), &bundle(&peer, Some(&old_but_fine), None), &ctx()).is_ok());

    let mut no_hsig = peer.prekey(3, NOW);
    no_hsig.hsig.clear();
    assert_eq!(
        refuse(bundle(&peer, Some(&no_hsig), None)),
        PqxdhRefusal::HybridSignatureMissing
    );
    let other = Peer::new();
    let mut foreign_hsig = peer.prekey(3, NOW);
    foreign_hsig.hsig = other.prekey(3, NOW).hsig;
    assert_eq!(
        refuse(bundle(&peer, Some(&foreign_hsig), None)),
        PqxdhRefusal::HybridSignatureInvalid
    );

    let mut no_hybrid = bundle(&peer, Some(&good), None);
    no_hybrid.hybrid_identity_key = None;
    assert_eq!(refuse(no_hybrid), PqxdhRefusal::HybridIdentityMissing);
    let mut no_binding = bundle(&peer, Some(&good), None);
    no_binding.hybrid_identity_signature = None;
    assert_eq!(refuse(no_binding), PqxdhRefusal::HybridIdentityMissing);
    let mut foreign_binding = bundle(&peer, Some(&good), None);
    foreign_binding.hybrid_identity_signature = Some(&other.binding);
    assert_eq!(
        refuse(foreign_binding),
        PqxdhRefusal::HybridIdentityBindingInvalid
    );
}

#[test]
fn a_changed_hybrid_identity_is_refused() {
    let peer = Peer::new();
    let spk = peer.prekey(3, NOW);
    let pinned = hybrid_identity_fingerprint(&peer.hpk);
    let with_pin = PqxdhContext {
        now: NOW,
        pinned_hybrid_identity: Some(&pinned),
    };
    assert!(plan_pqxdh(&ToyEngine::new(), &bundle(&peer, Some(&spk), None), &with_pin).is_ok());

    let other = Peer::new();
    let other_pin = hybrid_identity_fingerprint(&other.hpk);
    let pinned_other = PqxdhContext {
        now: NOW,
        pinned_hybrid_identity: Some(&other_pin),
    };
    assert_eq!(
        plan_pqxdh(&ToyEngine::new(), &bundle(&peer, Some(&spk), None), &pinned_other).unwrap_err(),
        PqxdhRefusal::HybridIdentityChanged
    );
}

// ── The life of sessions ────────────────────────────────────────────────────

type Manager = SessionLifecycleManager<SystemClock, ToyEngine>;

#[test]
fn test_new_manager_has_no_sessions() {
    let client = new_client();
    let mgr = SessionLifecycleManager::new(client, "alice".to_string());
    assert!(!mgr.has_active_session("bob"));
    assert!(!mgr.has_archive("bob"));
    assert_eq!(mgr.my_user_id(), "alice");
}

#[test]
fn test_encrypt_without_session_returns_error() {
    let client = new_client();
    let mut mgr = SessionLifecycleManager::new(client, "alice".to_string());
    let result = mgr.encrypt("bob", b"hello");
    assert!(result.is_err());
    assert!(result.unwrap_err().contains("No active session"));
}

#[test]
fn test_decrypt_without_session_returns_error() {
    let client = new_client();
    let mut mgr = SessionLifecycleManager::new(client, "alice".to_string());
    let wire = WireMessage {
        dh_public_key: vec![0; 32],
        message_number: 0,
        ciphertext: vec![],
        nonce: vec![],
        previous_chain_length: 0,
        suite_id: 1,
        pq_message_epoch: 0,
        pq_ratchet_field: None,
    };
    let result = mgr.decrypt("bob", wire);
    assert!(result.is_err());
}

#[test]
fn test_restore_archive_without_archive_returns_error() {
    let client = new_client();
    let mut mgr = SessionLifecycleManager::new(client, "alice".to_string());
    assert!(mgr.restore_latest_archive("bob").is_err());
}

#[test]
fn test_gc_empty_archives_is_noop() {
    let client = new_client();
    let mut mgr = SessionLifecycleManager::new(client, "alice".to_string());
    let actions = mgr.gc_old_archives();
    assert!(actions.is_empty());
}

#[test]
fn test_gc_removes_old_archives() {
    let client = new_client();
    let mut mgr = SessionLifecycleManager::new(client, "alice".to_string());
    mgr.archives
        .insert("bob".to_string(), b"placeholder".to_vec());
    mgr.archive_timestamps.insert("bob".to_string(), 0);

    let actions = mgr.gc_old_archives();
    assert!(!actions.is_empty());
    assert!(!mgr.has_archive("bob"));
}

#[test]
fn test_gc_keeps_fresh_archives() {
    let client = new_client();
    let mut mgr = SessionLifecycleManager::new(client, "alice".to_string());
    mgr.archives
        .insert("bob".to_string(), b"placeholder".to_vec());
    mgr.archive_timestamps.insert("bob".to_string(), now());

    mgr.gc_old_archives();
    assert!(mgr.has_archive("bob"));
}

#[test]
fn test_prekey_tracking() {
    let client = new_client();
    let mut mgr = SessionLifecycleManager::new(client, "alice".to_string());
    assert!(!mgr.is_reinstall("bob", 42));
    mgr.track_prekey("bob", 42);
    assert!(!mgr.is_reinstall("bob", 42));
    assert!(mgr.is_reinstall("bob", 99));
}

#[test]
fn forget_contact_state_clears_archive_heal_prekey_and_pq_state() {
    let client = new_client();
    let mut mgr = SessionLifecycleManager::new(client, "alice".to_string());
    mgr.archives.insert("bob".to_string(), b"archive".to_vec());
    mgr.archive_timestamps.insert("bob".to_string(), now());
    mgr.track_prekey("bob", 42);
    mgr.healing_queue.enqueue(
        "bob",
        b"heal-payload".to_vec(),
        HealDirection::Incoming,
    );
    let _ = mgr
        .pq_manager
        .register_shared_secret("bob", 7, b"pq-secret");

    mgr.forget_contact_state("bob");

    assert!(!mgr.has_archive("bob"));
    assert!(!mgr.is_reinstall("bob", 99));
    assert!(!mgr.healing_queue.has_pending("bob"));
    assert!(mgr.pq_manager.peek_deferred("bob").is_none());
}

#[test]
fn test_maybe_apply_pq_contribution_no_pending() {
    let client = new_client();
    let mut mgr = SessionLifecycleManager::new(client, "alice".to_string());
    let actions = mgr.maybe_apply_pq_contribution("bob");
    assert!(actions.is_empty());
}

#[test]
fn test_wire_message_roundtrip() {
    let original = EncryptedRatchetMessage {
        dh_public_key: [42u8; 32],
        message_number: 7,
        ciphertext: vec![1, 2, 3],
        nonce: vec![4, 5, 6],
        previous_chain_length: 0,
        suite_id: 1,
        pq_message_epoch: 0,
        pq_ratchet_field: None,
    };
    let wire = WireMessage::from_message(original);
    let restored = wire.into_message().unwrap();
    assert_eq!(restored.dh_public_key, [42u8; 32]);
    assert_eq!(restored.message_number, 7);
    assert_eq!(restored.ciphertext, vec![1, 2, 3]);
}

fn make_session_pair() -> (Manager, Manager, String, String) {
    let mut alice = SessionLifecycleManager::new(new_client(), "alice".to_string());
    let mut bob = SessionLifecycleManager::new(new_client(), "bob".to_string());

    let bob_bundle = bob.client.keys.export_registration_bundle();
    let bob_device_id = bob.client.engine.derive_device_id(&bob_bundle.identity_public);
    let alice_bundle = alice.client.keys.export_registration_bundle();
    let alice_device_id = alice.client.engine.derive_device_id(&alice_bundle.identity_public);
    alice.client.set_local_user_id(alice_device_id.clone());
    bob.client.set_local_user_id(bob_device_id.clone());

    alice
        .client
        .init_session_with_pq(&bob_device_id, &bob_bundle, 0, false, &None)
        .unwrap();
    let first_msg = alice
        .client
        .encrypt_message(&bob_device_id, b"hello")
        .unwrap();
    bob.client
        .init_receiving_session_with_ephemeral(
            &alice_device_id,
            &alice_bundle.identity_public,
            &first_msg.dh_public_key,
            &first_msg,
            0,
            &None,
        )
        .unwrap();
    (alice, bob, alice_device_id, bob_device_id)
}

#[test]
fn test_export_session_bytes_for_produces_valid_cfe() {
    let (alice, _bob, _alice_id, bob_device_id) = make_session_pair();
    let bytes = alice.export_session_bytes_for(&bob_device_id).unwrap();
    assert_eq!(&bytes[..2], b"CF");
    assert_eq!(Reader::new(&bytes, SESSION_TAG).unwrap().num().unwrap(), 1);
    let state = alice.client.engine.decode_session(&bytes).unwrap();
    assert!(!state.contact_id.is_empty());
}

#[test]
fn test_export_bytes_import_bytes_round_trip() {
    let (alice, _bob, alice_id, bob_device_id) = make_session_pair();
    let bytes = alice.export_session_bytes_for(&bob_device_id).unwrap();

    let alice_client = new_client();
    let mut restored = SessionLifecycleManager::new(alice_client, alice_id);
    restored
        .import_session_bytes(&bob_device_id, &bytes)
        .unwrap();
    assert!(restored.has_active_session(&bob_device_id));
}

#[test]
fn test_import_rejects_a_record_saved_for_another_contact() {
    let (alice, _bob, alice_id, bob_device_id) = make_session_pair();
    let bytes = alice.export_session_bytes_for(&bob_device_id).unwrap();

    let client = new_client();
    let mut restored = SessionLifecycleManager::new(client, alice_id);
    let stranger = "0".repeat(32);

    let err = restored
        .import_session_bytes(&stranger, &bytes)
        .expect_err("a record for Bob must not import as a session with someone else");
    assert!(err.contains("identity mismatch"), "unexpected error: {err}");
    assert!(
        !restored.has_active_session(&stranger),
        "a rejected import must leave no session behind"
    );
}

#[test]
fn test_import_rejects_a_record_made_by_another_local_identity() {
    let (alice, _bob, _alice_id, bob_device_id) = make_session_pair();
    let bytes = alice.export_session_bytes_for(&bob_device_id).unwrap();

    let client = new_client();
    let mut restored = SessionLifecycleManager::new(client, "1".repeat(32));

    let err = restored
        .import_session_bytes(&bob_device_id, &bytes)
        .expect_err("a record made by another identity must not import");
    assert!(err.contains("identity mismatch"), "unexpected error: {err}");
    assert!(!restored.has_active_session(&bob_device_id));
}

#[test]
fn test_the_mismatch_error_does_not_carry_a_whole_identifier() {
    let (alice, _bob, alice_id, bob_device_id) = make_session_pair();
    let bytes = alice.export_session_bytes_for(&bob_device_id).unwrap();

    let client = new_client();
    let mut restored = SessionLifecycleManager::new(client, alice_id.clone());
    let err = restored
        .import_session_bytes(&"0".repeat(32), &bytes)
        .unwrap_err();

    assert!(
        !err.contains(&bob_device_id),
        "leaked the record's contact id: {err}"
    );
    assert!(
        err.contains(&bob_device_id[..8]),
        "should still say which contact: {err}"
    );
}

#[test]
fn test_import_skips_the_local_id_check_before_the_identity_is_set() {
    let (alice, _bob, _alice_id, bob_device_id) = make_session_pair();
    let bytes = alice.export_session_bytes_for(&bob_device_id).unwrap();

    let client = new_client();
    let mut restored = SessionLifecycleManager::new(client, String::new());

    restored
        .import_session_bytes(&bob_device_id, &bytes)
        .expect("an unset local identity cannot disprove the record");
    assert!(restored.has_active_session(&bob_device_id));
}

/// The record of a session in the form it was once saved in.
fn legacy_form(engine: &ToyEngine, session: &Session) -> Vec<u8> {
    let binary = engine.encode_session(session).unwrap();
    let mut legacy = vec![b'{'];
    legacy.extend(&binary[3 + 8..]);
    legacy
}

#[test]
fn test_import_accepts_a_legacy_record_with_no_local_user_id() {
    let (alice, _bob, alice_id, bob_device_id) = make_session_pair();
    let mut record = alice.session_record_for(&bob_device_id).unwrap();
    record.local_user_id = String::new();
    let legacy = legacy_form(&alice.client.engine, &record);

    let mut restored = SessionLifecycleManager::new(new_client(), alice_id);
    restored
        .import_session_bytes(&bob_device_id, &legacy)
        .expect("a record without the field must still load");
    assert!(restored.has_active_session(&bob_device_id));
}

#[test]
fn test_export_bytes_no_json_intermediate() {
    let (alice, _bob, _alice_id, bob_device_id) = make_session_pair();
    let bytes = alice.export_session_bytes_for(&bob_device_id).unwrap();
    let record = alice.client.engine.decode_session(&bytes).unwrap();
    let held = alice.session_record_for(&bob_device_id).unwrap();
    assert_eq!(record.ratchet, held.ratchet);
    assert_eq!(record.session_id, held.session_id);
    assert_ne!(bytes[0], b'{');
}

#[test]
fn test_import_session_bytes_handles_old_json_wrapper_format() {
    let (alice, _bob, _alice_id, bob_device_id) = make_session_pair();
    let record = alice.export_session_bytes_for(&bob_device_id).unwrap();
    let mut wrapper = Writer::new(99);
    wrapper.text(&bob_device_id).bytes(&record);

    let mut restored = SessionLifecycleManager::new(new_client(), "alice".to_string());
    let result = restored.import_session_bytes(&bob_device_id, &wrapper.0);
    assert!(result.is_err());
    assert!(!restored.has_active_session(&bob_device_id));
}

fn decode_orchestrator_state(bytes: &[u8]) -> OrchestratorState {
    ToyEngine::new().decode_state(bytes).expect("orchestrator state decodes")
}

#[test]
fn test_orchestrator_state_export_omits_processed_ids() {
    let client = new_client();
    let mut mgr = SessionLifecycleManager::new(client, "alice".to_string());
    let locks = Vec::new();

    for i in 0..100 {
        mgr.ack_store.mark_processed(&format!("msg-{i:04}"));
    }
    assert_eq!(mgr.ack_store.cache_len(), 100, "L1 cache still tracks them");

    let state = decode_orchestrator_state(&mgr.export_orchestrator_state_cfe(&locks).unwrap());
    assert!(
        state.processed_ids.is_empty(),
        "ACK cache must never be snapshotted — it is what made the blob unbounded"
    );
}

#[test]
fn test_orchestrator_state_blob_does_not_grow_with_acks() {
    let client = new_client();
    let mut mgr = SessionLifecycleManager::new(client, "alice".to_string());
    let locks = Vec::new();

    let baseline = mgr.export_orchestrator_state_cfe(&locks).unwrap().len();
    for i in 0..1_000 {
        mgr.ack_store
            .mark_processed(&format!("11111111-2222-3333-4444-{i:012}"));
    }
    let after = mgr.export_orchestrator_state_cfe(&locks).unwrap().len();

    assert_eq!(
        baseline, after,
        "1000 processed messages must not add a single byte to the persisted blob \
         (was ~42 B each, forever)"
    );
}

#[test]
fn test_orchestrator_state_import_still_reads_legacy_processed_ids() {
        let legacy = OrchestratorState {
        my_user_id: "alice".to_string(),
        processed_ids: vec!["old-msg-1".to_string(), "old-msg-2".to_string()],
        healing_records: vec![],
        init_locks: vec![],
        archives: vec![],
        archive_timestamps: vec![],
        prekey_tracker: vec![],
        hybrid_pins: vec![],
    };
    let bytes = ToyEngine::new().encode_state(&legacy).unwrap();

    let client = new_client();
    let mut mgr = SessionLifecycleManager::new(client, "alice".to_string());
    mgr.import_orchestrator_state_cfe(&bytes).unwrap();

    assert_eq!(
        mgr.ack_store.is_processed("old-msg-1"),
        AckCheckResult::InCache
    );

    let locks = Vec::new();
    let re_exported =
        decode_orchestrator_state(&mgr.export_orchestrator_state_cfe(&locks).unwrap());
    assert!(re_exported.processed_ids.is_empty());
}

#[test]
fn test_ack_miss_after_restart_defers_to_durable_store() {
    let client = new_client();
    let mut mgr = SessionLifecycleManager::new(client, "alice".to_string());
    let locks = Vec::new();

    mgr.ack_store.mark_processed("msg-seen-before-restart");
    let bytes = mgr.export_orchestrator_state_cfe(&locks).unwrap();

    let fresh_client = new_client();
    let mut restarted = SessionLifecycleManager::new(fresh_client, "alice".to_string());
    restarted.import_orchestrator_state_cfe(&bytes).unwrap();

    assert_eq!(
        restarted.ack_store.is_processed("msg-seen-before-restart"),
        AckCheckResult::NeedDbCheck,
        "must defer to the durable store, not silently re-process"
    );
    assert_eq!(restarted.ack_store.cache_len(), 0);
}

#[test]
fn print_session_payload_sizes() {
    let (alice, _bob, _alice_id, bob_device_id) = make_session_pair();
    let bytes = alice.export_session_bytes_for(&bob_device_id).unwrap();
    let text = format!("{:?}", alice.session_record_for(&bob_device_id).unwrap());
    println!("record bytes: {} bytes", bytes.len());
    println!("text bytes: {} bytes", text.len());
    println!("ratio: {:.1}x", text.len() as f64 / bytes.len() as f64);
}

// ── Events and decisions ────────────────────────────────────────────────────

fn make_orchestrator(user_id: &str) -> Device {
    Orchestrator::new(new_client(), user_id.to_string())
}

#[test]
fn test_new_orchestrator() {
    let o = make_orchestrator("alice");
    assert_eq!(o.my_user_id(), "alice");
    assert!(!o.has_active_session("bob"));
    assert_eq!(o.pending_message_count("bob"), 0);
}

fn packed_wire(msg_num: u32, kem_ct: Option<&[u8]>) -> Vec<u8> {
    pack(
        &[7u8; 32], msg_num, 0, 0, 0, 1, kem_ct,
        &[0u8; 32],
        0, None,
    )
    .unwrap()
}

#[test]
fn test_message_received_no_session_fetches_bundle() {
    let mut o = make_orchestrator("alice");
    let actions = o.handle_event(IncomingEvent::MessageReceived {
        message_id: "msg-001".to_string(),
        from: "bob".to_string(),
        data: packed_wire(0, None),
        msg_num: 0,
        kem_ct: vec![],
        otpk_id: 0,
        is_control: false,
        content_type: 0,
    });
    let fetches: Vec<_> = actions
        .iter()
        .filter(|a| matches!(a, Action::FetchPublicKeyBundle { .. }))
        .collect();
    assert!(!fetches.is_empty(), "expected FetchPublicKeyBundle action");
}

#[test]
fn forget_contact_state_clears_pending_router_state_before_re_add() {
    let mut o = make_orchestrator("alice");
    let actions = o.handle_event(IncomingEvent::MessageReceived {
        message_id: "old-backlog".to_string(),
        from: "bob".to_string(),
        data: packed_wire(0, None),
        msg_num: 0,
        kem_ct: vec![],
        otpk_id: 0,
        is_control: false,
        content_type: 0,
    });
    assert!(
        actions
            .iter()
            .any(|a| matches!(a, Action::FetchPublicKeyBundle { user_id } if user_id == "bob"))
    );
    assert_eq!(o.pending_message_count("bob"), 1);

    o.forget_contact_state("bob");

    assert_eq!(
        o.pending_message_count("bob"),
        0,
        "local delete must remove stale queued msgNum=0 carriers before re-add"
    );
}

#[test]
fn a_kem_ciphertext_on_the_wire_is_not_handed_to_the_platform() {
    let mut o = make_orchestrator("alice");
    let kem = [1_u8, 2, 3];
    let actions = o.handle_event(IncomingEvent::MessageReceived {
        message_id: "msg-002".to_string(),
        from: "bob".to_string(),
        data: packed_wire(0, Some(&kem)),
        msg_num: 0,
        kem_ct: kem.to_vec(),
        otpk_id: 0,
        is_control: false,
        content_type: 0,
    });
    let printed = format!("{actions:?}");
    assert!(
        !printed.contains("[1, 2, 3]"),
        "no action may carry the ciphertext: {printed}"
    );
}

#[test]
fn test_message_received_malformed_payload_notifies_without_heal() {
    let mut o = make_orchestrator("alice");
    let actions = o.handle_event(IncomingEvent::MessageReceived {
        message_id: "msg-003".to_string(),
        from: "bob".to_string(),
        data: vec![0u8; 4],
        msg_num: 0,
        kem_ct: vec![],
        otpk_id: 0,
        is_control: false,
        content_type: 0,
    });
    assert!(
        matches!(actions.as_slice(), [Action::NotifyError { code, .. }] if code == "MALFORMED_WIRE_PAYLOAD"),
        "expected single MALFORMED_WIRE_PAYLOAD NotifyError, got {actions:?}"
    );
}

#[test]
fn test_app_launched_schedules_timers() {
    let mut o = make_orchestrator("alice");
    let actions = o.handle_event(IncomingEvent::AppLaunched);
    let timers: Vec<_> = actions
        .iter()
        .filter(|a| matches!(a, Action::ScheduleTimer { .. }))
        .collect();
    assert_eq!(timers.len(), 3);
}

#[test]
fn test_network_reconnected_schedules_gc() {
    let mut o = make_orchestrator("alice");
    let actions = o.handle_event(IncomingEvent::NetworkReconnected);
    assert!(actions.iter().any(
        |a| matches!(a, Action::ScheduleTimer { timer_id, .. } if timer_id == "gc_sweep")
    ));
}

#[test]
fn test_timer_gc_sweep_returns_actions() {
    let mut o = make_orchestrator("alice");
    let actions = o.handle_event(IncomingEvent::TimerFired {
        timer_id: "gc_sweep".to_string(),
    });
    let _ = actions;
}

#[test]
fn test_ack_received_produces_mark_delivered() {
    let mut o = make_orchestrator("alice");
    let actions = o.handle_event(IncomingEvent::AckReceived {
        message_id: "msg-xyz".to_string(),
    });
    assert_eq!(actions.len(), 1);
    assert!(
        matches!(&actions[0], Action::MarkMessageDelivered { message_id } if message_id == "msg-xyz")
    );
}

#[test]
fn test_session_init_completed_clears_lock() {
    let mut o = make_orchestrator("alice");
    o.sessions.handle("bob", SessionEvent::WantToOpen);
    let actions = o.handle_event(IncomingEvent::SessionInitCompleted {
        contact_id: "bob".to_string(),
        session_data: vec![],
    });
    assert_eq!(o.sessions.phase("bob"), Phase::Absent);
    assert!(
        actions
            .iter()
            .any(|a| matches!(a, Action::NotifySessionCreated { .. }))
    );
}

#[test]
fn test_cooldown_deduplicates_end_session() {
    let mut o = make_orchestrator("alice");
    let first = o.decision_to_actions(end_session_needed("bob"));
    assert!(
        first
            .iter()
            .any(|a| matches!(a, Action::SendEndSession { .. }))
    );
    let second = o.decision_to_actions(end_session_needed("bob"));
    assert!(
        second
            .iter()
            .any(|a| matches!(a, Action::EndSessionSuppressed { .. })),
        "the second teardown inside the window is deferred, not sent"
    );
}

#[test]
fn a_platform_teardown_shares_the_window_with_the_cores_own() {
    let mut o = make_orchestrator("alice");
    let first = o.decision_to_actions(end_session_needed("bob"));
    assert!(
        first
            .iter()
            .any(|a| matches!(a, Action::SendEndSession { .. }))
    );
    let asked = o.handle_event(IncomingEvent::TeardownRequested {
        contact_id: "bob".to_string(),
        cause: TearDownCause::Blind,
    });
    assert!(
        asked
            .iter()
            .any(|a| matches!(a, Action::EndSessionSuppressed { .. })),
        "the platform's ask lands inside the window the core's own teardown opened"
    );
    assert!(
        asked.iter().any(
            |a| matches!(a, Action::ScheduleTimer { timer_id, .. } if timer_id == "cooldown_expired:bob")
        ),
        "and it is owed, so the alarm that pays it is armed"
    );
}

#[test]
fn the_peers_teardown_answers_a_blind_ask_without_owing_one() {
    let mut o = make_orchestrator("alice");
    o.handle_event(IncomingEvent::PeerToreDown {
        contact_id: "bob".to_string(),
    });
    let actions = o.handle_event(IncomingEvent::TeardownRequested {
        contact_id: "bob".to_string(),
        cause: TearDownCause::Blind,
    });
    assert_eq!(actions.len(), 1);
    assert!(
        matches!(&actions[0], Action::EndSessionNotNeeded { contact_id } if contact_id == "bob")
    );
    assert!(
        !actions
            .iter()
            .any(|a| matches!(a, Action::ScheduleTimer { .. })),
        "nothing is owed, so nothing may arm a retry — a timer here is the grace inverted"
    );
}

#[test]
fn the_peers_teardown_does_not_answer_an_explained_ask() {
    let mut o = make_orchestrator("alice");
    o.handle_event(IncomingEvent::PeerToreDown {
        contact_id: "bob".to_string(),
    });
    let actions = o.handle_event(IncomingEvent::TeardownRequested {
        contact_id: "bob".to_string(),
        cause: TearDownCause::Explained,
    });
    assert!(
        !actions
            .iter()
            .any(|a| matches!(a, Action::EndSessionNotNeeded { .. })),
        "an explained teardown is never answered away"
    );
    assert!(
        actions
            .iter()
            .any(|a| matches!(a, Action::EndSessionSuppressed { .. })),
        "it is held to the ordinary window, and owed"
    );
}

#[test]
fn a_platform_teardown_of_a_quiet_device_is_granted_alone() {
    let mut o = make_orchestrator("alice");
    let actions = o.handle_event(IncomingEvent::TeardownRequested {
        contact_id: "bob".to_string(),
        cause: TearDownCause::Blind,
    });
    assert_eq!(actions.len(), 1);
    assert!(
        matches!(&actions[0], Action::SendEndSession { contact_id } if contact_id == "bob")
    );
}

fn make_orchestrator_with_clock(
    user_id: &str,
    clock: Arc<MockClock>,
) -> Orchestrator<MockClock, ToyEngine> {
    Orchestrator::new_with_clock(new_client(), user_id.to_string(), clock)
}

fn end_session_needed(cid: &str) -> RoutingDecision {
    RoutingDecision::EndSessionNeeded {
        contact_id: cid.to_string(),
        reason: "AEAD decryption failed".to_string(),
        refused: refused("m-held", false),
    }
}

fn heal_needed(cid: &str, is_handshake: bool) -> RoutingDecision {
    RoutingDecision::SessionHealNeeded {
        contact_id: cid.to_string(),
        role: Role::Responder,
        is_handshake,
        reason: "AEAD decryption failed".to_string(),
        refused: refused("m-held", is_handshake),
    }
}

fn refused(message_id: &str, opens_session: bool) -> Refused {
    Refused {
        message_id: message_id.to_string(),
        opens_session,
        message: IncomingMessage {
            contact_id: "bob".to_string(),
            wire_payload: vec![],
            message_id: message_id.to_string(),
            msg_number: 0,
            is_control: false,
            content_type: 0,
        },
    }
}

fn need_session_init(cid: &str) -> RoutingDecision {
    RoutingDecision::NeedSessionInit {
        contact_id: cid.to_string(),
        queued_count: 1,
    }
}

const WE_REBUILD: &str = "zoe";
const PEER_REBUILDS: &str = "alice";

#[test]
fn a_reopen_inside_the_peers_flush_is_deferred_on_the_cores_own_timer() {
    let mut o = make_orchestrator(WE_REBUILD);
    o.handle_event(IncomingEvent::PeerToreDown {
        contact_id: "bob".to_string(),
    });
    let actions = o.handle_event(IncomingEvent::ReopenRequested {
        contact_id: "bob".to_string(),
    });
    assert!(
        actions.iter().any(
            |a| matches!(a, Action::OpenDeferred { contact_id, .. } if contact_id == "bob")
        ),
        "the platform must be told it is held, not handed an empty list"
    );
    assert!(
        actions.iter().any(|a| matches!(
            a,
            Action::ScheduleTimer { timer_id, delay_ms }
                if timer_id == "reopen:bob" && *delay_ms <= REOPEN_QUIET_MS + 100
        )),
        "nothing else will wake the orchestrator to run it, and the flush is all it waits for"
    );
    assert!(
        !actions
            .iter()
            .any(|a| matches!(a, Action::OpenSession { .. }))
    );
}

#[test]
fn the_heal_budget_runs_out_where_the_carrier_is_queued() {
    let mut o = make_orchestrator("alice");
    o.enqueue_heal("bob", b"x3dh".to_vec());
    for expected in 1..=2u32 {
        let actions = o.handle_event(IncomingEvent::HealAttempted {
            contact_id: "bob".to_string(),
        });
        assert!(
            actions.iter().any(|a| matches!(
                a,
                Action::HealAttemptAllowed { contact_id, attempt }
                    if contact_id == "bob" && *attempt == expected
            )),
            "attempt {expected} must be allowed"
        );
    }
    let actions = o.handle_event(IncomingEvent::HealAttempted {
        contact_id: "bob".to_string(),
    });
    assert!(
        actions
            .iter()
            .any(|a| matches!(a, Action::HealExhausted { contact_id } if contact_id == "bob"))
    );
}

#[test]
fn a_heal_with_nothing_queued_is_not_permission() {
    let mut o = make_orchestrator("alice");
    let actions = o.handle_event(IncomingEvent::HealAttempted {
        contact_id: "bob".to_string(),
    });
    assert!(
        actions
            .iter()
            .any(|a| matches!(a, Action::HealExhausted { .. })),
        "an unbounded retry is what the budget exists to prevent"
    );
    assert!(!actions.is_empty(), "silence is not an answer");
}

#[test]
fn a_session_that_came_back_settles_the_heal_budget() {
    let mut o = make_orchestrator("alice");
    o.enqueue_heal("bob", b"x3dh".to_vec());
    for _ in 0..3 {
        o.handle_event(IncomingEvent::HealAttempted {
            contact_id: "bob".to_string(),
        });
    }
    o.handle_event(IncomingEvent::SessionInitCompleted {
        contact_id: "bob".to_string(),
        session_data: Vec::new(),
    });
    let actions = o.handle_event(IncomingEvent::HealAttempted {
        contact_id: "bob".to_string(),
    });
    assert!(
        actions.iter().any(|a| matches!(
            a,
            Action::HealAttemptAllowed { attempt, .. } if *attempt == 1
        )),
        "the next episode starts with its own budget"
    );
}

#[test]
fn the_peers_teardown_settles_the_heal_budget() {
    let mut o = make_orchestrator("alice");
    o.enqueue_heal("bob", b"x3dh".to_vec());
    for _ in 0..3 {
        o.handle_event(IncomingEvent::HealAttempted {
            contact_id: "bob".to_string(),
        });
    }
    o.handle_event(IncomingEvent::PeerToreDown {
        contact_id: "bob".to_string(),
    });
    let actions = o.handle_event(IncomingEvent::HealAttempted {
        contact_id: "bob".to_string(),
    });
    assert!(actions.iter().any(|a| matches!(
        a,
        Action::HealAttemptAllowed { attempt, .. } if *attempt == 1
    )));
}

#[test]
fn a_teardown_does_not_hand_back_the_incoming_trigger_budget() {
    let mut o = make_orchestrator("alice");
    for _ in 0..12 {
        o.enqueue_heal("bob", b"x3dh".to_vec());
    }
    assert!(
        o.lifecycle.healing_queue.is_incoming_throttled("bob"),
        "twelve incoming triggers is past MAX_INCOMING_TRIGGERS"
    );
    o.handle_event(IncomingEvent::PeerToreDown {
        contact_id: "bob".to_string(),
    });
    assert!(
        o.lifecycle.healing_queue.is_incoming_throttled("bob"),
        "the cap is per record lifetime, not per episode"
    );
}

#[test]
fn a_teardown_is_held_while_our_own_announcement_is_unanswered() {
    let mut o = make_orchestrator("alice");
    o.handle_event(IncomingEvent::SriAnnounced {
        contact_id: "bob".to_string(),
    });
    let actions = o.decision_to_actions(end_session_needed("bob"));
    assert!(
        actions
            .iter()
            .any(|a| matches!(a, Action::HeldPendingAck { contact_id } if contact_id == "bob")),
        "the platform must be told to buffer it — silence here is the message dropped"
    );
    assert!(
        !actions
            .iter()
            .any(|a| matches!(a, Action::SendEndSession { .. })),
    );
}

fn held_ids(actions: &[Action]) -> Vec<(&'static str, String)> {
    actions
        .iter()
        .filter_map(|a| match a {
            Action::ReplayHeld { message_id } => Some(("replay", message_id.clone())),
            Action::HeldSuperseded { message_id } => Some(("superseded", message_id.clone())),
            _ => None,
        })
        .collect()
}

#[test]
fn what_the_gate_held_is_handed_back_when_the_peer_acknowledges() {
    let mut o = make_orchestrator("alice");
    o.handle_event(IncomingEvent::SriAnnounced {
        contact_id: "bob".to_string(),
    });
    o.decision_to_actions(end_session_needed("bob"));
    assert!(
        o.release_confirm_holds().is_empty(),
        "nothing leaves while the confirm gate is up"
    );

    let actions = o.handle_event(IncomingEvent::PeerAcked {
        contact_id: "bob".to_string(),
    });
    assert_eq!(held_ids(&actions), vec![("replay", "m-held".to_string())]);
    let again = o.handle_event(IncomingEvent::PeerAcked {
        contact_id: "bob".to_string(),
    });
    assert!(held_ids(&again).is_empty(), "handed back once");
}

#[test]
fn what_the_gate_held_is_handed_back_when_the_window_runs_out() {
    let clock = Arc::new(MockClock::new(0));
    let mut o = make_orchestrator_with_clock("alice", clock.clone());
    o.handle_event(IncomingEvent::SriAnnounced {
        contact_id: "bob".to_string(),
    });
    o.decision_to_actions(heal_needed("bob", false));
    clock.advance_ms(OPENING_CONFIRM_WINDOW_MS + 1);
    let actions = o.handle_event(IncomingEvent::TimerFired {
        timer_id: "open_confirm:bob".to_string(),
    });
    assert!(
        actions
            .iter()
            .any(|a| matches!(a, Action::OpeningGaveUp { .. })),
        "{actions:?}"
    );
    assert_eq!(held_ids(&actions), vec![("replay", "m-held".to_string())]);
}

#[test]
fn a_redelivered_held_message_is_held_once() {
    let mut o = make_orchestrator("alice");
    o.handle_event(IncomingEvent::SriAnnounced {
        contact_id: "bob".to_string(),
    });
    o.decision_to_actions(end_session_needed("bob"));
    o.decision_to_actions(end_session_needed("bob"));
    let actions = o.handle_event(IncomingEvent::PeerAcked {
        contact_id: "bob".to_string(),
    });
    assert_eq!(held_ids(&actions).len(), 1);
}

#[test]
fn forgetting_a_contact_drops_its_holds() {
    let mut o = make_orchestrator("alice");
    o.handle_event(IncomingEvent::SriAnnounced {
        contact_id: "bob".to_string(),
    });
    o.decision_to_actions(end_session_needed("bob"));
    o.forget_contact_state("bob");
    let actions = o.handle_event(IncomingEvent::PeerAcked {
        contact_id: "bob".to_string(),
    });
    assert!(held_ids(&actions).is_empty());
}

#[test]
fn only_an_opener_whose_ratchet_was_replaced_is_superseded() {
    let hold = |opens_session: bool, epoch: Option<&str>| ConfirmHold {
        message_id: "m".to_string(),
        epoch: epoch.map(str::to_string),
        opens_session,
    };
    assert!(held_opener_superseded(&hold(true, Some("e1")), Some("e2")));
    assert!(
        held_opener_superseded(&hold(true, None), Some("e2")),
        "held with none, one exists now"
    );
    assert!(!held_opener_superseded(&hold(true, Some("e1")), Some("e1")));
    assert!(!held_opener_superseded(&hold(true, Some("e1")), None));
    assert!(
        !held_opener_superseded(&hold(false, Some("e1")), Some("e2")),
        "content always replays"
    );
}

#[test]
fn a_heal_is_held_while_our_own_announcement_is_unanswered() {
    let mut o = make_orchestrator("alice");
    o.handle_event(IncomingEvent::SriAnnounced {
        contact_id: "bob".to_string(),
    });
    let actions = o.decision_to_actions(heal_needed("bob", false));
    assert!(
        actions
            .iter()
            .any(|a| matches!(a, Action::HeldPendingAck { contact_id } if contact_id == "bob"))
    );
    assert!(
        !actions
            .iter()
            .any(|a| matches!(a, Action::SessionHealNeeded { .. }))
    );
}

#[test]
fn a_handshake_carrier_is_not_held_behind_the_wait_it_ends() {
    let mut o = make_orchestrator("alice");
    o.handle_event(IncomingEvent::SriAnnounced {
        contact_id: "bob".to_string(),
    });
    let actions = o.decision_to_actions(heal_needed("bob", true));
    assert!(
        actions
            .iter()
            .any(|a| matches!(a, Action::SessionHealNeeded { .. })),
        "their X3DH is what resolves the wait; the heal is what applies it"
    );
    assert!(
        !actions
            .iter()
            .any(|a| matches!(a, Action::HeldPendingAck { .. }))
    );
}

#[test]
fn the_hold_is_asked_of_one_device_not_of_its_sibling() {
    let mut o = make_orchestrator("alice");
    o.handle_event(IncomingEvent::SriAnnounced {
        contact_id: "bob-phone".to_string(),
    });
    let actions = o.decision_to_actions(end_session_needed("bob-laptop"));
    assert!(
        actions
            .iter()
            .any(|a| matches!(a, Action::SendEndSession { .. })),
        "the sibling's ratchet is not waiting on anything"
    );
}

#[test]
fn the_hold_ends_when_the_peer_acknowledges() {
    let mut o = make_orchestrator("alice");
    o.handle_event(IncomingEvent::SriAnnounced {
        contact_id: "bob".to_string(),
    });
    o.handle_event(IncomingEvent::PeerAcked {
        contact_id: "bob".to_string(),
    });
    let actions = o.decision_to_actions(end_session_needed("bob"));
    assert!(
        actions
            .iter()
            .any(|a| matches!(a, Action::SendEndSession { .. })),
        "a genuine divergence still tears down, one confirm window later"
    );
}

#[test]
fn the_reopen_of_the_side_that_should_not_rebuild_waits_the_peers_turn() {
    let mut o = make_orchestrator(PEER_REBUILDS);
    o.handle_event(IncomingEvent::PeerToreDown {
        contact_id: "bob".to_string(),
    });
    let actions = o.handle_event(IncomingEvent::ReopenRequested {
        contact_id: "bob".to_string(),
    });
    assert!(
        actions.iter().any(|a| matches!(
            a,
            Action::ScheduleTimer { timer_id, delay_ms }
                if timer_id == "reopen:bob" && *delay_ms > PEER_TEARDOWN_QUIET_MS
        )),
        "the turn must outlast the teardown window, or taking the role finds our own \
         teardown still gated"
    );
    assert!(
        !actions
            .iter()
            .any(|a| matches!(a, Action::OpenSession { .. }))
    );
}

#[test]
fn the_role_is_taken_when_the_peers_rebuild_never_comes() {
    let clock = Arc::new(MockClock::new(1_000_000));
    let mut o = make_orchestrator_with_clock(PEER_REBUILDS, clock.clone());
    o.handle_event(IncomingEvent::PeerToreDown {
        contact_id: "bob".to_string(),
    });
    o.handle_event(IncomingEvent::ReopenRequested {
        contact_id: "bob".to_string(),
    });
    clock.advance_ms(RESPONDER_OVERRIDE_MS + 200);
    let actions = o.handle_event(IncomingEvent::TimerFired {
        timer_id: "reopen:bob".to_string(),
    });
    assert!(
        actions
            .iter()
            .any(|a| matches!(a, Action::OpenSession { contact_id } if contact_id == "bob")),
        "a wait with no end is the conversation stopping for good"
    );
}

#[test]
fn the_peers_turn_is_not_extended_by_tearing_down_again() {
    let clock = Arc::new(MockClock::new(1_000_000));
    let mut o = make_orchestrator_with_clock(PEER_REBUILDS, clock.clone());
    o.handle_event(IncomingEvent::PeerToreDown {
        contact_id: "bob".to_string(),
    });
    o.handle_event(IncomingEvent::ReopenRequested {
        contact_id: "bob".to_string(),
    });
    clock.advance_ms(RESPONDER_OVERRIDE_MS / 2);
    o.handle_event(IncomingEvent::PeerToreDown {
        contact_id: "bob".to_string(),
    });
    clock.advance_ms(RESPONDER_OVERRIDE_MS / 2 + 200);
    let actions = o.handle_event(IncomingEvent::TimerFired {
        timer_id: "reopen:bob".to_string(),
    });
    assert!(
        actions
            .iter()
            .any(|a| matches!(a, Action::OpenSession { contact_id } if contact_id == "bob")),
        "the turn is bounded from the ratchet's death, not from the peer's last word"
    );
}

#[test]
fn a_queued_message_does_not_wait_the_peers_turn_out() {
    let clock = Arc::new(MockClock::new(1_000_000));
    let mut o = make_orchestrator_with_clock(PEER_REBUILDS, clock.clone());
    o.handle_event(IncomingEvent::PeerToreDown {
        contact_id: "bob".to_string(),
    });
    o.decision_to_actions(need_session_init("bob"));
    clock.advance_ms(REOPEN_QUIET_MS + 200);
    let actions = o.handle_event(IncomingEvent::TimerFired {
        timer_id: "reopen:bob".to_string(),
    });
    assert!(
        actions
            .iter()
            .any(|a| matches!(a, Action::OpenSession { contact_id } if contact_id == "bob"))
    );
}

#[test]
fn a_reopen_of_a_quiet_device_goes_straight_out() {
    let mut o = make_orchestrator(PEER_REBUILDS);
    let actions = o.handle_event(IncomingEvent::ReopenRequested {
        contact_id: "bob".to_string(),
    });
    assert_eq!(actions.len(), 1);
    assert!(matches!(&actions[0], Action::OpenSession { contact_id } if contact_id == "bob"));
}

#[test]
fn a_flush_of_teardowns_produces_no_re_init_while_it_is_still_arriving() {
    let mut o = make_orchestrator("alice");
    let mut all = Vec::new();
    for _ in 0..3 {
        o.handle_event(IncomingEvent::PeerToreDown {
            contact_id: "bob".to_string(),
        });
        all.extend(o.handle_event(IncomingEvent::ReopenRequested {
            contact_id: "bob".to_string(),
        }));
    }
    assert!(
        !all.iter().any(|a| matches!(a, Action::OpenSession { .. })),
        "three teardowns in one flush must not start three announces"
    );
    assert_eq!(
        all.iter()
            .filter(|a| matches!(a, Action::OpenDeferred { .. }))
            .count(),
        3,
        "each ask is answered — silence is what iOS read as a drop"
    );
}

#[test]
fn the_held_re_init_runs_once_the_quiet_passes() {
    let clock = Arc::new(MockClock::new(1_000_000));
    let mut o = make_orchestrator_with_clock(WE_REBUILD, clock.clone());
    o.handle_event(IncomingEvent::PeerToreDown {
        contact_id: "bob".to_string(),
    });
    o.handle_event(IncomingEvent::ReopenRequested {
        contact_id: "bob".to_string(),
    });
    clock.advance_ms(REOPEN_QUIET_MS + 200);
    let actions = o.handle_event(IncomingEvent::TimerFired {
        timer_id: "reopen:bob".to_string(),
    });
    assert!(
        actions
            .iter()
            .any(|a| matches!(a, Action::OpenSession { contact_id } if contact_id == "bob")),
        "the core owns the alarm, so the core is what pays it"
    );
}

#[test]
fn a_message_needing_a_session_waits_for_the_peers_flush_too() {
    let mut o = make_orchestrator("alice");
    o.handle_event(IncomingEvent::PeerToreDown {
        contact_id: "bob".to_string(),
    });
    let actions = o.decision_to_actions(need_session_init("bob"));
    assert!(
        !actions
            .iter()
            .any(|a| matches!(a, Action::FetchPublicKeyBundle { .. })),
        "the bundle fetch is what starts the crossing init"
    );
    assert!(
        actions
            .iter()
            .any(|a| matches!(a, Action::MessageQueuedPendingInit { .. }))
    );
    assert!(
        actions.iter().any(
            |a| matches!(a, Action::ScheduleTimer { timer_id, .. } if timer_id == "reopen:bob")
        ),
        "a queued message is not re-delivered, so only our own alarm brings it back"
    );
}

#[test]
fn the_queued_message_is_recovered_by_an_announce_when_the_quiet_passes() {
    let clock = Arc::new(MockClock::new(1_000_000));
    let mut o = make_orchestrator_with_clock("alice", clock.clone());
    o.handle_event(IncomingEvent::PeerToreDown {
        contact_id: "bob".to_string(),
    });
    o.decision_to_actions(need_session_init("bob"));
    clock.advance_ms(REOPEN_QUIET_MS + 200);
    let actions = o.handle_event(IncomingEvent::TimerFired {
        timer_id: "reopen:bob".to_string(),
    });
    assert_eq!(actions.len(), 1);
    assert!(matches!(&actions[0], Action::OpenSession { contact_id } if contact_id == "bob"));
}

#[test]
fn two_callers_held_by_one_quiet_produce_one_open() {
    let clock = Arc::new(MockClock::new(1_000_000));
    let mut o = make_orchestrator_with_clock(WE_REBUILD, clock.clone());
    o.handle_event(IncomingEvent::PeerToreDown {
        contact_id: "bob".to_string(),
    });
    o.decision_to_actions(need_session_init("bob"));
    let held = o.handle_event(IncomingEvent::ReopenRequested {
        contact_id: "bob".to_string(),
    });
    assert!(
        held.iter().any(
            |a| matches!(a, Action::ScheduleTimer { timer_id, .. } if timer_id == "reopen:bob")
        ),
        "both callers wait on the one alarm"
    );
    clock.advance_ms(REOPEN_QUIET_MS + 200);
    let first = o.handle_event(IncomingEvent::TimerFired {
        timer_id: "reopen:bob".to_string(),
    });
    let second = o.handle_event(IncomingEvent::TimerFired {
        timer_id: "reopen:bob".to_string(),
    });
    assert_eq!(first.len(), 1);
    assert!(matches!(&first[0], Action::OpenSession { .. }));
    assert!(
        second.is_empty(),
        "the alarm firing twice does not announce twice — the first open holds the phase"
    );
}

#[test]
fn a_session_that_came_back_during_the_quiet_cancels_the_re_init() {
    let clock = Arc::new(MockClock::new(1_000_000));
    let mut o = make_orchestrator_with_clock(WE_REBUILD, clock.clone());
    o.handle_event(IncomingEvent::PeerToreDown {
        contact_id: "bob".to_string(),
    });
    o.handle_event(IncomingEvent::ReopenRequested {
        contact_id: "bob".to_string(),
    });
    o.sessions.handle("bob", SessionEvent::OpenFinished);
    clock.advance_ms(REOPEN_QUIET_MS + 200);
    let actions = o.handle_event(IncomingEvent::TimerFired {
        timer_id: "reopen:bob".to_string(),
    });
    assert!(
        actions
            .iter()
            .any(|a| matches!(a, Action::OpenSession { .. })),
        "a cleared phase reopens immediately; it is the quiet that must not survive it"
    );
}

#[test]
fn an_announcement_arms_the_confirm_alarm() {
    let mut o = make_orchestrator("alice");
    let actions = o.handle_event(IncomingEvent::SriAnnounced {
        contact_id: "bob".to_string(),
    });
    assert_eq!(actions.len(), 1);
    assert!(
        matches!(&actions[0], Action::ScheduleTimer { timer_id, .. } if timer_id == "open_confirm:bob"),
        "nothing else wakes the orchestrator to re-send an unacknowledged SRI"
    );
    assert!(o.awaits_acknowledgement("bob"));
}

#[test]
fn a_finished_init_alone_arms_no_confirm_alarm() {
    let mut o = make_orchestrator("alice");
    o.sessions.handle("bob", SessionEvent::WantToOpen);
    let actions = o.handle_event(IncomingEvent::SessionInitCompleted {
        contact_id: "bob".to_string(),
        session_data: vec![],
    });
    assert!(
        !actions.iter().any(
            |a| matches!(a, Action::ScheduleTimer { timer_id, .. } if timer_id.starts_with("open_confirm:"))
        )
    );
    assert!(!o.awaits_acknowledgement("bob"));
}

#[test]
fn the_confirm_alarm_re_sends_and_re_arms() {
    let clock = Arc::new(MockClock::new(1_000_000));
    let mut o = make_orchestrator_with_clock("alice", clock.clone());
    o.handle_event(IncomingEvent::SriAnnounced {
        contact_id: "bob".to_string(),
    });
    clock.advance_ms(SRI_RETRY_MS);
    let actions = o.handle_event(IncomingEvent::TimerFired {
        timer_id: "open_confirm:bob".to_string(),
    });
    assert!(
        actions
            .iter()
            .any(|a| matches!(a, Action::ResendSri { contact_id } if contact_id == "bob"))
    );
    assert!(
        actions.iter().any(
            |a| matches!(a, Action::ScheduleTimer { timer_id, .. } if timer_id == "open_confirm:bob")
        ),
        "a retry that does not re-arm is the single-shot watchdog again"
    );
}

#[test]
fn the_confirm_alarm_gives_up_at_the_window_and_does_not_re_arm() {
    let clock = Arc::new(MockClock::new(1_000_000));
    let mut o = make_orchestrator_with_clock("alice", clock.clone());
    o.handle_event(IncomingEvent::SriAnnounced {
        contact_id: "bob".to_string(),
    });
    clock.advance_ms(OPENING_CONFIRM_WINDOW_MS + 1);
    let actions = o.handle_event(IncomingEvent::TimerFired {
        timer_id: "open_confirm:bob".to_string(),
    });
    assert_eq!(actions.len(), 1);
    assert!(matches!(&actions[0], Action::OpeningGaveUp { contact_id } if contact_id == "bob"));
}

#[test]
fn the_peers_acknowledgement_ends_the_wait_and_the_alarm() {
    let mut o = make_orchestrator("alice");
    o.handle_event(IncomingEvent::SriAnnounced {
        contact_id: "bob".to_string(),
    });
    let actions = o.handle_event(IncomingEvent::PeerAcked {
        contact_id: "bob".to_string(),
    });
    assert_eq!(o.sessions.phase("bob"), Phase::Absent);
    assert!(actions.iter().any(
        |a| matches!(a, Action::CancelTimer { timer_id } if timer_id == "open_confirm:bob")
    ));
}

#[test]
fn test_end_session_suppressed_by_cooldown_is_owed_not_dropped() {
    let mut o = make_orchestrator("alice");
    let _ = o.decision_to_actions(end_session_needed("bob"));

    let actions = o.decision_to_actions(end_session_needed("bob"));

    assert!(
        actions
            .iter()
            .any(|a| matches!(a, Action::EndSessionSuppressed { contact_id, .. } if contact_id == "bob")),
        "the platform must be told, not handed an empty list it has to guess about"
    );
    assert!(
        actions
            .iter()
            .any(|a| matches!(a, Action::ScheduleTimer { timer_id, .. } if timer_id == "cooldown_expired:bob")),
        "nothing else will wake the orchestrator to pay the debt"
    );
    assert!(o.sessions.owes_teardown("bob"));
}

#[test]
fn test_owed_end_session_is_sent_when_the_cooldown_expires() {
    let clock = Arc::new(MockClock::new(1_000_000));
    let mut o = make_orchestrator_with_clock("alice", clock.clone());
    let _ = o.decision_to_actions(end_session_needed("bob"));
    let _ = o.decision_to_actions(end_session_needed("bob"));

    clock.advance_ms(END_SESSION_COOLDOWN_MS + 200);
    let actions = o.handle_event(IncomingEvent::TimerFired {
        timer_id: "cooldown_expired:bob".to_string(),
    });

    assert!(
        actions
            .iter()
            .any(|a| matches!(a, Action::SendEndSession { contact_id } if contact_id == "bob")),
        "the teardown the cooldown deferred must actually go out"
    );
    assert!(!o.sessions.owes_teardown("bob"), "and only once");
}

#[test]
fn test_three_suppressions_in_one_window_collapse_into_one_teardown() {
    let clock = Arc::new(MockClock::new(1_000_000));
    let mut o = make_orchestrator_with_clock("alice", clock.clone());
    let _ = o.decision_to_actions(end_session_needed("bob"));
    for _ in 0..3 {
        let _ = o.decision_to_actions(end_session_needed("bob"));
    }

    clock.advance_ms(END_SESSION_COOLDOWN_MS + 200);
    let actions = o.handle_event(IncomingEvent::TimerFired {
        timer_id: "cooldown_expired:bob".to_string(),
    });

    let sends = actions
        .iter()
        .filter(|a| matches!(a, Action::SendEndSession { .. }))
        .count();
    assert_eq!(sends, 1);
}

#[test]
fn test_owed_end_session_is_void_once_the_session_is_re_established() {
    let clock = Arc::new(MockClock::new(1_000_000));
    let mut o = make_orchestrator_with_clock("alice", clock.clone());
    let _ = o.decision_to_actions(end_session_needed("bob"));
    let _ = o.decision_to_actions(end_session_needed("bob"));
    assert!(o.sessions.owes_teardown("bob"));

    let _ = o.handle_event(IncomingEvent::SessionInitCompleted {
        contact_id: "bob".to_string(),
        session_data: vec![],
    });

    clock.advance_ms(END_SESSION_COOLDOWN_MS + 200);
    let actions = o.handle_event(IncomingEvent::TimerFired {
        timer_id: "cooldown_expired:bob".to_string(),
    });

    assert!(
        !actions
            .iter()
            .any(|a| matches!(a, Action::SendEndSession { .. })),
        "the session that replaced the broken one must not be torn down by its debt"
    );
}

#[test]
fn test_a_timer_for_a_contact_with_no_debt_sends_nothing() {
    let mut o = make_orchestrator("alice");
    let actions = o.handle_event(IncomingEvent::TimerFired {
        timer_id: "cooldown_expired:bob".to_string(),
    });
    assert!(
        !actions
            .iter()
            .any(|a| matches!(a, Action::SendEndSession { .. }))
    );
}

#[test]
fn test_end_session_off_cooldown_is_still_sent_immediately() {
    let mut o = make_orchestrator("alice");
    let actions = o.decision_to_actions(end_session_needed("bob"));
    assert!(
        actions
            .iter()
            .any(|a| matches!(a, Action::SendEndSession { contact_id } if contact_id == "bob"))
    );
    assert!(!o.sessions.owes_teardown("bob"));
}

#[test]
fn test_message_arriving_during_init_is_reported_queued_not_dropped() {
    let mut o = make_orchestrator("alice");
    o.sessions.handle("bob", SessionEvent::WantToOpen);

    let actions = o.decision_to_actions(
        RoutingDecision::NeedSessionInit {
            contact_id: "bob".to_string(),
            queued_count: 2,
        });

    assert!(matches!(
        actions.as_slice(),
        [Action::MessageQueuedPendingInit { contact_id, queued_count }]
            if contact_id == "bob" && *queued_count == 2
    ));
}

#[test]
fn test_no_cooldown_initially() {
    let mut o = make_orchestrator("alice");
    assert_eq!(o.sessions.phase("bob"), Phase::Absent);
    assert!(
        o.decision_to_actions(end_session_needed("bob"))
            .iter()
            .any(|a| matches!(a, Action::SendEndSession { .. }))
    );
}

fn hold_session_with_new_peer<C: Clock>(o: &mut Orchestrator<C, ToyEngine>) -> String {
    let peer = new_client();
    let bundle = peer.keys.export_registration_bundle();
    let device = peer.engine.derive_device_id(&bundle.identity_public);
    o.lifecycle
        .client
        .init_session_with_pq(&device, &bundle, 0, false, &None)
        .unwrap();
    device
}

fn pays_teardown(actions: &[Action], device: &str) -> bool {
    actions
        .iter()
        .any(|a| matches!(a, Action::SendEndSession { contact_id } if contact_id == device))
}

#[test]
fn an_owed_teardown_against_the_session_still_held_is_paid() {
    let clock = Arc::new(MockClock::new(1_000_000));
    let mut o = make_orchestrator_with_clock("alice", clock.clone());
    let device = hold_session_with_new_peer(&mut o);

    let granted = o.decision_to_actions(end_session_needed(&device));
    assert!(
        pays_teardown(&granted, &device),
        "the first teardown goes out"
    );
    let deferred = o.decision_to_actions(end_session_needed(&device));
    assert!(o.sessions.owes_teardown(&device), "the second is owed");
    assert!(!pays_teardown(&deferred, &device));
    assert!(
        o.lifecycle.has_active_session(&device),
        "the premise: still held"
    );

    clock.advance_ms(END_SESSION_COOLDOWN_MS + 1);
    let paid = o.handle_event(IncomingEvent::TimerFired {
        timer_id: format!("cooldown_expired:{device}"),
    });
    assert!(
        pays_teardown(&paid, &device),
        "the debt was owed against the session that is still held, and was dropped"
    );
}

#[test]
fn an_owed_teardown_is_void_once_a_different_session_holds_the_device() {
    let clock = Arc::new(MockClock::new(1_000_000));
    let mut o = make_orchestrator_with_clock("alice", clock.clone());
    let device = hold_session_with_new_peer(&mut o);

    let _ = o.decision_to_actions(end_session_needed(&device));
    let _ = o.decision_to_actions(end_session_needed(&device));
    let condemned = o.lifecycle.active_session_id(&device);
    assert!(condemned.is_some());

    o.lifecycle.client.remove_session(&device);
    let replaced = hold_session_with_new_peer_as(&mut o, &device);
    assert!(replaced);
    assert_ne!(
        o.lifecycle.active_session_id(&device),
        condemned,
        "the premise: a new session"
    );

    clock.advance_ms(END_SESSION_COOLDOWN_MS + 1);
    let paid = o.handle_event(IncomingEvent::TimerFired {
        timer_id: format!("cooldown_expired:{device}"),
    });
    assert!(
        !pays_teardown(&paid, &device),
        "a session established during the cooldown was torn down by a debt owed to its predecessor"
    );
}

fn hold_session_with_new_peer_as<C: Clock>(
    o: &mut Orchestrator<C, ToyEngine>,
    device: &str,
) -> bool {
    let bundle = new_client().keys.export_registration_bundle();
    o.lifecycle
        .client
        .init_session_with_pq(device, &bundle, 0, false, &None)
        .is_ok()
}

#[test]
fn an_arriving_reset_init_is_answered_apply_or_superseded() {
    let mut o = make_orchestrator("alice");
    let arrive = |o: &mut Device, key: u8, sent: u64, est: Option<u64>| {
        o.handle_event(IncomingEvent::ResetInitArrived {
            contact_id: "bob".into(),
            init_ephemeral: vec![key; 32],
            sent_at_s: sent,
            established_at_s: est,
        })
    };
    assert!(matches!(
        arrive(&mut o, 1, 100, None).as_slice(),
        [Action::ApplyResetInit { contact_id }] if contact_id == "bob"
    ));
    assert!(matches!(
        arrive(&mut o, 1, 100, None).as_slice(),
        [Action::ResetInitSuperseded { contact_id, redelivery: true }] if contact_id == "bob"
    ));
    assert!(matches!(
        arrive(&mut o, 2, 10, Some(1_000)).as_slice(),
        [Action::ResetInitSuperseded {
            redelivery: false,
            ..
        }]
    ));
}

#[test]
fn a_refused_decrypt_reports_its_cause_on_both_paths() {
    let mut o = make_orchestrator("alice");
    for (path, actions) in [
        (
            "tear down",
            o.decision_to_actions(end_session_needed("bob")),
        ),
        (
            "heal",
            o.decision_to_actions(heal_needed("carol", false)),
        ),
    ] {
        assert!(
            actions.iter().any(|a| matches!(
                a,
                Action::NotifyError { code, message }
                    if code == DECRYPT_FAILED && message == "AEAD decryption failed"
            )),
            "the {path} path lost the ratchet's reason: {actions:?}"
        );
    }
}

// ── Two devices ─────────────────────────────────────────────────────────────

fn device(name: &str) -> Device {
    let mut o = Orchestrator::new(new_client(), name.to_string());
    o.ensure_hybrid_signature_key().unwrap();
    o.begin_kyber_spk_rotation().unwrap();
    assert!(o.commit_kyber_spk_rotation());
    o
}

fn bundle_of(peer: &mut Device, with_otpk: bool) -> (X3DHPublicKeyBundle, KyberBundleKeys) {
    let x3dh = peer.get_registration_bundle_fields().unwrap();
    let hybrid = peer.hybrid_signature_public_key().unwrap();
    let bind = peer.build_hybrid_identity_bind_message(&hybrid);
    let binding = peer.sign_bundle_bytes(&bind).unwrap();
    let spk = peer.current_kyber_spk_upload().unwrap().unwrap();
    let otpk = if with_otpk {
        Some(peer.generate_kyber_one_time_prekeys(1).unwrap().remove(0))
    } else {
        None
    };
    let kyber = KyberBundleKeys {
        pre_key_id: Some(spk.key_id),
        pre_key_public: Some(spk.public_key),
        pre_key_created_at: Some(spk.created_at),
        pre_key_signature: Some(spk.signature),
        pre_key_hybrid_signature: Some(spk.hybrid_signature),
        one_time_prekey_id: otpk.as_ref().map(|k| k.key_id),
        one_time_prekey_public: otpk.as_ref().map(|k| k.public_key.clone()),
        one_time_prekey_created_at: otpk.as_ref().map(|k| k.created_at),
        one_time_prekey_signature: otpk.as_ref().map(|k| k.signature.clone()),
        one_time_prekey_hybrid_signature: otpk.as_ref().map(|k| k.hybrid_signature.clone()),
        hybrid_identity_key: Some(hybrid),
        hybrid_identity_signature: Some(binding),
    };
    (x3dh, kyber)
}

fn initiator_bundle(initiator: &Device) -> KeyBundle {
    let b = initiator.get_registration_bundle_fields().unwrap();
    KeyBundle {
        identity_public: b.identity_public,
        signed_prekey_public: b.signed_prekey_public,
        signature: b.signature,
        verifying_key: b.verifying_key,
        suite_id: b.suite_id.as_u16(),
    }
}

fn open(alice: &mut Device, bob: &mut Device, with_otpk: bool) {
    let (x3dh, kyber) = bundle_of(bob, with_otpk);
    alice
        .init_session_with_bundle("bob", x3dh, kyber, false)
        .unwrap();
}

#[test]
fn a_session_is_post_quantum_from_the_first_message() {
    let (mut alice, mut bob) = (device("alice"), device("bob"));
    open(&mut alice, &mut bob, true);
    let otpks_before = bob.kyber_one_time_prekey_count();

    let msg0 = alice.encrypt_bytes_for("bob", b"first").unwrap();
    let wire = unpack(&msg0).unwrap();
    assert!(wire.pqxdh_v2(), "the first flight carries the v2 flag");
    assert_eq!(
        wire.suite_id,
        3,
        "suite 3, bit stripped"
    );
    assert_eq!(wire.kem_ciphertext.as_ref().map(Vec::len), Some(1568));
    assert!(
        wire.kyber_otpk_id >= KYBER_OTPK_ID_START,
        "the one-time key"
    );

    let (_, plaintext) = bob
        .init_receiving_session_from_wire_payload(
            "alice",
            &initiator_bundle(&alice),
            &msg0,
        )
        .unwrap();
    assert_eq!(plaintext, b"first");
    assert_eq!(
        bob.kyber_one_time_prekey_count(),
        otpks_before - 1,
        "the one-time key is burned"
    );
    assert!(
        bob.take_kyber_prekeys_to_persist().is_some(),
        "and the burn must be persisted"
    );
    assert!(bob.take_kyber_prekeys_to_persist().is_none(), "once");

    let a = alice.get_session_health("bob").unwrap();
    let b = bob.get_session_health("alice").unwrap();
    assert_eq!(
        (a.pq_handshake, a.pq_authentication),
        (PqHandshake::InitialV2, PqAuthentication::Authenticated)
    );
    assert_eq!(
        (b.pq_handshake, b.pq_authentication),
        (PqHandshake::InitialV2, PqAuthentication::Received)
    );
    assert!(a.is_pq_strengthened && b.is_pq_strengthened);
}

#[test]
fn the_first_message_coming_round_again_is_a_duplicate_not_a_desync() {
    let (mut alice, mut bob) = (device("alice"), device("bob"));
    open(&mut alice, &mut bob, true);
    let msg0 = alice.encrypt_bytes_for("bob", b"first").unwrap();
    let msg1 = alice.encrypt_bytes_for("bob", b"second").unwrap();
    bob.init_receiving_session_from_wire_payload(
        "alice",
        &initiator_bundle(&alice),
        &msg0,
    )
    .unwrap();
    let session = bob.lifecycle.active_session_id("alice").unwrap();

    let err = bob
        .lifecycle
        .decrypt_wire_payload("alice", &msg0)
        .unwrap_err();
    assert!(
        err.starts_with(MESSAGE_KEY_CONSUMED),
        "{err}"
    );

    let received = |bob: &mut Device, id: &str, data: &[u8], msg_num: u32| {
        bob.handle_event(IncomingEvent::MessageReceived {
            message_id: id.to_string(),
            from: "alice".to_string(),
            data: data.to_vec(),
            msg_num,
            kem_ct: vec![],
            otpk_id: 0,
            is_control: false,
            content_type: 0,
        })
    };
    let again = received(&mut bob, "carrier", &msg0, 0);
    assert!(
        !again.iter().any(|a| matches!(
            a,
            Action::SessionHealNeeded { .. }
                | Action::HealSuppressed { .. }
                | Action::SendEndSession { .. }
                | Action::NotifyError { .. }
        )),
        "a copy of the carrier must not heal or tear down: {again:?}"
    );
    assert!(
        again.iter().any(
            |a| matches!(a, Action::DuplicateDropped { message_id } if message_id == "carrier")
        ),
        "and it is named a duplicate, not answered with silence: {again:?}"
    );
    assert_eq!(bob.lifecycle.active_session_id("alice").unwrap(), session);

    let next = received(&mut bob, "second", &msg1, 1);
    assert!(
        next.iter().any(|a| matches!(
            a,
            Action::MessageDecrypted { plaintext, .. } if plaintext == b"second"
        )),
        "the rest of the first flight still opens: {next:?}"
    );
}

#[test]
fn the_first_flight_repeats_the_header_until_the_peer_answers() {
    let (mut alice, mut bob) = (device("alice"), device("bob"));
    open(&mut alice, &mut bob, false);
    let _lost = alice.encrypt_bytes_for("bob", b"lost").unwrap();
    let msg1 = alice.encrypt_bytes_for("bob", b"second").unwrap();
    let wire1 = unpack(&msg1).unwrap();
    assert!(wire1.pqxdh_v2() && wire1.kem_ciphertext.is_some());
    assert!(
        wire1.kyber_otpk_id < KYBER_OTPK_ID_START,
        "no one-time key: the SPK"
    );

    let (_, plaintext) = bob
        .init_receiving_session_from_wire_payload(
            "alice",
            &initiator_bundle(&alice),
            &msg1,
        )
        .unwrap();
    assert_eq!(plaintext, b"second", "opened from the second message");

    let reply = bob.encrypt_bytes_for("bob-to-alice-unused", b"x");
    assert!(reply.is_err(), "sanity: no session under another id");
    let reply = bob.encrypt_bytes_for("alice", b"reply").unwrap();
    assert!(
        !unpack(&reply).unwrap().pqxdh_v2(),
        "the responder sends no header"
    );
    let decrypted = alice.lifecycle.decrypt_wire_payload("bob", &reply).unwrap();
    assert_eq!(decrypted.plaintext, b"reply");

    let after = alice.encrypt_bytes_for("bob", b"after").unwrap();
    let wire = unpack(&after).unwrap();
    assert!(
        !wire.pqxdh_v2() && wire.kem_ciphertext.is_none(),
        "answered: no header"
    );
    assert_eq!(
        bob.lifecycle
            .decrypt_wire_payload("alice", &after)
            .unwrap()
            .plaintext,
        b"after"
    );
}

#[test]
fn the_first_message_cannot_be_opened_without_the_kem_secret() {
    let (mut alice, mut bob) = (device("alice"), device("bob"));
    open(&mut alice, &mut bob, false);
    let mut msg0 = alice.encrypt_bytes_for("bob", b"secret").unwrap();
    msg0[HEADER_SIZE + 10] ^= 0x01;
    assert!(
        bob.init_receiving_session_from_wire_payload(
            "alice",
            &initiator_bundle(&alice),
            &msg0
        )
        .is_err()
    );
    assert!(
        bob.get_session_health("alice").is_none(),
        "no session left behind"
    );
}

#[test]
fn a_session_is_refused_before_anything_is_created() {
    let (mut alice, mut bob) = (device("alice"), device("bob"));
    let (x3dh, mut kyber) = bundle_of(&mut bob, false);
    kyber.pre_key_hybrid_signature = None;
    let err = alice
        .init_session_with_bundle("bob", x3dh.clone(), kyber, false)
        .unwrap_err();
    assert!(
        err.starts_with("PQ_REQUIRED: HybridSignatureMissing"),
        "{err}"
    );
    assert!(alice.get_session_health("bob").is_none());

    let err = alice
        .init_session_with_bundle("bob", x3dh, KyberBundleKeys::default(), false)
        .unwrap_err();
    assert!(
        err.starts_with("PQ_REQUIRED: HybridIdentityMissing"),
        "{err}"
    );
    assert!(alice.get_session_health("bob").is_none());
}

#[test]
fn a_changed_hybrid_identity_is_refused_across_a_restart() {
    let (mut alice, mut bob) = (device("alice"), device("bob"));
    open(&mut alice, &mut bob, false);
    let state = alice.export_orchestrator_state_cfe().unwrap();

    let mut restarted = device("alice");
    restarted.import_orchestrator_state_cfe(&state).unwrap();

    let (x3dh, mut kyber) = bundle_of(&mut bob, false);
    let foreign = ToyEngine::new().new_hybrid_pair().unwrap().public;
    let bind = bob.build_hybrid_identity_bind_message(&foreign);
    kyber.hybrid_identity_signature = Some(bob.sign_bundle_bytes(&bind).unwrap());
    kyber.hybrid_identity_key = Some(foreign);
    let err = restarted
        .init_session_with_bundle("bob", x3dh, kyber, false)
        .unwrap_err();
    assert!(
        err.starts_with("PQ_REQUIRED: HybridIdentityChanged"),
        "{err}"
    );
}

#[test]
fn a_burned_one_time_key_cannot_open_a_second_session() {
    let (mut alice, mut bob) = (device("alice"), device("bob"));
    open(&mut alice, &mut bob, true);
    let msg0 = alice.encrypt_bytes_for("bob", b"once").unwrap();
    let json = initiator_bundle(&alice);
    bob.init_receiving_session_from_wire_payload("alice", &json, &msg0)
        .unwrap();
    bob.lifecycle.client.remove_session("alice");
    let err = bob
        .init_receiving_session_from_wire_payload("alice", &json, &msg0)
        .unwrap_err();
    assert!(err.starts_with("PQXDH_KEY_UNAVAILABLE"), "{err}");
}

#[test]
fn a_first_message_without_the_handshake_is_refused() {
    let (mut alice, mut bob) = (device("alice"), device("bob"));
    open(&mut alice, &mut bob, false);
    let out = alice.encrypt_message_for("bob", b"old").unwrap();
    let stripped = OutgoingEncrypted {
        header: None,
        ..out
    }
    .pack()
    .unwrap();
    let err = bob
        .init_receiving_session_from_wire_payload(
            "alice",
            &initiator_bundle(&alice),
            &stripped,
        )
        .unwrap_err();
    assert!(err.starts_with("PQXDH_REQUIRED"), "{err}");
}

#[test]
fn the_header_survives_a_session_restore() {
    let (mut alice, mut bob) = (device("alice"), device("bob"));
    open(&mut alice, &mut bob, false);
    let saved = alice.lifecycle.export_session_bytes_for("bob").unwrap();
    alice.lifecycle.client.remove_session("bob");
    alice.lifecycle.import_session_bytes("bob", &saved).unwrap();
    let msg0 = alice.encrypt_bytes_for("bob", b"after restart").unwrap();
    assert!(unpack(&msg0).unwrap().pqxdh_v2());
    let (_, plaintext) = bob
        .init_receiving_session_from_wire_payload(
            "alice",
            &initiator_bundle(&alice),
            &msg0,
        )
        .unwrap();
    assert_eq!(plaintext, b"after restart");
    assert_eq!(
        alice.get_session_health("bob").unwrap().pq_handshake,
        PqHandshake::InitialV2
    );
}

fn classical(me: &mut Device, peer: &mut Device, contact_id: &str) {
    let (x3dh, _) = bundle_of(peer, false);
    me.lifecycle
        .client
        .init_session_with_pq(contact_id, &x3dh, 0, false, &None)
        .unwrap();
    assert_eq!(
        me.get_session_health(contact_id).unwrap().pq_handshake,
        PqHandshake::Classical
    );
}

fn deferred_v1(me: &mut Device, peer: &mut Device, contact_id: &str) {
        classical(me, peer, contact_id);
    let mut session = me.lifecycle.client.take_session(contact_id).unwrap();
    session.pq_handshake = PqHandshake::DeferredV1;
    me.lifecycle.client.import_session(contact_id, session);
    assert_eq!(
        me.get_session_health(contact_id).unwrap().pq_handshake,
        PqHandshake::DeferredV1
    );
}

fn sweep(o: &mut Device) -> Vec<Action> {
    o.handle_event(IncomingEvent::TimerFired {
        timer_id: "pq_upgrade_sweep".to_string(),
    })
}

fn opened(actions: &[Action]) -> Vec<String> {
    actions
        .iter()
        .filter_map(|a| match a {
            Action::OpenSession { contact_id } => Some(contact_id.clone()),
            _ => None,
        })
        .collect()
}

fn rearmed(actions: &[Action]) -> bool {
    actions.iter().any(|a| {
        matches!(a, Action::ScheduleTimer { timer_id, delay_ms }
            if timer_id == "pq_upgrade_sweep" && *delay_ms == PQ_UPGRADE_BATCH_INTERVAL_MS)
    })
}

#[test]
fn the_upgrade_sweep_reopens_only_classical_sessions_it_initiates() {
    let (mut zed, mut bob) = (device("zed"), device("bob"));
    classical(&mut zed, &mut bob, "amy");
    classical(&mut zed, &mut bob, "bob");
    deferred_v1(&mut zed, &mut bob, "cat");
    let (x3dh, kyber) = bundle_of(&mut bob, false);
    zed.init_session_with_bundle("dan", x3dh, kyber, false)
        .unwrap();
    classical(&mut zed, &mut bob, "zzz");

    let launched = zed.handle_event(IncomingEvent::AppLaunched);
    assert!(
        launched
            .iter()
            .any(|a| matches!(a, Action::ScheduleTimer { timer_id, delay_ms }
        if timer_id == "pq_upgrade_sweep" && *delay_ms == PQ_UPGRADE_SWEEP_DELAY_MS))
    );

    let first = sweep(&mut zed);
    assert_eq!(opened(&first), ["amy", "bob"]);
    assert!(!rearmed(&first));
    assert!(
        zed.sessions
            .handle("bob", SessionEvent::WantToOpen)
            .eq(&SessionEffect::WaitForOpen)
    );
    assert!(opened(&sweep(&mut zed)).is_empty());
}

#[test]
fn a_new_launch_asks_again_for_what_is_still_classical() {
    let (mut zed, mut bob) = (device("zed"), device("bob"));
    classical(&mut zed, &mut bob, "amy");
    classical(&mut zed, &mut bob, "bob");
    assert_eq!(opened(&sweep(&mut zed)), ["amy", "bob"]);
    let (x3dh, kyber) = bundle_of(&mut bob, false);
    zed.reopen_session_with_bundle("bob", x3dh, kyber, false)
        .unwrap();

    let mut relaunched = device("zed");
    for contact_id in ["amy", "bob"] {
        let saved = zed.lifecycle.export_session_bytes_for(contact_id).unwrap();
        relaunched
            .lifecycle
            .import_session_bytes(contact_id, &saved)
            .unwrap();
    }
    assert_eq!(opened(&sweep(&mut relaunched)), ["amy"]);
}

#[test]
fn the_upgrade_sweep_goes_in_batches() {
    let (mut zed, mut bob) = (device("zed"), device("bob"));
    let contacts: Vec<String> = (0..PQ_UPGRADE_BATCH + 2)
        .map(|i| format!("c{i:02}"))
        .collect();
    for contact_id in &contacts {
        classical(&mut zed, &mut bob, contact_id);
    }
    let first = sweep(&mut zed);
    assert_eq!(opened(&first), contacts[..PQ_UPGRADE_BATCH]);
    assert!(rearmed(&first));
    let second = sweep(&mut zed);
    assert_eq!(opened(&second), contacts[PQ_UPGRADE_BATCH..]);
    assert!(!rearmed(&second));
}

#[test]
fn a_refused_reopen_keeps_the_session_held() {
    let (mut zed, mut bob) = (device("zed"), device("bob"));
    classical(&mut zed, &mut bob, "bob");
    let before = zed.lifecycle.active_session_id("bob").unwrap();

    let (x3dh, _) = bundle_of(&mut bob, false);
    let err = zed
        .reopen_session_with_bundle("bob", x3dh, KyberBundleKeys::default(), false)
        .unwrap_err();
    assert!(err.starts_with("PQ_REQUIRED"), "{err}");
    assert_eq!(zed.lifecycle.active_session_id("bob").unwrap(), before);
    assert_eq!(
        zed.get_session_health("bob").unwrap().pq_handshake,
        PqHandshake::Classical
    );
    zed.encrypt_bytes_for("bob", b"still here").unwrap();
}

#[test]
fn a_refused_reopen_leaves_no_confirm_gate() {
    let (mut zed, mut bob) = (device("zed"), device("bob"));
    classical(&mut zed, &mut bob, "bob");
    assert_eq!(opened(&sweep(&mut zed)), ["bob"]);
    zed.handle_event(IncomingEvent::SriAnnounced {
        contact_id: "bob".to_string(),
    });
    assert!(zed.awaits_acknowledgement("bob"));

    let (x3dh, _) = bundle_of(&mut bob, false);
    zed.reopen_session_with_bundle("bob", x3dh, KyberBundleKeys::default(), false)
        .unwrap_err();
    assert!(!zed.awaits_acknowledgement("bob"));
    assert_eq!(
        zed.sessions.phase("bob"),
        Phase::Absent
    );
}

#[test]
fn an_accepted_reopen_is_v2_and_the_peer_opens_it() {
    let (mut zed, mut bob) = (device("zed"), device("bob"));
    classical(&mut zed, &mut bob, "bob");
    let before = zed.lifecycle.active_session_id("bob").unwrap();

    let (x3dh, kyber) = bundle_of(&mut bob, true);
    zed.reopen_session_with_bundle("bob", x3dh, kyber, false)
        .unwrap();
    assert_ne!(zed.lifecycle.active_session_id("bob").unwrap(), before);
    assert_eq!(
        zed.get_session_health("bob").unwrap().pq_handshake,
        PqHandshake::InitialV2
    );
    assert!(zed.pq_upgrade_candidates().is_empty());

    let msg0 = zed.encrypt_bytes_for("bob", b"upgraded").unwrap();
    let (_, plaintext) = bob
        .init_receiving_session_from_wire_payload("zed", &initiator_bundle(&zed), &msg0)
        .unwrap();
    assert_eq!(plaintext, b"upgraded");
    assert_eq!(
        bob.get_session_health("zed").unwrap().pq_handshake,
        PqHandshake::InitialV2
    );
}

fn named_device() -> (Device, String) {
    let mut o = device("pending");
    let identity = o.identity_public_key_bytes().unwrap();
    let id = o.lifecycle.client.engine.derive_device_id(&identity);
    o.set_my_user_id(id.clone());
    (o, id)
}

fn deliver(bob: &mut Device, from: &str, id: &str, wire: Vec<u8>, ct: u8) -> Vec<Action> {
    bob.handle_event(IncomingEvent::MessageReceived {
        message_id: id.to_string(),
        from: from.to_string(),
        data: wire,
        msg_num: 0,
        kem_ct: vec![],
        otpk_id: 0,
        is_control: false,
        content_type: ct,
    })
}

fn decrypted(actions: &[Action]) -> Vec<(String, Vec<u8>)> {
    actions
        .iter()
        .filter_map(|a| match a {
            Action::MessageDecrypted {
                message_id,
                plaintext,
                ..
            } => Some((message_id.clone(), plaintext.clone())),
            _ => None,
        })
        .collect()
}

#[test]
fn a_first_contact_opens_from_the_cores_own_queue() {
    let (mut alice, alice_id) = named_device();
    let (mut bob, bob_id) = named_device();
    let (x3dh, kyber) = bundle_of(&mut bob, true);
    alice
        .init_session_with_bundle(&bob_id, x3dh, kyber, false)
        .unwrap();
    let msg0 = alice.encrypt_bytes_for(&bob_id, b"first").unwrap();
    let msg1 = alice.encrypt_bytes_for(&bob_id, b"second").unwrap();

    let queued = deliver(&mut bob, &alice_id, "m0", msg0, 0);
    assert!(
        queued
            .iter()
            .any(|a| matches!(a, Action::FetchPublicKeyBundle { .. })),
        "{queued:?}"
    );
    deliver(&mut bob, &alice_id, "m1", msg1, 0);

    let alice_bundle = alice.get_registration_bundle_fields().unwrap();
    let opened = bob.open_receiving(&alice_id, &[alice_bundle]);

    assert_eq!(opened.opened_device.as_deref(), Some(alice_id.as_str()));
    assert_eq!(opened.opener_message_id.as_deref(), Some("m0"));
    assert_eq!(
        decrypted(&opened.actions),
        vec![
            ("m0".to_string(), b"first".to_vec()),
            ("m1".to_string(), b"second".to_vec())
        ]
    );
    assert!(opened.actions.iter().any(|a| matches!(
        a,
        Action::SaveToSecureStore {
            slot: SecureStoreSlot::Session { .. },
            ..
        }
    )));
    assert!(bob.router.pending_messages(&alice_id).is_empty());
    assert_eq!(
        bob.get_session_health(&alice_id).unwrap().pq_handshake,
        PqHandshake::InitialV2
    );
}

#[test]
fn a_wrong_claim_costs_an_attempt_and_is_reported() {
    let (mut alice, alice_id) = named_device();
    let (sibling, sibling_id) = named_device();
    let (mut bob, bob_id) = named_device();
    let (x3dh, kyber) = bundle_of(&mut bob, false);
    alice
        .init_session_with_bundle(&bob_id, x3dh, kyber, false)
        .unwrap();
    let msg0 = alice.encrypt_bytes_for(&bob_id, b"hello").unwrap();

    deliver(&mut bob, &sibling_id, "m0", msg0, 0);
    let bundles = [
        sibling.get_registration_bundle_fields().unwrap(),
        alice.get_registration_bundle_fields().unwrap(),
    ];
    let opened = bob.open_receiving(&sibling_id, &bundles);

    assert_eq!(opened.opened_device.as_deref(), Some(alice_id.as_str()));
    assert!(
        bob.lifecycle.client.has_session(&alice_id)
            && !bob.lifecycle.client.has_session(&sibling_id)
    );
    assert!(opened.actions.iter().any(
        |a| matches!(a, Action::NotifyError { code, .. } if code == "sender_device_mismatch")
    ));
    assert_eq!(
        decrypted(&opened.actions),
        vec![("m0".to_string(), b"hello".to_vec())]
    );
}

#[test]
fn a_walk_that_opens_nothing_keeps_the_session_it_found() {
    let (mut alice, alice_id) = named_device();
    let (mut bob, bob_id) = named_device();
    let (x3dh, kyber) = bundle_of(&mut bob, false);
    alice
        .init_session_with_bundle(&bob_id, x3dh, kyber, false)
        .unwrap();
    let msg0 = alice.encrypt_bytes_for(&bob_id, b"first").unwrap();
    bob.init_receiving_session_from_wire_payload(
        &alice_id,
        &initiator_bundle(&alice),
        &msg0,
    )
    .unwrap();
    let before = bob.get_session_health(&alice_id).unwrap().session_id;

    let (mut alice2, _) = named_device();
    let (x3dh, kyber) = bundle_of(&mut bob, false);
    alice2.set_my_user_id(alice_id.clone());
    alice2
        .init_session_with_bundle(&bob_id, x3dh, kyber, false)
        .unwrap();
    let reinit = alice2.encrypt_bytes_for(&bob_id, b"again").unwrap();
    let healed = deliver(&mut bob, &alice_id, "m-heal", reinit, 0);
    assert!(
        healed
            .iter()
            .any(|a| matches!(a, Action::SessionHealNeeded { .. })),
        "{healed:?}"
    );
    assert_eq!(
        bob.router.pending_messages(&alice_id).len(),
        1,
        "the heal's carrier waits in the queue"
    );

    let opened = bob.open_receiving(
        &alice_id,
        &[alice.get_registration_bundle_fields().unwrap()],
    );
    assert!(opened.opened_device.is_none());
    assert_eq!(opened.tried_message_ids, vec!["m-heal".to_string()]);
    assert_eq!(
        bob.get_session_health(&alice_id).unwrap().session_id,
        before,
        "the held session is untouched"
    );
    assert!(bob.router.pending_messages(&alice_id).is_empty());
}

#[test]
fn a_heal_opens_from_its_queued_carrier_and_archives_the_old_session() {
    let (mut alice, alice_id) = named_device();
    let (mut bob, bob_id) = named_device();
    let (x3dh, kyber) = bundle_of(&mut bob, false);
    alice
        .init_session_with_bundle(&bob_id, x3dh, kyber, false)
        .unwrap();
    let msg0 = alice.encrypt_bytes_for(&bob_id, b"first").unwrap();
    bob.init_receiving_session_from_wire_payload(
        &alice_id,
        &initiator_bundle(&alice),
        &msg0,
    )
    .unwrap();
    let before = bob.get_session_health(&alice_id).unwrap().session_id;

    alice.remove_session_by_contact(&bob_id);
    let (x3dh, kyber) = bundle_of(&mut bob, false);
    alice
        .init_session_with_bundle(&bob_id, x3dh, kyber, false)
        .unwrap();
    let reinit = alice.encrypt_bytes_for(&bob_id, b"again").unwrap();
    deliver(&mut bob, &alice_id, "m-heal", reinit, 0);

    let opened = bob.open_receiving(
        &alice_id,
        &[alice.get_registration_bundle_fields().unwrap()],
    );
    assert_eq!(opened.opened_device.as_deref(), Some(alice_id.as_str()));
    assert_eq!(
        decrypted(&opened.actions),
        vec![("m-heal".to_string(), b"again".to_vec())]
    );
    assert!(opened.actions.iter().any(
        |a| matches!(a, Action::SessionTerminated { contact_id, .. } if *contact_id == alice_id)
    ), "the replaced session is archived");
    assert_ne!(
        bob.get_session_health(&alice_id).unwrap().session_id,
        before
    );
}

#[test]
fn an_exhausted_heal_drops_its_carriers() {
    let (mut alice, alice_id) = named_device();
    let (mut bob, bob_id) = named_device();
    let (x3dh, kyber) = bundle_of(&mut bob, false);
    alice
        .init_session_with_bundle(&bob_id, x3dh, kyber, false)
        .unwrap();
    let msg0 = alice.encrypt_bytes_for(&bob_id, b"first").unwrap();
    bob.init_receiving_session_from_wire_payload(
        &alice_id,
        &initiator_bundle(&alice),
        &msg0,
    )
    .unwrap();
    let (mut other, _) = named_device();
    other.set_my_user_id(alice_id.clone());
    let (x3dh, kyber) = bundle_of(&mut bob, false);
    other
        .init_session_with_bundle(&bob_id, x3dh, kyber, false)
        .unwrap();
    deliver(
        &mut bob,
        &alice_id,
        "m-heal",
        other.encrypt_bytes_for(&bob_id, b"x").unwrap(),
        0,
    );
    assert_eq!(bob.router.pending_messages(&alice_id).len(), 1);

    let mut last = Vec::new();
    for _ in 0..10 {
        last = bob.handle_event(IncomingEvent::HealAttempted {
            contact_id: alice_id.clone(),
        });
        if last
            .iter()
            .any(|a| matches!(a, Action::HealExhausted { .. }))
        {
            break;
        }
    }
    assert!(
        last.iter()
            .any(|a| matches!(a, Action::HealExhausted { .. })),
        "{last:?}"
    );
    assert!(bob.router.pending_messages(&alice_id).is_empty());
}

#[test]
fn a_redelivered_first_message_queues_once() {
    let (mut alice, alice_id) = named_device();
    let (mut bob, bob_id) = named_device();
    let (x3dh, kyber) = bundle_of(&mut bob, false);
    alice
        .init_session_with_bundle(&bob_id, x3dh, kyber, false)
        .unwrap();
    let msg0 = alice.encrypt_bytes_for(&bob_id, b"first").unwrap();
    deliver(&mut bob, &alice_id, "m0", msg0.clone(), 0);
    deliver(&mut bob, &alice_id, "m0", msg0, 0);
    assert_eq!(bob.router.pending_messages(&alice_id).len(), 1);
}

// ── Keys ────────────────────────────────────────────────────────────────────

#[test]
fn one_time_prekeys_are_numbered_on() {
    let mut o = make_orchestrator("alice");
    let first = o.generate_otpks(2).unwrap();
    let second = o.generate_otpks(1).unwrap();
    assert_eq!(first.iter().map(|k| k.0).collect::<Vec<_>>(), vec![1, 2]);
    assert_eq!(second[0].0, 3);
    assert_eq!(o.otpk_count(), 3);
    assert_eq!(o.export_otpks()[2].public_key, second[0].1);
    assert_eq!(o.prune_otpks_below(3), 2);
    assert_eq!(o.otpk_count(), 1);
    assert_eq!(o.export_otpks()[0].key_id, 3);
}

#[test]
fn one_time_prekeys_survive_their_record() {
    let mut o = make_orchestrator("alice");
    o.generate_otpks(3).unwrap();
    let record = o.export_otpks_cfe().unwrap();
    let mut other = make_orchestrator("alice");
    other.import_otpks_cfe(&record).unwrap();
    assert_eq!(other.otpk_count(), 3);
    assert_eq!(other.generate_otpks(1).unwrap()[0].0, 4);
    assert!(other.import_otpks_cfe(b"nothing").is_err());
    assert_eq!(other.otpk_count(), 4, "a record that cannot be read changes nothing");
    other.import_otpks(Vec::new());
    assert_eq!(other.otpk_count(), 0);
}

#[test]
fn prekey_ids_run_out() {
    let mut o = make_orchestrator("alice");
    o.lifecycle.client.keys.next_otpk_id = u32::MAX;
    assert_eq!(o.generate_otpks(1).unwrap_err(), IDS_EXHAUSTED);
    assert_eq!(o.otpk_count(), 0);
    o.lifecycle.client.keys.signed_prekey.key_id = u32::MAX;
    assert_eq!(o.rotate_spk().unwrap_err(), IDS_EXHAUSTED);

    let mut o = device("alice");
    o.lifecycle.client.keys.kyber.next_otpk_id = u32::MAX - 1;
    assert_eq!(o.generate_kyber_one_time_prekeys(2).unwrap_err(), IDS_EXHAUSTED);
    assert_eq!(o.generate_kyber_one_time_prekeys(1).unwrap().len(), 1);
    o.lifecycle.client.keys.kyber.next_spk_id = KYBER_OTPK_ID_START - 1;
    assert_eq!(o.begin_kyber_spk_rotation().unwrap_err(), IDS_EXHAUSTED);
}

#[test]
fn a_rotated_signed_prekey_is_signed_by_the_identity() {
    let mut o = make_orchestrator("alice");
    assert_eq!(o.prekeys_available(), 1);
    let (id, public, signature) = o.rotate_spk().unwrap();
    assert_eq!(id, 2);
    assert_eq!(o.prekeys_available(), 2);
    let bundle = o.get_registration_bundle_fields().unwrap();
    assert_eq!(bundle.signed_prekey_public, public);
    let message = Device::build_x3dh_sign_message(1, &public);
    assert!(o.lifecycle.client.engine.verify(&bundle.verifying_key, &message, &signature));
    assert_eq!(o.sign_bundle_bytes(&message).unwrap(), signature);
}

#[test]
fn the_signed_messages_have_their_layout() {
    let mut x3dh = b"KonstruktX3DH-v1".to_vec();
    x3dh.extend([0x00, 0x01, 0xAA, 0xBB]);
    assert_eq!(Device::build_x3dh_sign_message(1, &[0xAA, 0xBB]), x3dh);
    let mut kyber = b"KonstruktX3DH-v1".to_vec();
    kyber.extend([0x00, 0x11, 0, 0, 0, 0, 0x01, 0x02, 0x03, 0x04, 0xCC]);
    assert_eq!(kyber_prekey_sign_message_v2(0x01020304, &[0xCC]), kyber);
}

#[test]
fn a_hybrid_signature_needs_its_key() {
    let mut o = make_orchestrator("alice");
    assert!(o.hybrid_signature_public_key().is_none());
    assert_eq!(o.sign_hybrid(b"m").unwrap_err(), NO_HYBRID_KEY);
    assert_eq!(o.begin_kyber_spk_rotation().unwrap_err(), NO_HYBRID_KEY);
    assert!(o.current_kyber_spk_upload().unwrap().is_none());

    let public = o.ensure_hybrid_signature_key().unwrap();
    assert_eq!(o.ensure_hybrid_signature_key().unwrap(), public, "made once");
    let signature = o.sign_hybrid_prekey(1, b"key").unwrap();
    let message = Device::build_x3dh_sign_message(1, b"key");
    assert!(o.lifecycle.client.engine.verify_hybrid(&public, &message, &signature));
}

#[test]
fn a_hybrid_key_can_be_taken_over() {
    let engine = ToyEngine::new();
    let pair = engine.new_hybrid_pair().unwrap();
    let mut o = make_orchestrator("alice");
    o.import_hybrid_signature_private_key(pair.secret).unwrap();
    assert_eq!(o.hybrid_signature_public_key(), Some(pair.public.clone()));
    assert!(o.import_hybrid_signature_private_key(vec![1]).is_err());
    assert_eq!(o.hybrid_signature_public_key(), Some(pair.public));
}

#[test]
fn a_kyber_rotation_serves_nothing_until_it_is_committed() {
    let mut o = device("alice");
    let served = o.current_kyber_spk_upload().unwrap().unwrap();
    let waiting = o.begin_kyber_spk_rotation().unwrap();
    assert_ne!(waiting.key_id, served.key_id);
    assert_eq!(o.current_kyber_spk_upload().unwrap().unwrap().key_id, served.key_id);
    o.rollback_kyber_spk_rotation();
    assert!(!o.commit_kyber_spk_rotation(), "nothing waits");
    assert_eq!(o.current_kyber_spk_upload().unwrap().unwrap().key_id, served.key_id);

    let again = o.begin_kyber_spk_rotation().unwrap();
    assert_ne!(again.key_id, waiting.key_id, "an id is given out once");
    assert!(o.commit_kyber_spk_rotation());
    assert_eq!(o.current_kyber_spk_upload().unwrap().unwrap().key_id, again.key_id);
}

#[test]
fn a_replaced_kyber_prekey_opens_sessions_for_two_weeks() {
    let clock = Arc::new(MockClock::new(1_000_000_000));
    let mut o = make_orchestrator_with_clock("alice", clock.clone());
    o.ensure_hybrid_signature_key().unwrap();
    let first = o.begin_kyber_spk_rotation().unwrap();
    o.commit_kyber_spk_rotation();
    let sealed = o.lifecycle.client.engine.encapsulate(&first.public_key).unwrap();
    clock.advance_ms(60 * 24 * 3_600_000);
    o.begin_kyber_spk_rotation().unwrap();
    o.commit_kyber_spk_rotation();
    assert_eq!(
        o.kyber_prekey_decapsulate(first.key_id, &sealed.ciphertext).unwrap(),
        sealed.shared_secret,
        "replaced just now, however old"
    );

    clock.advance_ms(KYBER_SPK_RETENTION_SECS * 1_000);
    o.begin_kyber_spk_rotation().unwrap();
    o.commit_kyber_spk_rotation();
    assert!(o.kyber_prekey_decapsulate(first.key_id, &sealed.ciphertext).is_ok());
    clock.advance_ms(1_000);
    o.begin_kyber_spk_rotation().unwrap();
    o.commit_kyber_spk_rotation();
    assert_eq!(
        o.kyber_prekey_decapsulate(first.key_id, &sealed.ciphertext).unwrap_err(),
        "Kyber prekey 1 is not held"
    );
}

#[test]
fn kyber_prekeys_survive_their_record() {
    let mut o = device("alice");
    let made = o.generate_kyber_one_time_prekeys(3).unwrap();
    assert_eq!(made[0].key_id, KYBER_OTPK_ID_START);
    assert_eq!(made[2].key_id, KYBER_OTPK_ID_START + 2);
    let record = o.export_kyber_prekeys_cfe().unwrap();
    let mut other = device("alice");
    other.import_kyber_prekeys_cfe(&record).unwrap();
    assert_eq!(other.kyber_one_time_prekey_count(), 3);
    assert_eq!(other.prune_kyber_one_time_prekeys_below(KYBER_OTPK_ID_START + 1), 1);
    assert!(other.import_kyber_prekeys_cfe(b"CF").is_err());
    assert_eq!(other.kyber_one_time_prekey_count(), 2);
    assert!(other.take_kyber_prekeys_to_persist().is_none());
}

#[test]
fn private_and_public_keys_are_exported() {
    let o = make_orchestrator("alice");
    let keys = &o.lifecycle.client.keys;
    assert_eq!(o.get_signing_key_bytes().unwrap(), keys.signing.secret);
    assert_eq!(o.get_identity_key_bytes().unwrap(), keys.identity.secret);
    assert_eq!(o.identity_public_key_bytes().unwrap(), keys.identity.public);
    let bundle = Reader::new(&o.export_registration_bundle_cfe().unwrap(), BUNDLE_TAG)
        .unwrap()
        .bytes()
        .unwrap();
    assert_eq!(bundle, keys.identity.public);
    let private = Reader::new(&o.export_private_keys_cfe().unwrap(), PRIVATE_TAG)
        .unwrap()
        .bytes()
        .unwrap();
    assert_eq!(private, keys.identity.secret);
}

#[test]
fn a_hybrid_identity_is_fingerprinted_by_sha256() {
    let expected = "ba7816bf8f01cfea414140de5dae2223b00361a396177a9cb410ff61f20015ad";
    assert_eq!(hex(&hybrid_identity_fingerprint(b"abc")), expected);
}

// ── Session records ─────────────────────────────────────────────────────────

#[test]
fn a_session_record_names_its_session() {
    let (alice, _bob, alice_id, bob_id) = make_session_pair();
    let record = alice.export_session_bytes_for(&bob_id).unwrap();
    let id = alice.active_session_id(&bob_id).unwrap();

    let mut o = make_orchestrator(&alice_id);
    assert_eq!(o.get_session_suite_id(&bob_id), 0);
    assert_eq!(o.import_session_cfe(&bob_id, &record).unwrap(), id);
    assert_eq!(o.get_session_suite_id(&bob_id), 1);
    assert_eq!(o.get_all_session_contact_ids(), vec![bob_id.clone()]);
    assert_eq!(o.export_session_cfe(&bob_id).unwrap(), record);
    assert!(o.import_session_cfe(&bob_id, b"nothing").is_err());
    assert_eq!(
        o.export_session_cfe("nobody").unwrap_err(),
        "Session not found: nobody"
    );
    assert!(o.remove_session_by_contact(&bob_id));
    assert!(!o.remove_session_by_contact(&bob_id));
}

#[test]
fn an_archived_session_can_be_restored() {
    let (mut alice, mut bob, alice_id, bob_id) = make_session_pair();
    let before = alice.active_session_id(&bob_id);
    let actions = alice.archive_session(&bob_id);
    assert!(matches!(
        actions.as_slice(),
        [Action::SessionTerminated { contact_id, .. }] if *contact_id == bob_id
    ));
    assert!(!alice.has_active_session(&bob_id) && alice.has_archive(&bob_id));
    alice.restore_latest_archive(&bob_id).unwrap();
    assert_eq!(alice.active_session_id(&bob_id), before);
    let sent = alice.encrypt(&bob_id, b"again").unwrap();
    assert_eq!(bob.decrypt(&alice_id, sent.message).unwrap().plaintext, b"again");

    assert!(alice.archive_session("nobody").is_empty());
    alice.load_archive_bytes("carol", b"CF".to_vec());
    assert!(alice.has_archive("carol"));
    assert!(alice.restore_latest_archive("carol").is_err());
}

#[test]
fn an_archive_is_kept_for_a_day() {
    let clock = Arc::new(MockClock::new(500_000_000));
    let mut mgr =
        SessionLifecycleManager::new_with_clock(new_client(), "alice".to_string(), clock.clone());
    mgr.record_archive("bob", b"old".to_vec());
    clock.advance_ms(86_400_000);
    assert!(mgr.gc_old_archives().is_empty());
    clock.advance_ms(1_000);
    let actions = mgr.gc_old_archives();
    assert!(matches!(
        actions.as_slice(),
        [Action::SaveToSecureStore {
            slot: SecureStoreSlot::SessionArchive { contact_id },
            data,
        }] if contact_id == "bob" && data.is_empty()
    ));
    assert!(!mgr.has_archive("bob"));
}

#[test]
fn a_deferred_contribution_is_applied_once() {
    let (mut alice, mut bob, alice_id, bob_id) = make_session_pair();
    alice.pq_manager.register_shared_secret(&bob_id, 1, b"secret");
    bob.pq_manager.register_shared_secret(&alice_id, 1, b"secret");
    let applied = alice.maybe_apply_pq_contribution(&bob_id);
    assert_eq!(applied.len(), 3, "{applied:?}");
    assert!(alice.pq_manager.peek_deferred(&bob_id).is_none());
    assert!(alice.maybe_apply_pq_contribution(&bob_id).is_empty());

    let sent = alice.encrypt(&bob_id, b"mixed").unwrap();
    let payload = pack(
        &sent.message.dh_public_key,
        sent.message.message_number,
        0,
        0,
        0,
        1,
        None,
        &[sent.message.nonce.clone(), sent.message.ciphertext.clone()].concat(),
        0,
        None,
    )
    .unwrap();
    assert!(bob.decrypt_wire_payload(&alice_id, &payload).is_err());
    bob.maybe_apply_pq_contribution(&alice_id);
    assert_eq!(bob.decrypt_wire_payload(&alice_id, &payload).unwrap().plaintext, b"mixed");
}

#[test]
fn deferred_contributions_survive_their_record() {
    let mut mgr = SessionLifecycleManager::new(new_client(), "alice".to_string());
    mgr.pq_manager.register_shared_secret("bob", 7, b"pq");
    let record = mgr.export_kyber_session_state_cfe().unwrap();
    let mut other = SessionLifecycleManager::new(new_client(), "alice".to_string());
    other.import_kyber_session_state_cfe(&record).unwrap();
    let deferred = other.pq_manager.peek_deferred("bob").unwrap();
    assert_eq!((deferred.otpk_id, deferred.shared_secret), (7, b"pq".to_vec()));
    assert!(other.import_kyber_session_state_cfe(b"").is_err());
    assert!(other.pq_manager.peek_deferred("bob").is_some());
}

#[test]
fn a_contribution_without_a_session_is_reported_and_kept() {
    let mut mgr = SessionLifecycleManager::new(new_client(), "alice".to_string());
    mgr.pq_manager.register_shared_secret("bob", 7, b"pq");
    let actions = mgr.maybe_apply_pq_contribution("bob");
    assert!(matches!(
        actions.as_slice(),
        [Action::NotifyError { code, .. }] if code == "PQ_CONTRIBUTION_FAILED"
    ));
    assert!(mgr.pq_manager.peek_deferred("bob").is_some());
}

#[test]
fn the_coordination_state_survives_a_restart() {
    let mut o = make_orchestrator("alice");
    o.enqueue_heal("bob", b"carrier".to_vec());
    o.record_heal_attempt("bob");
    o.lifecycle.track_prekey("bob", 42);
    o.lifecycle.record_archive("carol", b"archive".to_vec());
    o.lifecycle.pin_hybrid_identity("bob", [9; 32]);
    o.sessions.handle("dan", SessionEvent::WantToOpen);
    let state = o.export_orchestrator_state_cfe().unwrap();

    let mut restarted = make_orchestrator("alice");
    restarted.import_orchestrator_state_cfe(&state).unwrap();
    assert_eq!(restarted.take_heal_payload("bob"), Some(b"carrier".to_vec()));
    assert_eq!(
        restarted.record_heal_attempt("bob"),
        HealingDecision::RetryAllowed { attempt: 2 }
    );
    assert!(restarted.lifecycle.is_reinstall("bob", 43));
    assert!(restarted.lifecycle.has_archive("carol"));
    assert_eq!(restarted.lifecycle.pinned_hybrid_identity("bob"), Some(&[9; 32]));
    assert!(matches!(restarted.sessions.phase("dan"), Phase::Opening { .. }));
    assert_eq!(restarted.sessions.phase("bob"), Phase::Absent);

    assert!(restarted.import_orchestrator_state_cfe(b"nothing").is_err());
    assert!(restarted.lifecycle.has_archive("carol"), "left as it was");
    restarted.clear_heal_record("bob");
    assert_eq!(restarted.take_heal_payload("bob"), None);
    assert_eq!(restarted.record_heal_attempt("bob"), HealingDecision::NotFound);
}

// ── Messages ────────────────────────────────────────────────────────────────

/// Two devices with a session, opened by Alice.
fn linked() -> (Device, Device) {
    let (mut alice, mut bob) = (device("alice"), device("bob"));
    open(&mut alice, &mut bob, false);
    let msg0 = alice.encrypt_bytes_for("bob", b"hello").unwrap();
    bob.init_receiving_session_from_wire_payload("alice", &initiator_bundle(&alice), &msg0)
        .unwrap();
    (alice, bob)
}

fn received(o: &mut Device, from: &str, id: &str, data: Vec<u8>, content_type: u8) -> Vec<Action> {
    o.handle_event(IncomingEvent::MessageReceived {
        message_id: id.to_string(),
        from: from.to_string(),
        data,
        msg_num: 0,
        kem_ct: vec![],
        otpk_id: 0,
        is_control: false,
        content_type,
    })
}

#[test]
fn a_session_is_saved_before_its_message_goes_out() {
    let (mut alice, mut bob) = linked();
    let actions = alice.handle_event(IncomingEvent::OutgoingMessage {
        contact_id: "bob".to_string(),
        message_id: "m1".to_string(),
        plaintext: b"text".to_vec(),
        content_type: 0,
    });
    assert!(matches!(
        &actions[0],
        Action::SaveToSecureStore { slot: SecureStoreSlot::Session { contact_id }, .. }
            if contact_id == "bob"
    ));
    let payload = match &actions[1] {
        Action::SendEncryptedMessage { to, payload, message_id, .. } => {
            assert_eq!((to.as_str(), message_id.as_str()), ("bob", "m1"));
            payload.clone()
        }
        other => panic!("expected the message, got {other:?}"),
    };
    assert_eq!(bob.decrypt_bytes_for("alice", &payload).unwrap(), b"text");
}

#[test]
fn a_message_without_a_session_is_not_sent() {
    let mut o = make_orchestrator("alice");
    let actions = o.handle_event(IncomingEvent::OutgoingMessage {
        contact_id: "bob".to_string(),
        message_id: "m1".to_string(),
        plaintext: b"text".to_vec(),
        content_type: 0,
    });
    assert!(matches!(
        actions.as_slice(),
        [Action::NotifyError { code, .. }] if code == "OUTGOING_MESSAGE_ENCRYPT_FAILED"
    ));
}

#[test]
fn a_message_is_read_by_its_parts() {
    let (mut alice, mut bob) = linked();
    let out = alice.encrypt_message_for("bob", b"parts").unwrap();
    let m = &out.message;
    let read = |bob: &mut Device, key: Vec<u8>, content: &[u8]| {
        bob.decrypt_message_for("alice", key, m.message_number, content, m.suite_id, 0, None)
    };
    assert!(read(&mut bob, vec![1; 31], &out.sealed_box).is_err());
    assert!(read(&mut bob, m.dh_public_key.to_vec(), &[0; 11]).is_err());
    assert_eq!(
        read(&mut bob, m.dh_public_key.to_vec(), &out.sealed_box).unwrap(),
        b"parts"
    );
}

#[test]
fn a_call_signal_is_handed_over_in_silence() {
    let (mut alice, mut bob) = linked();
    let signal = alice.handle_event(IncomingEvent::OutgoingCallSignal {
        contact_id: "bob".to_string(),
        message_id: "call".to_string(),
        proto_bytes: b"ring".to_vec(),
    });
    let payload = signal
        .iter()
        .find_map(|a| match a {
            Action::SendEncryptedMessage { payload, content_type, .. } => {
                assert_eq!(*content_type, CT_CALL_SIGNAL);
                Some(payload.clone())
            }
            _ => None,
        })
        .unwrap();
    let actions = received(&mut bob, "alice", "call", payload, CT_CALL_SIGNAL);
    assert!(actions.iter().any(|a| matches!(
        a,
        Action::CallSignalDecrypted { proto_bytes, .. } if proto_bytes == b"ring"
    )));
    assert!(!actions.iter().any(|a| matches!(a, Action::NotifyNewMessage { .. })));
}

#[test]
fn heartbeats_and_receipts_are_not_announced() {
    let (mut alice, mut bob) = linked();
    for (content_type, announced) in [(CT_HEARTBEAT, 0), (CT_DELIVERY_RECEIPT, 0), (0, 1)] {
        let payload = alice.encrypt_bytes_for("bob", b"x").unwrap();
        let id = format!("m{content_type}");
        let actions = received(&mut bob, "alice", &id, payload, content_type);
        let notices = actions
            .iter()
            .filter(|a| matches!(a, Action::NotifyNewMessage { .. }))
            .count();
        assert_eq!(notices, announced, "content type {content_type}");
    }
}

#[test]
fn a_preview_is_short_and_always_text() {
    let (mut alice, mut bob) = linked();
    let preview = |actions: &[Action]| {
        actions
            .iter()
            .find_map(|a| match a {
                Action::NotifyNewMessage { preview, .. } => Some(preview.clone()),
                _ => None,
            })
            .unwrap()
    };
    let long = "é".repeat(60);
    let payload = alice.encrypt_bytes_for("bob", long.as_bytes()).unwrap();
    let actions = received(&mut bob, "alice", "long", payload, 0);
    assert_eq!(preview(&actions), "é".repeat(50));

    let payload = alice.encrypt_bytes_for("bob", &[b'a', 0xFF, b'b']).unwrap();
    let actions = received(&mut bob, "alice", "bytes", payload, 0);
    assert_eq!(preview(&actions), "a\u{FFFD}b");
}

#[test]
fn a_message_is_read_once() {
    let (mut alice, mut bob) = linked();
    let payload = alice.encrypt_bytes_for("bob", b"once").unwrap();
    let first = received(&mut bob, "alice", "m1", payload.clone(), 0);
    assert_eq!(decrypted(&first), vec![("m1".to_string(), b"once".to_vec())]);
    assert_eq!(bob.ack_is_processed("m1"), AckCheckResult::InCache);
    let again = received(&mut bob, "alice", "m1", payload, 0);
    assert!(matches!(
        again.as_slice(),
        [Action::DuplicateDropped { message_id }] if message_id == "m1"
    ));
}

#[test]
fn the_durable_store_decides_after_a_restart() {
    let (mut alice, mut bob) = linked();
    let state = bob.export_orchestrator_state_cfe().unwrap();
    bob.import_orchestrator_state_cfe(&state).unwrap();
    let payload = alice.encrypt_bytes_for("bob", b"late").unwrap();
    let asked = received(&mut bob, "alice", "m1", payload.clone(), 0);
    assert!(matches!(
        asked.as_slice(),
        [Action::CheckAckInDb { message_id }] if message_id == "m1"
    ));
    let known = bob.handle_event(IncomingEvent::AckDbResult {
        message_id: "m1".to_string(),
        is_processed: true,
    });
    assert!(matches!(known.as_slice(), [Action::DuplicateDropped { .. }]), "{known:?}");

    received(&mut bob, "alice", "m2", payload, 0);
    let fresh = bob.handle_event(IncomingEvent::AckDbResult {
        message_id: "m2".to_string(),
        is_processed: false,
    });
    assert_eq!(decrypted(&fresh), vec![("m2".to_string(), b"late".to_vec())]);
}

#[test]
fn a_heartbeat_that_is_read_needs_no_answer() {
    let (mut alice, mut bob) = linked();
    let beat = |bob: &mut Device, id: &str, data: Vec<u8>| {
        bob.handle_event(IncomingEvent::HeartbeatReceived {
            contact_id: "alice".to_string(),
            message_id: id.to_string(),
            data,
            msg_num: 0,
        })
    };
    let payload = alice.encrypt_bytes_for("bob", b"beat").unwrap();
    assert!(beat(&mut bob, "h1", payload).is_empty());

    let (mut carol, mut dave) = linked();
    let _ = dave.encrypt_bytes_for("alice", b"unused");
    let foreign = carol.encrypt_bytes_for("bob", b"beat").unwrap();
    let actions = beat(&mut bob, "h2", foreign);
    assert!(matches!(
        actions.as_slice(),
        [Action::SessionHealNeeded { .. }, Action::NotifyError { code, message }]
            if code == DECRYPT_FAILED && message == "AEAD decryption failed"
    ), "{actions:?}");
}

#[test]
fn the_peers_control_frame_archives_the_session() {
    let (_alice, mut bob) = linked();
    let actions = bob.handle_event(IncomingEvent::MessageReceived {
        message_id: "end".to_string(),
        from: "alice".to_string(),
        data: vec![],
        msg_num: 0,
        kem_ct: vec![],
        otpk_id: 0,
        is_control: true,
        content_type: 0,
    });
    assert!(matches!(
        actions.as_slice(),
        [Action::SessionTerminated { contact_id, .. }] if contact_id == "alice"
    ), "{actions:?}");
    assert!(!bob.has_active_session("alice"));
}

#[test]
fn a_queue_has_an_end() {
    let mut o = make_orchestrator("alice");
    for i in 0..MAX_QUEUED_PER_CONTACT {
        received(&mut o, "bob", &format!("m{i}"), packed_wire(0, None), 0);
    }
    let full = received(&mut o, "bob", "one-more", packed_wire(0, None), 0);
    assert!(matches!(
        full.as_slice(),
        [Action::NotifyError { code, message }]
            if code == "QUEUE_FULL" && message == "Message queue full for bob"
    ), "{full:?}");
    assert_eq!(o.pending_message_count("bob"), MAX_QUEUED_PER_CONTACT);

    assert_eq!(o.peek_first_pending_wire_payload("bob"), Some(packed_wire(0, None)));
    assert_eq!(o.pop_first_pending("bob").as_deref(), Some("m0"));
    assert_eq!(o.pending_message_count("bob"), MAX_QUEUED_PER_CONTACT - 1);
    assert_eq!(o.pop_first_pending("nobody"), None);
    assert_eq!(o.peek_first_pending_wire_payload("nobody"), None);
}

#[test]
fn processed_messages_are_remembered_for_a_month() {
    let clock = Arc::new(MockClock::new(1_000_000_000));
    let mut o = make_orchestrator_with_clock("alice", clock.clone());
    let kept = o.ack_mark_processed("m1");
    assert!(matches!(
        kept.as_slice(),
        [Action::PersistAck { message_id, timestamp: 1_000_000 }] if message_id == "m1"
    ));
    let sweep = IncomingEvent::TimerFired { timer_id: "gc_sweep".to_string() };
    clock.advance_ms(29 * 24 * 3_600_000);
    o.handle_event(sweep.clone());
    assert_eq!(o.ack_is_processed("m1"), AckCheckResult::InCache);
    clock.advance_ms(2 * 24 * 3_600_000);
    o.handle_event(sweep);
    assert_eq!(o.ack_is_processed("m1"), AckCheckResult::NotProcessed);
}

#[test]
fn a_fetched_bundle_opens_a_session_on_the_platform() {
    let mut o = make_orchestrator("alice");
    let actions = o.handle_event(IncomingEvent::KeyBundleFetched {
        user_id: "bob".to_string(),
        bundle_json: "{}".to_string(),
    });
    assert!(matches!(
        actions.as_slice(),
        [Action::InitSession { contact_id, bundle_json }]
            if contact_id == "bob" && bundle_json == "{}"
    ));
}

#[test]
fn a_session_that_cannot_be_imported_is_not_announced() {
    let mut o = make_orchestrator("alice");
    let actions = o.handle_event(IncomingEvent::SessionInitCompleted {
        contact_id: "bob".to_string(),
        session_data: b"nothing".to_vec(),
    });
    assert!(matches!(
        &actions[0],
        Action::NotifyError { code, .. } if code == "session_import_failed"
    ), "{actions:?}");
    assert!(!actions.iter().any(|a| matches!(a, Action::NotifySessionCreated { .. })));
}

#[test]
fn what_waited_is_read_before_the_session_is_announced() {
    let (mut alice, alice_id) = named_device();
    let (mut bob, bob_id) = named_device();
    let (x3dh, kyber) = bundle_of(&mut bob, false);
    alice.init_session_with_bundle(&bob_id, x3dh, kyber, false).unwrap();
    let msg0 = alice.encrypt_bytes_for(&bob_id, b"first").unwrap();
    let msg1 = alice.encrypt_bytes_for(&bob_id, b"second").unwrap();
    received(&mut bob, &alice_id, "m1", msg1, 0);
    bob.init_receiving_session_from_wire_payload(&alice_id, &initiator_bundle(&alice), &msg0)
        .unwrap();
    let actions = bob.handle_event(IncomingEvent::SessionInitCompleted {
        contact_id: alice_id.clone(),
        session_data: vec![],
    });
    let read = actions.iter().position(|a| matches!(a, Action::MessageDecrypted { .. })).unwrap();
    let told =
        actions.iter().position(|a| matches!(a, Action::NotifySessionCreated { .. })).unwrap();
    assert!(read < told, "{actions:?}");
}

#[test]
fn first_messages_are_refused_for_their_reasons() {
    let (mut alice, mut bob) = (device("alice"), device("bob"));
    open(&mut alice, &mut bob, false);
    let msg0 = alice.encrypt_bytes_for("bob", b"first").unwrap();
    let mut bundle = initiator_bundle(&alice);
    let refused = |bob: &mut Device, bundle: &KeyBundle, data: &[u8]| {
        bob.init_receiving_session_from_wire_payload("alice", bundle, data).unwrap_err()
    };
    assert_eq!(
        refused(&mut bob, &bundle, &[0; 3]),
        "wire_payload unpack failed: TooShort(3)"
    );
    bundle.suite_id = 9;
    assert_eq!(refused(&mut bob, &bundle, &msg0), "invalid suite_id");
    bundle.suite_id = 1;
    bundle.signature[0] ^= 1;
    assert_eq!(
        refused(&mut bob, &bundle, &msg0),
        "invalid signed prekey signature from initiator"
    );
    bundle.signature[0] ^= 1;
    let out = alice.encrypt_message_for("bob", b"second").unwrap();
    let mut other_suite = out.message;
    other_suite.suite_id = 1;
    let payload = OutgoingEncrypted { message: other_suite, sealed_box: out.sealed_box, header: out.header }
        .pack()
        .unwrap();
    assert_eq!(
        refused(&mut bob, &bundle, &payload),
        "PQXDH_REQUIRED: first message on suite 1; suite 3 is mandatory"
    );
    assert!(!bob.has_active_session("alice"));
}

#[test]
fn a_session_is_not_opened_twice() {
    let (mut alice, mut bob) = (device("alice"), device("bob"));
    open(&mut alice, &mut bob, false);
    let before = alice.lifecycle.active_session_id("bob");
    let (x3dh, kyber) = bundle_of(&mut bob, false);
    let err = alice.init_session_with_bundle("bob", x3dh, kyber, false).unwrap_err();
    assert_eq!(err, "Session already exists: bob");
    assert_eq!(alice.lifecycle.active_session_id("bob"), before);
}

#[test]
fn a_refused_opening_that_never_reached_the_core_ends_too() {
    let mut o = make_orchestrator(WE_REBUILD);
    o.handle_event(IncomingEvent::ReopenRequested { contact_id: "bob".to_string() });
    assert!(matches!(o.sessions.phase("bob"), Phase::Opening { .. }));
    o.reopen_refused("bob");
    assert_eq!(o.sessions.phase("bob"), Phase::Absent);
}

// ── Records of old ──────────────────────────────────────────────────────────

#[test]
fn the_text_form_is_read_as_bytes_and_refused_as_a_binary_record() {
    let (mut alice, mut bob) = (device("alice"), device("bob"));
    open(&mut alice, &mut bob, false);
    let record = alice.lifecycle.session_record_for("bob").unwrap();
    let legacy = legacy_form(&alice.lifecycle.client.engine, &record);

    let mut restored = device("alice");
    let err = restored.import_session_cfe("bob", &legacy).unwrap_err();
    assert_eq!(err, "legacy text record");
    assert!(!restored.has_active_session("bob"));
    restored.lifecycle.import_session_bytes("bob", &legacy).unwrap();
    assert!(restored.has_active_session("bob"));
}

#[test]
fn the_text_form_is_restored_from_an_archive_and_a_completed_opening() {
    let (mut alice, mut bob) = (device("alice"), device("bob"));
    open(&mut alice, &mut bob, false);
    let record = alice.lifecycle.session_record_for("bob").unwrap();
    let legacy = legacy_form(&alice.lifecycle.client.engine, &record);

    let mut loaded = device("alice");
    loaded.lifecycle.load_archive_bytes("bob", legacy.clone());
    assert!(loaded.has_active_session("bob"));

    let mut completed = device("alice");
    completed.handle_event(IncomingEvent::SessionInitCompleted {
        contact_id: "bob".to_string(),
        session_data: legacy,
    });
    assert!(completed.has_active_session("bob"));
}

#[test]
fn records_are_refused_for_their_reasons() {
    let (mut alice, mut bob) = (device("alice"), device("bob"));
    open(&mut alice, &mut bob, false);
    let binary = alice.export_session_cfe("bob").unwrap();
    let mut o = device("alice");

    let err = o.lifecycle.import_session_bytes("bob", b"nonsense").unwrap_err();
    assert!(err.starts_with("decode_as: "), "{err}");
    let err = o.import_session_cfe("bob", b"nonsense").unwrap_err();
    assert!(!err.starts_with("decode_as: "), "{err}");
    let err = o.import_session_cfe("bob", &binary[..binary.len() - 1]).unwrap_err();
    assert!(err.starts_with("from_cfe_v1: "), "{err}");
    let err = o.lifecycle.import_session_bytes("bob", b"{").unwrap_err();
    assert!(!err.starts_with("decode_as: "), "{err}");
    assert!(!o.has_active_session("bob"));

    assert_eq!(
        o.import_session_cfe("bob", &binary).unwrap(),
        alice.lifecycle.active_session_id("bob").unwrap()
    );
}

// ── Alarms and windows ──────────────────────────────────────────────────────

#[test]
fn an_alarm_before_the_window_pays_nothing_and_is_armed_again() {
    let clock = Arc::new(MockClock::new(1_000_000));
    let mut o = make_orchestrator_with_clock("alice", clock.clone());
    let ask = |o: &mut Orchestrator<MockClock, ToyEngine>| {
        o.handle_event(IncomingEvent::TeardownRequested {
            contact_id: "bob".to_string(),
            cause: TearDownCause::Blind,
        })
    };
    ask(&mut o);
    ask(&mut o);
    clock.advance_ms(5_000);
    let actions = o.handle_event(IncomingEvent::TimerFired {
        timer_id: "cooldown_expired:bob".to_string(),
    });
    assert!(!actions.iter().any(|a| matches!(a, Action::SendEndSession { .. })), "{actions:?}");
    assert!(
        actions.iter().any(|a| matches!(
            a,
            Action::ScheduleTimer { timer_id, delay_ms }
                if timer_id == "cooldown_expired:bob" && *delay_ms == 25_100
        )),
        "{actions:?}"
    );
    assert!(o.sessions.owes_teardown("bob"));

    clock.advance_ms(25_100);
    let actions = o.handle_event(IncomingEvent::TimerFired {
        timer_id: "cooldown_expired:bob".to_string(),
    });
    assert!(actions.iter().any(|a| matches!(a, Action::SendEndSession { .. })), "{actions:?}");
    assert!(!o.sessions.owes_teardown("bob"));
}

#[test]
fn the_confirm_alarm_pays_a_teardown_that_is_due() {
    let clock = Arc::new(MockClock::new(1_000_000));
    let mut o = make_orchestrator_with_clock("alice", clock.clone());
    for _ in 0..2 {
        o.handle_event(IncomingEvent::TeardownRequested {
            contact_id: "bob".to_string(),
            cause: TearDownCause::Blind,
        });
    }
    let fire = |o: &mut Orchestrator<MockClock, ToyEngine>| {
        o.handle_event(IncomingEvent::TimerFired { timer_id: "open_confirm:bob".to_string() })
    };
    assert!(fire(&mut o).is_empty());
    assert!(o.sessions.owes_teardown("bob"));
    clock.advance_ms(END_SESSION_COOLDOWN_MS);
    let actions = fire(&mut o);
    assert!(actions.iter().any(|a| matches!(a, Action::SendEndSession { .. })), "{actions:?}");
}

// ── Heals ───────────────────────────────────────────────────────────────────

#[test]
fn the_first_heal_payload_wins_even_when_it_is_empty() {
    let mut o = make_orchestrator("alice");
    assert_eq!(o.take_heal_payload("bob"), None);
    o.enqueue_heal("bob", Vec::new());
    o.enqueue_heal("bob", b"second".to_vec());
    assert_eq!(o.take_heal_payload("bob"), Some(Vec::new()));
    assert_eq!(o.take_heal_payload("bob"), Some(Vec::new()));
    assert_eq!(o.take_heal_payload("carol"), None);

    // An episode that ended takes the carrier of the next failure.
    o.lifecycle.healing_queue.settle("bob");
    o.enqueue_heal("bob", b"third".to_vec());
    o.enqueue_heal("bob", b"fourth".to_vec());
    assert_eq!(o.take_heal_payload("bob"), Some(b"third".to_vec()));
}

#[test]
fn a_settled_heal_stays_settled_across_a_restart() {
    let mut o = make_orchestrator("alice");
    o.enqueue_heal("bob", b"spent".to_vec());
    o.enqueue_heal("carol", Vec::new());
    o.lifecycle.healing_queue.settle("bob");
    let record = o.export_orchestrator_state_cfe().unwrap();

    let mut next = make_orchestrator("alice");
    next.import_orchestrator_state_cfe(&record).unwrap();
    next.enqueue_heal("bob", b"new".to_vec());
    next.enqueue_heal("carol", b"new".to_vec());
    assert_eq!(next.take_heal_payload("bob"), Some(b"new".to_vec()));
    assert_eq!(next.take_heal_payload("carol"), Some(Vec::new()));
}

// ── What engines keep ───────────────────────────────────────────────────────

#[test]
fn an_archived_session_is_restored_as_it_was() {
    let (mut alice, _bob, _alice_id, bob_id) = make_session_pair();
    let held = alice.session_record_for(&bob_id).unwrap();
    alice.archive_session(&bob_id);
    assert!(!alice.has_active_session(&bob_id));
    alice.restore_latest_archive(&bob_id).unwrap();
    let back = alice.session_record_for(&bob_id).unwrap();
    assert_eq!(back.session_id, held.session_id);
    assert_eq!(back.ratchet, held.ratchet);
    assert!(alice.has_archive(&bob_id));
}

#[test]
fn a_payload_that_was_read_is_refused_when_it_comes_again() {
    let (mut alice, mut bob) = (device("alice"), device("bob"));
    open(&mut alice, &mut bob, false);
    let first = alice.encrypt_bytes_for("bob", b"first").unwrap();
    let bundle = initiator_bundle(&alice);
    bob.init_receiving_session_from_wire_payload("alice", &bundle, &first).unwrap();
    let second = alice.encrypt_bytes_for("bob", b"second").unwrap();
    let read = bob.lifecycle.decrypt_wire_payload("alice", &second).unwrap();
    assert_eq!(read.plaintext, b"second");
    assert_eq!(read.actions.len(), 1);
    assert!(bob.lifecycle.decrypt_wire_payload("alice", &second).is_err());
}

#[test]
fn a_responder_burns_exactly_one_one_time_key() {
    let (mut alice, mut bob) = (device("alice"), device("bob"));
    bob.generate_kyber_one_time_prekeys(3).unwrap();
    let before = bob.kyber_one_time_prekey_count();
    open(&mut alice, &mut bob, true);
    let offered = bob.kyber_one_time_prekey_count();
    assert!(offered >= before);
    let first = alice.encrypt_bytes_for("bob", b"first").unwrap();
    let bundle = initiator_bundle(&alice);
    bob.init_receiving_session_from_wire_payload("alice", &bundle, &first).unwrap();
    assert_eq!(bob.kyber_one_time_prekey_count(), offered - 1);
}

#[test]
fn a_bundle_is_judged_before_it_is_opened() {
    let (mut alice, mut bob) = (device("alice"), device("bob"));
    let (x3dh, mut kyber) = bundle_of(&mut bob, true);
    if let Some(signature) = &mut kyber.one_time_prekey_signature {
        signature[0] ^= 1;
    }
    let now = alice.now_ms();
    let choice = alice.judge_bundle_at("bob", &x3dh, &kyber, now).unwrap();
    assert_eq!(choice.one_time_prekey_rejected, Some(PqxdhRefusal::KyberSignatureInvalid));
    alice.init_session_with_bundle("bob", x3dh, kyber, false).unwrap();
    assert!(alice.has_active_session("bob"));
}

#[test]
fn a_control_frame_is_acted_on_and_never_waits() {
    let mut o = make_orchestrator("alice");
    o.handle_event(IncomingEvent::MessageReceived {
        message_id: "end".to_string(),
        from: "bob".to_string(),
        data: Vec::new(),
        msg_num: 0,
        kem_ct: Vec::new(),
        otpk_id: 0,
        is_control: true,
        content_type: 0,
    });
    assert_eq!(o.pending_message_count("bob"), 0);
}

// ── What was forgotten, burned and held ─────────────────────────────────────

#[test]
fn nothing_of_a_forgotten_contact_comes_back() {
    let clock = Arc::new(MockClock::new(1_000_000));
    let mut o = make_orchestrator_with_clock("alice", clock.clone());
    let ask = |o: &mut Orchestrator<MockClock, ToyEngine>, contact: &str| {
        o.handle_event(IncomingEvent::TeardownRequested {
            contact_id: contact.to_string(),
            cause: TearDownCause::Blind,
        })
    };
    for contact in ["bob", "carol"] {
        o.handle_event(IncomingEvent::SriAnnounced { contact_id: contact.to_string() });
    }
    o.decision_to_actions(end_session_needed("bob"));
    o.hold_behind_confirm("carol", refused("m-carol", false));
    for contact in ["dave", "erin"] {
        ask(&mut o, contact);
        ask(&mut o, contact);
    }
    o.forget_contact_state("bob");
    o.forget_contact_state("dave");

    let mut actions = Vec::new();
    clock.advance_ms(OPENING_CONFIRM_WINDOW_MS + 1);
    for timer in ["cooldown_expired:dave", "open_confirm:dave", "open_confirm:bob", "gc_sweep"] {
        actions.extend(o.handle_event(IncomingEvent::TimerFired { timer_id: timer.to_string() }));
    }
    actions.extend(o.handle_event(IncomingEvent::PeerAcked { contact_id: "bob".to_string() }));
    actions.extend(o.handle_event(IncomingEvent::NetworkReconnected));
    assert_eq!(held_ids(&actions), vec![("replay", "m-carol".to_string())]);
    assert!(!pays_teardown(&actions, "dave"), "{actions:?}");

    let paid = o.handle_event(IncomingEvent::TimerFired {
        timer_id: "cooldown_expired:erin".to_string(),
    });
    assert!(pays_teardown(&paid, "erin"), "another contact keeps its debt");

    ask(&mut o, "dave");
    let deferred = ask(&mut o, "dave");
    assert!(deferred.iter().any(|a| matches!(a, Action::EndSessionSuppressed { .. })));
    clock.advance_ms(END_SESSION_COOLDOWN_MS);
    let paid = o.handle_event(IncomingEvent::TimerFired {
        timer_id: "cooldown_expired:dave".to_string(),
    });
    assert!(pays_teardown(&paid, "dave"), "a debt made since is paid");
}

#[test]
fn prekeys_are_handed_out_only_after_a_burn() {
    let (mut alice, mut bob) = (device("alice"), device("bob"));
    assert!(bob.take_kyber_prekeys_to_persist().is_none());
    bob.generate_kyber_one_time_prekeys(2).unwrap();
    open(&mut alice, &mut bob, false);
    let first = alice.encrypt_bytes_for("bob", b"first").unwrap();
    let bundle = initiator_bundle(&alice);
    bob.init_receiving_session_from_wire_payload("alice", &bundle, &first).unwrap();
    assert!(bob.take_kyber_prekeys_to_persist().is_none(), "the signed prekey is not burned");

    let mut carol = device("carol");
    let (x3dh, kyber) = bundle_of(&mut bob, true);
    carol.init_session_with_bundle("bob", x3dh, kyber, false).unwrap();
    let first = carol.encrypt_bytes_for("bob", b"first").unwrap();
    let bundle = initiator_bundle(&carol);
    bob.init_receiving_session_from_wire_payload("carol", &bundle, &first).unwrap();
    bob.handle_event(IncomingEvent::AppLaunched);
    assert_eq!(
        bob.take_kyber_prekeys_to_persist(),
        Some(bob.export_kyber_prekeys_cfe().unwrap()),
        "the record of what is held now"
    );
    assert!(bob.take_kyber_prekeys_to_persist().is_none());
}

#[test]
fn held_messages_come_back_whatever_happens_meanwhile() {
    let clock = Arc::new(MockClock::new(1_000_000));
    let mut o = make_orchestrator_with_clock("alice", clock.clone());
    o.handle_event(IncomingEvent::SriAnnounced { contact_id: "bob".to_string() });
    for id in ["m1", "m2", "m1", "m3"] {
        o.hold_behind_confirm("bob", refused(id, false));
        clock.advance_ms(10_000);
        for event in [
            IncomingEvent::AppLaunched,
            IncomingEvent::NetworkReconnected,
            IncomingEvent::TimerFired { timer_id: "open_confirm:bob".to_string() },
            IncomingEvent::TimerFired { timer_id: "gc_sweep".to_string() },
            IncomingEvent::PeerAcked { contact_id: "carol".to_string() },
            IncomingEvent::PeerToreDown { contact_id: "bob".to_string() },
        ] {
            assert!(held_ids(&o.handle_event(event)).is_empty());
        }
    }
    let ack = IncomingEvent::PeerAcked { contact_id: "bob".to_string() };
    let back = held_ids(&o.handle_event(ack));
    let ids: Vec<&str> = back.iter().map(|(_, id)| id.as_str()).collect();
    assert_eq!(ids, ["m1", "m2", "m3"]);
    let ack = IncomingEvent::PeerAcked { contact_id: "bob".to_string() };
    assert!(held_ids(&o.handle_event(ack)).is_empty());
}

#[test]
fn every_part_reads_the_clock_it_was_given() {
    let clock = Arc::new(MockClock::new(5_000_000));
    let mut o = make_orchestrator_with_clock("alice", clock.clone());
    let marked_at = |actions: Vec<Action>| match actions.as_slice() {
        [Action::PersistAck { timestamp, .. }] => *timestamp,
        other => panic!("expected the record, got {other:?}"),
    };
    assert_eq!(o.now_ms(), 5_000_000);
    assert_eq!(marked_at(o.ack_mark_processed("a")), 5_000);
    assert_eq!(marked_at(o.lifecycle.ack_store.mark_processed("b")), 5_000);
    clock.advance_ms(3_000);
    assert_eq!(o.now_ms(), 5_003_000);
    assert_eq!(marked_at(o.lifecycle.ack_store.mark_processed("c")), 5_003);
    o.enqueue_heal("bob", vec![1]);
    assert_eq!(o.lifecycle.healing_queue.get("bob").unwrap().created_at, 5_003);
    o.sessions.handle("bob", SessionEvent::SriAnnounced);
    assert!(o.sessions.awaits_acknowledgement("bob"));
    clock.advance_ms(OPENING_CONFIRM_WINDOW_MS);
    assert!(!o.sessions.awaits_acknowledgement("bob"));
}
