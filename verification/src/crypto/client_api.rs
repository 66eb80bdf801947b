//! A device's keys and sessions.

use vstd::prelude::*;

use crate::crypto::engine::{
    self, CryptoEngine, Decrypted, DecryptedView, Encrypted, EncryptedView, OpenedSession,
    OpenedView, Received, ReceivedView,
};
use crate::crypto::handshake::{self, build_x3dh_sign_message, PqxdhInput, X3DHPublicKeyBundle};
use crate::crypto::keys::{KeyManager, KeysView, OtpkView, PairView, SignedPrekey, SpkView};
use crate::crypto::kyber_prekey_auth::{PqAuthentication, PqHandshake};
use crate::crypto::kyber_prekeys::{KyberPrekeys, KyberView, KYBER_OTPK_ID_START};
use crate::crypto::messaging::double_ratchet::{
    self, DrHealthSnapshot, EncryptedRatchetMessage, HeaderView, PrekeyHeader, RatchetMessageView,
    Session, SessionView,
};
use crate::str_map::{self, StrMap};
use crate::strings::join;
use crate::vecs;

verus! {

/// The contents of a `ClassicClient`.
#[verifier::ext_equal]
pub struct ClientView {
    /// The session held with each device.
    pub sessions: Map<Seq<char>, SessionView>,
    /// The id this device puts into its sessions.
    pub local_user_id: Seq<char>,
    pub keys: KeysView,
}

/// The text of the error for a session that is not there.
pub open spec fn session_not_found(contact: Seq<char>) -> Seq<char> {
    "Session not found: "@ + contact
}

/// The text of the error for a session that is already there.
pub open spec fn session_exists(contact: Seq<char>) -> Seq<char> {
    "Session already exists: "@ + contact
}

/// The client with the session of one device replaced.
pub open spec fn with_session(c: ClientView, contact: Seq<char>, s: SessionView) -> ClientView {
    ClientView { sessions: c.sessions.insert(contact, s), ..c }
}

/// A session just opened: classical until it is marked otherwise, and without a header.
pub open spec fn fresh_session(
    c: ClientView,
    contact: Seq<char>,
    opened: OpenedView,
) -> SessionView {
    SessionView {
        contact_id: contact,
        local_user_id: c.local_user_id,
        session_id: opened.session_id,
        suite_id: opened.suite_id,
        pq_handshake: PqHandshake::Classical,
        pq_authentication: PqAuthentication::Unauthenticated,
        prekey_header: None,
        ratchet: opened.ratchet,
    }
}

/// What the engine's answer to opening a session as INITIATOR does. A session already held is not
/// replaced.
pub open spec fn open_step(
    c: ClientView,
    contact: Seq<char>,
    reply: Result<OpenedView, Seq<char>>,
) -> (ClientView, Result<Seq<char>, Seq<char>>) {
    if c.sessions.contains_key(contact) {
        (c, Err(session_exists(contact)))
    } else {
        match reply {
            Err(e) => (c, Err(e)),
            Ok(o) => (with_session(c, contact, fresh_session(c, contact, o)), Ok(o.session_id)),
        }
    }
}

/// The one-time prekeys left after the one with this id was used.
pub open spec fn otpks_without(keys: Seq<OtpkView>, id: u32) -> Seq<OtpkView> {
    keys.filter(|x: OtpkView| x.key_id != id)
}

/// What the engine's answer to opening a session as RESPONDER does: the session is filed, and the
/// one-time prekey it was opened with is used up.
pub open spec fn receive_step(
    c: ClientView,
    contact: Seq<char>,
    one_time_prekey_id: u32,
    reply: Result<ReceivedView, Seq<char>>,
) -> (ClientView, Result<Seq<u8>, Seq<char>>) {
    match reply {
        Err(e) => (c, Err(e)),
        Ok(o) => {
            let filed = with_session(c, contact, fresh_session(c, contact, o.session));
            (
                ClientView {
                    keys: KeysView {
                        otpks: otpks_without(c.keys.otpks, one_time_prekey_id),
                        ..c.keys
                    },
                    ..filed
                },
                Ok(o.plaintext),
            )
        },
    }
}

/// What the engine's answer to encrypting does.
pub open spec fn encrypt_step(
    c: ClientView,
    contact: Seq<char>,
    reply: Result<EncryptedView, Seq<char>>,
) -> (ClientView, Result<RatchetMessageView, Seq<char>>) {
    match str_map::lookup(c.sessions, contact) {
        None => (c, Err(session_not_found(contact))),
        Some(s) => match reply {
            Err(e) => (c, Err(e)),
            Ok(x) => (
                with_session(c, contact, SessionView { ratchet: x.ratchet, ..s }),
                Ok(x.message),
            ),
        },
    }
}

/// What the engine's answer to decrypting does. A message that opens is the peer's answer: the
/// handshake header has served its purpose.
pub open spec fn decrypt_step(
    c: ClientView,
    contact: Seq<char>,
    reply: Result<DecryptedView, Seq<char>>,
) -> (ClientView, Result<Seq<u8>, Seq<char>>) {
    match str_map::lookup(c.sessions, contact) {
        None => (c, Err(session_not_found(contact))),
        Some(s) => match reply {
            Err(e) => (c, Err(e)),
            Ok(x) => (
                with_session(
                    c,
                    contact,
                    SessionView { ratchet: x.ratchet, prekey_header: None, ..s },
                ),
                Ok(x.plaintext),
            ),
        },
    }
}

/// What the engine's answer to mixing in a deferred ML-KEM secret does.
pub open spec fn mix_step(
    c: ClientView,
    contact: Seq<char>,
    reply: Result<Seq<u8>, Seq<char>>,
) -> (ClientView, Result<(), Seq<char>>) {
    match str_map::lookup(c.sessions, contact) {
        None => (c, Err(session_not_found(contact))),
        Some(s) => match reply {
            Err(e) => (c, Err(e)),
            Ok(ratchet) => (
                with_session(
                    c,
                    contact,
                    SessionView {
                        ratchet,
                        pq_handshake: if s.pq_handshake is Classical {
                            PqHandshake::DeferredV1
                        } else {
                            s.pq_handshake
                        },
                        ..s
                    },
                ),
                Ok(()),
            ),
        },
    }
}

/// The client with a session labelled as opened with an initial ML-KEM secret.
pub open spec fn marked_v2(
    c: ClientView,
    contact: Seq<char>,
    auth: PqAuthentication,
) -> ClientView {
    match str_map::lookup(c.sessions, contact) {
        None => c,
        Some(s) => with_session(
            c,
            contact,
            SessionView { pq_handshake: PqHandshake::InitialV2, pq_authentication: auth, ..s },
        ),
    }
}

/// The client with the handshake header of a session set.
pub open spec fn header_set(c: ClientView, contact: Seq<char>, h: HeaderView) -> ClientView {
    match str_map::lookup(c.sessions, contact) {
        None => c,
        Some(s) => with_session(c, contact, SessionView { prekey_header: Some(h), ..s }),
    }
}

/// The keys and sessions of this device.
pub struct ClassicClient<E: CryptoEngine> {
    pub engine: E,
    pub keys: KeyManager,
    pub sessions: StrMap<Session>,
    pub local_user_id: String,
}

impl<E: CryptoEngine> View for ClassicClient<E> {
    type V = ClientView;

    open spec fn view(&self) -> ClientView {
        ClientView {
            sessions: self.sessions@,
            local_user_id: self.local_user_id@,
            keys: self.keys.deep_view(),
        }
    }
}

/// The engine gives these keys, and this signature over the signed prekey.
pub open spec fn keys_said<E: CryptoEngine>(
    engine: &E,
    identity: Result<PairView, Seq<char>>,
    signing: Result<PairView, Seq<char>>,
    pair: Result<PairView, Seq<char>>,
    signature: Result<Seq<u8>, Seq<char>>,
) -> bool {
    &&& engine::said_new_kem_pair(engine, identity)
    &&& identity is Ok ==> engine::said_new_signing_pair(engine, signing)
    &&& identity is Ok && signing is Ok ==> engine::said_new_kem_pair(engine, pair)
    &&& identity is Ok && signing is Ok && pair is Ok ==> engine::said_sign(
        engine,
        signing->Ok_0.secret,
        handshake::prologue(1) + pair->Ok_0.public,
        signature,
    )
}

/// The client these keys make: without a session, a one-time prekey or an id. The first failure
/// of the engine is its own.
pub open spec fn client_made(
    identity: Result<PairView, Seq<char>>,
    signing: Result<PairView, Seq<char>>,
    pair: Result<PairView, Seq<char>>,
    signature: Result<Seq<u8>, Seq<char>>,
) -> Result<ClientView, Seq<char>> {
    match (identity, signing, pair, signature) {
        (Err(e), _, _, _) => Err(e),
        (Ok(_), Err(e), _, _) => Err(e),
        (Ok(_), Ok(_), Err(e), _) => Err(e),
        (Ok(_), Ok(_), Ok(_), Err(e)) => Err(e),
        (Ok(i), Ok(s), Ok(p), Ok(g)) => Ok(
            ClientView {
                sessions: Map::empty(),
                local_user_id: Seq::empty(),
                keys: KeysView {
                    identity: i,
                    signing: s,
                    signed_prekey: SpkView { key_id: 1, pair: p, signature: g },
                    old_prekeys: Seq::empty(),
                    otpks: Seq::empty(),
                    next_otpk_id: 1,
                    hybrid: None,
                    kyber: KyberView {
                        current: None,
                        pending: None,
                        retired: Seq::empty(),
                        otpks: Seq::empty(),
                        next_spk_id: 1,
                        next_otpk_id: KYBER_OTPK_ID_START,
                    },
                },
            },
        ),
    }
}

impl<E: CryptoEngine> ClassicClient<E> {
    /// A client with these keys, no sessions and no id yet.
    pub fn with_keys(engine: E, keys: KeyManager) -> (r: Self)
        ensures
            r@ == (ClientView {
                sessions: Map::empty(),
                local_user_id: Seq::empty(),
                keys: keys.deep_view(),
            }),
            r.engine == engine,
    {
        ClassicClient {
            engine,
            keys,
            sessions: StrMap::new(),
            local_user_id: String::new(),
        }
    }

    /// A client with fresh keys, no sessions and no id yet.
    pub fn new(engine: E) -> (r: Result<Self, String>)
        ensures
            exists|
                identity: Result<PairView, Seq<char>>,
                signing: Result<PairView, Seq<char>>,
                pair: Result<PairView, Seq<char>>,
                signature: Result<Seq<u8>, Seq<char>>,
            | #[trigger]
                keys_said(&engine, identity, signing, pair, signature) && (match r {
                    Ok(c) => Ok::<ClientView, Seq<char>>(c@),
                    Err(e) => Err(e@),
                }) == client_made(identity, signing, pair, signature),
            r matches Ok(c) ==> c.engine == engine,
    {
        let ghost no_pair = Err::<PairView, Seq<char>>(Seq::empty());
        let ghost no_bytes = Err::<Seq<u8>, Seq<char>>(Seq::empty());
        let made = engine.new_kem_pair();
        let ghost iv = vecs::outcome(made);
        assert(engine::said_new_kem_pair(&engine, iv));
        let identity = match made {
            Ok(k) => k,
            Err(e) => {
                assert(keys_said(&engine, iv, no_pair, no_pair, no_bytes));
                return Err(e);
            },
        };
        let made = engine.new_signing_pair();
        let ghost sv = vecs::outcome(made);
        assert(engine::said_new_signing_pair(&engine, sv));
        let signing = match made {
            Ok(k) => k,
            Err(e) => {
                assert(keys_said(&engine, iv, sv, no_pair, no_bytes));
                return Err(e);
            },
        };
        let made = engine.new_kem_pair();
        let ghost pv = vecs::outcome(made);
        assert(engine::said_new_kem_pair(&engine, pv));
        let pair = match made {
            Ok(k) => k,
            Err(e) => {
                assert(keys_said(&engine, iv, sv, pv, no_bytes));
                return Err(e);
            },
        };
        let message = build_x3dh_sign_message(1, pair.public.as_slice());
        let signed = engine.sign(signing.secret.as_slice(), message.as_slice());
        let ghost gv = vecs::outcome_bytes(signed);
        assert(engine::said_sign(
            &engine,
            signing.secret@,
            handshake::prologue(1) + pair.public@,
            gv,
        ));
        assert(keys_said(&engine, iv, sv, pv, gv));
        let signature = match signed {
            Ok(s) => s,
            Err(e) => {
                return Err(e);
            },
        };
        let keys = KeyManager {
            identity,
            signing,
            signed_prekey: SignedPrekey { key_id: 1, pair, signature },
            old_prekeys: vecs::none(),
            otpks: vecs::none(),
            next_otpk_id: 1,
            hybrid: None,
            kyber: KyberPrekeys::new(),
        };
        Ok(Self::with_keys(engine, keys))
    }

    /// The id this device puts into its sessions.
    pub fn local_user_id(&self) -> (r: &str)
        ensures
            r@ == self@.local_user_id,
    {
        self.local_user_id.as_str()
    }

    /// Sets the id this device puts into its sessions.
    pub fn set_local_user_id(&mut self, user_id: String)
        ensures
            final(self).engine == old(self).engine,
            final(self)@ == (ClientView { local_user_id: user_id@, ..old(self)@ }),
    {
        self.local_user_id = user_id;
    }

    /// Whether a session with this device is held.
    pub fn has_session(&self, contact_id: &str) -> (r: bool)
        ensures
            r == self@.sessions.contains_key(contact_id@),
    {
        self.sessions.contains_key(contact_id)
    }

    /// The session held with this device.
    pub fn get_session(&self, contact_id: &str) -> (r: Option<&Session>)
        ensures
            r.deep_view() == str_map::lookup(self@.sessions, contact_id@),
    {
        self.sessions.get(contact_id)
    }

    /// What the session with this device reports of itself.
    pub fn get_session_health(&self, contact_id: &str) -> (r: Option<DrHealthSnapshot>)
        ensures
            r.deep_view() == (match str_map::lookup(self@.sessions, contact_id@) {
                Some(s) => Some(double_ratchet::health_of(s)),
                None => None,
            }),
    {
        match self.sessions.get(contact_id) {
            Some(s) => Some(s.health()),
            None => None,
        }
    }

    /// Every device a session is held with, each once.
    pub fn active_contacts(&self) -> (r: Vec<String>)
        ensures
            str_map::names_keys(r.deep_view(), self@.sessions),
    {
        self.sessions.keys()
    }

    /// Drops the session with this device; whether there was one.
    pub fn remove_session(&mut self, contact_id: &str) -> (r: bool)
        ensures
            r == old(self)@.sessions.contains_key(contact_id@),
            final(self).engine == old(self).engine,
            final(self)@ == (ClientView {
                sessions: old(self)@.sessions.remove(contact_id@),
                ..old(self)@
            }),
    {
        self.sessions.remove(contact_id).is_some()
    }

    /// Takes the session with this device out.
    pub fn take_session(&mut self, contact_id: &str) -> (r: Option<Session>)
        ensures
            r.deep_view() == str_map::lookup(old(self)@.sessions, contact_id@),
            final(self).engine == old(self).engine,
            final(self)@ == (ClientView {
                sessions: old(self)@.sessions.remove(contact_id@),
                ..old(self)@
            }),
    {
        self.sessions.remove(contact_id)
    }

    /// Puts a session that was taken out back.
    pub fn put_back_session(&mut self, contact_id: &str, session: Session)
        ensures
            final(self).engine == old(self).engine,
            final(self)@ == with_session(old(self)@, contact_id@, session.deep_view()),
    {
        self.sessions.insert(contact_id.to_owned(), session);
    }

    /// Files a session under this device; its session id.
    pub fn import_session(&mut self, contact_id: &str, session: Session) -> (r: String)
        ensures
            final(self).engine == old(self).engine,
            final(self)@ == with_session(old(self)@, contact_id@, session.deep_view()),
            r@ == session.deep_view().session_id,
    {
        let id = session.session_id.clone();
        self.sessions.insert(contact_id.to_owned(), session);
        id
    }

    fn fresh(&self, contact_id: &str, opened: OpenedSession) -> (r: Session)
        ensures
            r.deep_view() == fresh_session(self@, contact_id@, opened.deep_view()),
    {
        Session {
            contact_id: contact_id.to_owned(),
            local_user_id: self.local_user_id.clone(),
            session_id: opened.session_id,
            suite_id: opened.suite_id,
            pq_handshake: PqHandshake::Classical,
            pq_authentication: PqAuthentication::Unauthenticated,
            prekey_header: None,
            ratchet: opened.ratchet,
        }
    }

    /// Files what the engine opened as INITIATOR.
    pub fn opened_as_initiator(
        &mut self,
        contact_id: &str,
        reply: Result<OpenedSession, String>,
    ) -> (r: Result<String, String>)
        ensures
            final(self).engine == old(self).engine,
            (final(self)@, vecs::outcome_text(r)) == open_step(
                old(self)@,
                contact_id@,
                vecs::outcome(reply),
            ),
    {
        if self.has_session(contact_id) {
            return Err(join("Session already exists: ", contact_id));
        }
        match reply {
            Err(e) => Err(e),
            Ok(o) => {
                let id = o.session_id.clone();
                let s = self.fresh(contact_id, o);
                self.sessions.insert(contact_id.to_owned(), s);
                Ok(id)
            },
        }
    }

    /// Opens a session with this device as INITIATOR, with the ML-KEM part `pq`.
    pub fn init_session_with_pq(
        &mut self,
        contact_id: &str,
        bundle: &X3DHPublicKeyBundle,
        one_time_prekey_id: u32,
        allow_stale: bool,
        pq: &Option<PqxdhInput>,
    ) -> (r: Result<String, String>)
        ensures
            final(self).engine == old(self).engine,
            exists|reply: Result<OpenedView, Seq<char>>|
                #![trigger open_step(old(self)@, contact_id@, reply)]
                engine::said_open_initiator(
                    &old(self).engine,
                    old(self)@.keys,
                    old(self)@.local_user_id,
                    contact_id@,
                    bundle.deep_view(),
                    one_time_prekey_id,
                    allow_stale,
                    pq.deep_view(),
                    reply,
                ) && (final(self)@, vecs::outcome_text(r)) == open_step(
                    old(self)@,
                    contact_id@,
                    reply,
                ),
    {
        let reply = self.engine.open_initiator(
            &self.keys,
            self.local_user_id.as_str(),
            contact_id,
            bundle,
            one_time_prekey_id,
            allow_stale,
            pq,
        );
        self.opened_as_initiator(contact_id, reply)
    }

    /// Files what the engine opened as RESPONDER from a first message.
    pub fn opened_as_responder(
        &mut self,
        contact_id: &str,
        one_time_prekey_id: u32,
        reply: Result<Received, String>,
    ) -> (r: Result<Vec<u8>, String>)
        ensures
            final(self).engine == old(self).engine,
            (final(self)@, vecs::outcome_bytes(r)) == receive_step(
                old(self)@,
                contact_id@,
                one_time_prekey_id,
                vecs::outcome(reply),
            ),
    {
        match reply {
            Err(e) => Err(e),
            Ok(o) => {
                let s = self.fresh(contact_id, o.session);
                self.sessions.insert(contact_id.to_owned(), s);
                self.keys.remove_otpk(one_time_prekey_id);
                Ok(o.plaintext)
            },
        }
    }

    /// Opens a session with this device as RESPONDER from its first message.
    pub fn init_receiving_session_with_ephemeral(
        &mut self,
        contact_id: &str,
        remote_identity: &[u8],
        remote_ephemeral: &[u8],
        message: &EncryptedRatchetMessage,
        one_time_prekey_id: u32,
        pq: &Option<PqxdhInput>,
    ) -> (r: Result<Vec<u8>, String>)
        ensures
            final(self).engine == old(self).engine,
            exists|reply: Result<ReceivedView, Seq<char>>|
                #![trigger receive_step(old(self)@, contact_id@, one_time_prekey_id, reply)]
                engine::said_open_responder(
                    &old(self).engine,
                    old(self)@.keys,
                    old(self)@.local_user_id,
                    contact_id@,
                    remote_identity@,
                    remote_ephemeral@,
                    message.deep_view(),
                    one_time_prekey_id,
                    pq.deep_view(),
                    reply,
                ) && (final(self)@, vecs::outcome_bytes(r)) == receive_step(
                    old(self)@,
                    contact_id@,
                    one_time_prekey_id,
                    reply,
                ),
    {
        let reply = self.engine.open_responder(
            &self.keys,
            self.local_user_id.as_str(),
            contact_id,
            remote_identity,
            remote_ephemeral,
            message,
            one_time_prekey_id,
            pq,
        );
        self.opened_as_responder(contact_id, one_time_prekey_id, reply)
    }

    /// Takes over what the engine made of encrypting for this device.
    pub fn encrypted(&mut self, contact_id: &str, reply: Result<Encrypted, String>) -> (r: Result<
        EncryptedRatchetMessage,
        String,
    >)
        ensures
            final(self).engine == old(self).engine,
            (final(self)@, vecs::outcome(r)) == encrypt_step(
                old(self)@,
                contact_id@,
                vecs::outcome(reply),
            ),
    {
        match self.sessions.remove(contact_id) {
            None => {
                assert(self@ =~= old(self)@);
                Err(join("Session not found: ", contact_id))
            },
            Some(mut s) => match reply {
                Err(e) => {
                    self.sessions.insert(contact_id.to_owned(), s);
                    assert(self@ =~= old(self)@);
                    Err(e)
                },
                Ok(x) => {
                    s.ratchet = x.ratchet;
                    self.sessions.insert(contact_id.to_owned(), s);
                    assert(self@ =~= encrypt_step(old(self)@, contact_id@, vecs::outcome(reply)).0);
                    Ok(x.message)
                },
            },
        }
    }

    /// Encrypts the next message for this device.
    pub fn encrypt_message(&mut self, contact_id: &str, plaintext: &[u8]) -> (r: Result<
        EncryptedRatchetMessage,
        String,
    >)
        ensures
            final(self).engine == old(self).engine,
            exists|reply: Result<EncryptedView, Seq<char>>|
                #![trigger encrypt_step(old(self)@, contact_id@, reply)]
                (str_map::lookup(
                    old(self)@.sessions,
                    contact_id@,
                ) matches Some(s) ==> engine::said_encrypt(
                    &old(self).engine,
                    s,
                    plaintext@,
                    reply,
                )) && (final(self)@, vecs::outcome(r)) == encrypt_step(
                    old(self)@,
                    contact_id@,
                    reply,
                ),
    {
        let reply = match self.sessions.get(contact_id) {
            Some(s) => self.engine.encrypt(s, plaintext),
            None => Err(String::new()),
        };
        self.encrypted(contact_id, reply)
    }

    /// Takes over what the engine made of decrypting a message of this device.
    pub fn decrypted(&mut self, contact_id: &str, reply: Result<Decrypted, String>) -> (r: Result<
        Vec<u8>,
        String,
    >)
        ensures
            final(self).engine == old(self).engine,
            (final(self)@, vecs::outcome_bytes(r)) == decrypt_step(
                old(self)@,
                contact_id@,
                vecs::outcome(reply),
            ),
    {
        match self.sessions.remove(contact_id) {
            None => {
                assert(self@ =~= old(self)@);
                Err(join("Session not found: ", contact_id))
            },
            Some(mut s) => match reply {
                Err(e) => {
                    self.sessions.insert(contact_id.to_owned(), s);
                    assert(self@ =~= old(self)@);
                    Err(e)
                },
                Ok(x) => {
                    s.ratchet = x.ratchet;
                    s.prekey_header = None;
                    self.sessions.insert(contact_id.to_owned(), s);
                    assert(self@ =~= decrypt_step(old(self)@, contact_id@, vecs::outcome(reply)).0);
                    Ok(x.plaintext)
                },
            },
        }
    }

    /// Decrypts a message of this device.
    pub fn decrypt_message(&mut self, contact_id: &str, message: &EncryptedRatchetMessage) -> (r:
        Result<Vec<u8>, String>)
        ensures
            final(self).engine == old(self).engine,
            exists|reply: Result<DecryptedView, Seq<char>>|
                #![trigger decrypt_step(old(self)@, contact_id@, reply)]
                (str_map::lookup(
                    old(self)@.sessions,
                    contact_id@,
                ) matches Some(s) ==> engine::said_decrypt(
                    &old(self).engine,
                    s,
                    message.deep_view(),
                    reply,
                )) && (final(self)@, vecs::outcome_bytes(r)) == decrypt_step(
                    old(self)@,
                    contact_id@,
                    reply,
                ),
    {
        let reply = match self.sessions.get(contact_id) {
            Some(s) => self.engine.decrypt(s, message),
            None => Err(String::new()),
        };
        self.decrypted(contact_id, reply)
    }

    /// Takes over what the engine made of mixing in a deferred ML-KEM secret.
    pub fn mixed_in(&mut self, contact_id: &str, reply: Result<Vec<u8>, String>) -> (r: Result<
        (),
        String,
    >)
        ensures
            final(self).engine == old(self).engine,
            (final(self)@, vecs::outcome_unit(r)) == mix_step(
                old(self)@,
                contact_id@,
                vecs::outcome_bytes(reply),
            ),
    {
        match self.sessions.remove(contact_id) {
            None => {
                assert(self@ =~= old(self)@);
                Err(join("Session not found: ", contact_id))
            },
            Some(mut s) => match reply {
                Err(e) => {
                    self.sessions.insert(contact_id.to_owned(), s);
                    assert(self@ =~= old(self)@);
                    Err(e)
                },
                Ok(ratchet) => {
                    s.ratchet = ratchet;
                    if let PqHandshake::Classical = s.pq_handshake {
                        s.pq_handshake = PqHandshake::DeferredV1;
                    }
                    self.sessions.insert(contact_id.to_owned(), s);
                    assert(self@ =~= mix_step(
                        old(self)@,
                        contact_id@,
                        vecs::outcome_bytes(reply),
                    ).0);
                    Ok(())
                },
            },
        }
    }

    /// Mixes a deferred ML-KEM secret into the session with this device.
    pub fn apply_pq_contribution_to_session(
        &mut self,
        contact_id: &str,
        shared_secret: &[u8],
    ) -> (r: Result<(), String>)
        ensures
            final(self).engine == old(self).engine,
            exists|reply: Result<Seq<u8>, Seq<char>>|
                #![trigger mix_step(old(self)@, contact_id@, reply)]
                (str_map::lookup(old(self)@.sessions, contact_id@) matches Some(s)
                    ==> engine::said_mix_pq_contribution(
                        &old(self).engine,
                        s,
                        shared_secret@,
                        reply,
                    )) && (
                final(self)@, vecs::outcome_unit(r)) == mix_step(old(self)@, contact_id@, reply),
    {
        let reply = match self.sessions.get(contact_id) {
            Some(s) => self.engine.mix_pq_contribution(s, shared_secret),
            None => Err(String::new()),
        };
        self.mixed_in(contact_id, reply)
    }

    /// Labels the session with this device as opened with an initial ML-KEM secret.
    pub fn mark_pqxdh_v2(&mut self, contact_id: &str, auth: PqAuthentication)
        ensures
            final(self).engine == old(self).engine,
            final(self)@ == marked_v2(old(self)@, contact_id@, auth),
    {
        if let Some(mut s) = self.sessions.remove(contact_id) {
            s.pq_handshake = PqHandshake::InitialV2;
            s.pq_authentication = auth;
            self.sessions.insert(contact_id.to_owned(), s);
        }
        assert(self@ =~= marked_v2(old(self)@, contact_id@, auth));
    }

    /// Sets the header the first flight of the session with this device carries.
    pub fn set_prekey_header(&mut self, contact_id: &str, header: PrekeyHeader)
        ensures
            final(self).engine == old(self).engine,
            final(self)@ == header_set(old(self)@, contact_id@, header.deep_view()),
    {
        if let Some(mut s) = self.sessions.remove(contact_id) {
            s.prekey_header = Some(header);
            self.sessions.insert(contact_id.to_owned(), s);
        }
        assert(self@ =~= header_set(old(self)@, contact_id@, header.deep_view()));
    }
}

/// A new client holds no session and no one-time key; its identity, its signing key and its first
/// signed prekey are those the engine made, the prekey signed under the prologue of suite 1; and its
/// numbers begin at one, those of the one-time Kyber prekeys at a million.
pub proof fn a_new_client_begins_empty<E: CryptoEngine>(
    engine: &E,
    identity: Result<PairView, Seq<char>>,
    signing: Result<PairView, Seq<char>>,
    pair: Result<PairView, Seq<char>>,
    signature: Result<Seq<u8>, Seq<char>>,
)
    requires
        keys_said(engine, identity, signing, pair, signature),
    ensures
        client_made(identity, signing, pair, signature) is Ok <==> identity is Ok && signing is Ok
            && pair is Ok && signature is Ok,
        client_made(identity, signing, pair, signature) matches Ok(c) ==> {
            &&& c.sessions == Map::<Seq<char>, SessionView>::empty()
            &&& c.local_user_id.len() == 0
            &&& engine::said_new_kem_pair(engine, Ok(c.keys.identity))
            &&& engine::said_new_signing_pair(engine, Ok(c.keys.signing))
            &&& engine::said_new_kem_pair(engine, Ok(c.keys.signed_prekey.pair))
            &&& engine::said_sign(
                engine,
                c.keys.signing.secret,
                handshake::prologue(1) + c.keys.signed_prekey.pair.public,
                Ok(c.keys.signed_prekey.signature),
            )
            &&& c.keys.signed_prekey.key_id == 1
            &&& c.keys.old_prekeys.len() == 0
            &&& c.keys.otpks.len() == 0
            &&& c.keys.next_otpk_id == 1
            &&& c.keys.hybrid is None
            &&& c.keys.kyber.current is None
            &&& c.keys.kyber.pending is None
            &&& c.keys.kyber.retired.len() == 0
            &&& c.keys.kyber.otpks.len() == 0
            &&& c.keys.kyber.next_spk_id == 1
            &&& c.keys.kyber.next_otpk_id == 1_000_000
        },
{
}

} // verus!
