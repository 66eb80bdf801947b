//! Messages in and out of a session: encrypting, packing, decrypting.

use vstd::prelude::*;

use crate::crypto::client_api;
use crate::crypto::engine::{self, CryptoEngine, DecryptedView, EncryptedView};
use crate::crypto::messaging::double_ratchet::{
    clone_opt_field, clone_opt_header, key32, EncryptedRatchetMessage, HeaderView, PqFieldView,
    PqRatchetWireField, PrekeyHeader, RatchetMessageView,
};
use crate::orchestration::actions::{Action, ActionView};
use crate::orchestration::clock::Clock;
use crate::orchestration::orchestrator::decisions::CT_CALL_SIGNAL;
use crate::orchestration::orchestrator::{OrchView, Orchestrator};
use crate::orchestration::session_lifecycle::{
    self, save_session_action, DecryptResultView, LifeView,
};
use crate::orchestration::wire_message::{self, to_ratchet_message, MessageFault, NONCE_SIZE};
use crate::str_map;
use crate::vecs;
use crate::wire_payload::{self, pack, unpack, WireFields, WirePayloadError};

verus! {

/// An encrypted outgoing message and the handshake header it carries, ready to pack.
#[derive(Debug)]
pub struct OutgoingEncrypted {
    pub message: EncryptedRatchetMessage,
    /// `nonce || ciphertext`.
    pub sealed_box: Vec<u8>,
    /// Present on the initiator's first flight.
    pub header: Option<PrekeyHeader>,
}

/// An `OutgoingEncrypted` by what its fields hold.
pub struct OutgoingView {
    pub message: RatchetMessageView,
    pub sealed_box: Seq<u8>,
    pub header: Option<HeaderView>,
}

impl DeepView for OutgoingEncrypted {
    type V = OutgoingView;

    open spec fn deep_view(&self) -> OutgoingView {
        OutgoingView {
            message: self.message.deep_view(),
            sealed_box: self.sealed_box@,
            header: self.header.deep_view(),
        }
    }
}

impl Clone for OutgoingEncrypted {
    fn clone(&self) -> (r: Self)
        ensures
            r.deep_view() == self.deep_view(),
    {
        OutgoingEncrypted {
            message: self.message.clone(),
            sealed_box: vecs::bytes(self.sealed_box.as_slice()),
            header: clone_opt_header(&self.header),
        }
    }
}

/// The contents of the payload an outgoing message is packed into.
pub open spec fn outgoing_fields(out: OutgoingView) -> WireFields {
    let (otpk_id, kyber_id, kem) = match out.header {
        Some(h) => (
            h.one_time_prekey_id,
            h.kyber_prekey_id,
            if h.kem_ciphertext.len() > 0 {
                Some(h.kem_ciphertext)
            } else {
                None
            },
        ),
        None => (0u32, 0u32, None),
    };
    wire_payload::packed_fields(
        out.message.dh_public_key,
        out.message.message_number,
        otpk_id,
        kyber_id,
        out.message.previous_chain_length,
        out.message.suite_id,
        kem,
        out.sealed_box,
        out.message.pq_message_epoch,
        out.message.pq_ratchet_field,
    )
}

/// The payload of an outgoing message, or why it cannot be packed.
pub open spec fn packed(out: OutgoingView) -> Result<Seq<u8>, WirePayloadError> {
    match wire_payload::pack_error(outgoing_fields(out)) {
        Some(e) => Err(e),
        None => Ok(wire_payload::encode(outgoing_fields(out))),
    }
}

impl OutgoingEncrypted {
    /// The wire payload.
    pub fn pack(&self) -> (r: Result<Vec<u8>, WirePayloadError>)
        ensures
            match (packed(self.deep_view()), r) {
                (Ok(b), Ok(v)) => v@ == b,
                (Err(e), Err(f)) => e == f,
                _ => false,
            },
    {
        let field = clone_opt_field(&self.message.pq_ratchet_field);
        let (otpk_id, kyber_prekey_id, kem) = match &self.header {
            Some(h) => (
                h.one_time_prekey_id,
                h.kyber_prekey_id,
                if h.kem_ciphertext.len() > 0 {
                    Some(h.kem_ciphertext.as_slice())
                } else {
                    None
                },
            ),
            None => (0u32, 0u32, None),
        };
        pack(
            &self.message.dh_public_key,
            self.message.message_number,
            otpk_id,
            kyber_prekey_id,
            self.message.previous_chain_length,
            self.message.suite_id,
            kem,
            self.sealed_box.as_slice(),
            self.message.pq_message_epoch,
            field,
        )
    }
}

// ── Sending ─────────────────────────────────────────────────────────────────

/// A reply the engine may give when asked to encrypt `plaintext` for `contact`.
pub open spec fn may_encrypt<E: CryptoEngine>(
    engine: &E,
    o: OrchView,
    contact: Seq<char>,
    plaintext: Seq<u8>,
    reply: Result<EncryptedView, Seq<char>>,
) -> bool {
    str_map::lookup(o.life.client.sessions, contact) matches Some(s) ==> engine::said_encrypt(
        engine,
        s,
        plaintext,
        reply,
    )
}

/// What the engine's answer to encrypting for `contact` leads to: the message, with the header of
/// the first flight while the session has one.
pub open spec fn sent_step(
    o: OrchView,
    contact: Seq<char>,
    reply: Result<EncryptedView, Seq<char>>,
) -> (OrchView, Result<OutgoingView, Seq<char>>) {
    let (client, sealed) = client_api::encrypt_step(o.life.client, contact, reply);
    (
        OrchView { life: LifeView { client, ..o.life }, ..o },
        match sealed {
            Err(e) => Err(e),
            Ok(m) => Ok(
                OutgoingView {
                    message: m,
                    sealed_box: m.nonce + m.ciphertext,
                    header: match str_map::lookup(client.sessions, contact) {
                        Some(s) => s.prekey_header,
                        None => None,
                    },
                },
            ),
        },
    )
}

/// The same, packed.
pub open spec fn wire_step(
    o: OrchView,
    contact: Seq<char>,
    reply: Result<EncryptedView, Seq<char>>,
) -> (OrchView, Result<Seq<u8>, Seq<char>>) {
    let (next, out) = sent_step(o, contact, reply);
    (
        next,
        match out {
            Err(e) => Err(e),
            Ok(out) => match packed(out) {
                Err(e) => Err(e.text()),
                Ok(b) => Ok(b),
            },
        },
    )
}

/// Saving a session, where it could be exported.
pub open spec fn save_exported(contact: Seq<char>, x: Result<Seq<u8>, Seq<char>>) -> Seq<
    ActionView,
> {
    match x {
        Ok(data) => seq![session_lifecycle::save_session(contact, data)],
        Err(_) => Seq::empty(),
    }
}

/// The actions of a message that goes out: the session is saved before it is sent, so that a crash
/// in between leaves a message to send again and not a ratchet behind its peer.
pub open spec fn save_then_send(
    contact: Seq<char>,
    message_id: Seq<char>,
    payload: Seq<u8>,
    content_type: u8,
    x: Result<Seq<u8>, Seq<char>>,
) -> Seq<ActionView> {
    save_exported(contact, x).push(
        ActionView::SendEncryptedMessage { to: contact, payload, message_id, content_type },
    )
}

/// The engine encrypts to `reply` and exports to `x`: what follows for an outgoing message.
pub open spec fn outgoing_outcome<E: CryptoEngine>(
    engine: &E,
    o: OrchView,
    contact: Seq<char>,
    message_id: Seq<char>,
    plaintext: Seq<u8>,
    content_type: u8,
    reply: Result<EncryptedView, Seq<char>>,
    x: Result<Seq<u8>, Seq<char>>,
    next: OrchView,
    actions: Seq<ActionView>,
) -> bool {
    let (sent, out) = sent_step(o, contact, reply);
    &&& may_encrypt(engine, o, contact, plaintext, reply)
    &&& next == sent
    &&& match out {
        Err(e) => actions == seq![session_lifecycle::notify_error("OUTGOING_MESSAGE_ENCRYPT_FAILED"@, e)],
        Ok(out) => match packed(out) {
            Err(e) => actions == seq![session_lifecycle::notify_error("OUTGOING_MESSAGE_PACK_FAILED"@, e.text())],
            Ok(payload) => session_lifecycle::exported(
                engine,
                next.life,
                contact,
                x,
            ) && actions == save_then_send(
                contact,
                message_id,
                payload,
                content_type,
                x,
            ),
        },
    }
}

/// What an outgoing message may lead to.
pub open spec fn outgoing_may<E: CryptoEngine>(
    engine: &E,
    o: OrchView,
    contact: Seq<char>,
    message_id: Seq<char>,
    plaintext: Seq<u8>,
    content_type: u8,
    next: OrchView,
    actions: Seq<ActionView>,
) -> bool {
    exists|reply: Result<EncryptedView, Seq<char>>, x: Result<Seq<u8>, Seq<char>>| #[trigger]
        outgoing_outcome(
            engine,
            o,
            contact,
            message_id,
            plaintext,
            content_type,
            reply,
            x,
            next,
            actions,
        )
}

/// The engine encrypts to `reply` and exports to `x`: what follows for a call signal.
pub open spec fn call_signal_outcome<E: CryptoEngine>(
    engine: &E,
    o: OrchView,
    contact: Seq<char>,
    message_id: Seq<char>,
    plaintext: Seq<u8>,
    reply: Result<EncryptedView, Seq<char>>,
    x: Result<Seq<u8>, Seq<char>>,
    next: OrchView,
    actions: Seq<ActionView>,
) -> bool {
    let (sent, wire) = wire_step(o, contact, reply);
    &&& may_encrypt(engine, o, contact, plaintext, reply)
    &&& next == sent
    &&& match wire {
        Err(e) => actions == seq![session_lifecycle::notify_error("CALL_SIGNAL_ENCRYPT_FAILED"@, e)],
        Ok(payload) => session_lifecycle::exported(
            engine,
            next.life,
            contact,
            x,
        ) && actions == save_then_send(
            contact,
            message_id,
            payload,
            CT_CALL_SIGNAL,
            x,
        ),
    }
}

/// What an outgoing call signal may lead to.
pub open spec fn call_signal_may<E: CryptoEngine>(
    engine: &E,
    o: OrchView,
    contact: Seq<char>,
    message_id: Seq<char>,
    plaintext: Seq<u8>,
    next: OrchView,
    actions: Seq<ActionView>,
) -> bool {
    exists|reply: Result<EncryptedView, Seq<char>>, x: Result<Seq<u8>, Seq<char>>| #[trigger]
        call_signal_outcome(engine, o, contact, message_id, plaintext, reply, x, next, actions)
}

// ── Receiving ───────────────────────────────────────────────────────────────

/// The ratchet message of a payload, or why it has none.
pub open spec fn readable(payload: Seq<u8>) -> Result<RatchetMessageView, Seq<char>> {
    match wire_payload::decode(payload) {
        Err(e) => Err(e.text()),
        Ok(f) => match wire_message::message_fault(f) {
            Some(MessageFault::ShortBox) => Err("sealed_box too short"@),
            Some(MessageFault::KeyLength) => Err("dh_public_key must be 32 bytes"@),
            None => Ok(wire_message::carried_message(f)),
        },
    }
}

/// The ratchet message of its components, or why they make none.
pub open spec fn assembled(
    ephemeral_public_key: Seq<u8>,
    message_number: u32,
    content: Seq<u8>,
    suite_id: u16,
    pq_message_epoch: u32,
    pq_ratchet_field: Option<PqFieldView>,
) -> Result<RatchetMessageView, Seq<char>> {
    if content.len() < NONCE_SIZE {
        Err("sealed_box too short"@)
    } else if ephemeral_public_key.len() != 32 {
        Err("ephemeral_public_key must be 32 bytes"@)
    } else {
        Ok(
            RatchetMessageView {
                dh_public_key: ephemeral_public_key,
                message_number,
                ciphertext: content.skip(NONCE_SIZE as int),
                nonce: content.take(NONCE_SIZE as int),
                previous_chain_length: 0,
                suite_id,
                pq_message_epoch,
                pq_ratchet_field,
            },
        )
    }
}

/// The ratchet message of its components.
pub fn assemble(
    ephemeral_public_key: &[u8],
    message_number: u32,
    content: &[u8],
    suite_id: u16,
    pq_message_epoch: u32,
    pq_ratchet_field: Option<PqRatchetWireField>,
) -> (r: Result<EncryptedRatchetMessage, String>)
    ensures
        vecs::outcome(r) == assembled(
            ephemeral_public_key@,
            message_number,
            content@,
            suite_id,
            pq_message_epoch,
            pq_ratchet_field.deep_view(),
        ),
{
    let n = content.len();
    if n < NONCE_SIZE {
        return Err("sealed_box too short".to_owned());
    }
    let dh = match key32(ephemeral_public_key) {
        Some(k) => k,
        None => {
            return Err("ephemeral_public_key must be 32 bytes".to_owned());
        },
    };
    let nonce = vecs::bytes_between(content, 0, NONCE_SIZE);
    let ciphertext = vecs::bytes_between(content, NONCE_SIZE, n);
    assert(nonce@ =~= content@.take(NONCE_SIZE as int));
    assert(ciphertext@ =~= content@.skip(NONCE_SIZE as int));
    Ok(
        EncryptedRatchetMessage {
            dh_public_key: dh,
            message_number,
            ciphertext,
            nonce,
            previous_chain_length: 0,
            suite_id,
            pq_message_epoch,
            pq_ratchet_field,
        },
    )
}

/// What the engine's answer to decrypting leads to.
pub open spec fn read_step(
    o: OrchView,
    contact: Seq<char>,
    reply: Result<DecryptedView, Seq<char>>,
) -> (OrchView, Result<Seq<u8>, Seq<char>>) {
    let (client, plain) = client_api::decrypt_step(o.life.client, contact, reply);
    (OrchView { life: LifeView { client, ..o.life }, ..o }, plain)
}

/// A reply the engine may give when asked to decrypt `m` of `contact`.
pub open spec fn may_decrypt<E: CryptoEngine>(
    engine: &E,
    o: OrchView,
    contact: Seq<char>,
    m: RatchetMessageView,
    reply: Result<DecryptedView, Seq<char>>,
) -> bool {
    str_map::lookup(o.life.client.sessions, contact) matches Some(s)
        ==> engine::said_decrypt(engine, s, m, reply)
}

/// What decrypting a message of `contact` may lead to.
pub open spec fn read_may<E: CryptoEngine>(
    engine: &E,
    o: OrchView,
    contact: Seq<char>,
    m: Result<RatchetMessageView, Seq<char>>,
    next: OrchView,
    result: Result<Seq<u8>, Seq<char>>,
) -> bool {
    match m {
        Err(e) => next == o && result == Err::<Seq<u8>, Seq<char>>(e),
        Ok(m) => exists|reply: Result<DecryptedView, Seq<char>>|
            may_decrypt(engine, o, contact, m, reply) && (next, result) == #[trigger] read_step(
                o,
                contact,
                reply,
            ),
    }
}

impl<C: Clock, E: CryptoEngine> Orchestrator<C, E> {
    /// Encrypts for this device: the ratchet message, its sealed box, and the handshake header it
    /// must carry (the initiator's first flight, until the peer answers).
    pub fn encrypt_message_for(&mut self, contact_id: &str, plaintext: &[u8]) -> (r: Result<
        OutgoingEncrypted,
        String,
    >)
        ensures
            exists|reply: Result<EncryptedView, Seq<char>>|
                may_encrypt(
                    &old(self).lifecycle.client.engine,
                    old(self)@,
                    contact_id@,
                    plaintext@,
                    reply,
                ) && (final(self)@, vecs::outcome(r)) == #[trigger] sent_step(
                    old(self)@,
                    contact_id@,
                    reply,
                ),
            final(self).lifecycle.client.engine == old(self).lifecycle.client.engine,
            final(self).same_clocks(*old(self)),
    {
        let ghost o = self@;
        let ghost e = self.lifecycle.client.engine;
        let sealed = self.lifecycle.client.encrypt_message(contact_id, plaintext);
        let ghost reply = choose|reply: Result<EncryptedView, Seq<char>>|
            (str_map::lookup(
                o.life.client.sessions,
                contact_id@,
            ) matches Some(s) ==> engine::said_encrypt(
                &e,
                s,
                plaintext@,
                reply,
            )) && (self.lifecycle.client@, vecs::outcome(sealed)) == #[trigger] client_api::encrypt_step(
                o.life.client,
                contact_id@,
                reply,
            );
        let ghost step = sent_step(o, contact_id@, reply);
        assert(may_encrypt(&e, o, contact_id@, plaintext@, reply));
        match sealed {
            Err(f) => Err(f),
            Ok(message) => {
                let mut sealed_box = vecs::bytes(message.nonce.as_slice());
                vecs::append_bytes(&mut sealed_box, message.ciphertext.as_slice());
                let header = match self.lifecycle.client.get_session(contact_id) {
                    Some(s) => clone_opt_header(&s.prekey_header),
                    None => None,
                };
                let out = OutgoingEncrypted { message, sealed_box, header };
                assert(step.1 == Ok::<OutgoingView, Seq<char>>(out.deep_view()));
                Ok(out)
            },
        }
    }

    /// Encrypts binary bytes for this device and packs them into a wire payload ready to send.
    pub fn encrypt_bytes_for(&mut self, contact_id: &str, plaintext: &[u8]) -> (r: Result<
        Vec<u8>,
        String,
    >)
        ensures
            exists|reply: Result<EncryptedView, Seq<char>>|
                may_encrypt(
                    &old(self).lifecycle.client.engine,
                    old(self)@,
                    contact_id@,
                    plaintext@,
                    reply,
                ) && (final(self)@, vecs::outcome_bytes(r)) == #[trigger] wire_step(
                    old(self)@,
                    contact_id@,
                    reply,
                ),
            final(self).lifecycle.client.engine == old(self).lifecycle.client.engine,
            final(self).same_clocks(*old(self)),
    {
        let ghost o = self@;
        let ghost e = self.lifecycle.client.engine;
        let sent = self.encrypt_message_for(contact_id, plaintext);
        let ghost reply = choose|reply: Result<EncryptedView, Seq<char>>|
            may_encrypt(&e, o, contact_id@, plaintext@, reply) && (self@, vecs::outcome(sent))
                == #[trigger] sent_step(o, contact_id@, reply);
        let ghost step = wire_step(o, contact_id@, reply);
        match sent {
            Err(f) => Err(f),
            Ok(out) => match out.pack() {
                Ok(b) => Ok(b),
                Err(f) => Err(f.to_text()),
            },
        }
    }

    fn decrypt_parsed(&mut self, contact_id: &str, message: &EncryptedRatchetMessage) -> (r: Result<
        Vec<u8>,
        String,
    >)
        ensures
            read_may(
                &old(self).lifecycle.client.engine,
                old(self)@,
                contact_id@,
                Ok(message.deep_view()),
                final(self)@,
                vecs::outcome_bytes(r),
            ),
            final(self).lifecycle.client.engine == old(self).lifecycle.client.engine,
            final(self).same_clocks(*old(self)),
    {
        let ghost o = self@;
        let ghost e = self.lifecycle.client.engine;
        let r = self.lifecycle.client.decrypt_message(contact_id, message);
        proof {
            let reply = choose|reply: Result<DecryptedView, Seq<char>>|
                (str_map::lookup(
                    o.life.client.sessions,
                    contact_id@,
                ) matches Some(s) ==> engine::said_decrypt(
                    &e,
                    s,
                    message.deep_view(),
                    reply,
                )) && (self.lifecycle.client@, vecs::outcome_bytes(r)) == #[trigger] client_api::decrypt_step(
                    o.life.client,
                    contact_id@,
                    reply,
                );
            assert(may_decrypt(&e, o, contact_id@, message.deep_view(), reply));
            assert((self@, vecs::outcome_bytes(r)) == read_step(o, contact_id@, reply));
        }
        r
    }

    /// Decrypts a wire payload and returns the plaintext bytes.
    pub fn decrypt_bytes_for(&mut self, contact_id: &str, wire_payload: &[u8]) -> (r: Result<
        Vec<u8>,
        String,
    >)
        ensures
            read_may(
                &old(self).lifecycle.client.engine,
                old(self)@,
                contact_id@,
                readable(wire_payload@),
                final(self)@,
                vecs::outcome_bytes(r),
            ),
            final(self).lifecycle.client.engine == old(self).lifecycle.client.engine,
            final(self).same_clocks(*old(self)),
    {
        let decoded = match unpack(wire_payload) {
            Ok(d) => d,
            Err(e) => {
                return Err(e.to_text());
            },
        };
        match to_ratchet_message(&decoded) {
            Err(MessageFault::ShortBox) => Err("sealed_box too short".to_owned()),
            Err(MessageFault::KeyLength) => Err("dh_public_key must be 32 bytes".to_owned()),
            Ok(m) => self.decrypt_parsed(contact_id, &m),
        }
    }

    /// Decrypts a message given by its components. The caller passes the message's own suite and
    /// PQ tags from the wire: the ratchet authenticates them.
    pub fn decrypt_message_for(
        &mut self,
        contact_id: &str,
        ephemeral_public_key: Vec<u8>,
        message_number: u32,
        content: &[u8],
        suite_id: u16,
        pq_message_epoch: u32,
        pq_ratchet_field: Option<PqRatchetWireField>,
    ) -> (r: Result<Vec<u8>, String>)
        ensures
            read_may(
                &old(self).lifecycle.client.engine,
                old(self)@,
                contact_id@,
                assembled(
                    ephemeral_public_key@,
                    message_number,
                    content@,
                    suite_id,
                    pq_message_epoch,
                    pq_ratchet_field.deep_view(),
                ),
                final(self)@,
                vecs::outcome_bytes(r),
            ),
            final(self).lifecycle.client.engine == old(self).lifecycle.client.engine,
            final(self).same_clocks(*old(self)),
    {
        match assemble(
            ephemeral_public_key.as_slice(),
            message_number,
            content,
            suite_id,
            pq_message_epoch,
            pq_ratchet_field,
        ) {
            Err(e) => Err(e),
            Ok(m) => self.decrypt_parsed(contact_id, &m),
        }
    }

    /// The actions of a message that goes out, when the session exported to `export`.
    pub fn send_saved(
        contact_id: String,
        message_id: String,
        payload: Vec<u8>,
        content_type: u8,
        export: Result<Vec<u8>, String>,
    ) -> (r: Vec<Action>)
        ensures
            r.deep_view() == save_then_send(
                contact_id@,
                message_id@,
                payload@,
                content_type,
                vecs::outcome_bytes(export),
            ),
    {
        let mut actions: Vec<Action> = vecs::none();
        if let Ok(data) = export {
            vecs::push(&mut actions, save_session_action(contact_id.as_str(), data));
        }
        vecs::push(
            &mut actions,
            Action::SendEncryptedMessage { to: contact_id, payload, message_id, content_type },
        );
        assert(actions.deep_view() =~= save_then_send(
            contact_id@,
            message_id@,
            payload@,
            content_type,
            vecs::outcome_bytes(export),
        ));
        actions
    }

    /// Encrypts a regular outgoing message and packs it into a wire payload ready to send.
    pub fn handle_outgoing_message(
        &mut self,
        contact_id: String,
        message_id: String,
        plaintext: Vec<u8>,
        content_type: u8,
    ) -> (r: Vec<Action>)
        ensures
            outgoing_may(
                &old(self).lifecycle.client.engine,
                old(self)@,
                contact_id@,
                message_id@,
                plaintext@,
                content_type,
                final(self)@,
                r.deep_view(),
            ),
            final(self).lifecycle.client.engine == old(self).lifecycle.client.engine,
            final(self).same_clocks(*old(self)),
    {
        let ghost o = self@;
        let ghost e = self.lifecycle.client.engine;
        let ghost c = contact_id@;
        let ghost id = message_id@;
        let ghost none = Err::<Seq<u8>, Seq<char>>(Seq::empty());
        let sent = self.encrypt_message_for(contact_id.as_str(), plaintext.as_slice());
        let ghost reply = choose|reply: Result<EncryptedView, Seq<char>>|
            may_encrypt(&e, o, c, plaintext@, reply) && (self@, vecs::outcome(sent))
                == #[trigger] sent_step(o, c, reply);
        let out = match sent {
            Ok(out) => out,
            Err(f) => {
                let r = vecs::one(
                    Action::NotifyError {
                        code: "OUTGOING_MESSAGE_ENCRYPT_FAILED".to_owned(),
                        message: f,
                    },
                );
                assert(outgoing_outcome(
                    &e,
                    o,
                    c,
                    id,
                    plaintext@,
                    content_type,
                    reply,
                    none,
                    self@,
                    r.deep_view(),
                ));
                return r;
            },
        };
        let payload = match out.pack() {
            Ok(p) => p,
            Err(f) => {
                let r = vecs::one(
                    Action::NotifyError {
                        code: "OUTGOING_MESSAGE_PACK_FAILED".to_owned(),
                        message: f.to_text(),
                    },
                );
                assert(outgoing_outcome(
                    &e,
                    o,
                    c,
                    id,
                    plaintext@,
                    content_type,
                    reply,
                    none,
                    self@,
                    r.deep_view(),
                ));
                return r;
            },
        };
        let export = self.lifecycle.export_session_bytes_for(contact_id.as_str());
        let ghost x = vecs::outcome_bytes(export);
        let r = Self::send_saved(contact_id, message_id, payload, content_type, export);
        assert(outgoing_outcome(
            &e,
            o,
            c,
            id,
            plaintext@,
            content_type,
            reply,
            x,
            self@,
            r.deep_view(),
        ));
        r
    }

    /// Encrypts a call signal and packs it into a wire payload ready to send.
    pub fn handle_outgoing_call_signal(
        &mut self,
        contact_id: String,
        message_id: String,
        proto_bytes: Vec<u8>,
    ) -> (r: Vec<Action>)
        ensures
            call_signal_may(
                &old(self).lifecycle.client.engine,
                old(self)@,
                contact_id@,
                message_id@,
                proto_bytes@,
                final(self)@,
                r.deep_view(),
            ),
            final(self).lifecycle.client.engine == old(self).lifecycle.client.engine,
            final(self).same_clocks(*old(self)),
    {
        let ghost o = self@;
        let ghost e = self.lifecycle.client.engine;
        let ghost c = contact_id@;
        let ghost id = message_id@;
        let wire = self.encrypt_bytes_for(contact_id.as_str(), proto_bytes.as_slice());
        let ghost reply = choose|reply: Result<EncryptedView, Seq<char>>|
            may_encrypt(&e, o, c, proto_bytes@, reply) && (self@, vecs::outcome_bytes(wire))
                == #[trigger] wire_step(o, c, reply);
        match wire {
            Err(f) => {
                let r = vecs::one(
                    Action::NotifyError {
                        code: "CALL_SIGNAL_ENCRYPT_FAILED".to_owned(),
                        message: f,
                    },
                );
                assert(call_signal_outcome(
                    &e,
                    o,
                    c,
                    id,
                    proto_bytes@,
                    reply,
                    Err::<Seq<u8>, Seq<char>>(Seq::empty()),
                    self@,
                    r.deep_view(),
                ));
                r
            },
            Ok(payload) => {
                let export = self.lifecycle.export_session_bytes_for(contact_id.as_str());
                let ghost x = vecs::outcome_bytes(export);
                let r = Self::send_saved(contact_id, message_id, payload, CT_CALL_SIGNAL, export);
                assert(call_signal_outcome(
                    &e,
                    o,
                    c,
                    id,
                    proto_bytes@,
                    reply,
                    x,
                    self@,
                    r.deep_view(),
                ));
                r
            },
        }
    }
}

// ── Laws ────────────────────────────────────────────────────────────────────

/// A message is sent only behind the save of the session that encrypted it: whenever the session
/// can be exported, the save comes first and the message right behind it.
pub proof fn a_session_is_saved_before_its_message_is_sent(
    contact: Seq<char>,
    message_id: Seq<char>,
    payload: Seq<u8>,
    content_type: u8,
    data: Seq<u8>,
)
    ensures
        save_then_send(contact, message_id, payload, content_type, Ok(data)) == seq![
            session_lifecycle::save_session(contact, data),
            ActionView::SendEncryptedMessage { to: contact, payload, message_id, content_type },
        ],
{
    assert(save_then_send(contact, message_id, payload, content_type, Ok(data)) =~= seq![
        session_lifecycle::save_session(contact, data),
        ActionView::SendEncryptedMessage { to: contact, payload, message_id, content_type },
    ]);
}

/// A payload carries the handshake exactly while the session has a header with a KEM ciphertext: the
/// whole first flight repeats it, and nothing behind the first flight does.
pub proof fn the_first_flight_carries_the_header(out: OutgoingView)
    ensures
        outgoing_fields(out).kem_ciphertext is Some <==> (out.header matches Some(h)
            && h.kem_ciphertext.len() > 0),
        out.header matches Some(h) ==> {
            &&& outgoing_fields(out).one_time_prekey_id == h.one_time_prekey_id
            &&& outgoing_fields(out).kyber_otpk_id == h.kyber_prekey_id
        },
{
}

/// Encrypting keeps the header of a session; a message of the peer that opens ends it.
pub proof fn the_peers_answer_ends_the_first_flight(
    o: OrchView,
    contact: Seq<char>,
    sealed: Result<EncryptedView, Seq<char>>,
    opened: DecryptedView,
)
    requires
        o.life.client.sessions.contains_key(contact),
    ensures
        sent_step(o, contact, sealed).0.life.client.sessions[contact].prekey_header
            == o.life.client.sessions[contact].prekey_header,
        read_step(o, contact, Ok(opened)).0.life.client.sessions[contact].prekey_header is None,
{
}

/// Whether a message can travel in a payload as it is: its nonce has the length a sealed box begins
/// with, only suite 3 carries anything of the PQ ratchet, and a hash has its length.
pub open spec fn travels_whole(m: RatchetMessageView) -> bool {
    &&& m.nonce.len() == NONCE_SIZE
    &&& m.suite_id != 3 ==> m.pq_message_epoch == 0 && m.pq_ratchet_field is None
    &&& m.pq_ratchet_field matches Some(PqFieldView::Ciphertext { epoch, ek_hash, ct })
        ==> ek_hash.len() == 8
}

/// The payload of an outgoing message carries that message: unpacked on the other side it is the
/// message that was encrypted.
pub proof fn a_payload_carries_its_message(out: OutgoingView, payload: Seq<u8>)
    requires
        packed(out) == Ok::<Seq<u8>, WirePayloadError>(payload),
        out.sealed_box == out.message.nonce + out.message.ciphertext,
        travels_whole(out.message),
    ensures
        session_lifecycle::wire_message_of(payload) == Ok::<RatchetMessageView, Seq<char>>(
            out.message,
        ),
        readable(payload) == Ok::<RatchetMessageView, Seq<char>>(out.message),
{
    let f = outgoing_fields(out);
    wire_payload::unpack_reads_what_pack_wrote(f);
    let m = wire_message::carried_message(f);
    assert(m.nonce =~= out.message.nonce);
    assert(m.ciphertext =~= out.message.ciphertext);
}

/// With engines of which one opens what the other seals, a payload sent to a device is read there:
/// what comes out is what was sent, unless the session it was read on cannot be recorded.
pub proof fn what_was_sent_is_read<E: CryptoEngine, R: CryptoEngine>(
    engine: &E,
    reader: &R,
    ours: OrchView,
    to: Seq<char>,
    plaintext: Seq<u8>,
    reply: EncryptedView,
    payload: Seq<u8>,
    theirs: LifeView,
    from: Seq<char>,
    received: LifeView,
    result: Result<DecryptResultView, Seq<char>>,
)
    requires
        ours.life.client.sessions.contains_key(to),
        theirs.client.sessions.contains_key(from),
        engine::opens_what_is_sealed(
            engine,
            reader,
            ours.life.client.sessions[to],
            theirs.client.sessions[from],
        ),
        may_encrypt(engine, ours, to, plaintext, Ok(reply)),
        wire_step(ours, to, Ok(reply)).1 == Ok::<Seq<u8>, Seq<char>>(payload),
        travels_whole(reply.message),
        session_lifecycle::decrypt_wire_may(reader, theirs, from, payload, received, result),
    ensures
        received.client.sessions.contains_key(from),
        match result {
            Ok(r) => r.plaintext == plaintext,
            Err(e) => session_lifecycle::exported(reader, received, from, Err(e)),
        },
{
    let s = ours.life.client.sessions[to];
    let t = theirs.client.sessions[from];
    let out = sent_step(ours, to, Ok::<EncryptedView, Seq<char>>(reply)).1->Ok_0;
    a_payload_carries_its_message(out, payload);
    let (d, y) = choose|
        d: Result<DecryptedView, Seq<char>>,
        y: Result<Seq<u8>, Seq<char>>,
    | #[trigger]
        session_lifecycle::decrypt_outcome(
            reader,
            theirs,
            from,
            t,
            reply.message,
            d,
            y,
            received,
            result,
        );
    assert(engine::said_encrypt(engine, s, plaintext, Ok::<EncryptedView, Seq<char>>(reply)));
    assert(engine::said_decrypt(reader, t, reply.message, d));
}

/// The state after a message of `contact` was read on its session as `x`.
pub open spec fn read_on(o: OrchView, contact: Seq<char>, x: DecryptedView) -> OrchView {
    let s = o.life.client.sessions[contact];
    OrchView {
        life: LifeView {
            client: client_api::with_session(o.life.client, contact, engine::read_on(s, x)),
            ..o.life
        },
        ..o
    }
}

/// The same of `decrypt_bytes_for`: the payload reads as what was sent, whatever else the reader
/// holds; its session goes on, and nothing else changes there.
pub proof fn what_was_sent_is_read_as_bytes<E: CryptoEngine, R: CryptoEngine>(
    engine: &E,
    reader: &R,
    ours: OrchView,
    to: Seq<char>,
    plaintext: Seq<u8>,
    reply: EncryptedView,
    payload: Seq<u8>,
    theirs: OrchView,
    from: Seq<char>,
    received: OrchView,
    result: Result<Seq<u8>, Seq<char>>,
)
    requires
        ours.life.client.sessions.contains_key(to),
        theirs.life.client.sessions.contains_key(from),
        engine::opens_what_is_sealed(
            engine,
            reader,
            ours.life.client.sessions[to],
            theirs.life.client.sessions[from],
        ),
        may_encrypt(engine, ours, to, plaintext, Ok(reply)),
        wire_step(ours, to, Ok(reply)).1 == Ok::<Seq<u8>, Seq<char>>(payload),
        travels_whole(reply.message),
        read_may(reader, theirs, from, readable(payload), received, result),
    ensures
        result == Ok::<Seq<u8>, Seq<char>>(plaintext),
        exists|x: DecryptedView| received == #[trigger] read_on(theirs, from, x),
{
    let out = sent_step(ours, to, Ok::<EncryptedView, Seq<char>>(reply)).1->Ok_0;
    a_payload_carries_its_message(out, payload);
    a_sealed_message_is_read(
        engine,
        reader,
        ours,
        to,
        plaintext,
        reply,
        theirs,
        from,
        received,
        result,
    );
}

/// The same of `decrypt_message_for`, given the components of the message. These do not name the
/// length of the chain before, so the message must be one whose chain is the first.
pub proof fn what_was_sent_is_read_by_its_components<E: CryptoEngine, R: CryptoEngine>(
    engine: &E,
    reader: &R,
    ours: OrchView,
    to: Seq<char>,
    plaintext: Seq<u8>,
    reply: EncryptedView,
    theirs: OrchView,
    from: Seq<char>,
    received: OrchView,
    result: Result<Seq<u8>, Seq<char>>,
)
    requires
        ours.life.client.sessions.contains_key(to),
        theirs.life.client.sessions.contains_key(from),
        engine::opens_what_is_sealed(
            engine,
            reader,
            ours.life.client.sessions[to],
            theirs.life.client.sessions[from],
        ),
        may_encrypt(engine, ours, to, plaintext, Ok(reply)),
        travels_whole(reply.message),
        reply.message.dh_public_key.len() == 32,
        reply.message.previous_chain_length == 0,
        ({
            let out = sent_step(ours, to, Ok::<EncryptedView, Seq<char>>(reply)).1->Ok_0;
            read_may(
                reader,
                theirs,
                from,
                assembled(
                    out.message.dh_public_key,
                    out.message.message_number,
                    out.sealed_box,
                    out.message.suite_id,
                    out.message.pq_message_epoch,
                    out.message.pq_ratchet_field,
                ),
                received,
                result,
            )
        }),
    ensures
        result == Ok::<Seq<u8>, Seq<char>>(plaintext),
        exists|x: DecryptedView| received == #[trigger] read_on(theirs, from, x),
{
    let m = reply.message;
    let sealed = m.nonce + m.ciphertext;
    assert(sealed.take(NONCE_SIZE as int) =~= m.nonce);
    assert(sealed.skip(NONCE_SIZE as int) =~= m.ciphertext);
    a_sealed_message_is_read(
        engine,
        reader,
        ours,
        to,
        plaintext,
        reply,
        theirs,
        from,
        received,
        result,
    );
}

proof fn a_sealed_message_is_read<E: CryptoEngine, R: CryptoEngine>(
    engine: &E,
    reader: &R,
    ours: OrchView,
    to: Seq<char>,
    plaintext: Seq<u8>,
    reply: EncryptedView,
    theirs: OrchView,
    from: Seq<char>,
    received: OrchView,
    result: Result<Seq<u8>, Seq<char>>,
)
    requires
        ours.life.client.sessions.contains_key(to),
        theirs.life.client.sessions.contains_key(from),
        engine::opens_what_is_sealed(
            engine,
            reader,
            ours.life.client.sessions[to],
            theirs.life.client.sessions[from],
        ),
        may_encrypt(engine, ours, to, plaintext, Ok(reply)),
        read_may(reader, theirs, from, Ok(reply.message), received, result),
    ensures
        result == Ok::<Seq<u8>, Seq<char>>(plaintext),
        exists|x: DecryptedView| received == #[trigger] read_on(theirs, from, x),
{
    let s = ours.life.client.sessions[to];
    let t = theirs.life.client.sessions[from];
    let d = choose|d: Result<DecryptedView, Seq<char>>|
        may_decrypt(reader, theirs, from, reply.message, d) && (received, result)
            == #[trigger] read_step(theirs, from, d);
    assert(engine::said_encrypt(engine, s, plaintext, Ok::<EncryptedView, Seq<char>>(reply)));
    assert(engine::said_decrypt(reader, t, reply.message, d));
    assert(received == read_on(theirs, from, d->Ok_0));
}

} // verus!
