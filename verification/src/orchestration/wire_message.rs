//! A message of a session between its wire payload and its ratchet.

use vstd::prelude::*;

use crate::crypto::messaging::double_ratchet::{
    clone_opt_field, key32, EncryptedRatchetMessage, PqRatchetWireField, RatchetMessageView,
};
use crate::vecs;
use crate::wire_payload::{self, DecodedWirePayload, WireFields};

verus! {

/// Length of the nonce a sealed box begins with.
pub const NONCE_SIZE: usize = 12;

/// The ratchet message a payload carries: the sealed box is the nonce and then the ciphertext.
pub open spec fn carried_message(f: WireFields) -> RatchetMessageView {
    RatchetMessageView {
        dh_public_key: f.dh_public_key,
        message_number: f.message_number,
        ciphertext: f.sealed_box.skip(NONCE_SIZE as int),
        nonce: f.sealed_box.take(NONCE_SIZE as int),
        previous_chain_length: f.previous_chain_length,
        suite_id: f.suite_id,
        pq_message_epoch: f.pq_message_epoch,
        pq_ratchet_field: f.pq_ratchet_field,
    }
}

/// Why a payload carries no ratchet message.
#[derive(Debug, Clone, Copy, PartialEq, Eq, Structural)]
pub enum MessageFault {
    /// The ephemeral key is not 32 bytes long.
    KeyLength,
    /// The sealed box is too short to hold a nonce.
    ShortBox,
}

/// Why contents carry no ratchet message; `None` when they do.
pub open spec fn message_fault(f: WireFields) -> Option<MessageFault> {
    if f.sealed_box.len() < NONCE_SIZE {
        Some(MessageFault::ShortBox)
    } else if f.dh_public_key.len() != 32 {
        Some(MessageFault::KeyLength)
    } else {
        None
    }
}

/// The ratchet message a decoded payload carries.
pub fn to_ratchet_message(d: &DecodedWirePayload) -> (r: Result<
    EncryptedRatchetMessage,
    MessageFault,
>)
    ensures
        match (message_fault(d.deep_view()), r) {
            (None, Ok(m)) => m.deep_view() == carried_message(d.deep_view()),
            (Some(e), Err(f)) => e == f,
            _ => false,
        },
{
    let n = d.sealed_box.len();
    if n < NONCE_SIZE {
        return Err(MessageFault::ShortBox);
    }
    let dh = match key32(d.dh_public_key.as_slice()) {
        Some(k) => k,
        None => {
            return Err(MessageFault::KeyLength);
        },
    };
    let nonce = vecs::bytes_between(d.sealed_box.as_slice(), 0, NONCE_SIZE);
    let ciphertext = vecs::bytes_between(d.sealed_box.as_slice(), NONCE_SIZE, n);
    assert(nonce@ =~= d.sealed_box@.take(NONCE_SIZE as int));
    assert(ciphertext@ =~= d.sealed_box@.skip(NONCE_SIZE as int));
    Ok(
        EncryptedRatchetMessage {
            dh_public_key: dh,
            message_number: d.message_number,
            ciphertext,
            nonce,
            previous_chain_length: d.previous_chain_length,
            suite_id: d.suite_id,
            pq_message_epoch: d.pq_message_epoch,
            pq_ratchet_field: clone_opt_field(&d.pq_ratchet_field),
        },
    )
}

/// The form of a message that is written out as text: an `EncryptedRatchetMessage` whose key may
/// have any length.
#[derive(Debug)]
pub struct WireMessage {
    pub dh_public_key: Vec<u8>,
    pub message_number: u32,
    pub ciphertext: Vec<u8>,
    pub nonce: Vec<u8>,
    pub previous_chain_length: u32,
    pub suite_id: u16,
    /// Suite-3 only: PQ epoch mixed into this message's key (0 otherwise).
    pub pq_message_epoch: u32,
    /// Suite-3 only: sparse PQ ratchet EK/CT field.
    pub pq_ratchet_field: Option<PqRatchetWireField>,
}

impl DeepView for WireMessage {
    type V = RatchetMessageView;

    open spec fn deep_view(&self) -> RatchetMessageView {
        RatchetMessageView {
            dh_public_key: self.dh_public_key@,
            message_number: self.message_number,
            ciphertext: self.ciphertext@,
            nonce: self.nonce@,
            previous_chain_length: self.previous_chain_length,
            suite_id: self.suite_id,
            pq_message_epoch: self.pq_message_epoch,
            pq_ratchet_field: self.pq_ratchet_field.deep_view(),
        }
    }
}

impl WireMessage {
    /// A ratchet message in the form that is written out.
    pub fn from_message(m: EncryptedRatchetMessage) -> (r: Self)
        ensures
            r.deep_view() == m.deep_view(),
    {
        WireMessage {
            dh_public_key: vecs::bytes(&m.dh_public_key),
            message_number: m.message_number,
            ciphertext: m.ciphertext,
            nonce: m.nonce,
            previous_chain_length: m.previous_chain_length,
            suite_id: m.suite_id,
            pq_message_epoch: m.pq_message_epoch,
            pq_ratchet_field: m.pq_ratchet_field,
        }
    }

    /// The ratchet message; an error when the key is not 32 bytes long.
    pub fn into_message(self) -> (r: Result<EncryptedRatchetMessage, String>)
        ensures
            match r {
                Ok(m) => self.dh_public_key@.len() == 32 && m.deep_view() == self.deep_view(),
                Err(e) => self.dh_public_key@.len() != 32 && e@
                    == "dh_public_key must be 32 bytes"@,
            },
    {
        match key32(self.dh_public_key.as_slice()) {
            None => Err("dh_public_key must be 32 bytes".to_owned()),
            Some(dh) => Ok(
                EncryptedRatchetMessage {
                    dh_public_key: dh,
                    message_number: self.message_number,
                    ciphertext: self.ciphertext,
                    nonce: self.nonce,
                    previous_chain_length: self.previous_chain_length,
                    suite_id: self.suite_id,
                    pq_message_epoch: self.pq_message_epoch,
                    pq_ratchet_field: self.pq_ratchet_field,
                },
            ),
        }
    }
}

/// A payload that can be unpacked carries a ratchet message as soon as its sealed box holds a
/// nonce.
pub proof fn unpacked_keys_have_their_length(s: Seq<u8>)
    requires
        wire_payload::decode(s) is Ok,
    ensures
        wire_payload::decode(s)->Ok_0.dh_public_key.len() == 32,
        !(message_fault(wire_payload::decode(s)->Ok_0) matches Some(
            MessageFault::KeyLength,
        )),
{
}

/// A sealed box is a nonce of twelve bytes with the ciphertext behind it; everything else of a
/// message is carried as it is. A message is at fault exactly when its box is shorter than a nonce
/// or its key is not 32 bytes long, and the box is looked at first.
pub proof fn a_box_is_a_nonce_and_a_ciphertext(f: WireFields)
    ensures
        message_fault(f) is Some <==> f.sealed_box.len() < 12 || f.dh_public_key.len() != 32,
        message_fault(f) == Some(MessageFault::ShortBox) <==> f.sealed_box.len() < 12,
        message_fault(f) is None ==> {
            let m = carried_message(f);
            &&& m.nonce.len() == 12
            &&& m.nonce + m.ciphertext == f.sealed_box
            &&& m.dh_public_key == f.dh_public_key
            &&& m.message_number == f.message_number
            &&& m.previous_chain_length == f.previous_chain_length
            &&& m.suite_id == f.suite_id
            &&& m.pq_message_epoch == f.pq_message_epoch
            &&& m.pq_ratchet_field == f.pq_ratchet_field
        },
{
    if message_fault(f) is None {
        let m = carried_message(f);
        assert(m.nonce + m.ciphertext =~= f.sealed_box);
    }
}

} // verus!
