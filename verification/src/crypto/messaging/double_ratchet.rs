//! The shapes a Double Ratchet session hands to the orchestration.

use vstd::prelude::*;

use crate::crypto::kyber_prekey_auth::{PqAuthentication, PqHandshake};
use crate::strings::{self, is_blank, join, join3, same_str, take_chars};
use crate::vecs;

verus! {

/// Sparse PQ ratchet field of a suite-3 message: a proposed key, or the ciphertext that completes
/// a proposal.
#[derive(Debug)]
pub enum PqRatchetWireField {
    /// ML-KEM encapsulation key proposed for `epoch`.
    PublicKey { epoch: u32, key: Vec<u8> },
    /// Ciphertext answering the key whose hash is `ek_hash`.
    Ciphertext { epoch: u32, ek_hash: [u8; 8], ct: Vec<u8> },
}

/// A `PqRatchetWireField` by its bytes.
pub enum PqFieldView {
    PublicKey { epoch: u32, key: Seq<u8> },
    Ciphertext { epoch: u32, ek_hash: Seq<u8>, ct: Seq<u8> },
}

impl DeepView for PqRatchetWireField {
    type V = PqFieldView;

    open spec fn deep_view(&self) -> PqFieldView {
        match self {
            PqRatchetWireField::PublicKey { epoch, key } => PqFieldView::PublicKey {
                epoch: *epoch,
                key: key@,
            },
            PqRatchetWireField::Ciphertext { epoch, ek_hash, ct } => PqFieldView::Ciphertext {
                epoch: *epoch,
                ek_hash: ek_hash@,
                ct: ct@,
            },
        }
    }
}

impl Clone for PqRatchetWireField {
    fn clone(&self) -> (r: Self)
        ensures
            r.deep_view() == self.deep_view(),
    {
        match self {
            PqRatchetWireField::PublicKey { epoch, key } => PqRatchetWireField::PublicKey {
                epoch: *epoch,
                key: vecs::bytes(key.as_slice()),
            },
            PqRatchetWireField::Ciphertext { epoch, ek_hash, ct } => PqRatchetWireField::Ciphertext {
                epoch: *epoch,
                ek_hash: *ek_hash,
                ct: vecs::bytes(ct.as_slice()),
            },
        }
    }
}

/// A copy of an optional PQ field.
pub fn clone_opt_field(f: &Option<PqRatchetWireField>) -> (r: Option<PqRatchetWireField>)
    ensures
        r.deep_view() == f.deep_view(),
{
    match f {
        Some(x) => Some(x.clone()),
        None => None,
    }
}

/// The 32 bytes of a key, when there are exactly 32.
pub fn key32(s: &[u8]) -> (r: Option<[u8; 32]>)
    ensures
        match r {
            Some(a) => a@ == s@,
            None => s@.len() != 32,
        },
{
    if s.len() != 32 {
        return None;
    }
    let mut a: [u8; 32] = [0u8;32];
    let mut i: usize = 0;
    while i < 32
        invariant
            i <= 32,
            s@.len() == 32,
            a@.len() == 32,
            forall|k: int| 0 <= k < i ==> a@[k] == s@[k],
        decreases 32 - i,
    {
        a[i] = s[i];
        i = i + 1;
    }
    assert(a@ =~= s@);
    Some(a)
}

/// How the ratchet's refusal of a message it has decrypted before begins.
pub const MESSAGE_KEY_CONSUMED: &'static str = "MESSAGE_KEY_CONSUMED";

/// One encrypted message of a session.
#[derive(Debug)]
pub struct EncryptedRatchetMessage {
    pub dh_public_key: [u8; 32],
    pub message_number: u32,
    pub ciphertext: Vec<u8>,
    pub nonce: Vec<u8>,
    pub previous_chain_length: u32,
    pub suite_id: u16,
    /// Suite 3 only: PQ epoch mixed into this message's key (0 otherwise).
    pub pq_message_epoch: u32,
    /// Suite 3 only: sparse PQ ratchet field.
    pub pq_ratchet_field: Option<PqRatchetWireField>,
}

/// An `EncryptedRatchetMessage` by its bytes.
pub struct RatchetMessageView {
    pub dh_public_key: Seq<u8>,
    pub message_number: u32,
    pub ciphertext: Seq<u8>,
    pub nonce: Seq<u8>,
    pub previous_chain_length: u32,
    pub suite_id: u16,
    pub pq_message_epoch: u32,
    pub pq_ratchet_field: Option<PqFieldView>,
}

impl DeepView for EncryptedRatchetMessage {
    type V = RatchetMessageView;

    open spec fn deep_view(&self) -> RatchetMessageView {
        RatchetMessageView {
            dh_public_key: self.dh_public_key@,
            message_number: self.message_number,
            ciphertext: self.ciphertext@,
            nonce: self.nonce@,
            previous_chain_length: self.previous_chain_length,
            suite_id: self.suite_id,
            pq_message_epoch: self.pq_message_epoch,
            pq_ratchet_field: self.pq_ratchet_field.deep_view(),
        }
    }
}

impl Clone for EncryptedRatchetMessage {
    fn clone(&self) -> (r: Self)
        ensures
            r.deep_view() == self.deep_view(),
    {
        EncryptedRatchetMessage {
            dh_public_key: self.dh_public_key,
            message_number: self.message_number,
            ciphertext: vecs::bytes(self.ciphertext.as_slice()),
            nonce: vecs::bytes(self.nonce.as_slice()),
            previous_chain_length: self.previous_chain_length,
            suite_id: self.suite_id,
            pq_message_epoch: self.pq_message_epoch,
            pq_ratchet_field: clone_opt_field(&self.pq_ratchet_field),
        }
    }
}

/// What the initiator's first flight carries so that the peer can open the session.
#[derive(Debug)]
pub struct PrekeyHeader {
    pub one_time_prekey_id: u32,
    pub kyber_prekey_id: u32,
    pub kem_ciphertext: Vec<u8>,
}

/// A `PrekeyHeader` by its bytes.
pub struct HeaderView {
    pub one_time_prekey_id: u32,
    pub kyber_prekey_id: u32,
    pub kem_ciphertext: Seq<u8>,
}

impl DeepView for PrekeyHeader {
    type V = HeaderView;

    open spec fn deep_view(&self) -> HeaderView {
        HeaderView {
            one_time_prekey_id: self.one_time_prekey_id,
            kyber_prekey_id: self.kyber_prekey_id,
            kem_ciphertext: self.kem_ciphertext@,
        }
    }
}

impl Clone for PrekeyHeader {
    fn clone(&self) -> (r: Self)
        ensures
            r.deep_view() == self.deep_view(),
    {
        PrekeyHeader {
            one_time_prekey_id: self.one_time_prekey_id,
            kyber_prekey_id: self.kyber_prekey_id,
            kem_ciphertext: vecs::bytes(self.kem_ciphertext.as_slice()),
        }
    }
}

/// A copy of an optional header.
pub fn clone_opt_header(h: &Option<PrekeyHeader>) -> (r: Option<PrekeyHeader>)
    ensures
        r.deep_view() == h.deep_view(),
{
    match h {
        Some(x) => Some(x.clone()),
        None => None,
    }
}

/// One session: who it is between, how it was opened, and the state of its ratchet.
#[derive(Debug)]
pub struct Session {
    pub contact_id: String,
    pub local_user_id: String,
    pub session_id: String,
    pub suite_id: u16,
    pub pq_handshake: PqHandshake,
    pub pq_authentication: PqAuthentication,
    /// Carried by every message until the peer answers.
    pub prekey_header: Option<PrekeyHeader>,
    /// The ratchet, as the engine keeps it.
    pub ratchet: Vec<u8>,
}

/// A `Session` by what its fields hold.
pub struct SessionView {
    pub contact_id: Seq<char>,
    pub local_user_id: Seq<char>,
    pub session_id: Seq<char>,
    pub suite_id: u16,
    pub pq_handshake: PqHandshake,
    pub pq_authentication: PqAuthentication,
    pub prekey_header: Option<HeaderView>,
    pub ratchet: Seq<u8>,
}

impl DeepView for Session {
    type V = SessionView;

    open spec fn deep_view(&self) -> SessionView {
        SessionView {
            contact_id: self.contact_id@,
            local_user_id: self.local_user_id@,
            session_id: self.session_id@,
            suite_id: self.suite_id,
            pq_handshake: self.pq_handshake,
            pq_authentication: self.pq_authentication,
            prekey_header: self.prekey_header.deep_view(),
            ratchet: self.ratchet@,
        }
    }
}

impl Clone for Session {
    fn clone(&self) -> (r: Self)
        ensures
            r.deep_view() == self.deep_view(),
    {
        Session {
            contact_id: self.contact_id.clone(),
            local_user_id: self.local_user_id.clone(),
            session_id: self.session_id.clone(),
            suite_id: self.suite_id,
            pq_handshake: self.pq_handshake,
            pq_authentication: self.pq_authentication,
            prekey_header: clone_opt_header(&self.prekey_header),
            ratchet: vecs::bytes(self.ratchet.as_slice()),
        }
    }
}

/// How much of an identifier a diagnostic may show.
pub const ID_PREFIX: usize = 8;

/// Why a record may not be loaded as a session of `contact` made by `local`; nothing when it may.
///
/// The record names its own contact and author. An author id that is not set on one side — a record
/// that predates the field, an identity not set yet — cannot disprove anything.
pub open spec fn identity_mismatch(
    s: SessionView,
    contact: Seq<char>,
    local: Seq<char>,
) -> Option<Seq<char>> {
    if s.contact_id != contact {
        Some(
            "session identity mismatch: record names contact "@ + strings::first_chars(
                s.contact_id,
                ID_PREFIX as int,
            ) + ", loaded as "@ + strings::first_chars(contact, ID_PREFIX as int),
        )
    } else if s.local_user_id.len() > 0 && local.len() > 0 && s.local_user_id != local {
        Some(
            "session identity mismatch: record made by "@ + strings::first_chars(
                s.local_user_id,
                ID_PREFIX as int,
            ) + ", loaded by "@ + strings::first_chars(local, ID_PREFIX as int),
        )
    } else {
        None
    }
}

impl Session {
    /// Checks that this record is a session of `contact_id` made by `local_user_id`.
    pub fn verify_identity(&self, contact_id: &str, local_user_id: &str) -> (r: Result<(), String>)
        ensures
            match (identity_mismatch(self.deep_view(), contact_id@, local_user_id@), r) {
                (Some(m), Err(e)) => e@ == m,
                (None, Ok(_)) => true,
                _ => false,
            },
    {
        if !same_str(self.contact_id.as_str(), contact_id) {
            let a = join(
                "session identity mismatch: record names contact ",
                take_chars(self.contact_id.as_str(), ID_PREFIX).as_str(),
            );
            return Err(
                join3(a.as_str(), ", loaded as ", take_chars(contact_id, ID_PREFIX).as_str()),
            );
        }
        if !is_blank(self.local_user_id.as_str()) && !is_blank(local_user_id) && !same_str(
            self.local_user_id.as_str(),
            local_user_id,
        ) {
            let a = join(
                "session identity mismatch: record made by ",
                take_chars(self.local_user_id.as_str(), ID_PREFIX).as_str(),
            );
            return Err(
                join3(a.as_str(), ", loaded by ", take_chars(local_user_id, ID_PREFIX).as_str()),
            );
        }
        Ok(())
    }
}

/// What a session reports of itself.
#[derive(Debug)]
pub struct DrHealthSnapshot {
    pub session_id: String,
    pub suite_id: u16,
    pub pq_handshake: PqHandshake,
    pub pq_authentication: PqAuthentication,
    pub is_pq_strengthened: bool,
}

/// A `DrHealthSnapshot` by what its fields hold.
pub struct HealthView {
    pub session_id: Seq<char>,
    pub suite_id: u16,
    pub pq_handshake: PqHandshake,
    pub pq_authentication: PqAuthentication,
    pub is_pq_strengthened: bool,
}

impl DeepView for DrHealthSnapshot {
    type V = HealthView;

    open spec fn deep_view(&self) -> HealthView {
        HealthView {
            session_id: self.session_id@,
            suite_id: self.suite_id,
            pq_handshake: self.pq_handshake,
            pq_authentication: self.pq_authentication,
            is_pq_strengthened: self.is_pq_strengthened,
        }
    }
}

/// What a session reports of itself.
pub open spec fn health_of(s: SessionView) -> HealthView {
    HealthView {
        session_id: s.session_id,
        suite_id: s.suite_id,
        pq_handshake: s.pq_handshake,
        pq_authentication: s.pq_authentication,
        is_pq_strengthened: !(s.pq_handshake is Classical),
    }
}

impl Session {
    /// What this session reports of itself.
    pub fn health(&self) -> (r: DrHealthSnapshot)
        ensures
            r.deep_view() == health_of(self.deep_view()),
    {
        let strengthened = match self.pq_handshake {
            PqHandshake::Classical => false,
            _ => true,
        };
        DrHealthSnapshot {
            session_id: self.session_id.clone(),
            suite_id: self.suite_id,
            pq_handshake: self.pq_handshake,
            pq_authentication: self.pq_authentication,
            is_pq_strengthened: strengthened,
        }
    }
}

/// A diagnostic shows at most the first characters of an identifier: of an id longer than that, not
/// the whole.
pub proof fn diagnostics_do_not_show_whole_identifiers(id: Seq<char>)
    requires
        id.len() > ID_PREFIX,
    ensures
        strings::first_chars(id, ID_PREFIX as int).len() == ID_PREFIX,
        strings::first_chars(id, ID_PREFIX as int) != id,
{
}

/// A mismatch is named as one in the text of its error.
pub proof fn a_mismatch_names_itself(s: SessionView, contact: Seq<char>, local: Seq<char>)
    ensures
        identity_mismatch(s, contact, local) matches Some(e)
            ==> "session identity mismatch: "@.is_prefix_of(e),
{
    if identity_mismatch(s, contact, local) is Some {
        let e = identity_mismatch(s, contact, local)->Some_0;
        let start = "session identity mismatch: "@;
        reveal_strlit("session identity mismatch: ");
        reveal_strlit("session identity mismatch: record names contact ");
        reveal_strlit("session identity mismatch: record made by ");
        assert(start =~= e.subrange(0, start.len() as int));
    }
}

/// A record is taken exactly by the contact it names and by the user who made it, where both the
/// record and the reader name one.
pub proof fn a_record_is_taken_by_whom_it_names(
    s: SessionView,
    contact: Seq<char>,
    local: Seq<char>,
)
    ensures
        identity_mismatch(s, contact, local) is None <==> s.contact_id == contact && (
        s.local_user_id.len() == 0 || local.len() == 0 || s.local_user_id == local),
        health_of(s).is_pq_strengthened <==> s.pq_handshake is DeferredV1 || s.pq_handshake
            is InitialV2,
        health_of(s).session_id == s.session_id,
        health_of(s).suite_id == s.suite_id,
        health_of(s).pq_handshake == s.pq_handshake,
        health_of(s).pq_authentication == s.pq_authentication,
{
}

} // verus!
