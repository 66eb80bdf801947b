//! Wire payload format for encrypted messages sent over gRPC.
//!
//! # Layout (little-endian)
//! ```text
//! [4 bytes]  message_number        (u32 LE)
//! [32 bytes] dh_public_key         (X25519 ephemeral public key)
//! [4 bytes]  one_time_prekey_id    (u32 LE; 0 = no OTPK used)
//! [4 bytes]  kyber_otpk_id         (u32 LE; 0 = Kyber SPK used; >0 = Kyber OTPK ID)
//! [2 bytes]  kem_ciphertext_len    (u16 LE; 0 = no PQC)
//! [4 bytes]  previous_chain_length (u32 LE; DR PN field for out-of-order recovery)
//! [2 bytes]  suite_id              (u16 LE; crypto-suite identifier)
//! [N bytes]  kem_ciphertext        (present only when kem_ciphertext_len > 0)
//! [M bytes]  PQ section            (suite 3 only, see `pq_section`)
//! [rest]     sealed_box            (nonce || ciphertext || auth_tag)
//! ```
//!
//! The server stores and forwards the payload opaquely without inspecting its contents.

use vstd::prelude::*;

use crate::crypto::messaging::double_ratchet::{PqFieldView, PqRatchetWireField};
use crate::little_endian::{self, get_le2, get_le4, push_le2, push_le4};
use crate::strings::{self, decimal, join, join3};
use crate::vecs;

verus! {

/// Fixed header size (no KEM ciphertext).
pub const HEADER_SIZE: usize = 52;

/// Length of the ephemeral public key.
pub const DH_KEY_SIZE: usize = 32;

/// A payload taken apart.
#[derive(Debug)]
pub struct DecodedWirePayload {
    pub message_number: u32,
    /// 32-byte X25519 ephemeral public key.
    pub dh_public_key: Vec<u8>,
    pub one_time_prekey_id: u32,
    pub kyber_otpk_id: u32,
    /// Double Ratchet PN field: number of messages in the previous sending chain.
    pub previous_chain_length: u32,
    /// Crypto-suite identifier.
    pub suite_id: u16,
    /// ML-KEM ciphertext of a PQXDH first message; `None` otherwise.
    pub kem_ciphertext: Option<Vec<u8>>,
    /// `nonce || ciphertext || auth_tag`.
    pub sealed_box: Vec<u8>,
    /// Suite 3 only: PQ epoch whose secret was mixed into this message's key (0 otherwise).
    pub pq_message_epoch: u32,
    /// Suite 3 only: sparse PQ ratchet field.
    pub pq_ratchet_field: Option<PqRatchetWireField>,
}

impl DecodedWirePayload {
    /// Whether the payload carries a PQXDH v2 handshake: its ML-KEM ciphertext.
    pub fn pqxdh_v2(&self) -> (r: bool)
        ensures
            r == (self.deep_view().kem_ciphertext is Some),
    {
        self.kem_ciphertext.is_some()
    }
}

/// Why a payload could not be built or read.
#[derive(Debug, Clone, Copy, PartialEq, Eq, Structural)]
pub enum WirePayloadError {
    InvalidDhPublicKey(usize),
    KemTooLarge(usize),
    PqFieldTooLarge(usize),
    InvalidPqFieldType(u8),
    TooShort(usize),
}

impl WirePayloadError {
    /// The text of the error.
    pub open spec fn text(self) -> Seq<char> {
        match self {
            WirePayloadError::InvalidDhPublicKey(n) => "DH public key must be 32 bytes, got "@
                + strings::decimal_chars(n as nat),
            WirePayloadError::KemTooLarge(n) => "KEM ciphertext too large: "@ + strings::decimal_chars(
                n as nat,
            ) + " bytes (max 65535)"@,
            WirePayloadError::PqFieldTooLarge(n) => "PQ ratchet field too large: "@ + strings::decimal_chars(
                n as nat,
            ) + " bytes (max 65535)"@,
            WirePayloadError::InvalidPqFieldType(t) => "Invalid PQ ratchet field type: "@
                + strings::decimal_chars(t as nat),
            WirePayloadError::TooShort(n) => "Payload too short: "@ + strings::decimal_chars(n as nat)
                + " bytes"@,
        }
    }

    /// The text of the error, as shown to a person.
    pub fn to_text(&self) -> (r: String)
        ensures
            r@ == self.text(),
    {
        match self {
            WirePayloadError::InvalidDhPublicKey(n) => join(
                "DH public key must be 32 bytes, got ",
                decimal(*n as u64).as_str(),
            ),
            WirePayloadError::KemTooLarge(n) => join3(
                "KEM ciphertext too large: ",
                decimal(*n as u64).as_str(),
                " bytes (max 65535)",
            ),
            WirePayloadError::PqFieldTooLarge(n) => join3(
                "PQ ratchet field too large: ",
                decimal(*n as u64).as_str(),
                " bytes (max 65535)",
            ),
            WirePayloadError::InvalidPqFieldType(t) => join(
                "Invalid PQ ratchet field type: ",
                decimal(*t as u64).as_str(),
            ),
            WirePayloadError::TooShort(n) => join3(
                "Payload too short: ",
                decimal(*n as u64).as_str(),
                " bytes",
            ),
        }
    }

    /// The error by the name of its variant, for logs.
    pub open spec fn name(self) -> Seq<char> {
        match self {
            WirePayloadError::InvalidDhPublicKey(n) => "InvalidDhPublicKey("@ + strings::decimal_chars(
                n as nat,
            ) + ")"@,
            WirePayloadError::KemTooLarge(n) => "KemTooLarge("@ + strings::decimal_chars(n as nat) + ")"@,
            WirePayloadError::PqFieldTooLarge(n) => "PqFieldTooLarge("@ + strings::decimal_chars(n as nat)
                + ")"@,
            WirePayloadError::InvalidPqFieldType(t) => "InvalidPqFieldType("@ + strings::decimal_chars(
                t as nat,
            ) + ")"@,
            WirePayloadError::TooShort(n) => "TooShort("@ + strings::decimal_chars(n as nat) + ")"@,
        }
    }

    /// The error by the name of its variant, for logs.
    pub fn to_name(&self) -> (r: String)
        ensures
            r@ == self.name(),
    {
        match self {
            WirePayloadError::InvalidDhPublicKey(n) => join3(
                "InvalidDhPublicKey(",
                decimal(*n as u64).as_str(),
                ")",
            ),
            WirePayloadError::KemTooLarge(n) => join3(
                "KemTooLarge(",
                decimal(*n as u64).as_str(),
                ")",
            ),
            WirePayloadError::PqFieldTooLarge(n) => join3(
                "PqFieldTooLarge(",
                decimal(*n as u64).as_str(),
                ")",
            ),
            WirePayloadError::InvalidPqFieldType(t) => join3(
                "InvalidPqFieldType(",
                decimal(*t as u64).as_str(),
                ")",
            ),
            WirePayloadError::TooShort(n) => join3("TooShort(", decimal(*n as u64).as_str(), ")"),
        }
    }
}

// ── The format ──────────────────────────────────────────────────────────────

/// The contents of a payload.
pub struct WireFields {
    pub message_number: u32,
    pub dh_public_key: Seq<u8>,
    pub one_time_prekey_id: u32,
    pub kyber_otpk_id: u32,
    pub previous_chain_length: u32,
    pub suite_id: u16,
    pub kem_ciphertext: Option<Seq<u8>>,
    pub sealed_box: Seq<u8>,
    pub pq_message_epoch: u32,
    pub pq_ratchet_field: Option<PqFieldView>,
}

impl DeepView for DecodedWirePayload {
    type V = WireFields;

    open spec fn deep_view(&self) -> WireFields {
        WireFields {
            message_number: self.message_number,
            dh_public_key: self.dh_public_key@,
            one_time_prekey_id: self.one_time_prekey_id,
            kyber_otpk_id: self.kyber_otpk_id,
            previous_chain_length: self.previous_chain_length,
            suite_id: self.suite_id,
            kem_ciphertext: vecs::opt_bytes(self.kem_ciphertext),
            sealed_box: self.sealed_box@,
            pq_message_epoch: self.pq_message_epoch,
            pq_ratchet_field: self.pq_ratchet_field.deep_view(),
        }
    }
}

/// The KEM ciphertext as bytes; empty when there is none.
pub open spec fn kem_bytes(kem: Option<Seq<u8>>) -> Seq<u8> {
    match kem {
        Some(k) => k,
        None => Seq::empty(),
    }
}

/// The bytes of the PQ ratchet field:
/// ```text
/// none:       [0]
/// key:        [1][4B field epoch][2B len][len bytes EK]
/// ciphertext: [2][4B field epoch][8B ek_hash][2B len][len bytes CT]
/// ```
pub open spec fn field_bytes(field: Option<PqFieldView>) -> Seq<u8> {
    match field {
        None => seq![0u8],
        Some(PqFieldView::PublicKey { epoch, key }) => seq![1u8] + little_endian::le4(epoch)
            + little_endian::le2(key.len() as u16) + key,
        Some(PqFieldView::Ciphertext { epoch, ek_hash, ct }) => seq![2u8] + little_endian::le4(epoch) + ek_hash
            + little_endian::le2(ct.len() as u16) + ct,
    }
}

/// The PQ section between the KEM ciphertext and the sealed box: always there for suite 3
/// (`[4B pq_message_epoch]` and the field), never for another suite.
pub open spec fn pq_section(suite_id: u16, epoch: u32, field: Option<PqFieldView>) -> Seq<u8> {
    if suite_id == 3 {
        little_endian::le4(epoch) + field_bytes(field)
    } else {
        Seq::empty()
    }
}

/// The 52 bytes every payload begins with.
pub open spec fn header_bytes(f: WireFields) -> Seq<u8> {
    little_endian::le4(f.message_number) + f.dh_public_key
        + little_endian::le4(f.one_time_prekey_id) + little_endian::le4(f.kyber_otpk_id)
        + little_endian::le2(kem_bytes(f.kem_ciphertext).len() as u16)
        + little_endian::le4(f.previous_chain_length) + little_endian::le2(f.suite_id)
}

/// The payload that carries `f`.
pub open spec fn encode(f: WireFields) -> Seq<u8> {
    header_bytes(f) + kem_bytes(f.kem_ciphertext) + pq_section(
        f.suite_id,
        f.pq_message_epoch,
        f.pq_ratchet_field,
    ) + f.sealed_box
}

/// The length of the variable part of a PQ field.
pub open spec fn field_len(field: Option<PqFieldView>) -> nat {
    match field {
        None => 0,
        Some(PqFieldView::PublicKey { epoch, key }) => key.len(),
        Some(PqFieldView::Ciphertext { epoch, ek_hash, ct }) => ct.len(),
    }
}

/// Why `f` cannot be packed; `None` when it can.
pub open spec fn pack_error(f: WireFields) -> Option<WirePayloadError> {
    if f.dh_public_key.len() != 32 {
        Some(WirePayloadError::InvalidDhPublicKey(f.dh_public_key.len() as usize))
    } else if kem_bytes(f.kem_ciphertext).len() > 65535 {
        Some(WirePayloadError::KemTooLarge(kem_bytes(f.kem_ciphertext).len() as usize))
    } else if f.suite_id == 3 && field_len(f.pq_ratchet_field) > 65535 {
        Some(WirePayloadError::PqFieldTooLarge(field_len(f.pq_ratchet_field) as usize))
    } else {
        None
    }
}

/// What a PQ section holds, and where the sealed box begins after it.
pub struct PqParsed {
    pub epoch: u32,
    pub field: Option<PqFieldView>,
    pub end: int,
}

/// Reads the PQ section at `at`.
pub open spec fn parse_pq(s: Seq<u8>, at: int) -> Result<PqParsed, WirePayloadError> {
    let short = WirePayloadError::TooShort(s.len() as usize);
    if s.len() < at + 5 {
        Err(short)
    } else if s[at + 4] == 0 {
        Ok(PqParsed { epoch: little_endian::read4(s, at), field: None, end: at + 5 })
    } else if s[at + 4] == 1 {
        if s.len() < at + 11 || s.len() < at + 11 + little_endian::read2(s, at + 9) {
            Err(short)
        } else {
            let end = at + 11 + little_endian::read2(s, at + 9);
            Ok(
                PqParsed {
                    epoch: little_endian::read4(s, at),
                    field: Some(
                        PqFieldView::PublicKey {
                            epoch: little_endian::read4(s, at + 5),
                            key: s.subrange(at + 11, end),
                        },
                    ),
                    end,
                },
            )
        }
    } else if s[at + 4] == 2 {
        if s.len() < at + 19 || s.len() < at + 19 + little_endian::read2(s, at + 17) {
            Err(short)
        } else {
            let end = at + 19 + little_endian::read2(s, at + 17);
            Ok(
                PqParsed {
                    epoch: little_endian::read4(s, at),
                    field: Some(
                        PqFieldView::Ciphertext {
                            epoch: little_endian::read4(s, at + 5),
                            ek_hash: s.subrange(at + 9, at + 17),
                            ct: s.subrange(at + 19, end),
                        },
                    ),
                    end,
                },
            )
        }
    } else {
        Err(WirePayloadError::InvalidPqFieldType(s[at + 4]))
    }
}

/// Reads a payload.
pub open spec fn decode(s: Seq<u8>) -> Result<WireFields, WirePayloadError> {
    let short = WirePayloadError::TooShort(s.len() as usize);
    if s.len() <= 52 {
        Err(short)
    } else {
        let kem_end = 52 + little_endian::read2(s, 44);
        let suite_id = little_endian::read2(s, 50);
        if s.len() <= kem_end {
            Err(short)
        } else {
            let pq = if suite_id == 3 {
                parse_pq(s, kem_end)
            } else {
                Ok(PqParsed { epoch: 0, field: None, end: kem_end })
            };
            match pq {
                Err(e) => Err(e),
                Ok(pq) => if s.len() <= pq.end {
                    Err(short)
                } else {
                    Ok(
                        WireFields {
                            message_number: little_endian::read4(s, 0),
                            dh_public_key: s.subrange(4, 36),
                            one_time_prekey_id: little_endian::read4(s, 36),
                            kyber_otpk_id: little_endian::read4(s, 40),
                            previous_chain_length: little_endian::read4(s, 46),
                            suite_id,
                            kem_ciphertext: if kem_end > 52 {
                                Some(s.subrange(52, kem_end))
                            } else {
                                None
                            },
                            sealed_box: s.subrange(pq.end, s.len() as int),
                            pq_message_epoch: pq.epoch,
                            pq_ratchet_field: pq.field,
                        },
                    )
                },
            }
        }
    }
}

// ── Pack ────────────────────────────────────────────────────────────────────

/// An optional byte slice as a sequence.
pub open spec fn opt_slice(o: Option<&[u8]>) -> Option<Seq<u8>> {
    match o {
        Some(k) => Some(k@),
        None => None,
    }
}

/// The contents that the arguments of `pack` name.
pub open spec fn packed_fields(
    dh_public_key: Seq<u8>,
    message_number: u32,
    one_time_prekey_id: u32,
    kyber_otpk_id: u32,
    previous_chain_length: u32,
    suite_id: u16,
    kem_ciphertext: Option<Seq<u8>>,
    sealed_box: Seq<u8>,
    pq_message_epoch: u32,
    pq_ratchet_field: Option<PqFieldView>,
) -> WireFields {
    WireFields {
        message_number,
        dh_public_key,
        one_time_prekey_id,
        kyber_otpk_id,
        previous_chain_length,
        suite_id,
        kem_ciphertext,
        sealed_box,
        pq_message_epoch,
        pq_ratchet_field,
    }
}

fn push_pq_section(
    b: &mut Vec<u8>,
    pq_message_epoch: u32,
    pq_ratchet_field: &Option<PqRatchetWireField>,
) -> (r: Result<(), WirePayloadError>)
    ensures
        match r {
            Ok(_) => field_len(pq_ratchet_field.deep_view()) <= 65535 && final(b)@ == old(b)@
                + pq_section(3, pq_message_epoch, pq_ratchet_field.deep_view()),
            Err(e) => field_len(pq_ratchet_field.deep_view()) > 65535 && e
                == WirePayloadError::PqFieldTooLarge(
                field_len(pq_ratchet_field.deep_view()) as usize,
            ),
        },
{
    push_le4(b, pq_message_epoch);
    match pq_ratchet_field {
        None => {
            b.push(0u8);
        },
        Some(PqRatchetWireField::PublicKey { epoch, key }) => {
            if key.len() > 65535 {
                return Err(WirePayloadError::PqFieldTooLarge(key.len()));
            }
            b.push(1u8);
            push_le4(b, *epoch);
            push_le2(b, key.len() as u16);
            vecs::append_bytes(b, key.as_slice());
        },
        Some(PqRatchetWireField::Ciphertext { epoch, ek_hash, ct }) => {
            if ct.len() > 65535 {
                return Err(WirePayloadError::PqFieldTooLarge(ct.len()));
            }
            b.push(2u8);
            push_le4(b, *epoch);
            vecs::append_bytes(b, ek_hash);
            push_le2(b, ct.len() as u16);
            vecs::append_bytes(b, ct.as_slice());
        },
    }
    assert(b@ =~= old(b)@ + pq_section(3, pq_message_epoch, pq_ratchet_field.deep_view()));
    Ok(())
}

/// Packs the components of an encrypted message into a single binary blob.
///
/// For a suite other than 3 `pq_message_epoch` and `pq_ratchet_field` are not written.
pub fn pack(
    dh_public_key: &[u8],
    message_number: u32,
    one_time_prekey_id: u32,
    kyber_otpk_id: u32,
    previous_chain_length: u32,
    suite_id: u16,
    kem_ciphertext: Option<&[u8]>,
    sealed_box: &[u8],
    pq_message_epoch: u32,
    pq_ratchet_field: Option<PqRatchetWireField>,
) -> (r: Result<Vec<u8>, WirePayloadError>)
    ensures
        ({
            let f = packed_fields(
                dh_public_key@,
                message_number,
                one_time_prekey_id,
                kyber_otpk_id,
                previous_chain_length,
                suite_id,
                opt_slice(kem_ciphertext),
                sealed_box@,
                pq_message_epoch,
                pq_ratchet_field.deep_view(),
            );
            match pack_error(f) {
                Some(e) => r == Err::<Vec<u8>, WirePayloadError>(e),
                None => r is Ok && r->Ok_0@ == encode(f),
            }
        }),
{
    let ghost f = packed_fields(
        dh_public_key@,
        message_number,
        one_time_prekey_id,
        kyber_otpk_id,
        previous_chain_length,
        suite_id,
        opt_slice(kem_ciphertext),
        sealed_box@,
        pq_message_epoch,
        pq_ratchet_field.deep_view(),
    );
    if dh_public_key.len() != DH_KEY_SIZE {
        return Err(WirePayloadError::InvalidDhPublicKey(dh_public_key.len()));
    }
    let kem_len: usize = match kem_ciphertext {
        Some(k) => k.len(),
        None => 0,
    };
    if kem_len > 65535 {
        return Err(WirePayloadError::KemTooLarge(kem_len));
    }
    let mut payload: Vec<u8> = Vec::new();
    push_le4(&mut payload, message_number);
    vecs::append_bytes(&mut payload, dh_public_key);
    push_le4(&mut payload, one_time_prekey_id);
    push_le4(&mut payload, kyber_otpk_id);
    push_le2(&mut payload, kem_len as u16);
    push_le4(&mut payload, previous_chain_length);
    push_le2(&mut payload, suite_id);
    assert(payload@ =~= header_bytes(f));
    if let Some(kem) = kem_ciphertext {
        vecs::append_bytes(&mut payload, kem);
    }
    assert(payload@ =~= header_bytes(f) + kem_bytes(f.kem_ciphertext));
    if suite_id == 3 {
        match push_pq_section(&mut payload, pq_message_epoch, &pq_ratchet_field) {
            Ok(_) => {},
            Err(e) => {
                return Err(e);
            },
        }
    }
    vecs::append_bytes(&mut payload, sealed_box);
    assert(payload@ =~= encode(f));
    Ok(payload)
}

// ── Unpack ──────────────────────────────────────────────────────────────────

fn read_pq_section(data: &[u8], at: usize) -> (r: Result<
    (u32, Option<PqRatchetWireField>, usize),
    WirePayloadError,
>)
    requires
        at <= 65587,
        at <= data@.len(),
    ensures
        match (parse_pq(data@, at as int), r) {
            (Ok(p), Ok(q)) => q.0 == p.epoch && q.1.deep_view() == p.field && q.2 == p.end
                && p.end <= data@.len(),
            (Err(e), Err(g)) => e == g,
            _ => false,
        },
{
    let n = data.len();
    if n < at + 5 {
        return Err(WirePayloadError::TooShort(n));
    }
    let pq_epoch: u32 = get_le4(data, at);
    let typ: u8 = data[at + 4];
    if typ == 0 {
        Ok((pq_epoch, None, at + 5))
    } else if typ == 1 {
        if n < at + 11 {
            return Err(WirePayloadError::TooShort(n));
        }
        let epoch: u32 = get_le4(data, at + 5);
        let len: usize = get_le2(data, at + 9) as usize;
        if n < at + 11 + len {
            return Err(WirePayloadError::TooShort(n));
        }
        let key = vecs::bytes_between(data, at + 11, at + 11 + len);
        Ok((pq_epoch, Some(PqRatchetWireField::PublicKey { epoch, key }), at + 11 + len))
    } else if typ == 2 {
        if n < at + 19 {
            return Err(WirePayloadError::TooShort(n));
        }
        let epoch: u32 = get_le4(data, at + 5);
        let ek_hash: [u8; 8] = [
            data[at + 9],
            data[at + 10],
            data[at + 11],
            data[at + 12],
            data[at + 13],
            data[at + 14],
            data[at + 15],
            data[at + 16],
        ];
        assert(ek_hash@ =~= data@.subrange(at + 9, at + 17));
        let len: usize = get_le2(data, at + 17) as usize;
        if n < at + 19 + len {
            return Err(WirePayloadError::TooShort(n));
        }
        let ct = vecs::bytes_between(data, at + 19, at + 19 + len);
        Ok((pq_epoch, Some(PqRatchetWireField::Ciphertext { epoch, ek_hash, ct }), at + 19 + len))
    } else {
        Err(WirePayloadError::InvalidPqFieldType(typ))
    }
}

/// Unpacks a received binary blob into its components.
pub fn unpack(data: &[u8]) -> (r: Result<DecodedWirePayload, WirePayloadError>)
    ensures
        match (decode(data@), r) {
            (Ok(f), Ok(d)) => d.deep_view() == f,
            (Err(e), Err(g)) => e == g,
            _ => false,
        },
{
    let n = data.len();
    if n <= HEADER_SIZE {
        return Err(WirePayloadError::TooShort(n));
    }
    let message_number: u32 = get_le4(data, 0);
    let dh_public_key = vecs::bytes_between(data, 4, 36);
    let one_time_prekey_id: u32 = get_le4(data, 36);
    let kyber_otpk_id: u32 = get_le4(data, 40);
    let kem_len: usize = get_le2(data, 44) as usize;
    let previous_chain_length: u32 = get_le4(data, 46);
    let suite_id: u16 = get_le2(data, 50);
    let kem_end: usize = HEADER_SIZE + kem_len;
    if n <= kem_end {
        return Err(WirePayloadError::TooShort(n));
    }
    let kem_ciphertext: Option<Vec<u8>> = if kem_len > 0 {
        Some(vecs::bytes_between(data, HEADER_SIZE, kem_end))
    } else {
        None
    };
    let mut cursor: usize = kem_end;
    let mut pq_message_epoch: u32 = 0;
    let mut pq_ratchet_field: Option<PqRatchetWireField> = None;
    if suite_id == 3 {
        match read_pq_section(data, kem_end) {
            Ok(q) => {
                pq_message_epoch = q.0;
                pq_ratchet_field = q.1;
                cursor = q.2;
            },
            Err(e) => {
                return Err(e);
            },
        }
    }
    if n <= cursor {
        return Err(WirePayloadError::TooShort(n));
    }
    let sealed_box = vecs::bytes_between(data, cursor, n);
    Ok(
        DecodedWirePayload {
            message_number,
            dh_public_key,
            one_time_prekey_id,
            kyber_otpk_id,
            previous_chain_length,
            suite_id,
            kem_ciphertext,
            sealed_box,
            pq_message_epoch,
            pq_ratchet_field,
        },
    )
}

// ── Laws ────────────────────────────────────────────────────────────────────

/// The contents a payload can carry: a 32-byte key, a KEM ciphertext that is there only when it
/// has bytes, a sealed box with at least one byte, and a PQ section only in suite 3.
pub open spec fn carried(f: WireFields) -> bool {
    &&& pack_error(f) is None
    &&& f.sealed_box.len() > 0
    &&& f.kem_ciphertext matches Some(k) ==> k.len() > 0
    &&& f.suite_id != 3 ==> f.pq_message_epoch == 0 && f.pq_ratchet_field is None
    &&& f.pq_ratchet_field matches Some(PqFieldView::Ciphertext { epoch, ek_hash, ct })
        ==> ek_hash.len() == 8
}

/// What `unpack` reads back of a packed payload is what was packed.
pub proof fn unpack_reads_what_pack_wrote(f: WireFields)
    requires
        carried(f),
    ensures
        decode(encode(f)) == Ok::<WireFields, WirePayloadError>(f),
{
    let s = encode(f);
    let kem = kem_bytes(f.kem_ciphertext);
    let pq = pq_section(f.suite_id, f.pq_message_epoch, f.pq_ratchet_field);
    let kem_end = 52 + kem.len();
    header_length(f);
    body_slices(header_bytes(f), kem, pq, f.sealed_box);
    header_reads_back(s, f, kem + pq + f.sealed_box);
    if f.suite_id == 3 {
        pq_section_reads_back(s, kem_end as int, f);
    }
    assert(decode(s)->Ok_0.kem_ciphertext == f.kem_ciphertext);
}

proof fn header_length(f: WireFields)
    requires
        f.dh_public_key.len() == 32,
    ensures
        header_bytes(f).len() == 52,
{
}

/// The parts behind the header lie where the layout puts them.
proof fn body_slices(h: Seq<u8>, kem: Seq<u8>, pq: Seq<u8>, sealed: Seq<u8>)
    requires
        h.len() == 52,
    ensures
        ({
            let s = h + kem + pq + sealed;
            &&& s == h + (kem + pq + sealed)
            &&& s.len() == 52 + kem.len() + pq.len() + sealed.len()
            &&& s.subrange(52, (52 + kem.len()) as int) == kem
            &&& s.subrange((52 + kem.len() + pq.len()) as int, s.len() as int) == sealed
        }),
{
    let s = h + kem + pq + sealed;
    assert(s =~= h + (kem + pq + sealed));
    assert(s.subrange(52, (52 + kem.len()) as int) =~= kem);
    assert(s.subrange((52 + kem.len() + pq.len()) as int, s.len() as int) =~= sealed);
}

proof fn header_reads_back(s: Seq<u8>, f: WireFields, rest: Seq<u8>)
    requires
        pack_error(f) is None,
        s == header_bytes(f) + rest,
    ensures
        header_bytes(f).len() == 52,
        little_endian::read4(s, 0) == f.message_number,
        s.subrange(4, 36) == f.dh_public_key,
        little_endian::read4(s, 36) == f.one_time_prekey_id,
        little_endian::read4(s, 40) == f.kyber_otpk_id,
        little_endian::read2(s, 44) == kem_bytes(f.kem_ciphertext).len(),
        little_endian::read4(s, 46) == f.previous_chain_length,
        little_endian::read2(s, 50) == f.suite_id,
{
    let kem_len = kem_bytes(f.kem_ciphertext).len() as u16;
    let a = little_endian::le4(f.message_number);
    let b = little_endian::le4(f.one_time_prekey_id);
    let c = little_endian::le4(f.kyber_otpk_id);
    let d = little_endian::le2(kem_len);
    let e = little_endian::le4(f.previous_chain_length);
    let g = little_endian::le2(f.suite_id);
    header_slices(a, f.dh_public_key, b, c, d, e, g, rest);
    little_endian::read_le4(s, 0, f.message_number);
    little_endian::read_le4(s, 36, f.one_time_prekey_id);
    little_endian::read_le4(s, 40, f.kyber_otpk_id);
    little_endian::read_le2(s, 44, kem_len);
    little_endian::read_le4(s, 46, f.previous_chain_length);
    little_endian::read_le2(s, 50, f.suite_id);
}

/// The parts of a header lie where the layout puts them.
proof fn header_slices(
    a: Seq<u8>,
    dh: Seq<u8>,
    b: Seq<u8>,
    c: Seq<u8>,
    d: Seq<u8>,
    e: Seq<u8>,
    g: Seq<u8>,
    rest: Seq<u8>,
)
    requires
        a.len() == 4,
        dh.len() == 32,
        b.len() == 4,
        c.len() == 4,
        d.len() == 2,
        e.len() == 4,
        g.len() == 2,
    ensures
        ({
            let s = a + dh + b + c + d + e + g + rest;
            &&& s.subrange(0, 4) == a
            &&& s.subrange(4, 36) == dh
            &&& s.subrange(36, 40) == b
            &&& s.subrange(40, 44) == c
            &&& s.subrange(44, 46) == d
            &&& s.subrange(46, 50) == e
            &&& s.subrange(50, 52) == g
            &&& (a + dh + b + c + d + e + g).len() == 52
        }),
{
    let s = a + dh + b + c + d + e + g + rest;
    assert(s.subrange(0, 4) =~= a);
    assert(s.subrange(4, 36) =~= dh);
    assert(s.subrange(36, 40) =~= b);
    assert(s.subrange(40, 44) =~= c);
    assert(s.subrange(44, 46) =~= d);
    assert(s.subrange(46, 50) =~= e);
    assert(s.subrange(50, 52) =~= g);
}

proof fn pq_section_reads_back(s: Seq<u8>, at: int, f: WireFields)
    requires
        carried(f),
        f.suite_id == 3,
        s == encode(f),
        at == 52 + kem_bytes(f.kem_ciphertext).len(),
        header_bytes(f).len() == 52,
    ensures
        parse_pq(s, at) is Ok,
        parse_pq(s, at)->Ok_0.epoch == f.pq_message_epoch,
        parse_pq(s, at)->Ok_0.field == f.pq_ratchet_field,
        parse_pq(s, at)->Ok_0.end < s.len(),
        s.subrange(parse_pq(s, at)->Ok_0.end, s.len() as int) == f.sealed_box,
{
    let fb = field_bytes(f.pq_ratchet_field);
    let head = header_bytes(f) + kem_bytes(f.kem_ciphertext);
    assert(head.len() == at);
    assert(s =~= head + (little_endian::le4(f.pq_message_epoch) + fb) + f.sealed_box);
    assert(s.subrange(at, at + 4) =~= little_endian::le4(f.pq_message_epoch));
    little_endian::read_le4(s, at, f.pq_message_epoch);
    assert(s[at + 4] == fb[0]);
    match f.pq_ratchet_field {
        None => {
            assert(s.subrange(at + 5, s.len() as int) =~= f.sealed_box);
        },
        Some(PqFieldView::PublicKey { epoch, key }) => {
            assert(s.subrange(at + 5, at + 9) =~= little_endian::le4(epoch));
            little_endian::read_le4(s, at + 5, epoch);
            assert(s.subrange(at + 9, at + 11) =~= little_endian::le2(key.len() as u16));
            little_endian::read_le2(s, at + 9, key.len() as u16);
            assert(s.subrange(at + 11, at + 11 + key.len()) =~= key);
            assert(s.subrange(at + 11 + key.len(), s.len() as int) =~= f.sealed_box);
        },
        Some(PqFieldView::Ciphertext { epoch, ek_hash, ct }) => {
            assert(s.subrange(at + 5, at + 9) =~= little_endian::le4(epoch));
            little_endian::read_le4(s, at + 5, epoch);
            assert(s.subrange(at + 9, at + 17) =~= ek_hash);
            assert(s.subrange(at + 17, at + 19) =~= little_endian::le2(ct.len() as u16));
            little_endian::read_le2(s, at + 17, ct.len() as u16);
            assert(s.subrange(at + 19, at + 19 + ct.len()) =~= ct);
            assert(s.subrange(at + 19 + ct.len(), s.len() as int) =~= f.sealed_box);
        },
    }
}

/// A payload that `unpack` accepts is byte for byte the one `pack` makes of what it held: the
/// format has no second spelling of the same contents.
pub proof fn pack_restores_what_unpack_read(s: Seq<u8>)
    requires
        decode(s) is Ok,
    ensures
        carried(decode(s)->Ok_0),
        encode(decode(s)->Ok_0) == s,
{
    let f = decode(s)->Ok_0;
    let kem_end = 52 + little_endian::read2(s, 44);
    let end = s.len() - f.sealed_box.len();
    let pq = pq_section(f.suite_id, f.pq_message_epoch, f.pq_ratchet_field);
    assert(kem_bytes(f.kem_ciphertext) =~= s.subrange(52, kem_end));
    assert(carried(f));
    header_restored(s, f);
    if f.suite_id == 3 {
        pq_section_restored(s, kem_end);
    } else {
        assert(s.subrange(kem_end, end) =~= Seq::<u8>::empty());
    }
    assert(s.subrange(kem_end, end) == pq);
    assert(s =~= s.subrange(0, 52) + s.subrange(52, kem_end) + s.subrange(kem_end, end)
        + s.subrange(end, s.len() as int));
}

proof fn header_restored(s: Seq<u8>, f: WireFields)
    requires
        decode(s) == Ok::<WireFields, WirePayloadError>(f),
        kem_bytes(f.kem_ciphertext).len() == little_endian::read2(s, 44),
    ensures
        s.subrange(0, 52) == header_bytes(f),
{
    little_endian::le4_read(s, 0);
    little_endian::le4_read(s, 36);
    little_endian::le4_read(s, 40);
    little_endian::le2_read(s, 44);
    little_endian::le4_read(s, 46);
    little_endian::le2_read(s, 50);
    header_from_slices(
        s,
        s.subrange(0, 4),
        s.subrange(4, 36),
        s.subrange(36, 40),
        s.subrange(40, 44),
        s.subrange(44, 46),
        s.subrange(46, 50),
        s.subrange(50, 52),
    );
}

proof fn header_from_slices(
    s: Seq<u8>,
    a: Seq<u8>,
    dh: Seq<u8>,
    b: Seq<u8>,
    c: Seq<u8>,
    d: Seq<u8>,
    e: Seq<u8>,
    g: Seq<u8>,
)
    requires
        s.len() >= 52,
        a == s.subrange(0, 4),
        dh == s.subrange(4, 36),
        b == s.subrange(36, 40),
        c == s.subrange(40, 44),
        d == s.subrange(44, 46),
        e == s.subrange(46, 50),
        g == s.subrange(50, 52),
    ensures
        s.subrange(0, 52) == a + dh + b + c + d + e + g,
{
    assert(s.subrange(0, 52) =~= a + dh + b + c + d + e + g);
}

proof fn pq_section_restored(s: Seq<u8>, at: int)
    requires
        0 <= at <= s.len(),
        parse_pq(s, at) is Ok,
    ensures
        ({
            let p = parse_pq(s, at)->Ok_0;
            &&& at <= p.end <= s.len()
            &&& s.subrange(at, p.end) == pq_section(3, p.epoch, p.field)
        }),
{
    let p = parse_pq(s, at)->Ok_0;
    let end = p.end;
    little_endian::le4_read(s, at);
    let w = s.subrange(at, at + 4);
    if s[at + 4] == 1 {
        little_endian::le4_read(s, at + 5);
        little_endian::le2_read(s, at + 9);
        let x = s.subrange(at + 5, at + 9);
        let y = s.subrange(at + 9, at + 11);
        let z = s.subrange(at + 11, end);
        assert(s.subrange(at, end) =~= w + (seq![1u8] + x + y + z));
    } else if s[at + 4] == 2 {
        little_endian::le4_read(s, at + 5);
        little_endian::le2_read(s, at + 17);
        let x = s.subrange(at + 5, at + 9);
        let h = s.subrange(at + 9, at + 17);
        let y = s.subrange(at + 17, at + 19);
        let z = s.subrange(at + 19, end);
        assert(s.subrange(at, end) =~= w + (seq![2u8] + x + h + y + z));
    } else {
        assert(s.subrange(at, end) =~= w + seq![0u8]);
    }
}

/// A payload no longer than the header is refused, whatever it holds: without a sealed box there
/// is no message.
pub proof fn short_payloads_are_refused(s: Seq<u8>)
    requires
        s.len() <= HEADER_SIZE,
    ensures
        decode(s) == Err::<WireFields, WirePayloadError>(
            WirePayloadError::TooShort(s.len() as usize),
        ),
{
}

/// A key that is not 32 bytes long is refused, whatever else is packed.
pub proof fn wrong_key_lengths_are_refused(f: WireFields)
    requires
        f.dh_public_key.len() != 32,
    ensures
        pack_error(f) == Some(
            WirePayloadError::InvalidDhPublicKey(f.dh_public_key.len() as usize),
        ),
{
}

/// The length of a packed payload, and that the sealed box ends it.
pub proof fn packed_length(f: WireFields)
    requires
        pack_error(f) is None,
    ensures
        encode(f).len() == HEADER_SIZE + kem_bytes(f.kem_ciphertext).len() + pq_section(
            f.suite_id,
            f.pq_message_epoch,
            f.pq_ratchet_field,
        ).len() + f.sealed_box.len(),
        encode(f).subrange(encode(f).len() - f.sealed_box.len(), encode(f).len() as int)
            == f.sealed_box,
        f.suite_id == 3 && f.pq_ratchet_field is None ==> pq_section(
            f.suite_id,
            f.pq_message_epoch,
            f.pq_ratchet_field,
        ).len() == 5,
        f.suite_id != 3 ==> pq_section(
            f.suite_id,
            f.pq_message_epoch,
            f.pq_ratchet_field,
        ).len() == 0,
{
    assert(encode(f).subrange(encode(f).len() - f.sealed_box.len(), encode(f).len() as int)
        =~= f.sealed_box);
}

/// Where everything stands in a payload, byte by byte, all numbers with the least significant byte
/// first: the message number (4 bytes), the key (32), the one-time prekey (4), the Kyber prekey
/// (4), the length of the KEM ciphertext (2), the length of the previous chain (4), the suite (2),
/// the KEM ciphertext, in suite 3 the epoch (4) and the PQ field, and the sealed box.
pub proof fn a_payload_by_bytes(f: WireFields)
    requires
        f.dh_public_key.len() == 32,
        kem_bytes(f.kem_ciphertext).len() <= 65_535,
    ensures
        ({
            let s = encode(f);
            let kem = kem_bytes(f.kem_ciphertext);
            let pq = if f.suite_id == 3 {
                4 + field_bytes(f.pq_ratchet_field).len() as int
            } else {
                0
            };
            let at = 52 + kem.len() as int;
            &&& s.len() == at + pq + f.sealed_box.len()
            &&& s[0] + 256 * s[1] + 65_536 * s[2] + 16_777_216 * s[3] == f.message_number
            &&& s.subrange(4, 36) == f.dh_public_key
            &&& s[36] + 256 * s[37] + 65_536 * s[38] + 16_777_216 * s[39] == f.one_time_prekey_id
            &&& s[40] + 256 * s[41] + 65_536 * s[42] + 16_777_216 * s[43] == f.kyber_otpk_id
            &&& s[44] + 256 * s[45] == kem.len()
            &&& s[46] + 256 * s[47] + 65_536 * s[48] + 16_777_216 * s[49]
                == f.previous_chain_length
            &&& s[50] + 256 * s[51] == f.suite_id
            &&& s.subrange(52, at) == kem
            &&& f.suite_id == 3 ==> {
                &&& s[at] + 256 * s[at + 1] + 65_536 * s[at + 2] + 16_777_216 * s[at + 3]
                    == f.pq_message_epoch
                &&& s.subrange(at + 4, at + pq) == field_bytes(f.pq_ratchet_field)
            }
            &&& s.subrange(at + pq, s.len() as int) == f.sealed_box
        }),
{
    let s = encode(f);
    let kem = kem_bytes(f.kem_ciphertext);
    let tail = pq_section(f.suite_id, f.pq_message_epoch, f.pq_ratchet_field);
    let a = little_endian::le4(f.message_number);
    let b = little_endian::le4(f.one_time_prekey_id);
    let c = little_endian::le4(f.kyber_otpk_id);
    let d = little_endian::le2(kem.len() as u16);
    let e = little_endian::le4(f.previous_chain_length);
    let g = little_endian::le2(f.suite_id);
    header_length(f);
    body_slices(header_bytes(f), kem, tail, f.sealed_box);
    header_slices(a, f.dh_public_key, b, c, d, e, g, kem + tail + f.sealed_box);
    little_endian::the_small_byte_comes_first(kem.len() as u16, f.message_number);
    little_endian::the_small_byte_comes_first(f.suite_id, f.one_time_prekey_id);
    little_endian::the_small_byte_comes_first(f.suite_id, f.kyber_otpk_id);
    little_endian::the_small_byte_comes_first(f.suite_id, f.previous_chain_length);
    little_endian::the_small_byte_comes_first(f.suite_id, f.pq_message_epoch);
    bytes_of_slice(s, 0, a);
    bytes_of_slice(s, 36, b);
    bytes_of_slice(s, 40, c);
    bytes_of_slice(s, 44, d);
    bytes_of_slice(s, 46, e);
    bytes_of_slice(s, 50, g);
    if f.suite_id == 3 {
        let at = 52 + kem.len() as int;
        let w = little_endian::le4(f.pq_message_epoch);
        let fb = field_bytes(f.pq_ratchet_field);
        assert(tail == w + fb);
        assert(s.subrange(at, at + 4) =~= w);
        bytes_of_slice(s, at, w);
        assert(s.subrange(at + 4, at + 4 + fb.len() as int) =~= fb);
    }
}

proof fn bytes_of_slice(s: Seq<u8>, at: int, x: Seq<u8>)
    requires
        0 <= at,
        at + x.len() <= s.len(),
        s.subrange(at, (at + x.len()) as int) == x,
    ensures
        forall|i: int| 0 <= i < x.len() ==> #[trigger] x[i] == s[at + i],
        x.len() >= 1 ==> s[at] == x[0],
        x.len() >= 2 ==> s[at + 1] == x[1],
        x.len() >= 3 ==> s[at + 2] == x[2],
        x.len() >= 4 ==> s[at + 3] == x[3],
{
    assert forall|i: int| 0 <= i < x.len() implies #[trigger] x[i] == s[at + i] by {
        assert(s.subrange(at, (at + x.len()) as int)[i] == s[at + i]);
    }
}

/// A PQ field byte by byte: 0 alone for none; 1, the epoch (4 bytes), the length (2) and the key;
/// or 2, the epoch (4), the hash, the length (2) and the ciphertext.
pub proof fn a_pq_field_by_bytes(field: Option<PqFieldView>)
    requires
        field_len(field) <= 65_535,
    ensures
        ({
            let b = field_bytes(field);
            match field {
                None => b == seq![0u8],
                Some(PqFieldView::PublicKey { epoch, key }) => {
                    &&& b.len() == 7 + key.len()
                    &&& b[0] == 1
                    &&& b[1] + 256 * b[2] + 65_536 * b[3] + 16_777_216 * b[4] == epoch
                    &&& b[5] + 256 * b[6] == key.len()
                    &&& b.subrange(7, b.len() as int) == key
                },
                Some(PqFieldView::Ciphertext { epoch, ek_hash, ct }) => {
                    let n = ek_hash.len() as int;
                    &&& b.len() == 7 + n + ct.len()
                    &&& b[0] == 2
                    &&& b[1] + 256 * b[2] + 65_536 * b[3] + 16_777_216 * b[4] == epoch
                    &&& b.subrange(5, 5 + n) == ek_hash
                    &&& b[5 + n] + 256 * b[6 + n] == ct.len()
                    &&& b.subrange(7 + n, b.len() as int) == ct
                },
            }
        }),
{
    let b = field_bytes(field);
    match field {
        None => {},
        Some(PqFieldView::PublicKey { epoch, key }) => {
            little_endian::the_small_byte_comes_first(key.len() as u16, epoch);
            assert(b.subrange(7, b.len() as int) =~= key);
        },
        Some(PqFieldView::Ciphertext { epoch, ek_hash, ct }) => {
            let n = ek_hash.len() as int;
            little_endian::the_small_byte_comes_first(ct.len() as u16, epoch);
            assert(b.subrange(5, 5 + n) =~= ek_hash);
            assert(b.subrange(7 + n, b.len() as int) =~= ct);
        },
    }
}

/// What cannot be packed, and why: first a key that is not 32 bytes long, then a KEM ciphertext and,
/// in suite 3, a PQ field longer than two bytes can tell.
pub proof fn what_cannot_be_packed(f: WireFields)
    ensures
        ({
            let e = pack_error(f);
            let key = f.dh_public_key.len() == 32;
            let kem = f.kem_ciphertext matches Some(k) ==> k.len() <= 65_535;
            let field = match f.pq_ratchet_field {
                None => true,
                Some(PqFieldView::PublicKey { epoch, key }) => key.len() <= 65_535,
                Some(PqFieldView::Ciphertext { epoch, ek_hash, ct }) => ct.len() <= 65_535,
            };
            &&& e is None <==> key && kem && (f.suite_id == 3 ==> field)
            &&& !key <==> e == Some(
                WirePayloadError::InvalidDhPublicKey(f.dh_public_key.len() as usize),
            )
            &&& key && !kem <==> e == Some(
                WirePayloadError::KemTooLarge(f.kem_ciphertext->Some_0.len() as usize),
            )
            &&& key && kem && f.suite_id == 3 && !field <==> e == Some(
                WirePayloadError::PqFieldTooLarge(field_len(f.pq_ratchet_field) as usize),
            )
        }),
{
}

/// Why a payload is refused: it names a PQ field of a type that does not exist, which is told; or
/// it is too short for what it says it holds and at least one byte of a sealed box, and then its
/// length is told.
pub proof fn why_a_payload_is_refused(s: Seq<u8>)
    requires
        decode(s) is Err,
    ensures
        ({
            let at = 52 + s[44] + 256 * s[45];
            let typed = s.len() > 52 && s.len() >= at + 5 && s[50] + 256 * s[51] == 3 && s[at + 4]
                > 2;
            &&& typed ==> decode(s) == Err::<WireFields, WirePayloadError>(
                WirePayloadError::InvalidPqFieldType(s[at + 4]),
            )
            &&& !typed ==> decode(s) == Err::<WireFields, WirePayloadError>(
                WirePayloadError::TooShort(s.len() as usize),
            )
        }),
{
}

/// A payload of any other suite than 3 is read whenever a byte of a sealed box is left behind what
/// it says it holds.
pub proof fn a_long_enough_payload_is_read(s: Seq<u8>)
    requires
        s.len() > 52 + s[44] + 256 * s[45],
        s[50] + 256 * s[51] != 3,
    ensures
        decode(s) is Ok,
        decode(s)->Ok_0.sealed_box == s.skip(52 + s[44] + 256 * s[45]),
{
    let at = 52 + s[44] + 256 * s[45];
    assert(s.subrange(at, s.len() as int) =~= s.skip(at));
}

} // verus!
