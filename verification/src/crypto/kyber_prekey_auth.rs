//! How a Kyber prekey is authenticated, and how a session came by its post-quantum secret.

use vstd::prelude::*;

use crate::crypto::handshake::{self, build_prologue_of};
use crate::vecs;

verus! {

/// How old a Kyber signed prekey may be, by its signed time (seconds).
pub const KYBER_SPK_MAX_AGE_SECS: u64 = 1_209_600;

/// The number that marks a signature over a Kyber prekey.
pub const KYBER_SIGN_SUITE: u16 = 17;

/// How a session came by its post-quantum secret.
#[derive(Debug, Clone, Copy, PartialEq, Eq, Structural)]
pub enum PqHandshake {
    /// It has none.
    Classical,
    /// Mixed in after the first flight.
    DeferredV1,
    /// Part of the initial key.
    InitialV2,
}

/// What is known of the peer's Kyber key.
#[derive(Debug, Clone, Copy, PartialEq, Eq, Structural)]
pub enum PqAuthentication {
    /// No Kyber key was involved.
    Unauthenticated,
    /// The peer encapsulated to a key of ours.
    Received,
    /// The peer's key carried both signatures.
    Authenticated,
}

/// The eight bytes of a 64-bit number, most significant first.
pub open spec fn be8(x: u64) -> Seq<u8> {
    seq![
        (x / 72057594037927936) as u8,
        ((x / 281474976710656) % 256) as u8,
        ((x / 1099511627776) % 256) as u8,
        ((x / 4294967296) % 256) as u8,
        ((x / 16777216) % 256) as u8,
        ((x / 65536) % 256) as u8,
        ((x / 256) % 256) as u8,
        (x % 256) as u8,
    ]
}

/// What both signatures over a Kyber prekey are made on:
/// `"KonstruktX3DH-v1" || 0x00 0x11 || created_at (u64 BE) || public`.
pub open spec fn kyber_sign_message(created_at: u64, public: Seq<u8>) -> Seq<u8> {
    handshake::prologue(KYBER_SIGN_SUITE) + be8(created_at) + public
}

/// What both signatures over a Kyber prekey are made on.
pub fn kyber_prekey_sign_message_v2(created_at: u64, public: &[u8]) -> (r: Vec<u8>)
    ensures
        r@ == kyber_sign_message(created_at, public@),
{
    let mut m = build_prologue_of(KYBER_SIGN_SUITE);
    let x: u64 = created_at;
    m.push((x / 72057594037927936) as u8);
    m.push(((x / 281474976710656) % 256) as u8);
    m.push(((x / 1099511627776) % 256) as u8);
    m.push(((x / 4294967296) % 256) as u8);
    m.push(((x / 16777216) % 256) as u8);
    m.push(((x / 65536) % 256) as u8);
    m.push(((x / 256) % 256) as u8);
    m.push((x % 256) as u8);
    assert(m@ =~= handshake::prologue(KYBER_SIGN_SUITE) + be8(created_at));
    vecs::append_bytes(&mut m, public);
    m
}

/// The message under a Kyber prekey's signatures, byte by byte: the sixteen letters
/// `KonstruktX3DH-v1`, the number 17 and the signed time, each with its most significant byte
/// first, and then the public key.
pub proof fn the_signed_message_by_bytes(created_at: u64, public: Seq<u8>)
    ensures
        ({
            let m = kyber_sign_message(created_at, public);
            &&& m.len() == 26 + public.len()
            &&& m.subrange(0, 16) == seq![
                0x4bu8,
                0x6f,
                0x6e,
                0x73,
                0x74,
                0x72,
                0x75,
                0x6b,
                0x74,
                0x58,
                0x33,
                0x44,
                0x48,
                0x2d,
                0x76,
                0x31,
            ]
            &&& m[16] * 256 + m[17] == 17
            &&& ((((((m[18] * 256 + m[19]) * 256 + m[20]) * 256 + m[21]) * 256 + m[22]) * 256
                + m[23]) * 256 + m[24]) * 256 + m[25] == created_at
            &&& m.subrange(26, m.len() as int) == public
        }),
{
    let m = kyber_sign_message(created_at, public);
    assert(m.subrange(0, 16) =~= handshake::label());
    assert(m.subrange(26, m.len() as int) =~= public);
    let x = created_at;
    assert(m[18] == x / 72057594037927936);
    assert(m[25] == x % 256);
}

/// Two prekeys, or two times, never give the same message to sign.
pub proof fn a_signed_message_tells_its_parts(t: u64, public: Seq<u8>, u: u64, other: Seq<u8>)
    requires
        kyber_sign_message(t, public) == kyber_sign_message(u, other),
    ensures
        t == u,
        public == other,
{
    the_signed_message_by_bytes(t, public);
    the_signed_message_by_bytes(u, other);
}

} // verus!
