//! Opening a session: what a device publishes, and what the KEM adds.

use vstd::prelude::*;

use crate::crypto::suite_id::SuiteID;
use crate::vecs;

verus! {

/// What a device publishes so that others can open a session with it.
#[derive(Debug)]
pub struct X3DHPublicKeyBundle {
    pub identity_public: Vec<u8>,
    pub signed_prekey_public: Vec<u8>,
    pub signature: Vec<u8>,
    pub verifying_key: Vec<u8>,
    pub suite_id: SuiteID,
    pub one_time_prekey_public: Option<Vec<u8>>,
    pub one_time_prekey_id: Option<u32>,
    pub spk_uploaded_at: u64,
    pub spk_rotation_epoch: u32,
    pub kyber_spk_uploaded_at: u64,
    pub kyber_spk_rotation_epoch: u32,
}

/// An `X3DHPublicKeyBundle` by its bytes.
pub struct BundleView {
    pub identity_public: Seq<u8>,
    pub signed_prekey_public: Seq<u8>,
    pub signature: Seq<u8>,
    pub verifying_key: Seq<u8>,
    pub suite_id: SuiteID,
    pub one_time_prekey_public: Option<Seq<u8>>,
    pub one_time_prekey_id: Option<u32>,
    pub spk_uploaded_at: u64,
    pub spk_rotation_epoch: u32,
    pub kyber_spk_uploaded_at: u64,
    pub kyber_spk_rotation_epoch: u32,
}

impl DeepView for X3DHPublicKeyBundle {
    type V = BundleView;

    open spec fn deep_view(&self) -> BundleView {
        BundleView {
            identity_public: self.identity_public@,
            signed_prekey_public: self.signed_prekey_public@,
            signature: self.signature@,
            verifying_key: self.verifying_key@,
            suite_id: self.suite_id,
            one_time_prekey_public: vecs::opt_bytes(self.one_time_prekey_public),
            one_time_prekey_id: self.one_time_prekey_id,
            spk_uploaded_at: self.spk_uploaded_at,
            spk_rotation_epoch: self.spk_rotation_epoch,
            kyber_spk_uploaded_at: self.kyber_spk_uploaded_at,
            kyber_spk_rotation_epoch: self.kyber_spk_rotation_epoch,
        }
    }
}

impl Clone for X3DHPublicKeyBundle {
    fn clone(&self) -> (r: Self)
        ensures
            r.deep_view() == self.deep_view(),
    {
        X3DHPublicKeyBundle {
            identity_public: vecs::bytes(self.identity_public.as_slice()),
            signed_prekey_public: vecs::bytes(self.signed_prekey_public.as_slice()),
            signature: vecs::bytes(self.signature.as_slice()),
            verifying_key: vecs::bytes(self.verifying_key.as_slice()),
            suite_id: self.suite_id,
            one_time_prekey_public: vecs::clone_opt_bytes(&self.one_time_prekey_public),
            one_time_prekey_id: self.one_time_prekey_id,
            spk_uploaded_at: self.spk_uploaded_at,
            spk_rotation_epoch: self.spk_rotation_epoch,
            kyber_spk_uploaded_at: self.kyber_spk_uploaded_at,
            kyber_spk_rotation_epoch: self.kyber_spk_rotation_epoch,
        }
    }
}

/// The KEM part of a handshake.
#[derive(Debug)]
pub struct PqxdhInput {
    pub shared_secret: Vec<u8>,
    pub kyber_public: Vec<u8>,
    pub kem_ciphertext: Vec<u8>,
}

/// A `PqxdhInput` by its bytes.
pub struct PqxdhView {
    pub shared_secret: Seq<u8>,
    pub kyber_public: Seq<u8>,
    pub kem_ciphertext: Seq<u8>,
}

impl DeepView for PqxdhInput {
    type V = PqxdhView;

    open spec fn deep_view(&self) -> PqxdhView {
        PqxdhView {
            shared_secret: self.shared_secret@,
            kyber_public: self.kyber_public@,
            kem_ciphertext: self.kem_ciphertext@,
        }
    }
}

/// What encapsulating to a Kyber key gives.
#[derive(Debug)]
pub struct Encapsulation {
    pub shared_secret: Vec<u8>,
    pub ciphertext: Vec<u8>,
}

/// An `Encapsulation` by its bytes.
pub struct EncapsulationView {
    pub shared_secret: Seq<u8>,
    pub ciphertext: Seq<u8>,
}

impl DeepView for Encapsulation {
    type V = EncapsulationView;

    open spec fn deep_view(&self) -> EncapsulationView {
        EncapsulationView {
            shared_secret: self.shared_secret@,
            ciphertext: self.ciphertext@,
        }
    }
}

/// What every signature over a prekey of a suite begins with: `"KonstruktX3DH-v1"` and the suite's
/// number, most significant byte first.
pub open spec fn prologue(suite: u16) -> Seq<u8> {
    label() + seq![(suite / 256) as u8, (suite % 256) as u8]
}

/// The bytes of `"KonstruktX3DH-v1"`.
pub open spec fn label() -> Seq<u8> {
    seq![
        75u8,
        111u8,
        110u8,
        115u8,
        116u8,
        114u8,
        117u8,
        107u8,
        116u8,
        88u8,
        51u8,
        68u8,
        72u8,
        45u8,
        118u8,
        49u8,
    ]
}

/// The prologue of a suite.
pub fn build_prologue_of(suite: u16) -> (r: Vec<u8>)
    ensures
        r@ == prologue(suite),
{
    let mut v: Vec<u8> = vec![
        75u8,
        111u8,
        110u8,
        115u8,
        116u8,
        114u8,
        117u8,
        107u8,
        116u8,
        88u8,
        51u8,
        68u8,
        72u8,
        45u8,
        118u8,
        49u8,
    ];
    v.push((suite / 256) as u8);
    v.push((suite % 256) as u8);
    assert(v@ =~= prologue(suite));
    v
}

/// The prologue of a suite.
pub fn build_prologue(suite_id: SuiteID) -> (r: Vec<u8>)
    ensures
        r@ == prologue(suite_id.number()),
{
    build_prologue_of(suite_id.as_u16())
}

/// The message a signature over a prekey is made on.
pub fn build_x3dh_sign_message(suite_id: u8, public_key: &[u8]) -> (r: Vec<u8>)
    ensures
        r@ == prologue(suite_id as u16) + public_key@,
{
    let mut m = build_prologue_of(suite_id as u16);
    vecs::append_bytes(&mut m, public_key);
    m
}

/// A prologue is the sixteen letters `KonstruktX3DH-v1` and the suite's number, its most
/// significant byte first.
pub proof fn a_prologue_by_bytes(suite: u16)
    ensures
        prologue(suite).len() == 18,
        prologue(suite).subrange(0, 16) == seq![
            0x4bu8,
            0x6f,
            0x6e,
            0x73,
            0x74,
            0x72,
            0x75,
            0x6b,
            0x74,
            0x58,
            0x33,
            0x44,
            0x48,
            0x2d,
            0x76,
            0x31,
        ],
        prologue(suite)[16] * 256 + prologue(suite)[17] == suite,
{
    assert(prologue(suite).subrange(0, 16) =~= label());
}

} // verus!
