//! The wire format.

use construct_core::crypto::messaging::double_ratchet::PqRatchetWireField;
use construct_core::wire_payload::{pack, unpack, WirePayloadError, HEADER_SIZE};

fn make_sealed_box(n: u8) -> Vec<u8> {
    vec![n; 60]
}

#[test]
fn round_trip_no_pqc() {
    let dh_key = vec![0xAA; 32];
    let sealed = make_sealed_box(0xBB);
    let packed = pack(&dh_key, 7, 42, 0, 3, 1, None, &sealed, 0, None).unwrap();
    assert_eq!(packed.len(), HEADER_SIZE + sealed.len());

    let decoded = unpack(&packed).unwrap();
    assert_eq!(decoded.message_number, 7);
    assert_eq!(decoded.dh_public_key, dh_key);
    assert_eq!(decoded.one_time_prekey_id, 42);
    assert_eq!(decoded.kyber_otpk_id, 0);
    assert_eq!(decoded.previous_chain_length, 3);
    assert_eq!(decoded.suite_id, 1);
    assert!(decoded.kem_ciphertext.is_none());
    assert_eq!(decoded.pq_message_epoch, 0);
    assert!(decoded.pq_ratchet_field.is_none());
    assert_eq!(decoded.sealed_box, sealed);
}

#[test]
fn round_trip_with_pqc() {
    let dh_key = vec![0x11; 32];
    let kem_ct = vec![0x22; 1088];
    let sealed = make_sealed_box(0x33);
    let packed = pack(&dh_key, 0, 99, 5, 0, 1, Some(&kem_ct), &sealed, 0, None).unwrap();
    assert_eq!(packed.len(), HEADER_SIZE + kem_ct.len() + sealed.len());

    let decoded = unpack(&packed).unwrap();
    assert_eq!(decoded.message_number, 0);
    assert_eq!(decoded.one_time_prekey_id, 99);
    assert_eq!(decoded.kyber_otpk_id, 5);
    assert_eq!(decoded.previous_chain_length, 0);
    assert_eq!(decoded.suite_id, 1);
    assert_eq!(decoded.kem_ciphertext.as_deref(), Some(kem_ct.as_slice()));
    assert_eq!(decoded.sealed_box, sealed);
}

#[test]
fn too_short_returns_error() {
    assert!(unpack(&[0u8; 10]).is_err());
}

#[test]
fn invalid_dh_key_size() {
    let err = pack(
        &[0u8; 16],
        0,
        0,
        0,
        0,
        1,
        None,
        &make_sealed_box(0),
        0,
        None,
    )
    .unwrap_err();
    assert!(matches!(err, WirePayloadError::InvalidDhPublicKey(16)));
}

#[test]
fn round_trip_suite3_no_field() {
    let dh_key = vec![0x11; 32];
    let sealed = make_sealed_box(0x44);
    let packed = pack(&dh_key, 3, 0, 0, 1, 3, None, &sealed, 7, None).unwrap();
    assert_eq!(packed.len(), HEADER_SIZE + 5 + sealed.len());

    let decoded = unpack(&packed).unwrap();
    assert_eq!(decoded.suite_id, 3);
    assert_eq!(decoded.pq_message_epoch, 7);
    assert!(decoded.pq_ratchet_field.is_none());
    assert_eq!(decoded.sealed_box, sealed);
}

#[test]
fn round_trip_suite3_public_key_field() {
    let dh_key = vec![0x11; 32];
    let sealed = make_sealed_box(0x55);
    let ek = vec![0x66; 1184];
    let field = PqRatchetWireField::PublicKey {
        epoch: 8,
        key: ek.clone(),
    };
    let packed = pack(&dh_key, 3, 0, 0, 1, 3, None, &sealed, 7, Some(field)).unwrap();

    let decoded = unpack(&packed).unwrap();
    assert_eq!(decoded.pq_message_epoch, 7);
    match decoded.pq_ratchet_field {
        Some(PqRatchetWireField::PublicKey { epoch, key }) => {
            assert_eq!(epoch, 8);
            assert_eq!(key, ek);
        }
        other => panic!("expected PublicKey field, got {other:?}"),
    }
    assert_eq!(decoded.sealed_box, sealed);
}

#[test]
fn round_trip_suite3_ciphertext_field() {
    let dh_key = vec![0x11; 32];
    let sealed = make_sealed_box(0x77);
    let ct = vec![0x88; 1088];
    let ek_hash = [1u8, 2, 3, 4, 5, 6, 7, 8];
    let field = PqRatchetWireField::Ciphertext {
        epoch: 8,
        ek_hash,
        ct: ct.clone(),
    };
    let packed = pack(&dh_key, 3, 0, 0, 1, 3, None, &sealed, 8, Some(field)).unwrap();

    let decoded = unpack(&packed).unwrap();
    assert_eq!(decoded.pq_message_epoch, 8);
    match decoded.pq_ratchet_field {
        Some(PqRatchetWireField::Ciphertext {
            epoch,
            ek_hash: h,
            ct: c,
        }) => {
            assert_eq!(epoch, 8);
            assert_eq!(h, ek_hash);
            assert_eq!(c, ct);
        }
        other => panic!("expected Ciphertext field, got {other:?}"),
    }
    assert_eq!(decoded.sealed_box, sealed);
}

#[test]
fn suite3_truncated_pq_section_errors() {
    let dh_key = vec![0x11; 32];
    let sealed = make_sealed_box(0x44);
    let packed = pack(&dh_key, 3, 0, 0, 1, 3, None, &sealed, 7, None).unwrap();
    let truncated = &packed[..HEADER_SIZE + 2];
    assert!(matches!(
        unpack(truncated),
        Err(WirePayloadError::TooShort(_))
    ));
}

#[test]
fn known_byte_vector() {
    let dh_key = vec![0x01; 32];
    let sealed = vec![0xAA; 60];
    let packed = pack(&dh_key, 1, 2, 0, 5, 1, None, &sealed, 0, None).unwrap();

    assert_eq!(&packed[0..4], &[0x01, 0x00, 0x00, 0x00]);
    assert_eq!(&packed[4..36], vec![0x01u8; 32].as_slice());
    assert_eq!(&packed[36..40], &[0x02, 0x00, 0x00, 0x00]);
    assert_eq!(&packed[40..44], &[0x00, 0x00, 0x00, 0x00]);
    assert_eq!(&packed[44..46], &[0x00, 0x00]);
    assert_eq!(&packed[46..50], &[0x05, 0x00, 0x00, 0x00]);
    assert_eq!(&packed[50..52], &[0x01, 0x00]);
    assert_eq!(&packed[52..], vec![0xAAu8; 60].as_slice());
}

#[test]
fn every_error_says_what_is_wrong() {
    let sealed = make_sealed_box(1);
    let key = [1u8; 32];
    let big = vec![0u8; 65_536];
    let err = pack(&key, 0, 0, 0, 0, 1, Some(&big), &sealed, 0, None).unwrap_err();
    assert_eq!(err, WirePayloadError::KemTooLarge(65_536));
    assert_eq!(err.to_name(), "KemTooLarge(65536)");
    let field = PqRatchetWireField::PublicKey { epoch: 1, key: big };
    let err = pack(&key, 0, 0, 0, 0, 3, None, &sealed, 0, Some(field)).unwrap_err();
    assert_eq!(err, WirePayloadError::PqFieldTooLarge(65_536));

    let err = unpack(&[0; 10]).unwrap_err();
    assert_eq!(err, WirePayloadError::TooShort(10));
    assert_eq!(err.to_name(), "TooShort(10)");

    let mut packed = pack(&key, 0, 0, 0, 0, 3, None, &sealed, 0, None).unwrap();
    packed[HEADER_SIZE + 4] = 9;
    assert_eq!(unpack(&packed).unwrap_err(), WirePayloadError::InvalidPqFieldType(9));

    let err = pack(&[0; 16], 0, 0, 0, 0, 1, None, &sealed, 0, None).unwrap_err();
    assert_eq!(err.to_text(), "DH public key must be 32 bytes, got 16");
}

#[test]
fn a_payload_packs_back_to_its_bytes() {
    let field = PqRatchetWireField::Ciphertext { epoch: 3, ek_hash: [7; 8], ct: vec![5; 1088] };
    let packed =
        pack(&[9; 32], 4, 5, 6, 7, 3, Some(&[8; 1568]), &make_sealed_box(2), 3, Some(field))
            .unwrap();
    let d = unpack(&packed).unwrap();
    assert!(d.pqxdh_v2());
    let again = pack(
        &d.dh_public_key,
        d.message_number,
        d.one_time_prekey_id,
        d.kyber_otpk_id,
        d.previous_chain_length,
        d.suite_id,
        d.kem_ciphertext.as_deref(),
        &d.sealed_box,
        d.pq_message_epoch,
        d.pq_ratchet_field,
    )
    .unwrap();
    assert_eq!(again, packed);
}
