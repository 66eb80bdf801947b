//! What the orchestration knows of the cryptography below it.
//!
//! Keys, sessions and signatures are kept here as plain values; the arithmetic on them is done by a
//! `CryptoEngine`, of whose replies nothing is assumed.

pub mod client_api;
pub mod engine;
pub mod handshake;
pub mod keys;
pub mod kyber_prekey_auth;
pub mod kyber_prekeys;
pub mod messaging;
pub mod suite_id;
