//! Session orchestration core of an end-to-end encrypted messenger.

pub mod crypto;
pub mod little_endian;
pub mod orchestration;
pub mod str_map;
pub mod strings;
pub mod utils;
pub mod vecs;
pub mod wire_payload;
