//! Messages of a session.

pub mod double_ratchet;
