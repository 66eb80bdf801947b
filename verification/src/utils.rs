//! Helpers that belong to no one part of the library.

pub mod time;
