//! Primality on request: one question per line, one answer per line.

pub mod handler;
pub mod prime;
pub mod protocol;
