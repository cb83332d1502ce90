//! Timestamped prices over nine-byte messages, and the mean price of a period.

pub mod handler;
pub mod protocol;
pub mod session;
