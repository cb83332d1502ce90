//! A chat room over newline-terminated lines: the wire format, the room's
//! registry of members, and the session of one member.

pub mod chat;
pub mod client;
pub mod framing;
pub mod protocol;
