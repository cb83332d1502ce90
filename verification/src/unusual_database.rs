//! A key-value store over datagrams: `key=value` stores, `key` retrieves.

pub mod db;
pub mod handler;
pub mod protocol;
