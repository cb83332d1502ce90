//! A relay that puts its own address in place of every payment address that
//! passes through it.

pub mod proxy;
pub mod rewrite;
