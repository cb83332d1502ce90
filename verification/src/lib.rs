//! Line- and packet-oriented network services: the connection harness with its
//! traffic counters, and the protocol rules of the services that run on it.

pub mod budget_chat;
pub mod means_to_an_end;
pub mod mob_in_the_middle;
pub mod prime_time;
pub mod server;
pub mod smoke_test;
pub mod text;
pub mod unusual_database;
