//! Network domain: configuration auditing and IPv4 arithmetic. Pure logic,
//! no I/O.

pub mod compliance;
pub mod diff;
pub mod discovery;
pub mod ipv4;
pub mod security;
pub mod subnet;
