//! OxideNMS core library: Cisco configuration hardening audit, fleet
//! compliance scoring, report rendering, IPv4 subnet arithmetic and the
//! operational helpers around them.

pub mod cli;
pub mod crypto;
pub mod db;
pub mod error;
pub mod hex;
pub mod i18n;
pub mod network;
pub mod report;
pub mod settings;
pub mod shell;
pub mod text;
pub mod tools;
pub mod update;
