//! The logic of the interactive tools: what each tool computes from what
//! the user entered, apart from how it is drawn.

use vstd::prelude::*;

use crate::i18n::Language;

pub mod audit_log;
pub mod backup;
pub mod bulk_deploy;
pub mod compliance;
pub mod config_history;
pub mod dashboard;
pub mod device_manager;
pub mod discovery;
pub mod firmware;
pub mod security;
pub mod snmp_map;
pub mod ssh;
pub mod syslog;
pub mod template;
pub mod topology;
pub mod vlan;

verus! {

/// What a tool asks of the application shell.
#[derive(Debug, Clone)]
pub enum ToolEvent {
    /// The user chose another interface language.
    LanguageSelected(Language),
    /// Open the comparison tool on these two configurations.
    SwitchToDiff { old_config: String, new_config: String },
}

} // verus!
