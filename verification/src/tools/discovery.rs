//! Adding the devices a discovery sweep found to the inventory: their
//! names, details and the messages around the database write, which is the
//! caller's I/O.

use vstd::prelude::*;

use crate::network::discovery::{services_text, DiscoveryProbe};
use crate::network::ipv4::ipv4_text;
use crate::text::push_str;

verus! {

/// The audit action of adding a discovered device.
pub const DISCOVERY_AUDIT_ACTION: &'static str = "discovery.add_device";

/// The tag stored with a discovered device.
pub const DISCOVERED_TAG: &'static str = "discovered";

/// The probe timeout in milliseconds, kept between 50 and 3000.
pub fn scan_timeout_ms(ms: u64) -> (r: u64)
    ensures
        r == (if ms < 50 {
            50
        } else if ms > 3000 {
            3000
        } else {
            ms
        }),
{
    if ms < 50 {
        50
    } else if ms > 3000 {
        3000
    } else {
        ms
    }
}

/// What is stored for a discovered device.
#[derive(Debug, Clone)]
pub struct Candidate {
    /// Its address, in dotted-quad text.
    pub ip: String,
    /// Its name: `Discovered-` and the address.
    pub name: String,
    /// The services that answered, stored as its platform.
    pub details: String,
}

/// What is stored for the device a probe found.
pub fn candidate_of(probe: &DiscoveryProbe) -> (r: Candidate)
    ensures
        r.ip@ == ipv4_text(probe.ip@),
        r.name@ == "Discovered-"@ + ipv4_text(probe.ip@),
        r.details@ == services_text(probe.ssh_open, probe.snmp_open),
{
    let ip = probe.ip.to_string();
    let mut name = "Discovered-".to_owned();
    push_str(&mut name, ip.as_str());
    Candidate { ip, name, details: probe.service_summary() }
}

/// How adding a discovered device went.
#[derive(Debug, Clone, PartialEq, Eq)]
pub enum AddStep {
    /// The database could not be opened, with its message.
    DatabaseFailed(String),
    /// Storing failed, with the database's message.
    SaveFailed(String),
    /// The device was stored.
    Added,
}

/// The message after adding the device at `ip` reached `step`.
pub fn add_message(ip: &str, step: AddStep) -> (r: String)
    ensures
        r@ == (match step {
            AddStep::DatabaseFailed(e) => "Database failed: "@ + e@,
            AddStep::SaveFailed(e) => "Save failed: "@ + e@,
            AddStep::Added => ip@ + " added to inventory."@,
        }),
{
    match step {
        AddStep::DatabaseFailed(e) => {
            let mut m = "Database failed: ".to_owned();
            push_str(&mut m, e.as_str());
            m
        },
        AddStep::SaveFailed(e) => {
            let mut m = "Save failed: ".to_owned();
            push_str(&mut m, e.as_str());
            m
        },
        AddStep::Added => {
            let mut m = ip.to_owned();
            push_str(&mut m, " added to inventory.");
            m
        },
    }
}

} // verus!
