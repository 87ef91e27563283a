//! Device discovery: which addresses of a subnet a sweep visits, and what a
//! probe of one address found. The probing itself (TCP connects) is I/O and
//! is done by the caller.

use vstd::prelude::*;

use crate::error::{NetworkError, NetworkErrorView};
use crate::network::ipv4::Ipv4Addr;
use crate::network::subnet::{
    broadcast_of, first_host_of, last_host_of, network_of, parse_subnet_text, Subnet,
};

verus! {

/// The most addresses one sweep visits.
pub const MAX_DISCOVERY_HOSTS: u64 = 1024;

/// What a probe of one address found: whether SSH (tcp/22) and SNMP
/// (tcp/161) answered.
#[derive(Debug, Clone, PartialEq, Eq)]
pub struct DiscoveryProbe {
    pub ip: Ipv4Addr,
    pub ssh_open: bool,
    pub snmp_open: bool,
}

/// The inclusive range of addresses a sweep of a subnet visits: from its
/// first usable host on, at most [`MAX_DISCOVERY_HOSTS`] of them, never past
/// its last usable host.
#[derive(Debug, Clone, Copy, PartialEq, Eq, Structural)]
pub struct ScanRange {
    pub start: u32,
    pub end: u32,
}

/// Where a sweep of the subnet `ip/p` starts: its first usable host, or
/// its network address when it has no host range.
pub open spec fn sweep_start(ip: u32, p: u8) -> u32 {
    match first_host_of(ip, p) {
        Some(a) => a,
        None => network_of(ip, p),
    }
}

/// Where a sweep of the subnet `ip/p` may end at most: its last usable
/// host, or its broadcast address when it has no host range.
pub open spec fn sweep_end(ip: u32, p: u8) -> u32 {
    match last_host_of(ip, p) {
        Some(a) => a,
        None => broadcast_of(ip, p),
    }
}

/// The sweep range of the subnet `ip/p`.
pub open spec fn scan_range_of(ip: u32, p: u8) -> (u32, u32) {
    let start = sweep_start(ip, p);
    let end = sweep_end(ip, p);
    let total = if end >= start { end - start + 1 } else { 1 };
    if total > MAX_DISCOVERY_HOSTS {
        (start, (start + MAX_DISCOVERY_HOSTS - 1) as u32)
    } else {
        (start, end)
    }
}

/// The services that answered: `SSH,SNMP`, `SSH`, `SNMP` or `-`.
pub open spec fn services_text(ssh_open: bool, snmp_open: bool) -> Seq<char> {
    if ssh_open && snmp_open {
        "SSH,SNMP"@
    } else if ssh_open {
        "SSH"@
    } else if snmp_open {
        "SNMP"@
    } else {
        "-"@
    }
}

impl DiscoveryProbe {
    /// The services that answered: `SSH,SNMP`, `SSH`, `SNMP` or `-`.
    pub fn service_summary(&self) -> (r: String)
        ensures
            r@ == services_text(self.ssh_open, self.snmp_open),
    {
        if self.ssh_open && self.snmp_open {
            String::from_str("SSH,SNMP")
        } else if self.ssh_open {
            String::from_str("SSH")
        } else if self.snmp_open {
            String::from_str("SNMP")
        } else {
            String::from_str("-")
        }
    }

    /// Whether the address is worth adding as a device: one of the two
    /// services answered.
    pub fn is_candidate(&self) -> (r: bool)
        ensures
            r == (self.ssh_open || self.snmp_open),
    {
        self.ssh_open || self.snmp_open
    }
}

/// The addresses a sweep of the subnet `cidr` visits, or why `cidr` was
/// refused.
pub fn scan_range(cidr: &str) -> (r: Result<ScanRange, NetworkError>)
    ensures
        match r {
            Ok(g) => parse_subnet_text(cidr@) matches Ok((ip, p)) && scan_range_of(ip, p) == (
                g.start,
                g.end,
            ),
            Err(e) => parse_subnet_text(cidr@) == Err::<(u32, u8), NetworkErrorView>(e@),
        },
{
    let subnet = match Subnet::parse(cidr) {
        Ok(s) => s,
        Err(e) => return Err(e),
    };
    let start = match subnet.first_host() {
        Some(a) => a.to_bits(),
        None => subnet.network().to_bits(),
    };
    let end = match subnet.last_host() {
        Some(a) => a.to_bits(),
        None => subnet.broadcast().to_bits(),
    };
    let total: u64 = if end >= start {
        (end - start) as u64 + 1
    } else {
        1
    };
    let capped_end = if total > MAX_DISCOVERY_HOSTS {
        start + (MAX_DISCOVERY_HOSTS as u32 - 1)
    } else {
        end
    };
    Ok(ScanRange { start, end: capped_end })
}

/// Every sweep range is non-empty, starts at the subnet's first usable host
/// (the network address of a /31 or /32), stays within its usable hosts
/// (up to the broadcast address of a /31 or /32) and visits at most
/// [`MAX_DISCOVERY_HOSTS`] addresses.
pub proof fn lemma_scan_range_bounded(ip: u32, p: u8)
    requires
        p <= 32,
    ensures
        scan_range_of(ip, p).0 == sweep_start(ip, p),
        scan_range_of(ip, p).0 <= scan_range_of(ip, p).1 <= sweep_end(ip, p),
        scan_range_of(ip, p).1 - scan_range_of(ip, p).0 + 1 <= MAX_DISCOVERY_HOSTS,
{
    if p <= 30 {
        crate::network::subnet::lemma_host_range_counts_usable(ip, p);
    } else {
        crate::network::subnet::lemma_network_le_ip_le_broadcast(ip, p);
    }
}

} // verus!
