//! The command line: its commands, and the text each command prints.
//! Reading the arguments and printing are the caller's I/O.

use vstd::prelude::*;

use crate::error::error_text;
use crate::network::ipv4::ipv4_text;
use crate::network::subnet::{
    broadcast_of, first_host_of, last_host_of, mask_of, network_of, parse_subnet_text,
    usable_hosts_of, Subnet,
};
use crate::text::{decimal, push_decimal, push_str};

verus! {

/// The parsed command line.
#[derive(Debug, Clone)]
pub struct Cli {
    pub command: Commands,
}

/// The commands.
#[derive(Debug, Clone)]
pub enum Commands {
    /// Describes the subnet of an `ip/prefix` text, e.g. `192.168.1.10/24`.
    Subnet { cidr: String },
}

/// A report line: a label, a value and a newline.
pub open spec fn report_line(label: Seq<char>, value: Seq<char>) -> Seq<char> {
    label + value + "\n"@
}

/// The report of the subnet `ip/p`.
pub open spec fn subnet_report_text(ip: u32, p: u8) -> Seq<char> {
    report_line("Input        : "@, ipv4_text(ip) + "/"@ + decimal(p as nat)) + report_line(
        "Subnet maske : "@,
        ipv4_text(mask_of(p)),
    ) + report_line("Network      : "@, ipv4_text(network_of(ip, p))) + report_line(
        "Broadcast    : "@,
        ipv4_text(broadcast_of(ip, p)),
    ) + host_range_text(ip, p) + report_line("Host sayisi  : "@, decimal(usable_hosts_of(p)))
}

/// The host range lines of the report: the first and last usable host, or
/// a note that the prefix has no usable range.
pub open spec fn host_range_text(ip: u32, p: u8) -> Seq<char> {
    match (first_host_of(ip, p), last_host_of(ip, p)) {
        (Some(ilk), Some(son)) => report_line("Ilk host     : "@, ipv4_text(ilk)) + report_line(
            "Son host     : "@,
            ipv4_text(son),
        ),
        _ => "Ilk/Son host : (bu prefix icin kullanilabilir aralik yok)\n"@,
    }
}

/// What a command prints: its report, or the error line (the caller then
/// exits with status 1).
pub open spec fn command_output(cmd: Commands) -> Result<Seq<char>, Seq<char>> {
    match cmd {
        Commands::Subnet { cidr } => match parse_subnet_text(cidr@) {
            Ok((ip, p)) => Ok(subnet_report_text(ip, p)),
            Err(e) => Err("Hata: "@ + error_text(e)),
        },
    }
}

/// Appends a report line.
fn push_line(out: &mut String, label: &str, value: &str)
    ensures
        final(out)@ == old(out)@ + report_line(label@, value@),
{
    push_str(out, label);
    push_str(out, value);
    push_str(out, "\n");
    proof {
        assert(out@ =~= old(out)@ + report_line(label@, value@));
    }
}

/// The report of a subnet: address and prefix, mask, network, broadcast,
/// host range and host count, one per line.
pub fn subnet_report(net: &Subnet) -> (r: String)
    ensures
        r@ == subnet_report_text(net@.0, net@.1),
{
    let mut input = net.ip().to_string();
    push_str(&mut input, "/");
    push_decimal(&mut input, net.prefix() as u64);
    let mask = net.mask().to_string();
    let network = net.network().to_string();
    let broadcast = net.broadcast().to_string();
    let mut count = String::new();
    push_decimal(&mut count, net.usable_hosts());
    let mut out = String::new();
    push_line(&mut out, "Input        : ", input.as_str());
    let ghost o1 = out@;
    push_line(&mut out, "Subnet maske : ", mask.as_str());
    push_line(&mut out, "Network      : ", network.as_str());
    push_line(&mut out, "Broadcast    : ", broadcast.as_str());
    let ghost o4 = out@;
    match (net.first_host(), net.last_host()) {
        (Some(ilk), Some(son)) => {
            let f = ilk.to_string();
            let l = son.to_string();
            push_line(&mut out, "Ilk host     : ", f.as_str());
            push_line(&mut out, "Son host     : ", l.as_str());
        },
        _ => {
            push_str(&mut out, "Ilk/Son host : (bu prefix icin kullanilabilir aralik yok)\n");
        },
    }
    proof {
        assert(out@ =~= o4 + host_range_text(net@.0, net@.1));
    }
    push_line(&mut out, "Host sayisi  : ", count.as_str());
    proof {
        assert(Seq::<char>::empty() + decimal(usable_hosts_of(net@.1)) =~= decimal(
            usable_hosts_of(net@.1),
        ));
        assert(out@ =~= subnet_report_text(net@.0, net@.1));
    }
    out
}

/// Runs a command: the text to print, or the error line to print before
/// exiting with status 1.
pub fn run_command(cmd: &Commands) -> (r: Result<String, String>)
    ensures
        match r {
            Ok(s) => command_output(*cmd) == Ok::<Seq<char>, Seq<char>>(s@),
            Err(s) => command_output(*cmd) == Err::<Seq<char>, Seq<char>>(s@),
        },
{
    match cmd {
        Commands::Subnet { cidr } => match Subnet::parse(cidr.as_str()) {
            Ok(net) => Ok(subnet_report(&net)),
            Err(e) => {
                let mut m = "Hata: ".to_owned();
                let t = e.message();
                push_str(&mut m, t.as_str());
                Err(m)
            },
        },
    }
}

} // verus!
