use oxidenms::error::NetworkError;
use oxidenms::network::discovery::{scan_range, DiscoveryProbe, MAX_DISCOVERY_HOSTS};
use oxidenms::network::ipv4::Ipv4Addr;
use oxidenms::tools::discovery::{add_message, candidate_of, scan_timeout_ms, AddStep, DISCOVERED_TAG, DISCOVERY_AUDIT_ACTION};
use oxidenms::tools::firmware::append_firmware_log;

#[test]
fn service_summary_is_stable() {
    let probe = DiscoveryProbe {
        ip: Ipv4Addr::new(192, 0, 2, 1),
        ssh_open: true,
        snmp_open: false,
    };
    assert_eq!(probe.service_summary(), "SSH");
    assert!(probe.is_candidate());
}

#[test]
fn invalid_cidr_returns_error() {
    assert!(scan_range("not-a-cidr").is_err());
}

#[test]
fn service_summary_of_every_combination() {
    let ip = Ipv4Addr::new(10, 0, 0, 1);
    let p = |ssh, snmp| DiscoveryProbe { ip, ssh_open: ssh, snmp_open: snmp };
    assert_eq!(p(true, true).service_summary(), "SSH,SNMP");
    assert_eq!(p(false, true).service_summary(), "SNMP");
    assert_eq!(p(false, false).service_summary(), "-");
    assert!(!p(false, false).is_candidate());
    assert!(p(false, true).is_candidate());
}

#[test]
fn scan_range_covers_usable_hosts() {
    let r = scan_range("192.168.1.0/24").unwrap();
    assert_eq!(r.start, Ipv4Addr::new(192, 168, 1, 1).to_bits());
    assert_eq!(r.end, Ipv4Addr::new(192, 168, 1, 254).to_bits());
}

#[test]
fn scan_range_is_capped() {
    let r = scan_range("10.0.0.0/16").unwrap();
    assert_eq!(r.start, Ipv4Addr::new(10, 0, 0, 1).to_bits());
    assert_eq!((r.end - r.start) as u64 + 1, MAX_DISCOVERY_HOSTS);
}

#[test]
fn scan_range_of_single_host() {
    let r = scan_range("10.1.2.3/32").unwrap();
    assert_eq!(r.start, r.end);
    assert_eq!(r.start, Ipv4Addr::new(10, 1, 2, 3).to_bits());
}

#[test]
fn scan_range_reports_prefix_error() {
    assert_eq!(scan_range("10.0.0.0/40").unwrap_err(), NetworkError::PrefixOutOfRange(40));
}

#[test]
fn scan_range_of_point_to_point_link() {
    let r = scan_range("10.0.0.1/31").unwrap();
    assert_eq!(r.start, Ipv4Addr::new(10, 0, 0, 0).to_bits());
    assert_eq!(r.end, Ipv4Addr::new(10, 0, 0, 1).to_bits());
}

#[test]
fn discovered_candidate_is_named_by_address() {
    let probe = DiscoveryProbe { ip: Ipv4Addr::new(10, 1, 2, 3), ssh_open: true, snmp_open: true };
    let c = candidate_of(&probe);
    assert_eq!(c.ip, "10.1.2.3");
    assert_eq!(c.name, "Discovered-10.1.2.3");
    assert_eq!(c.details, "SSH,SNMP");
    assert_eq!(DISCOVERED_TAG, "discovered");
    assert_eq!(DISCOVERY_AUDIT_ACTION, "discovery.add_device");
}

#[test]
fn discovery_add_messages_and_timeout() {
    assert_eq!(add_message("10.1.2.3", AddStep::Added), "10.1.2.3 added to inventory.");
    assert_eq!(add_message("x", AddStep::SaveFailed("busy".to_string())), "Save failed: busy");
    assert_eq!(add_message("x", AddStep::DatabaseFailed("gone".to_string())), "Database failed: gone");
    assert_eq!(scan_timeout_ms(10), 50);
    assert_eq!(scan_timeout_ms(300), 300);
    assert_eq!(scan_timeout_ms(9000), 3000);
}

#[test]
fn firmware_log_lines() {
    let mut logs = String::from("start");
    append_firmware_log(&mut logs, "192.168.1.10", "192.168.1.100", "ios.bin");
    assert_eq!(
        logs,
        "start\n[INFO] Connecting to target 192.168.1.10...\n\
         [COMMAND] copy tftp://192.168.1.100/ios.bin flash:\n\
         [SIMULATION] Checking device flash storage...\n\
         [SIMULATION] File transfer started... (normally this takes 10-15 minutes)\n\
         [SUCCESS] Firmware transfer completed. Setting boot variable...\n\
         [COMMAND] boot system flash:/ios.bin\n\
         [INFO] Ready for reload.\n"
    );
}
