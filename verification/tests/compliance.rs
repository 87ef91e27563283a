use oxidenms::network::compliance::{fleet_posture, fleet_posture_checked};
use oxidenms::tools::compliance::{audited_status, device_read_failed, display_rows, DB_FAILED_MESSAGE};

#[test]
fn bos_filo_ortalama_100() {
    let f = fleet_posture(&[]);
    assert_eq!(f.average_score, 100);
    assert_eq!(f.device_count(), 0);
    assert_eq!(f.grade(), "A");
}

#[test]
fn karisik_filo_ortalama_ve_toplam() {
    let temiz = "\
hostname CLEAN
aaa new-model
service password-encryption
enable secret 9 $9$abc
ip ssh version 2
logging host 192.0.2.5
banner login ^C hi ^C
line vty 0 4
 exec-timeout 10 0
 transport input ssh
 login local
"
    .to_string();
    let riskli = "line vty 0 4\n transport input telnet\n login\n".to_string();

    let f = fleet_posture(&[
        ("clean-sw".to_string(), temiz),
        ("risky-sw".to_string(), riskli),
    ]);

    assert_eq!(f.device_count(), 2);
    assert!(f.average_score < 100);
    assert!(f.total_critical >= 1);
    assert_eq!(f.sorted_by_risk()[0].device, "risky-sw");
}

#[test]
fn checked_fleet_posture_matches_unchecked() {
    let configs = vec![
        ("r1".to_string(), "service password-encryption\nenable secret 9 x\n".to_string()),
        ("r2".to_string(), "line vty 0 4\n transport input telnet\n".to_string()),
    ];
    let a = fleet_posture_checked(&configs).expect("small fleet");
    let b = fleet_posture(&configs);
    assert_eq!(a.average_score, b.average_score);
    assert_eq!(a.total_critical, b.total_critical);
    assert_eq!(a.total_warning, b.total_warning);
    assert_eq!(a.total_info, b.total_info);
    assert_eq!(a.devices.len(), 2);
    let empty = fleet_posture_checked(&[]).expect("empty fleet");
    assert_eq!(empty.average_score, 100);
}

#[test]
fn compliance_table_puts_riskiest_first() {
    let configs = vec![
        ("clean".to_string(), "service password-encryption\nenable secret 9 x\naaa new-model\nlogging host 10.0.0.9\nbanner motd ^C hi ^C\n".to_string()),
        ("open".to_string(), "line vty 0 4\n transport input telnet\nsnmp-server community public RO\n".to_string()),
        ("same".to_string(), "service password-encryption\nenable secret 9 x\naaa new-model\nlogging host 10.0.0.9\nbanner motd ^C hi ^C\n".to_string()),
    ];
    let fleet = fleet_posture(&configs);
    let ips = vec!["10.0.0.1".to_string(), "10.0.0.2".to_string()];
    let rows = display_rows(&fleet, &ips);
    assert_eq!(rows.len(), 3);
    assert_eq!(rows[0].name, "open");
    assert_eq!(rows[0].ip, "10.0.0.2");
    assert_eq!(rows[1].name, "clean");
    assert_eq!(rows[1].ip, "10.0.0.1");
    assert_eq!(rows[2].name, "same");
    assert_eq!(rows[2].ip, "");
    assert!(rows[0].score < rows[1].score);
    assert_eq!(rows[1].score, rows[2].score);
    assert_eq!(rows[0].critical, fleet.devices[1].summary.critical);
}

#[test]
fn compliance_status_lines() {
    assert_eq!(
        audited_status(0),
        "No stored device configurations found. Use Backup to store configs first."
    );
    assert_eq!(audited_status(3), "3 device(s) audited.");
    assert_eq!(device_read_failed("locked"), "Device read failed: locked");
    assert_eq!(DB_FAILED_MESSAGE, "Database connection failed.");
}
