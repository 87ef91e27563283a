use oxidenms::network::compliance::fleet_posture;
use oxidenms::report::fleet_markdown_report;
use oxidenms::network::security::{audit, Finding, FindingCode, Level};
use oxidenms::report::{security_csv_report, security_markdown_report};

#[test]
fn markdown_report_contains_findings() {
    let findings = audit("line vty 0 4\n transport input telnet\n password cisco\n");
    let report = security_markdown_report("unit-test", &findings);
    assert!(report.contains("OxideNMS Security Audit Report"));
    assert!(report.contains("telnet_enabled"));
}

#[test]
fn markdown_report_has_executive_summary_and_score() {
    let findings = audit("ip ssh version 1\n");
    let report = security_markdown_report("unit-test", &findings);
    assert!(report.contains("Executive Summary"));
    assert!(report.contains("Security posture score"));
    assert!(report.contains("Remediation"));
    assert!(report.contains("CIS IOS"));
}

#[test]
fn markdown_report_clean_config_score_100() {
    let report = security_markdown_report("unit-test", &[]);
    assert!(report.contains("100 / 100 (grade A)"));
    assert!(report.contains("No security issues found"));
}

#[test]
fn csv_report_escapes_detail() {
    let findings = vec![Finding {
        level: Level::Critical,
        code: FindingCode::WeakPassword,
        line: Some(7),
        detail: Some("username admin password \"cisco\"".to_string()),
    }];
    let report = security_csv_report(&findings);
    assert!(report.contains("\"username admin password \"\"cisco\"\"\""));
}

#[test]
fn fleet_report_lists_devices_by_risk() {
    let fleet = fleet_posture(&[
        ("ok|sw".to_string(), "hostname A\n".to_string()),
        (
            "risky".to_string(),
            "line vty 0 4\n transport input telnet\n login\n".to_string(),
        ),
    ]);
    let report = fleet_markdown_report(&fleet);
    assert!(report.starts_with("# OxideNMS Fleet Compliance Report\n\n## Fleet Summary\n\n"));
    assert!(report.contains("- Devices audited: 2\n"));
    let risky = report.find("| risky |").unwrap();
    let ok = report.find("| ok\\|sw |").unwrap();
    assert!(risky < ok);
}

#[test]
fn empty_fleet_report() {
    let report = fleet_markdown_report(&fleet_posture(&[]));
    assert!(report.contains("- **Average posture score: 100 / 100 (grade A)**\n"));
    assert!(report.ends_with("No device configurations available to audit.\n"));
}

#[test]
fn level_ranks() {
    assert_eq!(Level::Critical.sira(), 0);
    assert_eq!(Level::Warning.sira(), 1);
    assert_eq!(Level::Info.sira(), 2);
}
