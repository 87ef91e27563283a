use oxidenms::cli::{run_command, Commands};
use oxidenms::db::{attempt_limit, empty_to_none};
use oxidenms::settings::{AppSettings, Theme};
use oxidenms::i18n::Language;
use oxidenms::update::DEFAULT_MANIFEST_URL;
use oxidenms::shell::{after_event, diff_tool_position, screen_for, update_state_of, Screen, UpdateState, DIFF_TOOL_ID};
use oxidenms::tools::ToolEvent;
use oxidenms::update::{UpdateStatus, VersionManifest};

#[test]
fn subnet_command_report() {
    let out = run_command(&Commands::Subnet { cidr: "192.168.1.10/24".to_string() }).unwrap();
    assert_eq!(
        out,
        "Input        : 192.168.1.10/24\nSubnet maske : 255.255.255.0\nNetwork      : 192.168.1.0\nBroadcast    : 192.168.1.255\nIlk host     : 192.168.1.1\nSon host     : 192.168.1.254\nHost sayisi  : 254\n"
    );
}

#[test]
fn subnet_command_report_without_host_range() {
    let out = run_command(&Commands::Subnet { cidr: "10.0.0.1/31".to_string() }).unwrap();
    assert_eq!(
        out,
        "Input        : 10.0.0.1/31\nSubnet maske : 255.255.255.254\nNetwork      : 10.0.0.0\nBroadcast    : 10.0.0.1\nIlk/Son host : (bu prefix icin kullanilabilir aralik yok)\nHost sayisi  : 2\n"
    );
}

#[test]
fn subnet_command_error() {
    let err = run_command(&Commands::Subnet { cidr: "10.0.0.1".to_string() }).unwrap_err();
    assert_eq!(err, "Hata: Input 'ip/prefix' biciminde olmali, orn: 192.168.1.10/24");
}

#[test]
fn default_settings() {
    let s = AppSettings::default();
    assert_eq!(s.manifest_url, DEFAULT_MANIFEST_URL);
    assert_eq!(s.tema, Theme::Koyu);
    assert_eq!(s.dil, Language::Turkish);
    assert_eq!(Theme::default(), Theme::Koyu);
}

#[test]
fn manifest_override() {
    let s = AppSettings::default();
    assert_eq!(s.effective_manifest_url(Some("http://x".to_string())), "http://x");
    assert_eq!(s.effective_manifest_url(None), DEFAULT_MANIFEST_URL);
    let mut edited = AppSettings::default();
    edited.manifest_url = "http://elsewhere".to_string();
    assert_eq!(edited.effective_manifest_url(None), DEFAULT_MANIFEST_URL);
}

#[test]
fn blank_details_are_dropped() {
    assert_eq!(empty_to_none("   "), None);
    assert_eq!(empty_to_none("  ok \n"), Some("ok".to_string()));
    assert_eq!(attempt_limit(0), 1);
    assert_eq!(attempt_limit(3), 3);
}

fn manifest_for_shell() -> VersionManifest {
    VersionManifest {
        latest_version: "1.2.0".to_string(),
        minimum_version: "1.1.0".to_string(),
        download_url: "https://example.invalid/setup.exe".to_string(),
        notes: None,
    }
}

#[test]
fn shell_screen_follows_update_check() {
    assert!(matches!(screen_for(UpdateState::Checking), Screen::Waiting));
    match screen_for(update_state_of(Ok(UpdateStatus::Mandatory(manifest_for_shell())))) {
        Screen::Locked(m) => assert_eq!(m.minimum_version, "1.1.0"),
        other => panic!("mandatory update must lock, got {:?}", other),
    }
    match screen_for(update_state_of(Ok(UpdateStatus::Optional(manifest_for_shell())))) {
        Screen::Main { optional: Some(m), failure: None } => assert_eq!(m.latest_version, "1.2.0"),
        other => panic!("optional update shows the tools, got {:?}", other),
    }
    assert!(matches!(
        screen_for(update_state_of(Ok(UpdateStatus::UpToDate))),
        Screen::Main { optional: None, failure: None }
    ));
    match screen_for(update_state_of(Err("timeout".to_string()))) {
        Screen::Main { optional: None, failure: Some(e) } => assert_eq!(e, "timeout"),
        other => panic!("a failed check does not lock, got {:?}", other),
    }
}

#[test]
fn shell_events_change_selection_and_language() {
    let ids: Vec<String> = ["dashboard", "diff", "ssh"].iter().map(|s| s.to_string()).collect();
    assert_eq!(diff_tool_position(&ids), Some(1));
    assert_eq!(diff_tool_position(&vec!["ssh".to_string()]), None);
    let ev = ToolEvent::SwitchToDiff { old_config: "a".to_string(), new_config: "b".to_string() };
    assert_eq!(after_event(2, Language::Turkish, Some(1), &ev), (1, Language::Turkish));
    assert_eq!(after_event(2, Language::Turkish, None, &ev), (2, Language::Turkish));
    let ev = ToolEvent::LanguageSelected(Language::German);
    assert_eq!(after_event(5, Language::Turkish, Some(1), &ev), (5, Language::German));
    assert_eq!(DIFF_TOOL_ID, "diff");
}
