use oxidenms::tools::backup::{backup_unlock, VAULT_LOG_DEVICE};
use oxidenms::tools::config_history::{compare_latest_two, COMPARE_AUDIT_ACTION};
use oxidenms::tools::dashboard::{status_note, status_note_text, StatusNote};
use oxidenms::tools::device_manager::{unlock_message, VAULT_VERIFIED_MESSAGE};
use oxidenms::tools::syslog::{bind_address, listening_message, port_error_message, STOPPED_MESSAGE};
use oxidenms::tools::snmp_map::{node_position, poll_start, record_poll, sys_descr_oid, Node, POLL_PAUSE_SECS};
use oxidenms::crypto::decrypt_credential;
use oxidenms::i18n::{t, Language, Message};
use oxidenms::tools::device_manager::{
    delete_audit_target, device_credential, save_message, DeviceForm, DELETED_MESSAGE,
    REQUIRED_FIELDS_MESSAGE,
};
use oxidenms::tools::bulk_deploy::{
    decide_deploy, deploy_audit_status, deploy_result_text, record_deploy_result, selected_of,
    start_deploy, unlock_allowed, DeployDecision, DeployStage, DeviceData, DEPLOY_AUDIT_ACTION,
    SENDING_STATUS,
};
use oxidenms::tools::ssh::{previous_config, save_device_id, save_result, SaveStep, SAVED_MESSAGE};
use oxidenms::tools::ToolEvent;
use oxidenms::tools::backup::{
    backup_outcome, backup_pause_secs, backup_result_text, backup_start, backup_target, BackupStage,
    JobStatus,
    BACKUP_JOB_DETAILS, BACKUP_JOB_KIND,
};
use oxidenms::db::SyslogEvent;
use oxidenms::tools::audit_log::{csv_export, AuditRow};
use oxidenms::tools::config_history::{ConfigHistoryTool, DeviceSummary};
use oxidenms::tools::syslog::{csv_cell, events_to_csv, parse_syslog};
use oxidenms::tools::topology::TopologyTool;
use oxidenms::tools::vlan::{Department, VlanTool};

#[test]
fn syslog_priority_gives_severity() {
    let (sev, body) = parse_syslog("<179>%LINK-3-UPDOWN: Interface Gi1 changed state to down ");
    assert_eq!(sev, "ERR");
    assert_eq!(body, "%LINK-3-UPDOWN: Interface Gi1 changed state to down");
    let (sev, body) = parse_syslog("<190>Configured from console");
    assert_eq!(sev, "INFO");
    assert_eq!(body, "Configured from console");
    let (sev, _) = parse_syslog("<0>x");
    assert_eq!(sev, "EMERG");
    let (sev, _) = parse_syslog("<7>x");
    assert_eq!(sev, "DEBUG");
}

#[test]
fn syslog_without_priority_is_info() {
    assert_eq!(parse_syslog("plain text"), ("INFO".to_string(), "plain text".to_string()));
    assert_eq!(parse_syslog("<abc> body"), ("INFO".to_string(), "body".to_string()));
    assert_eq!(parse_syslog("<12 no close"), ("INFO".to_string(), "<12 no close".to_string()));
    assert_eq!(parse_syslog("<999>big"), ("INFO".to_string(), "big".to_string()));
}

#[test]
fn syslog_csv() {
    assert_eq!(csv_cell("a\"b"), "\"a\"\"b\"");
    let e = SyslogEvent {
        id: -3,
        received_at: "t".to_string(),
        source_ip: "192.0.2.1".to_string(),
        severity: "ERR".to_string(),
        message: "m".to_string(),
        raw_message: "<3>m".to_string(),
    };
    assert_eq!(
        events_to_csv(&[e]),
        "id,received_at,source_ip,severity,message,raw_message\r\n-3,\"t\",\"192.0.2.1\",\"ERR\",\"m\",\"<3>m\"\r\n"
    );
}

#[test]
fn audit_csv_quotes_when_needed() {
    let row = AuditRow {
        occurred_at: "2024-01-01".to_string(),
        action: "device.add".to_string(),
        target: "R1, core".to_string(),
        status: "ok".to_string(),
        details: "said \"hi\"".to_string(),
    };
    assert_eq!(
        csv_export(&[row]),
        "occurred_at,action,target,status,details\n2024-01-01,device.add,\"R1, core\",ok,\"said \"\"hi\"\"\"\n"
    );
}

#[test]
fn selected_device_caption() {
    let dev = |id: i64, name: &str| DeviceSummary {
        id,
        name: name.to_string(),
        ip_address: format!("10.0.0.{id}"),
        backup_count: 0,
        last_backup: String::new(),
    };
    let mut tool = ConfigHistoryTool {
        devices: vec![dev(1, "R1"), dev(2, "R2")],
        selected_device: Some(2),
        status: String::new(),
    };
    assert_eq!(tool.selected_device_name(), "R2 (10.0.0.2)");
    tool.selected_device = Some(9);
    assert_eq!(tool.selected_device_name(), "No device selected");
    tool.selected_device = None;
    assert_eq!(tool.selected_device_name(), "No device selected");
}

#[test]
fn topology_reads_interfaces() {
    let mut tool = TopologyTool::default();
    tool.config_input = "hostname R1\ninterface Gi0/1\n ip address 10.0.0.1 255.255.255.0\n shutdown\n!\ninterface Gi0/2\n switchport mode access\n switchport access vlan 20\ninterface Gi0/3\n".to_string();
    tool.parse_config();
    assert_eq!(tool.interfaces.len(), 3);
    assert_eq!(tool.interfaces[0].name, "Gi0/1");
    assert_eq!(tool.interfaces[0].ip, "10.0.0.1 255.255.255.0");
    assert!(tool.interfaces[0].shutdown);
    assert_eq!(tool.interfaces[1].vlan, "20");
    assert_eq!(tool.interfaces[1].mode, "access");
    assert!(!tool.interfaces[1].shutdown);
    assert_eq!(tool.interfaces[2].name, "Gi0/3");
}

#[test]
fn topology_unindented_line_ends_interface() {
    let mut tool = TopologyTool::default();
    tool.config_input = "interface Gi0/1\nip address 1.1.1.1 255.0.0.0\n shutdown\n".to_string();
    tool.parse_config();
    assert_eq!(tool.interfaces.len(), 1);
    assert_eq!(tool.interfaces[0].ip, "");
    assert!(!tool.interfaces[0].shutdown);
}

#[test]
fn vlan_default_plan() {
    let mut tool = VlanTool::default();
    assert!(tool.can_generate());
    tool.generate_config();
    assert_eq!(
        tool.result_config,
        "! Department: IT\nvlan 10\n name IT\ninterface Vlan10\n description IT\n ip address 10.0.0.1 255.255.255.192\n no shutdown\n\n"
    );
}

#[test]
fn vlan_largest_department_first_and_aligned() {
    let mut tool = VlanTool {
        network_prefix: "192.168.0.0/16".to_string(),
        departments: vec![
            Department { name: "HR".to_string(), vlan_id: "20".to_string(), hosts: "10".to_string() },
            Department { name: "ENG".to_string(), vlan_id: "30".to_string(), hosts: "100".to_string() },
            Department { name: "X".to_string(), vlan_id: "".to_string(), hosts: "5".to_string() },
            Department { name: "OPS".to_string(), vlan_id: "40".to_string(), hosts: "abc".to_string() },
        ],
        result_config: String::new(),
    };
    tool.generate_config();
    let out = &tool.result_config;
    let eng = out.find("Department: ENG").unwrap();
    let hr = out.find("Department: HR").unwrap();
    assert!(eng < hr);
    assert!(out.contains(" ip address 192.168.0.1 255.255.255.128\n"));
    assert!(out.contains(" ip address 192.168.0.129 255.255.255.240\n"));
    assert!(!out.contains("OPS"));
    assert!(!out.contains("Department: X"));
}

#[test]
fn vlan_invalid_main_network() {
    let mut tool = VlanTool::default();
    tool.network_prefix = "bad".to_string();
    tool.generate_config();
    assert_eq!(tool.result_config, "Geçersiz Ana Ağ CIDR formatı!");
}

#[test]
fn vlan_overflow_is_detected() {
    let tool = VlanTool {
        network_prefix: "255.255.255.0/24".to_string(),
        departments: vec![
            Department { name: "A".to_string(), vlan_id: "1".to_string(), hosts: "100".to_string() },
            Department { name: "B".to_string(), vlan_id: "2".to_string(), hosts: "100".to_string() },
        ],
        result_config: String::new(),
    };
    assert!(!tool.can_generate());
}

#[test]
fn backup_start_spawns_only_once() {
    assert_eq!(backup_start(false), (true, true));
    assert_eq!(backup_start(true), (true, false));
}

#[test]
fn backup_outcome_records_target_and_status() {
    let ok = backup_outcome("core-sw", "10.0.0.1", true, "Backup successful; snapshot #3");
    assert_eq!(ok.target, "core-sw (10.0.0.1)");
    assert_eq!(ok.job_status, JobStatus::Succeeded);
    assert_eq!(ok.audit_status, "success");
    assert_eq!(ok.log_device, "core-sw");
    assert_eq!(ok.log_status, "Backup successful; snapshot #3");
    let bad = backup_outcome("edge", "192.168.1.9", false, "SSH connection failed");
    assert_eq!(bad.target, "edge (192.168.1.9)");
    assert_eq!(bad.job_status, JobStatus::Failed);
    assert_eq!(bad.audit_status, "failed");
    assert_eq!(bad.log_status, "SSH connection failed");
}

#[test]
fn backup_pause_is_hours_in_seconds() {
    assert_eq!(backup_pause_secs(0), 0);
    assert_eq!(backup_pause_secs(2), 7200);
    assert_eq!(backup_pause_secs(24), 86400);
}

#[test]
fn backup_result_messages() {
    assert_eq!(BACKUP_JOB_KIND, "backup.running_config");
    assert_eq!(BACKUP_JOB_DETAILS, "Scheduled running-config backup");
    assert_eq!(
        backup_result_text(BackupStage::Saved, Some(5)),
        (true, "Backup successful; snapshot #5".to_string())
    );
    assert_eq!(
        backup_result_text(BackupStage::SaveFailed("x".to_string()), None),
        (false, "Config save failed: x".to_string())
    );
    assert_eq!(
        backup_result_text(BackupStage::DecryptFailed, None),
        (false, "Password decrypt failed".to_string())
    );
    assert_eq!(
        backup_result_text(BackupStage::ConnectFailed, None),
        (false, "SSH connection failed".to_string())
    );
    assert_eq!(
        backup_result_text(BackupStage::ExecFailed, None),
        (false, "Exec channel failed".to_string())
    );
    assert_eq!(
        backup_result_text(BackupStage::CommandFailed, None),
        (false, "Command failed".to_string())
    );
    assert_eq!(
        backup_result_text(BackupStage::DatabaseFailed, None),
        (false, "Database connection failed".to_string())
    );
}

#[test]
fn backup_target_names_device_and_address() {
    assert_eq!(backup_target("r1", "10.1.1.1"), "r1 (10.1.1.1)");
    assert_eq!(backup_target("", ""), " ()");
}

fn cihaz(name: &str, selected: bool) -> DeviceData {
    DeviceData {
        name: name.to_string(),
        ip: format!("10.0.0.{}", name.len()),
        user: "admin".to_string(),
        enc_cred: "a:b:c".to_string(),
        selected,
        status: None,
    }
}

#[test]
fn bulk_deploy_marks_only_selected_devices() {
    let mut devices = vec![cihaz("a", true), cihaz("bb", false), cihaz("ccc", true)];
    devices[1].status = Some("BAŞARILI".to_string());
    let targets = start_deploy(&mut devices);
    assert_eq!(targets, vec![0, 2]);
    assert_eq!(devices[0].status.as_deref(), Some(SENDING_STATUS));
    assert_eq!(SENDING_STATUS, "Gönderiliyor...");
    assert_eq!(devices[1].status.as_deref(), Some("BAŞARILI"));
    assert_eq!(devices[2].status.as_deref(), Some("Gönderiliyor..."));
    assert_eq!(devices[2].name, "ccc");
    let mut none = vec![cihaz("x", false)];
    assert!(start_deploy(&mut none).is_empty());
    assert_eq!(none[0].status, None);
}

#[test]
fn bulk_deploy_records_result_per_device() {
    let mut devices = vec![cihaz("a", true), cihaz("bb", true)];
    record_deploy_result(&mut devices, 1, deploy_result_text(DeployStage::Sent));
    assert_eq!(devices[1].status.as_deref(), Some("BAŞARILI"));
    assert_eq!(devices[0].status, None);
    record_deploy_result(&mut devices, 5, "x".to_string());
    assert_eq!(devices.len(), 2);
    assert_eq!(devices[0].status, None);
}

#[test]
fn bulk_deploy_status_texts() {
    assert_eq!(deploy_result_text(DeployStage::DecryptFailed), "Şifre Çözme Hatası");
    assert_eq!(deploy_result_text(DeployStage::ConnectFailed), "SSH Bağlantı Hatası");
    assert_eq!(deploy_result_text(DeployStage::ExecFailed("Timeout".to_string())), "Exec Err: Timeout");
    assert_eq!(deploy_result_text(DeployStage::CommandFailed("Eof".to_string())), "Cmd Err: Eof");
    assert_eq!(deploy_result_text(DeployStage::Sent), "BAŞARILI");
    assert!(unlock_allowed("m", &Ok(())));
    assert!(!unlock_allowed("", &Ok(())));
    assert!(!unlock_allowed("wrong", &Err("Master password dogrulanamadi.".to_string())));
}

#[test]
fn ssh_save_switches_to_diff_after_earlier_snapshot() {
    let (msg, ev) = save_result(SaveStep::Saved, "hostname old\n".to_string(), "hostname new\n");
    assert_eq!(msg, "Veritabanına Kaydedildi!");
    assert_eq!(msg, SAVED_MESSAGE);
    match ev {
        Some(ToolEvent::SwitchToDiff { old_config, new_config }) => {
            assert_eq!(old_config, "hostname old\n");
            assert_eq!(new_config, "hostname new\n");
        }
        _ => panic!("expected a switch to the diff tool"),
    }
    let (_, ev) = save_result(SaveStep::Saved, String::new(), "hostname new\n");
    assert!(ev.is_none());
}

#[test]
fn ssh_save_failures_give_messages() {
    let (msg, ev) = save_result(SaveStep::SaveFailed("disk full".to_string()), "old".to_string(), "new");
    assert_eq!(msg, "Kayıt Hatası: disk full");
    assert!(ev.is_none());
    let (msg, ev) = save_result(SaveStep::DatabaseFailed("locked".to_string()), String::new(), "new");
    assert_eq!(msg, "DB Hatası: locked");
    assert!(ev.is_none());
    assert_eq!(save_device_id(Some(7)), 7);
    assert_eq!(save_device_id(None), 1);
    assert_eq!(previous_config(Some("a")), "a");
    assert_eq!(previous_config(None), "");
}

#[test]
fn bulk_deploy_dry_run_and_confirmation() {
    let devices = vec![cihaz("a", false), cihaz("bb", true), cihaz("ccc", true)];
    assert_eq!(selected_of(&devices), vec![1, 2]);
    assert_eq!(decide_deploy(&devices, true, true), DeployDecision::Preview(vec![1, 2]));
    assert_eq!(decide_deploy(&devices, false, false), DeployDecision::AwaitConfirmation(vec![1, 2]));
    assert_eq!(decide_deploy(&devices, false, true), DeployDecision::Send);
    let none = vec![cihaz("a", false)];
    assert_eq!(decide_deploy(&none, false, true), DeployDecision::NothingSelected);
    assert_eq!(decide_deploy(&none, true, false), DeployDecision::NothingSelected);
}

#[test]
fn bulk_deploy_audit_entries() {
    assert_eq!(DEPLOY_AUDIT_ACTION, "bulk_deploy.commands");
    assert_eq!(deploy_audit_status(&DeployStage::Sent), "success");
    assert_eq!(deploy_audit_status(&DeployStage::ConnectFailed), "failed");
    assert_eq!(deploy_audit_status(&DeployStage::CommandFailed("e".to_string())), "failed");
}

#[test]
fn device_form_needs_name_and_address() {
    let mut form = DeviceForm::new();
    form.ip = "10.0.0.1".to_string();
    assert_eq!(device_credential(&form, "master"), Err(REQUIRED_FIELDS_MESSAGE.to_string()));
    assert_eq!(REQUIRED_FIELDS_MESSAGE, "Cihaz adi ve IP zorunludur.");
    form.ip.clear();
    form.name = "r1".to_string();
    assert!(device_credential(&form, "master").is_err());
}

#[test]
fn device_credential_opens_to_password() {
    let mut form = DeviceForm::new();
    form.name = "r1".to_string();
    form.ip = "10.0.0.1".to_string();
    form.pass = "s3cret".to_string();
    let sealed = device_credential(&form, "master").expect("sealed");
    assert_ne!(sealed, "s3cret");
    assert_eq!(decrypt_credential(&sealed, "master"), Ok("s3cret".to_string()));
}

#[test]
fn device_manager_messages() {
    assert_eq!(save_message(Language::Turkish, Ok(())), t(Language::Turkish, Message::DeviceSaved));
    assert_eq!(save_message(Language::English, Err("UNIQUE".to_string())), "Kayit hatasi: UNIQUE");
    assert_eq!(delete_audit_target(42), "42");
    assert_eq!(delete_audit_target(-3), "-3");
    assert_eq!(DELETED_MESSAGE, "Cihaz silindi.");
}

#[test]
fn snmp_map_layout_and_polling() {
    assert_eq!(node_position(0), (100, 100));
    assert_eq!(node_position(3), (550, 100));
    assert_eq!(node_position(4), (100, 250));
    assert_eq!(node_position(9), (250, 400));
    assert_eq!(sys_descr_oid(), vec![1, 3, 6, 1, 2, 1, 1, 1, 0]);
    assert_eq!(poll_start(false), (true, true));
    assert_eq!(poll_start(true), (true, false));
    assert_eq!(POLL_PAUSE_SECS, 10);
    let node = |id: i32| Node {
        id,
        name: format!("n{id}"),
        ip: format!("10.0.0.{id}"),
        is_up: false,
        sys_descr: String::new(),
    };
    let mut nodes = vec![node(1), node(2)];
    record_poll(&mut nodes, 1, true, "Cisco IOS".to_string());
    assert!(nodes[1].is_up);
    assert_eq!(nodes[1].sys_descr, "Cisco IOS");
    assert!(!nodes[0].is_up);
    record_poll(&mut nodes, 7, true, "x".to_string());
    assert_eq!(nodes.len(), 2);
}

#[test]
fn syslog_listener_texts() {
    assert_eq!(bind_address(514), "0.0.0.0:514");
    assert_eq!(listening_message(5140), "Listening on port 5140...");
    assert_eq!(
        port_error_message("denied"),
        "Port error (administrator rights may be required): denied"
    );
    assert_eq!(STOPPED_MESSAGE, "Stopped");
}

#[test]
fn vault_check_decides_unlock() {
    assert_eq!(unlock_message(Ok(())), (true, "Vault dogrulandi.".to_string()));
    assert_eq!(VAULT_VERIFIED_MESSAGE, "Vault dogrulandi.");
    assert_eq!(unlock_message(Err("bad".to_string())), (false, "bad".to_string()));
    assert_eq!(backup_unlock(Ok(())), (true, None));
    assert_eq!(backup_unlock(Err("bad".to_string())), (false, Some("bad".to_string())));
    assert_eq!(VAULT_LOG_DEVICE, "Vault");
}

#[test]
fn history_compares_two_newest_snapshots() {
    assert!(compare_latest_two(&vec![]).is_none());
    assert!(compare_latest_two(&vec!["only".to_string()]).is_none());
    let snaps = vec!["newest".to_string(), "previous".to_string(), "oldest".to_string()];
    match compare_latest_two(&snaps) {
        Some(ToolEvent::SwitchToDiff { old_config, new_config }) => {
            assert_eq!(old_config, "previous");
            assert_eq!(new_config, "newest");
        }
        _ => panic!("expected a comparison"),
    }
    assert_eq!(COMPARE_AUDIT_ACTION, "config.compare");
}

#[test]
fn dashboard_status_note() {
    assert_eq!(status_note(0, 0), StatusNote::NoDevices);
    assert_eq!(status_note(3, 2), StatusNote::SomeWithoutBackup);
    assert_eq!(status_note(3, 3), StatusNote::AllBackedUp);
    assert_eq!(
        status_note_text(Language::English, StatusNote::NoDevices),
        ("No devices yet. Start by adding devices in Device Manager.", true)
    );
    assert_eq!(
        status_note_text(Language::Turkish, StatusNote::AllBackedUp),
        ("Envanterdeki cihazlar icin konfigurasyon gecmisi mevcut.", false)
    );
}
