//! Scheduled configuration backups: the decisions of the backup loop.
//!
//! The loop itself (a thread that reads the devices, fetches each running
//! configuration over SSH, stores it, then sleeps) is the caller's I/O;
//! what it starts, records and reports is decided here.

use vstd::prelude::*;

use crate::text::{push_signed, push_str, signed_decimal};

verus! {

/// The job kind of a scheduled backup.
pub const BACKUP_JOB_KIND: &'static str = "backup.running_config";

/// The details stored with a queued backup job.
pub const BACKUP_JOB_DETAILS: &'static str = "Scheduled running-config backup";

/// The device name of a backup log entry about the vault.
pub const VAULT_LOG_DEVICE: &'static str = "Vault";

/// Whether the vault check unlocks the backup tool, and the status of the
/// log entry to add when it does not (the check's error).
pub fn backup_unlock(vault: Result<(), String>) -> (r: (bool, Option<String>))
    ensures
        r.0 == vault is Ok,
        match vault {
            Ok(()) => r.1 is None,
            Err(e) => r.1 == Some(e),
        },
{
    match vault {
        Ok(()) => (true, None),
        Err(e) => (false, Some(e)),
    }
}

/// How a backup job ended.
#[derive(Debug, Clone, Copy, PartialEq, Eq, Structural)]
pub enum JobStatus {
    Succeeded,
    Failed,
}

/// What the loop records for one device: the job target, how the job
/// ended, the audit status, and the log entry's device and text.
#[derive(Debug, Clone)]
pub struct BackupOutcome {
    pub target: String,
    pub job_status: JobStatus,
    pub audit_status: String,
    pub log_device: String,
    pub log_status: String,
}

/// How far a backup of one device got.
#[derive(Debug, Clone, PartialEq, Eq)]
pub enum BackupStage {
    /// The stored credential did not decrypt under the master password.
    DecryptFailed,
    /// No SSH session could be opened.
    ConnectFailed,
    /// No exec channel could be opened.
    ExecFailed,
    /// `show running-config` failed.
    CommandFailed,
    /// The database could not be opened.
    DatabaseFailed,
    /// Storing the snapshot failed, with the database's message.
    SaveFailed(String),
    /// The snapshot was stored.
    Saved,
}

/// Starts the loop unless one runs: the running flag is set either way, and
/// a new loop is spawned only when none was running.
pub fn backup_start(running: bool) -> (r: (bool, bool))
    ensures
        r.0,
        r.1 == !running,
{
    (true, !running)
}

/// The job target of a device named `name` at `ip`.
pub fn backup_target(name: &str, ip: &str) -> (r: String)
    ensures
        r@ == name@ + " ("@ + ip@ + ")"@,
{
    let mut target = name.to_owned();
    push_str(&mut target, " (");
    push_str(&mut target, ip);
    push_str(&mut target, ")");
    target
}

/// What the loop records for a device named `name` at `ip`, given whether
/// its backup went well and its message.
pub fn backup_outcome(name: &str, ip: &str, ok: bool, msg: &str) -> (r: BackupOutcome)
    ensures
        r.target@ == name@ + " ("@ + ip@ + ")"@,
        r.job_status == (if ok {
            JobStatus::Succeeded
        } else {
            JobStatus::Failed
        }),
        r.audit_status@ == (if ok {
            "success"@
        } else {
            "failed"@
        }),
        r.log_device@ == name@,
        r.log_status@ == msg@,
{
    BackupOutcome {
        target: backup_target(name, ip),
        job_status: if ok {
            JobStatus::Succeeded
        } else {
            JobStatus::Failed
        },
        audit_status: if ok {
            "success".to_owned()
        } else {
            "failed".to_owned()
        },
        log_device: name.to_owned(),
        log_status: msg.to_owned(),
    }
}

/// The pause between two rounds, in seconds, for an interval in hours.
pub fn backup_pause_secs(h: u64) -> (r: u64)
    requires
        h * 3600 <= u64::MAX,
    ensures
        r == h * 3600,
{
    h * 3600
}

/// Whether a backup went well, and its message, for the stage it reached
/// (with the stored snapshot's identifier once saved).
pub open spec fn backup_result(stage: BackupStage, snapshot: Option<i64>) -> (bool, Seq<char>) {
    match stage {
        BackupStage::DecryptFailed => (false, "Password decrypt failed"@),
        BackupStage::ConnectFailed => (false, "SSH connection failed"@),
        BackupStage::ExecFailed => (false, "Exec channel failed"@),
        BackupStage::CommandFailed => (false, "Command failed"@),
        BackupStage::DatabaseFailed => (false, "Database connection failed"@),
        BackupStage::SaveFailed(e) => (false, "Config save failed: "@ + e@),
        BackupStage::Saved => (
            true,
            "Backup successful; snapshot #"@ + signed_decimal(snapshot->0 as int),
        ),
    }
}

/// Whether a backup went well, and its message.
pub fn backup_result_text(stage: BackupStage, snapshot: Option<i64>) -> (r: (bool, String))
    requires
        stage is Saved ==> snapshot is Some,
    ensures
        (r.0, r.1@) == backup_result(stage, snapshot),
{
    match stage {
        BackupStage::DecryptFailed => (false, "Password decrypt failed".to_owned()),
        BackupStage::ConnectFailed => (false, "SSH connection failed".to_owned()),
        BackupStage::ExecFailed => (false, "Exec channel failed".to_owned()),
        BackupStage::CommandFailed => (false, "Command failed".to_owned()),
        BackupStage::DatabaseFailed => (false, "Database connection failed".to_owned()),
        BackupStage::SaveFailed(e) => {
            let mut m = "Config save failed: ".to_owned();
            push_str(&mut m, e.as_str());
            (false, m)
        },
        BackupStage::Saved => {
            let id = match snapshot {
                Some(id) => id,
                None => 0,
            };
            let mut m = "Backup successful; snapshot #".to_owned();
            push_signed(&mut m, id);
            (true, m)
        },
    }
}

} // verus!
