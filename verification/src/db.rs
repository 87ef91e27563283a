//! The records the application keeps in its database, and the decisions
//! around the credential vault. Reading and writing the database is the
//! caller's I/O.

use vstd::prelude::*;

use vstd::utf8::{encode_utf8, is_ascii_chars, is_ascii_chars_encode_utf8};

use crate::crypto::{
    decrypt_credential, decryption_of, encrypt_credential, encryption_of, text_result,
    MAX_PLAINTEXT_LEN, NONCE_LEN, SALT_LEN,
};
use crate::text::{chars_of, string_of, trim, trim_chars};

verus! {

/// A managed device.
#[derive(Debug, Clone)]
pub struct Device {
    pub id: i64,
    pub name: String,
    pub ip_address: String,
    pub created_at: String,
}

/// A saved running-configuration snapshot of a device.
#[derive(Debug, Clone)]
pub struct ConfigHistory {
    pub id: i64,
    pub device_id: i64,
    pub config_text: String,
    pub recorded_at: String,
}

/// One point of the compliance trend: a fleet score and its finding counts.
#[derive(Debug, Clone)]
pub struct ScorePoint {
    pub recorded_at: String,
    pub score: i64,
    pub critical: i64,
    pub warning: i64,
    pub info: i64,
}

/// A received syslog message.
#[derive(Debug, Clone, PartialEq, Eq)]
pub struct SyslogEvent {
    pub id: i64,
    pub received_at: String,
    pub source_ip: String,
    pub severity: String,
    pub message: String,
    pub raw_message: String,
}

/// A queued or finished background operation.
#[derive(Debug, Clone, PartialEq, Eq)]
pub struct OperationJob {
    pub id: i64,
    pub kind: String,
    pub target: String,
    pub status: String,
    pub queued_at: String,
    pub started_at: Option<String>,
    pub finished_at: Option<String>,
    pub attempts: i64,
    pub max_attempts: i64,
    pub details: Option<String>,
    pub last_error: Option<String>,
}

/// Status of a job waiting to run.
pub const STATUS_QUEUED: &'static str = "queued";

/// Status of a job that is running.
pub const STATUS_RUNNING: &'static str = "running";

/// Status of a job that finished well.
pub const STATUS_SUCCEEDED: &'static str = "succeeded";

/// Status of a job that failed.
pub const STATUS_FAILED: &'static str = "failed";

/// Status of a job that was not needed.
pub const STATUS_SKIPPED: &'static str = "skipped";

/// The text stored to check the master password against.
pub const VAULT_CHECK_VALUE: &'static str = "oxidenms-vault-check-v1";

/// The key under which the vault check record is stored.
pub const VAULT_CHECK_KEY: &'static str = "master_check";

/// A text trimmed, or nothing when only white space is left.
pub open spec fn non_blank(value: Seq<char>) -> Option<Seq<char>> {
    if trim(value).len() == 0 {
        None
    } else {
        Some(trim(value))
    }
}

/// The trimmed text, or nothing when only white space is left.
pub fn empty_to_none(value: &str) -> (r: Option<String>)
    ensures
        match r {
            Some(s) => non_blank(value@) == Some(s@),
            None => non_blank(value@) is None,
        },
{
    let cs = chars_of(value);
    let t = trim_chars(cs.as_slice());
    if t.len() == 0 {
        None
    } else {
        Some(string_of(t.as_slice()))
    }
}

/// The attempt limit stored for a new job: at least one.
pub fn attempt_limit(max_attempts: i64) -> (r: i64)
    ensures
        r == (if max_attempts < 1 {
            1
        } else {
            max_attempts
        }),
{
    if max_attempts < 1 {
        1
    } else {
        max_attempts
    }
}

/// Refuses a master password that is empty or only white space.
pub fn check_master_password(master_pass: &str) -> (r: Result<(), String>)
    ensures
        r is Ok <==> trim(master_pass@).len() > 0,
        r is Err ==> r->Err_0@ == "Master password bos olamaz."@,
{
    let cs = chars_of(master_pass);
    let t = trim_chars(cs.as_slice());
    if t.len() == 0 {
        Err("Master password bos olamaz.".to_owned())
    } else {
        Ok(())
    }
}

/// What checking a master password against a stored vault record gives:
/// the record must open under it to the check text.
pub open spec fn vault_check_of(record: Seq<char>, master: Seq<char>) -> Result<(), Seq<char>> {
    match decryption_of(record, master) {
        Err(m) => Err(m),
        Ok(p) => if p == VAULT_CHECK_VALUE@ {
            Ok(())
        } else {
            Err("Master password dogrulanamadi."@)
        },
    }
}

/// Checks a master password against the stored vault record.
pub fn verify_vault_record(encrypted_check: &str, master_pass: &str) -> (r: Result<(), String>)
    ensures
        match r {
            Ok(()) => vault_check_of(encrypted_check@, master_pass@) == Ok::<(), Seq<char>>(()),
            Err(m) => vault_check_of(encrypted_check@, master_pass@) == Err::<(), Seq<char>>(m@),
        },
{
    let plain = match decrypt_credential(encrypted_check, master_pass) {
        Ok(p) => p,
        Err(m) => return Err(m),
    };
    let pc = chars_of(plain.as_str());
    if crate::text::eq_str(pc.as_slice(), VAULT_CHECK_VALUE) {
        Ok(())
    } else {
        Err("Master password dogrulanamadi.".to_owned())
    }
}

/// The vault record for a new master password: the check text sealed
/// under it with a fresh salt and nonce. It always succeeds (the check
/// text is short), and the record accepts that master password.
pub fn new_vault_record(master_pass: &str) -> (r: Result<String, String>)
    ensures
        r is Ok,
        exists|salt: Seq<u8>, nonce: Seq<u8>|
            salt.len() == SALT_LEN && nonce.len() == NONCE_LEN && #[trigger] encryption_of(
                VAULT_CHECK_VALUE@,
                master_pass@,
                salt,
                nonce,
            ) == text_result(r),
        r is Ok ==> vault_check_of(r->Ok_0@, master_pass@) == Ok::<(), Seq<char>>(()),
{
    proof {
        reveal_strlit("oxidenms-vault-check-v1");
        assert(is_ascii_chars(VAULT_CHECK_VALUE@));
        is_ascii_chars_encode_utf8(VAULT_CHECK_VALUE@);
        assert(encode_utf8(VAULT_CHECK_VALUE@).len() <= MAX_PLAINTEXT_LEN);
    }
    encrypt_credential(VAULT_CHECK_VALUE, master_pass)
}

} // verus!
