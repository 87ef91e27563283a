//! Adding and removing managed devices: the checks and messages around the
//! database writes, which are the caller's I/O.

use vstd::prelude::*;

use crate::crypto::{decryption_of, encrypt_credential, encryption_of, text_result, NONCE_LEN, SALT_LEN};
use crate::i18n::{message_text, t, Language, Message};
use crate::text::{push_signed, push_str, signed_decimal};

verus! {

/// The message of a form without a name or an address.
pub const REQUIRED_FIELDS_MESSAGE: &'static str = "Cihaz adi ve IP zorunludur.";

/// The message once a device was removed.
pub const DELETED_MESSAGE: &'static str = "Cihaz silindi.";

/// The message once the master password opened the vault.
pub const VAULT_VERIFIED_MESSAGE: &'static str = "Vault dogrulandi.";

/// Whether the vault check unlocks the tool, and the message to show: the
/// verified message, or the check's error.
pub fn unlock_message(vault: Result<(), String>) -> (r: (bool, String))
    ensures
        r.0 == vault is Ok,
        r.1@ == (match vault {
            Ok(()) => VAULT_VERIFIED_MESSAGE@,
            Err(e) => e@,
        }),
{
    match vault {
        Ok(()) => (true, VAULT_VERIFIED_MESSAGE.to_owned()),
        Err(e) => (false, e),
    }
}

/// The audit action of adding a device.
pub const CREATE_AUDIT_ACTION: &'static str = "device.create";

/// The audit action of removing a device.
pub const DELETE_AUDIT_ACTION: &'static str = "device.delete";

/// The audit details of removing a device.
pub const DELETE_AUDIT_DETAILS: &'static str = "Device removed";

/// What the user entered for a new device.
#[derive(Debug, Clone)]
pub struct DeviceForm {
    pub name: String,
    pub ip: String,
    pub user: String,
    pub pass: String,
    pub platform: String,
    pub model: String,
    pub serial: String,
    pub ios_version: String,
    pub site: String,
    pub role: String,
    pub tags: String,
}

impl DeviceForm {
    /// An empty form.
    pub fn new() -> (r: DeviceForm)
        ensures
            r.name@.len() == 0,
            r.ip@.len() == 0,
            r.user@.len() == 0,
            r.pass@.len() == 0,
            r.platform@.len() == 0,
            r.model@.len() == 0,
            r.serial@.len() == 0,
            r.ios_version@.len() == 0,
            r.site@.len() == 0,
            r.role@.len() == 0,
            r.tags@.len() == 0,
    {
        DeviceForm {
            name: String::new(),
            ip: String::new(),
            user: String::new(),
            pass: String::new(),
            platform: String::new(),
            model: String::new(),
            serial: String::new(),
            ios_version: String::new(),
            site: String::new(),
            role: String::new(),
            tags: String::new(),
        }
    }
}

/// The form names the device and its address.
pub open spec fn form_complete(form: DeviceForm) -> bool {
    form.name@.len() > 0 && form.ip@.len() > 0
}

/// The credential to store for a new device: its password sealed under the
/// master password with a fresh salt and nonce. A form without a name or an
/// address is refused first; a sealing error is given as it came.
pub fn device_credential(form: &DeviceForm, master_pass: &str) -> (r: Result<String, String>)
    ensures
        !form_complete(*form) ==> r is Err && r->Err_0@ == REQUIRED_FIELDS_MESSAGE@,
        form_complete(*form) ==> exists|salt: Seq<u8>, nonce: Seq<u8>|
            salt.len() == SALT_LEN && nonce.len() == NONCE_LEN && #[trigger] encryption_of(
                form.pass@,
                master_pass@,
                salt,
                nonce,
            ) == text_result(r),
        form_complete(*form) && r is Ok ==> decryption_of(r->Ok_0@, master_pass@) == Ok::<
            Seq<char>,
            Seq<char>,
        >(form.pass@),
{
    if form.name.as_str().is_empty() || form.ip.as_str().is_empty() {
        return Err(REQUIRED_FIELDS_MESSAGE.to_owned());
    }
    encrypt_credential(form.pass.as_str(), master_pass)
}

/// The message after storing a new device: the saved message of the
/// language, or the database's error.
pub fn save_message(dil: Language, result: Result<(), String>) -> (r: String)
    ensures
        r@ == (match result {
            Ok(()) => message_text(dil, Message::DeviceSaved),
            Err(e) => "Kayit hatasi: "@ + e@,
        }),
{
    match result {
        Ok(()) => t(dil, Message::DeviceSaved).to_owned(),
        Err(e) => {
            let mut m = "Kayit hatasi: ".to_owned();
            push_str(&mut m, e.as_str());
            m
        },
    }
}

/// The audit target of removing the device with identifier `id`: the
/// identifier in decimal.
pub fn delete_audit_target(id: i32) -> (r: String)
    ensures
        r@ == signed_decimal(id as int),
{
    let mut r = String::new();
    push_signed(&mut r, id as i64);
    proof {
        assert(Seq::<char>::empty() + signed_decimal(id as int) =~= signed_decimal(id as int));
    }
    r
}

} // verus!
