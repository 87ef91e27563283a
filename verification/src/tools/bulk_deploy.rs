//! Sending one block of commands to many devices: which devices are sent
//! to, and what status each one shows.
//!
//! Opening the SSH sessions (one thread per device) is the caller's I/O;
//! the device list and its statuses are kept here.

use vstd::prelude::*;

use crate::text::push_str;

verus! {

/// The status of a device while its commands are on their way.
pub const SENDING_STATUS: &'static str = "Gönderiliyor...";

/// A device of the deployment list.
#[derive(Debug, Clone)]
pub struct DeviceData {
    pub name: String,
    pub ip: String,
    pub user: String,
    pub enc_cred: String,
    /// Chosen by the user as a target.
    pub selected: bool,
    /// The last status shown for the device, if any.
    pub status: Option<String>,
}

/// `d` with its status replaced by `status`.
pub open spec fn with_status(d: DeviceData, status: Option<String>) -> DeviceData {
    DeviceData {
        name: d.name,
        ip: d.ip,
        user: d.user,
        enc_cred: d.enc_cred,
        selected: d.selected,
        status,
    }
}

/// The positions of the selected devices, in list order.
pub open spec fn selected_positions(ds: Seq<DeviceData>) -> Seq<usize>
    decreases ds.len(),
{
    if ds.len() == 0 {
        Seq::empty()
    } else {
        let p = selected_positions(ds.drop_last());
        if ds.last().selected {
            p.push((ds.len() - 1) as usize)
        } else {
            p
        }
    }
}

/// The devices can be unlocked with this master password: it is not empty
/// and the vault check (`verify_vault_record`, or `new_vault_record` for a
/// new vault) accepted it.
pub fn unlock_allowed(master_pass: &str, vault: &Result<(), String>) -> (r: bool)
    ensures
        r == (master_pass@.len() > 0 && vault is Ok),
{
    !master_pass.is_empty() && vault.is_ok()
}

/// The positions of the selected devices, in list order.
pub fn selected_of(devices: &Vec<DeviceData>) -> (r: Vec<usize>)
    ensures
        r@ == selected_positions(devices@),
{
    let ghost ds = devices@;
    let mut r: Vec<usize> = Vec::new();
    let mut i: usize = 0;
    while i < devices.len()
        invariant
            ds == devices@,
            i <= ds.len(),
            r@ == selected_positions(ds.take(i as int)),
        decreases ds.len() - i,
    {
        proof {
            assert(ds.take(i + 1).drop_last() =~= ds.take(i as int));
        }
        if devices[i].selected {
            r.push(i);
        }
        i = i + 1;
    }
    proof {
        assert(ds.take(ds.len() as int) =~= ds);
    }
    r
}

/// What a request to deploy leads to.
#[derive(Debug, Clone, PartialEq, Eq)]
pub enum DeployDecision {
    /// No device is selected: nothing is sent.
    NothingSelected,
    /// A dry run: the positions of the devices that would receive the
    /// commands; nothing is sent and no status changes.
    Preview(Vec<usize>),
    /// The commands would go to these devices, but the user has not
    /// confirmed yet: nothing is sent.
    AwaitConfirmation(Vec<usize>),
    /// Confirmed: the deployment starts ([`start_deploy`]).
    Send,
}

/// Decides what a request to deploy leads to: with no device selected,
/// nothing; on a dry run, the preview of the targets; without the user's
/// confirmation, the request for it; else the deployment.
pub fn decide_deploy(devices: &Vec<DeviceData>, dry_run: bool, confirmed: bool) -> (r:
    DeployDecision)
    ensures
        selected_positions(devices@).len() == 0 ==> r is NothingSelected,
        selected_positions(devices@).len() > 0 && dry_run ==> (r is Preview && r->Preview_0@
            == selected_positions(devices@)),
        selected_positions(devices@).len() > 0 && !dry_run && !confirmed ==> (r is AwaitConfirmation
            && r->AwaitConfirmation_0@ == selected_positions(devices@)),
        selected_positions(devices@).len() > 0 && !dry_run && confirmed ==> r is Send,
{
    let targets = selected_of(devices);
    if targets.len() == 0 {
        DeployDecision::NothingSelected
    } else if dry_run {
        DeployDecision::Preview(targets)
    } else if !confirmed {
        DeployDecision::AwaitConfirmation(targets)
    } else {
        DeployDecision::Send
    }
}

/// Starts a deployment: every selected device shows [`SENDING_STATUS`],
/// the others are left as they were. Gives the positions of the selected
/// devices, to each of which the commands are then sent.
pub fn start_deploy(devices: &mut Vec<DeviceData>) -> (r: Vec<usize>)
    ensures
        final(devices)@.len() == old(devices)@.len(),
        forall|i: int|
            0 <= i < old(devices)@.len() ==> if old(devices)@[i].selected {
                &&& (#[trigger] final(devices)@[i]) == with_status(
                    old(devices)@[i],
                    final(devices)@[i].status,
                )
                &&& final(devices)@[i].status is Some
                &&& final(devices)@[i].status->0@ == SENDING_STATUS@
            } else {
                final(devices)@[i] == old(devices)@[i]
            },
        r@ == selected_positions(old(devices)@),
{
    let ghost ds = devices@;
    let mut r: Vec<usize> = Vec::new();
    let mut i: usize = 0;
    while i < devices.len()
        invariant
            devices@.len() == ds.len(),
            i <= ds.len(),
            forall|j: int|
                i <= j < ds.len() ==> #[trigger] devices@[j] == ds[j],
            forall|j: int|
                0 <= j < i ==> if ds[j].selected {
                    &&& (#[trigger] devices@[j]) == with_status(ds[j], devices@[j].status)
                    &&& devices@[j].status is Some
                    &&& devices@[j].status->0@ == SENDING_STATUS@
                } else {
                    devices@[j] == ds[j]
                },
            r@ == selected_positions(ds.take(i as int)),
        decreases ds.len() - i,
    {
        proof {
            assert(ds.take(i + 1).drop_last() =~= ds.take(i as int));
        }
        if devices[i].selected {
            devices[i].status = Some(SENDING_STATUS.to_owned());
            r.push(i);
        }
        i = i + 1;
    }
    proof {
        assert(ds.take(ds.len() as int) =~= ds);
    }
    r
}

/// How far sending the commands to one device got.
#[derive(Debug, Clone, PartialEq, Eq)]
pub enum DeployStage {
    /// The stored credential did not decrypt under the master password.
    DecryptFailed,
    /// No SSH session could be opened.
    ConnectFailed,
    /// No exec channel could be opened, with the error's debug text.
    ExecFailed(String),
    /// Sending the commands failed, with the error's debug text.
    CommandFailed(String),
    /// The commands were sent.
    Sent,
}

/// The status a device shows once its deployment reached `stage`.
pub open spec fn deploy_message(stage: DeployStage) -> Seq<char> {
    match stage {
        DeployStage::DecryptFailed => "Şifre Çözme Hatası"@,
        DeployStage::ConnectFailed => "SSH Bağlantı Hatası"@,
        DeployStage::ExecFailed(e) => "Exec Err: "@ + e@,
        DeployStage::CommandFailed(e) => "Cmd Err: "@ + e@,
        DeployStage::Sent => "BAŞARILI"@,
    }
}

/// The status a device shows once its deployment reached `stage`.
pub fn deploy_result_text(stage: DeployStage) -> (r: String)
    ensures
        r@ == deploy_message(stage),
{
    match stage {
        DeployStage::DecryptFailed => "Şifre Çözme Hatası".to_owned(),
        DeployStage::ConnectFailed => "SSH Bağlantı Hatası".to_owned(),
        DeployStage::ExecFailed(e) => {
            let mut m = "Exec Err: ".to_owned();
            push_str(&mut m, e.as_str());
            m
        },
        DeployStage::CommandFailed(e) => {
            let mut m = "Cmd Err: ".to_owned();
            push_str(&mut m, e.as_str());
            m
        },
        DeployStage::Sent => "BAŞARILI".to_owned(),
    }
}

/// The audit action of sending commands to a device.
pub const DEPLOY_AUDIT_ACTION: &'static str = "bulk_deploy.commands";

/// The audit status of a device's deployment: `success` once the commands
/// were sent, else `failed`.
pub fn deploy_audit_status(stage: &DeployStage) -> (r: &'static str)
    ensures
        r@ == (if *stage is Sent {
            "success"@
        } else {
            "failed"@
        }),
{
    match stage {
        DeployStage::Sent => "success",
        _ => "failed",
    }
}

/// Shows `status` on the device at position `i`; a position past the end
/// of the list (which was reloaded meanwhile) changes nothing.
pub fn record_deploy_result(devices: &mut Vec<DeviceData>, i: usize, status: String)
    ensures
        if i < old(devices)@.len() {
            final(devices)@ == old(devices)@.update(
                i as int,
                with_status(old(devices)@[i as int], Some(status)),
            )
        } else {
            final(devices)@ == old(devices)@
        },
{
    if i < devices.len() {
        devices[i].status = Some(status);
        proof {
            assert(devices@[i as int] == with_status(old(devices)@[i as int], Some(status)));
        }
    }
}

} // verus!
