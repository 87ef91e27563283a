//! The firmware update tool: the log of a (simulated) IOS image transfer.

use vstd::prelude::*;

use crate::text::push_str;

verus! {

/// The log lines of sending image `filename` from the TFTP server at
/// `tftp_ip` to the device at `device_ip` and booting it.
pub open spec fn firmware_log_text(device_ip: Seq<char>, tftp_ip: Seq<char>, filename: Seq<char>) -> Seq<char> {
    "\n[INFO] Connecting to target "@ + device_ip + "...\n"@
        + "[COMMAND] copy tftp://"@ + tftp_ip + "/"@ + filename + " flash:\n"@
        + "[SIMULATION] Checking device flash storage...\n"@
        + "[SIMULATION] File transfer started... (normally this takes 10-15 minutes)\n"@
        + "[SUCCESS] Firmware transfer completed. Setting boot variable...\n"@
        + "[COMMAND] boot system flash:/"@ + filename + "\n"@
        + "[INFO] Ready for reload.\n"@
}

/// Appends to `logs` the lines of sending image `filename` from the TFTP
/// server at `tftp_ip` to the device at `device_ip` and booting it.
pub fn append_firmware_log(logs: &mut String, device_ip: &str, tftp_ip: &str, filename: &str)
    ensures
        final(logs)@ == old(logs)@ + firmware_log_text(device_ip@, tftp_ip@, filename@),
{
    push_str(logs, "\n[INFO] Connecting to target ");
    push_str(logs, device_ip);
    push_str(logs, "...\n");
    push_str(logs, "[COMMAND] copy tftp://");
    push_str(logs, tftp_ip);
    push_str(logs, "/");
    push_str(logs, filename);
    push_str(logs, " flash:\n");
    push_str(logs, "[SIMULATION] Checking device flash storage...\n");
    push_str(logs, "[SIMULATION] File transfer started... (normally this takes 10-15 minutes)\n");
    push_str(logs, "[SUCCESS] Firmware transfer completed. Setting boot variable...\n");
    push_str(logs, "[COMMAND] boot system flash:/");
    push_str(logs, filename);
    push_str(logs, "\n");
    push_str(logs, "[INFO] Ready for reload.\n");
    proof {
        assert(logs@ =~= old(logs)@ + firmware_log_text(device_ip@, tftp_ip@, filename@));
    }
}

} // verus!
