//! The dashboard's operational status note.

use vstd::prelude::*;

use crate::i18n::{text, Language};

verus! {

/// What the dashboard says of the inventory's backups.
#[derive(Debug, Clone, Copy, PartialEq, Eq, Structural)]
pub enum StatusNote {
    /// There is no device yet.
    NoDevices,
    /// Some devices have no configuration backup.
    SomeWithoutBackup,
    /// Every device has a configuration history.
    AllBackedUp,
}

/// The note for `devices` devices of which `devices_with_backup` have a
/// configuration history.
pub fn status_note(devices: i64, devices_with_backup: i64) -> (r: StatusNote)
    ensures
        r == (if devices == 0 {
            StatusNote::NoDevices
        } else if devices_with_backup < devices {
            StatusNote::SomeWithoutBackup
        } else {
            StatusNote::AllBackedUp
        }),
{
    if devices == 0 {
        StatusNote::NoDevices
    } else if devices_with_backup < devices {
        StatusNote::SomeWithoutBackup
    } else {
        StatusNote::AllBackedUp
    }
}

/// The text of a note in `dil`, and whether it is a warning.
pub fn status_note_text(dil: Language, note: StatusNote) -> (r: (&'static str, bool))
    ensures
        r.1 == (note != StatusNote::AllBackedUp),
        r.0@ == (match note {
            StatusNote::NoDevices => if dil == Language::Turkish {
                "Henuz cihaz yok. Device Manager uzerinden cihaz ekleyerek baslayin."@
            } else {
                "No devices yet. Start by adding devices in Device Manager."@
            },
            StatusNote::SomeWithoutBackup => if dil == Language::Turkish {
                "Bazi cihazlarin henuz konfigurasyon yedegi yok."@
            } else {
                "Some devices do not have a configuration backup yet."@
            },
            StatusNote::AllBackedUp => if dil == Language::Turkish {
                "Envanterdeki cihazlar icin konfigurasyon gecmisi mevcut."@
            } else {
                "Configuration history exists for all inventory devices."@
            },
        }),
{
    match note {
        StatusNote::NoDevices => (
            text(
                dil,
                "No devices yet. Start by adding devices in Device Manager.",
                "Henuz cihaz yok. Device Manager uzerinden cihaz ekleyerek baslayin.",
            ),
            true,
        ),
        StatusNote::SomeWithoutBackup => (
            text(
                dil,
                "Some devices do not have a configuration backup yet.",
                "Bazi cihazlarin henuz konfigurasyon yedegi yok.",
            ),
            true,
        ),
        StatusNote::AllBackedUp => (
            text(
                dil,
                "Configuration history exists for all inventory devices.",
                "Envanterdeki cihazlar icin konfigurasyon gecmisi mevcut.",
            ),
            false,
        ),
    }
}

} // verus!
