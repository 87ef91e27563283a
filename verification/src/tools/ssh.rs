//! Storing a configuration fetched over SSH, and what the tool shows and
//! asks for afterwards.
//!
//! The connection and the database calls are the caller's I/O; what their
//! results lead to is decided here.

use vstd::prelude::*;

use crate::text::push_str;
use crate::tools::ToolEvent;

verus! {

/// The message shown once the configuration was stored.
pub const SAVED_MESSAGE: &'static str = "Veritabanına Kaydedildi!";

/// The device to store under: the one found or created for the address,
/// else the first device.
pub fn save_device_id(found: Option<i64>) -> (r: i64)
    ensures
        r == (match found {
            Some(id) => id,
            None => 1,
        }),
{
    match found {
        Some(id) => id,
        None => 1,
    }
}

/// The configuration stored last for the device (the newest history
/// entry), or the empty text when there is none.
pub fn previous_config(newest: Option<&str>) -> (r: String)
    ensures
        r@ == (match newest {
            Some(c) => c@,
            None => Seq::empty(),
        }),
{
    match newest {
        Some(c) => c.to_owned(),
        None => String::new(),
    }
}

/// How storing the fetched configuration went.
#[derive(Debug, Clone, PartialEq, Eq)]
pub enum SaveStep {
    /// The database could not be opened, with its message.
    DatabaseFailed(String),
    /// Storing failed, with the database's message.
    SaveFailed(String),
    /// The configuration was stored.
    Saved,
}

/// The message shown after storing reached `step`.
pub open spec fn save_message(step: SaveStep) -> Seq<char> {
    match step {
        SaveStep::DatabaseFailed(e) => "DB Hatası: "@ + e@,
        SaveStep::SaveFailed(e) => "Kayıt Hatası: "@ + e@,
        SaveStep::Saved => SAVED_MESSAGE@,
    }
}

/// `ev` asks to compare `old_text` with `new_text`.
pub open spec fn is_switch_to_diff(ev: ToolEvent, old_text: Seq<char>, new_text: Seq<char>) -> bool {
    match ev {
        ToolEvent::SwitchToDiff { old_config, new_config } => old_config@ == old_text
            && new_config@ == new_text,
        _ => false,
    }
}

/// The message to show after storing reached `step`, and the event to
/// raise: once stored, the comparison of the device's previous
/// configuration with the new one, if it had one.
pub fn save_result(step: SaveStep, prev_config: String, config: &str) -> (r: (
    String,
    Option<ToolEvent>,
))
    ensures
        r.0@ == save_message(step),
        (step is Saved && prev_config@.len() > 0) ==> (r.1 is Some && is_switch_to_diff(
            r.1->0,
            prev_config@,
            config@,
        )),
        !(step is Saved && prev_config@.len() > 0) ==> r.1 is None,
{
    match step {
        SaveStep::DatabaseFailed(e) => {
            let mut m = "DB Hatası: ".to_owned();
            push_str(&mut m, e.as_str());
            (m, None)
        },
        SaveStep::SaveFailed(e) => {
            let mut m = "Kayıt Hatası: ".to_owned();
            push_str(&mut m, e.as_str());
            (m, None)
        },
        SaveStep::Saved => {
            let event = if prev_config.as_str().is_empty() {
                None
            } else {
                Some(ToolEvent::SwitchToDiff { old_config: prev_config, new_config: config.to_owned() })
            };
            (SAVED_MESSAGE.to_owned(), event)
        },
    }
}

} // verus!
