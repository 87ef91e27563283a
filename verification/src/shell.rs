//! The application shell: which screen the version check allows, and what
//! a tool's event does to the shell's state.

use vstd::prelude::*;

use crate::i18n::Language;
use crate::text::{chars_of, eq_str};
use crate::tools::ToolEvent;
use crate::update::{status_of, UpdateStatus, VersionManifest};

verus! {

/// The identifier of the configuration comparison tool.
pub const DIFF_TOOL_ID: &'static str = "diff";

/// Where the version check stands.
#[derive(Debug, Clone)]
pub enum UpdateState {
    /// The check still runs.
    Checking,
    /// The check gave a status.
    Ready(UpdateStatus),
    /// The check failed, with its message; the application runs on.
    Failed(String),
}

/// The state once the check gave `result`.
pub fn update_state_of(result: Result<UpdateStatus, String>) -> (r: UpdateState)
    ensures
        r == (match result {
            Ok(status) => UpdateState::Ready(status),
            Err(m) => UpdateState::Failed(m),
        }),
{
    match result {
        Ok(status) => UpdateState::Ready(status),
        Err(m) => UpdateState::Failed(m),
    }
}

/// What the shell shows.
#[derive(Debug, Clone)]
pub enum Screen {
    /// The waiting screen while the check runs.
    Waiting,
    /// The lock screen of a mandatory update, and nothing else.
    Locked(VersionManifest),
    /// The tools, with the banner of an optional update and the notice of
    /// a failed check where there is one.
    Main { optional: Option<VersionManifest>, failure: Option<String> },
}

/// The screen for the state of the check: waiting while it runs, locked by
/// a mandatory update, else the tools (a failed check does not lock).
pub open spec fn screen_of(state: UpdateState) -> Screen {
    match state {
        UpdateState::Checking => Screen::Waiting,
        UpdateState::Ready(UpdateStatus::Mandatory(m)) => Screen::Locked(m),
        UpdateState::Ready(UpdateStatus::Optional(m)) => Screen::Main { optional: Some(m), failure: None },
        UpdateState::Ready(UpdateStatus::UpToDate) => Screen::Main { optional: None, failure: None },
        UpdateState::Failed(e) => Screen::Main { optional: None, failure: Some(e) },
    }
}

/// The screen for the state of the check.
pub fn screen_for(state: UpdateState) -> (r: Screen)
    ensures
        r == screen_of(state),
{
    match state {
        UpdateState::Checking => Screen::Waiting,
        UpdateState::Ready(UpdateStatus::Mandatory(m)) => Screen::Locked(m),
        UpdateState::Ready(UpdateStatus::Optional(m)) => Screen::Main {
            optional: Some(m),
            failure: None,
        },
        UpdateState::Ready(UpdateStatus::UpToDate) => Screen::Main { optional: None, failure: None },
        UpdateState::Failed(e) => Screen::Main { optional: None, failure: Some(e) },
    }
}

/// A running version older than the manifest's minimum is locked: the
/// status of the check shows the lock screen of that manifest and nothing
/// else; a version at or above the minimum is never locked, and neither is
/// the application when the check itself failed.
pub proof fn lemma_old_version_locked(
    below_minimum: bool,
    below_latest: bool,
    manifest: VersionManifest,
    failure: String,
)
    ensures
        screen_of(UpdateState::Failed(failure)) is Main,
        below_minimum ==> screen_of(UpdateState::Ready(status_of(below_minimum, below_latest, manifest)))
            == Screen::Locked(manifest),
        !below_minimum ==> screen_of(
            UpdateState::Ready(status_of(below_minimum, below_latest, manifest)),
        ) is Main,
{
}

/// The position of the last identifier of `ids` equal to `id`, if any.
pub open spec fn last_position(ids: Seq<Seq<char>>, id: Seq<char>) -> Option<usize>
    decreases ids.len(),
{
    if ids.len() == 0 {
        None
    } else if ids.last() == id {
        Some((ids.len() - 1) as usize)
    } else {
        last_position(ids.drop_last(), id)
    }
}

/// The position of the last comparison tool among the tools with
/// identifiers `ids`, if any.
pub fn diff_tool_position(ids: &Vec<String>) -> (r: Option<usize>)
    ensures
        r == last_position(ids@.map_values(|s: String| s@), DIFF_TOOL_ID@),
{
    let ghost all = ids@.map_values(|s: String| s@);
    let mut r: Option<usize> = None;
    let mut i: usize = 0;
    while i < ids.len()
        invariant
            all == ids@.map_values(|s: String| s@),
            i <= ids@.len(),
            r == last_position(all.take(i as int), DIFF_TOOL_ID@),
        decreases ids@.len() - i,
    {
        proof {
            assert(all.take(i + 1).drop_last() =~= all.take(i as int));
        }
        let cs = chars_of(ids[i].as_str());
        if eq_str(cs.as_slice(), DIFF_TOOL_ID) {
            r = Some(i);
        }
        i = i + 1;
    }
    proof {
        assert(all.take(ids@.len() as int) =~= all);
    }
    r
}

/// The selected tool and the language after a tool's event: a new language
/// is taken at once; a request to compare two configurations selects the
/// comparison tool (which receives them), or changes nothing without one.
pub fn after_event(selected: usize, dil: Language, diff_position: Option<usize>, event: &ToolEvent) -> (r: (usize, Language))
    ensures
        r == (match *event {
            ToolEvent::LanguageSelected(yeni) => (selected, yeni),
            ToolEvent::SwitchToDiff { .. } => (
                match diff_position {
                    Some(i) => i,
                    None => selected,
                },
                dil,
            ),
        }),
{
    match event {
        ToolEvent::LanguageSelected(yeni) => (selected, *yeni),
        ToolEvent::SwitchToDiff { .. } => (
            match diff_position {
                Some(i) => i,
                None => selected,
            },
            dil,
        ),
    }
}

} // verus!
