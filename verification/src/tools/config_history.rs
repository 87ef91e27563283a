//! The configuration history tool: which device is selected, and the
//! comparison of its two newest snapshots.

use vstd::prelude::*;

use crate::text::push_str;
use crate::tools::ToolEvent;

verus! {

/// A device as the history tool lists it: with how many snapshots it has
/// and when the last was taken.
#[derive(Debug, Clone)]
pub struct DeviceSummary {
    pub id: i64,
    pub name: String,
    pub ip_address: String,
    pub backup_count: i64,
    pub last_backup: String,
}

/// The index of the first device with identifier `id`.
pub open spec fn first_with_id(devices: Seq<DeviceSummary>, id: i64) -> Option<int>
    decreases devices.len(),
{
    if devices.len() == 0 {
        None
    } else if devices[0].id == id {
        Some(0)
    } else {
        match first_with_id(devices.drop_first(), id) {
            Some(i) => Some(i + 1),
            None => None,
        }
    }
}

/// The caption of the selected device: `name (ip)` of the first listed
/// device with the selected identifier, else `No device selected`.
pub open spec fn selection_caption(devices: Seq<DeviceSummary>, selected: Option<i64>) -> Seq<char> {
    match selected {
        Some(id) => match first_with_id(devices, id) {
            Some(i) => devices[i].name@ + " ("@ + devices[i].ip_address@ + ")"@,
            None => "No device selected"@,
        },
        None => "No device selected"@,
    }
}

/// The tool's device list and selection.
#[derive(Debug, Clone)]
pub struct ConfigHistoryTool {
    pub devices: Vec<DeviceSummary>,
    pub selected_device: Option<i64>,
    pub status: String,
}

impl ConfigHistoryTool {
    /// The caption of the selected device.
    pub fn selected_device_name(&self) -> (r: String)
        ensures
            r@ == selection_caption(self.devices@, self.selected_device),
    {
        let id = match self.selected_device {
            Some(id) => id,
            None => return "No device selected".to_owned(),
        };
        let mut i: usize = 0;
        proof {
            assert(self.devices@.skip(0) =~= self.devices@);
        }
        while i < self.devices.len()
            invariant
                i <= self.devices.len(),
                self.selected_device == Some(id),
                first_with_id(self.devices@, id) == match first_with_id(
                    self.devices@.skip(i as int),
                    id,
                ) {
                    Some(k) => Some(k + i),
                    None => None::<int>,
                },
            decreases self.devices.len() - i,
        {
            proof {
                assert(self.devices@.skip(i as int).drop_first() =~= self.devices@.skip(i + 1));
            }
            if self.devices[i].id == id {
                let d = &self.devices[i];
                let mut out = d.name.clone();
                push_str(&mut out, " (");
                push_str(&mut out, d.ip_address.as_str());
                push_str(&mut out, ")");
                proof {
                    assert(self.devices@.skip(i as int)[0] == self.devices@[i as int]);
                    assert(first_with_id(self.devices@, id) == Some(i as int));
                    assert(out@ =~= d.name@ + " ("@ + d.ip_address@ + ")"@);
                    assert(self.selected_device == Some(id));
                    assert(selection_caption(self.devices@, self.selected_device) == self.devices@[i as int].name@ + " ("@ + self.devices@[i as int].ip_address@ + ")"@);
                }
                return out;
            }
            i = i + 1;
        }
        proof {
            assert(self.devices@.skip(i as int) =~= Seq::<DeviceSummary>::empty());
        }
        "No device selected".to_owned()
    }
}

/// The audit action of comparing the two newest snapshots.
pub const COMPARE_AUDIT_ACTION: &'static str = "config.compare";

/// The audit status of starting a comparison.
pub const COMPARE_AUDIT_STATUS: &'static str = "started";

/// The audit details of starting a comparison.
pub const COMPARE_AUDIT_DETAILS: &'static str = "Latest two snapshots sent to diff";

/// The request to compare the two newest snapshots, given the snapshot
/// texts newest first: the second newest as the old text and the newest as
/// the new one; `None` with fewer than two snapshots.
pub fn compare_latest_two(snapshots: &Vec<String>) -> (r: Option<ToolEvent>)
    ensures
        snapshots@.len() < 2 ==> r is None,
        snapshots@.len() >= 2 ==> r == Some(
            ToolEvent::SwitchToDiff { old_config: snapshots@[1], new_config: snapshots@[0] },
        ),
{
    if snapshots.len() < 2 {
        None
    } else {
        Some(ToolEvent::SwitchToDiff { old_config: snapshots[1].clone(), new_config: snapshots[0].clone() })
    }
}

} // verus!
