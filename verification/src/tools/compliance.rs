//! The compliance tool: the table of audited devices, riskiest first, and
//! its status line. Reading the devices and their newest configurations is
//! the caller's I/O; the posture itself is [`fleet_posture`]'s.
//!
//! [`fleet_posture`]: crate::network::compliance::fleet_posture

use vstd::prelude::*;

use crate::network::compliance::{DevicePosture, FleetPosture};
use crate::text::{decimal, push_decimal, push_str};

verus! {

/// The status line of a refresh that found no stored configuration.
pub const NO_CONFIGS_MESSAGE: &'static str =
    "No stored device configurations found. Use Backup to store configs first.";

/// The status line when the database cannot be opened.
pub const DB_FAILED_MESSAGE: &'static str = "Database connection failed.";

/// The status line when the devices cannot be read, with the error.
pub fn device_read_failed(e: &str) -> (r: String)
    ensures
        r@ == "Device read failed: "@ + e@,
{
    let mut m = "Device read failed: ".to_owned();
    push_str(&mut m, e);
    m
}

/// One row of the table.
#[derive(Debug, Clone)]
pub struct DisplayRow {
    pub name: String,
    pub ip: String,
    pub score: u8,
    pub grade: &'static str,
    pub critical: usize,
    pub warning: usize,
    pub info: usize,
}

/// The mathematical value of a row.
pub struct RowView {
    pub name: Seq<char>,
    pub ip: Seq<char>,
    pub score: u8,
    pub grade: &'static str,
    pub critical: usize,
    pub warning: usize,
    pub info: usize,
}

impl View for DisplayRow {
    type V = RowView;

    open spec fn view(&self) -> RowView {
        RowView {
            name: self.name@,
            ip: self.ip@,
            score: self.score,
            grade: self.grade,
            critical: self.critical,
            warning: self.warning,
            info: self.info,
        }
    }
}

/// The row of device `d` at address `ip`.
pub open spec fn row_of(d: DevicePosture, ip: Seq<char>) -> RowView {
    RowView {
        name: d.device@,
        ip,
        score: d.summary.score,
        grade: d.summary.grade,
        critical: d.summary.critical,
        warning: d.summary.warning,
        info: d.summary.info,
    }
}

/// The rows of `rs` whose score is `k`, in their order.
pub open spec fn rows_scored(rs: Seq<RowView>, k: u8) -> Seq<RowView>
    decreases rs.len(),
{
    if rs.len() == 0 {
        Seq::empty()
    } else {
        rows_scored(rs.drop_last(), k) + if rs.last().score == k {
            seq![rs.last()]
        } else {
            Seq::empty()
        }
    }
}

/// The rows of `rs` with a score below `k`, lowest score first; rows with
/// equal scores keep their order.
pub open spec fn rows_below(rs: Seq<RowView>, k: nat) -> Seq<RowView>
    decreases k,
{
    if k == 0 {
        Seq::empty()
    } else {
        rows_below(rs, (k - 1) as nat) + rows_scored(rs, (k - 1) as u8)
    }
}

/// The rows of `rs` ordered by ascending score (a stable sort).
pub open spec fn rows_by_score(rs: Seq<RowView>) -> Seq<RowView> {
    rows_below(rs, 256)
}

/// The table: a row per audited device, with its address (`ips[i]` for the
/// `i`-th device, or empty where there is none), ordered by ascending
/// score, devices with equal scores in fleet order.
pub open spec fn table_of(ds: Seq<DevicePosture>, ips: Seq<String>) -> Seq<RowView> {
    rows_by_score(rows_in_order(ds, ips))
}

/// A row per device of `ds`, in fleet order, the `i`-th at address
/// `ips[i]` (or empty where there is none).
pub open spec fn rows_in_order(ds: Seq<DevicePosture>, ips: Seq<String>) -> Seq<RowView> {
    Seq::new(
        ds.len(),
        |i: int|
            row_of(
                ds[i],
                if i < ips.len() {
                    ips[i]@
                } else {
                    Seq::empty()
                },
            ),
    )
}

/// A copy of `r`.
fn copy_row(r: &DisplayRow) -> (c: DisplayRow)
    ensures
        c@ == r@,
{
    DisplayRow {
        name: r.name.clone(),
        ip: r.ip.clone(),
        score: r.score,
        grade: r.grade,
        critical: r.critical,
        warning: r.warning,
        info: r.info,
    }
}

/// Orders `rows` by ascending score, keeping the order of equal scores.
fn sort_rows(rows: Vec<DisplayRow>) -> (r: Vec<DisplayRow>)
    ensures
        r@.map_values(|x: DisplayRow| x@) == rows_by_score(rows@.map_values(|x: DisplayRow| x@)),
{
    let ghost rs = rows@.map_values(|x: DisplayRow| x@);
    let mut r: Vec<DisplayRow> = Vec::new();
    let mut k: u16 = 0;
    while k < 256
        invariant
            k <= 256,
            rs == rows@.map_values(|x: DisplayRow| x@),
            r@.map_values(|x: DisplayRow| x@) == rows_below(rs, k as nat),
        decreases 256 - k,
    {
        let key = k as u8;
        let mut j: usize = 0;
        proof {
            assert(rs.take(0) =~= Seq::<RowView>::empty());
            assert(rows_below(rs, k as nat) + rows_scored(rs.take(0), key) =~= rows_below(rs, k as nat));
        }
        while j < rows.len()
            invariant
                k < 256,
                key == k as u8,
                rs == rows@.map_values(|x: DisplayRow| x@),
                j <= rs.len(),
                r@.map_values(|x: DisplayRow| x@) == rows_below(rs, k as nat) + rows_scored(
                    rs.take(j as int),
                    key,
                ),
            decreases rs.len() - j,
        {
            let ghost before = r@.map_values(|x: DisplayRow| x@);
            proof {
                assert(rs.take(j + 1).drop_last() =~= rs.take(j as int));
            }
            if rows[j].score == key {
                r.push(copy_row(&rows[j]));
                proof {
                    assert(r@.map_values(|x: DisplayRow| x@) =~= before.push(rs[j as int]));
                }
            } else {
                proof {
                    assert(r@.map_values(|x: DisplayRow| x@) =~= before + Seq::<RowView>::empty());
                }
            }
            j = j + 1;
        }
        proof {
            assert(rs.take(rs.len() as int) =~= rs);
        }
        k = k + 1;
    }
    r
}

/// The table of `fleet`, whose `i`-th device is at address `ips[i]`.
pub fn display_rows(fleet: &FleetPosture, ips: &Vec<String>) -> (r: Vec<DisplayRow>)
    ensures
        r@.map_values(|x: DisplayRow| x@) == table_of(fleet.devices@, ips@),
{
    let ghost ds = fleet.devices@;
    let ghost want = rows_in_order(ds, ips@);
    let mut rows: Vec<DisplayRow> = Vec::new();
    let mut i: usize = 0;
    while i < fleet.devices.len()
        invariant
            ds == fleet.devices@,
            i <= ds.len(),
            want == rows_in_order(ds, ips@),
            want.len() == ds.len(),
            rows@.map_values(|x: DisplayRow| x@) == want.take(i as int),
        decreases ds.len() - i,
    {
        let d = &fleet.devices[i];
        let ip = if i < ips.len() {
            ips[i].clone()
        } else {
            String::new()
        };
        proof {
            assert(rows@.map_values(|x: DisplayRow| x@).len() == rows@.len());
            assert(want.take(i as int).len() == i);
        }
        rows.push(
            DisplayRow {
                name: d.device.clone(),
                ip,
                score: d.summary.score,
                grade: d.summary.grade,
                critical: d.summary.critical,
                warning: d.summary.warning,
                info: d.summary.info,
            },
        );
        proof {
            assert(rows@[i as int]@ == want[i as int]);
            assert(rows@.map_values(|x: DisplayRow| x@) =~= want.take(i + 1));
        }
        i = i + 1;
    }
    proof {
        assert(want.take(ds.len() as int) =~= want);
    }
    sort_rows(rows)
}

/// The status line after auditing `n` devices.
pub fn audited_status(n: usize) -> (r: String)
    ensures
        r@ == (if n == 0 {
            NO_CONFIGS_MESSAGE@
        } else {
            decimal(n as nat) + " device(s) audited."@
        }),
{
    if n == 0 {
        NO_CONFIGS_MESSAGE.to_owned()
    } else {
        let mut m = String::new();
        push_decimal(&mut m, n as u64);
        push_str(&mut m, " device(s) audited.");
        proof {
            assert(Seq::<char>::empty() + decimal(n as nat) =~= decimal(n as nat));
        }
        m
    }
}

} // verus!
