//! The SNMP map: where each device stands on the map, and what a polling
//! round records. Polling itself (a thread that asks each device for its
//! `sysDescr`, then sleeps) is the caller's I/O.

use vstd::prelude::*;

verus! {

/// The seconds between two polling rounds.
pub const POLL_PAUSE_SECS: u64 = 10;

/// The SNMP community the map polls with.
pub const POLL_COMMUNITY: &'static str = "public";

/// Starts polling unless it runs: the polling flag is set either way, and a
/// new loop is spawned only when none was running.
pub fn poll_start(running: bool) -> (r: (bool, bool))
    ensures
        r.0,
        r.1 == !running,
{
    (true, !running)
}

/// The object identifier of `sysDescr.0`.
pub fn sys_descr_oid() -> (r: Vec<u32>)
    ensures
        r@ == seq![1u32, 3, 6, 1, 2, 1, 1, 1, 0],
{
    let mut r: Vec<u32> = Vec::new();
    r.push(1);
    r.push(3);
    r.push(6);
    r.push(1);
    r.push(2);
    r.push(1);
    r.push(1);
    r.push(1);
    r.push(0);
    proof {
        assert(r@ =~= seq![1u32, 3, 6, 1, 2, 1, 1, 1, 0]);
    }
    r
}

/// A device on the map.
#[derive(Debug, Clone)]
pub struct Node {
    pub id: i32,
    pub name: String,
    pub ip: String,
    /// It answered the last poll.
    pub is_up: bool,
    /// Its `sysDescr`, as last polled.
    pub sys_descr: String,
}

/// The map position of the `k`-th device as the map lays them out: from
/// (100, 100), each next one 150 to the right, and past 600 back to 100
/// on a row 150 lower.
pub open spec fn position_after(k: nat) -> (int, int)
    decreases k,
{
    if k == 0 {
        (100, 100)
    } else {
        let (x, y) = position_after((k - 1) as nat);
        if x + 150 > 600 {
            (100, y + 150)
        } else {
            (x + 150, y)
        }
    }
}

proof fn lemma_position_closed_form(k: nat)
    ensures
        position_after(k) == (100 + 150 * (k % 4) as int, 100 + 150 * (k / 4) as int),
    decreases k,
{
    if k > 0 {
        lemma_position_closed_form((k - 1) as nat);
        let j = (k - 1) as nat;
        assert(k % 4 == if j % 4 == 3 { 0 } else { j % 4 + 1 }) by (nonlinear_arith)
            requires
                k == j + 1,
        ;
        assert(k / 4 == if j % 4 == 3 { j / 4 + 1 } else { j / 4 }) by (nonlinear_arith)
            requires
                k == j + 1,
        ;
    }
}

/// The map position of the `k`-th device: four to a row.
pub fn node_position(k: u32) -> (r: (u64, u64))
    ensures
        (r.0 as int, r.1 as int) == position_after(k as nat),
{
    proof {
        lemma_position_closed_form(k as nat);
    }
    let col: u64 = (k % 4) as u64;
    let row: u64 = (k / 4) as u64;
    (100 + 150 * col, 100 + 150 * row)
}

/// Records the answer of the device at position `i` to a poll; a position
/// past the end of the map (reloaded meanwhile) changes nothing.
pub fn record_poll(nodes: &mut Vec<Node>, i: usize, is_up: bool, sys_descr: String)
    ensures
        final(nodes)@.len() == old(nodes)@.len(),
        forall|j: int|
            0 <= j < old(nodes)@.len() && j != i ==> #[trigger] final(nodes)@[j] == old(nodes)@[j],
        i < old(nodes)@.len() ==> {
            let n = final(nodes)@[i as int];
            let o = old(nodes)@[i as int];
            &&& n.id == o.id
            &&& n.name == o.name
            &&& n.ip == o.ip
            &&& n.is_up == is_up
            &&& n.sys_descr == sys_descr
        },
{
    if i < nodes.len() {
        nodes[i].is_up = is_up;
        nodes[i].sys_descr = sys_descr;
    }
}

} // verus!
