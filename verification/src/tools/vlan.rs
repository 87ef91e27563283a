//! The VLAN planner: carves one subnet per department out of a main
//! network, largest department first, and writes the switch configuration
//! for them.

use vstd::prelude::*;
use vstd::arithmetic::power2::pow2;

use crate::network::ipv4::{ipv4_text, Ipv4Addr};
use crate::network::subnet::{first_host_of, mask_of, network_of, parse_subnet_text, Subnet};
use crate::text::{chars_of, parse_u32, parse_u32_text, push_str};

verus! {

/// The largest department the planner can place: a /1 holds this many
/// hosts.
pub const MAX_PLANNED_HOSTS: u32 = 2_147_483_646;

/// A department as entered: its name, its VLAN number and how many hosts
/// it needs, each as typed.
#[derive(Debug, Clone)]
pub struct Department {
    pub name: String,
    pub vlan_id: String,
    pub hosts: String,
}

/// The planner's state: the main network, the departments and the
/// configuration last generated.
#[derive(Debug, Clone)]
pub struct VlanTool {
    pub network_prefix: String,
    pub departments: Vec<Department>,
    pub result_config: String,
}

/// A department as the planner reads it: name, VLAN and the host count
/// (0 when the count is not a number).
pub open spec fn dept_item(d: Department) -> (Seq<char>, Seq<char>, u32) {
    (
        d.name@,
        d.vlan_id@,
        match parse_u32_text(d.hosts@) {
            Some(h) => h,
            None => 0,
        },
    )
}

/// The abstract content of a planned item.
pub open spec fn item_view(it: (String, String, u32)) -> (Seq<char>, Seq<char>, u32) {
    (it.0@, it.1@, it.2)
}

/// `x` inserted into `t` (sorted by host count, largest first) after every
/// item with at least as many hosts.
pub open spec fn insert_desc(
    t: Seq<(Seq<char>, Seq<char>, u32)>,
    x: (Seq<char>, Seq<char>, u32),
) -> Seq<(Seq<char>, Seq<char>, u32)>
    decreases t.len(),
{
    if t.len() == 0 {
        seq![x]
    } else if t.last().2 >= x.2 {
        t.push(x)
    } else {
        insert_desc(t.drop_last(), x).push(t.last())
    }
}

/// The items sorted by host count, largest first; items with equal counts
/// keep their order (a stable sort).
pub open spec fn sort_desc(s: Seq<(Seq<char>, Seq<char>, u32)>) -> Seq<(Seq<char>, Seq<char>, u32)>
    decreases s.len(),
{
    if s.len() == 0 {
        s
    } else {
        insert_desc(sort_desc(s.drop_last()), s.last())
    }
}

/// The prefix length the search settles on from `p` down: the first whose
/// block, less network and broadcast, holds the hosts.
pub open spec fn prefix_from(p: nat, hosts: u32) -> nat
    decreases p,
{
    if p == 0 || pow2((32 - p) as nat) - 2 >= hosts {
        p
    } else {
        prefix_from((p - 1) as nat, hosts)
    }
}

/// The prefix length of the smallest block that holds `hosts` hosts.
pub open spec fn block_prefix_of(hosts: u32) -> nat {
    prefix_from(32, hosts)
}

/// `cur` rounded up to a multiple of `step`.
pub open spec fn aligned(cur: int, step: int) -> int {
    if cur % step != 0 {
        cur + step - cur % step
    } else {
        cur
    }
}

/// A line made of a fixed start, a value and a newline.
pub open spec fn line_of(start: Seq<char>, value: Seq<char>) -> Seq<char> {
    start + value + "\n"@
}

/// The configuration of one department whose subnet starts at `first`
/// (its first host) with mask `mask`.
pub open spec fn dept_config(name: Seq<char>, vlan: Seq<char>, first: u32, mask: u32) -> Seq<char> {
    line_of("! Department: "@, name) + line_of("vlan "@, vlan) + line_of(" name "@, name) + line_of(
        "interface Vlan"@,
        vlan,
    ) + line_of(" description "@, name) + line_of(
        " ip address "@,
        ipv4_text(first) + " "@ + ipv4_text(mask),
    ) + " no shutdown\n\n"@
}

/// The configuration for the items placed from address `cur` on, or `None`
/// where an address would pass the end of the address space. An item with
/// no hosts, no name or no VLAN is skipped; each other one gets the next
/// block of its size, aligned to that size.
pub open spec fn plan_from(items: Seq<(Seq<char>, Seq<char>, u32)>, cur: int) -> Option<Seq<char>>
    decreases items.len(),
{
    if items.len() == 0 {
        Some(Seq::empty())
    } else {
        let it = items[0];
        if it.2 == 0 || it.0.len() == 0 || it.1.len() == 0 {
            plan_from(items.drop_first(), cur)
        } else if it.2 > MAX_PLANNED_HOSTS {
            None
        } else {
            let p = block_prefix_of(it.2);
            let step = pow2((32 - p) as nat);
            let a = aligned(cur, step as int);
            if a + step > u32::MAX {
                None
            } else {
                match plan_from(items.drop_first(), a + step) {
                    None => None,
                    Some(rest) => Some(
                        dept_config(it.0, it.1, first_host_of(a as u32, p as u8)->0, mask_of(p as u8))
                            + rest,
                    ),
                }
            }
        }
    }
}

/// What generating gives for a main network text and departments: the
/// refusal of a main network that is not `ip/prefix`, else the plan from
/// its network address (`None` where a block would pass the end of the
/// address space, or a department is too large for any block).
pub open spec fn vlan_outcome(
    network_prefix: Seq<char>,
    depts: Seq<(Seq<char>, Seq<char>, u32)>,
) -> Option<Seq<char>> {
    match parse_subnet_text(network_prefix) {
        Err(_) => Some("Geçersiz Ana Ağ CIDR formatı!"@),
        Ok((ip, p)) => plan_from(sort_desc(depts), network_of(ip, p) as int),
    }
}

/// The departments of the tool as the planner reads them.
pub open spec fn dept_items(depts: Seq<Department>) -> Seq<(Seq<char>, Seq<char>, u32)> {
    depts.map_values(|d: Department| dept_item(d))
}

/// Inserting after the last item with at least as many hosts is inserting
/// at the position where the smaller counts begin.
proof fn lemma_insert_desc_at(
    t: Seq<(Seq<char>, Seq<char>, u32)>,
    x: (Seq<char>, Seq<char>, u32),
    j: int,
)
    requires
        0 <= j <= t.len(),
        forall|k: int| j <= k < t.len() ==> t[k].2 < x.2,
        j > 0 ==> t[j - 1].2 >= x.2,
    ensures
        insert_desc(t, x) == t.insert(j, x),
    decreases t.len(),
{
    if t.len() == 0 {
        assert(t.insert(j, x) =~= seq![x]);
    } else if t.last().2 >= x.2 {
        assert(j == t.len());
        assert(t.insert(j, x) =~= t.push(x));
    } else {
        lemma_insert_desc_at(t.drop_last(), x, j);
        assert(t.drop_last().insert(j, x).push(t.last()) =~= t.insert(j, x));
    }
}

/// The search for a block never goes below a /1 for a count the planner
/// can place.
proof fn lemma_prefix_from_bounds(p: nat, hosts: u32)
    requires
        1 <= p <= 32,
        hosts <= MAX_PLANNED_HOSTS,
    ensures
        1 <= prefix_from(p, hosts) <= p,
    decreases p,
{
    if p == 1 {
        vstd::arithmetic::power2::lemma2_to64();
        assert(pow2(31) == 0x80000000);
    } else if pow2((32 - p) as nat) - 2 < hosts {
        lemma_prefix_from_bounds((p - 1) as nat, hosts);
    }
}

/// The blocks a plan gives the items placed from address `cur` on: each
/// block's first address and prefix length, in placing order.
pub open spec fn plan_blocks(items: Seq<(Seq<char>, Seq<char>, u32)>, cur: int) -> Seq<(int, nat)>
    decreases items.len(),
{
    if items.len() == 0 {
        Seq::empty()
    } else {
        let it = items[0];
        if it.2 == 0 || it.0.len() == 0 || it.1.len() == 0 {
            plan_blocks(items.drop_first(), cur)
        } else if it.2 > MAX_PLANNED_HOSTS {
            Seq::empty()
        } else {
            let p = block_prefix_of(it.2);
            let step = pow2((32 - p) as nat);
            let a = aligned(cur, step as int);
            if a + step > u32::MAX {
                Seq::empty()
            } else {
                seq![(a, p)] + plan_blocks(items.drop_first(), a + step)
            }
        }
    }
}

/// The number of items the planner places: those with hosts, a name and a
/// VLAN.
pub open spec fn placed_count(items: Seq<(Seq<char>, Seq<char>, u32)>) -> nat
    decreases items.len(),
{
    if items.len() == 0 {
        0
    } else {
        placed_count(items.drop_first()) + if items[0].2 == 0 || items[0].0.len() == 0
            || items[0].1.len() == 0 {
            0nat
        } else {
            1nat
        }
    }
}

/// The number of addresses in a block of prefix length `p`.
pub open spec fn block_size(p: nat) -> int {
    pow2((32 - p) as nat) as int
}

proof fn lemma_prefix_from_holds(q: nat, hosts: u32)
    ensures
        prefix_from(q, hosts) <= q,
        prefix_from(q, hosts) == 0 || pow2((32 - prefix_from(q, hosts)) as nat) - 2 >= hosts,
        prefix_from(q, hosts) < q ==> pow2((32 - (prefix_from(q, hosts) + 1)) as nat) - 2 < hosts,
    decreases q,
{
    if q > 0 && pow2((32 - q) as nat) - 2 < hosts {
        lemma_prefix_from_holds((q - 1) as nat, hosts);
    }
}

/// The block chosen for a department is the smallest that holds it: its
/// addresses, less network and broadcast, are enough for the hosts, and
/// the block half its size would not be.
pub proof fn lemma_block_prefix_smallest(hosts: u32)
    requires
        1 <= hosts <= MAX_PLANNED_HOSTS,
    ensures
        1 <= block_prefix_of(hosts) <= 30,
        block_size(block_prefix_of(hosts)) - 2 >= hosts,
        block_size(block_prefix_of(hosts) + 1) - 2 < hosts,
{
    lemma_prefix_from_bounds(32, hosts);
    lemma_prefix_from_holds(32, hosts);
    vstd::arithmetic::power2::lemma2_to64();
}

/// Rounding up to a multiple of a positive step gives a multiple of it,
/// no smaller than the start and less than one step above it.
proof fn lemma_aligned(cur: int, step: int)
    requires
        cur >= 0,
        step > 0,
    ensures
        aligned(cur, step) % step == 0,
        cur <= aligned(cur, step) < cur + step,
{
    vstd::arithmetic::div_mod::lemma_fundamental_div_mod(cur, step);
    let q = cur / step;
    if cur % step != 0 {
        assert(aligned(cur, step) == (q + 1) * step) by (nonlinear_arith)
            requires
                cur == step * q + cur % step,
                aligned(cur, step) == cur + step - cur % step,
        ;
        vstd::arithmetic::div_mod::lemma_mod_multiples_basic(q + 1, step);
    } else {
        assert(cur == q * step) by (nonlinear_arith)
            requires
                cur == step * q + cur % step,
                cur % step == 0,
        ;
        vstd::arithmetic::div_mod::lemma_mod_multiples_basic(q, step);
    }
}

/// A plan that stays within the address space gives each department it
/// places one block, aligned to its size, inside the address space and at
/// or after the start, and the blocks follow one another without
/// overlapping.
pub proof fn lemma_plan_blocks_disjoint(items: Seq<(Seq<char>, Seq<char>, u32)>, cur: int)
    requires
        0 <= cur,
        plan_from(items, cur) is Some,
    ensures
        plan_blocks(items, cur).len() == placed_count(items),
        forall|i: int|
            0 <= i < plan_blocks(items, cur).len() ==> {
                let b = #[trigger] plan_blocks(items, cur)[i];
                &&& 1 <= b.1 <= 30
                &&& b.0 % block_size(b.1) == 0
                &&& cur <= b.0
                &&& b.0 + block_size(b.1) <= u32::MAX
            },
        forall|i: int, j: int|
            0 <= i < j < plan_blocks(items, cur).len() ==> (#[trigger] plan_blocks(items, cur)[i]).0
                + block_size(plan_blocks(items, cur)[i].1) <= (#[trigger] plan_blocks(
                items,
                cur,
            )[j]).0,
    decreases items.len(),
{
    if items.len() > 0 {
        let it = items[0];
        if it.2 == 0 || it.0.len() == 0 || it.1.len() == 0 {
            lemma_plan_blocks_disjoint(items.drop_first(), cur);
            assert(plan_blocks(items, cur) == plan_blocks(items.drop_first(), cur));
        } else {
            assert(it.2 <= MAX_PLANNED_HOSTS);
            let p = block_prefix_of(it.2);
            let step = pow2((32 - p) as nat);
            lemma_block_prefix_smallest(it.2);
            vstd::arithmetic::power2::lemma_pow2_pos((32 - p) as nat);
            let a = aligned(cur, step as int);
            lemma_aligned(cur, step as int);
            assert(a + step <= u32::MAX);
            assert(plan_from(items.drop_first(), a + step) is Some);
            lemma_plan_blocks_disjoint(items.drop_first(), a + step);
            let rest = plan_blocks(items.drop_first(), a + step);
            let bs = plan_blocks(items, cur);
            assert(bs == seq![(a, p)] + rest);
            assert forall|i: int| 0 <= i < bs.len() implies {
                let b = #[trigger] bs[i];
                &&& 1 <= b.1 <= 30
                &&& b.0 % block_size(b.1) == 0
                &&& cur <= b.0
                &&& b.0 + block_size(b.1) <= u32::MAX
            } by {
                if i > 0 {
                    assert(bs[i] == rest[i - 1]);
                }
            }
            assert forall|i: int, j: int| 0 <= i < j < bs.len() implies (#[trigger] bs[i]).0
                + block_size(bs[i].1) <= (#[trigger] bs[j]).0 by {
                assert(bs[j] == rest[j - 1]);
                if i > 0 {
                    assert(bs[i] == rest[i - 1]);
                }
            }
        }
    }
}

/// The departments read and sorted, largest first.
fn sorted_items(depts: &Vec<Department>) -> (r: Vec<(String, String, u32)>)
    ensures
        r@.map_values(|it: (String, String, u32)| item_view(it)) == sort_desc(dept_items(depts@)),
{
    let ghost items = dept_items(depts@);
    let mut out: Vec<(String, String, u32)> = Vec::new();
    let mut k: usize = 0;
    proof {
        assert(items.take(0) =~= Seq::<(Seq<char>, Seq<char>, u32)>::empty());
    }
    while k < depts.len()
        invariant
            k <= depts.len(),
            items == dept_items(depts@),
            out@.map_values(|it: (String, String, u32)| item_view(it)) == sort_desc(
                items.take(k as int),
            ),
        decreases depts.len() - k,
    {
        let d = &depts[k];
        let hc = chars_of(d.hosts.as_str());
        let hosts: u32 = match parse_u32(hc.as_slice()) {
            Some(h) => h,
            None => 0,
        };
        let it = (d.name.clone(), d.vlan_id.clone(), hosts);
        proof {
            assert(item_view(it) == items[k as int]);
        }
        let ghost before = out@.map_values(|it: (String, String, u32)| item_view(it));
        let mut j: usize = out.len();
        while j > 0 && out[j - 1].2 < hosts
            invariant
                j <= out.len(),
                before == out@.map_values(|it: (String, String, u32)| item_view(it)),
                forall|m: int| j <= m < out.len() ==> before[m].2 < hosts,
            decreases j,
        {
            j = j - 1;
        }
        proof {
            lemma_insert_desc_at(before, item_view(it), j as int);
            assert(items.take(k + 1).drop_last() =~= items.take(k as int));
        }
        out.insert(j, it);
        proof {
            assert(out@.map_values(|it: (String, String, u32)| item_view(it)) =~= before.insert(
                j as int,
                item_view(it),
            ));
        }
        k = k + 1;
    }
    proof {
        assert(items.take(depts.len() as int) =~= items);
    }
    out
}

/// The prefix length of the smallest block for `hosts` hosts.
fn block_prefix(hosts: u32) -> (r: u32)
    requires
        1 <= hosts <= MAX_PLANNED_HOSTS,
    ensures
        r == block_prefix_of(hosts),
        1 <= r <= 32,
{
    let mut prefix: u32 = 32;
    proof {
        lemma_prefix_from_bounds(32, hosts);
    }
    loop
        invariant
            1 <= prefix <= 32,
            1 <= hosts <= MAX_PLANNED_HOSTS,
            prefix_from(prefix as nat, hosts) == block_prefix_of(hosts),
        decreases prefix,
    {
        let shift: u64 = (32 - prefix) as u64;
        proof {
            vstd::bits::lemma_u64_pow2_no_overflow(shift as nat);
            vstd::bits::lemma_u64_shl_is_mul(1, shift);
        }
        if (1u64 << shift) >= hosts as u64 + 2 {
            return prefix;
        }
        proof {
            if prefix == 1 {
                vstd::arithmetic::power2::lemma2_to64();
                assert(pow2(31) == 0x80000000);
            }
        }
        prefix = prefix - 1;
    }
}

/// Appends a line made of a fixed start, a value and a newline.
fn push_line(out: &mut String, start: &str, value: &str)
    ensures
        final(out)@ == old(out)@ + line_of(start@, value@),
{
    push_str(out, start);
    push_str(out, value);
    push_str(out, "\n");
    proof {
        assert(out@ =~= old(out)@ + line_of(start@, value@));
    }
}

/// Appends the configuration of one department.
fn push_dept_config(out: &mut String, name: &str, vlan: &str, first: &Ipv4Addr, mask: &Ipv4Addr)
    ensures
        final(out)@ == old(out)@ + dept_config(name@, vlan@, first@, mask@),
{
    let mut addr = first.to_string();
    push_str(&mut addr, " ");
    let m = mask.to_string();
    push_str(&mut addr, m.as_str());
    let ghost o0 = out@;
    push_line(out, "! Department: ", name);
    let ghost o1 = out@;
    push_line(out, "vlan ", vlan);
    let ghost o2 = out@;
    push_line(out, " name ", name);
    let ghost o3 = out@;
    push_line(out, "interface Vlan", vlan);
    let ghost o4 = out@;
    push_line(out, " description ", name);
    let ghost o5 = out@;
    push_line(out, " ip address ", addr.as_str());
    let ghost o6 = out@;
    push_str(out, " no shutdown\n\n");
    proof {
        let l1 = line_of("! Department: "@, name@);
        let l2 = line_of("vlan "@, vlan@);
        let l3 = line_of(" name "@, name@);
        let l4 = line_of("interface Vlan"@, vlan@);
        let l5 = line_of(" description "@, name@);
        let l6 = line_of(" ip address "@, addr@);
        let l7 = " no shutdown\n\n"@;
        assert(addr@ == ipv4_text(first@) + " "@ + ipv4_text(mask@));
        assert(out@ =~= o0 + (l1 + l2 + l3 + l4 + l5 + l6 + l7));
    }
}

/// Appends the configuration of one department whose block starts at `a`
/// with prefix length `p`.
fn push_block_config(out: &mut String, name: &str, vlan: &str, a: u32, p: u32)
    requires
        1 <= p <= 30,
    ensures
        final(out)@ == old(out)@ + dept_config(
            name@,
            vlan@,
            first_host_of(a, p as u8)->0,
            mask_of(p as u8),
        ),
{
    let net = match Subnet::new(Ipv4Addr::from_bits(a), p as u8) {
        Ok(n) => n,
        Err(_) => {
            proof {
                assert(false);
            }
            return;
        },
    };
    let first = match net.first_host() {
        Some(f) => f,
        None => {
            proof {
                assert(false);
            }
            return;
        },
    };
    let mask = net.mask();
    push_dept_config(out, name, vlan, &first, &mask);
}

/// The configuration for the items from address `start` on, or `None`
/// where the plan would pass the end of the address space.
fn plan(items: &Vec<(String, String, u32)>, start: u32) -> (r: Option<String>)
    ensures
        match r {
            Some(s) => plan_from(items@.map_values(|it: (String, String, u32)| item_view(it)), start as int)
                == Some(s@),
            None => plan_from(items@.map_values(|it: (String, String, u32)| item_view(it)), start as int)
                is None,
        },
{
    let ghost v = items@.map_values(|it: (String, String, u32)| item_view(it));
    let mut cur: u64 = start as u64;
    let mut out = String::new();
    let mut k: usize = 0;
    proof {
        assert(v.skip(0) =~= v);
    }
    while k < items.len()
        invariant
            k <= items.len(),
            v == items@.map_values(|it: (String, String, u32)| item_view(it)),
            cur <= u32::MAX,
            plan_from(v, start as int) == (match plan_from(v.skip(k as int), cur as int) {
                Some(rest) => Some(out@ + rest),
                None => None::<Seq<char>>,
            }),
        decreases items.len() - k,
    {
        let it = &items[k];
        proof {
            assert(v.skip(k as int)[0] == v[k as int]);
            assert(v.skip(k as int).drop_first() =~= v.skip(k + 1));
            assert(v[k as int] == item_view(*it));
        }
        if it.2 == 0 || it.0.as_str().is_empty() || it.1.as_str().is_empty() {
            k = k + 1;
        } else {
            if it.2 > MAX_PLANNED_HOSTS {
                return None;
            }
            let p = block_prefix(it.2);
            proof {
                lemma_block_prefix_smallest(it.2);
            }
            let shift: u64 = (32 - p) as u64;
            proof {
                vstd::bits::lemma_u64_pow2_no_overflow(shift as nat);
                vstd::bits::lemma_u64_shl_is_mul(1, shift);
                vstd::arithmetic::power2::lemma_pow2_pos(shift as nat);
                if shift < 31 {
                    vstd::arithmetic::power2::lemma_pow2_strictly_increases(shift as nat, 31);
                }
                vstd::arithmetic::power2::lemma2_to64();
            }
            let step: u64 = 1u64 << shift;
            let a: u64 = if cur % step != 0 {
                cur + step - cur % step
            } else {
                cur
            };
            if a + step > 4294967295 {
                return None;
            }
            let ghost before = out@;
            push_block_config(&mut out, it.0.as_str(), it.1.as_str(), a as u32, p);
            proof {
                assert(before + (dept_config(
                    it.0@,
                    it.1@,
                    first_host_of(a as u32, p as u8)->0,
                    mask_of(p as u8),
                ) + plan_from(
                    v.skip(k + 1),
                    a + step,
                )->0) =~= out@ + plan_from(v.skip(k + 1), a + step)->0);
            }
            cur = a + step;
            k = k + 1;
        }
    }
    proof {
        assert(v.skip(items.len() as int) =~= Seq::<(Seq<char>, Seq<char>, u32)>::empty());
        assert(out@ + Seq::<char>::empty() =~= out@);
    }
    Some(out)
}

/// The configuration, or `None` where generating would overflow.
fn outcome(network_prefix: &str, depts: &Vec<Department>) -> (r: Option<String>)
    ensures
        match r {
            Some(s) => vlan_outcome(network_prefix@, dept_items(depts@)) == Some(s@),
            None => vlan_outcome(network_prefix@, dept_items(depts@)) is None,
        },
{
    let root = match Subnet::parse(network_prefix) {
        Ok(n) => n,
        Err(_) => {
            return Some("Geçersiz Ana Ağ CIDR formatı!".to_owned());
        },
    };
    let items = sorted_items(depts);
    plan(&items, root.network().to_bits())
}

impl Default for VlanTool {
    /// The main network `10.0.0.0/16` with one department, `IT` on VLAN 10
    /// with 50 hosts, and no configuration yet.
    fn default() -> (r: VlanTool)
        ensures
            r.network_prefix@ == "10.0.0.0/16"@,
            r.departments.len() == 1,
            r.departments@[0].name@ == "IT"@,
            r.departments@[0].vlan_id@ == "10"@,
            r.departments@[0].hosts@ == "50"@,
            r.result_config@ == Seq::<char>::empty(),
    {
        VlanTool {
            network_prefix: "10.0.0.0/16".to_owned(),
            departments: vec![
                Department {
                    name: "IT".to_owned(),
                    vlan_id: "10".to_owned(),
                    hosts: "50".to_owned(),
                },
            ],
            result_config: String::new(),
        }
    }
}

impl VlanTool {
    /// Whether generating the configuration of the current entries stays
    /// within the address space (else [`VlanTool::generate_config`] may not
    /// be called).
    pub fn can_generate(&self) -> (r: bool)
        ensures
            r == vlan_outcome(self.network_prefix@, dept_items(self.departments@)) is Some,
    {
        outcome(self.network_prefix.as_str(), &self.departments).is_some()
    }

    /// Plans one subnet per department inside the main network, largest
    /// department first, and writes the VLAN and SVI configuration for them;
    /// a main network that is not `ip/prefix` gives an error text instead.
    pub fn generate_config(&mut self)
        requires
            vlan_outcome(old(self).network_prefix@, dept_items(old(self).departments@)) is Some,
        ensures
            final(self).network_prefix@ == old(self).network_prefix@,
            final(self).departments@ == old(self).departments@,
            final(self).result_config@ == vlan_outcome(
                old(self).network_prefix@,
                dept_items(old(self).departments@),
            )->0,
    {
        let r = outcome(self.network_prefix.as_str(), &self.departments);
        match r {
            Some(s) => {
                self.result_config = s;
            },
            None => {},
        }
    }
}

} // verus!
