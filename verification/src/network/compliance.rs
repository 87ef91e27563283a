//! Fleet-wide compliance posture.
//!
//! The configuration text of several devices goes through the security
//! audit; each device gets its summary and the fleet an average score and
//! totals. Pure logic: the configurations arrive as text.

use vstd::prelude::*;

use crate::network::security::{
    audit, audit_findings, count_level, grade_for, grade_text,
    level_counts, penalty_fits, summary_from_counts, summary_of, views, AuditSummary, Level,
};

verus! {

/// The compliance state of one device.
#[derive(Debug, Clone)]
pub struct DevicePosture {
    pub device: String,
    pub summary: AuditSummary,
}

/// Fleet-wide compliance summary.
#[derive(Debug, Clone)]
pub struct FleetPosture {
    pub devices: Vec<DevicePosture>,
    /// Average of the device scores (0-100).
    pub average_score: u8,
    pub total_critical: usize,
    pub total_warning: usize,
    pub total_info: usize,
}

/// The audit summary of one configuration text.
pub open spec fn config_summary(config: Seq<char>) -> AuditSummary {
    summary_of(audit_findings(config))
}

/// The sum of `f` over the summaries of the configurations `cs`.
pub open spec fn fleet_sum(cs: Seq<(String, String)>, f: spec_fn(AuditSummary) -> nat) -> nat
    decreases cs.len(),
{
    if cs.len() == 0 {
        0
    } else {
        fleet_sum(cs.drop_last(), f) + f(config_summary(cs.last().1@))
    }
}

/// The sum of the device scores.
pub open spec fn score_total(cs: Seq<(String, String)>) -> nat {
    fleet_sum(cs, |s: AuditSummary| s.score as nat)
}

/// The number of critical findings over the fleet.
pub open spec fn critical_total(cs: Seq<(String, String)>) -> nat {
    fleet_sum(cs, |s: AuditSummary| s.critical as nat)
}

/// The number of warning findings over the fleet.
pub open spec fn warning_total(cs: Seq<(String, String)>) -> nat {
    fleet_sum(cs, |s: AuditSummary| s.warning as nat)
}

/// The number of info findings over the fleet.
pub open spec fn info_total(cs: Seq<(String, String)>) -> nat {
    fleet_sum(cs, |s: AuditSummary| s.info as nat)
}

/// The fleet average: 100 for an empty fleet, else the integer mean of the
/// device scores.
pub open spec fn average_of(cs: Seq<(String, String)>) -> u8 {
    if cs.len() == 0 {
        100
    } else {
        (score_total(cs) / cs.len()) as u8
    }
}

/// Every count of the fleet summary fits its type: each device's penalty
/// and each level total fit a `usize`, the sum of the device scores fits a
/// `u32`, and there are at most `u32::MAX` devices.
pub open spec fn fleet_fits(cs: Seq<(String, String)>) -> bool {
    &&& forall|i: int| 0 <= i < cs.len() ==> penalty_fits(audit_findings(#[trigger] cs[i].1@))
    &&& score_total(cs) <= u32::MAX
    &&& cs.len() <= u32::MAX
    &&& critical_total(cs) <= usize::MAX
    &&& warning_total(cs) <= usize::MAX
    &&& info_total(cs) <= usize::MAX
}

proof fn lemma_fleet_sum_prefix(cs: Seq<(String, String)>, i: int, f: spec_fn(AuditSummary) -> nat)
    requires
        0 <= i <= cs.len(),
    ensures
        fleet_sum(cs.take(i), f) <= fleet_sum(cs, f),
    decreases cs.len() - i,
{
    if i < cs.len() {
        lemma_fleet_sum_prefix(cs, i + 1, f);
        assert(cs.take(i + 1).drop_last() =~= cs.take(i));
    } else {
        assert(cs.take(i) =~= cs);
    }
}

/// No device scores above 100, so the fleet's score total is at most 100
/// per device.
pub proof fn lemma_score_total_bound(cs: Seq<(String, String)>)
    ensures
        score_total(cs) <= 100 * cs.len(),
    decreases cs.len(),
{
    if cs.len() > 0 {
        lemma_score_total_bound(cs.drop_last());
        let c = summary_of(audit_findings(cs.last().1@));
        assert(c.score <= 100);
    }
}

/// The devices of `ds` whose score is `k`, in their original order.
pub open spec fn scored(ds: Seq<DevicePosture>, k: u8) -> Seq<DevicePosture>
    decreases ds.len(),
{
    if ds.len() == 0 {
        Seq::empty()
    } else {
        scored(ds.drop_last(), k) + if ds.last().summary.score == k {
            seq![ds.last()]
        } else {
            Seq::empty()
        }
    }
}

/// The devices of `ds` with a score below `k`, lowest score first; devices
/// with equal scores keep their original order.
pub open spec fn risk_order(ds: Seq<DevicePosture>, k: nat) -> Seq<DevicePosture>
    decreases k,
{
    if k == 0 {
        Seq::empty()
    } else {
        risk_order(ds, (k - 1) as nat) + scored(ds, (k - 1) as u8)
    }
}

/// The devices of `ds` ordered by ascending score (a stable sort).
pub open spec fn by_risk(ds: Seq<DevicePosture>) -> Seq<DevicePosture> {
    risk_order(ds, 256)
}

/// The devices of `ds` with a score below `k`, in their original order.
pub open spec fn below(ds: Seq<DevicePosture>, k: nat) -> Seq<DevicePosture>
    decreases ds.len(),
{
    if ds.len() == 0 {
        Seq::empty()
    } else {
        below(ds.drop_last(), k) + if (ds.last().summary.score as nat) < k {
            seq![ds.last()]
        } else {
            Seq::empty()
        }
    }
}

proof fn lemma_scored_scores(ds: Seq<DevicePosture>, k: u8)
    ensures
        forall|i: int|
            0 <= i < scored(ds, k).len() ==> (#[trigger] scored(ds, k)[i]).summary.score == k,
    decreases ds.len(),
{
    if ds.len() > 0 {
        lemma_scored_scores(ds.drop_last(), k);
        let a = scored(ds.drop_last(), k);
        assert forall|i: int| 0 <= i < scored(ds, k).len() implies (#[trigger] scored(
            ds,
            k,
        )[i]).summary.score == k by {
            if i < a.len() {
                assert(scored(ds, k)[i] == a[i]);
            }
        }
    }
}

proof fn lemma_risk_order_sorted(ds: Seq<DevicePosture>, k: nat)
    requires
        k <= 256,
    ensures
        forall|i: int|
            0 <= i < risk_order(ds, k).len() ==> ((#[trigger] risk_order(ds, k)[i]).summary.score as nat)
                < k,
        forall|i: int, j: int|
            0 <= i <= j < risk_order(ds, k).len() ==> (#[trigger] risk_order(ds, k)[i]).summary.score
                <= (#[trigger] risk_order(ds, k)[j]).summary.score,
    decreases k,
{
    if k > 0 {
        lemma_risk_order_sorted(ds, (k - 1) as nat);
        lemma_scored_scores(ds, (k - 1) as u8);
        let a = risk_order(ds, (k - 1) as nat);
        let b = scored(ds, (k - 1) as u8);
        let c = risk_order(ds, k);
        assert(c == a + b);
        assert forall|i: int| 0 <= i < c.len() implies ((#[trigger] c[i]).summary.score as nat) < k by {
            if i < a.len() {
                assert(c[i] == a[i]);
            } else {
                assert(c[i] == b[i - a.len()]);
            }
        }
        assert forall|i: int, j: int| 0 <= i <= j < c.len() implies (#[trigger] c[i]).summary.score
            <= (#[trigger] c[j]).summary.score by {
            if j < a.len() {
                assert(c[i] == a[i]);
                assert(c[j] == a[j]);
            } else if i < a.len() {
                assert(c[i] == a[i]);
                assert(c[j] == b[j - a.len()]);
            } else {
                assert(c[i] == b[i - a.len()]);
                assert(c[j] == b[j - a.len()]);
            }
        }
    }
}

proof fn lemma_below_none(ds: Seq<DevicePosture>)
    ensures
        below(ds, 0) == Seq::<DevicePosture>::empty(),
    decreases ds.len(),
{
    if ds.len() > 0 {
        lemma_below_none(ds.drop_last());
        assert(below(ds, 0) =~= Seq::<DevicePosture>::empty());
    }
}

proof fn lemma_below_all(ds: Seq<DevicePosture>)
    ensures
        below(ds, 256) == ds,
    decreases ds.len(),
{
    if ds.len() > 0 {
        lemma_below_all(ds.drop_last());
        assert(ds.drop_last().push(ds.last()) =~= ds);
        assert(below(ds, 256) =~= ds);
    }
}

proof fn lemma_empty_multiset(e: Seq<DevicePosture>)
    requires
        e.len() == 0,
    ensures
        e.to_multiset() =~= vstd::multiset::Multiset::empty(),
{
    vstd::seq_lib::to_multiset_len(e);
    vstd::multiset::lemma_multiset_empty_len(e.to_multiset());
}

proof fn lemma_below_step(ds: Seq<DevicePosture>, j: nat)
    requires
        j < 256,
    ensures
        below(ds, j + 1).to_multiset() =~= below(ds, j).to_multiset().add(
            scored(ds, j as u8).to_multiset(),
        ),
    decreases ds.len(),
{
    broadcast use vstd::seq_lib::lemma_multiset_commutative;
    broadcast use vstd::multiset::group_multiset_axioms;

    if ds.len() == 0 {
        lemma_empty_multiset(Seq::<DevicePosture>::empty());
    } else {
        let ds1 = ds.drop_last();
        let x = ds.last();
        lemma_below_step(ds1, j);
        let e = Seq::<DevicePosture>::empty();
        let one = seq![x];
        let o1 = if (x.summary.score as nat) < j + 1 { one } else { e };
        let o0 = if (x.summary.score as nat) < j { one } else { e };
        let o2 = if x.summary.score == j as u8 { one } else { e };
        assert(below(ds, j + 1) == below(ds1, j + 1) + o1);
        assert(below(ds, j) == below(ds1, j) + o0);
        assert(scored(ds, j as u8) == scored(ds1, j as u8) + o2);
        lemma_empty_multiset(e);
        assert(o1.to_multiset() =~= o0.to_multiset().add(o2.to_multiset()));
    }
}

proof fn lemma_risk_order_multiset(ds: Seq<DevicePosture>, k: nat)
    requires
        k <= 256,
    ensures
        risk_order(ds, k).to_multiset() =~= below(ds, k).to_multiset(),
    decreases k,
{
    broadcast use vstd::seq_lib::lemma_multiset_commutative;
    broadcast use vstd::multiset::group_multiset_axioms;

    if k == 0 {
        lemma_below_none(ds);
        lemma_empty_multiset(Seq::<DevicePosture>::empty());
    } else {
        lemma_risk_order_multiset(ds, (k - 1) as nat);
        lemma_below_step(ds, (k - 1) as nat);
    }
}

/// Risk order lists the devices lowest score first, and holds exactly the
/// devices of the fleet, each as often as the fleet has it.
pub proof fn lemma_by_risk_sorted_permutation(ds: Seq<DevicePosture>)
    ensures
        forall|i: int, j: int|
            0 <= i <= j < by_risk(ds).len() ==> (#[trigger] by_risk(ds)[i]).summary.score <= (
            #[trigger] by_risk(ds)[j]).summary.score,
        by_risk(ds).to_multiset() == ds.to_multiset(),
{
    lemma_risk_order_sorted(ds, 256);
    lemma_risk_order_multiset(ds, 256);
    lemma_below_all(ds);
}

impl FleetPosture {
    /// Number of audited devices.
    pub fn device_count(&self) -> (r: usize)
        ensures
            r == self.devices@.len(),
    {
        self.devices.len()
    }

    /// The letter grade of the average score.
    pub fn grade(&self) -> (r: &'static str)
        ensures
            r == grade_text(self.average_score),
    {
        grade_for(self.average_score)
    }

    /// The devices, lowest score (highest risk) first; devices with equal
    /// scores keep their order.
    pub fn sorted_by_risk(&self) -> (r: Vec<&DevicePosture>)
        ensures
            r@.map_values(|d: &DevicePosture| *d) == by_risk(self.devices@),
    {
        let ghost ds = self.devices@;
        let mut r: Vec<&DevicePosture> = Vec::new();
        let mut k: u16 = 0;
        while k < 256
            invariant
                k <= 256,
                ds == self.devices@,
                r@.map_values(|d: &DevicePosture| *d) == risk_order(ds, k as nat),
            decreases 256 - k,
        {
            let key = k as u8;
            let mut j: usize = 0;
            proof {
                assert(ds.take(0) =~= Seq::<DevicePosture>::empty());
                assert(risk_order(ds, k as nat) + scored(ds.take(0), key) =~= risk_order(ds, k as nat));
            }
            while j < self.devices.len()
                invariant
                    k < 256,
                    key == k as u8,
                    ds == self.devices@,
                    j <= ds.len(),
                    r@.map_values(|d: &DevicePosture| *d) == risk_order(ds, k as nat) + scored(
                        ds.take(j as int),
                        key,
                    ),
                decreases ds.len() - j,
            {
                let ghost before = r@.map_values(|d: &DevicePosture| *d);
                proof {
                    assert(ds.take(j + 1).drop_last() =~= ds.take(j as int));
                }
                if self.devices[j].summary.score == key {
                    r.push(&self.devices[j]);
                    proof {
                        assert(r@.map_values(|d: &DevicePosture| *d) =~= before.push(ds[j as int]));
                    }
                } else {
                    proof {
                        assert(r@.map_values(|d: &DevicePosture| *d) =~= before + Seq::<DevicePosture>::empty());
                    }
                }
                j = j + 1;
            }
            proof {
                assert(ds.take(ds.len() as int) =~= ds);
            }
            k = k + 1;
        }
        r
    }
}

/// `r` is the posture of the fleet `cs`: one entry per device, in order,
/// with the device's name and the summary of its audit; the average score
/// and the totals of the three levels.
pub open spec fn is_fleet_posture(r: FleetPosture, cs: Seq<(String, String)>) -> bool {
    &&& r.devices@.len() == cs.len()
    &&& forall|i: int|
        0 <= i < cs.len() ==> {
            &&& (#[trigger] r.devices@[i]).device@ == cs[i].0@
            &&& r.devices@[i].summary == config_summary(cs[i].1@)
        }
    &&& r.average_score == average_of(cs)
    &&& r.total_critical == critical_total(cs)
    &&& r.total_warning == warning_total(cs)
    &&& r.total_info == info_total(cs)
}

/// The critical findings of the devices `ds`, added up.
pub open spec fn devices_critical(ds: Seq<DevicePosture>) -> nat
    decreases ds.len(),
{
    if ds.len() == 0 {
        0
    } else {
        devices_critical(ds.drop_last()) + ds.last().summary.critical as nat
    }
}

/// The warning findings of the devices `ds`, added up.
pub open spec fn devices_warning(ds: Seq<DevicePosture>) -> nat
    decreases ds.len(),
{
    if ds.len() == 0 {
        0
    } else {
        devices_warning(ds.drop_last()) + ds.last().summary.warning as nat
    }
}

/// The info findings of the devices `ds`, added up.
pub open spec fn devices_info(ds: Seq<DevicePosture>) -> nat
    decreases ds.len(),
{
    if ds.len() == 0 {
        0
    } else {
        devices_info(ds.drop_last()) + ds.last().summary.info as nat
    }
}

/// The scores of the devices `ds`, added up.
pub open spec fn devices_score(ds: Seq<DevicePosture>) -> nat
    decreases ds.len(),
{
    if ds.len() == 0 {
        0
    } else {
        devices_score(ds.drop_last()) + ds.last().summary.score as nat
    }
}

proof fn lemma_device_sums(ds: Seq<DevicePosture>, cs: Seq<(String, String)>)
    requires
        ds.len() == cs.len(),
        forall|i: int| 0 <= i < cs.len() ==> (#[trigger] ds[i]).summary == config_summary(cs[i].1@),
    ensures
        devices_critical(ds) == critical_total(cs),
        devices_warning(ds) == warning_total(cs),
        devices_info(ds) == info_total(cs),
        devices_score(ds) == score_total(cs),
    decreases cs.len(),
{
    if cs.len() > 0 {
        let n = cs.len() - 1;
        assert(ds.last() == ds[n]);
        assert forall|i: int| 0 <= i < cs.drop_last().len() implies (#[trigger] ds.drop_last()[i]).summary
            == config_summary(cs.drop_last()[i].1@) by {
            assert(ds.drop_last()[i] == ds[i]);
            assert(cs.drop_last()[i] == cs[i]);
        }
        lemma_device_sums(ds.drop_last(), cs.drop_last());
    }
}

/// A fleet summary adds up its devices: each level total is the sum of
/// that level's count over the devices, each device's counts are the
/// numbers of findings of each level in the audit of its configuration,
/// and the average score is the integer mean of the device scores (100
/// for an empty fleet).
pub proof fn lemma_fleet_adds_up(r: FleetPosture, cs: Seq<(String, String)>)
    requires
        is_fleet_posture(r, cs),
    ensures
        r.total_critical == devices_critical(r.devices@),
        r.total_warning == devices_warning(r.devices@),
        r.total_info == devices_info(r.devices@),
        forall|i: int|
            0 <= i < cs.len() ==> {
                &&& (#[trigger] r.devices@[i]).summary.critical == count_level(
                    audit_findings(cs[i].1@),
                    Level::Critical,
                ) as usize
                &&& r.devices@[i].summary.warning == count_level(
                    audit_findings(cs[i].1@),
                    Level::Warning,
                ) as usize
                &&& r.devices@[i].summary.info == count_level(audit_findings(cs[i].1@), Level::Info) as usize
            },
        r.average_score == (if cs.len() == 0 {
            100
        } else {
            (devices_score(r.devices@) / cs.len()) as u8
        }),
{
    lemma_device_sums(r.devices@, cs);
    lemma_score_total_bound(cs);
    if cs.len() > 0 {
        assert(score_total(cs) / cs.len() <= 100) by (nonlinear_arith)
            requires
                score_total(cs) <= 100 * cs.len(),
                cs.len() > 0,
        ;
    }
    assert forall|i: int| 0 <= i < cs.len() implies {
        &&& (#[trigger] r.devices@[i]).summary.critical == count_level(
            audit_findings(cs[i].1@),
            Level::Critical,
        ) as usize
        &&& r.devices@[i].summary.warning == count_level(audit_findings(cs[i].1@), Level::Warning) as usize
        &&& r.devices@[i].summary.info == count_level(audit_findings(cs[i].1@), Level::Info) as usize
    } by {
    }
}

/// Audits each configuration and summarizes the fleet, or `None` where a
/// count of the summary would not fit its type.
#[verifier::rlimit(60)]
fn fleet_scan(configs: &[(String, String)]) -> (r: Option<FleetPosture>)
    ensures
        r is Some <==> fleet_fits(configs@),
        r is Some ==> is_fleet_posture(r->0, configs@),
{
    let ghost cs = configs@;
    if configs.len() > 4294967295 {
        return None;
    }
    let mut devices: Vec<DevicePosture> = Vec::new();
    let mut total_critical: usize = 0;
    let mut total_warning: usize = 0;
    let mut total_info: usize = 0;
    let mut score_sum: u32 = 0;
    let mut i: usize = 0;
    while i < configs.len()
        invariant
            cs == configs@,
            cs.len() <= u32::MAX,
            i <= cs.len(),
            devices@.len() == i,
            forall|j: int|
                0 <= j < i ==> {
                    &&& (#[trigger] devices@[j]).device@ == cs[j].0@
                    &&& devices@[j].summary == config_summary(cs[j].1@)
                },
            forall|j: int| 0 <= j < i ==> penalty_fits(audit_findings(#[trigger] cs[j].1@)),
            score_sum == score_total(cs.take(i as int)),
            total_critical == critical_total(cs.take(i as int)),
            total_warning == warning_total(cs.take(i as int)),
            total_info == info_total(cs.take(i as int)),
        decreases cs.len() - i,
    {
        let ghost next = cs.take(i + 1);
        proof {
            assert(next.drop_last() =~= cs.take(i as int));
            assert(next.last() == cs[i as int]);
        }
        let findings = audit(configs[i].1.as_str());
        let (c, w, n) = level_counts(findings.as_slice());
        if (c as u128) * 15 + (w as u128) * 7 + (n as u128) * 2 > (usize::MAX as u128) {
            return None;
        }
        let summary = summary_from_counts(c, w, n, findings.len());
        proof {
            assert(summary == config_summary(cs[i as int].1@));
        }
        if score_sum > 4294967295 - (summary.score as u32) {
            proof {
                lemma_fleet_sum_prefix(cs, i + 1, |s: AuditSummary| s.score as nat);
            }
            return None;
        }
        if total_critical > usize::MAX - summary.critical {
            proof {
                lemma_fleet_sum_prefix(cs, i + 1, |s: AuditSummary| s.critical as nat);
            }
            return None;
        }
        if total_warning > usize::MAX - summary.warning {
            proof {
                lemma_fleet_sum_prefix(cs, i + 1, |s: AuditSummary| s.warning as nat);
            }
            return None;
        }
        if total_info > usize::MAX - summary.info {
            proof {
                lemma_fleet_sum_prefix(cs, i + 1, |s: AuditSummary| s.info as nat);
            }
            return None;
        }
        score_sum = score_sum + summary.score as u32;
        total_critical = total_critical + summary.critical;
        total_warning = total_warning + summary.warning;
        total_info = total_info + summary.info;
        devices.push(DevicePosture { device: configs[i].0.clone(), summary });
        i = i + 1;
    }
    proof {
        assert(cs.take(cs.len() as int) =~= cs);
    }
    let average_score: u8 = if devices.len() == 0 {
        100
    } else {
        proof {
            lemma_score_total_bound(cs);
            assert(score_total(cs) / cs.len() <= 100) by (nonlinear_arith)
                requires
                    score_total(cs) <= 100 * cs.len(),
                    cs.len() > 0,
            ;
        }
        (score_sum / devices.len() as u32) as u8
    };
    Some(FleetPosture { devices, average_score, total_critical, total_warning, total_info })
}

/// Audits each `(device name, configuration text)` pair and summarizes the
/// fleet.
pub fn fleet_posture(configs: &[(String, String)]) -> (r: FleetPosture)
    requires
        fleet_fits(configs@),
    ensures
        is_fleet_posture(r, configs@),
{
    match fleet_scan(configs) {
        Some(f) => f,
        None => FleetPosture {
            devices: Vec::new(),
            average_score: 100,
            total_critical: 0,
            total_warning: 0,
            total_info: 0,
        },
    }
}

/// [`fleet_posture`] where every count of the summary fits its type, else
/// `None`.
pub fn fleet_posture_checked(configs: &[(String, String)]) -> (r: Option<FleetPosture>)
    ensures
        r is Some <==> fleet_fits(configs@),
        r is Some ==> is_fleet_posture(r->0, configs@),
{
    fleet_scan(configs)
}

} // verus!
