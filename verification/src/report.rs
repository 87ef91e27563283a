//! Report rendering: Markdown and CSV exports of security audits and of the
//! fleet compliance posture.

use vstd::prelude::*;

use crate::network::compliance::{by_risk, lemma_by_risk_sorted_permutation, DevicePosture, FleetPosture};
use crate::network::security::{
    all_categories, category_label, code_category, code_reference, code_remediation, grade_text,
    penalty_fits, summarize, summary_of, views, AuditSummary, Category, Finding, FindingCode, FindingView, Level,
};
use crate::text::{
    chars_of, contains, contains_char, occurs_at, decimal, push_chars, push_decimal, push_str,
    replace_char, replace_char_chars, string_of,
};

verus! {

// ---------------------------------------------------------------------------
// Specifications
// ---------------------------------------------------------------------------

/// Report name of a level.
pub open spec fn level_text(l: Level) -> &'static str {
    match l {
        Level::Critical => "critical",
        Level::Warning => "warning",
        Level::Info => "info",
    }
}

/// Report name of a finding code.
pub open spec fn code_text(c: FindingCode) -> &'static str {
    match c {
            FindingCode::TelnetEnabled => "telnet_enabled",
            FindingCode::NoEnableSecret => "no_enable_secret",
            FindingCode::SnmpPublic => "snmp_public",
            FindingCode::SnmpPrivate => "snmp_private",
            FindingCode::SnmpRw => "snmp_rw",
            FindingCode::NoPasswordEncryption => "no_password_encryption",
            FindingCode::HttpServerEnabled => "http_server_enabled",
            FindingCode::WeakPassword => "weak_password",
            FindingCode::SshV1 => "ssh_v1",
            FindingCode::Type7Password => "type7_password",
            FindingCode::LinePasswordless => "line_passwordless",
            FindingCode::NoLogging => "no_logging",
            FindingCode::NoNtpAuth => "no_ntp_auth",
            FindingCode::ExecTimeoutDisabled => "exec_timeout_disabled",
            FindingCode::NoAaaNewModel => "no_aaa_new_model",
            FindingCode::NoLoginBanner => "no_login_banner",
            FindingCode::WeakEnableSecretType => "weak_enable_secret_type",
    }
}

/// A Markdown table cell: `|` is escaped and line breaks become spaces.
pub open spec fn md_cell(s: Seq<char>) -> Seq<char> {
    replace_char(replace_char(s, '|', "\\|"@), '\n', " "@)
}

/// A CSV field: quoted, with inner quotes doubled, when it holds a comma, a
/// quote or a line break; otherwise unchanged.
pub open spec fn csv_field(s: Seq<char>) -> Seq<char> {
    if s.contains(',') || s.contains('"') || s.contains('\n') {
        "\""@ + replace_char(s, '"', "\"\""@) + "\""@
    } else {
        s
    }
}

/// The findings of `fs` in category `c`, in order.
pub open spec fn in_category(fs: Seq<FindingView>, c: Category) -> Seq<FindingView>
    decreases fs.len(),
{
    if fs.len() == 0 {
        Seq::empty()
    } else {
        in_category(fs.drop_last(), c) + if code_category(fs.last().code) == c {
            seq![fs.last()]
        } else {
            Seq::empty()
        }
    }
}

/// The Markdown table row of a finding.
pub open spec fn md_row(f: FindingView) -> Seq<char> {
    "| "@ + level_text(f.level)@ + " | "@ + code_text(f.code)@ + " | "@ + (match f.line {
        Some(n) => decimal(n as nat),
        None => "-"@,
    }) + " | "@ + md_cell(
        match f.detail {
            Some(d) => d,
            None => "-"@,
        },
    ) + " | "@ + code_reference(f.code)@ + " | `"@ + code_remediation(f.code)@ + "` |\n"@
}

/// The Markdown rows of a list of findings.
pub open spec fn md_rows(fs: Seq<FindingView>) -> Seq<char>
    decreases fs.len(),
{
    if fs.len() == 0 {
        Seq::empty()
    } else {
        md_rows(fs.drop_last()) + md_row(fs.last())
    }
}

/// The Markdown section of one category: omitted when it has no findings.
pub open spec fn md_section(fs: Seq<FindingView>, c: Category) -> Seq<char> {
    let group = in_category(fs, c);
    if group.len() == 0 {
        Seq::empty()
    } else {
        "### "@ + category_label(c)@ + "\n\n"@
            + "| Severity | Code | Line | Detail | Reference | Remediation |\n"@
            + "| --- | --- | --- | --- | --- | --- |\n"@ + md_rows(group) + "\n"@
    }
}

/// The Markdown sections of the first `k` categories.
pub open spec fn md_sections(fs: Seq<FindingView>, k: nat) -> Seq<char>
    decreases k,
{
    if k == 0 || k > all_categories().len() {
        Seq::empty()
    } else {
        md_sections(fs, (k - 1) as nat) + md_section(fs, all_categories()[k - 1])
    }
}

/// The header and executive summary of a security report.
pub open spec fn md_summary(source: Seq<char>, s: AuditSummary) -> Seq<char> {
    "# OxideNMS Security Audit Report\n\n"@ + "- Source: `"@ + source + "`\n\n"@
        + "## Executive Summary\n\n"@ + "- **Security posture score: "@ + decimal(s.score as nat)
        + " / 100 (grade "@ + s.grade@ + ")**\n"@ + "- Critical: "@ + decimal(s.critical as nat)
        + " · Warning: "@ + decimal(s.warning as nat) + " · Info: "@ + decimal(s.info as nat)
        + "\n"@ + "- Total findings: "@ + decimal(s.total as nat) + "\n\n"@
}

/// The Markdown security report of `fs` for the configuration `source`.
pub open spec fn security_markdown(source: Seq<char>, fs: Seq<FindingView>) -> Seq<char> {
    let head = md_summary(source, summary_of(fs));
    if fs.len() == 0 {
        head
            + "No security issues found. The configuration meets the checked hardening baseline.\n"@
    } else {
        head + "## Findings by Category\n\n"@ + md_sections(fs, 5)
    }
}

/// The CSV record of a finding.
pub open spec fn csv_row(f: FindingView) -> Seq<char> {
    csv_field(level_text(f.level)@) + ","@ + csv_field(code_text(f.code)@) + ","@ + csv_field(
        category_label(code_category(f.code))@,
    ) + ","@ + (match f.line {
        Some(n) => decimal(n as nat),
        None => Seq::empty(),
    }) + ","@ + csv_field(
        match f.detail {
            Some(d) => d,
            None => Seq::empty(),
        },
    ) + ","@ + csv_field(code_reference(f.code)@) + ","@ + csv_field(code_remediation(f.code)@)
        + "\n"@
}

/// The CSV records of a list of findings.
pub open spec fn csv_rows(fs: Seq<FindingView>) -> Seq<char>
    decreases fs.len(),
{
    if fs.len() == 0 {
        Seq::empty()
    } else {
        csv_rows(fs.drop_last()) + csv_row(fs.last())
    }
}

/// The CSV security report of `fs`.
pub open spec fn security_csv(fs: Seq<FindingView>) -> Seq<char> {
    "severity,code,category,line,detail,reference,remediation\n"@ + csv_rows(fs)
}

/// The fleet report table row of a device.
pub open spec fn fleet_row(d: DevicePosture) -> Seq<char> {
    "| "@ + md_cell(d.device@) + " | "@ + decimal(d.summary.score as nat) + " | "@
        + d.summary.grade@ + " | "@ + decimal(d.summary.critical as nat) + " | "@ + decimal(
        d.summary.warning as nat,
    ) + " | "@ + decimal(d.summary.info as nat) + " |\n"@
}

/// The fleet report table rows of a list of devices.
pub open spec fn fleet_rows(ds: Seq<DevicePosture>) -> Seq<char>
    decreases ds.len(),
{
    if ds.len() == 0 {
        Seq::empty()
    } else {
        fleet_rows(ds.drop_last()) + fleet_row(ds.last())
    }
}

/// The Markdown fleet compliance report.
pub open spec fn fleet_markdown(f: FleetPosture) -> Seq<char> {
    let head = "# OxideNMS Fleet Compliance Report\n\n"@ + "## Fleet Summary\n\n"@
        + "- **Average posture score: "@ + decimal(f.average_score as nat) + " / 100 (grade "@
        + grade_text(f.average_score)@ + ")**\n"@ + "- Devices audited: "@ + decimal(
        f.devices@.len(),
    ) + "\n"@ + "- Critical: "@ + decimal(f.total_critical as nat) + " · Warning: "@ + decimal(
        f.total_warning as nat,
    ) + " · Info: "@ + decimal(f.total_info as nat) + "\n\n"@;
    if f.devices@.len() == 0 {
        head + "No device configurations available to audit.\n"@
    } else {
        head + "## Devices (highest risk first)\n\n"@
            + "| Device | Score | Grade | Critical | Warning | Info |\n"@
            + "| --- | --- | --- | --- | --- | --- |\n"@ + fleet_rows(by_risk(f.devices@))
    }
}


// ---------------------------------------------------------------------------
// Implementation
// ---------------------------------------------------------------------------

proof fn lemma_contains_in_left(a: Seq<char>, b: Seq<char>, p: Seq<char>)
    requires
        contains(a, p),
    ensures
        contains(a + b, p),
{
    let i = choose|i: int| occurs_at(a, p, i);
    assert((a + b).subrange(i, i + p.len()) =~= a.subrange(i, i + p.len()));
    assert(occurs_at(a + b, p, i));
}

proof fn lemma_contains_in_right(a: Seq<char>, b: Seq<char>, p: Seq<char>)
    requires
        contains(b, p),
    ensures
        contains(a + b, p),
{
    let i = choose|i: int| occurs_at(b, p, i);
    assert((a + b).subrange(i + a.len(), i + a.len() + p.len()) =~= b.subrange(i, i + p.len()));
    assert(occurs_at(a + b, p, i + a.len()));
}

proof fn lemma_contains_whole(p: Seq<char>)
    ensures
        contains(p, p),
{
    assert(p.subrange(0, p.len() as int) =~= p);
    assert(occurs_at(p, p, 0));
}

/// A finding's row stands among the rows of its category.
proof fn lemma_row_in_category(fs: Seq<FindingView>, i: int)
    requires
        0 <= i < fs.len(),
    ensures
        in_category(fs, code_category(fs[i].code)).len() > 0,
        contains(md_rows(in_category(fs, code_category(fs[i].code))), md_row(fs[i])),
    decreases fs.len(),
{
    let c = code_category(fs[i].code);
    let d = fs.drop_last();
    let g = in_category(d, c);
    if i == fs.len() - 1 {
        let h = g.push(fs.last());
        assert(in_category(fs, c) =~= h);
        assert(h.drop_last() =~= g);
        assert(md_rows(h) == md_rows(g) + md_row(fs.last()));
        lemma_contains_whole(md_row(fs[i]));
        lemma_contains_in_right(md_rows(g), md_row(fs.last()), md_row(fs[i]));
    } else {
        assert(d[i] == fs[i]);
        lemma_row_in_category(d, i);
        if code_category(fs.last().code) == c {
            let h = g.push(fs.last());
            assert(in_category(fs, c) =~= h);
            assert(h.drop_last() =~= g);
            assert(md_rows(h) == md_rows(g) + md_row(fs.last()));
            lemma_contains_in_left(md_rows(g), md_row(fs.last()), md_row(fs[i]));
        } else {
            assert(in_category(fs, c) =~= g);
        }
    }
}

/// The sections of the first `k` categories hold the section of each of
/// them.
proof fn lemma_section_in_sections(fs: Seq<FindingView>, k: nat, j: int)
    requires
        0 <= j < k <= all_categories().len(),
    ensures
        contains(md_sections(fs, k), md_section(fs, all_categories()[j])),
    decreases k,
{
    let last = md_section(fs, all_categories()[k - 1]);
    if j == k - 1 {
        lemma_contains_whole(last);
        lemma_contains_in_right(md_sections(fs, (k - 1) as nat), last, last);
    } else {
        lemma_section_in_sections(fs, (k - 1) as nat, j);
        lemma_contains_in_left(md_sections(fs, (k - 1) as nat), last, md_section(fs, all_categories()[j]));
    }
}

/// The position of a category in report order.
spec fn category_index(c: Category) -> int {
    match c {
        Category::Access => 0,
        Category::Authentication => 1,
        Category::Snmp => 2,
        Category::Services => 3,
        Category::Logging => 4,
    }
}

proof fn lemma_markdown_lists_finding(source: Seq<char>, fs: Seq<FindingView>, i: int)
    requires
        0 <= i < fs.len(),
    ensures
        contains(security_markdown(source, fs), md_row(fs[i])),
        contains(
            security_markdown(source, fs),
            "### "@ + category_label(code_category(fs[i].code))@ + "\n\n"@,
        ),
{
    let c = code_category(fs[i].code);
    let head = md_summary(source, summary_of(fs));
    let label = "### "@ + category_label(c)@ + "\n\n"@;
    let tab = "| Severity | Code | Line | Detail | Reference | Remediation |\n"@
        + "| --- | --- | --- | --- | --- | --- |\n"@;
    let group = in_category(fs, c);
    lemma_row_in_category(fs, i);
    let sec = md_section(fs, c);
    assert(sec == label + tab + md_rows(group) + "\n"@) by {
        assert(label + tab + md_rows(group) + "\n"@ =~= "### "@ + category_label(c)@ + "\n\n"@
            + "| Severity | Code | Line | Detail | Reference | Remediation |\n"@
            + "| --- | --- | --- | --- | --- | --- |\n"@ + md_rows(group) + "\n"@);
    }
    lemma_contains_in_right(label + tab, md_rows(group), md_row(fs[i]));
    lemma_contains_in_left(label + tab + md_rows(group), "\n"@, md_row(fs[i]));
    lemma_contains_whole(label);
    lemma_contains_in_left(label, tab, label);
    lemma_contains_in_left(label + tab, md_rows(group), label);
    lemma_contains_in_left(label + tab + md_rows(group), "\n"@, label);
    let j = category_index(c);
    assert(all_categories()[j] == c);
    lemma_section_in_sections(fs, 5, j);
    let secs = md_sections(fs, 5);
    assert(contains(secs, sec));
    assert(security_markdown(source, fs) == head + "## Findings by Category\n\n"@ + secs);
    assert forall|p: Seq<char>| contains(sec, p) implies contains(security_markdown(source, fs), p) by {
        lemma_contains_trans(secs, sec, p);
        lemma_contains_in_right(head + "## Findings by Category\n\n"@, secs, p);
    }
}

/// The Markdown report lists every finding: for each finding, the report
/// holds the heading of its category and the finding's table row.
pub proof fn lemma_markdown_lists_every_finding(source: Seq<char>, fs: Seq<FindingView>)
    ensures
        forall|i: int|
            0 <= i < fs.len() ==> {
                &&& contains(security_markdown(source, fs), (#[trigger] md_row(fs[i])))
                &&& contains(
                    security_markdown(source, fs),
                    "### "@ + category_label(code_category(fs[i].code))@ + "\n\n"@,
                )
            },
{
    assert forall|i: int| 0 <= i < fs.len() implies {
        &&& contains(security_markdown(source, fs), (#[trigger] md_row(fs[i])))
        &&& contains(
            security_markdown(source, fs),
            "### "@ + category_label(code_category(fs[i].code))@ + "\n\n"@,
        )
    } by {
        lemma_markdown_lists_finding(source, fs, i);
    }
}

proof fn lemma_csv_rows_contain(fs: Seq<FindingView>, i: int)
    requires
        0 <= i < fs.len(),
    ensures
        contains(csv_rows(fs), csv_row(fs[i])),
    decreases fs.len(),
{
    let d = fs.drop_last();
    if i == fs.len() - 1 {
        lemma_contains_whole(csv_row(fs[i]));
        lemma_contains_in_right(csv_rows(d), csv_row(fs.last()), csv_row(fs[i]));
    } else {
        assert(d[i] == fs[i]);
        lemma_csv_rows_contain(d, i);
        lemma_contains_in_left(csv_rows(d), csv_row(fs.last()), csv_row(fs[i]));
    }
}

/// The CSV report holds the record of every finding.
pub proof fn lemma_csv_lists_every_finding(fs: Seq<FindingView>)
    ensures
        forall|i: int| 0 <= i < fs.len() ==> contains(security_csv(fs), #[trigger] csv_row(fs[i])),
{
    assert forall|i: int| 0 <= i < fs.len() implies contains(security_csv(fs), #[trigger] csv_row(fs[i])) by {
        lemma_csv_rows_contain(fs, i);
        lemma_contains_in_right(
            "severity,code,category,line,detail,reference,remediation\n"@,
            csv_rows(fs),
            csv_row(fs[i]),
        );
    }
}

proof fn lemma_fleet_rows_contain(ds: Seq<DevicePosture>, i: int)
    requires
        0 <= i < ds.len(),
    ensures
        contains(fleet_rows(ds), fleet_row(ds[i])),
    decreases ds.len(),
{
    let d = ds.drop_last();
    if i == ds.len() - 1 {
        lemma_contains_whole(fleet_row(ds[i]));
        lemma_contains_in_right(fleet_rows(d), fleet_row(ds.last()), fleet_row(ds[i]));
    } else {
        assert(d[i] == ds[i]);
        lemma_fleet_rows_contain(d, i);
        lemma_contains_in_left(fleet_rows(d), fleet_row(ds.last()), fleet_row(ds[i]));
    }
}

proof fn lemma_fleet_report_lists_device(f: FleetPosture, i: int)
    requires
        0 <= i < f.devices@.len(),
    ensures
        contains(fleet_markdown(f), fleet_row(f.devices@[i])),
{
    let ds = f.devices@;
    let d = ds[i];
    lemma_by_risk_sorted_permutation(ds);
    vstd::seq_lib::to_multiset_contains(ds, d);
    vstd::seq_lib::to_multiset_contains(by_risk(ds), d);
    assert(ds.contains(d));
    assert(by_risk(ds).contains(d));
    let k = choose|k: int| 0 <= k < by_risk(ds).len() && by_risk(ds)[k] == d;
    lemma_fleet_rows_contain(by_risk(ds), k);
    let head = "# OxideNMS Fleet Compliance Report\n\n"@ + "## Fleet Summary\n\n"@
        + "- **Average posture score: "@ + decimal(f.average_score as nat) + " / 100 (grade "@
        + grade_text(f.average_score)@ + ")**\n"@ + "- Devices audited: "@ + decimal(
        f.devices@.len(),
    ) + "\n"@ + "- Critical: "@ + decimal(f.total_critical as nat) + " · Warning: "@ + decimal(
        f.total_warning as nat,
    ) + " · Info: "@ + decimal(f.total_info as nat) + "\n\n"@;
    let top = head + "## Devices (highest risk first)\n\n"@
        + "| Device | Score | Grade | Critical | Warning | Info |\n"@
        + "| --- | --- | --- | --- | --- | --- |\n"@;
    assert(fleet_markdown(f) == top + fleet_rows(by_risk(ds)));
    lemma_contains_in_right(top, fleet_rows(by_risk(ds)), fleet_row(d));
}

/// The fleet report holds the table row of every device.
pub proof fn lemma_fleet_report_lists_every_device(f: FleetPosture)
    ensures
        forall|i: int|
            0 <= i < f.devices@.len() ==> contains(fleet_markdown(f), #[trigger] fleet_row(f.devices@[i])),
{
    assert forall|i: int| 0 <= i < f.devices@.len() implies contains(
        fleet_markdown(f),
        #[trigger] fleet_row(f.devices@[i]),
    ) by {
        lemma_fleet_report_lists_device(f, i);
    }
}

/// A text held by a part of `s` is held by `s`.
proof fn lemma_contains_trans(s: Seq<char>, part: Seq<char>, p: Seq<char>)
    requires
        contains(s, part),
        contains(part, p),
    ensures
        contains(s, p),
{
    let i = choose|i: int| occurs_at(s, part, i);
    let k = choose|k: int| occurs_at(part, p, k);
    assert(s.subrange(i + k, i + k + p.len()) =~= part.subrange(k, k + p.len()));
    assert(occurs_at(s, p, i + k));
}

proof fn lemma_assoc(a: Seq<char>, b: Seq<char>, c: Seq<char>)
    ensures
        (a + b) + c == a + (b + c),
{
    assert((a + b) + c =~= a + (b + c));
}

/// Escapes `|` and line breaks for a Markdown table cell.
fn md_escape(value: &str) -> (r: String)
    ensures
        r@ == md_cell(value@),
{
    let cs = chars_of(value);
    let a = replace_char_chars(cs.as_slice(), '|', "\\|");
    let b = replace_char_chars(a.as_slice(), '\n', " ");
    string_of(b.as_slice())
}

/// Report name of a level.
fn level_name(level: Level) -> (r: &'static str)
    ensures
        r == level_text(level),
{
    match level {
        Level::Critical => "critical",
        Level::Warning => "warning",
        Level::Info => "info",
    }
}

/// Report name of a finding code.
fn code_name(code: FindingCode) -> (r: &'static str)
    ensures
        r == code_text(code),
{
    match code {
                FindingCode::TelnetEnabled => "telnet_enabled",
                FindingCode::NoEnableSecret => "no_enable_secret",
                FindingCode::SnmpPublic => "snmp_public",
                FindingCode::SnmpPrivate => "snmp_private",
                FindingCode::SnmpRw => "snmp_rw",
                FindingCode::NoPasswordEncryption => "no_password_encryption",
                FindingCode::HttpServerEnabled => "http_server_enabled",
                FindingCode::WeakPassword => "weak_password",
                FindingCode::SshV1 => "ssh_v1",
                FindingCode::Type7Password => "type7_password",
                FindingCode::LinePasswordless => "line_passwordless",
                FindingCode::NoLogging => "no_logging",
                FindingCode::NoNtpAuth => "no_ntp_auth",
                FindingCode::ExecTimeoutDisabled => "exec_timeout_disabled",
                FindingCode::NoAaaNewModel => "no_aaa_new_model",
                FindingCode::NoLoginBanner => "no_login_banner",
                FindingCode::WeakEnableSecretType => "weak_enable_secret_type",
    }
}

/// Quotes a CSV field when it holds a comma, a quote or a line break.
pub fn csv_escape(value: &str) -> (r: String)
    ensures
        r@ == csv_field(value@),
{
    let cs = chars_of(value);
    if contains_char(cs.as_slice(), ',') || contains_char(cs.as_slice(), '"') || contains_char(
        cs.as_slice(),
        '\n',
    ) {
        let inner = replace_char_chars(cs.as_slice(), '"', "\"\"");
        let mut out = String::new();
        push_str(&mut out, "\"");
        push_chars(&mut out, inner.as_slice());
        push_str(&mut out, "\"");
        proof {
            assert(out@ =~= "\""@ + replace_char(value@, '"', "\"\""@) + "\""@);
        }
        out
    } else {
        string_of(cs.as_slice())
    }
}

/// Appends the Markdown table row of a finding.
fn push_md_row(out: &mut String, f: &Finding)
    ensures
        final(out)@ == old(out)@ + md_row(f@),
{
    let ghost o = out@;
    push_str(out, "| ");
    push_str(out, level_name(f.level));
    push_str(out, " | ");
    push_str(out, code_name(f.code));
    push_str(out, " | ");
    match f.line {
        Some(n) => push_decimal(out, n as u64),
        None => push_str(out, "-"),
    }
    push_str(out, " | ");
    let cell = match &f.detail {
        Some(d) => md_escape(d.as_str()),
        None => md_escape("-"),
    };
    push_str(out, cell.as_str());
    push_str(out, " | ");
    push_str(out, f.code.reference());
    push_str(out, " | `");
    push_str(out, f.code.remediation());
    push_str(out, "` |\n");
    proof {
        assert(out@ =~= o + md_row(f@));
    }
}

/// Appends the Markdown section of category `c`.
fn push_md_section(out: &mut String, findings: &[Finding], c: Category)
    ensures
        final(out)@ == old(out)@ + md_section(views(findings@), c),
{
    let ghost o = out@;
    let ghost fs = views(findings@);
    let mut count: usize = 0;
    let mut j: usize = 0;
    while j < findings.len()
        invariant
            j <= findings.len(),
            fs == views(findings@),
            count == in_category(views(findings@.take(j as int)), c).len(),
            count <= j,
        decreases findings.len() - j,
    {
        proof {
            assert(views(findings@.take(j + 1)).drop_last() =~= views(findings@.take(j as int)));
        }
        if findings[j].code.category() == c {
            count = count + 1;
        }
        j = j + 1;
    }
    proof {
        assert(findings@.take(findings.len() as int) =~= findings@);
    }
    if count == 0 {
        proof {
            assert(out@ =~= o + md_section(fs, c));
        }
        return ;
    }
    push_str(out, "### ");
    push_str(out, c.label());
    push_str(out, "\n\n");
    push_str(out, "| Severity | Code | Line | Detail | Reference | Remediation |\n");
    push_str(out, "| --- | --- | --- | --- | --- | --- |\n");
    let ghost head = out@;
    let mut j: usize = 0;
    proof {
        assert(findings@.take(0) =~= Seq::<Finding>::empty());
        assert(views(findings@.take(0)) =~= Seq::<FindingView>::empty());
        assert(head =~= head + md_rows(in_category(views(findings@.take(0)), c)));
    }
    while j < findings.len()
        invariant
            j <= findings.len(),
            out@ == head + md_rows(in_category(views(findings@.take(j as int)), c)),
        decreases findings.len() - j,
    {
        let ghost before = out@;
        let ghost prev = in_category(views(findings@.take(j as int)), c);
        proof {
            assert(views(findings@.take(j + 1)).drop_last() =~= views(findings@.take(j as int)));
            assert(views(findings@.take(j + 1)).last() == findings@[j as int]@);
        }
        if findings[j].code.category() == c {
            push_md_row(out, &findings[j]);
            proof {
                let now = in_category(views(findings@.take(j + 1)), c);
                assert(now == prev + seq![findings@[j as int]@]);
                assert(now.drop_last() =~= prev);
                assert(md_rows(now) == md_rows(prev) + md_row(findings@[j as int]@));
                lemma_assoc(head, md_rows(prev), md_row(findings@[j as int]@));
            }
        } else {
            proof {
                let now = in_category(views(findings@.take(j + 1)), c);
                assert(now =~= prev);
            }
        }
        j = j + 1;
    }
    push_str(out, "\n");
    proof {
        assert(findings@.take(findings.len() as int) =~= findings@);
        assert(out@ =~= o + md_section(fs, c));
    }
}

/// Renders the Markdown security audit report of `findings` for the
/// configuration named `source`: header, executive summary (score, grade
/// and level counts) and the findings grouped by category.
pub fn security_markdown_report(source: &str, findings: &[Finding]) -> (r: String)
    requires
        penalty_fits(views(findings@)),
    ensures
        r@ == security_markdown(source@, views(findings@)),
{
    let summary = summarize(findings);
    let mut out = String::new();
    push_str(&mut out, "# OxideNMS Security Audit Report\n\n");
    push_str(&mut out, "- Source: `");
    push_str(&mut out, source);
    push_str(&mut out, "`\n\n");
    push_str(&mut out, "## Executive Summary\n\n");
    push_str(&mut out, "- **Security posture score: ");
    push_decimal(&mut out, summary.score as u64);
    push_str(&mut out, " / 100 (grade ");
    push_str(&mut out, summary.grade);
    push_str(&mut out, ")**\n");
    push_str(&mut out, "- Critical: ");
    push_decimal(&mut out, summary.critical as u64);
    push_str(&mut out, " · Warning: ");
    push_decimal(&mut out, summary.warning as u64);
    push_str(&mut out, " · Info: ");
    push_decimal(&mut out, summary.info as u64);
    push_str(&mut out, "\n");
    push_str(&mut out, "- Total findings: ");
    push_decimal(&mut out, summary.total as u64);
    push_str(&mut out, "\n\n");
    let ghost fs = views(findings@);
    proof {
        assert(out@ =~= Seq::<char>::empty() + md_summary(source@, summary_of(fs)));
    }
    if findings.len() == 0 {
        push_str(
            &mut out,
            "No security issues found. The configuration meets the checked hardening baseline.\n",
        );
        return out;
    }
    push_str(&mut out, "## Findings by Category\n\n");
    let ghost head = out@;
    let cats = Category::all();
    let mut k: usize = 0;
    proof {
        assert(head =~= head + md_sections(fs, 0));
    }
    while k < cats.len()
        invariant
            k <= cats.len(),
            cats@ == all_categories(),
            fs == views(findings@),
            out@ == head + md_sections(fs, k as nat),
        decreases cats.len() - k,
    {
        let ghost before = md_sections(fs, k as nat);
        push_md_section(&mut out, findings, cats[k]);
        proof {
            lemma_assoc(head, before, md_section(fs, all_categories()[k as int]));
        }
        k = k + 1;
    }
    out
}

/// Appends the CSV record of a finding.
fn push_csv_row(out: &mut String, f: &Finding)
    ensures
        final(out)@ == old(out)@ + csv_row(f@),
{
    let ghost o = out@;
    let ghost v = f@;
    let level = csv_escape(level_name(f.level));
    let code = csv_escape(code_name(f.code));
    let cat = csv_escape(f.code.category().label());
    let line: Vec<char> = match f.line {
        Some(n) => crate::text::decimal_chars(n as u64),
        None => Vec::new(),
    };
    let detail = match &f.detail {
        Some(t) => csv_escape(t.as_str()),
        None => {
            let e = String::new();
            csv_escape(e.as_str())
        },
    };
    let reference = csv_escape(f.code.reference());
    let remediation = csv_escape(f.code.remediation());
    let mut row = String::new();
    push_str(&mut row, level.as_str());
    push_str(&mut row, ",");
    push_str(&mut row, code.as_str());
    push_str(&mut row, ",");
    push_str(&mut row, cat.as_str());
    push_str(&mut row, ",");
    push_chars(&mut row, line.as_slice());
    push_str(&mut row, ",");
    push_str(&mut row, detail.as_str());
    push_str(&mut row, ",");
    push_str(&mut row, reference.as_str());
    push_str(&mut row, ",");
    push_str(&mut row, remediation.as_str());
    push_str(&mut row, "\n");
    proof {
        let line_v = match v.line {
            Some(n) => decimal(n as nat),
            None => Seq::empty(),
        };
        assert(line@ == line_v);
        let detail_v = match v.detail {
            Some(d) => d,
            None => Seq::empty(),
        };
        assert(detail@ == csv_field(detail_v));
        assert(row@ =~= Seq::<char>::empty() + csv_row(v));
    }
    push_str(out, row.as_str());
}

/// Renders the CSV security report: a header, then one record per finding.
pub fn security_csv_report(findings: &[Finding]) -> (r: String)
    ensures
        r@ == security_csv(views(findings@)),
{
    let mut out = String::new();
    push_str(&mut out, "severity,code,category,line,detail,reference,remediation\n");
    let ghost head = out@;
    let mut j: usize = 0;
    proof {
        assert(views(findings@.take(0)) =~= Seq::<FindingView>::empty());
        assert(head =~= head + csv_rows(views(findings@.take(0))));
    }
    while j < findings.len()
        invariant
            j <= findings.len(),
            out@ == head + csv_rows(views(findings@.take(j as int))),
        decreases findings.len() - j,
    {
        let ghost prev = views(findings@.take(j as int));
        push_csv_row(&mut out, &findings[j]);
        proof {
            let now = views(findings@.take(j + 1));
            assert(now.drop_last() =~= prev);
            assert(now.last() == findings@[j as int]@);
            lemma_assoc(head, csv_rows(prev), csv_row(findings@[j as int]@));
        }
        j = j + 1;
    }
    proof {
        assert(findings@.take(findings.len() as int) =~= findings@);
        assert(head =~= Seq::<char>::empty() + "severity,code,category,line,detail,reference,remediation\n"@);
    }
    out
}

/// Appends the fleet report table row of a device.
fn push_fleet_row(out: &mut String, d: &DevicePosture)
    ensures
        final(out)@ == old(out)@ + fleet_row(*d),
{
    let ghost o = out@;
    push_str(out, "| ");
    let name = md_escape(d.device.as_str());
    push_str(out, name.as_str());
    push_str(out, " | ");
    push_decimal(out, d.summary.score as u64);
    push_str(out, " | ");
    push_str(out, d.summary.grade);
    push_str(out, " | ");
    push_decimal(out, d.summary.critical as u64);
    push_str(out, " | ");
    push_decimal(out, d.summary.warning as u64);
    push_str(out, " | ");
    push_decimal(out, d.summary.info as u64);
    push_str(out, " |\n");
    proof {
        assert(out@ =~= o + fleet_row(*d));
    }
}

/// Renders the Markdown fleet compliance report: the fleet summary, then
/// one table row per device, highest risk first.
pub fn fleet_markdown_report(fleet: &FleetPosture) -> (r: String)
    ensures
        r@ == fleet_markdown(*fleet),
{
    let mut out = String::new();
    push_str(&mut out, "# OxideNMS Fleet Compliance Report\n\n");
    push_str(&mut out, "## Fleet Summary\n\n");
    push_str(&mut out, "- **Average posture score: ");
    push_decimal(&mut out, fleet.average_score as u64);
    push_str(&mut out, " / 100 (grade ");
    push_str(&mut out, fleet.grade());
    push_str(&mut out, ")**\n");
    push_str(&mut out, "- Devices audited: ");
    push_decimal(&mut out, fleet.device_count() as u64);
    push_str(&mut out, "\n");
    push_str(&mut out, "- Critical: ");
    push_decimal(&mut out, fleet.total_critical as u64);
    push_str(&mut out, " · Warning: ");
    push_decimal(&mut out, fleet.total_warning as u64);
    push_str(&mut out, " · Info: ");
    push_decimal(&mut out, fleet.total_info as u64);
    push_str(&mut out, "\n\n");
    let ghost head = out@;
    if fleet.devices.len() == 0 {
        push_str(&mut out, "No device configurations available to audit.\n");
        proof {
            assert(out@ =~= fleet_markdown(*fleet));
        }
        return out;
    }
    push_str(&mut out, "## Devices (highest risk first)\n\n");
    push_str(&mut out, "| Device | Score | Grade | Critical | Warning | Info |\n");
    push_str(&mut out, "| --- | --- | --- | --- | --- | --- |\n");
    let ghost head2 = out@;
    let sorted = fleet.sorted_by_risk();
    let ghost ds = sorted@.map_values(|d: &DevicePosture| *d);
    let mut j: usize = 0;
    proof {
        assert(ds.take(0) =~= Seq::<DevicePosture>::empty());
        assert(head2 =~= head2 + fleet_rows(ds.take(0)));
    }
    while j < sorted.len()
        invariant
            j <= sorted.len(),
            ds == sorted@.map_values(|d: &DevicePosture| *d),
            out@ == head2 + fleet_rows(ds.take(j as int)),
        decreases sorted.len() - j,
    {
        let ghost prev = ds.take(j as int);
        push_fleet_row(&mut out, sorted[j]);
        proof {
            let now = ds.take(j + 1);
            assert(now.drop_last() =~= prev);
            assert(now.last() == *sorted@[j as int]);
            lemma_assoc(head2, fleet_rows(prev), fleet_row(*sorted@[j as int]));
        }
        j = j + 1;
    }
    proof {
        assert(ds.take(ds.len() as int) =~= ds);
        assert(out@ =~= fleet_markdown(*fleet));
    }
    out
}

} // verus!
