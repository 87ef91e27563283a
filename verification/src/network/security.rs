//! Cisco configuration hardening audit.
//!
//! A configuration text goes in; the list of risky or weak settings it holds
//! comes out, in the order the scanner meets them, followed by the findings
//! about settings missing from the whole configuration. The rules match the
//! lowercased, trimmed text of each line; `line con/vty/aux` blocks are
//! followed to see whether they require a password.

use vstd::prelude::*;

use crate::text::{
    chars_of, contains, contains_str, lemma_lines_len, eq_str, last_word, last_word_chars, lines, lower, ascii_lower, is_ascii_text, is_ws, trim_end, trim_start, occurs_at,
    split_lines, starts_with, starts_with_str, string_of, to_lower, trim, trim_chars,
};

verus! {

/// Severity of a finding.
#[derive(Debug, Clone, Copy, PartialEq, Eq, Structural)]
pub enum Level {
    Critical,
    Warning,
    Info,
}

/// Sort rank of a level: lower is more severe.
pub open spec fn level_rank(l: Level) -> u8 {
    match l {
        Level::Critical => 0,
        Level::Warning => 1,
        Level::Info => 2,
    }
}

impl Level {
    /// Sort rank of the level: the smaller the number, the more severe.
    pub fn sira(&self) -> (r: u8)
        ensures
            r == level_rank(*self),
    {
        match self {
            Level::Critical => 0,
            Level::Warning => 1,
            Level::Info => 2,
        }
    }
}

/// The rule that produced a finding.
#[derive(Debug, Clone, Copy, PartialEq, Eq, Structural)]
pub enum FindingCode {
    TelnetEnabled,
    NoEnableSecret,
    SnmpPublic,
    SnmpPrivate,
    SnmpRw,
    NoPasswordEncryption,
    HttpServerEnabled,
    WeakPassword,
    SshV1,
    Type7Password,
    LinePasswordless,
    NoLogging,
    NoNtpAuth,
    ExecTimeoutDisabled,
    NoAaaNewModel,
    NoLoginBanner,
    WeakEnableSecretType,
}

/// One security finding.
#[derive(Debug, Clone)]
pub struct Finding {
    pub level: Level,
    pub code: FindingCode,
    /// Line number of the offending line (counted from 1), if any.
    pub line: Option<usize>,
    /// Text of the offending line, if any.
    pub detail: Option<String>,
}

/// The mathematical value of a finding.
pub struct FindingView {
    pub level: Level,
    pub code: FindingCode,
    pub line: Option<usize>,
    pub detail: Option<Seq<char>>,
}

/// The characters of an optional text.
pub open spec fn opt_text(s: Option<String>) -> Option<Seq<char>> {
    match s {
        Some(t) => Some(t@),
        None => None,
    }
}

impl View for Finding {
    type V = FindingView;

    open spec fn view(&self) -> FindingView {
        FindingView {
            level: self.level,
            code: self.code,
            line: self.line,
            detail: opt_text(self.detail),
        }
    }
}

/// The values of a list of findings.
pub open spec fn views(fs: Seq<Finding>) -> Seq<FindingView> {
    fs.map_values(|f: Finding| f@)
}

/// Report category of a finding.
#[derive(Debug, Clone, Copy, PartialEq, Eq, Structural)]
pub enum Category {
    Access,
    Authentication,
    Snmp,
    Services,
    Logging,
}

/// All categories, in report order.
pub open spec fn all_categories() -> Seq<Category> {
    seq![
        Category::Access,
        Category::Authentication,
        Category::Snmp,
        Category::Services,
        Category::Logging,
    ]
}

/// Display label of a category.
pub open spec fn category_label(c: Category) -> &'static str {
    match c {
        Category::Access => "Access & Remote Management",
        Category::Authentication => "Authentication & Passwords",
        Category::Snmp => "SNMP",
        Category::Services => "Services",
        Category::Logging => "Logging & Time",
    }
}

impl Category {
    /// All categories; reports group findings in this order.
    pub fn all() -> (r: &'static [Category])
        ensures
            r@ == all_categories(),
    {
        let r: &'static [Category] = &[
            Category::Access,
            Category::Authentication,
            Category::Snmp,
            Category::Services,
            Category::Logging,
        ];
        proof {
            assert(r@ =~= all_categories());
        }
        r
    }

    /// Display label of the category (English, for reports).
    pub fn label(&self) -> (r: &'static str)
        ensures
            r == category_label(*self),
    {
        match self {
            Category::Access => "Access & Remote Management",
            Category::Authentication => "Authentication & Passwords",
            Category::Snmp => "SNMP",
            Category::Services => "Services",
            Category::Logging => "Logging & Time",
        }
    }
}

/// Category of a finding code.
pub open spec fn code_category(c: FindingCode) -> Category {
    match c {
        FindingCode::TelnetEnabled
        | FindingCode::LinePasswordless
        | FindingCode::ExecTimeoutDisabled
        | FindingCode::SshV1
        | FindingCode::NoLoginBanner => Category::Access,
        FindingCode::NoEnableSecret
        | FindingCode::WeakEnableSecretType
        | FindingCode::NoPasswordEncryption
        | FindingCode::WeakPassword
        | FindingCode::Type7Password
        | FindingCode::NoAaaNewModel => Category::Authentication,
        FindingCode::SnmpPublic | FindingCode::SnmpPrivate | FindingCode::SnmpRw => Category::Snmp,
        FindingCode::HttpServerEnabled => Category::Services,
        FindingCode::NoLogging | FindingCode::NoNtpAuth => Category::Logging,
    }
}

/// Security framework reference of a finding code.
pub open spec fn code_reference(c: FindingCode) -> &'static str {
    match c {
            FindingCode::TelnetEnabled => "CIS IOS: Access Rules · NIST AC-17",
            FindingCode::NoEnableSecret => "CIS IOS: Password Rules · NIST IA-5",
            FindingCode::SnmpPublic => "CIS IOS: SNMP Rules · NIST CM-6",
            FindingCode::SnmpPrivate => "CIS IOS: SNMP Rules · NIST CM-6",
            FindingCode::SnmpRw => "CIS IOS: SNMP Rules · NIST CM-6",
            FindingCode::NoPasswordEncryption => "CIS IOS: Password Rules · NIST IA-5",
            FindingCode::HttpServerEnabled => "CIS IOS: Services · NIST CM-7",
            FindingCode::WeakPassword => "CIS IOS: Password Rules · NIST IA-5",
            FindingCode::SshV1 => "CIS IOS: Access Rules · NIST AC-17",
            FindingCode::Type7Password => "CIS IOS: Password Rules · NIST IA-5",
            FindingCode::LinePasswordless => "CIS IOS: Access Rules · NIST AC-3",
            FindingCode::NoLogging => "CIS IOS: Logging Rules · NIST AU-2",
            FindingCode::NoNtpAuth => "CIS IOS: NTP Rules · NIST AU-8",
            FindingCode::ExecTimeoutDisabled => "CIS IOS: Access Rules · NIST AC-12",
            FindingCode::NoAaaNewModel => "CIS IOS: Local AAA Rules · NIST IA-2",
            FindingCode::NoLoginBanner => "CIS IOS: Banner Rules · NIST AC-8",
            FindingCode::WeakEnableSecretType => "CIS IOS: Password Rules · NIST IA-5",
    }
}

/// Example Cisco IOS remediation of a finding code.
pub open spec fn code_remediation(c: FindingCode) -> &'static str {
    match c {
            FindingCode::TelnetEnabled => "line vty 0 4 ; transport input ssh",
            FindingCode::NoEnableSecret => "enable secret <strong-password>",
            FindingCode::SnmpPublic => "no snmp-server community public ; use SNMPv3",
            FindingCode::SnmpPrivate => "no snmp-server community private ; use SNMPv3",
            FindingCode::SnmpRw => "avoid RW communities; use SNMPv3 with views",
            FindingCode::NoPasswordEncryption => "service password-encryption",
            FindingCode::HttpServerEnabled => "no ip http server ; ip http secure-server",
            FindingCode::WeakPassword => "use a long, unique, non-default password",
            FindingCode::SshV1 => "ip ssh version 2",
            FindingCode::Type7Password => "replace type-7 with 'secret' (type 8/9)",
            FindingCode::LinePasswordless => "line vty 0 4 ; login local",
            FindingCode::NoLogging => "logging host <syslog-ip>",
            FindingCode::NoNtpAuth => "ntp authenticate ; ntp authentication-key 1 md5 <key>",
            FindingCode::ExecTimeoutDisabled => "line vty 0 4 ; exec-timeout 10 0",
            FindingCode::NoAaaNewModel => "aaa new-model",
            FindingCode::NoLoginBanner => "banner login ^C Authorized access only ^C",
            FindingCode::WeakEnableSecretType => "enable algorithm-type scrypt secret <password>",
    }
}

impl FindingCode {
    /// The category the finding belongs to.
    pub fn category(&self) -> (r: Category)
        ensures
            r == code_category(*self),
    {
        match self {
            FindingCode::TelnetEnabled
            | FindingCode::LinePasswordless
            | FindingCode::ExecTimeoutDisabled
            | FindingCode::SshV1
            | FindingCode::NoLoginBanner => Category::Access,
            FindingCode::NoEnableSecret
            | FindingCode::WeakEnableSecretType
            | FindingCode::NoPasswordEncryption
            | FindingCode::WeakPassword
            | FindingCode::Type7Password
            | FindingCode::NoAaaNewModel => Category::Authentication,
            FindingCode::SnmpPublic | FindingCode::SnmpPrivate | FindingCode::SnmpRw => {
                Category::Snmp
            },
            FindingCode::HttpServerEnabled => Category::Services,
            FindingCode::NoLogging | FindingCode::NoNtpAuth => Category::Logging,
        }
    }

    /// Section-level reference into CIS / NIST guidance.
    pub fn reference(&self) -> (r: &'static str)
        ensures
            r == code_reference(*self),
    {
        match self {
            FindingCode::TelnetEnabled => "CIS IOS: Access Rules · NIST AC-17",
            FindingCode::NoEnableSecret => "CIS IOS: Password Rules · NIST IA-5",
            FindingCode::SnmpPublic => "CIS IOS: SNMP Rules · NIST CM-6",
            FindingCode::SnmpPrivate => "CIS IOS: SNMP Rules · NIST CM-6",
            FindingCode::SnmpRw => "CIS IOS: SNMP Rules · NIST CM-6",
            FindingCode::NoPasswordEncryption => "CIS IOS: Password Rules · NIST IA-5",
            FindingCode::HttpServerEnabled => "CIS IOS: Services · NIST CM-7",
            FindingCode::WeakPassword => "CIS IOS: Password Rules · NIST IA-5",
            FindingCode::SshV1 => "CIS IOS: Access Rules · NIST AC-17",
            FindingCode::Type7Password => "CIS IOS: Password Rules · NIST IA-5",
            FindingCode::LinePasswordless => "CIS IOS: Access Rules · NIST AC-3",
            FindingCode::NoLogging => "CIS IOS: Logging Rules · NIST AU-2",
            FindingCode::NoNtpAuth => "CIS IOS: NTP Rules · NIST AU-8",
            FindingCode::ExecTimeoutDisabled => "CIS IOS: Access Rules · NIST AC-12",
            FindingCode::NoAaaNewModel => "CIS IOS: Local AAA Rules · NIST IA-2",
            FindingCode::NoLoginBanner => "CIS IOS: Banner Rules · NIST AC-8",
            FindingCode::WeakEnableSecretType => "CIS IOS: Password Rules · NIST IA-5",
        }
    }

    /// Example remediation command (Cisco IOS).
    pub fn remediation(&self) -> (r: &'static str)
        ensures
            r == code_remediation(*self),
    {
        match self {
            FindingCode::TelnetEnabled => "line vty 0 4 ; transport input ssh",
            FindingCode::NoEnableSecret => "enable secret <strong-password>",
            FindingCode::SnmpPublic => "no snmp-server community public ; use SNMPv3",
            FindingCode::SnmpPrivate => "no snmp-server community private ; use SNMPv3",
            FindingCode::SnmpRw => "avoid RW communities; use SNMPv3 with views",
            FindingCode::NoPasswordEncryption => "service password-encryption",
            FindingCode::HttpServerEnabled => "no ip http server ; ip http secure-server",
            FindingCode::WeakPassword => "use a long, unique, non-default password",
            FindingCode::SshV1 => "ip ssh version 2",
            FindingCode::Type7Password => "replace type-7 with 'secret' (type 8/9)",
            FindingCode::LinePasswordless => "line vty 0 4 ; login local",
            FindingCode::NoLogging => "logging host <syslog-ip>",
            FindingCode::NoNtpAuth => "ntp authenticate ; ntp authentication-key 1 md5 <key>",
            FindingCode::ExecTimeoutDisabled => "line vty 0 4 ; exec-timeout 10 0",
            FindingCode::NoAaaNewModel => "aaa new-model",
            FindingCode::NoLoginBanner => "banner login ^C Authorized access only ^C",
            FindingCode::WeakEnableSecretType => "enable algorithm-type scrypt secret <password>",
        }
    }
}

/// Audit summary: posture score, grade and the count of each level.
#[derive(Debug, Clone, PartialEq, Eq)]
pub struct AuditSummary {
    /// Security posture score (0-100).
    pub score: u8,
    /// Letter grade (A-F).
    pub grade: &'static str,
    pub critical: usize,
    pub warning: usize,
    pub info: usize,
    pub total: usize,
}

/// Letter grade of a score.
pub open spec fn grade_text(score: u8) -> &'static str {
    if 90 <= score <= 100 {
        "A"
    } else if 80 <= score <= 89 {
        "B"
    } else if 70 <= score <= 79 {
        "C"
    } else if 60 <= score <= 69 {
        "D"
    } else {
        "F"
    }
}

/// The letter grade of a score (0-100).
pub fn grade_for(score: u8) -> (r: &'static str)
    ensures
        r == grade_text(score),
{
    if 90 <= score && score <= 100 {
        "A"
    } else if 80 <= score && score <= 89 {
        "B"
    } else if 70 <= score && score <= 79 {
        "C"
    } else if 60 <= score && score <= 69 {
        "D"
    } else {
        "F"
    }
}

/// Number of findings of level `lv`.
pub open spec fn count_level(fs: Seq<FindingView>, lv: Level) -> nat
    decreases fs.len(),
{
    if fs.len() == 0 {
        0
    } else {
        count_level(fs.drop_last(), lv) + if fs.last().level == lv {
            1nat
        } else {
            0nat
        }
    }
}

/// The posture score for the given counts: 100 minus 15 per critical,
/// 7 per warning and 2 per info finding, the penalty taken modulo 2^32 as
/// a `u32`, and never below 0.
pub open spec fn score_for(critical: nat, warning: nat, info: nat) -> u8 {
    let penalty = (critical * 15 + warning * 7 + info * 2) as u32;
    if penalty >= 100 {
        0
    } else {
        (100 - penalty) as u8
    }
}

/// Every finding has exactly one level: the three level counts add up to
/// the number of findings.
pub proof fn lemma_levels_partition(fs: Seq<FindingView>)
    ensures
        count_level(fs, Level::Critical) + count_level(fs, Level::Warning) + count_level(
            fs,
            Level::Info,
        ) == fs.len(),
    decreases fs.len(),
{
    if fs.len() > 0 {
        lemma_levels_partition(fs.drop_last());
    }
}

/// A summary scores full marks exactly when there are no findings (for
/// fewer findings than would make the penalty wrap around 2^32).
pub proof fn lemma_full_score_iff_clean(fs: Seq<FindingView>)
    requires
        fs.len() * 15 < 0x1_0000_0000,
    ensures
        summary_of(fs).score == 100 <==> fs.len() == 0,
        summary_of(fs).score <= 100,
{
    lemma_levels_partition(fs);
    let c = count_level(fs, Level::Critical);
    let w = count_level(fs, Level::Warning);
    let i = count_level(fs, Level::Info);
    assert(c * 15 + w * 7 + i * 2 <= fs.len() * 15);
}

/// The summary of a list of findings.
pub open spec fn summary_of(fs: Seq<FindingView>) -> AuditSummary {
    let c = count_level(fs, Level::Critical);
    let w = count_level(fs, Level::Warning);
    let i = count_level(fs, Level::Info);
    let score = score_for(c, w, i);
    AuditSummary {
        score,
        grade: grade_text(score),
        critical: c as usize,
        warning: w as usize,
        info: i as usize,
        total: fs.len() as usize,
    }
}

/// The penalty of the findings `fs` (15 per critical, 7 per warning, 2 per
/// info finding) fits a `usize`.
pub open spec fn penalty_fits(fs: Seq<FindingView>) -> bool {
    count_level(fs, Level::Critical) * 15 + count_level(fs, Level::Warning) * 7 + count_level(
        fs,
        Level::Info,
    ) * 2 <= usize::MAX
}

/// The number of critical, warning and info findings.
pub fn level_counts(findings: &[Finding]) -> (r: (usize, usize, usize))
    ensures
        r.0 == count_level(views(findings@), Level::Critical),
        r.1 == count_level(views(findings@), Level::Warning),
        r.2 == count_level(views(findings@), Level::Info),
{
    let mut critical: usize = 0;
    let mut warning: usize = 0;
    let mut info: usize = 0;
    let mut i: usize = 0;
    while i < findings.len()
        invariant
            i <= findings.len(),
            critical == count_level(views(findings@.take(i as int)), Level::Critical),
            warning == count_level(views(findings@.take(i as int)), Level::Warning),
            info == count_level(views(findings@.take(i as int)), Level::Info),
        decreases findings.len() - i,
    {
        proof {
            assert(views(findings@.take(i + 1)).drop_last() =~= views(findings@.take(i as int)));
            lemma_levels_partition(views(findings@.take(i as int)));
        }
        match findings[i].level {
            Level::Critical => critical = critical + 1,
            Level::Warning => warning = warning + 1,
            Level::Info => info = info + 1,
        }
        i = i + 1;
    }
    proof {
        assert(findings@.take(findings.len() as int) =~= findings@);
    }
    (critical, warning, info)
}

/// The summary of `total` findings of which `critical`, `warning` and
/// `info` have each level.
pub(crate) fn summary_from_counts(critical: usize, warning: usize, info: usize, total: usize) -> (r:
    AuditSummary)
    requires
        critical * 15 + warning * 7 + info * 2 <= usize::MAX,
    ensures
        r == (AuditSummary {
            score: score_for(critical as nat, warning as nat, info as nat),
            grade: grade_text(score_for(critical as nat, warning as nat, info as nat)),
            critical,
            warning,
            info,
            total,
        }),
{
    let penalty = (critical * 15 + warning * 7 + info * 2) as u32;
    let score: u8 = if penalty >= 100 {
        0
    } else {
        (100 - penalty) as u8
    };
    AuditSummary { score, grade: grade_for(score), critical, warning, info, total }
}

/// Summarizes findings into a posture score and level counts.
///
/// The score starts at 100; each finding costs a penalty (critical 15,
/// warning 7, info 2), and the score floors at 0.
pub fn summarize(findings: &[Finding]) -> (r: AuditSummary)
    requires
        penalty_fits(views(findings@)),
    ensures
        r.critical == count_level(views(findings@), Level::Critical),
        r.warning == count_level(views(findings@), Level::Warning),
        r.info == count_level(views(findings@), Level::Info),
        r.total == findings@.len(),
        r.score == score_for(r.critical as nat, r.warning as nat, r.info as nat),
        r.grade == grade_text(r.score),
        r == summary_of(views(findings@)),
{
    let (critical, warning, info) = level_counts(findings);
    summary_from_counts(critical, warning, info, findings.len())
}

// ---------------------------------------------------------------------------
// The scanner: specification
// ---------------------------------------------------------------------------

/// An open `line ...` block of the configuration.
pub struct LineBlock {
    /// The trimmed header line, e.g. `line vty 0 4`.
    pub header: Seq<char>,
    /// Line number of the header.
    pub line: usize,
    /// The block sets a `password`.
    pub password: bool,
    /// The block uses `login local` or `login authentication`.
    pub secure_login: bool,
}

/// What the scanner knows after reading a prefix of the configuration.
pub struct ScanState {
    pub findings: Seq<FindingView>,
    pub password_encryption: bool,
    pub enable_secret: bool,
    /// The last `enable password` line: its number and trimmed text.
    pub enable_password: Option<(usize, Seq<char>)>,
    pub logging: bool,
    pub ntp_server: bool,
    pub ntp_auth: bool,
    pub aaa_new_model: bool,
    pub banner: bool,
    pub block: Option<LineBlock>,
}

/// A finding about line `n` whose trimmed text is `l`.
pub open spec fn finding_at(level: Level, code: FindingCode, n: usize, l: Seq<char>) -> FindingView {
    FindingView { level, code, line: Some(n), detail: Some(l) }
}

/// A finding about the configuration as a whole.
pub open spec fn finding_global(level: Level, code: FindingCode) -> FindingView {
    FindingView { level, code, line: None, detail: None }
}

/// `f` alone if `b` holds, else nothing.
pub open spec fn when(b: bool, f: FindingView) -> Seq<FindingView> {
    if b {
        seq![f]
    } else {
        Seq::empty()
    }
}

/// The raw line starts with a space or a tab.
pub open spec fn is_indented(raw: Seq<char>) -> bool {
    raw.len() > 0 && (raw[0] == ' ' || raw[0] == '\t')
}

/// The finding produced when a `line` block ends: a console, vty or aux
/// line that neither sets a password nor uses secure login is reported,
/// critical for remote (vty/aux) access and a warning for the console.
pub open spec fn block_finding(b: LineBlock) -> Seq<FindingView> {
    let hl = lower(b.header);
    let vty = contains(hl, "vty"@);
    let con = contains(hl, "con"@);
    let aux = contains(hl, "aux"@);
    when(
        (vty || con || aux) && !b.password && !b.secure_login,
        FindingView {
            level: if vty || aux {
                Level::Critical
            } else {
                Level::Warning
            },
            code: FindingCode::LinePasswordless,
            line: Some(b.line),
            detail: Some(b.header),
        },
    )
}

/// The findings emitted when the open block (if any) is closed.
pub open spec fn close(b: Option<LineBlock>) -> Seq<FindingView> {
    match b {
        Some(h) => block_finding(h),
        None => Seq::empty(),
    }
}

/// A guessable or vendor-default password (compared in lowercase).
pub open spec fn is_weak_password(w: Seq<char>) -> bool {
    ||| w == "cisco"@
    ||| w == "admin"@
    ||| w == "password"@
    ||| w == "123456"@
    ||| w == "default"@
    ||| w == "pass"@
}

/// The lowercased line mentions a password or a secret.
pub open spec fn mentions_secret(lc: Seq<char>) -> bool {
    contains(lc, "password"@) || contains(lc, "secret"@)
}

/// The last word of the line is a weak password.
pub open spec fn ends_in_weak_password(l: Seq<char>) -> bool {
    match last_word(l) {
        Some(w) => is_weak_password(lower(w)),
        None => false,
    }
}

/// Telnet (or every transport) allowed on a line.
pub open spec fn rule_telnet(l: Seq<char>, lc: Seq<char>, n: usize) -> Seq<FindingView> {
    when(
        contains(lc, "transport input telnet"@) || contains(lc, "transport input all"@),
        finding_at(Level::Critical, FindingCode::TelnetEnabled, n, l),
    )
}

/// SSH protocol version 1.
pub open spec fn rule_ssh_v1(l: Seq<char>, lc: Seq<char>, n: usize) -> Seq<FindingView> {
    when(contains(lc, "ip ssh version 1"@), finding_at(Level::Critical, FindingCode::SshV1, n, l))
}

/// Default SNMP communities: `public` is critical, else `private` a warning.
pub open spec fn rule_snmp_default(l: Seq<char>, lc: Seq<char>, n: usize) -> Seq<FindingView> {
    if contains(lc, "snmp-server community public"@) {
        seq![finding_at(Level::Critical, FindingCode::SnmpPublic, n, l)]
    } else {
        when(
            contains(lc, "snmp-server community private"@),
            finding_at(Level::Warning, FindingCode::SnmpPrivate, n, l),
        )
    }
}

/// An SNMP community with write access.
pub open spec fn rule_snmp_rw(l: Seq<char>, lc: Seq<char>, n: usize) -> Seq<FindingView> {
    when(
        starts_with(lc, "snmp-server community"@) && contains(lc, " rw"@),
        finding_at(Level::Warning, FindingCode::SnmpRw, n, l),
    )
}

/// The plain HTTP server.
pub open spec fn rule_http(l: Seq<char>, lc: Seq<char>, n: usize) -> Seq<FindingView> {
    when(lc == "ip http server"@, finding_at(Level::Warning, FindingCode::HttpServerEnabled, n, l))
}

/// Sessions that never time out.
pub open spec fn rule_exec_timeout(l: Seq<char>, lc: Seq<char>, n: usize) -> Seq<FindingView> {
    when(
        lc == "exec-timeout 0 0"@ || lc == "exec-timeout 0"@,
        finding_at(Level::Warning, FindingCode::ExecTimeoutDisabled, n, l),
    )
}

/// An MD5 (type 5) enable secret.
pub open spec fn rule_md5_secret(l: Seq<char>, lc: Seq<char>, n: usize) -> Seq<FindingView> {
    when(
        starts_with(lc, "enable secret 5 "@),
        finding_at(Level::Info, FindingCode::WeakEnableSecretType, n, l),
    )
}

/// A reversible (type 7) password.
pub open spec fn rule_type7(l: Seq<char>, lc: Seq<char>, n: usize) -> Seq<FindingView> {
    when(
        mentions_secret(lc) && contains(lc, " 7 "@),
        finding_at(Level::Warning, FindingCode::Type7Password, n, l),
    )
}

/// A weak or default password as the last word of a password line.
pub open spec fn rule_weak_password(l: Seq<char>, lc: Seq<char>, n: usize) -> Seq<FindingView> {
    when(
        mentions_secret(lc) && ends_in_weak_password(l),
        finding_at(Level::Critical, FindingCode::WeakPassword, n, l),
    )
}

/// The findings of the single-line rules for line `n`, whose trimmed text
/// is `l` and lowercased trimmed text is `lc`, in rule order.
pub open spec fn rule_findings(l: Seq<char>, lc: Seq<char>, n: usize) -> Seq<FindingView> {
    rule_telnet(l, lc, n) + rule_ssh_v1(l, lc, n) + rule_snmp_default(l, lc, n) + rule_snmp_rw(
        l,
        lc,
        n,
    ) + rule_http(l, lc, n) + rule_exec_timeout(l, lc, n) + rule_md5_secret(l, lc, n)
        + rule_type7(l, lc, n) + rule_weak_password(l, lc, n)
}

/// The findings emitted while reading a line before its own rules: the open
/// block is reported when a new `line` header or an unindented line ends it.
pub open spec fn closed_by(block: Option<LineBlock>, indent: bool, lc: Seq<char>) -> Seq<FindingView> {
    if starts_with(lc, "line "@) || (block is Some && !indent) {
        close(block)
    } else {
        Seq::empty()
    }
}

/// The open block after reading a line.
pub open spec fn next_block(
    block: Option<LineBlock>,
    indent: bool,
    l: Seq<char>,
    lc: Seq<char>,
    n: usize,
) -> Option<LineBlock> {
    if starts_with(lc, "line "@) {
        Some(LineBlock { header: l, line: n, password: false, secure_login: false })
    } else if block is Some && indent {
        let b = block->0;
        Some(
            LineBlock {
                header: b.header,
                line: b.line,
                password: b.password || starts_with(lc, "password"@),
                secure_login: b.secure_login || starts_with(lc, "login local"@) || starts_with(
                    lc,
                    "login authentication"@,
                ),
            },
        )
    } else {
        None
    }
}

/// The state after reading raw line number `n`.
pub open spec fn step(st: ScanState, raw: Seq<char>, n: usize) -> ScanState {
    step_lc(st, raw, lower(trim(raw)), n)
}

/// The state after reading raw line number `n`, given the lowercase form
/// `lc` of its trimmed text.
pub open spec fn step_lc(st: ScanState, raw: Seq<char>, lc: Seq<char>, n: usize) -> ScanState {
    let indent = is_indented(raw);
    let l = trim(raw);
    ScanState {
        findings: st.findings + closed_by(st.block, indent, lc) + rule_findings(l, lc, n),
        password_encryption: st.password_encryption || starts_with(
            lc,
            "service password-encryption"@,
        ),
        enable_secret: st.enable_secret || starts_with(lc, "enable secret"@),
        enable_password: if starts_with(lc, "enable password"@) {
            Some((n, l))
        } else {
            st.enable_password
        },
        logging: st.logging || (!indent && starts_with(lc, "logging "@)),
        ntp_server: st.ntp_server || contains(lc, "ntp server"@),
        ntp_auth: st.ntp_auth || starts_with(lc, "ntp authenticate"@),
        aaa_new_model: st.aaa_new_model || starts_with(lc, "aaa new-model"@),
        banner: st.banner || starts_with(lc, "banner "@),
        block: next_block(st.block, indent, l, lc, n),
    }
}

/// The state before the first line.
pub open spec fn initial_scan() -> ScanState {
    ScanState {
        findings: Seq::empty(),
        password_encryption: false,
        enable_secret: false,
        enable_password: None,
        logging: false,
        ntp_server: false,
        ntp_auth: false,
        aaa_new_model: false,
        banner: false,
        block: None,
    }
}

/// The state after reading the first `k` lines of `ls`.
pub open spec fn scan(ls: Seq<Seq<char>>, k: nat) -> ScanState
    decreases k,
{
    if k == 0 || k > ls.len() {
        initial_scan()
    } else {
        step(scan(ls, (k - 1) as nat), ls[k - 1], k as usize)
    }
}

/// The whole-configuration findings, given the state after the last line.
pub open spec fn global_findings(st: ScanState) -> Seq<FindingView> {
    enable_finding(st.enable_secret, st.enable_password) + when(
        !st.password_encryption,
        finding_global(Level::Warning, FindingCode::NoPasswordEncryption),
    ) + when(!st.logging, finding_global(Level::Info, FindingCode::NoLogging)) + when(
        st.ntp_server && !st.ntp_auth,
        finding_global(Level::Warning, FindingCode::NoNtpAuth),
    ) + when(!st.aaa_new_model, finding_global(Level::Info, FindingCode::NoAaaNewModel)) + when(
        !st.banner,
        finding_global(Level::Info, FindingCode::NoLoginBanner),
    )
}

/// The findings of auditing `config`: those met line by line, then the one
/// of a `line` block still open at the end, then the whole-configuration
/// findings.
pub open spec fn audit_findings(config: Seq<char>) -> Seq<FindingView> {
    let ls = lines(config);
    let st = scan(ls, ls.len());
    st.findings + close(st.block) + global_findings(st)
}

proof fn lemma_scan_len(ls: Seq<Seq<char>>, k: nat)
    requires
        k <= ls.len(),
    ensures
        scan(ls, k).findings.len() <= 10 * k,
    decreases k,
{
    if k > 0 {
        lemma_scan_len(ls, (k - 1) as nat);
        let st = scan(ls, (k - 1) as nat);
        let raw = ls[k - 1];
        let l = trim(raw);
        let lc = lower(l);
        assert(closed_by(st.block, is_indented(raw), lc).len() <= 1);
        assert(rule_findings(l, lc, k as usize).len() <= 9);
    }
}

/// An audit reports at most ten findings per character of the
/// configuration, plus seven.
pub proof fn lemma_audit_len(config: Seq<char>)
    ensures
        audit_findings(config).len() <= 10 * config.len() + 7,
{
    let ls = lines(config);
    lemma_lines_len(config);
    lemma_scan_len(ls, ls.len());
    let st = scan(ls, ls.len());
    assert(close(st.block).len() <= 1);
    assert(global_findings(st).len() <= 6);
}

/// A code raised only for the configuration as a whole, never for a line.
pub open spec fn is_global_code(c: FindingCode) -> bool {
    ||| c == FindingCode::NoPasswordEncryption
    ||| c == FindingCode::NoLogging
    ||| c == FindingCode::NoNtpAuth
    ||| c == FindingCode::NoAaaNewModel
    ||| c == FindingCode::NoLoginBanner
}

/// No finding of `fs` has code `c`.
pub open spec fn lacks_code(fs: Seq<FindingView>, c: FindingCode) -> bool {
    forall|j: int| 0 <= j < fs.len() ==> (#[trigger] fs[j]).code != c
}

/// No finding of `fs` has a whole-configuration code.
spec fn line_codes_only(fs: Seq<FindingView>) -> bool {
    forall|j: int| 0 <= j < fs.len() ==> !is_global_code((#[trigger] fs[j]).code)
}

proof fn lemma_line_codes_concat(a: Seq<FindingView>, b: Seq<FindingView>)
    requires
        line_codes_only(a),
        line_codes_only(b),
    ensures
        line_codes_only(a + b),
{
    assert forall|j: int| 0 <= j < (a + b).len() implies !is_global_code((#[trigger] (a + b)[j]).code) by {
        if j >= a.len() {
            assert((a + b)[j] == b[j - a.len()]);
        }
    }
}

proof fn lemma_rule_codes(l: Seq<char>, lc: Seq<char>, n: usize)
    ensures
        line_codes_only(rule_findings(l, lc, n)),
{
    let a = rule_telnet(l, lc, n) + rule_ssh_v1(l, lc, n);
    lemma_line_codes_concat(rule_telnet(l, lc, n), rule_ssh_v1(l, lc, n));
    let b = a + rule_snmp_default(l, lc, n);
    lemma_line_codes_concat(a, rule_snmp_default(l, lc, n));
    let c = b + rule_snmp_rw(l, lc, n);
    lemma_line_codes_concat(b, rule_snmp_rw(l, lc, n));
    let d = c + rule_http(l, lc, n);
    lemma_line_codes_concat(c, rule_http(l, lc, n));
    let e = d + rule_exec_timeout(l, lc, n);
    lemma_line_codes_concat(d, rule_exec_timeout(l, lc, n));
    let f = e + rule_md5_secret(l, lc, n);
    lemma_line_codes_concat(e, rule_md5_secret(l, lc, n));
    let g = f + rule_type7(l, lc, n);
    lemma_line_codes_concat(f, rule_type7(l, lc, n));
    lemma_line_codes_concat(g, rule_weak_password(l, lc, n));
}

proof fn lemma_scan_line_codes(ls: Seq<Seq<char>>, k: nat)
    ensures
        line_codes_only(scan(ls, k).findings),
        line_codes_only(close(scan(ls, k).block)),
    decreases k,
{
    if k > 0 && k <= ls.len() {
        lemma_scan_line_codes(ls, (k - 1) as nat);
        let st = scan(ls, (k - 1) as nat);
        let raw = ls[k - 1];
        let l = trim(raw);
        let lc = lower(l);
        let indent = is_indented(raw);
        lemma_line_codes_concat(st.findings, closed_by(st.block, indent, lc));
        lemma_rule_codes(l, lc, k as usize);
        lemma_line_codes_concat(
            st.findings + closed_by(st.block, indent, lc),
            rule_findings(l, lc, k as usize),
        );
    }
}

/// The whole-configuration flags, once set by a line, stay set.
proof fn lemma_flags_kept(ls: Seq<Seq<char>>, i: nat, k: nat)
    requires
        i <= k <= ls.len(),
    ensures
        scan(ls, i).password_encryption ==> scan(ls, k).password_encryption,
        scan(ls, i).logging ==> scan(ls, k).logging,
        scan(ls, i).ntp_auth ==> scan(ls, k).ntp_auth,
        scan(ls, i).aaa_new_model ==> scan(ls, k).aaa_new_model,
        scan(ls, i).banner ==> scan(ls, k).banner,
    decreases k - i,
{
    if i < k {
        lemma_flags_kept(ls, i, (k - 1) as nat);
    }
}

/// The whole-configuration code that line `l` settles, if any: a
/// `service password-encryption`, `ntp authenticate`, `aaa new-model` or
/// `banner` line, or an unindented `logging` line (read in lowercase, after
/// trimming).
pub open spec fn settles(raw: Seq<char>, c: FindingCode) -> bool {
    let lc = lower(trim(raw));
    match c {
        FindingCode::NoPasswordEncryption => starts_with(lc, "service password-encryption"@),
        FindingCode::NoLogging => !is_indented(raw) && starts_with(lc, "logging "@),
        FindingCode::NoNtpAuth => starts_with(lc, "ntp authenticate"@),
        FindingCode::NoAaaNewModel => starts_with(lc, "aaa new-model"@),
        FindingCode::NoLoginBanner => starts_with(lc, "banner "@),
        _ => false,
    }
}

proof fn lemma_lacks_concat(a: Seq<FindingView>, b: Seq<FindingView>, c: FindingCode)
    requires
        lacks_code(a, c),
        lacks_code(b, c),
    ensures
        lacks_code(a + b, c),
{
    assert forall|j: int| 0 <= j < (a + b).len() implies (#[trigger] (a + b)[j]).code != c by {
        if j >= a.len() {
            assert((a + b)[j] == b[j - a.len()]);
        }
    }
}

/// The flag that settles `c` is set in `st`.
spec fn flag_settles(st: ScanState, c: FindingCode) -> bool {
    match c {
        FindingCode::NoPasswordEncryption => st.password_encryption,
        FindingCode::NoLogging => st.logging,
        FindingCode::NoNtpAuth => st.ntp_auth,
        FindingCode::NoAaaNewModel => st.aaa_new_model,
        FindingCode::NoLoginBanner => st.banner,
        _ => false,
    }
}

proof fn lemma_global_lacks(st: ScanState, c: FindingCode)
    requires
        flag_settles(st, c),
    ensures
        lacks_code(global_findings(st), c),
{
    let p0 = enable_finding(st.enable_secret, st.enable_password);
    let p1 = when(
        !st.password_encryption,
        finding_global(Level::Warning, FindingCode::NoPasswordEncryption),
    );
    let p2 = when(!st.logging, finding_global(Level::Info, FindingCode::NoLogging));
    let p3 = when(
        st.ntp_server && !st.ntp_auth,
        finding_global(Level::Warning, FindingCode::NoNtpAuth),
    );
    let p4 = when(!st.aaa_new_model, finding_global(Level::Info, FindingCode::NoAaaNewModel));
    let p5 = when(!st.banner, finding_global(Level::Info, FindingCode::NoLoginBanner));
    assert(lacks_code(p0, c));
    assert(lacks_code(p1, c));
    assert(lacks_code(p2, c));
    assert(lacks_code(p3, c));
    assert(lacks_code(p4, c));
    assert(lacks_code(p5, c));
    lemma_lacks_concat(p0, p1, c);
    lemma_lacks_concat(p0 + p1, p2, c);
    lemma_lacks_concat(p0 + p1 + p2, p3, c);
    lemma_lacks_concat(p0 + p1 + p2 + p3, p4, c);
    lemma_lacks_concat(p0 + p1 + p2 + p3 + p4, p5, c);
}

/// A line with no white space at either end, all ASCII, that begins with
/// `p` (which holds no capital letter) is unindented and its lowercase
/// trimmed text begins with `p`.
proof fn lemma_plain_prefix(s: Seq<char>, p: Seq<char>)
    requires
        s.len() > 0,
        !is_ws(s[0]),
        !is_ws(s.last()),
        is_ascii_text(s),
        p.len() <= s.len(),
        forall|j: int| 0 <= j < p.len() ==> s[j] == p[j] && !('A' <= #[trigger] p[j] && p[j] <= 'Z'),
    ensures
        !is_indented(s),
        starts_with(lower(trim(s)), p),
{
    assert(trim_end(s) == s);
    assert(trim_start(s) == s);
    assert(trim(s) == s);
    assert(lower(s) == ascii_lower(s));
    assert(ascii_lower(s).take(p.len() as int) =~= p);
}

/// A configuration with a line that settles a whole-configuration code
/// raises no finding of that code.
pub proof fn lemma_settled_code(config: Seq<char>, i: int, c: FindingCode)
    requires
        0 <= i < lines(config).len(),
        settles(lines(config)[i], c),
    ensures
        lacks_code(audit_findings(config), c),
{
    let ls = lines(config);
    let st = scan(ls, ls.len());
    assert(flag_settles(scan(ls, (i + 1) as nat), c));
    lemma_flags_kept(ls, (i + 1) as nat, ls.len());
    assert(flag_settles(st, c));
    lemma_global_lacks(st, c);
    lemma_scan_line_codes(ls, ls.len());
    lemma_line_codes_concat(st.findings, close(st.block));
    let a = st.findings + close(st.block);
    assert(is_global_code(c));
    assert(lacks_code(a, c));
    lemma_lacks_concat(a, global_findings(st), c);
}

/// The remediation command of a whole-configuration code, standing as a
/// line of a configuration, settles that code: auditing the configuration
/// raises no finding of it.
pub proof fn lemma_remediation_settles(config: Seq<char>, i: int, c: FindingCode)
    requires
        is_global_code(c),
        0 <= i < lines(config).len(),
        lines(config)[i] == code_remediation(c)@,
    ensures
        lacks_code(audit_findings(config), c),
{
    let s = code_remediation(c)@;
    match c {
        FindingCode::NoPasswordEncryption => {
            reveal_strlit("service password-encryption");
            lemma_plain_prefix(s, "service password-encryption"@);
        },
        FindingCode::NoLogging => {
            reveal_strlit("logging host <syslog-ip>");
            reveal_strlit("logging ");
            lemma_plain_prefix(s, "logging "@);
        },
        FindingCode::NoNtpAuth => {
            reveal_strlit("ntp authenticate ; ntp authentication-key 1 md5 <key>");
            reveal_strlit("ntp authenticate");
            lemma_plain_prefix(s, "ntp authenticate"@);
        },
        FindingCode::NoAaaNewModel => {
            reveal_strlit("aaa new-model");
            lemma_plain_prefix(s, "aaa new-model"@);
        },
        _ => {
            reveal_strlit("banner login ^C Authorized access only ^C");
            reveal_strlit("banner ");
            lemma_plain_prefix(s, "banner "@);
        },
    }
    lemma_settled_code(config, i, c);
}

proof fn lemma_rules_lack_v1(l: Seq<char>, lc: Seq<char>, n: usize)
    requires
        !contains(lc, "ip ssh version 1"@),
    ensures
        lacks_code(rule_findings(l, lc, n), FindingCode::SshV1),
{
    let c = FindingCode::SshV1;
    let a = rule_telnet(l, lc, n) + rule_ssh_v1(l, lc, n);
    lemma_lacks_concat(rule_telnet(l, lc, n), rule_ssh_v1(l, lc, n), c);
    let b = a + rule_snmp_default(l, lc, n);
    lemma_lacks_concat(a, rule_snmp_default(l, lc, n), c);
    let d = b + rule_snmp_rw(l, lc, n);
    lemma_lacks_concat(b, rule_snmp_rw(l, lc, n), c);
    let e = d + rule_http(l, lc, n);
    lemma_lacks_concat(d, rule_http(l, lc, n), c);
    let f = e + rule_exec_timeout(l, lc, n);
    lemma_lacks_concat(e, rule_exec_timeout(l, lc, n), c);
    let g = f + rule_md5_secret(l, lc, n);
    lemma_lacks_concat(f, rule_md5_secret(l, lc, n), c);
    let h = g + rule_type7(l, lc, n);
    lemma_lacks_concat(g, rule_type7(l, lc, n), c);
    lemma_lacks_concat(h, rule_weak_password(l, lc, n), c);
}

proof fn lemma_scan_lacks_v1(ls: Seq<Seq<char>>, k: nat)
    requires
        k <= ls.len(),
        forall|i: int| 0 <= i < ls.len() ==> !contains(lower(trim(#[trigger] ls[i])), "ip ssh version 1"@),
    ensures
        lacks_code(scan(ls, k).findings, FindingCode::SshV1),
        lacks_code(close(scan(ls, k).block), FindingCode::SshV1),
    decreases k,
{
    if k > 0 {
        lemma_scan_lacks_v1(ls, (k - 1) as nat);
        let st = scan(ls, (k - 1) as nat);
        let raw = ls[k - 1];
        let l = trim(raw);
        let lc = lower(l);
        let indent = is_indented(raw);
        let c = FindingCode::SshV1;
        lemma_lacks_concat(st.findings, closed_by(st.block, indent, lc), c);
        lemma_rules_lack_v1(l, lc, k as usize);
        lemma_lacks_concat(st.findings + closed_by(st.block, indent, lc), rule_findings(l, lc, k as usize), c);
    }
}

/// A configuration none of whose lines mentions `ip ssh version 1` (read in
/// lowercase, after trimming) raises no SSH version 1 finding.
pub proof fn lemma_no_ssh_v1(config: Seq<char>)
    requires
        forall|i: int|
            0 <= i < lines(config).len() ==> !contains(
                lower(trim(#[trigger] lines(config)[i])),
                "ip ssh version 1"@,
            ),
    ensures
        lacks_code(audit_findings(config), FindingCode::SshV1),
{
    let ls = lines(config);
    let st = scan(ls, ls.len());
    let c = FindingCode::SshV1;
    lemma_scan_lacks_v1(ls, ls.len());
    lemma_lacks_concat(st.findings, close(st.block), c);
    lemma_lacks_concat(st.findings + close(st.block), global_findings(st), c);
}

/// The remediation command of an SSH version 1 finding does not mention
/// `ip ssh version 1`: as a line of a configuration it raises no such
/// finding.
pub proof fn lemma_ssh_remediation_clean()
    ensures
        !contains(lower(trim(code_remediation(FindingCode::SshV1)@)), "ip ssh version 1"@),
{
    let s = code_remediation(FindingCode::SshV1)@;
    let p = "ip ssh version 1"@;
    reveal_strlit("ip ssh version 2");
    reveal_strlit("ip ssh version 1");
    lemma_plain_prefix(s, s);
    let t = lower(trim(s));
    assert(t == ascii_lower(s));
    assert(t =~= s);
    assert forall|i: int| !occurs_at(t, p, i) by {
        if 0 <= i && i + p.len() <= t.len() {
            assert(i == 0);
            assert(t.subrange(0, 16)[15] == '2');
        }
    }
}

/// Finding `f` names a line of `ls` by its number (counted from 1) and its
/// trimmed text, or names no line and carries no text.
pub open spec fn names_line(ls: Seq<Seq<char>>, f: FindingView) -> bool {
    match f.line {
        Some(n) => 1 <= n <= ls.len() && f.detail == Some(trim(ls[n - 1])),
        None => f.detail is None,
    }
}

/// Every finding of `fs` is about line `n` with text `l`.
spec fn all_at(fs: Seq<FindingView>, n: usize, l: Seq<char>) -> bool {
    forall|i: int| 0 <= i < fs.len() ==> (#[trigger] fs[i]).line == Some(n) && fs[i].detail == Some(l)
}

proof fn lemma_all_at_concat(a: Seq<FindingView>, b: Seq<FindingView>, n: usize, l: Seq<char>)
    requires
        all_at(a, n, l),
        all_at(b, n, l),
    ensures
        all_at(a + b, n, l),
{
    assert forall|i: int| 0 <= i < (a + b).len() implies (#[trigger] (a + b)[i]).line == Some(n)
        && (a + b)[i].detail == Some(l) by {
        if i >= a.len() {
            assert((a + b)[i] == b[i - a.len()]);
        }
    }
}

proof fn lemma_rule_findings_at(l: Seq<char>, lc: Seq<char>, n: usize)
    ensures
        all_at(rule_findings(l, lc, n), n, l),
{
    let r1 = rule_telnet(l, lc, n);
    let r2 = rule_ssh_v1(l, lc, n);
    let r3 = rule_snmp_default(l, lc, n);
    let r4 = rule_snmp_rw(l, lc, n);
    let r5 = rule_http(l, lc, n);
    let r6 = rule_exec_timeout(l, lc, n);
    let r7 = rule_md5_secret(l, lc, n);
    let r8 = rule_type7(l, lc, n);
    let r9 = rule_weak_password(l, lc, n);
    lemma_all_at_concat(r1, r2, n, l);
    lemma_all_at_concat(r1 + r2, r3, n, l);
    lemma_all_at_concat(r1 + r2 + r3, r4, n, l);
    lemma_all_at_concat(r1 + r2 + r3 + r4, r5, n, l);
    lemma_all_at_concat(r1 + r2 + r3 + r4 + r5, r6, n, l);
    lemma_all_at_concat(r1 + r2 + r3 + r4 + r5 + r6, r7, n, l);
    lemma_all_at_concat(r1 + r2 + r3 + r4 + r5 + r6 + r7, r8, n, l);
    lemma_all_at_concat(r1 + r2 + r3 + r4 + r5 + r6 + r7 + r8, r9, n, l);
}

/// What the scanner keeps names lines of `ls`: its findings, the stored
/// `enable password` line and the open block's header.
spec fn scan_names_lines(ls: Seq<Seq<char>>, st: ScanState) -> bool {
    &&& forall|i: int| 0 <= i < st.findings.len() ==> names_line(ls, #[trigger] st.findings[i])
    &&& st.enable_password matches Some(q) ==> 1 <= q.0 <= ls.len() && q.1 == trim(ls[q.0 - 1])
    &&& st.block matches Some(b) ==> 1 <= b.line <= ls.len() && b.header == trim(ls[b.line - 1])
}

proof fn lemma_names_concat(ls: Seq<Seq<char>>, a: Seq<FindingView>, b: Seq<FindingView>)
    requires
        forall|i: int| 0 <= i < a.len() ==> names_line(ls, #[trigger] a[i]),
        forall|i: int| 0 <= i < b.len() ==> names_line(ls, #[trigger] b[i]),
    ensures
        forall|i: int| 0 <= i < (a + b).len() ==> names_line(ls, #[trigger] (a + b)[i]),
{
    assert forall|i: int| 0 <= i < (a + b).len() implies names_line(ls, #[trigger] (a + b)[i]) by {
        if i < a.len() {
            assert((a + b)[i] == a[i]);
        } else {
            assert((a + b)[i] == b[i - a.len()]);
        }
    }
}

proof fn lemma_scan_names_lines(ls: Seq<Seq<char>>, k: nat)
    requires
        k <= ls.len() <= usize::MAX,
    ensures
        scan_names_lines(ls, scan(ls, k)),
    decreases k,
{
    if k > 0 {
        lemma_scan_names_lines(ls, (k - 1) as nat);
        let st = scan(ls, (k - 1) as nat);
        let raw = ls[k - 1];
        let indent = is_indented(raw);
        let l = trim(raw);
        let lc = lower(l);
        let n = k as usize;
        assert(n == k);
        let c = closed_by(st.block, indent, lc);
        let r = rule_findings(l, lc, n);
        assert forall|i: int| 0 <= i < c.len() implies names_line(ls, #[trigger] c[i]) by {
            assert(c[i] == close(st.block)[i]);
        }
        lemma_rule_findings_at(l, lc, n);
        assert forall|i: int| 0 <= i < r.len() implies names_line(ls, #[trigger] r[i]) by {
            assert(r[i].line == Some(n));
        }
        lemma_names_concat(ls, st.findings, c);
        lemma_names_concat(ls, st.findings + c, r);
    }
}

proof fn lemma_when_global_names(ls: Seq<Seq<char>>, b: bool, level: Level, code: FindingCode)
    ensures
        forall|i: int|
            0 <= i < when(b, finding_global(level, code)).len() ==> names_line(
                ls,
                #[trigger] when(b, finding_global(level, code))[i],
            ),
{
}

proof fn lemma_global_names(ls: Seq<Seq<char>>, st: ScanState)
    requires
        scan_names_lines(ls, st),
    ensures
        forall|i: int|
            0 <= i < global_findings(st).len() ==> names_line(ls, #[trigger] global_findings(st)[i]),
        forall|i: int| 0 <= i < close(st.block).len() ==> names_line(ls, #[trigger] close(st.block)[i]),
{
    let e = enable_finding(st.enable_secret, st.enable_password);
    let w1 = when(!st.password_encryption, finding_global(Level::Warning, FindingCode::NoPasswordEncryption));
    let w2 = when(!st.logging, finding_global(Level::Info, FindingCode::NoLogging));
    let w3 = when(st.ntp_server && !st.ntp_auth, finding_global(Level::Warning, FindingCode::NoNtpAuth));
    let w4 = when(!st.aaa_new_model, finding_global(Level::Info, FindingCode::NoAaaNewModel));
    let w5 = when(!st.banner, finding_global(Level::Info, FindingCode::NoLoginBanner));
    assert forall|i: int| 0 <= i < e.len() implies names_line(ls, #[trigger] e[i]) by {}
    lemma_when_global_names(ls, !st.password_encryption, Level::Warning, FindingCode::NoPasswordEncryption);
    lemma_when_global_names(ls, !st.logging, Level::Info, FindingCode::NoLogging);
    lemma_when_global_names(ls, st.ntp_server && !st.ntp_auth, Level::Warning, FindingCode::NoNtpAuth);
    lemma_when_global_names(ls, !st.aaa_new_model, Level::Info, FindingCode::NoAaaNewModel);
    lemma_when_global_names(ls, !st.banner, Level::Info, FindingCode::NoLoginBanner);
    lemma_names_concat(ls, e, w1);
    lemma_names_concat(ls, e + w1, w2);
    lemma_names_concat(ls, e + w1 + w2, w3);
    lemma_names_concat(ls, e + w1 + w2 + w3, w4);
    lemma_names_concat(ls, e + w1 + w2 + w3 + w4, w5);
    assert(global_findings(st) == e + w1 + w2 + w3 + w4 + w5);
    let c = close(st.block);
    assert forall|i: int| 0 <= i < c.len() implies names_line(ls, #[trigger] c[i]) by {}
}

/// Every finding of an audit that names a line gives its number (counted
/// from 1) and its trimmed text; the whole-configuration findings name no
/// line.
pub proof fn lemma_findings_name_lines(config: Seq<char>)
    requires
        config.len() <= usize::MAX,
    ensures
        forall|i: int|
            0 <= i < audit_findings(config).len() ==> names_line(
                lines(config),
                #[trigger] audit_findings(config)[i],
            ),
{
    let ls = lines(config);
    lemma_lines_len(config);
    lemma_scan_names_lines(ls, ls.len());
    let st = scan(ls, ls.len());
    lemma_global_names(ls, st);
    lemma_names_concat(ls, st.findings, close(st.block));
    lemma_names_concat(ls, st.findings + close(st.block), global_findings(st));
}

// ---------------------------------------------------------------------------
// The scanner: implementation
// ---------------------------------------------------------------------------

/// The state of a `line` block while it is being read.
struct HatDurumu {
    header: Vec<char>,
    line: usize,
    parola: bool,
    login_guvenli: bool,
}

impl View for HatDurumu {
    type V = LineBlock;

    closed spec fn view(&self) -> LineBlock {
        LineBlock {
            header: self.header@,
            line: self.line,
            password: self.parola,
            secure_login: self.login_guvenli,
        }
    }
}

/// The value of an optional open block.
spec fn block_view(b: Option<HatDurumu>) -> Option<LineBlock> {
    match b {
        Some(h) => Some(h@),
        None => None,
    }
}

/// Closes the open `line` block; reports it if it needs no password.
fn hat_bitir(aktif: &mut Option<HatDurumu>, bulgular: &mut Vec<Finding>)
    ensures
        *final(aktif) is None,
        views(final(bulgular)@) == views(old(bulgular)@) + close(block_view(*old(aktif))),
{
    let ghost before = views(bulgular@);
    let h = match aktif.take() {
        Some(h) => h,
        None => {
            proof {
                assert(views(bulgular@) =~= before + Seq::<FindingView>::empty());
            }
            return ;
        },
    };
    let hl = to_lower(h.header.as_slice());
    let vty = contains_str(hl.as_slice(), "vty");
    let con = contains_str(hl.as_slice(), "con");
    let aux = contains_str(hl.as_slice(), "aux");
    if (vty || con || aux) && !h.parola && !h.login_guvenli {
        let level = if vty || aux {
            Level::Critical
        } else {
            Level::Warning
        };
        let f = Finding {
            level,
            code: FindingCode::LinePasswordless,
            line: Some(h.line),
            detail: Some(string_of(h.header.as_slice())),
        };
        bulgular.push(f);
        proof {
            assert(views(bulgular@) =~= before + close(block_view(*old(aktif))));
        }
    } else {
        proof {
            assert(views(bulgular@) =~= before + close(block_view(*old(aktif))));
        }
    }
}

/// Appends a finding about line `line` with its text `detail`.
fn ekle(
    bulgular: &mut Vec<Finding>,
    level: Level,
    code: FindingCode,
    line: usize,
    detail: &[char],
)
    ensures
        views(final(bulgular)@) == views(old(bulgular)@).push(finding_at(level, code, line, detail@)),
{
    let f = Finding { level, code, line: Some(line), detail: Some(string_of(detail)) };
    bulgular.push(f);
    proof {
        assert(views(bulgular@) =~= views(old(bulgular)@).push(finding_at(level, code, line, detail@)));
    }
}

/// A finding about the configuration as a whole.
fn bulgu_satirsiz(level: Level, code: FindingCode) -> (r: Finding)
    ensures
        r@ == finding_global(level, code),
{
    Finding { level, code, line: None, detail: None }
}

/// Appends the finding if `b` holds.
fn ekle_eger(
    b: bool,
    bulgular: &mut Vec<Finding>,
    level: Level,
    code: FindingCode,
    line: usize,
    detail: &[char],
)
    ensures
        views(final(bulgular)@) == views(old(bulgular)@) + when(b, finding_at(level, code, line, detail@)),
{
    if b {
        ekle(bulgular, level, code, line, detail);
        proof {
            assert(views(old(bulgular)@).push(finding_at(level, code, line, detail@)) =~= views(old(bulgular)@) + when(b, finding_at(level, code, line, detail@)));
        }
    } else {
        proof {
            assert(views(bulgular@) =~= views(old(bulgular)@) + when(b, finding_at(level, code, line, detail@)));
        }
    }
}

/// Whether the last word of `l` is a weak password.
fn son_kelime_zayif(l: &[char]) -> (r: bool)
    ensures
        r == ends_in_weak_password(l@),
{
    match last_word_chars(l) {
        Some(w) => {
            let wl = to_lower(w.as_slice());
            let s = wl.as_slice();
            eq_str(s, "cisco") || eq_str(s, "admin") || eq_str(s, "password") || eq_str(s, "123456")
                || eq_str(s, "default") || eq_str(s, "pass")
        },
        None => false,
    }
}

proof fn lemma_assoc(a: Seq<FindingView>, b: Seq<FindingView>, c: Seq<FindingView>)
    ensures
        (a + b) + c == a + (b + c),
{
    assert((a + b) + c =~= a + (b + c));
}

proof fn lemma_regroup(
    a: Seq<FindingView>,
    b: Seq<FindingView>,
    c: Seq<FindingView>,
    d: Seq<FindingView>,
    e: Seq<FindingView>,
    f: Seq<FindingView>,
    g: Seq<FindingView>,
    h: Seq<FindingView>,
    i: Seq<FindingView>,
)
    ensures
        a + b + c + d + e + f + g + h + i == (a + b + c + d) + (e + f + g + h + i),
{
    assert(a + b + c + d + e + f + g + h + i =~= (a + b + c + d) + (e + f + g + h + i));
}

proof fn lemma_regroup_tail(
    a: Seq<FindingView>,
    b: Seq<FindingView>,
    c: Seq<FindingView>,
    d: Seq<FindingView>,
    e: Seq<FindingView>,
    f: Seq<FindingView>,
    g: Seq<FindingView>,
)
    ensures
        a + b + c + d + e + f + g == a + (b + c + d + e + f + g),
{
    assert(a + b + c + d + e + f + g =~= a + (b + c + d + e + f + g));
}

/// Applies the access and SNMP rules to line `n`.
fn satir_kurallari_erisim(bulgular: &mut Vec<Finding>, l: &[char], lc: &[char], n: usize)
    ensures
        views(final(bulgular)@) == views(old(bulgular)@) + (rule_telnet(l@, lc@, n) + rule_ssh_v1(
            l@,
            lc@,
            n,
        ) + rule_snmp_default(l@, lc@, n) + rule_snmp_rw(l@, lc@, n)),
{
    let ghost a0 = views(bulgular@);
    let telnet = contains_str(lc, "transport input telnet") || contains_str(lc, "transport input all");
    ekle_eger(telnet, bulgular, Level::Critical, FindingCode::TelnetEnabled, n, l);
    let ssh1 = contains_str(lc, "ip ssh version 1");
    ekle_eger(ssh1, bulgular, Level::Critical, FindingCode::SshV1, n, l);
    proof {
        lemma_assoc(a0, rule_telnet(l@, lc@, n), rule_ssh_v1(l@, lc@, n));
    }
    let ghost a2 = views(bulgular@);
    if contains_str(lc, "snmp-server community public") {
        ekle(bulgular, Level::Critical, FindingCode::SnmpPublic, n, l);
        proof {
            assert(a2.push(finding_at(Level::Critical, FindingCode::SnmpPublic, n, l@)) =~= a2
                + rule_snmp_default(l@, lc@, n));
        }
    } else {
        let private = contains_str(lc, "snmp-server community private");
        ekle_eger(private, bulgular, Level::Warning, FindingCode::SnmpPrivate, n, l);
    }
    proof {
        lemma_assoc(a0, rule_telnet(l@, lc@, n) + rule_ssh_v1(l@, lc@, n), rule_snmp_default(l@, lc@, n));
    }
    let rw = starts_with_str(lc, "snmp-server community") && contains_str(lc, " rw");
    ekle_eger(rw, bulgular, Level::Warning, FindingCode::SnmpRw, n, l);
    proof {
        lemma_assoc(
            a0,
            rule_telnet(l@, lc@, n) + rule_ssh_v1(l@, lc@, n) + rule_snmp_default(l@, lc@, n),
            rule_snmp_rw(l@, lc@, n),
        );
    }
}

/// Applies the service and password rules to line `n`.
fn satir_kurallari_parola(bulgular: &mut Vec<Finding>, l: &[char], lc: &[char], n: usize)
    ensures
        views(final(bulgular)@) == views(old(bulgular)@) + (rule_http(l@, lc@, n) + rule_exec_timeout(
            l@,
            lc@,
            n,
        ) + rule_md5_secret(l@, lc@, n) + rule_type7(l@, lc@, n) + rule_weak_password(l@, lc@, n)),
{
    let ghost a0 = views(bulgular@);
    let http = eq_str(lc, "ip http server");
    ekle_eger(http, bulgular, Level::Warning, FindingCode::HttpServerEnabled, n, l);
    let exec_off = eq_str(lc, "exec-timeout 0 0") || eq_str(lc, "exec-timeout 0");
    ekle_eger(exec_off, bulgular, Level::Warning, FindingCode::ExecTimeoutDisabled, n, l);
    proof {
        lemma_assoc(a0, rule_http(l@, lc@, n), rule_exec_timeout(l@, lc@, n));
    }
    let ghost p2 = rule_http(l@, lc@, n) + rule_exec_timeout(l@, lc@, n);
    let md5 = starts_with_str(lc, "enable secret 5 ");
    ekle_eger(md5, bulgular, Level::Info, FindingCode::WeakEnableSecretType, n, l);
    proof {
        lemma_assoc(a0, p2, rule_md5_secret(l@, lc@, n));
    }
    let ghost p3 = p2 + rule_md5_secret(l@, lc@, n);
    let gizli = contains_str(lc, "password") || contains_str(lc, "secret");
    let tip7 = gizli && contains_str(lc, " 7 ");
    ekle_eger(tip7, bulgular, Level::Warning, FindingCode::Type7Password, n, l);
    proof {
        lemma_assoc(a0, p3, rule_type7(l@, lc@, n));
    }
    let ghost p4 = p3 + rule_type7(l@, lc@, n);
    let zayif = gizli && son_kelime_zayif(l);
    ekle_eger(zayif, bulgular, Level::Critical, FindingCode::WeakPassword, n, l);
    proof {
        lemma_assoc(a0, p4, rule_weak_password(l@, lc@, n));
    }
}

/// Applies the single-line rules to line `n`, given its trimmed text `l`
/// and the lowercase form `lc` of that text, appending their findings.
pub fn satir_kurallari(bulgular: &mut Vec<Finding>, l: &[char], lc: &[char], n: usize)
    ensures
        views(final(bulgular)@) == views(old(bulgular)@) + rule_findings(l@, lc@, n),
{
    let ghost a0 = views(bulgular@);
    satir_kurallari_erisim(bulgular, l, lc, n);
    let ghost pa = rule_telnet(l@, lc@, n) + rule_ssh_v1(l@, lc@, n) + rule_snmp_default(l@, lc@, n)
        + rule_snmp_rw(l@, lc@, n);
    let ghost pb = rule_http(l@, lc@, n) + rule_exec_timeout(l@, lc@, n) + rule_md5_secret(l@, lc@, n)
        + rule_type7(l@, lc@, n) + rule_weak_password(l@, lc@, n);
    satir_kurallari_parola(bulgular, l, lc, n);
    proof {
        lemma_assoc(a0, pa, pb);
        lemma_regroup(
            rule_telnet(l@, lc@, n),
            rule_ssh_v1(l@, lc@, n),
            rule_snmp_default(l@, lc@, n),
            rule_snmp_rw(l@, lc@, n),
            rule_http(l@, lc@, n),
            rule_exec_timeout(l@, lc@, n),
            rule_md5_secret(l@, lc@, n),
            rule_type7(l@, lc@, n),
            rule_weak_password(l@, lc@, n),
        );
    }
}

/// The state of the configuration scanner: the findings so far, the
/// whole-configuration flags and the open `line` block.
pub struct TaramaDurumu {
    bulgular: Vec<Finding>,
    parola_sifreleme: bool,
    enable_secret: bool,
    enable_password: Option<(usize, Vec<char>)>,
    logging_var: bool,
    ntp_server: bool,
    ntp_auth: bool,
    aaa_new_model: bool,
    banner_var: bool,
    aktif_hat: Option<HatDurumu>,
}

/// The value of an optional `enable password` line.
spec fn enable_view(p: Option<(usize, Vec<char>)>) -> Option<(usize, Seq<char>)> {
    match p {
        Some(q) => Some((q.0, q.1@)),
        None => None,
    }
}

impl View for TaramaDurumu {
    type V = ScanState;

    closed spec fn view(&self) -> ScanState {
        ScanState {
            findings: views(self.bulgular@),
            password_encryption: self.parola_sifreleme,
            enable_secret: self.enable_secret,
            enable_password: enable_view(self.enable_password),
            logging: self.logging_var,
            ntp_server: self.ntp_server,
            ntp_auth: self.ntp_auth,
            aaa_new_model: self.aaa_new_model,
            banner: self.banner_var,
            block: block_view(self.aktif_hat),
        }
    }
}

/// Updates the open `line` block for a line; reports the block it ends.
fn hat_adimi(
    aktif: &mut Option<HatDurumu>,
    bulgular: &mut Vec<Finding>,
    indentli: bool,
    l: &Vec<char>,
    lc: &[char],
    n: usize,
)
    ensures
        block_view(*final(aktif)) == next_block(block_view(*old(aktif)), indentli, l@, lc@, n),
        views(final(bulgular)@) == views(old(bulgular)@) + closed_by(
            block_view(*old(aktif)),
            indentli,
            lc@,
        ),
{
    let ghost f0 = views(bulgular@);
    if starts_with_str(lc, "line ") {
        hat_bitir(aktif, bulgular);
        *aktif = Some(HatDurumu { header: l.clone(), line: n, parola: false, login_guvenli: false });
    } else if aktif.is_some() {
        if indentli {
            let mut h = aktif.take().unwrap();
            if starts_with_str(lc, "password") {
                h.parola = true;
            }
            if starts_with_str(lc, "login local") || starts_with_str(lc, "login authentication") {
                h.login_guvenli = true;
            }
            *aktif = Some(h);
            proof {
                assert(views(bulgular@) =~= f0 + Seq::<FindingView>::empty());
            }
        } else {
            hat_bitir(aktif, bulgular);
        }
    } else {
        proof {
            assert(views(bulgular@) =~= f0 + Seq::<FindingView>::empty());
        }
    }
}

/// Reads raw line number `n`.
#[verifier::rlimit(40)]
fn satir_oku(st: &mut TaramaDurumu, ham: &[char], n: usize)
    ensures
        final(st)@ == step(old(st)@, ham@, n),
{
    let l = trim_chars(ham);
    let lc = to_lower(l.as_slice());
    satir_adimi(st, ham, lc.as_slice(), n);
}

/// Reads raw line number `n`, given the lowercase form `lc` of its trimmed
/// text: ends or updates the open `line` block, sets the
/// whole-configuration flags and applies the single-line rules.
#[verifier::rlimit(80)]
pub fn satir_adimi(st: &mut TaramaDurumu, ham: &[char], lc: &[char], n: usize)
    ensures
        final(st)@ == step_lc(old(st)@, ham@, lc@, n),
{
    let indentli = ham.len() > 0 && (ham[0] == ' ' || ham[0] == '\t');
    let l = trim_chars(ham);
    let ghost f0 = views(st.bulgular@);
    let ghost b0 = block_view(st.aktif_hat);

    hat_adimi(&mut st.aktif_hat, &mut st.bulgular, indentli, &l, lc, n);

    // Whole-configuration flags.
    if starts_with_str(lc, "service password-encryption") {
        st.parola_sifreleme = true;
    }
    if starts_with_str(lc, "enable secret") {
        st.enable_secret = true;
    }
    if starts_with_str(lc, "enable password") {
        st.enable_password = Some((n, l.clone()));
    }
    if !indentli && starts_with_str(lc, "logging ") {
        st.logging_var = true;
    }
    if contains_str(lc, "ntp server") {
        st.ntp_server = true;
    }
    if starts_with_str(lc, "ntp authenticate") {
        st.ntp_auth = true;
    }
    if starts_with_str(lc, "aaa new-model") {
        st.aaa_new_model = true;
    }
    if starts_with_str(lc, "banner ") {
        st.banner_var = true;
    }

    // Single-line rules.
    satir_kurallari(&mut st.bulgular, l.as_slice(), lc, n);
}

impl TaramaDurumu {
    /// The state before the first line.
    pub fn new() -> (r: TaramaDurumu)
        ensures
            r@ == initial_scan(),
    {
        let r = TaramaDurumu {
            bulgular: Vec::new(),
            parola_sifreleme: false,
            enable_secret: false,
            enable_password: None,
            logging_var: false,
            ntp_server: false,
            ntp_auth: false,
            aaa_new_model: false,
            banner_var: false,
            aktif_hat: None,
        };
        proof {
            assert(views(r.bulgular@) =~= Seq::<FindingView>::empty());
        }
        r
    }

    /// The findings met so far.
    pub fn bulgular(&self) -> (r: &Vec<Finding>)
        ensures
            views(r@) == self@.findings,
    {
        &self.bulgular
    }

    /// Ends the scan: reports the `line` block still open, then the
    /// whole-configuration findings, and gives all findings.
    pub fn bitir(self) -> (r: Vec<Finding>)
        ensures
            views(r@) == self@.findings + close(self@.block) + global_findings(self@),
    {
        let mut st = self;
        hat_bitir(&mut st.aktif_hat, &mut st.bulgular);
        genel_kurallar(&mut st);
        st.bulgular
    }
}

/// Appends a whole-configuration finding if `b` holds.
fn genel_ekle(b: bool, bulgular: &mut Vec<Finding>, level: Level, code: FindingCode)
    ensures
        views(final(bulgular)@) == views(old(bulgular)@) + when(b, finding_global(level, code)),
{
    if b {
        bulgular.push(bulgu_satirsiz(level, code));
    }
    proof {
        assert(views(bulgular@) =~= views(old(bulgular)@) + when(b, finding_global(level, code)));
    }
}

/// The `NoEnableSecret` finding: an `enable password` without any
/// `enable secret`.
pub open spec fn enable_finding(enable_secret: bool, p: Option<(usize, Seq<char>)>) -> Seq<FindingView> {
    match p {
        Some(q) => when(!enable_secret, finding_at(Level::Warning, FindingCode::NoEnableSecret, q.0, q.1)),
        None => Seq::empty(),
    }
}

/// Appends the whole-configuration findings.
fn genel_kurallar(st: &mut TaramaDurumu)
    ensures
        views(final(st).bulgular@) == views(old(st).bulgular@) + global_findings(old(st)@),
{
    let ghost f2 = views(st.bulgular@);
    if !st.enable_secret {
        match &st.enable_password {
            Some((no, txt)) => {
                ekle(&mut st.bulgular, Level::Warning, FindingCode::NoEnableSecret, *no, txt.as_slice());
            },
            None => {},
        }
    }
    let ghost e = enable_finding(st.enable_secret, enable_view(st.enable_password));
    assert(views(st.bulgular@) =~= f2 + e);
    genel_ekle(!st.parola_sifreleme, &mut st.bulgular, Level::Warning, FindingCode::NoPasswordEncryption);
    genel_ekle(!st.logging_var, &mut st.bulgular, Level::Info, FindingCode::NoLogging);
    genel_ekle(st.ntp_server && !st.ntp_auth, &mut st.bulgular, Level::Warning, FindingCode::NoNtpAuth);
    genel_ekle(!st.aaa_new_model, &mut st.bulgular, Level::Info, FindingCode::NoAaaNewModel);
    genel_ekle(!st.banner_var, &mut st.bulgular, Level::Info, FindingCode::NoLoginBanner);
    proof {
        lemma_regroup_tail(
            f2,
            e,
            when(!st.parola_sifreleme, finding_global(Level::Warning, FindingCode::NoPasswordEncryption)),
            when(!st.logging_var, finding_global(Level::Info, FindingCode::NoLogging)),
            when(st.ntp_server && !st.ntp_auth, finding_global(Level::Warning, FindingCode::NoNtpAuth)),
            when(!st.aaa_new_model, finding_global(Level::Info, FindingCode::NoAaaNewModel)),
            when(!st.banner_var, finding_global(Level::Info, FindingCode::NoLoginBanner)),
        );
    }
}

/// Audits a Cisco configuration text and returns its findings.
pub fn audit(config: &str) -> (r: Vec<Finding>)
    ensures
        views(r@) == audit_findings(config@),
{
    let cs = chars_of(config);
    let satirlar = split_lines(cs.as_slice());
    let ghost ls = lines(config@);
    let mut st = TaramaDurumu::new();
    let mut i: usize = 0;
    while i < satirlar.len()
        invariant
            i <= satirlar.len(),
            satirlar@.map_values(|l: Vec<char>| l@) == ls,
            st@ == scan(ls, i as nat),
        decreases satirlar.len() - i,
    {
        proof {
            assert(satirlar@.map_values(|l: Vec<char>| l@)[i as int] == satirlar@[i as int]@);
        }
        satir_oku(&mut st, satirlar[i].as_slice(), i + 1);
        i = i + 1;
    }
    st.bitir()
}


/// Some finding of `fs` has code `c` and is about line `n`.
pub open spec fn has_code_at(fs: Seq<FindingView>, c: FindingCode, n: usize) -> bool {
    exists|j: int| 0 <= j < fs.len() && (#[trigger] fs[j]).code == c && fs[j].line == Some(n)
}

proof fn lemma_has_code_at_concat(a: Seq<FindingView>, b: Seq<FindingView>, c: FindingCode, n: usize)
    ensures
        has_code_at(a + b, c, n) <==> (has_code_at(a, c, n) || has_code_at(b, c, n)),
{
    if has_code_at(a + b, c, n) {
        let j = choose|j: int| 0 <= j < (a + b).len() && (#[trigger] (a + b)[j]).code == c && (a
            + b)[j].line == Some(n);
        if j < a.len() {
            assert(a[j] == (a + b)[j]);
        } else {
            assert(b[j - a.len()] == (a + b)[j]);
        }
    }
    if has_code_at(a, c, n) {
        let j = choose|j: int| 0 <= j < a.len() && (#[trigger] a[j]).code == c && a[j].line == Some(n);
        assert((a + b)[j] == a[j]);
    }
    if has_code_at(b, c, n) {
        let j = choose|j: int| 0 <= j < b.len() && (#[trigger] b[j]).code == c && b[j].line == Some(n);
        assert((a + b)[j + a.len()] == b[j]);
    }
}

proof fn lemma_has_code_at_when(b: bool, f: FindingView, c: FindingCode, n: usize)
    ensures
        has_code_at(when(b, f), c, n) <==> (b && f.code == c && f.line == Some(n)),
{
    if b && f.code == c && f.line == Some(n) {
        assert(when(b, f)[0] == f);
    }
}

/// The codes raised by the single-line rules.
pub open spec fn is_line_rule_code(c: FindingCode) -> bool {
    match c {
        FindingCode::TelnetEnabled
        | FindingCode::SshV1
        | FindingCode::SnmpPublic
        | FindingCode::SnmpPrivate
        | FindingCode::SnmpRw
        | FindingCode::HttpServerEnabled
        | FindingCode::ExecTimeoutDisabled
        | FindingCode::WeakEnableSecretType
        | FindingCode::Type7Password
        | FindingCode::WeakPassword => true,
        _ => false,
    }
}

/// Whether a configuration line, trimmed to `l` and lowercased to `lc`,
/// breaks the hardening rule of code `c`: telnet (or every transport)
/// allowed; SSH version 1; the `public` community; else the `private` one;
/// a community with write access; the plain HTTP server; sessions that
/// never time out; an MD5 enable secret; a reversible (type 7) password;
/// a vendor-default password as the last word of a password line.
#[verifier::opaque]
pub open spec fn line_breaks_rule(c: FindingCode, l: Seq<char>, lc: Seq<char>) -> bool {
    let secret_line = contains(lc, "password"@) || contains(lc, "secret"@);
    match c {
        FindingCode::TelnetEnabled => contains(lc, "transport input telnet"@) || contains(
            lc,
            "transport input all"@,
        ),
        FindingCode::SshV1 => contains(lc, "ip ssh version 1"@),
        FindingCode::SnmpPublic => contains(lc, "snmp-server community public"@),
        FindingCode::SnmpPrivate => !contains(lc, "snmp-server community public"@) && contains(
            lc,
            "snmp-server community private"@,
        ),
        FindingCode::SnmpRw => starts_with(lc, "snmp-server community"@) && contains(lc, " rw"@),
        FindingCode::HttpServerEnabled => lc == "ip http server"@,
        FindingCode::ExecTimeoutDisabled => lc == "exec-timeout 0 0"@ || lc == "exec-timeout 0"@,
        FindingCode::WeakEnableSecretType => starts_with(lc, "enable secret 5 "@),
        FindingCode::Type7Password => secret_line && contains(lc, " 7 "@),
        FindingCode::WeakPassword => secret_line && match last_word(l) {
            Some(w) => {
                let lw = lower(w);
                lw == "cisco"@ || lw == "admin"@ || lw == "password"@ || lw == "123456"@ || lw
                    == "default"@ || lw == "pass"@
            },
            None => false,
        },
        _ => false,
    }
}

/// The level at which a single-line rule reports.
pub open spec fn line_rule_level(c: FindingCode) -> Level {
    match c {
        FindingCode::TelnetEnabled
        | FindingCode::SshV1
        | FindingCode::SnmpPublic
        | FindingCode::WeakPassword => Level::Critical,
        FindingCode::WeakEnableSecretType => Level::Info,
        _ => Level::Warning,
    }
}

/// Every finding of `fs` with code `c` has level `lv`, and there is one
/// only if `b` holds.
spec fn code_sound(fs: Seq<FindingView>, c: FindingCode, lv: Level, b: bool) -> bool {
    forall|j: int| 0 <= j < fs.len() && (#[trigger] fs[j]).code == c ==> fs[j].level == lv && b
}

proof fn lemma_code_sound_concat(a: Seq<FindingView>, b: Seq<FindingView>, c: FindingCode, lv: Level, p: bool)
    requires
        code_sound(a, c, lv, p),
        code_sound(b, c, lv, p),
    ensures
        code_sound(a + b, c, lv, p),
{
    assert forall|j: int| 0 <= j < (a + b).len() && (#[trigger] (a + b)[j]).code == c implies (a
        + b)[j].level == lv && p by {
        if j < a.len() {
            assert((a + b)[j] == a[j]);
        } else {
            assert((a + b)[j] == b[j - a.len()]);
        }
    }
}

proof fn lemma_code_sound_when(cond: bool, f: FindingView, c: FindingCode, lv: Level, p: bool)
    requires
        f.code == c ==> (cond ==> f.level == lv && p),
    ensures
        code_sound(when(cond, f), c, lv, p),
{
}

/// What each single-line rule reads, code by code.
proof fn lemma_rule_table(l: Seq<char>, lc: Seq<char>)
    ensures
        line_breaks_rule(FindingCode::TelnetEnabled, l, lc) == (contains(lc, "transport input telnet"@)
            || contains(lc, "transport input all"@)),
        line_breaks_rule(FindingCode::SshV1, l, lc) == contains(lc, "ip ssh version 1"@),
        line_breaks_rule(FindingCode::SnmpPublic, l, lc) == contains(
            lc,
            "snmp-server community public"@,
        ),
        line_breaks_rule(FindingCode::SnmpPrivate, l, lc) == (!contains(
            lc,
            "snmp-server community public"@,
        ) && contains(lc, "snmp-server community private"@)),
        line_breaks_rule(FindingCode::SnmpRw, l, lc) == (starts_with(lc, "snmp-server community"@)
            && contains(lc, " rw"@)),
        line_breaks_rule(FindingCode::HttpServerEnabled, l, lc) == (lc == "ip http server"@),
        line_breaks_rule(FindingCode::ExecTimeoutDisabled, l, lc) == (lc == "exec-timeout 0 0"@ || lc
            == "exec-timeout 0"@),
        line_breaks_rule(FindingCode::WeakEnableSecretType, l, lc) == starts_with(
            lc,
            "enable secret 5 "@,
        ),
        line_breaks_rule(FindingCode::Type7Password, l, lc) == (mentions_secret(lc) && contains(
            lc,
            " 7 "@,
        )),
        line_breaks_rule(FindingCode::WeakPassword, l, lc) == (mentions_secret(lc)
            && ends_in_weak_password(l)),
{
    reveal(line_breaks_rule);
}

/// The single-line rules report code `c` on line `n` exactly when the line
/// breaks that rule, at the rule's level.
proof fn lemma_has_nine(
    r1: Seq<FindingView>,
    r2: Seq<FindingView>,
    r3: Seq<FindingView>,
    r4: Seq<FindingView>,
    r5: Seq<FindingView>,
    r6: Seq<FindingView>,
    r7: Seq<FindingView>,
    r8: Seq<FindingView>,
    r9: Seq<FindingView>,
    c: FindingCode,
    n: usize,
)
    ensures
        has_code_at(r1 + r2 + r3 + r4 + r5 + r6 + r7 + r8 + r9, c, n) == (has_code_at(r1, c, n)
            || has_code_at(r2, c, n) || has_code_at(r3, c, n) || has_code_at(r4, c, n)
            || has_code_at(r5, c, n) || has_code_at(r6, c, n) || has_code_at(r7, c, n)
            || has_code_at(r8, c, n) || has_code_at(r9, c, n)),
{
    lemma_has_code_at_concat(r1, r2, c, n);
    lemma_has_code_at_concat(r1 + r2, r3, c, n);
    lemma_has_code_at_concat(r1 + r2 + r3, r4, c, n);
    lemma_has_code_at_concat(r1 + r2 + r3 + r4, r5, c, n);
    lemma_has_code_at_concat(r1 + r2 + r3 + r4 + r5, r6, c, n);
    lemma_has_code_at_concat(r1 + r2 + r3 + r4 + r5 + r6, r7, c, n);
    lemma_has_code_at_concat(r1 + r2 + r3 + r4 + r5 + r6 + r7, r8, c, n);
    lemma_has_code_at_concat(r1 + r2 + r3 + r4 + r5 + r6 + r7 + r8, r9, c, n);
}

proof fn lemma_sound_nine(
    r1: Seq<FindingView>,
    r2: Seq<FindingView>,
    r3: Seq<FindingView>,
    r4: Seq<FindingView>,
    r5: Seq<FindingView>,
    r6: Seq<FindingView>,
    r7: Seq<FindingView>,
    r8: Seq<FindingView>,
    r9: Seq<FindingView>,
    c: FindingCode,
    lv: Level,
    p: bool,
)
    requires
        code_sound(r1, c, lv, p),
        code_sound(r2, c, lv, p),
        code_sound(r3, c, lv, p),
        code_sound(r4, c, lv, p),
        code_sound(r5, c, lv, p),
        code_sound(r6, c, lv, p),
        code_sound(r7, c, lv, p),
        code_sound(r8, c, lv, p),
        code_sound(r9, c, lv, p),
    ensures
        code_sound(r1 + r2 + r3 + r4 + r5 + r6 + r7 + r8 + r9, c, lv, p),
{
    lemma_code_sound_concat(r1, r2, c, lv, p);
    lemma_code_sound_concat(r1 + r2, r3, c, lv, p);
    lemma_code_sound_concat(r1 + r2 + r3, r4, c, lv, p);
    lemma_code_sound_concat(r1 + r2 + r3 + r4, r5, c, lv, p);
    lemma_code_sound_concat(r1 + r2 + r3 + r4 + r5, r6, c, lv, p);
    lemma_code_sound_concat(r1 + r2 + r3 + r4 + r5 + r6, r7, c, lv, p);
    lemma_code_sound_concat(r1 + r2 + r3 + r4 + r5 + r6 + r7, r8, c, lv, p);
    lemma_code_sound_concat(r1 + r2 + r3 + r4 + r5 + r6 + r7 + r8, r9, c, lv, p);
}

proof fn lemma_rules_code(l: Seq<char>, lc: Seq<char>, n: usize, c: FindingCode)
    requires
        is_line_rule_code(c),
    ensures
        has_code_at(rule_findings(l, lc, n), c, n) <==> line_breaks_rule(c, l, lc),
        code_sound(rule_findings(l, lc, n), c, line_rule_level(c), line_breaks_rule(c, l, lc)),
{
    lemma_rules_code_hit(l, lc, n, c);
    lemma_rules_code_sound(l, lc, n, c);
}

/// Which rule a line breaks, as one condition per code.
proof fn lemma_rule_disjunction(c: FindingCode, l: Seq<char>, lc: Seq<char>)
    requires
        is_line_rule_code(c),
    ensures
        line_breaks_rule(c, l, lc) == (
        ((contains(lc, "transport input telnet"@) || contains(lc, "transport input all"@)) && c
            == FindingCode::TelnetEnabled) || (contains(lc, "ip ssh version 1"@) && c
            == FindingCode::SshV1) || (contains(lc, "snmp-server community public"@) && c
            == FindingCode::SnmpPublic) || (!contains(lc, "snmp-server community public"@)
            && contains(lc, "snmp-server community private"@) && c == FindingCode::SnmpPrivate) || (
        starts_with(lc, "snmp-server community"@) && contains(lc, " rw"@) && c
            == FindingCode::SnmpRw) || (lc == "ip http server"@ && c == FindingCode::HttpServerEnabled)
            || ((lc == "exec-timeout 0 0"@ || lc == "exec-timeout 0"@) && c
            == FindingCode::ExecTimeoutDisabled) || (starts_with(lc, "enable secret 5 "@) && c
            == FindingCode::WeakEnableSecretType) || (mentions_secret(lc) && contains(lc, " 7 "@) && c
            == FindingCode::Type7Password) || (mentions_secret(lc) && ends_in_weak_password(l) && c
            == FindingCode::WeakPassword)),
{
    lemma_rule_table(l, lc);
    match c {
        FindingCode::TelnetEnabled => {},
        FindingCode::SshV1 => {},
        FindingCode::SnmpPublic => {},
        FindingCode::SnmpPrivate => {},
        FindingCode::SnmpRw => {},
        FindingCode::HttpServerEnabled => {},
        FindingCode::ExecTimeoutDisabled => {},
        FindingCode::WeakEnableSecretType => {},
        FindingCode::Type7Password => {},
        FindingCode::WeakPassword => {},
        _ => {},
    }
}

#[verifier::spinoff_prover]
proof fn lemma_rules_code_hit(l: Seq<char>, lc: Seq<char>, n: usize, c: FindingCode)
    requires
        is_line_rule_code(c),
    ensures
        has_code_at(rule_findings(l, lc, n), c, n) <==> line_breaks_rule(c, l, lc),
{
    let r1 = rule_telnet(l, lc, n);
    let r2 = rule_ssh_v1(l, lc, n);
    let r3 = rule_snmp_default(l, lc, n);
    let r4 = rule_snmp_rw(l, lc, n);
    let r5 = rule_http(l, lc, n);
    let r6 = rule_exec_timeout(l, lc, n);
    let r7 = rule_md5_secret(l, lc, n);
    let r8 = rule_type7(l, lc, n);
    let r9 = rule_weak_password(l, lc, n);
    let pubc = contains(lc, "snmp-server community public"@);
    let b3 = contains(lc, "snmp-server community private"@);
    lemma_has_code_at_when(
        contains(lc, "transport input telnet"@) || contains(lc, "transport input all"@),
        finding_at(Level::Critical, FindingCode::TelnetEnabled, n, l),
        c,
        n,
    );
    lemma_has_code_at_when(
        contains(lc, "ip ssh version 1"@),
        finding_at(Level::Critical, FindingCode::SshV1, n, l),
        c,
        n,
    );
    lemma_has_code_at_when(
        starts_with(lc, "snmp-server community"@) && contains(lc, " rw"@),
        finding_at(Level::Warning, FindingCode::SnmpRw, n, l),
        c,
        n,
    );
    lemma_has_code_at_when(
        lc == "ip http server"@,
        finding_at(Level::Warning, FindingCode::HttpServerEnabled, n, l),
        c,
        n,
    );
    lemma_has_code_at_when(
        lc == "exec-timeout 0 0"@ || lc == "exec-timeout 0"@,
        finding_at(Level::Warning, FindingCode::ExecTimeoutDisabled, n, l),
        c,
        n,
    );
    lemma_has_code_at_when(
        starts_with(lc, "enable secret 5 "@),
        finding_at(Level::Info, FindingCode::WeakEnableSecretType, n, l),
        c,
        n,
    );
    lemma_has_code_at_when(
        mentions_secret(lc) && contains(lc, " 7 "@),
        finding_at(Level::Warning, FindingCode::Type7Password, n, l),
        c,
        n,
    );
    lemma_has_code_at_when(
        mentions_secret(lc) && ends_in_weak_password(l),
        finding_at(Level::Critical, FindingCode::WeakPassword, n, l),
        c,
        n,
    );
    if pubc {
        let g = finding_at(Level::Critical, FindingCode::SnmpPublic, n, l);
        assert(r3 == when(true, g));
        lemma_has_code_at_when(true, g, c, n);
    } else {
        let g = finding_at(Level::Warning, FindingCode::SnmpPrivate, n, l);
        assert(r3 == when(b3, g));
        lemma_has_code_at_when(b3, g, c, n);
    }
    assert(has_code_at(r3, c, n) == ((pubc && c == FindingCode::SnmpPublic) || (!pubc && b3 && c
        == FindingCode::SnmpPrivate)));
    lemma_has_nine(r1, r2, r3, r4, r5, r6, r7, r8, r9, c, n);
    assert(rule_findings(l, lc, n) == r1 + r2 + r3 + r4 + r5 + r6 + r7 + r8 + r9);
    lemma_rule_disjunction(c, l, lc);
}

#[verifier::spinoff_prover]
#[verifier::rlimit(40)]
proof fn lemma_rules_code_sound(l: Seq<char>, lc: Seq<char>, n: usize, c: FindingCode)
    requires
        is_line_rule_code(c),
    ensures
        code_sound(rule_findings(l, lc, n), c, line_rule_level(c), line_breaks_rule(c, l, lc)),
{
    let lv = line_rule_level(c);
    let p = line_breaks_rule(c, l, lc);
    let r1 = rule_telnet(l, lc, n);
    let r2 = rule_ssh_v1(l, lc, n);
    let r3 = rule_snmp_default(l, lc, n);
    let r4 = rule_snmp_rw(l, lc, n);
    let r5 = rule_http(l, lc, n);
    let r6 = rule_exec_timeout(l, lc, n);
    let r7 = rule_md5_secret(l, lc, n);
    let r8 = rule_type7(l, lc, n);
    let r9 = rule_weak_password(l, lc, n);
    let f1 = finding_at(Level::Critical, FindingCode::TelnetEnabled, n, l);
    let f2 = finding_at(Level::Critical, FindingCode::SshV1, n, l);
    let f3 = finding_at(Level::Warning, FindingCode::SnmpPrivate, n, l);
    let f4 = finding_at(Level::Warning, FindingCode::SnmpRw, n, l);
    let f5 = finding_at(Level::Warning, FindingCode::HttpServerEnabled, n, l);
    let f6 = finding_at(Level::Warning, FindingCode::ExecTimeoutDisabled, n, l);
    let f7 = finding_at(Level::Info, FindingCode::WeakEnableSecretType, n, l);
    let f8 = finding_at(Level::Warning, FindingCode::Type7Password, n, l);
    let f9 = finding_at(Level::Critical, FindingCode::WeakPassword, n, l);
    let b1 = contains(lc, "transport input telnet"@) || contains(lc, "transport input all"@);
    let b2 = contains(lc, "ip ssh version 1"@);
    let b3 = contains(lc, "snmp-server community private"@);
    let b4 = starts_with(lc, "snmp-server community"@) && contains(lc, " rw"@);
    let b5 = lc == "ip http server"@;
    let b6 = lc == "exec-timeout 0 0"@ || lc == "exec-timeout 0"@;
    let b7 = starts_with(lc, "enable secret 5 "@);
    let b8 = mentions_secret(lc) && contains(lc, " 7 "@);
    let b9 = mentions_secret(lc) && ends_in_weak_password(l);
    lemma_rule_table(l, lc);
    assert(r1 == when(b1, f1));
    assert(r2 == when(b2, f2));
    assert(r4 == when(b4, f4));
    assert(r5 == when(b5, f5));
    assert(r6 == when(b6, f6));
    assert(r7 == when(b7, f7));
    assert(r8 == when(b8, f8));
    assert(r9 == when(b9, f9));
    lemma_code_sound_when(b1, f1, c, lv, p);
    lemma_code_sound_when(b2, f2, c, lv, p);
    lemma_code_sound_when(b4, f4, c, lv, p);
    lemma_code_sound_when(b5, f5, c, lv, p);
    lemma_code_sound_when(b6, f6, c, lv, p);
    lemma_code_sound_when(b7, f7, c, lv, p);
    lemma_code_sound_when(b8, f8, c, lv, p);
    lemma_code_sound_when(b9, f9, c, lv, p);
    if contains(lc, "snmp-server community public"@) {
        let g = finding_at(Level::Critical, FindingCode::SnmpPublic, n, l);
        assert(r3 == when(true, g));
        lemma_code_sound_when(true, g, c, lv, p);
    } else {
        assert(r3 == when(b3, f3));
        lemma_code_sound_when(b3, f3, c, lv, p);
    }
    lemma_sound_nine(r1, r2, r3, r4, r5, r6, r7, r8, r9, c, lv, p);
    assert(rule_findings(l, lc, n) == r1 + r2 + r3 + r4 + r5 + r6 + r7 + r8 + r9);
}

/// Every finding of `fs` with code `c` is at the rule's level and about
/// one of the first `k` lines of `ls`, a line that breaks the rule.
spec fn rule_findings_sound(fs: Seq<FindingView>, ls: Seq<Seq<char>>, k: nat, c: FindingCode) -> bool {
    forall|j: int|
        0 <= j < fs.len() && (#[trigger] fs[j]).code == c ==> {
            &&& fs[j].level == line_rule_level(c)
            &&& fs[j].line is Some
            &&& 1 <= fs[j].line->0 <= k
            &&& line_breaks_rule(
                c,
                trim(ls[fs[j].line->0 - 1]),
                lower(trim(ls[fs[j].line->0 - 1])),
            )
        }
}

proof fn lemma_rule_sound_concat(
    a: Seq<FindingView>,
    b: Seq<FindingView>,
    ls: Seq<Seq<char>>,
    k: nat,
    c: FindingCode,
)
    requires
        rule_findings_sound(a, ls, k, c),
        rule_findings_sound(b, ls, k, c),
    ensures
        rule_findings_sound(a + b, ls, k, c),
{
    assert forall|j: int| 0 <= j < (a + b).len() && (#[trigger] (a + b)[j]).code == c implies {
        &&& (a + b)[j].level == line_rule_level(c)
        &&& (a + b)[j].line is Some
        &&& 1 <= (a + b)[j].line->0 <= k
        &&& line_breaks_rule(
            c,
            trim(ls[(a + b)[j].line->0 - 1]),
            lower(trim(ls[(a + b)[j].line->0 - 1])),
        )
    } by {
        if j < a.len() {
            assert((a + b)[j] == a[j]);
        } else {
            assert((a + b)[j] == b[j - a.len()]);
        }
    }
}

proof fn lemma_scan_rule(ls: Seq<Seq<char>>, k: nat, c: FindingCode)
    requires
        k <= ls.len(),
        ls.len() < usize::MAX,
        is_line_rule_code(c),
    ensures
        rule_findings_sound(scan(ls, k).findings, ls, k, c),
        forall|m: int|
            1 <= m <= k && line_breaks_rule(c, trim(#[trigger] ls[m - 1]), lower(trim(ls[m - 1])))
                ==> has_code_at(scan(ls, k).findings, c, m as usize),
        forall|j: int|
            0 <= j < close(scan(ls, k).block).len() ==> (#[trigger] close(scan(ls, k).block)[j]).code
                == FindingCode::LinePasswordless,
    decreases k,
{
    if k > 0 {
        lemma_scan_rule(ls, (k - 1) as nat, c);
        let st = scan(ls, (k - 1) as nat);
        let raw = ls[k - 1];
        let l = trim(raw);
        let lc = lower(l);
        let n = k as usize;
        let indent = is_indented(raw);
        let cb = closed_by(st.block, indent, lc);
        let rf = rule_findings(l, lc, n);
        lemma_rules_code(l, lc, n, c);
        lemma_rule_findings_at(l, lc, n);
        assert(rule_findings_sound(st.findings, ls, k, c));
        assert(rule_findings_sound(cb, ls, k, c)) by {
            assert forall|j: int| 0 <= j < cb.len() implies (#[trigger] cb[j]).code
                == FindingCode::LinePasswordless by {
                assert(cb.len() == 0 || cb == close(st.block));
            }
        }
        assert forall|j: int| 0 <= j < rf.len() && (#[trigger] rf[j]).code == c implies {
            &&& rf[j].level == line_rule_level(c)
            &&& rf[j].line is Some
            &&& 1 <= rf[j].line->0 <= k
            &&& line_breaks_rule(c, trim(ls[rf[j].line->0 - 1]), lower(trim(ls[rf[j].line->0 - 1])))
        } by {
            assert(rf[j].line == Some(n));
            assert(rf[j].level == line_rule_level(c) && line_breaks_rule(c, l, lc));
        }
        lemma_rule_sound_concat(st.findings, cb, ls, k, c);
        lemma_rule_sound_concat(st.findings + cb, rf, ls, k, c);
        let f = st.findings + cb + rf;
        assert(scan(ls, k).findings == f);
        assert forall|m: int|
            1 <= m <= k && line_breaks_rule(c, trim(#[trigger] ls[m - 1]), lower(trim(ls[m - 1])))
                implies has_code_at(f, c, m as usize) by {
            lemma_has_code_at_concat(st.findings, cb, c, m as usize);
            lemma_has_code_at_concat(st.findings + cb, rf, c, m as usize);
        }
        let nb = next_block(st.block, indent, l, lc, n);
        assert(scan(ls, k).block == nb);
    }
}

/// Each single-line rule is reported for exactly the lines that break it:
/// for every line of a configuration and every code of a single-line
/// rule, a finding of that code about the line exists exactly when the
/// line (trimmed, and lowercased where the rule reads it so) breaks the
/// rule, and every finding of that code has the rule's level.
pub proof fn lemma_line_rule_reported(config: Seq<char>, i: int, c: FindingCode)
    requires
        config.len() < usize::MAX,
        0 <= i < lines(config).len(),
        is_line_rule_code(c),
    ensures
        has_code_at(audit_findings(config), c, (i + 1) as usize) <==> line_breaks_rule(
            c,
            trim(lines(config)[i]),
            lower(trim(lines(config)[i])),
        ),
        forall|j: int|
            0 <= j < audit_findings(config).len() && (#[trigger] audit_findings(config)[j]).code == c
                ==> audit_findings(config)[j].level == line_rule_level(c),
{
    let ls = lines(config);
    lemma_lines_len(config);
    let st = scan(ls, ls.len());
    lemma_scan_rule(ls, ls.len(), c);
    let n = (i + 1) as usize;
    let cl = close(st.block);
    let g = global_findings(st);
    assert(!has_code_at(cl, c, n));
    assert(lacks_code(g, c)) by {
        let p0 = enable_finding(st.enable_secret, st.enable_password);
        let p1 = when(
            !st.password_encryption,
            finding_global(Level::Warning, FindingCode::NoPasswordEncryption),
        );
        let p2 = when(!st.logging, finding_global(Level::Info, FindingCode::NoLogging));
        let p3 = when(
            st.ntp_server && !st.ntp_auth,
            finding_global(Level::Warning, FindingCode::NoNtpAuth),
        );
        let p4 = when(!st.aaa_new_model, finding_global(Level::Info, FindingCode::NoAaaNewModel));
        let p5 = when(!st.banner, finding_global(Level::Info, FindingCode::NoLoginBanner));
        assert(lacks_code(p0, c));
        lemma_lacks_concat(p0, p1, c);
        lemma_lacks_concat(p0 + p1, p2, c);
        lemma_lacks_concat(p0 + p1 + p2, p3, c);
        lemma_lacks_concat(p0 + p1 + p2 + p3, p4, c);
        lemma_lacks_concat(p0 + p1 + p2 + p3 + p4, p5, c);
    }
    assert(!has_code_at(g, c, n));
    lemma_has_code_at_concat(st.findings, cl, c, n);
    lemma_has_code_at_concat(st.findings + cl, g, c, n);
    let all = audit_findings(config);
    assert(all == st.findings + cl + g);
    if has_code_at(st.findings, c, n) {
        let j = choose|j: int|
            0 <= j < st.findings.len() && (#[trigger] st.findings[j]).code == c && st.findings[j].line
                == Some(n);
        assert(st.findings[j].line->0 == n);
        assert(n as int - 1 == i);
    }
    if line_breaks_rule(c, trim(ls[i]), lower(trim(ls[i]))) {
        let m: int = i + 1;
        assert(ls[m - 1] == ls[i]);
        assert(has_code_at(st.findings, c, m as usize));
        assert(has_code_at(all, c, n));
    }
    assert forall|j: int| 0 <= j < all.len() && (#[trigger] all[j]).code == c implies all[j].level
        == line_rule_level(c) by {
        let a = st.findings + cl;
        if j < st.findings.len() {
            assert(all[j] == st.findings[j]);
        } else if j < a.len() {
            assert(all[j] == cl[j - st.findings.len()]);
        } else {
            assert(all[j] == g[j - a.len()]);
        }
    }
}

/// The plain HTTP server is reported for exactly the lines that enable
/// it: for every line of a configuration, a HTTP-server finding about it
/// exists exactly when its trimmed, lowercased text is `ip http server`,
/// and every such finding is a warning.
pub proof fn lemma_http_server_reported(config: Seq<char>, i: int)
    requires
        config.len() < usize::MAX,
        0 <= i < lines(config).len(),
    ensures
        has_code_at(audit_findings(config), FindingCode::HttpServerEnabled, (i + 1) as usize) <==> lower(
            trim(lines(config)[i]),
        ) == "ip http server"@,
        forall|j: int|
            0 <= j < audit_findings(config).len() && (#[trigger] audit_findings(config)[j]).code
                == FindingCode::HttpServerEnabled ==> audit_findings(config)[j].level == Level::Warning,
{
    lemma_line_rule_reported(config, i, FindingCode::HttpServerEnabled);
    lemma_rule_table(trim(lines(config)[i]), lower(trim(lines(config)[i])));
}


/// The level of a whole-configuration finding.
pub open spec fn global_level(c: FindingCode) -> Level {
    match c {
        FindingCode::NoPasswordEncryption | FindingCode::NoNtpAuth => Level::Warning,
        _ => Level::Info,
    }
}

proof fn lemma_flag_unset(ls: Seq<Seq<char>>, k: nat, c: FindingCode)
    requires
        k <= ls.len(),
        is_global_code(c),
        forall|i: int| 0 <= i < ls.len() ==> !settles(#[trigger] ls[i], c),
    ensures
        !flag_settles(scan(ls, k), c),
    decreases k,
{
    if k > 0 {
        lemma_flag_unset(ls, (k - 1) as nat, c);
        assert(!settles(ls[k - 1], c));
    }
}

proof fn lemma_ntp_server_kept(ls: Seq<Seq<char>>, i: nat, k: nat)
    requires
        i < k <= ls.len(),
        contains(lower(trim(ls[i as int])), "ntp server"@),
    ensures
        scan(ls, k).ntp_server,
    decreases k - i,
{
    if k > i + 1 {
        lemma_ntp_server_kept(ls, i, (k - 1) as nat);
    }
}

/// A configuration none of whose lines settles a whole-configuration code
/// raises a finding of that code (for unauthenticated NTP, once a line
/// names an NTP server), about no line and at the code's level.
pub proof fn lemma_unsettled_code_reported(config: Seq<char>, c: FindingCode)
    requires
        is_global_code(c),
        forall|i: int| 0 <= i < lines(config).len() ==> !settles(#[trigger] lines(config)[i], c),
        c == FindingCode::NoNtpAuth ==> exists|i: int|
            0 <= i < lines(config).len() && contains(
                lower(trim(#[trigger] lines(config)[i])),
                "ntp server"@,
            ),
    ensures
        exists|j: int|
            0 <= j < audit_findings(config).len() && (#[trigger] audit_findings(config)[j]).code == c
                && audit_findings(config)[j].line is None && audit_findings(config)[j].level
                == global_level(c),
{
    let ls = lines(config);
    let st = scan(ls, ls.len());
    lemma_flag_unset(ls, ls.len(), c);
    if c == FindingCode::NoNtpAuth {
        let i = choose|i: int| 0 <= i < ls.len() && contains(lower(trim(#[trigger] ls[i])), "ntp server"@);
        lemma_ntp_server_kept(ls, i as nat, ls.len());
    }
    let f = finding_global(global_level(c), c);
    let p0 = enable_finding(st.enable_secret, st.enable_password);
    let p1 = when(
        !st.password_encryption,
        finding_global(Level::Warning, FindingCode::NoPasswordEncryption),
    );
    let p2 = when(!st.logging, finding_global(Level::Info, FindingCode::NoLogging));
    let p3 = when(st.ntp_server && !st.ntp_auth, finding_global(Level::Warning, FindingCode::NoNtpAuth));
    let p4 = when(!st.aaa_new_model, finding_global(Level::Info, FindingCode::NoAaaNewModel));
    let p5 = when(!st.banner, finding_global(Level::Info, FindingCode::NoLoginBanner));
    let g = global_findings(st);
    assert(g == p0 + p1 + p2 + p3 + p4 + p5);
    let j: int = if c == FindingCode::NoPasswordEncryption {
        assert((p0 + p1)[p0.len() as int] == f);
        p0.len() as int
    } else if c == FindingCode::NoLogging {
        assert((p0 + p1 + p2)[(p0 + p1).len() as int] == f);
        (p0 + p1).len() as int
    } else if c == FindingCode::NoNtpAuth {
        assert((p0 + p1 + p2 + p3)[(p0 + p1 + p2).len() as int] == f);
        (p0 + p1 + p2).len() as int
    } else if c == FindingCode::NoAaaNewModel {
        assert((p0 + p1 + p2 + p3 + p4)[(p0 + p1 + p2 + p3).len() as int] == f);
        (p0 + p1 + p2 + p3).len() as int
    } else {
        assert((p0 + p1 + p2 + p3 + p4 + p5)[(p0 + p1 + p2 + p3 + p4).len() as int] == f);
        (p0 + p1 + p2 + p3 + p4).len() as int
    };
    assert(g[j] == f);
    let a = st.findings + close(st.block);
    let all = audit_findings(config);
    assert(all == a + g);
    assert(all[a.len() + j] == f);
}

/// The posture score is 100 less the penalty of 15 per critical, 7 per
/// warning and 2 per info finding, and never below 0 (while the penalty
/// stays below 2^32).
pub proof fn lemma_score_from_penalty(fs: Seq<FindingView>)
    requires
        count_level(fs, Level::Critical) * 15 + count_level(fs, Level::Warning) * 7 + count_level(
            fs,
            Level::Info,
        ) * 2 < 0x1_0000_0000,
    ensures
        ({
            let penalty = count_level(fs, Level::Critical) * 15 + count_level(fs, Level::Warning) * 7
                + count_level(fs, Level::Info) * 2;
            summary_of(fs).score as int == if penalty >= 100 {
                0
            } else {
                100 - penalty
            }
        }),
{
}

} // verus!

