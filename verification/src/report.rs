//! The arithmetic and wording of reports: findings counted by severity, the
//! health scores, the score bands, recommendations, and the figures a JSON
//! report gives about the cluster.
use vstd::prelude::*;
use crate::text::owned;
use crate::numbers::{decimal, decimal_string};
use crate::json::JsonValue;
use crate::snapshot::{Severity, Category, ClusterMode, Finding, Snapshot};

verus! {

/// How many of `fs` have severity `s`.
pub open spec fn count_severity(fs: Seq<Finding>, s: Severity) -> nat
    decreases fs.len(),
{
    if fs.len() == 0 {
        0
    } else {
        count_severity(fs.drop_last(), s) + if fs.last().severity == s { 1nat } else { 0nat }
    }
}

/// How many of `fs` are in category `c`.
pub open spec fn count_category(fs: Seq<Finding>, c: Category) -> nat
    decreases fs.len(),
{
    if fs.len() == 0 {
        0
    } else {
        count_category(fs.drop_last(), c) + if fs.last().category == c { 1nat } else { 0nat }
    }
}

/// The findings counted by severity: critical, high, medium, low, info.
pub open spec fn severity_counts(fs: Seq<Finding>) -> (nat, nat, nat, nat, nat) {
    (
        count_severity(fs, Severity::Critical),
        count_severity(fs, Severity::High),
        count_severity(fs, Severity::Medium),
        count_severity(fs, Severity::Low),
        count_severity(fs, Severity::Info),
    )
}

/// The health score of the HTML and JSON reports, in half points: 100 points less 20 per
/// critical, 10 per high, 5 per medium, 2 per low and a half per informational finding,
/// and never below zero.
pub open spec fn health_halves(fs: Seq<Finding>) -> int {
    let p = 40 * count_severity(fs, Severity::Critical) + 20 * count_severity(fs, Severity::High) + 10
        * count_severity(fs, Severity::Medium) + 4 * count_severity(fs, Severity::Low) + count_severity(
        fs,
        Severity::Info,
    );
    if p >= 200 { 0 } else { 200 - p }
}

/// The health score of the terminal report: 100 points less 25 per critical, 15 per
/// high, 8 per medium and 3 per low finding, and never below zero.
pub open spec fn terminal_score(fs: Seq<Finding>) -> int {
    let p = 25 * count_severity(fs, Severity::Critical) + 15 * count_severity(fs, Severity::High) + 8
        * count_severity(fs, Severity::Medium) + 3 * count_severity(fs, Severity::Low);
    if p >= 100 { 0 } else { 100 - p }
}

pub proof fn lemma_count_severity_bound(fs: Seq<Finding>, s: Severity)
    ensures
        count_severity(fs, s) <= fs.len(),
    decreases fs.len(),
{
    if fs.len() > 0 {
        lemma_count_severity_bound(fs.drop_last(), s);
    }
}

pub proof fn lemma_counts_sum(fs: Seq<Finding>)
    ensures
        count_severity(fs, Severity::Critical) + count_severity(fs, Severity::High) + count_severity(
            fs,
            Severity::Medium,
        ) + count_severity(fs, Severity::Low) + count_severity(fs, Severity::Info) == fs.len(),
    decreases fs.len(),
{
    if fs.len() > 0 {
        lemma_counts_sum(fs.drop_last());
    }
}

/// Counts the findings of each severity: critical, high, medium, low, info.
pub fn count_severities(findings: &Vec<Finding>) -> (r: (usize, usize, usize, usize, usize))
    ensures
        (r.0 as nat, r.1 as nat, r.2 as nat, r.3 as nat, r.4 as nat) == severity_counts(findings@),
{
    let n = findings.len();
    let mut c: usize = 0;
    let mut h: usize = 0;
    let mut m: usize = 0;
    let mut l: usize = 0;
    let mut info: usize = 0;
    let mut i: usize = 0;
    assert(findings@.take(0) =~= Seq::<Finding>::empty());
    while i < n
        invariant
            i <= n == findings@.len(),
            (c as nat, h as nat, m as nat, l as nat, info as nat) == severity_counts(findings@.take(i as int)),
            c + h + m + l + info == i,
        decreases n - i,
    {
        proof {
            assert(findings@.take(i + 1).drop_last() =~= findings@.take(i as int));
            assert(findings@.take(i + 1).last() == findings@[i as int]);
        }
        match findings[i].severity {
            Severity::Critical => c = c + 1,
            Severity::High => h = h + 1,
            Severity::Medium => m = m + 1,
            Severity::Low => l = l + 1,
            Severity::Info => info = info + 1,
        }
        i = i + 1;
    }
    assert(findings@.take(n as int) =~= findings@);
    (c, h, m, l, info)
}

/// The number of findings in category `category`.
pub fn count_in_category(findings: &Vec<Finding>, category: Category) -> (r: usize)
    ensures
        r == count_category(findings@, category),
{
    let n = findings.len();
    let mut k: usize = 0;
    let mut i: usize = 0;
    assert(findings@.take(0) =~= Seq::<Finding>::empty());
    while i < n
        invariant
            i <= n == findings@.len(),
            k == count_category(findings@.take(i as int), category),
            k <= i,
        decreases n - i,
    {
        proof {
            assert(findings@.take(i + 1).drop_last() =~= findings@.take(i as int));
            assert(findings@.take(i + 1).last() == findings@[i as int]);
        }
        if findings[i].category == category {
            k = k + 1;
        }
        i = i + 1;
    }
    assert(findings@.take(n as int) =~= findings@);
    k
}

/// The health score of the HTML and JSON reports, in half points (0 to 200).
pub fn health_score_halves(findings: &Vec<Finding>) -> (r: u32)
    ensures
        r == health_halves(findings@),
        r <= 200,
{
    let (c, h, m, l, i) = count_severities(findings);
    let p: u128 = 40 * (c as u128) + 20 * (h as u128) + 10 * (m as u128) + 4 * (l as u128) + (i as u128);
    if p >= 200 {
        0
    } else {
        (200 - p) as u32
    }
}

/// The health score of the terminal report (0 to 100).
pub fn terminal_health_score(findings: &Vec<Finding>) -> (r: u32)
    ensures
        r == terminal_score(findings@),
        r <= 100,
{
    let (c, h, m, l, _) = count_severities(findings);
    let p: u128 = 25 * (c as u128) + 15 * (h as u128) + 8 * (m as u128) + 3 * (l as u128);
    if p >= 100 {
        0
    } else {
        (100 - p) as u32
    }
}

/// A score given in half points, with one decimal, as `{:.1}` prints it.
pub open spec fn halves_text(halves: nat) -> Seq<char> {
    decimal(halves / 2) + (if halves % 2 == 1 { ".5"@ } else { ".0"@ })
}

/// Prints a score given in half points with one decimal.
pub fn format_halves(halves: u32) -> (r: String)
    ensures
        r@ == halves_text(halves as nat),
{
    let whole = decimal_string((halves / 2) as u64);
    let frac = if halves % 2 == 1 { ".5" } else { ".0" };
    crate::text::concat(whole.as_str(), frac)
}

/// The band of an HTML health score given in half points: `excellent` from 90, `good`
/// from 75, `fair` from 50, else `poor`.
pub open spec fn score_band(halves: int) -> Seq<char> {
    if halves >= 180 {
        "excellent"@
    } else if halves >= 150 {
        "good"@
    } else if halves >= 100 {
        "fair"@
    } else {
        "poor"@
    }
}

/// The CSS class of the health score's band.
pub fn score_class(halves: u32) -> (r: &'static str)
    ensures
        r@ == score_band(halves as int),
{
    if halves >= 180 {
        "excellent"
    } else if halves >= 150 {
        "good"
    } else if halves >= 100 {
        "fair"
    } else {
        "poor"
    }
}

/// The label of the health score's band.
pub fn score_label(halves: u32) -> (r: &'static str)
    ensures
        r@ == (if halves >= 180 {
            "Excellent"@
        } else if halves >= 150 {
            "Good"@
        } else if halves >= 100 {
            "Fair"@
        } else {
            "Poor"@
        }),
{
    if halves >= 180 {
        "Excellent"
    } else if halves >= 150 {
        "Good"
    } else if halves >= 100 {
        "Fair"
    } else {
        "Poor"
    }
}

/// The terminal colour of a terminal health score: green from 80, yellow from 60, else red.
pub fn score_color(score: u32) -> (r: &'static str)
    ensures
        r@ == (if score >= 80 {
            "green"@
        } else if score >= 60 {
            "yellow"@
        } else {
            "red"@
        }),
{
    if score >= 80 {
        "green"
    } else if score >= 60 {
        "yellow"
    } else {
        "red"
    }
}

/// The recommendation for critical findings.
pub const ADVICE_CRITICAL: &'static str = "Address all critical issues immediately as they pose significant risk to cluster stability.";

/// The recommendation for high findings.
pub const ADVICE_HIGH: &'static str = "Schedule maintenance to resolve high severity issues within the next maintenance window.";

/// The recommendation for security findings.
pub const ADVICE_SECURITY: &'static str = "Review and strengthen security configurations to prevent unauthorized access.";

/// The recommendation for performance findings.
pub const ADVICE_PERFORMANCE: &'static str = "Analyze performance bottlenecks and consider scaling or optimization strategies.";

/// The recommendations a set of findings calls for, in this order: critical findings,
/// high findings, security findings, performance findings, each when there is one.
pub open spec fn recommendations_for(fs: Seq<Finding>) -> Seq<Seq<char>> {
    (if count_severity(fs, Severity::Critical) > 0 { seq![ADVICE_CRITICAL@] } else { Seq::empty() })
        + (if count_severity(fs, Severity::High) > 0 { seq![ADVICE_HIGH@] } else { Seq::empty() })
        + (if count_category(fs, Category::Security) > 0 { seq![ADVICE_SECURITY@] } else { Seq::empty() })
        + (if count_category(fs, Category::Performance) > 0 { seq![ADVICE_PERFORMANCE@] } else { Seq::empty() })
}

/// Options of the HTML report.
pub struct HtmlReporter {
    include_interactive_filters: bool,
    include_dark_mode: bool,
}

impl HtmlReporter {
    /// Whether the report has interactive filters.
    pub closed spec fn filters(&self) -> bool {
        self.include_interactive_filters
    }

    /// Whether the report has a dark mode toggle.
    pub closed spec fn dark_mode(&self) -> bool {
        self.include_dark_mode
    }

    /// A reporter with filters and dark mode.
    pub fn new() -> (r: HtmlReporter)
        ensures
            r.filters() && r.dark_mode(),
    {
        HtmlReporter { include_interactive_filters: true, include_dark_mode: true }
    }

    /// The reporter with filters included or not.
    pub fn with_interactive_filters(self, enabled: bool) -> (r: HtmlReporter)
        ensures
            r.filters() == enabled && r.dark_mode() == self.dark_mode(),
    {
        HtmlReporter { include_interactive_filters: enabled, include_dark_mode: self.include_dark_mode }
    }

    /// The reporter with dark mode included or not.
    pub fn with_dark_mode(self, enabled: bool) -> (r: HtmlReporter)
        ensures
            r.dark_mode() == enabled && r.filters() == self.filters(),
    {
        HtmlReporter { include_interactive_filters: self.include_interactive_filters, include_dark_mode: enabled }
    }

    /// Whether the report has interactive filters.
    pub fn interactive_filters(&self) -> (b: bool)
        ensures
            b == self.filters(),
    {
        self.include_interactive_filters
    }

    /// Whether the report has a dark mode toggle.
    pub fn has_dark_mode(&self) -> (b: bool)
        ensures
            b == self.dark_mode(),
    {
        self.include_dark_mode
    }

    /// The findings counted by severity: critical, high, medium, low, info.
    pub fn count_severities(&self, findings: &Vec<Finding>) -> (r: (usize, usize, usize, usize, usize))
        ensures
            (r.0 as nat, r.1 as nat, r.2 as nat, r.3 as nat, r.4 as nat) == severity_counts(findings@),
    {
        count_severities(findings)
    }

    /// The health score in half points (0 to 200).
    pub fn calculate_health_score(&self, findings: &Vec<Finding>) -> (r: u32)
        ensures
            r == health_halves(findings@),
    {
        health_score_halves(findings)
    }

    /// The name a severity is shown with.
    pub fn format_severity(&self, severity: Severity) -> (r: &'static str)
        ensures
            r@ == (match severity {
                Severity::Critical => "Critical"@,
                Severity::High => "High"@,
                Severity::Medium => "Medium"@,
                Severity::Low => "Low"@,
                Severity::Info => "Info"@,
            }),
    {
        match severity {
            Severity::Critical => "Critical",
            Severity::High => "High",
            Severity::Medium => "Medium",
            Severity::Low => "Low",
            Severity::Info => "Info",
        }
    }

    /// The name a category is shown with.
    pub fn format_category(&self, category: Category) -> (r: &'static str)
        ensures
            r@ == (match category {
                Category::ClusterHygiene => "Cluster Hygiene"@,
                Category::Performance => "Performance"@,
                Category::Configuration => "Configuration"@,
                Category::Security => "Security"@,
                Category::Availability => "Availability"@,
                Category::Client => "Client"@,
                Category::Capacity => "Capacity"@,
                Category::Other => "Other"@,
            }),
    {
        match category {
            Category::ClusterHygiene => "Cluster Hygiene",
            Category::Performance => "Performance",
            Category::Configuration => "Configuration",
            Category::Security => "Security",
            Category::Availability => "Availability",
            Category::Client => "Client",
            Category::Capacity => "Capacity",
            Category::Other => "Other",
        }
    }

    /// The CSS class of a category.
    pub fn format_category_class(&self, category: Category) -> (r: &'static str)
        ensures
            r@ == (match category {
                Category::ClusterHygiene => "cluster-hygiene"@,
                Category::Performance => "performance"@,
                Category::Configuration => "configuration"@,
                Category::Security => "security"@,
                Category::Availability => "availability"@,
                Category::Client => "client"@,
                Category::Capacity => "capacity"@,
                Category::Other => "other"@,
            }),
    {
        match category {
            Category::ClusterHygiene => "cluster-hygiene",
            Category::Performance => "performance",
            Category::Configuration => "configuration",
            Category::Security => "security",
            Category::Availability => "availability",
            Category::Client => "client",
            Category::Capacity => "capacity",
            Category::Other => "other",
        }
    }

    /// The recommendations the findings call for.
    pub fn generate_recommendations(&self, findings: &Vec<Finding>) -> (r: Vec<String>)
        ensures
            r@.map_values(|s: String| s@) == recommendations_for(findings@),
    {
        let (critical, high, _, _, _) = count_severities(findings);
        let mut r: Vec<String> = Vec::new();
        if critical > 0 {
            r.push(owned(ADVICE_CRITICAL));
        }
        if high > 0 {
            r.push(owned(ADVICE_HIGH));
        }
        let ghost first = r@.map_values(|s: String| s@);
        if count_in_category(findings, Category::Security) > 0 {
            r.push(owned(ADVICE_SECURITY));
        }
        let ghost second = r@.map_values(|s: String| s@);
        if count_in_category(findings, Category::Performance) > 0 {
            r.push(owned(ADVICE_PERFORMANCE));
        }
        assert(r@.map_values(|s: String| s@) =~= recommendations_for(findings@));
        r
    }
}

/// Options of the terminal report.
pub struct TerminalReporter {
    verbose: bool,
    use_colors: bool,
}

impl TerminalReporter {
    /// Whether the report is verbose.
    pub closed spec fn is_verbose(&self) -> bool {
        self.verbose
    }

    /// Whether the report uses colours.
    pub closed spec fn colors(&self) -> bool {
        self.use_colors
    }

    /// A quiet reporter with colours.
    pub fn new() -> (r: TerminalReporter)
        ensures
            !r.is_verbose() && r.colors(),
    {
        TerminalReporter { verbose: false, use_colors: true }
    }

    /// The reporter, verbose or not.
    pub fn with_verbose(self, verbose: bool) -> (r: TerminalReporter)
        ensures
            r.is_verbose() == verbose && r.colors() == self.colors(),
    {
        TerminalReporter { verbose, use_colors: self.use_colors }
    }

    /// The reporter, with colours or not.
    pub fn with_colors(self, use_colors: bool) -> (r: TerminalReporter)
        ensures
            r.colors() == use_colors && r.is_verbose() == self.is_verbose(),
    {
        TerminalReporter { verbose: self.verbose, use_colors }
    }

    /// Whether the report is verbose.
    pub fn verbose(&self) -> (b: bool)
        ensures
            b == self.is_verbose(),
    {
        self.verbose
    }

    /// Whether the report uses colours.
    pub fn uses_colors(&self) -> (b: bool)
        ensures
            b == self.colors(),
    {
        self.use_colors
    }

    /// The terminal health score of the findings (0 to 100).
    pub fn calculate_health_score_from_findings(&self, findings: &Vec<Finding>) -> (r: u32)
        ensures
            r == terminal_score(findings@),
    {
        terminal_health_score(findings)
    }
}

/// When and by what a JSON report was made.
pub struct ReportMetadata {
    pub report_generated_at: String,
    pub tool_version: String,
    pub scan_timestamp: String,
    pub output_directory: String,
}

/// What a JSON report says about the cluster.
pub struct ClusterInfo {
    pub cluster_id: Option<String>,
    pub cluster_mode: Option<String>,
    pub broker_count: usize,
    pub topic_count: Option<usize>,
    pub partition_count: Option<usize>,
    pub bastion_host: Option<String>,
}

/// The findings of a JSON report counted.
pub struct Summary {
    pub total_findings: usize,
    pub critical_count: usize,
    pub high_count: usize,
    pub medium_count: usize,
    pub low_count: usize,
    pub info_count: usize,
}

/// A JSON report; the health score is kept in half points.
pub struct JsonReport {
    pub metadata: ReportMetadata,
    pub cluster_info: ClusterInfo,
    pub findings: Vec<Finding>,
    pub summary: Summary,
    pub health_score_halves: u32,
}

/// The JSON report generator.
pub struct JsonReporter;

/// The length of member `k` of an admin document, when it is an array.
pub open spec fn listed_count(admin: Option<JsonValue>, k: Seq<char>) -> Option<nat> {
    match admin {
        Some(a) => match a.spec_get(k) {
            Some(v) => v.spec_array_len(),
            None => None,
        },
        None => None,
    }
}

/// The lowercase name of a cluster mode.
pub open spec fn mode_name(m: ClusterMode) -> Seq<char> {
    match m {
        ClusterMode::Kraft => "kraft"@,
        ClusterMode::Zookeeper => "zookeeper"@,
        ClusterMode::Unknown => "unknown"@,
    }
}

fn array_len_of(admin: &Option<JsonValue>, k: &str) -> (r: Option<usize>)
    ensures
        match r {
            Some(n) => listed_count(*admin, k@) == Some(n as nat),
            None => listed_count(*admin, k@) is None,
        },
{
    match admin {
        Some(a) => match a.get(k) {
            Some(v) => match v.as_array() {
                Some(arr) => Some(arr.len()),
                None => None,
            },
            None => None,
        },
        None => None,
    }
}

fn clone_opt(o: &Option<String>) -> (r: Option<String>)
    ensures
        r == *o,
{
    match o {
        Some(s) => Some(s.clone()),
        None => None,
    }
}

impl JsonReporter {
    pub fn new() -> (r: JsonReporter) {
        JsonReporter
    }

    /// The JSON report of a snapshot and its findings, made at `generated_at`: the findings
    /// counted by severity, the health score, the cluster's id and mode, the number of
    /// brokers (0 when the admin data lists none) and of topics and partitions (when it
    /// lists them), and the bastion.
    pub fn generate_report(&self, snapshot: &Snapshot, findings: Vec<Finding>, generated_at: String) -> (r: JsonReport)
        ensures
            r.findings@ == findings@,
            r.summary.total_findings == findings@.len(),
            (r.summary.critical_count as nat, r.summary.high_count as nat, r.summary.medium_count as nat,
                r.summary.low_count as nat, r.summary.info_count as nat) == severity_counts(findings@),
            r.health_score_halves == health_halves(findings@),
            r.cluster_info.cluster_id == snapshot.cluster.id,
            r.cluster_info.cluster_mode matches Some(m) && m@ == mode_name(snapshot.cluster.mode),
            r.cluster_info.broker_count == (match listed_count(snapshot.collectors.admin, "brokers"@) {
                Some(n) => n,
                None => 0,
            }),
            match r.cluster_info.topic_count {
                Some(n) => listed_count(snapshot.collectors.admin, "topics"@) == Some(n as nat),
                None => listed_count(snapshot.collectors.admin, "topics"@) is None,
            },
            match r.cluster_info.partition_count {
                Some(n) => listed_count(snapshot.collectors.admin, "partitions"@) == Some(n as nat),
                None => listed_count(snapshot.collectors.admin, "partitions"@) is None,
            },
            r.cluster_info.bastion_host == snapshot.metadata.environment,
            r.metadata.report_generated_at == generated_at,
            r.metadata.tool_version == snapshot.metadata.tool_version,
            r.metadata.scan_timestamp == snapshot.timestamp,
            r.metadata.output_directory == snapshot.metadata.collection_id,
    {
        let (critical_count, high_count, medium_count, low_count, info_count) = count_severities(&findings);
        let health_score_halves = health_score_halves(&findings);
        let mode = match snapshot.cluster.mode {
            ClusterMode::Kraft => owned("kraft"),
            ClusterMode::Zookeeper => owned("zookeeper"),
            ClusterMode::Unknown => owned("unknown"),
        };
        let broker_count = match array_len_of(&snapshot.collectors.admin, "brokers") {
            Some(n) => n,
            None => 0,
        };
        let cluster_info = ClusterInfo {
            cluster_id: clone_opt(&snapshot.cluster.id),
            cluster_mode: Some(mode),
            broker_count,
            topic_count: array_len_of(&snapshot.collectors.admin, "topics"),
            partition_count: array_len_of(&snapshot.collectors.admin, "partitions"),
            bastion_host: clone_opt(&snapshot.metadata.environment),
        };
        let total_findings = findings.len();
        JsonReport {
            metadata: ReportMetadata {
                report_generated_at: generated_at,
                tool_version: snapshot.metadata.tool_version.clone(),
                scan_timestamp: snapshot.timestamp.clone(),
                output_directory: snapshot.metadata.collection_id.clone(),
            },
            cluster_info,
            findings,
            summary: Summary { total_findings, critical_count, high_count, medium_count, low_count, info_count },
            health_score_halves,
        }
    }
}

} // verus!
