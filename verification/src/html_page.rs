//! The HTML health report page: a header with the tool version and the report time, a
//! summary of the findings by severity, what is known of the cluster, the health score,
//! each finding with its remediation and evidence, and the recommendations.
use vstd::prelude::*;
use crate::numbers::{decimal, decimal_string, decimal_string_wide};
use crate::json::JsonValue;
use crate::snapshot::{
    Snapshot, Finding, Severity, Category, RemediationStep, ConfigEvidence, LogEvidence,
    MetricEvidence, Evidence,
};
use crate::report::{
    HtmlReporter, count_severity, health_halves, halves_text, score_band, recommendations_for,
    format_halves, score_class, score_label,
};
use crate::text::owned;

verus! {

/// The pieces of a sequence, each turned into text by `f`, one after the other.
pub open spec fn concat_map<T>(s: Seq<T>, f: spec_fn(T) -> Seq<char>) -> Seq<char>
    decreases s.len(),
{
    if s.len() == 0 {
        Seq::empty()
    } else {
        concat_map(s.drop_last(), f) + f(s.last())
    }
}

proof fn lemma_take_left(x: Seq<char>, y: Seq<char>, n: int)
    requires
        0 <= n <= x.len(),
    ensures
        (x + y).take(n) == x.take(n),
{
    assert((x + y).take(n) =~= x.take(n));
}

proof fn lemma_concat_map_step<T>(s: Seq<T>, i: int, f: spec_fn(T) -> Seq<char>)
    requires
        0 <= i < s.len(),
    ensures
        concat_map(s.take(i + 1), f) == concat_map(s.take(i), f) + f(s[i]),
{
    assert(s.take(i + 1).drop_last() =~= s.take(i));
    assert(s.take(i + 1).last() == s[i]);
}

/// The page's first line.
pub const DOCTYPE: &'static str = "<!DOCTYPE html>\n";

pub const HEAD: &'static str = "<html lang=\"en\">\n<head>\n    <meta charset=\"UTF-8\">\n    <meta name=\"viewport\" content=\"width=device-width, initial-scale=1.0\">\n    <title>Kafka Cluster Health Report - KafkaPilot</title>\n    <link rel=\"stylesheet\" href=\"assets/kafkapilot.css\">\n</head>\n<body>\n    <div class=\"container\">\n        <header>\n            <h1>Kafka Cluster Health Report</h1>\n            <div class=\"meta-info\">\n                <span class=\"tool-version\">KafkaPilot v";

pub const DATE_OPEN: &'static str = "</span>\n                <span class=\"report-date\">📅 ";

pub const DATE_CLOSE: &'static str = "</span>\n";

/// The button that switches between light and dark colours.
pub const THEME_TOGGLE: &'static str = "                <button id=\"theme-toggle\" class=\"theme-toggle\" aria-label=\"Toggle dark mode\">🌙</button>\n";

pub const HEADER_CLOSE: &'static str = "            </div>\n        </header>\n";

pub const NAV: &'static str = "        <nav class=\"navigation\">\n            <ul>\n                <li><a href=\"#summary\">Summary</a></li>\n                <li><a href=\"#cluster-info\">Cluster Info</a></li>\n                <li><a href=\"#health-score\">Health Score</a></li>\n                <li><a href=\"#findings\">Findings</a></li>\n                <li><a href=\"#recommendations\">Recommendations</a></li>\n            </ul>\n        </nav>\n";

pub const SUMMARY_OPEN: &'static str = "        <section id=\"summary\" class=\"card\">\n            <h2>Executive Summary</h2>\n";

/// The alert of a report without findings.
pub const NO_ISSUES: &'static str = "            <div class=\"alert alert-success\">\n                ✅ <strong>No issues found!</strong> Your Kafka cluster appears to be healthy.\n            </div>\n";

/// What precedes the number of findings in the alert of a report with findings.
pub const ISSUES_OPEN: &'static str = "            <div class=\"alert alert-warning\">\n                ⚠️ <strong>";

pub const ISSUES_CLOSE: &'static str = " issue(s) detected</strong> in your Kafka cluster requiring attention.\n            </div>\n";

pub const URGENT_OPEN: &'static str = "            <div class=\"alert alert-danger\">\n                🚨 <strong>Immediate action required:</strong> ";

pub const URGENT_MID: &'static str = " critical and ";

pub const URGENT_CLOSE: &'static str = " high severity issues found.\n            </div>\n";

pub const BREAKDOWN_OPEN: &'static str = "            <div class=\"severity-breakdown\">\n                <h3>Severity Breakdown</h3>\n                <div class=\"severity-stats\">\n";

pub const STAT_OPEN: &'static str = "                    <div class=\"stat ";

pub const STAT_COUNT: &'static str = "\"><span class=\"count\">";

pub const STAT_LABEL: &'static str = "</span><span class=\"label\">";

pub const STAT_CLOSE: &'static str = "</span></div>\n";

pub const BREAKDOWN_CLOSE: &'static str = "                </div>\n            </div>\n        </section>\n";

pub const CLUSTER_OPEN: &'static str = "        <section id=\"cluster-info\" class=\"card\">\n            <h2>Cluster Information</h2>\n            <table class=\"info-table\">\n                <tbody>\n";

pub const ROW_OPEN: &'static str = "                    <tr><td><strong>";

pub const ROW_MID: &'static str = "</strong></td><td>";

pub const ROW_CLOSE: &'static str = "</td></tr>\n";

pub const CLUSTER_CLOSE: &'static str = "                </tbody>\n            </table>\n        </section>\n";

pub const HEALTH_OPEN: &'static str = "        <section id=\"health-score\" class=\"card\">\n            <h2>Health Score</h2>\n            <div class=\"health-score ";

pub const SCORE_VALUE: &'static str = "\">\n                <div class=\"score-value\">";

pub const SCORE_LABEL: &'static str = "%</div>\n                <div class=\"score-label\">";

pub const HEALTH_CLOSE: &'static str = "</div>\n            </div>\n            <div class=\"health-details\">\n                <p>The health score is calculated based on the severity and number of issues found:</p>\n                <ul>\n                    <li>Critical issues: -20 points each</li>\n                    <li>High severity: -10 points each</li>\n                    <li>Medium severity: -5 points each</li>\n                    <li>Low severity: -2 points each</li>\n                    <li>Info: -0.5 points each</li>\n                </ul>\n            </div>\n        </section>\n";

pub const FINDINGS_OPEN: &'static str = "        <section id=\"findings\" class=\"card\">\n            <h2>Detailed Findings</h2>\n";

/// The severity and category filters of an interactive report.
pub const FILTERS: &'static str = "            <div class=\"filters\">\n                <label>Filter by severity:</label>\n                <select id=\"severity-filter\">\n                    <option value=\"all\">All</option>\n                    <option value=\"critical\">Critical</option>\n                    <option value=\"high\">High</option>\n                    <option value=\"medium\">Medium</option>\n                    <option value=\"low\">Low</option>\n                    <option value=\"info\">Info</option>\n                </select>\n                <label>Filter by category:</label>\n                <select id=\"category-filter\">\n                    <option value=\"all\">All</option>\n                    <option value=\"cluster-hygiene\">Cluster Hygiene</option>\n                    <option value=\"performance\">Performance</option>\n                    <option value=\"configuration\">Configuration</option>\n                    <option value=\"security\">Security</option>\n                    <option value=\"availability\">Availability</option>\n                    <option value=\"client\">Client</option>\n                    <option value=\"capacity\">Capacity</option>\n                </select>\n            </div>\n";

pub const LIST_OPEN: &'static str = "            <div class=\"findings-list\">\n";

pub const LIST_CLOSE: &'static str = "            </div>\n        </section>\n";

pub const FINDING_OPEN: &'static str = "                <div class=\"finding ";

pub const FINDING_SEVERITY: &'static str = "\" data-severity=\"";

pub const FINDING_CATEGORY: &'static str = "\" data-category=\"";

pub const FINDING_BADGE: &'static str = "\">\n                    <div class=\"finding-header\">\n                        <span class=\"severity-badge ";

pub const BADGE_NAME: &'static str = "\">";

pub const CATEGORY_BADGE: &'static str = "</span>\n                        <span class=\"category-badge\">";

/// What precedes a finding's title, which stands in an `h3` element.
pub const TITLE_OPEN: &'static str = "</span>\n                        <h3>";

/// What follows a finding's title.
pub const TITLE_CLOSE: &'static str = "</h3>\n                    </div>\n                    <p class=\"description\">";

pub const DESCRIPTION_CLOSE: &'static str = "</p>\n";

pub const IMPACT_OPEN: &'static str = "                    <div class=\"impact\">\n                        <strong>Impact:</strong> ";

pub const IMPACT_CLOSE: &'static str = "\n                    </div>\n";

pub const STEPS_OPEN: &'static str = "                    <div class=\"remediation\">\n                        <strong>Remediation:</strong>\n                        <ol>\n";

pub const STEP_OPEN: &'static str = "                            <li>";

pub const ITEM_CLOSE: &'static str = "</li>\n";

pub const STEPS_CLOSE: &'static str = "                        </ol>\n                    </div>\n";

pub const EVIDENCE_OPEN: &'static str = "                    <details class=\"evidence\">\n                        <summary>Evidence</summary>\n                        <div class=\"evidence-content\">\n";

pub const CONFIGS_OPEN: &'static str = "                            <strong>Configuration Issues:</strong>\n                            <ul>\n";

pub const LOGS_OPEN: &'static str = "                            <strong>Log Evidence:</strong>\n                            <ul>\n";

pub const METRICS_OPEN: &'static str = "                            <strong>Metrics:</strong>\n                            <ul>\n";

pub const EVIDENCE_LIST_CLOSE: &'static str = "                            </ul>\n";

pub const EVIDENCE_ITEM_OPEN: &'static str = "                                <li>";

pub const EVIDENCE_CLOSE: &'static str = "                        </div>\n                    </details>\n";

pub const FINDING_CLOSE: &'static str = "                </div>\n";

pub const RECS_OPEN: &'static str = "        <section id=\"recommendations\" class=\"card\">\n            <h2>Recommendations</h2>\n";

pub const NO_RECS: &'static str = "            <p>No specific recommendations at this time.</p>\n";

pub const OL_OPEN: &'static str = "            <ol>\n";

pub const REC_OPEN: &'static str = "                <li>";

pub const OL_CLOSE: &'static str = "            </ol>\n";

pub const SECTION_CLOSE: &'static str = "        </section>\n";

pub const FOOTER_OPEN: &'static str = "        <footer>\n            <p>Generated by KafkaPilot v";

pub const FOOTER_MID: &'static str = " | ";

pub const FOOTER_CLOSE: &'static str = "</p>\n        </footer>\n    </div>\n    <script src=\"assets/kafkapilot.js\"></script>\n</body>\n</html>\n";

/// `t` when `b` holds, else nothing.
pub open spec fn when(b: bool, t: Seq<char>) -> Seq<char> {
    if b { t } else { Seq::empty() }
}

/// The CSS class of a severity.
pub open spec fn severity_class(s: Severity) -> Seq<char> {
    match s {
        Severity::Critical => "critical"@,
        Severity::High => "high"@,
        Severity::Medium => "medium"@,
        Severity::Low => "low"@,
        Severity::Info => "info"@,
    }
}

/// The name a severity is shown with.
pub open spec fn severity_name(s: Severity) -> Seq<char> {
    match s {
        Severity::Critical => "Critical"@,
        Severity::High => "High"@,
        Severity::Medium => "Medium"@,
        Severity::Low => "Low"@,
        Severity::Info => "Info"@,
    }
}

/// The CSS class of a category.
pub open spec fn category_class(c: Category) -> Seq<char> {
    match c {
        Category::ClusterHygiene => "cluster-hygiene"@,
        Category::Performance => "performance"@,
        Category::Configuration => "configuration"@,
        Category::Security => "security"@,
        Category::Availability => "availability"@,
        Category::Client => "client"@,
        Category::Capacity => "capacity"@,
        Category::Other => "other"@,
    }
}

/// The name a category is shown with.
pub open spec fn category_name(c: Category) -> Seq<char> {
    match c {
        Category::ClusterHygiene => "Cluster Hygiene"@,
        Category::Performance => "Performance"@,
        Category::Configuration => "Configuration"@,
        Category::Security => "Security"@,
        Category::Availability => "Availability"@,
        Category::Client => "Client"@,
        Category::Capacity => "Capacity"@,
        Category::Other => "Other"@,
    }
}

/// The word a health score in half points is shown with.
pub open spec fn score_word(halves: int) -> Seq<char> {
    if halves >= 180 {
        "Excellent"@
    } else if halves >= 150 {
        "Good"@
    } else if halves >= 100 {
        "Fair"@
    } else {
        "Poor"@
    }
}

/// The page's head and header: the tool version, the report time, and the theme toggle
/// exactly when dark mode is on.
pub open spec fn header_html(version: Seq<char>, date: Seq<char>, dark: bool) -> Seq<char> {
    DOCTYPE@ + HEAD@ + version + DATE_OPEN@ + date + DATE_CLOSE@ + when(dark, THEME_TOGGLE@) + HEADER_CLOSE@
}

/// One count of the severity breakdown.
pub open spec fn stat_html(class: Seq<char>, n: nat, label: Seq<char>) -> Seq<char> {
    STAT_OPEN@ + class + STAT_COUNT@ + decimal(n) + STAT_LABEL@ + label + STAT_CLOSE@
}

/// The executive summary: no issues when there are no findings, else their number, with
/// an urgent alert when any is critical or high; then the counts by severity.
pub open spec fn summary_html(fs: Seq<Finding>) -> Seq<char> {
    let c = count_severity(fs, Severity::Critical);
    let h = count_severity(fs, Severity::High);
    SUMMARY_OPEN@ + (if fs.len() == 0 {
        NO_ISSUES@
    } else {
        ISSUES_OPEN@ + decimal(fs.len()) + ISSUES_CLOSE@ + when(
            c > 0 || h > 0,
            URGENT_OPEN@ + decimal(c) + URGENT_MID@ + decimal(h) + URGENT_CLOSE@,
        )
    }) + BREAKDOWN_OPEN@ + stat_html("critical"@, c, "Critical"@) + stat_html("high"@, h, "High"@) + stat_html(
        "medium"@,
        count_severity(fs, Severity::Medium),
        "Medium"@,
    ) + stat_html("low"@, count_severity(fs, Severity::Low), "Low"@) + stat_html(
        "info"@,
        count_severity(fs, Severity::Info),
        "Info"@,
    ) + BREAKDOWN_CLOSE@
}

/// One row of the cluster table.
pub open spec fn row_html(label: Seq<char>, value: Seq<char>) -> Seq<char> {
    ROW_OPEN@ + label + ROW_MID@ + value + ROW_CLOSE@
}

/// The number of partitions a topic lists.
pub open spec fn partition_count(t: JsonValue) -> nat {
    match t.spec_get("partitions"@) {
        Some(JsonValue::Array(p)) => p@.len(),
        _ => 0,
    }
}

/// The number of partitions all the topics list.
pub open spec fn partitions_total(ts: Seq<JsonValue>) -> nat
    decreases ts.len(),
{
    if ts.len() == 0 {
        0
    } else {
        partitions_total(ts.drop_last()) + partition_count(ts.last())
    }
}

/// The rows the admin data gives: the number of brokers, and the numbers of topics and
/// of their partitions, each when the data lists them.
pub open spec fn admin_rows(admin: Option<JsonValue>) -> Seq<char> {
    match admin {
        Some(a) => (match a.spec_get("brokers"@) {
            Some(JsonValue::Array(b)) => row_html("Total Brokers"@, decimal(b@.len())),
            _ => Seq::empty(),
        }) + (match a.spec_get("topics"@) {
            Some(JsonValue::Array(ts)) => row_html("Total Topics"@, decimal(ts@.len())) + row_html(
                "Total Partitions"@,
                decimal(partitions_total(ts@)),
            ),
            _ => Seq::empty(),
        }),
        None => Seq::empty(),
    }
}

/// The cluster table: its id when known, the admin data's counts, the collection time and
/// the tool version.
pub open spec fn cluster_html(s: Snapshot) -> Seq<char> {
    CLUSTER_OPEN@ + (match s.cluster.id {
        Some(id) => row_html("Cluster ID"@, id@),
        None => Seq::empty(),
    }) + admin_rows(s.collectors.admin) + row_html("Collection Date"@, s.timestamp@) + row_html(
        "Tool Version"@,
        s.metadata.tool_version@,
    ) + CLUSTER_CLOSE@
}

/// The health score section, the score given in half points.
pub open spec fn health_html(halves: int) -> Seq<char> {
    HEALTH_OPEN@ + score_band(halves) + SCORE_VALUE@ + halves_text(halves as nat) + SCORE_LABEL@ + score_word(halves)
        + HEALTH_CLOSE@
}

/// One remediation step.
pub open spec fn step_html(s: RemediationStep) -> Seq<char> {
    STEP_OPEN@ + s.description@ + ITEM_CLOSE@
}

/// One configuration setting of the evidence.
pub open spec fn config_item_html(c: ConfigEvidence) -> Seq<char> {
    EVIDENCE_ITEM_OPEN@ + c.resource_name@ + ": "@ + c.config_key@ + " = "@ + c.current_value@ + " ("@ + c.reason@
        + ")"@ + ITEM_CLOSE@
}

/// One log line of the evidence, with how often it occurred.
pub open spec fn log_item_html(l: LogEvidence) -> Seq<char> {
    EVIDENCE_ITEM_OPEN@ + "["@ + l.level@ + "] "@ + l.message@ + " ("@ + decimal(l.count as nat) + "x)"@ + ITEM_CLOSE@
}

/// One measurement of the evidence: its name, its value text and its unit.
pub open spec fn metric_item_html(m: MetricEvidence) -> Seq<char> {
    EVIDENCE_ITEM_OPEN@ + m.name@ + ": "@ + m.value@ + " "@ + (match m.unit {
        Some(u) => u@,
        None => Seq::empty(),
    }) + ITEM_CLOSE@
}

/// A list of the evidence under its heading, when it is not empty.
pub open spec fn evidence_list<T>(heading: Seq<char>, items: Seq<T>, f: spec_fn(T) -> Seq<char>) -> Seq<char> {
    when(items.len() > 0, heading + concat_map(items, f) + EVIDENCE_LIST_CLOSE@)
}

/// A finding's evidence, when it has any: its settings, its log lines, its measurements.
pub open spec fn evidence_html(e: Evidence) -> Seq<char> {
    when(
        e.metrics@.len() > 0 || e.logs@.len() > 0 || e.configs@.len() > 0,
        EVIDENCE_OPEN@ + evidence_list(CONFIGS_OPEN@, e.configs@, |c: ConfigEvidence| config_item_html(c))
            + evidence_list(LOGS_OPEN@, e.logs@, |l: LogEvidence| log_item_html(l)) + evidence_list(
            METRICS_OPEN@,
            e.metrics@,
            |m: MetricEvidence| metric_item_html(m),
        ) + EVIDENCE_CLOSE@,
    )
}

/// One finding: its severity and category as classes and badges, its title in an `h3`,
/// its description, its impact when it has one, its remediation steps when there are
/// any, and its evidence.
pub open spec fn finding_html(f: Finding) -> Seq<char> {
    let sev = severity_class(f.severity);
    let cat = category_class(f.category);
    FINDING_OPEN@ + sev + " "@ + cat + FINDING_SEVERITY@ + sev + FINDING_CATEGORY@ + cat + FINDING_BADGE@ + sev
        + BADGE_NAME@ + severity_name(f.severity) + CATEGORY_BADGE@ + category_name(f.category) + TITLE_OPEN@
        + f.title@ + TITLE_CLOSE@ + f.description@ + DESCRIPTION_CLOSE@ + when(
        f.impact@.len() > 0,
        IMPACT_OPEN@ + f.impact@ + IMPACT_CLOSE@,
    ) + when(
        f.remediation.steps@.len() > 0,
        STEPS_OPEN@ + concat_map(f.remediation.steps@, |s: RemediationStep| step_html(s)) + STEPS_CLOSE@,
    ) + evidence_html(f.evidence) + FINDING_CLOSE@
}

/// The findings section: the filters when they are on, then each finding.
pub open spec fn findings_html(fs: Seq<Finding>, filters: bool) -> Seq<char> {
    FINDINGS_OPEN@ + when(filters, FILTERS@) + LIST_OPEN@ + concat_map(fs, |f: Finding| finding_html(f)) + LIST_CLOSE@
}

/// One recommendation.
pub open spec fn rec_html(r: Seq<char>) -> Seq<char> {
    REC_OPEN@ + r + ITEM_CLOSE@
}

/// The recommendations section.
pub open spec fn recommendations_html(recs: Seq<Seq<char>>) -> Seq<char> {
    RECS_OPEN@ + (if recs.len() == 0 {
        NO_RECS@
    } else {
        OL_OPEN@ + concat_map(recs, |r: Seq<char>| rec_html(r)) + OL_CLOSE@
    }) + SECTION_CLOSE@
}

/// The footer, with the tool version and the report time, and the page's end.
pub open spec fn footer_html(version: Seq<char>, date: Seq<char>) -> Seq<char> {
    FOOTER_OPEN@ + version + FOOTER_MID@ + date + FOOTER_CLOSE@
}

/// The whole page of a report made at `date` of a snapshot and its findings.
pub open spec fn html_page(
    version: Seq<char>,
    s: Snapshot,
    fs: Seq<Finding>,
    date: Seq<char>,
    dark: bool,
    filters: bool,
) -> Seq<char> {
    header_html(version, date, dark) + NAV@ + summary_html(fs) + cluster_html(s) + health_html(health_halves(fs))
        + findings_html(fs, filters) + recommendations_html(recommendations_for(fs)) + footer_html(version, date)
}

fn add_when(s: &mut String, b: bool, t: &str)
    ensures
        final(s)@ == old(s)@ + when(b, t@),
{
    if b {
        s.append(t);
    } else {
        assert(s@ + Seq::<char>::empty() =~= s@);
    }
}

fn header_of(version: &str, date: &str, dark: bool) -> (r: String)
    ensures
        r@ == header_html(version@, date@, dark),
        DOCTYPE@.len() <= r@.len() && r@.take(DOCTYPE@.len() as int) == DOCTYPE@,
{
    let mut h = owned(DOCTYPE);
    let ghost n = DOCTYPE@.len() as int;
    assert(h@.take(n) =~= DOCTYPE@);
    let ghost p = h@;
    h.append(HEAD);
    proof { lemma_take_left(p, HEAD@, n); }
    let ghost p = h@;
    h.append(version);
    proof { lemma_take_left(p, version@, n); }
    let ghost p = h@;
    h.append(DATE_OPEN);
    proof { lemma_take_left(p, DATE_OPEN@, n); }
    let ghost p = h@;
    h.append(date);
    proof { lemma_take_left(p, date@, n); }
    let ghost p = h@;
    h.append(DATE_CLOSE);
    proof { lemma_take_left(p, DATE_CLOSE@, n); }
    let ghost p = h@;
    add_when(&mut h, dark, THEME_TOGGLE);
    proof { lemma_take_left(p, when(dark, THEME_TOGGLE@), n); }
    let ghost p = h@;
    h.append(HEADER_CLOSE);
    proof { lemma_take_left(p, HEADER_CLOSE@, n); }
    h
}

fn stat_of(class: &str, n: usize, label: &str) -> (r: String)
    ensures
        r@ == stat_html(class@, n as nat, label@),
{
    let mut h = owned(STAT_OPEN);
    h.append(class);
    h.append(STAT_COUNT);
    h.append(decimal_string(n as u64).as_str());
    h.append(STAT_LABEL);
    h.append(label);
    h.append(STAT_CLOSE);
    h
}

fn summary_of(reporter: &HtmlReporter, findings: &Vec<Finding>) -> (r: String)
    ensures
        r@ == summary_html(findings@),
{
    let (c, hi, m, l, i) = reporter.count_severities(findings);
    let mut h = owned(SUMMARY_OPEN);
    if findings.len() == 0 {
        h.append(NO_ISSUES);
    } else {
        let mut a = owned(ISSUES_OPEN);
        a.append(decimal_string(findings.len() as u64).as_str());
        a.append(ISSUES_CLOSE);
        let mut u = owned(URGENT_OPEN);
        u.append(decimal_string(c as u64).as_str());
        u.append(URGENT_MID);
        u.append(decimal_string(hi as u64).as_str());
        u.append(URGENT_CLOSE);
        add_when(&mut a, c > 0 || hi > 0, u.as_str());
        h.append(a.as_str());
    }
    h.append(BREAKDOWN_OPEN);
    h.append(stat_of("critical", c, "Critical").as_str());
    h.append(stat_of("high", hi, "High").as_str());
    h.append(stat_of("medium", m, "Medium").as_str());
    h.append(stat_of("low", l, "Low").as_str());
    h.append(stat_of("info", i, "Info").as_str());
    h.append(BREAKDOWN_CLOSE);
    h
}

fn row_of(label: &str, value: &str) -> (r: String)
    ensures
        r@ == row_html(label@, value@),
{
    let mut h = owned(ROW_OPEN);
    h.append(label);
    h.append(ROW_MID);
    h.append(value);
    h.append(ROW_CLOSE);
    h
}

fn partitions_of(ts: &Vec<JsonValue>) -> (n: u128)
    ensures
        n == partitions_total(ts@),
{
    let mut n: u128 = 0;
    let mut i: usize = 0;
    let len = ts.len();
    while i < len
        invariant
            len == ts@.len(),
            i <= len,
            n == partitions_total(ts@.take(i as int)),
            n <= i * 0xFFFF_FFFF_FFFF_FFFFu128,
        decreases ts@.len() - i,
    {
        proof {
            assert(ts@.take(i + 1).drop_last() =~= ts@.take(i as int));
            assert(ts@.take(i + 1).last() == ts@[i as int]);
        }
        let k: usize = match ts[i].get("partitions") {
            Some(p) => match p.as_array() {
                Some(a) => a.len(),
                None => 0,
            },
            None => 0,
        };
        assert(k == partition_count(ts@[i as int]));
        assert(k <= 0xFFFF_FFFF_FFFF_FFFFu128);
        assert((i + 1) * 0xFFFF_FFFF_FFFF_FFFFu128 <= 0xFFFF_FFFF_FFFF_FFFFu128 * 0xFFFF_FFFF_FFFF_FFFFu128);
        n = n + k as u128;
        i = i + 1;
    }
    assert(ts@.take(i as int) =~= ts@);
    n
}

fn admin_rows_of(admin: &Option<JsonValue>) -> (r: String)
    ensures
        r@ == admin_rows(*admin),
{
    match admin {
        Some(a) => {
            let mut h = String::new();
            match a.get("brokers") {
                Some(b) => match b.as_array() {
                    Some(bs) => {
                        h.append(row_of("Total Brokers", decimal_string(bs.len() as u64).as_str()).as_str());
                    },
                    None => {},
                },
                None => {},
            }
            let ghost first = h@;
            match a.get("topics") {
                Some(t) => match t.as_array() {
                    Some(ts) => {
                        h.append(row_of("Total Topics", decimal_string(ts.len() as u64).as_str()).as_str());
                        h.append(row_of("Total Partitions", decimal_string_wide(partitions_of(ts)).as_str()).as_str());
                    },
                    None => {
                        assert(h@ =~= first + Seq::<char>::empty());
                    },
                },
                None => {
                    assert(h@ =~= first + Seq::<char>::empty());
                },
            }
            assert(h@ =~= admin_rows(*admin));
            h
        },
        None => String::new(),
    }
}

fn cluster_of(s: &Snapshot) -> (r: String)
    ensures
        r@ == cluster_html(*s),
{
    let mut h = owned(CLUSTER_OPEN);
    match &s.cluster.id {
        Some(id) => {
            h.append(row_of("Cluster ID", id.as_str()).as_str());
        },
        None => {
            assert(h@ + Seq::<char>::empty() =~= h@);
        },
    }
    h.append(admin_rows_of(&s.collectors.admin).as_str());
    h.append(row_of("Collection Date", s.timestamp.as_str()).as_str());
    h.append(row_of("Tool Version", s.metadata.tool_version.as_str()).as_str());
    h.append(CLUSTER_CLOSE);
    h
}

fn health_of(halves: u32) -> (r: String)
    ensures
        r@ == health_html(halves as int),
{
    let mut h = owned(HEALTH_OPEN);
    h.append(score_class(halves));
    h.append(SCORE_VALUE);
    h.append(format_halves(halves).as_str());
    h.append(SCORE_LABEL);
    h.append(score_label(halves));
    h.append(HEALTH_CLOSE);
    h
}

fn steps_of(steps: &Vec<RemediationStep>) -> (r: String)
    ensures
        r@ == concat_map(steps@, |s: RemediationStep| step_html(s)),
{
    let ghost f = |s: RemediationStep| step_html(s);
    let mut h = String::new();
    let mut i: usize = 0;
    while i < steps.len()
        invariant
            f == (|s: RemediationStep| step_html(s)),
            i <= steps@.len(),
            h@ == concat_map(steps@.take(i as int), f),
        decreases steps@.len() - i,
    {
        proof {
            lemma_concat_map_step(steps@, i as int, f);
        }
        let mut item = owned(STEP_OPEN);
        item.append(steps[i].description.as_str());
        item.append(ITEM_CLOSE);
        h.append(item.as_str());
        i = i + 1;
    }
    assert(steps@.take(i as int) =~= steps@);
    h
}

fn configs_of(cs: &Vec<ConfigEvidence>) -> (r: String)
    ensures
        r@ == concat_map(cs@, |c: ConfigEvidence| config_item_html(c)),
{
    let ghost f = |c: ConfigEvidence| config_item_html(c);
    let mut h = String::new();
    let mut i: usize = 0;
    while i < cs.len()
        invariant
            f == (|c: ConfigEvidence| config_item_html(c)),
            i <= cs@.len(),
            h@ == concat_map(cs@.take(i as int), f),
        decreases cs@.len() - i,
    {
        proof {
            lemma_concat_map_step(cs@, i as int, f);
        }
        let c = &cs[i];
        let mut item = owned(EVIDENCE_ITEM_OPEN);
        item.append(c.resource_name.as_str());
        item.append(": ");
        item.append(c.config_key.as_str());
        item.append(" = ");
        item.append(c.current_value.as_str());
        item.append(" (");
        item.append(c.reason.as_str());
        item.append(")");
        item.append(ITEM_CLOSE);
        h.append(item.as_str());
        i = i + 1;
    }
    assert(cs@.take(i as int) =~= cs@);
    h
}

fn logs_of(ls: &Vec<LogEvidence>) -> (r: String)
    ensures
        r@ == concat_map(ls@, |l: LogEvidence| log_item_html(l)),
{
    let ghost f = |l: LogEvidence| log_item_html(l);
    let mut h = String::new();
    let mut i: usize = 0;
    while i < ls.len()
        invariant
            f == (|l: LogEvidence| log_item_html(l)),
            i <= ls@.len(),
            h@ == concat_map(ls@.take(i as int), f),
        decreases ls@.len() - i,
    {
        proof {
            lemma_concat_map_step(ls@, i as int, f);
        }
        let l = &ls[i];
        let mut item = owned(EVIDENCE_ITEM_OPEN);
        item.append("[");
        item.append(l.level.as_str());
        item.append("] ");
        item.append(l.message.as_str());
        item.append(" (");
        item.append(decimal_string(l.count as u64).as_str());
        item.append("x)");
        item.append(ITEM_CLOSE);
        h.append(item.as_str());
        i = i + 1;
    }
    assert(ls@.take(i as int) =~= ls@);
    h
}

fn metrics_of(ms: &Vec<MetricEvidence>) -> (r: String)
    ensures
        r@ == concat_map(ms@, |m: MetricEvidence| metric_item_html(m)),
{
    let ghost f = |m: MetricEvidence| metric_item_html(m);
    let mut h = String::new();
    let mut i: usize = 0;
    while i < ms.len()
        invariant
            f == (|m: MetricEvidence| metric_item_html(m)),
            i <= ms@.len(),
            h@ == concat_map(ms@.take(i as int), f),
        decreases ms@.len() - i,
    {
        proof {
            lemma_concat_map_step(ms@, i as int, f);
        }
        let m = &ms[i];
        let mut item = owned(EVIDENCE_ITEM_OPEN);
        item.append(m.name.as_str());
        item.append(": ");
        item.append(m.value.as_str());
        item.append(" ");
        match &m.unit {
            Some(u) => {
                item.append(u.as_str());
            },
            None => {
                assert(item@ + Seq::<char>::empty() =~= item@);
            },
        }
        item.append(ITEM_CLOSE);
        h.append(item.as_str());
        i = i + 1;
    }
    assert(ms@.take(i as int) =~= ms@);
    h
}

fn evidence_of(e: &Evidence) -> (r: String)
    ensures
        r@ == evidence_html(*e),
{
    let mut h = String::new();
    if e.metrics.len() > 0 || e.logs.len() > 0 || e.configs.len() > 0 {
        let mut inner = owned(EVIDENCE_OPEN);
        let mut c = owned(CONFIGS_OPEN);
        c.append(configs_of(&e.configs).as_str());
        c.append(EVIDENCE_LIST_CLOSE);
        add_when(&mut inner, e.configs.len() > 0, c.as_str());
        let mut l = owned(LOGS_OPEN);
        l.append(logs_of(&e.logs).as_str());
        l.append(EVIDENCE_LIST_CLOSE);
        add_when(&mut inner, e.logs.len() > 0, l.as_str());
        let mut m = owned(METRICS_OPEN);
        m.append(metrics_of(&e.metrics).as_str());
        m.append(EVIDENCE_LIST_CLOSE);
        add_when(&mut inner, e.metrics.len() > 0, m.as_str());
        inner.append(EVIDENCE_CLOSE);
        h = inner;
    }
    h
}

fn finding_of(reporter: &HtmlReporter, f: &Finding) -> (r: String)
    ensures
        r@ == finding_html(*f),
{
    let sev = match f.severity {
        Severity::Critical => "critical",
        Severity::High => "high",
        Severity::Medium => "medium",
        Severity::Low => "low",
        Severity::Info => "info",
    };
    let cat = reporter.format_category_class(f.category);
    let mut h = owned(FINDING_OPEN);
    h.append(sev);
    h.append(" ");
    h.append(cat);
    h.append(FINDING_SEVERITY);
    h.append(sev);
    h.append(FINDING_CATEGORY);
    h.append(cat);
    h.append(FINDING_BADGE);
    h.append(sev);
    h.append(BADGE_NAME);
    h.append(reporter.format_severity(f.severity));
    h.append(CATEGORY_BADGE);
    h.append(reporter.format_category(f.category));
    h.append(TITLE_OPEN);
    h.append(f.title.as_str());
    h.append(TITLE_CLOSE);
    h.append(f.description.as_str());
    h.append(DESCRIPTION_CLOSE);
    let mut imp = owned(IMPACT_OPEN);
    imp.append(f.impact.as_str());
    imp.append(IMPACT_CLOSE);
    add_when(&mut h, !f.impact.as_str().is_empty(), imp.as_str());
    let mut st = owned(STEPS_OPEN);
    st.append(steps_of(&f.remediation.steps).as_str());
    st.append(STEPS_CLOSE);
    add_when(&mut h, f.remediation.steps.len() > 0, st.as_str());
    h.append(evidence_of(&f.evidence).as_str());
    h.append(FINDING_CLOSE);
    h
}

fn findings_of(reporter: &HtmlReporter, findings: &Vec<Finding>) -> (r: String)
    ensures
        r@ == findings_html(findings@, reporter.filters()),
{
    let ghost f = |x: Finding| finding_html(x);
    let mut list = String::new();
    let mut i: usize = 0;
    while i < findings.len()
        invariant
            f == (|x: Finding| finding_html(x)),
            i <= findings@.len(),
            list@ == concat_map(findings@.take(i as int), f),
        decreases findings@.len() - i,
    {
        proof {
            lemma_concat_map_step(findings@, i as int, f);
        }
        list.append(finding_of(reporter, &findings[i]).as_str());
        i = i + 1;
    }
    assert(findings@.take(i as int) =~= findings@);
    let mut h = owned(FINDINGS_OPEN);
    add_when(&mut h, reporter.interactive_filters(), FILTERS);
    h.append(LIST_OPEN);
    h.append(list.as_str());
    h.append(LIST_CLOSE);
    h
}

fn recommendations_of(reporter: &HtmlReporter, findings: &Vec<Finding>) -> (r: String)
    ensures
        r@ == recommendations_html(recommendations_for(findings@)),
{
    let recs = reporter.generate_recommendations(findings);
    let ghost rv = recs@.map_values(|s: String| s@);
    let ghost f = |x: Seq<char>| rec_html(x);
    let mut h = owned(RECS_OPEN);
    if recs.len() == 0 {
        h.append(NO_RECS);
    } else {
        let mut items = String::new();
        let mut i: usize = 0;
        while i < recs.len()
            invariant
                f == (|x: Seq<char>| rec_html(x)),
                i <= recs@.len() == rv.len(),
                rv == recs@.map_values(|s: String| s@),
                items@ == concat_map(rv.take(i as int), f),
            decreases recs@.len() - i,
        {
            proof {
                lemma_concat_map_step(rv, i as int, f);
            }
            let mut item = owned(REC_OPEN);
            item.append(recs[i].as_str());
            item.append(ITEM_CLOSE);
            items.append(item.as_str());
            i = i + 1;
        }
        assert(rv.take(i as int) =~= rv);
        let mut o = owned(OL_OPEN);
        o.append(items.as_str());
        o.append(OL_CLOSE);
        h.append(o.as_str());
    }
    h.append(SECTION_CLOSE);
    h
}

fn footer_of(version: &str, date: &str) -> (r: String)
    ensures
        r@ == footer_html(version@, date@),
{
    let mut h = owned(FOOTER_OPEN);
    h.append(version);
    h.append(FOOTER_MID);
    h.append(date);
    h.append(FOOTER_CLOSE);
    h
}

impl HtmlReporter {
    /// The report page of a snapshot's findings, made at `generated_at`: it starts with
    /// the HTML doctype, shows the theme toggle exactly when dark mode is on and the
    /// filters exactly when interactive filters are on, says that no issues were found
    /// when there are no findings and else how many there are, and gives each finding's
    /// title in an `h3` element.
    pub fn generate_html(&self, snapshot: &Snapshot, findings: &Vec<Finding>, generated_at: &str) -> (r: String)
        ensures
            r@ == html_page(
                snapshot.metadata.tool_version@,
                *snapshot,
                findings@,
                generated_at@,
                self.dark_mode(),
                self.filters(),
            ),
            r@.take(DOCTYPE@.len() as int) == DOCTYPE@,
    {
        let version = snapshot.metadata.tool_version.as_str();
        let mut h = header_of(version, generated_at, self.has_dark_mode());
        let ghost n = DOCTYPE@.len() as int;
        let ghost p = h@;
        h.append(NAV);
        proof { lemma_take_left(p, NAV@, n); }
        let ghost p = h@;
        let s1 = summary_of(self, findings);
        h.append(s1.as_str());
        proof { lemma_take_left(p, s1@, n); }
        let ghost p = h@;
        let s2 = cluster_of(snapshot);
        h.append(s2.as_str());
        proof { lemma_take_left(p, s2@, n); }
        let ghost p = h@;
        let s3 = health_of(self.calculate_health_score(findings));
        h.append(s3.as_str());
        proof { lemma_take_left(p, s3@, n); }
        let ghost p = h@;
        let s4 = findings_of(self, findings);
        h.append(s4.as_str());
        proof { lemma_take_left(p, s4@, n); }
        let ghost p = h@;
        let s5 = recommendations_of(self, findings);
        h.append(s5.as_str());
        proof { lemma_take_left(p, s5@, n); }
        let ghost p = h@;
        let s6 = footer_of(version, generated_at);
        h.append(s6.as_str());
        proof { lemma_take_left(p, s6@, n); }
        h
    }
}

} // verus!
