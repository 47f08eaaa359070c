use kcpilot::json::JsonValue;
use kcpilot::report::HtmlReporter;
use kcpilot::snapshot::{
    Category, ClusterMode, ClusterSnapshot, CollectorOutputs, ConfigEvidence, Evidence, Finding, LogEvidence,
    MetricEvidence, Remediation, RemediationStep, RiskLevel, Severity, Snapshot, SnapshotMetadata,
};
use kcpilot::strmap::StrMap;

fn object(members: Vec<(&str, JsonValue)>) -> JsonValue {
    JsonValue::Object(members.into_iter().map(|(k, v)| (k.to_string(), v)).collect())
}

fn snapshot() -> Snapshot {
    let partitions = |n: usize| JsonValue::Array((0..n).map(|i| JsonValue::UInt(i as u64)).collect());
    let admin = object(vec![
        ("brokers", JsonValue::Array(vec![object(vec![("id", JsonValue::UInt(1))]), object(vec![("id", JsonValue::UInt(2))])])),
        (
            "topics",
            JsonValue::Array(vec![
                object(vec![("name", JsonValue::String("a".to_string())), ("partitions", partitions(3))]),
                object(vec![("name", JsonValue::String("b".to_string())), ("partitions", partitions(2))]),
                object(vec![("name", JsonValue::String("c".to_string()))]),
            ]),
        ),
    ]);
    Snapshot {
        version: "1.0.0".to_string(),
        timestamp: "2023-01-01T12:00:00+00:00".to_string(),
        metadata: SnapshotMetadata {
            tool_version: "0.1.0".to_string(),
            collection_id: "test-scan".to_string(),
            collection_duration_ms: 0,
            collectors_used: Vec::new(),
            redaction_applied: false,
            environment: None,
            tags: StrMap::new(),
        },
        cluster: ClusterSnapshot {
            id: Some("test-cluster".to_string()),
            name: None,
            version: None,
            mode: ClusterMode::Kraft,
            cloud_provider: None,
            region: None,
        },
        collectors: CollectorOutputs { admin: Some(admin), logs: None, config: None, metrics: None, cloud: None, custom: Vec::new() },
        findings: Vec::new(),
    }
}

fn finding(title: &str, severity: Severity, category: Category, impact: &str, steps: Vec<&str>) -> Finding {
    Finding {
        id: "1".to_string(),
        severity,
        category,
        title: title.to_string(),
        description: format!("{} described", title),
        impact: impact.to_string(),
        evidence: Evidence { metrics: Vec::new(), logs: Vec::new(), configs: Vec::new(), raw_data: None },
        root_cause: None,
        remediation: Remediation {
            steps: steps
                .into_iter()
                .enumerate()
                .map(|(i, d)| RemediationStep {
                    order: i as u32 + 1,
                    description: d.to_string(),
                    command: None,
                    verification: None,
                    can_automate: false,
                })
                .collect(),
            script: None,
            risk_level: RiskLevel::Low,
            requires_downtime: false,
            estimated_duration_minutes: None,
            rollback_plan: None,
        },
        metadata: Vec::new(),
    }
}

fn findings() -> Vec<Finding> {
    vec![
        finding("Security vulnerability detected", Severity::Critical, Category::Security, "High risk of data breach", vec!["Update security settings"]),
        finding("Performance degradation", Severity::Medium, Category::Performance, "Reduced throughput", vec![]),
    ]
}

#[test]
fn html_report_holds_the_findings() {
    let html = HtmlReporter::new().generate_html(&snapshot(), &findings(), "2024-05-01 10:00:00 UTC");
    assert!(html.starts_with("<!DOCTYPE html>\n"));
    assert!(html.contains("Kafka Cluster Health Report"));
    assert!(html.contains("<h3>Security vulnerability detected</h3>"));
    assert!(html.contains("<h3>Performance degradation</h3>"));
    assert!(html.contains("<strong>2 issue(s) detected</strong>"));
    assert!(html.contains("1 critical and 0 high severity issues found."));
    assert!(html.contains("<link rel=\"stylesheet\" href=\"assets/kafkapilot.css\">"));
    assert!(html.contains("<script src=\"assets/kafkapilot.js\"></script>"));
    assert!(html.ends_with("</html>\n"));
}

#[test]
fn html_report_counts_the_cluster() {
    let html = HtmlReporter::new().generate_html(&snapshot(), &findings(), "now");
    assert!(html.contains("<tr><td><strong>Cluster ID</strong></td><td>test-cluster</td></tr>"));
    assert!(html.contains("<tr><td><strong>Total Brokers</strong></td><td>2</td></tr>"));
    assert!(html.contains("<tr><td><strong>Total Topics</strong></td><td>3</td></tr>"));
    assert!(html.contains("<tr><td><strong>Total Partitions</strong></td><td>5</td></tr>"));
    // 200 half points less 40 for the critical and 10 for the medium finding.
    assert!(html.contains("<div class=\"health-score good\">"));
    assert!(html.contains("<div class=\"score-value\">75.0%</div>"));
    assert!(html.contains("<span class=\"report-date\">📅 now</span>"));
    assert!(html.contains("<p>Generated by KafkaPilot v0.1.0 | now</p>"));
}

#[test]
fn html_report_without_findings_says_so() {
    let html = HtmlReporter::new().generate_html(&snapshot(), &Vec::new(), "now");
    assert!(html.contains("<strong>No issues found!</strong>"));
    assert!(!html.contains("issue(s) detected"));
    assert!(html.contains("<p>No specific recommendations at this time.</p>"));
    assert!(html.contains("<div class=\"score-value\">100.0%</div>"));
}

#[test]
fn html_options_decide_toggle_and_filters() {
    let plain = HtmlReporter::new().with_dark_mode(false).with_interactive_filters(false);
    let html = plain.generate_html(&snapshot(), &findings(), "now");
    assert!(!html.contains("theme-toggle"));
    assert!(!html.contains("severity-filter"));
    let full = HtmlReporter::new().generate_html(&snapshot(), &findings(), "now");
    assert!(full.contains("<button id=\"theme-toggle\""));
    assert!(full.contains("<select id=\"severity-filter\">"));
}

#[test]
fn html_finding_shows_impact_steps_and_evidence() {
    let mut f = finding("Disk full", Severity::High, Category::Capacity, "Writes fail", vec!["Add disks", "Purge topics"]);
    f.evidence.configs.push(ConfigEvidence {
        resource_type: "broker".to_string(),
        resource_name: "broker-1".to_string(),
        config_key: "log.dirs".to_string(),
        current_value: "/tmp".to_string(),
        recommended_value: None,
        reason: "temporary".to_string(),
        source_files: Vec::new(),
    });
    f.evidence.logs.push(LogEvidence {
        level: "ERROR".to_string(),
        message: "No space left".to_string(),
        source_file: "server.log".to_string(),
        line_number: None,
        timestamp: String::new(),
        count: 4,
    });
    f.evidence.metrics.push(MetricEvidence {
        name: "disk_used".to_string(),
        value: "97.50".to_string(),
        threshold: None,
        unit: Some("%".to_string()),
        source: String::new(),
        timestamp: String::new(),
    });
    let html = HtmlReporter::new().generate_html(&snapshot(), &vec![f], "now");
    assert!(html.contains("<div class=\"finding high capacity\" data-severity=\"high\" data-category=\"capacity\">"));
    assert!(html.contains("<strong>Impact:</strong> Writes fail\n"));
    assert!(html.contains("<li>Add disks</li>\n                            <li>Purge topics</li>"));
    assert!(html.contains("<li>broker-1: log.dirs = /tmp (temporary)</li>"));
    assert!(html.contains("<li>[ERROR] No space left (4x)</li>"));
    assert!(html.contains("<li>disk_used: 97.50 %</li>"));
    assert!(html.contains("                <li>Schedule maintenance to resolve high severity issues within the next maintenance window.</li>\n"));
}
