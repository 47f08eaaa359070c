use kcpilot::json::JsonValue;
use kcpilot::report::{format_halves, score_class, score_label, HtmlReporter, JsonReporter, TerminalReporter};
use kcpilot::snapshot::{
    Category, ClusterMode, ClusterSnapshot, CollectorOutputs, Evidence, Finding, Remediation, RiskLevel,
    Severity, Snapshot, SnapshotMetadata,
};
use kcpilot::strmap::StrMap;

fn finding(id: &str, title: &str, severity: Severity, category: Category) -> Finding {
    Finding {
        id: id.to_string(),
        severity,
        category,
        title: title.to_string(),
        description: title.to_string(),
        impact: "Test impact".to_string(),
        evidence: Evidence { metrics: Vec::new(), logs: Vec::new(), configs: Vec::new(), raw_data: None },
        root_cause: None,
        remediation: Remediation {
            steps: Vec::new(),
            script: None,
            risk_level: RiskLevel::Low,
            requires_downtime: false,
            estimated_duration_minutes: None,
            rollback_plan: None,
        },
        metadata: Vec::new(),
    }
}

fn with_severity(severity: Severity) -> Finding {
    let mut f = Finding::blank();
    f.severity = severity;
    f
}

fn object(members: Vec<(&str, JsonValue)>) -> JsonValue {
    JsonValue::Object(members.into_iter().map(|(k, v)| (k.to_string(), v)).collect())
}

fn create_test_snapshot() -> Snapshot {
    let admin = object(vec![
        (
            "brokers",
            JsonValue::Array(vec![
                object(vec![("id", JsonValue::UInt(1)), ("host", JsonValue::String("broker1".to_string()))]),
                object(vec![("id", JsonValue::UInt(2)), ("host", JsonValue::String("broker2".to_string()))]),
            ]),
        ),
        (
            "topics",
            JsonValue::Array(vec![
                object(vec![("name", JsonValue::String("topic1".to_string()))]),
                object(vec![("name", JsonValue::String("topic2".to_string()))]),
                object(vec![("name", JsonValue::String("topic3".to_string()))]),
            ]),
        ),
    ]);
    Snapshot {
        version: "1.0.0".to_string(),
        timestamp: "2023-01-01T12:00:00+00:00".to_string(),
        metadata: SnapshotMetadata {
            tool_version: "1.0.0".to_string(),
            collection_id: "test-scan-123".to_string(),
            collection_duration_ms: 60000,
            collectors_used: vec!["admin".to_string()],
            redaction_applied: false,
            environment: Some("test-bastion".to_string()),
            tags: StrMap::new(),
        },
        cluster: ClusterSnapshot {
            id: Some("test-cluster".to_string()),
            name: None,
            version: None,
            mode: ClusterMode::Kraft,
            cloud_provider: None,
            region: None,
        },
        collectors: CollectorOutputs {
            admin: Some(admin),
            logs: None,
            config: None,
            metrics: None,
            cloud: None,
            custom: Vec::new(),
        },
        findings: Vec::new(),
    }
}

fn create_test_findings() -> Vec<Finding> {
    vec![
        finding("TEST-001", "Critical Issue", Severity::Critical, Category::Security),
        finding("TEST-002", "High Issue", Severity::High, Category::Performance),
        finding("TEST-003", "Medium Issue", Severity::Medium, Category::Configuration),
    ]
}

#[test]
fn test_generate_report() {
    let reporter = JsonReporter::new();
    let snapshot = create_test_snapshot();
    let findings = create_test_findings();
    let report = reporter.generate_report(&snapshot, findings, "2024-01-01T00:00:00+00:00".to_string());
    assert_eq!(report.metadata.tool_version, "1.0.0");
    assert_eq!(report.metadata.output_directory, "test-scan-123");
    assert_eq!(report.cluster_info.cluster_id, Some("test-cluster".to_string()));
    assert_eq!(report.cluster_info.cluster_mode, Some("kraft".to_string()));
    assert_eq!(report.cluster_info.broker_count, 2);
    assert_eq!(report.cluster_info.topic_count, Some(3));
    assert_eq!(report.cluster_info.bastion_host, Some("test-bastion".to_string()));
    assert_eq!(report.findings.len(), 3);
    assert_eq!(report.findings[0].severity, Severity::Critical);
    assert_eq!(report.summary.total_findings, 3);
    assert_eq!(report.summary.critical_count, 1);
    assert_eq!(report.summary.high_count, 1);
    assert_eq!(report.summary.medium_count, 1);
    assert_eq!(report.summary.low_count, 0);
    assert_eq!(report.summary.info_count, 0);
    // 100 - (1*20 + 1*10 + 1*5) = 65, kept in half points.
    assert_eq!(report.health_score_halves as f64 / 2.0, 65.0);
}

#[test]
fn json_test_health_score_calculation() {
    let reporter = JsonReporter::new();
    let snapshot = create_test_snapshot();
    let critical_findings = vec![finding("C1", "Critical", Severity::Critical, Category::Other)];
    let report = reporter.generate_report(&snapshot, critical_findings, String::new());
    assert_eq!(report.health_score_halves as f64 / 2.0, 80.0);
    let many_critical_findings: Vec<Finding> =
        (0..10).map(|i| finding(&format!("C{}", i), "Critical", Severity::Critical, Category::Other)).collect();
    let report = reporter.generate_report(&snapshot, many_critical_findings, String::new());
    assert_eq!(report.health_score_halves as f64 / 2.0, 0.0);
}

#[test]
fn test_summary_counts() {
    let reporter = JsonReporter::new();
    let snapshot = create_test_snapshot();
    let mixed_findings = vec![
        finding("1", "Test", Severity::Critical, Category::Other),
        finding("2", "Test", Severity::Critical, Category::Other),
        finding("3", "Test", Severity::High, Category::Other),
        finding("4", "Test", Severity::Info, Category::Other),
    ];
    let report = reporter.generate_report(&snapshot, mixed_findings, String::new());
    assert_eq!(report.summary.total_findings, 4);
    assert_eq!(report.summary.critical_count, 2);
    assert_eq!(report.summary.high_count, 1);
    assert_eq!(report.summary.medium_count, 0);
    assert_eq!(report.summary.low_count, 0);
    assert_eq!(report.summary.info_count, 1);
}

#[test]
fn test_cluster_info_extraction() {
    let reporter = JsonReporter::new();
    let mut snapshot = create_test_snapshot();
    snapshot.collectors.admin = None;
    let report = reporter.generate_report(&snapshot, Vec::new(), String::new());
    assert_eq!(report.cluster_info.broker_count, 0);
    assert_eq!(report.cluster_info.topic_count, None);
    assert_eq!(report.cluster_info.partition_count, None);
}

#[test]
fn test_severity_counting() {
    let reporter = HtmlReporter::new();
    let findings = vec![
        with_severity(Severity::Critical),
        with_severity(Severity::Critical),
        with_severity(Severity::High),
        with_severity(Severity::Medium),
    ];
    let (critical, high, medium, low, info) = reporter.count_severities(&findings);
    assert_eq!(critical, 2);
    assert_eq!(high, 1);
    assert_eq!(medium, 1);
    assert_eq!(low, 0);
    assert_eq!(info, 0);
}

#[test]
fn html_test_health_score_calculation() {
    let reporter = HtmlReporter::new();
    let findings = vec![with_severity(Severity::Critical), with_severity(Severity::High), with_severity(Severity::Medium)];
    let score = reporter.calculate_health_score(&findings);
    assert_eq!(score as f64 / 2.0, 65.0);
}

#[test]
fn health_score_counts_info_as_half_point() {
    let reporter = HtmlReporter::new();
    let findings = vec![with_severity(Severity::Info), with_severity(Severity::Low)];
    let halves = reporter.calculate_health_score(&findings);
    assert_eq!(halves, 195);
    assert_eq!(format_halves(halves), "97.5");
    assert_eq!(format_halves(130), "65.0");
    assert_eq!(score_class(halves), "excellent");
    assert_eq!(score_label(130), "Fair");
    assert_eq!(score_class(90), "poor");
}

#[test]
fn health_score_never_rises_with_more_findings() {
    let reporter = HtmlReporter::new();
    let mut findings = vec![with_severity(Severity::Low)];
    let before = reporter.calculate_health_score(&findings);
    findings.push(with_severity(Severity::Info));
    let after = reporter.calculate_health_score(&findings);
    assert!(after <= before);
    let terminal = TerminalReporter::new();
    let t_before = terminal.calculate_health_score_from_findings(&findings);
    findings.push(with_severity(Severity::Info));
    assert_eq!(terminal.calculate_health_score_from_findings(&findings), t_before);
}

#[test]
fn terminal_score_uses_its_own_penalties() {
    let terminal = TerminalReporter::new();
    let findings = vec![with_severity(Severity::Critical), with_severity(Severity::High), with_severity(Severity::Medium), with_severity(Severity::Low)];
    // 100 - 25 - 15 - 8 - 3 = 49
    assert_eq!(terminal.calculate_health_score_from_findings(&findings), 49);
    let many: Vec<Finding> = (0..5).map(|_| with_severity(Severity::Critical)).collect();
    assert_eq!(terminal.calculate_health_score_from_findings(&many), 0);
}

#[test]
fn recommendations_follow_findings() {
    let reporter = HtmlReporter::new();
    let findings = vec![
        finding("1", "a", Severity::Critical, Category::Security),
        finding("2", "b", Severity::Low, Category::Performance),
    ];
    let recs = reporter.generate_recommendations(&findings);
    assert_eq!(recs.len(), 3);
    assert!(recs[0].starts_with("Address all critical issues"));
    assert!(recs[1].starts_with("Review and strengthen security"));
    assert!(recs[2].starts_with("Analyze performance bottlenecks"));
    assert!(reporter.generate_recommendations(&Vec::new()).is_empty());
}

#[test]
fn format_names_of_severities_and_categories() {
    let reporter = HtmlReporter::new();
    assert_eq!(reporter.format_severity(Severity::Medium), "Medium");
    assert_eq!(reporter.format_category(Category::ClusterHygiene), "Cluster Hygiene");
    assert_eq!(reporter.format_category_class(Category::ClusterHygiene), "cluster-hygiene");
    assert_eq!(Severity::High.color(), "bright red");
    assert_eq!(Severity::Critical.icon(), "🔴");
}
