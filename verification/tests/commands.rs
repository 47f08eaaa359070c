use kcpilot::cli::{available_data, count_ssh_hosts, task_outcome_line, task_template, ReportFormat};
use kcpilot::json::JsonValue;
use kcpilot::loading::{load_snapshot_from_directory, ScanDirectory};
use kcpilot::scan::{architecture_line, BrokerInfo, Scanner};
use kcpilot::snapshot::{ClusterMode, Finding, Severity};
use kcpilot::strmap::StrMap;

fn with_severity(s: Severity) -> Finding {
    let mut f = Finding::blank();
    f.severity = s;
    f
}

#[test]
fn snapshot_data_kinds_are_announced() {
    let dir = ScanDirectory {
        scan_metadata: None,
        brokers: None,
        cluster: Some(JsonValue::Object(Vec::new())),
        metrics: Some(JsonValue::Object(Vec::new())),
        system: None,
        other_files: Vec::new(),
        total_files: 0,
    };
    let s = load_snapshot_from_directory(dir, "0.1.0".to_string());
    assert_eq!(available_data(&s), vec!["Metrics".to_string(), "Admin Metadata".to_string()]);
}

#[test]
fn task_outcome_counts_issues_and_findings() {
    assert_eq!(task_outcome_line(&vec![]), "No findings reported.\n");
    assert_eq!(task_outcome_line(&vec![with_severity(Severity::Low)]), "Found 1 finding:\n");
    assert_eq!(
        task_outcome_line(&vec![with_severity(Severity::High), with_severity(Severity::Medium)]),
        "Found 2 issues:\n"
    );
    assert_eq!(
        task_outcome_line(&vec![with_severity(Severity::Critical), with_severity(Severity::Info), with_severity(Severity::Low)]),
        "Found 1 issue and 2 findings:\n"
    );
}

#[test]
fn new_task_template_names_the_task() {
    let t = task_template("disk_check", None);
    assert!(t.starts_with("# Task definition for New Task disk_check\nid: disk_check\nname: New Task disk_check\n"));
    assert!(t.contains("# Available placeholders: {logs}, {config}, {metrics}, {admin}, {topics}\n"));
    assert!(t.ends_with("default_severity: medium\nenabled: true\n"));
    let t = task_template("x", Some("Disk"));
    assert!(t.starts_with("# Task definition for Disk\nid: x\nname: Disk\n"));
}

#[test]
fn ssh_hosts_without_wildcards() {
    let cfg = "Host bastion\n  HostName 10.0.0.1\n  Host inner\nHost *\nHost *.example\nHostName x\n";
    assert_eq!(count_ssh_hosts(cfg), 2);
}

#[test]
fn scanner_bookkeeping() {
    let scanner = Scanner::new(Some("bastion".to_string()))
        .with_output_dir("/tmp/scan".to_string())
        .with_brokers(vec![BrokerInfo::with_inferred_datacenter(1, "kafka-poz-1".to_string())]);
    let m = scanner.scan_metadata("2024-01-01T00:00:00Z".to_string(), 1);
    assert!(!m.is_local);
    assert_eq!(m.broker_count, 1);
    assert_eq!(m.scan_version, "1.0");
    assert_eq!(m.cluster_mode, None);
    let summary = scanner.collection_summary("T", 1);
    assert!(summary.starts_with("# Kafka Cluster Data Collection Summary\n\n## Collection Details\n- **Timestamp**: T\n"));
    assert!(summary.contains("- **Bastion**: bastion (remote)\n"));
    assert!(summary.contains("- **Total Brokers**: 1\n- **Accessible Brokers**: 1\n\n"));
    assert!(summary.contains("### Per Broker (from 1 accessible brokers)\n"));
    let summary = scanner.collection_summary("T", 0);
    assert!(!summary.contains("### Per Broker"));
    let mut scanner = scanner;
    let mut configs = StrMap::new();
    configs.insert("server.properties".to_string(), "process.roles=broker,controller\nnode.id=1\ncontroller.quorum.voters=1@a:9093\n".to_string());
    scanner.record_broker_configs(&configs);
    assert_eq!(scanner.get_cluster_mode(), Some(ClusterMode::Kraft));
    let mut zk = StrMap::new();
    zk.insert("server.properties".to_string(), "zookeeper.connect=zk:2181\nbroker.id=1\n".to_string());
    scanner.record_broker_configs(&zk);
    assert_eq!(scanner.get_cluster_mode(), Some(ClusterMode::Kraft));
    assert_eq!(architecture_line(Some(ClusterMode::Zookeeper)), "⚠️  Zookeeper-based (legacy)");
    assert_eq!(architecture_line(None), "❓ Not detected (no server.properties found)");
    assert_eq!(ReportFormat::Markdown.name(), "markdown");
}

#[test]
fn broker_address_needs_one_port() {
    assert_eq!(kcpilot::scan::check_broker_address("kafka1:9092"), Ok(()));
    assert_eq!(
        kcpilot::scan::check_broker_address("kafka1"),
        Err("Broker address must be in format hostname:port, got: kafka1".to_string())
    );
    assert!(kcpilot::scan::check_broker_address("a:b:c").is_err());
}
