use kcpilot::config_validator::ConfigValidator;
use kcpilot::json::JsonValue;
use kcpilot::snapshot::{
    Category, ClusterMode, ClusterSnapshot, CollectorOutputs, RiskLevel, Severity, Snapshot, SnapshotMetadata,
};
use kcpilot::strmap::StrMap;

fn object(members: Vec<(&str, JsonValue)>) -> JsonValue {
    JsonValue::Object(members.into_iter().map(|(k, v)| (k.to_string(), v)).collect())
}

fn text(s: &str) -> JsonValue {
    JsonValue::String(s.to_string())
}

fn snapshot(config: Option<JsonValue>, custom: Vec<(String, JsonValue)>) -> Snapshot {
    Snapshot {
        version: "1.0.0".to_string(),
        timestamp: "2024-01-01T00:00:00Z".to_string(),
        metadata: SnapshotMetadata {
            tool_version: "0.1.0".to_string(),
            collection_id: "c".to_string(),
            collection_duration_ms: 0,
            collectors_used: Vec::new(),
            redaction_applied: false,
            environment: None,
            tags: StrMap::new(),
        },
        cluster: ClusterSnapshot {
            id: None,
            name: None,
            version: None,
            mode: ClusterMode::Unknown,
            cloud_provider: None,
            region: None,
        },
        collectors: CollectorOutputs { admin: None, logs: None, config, metrics: None, cloud: None, custom },
        findings: Vec::new(),
    }
}

fn two_default_ids() -> JsonValue {
    object(vec![
        ("broker_11/server.properties", text("broker.id=0\nlog.dirs=/var/kafka\n")),
        ("broker_12/server.properties", text("  broker.id=0  \n")),
        ("broker_11/log4j.properties", text("broker.id=7\n")),
    ])
}

#[test]
fn duplicate_default_ids_are_critical() {
    let s = snapshot(Some(two_default_ids()), Vec::new());
    let fs = ConfigValidator::new().check_broker_id_issues(&s);
    assert_eq!(fs.len(), 1);
    let f = &fs[0];
    assert_eq!(f.id, "CONFIG-BROKER-ID-001");
    assert_eq!(f.severity, Severity::Critical);
    assert_eq!(f.category, Category::Configuration);
    assert_eq!(f.title, "Duplicate broker.id=0 found across 2 brokers");
    assert_eq!(f.evidence.configs.len(), 1);
    assert_eq!(f.evidence.configs[0].resource_name, "multiple");
    assert_eq!(f.evidence.configs[0].current_value, "0");
    assert_eq!(
        f.evidence.configs[0].source_files,
        vec!["brokers/broker_11/server.properties".to_string(), "brokers/broker_12/server.properties".to_string()]
    );
    assert_eq!(f.remediation.risk_level, RiskLevel::High);
    assert!(f.remediation.requires_downtime);
    assert_eq!(f.remediation.estimated_duration_minutes, Some(30));
}

#[test]
fn runtime_ids_make_it_a_mismatch() {
    let brokers = object(vec![
        ("broker_11", object(vec![("broker_info.json", object(vec![("id", JsonValue::UInt(11))]))])),
        ("broker_12", object(vec![("broker_info.json", object(vec![("id", JsonValue::UInt(12))]))])),
    ]);
    let s = snapshot(Some(two_default_ids()), vec![("brokers".to_string(), brokers)]);
    let fs = ConfigValidator::new().check_broker_id_issues(&s);
    assert_eq!(fs.len(), 1);
    let f = &fs[0];
    assert_eq!(f.severity, Severity::Medium);
    assert_eq!(
        f.title,
        "Configuration mismatch: server.properties shows broker.id=0 but brokers running with correct IDs"
    );
    assert_eq!(f.evidence.configs[0].current_value, "0 (in config files)");
    assert_eq!(f.evidence.configs[0].recommended_value, Some("Update to actual IDs: broker_11 → 11, broker_12 → 12".to_string()));
    assert_eq!(f.remediation.risk_level, RiskLevel::Low);
    assert!(!f.remediation.requires_downtime);
    assert_eq!(f.remediation.estimated_duration_minutes, Some(5));
}

#[test]
fn single_default_id_is_reported_and_unique_ids_are_not() {
    let config = object(vec![("a/server.properties", text("broker.id=0\n"))]);
    let fs = ConfigValidator::new().check_broker_id_issues(&snapshot(Some(config), Vec::new()));
    assert_eq!(fs.len(), 1);
    assert_eq!(fs[0].title, "Default broker.id=0 not updated in configuration");
    assert_eq!(fs[0].evidence.configs[0].resource_name, "single");
    let config = object(vec![("a/server.properties", text("broker.id=1\n")), ("b/server.properties", text("broker.id=2\n"))]);
    assert!(ConfigValidator::new().check_broker_id_issues(&snapshot(Some(config), Vec::new())).is_empty());
    assert!(ConfigValidator::new().check_broker_id_issues(&snapshot(None, Vec::new())).is_empty());
}

#[test]
fn common_issues_cover_replication_and_tmp_logs() {
    let config = object(vec![
        ("a/server.properties", text("offsets.topic.replication.factor=1\nlog.dirs=/tmp/kafka-logs\n")),
        ("b/server.properties", text("offsets.topic.replication.factor=1\ntransaction.state.log.replication.factor=1\n")),
    ]);
    let fs = ConfigValidator::new().check_common_issues(&snapshot(Some(config), Vec::new()));
    assert_eq!(fs.len(), 3);
    assert_eq!(fs[0].id, "CONFIG-REPLICATION-1");
    assert_eq!(fs[0].title, "Low replication factor: offsets.topic.replication.factor");
    assert_eq!(fs[0].severity, Severity::High);
    assert_eq!(fs[0].category, Category::Availability);
    assert_eq!(fs[0].evidence.configs[0].source_files.len(), 2);
    assert_eq!(fs[1].id, "CONFIG-REPLICATION-2");
    assert_eq!(fs[1].title, "Low replication factor: transaction.state.log.replication.factor");
    assert_eq!(fs[2].id, "CONFIG-LOGDIR-001");
    assert_eq!(fs[2].title, "Logs stored in temporary directory");
    assert_eq!(fs[2].evidence.configs[0].source_files, vec!["brokers/a/server.properties".to_string()]);
}

#[test]
fn analyze_puts_broker_id_findings_first() {
    let config = object(vec![("a/server.properties", text("broker.id=0\nlog.dirs=/tmp/x\n"))]);
    let fs = ConfigValidator::new().analyze(&snapshot(Some(config), Vec::new()));
    let ids: Vec<&str> = fs.iter().map(|f| f.id.as_str()).collect();
    assert_eq!(ids, vec!["CONFIG-BROKER-ID-001", "CONFIG-LOGDIR-001"]);
}
