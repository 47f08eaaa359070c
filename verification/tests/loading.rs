use kcpilot::json::{json_clone, object_insert, text_less, JsonValue};
use kcpilot::loading::{add_subdirectory, data_type_labels, file_value, load_snapshot_from_directory, ScanDirectory};
use kcpilot::snapshot::ClusterMode;

fn text(s: &str) -> JsonValue {
    JsonValue::String(s.to_string())
}

fn object(members: Vec<(&str, JsonValue)>) -> JsonValue {
    let mut m: Vec<(String, JsonValue)> = Vec::new();
    for (k, v) in members {
        object_insert(&mut m, k.to_string(), v);
    }
    JsonValue::Object(m)
}

fn keys(v: &JsonValue) -> Vec<String> {
    match v {
        JsonValue::Object(m) => m.iter().map(|(k, _)| k.clone()).collect(),
        _ => panic!("not an object"),
    }
}

fn empty_dir() -> ScanDirectory {
    ScanDirectory {
        scan_metadata: None,
        brokers: None,
        cluster: None,
        metrics: None,
        system: None,
        other_files: Vec::new(),
        total_files: 0,
    }
}

#[test]
fn objects_keep_members_in_byte_order() {
    let mut m: Vec<(String, JsonValue)> = Vec::new();
    object_insert(&mut m, "b".to_string(), text("1"));
    object_insert(&mut m, "a/x".to_string(), text("2"));
    object_insert(&mut m, "a-b/y".to_string(), text("3"));
    object_insert(&mut m, "b".to_string(), text("4"));
    let ks: Vec<&str> = m.iter().map(|(k, _)| k.as_str()).collect();
    assert_eq!(ks, vec!["a-b/y", "a/x", "b"]);
    assert!(matches!(&m[2].1, JsonValue::String(s) if s == "4"));
    assert!(text_less("broker_1/x", "broker_10/y"));
    assert!(text_less("", "a"));
    assert!(!text_less("a", "a"));
    assert!(text_less("Z", "a"));
}

#[test]
fn files_and_subdirectories() {
    let parsed = Some(object(vec![("id", JsonValue::UInt(1))]));
    assert!(matches!(file_value("broker_info.json", "{\"id\":1}".to_string(), parsed), JsonValue::Object(_)));
    assert!(matches!(file_value("broker_info.json", "not json".to_string(), None), JsonValue::String(_)));
    assert!(matches!(file_value("server.properties", "x=1".to_string(), Some(JsonValue::Null)), JsonValue::String(_)));
    let mut parent: Vec<(String, JsonValue)> = Vec::new();
    add_subdirectory(&mut parent, "empty".to_string(), JsonValue::Object(Vec::new()));
    assert!(parent.is_empty());
    add_subdirectory(&mut parent, "logs".to_string(), object(vec![("server.log", text("x"))]));
    assert_eq!(parent.len(), 1);
}

#[test]
fn copies_hold_the_same_document() {
    let v = object(vec![("a", JsonValue::Array(vec![JsonValue::Bool(true), JsonValue::Int(-3)])), ("b", JsonValue::Float("1.5".to_string()))]);
    let c = json_clone(&v);
    assert_eq!(keys(&c), vec!["a".to_string(), "b".to_string()]);
}

#[test]
fn scan_directory_becomes_a_snapshot() {
    let broker = |cfg: &str, log: &str| {
        object(vec![
            ("configs", object(vec![("server.properties", text(cfg))])),
            ("logs", object(vec![("server.log", text(log))])),
            ("system", object(vec![("uname.txt", text("Linux"))])),
        ])
    };
    let dir = ScanDirectory {
        scan_metadata: Some(object(vec![("cluster_mode", text("zookeeper")), ("broker_count", JsonValue::UInt(2))])),
        brokers: Some(object(vec![("broker_11", broker("broker.id=11", "ERROR a")), ("broker_12", broker("broker.id=12", "WARN b"))])),
        cluster: Some(object(vec![("kafkactl", object(vec![("brokers.yaml", text("- id: 11"))]))])),
        metrics: None,
        system: None,
        other_files: vec![("COLLECTION_SUMMARY.md".to_string(), text("# Summary"))],
        total_files: 9,
    };
    let labels = data_type_labels(&dir);
    assert_eq!(labels, vec!["Configurations", "Logs", "System Info", "Kafka Admin Data", "Additional Files"]);
    let s = load_snapshot_from_directory(dir, "0.1.0".to_string());
    assert_eq!(s.version, "1.0.0");
    assert_eq!(s.metadata.tool_version, "0.1.0");
    assert_eq!(s.metadata.collection_id.len(), 36);
    assert_eq!(s.cluster.mode, ClusterMode::Zookeeper);
    assert_eq!(keys(s.collectors.config.as_ref().unwrap()), vec!["broker_11/server.properties", "broker_12/server.properties"]);
    assert_eq!(keys(s.collectors.logs.as_ref().unwrap()), vec!["broker_11/server.log", "broker_12/server.log"]);
    assert_eq!(keys(s.collectors.admin.as_ref().unwrap()), vec!["kafkactl"]);
    assert!(s.collectors.metrics.is_none());
    let custom: Vec<&str> = s.collectors.custom.iter().map(|(k, _)| k.as_str()).collect();
    assert_eq!(custom, vec!["brokers", "cluster", "COLLECTION_SUMMARY.md"]);
    assert_eq!(s.metadata.tags.get("total_files_loaded"), Some(&"9".to_string()));
    assert_eq!(
        s.metadata.tags.get("data_types"),
        Some(&"Configurations, Logs, System Info, Kafka Admin Data, Additional Files".to_string())
    );
}

#[test]
fn empty_directory_gives_an_empty_snapshot() {
    let s = load_snapshot_from_directory(empty_dir(), "0.1.0".to_string());
    assert_eq!(s.cluster.mode, ClusterMode::Unknown);
    assert!(s.collectors.logs.is_none() && s.collectors.config.is_none() && s.collectors.admin.is_none());
    assert!(s.collectors.custom.is_empty());
    assert_eq!(s.metadata.tags.get("data_types"), Some(&"".to_string()));
    let mut meta = empty_dir();
    meta.scan_metadata = Some(object(vec![("cluster_mode", text("something"))]));
    assert_eq!(load_snapshot_from_directory(meta, "x".to_string()).cluster.mode, ClusterMode::Unknown);
    let mut meta = empty_dir();
    meta.scan_metadata = Some(object(vec![("cluster_mode", JsonValue::UInt(1))]));
    assert_eq!(load_snapshot_from_directory(meta, "x".to_string()).cluster.mode, ClusterMode::Unknown);
}
