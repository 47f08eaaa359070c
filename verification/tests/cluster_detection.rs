use kcpilot::cluster_detection::{
    detect_cluster_mode, extract_server_properties_configs, is_kraft_mode, is_zookeeper_mode,
    parse_server_properties,
};
use kcpilot::json::JsonValue;
use kcpilot::snapshot::ClusterMode;
use kcpilot::strmap::StrMap;

fn props(pairs: &[(&str, &str)]) -> StrMap {
    let mut m = StrMap::new();
    for (k, v) in pairs {
        m.insert(k.to_string(), v.to_string());
    }
    m
}

fn object(members: Vec<(&str, JsonValue)>) -> JsonValue {
    JsonValue::Object(members.into_iter().map(|(k, v)| (k.to_string(), v)).collect())
}

fn text(s: &str) -> JsonValue {
    JsonValue::String(s.to_string())
}

#[test]
fn test_parse_server_properties() {
    let content = r#"
# This is a comment
broker.id=11
zookeeper.connect=zk1:2181,zk2:2181,zk3:2181

# Another comment
log.dirs=/var/kafka/logs
num.network.threads=3

# Empty line above and below should be ignored

process.roles=controller,broker
"#;
    let properties = parse_server_properties(content);
    assert_eq!(properties.get("broker.id"), Some(&"11".to_string()));
    assert_eq!(properties.get("zookeeper.connect"), Some(&"zk1:2181,zk2:2181,zk3:2181".to_string()));
    assert_eq!(properties.get("log.dirs"), Some(&"/var/kafka/logs".to_string()));
    assert_eq!(properties.get("num.network.threads"), Some(&"3".to_string()));
    assert_eq!(properties.get("process.roles"), Some(&"controller,broker".to_string()));
    assert_eq!(properties.len(), 5);
}

#[test]
fn test_parse_server_properties_with_spaces() {
    let content = r#"
broker.id = 11
zookeeper.connect = zk1:2181
log.dirs=/var/kafka/logs
"#;
    let properties = parse_server_properties(content);
    assert_eq!(properties.get("broker.id"), Some(&"11".to_string()));
    assert_eq!(properties.get("zookeeper.connect"), Some(&"zk1:2181".to_string()));
    assert_eq!(properties.get("log.dirs"), Some(&"/var/kafka/logs".to_string()));
}

#[test]
fn test_is_zookeeper_mode() {
    let properties = props(&[("zookeeper.connect", "zk1:2181,zk2:2181"), ("broker.id", "11")]);
    assert!(is_zookeeper_mode(&properties));
}

#[test]
fn test_is_zookeeper_mode_false_with_empty_zk_connect() {
    let properties = props(&[("zookeeper.connect", ""), ("broker.id", "11")]);
    assert!(!is_zookeeper_mode(&properties));
}

#[test]
fn test_is_zookeeper_mode_false_with_controller_role() {
    let properties = props(&[
        ("zookeeper.connect", "zk1:2181"),
        ("broker.id", "11"),
        ("process.roles", "controller"),
    ]);
    assert!(!is_zookeeper_mode(&properties));
}

#[test]
fn test_is_zookeeper_mode_false_with_node_id() {
    let properties = props(&[("zookeeper.connect", "zk1:2181"), ("broker.id", "11"), ("node.id", "1")]);
    assert!(!is_zookeeper_mode(&properties));
}

#[test]
fn test_is_zookeeper_mode_false_with_quorum_voters() {
    let properties = props(&[
        ("zookeeper.connect", "zk1:2181"),
        ("broker.id", "11"),
        ("controller.quorum.voters", "1@kafka1:9093"),
    ]);
    assert!(!is_zookeeper_mode(&properties));
}

#[test]
fn test_is_kraft_mode() {
    let properties = props(&[
        ("process.roles", "controller,broker"),
        ("node.id", "1"),
        ("controller.quorum.voters", "1@kafka1:9093"),
    ]);
    assert!(is_kraft_mode(&properties));
}

#[test]
fn test_is_kraft_mode_with_only_controller_role() {
    let properties = props(&[
        ("process.roles", "controller"),
        ("node.id", "1"),
        ("controller.quorum.voters", "1@kafka1:9093"),
    ]);
    assert!(is_kraft_mode(&properties));
}

#[test]
fn test_is_kraft_mode_false_with_zk_connect() {
    let properties = props(&[
        ("zookeeper.connect", "zk1:2181"),
        ("process.roles", "controller"),
        ("node.id", "1"),
        ("controller.quorum.voters", "1@kafka1:9093"),
    ]);
    assert!(!is_kraft_mode(&properties));
}

#[test]
fn test_is_kraft_mode_with_broker_id_compatibility() {
    let properties = props(&[
        ("process.roles", "controller"),
        ("broker.id", "1"),
        ("node.id", "1"),
        ("controller.quorum.voters", "1@kafka1:9093"),
    ]);
    assert!(is_kraft_mode(&properties));
}

#[test]
fn test_is_kraft_mode_false_without_node_id() {
    let properties = props(&[("process.roles", "controller"), ("controller.quorum.voters", "1@kafka1:9093")]);
    assert!(!is_kraft_mode(&properties));
}

#[test]
fn test_detect_cluster_mode_zookeeper() {
    let config_data = object(vec![
        ("broker_1/server.properties", text("broker.id=11\nzookeeper.connect=zk1:2181,zk2:2181\nlog.dirs=/var/kafka/logs")),
        ("broker_2/server.properties", text("broker.id=12\nzookeeper.connect=zk1:2181,zk2:2181\nlog.dirs=/var/kafka/logs")),
    ]);
    let mode = detect_cluster_mode(&config_data);
    assert!(matches!(mode, ClusterMode::Zookeeper));
}

#[test]
fn test_detect_cluster_mode_kraft() {
    let config_data = object(vec![
        ("broker_1/server.properties", text("node.id=1\nprocess.roles=controller,broker\ncontroller.quorum.voters=1@kafka1:9093")),
        ("broker_2/server.properties", text("node.id=2\nprocess.roles=controller,broker\ncontroller.quorum.voters=1@kafka1:9093")),
    ]);
    let mode = detect_cluster_mode(&config_data);
    assert!(matches!(mode, ClusterMode::Kraft));
}

#[test]
fn test_detect_cluster_mode_unknown() {
    let config_data = object(vec![("broker_1/server.properties", text("some.other.config=value\nlog.dirs=/var/kafka/logs"))]);
    let mode = detect_cluster_mode(&config_data);
    assert!(matches!(mode, ClusterMode::Unknown));
}

#[test]
fn test_detect_cluster_mode_mixed() {
    let config_data = object(vec![
        ("broker_1/server.properties", text("broker.id=11\nzookeeper.connect=zk1:2181")),
        ("broker_2/server.properties", text("node.id=2\nprocess.roles=controller\ncontroller.quorum.voters=1@kafka1:9093")),
    ]);
    let mode = detect_cluster_mode(&config_data);
    assert!(matches!(mode, ClusterMode::Unknown));
}

#[test]
fn test_detect_cluster_mode_no_config() {
    let config_data = object(vec![("some_other_file.txt", text("not a server.properties file"))]);
    let mode = detect_cluster_mode(&config_data);
    assert!(matches!(mode, ClusterMode::Unknown));
}

#[test]
fn test_extract_server_properties_configs() {
    let config_data = object(vec![
        ("broker_1/log4j.properties", text("log4j.rootLogger=INFO")),
        ("broker_1/server.properties", text("broker.id=11")),
        ("broker_2/server.properties", text("broker.id=12")),
    ]);
    let configs = extract_server_properties_configs(&config_data);
    assert_eq!(configs.len(), 2);
    assert!(configs.iter().any(|(path, _)| path == "broker_1/server.properties"));
    assert!(configs.iter().any(|(path, _)| path == "broker_2/server.properties"));
    assert!(!configs.iter().any(|(path, _)| path.contains("log4j")));
}

#[test]
fn test_extract_server_properties_configs_nested_structure() {
    let config_data = object(vec![(
        "brokers",
        object(vec![
            ("broker_1", object(vec![("configs", object(vec![("server.properties", text("broker.id=11\nzookeeper.connect=zk1:2181"))]))])),
            ("broker_2", object(vec![("configs", object(vec![("server.properties", text("broker.id=12\nzookeeper.connect=zk1:2181"))]))])),
        ]),
    )]);
    let configs = extract_server_properties_configs(&config_data);
    assert_eq!(configs.len(), 2);
    assert!(configs
        .iter()
        .any(|(path, content)| path == "broker_1/configs/server.properties" && content.contains("broker.id=11")));
    assert!(configs
        .iter()
        .any(|(path, content)| path == "broker_2/configs/server.properties" && content.contains("broker.id=12")));
}

#[test]
fn test_detect_kraft_with_real_config() {
    let kraft_config = r#"# ansible managed

# kraft control plane
node.id=13
controller.listener.names=CONTROLLER
process.roles=broker,controller
controller.quorum.voters=11@kafka-poligon-dc1-1.c.bartek-rekke-sandbox.internal:9094,13@kafka-poligon-dc2-1.c.bartek-rekke-sandbox.internal:9094,15@kafka-poligon-dc3-1.c.bartek-rekke-sandbox.internal:9094

# kafka files goes here
log.dirs=/data/kafka/generic

# common options
listeners=CLIENTS://0.0.0.0:9092,CLUSTER://0.0.0.0:9093,CONTROLLER://0.0.0.0:9094"#;
    let properties = parse_server_properties(kraft_config);
    assert!(is_kraft_mode(&properties));
    assert!(!is_zookeeper_mode(&properties));
}
