use kcpilot::log_discovery::{DiscoveredLogs, LogDiscovery, LogType};
use kcpilot::scan::infer_datacenter;
use kcpilot::strmap::StrMap;

#[test]
fn test_determine_log_type_from_path() {
    let discovery = LogDiscovery::new(None);
    assert!(matches!(discovery.determine_log_type_from_path("/var/log/kafka/server.log"), LogType::Server));
    assert!(matches!(discovery.determine_log_type_from_path("/opt/kafka/logs/controller.log"), LogType::Controller));
    assert!(matches!(discovery.determine_log_type_from_path("/var/log/kafka/state-change.log"), LogType::StateChange));
    assert!(matches!(discovery.determine_log_type_from_path("/var/log/kafka/unknown.log"), LogType::Unknown));
}

#[test]
fn test_resolve_log4j_path() {
    let discovery = LogDiscovery::new(None);
    let resolved = discovery.resolve_log4j_path("${kafka.logs.dir}/server.log");
    assert_eq!(resolved, "/var/log/kafka/server.log");
    let resolved = discovery.resolve_log4j_path("/absolute/path/server.log");
    assert_eq!(resolved, "/absolute/path/server.log");
    let resolved = discovery.resolve_log4j_path("${log.dir}/kafka.log");
    assert_eq!(resolved, "/var/log/kafka/kafka.log");
}

#[test]
fn test_determine_log_type_from_appender() {
    let discovery = LogDiscovery::new(None);
    assert!(matches!(discovery.determine_log_type_from_appender("log4j.appender.kafkaServerAppender.File"), LogType::Server));
    assert!(matches!(discovery.determine_log_type_from_appender("log4j.appender.controllerAppender.File"), LogType::Controller));
    assert!(matches!(discovery.determine_log_type_from_appender("log4j.appender.stateChangeAppender.File"), LogType::StateChange));
    assert!(matches!(discovery.determine_log_type_from_appender("log4j.appender.customAppender.File"), LogType::Custom(_)));
}

#[test]
fn test_extract_jvm_args() {
    let discovery = LogDiscovery::new(None);
    let cmdline = vec![
        "java".to_string(),
        "-Xmx1G".to_string(),
        "-Xms1G".to_string(),
        "-Dlog4j.configuration=file:///etc/kafka/log4j.properties".to_string(),
        "-Dkafka.logs.dir=/var/log/kafka".to_string(),
        "kafka.Kafka".to_string(),
        "/etc/kafka/server.properties".to_string(),
    ];
    let jvm_args = discovery.extract_jvm_args(&cmdline);
    assert!(jvm_args.contains(&"-Xmx1G".to_string()));
    assert!(jvm_args.contains(&"-Xms1G".to_string()));
    assert!(jvm_args.contains(&"-Dlog4j.configuration=file:///etc/kafka/log4j.properties".to_string()));
    assert!(jvm_args.contains(&"-Dkafka.logs.dir=/var/log/kafka".to_string()));
    assert!(!jvm_args.contains(&"kafka.Kafka".to_string()));
    assert!(!jvm_args.contains(&"/etc/kafka/server.properties".to_string()));
}

#[test]
fn test_extract_log4j_config() {
    let discovery = LogDiscovery::new(None);
    let jvm_args = vec![
        "-Xmx1G".to_string(),
        "-Dlog4j.configuration=file:///etc/kafka/log4j.properties".to_string(),
        "-Dkafka.logs.dir=/var/log/kafka".to_string(),
    ];
    let env_vars = StrMap::new();
    let log4j_config = discovery.extract_log4j_config(&jvm_args, &env_vars);
    assert!(log4j_config.is_some());
    assert_eq!(log4j_config.unwrap(), "/etc/kafka/log4j.properties");

    let jvm_args_log4j2 = vec!["-Dlog4j2.configurationFile=/etc/kafka/log4j2.xml".to_string()];
    let log4j2_config = discovery.extract_log4j_config(&jvm_args_log4j2, &env_vars);
    assert!(log4j2_config.is_some());
    assert_eq!(log4j2_config.unwrap(), "/etc/kafka/log4j2.xml");

    let mut env_with_log4j = StrMap::new();
    env_with_log4j.insert("LOG4J_CONFIGURATION_FILE".to_string(), "/opt/kafka/log4j.properties".to_string());
    let env_config = discovery.extract_log4j_config(&vec![], &env_with_log4j);
    assert!(env_config.is_some());
    assert_eq!(env_config.unwrap(), "/opt/kafka/log4j.properties");
}

#[test]
fn test_log_type_display() {
    assert_eq!(LogType::Server.to_display_string(), "server");
    assert_eq!(LogType::Controller.to_display_string(), "controller");
    assert_eq!(LogType::StateChange.to_display_string(), "state-change");
    assert_eq!(LogType::Request.to_display_string(), "request");
    assert_eq!(LogType::Gc.to_display_string(), "gc");
    assert_eq!(LogType::Custom("my-custom".to_string()).to_display_string(), "custom(my-custom)");
    assert_eq!(LogType::Unknown.to_display_string(), "unknown");
}

#[test]
fn test_infer_datacenter_dc1() {
    assert_eq!(infer_datacenter("kafka-dc1-broker1.example.com"), "dc1");
    assert_eq!(infer_datacenter("server-dc1-01"), "dc1");
}

#[test]
fn test_infer_datacenter_dc2() {
    assert_eq!(infer_datacenter("kafka-dc2-broker1.example.com"), "dc2");
    assert_eq!(infer_datacenter("server-dc2-01"), "dc2");
}

#[test]
fn test_infer_datacenter_dc3() {
    assert_eq!(infer_datacenter("kafka-dc3-broker1.example.com"), "dc3");
    assert_eq!(infer_datacenter("server-dc3-01"), "dc3");
}

#[test]
fn test_infer_datacenter_unknown() {
    assert_eq!(infer_datacenter("kafka-broker1.example.com"), "unknown");
    assert_eq!(infer_datacenter("localhost"), "unknown");
    assert_eq!(infer_datacenter(""), "unknown");
    assert_eq!(infer_datacenter("kafka-prod-broker1"), "unknown");
}

#[test]
fn test_infer_datacenter_case_sensitive() {
    assert_eq!(infer_datacenter("kafka-DC1-broker1"), "unknown");
    assert_eq!(infer_datacenter("kafka-Dc1-broker1"), "unknown");
}

#[test]
fn test_parse_log4j_config() {
    let log4j_content = r#"
# Kafka log4j configuration
log4j.rootLogger=INFO, kafkaAppender

# Kafka server appender
log4j.appender.kafkaAppender=org.apache.log4j.RollingFileAppender
log4j.appender.kafkaAppender.File=${kafka.logs.dir}/server.log
log4j.appender.kafkaAppender.layout=org.apache.log4j.PatternLayout
log4j.appender.kafkaAppender.layout.ConversionPattern=[%d] %p %m (%c)%n

# Controller appender
log4j.appender.controllerAppender=org.apache.log4j.RollingFileAppender  
log4j.appender.controllerAppender.File=/var/log/kafka/controller.log
log4j.appender.controllerAppender.layout=org.apache.log4j.PatternLayout

# State change appender
log4j.appender.stateAppender=org.apache.log4j.RollingFileAppender
log4j.appender.stateAppender.File=${log.dir}/state-change.log
        "#;
    let discovery = LogDiscovery::new(None);
    let mut discovered = DiscoveredLogs::new();
    discovery.record_log4j_config("/tmp/x/log4j.properties", log4j_content, &mut discovered);
    assert_eq!(discovered.log_files.len(), 3);
    let find = |p: &str| discovered.log_files.iter().find(|f| f.path == p);
    assert!(matches!(find("/var/log/kafka/server.log").unwrap().log_type, LogType::Server));
    assert!(matches!(find("/var/log/kafka/controller.log").unwrap().log_type, LogType::Controller));
    assert!(matches!(find("/var/log/kafka/state-change.log").unwrap().log_type, LogType::StateChange));
    assert!(discovered.log_configs.contains_key("/tmp/x/log4j.properties"));
}

#[test]
fn test_parse_kafka_config() {
    let config_content = r#"
# Kafka server configuration
broker.id=1
listeners=PLAINTEXT://localhost:9092
log.dirs=/data/kafka-logs,/data2/kafka-logs
num.network.threads=8
num.io.threads=16

# Log retention
log.retention.hours=168
log.segment.bytes=1073741824

# Zookeeper
zookeeper.connect=localhost:2181
        "#;
    let discovery = LogDiscovery::new(None);
    let mut discovered = DiscoveredLogs::new();
    let dirs = discovery.record_kafka_config("/tmp/x/server.properties", config_content, &mut discovered);
    assert!(discovered.log_configs.contains_key("/tmp/x/server.properties"));
    assert!(discovered.log_configs.len() > 0);
    assert_eq!(dirs, vec!["/data/kafka-logs".to_string(), "/data2/kafka-logs".to_string()]);
}

#[test]
fn test_standard_locations_fallback() {
    let discovery = LogDiscovery::new(None);
    let mut discovered = DiscoveredLogs::new();
    discovery.discover_standard_locations(&mut discovered);
    assert!(!discovered.log_files.is_empty());
    for log_info in &discovered.log_files {
        assert_eq!(log_info.discovery_method, "standard_locations");
    }
}
