use kcpilot::collector::{legacy_log_name, saved_log_name_fails_hard_exec, saved_log_name_of};
use kcpilot::log_sources::LogFileLocation;
use kcpilot::process_info::{
    clean_log4j_path, collected_log_name, process_info_fails_hard_exec, EnhancedLogDiscovery, ProcessParser,
};
use kcpilot::strmap::StrMap;

#[test]
fn saved_log_names_are_flattened() {
    assert_eq!(saved_log_name_of("/var/log/kafka/server.log"), "var_log_kafka_server.log");
    assert_eq!(saved_log_name_of("server_kafka log.txt"), "server_kafka_log.txt");
    assert_eq!(saved_log_name_of("///"), "unknown.log");
    assert_eq!(saved_log_name_of(""), "unknown.log");
}

#[test]
fn long_saved_log_names_are_cut() {
    let long = "a".repeat(150);
    let saved = saved_log_name_of(&long);
    assert_eq!(saved, format!("{}.log", "a".repeat(97)));
    let exactly = "b".repeat(100);
    assert_eq!(saved_log_name_of(&exactly), exactly);
}

#[test]
fn saved_log_name_cut_inside_a_character_is_detected() {
    let name = format!("{}é{}", "a".repeat(96), "b".repeat(10));
    assert!(saved_log_name_fails_hard_exec(&name));
    assert!(!saved_log_name_fails_hard_exec(&"a".repeat(150)));
    assert!(!saved_log_name_fails_hard_exec("server.log"));
}

#[test]
fn legacy_log_names_drop_slashes() {
    assert_eq!(legacy_log_name("/var/log/kafka/server.log"), "var_log_kafka_server.log");
    assert_eq!(legacy_log_name("logs/a b"), "logs_a b");
}

#[test]
fn log4j_paths_lose_their_file_prefix() {
    assert_eq!(clean_log4j_path("file:/etc/kafka/log4j.properties"), "/etc/kafka/log4j.properties");
    assert_eq!(clean_log4j_path("/etc/kafka/log4j.properties"), "/etc/kafka/log4j.properties");
}

#[test]
fn collected_logs_are_named_by_type_and_file() {
    let loc = LogFileLocation {
        path: "/var/log/kafka/server.log".to_string(),
        log_type: "server".to_string(),
        appender_name: "kafkaAppender".to_string(),
    };
    assert_eq!(collected_log_name(&loc), "server_server.log");
    let dir = LogFileLocation { path: "/".to_string(), log_type: "gc".to_string(), appender_name: "x".to_string() };
    assert_eq!(collected_log_name(&dir), "gc_");
}

#[test]
fn discovery_hosts_come_from_the_executor_text() {
    let chained = EnhancedLogDiscovery::new(Some("bastion1 ssh -o StrictHostKeyChecking=no kafka-1".to_string()));
    assert_eq!(chained.bastion_alias().map(|s| s.as_str()), Some("bastion1"));
    assert_eq!(chained.broker_hostname().map(|s| s.as_str()), Some("kafka-1"));
    let direct = EnhancedLogDiscovery::new(Some("kafka-2".to_string()));
    assert_eq!(direct.bastion_alias(), None);
    assert_eq!(direct.broker_hostname().map(|s| s.as_str()), Some("kafka-2"));
    let local = EnhancedLogDiscovery::new(None);
    assert_eq!(local.bastion_alias(), None);
    assert_eq!(local.broker_hostname(), None);
}

#[test]
fn ps_lines_that_split_a_character_are_detected() {
    let good = "kafka 1234 0.0 1.0 100 200 ? Ssl 10:00 0:01 java -cp x kafka.Kafka /etc/kafka/server.properties";
    assert!(!process_info_fails_hard_exec(good));
    assert!(ProcessParser::parse_process_info(good).is_ok());
    // With two spaces after the first column the counted offset lands inside `é`.
    let bad = "u  1 a b c d e f g \u{e9} x";
    assert!(process_info_fails_hard_exec(bad));
    assert!(!process_info_fails_hard_exec("kafka abc 0 0 0 0 0 0 0 0 java"));
    assert!(!process_info_fails_hard_exec(""));
}

#[test]
fn copied_maps_hold_the_same_pairs() {
    let mut m = StrMap::new();
    m.insert("a".to_string(), "1".to_string());
    m.insert("b".to_string(), "2".to_string());
    let c = m.copy();
    assert_eq!(c.pairs(), m.pairs());
    assert_eq!(c.get("a").map(|s| s.as_str()), Some("1"));
}
