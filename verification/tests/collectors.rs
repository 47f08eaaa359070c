use kcpilot::collectors::{
    join_strings, AdminCollector, AdminCollectorOutput, BrokerMetadata, ClusterInfo, CollectorError, KafkaConfig,
    LogCollector, LogConfig, LogEntry, LogLevel, PartitionMetadata, TopicInfo, TopicMetadata,
};

fn entry(ts: &str, level: LogLevel, msg: &str, raw: &str) -> LogEntry {
    LogEntry { timestamp: ts.to_string(), level, source: "src".to_string(), message: msg.to_string(), raw: raw.to_string() }
}

#[test]
fn default_config_is_local_plaintext() {
    let c = KafkaConfig::default_config();
    assert_eq!(c.bootstrap_servers, vec!["localhost:9092".to_string()]);
    assert_eq!(c.security_protocol, "PLAINTEXT");
    assert_eq!(c.timeout_secs, 30);
    assert_eq!(c.client_id, "kcpilot");
}

#[test]
fn client_settings_follow_the_configuration() {
    let mut c = KafkaConfig::default_config();
    c.bootstrap_servers = vec!["a:9092".to_string(), "b:9092".to_string()];
    let s = AdminCollector::client_settings(&c);
    let pairs: Vec<(&str, &str)> = s.iter().map(|(k, v)| (k.as_str(), v.as_str())).collect();
    assert_eq!(
        pairs,
        vec![("bootstrap.servers", "a:9092,b:9092"), ("security.protocol", "PLAINTEXT"), ("socket.timeout.ms", "30000")]
    );
    c.security_protocol = "plaintext".to_string();
    c.sasl_mechanism = Some("PLAIN".to_string());
    c.sasl_password = Some("pw".to_string());
    c.ssl_key = Some("/k.pem".to_string());
    let s = AdminCollector::client_settings(&c);
    let keys: Vec<&str> = s.iter().map(|(k, _)| k.as_str()).collect();
    assert_eq!(keys, vec!["bootstrap.servers", "sasl.mechanism", "sasl.password", "ssl.key.location", "socket.timeout.ms"]);
}

#[test]
fn config_validation_errors() {
    let a = AdminCollector::new();
    let mut c = KafkaConfig::default_config();
    assert!(a.validate_config(&c).is_ok());
    c.timeout_secs = 0;
    assert_eq!(a.validate_config(&c), Err(CollectorError::ConfigurationError("Timeout must be greater than 0".to_string())));
    c.bootstrap_servers.clear();
    assert_eq!(a.validate_config(&c), Err(CollectorError::ConfigurationError("Bootstrap servers cannot be empty".to_string())));
}

#[test]
fn metadata_becomes_admin_output() {
    let brokers = vec![BrokerMetadata { id: 1, host: "b1".to_string(), port: 9092 }];
    let topics = vec![
        TopicMetadata {
            name: "__consumer_offsets".to_string(),
            partitions: vec![PartitionMetadata { id: 0, leader: 1, replicas: vec![1, 2], isr: vec![1] }],
        },
        TopicMetadata {
            name: "orders".to_string(),
            partitions: vec![
                PartitionMetadata { id: 0, leader: -1, replicas: vec![1, 2, 3], isr: vec![] },
                PartitionMetadata { id: 1, leader: 2, replicas: vec![2], isr: vec![2] },
            ],
        },
    ];
    let out = AdminCollector::new().parse_metadata(&brokers, &topics);
    assert_eq!(out.cluster.broker_count, 1);
    assert_eq!(out.cluster.topic_count, 2);
    assert_eq!(out.cluster.partition_count, 3);
    assert!(out.topics[0].is_internal);
    assert_eq!(out.topics[0].replication_factor, 2);
    assert!(!out.topics[1].is_internal);
    assert_eq!(out.topics[1].replication_factor, 3);
    assert_eq!(out.topics[1].partitions[0].leader, None);
    assert_eq!(out.topics[1].partitions[1].leader, Some(2));
    assert_eq!(out.brokers[0].rack, None);
}

#[test]
fn sensitive_topics_are_renamed_when_redacting() {
    let out = || AdminCollectorOutput {
        cluster: ClusterInfo { cluster_id: None, controller_id: None, broker_count: 0, topic_count: 2, partition_count: 0 },
        brokers: Vec::new(),
        topics: vec![
            TopicInfo { name: "db-password".to_string(), partitions: Vec::new(), replication_factor: 1, is_internal: false },
            TopicInfo { name: "orders".to_string(), partitions: Vec::new(), replication_factor: 1, is_internal: false },
        ],
    };
    let r = AdminCollector::new().with_redaction(true).redact(out());
    assert_eq!(r.topics[0].name, "REDACTED_11");
    assert_eq!(r.topics[1].name, "orders");
    let r = AdminCollector::new().redact(out());
    assert_eq!(r.topics[0].name, "db-password");
}

#[test]
fn join_with_separator() {
    assert_eq!(join_strings(&vec!["a".to_string(), "b".to_string(), "c".to_string()], ", "), "a, b, c");
    assert_eq!(join_strings(&Vec::new(), ","), "");
}

#[test]
fn log_lines_split_in_four() {
    let c = LogCollector::new();
    let e = c.parse_log_line("2024-01-01T00:00:00 warn kafka.server Broker is slow to respond");
    assert_eq!(e.timestamp, "2024-01-01T00:00:00");
    assert_eq!(e.level, LogLevel::Warn);
    assert_eq!(e.source, "kafka.server");
    assert_eq!(e.message, "Broker is slow to respond");
    let e = c.parse_log_line("short ERROR line");
    assert_eq!(e.level, LogLevel::Info);
    assert_eq!(e.message, "short ERROR line");
    assert_eq!(c.parse_log_level("warning"), LogLevel::Warn);
    assert_eq!(c.parse_log_level("Fatal"), LogLevel::Fatal);
    assert_eq!(c.parse_log_level("verbose"), LogLevel::Info);
}

#[test]
fn selection_keeps_matching_lines_up_to_the_limit() {
    let c = LogCollector::new().with_patterns(vec!["ERROR".to_string()]).with_max_lines(2);
    let lines: Vec<String> = vec!["a ERROR x y", "b INFO x y", "c ERROR x y", "d ERROR x y"].into_iter().map(String::from).collect();
    let es = c.select_entries(&lines);
    let ts: Vec<&str> = es.iter().map(|e| e.timestamp.as_str()).collect();
    assert_eq!(ts, vec!["a", "c"]);
    assert!(c.matches_pattern("an ERROR"));
    assert!(!c.matches_pattern("an error"));
}

#[test]
fn paths_prefer_the_collection_then_the_collector() {
    let c = LogCollector::new();
    let config = LogConfig { kafka_config: KafkaConfig::default_config(), log_paths: Vec::new(), remote_logs: None };
    assert_eq!(c.paths_to_read(&config), LogCollector::default_log_paths());
    let c = c.with_paths(vec!["/x.log".to_string()]);
    assert_eq!(c.paths_to_read(&config), vec!["/x.log".to_string()]);
    let config = LogConfig { kafka_config: KafkaConfig::default_config(), log_paths: vec!["/y.log".to_string()], remote_logs: None };
    assert_eq!(c.paths_to_read(&config), vec!["/y.log".to_string()]);
}

#[test]
fn summary_counts_levels_and_patterns() {
    let c = LogCollector::new().with_patterns(vec!["ERROR".to_string(), "Timeout".to_string()]);
    let files = vec![
        (
            "/a.log".to_string(),
            vec![
                entry("t1", LogLevel::Error, "first", "t1 ERROR Timeout first"),
                entry("t2", LogLevel::Warn, "second", "t2 WARN Timeout second"),
                entry("t3", LogLevel::Fatal, "third", "t3 FATAL ERROR third"),
            ],
        ),
        ("/b.log".to_string(), Vec::new()),
    ];
    let s = c.summarize(&files);
    assert_eq!(s.total_entries, 3);
    assert_eq!(s.error_count, 2);
    assert_eq!(s.warn_count, 1);
    assert_eq!(s.files_processed, 1);
    assert_eq!(s.patterns_matched, vec![("ERROR".to_string(), 2), ("Timeout".to_string(), 2)]);
    assert_eq!(s.top_errors.len(), 2);
    assert_eq!(s.top_errors[0].pattern, "ERROR");
    assert_eq!(s.top_errors[0].first_occurrence, "t1");
    assert_eq!(s.top_errors[0].last_occurrence, "t3");
    assert_eq!(s.top_errors[0].sample_message, "first");
    assert_eq!(s.top_errors[1].pattern, "Timeout");
    assert_eq!(s.top_errors[1].last_occurrence, "t2");
}
