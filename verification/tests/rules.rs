use kcpilot::collectors::{AdminCollectorOutput, BrokerInfo, ClusterInfo, ErrorSummary, LogSummary, PartitionInfo, TopicInfo};
use kcpilot::rules::{
    count_leaders, high_error_rate_rule, isr_shrinkage_rule, leader_imbalance_rule, offline_partitions_rule,
    sort_findings, under_replicated_partitions_rule, AnalyzerError, RuleAnalyzer,
};
use kcpilot::snapshot::{Finding, Severity};

fn partition(id: i32, leader: Option<i32>, replicas: Vec<i32>, isr: Vec<i32>) -> PartitionInfo {
    PartitionInfo { id, leader, replicas, isr, offline_replicas: Vec::new() }
}

fn admin(partitions: Vec<PartitionInfo>) -> AdminCollectorOutput {
    let n = partitions.len();
    AdminCollectorOutput {
        cluster: ClusterInfo { cluster_id: None, controller_id: Some(1), broker_count: 3, topic_count: 1, partition_count: n },
        brokers: vec![
            BrokerInfo { id: 1, host: "b1".to_string(), port: 9092, rack: None },
            BrokerInfo { id: 2, host: "b2".to_string(), port: 9092, rack: None },
        ],
        topics: vec![TopicInfo { name: "orders".to_string(), partitions, replication_factor: 3, is_internal: false }],
    }
}

fn healthy() -> AdminCollectorOutput {
    admin(vec![
        partition(0, Some(1), vec![1, 2, 3], vec![1, 2, 3]),
        partition(1, Some(2), vec![2, 3, 1], vec![2, 3, 1]),
        partition(2, Some(3), vec![3, 1, 2], vec![3, 1, 2]),
    ])
}

fn summary(error_count: usize) -> LogSummary {
    LogSummary {
        total_entries: 100,
        error_count,
        warn_count: 0,
        files_processed: 1,
        patterns_matched: Vec::new(),
        top_errors: vec![ErrorSummary {
            pattern: "ERROR".to_string(),
            count: error_count,
            first_occurrence: "t1".to_string(),
            last_occurrence: "t2".to_string(),
            sample_message: "boom".to_string(),
        }],
    }
}

const TS: &str = "2024-01-01T00:00:00Z";

#[test]
fn missing_admin_data_is_invalid_data() {
    let e = under_replicated_partitions_rule(None, TS).err().unwrap();
    assert_eq!(e, AnalyzerError::InvalidData("No admin data available".to_string()));
    assert_eq!(e.message(), "Invalid data: No admin data available");
    assert!(offline_partitions_rule(None, TS).is_err());
    assert!(isr_shrinkage_rule(None, TS).is_err());
    assert!(leader_imbalance_rule(None, TS).is_err());
}

#[test]
fn healthy_cluster_fires_no_rule() {
    let a = healthy();
    assert!(under_replicated_partitions_rule(Some(&a), TS).unwrap().is_none());
    assert!(offline_partitions_rule(Some(&a), TS).unwrap().is_none());
    assert!(isr_shrinkage_rule(Some(&a), TS).unwrap().is_none());
    assert!(leader_imbalance_rule(Some(&a), TS).unwrap().is_none());
    assert!(RuleAnalyzer::new().analyze(Some(&a), None, TS).is_empty());
}

#[test]
fn under_replicated_partitions_are_counted() {
    let a = admin(vec![
        partition(0, Some(1), vec![1, 2, 3], vec![1, 2]),
        partition(1, Some(2), vec![2, 3, 1], vec![2, 3, 1]),
        partition(2, Some(3), vec![3, 1, 2], vec![3]),
    ]);
    let f = under_replicated_partitions_rule(Some(&a), TS).unwrap().unwrap();
    assert!(f.id.starts_with("FND-001-"));
    assert_eq!(f.id.len(), "FND-001-".len() + 36);
    assert_eq!(f.severity, Severity::High);
    assert_eq!(f.title, "Under-replicated partitions detected: 2 affected");
}

#[test]
fn leaderless_partitions_are_offline() {
    let a = admin(vec![partition(0, None, vec![1, 2], vec![]), partition(1, Some(1), vec![1, 2], vec![1, 2])]);
    let f = offline_partitions_rule(Some(&a), TS).unwrap().unwrap();
    assert!(f.id.starts_with("FND-002-"));
    assert_eq!(f.severity, Severity::Critical);
    assert_eq!(f.title, "Offline partitions detected: 1 affected");
}

#[test]
fn isr_of_one_with_replicas_is_shrinkage() {
    let a = admin(vec![partition(0, Some(1), vec![1, 2], vec![1]), partition(1, Some(1), vec![1], vec![1])]);
    let f = isr_shrinkage_rule(Some(&a), TS).unwrap().unwrap();
    assert!(f.id.starts_with("FND-004-"));
    assert_eq!(f.title, "ISR shrinkage detected: 1 partitions at risk");
}

#[test]
fn leader_imbalance_uses_a_fifth_over_average() {
    // Leaders 1,1,1,2 -> counts {1: 3, 2: 1}, average 2, max 3 > 2.4.
    let a = admin(vec![
        partition(0, Some(1), vec![1], vec![1]),
        partition(1, Some(1), vec![1], vec![1]),
        partition(2, Some(1), vec![1], vec![1]),
        partition(3, Some(2), vec![2], vec![2]),
    ]);
    let f = leader_imbalance_rule(Some(&a), TS).unwrap().unwrap();
    assert!(f.id.starts_with("FND-003-"));
    assert_eq!(f.severity, Severity::Medium);
    assert_eq!(f.title, "Leader distribution imbalance detected");
    // Counts {1: 2, 2: 2}: balanced.
    let b = admin(vec![
        partition(0, Some(1), vec![1], vec![1]),
        partition(1, Some(1), vec![1], vec![1]),
        partition(2, Some(2), vec![2], vec![2]),
        partition(3, Some(2), vec![2], vec![2]),
    ]);
    assert!(leader_imbalance_rule(Some(&b), TS).unwrap().is_none());
}

#[test]
fn leaders_are_counted_in_order_first_seen() {
    assert_eq!(count_leaders(&vec![3, 1, 3, 2, 3]), vec![(3, 3), (1, 1), (2, 1)]);
    assert_eq!(count_leaders(&vec![]), vec![]);
}

#[test]
fn error_rate_threshold_is_ten() {
    assert!(high_error_rate_rule(None, TS).unwrap().is_none());
    assert!(high_error_rate_rule(Some(&summary(9)), TS).unwrap().is_none());
    let f = high_error_rate_rule(Some(&summary(10)), TS).unwrap().unwrap();
    assert!(f.id.starts_with("FND-005-"));
    assert_eq!(f.title, "High error rate in logs: 10 errors found");
    assert_eq!(f.evidence.logs.len(), 1);
    assert_eq!(f.evidence.logs[0].message, "boom");
    assert_eq!(f.evidence.logs[0].level, "ERROR");
}

#[test]
fn analyzer_runs_rules_in_order() {
    let a = admin(vec![partition(0, None, vec![1, 2], vec![1])]);
    let fs = RuleAnalyzer::new().analyze(Some(&a), Some(&summary(50)), TS);
    let prefixes: Vec<String> = fs.iter().map(|f| f.id[..8].to_string()).collect();
    assert_eq!(prefixes, vec!["FND-001-", "FND-002-", "FND-004-", "FND-005-"]);
}

#[test]
fn sorting_is_stable_and_most_serious_first() {
    let mk = |t: &str, s: Severity| {
        let mut f = Finding::blank();
        f.title = t.to_string();
        f.severity = s;
        f
    };
    let sorted = sort_findings(vec![
        mk("a", Severity::Low),
        mk("b", Severity::Critical),
        mk("c", Severity::Low),
        mk("d", Severity::High),
        mk("e", Severity::Critical),
    ]);
    let titles: Vec<&str> = sorted.iter().map(|f| f.title.as_str()).collect();
    assert_eq!(titles, vec!["b", "e", "d", "a", "c"]);
}
