use kcpilot::bastion_collection::{BastionAction, BastionCollection};
use kcpilot::collector::BastionCollector;
use kcpilot::scan::DiscoveryMethod;

/// Runs the collection, answering each command from `answer`; returns the commands with
/// where their output is saved, and the writes.
fn drive(
    plan: &mut BastionCollection,
    answer: &dyn Fn(&str) -> Option<String>,
) -> (Vec<(String, Option<String>)>, Vec<(String, String)>) {
    let mut runs = Vec::new();
    let mut writes = Vec::new();
    while let Some(action) = plan.action() {
        match action {
            BastionAction::Run { command, save } => {
                let out = answer(&command);
                runs.push((command, save));
                plan.advance(out.as_deref());
            }
            BastionAction::Write { path, text } => {
                writes.push((path, text));
                plan.advance(None);
            }
        }
    }
    (runs, writes)
}

#[test]
fn kafkactl_collection_describes_each_topic() {
    let collector = BastionCollector::new(None, "out".to_string());
    let mut plan = BastionCollection::new(&collector);
    let answer = |c: &str| -> Option<String> {
        match c {
            "which kafkactl" => Some("/usr/bin/kafkactl\n".to_string()),
            "kafkactl get topics -o yaml" => Some("topics:\n- name: orders\n- name: \"payments\"\n".to_string()),
            "kafkactl describe topic orders -o yaml" => Some("name: orders".to_string()),
            "kafkactl describe topic payments -o yaml" => None,
            "kafkactl describe broker 12 -o yaml" => Some("id: 12".to_string()),
            "curl -s http://localhost:9308/metrics" => None,
            "hostname -f" => Some("bastion.example".to_string()),
            _ => None,
        }
    };
    let (runs, writes) = drive(&mut plan, &answer);
    let commands: Vec<&str> = runs.iter().map(|(c, _)| c.as_str()).collect();
    assert_eq!(
        commands,
        vec![
            "which kafkactl",
            "kafkactl get brokers -o yaml",
            "kafkactl get topics -o yaml",
            "kafkactl describe topic orders -o yaml",
            "kafkactl describe topic payments -o yaml",
            "kafkactl get consumer-groups -o yaml",
            "kafkactl describe broker 11 -o yaml",
            "kafkactl describe broker 12 -o yaml",
            "kafkactl describe broker 13 -o yaml",
            "kafkactl describe broker 14 -o yaml",
            "kafkactl describe broker 15 -o yaml",
            "kafkactl describe broker 16 -o yaml",
            "curl -s http://localhost:9308/metrics",
            "hostname -f",
            "uptime",
            "free -h",
            "df -h",
            "ps aux | grep -E 'kafka|zookeeper' | grep -v grep",
            "lscpu 2>/dev/null",
            "cat /proc/cpuinfo 2>/dev/null",
        ]
    );
    assert_eq!(runs[7].1.as_deref(), Some("cluster/kafkactl/broker_12_config.yaml"));
    assert_eq!(runs[13].1.as_deref(), Some("system/bastion/hostname.txt"));
    assert_eq!(
        writes,
        vec![("cluster/kafkactl/topics_detailed.yaml".to_string(), "---\n# Topic: orders\nname: orders\n\n".to_string())]
    );
    let data = plan.finish();
    assert_eq!(data.kafkactl_data.get("broker_12_config").map(|s| s.as_str()), Some("id: 12"));
    assert!(data.kafkactl_data.get("broker_11_config").is_none());
    assert_eq!(
        data.kafkactl_data.get("topics_detailed").map(|s| s.as_str()),
        Some("---\n# Topic: orders\nname: orders\n\n")
    );
    assert!(data.metrics.is_none());
    assert_eq!(data.bastion_info.get("hostname").map(|s| s.as_str()), Some("bastion.example"));
    assert_eq!(data.bastion_info.len(), 1);
}

#[test]
fn missing_kafkactl_is_noted_and_skipped() {
    let collector = BastionCollector::new(Some("bastion".to_string()), "out".to_string());
    let mut plan = BastionCollection::new(&collector);
    let answer = |c: &str| -> Option<String> {
        if c == "which kafkactl" {
            Some("  \n".to_string())
        } else if c == "curl -s http://localhost:9308/metrics" {
            Some("kafka_brokers 3\n".to_string())
        } else {
            None
        }
    };
    let (runs, writes) = drive(&mut plan, &answer);
    assert_eq!(runs[1].0, "curl -s http://localhost:9308/metrics");
    assert_eq!(
        writes,
        vec![(
            "cluster/kafkactl/unavailable.txt".to_string(),
            "kafkactl tool was not available on the bastion host during scan".to_string()
        )]
    );
    let data = plan.finish();
    assert_eq!(data.metrics.as_deref(), Some("kafka_brokers 3\n"));
    assert_eq!(data.kafkactl_data.len(), 0);
}

#[test]
fn installation_tools_describe_topics_through_the_discovery_broker() {
    let collector = BastionCollector::new(None, "out".to_string()).with_discovery_method(DiscoveryMethod::KafkaTools {
        kafka_installation_path: "/opt/kafka/bin".to_string(),
        discovery_broker: "k1:9092".to_string(),
    });
    let mut plan = BastionCollection::new(&collector);
    let answer = |c: &str| -> Option<String> {
        if c == "which kafkactl" {
            Some("/usr/bin/kafkactl".to_string())
        } else if c.contains("--describe") {
            Some("Topic: orders\tPartitionCount: 3\n".to_string())
        } else {
            None
        }
    };
    let (runs, _) = drive(&mut plan, &answer);
    assert_eq!(
        runs[2],
        (
            "ssh -o StrictHostKeyChecking=no k1 '/opt/kafka/bin/kafka-topics.sh --bootstrap-server localhost:9092 --describe'"
                .to_string(),
            Some("cluster/tools/topics_kafka_tools.txt".to_string())
        )
    );
    assert_eq!(
        runs[3].0,
        "ssh -o StrictHostKeyChecking=no k1 '/opt/kafka/bin/kafka-topics.sh --bootstrap-server localhost:9092 --list'"
    );
    assert_eq!(runs[4].0, "kafkactl get consumer-groups -o yaml");
    let data = plan.finish();
    assert!(data.kafkactl_data.get("topics_kafka_tools").is_some());
    assert!(data.kafkactl_data.get("topics_list").is_none());
}
