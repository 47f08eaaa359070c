use kcpilot::broker_search::BrokerSearch;
use kcpilot::scan::DiscoveryMethod;

#[test]
fn installation_lists_the_cluster() {
    let mut s = BrokerSearch::new("kafka-dc1-a:9092".to_string());
    let first = s.command().unwrap();
    assert!(first.starts_with("ssh -o StrictHostKeyChecking=no kafka-dc1-a 'pid=$(ps aux | grep -E \"kafka\\.Kafka[^a-zA-Z]\""));
    s.advance(Some("/opt/kafka\n"));
    assert_eq!(
        s.command().unwrap(),
        "ssh -o StrictHostKeyChecking=no kafka-dc1-a '/opt/kafka/bin/kafka-broker-api-versions.sh --bootstrap-server localhost:9092 | awk \"/id/{print \\$1}\"'"
    );
    s.advance(Some("kafka-dc1-a:9092\nkafka-dc2-b:9092\n"));
    assert!(s.command().is_none());
    let got: Vec<(i32, &str, &str)> =
        s.brokers.iter().map(|b| (b.id, b.hostname.as_str(), b.datacenter.as_str())).collect();
    assert_eq!(got, vec![(0, "kafka-dc1-a", "dc1"), (1, "kafka-dc2-b", "dc2")]);
    match s.method {
        Some(DiscoveryMethod::KafkaTools { kafka_installation_path, discovery_broker }) => {
            assert_eq!(kafka_installation_path, "/opt/kafka/bin");
            assert_eq!(discovery_broker, "kafka-dc1-a:9092");
        }
        _ => panic!("expected the kafka tools method"),
    }
}

#[test]
fn usual_installations_are_probed_in_order() {
    let mut s = BrokerSearch::new("k1:9093".to_string());
    s.advance(None);
    assert_eq!(s.command().unwrap(), "ssh -o StrictHostKeyChecking=no k1 'ps aux | grep kafka.Kafka | grep -v grep | head -1'");
    s.advance(Some(""));
    assert_eq!(
        s.command().unwrap(),
        "ssh -o StrictHostKeyChecking=no k1 'test -x /opt/kafka/bin/kafka-broker-api-versions.sh && echo \"EXISTS\"'"
    );
    s.advance(Some(""));
    s.advance(Some(" EXISTS \n"));
    assert!(s.command().unwrap().contains("'/usr/local/kafka/bin/kafka-broker-api-versions.sh"));
}

#[test]
fn bastion_probes_then_tools_then_the_broker_alone() {
    let mut s = BrokerSearch::new("k1:9093".to_string());
    s.advance(None);
    s.advance(None);
    for _ in 0..3 {
        s.advance(None);
    }
    assert_eq!(s.command().unwrap(), "timeout 3 bash -c 'echo > /dev/tcp/k1/9093' 2>/dev/null && echo 'CONNECTED'");
    s.advance(Some(""));
    assert_eq!(s.command().unwrap(), "nslookup k1 >/dev/null 2>&1 && echo 'RESOLVABLE'");
    s.advance(None);
    assert_eq!(s.command().unwrap(), "ping -c 1 -W 3 k1 >/dev/null 2>&1 && echo 'PINGABLE'");
    s.advance(None);
    assert_eq!(
        s.command().unwrap(),
        "kafka-metadata-shell.sh --bootstrap-server k1:9093 --print-brokers 2>/dev/null | grep -E 'broker|Broker' | head -20"
    );
    s.advance(Some("nothing useful\n"));
    assert_eq!(s.command().unwrap(), "kafka-broker-api-versions.sh --bootstrap-server k1:9093 2>/dev/null | head -10");
    s.advance(None);
    assert!(s.command().is_none());
    assert_eq!(s.brokers.len(), 1);
    assert_eq!(s.brokers[0].id, 0);
    assert_eq!(s.brokers[0].hostname, "k1");
    assert!(s.method.is_none());
}

#[test]
fn a_reachable_broker_is_taken_alone() {
    let mut s = BrokerSearch::new("k1:9093".to_string());
    for _ in 0..5 {
        s.advance(None);
    }
    s.advance(Some("CONNECTED\n"));
    assert!(s.command().is_none());
    assert_eq!(s.brokers.len(), 1);
}

#[test]
fn metadata_shell_lists_brokers() {
    let mut s = BrokerSearch::new("k1:9093".to_string());
    for _ in 0..8 {
        s.advance(None);
    }
    s.advance(Some("Broker 11: kafka-a:9092\nBroker 12: kafka-b:9092\n"));
    assert!(s.command().is_none());
    let got: Vec<(i32, &str)> = s.brokers.iter().map(|b| (b.id, b.hostname.as_str())).collect();
    assert_eq!(got, vec![(11, "kafka-a"), (12, "kafka-b")]);
}
