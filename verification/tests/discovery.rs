use kcpilot::collector::{
    count_described_topics, count_kafkactl_topics, count_listed_topics, kafkactl_topic_names, usable_content,
    BastionCollector, BrokerCollector,
};
use kcpilot::discovery::{
    check_kafkactl_availability, fallback_installation_paths, hostname_of, installation_path_from_ps,
    installation_path_from_systemctl, parse_kafkactl_brokers, parse_listed_brokers, parse_metadata_shell_broker_line,
    probe_found_tools,
};
use kcpilot::scan::BrokerInfo;

fn broker_collector() -> BrokerCollector {
    BrokerCollector::new(None, BrokerInfo::with_inferred_datacenter(11, "kafka-poz-1".to_string()), "/tmp/out".to_string())
}

#[test]
fn kafkactl_brokers_need_id_and_address() {
    let yaml = "brokers:\n  - id: 11\n    address: \"kafka-a.example:9092\"\n    rack: r1\n  - id: 12\n  - id: 13\n    address: kafka-c.example:9093\n";
    let bs = parse_kafkactl_brokers(yaml);
    let got: Vec<(i32, &str)> = bs.iter().map(|b| (b.id, b.hostname.as_str())).collect();
    assert_eq!(got, vec![(11, "kafka-a.example"), (13, "kafka-c.example")]);
}

#[test]
fn listed_brokers_are_numbered_in_order() {
    let bs = parse_listed_brokers("host-a:9092\n\nnot a broker\nhost-b:9092 (id: 2)\n");
    let got: Vec<(i32, &str)> = bs.iter().map(|b| (b.id, b.hostname.as_str())).collect();
    assert_eq!(got, vec![(0, "host-a"), (1, "host-b")]);
    assert_eq!(hostname_of("kafka1:9092"), "kafka1");
    assert_eq!(hostname_of("kafka1"), "kafka1");
}

#[test]
fn metadata_shell_lines_need_broker_and_colon() {
    assert!(parse_metadata_shell_broker_line("nothing here").is_none());
    assert!(parse_metadata_shell_broker_line("Broker").is_none());
}

#[test]
fn kafkactl_availability_needs_output() {
    assert!(check_kafkactl_availability(Some("/usr/local/bin/kafkactl\n")));
    assert!(!check_kafkactl_availability(Some("  \n")));
    assert!(!check_kafkactl_availability(None));
    let c = BastionCollector::new(None, "/tmp/out".to_string());
    assert!(c.check_kafkactl_availability(Some("/bin/kafkactl")));
}

#[test]
fn installation_path_from_probes() {
    assert_eq!(installation_path_from_systemctl("  /opt/kafka \n"), Some("/opt/kafka/bin".to_string()));
    assert_eq!(installation_path_from_systemctl("kafka"), None);
    assert_eq!(installation_path_from_systemctl(""), None);
    let ps = "kafka 1 0 0 java -cp /opt/kafka/bin/../libs/kafka_2.13.jar:/x.jar kafka.Kafka server.properties";
    assert_eq!(installation_path_from_ps(ps), Some("/opt/kafka/bin/../bin".to_string()));
    let ps = "kafka 1 java -cp /opt/kafka/bin/libs/kafka.jar kafka.Kafka";
    assert_eq!(installation_path_from_ps(ps), Some("/opt/kafka/bin".to_string()));
    let ps = "java -Dkafka.logs.dir=/opt/kafka/bin/../logs -cp /x.jar kafka.Kafka";
    assert_eq!(installation_path_from_ps(ps), Some("/opt/kafka/bin".to_string()));
    let ps = "java -Dkafka.logs.dir=/srv/kafka/logs kafka.Kafka";
    assert_eq!(installation_path_from_ps(ps), Some("/srv/kafka/bin".to_string()));
    assert_eq!(installation_path_from_ps("java kafka.Kafka"), None);
    assert_eq!(fallback_installation_paths(), vec!["/opt/kafka/bin", "/usr/local/kafka/bin", "/home/kafka/kafka/bin"]);
    assert!(probe_found_tools(" EXISTS\n"));
    assert!(!probe_found_tools("missing"));
}

#[test]
fn broker_reads_its_unit_and_process() {
    let c = broker_collector();
    let unit = "[Service]\nExecStartPre=/bin/true\nExecStart=/opt/kafka/bin/kafka-server-start.sh /opt/kafka/config/server.properties\n";
    assert_eq!(c.installation_path_from_service(unit), Some("/opt/kafka/bin".to_string()));
    assert_eq!(c.installation_path_from_service("ExecStart=/usr/bin/java"), None);
    let ps = "kafka 1 java -cp /opt/kafka/bin/../libs/kafka.jar kafka.Kafka";
    assert_eq!(c.installation_path_from_ps(ps), Some("/opt/kafka/bin/../bin".to_string()));
    let ps = "kafka 1 /srv/kafka/bin/kafka-server-start.sh /srv/kafka/config/server.properties";
    assert_eq!(c.installation_path_from_ps(ps), Some("/srv/kafka/bin".to_string()));
    assert_eq!(c.installation_path_from_ps(""), None);
}

#[test]
fn broker_process_fields() {
    let c = broker_collector();
    let ps = "kafka 4242 1.0 2.0 1 2 ? Sl 10:00 1:00 java -Dlog4j.configuration=file:/etc/kafka/log4j.properties kafka.Kafka /etc/kafka/server.properties";
    assert_eq!(c.extract_pid_from_ps_output(ps), Some("4242".to_string()));
    assert_eq!(c.extract_config_from_process(ps), Some("/etc/kafka/server.properties".to_string()));
    let (props, log4j) = c.runtime_config_files(ps).unwrap();
    assert_eq!(props, Some("/etc/kafka/server.properties".to_string()));
    assert_eq!(log4j, vec![("log4j.properties".to_string(), "/etc/kafka/log4j.properties".to_string())]);
    let (_, log4j) = c.runtime_config_files("java -Dlog4j2.configurationFile=/etc/kafka/log4j2.xml").unwrap();
    assert_eq!(log4j, vec![("log4j2.xml".to_string(), "/etc/kafka/log4j2.xml".to_string())]);
    assert!(c.runtime_config_files("").is_none());
    let over = "java kafka.Kafka --override config.file=/etc/k.properties";
    assert_eq!(c.extract_config_from_process(over), Some("/etc/k.properties".to_string()));
}

#[test]
fn broker_systemd_fields() {
    let c = broker_collector();
    let status = "● kafka.service - Kafka\n   Loaded: loaded (/etc/systemd/system/kafka.service; enabled; vendor preset: enabled)\n";
    assert_eq!(c.extract_service_name_from_systemctl(status), Some("kafka.service".to_string()));
    assert_eq!(c.extract_service_name_from_systemctl("Active: active"), None);
    let unit = "[Service]\n  EnvironmentFile=\"/etc/default/kafka\"\n";
    assert_eq!(c.extract_environment_file_from_service(unit), Some("/etc/default/kafka".to_string()));
    assert!(usable_content("broker.id=1"));
    assert!(!usable_content(""));
    assert!(!usable_content("cat: /x: No such file or directory"));
}

#[test]
fn topic_listings_are_counted() {
    let describe = "Topic: a\tPartitionCount: 1\n\tTopic: a Partition: 0\nTopic: b\n";
    assert_eq!(count_described_topics(describe), 2);
    assert_eq!(count_listed_topics("a\n\n  \nb\n"), 2);
    let yaml = "- name: orders\n  partitions: 3\n- name: \"payments\"\n- name:\n";
    assert_eq!(count_kafkactl_topics(yaml), 3);
    assert_eq!(kafkactl_topic_names(yaml), vec!["orders".to_string(), "payments".to_string()]);
}
