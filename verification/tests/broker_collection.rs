use kcpilot::broker_collection::{BrokerProbe, DataProbe, ProbeStage};
use kcpilot::collector::BrokerCollector;
use kcpilot::scan::BrokerInfo;

fn probe() -> BrokerProbe {
    let broker = BrokerInfo::with_inferred_datacenter(1, "kafka-1".to_string());
    BrokerProbe::new(BrokerCollector::new(None, broker, "/tmp/out".to_string()))
}

const PS: &str = "kafka 4321 1.0 2.0 100 200 ? Sl 10:00 1:00 java -Dlog4j.configuration=file:/etc/kafka/log4j.properties -cp /opt/kafka/libs/kafka_2.13.jar kafka.Kafka /etc/kafka/server.properties\n";

#[test]
fn installation_comes_from_the_unit_of_the_process() {
    let mut p = probe();
    assert_eq!(p.command().unwrap(), "ps aux | grep -E 'kafka\\.Kafka[^a-zA-Z]' | grep -v grep");
    assert!(p.advance(Some(PS)).is_none());
    assert_eq!(p.command().unwrap(), "systemctl status 4321 2>/dev/null");
    assert!(p.advance(Some("● kafka.service - Kafka\n   Loaded: loaded (/etc/systemd/system/kafka.service; enabled)\n")).is_none());
    assert_eq!(p.command().unwrap(), "systemctl cat kafka.service 2>/dev/null");
    let w = p.advance(Some("[Service]\nExecStart=/opt/kafka/bin/kafka-server-start.sh /etc/kafka/server.properties\n"));
    assert_eq!(w, Some(("system/kafka_installation_path.txt".to_string(), "/opt/kafka/bin".to_string())));
    assert_eq!(p.install_path.as_deref(), Some("/opt/kafka/bin"));
    assert_eq!(p.command().unwrap(), "hostname -f");
}

#[test]
fn probe_reads_the_files_the_process_names() {
    let mut p = probe();
    p.advance(None);
    assert_eq!(p.command().unwrap(), "ps aux | grep kafka.Kafka | grep -v grep");
    p.advance(None);
    for _ in 0..7 {
        p.advance(Some("x"));
    }
    assert_eq!(p.system_info.get("cpu").map(|s| s.as_str()), Some("x"));
    assert_eq!(p.command().unwrap(), "java -version 2>&1");
    assert_eq!(p.advance(Some("openjdk 17")), Some(("system/java_version.txt".to_string(), "openjdk 17".to_string())));
    p.advance(Some(PS));
    assert_eq!(p.command().unwrap(), "pgrep -f 'kafka\\.Kafka' | head -1");
    p.advance(Some(" 4321\n"));
    assert_eq!(p.command().unwrap(), "jstat -gc 4321 2>/dev/null");
    assert_eq!(p.advance(Some("S0C S1C")), Some(("metrics/jstat_gc.txt".to_string(), "S0C S1C".to_string())));
    p.advance(Some(PS));
    assert_eq!(p.command().unwrap(), "sudo cat '/etc/kafka/server.properties' 2>/dev/null");
    let w = p.advance(Some("broker.id=1\n"));
    assert_eq!(w, Some(("configs/server.properties".to_string(), "broker.id=1\n".to_string())));
    assert_eq!(p.configs.get("server_properties_source").map(|s| s.as_str()), Some("enhanced:/etc/kafka/server.properties"));
    assert!(p.have_props);
    assert_eq!(p.command().unwrap(), "sudo cat '/etc/kafka/log4j.properties' 2>/dev/null");
    assert!(p.advance(Some("cat: /etc/kafka/log4j.properties: No such file or directory")).is_none());
    assert!(!p.have_log4j);
    assert_eq!(p.command().unwrap(), "systemctl status 4321 2>/dev/null");
    p.advance(Some("● kafka.service - Kafka\n   Loaded: loaded (/etc/systemd/system/kafka.service; enabled)\n"));
    assert_eq!(p.command().unwrap(), "systemctl cat kafka.service 2>/dev/null");
    let w = p.advance(Some("[Service]\nEnvironmentFile=/etc/default/kafka\n"));
    assert_eq!(w.map(|x| x.0), Some("configs/kafka.service".to_string()));
    assert!(p.have_service);
    p.advance(Some("[Service]\nEnvironmentFile=/etc/default/kafka\n"));
    assert_eq!(p.command().unwrap(), "sudo cat '/etc/default/kafka' 2>/dev/null");
    let w = p.advance(Some("KAFKA_HEAP_OPTS=-Xmx1G\n"));
    assert_eq!(w.map(|x| x.0), Some("configs/kafka.env".to_string()));
    assert_eq!(p.configs.get("kafka_env_source").map(|s| s.as_str()), Some("enhanced:/etc/default/kafka"));
    assert!(matches!(p.stage, ProbeStage::Done));
    assert!(p.command().is_none());
}

#[test]
fn data_probe_measures_each_configured_directory() {
    let mut d = DataProbe::new();
    assert!(d.command().unwrap().starts_with("grep '^log.dirs'"));
    assert_eq!(d.advance(Some(" /data/a, /data/b\n")), Some(("data/log_dirs.txt".to_string(), "/data/a, /data/b".to_string())));
    assert_eq!(d.command().unwrap(), "du -sh /data/a 2>/dev/null");
    assert!(d.advance(Some("1G\t/data/a\n")).is_none());
    assert_eq!(d.command().unwrap(), "du -sh /data/b 2>/dev/null");
    assert_eq!(
        d.advance(None),
        Some(("data/directory_sizes.txt".to_string(), "1G\t/data/a\n".to_string()))
    );
    assert_eq!(d.data_dirs, vec!["/data/a".to_string()]);
    assert!(d.command().unwrap().starts_with("netstat -tuln"));
    assert_eq!(d.advance(Some("tcp 0.0.0.0:9092")), Some(("system/network.txt".to_string(), "tcp 0.0.0.0:9092".to_string())));
    assert_eq!(d.network.as_deref(), Some("tcp 0.0.0.0:9092"));
    assert!(d.command().is_none());
}

#[test]
fn data_probe_without_log_dirs_goes_to_the_network() {
    let mut d = DataProbe::new();
    assert!(d.advance(Some("  \n")).is_none());
    assert!(d.command().unwrap().starts_with("netstat"));
}

#[test]
fn status_without_a_loaded_line_falls_back_to_the_process_line() {
    let mut p = probe();
    assert!(p.advance(Some(PS)).is_none());
    assert!(p.advance(Some("● kafka.service - Kafka\n")).is_none());
    assert_eq!(p.command().unwrap(), "ps aux | grep kafka.Kafka | grep -v grep");
}
