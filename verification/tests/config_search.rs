use kcpilot::config_search::ConfigSearch;

#[test]
fn search_tries_every_find_root_then_standard_paths() {
    let mut s = ConfigSearch::start(false, true, true);
    let mut commands = Vec::new();
    while let Some(c) = s.command() {
        commands.push(c);
        assert!(s.advance(None).is_none());
    }
    assert_eq!(
        commands,
        vec![
            "find /etc -name 'server.properties' 2>/dev/null | head -1",
            "find /opt -name 'server.properties' 2>/dev/null | head -1",
            "find /usr -name 'server.properties' 2>/dev/null | head -1",
            "find /home -name 'server.properties' 2>/dev/null | head -1",
            "cat /etc/kafka/server.properties 2>/dev/null",
            "cat /opt/kafka/config/server.properties 2>/dev/null",
            "cat /usr/local/kafka/config/server.properties 2>/dev/null",
            "cat /usr/hdp/current/kafka-broker/conf/server.properties 2>/dev/null",
            "cat /opt/confluent/etc/kafka/server.properties 2>/dev/null",
        ]
    );
}

#[test]
fn found_properties_are_read_and_recorded() {
    let mut s = ConfigSearch::start(false, true, true);
    assert!(s.advance(Some("")).is_none());
    assert!(s.advance(Some("  /opt/kafka/config/server.properties\n")).is_none());
    assert_eq!(s.command().as_deref(), Some("sudo cat '/opt/kafka/config/server.properties' 2>/dev/null"));
    let f = s.advance(Some("broker.id=1\n")).expect("a file");
    assert_eq!(f.file, "server.properties");
    assert_eq!(f.content, "broker.id=1\n");
    assert_eq!(f.source_key, "server_properties_source");
    assert_eq!(f.source, "fallback_find:/opt/kafka/config/server.properties");
    assert_eq!(s.command(), None);
}

#[test]
fn unreadable_found_file_moves_to_the_next_root() {
    let mut s = ConfigSearch::start(false, true, true);
    assert!(s.advance(Some("/etc/kafka/server.properties")).is_none());
    assert!(s.advance(Some("cat: /etc/kafka/server.properties: No such file or directory")).is_none());
    assert_eq!(s.command().as_deref(), Some("find /opt -name 'server.properties' 2>/dev/null | head -1"));
}

#[test]
fn standard_location_is_recorded_as_such() {
    let mut s = ConfigSearch::start(false, true, true);
    for _ in 0..4 {
        assert!(s.advance(Some("")).is_none());
    }
    assert!(s.advance(None).is_none());
    let f = s.advance(Some("log.dirs=/data")).expect("a file");
    assert_eq!(f.source_key, "config_source");
    assert_eq!(f.source, "standard:/opt/kafka/config/server.properties");
}

#[test]
fn log4j_search_skips_the_unexpanded_glob() {
    let mut s = ConfigSearch::start(true, false, true);
    assert_eq!(s.command().as_deref(), Some("find /etc -name 'log4j*.properties' 2>/dev/null | head -1"));
    assert!(s.advance(Some("log4j*.properties")).is_none());
    assert_eq!(s.command().as_deref(), Some("find /opt -name 'log4j*.properties' 2>/dev/null | head -1"));
    assert!(s.advance(Some("/opt/kafka/config/log4j.properties")).is_none());
    let f = s.advance(Some("log4j.rootLogger=INFO")).expect("a file");
    assert_eq!(f.file, "log4j.properties");
    assert_eq!(f.source, "fallback_find:/opt/kafka/config/log4j.properties");
    assert_eq!(s.command(), None);
}

#[test]
fn unit_search_walks_names_and_directories() {
    let mut s = ConfigSearch::start(true, true, false);
    assert_eq!(s.command().as_deref(), Some("sudo cat '/etc/systemd/system/kafka' 2>/dev/null"));
    assert!(s.advance(Some("")).is_none());
    assert_eq!(s.command().as_deref(), Some("sudo cat '/lib/systemd/system/kafka' 2>/dev/null"));
    assert!(s.advance(None).is_none());
    assert!(s.advance(None).is_none());
    assert_eq!(s.command().as_deref(), Some("sudo cat '/etc/systemd/system/kafka.service' 2>/dev/null"));
    let f = s.advance(Some("[Unit]\nDescription=Kafka")).expect("a file");
    assert_eq!(f.file, "kafka.service");
    assert_eq!(f.source_key, "kafka_service_source");
    assert_eq!(f.source, "fallback_standard:/etc/systemd/system/kafka.service");
    assert_eq!(s.command(), None);
}

#[test]
fn nothing_to_search_when_the_process_gave_everything() {
    let s = ConfigSearch::start(true, true, true);
    assert_eq!(s.command(), None);
}
