use kcpilot::log_chain::{ChainCommand, ChainStage, LogChain};

fn run_command(chain: &LogChain) -> String {
    match chain.command() {
        Some(ChainCommand::Run(c)) => c,
        other => panic!("expected a command to run, got {}", other.is_some()),
    }
}

#[test]
fn chain_follows_process_unit_log4j_and_logs() {
    let mut chain = LogChain::new();
    assert_eq!(run_command(&chain), "ps aux | grep -E 'java.*kafka\\.Kafka[^a-zA-Z]' | grep -v grep");
    chain.take_output(Ok(
        "kafka 1234 0.0 1.0 100 200 ? Ssl 10:00 0:01 java -Dlog4j.configuration=file:/etc/kafka/log4j.properties kafka.Kafka /etc/kafka/server.properties\n"
            .to_string(),
    ));
    assert!(matches!(chain.stage, ChainStage::UnitOfPid));
    assert_eq!(run_command(&chain), "systemctl status 1234 2>/dev/null");
    chain.take_output(Ok("● kafka.service - Apache Kafka\n   Loaded: loaded\n".to_string()));
    assert_eq!(run_command(&chain), "systemctl cat kafka.service 2>/dev/null");
    chain.take_output(Ok(
        "[Service]\nEnvironmentFile=/etc/default/kafka\nEnvironment=LOG_DIR=/var/log/kafka\nExecStart=/opt/kafka/bin/kafka-server-start.sh\n"
            .to_string(),
    ));
    assert_eq!(run_command(&chain), "sudo cat '/etc/default/kafka' 2>/dev/null");
    chain.take_output(Ok("KAFKA_HEAP_OPTS=-Xmx1G\n".to_string()));
    assert_eq!(run_command(&chain), "sudo cat '/etc/kafka/log4j.properties' 2>/dev/null");
    let log4j = "log4j.appender.kafkaAppender.File=${LOG_DIR}/server.log\nlog4j.appender.stdout=org.apache.log4j.ConsoleAppender\n";
    chain.take_output(Ok(log4j.to_string()));
    match chain.command() {
        Some(ChainCommand::AskModel(prompt)) => {
            assert!(prompt.contains(log4j));
            assert!(prompt.contains("LOG_DIR=/var/log/kafka"));
        }
        _ => panic!("expected the model to be asked"),
    }
    chain.take_answer(None);
    assert_eq!(run_command(&chain), "sudo tail -500 '/var/log/kafka/server.log' 2>/dev/null");
    chain.take_output(Ok("[2024] INFO started\n".to_string()));
    assert_eq!(run_command(&chain), "journalctl -u kafka.service -n 500 --no-pager 2>/dev/null");
    chain.take_output(Ok("journal line\n".to_string()));
    assert!(chain.command().is_none());
    let result = chain.finish();
    assert_eq!(result.discovered_logs.len(), 2);
    assert_eq!(
        result.discovered_logs.get("server_server.log").map(|s| s.as_str()),
        Some("[2024] INFO started\n")
    );
    assert!(result.discovered_logs.get("journald_service_logs").is_some());
    assert_eq!(
        result.discovery_steps,
        vec![
            "Found Kafka Java process via ps aux",
            "Retrieved systemd service: kafka.service",
            "Parsed systemd service configuration",
            "Analyzed log4j for log destinations",
            "Collected logs from 2 sources",
        ]
    );
    assert!(result.warnings.is_empty());
    let unit = result.systemd_info.expect("unit");
    assert_eq!(unit.environment_vars.get("KAFKA_HEAP_OPTS").map(|s| s.as_str()), Some("-Xmx1G"));
    assert_eq!(unit.environment_vars.get("LOG_DIR").map(|s| s.as_str()), Some("/var/log/kafka"));
}

#[test]
fn chain_stops_when_the_process_cannot_be_searched() {
    let mut chain = LogChain::new();
    chain.take_output(Err("Failed to execute via SSH: ps".to_string()));
    assert!(chain.command().is_none());
    let result = chain.finish();
    assert_eq!(
        result.warnings,
        vec!["Failed to find Kafka Java process: Failed to execute via SSH: ps", "Falling back to basic discovery methods"]
    );
    assert!(result.process_info.is_none());
}

#[test]
fn chain_tries_every_pattern_then_lists_java() {
    let mut chain = LogChain::new();
    for _ in 0..5 {
        chain.take_output(Ok("   \n".to_string()));
    }
    assert_eq!(run_command(&chain), "ps aux | grep java | grep -v grep");
    chain.take_output(Ok("someone 1 java -jar other.jar\n".to_string()));
    let result = chain.finish();
    assert_eq!(
        result.warnings[0],
        "Failed to find Kafka Java process: No Kafka Java process found after trying all patterns"
    );
}

#[test]
fn chain_reports_a_process_outside_systemd() {
    let mut chain = LogChain::new();
    chain.take_output(Ok("kafka 77 0 0 0 0 ? S 10:00 0:01 java kafka.Kafka\n".to_string()));
    chain.take_output(Ok("".to_string()));
    let result = chain.finish();
    assert_eq!(result.warnings[0], "Failed to get systemd service information: Process 77 is not managed by systemd");
    assert_eq!(result.process_info.map(|p| p.pid), Some(77));
}

#[test]
fn chain_without_log4j_path_stops_after_the_unit() {
    let mut chain = LogChain::new();
    chain.take_output(Ok("kafka 77 0 0 0 0 ? S 10:00 0:01 java kafka.Kafka\n".to_string()));
    chain.take_output(Ok("● kafka.service - Kafka\n".to_string()));
    chain.take_output(Ok("[Service]\nExecStart=/opt/kafka/bin/kafka-server-start.sh\n".to_string()));
    assert!(chain.command().is_none());
    let result = chain.finish();
    assert_eq!(result.warnings, vec!["No log4j configuration path found", "Falling back to basic discovery methods"]);
    assert!(result.systemd_info.is_some());
}

#[test]
fn ps_lines_cut_inside_a_character_are_flagged_before_reading() {
    let chain = LogChain::new();
    assert!(chain.reading_fails_hard("u  1 a b c d e f g \u{e9} x"));
    assert!(!chain.reading_fails_hard("kafka 77 0 0 0 0 ? S 10:00 0:01 java kafka.Kafka"));
}
