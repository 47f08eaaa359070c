use kcpilot::json::JsonValue;
use kcpilot::log_sources::{LlmLogAnalyzer, Log4jParser};
use kcpilot::process_info::{ProcessParseError, ProcessParser, SystemdParseError, SystemdParser};
use kcpilot::strmap::StrMap;

const PS_LINE: &str = "kafka 1234 2.1 8.5 6543210 876543 ? Sl Jan01 120:00 java -Xmx1G -Dlog4j.configuration=file:/opt/kafka/config/log4j.properties kafka.Kafka /opt/kafka/config/server.properties";

#[test]
fn process_line_gives_pid_command_and_paths() {
    let info = ProcessParser::parse_process_info(PS_LINE).expect("a kafka ps line parses");
    assert_eq!(info.pid, 1234);
    assert!(info.command_line.starts_with(" java -Xmx1G"));
    assert_eq!(
        info.config_paths,
        vec![
            "-Dlog4j.configuration=file:/opt/kafka/config/log4j.properties".to_string(),
            "/opt/kafka/config/server.properties".to_string()
        ]
    );
    assert_eq!(info.log4j_path, Some("/opt/kafka/config/log4j.properties".to_string()));
    assert!(info.service_name.is_none());
    assert_eq!(info.environment_vars.len(), 0);
}

#[test]
fn process_errors_are_told_apart() {
    assert_eq!(ProcessParser::parse_process_info("").err(), Some(ProcessParseError::EmptyOutput));
    assert_eq!(ProcessParser::parse_process_info("kafka 1234 java").err(), Some(ProcessParseError::InvalidFormat));
    let bad_pid = "kafka abc 2.1 8.5 1 2 ? Sl Jan01 1:00 java kafka.Kafka";
    assert_eq!(ProcessParser::parse_process_info(bad_pid).err(), Some(ProcessParseError::InvalidPid));
}

#[test]
fn log4j2_configuration_file_is_found() {
    let cmd = "java -Dlog4j2.configurationFile=/etc/kafka/log4j2.yaml kafka.Kafka";
    assert_eq!(ProcessParser::extract_log4j_path(cmd), Some("/etc/kafka/log4j2.yaml".to_string()));
    assert_eq!(ProcessParser::extract_log4j_path("java kafka.Kafka"), None);
    assert_eq!(ProcessParser::extract_config_paths("java a.conf b.txt c.properties"), vec!["a.conf".to_string(), "c.properties".to_string()]);
}

#[test]
fn systemd_status_gives_unit_name() {
    let status = "● kafka.service - Apache Kafka Server\n   Loaded: loaded";
    assert_eq!(SystemdParser::extract_service_name(status), Ok("kafka.service".to_string()));
    assert_eq!(SystemdParser::extract_service_name(""), Err(SystemdParseError::EmptyStatus));
    assert_eq!(SystemdParser::extract_service_name("kafka.service running"), Err(SystemdParseError::ServiceNameNotFound));
}

#[test]
fn systemd_unit_content_gives_environment() {
    let content = "[Service]\nEnvironmentFile=\"/etc/default/kafka\"\nEnvironment=KAFKA_HEAP_OPTS=\"-Xmx2G\"\nExecStart=/opt/kafka/bin/kafka-server-start.sh /opt/kafka/config/server.properties\n";
    let (env_file, vars, exec_start) = SystemdParser::parse_service_content(content);
    assert_eq!(env_file, Some("/etc/default/kafka".to_string()));
    assert_eq!(vars.get("KAFKA_HEAP_OPTS"), Some(&"-Xmx2G".to_string()));
    assert_eq!(exec_start, Some("/opt/kafka/bin/kafka-server-start.sh /opt/kafka/config/server.properties".to_string()));
}

#[test]
fn environment_file_skips_comments() {
    let content = "# comment\n\nLOG_DIR='/var/log/kafka'\nKAFKA_OPTS = \"-Dx=1\"\n";
    let vars = SystemdParser::parse_environment_file(content);
    assert_eq!(vars.len(), 2);
    assert_eq!(vars.get("LOG_DIR"), Some(&"/var/log/kafka".to_string()));
    assert_eq!(vars.get("KAFKA_OPTS"), Some(&" \"-Dx=1".to_string()));
}

#[test]
fn log4j_file_appenders_are_located() {
    let mut env = StrMap::new();
    env.insert("LOG_DIR".to_string(), "/data/logs".to_string());
    let content = "log4j.appender.kafkaAppender.File=${LOG_DIR}/server.log\nlog4j.appender.stdout=org.apache.log4j.ConsoleAppender\nlog4j.appender.controllerAppender.File=${kafka.logs.dir}/controller.log\n";
    let info = Log4jParser::parse(content, &env);
    assert_eq!(info.log_files.len(), 2);
    assert_eq!(info.log_files[0].path, "/data/logs/server.log");
    assert_eq!(info.log_files[0].log_type, "server");
    assert_eq!(info.log_files[0].appender_name, "kafkaAppender");
    assert_eq!(info.log_files[1].path, "/opt/kafka/logs/controller.log");
    assert_eq!(info.log_files[1].log_type, "controller");
    assert!(info.uses_stdout);
    assert!(info.uses_journald);
    assert_eq!(info.log4j_analysis, "Basic parsing");
}

#[test]
fn log_types_and_appender_names() {
    assert_eq!(Log4jParser::determine_log_type("/x/state-change.log"), "state-change");
    assert_eq!(Log4jParser::determine_log_type("/x/kafka-request.log"), "request");
    assert_eq!(Log4jParser::determine_log_type("/x/kafkaGc.log"), "custom");
    assert_eq!(Log4jParser::determine_log_type("/x/gc.log"), "gc");
    assert_eq!(Log4jParser::extract_appender_name("log4j2.appender.file.fileName=/x"), "file");
    assert_eq!(Log4jParser::extract_appender_name("rootLogger=INFO"), "detected");
}

#[test]
fn json_is_taken_from_a_code_block_first() {
    let reply = "Here:\n```json\n{\"log_files\": []}\n```\nDone";
    assert_eq!(Log4jParser::extract_json(reply), Some("{\"log_files\": []}".to_string()));
}

#[test]
fn json_falls_back_to_largest_object_then_span() {
    let reply = "a {\"x\": 1} b {\"log_files\": [{\"p\": 2}]} c";
    assert_eq!(Log4jParser::extract_json(reply), Some("{\"log_files\": [{\"p\": 2}]}".to_string()));
    let reply = "a {\"x\": 1} b {\"y\": 2} c";
    assert_eq!(Log4jParser::extract_json(reply), Some("{\"x\": 1} b {\"y\": 2}".to_string()));
    assert_eq!(Log4jParser::extract_json("no braces here"), None);
}

#[test]
fn llm_answer_becomes_log_outputs() {
    let file = JsonValue::Object(vec![
        ("path".to_string(), JsonValue::String("/var/log/kafka/server.log".to_string())),
        ("log_type".to_string(), JsonValue::String("server".to_string())),
        ("appender_name".to_string(), JsonValue::String("kafkaAppender".to_string())),
    ]);
    let incomplete = JsonValue::Object(vec![("path".to_string(), JsonValue::String("/x".to_string()))]);
    let answer = JsonValue::Object(vec![
        ("log_files".to_string(), JsonValue::Array(vec![file, incomplete])),
        ("uses_stdout".to_string(), JsonValue::Bool(true)),
    ]);
    let info = Log4jParser::log_output_from_json(&answer);
    assert_eq!(info.log_files.len(), 1);
    assert_eq!(info.log_files[0].appender_name, "kafkaAppender");
    assert!(info.uses_stdout);
    assert!(!info.uses_journald);
    assert_eq!(info.log4j_analysis, "LLM analysis");
}

#[test]
fn failed_llm_answer_falls_back_to_basic_parsing() {
    let env = StrMap::new();
    let content = "log4j.appender.gcAppender.File=/logs/gc.log\n";
    let info = LlmLogAnalyzer::choose_output(None, content, &env);
    assert_eq!(info.log_files.len(), 1);
    assert_eq!(info.log_files[0].log_type, "gc");
    assert_eq!(info.log4j_analysis, "Basic parsing");
    let prompt = LlmLogAnalyzer::create_analysis_prompt(content, &env);
    assert!(prompt.contains("log4j.appender.gcAppender.File=/logs/gc.log"));
}

#[test]
fn command_starts_at_byte_offset_of_single_spaced_columns() {
    let line = "kafka     1234  2.1  8.5 6543210 876543 ?      Sl   Jan01 120:00 java -Xmx1G kafka.Kafka";
    let info = ProcessParser::parse_process_info(line).expect("eleven columns with a numeric pid");
    assert_eq!(info.command_line, " Jan01 120:00 java -Xmx1G kafka.Kafka");
}
