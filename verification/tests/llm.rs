use kcpilot::json::JsonValue;
use kcpilot::llm::{
    api_failure, build_analysis_prompt, build_remediation, default_analyses, logs_user_prompt, parse_severity,
    plain_log_analysis, reply_content, reply_is_json, sends_temperature, symptoms, truncated_logs,
    truncation_fails_hard_exec, AnalysisType, ChatMessage, ConfigRecommendation, LlmServiceError, LogAnalysis,
    GENERIC_PROMPT, LOG_ANALYSIS_PROMPT,
};
use kcpilot::llm_findings::{config_findings, files_setting, log_findings, root_cause_finding};
use kcpilot::snapshot::Category;
use kcpilot::numbers::{decimal_string, i32_string, parse_i32, parse_u32};
use kcpilot::snapshot::{Finding, RiskLevel, Severity};

#[test]
fn analysis_prompt_is_assembled_in_order() {
    let p = build_analysis_prompt("logs", "broker 1 down", Some("no restarts"));
    assert_eq!(
        p,
        format!(
            "{}\n\nContext: broker 1 down\n\nConstraints: no restarts\n\nProvide your analysis in a clear, structured format.",
            LOG_ANALYSIS_PROMPT
        )
    );
    let p = build_analysis_prompt("unknown-kind", "ctx", None);
    assert_eq!(p, format!("{}\n\nContext: ctx\n\nProvide your analysis in a clear, structured format.", GENERIC_PROMPT));
}

#[test]
fn severity_words_default_to_info() {
    assert_eq!(parse_severity("CRITICAL"), Severity::Critical);
    assert_eq!(parse_severity("Medium"), Severity::Medium);
    assert_eq!(parse_severity("sev1"), Severity::Info);
}

#[test]
fn recommendations_become_numbered_manual_steps() {
    let r = build_remediation(&vec!["Add brokers".to_string(), "Rebalance".to_string()]);
    assert_eq!(r.steps.len(), 2);
    assert_eq!(r.steps[0].order, 1);
    assert_eq!(r.steps[1].order, 2);
    assert_eq!(r.steps[1].description, "Rebalance");
    assert!(!r.steps[0].can_automate);
    assert_eq!(r.risk_level, RiskLevel::Medium);
    assert_eq!(r.estimated_duration_minutes, Some(30));
    assert!(!r.requires_downtime);
}

#[test]
fn log_prompts_and_plain_replies() {
    assert_eq!(logs_user_prompt("L", None), "Please analyze these Kafka logs:\nL");
    assert_eq!(logs_user_prompt("L", Some("C")), "Context: C\n\nPlease analyze these Kafka logs:\nL");
    assert!(reply_is_json("  {\"summary\": \"x\"}"));
    assert!(!reply_is_json("Summary: all good"));
    let a = plain_log_analysis("all good");
    assert_eq!(a.summary, "all good");
    assert!(a.issues.is_empty());
    assert_eq!(a.severity, "info");
}

#[test]
fn symptoms_are_serious_titles() {
    let mk = |t: &str, s: Severity| {
        let mut f = Finding::blank();
        f.title = t.to_string();
        f.severity = s;
        f
    };
    let fs = vec![mk("a", Severity::Low), mk("b", Severity::Critical), mk("c", Severity::High), mk("d", Severity::Info)];
    assert_eq!(symptoms(&fs), vec!["b".to_string(), "c".to_string()]);
}

#[test]
fn error_messages_and_chat_messages() {
    assert_eq!(
        LlmServiceError::Timeout(30).message(),
        "Request timeout after 30 seconds. Try increasing timeout with --llm-timeout flag"
    );
    assert_eq!(LlmServiceError::RateLimitExceeded.message(), "Rate limit exceeded");
    assert_eq!(LlmServiceError::ApiError("x".to_string()).message(), "API error: x");
    match ChatMessage::user("hi") {
        ChatMessage::User(c) => assert_eq!(c, "hi"),
        _ => panic!("expected a user message"),
    }
}

#[test]
fn numbers_read_and_print() {
    assert_eq!(parse_i32("-42"), Some(-42));
    assert_eq!(parse_i32("2147483648"), None);
    assert_eq!(parse_i32("12a"), None);
    assert_eq!(parse_u32("4294967295"), Some(4294967295));
    assert_eq!(parse_u32("+7"), Some(7));
    assert_eq!(parse_u32(""), None);
    assert_eq!(decimal_string(0), "0");
    assert_eq!(decimal_string(1234567), "1234567");
    assert_eq!(i32_string(-2147483648), "-2147483648");
}

#[test]
fn chat_request_and_reply_decisions() {
    assert!(!sends_temperature("GPT-4o-mini"));
    assert!(!sends_temperature("gpt-4-turbo-preview"));
    assert!(sends_temperature("gpt-3.5-turbo"));
    assert_eq!(api_failure("429: rate limit reached"), LlmServiceError::RateLimitExceeded);
    assert_eq!(api_failure("bad key"), LlmServiceError::ApiError("bad key".to_string()));
    assert_eq!(reply_content(Some("ok".to_string()), 10), Ok("ok".to_string()));
    assert_eq!(
        reply_content(None, 10),
        Err(LlmServiceError::ParseError("No response content - likely hit token limit".to_string()))
    );
    assert_eq!(
        reply_content(Some(String::new()), 8000),
        Err(LlmServiceError::ParseError(
            "Empty response from model. Token limit may be too low (current: 8000). Try increasing with LLM_MAX_TOKENS env var."
                .to_string()
        ))
    );
    assert_eq!(default_analyses().len(), 4);
    assert_eq!(default_analyses()[3], AnalysisType::ConfigurationOptimization);
}

#[test]
fn long_logs_are_cut_at_the_byte_limit() {
    let short = "x".repeat(10000);
    assert!(!truncation_fails_hard_exec(&short));
    assert_eq!(truncated_logs(&short), short);
    let long = "y".repeat(10001);
    assert_eq!(truncated_logs(&long), format!("{}... [truncated]", "y".repeat(10000)));
    // A two-byte character across the limit: the cut would fall inside it.
    let straddling = format!("{}é{}", "z".repeat(9999), "z".repeat(10));
    assert!(truncation_fails_hard_exec(&straddling));
    let aligned = format!("{}é{}", "z".repeat(9998), "z".repeat(10));
    assert!(!truncation_fails_hard_exec(&aligned));
    assert_eq!(truncated_logs(&aligned), format!("{}é... [truncated]", "z".repeat(9998)));
}

#[test]
fn log_analysis_issues_become_findings() {
    let a = LogAnalysis {
        summary: "Broker 2 flaps".to_string(),
        issues: vec!["ISR shrink".to_string(), "GC pauses".to_string()],
        recommendations: vec!["Tune heap".to_string()],
        severity: "HIGH".to_string(),
    };
    let fs = log_findings(&a, "2024-01-01 00:00:00 UTC");
    assert_eq!(fs.len(), 2);
    assert_eq!(fs[1].id, "LLM-LOG-002");
    assert_eq!(fs[1].severity, Severity::High);
    assert_eq!(fs[1].category, Category::Performance);
    assert_eq!(fs[1].title, "GC pauses");
    assert_eq!(fs[1].description, "Broker 2 flaps");
    assert_eq!(fs[1].evidence.logs[0].timestamp, "2024-01-01 00:00:00 UTC");
    assert_eq!(fs[1].remediation.steps.len(), 1);
    match &fs[0].evidence.raw_data {
        Some(JsonValue::Object(m)) => {
            assert_eq!(m[0].0, "llm_analysis");
            match &m[0].1 {
                JsonValue::Object(fields) => {
                    let names: Vec<&str> = fields.iter().map(|(k, _)| k.as_str()).collect();
                    assert_eq!(names, vec!["summary", "issues", "recommendations", "severity"]);
                },
                _ => panic!("analysis is an object"),
            }
        },
        _ => panic!("raw data holds the analysis"),
    }
}

#[test]
fn configuration_recommendations_name_their_files() {
    let config = JsonValue::Object(vec![
        ("b1/server.properties".to_string(), JsonValue::String("num.io.threads=8\n# x=1\nnum.io.threads = 9\n".to_string())),
        ("b2/server.properties".to_string(), JsonValue::String("num.network.threads=3\n".to_string())),
        ("b3/server.properties".to_string(), JsonValue::UInt(1)),
    ]);
    assert_eq!(
        files_setting(&config, "num.io.threads"),
        vec!["brokers/b1/server.properties".to_string(), "brokers/b1/server.properties".to_string()]
    );
    assert!(files_setting(&config, "x").is_empty());
    let rec = ConfigRecommendation {
        parameter: "num.io.threads".to_string(),
        current_value: "8".to_string(),
        recommended_value: "16".to_string(),
        justification: "More disks".to_string(),
        impact: "Throughput".to_string(),
    };
    let fs = config_findings(&vec![rec], &config);
    assert_eq!(fs[0].id, "LLM-CONFIG-001");
    assert_eq!(fs[0].title, "Configuration optimization: num.io.threads");
    assert_eq!(fs[0].remediation.steps[0].description, "Update num.io.threads from 8 to 16");
    assert_eq!(
        fs[0].remediation.steps[0].command,
        Some("kafka-configs --alter --add-config num.io.threads=16".to_string())
    );
    assert_eq!(fs[0].remediation.rollback_plan, Some("Revert num.io.threads to 8".to_string()));
    assert_eq!(fs[0].evidence.configs[0].source_files.len(), 2);
}

#[test]
fn root_cause_finding_reports_confidence() {
    let f = root_cause_finding("Disk full on broker 3", "85", JsonValue::Null);
    assert_eq!(f.id, "LLM-RCA-001");
    assert_eq!(f.impact, "Confidence: 85%");
    assert_eq!(f.root_cause, Some("Disk full on broker 3".to_string()));
    assert_eq!(f.severity, Severity::High);
}
