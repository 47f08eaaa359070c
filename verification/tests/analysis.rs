use kcpilot::analysis::{AnalysisTask, EntryAction, TaskLoadError, TaskLoader, TaskRunner};
use kcpilot::json::JsonValue;
use kcpilot::snapshot::{Category, ClusterMode, RiskLevel, Severity};
use kcpilot::strmap::StrMap;

fn task(id: &str, enabled: bool) -> AnalysisTask {
    let mut keywords = StrMap::new();
    keywords.insert("Outage".to_string(), "CRITICAL".to_string());
    keywords.insert("slow".to_string(), "low".to_string());
    AnalysisTask {
        id: id.to_string(),
        name: "Disk Check".to_string(),
        description: "checks disks".to_string(),
        prompt: "Look at {logs} and {config}".to_string(),
        include_data: Vec::new(),
        severity_keywords: keywords,
        default_severity: "high".to_string(),
        category: "Capacity".to_string(),
        enabled,
        examples: None,
        cluster_type_filter: Vec::new(),
    }
}

fn text(s: &str) -> JsonValue {
    JsonValue::String(s.to_string())
}

#[test]
fn loader_reports_missing_and_empty_directories() {
    let loader = TaskLoader::new("/tmp/tasks");
    assert_eq!(loader.tasks_dir(), "/tmp/tasks");
    assert_eq!(loader.load_all(None).err(), Some(TaskLoadError::MissingDirectory("/tmp/tasks".to_string())));
    assert_eq!(loader.load_all(Some(vec![task("a", false)])).err(), Some(TaskLoadError::NoTasks("/tmp/tasks".to_string())));
    let kept = loader.load_all(Some(vec![task("a", false), task("b", true), task("c", true)])).unwrap();
    let ids: Vec<&str> = kept.iter().map(|t| t.id.as_str()).collect();
    assert_eq!(ids, vec!["b", "c"]);
    assert_eq!(TaskLoader::default_tasks_dir().tasks_dir(), "analysis_tasks");
}

#[test]
fn walk_skips_legacy_and_reads_yaml() {
    assert_eq!(TaskLoader::entry_action(true, Some("legacy"), None), EntryAction::Skip);
    assert_eq!(TaskLoader::entry_action(true, Some("disk"), None), EntryAction::Descend);
    assert_eq!(TaskLoader::entry_action(false, Some("a.yml"), Some("yml")), EntryAction::LoadTask);
    assert_eq!(TaskLoader::entry_action(false, Some("a.yaml"), Some("yaml")), EntryAction::LoadTask);
    assert_eq!(TaskLoader::entry_action(false, Some("a.json"), Some("json")), EntryAction::Skip);
}

#[test]
fn task_compatibility_follows_the_filter() {
    let mut t = task("a", true);
    assert!(TaskRunner::is_task_compatible(&t, ClusterMode::Zookeeper));
    t.cluster_type_filter = vec!["kraft".to_string()];
    assert!(TaskRunner::is_task_compatible(&t, ClusterMode::Kraft));
    assert!(!TaskRunner::is_task_compatible(&t, ClusterMode::Zookeeper));
    assert!(!TaskRunner::is_task_compatible(&t, ClusterMode::Unknown));
}

#[test]
fn severity_and_category_words_ignore_case() {
    assert_eq!(TaskRunner::parse_severity("HIGH"), Severity::High);
    assert_eq!(TaskRunner::parse_severity("Info"), Severity::Info);
    assert_eq!(TaskRunner::parse_severity("whatever"), Severity::Medium);
    assert_eq!(TaskRunner::parse_category("SECURITY"), Category::Security);
    assert_eq!(TaskRunner::parse_category("unknown"), Category::ClusterHygiene);
}

#[test]
fn keywords_decide_severity_before_the_default() {
    let t = task("a", true);
    assert_eq!(TaskRunner::determine_severity("Possible OUTAGE", "", &t), Severity::Critical);
    assert_eq!(TaskRunner::determine_severity("Disk", "it is Slow", &t), Severity::Low);
    assert_eq!(TaskRunner::determine_severity("Disk", "fine", &t), Severity::High);
}

#[test]
fn answer_segment_strategies() {
    assert_eq!(TaskRunner::answer_segment("x ```json\n{\"a\":1}\n``` y"), Some("\n{\"a\":1}\n".to_string()));
    assert_eq!(TaskRunner::answer_segment("```json{\"a\":1}"), Some("{\"a\":1}".to_string()));
    assert_eq!(TaskRunner::answer_segment("  {\"a\":1}  "), Some("{\"a\":1}".to_string()));
    assert_eq!(TaskRunner::answer_segment("see {\"a\":1} ok"), Some("{\"a\":1}".to_string()));
    assert_eq!(TaskRunner::answer_segment("see {\"a\":1"), Some("see {\"a\":1".to_string()));
    assert_eq!(TaskRunner::answer_segment("no json"), None);
    assert!(TaskRunner::answer_segment_fails_hard("a } b {"));
    assert!(!TaskRunner::answer_segment_fails_hard("a { b }"));
}

#[test]
fn findings_array_gives_numbered_findings() {
    let t = task("disk", true);
    let answer = JsonValue::Object(vec![(
        "findings".to_string(),
        JsonValue::Array(vec![
            JsonValue::Object(vec![("title".to_string(), text("Disk full")), ("severity".to_string(), text("critical"))]),
            JsonValue::Object(vec![("description".to_string(), text("runs slow"))]),
        ]),
    )]);
    let fs = TaskRunner::parse_findings("ignored", Some(answer), &t);
    assert_eq!(fs.len(), 2);
    assert_eq!(fs[0].id, "disk-001");
    assert_eq!(fs[0].severity, Severity::Critical);
    assert_eq!(fs[0].title, "Disk full");
    assert_eq!(fs[0].category, Category::Capacity);
    assert_eq!(fs[0].description, "No description provided");
    assert_eq!(fs[0].impact, "Impact not specified");
    assert_eq!(fs[1].id, "disk-002");
    assert_eq!(fs[1].severity, Severity::Low);
    assert_eq!(fs[1].title, "Disk Check - Finding 2");
    assert_eq!(fs[1].remediation.steps[0].description, "No remediation provided");
    assert_eq!(fs[1].remediation.risk_level, RiskLevel::Medium);
}

#[test]
fn unparsed_answer_becomes_one_text_finding() {
    let t = task("disk", true);
    let fs = TaskRunner::parse_findings("all good", None, &t);
    assert_eq!(fs.len(), 1);
    assert_eq!(fs[0].id, "disk-001");
    assert_eq!(fs[0].title, "Disk Check Analysis");
    assert_eq!(fs[0].description, "all good");
    assert_eq!(fs[0].severity, Severity::High);
    assert!(fs[0].remediation.steps.is_empty());
    let single = JsonValue::Object(vec![("title".to_string(), text("One"))]);
    let fs = TaskRunner::parse_findings("r", Some(single), &t);
    assert_eq!(fs.len(), 1);
    assert_eq!(fs[0].title, "One");
    let other = JsonValue::Object(vec![("note".to_string(), text("x"))]);
    let fs = TaskRunner::parse_findings("raw", Some(other), &t);
    assert_eq!(fs[0].title, "Disk Check Analysis");
}

#[test]
fn prompt_placeholders_and_examples() {
    let mut t = task("disk", true);
    let data = vec![("logs".to_string(), "L".to_string()), ("config".to_string(), "C".to_string())];
    let filled = TaskRunner::fill_placeholders(&t.prompt, &data);
    assert_eq!(filled, "Look at L and C");
    assert_eq!(TaskRunner::full_prompt(&filled, &t), "Look at L and C");
    t.examples = Some("ex".to_string());
    assert_eq!(TaskRunner::full_prompt(&filled, &t), "Look at L and C\n\nExamples:\nex");
}

#[test]
fn include_list_limits_data() {
    let mut t = task("disk", true);
    assert!(TaskRunner::should_include(&t, "logs"));
    t.include_data = vec!["config".to_string()];
    assert!(TaskRunner::should_include(&t, "config"));
    assert!(!TaskRunner::should_include(&t, "logs"));
    t.include_data = vec!["logs:server.log".to_string()];
    assert!(TaskRunner::should_include(&t, "logs"));
}
