use kcpilot::report::{count_severities, health_score_halves, terminal_health_score};
use kcpilot::rules::{count_leaders, sort_findings};
use kcpilot::snapshot::{Finding, Severity};
use kcpilot::strmap::StrMap;

fn with_severity(s: Severity) -> Finding {
    let mut f = Finding::blank();
    f.severity = s;
    f
}

#[test]
fn counts_cover_all_findings() {
    let fs = vec![
        with_severity(Severity::Critical),
        with_severity(Severity::Low),
        with_severity(Severity::Low),
        with_severity(Severity::Info),
    ];
    let (c, h, m, l, i) = count_severities(&fs);
    assert_eq!((c, h, m, l, i), (1, 0, 0, 2, 1));
    assert_eq!(c + h + m + l + i, fs.len());
}

#[test]
fn adding_findings_never_raises_scores() {
    let mut fs: Vec<Finding> = Vec::new();
    assert_eq!(health_score_halves(&fs), 200);
    assert_eq!(terminal_health_score(&fs), 100);
    let mut last_html = 200;
    let mut last_terminal = 100;
    for s in [Severity::Info, Severity::Low, Severity::Medium, Severity::High, Severity::Critical, Severity::Critical, Severity::Critical] {
        fs.push(with_severity(s));
        let html = health_score_halves(&fs);
        let terminal = terminal_health_score(&fs);
        assert!(html <= last_html);
        assert!(terminal <= last_terminal);
        last_html = html;
        last_terminal = terminal;
    }
    // 200 - (1 + 4 + 10 + 20 + 3 * 40) = 45 half points; 100 - (3 + 8 + 15 + 75) < 0 -> 0.
    assert_eq!(last_html, 45);
    assert_eq!(last_terminal, 0);
}

#[test]
fn informational_findings_do_not_cost_terminal_points() {
    let fs = vec![with_severity(Severity::Medium)];
    let mut more = vec![with_severity(Severity::Medium)];
    more.push(with_severity(Severity::Info));
    assert_eq!(terminal_health_score(&fs), terminal_health_score(&more));
    assert_eq!(terminal_health_score(&fs), 92);
    assert_eq!(health_score_halves(&more), 189);
}

#[test]
fn sorting_keeps_the_same_findings() {
    let sorted = sort_findings(vec![
        with_severity(Severity::Info),
        with_severity(Severity::High),
        with_severity(Severity::Info),
        with_severity(Severity::Critical),
    ]);
    let ranks: Vec<u8> = sorted.iter().map(|f| f.severity.rank()).collect();
    assert_eq!(ranks, vec![0, 1, 4, 4]);
}

#[test]
fn one_leader_is_balanced() {
    assert_eq!(count_leaders(&vec![5, 5, 5]), vec![(5, 3)]);
}

#[test]
fn map_reads_back_what_was_written() {
    let mut m = StrMap::new();
    m.insert("a".to_string(), "1".to_string());
    m.insert("b".to_string(), "2".to_string());
    m.insert("a".to_string(), "3".to_string());
    assert_eq!(m.get("a"), Some(&"3".to_string()));
    assert_eq!(m.get("b"), Some(&"2".to_string()));
    assert_eq!(m.get("c"), None);
    assert_eq!(m.len(), 2);
    assert!(m.contains_key("b"));
    assert_eq!(m.keys(), vec!["a".to_string(), "b".to_string()]);
}
