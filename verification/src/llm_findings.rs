//! The findings the model-based analyzer builds from what a model answered: one
//! per issue of a log analysis, one per configuration recommendation (with the
//! files that set the parameter), and one for a root cause analysis.
use vstd::prelude::*;
use crate::text::{
    trim, starts_with, lowercase, lines, split_once, split_lines, split_once_char, trimmed, str_starts_with,
    owned, concat, str_eq,
};
use crate::json::JsonValue;
use crate::snapshot::{
    Severity, Category, RiskLevel, Remediation, RemediationStep, Finding, Evidence, LogEvidence,
    ConfigEvidence,
};
use crate::llm::{LogAnalysis, ConfigRecommendation, severity_of_lower, parse_severity, build_remediation};
use crate::config_validator::three_digits;
use crate::analysis::three_digit_text;

verus! {

/// A JSON array of the texts, in order.
pub open spec fn strings_json_is(v: JsonValue, xs: Seq<String>) -> bool {
    v matches JsonValue::Array(items) && items@.len() == xs.len() && forall|j: int|
        0 <= j < xs.len() ==> (#[trigger] items@[j]).spec_str() == Some(xs[j]@)
}

/// A log analysis as a JSON object, its fields in declaration order.
pub open spec fn analysis_json_is(v: JsonValue, a: LogAnalysis) -> bool {
    &&& v matches JsonValue::Object(m)
    &&& m@.len() == 4
    &&& m@[0].0@ == "summary"@ && m@[0].1.spec_str() == Some(a.summary@)
    &&& m@[1].0@ == "issues"@ && strings_json_is(m@[1].1, a.issues@)
    &&& m@[2].0@ == "recommendations"@ && strings_json_is(m@[2].1, a.recommendations@)
    &&& m@[3].0@ == "severity"@ && m@[3].1.spec_str() == Some(a.severity@)
}

fn strings_json(xs: &Vec<String>) -> (r: JsonValue)
    ensures
        strings_json_is(r, xs@),
{
    let mut items: Vec<JsonValue> = Vec::new();
    let mut i: usize = 0;
    while i < xs.len()
        invariant
            i <= xs@.len(),
            items@.len() == i,
            forall|j: int| 0 <= j < i ==> (#[trigger] items@[j]).spec_str() == Some(xs@[j]@),
        decreases xs@.len() - i,
    {
        items.push(JsonValue::String(xs[i].clone()));
        i = i + 1;
    }
    JsonValue::Array(items)
}

fn analysis_json(a: &LogAnalysis) -> (r: JsonValue)
    ensures
        analysis_json_is(r, *a),
{
    let mut m: Vec<(String, JsonValue)> = Vec::new();
    m.push((owned("summary"), JsonValue::String(a.summary.clone())));
    m.push((owned("issues"), strings_json(&a.issues)));
    m.push((owned("recommendations"), strings_json(&a.recommendations)));
    m.push((owned("severity"), JsonValue::String(a.severity.clone())));
    JsonValue::Object(m)
}

/// The finding for issue `i` of a model's log analysis, found at time `ts`.
pub open spec fn log_issue_finding(f: Finding, a: LogAnalysis, ts: Seq<char>, i: int) -> bool {
    &&& f.id@ == "LLM-LOG-"@ + three_digits((i + 1) as nat)
    &&& f.severity == severity_of_lower(lowercase(a.severity@))
    &&& f.category == Category::Performance
    &&& f.title@ == a.issues@[i]@
    &&& f.description@ == a.summary@
    &&& f.impact@ == "Potential cluster instability"@
    &&& f.evidence.logs@.len() == 1
    &&& f.evidence.logs@[0].level@ == "ERROR"@
    &&& f.evidence.logs@[0].message@ == a.issues@[i]@
    &&& f.evidence.logs@[0].source_file@ == "broker.log"@
    &&& f.evidence.logs@[0].line_number is None
    &&& f.evidence.logs@[0].timestamp@ == ts
    &&& f.evidence.logs@[0].count == 1
    &&& f.evidence.metrics@.len() == 0 && f.evidence.configs@.len() == 0
    &&& f.evidence.raw_data matches Some(JsonValue::Object(m)) && m@.len() == 1 && m@[0].0@ == "llm_analysis"@
        && analysis_json_is(m@[0].1, a)
    &&& f.root_cause matches Some(c) && c@ == "Identified by LLM analysis"@
    &&& f.remediation.steps@.len() == a.recommendations@.len()
    &&& forall|j: int| 0 <= j < f.remediation.steps@.len() ==> (#[trigger] f.remediation.steps@[j]).order == j + 1
        && f.remediation.steps@[j].description == a.recommendations@[j]
    &&& f.remediation.risk_level == RiskLevel::Medium
    &&& f.metadata@.len() == 0
}

/// One finding per issue of a model's log analysis, in order, each stamped `timestamp`.
pub fn log_findings(analysis: &LogAnalysis, timestamp: &str) -> (r: Vec<Finding>)
    requires
        analysis.recommendations@.len() < u32::MAX,
    ensures
        r@.len() == analysis.issues@.len(),
        forall|i: int| 0 <= i < r@.len() ==> log_issue_finding(#[trigger] r@[i], *analysis, timestamp@, i),
{
    let mut r: Vec<Finding> = Vec::new();
    let mut i: usize = 0;
    while i < analysis.issues.len()
        invariant
            i <= analysis.issues@.len(),
            analysis.recommendations@.len() < u32::MAX,
            r@.len() == i,
            forall|j: int| 0 <= j < i ==> log_issue_finding(#[trigger] r@[j], *analysis, timestamp@, j),
        decreases analysis.issues@.len() - i,
    {
        let issue = &analysis.issues[i];
        let mut logs: Vec<LogEvidence> = Vec::new();
        logs.push(LogEvidence {
            level: owned("ERROR"),
            message: issue.clone(),
            source_file: owned("broker.log"),
            line_number: None,
            timestamp: owned(timestamp),
            count: 1,
        });
        let mut raw: Vec<(String, JsonValue)> = Vec::new();
        raw.push((owned("llm_analysis"), analysis_json(analysis)));
        let f = Finding {
            id: concat("LLM-LOG-", three_digit_text((i + 1) as u64).as_str()),
            severity: parse_severity(analysis.severity.as_str()),
            category: Category::Performance,
            title: issue.clone(),
            description: analysis.summary.clone(),
            impact: owned("Potential cluster instability"),
            evidence: Evidence { metrics: Vec::new(), logs, configs: Vec::new(), raw_data: Some(JsonValue::Object(raw)) },
            root_cause: Some(owned("Identified by LLM analysis")),
            remediation: build_remediation(&analysis.recommendations),
            metadata: Vec::new(),
        };
        r.push(f);
        i = i + 1;
    }
    r
}

/// The key a configuration line sets: what stands before its first `=`, trimmed, unless
/// that is empty or a comment.
pub open spec fn key_of_line(line: Seq<char>) -> Option<Seq<char>> {
    match split_once(line, '=') {
        Some((k, _)) => if trim(k).len() > 0 && !starts_with(trim(k), "#"@) {
            Some(trim(k))
        } else {
            None
        },
        None => None,
    }
}

/// For each line that sets `key`, the file the lines come from, as the snapshot names it.
pub open spec fn key_hits(ls: Seq<Seq<char>>, key: Seq<char>, file: Seq<char>) -> Seq<Seq<char>>
    decreases ls.len(),
{
    if ls.len() == 0 {
        Seq::empty()
    } else {
        key_hits(ls.drop_last(), key, file) + if key_of_line(ls.last()) == Some(key) {
            seq!["brokers/"@ + file]
        } else {
            Seq::empty()
        }
    }
}

/// The files that set a parameter, once per line that sets it, over the collected
/// configuration texts in order.
pub open spec fn parameter_files(members: Seq<(String, JsonValue)>, key: Seq<char>) -> Seq<Seq<char>>
    decreases members.len(),
{
    if members.len() == 0 {
        Seq::empty()
    } else {
        parameter_files(members.drop_last(), key) + match members.last().1 {
            JsonValue::String(c) => key_hits(lines(c@), key, members.last().0@),
            _ => Seq::empty(),
        }
    }
}

/// The files of the collected configuration that set a parameter.
pub open spec fn config_files_for(config: JsonValue, key: Seq<char>) -> Seq<Seq<char>> {
    match config {
        JsonValue::Object(m) => parameter_files(m@, key),
        _ => Seq::empty(),
    }
}

fn key_of(line: &str) -> (r: Option<String>)
    ensures
        match r {
            Some(k) => key_of_line(line@) == Some(k@),
            None => key_of_line(line@) is None,
        },
{
    match split_once_char(line, '=') {
        Some((k, _)) => {
            let t = trimmed(k.as_str());
            if !t.as_str().is_empty() && !str_starts_with(t.as_str(), "#") {
                Some(t)
            } else {
                None
            }
        },
        None => None,
    }
}

fn push_key_hits(content: &str, key: &str, file: &str, out: &mut Vec<String>)
    ensures
        final(out)@.map_values(|s: String| s@) == old(out)@.map_values(|s: String| s@) + key_hits(
            lines(content@),
            key@,
            file@,
        ),
{
    let ls = split_lines(content);
    let ghost sl = lines(content@);
    let ghost start = out@.map_values(|s: String| s@);
    let mut i: usize = 0;
    assert(sl.take(0) =~= Seq::<Seq<char>>::empty());
    assert(out@.map_values(|s: String| s@) =~= start + key_hits(sl.take(0), key@, file@));
    while i < ls.len()
        invariant
            i <= ls@.len() == sl.len(),
            ls@.map_values(|x: String| x@) == sl,
            out@.map_values(|s: String| s@) == start + key_hits(sl.take(i as int), key@, file@),
        decreases ls@.len() - i,
    {
        proof {
            assert(ls@.map_values(|x: String| x@)[i as int] == ls@[i as int]@);
            assert(sl.take(i + 1).drop_last() =~= sl.take(i as int));
            assert(sl.take(i + 1).last() == sl[i as int]);
            assert(key_hits(sl.take(i + 1), key@, file@) == key_hits(sl.take(i as int), key@, file@) + if key_of_line(
                sl[i as int],
            ) == Some(key@) {
                seq!["brokers/"@ + file@]
            } else {
                Seq::empty()
            });
        }
        let ghost before = out@.map_values(|s: String| s@);
        match key_of(ls[i].as_str()) {
            Some(k) => {
                if str_eq(k.as_str(), key) {
                    let item = concat("brokers/", file);
                    out.push(item);
                    assert(out@.map_values(|s: String| s@) =~= before.push("brokers/"@ + file@));
                } else {
                    assert(out@.map_values(|s: String| s@) =~= before + Seq::<Seq<char>>::empty());
                }
            },
            None => {
                assert(out@.map_values(|s: String| s@) =~= before + Seq::<Seq<char>>::empty());
            },
        }
        assert(out@.map_values(|s: String| s@) =~= start + key_hits(sl.take(i + 1), key@, file@));
        i = i + 1;
    }
    assert(sl.take(i as int) =~= sl);
}

/// The files of the collected configuration that set a parameter.
pub fn files_setting(config: &JsonValue, key: &str) -> (r: Vec<String>)
    ensures
        r@.map_values(|s: String| s@) == config_files_for(*config, key@),
{
    let mut out: Vec<String> = Vec::new();
    match config {
        JsonValue::Object(m) => {
            let mut i: usize = 0;
            assert(m@.take(0) =~= Seq::<(String, JsonValue)>::empty());
            while i < m.len()
                invariant
                    i <= m@.len(),
                    out@.map_values(|s: String| s@) == parameter_files(m@.take(i as int), key@),
                decreases m@.len() - i,
            {
                proof {
                    assert(m@.take(i + 1).drop_last() =~= m@.take(i as int));
                    assert(m@.take(i + 1).last() == m@[i as int]);
                }
                match &m[i].1 {
                    JsonValue::String(c) => {
                        push_key_hits(c.as_str(), key, m[i].0.as_str(), &mut out);
                    },
                    _ => {
                        assert(out@.map_values(|s: String| s@) =~= parameter_files(m@.take(i + 1), key@));
                    },
                }
                i = i + 1;
            }
            assert(m@.take(i as int) =~= m@);
            out
        },
        _ => {
            assert(out@.map_values(|s: String| s@) =~= Seq::<Seq<char>>::empty());
            out
        },
    }
}

/// The finding for recommendation `i` of a model's configuration review, with the
/// configuration files that set the parameter.
pub open spec fn config_finding(f: Finding, rec: ConfigRecommendation, files: Seq<Seq<char>>, i: int) -> bool {
    let p = rec.parameter@;
    &&& f.id@ == "LLM-CONFIG-"@ + three_digits((i + 1) as nat)
    &&& f.severity == Severity::Medium
    &&& f.category == Category::Configuration
    &&& f.title@ == "Configuration optimization: "@ + p
    &&& f.description@ == rec.justification@
    &&& f.impact@ == rec.impact@
    &&& f.evidence.configs@.len() == 1
    &&& f.evidence.configs@[0].resource_type@ == "broker"@
    &&& f.evidence.configs@[0].resource_name@ == "all"@
    &&& f.evidence.configs@[0].config_key@ == p
    &&& f.evidence.configs@[0].current_value@ == rec.current_value@
    &&& f.evidence.configs@[0].recommended_value matches Some(v) && v@ == rec.recommended_value@
    &&& f.evidence.configs@[0].reason@ == rec.justification@
    &&& f.evidence.configs@[0].source_files@.map_values(|s: String| s@) == files
    &&& f.evidence.logs@.len() == 0 && f.evidence.metrics@.len() == 0 && f.evidence.raw_data is None
    &&& f.root_cause is None
    &&& f.remediation.steps@.len() == 1
    &&& f.remediation.steps@[0].order == 1
    &&& f.remediation.steps@[0].description@ == "Update "@ + p + " from "@ + rec.current_value@ + " to "@
        + rec.recommended_value@
    &&& f.remediation.steps@[0].command matches Some(c) && c@ == "kafka-configs --alter --add-config "@ + p + "="@
        + rec.recommended_value@
    &&& f.remediation.steps@[0].verification matches Some(v) && v@ == "Verify configuration is applied"@
    &&& f.remediation.steps@[0].can_automate
    &&& f.remediation.risk_level == RiskLevel::Low
    &&& !f.remediation.requires_downtime
    &&& f.remediation.estimated_duration_minutes == Some(5u32)
    &&& f.remediation.rollback_plan matches Some(b) && b@ == "Revert "@ + p + " to "@ + rec.current_value@
    &&& f.metadata@.len() == 0
}

/// One finding per configuration recommendation of a model, in order, each with the
/// files of the collected configuration (`config`) that set its parameter.
pub fn config_findings(recommendations: &Vec<ConfigRecommendation>, config: &JsonValue) -> (r: Vec<Finding>)
    ensures
        r@.len() == recommendations@.len(),
        forall|i: int| 0 <= i < r@.len() ==> config_finding(
            #[trigger] r@[i],
            recommendations@[i],
            config_files_for(*config, recommendations@[i].parameter@),
            i,
        ),
{
    let mut r: Vec<Finding> = Vec::new();
    let mut i: usize = 0;
    while i < recommendations.len()
        invariant
            i <= recommendations@.len(),
            r@.len() == i,
            forall|j: int| 0 <= j < i ==> config_finding(
                #[trigger] r@[j],
                recommendations@[j],
                config_files_for(*config, recommendations@[j].parameter@),
                j,
            ),
        decreases recommendations@.len() - i,
    {
        let rec = &recommendations[i];
        let p = rec.parameter.as_str();
        let files = files_setting(config, p);
        let mut configs: Vec<ConfigEvidence> = Vec::new();
        configs.push(ConfigEvidence {
            resource_type: owned("broker"),
            resource_name: owned("all"),
            config_key: rec.parameter.clone(),
            current_value: rec.current_value.clone(),
            recommended_value: Some(rec.recommended_value.clone()),
            reason: rec.justification.clone(),
            source_files: files,
        });
        let description = concat(
            concat(concat(concat(concat("Update ", p).as_str(), " from ").as_str(), rec.current_value.as_str()).as_str(), " to ").as_str(),
            rec.recommended_value.as_str(),
        );
        let command = concat(
            concat(concat("kafka-configs --alter --add-config ", p).as_str(), "=").as_str(),
            rec.recommended_value.as_str(),
        );
        let rollback = concat(concat(concat("Revert ", p).as_str(), " to ").as_str(), rec.current_value.as_str());
        let mut steps: Vec<RemediationStep> = Vec::new();
        steps.push(RemediationStep {
            order: 1,
            description,
            command: Some(command),
            verification: Some(owned("Verify configuration is applied")),
            can_automate: true,
        });
        let f = Finding {
            id: concat("LLM-CONFIG-", three_digit_text((i + 1) as u64).as_str()),
            severity: Severity::Medium,
            category: Category::Configuration,
            title: concat("Configuration optimization: ", p),
            description: rec.justification.clone(),
            impact: rec.impact.clone(),
            evidence: Evidence { metrics: Vec::new(), logs: Vec::new(), configs, raw_data: None },
            root_cause: None,
            remediation: Remediation {
                steps,
                script: None,
                risk_level: RiskLevel::Low,
                requires_downtime: false,
                estimated_duration_minutes: Some(5),
                rollback_plan: Some(rollback),
            },
            metadata: Vec::new(),
        };
        r.push(f);
        i = i + 1;
    }
    r
}

/// The finding of a model's root cause analysis: `confidence_percent` is the confidence
/// as a whole percentage, already rounded, and `raw_data` what the model reported.
pub fn root_cause_finding(root_cause: &str, confidence_percent: &str, raw_data: JsonValue) -> (f: Finding)
    ensures
        f.id@ == "LLM-RCA-001"@,
        f.severity == Severity::High,
        f.category == Category::Other,
        f.title@ == "Root Cause Analysis"@,
        f.description@ == root_cause@,
        f.impact@ == "Confidence: "@ + confidence_percent@ + "%"@,
        f.evidence.logs@.len() == 0 && f.evidence.metrics@.len() == 0 && f.evidence.configs@.len() == 0,
        f.evidence.raw_data == Some(raw_data),
        f.root_cause matches Some(c) && c@ == root_cause@,
        f.remediation.steps@.len() == 0,
        f.remediation.risk_level == RiskLevel::Medium,
        !f.remediation.requires_downtime,
        f.remediation.estimated_duration_minutes is None,
        f.remediation.script is None && f.remediation.rollback_plan is None,
        f.metadata@.len() == 0,
{
    Finding {
        id: owned("LLM-RCA-001"),
        severity: Severity::High,
        category: Category::Other,
        title: owned("Root Cause Analysis"),
        description: owned(root_cause),
        impact: concat(concat("Confidence: ", confidence_percent).as_str(), "%"),
        evidence: Evidence { metrics: Vec::new(), logs: Vec::new(), configs: Vec::new(), raw_data: Some(raw_data) },
        root_cause: Some(owned(root_cause)),
        remediation: Remediation {
            steps: Vec::new(),
            script: None,
            risk_level: RiskLevel::Medium,
            requires_downtime: false,
            estimated_duration_minutes: None,
            rollback_plan: None,
        },
        metadata: Vec::new(),
    }
}

} // verus!
