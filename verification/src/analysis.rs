//! Analysis tasks defined as data: which tasks load, which apply to a cluster,
//! what data a task's prompt is filled with, and how a model's answer becomes
//! findings.
use vstd::prelude::*;
use crate::text::{
    trim, contains, starts_with, find, rfind, split_once, lowercase, to_lowercase, owned, concat,
    str_contains, str_eq, trimmed, str_starts_with, find_str, skip_str, split_once_char, chars_of,
    string_of, replace_str, replace_all, opt_text,
};
use crate::strmap::StrMap;
use crate::numbers::{decimal, decimal_string};
use crate::json::{JsonValue, member};
use crate::snapshot::{
    Severity, Category, RiskLevel, ClusterMode, Finding, Evidence, Remediation, RemediationStep, Snapshot,
};
use crate::config_validator::{strings_view, three_digits};

verus! {

/// An analysis task, as a YAML file defines it.
#[derive(Debug)]
pub struct AnalysisTask {
    pub id: String,
    pub name: String,
    pub description: String,
    /// The prompt, with placeholders such as `{logs}` or `{config}`.
    pub prompt: String,
    /// The data to include; everything when empty.
    pub include_data: Vec<String>,
    /// Keywords that decide a finding's severity.
    pub severity_keywords: StrMap,
    pub default_severity: String,
    pub category: String,
    pub enabled: bool,
    pub examples: Option<String>,
    /// The cluster modes the task applies to; all when empty.
    pub cluster_type_filter: Vec<String>,
}

/// The severity of a task that names none.
pub fn default_severity() -> (r: String)
    ensures
        r@ == "medium"@,
{
    owned("medium")
}

/// The category of a task that names none.
pub fn default_category() -> (r: String)
    ensures
        r@ == "cluster_hygiene"@,
{
    owned("cluster_hygiene")
}

/// Whether a task that does not say is enabled.
pub fn default_enabled() -> (b: bool)
    ensures
        b,
{
    true
}

/// Why no tasks could be loaded.
#[derive(Debug, Clone, PartialEq, Eq)]
pub enum TaskLoadError {
    /// The task directory does not exist.
    MissingDirectory(String),
    /// The directory holds no enabled task.
    NoTasks(String),
}

/// What the walk of the task directory does with an entry.
#[derive(Debug, Clone, Copy, PartialEq, Eq, Structural)]
pub enum EntryAction {
    /// A directory to walk into.
    Descend,
    /// A YAML file to read as a task.
    LoadTask,
    /// Anything else, and the `legacy` directory.
    Skip,
}

/// Loads tasks from a directory.
pub struct TaskLoader {
    tasks_dir: String,
}

impl TaskLoader {
    /// The directory the tasks are read from.
    pub closed spec fn dir(&self) -> Seq<char> {
        self.tasks_dir@
    }

    /// A loader of the tasks in `tasks_dir`.
    pub fn new(tasks_dir: &str) -> (l: TaskLoader)
        ensures
            l.dir() == tasks_dir@,
    {
        TaskLoader { tasks_dir: owned(tasks_dir) }
    }

    /// A loader of the tasks in `analysis_tasks`.
    pub fn default_tasks_dir() -> (l: TaskLoader)
        ensures
            l.dir() == "analysis_tasks"@,
    {
        Self::new("analysis_tasks")
    }

    /// The directory the tasks are read from.
    pub fn tasks_dir(&self) -> (r: &String)
        ensures
            r@ == self.dir(),
    {
        &self.tasks_dir
    }

    /// What to do with a directory entry: walk into directories other than `legacy`, read
    /// files ending in `.yaml` or `.yml`, skip the rest.
    pub fn entry_action(is_dir: bool, file_name: Option<&str>, extension: Option<&str>) -> (a: EntryAction)
        ensures
            a == (if is_dir {
                if file_name matches Some(n) && n@ == "legacy"@ { EntryAction::Skip } else { EntryAction::Descend }
            } else if extension matches Some(e) && (e@ == "yaml"@ || e@ == "yml"@) {
                EntryAction::LoadTask
            } else {
                EntryAction::Skip
            }),
    {
        if is_dir {
            match file_name {
                Some(n) => if str_eq(n, "legacy") { EntryAction::Skip } else { EntryAction::Descend },
                None => EntryAction::Descend,
            }
        } else {
            match extension {
                Some(e) => if str_eq(e, "yaml") || str_eq(e, "yml") { EntryAction::LoadTask } else { EntryAction::Skip },
                None => EntryAction::Skip,
            }
        }
    }

    /// The tasks of the directory walk, keeping the enabled ones: an error when the
    /// directory does not exist (`walked` is none) or holds no enabled task.
    pub fn load_all(&self, walked: Option<Vec<AnalysisTask>>) -> (r: Result<Vec<AnalysisTask>, TaskLoadError>)
        ensures
            match walked {
                None => r matches Err(TaskLoadError::MissingDirectory(d)) && d@ == self.dir(),
                Some(ts) => match r {
                    Ok(kept) => kept@ == ts@.filter(|t: AnalysisTask| t.enabled) && kept@.len() > 0,
                    Err(e) => e matches TaskLoadError::NoTasks(d) && d@ == self.dir() && ts@.filter(
                        |t: AnalysisTask| t.enabled,
                    ).len() == 0,
                },
            },
    {
        match walked {
            None => Err(TaskLoadError::MissingDirectory(self.tasks_dir.clone())),
            Some(ts) => {
                let ghost all = ts@;
                let mut rest = ts;
                let mut kept: Vec<AnalysisTask> = Vec::new();
                let n = rest.len();
                let mut i: usize = 0;
                assert(all.take(0).filter(|t: AnalysisTask| t.enabled) =~= Seq::<AnalysisTask>::empty());
                while i < n
                    invariant
                        i <= n == all.len(),
                        rest@ == all.skip(i as int),
                        kept@ == all.take(i as int).filter(|t: AnalysisTask| t.enabled),
                    decreases n - i,
                {
                    let t = rest.remove(0);
                    proof {
                        assert(t == all[i as int]);
                        assert(rest@ =~= all.skip(i + 1));
                        assert(all.take(i + 1).drop_last() =~= all.take(i as int));
                        assert(all.take(i + 1).last() == all[i as int]);
                        reveal(Seq::filter);
                    }
                    if t.enabled {
                        kept.push(t);
                    }
                    i = i + 1;
                }
                assert(all.take(n as int) =~= all);
                if kept.len() == 0 {
                    Err(TaskLoadError::NoTasks(self.tasks_dir.clone()))
                } else {
                    Ok(kept)
                }
            },
        }
    }
}

/// The name a cluster mode has in a task's filter.
pub open spec fn mode_word(m: ClusterMode) -> Seq<char> {
    match m {
        ClusterMode::Kraft => "kraft"@,
        ClusterMode::Zookeeper => "zookeeper"@,
        ClusterMode::Unknown => "unknown"@,
    }
}

/// The severity a lowercased word names; anything unknown is medium.
pub open spec fn task_severity_of_lower(l: Seq<char>) -> Severity {
    if l == "critical"@ {
        Severity::Critical
    } else if l == "high"@ {
        Severity::High
    } else if l == "medium"@ {
        Severity::Medium
    } else if l == "low"@ {
        Severity::Low
    } else if l == "info"@ {
        Severity::Info
    } else {
        Severity::Medium
    }
}

/// The category a lowercased word names; anything unknown is cluster hygiene.
pub open spec fn category_of_lower(l: Seq<char>) -> Category {
    if l == "performance"@ {
        Category::Performance
    } else if l == "security"@ {
        Category::Security
    } else if l == "availability"@ {
        Category::Availability
    } else if l == "configuration"@ {
        Category::Configuration
    } else if l == "capacity"@ {
        Category::Capacity
    } else if l == "client"@ {
        Category::Client
    } else {
        Category::ClusterHygiene
    }
}

/// The first keyword (in the map's order) that the lowercased text holds in lower case.
pub open spec fn keyword_hit(text: Seq<char>, keys: Seq<Seq<char>>, i: int) -> Option<int>
    decreases keys.len() - i,
{
    if i < 0 || i >= keys.len() {
        None
    } else if contains(text, lowercase(keys[i])) {
        Some(i)
    } else {
        keyword_hit(text, keys, i + 1)
    }
}

/// The severity a finding's title and description earn under a task's keywords, else the
/// task's default.
pub open spec fn severity_for(title: Seq<char>, description: Seq<char>, task: AnalysisTask) -> Severity {
    let text = lowercase(title) + " "@ + lowercase(description);
    let keys = task.severity_keywords.key_seq();
    match keyword_hit(text, keys, 0) {
        Some(i) => task_severity_of_lower(lowercase(task.severity_keywords@[keys[i]])),
        None => task_severity_of_lower(lowercase(task.default_severity@)),
    }
}

/// Runs analysis tasks.
pub struct TaskRunner;

impl TaskRunner {
    /// Whether a task applies to a cluster: it names no modes, or names the cluster's.
    pub fn is_task_compatible(task: &AnalysisTask, mode: ClusterMode) -> (b: bool)
        ensures
            b == (task.cluster_type_filter@.len() == 0 || strings_view(task.cluster_type_filter@).contains(
                mode_word(mode),
            )),
    {
        if task.cluster_type_filter.len() == 0 {
            return true;
        }
        let word = match mode {
            ClusterMode::Kraft => "kraft",
            ClusterMode::Zookeeper => "zookeeper",
            ClusterMode::Unknown => "unknown",
        };
        let ghost fv = strings_view(task.cluster_type_filter@);
        let mut i: usize = 0;
        while i < task.cluster_type_filter.len()
            invariant
                i <= task.cluster_type_filter@.len() == fv.len(),
                fv == strings_view(task.cluster_type_filter@),
                word@ == mode_word(mode),
                forall|j: int| 0 <= j < i ==> fv[j] != mode_word(mode),
            decreases task.cluster_type_filter@.len() - i,
        {
            if str_eq(task.cluster_type_filter[i].as_str(), word) {
                assert(fv[i as int] == mode_word(mode));
                return true;
            }
            i = i + 1;
        }
        false
    }

    /// The severity a word names, compared in lower case; unknown words are medium.
    pub fn parse_severity(severity: &str) -> (s: Severity)
        ensures
            s == task_severity_of_lower(lowercase(severity@)),
    {
        let l = to_lowercase(severity);
        Self::severity_from_lowercase(l.as_str())
    }

    /// The severity an already lowercased word names; unknown words are medium.
    pub fn severity_from_lowercase(t: &str) -> (s: Severity)
        ensures
            s == task_severity_of_lower(t@),
    {
        if str_eq(t, "critical") {
            Severity::Critical
        } else if str_eq(t, "high") {
            Severity::High
        } else if str_eq(t, "medium") {
            Severity::Medium
        } else if str_eq(t, "low") {
            Severity::Low
        } else if str_eq(t, "info") {
            Severity::Info
        } else {
            Severity::Medium
        }
    }

    /// The category a word names, compared in lower case.
    pub fn parse_category(category: &str) -> (c: Category)
        ensures
            c == category_of_lower(lowercase(category@)),
    {
        let l = to_lowercase(category);
        Self::category_from_lowercase(l.as_str())
    }

    /// The category an already lowercased word names; unknown words are cluster hygiene.
    pub fn category_from_lowercase(t: &str) -> (c: Category)
        ensures
            c == category_of_lower(t@),
    {
        if str_eq(t, "performance") {
            Category::Performance
        } else if str_eq(t, "security") {
            Category::Security
        } else if str_eq(t, "availability") {
            Category::Availability
        } else if str_eq(t, "configuration") {
            Category::Configuration
        } else if str_eq(t, "capacity") {
            Category::Capacity
        } else if str_eq(t, "client") {
            Category::Client
        } else {
            Category::ClusterHygiene
        }
    }

    /// The severity a finding earns under a task's keywords, else the task's default.
    pub fn determine_severity(title: &str, description: &str, task: &AnalysisTask) -> (s: Severity)
        ensures
            s == severity_for(title@, description@, *task),
    {
        let t = to_lowercase(title);
        let d = to_lowercase(description);
        let combined = concat(concat(t.as_str(), " ").as_str(), d.as_str());
        let pairs = task.severity_keywords.pairs();
        let ghost keys = task.severity_keywords.key_seq();
        let mut i: usize = 0;
        proof {
            task.severity_keywords.lemma_key_seq();
        }
        while i < pairs.len()
            invariant
                i <= pairs@.len() == keys.len(),
                keys == task.severity_keywords.key_seq(),
                combined@ == lowercase(title@) + " "@ + lowercase(description@),
                forall|j: int| 0 <= j < pairs@.len() ==> (#[trigger] pairs@[j]).0@ == keys[j]
                    && pairs@[j].1@ == task.severity_keywords@[keys[j]],
                keyword_hit(combined@, keys, 0) == keyword_hit(combined@, keys, i as int),
            decreases pairs@.len() - i,
        {
            let k = to_lowercase(pairs[i].0.as_str());
            if str_contains(combined.as_str(), k.as_str()) {
                return Self::parse_severity(pairs[i].1.as_str());
            }
            i = i + 1;
        }
        Self::parse_severity(task.default_severity.as_str())
    }
}


/// The text of member `k`, when it is a string.
pub open spec fn text_member(v: JsonValue, k: Seq<char>) -> Option<Seq<char>> {
    match v.spec_get(k) {
        Some(JsonValue::String(s)) => Some(s@),
        _ => None,
    }
}

/// The title a finding gets when the answer gives none.
pub open spec fn default_title(name: Seq<char>, s: Severity, index: nat) -> Seq<char> {
    name + (match s {
        Severity::Low => " - Finding "@,
        Severity::Info => " - Report "@,
        _ => " - Issue "@,
    }) + decimal(index + 1)
}

/// The severity of an answered finding: the one it names, else the one its title and
/// description earn under the task's keywords.
pub open spec fn answered_severity(json: JsonValue, task: AnalysisTask) -> Severity {
    match text_member(json, "severity"@) {
        Some(s) => task_severity_of_lower(lowercase(s)),
        None => severity_for(
            match text_member(json, "title"@) { Some(t) => t, None => task.name@ },
            match text_member(json, "description"@) { Some(d) => d, None => Seq::empty() },
            task,
        ),
    }
}

/// The finding an answered JSON object gives, as the `index`-th of a task's findings.
pub open spec fn answered_finding(f: Finding, json: JsonValue, task: AnalysisTask, index: nat) -> bool {
    let s = answered_severity(json, task);
    &&& f.id@ == task.id@ + "-"@ + three_digits(index + 1)
    &&& f.severity == s
    &&& f.category == category_of_lower(lowercase(task.category@))
    &&& f.title@ == (match text_member(json, "title"@) { Some(t) => t, None => default_title(task.name@, s, index) })
    &&& f.description@ == (match text_member(json, "description"@) { Some(t) => t, None => "No description provided"@ })
    &&& f.impact@ == (match text_member(json, "impact"@) { Some(t) => t, None => "Impact not specified"@ })
    &&& opt_text(f.root_cause) == text_member(json, "root_cause"@)
    &&& f.remediation.steps@.len() == 1
    &&& f.remediation.steps@[0].description@ == (match text_member(json, "remediation"@) {
        Some(t) => t,
        None => "No remediation provided"@,
    })
    &&& f.remediation.risk_level == RiskLevel::Medium
    &&& f.evidence.raw_data == Some(json)
}

/// The finding a plain-text answer gives.
pub open spec fn text_finding(f: Finding, response: Seq<char>, task: AnalysisTask) -> bool {
    &&& f.id@ == task.id@ + "-001"@
    &&& f.severity == task_severity_of_lower(lowercase(task.default_severity@))
    &&& f.category == category_of_lower(lowercase(task.category@))
    &&& f.title@ == task.name@ + " Analysis"@
    &&& f.description@ == response
    &&& f.impact@ == "See description for details"@
    &&& f.remediation.steps@.len() == 0
    &&& f.remediation.risk_level == RiskLevel::Low
}

fn member_text_of(v: &JsonValue, k: &str) -> (r: Option<String>)
    ensures
        opt_text(r) == text_member(*v, k@),
{
    match v.get(k) {
        Some(JsonValue::String(s)) => Some(s.clone()),
        _ => None,
    }
}

pub fn three_digit_text(n: u64) -> (r: String)
    ensures
        r@ == three_digits(n as nat),
{
    let d = decimal_string(n);
    if n < 10 {
        concat("00", d.as_str())
    } else if n < 100 {
        concat("0", d.as_str())
    } else {
        d
    }
}

/// The text of a single JSON string member.
pub open spec fn single_member_object(k: Seq<char>, v: Seq<char>, j: JsonValue) -> bool {
    j matches JsonValue::Object(m) && m@.len() == 1 && m@[0].0@ == k && (m@[0].1 matches JsonValue::String(s) && s@ == v)
}

impl TaskRunner {
    /// The finding an answered JSON object gives, as the `index`-th of the task's.
    pub fn json_to_finding(json: JsonValue, task: &AnalysisTask, index: u64) -> (f: Finding)
        requires
            index < u64::MAX,
        ensures
            answered_finding(f, json, *task, index as nat),
    {
        let json_ref = &json;
        let severity = match member_text_of(json_ref, "severity") {
            Some(s) => Self::parse_severity(s.as_str()),
            None => {
                let t = match member_text_of(json_ref, "title") {
                    Some(t) => t,
                    None => task.name.clone(),
                };
                let d = match member_text_of(json_ref, "description") {
                    Some(d) => d,
                    None => String::new(),
                };
                Self::determine_severity(t.as_str(), d.as_str(), task)
            },
        };
        let number = decimal_string(index + 1);
        let label = match severity {
            Severity::Low => " - Finding ",
            Severity::Info => " - Report ",
            _ => " - Issue ",
        };
        let title = match member_text_of(json_ref, "title") {
            Some(t) => t,
            None => concat(concat(task.name.as_str(), label).as_str(), number.as_str()),
        };
        let description = match member_text_of(json_ref, "description") {
            Some(t) => t,
            None => owned("No description provided"),
        };
        let impact = match member_text_of(json_ref, "impact") {
            Some(t) => t,
            None => owned("Impact not specified"),
        };
        let root_cause = member_text_of(json_ref, "root_cause");
        let remediation_text = match member_text_of(json_ref, "remediation") {
            Some(t) => t,
            None => owned("No remediation provided"),
        };
        let mut steps: Vec<RemediationStep> = Vec::new();
        steps.push(RemediationStep { order: 1, description: remediation_text, command: None, verification: None, can_automate: false });
        let id = concat(concat(task.id.as_str(), "-").as_str(), three_digit_text(index + 1).as_str());
        Finding {
            id,
            severity,
            category: Self::parse_category(task.category.as_str()),
            title,
            description,
            impact,
            evidence: Evidence { metrics: Vec::new(), logs: Vec::new(), configs: Vec::new(), raw_data: Some(json) },
            root_cause,
            remediation: Remediation {
                steps,
                script: None,
                risk_level: RiskLevel::Medium,
                requires_downtime: false,
                estimated_duration_minutes: None,
                rollback_plan: None,
            },
            metadata: Vec::new(),
        }
    }

    /// The finding a plain-text answer gives.
    pub fn create_text_finding(response: &str, task: &AnalysisTask) -> (f: Finding)
        ensures
            text_finding(f, response@, *task),
            f.evidence.raw_data matches Some(j) && single_member_object("response"@, response@, j),
    {
        let mut raw: Vec<(String, JsonValue)> = Vec::new();
        raw.push((owned("response"), JsonValue::String(owned(response))));
        Finding {
            id: concat(task.id.as_str(), "-001"),
            severity: Self::parse_severity(task.default_severity.as_str()),
            category: Self::parse_category(task.category.as_str()),
            title: concat(task.name.as_str(), " Analysis"),
            description: owned(response),
            impact: owned("See description for details"),
            evidence: Evidence { metrics: Vec::new(), logs: Vec::new(), configs: Vec::new(), raw_data: Some(JsonValue::Object(raw)) },
            root_cause: None,
            remediation: Remediation {
                steps: Vec::new(),
                script: None,
                risk_level: RiskLevel::Low,
                requires_downtime: false,
                estimated_duration_minutes: None,
                rollback_plan: None,
            },
            metadata: Vec::new(),
        }
    }
}

/// The JSON text of a task's answer: the text after the first fence opened by three
/// backquotes and `json` (up to the next fence, or the end), else the whole answer trimmed
/// when it starts with `{`, else from the first `{` to the last `}` (the whole answer when
/// there is no `}`); none when the answer has no `{` at all.
pub open spec fn answer_segment(r: Seq<char>) -> Option<Seq<char>> {
    match find(r, "```json"@) {
        Some(p) => {
            let rest = r.skip(p + 7);
            match find(rest, "```"@) {
                Some(q) => Some(rest.take(q)),
                None => Some(rest),
            }
        },
        None => if starts_with(trim(r), "{"@) {
            Some(trim(r))
        } else {
            match find(r, seq!['{']) {
                Some(a) => match rfind(r, seq!['}']) {
                    Some(b) => Some(r.subrange(a, b + 1)),
                    None => Some(r),
                },
                None => None,
            }
        },
    }
}

/// The answers whose last `}` stands before their first `{`, outside a fence and not
/// starting with `{`: cutting from one to the other would run backwards.
pub open spec fn answer_segment_fails_hard(r: Seq<char>) -> bool {
    &&& find(r, "```json"@) is None
    &&& !starts_with(trim(r), "{"@)
    &&& match (find(r, seq!['{']), rfind(r, seq!['}'])) {
        (Some(a), Some(b)) => b < a,
        _ => false,
    }
}

/// The findings an answer gives once its JSON text was read (`parsed`; none when it
/// could not be): each element of `findings`, else the object itself when it has a
/// `title`, else one finding holding the whole answer as text.
pub open spec fn answer_findings(fs: Seq<Finding>, response: Seq<char>, parsed: Option<JsonValue>, task: AnalysisTask) -> bool {
    match parsed {
        Some(v) => match v.spec_get("findings"@) {
            Some(JsonValue::Array(a)) => fs.len() == a@.len() && forall|j: int| 0 <= j < fs.len() ==> answered_finding(
                #[trigger] fs[j],
                a@[j],
                task,
                j as nat,
            ),
            _ => if v is Object && v.spec_get("title"@) is Some {
                fs.len() == 1 && answered_finding(fs[0], v, task, 0)
            } else {
                fs.len() == 1 && text_finding(fs[0], response, task)
            },
        },
        None => fs.len() == 1 && text_finding(fs[0], response, task),
    }
}

impl TaskRunner {
    /// Whether reading the JSON text of an answer would cut a backwards slice.
    pub fn answer_segment_fails_hard(response: &str) -> (b: bool)
        ensures
            b == answer_segment_fails_hard(response@),
    {
        if find_str(response, "```json").is_some() {
            return false;
        }
        let t = trimmed(response);
        if str_starts_with(t.as_str(), "{") {
            return false;
        }
        let v = chars_of(response);
        let open = chars_of("{");
        let close = chars_of("}");
        proof {
            reveal_strlit("{");
            reveal_strlit("}");
            assert(open@ =~= seq!['{']);
            assert(close@ =~= seq!['}']);
        }
        match (crate::text::find_exec(&v, &open), crate::text::rfind_exec(&v, &close)) {
            (Some(a), Some(b)) => b < a,
            _ => false,
        }
    }

    /// The JSON text of a task's answer, when it has one.
    pub fn answer_segment(response: &str) -> (r: Option<String>)
        requires
            !answer_segment_fails_hard(response@),
        ensures
            opt_text(r) == answer_segment(response@),
    {
        let v = chars_of(response);
        let n = v.len();
        match find_str(response, "```json") {
            Some(p) => {
                proof {
                    crate::text::lemma_find_spec(response@, "```json"@);
                    reveal_strlit("```json");
                }
                let rest = skip_str(response, p + 7);
                match find_str(rest.as_str(), "```") {
                    Some(q) => {
                        proof {
                            crate::text::lemma_find_spec(rest@, "```"@);
                            reveal_strlit("```");
                        }
                        let rv = chars_of(rest.as_str());
                        let seg = string_of(&rv, 0, q);
                        assert(seg@ =~= rest@.take(q as int));
                        return Some(seg);
                    },
                    None => return Some(rest),
                }
            },
            None => {},
        }
        let t = trimmed(response);
        if str_starts_with(t.as_str(), "{") {
            return Some(t);
        }
        let open = chars_of("{");
        let close = chars_of("}");
        proof {
            reveal_strlit("{");
            reveal_strlit("}");
            assert(open@ =~= seq!['{']);
            assert(close@ =~= seq!['}']);
        }
        match crate::text::find_exec(&v, &open) {
            Some(a) => match crate::text::rfind_exec(&v, &close) {
                Some(b) => {
                    proof {
                        crate::text::lemma_rfind_to_facts(v@, seq!['}'], v@.len() - 1);
                    }
                    Some(string_of(&v, a, b + 1))
                },
                None => Some(owned(response)),
            },
            None => None,
        }
    }

    /// The findings of a task's answer, given what its JSON text read as.
    pub fn parse_findings(response: &str, parsed: Option<JsonValue>, task: &AnalysisTask) -> (r: Vec<Finding>)
        ensures
            answer_findings(r@, response@, parsed, *task),
    {
        let mut findings: Vec<Finding> = Vec::new();
        match parsed {
            Some(v) => {
                let ghost gv = v;
                let has_array = match v.get("findings") {
                    Some(JsonValue::Array(_)) => true,
                    _ => false,
                };
                if has_array {
                    let members = match v {
                        JsonValue::Object(m) => m,
                        _ => Vec::new(),
                    };
                    let mut rest = members;
                    let mut arr: Vec<JsonValue> = Vec::new();
                    let ghost target = gv.spec_get("findings"@);
                    // Take the first `findings` member out of the object.
                    let mut k: usize = 0;
                    let n = rest.len();
                    let ghost ms = rest@;
                    assert(ms.skip(0) =~= ms);
                    assert(gv.spec_get("findings"@) == member(ms, "findings"@));
                    let mut found = false;
                    while k < n
                        invariant
                            k <= n == ms.len(),
                            rest@ == ms.skip(k as int),
                            member(ms, "findings"@) matches Some(JsonValue::Array(_)),
                            member(ms, "findings"@) == gv.spec_get("findings"@),
                            !found ==> member(ms, "findings"@) == member(ms.skip(k as int), "findings"@),
                            found ==> member(ms, "findings"@) == Some(JsonValue::Array(arr)),
                        decreases n - k,
                    {
                        let (name, value) = rest.remove(0);
                        proof {
                            assert(ms.skip(k as int)[0] == (name, value));
                            assert(ms.skip(k as int).drop_first() =~= ms.skip(k + 1));
                            assert(rest@ =~= ms.skip(k + 1));
                        }
                        if !found && str_eq(name.as_str(), "findings") {
                            match value {
                                JsonValue::Array(a) => {
                                    arr = a;
                                    found = true;
                                },
                                _ => {},
                            }
                        }
                        k = k + 1;
                    }
                    let ghost av = arr@;
                    let mut i: usize = 0;
                    let total = arr.len();
                    let mut pending = arr;
                    while i < total
                        invariant
                            i <= total == av.len(),
                            pending@ == av.skip(i as int),
                            findings@.len() == i,
                            forall|j: int| 0 <= j < i ==> answered_finding(#[trigger] findings@[j], av[j], *task, j as nat),
                        decreases total - i,
                    {
                        let e = pending.remove(0);
                        proof {
                            assert(e == av[i as int]);
                            assert(pending@ =~= av.skip(i + 1));
                        }
                        let f = Self::json_to_finding(e, task, i as u64);
                        findings.push(f);
                        i = i + 1;
                    }
                    return findings;
                }
                let is_object = match v {
                    JsonValue::Object(_) => true,
                    _ => false,
                };
                if is_object && v.get("title").is_some() {
                    findings.push(Self::json_to_finding(v, task, 0));
                } else {
                    findings.push(Self::create_text_finding(response, task));
                }
            },
            None => {
                findings.push(Self::create_text_finding(response, task));
            },
        }
        findings
    }

    /// The prompt with every `{key}` replaced by its data, data taken in order.
    pub fn fill_placeholders(prompt: &str, data: &Vec<(String, String)>) -> (r: String)
        ensures
            r@ == filled(prompt@, data@.map_values(|p: (String, String)| (p.0@, p.1@))),
    {
        let ghost dv = data@.map_values(|p: (String, String)| (p.0@, p.1@));
        let mut out = owned(prompt);
        let mut i: usize = 0;
        assert(dv.take(0) =~= Seq::<(Seq<char>, Seq<char>)>::empty());
        while i < data.len()
            invariant
                i <= data@.len() == dv.len(),
                dv == data@.map_values(|p: (String, String)| (p.0@, p.1@)),
                out@ == filled(prompt@, dv.take(i as int)),
            decreases data@.len() - i,
        {
            proof {
                assert(dv.take(i + 1).drop_last() =~= dv.take(i as int));
                assert(dv.take(i + 1).last() == dv[i as int]);
                reveal_strlit("{");
                reveal_strlit("}");
            }
            let placeholder = concat(concat("{", data[i].0.as_str()).as_str(), "}");
            out = replace_str(out.as_str(), placeholder.as_str(), data[i].1.as_str());
            i = i + 1;
        }
        assert(dv.take(i as int) =~= dv);
        out
    }

    /// The prompt sent for a task: its filled prompt, with the task's examples after it
    /// when it has any.
    pub fn full_prompt(filled_prompt: &str, task: &AnalysisTask) -> (r: String)
        ensures
            r@ == (match task.examples {
                Some(e) => filled_prompt@ + "\n\nExamples:\n"@ + e@,
                None => filled_prompt@,
            }),
    {
        match &task.examples {
            Some(e) => concat(concat(filled_prompt, "\n\nExamples:\n").as_str(), e.as_str()),
            None => owned(filled_prompt),
        }
    }
}

/// The prompt with each `{key}` of the data, in order, replaced by its value.
pub open spec fn filled(prompt: Seq<char>, data: Seq<(Seq<char>, Seq<char>)>) -> Seq<char>
    decreases data.len(),
{
    if data.len() == 0 {
        prompt
    } else {
        replace_all(filled(prompt, data.drop_last()), "{"@ + data.last().0 + "}"@, data.last().1)
    }
}


/// A JSON document of a snapshot that goes into a prompt pretty-printed.
pub enum JsonSource {
    Admin,
    AdminTopics,
    Config,
    Metrics,
    Logs,
    LogsSummary,
    /// A custom collector's document.
    Custom(String),
    /// A member of a custom collector's document.
    CustomMember(String, String),
}

/// A piece of the data a placeholder is replaced by.
pub enum DataPiece {
    Text(String),
    Pretty(JsonSource),
}

/// A JSON source as plain text names.
pub ghost enum SourceView {
    Admin,
    AdminTopics,
    Config,
    Metrics,
    Logs,
    LogsSummary,
    Custom(Seq<char>),
    CustomMember(Seq<char>, Seq<char>),
}

/// A data piece as plain values.
pub ghost enum PieceView {
    Text(Seq<char>),
    Pretty(SourceView),
}

/// A JSON source as plain values.
pub open spec fn source_view(s: JsonSource) -> SourceView {
    match s {
        JsonSource::Admin => SourceView::Admin,
        JsonSource::AdminTopics => SourceView::AdminTopics,
        JsonSource::Config => SourceView::Config,
        JsonSource::Metrics => SourceView::Metrics,
        JsonSource::Logs => SourceView::Logs,
        JsonSource::LogsSummary => SourceView::LogsSummary,
        JsonSource::Custom(n) => SourceView::Custom(n@),
        JsonSource::CustomMember(n, f) => SourceView::CustomMember(n@, f@),
    }
}

/// A data piece as plain values.
pub open spec fn piece_view(p: DataPiece) -> PieceView {
    match p {
        DataPiece::Text(t) => PieceView::Text(t@),
        DataPiece::Pretty(s) => PieceView::Pretty(source_view(s)),
    }
}

/// The prepared data as plain values.
pub open spec fn data_view(d: Seq<(String, Vec<DataPiece>)>) -> Seq<(Seq<char>, Seq<PieceView>)> {
    d.map_values(|e: (String, Vec<DataPiece>)| (e.0@, e.1@.map_values(|p: DataPiece| piece_view(p))))
}

/// Whether an include item asks for `name`: it is `name`, or `name:<file>`.
pub open spec fn item_asks(item: Seq<char>, name: Seq<char>) -> bool {
    item == name || (split_once(item, ':') matches Some((c, _)) && c == name)
}

/// Whether a task includes the data named `name`: it lists nothing, or an item asks for it.
pub open spec fn includes(task: AnalysisTask, name: Seq<char>) -> bool {
    task.include_data@.len() == 0 || exists|i: int| 0 <= i < task.include_data@.len() && item_asks(
        #[trigger] task.include_data@[i]@,
        name,
    )
}

/// The file part of the first `name:<file>` item, at or after `i`.
pub open spec fn requested_file(items: Seq<Seq<char>>, name: Seq<char>, i: int) -> Option<Seq<char>>
    decreases items.len() - i,
{
    if i < 0 || i >= items.len() {
        None
    } else {
        match split_once(items[i], ':') {
            Some((c, f)) => if c == name { Some(f) } else { requested_file(items, name, i + 1) },
            None => requested_file(items, name, i + 1),
        }
    }
}

/// The process lists of the brokers, each under a heading.
pub open spec fn broker_processes(bs: Seq<(String, JsonValue)>) -> Seq<char>
    decreases bs.len(),
{
    if bs.len() == 0 {
        Seq::empty()
    } else {
        broker_processes(bs.drop_last()) + match bs.last().1.spec_get("system"@) {
            Some(sys) => match sys.spec_get("processes.txt"@) {
                Some(JsonValue::String(c)) => "=== Broker "@ + bs.last().0@ + " ===\n"@ + c@ + "\n"@,
                _ => Seq::empty(),
            },
            None => Seq::empty(),
        }
    }
}

/// The process lists of the brokers and the bastion.
pub open spec fn all_processes(custom: Seq<(String, JsonValue)>, system: JsonValue) -> Seq<char> {
    broker_processes(crate::config_validator::broker_documents(custom)) + match system.spec_get("bastion"@) {
        Some(b) => match b.spec_get("processes.txt"@) {
            Some(JsonValue::String(c)) => "=== Bastion ===\n"@ + c@ + "\n"@,
            _ => Seq::empty(),
        },
        None => Seq::empty(),
    }
}

/// The pieces of a custom collector's document: the file a task asks for (the process
/// lists of all hosts for `system:processes.txt`), or the whole document.
pub open spec fn custom_pieces(task: AnalysisTask, custom: Seq<(String, JsonValue)>, name: Seq<char>, data: JsonValue) -> Seq<PieceView> {
    match requested_file(strings_view(task.include_data@), name, 0) {
        Some(f) => if name == "system"@ && f == "processes.txt"@ {
            let t = all_processes(custom, data);
            if t.len() > 0 {
                seq![PieceView::Text(t)]
            } else {
                seq![PieceView::Text("Requested file not found in "@ + name + " data"@)]
            }
        } else {
            match data.spec_get(f) {
                Some(_) => seq![PieceView::Pretty(SourceView::CustomMember(name, f))],
                None => seq![PieceView::Text("Requested file not found in "@ + name + " data"@)],
            }
        },
        None => seq![PieceView::Pretty(SourceView::Custom(name))],
    }
}

/// The pieces of the log data: its summary and raw lines under headings when it has them,
/// else the whole document.
pub open spec fn log_pieces(logs: JsonValue) -> Seq<PieceView> {
    let parts = (if logs.spec_get("summary"@) is Some {
        seq![PieceView::Text("=== LOG SUMMARY ===\n"@), PieceView::Pretty(SourceView::LogsSummary), PieceView::Text("\n"@)]
    } else {
        Seq::empty()
    }) + match logs.spec_get("raw_logs"@) {
        Some(JsonValue::String(r)) => seq![PieceView::Text("=== RAW LOGS ===\n"@), PieceView::Text(r@)],
        _ => Seq::empty(),
    };
    if logs is Object && parts.len() > 0 { parts } else { seq![PieceView::Pretty(SourceView::Logs)] }
}

/// The custom documents a task includes, with their pieces.
pub open spec fn custom_data(task: AnalysisTask, custom: Seq<(String, JsonValue)>, cs: Seq<(String, JsonValue)>) -> Seq<(Seq<char>, Seq<PieceView>)>
    decreases cs.len(),
{
    if cs.len() == 0 {
        Seq::empty()
    } else {
        custom_data(task, custom, cs.drop_last()) + if includes(task, cs.last().0@) {
            seq![(cs.last().0@, custom_pieces(task, custom, cs.last().0@, cs.last().1))]
        } else {
            Seq::empty()
        }
    }
}

/// The admin document and its topics, when the task includes them.
pub open spec fn admin_data(task: AnalysisTask, admin: Option<JsonValue>) -> Seq<(Seq<char>, Seq<PieceView>)> {
    if includes(task, "admin"@) {
        match admin {
            Some(a) => seq![("admin"@, seq![PieceView::Pretty(SourceView::Admin)])] + if a.spec_get("topics"@) is Some {
                seq![("topics"@, seq![PieceView::Pretty(SourceView::AdminTopics)])]
            } else {
                Seq::empty()
            },
            None => seq![("admin"@, seq![PieceView::Text("No admin data available"@)])],
        }
    } else {
        Seq::empty()
    }
}

/// The log data, when the task includes it.
pub open spec fn logs_data(task: AnalysisTask, logs: Option<JsonValue>) -> Seq<(Seq<char>, Seq<PieceView>)> {
    if includes(task, "logs"@) {
        match logs {
            Some(l) => seq![("logs"@, log_pieces(l))],
            None => seq![("logs"@, seq![PieceView::Text("No log data available"@)])],
        }
    } else {
        Seq::empty()
    }
}

/// A whole document under `key` (or a note naming it missing), when the task includes it.
pub open spec fn document_data(task: AnalysisTask, key: Seq<char>, doc: Option<JsonValue>, source: SourceView, missing: Seq<char>) -> Seq<(Seq<char>, Seq<PieceView>)> {
    if includes(task, key) {
        match doc {
            Some(_) => seq![(key, seq![PieceView::Pretty(source)])],
            None => seq![(key, seq![PieceView::Text(missing)])],
        }
    } else {
        Seq::empty()
    }
}

/// The data a task's prompt is filled with, in order: admin (and its topics), logs,
/// configuration, metrics, then the custom documents, each when the task includes it;
/// missing documents are named missing.
pub open spec fn prompt_data(task: AnalysisTask, s: Snapshot) -> Seq<(Seq<char>, Seq<PieceView>)> {
    let c = s.collectors;
    admin_data(task, c.admin) + logs_data(task, c.logs) + document_data(
        task,
        "config"@,
        c.config,
        SourceView::Config,
        "No configuration data available"@,
    ) + document_data(task, "metrics"@, c.metrics, SourceView::Metrics, "No metrics data available"@)
        + custom_data(task, c.custom@, c.custom@)
}

fn text_piece(t: &str) -> (p: DataPiece)
    ensures
        piece_view(p) == PieceView::Text(t@),
{
    DataPiece::Text(owned(t))
}

fn one_piece(p: DataPiece) -> (r: Vec<DataPiece>)
    ensures
        r@.map_values(|q: DataPiece| piece_view(q)) == seq![piece_view(p)],
{
    let mut r: Vec<DataPiece> = Vec::new();
    r.push(p);
    assert(r@.map_values(|q: DataPiece| piece_view(q)) =~= seq![piece_view(p)]);
    r
}

impl TaskRunner {
    /// Whether a task includes the data named `name`.
    pub fn should_include(task: &AnalysisTask, name: &str) -> (b: bool)
        ensures
            b == includes(*task, name@),
    {
        if task.include_data.len() == 0 {
            return true;
        }
        let mut i: usize = 0;
        while i < task.include_data.len()
            invariant
                i <= task.include_data@.len(),
                forall|j: int| 0 <= j < i ==> !item_asks(#[trigger] task.include_data@[j]@, name@),
            decreases task.include_data@.len() - i,
        {
            let item = task.include_data[i].as_str();
            if str_eq(item, name) {
                assert(item_asks(task.include_data@[i as int]@, name@));
                return true;
            }
            match split_once_char(item, ':') {
                Some((c, _)) => {
                    if str_eq(c.as_str(), name) {
                        assert(item_asks(task.include_data@[i as int]@, name@));
                        return true;
                    }
                },
                None => {},
            }
            i = i + 1;
        }
        false
    }

    fn requested_file_of(task: &AnalysisTask, name: &str) -> (r: Option<String>)
        ensures
            opt_text(r) == requested_file(strings_view(task.include_data@), name@, 0),
    {
        let ghost items = strings_view(task.include_data@);
        let mut i: usize = 0;
        while i < task.include_data.len()
            invariant
                i <= task.include_data@.len() == items.len(),
                items == strings_view(task.include_data@),
                requested_file(items, name@, 0) == requested_file(items, name@, i as int),
            decreases task.include_data@.len() - i,
        {
            proof {
                assert(items[i as int] == task.include_data@[i as int]@);
            }
            match split_once_char(task.include_data[i].as_str(), ':') {
                Some((c, f)) => {
                    if str_eq(c.as_str(), name) {
                        return Some(f);
                    }
                },
                None => {},
            }
            i = i + 1;
        }
        None
    }

    fn processes_of(custom: &Vec<(String, JsonValue)>, system: &JsonValue) -> (r: String)
        ensures
            r@ == all_processes(custom@, *system),
    {
        let mut out = String::new();
        match crate::cluster_detection::get_member(custom, "brokers") {
            Some(JsonValue::Object(bs)) => {
                let mut i: usize = 0;
                assert(bs@.take(0) =~= Seq::<(String, JsonValue)>::empty());
                while i < bs.len()
                    invariant
                        i <= bs@.len(),
                        out@ == broker_processes(bs@.take(i as int)),
                    decreases bs@.len() - i,
                {
                    proof {
                        assert(bs@.take(i + 1).drop_last() =~= bs@.take(i as int));
                        assert(bs@.take(i + 1).last() == bs@[i as int]);
                    }
                    match bs[i].1.get("system") {
                        Some(sys) => match sys.get("processes.txt") {
                            Some(JsonValue::String(c)) => {
                                out = concat(out.as_str(), "=== Broker ");
                                out = concat(out.as_str(), bs[i].0.as_str());
                                out = concat(out.as_str(), " ===\n");
                                out = concat(out.as_str(), c.as_str());
                                out = concat(out.as_str(), "\n");
                            },
                            _ => {
                                assert(out@ + Seq::<char>::empty() =~= out@);
                            },
                        },
                        None => {
                            assert(out@ + Seq::<char>::empty() =~= out@);
                        },
                    }
                    i = i + 1;
                }
                assert(bs@.take(i as int) =~= bs@);
            },
            _ => {},
        }
        let ghost before = out@;
        match system.get("bastion") {
            Some(b) => match b.get("processes.txt") {
                Some(JsonValue::String(c)) => {
                    out = concat(out.as_str(), "=== Bastion ===\n");
                    out = concat(out.as_str(), c.as_str());
                    out = concat(out.as_str(), "\n");
                },
                _ => {
                    assert(before + Seq::<char>::empty() =~= before);
                },
            },
            None => {
                assert(before + Seq::<char>::empty() =~= before);
            },
        }
        out
    }

    fn pieces_of_custom(task: &AnalysisTask, custom: &Vec<(String, JsonValue)>, name: &String, data: &JsonValue) -> (r: Vec<DataPiece>)
        ensures
            r@.map_values(|q: DataPiece| piece_view(q)) == custom_pieces(*task, custom@, name@, *data),
    {
        match Self::requested_file_of(task, name.as_str()) {
            Some(f) => {
                if str_eq(name.as_str(), "system") && str_eq(f.as_str(), "processes.txt") {
                    let t = Self::processes_of(custom, data);
                    if t.as_str().is_empty() {
                        let msg = concat(concat("Requested file not found in ", name.as_str()).as_str(), " data");
                        one_piece(DataPiece::Text(msg))
                    } else {
                        one_piece(DataPiece::Text(t))
                    }
                } else {
                    match data.get(f.as_str()) {
                        Some(_) => one_piece(DataPiece::Pretty(JsonSource::CustomMember(name.clone(), f))),
                        None => {
                            let msg = concat(concat("Requested file not found in ", name.as_str()).as_str(), " data");
                            one_piece(DataPiece::Text(msg))
                        },
                    }
                }
            },
            None => one_piece(DataPiece::Pretty(JsonSource::Custom(name.clone()))),
        }
    }

    fn pieces_of_logs(logs: &JsonValue) -> (r: Vec<DataPiece>)
        ensures
            r@.map_values(|q: DataPiece| piece_view(q)) == log_pieces(*logs),
    {
        let mut parts: Vec<DataPiece> = Vec::new();
        let is_object = match logs {
            JsonValue::Object(_) => true,
            _ => false,
        };
        if logs.get("summary").is_some() {
            parts.push(text_piece("=== LOG SUMMARY ===\n"));
            parts.push(DataPiece::Pretty(JsonSource::LogsSummary));
            parts.push(text_piece("\n"));
        }
        let ghost first = parts@.map_values(|q: DataPiece| piece_view(q));
        match logs.get("raw_logs") {
            Some(JsonValue::String(r)) => {
                parts.push(text_piece("=== RAW LOGS ===\n"));
                parts.push(DataPiece::Text(r.clone()));
            },
            _ => {},
        }
        let ghost expected = (if logs.spec_get("summary"@) is Some {
            seq![PieceView::Text("=== LOG SUMMARY ===\n"@), PieceView::Pretty(SourceView::LogsSummary), PieceView::Text("\n"@)]
        } else {
            Seq::empty()
        }) + match logs.spec_get("raw_logs"@) {
            Some(JsonValue::String(r)) => seq![PieceView::Text("=== RAW LOGS ===\n"@), PieceView::Text(r@)],
            _ => Seq::empty(),
        };
        assert(parts@.map_values(|q: DataPiece| piece_view(q)) =~= expected);
        if is_object && parts.len() > 0 {
            parts
        } else {
            one_piece(DataPiece::Pretty(JsonSource::Logs))
        }
    }

    fn admin_part(task: &AnalysisTask, admin: &Option<JsonValue>) -> (r: Vec<(String, Vec<DataPiece>)>)
        ensures
            data_view(r@) == admin_data(*task, *admin),
    {
        let mut data: Vec<(String, Vec<DataPiece>)> = Vec::new();
        if Self::should_include(task, "admin") {
            match admin {
                Some(a) => {
                    data.push((owned("admin"), one_piece(DataPiece::Pretty(JsonSource::Admin))));
                    if a.get("topics").is_some() {
                        data.push((owned("topics"), one_piece(DataPiece::Pretty(JsonSource::AdminTopics))));
                    }
                },
                None => {
                    data.push((owned("admin"), one_piece(text_piece("No admin data available"))));
                },
            }
        }
        assert(data_view(data@) =~= admin_data(*task, *admin));
        data
    }

    fn logs_part(task: &AnalysisTask, logs: &Option<JsonValue>) -> (r: Vec<(String, Vec<DataPiece>)>)
        ensures
            data_view(r@) == logs_data(*task, *logs),
    {
        let mut data: Vec<(String, Vec<DataPiece>)> = Vec::new();
        if Self::should_include(task, "logs") {
            match logs {
                Some(l) => {
                    data.push((owned("logs"), Self::pieces_of_logs(l)));
                },
                None => {
                    data.push((owned("logs"), one_piece(text_piece("No log data available"))));
                },
            }
        }
        assert(data_view(data@) =~= logs_data(*task, *logs));
        data
    }

    fn document_part(task: &AnalysisTask, key: &str, doc: &Option<JsonValue>, source: JsonSource, missing: &str) -> (r: Vec<(String, Vec<DataPiece>)>)
        ensures
            data_view(r@) == document_data(*task, key@, *doc, source_view(source), missing@),
    {
        let mut data: Vec<(String, Vec<DataPiece>)> = Vec::new();
        if Self::should_include(task, key) {
            match doc {
                Some(_) => {
                    data.push((owned(key), one_piece(DataPiece::Pretty(source))));
                },
                None => {
                    data.push((owned(key), one_piece(text_piece(missing))));
                },
            }
        }
        assert(data_view(data@) =~= document_data(*task, key@, *doc, source_view(source), missing@));
        data
    }

    fn custom_part(task: &AnalysisTask, cs: &Vec<(String, JsonValue)>) -> (r: Vec<(String, Vec<DataPiece>)>)
        ensures
            data_view(r@) == custom_data(*task, cs@, cs@),
    {
        let mut data: Vec<(String, Vec<DataPiece>)> = Vec::new();
        let mut i: usize = 0;
        assert(cs@.take(0) =~= Seq::<(String, JsonValue)>::empty());
        assert(data_view(data@) =~= custom_data(*task, cs@, cs@.take(0)));
        while i < cs.len()
            invariant
                i <= cs@.len(),
                data_view(data@) == custom_data(*task, cs@, cs@.take(i as int)),
            decreases cs@.len() - i,
        {
            proof {
                assert(cs@.take(i + 1).drop_last() =~= cs@.take(i as int));
                assert(cs@.take(i + 1).last() == cs@[i as int]);
            }
            let ghost before = data_view(data@);
            let name = &cs[i].0;
            if Self::should_include(task, name.as_str()) {
                let pieces = Self::pieces_of_custom(task, cs, name, &cs[i].1);
                data.push((name.clone(), pieces));
                assert(data_view(data@) =~= before.push((name@, custom_pieces(*task, cs@, name@, cs@[i as int].1))));
            } else {
                assert(before =~= before + Seq::<(Seq<char>, Seq<PieceView>)>::empty());
            }
            i = i + 1;
        }
        assert(cs@.take(i as int) =~= cs@);
        data
    }

    /// The data a task's prompt is filled with.
    pub fn prepare_data(task: &AnalysisTask, snapshot: &Snapshot) -> (r: Vec<(String, Vec<DataPiece>)>)
        ensures
            data_view(r@) == prompt_data(*task, *snapshot),
    {
        let c = &snapshot.collectors;
        let mut a = Self::admin_part(task, &c.admin);
        let mut l = Self::logs_part(task, &c.logs);
        let mut k = Self::document_part(task, "config", &c.config, JsonSource::Config, "No configuration data available");
        let mut m = Self::document_part(task, "metrics", &c.metrics, JsonSource::Metrics, "No metrics data available");
        let mut u = Self::custom_part(task, &c.custom);
        let ghost (av, lv, kv, mv, uv) = (a@, l@, k@, m@, u@);
        a.append(&mut l);
        a.append(&mut k);
        a.append(&mut m);
        a.append(&mut u);
        assert(a@ =~= av + lv + kv + mv + uv);
        assert(data_view(av + lv + kv + mv + uv) =~= data_view(av) + data_view(lv) + data_view(kv) + data_view(mv) + data_view(uv));
        a
    }
}

} // verus!
