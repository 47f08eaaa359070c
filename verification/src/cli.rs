//! The command line the tool takes, as plain values, and what its commands
//! decide on their own: the data a snapshot offers for analysis, how a task's
//! result is announced, the template of a new task, and the hosts an SSH
//! configuration names.
use vstd::prelude::*;
use crate::text::{
    trim_start, starts_with, contains, lines, owned, concat, split_lines, chars_of, is_whitespace, str_contains,
    str_starts_with, string_of, lemma_trim_start_facts, lemma_trim_start_skip, is_ws,
};
use crate::numbers::{decimal, decimal_string};
use crate::snapshot::{Snapshot, Finding, Severity};

verus! {

/// The format of an analysis report.
#[derive(Debug, Clone, Copy, PartialEq, Eq, Structural)]
pub enum ReportFormat {
    Terminal,
    Json,
    Markdown,
}

/// What to do with analysis tasks.
pub enum TaskCommand {
    /// List the tasks, with their details or not.
    List { detailed: bool },
    /// Run one task against scanned data.
    Test { task_id: String, scanned_data: String, debug: bool },
    /// Write a new task from the template.
    New { id: String, name: Option<String>, output_dir: String },
    /// Show one task.
    Show { task_id: String },
}

/// The tool's commands.
pub enum Commands {
    /// Scan a cluster through a bastion, or on it.
    Scan { bastion: Option<String>, output: Option<String>, broker: Option<String> },
    /// Analyze scanned data.
    Analyze { scanned_data: String, report: ReportFormat, output: Option<String>, llmdbg: bool, llm_timeout: u64 },
    /// Show the configuration.
    Config,
    /// Show information about the tool.
    Info,
    /// Manage analysis tasks.
    Task { action: TaskCommand },
    /// Test SSH access to the brokers.
    TestSsh { bastion: Option<String> },
}

/// A parsed command line.
pub struct Cli {
    pub verbose: bool,
    pub log_format: String,
    pub command: Commands,
}

impl ReportFormat {
    /// The name of the format as the command line writes it.
    pub fn name(&self) -> (r: &'static str)
        ensures
            r@ == (match *self {
                ReportFormat::Terminal => "terminal"@,
                ReportFormat::Json => "json"@,
                ReportFormat::Markdown => "markdown"@,
            }),
    {
        match self {
            ReportFormat::Terminal => "terminal",
            ReportFormat::Json => "json",
            ReportFormat::Markdown => "markdown",
        }
    }
}

/// The kinds of collected data a snapshot offers for analysis, in the order they are
/// announced.
pub open spec fn available_data_spec(s: Snapshot) -> Seq<Seq<char>> {
    (if s.collectors.logs is Some { seq!["Logs"@] } else { Seq::empty() })
        + (if s.collectors.config is Some { seq!["Configurations"@] } else { Seq::empty() })
        + (if s.collectors.metrics is Some { seq!["Metrics"@] } else { Seq::empty() })
        + (if s.collectors.admin is Some { seq!["Admin Metadata"@] } else { Seq::empty() })
}

fn push_if(v: &mut Vec<String>, cond: bool, label: &str)
    ensures
        final(v)@.map_values(|x: String| x@) == old(v)@.map_values(|x: String| x@) + (if cond {
            seq![label@]
        } else {
            Seq::empty()
        }),
{
    if cond {
        v.push(owned(label));
        assert(v@.map_values(|x: String| x@) =~= old(v)@.map_values(|x: String| x@) + seq![label@]);
    } else {
        assert(v@.map_values(|x: String| x@) =~= old(v)@.map_values(|x: String| x@) + Seq::<Seq<char>>::empty());
    }
}

/// The kinds of collected data a snapshot offers for analysis; an analysis of a snapshot
/// that offers none is refused.
pub fn available_data(snapshot: &Snapshot) -> (r: Vec<String>)
    ensures
        r@.map_values(|x: String| x@) == available_data_spec(*snapshot),
{
    let mut r: Vec<String> = Vec::new();
    assert(r@.map_values(|x: String| x@) =~= Seq::<Seq<char>>::empty());
    push_if(&mut r, snapshot.collectors.logs.is_some(), "Logs");
    push_if(&mut r, snapshot.collectors.config.is_some(), "Configurations");
    push_if(&mut r, snapshot.collectors.metrics.is_some(), "Metrics");
    push_if(&mut r, snapshot.collectors.admin.is_some(), "Admin Metadata");
    assert(r@.map_values(|x: String| x@) =~= available_data_spec(*snapshot));
    r
}

/// The findings that count as issues: critical, high or medium.
pub open spec fn issue_count(fs: Seq<Finding>) -> nat
    decreases fs.len(),
{
    if fs.len() == 0 {
        0
    } else {
        issue_count(fs.drop_last()) + if fs.last().severity == Severity::Critical || fs.last().severity == Severity::High
            || fs.last().severity == Severity::Medium {
            1nat
        } else {
            0nat
        }
    }
}

/// `n` and a noun, with an `s` unless `n` is one.
pub open spec fn counted(n: nat, noun: Seq<char>) -> Seq<char> {
    decimal(n) + " "@ + noun + if n == 1 { Seq::empty() } else { "s"@ }
}

/// How a task's result is announced: how many issues (critical, high or medium) and how
/// many other findings it reported.
pub open spec fn task_outcome(fs: Seq<Finding>) -> Seq<char> {
    let i = issue_count(fs);
    let f = (fs.len() - i) as nat;
    if i == 0 && f == 0 {
        "No findings reported.\n"@
    } else if i == 0 {
        "Found "@ + counted(f, "finding"@) + ":\n"@
    } else if f == 0 {
        "Found "@ + counted(i, "issue"@) + ":\n"@
    } else {
        "Found "@ + counted(i, "issue"@) + " and "@ + counted(f, "finding"@) + ":\n"@
    }
}

fn counted_text(n: usize, noun: &str) -> (r: String)
    ensures
        r@ == counted(n as nat, noun@),
{
    let t = concat(concat(decimal_string(n as u64).as_str(), " ").as_str(), noun);
    if n == 1 {
        t
    } else {
        concat(t.as_str(), "s")
    }
}

/// How a task's result is announced.
pub fn task_outcome_line(findings: &Vec<Finding>) -> (r: String)
    ensures
        r@ == task_outcome(findings@),
{
    let mut issues: usize = 0;
    let mut k: usize = 0;
    assert(findings@.take(0) =~= Seq::<Finding>::empty());
    while k < findings.len()
        invariant
            k <= findings@.len(),
            issues == issue_count(findings@.take(k as int)),
            issues <= k,
        decreases findings@.len() - k,
    {
        proof {
            assert(findings@.take(k + 1).drop_last() =~= findings@.take(k as int));
            assert(findings@.take(k + 1).last() == findings@[k as int]);
        }
        let s = findings[k].severity;
        if s == Severity::Critical || s == Severity::High || s == Severity::Medium {
            issues = issues + 1;
        }
        k = k + 1;
    }
    assert(findings@.take(k as int) =~= findings@);
    let others = findings.len() - issues;
    if issues == 0 && others == 0 {
        owned("No findings reported.\n")
    } else if issues == 0 {
        concat(concat("Found ", counted_text(others, "finding").as_str()).as_str(), ":\n")
    } else if others == 0 {
        concat(concat("Found ", counted_text(issues, "issue").as_str()).as_str(), ":\n")
    } else {
        let a = concat(concat("Found ", counted_text(issues, "issue").as_str()).as_str(), " and ");
        concat(concat(a.as_str(), counted_text(others, "finding").as_str()).as_str(), ":\n")
    }
}

/// The first half of a new task's template, up to its name.
pub const TASK_TEMPLATE_HEAD: &'static str = "# Task definition for ";

/// The part of a new task's template after its prompt placeholders.
pub const TASK_TEMPLATE_BODY: &'static str = "description: Analyze Kafka cluster for specific issues\ncategory: cluster_hygiene\n\n# The prompt sent to the AI\n# Available placeholders: {logs}, {config}, {metrics}, {admin}, {topics}\nprompt: |\n  Analyze this Kafka cluster data for issues:\n  \n  Cluster Data:\n  {admin}\n  \n  Configuration:\n  {config}\n  \n  Please identify any problems and provide recommendations.\n  \n  Format your response as JSON with a \"findings\" array.\n\n# Which data to include (leave empty for all)\ninclude_data: []\n\n# Keywords that indicate severity levels\nseverity_keywords:\n  critical: \"critical\"\n  high: \"high\" \n  medium: \"medium\"\n  low: \"low\"\n\ndefault_severity: medium\nenabled: true\n";

/// The name a new task gets when none is given.
pub open spec fn new_task_name(id: Seq<char>, name: Option<Seq<char>>) -> Seq<char> {
    match name {
        Some(n) => n,
        None => "New Task "@ + id,
    }
}

/// The YAML text of a new task from the template.
pub fn task_template(id: &str, name: Option<&str>) -> (r: String)
    ensures
        r@ == TASK_TEMPLATE_HEAD@ + new_task_name(id@, match name { Some(n) => Some(n@), None => None }) + "\nid: "@ + id@
            + "\nname: "@ + new_task_name(id@, match name { Some(n) => Some(n@), None => None }) + "\n"@
            + TASK_TEMPLATE_BODY@,
{
    let task_name = match name {
        Some(n) => owned(n),
        None => concat("New Task ", id),
    };
    let a = concat(concat(TASK_TEMPLATE_HEAD, task_name.as_str()).as_str(), "\nid: ");
    let b = concat(concat(concat(a.as_str(), id).as_str(), "\nname: ").as_str(), task_name.as_str());
    concat(concat(b.as_str(), "\n").as_str(), TASK_TEMPLATE_BODY)
}

/// How many lines of an SSH configuration declare a host without a wildcard.
pub open spec fn ssh_host_lines(ls: Seq<Seq<char>>) -> nat
    decreases ls.len(),
{
    if ls.len() == 0 {
        0
    } else {
        ssh_host_lines(ls.drop_last()) + if starts_with(trim_start(ls.last()), "Host "@) && !contains(
            ls.last(),
            "*"@,
        ) {
            1nat
        } else {
            0nat
        }
    }
}

fn without_leading_ws(s: &str) -> (r: String)
    ensures
        r@ == trim_start(s@),
{
    let v = chars_of(s);
    let mut i: usize = 0;
    while i < v.len() && is_whitespace(v[i])
        invariant
            i <= v@.len(),
            forall|j: int| 0 <= j < i ==> is_ws(v@[j]),
        decreases v@.len() - i,
    {
        i = i + 1;
    }
    proof {
        lemma_trim_start_skip(v@, i as int);
        assert(v@.skip(i as int).len() > 0 ==> !is_ws(v@.skip(i as int)[0]));
        if i < v@.len() {
            assert(v@.skip(i as int)[0] == v@[i as int]);
        }
    }
    let r = string_of(&v, i, v.len());
    assert(r@ =~= v@.skip(i as int));
    r
}

/// How many hosts an SSH configuration declares without a wildcard.
pub fn count_ssh_hosts(content: &str) -> (n: usize)
    ensures
        n == ssh_host_lines(lines(content@)),
{
    let ls = split_lines(content);
    let ghost sl = lines(content@);
    let mut n: usize = 0;
    let mut i: usize = 0;
    assert(sl.take(0) =~= Seq::<Seq<char>>::empty());
    while i < ls.len()
        invariant
            i <= ls@.len() == sl.len(),
            ls@.map_values(|x: String| x@) == sl,
            n == ssh_host_lines(sl.take(i as int)),
            n <= i,
        decreases ls@.len() - i,
    {
        proof {
            assert(ls@.map_values(|x: String| x@)[i as int] == ls@[i as int]@);
            assert(sl.take(i + 1).drop_last() =~= sl.take(i as int));
        }
        let t = without_leading_ws(ls[i].as_str());
        if str_starts_with(t.as_str(), "Host ") && !str_contains(ls[i].as_str(), "*") {
            n = n + 1;
        }
        i = i + 1;
    }
    assert(sl.take(i as int) =~= sl);
    n
}

} // verus!
