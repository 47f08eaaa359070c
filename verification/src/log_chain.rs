//! The log discovery chain on a broker, step by step: find the Kafka process, ask
//! systemd for its unit, read the unit and its environment file, read the log4j
//! configuration and have it read (by the model when one answers, else plainly), then
//! collect the logs it names and, when the broker writes to stdout, its journal. Each
//! step names one command; what the command printed decides the next step.
use vstd::prelude::*;
use crate::text::{trim, starts_with, lines, words, opt_text, owned, concat, trimmed};
use crate::numbers::{decimal, decimal_string};
use crate::strmap::StrMap;
use crate::json::JsonValue;
use crate::config_search::sudo_read;
use crate::log_sources::{
    LogOutputInfo, LogFileLocation, Log4jParser, LlmLogAnalyzer, location_view, file_locations, mentions_console,
    listed_locations, member_flag, member_text, prompt_head, prompt_middle, prompt_tail, joined_vars,
};
use crate::process_info::{
    KafkaProcessInfo, SystemdServiceInfo, EnhancedLogResult, ProcessParser, SystemdParser, ProcessParseError,
    SystemdParseError, process_of, process_info_fails_hard, config_paths_of, log4j_path_in, service_name_of,
    unit_scan, env_file_scan, clean_log4j_path, collected_log_name,
};
use crate::text::file_name_of;

verus! {

/// Where the chain stands.
#[derive(Clone, Copy, Debug)]
pub enum ChainStage {
    /// Looking for the Kafka process with the `ps` pattern at this index.
    FindProcess(usize),
    /// Listing the Java processes after no pattern matched.
    ListJava,
    /// Asking systemd which unit runs the process.
    UnitOfPid,
    /// Reading the unit.
    ReadUnit,
    /// Reading the unit's environment file.
    ReadEnvironment,
    /// Reading the log4j configuration the process names.
    ReadLog4j,
    /// Waiting for the model's reading of the log4j configuration.
    AskModel,
    /// Collecting the log file at this index of the outputs.
    CollectFile(usize),
    /// Collecting the unit's journal.
    CollectJournal,
    /// The chain is over.
    Done,
}

/// What the chain needs done next.
pub enum ChainCommand {
    /// Run this command on the broker and hand back what it printed.
    Run(String),
    /// Ask the model this prompt and hand back the JSON of its answer, if any.
    AskModel(String),
}

/// The chain and everything it found so far.
pub struct LogChain {
    pub stage: ChainStage,
    pub process: Option<KafkaProcessInfo>,
    /// The unit that runs the process, once systemd named it.
    pub unit_name: String,
    /// The unit as read, with the variables of its environment file.
    pub unit: Option<SystemdServiceInfo>,
    pub log4j_content: String,
    pub output: Option<LogOutputInfo>,
    pub logs: StrMap,
    pub steps: Vec<String>,
    pub warnings: Vec<String>,
}

/// The texts of strings.
pub open spec fn texts(v: Seq<String>) -> Seq<Seq<char>> {
    v.map_values(|s: String| s@)
}

/// The `ps` patterns the process is looked for with, in order.
pub open spec fn process_pattern(k: nat) -> Seq<char> {
    if k == 0 {
        "ps aux | grep -E 'java.*kafka\\.Kafka[^a-zA-Z]' | grep -v grep"@
    } else if k == 1 {
        "ps aux | grep -E 'java.*org\\.apache\\.kafka\\.Kafka' | grep -v grep"@
    } else if k == 2 {
        "ps aux | grep -E 'java.*KafkaServerStart' | grep -v grep"@
    } else if k == 3 {
        "ps aux | grep -E 'kafka.*server.*start' | grep -v grep"@
    } else {
        "ps aux | grep -E 'java.*kafka' | grep -v grep"@
    }
}

/// How a `ps` reading error is reported.
pub open spec fn process_error_text(e: ProcessParseError) -> Seq<char> {
    match e {
        ProcessParseError::EmptyOutput => "Empty ps output"@,
        ProcessParseError::InvalidFormat => "Invalid ps output format"@,
        ProcessParseError::InvalidPid => "Failed to parse PID"@,
    }
}

/// How a systemctl status reading error is reported.
pub open spec fn unit_error_text(e: SystemdParseError) -> Seq<char> {
    match e {
        SystemdParseError::EmptyStatus => "Empty systemctl status output"@,
        SystemdParseError::ServiceNameNotFound => "Could not parse service name from status output"@,
    }
}

/// A process read from `ps` output.
pub open spec fn process_read(info: KafkaProcessInfo, ps: Seq<char>) -> bool {
    &&& process_of(ps) == Ok::<(u32, Seq<char>), ProcessParseError>((info.pid, info.command_line@))
    &&& info.config_paths@.map_values(|p: String| p@) == config_paths_of(words(info.command_line@))
    &&& opt_text(info.log4j_path) == log4j_path_in(words(info.command_line@))
    &&& info.service_name is None
    &&& info.environment_vars@ == Map::<Seq<char>, Seq<char>>::empty()
}

/// A unit read from `systemctl cat` output, before its environment file.
pub open spec fn unit_read(u: SystemdServiceInfo, name: Seq<char>, content: Seq<char>) -> bool {
    &&& u.service_name@ == name
    &&& u.service_content@ == content
    &&& (opt_text(u.environment_file), u.environment_vars@, opt_text(u.exec_start)) == unit_scan(lines(content))
}

/// The log4j configuration path as a file path: a `file:` prefix dropped.
pub open spec fn cleaned_log4j(p: Seq<char>) -> Seq<char> {
    if starts_with(p, "file:"@) {
        p.skip(5)
    } else {
        p
    }
}

/// The prompt that asks the model where a log4j configuration writes.
pub open spec fn analysis_prompt(content: Seq<char>, env: StrMap) -> Seq<char> {
    prompt_head() + joined_vars(env.key_seq(), env@) + prompt_middle() + content + prompt_tail()
}

/// The log outputs of a configuration read plainly.
pub open spec fn plain_output(content: Seq<char>, env: StrMap, r: LogOutputInfo) -> bool {
    &&& r.log_files@.map_values(|l: LogFileLocation| location_view(l)) == file_locations(lines(content), env)
    &&& r.uses_stdout == mentions_console(lines(content))
    &&& r.uses_journald == r.uses_stdout
    &&& r.log4j_analysis@ == "Basic parsing"@
}

/// The log outputs taken: the model's answer when it lists log files, else the plain
/// reading of the configuration.
pub open spec fn output_read(answer: Option<JsonValue>, content: Seq<char>, env: StrMap, r: LogOutputInfo) -> bool {
    match answer {
        Some(v) => if listed_locations(v).len() > 0 {
            &&& r.log_files@.map_values(|l: LogFileLocation| location_view(l)) == listed_locations(v)
            &&& r.uses_stdout == member_flag(v, "uses_stdout"@)
            &&& r.uses_journald == member_flag(v, "uses_journald"@)
            &&& r.log4j_analysis@ == (match member_text(v, "analysis"@) {
                Some(t) => t,
                None => "LLM analysis"@,
            })
        } else {
            plain_output(content, env, r)
        },
        None => plain_output(content, env, r),
    }
}

/// The name a collected log is kept under.
pub open spec fn log_name(l: LogFileLocation) -> Seq<char> {
    l.log_type@ + "_"@ + match file_name_of(l.path@) {
        Some(n) => n,
        None => Seq::empty(),
    }
}

/// Whether the chain's stage fits what it found.
pub open spec fn chain_wf(c: LogChain) -> bool {
    match c.stage {
        ChainStage::FindProcess(k) => k < 5,
        ChainStage::ListJava => true,
        ChainStage::UnitOfPid => c.process is Some,
        ChainStage::ReadUnit => c.process is Some,
        ChainStage::ReadEnvironment => c.process is Some && (c.unit matches Some(u) && u.environment_file is Some),
        ChainStage::ReadLog4j => c.process matches Some(p) && p.log4j_path is Some && c.unit is Some,
        ChainStage::AskModel => c.unit is Some,
        ChainStage::CollectFile(i) => c.unit is Some && (c.output matches Some(o) && i < o.log_files@.len()),
        ChainStage::CollectJournal => c.unit is Some && c.output is Some,
        ChainStage::Done => true,
    }
}

/// The command a stage needs: a broker command, or a prompt for the model.
pub open spec fn chain_command(c: LogChain) -> Option<(bool, Seq<char>)> {
    match c.stage {
        ChainStage::FindProcess(k) => Some((true, process_pattern(k as nat))),
        ChainStage::ListJava => Some((true, "ps aux | grep java | grep -v grep"@)),
        ChainStage::UnitOfPid => Some((true, "systemctl status "@ + decimal(c.process.unwrap().pid as nat) + " 2>/dev/null"@)),
        ChainStage::ReadUnit => Some((true, "systemctl cat "@ + c.unit_name@ + " 2>/dev/null"@)),
        ChainStage::ReadEnvironment => Some((true, sudo_read(c.unit.unwrap().environment_file.unwrap()@))),
        ChainStage::ReadLog4j => Some((true, sudo_read(cleaned_log4j(c.process.unwrap().log4j_path.unwrap()@)))),
        ChainStage::AskModel => Some((false, analysis_prompt(c.log4j_content@, c.unit.unwrap().environment_vars))),
        ChainStage::CollectFile(i) => Some(
            (true, "sudo tail -500 '"@ + c.output.unwrap().log_files@[i as int].path@ + "' 2>/dev/null"@),
        ),
        ChainStage::CollectJournal => Some(
            (true, "journalctl -u "@ + c.unit_name@ + " -n 500 --no-pager 2>/dev/null"@),
        ),
        ChainStage::Done => None,
    }
}

/// The data found so far is the same in both.
pub open spec fn same_data(a: LogChain, b: LogChain) -> bool {
    &&& b.process == a.process
    &&& b.unit_name@ == a.unit_name@
    &&& b.unit == a.unit
    &&& b.log4j_content@ == a.log4j_content@
    &&& b.output == a.output
    &&& b.logs@ == a.logs@
}

/// The notes of `b` are those of `a` with `s` steps and `w` warnings added.
pub open spec fn noted(a: LogChain, b: LogChain, s: Seq<Seq<char>>, w: Seq<Seq<char>>) -> bool {
    texts(b.steps@) == texts(a.steps@) + s && texts(b.warnings@) == texts(a.warnings@) + w
}

/// The chain stops with a warning, its data unchanged.
pub open spec fn stopped(a: LogChain, b: LogChain, w: Seq<char>) -> bool {
    b.stage is Done && same_data(a, b) && noted(a, b, Seq::empty(), seq![w])
}

/// The chain moves to `stage`, its data and notes unchanged.
pub open spec fn moved(a: LogChain, b: LogChain, stage: ChainStage) -> bool {
    b.stage == stage && same_data(a, b) && noted(a, b, Seq::empty(), Seq::empty())
}

/// Once the unit is read (with its environment file): the log4j configuration is read
/// when the process names one, else the chain stops.
pub open spec fn after_unit(a: LogChain, b: LogChain) -> bool {
    if a.process.unwrap().log4j_path is Some {
        b.stage == ChainStage::ReadLog4j && noted(a, b, seq!["Parsed systemd service configuration"@], Seq::empty())
    } else {
        b.stage is Done && noted(
            a,
            b,
            seq!["Parsed systemd service configuration"@],
            seq!["No log4j configuration path found"@],
        )
    }
}

/// The collection after the file at `i`: the next file, else the journal when the
/// broker writes to stdout, else the chain ends noting how many logs it collected.
pub open spec fn after_file(a: LogChain, b: LogChain, i: nat, o: LogOutputInfo) -> bool {
    if i < o.log_files@.len() {
        b.stage == ChainStage::CollectFile(i as usize) && noted(a, b, Seq::empty(), Seq::empty())
    } else if o.uses_journald || o.uses_stdout {
        b.stage == ChainStage::CollectJournal && noted(a, b, Seq::empty(), Seq::empty())
    } else {
        collection_over(a, b)
    }
}

/// The chain ends, noting how many logs it collected.
pub open spec fn collection_over(a: LogChain, b: LogChain) -> bool {
    b.stage is Done && noted(
        a,
        b,
        seq!["Collected logs from "@ + decimal(b.logs@.dom().len()) + " sources"@],
        Seq::empty(),
    )
}

/// What a command's output does to the chain (`Err` carries the reason it could not be
/// run).
pub open spec fn output_step(a: LogChain, out: Result<Seq<char>, Seq<char>>, b: LogChain) -> bool {
    match a.stage {
        ChainStage::FindProcess(k) => match out {
            Err(e) => stopped(a, b, "Failed to find Kafka Java process: "@ + e),
            Ok(s) => if trim(s).len() == 0 {
                moved(a, b, if k + 1 < 5 { ChainStage::FindProcess((k + 1) as usize) } else { ChainStage::ListJava })
            } else {
                match process_of(s) {
                    Ok(_) => {
                        &&& b.stage == ChainStage::UnitOfPid
                        &&& b.process matches Some(info) && process_read(info, s)
                        &&& b.unit_name@ == a.unit_name@ && b.unit == a.unit && b.log4j_content@ == a.log4j_content@
                        &&& b.output == a.output && b.logs@ == a.logs@
                        &&& noted(a, b, seq!["Found Kafka Java process via ps aux"@], Seq::empty())
                    },
                    Err(pe) => stopped(a, b, "Failed to find Kafka Java process: "@ + process_error_text(pe)),
                }
            },
        },
        ChainStage::ListJava => match out {
            Err(e) => stopped(a, b, "Failed to find Kafka Java process: "@ + e),
            Ok(_) => stopped(
                a,
                b,
                "Failed to find Kafka Java process: No Kafka Java process found after trying all patterns"@,
            ),
        },
        ChainStage::UnitOfPid => match out {
            Err(e) => stopped(a, b, "Failed to get systemd service information: "@ + e),
            Ok(s) => if trim(s).len() == 0 {
                stopped(
                    a,
                    b,
                    "Failed to get systemd service information: Process "@ + decimal(a.process.unwrap().pid as nat)
                        + " is not managed by systemd"@,
                )
            } else {
                match service_name_of(s) {
                    Ok(n) => {
                        &&& b.stage == ChainStage::ReadUnit
                        &&& b.unit_name@ == n
                        &&& b.process == a.process && b.unit == a.unit && b.log4j_content@ == a.log4j_content@
                        &&& b.output == a.output && b.logs@ == a.logs@
                        &&& noted(a, b, seq!["Retrieved systemd service: "@ + n], Seq::empty())
                    },
                    Err(se) => stopped(a, b, "Failed to get systemd service information: "@ + unit_error_text(se)),
                }
            },
        },
        ChainStage::ReadUnit => match out {
            Err(e) => stopped(a, b, "Failed to parse systemd configuration: "@ + e),
            Ok(s) => if trim(s).len() == 0 {
                stopped(a, b, "Failed to parse systemd configuration: Could not get service configuration for "@ + a.unit_name@)
            } else {
                &&& b.unit matches Some(u) && unit_read(u, a.unit_name@, s)
                &&& b.process == a.process && b.unit_name@ == a.unit_name@ && b.log4j_content@ == a.log4j_content@
                &&& b.output == a.output && b.logs@ == a.logs@
                &&& if b.unit.unwrap().environment_file is Some {
                    b.stage == ChainStage::ReadEnvironment && noted(a, b, Seq::empty(), Seq::empty())
                } else {
                    after_unit(a, b)
                }
            },
        },
        ChainStage::ReadEnvironment => {
            let u = a.unit.unwrap();
            &&& b.unit matches Some(v) && v.service_name == u.service_name && v.service_content == u.service_content
                && v.environment_file == u.environment_file && v.exec_start == u.exec_start
                && v.environment_vars@ == (match out {
                    Ok(s) => u.environment_vars@.union_prefer_right(env_file_scan(lines(s))),
                    Err(_) => u.environment_vars@,
                })
            &&& b.process == a.process && b.unit_name@ == a.unit_name@ && b.log4j_content@ == a.log4j_content@
            &&& b.output == a.output && b.logs@ == a.logs@
            &&& after_unit(a, b)
        },
        ChainStage::ReadLog4j => match out {
            Err(e) => stopped(a, b, "Failed to analyze log4j configuration: "@ + e),
            Ok(s) => if trim(s).len() == 0 {
                stopped(a, b, "Failed to analyze log4j configuration: Could not read log4j configuration file"@)
            } else {
                &&& b.stage == ChainStage::AskModel
                &&& b.log4j_content@ == s
                &&& b.process == a.process && b.unit_name@ == a.unit_name@ && b.unit == a.unit
                &&& b.output == a.output && b.logs@ == a.logs@
                &&& noted(a, b, Seq::empty(), Seq::empty())
            },
        },
        ChainStage::CollectFile(i) => {
            let o = a.output.unwrap();
            let l = o.log_files@[i as int];
            &&& b.logs@ == (match out {
                Ok(s) => if trim(s).len() > 0 { a.logs@.insert(log_name(l), s) } else { a.logs@ },
                Err(_) => a.logs@,
            })
            &&& b.process == a.process && b.unit_name@ == a.unit_name@ && b.unit == a.unit
            &&& b.log4j_content@ == a.log4j_content@ && b.output == a.output
            &&& after_file(a, b, (i + 1) as nat, o)
        },
        ChainStage::CollectJournal => {
            &&& b.logs@ == (match out {
                Ok(s) => if trim(s).len() > 0 { a.logs@.insert("journald_service_logs"@, s) } else { a.logs@ },
                Err(_) => a.logs@,
            })
            &&& b.process == a.process && b.unit_name@ == a.unit_name@ && b.unit == a.unit
            &&& b.log4j_content@ == a.log4j_content@ && b.output == a.output
            &&& collection_over(a, b)
        },
        _ => b == a,
    }
}

/// What the model's reading does to the chain, given the outputs taken: the reading is
/// noted, then collection starts at the first file.
pub open spec fn answer_step(a: LogChain, b: LogChain) -> bool {
    let o = b.output.unwrap();
    &&& b.process == a.process && b.unit == a.unit && b.unit_name@ == a.unit_name@
    &&& b.log4j_content@ == a.log4j_content@ && b.logs@ == a.logs@
    &&& texts(b.warnings@) == texts(a.warnings@)
    &&& if o.log_files@.len() > 0 {
        b.stage == ChainStage::CollectFile(0) && texts(b.steps@) == texts(a.steps@).push("Analyzed log4j for log destinations"@)
    } else if o.uses_journald || o.uses_stdout {
        b.stage == ChainStage::CollectJournal && texts(b.steps@) == texts(a.steps@).push("Analyzed log4j for log destinations"@)
    } else {
        b.stage is Done && texts(b.steps@) == texts(a.steps@).push("Analyzed log4j for log destinations"@).push(
            "Collected logs from "@ + decimal(b.logs@.dom().len()) + " sources"@,
        )
    }
}

fn pattern_of(k: usize) -> (r: &'static str)
    ensures
        r@ == process_pattern(k as nat),
{
    if k == 0 {
        "ps aux | grep -E 'java.*kafka\\.Kafka[^a-zA-Z]' | grep -v grep"
    } else if k == 1 {
        "ps aux | grep -E 'java.*org\\.apache\\.kafka\\.Kafka' | grep -v grep"
    } else if k == 2 {
        "ps aux | grep -E 'java.*KafkaServerStart' | grep -v grep"
    } else if k == 3 {
        "ps aux | grep -E 'kafka.*server.*start' | grep -v grep"
    } else {
        "ps aux | grep -E 'java.*kafka' | grep -v grep"
    }
}

impl ProcessParseError {
    /// How the error is reported.
    pub fn message(&self) -> (r: &'static str)
        ensures
            r@ == process_error_text(*self),
    {
        match self {
            ProcessParseError::EmptyOutput => "Empty ps output",
            ProcessParseError::InvalidFormat => "Invalid ps output format",
            ProcessParseError::InvalidPid => "Failed to parse PID",
        }
    }
}

impl SystemdParseError {
    /// How the error is reported.
    pub fn message(&self) -> (r: &'static str)
        ensures
            r@ == unit_error_text(*self),
    {
        match self {
            SystemdParseError::EmptyStatus => "Empty systemctl status output",
            SystemdParseError::ServiceNameNotFound => "Could not parse service name from status output",
        }
    }
}

fn sudo_read_of(path: &str) -> (r: String)
    ensures
        r@ == sudo_read(path@),
{
    concat(concat("sudo cat '", path).as_str(), "' 2>/dev/null")
}

impl LogChain {
    /// A chain at its first step, having found nothing.
    pub fn new() -> (c: LogChain)
        ensures
            chain_wf(c),
            c.stage == ChainStage::FindProcess(0),
            c.process is None && c.unit is None && c.output is None,
            c.logs@ == Map::<Seq<char>, Seq<char>>::empty(),
            c.steps@.len() == 0 && c.warnings@.len() == 0,
            c.unit_name@.len() == 0 && c.log4j_content@.len() == 0,
    {
        LogChain {
            stage: ChainStage::FindProcess(0),
            process: None,
            unit_name: String::new(),
            unit: None,
            log4j_content: String::new(),
            output: None,
            logs: StrMap::new(),
            steps: Vec::new(),
            warnings: Vec::new(),
        }
    }

    /// What the chain needs done next; none once it is over.
    pub fn command(&self) -> (r: Option<ChainCommand>)
        requires
            chain_wf(*self),
        ensures
            match r {
                Some(ChainCommand::Run(c)) => chain_command(*self) == Some((true, c@)),
                Some(ChainCommand::AskModel(p)) => chain_command(*self) == Some((false, p@)),
                None => chain_command(*self) is None,
            },
    {
        match self.stage {
            ChainStage::FindProcess(k) => Some(ChainCommand::Run(owned(pattern_of(k)))),
            ChainStage::ListJava => Some(ChainCommand::Run(owned("ps aux | grep java | grep -v grep"))),
            ChainStage::UnitOfPid => {
                let pid = match &self.process {
                    Some(p) => p.pid,
                    None => 0,
                };
                let n = decimal_string(pid as u64);
                Some(ChainCommand::Run(concat(concat("systemctl status ", n.as_str()).as_str(), " 2>/dev/null")))
            },
            ChainStage::ReadUnit => Some(
                ChainCommand::Run(concat(concat("systemctl cat ", self.unit_name.as_str()).as_str(), " 2>/dev/null")),
            ),
            ChainStage::ReadEnvironment => {
                let path = match &self.unit {
                    Some(u) => match &u.environment_file {
                        Some(f) => f.as_str(),
                        None => "",
                    },
                    None => "",
                };
                Some(ChainCommand::Run(sudo_read_of(path)))
            },
            ChainStage::ReadLog4j => {
                let path = match &self.process {
                    Some(p) => match &p.log4j_path {
                        Some(l) => clean_log4j_path(l.as_str()),
                        None => String::new(),
                    },
                    None => String::new(),
                };
                proof {
                    reveal_strlit("file:");
                }
                Some(ChainCommand::Run(sudo_read_of(path.as_str())))
            },
            ChainStage::AskModel => {
                let prompt = match &self.unit {
                    Some(u) => LlmLogAnalyzer::create_analysis_prompt(self.log4j_content.as_str(), &u.environment_vars),
                    None => String::new(),
                };
                Some(ChainCommand::AskModel(prompt))
            },
            ChainStage::CollectFile(i) => {
                let path = match &self.output {
                    Some(o) => o.log_files[i].path.as_str(),
                    None => "",
                };
                Some(ChainCommand::Run(concat(concat("sudo tail -500 '", path).as_str(), "' 2>/dev/null")))
            },
            ChainStage::CollectJournal => Some(
                ChainCommand::Run(
                    concat(concat("journalctl -u ", self.unit_name.as_str()).as_str(), " -n 500 --no-pager 2>/dev/null"),
                ),
            ),
            ChainStage::Done => None,
        }
    }

    /// Whether reading `out` as the output of this step would cut a character in two
    /// (the process search reads the command column of `ps` output).
    pub fn reading_fails_hard(&self, out: &str) -> (b: bool)
        ensures
            b == (self.stage is FindProcess && trim(out@).len() > 0 && process_info_fails_hard(out@)),
    {
        match self.stage {
            ChainStage::FindProcess(_) => {
                let t = trimmed(out);
                !t.as_str().is_empty() && crate::process_info::process_info_fails_hard_exec(out)
            },
            _ => false,
        }
    }

    fn stop(&mut self, warning: String)
        ensures
            stopped(*old(self), *final(self), warning@),
    {
        self.stage = ChainStage::Done;
        let ghost before = texts(self.warnings@);
        self.warnings.push(warning);
        assert(texts(self.warnings@) =~= before + seq![warning@]);
        assert(texts(self.steps@) =~= texts(old(self).steps@) + Seq::<Seq<char>>::empty());
    }

    fn note_step(&mut self, step: String)
        ensures
            final(self).stage == old(self).stage,
            same_data(*old(self), *final(self)),
            noted(*old(self), *final(self), seq![step@], Seq::empty()),
    {
        let ghost before = texts(self.steps@);
        self.steps.push(step);
        assert(texts(self.steps@) =~= before + seq![step@]);
        assert(texts(self.warnings@) =~= texts(old(self).warnings@) + Seq::<Seq<char>>::empty());
    }

    fn unit_done(&mut self)
        requires
            old(self).process is Some,
            old(self).unit is Some,
        ensures
            after_unit(*old(self), *final(self)),
            same_data(*old(self), *final(self)),
            chain_wf(*final(self)),
    {
        let ghost a = *self;
        let has_log4j = match &self.process {
            Some(p) => p.log4j_path.is_some(),
            None => false,
        };
        let ghost s0 = texts(self.steps@);
        let ghost w0 = texts(self.warnings@);
        self.steps.push(owned("Parsed systemd service configuration"));
        if has_log4j {
            self.stage = ChainStage::ReadLog4j;
            assert(texts(self.warnings@) =~= w0 + Seq::<Seq<char>>::empty());
        } else {
            self.stage = ChainStage::Done;
            self.warnings.push(owned("No log4j configuration path found"));
            assert(texts(self.warnings@) =~= w0 + seq!["No log4j configuration path found"@]);
        }
        assert(texts(self.steps@) =~= s0 + seq!["Parsed systemd service configuration"@]);
    }

    fn collect_from(&mut self, i: usize)
        requires
            old(self).output is Some,
            old(self).unit is Some,
            i <= old(self).output.unwrap().log_files@.len(),
        ensures
            after_file(*old(self), *final(self), i as nat, old(self).output.unwrap()),
            same_data(*old(self), *final(self)),
            chain_wf(*final(self)),
    {
        let (n, journal) = match &self.output {
            Some(o) => (o.log_files.len(), o.uses_journald || o.uses_stdout),
            None => (0, false),
        };
        if i < n {
            self.stage = ChainStage::CollectFile(i);
            assert(texts(self.steps@) =~= texts(old(self).steps@) + Seq::<Seq<char>>::empty());
            assert(texts(self.warnings@) =~= texts(old(self).warnings@) + Seq::<Seq<char>>::empty());
        } else if journal {
            self.stage = ChainStage::CollectJournal;
            assert(texts(self.steps@) =~= texts(old(self).steps@) + Seq::<Seq<char>>::empty());
            assert(texts(self.warnings@) =~= texts(old(self).warnings@) + Seq::<Seq<char>>::empty());
        } else {
            self.finish_collection();
        }
    }

    fn finish_collection(&mut self)
        ensures
            collection_over(*old(self), *final(self)),
            same_data(*old(self), *final(self)),
    {
        let count = decimal_string(self.logs.len() as u64);
        let step = concat(concat("Collected logs from ", count.as_str()).as_str(), " sources");
        self.stage = ChainStage::Done;
        let ghost s0 = texts(self.steps@);
        self.steps.push(step);
        assert(texts(self.steps@) =~= s0 + seq![step@]);
        assert(texts(self.warnings@) =~= texts(old(self).warnings@) + Seq::<Seq<char>>::empty());
    }

    /// Takes what the current command printed (`Err` with the reason it could not be run)
    /// and moves the chain on.
    pub fn take_output(&mut self, out: Result<String, String>)
        requires
            chain_wf(*old(self)),
            !(old(self).stage is AskModel),
            !(old(self).stage is Done),
            out matches Ok(s) ==> !(old(self).stage is FindProcess && trim(s@).len() > 0 && process_info_fails_hard(s@)),
        ensures
            chain_wf(*final(self)),
            output_step(
                *old(self),
                match out {
                    Ok(s) => Ok(s@),
                    Err(e) => Err(e@),
                },
                *final(self),
            ),
    {
        match self.stage {
            ChainStage::FindProcess(k) => match out {
                Err(e) => self.stop(concat("Failed to find Kafka Java process: ", e.as_str())),
                Ok(s) => {
                    let t = trimmed(s.as_str());
                    if t.as_str().is_empty() {
                        if k + 1 < 5 {
                            self.stage = ChainStage::FindProcess(k + 1);
                        } else {
                            self.stage = ChainStage::ListJava;
                        }
                        assert(texts(self.steps@) =~= texts(old(self).steps@) + Seq::<Seq<char>>::empty());
                        assert(texts(self.warnings@) =~= texts(old(self).warnings@) + Seq::<Seq<char>>::empty());
                    } else {
                        match ProcessParser::parse_process_info(s.as_str()) {
                            Ok(info) => {
                                self.process = Some(info);
                                self.stage = ChainStage::UnitOfPid;
                                self.note_step(owned("Found Kafka Java process via ps aux"));
                            },
                            Err(pe) => {
                                self.stop(concat("Failed to find Kafka Java process: ", pe.message()));
                            },
                        }
                    }
                },
            },
            ChainStage::ListJava => match out {
                Err(e) => self.stop(concat("Failed to find Kafka Java process: ", e.as_str())),
                Ok(_) => self.stop(
                    owned("Failed to find Kafka Java process: No Kafka Java process found after trying all patterns"),
                ),
            },
            ChainStage::UnitOfPid => match out {
                Err(e) => self.stop(concat("Failed to get systemd service information: ", e.as_str())),
                Ok(s) => {
                    let t = trimmed(s.as_str());
                    if t.as_str().is_empty() {
                        let pid = match &self.process {
                            Some(p) => p.pid,
                            None => 0,
                        };
                        let n = decimal_string(pid as u64);
                        let w = concat(
                            concat("Failed to get systemd service information: Process ", n.as_str()).as_str(),
                            " is not managed by systemd",
                        );
                        self.stop(w);
                    } else {
                        match SystemdParser::extract_service_name(s.as_str()) {
                            Ok(name) => {
                                let step = concat("Retrieved systemd service: ", name.as_str());
                                self.unit_name = name;
                                self.stage = ChainStage::ReadUnit;
                                self.note_step(step);
                            },
                            Err(se) => {
                                self.stop(concat("Failed to get systemd service information: ", se.message()));
                            },
                        }
                    }
                },
            },
            ChainStage::ReadUnit => match out {
                Err(e) => self.stop(concat("Failed to parse systemd configuration: ", e.as_str())),
                Ok(s) => {
                    let t = trimmed(s.as_str());
                    if t.as_str().is_empty() {
                        let w = concat(
                            "Failed to parse systemd configuration: Could not get service configuration for ",
                            self.unit_name.as_str(),
                        );
                        self.stop(w);
                    } else {
                        let (environment_file, environment_vars, exec_start) = SystemdParser::parse_service_content(
                            s.as_str(),
                        );
                        let has_file = environment_file.is_some();
                        let unit = SystemdServiceInfo {
                            service_name: self.unit_name.clone(),
                            service_content: s,
                            environment_file,
                            environment_vars,
                            exec_start,
                        };
                        self.unit = Some(unit);
                        if has_file {
                            self.stage = ChainStage::ReadEnvironment;
                            assert(texts(self.steps@) =~= texts(old(self).steps@) + Seq::<Seq<char>>::empty());
                            assert(texts(self.warnings@) =~= texts(old(self).warnings@) + Seq::<Seq<char>>::empty());
                        } else {
                            self.unit_done();
                        }
                    }
                },
            },
            ChainStage::ReadEnvironment => {
                let taken = self.unit.take();
                match taken {
                    Some(u) => {
                        let SystemdServiceInfo {
                            service_name,
                            service_content,
                            environment_file,
                            mut environment_vars,
                            exec_start,
                        } = u;
                        match &out {
                            Ok(s) => {
                                let file_vars = SystemdParser::parse_environment_file(s.as_str());
                                environment_vars.extend(&file_vars);
                            },
                            Err(_) => {},
                        }
                        self.unit = Some(
                            SystemdServiceInfo {
                                service_name,
                                service_content,
                                environment_file,
                                environment_vars,
                                exec_start,
                            },
                        );
                        self.unit_done();
                    },
                    None => {},
                }
            },
            ChainStage::ReadLog4j => match out {
                Err(e) => self.stop(concat("Failed to analyze log4j configuration: ", e.as_str())),
                Ok(s) => {
                    let t = trimmed(s.as_str());
                    if t.as_str().is_empty() {
                        self.stop(owned("Failed to analyze log4j configuration: Could not read log4j configuration file"));
                    } else {
                        self.log4j_content = s;
                        self.stage = ChainStage::AskModel;
                        assert(texts(self.steps@) =~= texts(old(self).steps@) + Seq::<Seq<char>>::empty());
                        assert(texts(self.warnings@) =~= texts(old(self).warnings@) + Seq::<Seq<char>>::empty());
                    }
                },
            },
            ChainStage::CollectFile(i) => {
                let (name, n) = match &self.output {
                    Some(o) => (collected_log_name(&o.log_files[i]), o.log_files.len()),
                    None => (String::new(), 0),
                };
                assert(i < n);
                match out {
                    Ok(s) => {
                        let t = trimmed(s.as_str());
                        if !t.as_str().is_empty() {
                            self.logs.insert(name, s);
                        }
                    },
                    Err(_) => {},
                }
                self.collect_from(i + 1);
            },
            ChainStage::CollectJournal => {
                match out {
                    Ok(s) => {
                        let t = trimmed(s.as_str());
                        if !t.as_str().is_empty() {
                            self.logs.insert(owned("journald_service_logs"), s);
                        }
                    },
                    Err(_) => {},
                }
                self.finish_collection();
            },
            ChainStage::AskModel => {},
            ChainStage::Done => {},
        }
    }

    /// Takes the JSON of the model's answer about the log4j configuration (none when the
    /// model could not be asked or its answer held no JSON) and starts collecting.
    pub fn take_answer(&mut self, answer: Option<JsonValue>)
        requires
            chain_wf(*old(self)),
            old(self).stage is AskModel,
        ensures
            chain_wf(*final(self)),
            final(self).output matches Some(o) && output_read(
                answer,
                old(self).log4j_content@,
                old(self).unit.unwrap().environment_vars,
                o,
            ),
            answer_step(*old(self), *final(self)),
    {
        let read = match answer {
            Some(v) => Some(Log4jParser::log_output_from_json(&v)),
            None => None,
        };
        let chosen = match &self.unit {
            Some(u) => LlmLogAnalyzer::choose_output(read, self.log4j_content.as_str(), &u.environment_vars),
            None => LlmLogAnalyzer::choose_output(read, self.log4j_content.as_str(), &StrMap::new()),
        };
        self.output = Some(chosen);
        let ghost s0 = texts(old(self).steps@);
        self.note_step(owned("Analyzed log4j for log destinations"));
        let ghost s1 = texts(self.steps@);
        assert(s1 =~= s0.push("Analyzed log4j for log destinations"@));
        self.collect_from(0);
        proof {
            let o = self.output.unwrap();
            if o.log_files@.len() == 0 && !(o.uses_journald || o.uses_stdout) {
                assert(texts(self.steps@) =~= s1 + seq!["Collected logs from "@ + decimal(self.logs@.dom().len()) + " sources"@]);
                assert(s1 + seq!["Collected logs from "@ + decimal(self.logs@.dom().len()) + " sources"@]
                    =~= s0.push("Analyzed log4j for log destinations"@).push(
                    "Collected logs from "@ + decimal(self.logs@.dom().len()) + " sources"@,
                ));
            } else {
                assert(texts(self.steps@) =~= s1 + Seq::<Seq<char>>::empty());
            }
        }
    }

    /// What the chain found, once it is over: a warning that basic discovery is left to
    /// fall back on is added when no log was collected.
    pub fn finish(self) -> (r: EnhancedLogResult)
        ensures
            r.process_info == self.process,
            r.systemd_info == self.unit,
            r.log_output_info == self.output,
            r.discovered_logs@ == self.logs@,
            texts(r.discovery_steps@) == texts(self.steps@),
            texts(r.warnings@) == texts(self.warnings@) + (if self.logs@.dom().len() == 0 {
                seq!["Falling back to basic discovery methods"@]
            } else {
                Seq::empty()
            }),
    {
        let LogChain { stage: _, process, unit_name: _, unit, log4j_content: _, output, logs, steps, mut warnings } = self;
        let ghost w0 = texts(warnings@);
        if logs.len() == 0 {
            warnings.push(owned("Falling back to basic discovery methods"));
            assert(texts(warnings@) =~= w0 + seq!["Falling back to basic discovery methods"@]);
        } else {
            assert(texts(warnings@) =~= w0 + Seq::<Seq<char>>::empty());
        }
        EnhancedLogResult {
            process_info: process,
            systemd_info: unit,
            log_output_info: output,
            discovered_logs: logs,
            discovery_steps: steps,
            warnings,
        }
    }
}

} // verus!
