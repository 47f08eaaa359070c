//! Collecting a broker's own data, step by step. The probe finds the Kafka installation
//! (through the systemd unit of the running process, else its `ps` line), gathers the
//! host's system facts and JVM, and reads the configuration files the running process
//! and its unit name. The data directory probe reads the configured log directories,
//! their sizes and the listening ports. Each step names one command to run on the
//! broker; what it printed decides the next step and which file is saved.
use vstd::prelude::*;
use crate::text::{trim, lines, words, owned, concat, trimmed, replace_all, replace_str, str_eq, split_char};
use crate::log_discovery::split_on_char;
use crate::numbers::{decimal, decimal_string, parse_u32, parse_u32_spec};
use crate::strmap::StrMap;
use crate::collector::{
    BrokerCollector, pid_of_ps, unit_of_status, environment_file_of, path_from_unit, broker_path_from_ps,
    usable_content_spec, usable_content, properties_word, log4j_of_words,
};

verus! {

/// Where the probe stands.
#[derive(Clone, Debug)]
pub enum ProbeStage {
    /// Finding the running Kafka process, to ask systemd about it.
    InstallPs,
    /// Asking systemd which unit runs this process.
    InstallStatus(u32),
    /// Reading this unit for the start script's directory.
    InstallUnit(String),
    /// Reading the installation from the process's `ps` line.
    InstallPsLine,
    /// The system fact at this index.
    System(usize),
    /// The Java version.
    Java,
    /// The Kafka process line.
    Process,
    /// The Kafka process id, for JVM statistics.
    Pgrep,
    /// The JVM's garbage collection statistics for this process id.
    Jstat(String),
    /// The running process, for the configuration files it names.
    RuntimePs,
    /// Reading the `server.properties` the process names.
    RuntimeProps(String),
    /// Reading the log4j configuration at this index of those the process names.
    RuntimeLog4j(usize),
    /// Asking systemd which unit runs the process.
    RuntimeStatus(u32),
    /// Reading the unit file.
    RuntimeUnit(String),
    /// Reading the unit file again, for its environment file.
    RuntimeUnitEnv(String),
    /// Reading the unit's environment file.
    RuntimeEnv(String),
    /// Everything is read.
    Done,
}

/// The probe of a broker and what it gathered so far.
pub struct BrokerProbe {
    pub collector: BrokerCollector,
    pub stage: ProbeStage,
    /// The `bin` directory of the Kafka installation, once found.
    pub install_path: Option<String>,
    pub system_info: StrMap,
    /// The configuration files read, with where each came from.
    pub configs: StrMap,
    /// Whether `server.properties`, a log4j configuration and the unit were read.
    pub have_props: bool,
    pub have_log4j: bool,
    pub have_service: bool,
    /// The log4j configurations the process names, with the names they are kept under.
    pub log4j: Vec<(String, String)>,
    /// The id of the running process, when its `ps` line gave one.
    pub runtime_pid: Option<u32>,
}

/// The system facts gathered, by name.
pub open spec fn fact_name(i: nat) -> Seq<char> {
    if i == 0 {
        "hostname"@
    } else if i == 1 {
        "uptime"@
    } else if i == 2 {
        "memory"@
    } else if i == 3 {
        "disk"@
    } else if i == 4 {
        "cpu"@
    } else if i == 5 {
        "lscpu"@
    } else {
        "cpuinfo"@
    }
}

/// The command gathering each system fact.
pub open spec fn fact_command(i: nat) -> Seq<char> {
    if i == 0 {
        "hostname -f"@
    } else if i == 1 {
        "uptime"@
    } else if i == 2 {
        "free -h"@
    } else if i == 3 {
        "df -h"@
    } else if i == 4 {
        "cat /proc/cpuinfo | grep -E 'processor|model name' | head -20"@
    } else if i == 5 {
        "lscpu 2>/dev/null"@
    } else {
        "cat /proc/cpuinfo 2>/dev/null"@
    }
}

/// The `ps` pattern of the running Kafka process.
pub open spec fn kafka_ps() -> Seq<char> {
    "ps aux | grep -E 'kafka\\.Kafka[^a-zA-Z]' | grep -v grep"@
}

/// The command that reads a file with sudo, quietly.
pub open spec fn read_file(path: Seq<char>) -> Seq<char> {
    "sudo cat '"@ + path + "' 2>/dev/null"@
}

/// The command each stage runs on the broker; none once the probe is done.
pub open spec fn probe_command(p: BrokerProbe) -> Option<Seq<char>> {
    match p.stage {
        ProbeStage::InstallPs => Some(kafka_ps()),
        ProbeStage::InstallStatus(pid) => Some("systemctl status "@ + decimal(pid as nat) + " 2>/dev/null"@),
        ProbeStage::InstallUnit(s) => Some("systemctl cat "@ + s@ + " 2>/dev/null"@),
        ProbeStage::InstallPsLine => Some("ps aux | grep kafka.Kafka | grep -v grep"@),
        ProbeStage::System(i) => Some(fact_command(i as nat)),
        ProbeStage::Java => Some("java -version 2>&1"@),
        ProbeStage::Process => Some("ps aux | grep -E 'kafka\\.Kafka' | grep -v grep"@),
        ProbeStage::Pgrep => Some("pgrep -f 'kafka\\.Kafka' | head -1"@),
        ProbeStage::Jstat(pid) => Some("jstat -gc "@ + pid@ + " 2>/dev/null"@),
        ProbeStage::RuntimePs => Some(kafka_ps()),
        ProbeStage::RuntimeProps(path) => Some(read_file(path@)),
        ProbeStage::RuntimeLog4j(i) => Some(read_file(p.log4j@[i as int].1@)),
        ProbeStage::RuntimeStatus(pid) => Some("systemctl status "@ + decimal(pid as nat) + " 2>/dev/null"@),
        ProbeStage::RuntimeUnit(s) => Some("systemctl cat "@ + s@ + " 2>/dev/null"@),
        ProbeStage::RuntimeUnitEnv(s) => Some("systemctl cat "@ + s@ + " 2>/dev/null"@),
        ProbeStage::RuntimeEnv(path) => Some(read_file(path@)),
        ProbeStage::Done => None,
    }
}

/// The key that records where a configuration file came from.
pub open spec fn source_key(name: Seq<char>) -> Seq<char> {
    replace_all(name, "."@, "_"@) + "_source"@
}

/// Everything but the stage is the same in both.
pub open spec fn probe_kept(a: BrokerProbe, b: BrokerProbe) -> bool {
    &&& b.collector == a.collector
    &&& b.install_path == a.install_path
    &&& b.system_info@ == a.system_info@
    &&& b.configs@ == a.configs@
    &&& b.have_props == a.have_props && b.have_log4j == a.have_log4j && b.have_service == a.have_service
    &&& b.log4j@ == a.log4j@
    &&& b.runtime_pid == a.runtime_pid
}

/// `b` is `a` with the fact `name` recorded as `o`, saved under `path`.
pub open spec fn fact_recorded(
    a: BrokerProbe,
    b: BrokerProbe,
    name: Seq<char>,
    path: Seq<char>,
    out: Option<Seq<char>>,
    w: Option<(Seq<char>, Seq<char>)>,
) -> bool {
    &&& b.collector == a.collector && b.install_path == a.install_path && b.configs@ == a.configs@
    &&& b.have_props == a.have_props && b.have_log4j == a.have_log4j && b.have_service == a.have_service
    &&& b.log4j@ == a.log4j@ && b.runtime_pid == a.runtime_pid
    &&& match out {
        Some(o) => b.system_info@ == a.system_info@.insert(name, o) && w == Some((path, o)),
        None => b.system_info@ == a.system_info@ && w is None,
    }
}

/// `b` is `a` with the configuration file `name` (from `source`) recorded and saved.
pub open spec fn config_recorded(
    a: BrokerProbe,
    b: BrokerProbe,
    name: Seq<char>,
    content: Seq<char>,
    source: Seq<char>,
    w: Option<(Seq<char>, Seq<char>)>,
) -> bool {
    &&& b.collector == a.collector && b.install_path == a.install_path && b.system_info@ == a.system_info@
    &&& b.configs@ == a.configs@.insert(name, content).insert(source_key(name), "enhanced:"@ + source)
    &&& b.have_props == (a.have_props || name == "server.properties"@)
    &&& b.have_log4j == (a.have_log4j || name == "log4j.properties"@)
    &&& b.have_service == (a.have_service || name == "kafka.service"@)
    &&& b.log4j@ == a.log4j@ && b.runtime_pid == a.runtime_pid
    &&& w == Some(("configs/"@ + name, content))
}

/// `b` is `a` with the installation path recorded and saved.
pub open spec fn install_recorded(a: BrokerProbe, b: BrokerProbe, path: Seq<char>, w: Option<(Seq<char>, Seq<char>)>) -> bool {
    &&& b.stage == ProbeStage::System(0)
    &&& b.collector == a.collector && b.configs@ == a.configs@
    &&& b.install_path matches Some(p) && p@ == path
    &&& b.system_info@ == a.system_info@.insert("kafka_installation_path"@, path)
    &&& b.have_props == a.have_props && b.have_log4j == a.have_log4j && b.have_service == a.have_service
    &&& b.log4j@ == a.log4j@ && b.runtime_pid == a.runtime_pid
    &&& w == Some(("system/kafka_installation_path.txt"@, path))
}

/// The read after the configuration at `i` of those the process names: the next one,
/// else the unit of the process, else done.
pub open spec fn after_log4j_read(p: BrokerProbe, i: nat) -> ProbeStage {
    if i < p.log4j@.len() {
        ProbeStage::RuntimeLog4j(i as usize)
    } else {
        match p.runtime_pid {
            Some(pid) => ProbeStage::RuntimeStatus(pid),
            None => ProbeStage::Done,
        }
    }
}

/// What a step's output (none when the command failed) does to the probe, with the file
/// to save, if any.
pub open spec fn probe_step(a: BrokerProbe, out: Option<Seq<char>>, b: BrokerProbe, w: Option<(Seq<char>, Seq<char>)>) -> bool {
    match a.stage {
        ProbeStage::InstallPs => {
            let pid = match out {
                Some(o) => match pid_of_ps(o) {
                    Some(t) => parse_u32_spec(t),
                    None => None,
                },
                None => None,
            };
            &&& b.stage == (match pid {
                Some(p) => ProbeStage::InstallStatus(p),
                None => ProbeStage::InstallPsLine,
            })
            &&& probe_kept(a, b) && w is None
        },
        ProbeStage::InstallStatus(_) => {
            let unit = match out {
                Some(o) => unit_of_status(lines(o), 0),
                None => None,
            };
            &&& match unit {
                Some(u) => b.stage matches ProbeStage::InstallUnit(s) && s@ == u,
                None => b.stage == ProbeStage::InstallPsLine,
            }
            &&& probe_kept(a, b) && w is None
        },
        ProbeStage::InstallUnit(_) => match (match out {
            Some(o) => path_from_unit(lines(o), 0),
            None => None,
        }) {
            Some(path) => install_recorded(a, b, path, w),
            None => b.stage == ProbeStage::InstallPsLine && probe_kept(a, b) && w is None,
        },
        ProbeStage::InstallPsLine => match (match out {
            Some(o) => broker_path_from_ps(o),
            None => None,
        }) {
            Some(path) => install_recorded(a, b, path, w),
            None => b.stage == ProbeStage::System(0) && probe_kept(a, b) && w is None,
        },
        ProbeStage::System(i) => {
            &&& b.stage == (if i + 1 < 7 { ProbeStage::System((i + 1) as usize) } else { ProbeStage::Java })
            &&& fact_recorded(a, b, fact_name(i as nat), "system/"@ + fact_name(i as nat) + ".txt"@, out, w)
        },
        ProbeStage::Java => b.stage == ProbeStage::Process && fact_recorded(
            a,
            b,
            "java_version"@,
            "system/java_version.txt"@,
            out,
            w,
        ),
        ProbeStage::Process => b.stage == ProbeStage::Pgrep && fact_recorded(
            a,
            b,
            "kafka_process"@,
            "system/kafka_process.txt"@,
            out,
            w,
        ),
        ProbeStage::Pgrep => {
            &&& match out {
                Some(o) => if trim(o).len() > 0 {
                    b.stage matches ProbeStage::Jstat(pid) && pid@ == trim(o)
                } else {
                    b.stage == ProbeStage::RuntimePs
                },
                None => b.stage == ProbeStage::RuntimePs,
            }
            &&& probe_kept(a, b) && w is None
        },
        ProbeStage::Jstat(_) => {
            &&& b.stage == ProbeStage::RuntimePs && probe_kept(a, b)
            &&& w == (match out {
                Some(o) => Some(("metrics/jstat_gc.txt"@, o)),
                None => None,
            })
        },
        ProbeStage::RuntimePs => match out {
            Some(ps) => if lines(ps).len() > 0 {
                let ws = words(lines(ps)[0]);
                let pid = match pid_of_ps(ps) {
                    Some(t) => parse_u32_spec(t),
                    None => None,
                };
                &&& b.log4j@.map_values(|e: (String, String)| (e.0@, e.1@)) == log4j_of_words(ws)
                &&& b.runtime_pid == pid
                &&& b.stage == (match properties_word(ws, 0) {
                    Some(path) => b.stage,
                    None => after_log4j_read(b, 0),
                })
                &&& (properties_word(ws, 0) matches Some(path) ==> (b.stage matches ProbeStage::RuntimeProps(s) && s@ == path))
                &&& b.collector == a.collector && b.install_path == a.install_path && b.system_info@ == a.system_info@
                &&& b.configs@ == a.configs@
                &&& b.have_props == a.have_props && b.have_log4j == a.have_log4j && b.have_service == a.have_service
                &&& w is None
            } else {
                b.stage == ProbeStage::Done && probe_kept(a, b) && w is None
            },
            None => b.stage == ProbeStage::Done && probe_kept(a, b) && w is None,
        },
        ProbeStage::RuntimeProps(path) => {
            &&& b.stage == after_log4j_read(a, 0)
            &&& if out matches Some(c) && usable_content_spec(c) {
                config_recorded(a, b, "server.properties"@, out.unwrap(), path@, w)
            } else {
                probe_kept(a, b) && w is None
            }
        },
        ProbeStage::RuntimeLog4j(i) => {
            let entry = a.log4j@[i as int];
            &&& b.stage == after_log4j_read(a, (i + 1) as nat)
            &&& if out matches Some(c) && usable_content_spec(c) {
                config_recorded(a, b, entry.0@, out.unwrap(), entry.1@, w)
            } else {
                probe_kept(a, b) && w is None
            }
        },
        ProbeStage::RuntimeStatus(_) => {
            let unit = match out {
                Some(o) => unit_of_status(lines(o), 0),
                None => None,
            };
            &&& match unit {
                Some(u) => b.stage matches ProbeStage::RuntimeUnit(s) && s@ == u,
                None => b.stage == ProbeStage::Done,
            }
            &&& probe_kept(a, b) && w is None
        },
        ProbeStage::RuntimeUnit(s) => {
            &&& b.stage == ProbeStage::RuntimeUnitEnv(s)
            &&& match out {
                Some(c) => config_recorded(a, b, "kafka.service"@, c, s@, w),
                None => probe_kept(a, b) && w is None,
            }
        },
        ProbeStage::RuntimeUnitEnv(_) => {
            let file = match out {
                Some(o) => environment_file_of(lines(o), 0),
                None => None,
            };
            &&& match file {
                Some(f) => b.stage matches ProbeStage::RuntimeEnv(p) && p@ == f,
                None => b.stage == ProbeStage::Done,
            }
            &&& probe_kept(a, b) && w is None
        },
        ProbeStage::RuntimeEnv(path) => {
            &&& b.stage == ProbeStage::Done
            &&& if out matches Some(c) && usable_content_spec(c) {
                config_recorded(a, b, "kafka.env"@, out.unwrap(), path@, w)
            } else {
                probe_kept(a, b) && w is None
            }
        },
        ProbeStage::Done => b.stage == ProbeStage::Done && probe_kept(a, b) && w is None,
    }
}

/// Whether the stage's indexes stay within their lists.
pub open spec fn probe_wf(p: BrokerProbe) -> bool {
    match p.stage {
        ProbeStage::System(i) => i < 7,
        ProbeStage::RuntimeLog4j(i) => i < p.log4j@.len(),
        _ => true,
    }
}

fn fact_of(i: usize) -> (r: (&'static str, &'static str))
    ensures
        r.0@ == fact_name(i as nat),
        r.1@ == fact_command(i as nat),
{
    if i == 0 {
        ("hostname", "hostname -f")
    } else if i == 1 {
        ("uptime", "uptime")
    } else if i == 2 {
        ("memory", "free -h")
    } else if i == 3 {
        ("disk", "df -h")
    } else if i == 4 {
        ("cpu", "cat /proc/cpuinfo | grep -E 'processor|model name' | head -20")
    } else if i == 5 {
        ("lscpu", "lscpu 2>/dev/null")
    } else {
        ("cpuinfo", "cat /proc/cpuinfo 2>/dev/null")
    }
}

fn join3(a: &str, b: &str, c: &str) -> (r: String)
    ensures
        r@ == a@ + b@ + c@,
{
    concat(concat(a, b).as_str(), c)
}

fn read_file_of(path: &str) -> (r: String)
    ensures
        r@ == read_file(path@),
{
    join3("sudo cat '", path, "' 2>/dev/null")
}

fn pid_of(collector: &BrokerCollector, ps: &str) -> (r: Option<u32>)
    ensures
        r == (match pid_of_ps(ps@) {
            Some(t) => parse_u32_spec(t),
            None => None,
        }),
{
    match collector.extract_pid_from_ps_output(ps) {
        Some(t) => parse_u32(t.as_str()),
        None => None,
    }
}

impl BrokerProbe {
    /// The probe of the broker a collector reads, at its first step.
    pub fn new(collector: BrokerCollector) -> (p: BrokerProbe)
        ensures
            probe_wf(p),
            p.stage == ProbeStage::InstallPs,
            p.collector == collector,
            p.install_path is None,
            p.system_info@ == Map::<Seq<char>, Seq<char>>::empty(),
            p.configs@ == Map::<Seq<char>, Seq<char>>::empty(),
            !p.have_props && !p.have_log4j && !p.have_service,
    {
        BrokerProbe {
            collector,
            stage: ProbeStage::InstallPs,
            install_path: None,
            system_info: StrMap::new(),
            configs: StrMap::new(),
            have_props: false,
            have_log4j: false,
            have_service: false,
            log4j: Vec::new(),
            runtime_pid: None,
        }
    }

    /// The command to run on the broker next; none once the probe is done.
    pub fn command(&self) -> (r: Option<String>)
        requires
            probe_wf(*self),
        ensures
            match r {
                Some(c) => probe_command(*self) == Some(c@),
                None => probe_command(*self) is None,
            },
    {
        match &self.stage {
            ProbeStage::InstallPs => Some(owned("ps aux | grep -E 'kafka\\.Kafka[^a-zA-Z]' | grep -v grep")),
            ProbeStage::InstallStatus(pid) => {
                let n = decimal_string(*pid as u64);
                Some(join3("systemctl status ", n.as_str(), " 2>/dev/null"))
            },
            ProbeStage::InstallUnit(s) => Some(join3("systemctl cat ", s.as_str(), " 2>/dev/null")),
            ProbeStage::InstallPsLine => Some(owned("ps aux | grep kafka.Kafka | grep -v grep")),
            ProbeStage::System(i) => Some(owned(fact_of(*i).1)),
            ProbeStage::Java => Some(owned("java -version 2>&1")),
            ProbeStage::Process => Some(owned("ps aux | grep -E 'kafka\\.Kafka' | grep -v grep")),
            ProbeStage::Pgrep => Some(owned("pgrep -f 'kafka\\.Kafka' | head -1")),
            ProbeStage::Jstat(pid) => Some(join3("jstat -gc ", pid.as_str(), " 2>/dev/null")),
            ProbeStage::RuntimePs => Some(owned("ps aux | grep -E 'kafka\\.Kafka[^a-zA-Z]' | grep -v grep")),
            ProbeStage::RuntimeProps(path) => Some(read_file_of(path.as_str())),
            ProbeStage::RuntimeLog4j(i) => Some(read_file_of(self.log4j[*i].1.as_str())),
            ProbeStage::RuntimeStatus(pid) => {
                let n = decimal_string(*pid as u64);
                Some(join3("systemctl status ", n.as_str(), " 2>/dev/null"))
            },
            ProbeStage::RuntimeUnit(s) => Some(join3("systemctl cat ", s.as_str(), " 2>/dev/null")),
            ProbeStage::RuntimeUnitEnv(s) => Some(join3("systemctl cat ", s.as_str(), " 2>/dev/null")),
            ProbeStage::RuntimeEnv(path) => Some(read_file_of(path.as_str())),
            ProbeStage::Done => None,
        }
    }

    fn record_config(&mut self, name: &str, content: &str, source: &str) -> (w: Option<(String, String)>)
        ensures
            final(self).stage == old(self).stage,
            config_recorded(
                *old(self),
                *final(self),
                name@,
                content@,
                source@,
                match w {
                    Some(x) => Some((x.0@, x.1@)),
                    None => None,
                },
            ),
    {
        proof {
            reveal_strlit(".");
        }
        let key = concat(replace_str(name, ".", "_").as_str(), "_source");
        self.configs.insert(owned(name), owned(content));
        self.configs.insert(key, concat("enhanced:", source));
        if str_eq(name, "server.properties") {
            self.have_props = true;
        }
        if str_eq(name, "log4j.properties") {
            self.have_log4j = true;
        }
        if str_eq(name, "kafka.service") {
            self.have_service = true;
        }
        Some((concat("configs/", name), owned(content)))
    }

    fn record_fact(&mut self, name: &str, path: &str, out: Option<&str>) -> (w: Option<(String, String)>)
        ensures
            final(self).stage == old(self).stage,
            fact_recorded(
                *old(self),
                *final(self),
                name@,
                path@,
                match out {
                    Some(o) => Some(o@),
                    None => None,
                },
                match w {
                    Some(x) => Some((x.0@, x.1@)),
                    None => None,
                },
            ),
    {
        match out {
            Some(o) => {
                self.system_info.insert(owned(name), owned(o));
                Some((owned(path), owned(o)))
            },
            None => None,
        }
    }

    fn record_install(&mut self, path: String) -> (w: Option<(String, String)>)
        ensures
            install_recorded(
                *old(self),
                *final(self),
                path@,
                match w {
                    Some(x) => Some((x.0@, x.1@)),
                    None => None,
                },
            ),
    {
        self.system_info.insert(owned("kafka_installation_path"), path.clone());
        let text = owned(path.as_str());
        self.install_path = Some(path);
        self.stage = ProbeStage::System(0);
        Some((owned("system/kafka_installation_path.txt"), text))
    }

    fn next_after_log4j(&self, i: usize) -> (s: ProbeStage)
        ensures
            s == after_log4j_read(*self, i as nat),
    {
        if i < self.log4j.len() {
            ProbeStage::RuntimeLog4j(i)
        } else {
            match self.runtime_pid {
                Some(pid) => ProbeStage::RuntimeStatus(pid),
                None => ProbeStage::Done,
            }
        }
    }

    /// Takes what the current command printed (none when it failed) and moves on; the
    /// file to save, as a path under the broker's directory and its content, if any.
    pub fn advance(&mut self, out: Option<&str>) -> (w: Option<(String, String)>)
        requires
            probe_wf(*old(self)),
        ensures
            probe_wf(*final(self)),
            probe_step(
                *old(self),
                match out {
                    Some(o) => Some(o@),
                    None => None,
                },
                *final(self),
                match w {
                    Some(x) => Some((x.0@, x.1@)),
                    None => None,
                },
            ),
    {
        let mut stage = ProbeStage::Done;
        std::mem::swap(&mut stage, &mut self.stage);
        match stage {
            ProbeStage::InstallPs => {
                let pid = match out {
                    Some(o) => pid_of(&self.collector, o),
                    None => None,
                };
                self.stage = match pid {
                    Some(p) => ProbeStage::InstallStatus(p),
                    None => ProbeStage::InstallPsLine,
                };
                None
            },
            ProbeStage::InstallStatus(_) => {
                let unit = match out {
                    Some(o) => self.collector.extract_service_name_from_systemctl(o),
                    None => None,
                };
                self.stage = match unit {
                    Some(u) => ProbeStage::InstallUnit(u),
                    None => ProbeStage::InstallPsLine,
                };
                None
            },
            ProbeStage::InstallUnit(_) => {
                let path = match out {
                    Some(o) => self.collector.installation_path_from_service(o),
                    None => None,
                };
                match path {
                    Some(p) => self.record_install(p),
                    None => {
                        self.stage = ProbeStage::InstallPsLine;
                        None
                    },
                }
            },
            ProbeStage::InstallPsLine => {
                let path = match out {
                    Some(o) => self.collector.installation_path_from_ps(o),
                    None => None,
                };
                match path {
                    Some(p) => self.record_install(p),
                    None => {
                        self.stage = ProbeStage::System(0);
                        None
                    },
                }
            },
            ProbeStage::System(i) => {
                let (name, _) = fact_of(i);
                let path = join3("system/", name, ".txt");
                let w = self.record_fact(name, path.as_str(), out);
                self.stage = if i + 1 < 7 { ProbeStage::System(i + 1) } else { ProbeStage::Java };
                w
            },
            ProbeStage::Java => {
                let w = self.record_fact("java_version", "system/java_version.txt", out);
                self.stage = ProbeStage::Process;
                w
            },
            ProbeStage::Process => {
                let w = self.record_fact("kafka_process", "system/kafka_process.txt", out);
                self.stage = ProbeStage::Pgrep;
                w
            },
            ProbeStage::Pgrep => {
                self.stage = match out {
                    Some(o) => {
                        let t = trimmed(o);
                        if t.as_str().is_empty() {
                            ProbeStage::RuntimePs
                        } else {
                            ProbeStage::Jstat(t)
                        }
                    },
                    None => ProbeStage::RuntimePs,
                };
                None
            },
            ProbeStage::Jstat(_) => {
                self.stage = ProbeStage::RuntimePs;
                match out {
                    Some(o) => Some((owned("metrics/jstat_gc.txt"), owned(o))),
                    None => None,
                }
            },
            ProbeStage::RuntimePs => {
                match out {
                    Some(ps) => match self.collector.runtime_config_files(ps) {
                        Some((props, log4j)) => {
                            self.log4j = log4j;
                            self.runtime_pid = pid_of(&self.collector, ps);
                            self.stage = match props {
                                Some(p) => ProbeStage::RuntimeProps(p),
                                None => self.next_after_log4j(0),
                            };
                        },
                        None => {
                            self.stage = ProbeStage::Done;
                        },
                    },
                    None => {
                        self.stage = ProbeStage::Done;
                    },
                }
                None
            },
            ProbeStage::RuntimeProps(path) => {
                let w = match out {
                    Some(c) => if usable_content(c) {
                        self.record_config("server.properties", c, path.as_str())
                    } else {
                        None
                    },
                    None => None,
                };
                self.stage = self.next_after_log4j(0);
                w
            },
            ProbeStage::RuntimeLog4j(i) => {
                let n = self.log4j.len();
                assert(i < n);
                let name = self.log4j[i].0.clone();
                let path = self.log4j[i].1.clone();
                let w = match out {
                    Some(c) => if usable_content(c) {
                        self.record_config(name.as_str(), c, path.as_str())
                    } else {
                        None
                    },
                    None => None,
                };
                self.stage = self.next_after_log4j(i + 1);
                w
            },
            ProbeStage::RuntimeStatus(_) => {
                let unit = match out {
                    Some(o) => self.collector.extract_service_name_from_systemctl(o),
                    None => None,
                };
                self.stage = match unit {
                    Some(u) => ProbeStage::RuntimeUnit(u),
                    None => ProbeStage::Done,
                };
                None
            },
            ProbeStage::RuntimeUnit(s) => {
                let w = match out {
                    Some(c) => self.record_config("kafka.service", c, s.as_str()),
                    None => None,
                };
                self.stage = ProbeStage::RuntimeUnitEnv(s);
                w
            },
            ProbeStage::RuntimeUnitEnv(_) => {
                let file = match out {
                    Some(o) => self.collector.extract_environment_file_from_service(o),
                    None => None,
                };
                self.stage = match file {
                    Some(f) => ProbeStage::RuntimeEnv(f),
                    None => ProbeStage::Done,
                };
                None
            },
            ProbeStage::RuntimeEnv(path) => {
                let w = match out {
                    Some(c) => if usable_content(c) {
                        self.record_config("kafka.env", c, path.as_str())
                    } else {
                        None
                    },
                    None => None,
                };
                self.stage = ProbeStage::Done;
                w
            },
            ProbeStage::Done => None,
        }
    }
}

/// Where the data directory probe stands.
#[derive(Clone, Copy, Debug)]
pub enum DataStage {
    /// Reading the configured log directories.
    LogDirs,
    /// Measuring the log directory at this index.
    DirSize(usize),
    /// Listing the listening Kafka ports.
    Network,
    /// Everything is read.
    Done,
}

/// The probe of a broker's data directories and network, and what it gathered.
pub struct DataProbe {
    pub stage: DataStage,
    /// The configured log directories, as the setting lists them.
    pub dirs: Vec<String>,
    /// The sizes measured so far.
    pub sizes: String,
    /// The directories measured.
    pub data_dirs: Vec<String>,
    /// The listening ports, once listed.
    pub network: Option<String>,
}

/// The command each stage runs; none once the probe is done.
pub open spec fn data_command(p: DataProbe) -> Option<Seq<char>> {
    match p.stage {
        DataStage::LogDirs => Some(
            "grep '^log.dirs' /etc/kafka/server.properties /opt/kafka/config/server.properties 2>/dev/null | cut -d= -f2 | head -1"@,
        ),
        DataStage::DirSize(i) => Some("du -sh "@ + trim(p.dirs@[i as int]@) + " 2>/dev/null"@),
        DataStage::Network => Some(
            "netstat -tuln 2>/dev/null | grep -E '9092|9093|9094' || ss -tuln | grep -E '9092|9093|9094'"@,
        ),
        DataStage::Done => None,
    }
}

/// The texts of strings.
pub open spec fn strings(v: Seq<String>) -> Seq<Seq<char>> {
    v.map_values(|s: String| s@)
}

/// What a step's output (none when the command failed) does to the probe, with the file
/// to save, if any.
pub open spec fn data_step(a: DataProbe, out: Option<Seq<char>>, b: DataProbe, w: Option<(Seq<char>, Seq<char>)>) -> bool {
    match a.stage {
        DataStage::LogDirs => if out matches Some(o) && trim(o).len() > 0 {
            let t = trim(out.unwrap());
            &&& b.stage == DataStage::DirSize(0)
            &&& strings(b.dirs@) == split_char(t, ',')
            &&& b.sizes@ == a.sizes@ && strings(b.data_dirs@) == strings(a.data_dirs@) && b.network == a.network
            &&& w == Some(("data/log_dirs.txt"@, t))
        } else {
            &&& b.stage == DataStage::Network
            &&& strings(b.dirs@) == strings(a.dirs@) && b.sizes@ == a.sizes@
            &&& strings(b.data_dirs@) == strings(a.data_dirs@) && b.network == a.network
            &&& w is None
        },
        DataStage::DirSize(i) => {
            let d = trim(a.dirs@[i as int]@);
            &&& strings(b.dirs@) == strings(a.dirs@) && b.network == a.network
            &&& b.sizes@ == (match out {
                Some(o) => a.sizes@ + o,
                None => a.sizes@,
            })
            &&& strings(b.data_dirs@) == (match out {
                Some(_) => strings(a.data_dirs@).push(d),
                None => strings(a.data_dirs@),
            })
            &&& if i + 1 < a.dirs@.len() {
                b.stage == DataStage::DirSize((i + 1) as usize) && w is None
            } else {
                &&& b.stage == DataStage::Network
                &&& w == (if b.sizes@.len() > 0 { Some(("data/directory_sizes.txt"@, b.sizes@)) } else { None })
            }
        },
        DataStage::Network => {
            &&& b.stage == DataStage::Done
            &&& strings(b.dirs@) == strings(a.dirs@) && b.sizes@ == a.sizes@
            &&& strings(b.data_dirs@) == strings(a.data_dirs@)
            &&& match out {
                Some(o) => b.network matches Some(n) && n@ == o && w == Some(("system/network.txt"@, o)),
                None => b.network == a.network && w is None,
            }
        },
        DataStage::Done => b.stage == DataStage::Done && w is None && strings(b.dirs@) == strings(a.dirs@)
            && b.sizes@ == a.sizes@ && strings(b.data_dirs@) == strings(a.data_dirs@) && b.network == a.network,
    }
}

/// Whether the stage's index stays within the directories.
pub open spec fn data_wf(p: DataProbe) -> bool {
    match p.stage {
        DataStage::DirSize(i) => i < p.dirs@.len(),
        _ => true,
    }
}

impl DataProbe {
    /// The probe at its first step, having measured nothing.
    pub fn new() -> (p: DataProbe)
        ensures
            data_wf(p),
            p.stage == DataStage::LogDirs,
            p.sizes@.len() == 0 && p.data_dirs@.len() == 0 && p.network is None,
    {
        DataProbe { stage: DataStage::LogDirs, dirs: Vec::new(), sizes: String::new(), data_dirs: Vec::new(), network: None }
    }

    /// The command to run on the broker next; none once the probe is done.
    pub fn command(&self) -> (r: Option<String>)
        requires
            data_wf(*self),
        ensures
            match r {
                Some(c) => data_command(*self) == Some(c@),
                None => data_command(*self) is None,
            },
    {
        match self.stage {
            DataStage::LogDirs => Some(
                owned(
                    "grep '^log.dirs' /etc/kafka/server.properties /opt/kafka/config/server.properties 2>/dev/null | cut -d= -f2 | head -1",
                ),
            ),
            DataStage::DirSize(i) => {
                let d = trimmed(self.dirs[i].as_str());
                Some(join3("du -sh ", d.as_str(), " 2>/dev/null"))
            },
            DataStage::Network => Some(
                owned("netstat -tuln 2>/dev/null | grep -E '9092|9093|9094' || ss -tuln | grep -E '9092|9093|9094'"),
            ),
            DataStage::Done => None,
        }
    }

    /// Takes what the current command printed (none when it failed) and moves on; the
    /// file to save, as a path under the broker's directory and its content, if any.
    pub fn advance(&mut self, out: Option<&str>) -> (w: Option<(String, String)>)
        requires
            data_wf(*old(self)),
        ensures
            data_wf(*final(self)),
            data_step(
                *old(self),
                match out {
                    Some(o) => Some(o@),
                    None => None,
                },
                *final(self),
                match w {
                    Some(x) => Some((x.0@, x.1@)),
                    None => None,
                },
            ),
    {
        match self.stage {
            DataStage::LogDirs => {
                let t = match out {
                    Some(o) => trimmed(o),
                    None => String::new(),
                };
                if !t.as_str().is_empty() {
                    self.dirs = split_on_char(t.as_str(), ',');
                    proof {
                        crate::text::lemma_split_char_nonempty(t@, ',');
                    }
                    self.stage = DataStage::DirSize(0);
                    Some((owned("data/log_dirs.txt"), t))
                } else {
                    self.stage = DataStage::Network;
                    None
                }
            },
            DataStage::DirSize(i) => {
                let n = self.dirs.len();
                assert(i < n);
                let d = trimmed(self.dirs[i].as_str());
                match out {
                    Some(o) => {
                        self.sizes = concat(self.sizes.as_str(), o);
                        let ghost before = strings(self.data_dirs@);
                        self.data_dirs.push(d);
                        assert(strings(self.data_dirs@) =~= before.push(trim(old(self).dirs@[i as int]@)));
                    },
                    None => {},
                }
                if i + 1 < n {
                    self.stage = DataStage::DirSize(i + 1);
                    None
                } else {
                    self.stage = DataStage::Network;
                    if self.sizes.as_str().is_empty() {
                        None
                    } else {
                        Some((owned("data/directory_sizes.txt"), self.sizes.clone()))
                    }
                }
            },
            DataStage::Network => {
                self.stage = DataStage::Done;
                match out {
                    Some(o) => {
                        self.network = Some(owned(o));
                        Some((owned("system/network.txt"), owned(o)))
                    },
                    None => None,
                }
            },
            DataStage::Done => None,
        }
    }
}

} // verus!
