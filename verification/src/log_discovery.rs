//! Finding a broker's log files: what the process arguments, the environment and
//! the log4j and Kafka configuration say about where logs are written.
use vstd::prelude::*;
use crate::text::{
    chars_of, contains, ends_with, file_name_of, find, find_char_from, lemma_find_char_at,
    lemma_find_char_none, lines, lowercase, owned, path_file_name, replace_all, replace_str,
    split_lines, starts_with, str_contains, str_ends_with, str_starts_with, string_of,
    to_lowercase, trim, trim_bounds,
};
use crate::strmap::StrMap;
use crate::cluster_detection::{parse_property_line, property_of_line};

verus! {

/// The kind of log a file holds.
#[derive(Debug)]
pub enum LogType {
    Server,
    Controller,
    StateChange,
    Request,
    Gc,
    Custom(String),
    Unknown,
}

/// The text `Display` writes for a log type.
pub open spec fn log_type_text(t: LogType) -> Seq<char> {
    match t {
        LogType::Server => "server"@,
        LogType::Controller => "controller"@,
        LogType::StateChange => "state-change"@,
        LogType::Request => "request"@,
        LogType::Gc => "gc"@,
        LogType::Custom(name) => "custom("@ + name@ + ")"@,
        LogType::Unknown => "unknown"@,
    }
}

impl LogType {
    /// The log type as text: its lowercase name, and `custom(<name>)` for a custom one.
    pub fn to_display_string(&self) -> (r: String)
        ensures
            r@ == log_type_text(*self),
    {
        match self {
            LogType::Server => owned("server"),
            LogType::Controller => owned("controller"),
            LogType::StateChange => owned("state-change"),
            LogType::Request => owned("request"),
            LogType::Gc => owned("gc"),
            LogType::Custom(name) => {
                let mut r = owned("custom(");
                r.append(name.as_str());
                r.append(")");
                r
            },
            LogType::Unknown => owned("unknown"),
        }
    }

    /// A copy of the log type.
    pub fn copy(&self) -> (r: LogType)
        ensures
            r == *self,
    {
        match self {
            LogType::Server => LogType::Server,
            LogType::Controller => LogType::Controller,
            LogType::StateChange => LogType::StateChange,
            LogType::Request => LogType::Request,
            LogType::Gc => LogType::Gc,
            LogType::Custom(name) => LogType::Custom(name.clone()),
            LogType::Unknown => LogType::Unknown,
        }
    }
}

/// A log file that discovery found.
pub struct LogFileInfo {
    /// Full path to the log file.
    pub path: String,
    /// How the file was discovered.
    pub discovery_method: String,
    pub log_type: LogType,
    /// Whether the file exists and is readable.
    pub accessible: bool,
    pub size_bytes: Option<u64>,
    pub last_modified: Option<String>,
}

/// What is known of the Kafka process.
pub struct KafkaProcessInfo {
    pub pid: u32,
    pub cmdline: Vec<String>,
    pub env_vars: StrMap,
    pub cwd: Option<String>,
    pub jvm_args: Vec<String>,
    pub log4j_config: Option<String>,
}

/// The results of log discovery: the log files found (no path twice), the
/// configuration texts read, the methods that worked, and warnings.
pub struct DiscoveredLogs {
    pub log_files: Vec<LogFileInfo>,
    pub log_configs: StrMap,
    pub detection_methods: Vec<String>,
    pub warnings: Vec<String>,
    pub process_info: Option<KafkaProcessInfo>,
}

/// The paths of the log files, in the order they were found.
pub open spec fn log_paths(files: Seq<LogFileInfo>) -> Seq<Seq<char>> {
    files.map_values(|f: LogFileInfo| f.path@)
}

/// No path occurs twice.
pub open spec fn paths_distinct(files: Seq<LogFileInfo>) -> bool {
    forall|i: int, j: int| 0 <= i < j < files.len() ==> #[trigger] files[i].path@ != #[trigger] files[j].path@
}

impl DiscoveredLogs {
    /// Nothing discovered yet.
    pub fn new() -> (d: DiscoveredLogs)
        ensures
            d.log_files@.len() == 0,
            d.log_configs@ == Map::<Seq<char>, Seq<char>>::empty(),
            d.detection_methods@.len() == 0,
            d.warnings@.len() == 0,
            d.process_info is None,
    {
        DiscoveredLogs {
            log_files: Vec::new(),
            log_configs: StrMap::new(),
            detection_methods: Vec::new(),
            warnings: Vec::new(),
            process_info: None,
        }
    }
}

/// The words of a command line that are JVM arguments: those that start with `-` and
/// hold `log` or start with `-D` or `-X`.
pub open spec fn is_jvm_arg(arg: Seq<char>) -> bool {
    starts_with(arg, "-"@) && (contains(arg, "log"@) || starts_with(arg, "-D"@) || starts_with(
        arg,
        "-X"@,
    ))
}

pub open spec fn jvm_args_of(args: Seq<Seq<char>>) -> Seq<Seq<char>>
    decreases args.len(),
{
    if args.len() == 0 {
        Seq::empty()
    } else {
        let rest = jvm_args_of(args.drop_last());
        if is_jvm_arg(args.last()) {
            rest.push(args.last())
        } else {
            rest
        }
    }
}

/// The log4j configuration path one JVM argument names: after the first `=` of an
/// argument holding `log4j.configuration` (without a leading `file://`), or after the
/// first `=` of one holding `log4j2.configurationFile`.
pub open spec fn log4j_path_of_arg(arg: Seq<char>) -> Option<Seq<char>> {
    match find(arg, "="@) {
        Some(e) => {
            let p = arg.skip(e + 1);
            if contains(arg, "log4j.configuration"@) {
                Some(
                    if starts_with(p, "file://"@) {
                        p.skip(7)
                    } else {
                        p
                    },
                )
            } else if contains(arg, "log4j2.configurationFile"@) {
                Some(p)
            } else {
                None
            }
        },
        None => None,
    }
}

/// The path named by the first argument that names one.
pub open spec fn log4j_path_of_args(args: Seq<Seq<char>>) -> Option<Seq<char>>
    decreases args.len(),
{
    if args.len() == 0 {
        None
    } else {
        match log4j_path_of_arg(args[0]) {
            Some(p) => Some(p),
            None => log4j_path_of_args(args.drop_first()),
        }
    }
}

/// The log4j configuration path: from the JVM arguments, else from
/// `LOG4J_CONFIGURATION_FILE` in the environment.
pub open spec fn log4j_config_of(args: Seq<Seq<char>>, env: Map<Seq<char>, Seq<char>>) -> Option<
    Seq<char>,
> {
    match log4j_path_of_args(args) {
        Some(p) => Some(p),
        None => if env.contains_key("LOG4J_CONFIGURATION_FILE"@) {
            Some(env["LOG4J_CONFIGURATION_FILE"@])
        } else {
            None
        },
    }
}

/// A log4j path with `${kafka.logs.dir}` and `${log.dir}` read as `/var/log/kafka` and
/// `${user.home}` as `/home/kafka`.
pub open spec fn resolved_log4j_path(path: Seq<char>) -> Seq<char> {
    replace_all(
        replace_all(
            replace_all(path, "${kafka.logs.dir}"@, "/var/log/kafka"@),
            "${log.dir}"@,
            "/var/log/kafka"@,
        ),
        "${user.home}"@,
        "/home/kafka"@,
    )
}

/// The log type an appender's key indicates, by the words its lowercase form holds:
/// `server`, then `controller`, then `state` or `change`, then `request`, then `gc`; a
/// custom type named by the key otherwise.
pub open spec fn log_type_of_appender_is(key: Seq<char>, t: LogType) -> bool {
    log_type_of_lowered_appender_is(lowercase(key), key, t)
}

/// The log type an appender key indicates, given the key and its lowercase form `lower`.
pub open spec fn log_type_of_lowered_appender_is(lower: Seq<char>, key: Seq<char>, t: LogType) -> bool {
    if contains(lower, "server"@) || contains(lower, "kafkaappender"@) {
        t == LogType::Server
    } else if contains(lower, "controller"@) {
        t == LogType::Controller
    } else if contains(lower, "state"@) || contains(lower, "change"@) {
        t == LogType::StateChange
    } else if contains(lower, "request"@) {
        t == LogType::Request
    } else if contains(lower, "gc"@) {
        t == LogType::Gc
    } else {
        t matches LogType::Custom(name) && name@ == key
    }
}

/// The log type a path indicates: `server`, `controller` anywhere in the lowercase path
/// or file name, then by the lowercase file name: `state` or `change`, `request`, `gc`,
/// and a custom type named by the file name when it holds `kafka`.
pub open spec fn log_type_of_path_is(path: Seq<char>, t: LogType) -> bool {
    log_type_of_lowered_path_is(
        lowercase(path),
        match file_name_of(path) {
            Some(n) => lowercase(n),
            None => Seq::empty(),
        },
        t,
    )
}

/// The log type a path indicates, given the lowercase path `p` and lowercase file name `f`.
pub open spec fn log_type_of_lowered_path_is(p: Seq<char>, f: Seq<char>, t: LogType) -> bool {
    if contains(f, "server"@) || contains(p, "server"@) {
        t == LogType::Server
    } else if contains(f, "controller"@) || contains(p, "controller"@) {
        t == LogType::Controller
    } else if contains(f, "state"@) || contains(f, "change"@) {
        t == LogType::StateChange
    } else if contains(f, "request"@) {
        t == LogType::Request
    } else if contains(f, "gc"@) {
        t == LogType::Gc
    } else if contains(f, "kafka"@) {
        t matches LogType::Custom(name) && name@ == f
    } else {
        t == LogType::Unknown
    }
}

/// Log discovery, run locally or through SSH to a host.
pub struct LogDiscovery {
    pub ssh_executor: Option<String>,
}

impl LogDiscovery {
    pub fn new(ssh_executor: Option<String>) -> (d: LogDiscovery)
        ensures
            d.ssh_executor == ssh_executor,
    {
        LogDiscovery { ssh_executor }
    }

    /// The JVM arguments among the words of a command line, in order.
    pub fn extract_jvm_args(&self, cmdline: &Vec<String>) -> (r: Vec<String>)
        ensures
            r@.map_values(|s: String| s@) == jvm_args_of(cmdline@.map_values(|s: String| s@)),
    {
        let ghost all = cmdline@.map_values(|s: String| s@);
        let mut r: Vec<String> = Vec::new();
        let mut i: usize = 0;
        while i < cmdline.len()
            invariant
                i <= cmdline@.len(),
                all == cmdline@.map_values(|s: String| s@),
                r@.map_values(|s: String| s@) == jvm_args_of(all.take(i as int)),
            decreases cmdline@.len() - i,
        {
            proof {
                assert(all.take(i + 1).drop_last() =~= all.take(i as int));
                assert(all.take(i + 1).last() == cmdline@[i as int]@);
            }
            let arg = cmdline[i].as_str();
            if str_starts_with(arg, "-") && (str_contains(arg, "log") || str_starts_with(arg, "-D")
                || str_starts_with(arg, "-X")) {
                let ghost before = r@.map_values(|s: String| s@);
                r.push(cmdline[i].clone());
                assert(r@.map_values(|s: String| s@) =~= before.push(cmdline@[i as int]@));
            }
            i = i + 1;
        }
        assert(all.take(i as int) =~= all);
        r
    }

    /// The log4j configuration path named by the JVM arguments or the environment.
    pub fn extract_log4j_config(&self, jvm_args: &Vec<String>, env_vars: &StrMap) -> (r: Option<String>)
        ensures
            match r {
                Some(p) => log4j_config_of(jvm_args@.map_values(|s: String| s@), env_vars@) == Some(p@),
                None => log4j_config_of(jvm_args@.map_values(|s: String| s@), env_vars@) is None,
            },
    {
        let ghost all = jvm_args@.map_values(|s: String| s@);
        let mut i: usize = 0;
        assert(all.skip(0) =~= all);
        while i < jvm_args.len()
            invariant
                i <= jvm_args@.len(),
                all == jvm_args@.map_values(|s: String| s@),
                log4j_path_of_args(all) == log4j_path_of_args(all.skip(i as int)),
            decreases jvm_args@.len() - i,
        {
            proof {
                assert(all.skip(i as int).drop_first() =~= all.skip(i + 1));
                assert(all.skip(i as int)[0] == jvm_args@[i as int]@);
            }
            match log4j_path_from_arg(jvm_args[i].as_str()) {
                Some(p) => {
                    return Some(p);
                },
                None => {},
            }
            i = i + 1;
        }
        assert(all.skip(i as int) =~= Seq::<Seq<char>>::empty());
        match env_vars.get("LOG4J_CONFIGURATION_FILE") {
            Some(v) => Some(v.clone()),
            None => None,
        }
    }

    /// A log4j path with the usual Kafka variables substituted.
    pub fn resolve_log4j_path(&self, path: &str) -> (r: String)
        ensures
            r@ == resolved_log4j_path(path@),
    {
        proof {
            reveal_strlit("${kafka.logs.dir}");
            reveal_strlit("${log.dir}");
            reveal_strlit("${user.home}");
        }
        let a = replace_str(path, "${kafka.logs.dir}", "/var/log/kafka");
        let b = replace_str(a.as_str(), "${log.dir}", "/var/log/kafka");
        replace_str(b.as_str(), "${user.home}", "/home/kafka")
    }

    /// The log type an appender key indicates; `kafkaAppender`, the appender Kafka's own
    /// configuration writes `server.log` with, is the server log.
    pub fn determine_log_type_from_appender(&self, appender_key: &str) -> (t: LogType)
        ensures
            log_type_of_appender_is(appender_key@, t),
    {
        let lower = to_lowercase(appender_key);
        log_type_of_lowered_appender(lower.as_str(), appender_key)
    }

    /// The log type a file path indicates.
    pub fn determine_log_type_from_path(&self, path: &str) -> (t: LogType)
        ensures
            log_type_of_path_is(path@, t),
    {
        let p = to_lowercase(path);
        let f = match path_file_name(path) {
            Some(n) => to_lowercase(n.as_str()),
            None => String::new(),
        };
        log_type_of_lowered_path(p.as_str(), f.as_str())
    }

    /// Adds a log file unless its path is already there; it starts out as not yet
    /// validated: not accessible, with no size or modification time.
    pub fn add_log_file(&self, log_path: String, method: &str, log_type: LogType, discovered: &mut DiscoveredLogs)
        requires
            paths_distinct(old(discovered).log_files@),
        ensures
            paths_distinct(final(discovered).log_files@),
            log_paths(old(discovered).log_files@).contains(log_path@) ==> final(discovered).log_files@
                == old(discovered).log_files@,
            !log_paths(old(discovered).log_files@).contains(log_path@) ==> final(discovered).log_files@
                == old(discovered).log_files@.push(
                LogFileInfo {
                    path: log_path,
                    discovery_method: final(discovered).log_files@.last().discovery_method,
                    log_type,
                    accessible: false,
                    size_bytes: None,
                    last_modified: None,
                },
            ) && final(discovered).log_files@.last().discovery_method@ == method@,
            forall|p: Seq<char>| #[trigger] log_paths(final(discovered).log_files@).contains(p) <==> (
                log_paths(old(discovered).log_files@).contains(p) || p == log_path@),
            final(discovered).log_files@.len() >= old(discovered).log_files@.len(),
            forall|i: int| 0 <= i < old(discovered).log_files@.len() ==> final(discovered).log_files@[i]
                == old(discovered).log_files@[i],
            final(discovered).log_configs == old(discovered).log_configs,
            final(discovered).detection_methods == old(discovered).detection_methods,
            final(discovered).warnings == old(discovered).warnings,
    {
        let mut i: usize = 0;
        while i < discovered.log_files.len()
            invariant
                i <= discovered.log_files@.len(),
                discovered.log_files@ == old(discovered).log_files@,
                paths_distinct(old(discovered).log_files@),
                forall|j: int| 0 <= j < i ==> discovered.log_files@[j].path@ != log_path@,
            decreases discovered.log_files@.len() - i,
        {
            if discovered.log_files[i].path == log_path {
                proof {
                    assert(log_paths(discovered.log_files@)[i as int] == log_path@);
                    assert forall|p: Seq<char>| #[trigger] log_paths(discovered.log_files@).contains(p) <==> (
                        log_paths(old(discovered).log_files@).contains(p) || p == log_path@) by {}
                }
                return;
            }
            i = i + 1;
        }
        proof {
            if log_paths(discovered.log_files@).contains(log_path@) {
                let k = choose|k: int| 0 <= k < log_paths(discovered.log_files@).len() && log_paths(
                    discovered.log_files@,
                )[k] == log_path@;
                assert(discovered.log_files@[k].path@ == log_path@);
            }
        }
        let info = LogFileInfo {
            path: log_path,
            discovery_method: owned(method),
            log_type,
            accessible: false,
            size_bytes: None,
            last_modified: None,
        };
        let ghost before = discovered.log_files@;
        discovered.log_files.push(info);
        proof {
            assert forall|p: Seq<char>| #[trigger] log_paths(discovered.log_files@).contains(p) <==> (
                log_paths(before).contains(p) || p == log_path@) by {
                if log_paths(discovered.log_files@).contains(p) {
                    let k = choose|k: int| 0 <= k < log_paths(discovered.log_files@).len() && log_paths(
                        discovered.log_files@,
                    )[k] == p;
                    if k < before.len() {
                        assert(log_paths(before)[k] == p);
                    }
                }
                if log_paths(before).contains(p) {
                    let k = choose|k: int| 0 <= k < log_paths(before).len() && log_paths(before)[k] == p;
                    assert(log_paths(discovered.log_files@)[k] == p);
                }
                if p == log_path@ {
                    assert(log_paths(discovered.log_files@)[before.len() as int] == p);
                }
            }
        }
    }

    /// Adds the standard log locations, each with the type its name says.
    pub fn discover_standard_locations(&self, discovered: &mut DiscoveredLogs)
        requires
            paths_distinct(old(discovered).log_files@),
        ensures
            paths_distinct(final(discovered).log_files@),
            forall|p: Seq<char>| #[trigger] log_paths(final(discovered).log_files@).contains(p) <==> (
                log_paths(old(discovered).log_files@).contains(p) || standard_location(p)),
            forall|i: int| 0 <= i < old(discovered).log_files@.len() ==> final(discovered).log_files@[i]
                == old(discovered).log_files@[i],
            forall|i: int|
                old(discovered).log_files@.len() <= i < final(discovered).log_files@.len()
                    ==> #[trigger] final(discovered).log_files@[i].discovery_method@
                    == "standard_locations"@,
    {
        let ghost start = discovered.log_files@;
        self.add_log_file(owned("/var/log/kafka/server.log"), "standard_locations", LogType::Server, discovered);
        self.add_log_file(owned("/var/log/kafka/controller.log"), "standard_locations", LogType::Controller, discovered);
        self.add_log_file(owned("/var/log/kafka/state-change.log"), "standard_locations", LogType::StateChange, discovered);
        self.add_log_file(owned("/opt/kafka/logs/server.log"), "standard_locations", LogType::Server, discovered);
        self.add_log_file(owned("/usr/local/kafka/logs/server.log"), "standard_locations", LogType::Server, discovered);
        proof {
            reveal_strlit("standard_locations");
        }
    }
}

/// One of the standard log locations.
pub open spec fn standard_location(p: Seq<char>) -> bool {
    p == "/var/log/kafka/server.log"@ || p == "/var/log/kafka/controller.log"@ || p
        == "/var/log/kafka/state-change.log"@ || p == "/opt/kafka/logs/server.log"@ || p
        == "/usr/local/kafka/logs/server.log"@
}

/// The log4j configuration path one argument names.
fn log4j_path_from_arg(arg: &str) -> (r: Option<String>)
    ensures
        match r {
            Some(p) => log4j_path_of_arg(arg@) == Some(p@),
            None => log4j_path_of_arg(arg@) is None,
        },
{
    let v = chars_of(arg);
    let n = v.len();
    match find_char_from(&v, '=', 0) {
        Some(e) => {
            proof {
                lemma_find_char_at(v@, '=', e as int);
                reveal_strlit("=");
                assert("="@ =~= seq!['=']);
            }
            let p = string_of(&v, e + 1, n);
            assert(p@ =~= v@.skip(e + 1));
            if str_contains(arg, "log4j.configuration") {
                if str_starts_with(p.as_str(), "file://") {
                    proof {
                        reveal_strlit("file://");
                    }
                    let pv = chars_of(p.as_str());
                    let q = string_of(&pv, 7, pv.len());
                    assert(q@ =~= p@.skip(7));
                    Some(q)
                } else {
                    Some(p)
                }
            } else if str_contains(arg, "log4j2.configurationFile") {
                Some(p)
            } else {
                None
            }
        },
        None => {
            proof {
                lemma_find_char_none(v@, '=');
                reveal_strlit("=");
                assert("="@ =~= seq!['=']);
            }
            None
        },
    }
}

/// The log files a log4j properties text names: for every defining line whose key holds
/// `appender` and ends with `.File`, the value with the Kafka variables resolved, and the
/// key (whose words give the log type).
pub open spec fn appender_entries(ls: Seq<Seq<char>>) -> Seq<(Seq<char>, Seq<char>)>
    decreases ls.len(),
{
    if ls.len() == 0 {
        Seq::empty()
    } else {
        let rest = appender_entries(ls.drop_last());
        match property_of_line(ls.last()) {
            Some((k, v)) => if contains(k, "appender"@) && ends_with(k, ".File"@) {
                rest.push((resolved_log4j_path(v), k))
            } else {
                rest
            },
            None => rest,
        }
    }
}

/// The directories a `log.dirs` value lists, each trimmed.
pub open spec fn listed_dirs(value: Seq<char>) -> Seq<Seq<char>> {
    crate::text::split_char(value, ',').map_values(|d: Seq<char>| trim(d))
}

/// What a Kafka `server.properties` text says about logs: the directories of every
/// `log.dirs` line, in order, and the log files its `log4j.appender.kafkaAppender.File`
/// lines name without a `${` variable.
pub open spec fn kafka_config_dirs(ls: Seq<Seq<char>>) -> Seq<Seq<char>>
    decreases ls.len(),
{
    if ls.len() == 0 {
        Seq::empty()
    } else {
        let rest = kafka_config_dirs(ls.drop_last());
        match property_of_line(ls.last()) {
            Some((k, v)) => if k == "log.dirs"@ {
                rest + listed_dirs(v)
            } else {
                rest
            },
            None => rest,
        }
    }
}

pub open spec fn kafka_config_files(ls: Seq<Seq<char>>) -> Seq<Seq<char>>
    decreases ls.len(),
{
    if ls.len() == 0 {
        Seq::empty()
    } else {
        let rest = kafka_config_files(ls.drop_last());
        match property_of_line(ls.last()) {
            Some((k, v)) => if k == "log4j.appender.kafkaAppender.File"@ && !contains(v, "${"@) {
                rest.push(v)
            } else {
                rest
            },
            None => rest,
        }
    }
}

impl LogDiscovery {
    /// The log files a log4j properties text names, each with the type its appender key
    /// indicates.
    pub fn appender_log_files(&self, content: &str) -> (r: Vec<(String, LogType)>)
        ensures
            r@.len() == appender_entries(lines(content@)).len(),
            forall|i: int| 0 <= i < r@.len() ==> (#[trigger] r@[i]).0@ == appender_entries(lines(content@))[i].0,
            forall|i: int| 0 <= i < r@.len() ==> log_type_of_appender_is(
                appender_entries(lines(content@))[i].1,
                (#[trigger] r@[i]).1,
            ),
    {
        let ls = split_lines(content);
        let ghost all = lines(content@);
        let mut r: Vec<(String, LogType)> = Vec::new();
        let mut i: usize = 0;
        while i < ls.len()
            invariant
                i <= ls@.len(),
                ls@.map_values(|x: String| x@) == all,
                r@.len() == appender_entries(all.take(i as int)).len(),
                forall|j: int| 0 <= j < r@.len() ==> (#[trigger] r@[j]).0@ == appender_entries(all.take(i as int))[j].0,
                forall|j: int| 0 <= j < r@.len() ==> log_type_of_appender_is(
                    appender_entries(all.take(i as int))[j].1,
                    (#[trigger] r@[j]).1,
                ),
            decreases ls@.len() - i,
        {
            proof {
                assert(all.take(i + 1).drop_last() =~= all.take(i as int));
                assert(all.take(i + 1).last() == ls@[i as int]@);
            }
            let ghost prev = appender_entries(all.take(i as int));
            let ghost old_r = r@;
            match parse_property_line(&ls[i]) {
                Some((k, v)) => {
                    if str_contains(k.as_str(), "appender") && str_ends_with(k.as_str(), ".File") {
                        let path = self.resolve_log4j_path(v.as_str());
                        let t = self.determine_log_type_from_appender(k.as_str());
                        r.push((path, t));
                        proof {
                            assert(appender_entries(all.take(i + 1)) == prev.push((path@, k@)));
                            assert forall|j: int| 0 <= j < r@.len() implies log_type_of_appender_is(
                                appender_entries(all.take(i + 1))[j].1,
                                (#[trigger] r@[j]).1,
                            ) by {
                                if j < old_r.len() {
                                    assert(r@[j] == old_r[j]);
                                }
                            }
                            assert forall|j: int| 0 <= j < r@.len() implies (#[trigger] r@[j]).0@
                                == appender_entries(all.take(i + 1))[j].0 by {
                                if j < old_r.len() {
                                    assert(r@[j] == old_r[j]);
                                }
                            }
                        }
                    }
                },
                None => {},
            }
            i = i + 1;
        }
        assert(all.take(i as int) =~= all);
        r
    }

    /// Records a log4j properties text read from `log4j_path`: an empty text changes
    /// nothing; otherwise the text is kept under its path and every log file it names is
    /// added with discovery method `log4j_config`.
    pub fn record_log4j_config(&self, log4j_path: &str, content: &str, discovered: &mut DiscoveredLogs)
        requires
            paths_distinct(old(discovered).log_files@),
        ensures
            paths_distinct(final(discovered).log_files@),
            content@.len() == 0 ==> final(discovered).log_files@ == old(discovered).log_files@
                && final(discovered).log_configs@ == old(discovered).log_configs@,
            content@.len() > 0 ==> final(discovered).log_configs@ == old(discovered).log_configs@.insert(
                log4j_path@,
                content@,
            ),
            content@.len() > 0 ==> forall|p: Seq<char>| #[trigger] log_paths(final(discovered).log_files@).contains(p)
                <==> (log_paths(old(discovered).log_files@).contains(p) || exists|j: int|
                0 <= j < appender_entries(lines(content@)).len() && appender_entries(lines(content@))[j].0
                == p),
    {
        if content.is_empty() {
            return;
        }
        discovered.log_configs.insert(owned(log4j_path), owned(content));
        let files = self.appender_log_files(content);
        let ghost entries = appender_entries(lines(content@));
        let ghost start = discovered.log_files@;
        let mut i: usize = 0;
        while i < files.len()
            invariant
                i <= files@.len(),
                files@.len() == entries.len(),
                forall|j: int| 0 <= j < files@.len() ==> (#[trigger] files@[j]).0@ == entries[j].0,
                paths_distinct(discovered.log_files@),
                discovered.log_configs@ == old(discovered).log_configs@.insert(log4j_path@, content@),
                forall|p: Seq<char>| #[trigger] log_paths(discovered.log_files@).contains(p) <==> (
                    log_paths(start).contains(p) || exists|j: int| 0 <= j < i && entries[j].0 == p),
            decreases files@.len() - i,
        {
            let (path, t) = (files[i].0.clone(), files[i].1.copy());
            let ghost before = discovered.log_files@;
            self.add_log_file(path, "log4j_config", t, discovered);
            proof {
                assert forall|p: Seq<char>| #[trigger] log_paths(discovered.log_files@).contains(p) <==> (
                    log_paths(start).contains(p) || exists|j: int| 0 <= j < i + 1 && entries[j].0 == p) by {
                    if p == entries[i as int].0 {
                        assert(0 <= i < i + 1 && entries[i as int].0 == p);
                    }
                    if exists|j: int| 0 <= j < i + 1 && entries[j].0 == p {
                        let j = choose|j: int| 0 <= j < i + 1 && entries[j].0 == p;
                        if j < i {
                            assert(log_paths(before).contains(p));
                        }
                    }
                }
            }
            i = i + 1;
        }
    }

    /// Records a `server.properties` text read from `config_path` and gives back the
    /// directories to search for logs: an empty text changes nothing and gives none;
    /// otherwise the text is kept under its path, the log files its
    /// `log4j.appender.kafkaAppender.File` lines name (without `${`) are added as server
    /// logs with discovery method `kafka_config`, and the `log.dirs` directories come back.
    pub fn record_kafka_config(&self, config_path: &str, content: &str, discovered: &mut DiscoveredLogs) -> (dirs: Vec<String>)
        requires
            paths_distinct(old(discovered).log_files@),
        ensures
            paths_distinct(final(discovered).log_files@),
            content@.len() == 0 ==> final(discovered).log_files@ == old(discovered).log_files@
                && final(discovered).log_configs@ == old(discovered).log_configs@ && dirs@.len() == 0,
            content@.len() > 0 ==> final(discovered).log_configs@ == old(discovered).log_configs@.insert(
                config_path@,
                content@,
            ),
            content@.len() > 0 ==> dirs@.map_values(|d: String| d@) == kafka_config_dirs(lines(content@)),
            content@.len() > 0 ==> forall|p: Seq<char>| #[trigger] log_paths(final(discovered).log_files@).contains(p)
                <==> (log_paths(old(discovered).log_files@).contains(p) || kafka_config_files(lines(content@)).contains(p)),
    {
        let mut dirs: Vec<String> = Vec::new();
        if content.is_empty() {
            return dirs;
        }
        discovered.log_configs.insert(owned(config_path), owned(content));
        let ls = split_lines(content);
        let ghost all = lines(content@);
        let ghost start = discovered.log_files@;
        let mut i: usize = 0;
        while i < ls.len()
            invariant
                i <= ls@.len(),
                ls@.map_values(|x: String| x@) == all,
                paths_distinct(discovered.log_files@),
                discovered.log_configs@ == old(discovered).log_configs@.insert(config_path@, content@),
                dirs@.map_values(|d: String| d@) == kafka_config_dirs(all.take(i as int)),
                forall|p: Seq<char>| #[trigger] log_paths(discovered.log_files@).contains(p) <==> (
                    log_paths(start).contains(p) || kafka_config_files(all.take(i as int)).contains(p)),
            decreases ls@.len() - i,
        {
            proof {
                assert(all.take(i + 1).drop_last() =~= all.take(i as int));
                assert(all.take(i + 1).last() == ls@[i as int]@);
            }
            let ghost prev_files = kafka_config_files(all.take(i as int));
            match parse_property_line(&ls[i]) {
                Some((k, v)) => {
                    if crate::text::str_eq(k.as_str(), "log.dirs") {
                        let parts = split_on_char(v.as_str(), ',');
                        let mut j: usize = 0;
                        let ghost d0 = dirs@.map_values(|d: String| d@);
                        while j < parts.len()
                            invariant
                                j <= parts@.len(),
                                parts@.map_values(|x: String| x@) == crate::text::split_char(v@, ','),
                                dirs@.map_values(|d: String| d@) == d0 + listed_dirs(v@).take(j as int),
                            decreases parts@.len() - j,
                        {
                            let d = crate::text::trimmed(parts[j].as_str());
                            let ghost b = dirs@.map_values(|x: String| x@);
                            dirs.push(d);
                            proof {
                                assert(dirs@.map_values(|x: String| x@) =~= b.push(d@));
                                assert(listed_dirs(v@).take(j + 1) =~= listed_dirs(v@).take(j as int).push(d@));
                            }
                            j = j + 1;
                        }
                        assert(listed_dirs(v@).take(j as int) =~= listed_dirs(v@));
                        proof {
                            reveal_strlit("log.dirs");
                            reveal_strlit("log4j.appender.kafkaAppender.File");
                            assert("log.dirs"@.len() != "log4j.appender.kafkaAppender.File"@.len());
                        }
                        assert(kafka_config_files(all.take(i + 1)) == prev_files);
                    } else if crate::text::str_eq(k.as_str(), "log4j.appender.kafkaAppender.File")
                        && !str_contains(v.as_str(), "${") {
                        let ghost before = discovered.log_files@;
                        self.add_log_file(v, "kafka_config", LogType::Server, discovered);
                        proof {
                            assert(kafka_config_files(all.take(i + 1)) == prev_files.push(v@));
                            assert forall|p: Seq<char>| #[trigger] log_paths(discovered.log_files@).contains(p) <==> (
                                log_paths(start).contains(p) || kafka_config_files(all.take(i + 1)).contains(p)) by {
                                if p == v@ {
                                    assert(kafka_config_files(all.take(i + 1))[prev_files.len() as int] == p);
                                }
                                if kafka_config_files(all.take(i + 1)).contains(p) && p != v@ {
                                    let nf = kafka_config_files(all.take(i + 1));
                                    let q = choose|q: int| 0 <= q < nf.len() && nf[q] == p;
                                    assert(prev_files[q] == p);
                                }
                                if prev_files.contains(p) {
                                    let q = choose|q: int| 0 <= q < prev_files.len() && prev_files[q] == p;
                                    assert(kafka_config_files(all.take(i + 1))[q] == p);
                                }
                            }
                        }
                    } else {
                        assert(kafka_config_files(all.take(i + 1)) == prev_files);
                    }
                },
                None => {
                    assert(kafka_config_files(all.take(i + 1)) == prev_files);
                },
            }
            i = i + 1;
        }
        assert(all.take(i as int) =~= all);
        dirs
    }
}

/// The pieces of `s` between occurrences of `c`, as `str::split(c)` yields them.
pub fn split_on_char(s: &str, c: char) -> (r: Vec<String>)
    ensures
        r@.map_values(|x: String| x@) == crate::text::split_char(s@, c),
{
    let v = chars_of(s);
    let n = v.len();
    let mut out: Vec<String> = Vec::new();
    let mut start: usize = 0;
    assert(v@.skip(0) =~= v@);
    assert(out@.map_values(|x: String| x@) + crate::text::split_char(v@, c) =~= crate::text::split_char(v@, c));
    loop
        invariant
            start <= n == v@.len(),
            v@ == s@,
            out@.map_values(|x: String| x@) + crate::text::split_char(v@.skip(start as int), c)
                == crate::text::split_char(v@, c),
        decreases n - start,
    {
        let ghost t = v@.skip(start as int);
        match find_char_from(&v, c, start) {
            None => {
                proof {
                    assert forall|j: int| 0 <= j < t.len() implies t[j] != c by {
                        assert(t[j] == v@[start + j]);
                    }
                    lemma_find_char_none(t, c);
                    assert(t =~= v@.subrange(start as int, n as int));
                }
                let piece = string_of(&v, start, n);
                let ghost before = out@.map_values(|x: String| x@);
                out.push(piece);
                proof {
                    assert(out@.map_values(|x: String| x@) =~= before.push(piece@));
                    assert(before + seq![t] =~= before.push(piece@));
                }
                return out;
            },
            Some(i) => {
                proof {
                    assert(t[i - start] == v@[i as int]);
                    assert forall|j: int| 0 <= j < i - start implies t[j] != c by {
                        assert(t[j] == v@[start + j]);
                    }
                    lemma_find_char_at(t, c, i - start);
                    assert(t.skip(i - start + 1) =~= v@.skip(i + 1));
                    assert(t.take(i - start) =~= v@.subrange(start as int, i as int));
                }
                let piece = string_of(&v, start, i);
                let ghost before = out@.map_values(|x: String| x@);
                out.push(piece);
                proof {
                    assert(out@.map_values(|x: String| x@) =~= before.push(piece@));
                    assert(before.push(piece@) + crate::text::split_char(v@.skip(i + 1), c) =~= before
                        + (seq![piece@] + crate::text::split_char(v@.skip(i + 1), c)));
                }
                start = i + 1;
            },
        }
    }
}

/// The log type an appender key indicates, given its lowercase form `l`: a server log for
/// `server` or `kafkaappender`, then controller, state change, request and GC logs, else a
/// custom type named by the key.
pub fn log_type_of_lowered_appender(l: &str, appender_key: &str) -> (t: LogType)
    ensures
        log_type_of_lowered_appender_is(l@, appender_key@, t),
{
    if str_contains(l, "server") || str_contains(l, "kafkaappender") {
        LogType::Server
    } else if str_contains(l, "controller") {
        LogType::Controller
    } else if str_contains(l, "state") || str_contains(l, "change") {
        LogType::StateChange
    } else if str_contains(l, "request") {
        LogType::Request
    } else if str_contains(l, "gc") {
        LogType::Gc
    } else {
        LogType::Custom(owned(appender_key))
    }
}

/// The log type a path indicates, given the lowercase path `ps` and lowercase file name
/// `fs`.
pub fn log_type_of_lowered_path(ps: &str, fs: &str) -> (t: LogType)
    ensures
        log_type_of_lowered_path_is(ps@, fs@, t),
{
    if str_contains(fs, "server") || str_contains(ps, "server") {
        LogType::Server
    } else if str_contains(fs, "controller") || str_contains(ps, "controller") {
        LogType::Controller
    } else if str_contains(fs, "state") || str_contains(fs, "change") {
        LogType::StateChange
    } else if str_contains(fs, "request") {
        LogType::Request
    } else if str_contains(fs, "gc") {
        LogType::Gc
    } else if str_contains(fs, "kafka") {
        LogType::Custom(owned(fs))
    } else {
        LogType::Unknown
    }
}

} // verus!
