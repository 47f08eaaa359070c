//! The search for a broker's configuration files where the running process did not name
//! them: `find` under the usual roots, then the usual locations, for `server.properties`,
//! the log4j configuration and the systemd unit. Each step names one command to run on
//! the broker; what it printed decides the next step and whether a file was found.
use vstd::prelude::*;
use crate::text::{trim, owned, trimmed, concat, str_eq};
use crate::collector::{usable_content_spec, usable_content};

verus! {

/// Where the search stands.
#[derive(Clone, Debug)]
pub enum SearchStage {
    /// Running the `find` for `server.properties` under the root at this index.
    FindProperties(usize),
    /// Reading the `server.properties` that the `find` at this index printed.
    ReadProperties(usize, String),
    /// Reading the standard `server.properties` location at this index.
    StandardProperties(usize),
    /// Running the `find` for a log4j configuration under the root at this index.
    FindLog4j(usize),
    /// Reading the log4j configuration that the `find` at this index printed.
    ReadLog4j(usize, String),
    /// Reading the unit file for the unit name and directory at these indexes.
    ServiceUnit(usize, usize),
    /// Nothing is left to search.
    Done,
}

/// A search stage as plain values.
pub ghost enum StageView {
    FindProperties(nat),
    ReadProperties(nat, Seq<char>),
    StandardProperties(nat),
    FindLog4j(nat),
    ReadLog4j(nat, Seq<char>),
    ServiceUnit(nat, nat),
    Done,
}

/// The plain values of a stage.
pub open spec fn stage_view(s: SearchStage) -> StageView {
    match s {
        SearchStage::FindProperties(i) => StageView::FindProperties(i as nat),
        SearchStage::ReadProperties(i, p) => StageView::ReadProperties(i as nat, p@),
        SearchStage::StandardProperties(i) => StageView::StandardProperties(i as nat),
        SearchStage::FindLog4j(i) => StageView::FindLog4j(i as nat),
        SearchStage::ReadLog4j(i, p) => StageView::ReadLog4j(i as nat, p@),
        SearchStage::ServiceUnit(i, j) => StageView::ServiceUnit(i as nat, j as nat),
        SearchStage::Done => StageView::Done,
    }
}

/// The search, with what is still wanted after `server.properties`.
pub struct ConfigSearch {
    pub stage: SearchStage,
    /// Whether a log4j configuration is still wanted.
    pub need_log4j: bool,
    /// Whether the systemd unit is still wanted.
    pub need_service: bool,
}

/// A configuration file the search found: the name it is saved under, its content, and
/// the key and text that record where it came from.
pub struct FoundConfig {
    pub file: String,
    pub content: String,
    pub source_key: String,
    pub source: String,
}

/// A found file as plain values.
pub open spec fn found_view(f: FoundConfig) -> (Seq<char>, Seq<char>, Seq<char>, Seq<char>) {
    (f.file@, f.content@, f.source_key@, f.source@)
}

/// The roots searched for `server.properties`, in order.
pub open spec fn properties_root(i: nat) -> Seq<char> {
    if i == 0 {
        "/etc"@
    } else if i == 1 {
        "/opt"@
    } else if i == 2 {
        "/usr"@
    } else {
        "/home"@
    }
}

/// The standard locations of `server.properties`, in order.
pub open spec fn standard_properties(i: nat) -> Seq<char> {
    if i == 0 {
        "/etc/kafka/server.properties"@
    } else if i == 1 {
        "/opt/kafka/config/server.properties"@
    } else if i == 2 {
        "/usr/local/kafka/config/server.properties"@
    } else if i == 3 {
        "/usr/hdp/current/kafka-broker/conf/server.properties"@
    } else {
        "/opt/confluent/etc/kafka/server.properties"@
    }
}

/// The roots searched for a log4j configuration, in order.
pub open spec fn log4j_root(i: nat) -> Seq<char> {
    if i == 0 {
        "/etc"@
    } else {
        "/opt"@
    }
}

/// The unit names tried, in order.
pub open spec fn unit_name(i: nat) -> Seq<char> {
    if i == 0 {
        "kafka"@
    } else if i == 1 {
        "kafka.service"@
    } else if i == 2 {
        "confluent-kafka"@
    } else {
        "apache-kafka"@
    }
}

/// The unit directories tried for each name, in order.
pub open spec fn unit_dir(j: nat) -> Seq<char> {
    if j == 0 {
        "/etc/systemd/system"@
    } else if j == 1 {
        "/lib/systemd/system"@
    } else {
        "/usr/lib/systemd/system"@
    }
}

/// The path of a unit file candidate.
pub open spec fn unit_path(i: nat, j: nat) -> Seq<char> {
    unit_dir(j) + "/"@ + unit_name(i)
}

/// The command that reads a file with sudo, quietly.
pub open spec fn sudo_read(path: Seq<char>) -> Seq<char> {
    "sudo cat '"@ + path + "' 2>/dev/null"@
}

/// The command a stage runs on the broker; none when the search is done.
pub open spec fn stage_command(s: StageView) -> Option<Seq<char>> {
    match s {
        StageView::FindProperties(i) => Some(
            "find "@ + properties_root(i) + " -name 'server.properties' 2>/dev/null | head -1"@,
        ),
        StageView::ReadProperties(_, p) => Some(sudo_read(p)),
        StageView::StandardProperties(i) => Some("cat "@ + standard_properties(i) + " 2>/dev/null"@),
        StageView::FindLog4j(i) => Some("find "@ + log4j_root(i) + " -name 'log4j*.properties' 2>/dev/null | head -1"@),
        StageView::ReadLog4j(_, p) => Some(sudo_read(p)),
        StageView::ServiceUnit(i, j) => Some(sudo_read(unit_path(i, j))),
        StageView::Done => None,
    }
}

/// Where the search goes once the systemd unit is settled.
pub open spec fn after_log4j(need_service: bool) -> StageView {
    if need_service {
        StageView::ServiceUnit(0, 0)
    } else {
        StageView::Done
    }
}

/// Where the search goes once `server.properties` is settled.
pub open spec fn after_properties(need_log4j: bool, need_service: bool) -> StageView {
    if need_log4j {
        StageView::FindLog4j(0)
    } else {
        after_log4j(need_service)
    }
}

/// The next `find` for `server.properties` after the one at `i`, else the standard locations.
pub open spec fn next_properties_find(i: nat) -> StageView {
    if i + 1 < 4 {
        StageView::FindProperties(i + 1)
    } else {
        StageView::StandardProperties(0)
    }
}

/// The next `find` for a log4j configuration after the one at `i`, else the unit.
pub open spec fn next_log4j_find(i: nat, need_service: bool) -> StageView {
    if i + 1 < 2 {
        StageView::FindLog4j(i + 1)
    } else {
        after_log4j(need_service)
    }
}

/// The next unit file candidate after `(i, j)`, else done.
pub open spec fn next_unit(i: nat, j: nat) -> StageView {
    if j + 1 < 3 {
        StageView::ServiceUnit(i, j + 1)
    } else if i + 1 < 4 {
        StageView::ServiceUnit(i + 1, 0)
    } else {
        StageView::Done
    }
}

/// Whether a command's output is a usable file.
pub open spec fn read_ok(out: Option<Seq<char>>) -> bool {
    out matches Some(c) && usable_content_spec(c)
}

/// The path a `find` printed, when it printed one.
pub open spec fn found_path(out: Option<Seq<char>>) -> Option<Seq<char>> {
    match out {
        Some(o) => if trim(o).len() > 0 { Some(trim(o)) } else { None },
        None => None,
    }
}

/// One step of the search: from a stage and what its command printed (none when the
/// command failed), the next stage and the file found, if any.
pub open spec fn search_step(s: StageView, need_log4j: bool, need_service: bool, out: Option<Seq<char>>) -> (
    StageView,
    Option<(Seq<char>, Seq<char>, Seq<char>, Seq<char>)>,
) {
    match s {
        StageView::FindProperties(i) => match found_path(out) {
            Some(p) => (StageView::ReadProperties(i, p), None),
            None => (next_properties_find(i), None),
        },
        StageView::ReadProperties(i, p) => if read_ok(out) {
            (
                after_properties(need_log4j, need_service),
                Some(("server.properties"@, out.unwrap(), "server_properties_source"@, "fallback_find:"@ + p)),
            )
        } else {
            (next_properties_find(i), None)
        },
        StageView::StandardProperties(i) => if read_ok(out) {
            (
                after_properties(need_log4j, need_service),
                Some(("server.properties"@, out.unwrap(), "config_source"@, "standard:"@ + standard_properties(i))),
            )
        } else if i + 1 < 5 {
            (StageView::StandardProperties(i + 1), None)
        } else {
            (after_properties(need_log4j, need_service), None)
        },
        StageView::FindLog4j(i) => match found_path(out) {
            Some(p) => if p != "log4j*.properties"@ {
                (StageView::ReadLog4j(i, p), None)
            } else {
                (next_log4j_find(i, need_service), None)
            },
            None => (next_log4j_find(i, need_service), None),
        },
        StageView::ReadLog4j(i, p) => if read_ok(out) {
            (
                after_log4j(need_service),
                Some(("log4j.properties"@, out.unwrap(), "log4j_properties_source"@, "fallback_find:"@ + p)),
            )
        } else {
            (next_log4j_find(i, need_service), None)
        },
        StageView::ServiceUnit(i, j) => if read_ok(out) {
            (
                StageView::Done,
                Some(("kafka.service"@, out.unwrap(), "kafka_service_source"@, "fallback_standard:"@ + unit_path(i, j))),
            )
        } else {
            (next_unit(i, j), None)
        },
        StageView::Done => (StageView::Done, None),
    }
}

/// Where the search starts, given which files the process already gave.
pub open spec fn search_start(have_properties: bool, have_log4j: bool, have_service: bool) -> StageView {
    if !have_properties {
        StageView::FindProperties(0)
    } else {
        after_properties(!have_log4j, !have_service)
    }
}

fn properties_root_of(i: usize) -> (r: &'static str)
    ensures
        r@ == properties_root(i as nat),
{
    if i == 0 {
        "/etc"
    } else if i == 1 {
        "/opt"
    } else if i == 2 {
        "/usr"
    } else {
        "/home"
    }
}

fn standard_properties_of(i: usize) -> (r: &'static str)
    ensures
        r@ == standard_properties(i as nat),
{
    if i == 0 {
        "/etc/kafka/server.properties"
    } else if i == 1 {
        "/opt/kafka/config/server.properties"
    } else if i == 2 {
        "/usr/local/kafka/config/server.properties"
    } else if i == 3 {
        "/usr/hdp/current/kafka-broker/conf/server.properties"
    } else {
        "/opt/confluent/etc/kafka/server.properties"
    }
}

fn log4j_root_of(i: usize) -> (r: &'static str)
    ensures
        r@ == log4j_root(i as nat),
{
    if i == 0 {
        "/etc"
    } else {
        "/opt"
    }
}

fn unit_path_of(i: usize, j: usize) -> (r: String)
    ensures
        r@ == unit_path(i as nat, j as nat),
{
    let name = if i == 0 {
        "kafka"
    } else if i == 1 {
        "kafka.service"
    } else if i == 2 {
        "confluent-kafka"
    } else {
        "apache-kafka"
    };
    let dir = if j == 0 {
        "/etc/systemd/system"
    } else if j == 1 {
        "/lib/systemd/system"
    } else {
        "/usr/lib/systemd/system"
    };
    concat(concat(dir, "/").as_str(), name)
}

fn sudo_read_of(path: &str) -> (r: String)
    ensures
        r@ == sudo_read(path@),
{
    concat(concat("sudo cat '", path).as_str(), "' 2>/dev/null")
}

fn after_log4j_of(need_service: bool) -> (s: SearchStage)
    ensures
        stage_view(s) == after_log4j(need_service),
{
    if need_service {
        SearchStage::ServiceUnit(0, 0)
    } else {
        SearchStage::Done
    }
}

fn after_properties_of(need_log4j: bool, need_service: bool) -> (s: SearchStage)
    ensures
        stage_view(s) == after_properties(need_log4j, need_service),
{
    if need_log4j {
        SearchStage::FindLog4j(0)
    } else {
        after_log4j_of(need_service)
    }
}

fn next_properties_find_of(i: usize) -> (s: SearchStage)
    requires
        i < 4,
    ensures
        stage_view(s) == next_properties_find(i as nat),
{
    if i + 1 < 4 {
        SearchStage::FindProperties(i + 1)
    } else {
        SearchStage::StandardProperties(0)
    }
}

fn next_log4j_find_of(i: usize, need_service: bool) -> (s: SearchStage)
    requires
        i < 2,
    ensures
        stage_view(s) == next_log4j_find(i as nat, need_service),
{
    if i + 1 < 2 {
        SearchStage::FindLog4j(i + 1)
    } else {
        after_log4j_of(need_service)
    }
}

fn next_unit_of(i: usize, j: usize) -> (s: SearchStage)
    requires
        i < 4,
        j < 3,
    ensures
        stage_view(s) == next_unit(i as nat, j as nat),
{
    if j + 1 < 3 {
        SearchStage::ServiceUnit(i, j + 1)
    } else if i + 1 < 4 {
        SearchStage::ServiceUnit(i + 1, 0)
    } else {
        SearchStage::Done
    }
}

fn found_path_of(out: Option<&str>) -> (r: Option<String>)
    ensures
        match r {
            Some(p) => found_path(match out { Some(o) => Some(o@), None => None }) == Some(p@),
            None => found_path(match out { Some(o) => Some(o@), None => None }) is None,
        },
{
    match out {
        Some(o) => {
            let t = trimmed(o);
            if t.as_str().is_empty() {
                None
            } else {
                Some(t)
            }
        },
        None => None,
    }
}

fn found(file: &str, content: &str, source_key: &str, source: String) -> (f: FoundConfig)
    ensures
        found_view(f) == (file@, content@, source_key@, source@),
{
    FoundConfig { file: owned(file), content: owned(content), source_key: owned(source_key), source }
}

/// Whether a stage's indexes stay within their lists.
pub open spec fn stage_in_range(s: StageView) -> bool {
    match s {
        StageView::FindProperties(i) => i < 4,
        StageView::ReadProperties(i, _) => i < 4,
        StageView::StandardProperties(i) => i < 5,
        StageView::FindLog4j(i) => i < 2,
        StageView::ReadLog4j(i, _) => i < 2,
        StageView::ServiceUnit(i, j) => i < 4 && j < 3,
        StageView::Done => true,
    }
}

impl ConfigSearch {
    /// Whether the stage's indexes stay within their lists.
    pub open spec fn wf(&self) -> bool {
        stage_in_range(stage_view(self.stage))
    }

    /// The search for the files the process did not give.
    pub fn start(have_properties: bool, have_log4j: bool, have_service: bool) -> (s: ConfigSearch)
        ensures
            s.wf(),
            stage_view(s.stage) == search_start(have_properties, have_log4j, have_service),
            s.need_log4j == !have_log4j,
            s.need_service == !have_service,
    {
        let stage = if !have_properties {
            SearchStage::FindProperties(0)
        } else {
            after_properties_of(!have_log4j, !have_service)
        };
        ConfigSearch { stage, need_log4j: !have_log4j, need_service: !have_service }
    }

    /// The command to run on the broker next; none when the search is done.
    pub fn command(&self) -> (r: Option<String>)
        ensures
            match r {
                Some(c) => stage_command(stage_view(self.stage)) == Some(c@),
                None => stage_command(stage_view(self.stage)) is None,
            },
    {
        match &self.stage {
            SearchStage::FindProperties(i) => {
                let c = concat(
                    concat("find ", properties_root_of(*i)).as_str(),
                    " -name 'server.properties' 2>/dev/null | head -1",
                );
                Some(c)
            },
            SearchStage::ReadProperties(_, p) => Some(sudo_read_of(p.as_str())),
            SearchStage::StandardProperties(i) => Some(
                concat(concat("cat ", standard_properties_of(*i)).as_str(), " 2>/dev/null"),
            ),
            SearchStage::FindLog4j(i) => Some(
                concat(concat("find ", log4j_root_of(*i)).as_str(), " -name 'log4j*.properties' 2>/dev/null | head -1"),
            ),
            SearchStage::ReadLog4j(_, p) => Some(sudo_read_of(p.as_str())),
            SearchStage::ServiceUnit(i, j) => {
                let path = unit_path_of(*i, *j);
                Some(sudo_read_of(path.as_str()))
            },
            SearchStage::Done => None,
        }
    }

    /// Takes the output of the current command (none when it failed) and moves on: the
    /// file found by it, if any.
    pub fn advance(&mut self, out: Option<&str>) -> (f: Option<FoundConfig>)
        requires
            old(self).wf(),
        ensures
            final(self).wf(),
            final(self).need_log4j == old(self).need_log4j,
            final(self).need_service == old(self).need_service,
            (stage_view(final(self).stage), match f {
                Some(x) => Some(found_view(x)),
                None => None,
            }) == search_step(
                stage_view(old(self).stage),
                old(self).need_log4j,
                old(self).need_service,
                match out {
                    Some(o) => Some(o@),
                    None => None,
                },
            ),
    {
        let ghost ov: Option<Seq<char>> = match out {
            Some(o) => Some(o@),
            None => None,
        };
        let need_log4j = self.need_log4j;
        let need_service = self.need_service;
        let ok = match out {
            Some(c) => usable_content(c),
            None => false,
        };
        assert(ok == read_ok(ov));
        let (next, file): (SearchStage, Option<FoundConfig>) = match &self.stage {
            SearchStage::FindProperties(i) => match found_path_of(out) {
                Some(p) => (SearchStage::ReadProperties(*i, p), None),
                None => (next_properties_find_of(*i), None),
            },
            SearchStage::ReadProperties(i, p) => {
                if ok {
                    let c = out.unwrap();
                    let src = concat("fallback_find:", p.as_str());
                    (
                        after_properties_of(need_log4j, need_service),
                        Some(found("server.properties", c, "server_properties_source", src)),
                    )
                } else {
                    (next_properties_find_of(*i), None)
                }
            },
            SearchStage::StandardProperties(i) => {
                if ok {
                    let c = out.unwrap();
                    let src = concat("standard:", standard_properties_of(*i));
                    (after_properties_of(need_log4j, need_service), Some(found("server.properties", c, "config_source", src)))
                } else if *i + 1 < 5 {
                    (SearchStage::StandardProperties(*i + 1), None)
                } else {
                    (after_properties_of(need_log4j, need_service), None)
                }
            },
            SearchStage::FindLog4j(i) => match found_path_of(out) {
                Some(p) => {
                    proof {
                        reveal_strlit("log4j*.properties");
                    }
                    if !str_eq(p.as_str(), "log4j*.properties") {
                        (SearchStage::ReadLog4j(*i, p), None)
                    } else {
                        (next_log4j_find_of(*i, need_service), None)
                    }
                },
                None => (next_log4j_find_of(*i, need_service), None),
            },
            SearchStage::ReadLog4j(i, p) => {
                if ok {
                    let c = out.unwrap();
                    let src = concat("fallback_find:", p.as_str());
                    (after_log4j_of(need_service), Some(found("log4j.properties", c, "log4j_properties_source", src)))
                } else {
                    (next_log4j_find_of(*i, need_service), None)
                }
            },
            SearchStage::ServiceUnit(i, j) => {
                if ok {
                    let c = out.unwrap();
                    let path = unit_path_of(*i, *j);
                    let src = concat("fallback_standard:", path.as_str());
                    (SearchStage::Done, Some(found("kafka.service", c, "kafka_service_source", src)))
                } else {
                    (next_unit_of(*i, *j), None)
                }
            },
            SearchStage::Done => (SearchStage::Done, None),
        };
        self.stage = next;
        file
    }
}

} // verus!
