//! The scan's collectors as the library sees them: where they run and what
//! they read out of the command output of a broker host.
use vstd::prelude::*;
use crate::text::{
    trim, contains, starts_with, ends_with, find, split_once, split_char, lines, words,
    trim_matches, owned, str_contains, str_starts_with, str_ends_with, trimmed, split_lines,
    split_words, skip_str, find_str, trimmed_matches, chars_of, string_of, str_eq, opt_text,
    split_once_char, rfind, concat, replace_all, strip_leading, replace_str, without_leading,
};
use crate::log_sources::byte_len;
use crate::llm::{byte_boundary, prefix_with_bytes, has_byte_boundary};
use crate::discovery::{classpath_kafka_base, path_from_logs_dir, kafka_base_from_classpath, logs_dir_path};
use crate::scan::{BrokerInfo, DiscoveryMethod};
use crate::log_discovery::split_on_char;

verus! {

/// The collector of bastion-level data.
pub struct BastionCollector {
    bastion_alias: Option<String>,
    output_dir: String,
    discovery_method: Option<DiscoveryMethod>,
}

impl BastionCollector {
    /// The bastion, none when the collector runs on it.
    pub closed spec fn bastion(&self) -> Option<Seq<char>> {
        opt_text(self.bastion_alias)
    }

    /// Where the collected data goes.
    pub closed spec fn output(&self) -> Seq<char> {
        self.output_dir@
    }

    /// How topics and other resources are discovered, once chosen.
    pub closed spec fn method(&self) -> Option<DiscoveryMethod> {
        self.discovery_method
    }

    /// A collector for a bastion, writing under `output_dir`, with no method chosen.
    pub fn new(bastion_alias: Option<String>, output_dir: String) -> (c: BastionCollector)
        ensures
            c.bastion() == opt_text(bastion_alias),
            c.output() == output_dir@,
            c.method() is None,
    {
        BastionCollector { bastion_alias, output_dir, discovery_method: None }
    }

    /// Whether `kafkactl` is installed, as the output of `which kafkactl` on the bastion
    /// shows it (none when the command failed).
    pub fn check_kafkactl_availability(&self, which_output: Option<&str>) -> (b: bool)
        ensures
            b == match which_output {
                Some(o) => trim(o@).len() > 0,
                None => false,
            },
    {
        crate::discovery::check_kafkactl_availability(which_output)
    }

    /// How topics and other resources are discovered, once chosen.
    pub fn discovery_method(&self) -> (r: &Option<DiscoveryMethod>)
        ensures
            *r == self.method(),
    {
        &self.discovery_method
    }

    /// The collector, discovering with `discovery_method`.
    pub fn with_discovery_method(self, discovery_method: DiscoveryMethod) -> (c: BastionCollector)
        ensures
            c.bastion() == self.bastion(),
            c.output() == self.output(),
            c.method() == Some(discovery_method),
    {
        BastionCollector { bastion_alias: self.bastion_alias, output_dir: self.output_dir, discovery_method: Some(discovery_method) }
    }
}

/// The collector of one broker's data.
pub struct BrokerCollector {
    bastion_alias: Option<String>,
    broker: BrokerInfo,
    output_dir: String,
}

/// The first word, after the first, that ends with `server.properties`.
pub open spec fn properties_word(ws: Seq<Seq<char>>, i: int) -> Option<Seq<char>>
    decreases ws.len() - i,
{
    if i < 0 || i >= ws.len() {
        None
    } else if ends_with(ws[i], "server.properties"@) {
        Some(ws[i])
    } else {
        properties_word(ws, i + 1)
    }
}

/// The value after `=` of the first `--override` argument naming `server.properties` or
/// starting with `config`, at or after word `i`.
pub open spec fn override_config(ws: Seq<Seq<char>>, i: int) -> Option<Seq<char>>
    decreases ws.len() - i,
{
    if i < 0 || i >= ws.len() {
        None
    } else if ws[i] == "--override"@ && i + 1 < ws.len() && (contains(ws[i + 1], "server.properties"@)
        || starts_with(ws[i + 1], "config"@)) && split_once(ws[i + 1], '=') is Some {
        Some(split_once(ws[i + 1], '=').unwrap().1)
    } else {
        override_config(ws, i + 1)
    }
}

/// The configuration file a Kafka process line names: after `kafka-server-start`, the
/// first later word ending with `server.properties`; else such a word anywhere but
/// first; else the value of a config `--override`.
pub open spec fn config_of_process(ps: Seq<char>) -> Option<Seq<char>> {
    if lines(ps).len() == 0 {
        None
    } else {
        let line = lines(ps)[0];
        let from_start = match find(line, "kafka-server-start"@) {
            Some(p) => properties_word(words(line.skip(p)), 1),
            None => None,
        };
        match from_start {
            Some(w) => Some(w),
            None => match properties_word(words(line), 1) {
                Some(w) => Some(w),
                None => override_config(words(line), 0),
            },
        }
    }
}

/// The process id column of the first ps line.
pub open spec fn pid_of_ps(ps: Seq<char>) -> Option<Seq<char>> {
    if lines(ps).len() > 0 && words(lines(ps)[0]).len() >= 2 {
        Some(words(lines(ps)[0])[1])
    } else {
        None
    }
}

/// The unit file of a `Loaded:` line: the last path component between the first `/` and
/// the next `;`.
pub open spec fn unit_of_loaded(line: Seq<char>) -> Option<Seq<char>> {
    match find(line, seq!['/']) {
        Some(s) => match find(line.skip(s), seq![';']) {
            Some(e) => Some(split_char(line.subrange(s, s + e), '/').last()),
            None => None,
        },
        None => None,
    }
}

/// The unit file named by the first `Loaded:` line that names one, at or after line `i`.
pub open spec fn unit_of_status(ls: Seq<Seq<char>>, i: int) -> Option<Seq<char>>
    decreases ls.len() - i,
{
    if i < 0 || i >= ls.len() {
        None
    } else if contains(ls[i], "Loaded:"@) && unit_of_loaded(ls[i]) is Some {
        unit_of_loaded(ls[i])
    } else {
        unit_of_status(ls, i + 1)
    }
}

/// The environment file of the first `EnvironmentFile=` line, quotes trimmed.
pub open spec fn environment_file_of(ls: Seq<Seq<char>>, i: int) -> Option<Seq<char>>
    decreases ls.len() - i,
{
    if i < 0 || i >= ls.len() {
        None
    } else if starts_with(trim(ls[i]), "EnvironmentFile="@) {
        Some(trim_matches(trim(ls[i]).skip(16), '"'))
    } else {
        environment_file_of(ls, i + 1)
    }
}

fn properties_word_of(ws: &Vec<String>, from: usize) -> (r: Option<String>)
    ensures
        opt_text(r) == properties_word(ws@.map_values(|s: String| s@), from as int),
{
    let ghost wv = ws@.map_values(|s: String| s@);
    let mut i: usize = from;
    while i < ws.len()
        invariant
            from <= i,
            ws@.len() == wv.len(),
            wv == ws@.map_values(|s: String| s@),
            properties_word(wv, from as int) == properties_word(wv, i as int),
        decreases ws@.len() - i,
    {
        proof {
            assert(wv[i as int] == ws@[i as int]@);
        }
        if str_ends_with(ws[i].as_str(), "server.properties") {
            return Some(ws[i].clone());
        }
        i = i + 1;
    }
    None
}

impl BrokerCollector {
    /// The broker this collector reads.
    pub closed spec fn broker_info(&self) -> BrokerInfo {
        self.broker
    }

    /// The bastion, none when the collector runs on it.
    pub closed spec fn bastion(&self) -> Option<Seq<char>> {
        opt_text(self.bastion_alias)
    }

    /// Where the collected data goes.
    pub closed spec fn output(&self) -> Seq<char> {
        self.output_dir@
    }

    /// A collector of `broker`'s data, through `bastion_alias`, writing under `output_dir`.
    pub fn new(bastion_alias: Option<String>, broker: BrokerInfo, output_dir: String) -> (c: BrokerCollector)
        ensures
            c.bastion() == opt_text(bastion_alias),
            c.broker_info() == broker,
            c.output() == output_dir@,
    {
        BrokerCollector { bastion_alias, broker, output_dir }
    }

    /// The configuration file the first ps line names.
    pub fn extract_config_from_process(&self, ps_output: &str) -> (r: Option<String>)
        ensures
            opt_text(r) == config_of_process(ps_output@),
    {
        let ls = split_lines(ps_output);
        if ls.len() == 0 {
            return None;
        }
        let line = ls[0].as_str();
        proof {
            assert(ls@.map_values(|x: String| x@)[0] == ls@[0]@);
        }
        match find_str(line, "kafka-server-start") {
            Some(p) => {
                proof {
                    crate::text::lemma_find_spec(line@, "kafka-server-start"@);
                }
                let after = skip_str(line, p);
                let ws = split_words(after.as_str());
                match properties_word_of(&ws, 1) {
                    Some(w) => return Some(w),
                    None => {},
                }
            },
            None => {},
        }
        let ws = split_words(line);
        match properties_word_of(&ws, 1) {
            Some(w) => return Some(w),
            None => {},
        }
        let ghost wv = ws@.map_values(|s: String| s@);
        let n = ws.len();
        let mut i: usize = 0;
        while i < n
            invariant
                i <= n == ws@.len() == wv.len(),
                wv == ws@.map_values(|s: String| s@),
                wv == words(line@),
                config_of_process(ps_output@) == override_config(wv, 0),
                override_config(wv, 0) == override_config(wv, i as int),
            decreases n - i,
        {
            proof {
                assert(wv[i as int] == ws@[i as int]@);
                if i + 1 < n {
                    assert(wv[i + 1] == ws@[i + 1]@);
                }
            }
            if str_eq(ws[i].as_str(), "--override") && i + 1 < n {
                let next = ws[i + 1].as_str();
                if str_contains(next, "server.properties") || str_starts_with(next, "config") {
                    match split_once_char(next, '=') {
                        Some((_, v)) => return Some(v),
                        None => {},
                    }
                }
            }
            i = i + 1;
        }
        None
    }

    /// The process id column of the first ps line.
    pub fn extract_pid_from_ps_output(&self, ps_output: &str) -> (r: Option<String>)
        ensures
            opt_text(r) == pid_of_ps(ps_output@),
    {
        let ls = split_lines(ps_output);
        if ls.len() == 0 {
            return None;
        }
        proof {
            assert(ls@.map_values(|x: String| x@)[0] == ls@[0]@);
        }
        let ws = split_words(ls[0].as_str());
        if ws.len() >= 2 {
            proof {
                assert(ws@.map_values(|x: String| x@)[1] == ws@[1]@);
            }
            Some(ws[1].clone())
        } else {
            None
        }
    }

    /// The unit file systemctl status names on its `Loaded:` line.
    pub fn extract_service_name_from_systemctl(&self, systemctl_output: &str) -> (r: Option<String>)
        ensures
            opt_text(r) == unit_of_status(lines(systemctl_output@), 0),
    {
        let ls = split_lines(systemctl_output);
        let ghost sl = lines(systemctl_output@);
        let mut i: usize = 0;
        while i < ls.len()
            invariant
                i <= ls@.len() == sl.len(),
                ls@.map_values(|x: String| x@) == sl,
                sl == lines(systemctl_output@),
                unit_of_status(sl, 0) == unit_of_status(sl, i as int),
            decreases ls@.len() - i,
        {
            proof {
                assert(ls@.map_values(|x: String| x@)[i as int] == ls@[i as int]@);
            }
            let line = ls[i].as_str();
            if str_contains(line, "Loaded:") {
                let v = chars_of(line);
                let n = v.len();
                match crate::text::find_char_from(&v, '/', 0) {
                    Some(s) => {
                        proof {
                            crate::text::lemma_find_char_at(v@, '/', s as int);
                        }
                        match crate::text::find_char_from(&v, ';', s) {
                            Some(e) => {
                                proof {
                                    crate::text::lemma_find_char_shift(v@, s as int, ';');
                                    match find(v@.skip(s as int), seq![';']) {
                                        Some(k) => {
                                            assert(s + k == e);
                                        },
                                        None => {
                                            assert(v@[e as int] == ';');
                                        },
                                    }
                                    assert(find(v@.skip(s as int), seq![';']) == Some(e - s));
                                }
                                let path = string_of(&v, s, e);
                                let parts = split_on_char(path.as_str(), '/');
                                proof {
                                    assert(path@ =~= v@.subrange(s as int, s + (e - s)));
                                    crate::text::lemma_split_char_nonempty(path@, '/');
                                }
                                let k = parts.len() - 1;
                                proof {
                                    assert(parts@.map_values(|x: String| x@)[k as int] == parts@[k as int]@);
                                }
                                return Some(parts[k].clone());
                            },
                            None => {
                                proof {
                                    crate::text::lemma_find_char_shift(v@, s as int, ';');
                                }
                            },
                        }
                    },
                    None => {
                        proof {
                            crate::text::lemma_find_char_none(v@, '/');
                        }
                    },
                }
            }
            i = i + 1;
        }
        None
    }

    /// The environment file the first `EnvironmentFile=` line of a unit names.
    pub fn extract_environment_file_from_service(&self, service_content: &str) -> (r: Option<String>)
        ensures
            opt_text(r) == environment_file_of(lines(service_content@), 0),
    {
        let ls = split_lines(service_content);
        let ghost sl = lines(service_content@);
        let mut i: usize = 0;
        while i < ls.len()
            invariant
                i <= ls@.len() == sl.len(),
                ls@.map_values(|x: String| x@) == sl,
                sl == lines(service_content@),
                environment_file_of(sl, 0) == environment_file_of(sl, i as int),
            decreases ls@.len() - i,
        {
            proof {
                assert(ls@.map_values(|x: String| x@)[i as int] == ls@[i as int]@);
                reveal_strlit("EnvironmentFile=");
            }
            let t = trimmed(ls[i].as_str());
            if str_starts_with(t.as_str(), "EnvironmentFile=") {
                let rest = skip_str(t.as_str(), 16);
                return Some(trimmed_matches(rest.as_str(), '"'));
            }
            i = i + 1;
        }
        None
    }
}

/// The `bin` directory an `ExecStart=` line of a systemd unit shows: what stands before
/// the last `/bin/` ahead of `kafka-server-start.sh`, up to and with `/bin`.
pub open spec fn path_from_exec_start(line: Seq<char>) -> Option<Seq<char>> {
    let t = trim(line);
    if starts_with(t, "ExecStart="@) {
        let e = t.skip(10);
        match find(e, "kafka-server-start.sh"@) {
            Some(p) => match rfind(e.take(p), "/bin/"@) {
                Some(b) => Some(e.take(b + 4)),
                None => None,
            },
            None => None,
        }
    } else {
        None
    }
}

/// The `bin` directory of the first unit line, at or after line `i`, whose
/// `ExecStart=` shows one.
pub open spec fn path_from_unit(ls: Seq<Seq<char>>, i: int) -> Option<Seq<char>>
    decreases ls.len() - i,
{
    if i < 0 || i >= ls.len() {
        None
    } else {
        match path_from_exec_start(ls[i]) {
            Some(p) => Some(p),
            None => path_from_unit(ls, i + 1),
        }
    }
}

/// The first word, at or after word `i`, naming the start script in a `/bin/`
/// directory, cut after that `/bin`.
pub open spec fn script_bin_dir(ws: Seq<Seq<char>>, i: int) -> Option<Seq<char>>
    decreases ws.len() - i,
{
    if i < 0 || i >= ws.len() {
        None
    } else if contains(ws[i], "kafka-server-start"@) && contains(ws[i], "/bin/"@) {
        match rfind(ws[i], "/bin/"@) {
            Some(b) => Some(ws[i].take(b + 4)),
            None => None,
        }
    } else {
        script_bin_dir(ws, i + 1)
    }
}

/// The first line of a text, empty when it has none.
pub open spec fn first_line_or_empty(s: Seq<char>) -> Seq<char> {
    if lines(s).len() > 0 {
        lines(s)[0]
    } else {
        Seq::empty()
    }
}

/// The `bin` directory the first `ps` line of a broker shows: from the classpath, else
/// from the start script it runs, else from its logs directory.
pub open spec fn broker_path_from_ps(ps: Seq<char>) -> Option<Seq<char>> {
    let line = first_line_or_empty(ps);
    match classpath_kafka_base(line) {
        Some(b) => Some(b + "/bin"@),
        None => match (if contains(line, "kafka-server-start"@) {
            script_bin_dir(words(line), 0)
        } else {
            None
        }) {
            Some(p) => Some(p),
            None => path_from_logs_dir(line),
        },
    }
}

/// The log4j configurations one command word names, with the name they are kept under.
pub open spec fn log4j_of_word(w: Seq<char>) -> Seq<(Seq<char>, Seq<char>)> {
    (if contains(w, "log4j.configuration="@) && split_once(w, '=') is Some {
        let p = split_once(w, '=').unwrap().1;
        seq![("log4j.properties"@, if starts_with(p, "file:"@) { p.skip(5) } else { p })]
    } else {
        Seq::empty()
    }) + (if contains(w, "log4j2.configurationFile="@) && split_once(w, '=') is Some {
        seq![("log4j2.xml"@, split_once(w, '=').unwrap().1)]
    } else {
        Seq::empty()
    })
}

/// The log4j configurations the command words name, in order.
pub open spec fn log4j_of_words(ws: Seq<Seq<char>>) -> Seq<(Seq<char>, Seq<char>)>
    decreases ws.len(),
{
    if ws.len() == 0 {
        Seq::empty()
    } else {
        log4j_of_words(ws.drop_last()) + log4j_of_word(ws.last())
    }
}

/// Whether a file read on a broker gave content: it is not empty and is no error text.
pub open spec fn usable_content_spec(content: Seq<char>) -> bool {
    content.len() > 0 && !contains(content, "No such file"@)
}

/// Whether a file read on a broker gave content: it is not empty and is no error text.
pub fn usable_content(content: &str) -> (b: bool)
    ensures
        b == usable_content_spec(content@),
{
    !content.is_empty() && !str_contains(content, "No such file")
}

fn log4j_word_entries(w: &str, out: &mut Vec<(String, String)>)
    ensures
        final(out)@.map_values(|e: (String, String)| (e.0@, e.1@)) == old(out)@.map_values(
            |e: (String, String)| (e.0@, e.1@),
        ) + log4j_of_word(w@),
{
    let ghost before = out@.map_values(|e: (String, String)| (e.0@, e.1@));
    if str_contains(w, "log4j.configuration=") {
        match split_once_char(w, '=') {
            Some((_, p)) => {
                proof {
                    reveal_strlit("file:");
                }
                let path = if str_starts_with(p.as_str(), "file:") {
                    skip_str(p.as_str(), 5)
                } else {
                    p
                };
                out.push((owned("log4j.properties"), path));
            },
            None => {},
        }
    }
    let ghost mid = out@.map_values(|e: (String, String)| (e.0@, e.1@));
    if str_contains(w, "log4j2.configurationFile=") {
        match split_once_char(w, '=') {
            Some((_, p)) => {
                out.push((owned("log4j2.xml"), p));
            },
            None => {},
        }
    }
    proof {
        let first = if contains(w@, "log4j.configuration="@) && split_once(w@, '=') is Some {
            let p = split_once(w@, '=').unwrap().1;
            seq![("log4j.properties"@, if starts_with(p, "file:"@) { p.skip(5) } else { p })]
        } else {
            Seq::empty()
        };
        assert(mid =~= before + first);
        assert(out@.map_values(|e: (String, String)| (e.0@, e.1@)) =~= before + log4j_of_word(w@));
    }
}

impl BrokerCollector {
    /// The `bin` directory of the Kafka installation that the broker's systemd unit
    /// starts, read from its `ExecStart=` lines.
    pub fn installation_path_from_service(&self, service_content: &str) -> (r: Option<String>)
        ensures
            opt_text(r) == path_from_unit(lines(service_content@), 0),
    {
        let ls = split_lines(service_content);
        let ghost sl = lines(service_content@);
        let mut i: usize = 0;
        while i < ls.len()
            invariant
                i <= ls@.len() == sl.len(),
                ls@.map_values(|x: String| x@) == sl,
                sl == lines(service_content@),
                path_from_unit(sl, 0) == path_from_unit(sl, i as int),
            decreases ls@.len() - i,
        {
            proof {
                assert(ls@.map_values(|x: String| x@)[i as int] == ls@[i as int]@);
            }
            match exec_start_path(ls[i].as_str()) {
                Some(p) => return Some(p),
                None => {},
            }
            i = i + 1;
        }
        None
    }

    /// The `bin` directory of the Kafka installation that the broker's first `ps` line
    /// shows.
    pub fn installation_path_from_ps(&self, ps_output: &str) -> (r: Option<String>)
        ensures
            opt_text(r) == broker_path_from_ps(ps_output@),
    {
        let ls = split_lines(ps_output);
        let line = if ls.len() > 0 {
            proof {
                assert(ls@.map_values(|x: String| x@)[0] == ls@[0]@);
            }
            ls[0].clone()
        } else {
            String::new()
        };
        assert(line@ == first_line_or_empty(ps_output@));
        match kafka_base_from_classpath(line.as_str()) {
            Some(b) => return Some(concat(b.as_str(), "/bin")),
            None => {},
        }
        if str_contains(line.as_str(), "kafka-server-start") {
            let ws = split_words(line.as_str());
            match script_dir_of(&ws) {
                Some(p) => return Some(p),
                None => {},
            }
        }
        logs_dir_path(line.as_str())
    }

    /// The runtime configuration files the broker's first `ps` line names: the first
    /// argument ending with `server.properties`, and each log4j configuration with the
    /// name it is kept under; none when there is no line.
    pub fn runtime_config_files(&self, ps_output: &str) -> (r: Option<(Option<String>, Vec<(String, String)>)>)
        ensures
            match r {
                Some((props, log4j)) => lines(ps_output@).len() > 0
                    && opt_text(props) == properties_word(words(lines(ps_output@)[0]), 0)
                    && log4j@.map_values(|e: (String, String)| (e.0@, e.1@)) == log4j_of_words(words(lines(ps_output@)[0])),
                None => lines(ps_output@).len() == 0,
            },
    {
        let ls = split_lines(ps_output);
        if ls.len() == 0 {
            return None;
        }
        proof {
            assert(ls@.map_values(|x: String| x@)[0] == ls@[0]@);
        }
        let ws = split_words(ls[0].as_str());
        let ghost wv = ws@.map_values(|s: String| s@);
        let props = properties_word_of(&ws, 0);
        let mut log4j: Vec<(String, String)> = Vec::new();
        let mut k: usize = 0;
        assert(wv.take(0) =~= Seq::<Seq<char>>::empty());
        while k < ws.len()
            invariant
                k <= ws@.len() == wv.len(),
                wv == ws@.map_values(|s: String| s@),
                log4j@.map_values(|e: (String, String)| (e.0@, e.1@)) == log4j_of_words(wv.take(k as int)),
            decreases ws@.len() - k,
        {
            proof {
                assert(wv[k as int] == ws@[k as int]@);
                assert(wv.take(k + 1).drop_last() =~= wv.take(k as int));
            }
            log4j_word_entries(ws[k].as_str(), &mut log4j);
            k = k + 1;
        }
        assert(wv.take(k as int) =~= wv);
        Some((props, log4j))
    }
}

fn exec_start_path(line: &str) -> (r: Option<String>)
    ensures
        opt_text(r) == path_from_exec_start(line@),
{
    proof {
        reveal_strlit("ExecStart=");
        reveal_strlit("/bin/");
    }
    let t = trimmed(line);
    if !str_starts_with(t.as_str(), "ExecStart=") {
        return None;
    }
    let e = skip_str(t.as_str(), 10);
    match find_str(e.as_str(), "kafka-server-start.sh") {
        Some(p) => {
            proof {
                crate::text::lemma_find_spec(e@, "kafka-server-start.sh"@);
            }
            let ev = chars_of(e.as_str());
            let before = string_of(&ev, 0, p);
            let bv = chars_of(before.as_str());
            let bin = chars_of("/bin/");
            match crate::text::rfind_exec(&bv, &bin) {
                Some(b) => {
                    proof {
                        crate::text::lemma_rfind_to_facts(bv@, bin@, bv@.len() - bin@.len());
                    }
                    let out = string_of(&ev, 0, b + 4);
                    assert(out@ =~= e@.take(b + 4));
                    Some(out)
                },
                None => None,
            }
        },
        None => None,
    }
}

fn script_dir_of(ws: &Vec<String>) -> (r: Option<String>)
    ensures
        opt_text(r) == script_bin_dir(ws@.map_values(|s: String| s@), 0),
{
    let ghost wv = ws@.map_values(|s: String| s@);
    proof {
        reveal_strlit("/bin/");
    }
    let mut i: usize = 0;
    while i < ws.len()
        invariant
            i <= ws@.len() == wv.len(),
            wv == ws@.map_values(|s: String| s@),
            script_bin_dir(wv, 0) == script_bin_dir(wv, i as int),
        decreases ws@.len() - i,
    {
        proof {
            assert(wv[i as int] == ws@[i as int]@);
            reveal_strlit("/bin/");
        }
        let w = ws[i].as_str();
        if str_contains(w, "kafka-server-start") && str_contains(w, "/bin/") {
            let v = chars_of(w);
            let bin = chars_of("/bin/");
            match crate::text::rfind_exec(&v, &bin) {
                Some(b) => {
                    proof {
                        crate::text::lemma_rfind_to_facts(v@, bin@, v@.len() - bin@.len());
                        assert(bin@.len() == 5);
                        assert(b + 5 <= v@.len());
                    }
                    let n = v.len();
                    assert(b + 4 < n);
                    return Some(string_of(&v, 0, b + 4));
                },
                None => return None,
            }
        }
        i = i + 1;
    }
    None
}

/// How many lines start with `Topic:`, one per partition description.
pub open spec fn described_topic_lines(ls: Seq<Seq<char>>) -> nat
    decreases ls.len(),
{
    if ls.len() == 0 {
        0
    } else {
        described_topic_lines(ls.drop_last()) + if starts_with(ls.last(), "Topic:"@) { 1nat } else { 0nat }
    }
}

/// How many lines hold more than whitespace.
pub open spec fn nonblank_lines(ls: Seq<Seq<char>>) -> nat
    decreases ls.len(),
{
    if ls.len() == 0 {
        0
    } else {
        nonblank_lines(ls.drop_last()) + if trim(ls.last()).len() > 0 { 1nat } else { 0nat }
    }
}

/// The topic a `- name:` line of `kafkactl get topics` names: its second `:`-separated
/// piece, trimmed and unquoted, when that is not empty.
pub open spec fn kafkactl_topic_of_line(l: Seq<char>) -> Option<Seq<char>> {
    if starts_with(trim(l), "- name:"@) && split_char(l, ':').len() > 1 {
        let t = trim_matches(trim(split_char(l, ':')[1]), '"');
        if t.len() > 0 {
            Some(t)
        } else {
            None
        }
    } else {
        None
    }
}

/// The `- name:` lines of `kafkactl get topics`.
pub open spec fn kafkactl_topic_lines(ls: Seq<Seq<char>>) -> nat
    decreases ls.len(),
{
    if ls.len() == 0 {
        0
    } else {
        kafkactl_topic_lines(ls.drop_last()) + if starts_with(trim(ls.last()), "- name:"@) { 1nat } else { 0nat }
    }
}

/// The topics the `- name:` lines of `kafkactl get topics` name, in order.
pub open spec fn kafkactl_topics(ls: Seq<Seq<char>>) -> Seq<Seq<char>>
    decreases ls.len(),
{
    if ls.len() == 0 {
        Seq::empty()
    } else {
        kafkactl_topics(ls.drop_last()) + match kafkactl_topic_of_line(ls.last()) {
            Some(t) => seq![t],
            None => Seq::empty(),
        }
    }
}

/// The number of partition descriptions `kafka-topics.sh --describe` printed.
pub fn count_described_topics(output: &str) -> (n: usize)
    ensures
        n == described_topic_lines(lines(output@)),
{
    let ls = split_lines(output);
    let ghost sl = lines(output@);
    let mut n: usize = 0;
    let mut i: usize = 0;
    assert(sl.take(0) =~= Seq::<Seq<char>>::empty());
    while i < ls.len()
        invariant
            i <= ls@.len() == sl.len(),
            ls@.map_values(|x: String| x@) == sl,
            n == described_topic_lines(sl.take(i as int)),
            n <= i,
        decreases ls@.len() - i,
    {
        proof {
            assert(ls@.map_values(|x: String| x@)[i as int] == ls@[i as int]@);
            assert(sl.take(i + 1).drop_last() =~= sl.take(i as int));
        }
        if str_starts_with(ls[i].as_str(), "Topic:") {
            n = n + 1;
        }
        i = i + 1;
    }
    assert(sl.take(i as int) =~= sl);
    n
}

/// The number of topics `kafka-topics.sh --list` printed: its non-blank lines.
pub fn count_listed_topics(output: &str) -> (n: usize)
    ensures
        n == nonblank_lines(lines(output@)),
{
    let ls = split_lines(output);
    let ghost sl = lines(output@);
    let mut n: usize = 0;
    let mut i: usize = 0;
    assert(sl.take(0) =~= Seq::<Seq<char>>::empty());
    while i < ls.len()
        invariant
            i <= ls@.len() == sl.len(),
            ls@.map_values(|x: String| x@) == sl,
            n == nonblank_lines(sl.take(i as int)),
            n <= i,
        decreases ls@.len() - i,
    {
        proof {
            assert(ls@.map_values(|x: String| x@)[i as int] == ls@[i as int]@);
            assert(sl.take(i + 1).drop_last() =~= sl.take(i as int));
        }
        let t = trimmed(ls[i].as_str());
        if !t.as_str().is_empty() {
            n = n + 1;
        }
        i = i + 1;
    }
    assert(sl.take(i as int) =~= sl);
    n
}

/// The number of topics `kafkactl get topics -o yaml` listed: its `- name:` lines.
pub fn count_kafkactl_topics(yaml: &str) -> (n: usize)
    ensures
        n == kafkactl_topic_lines(lines(yaml@)),
{
    let ls = split_lines(yaml);
    let ghost sl = lines(yaml@);
    let mut n: usize = 0;
    let mut i: usize = 0;
    assert(sl.take(0) =~= Seq::<Seq<char>>::empty());
    while i < ls.len()
        invariant
            i <= ls@.len() == sl.len(),
            ls@.map_values(|x: String| x@) == sl,
            n == kafkactl_topic_lines(sl.take(i as int)),
            n <= i,
        decreases ls@.len() - i,
    {
        proof {
            assert(ls@.map_values(|x: String| x@)[i as int] == ls@[i as int]@);
            assert(sl.take(i + 1).drop_last() =~= sl.take(i as int));
        }
        let t = trimmed(ls[i].as_str());
        if str_starts_with(t.as_str(), "- name:") {
            n = n + 1;
        }
        i = i + 1;
    }
    assert(sl.take(i as int) =~= sl);
    n
}

/// The topics `kafkactl get topics -o yaml` listed, to be described one by one.
pub fn kafkactl_topic_names(yaml: &str) -> (r: Vec<String>)
    ensures
        r@.map_values(|t: String| t@) == kafkactl_topics(lines(yaml@)),
{
    let ls = split_lines(yaml);
    let ghost sl = lines(yaml@);
    let mut r: Vec<String> = Vec::new();
    let mut i: usize = 0;
    assert(sl.take(0) =~= Seq::<Seq<char>>::empty());
    while i < ls.len()
        invariant
            i <= ls@.len() == sl.len(),
            ls@.map_values(|x: String| x@) == sl,
            r@.map_values(|t: String| t@) == kafkactl_topics(sl.take(i as int)),
        decreases ls@.len() - i,
    {
        proof {
            assert(ls@.map_values(|x: String| x@)[i as int] == ls@[i as int]@);
            assert(sl.take(i + 1).drop_last() =~= sl.take(i as int));
        }
        let line = ls[i].as_str();
        let t = trimmed(line);
        let ghost before = r@.map_values(|t: String| t@);
        if str_starts_with(t.as_str(), "- name:") {
            let parts = split_on_char(line, ':');
            if parts.len() > 1 {
                proof {
                    assert(parts@.map_values(|x: String| x@)[1] == parts@[1]@);
                }
                let inner = trimmed(parts[1].as_str());
                let name = trimmed_matches(inner.as_str(), '"');
                if !name.as_str().is_empty() {
                    r.push(name);
                }
            }
        }
        assert(r@.map_values(|t: String| t@) =~= kafkactl_topics(sl.take(i + 1)));
        i = i + 1;
    }
    assert(sl.take(i as int) =~= sl);
    r
}

/// A log's name with `/` and spaces made `_` and leading `_` dropped.
pub open spec fn flattened_log_name(name: Seq<char>) -> Seq<char> {
    strip_leading(replace_all(replace_all(name, "/"@, "_"@), " "@, "_"@), '_')
}

/// The file a discovered log is saved as: its flattened name; `unknown.log` when that is
/// empty; over 100 bytes, its first 97 bytes and `.log`.
pub open spec fn saved_log_name(name: Seq<char>) -> Seq<char> {
    let t = flattened_log_name(name);
    if t.len() == 0 {
        "unknown.log"@
    } else if byte_len(t) > 100 {
        t.take(choose|k: int| 0 <= k <= t.len() && #[trigger] byte_len(t.take(k)) == 97) + ".log"@
    } else {
        t
    }
}

/// The names whose cut after 97 bytes would fall inside a character.
pub open spec fn saved_log_name_fails_hard(name: Seq<char>) -> bool {
    byte_len(flattened_log_name(name)) > 100 && !byte_boundary(flattened_log_name(name), 97)
}

/// Whether saving a log under its name would cut inside a character.
pub fn saved_log_name_fails_hard_exec(name: &str) -> (b: bool)
    ensures
        b == saved_log_name_fails_hard(name@),
{
    proof {
        reveal_strlit("/");
        reveal_strlit(" ");
    }
    let t = without_leading(replace_str(replace_str(name, "/", "_").as_str(), " ", "_").as_str(), '_');
    let v = chars_of(t.as_str());
    let total = crate::log_sources::byte_count(&v, 0, v.len());
    assert(v@.subrange(0, v@.len() as int) =~= v@);
    total > 100 && !has_byte_boundary(&v, 97)
}

/// The file a discovered log is saved as.
pub fn saved_log_name_of(name: &str) -> (r: String)
    requires
        !saved_log_name_fails_hard(name@),
    ensures
        r@ == saved_log_name(name@),
{
    proof {
        reveal_strlit("/");
        reveal_strlit(" ");
    }
    let t = without_leading(replace_str(replace_str(name, "/", "_").as_str(), " ", "_").as_str(), '_');
    let v = chars_of(t.as_str());
    if v.len() == 0 {
        return owned("unknown.log");
    }
    let total = crate::log_sources::byte_count(&v, 0, v.len());
    assert(v@.subrange(0, v@.len() as int) =~= v@);
    if total > 100 {
        let k = prefix_with_bytes(&v, 97);
        proof {
            let w = choose|k: int| 0 <= k <= v@.len() && #[trigger] byte_len(v@.take(k)) == 97;
            lemma_byte_len_prefix_unique(v@, k as int, w);
        }
        let head = string_of(&v, 0, k);
        assert(head@ =~= v@.take(k as int));
        concat(head.as_str(), ".log")
    } else {
        t
    }
}

proof fn lemma_byte_len_prefix_unique(s: Seq<char>, a: int, b: int)
    requires
        0 <= a <= s.len(),
        0 <= b <= s.len(),
        byte_len(s.take(a)) == byte_len(s.take(b)),
    ensures
        a == b,
{
    if a < b {
        crate::llm::lemma_byte_len_take_mono(s, a, b);
    } else if b < a {
        crate::llm::lemma_byte_len_take_mono(s, b, a);
    }
}

/// The file a log read by the older discovery is saved as: its path with `/` made `_`
/// and leading `_` dropped.
pub fn legacy_log_name(path: &str) -> (r: String)
    ensures
        r@ == strip_leading(replace_all(path@, "/"@, "_"@), '_'),
{
    proof {
        reveal_strlit("/");
    }
    without_leading(replace_str(path, "/", "_").as_str(), '_')
}

} // verus!
