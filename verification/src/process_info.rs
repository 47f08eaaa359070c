//! What a broker host says about its Kafka process: the `ps` line of the JVM,
//! the systemd unit that runs it and the environment files the unit reads.
use vstd::prelude::*;
use crate::text::{
    trim, contains, find, starts_with, ends_with, split_once, trim_matches, lines, words,
    owned, str_contains, str_starts_with, str_ends_with, trimmed, split_lines, split_words,
    split_once_char, skip_str, find_str, trimmed_matches, chars_of, string_of, str_eq, opt_text,
    concat, file_name_of, path_file_name,
};
use crate::strmap::StrMap;
use crate::numbers::{parse_u32, parse_u32_spec};
use crate::log_sources::{after_eq, byte_len, byte_count, lemma_byte_len_bound, width_of};

verus! {

/// A Kafka JVM as `ps` shows it.
#[derive(Debug)]
pub struct KafkaProcessInfo {
    pub pid: u32,
    pub command_line: String,
    pub service_name: Option<String>,
    pub config_paths: Vec<String>,
    pub log4j_path: Option<String>,
    pub environment_vars: StrMap,
}

/// A systemd unit and what it sets up for the process it runs.
#[derive(Debug)]
pub struct SystemdServiceInfo {
    pub service_name: String,
    pub service_content: String,
    pub environment_file: Option<String>,
    pub environment_vars: StrMap,
    pub exec_start: Option<String>,
}

/// What a ps line could not give.
#[derive(Debug, Clone, Copy, PartialEq, Eq, Structural)]
pub enum ProcessParseError {
    /// The output has no line.
    EmptyOutput,
    /// The first line has fewer than eleven columns.
    InvalidFormat,
    /// The second column is not a process id.
    InvalidPid,
}

/// What a systemctl status text could not give.
#[derive(Debug, Clone, Copy, PartialEq, Eq, Structural)]
pub enum SystemdParseError {
    /// The output has no line.
    EmptyStatus,
    /// The first line has no `name - description` part.
    ServiceNameNotFound,
}

/// The first line of a text.
pub open spec fn first_line(s: Seq<char>) -> Option<Seq<char>> {
    if lines(s).len() > 0 {
        Some(lines(s)[0])
    } else {
        None
    }
}

/// The bytes of the first `k` columns, each counted with one separator.
pub open spec fn columns_bytes(parts: Seq<Seq<char>>, k: nat) -> int
    decreases k,
{
    if k == 0 {
        0
    } else {
        columns_bytes(parts, (k - 1) as nat) + byte_len(parts[k - 1]) + 1
    }
}

/// The byte offset at which the command of a ps line is taken to start: after ten
/// columns and the nine single separators between them.
pub open spec fn command_offset(parts: Seq<Seq<char>>) -> int {
    columns_bytes(parts, 10) - 1
}

/// The character position, at or after `k`, at which the first `k`.. characters of `s`
/// take exactly `b` bytes; none when `b` falls inside a character.
pub open spec fn boundary_from(s: Seq<char>, b: int, k: int) -> Option<int>
    decreases s.len() + 1 - k,
{
    if k < 0 || k > s.len() {
        None
    } else if byte_len(s.take(k)) == b {
        Some(k)
    } else if byte_len(s.take(k)) > b {
        None
    } else {
        boundary_from(s, b, k + 1)
    }
}

/// The command of a ps line: the text from the command offset on when that offset lies
/// inside the line, else the whole line; none when the offset splits a character.
pub open spec fn command_of(line: Seq<char>) -> Option<Seq<char>> {
    let b = command_offset(words(line));
    if b < byte_len(line) {
        match boundary_from(line, b, 0) {
            Some(k) => Some(line.skip(k)),
            None => None,
        }
    } else {
        Some(line)
    }
}

/// The ps outputs whose command offset would cut a character in two.
pub open spec fn process_info_fails_hard(ps: Seq<char>) -> bool {
    match first_line(ps) {
        Some(l) => words(l).len() >= 11 && parse_u32_spec(words(l)[1]) is Some && command_of(l) is None,
        None => false,
    }
}

/// The words that name configuration files.
pub open spec fn config_paths_of(ws: Seq<Seq<char>>) -> Seq<Seq<char>>
    decreases ws.len(),
{
    if ws.len() == 0 {
        Seq::empty()
    } else {
        let rest = config_paths_of(ws.drop_first());
        if ends_with(ws[0], ".properties"@) || ends_with(ws[0], ".conf"@) {
            seq![ws[0]] + rest
        } else {
            rest
        }
    }
}

/// The log4j configuration the first word that sets one names (a `file:` prefix of the
/// log4j 1 setting dropped).
pub open spec fn log4j_path_in(ws: Seq<Seq<char>>) -> Option<Seq<char>>
    decreases ws.len(),
{
    if ws.len() == 0 {
        None
    } else {
        let w = ws[0];
        if contains(w, "log4j.configuration="@) {
            let p = after_eq(w);
            Some(if starts_with(p, "file:"@) { p.skip(5) } else { p })
        } else if contains(w, "log4j2.configurationFile="@) {
            Some(after_eq(w))
        } else {
            log4j_path_in(ws.drop_first())
        }
    }
}

/// What the first line of ps output gives: the process id and the command.
pub open spec fn process_of(ps: Seq<char>) -> Result<(u32, Seq<char>), ProcessParseError> {
    match first_line(ps) {
        None => Err(ProcessParseError::EmptyOutput),
        Some(l) => if words(l).len() < 11 {
            Err(ProcessParseError::InvalidFormat)
        } else {
            match parse_u32_spec(words(l)[1]) {
                None => Err(ProcessParseError::InvalidPid),
                Some(pid) => Ok((pid, command_of(l).unwrap())),
            }
        },
    }
}

/// The parser of ps output.
pub struct ProcessParser;

fn boundary_index(v: &Vec<char>, b: u128) -> (r: Option<usize>)
    ensures
        match r {
            Some(k) => boundary_from(v@, b as int, 0) == Some(k as int) && k <= v@.len(),
            None => boundary_from(v@, b as int, 0) is None,
        },
{
    let n = v.len();
    let mut k: usize = 0;
    let mut acc: u128 = 0;
    assert(v@.take(0) =~= Seq::<char>::empty());
    while k < n && acc < b
        invariant
            k <= n == v@.len(),
            acc == byte_len(v@.take(k as int)),
            boundary_from(v@, b as int, 0) == boundary_from(v@, b as int, k as int),
        decreases n - k,
    {
        proof {
            lemma_byte_len_bound(v@.take(k as int));
            assert(v@.take(k + 1).drop_last() =~= v@.take(k as int));
        }
        assert(acc <= 4 * k);
        acc = acc + width_of(v[k]);
        assert(v@.take(k + 1).last() == v@[k as int]);
        k = k + 1;
    }
    if acc == b {
        Some(k)
    } else {
        proof {
            if k == n && acc < b {
                assert(boundary_from(v@, b as int, n + 1) is None);
            }
        }
        None
    }
}

/// Whether reading the command of the first ps line would cut a character in two, which
/// reading the process from that output does not allow.
pub fn process_info_fails_hard_exec(ps_output: &str) -> (b: bool)
    ensures
        b == process_info_fails_hard(ps_output@),
{
    let ls = split_lines(ps_output);
    if ls.len() == 0 {
        return false;
    }
    let line = &ls[0];
    proof {
        assert(ls@.map_values(|x: String| x@)[0] == line@);
    }
    let parts = split_words(line.as_str());
    if parts.len() < 11 {
        return false;
    }
    proof {
        assert(parts@.map_values(|x: String| x@)[1] == parts@[1]@);
    }
    if parse_u32(parts[1].as_str()).is_none() {
        return false;
    }
    let ghost ws = words(line@);
    let mut offset: u128 = 0;
    let mut k: usize = 0;
    while k < 10
        invariant
            k <= 10,
            parts@.len() >= 11,
            parts@.map_values(|x: String| x@) == ws,
            offset == columns_bytes(ws, k as nat),
            k <= offset <= (k as int) * 0x5_0000_0000_0000_0000,
        decreases 10 - k,
    {
        let wv = chars_of(parts[k].as_str());
        let m = wv.len();
        let wb = byte_count(&wv, 0, m);
        proof {
            assert(parts@.map_values(|x: String| x@)[k as int] == parts@[k as int]@);
            assert(wv@.subrange(0, m as int) =~= ws[k as int]);
            lemma_byte_len_bound(ws[k as int]);
            assert(m <= 0xffff_ffff_ffff_ffff);
            assert(wb <= 4 * 0x1_0000_0000_0000_0000);
            assert(offset + wb + 1 <= (k + 1) * 0x5_0000_0000_0000_0000 <= 10 * 0x5_0000_0000_0000_0000)
                by (nonlinear_arith)
                requires
                    offset <= (k as int) * 0x5_0000_0000_0000_0000,
                    wb <= 4 * 0x1_0000_0000_0000_0000,
                    k < 10,
            ;
        }
        offset = offset + wb + 1;
        k = k + 1;
    }
    let lv = chars_of(line.as_str());
    let ln = lv.len();
    let total = byte_count(&lv, 0, ln);
    assert(lv@.subrange(0, ln as int) =~= line@);
    if offset - 1 < total {
        boundary_index(&lv, offset - 1).is_none()
    } else {
        false
    }
}

impl ProcessParser {
    /// The Kafka process the first line of ps output describes: its process id (second
    /// column) and command (from the byte offset just after ten columns), with the
    /// configuration files and log4j configuration the command names.
    pub fn parse_process_info(ps_output: &str) -> (r: Result<KafkaProcessInfo, ProcessParseError>)
        requires
            !process_info_fails_hard(ps_output@),
        ensures
            match r {
                Ok(info) => process_of(ps_output@) == Ok::<(u32, Seq<char>), ProcessParseError>((info.pid, info.command_line@))
                    && info.config_paths@.map_values(|p: String| p@) == config_paths_of(words(info.command_line@))
                    && opt_text(info.log4j_path) == log4j_path_in(words(info.command_line@))
                    && info.service_name is None && info.environment_vars@ == Map::<Seq<char>, Seq<char>>::empty(),
                Err(e) => process_of(ps_output@) == Err::<(u32, Seq<char>), ProcessParseError>(e),
            },
    {
        let ls = split_lines(ps_output);
        if ls.len() == 0 {
            return Err(ProcessParseError::EmptyOutput);
        }
        let line = &ls[0];
        proof {
            assert(ls@.map_values(|x: String| x@)[0] == line@);
        }
        let parts = split_words(line.as_str());
        proof {
            assert(parts@.map_values(|x: String| x@) == words(line@));
        }
        if parts.len() < 11 {
            return Err(ProcessParseError::InvalidFormat);
        }
        let pid = match parse_u32(parts[1].as_str()) {
            Some(p) => p,
            None => {
                proof {
                    assert(parts@.map_values(|x: String| x@)[1] == parts@[1]@);
                }
                return Err(ProcessParseError::InvalidPid);
            },
        };
        proof {
            assert(parts@.map_values(|x: String| x@)[1] == parts@[1]@);
        }
        let ghost ws = words(line@);
        let mut offset: u128 = 0;
        let mut k: usize = 0;
        while k < 10
            invariant
                k <= 10,
                parts@.len() >= 11,
                parts@.map_values(|x: String| x@) == ws,
                offset == columns_bytes(ws, k as nat),
                k <= offset <= (k as int) * 0x5_0000_0000_0000_0000,
            decreases 10 - k,
        {
            let wv = chars_of(parts[k].as_str());
            let m = wv.len();
            let wb = byte_count(&wv, 0, m);
            proof {
                assert(parts@.map_values(|x: String| x@)[k as int] == parts@[k as int]@);
                assert(wv@.subrange(0, m as int) =~= ws[k as int]);
                lemma_byte_len_bound(ws[k as int]);
                assert(m <= 0xffff_ffff_ffff_ffff);
                assert(wb <= 4 * 0x1_0000_0000_0000_0000);
                assert(offset + wb + 1 <= (k + 1) * 0x5_0000_0000_0000_0000 <= 10 * 0x5_0000_0000_0000_0000)
                    by (nonlinear_arith)
                    requires
                        offset <= (k as int) * 0x5_0000_0000_0000_0000,
                        wb <= 4 * 0x1_0000_0000_0000_0000,
                        k < 10,
                ;
            }
            offset = offset + wb + 1;
            k = k + 1;
        }
        let lv = chars_of(line.as_str());
        let ln = lv.len();
        let total = byte_count(&lv, 0, ln);
        assert(lv@.subrange(0, ln as int) =~= line@);
        let command_line = if offset - 1 < total {
            match boundary_index(&lv, offset - 1) {
                Some(start) => {
                    let c = string_of(&lv, start, ln);
                    assert(c@ =~= line@.skip(start as int));
                    c
                },
                None => {
                    return Err(ProcessParseError::InvalidFormat);
                },
            }
        } else {
            line.clone()
        };
        let config_paths = Self::extract_config_paths(command_line.as_str());
        let log4j_path = Self::extract_log4j_path(command_line.as_str());
        Ok(KafkaProcessInfo {
            pid,
            command_line,
            service_name: None,
            config_paths,
            log4j_path,
            environment_vars: StrMap::new(),
        })
    }

    /// The words of a command line that name `.properties` or `.conf` files.
    pub fn extract_config_paths(cmdline: &str) -> (r: Vec<String>)
        ensures
            r@.map_values(|p: String| p@) == config_paths_of(words(cmdline@)),
    {
        let parts = split_words(cmdline);
        let ghost ws = words(cmdline@);
        let n = parts.len();
        let mut out: Vec<String> = Vec::new();
        let mut i: usize = 0;
        assert(ws.skip(0) =~= ws);
        assert(out@.map_values(|p: String| p@) + config_paths_of(ws) =~= config_paths_of(ws));
        while i < n
            invariant
                i <= n == parts@.len() == ws.len(),
                parts@.map_values(|x: String| x@) == ws,
                out@.map_values(|p: String| p@) + config_paths_of(ws.skip(i as int)) == config_paths_of(ws),
            decreases n - i,
        {
            proof {
                assert(parts@.map_values(|x: String| x@)[i as int] == parts@[i as int]@);
                assert(ws.skip(i as int).drop_first() =~= ws.skip(i + 1));
                assert(ws.skip(i as int)[0] == ws[i as int]);
            }
            let ghost before = out@.map_values(|p: String| p@);
            if str_ends_with(parts[i].as_str(), ".properties") || str_ends_with(parts[i].as_str(), ".conf") {
                let p = parts[i].clone();
                out.push(p);
                proof {
                    assert(out@.map_values(|p: String| p@) =~= before.push(ws[i as int]));
                    assert(before.push(ws[i as int]) + config_paths_of(ws.skip(i + 1)) =~= before + (seq![ws[i as int]]
                        + config_paths_of(ws.skip(i + 1))));
                }
            }
            i = i + 1;
        }
        proof {
            assert(ws.skip(n as int) =~= Seq::<Seq<char>>::empty());
            assert(out@.map_values(|p: String| p@) + Seq::empty() =~= out@.map_values(|p: String| p@));
        }
        out
    }

    /// The log4j configuration a command line names, by the first word that sets
    /// `log4j.configuration=` (a `file:` prefix dropped) or `log4j2.configurationFile=`.
    pub fn extract_log4j_path(cmdline: &str) -> (r: Option<String>)
        ensures
            opt_text(r) == log4j_path_in(words(cmdline@)),
    {
        let parts = split_words(cmdline);
        let ghost ws = words(cmdline@);
        let n = parts.len();
        let mut i: usize = 0;
        assert(ws.skip(0) =~= ws);
        while i < n
            invariant
                i <= n == parts@.len() == ws.len(),
                parts@.map_values(|x: String| x@) == ws,
                ws == words(cmdline@),
                log4j_path_in(ws.skip(i as int)) == log4j_path_in(ws),
            decreases n - i,
        {
            proof {
                assert(parts@.map_values(|x: String| x@)[i as int] == parts@[i as int]@);
                assert(ws.skip(i as int).drop_first() =~= ws.skip(i + 1));
                assert(ws.skip(i as int)[0] == ws[i as int]);
            }
            let part = parts[i].as_str();
            if str_contains(part, "log4j.configuration=") {
                let p = after_first_eq(part);
                if str_starts_with(p.as_str(), "file:") {
                    proof {
                        reveal_strlit("file:");
                    }
                    return Some(skip_str(p.as_str(), 5));
                }
                return Some(p);
            }
            if str_contains(part, "log4j2.configurationFile=") {
                return Some(after_first_eq(part));
            }
            i = i + 1;
        }
        assert(ws.skip(n as int) =~= Seq::<Seq<char>>::empty());
        None
    }
}

/// The text after the first `=`, empty when there is none.
fn after_first_eq(s: &str) -> (r: String)
    ensures
        r@ == after_eq(s@),
{
    match split_once_char(s, '=') {
        Some((_, v)) => v,
        None => String::new(),
    }
}


/// The unit name in the first line of systemctl status output (`● name - description`):
/// the text between the first space and the first ` - ` after it, trimmed.
pub open spec fn service_name_of(status: Seq<char>) -> Result<Seq<char>, SystemdParseError> {
    match first_line(status) {
        None => Err(SystemdParseError::EmptyStatus),
        Some(l) => match split_once(l, ' ') {
            Some((_, after)) => match find(after, " - "@) {
                Some(d) => Ok(trim(after.take(d))),
                None => Err(SystemdParseError::ServiceNameNotFound),
            },
            None => Err(SystemdParseError::ServiceNameNotFound),
        },
    }
}

/// What a unit file says so far: its environment file, variables and start command.
pub type UnitScan = (Option<Seq<char>>, Map<Seq<char>, Seq<char>>, Option<Seq<char>>);

/// One trimmed line of a unit file taken into account: `EnvironmentFile=` sets the file
/// (quotes trimmed), `Environment=KEY=value` a variable (key trimmed, value's quotes
/// trimmed), `ExecStart=` the start command; later lines win.
pub open spec fn unit_step(st: UnitScan, t: Seq<char>) -> UnitScan {
    if starts_with(t, "EnvironmentFile="@) {
        (Some(trim_matches(t.skip(16), '"')), st.1, st.2)
    } else if starts_with(t, "Environment="@) {
        match split_once(t.skip(12), '=') {
            Some((k, v)) => (st.0, st.1.insert(trim(k), trim_matches(v, '"')), st.2),
            None => st,
        }
    } else if starts_with(t, "ExecStart="@) {
        (st.0, st.1, Some(t.skip(10)))
    } else {
        st
    }
}

/// The unit file lines `ls` taken in order.
pub open spec fn unit_scan(ls: Seq<Seq<char>>) -> UnitScan
    decreases ls.len(),
{
    if ls.len() == 0 {
        (None, Map::empty(), None)
    } else {
        unit_step(unit_scan(ls.drop_last()), trim(ls.last()))
    }
}

/// One trimmed line of an environment file: blank lines and `#` comments are skipped;
/// `KEY=value` sets the variable (key trimmed, double then single quotes trimmed from
/// the value).
pub open spec fn env_file_step(m: Map<Seq<char>, Seq<char>>, t: Seq<char>) -> Map<Seq<char>, Seq<char>> {
    if t.len() == 0 || starts_with(t, "#"@) {
        m
    } else {
        match split_once(t, '=') {
            Some((k, v)) => m.insert(trim(k), trim_matches(trim_matches(v, '"'), '\'')),
            None => m,
        }
    }
}

/// The environment file lines `ls` taken in order.
pub open spec fn env_file_scan(ls: Seq<Seq<char>>) -> Map<Seq<char>, Seq<char>>
    decreases ls.len(),
{
    if ls.len() == 0 {
        Map::empty()
    } else {
        env_file_step(env_file_scan(ls.drop_last()), trim(ls.last()))
    }
}

/// The parser of systemd unit output.
pub struct SystemdParser;

impl SystemdParser {
    /// The unit name that systemctl status prints on its first line.
    pub fn extract_service_name(status_output: &str) -> (r: Result<String, SystemdParseError>)
        ensures
            match r {
                Ok(n) => service_name_of(status_output@) == Ok::<Seq<char>, SystemdParseError>(n@),
                Err(e) => service_name_of(status_output@) == Err::<Seq<char>, SystemdParseError>(e),
            },
    {
        let ls = split_lines(status_output);
        if ls.len() == 0 {
            return Err(SystemdParseError::EmptyStatus);
        }
        let first = &ls[0];
        proof {
            assert(ls@.map_values(|x: String| x@)[0] == first@);
        }
        match split_once_char(first.as_str(), ' ') {
            Some((_, after)) => match find_str(after.as_str(), " - ") {
                Some(d) => {
                    let av = chars_of(after.as_str());
                    proof {
                        crate::text::lemma_find_spec(after@, " - "@);
                    }
                    let name = string_of(&av, 0, d);
                    assert(name@ =~= after@.take(d as int));
                    Ok(trimmed(name.as_str()))
                },
                None => Err(SystemdParseError::ServiceNameNotFound),
            },
            None => Err(SystemdParseError::ServiceNameNotFound),
        }
    }

    /// The environment file, variables and start command a unit file sets.
    pub fn parse_service_content(content: &str) -> (r: (Option<String>, StrMap, Option<String>))
        ensures
            (opt_text(r.0), r.1@, opt_text(r.2)) == unit_scan(lines(content@)),
    {
        let ls = split_lines(content);
        let ghost sl = lines(content@);
        let n = ls.len();
        let mut environment_file: Option<String> = None;
        let mut environment_vars = StrMap::new();
        let mut exec_start: Option<String> = None;
        let mut i: usize = 0;
        assert(sl.take(0) =~= Seq::<Seq<char>>::empty());
        while i < n
            invariant
                i <= n == ls@.len() == sl.len(),
                ls@.map_values(|x: String| x@) == sl,
                (opt_text(environment_file), environment_vars@, opt_text(exec_start)) == unit_scan(sl.take(i as int)),
            decreases n - i,
        {
            proof {
                assert(ls@.map_values(|x: String| x@)[i as int] == ls@[i as int]@);
                assert(sl.take(i + 1).drop_last() =~= sl.take(i as int));
                assert(sl.take(i + 1).last() == sl[i as int]);
                reveal_strlit("EnvironmentFile=");
                reveal_strlit("Environment=");
                reveal_strlit("ExecStart=");
            }
            let line = trimmed(ls[i].as_str());
            if str_starts_with(line.as_str(), "EnvironmentFile=") {
                let rest = skip_str(line.as_str(), 16);
                environment_file = Some(trimmed_matches(rest.as_str(), '"'));
            } else if str_starts_with(line.as_str(), "Environment=") {
                let env_part = skip_str(line.as_str(), 12);
                match split_once_char(env_part.as_str(), '=') {
                    Some((k, v)) => {
                        let key = trimmed(k.as_str());
                        let value = trimmed_matches(v.as_str(), '"');
                        environment_vars.insert(key, value);
                    },
                    None => {},
                }
            } else if str_starts_with(line.as_str(), "ExecStart=") {
                exec_start = Some(skip_str(line.as_str(), 10));
            }
            i = i + 1;
        }
        assert(sl.take(n as int) =~= sl);
        (environment_file, environment_vars, exec_start)
    }

    /// The variables an environment file sets.
    pub fn parse_environment_file(content: &str) -> (r: StrMap)
        ensures
            r@ == env_file_scan(lines(content@)),
    {
        let ls = split_lines(content);
        let ghost sl = lines(content@);
        let n = ls.len();
        let mut vars = StrMap::new();
        let mut i: usize = 0;
        assert(sl.take(0) =~= Seq::<Seq<char>>::empty());
        while i < n
            invariant
                i <= n == ls@.len() == sl.len(),
                ls@.map_values(|x: String| x@) == sl,
                vars@ == env_file_scan(sl.take(i as int)),
            decreases n - i,
        {
            proof {
                assert(ls@.map_values(|x: String| x@)[i as int] == ls@[i as int]@);
                assert(sl.take(i + 1).drop_last() =~= sl.take(i as int));
                assert(sl.take(i + 1).last() == sl[i as int]);
            }
            let line = trimmed(ls[i].as_str());
            let lv = chars_of(line.as_str());
            if lv.len() == 0 || lv[0] == '#' {
                proof {
                    reveal_strlit("#");
                    if lv@.len() > 0 {
                        assert(line@.subrange(0, 1) =~= "#"@);
                    }
                }
            } else {
                proof {
                    reveal_strlit("#");
                    assert(!starts_with(line@, "#"@)) by {
                        if starts_with(line@, "#"@) {
                            assert(line@.subrange(0, 1)[0] == line@[0]);
                        }
                    }
                }
                match split_once_char(line.as_str(), '=') {
                    Some((k, v)) => {
                        let key = trimmed(k.as_str());
                        let v1 = trimmed_matches(v.as_str(), '"');
                        let value = trimmed_matches(v1.as_str(), '\'');
                        vars.insert(key, value);
                    },
                    None => {},
                }
            }
            i = i + 1;
        }
        assert(sl.take(n as int) =~= sl);
        vars
    }
}

/// Where a log discovery runs its commands: through a bastion to a broker, or on a
/// broker directly, or on this host.
pub struct EnhancedLogDiscovery {
    bastion_alias: Option<String>,
    broker_hostname: Option<String>,
}

/// The bastion and broker an executor description names: a description holding `ssh`
/// with at least four words, the second being `ssh`, names the first word as bastion
/// and the last as broker; any other description is the broker's hostname.
pub open spec fn executor_hosts(ssh_executor: Option<Seq<char>>) -> (Option<Seq<char>>, Option<Seq<char>>) {
    match ssh_executor {
        Some(s) => if contains(s, "ssh"@) && words(s).len() >= 4 && words(s)[1] == "ssh"@ {
            (Some(words(s)[0]), Some(words(s).last()))
        } else {
            (None, Some(s))
        },
        None => (None, None),
    }
}

impl EnhancedLogDiscovery {
    /// The bastion commands go through, if any.
    pub closed spec fn bastion(&self) -> Option<Seq<char>> {
        opt_text(self.bastion_alias)
    }

    /// The broker commands run on, if any.
    pub closed spec fn broker(&self) -> Option<Seq<char>> {
        opt_text(self.broker_hostname)
    }

    /// A discovery for the hosts an executor description names.
    pub fn new(ssh_executor: Option<String>) -> (d: EnhancedLogDiscovery)
        ensures
            (d.bastion(), d.broker()) == executor_hosts(opt_text(ssh_executor)),
    {
        match ssh_executor {
            Some(ssh_str) => {
                if str_contains(ssh_str.as_str(), "ssh") {
                    let parts = split_words(ssh_str.as_str());
                    let n = parts.len();
                    proof {
                        assert(parts@.map_values(|x: String| x@) == words(ssh_str@));
                    }
                    if n >= 4 && str_eq(parts[1].as_str(), "ssh") {
                        proof {
                            assert(parts@.map_values(|x: String| x@)[1] == parts@[1]@);
                            assert(parts@.map_values(|x: String| x@)[0] == parts@[0]@);
                            assert(parts@.map_values(|x: String| x@)[n - 1] == parts@[n - 1]@);
                        }
                        return EnhancedLogDiscovery {
                            bastion_alias: Some(parts[0].clone()),
                            broker_hostname: Some(parts[n - 1].clone()),
                        };
                    }
                    proof {
                        if n >= 4 {
                            assert(parts@.map_values(|x: String| x@)[1] == parts@[1]@);
                        }
                    }
                }
                EnhancedLogDiscovery { bastion_alias: None, broker_hostname: Some(ssh_str) }
            },
            None => EnhancedLogDiscovery { bastion_alias: None, broker_hostname: None },
        }
    }
}

/// Everything a log discovery found, step by step.
pub struct EnhancedLogResult {
    pub process_info: Option<KafkaProcessInfo>,
    pub systemd_info: Option<SystemdServiceInfo>,
    pub log_output_info: Option<crate::log_sources::LogOutputInfo>,
    pub discovered_logs: StrMap,
    pub discovery_steps: Vec<String>,
    pub warnings: Vec<String>,
}

impl EnhancedLogDiscovery {
    /// The bastion commands go through, if any.
    pub fn bastion_alias(&self) -> (r: Option<&String>)
        ensures
            opt_text(match r { Some(s) => Some(*s), None => None }) == self.bastion(),
    {
        self.bastion_alias.as_ref()
    }

    /// The broker commands run on, if any.
    pub fn broker_hostname(&self) -> (r: Option<&String>)
        ensures
            opt_text(match r { Some(s) => Some(*s), None => None }) == self.broker(),
    {
        self.broker_hostname.as_ref()
    }
}

/// The log4j configuration path as a file path: a `file:` prefix dropped.
pub fn clean_log4j_path(path: &str) -> (r: String)
    ensures
        r@ == (if starts_with(path@, "file:"@) { path@.skip(5) } else { path@ }),
{
    proof {
        reveal_strlit("file:");
    }
    if str_starts_with(path, "file:") {
        skip_str(path, 5)
    } else {
        owned(path)
    }
}

/// The name a collected log file is kept under: its log type, `_`, and its file name
/// (empty when the path has none).
pub fn collected_log_name(location: &crate::log_sources::LogFileLocation) -> (r: String)
    ensures
        r@ == location.log_type@ + "_"@ + match file_name_of(location.path@) {
            Some(n) => n,
            None => Seq::empty(),
        },
{
    let prefix = concat(location.log_type.as_str(), "_");
    match path_file_name(location.path.as_str()) {
        Some(n) => concat(prefix.as_str(), n.as_str()),
        None => prefix,
    }
}

} // verus!
