//! Where a broker writes its logs, read from its log4j configuration: the file
//! appenders it declares, with the paths' variables resolved, and whether it
//! also writes to the console.
use vstd::prelude::*;
use crate::text::{
    trim, contains, find, split_char, split_once, replace_all, lines, owned, concat,
    str_contains, trimmed, split_lines, split_once_char, replace_str, str_eq, find_str, skip_str,
};
use crate::strmap::StrMap;
use crate::json::JsonValue;
use crate::log_discovery::split_on_char;

verus! {

/// One log file a configuration names.
#[derive(Clone, Debug)]
pub struct LogFileLocation {
    pub path: String,
    pub log_type: String,
    pub appender_name: String,
}

/// What a log4j configuration says about where logs go.
#[derive(Clone, Debug)]
pub struct LogOutputInfo {
    pub log_files: Vec<LogFileLocation>,
    pub uses_stdout: bool,
    pub uses_journald: bool,
    pub log4j_analysis: String,
}

/// A log file location as plain text: path, log type and appender name.
pub open spec fn location_view(l: LogFileLocation) -> (Seq<char>, Seq<char>, Seq<char>) {
    (l.path@, l.log_type@, l.appender_name@)
}

/// A line that declares a file appender's file.
pub open spec fn file_appender_line(t: Seq<char>) -> bool {
    contains(t, "appender"@) && contains(t, ".File="@)
}

/// A line that mentions a console appender.
pub open spec fn console_line(t: Seq<char>) -> bool {
    contains(t, "ConsoleAppender"@) || contains(t, "console"@)
}

/// The kind of log a file path names, by the first of `server`, `controller`, `state`,
/// `request` and `gc` that it contains.
pub open spec fn log_type_name(p: Seq<char>) -> Seq<char> {
    if contains(p, "server"@) {
        "server"@
    } else if contains(p, "controller"@) {
        "controller"@
    } else if contains(p, "state"@) {
        "state-change"@
    } else if contains(p, "request"@) {
        "request"@
    } else if contains(p, "gc"@) {
        "gc"@
    } else {
        "custom"@
    }
}

/// The piece after the first piece `appender` (at or after `i`) that has one after it.
pub open spec fn piece_after_appender(ps: Seq<Seq<char>>, i: int) -> Option<Seq<char>>
    decreases ps.len() - i,
{
    if i < 0 || i >= ps.len() {
        None
    } else if ps[i] == "appender"@ && i + 1 < ps.len() {
        Some(ps[i + 1])
    } else {
        piece_after_appender(ps, i + 1)
    }
}

/// The appender a configuration line names: the dot-separated piece after `appender`
/// when the line holds `.appender.`, else `detected`.
pub open spec fn appender_name(t: Seq<char>) -> Seq<char> {
    if contains(t, ".appender."@) {
        match piece_after_appender(split_char(t, '.'), 0) {
            Some(n) => n,
            None => "detected"@,
        }
    } else {
        "detected"@
    }
}

/// `${k}`, then `$k`, replaced by `v` throughout `path`.
pub open spec fn substitute_var(path: Seq<char>, k: Seq<char>, v: Seq<char>) -> Seq<char> {
    replace_all(replace_all(path, "${"@ + k + "}"@, v), "$"@ + k, v)
}

/// Every variable of `keys` substituted in turn, with its value in `env`.
pub open spec fn substitute_vars(path: Seq<char>, keys: Seq<Seq<char>>, env: Map<Seq<char>, Seq<char>>) -> Seq<char>
    decreases keys.len(),
{
    if keys.len() == 0 {
        path
    } else {
        substitute_var(substitute_vars(path, keys.drop_last(), env), keys.last(), env[keys.last()])
    }
}

/// The Kafka log directory placeholders, when any is left, replaced by `/opt/kafka/logs`.
pub open spec fn log_dir_fallback(p: Seq<char>) -> Seq<char> {
    if contains(p, "${kafka.logs.dir}"@) || contains(p, "${log.dir}"@) {
        replace_all(replace_all(p, "${kafka.logs.dir}"@, "/opt/kafka/logs"@), "${log.dir}"@, "/opt/kafka/logs"@)
    } else {
        p
    }
}

/// A path with the variables of a map resolved, keys taken in the map's order.
pub open spec fn resolved_path(path: Seq<char>, env: StrMap) -> Seq<char> {
    log_dir_fallback(substitute_vars(path, env.key_seq(), env@))
}

/// The text after the first `=` of a line.
pub open spec fn after_eq(t: Seq<char>) -> Seq<char> {
    match split_once(t, '=') {
        Some((_, v)) => v,
        None => Seq::empty(),
    }
}

/// The file locations declared by the (untrimmed) lines `ls`, in order.
pub open spec fn file_locations(ls: Seq<Seq<char>>, env: StrMap) -> Seq<(Seq<char>, Seq<char>, Seq<char>)>
    decreases ls.len(),
{
    if ls.len() == 0 {
        Seq::empty()
    } else {
        let t = trim(ls[0]);
        let rest = file_locations(ls.drop_first(), env);
        if file_appender_line(t) {
            let p = resolved_path(trim(after_eq(t)), env);
            seq![(p, log_type_name(p), appender_name(t))] + rest
        } else {
            rest
        }
    }
}

/// Some line of `ls`, trimmed, mentions a console appender.
pub open spec fn mentions_console(ls: Seq<Seq<char>>) -> bool {
    exists|i: int| 0 <= i < ls.len() && console_line(trim(#[trigger] ls[i]))
}

/// The parser of log4j configurations.
pub struct Log4jParser;

impl Log4jParser {
    /// The log outputs a log4j configuration declares: each line that names an appender's
    /// `.File=` gives a location (path resolved against `env_vars`, log type from the path,
    /// appender from the key); a line that mentions the console makes the broker write to
    /// stdout, which journald collects.
    pub fn parse(log4j_content: &str, env_vars: &StrMap) -> (r: LogOutputInfo)
        ensures
            r.log_files@.map_values(|l: LogFileLocation| location_view(l)) == file_locations(
                lines(log4j_content@),
                *env_vars,
            ),
            r.uses_stdout == mentions_console(lines(log4j_content@)),
            r.uses_journald == r.uses_stdout,
            r.log4j_analysis@ == "Basic parsing"@,
    {
        let ls = split_lines(log4j_content);
        let ghost sl = lines(log4j_content@);
        let mut log_files: Vec<LogFileLocation> = Vec::new();
        let mut uses_stdout = false;
        let n = ls.len();
        let mut i: usize = 0;
        assert(ls@.map_values(|x: String| x@) == sl);
        assert(sl.skip(0) =~= sl);
        assert(log_files@.map_values(|l: LogFileLocation| location_view(l)) + file_locations(sl, *env_vars)
            =~= file_locations(sl, *env_vars));
        while i < n
            invariant
                i <= n == ls@.len() == sl.len(),
                ls@.map_values(|x: String| x@) == sl,
                log_files@.map_values(|l: LogFileLocation| location_view(l)) + file_locations(
                    sl.skip(i as int),
                    *env_vars,
                ) == file_locations(sl, *env_vars),
                uses_stdout == exists|j: int| 0 <= j < i && console_line(trim(#[trigger] sl[j])),
            decreases n - i,
        {
            let line = trimmed(ls[i].as_str());
            proof {
                assert(ls@[i as int]@ == sl[i as int]);
                assert(sl.skip(i as int).drop_first() =~= sl.skip(i + 1));
                assert(sl.skip(i as int)[0] == sl[i as int]);
            }
            let ghost before = log_files@.map_values(|l: LogFileLocation| location_view(l));
            if str_contains(line.as_str(), "appender") && str_contains(line.as_str(), ".File=") {
                let value = match split_once_char(line.as_str(), '=') {
                    Some((_, v)) => v,
                    None => String::new(),
                };
                let file_path = Self::resolve_env_vars(trimmed(value.as_str()).as_str(), env_vars);
                let log_type = Self::determine_log_type(file_path.as_str());
                let appender_name = Self::extract_appender_name(line.as_str());
                let loc = LogFileLocation { path: file_path, log_type, appender_name };
                log_files.push(loc);
                proof {
                    assert(log_files@.map_values(|l: LogFileLocation| location_view(l)) =~= before.push(
                        location_view(loc),
                    ));
                    assert(before.push(location_view(loc)) + file_locations(sl.skip(i + 1), *env_vars)
                        =~= before + (seq![location_view(loc)] + file_locations(sl.skip(i + 1), *env_vars)));
                }
            }
            if str_contains(line.as_str(), "ConsoleAppender") || str_contains(line.as_str(), "console") {
                uses_stdout = true;
            }
            proof {
                if console_line(trim(sl[i as int])) {
                    assert(exists|j: int| 0 <= j < i + 1 && console_line(trim(#[trigger] sl[j])));
                }
                if exists|j: int| 0 <= j < i + 1 && console_line(trim(#[trigger] sl[j])) {
                    if !console_line(trim(sl[i as int])) {
                        let j = choose|j: int| 0 <= j < i + 1 && console_line(trim(#[trigger] sl[j]));
                        assert(j < i);
                    }
                }
            }
            i = i + 1;
        }
        proof {
            assert(sl.skip(n as int) =~= Seq::<Seq<char>>::empty());
            assert(log_files@.map_values(|l: LogFileLocation| location_view(l)) + Seq::empty()
                =~= log_files@.map_values(|l: LogFileLocation| location_view(l)));
        }
        LogOutputInfo { log_files, uses_stdout, uses_journald: uses_stdout, log4j_analysis: owned("Basic parsing") }
    }

    /// The path with `${KEY}` and `$KEY` replaced by each variable's value, then the Kafka
    /// log directory placeholders, if any remain, by `/opt/kafka/logs`.
    pub fn resolve_env_vars(path: &str, env_vars: &StrMap) -> (r: String)
        ensures
            r@ == resolved_path(path@, *env_vars),
    {
        let pairs = env_vars.pairs();
        let ghost keys = env_vars.key_seq();
        let mut resolved = owned(path);
        let n = pairs.len();
        let mut i: usize = 0;
        proof {
            env_vars.lemma_key_seq();
            assert(keys.take(0) =~= Seq::<Seq<char>>::empty());
        }
        while i < n
            invariant
                i <= n == pairs@.len() == keys.len(),
                keys == env_vars.key_seq(),
                forall|j: int| 0 <= j < pairs@.len() ==> (#[trigger] pairs@[j]).0@ == keys[j]
                    && pairs@[j].1@ == env_vars@[keys[j]],
                resolved@ == substitute_vars(path@, keys.take(i as int), env_vars@),
            decreases n - i,
        {
            let key = &pairs[i].0;
            let value = &pairs[i].1;
            let braced = concat(concat("${", key.as_str()).as_str(), "}");
            let bare = concat("$", key.as_str());
            proof {
                reveal_strlit("${");
                reveal_strlit("}");
                reveal_strlit("$");
                assert(keys.take(i + 1).drop_last() =~= keys.take(i as int));
                assert(keys.take(i + 1).last() == keys[i as int]);
            }
            let step = replace_str(resolved.as_str(), braced.as_str(), value.as_str());
            resolved = replace_str(step.as_str(), bare.as_str(), value.as_str());
            i = i + 1;
        }
        assert(keys.take(n as int) =~= keys);
        if str_contains(resolved.as_str(), "${kafka.logs.dir}") || str_contains(resolved.as_str(), "${log.dir}") {
            proof {
                reveal_strlit("${kafka.logs.dir}");
                reveal_strlit("${log.dir}");
            }
            let step = replace_str(resolved.as_str(), "${kafka.logs.dir}", "/opt/kafka/logs");
            replace_str(step.as_str(), "${log.dir}", "/opt/kafka/logs")
        } else {
            resolved
        }
    }

    /// The kind of log a file path names.
    pub fn determine_log_type(file_path: &str) -> (r: String)
        ensures
            r@ == log_type_name(file_path@),
    {
        if str_contains(file_path, "server") {
            owned("server")
        } else if str_contains(file_path, "controller") {
            owned("controller")
        } else if str_contains(file_path, "state") {
            owned("state-change")
        } else if str_contains(file_path, "request") {
            owned("request")
        } else if str_contains(file_path, "gc") {
            owned("gc")
        } else {
            owned("custom")
        }
    }

    /// The appender a configuration line names.
    pub fn extract_appender_name(line: &str) -> (r: String)
        ensures
            r@ == appender_name(line@),
    {
        if str_contains(line, ".appender.") {
            let parts = split_on_char(line, '.');
            let ghost ps = split_char(line@, '.');
            let n = parts.len();
            let mut i: usize = 0;
            while i < n
                invariant
                    i <= n == parts@.len() == ps.len(),
                    parts@.map_values(|x: String| x@) == ps,
                    ps == split_char(line@, '.'),
                    contains(line@, ".appender."@),
                    piece_after_appender(ps, 0) == piece_after_appender(ps, i as int),
                decreases n - i,
            {
                proof {
                    assert(parts@[i as int]@ == ps[i as int]);
                    reveal_strlit("appender");
                }
                if str_eq(parts[i].as_str(), "appender") && i + 1 < n {
                    let r = parts[i + 1].clone();
                    proof {
                        assert(parts@[i + 1]@ == ps[i + 1]);
                        assert(ps[i as int] == "appender"@);
                        assert(piece_after_appender(ps, i as int) == Some(ps[i + 1]));
                    }
                    return r;
                }
                i = i + 1;
            }
            assert(piece_after_appender(ps, n as int) is None);
            owned("detected")
        } else {
            owned("detected")
        }
    }
}


/// How many bytes UTF-8 takes for a character.
pub open spec fn char_width(c: char) -> nat {
    if (c as u32) < 0x80 {
        1
    } else if (c as u32) < 0x800 {
        2
    } else if (c as u32) < 0x10000 {
        3
    } else {
        4
    }
}

/// The length in bytes of a text's UTF-8 encoding, as `str::len` gives it.
pub open spec fn byte_len(s: Seq<char>) -> nat
    decreases s.len(),
{
    if s.len() == 0 {
        0
    } else {
        byte_len(s.drop_last()) + char_width(s.last())
    }
}

pub proof fn lemma_byte_len_bound(s: Seq<char>)
    ensures
        s.len() <= byte_len(s) <= 4 * s.len(),
    decreases s.len(),
{
    if s.len() > 0 {
        lemma_byte_len_bound(s.drop_last());
    }
}

pub fn width_of(c: char) -> (w: u128)
    ensures
        w == char_width(c),
{
    let n = c as u32;
    if n < 0x80 {
        1
    } else if n < 0x800 {
        2
    } else if n < 0x10000 {
        3
    } else {
        4
    }
}

/// The number of bytes of `v[from..to]`.
pub fn byte_count(v: &Vec<char>, from: usize, to: usize) -> (r: u128)
    requires
        from <= to <= v@.len(),
    ensures
        r == byte_len(v@.subrange(from as int, to as int)),
{
    let mut r: u128 = 0;
    let mut i = from;
    assert(v@.subrange(from as int, from as int) =~= Seq::<char>::empty());
    while i < to
        invariant
            from <= i <= to <= v@.len(),
            r == byte_len(v@.subrange(from as int, i as int)),
        decreases to - i,
    {
        proof {
            lemma_byte_len_bound(v@.subrange(from as int, i as int));
            assert(v@.subrange(from as int, i + 1).drop_last() =~= v@.subrange(from as int, i as int));
        }
        r = r + width_of(v[i]);
        i = i + 1;
    }
    r
}

/// Strategy one: the trimmed text of the first code block opened by three backquotes and
/// `json` and closed by three backquotes.
pub open spec fn fenced_json(s: Seq<char>) -> Option<Seq<char>> {
    match find(s, "```json"@) {
        Some(p) => match find(s.skip(p + 7), "```"@) {
            Some(q) => Some(trim(s.subrange(p + 7, p + 7 + q))),
            None => None,
        },
        None => None,
    }
}

/// The end (exclusive) of the brace group whose scan reached position `j` at nesting
/// `depth`: the position after the `}` that brings the nesting back to zero.
pub open spec fn close_from(s: Seq<char>, j: int, depth: int) -> Option<int>
    decreases s.len() - j,
{
    if j < 0 || j >= s.len() {
        None
    } else if s[j] == '{' {
        close_from(s, j + 1, depth + 1)
    } else if s[j] == '}' {
        if depth - 1 == 0 {
            Some(j + 1)
        } else {
            close_from(s, j + 1, depth - 1)
        }
    } else {
        close_from(s, j + 1, depth)
    }
}

/// Strategy two, over the braces before position `n`: the longest (in bytes, the first
/// of equal ones) balanced brace group that holds `log_files`, with its length.
pub open spec fn best_object(s: Seq<char>, n: int) -> (Option<Seq<char>>, nat)
    decreases n,
{
    if n <= 0 {
        (None, 0)
    } else {
        let prev = best_object(s, n - 1);
        let i = n - 1;
        if s[i] == '{' {
            match close_from(s, i, 0) {
                Some(e) => {
                    let cand = s.subrange(i, e);
                    if byte_len(cand) > prev.1 && contains(cand, "log_files"@) {
                        (Some(cand), byte_len(cand))
                    } else {
                        prev
                    }
                },
                None => prev,
            }
        } else {
            prev
        }
    }
}

/// Strategy three: from the first `{` to the last `}`.
pub open spec fn outer_braces(s: Seq<char>) -> Option<Seq<char>> {
    match (find(s, seq!['{']), crate::text::rfind(s, seq!['}'])) {
        (Some(a), Some(b)) => Some(s.subrange(a, b + 1)),
        _ => None,
    }
}

/// The JSON text a reply holds, by the first strategy that finds one.
pub open spec fn extracted_json(s: Seq<char>) -> Option<Seq<char>> {
    match fenced_json(s) {
        Some(j) => Some(j),
        None => match best_object(s, s.len() as int).0 {
            Some(b) => Some(b),
            None => outer_braces(s),
        },
    }
}

/// The replies on which the third strategy would cut a text whose last `}` comes before
/// its first `{` (the slice would run backwards).
pub open spec fn json_extraction_fails_hard(s: Seq<char>) -> bool {
    &&& fenced_json(s) is None
    &&& best_object(s, s.len() as int).0 is None
    &&& match (find(s, seq!['{']), crate::text::rfind(s, seq!['}'])) {
        (Some(a), Some(b)) => b + 1 < a,
        _ => false,
    }
}

fn fenced(response: &str) -> (r: Option<String>)
    ensures
        match r {
            Some(j) => fenced_json(response@) == Some(j@),
            None => fenced_json(response@) is None,
        },
{
    let whole = crate::text::chars_of(response);
    let _n = whole.len();
    match find_str(response, "```json") {
        Some(p) => {
            proof {
                crate::text::lemma_find_spec(response@, "```json"@);
                reveal_strlit("```json");
            }
            let rest = skip_str(response, p + 7);
            match find_str(rest.as_str(), "```") {
                Some(q) => {
                    proof {
                        crate::text::lemma_find_spec(rest@, "```"@);
                        reveal_strlit("```");
                        assert(rest@.take(q as int) =~= response@.subrange(p + 7, p + 7 + q));
                    }
                    let rv = crate::text::chars_of(rest.as_str());
                    let body = crate::text::string_of(&rv, 0, q);
                    assert(body@ =~= rest@.take(q as int));
                    Some(trimmed(body.as_str()))
                },
                None => None,
            }
        },
        None => None,
    }
}

fn brace_close(v: &Vec<char>, i: usize) -> (r: Option<usize>)
    requires
        i < v@.len(),
        v@[i as int] == '{',
    ensures
        match r {
            Some(e) => close_from(v@, i as int, 0) == Some(e as int) && i < e <= v@.len(),
            None => close_from(v@, i as int, 0) is None,
        },
{
    let n = v.len();
    let mut depth: usize = 1;
    let mut j: usize = i + 1;
    assert(close_from(v@, i as int, 0) == close_from(v@, i + 1, 1));
    while j < n
        invariant
            i < j <= n == v@.len(),
            1 <= depth <= j - i,
            close_from(v@, i as int, 0) == close_from(v@, j as int, depth as int),
        decreases n - j,
    {
        let c = v[j];
        if c == '{' {
            depth = depth + 1;
        } else if c == '}' {
            if depth == 1 {
                return Some(j + 1);
            }
            depth = depth - 1;
        }
        j = j + 1;
    }
    None
}

fn largest_object(v: &Vec<char>) -> (r: Option<String>)
    ensures
        match r {
            Some(b) => best_object(v@, v@.len() as int).0 == Some(b@),
            None => best_object(v@, v@.len() as int).0 is None,
        },
{
    let n = v.len();
    let mut best: Option<String> = None;
    let mut best_len: u128 = 0;
    let mut i: usize = 0;
    while i < n
        invariant
            i <= n == v@.len(),
            best_object(v@, i as int).1 == best_len,
            match best {
                Some(b) => best_object(v@, i as int).0 == Some(b@),
                None => best_object(v@, i as int).0 is None,
            },
        decreases n - i,
    {
        if v[i] == '{' {
            match brace_close(v, i) {
                Some(e) => {
                    let len = byte_count(v, i, e);
                    let cand = crate::text::string_of(v, i, e);
                    if len > best_len && str_contains(cand.as_str(), "log_files") {
                        best = Some(cand);
                        best_len = len;
                    }
                },
                None => {},
            }
        }
        i = i + 1;
    }
    best
}

impl Log4jParser {
    /// Whether extracting JSON from `response` would cut a backwards slice.
    pub fn extract_json_fails_hard(response: &str) -> (b: bool)
        ensures
            b == json_extraction_fails_hard(response@),
    {
        let v = crate::text::chars_of(response);
        if fenced(response).is_some() || largest_object(&v).is_some() {
            return false;
        }
        let open = crate::text::chars_of("{");
        let close = crate::text::chars_of("}");
        proof {
            reveal_strlit("{");
            reveal_strlit("}");
            assert(open@ =~= seq!['{']);
            assert(close@ =~= seq!['}']);
        }
        match (crate::text::find_exec(&v, &open), crate::text::rfind_exec(&v, &close)) {
            (Some(a), Some(b)) => b < a && a - b > 1,
            _ => false,
        }
    }

    /// The JSON text of a model's reply: a fenced `json` block, else the longest balanced
    /// brace group that mentions `log_files`, else everything from the first `{` to the
    /// last `}`.
    pub fn extract_json(response: &str) -> (r: Option<String>)
        requires
            !json_extraction_fails_hard(response@),
        ensures
            match r {
                Some(j) => extracted_json(response@) == Some(j@),
                None => extracted_json(response@) is None,
            },
    {
        if let Some(j) = fenced(response) {
            return Some(j);
        }
        let v = crate::text::chars_of(response);
        if let Some(b) = largest_object(&v) {
            return Some(b);
        }
        let open = crate::text::chars_of("{");
        let close = crate::text::chars_of("}");
        proof {
            reveal_strlit("{");
            reveal_strlit("}");
            assert(open@ =~= seq!['{']);
            assert(close@ =~= seq!['}']);
        }
        match (crate::text::find_exec(&v, &open), crate::text::rfind_exec(&v, &close)) {
            (Some(a), Some(b)) => {
                proof {
                    crate::text::lemma_rfind_to_facts(v@, seq!['}'], v@.len() - 1);
                }
                Some(crate::text::string_of(&v, a, b + 1))
            },
            _ => None,
        }
    }
}


/// The text of member `k`, when it is a string.
pub open spec fn member_text(v: JsonValue, k: Seq<char>) -> Option<Seq<char>> {
    match v.spec_get(k) {
        Some(m) => m.spec_str(),
        None => None,
    }
}

/// Member `k` when it is a boolean; false otherwise.
pub open spec fn member_flag(v: JsonValue, k: Seq<char>) -> bool {
    match v.spec_get(k) {
        Some(JsonValue::Bool(b)) => b,
        _ => false,
    }
}

/// The locations listed as objects with string `path`, `log_type` and `appender_name`.
pub open spec fn json_locations(es: Seq<JsonValue>) -> Seq<(Seq<char>, Seq<char>, Seq<char>)>
    decreases es.len(),
{
    if es.len() == 0 {
        Seq::empty()
    } else {
        let e = es[0];
        let rest = json_locations(es.drop_first());
        match (member_text(e, "path"@), member_text(e, "log_type"@), member_text(e, "appender_name"@)) {
            (Some(p), Some(t), Some(a)) => seq![(p, t, a)] + rest,
            _ => rest,
        }
    }
}

/// The locations that member `log_files` lists, when it is an array.
pub open spec fn listed_locations(v: JsonValue) -> Seq<(Seq<char>, Seq<char>, Seq<char>)> {
    match v.spec_get("log_files"@) {
        Some(JsonValue::Array(a)) => json_locations(a@),
        _ => Seq::empty(),
    }
}

fn member_string(v: &JsonValue, k: &str) -> (r: Option<String>)
    ensures
        match r {
            Some(t) => member_text(*v, k@) == Some(t@),
            None => member_text(*v, k@) is None,
        },
{
    match v.get(k) {
        Some(m) => match m.as_str() {
            Some(t) => Some(t.clone()),
            None => None,
        },
        None => None,
    }
}

fn member_bool(v: &JsonValue, k: &str) -> (b: bool)
    ensures
        b == member_flag(*v, k@),
{
    match v.get(k) {
        Some(m) => match m.as_bool() {
            Some(b) => b,
            None => false,
        },
        None => false,
    }
}

impl Log4jParser {
    /// The log outputs a model's JSON answer describes: the complete entries of
    /// `log_files`, the `uses_stdout` and `uses_journald` flags (false when absent) and the
    /// `analysis` text (`LLM analysis` when absent).
    pub fn log_output_from_json(json_value: &JsonValue) -> (r: LogOutputInfo)
        ensures
            r.log_files@.map_values(|l: LogFileLocation| location_view(l)) == listed_locations(*json_value),
            r.uses_stdout == member_flag(*json_value, "uses_stdout"@),
            r.uses_journald == member_flag(*json_value, "uses_journald"@),
            r.log4j_analysis@ == (match member_text(*json_value, "analysis"@) {
                Some(t) => t,
                None => "LLM analysis"@,
            }),
    {
        let mut log_files: Vec<LogFileLocation> = Vec::new();
        match json_value.get("log_files") {
            Some(files) => match files.as_array() {
                Some(arr) => {
                    let n = arr.len();
                    let mut i: usize = 0;
                    assert(arr@.skip(0) =~= arr@);
                    assert(log_files@.map_values(|l: LogFileLocation| location_view(l)) + json_locations(arr@)
                        =~= json_locations(arr@));
                    while i < n
                        invariant
                            i <= n == arr@.len(),
                            log_files@.map_values(|l: LogFileLocation| location_view(l)) + json_locations(
                                arr@.skip(i as int),
                            ) == json_locations(arr@),
                        decreases n - i,
                    {
                        proof {
                            assert(arr@.skip(i as int).drop_first() =~= arr@.skip(i + 1));
                            assert(arr@.skip(i as int)[0] == arr@[i as int]);
                        }
                        let e = &arr[i];
                        let ghost before = log_files@.map_values(|l: LogFileLocation| location_view(l));
                        match (member_string(e, "path"), member_string(e, "log_type"), member_string(e, "appender_name")) {
                            (Some(path), Some(log_type), Some(appender_name)) => {
                                let loc = LogFileLocation { path, log_type, appender_name };
                                log_files.push(loc);
                                proof {
                                    assert(log_files@.map_values(|l: LogFileLocation| location_view(l)) =~= before.push(
                                        location_view(loc),
                                    ));
                                    assert(before.push(location_view(loc)) + json_locations(arr@.skip(i + 1))
                                        =~= before + (seq![location_view(loc)] + json_locations(arr@.skip(i + 1))));
                                }
                            },
                            _ => {},
                        }
                        i = i + 1;
                    }
                    proof {
                        assert(arr@.skip(n as int) =~= Seq::<JsonValue>::empty());
                        assert(log_files@.map_values(|l: LogFileLocation| location_view(l)) + Seq::empty()
                            =~= log_files@.map_values(|l: LogFileLocation| location_view(l)));
                    }
                },
                None => {},
            },
            None => {},
        }
        let uses_stdout = member_bool(json_value, "uses_stdout");
        let uses_journald = member_bool(json_value, "uses_journald");
        let log4j_analysis = match member_string(json_value, "analysis") {
            Some(t) => t,
            None => owned("LLM analysis"),
        };
        LogOutputInfo { log_files, uses_stdout, uses_journald, log4j_analysis }
    }
}


/// The variables as `KEY=value` lines joined by newlines, keys in the map's order.
pub open spec fn joined_vars(keys: Seq<Seq<char>>, env: Map<Seq<char>, Seq<char>>) -> Seq<char>
    decreases keys.len(),
{
    if keys.len() == 0 {
        Seq::empty()
    } else if keys.len() == 1 {
        keys[0] + "="@ + env[keys[0]]
    } else {
        joined_vars(keys.drop_last(), env) + "\n"@ + keys.last() + "="@ + env[keys.last()]
    }
}

/// The text before the variables in the prompt.
pub open spec fn prompt_head() -> Seq<char> {
    "Analyze this Kafka log4j configuration and determine where logs are written.\n\nEnvironment Variables:\n"@
}

/// The text between the variables and the configuration in the prompt.
pub open spec fn prompt_middle() -> Seq<char> {
    "\n\nLog4j Configuration:\n"@
}

/// The instructions after the configuration in the prompt.
pub open spec fn prompt_tail() -> Seq<char> {
    PROMPT_TAIL@
}

/// The instructions that close the prompt.
pub const PROMPT_TAIL: &'static str = "\n\nIMPORTANT: Respond with ONLY valid JSON, no explanations or additional text.\n\nJSON Structure Required:\n{\n  \"log_files\": [\n    {\n      \"path\": \"/resolved/path/to/logfile.log\",\n      \"log_type\": \"server|controller|state-change|request|gc|custom\",\n      \"appender_name\": \"appender_name\"\n    }\n  ],\n  \"uses_stdout\": true/false,\n  \"uses_journald\": true/false,\n  \"analysis\": \"Brief explanation of the log configuration\"\n}\n\nRequirements:\n1. Resolve variable substitutions like ${kafka.logs.dir}, ${LOG_DIR} using environment variables\n2. Identify if logs go to stdout/console (appears in journald)\n3. Classify log types by appender names/file names\n4. Use full resolved file paths\n5. Return ONLY the JSON object, no other text";

/// The model-based analyser of log4j configurations.
pub struct LlmLogAnalyzer;

impl LlmLogAnalyzer {
    /// The prompt that asks a model where a log4j configuration writes its logs: the
    /// variables (one `KEY=value` line each), the configuration, and the JSON shape wanted.
    pub fn create_analysis_prompt(log4j_content: &str, env_vars: &StrMap) -> (r: String)
        ensures
            r@ == prompt_head() + joined_vars(env_vars.key_seq(), env_vars@) + prompt_middle()
                + log4j_content@ + prompt_tail(),
    {
        let pairs = env_vars.pairs();
        let ghost keys = env_vars.key_seq();
        let n = pairs.len();
        let mut joined = String::new();
        let mut i: usize = 0;
        assert(keys.take(0) =~= Seq::<Seq<char>>::empty());
        while i < n
            invariant
                i <= n == pairs@.len() == keys.len(),
                keys == env_vars.key_seq(),
                forall|j: int| 0 <= j < pairs@.len() ==> (#[trigger] pairs@[j]).0@ == keys[j]
                    && pairs@[j].1@ == env_vars@[keys[j]],
                joined@ == joined_vars(keys.take(i as int), env_vars@),
            decreases n - i,
        {
            proof {
                assert(keys.take(i + 1).drop_last() =~= keys.take(i as int));
                assert(keys.take(i + 1).last() == keys[i as int]);
                if i == 0 {
                    assert(keys.take(1)[0] == keys[0]);
                }
            }
            if i > 0 {
                joined = concat(joined.as_str(), "\n");
            }
            joined = concat(joined.as_str(), pairs[i].0.as_str());
            joined = concat(joined.as_str(), "=");
            joined = concat(joined.as_str(), pairs[i].1.as_str());
            proof {
                if i == 0 {
                    assert(joined@ =~= keys.take(1)[0] + "="@ + env_vars@[keys.take(1)[0]]);
                } else {
                    assert(joined@ =~= joined_vars(keys.take(i as int), env_vars@) + "\n"@ + keys.take(i + 1).last()
                        + "="@ + env_vars@[keys.take(i + 1).last()]);
                }
            }
            i = i + 1;
        }
        assert(keys.take(n as int) =~= keys);
        let mut r = owned("Analyze this Kafka log4j configuration and determine where logs are written.\n\nEnvironment Variables:\n");
        r = concat(r.as_str(), joined.as_str());
        r = concat(r.as_str(), "\n\nLog4j Configuration:\n");
        r = concat(r.as_str(), log4j_content);
        r = concat(r.as_str(), PROMPT_TAIL);
        r
    }

    /// The outcome of the analysis: the model's answer when it found log files, else the
    /// plain parse of the configuration (also when the model could not be asked or its
    /// answer could not be read).
    pub fn choose_output(answer: Option<LogOutputInfo>, log4j_content: &str, env_vars: &StrMap) -> (r: LogOutputInfo)
        ensures
            match answer {
                Some(a) if a.log_files@.len() > 0 => r == a,
                _ => r.log_files@.map_values(|l: LogFileLocation| location_view(l)) == file_locations(
                    lines(log4j_content@),
                    *env_vars,
                ) && r.uses_stdout == mentions_console(lines(log4j_content@)) && r.uses_journald
                    == r.uses_stdout && r.log4j_analysis@ == "Basic parsing"@,
            },
    {
        match answer {
            Some(a) => {
                if a.log_files.len() > 0 {
                    a
                } else {
                    Log4jParser::parse(log4j_content, env_vars)
                }
            },
            None => Log4jParser::parse(log4j_content, env_vars),
        }
    }
}

} // verus!
