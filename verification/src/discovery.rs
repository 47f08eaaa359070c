//! Reading broker lists out of what discovery tools print: `kafkactl get brokers`,
//! `kafka-metadata-shell`, and `kafka-broker-api-versions`.
use vstd::prelude::*;
use crate::text::{
    before_char, chars_of, contains, first_piece, lines, split_lines, split_words,
    starts_with, str_contains, string_of, strip_trailing, trim, trim_bounds, trim_matches,
    without_trailing,
    trim_matches_bounds, words, lemma_trim_start_facts, find, rfind, replace_all, trim_end_str_spec,
    trim_end_str, find_str, skip_str, trimmed, concat, replace_str, str_eq, owned, opt_text,
};
use crate::numbers::{parse_i32, parse_i32_spec};
use crate::scan::{BrokerInfo, datacenter_of};

verus! {

/// A broker as a parser has read it: its id and hostname.
pub open spec fn broker_entry(b: BrokerInfo) -> (i32, Seq<char>) {
    (b.id, b.hostname@)
}

/// The brokers read, as id and hostname, each with the datacenter its hostname names.
pub open spec fn brokers_read(r: Seq<BrokerInfo>, entries: Seq<(i32, Seq<char>)>) -> bool {
    &&& r.map_values(|b: BrokerInfo| broker_entry(b)) == entries
    &&& forall|i: int| 0 <= i < r.len() ==> #[trigger] r[i].datacenter@ == datacenter_of(r[i].hostname@)
}

/// A broker entry is kept when its id is not -1 and its hostname is not empty.
pub open spec fn valid_entry(b: (i32, Seq<char>)) -> bool {
    b.0 != -1 && b.1.len() > 0
}

/// The hostname in the text after `address:`: trimmed, quotes stripped, port dropped.
pub open spec fn address_host(rest: Seq<char>) -> Seq<char> {
    before_char(trim_matches(trim(rest), '"'), ':')
}

/// The state of reading `kafkactl` output: the broker being read, whether a broker
/// entry has begun, and the brokers finished so far.
pub type KafkactlState = (Option<(i32, Seq<char>)>, bool, Seq<(i32, Seq<char>)>);

/// `st.2` with the broker being read appended when it is kept.
pub open spec fn flush(st: KafkactlState) -> Seq<(i32, Seq<char>)> {
    match st.0 {
        Some(b) => if valid_entry(b) {
            st.2.push(b)
        } else {
            st.2
        },
        None => st.2,
    }
}

/// One line of `kafkactl get brokers -o yaml`: `- id: <n>` finishes the broker being
/// read and begins a new one (none when `<n>` is not an `i32`); `address: <host:port>`
/// inside an entry sets the hostname; other lines change nothing.
pub open spec fn kafkactl_step(st: KafkactlState, line: Seq<char>) -> KafkactlState {
    let t = trim(line);
    if starts_with(t, "- id:"@) {
        match parse_i32_spec(trim(t.skip(5))) {
            Some(id) => (Some((id, Seq::empty())), true, flush(st)),
            None => (None, st.1, flush(st)),
        }
    } else if st.1 && st.0 is Some && starts_with(t, "address:"@) {
        match st.0 {
            Some(b) => (Some((b.0, address_host(t.skip(8)))), st.1, st.2),
            None => st,
        }
    } else {
        st
    }
}

pub open spec fn kafkactl_run(ls: Seq<Seq<char>>) -> KafkactlState
    decreases ls.len(),
{
    if ls.len() == 0 {
        (None, false, Seq::empty())
    } else {
        kafkactl_step(kafkactl_run(ls.drop_last()), ls.last())
    }
}

/// The brokers `kafkactl get brokers -o yaml` lists, in order, those with id -1 or no
/// address left out.
pub open spec fn kafkactl_brokers(text: Seq<char>) -> Seq<(i32, Seq<char>)> {
    flush(kafkactl_run(lines(text)))
}

/// The text after a prefix of `n` characters, trimmed, as a string.
fn trimmed_after(v: &Vec<char>, a: usize, b: usize, n: usize) -> (r: Vec<char>)
    requires
        a <= b <= v@.len(),
        n <= b - a,
    ensures
        r@ == trim(v@.subrange(a as int, b as int).skip(n as int)),
{
    let (x, y) = trim_bounds(v, a + n, b);
    assert(v@.subrange(a as int, b as int).skip(n as int) =~= v@.subrange(a + n, b as int));
    let mut r: Vec<char> = Vec::new();
    let mut i = x;
    while i < y
        invariant
            x <= i <= y <= v@.len(),
            r@ == v@.subrange(x as int, i as int),
        decreases y - i,
    {
        r.push(v[i]);
        i = i + 1;
        assert(r@ =~= v@.subrange(x as int, i as int));
    }
    r
}

/// Whether `v[a..b]` starts with the characters of `p`.
fn slice_starts_with(v: &Vec<char>, a: usize, b: usize, p: &str) -> (r: bool)
    requires
        a <= b <= v@.len(),
    ensures
        r == starts_with(v@.subrange(a as int, b as int), p@),
{
    let q = chars_of(p);
    if q.len() > b - a {
        return false;
    }
    let mut k: usize = 0;
    while k < q.len()
        invariant
            q@ == p@,
            a + q@.len() <= b <= v@.len(),
            k <= q@.len(),
            forall|j: int| 0 <= j < k ==> v@[a + j] == q@[j],
        decreases q@.len() - k,
    {
        if v[a + k] != q[k] {
            assert(v@.subrange(a as int, b as int).subrange(0, q@.len() as int)[k as int] != q@[k as int]);
            return false;
        }
        k = k + 1;
    }
    assert(v@.subrange(a as int, b as int).subrange(0, q@.len() as int) =~= q@);
    true
}

fn string_from(v: &Vec<char>) -> (r: String)
    ensures
        r@ == v@,
{
    crate::text::string_of_all(v)
}

/// The hostname of an `address:` value: trimmed, quotes stripped, port dropped.
fn host_of_address(rest: &Vec<char>) -> (r: String)
    ensures
        r@ == address_host(rest@),
{
    let (a, b) = trim_bounds(rest, 0, rest.len());
    assert(rest@.subrange(0, rest@.len() as int) =~= rest@);
    let (x, y) = trim_matches_bounds(rest, a, b, '"');
    let unquoted = string_of(rest, x, y);
    first_piece(unquoted.as_str(), ':')
}

/// Reads the brokers that `kafkactl get brokers -o yaml` lists.
pub fn parse_kafkactl_brokers(yaml_output: &str) -> (r: Vec<BrokerInfo>)
    ensures
        brokers_read(r@, kafkactl_brokers(yaml_output@)),
{
    let ls = split_lines(yaml_output);
    let ghost all = lines(yaml_output@);
    let mut current: Option<(i32, String)> = None;
    let mut in_section = false;
    let mut brokers: Vec<BrokerInfo> = Vec::new();
    let mut i: usize = 0;
    proof {
        assert(all.take(0) =~= Seq::<Seq<char>>::empty());
        assert(brokers@.map_values(|b: BrokerInfo| broker_entry(b)) =~= Seq::<(i32, Seq<char>)>::empty());
    }
    while i < ls.len()
        invariant
            i <= ls@.len(),
            ls@.map_values(|x: String| x@) == all,
            kafkactl_run(all.take(i as int)) == (
                match current {
                    Some(c) => Some((c.0, c.1@)),
                    None => None::<(i32, Seq<char>)>,
                },
                in_section,
                brokers@.map_values(|b: BrokerInfo| broker_entry(b)),
            ),
            forall|j: int| 0 <= j < brokers@.len() ==> #[trigger] brokers@[j].datacenter@ == datacenter_of(
                brokers@[j].hostname@,
            ),
        decreases ls@.len() - i,
    {
        proof {
            assert(all.take(i + 1).drop_last() =~= all.take(i as int));
            assert(all.take(i + 1).last() == ls@[i as int]@);
        }
        let v = chars_of(ls[i].as_str());
        let (a, b) = trim_bounds(&v, 0, v.len());
        proof {
            assert(v@.subrange(0, v@.len() as int) =~= v@);
        }
        let ghost st = kafkactl_run(all.take(i as int));
        if slice_starts_with(&v, a, b, "- id:") {
            proof {
                reveal_strlit("- id:");
            }
            let ghost before = brokers@.map_values(|bb: BrokerInfo| broker_entry(bb));
            match current {
                Some(c) => {
                    if c.0 != -1 && c.1.as_str().unicode_len() > 0 {
                        let info = BrokerInfo::with_inferred_datacenter(c.0, c.1);
                        brokers.push(info);
                        assert(brokers@.map_values(|bb: BrokerInfo| broker_entry(bb)) =~= before.push(
                            (info.id, info.hostname@),
                        ));
                    }
                },
                None => {},
            }
            assert(brokers@.map_values(|bb: BrokerInfo| broker_entry(bb)) == flush(st));
            let id_text = trimmed_after(&v, a, b, 5);
            let id_str = string_from(&id_text);
            match parse_i32(id_str.as_str()) {
                Some(id) => {
                    current = Some((id, String::new()));
                    in_section = true;
                },
                None => {
                    current = None;
                },
            }
        } else if in_section && current.is_some() && slice_starts_with(&v, a, b, "address:") {
            proof {
                reveal_strlit("address:");
            }
            let after = skip_chars(&v, a, b, 8);
            let hostname = host_of_address(&after);
            let id = match &current {
                Some(c) => c.0,
                None => -1,
            };
            current = Some((id, hostname));
        }
        i = i + 1;
    }
    proof {
        assert(all.take(i as int) =~= all);
    }
    let ghost st = kafkactl_run(all);
    let ghost before = brokers@.map_values(|bb: BrokerInfo| broker_entry(bb));
    match current {
        Some(c) => {
            if c.0 != -1 && c.1.as_str().unicode_len() > 0 {
                let info = BrokerInfo::with_inferred_datacenter(c.0, c.1);
                brokers.push(info);
                assert(brokers@.map_values(|bb: BrokerInfo| broker_entry(bb)) =~= before.push(
                    (info.id, info.hostname@),
                ));
            }
        },
        None => {},
    }
    brokers
}

/// The characters `v[a + n..b]`.
fn skip_chars(v: &Vec<char>, a: usize, b: usize, n: usize) -> (r: Vec<char>)
    requires
        a <= b <= v@.len(),
        n <= b - a,
    ensures
        r@ == v@.subrange(a as int, b as int).skip(n as int),
{
    let mut r: Vec<char> = Vec::new();
    let mut i = a + n;
    while i < b
        invariant
            a + n <= i <= b <= v@.len(),
            r@ == v@.subrange(a + n, i as int),
        decreases b - i,
    {
        r.push(v[i]);
        i = i + 1;
        assert(r@ =~= v@.subrange(a + n, i as int));
    }
    assert(v@.subrange(a as int, b as int).skip(n as int) =~= v@.subrange(a + n, b as int));
    r
}

/// The broker one line of `kafka-metadata-shell` output names, in the form
/// `Broker <id>: <host:port>`: the line must hold `Broker` and `:`, its second word with
/// trailing colons removed must be an `i32`, and its third word gives the hostname.
pub open spec fn metadata_shell_broker(line: Seq<char>) -> Option<(i32, Seq<char>)> {
    if contains(line, "Broker"@) && contains(line, ":"@) {
        let ps = words(line);
        if ps.len() >= 2 {
            match parse_i32_spec(strip_trailing(ps[1], ':')) {
                Some(id) => if ps.len() >= 3 {
                    Some((id, before_char(ps[2], ':')))
                } else {
                    None
                },
                None => None,
            }
        } else {
            None
        }
    } else {
        None
    }
}

/// Reads the broker one line of `kafka-metadata-shell` output names.
pub fn parse_metadata_shell_broker_line(line: &str) -> (r: Option<BrokerInfo>)
    ensures
        match r {
            Some(b) => metadata_shell_broker(line@) == Some(broker_entry(b)) && b.datacenter@
                == datacenter_of(b.hostname@),
            None => metadata_shell_broker(line@) is None,
        },
{
    if !(str_contains(line, "Broker") && str_contains(line, ":")) {
        return None;
    }
    let parts = split_words(line);
    let ghost ps = words(line@);
    if parts.len() < 2 {
        return None;
    }
    assert(parts@[1]@ == ps[1]);
    let id_text = without_trailing(parts[1].as_str(), ':');
    match parse_i32(id_text.as_str()) {
        Some(id) => {
            if parts.len() < 3 {
                return None;
            }
            assert(parts@[2]@ == ps[2]);
            let hostname = first_piece(parts[2].as_str(), ':');
            Some(BrokerInfo::with_inferred_datacenter(id, hostname))
        },
        None => None,
    }
}

/// The hostnames in the output of the installation-path discovery: every line that,
/// trimmed, is not empty and holds a `:`, cut before its first `:`.
pub open spec fn listed_hosts(ls: Seq<Seq<char>>) -> Seq<Seq<char>>
    decreases ls.len(),
{
    if ls.len() == 0 {
        Seq::empty()
    } else {
        let rest = listed_hosts(ls.drop_last());
        let t = trim(ls.last());
        if t.len() > 0 && contains(t, ":"@) {
            rest.push(before_char(t, ':'))
        } else {
            rest
        }
    }
}

/// Reads the brokers that the installation-path discovery printed, one `host:port`
/// per line; they are numbered from 0 in the order they appear.
pub fn parse_listed_brokers(output: &str) -> (r: Vec<BrokerInfo>)
    requires
        lines(output@).len() <= i32::MAX,
    ensures
        r@.len() == listed_hosts(lines(output@)).len(),
        forall|i: int| 0 <= i < r@.len() ==> #[trigger] r@[i].id == i && r@[i].hostname@
            == listed_hosts(lines(output@))[i] && r@[i].datacenter@ == datacenter_of(
            r@[i].hostname@,
        ),
{
    let ls = split_lines(output);
    let ghost all = lines(output@);
    let mut brokers: Vec<BrokerInfo> = Vec::new();
    let mut i: usize = 0;
    while i < ls.len()
        invariant
            i <= ls@.len(),
            ls@.map_values(|x: String| x@) == all,
            brokers@.len() == listed_hosts(all.take(i as int)).len(),
            brokers@.len() <= i,
            all.len() <= i32::MAX,
            forall|j: int| 0 <= j < brokers@.len() ==> (#[trigger] brokers@[j]).id == j,
            forall|j: int| 0 <= j < brokers@.len() ==> (#[trigger] brokers@[j]).hostname@
                == listed_hosts(all.take(i as int))[j],
            forall|j: int| 0 <= j < brokers@.len() ==> (#[trigger] brokers@[j]).datacenter@
                == datacenter_of(brokers@[j].hostname@),
        decreases ls@.len() - i,
    {
        proof {
            assert(all.take(i + 1).drop_last() =~= all.take(i as int));
            assert(all.take(i + 1).last() == ls@[i as int]@);
        }
        let t = crate::text::trimmed(ls[i].as_str());
        let ghost prev = listed_hosts(all.take(i as int));
        let ghost old_brokers = brokers@;
        if !t.as_str().is_empty() && str_contains(t.as_str(), ":") {
            let hostname = first_piece(t.as_str(), ':');
            let id = brokers.len() as i32;
            let info = BrokerInfo::with_inferred_datacenter(id, hostname);
            brokers.push(info);
            proof {
                assert(listed_hosts(all.take(i + 1)) == prev.push(info.hostname@));
            }
        } else {
            proof {
                assert(listed_hosts(all.take(i + 1)) == prev);
            }
        }
        i = i + 1;
    }
    proof {
        assert(all.take(i as int) =~= all);
    }
    brokers
}

/// The hostname part of a `host:port` address: what stands before the first `:`.
pub fn hostname_of(broker_address: &str) -> (r: String)
    ensures
        r@ == before_char(broker_address@, ':'),
{
    first_piece(broker_address, ':')
}

/// Whether a command's output shows that `kafkactl` is installed: the command
/// succeeded and printed something besides whitespace.
pub fn check_kafkactl_availability(which_output: Option<&str>) -> (b: bool)
    ensures
        b == match which_output {
            Some(o) => trim(o@).len() > 0,
            None => false,
        },
{
    match which_output {
        Some(o) => !crate::text::trimmed(o).as_str().is_empty(),
        None => false,
    }
}

/// The installation's `bin` directory that the systemd probe printed: its trimmed output,
/// when that is a path.
pub open spec fn installation_path_from_systemctl_spec(output: Seq<char>) -> Option<Seq<char>> {
    let p = trim(output);
    if p.len() > 0 && contains(p, "/"@) {
        Some(p + "/bin"@)
    } else {
        None
    }
}

/// The installation directory the classpath in a `ps` line shows: what stands before
/// the last `/libs/` of the first jar, when that jar is one of Kafka's.
pub open spec fn classpath_kafka_base(line: Seq<char>) -> Option<Seq<char>> {
    match find(line, "-cp "@) {
        Some(a) => {
            let after = line.skip(a + 4);
            match find(after, " kafka.Kafka"@) {
                Some(b) => {
                    let jar = before_char(after.take(b), ':');
                    if contains(jar, "/libs/"@) && contains(jar, "kafka"@) {
                        match rfind(jar, "/libs/"@) {
                            Some(c) => Some(jar.take(c)),
                            None => None,
                        }
                    } else {
                        None
                    }
                },
                None => None,
            }
        },
        None => None,
    }
}

/// The installation's `bin` directory read from the classpath in a `ps` line, a trailing
/// `/bin` of the installation directory not doubled.
pub open spec fn path_from_classpath(line: Seq<char>) -> Option<Seq<char>> {
    match classpath_kafka_base(line) {
        Some(b) => Some(trim_end_str_spec(b, "/bin"@) + "/bin"@),
        None => None,
    }
}

/// The installation's `bin` directory read from the `-Dkafka.logs.dir=` setting in a
/// `ps` line: `dir/bin/../logs` gives `dir/bin`, `dir/logs` gives `dir/bin`.
pub open spec fn path_from_logs_dir(line: Seq<char>) -> Option<Seq<char>> {
    match find(line, "-Dkafka.logs.dir="@) {
        Some(a) => {
            let after = line.skip(a + 17);
            match find(after, " "@) {
                Some(b) => {
                    let dir = after.take(b);
                    if contains(dir, "/../logs"@) {
                        Some(replace_all(dir, "/../logs"@, ""@))
                    } else if contains(dir, "/logs"@) {
                        Some(trim_end_str_spec(dir, "/logs"@) + "/bin"@)
                    } else {
                        None
                    }
                },
                None => None,
            }
        },
        None => None,
    }
}

/// The installation's `bin` directory that a broker's `ps` line shows: from the
/// classpath, else from the logs directory.
pub open spec fn installation_path_from_ps_spec(output: Seq<char>) -> Option<Seq<char>> {
    match path_from_classpath(trim(output)) {
        Some(p) => Some(p),
        None => path_from_logs_dir(trim(output)),
    }
}

/// Reads the installation's `bin` directory from what the systemd probe printed.
pub fn installation_path_from_systemctl(output: &str) -> (r: Option<String>)
    ensures
        opt_text(r) == installation_path_from_systemctl_spec(output@),
{
    let p = trimmed(output);
    if !p.as_str().is_empty() && str_contains(p.as_str(), "/") {
        Some(concat(p.as_str(), "/bin"))
    } else {
        None
    }
}

/// Reads the installation directory from the classpath in a `ps` line.
pub fn kafka_base_from_classpath(line: &str) -> (r: Option<String>)
    ensures
        opt_text(r) == classpath_kafka_base(line@),
{
    proof {
        reveal_strlit("-cp ");
    }
    match find_str(line, "-cp ") {
        Some(a) => {
            proof {
                crate::text::lemma_find_spec(line@, "-cp "@);
            }
            let lv = chars_of(line);
            assert(a + 4 <= lv@.len());
            let after = skip_str(line, a + 4);
            match find_str(after.as_str(), " kafka.Kafka") {
                Some(b) => {
                    proof {
                        crate::text::lemma_find_spec(after@, " kafka.Kafka"@);
                    }
                    let av = chars_of(after.as_str());
                    let cp = string_of(&av, 0, b);
                    let jar = first_piece(cp.as_str(), ':');
                    if str_contains(jar.as_str(), "/libs/") && str_contains(jar.as_str(), "kafka") {
                        let jv = chars_of(jar.as_str());
                        let libs = chars_of("/libs/");
                        match crate::text::rfind_exec(&jv, &libs) {
                            Some(c) => {
                                proof {
                                    crate::text::lemma_rfind_to_facts(jv@, libs@, jv@.len() - libs@.len());
                                }
                                Some(string_of(&jv, 0, c))
                            },
                            None => None,
                        }
                    } else {
                        None
                    }
                },
                None => None,
            }
        },
        None => None,
    }
}

fn classpath_path(line: &str) -> (r: Option<String>)
    ensures
        opt_text(r) == path_from_classpath(line@),
{
    match kafka_base_from_classpath(line) {
        Some(base) => {
            let clean = trim_end_str(base.as_str(), "/bin");
            Some(concat(clean.as_str(), "/bin"))
        },
        None => None,
    }
}

/// Reads the installation's `bin` directory from the logs directory a `ps` line sets.
pub fn logs_dir_path(line: &str) -> (r: Option<String>)
    ensures
        opt_text(r) == path_from_logs_dir(line@),
{
    proof {
        reveal_strlit("-Dkafka.logs.dir=");
    }
    match find_str(line, "-Dkafka.logs.dir=") {
        Some(a) => {
            proof {
                crate::text::lemma_find_spec(line@, "-Dkafka.logs.dir="@);
            }
            let lv = chars_of(line);
            assert(a + 17 <= lv@.len());
            let after = skip_str(line, a + 17);
            match find_str(after.as_str(), " ") {
                Some(b) => {
                    proof {
                        crate::text::lemma_find_spec(after@, " "@);
                    }
                    let av = chars_of(after.as_str());
                    let dir = string_of(&av, 0, b);
                    if str_contains(dir.as_str(), "/../logs") {
                        proof {
                            reveal_strlit("/../logs");
                        }
                        Some(replace_str(dir.as_str(), "/../logs", ""))
                    } else if str_contains(dir.as_str(), "/logs") {
                        let base = trim_end_str(dir.as_str(), "/logs");
                        Some(concat(base.as_str(), "/bin"))
                    } else {
                        None
                    }
                },
                None => None,
            }
        },
        None => None,
    }
}

/// Reads the installation's `bin` directory from a broker's `ps` line.
pub fn installation_path_from_ps(output: &str) -> (r: Option<String>)
    ensures
        opt_text(r) == installation_path_from_ps_spec(output@),
{
    let line = trimmed(output);
    match classpath_path(line.as_str()) {
        Some(p) => Some(p),
        None => logs_dir_path(line.as_str()),
    }
}

/// The `bin` directories probed when neither systemd nor `ps` shows the installation.
pub open spec fn fallback_installation_paths_spec() -> Seq<Seq<char>> {
    seq!["/opt/kafka/bin"@, "/usr/local/kafka/bin"@, "/home/kafka/kafka/bin"@]
}

/// The `bin` directories probed when neither systemd nor `ps` shows the installation.
pub fn fallback_installation_paths() -> (r: Vec<String>)
    ensures
        r@.map_values(|p: String| p@) == fallback_installation_paths_spec(),
{
    let mut r: Vec<String> = Vec::new();
    r.push(owned("/opt/kafka/bin"));
    r.push(owned("/usr/local/kafka/bin"));
    r.push(owned("/home/kafka/kafka/bin"));
    assert(r@.map_values(|p: String| p@) =~= fallback_installation_paths_spec());
    r
}

/// Whether a probe for the broker tools printed `EXISTS`.
pub fn probe_found_tools(output: &str) -> (b: bool)
    ensures
        b == (trim(output@) == "EXISTS"@),
{
    let t = trimmed(output);
    str_eq(t.as_str(), "EXISTS")
}

} // verus!
