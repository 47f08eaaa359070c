//! The configuration validator: broker ids that collide or were never changed
//! from the default, replication factors of one, and logs kept under `/tmp`, as
//! the brokers' `server.properties` files show them.
use vstd::prelude::*;
use crate::text::{
    trim, contains, starts_with, lines, split_char, before_char, owned, concat, str_contains,
    str_starts_with, trimmed, split_lines, skip_str, str_eq, first_piece,
};
use crate::strmap::StrMap;
use crate::numbers::{decimal, decimal_string};
use crate::json::{JsonValue, member};
use crate::snapshot::{
    Severity, Category, RiskLevel, Finding, Evidence, ConfigEvidence, Remediation, RemediationStep, Snapshot,
};
use crate::collectors::{joined, join_strings, copy_strings};
use crate::cluster_detection::get_member;
use crate::rules::step;
use crate::log_discovery::split_on_char;

verus! {

/// Pairs of strings taken as pairs of texts.
pub open spec fn pairs_view(v: Seq<(String, String)>) -> Seq<(Seq<char>, Seq<char>)> {
    v.map_values(|p: (String, String)| (p.0@, p.1@))
}

/// Strings taken as texts.
pub open spec fn strings_view(v: Seq<String>) -> Seq<Seq<char>> {
    v.map_values(|s: String| s@)
}

/// The members of the configuration document, when it is an object.
pub open spec fn config_members(config: Option<JsonValue>) -> Seq<(String, JsonValue)> {
    match config {
        Some(JsonValue::Object(m)) => m@,
        _ => Seq::empty(),
    }
}

/// The `broker.id` values the lines set, in order.
pub open spec fn ids_in_lines(ls: Seq<Seq<char>>) -> Seq<Seq<char>>
    decreases ls.len(),
{
    if ls.len() == 0 {
        Seq::empty()
    } else {
        let t = trim(ls[0]);
        (if starts_with(t, "broker.id="@) { seq![trim(t.skip(10))] } else { Seq::empty() }) + ids_in_lines(ls.drop_first())
    }
}

/// Each value paired with the same file.
pub open spec fn with_file(vs: Seq<Seq<char>>, f: Seq<char>) -> Seq<(Seq<char>, Seq<char>)> {
    Seq::new(vs.len(), |j: int| (vs[j], f))
}

/// The `server.properties` documents among the configuration members, as (file, text).
pub open spec fn property_files(ms: Seq<(String, JsonValue)>) -> Seq<(Seq<char>, Seq<char>)>
    decreases ms.len(),
{
    if ms.len() == 0 {
        Seq::empty()
    } else {
        let rest = property_files(ms.drop_first());
        if contains(ms[0].0@, "server.properties"@) {
            match ms[0].1 {
                JsonValue::String(c) => seq![(ms[0].0@, c@)] + rest,
                _ => rest,
            }
        } else {
            rest
        }
    }
}

/// The `broker.id` settings of the property files, each with `brokers/` and its file.
pub open spec fn id_entries(pf: Seq<(Seq<char>, Seq<char>)>) -> Seq<(Seq<char>, Seq<char>)>
    decreases pf.len(),
{
    if pf.len() == 0 {
        Seq::empty()
    } else {
        with_file(ids_in_lines(lines(pf[0].1)), "brokers/"@ + pf[0].0) + id_entries(pf.drop_first())
    }
}

/// The distinct keys of the entries, in the order first seen.
pub open spec fn distinct_keys(es: Seq<(Seq<char>, Seq<char>)>) -> Seq<Seq<char>>
    decreases es.len(),
{
    if es.len() == 0 {
        Seq::empty()
    } else {
        let r = distinct_keys(es.drop_last());
        if r.contains(es.last().0) { r } else { r.push(es.last().0) }
    }
}

/// The values of the entries with key `k`, in order.
pub open spec fn values_for(es: Seq<(Seq<char>, Seq<char>)>, k: Seq<char>) -> Seq<Seq<char>>
    decreases es.len(),
{
    if es.len() == 0 {
        Seq::empty()
    } else {
        values_for(es.drop_last(), k) + if es.last().0 == k { seq![es.last().1] } else { Seq::empty() }
    }
}

/// A broker id worth a finding: set in several files, or left at the default `0`.
pub open spec fn id_flagged(es: Seq<(Seq<char>, Seq<char>)>, id: Seq<char>) -> bool {
    values_for(es, id).len() > 1 || id == "0"@
}

/// The flagged ids, in order.
pub open spec fn flagged_ids(es: Seq<(Seq<char>, Seq<char>)>, ids: Seq<Seq<char>>) -> Seq<Seq<char>>
    decreases ids.len(),
{
    if ids.len() == 0 {
        Seq::empty()
    } else {
        flagged_ids(es, ids.drop_last()) + if id_flagged(es, ids.last()) { seq![ids.last()] } else { Seq::empty() }
    }
}

/// The members of the `brokers` document among the custom documents.
pub open spec fn broker_documents(custom: Seq<(String, JsonValue)>) -> Seq<(String, JsonValue)> {
    match member(custom, "brokers"@) {
        Some(JsonValue::Object(m)) => m@,
        _ => Seq::empty(),
    }
}

/// The id a broker document's `broker_info.json` gives, when it is a whole number.
pub open spec fn running_id(data: JsonValue) -> Option<u64> {
    match data.spec_get("broker_info.json"@) {
        Some(info) => match info.spec_get("id"@) {
            Some(JsonValue::UInt(n)) => Some(n),
            _ => None,
        },
        None => None,
    }
}

/// The ids the brokers run with, by broker name, in decimal.
pub open spec fn running_ids(bs: Seq<(String, JsonValue)>) -> Map<Seq<char>, Seq<char>>
    decreases bs.len(),
{
    if bs.len() == 0 {
        Map::empty()
    } else {
        let m = running_ids(bs.drop_last());
        match running_id(bs.last().1) {
            Some(n) => m.insert(bs.last().0@, decimal(n as nat)),
            None => m,
        }
    }
}

/// The broker a `brokers/<broker>/...` file path names.
pub open spec fn broker_of_file(f: Seq<char>) -> Option<Seq<char>> {
    let ps = split_char(f, '/');
    if ps.len() > 1 { Some(ps[1]) } else { None }
}

/// For each file whose broker runs with a known id, that broker and id.
pub open spec fn running_pairs(fs: Seq<Seq<char>>, running: Map<Seq<char>, Seq<char>>) -> Seq<(Seq<char>, Seq<char>)>
    decreases fs.len(),
{
    if fs.len() == 0 {
        Seq::empty()
    } else {
        running_pairs(fs.drop_last(), running) + match broker_of_file(fs.last()) {
            Some(b) => if running.contains_key(b) { seq![(b, running[b])] } else { Seq::empty() },
            None => Seq::empty(),
        }
    }
}

/// A number written with at least three digits, as `{:03}` prints it.
pub open spec fn three_digits(n: nat) -> Seq<char> {
    if n < 10 {
        "00"@ + decimal(n)
    } else if n < 100 {
        "0"@ + decimal(n)
    } else {
        decimal(n)
    }
}

/// The title of a broker id finding.
pub open spec fn broker_id_title(id: Seq<char>, files: nat, running: bool) -> Seq<char> {
    if running {
        "Configuration mismatch: server.properties shows broker.id="@ + id + " but brokers running with correct IDs"@
    } else if files > 1 {
        "Duplicate broker.id="@ + id + " found across "@ + decimal(files) + " brokers"@
    } else {
        "Default broker.id="@ + id + " not updated in configuration"@
    }
}

/// The finding about broker id `id`, set in `files`, whose brokers run with the ids of
/// `pairs`, numbered `k`.
pub open spec fn broker_id_finding(f: Finding, id: Seq<char>, files: Seq<Seq<char>>, pairs: Seq<(Seq<char>, Seq<char>)>, k: nat) -> bool {
    let running = pairs.len() > 0;
    &&& f.id@ == "CONFIG-BROKER-ID-"@ + three_digits(k)
    &&& f.severity == (if running { Severity::Medium } else { Severity::Critical })
    &&& f.category == Category::Configuration
    &&& f.title@ == broker_id_title(id, files.len(), running)
    &&& f.evidence.configs@.len() == 1
    &&& f.evidence.configs@[0].resource_type@ == "broker"@
    &&& f.evidence.configs@[0].resource_name@ == (if files.len() > 1 { "multiple"@ } else { "single"@ })
    &&& f.evidence.configs@[0].config_key@ == "broker.id"@
    &&& f.evidence.configs@[0].current_value@ == (if running { id + " (in config files)"@ } else { id })
    &&& strings_view(f.evidence.configs@[0].source_files@) == files
    &&& f.evidence.metrics@.len() == 0 && f.evidence.logs@.len() == 0
    &&& f.remediation.steps@.len() == 3
    &&& f.remediation.risk_level == (if running { RiskLevel::Low } else { RiskLevel::High })
    &&& f.remediation.requires_downtime == !running
    &&& f.remediation.estimated_duration_minutes == Some(if running { 5u32 } else { 30u32 })
}

/// The validator of broker configurations.
pub struct ConfigValidator;

fn property_documents(config: &Option<JsonValue>) -> (r: Vec<(String, String)>)
    ensures
        pairs_view(r@) == property_files(config_members(*config)),
{
    let mut r: Vec<(String, String)> = Vec::new();
    match config {
        Some(JsonValue::Object(ms)) => {
            let n = ms.len();
            let mut i: usize = 0;
            assert(ms@.skip(0) =~= ms@);
            assert(pairs_view(r@) + property_files(ms@) =~= property_files(ms@));
            while i < n
                invariant
                    i <= n == ms@.len(),
                    pairs_view(r@) + property_files(ms@.skip(i as int))
                        == property_files(ms@),
                decreases n - i,
            {
                let ghost before = pairs_view(r@);
                proof {
                    assert(ms@.skip(i as int).drop_first() =~= ms@.skip(i + 1));
                    assert(ms@.skip(i as int)[0] == ms@[i as int]);
                }
                let k = &ms[i].0;
                let v = &ms[i].1;
                if str_contains(k.as_str(), "server.properties") {
                    match v {
                        JsonValue::String(c) => {
                            r.push((k.clone(), c.clone()));
                            proof {
                                assert(pairs_view(r@) =~= before.push((k@, c@)));
                                assert(before.push((k@, c@)) + property_files(ms@.skip(i + 1)) =~= before + (seq![(k@, c@)]
                                    + property_files(ms@.skip(i + 1))));
                            }
                        },
                        _ => {},
                    }
                }
                i = i + 1;
            }
            proof {
                assert(ms@.skip(n as int) =~= Seq::<(String, JsonValue)>::empty());
                assert(pairs_view(r@) + Seq::empty() =~= pairs_view(r@));
            }
        },
        _ => {},
    }
    r
}

fn ids_of_text(content: &str) -> (r: Vec<String>)
    ensures
        strings_view(r@) == ids_in_lines(lines(content@)),
{
    let ls = split_lines(content);
    let ghost sl = lines(content@);
    let n = ls.len();
    let mut r: Vec<String> = Vec::new();
    let mut i: usize = 0;
    assert(sl.skip(0) =~= sl);
    assert(strings_view(r@) + ids_in_lines(sl) =~= ids_in_lines(sl));
    while i < n
        invariant
            i <= n == ls@.len() == sl.len(),
            strings_view(ls@) == sl,
            strings_view(r@) + ids_in_lines(sl.skip(i as int)) == ids_in_lines(sl),
        decreases n - i,
    {
        proof {
            assert(strings_view(ls@)[i as int] == ls@[i as int]@);
            assert(sl.skip(i as int).drop_first() =~= sl.skip(i + 1));
            assert(sl.skip(i as int)[0] == sl[i as int]);
        }
        let ghost before = strings_view(r@);
        let t = trimmed(ls[i].as_str());
        if str_starts_with(t.as_str(), "broker.id=") {
            proof {
                reveal_strlit("broker.id=");
            }
            let id = trimmed(skip_str(t.as_str(), 10).as_str());
            r.push(id);
            proof {
                assert(strings_view(r@) =~= before.push(id@));
                assert(before.push(id@) + ids_in_lines(sl.skip(i + 1)) =~= before + (seq![id@] + ids_in_lines(sl.skip(i + 1))));
            }
        } else {
            proof {
                assert(before + ids_in_lines(sl.skip(i as int)) =~= before + ids_in_lines(sl.skip(i + 1)));
            }
        }
        i = i + 1;
    }
    proof {
        assert(sl.skip(n as int) =~= Seq::<Seq<char>>::empty());
        assert(strings_view(r@) + Seq::empty() =~= strings_view(r@));
    }
    r
}

fn broker_id_entries(docs: &Vec<(String, String)>) -> (r: Vec<(String, String)>)
    ensures
        pairs_view(r@) == id_entries(pairs_view(docs@)),
{
    let ghost pf = pairs_view(docs@);
    let n = docs.len();
    let mut r: Vec<(String, String)> = Vec::new();
    let mut i: usize = 0;
    assert(pf.skip(0) =~= pf);
    assert(pairs_view(r@) + id_entries(pf) =~= id_entries(pf));
    while i < n
        invariant
            i <= n == docs@.len() == pf.len(),
            pf == pairs_view(docs@),
            pairs_view(r@) + id_entries(pf.skip(i as int)) == id_entries(pf),
        decreases n - i,
    {
        proof {
            assert(pf.skip(i as int).drop_first() =~= pf.skip(i + 1));
            assert(pf.skip(i as int)[0] == pf[i as int]);
        }
        let ids = ids_of_text(docs[i].1.as_str());
        let file = concat("brokers/", docs[i].0.as_str());
        let ghost base = pairs_view(r@);
        let ghost idv = strings_view(ids@);
        let mut k: usize = 0;
        while k < ids.len()
            invariant
                k <= ids@.len() == idv.len(),
                idv == strings_view(ids@),
                pairs_view(r@) == base + with_file(idv, file@).take(k as int),
            decreases ids@.len() - k,
        {
            let ghost before = pairs_view(r@);
            r.push((ids[k].clone(), file.clone()));
            proof {
                assert(pairs_view(r@) =~= before.push((idv[k as int], file@)));
                assert(with_file(idv, file@).take(k + 1) =~= with_file(idv, file@).take(k as int).push((idv[k as int], file@)));
            }
            k = k + 1;
        }
        proof {
            assert(with_file(idv, file@).take(k as int) =~= with_file(idv, file@));
            assert(docs@[i as int].1@ == pf[i as int].1);
            assert(file@ == "brokers/"@ + pf[i as int].0);
            assert(base + with_file(idv, file@) + id_entries(pf.skip(i + 1)) =~= base + (with_file(idv, file@) + id_entries(pf.skip(i + 1))));
        }
        i = i + 1;
    }
    proof {
        assert(pf.skip(n as int) =~= Seq::<(Seq<char>, Seq<char>)>::empty());
        assert(pairs_view(r@) + Seq::empty() =~= pairs_view(r@));
    }
    r
}

fn contains_string(v: &Vec<String>, s: &str) -> (b: bool)
    ensures
        b == strings_view(v@).contains(s@),
{
    let ghost vv = strings_view(v@);
    let mut i: usize = 0;
    while i < v.len()
        invariant
            i <= v@.len() == vv.len(),
            vv == strings_view(v@),
            forall|j: int| 0 <= j < i ==> vv[j] != s@,
        decreases v@.len() - i,
    {
        if str_eq(v[i].as_str(), s) {
            assert(vv[i as int] == s@);
            return true;
        }
        i = i + 1;
    }
    false
}

/// The distinct keys of the entries, in the order first seen.
fn distinct_entry_keys(es: &Vec<(String, String)>) -> (r: Vec<String>)
    ensures
        strings_view(r@) == distinct_keys(pairs_view(es@)),
{
    let ghost ev = pairs_view(es@);
    let mut r: Vec<String> = Vec::new();
    let mut i: usize = 0;
    assert(ev.take(0) =~= Seq::<(Seq<char>, Seq<char>)>::empty());
    while i < es.len()
        invariant
            i <= es@.len() == ev.len(),
            ev == pairs_view(es@),
            strings_view(r@) == distinct_keys(ev.take(i as int)),
        decreases es@.len() - i,
    {
        proof {
            assert(ev.take(i + 1).drop_last() =~= ev.take(i as int));
            assert(ev.take(i + 1).last() == ev[i as int]);
        }
        if !contains_string(&r, es[i].0.as_str()) {
            let ghost before = strings_view(r@);
            r.push(es[i].0.clone());
            assert(strings_view(r@) =~= before.push(ev[i as int].0));
        }
        i = i + 1;
    }
    assert(ev.take(i as int) =~= ev);
    r
}

/// The values of the entries with key `k`, in order.
fn entry_values(es: &Vec<(String, String)>, k: &str) -> (r: Vec<String>)
    ensures
        strings_view(r@) == values_for(pairs_view(es@), k@),
{
    let ghost ev = pairs_view(es@);
    let mut r: Vec<String> = Vec::new();
    let mut i: usize = 0;
    assert(ev.take(0) =~= Seq::<(Seq<char>, Seq<char>)>::empty());
    while i < es.len()
        invariant
            i <= es@.len() == ev.len(),
            ev == pairs_view(es@),
            strings_view(r@) == values_for(ev.take(i as int), k@),
        decreases es@.len() - i,
    {
        proof {
            assert(ev.take(i + 1).drop_last() =~= ev.take(i as int));
            assert(ev.take(i + 1).last() == ev[i as int]);
        }
        let ghost before = strings_view(r@);
        if str_eq(es[i].0.as_str(), k) {
            r.push(es[i].1.clone());
            assert(strings_view(r@) =~= before.push(ev[i as int].1));
        } else {
            assert(before + Seq::<Seq<char>>::empty() =~= before);
        }
        i = i + 1;
    }
    assert(ev.take(i as int) =~= ev);
    r
}

fn running_broker_ids(custom: &Vec<(String, JsonValue)>) -> (r: StrMap)
    ensures
        r@ == running_ids(broker_documents(custom@)),
{
    let mut r = StrMap::new();
    match get_member(custom, "brokers") {
        Some(JsonValue::Object(bs)) => {
            let mut i: usize = 0;
            assert(bs@.take(0) =~= Seq::<(String, JsonValue)>::empty());
            while i < bs.len()
                invariant
                    i <= bs@.len(),
                    r@ == running_ids(bs@.take(i as int)),
                decreases bs@.len() - i,
            {
                proof {
                    assert(bs@.take(i + 1).drop_last() =~= bs@.take(i as int));
                    assert(bs@.take(i + 1).last() == bs@[i as int]);
                }
                let data = &bs[i].1;
                match data.get("broker_info.json") {
                    Some(info) => match info.get("id") {
                        Some(idv) => match idv.as_u64() {
                            Some(n) => {
                                r.insert(bs[i].0.clone(), decimal_string(n));
                            },
                            None => {},
                        },
                        None => {},
                    },
                    None => {},
                }
                i = i + 1;
            }
            assert(bs@.take(i as int) =~= bs@);
        },
        _ => {},
    }
    r
}

fn running_pairs_of(files: &Vec<String>, running: &StrMap) -> (r: Vec<(String, String)>)
    ensures
        pairs_view(r@) == running_pairs(strings_view(files@), running@),
{
    let ghost fv = strings_view(files@);
    let mut r: Vec<(String, String)> = Vec::new();
    let mut i: usize = 0;
    assert(fv.take(0) =~= Seq::<Seq<char>>::empty());
    while i < files.len()
        invariant
            i <= files@.len() == fv.len(),
            fv == strings_view(files@),
            pairs_view(r@) == running_pairs(fv.take(i as int), running@),
        decreases files@.len() - i,
    {
        proof {
            assert(fv.take(i + 1).drop_last() =~= fv.take(i as int));
            assert(fv.take(i + 1).last() == files@[i as int]@);
        }
        let ghost before = pairs_view(r@);
        let parts = split_on_char(files[i].as_str(), '/');
        if parts.len() > 1 {
            proof {
                assert(strings_view(parts@)[1] == parts@[1]@);
            }
            match running.get(parts[1].as_str()) {
                Some(id) => {
                    r.push((parts[1].clone(), id.clone()));
                    assert(pairs_view(r@) =~= before.push((parts@[1]@, id@)));
                },
                None => {
                    assert(before + Seq::<(Seq<char>, Seq<char>)>::empty() =~= before);
                },
            }
        } else {
            assert(before + Seq::<(Seq<char>, Seq<char>)>::empty() =~= before);
        }
        i = i + 1;
    }
    assert(fv.take(i as int) =~= fv);
    r
}

fn three_digit_string(n: u64) -> (r: String)
    ensures
        r@ == three_digits(n as nat),
{
    let d = decimal_string(n);
    if n < 10 {
        concat("00", d.as_str())
    } else if n < 100 {
        concat("0", d.as_str())
    } else {
        d
    }
}

/// One pair as text: its second part alone, or `first<sep>second`.
pub open spec fn pair_text(p: (Seq<char>, Seq<char>), sep: Seq<char>, only_second: bool) -> Seq<char> {
    if only_second { p.1 } else { p.0 + sep + p.1 }
}

/// The pairs as text, each by `pair_text`, joined by `, `.
pub open spec fn pairs_joined(pairs: Seq<(Seq<char>, Seq<char>)>, sep: Seq<char>, only_second: bool) -> Seq<char> {
    joined(pairs.map_values(|p: (Seq<char>, Seq<char>)| pair_text(p, sep, only_second)), ", "@)
}

/// The pairs as `first<sep>second`, joined by `, `.
fn pairs_text(pairs: &Vec<(String, String)>, sep: &str, only_second: bool) -> (r: String)
    ensures
        r@ == pairs_joined(pairs_view(pairs@), sep@, only_second),
{
    let ghost pv = pairs_view(pairs@);
    let mut parts: Vec<String> = Vec::new();
    let mut i: usize = 0;
    while i < pairs.len()
        invariant
            i <= pairs@.len(),
            pv == pairs_view(pairs@),
            parts@.len() == i,
            forall|j: int| 0 <= j < i ==> #[trigger] parts@[j]@ == pair_text(pv[j], sep@, only_second),
        decreases pairs@.len() - i,
    {
        if only_second {
            parts.push(pairs[i].1.clone());
        } else {
            parts.push(concat(concat(pairs[i].0.as_str(), sep).as_str(), pairs[i].1.as_str()));
        }
        i = i + 1;
    }
    assert(parts@.map_values(|s: String| s@)
        =~= pv.map_values(|p: (Seq<char>, Seq<char>)| pair_text(p, sep@, only_second)));
    join_strings(&parts, ", ")
}

fn broker_id_finding_of(id: &String, files: &Vec<String>, pairs: &Vec<(String, String)>, k: u64, any_running: bool) -> (f: Finding)
    ensures
        broker_id_finding(
            f,
            id@,
            strings_view(files@),
            pairs_view(pairs@),
            k as nat,
        ),
{
    let running = pairs.len() > 0;
    let nfiles = files.len();
    let ids_text = pairs_text(pairs, "", true);
    let title = if running {
        concat(concat("Configuration mismatch: server.properties shows broker.id=", id.as_str()).as_str(),
            " but brokers running with correct IDs")
    } else if nfiles > 1 {
        let count = decimal_string(nfiles as u64);
        concat(concat(concat(concat("Duplicate broker.id=", id.as_str()).as_str(), " found across ").as_str(),
            count.as_str()).as_str(), " brokers")
    } else {
        concat(concat("Default broker.id=", id.as_str()).as_str(), " not updated in configuration")
    };
    let description = if running {
        concat(concat(concat(concat(concat("The server.properties files contain broker.id=", id.as_str()).as_str(),
            ", but the brokers are actually running with different IDs (").as_str(), ids_text.as_str()).as_str(),
            "). This indicates that broker IDs are being overridden at runtime (likely via systemd service files or environment variables). While the cluster is functioning correctly now, this configuration mismatch could cause issues:\n• If brokers are restarted using only the config files\n• During disaster recovery or migration\n• When troubleshooting (confusing to have wrong values in config)").as_str(), "")
    } else {
        concat(concat("Multiple brokers are configured with the same broker.id=", id.as_str()).as_str(),
            ". Each broker in a Kafka cluster MUST have a unique broker.id. This misconfiguration will cause severe cluster issues including:\n• Brokers failing to start or join the cluster\n• Data loss and replication failures\n• Unpredictable cluster behavior\n• Client connection issues")
    };
    let impact = if running {
        owned("MEDIUM: Configuration files don't reflect actual runtime configuration. Risk of misconfiguration if brokers are restarted without proper overrides.")
    } else {
        owned("CRITICAL: Cluster will not function correctly. Brokers may fail to start, data may be lost, and the cluster will be unstable.")
    };
    let current_value = if running { concat(id.as_str(), " (in config files)") } else { id.clone() };
    let recommended = if running {
        concat("Update to actual IDs: ", pairs_text(pairs, " → ", false).as_str())
    } else {
        owned("Unique integer for each broker (e.g., 11, 12, 13, ...)")
    };
    let reason = if running {
        concat(concat(concat("Config files show broker.id=", id.as_str()).as_str(), ", but brokers actually running with IDs: ").as_str(),
            ids_text.as_str())
    } else {
        owned("Each broker must have a unique identifier")
    };
    let root_cause = if running {
        concat(concat(concat(concat("Configuration management issue: Config files contain default/template value (broker.id=", id.as_str()).as_str(),
            "), while actual broker IDs are: ").as_str(), pairs_text(pairs, ": ", false).as_str()).as_str(),
            ". IDs likely overridden in systemd service files.")
    } else {
        concat(concat(concat("Configuration error: ", decimal_string(nfiles as u64).as_str()).as_str(),
            " brokers are using the same broker.id=").as_str(), id.as_str())
    };
    let mut steps: Vec<RemediationStep> = Vec::new();
    if running {
        let mut lines_of: Vec<String> = Vec::new();
        let mut i: usize = 0;
        while i < pairs.len() && i < files.len()
            invariant
                i <= pairs@.len(),
            decreases pairs@.len() - i,
        {
            lines_of.push(concat(concat(concat("  • ", files[i].as_str()).as_str(), " → broker.id=").as_str(), pairs[i].1.as_str()));
            i = i + 1;
        }
        let d1 = concat("Update server.properties files to reflect actual broker IDs:\n", join_strings(&lines_of, "\n").as_str());
        steps.push(step(1, d1.as_str(), None, Some("grep broker.id /etc/kafka/server.properties"), false));
        steps.push(step(2, "Check if systemd service files are overriding broker.id (they might be, which is why cluster works)", Some("grep -r 'broker.id' /etc/systemd/system/ /etc/default/"), None, false));
        steps.push(step(3, "Document the actual broker ID configuration method for future reference", None, None, false));
    } else {
        let mut lines_of: Vec<String> = Vec::new();
        let mut i: usize = 0;
        while i < files.len()
            invariant
                i <= files@.len(),
            decreases files@.len() - i,
        {
            let suggested: u128 = if any_running { 11 + i as u128 } else { i as u128 };
            lines_of.push(concat(concat(concat("  • ", files[i].as_str()).as_str(), " → broker.id=").as_str(), crate::numbers::decimal_string_wide(suggested).as_str()));
            i = i + 1;
        }
        let d2 = concat("Assign unique broker.id values to each broker:\n", join_strings(&lines_of, "\n").as_str());
        steps.push(step(1, "Stop all affected Kafka brokers", Some("systemctl stop kafka"), Some("systemctl status kafka"), true));
        steps.push(step(2, d2.as_str(), None, Some("grep broker.id /etc/kafka/server.properties"), false));
        steps.push(step(3, "Start Kafka brokers one by one", Some("systemctl start kafka"), Some("kafka-broker-api-versions --bootstrap-server localhost:9092"), true));
    }
    let mut configs: Vec<ConfigEvidence> = Vec::new();
    configs.push(ConfigEvidence {
        resource_type: owned("broker"),
        resource_name: if nfiles > 1 { owned("multiple") } else { owned("single") },
        config_key: owned("broker.id"),
        current_value,
        recommended_value: Some(recommended),
        reason,
        source_files: copy_strings(files),
    });
    Finding {
        id: concat("CONFIG-BROKER-ID-", three_digit_string(k).as_str()),
        severity: if running { Severity::Medium } else { Severity::Critical },
        category: Category::Configuration,
        title,
        description,
        impact,
        evidence: Evidence { metrics: Vec::new(), logs: Vec::new(), configs, raw_data: None },
        root_cause: Some(root_cause),
        remediation: Remediation {
            steps,
            script: None,
            risk_level: if running { RiskLevel::Low } else { RiskLevel::High },
            requires_downtime: !running,
            estimated_duration_minutes: Some(if running { 5 } else { 30 }),
            rollback_plan: Some(owned("Keep backup of original server.properties files")),
        },
        metadata: Vec::new(),
    }
}

/// The broker id entries of a snapshot's configuration.
pub open spec fn snapshot_id_entries(s: Snapshot) -> Seq<(Seq<char>, Seq<char>)> {
    id_entries(property_files(config_members(s.collectors.config)))
}

/// The broker ids a snapshot's configuration flags, in the order first seen.
pub open spec fn snapshot_flagged_ids(s: Snapshot) -> Seq<Seq<char>> {
    flagged_ids(snapshot_id_entries(s), distinct_keys(snapshot_id_entries(s)))
}

impl ConfigValidator {
    pub fn new() -> (v: ConfigValidator) {
        ConfigValidator
    }

    /// One finding per broker id that several files set or that is left at `0`, in the
    /// order the ids first appear; a finding's severity is medium when some of its brokers
    /// run with other ids (the files are out of date) and critical otherwise.
    pub fn check_broker_id_issues(&self, snapshot: &Snapshot) -> (r: Vec<Finding>)
        ensures
            r@.len() == snapshot_flagged_ids(*snapshot).len(),
            forall|j: int| 0 <= j < r@.len() ==> broker_id_finding(
                #[trigger] r@[j],
                snapshot_flagged_ids(*snapshot)[j],
                values_for(snapshot_id_entries(*snapshot), snapshot_flagged_ids(*snapshot)[j]),
                running_pairs(
                    values_for(snapshot_id_entries(*snapshot), snapshot_flagged_ids(*snapshot)[j]),
                    running_ids(broker_documents(snapshot.collectors.custom@)),
                ),
                (j + 1) as nat,
            ),
    {
        let docs = property_documents(&snapshot.collectors.config);
        let entries = broker_id_entries(&docs);
        let ghost es = pairs_view(entries@);
        let ids = distinct_entry_keys(&entries);
        let ghost idv = strings_view(ids@);
        let running = running_broker_ids(&snapshot.collectors.custom);
        let any_running = running.len() > 0;
        let mut findings: Vec<Finding> = Vec::new();
        let mut i: usize = 0;
        assert(idv.take(0) =~= Seq::<Seq<char>>::empty());
        while i < ids.len()
            invariant
                i <= ids@.len() == idv.len(),
                idv == strings_view(ids@),
                es == snapshot_id_entries(*snapshot),
                es == pairs_view(entries@),
                idv == distinct_keys(es),
                running@ == running_ids(broker_documents(snapshot.collectors.custom@)),
                findings@.len() == flagged_ids(es, idv.take(i as int)).len(),
                findings@.len() <= i,
                forall|j: int| 0 <= j < findings@.len() ==> broker_id_finding(
                    #[trigger] findings@[j],
                    flagged_ids(es, idv.take(i as int))[j],
                    values_for(es, flagged_ids(es, idv.take(i as int))[j]),
                    running_pairs(values_for(es, flagged_ids(es, idv.take(i as int))[j]), running@),
                    (j + 1) as nat,
                ),
            decreases ids@.len() - i,
        {
            let ghost before = flagged_ids(es, idv.take(i as int));
            proof {
                assert(idv.take(i + 1).drop_last() =~= idv.take(i as int));
                assert(idv.take(i + 1).last() == idv[i as int]);
                assert(ids@[i as int]@ == idv[i as int]);
            }
            let id = &ids[i];
            let files = entry_values(&entries, id.as_str());
            if files.len() > 1 || str_eq(id.as_str(), "0") {
                let pairs = running_pairs_of(&files, &running);
                let k = findings.len() as u64 + 1;
                let f = broker_id_finding_of(id, &files, &pairs, k, any_running);
                findings.push(f);
                proof {
                    assert(strings_view(files@).len() == files@.len());
                    assert(id@ == idv[i as int]);
                    assert(strings_view(files@) == values_for(es, id@));
                    assert(values_for(es, id@).len() == files@.len());
                    assert(files@.len() > 1 || id@ == "0"@);
                    assert(id_flagged(es, idv[i as int]));
                    let now = flagged_ids(es, idv.take(i + 1));
                    assert(now == flagged_ids(es, idv.take(i + 1).drop_last()) + seq![idv.take(i + 1).last()]);
                    assert(now =~= before.push(idv[i as int]));
                    assert forall|j: int| 0 <= j < findings@.len() implies broker_id_finding(
                        #[trigger] findings@[j],
                        now[j],
                        values_for(es, now[j]),
                        running_pairs(values_for(es, now[j]), running@),
                        (j + 1) as nat,
                    ) by {
                        if j < findings@.len() - 1 {
                            assert(now[j] == before[j]);
                        }
                    }
                }
            } else {
                proof {
                    assert(strings_view(files@).len() == files@.len());
                    assert(!id_flagged(es, idv[i as int]));
                    assert(flagged_ids(es, idv.take(i + 1)) == flagged_ids(es, idv.take(i + 1).drop_last()) + Seq::<Seq<char>>::empty());
                    assert(flagged_ids(es, idv.take(i + 1)) =~= before);
                }
            }
            i = i + 1;
        }
        assert(idv.take(i as int) =~= idv);
        findings
    }
}


/// A line that sets an internal topic's replication factor to a value starting with 1.
pub open spec fn replication_line(t: Seq<char>) -> bool {
    starts_with(t, "offsets.topic.replication.factor=1"@) || starts_with(t, "transaction.state.log.replication.factor=1"@)
}

/// A line that keeps the logs under `/tmp/`.
pub open spec fn tmp_log_line(t: Seq<char>) -> bool {
    starts_with(t, "log.dirs=/tmp/"@)
}

/// The trimmed lines that set a replication factor of one.
pub open spec fn replication_lines(ls: Seq<Seq<char>>) -> Seq<Seq<char>>
    decreases ls.len(),
{
    if ls.len() == 0 {
        Seq::empty()
    } else {
        (if replication_line(trim(ls[0])) { seq![trim(ls[0])] } else { Seq::empty() }) + replication_lines(ls.drop_first())
    }
}

/// The number of lines that keep the logs under `/tmp/`.
pub open spec fn tmp_log_lines(ls: Seq<Seq<char>>) -> nat
    decreases ls.len(),
{
    if ls.len() == 0 {
        0
    } else {
        (if tmp_log_line(trim(ls[0])) { 1nat } else { 0nat }) + tmp_log_lines(ls.drop_first())
    }
}

/// The replication settings of the property files, each with `brokers/` and its file.
pub open spec fn replication_entries(pf: Seq<(Seq<char>, Seq<char>)>) -> Seq<(Seq<char>, Seq<char>)>
    decreases pf.len(),
{
    if pf.len() == 0 {
        Seq::empty()
    } else {
        with_file(replication_lines(lines(pf[0].1)), "brokers/"@ + pf[0].0) + replication_entries(pf.drop_first())
    }
}

/// For each line that keeps logs under `/tmp/`, `brokers/` and its file.
pub open spec fn tmp_log_files(pf: Seq<(Seq<char>, Seq<char>)>) -> Seq<Seq<char>>
    decreases pf.len(),
{
    if pf.len() == 0 {
        Seq::empty()
    } else {
        Seq::new(tmp_log_lines(lines(pf[0].1)), |j: int| "brokers/"@ + pf[0].0) + tmp_log_files(pf.drop_first())
    }
}

/// The finding about replication setting `c`, found in `files`, numbered `k`.
pub open spec fn replication_finding(f: Finding, c: Seq<char>, files: Seq<Seq<char>>, k: nat) -> bool {
    &&& f.id@ == "CONFIG-REPLICATION-"@ + decimal(k)
    &&& f.severity == Severity::High
    &&& f.category == Category::Availability
    &&& f.title@ == "Low replication factor: "@ + before_char(c, '=')
    &&& f.evidence.configs@.len() == 1
    &&& f.evidence.configs@[0].config_key@ == before_char(c, '=')
    &&& f.evidence.configs@[0].current_value@ == "1"@
    &&& f.evidence.configs@[0].recommended_value matches Some(v) && v@ == "3"@
    &&& strings_view(f.evidence.configs@[0].source_files@) == files
    &&& f.remediation.steps@.len() == 1
    &&& f.remediation.risk_level == RiskLevel::Medium
    &&& f.remediation.requires_downtime
    &&& f.remediation.estimated_duration_minutes == Some(15u32)
}

/// The finding about logs kept under `/tmp/` in `files`.
pub open spec fn tmp_logs_finding(f: Finding, files: Seq<Seq<char>>) -> bool {
    &&& f.id@ == "CONFIG-LOGDIR-001"@
    &&& f.severity == Severity::Medium
    &&& f.category == Category::Configuration
    &&& f.title@ == "Logs stored in temporary directory"@
    &&& f.evidence.configs@.len() == 1
    &&& f.evidence.configs@[0].config_key@ == "log.dirs"@
    &&& strings_view(f.evidence.configs@[0].source_files@) == files
    &&& f.remediation.steps@.len() == 2
    &&& f.remediation.risk_level == RiskLevel::Medium
    &&& f.remediation.requires_downtime
    &&& f.remediation.estimated_duration_minutes == Some(20u32)
}

/// The replication entries of a snapshot's configuration.
pub open spec fn snapshot_replication_entries(s: Snapshot) -> Seq<(Seq<char>, Seq<char>)> {
    replication_entries(property_files(config_members(s.collectors.config)))
}

/// The files of a snapshot's configuration that keep logs under `/tmp/`.
pub open spec fn snapshot_tmp_log_files(s: Snapshot) -> Seq<Seq<char>> {
    tmp_log_files(property_files(config_members(s.collectors.config)))
}

/// The common-issue findings of a snapshot: one per distinct replication setting of one
/// (in the order first seen), then one for logs under `/tmp/` when any file has them.
pub open spec fn common_findings(fs: Seq<Finding>, s: Snapshot) -> bool {
    let es = snapshot_replication_entries(s);
    let cs = distinct_keys(es);
    let tmp = snapshot_tmp_log_files(s);
    &&& fs.len() == cs.len() + (if tmp.len() > 0 { 1int } else { 0int })
    &&& forall|j: int| 0 <= j < cs.len() ==> replication_finding(#[trigger] fs[j], cs[j], values_for(es, cs[j]), (j + 1) as nat)
    &&& tmp.len() > 0 ==> tmp_logs_finding(fs[cs.len() as int], tmp)
}

/// The broker id findings of a snapshot.
pub open spec fn broker_id_findings(fs: Seq<Finding>, s: Snapshot) -> bool {
    &&& fs.len() == snapshot_flagged_ids(s).len()
    &&& forall|j: int| 0 <= j < fs.len() ==> broker_id_finding(
        #[trigger] fs[j],
        snapshot_flagged_ids(s)[j],
        values_for(snapshot_id_entries(s), snapshot_flagged_ids(s)[j]),
        running_pairs(
            values_for(snapshot_id_entries(s), snapshot_flagged_ids(s)[j]),
            running_ids(broker_documents(s.collectors.custom@)),
        ),
        (j + 1) as nat,
    )
}

fn scan_common(docs: &Vec<(String, String)>) -> (r: (Vec<(String, String)>, Vec<String>))
    ensures
        pairs_view(r.0@) == replication_entries(pairs_view(docs@)),
        strings_view(r.1@) == tmp_log_files(pairs_view(docs@)),
{
    let ghost pf = pairs_view(docs@);
    let n = docs.len();
    let mut repl: Vec<(String, String)> = Vec::new();
    let mut tmp: Vec<String> = Vec::new();
    let mut i: usize = 0;
    assert(pf.skip(0) =~= pf);
    assert(pairs_view(repl@) + replication_entries(pf) =~= replication_entries(pf));
    assert(strings_view(tmp@) + tmp_log_files(pf) =~= tmp_log_files(pf));
    while i < n
        invariant
            i <= n == docs@.len() == pf.len(),
            pf == pairs_view(docs@),
            pairs_view(repl@) + replication_entries(pf.skip(i as int)) == replication_entries(pf),
            strings_view(tmp@) + tmp_log_files(pf.skip(i as int)) == tmp_log_files(pf),
        decreases n - i,
    {
        proof {
            assert(pf.skip(i as int).drop_first() =~= pf.skip(i + 1));
            assert(pf.skip(i as int)[0] == pf[i as int]);
        }
        let file = concat("brokers/", docs[i].0.as_str());
        let ls = split_lines(docs[i].1.as_str());
        let ghost sl = lines(docs@[i as int].1@);
        let ghost rbase = pairs_view(repl@);
        let ghost tbase = strings_view(tmp@);
        let mut k: usize = 0;
        assert(sl.skip(0) =~= sl);
        assert(with_file(replication_lines(sl), file@) =~= with_file(replication_lines(sl), file@));
        while k < ls.len()
            invariant
                k <= ls@.len() == sl.len(),
                strings_view(ls@) == sl,
                pairs_view(repl@) + with_file(replication_lines(sl.skip(k as int)), file@) == rbase + with_file(
                    replication_lines(sl),
                    file@,
                ),
                strings_view(tmp@) + Seq::new(tmp_log_lines(sl.skip(k as int)), |j: int| file@) == tbase + Seq::new(
                    tmp_log_lines(sl),
                    |j: int| file@,
                ),
            decreases ls@.len() - k,
        {
            proof {
                assert(strings_view(ls@)[k as int] == ls@[k as int]@);
                assert(sl.skip(k as int).drop_first() =~= sl.skip(k + 1));
                assert(sl.skip(k as int)[0] == sl[k as int]);
            }
            let ghost rb = pairs_view(repl@);
            let ghost tb = strings_view(tmp@);
            let t = trimmed(ls[k].as_str());
            if str_starts_with(t.as_str(), "offsets.topic.replication.factor=1") || str_starts_with(
                t.as_str(),
                "transaction.state.log.replication.factor=1",
            ) {
                repl.push((t.clone(), file.clone()));
                proof {
                    let rest = replication_lines(sl.skip(k + 1));
                    assert(replication_lines(sl.skip(k as int)) =~= seq![t@] + rest);
                    assert(pairs_view(repl@) =~= rb.push((t@, file@)));
                    assert(with_file(seq![t@] + rest, file@) =~= seq![(t@, file@)] + with_file(rest, file@));
                    assert(rb.push((t@, file@)) + with_file(rest, file@) =~= rb + with_file(seq![t@] + rest, file@));
                }
            } else {
                proof {
                    assert(replication_lines(sl.skip(k as int)) =~= replication_lines(sl.skip(k + 1)));
                }
            }
            if str_starts_with(t.as_str(), "log.dirs=/tmp/") {
                tmp.push(file.clone());
                proof {
                    let m = tmp_log_lines(sl.skip(k + 1));
                    assert(tmp_log_lines(sl.skip(k as int)) == 1 + m);
                    assert(strings_view(tmp@) =~= tb.push(file@));
                    assert(tb.push(file@) + Seq::new(m, |j: int| file@) =~= tb + Seq::new(1 + m, |j: int| file@));
                }
            } else {
                proof {
                    assert(tmp_log_lines(sl.skip(k as int)) == tmp_log_lines(sl.skip(k + 1)));
                }
            }
            k = k + 1;
        }
        proof {
            assert(sl.skip(k as int) =~= Seq::<Seq<char>>::empty());
            assert(with_file(Seq::<Seq<char>>::empty(), file@) =~= Seq::<(Seq<char>, Seq<char>)>::empty());
            assert(pairs_view(repl@) =~= rbase + with_file(replication_lines(sl), file@));
            assert(Seq::new(0, |j: int| file@) =~= Seq::<Seq<char>>::empty());
            assert(strings_view(tmp@) =~= tbase + Seq::new(tmp_log_lines(sl), |j: int| file@));
            assert(docs@[i as int].1@ == pf[i as int].1);
            assert(file@ == "brokers/"@ + pf[i as int].0);
            assert(rbase + with_file(replication_lines(sl), file@) + replication_entries(pf.skip(i + 1)) =~= rbase + (
            with_file(replication_lines(sl), file@) + replication_entries(pf.skip(i + 1))));
            assert(tbase + Seq::new(tmp_log_lines(sl), |j: int| file@) + tmp_log_files(pf.skip(i + 1)) =~= tbase + (
            Seq::new(tmp_log_lines(sl), |j: int| file@) + tmp_log_files(pf.skip(i + 1))));
        }
        i = i + 1;
    }
    proof {
        assert(pf.skip(n as int) =~= Seq::<(Seq<char>, Seq<char>)>::empty());
        assert(pairs_view(repl@) + Seq::empty() =~= pairs_view(repl@));
        assert(strings_view(tmp@) + Seq::empty() =~= strings_view(tmp@));
    }
    (repl, tmp)
}

fn replication_finding_of(c: &String, files: &Vec<String>, k: u64) -> (f: Finding)
    ensures
        replication_finding(f, c@, strings_view(files@), k as nat),
{
    let param = first_piece(c.as_str(), '=');
    let p = param.as_str();
    let mut configs: Vec<ConfigEvidence> = Vec::new();
    configs.push(ConfigEvidence {
        resource_type: owned("broker"),
        resource_name: owned("all"),
        config_key: param.clone(),
        current_value: owned("1"),
        recommended_value: Some(owned("3")),
        reason: owned("Minimum of 3 replicas recommended for production"),
        source_files: copy_strings(files),
    });
    let mut steps: Vec<RemediationStep> = Vec::new();
    let desc = concat(concat("Update ", p).as_str(), " to 3 in all broker configurations");
    let cmd = concat(concat(concat(concat(concat("sed -i 's/", p).as_str(), "=1/").as_str(), p).as_str(), "=3/g' /etc/kafka/server.properties").as_str(), "");
    let ver = concat(concat("grep ", p).as_str(), " /etc/kafka/server.properties");
    steps.push(step(1, desc.as_str(), Some(cmd.as_str()), Some(ver.as_str()), true));
    Finding {
        id: concat("CONFIG-REPLICATION-", decimal_string(k).as_str()),
        severity: Severity::High,
        category: Category::Availability,
        title: concat("Low replication factor: ", p),
        description: concat(concat("The ", p).as_str(),
            " is set to 1, which provides no fault tolerance. If a broker fails, data may be lost and the cluster may become unavailable."),
        impact: owned("High risk of data loss and service unavailability"),
        evidence: Evidence { metrics: Vec::new(), logs: Vec::new(), configs, raw_data: None },
        root_cause: Some(owned("Insufficient replication configuration")),
        remediation: Remediation {
            steps,
            script: None,
            risk_level: RiskLevel::Medium,
            requires_downtime: true,
            estimated_duration_minutes: Some(15),
            rollback_plan: Some(owned("Revert to replication factor of 1")),
        },
        metadata: Vec::new(),
    }
}

fn tmp_logs_finding_of(files: Vec<String>) -> (f: Finding)
    ensures
        tmp_logs_finding(f, strings_view(files@)),
{
    let mut configs: Vec<ConfigEvidence> = Vec::new();
    configs.push(ConfigEvidence {
        resource_type: owned("broker"),
        resource_name: owned("multiple"),
        config_key: owned("log.dirs"),
        current_value: owned("/tmp/kafka-logs"),
        recommended_value: Some(owned("/var/kafka/logs")),
        reason: owned("Use dedicated persistent storage for Kafka logs"),
        source_files: files,
    });
    let mut steps: Vec<RemediationStep> = Vec::new();
    steps.push(step(1, "Create dedicated log directory", Some("mkdir -p /var/kafka/logs && chown kafka:kafka /var/kafka/logs"), Some("ls -la /var/kafka/"), true));
    steps.push(step(2, "Update log.dirs in server.properties", Some("sed -i 's|log.dirs=/tmp/kafka-logs|log.dirs=/var/kafka/logs|g' /etc/kafka/server.properties"), Some("grep log.dirs /etc/kafka/server.properties"), true));
    Finding {
        id: owned("CONFIG-LOGDIR-001"),
        severity: Severity::Medium,
        category: Category::Configuration,
        title: owned("Logs stored in temporary directory"),
        description: owned("Kafka logs are configured to be stored in /tmp, which is typically cleared on system restart and may have limited space. This can lead to data loss and disk space issues."),
        impact: owned("Risk of data loss on system restart and potential disk space issues"),
        evidence: Evidence { metrics: Vec::new(), logs: Vec::new(), configs, raw_data: None },
        root_cause: Some(owned("Inappropriate storage location for Kafka logs")),
        remediation: Remediation {
            steps,
            script: None,
            risk_level: RiskLevel::Medium,
            requires_downtime: true,
            estimated_duration_minutes: Some(20),
            rollback_plan: Some(owned("Move logs back to /tmp/kafka-logs")),
        },
        metadata: Vec::new(),
    }
}

impl ConfigValidator {
    /// One finding per distinct replication setting of one, in the order first seen, then
    /// one for logs kept under `/tmp/` when any file keeps them there.
    pub fn check_common_issues(&self, snapshot: &Snapshot) -> (r: Vec<Finding>)
        ensures
            common_findings(r@, *snapshot),
    {
        let docs = property_documents(&snapshot.collectors.config);
        let (repl, tmp) = scan_common(&docs);
        let ghost es = pairs_view(repl@);
        let configs = distinct_entry_keys(&repl);
        let ghost cs = strings_view(configs@);
        let mut findings: Vec<Finding> = Vec::new();
        let mut i: usize = 0;
        while i < configs.len()
            invariant
                i <= configs@.len() == cs.len(),
                cs == strings_view(configs@),
                es == pairs_view(repl@),
                es == snapshot_replication_entries(*snapshot),
                cs == distinct_keys(es),
                findings@.len() == i,
                forall|j: int| 0 <= j < i ==> replication_finding(#[trigger] findings@[j], cs[j], values_for(es, cs[j]), (j + 1) as nat),
            decreases configs@.len() - i,
        {
            proof {
                assert(strings_view(configs@)[i as int] == configs@[i as int]@);
            }
            let files = entry_values(&repl, configs[i].as_str());
            let f = replication_finding_of(&configs[i], &files, i as u64 + 1);
            findings.push(f);
            i = i + 1;
        }
        if tmp.len() > 0 {
            findings.push(tmp_logs_finding_of(tmp));
        }
        findings
    }

    /// The configuration findings of a snapshot: the broker id findings, then the common
    /// ones.
    pub fn analyze(&self, snapshot: &Snapshot) -> (r: Vec<Finding>)
        ensures
            broker_id_findings(r@.take(snapshot_flagged_ids(*snapshot).len() as int), *snapshot),
            common_findings(r@.skip(snapshot_flagged_ids(*snapshot).len() as int), *snapshot),
    {
        let mut a = self.check_broker_id_issues(snapshot);
        let mut b = self.check_common_issues(snapshot);
        let ghost av = a@;
        let ghost bv = b@;
        a.append(&mut b);
        assert(a@.take(av.len() as int) =~= av);
        assert(a@.skip(av.len() as int) =~= bv);
        a
    }
}

} // verus!
