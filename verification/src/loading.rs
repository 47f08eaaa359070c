//! Turning the directory tree a scan wrote into a snapshot: where each part of
//! the tree goes, the per-broker logs and configurations gathered under
//! `broker/file` names, and the tags that say what was found.
use vstd::prelude::*;
use crate::text::{ends_with, owned, concat, str_ends_with, str_eq};
use crate::numbers::{decimal, decimal_string};
use crate::json::{JsonValue, member, keys_sorted, object_insert, json_same, json_clone};
use crate::snapshot::{ClusterMode, Snapshot, SnapshotMetadata, ClusterSnapshot, CollectorOutputs};
use crate::strmap::StrMap;
use crate::collectors::{joined, join_strings};

verus! {

/// What reading a scan's output directory gave. Each directory tree is an object whose
/// members are its non-empty subdirectories and readable files, keyed by name in byte
/// order: a `.json` file that parses holds its JSON, any other file its text.
pub struct ScanDirectory {
    /// `scan_metadata.json`, when it could be read and parsed.
    pub scan_metadata: Option<JsonValue>,
    /// The tree under `brokers/`, when that directory exists.
    pub brokers: Option<JsonValue>,
    /// The tree under `cluster/`, when that directory exists.
    pub cluster: Option<JsonValue>,
    /// The tree under `metrics/`, when that directory exists.
    pub metrics: Option<JsonValue>,
    /// The tree under `system/`, when that directory exists.
    pub system: Option<JsonValue>,
    /// The other readable files at the top, other than `scan_metadata.json`, in the
    /// order the directory listed them.
    pub other_files: Vec<(String, JsonValue)>,
    /// How many files the whole tree holds.
    pub total_files: usize,
}

/// What a file of a scan tree holds: its JSON when it is a `.json` file that parsed
/// (`parsed`), else its text.
pub fn file_value(file_name: &str, content: String, parsed: Option<JsonValue>) -> (v: JsonValue)
    ensures
        v == (if ends_with(file_name@, ".json"@) && parsed is Some {
            parsed.unwrap()
        } else {
            JsonValue::String(content)
        }),
{
    if str_ends_with(file_name, ".json") {
        match parsed {
            Some(p) => p,
            None => JsonValue::String(content),
        }
    } else {
        JsonValue::String(content)
    }
}

/// Adds a subdirectory's tree to its parent's members, unless the tree is empty.
pub fn add_subdirectory(members: &mut Vec<(String, JsonValue)>, name: String, tree: JsonValue)
    requires
        keys_sorted(old(members)@),
    ensures
        keys_sorted(final(members)@),
        (tree matches JsonValue::Object(t) && t@.len() == 0) ==> final(members)@ == old(members)@,
        !(tree matches JsonValue::Object(t) && t@.len() == 0) ==> member(final(members)@, name@) == Some(tree)
            && forall|k: Seq<char>| k != name@ ==> member(#[trigger] final(members)@, k) == member(old(members)@, k),
{
    let empty = match &tree {
        JsonValue::Object(t) => t.len() == 0,
        _ => false,
    };
    if !empty {
        object_insert(members, name, tree);
    }
}

/// The cluster mode a scan's metadata records: `kraft`, `zookeeper`, any other text
/// unknown; `current` when it records none.
pub open spec fn recorded_mode(meta: Option<JsonValue>, current: ClusterMode) -> ClusterMode {
    match meta {
        Some(m) => match m.spec_get("cluster_mode"@) {
            Some(JsonValue::String(s)) => if s@ == "kraft"@ {
                ClusterMode::Kraft
            } else if s@ == "zookeeper"@ {
                ClusterMode::Zookeeper
            } else {
                ClusterMode::Unknown
            },
            _ => current,
        },
        None => current,
    }
}

/// The members of an object value, none for anything else.
pub open spec fn object_members(v: JsonValue) -> Seq<(String, JsonValue)> {
    match v {
        JsonValue::Object(m) => m@,
        _ => Seq::empty(),
    }
}

/// The entries of one section (`logs` or `configs`) of one broker's tree, named
/// `broker/file`.
pub open spec fn section_entries(broker: Seq<char>, tree: JsonValue, section: Seq<char>) -> Seq<(Seq<char>, JsonValue)> {
    match tree {
        JsonValue::Object(m) => match member(m@, section) {
            Some(JsonValue::Object(items)) => items@.map_values(
                |it: (String, JsonValue)| (broker + "/"@ + it.0@, it.1),
            ),
            _ => Seq::empty(),
        },
        _ => Seq::empty(),
    }
}

/// The entries of a section over all brokers, in order.
pub open spec fn broker_entries(bs: Seq<(String, JsonValue)>, section: Seq<char>) -> Seq<(Seq<char>, JsonValue)>
    decreases bs.len(),
{
    if bs.len() == 0 {
        Seq::empty()
    } else {
        broker_entries(bs.drop_last(), section) + section_entries(bs.last().0@, bs.last().1, section)
    }
}

/// The value the last entry named `k` gives.
pub open spec fn last_value(es: Seq<(Seq<char>, JsonValue)>, k: Seq<char>) -> Option<JsonValue>
    decreases es.len(),
{
    if es.len() == 0 {
        None
    } else if es.last().0 == k {
        Some(es.last().1)
    } else {
        last_value(es.drop_last(), k)
    }
}

/// Members in byte order of their names that hold the entries, later ones replacing
/// earlier ones of the same name.
pub open spec fn members_of_entries(m: Seq<(String, JsonValue)>, es: Seq<(Seq<char>, JsonValue)>) -> bool {
    &&& keys_sorted(m)
    &&& forall|k: Seq<char>| (#[trigger] member(m, k) is Some) == (last_value(es, k) is Some)
    &&& forall|k: Seq<char>| #[trigger] member(m, k) is Some ==> json_same(member(m, k).unwrap(), last_value(es, k).unwrap())
    &&& (m.len() == 0) == (es.len() == 0)
}

/// Whether some broker's tree has a member named `k`.
pub open spec fn some_broker_has(bs: Seq<(String, JsonValue)>, k: Seq<char>) -> bool {
    exists|i: int| 0 <= i < bs.len() && (#[trigger] bs[i]).1 is Object && member(object_members(bs[i].1), k) is Some
}

/// The brokers of a scan tree.
pub open spec fn brokers_of(dir: ScanDirectory) -> Seq<(String, JsonValue)> {
    match dir.brokers {
        Some(b) => object_members(b),
        None => Seq::empty(),
    }
}

/// The kinds of data a scan tree holds, in the order they are reported.
pub open spec fn data_types(dir: ScanDirectory) -> Seq<Seq<char>> {
    let bs = brokers_of(dir);
    (if broker_entries(bs, "configs"@).len() > 0 { seq!["Configurations"@] } else { Seq::empty() })
        + (if broker_entries(bs, "logs"@).len() > 0 { seq!["Logs"@] } else { Seq::empty() })
        + (if some_broker_has(bs, "metrics"@) || dir.metrics is Some { seq!["Metrics"@] } else { Seq::empty() })
        + (if some_broker_has(bs, "system"@) || dir.system is Some { seq!["System Info"@] } else { Seq::empty() })
        + (if some_broker_has(bs, "data"@) { seq!["Data/Partition Info"@] } else { Seq::empty() })
        + (if dir.cluster matches Some(c) && member(object_members(c), "kafkactl"@) is Some {
        seq!["Kafka Admin Data"@]
    } else {
        Seq::empty()
    }) + (if dir.other_files@.len() > 0 { seq!["Additional Files"@] } else { Seq::empty() })
}

/// The position of the first entry named `k`, at or after `i`.
pub open spec fn find_entry(s: Seq<(Seq<char>, JsonValue)>, k: Seq<char>, i: int) -> Option<int>
    decreases s.len() - i,
{
    if i < 0 || i >= s.len() {
        None
    } else if s[i].0 == k {
        Some(i)
    } else {
        find_entry(s, k, i + 1)
    }
}

/// Named entries with a new entry replacing the first of the same name in place, or
/// added at the end.
pub open spec fn entries_put(s: Seq<(Seq<char>, JsonValue)>, k: Seq<char>, v: JsonValue) -> Seq<(Seq<char>, JsonValue)> {
    match find_entry(s, k, 0) {
        Some(i) => s.update(i, (k, v)),
        None => s.push((k, v)),
    }
}

/// The entries after putting each of `more` in order.
pub open spec fn entries_put_all(s: Seq<(Seq<char>, JsonValue)>, more: Seq<(Seq<char>, JsonValue)>) -> Seq<(Seq<char>, JsonValue)>
    decreases more.len(),
{
    if more.len() == 0 {
        s
    } else {
        entries_put(entries_put_all(s, more.drop_last()), more.last().0, more.last().1)
    }
}

/// The named trees of a scan that go into the snapshot's custom data, in order: the
/// brokers, cluster, metrics and system trees that exist, then the other files.
pub open spec fn custom_entries(dir: ScanDirectory) -> Seq<(Seq<char>, JsonValue)> {
    (match dir.brokers { Some(b) => seq![("brokers"@, b)], None => Seq::empty() })
        + (match dir.cluster { Some(c) => seq![("cluster"@, c)], None => Seq::empty() })
        + (match dir.metrics { Some(m) => seq![("metrics"@, m)], None => Seq::empty() })
        + (match dir.system { Some(s) => seq![("system"@, s)], None => Seq::empty() })
        + dir.other_files@.map_values(|f: (String, JsonValue)| (f.0@, f.1))
}

/// Named entries as plain names and values.
pub open spec fn entries_view(s: Seq<(String, JsonValue)>) -> Seq<(Seq<char>, JsonValue)> {
    s.map_values(|e: (String, JsonValue)| (e.0@, e.1))
}

fn put_entry(v: &mut Vec<(String, JsonValue)>, k: String, val: JsonValue)
    ensures
        entries_view(final(v)@) == entries_put(entries_view(old(v)@), k@, val),
{
    let ghost s0 = entries_view(v@);
    let mut i: usize = 0;
    while i < v.len()
        invariant
            i <= v@.len(),
            s0 == entries_view(v@),
            s0 == entries_view(old(v)@),
            find_entry(s0, k@, 0) == find_entry(s0, k@, i as int),
        decreases v@.len() - i,
    {
        if str_eq(v[i].0.as_str(), k.as_str()) {
            let ghost kv = k@;
            assert(s0[i as int].0 == kv);
            assert(find_entry(s0, kv, i as int) == Some(i as int));
            v.set(i, (k, val));
            assert(entries_view(v@) =~= s0.update(i as int, (kv, val)));
            return;
        }
        i = i + 1;
    }
    let ghost kv = k@;
    v.push((k, val));
    assert(entries_view(v@) =~= s0.push((kv, val)));
}

fn gather_broker(broker: &String, tree: &JsonValue, section: &str, out: &mut Vec<(String, JsonValue)>, Ghost(before): Ghost<Seq<(Seq<char>, JsonValue)>>)
    requires
        members_of_entries(old(out)@, before),
    ensures
        members_of_entries(final(out)@, before + section_entries(broker@, *tree, section@)),
{
    let ghost es = section_entries(broker@, *tree, section@);
    match tree.get(section) {
        Some(JsonValue::Object(items)) => {
            let mut j: usize = 0;
            assert(before + es.take(0) =~= before);
            while j < items.len()
                invariant
                    j <= items@.len(),
                    es == section_entries(broker@, *tree, section@),
                    tree.spec_get(section@) == Some(JsonValue::Object(*items)),
                    members_of_entries(out@, before + es.take(j as int)),
                decreases items@.len() - j,
            {
                let ghost prev = out@;
                let ghost cur = before + es.take(j as int);
                let key = concat(concat(broker.as_str(), "/").as_str(), items[j].0.as_str());
                let val = json_clone(&items[j].1);
                let ghost kv = key@;
                let ghost vv = val;
                proof {
                    assert(es[j as int] == (broker@ + "/"@ + items@[j as int].0@, items@[j as int].1));
                    assert(before + es.take(j + 1) =~= cur.push(es[j as int]));
                }
                object_insert(out, key, val);
                proof {
                    let nxt = cur.push(es[j as int]);
                    assert forall|k: Seq<char>| (#[trigger] member(out@, k) is Some) == (last_value(nxt, k) is Some) by {
                        assert(nxt.drop_last() =~= cur);
                    }
                    assert forall|k: Seq<char>| #[trigger] member(out@, k) is Some implies json_same(
                        member(out@, k).unwrap(),
                        last_value(nxt, k).unwrap(),
                    ) by {
                        assert(nxt.drop_last() =~= cur);
                    }
                }
                j = j + 1;
            }
            assert(es.take(j as int) =~= es);
        },
        _ => {
            assert(es =~= Seq::<(Seq<char>, JsonValue)>::empty());
            assert(before + es =~= before);
        },
    }
}

/// The logs or configurations of all brokers, named `broker/file`, as a key-ordered
/// object's members.
pub fn gather_section(brokers: &Vec<(String, JsonValue)>, section: &str) -> (r: Vec<(String, JsonValue)>)
    ensures
        members_of_entries(r@, broker_entries(brokers@, section@)),
{
    let mut out: Vec<(String, JsonValue)> = Vec::new();
    let mut i: usize = 0;
    assert(brokers@.take(0) =~= Seq::<(String, JsonValue)>::empty());
    while i < brokers.len()
        invariant
            i <= brokers@.len(),
            members_of_entries(out@, broker_entries(brokers@.take(i as int), section@)),
        decreases brokers@.len() - i,
    {
        proof {
            assert(brokers@.take(i + 1).drop_last() =~= brokers@.take(i as int));
            assert(brokers@.take(i + 1).last() == brokers@[i as int]);
        }
        gather_broker(&brokers[i].0, &brokers[i].1, section, &mut out, Ghost(broker_entries(brokers@.take(i as int), section@)));
        i = i + 1;
    }
    assert(brokers@.take(i as int) =~= brokers@);
    out
}

fn any_broker_has(brokers: &Vec<(String, JsonValue)>, k: &str) -> (b: bool)
    ensures
        b == some_broker_has(brokers@, k@),
{
    let mut i: usize = 0;
    while i < brokers.len()
        invariant
            i <= brokers@.len(),
            forall|j: int| 0 <= j < i ==> !((#[trigger] brokers@[j]).1 is Object && member(object_members(brokers@[j].1), k@) is Some),
        decreases brokers@.len() - i,
    {
        match &brokers[i].1 {
            JsonValue::Object(_) => {
                if brokers[i].1.get(k).is_some() {
                    return true;
                }
            },
            _ => {},
        }
        i = i + 1;
    }
    false
}

/// The snapshot `r` is `s` filled with what a scan directory holds: the cluster mode its
/// metadata records; the brokers' logs and configurations gathered under `broker/file`
/// names (when there are any); the cluster tree as admin data and the metrics tree as
/// metrics; every tree and other file in the custom data; and tags saying how many files
/// were found and what kinds of data.
pub open spec fn filled_from_scan(r: Snapshot, s: Snapshot, dir: ScanDirectory) -> bool {
    let bs = brokers_of(dir);
    let logs = broker_entries(bs, "logs"@);
    let configs = broker_entries(bs, "configs"@);
    &&& r.version == s.version && r.timestamp == s.timestamp && r.findings == s.findings
    &&& r.cluster.mode == recorded_mode(dir.scan_metadata, s.cluster.mode)
    &&& r.cluster.id == s.cluster.id && r.cluster.name == s.cluster.name && r.cluster.version == s.cluster.version
    &&& r.cluster.cloud_provider == s.cluster.cloud_provider && r.cluster.region == s.cluster.region
    &&& logs.len() > 0 ==> (r.collectors.logs matches Some(JsonValue::Object(m)) && members_of_entries(m@, logs))
    &&& logs.len() == 0 ==> r.collectors.logs == s.collectors.logs
    &&& configs.len() > 0 ==> (r.collectors.config matches Some(JsonValue::Object(m)) && members_of_entries(m@, configs))
    &&& configs.len() == 0 ==> r.collectors.config == s.collectors.config
    &&& match dir.cluster {
        Some(c) => r.collectors.admin matches Some(a) && json_same(a, c),
        None => r.collectors.admin == s.collectors.admin,
    }
    &&& match dir.metrics {
        Some(m) => r.collectors.metrics matches Some(a) && json_same(a, m),
        None => r.collectors.metrics == s.collectors.metrics,
    }
    &&& r.collectors.cloud == s.collectors.cloud
    &&& entries_view(r.collectors.custom@) == entries_put_all(entries_view(s.collectors.custom@), custom_entries(dir))
    &&& r.metadata.tool_version == s.metadata.tool_version && r.metadata.collection_id == s.metadata.collection_id
    &&& r.metadata.collection_duration_ms == s.metadata.collection_duration_ms
    &&& r.metadata.collectors_used == s.metadata.collectors_used
    &&& r.metadata.redaction_applied == s.metadata.redaction_applied
    &&& r.metadata.environment == s.metadata.environment
    &&& r.metadata.tags@ == s.metadata.tags@.insert("total_files_loaded"@, decimal(dir.total_files as nat)).insert(
        "data_types"@,
        joined(data_types(dir), ", "@),
    )
}

fn recorded_mode_of(meta: &Option<JsonValue>, current: ClusterMode) -> (m: ClusterMode)
    ensures
        m == recorded_mode(*meta, current),
{
    match meta {
        Some(v) => match v.get("cluster_mode") {
            Some(JsonValue::String(s)) => {
                if str_eq(s.as_str(), "kraft") {
                    ClusterMode::Kraft
                } else if str_eq(s.as_str(), "zookeeper") {
                    ClusterMode::Zookeeper
                } else {
                    ClusterMode::Unknown
                }
            },
            _ => current,
        },
        None => current,
    }
}

fn push_label(labels: &mut Vec<String>, cond: bool, label: &str)
    ensures
        final(labels)@.map_values(|x: String| x@) == old(labels)@.map_values(|x: String| x@) + (if cond {
            seq![label@]
        } else {
            Seq::empty()
        }),
{
    if cond {
        labels.push(owned(label));
        assert(labels@.map_values(|x: String| x@) =~= old(labels)@.map_values(|x: String| x@) + seq![label@]);
    } else {
        assert(labels@.map_values(|x: String| x@) =~= old(labels)@.map_values(|x: String| x@) + Seq::<Seq<char>>::empty());
    }
}

fn put_all(custom: &mut Vec<(String, JsonValue)>, files: Vec<(String, JsonValue)>)
    ensures
        entries_view(final(custom)@) == entries_put_all(entries_view(old(custom)@), entries_view(files@)),
{
    let ghost all = entries_view(files@);
    let ghost start = entries_view(custom@);
    let mut rest = files;
    let n = rest.len();
    let mut i: usize = 0;
    assert(all.take(0) =~= Seq::<(Seq<char>, JsonValue)>::empty());
    while i < n
        invariant
            i <= n == all.len(),
            entries_view(rest@) == all.skip(i as int),
            rest@.len() == n - i,
            entries_view(custom@) == entries_put_all(start, all.take(i as int)),
        decreases n - i,
    {
        let ghost prev = rest@;
        let (k, v) = rest.remove(0);
        proof {
            assert(entries_view(prev)[0] == (k@, v));
            assert(all.skip(i as int)[0] == (k@, v));
            assert(all[i as int] == (k@, v));
            assert(all.take(i + 1).drop_last() =~= all.take(i as int));
            assert(all.take(i + 1).last() == all[i as int]);
            assert forall|j: int| 0 <= j < rest@.len() implies #[trigger] entries_view(rest@)[j] == all.skip(i + 1)[j] by {
                assert(rest@[j] == prev[j + 1]);
                assert(entries_view(prev)[j + 1] == all.skip(i as int)[j + 1]);
            }
            assert(entries_view(rest@) =~= all.skip(i + 1));
        }
        put_entry(custom, k, v);
        i = i + 1;
    }
    assert(all.take(i as int) =~= all);
}

fn any_entries(bs: &Vec<(String, JsonValue)>, section: &str) -> (b: bool)
    ensures
        b == (broker_entries(bs@, section@).len() > 0),
{
    let mut i: usize = 0;
    assert(bs@.take(0) =~= Seq::<(String, JsonValue)>::empty());
    while i < bs.len()
        invariant
            i <= bs@.len(),
            broker_entries(bs@.take(i as int), section@).len() == 0,
        decreases bs@.len() - i,
    {
        proof {
            assert(bs@.take(i + 1).drop_last() =~= bs@.take(i as int));
            assert(bs@.take(i + 1).last() == bs@[i as int]);
        }
        match bs[i].1.get(section) {
            Some(JsonValue::Object(items)) => {
                if items.len() > 0 {
                    proof {
                        lemma_entries_prefix(bs@, section@, i + 1);
                    }
                    return true;
                }
            },
            _ => {},
        }
        i = i + 1;
    }
    assert(bs@.take(i as int) =~= bs@);
    false
}

proof fn lemma_entries_prefix(bs: Seq<(String, JsonValue)>, section: Seq<char>, k: int)
    requires
        0 <= k <= bs.len(),
    ensures
        broker_entries(bs.take(k), section).len() <= broker_entries(bs, section).len(),
    decreases bs.len() - k,
{
    if k < bs.len() {
        lemma_entries_prefix(bs, section, k + 1);
        assert(bs.take(k + 1).drop_last() =~= bs.take(k));
    } else {
        assert(bs.take(k) =~= bs);
    }
}

/// The kinds of data a scan directory holds, as the tags name them.
pub fn data_type_labels(dir: &ScanDirectory) -> (r: Vec<String>)
    ensures
        r@.map_values(|x: String| x@) == data_types(*dir),
{
    let no_brokers: Vec<(String, JsonValue)> = Vec::new();
    let bs: &Vec<(String, JsonValue)> = match &dir.brokers {
        Some(JsonValue::Object(m)) => m,
        _ => &no_brokers,
    };
    assert(bs@ == brokers_of(*dir));
    let kafkactl = match &dir.cluster {
        Some(c) => c.get("kafkactl").is_some(),
        None => false,
    };
    proof {
        if dir.cluster is Some && !(dir.cluster.unwrap() is Object) {
            assert(object_members(dir.cluster.unwrap()) =~= Seq::<(String, JsonValue)>::empty());
        }
    }
    let mut labels: Vec<String> = Vec::new();
    push_label(&mut labels, any_entries(bs, "configs"), "Configurations");
    push_label(&mut labels, any_entries(bs, "logs"), "Logs");
    push_label(&mut labels, any_broker_has(bs, "metrics") || dir.metrics.is_some(), "Metrics");
    push_label(&mut labels, any_broker_has(bs, "system") || dir.system.is_some(), "System Info");
    push_label(&mut labels, any_broker_has(bs, "data"), "Data/Partition Info");
    push_label(&mut labels, kafkactl, "Kafka Admin Data");
    push_label(&mut labels, dir.other_files.len() > 0, "Additional Files");
    assert(labels@.map_values(|x: String| x@) =~= data_types(*dir));
    labels
}

/// The trees of a scan that exist, named, in the order they go into the custom data.
pub open spec fn tree_entries(
    brokers: Option<JsonValue>,
    cluster: Option<JsonValue>,
    metrics: Option<JsonValue>,
    system: Option<JsonValue>,
) -> Seq<(Seq<char>, JsonValue)> {
    (match brokers { Some(b) => seq![("brokers"@, b)], None => Seq::empty() })
        + (match cluster { Some(c) => seq![("cluster"@, c)], None => Seq::empty() })
        + (match metrics { Some(m) => seq![("metrics"@, m)], None => Seq::empty() })
        + (match system { Some(s) => seq![("system"@, s)], None => Seq::empty() })
}

fn push_tree(trees: &mut Vec<(String, JsonValue)>, name: &str, tree: Option<JsonValue>)
    ensures
        entries_view(final(trees)@) == entries_view(old(trees)@) + match tree {
            Some(t) => seq![(name@, t)],
            None => Seq::empty(),
        },
{
    match tree {
        Some(t) => {
            let ghost tv = t;
            trees.push((owned(name), t));
            assert(entries_view(trees@) =~= entries_view(old(trees)@) + seq![(name@, tv)]);
        },
        None => {
            assert(entries_view(trees@) =~= entries_view(old(trees)@) + Seq::<(Seq<char>, JsonValue)>::empty());
        },
    }
}

fn trees_of(brokers: Option<JsonValue>, cluster: Option<JsonValue>, metrics: Option<JsonValue>, system: Option<JsonValue>) -> (r: Vec<(String, JsonValue)>)
    ensures
        entries_view(r@) == tree_entries(brokers, cluster, metrics, system),
{
    let mut trees: Vec<(String, JsonValue)> = Vec::new();
    assert(entries_view(trees@) =~= Seq::<(Seq<char>, JsonValue)>::empty());
    push_tree(&mut trees, "brokers", brokers);
    push_tree(&mut trees, "cluster", cluster);
    push_tree(&mut trees, "metrics", metrics);
    push_tree(&mut trees, "system", system);
    assert(entries_view(trees@) =~= tree_entries(brokers, cluster, metrics, system));
    trees
}

fn clone_opt(v: &Option<JsonValue>) -> (r: Option<JsonValue>)
    ensures
        match *v {
            Some(x) => r matches Some(y) && json_same(y, x),
            None => r is None,
        },
{
    match v {
        Some(x) => Some(json_clone(x)),
        None => None,
    }
}

/// Fills a snapshot with what a scan directory holds.
#[verifier::rlimit(40)]
pub fn fill_from_scan(snapshot: Snapshot, dir: ScanDirectory) -> (r: Snapshot)
    ensures
        filled_from_scan(r, snapshot, dir),
{
    let ghost d = dir;
    let labels = data_type_labels(&dir);
    let Snapshot { version, timestamp, metadata, cluster, collectors, findings } = snapshot;
    let mode = recorded_mode_of(&dir.scan_metadata, cluster.mode);
    let ClusterSnapshot { id, name, version: cluster_version, mode: _, cloud_provider, region } = cluster;
    let CollectorOutputs { admin, logs, config, metrics: old_metrics, cloud, custom } = collectors;
    let no_brokers: Vec<(String, JsonValue)> = Vec::new();
    let bs: &Vec<(String, JsonValue)> = match &dir.brokers {
        Some(JsonValue::Object(m)) => m,
        _ => &no_brokers,
    };
    assert(bs@ == brokers_of(d));
    let log_members = gather_section(bs, "logs");
    let config_members = gather_section(bs, "configs");
    let new_logs = if log_members.len() > 0 { Some(JsonValue::Object(log_members)) } else { logs };
    let new_config = if config_members.len() > 0 { Some(JsonValue::Object(config_members)) } else { config };
    let cluster_copy = clone_opt(&dir.cluster);
    let new_admin = if cluster_copy.is_some() { cluster_copy } else { admin };
    let metrics_copy = clone_opt(&dir.metrics);
    let new_metrics = if metrics_copy.is_some() { metrics_copy } else { old_metrics };
    let ScanDirectory { scan_metadata: _, brokers, cluster: cluster_tree, metrics, system, other_files, total_files } = dir;
    let trees = trees_of(brokers, cluster_tree, metrics, system);
    let mut custom = custom;
    put_all(&mut custom, trees);
    put_all(&mut custom, other_files);
    proof {
        let first = tree_entries(d.brokers, d.cluster, d.metrics, d.system);
        lemma_put_all_append(entries_view(snapshot.collectors.custom@), first, entries_view(d.other_files@));
        assert(entries_view(d.other_files@) =~= d.other_files@.map_values(|f: (String, JsonValue)| (f.0@, f.1)));
        assert(first + entries_view(d.other_files@) =~= custom_entries(d));
    }
    let SnapshotMetadata { tool_version, collection_id, collection_duration_ms, collectors_used, redaction_applied, environment, tags } = metadata;
    let mut tags = tags;
    tags.insert(owned("total_files_loaded"), decimal_string(total_files as u64));
    tags.insert(owned("data_types"), join_strings(&labels, ", "));
    Snapshot {
        version,
        timestamp,
        metadata: SnapshotMetadata { tool_version, collection_id, collection_duration_ms, collectors_used, redaction_applied, environment, tags },
        cluster: ClusterSnapshot { id, name, version: cluster_version, mode, cloud_provider, region },
        collectors: CollectorOutputs { admin: new_admin, logs: new_logs, config: new_config, metrics: new_metrics, cloud, custom },
        findings,
    }
}

proof fn lemma_put_all_append(s: Seq<(Seq<char>, JsonValue)>, a: Seq<(Seq<char>, JsonValue)>, b: Seq<(Seq<char>, JsonValue)>)
    ensures
        entries_put_all(entries_put_all(s, a), b) == entries_put_all(s, a + b),
    decreases b.len(),
{
    if b.len() > 0 {
        lemma_put_all_append(s, a, b.drop_last());
        assert((a + b).drop_last() =~= a + b.drop_last());
        assert((a + b).last() == b.last());
    } else {
        assert(a + b =~= a);
    }
}

/// The snapshot a scan directory gives: a new snapshot by tool version `tool_version`
/// (a fresh collection id, the current time) filled with what the directory holds.
pub fn load_snapshot_from_directory(dir: ScanDirectory, tool_version: String) -> (r: Snapshot)
    ensures
        exists|s: Snapshot| {
            &&& s.version@ == crate::snapshot::SNAPSHOT_VERSION@
            &&& s.metadata.tool_version == tool_version
            &&& s.metadata.tags@ == Map::<Seq<char>, Seq<char>>::empty()
            &&& s.metadata.collection_id@.len() == 36
            &&& s.metadata.collection_duration_ms == 0
            &&& s.metadata.collectors_used@.len() == 0
            &&& !s.metadata.redaction_applied
            &&& s.metadata.environment is None
            &&& s.cluster.id is None && s.cluster.name is None && s.cluster.version is None
            &&& s.cluster.mode == ClusterMode::Unknown
            &&& s.cluster.cloud_provider is None && s.cluster.region is None
            &&& s.collectors.admin is None && s.collectors.logs is None && s.collectors.config is None
            &&& s.collectors.metrics is None && s.collectors.cloud is None && s.collectors.custom@.len() == 0
            &&& s.findings@.len() == 0
            &&& filled_from_scan(r, s, dir)
        },
{
    let s = Snapshot::new(SnapshotMetadata::new(tool_version));
    let ghost gs = s;
    let r = fill_from_scan(s, dir);
    assert(filled_from_scan(r, gs, dir));
    r
}

} // verus!
