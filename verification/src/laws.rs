//! Properties that hold of the analysis as a whole: what a finding does to the
//! health scores, how findings and error summaries are ordered, and when
//! leadership counts as balanced.
use vstd::prelude::*;
use crate::snapshot::{Finding, Severity, severity_rank, encoded, stored_text, gzip_magic};
use crate::report::{count_severity, health_halves, terminal_score, lemma_counts_sum};
use crate::rules::{sort_by_severity, insert_by_severity, imbalanced, max_count, sum_counts};
use crate::collectors::{sort_by_count, insert_by_count, TopicInfo};
use crate::rules::{flagged, flagged_in_topic, flag_kind};
use crate::config_validator::{
    values_for, distinct_keys, flagged_ids, id_flagged, snapshot_id_entries, snapshot_flagged_ids,
};
use crate::snapshot::Snapshot;
use crate::analysis::{task_severity_of_lower, answered_severity, text_member, keyword_hit};
use crate::log_discovery::{LogType, log_type_of_path_is};
use crate::text::{lowercase, file_name_of, contains};
use crate::cluster_detection::{overall_mode, count_mode, classify, properties_of, kraft_mode, zookeeper_mode};
use crate::snapshot::ClusterMode;
use crate::json::JsonValue;
use crate::analysis::AnalysisTask;

verus! {

broadcast use vstd::seq_lib::group_to_multiset_ensures;

/// The findings counted by severity add up to all the findings.
pub proof fn law_severity_counts_cover_all(fs: Seq<Finding>)
    ensures
        count_severity(fs, Severity::Critical) + count_severity(fs, Severity::High) + count_severity(fs, Severity::Medium)
            + count_severity(fs, Severity::Low) + count_severity(fs, Severity::Info) == fs.len(),
{
    lemma_counts_sum(fs);
}

/// One more finding never raises either health score, and both scores stay within their
/// range (0 to 100 points; the HTML and JSON score is counted in half points).
pub proof fn law_health_scores_never_rise(fs: Seq<Finding>, f: Finding)
    ensures
        health_halves(fs.push(f)) <= health_halves(fs),
        terminal_score(fs.push(f)) <= terminal_score(fs),
        0 <= health_halves(fs) <= 200,
        0 <= terminal_score(fs) <= 100,
{
    assert(fs.push(f).drop_last() =~= fs);
    assert(fs.push(f).last() == f);
}

/// Without findings both health scores are perfect.
pub proof fn law_no_findings_full_health()
    ensures
        health_halves(Seq::<Finding>::empty()) == 200,
        terminal_score(Seq::<Finding>::empty()) == 100,
{
}

/// Informational findings cost the terminal score nothing.
pub proof fn law_info_free_in_terminal(fs: Seq<Finding>, f: Finding)
    requires
        f.severity == Severity::Info,
    ensures
        terminal_score(fs.push(f)) == terminal_score(fs),
{
    assert(fs.push(f).drop_last() =~= fs);
    assert(fs.push(f).last() == f);
}

/// Whether findings are ordered most serious first.
pub open spec fn severity_sorted(s: Seq<Finding>) -> bool {
    forall|i: int, j: int| 0 <= i < j < s.len() ==> severity_rank(s[i].severity) <= severity_rank(s[j].severity)
}

proof fn lemma_cons_multiset<A>(a: A, t: Seq<A>)
    ensures
        (seq![a] + t).to_multiset() == t.to_multiset().insert(a),
{
    assert(seq![a] + t =~= t.insert(0, a));
}

proof fn lemma_insert_by_severity(s: Seq<Finding>, x: Finding)
    requires
        severity_sorted(s),
    ensures
        severity_sorted(insert_by_severity(s, x)),
        insert_by_severity(s, x).to_multiset() == s.to_multiset().insert(x),
        insert_by_severity(s, x).len() == s.len() + 1,
        forall|k: int| 0 <= k < insert_by_severity(s, x).len() ==> (#[trigger] insert_by_severity(s, x)[k] == x
            || s.contains(insert_by_severity(s, x)[k])),
    decreases s.len(),
{
    if s.len() == 0 {
        assert(seq![x].to_multiset() == Seq::<Finding>::empty().to_multiset().insert(x)) by {
            lemma_cons_multiset(x, Seq::<Finding>::empty());
            assert(seq![x] + Seq::<Finding>::empty() =~= seq![x]);
        }
    } else if severity_rank(x.severity) < severity_rank(s[0].severity) {
        lemma_cons_multiset(x, s);
        let r = seq![x] + s;
        assert forall|k: int| 0 <= k < r.len() implies (#[trigger] r[k] == x || s.contains(r[k])) by {
            if k > 0 {
                assert(r[k] == s[k - 1]);
            }
        }
    } else {
        let t = s.drop_first();
        lemma_insert_by_severity(t, x);
        let it = insert_by_severity(t, x);
        let r = seq![s[0]] + it;
        lemma_cons_multiset(s[0], it);
        assert(s =~= seq![s[0]] + t);
        lemma_cons_multiset(s[0], t);
        assert forall|k: int| 0 <= k < r.len() implies (#[trigger] r[k] == x || s.contains(r[k])) by {
            if k > 0 {
                assert(r[k] == it[k - 1]);
                if it[k - 1] != x {
                    let w = choose|w: int| 0 <= w < t.len() && t[w] == it[k - 1];
                    assert(s[w + 1] == t[w]);
                }
            } else {
                assert(s[0] == r[0]);
            }
        }
        assert forall|i: int, j: int| 0 <= i < j < r.len() implies severity_rank(r[i].severity) <= severity_rank(
            r[j].severity,
        ) by {
            if i == 0 {
                assert(r[j] == it[j - 1]);
                if it[j - 1] == x {
                } else {
                    let w = choose|w: int| 0 <= w < t.len() && t[w] == it[j - 1];
                    assert(s[w + 1] == t[w]);
                }
            } else {
                assert(r[i] == it[i - 1]);
                assert(r[j] == it[j - 1]);
            }
        }
    }
}

/// Sorting findings by severity orders them most serious first and keeps exactly the
/// same findings.
pub proof fn law_findings_sorted_by_severity(s: Seq<Finding>)
    ensures
        severity_sorted(sort_by_severity(s)),
        sort_by_severity(s).to_multiset() == s.to_multiset(),
    decreases s.len(),
{
    if s.len() > 0 {
        law_findings_sorted_by_severity(s.drop_last());
        lemma_insert_by_severity(sort_by_severity(s.drop_last()), s.last());
        assert(s =~= s.drop_last().push(s.last()));
    }
}

/// Whether summaries are ordered by count, largest first.
pub open spec fn count_sorted(s: Seq<(Seq<char>, nat, Seq<char>, Seq<char>, Seq<char>)>) -> bool {
    forall|i: int, j: int| 0 <= i < j < s.len() ==> s[i].1 >= s[j].1
}

proof fn lemma_insert_by_count(s: Seq<(Seq<char>, nat, Seq<char>, Seq<char>, Seq<char>)>, x: (Seq<char>, nat, Seq<char>, Seq<char>, Seq<char>))
    requires
        count_sorted(s),
    ensures
        count_sorted(insert_by_count(s, x)),
        insert_by_count(s, x).to_multiset() == s.to_multiset().insert(x),
        forall|k: int| 0 <= k < insert_by_count(s, x).len() ==> (#[trigger] insert_by_count(s, x)[k] == x
            || s.contains(insert_by_count(s, x)[k])),
    decreases s.len(),
{
    if s.len() == 0 {
        lemma_cons_multiset(x, Seq::<(Seq<char>, nat, Seq<char>, Seq<char>, Seq<char>)>::empty());
        assert(seq![x] + Seq::<(Seq<char>, nat, Seq<char>, Seq<char>, Seq<char>)>::empty() =~= seq![x]);
    } else if s[0].1 < x.1 {
        lemma_cons_multiset(x, s);
        let r = seq![x] + s;
        assert forall|k: int| 0 <= k < r.len() implies (#[trigger] r[k] == x || s.contains(r[k])) by {
            if k > 0 {
                assert(r[k] == s[k - 1]);
            }
        }
    } else {
        let t = s.drop_first();
        lemma_insert_by_count(t, x);
        let it = insert_by_count(t, x);
        let r = seq![s[0]] + it;
        lemma_cons_multiset(s[0], it);
        assert(s =~= seq![s[0]] + t);
        lemma_cons_multiset(s[0], t);
        assert forall|k: int| 0 <= k < r.len() implies (#[trigger] r[k] == x || s.contains(r[k])) by {
            if k > 0 {
                assert(r[k] == it[k - 1]);
                if it[k - 1] != x {
                    let w = choose|w: int| 0 <= w < t.len() && t[w] == it[k - 1];
                    assert(s[w + 1] == t[w]);
                }
            }
        }
        assert forall|i: int, j: int| 0 <= i < j < r.len() implies r[i].1 >= r[j].1 by {
            if i == 0 {
                assert(r[j] == it[j - 1]);
                if it[j - 1] == x {
                } else {
                    let w = choose|w: int| 0 <= w < t.len() && t[w] == it[j - 1];
                    assert(s[w + 1] == t[w]);
                }
            } else {
                assert(r[i] == it[i - 1]);
                assert(r[j] == it[j - 1]);
            }
        }
    }
}

/// The error summaries of a log collection come largest count first and are the same
/// summaries as before sorting.
pub proof fn law_top_errors_sorted(s: Seq<(Seq<char>, nat, Seq<char>, Seq<char>, Seq<char>)>)
    ensures
        count_sorted(sort_by_count(s)),
        sort_by_count(s).to_multiset() == s.to_multiset(),
    decreases s.len(),
{
    if s.len() > 0 {
        law_top_errors_sorted(s.drop_last());
        lemma_insert_by_count(sort_by_count(s.drop_last()), s.last());
        assert(s =~= s.drop_last().push(s.last()));
    }
}

/// A cluster whose partitions are all led by one broker is never reported as imbalanced.
pub proof fn law_single_leader_balanced(cs: Seq<(i32, nat)>)
    requires
        cs.len() == 1,
    ensures
        !imbalanced(cs),
{
    assert(max_count(cs) == cs[0].1);
    assert(cs.drop_last() =~= Seq::<(i32, nat)>::empty());
    assert(cs.last() == cs[0]);
    assert(sum_counts(cs.drop_last()) == 0);
    assert(sum_counts(cs) == cs[0].1);
}

/// Stored snapshot bytes read back as the JSON text that was stored: what `encode` stores
/// (`encoded`), read by `decode` (which gives `stored_text` of the bytes, `Ok` exactly when
/// that is some text), is the text again. The one exception is an uncompressed text that
/// itself starts with the gzip magic bytes, which `decode` takes for a gzip stream.
pub proof fn law_stored_snapshot_reads_back(compress: bool, json: Seq<u8>, stored: Seq<u8>)
    requires
        encoded(compress, json, stored),
        compress || !gzip_magic(json),
    ensures
        stored_text(stored) == Some(json),
{
}

/// A severity word names its severity whatever its case: `critical`, `high`, `medium`,
/// `low` and `info` give those severities in a task's answer.
pub proof fn law_task_severity_words(word: Seq<char>)
    ensures
        lowercase(word) == "critical"@ ==> task_severity_of_lower(lowercase(word)) == Severity::Critical,
        lowercase(word) == "high"@ ==> task_severity_of_lower(lowercase(word)) == Severity::High,
        lowercase(word) == "medium"@ ==> task_severity_of_lower(lowercase(word)) == Severity::Medium,
        lowercase(word) == "low"@ ==> task_severity_of_lower(lowercase(word)) == Severity::Low,
        lowercase(word) == "info"@ ==> task_severity_of_lower(lowercase(word)) == Severity::Info,
{
    lemma_severity_words_differ();
}

proof fn lemma_severity_words_differ()
    ensures
        "high"@ != "critical"@,
        "medium"@ != "critical"@ && "medium"@ != "high"@,
        "low"@ != "critical"@ && "low"@ != "high"@ && "low"@ != "medium"@,
        "info"@ != "critical"@ && "info"@ != "high"@ && "info"@ != "medium"@ && "info"@ != "low"@,
{
    reveal_strlit("critical");
    reveal_strlit("high");
    reveal_strlit("medium");
    reveal_strlit("low");
    reveal_strlit("info");
    assert("high"@.len() != "critical"@.len());
    assert("medium"@.len() != "critical"@.len() && "medium"@.len() != "high"@.len());
    assert("low"@.len() != "critical"@.len() && "low"@.len() != "high"@.len() && "low"@.len() != "medium"@.len());
    assert("info"@.len() != "critical"@.len() && "info"@[0] != "high"@[0] && "info"@.len() != "medium"@.len()
        && "info"@.len() != "low"@.len());
}

/// A task finding whose answer says its severity is medium (in any case) is medium; so is
/// one whose answer names no severity and matches no keyword, when the task's default
/// severity is medium.
pub proof fn law_medium_answers_are_medium(json: JsonValue, task: AnalysisTask)
    ensures
        (text_member(json, "severity"@) matches Some(w) && lowercase(w) == "medium"@) ==> answered_severity(json, task)
            == Severity::Medium,
        ({
            let t = match text_member(json, "title"@) { Some(t) => t, None => task.name@ };
            let d = match text_member(json, "description"@) { Some(d) => d, None => Seq::empty() };
            &&& text_member(json, "severity"@) is None
            &&& keyword_hit(lowercase(t) + " "@ + lowercase(d), task.severity_keywords.key_seq(), 0) is None
            &&& lowercase(task.default_severity@) == "medium"@
        }) ==> answered_severity(json, task) == Severity::Medium,
{
    lemma_severity_words_differ();
}

proof fn lemma_values_for_has(es: Seq<(Seq<char>, Seq<char>)>, k: Seq<char>, i: int)
    requires
        0 <= i < es.len(),
        es[i].0 == k,
    ensures
        values_for(es, k).len() >= 1,
    decreases es.len(),
{
    if i < es.len() - 1 {
        lemma_values_for_has(es.drop_last(), k, i);
    }
}

proof fn lemma_values_for_two(es: Seq<(Seq<char>, Seq<char>)>, k: Seq<char>, i: int, j: int)
    requires
        0 <= i < j < es.len(),
        es[i].0 == k,
        es[j].0 == k,
    ensures
        values_for(es, k).len() >= 2,
    decreases es.len(),
{
    if j == es.len() - 1 {
        lemma_values_for_has(es.drop_last(), k, i);
    } else {
        lemma_values_for_two(es.drop_last(), k, i, j);
    }
}

proof fn lemma_distinct_keys_has(es: Seq<(Seq<char>, Seq<char>)>, i: int)
    requires
        0 <= i < es.len(),
    ensures
        distinct_keys(es).contains(es[i].0),
    decreases es.len(),
{
    let r = distinct_keys(es.drop_last());
    let x = es.last().0;
    if i == es.len() - 1 {
        if !r.contains(x) {
            assert(r.push(x)[r.len() as int] == x);
        }
    } else {
        lemma_distinct_keys_has(es.drop_last(), i);
        if !r.contains(x) {
            let w = choose|w: int| 0 <= w < r.len() && r[w] == es[i].0;
            assert(r.push(x)[w] == es[i].0);
        }
    }
}

proof fn lemma_flagged_ids_has(es: Seq<(Seq<char>, Seq<char>)>, ids: Seq<Seq<char>>, id: Seq<char>)
    requires
        ids.contains(id),
        id_flagged(es, id),
    ensures
        flagged_ids(es, ids).contains(id),
    decreases ids.len(),
{
    let f = flagged_ids(es, ids.drop_last());
    if ids.last() == id {
        assert((f + seq![id])[f.len() as int] == id);
    } else {
        let w = choose|w: int| 0 <= w < ids.len() && ids[w] == id;
        assert(ids.drop_last()[w] == id);
        lemma_flagged_ids_has(es, ids.drop_last(), id);
        let v = choose|v: int| 0 <= v < f.len() && f[v] == id;
        let e = if id_flagged(es, ids.last()) { seq![ids.last()] } else { Seq::empty() };
        assert((f + e)[v] == id);
    }
}

/// A broker id that two `server.properties` files set is flagged, whatever its value: the
/// validator reports a broker-id finding for it (one finding per flagged id).
pub proof fn law_duplicate_broker_id_is_flagged(s: Snapshot, i: int, j: int)
    requires
        0 <= i < j < snapshot_id_entries(s).len(),
        snapshot_id_entries(s)[i].0 == snapshot_id_entries(s)[j].0,
    ensures
        snapshot_flagged_ids(s).contains(snapshot_id_entries(s)[i].0),
{
    let es = snapshot_id_entries(s);
    let id = es[i].0;
    lemma_values_for_two(es, id, i, j);
    lemma_distinct_keys_has(es, i);
    lemma_flagged_ids_has(es, distinct_keys(es), id);
}

proof fn lemma_flagged_in_topic_has(name: Seq<char>, ps: Seq<crate::collectors::PartitionInfo>, kind: u8, k: int)
    requires
        0 <= k < ps.len(),
        flag_kind(kind, ps[k]),
    ensures
        flagged_in_topic(name, ps, kind).contains((name, ps[k].id)),
    decreases ps.len(),
{
    let f = flagged_in_topic(name, ps.drop_last(), kind);
    let e = if flag_kind(kind, ps.last()) { seq![(name, ps.last().id)] } else { Seq::empty() };
    if k == ps.len() - 1 {
        assert((f + e)[f.len() as int] == (name, ps[k].id));
    } else {
        lemma_flagged_in_topic_has(name, ps.drop_last(), kind, k);
        let v = choose|v: int| 0 <= v < f.len() && f[v] == (name, ps[k].id);
        assert((f + e)[v] == (name, ps[k].id));
    }
}

proof fn lemma_flagged_has(ts: Seq<TopicInfo>, kind: u8, t: int, x: (Seq<char>, i32))
    requires
        0 <= t < ts.len(),
        flagged_in_topic(ts[t].name@, ts[t].partitions@, kind).contains(x),
    ensures
        flagged(ts, kind).contains(x),
    decreases ts.len(),
{
    let f = flagged(ts.drop_last(), kind);
    let e = flagged_in_topic(ts.last().name@, ts.last().partitions@, kind);
    if t == ts.len() - 1 {
        let v = choose|v: int| 0 <= v < e.len() && e[v] == x;
        assert((f + e)[f.len() + v] == x);
    } else {
        lemma_flagged_has(ts.drop_last(), kind, t, x);
        let v = choose|v: int| 0 <= v < f.len() && f[v] == x;
        assert((f + e)[v] == x);
    }
}

/// Every partition with at least two replicas and fewer than two of them in sync is
/// reported by the ISR shrinkage rule, which then gives a finding.
pub proof fn law_shrunk_isr_is_flagged(ts: Seq<TopicInfo>, t: int, k: int)
    requires
        0 <= t < ts.len(),
        0 <= k < ts[t].partitions@.len(),
        ts[t].partitions@[k].replicas@.len() >= 2,
        ts[t].partitions@[k].isr@.len() < 2,
    ensures
        flagged(ts, 2u8).contains((ts[t].name@, ts[t].partitions@[k].id)),
        flagged(ts, 2u8).len() > 0,
{
    lemma_flagged_in_topic_has(ts[t].name@, ts[t].partitions@, 2u8, k);
    lemma_flagged_has(ts, 2u8, t, (ts[t].name@, ts[t].partitions@[k].id));
}

/// A log file whose (lowercase) name holds `request` is a request log, unless the name
/// or path says server or controller, or the name says state or change.
pub proof fn law_request_logs_are_request_logs(path: Seq<char>, t: LogType)
    requires
        log_type_of_path_is(path, t),
        file_name_of(path) matches Some(n) && contains(lowercase(n), "request"@)
            && !contains(lowercase(n), "server"@) && !contains(lowercase(n), "controller"@)
            && !contains(lowercase(n), "state"@) && !contains(lowercase(n), "change"@),
        !contains(lowercase(path), "server"@),
        !contains(lowercase(path), "controller"@),
    ensures
        t == LogType::Request,
{
}

proof fn lemma_count_mode_positive(cs: Seq<(Seq<char>, Seq<char>)>, m: ClusterMode, i: int)
    requires
        0 <= i < cs.len(),
        classify(cs[i].1) == m,
    ensures
        count_mode(cs, m) > 0,
    decreases cs.len(),
{
    if i < cs.len() - 1 {
        lemma_count_mode_positive(cs.drop_last(), m, i);
    }
}

proof fn lemma_count_mode_zero(cs: Seq<(Seq<char>, Seq<char>)>, m: ClusterMode)
    requires
        forall|j: int| 0 <= j < cs.len() ==> classify(#[trigger] cs[j].1) != m,
    ensures
        count_mode(cs, m) == 0,
    decreases cs.len(),
{
    if cs.len() > 0 {
        assert forall|j: int| 0 <= j < cs.drop_last().len() implies classify(#[trigger] cs.drop_last()[j].1) != m by {
            assert(cs.drop_last()[j] == cs[j]);
        }
        lemma_count_mode_zero(cs.drop_last(), m);
        assert(classify(cs[cs.len() - 1].1) != m);
    }
}

/// The cluster is in KRaft mode when some `server.properties` indicates KRaft and none
/// indicates ZooKeeper, whatever the files that indicate neither (a broker-only node, say).
pub proof fn law_kraft_when_no_zookeeper(cs: Seq<(Seq<char>, Seq<char>)>, i: int)
    requires
        0 <= i < cs.len(),
        kraft_mode(properties_of(cs[i].1)),
        forall|j: int| 0 <= j < cs.len() ==> !zookeeper_mode(properties_of(#[trigger] cs[j].1)),
    ensures
        overall_mode(cs) == ClusterMode::Kraft,
{
    assert(classify(cs[i].1) == ClusterMode::Kraft);
    lemma_count_mode_positive(cs, ClusterMode::Kraft, i);
    assert forall|j: int| 0 <= j < cs.len() implies classify(#[trigger] cs[j].1) != ClusterMode::Zookeeper by {
        assert(!zookeeper_mode(properties_of(cs[j].1)));
    }
    lemma_count_mode_zero(cs, ClusterMode::Zookeeper);
}

/// The cluster is in ZooKeeper mode when some `server.properties` indicates ZooKeeper and
/// none indicates KRaft (a file that indicates both counts as ZooKeeper).
pub proof fn law_zookeeper_when_no_kraft(cs: Seq<(Seq<char>, Seq<char>)>, i: int)
    requires
        0 <= i < cs.len(),
        zookeeper_mode(properties_of(cs[i].1)),
        forall|j: int| 0 <= j < cs.len() ==> zookeeper_mode(properties_of(#[trigger] cs[j].1)) || !kraft_mode(
            properties_of(cs[j].1),
        ),
    ensures
        overall_mode(cs) == ClusterMode::Zookeeper,
{
    assert(classify(cs[i].1) == ClusterMode::Zookeeper);
    lemma_count_mode_positive(cs, ClusterMode::Zookeeper, i);
    assert forall|j: int| 0 <= j < cs.len() implies classify(#[trigger] cs[j].1) != ClusterMode::Kraft by {
        assert(zookeeper_mode(properties_of(cs[j].1)) || !kraft_mode(properties_of(cs[j].1)));
    }
    lemma_count_mode_zero(cs, ClusterMode::Kraft);
}

} // verus!
