//! The deterministic health rules: partitions without enough in-sync replicas
//! or without a leader, leaders spread unevenly over brokers, and error-heavy
//! logs, each turned into a finding with its evidence and remediation.
use vstd::prelude::*;
use crate::text::{owned, concat, starts_with};
use crate::numbers::{decimal, decimal_string, decimal_string_wide, signed_decimal};
use crate::json::JsonValue;
use crate::snapshot::{random_id, 
    Severity, Category, RiskLevel, Finding, Evidence, MetricEvidence, LogEvidence, Remediation,
    RemediationStep,
};
use crate::collectors::{AdminCollectorOutput, TopicInfo, PartitionInfo, LogSummary, ErrorSummary};

verus! {

/// What an analyzer can fail on.
#[derive(Debug, Clone, PartialEq, Eq)]
pub enum AnalyzerError {
    AnalysisFailed(String),
    InvalidData(String),
    RuleError(String),
    Other(String),
}

impl AnalyzerError {
    /// The error's message, as it is displayed.
    pub fn message(&self) -> (r: String)
        ensures
            r@ == (match self {
                AnalyzerError::AnalysisFailed(m) => "Analysis failed: "@ + m@,
                AnalyzerError::InvalidData(m) => "Invalid data: "@ + m@,
                AnalyzerError::RuleError(m) => "Rule evaluation error: "@ + m@,
                AnalyzerError::Other(m) => "Other error: "@ + m@,
            }),
    {
        match self {
            AnalyzerError::AnalysisFailed(m) => concat("Analysis failed: ", m.as_str()),
            AnalyzerError::InvalidData(m) => concat("Invalid data: ", m.as_str()),
            AnalyzerError::RuleError(m) => concat("Rule evaluation error: ", m.as_str()),
            AnalyzerError::Other(m) => concat("Other error: ", m.as_str()),
        }
    }
}

/// A finding identifier: the prefix and a random identifier.
fn finding_id(prefix: &str) -> (r: String)
    ensures
        starts_with(r@, prefix@),
        r@.len() == prefix@.len() + 36,
{
    let u = random_id();
    let r = concat(prefix, u.as_str());
    assert(r@.subrange(0, prefix@.len() as int) =~= prefix@);
    r
}

/// A remediation step.
pub fn step(order: u32, description: &str, command: Option<&str>, verification: Option<&str>, can_automate: bool) -> (s: RemediationStep)
    ensures
        s.order == order,
        s.description@ == description@,
        s.can_automate == can_automate,
        match command {
            Some(c) => s.command matches Some(x) && x@ == c@,
            None => s.command is None,
        },
        match verification {
            Some(v) => s.verification matches Some(x) && x@ == v@,
            None => s.verification is None,
        },
{
    RemediationStep {
        order,
        description: owned(description),
        command: match command {
            Some(c) => Some(owned(c)),
            None => None,
        },
        verification: match verification {
            Some(v) => Some(owned(v)),
            None => None,
        },
        can_automate,
    }
}

/// A metric of a finding.
fn metric(name: &str, value: String, threshold: Option<String>, unit: &str, source: &str, timestamp: &str) -> (m: MetricEvidence)
    ensures
        m.name@ == name@,
        m.value == value,
        m.threshold == threshold,
        m.unit matches Some(u) && u@ == unit@,
        m.source@ == source@,
        m.timestamp@ == timestamp@,
{
    MetricEvidence {
        name: owned(name),
        value,
        threshold,
        unit: Some(owned(unit)),
        source: owned(source),
        timestamp: owned(timestamp),
    }
}

/// A whole number as JSON writes it.
pub open spec fn json_int(n: int) -> JsonValue {
    if n >= 0 { JsonValue::UInt(n as u64) } else { JsonValue::Int(n as i64) }
}

fn json_i32(n: i32) -> (j: JsonValue)
    ensures
        j == json_int(n as int),
{
    if n >= 0 {
        JsonValue::UInt(n as u64)
    } else {
        JsonValue::Int(n as i64)
    }
}

/// Whether a partition has the problem a rule looks for: too few in-sync replicas (0), no
/// leader (1), or fewer than two in sync out of several (2).
pub open spec fn flag_kind(kind: u8, p: PartitionInfo) -> bool {
    if kind == 0 {
        under_replicated(p)
    } else if kind == 1 {
        offline(p)
    } else {
        shrunk(p)
    }
}

/// The partitions of one topic that have problem `kind`, as (topic, partition id) pairs.
pub open spec fn flagged_in_topic(name: Seq<char>, ps: Seq<PartitionInfo>, kind: u8) -> Seq<(Seq<char>, i32)>
    decreases ps.len(),
{
    if ps.len() == 0 {
        Seq::empty()
    } else {
        flagged_in_topic(name, ps.drop_last(), kind) + if flag_kind(kind, ps.last()) {
            seq![(name, ps.last().id)]
        } else {
            Seq::empty()
        }
    }
}

/// The partitions of all topics that have problem `kind`, topic by topic.
pub open spec fn flagged(ts: Seq<TopicInfo>, kind: u8) -> Seq<(Seq<char>, i32)>
    decreases ts.len(),
{
    if ts.len() == 0 {
        Seq::empty()
    } else {
        flagged(ts.drop_last(), kind) + flagged_in_topic(ts.last().name@, ts.last().partitions@, kind)
    }
}

/// A partition with fewer in-sync replicas than replicas.
pub open spec fn under_replicated(p: PartitionInfo) -> bool {
    p.isr@.len() < p.replicas@.len()
}

/// A partition without a leader.
pub open spec fn offline(p: PartitionInfo) -> bool {
    p.leader is None
}

/// A partition with several replicas but fewer than two in sync.
pub open spec fn shrunk(p: PartitionInfo) -> bool {
    p.isr@.len() < 2 && p.replicas@.len() >= 2
}

/// The partitions of the admin output that have problem `kind`, in topic and partition
/// order, each with its number of in-sync replicas.
fn flagged_partitions(admin: &AdminCollectorOutput, kind: u8) -> (r: Vec<(String, i32, usize)>)
    ensures
        r@.map_values(|x: (String, i32, usize)| (x.0@, x.1)) == flagged(admin.topics@, kind),
{
    let ts = &admin.topics;
    let mut r: Vec<(String, i32, usize)> = Vec::new();
    let mut t: usize = 0;
    assert(ts@.take(0) =~= Seq::<TopicInfo>::empty());
    while t < ts.len()
        invariant
            t <= ts@.len(),
            r@.map_values(|x: (String, i32, usize)| (x.0@, x.1)) == flagged(ts@.take(t as int), kind),
        decreases ts@.len() - t,
    {
        let topic = &ts[t];
        let ghost base = r@.map_values(|x: (String, i32, usize)| (x.0@, x.1));
        let mut k: usize = 0;
        assert(topic.partitions@.take(0) =~= Seq::<PartitionInfo>::empty());
        assert(base + flagged_in_topic(topic.name@, topic.partitions@.take(0), kind) =~= base);
        while k < topic.partitions.len()
            invariant
                k <= topic.partitions@.len(),
                r@.map_values(|x: (String, i32, usize)| (x.0@, x.1)) == base + flagged_in_topic(
                    topic.name@,
                    topic.partitions@.take(k as int),
                    kind,
                ),
            decreases topic.partitions@.len() - k,
        {
            let p = &topic.partitions[k];
            proof {
                assert(topic.partitions@.take(k + 1).drop_last() =~= topic.partitions@.take(k as int));
                assert(topic.partitions@.take(k + 1).last() == topic.partitions@[k as int]);
            }
            let is_bad = if kind == 0 {
                p.isr.len() < p.replicas.len()
            } else if kind == 1 {
                p.leader.is_none()
            } else {
                p.isr.len() < 2 && p.replicas.len() >= 2
            };
            let ghost before = r@.map_values(|x: (String, i32, usize)| (x.0@, x.1));
            if is_bad {
                let entry = (topic.name.clone(), p.id, p.isr.len());
                r.push(entry);
                proof {
                    assert(r@.map_values(|x: (String, i32, usize)| (x.0@, x.1)) =~= before.push((topic.name@, p.id)));
                }
            } else {
                proof {
                    assert(flagged_in_topic(topic.name@, topic.partitions@.take(k + 1), kind) =~= flagged_in_topic(
                        topic.name@,
                        topic.partitions@.take(k as int),
                        kind,
                    ) + Seq::empty());
                }
            }
            k = k + 1;
        }
        proof {
            assert(topic.partitions@.take(k as int) =~= topic.partitions@);
            assert(ts@.take(t + 1).drop_last() =~= ts@.take(t as int));
            assert(ts@.take(t + 1).last() == ts@[t as int]);
        }
        t = t + 1;
    }
    assert(ts@.take(t as int) =~= ts@);
    r
}

/// The flagged partitions as JSON `[topic, partition]` pairs, under `key`.
fn pairs_raw(key: &str, r: &Vec<(String, i32, usize)>, with_isr: bool) -> (j: JsonValue)
    ensures
        j matches JsonValue::Object(m) && m@.len() == 1 && m@[0].0@ == key@ && (m@[0].1 matches JsonValue::Array(a)
            && a@.len() == r@.len()),
{
    let mut items: Vec<JsonValue> = Vec::new();
    let mut i: usize = 0;
    while i < r.len()
        invariant
            i <= r@.len(),
            items@.len() == i,
        decreases r@.len() - i,
    {
        let mut pair: Vec<JsonValue> = Vec::new();
        pair.push(JsonValue::String(r[i].0.clone()));
        pair.push(json_i32(r[i].1));
        if with_isr {
            pair.push(JsonValue::UInt(r[i].2 as u64));
        }
        items.push(JsonValue::Array(pair));
        i = i + 1;
    }
    let mut m: Vec<(String, JsonValue)> = Vec::new();
    m.push((owned(key), JsonValue::Array(items)));
    JsonValue::Object(m)
}

/// The finding of the under-replicated partitions rule, when any partition has fewer
/// in-sync replicas than replicas.
pub open spec fn under_replicated_finding(f: Finding, n: nat, timestamp: Seq<char>) -> bool {
    &&& starts_with(f.id@, "FND-001-"@)
    &&& f.severity == Severity::High
    &&& f.category == Category::Availability
    &&& f.title@ == "Under-replicated partitions detected: "@ + decimal(n) + " affected"@
    &&& f.evidence.metrics@.len() == 1
    &&& f.evidence.metrics@[0].name@ == "under_replicated_partitions"@
    &&& f.evidence.metrics@[0].value@ == decimal(n)
    &&& f.evidence.metrics@[0].timestamp@ == timestamp
    &&& f.remediation.steps@.len() == 3
    &&& f.remediation.risk_level == RiskLevel::Medium
    &&& !f.remediation.requires_downtime
    &&& f.remediation.estimated_duration_minutes == Some(15u32)
}

/// The finding of the offline partitions rule, when any partition has no leader.
pub open spec fn offline_finding(f: Finding, n: nat, timestamp: Seq<char>) -> bool {
    &&& starts_with(f.id@, "FND-002-"@)
    &&& f.severity == Severity::Critical
    &&& f.category == Category::Availability
    &&& f.title@ == "Offline partitions detected: "@ + decimal(n) + " affected"@
    &&& f.evidence.metrics@.len() == 1
    &&& f.evidence.metrics@[0].name@ == "offline_partitions"@
    &&& f.evidence.metrics@[0].value@ == decimal(n)
    &&& f.evidence.metrics@[0].timestamp@ == timestamp
    &&& f.remediation.steps@.len() == 3
    &&& f.remediation.risk_level == RiskLevel::High
    &&& !f.remediation.requires_downtime
    &&& f.remediation.estimated_duration_minutes == Some(30u32)
}

/// The finding of the ISR shrinkage rule, when any partition with several replicas has
/// fewer than two in sync.
pub open spec fn shrinkage_finding(f: Finding, n: nat, timestamp: Seq<char>) -> bool {
    &&& starts_with(f.id@, "FND-004-"@)
    &&& f.severity == Severity::High
    &&& f.category == Category::Availability
    &&& f.title@ == "ISR shrinkage detected: "@ + decimal(n) + " partitions at risk"@
    &&& f.evidence.metrics@.len() == 1
    &&& f.evidence.metrics@[0].name@ == "partitions_with_shrunk_isr"@
    &&& f.evidence.metrics@[0].value@ == decimal(n)
    &&& f.evidence.metrics@[0].timestamp@ == timestamp
    &&& f.remediation.steps@.len() == 3
    &&& f.remediation.risk_level == RiskLevel::Medium
    &&& !f.remediation.requires_downtime
    &&& f.remediation.estimated_duration_minutes == Some(20u32)
}

/// The rule's answer when the snapshot holds no admin data.
pub open spec fn no_admin_data(e: AnalyzerError) -> bool {
    e matches AnalyzerError::InvalidData(m) && m@ == "No admin data available"@
}

/// Partitions with fewer in-sync replicas than replicas.
pub fn under_replicated_partitions_rule(admin: Option<&AdminCollectorOutput>, timestamp: &str) -> (r: Result<Option<Finding>, AnalyzerError>)
    ensures
        match admin {
            None => r matches Err(e) && no_admin_data(e),
            Some(a) => r matches Ok(o) && match o {
                None => flagged(a.topics@, 0u8).len() == 0,
                Some(f) => flagged(a.topics@, 0u8).len() > 0 && under_replicated_finding(
                    f,
                    flagged(a.topics@, 0u8).len(),
                    timestamp@,
                ),
            },
        },
{
    let admin = match admin {
        Some(a) => a,
        None => return Err(AnalyzerError::InvalidData(owned("No admin data available"))),
    };
    let list = flagged_partitions(admin, 0);
    let n = list.len();
    if n == 0 {
        return Ok(None);
    }
    let count = decimal_string(n as u64);
    let title = concat(concat("Under-replicated partitions detected: ", count.as_str()).as_str(), " affected");
    let description = concat(
        concat("Found ", count.as_str()).as_str(),
        " partitions with ISR count less than replica count. This indicates potential data loss risk.",
    );
    let mut metrics: Vec<MetricEvidence> = Vec::new();
    metrics.push(metric("under_replicated_partitions", count, Some(owned("0")), "partitions", "admin", timestamp));
    let mut steps: Vec<RemediationStep> = Vec::new();
    steps.push(step(1, "Check broker health and logs for errors", Some("kafka-broker-api-versions.sh --bootstrap-server localhost:9092"), Some("All brokers should respond"), true));
    steps.push(step(2, "Review and fix any disk space issues", Some("df -h /var/kafka-logs"), Some("Disk usage should be below 85%"), false));
    steps.push(step(3, "Force re-election if needed", Some("kafka-leader-election.sh --bootstrap-server localhost:9092 --election-type preferred --all-topic-partitions"), Some("Check ISR list again"), true));
    Ok(Some(Finding {
        id: finding_id("FND-001-"),
        severity: Severity::High,
        category: Category::Availability,
        title,
        description,
        impact: owned("Reduced fault tolerance. If additional brokers fail, data loss may occur."),
        evidence: Evidence {
            metrics,
            logs: Vec::new(),
            configs: Vec::new(),
            raw_data: Some(pairs_raw("affected_partitions", &list, false)),
        },
        root_cause: Some(owned("Possible causes: broker failures, network issues, disk problems, or high load")),
        remediation: Remediation {
            steps,
            script: None,
            risk_level: RiskLevel::Medium,
            requires_downtime: false,
            estimated_duration_minutes: Some(15),
            rollback_plan: None,
        },
        metadata: Vec::new(),
    }))
}

/// Partitions without a leader.
pub fn offline_partitions_rule(admin: Option<&AdminCollectorOutput>, timestamp: &str) -> (r: Result<Option<Finding>, AnalyzerError>)
    ensures
        match admin {
            None => r matches Err(e) && no_admin_data(e),
            Some(a) => r matches Ok(o) && match o {
                None => flagged(a.topics@, 1u8).len() == 0,
                Some(f) => flagged(a.topics@, 1u8).len() > 0 && offline_finding(
                    f,
                    flagged(a.topics@, 1u8).len(),
                    timestamp@,
                ),
            },
        },
{
    let admin = match admin {
        Some(a) => a,
        None => return Err(AnalyzerError::InvalidData(owned("No admin data available"))),
    };
    let list = flagged_partitions(admin, 1);
    let n = list.len();
    if n == 0 {
        return Ok(None);
    }
    let count = decimal_string(n as u64);
    let title = concat(concat("Offline partitions detected: ", count.as_str()).as_str(), " affected");
    let description = concat(
        concat("Found ", count.as_str()).as_str(),
        " partitions without a leader. These partitions are unavailable for reads and writes.",
    );
    let mut metrics: Vec<MetricEvidence> = Vec::new();
    metrics.push(metric("offline_partitions", count, Some(owned("0")), "partitions", "admin", timestamp));
    let mut steps: Vec<RemediationStep> = Vec::new();
    steps.push(step(1, "Identify and restart failed brokers", Some("systemctl status kafka"), Some("All brokers should be running"), false));
    steps.push(step(2, "Check for corrupted log segments", Some("kafka-log-dirs.sh --describe --bootstrap-server localhost:9092"), Some("No corrupted segments"), true));
    steps.push(step(3, "Use unclean leader election as last resort", Some("kafka-leader-election.sh --bootstrap-server localhost:9092 --election-type unclean --topic <topic> --partition <partition>"), Some("Partition has a leader"), false));
    Ok(Some(Finding {
        id: finding_id("FND-002-"),
        severity: Severity::Critical,
        category: Category::Availability,
        title,
        description,
        impact: owned("Complete unavailability of affected partitions. Applications cannot produce or consume from these partitions."),
        evidence: Evidence {
            metrics,
            logs: Vec::new(),
            configs: Vec::new(),
            raw_data: Some(pairs_raw("offline_partitions", &list, false)),
        },
        root_cause: Some(owned("All replicas for these partitions are down or unreachable")),
        remediation: Remediation {
            steps,
            script: None,
            risk_level: RiskLevel::High,
            requires_downtime: false,
            estimated_duration_minutes: Some(30),
            rollback_plan: Some(owned("If unclean election was used, verify data consistency")),
        },
        metadata: Vec::new(),
    }))
}

/// Partitions with several replicas but fewer than two in sync.
pub fn isr_shrinkage_rule(admin: Option<&AdminCollectorOutput>, timestamp: &str) -> (r: Result<Option<Finding>, AnalyzerError>)
    ensures
        match admin {
            None => r matches Err(e) && no_admin_data(e),
            Some(a) => r matches Ok(o) && match o {
                None => flagged(a.topics@, 2u8).len() == 0,
                Some(f) => flagged(a.topics@, 2u8).len() > 0 && shrinkage_finding(
                    f,
                    flagged(a.topics@, 2u8).len(),
                    timestamp@,
                ),
            },
        },
{
    let admin = match admin {
        Some(a) => a,
        None => return Err(AnalyzerError::InvalidData(owned("No admin data available"))),
    };
    let list = flagged_partitions(admin, 2);
    let n = list.len();
    if n == 0 {
        return Ok(None);
    }
    let count = decimal_string(n as u64);
    let title = concat(concat("ISR shrinkage detected: ", count.as_str()).as_str(), " partitions at risk");
    let description = concat(
        concat("Found ", count.as_str()).as_str(),
        " partitions with ISR count less than 2. This reduces durability guarantees.",
    );
    let mut metrics: Vec<MetricEvidence> = Vec::new();
    metrics.push(metric("partitions_with_shrunk_isr", count, Some(owned("0")), "partitions", "admin", timestamp));
    let mut steps: Vec<RemediationStep> = Vec::new();
    steps.push(step(1, "Check replica lag", Some("kafka-replica-verification.sh --broker-list localhost:9092 --topic-white-list '.*'"), Some("Identify lagging replicas"), true));
    steps.push(step(2, "Increase replica fetch settings if needed", Some("Update replica.fetch.max.bytes and replica.fetch.wait.max.ms"), Some("Replicas catching up"), false));
    steps.push(step(3, "Check network connectivity between brokers", Some("ping and network tests between brokers"), Some("Low latency and no packet loss"), false));
    Ok(Some(Finding {
        id: finding_id("FND-004-"),
        severity: Severity::High,
        category: Category::Availability,
        title,
        description,
        impact: owned("Reduced durability. If the single ISR broker fails, data loss will occur with acks=all"),
        evidence: Evidence {
            metrics,
            logs: Vec::new(),
            configs: Vec::new(),
            raw_data: Some(pairs_raw("affected_partitions", &list, true)),
        },
        root_cause: Some(owned("Brokers falling behind on replication due to network, disk, or load issues")),
        remediation: Remediation {
            steps,
            script: None,
            risk_level: RiskLevel::Medium,
            requires_downtime: false,
            estimated_duration_minutes: Some(20),
            rollback_plan: None,
        },
        metadata: Vec::new(),
    }))
}


/// The leaders of a topic's partitions that have one, in order.
pub open spec fn leaders_in(ps: Seq<PartitionInfo>) -> Seq<i32>
    decreases ps.len(),
{
    if ps.len() == 0 {
        Seq::empty()
    } else {
        leaders_in(ps.drop_last()) + match ps.last().leader {
            Some(l) => seq![l],
            None => Seq::empty(),
        }
    }
}

/// The leaders of all partitions, topic by topic.
pub open spec fn leaders(ts: Seq<TopicInfo>) -> Seq<i32>
    decreases ts.len(),
{
    if ts.len() == 0 {
        Seq::empty()
    } else {
        leaders(ts.drop_last()) + leaders_in(ts.last().partitions@)
    }
}

/// The position of broker `b` among the counts, at or after `i`.
pub open spec fn broker_from(cs: Seq<(i32, nat)>, b: i32, i: int) -> Option<int>
    decreases cs.len() - i,
{
    if i < 0 || i >= cs.len() {
        None
    } else if cs[i].0 == b {
        Some(i)
    } else {
        broker_from(cs, b, i + 1)
    }
}

/// The leader counts per broker, brokers in the order first seen.
pub open spec fn leader_counts(ls: Seq<i32>) -> Seq<(i32, nat)>
    decreases ls.len(),
{
    if ls.len() == 0 {
        Seq::empty()
    } else {
        let cs = leader_counts(ls.drop_last());
        let b = ls.last();
        match broker_from(cs, b, 0) {
            Some(i) => cs.update(i, (b, cs[i].1 + 1)),
            None => cs.push((b, 1nat)),
        }
    }
}

/// The largest count.
pub open spec fn max_count(cs: Seq<(i32, nat)>) -> nat
    decreases cs.len(),
{
    if cs.len() == 0 {
        0
    } else if cs.len() == 1 {
        cs[0].1
    } else {
        let m = max_count(cs.drop_last());
        if cs.last().1 > m { cs.last().1 } else { m }
    }
}

/// The smallest count.
pub open spec fn min_count(cs: Seq<(i32, nat)>) -> nat
    decreases cs.len(),
{
    if cs.len() == 0 {
        0
    } else if cs.len() == 1 {
        cs[0].1
    } else {
        let m = min_count(cs.drop_last());
        if cs.last().1 < m { cs.last().1 } else { m }
    }
}

/// The sum of the counts.
pub open spec fn sum_counts(cs: Seq<(i32, nat)>) -> nat
    decreases cs.len(),
{
    if cs.len() == 0 {
        0
    } else {
        sum_counts(cs.drop_last()) + cs.last().1
    }
}

/// Leadership is imbalanced when the busiest broker leads more than 20% above the
/// (whole-number) average.
pub open spec fn imbalanced(cs: Seq<(i32, nat)>) -> bool {
    cs.len() > 0 && 5 * max_count(cs) > 6 * (sum_counts(cs) / cs.len())
}

/// A tenth-precision number `t / 10` in decimal.
pub open spec fn tenths_text(t: nat) -> Seq<char> {
    if t % 10 == 0 {
        decimal(t / 10)
    } else {
        decimal(t / 10) + seq!['.'] + decimal(t % 10)
    }
}

/// The finding of the leader imbalance rule.
pub open spec fn imbalance_finding(f: Finding, cs: Seq<(i32, nat)>, timestamp: Seq<char>) -> bool {
    let avg = sum_counts(cs) / cs.len();
    &&& starts_with(f.id@, "FND-003-"@)
    &&& f.severity == Severity::Medium
    &&& f.category == Category::Performance
    &&& f.title@ == "Leader distribution imbalance detected"@
    &&& f.description@ == "Leader distribution is uneven across brokers. Max: "@ + decimal(max_count(cs)) + ", Min: "@
        + decimal(min_count(cs)) + ", Avg: "@ + decimal(avg)
    &&& f.evidence.metrics@.len() == 2
    &&& f.evidence.metrics@[0].name@ == "max_leaders_per_broker"@
    &&& f.evidence.metrics@[0].value@ == decimal(max_count(cs))
    &&& f.evidence.metrics@[0].threshold matches Some(t) && t@ == tenths_text(12 * avg)
    &&& f.evidence.metrics@[1].name@ == "min_leaders_per_broker"@
    &&& f.evidence.metrics@[1].value@ == decimal(min_count(cs))
    &&& f.evidence.metrics@[1].threshold is None
    &&& f.remediation.steps@.len() == 2
    &&& f.remediation.risk_level == RiskLevel::Low
    &&& f.remediation.estimated_duration_minutes == Some(5u32)
}

proof fn lemma_counts_bounds(cs: Seq<(i32, nat)>)
    ensures
        max_count(cs) <= sum_counts(cs),
        min_count(cs) <= max_count(cs),
    decreases cs.len(),
{
    if cs.len() > 1 {
        lemma_counts_bounds(cs.drop_last());
    }
}

proof fn lemma_sum_counts(ls: Seq<i32>)
    ensures
        sum_counts(leader_counts(ls)) == ls.len(),
        leader_counts(ls).len() <= ls.len(),
    decreases ls.len(),
{
    if ls.len() > 0 {
        lemma_sum_counts(ls.drop_last());
        let cs = leader_counts(ls.drop_last());
        let b = ls.last();
        match broker_from(cs, b, 0) {
            Some(i) => {
                lemma_broker_from(cs, b, 0);
                lemma_sum_update(cs, i, (b, cs[i].1 + 1));
            },
            None => {
                assert(cs.push((b, 1nat)).drop_last() =~= cs);
            },
        }
    }
}

proof fn lemma_broker_from(cs: Seq<(i32, nat)>, b: i32, i: int)
    ensures
        match broker_from(cs, b, i) {
            Some(j) => i <= j < cs.len() && cs[j].0 == b,
            None => true,
        },
    decreases cs.len() - i,
{
    if 0 <= i < cs.len() && cs[i].0 != b {
        lemma_broker_from(cs, b, i + 1);
    }
}

proof fn lemma_sum_update(cs: Seq<(i32, nat)>, i: int, x: (i32, nat))
    requires
        0 <= i < cs.len(),
    ensures
        sum_counts(cs.update(i, x)) == sum_counts(cs) - cs[i].1 + x.1,
    decreases cs.len(),
{
    if i < cs.len() - 1 {
        assert(cs.update(i, x).drop_last() =~= cs.drop_last().update(i, x));
        lemma_sum_update(cs.drop_last(), i, x);
    } else {
        assert(cs.update(i, x).drop_last() =~= cs.drop_last());
    }
}

fn leader_positions(admin: &AdminCollectorOutput) -> (r: Vec<i32>)
    ensures
        r@ == leaders(admin.topics@),
{
    let ts = &admin.topics;
    let mut r: Vec<i32> = Vec::new();
    let mut t: usize = 0;
    assert(ts@.take(0) =~= Seq::<TopicInfo>::empty());
    while t < ts.len()
        invariant
            t <= ts@.len(),
            r@ == leaders(ts@.take(t as int)),
        decreases ts@.len() - t,
    {
        let ps = &ts[t].partitions;
        let ghost base = r@;
        let mut k: usize = 0;
        assert(ps@.take(0) =~= Seq::<PartitionInfo>::empty());
        assert(base + leaders_in(ps@.take(0)) =~= base);
        while k < ps.len()
            invariant
                k <= ps@.len(),
                r@ == base + leaders_in(ps@.take(k as int)),
            decreases ps@.len() - k,
        {
            proof {
                assert(ps@.take(k + 1).drop_last() =~= ps@.take(k as int));
                assert(ps@.take(k + 1).last() == ps@[k as int]);
            }
            match ps[k].leader {
                Some(l) => {
                    r.push(l);
                },
                None => {},
            }
            proof {
                assert(r@ =~= base + leaders_in(ps@.take(k + 1)));
            }
            k = k + 1;
        }
        proof {
            assert(ps@.take(k as int) =~= ps@);
            assert(ts@.take(t + 1).drop_last() =~= ts@.take(t as int));
            assert(ts@.take(t + 1).last() == ts@[t as int]);
        }
        t = t + 1;
    }
    assert(ts@.take(t as int) =~= ts@);
    r
}

/// The leader counts per broker, brokers in the order first seen.
pub fn count_leaders(ls: &Vec<i32>) -> (r: Vec<(i32, usize)>)
    ensures
        r@.map_values(|c: (i32, usize)| (c.0, c.1 as nat)) == leader_counts(ls@),
{
    let mut cs: Vec<(i32, usize)> = Vec::new();
    let mut i: usize = 0;
    assert(ls@.take(0) =~= Seq::<i32>::empty());
    while i < ls.len()
        invariant
            i <= ls@.len(),
            cs@.map_values(|c: (i32, usize)| (c.0, c.1 as nat)) == leader_counts(ls@.take(i as int)),
            sum_counts(leader_counts(ls@.take(i as int))) == i,
        decreases ls@.len() - i,
    {
        let ghost cv = cs@.map_values(|c: (i32, usize)| (c.0, c.1 as nat));
        let b = ls[i];
        proof {
            assert(ls@.take(i + 1).drop_last() =~= ls@.take(i as int));
            assert(ls@.take(i + 1).last() == b);
            lemma_sum_counts(ls@.take(i + 1));
        }
        let mut j: usize = 0;
        while j < cs.len() && cs[j].0 != b
            invariant
                j <= cs@.len(),
                cv == cs@.map_values(|c: (i32, usize)| (c.0, c.1 as nat)),
                broker_from(cv, b, 0) == broker_from(cv, b, j as int),
            decreases cs@.len() - j,
        {
            j = j + 1;
        }
        if j < cs.len() {
            proof {
                lemma_broker_from(cv, b, 0);
                lemma_counts_bounds(cv);
                lemma_single_le_sum(cv, j as int);
            }
            let c = cs[j].1;
            cs.set(j, (b, c + 1));
            assert(cs@.map_values(|c: (i32, usize)| (c.0, c.1 as nat)) =~= cv.update(j as int, (b, cv[j as int].1 + 1)));
        } else {
            cs.push((b, 1));
            assert(cs@.map_values(|c: (i32, usize)| (c.0, c.1 as nat)) =~= cv.push((b, 1nat)));
        }
        i = i + 1;
    }
    assert(ls@.take(i as int) =~= ls@);
    cs
}

proof fn lemma_single_le_sum(cs: Seq<(i32, nat)>, j: int)
    requires
        0 <= j < cs.len(),
    ensures
        cs[j].1 <= sum_counts(cs),
    decreases cs.len(),
{
    if j < cs.len() - 1 {
        lemma_single_le_sum(cs.drop_last(), j);
    }
}

fn tenths_string(t: u128) -> (r: String)
    ensures
        r@ == tenths_text(t as nat),
{
    if t % 10 == 0 {
        decimal_string_wide(t / 10)
    } else {
        let mut r = decimal_string_wide(t / 10);
        crate::text::push_char(&mut r, '.');
        let d = decimal_string_wide(t % 10);
        let r2 = concat(r.as_str(), d.as_str());
        r2
    }
}

/// Leaders spread unevenly over the brokers.
pub fn leader_imbalance_rule(admin: Option<&AdminCollectorOutput>, timestamp: &str) -> (r: Result<Option<Finding>, AnalyzerError>)
    ensures
        match admin {
            None => r matches Err(e) && no_admin_data(e),
            Some(a) => r matches Ok(o) && match o {
                None => !imbalanced(leader_counts(leaders(a.topics@))),
                Some(f) => imbalanced(leader_counts(leaders(a.topics@))) && imbalance_finding(
                    f,
                    leader_counts(leaders(a.topics@)),
                    timestamp@,
                ),
            },
        },
{
    let admin = match admin {
        Some(a) => a,
        None => return Err(AnalyzerError::InvalidData(owned("No admin data available"))),
    };
    let ls = leader_positions(admin);
    let counts = count_leaders(&ls);
    let ghost cs = counts@.map_values(|c: (i32, usize)| (c.0, c.1 as nat));
    let nb = counts.len();
    if nb == 0 {
        return Ok(None);
    }
    proof {
        lemma_sum_counts(ls@);
        lemma_counts_bounds(cs);
    }
    let mut max: usize = counts[0].1;
    let mut min: usize = counts[0].1;
    let mut sum: usize = counts[0].1;
    let mut i: usize = 1;
    let _nl = ls.len();
    assert(cs.take(1).drop_last() =~= Seq::<(i32, nat)>::empty());
    assert(cs.take(1).last() == cs[0]);
    assert(cs.take(1)[0] == cs[0]);
    assert(sum_counts(cs.take(1)) == sum_counts(cs.take(1).drop_last()) + cs[0].1);
    assert(sum_counts(cs.take(1)) == cs[0].1);
    while i < nb
        invariant
            1 <= i <= nb == cs.len(),
            cs == counts@.map_values(|c: (i32, usize)| (c.0, c.1 as nat)),
            sum_counts(cs) == ls@.len(),
            ls@.len() <= usize::MAX,
            max == max_count(cs.take(i as int)),
            min == min_count(cs.take(i as int)),
            sum == sum_counts(cs.take(i as int)),
        decreases nb - i,
    {
        proof {
            assert(cs.take(i + 1).drop_last() =~= cs.take(i as int));
            assert(cs.take(i + 1).last() == cs[i as int]);
            lemma_prefix_sum(cs, i + 1);
        }
        let c = counts[i].1;
        if c > max {
            max = c;
        }
        if c < min {
            min = c;
        }
        sum = sum + c;
        i = i + 1;
    }
    assert(cs.take(nb as int) =~= cs);
    let avg = sum / nb;
    proof {
        assert(avg <= sum);
        lemma_counts_bounds(cs);
    }
    if 5 * (max as u128) <= 6 * (avg as u128) {
        return Ok(None);
    }
    let max_text = decimal_string(max as u64);
    let min_text = decimal_string(min as u64);
    let avg_text = decimal_string(avg as u64);
    let description = concat(
        concat(
            concat(concat(concat("Leader distribution is uneven across brokers. Max: ", max_text.as_str()).as_str(), ", Min: ").as_str(),
                min_text.as_str()).as_str(),
            ", Avg: ",
        ).as_str(),
        avg_text.as_str(),
    );
    let mut metrics: Vec<MetricEvidence> = Vec::new();
    metrics.push(metric("max_leaders_per_broker", max_text, Some(tenths_string(12 * (avg as u128))), "partitions", "admin", timestamp));
    metrics.push(metric("min_leaders_per_broker", min_text, None, "partitions", "admin", timestamp));
    let mut dist: Vec<(String, JsonValue)> = Vec::new();
    let mut k: usize = 0;
    while k < nb
        invariant
            k <= nb == counts@.len(),
        decreases nb - k,
    {
        let key = crate::numbers::i32_string(counts[k].0);
        dist.push((key, JsonValue::UInt(counts[k].1 as u64)));
        k = k + 1;
    }
    let mut raw: Vec<(String, JsonValue)> = Vec::new();
    raw.push((owned("leader_distribution"), JsonValue::Object(dist)));
    let mut steps: Vec<RemediationStep> = Vec::new();
    steps.push(step(1, "Run preferred leader election", Some("kafka-leader-election.sh --bootstrap-server localhost:9092 --election-type preferred --all-topic-partitions"), Some("Check leader distribution again"), true));
    steps.push(step(2, "Enable automatic leader rebalancing", Some("Set auto.leader.rebalance.enable=true in server.properties"), Some("Config is applied"), false));
    Ok(Some(Finding {
        id: finding_id("FND-003-"),
        severity: Severity::Medium,
        category: Category::Performance,
        title: owned("Leader distribution imbalance detected"),
        description,
        impact: owned("Uneven load distribution may cause performance bottlenecks and increased latency on overloaded brokers"),
        evidence: Evidence { metrics, logs: Vec::new(), configs: Vec::new(), raw_data: Some(JsonValue::Object(raw)) },
        root_cause: Some(owned("Preferred leader election not running or broker failures causing imbalance")),
        remediation: Remediation {
            steps,
            script: None,
            risk_level: RiskLevel::Low,
            requires_downtime: false,
            estimated_duration_minutes: Some(5),
            rollback_plan: None,
        },
        metadata: Vec::new(),
    }))
}

proof fn lemma_prefix_sum(cs: Seq<(i32, nat)>, k: int)
    requires
        0 <= k <= cs.len(),
    ensures
        sum_counts(cs.take(k)) <= sum_counts(cs),
    decreases cs.len() - k,
{
    if k < cs.len() {
        lemma_prefix_sum(cs, k + 1);
        assert(cs.take(k + 1).drop_last() =~= cs.take(k));
    } else {
        assert(cs.take(k) =~= cs);
    }
}

/// The finding of the error rate rule.
pub open spec fn error_rate_finding(f: Finding, s: LogSummary) -> bool {
    &&& starts_with(f.id@, "FND-005-"@)
    &&& f.severity == Severity::High
    &&& f.category == Category::Performance
    &&& f.title@ == "High error rate in logs: "@ + decimal(s.error_count as nat) + " errors found"@
    &&& f.evidence.metrics@.len() == 1
    &&& f.evidence.metrics@[0].name@ == "error_count"@
    &&& f.evidence.metrics@[0].value@ == decimal(s.error_count as nat)
    &&& f.evidence.metrics@[0].threshold matches Some(t) && t@ == "10"@
    &&& f.evidence.logs@.len() == (if s.top_errors@.len() < 3 { s.top_errors@.len() } else { 3 })
    &&& forall|j: int| 0 <= j < f.evidence.logs@.len() ==> (#[trigger] f.evidence.logs@[j]).message@
        == s.top_errors@[j].sample_message@ && f.evidence.logs@[j].timestamp@ == s.top_errors@[j].last_occurrence@
        && f.evidence.logs@[j].count == s.top_errors@[j].count && f.evidence.logs@[j].level@ == "ERROR"@
        && f.evidence.logs@[j].source_file@ == "server.log"@
    &&& f.remediation.steps@.len() == 2
    &&& f.remediation.risk_level == RiskLevel::Medium
    &&& f.remediation.estimated_duration_minutes == Some(30u32)
}

/// Logs with ten or more errors.
pub fn high_error_rate_rule(summary: Option<&LogSummary>, timestamp: &str) -> (r: Result<Option<Finding>, AnalyzerError>)
    ensures
        match summary {
            None => r matches Ok(None),
            Some(s) => r matches Ok(o) && match o {
                None => s.error_count < 10,
                Some(f) => s.error_count >= 10 && error_rate_finding(f, *s),
            },
        },
{
    let s = match summary {
        Some(s) => s,
        None => return Ok(None),
    };
    let total_errors = s.error_count;
    if total_errors < 10 {
        return Ok(None);
    }
    let count = decimal_string(total_errors as u64);
    let title = concat(concat("High error rate in logs: ", count.as_str()).as_str(), " errors found");
    let description = concat(
        concat("Detected ", count.as_str()).as_str(),
        " errors in recent logs, which exceeds the threshold of 10 errors",
    );
    let mut metrics: Vec<MetricEvidence> = Vec::new();
    metrics.push(metric("error_count", count, Some(owned("10")), "errors", "logs", timestamp));
    let mut logs: Vec<LogEvidence> = Vec::new();
    let mut j: usize = 0;
    let limit: usize = if s.top_errors.len() < 3 { s.top_errors.len() } else { 3 };
    while j < limit
        invariant
            j <= limit <= s.top_errors@.len(),
            limit == (if s.top_errors@.len() < 3 { s.top_errors@.len() } else { 3 }),
            logs@.len() == j,
            forall|q: int| 0 <= q < j ==> (#[trigger] logs@[q]).message@ == s.top_errors@[q].sample_message@
                && logs@[q].timestamp@ == s.top_errors@[q].last_occurrence@ && logs@[q].count == s.top_errors@[q].count
                && logs@[q].level@ == "ERROR"@ && logs@[q].source_file@ == "server.log"@,
        decreases limit - j,
    {
        let e = &s.top_errors[j];
        logs.push(LogEvidence {
            level: owned("ERROR"),
            message: e.sample_message.clone(),
            source_file: owned("server.log"),
            line_number: None,
            timestamp: e.last_occurrence.clone(),
            count: e.count,
        });
        j = j + 1;
    }
    let mut steps: Vec<RemediationStep> = Vec::new();
    steps.push(step(1, "Analyze top error patterns", Some("grep ERROR /var/log/kafka/server.log | head -50"), Some("Identify root cause"), true));
    steps.push(step(2, "Address specific errors based on patterns", None, Some("Error rate decreasing"), false));
    Ok(Some(Finding {
        id: finding_id("FND-005-"),
        severity: Severity::High,
        category: Category::Performance,
        title,
        description,
        impact: owned("High error rate indicates system instability and potential service degradation"),
        evidence: Evidence { metrics, logs, configs: Vec::new(), raw_data: None },
        root_cause: Some(owned("Review top error patterns to identify specific issues")),
        remediation: Remediation {
            steps,
            script: None,
            risk_level: RiskLevel::Medium,
            requires_downtime: false,
            estimated_duration_minutes: Some(30),
            rollback_plan: None,
        },
        metadata: Vec::new(),
    }))
}


/// The rule analyzer, which runs every rule.
pub struct RuleAnalyzer;

/// The identifier prefixes of the rules that report a finding, in the order the rules run:
/// under-replicated partitions, offline partitions, leader imbalance, ISR shrinkage, error
/// rate. A rule that fails for want of admin data reports nothing.
pub open spec fn fired_rules(admin: Option<AdminCollectorOutput>, logs: Option<LogSummary>) -> Seq<Seq<char>> {
    let a = match admin {
        Some(a) => (if flagged(a.topics@, 0).len() > 0 { seq!["FND-001-"@] } else { Seq::empty() }) + (if flagged(
            a.topics@,
            1,
        ).len() > 0 { seq!["FND-002-"@] } else { Seq::empty() }) + (if imbalanced(leader_counts(leaders(a.topics@))) {
            seq!["FND-003-"@]
        } else {
            Seq::empty()
        }) + (if flagged(a.topics@, 2).len() > 0 { seq!["FND-004-"@] } else { Seq::empty() }),
        None => Seq::empty(),
    };
    a + match logs {
        Some(s) => if s.error_count >= 10 { seq!["FND-005-"@] } else { Seq::empty() },
        None => Seq::empty(),
    }
}

impl RuleAnalyzer {
    pub fn new() -> (r: RuleAnalyzer) {
        RuleAnalyzer
    }

    /// The findings of all rules, in the order the rules run; a rule that fails is skipped.
    pub fn analyze(&self, admin: Option<&AdminCollectorOutput>, logs: Option<&LogSummary>, timestamp: &str) -> (r: Vec<Finding>)
        ensures
            r@.len() == fired_rules(opt_admin(admin), opt_logs(logs)).len(),
            forall|j: int| 0 <= j < r@.len() ==> starts_with((#[trigger] r@[j]).id@, fired_rules(opt_admin(admin), opt_logs(logs))[j]),
    {
        let mut findings: Vec<Finding> = Vec::new();
        let ghost fired = fired_rules(opt_admin(admin), opt_logs(logs));
        let ghost mut expected: Seq<Seq<char>> = Seq::empty();
        match under_replicated_partitions_rule(admin, timestamp) {
            Ok(Some(f)) => {
                findings.push(f);
                proof { expected = expected.push("FND-001-"@); }
            },
            _ => {},
        }
        match offline_partitions_rule(admin, timestamp) {
            Ok(Some(f)) => {
                findings.push(f);
                proof { expected = expected.push("FND-002-"@); }
            },
            _ => {},
        }
        match leader_imbalance_rule(admin, timestamp) {
            Ok(Some(f)) => {
                findings.push(f);
                proof { expected = expected.push("FND-003-"@); }
            },
            _ => {},
        }
        match isr_shrinkage_rule(admin, timestamp) {
            Ok(Some(f)) => {
                findings.push(f);
                proof { expected = expected.push("FND-004-"@); }
            },
            _ => {},
        }
        match high_error_rate_rule(logs, timestamp) {
            Ok(Some(f)) => {
                findings.push(f);
                proof { expected = expected.push("FND-005-"@); }
            },
            _ => {},
        }
        assert(expected =~= fired);
        findings
    }
}

/// The admin output behind an optional reference.
pub open spec fn opt_admin(a: Option<&AdminCollectorOutput>) -> Option<AdminCollectorOutput> {
    match a {
        Some(x) => Some(*x),
        None => None,
    }
}

/// The log summary behind an optional reference.
pub open spec fn opt_logs(s: Option<&LogSummary>) -> Option<LogSummary> {
    match s {
        Some(x) => Some(*x),
        None => None,
    }
}

/// `x` put after every finding at least as serious.
pub open spec fn insert_by_severity(s: Seq<Finding>, x: Finding) -> Seq<Finding>
    decreases s.len(),
{
    if s.len() == 0 {
        seq![x]
    } else if crate::snapshot::severity_rank(x.severity) < crate::snapshot::severity_rank(s[0].severity) {
        seq![x] + s
    } else {
        seq![s[0]] + insert_by_severity(s.drop_first(), x)
    }
}

/// The findings sorted most serious first, findings of equal severity kept in order.
pub open spec fn sort_by_severity(s: Seq<Finding>) -> Seq<Finding>
    decreases s.len(),
{
    if s.len() == 0 {
        Seq::empty()
    } else {
        insert_by_severity(sort_by_severity(s.drop_last()), s.last())
    }
}

/// The findings sorted most serious first, as a stable sort by severity leaves them.
pub fn sort_findings(findings: Vec<Finding>) -> (r: Vec<Finding>)
    ensures
        r@ == sort_by_severity(findings@),
{
    let ghost all = findings@;
    let mut rest = findings;
    let mut out: Vec<Finding> = Vec::new();
    let n = rest.len();
    let mut i: usize = 0;
    assert(all.take(0) =~= Seq::<Finding>::empty());
    while i < n
        invariant
            i <= n == all.len(),
            rest@ == all.skip(i as int),
            out@ == sort_by_severity(all.take(i as int)),
        decreases n - i,
    {
        let f = rest.remove(0);
        proof {
            assert(f == all[i as int]);
            assert(rest@ =~= all.skip(i + 1));
            assert(all.take(i + 1).drop_last() =~= all.take(i as int));
            assert(all.take(i + 1).last() == all[i as int]);
        }
        let ghost sorted = out@;
        let r = f.severity.rank();
        let mut pos: usize = 0;
        assert(sorted.skip(0) =~= sorted);
        assert(sorted.take(0) + insert_by_severity(sorted, f) =~= insert_by_severity(sorted, f));
        while pos < out.len() && out[pos].severity.rank() <= r
            invariant
                pos <= out@.len(),
                sorted == out@,
                r == crate::snapshot::severity_rank(f.severity),
                insert_by_severity(sorted, f) == sorted.take(pos as int) + insert_by_severity(sorted.skip(pos as int), f),
            decreases out@.len() - pos,
        {
            proof {
                let tail = sorted.skip(pos as int);
                assert(tail[0] == out@[pos as int]);
                assert(tail.drop_first() =~= sorted.skip(pos + 1));
                assert(sorted.take(pos as int) + (seq![tail[0]] + insert_by_severity(tail.drop_first(), f)) =~= sorted.take(
                    pos + 1,
                ) + insert_by_severity(sorted.skip(pos + 1), f));
            }
            pos = pos + 1;
        }
        proof {
            let tail = sorted.skip(pos as int);
            if pos < out@.len() {
                assert(tail[0] == out@[pos as int]);
            }
        }
        out.insert(pos, f);
        proof {
            let tail = sorted.skip(pos as int);
            assert(out@ =~= sorted.take(pos as int) + (seq![f] + tail));
        }
        i = i + 1;
    }
    assert(all.take(n as int) =~= all);
    out
}

} // verus!
