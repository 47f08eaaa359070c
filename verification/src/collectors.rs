//! The collectors' own logic: the Kafka client settings a configuration asks
//! for, the cluster picture built from broker metadata, and the reading and
//! summarising of broker log lines.
use vstd::prelude::*;
use crate::text::{
    contains, split_once, owned, concat, str_contains, str_starts_with, split_once_char,
    uppercase, to_uppercase, str_eq, opt_text, starts_with,
};
use crate::strmap::StrMap;
use crate::numbers::{decimal, decimal_string, decimal_string_wide};
use crate::log_sources::{byte_len, byte_count};

verus! {

/// How to reach a Kafka cluster.
pub struct KafkaConfig {
    pub bootstrap_servers: Vec<String>,
    pub security_protocol: String,
    pub sasl_mechanism: Option<String>,
    pub sasl_username: Option<String>,
    pub sasl_password: Option<String>,
    pub ssl_ca_cert: Option<String>,
    pub ssl_cert: Option<String>,
    pub ssl_key: Option<String>,
    pub timeout_secs: u64,
    pub client_id: String,
}

impl KafkaConfig {
    /// The local plaintext broker on port 9092, a 30 second timeout, client id `kcpilot`.
    pub fn default_config() -> (c: KafkaConfig)
        ensures
            c.bootstrap_servers@.len() == 1 && c.bootstrap_servers@[0]@ == "localhost:9092"@,
            c.security_protocol@ == "PLAINTEXT"@,
            c.sasl_mechanism is None && c.sasl_username is None && c.sasl_password is None,
            c.ssl_ca_cert is None && c.ssl_cert is None && c.ssl_key is None,
            c.timeout_secs == 30,
            c.client_id@ == "kcpilot"@,
    {
        let mut servers: Vec<String> = Vec::new();
        servers.push(owned("localhost:9092"));
        KafkaConfig {
            bootstrap_servers: servers,
            security_protocol: owned("PLAINTEXT"),
            sasl_mechanism: None,
            sasl_username: None,
            sasl_password: None,
            ssl_ca_cert: None,
            ssl_cert: None,
            ssl_key: None,
            timeout_secs: 30,
            client_id: owned("kcpilot"),
        }
    }
}

/// What a collection runs with.
pub struct CollectionContext {
    pub kafka_config: KafkaConfig,
    pub metadata: StrMap,
    pub dry_run: bool,
}

/// What a collector can fail on in its own logic.
#[derive(Debug, Clone, PartialEq, Eq)]
pub enum CollectorError {
    ConnectionFailed(String),
    Timeout(u64),
    AuthenticationFailed(String),
    ConfigurationError(String),
    Other(String),
}

/// The cluster as the admin API describes it.
pub struct ClusterInfo {
    pub cluster_id: Option<String>,
    pub controller_id: Option<i32>,
    pub broker_count: usize,
    pub topic_count: usize,
    pub partition_count: usize,
}

/// A broker as the admin API describes it.
pub struct BrokerInfo {
    pub id: i32,
    pub host: String,
    pub port: i32,
    pub rack: Option<String>,
}

/// A topic as the admin API describes it.
pub struct TopicInfo {
    pub name: String,
    pub partitions: Vec<PartitionInfo>,
    pub replication_factor: i16,
    pub is_internal: bool,
}

/// A partition as the admin API describes it.
pub struct PartitionInfo {
    pub id: i32,
    pub leader: Option<i32>,
    pub replicas: Vec<i32>,
    pub isr: Vec<i32>,
    pub offline_replicas: Vec<i32>,
}

/// What the admin collector gathers.
pub struct AdminCollectorOutput {
    pub cluster: ClusterInfo,
    pub brokers: Vec<BrokerInfo>,
    pub topics: Vec<TopicInfo>,
}

/// A broker as cluster metadata lists it.
pub struct BrokerMetadata {
    pub id: i32,
    pub host: String,
    pub port: i32,
}

/// A partition as cluster metadata lists it; a negative leader means none.
pub struct PartitionMetadata {
    pub id: i32,
    pub leader: i32,
    pub replicas: Vec<i32>,
    pub isr: Vec<i32>,
}

/// A topic as cluster metadata lists it.
pub struct TopicMetadata {
    pub name: String,
    pub partitions: Vec<PartitionMetadata>,
}

/// The number of partitions of all topics.
pub open spec fn partition_total(ts: Seq<TopicMetadata>) -> nat
    decreases ts.len(),
{
    if ts.len() == 0 {
        0
    } else {
        partition_total(ts.drop_last()) + ts.last().partitions@.len()
    }
}

/// A partition of the admin output read from one of the metadata.
pub open spec fn partition_read(p: PartitionInfo, m: PartitionMetadata) -> bool {
    &&& p.id == m.id
    &&& p.leader == (if m.leader >= 0 { Some(m.leader) } else { None })
    &&& p.replicas@ == m.replicas@
    &&& p.isr@ == m.isr@
    &&& p.offline_replicas@.len() == 0
}

/// A topic of the admin output read from one of the metadata.
pub open spec fn topic_read(t: TopicInfo, m: TopicMetadata) -> bool {
    &&& t.name@ == m.name@
    &&& t.partitions@.len() == m.partitions@.len()
    &&& forall|j: int| 0 <= j < m.partitions@.len() ==> partition_read(#[trigger] t.partitions@[j], m.partitions@[j])
    &&& t.replication_factor == (if m.partitions@.len() > 0 { m.partitions@[0].replicas@.len() as i16 } else { 0i16 })
    &&& t.is_internal == starts_with(m.name@, "__"@)
}

/// A topic name that holds `password` or `secret`.
pub open spec fn sensitive_name(n: Seq<char>) -> bool {
    contains(n, "password"@) || contains(n, "secret"@)
}

/// The name a sensitive topic is shown under: `REDACTED_` and its length in bytes.
pub open spec fn redacted_name(n: Seq<char>) -> Seq<char> {
    "REDACTED_"@ + decimal(byte_len(n))
}

/// The admin collector's options.
pub struct AdminCollector {
    redact_sensitive: bool,
}

fn copy_ids(v: &Vec<i32>) -> (r: Vec<i32>)
    ensures
        r@ == v@,
{
    let mut r: Vec<i32> = Vec::new();
    let mut i: usize = 0;
    while i < v.len()
        invariant
            i <= v@.len(),
            r@ == v@.take(i as int),
        decreases v@.len() - i,
    {
        r.push(v[i]);
        i = i + 1;
        assert(r@ =~= v@.take(i as int));
    }
    assert(v@.take(i as int) =~= v@);
    r
}

/// A setting when the option is set.
pub open spec fn opt_setting(key: Seq<char>, v: Option<String>) -> Seq<(Seq<char>, Seq<char>)> {
    match v {
        Some(x) => seq![(key, x@)],
        None => Seq::empty(),
    }
}

/// The Kafka client settings of a configuration, in the order they are set.
pub open spec fn client_settings_spec(c: KafkaConfig) -> Seq<(Seq<char>, Seq<char>)> {
    seq![("bootstrap.servers"@, joined(c.bootstrap_servers@.map_values(|s: String| s@), ","@))]
        + (if c.security_protocol@ != "plaintext"@ {
        seq![("security.protocol"@, c.security_protocol@)]
    } else {
        Seq::empty()
    }) + (match c.sasl_mechanism {
        Some(m) => seq![("sasl.mechanism"@, m@)] + opt_setting("sasl.username"@, c.sasl_username)
            + opt_setting("sasl.password"@, c.sasl_password),
        None => Seq::empty(),
    }) + opt_setting("ssl.ca.location"@, c.ssl_ca_cert) + opt_setting("ssl.certificate.location"@, c.ssl_cert)
        + opt_setting("ssl.key.location"@, c.ssl_key) + seq![
        ("socket.timeout.ms"@, decimal((c.timeout_secs * 1000) as nat)),
    ]
}

/// Appends a setting.
fn push_setting(r: &mut Vec<(String, String)>, key: &str, value: &String)
    ensures
        final(r)@.map_values(|p: (String, String)| (p.0@, p.1@)) == old(r)@.map_values(
            |p: (String, String)| (p.0@, p.1@),
        ) + seq![(key@, value@)],
{
    r.push((owned(key), value.clone()));
    assert(final(r)@.map_values(|p: (String, String)| (p.0@, p.1@)) =~= old(r)@.map_values(
        |p: (String, String)| (p.0@, p.1@),
    ) + seq![(key@, value@)]);
}

/// Appends a setting when the option is set.
fn push_opt_setting(r: &mut Vec<(String, String)>, key: &str, value: &Option<String>)
    ensures
        final(r)@.map_values(|p: (String, String)| (p.0@, p.1@)) == old(r)@.map_values(
            |p: (String, String)| (p.0@, p.1@),
        ) + opt_setting(key@, *value),
{
    match value {
        Some(v) => push_setting(r, key, v),
        None => {
            assert(r@.map_values(|p: (String, String)| (p.0@, p.1@)) =~= old(r)@.map_values(
                |p: (String, String)| (p.0@, p.1@),
            ) + opt_setting(key@, *value));
        },
    }
}

impl AdminCollector {
    /// Whether sensitive topic names are redacted.
    pub closed spec fn redacts(&self) -> bool {
        self.redact_sensitive
    }

    /// A collector that does not redact.
    pub fn new() -> (c: AdminCollector)
        ensures
            !c.redacts(),
    {
        AdminCollector { redact_sensitive: false }
    }

    /// The collector, redacting or not.
    pub fn with_redaction(self, redact: bool) -> (c: AdminCollector)
        ensures
            c.redacts() == redact,
    {
        AdminCollector { redact_sensitive: redact }
    }

    /// The Kafka client settings a configuration asks for, in order: the bootstrap
    /// servers joined by commas; the security protocol unless it is `plaintext`; the SASL
    /// mechanism with its username and password when a mechanism is set; the SSL files
    /// that are set; and the socket timeout in milliseconds.
    pub fn client_settings(config: &KafkaConfig) -> (r: Vec<(String, String)>)
        requires
            config.timeout_secs * 1000 <= u64::MAX,
        ensures
            r@.map_values(|p: (String, String)| (p.0@, p.1@)) == client_settings_spec(*config),
    {
        let mut r: Vec<(String, String)> = Vec::new();
        let servers = join_strings(&config.bootstrap_servers, ",");
        push_setting(&mut r, "bootstrap.servers", &servers);
        if !str_eq(config.security_protocol.as_str(), "plaintext") {
            push_setting(&mut r, "security.protocol", &config.security_protocol);
        }
        match &config.sasl_mechanism {
            Some(mechanism) => {
                push_setting(&mut r, "sasl.mechanism", mechanism);
                push_opt_setting(&mut r, "sasl.username", &config.sasl_username);
                push_opt_setting(&mut r, "sasl.password", &config.sasl_password);
            },
            None => {},
        }
        push_opt_setting(&mut r, "ssl.ca.location", &config.ssl_ca_cert);
        push_opt_setting(&mut r, "ssl.certificate.location", &config.ssl_cert);
        push_opt_setting(&mut r, "ssl.key.location", &config.ssl_key);
        let ms = decimal_string(config.timeout_secs * 1000);
        push_setting(&mut r, "socket.timeout.ms", &ms);
        assert(r@.map_values(|p: (String, String)| (p.0@, p.1@)) =~= client_settings_spec(*config));
        r
    }

    /// The admin output for cluster metadata: brokers as listed (no rack), topics with
    /// their partitions (a negative leader read as none), each topic's replication factor
    /// from its first partition, internal topics by a `__` prefix, and the counts.
    pub fn parse_metadata(&self, brokers: &Vec<BrokerMetadata>, topics: &Vec<TopicMetadata>) -> (r: AdminCollectorOutput)
        requires
            partition_total(topics@) <= usize::MAX,
        ensures
            r.brokers@.len() == brokers@.len(),
            forall|j: int| 0 <= j < brokers@.len() ==> (#[trigger] r.brokers@[j]).id == brokers@[j].id
                && r.brokers@[j].host@ == brokers@[j].host@ && r.brokers@[j].port == brokers@[j].port
                && r.brokers@[j].rack is None,
            r.topics@.len() == topics@.len(),
            forall|j: int| 0 <= j < topics@.len() ==> topic_read(#[trigger] r.topics@[j], topics@[j]),
            r.cluster.cluster_id is None && r.cluster.controller_id is None,
            r.cluster.broker_count == brokers@.len(),
            r.cluster.topic_count == topics@.len(),
            r.cluster.partition_count == partition_total(topics@),
    {
        let mut out_brokers: Vec<BrokerInfo> = Vec::new();
        let mut i: usize = 0;
        while i < brokers.len()
            invariant
                i <= brokers@.len(),
                out_brokers@.len() == i,
                forall|j: int| 0 <= j < i ==> (#[trigger] out_brokers@[j]).id == brokers@[j].id
                    && out_brokers@[j].host@ == brokers@[j].host@ && out_brokers@[j].port == brokers@[j].port
                    && out_brokers@[j].rack is None,
            decreases brokers@.len() - i,
        {
            let b = &brokers[i];
            out_brokers.push(BrokerInfo { id: b.id, host: b.host.clone(), port: b.port, rack: None });
            i = i + 1;
        }
        let mut out_topics: Vec<TopicInfo> = Vec::new();
        let mut total: usize = 0;
        let mut t: usize = 0;
        assert(topics@.take(0) =~= Seq::<TopicMetadata>::empty());
        while t < topics.len()
            invariant
                t <= topics@.len(),
                partition_total(topics@) <= usize::MAX,
                out_topics@.len() == t,
                forall|j: int| 0 <= j < t ==> topic_read(#[trigger] out_topics@[j], topics@[j]),
                total == partition_total(topics@.take(t as int)),
            decreases topics@.len() - t,
        {
            let tm = &topics[t];
            let mut parts: Vec<PartitionInfo> = Vec::new();
            let mut k: usize = 0;
            while k < tm.partitions.len()
                invariant
                    k <= tm.partitions@.len(),
                    parts@.len() == k,
                    forall|j: int| 0 <= j < k ==> partition_read(#[trigger] parts@[j], tm.partitions@[j]),
                decreases tm.partitions@.len() - k,
            {
                let pm = &tm.partitions[k];
                let leader = if pm.leader >= 0 { Some(pm.leader) } else { None };
                parts.push(PartitionInfo {
                    id: pm.id,
                    leader,
                    replicas: copy_ids(&pm.replicas),
                    isr: copy_ids(&pm.isr),
                    offline_replicas: Vec::new(),
                });
                k = k + 1;
            }
            let replication_factor: i16 = if tm.partitions.len() > 0 {
                tm.partitions[0].replicas.len() as i16
            } else {
                0
            };
            proof {
                assert(topics@.take(t + 1).drop_last() =~= topics@.take(t as int));
                lemma_partition_total_prefix(topics@, t as int + 1);
            }
            total = total + tm.partitions.len();
            let is_internal = str_starts_with(tm.name.as_str(), "__");
            out_topics.push(TopicInfo { name: tm.name.clone(), partitions: parts, replication_factor, is_internal });
            t = t + 1;
        }
        assert(topics@.take(t as int) =~= topics@);
        let cluster = ClusterInfo {
            cluster_id: None,
            controller_id: None,
            broker_count: out_brokers.len(),
            topic_count: out_topics.len(),
            partition_count: total,
        };
        AdminCollectorOutput { cluster, brokers: out_brokers, topics: out_topics }
    }

    /// The output with, when this collector redacts, every topic whose name holds
    /// `password` or `secret` renamed `REDACTED_` and the name's length.
    pub fn redact(&self, output: AdminCollectorOutput) -> (r: AdminCollectorOutput)
        ensures
            r.topics@.len() == output.topics@.len(),
            forall|j: int| 0 <= j < output.topics@.len() ==> (#[trigger] r.topics@[j]).name@ == (if self.redacts()
                && sensitive_name(output.topics@[j].name@) {
                redacted_name(output.topics@[j].name@)
            } else {
                output.topics@[j].name@
            }) && r.topics@[j].partitions == output.topics@[j].partitions && r.topics@[j].replication_factor
                == output.topics@[j].replication_factor && r.topics@[j].is_internal == output.topics@[j].is_internal,
            r.brokers == output.brokers,
            r.cluster == output.cluster,
    {
        if !self.redact_sensitive {
            return output;
        }
        let AdminCollectorOutput { cluster, brokers, topics } = output;
        let ghost old_topics = topics@;
        let mut out: Vec<TopicInfo> = Vec::new();
        let mut rest = topics;
        let n = rest.len();
        let mut i: usize = 0;
        while i < n
            invariant
                i <= n == old_topics.len(),
                rest@ == old_topics.skip(i as int),
                out@.len() == i,
                forall|j: int| 0 <= j < i ==> (#[trigger] out@[j]).name@ == (if sensitive_name(old_topics[j].name@) {
                    redacted_name(old_topics[j].name@)
                } else {
                    old_topics[j].name@
                }) && out@[j].partitions == old_topics[j].partitions && out@[j].replication_factor
                    == old_topics[j].replication_factor && out@[j].is_internal == old_topics[j].is_internal,
            decreases n - i,
        {
            let topic = rest.remove(0);
            proof {
                assert(topic == old_topics[i as int]);
                assert(rest@ =~= old_topics.skip(i + 1));
            }
            let TopicInfo { name, partitions, replication_factor, is_internal } = topic;
            let new_name = if str_contains(name.as_str(), "password") || str_contains(name.as_str(), "secret") {
                let nv = crate::text::chars_of(name.as_str());
                let bytes = byte_count(&nv, 0, nv.len());
                proof {
                    assert(nv@.subrange(0, nv@.len() as int) =~= name@);
                    crate::log_sources::lemma_byte_len_bound(name@);
                }
                let digits = decimal_string_wide(bytes);
                concat("REDACTED_", digits.as_str())
            } else {
                name
            };
            out.push(TopicInfo { name: new_name, partitions, replication_factor, is_internal });
            i = i + 1;
        }
        AdminCollectorOutput { cluster, brokers, topics: out }
    }

    /// Checks a configuration before collecting: servers must be listed and the timeout
    /// must not be zero.
    pub fn validate_config(&self, config: &KafkaConfig) -> (r: Result<(), CollectorError>)
        ensures
            r is Ok <==> config.bootstrap_servers@.len() > 0 && config.timeout_secs > 0,
            config.bootstrap_servers@.len() == 0 ==> (r matches Err(CollectorError::ConfigurationError(m))
                && m@ == "Bootstrap servers cannot be empty"@),
            config.bootstrap_servers@.len() > 0 && config.timeout_secs == 0 ==> (r matches Err(
                CollectorError::ConfigurationError(m),
            ) && m@ == "Timeout must be greater than 0"@),
    {
        if config.bootstrap_servers.len() == 0 {
            return Err(CollectorError::ConfigurationError(owned("Bootstrap servers cannot be empty")));
        }
        if config.timeout_secs == 0 {
            return Err(CollectorError::ConfigurationError(owned("Timeout must be greater than 0")));
        }
        Ok(())
    }
}

proof fn lemma_partition_total_prefix(ts: Seq<TopicMetadata>, k: int)
    requires
        0 <= k <= ts.len(),
    ensures
        partition_total(ts.take(k)) <= partition_total(ts),
    decreases ts.len() - k,
{
    if k < ts.len() {
        lemma_partition_total_prefix(ts, k + 1);
        assert(ts.take(k + 1).drop_last() =~= ts.take(k));
    } else {
        assert(ts.take(k) =~= ts);
    }
}

/// The texts joined by a separator.
pub open spec fn joined(parts: Seq<Seq<char>>, sep: Seq<char>) -> Seq<char>
    decreases parts.len(),
{
    if parts.len() == 0 {
        Seq::empty()
    } else if parts.len() == 1 {
        parts[0]
    } else {
        joined(parts.drop_last(), sep) + sep + parts.last()
    }
}

/// The strings joined by a separator, as `join` does.
pub fn join_strings(parts: &Vec<String>, sep: &str) -> (r: String)
    ensures
        r@ == joined(parts@.map_values(|s: String| s@), sep@),
{
    let ghost ps = parts@.map_values(|s: String| s@);
    let mut r = String::new();
    let mut i: usize = 0;
    assert(ps.take(0) =~= Seq::<Seq<char>>::empty());
    while i < parts.len()
        invariant
            i <= parts@.len() == ps.len(),
            ps == parts@.map_values(|s: String| s@),
            r@ == joined(ps.take(i as int), sep@),
        decreases parts@.len() - i,
    {
        proof {
            assert(ps.take(i + 1).drop_last() =~= ps.take(i as int));
            assert(ps.take(i + 1).last() == parts@[i as int]@);
            if i == 0 {
                assert(ps.take(1)[0] == parts@[0]@);
            }
        }
        if i > 0 {
            r = concat(r.as_str(), sep);
        }
        r = concat(r.as_str(), parts[i].as_str());
        proof {
            if i == 0 {
                assert(r@ =~= ps.take(1)[0]);
            } else {
                assert(r@ =~= joined(ps.take(i as int), sep@) + sep@ + ps.take(i + 1).last());
            }
        }
        i = i + 1;
    }
    assert(ps.take(i as int) =~= ps);
    r
}

} // verus!

verus! {

/// The level of a log line.
#[derive(Debug, Clone, Copy, PartialEq, Eq, Structural)]
pub enum LogLevel {
    Fatal,
    Error,
    Warn,
    Info,
    Debug,
    Trace,
}

/// One log line, taken apart.
pub struct LogEntry {
    pub timestamp: String,
    pub level: LogLevel,
    pub source: String,
    pub message: String,
    pub raw: String,
}

/// What the lines matching one pattern have in common.
pub struct ErrorSummary {
    pub pattern: String,
    pub count: usize,
    pub first_occurrence: String,
    pub last_occurrence: String,
    pub sample_message: String,
}

/// The collected log lines counted.
pub struct LogSummary {
    pub total_entries: usize,
    pub error_count: usize,
    pub warn_count: usize,
    pub files_processed: usize,
    /// Each pattern that matched, with the number of matches, in the order first matched.
    pub patterns_matched: Vec<(String, usize)>,
    pub top_errors: Vec<ErrorSummary>,
}

/// Where logs come from besides the broker's files.
#[derive(Debug, Clone, Copy, PartialEq, Eq, Structural)]
pub enum LogSource {
    CloudWatch,
    GcpLogging,
    Elasticsearch,
    Splunk,
    Local,
}

/// A remote log service.
pub struct RemoteLogConfig {
    pub source: LogSource,
    pub credentials: StrMap,
}

/// What a log collection is asked to read.
pub struct LogConfig {
    pub kafka_config: KafkaConfig,
    pub log_paths: Vec<String>,
    pub remote_logs: Option<RemoteLogConfig>,
}

/// The log collector's options.
pub struct LogCollector {
    log_paths: Vec<String>,
    max_lines_per_file: usize,
    patterns: Vec<String>,
}

/// The log files read when nothing else is given.
pub open spec fn default_log_paths_spec() -> Seq<Seq<char>> {
    seq![
        "/var/log/kafka/server.log"@,
        "/var/log/kafka/controller.log"@,
        "/var/log/kafka/state-change.log"@,
        "/var/log/kafka/kafka-request.log"@,
        "/opt/kafka/logs/server.log"@,
        "./logs/kafka.log"@,
    ]
}

/// The words that mark a log line worth keeping.
pub open spec fn default_patterns_spec() -> Seq<Seq<char>> {
    seq![
        "ERROR"@, "WARN"@, "FATAL"@, "Exception"@, "Failed"@, "Timeout"@, "Disconnected"@,
        "UnderReplicated"@, "ISR"@, "Leader"@, "Election"@, "Rebalance"@,
    ]
}

/// The level an uppercased level word names; anything else is read as info.
pub open spec fn level_of_upper(u: Seq<char>) -> LogLevel {
    if u == "FATAL"@ {
        LogLevel::Fatal
    } else if u == "ERROR"@ {
        LogLevel::Error
    } else if u == "WARN"@ || u == "WARNING"@ {
        LogLevel::Warn
    } else if u == "INFO"@ {
        LogLevel::Info
    } else if u == "DEBUG"@ {
        LogLevel::Debug
    } else if u == "TRACE"@ {
        LogLevel::Trace
    } else {
        LogLevel::Info
    }
}

/// The first `n - 1` pieces of `s` split at `c`, then the rest, as `str::splitn(n, c)`
/// yields them.
pub open spec fn split_n(s: Seq<char>, c: char, n: nat) -> Seq<Seq<char>>
    decreases n,
{
    if n <= 1 {
        seq![s]
    } else {
        match split_once(s, c) {
            Some((a, b)) => seq![a] + split_n(b, c, (n - 1) as nat),
            None => seq![s],
        }
    }
}

/// A log line taken apart as `timestamp level source message` when it has four
/// space-separated fields, else kept whole as an info message.
pub open spec fn entry_of_line(line: Seq<char>, e: LogEntry) -> bool {
    let parts = split_n(line, ' ', 4);
    &&& e.raw@ == line
    &&& if parts.len() >= 4 {
        e.timestamp@ == parts[0] && e.level == level_of_upper(uppercase(parts[1])) && e.source@ == parts[2]
            && e.message@ == parts[3]
    } else {
        e.timestamp@ == Seq::<char>::empty() && e.level == LogLevel::Info && e.source@ == Seq::<char>::empty()
            && e.message@ == line
    }
}

/// Whether a line holds one of the patterns.
pub open spec fn matches_any(line: Seq<char>, ps: Seq<Seq<char>>) -> bool {
    exists|k: int| 0 <= k < ps.len() && contains(line, #[trigger] ps[k])
}

/// The lines kept from a file: those that hold a pattern, at most `max` of them.
pub open spec fn kept_lines(ls: Seq<Seq<char>>, ps: Seq<Seq<char>>, max: nat) -> Seq<Seq<char>>
    decreases ls.len(),
{
    if ls.len() == 0 || max == 0 {
        Seq::empty()
    } else if matches_any(ls[0], ps) {
        seq![ls[0]] + kept_lines(ls.drop_first(), ps, (max - 1) as nat)
    } else {
        kept_lines(ls.drop_first(), ps, max)
    }
}

impl LogCollector {
    /// The files read.
    pub closed spec fn paths(&self) -> Seq<Seq<char>> {
        self.log_paths@.map_values(|p: String| p@)
    }

    /// The most lines kept from one file.
    pub closed spec fn max_lines(&self) -> nat {
        self.max_lines_per_file as nat
    }

    /// The patterns a kept line holds one of.
    pub closed spec fn pattern_list(&self) -> Seq<Seq<char>> {
        self.patterns@.map_values(|p: String| p@)
    }

    /// A collector of the default files and patterns, keeping up to 1000 lines a file.
    pub fn new() -> (c: LogCollector)
        ensures
            c.paths() == default_log_paths_spec(),
            c.max_lines() == 1000,
            c.pattern_list() == default_patterns_spec(),
    {
        LogCollector { log_paths: Self::default_log_paths(), max_lines_per_file: 1000, patterns: Self::default_patterns() }
    }

    /// A collector that is given its files later, with the default patterns.
    pub fn with_dynamic_discovery() -> (c: LogCollector)
        ensures
            c.paths() == Seq::<Seq<char>>::empty(),
            c.max_lines() == 1000,
            c.pattern_list() == default_patterns_spec(),
    {
        let c = LogCollector { log_paths: Vec::new(), max_lines_per_file: 1000, patterns: Self::default_patterns() };
        assert(c.paths() =~= Seq::<Seq<char>>::empty());
        c
    }

    /// The collector, reading the given files.
    pub fn with_paths(self, paths: Vec<String>) -> (c: LogCollector)
        ensures
            c.paths() == paths@.map_values(|p: String| p@),
            c.max_lines() == self.max_lines(),
            c.pattern_list() == self.pattern_list(),
    {
        LogCollector { log_paths: paths, max_lines_per_file: self.max_lines_per_file, patterns: self.patterns }
    }

    /// The collector, keeping at most `max_lines` lines a file.
    pub fn with_max_lines(self, max_lines: usize) -> (c: LogCollector)
        ensures
            c.paths() == self.paths(),
            c.max_lines() == max_lines,
            c.pattern_list() == self.pattern_list(),
    {
        LogCollector { log_paths: self.log_paths, max_lines_per_file: max_lines, patterns: self.patterns }
    }

    /// The collector, keeping the lines that hold one of `patterns`.
    pub fn with_patterns(self, patterns: Vec<String>) -> (c: LogCollector)
        ensures
            c.paths() == self.paths(),
            c.max_lines() == self.max_lines(),
            c.pattern_list() == patterns@.map_values(|p: String| p@),
    {
        LogCollector { log_paths: self.log_paths, max_lines_per_file: self.max_lines_per_file, patterns }
    }

    /// The log files read when nothing else is given.
    pub fn default_log_paths() -> (r: Vec<String>)
        ensures
            r@.map_values(|p: String| p@) == default_log_paths_spec(),
    {
        let mut r: Vec<String> = Vec::new();
        r.push(owned("/var/log/kafka/server.log"));
        r.push(owned("/var/log/kafka/controller.log"));
        r.push(owned("/var/log/kafka/state-change.log"));
        r.push(owned("/var/log/kafka/kafka-request.log"));
        r.push(owned("/opt/kafka/logs/server.log"));
        r.push(owned("./logs/kafka.log"));
        assert(r@.map_values(|p: String| p@) =~= default_log_paths_spec());
        r
    }

    /// The words that mark a log line worth keeping.
    pub fn default_patterns() -> (r: Vec<String>)
        ensures
            r@.map_values(|p: String| p@) == default_patterns_spec(),
    {
        let mut r: Vec<String> = Vec::new();
        r.push(owned("ERROR"));
        r.push(owned("WARN"));
        r.push(owned("FATAL"));
        r.push(owned("Exception"));
        r.push(owned("Failed"));
        r.push(owned("Timeout"));
        r.push(owned("Disconnected"));
        r.push(owned("UnderReplicated"));
        r.push(owned("ISR"));
        r.push(owned("Leader"));
        r.push(owned("Election"));
        r.push(owned("Rebalance"));
        assert(r@.map_values(|p: String| p@) =~= default_patterns_spec());
        r
    }

    /// The level a level word names, compared in upper case.
    pub fn parse_log_level(&self, level_str: &str) -> (l: LogLevel)
        ensures
            l == level_of_upper(uppercase(level_str@)),
    {
        let u = to_uppercase(level_str);
        Self::level_from_uppercase(u.as_str())
    }

    /// The level an already uppercased level word names; unknown words are info.
    pub fn level_from_uppercase(s: &str) -> (l: LogLevel)
        ensures
            l == level_of_upper(s@),
    {
        if str_eq(s, "FATAL") {
            LogLevel::Fatal
        } else if str_eq(s, "ERROR") {
            LogLevel::Error
        } else if str_eq(s, "WARN") || str_eq(s, "WARNING") {
            LogLevel::Warn
        } else if str_eq(s, "INFO") {
            LogLevel::Info
        } else if str_eq(s, "DEBUG") {
            LogLevel::Debug
        } else if str_eq(s, "TRACE") {
            LogLevel::Trace
        } else {
            LogLevel::Info
        }
    }

    /// A log line taken apart.
    pub fn parse_log_line(&self, line: &str) -> (e: LogEntry)
        ensures
            entry_of_line(line@, e),
    {
        match split_once_char(line, ' ') {
            Some((p0, rest1)) => match split_once_char(rest1.as_str(), ' ') {
                Some((p1, rest2)) => match split_once_char(rest2.as_str(), ' ') {
                    Some((p2, p3)) => {
                        proof {
                            assert(split_n(rest2@, ' ', 2) =~= seq![p2@, p3@]) by {
                                assert(split_n(p3@, ' ', 1) == seq![p3@]);
                            }
                            assert(split_n(rest1@, ' ', 3) =~= seq![p1@] + split_n(rest2@, ' ', 2));
                            assert(split_n(line@, ' ', 4) =~= seq![p0@] + split_n(rest1@, ' ', 3));
                            assert(split_n(line@, ' ', 4) =~= seq![p0@, p1@, p2@, p3@]);
                        }
                        let level = self.parse_log_level(p1.as_str());
                        return LogEntry { timestamp: p0, level, source: p2, message: p3, raw: owned(line) };
                    },
                    None => {
                        proof {
                            assert(split_n(rest2@, ' ', 2) == seq![rest2@]);
                            assert(split_n(rest1@, ' ', 3) =~= seq![p1@] + split_n(rest2@, ' ', 2));
                            assert(split_n(line@, ' ', 4) =~= seq![p0@] + split_n(rest1@, ' ', 3));
                            assert(split_n(line@, ' ', 4).len() == 3);
                        }
                    },
                },
                None => {
                    proof {
                        assert(split_n(rest1@, ' ', 3) == seq![rest1@]);
                        assert(split_n(line@, ' ', 4) =~= seq![p0@] + split_n(rest1@, ' ', 3));
                        assert(split_n(line@, ' ', 4).len() == 2);
                    }
                },
            },
            None => {},
        }
        LogEntry {
            timestamp: String::new(),
            level: LogLevel::Info,
            source: String::new(),
            message: owned(line),
            raw: owned(line),
        }
    }

    /// Whether a line holds one of this collector's patterns.
    pub fn matches_pattern(&self, line: &str) -> (b: bool)
        ensures
            b == matches_any(line@, self.pattern_list()),
    {
        let mut k: usize = 0;
        while k < self.patterns.len()
            invariant
                k <= self.patterns@.len(),
                forall|j: int| 0 <= j < k ==> !contains(line@, #[trigger] self.pattern_list()[j]),
            decreases self.patterns@.len() - k,
        {
            proof {
                assert(self.pattern_list()[k as int] == self.patterns@[k as int]@);
            }
            if str_contains(line, self.patterns[k].as_str()) {
                return true;
            }
            k = k + 1;
        }
        false
    }

    /// The entries kept from a file's lines: those holding a pattern, at most the
    /// collector's limit.
    pub fn select_entries(&self, lines: &Vec<String>) -> (r: Vec<LogEntry>)
        ensures
            r@.len() == kept_lines(lines@.map_values(|l: String| l@), self.pattern_list(), self.max_lines()).len(),
            forall|j: int| 0 <= j < r@.len() ==> entry_of_line(
                kept_lines(lines@.map_values(|l: String| l@), self.pattern_list(), self.max_lines())[j],
                #[trigger] r@[j],
            ),
    {
        let ghost ls = lines@.map_values(|l: String| l@);
        let ghost ps = self.pattern_list();
        let ghost full = kept_lines(ls, ps, self.max_lines());
        let mut r: Vec<LogEntry> = Vec::new();
        let mut i: usize = 0;
        let mut count: usize = 0;
        assert(ls.skip(0) =~= ls);
        while i < lines.len() && count < self.max_lines_per_file
            invariant
                i <= lines@.len() == ls.len(),
                ls == lines@.map_values(|l: String| l@),
                ps == self.pattern_list(),
                count <= self.max_lines_per_file,
                r@.len() == count,
                full == kept_lines(ls, ps, self.max_lines()),
                full == Seq::new(count as nat, |j: int| full[j]) + kept_lines(ls.skip(i as int), ps, (self.max_lines() - count) as nat),
                forall|j: int| 0 <= j < count ==> entry_of_line(full[j], #[trigger] r@[j]),
            decreases lines@.len() - i,
        {
            let ghost rest = ls.skip(i as int);
            proof {
                assert(rest[0] == lines@[i as int]@);
                assert(rest.drop_first() =~= ls.skip(i + 1));
            }
            if self.matches_pattern(lines[i].as_str()) {
                let e = self.parse_log_line(lines[i].as_str());
                proof {
                    let k = kept_lines(rest, ps, (self.max_lines() - count) as nat);
                    assert(k =~= seq![rest[0]] + kept_lines(ls.skip(i + 1), ps, (self.max_lines() - count - 1) as nat));
                    assert(full[count as int] == rest[0]) by {
                        assert((Seq::new(count as nat, |j: int| full[j]) + k)[count as int] == k[0]);
                    }
                    assert(Seq::new(count as nat, |j: int| full[j]) + k =~= Seq::new((count + 1) as nat, |j: int| full[j])
                        + kept_lines(ls.skip(i + 1), ps, (self.max_lines() - count - 1) as nat));
                }
                r.push(e);
                count = count + 1;
            }
            i = i + 1;
        }
        proof {
            let k = kept_lines(ls.skip(i as int), ps, (self.max_lines() - count) as nat);
            if i == lines.len() {
                assert(ls.skip(i as int) =~= Seq::<Seq<char>>::empty());
            }
            assert(k.len() == 0);
            assert(full =~= Seq::new(count as nat, |j: int| full[j]));
        }
        r
    }

    /// The files to read: those configured for this collection, else the collector's own,
    /// else the default ones.
    pub fn paths_to_read(&self, config: &LogConfig) -> (r: Vec<String>)
        ensures
            r@.map_values(|p: String| p@) == (if config.log_paths@.len() > 0 {
                config.log_paths@.map_values(|p: String| p@)
            } else if self.paths().len() > 0 {
                self.paths()
            } else {
                default_log_paths_spec()
            }),
    {
        if config.log_paths.len() > 0 {
            copy_strings(&config.log_paths)
        } else if self.log_paths.len() > 0 {
            copy_strings(&self.log_paths)
        } else {
            Self::default_log_paths()
        }
    }
}

/// A copy of a list of strings.
pub fn copy_strings(v: &Vec<String>) -> (r: Vec<String>)
    ensures
        r@ == v@,
{
    let mut r: Vec<String> = Vec::new();
    let mut i: usize = 0;
    while i < v.len()
        invariant
            i <= v@.len(),
            r@ == v@.take(i as int),
        decreases v@.len() - i,
    {
        r.push(v[i].clone());
        i = i + 1;
        assert(r@ =~= v@.take(i as int));
    }
    assert(v@.take(i as int) =~= v@);
    r
}

} // verus!

verus! {

/// The position of the first tally kept for `p`, at or after `i`.
pub open spec fn key_from(cs: Seq<(Seq<char>, nat)>, p: Seq<char>, i: int) -> Option<int>
    decreases cs.len() - i,
{
    if i < 0 || i >= cs.len() {
        None
    } else if cs[i].0 == p {
        Some(i)
    } else {
        key_from(cs, p, i + 1)
    }
}

/// One more match of `p` counted.
pub open spec fn bump(cs: Seq<(Seq<char>, nat)>, p: Seq<char>) -> Seq<(Seq<char>, nat)> {
    match key_from(cs, p, 0) {
        Some(i) => cs.update(i, (p, cs[i].1 + 1)),
        None => cs.push((p, 1nat)),
    }
}

/// The matches of the patterns `ps` in one raw line counted.
pub open spec fn bump_line(cs: Seq<(Seq<char>, nat)>, raw: Seq<char>, ps: Seq<Seq<char>>) -> Seq<(Seq<char>, nat)>
    decreases ps.len(),
{
    if ps.len() == 0 {
        cs
    } else {
        let c = bump_line(cs, raw, ps.drop_last());
        if contains(raw, ps.last()) {
            bump(c, ps.last())
        } else {
            c
        }
    }
}

/// The pattern tallies over all entries: each pattern that matched, with how often (a
/// pattern listed twice counts twice), in the order first matched.
pub open spec fn tally(es: Seq<LogEntry>, ps: Seq<Seq<char>>) -> Seq<(Seq<char>, nat)>
    decreases es.len(),
{
    if es.len() == 0 {
        Seq::empty()
    } else {
        bump_line(tally(es.drop_last(), ps), es.last().raw@, ps)
    }
}

/// The first entry whose raw line holds `p`, at or after `i`.
pub open spec fn first_match(es: Seq<LogEntry>, p: Seq<char>, i: int) -> Option<int>
    decreases es.len() - i,
{
    if i < 0 || i >= es.len() {
        None
    } else if contains(es[i].raw@, p) {
        Some(i)
    } else {
        first_match(es, p, i + 1)
    }
}

/// The last entry before `n` whose raw line holds `p`.
pub open spec fn last_match(es: Seq<LogEntry>, p: Seq<char>, n: int) -> Option<int>
    decreases n,
{
    if n <= 0 {
        None
    } else if contains(es[n - 1].raw@, p) {
        Some(n - 1)
    } else {
        last_match(es, p, n - 1)
    }
}

/// A summary read as plain values: pattern, count, first and last time, sample message.
pub open spec fn summary_view(s: ErrorSummary) -> (Seq<char>, nat, Seq<char>, Seq<char>, Seq<char>) {
    (s.pattern@, s.count as nat, s.first_occurrence@, s.last_occurrence@, s.sample_message@)
}

/// What the entries say about one pattern: its count, the time of its first and last
/// match and the message of its first.
pub open spec fn pattern_summary(es: Seq<LogEntry>, p: Seq<char>, count: nat) -> (Seq<char>, nat, Seq<char>, Seq<char>, Seq<char>) {
    let f = first_match(es, p, 0);
    let l = last_match(es, p, es.len() as int);
    (
        p,
        count,
        match f { Some(i) => es[i].timestamp@, None => Seq::empty() },
        match l { Some(i) => es[i].timestamp@, None => Seq::empty() },
        match f { Some(i) => es[i].message@, None => Seq::empty() },
    )
}

/// `x` put after every summary with at least its count.
pub open spec fn insert_by_count(
    s: Seq<(Seq<char>, nat, Seq<char>, Seq<char>, Seq<char>)>,
    x: (Seq<char>, nat, Seq<char>, Seq<char>, Seq<char>),
) -> Seq<(Seq<char>, nat, Seq<char>, Seq<char>, Seq<char>)>
    decreases s.len(),
{
    if s.len() == 0 {
        seq![x]
    } else if s[0].1 < x.1 {
        seq![x] + s
    } else {
        seq![s[0]] + insert_by_count(s.drop_first(), x)
    }
}

/// The summaries sorted by count, largest first, equal counts kept in order.
pub open spec fn sort_by_count(s: Seq<(Seq<char>, nat, Seq<char>, Seq<char>, Seq<char>)>) -> Seq<
    (Seq<char>, nat, Seq<char>, Seq<char>, Seq<char>),
>
    decreases s.len(),
{
    if s.len() == 0 {
        Seq::empty()
    } else {
        insert_by_count(sort_by_count(s.drop_last()), s.last())
    }
}

/// The summaries of the tallied patterns, in tally order.
pub open spec fn summaries(es: Seq<LogEntry>, cs: Seq<(Seq<char>, nat)>) -> Seq<(Seq<char>, nat, Seq<char>, Seq<char>, Seq<char>)> {
    Seq::new(cs.len(), |j: int| pattern_summary(es, cs[j].0, cs[j].1))
}

/// The number of entries at level error or fatal.
pub open spec fn error_entries(es: Seq<LogEntry>) -> nat
    decreases es.len(),
{
    if es.len() == 0 {
        0
    } else {
        error_entries(es.drop_last()) + if es.last().level == LogLevel::Error || es.last().level
            == LogLevel::Fatal { 1nat } else { 0nat }
    }
}

/// The number of entries at level warn.
pub open spec fn warn_entries(es: Seq<LogEntry>) -> nat
    decreases es.len(),
{
    if es.len() == 0 {
        0
    } else {
        warn_entries(es.drop_last()) + if es.last().level == LogLevel::Warn { 1nat } else { 0nat }
    }
}

/// The entries of the files, in order.
pub open spec fn all_entries(files: Seq<(String, Vec<LogEntry>)>) -> Seq<LogEntry>
    decreases files.len(),
{
    if files.len() == 0 {
        Seq::empty()
    } else {
        all_entries(files.drop_last()) + files.last().1@
    }
}

/// The number of files with at least one entry.
pub open spec fn nonempty_files(files: Seq<(String, Vec<LogEntry>)>) -> nat
    decreases files.len(),
{
    if files.len() == 0 {
        0
    } else {
        nonempty_files(files.drop_last()) + if files.last().1@.len() > 0 { 1nat } else { 0nat }
    }
}

proof fn lemma_all_entries_len(files: Seq<(String, Vec<LogEntry>)>, k: int)
    requires
        0 <= k <= files.len(),
    ensures
        all_entries(files.take(k)).len() <= all_entries(files).len(),
        nonempty_files(files.take(k)) <= k,
    decreases files.len() - k,
{
    if k < files.len() {
        lemma_all_entries_len(files, k + 1);
        assert(files.take(k + 1).drop_last() =~= files.take(k));
    } else {
        assert(files.take(k) =~= files);
    }
    if k > 0 {
        assert(files.take(k).drop_last() =~= files.take(k - 1));
        lemma_nonempty_bound(files.take(k));
    }
}

proof fn lemma_nonempty_bound(files: Seq<(String, Vec<LogEntry>)>)
    ensures
        nonempty_files(files) <= files.len(),
    decreases files.len(),
{
    if files.len() > 0 {
        lemma_nonempty_bound(files.drop_last());
    }
}

proof fn lemma_key_from(cs: Seq<(Seq<char>, nat)>, p: Seq<char>, i: int)
    ensures
        match key_from(cs, p, i) {
            Some(j) => i <= j < cs.len() && cs[j].0 == p,
            None => true,
        },
    decreases cs.len() - i,
{
    if 0 <= i < cs.len() && cs[i].0 != p {
        lemma_key_from(cs, p, i + 1);
    }
}

fn key_position(cs: &Vec<(String, usize)>, p: &str) -> (r: Option<usize>)
    ensures
        match r {
            Some(i) => key_from(cs@.map_values(|c: (String, usize)| (c.0@, c.1 as nat)), p@, 0) == Some(i as int)
                && i < cs@.len(),
            None => key_from(cs@.map_values(|c: (String, usize)| (c.0@, c.1 as nat)), p@, 0) is None,
        },
{
    let ghost v = cs@.map_values(|c: (String, usize)| (c.0@, c.1 as nat));
    let mut i: usize = 0;
    while i < cs.len()
        invariant
            i <= cs@.len() == v.len(),
            v == cs@.map_values(|c: (String, usize)| (c.0@, c.1 as nat)),
            key_from(v, p@, 0) == key_from(v, p@, i as int),
        decreases cs@.len() - i,
    {
        if str_eq(cs[i].0.as_str(), p) {
            return Some(i);
        }
        i = i + 1;
    }
    None
}

impl LogCollector {
    /// The counts and top errors of the entries read from the files, in order: all
    /// entries, those at error or fatal, those at warn, the files that gave entries, each
    /// pattern's matches, and for the ten patterns matched most (ties in the order first
    /// matched) the count, the first and last time and the first message.
    pub fn summarize(&self, files: &Vec<(String, Vec<LogEntry>)>) -> (r: LogSummary)
        requires
            all_entries(files@).len() <= usize::MAX,
            all_entries(files@).len() * self.pattern_list().len() <= usize::MAX,
        ensures
            r.total_entries == all_entries(files@).len(),
            r.error_count == error_entries(all_entries(files@)),
            r.warn_count == warn_entries(all_entries(files@)),
            r.files_processed == nonempty_files(files@),
            r.patterns_matched@.map_values(|c: (String, usize)| (c.0@, c.1 as nat)) == tally(
                all_entries(files@),
                self.pattern_list(),
            ),
            r.top_errors@.map_values(|s: ErrorSummary| summary_view(s)) == (if sort_by_count(
                summaries(all_entries(files@), tally(all_entries(files@), self.pattern_list())),
            ).len() <= 10 {
                sort_by_count(summaries(all_entries(files@), tally(all_entries(files@), self.pattern_list())))
            } else {
                sort_by_count(summaries(all_entries(files@), tally(all_entries(files@), self.pattern_list()))).take(10)
            }),
    {
        let ghost ps = self.pattern_list();
        let ghost es_all = all_entries(files@);
        let mut entries: Vec<&LogEntry> = Vec::new();
        let mut total: usize = 0;
        let mut errors: usize = 0;
        let mut warns: usize = 0;
        let mut processed: usize = 0;
        let mut f: usize = 0;
        assert(files@.take(0) =~= Seq::<(String, Vec<LogEntry>)>::empty());
        while f < files.len()
            invariant
                f <= files@.len(),
                es_all == all_entries(files@),
                all_entries(files@).len() <= usize::MAX,
                entries@.len() == total,
                forall|j: int| 0 <= j < total ==> *(#[trigger] entries@[j]) == all_entries(files@.take(f as int))[j],
                total == all_entries(files@.take(f as int)).len(),
                errors == error_entries(all_entries(files@.take(f as int))),
                warns == warn_entries(all_entries(files@.take(f as int))),
                processed == nonempty_files(files@.take(f as int)),
                errors <= total && warns <= total,
            decreases files@.len() - f,
        {
            let ghost before = all_entries(files@.take(f as int));
            proof {
                assert(files@.take(f + 1).drop_last() =~= files@.take(f as int));
                assert(files@.take(f + 1).last() == files@[f as int]);
                lemma_all_entries_len(files@, f + 1);
                lemma_all_entries_len(files@, f as int);
            }
            let es = &files[f].1;
            let mut k: usize = 0;
            while k < es.len()
                invariant
                    k <= es@.len(),
                    es@ == files@[f as int].1@,
                    before == all_entries(files@.take(f as int)),
                    all_entries(files@.take(f + 1)) == before + es@,
                    all_entries(files@.take(f + 1)).len() <= all_entries(files@).len(),
                    all_entries(files@).len() <= usize::MAX,
                    entries@.len() == total,
                    total == before.len() + k,
                    forall|j: int| 0 <= j < total ==> *(#[trigger] entries@[j]) == (before + es@.take(k as int))[j],
                    errors == error_entries(before + es@.take(k as int)),
                    warns == warn_entries(before + es@.take(k as int)),
                    errors <= total && warns <= total,
                decreases es@.len() - k,
            {
                proof {
                    assert((before + es@.take(k + 1)).drop_last() =~= before + es@.take(k as int));
                    assert((before + es@.take(k + 1)).last() == es@[k as int]);
                }
                let e = &es[k];
                entries.push(e);
                total = total + 1;
                match e.level {
                    LogLevel::Error | LogLevel::Fatal => errors = errors + 1,
                    LogLevel::Warn => warns = warns + 1,
                    _ => {},
                }
                k = k + 1;
            }
            proof {
                assert(es@.take(k as int) =~= es@);
            }
            if es.len() > 0 {
                processed = processed + 1;
            }
            f = f + 1;
        }
        assert(files@.take(f as int) =~= files@);
        // Tally the pattern matches.
        let mut counts: Vec<(String, usize)> = Vec::new();
        let n = entries.len();
        let np = self.patterns.len();
        let mut i: usize = 0;
        assert(es_all.take(0) =~= Seq::<LogEntry>::empty());
        while i < n
            invariant
                i <= n == es_all.len(),
                entries@.len() == n,
                np == ps.len(),
                ps == self.pattern_list(),
                n * np <= usize::MAX,
                forall|j: int| 0 <= j < n ==> *(#[trigger] entries@[j]) == es_all[j],
                counts@.map_values(|c: (String, usize)| (c.0@, c.1 as nat)) == tally(es_all.take(i as int), ps),
                forall|j: int| 0 <= j < counts@.len() ==> (#[trigger] counts@[j]).1 <= i * np,
            decreases n - i,
        {
            let raw = entries[i].raw.as_str();
            let mut k: usize = 0;
            proof {
                assert(es_all.take(i + 1).drop_last() =~= es_all.take(i as int));
                assert(es_all.take(i + 1).last() == es_all[i as int]);
                assert(ps.take(0) =~= Seq::<Seq<char>>::empty());
                assert((i + 1) * np == i * np + np) by (nonlinear_arith);
                assert((i + 1) * np <= n * np) by (nonlinear_arith)
                    requires
                        i + 1 <= n,
                ;
            }
            while k < np
                invariant
                    k <= np == ps.len(),
                    ps == self.pattern_list(),
                    i < n,
                    (i + 1) * np <= usize::MAX,
                    raw@ == es_all[i as int].raw@,
                    counts@.map_values(|c: (String, usize)| (c.0@, c.1 as nat)) == bump_line(
                        tally(es_all.take(i as int), ps),
                        raw@,
                        ps.take(k as int),
                    ),
                    forall|j: int| 0 <= j < counts@.len() ==> (#[trigger] counts@[j]).1 <= i * np + k,
                decreases np - k,
            {
                let ghost cv = counts@.map_values(|c: (String, usize)| (c.0@, c.1 as nat));
                proof {
                    assert(ps.take(k + 1).drop_last() =~= ps.take(k as int));
                    assert(ps.take(k + 1).last() == ps[k as int]);
                    assert(ps[k as int] == self.patterns@[k as int]@);
                    assert((i + 1) * np == i * np + np) by (nonlinear_arith);
                }
                let p = self.patterns[k].as_str();
                if str_contains(raw, p) {
                    match key_position(&counts, p) {
                        Some(j) => {
                            proof {
                                lemma_key_from(cv, p@, 0);
                            }
                            let c = counts[j].1;
                            let key = counts[j].0.clone();
                            counts.set(j, (key, c + 1));
                            proof {
                                assert(counts@.map_values(|c: (String, usize)| (c.0@, c.1 as nat)) =~= cv.update(
                                    j as int,
                                    (p@, cv[j as int].1 + 1),
                                ));
                            }
                        },
                        None => {
                            counts.push((p.to_owned(), 1));
                            proof {
                                assert(counts@.map_values(|c: (String, usize)| (c.0@, c.1 as nat)) =~= cv.push(
                                    (p@, 1nat),
                                ));
                            }
                        },
                    }
                }
                k = k + 1;
            }
            proof {
                assert(ps.take(np as int) =~= ps);
                assert(i * np + np == (i + 1) * np) by (nonlinear_arith);
            }
            i = i + 1;
        }
        assert(es_all.take(n as int) =~= es_all);
        // Summarise each tallied pattern, keeping the list sorted by count.
        let ghost cs = counts@.map_values(|c: (String, usize)| (c.0@, c.1 as nat));
        let ghost sums = summaries(es_all, cs);
        let mut top: Vec<ErrorSummary> = Vec::new();
        let mut t: usize = 0;
        assert(sums.take(0) =~= Seq::<(Seq<char>, nat, Seq<char>, Seq<char>, Seq<char>)>::empty());
        while t < counts.len()
            invariant
                t <= counts@.len() == cs.len(),
                cs == counts@.map_values(|c: (String, usize)| (c.0@, c.1 as nat)),
                sums == summaries(es_all, cs),
                n == es_all.len(),
                entries@.len() == n,
                forall|j: int| 0 <= j < n ==> *(#[trigger] entries@[j]) == es_all[j],
                top@.map_values(|s: ErrorSummary| summary_view(s)) == sort_by_count(sums.take(t as int)),
            decreases counts@.len() - t,
        {
            let p = counts[t].0.as_str();
            let mut first: Option<usize> = None;
            let mut last: Option<usize> = None;
            let mut j: usize = 0;
            while j < n
                invariant
                    j <= n == es_all.len(),
                    entries@.len() == n,
                    forall|q: int| 0 <= q < n ==> *(#[trigger] entries@[q]) == es_all[q],
                    match first {
                        Some(a) => first_match(es_all, p@, 0) == Some(a as int) && a < j,
                        None => first_match(es_all, p@, 0) == first_match(es_all, p@, j as int),
                    },
                    match last {
                        Some(b) => last_match(es_all, p@, j as int) == Some(b as int) && b < n,
                        None => last_match(es_all, p@, j as int) is None,
                    },
                decreases n - j,
            {
                if str_contains(entries[j].raw.as_str(), p) {
                    if first.is_none() {
                        first = Some(j);
                    }
                    last = Some(j);
                }
                j = j + 1;
            }
            let (first_occurrence, sample_message) = match first {
                Some(a) => (entries[a].timestamp.clone(), entries[a].message.clone()),
                None => (String::new(), String::new()),
            };
            let last_occurrence = match last {
                Some(b) => entries[b].timestamp.clone(),
                None => String::new(),
            };
            let s = ErrorSummary {
                pattern: counts[t].0.clone(),
                count: counts[t].1,
                first_occurrence,
                last_occurrence,
                sample_message,
            };
            proof {
                assert(summary_view(s) == sums[t as int]);
                assert(sums.take(t + 1).drop_last() =~= sums.take(t as int));
                assert(sums.take(t + 1).last() == sums[t as int]);
            }
            let ghost sorted = top@.map_values(|s: ErrorSummary| summary_view(s));
            let mut pos: usize = 0;
            assert(sorted.skip(0) =~= sorted);
            assert(sorted.take(0) + insert_by_count(sorted, summary_view(s)) =~= insert_by_count(sorted, summary_view(s)));
            while pos < top.len() && top[pos].count >= s.count
                invariant
                    pos <= top@.len(),
                    sorted == top@.map_values(|s: ErrorSummary| summary_view(s)),
                    insert_by_count(sorted, summary_view(s)) == sorted.take(pos as int) + insert_by_count(
                        sorted.skip(pos as int),
                        summary_view(s),
                    ),
                decreases top@.len() - pos,
            {
                proof {
                    let rest = sorted.skip(pos as int);
                    assert(rest[0] == summary_view(top@[pos as int]));
                    assert(rest.drop_first() =~= sorted.skip(pos + 1));
                    assert(sorted.take(pos as int) + (seq![rest[0]] + insert_by_count(rest.drop_first(), summary_view(s)))
                        =~= sorted.take(pos + 1) + insert_by_count(sorted.skip(pos + 1), summary_view(s)));
                }
                pos = pos + 1;
            }
            proof {
                let rest = sorted.skip(pos as int);
                if pos < top@.len() {
                    assert(rest[0] == summary_view(top@[pos as int]));
                }
            }
            top.insert(pos, s);
            proof {
                let rest = sorted.skip(pos as int);
                assert(top@.map_values(|s: ErrorSummary| summary_view(s)) =~= sorted.take(pos as int) + (seq![
                    summary_view(s)] + rest));
            }
            t = t + 1;
        }
        assert(sums.take(t as int) =~= sums);
        top.truncate(10);
        proof {
            let full = sort_by_count(sums);
            if full.len() <= 10 {
            } else {
                assert(top@.map_values(|s: ErrorSummary| summary_view(s)) =~= full.take(10));
            }
        }
        LogSummary {
            total_entries: total,
            error_count: errors,
            warn_count: warns,
            files_processed: processed,
            patterns_matched: counts,
            top_errors: top,
        }
    }
}

} // verus!
