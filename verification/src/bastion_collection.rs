//! Collecting the cluster-wide data on the bastion, step by step: `kafkactl`'s view of
//! the brokers, topics (through Kafka's own tools when the brokers were found through
//! an installation, else through `kafkactl`), consumer groups and broker
//! configurations; the exporter's metrics; and the bastion's own system facts. Each step
//! names one command (or one file to write); what the command printed is recorded.
use vstd::prelude::*;
use crate::text::{trim, lines, before_char, owned, concat};
use crate::numbers::{decimal, decimal_string};
use crate::strmap::StrMap;
use crate::scan::{ClusterData, DiscoveryMethod};
use crate::discovery::hostname_of;
use crate::collector::{BastionCollector, kafkactl_topics, kafkactl_topic_names};

verus! {

/// Where the collection stands.
#[derive(Clone, Copy, Debug)]
pub enum BastionStage {
    /// Checking that `kafkactl` is installed.
    Which,
    /// Noting that `kafkactl` is not installed.
    NoteUnavailable,
    /// `kafkactl get brokers`.
    Brokers,
    /// `kafka-topics.sh --describe` on the discovery broker.
    DescribeTopics,
    /// `kafka-topics.sh --list` on the discovery broker.
    ListTopics,
    /// `kafkactl get topics`.
    Topics,
    /// `kafkactl describe topic` for the listed topic at this index.
    DescribeTopic(usize),
    /// Writing the topic descriptions.
    WriteDetailed,
    /// `kafkactl get consumer-groups`.
    ConsumerGroups,
    /// `kafkactl describe broker` for the broker id at this index (from 11).
    BrokerConfig(usize),
    /// The exporter's metrics.
    Metrics,
    /// The bastion system command at this index.
    System(usize),
    /// Everything is collected.
    Done,
}

/// What the collection needs done next.
pub enum BastionAction {
    /// Run this command on the bastion; when it succeeds, save what it printed under
    /// `save` (relative to the output directory), if given.
    Run { command: String, save: Option<String> },
    /// Write this text under this path (relative to the output directory).
    Write { path: String, text: String },
}

/// The collection and what it gathered so far.
pub struct BastionCollection {
    pub stage: BastionStage,
    /// How the brokers were found, which decides how topics are collected.
    pub method: Option<DiscoveryMethod>,
    /// The topics `kafkactl` listed.
    pub topic_names: Vec<String>,
    /// The topic descriptions gathered so far.
    pub detailed: String,
    pub kafkactl_data: StrMap,
    pub metrics: Option<String>,
    pub bastion_info: StrMap,
}

/// The bastion system facts gathered, by name.
pub open spec fn system_name(i: nat) -> Seq<char> {
    if i == 0 {
        "hostname"@
    } else if i == 1 {
        "uptime"@
    } else if i == 2 {
        "memory"@
    } else if i == 3 {
        "disk"@
    } else if i == 4 {
        "processes"@
    } else if i == 5 {
        "lscpu"@
    } else {
        "cpuinfo"@
    }
}

/// The command gathering each bastion system fact.
pub open spec fn system_command(i: nat) -> Seq<char> {
    if i == 0 {
        "hostname -f"@
    } else if i == 1 {
        "uptime"@
    } else if i == 2 {
        "free -h"@
    } else if i == 3 {
        "df -h"@
    } else if i == 4 {
        "ps aux | grep -E 'kafka|zookeeper' | grep -v grep"@
    } else if i == 5 {
        "lscpu 2>/dev/null"@
    } else {
        "cat /proc/cpuinfo 2>/dev/null"@
    }
}

/// The `kafka-topics.sh` command run through the discovery broker, with its mode.
pub open spec fn topics_tool(method: Option<DiscoveryMethod>, mode: Seq<char>) -> Seq<char> {
    match method {
        Some(DiscoveryMethod::KafkaTools { kafka_installation_path, discovery_broker }) => "ssh -o StrictHostKeyChecking=no "@
            + before_char(discovery_broker@, ':') + " '"@ + kafka_installation_path@
            + "/kafka-topics.sh --bootstrap-server localhost:9092 "@ + mode + "'"@,
        _ => Seq::empty(),
    }
}

/// The broker id described at an index.
pub open spec fn broker_config_id(i: nat) -> nat {
    11 + i
}

/// The action a stage needs, as (whether it is a command, command or path, file to
/// save to or text to write); none when the collection is done.
pub open spec fn bastion_action(c: BastionCollection) -> Option<(bool, Seq<char>, Option<Seq<char>>)> {
    match c.stage {
        BastionStage::Which => Some((true, "which kafkactl"@, None)),
        BastionStage::NoteUnavailable => Some(
            (
                false,
                "cluster/kafkactl/unavailable.txt"@,
                Some("kafkactl tool was not available on the bastion host during scan"@),
            ),
        ),
        BastionStage::Brokers => Some((true, "kafkactl get brokers -o yaml"@, Some("cluster/kafkactl/brokers.yaml"@))),
        BastionStage::DescribeTopics => Some(
            (true, topics_tool(c.method, "--describe"@), Some("cluster/tools/topics_kafka_tools.txt"@)),
        ),
        BastionStage::ListTopics => Some((true, topics_tool(c.method, "--list"@), Some("cluster/tools/topics_list.txt"@))),
        BastionStage::Topics => Some((true, "kafkactl get topics -o yaml"@, Some("cluster/kafkactl/topics.yaml"@))),
        BastionStage::DescribeTopic(i) => Some(
            (true, "kafkactl describe topic "@ + c.topic_names@[i as int]@ + " -o yaml"@, None),
        ),
        BastionStage::WriteDetailed => Some((false, "cluster/kafkactl/topics_detailed.yaml"@, Some(c.detailed@))),
        BastionStage::ConsumerGroups => Some(
            (true, "kafkactl get consumer-groups -o yaml"@, Some("cluster/kafkactl/consumer_groups.yaml"@)),
        ),
        BastionStage::BrokerConfig(i) => Some(
            (
                true,
                "kafkactl describe broker "@ + decimal(broker_config_id(i as nat)) + " -o yaml"@,
                Some("cluster/kafkactl/broker_"@ + decimal(broker_config_id(i as nat)) + "_config.yaml"@),
            ),
        ),
        BastionStage::Metrics => Some(
            (true, "curl -s http://localhost:9308/metrics"@, Some("metrics/kafka_exporter/prometheus_metrics.txt"@)),
        ),
        BastionStage::System(i) => Some(
            (true, system_command(i as nat), Some("system/bastion/"@ + system_name(i as nat) + ".txt"@)),
        ),
        BastionStage::Done => None,
    }
}

/// Where topic collection starts: Kafka's tools when the brokers were found through an
/// installation, else `kafkactl`.
pub open spec fn topics_start(method: Option<DiscoveryMethod>) -> BastionStage {
    if method matches Some(DiscoveryMethod::KafkaTools { .. }) {
        BastionStage::DescribeTopics
    } else {
        BastionStage::Topics
    }
}

/// The data is the same in both, but for what is named.
pub open spec fn kept(a: BastionCollection, b: BastionCollection) -> bool {
    &&& b.method == a.method
    &&& b.topic_names@.map_values(|s: String| s@) == a.topic_names@.map_values(|s: String| s@)
    &&& b.detailed@ == a.detailed@
    &&& b.metrics == a.metrics
    &&& b.bastion_info@ == a.bastion_info@
}

/// `data` with `key` set to the output, when the command succeeded.
pub open spec fn recorded(data: Map<Seq<char>, Seq<char>>, key: Seq<char>, out: Option<Seq<char>>) -> Map<
    Seq<char>,
    Seq<char>,
> {
    match out {
        Some(o) => data.insert(key, o),
        None => data,
    }
}

/// What a step's outcome (the command's output, none when it failed; ignored for a
/// write) does to the collection.
pub open spec fn bastion_step(a: BastionCollection, out: Option<Seq<char>>, b: BastionCollection) -> bool {
    match a.stage {
        BastionStage::Which => {
            &&& b.stage == (if out matches Some(o) && trim(o).len() > 0 {
                BastionStage::Brokers
            } else {
                BastionStage::NoteUnavailable
            })
            &&& kept(a, b) && b.kafkactl_data@ == a.kafkactl_data@
        },
        BastionStage::NoteUnavailable => b.stage == BastionStage::Metrics && kept(a, b) && b.kafkactl_data@
            == a.kafkactl_data@,
        BastionStage::Brokers => b.stage == topics_start(a.method) && kept(a, b) && b.kafkactl_data@ == recorded(
            a.kafkactl_data@,
            "brokers"@,
            out,
        ),
        BastionStage::DescribeTopics => {
            &&& b.stage == (if out is Some { BastionStage::ListTopics } else { BastionStage::Topics })
            &&& kept(a, b) && b.kafkactl_data@ == recorded(a.kafkactl_data@, "topics_kafka_tools"@, out)
        },
        BastionStage::ListTopics => b.stage == BastionStage::ConsumerGroups && kept(a, b) && b.kafkactl_data@
            == recorded(a.kafkactl_data@, "topics_list"@, out),
        BastionStage::Topics => match out {
            Some(t) => {
                &&& b.topic_names@.map_values(|s: String| s@) == kafkactl_topics(lines(t))
                &&& b.stage == (if kafkactl_topics(lines(t)).len() > 0 {
                    BastionStage::DescribeTopic(0)
                } else {
                    BastionStage::WriteDetailed
                })
                &&& b.detailed@ == Seq::<char>::empty()
                &&& b.kafkactl_data@ == a.kafkactl_data@.insert("topics"@, t)
                &&& b.method == a.method && b.metrics == a.metrics && b.bastion_info@ == a.bastion_info@
            },
            None => b.stage == BastionStage::ConsumerGroups && kept(a, b) && b.kafkactl_data@ == a.kafkactl_data@,
        },
        BastionStage::DescribeTopic(i) => {
            let name = a.topic_names@[i as int]@;
            &&& b.stage == (if i + 1 < a.topic_names@.len() {
                BastionStage::DescribeTopic((i + 1) as usize)
            } else {
                BastionStage::WriteDetailed
            })
            &&& b.detailed@ == (match out {
                Some(d) => a.detailed@ + "---\n# Topic: "@ + name + "\n"@ + d + "\n\n"@,
                None => a.detailed@,
            })
            &&& b.method == a.method && b.metrics == a.metrics && b.bastion_info@ == a.bastion_info@
            &&& b.topic_names@.map_values(|s: String| s@) == a.topic_names@.map_values(|s: String| s@)
            &&& b.kafkactl_data@ == a.kafkactl_data@
        },
        BastionStage::WriteDetailed => b.stage == BastionStage::ConsumerGroups && kept(a, b) && b.kafkactl_data@
            == a.kafkactl_data@.insert("topics_detailed"@, a.detailed@),
        BastionStage::ConsumerGroups => b.stage == BastionStage::BrokerConfig(0) && kept(a, b) && b.kafkactl_data@
            == recorded(a.kafkactl_data@, "consumer_groups"@, out),
        BastionStage::BrokerConfig(i) => {
            &&& b.stage == (if i + 1 < 6 { BastionStage::BrokerConfig((i + 1) as usize) } else { BastionStage::Metrics })
            &&& kept(a, b)
            &&& b.kafkactl_data@ == recorded(
                a.kafkactl_data@,
                "broker_"@ + decimal(broker_config_id(i as nat)) + "_config"@,
                out,
            )
        },
        BastionStage::Metrics => {
            &&& b.stage == BastionStage::System(0)
            &&& match out {
                Some(m) => b.metrics matches Some(x) && x@ == m,
                None => b.metrics is None,
            }
            &&& b.method == a.method && b.detailed@ == a.detailed@ && b.bastion_info@ == a.bastion_info@
            &&& b.topic_names@.map_values(|s: String| s@) == a.topic_names@.map_values(|s: String| s@)
            &&& b.kafkactl_data@ == a.kafkactl_data@
        },
        BastionStage::System(i) => {
            &&& b.stage == (if i + 1 < 7 { BastionStage::System((i + 1) as usize) } else { BastionStage::Done })
            &&& b.bastion_info@ == recorded(a.bastion_info@, system_name(i as nat), out)
            &&& b.method == a.method && b.detailed@ == a.detailed@ && b.metrics == a.metrics
            &&& b.topic_names@.map_values(|s: String| s@) == a.topic_names@.map_values(|s: String| s@)
            &&& b.kafkactl_data@ == a.kafkactl_data@
        },
        BastionStage::Done => b.stage == BastionStage::Done,
    }
}

/// Whether the stage's indexes stay within their lists.
pub open spec fn bastion_wf(c: BastionCollection) -> bool {
    match c.stage {
        BastionStage::DescribeTopic(i) => i < c.topic_names@.len(),
        BastionStage::BrokerConfig(i) => i < 6,
        BastionStage::System(i) => i < 7,
        BastionStage::DescribeTopics => c.method matches Some(DiscoveryMethod::KafkaTools { .. }),
        BastionStage::ListTopics => c.method matches Some(DiscoveryMethod::KafkaTools { .. }),
        _ => true,
    }
}

/// A discovery method as plain values: none, `kafkactl`, or Kafka's tools with their
/// installation and broker.
pub open spec fn method_view(m: Option<DiscoveryMethod>) -> Option<Option<(Seq<char>, Seq<char>)>> {
    match m {
        None => None,
        Some(DiscoveryMethod::Kafkactl) => Some(None),
        Some(DiscoveryMethod::KafkaTools { kafka_installation_path, discovery_broker }) => Some(
            Some((kafka_installation_path@, discovery_broker@)),
        ),
    }
}

fn copy_method(m: &Option<DiscoveryMethod>) -> (r: Option<DiscoveryMethod>)
    ensures
        method_view(r) == method_view(*m),
        topics_tool(r, "--describe"@) == topics_tool(*m, "--describe"@),
        topics_tool(r, "--list"@) == topics_tool(*m, "--list"@),
        (r matches Some(DiscoveryMethod::KafkaTools { .. })) == (*m matches Some(DiscoveryMethod::KafkaTools { .. })),
{
    match m {
        None => None,
        Some(DiscoveryMethod::Kafkactl) => Some(DiscoveryMethod::Kafkactl),
        Some(DiscoveryMethod::KafkaTools { kafka_installation_path, discovery_broker }) => Some(
            DiscoveryMethod::KafkaTools {
                kafka_installation_path: owned(kafka_installation_path.as_str()),
                discovery_broker: owned(discovery_broker.as_str()),
            },
        ),
    }
}

fn system_of(i: usize) -> (r: (&'static str, &'static str))
    ensures
        r.0@ == system_name(i as nat),
        r.1@ == system_command(i as nat),
{
    if i == 0 {
        ("hostname", "hostname -f")
    } else if i == 1 {
        ("uptime", "uptime")
    } else if i == 2 {
        ("memory", "free -h")
    } else if i == 3 {
        ("disk", "df -h")
    } else if i == 4 {
        ("processes", "ps aux | grep -E 'kafka|zookeeper' | grep -v grep")
    } else if i == 5 {
        ("lscpu", "lscpu 2>/dev/null")
    } else {
        ("cpuinfo", "cat /proc/cpuinfo 2>/dev/null")
    }
}

fn topics_tool_of(method: &Option<DiscoveryMethod>, mode: &str) -> (r: String)
    ensures
        r@ == topics_tool(*method, mode@),
{
    match method {
        Some(DiscoveryMethod::KafkaTools { kafka_installation_path, discovery_broker }) => {
            let host = hostname_of(discovery_broker.as_str());
            let mut r = concat("ssh -o StrictHostKeyChecking=no ", host.as_str());
            r = concat(r.as_str(), " '");
            r = concat(r.as_str(), kafka_installation_path.as_str());
            r = concat(r.as_str(), "/kafka-topics.sh --bootstrap-server localhost:9092 ");
            r = concat(r.as_str(), mode);
            concat(r.as_str(), "'")
        },
        _ => String::new(),
    }
}

fn record(data: &mut StrMap, key: &str, out: Option<&str>)
    ensures
        final(data)@ == recorded(
            old(data)@,
            key@,
            match out {
                Some(o) => Some(o@),
                None => None,
            },
        ),
{
    match out {
        Some(o) => data.insert(owned(key), owned(o)),
        None => {},
    }
}

impl BastionCollection {
    /// The collection a bastion collector runs, with nothing gathered yet.
    pub fn new(collector: &BastionCollector) -> (c: BastionCollection)
        ensures
            bastion_wf(c),
            c.stage == BastionStage::Which,
            method_view(c.method) == method_view(collector.method()),
            c.kafkactl_data@ == Map::<Seq<char>, Seq<char>>::empty(),
            c.bastion_info@ == Map::<Seq<char>, Seq<char>>::empty(),
            c.metrics is None,
    {
        BastionCollection {
            stage: BastionStage::Which,
            method: copy_method(collector.discovery_method()),
            topic_names: Vec::new(),
            detailed: String::new(),
            kafkactl_data: StrMap::new(),
            metrics: None,
            bastion_info: StrMap::new(),
        }
    }

    /// What to do next; none once everything is collected.
    pub fn action(&self) -> (r: Option<BastionAction>)
        requires
            bastion_wf(*self),
        ensures
            match r {
                Some(BastionAction::Run { command, save }) => bastion_action(*self) == Some(
                    (
                        true,
                        command@,
                        match save {
                            Some(s) => Some(s@),
                            None => None,
                        },
                    ),
                ),
                Some(BastionAction::Write { path, text }) => bastion_action(*self) == Some((false, path@, Some(text@))),
                None => bastion_action(*self) is None,
            },
    {
        match self.stage {
            BastionStage::Which => Some(BastionAction::Run { command: owned("which kafkactl"), save: None }),
            BastionStage::NoteUnavailable => Some(
                BastionAction::Write {
                    path: owned("cluster/kafkactl/unavailable.txt"),
                    text: owned("kafkactl tool was not available on the bastion host during scan"),
                },
            ),
            BastionStage::Brokers => Some(
                BastionAction::Run {
                    command: owned("kafkactl get brokers -o yaml"),
                    save: Some(owned("cluster/kafkactl/brokers.yaml")),
                },
            ),
            BastionStage::DescribeTopics => Some(
                BastionAction::Run {
                    command: topics_tool_of(&self.method, "--describe"),
                    save: Some(owned("cluster/tools/topics_kafka_tools.txt")),
                },
            ),
            BastionStage::ListTopics => Some(
                BastionAction::Run {
                    command: topics_tool_of(&self.method, "--list"),
                    save: Some(owned("cluster/tools/topics_list.txt")),
                },
            ),
            BastionStage::Topics => Some(
                BastionAction::Run {
                    command: owned("kafkactl get topics -o yaml"),
                    save: Some(owned("cluster/kafkactl/topics.yaml")),
                },
            ),
            BastionStage::DescribeTopic(i) => {
                let c = concat(concat("kafkactl describe topic ", self.topic_names[i].as_str()).as_str(), " -o yaml");
                Some(BastionAction::Run { command: c, save: None })
            },
            BastionStage::WriteDetailed => Some(
                BastionAction::Write { path: owned("cluster/kafkactl/topics_detailed.yaml"), text: self.detailed.clone() },
            ),
            BastionStage::ConsumerGroups => Some(
                BastionAction::Run {
                    command: owned("kafkactl get consumer-groups -o yaml"),
                    save: Some(owned("cluster/kafkactl/consumer_groups.yaml")),
                },
            ),
            BastionStage::BrokerConfig(i) => {
                let id = decimal_string((11 + i) as u64);
                let c = concat(concat("kafkactl describe broker ", id.as_str()).as_str(), " -o yaml");
                let s = concat(concat("cluster/kafkactl/broker_", id.as_str()).as_str(), "_config.yaml");
                Some(BastionAction::Run { command: c, save: Some(s) })
            },
            BastionStage::Metrics => Some(
                BastionAction::Run {
                    command: owned("curl -s http://localhost:9308/metrics"),
                    save: Some(owned("metrics/kafka_exporter/prometheus_metrics.txt")),
                },
            ),
            BastionStage::System(i) => {
                let (name, command) = system_of(i);
                let s = concat(concat("system/bastion/", name).as_str(), ".txt");
                Some(BastionAction::Run { command: owned(command), save: Some(s) })
            },
            BastionStage::Done => None,
        }
    }

    /// Takes the outcome of the current action (what the command printed, none when it
    /// failed; ignored after a write) and moves on.
    pub fn advance(&mut self, out: Option<&str>)
        requires
            bastion_wf(*old(self)),
        ensures
            bastion_wf(*final(self)),
            bastion_step(
                *old(self),
                match out {
                    Some(o) => Some(o@),
                    None => None,
                },
                *final(self),
            ),
    {
        match self.stage {
            BastionStage::Which => {
                let available = crate::discovery::check_kafkactl_availability(out);
                self.stage = if available { BastionStage::Brokers } else { BastionStage::NoteUnavailable };
            },
            BastionStage::NoteUnavailable => {
                self.stage = BastionStage::Metrics;
            },
            BastionStage::Brokers => {
                record(&mut self.kafkactl_data, "brokers", out);
                self.stage = match &self.method {
                    Some(DiscoveryMethod::KafkaTools { .. }) => BastionStage::DescribeTopics,
                    _ => BastionStage::Topics,
                };
            },
            BastionStage::DescribeTopics => {
                record(&mut self.kafkactl_data, "topics_kafka_tools", out);
                self.stage = if out.is_some() { BastionStage::ListTopics } else { BastionStage::Topics };
            },
            BastionStage::ListTopics => {
                record(&mut self.kafkactl_data, "topics_list", out);
                self.stage = BastionStage::ConsumerGroups;
            },
            BastionStage::Topics => match out {
                Some(t) => {
                    self.kafkactl_data.insert(owned("topics"), owned(t));
                    self.topic_names = kafkactl_topic_names(t);
                    self.detailed = String::new();
                    self.stage = if self.topic_names.len() > 0 {
                        BastionStage::DescribeTopic(0)
                    } else {
                        BastionStage::WriteDetailed
                    };
                },
                None => {
                    self.stage = BastionStage::ConsumerGroups;
                },
            },
            BastionStage::DescribeTopic(i) => {
                let n = self.topic_names.len();
                assert(i < n);
                match out {
                    Some(d) => {
                        let mut text = concat(self.detailed.as_str(), "---\n# Topic: ");
                        text = concat(text.as_str(), self.topic_names[i].as_str());
                        text = concat(text.as_str(), "\n");
                        text = concat(text.as_str(), d);
                        text = concat(text.as_str(), "\n\n");
                        self.detailed = text;
                    },
                    None => {},
                }
                self.stage = if i + 1 < n {
                    BastionStage::DescribeTopic(i + 1)
                } else {
                    BastionStage::WriteDetailed
                };
            },
            BastionStage::WriteDetailed => {
                let text = self.detailed.clone();
                self.kafkactl_data.insert(owned("topics_detailed"), text);
                self.stage = BastionStage::ConsumerGroups;
            },
            BastionStage::ConsumerGroups => {
                record(&mut self.kafkactl_data, "consumer_groups", out);
                self.stage = BastionStage::BrokerConfig(0);
            },
            BastionStage::BrokerConfig(i) => {
                let id = decimal_string((11 + i) as u64);
                let key = concat(concat("broker_", id.as_str()).as_str(), "_config");
                record(&mut self.kafkactl_data, key.as_str(), out);
                self.stage = if i + 1 < 6 { BastionStage::BrokerConfig(i + 1) } else { BastionStage::Metrics };
            },
            BastionStage::Metrics => {
                self.metrics = match out {
                    Some(m) => Some(owned(m)),
                    None => None,
                };
                self.stage = BastionStage::System(0);
            },
            BastionStage::System(i) => {
                let (name, _) = system_of(i);
                record(&mut self.bastion_info, name, out);
                self.stage = if i + 1 < 7 { BastionStage::System(i + 1) } else { BastionStage::Done };
            },
            BastionStage::Done => {},
        }
    }

    /// What was collected.
    pub fn finish(self) -> (r: ClusterData)
        ensures
            r.kafkactl_data@ == self.kafkactl_data@,
            r.metrics == self.metrics,
            r.bastion_info@ == self.bastion_info@,
    {
        ClusterData { kafkactl_data: self.kafkactl_data, metrics: self.metrics, bastion_info: self.bastion_info }
    }
}

} // verus!
