//! Finding a cluster's brokers from one `host:port` through the bastion: the Kafka
//! installation on that broker lists its peers; failing that, the broker is probed from
//! the bastion, then Kafka's metadata shell and API versions tools are tried; the given
//! broker alone is the last resort. Each step names one bastion command; what it printed
//! decides the next step.
use vstd::prelude::*;
use crate::text::{trim, contains, lines, before_char, split_char, owned, concat, str_contains, split_lines, trimmed, str_eq};
use crate::scan::{BrokerInfo, DiscoveryMethod, datacenter_of};
use crate::discovery::{
    brokers_read, listed_hosts, metadata_shell_broker, installation_path_from_systemctl_spec,
    installation_path_from_ps_spec, fallback_installation_paths_spec, hostname_of, installation_path_from_systemctl,
    installation_path_from_ps, parse_listed_brokers, parse_metadata_shell_broker_line,
};
use crate::log_discovery::split_on_char;

verus! {

/// Where the search stands.
#[derive(Clone, Debug)]
pub enum BrokerStep {
    /// Asking systemd, on the broker, which installation runs Kafka.
    ProbeSystemctl,
    /// Reading the installation from the broker's `ps` line.
    ProbePs,
    /// Testing for the Kafka tools in the usual installation at this index.
    ProbeTools(usize),
    /// Listing the cluster's brokers with the tools of this installation.
    ListBrokers(String),
    /// Probing the broker from the bastion with the test at this index.
    Reach(usize),
    /// Asking Kafka's metadata shell for the brokers.
    MetadataShell,
    /// Asking Kafka's API versions tool about the broker.
    ApiVersions,
    /// The brokers are known.
    Done,
}

/// A step as plain values.
pub ghost enum StepView {
    ProbeSystemctl,
    ProbePs,
    ProbeTools(nat),
    ListBrokers(Seq<char>),
    Reach(nat),
    MetadataShell,
    ApiVersions,
    Done,
}

/// The plain values of a step.
pub open spec fn step_view(s: BrokerStep) -> StepView {
    match s {
        BrokerStep::ProbeSystemctl => StepView::ProbeSystemctl,
        BrokerStep::ProbePs => StepView::ProbePs,
        BrokerStep::ProbeTools(i) => StepView::ProbeTools(i as nat),
        BrokerStep::ListBrokers(p) => StepView::ListBrokers(p@),
        BrokerStep::Reach(i) => StepView::Reach(i as nat),
        BrokerStep::MetadataShell => StepView::MetadataShell,
        BrokerStep::ApiVersions => StepView::ApiVersions,
        BrokerStep::Done => StepView::Done,
    }
}

/// The search for the brokers of the cluster `address` belongs to.
pub struct BrokerSearch {
    /// The broker given, as `host:port`.
    pub address: String,
    pub step: BrokerStep,
    /// The brokers found, once the search is done.
    pub brokers: Vec<BrokerInfo>,
    /// How topics are to be collected, when the installation listed the brokers.
    pub method: Option<DiscoveryMethod>,
}

/// The host of the address.
pub open spec fn host_of(address: Seq<char>) -> Seq<char> {
    before_char(address, ':')
}

/// The port of the address (its second `:` piece).
pub open spec fn port_of(address: Seq<char>) -> Seq<char> {
    split_char(address, ':')[1]
}

/// The systemd probe run on the broker.
pub open spec fn systemctl_probe(host: Seq<char>) -> Seq<char> {
    "ssh -o StrictHostKeyChecking=no "@ + host + SYSTEMCTL_PROBE@
}

/// The tail of the systemd probe: the start script's directory of the unit that runs
/// the Kafka process.
pub const SYSTEMCTL_PROBE: &'static str = " 'pid=$(ps aux | grep -E \"kafka\\.Kafka[^a-zA-Z]\" | grep -v grep | awk \"{print \\$2}\" | head -1); if [ ! -z \"$pid\" ]; then systemctl status $pid 2>/dev/null | grep \"ExecStart=\" | grep \"kafka-server-start.sh\" | sed \"s/.*ExecStart=//\" | sed \"s/kafka-server-start.sh.*/kafka-server-start.sh/\" | sed \"s|/bin/kafka-server-start.sh||\" | sed \"s|^[[:space:]]*||\" | head -1; fi'";

/// The probes run from the bastion, in order, and the word each prints on success.
pub open spec fn reach_probe(i: nat, host: Seq<char>, port: Seq<char>) -> Seq<char> {
    if i == 0 {
        "timeout 3 bash -c 'echo > /dev/tcp/"@ + host + "/"@ + port + "' 2>/dev/null && echo 'CONNECTED'"@
    } else if i == 1 {
        "nslookup "@ + host + " >/dev/null 2>&1 && echo 'RESOLVABLE'"@
    } else {
        "ping -c 1 -W 3 "@ + host + " >/dev/null 2>&1 && echo 'PINGABLE'"@
    }
}

/// The word a successful probe prints.
pub open spec fn reach_word(i: nat) -> Seq<char> {
    if i == 0 {
        "CONNECTED"@
    } else if i == 1 {
        "RESOLVABLE"@
    } else {
        "PINGABLE"@
    }
}

/// The bastion command a step runs; none when the search is done.
pub open spec fn broker_step_command(s: StepView, address: Seq<char>) -> Option<Seq<char>> {
    let host = host_of(address);
    match s {
        StepView::ProbeSystemctl => Some(systemctl_probe(host)),
        StepView::ProbePs => Some(
            "ssh -o StrictHostKeyChecking=no "@ + host + " 'ps aux | grep kafka.Kafka | grep -v grep | head -1'"@,
        ),
        StepView::ProbeTools(i) => Some(
            "ssh -o StrictHostKeyChecking=no "@ + host + " 'test -x "@ + fallback_installation_paths_spec()[i as int]
                + "/kafka-broker-api-versions.sh && echo \"EXISTS\"'"@,
        ),
        StepView::ListBrokers(p) => Some(
            "ssh -o StrictHostKeyChecking=no "@ + host + " '"@ + p
                + "/kafka-broker-api-versions.sh --bootstrap-server localhost:9092 | awk \"/id/{print \\$1}\"'"@,
        ),
        StepView::Reach(i) => Some(reach_probe(i, host, port_of(address))),
        StepView::MetadataShell => Some(
            "kafka-metadata-shell.sh --bootstrap-server "@ + address
                + " --print-brokers 2>/dev/null | grep -E 'broker|Broker' | head -20"@,
        ),
        StepView::ApiVersions => Some(
            "kafka-broker-api-versions.sh --bootstrap-server "@ + address + " 2>/dev/null | head -10"@,
        ),
        StepView::Done => None,
    }
}

/// The brokers the metadata shell lines name, in order.
pub open spec fn shell_listing(ls: Seq<Seq<char>>) -> Seq<(i32, Seq<char>)>
    decreases ls.len(),
{
    if ls.len() == 0 {
        Seq::empty()
    } else {
        shell_listing(ls.drop_last()) + match metadata_shell_broker(ls.last()) {
            Some(b) => seq![b],
            None => Seq::empty(),
        }
    }
}

/// The brokers an installation listed, numbered from 0.
pub open spec fn numbered(hosts: Seq<Seq<char>>) -> Seq<(i32, Seq<char>)> {
    Seq::new(hosts.len(), |i: int| (i as i32, hosts[i]))
}

/// How a step ends: the next step, or the brokers found with the discovery method.
pub ghost enum StepEnd {
    Next(StepView),
    Found(Seq<(i32, Seq<char>)>, bool),
}

/// What a step's output (none when the command failed) leads to; `true` in a finding
/// means that the installation's tools listed the brokers.
pub open spec fn broker_step(s: StepView, address: Seq<char>, out: Option<Seq<char>>) -> StepEnd {
    let alone = seq![(0i32, host_of(address))];
    match s {
        StepView::ProbeSystemctl => match out {
            Some(o) => match installation_path_from_systemctl_spec(o) {
                Some(p) => StepEnd::Next(StepView::ListBrokers(p)),
                None => StepEnd::Next(StepView::ProbePs),
            },
            None => StepEnd::Next(StepView::ProbePs),
        },
        StepView::ProbePs => match out {
            Some(o) => match installation_path_from_ps_spec(o) {
                Some(p) => StepEnd::Next(StepView::ListBrokers(p)),
                None => StepEnd::Next(StepView::ProbeTools(0)),
            },
            None => StepEnd::Next(StepView::ProbeTools(0)),
        },
        StepView::ProbeTools(i) => if out matches Some(o) && trim(o) == "EXISTS"@ {
            StepEnd::Next(StepView::ListBrokers(fallback_installation_paths_spec()[i as int]))
        } else if i + 1 < 3 {
            StepEnd::Next(StepView::ProbeTools(i + 1))
        } else {
            StepEnd::Next(StepView::Reach(0))
        },
        StepView::ListBrokers(_) => if out matches Some(o) && listed_hosts(lines(o)).len() > 0 {
            StepEnd::Found(numbered(listed_hosts(lines(out.unwrap()))), true)
        } else {
            StepEnd::Next(StepView::Reach(0))
        },
        StepView::Reach(i) => if out matches Some(o) && contains(o, reach_word(i)) {
            StepEnd::Found(alone, false)
        } else if i + 1 < 3 {
            StepEnd::Next(StepView::Reach(i + 1))
        } else {
            StepEnd::Next(StepView::MetadataShell)
        },
        StepView::MetadataShell => if out matches Some(o) && shell_listing(lines(o)).len() > 0 {
            StepEnd::Found(shell_listing(lines(out.unwrap())), false)
        } else {
            StepEnd::Next(StepView::ApiVersions)
        },
        StepView::ApiVersions => StepEnd::Found(alone, false),
        StepView::Done => StepEnd::Next(StepView::Done),
    }
}

/// Whether a step's indexes stay within their lists.
pub open spec fn broker_step_wf(s: StepView) -> bool {
    match s {
        StepView::ProbeTools(i) => i < 3,
        StepView::Reach(i) => i < 3,
        _ => true,
    }
}

fn fallback_path_of(i: usize) -> (r: &'static str)
    requires
        i < 3,
    ensures
        r@ == fallback_installation_paths_spec()[i as int],
{
    if i == 0 {
        "/opt/kafka/bin"
    } else if i == 1 {
        "/usr/local/kafka/bin"
    } else {
        "/home/kafka/kafka/bin"
    }
}

fn reach_word_of(i: usize) -> (r: &'static str)
    ensures
        r@ == reach_word(i as nat),
{
    if i == 0 {
        "CONNECTED"
    } else if i == 1 {
        "RESOLVABLE"
    } else {
        "PINGABLE"
    }
}

fn join3(a: &str, b: &str, c: &str) -> (r: String)
    ensures
        r@ == a@ + b@ + c@,
{
    concat(concat(a, b).as_str(), c)
}

fn shell_brokers(output: &str) -> (r: Vec<BrokerInfo>)
    ensures
        brokers_read(r@, shell_listing(lines(output@))),
{
    let ls = split_lines(output);
    let ghost all = lines(output@);
    let mut r: Vec<BrokerInfo> = Vec::new();
    let mut i: usize = 0;
    assert(all.take(0) =~= Seq::<Seq<char>>::empty());
    assert(r@.map_values(|x: BrokerInfo| crate::discovery::broker_entry(x)) =~= shell_listing(all.take(0)));
    while i < ls.len()
        invariant
            i <= ls@.len(),
            ls@.map_values(|x: String| x@) == all,
            brokers_read(r@, shell_listing(all.take(i as int))),
        decreases ls@.len() - i,
    {
        proof {
            assert(ls@.map_values(|x: String| x@)[i as int] == ls@[i as int]@);
            assert(all.take(i + 1).drop_last() =~= all.take(i as int));
            assert(all.take(i + 1).last() == all[i as int]);
        }
        let ghost before = r@;
        match parse_metadata_shell_broker_line(ls[i].as_str()) {
            Some(b) => {
                r.push(b);
                proof {
                    assert(r@.map_values(|x: BrokerInfo| crate::discovery::broker_entry(x)) =~= before.map_values(
                        |x: BrokerInfo| crate::discovery::broker_entry(x),
                    ) + seq![crate::discovery::broker_entry(b)]);
                }
            },
            None => {
                assert(shell_listing(all.take(i + 1)) =~= shell_listing(all.take(i as int)));
            },
        }
        i = i + 1;
    }
    assert(all.take(i as int) =~= all);
    r
}

fn single_broker(address: &str) -> (r: Vec<BrokerInfo>)
    ensures
        brokers_read(r@, seq![(0i32, host_of(address@))]),
{
    let host = hostname_of(address);
    let mut r: Vec<BrokerInfo> = Vec::new();
    r.push(BrokerInfo::with_inferred_datacenter(0, host));
    assert(r@.map_values(|x: BrokerInfo| crate::discovery::broker_entry(x)) =~= seq![(0i32, host_of(address@))]);
    r
}

impl BrokerSearch {
    /// Whether the step's indexes stay within their lists and the address is `host:port`.
    pub open spec fn wf(&self) -> bool {
        broker_step_wf(step_view(self.step)) && split_char(self.address@, ':').len() == 2
    }

    /// The search from the broker at `address`, `host:port`.
    pub fn new(address: String) -> (s: BrokerSearch)
        requires
            split_char(address@, ':').len() == 2,
        ensures
            s.wf(),
            s.address@ == address@,
            step_view(s.step) == StepView::ProbeSystemctl,
            s.brokers@.len() == 0,
            s.method is None,
    {
        BrokerSearch { address, step: BrokerStep::ProbeSystemctl, brokers: Vec::new(), method: None }
    }

    /// The command to run on the bastion next; none once the brokers are known.
    pub fn command(&self) -> (r: Option<String>)
        requires
            self.wf(),
        ensures
            match r {
                Some(c) => broker_step_command(step_view(self.step), self.address@) == Some(c@),
                None => broker_step_command(step_view(self.step), self.address@) is None,
            },
    {
        let host = hostname_of(self.address.as_str());
        match &self.step {
            BrokerStep::ProbeSystemctl => Some(join3("ssh -o StrictHostKeyChecking=no ", host.as_str(), SYSTEMCTL_PROBE)),
            BrokerStep::ProbePs => Some(
                join3(
                    "ssh -o StrictHostKeyChecking=no ",
                    host.as_str(),
                    " 'ps aux | grep kafka.Kafka | grep -v grep | head -1'",
                ),
            ),
            BrokerStep::ProbeTools(i) => {
                let head = join3("ssh -o StrictHostKeyChecking=no ", host.as_str(), " 'test -x ");
                Some(join3(head.as_str(), fallback_path_of(*i), "/kafka-broker-api-versions.sh && echo \"EXISTS\"'"))
            },
            BrokerStep::ListBrokers(p) => {
                let head = join3("ssh -o StrictHostKeyChecking=no ", host.as_str(), " '");
                Some(
                    join3(
                        head.as_str(),
                        p.as_str(),
                        "/kafka-broker-api-versions.sh --bootstrap-server localhost:9092 | awk \"/id/{print \\$1}\"'",
                    ),
                )
            },
            BrokerStep::Reach(i) => {
                if *i == 0 {
                    let parts = split_on_char(self.address.as_str(), ':');
                    proof {
                        assert(parts@.map_values(|x: String| x@)[1] == parts@[1]@);
                    }
                    let head = join3("timeout 3 bash -c 'echo > /dev/tcp/", host.as_str(), "/");
                    Some(join3(head.as_str(), parts[1].as_str(), "' 2>/dev/null && echo 'CONNECTED'"))
                } else if *i == 1 {
                    Some(join3("nslookup ", host.as_str(), " >/dev/null 2>&1 && echo 'RESOLVABLE'"))
                } else {
                    Some(join3("ping -c 1 -W 3 ", host.as_str(), " >/dev/null 2>&1 && echo 'PINGABLE'"))
                }
            },
            BrokerStep::MetadataShell => Some(
                join3(
                    "kafka-metadata-shell.sh --bootstrap-server ",
                    self.address.as_str(),
                    " --print-brokers 2>/dev/null | grep -E 'broker|Broker' | head -20",
                ),
            ),
            BrokerStep::ApiVersions => Some(
                join3(
                    "kafka-broker-api-versions.sh --bootstrap-server ",
                    self.address.as_str(),
                    " 2>/dev/null | head -10",
                ),
            ),
            BrokerStep::Done => None,
        }
    }

    /// Takes the output of the current command (none when it failed) and moves on; once
    /// the brokers are found they are recorded, with the topic method when the
    /// installation listed them.
    pub fn advance(&mut self, out: Option<&str>)
        requires
            old(self).wf(),
            !(old(self).step is Done),
            out matches Some(o) ==> lines(o@).len() <= i32::MAX,
        ensures
            final(self).wf(),
            final(self).address@ == old(self).address@,
            match broker_step(
                step_view(old(self).step),
                old(self).address@,
                match out {
                    Some(o) => Some(o@),
                    None => None,
                },
            ) {
                StepEnd::Next(n) => step_view(final(self).step) == n && final(self).brokers@ == old(self).brokers@
                    && final(self).method == old(self).method,
                StepEnd::Found(entries, tools) => step_view(final(self).step) == StepView::Done
                    && brokers_read(final(self).brokers@, entries)
                    && (tools ==> (final(self).method matches Some(DiscoveryMethod::KafkaTools {
                        kafka_installation_path,
                        discovery_broker,
                    }) && kafka_installation_path@ == "/opt/kafka/bin"@ && discovery_broker@ == old(self).address@))
                    && (!tools ==> final(self).method == old(self).method),
            },
    {
        let ghost ov: Option<Seq<char>> = match out {
            Some(o) => Some(o@),
            None => None,
        };
        match &self.step {
            BrokerStep::ProbeSystemctl => {
                let found = match out {
                    Some(o) => installation_path_from_systemctl(o),
                    None => None,
                };
                self.step = match found {
                    Some(p) => BrokerStep::ListBrokers(p),
                    None => BrokerStep::ProbePs,
                };
            },
            BrokerStep::ProbePs => {
                let found = match out {
                    Some(o) => installation_path_from_ps(o),
                    None => None,
                };
                self.step = match found {
                    Some(p) => BrokerStep::ListBrokers(p),
                    None => BrokerStep::ProbeTools(0),
                };
            },
            BrokerStep::ProbeTools(i) => {
                let i = *i;
                let exists = match out {
                    Some(o) => {
                        let t = trimmed(o);
                        proof {
                            reveal_strlit("EXISTS");
                        }
                        str_eq(t.as_str(), "EXISTS")
                    },
                    None => false,
                };
                if exists {
                    self.step = BrokerStep::ListBrokers(owned(fallback_path_of(i)));
                } else if i + 1 < 3 {
                    self.step = BrokerStep::ProbeTools(i + 1);
                } else {
                    self.step = BrokerStep::Reach(0);
                }
            },
            BrokerStep::ListBrokers(_) => {
                let listed = match out {
                    Some(o) => parse_listed_brokers(o),
                    None => Vec::new(),
                };
                if listed.len() > 0 {
                    proof {
                        let hosts = listed_hosts(lines(ov.unwrap()));
                        assert(listed@.map_values(|x: BrokerInfo| crate::discovery::broker_entry(x)) =~= numbered(hosts));
                        assert forall|j: int| 0 <= j < listed@.len() implies #[trigger] listed@[j].datacenter@
                            == datacenter_of(listed@[j].hostname@) by {
                            assert(listed@[j].id == j);
                        }
                    }
                    self.brokers = listed;
                    self.method = Some(
                        DiscoveryMethod::KafkaTools {
                            kafka_installation_path: owned("/opt/kafka/bin"),
                            discovery_broker: self.address.clone(),
                        },
                    );
                    self.step = BrokerStep::Done;
                } else {
                    self.step = BrokerStep::Reach(0);
                }
            },
            BrokerStep::Reach(i) => {
                let i = *i;
                let reached = match out {
                    Some(o) => str_contains(o, reach_word_of(i)),
                    None => false,
                };
                if reached {
                    self.brokers = single_broker(self.address.as_str());
                    self.step = BrokerStep::Done;
                } else if i + 1 < 3 {
                    self.step = BrokerStep::Reach(i + 1);
                } else {
                    self.step = BrokerStep::MetadataShell;
                }
            },
            BrokerStep::MetadataShell => {
                let listed = match out {
                    Some(o) => shell_brokers(o),
                    None => Vec::new(),
                };
                if listed.len() > 0 {
                    proof {
                        assert(listed@.map_values(|x: BrokerInfo| crate::discovery::broker_entry(x)).len() == listed@.len());
                    }
                    self.brokers = listed;
                    self.step = BrokerStep::Done;
                } else {
                    proof {
                        if ov is Some {
                            assert(listed@.map_values(|x: BrokerInfo| crate::discovery::broker_entry(x)).len() == 0);
                        }
                    }
                    self.step = BrokerStep::ApiVersions;
                }
            },
            BrokerStep::ApiVersions => {
                self.brokers = single_broker(self.address.as_str());
                self.step = BrokerStep::Done;
            },
            BrokerStep::Done => {},
        }
    }
}

} // verus!
