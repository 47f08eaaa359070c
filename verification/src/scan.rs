//! What a scan is configured with and what it collects, and the scanner's own
//! bookkeeping of the cluster mode it detected.
use vstd::prelude::*;
use crate::text::{contains, owned, str_contains, concat, split_char};
use crate::log_discovery::split_on_char;
use crate::numbers::{decimal, decimal_string};
use crate::strmap::StrMap;
use crate::snapshot::ClusterMode;

verus! {

/// A Kafka broker as a scan knows it.
#[derive(Clone, Debug)]
pub struct BrokerInfo {
    pub id: i32,
    pub hostname: String,
    pub datacenter: String,
}

/// The datacenter a hostname names: `dc1`, `dc2` or `dc3` when the hostname holds
/// `-dc1-`, `-dc2-` or `-dc3-` (tested in that order, case-sensitively), else `unknown`.
pub open spec fn datacenter_of(hostname: Seq<char>) -> Seq<char> {
    if contains(hostname, "-dc1-"@) {
        "dc1"@
    } else if contains(hostname, "-dc2-"@) {
        "dc2"@
    } else if contains(hostname, "-dc3-"@) {
        "dc3"@
    } else {
        "unknown"@
    }
}

/// Infers the datacenter from a hostname.
pub fn infer_datacenter(hostname: &str) -> (dc: String)
    ensures
        dc@ == datacenter_of(hostname@),
{
    if str_contains(hostname, "-dc1-") {
        owned("dc1")
    } else if str_contains(hostname, "-dc2-") {
        owned("dc2")
    } else if str_contains(hostname, "-dc3-") {
        owned("dc3")
    } else {
        owned("unknown")
    }
}

impl BrokerInfo {
    /// A broker with the datacenter its hostname names.
    pub fn with_inferred_datacenter(id: i32, hostname: String) -> (b: BrokerInfo)
        ensures
            b.id == id,
            b.hostname@ == hostname@,
            b.datacenter@ == datacenter_of(hostname@),
    {
        let datacenter = infer_datacenter(hostname.as_str());
        BrokerInfo { id, hostname, datacenter }
    }
}

/// The configuration of a scan.
pub struct ScanConfig {
    /// The SSH alias of the bastion; none when the scan runs on the bastion itself.
    pub bastion_alias: Option<String>,
    pub output_dir: String,
    pub brokers: Vec<BrokerInfo>,
}

/// Metadata about a scan operation.
pub struct ScanMetadata {
    pub scan_timestamp: String,
    pub bastion: Option<String>,
    pub is_local: bool,
    pub broker_count: usize,
    pub output_directory: String,
    pub scan_version: String,
    pub accessible_brokers: usize,
    pub cluster_mode: Option<ClusterMode>,
}

/// Cluster-level data collected from the bastion.
pub struct ClusterData {
    pub kafkactl_data: StrMap,
    pub metrics: Option<String>,
    pub bastion_info: StrMap,
}

/// Data collected from one broker.
pub struct BrokerData {
    pub broker_id: i32,
    pub hostname: String,
    pub datacenter: String,
    pub accessible: bool,
    pub system_info: StrMap,
    pub configs: StrMap,
    pub logs: StrMap,
    pub data_dirs: Vec<String>,
}

/// Statistics about the collection.
pub struct CollectionStats {
    pub total_files: usize,
    pub total_size_bytes: u64,
    pub duration_secs: u64,
}

/// The result of a complete scan.
pub struct ScanResult {
    pub metadata: ScanMetadata,
    pub cluster_data: ClusterData,
    pub broker_data: Vec<BrokerData>,
    pub collection_stats: CollectionStats,
    pub detected_cluster_mode: Option<ClusterMode>,
}

/// How brokers and topics were discovered, which decides how topics are collected.
#[derive(Clone, Debug)]
pub enum DiscoveryMethod {
    /// Kafka's own tools from an installation path, against one broker.
    KafkaTools { kafka_installation_path: String, discovery_broker: String },
    /// `kafkactl` on the bastion.
    Kafkactl,
}

/// The current UTC time formatted `%Y%m%d-%H%M%S`, as chrono's `Utc::now().format(..)`
/// writes it. The result depends on the clock; nothing is claimed of it.
#[verifier::external_body]
fn scan_timestamp_now() -> String {
    chrono::Utc::now().format("%Y%m%d-%H%M%S").to_string()
}

/// Drives a scan; keeps the configuration and the cluster mode detected so far.
pub struct Scanner {
    pub config: ScanConfig,
    discovery_method: Option<DiscoveryMethod>,
    detected_cluster_mode: Option<ClusterMode>,
}

impl Scanner {
    /// A scanner with no brokers yet and an output directory `kafka-scan-<timestamp>`.
    pub fn new(bastion_alias: Option<String>) -> (s: Scanner)
        ensures
            s.cfg().bastion_alias == bastion_alias,
            s.cfg().brokers@.len() == 0,
            s.cfg().output_dir@.len() >= 11,
            s.cfg().output_dir@.take(11) == "kafka-scan-"@,
            s.get_mode() is None,
            s.get_discovery_method() is None,
    {
        let timestamp = scan_timestamp_now();
        let output_dir = concat("kafka-scan-", timestamp.as_str());
        proof {
            reveal_strlit("kafka-scan-");
            assert(output_dir@.take(11) =~= "kafka-scan-"@);
        }
        Scanner {
            config: ScanConfig { bastion_alias, output_dir, brokers: Vec::new() },
            discovery_method: None,
            detected_cluster_mode: None,
        }
    }

    /// The scan configuration.
    pub closed spec fn cfg(&self) -> ScanConfig {
        self.config
    }

    pub closed spec fn get_mode(&self) -> Option<ClusterMode> {
        self.detected_cluster_mode
    }

    pub closed spec fn get_discovery_method(&self) -> Option<DiscoveryMethod> {
        self.discovery_method
    }

    /// Records the detected cluster mode and gives it back.
    pub fn set_cluster_mode(&mut self, mode: ClusterMode) -> (r: ClusterMode)
        ensures
            r == mode,
            final(self).get_mode() == Some(mode),
            final(self).cfg() == old(self).cfg(),
            final(self).get_discovery_method() == old(self).get_discovery_method(),
    {
        self.detected_cluster_mode = Some(mode);
        mode
    }

    /// The cluster mode detected so far.
    pub fn get_cluster_mode(&self) -> (r: Option<ClusterMode>)
        ensures
            r == self.get_mode(),
    {
        self.detected_cluster_mode
    }

    /// Records how the brokers were discovered.
    pub fn set_discovery_method(&mut self, method: DiscoveryMethod)
        ensures
            final(self).get_discovery_method() == Some(method),
            final(self).cfg() == old(self).cfg(),
            final(self).get_mode() == old(self).get_mode(),
    {
        self.discovery_method = Some(method);
    }

    /// How the brokers were discovered, if recorded.
    pub fn discovery_method(&self) -> (r: &Option<DiscoveryMethod>)
        ensures
            *r == self.get_discovery_method(),
    {
        &self.discovery_method
    }

    /// The scanner with another output directory.
    pub fn with_output_dir(self, dir: String) -> (s: Scanner)
        ensures
            s.cfg().output_dir == dir,
            s.cfg().bastion_alias == self.cfg().bastion_alias,
            s.cfg().brokers == self.cfg().brokers,
            s.get_mode() == self.get_mode(),
            s.get_discovery_method() == self.get_discovery_method(),
    {
        let mut s = self;
        s.config.output_dir = dir;
        s
    }

    /// The cluster mode one `server.properties` text indicates.
    pub fn detect_cluster_mode_from_config(&self, server_properties_content: &str) -> (mode: ClusterMode)
        ensures
            mode == crate::cluster_detection::mode_of_properties(
                crate::cluster_detection::properties_of(server_properties_content@),
            ),
    {
        crate::cluster_detection::detect_cluster_mode_from_config(server_properties_content)
    }

    /// The scanner with another list of brokers.
    pub fn with_brokers(self, brokers: Vec<BrokerInfo>) -> (s: Scanner)
        ensures
            s.cfg().brokers == brokers,
            s.cfg().bastion_alias == self.cfg().bastion_alias,
            s.cfg().output_dir == self.cfg().output_dir,
            s.get_mode() == self.get_mode(),
            s.get_discovery_method() == self.get_discovery_method(),
    {
        let mut s = self;
        s.config.brokers = brokers;
        s
    }
}

/// The collection summary written at the end of a scan: when (`timestamp`), where, from
/// which bastion, how many brokers there are and how many were reached, and what was
/// collected.
pub open spec fn summary_text(
    timestamp: Seq<char>,
    output_dir: Seq<char>,
    bastion: Option<Seq<char>>,
    total: nat,
    accessible: nat,
) -> Seq<char> {
    "# Kafka Cluster Data Collection Summary\n\n## Collection Details\n- **Timestamp**: "@ + timestamp
        + "\n- **Output Directory**: "@ + output_dir + "\n"@ + (match bastion {
        Some(a) => "- **Bastion**: "@ + a + " (remote)\n"@,
        None => "- **Bastion**: Local (running on bastion)\n"@,
    }) + "- **Total Brokers**: "@ + decimal(total) + "\n- **Accessible Brokers**: "@ + decimal(accessible)
        + "\n\n"@ + CLUSTER_LEVEL_SUMMARY@ + (if accessible > 0 {
        "### Per Broker (from "@ + decimal(accessible) + " accessible brokers)\n"@ + PER_BROKER_SUMMARY@
    } else {
        Seq::empty()
    })
}

/// What the summary lists as collected from the bastion.
pub const CLUSTER_LEVEL_SUMMARY: &'static str = "## Data Collected\n\n### Cluster Level (from bastion)\n\u{2705} Broker list and configurations (kafkactl)\n\u{2705} Topic list and details\n\u{2705} Consumer groups\n\u{2705} Prometheus metrics (kafka_exporter)\n\u{2705} Bastion system information\n\n";

/// What the summary lists as collected from each reachable broker.
pub const PER_BROKER_SUMMARY: &'static str = "\u{2705} System information (CPU, memory, disk)\n\u{2705} Java/JVM information and metrics\n\u{2705} Configuration files (server.properties, log4j, etc.)\n\u{2705} Log files (server.log, controller.log, journald)\n\u{2705} Data directory information and sizes\n\u{2705} Network connections and ports\n";

/// How the end of a scan describes the cluster architecture it detected.
pub fn architecture_line(mode: Option<ClusterMode>) -> (r: &'static str)
    ensures
        r@ == (match mode {
            Some(ClusterMode::Kraft) => "\u{1F680} KRaft (modern, Zookeeper-free)"@,
            Some(ClusterMode::Zookeeper) => "\u{26A0}\u{FE0F}  Zookeeper-based (legacy)"@,
            Some(ClusterMode::Unknown) => "\u{2753} Unknown (could not determine)"@,
            None => "\u{2753} Not detected (no server.properties found)"@,
        }),
{
    match mode {
        Some(ClusterMode::Kraft) => "\u{1F680} KRaft (modern, Zookeeper-free)",
        Some(ClusterMode::Zookeeper) => "\u{26A0}\u{FE0F}  Zookeeper-based (legacy)",
        Some(ClusterMode::Unknown) => "\u{2753} Unknown (could not determine)",
        None => "\u{2753} Not detected (no server.properties found)",
    }
}

impl Scanner {
    /// The metadata saved for a scan taken at `scan_timestamp` that reached
    /// `accessible_brokers` brokers.
    pub fn scan_metadata(&self, scan_timestamp: String, accessible_brokers: usize) -> (m: ScanMetadata)
        ensures
            m.scan_timestamp == scan_timestamp,
            m.bastion == self.cfg().bastion_alias,
            m.is_local == (self.cfg().bastion_alias is None),
            m.broker_count == self.cfg().brokers@.len(),
            m.output_directory == self.cfg().output_dir,
            m.scan_version@ == "1.0"@,
            m.accessible_brokers == accessible_brokers,
            m.cluster_mode == self.get_mode(),
    {
        ScanMetadata {
            scan_timestamp,
            bastion: self.config.bastion_alias.clone(),
            is_local: self.config.bastion_alias.is_none(),
            broker_count: self.config.brokers.len(),
            output_directory: self.config.output_dir.clone(),
            scan_version: owned("1.0"),
            accessible_brokers,
            cluster_mode: self.detected_cluster_mode,
        }
    }

    /// The collection summary of this scan, written at `timestamp`, after reaching
    /// `accessible_brokers` brokers.
    pub fn collection_summary(&self, timestamp: &str, accessible_brokers: usize) -> (r: String)
        ensures
            r@ == summary_text(
                timestamp@,
                self.cfg().output_dir@,
                match self.cfg().bastion_alias {
                    Some(a) => Some(a@),
                    None => None,
                },
                self.cfg().brokers@.len(),
                accessible_brokers as nat,
            ),
    {
        let mut r = concat("# Kafka Cluster Data Collection Summary\n\n## Collection Details\n- **Timestamp**: ", timestamp);
        r = concat(concat(r.as_str(), "\n- **Output Directory**: ").as_str(), self.config.output_dir.as_str());
        r = concat(r.as_str(), "\n");
        match &self.config.bastion_alias {
            Some(a) => {
                r = concat(concat(concat(r.as_str(), "- **Bastion**: ").as_str(), a.as_str()).as_str(), " (remote)\n");
            },
            None => {
                r = concat(r.as_str(), "- **Bastion**: Local (running on bastion)\n");
            },
        }
        let total = decimal_string(self.config.brokers.len() as u64);
        let reached = decimal_string(accessible_brokers as u64);
        r = concat(concat(r.as_str(), "- **Total Brokers**: ").as_str(), total.as_str());
        r = concat(concat(r.as_str(), "\n- **Accessible Brokers**: ").as_str(), reached.as_str());
        r = concat(concat(r.as_str(), "\n\n").as_str(), CLUSTER_LEVEL_SUMMARY);
        if accessible_brokers > 0 {
            r = concat(concat(concat(r.as_str(), "### Per Broker (from ").as_str(), reached.as_str()).as_str(), " accessible brokers)\n");
            r = concat(r.as_str(), PER_BROKER_SUMMARY);
        }
        r
    }

    /// Takes note of a reached broker's configuration files: the first `server.properties`
    /// seen decides the cluster mode, unless one was detected already.
    pub fn record_broker_configs(&mut self, configs: &StrMap)
        ensures
            final(self).cfg() == old(self).cfg(),
            final(self).get_discovery_method() == old(self).get_discovery_method(),
            old(self).get_mode() is Some ==> final(self).get_mode() == old(self).get_mode(),
            old(self).get_mode() is None && configs@.contains_key("server.properties"@) ==> final(self).get_mode() == Some(
                crate::cluster_detection::mode_of_properties(
                    crate::cluster_detection::properties_of(configs@["server.properties"@]),
                ),
            ),
            old(self).get_mode() is None && !configs@.contains_key("server.properties"@) ==> final(self).get_mode() is None,
    {
        if self.detected_cluster_mode.is_none() {
            match configs.get("server.properties") {
                Some(props) => {
                    let mode = crate::cluster_detection::detect_cluster_mode_from_config(props.as_str());
                    self.detected_cluster_mode = Some(mode);
                },
                None => {},
            }
        }
    }
}

/// Checks that a broker address given on the command line is `hostname:port`: exactly
/// one `:`. The error names the address.
pub fn check_broker_address(address: &str) -> (r: Result<(), String>)
    ensures
        r is Ok <==> split_char(address@, ':').len() == 2,
        r matches Err(m) ==> m@ == "Broker address must be in format hostname:port, got: "@ + address@,
{
    let parts = split_on_char(address, ':');
    if parts.len() != 2 {
        Err(concat("Broker address must be in format hostname:port, got: ", address))
    } else {
        Ok(())
    }
}

} // verus!
