//! The snapshot format: what a scan collected about a cluster and the findings
//! that analysis produced from it.
use vstd::prelude::*;
use crate::text::{contains, starts_with, trim, owned, str_contains, str_starts_with, trimmed, chars_of, str_eq};
use crate::strmap::StrMap;
use crate::json::JsonValue;

verus! {

/// The version of the snapshot format this library writes and reads.
pub const SNAPSHOT_VERSION: &'static str = "1.0.0";

/// How the cluster coordinates its metadata.
#[derive(Debug, Clone, Copy, PartialEq, Eq, Structural)]
pub enum ClusterMode {
    Kraft,
    Zookeeper,
    Unknown,
}

impl ClusterMode {
    /// The default mode: unknown.
    pub fn default_mode() -> (m: ClusterMode)
        ensures
            m == ClusterMode::Unknown,
    {
        ClusterMode::Unknown
    }
}

/// How serious a finding is, most serious first.
#[derive(Debug, Clone, Copy, PartialEq, Eq, Structural, PartialOrd, Ord, Hash)]
pub enum Severity {
    Critical,
    High,
    Medium,
    Low,
    Info,
}

/// The position of a severity in the order most serious first.
pub open spec fn severity_rank(s: Severity) -> nat {
    match s {
        Severity::Critical => 0,
        Severity::High => 1,
        Severity::Medium => 2,
        Severity::Low => 3,
        Severity::Info => 4,
    }
}

impl Severity {
    /// The position of the severity, most serious first.
    pub fn rank(&self) -> (r: u8)
        ensures
            r == severity_rank(*self),
    {
        match self {
            Severity::Critical => 0,
            Severity::High => 1,
            Severity::Medium => 2,
            Severity::Low => 3,
            Severity::Info => 4,
        }
    }

    /// The terminal colour a severity is shown in.
    pub fn color(&self) -> (r: &'static str)
        ensures
            r@ == (match *self {
                Severity::Critical => "red"@,
                Severity::High => "bright red"@,
                Severity::Medium => "yellow"@,
                Severity::Low => "bright yellow"@,
                Severity::Info => "blue"@,
            }),
    {
        match self {
            Severity::Critical => "red",
            Severity::High => "bright red",
            Severity::Medium => "yellow",
            Severity::Low => "bright yellow",
            Severity::Info => "blue",
        }
    }

    /// The icon a severity is shown with.
    pub fn icon(&self) -> (r: &'static str)
        ensures
            r@ == (match *self {
                Severity::Critical => "🔴"@,
                Severity::High => "🟠"@,
                Severity::Medium => "🟡"@,
                Severity::Low => "🟢"@,
                Severity::Info => "ℹ️"@,
            }),
    {
        match self {
            Severity::Critical => "🔴",
            Severity::High => "🟠",
            Severity::Medium => "🟡",
            Severity::Low => "🟢",
            Severity::Info => "ℹ️",
        }
    }
}

/// The area of operations a finding concerns.
#[derive(Debug, Clone, Copy, PartialEq, Eq, Structural)]
pub enum Category {
    ClusterHygiene,
    Performance,
    Configuration,
    Security,
    Availability,
    Client,
    Capacity,
    Other,
}

/// How risky a remediation is.
#[derive(Debug, Clone, Copy, PartialEq, Eq, Structural)]
pub enum RiskLevel {
    Low,
    Medium,
    High,
}

/// Metadata about a snapshot collection.
#[derive(Debug)]
pub struct SnapshotMetadata {
    pub tool_version: String,
    pub collection_id: String,
    pub collection_duration_ms: u64,
    pub collectors_used: Vec<String>,
    pub redaction_applied: bool,
    pub environment: Option<String>,
    pub tags: StrMap,
}

/// What is known of the cluster as a whole.
#[derive(Clone, Debug)]
pub struct ClusterSnapshot {
    pub id: Option<String>,
    pub name: Option<String>,
    pub version: Option<String>,
    pub mode: ClusterMode,
    pub cloud_provider: Option<String>,
    pub region: Option<String>,
}

impl ClusterSnapshot {
    /// A cluster of which nothing is known yet.
    pub fn unknown() -> (c: ClusterSnapshot)
        ensures
            c.id is None && c.name is None && c.version is None && c.mode == ClusterMode::Unknown
                && c.cloud_provider is None && c.region is None,
    {
        ClusterSnapshot { id: None, name: None, version: None, mode: ClusterMode::Unknown, cloud_provider: None, region: None }
    }
}

/// What each collector gathered, as JSON documents; `custom` holds named extra documents.
#[derive(Debug)]
pub struct CollectorOutputs {
    pub admin: Option<JsonValue>,
    pub logs: Option<JsonValue>,
    pub config: Option<JsonValue>,
    pub metrics: Option<JsonValue>,
    pub cloud: Option<JsonValue>,
    pub custom: Vec<(String, JsonValue)>,
}

/// A measurement that supports a finding; numbers are kept as their decimal text.
#[derive(Clone, Debug)]
pub struct MetricEvidence {
    pub name: String,
    pub value: String,
    pub threshold: Option<String>,
    pub unit: Option<String>,
    pub source: String,
    pub timestamp: String,
}

/// Log lines that support a finding.
#[derive(Clone, Debug)]
pub struct LogEvidence {
    pub level: String,
    pub message: String,
    pub source_file: String,
    pub line_number: Option<usize>,
    pub timestamp: String,
    pub count: usize,
}

/// A configuration setting that supports a finding.
#[derive(Clone, Debug)]
pub struct ConfigEvidence {
    pub resource_type: String,
    pub resource_name: String,
    pub config_key: String,
    pub current_value: String,
    pub recommended_value: Option<String>,
    pub reason: String,
    /// The files where the setting was found.
    pub source_files: Vec<String>,
}

/// The evidence for a finding.
#[derive(Debug)]
pub struct Evidence {
    pub metrics: Vec<MetricEvidence>,
    pub logs: Vec<LogEvidence>,
    pub configs: Vec<ConfigEvidence>,
    pub raw_data: Option<JsonValue>,
}

/// One step of a remediation.
#[derive(Clone, Debug)]
pub struct RemediationStep {
    pub order: u32,
    pub description: String,
    pub command: Option<String>,
    pub verification: Option<String>,
    pub can_automate: bool,
}

/// How to fix what a finding reports.
#[derive(Clone, Debug)]
pub struct Remediation {
    pub steps: Vec<RemediationStep>,
    pub script: Option<String>,
    pub risk_level: RiskLevel,
    pub requires_downtime: bool,
    pub estimated_duration_minutes: Option<u32>,
    pub rollback_plan: Option<String>,
}

/// A finding of the analysis.
#[derive(Debug)]
pub struct Finding {
    pub id: String,
    pub severity: Severity,
    pub category: Category,
    pub title: String,
    pub description: String,
    pub impact: String,
    pub evidence: Evidence,
    pub root_cause: Option<String>,
    pub remediation: Remediation,
    pub metadata: Vec<(String, JsonValue)>,
}

/// Everything a scan collected, with the findings analysis produced.
#[derive(Debug)]
pub struct Snapshot {
    pub version: String,
    /// The collection time as RFC 3339 text.
    pub timestamp: String,
    pub metadata: SnapshotMetadata,
    pub cluster: ClusterSnapshot,
    pub collectors: CollectorOutputs,
    pub findings: Vec<Finding>,
}

impl Evidence {
    /// Evidence that holds nothing.
    pub fn empty() -> (e: Evidence)
        ensures
            e.metrics@.len() == 0 && e.logs@.len() == 0 && e.configs@.len() == 0 && e.raw_data is None,
    {
        Evidence { metrics: Vec::new(), logs: Vec::new(), configs: Vec::new(), raw_data: None }
    }
}

impl Finding {
    /// A finding with empty texts, informational and uncategorised, with no evidence and
    /// a low-risk remediation of no steps.
    pub fn blank() -> (f: Finding)
        ensures
            f.id@ == Seq::<char>::empty() && f.title@ == Seq::<char>::empty(),
            f.severity == Severity::Info && f.category == Category::Other,
            f.evidence.configs@.len() == 0 && f.remediation.steps@.len() == 0,
            f.remediation.risk_level == RiskLevel::Low && !f.remediation.requires_downtime,
    {
        Finding {
            id: String::new(),
            severity: Severity::Info,
            category: Category::Other,
            title: String::new(),
            description: String::new(),
            impact: String::new(),
            evidence: Evidence::empty(),
            root_cause: None,
            remediation: Remediation {
                steps: Vec::new(),
                script: None,
                risk_level: RiskLevel::Low,
                requires_downtime: false,
                estimated_duration_minutes: None,
                rollback_plan: None,
            },
            metadata: Vec::new(),
        }
    }
}

/// `uuid::Uuid::new_v4`: a random version 4 identifier in its hyphenated text form.
/// Which identifier comes out is left open; the text is claimed to have 36 characters.
#[verifier::external_body]
pub(crate) fn random_id() -> (r: String)
    ensures
        r@.len() == 36,
{
    uuid::Uuid::new_v4().to_string()
}

/// `chrono::Utc::now()` written as RFC 3339 with as many fraction digits as needed and
/// a `Z` offset, the form chrono's serde support writes a UTC time in. The result depends
/// on the clock; nothing is claimed of it.
#[verifier::external_body]
fn utc_now_rfc3339() -> String {
    chrono::Utc::now().to_rfc3339_opts(chrono::SecondsFormat::AutoSi, true)
}

/// What reading or checking a snapshot can fail on.
#[derive(Debug, Clone, PartialEq, Eq)]
pub enum SnapshotError {
    /// Reading or writing the snapshot's bytes failed, with the reason.
    IoError(String),
    /// An archive entry's name is unsafe, or the data is not a snapshot.
    InvalidFormat,
    /// The snapshot was written in another format version.
    VersionMismatch { expected: String, actual: String },
    /// Compressing or decompressing the snapshot failed, with the reason.
    CompressionError(String),
}

/// A name an archive entry may take: no `..`, not absolute (`/` or `\`), no drive letter
/// (`:` as second character), and not blank.
pub open spec fn safe_archive_name(name: Seq<char>) -> bool {
    &&& !contains(name, ".."@)
    &&& !starts_with(name, "/"@)
    &&& !starts_with(name, "\\"@)
    &&& !(name.len() >= 2 && name[1] == ':')
    &&& trim(name).len() > 0
}

/// Checks an archive entry's name before it is written or read.
pub fn validate_archive_path(name: &str) -> (r: Result<(), SnapshotError>)
    ensures
        r is Ok <==> safe_archive_name(name@),
        r matches Err(e) ==> e == SnapshotError::InvalidFormat,
{
    if str_contains(name, "..") {
        return Err(SnapshotError::InvalidFormat);
    }
    if str_starts_with(name, "/") || str_starts_with(name, "\\") {
        return Err(SnapshotError::InvalidFormat);
    }
    let v = chars_of(name);
    if v.len() >= 2 && v[1] == ':' {
        return Err(SnapshotError::InvalidFormat);
    }
    let t = trimmed(name);
    if t.as_str().is_empty() {
        return Err(SnapshotError::InvalidFormat);
    }
    Ok(())
}

/// The gzip stream that `flate2`'s encoder writes for some data at the default level.
pub uninterp spec fn gzip_of(data: Seq<u8>) -> Seq<u8>;

/// The data that `flate2`'s decoder reads from a gzip stream, none when it cannot.
pub uninterp spec fn gunzip_of(data: Seq<u8>) -> Option<Seq<u8>>;

/// `flate2::write::GzEncoder::new(Vec::new(), Compression::default())`, with `write_all`
/// and `finish`: the gzip stream of `data`. Claimed: it succeeds (the encoder writes into a
/// `Vec`, which never fails, and is finished once); the stream is `gzip_of` the data,
/// starts with the magic bytes `1f 8b` (the header `GzBuilder::into_header` writes first),
/// and reads back through `flate2`'s decoder as the data (gzip is lossless).
#[verifier::external_body]
fn gzip_compress(data: &[u8]) -> (r: Result<Vec<u8>, String>)
    ensures
        r is Ok,
        r matches Ok(v) ==> v@ == gzip_of(data@) && gzip_magic(v@) && gunzip_of(v@) == Some(data@),
{
    let mut encoder = flate2::write::GzEncoder::new(Vec::new(), flate2::Compression::default());
    std::io::Write::write_all(&mut encoder, data).map_err(|e| e.to_string())?;
    encoder.finish().map_err(|e| e.to_string())
}

/// `flate2::read::GzDecoder::new(data)` read to its end: the decompressed data. Claimed:
/// the result is `gunzip_of` the data; an I/O error (data that is no gzip stream) is
/// returned as its message.
#[verifier::external_body]
fn gzip_decompress(data: &[u8]) -> (r: Result<Vec<u8>, String>)
    ensures
        r matches Ok(v) ==> gunzip_of(data@) == Some(v@),
        r is Err ==> gunzip_of(data@) is None,
{
    let mut decoder = flate2::read::GzDecoder::new(data);
    let mut out: Vec<u8> = Vec::new();
    std::io::Read::read_to_end(&mut decoder, &mut out).map_err(|e| e.to_string())?;
    Ok(out)
}

/// The text that stored snapshot bytes hold: decompressed when they start with the gzip
/// magic bytes, else the bytes themselves.
pub open spec fn stored_text(data: Seq<u8>) -> Option<Seq<u8>> {
    if gzip_magic(data) {
        gunzip_of(data)
    } else {
        Some(data)
    }
}

/// The bytes stored for a JSON text: its gzip stream when compressing, else the text.
pub open spec fn stored_bytes(compress: bool, json: Seq<u8>) -> Seq<u8> {
    if compress { gzip_of(json) } else { json }
}

/// What storing a JSON text gives: the stored bytes, which read back as the text
/// whenever they are compressed or the text does not itself start with the gzip magic.
pub open spec fn encoded(compress: bool, json: Seq<u8>, stored: Seq<u8>) -> bool {
    &&& stored == stored_bytes(compress, json)
    &&& (compress ==> gzip_magic(stored))
    &&& (compress || !gzip_magic(json) ==> stored_text(stored) == Some(json))
}

/// Reads and writes snapshots, compressed with gzip or not.
pub struct SnapshotManager {
    compress: bool,
}

/// Whether data starts with the gzip magic bytes `1f 8b`.
pub open spec fn gzip_magic(data: Seq<u8>) -> bool {
    data.len() >= 2 && data[0] == 0x1f && data[1] == 0x8b
}

impl SnapshotManager {
    /// Whether snapshots are written compressed.
    pub closed spec fn compresses(&self) -> bool {
        self.compress
    }

    /// A manager that compresses.
    pub fn new() -> (m: SnapshotManager)
        ensures
            m.compresses(),
    {
        SnapshotManager { compress: true }
    }

    /// The manager, set to compress or not.
    pub fn with_compression(self, compress: bool) -> (m: SnapshotManager)
        ensures
            m.compresses() == compress,
    {
        SnapshotManager { compress }
    }

    /// Whether this manager writes compressed snapshots.
    pub fn compression(&self) -> (b: bool)
        ensures
            b == self.compresses(),
    {
        self.compress
    }

    /// Whether data is gzip compressed.
    pub fn is_compressed(&self, data: &[u8]) -> (b: bool)
        ensures
            b == gzip_magic(data@),
    {
        data.len() >= 2 && data[0] == 0x1f && data[1] == 0x8b
    }

    /// The bytes stored for a snapshot's JSON text: gzip compressed when this manager
    /// compresses, else the text itself. It always succeeds. What is stored reads back as
    /// the text, unless an uncompressed text itself starts with the gzip magic bytes.
    pub fn encode(&self, json: &[u8]) -> (r: Result<Vec<u8>, SnapshotError>)
        ensures
            r matches Ok(v) && encoded(self.compresses(), json@, v@),
    {
        if self.compress {
            match gzip_compress(json) {
                Ok(v) => Ok(v),
                Err(m) => Err(SnapshotError::IoError(m)),
            }
        } else {
            let mut v: Vec<u8> = Vec::new();
            let mut i: usize = 0;
            while i < json.len()
                invariant
                    i <= json@.len(),
                    v@ == json@.take(i as int),
                decreases json@.len() - i,
            {
                v.push(json[i]);
                i = i + 1;
                assert(v@ =~= json@.take(i as int));
            }
            assert(json@.take(i as int) =~= json@);
            Ok(v)
        }
    }

    /// The JSON text of stored snapshot bytes: decompressed when they start with the gzip
    /// magic bytes, else the bytes themselves.
    pub fn decode(&self, data: &[u8]) -> (r: Result<Vec<u8>, SnapshotError>)
        ensures
            match r {
                Ok(v) => stored_text(data@) == Some(v@),
                Err(e) => stored_text(data@) is None && e is IoError,
            },
    {
        if self.is_compressed(data) {
            match gzip_decompress(data) {
                Ok(v) => Ok(v),
                Err(m) => Err(SnapshotError::IoError(m)),
            }
        } else {
            let mut v: Vec<u8> = Vec::new();
            let mut i: usize = 0;
            while i < data.len()
                invariant
                    i <= data@.len(),
                    v@ == data@.take(i as int),
                decreases data@.len() - i,
            {
                v.push(data[i]);
                i = i + 1;
                assert(v@ =~= data@.take(i as int));
            }
            assert(data@.take(i as int) =~= data@);
            Ok(v)
        }
    }

    /// Checks that a snapshot read back was written in this format version.
    pub fn check_version(&self, version: &str) -> (r: Result<(), SnapshotError>)
        ensures
            r is Ok <==> version@ == SNAPSHOT_VERSION@,
            r matches Err(e) ==> e matches SnapshotError::VersionMismatch { expected, actual }
                && expected@ == SNAPSHOT_VERSION@ && actual@ == version@,
    {
        if str_eq(version, SNAPSHOT_VERSION) {
            Ok(())
        } else {
            Err(SnapshotError::VersionMismatch { expected: owned(SNAPSHOT_VERSION), actual: owned(version) })
        }
    }
}

impl SnapshotMetadata {
    /// The metadata of a new collection by tool version `tool_version`: a fresh random
    /// collection id, no duration, collectors, redaction, environment or tags yet.
    pub fn new(tool_version: String) -> (m: SnapshotMetadata)
        ensures
            m.tool_version == tool_version,
            m.collection_id@.len() == 36,
            m.collection_duration_ms == 0,
            m.collectors_used@.len() == 0,
            !m.redaction_applied,
            m.environment is None,
            m.tags@ == Map::<Seq<char>, Seq<char>>::empty(),
    {
        SnapshotMetadata {
            tool_version,
            collection_id: random_id(),
            collection_duration_ms: 0,
            collectors_used: Vec::new(),
            redaction_applied: false,
            environment: None,
            tags: StrMap::new(),
        }
    }
}

impl Snapshot {
    /// A snapshot of the current format, stamped with the current time, of a cluster of
    /// which nothing is known, with nothing collected or found yet.
    pub fn new(metadata: SnapshotMetadata) -> (s: Snapshot)
        ensures
            s.version@ == SNAPSHOT_VERSION@,
            s.metadata == metadata,
            s.cluster.id is None && s.cluster.name is None && s.cluster.version is None,
            s.cluster.mode == ClusterMode::Unknown,
            s.cluster.cloud_provider is None && s.cluster.region is None,
            s.collectors.admin is None && s.collectors.logs is None && s.collectors.config is None,
            s.collectors.metrics is None && s.collectors.cloud is None,
            s.collectors.custom@.len() == 0,
            s.findings@.len() == 0,
    {
        Snapshot {
            version: owned(SNAPSHOT_VERSION),
            timestamp: utc_now_rfc3339(),
            metadata,
            cluster: ClusterSnapshot::unknown(),
            collectors: CollectorOutputs { admin: None, logs: None, config: None, metrics: None, cloud: None, custom: Vec::new() },
            findings: Vec::new(),
        }
    }
}

} // verus!
