//! What the model-based analysis decides on its own: the prompts it sends, how
//! it reads a severity word and a reply, and the remediation it builds from a
//! model's recommendations.
use vstd::prelude::*;
use crate::text::{trim, starts_with, contains, lowercase, to_lowercase, owned, concat, str_eq, trimmed, str_starts_with, str_contains, chars_of, string_of};
use crate::log_sources::{byte_len, char_width, byte_count, width_of, lemma_byte_len_bound};
use crate::numbers::{decimal, decimal_string};
use crate::snapshot::{Severity, RiskLevel, Remediation, RemediationStep, Finding};

verus! {

/// The base of the system prompt.
pub const SYSTEM_PROMPT_BASE: &'static str = "You are KCPilot, an expert Kafka administrator and distributed systems engineer with deep knowledge of Apache Kafka, JVM tuning, and production operations. You provide accurate, actionable insights based on evidence.";

/// The prompt for log analysis.
pub const LOG_ANALYSIS_PROMPT: &'static str = "Analyze the provided Kafka logs for:\n1. Critical errors and warnings\n2. Performance issues (GC pauses, slow requests, timeouts)\n3. Replication problems (ISR changes, under-replicated partitions)\n4. Resource constraints (memory, disk, network)\n5. Security issues (authentication failures, SSL errors)\n6. Unusual patterns or anomalies\n\nProvide a structured analysis with:\n- Summary of findings\n- List of specific issues with severity\n- Root cause analysis where possible\n- Actionable recommendations\n- Risk assessment";

/// The prompt for metrics analysis.
pub const METRICS_ANALYSIS_PROMPT: &'static str = "Analyze the provided Kafka metrics for:\n1. Performance bottlenecks\n2. Resource utilization patterns\n3. Throughput and latency trends\n4. Consumer lag issues\n5. Broker imbalances\n6. Capacity planning needs\n\nFocus on:\n- Identifying anomalies\n- Correlating related metrics\n- Predicting future issues\n- Optimization opportunities";

/// The prompt for a configuration review.
pub const CONFIG_REVIEW_PROMPT: &'static str = "Review the Kafka configuration for:\n1. Security best practices\n2. Performance optimization opportunities\n3. High availability settings\n4. Resource allocation appropriateness\n5. Consistency across brokers\n6. Common misconfigurations\n\nProvide:\n- Critical issues that need immediate attention\n- Performance tuning recommendations\n- Security hardening suggestions\n- Best practices alignment";

/// The prompt for a root cause analysis.
pub const ROOT_CAUSE_PROMPT: &'static str = "Perform root cause analysis:\n1. Analyze all symptoms and evidence\n2. Identify correlations and patterns\n3. Determine the most likely root cause\n4. List contributing factors\n5. Provide confidence level (0-100%)\n6. Suggest verification steps\n7. Recommend remediation approach";

/// The prompt for a remediation plan.
pub const REMEDIATION_PROMPT: &'static str = "Generate a remediation plan that is:\n1. Safe and idempotent\n2. Minimally disruptive\n3. Includes validation steps\n4. Has rollback procedures\n5. Estimates time and risk\n\nFormat as executable script with:\n- Pre-flight checks\n- Step-by-step commands\n- Validation after each step\n- Rollback instructions\n- Post-remediation verification";

/// The prompt for capacity planning.
pub const CAPACITY_PLANNING_PROMPT: &'static str = "Analyze capacity and growth:\n1. Current resource utilization\n2. Growth trends and patterns\n3. Bottleneck identification\n4. Scaling recommendations\n5. Timeline for action\n\nProvide:\n- Current capacity percentages\n- Projected exhaustion dates\n- Scaling strategy (vertical vs horizontal)\n- Cost-benefit analysis\n- Risk assessment";

/// The prompt for interactive troubleshooting.
pub const INTERACTIVE_TROUBLESHOOTING_PROMPT: &'static str = "Help troubleshoot the issue by:\n1. Understanding the problem description\n2. Asking clarifying questions if needed\n3. Analyzing available data\n4. Providing step-by-step diagnosis\n5. Suggesting solutions with trade-offs\n6. Explaining in clear, non-technical language when requested";

/// The prompt for any other kind of analysis.
pub const GENERIC_PROMPT: &'static str = "Analyze the provided data and give insights.";

/// The base prompt of a kind of analysis.
pub open spec fn base_prompt(kind: Seq<char>) -> Seq<char> {
    if kind == "logs"@ {
        LOG_ANALYSIS_PROMPT@
    } else if kind == "metrics"@ {
        METRICS_ANALYSIS_PROMPT@
    } else if kind == "config"@ {
        CONFIG_REVIEW_PROMPT@
    } else if kind == "root_cause"@ {
        ROOT_CAUSE_PROMPT@
    } else if kind == "remediation"@ {
        REMEDIATION_PROMPT@
    } else if kind == "capacity"@ {
        CAPACITY_PLANNING_PROMPT@
    } else if kind == "interactive"@ {
        INTERACTIVE_TROUBLESHOOTING_PROMPT@
    } else {
        GENERIC_PROMPT@
    }
}

/// The prompt of an analysis: its base prompt, the context, the constraints when there
/// are any, and a request for a structured answer.
pub open spec fn analysis_prompt(kind: Seq<char>, context: Seq<char>, constraints: Option<Seq<char>>) -> Seq<char> {
    base_prompt(kind) + "\n\nContext: "@ + context + (match constraints {
        Some(c) => "\n\nConstraints: "@ + c,
        None => Seq::empty(),
    }) + "\n\nProvide your analysis in a clear, structured format."@
}

fn base_prompt_of(kind: &str) -> (r: &'static str)
    ensures
        r@ == base_prompt(kind@),
{
    if str_eq(kind, "logs") {
        LOG_ANALYSIS_PROMPT
    } else if str_eq(kind, "metrics") {
        METRICS_ANALYSIS_PROMPT
    } else if str_eq(kind, "config") {
        CONFIG_REVIEW_PROMPT
    } else if str_eq(kind, "root_cause") {
        ROOT_CAUSE_PROMPT
    } else if str_eq(kind, "remediation") {
        REMEDIATION_PROMPT
    } else if str_eq(kind, "capacity") {
        CAPACITY_PLANNING_PROMPT
    } else if str_eq(kind, "interactive") {
        INTERACTIVE_TROUBLESHOOTING_PROMPT
    } else {
        GENERIC_PROMPT
    }
}

/// The prompt for an analysis of the given kind, context and constraints.
pub fn build_analysis_prompt(analysis_type: &str, context: &str, constraints: Option<&str>) -> (r: String)
    ensures
        r@ == analysis_prompt(
            analysis_type@,
            context@,
            match constraints {
                Some(c) => Some(c@),
                None => None,
            },
        ),
{
    let base = base_prompt_of(analysis_type);
    let mut prompt = concat(concat(base, "\n\nContext: ").as_str(), context);
    match constraints {
        Some(c) => {
            prompt = concat(concat(prompt.as_str(), "\n\nConstraints: ").as_str(), c);
        },
        None => {},
    }
    concat(prompt.as_str(), "\n\nProvide your analysis in a clear, structured format.")
}

/// A message of a chat with a model.
pub enum ChatMessage {
    System(String),
    User(String),
    Assistant(String),
}

impl ChatMessage {
    /// A system message.
    pub fn system(content: &str) -> (m: ChatMessage)
        ensures
            m matches ChatMessage::System(c) && c@ == content@,
    {
        ChatMessage::System(owned(content))
    }

    /// A user message.
    pub fn user(content: &str) -> (m: ChatMessage)
        ensures
            m matches ChatMessage::User(c) && c@ == content@,
    {
        ChatMessage::User(owned(content))
    }

    /// An assistant message.
    pub fn assistant(content: &str) -> (m: ChatMessage)
        ensures
            m matches ChatMessage::Assistant(c) && c@ == content@,
    {
        ChatMessage::Assistant(owned(content))
    }
}

/// What talking to a model can fail on.
#[derive(Debug, Clone, PartialEq, Eq)]
pub enum LlmServiceError {
    ConfigError(String),
    ApiError(String),
    ParseError(String),
    Timeout(u64),
    RateLimitExceeded,
    Other(String),
}

impl LlmServiceError {
    /// The error's message, as it is displayed.
    pub fn message(&self) -> (r: String)
        ensures
            r@ == (match self {
                LlmServiceError::ConfigError(m) => "Configuration error: "@ + m@,
                LlmServiceError::ApiError(m) => "API error: "@ + m@,
                LlmServiceError::ParseError(m) => "Parse error: "@ + m@,
                LlmServiceError::Timeout(s) => "Request timeout after "@ + decimal(*s as nat)
                    + " seconds. Try increasing timeout with --llm-timeout flag"@,
                LlmServiceError::RateLimitExceeded => "Rate limit exceeded"@,
                LlmServiceError::Other(m) => "Other error: "@ + m@,
            }),
    {
        match self {
            LlmServiceError::ConfigError(m) => concat("Configuration error: ", m.as_str()),
            LlmServiceError::ApiError(m) => concat("API error: ", m.as_str()),
            LlmServiceError::ParseError(m) => concat("Parse error: ", m.as_str()),
            LlmServiceError::Timeout(s) => concat(
                concat("Request timeout after ", decimal_string(*s).as_str()).as_str(),
                " seconds. Try increasing timeout with --llm-timeout flag",
            ),
            LlmServiceError::RateLimitExceeded => owned("Rate limit exceeded"),
            LlmServiceError::Other(m) => concat("Other error: ", m.as_str()),
        }
    }
}

/// A model's analysis of logs.
pub struct LogAnalysis {
    pub summary: String,
    pub issues: Vec<String>,
    pub recommendations: Vec<String>,
    pub severity: String,
}

/// A model's remediation script.
pub struct RemediationScript {
    pub script: String,
    pub risk_level: String,
    pub estimated_duration_minutes: u32,
    pub requires_downtime: bool,
}

/// A model's recommendation for one configuration setting.
pub struct ConfigRecommendation {
    pub parameter: String,
    pub current_value: String,
    pub recommended_value: String,
    pub justification: String,
    pub impact: String,
}

/// The kinds of model-based analysis.
#[derive(Debug, Clone, Copy, PartialEq, Eq, Structural)]
pub enum AnalysisType {
    LogIntelligence,
    RootCauseAnalysis,
    PerformanceAnalysis,
    ConfigurationOptimization,
    CapacityPlanning,
    SecurityAudit,
}

/// The severity a lowercased severity word names; anything else is informational.
pub open spec fn severity_of_lower(l: Seq<char>) -> Severity {
    if l == "critical"@ {
        Severity::Critical
    } else if l == "high"@ {
        Severity::High
    } else if l == "medium"@ {
        Severity::Medium
    } else if l == "low"@ {
        Severity::Low
    } else {
        Severity::Info
    }
}

/// The severity a word names, compared in lower case.
pub fn parse_severity(severity: &str) -> (s: Severity)
    ensures
        s == severity_of_lower(lowercase(severity@)),
{
    let l = to_lowercase(severity);
    severity_from_lowercase(l.as_str())
}

/// The severity an already lowercased severity word names; anything else is informational.
pub fn severity_from_lowercase(t: &str) -> (s: Severity)
    ensures
        s == severity_of_lower(t@),
{
    if str_eq(t, "critical") {
        Severity::Critical
    } else if str_eq(t, "high") {
        Severity::High
    } else if str_eq(t, "medium") {
        Severity::Medium
    } else if str_eq(t, "low") {
        Severity::Low
    } else {
        Severity::Info
    }
}

/// A remediation with one manual step per recommendation, in order and numbered from 1,
/// of medium risk, without downtime, taking 30 minutes.
pub fn build_remediation(recommendations: &Vec<String>) -> (r: Remediation)
    requires
        recommendations@.len() < u32::MAX,
    ensures
        r.steps@.len() == recommendations@.len(),
        forall|j: int| 0 <= j < r.steps@.len() ==> (#[trigger] r.steps@[j]).order == j + 1 && r.steps@[j].description
            == recommendations@[j] && r.steps@[j].command is None && r.steps@[j].verification is None
            && !r.steps@[j].can_automate,
        r.script is None,
        r.risk_level == RiskLevel::Medium,
        !r.requires_downtime,
        r.estimated_duration_minutes == Some(30u32),
        r.rollback_plan is None,
{
    let mut steps: Vec<RemediationStep> = Vec::new();
    let mut i: usize = 0;
    while i < recommendations.len()
        invariant
            i <= recommendations@.len() < u32::MAX,
            steps@.len() == i,
            forall|j: int| 0 <= j < i ==> (#[trigger] steps@[j]).order == j + 1 && steps@[j].description
                == recommendations@[j] && steps@[j].command is None && steps@[j].verification is None
                && !steps@[j].can_automate,
        decreases recommendations@.len() - i,
    {
        steps.push(RemediationStep {
            order: (i + 1) as u32,
            description: recommendations[i].clone(),
            command: None,
            verification: None,
            can_automate: false,
        });
        i = i + 1;
    }
    Remediation {
        steps,
        script: None,
        risk_level: RiskLevel::Medium,
        requires_downtime: false,
        estimated_duration_minutes: Some(30),
        rollback_plan: None,
    }
}

/// The request to analyse logs, with its context when one is given.
pub fn logs_user_prompt(logs: &str, context: Option<&str>) -> (r: String)
    ensures
        r@ == (match context {
            Some(c) => "Context: "@ + c@ + "\n\nPlease analyze these Kafka logs:\n"@ + logs@,
            None => "Please analyze these Kafka logs:\n"@ + logs@,
        }),
{
    match context {
        Some(c) => concat(concat(concat("Context: ", c).as_str(), "\n\nPlease analyze these Kafka logs:\n").as_str(), logs),
        None => concat("Please analyze these Kafka logs:\n", logs),
    }
}

/// Whether a model's reply is to be read as JSON: it starts with `{` once trimmed.
pub fn reply_is_json(response: &str) -> (b: bool)
    ensures
        b == starts_with(trim(response@), "{"@),
{
    let t = trimmed(response);
    str_starts_with(t.as_str(), "{")
}

/// A reply that is not JSON, read as an informational summary without issues.
pub fn plain_log_analysis(response: &str) -> (a: LogAnalysis)
    ensures
        a.summary@ == response@,
        a.issues@.len() == 0,
        a.recommendations@.len() == 0,
        a.severity@ == "info"@,
{
    LogAnalysis { summary: owned(response), issues: Vec::new(), recommendations: Vec::new(), severity: owned("info") }
}

/// The titles of the critical and high findings, the symptoms a root cause analysis
/// starts from.
pub open spec fn symptoms_of(fs: Seq<Finding>) -> Seq<Seq<char>>
    decreases fs.len(),
{
    if fs.len() == 0 {
        Seq::empty()
    } else {
        symptoms_of(fs.drop_last()) + if fs.last().severity == Severity::Critical || fs.last().severity
            == Severity::High {
            seq![fs.last().title@]
        } else {
            Seq::empty()
        }
    }
}

/// The titles of the critical and high findings, in order.
pub fn symptoms(findings: &Vec<Finding>) -> (r: Vec<String>)
    ensures
        r@.map_values(|s: String| s@) == symptoms_of(findings@),
{
    let mut r: Vec<String> = Vec::new();
    let mut i: usize = 0;
    assert(findings@.take(0) =~= Seq::<Finding>::empty());
    while i < findings.len()
        invariant
            i <= findings@.len(),
            r@.map_values(|s: String| s@) == symptoms_of(findings@.take(i as int)),
        decreases findings@.len() - i,
    {
        proof {
            assert(findings@.take(i + 1).drop_last() =~= findings@.take(i as int));
            assert(findings@.take(i + 1).last() == findings@[i as int]);
        }
        let ghost before = r@.map_values(|s: String| s@);
        let f = &findings[i];
        if f.severity == Severity::Critical || f.severity == Severity::High {
            r.push(f.title.clone());
            assert(r@.map_values(|s: String| s@) =~= before.push(f.title@));
        } else {
            assert(before + Seq::<Seq<char>>::empty() =~= before);
        }
        i = i + 1;
    }
    assert(findings@.take(i as int) =~= findings@);
    r
}

/// Whether a request for `model` sets the temperature: models named like `gpt-4o`,
/// `gpt-4-turbo` or `gpt-5` (in any case) only take their default.
pub fn sends_temperature(model: &str) -> (b: bool)
    ensures
        b == !(contains(lowercase(model@), "gpt-4o"@) || contains(lowercase(model@), "gpt-4-turbo"@) || contains(
            lowercase(model@),
            "gpt-5"@,
        )),
{
    let l = to_lowercase(model);
    sends_temperature_lowercase(l.as_str())
}

/// Whether a request for an already lowercased model name sets the temperature: not for
/// names holding `gpt-4o`, `gpt-4-turbo` or `gpt-5`.
pub fn sends_temperature_lowercase(t: &str) -> (b: bool)
    ensures
        b == !(contains(t@, "gpt-4o"@) || contains(t@, "gpt-4-turbo"@) || contains(t@, "gpt-5"@)),
{
    !(str_contains(t, "gpt-4o") || str_contains(t, "gpt-4-turbo") || str_contains(t, "gpt-5"))
}

/// The error a failed API request is reported as: a rate limit when its message says so.
pub fn api_failure(message: &str) -> (e: LlmServiceError)
    ensures
        contains(message@, "rate limit"@) ==> e == LlmServiceError::RateLimitExceeded,
        !contains(message@, "rate limit"@) ==> (e matches LlmServiceError::ApiError(m) && m@ == message@),
{
    if str_contains(message, "rate limit") {
        LlmServiceError::RateLimitExceeded
    } else {
        LlmServiceError::ApiError(owned(message))
    }
}

/// The answer of a chat request, given the content of its first choice: an error when
/// there is none or it is empty (then naming the token limit `max_tokens`).
pub fn reply_content(content: Option<String>, max_tokens: u16) -> (r: Result<String, LlmServiceError>)
    ensures
        match content {
            None => r matches Err(LlmServiceError::ParseError(m)) && m@ == "No response content - likely hit token limit"@,
            Some(c) => if c@.len() == 0 {
                r matches Err(LlmServiceError::ParseError(m)) && m@ == "Empty response from model. Token limit may be too low (current: "@
                    + decimal(max_tokens as nat) + "). Try increasing with LLM_MAX_TOKENS env var."@
            } else {
                r matches Ok(t) && t@ == c@
            },
        },
{
    match content {
        None => Err(LlmServiceError::ParseError(owned("No response content - likely hit token limit"))),
        Some(c) => {
            if c.as_str().is_empty() {
                let n = decimal_string(max_tokens as u64);
                Err(LlmServiceError::ParseError(concat(
                    concat("Empty response from model. Token limit may be too low (current: ", n.as_str()).as_str(),
                    "). Try increasing with LLM_MAX_TOKENS env var.",
                )))
            } else {
                Ok(c)
            }
        },
    }
}

/// The analyses a model-based analyzer runs unless told otherwise.
pub fn default_analyses() -> (r: Vec<AnalysisType>)
    ensures
        r@ == seq![
            AnalysisType::LogIntelligence,
            AnalysisType::RootCauseAnalysis,
            AnalysisType::PerformanceAnalysis,
            AnalysisType::ConfigurationOptimization,
        ],
{
    let mut r: Vec<AnalysisType> = Vec::new();
    r.push(AnalysisType::LogIntelligence);
    r.push(AnalysisType::RootCauseAnalysis);
    r.push(AnalysisType::PerformanceAnalysis);
    r.push(AnalysisType::ConfigurationOptimization);
    assert(r@ =~= seq![
        AnalysisType::LogIntelligence,
        AnalysisType::RootCauseAnalysis,
        AnalysisType::PerformanceAnalysis,
        AnalysisType::ConfigurationOptimization,
    ]);
    r
}

/// The most bytes of serialized logs sent to a model.
pub const LOG_PROMPT_BYTES: u64 = 10000;

/// Whether some prefix of a text takes exactly `n` bytes, so that cutting it there
/// falls between characters.
pub open spec fn byte_boundary(s: Seq<char>, n: nat) -> bool {
    exists|k: int| 0 <= k <= s.len() && #[trigger] byte_len(s.take(k)) == n
}

/// The logs whose cut after the byte limit would fall inside a character.
pub open spec fn truncation_fails_hard(s: Seq<char>) -> bool {
    byte_len(s) > LOG_PROMPT_BYTES && !byte_boundary(s, LOG_PROMPT_BYTES as nat)
}

proof fn lemma_byte_len_take_step(s: Seq<char>, k: int)
    requires
        0 <= k < s.len(),
    ensures
        byte_len(s.take(k + 1)) == byte_len(s.take(k)) + char_width(s[k]),
{
    assert(s.take(k + 1).drop_last() =~= s.take(k));
    assert(s.take(k + 1).last() == s[k]);
}

pub proof fn lemma_byte_len_take_mono(s: Seq<char>, i: int, j: int)
    requires
        0 <= i <= j <= s.len(),
    ensures
        byte_len(s.take(i)) + (j - i) <= byte_len(s.take(j)),
    decreases j - i,
{
    if i < j {
        lemma_byte_len_take_mono(s, i, j - 1);
        lemma_byte_len_take_step(s, j - 1);
    }
}

/// Whether cutting the logs after the byte limit would fall inside a character.
pub fn truncation_fails_hard_exec(logs: &str) -> (b: bool)
    ensures
        b == truncation_fails_hard(logs@),
{
    let v = chars_of(logs);
    let total = byte_count(&v, 0, v.len());
    assert(v@.subrange(0, v@.len() as int) =~= v@);
    if total <= 10000 {
        return false;
    }
    let mut k: usize = 0;
    let mut b: u128 = 0;
    assert(v@.take(0) =~= Seq::<char>::empty());
    while k < v.len() && b < 10000
        invariant
            k <= v@.len(),
            b == byte_len(v@.take(k as int)),
            b <= 10000 + 4,
            forall|j: int| 0 <= j <= k && byte_len(v@.take(j)) == 10000 ==> j == k,
        decreases v@.len() - k,
    {
        proof {
            lemma_byte_len_take_step(v@, k as int);
            assert forall|j: int| 0 <= j <= k + 1 && byte_len(v@.take(j)) == 10000 implies j == k + 1 by {
                if j <= k {
                    lemma_byte_len_take_mono(v@, j, k as int);
                }
            }
        }
        b = b + width_of(v[k]);
        k = k + 1;
    }
    proof {
        if b != 10000 {
            assert forall|j: int| 0 <= j <= v@.len() implies #[trigger] byte_len(v@.take(j)) != 10000 by {
                if j <= k {
                    if j < k {
                        lemma_byte_len_take_mono(v@, j, k as int);
                    }
                } else {
                    lemma_byte_len_take_mono(v@, k as int, j);
                }
            }
        }
    }
    b != 10000
}

/// The serialized logs as sent to a model: cut after the byte limit with a note when
/// they are longer.
pub fn truncated_logs(logs: &str) -> (r: String)
    requires
        !truncation_fails_hard(logs@),
    ensures
        byte_len(logs@) <= LOG_PROMPT_BYTES ==> r@ == logs@,
        byte_len(logs@) > LOG_PROMPT_BYTES ==> exists|k: int| 0 <= k <= logs@.len() && #[trigger] byte_len(
            logs@.take(k),
        ) == LOG_PROMPT_BYTES && r@ == logs@.take(k) + "... [truncated]"@,
{
    let v = chars_of(logs);
    let total = byte_count(&v, 0, v.len());
    assert(v@.subrange(0, v@.len() as int) =~= v@);
    if total <= 10000 {
        return owned(logs);
    }
    let k = prefix_with_bytes(&v, 10000);
    let head = string_of(&v, 0, k);
    assert(head@ =~= v@.take(k as int));
    concat(head.as_str(), "... [truncated]")
}

/// The number of leading characters whose UTF-8 encoding takes exactly `n` bytes.
pub fn prefix_with_bytes(v: &Vec<char>, n: u64) -> (k: usize)
    requires
        byte_boundary(v@, n as nat),
    ensures
        k <= v@.len(),
        byte_len(v@.take(k as int)) == n,
{
    let ghost kk = choose|kk: int| 0 <= kk <= v@.len() && #[trigger] byte_len(v@.take(kk)) == n;
    let len = v.len();
    let n = n as u128;
    let mut k: usize = 0;
    let mut b: u128 = 0;
    assert(v@.take(0) =~= Seq::<char>::empty());
    proof {
        lemma_byte_len_take_mono(v@, 0, kk);
    }
    while b < n
        invariant
            0 <= kk <= v@.len(),
            len == v@.len(),
            byte_len(v@.take(kk)) == n,
            k <= kk,
            b == byte_len(v@.take(k as int)),
            b <= n,
        decreases kk - k,
    {
        proof {
            if k == kk {
                assert(false);
            }
            lemma_byte_len_take_step(v@, k as int);
            lemma_byte_len_take_mono(v@, k + 1, kk);
        }
        b = b + width_of(v[k]);
        k = k + 1;
    }
    k
}

/// Whether some prefix of the characters takes exactly `n` bytes.
pub fn has_byte_boundary(v: &Vec<char>, n: u64) -> (b: bool)
    ensures
        b == byte_boundary(v@, n as nat),
{
    let n = n as u128;
    let mut k: usize = 0;
    let mut b: u128 = 0;
    assert(v@.take(0) =~= Seq::<char>::empty());
    while k < v.len() && b < n
        invariant
            k <= v@.len(),
            b == byte_len(v@.take(k as int)),
            b < n + 5,
            n <= u64::MAX,
            forall|j: int| 0 <= j < k ==> #[trigger] byte_len(v@.take(j)) < n,
        decreases v@.len() - k,
    {
        proof {
            lemma_byte_len_take_step(v@, k as int);
        }
        b = b + width_of(v[k]);
        k = k + 1;
    }
    proof {
        if b == n {
            assert(byte_len(v@.take(k as int)) == n);
        } else {
            assert forall|j: int| 0 <= j <= v@.len() implies #[trigger] byte_len(v@.take(j)) != n by {
                if j < k {
                } else if j == k {
                } else {
                    lemma_byte_len_take_mono(v@, k as int, j);
                }
            }
        }
    }
    b == n
}

} // verus!
