//! Platform records: agents, executions, selection, client settings.
use vstd::prelude::*;
use crate::decimal::Confidence;
use crate::json::Json;
use crate::text::{chars_eq, chars_of};

verus! {

/// Agent status.
#[derive(Clone, Copy, Debug, PartialEq, Eq, Structural)]
pub enum AgentStatus {
    Active,
    Inactive,
    Error,
}

impl Default for AgentStatus {
    fn default() -> (r: Self)
        ensures
            r == AgentStatus::Active,
    {
        AgentStatus::Active
    }
}

/// Execution status.
#[derive(Clone, Copy, Debug, PartialEq, Eq, Structural)]
pub enum ExecutionStatus {
    Pending,
    Running,
    Completed,
    Failed,
}

impl Default for ExecutionStatus {
    fn default() -> (r: Self)
        ensures
            r == ExecutionStatus::Pending,
    {
        ExecutionStatus::Pending
    }
}

/// A coordination pattern.
#[derive(Clone, Debug)]
pub struct Pattern {
    pub name: String,
    pub description: String,
    pub enabled: bool,
    pub required_capabilities: Vec<String>,
    pub config: PatternConfig,
}

/// Pattern-specific settings; thresholds are confidences.
#[derive(Clone, Debug)]
pub struct PatternConfig {
    pub min_agents: Option<u32>,
    pub max_agents: Option<u32>,
    pub consensus_threshold: Option<Confidence>,
    pub confidence_threshold: Option<Confidence>,
    pub timeout_ms: Option<u64>,
    pub parameters: Vec<(String, Json)>,
}

impl Default for PatternConfig {
    fn default() -> (r: Self)
        ensures
            r.min_agents is None,
            r.max_agents is None,
            r.consensus_threshold is None,
            r.confidence_threshold is None,
            r.timeout_ms is None,
            r.parameters@.len() == 0,
    {
        PatternConfig {
            min_agents: None,
            max_agents: None,
            consensus_threshold: None,
            confidence_threshold: None,
            timeout_ms: None,
            parameters: Vec::new(),
        }
    }
}

/// One run of a pattern; times are milliseconds since the Unix epoch.
#[derive(Clone, Debug)]
pub struct PatternExecution {
    pub id: String,
    pub pattern: String,
    pub status: ExecutionStatus,
    pub input: Json,
    pub output: Option<Json>,
    pub agents: Vec<String>,
    pub start_time_ms: i64,
    pub end_time_ms: Option<i64>,
    pub duration_ms: Option<u64>,
    pub confidence: Option<Confidence>,
    pub error: Option<String>,
    pub metadata: Vec<(String, Json)>,
}

/// Options for running a pattern.
#[derive(Clone, Debug)]
pub struct ExecuteOptions {
    pub async_execution: Option<bool>,
    pub priority: Option<i32>,
    pub timeout_ms: Option<u64>,
    pub agent_selector: Option<AgentSelector>,
    pub metadata: Vec<(String, Json)>,
    pub trace_id: Option<String>,
}

impl Default for ExecuteOptions {
    fn default() -> (r: Self)
        ensures
            r.async_execution is None,
            r.priority is None,
            r.timeout_ms is None,
            r.agent_selector is None,
            r.metadata@.len() == 0,
            r.trace_id is None,
    {
        ExecuteOptions {
            async_execution: None,
            priority: None,
            timeout_ms: None,
            agent_selector: None,
            metadata: Vec::new(),
            trace_id: None,
        }
    }
}

/// What an agent declares about itself; its expertise is a confidence.
#[derive(Clone, Debug)]
pub struct AgentInfo {
    pub id: String,
    pub name: String,
    pub capabilities: Vec<String>,
    pub expertise: Confidence,
    pub metadata: Vec<(String, String)>,
}

/// An agent's answer to a task.
#[derive(Clone, Debug)]
pub struct AgentResponse {
    pub value: Json,
    pub confidence: Confidence,
    pub reasoning: Option<String>,
    pub metadata: Vec<(String, String)>,
}

/// Agent selection strategy.
#[derive(Clone, Copy, Debug, PartialEq, Eq, Structural)]
pub enum SelectionStrategy {
    Random,
    RoundRobin,
    BestFit,
    All,
}

/// Agent selection criteria.
#[derive(Clone, Debug)]
pub struct AgentSelector {
    pub capabilities: Option<Vec<String>>,
    pub ids: Option<Vec<String>>,
    pub min_count: Option<u32>,
    pub max_count: Option<u32>,
    pub strategy: Option<SelectionStrategy>,
}

impl Default for AgentSelector {
    fn default() -> (r: Self)
        ensures
            r.capabilities is None,
            r.ids is None,
            r.min_count is None,
            r.max_count is None,
            r.strategy is None,
    {
        AgentSelector { capabilities: None, ids: None, min_count: None, max_count: None, strategy: None }
    }
}

/// Health of an agent: `"healthy"`, `"degraded"` or `"unhealthy"`, with an
/// optional message.
#[derive(Clone, Debug)]
pub struct HealthStatus {
    pub status: String,
    pub message: Option<String>,
}

/// The wire code of a health status word: 1 healthy, 2 degraded, 3 for
/// anything else.
pub open spec fn health_code_of(status: Seq<char>) -> i32 {
    if status == "healthy"@ {
        1
    } else if status == "degraded"@ {
        2
    } else {
        3
    }
}

impl HealthStatus {
    /// The code that reports this status on the wire.
    pub fn wire_code(&self) -> (r: i32)
        ensures
            r == health_code_of(self.status@),
    {
        let s = chars_of(self.status.as_str());
        let healthy = chars_of("healthy");
        let degraded = chars_of("degraded");
        if chars_eq(s.as_slice(), healthy.as_slice()) {
            1
        } else if chars_eq(s.as_slice(), degraded.as_slice()) {
            2
        } else {
            3
        }
    }
}

/// TLS material for the client connection.
#[derive(Clone, Debug)]
pub struct TlsConfig {
    pub ca_cert: Vec<u8>,
    pub client_cert: Option<Vec<u8>>,
    pub client_key: Option<Vec<u8>>,
    pub domain_name: Option<String>,
}

/// Client connection settings; times are in milliseconds.
#[derive(Clone, Debug)]
pub struct ClientConfig {
    pub endpoint: String,
    pub timeout_ms: u64,
    pub connect_timeout_ms: u64,
    pub keep_alive_interval_ms: u64,
    pub keep_alive_timeout_ms: u64,
    pub tls_config: Option<TlsConfig>,
}

impl Default for ClientConfig {
    fn default() -> (r: Self)
        ensures
            r.endpoint@ == "http://localhost:8080"@,
            r.timeout_ms == 30_000,
            r.connect_timeout_ms == 10_000,
            r.keep_alive_interval_ms == 30_000,
            r.keep_alive_timeout_ms == 10_000,
            r.tls_config is None,
    {
        ClientConfig {
            endpoint: String::from_str("http://localhost:8080"),
            timeout_ms: 30_000,
            connect_timeout_ms: 10_000,
            keep_alive_interval_ms: 30_000,
            keep_alive_timeout_ms: 10_000,
            tls_config: None,
        }
    }
}

/// Execution states as the execution service numbers them on the wire.
#[derive(Clone, Copy, Debug, PartialEq, Eq, Structural)]
pub enum WireExecutionStatus {
    Unknown,
    Pending,
    Running,
    Completed,
    Failed,
    Cancelled,
}

/// The wire state a code stands for; codes outside the numbering are
/// `Unknown`.
pub open spec fn wire_status_of(code: i32) -> WireExecutionStatus {
    if code == 1 {
        WireExecutionStatus::Pending
    } else if code == 2 {
        WireExecutionStatus::Running
    } else if code == 3 {
        WireExecutionStatus::Completed
    } else if code == 4 {
        WireExecutionStatus::Failed
    } else if code == 5 {
        WireExecutionStatus::Cancelled
    } else {
        WireExecutionStatus::Unknown
    }
}

/// The local status of a wire state: a cancelled execution counts as failed,
/// an unknown one as pending.
pub open spec fn local_status(w: WireExecutionStatus) -> ExecutionStatus {
    match w {
        WireExecutionStatus::Completed => ExecutionStatus::Completed,
        WireExecutionStatus::Failed => ExecutionStatus::Failed,
        WireExecutionStatus::Running => ExecutionStatus::Running,
        WireExecutionStatus::Cancelled => ExecutionStatus::Failed,
        WireExecutionStatus::Pending => ExecutionStatus::Pending,
        WireExecutionStatus::Unknown => ExecutionStatus::Pending,
    }
}

pub fn wire_status_from_code(code: i32) -> (r: WireExecutionStatus)
    ensures
        r == wire_status_of(code),
{
    if code == 1 {
        WireExecutionStatus::Pending
    } else if code == 2 {
        WireExecutionStatus::Running
    } else if code == 3 {
        WireExecutionStatus::Completed
    } else if code == 4 {
        WireExecutionStatus::Failed
    } else if code == 5 {
        WireExecutionStatus::Cancelled
    } else {
        WireExecutionStatus::Unknown
    }
}

/// The local status for a status code received from the execution service.
pub fn status_from_proto(status: i32) -> (r: ExecutionStatus)
    ensures
        r == local_status(wire_status_of(status)),
{
    match wire_status_from_code(status) {
        WireExecutionStatus::Completed => ExecutionStatus::Completed,
        WireExecutionStatus::Failed => ExecutionStatus::Failed,
        WireExecutionStatus::Running => ExecutionStatus::Running,
        WireExecutionStatus::Cancelled => ExecutionStatus::Failed,
        WireExecutionStatus::Pending => ExecutionStatus::Pending,
        WireExecutionStatus::Unknown => ExecutionStatus::Pending,
    }
}


/// Relies on `uuid::Uuid::new_v4` and its `Display`: a random identifier in
/// the hyphenated form of 36 characters.
#[verifier::external_body]
fn new_agent_id() -> (r: String)
    ensures
        r@.len() == 36,
{
    uuid::Uuid::new_v4().to_string()
}

/// Relies on `chrono::Utc::now` and `DateTime::timestamp_millis`: the current
/// time in milliseconds since the Unix epoch.
#[verifier::external_body]
fn now_millis() -> (r: i64) {
    chrono::Utc::now().timestamp_millis()
}

/// The map that a list of entries describes: a later entry for a key replaces
/// an earlier one.
pub open spec fn entries_map(entries: Seq<(String, String)>) -> Map<Seq<char>, Seq<char>>
    decreases entries.len(),
{
    if entries.len() == 0 {
        Map::empty()
    } else {
        entries_map(entries.drop_last()).insert(entries.last().0@, entries.last().1@)
    }
}

/// The confidence a newly registered agent starts with.
pub const INITIAL_AGENT_CONFIDENCE: u64 = 800_000;

/// An agent known to the platform.
#[derive(Clone, Debug)]
pub struct Agent {
    pub id: String,
    pub name: String,
    pub status: AgentStatus,
    pub capabilities: Vec<String>,
    pub endpoint: String,
    /// Milliseconds since the Unix epoch.
    pub last_seen_ms: i64,
    pub confidence: Confidence,
    pub metadata: Vec<(String, String)>,
}

impl Agent {
    /// A new active agent with a fresh identifier, seen now.
    pub fn new(name: String, capabilities: Vec<String>) -> (r: Self)
        ensures
            r.id@.len() == 36,
            r.name == name,
            r.status == AgentStatus::Active,
            r.capabilities == capabilities,
            r.endpoint@.len() == 0,
            r.confidence == INITIAL_AGENT_CONFIDENCE,
            r.metadata@.len() == 0,
    {
        Agent {
            id: new_agent_id(),
            name,
            status: AgentStatus::Active,
            capabilities,
            endpoint: String::new(),
            last_seen_ms: now_millis(),
            confidence: INITIAL_AGENT_CONFIDENCE,
            metadata: Vec::new(),
        }
    }

    /// The same agent at another endpoint.
    pub fn with_endpoint(self, endpoint: String) -> (r: Self)
        ensures
            r == (Agent { endpoint, ..self }),
    {
        Agent { endpoint, ..self }
    }

    /// The same agent with `key` set to `value` in its metadata.
    pub fn with_metadata(self, key: String, value: String) -> (r: Self)
        ensures
            entries_map(r.metadata@) == entries_map(self.metadata@).insert(key@, value@),
            r.id == self.id,
            r.name == self.name,
            r.status == self.status,
            r.capabilities == self.capabilities,
            r.endpoint == self.endpoint,
            r.last_seen_ms == self.last_seen_ms,
            r.confidence == self.confidence,
    {
        let mut a = self;
        let ghost before = a.metadata@;
        a.metadata.push((key, value));
        assert(a.metadata@.drop_last() =~= before);
        a
    }
}

} // verus!
