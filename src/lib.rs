//! Confidence scoring for agent results: extraction from weakly typed results,
//! aggregation across agents, agreement scoring and calibration.
//!
//! Confidences are fixed-point numbers: whole millionths of the unit interval.
pub mod decimal;
pub mod text;
pub mod json;
pub mod matching;
pub mod extract;
pub mod aggregate;
pub mod laws;
pub mod agent;
pub mod types;
pub mod executions;

pub use agent::{require_confidence, score_outcome, AgentResult, GuardError};
pub use aggregate::{AggregationStrategy, ConfidenceAggregator};
pub use decimal::{Confidence, SCALE};
pub use executions::{
    event_from_proto, execution_from_proto, execution_from_proto_opt, ExecutionEvent, WireExecution,
    WireExecutionEvent, WireTimestamp,
};
pub use extract::{ConfidenceConfig, ConfidenceExtractor, ExtractionStrategy};
pub use json::{is_canonical, render_text, Json};
pub use types::{
    status_from_proto, Agent, AgentInfo, AgentResponse, AgentSelector, AgentStatus, ClientConfig,
    ExecuteOptions, ExecutionStatus, HealthStatus, Pattern, PatternConfig, PatternExecution,
    SelectionStrategy, TlsConfig,
};
