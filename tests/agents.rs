use parallax_sdk::{
    require_confidence, score_outcome, status_from_proto, AgentResult, AgentStatus,
    ClientConfig, ConfidenceConfig, ConfidenceExtractor, ExecutionStatus, ExtractionStrategy,
    GuardError, Json,
};

fn result_with(confidence: u64) -> AgentResult {
    AgentResult {
        value: Json::Null,
        confidence,
        reasoning: None,
        uncertainties: Vec::new(),
        metadata: Vec::new(),
    }
}

#[test]
fn scoring_wraps_success() {
    let e = ConfidenceExtractor::new(ConfidenceConfig {
        default_confidence: 500_000,
        strategy: ExtractionStrategy::Structured,
    });
    let value = Json::Object(vec![("confidence".to_string(), Json::Number("0.7".to_string()))]);
    let r = score_outcome::<String>(&e, Ok(value)).unwrap();
    assert_eq!(r.confidence, 700_000);
    assert!(r.reasoning.is_none());
    assert!(r.uncertainties.is_empty());
    assert!(r.metadata.is_empty());
}

#[test]
fn scoring_passes_failure_through() {
    let e = ConfidenceExtractor::new(ConfidenceConfig::default());
    let r = score_outcome(&e, Err("boom".to_string()));
    assert!(matches!(r, Err(ref m) if m == "boom"));
}

#[test]
fn guard_rejects_low_confidence() {
    let r = require_confidence::<String>(Ok(result_with(400_000)), 500_000);
    assert!(matches!(
        r,
        Err(GuardError::BelowThreshold { confidence: 400_000, threshold: 500_000 })
    ));
}

#[test]
fn guard_accepts_enough_confidence() {
    let r = require_confidence::<String>(Ok(result_with(500_000)), 500_000);
    assert_eq!(r.ok().map(|a| a.confidence), Some(500_000));
}

#[test]
fn guard_passes_task_error() {
    let r = require_confidence::<String>(Err("down".to_string()), 500_000);
    assert!(matches!(r, Err(GuardError::Task(ref m)) if m == "down"));
}

#[test]
fn status_codes_map_to_local_status() {
    assert_eq!(status_from_proto(1), ExecutionStatus::Pending);
    assert_eq!(status_from_proto(2), ExecutionStatus::Running);
    assert_eq!(status_from_proto(3), ExecutionStatus::Completed);
    assert_eq!(status_from_proto(4), ExecutionStatus::Failed);
    assert_eq!(status_from_proto(5), ExecutionStatus::Failed);
    assert_eq!(status_from_proto(0), ExecutionStatus::Pending);
    assert_eq!(status_from_proto(99), ExecutionStatus::Pending);
}

#[test]
fn defaults() {
    assert_eq!(AgentStatus::default(), AgentStatus::Active);
    assert_eq!(ExecutionStatus::default(), ExecutionStatus::Pending);
    let c = ClientConfig::default();
    assert_eq!(c.endpoint, "http://localhost:8080");
    assert_eq!(c.timeout_ms, 30_000);
    assert_eq!(c.connect_timeout_ms, 10_000);
    assert!(c.tls_config.is_none());
}

#[test]
fn new_agent_starts_active() {
    let a = parallax_sdk::Agent::new("scanner".to_string(), vec!["code".to_string()]);
    assert_eq!(a.id.len(), 36);
    assert_eq!(a.id.chars().nth(8), Some('-'));
    assert_eq!(a.name, "scanner");
    assert_eq!(a.status, AgentStatus::Active);
    assert_eq!(a.confidence, 800_000);
    assert!(a.endpoint.is_empty());
    assert!(a.last_seen_ms > 1_600_000_000_000);
}

#[test]
fn agent_builders() {
    let a = parallax_sdk::Agent::new("scanner".to_string(), Vec::new())
        .with_endpoint("http://agent:9000".to_string())
        .with_metadata("zone".to_string(), "a".to_string())
        .with_metadata("zone".to_string(), "b".to_string());
    assert_eq!(a.endpoint, "http://agent:9000");
    let last = a.metadata.iter().rev().find(|(k, _)| k == "zone").map(|(_, v)| v.clone());
    assert_eq!(last, Some("b".to_string()));
}

#[test]
fn health_wire_codes() {
    let h = |s: &str| parallax_sdk::HealthStatus { status: s.to_string(), message: None };
    assert_eq!(h("healthy").wire_code(), 1);
    assert_eq!(h("degraded").wire_code(), 2);
    assert_eq!(h("unhealthy").wire_code(), 3);
    assert_eq!(h("Healthy").wire_code(), 3);
}
