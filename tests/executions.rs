use parallax_sdk::{
    event_from_proto, execution_from_proto, execution_from_proto_opt, ExecutionStatus, Json,
    WireExecution, WireExecutionEvent, WireTimestamp,
};

fn ts(seconds: i64, nanos: i32) -> WireTimestamp {
    WireTimestamp { seconds, nanos }
}

fn execution(start: Option<WireTimestamp>, end: Option<WireTimestamp>) -> WireExecution {
    WireExecution {
        id: "exec-1".to_string(),
        pattern_name: "consensus".to_string(),
        status: 3,
        input: Some(vec![("task".to_string(), Json::Str("triage".to_string()))]),
        result: None,
        start_time: start,
        end_time: end,
        confidence: 870_000,
        error: String::new(),
        metrics: Some(vec![("agents".to_string(), Json::Number("3".to_string()))]),
    }
}

#[test]
fn execution_times_and_duration() {
    let e = execution(Some(ts(1_000, 0)), Some(ts(1_002, 500_000_000)));
    let p = execution_from_proto(e, ts(0, 42_000_000));
    assert_eq!(p.id, "exec-1");
    assert_eq!(p.pattern, "consensus");
    assert_eq!(p.status, ExecutionStatus::Completed);
    assert_eq!(p.start_time_ms, 1_000_000);
    assert_eq!(p.end_time_ms, Some(1_002_500));
    assert_eq!(p.duration_ms, Some(2_500));
    assert_eq!(p.confidence, Some(870_000));
    assert!(p.error.is_none());
    assert!(p.output.is_none());
    assert!(matches!(p.input, Json::Object(ref f) if f.len() == 1));
    assert_eq!(p.metadata.len(), 1);
    assert!(p.agents.is_empty());
}

#[test]
fn execution_missing_start_uses_now() {
    let p = execution_from_proto(execution(None, None), ts(0, 42_000_000));
    assert_eq!(p.start_time_ms, 42);
    assert_eq!(p.end_time_ms, None);
    assert_eq!(p.duration_ms, None);
}

#[test]
fn execution_end_before_start_has_zero_duration() {
    let p = execution_from_proto(execution(Some(ts(10, 0)), Some(ts(5, 0))), ts(0, 0));
    assert_eq!(p.duration_ms, Some(0));
}

#[test]
fn invalid_timestamp_reads_as_epoch() {
    let p = execution_from_proto(execution(Some(ts(10, -1)), None), ts(0, 7_000_000));
    assert_eq!(p.start_time_ms, 0);
}

#[test]
fn execution_error_and_cancelled_status() {
    let mut e = execution(None, None);
    e.status = 5;
    e.error = "timed out".to_string();
    let p = execution_from_proto(e, ts(0, 0));
    assert_eq!(p.status, ExecutionStatus::Failed);
    assert_eq!(p.error.as_deref(), Some("timed out"));
}

#[test]
fn missing_execution_is_empty() {
    let p = execution_from_proto_opt(None, ts(0, 9_000_000));
    assert!(p.id.is_empty());
    assert_eq!(p.status, ExecutionStatus::Pending);
    assert!(matches!(p.input, Json::Null));
    assert_eq!(p.start_time_ms, 9);
}

#[test]
fn event_conversion() {
    let ev = WireExecutionEvent {
        event_type: "completed".to_string(),
        execution: Some(execution(Some(ts(1, 0)), None)),
        event_time: Some(ts(2, 250_000_000)),
        event_data: None,
    };
    let out = event_from_proto(ev, ts(0, 0));
    assert_eq!(out.event_type, "completed");
    assert_eq!(out.event_time_ms, Some(2_250));
    assert!(out.event_data.is_none());
    assert_eq!(out.execution.map(|e| e.start_time_ms), Some(1_000));
}

#[test]
fn duration_is_taken_at_full_precision() {
    // 10.0009 s to 11.0001 s is 999.2 ms, not the 1000 ms between the whole
    // milliseconds of the two instants
    let p = execution_from_proto(execution(Some(ts(10, 900_000)), Some(ts(11, 100_000))), ts(0, 0));
    assert_eq!(p.start_time_ms, 10_000);
    assert_eq!(p.end_time_ms, Some(11_000));
    assert_eq!(p.duration_ms, Some(999));
}

#[test]
fn missing_start_counts_duration_from_now() {
    let p = execution_from_proto(execution(None, Some(ts(5, 0))), ts(3, 500_000_000));
    assert_eq!(p.start_time_ms, 3_500);
    assert_eq!(p.duration_ms, Some(1_500));
}
