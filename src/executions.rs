//! Execution records as the execution service sends them, and their local
//! form.
use vstd::prelude::*;
use crate::decimal::Confidence;
use crate::json::Json;
use crate::types::{local_status, status_from_proto, wire_status_of, ExecutionStatus, PatternExecution};

verus! {

/// A point in time as the wire carries it: seconds and nanoseconds since the
/// Unix epoch.
#[derive(Clone, Copy, Debug)]
pub struct WireTimestamp {
    pub seconds: i64,
    pub nanos: i32,
}

/// An execution as the execution service sends it; structured payloads are
/// lists of fields.
#[derive(Clone, Debug)]
pub struct WireExecution {
    pub id: String,
    pub pattern_name: String,
    pub status: i32,
    pub input: Option<Vec<(String, Json)>>,
    pub result: Option<Vec<(String, Json)>>,
    pub start_time: Option<WireTimestamp>,
    pub end_time: Option<WireTimestamp>,
    pub confidence: Confidence,
    pub error: String,
    pub metrics: Option<Vec<(String, Json)>>,
}

impl Default for WireExecution {
    fn default() -> (r: Self)
        ensures
            r.id@.len() == 0,
            r.pattern_name@.len() == 0,
            r.status == 0,
            r.input is None,
            r.result is None,
            r.start_time is None,
            r.end_time is None,
            r.confidence == 0,
            r.error@.len() == 0,
            r.metrics is None,
    {
        WireExecution {
            id: String::new(),
            pattern_name: String::new(),
            status: 0,
            input: None,
            result: None,
            start_time: None,
            end_time: None,
            confidence: 0,
            error: String::new(),
            metrics: None,
        }
    }
}

/// One event of an execution stream.
#[derive(Clone, Debug)]
pub struct WireExecutionEvent {
    pub event_type: String,
    pub execution: Option<WireExecution>,
    pub event_time: Option<WireTimestamp>,
    pub event_data: Option<Vec<(String, Json)>>,
}

/// An execution event in local form; times are milliseconds since the Unix
/// epoch.
#[derive(Clone, Debug)]
pub struct ExecutionEvent {
    pub event_type: String,
    pub execution: Option<PatternExecution>,
    pub event_time_ms: Option<i64>,
    pub event_data: Option<Json>,
}

/// Whether chrono accepts `seconds` and `nanos` as an instant: the date lies
/// in its range and `nanos` is a valid fraction (a leap second included).
pub uninterp spec fn utc_in_range(seconds: i64, nanos: u32) -> bool;

/// Relies on `chrono::DateTime::from_timestamp` and
/// `DateTime::timestamp_millis`: an accepted instant is
/// `seconds · 1000 + nanos / 10⁶` milliseconds after the epoch.
#[verifier::external_body]
fn utc_timestamp_millis(seconds: i64, nanos: u32) -> (r: Option<i64>)
    ensures
        r is Some <==> utc_in_range(seconds, nanos),
        r is Some ==> r->0 == seconds * 1000 + nanos / 1_000_000,
{
    match chrono::DateTime::from_timestamp(seconds, nanos) {
        Some(t) => Some(t.timestamp_millis()),
        None => None,
    }
}

/// What `(end - start).num_milliseconds()` gives for two accepted instants.
pub uninterp spec fn utc_millis_between(
    start_seconds: i64,
    start_nanos: u32,
    end_seconds: i64,
    end_nanos: u32,
) -> i64;

/// Relies on `chrono::DateTime::from_timestamp`, the subtraction of two
/// `DateTime`s and `TimeDelta::num_milliseconds`: the whole milliseconds from
/// one instant to another, computed at full precision.
#[verifier::external_body]
fn millis_between(start_seconds: i64, start_nanos: u32, end_seconds: i64, end_nanos: u32) -> (r:
    Option<i64>)
    ensures
        r is Some <==> (utc_in_range(start_seconds, start_nanos) && utc_in_range(end_seconds, end_nanos)),
        r is Some ==> r->0 == utc_millis_between(start_seconds, start_nanos, end_seconds, end_nanos),
{
    match (
        chrono::DateTime::from_timestamp(start_seconds, start_nanos),
        chrono::DateTime::from_timestamp(end_seconds, end_nanos),
    ) {
        (Some(a), Some(b)) => Some((b - a).num_milliseconds()),
        _ => None,
    }
}

/// The instant a wire timestamp stands for: itself when chrono accepts it,
/// else the epoch.
pub open spec fn resolved(ts: WireTimestamp) -> (i64, u32) {
    if utc_in_range(ts.seconds, ts.nanos as u32) {
        (ts.seconds, ts.nanos as u32)
    } else {
        (0, 0)
    }
}

/// The local time of a wire timestamp, in milliseconds; an invalid one reads
/// as the epoch.
pub open spec fn timestamp_ms(ts: WireTimestamp) -> i64 {
    if utc_in_range(ts.seconds, ts.nanos as u32) {
        (ts.seconds * 1000 + (ts.nanos as u32) / 1_000_000) as i64
    } else {
        0
    }
}

pub fn timestamp_to_datetime(ts: WireTimestamp) -> (r: i64)
    ensures
        r == timestamp_ms(ts),
{
    match utc_timestamp_millis(ts.seconds, ts.nanos as u32) {
        Some(m) => m,
        None => 0,
    }
}

fn resolve(ts: WireTimestamp) -> (r: (i64, u32))
    ensures
        r == resolved(ts),
{
    match utc_timestamp_millis(ts.seconds, ts.nanos as u32) {
        Some(_) => (ts.seconds, ts.nanos as u32),
        None => (0, 0),
    }
}

fn timestamp_opt(ts: Option<WireTimestamp>) -> (r: Option<i64>)
    ensures
        r == match ts {
            Some(t) => Some(timestamp_ms(t)),
            None => None::<i64>,
        },
{
    match ts {
        Some(t) => Some(timestamp_to_datetime(t)),
        None => None,
    }
}

/// A structured payload as a result tree.
pub fn struct_to_json(fields: Vec<(String, Json)>) -> (r: Json)
    ensures
        r == Json::Object(fields),
{
    Json::Object(fields)
}

/// The whole milliseconds from `start` to `end`, or zero when `end` comes
/// first (or, which chrono never does, rejects the epoch).
pub open spec fn elapsed_ms(start: WireTimestamp, end: WireTimestamp) -> u64 {
    let s = resolved(start);
    let e = resolved(end);
    if utc_in_range(s.0, s.1) && utc_in_range(e.0, e.1) {
        let d = utc_millis_between(s.0, s.1, e.0, e.1);
        if d > 0 {
            d as u64
        } else {
            0
        }
    } else {
        0
    }
}

fn elapsed(start: WireTimestamp, end: WireTimestamp) -> (r: u64)
    ensures
        r == elapsed_ms(start, end),
{
    let s = resolve(start);
    let e = resolve(end);
    match millis_between(s.0, s.1, e.0, e.1) {
        Some(d) => if d > 0 {
            d as u64
        } else {
            0
        },
        None => 0,
    }
}

/// When an execution started: its own start time, else `now`.
pub open spec fn start_of(execution: WireExecution, now: WireTimestamp) -> WireTimestamp {
    match execution.start_time {
        Some(t) => t,
        None => now,
    }
}

/// `r` is the local form of `execution`, with `now` standing in for a
/// missing start time.
pub open spec fn is_local_form(r: PatternExecution, execution: WireExecution, now: WireTimestamp) -> bool {
    &&& r.id == execution.id
    &&& r.pattern == execution.pattern_name
    &&& r.status == local_status(wire_status_of(execution.status))
    &&& r.input == match execution.input {
        Some(f) => Json::Object(f),
        None => Json::Null,
    }
    &&& r.output == match execution.result {
        Some(f) => Some(Json::Object(f)),
        None => None::<Json>,
    }
    &&& r.agents@.len() == 0
    &&& r.start_time_ms == timestamp_ms(start_of(execution, now))
    &&& r.end_time_ms == match execution.end_time {
        Some(t) => Some(timestamp_ms(t)),
        None => None::<i64>,
    }
    &&& r.duration_ms == match execution.end_time {
        Some(t) => Some(elapsed_ms(start_of(execution, now), t)),
        None => None::<u64>,
    }
    &&& r.confidence == Some(execution.confidence)
    &&& r.error == if execution.error@.len() == 0 {
        None::<String>
    } else {
        Some(execution.error)
    }
    &&& r.metadata@ == match execution.metrics {
        Some(f) => f@,
        None => Seq::<(String, Json)>::empty(),
    }
}

/// The local form of a wire execution; `now` stands in for a missing start
/// time.
pub fn execution_from_proto(execution: WireExecution, now: WireTimestamp) -> (r: PatternExecution)
    ensures
        is_local_form(r, execution, now),
{
    let start = match execution.start_time {
        Some(t) => t,
        None => now,
    };
    let start_time_ms = timestamp_to_datetime(start);
    let end_time_ms = timestamp_opt(execution.end_time);
    let duration_ms = match execution.end_time {
        Some(end) => Some(elapsed(start, end)),
        None => None,
    };
    let input = match execution.input {
        Some(f) => struct_to_json(f),
        None => Json::Null,
    };
    let output = match execution.result {
        Some(f) => Some(struct_to_json(f)),
        None => None,
    };
    let error = if execution.error.unicode_len() == 0 {
        None
    } else {
        Some(execution.error)
    };
    let metadata = match execution.metrics {
        Some(f) => f,
        None => Vec::new(),
    };
    PatternExecution {
        id: execution.id,
        pattern: execution.pattern_name,
        status: status_from_proto(execution.status),
        input,
        output,
        agents: Vec::new(),
        start_time_ms,
        end_time_ms,
        duration_ms,
        confidence: Some(execution.confidence),
        error,
        metadata,
    }
}

/// The local form of an execution that may be missing; a missing one reads as
/// the empty execution.
pub fn execution_from_proto_opt(execution: Option<WireExecution>, now: WireTimestamp) -> (r:
    PatternExecution)
    ensures
        match execution {
            Some(e) => is_local_form(r, e, now),
            None => r.id@.len() == 0 && r.status == ExecutionStatus::Pending && r.input == Json::Null
                && r.start_time_ms == timestamp_ms(now) && r.end_time_ms is None && r.error is None,
        },
{
    match execution {
        Some(e) => execution_from_proto(e, now),
        None => execution_from_proto(WireExecution::default(), now),
    }
}

/// The local form of a stream event; `now` stands in for a missing start
/// time of its execution.
pub fn event_from_proto(event: WireExecutionEvent, now: WireTimestamp) -> (r: ExecutionEvent)
    ensures
        r.event_type == event.event_type,
        match event.execution {
            Some(e) => r.execution is Some && is_local_form(r.execution->0, e, now),
            None => r.execution is None,
        },
        r.event_time_ms == match event.event_time {
            Some(t) => Some(timestamp_ms(t)),
            None => None::<i64>,
        },
        r.event_data == match event.event_data {
            Some(f) => Some(Json::Object(f)),
            None => None::<Json>,
        },
{
    let execution = match event.execution {
        Some(e) => Some(execution_from_proto(e, now)),
        None => None,
    };
    let event_time_ms = timestamp_opt(event.event_time);
    let event_data = match event.event_data {
        Some(f) => Some(struct_to_json(f)),
        None => None,
    };
    ExecutionEvent { event_type: event.event_type, execution, event_time_ms, event_data }
}

} // verus!
