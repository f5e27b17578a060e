//! Scoring the results of task handlers, and the threshold guard.
use vstd::prelude::*;
use crate::decimal::Confidence;
use crate::extract::{extraction, ConfidenceExtractor};
use crate::json::{canonical, Json};

verus! {

/// A task result together with its confidence.
#[derive(Clone, Debug)]
pub struct AgentResult {
    pub value: Json,
    pub confidence: Confidence,
    pub reasoning: Option<String>,
    pub uncertainties: Vec<String>,
    pub metadata: Vec<(String, String)>,
}

/// Why a guarded handler gave no result.
#[derive(Debug)]
pub enum GuardError<E> {
    /// The handler itself failed.
    Task(E),
    /// The result's confidence fell below the required minimum.
    BelowThreshold { confidence: Confidence, threshold: Confidence },
}

/// Wraps a handler's successful result with its confidence; a failure passes
/// through unchanged and is not scored.
pub fn score_outcome<E>(extractor: &ConfidenceExtractor, outcome: Result<Json, E>) -> (r: Result<
    AgentResult,
    E,
>)
    requires
        extractor.config.wf(),
        outcome is Ok ==> canonical(outcome->Ok_0),
    ensures
        match outcome {
            Ok(v) => r is Ok && r->Ok_0.value == v && r->Ok_0.confidence == extraction(
                v,
                extractor.config,
            ) && r->Ok_0.reasoning is None && r->Ok_0.uncertainties@.len() == 0
                && r->Ok_0.metadata@.len() == 0,
            Err(e) => r == Err::<AgentResult, E>(e),
        },
{
    match outcome {
        Ok(value) => {
            let confidence = extractor.extract(&value);
            Ok(
                AgentResult {
                    value,
                    confidence,
                    reasoning: None,
                    uncertainties: Vec::new(),
                    metadata: Vec::new(),
                },
            )
        },
        Err(e) => Err(e),
    }
}

/// Lets a result through only when its confidence reaches `min_confidence`.
pub fn require_confidence<E>(outcome: Result<AgentResult, E>, min_confidence: Confidence) -> (r:
    Result<AgentResult, GuardError<E>>)
    ensures
        match outcome {
            Ok(res) => if res.confidence < min_confidence {
                r == Err::<AgentResult, GuardError<E>>(
                    GuardError::BelowThreshold {
                        confidence: res.confidence,
                        threshold: min_confidence,
                    },
                )
            } else {
                r == Ok::<AgentResult, GuardError<E>>(res)
            },
            Err(e) => r == Err::<AgentResult, GuardError<E>>(GuardError::Task(e)),
        },
{
    match outcome {
        Ok(res) => {
            if res.confidence < min_confidence {
                Err(GuardError::BelowThreshold { confidence: res.confidence, threshold: min_confidence })
            } else {
                Ok(res)
            }
        },
        Err(e) => Err(GuardError::Task(e)),
    }
}

} // verus!
