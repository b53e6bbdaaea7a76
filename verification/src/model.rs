//! Data model of one search: questions, oracle observations, verdicts, the
//! finished solution, and the errors that abort a search.

use vstd::prelude::*;

verus! {

/// One quiz item under test: a stable identifying label (unique within a
/// question set) and the current boolean hypothesis for it. The hypothesis is
/// mutated only by the inference engine.
#[derive(Debug)]
pub struct Question {
    pub id: String,
    pub answer: bool,
}

/// What one oracle round trip reports: the score of the submitted answer
/// vector and the maximum achievable total.
#[derive(PartialEq, Eq, Structural, Clone, Copy, Debug)]
pub struct ScoreObservation {
    pub score: u32,
    pub max_score: u32,
}

/// The engine's final accepted boolean value for one question.
#[derive(Debug)]
pub struct Verdict {
    pub id: String,
    pub value: bool,
}

/// One scripted outcome of a submit/observe round trip: either the oracle's
/// observation, or a failure of `observe` to produce one within its bounded
/// wait.
#[derive(PartialEq, Eq, Structural, Clone, Copy, Debug)]
pub enum OracleReply {
    Observed(ScoreObservation),
    Timeout,
}

/// Why a search was aborted. Every variant carries the index of the oracle
/// round trip at which it arose: index 0 is the baseline submission and
/// index k >= 1 is the probe of the question at position k - 1.
#[derive(PartialEq, Eq, Structural, Clone, Copy, Debug)]
pub enum SolveError {
    /// `observe` produced no result within its bounded wait.
    OracleTimeoutError { step: usize },
    /// An observation was malformed: unreadable score text, or a score above
    /// the maximum achievable total.
    OracleParseError { step: usize },
    /// The observed maximum achievable total differed from the baseline's;
    /// the short-circuit and acceptance rules assume a stable ceiling.
    MaxScoreDriftError { step: usize, baseline: u32, observed: u32 },
}

/// The engine's finished output: one verdict per processed question, in
/// processing order, together with the best score observed, the fixed
/// ceiling, and the number of oracle round trips made. Questions left
/// unprocessed by the short-circuit get no verdict; their hypotheses stay
/// `false`.
#[derive(Debug)]
pub struct Solution {
    pub verdicts: Vec<Verdict>,
    pub best_score: u32,
    pub max_score: u32,
    pub oracle_calls: usize,
}

} // verus!
