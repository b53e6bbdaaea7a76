//! The inference engine: sequential coordinate probing of a boolean answer
//! vector against a score oracle.
//!
//! The engine is a state machine. It is created over a question list (every
//! hypothesis reset to `false`) and then waits for the baseline observation.
//! After each observation it decides: the baseline fixes `best_score` and the
//! `max_score` ceiling; each later observation answers the probe of one
//! question, whose tentative `true` is accepted exactly when the new score is
//! not below the best seen (the tie-acceptance policy), and reverted to
//! `false` otherwise. Before each probe the engine short-circuits once the
//! best score has reached the ceiling. A driver performs the submissions the
//! engine asks for and feeds the observations back in.

use vstd::prelude::*;

use crate::model::{Question, ScoreObservation, Solution, SolveError, Verdict};

verus! {

/// Where the engine stands in its search.
#[derive(PartialEq, Eq, Structural, Clone, Copy, Debug)]
pub enum Phase {
    /// The all-false vector must be submitted and its observation fed in.
    AwaitBaseline,
    /// The current vector (with the question at `idx` tentatively `true`)
    /// must be submitted and its observation fed in.
    AwaitProbe,
    /// The search finished: every question was processed or the ceiling was
    /// reached.
    Done,
    /// An observation was rejected; the search is aborted.
    Failed,
}

/// The engine's working memory: the questions with their current hypotheses,
/// how many have been processed, the best score seen, the fixed ceiling, and
/// the verdicts accepted so far, in processing order.
pub struct Engine {
    pub questions: Vec<Question>,
    pub phase: Phase,
    pub idx: usize,
    pub best_score: u32,
    pub max_score: u32,
    pub verdicts: Vec<Verdict>,
}

impl Engine {
    /// Well-formedness: the verdicts are exactly the processed prefix of the
    /// questions, every hypothesis matches its verdict, the question under
    /// probe (if any) is tentatively `true`, and every unprocessed question
    /// is still `false`.
    pub open spec fn wf(self) -> bool {
        let n = self.questions@.len() as int;
        &&& self.idx <= n
        &&& self.verdicts@.len() == self.idx
        &&& (forall|j: int|
            0 <= j < self.idx ==> (#[trigger] self.verdicts@[j]).id@ == self.questions@[j].id@)
        &&& (forall|j: int|
            0 <= j < self.idx ==> (#[trigger] self.questions@[j]).answer == self.verdicts@[j].value)
        &&& match self.phase {
            Phase::AwaitBaseline => {
                &&& self.idx == 0
                &&& forall|j: int| 0 <= j < n ==> !(#[trigger] self.questions@[j]).answer
            },
            Phase::AwaitProbe => {
                &&& self.idx < n
                &&& self.best_score < self.max_score
                &&& self.questions@[self.idx as int].answer
                &&& forall|j: int|
                    self.idx < j < n ==> !(#[trigger] self.questions@[j]).answer
            },
            Phase::Done => {
                &&& (self.idx == n || self.best_score >= self.max_score)
                &&& self.best_score <= self.max_score
                &&& forall|j: int|
                    self.idx <= j < n ==> !(#[trigger] self.questions@[j]).answer
            },
            Phase::Failed => true,
        }
    }

    /// The index of the oracle round trip the engine is waiting on: 0 for the
    /// baseline, k + 1 for the probe of the question at position k.
    pub open spec fn spec_step_index(self) -> usize {
        if self.phase == Phase::AwaitBaseline {
            0usize
        } else {
            (self.idx + 1) as usize
        }
    }

    /// Start a search: every hypothesis is reset to `false` and the engine
    /// waits for the baseline observation.
    pub fn new(mut questions: Vec<Question>) -> (e: Engine)
        ensures
            e.wf(),
            e.phase == Phase::AwaitBaseline,
            e.idx == 0,
            e.verdicts@.len() == 0,
            e.questions@.len() == questions@.len(),
            forall|j: int|
                0 <= j < questions@.len() ==> (#[trigger] e.questions@[j]).id@
                    == questions@[j].id@,
    {
        let ghost orig = questions@;
        let n = questions.len();
        let mut i: usize = 0;
        while i < n
            invariant
                0 <= i <= n,
                questions@.len() == n,
                orig.len() == n,
                forall|j: int|
                    0 <= j < n ==> (#[trigger] questions@[j]).id@ == orig[j].id@,
                forall|j: int| 0 <= j < i ==> !(#[trigger] questions@[j]).answer,
            decreases n - i,
        {
            set_answer(&mut questions, i, false);
            i = i + 1;
        }
        Engine {
            questions,
            phase: Phase::AwaitBaseline,
            idx: 0,
            best_score: 0,
            max_score: 0,
            verdicts: Vec::new(),
        }
    }

    /// Whether the engine is waiting for a submit/observe round trip.
    pub fn needs_submission(&self) -> (r: bool)
        ensures
            r == (self.phase == Phase::AwaitBaseline || self.phase == Phase::AwaitProbe),
    {
        self.phase == Phase::AwaitBaseline || self.phase == Phase::AwaitProbe
    }

    /// The index of the oracle round trip the engine is waiting on.
    pub fn step_index(&self) -> (s: usize)
        requires
            self.wf(),
            self.phase == Phase::AwaitBaseline || self.phase == Phase::AwaitProbe,
        ensures
            s == self.spec_step_index(),
    {
        if self.phase == Phase::AwaitBaseline {
            0
        } else {
            let n = self.questions.len();
            assert(self.idx < n);
            self.idx + 1
        }
    }

    /// The error with which a driver aborts the search when `observe` did not
    /// produce a result within its bounded wait.
    pub fn timeout_error(&self) -> (e: SolveError)
        requires
            self.wf(),
            self.phase == Phase::AwaitBaseline || self.phase == Phase::AwaitProbe,
        ensures
            e == (SolveError::OracleTimeoutError { step: self.spec_step_index() }),
    {
        SolveError::OracleTimeoutError { step: self.step_index() }
    }

    /// The answer vector that the pending round trip must submit: the current
    /// hypothesis of every question, in question order.
    pub fn answer_vector(&self) -> (v: Vec<bool>)
        ensures
            v@.len() == self.questions@.len(),
            forall|j: int|
                0 <= j < v@.len() ==> v@[j] == (#[trigger] self.questions@[j]).answer,
    {
        let mut v: Vec<bool> = Vec::new();
        let mut i: usize = 0;
        while i < self.questions.len()
            invariant
                0 <= i <= self.questions@.len(),
                v@.len() == i,
                forall|j: int|
                    0 <= j < i ==> v@[j] == (#[trigger] self.questions@[j]).answer,
            decreases self.questions@.len() - i,
        {
            v.push(self.questions[i].answer);
            i = i + 1;
        }
        v
    }

    /// Feed in the observation of the pending round trip. The baseline fixes
    /// `best_score` and the ceiling; a probe observation is judged by the
    /// decision rule stated in `probe_post`. On a rejected observation the
    /// engine fails and the search is over.
    pub fn on_observation(&mut self, obs: ScoreObservation) -> (r: Result<(), SolveError>)
        requires
            old(self).wf(),
            old(self).phase == Phase::AwaitBaseline || old(self).phase == Phase::AwaitProbe,
        ensures
            final(self).wf(),
            final(self).questions@.len() == old(self).questions@.len(),
            forall|j: int|
                0 <= j < old(self).questions@.len() ==> (#[trigger] final(self).questions@[j]).id@
                    == old(self).questions@[j].id@,
            old(self).phase == Phase::AwaitBaseline ==> baseline_post(
                *old(self),
                obs,
                *final(self),
                r,
            ),
            old(self).phase == Phase::AwaitProbe ==> probe_post(*old(self), obs, *final(self), r),
    {
        if self.phase == Phase::AwaitBaseline {
            if obs.score > obs.max_score {
                self.phase = Phase::Failed;
                return Err(SolveError::OracleParseError { step: 0 });
            }
            self.best_score = obs.score;
            self.max_score = obs.max_score;
            if self.best_score >= self.max_score || self.questions.len() == 0 {
                self.phase = Phase::Done;
            } else {
                set_answer(&mut self.questions, 0, true);
                self.phase = Phase::AwaitProbe;
            }
            Ok(())
        } else {
            let n = self.questions.len();
            assert(self.idx < n);
            if obs.max_score != self.max_score {
                let e = SolveError::MaxScoreDriftError {
                    step: self.idx + 1,
                    baseline: self.max_score,
                    observed: obs.max_score,
                };
                self.phase = Phase::Failed;
                return Err(e);
            }
            if obs.score > obs.max_score {
                let e = SolveError::OracleParseError { step: self.idx + 1 };
                self.phase = Phase::Failed;
                return Err(e);
            }
            let accepted = obs.score >= self.best_score;
            if accepted {
                self.best_score = obs.score;
            } else {
                set_answer(&mut self.questions, self.idx, false);
            }
            let id = clone_string(&self.questions[self.idx].id);
            self.verdicts.push(Verdict { id, value: accepted });
            self.idx = self.idx + 1;
            if self.best_score >= self.max_score || self.idx == self.questions.len() {
                self.phase = Phase::Done;
            } else {
                set_answer(&mut self.questions, self.idx, true);
                self.phase = Phase::AwaitProbe;
            }
            Ok(())
        }
    }

    /// Hand out the finished search: the verdicts in processing order, the
    /// best score, the ceiling, and the exact number of oracle round trips
    /// made (the baseline plus one per verdict).
    pub fn into_solution(self) -> (sol: Solution)
        requires
            self.wf(),
            self.phase == Phase::Done,
            self.idx < usize::MAX,
        ensures
            sol.verdicts == self.verdicts,
            sol.best_score == self.best_score,
            sol.max_score == self.max_score,
            sol.oracle_calls == self.idx + 1,
    {
        let oracle_calls = self.idx + 1;
        Solution {
            verdicts: self.verdicts,
            best_score: self.best_score,
            max_score: self.max_score,
            oracle_calls,
        }
    }
}

/// How the baseline observation moves the engine: a malformed observation
/// (score above its own maximum) aborts; otherwise the score becomes
/// `best_score`, the maximum becomes the fixed ceiling, and the engine either
/// finishes at once (ceiling already reached, or no questions) or flips the
/// first question to `true` and waits for its probe.
pub open spec fn baseline_post(
    pre: Engine,
    obs: ScoreObservation,
    post: Engine,
    r: Result<(), SolveError>,
) -> bool {
    let n = pre.questions@.len() as int;
    if obs.score > obs.max_score {
        &&& r == Err::<(), SolveError>(SolveError::OracleParseError { step: 0 })
        &&& post.phase == Phase::Failed
    } else {
        &&& r == Ok::<(), SolveError>(())
        &&& post.best_score == obs.score
        &&& post.max_score == obs.max_score
        &&& post.idx == 0
        &&& post.verdicts@.len() == 0
        &&& post.phase == (if obs.score >= obs.max_score || n == 0 {
            Phase::Done
        } else {
            Phase::AwaitProbe
        })
    }
}

/// The decision rule, applied to the probe of the question at `pre.idx`:
/// a drifting ceiling or a malformed observation aborts; a score below
/// `best_score` reverts the flip and records a `false` verdict; any other
/// score (a tie included) accepts the flip, becomes the new `best_score`,
/// and records a `true` verdict. Afterwards the engine finishes if the
/// ceiling is reached or no questions remain, else it flips the next
/// question and waits for its probe.
pub open spec fn probe_post(
    pre: Engine,
    obs: ScoreObservation,
    post: Engine,
    r: Result<(), SolveError>,
) -> bool {
    let n = pre.questions@.len() as int;
    let i = pre.idx as int;
    let step = (pre.idx + 1) as usize;
    if obs.max_score != pre.max_score {
        &&& r == Err::<(), SolveError>(
            SolveError::MaxScoreDriftError {
                step,
                baseline: pre.max_score,
                observed: obs.max_score,
            },
        )
        &&& post.phase == Phase::Failed
    } else if obs.score > obs.max_score {
        &&& r == Err::<(), SolveError>(SolveError::OracleParseError { step })
        &&& post.phase == Phase::Failed
    } else {
        let accepted = obs.score >= pre.best_score;
        &&& r == Ok::<(), SolveError>(())
        &&& post.idx == pre.idx + 1
        &&& post.best_score == (if accepted {
            obs.score
        } else {
            pre.best_score
        })
        &&& post.best_score >= pre.best_score
        &&& post.max_score == pre.max_score
        &&& post.verdicts@.len() == pre.verdicts@.len() + 1
        &&& (forall|j: int|
            0 <= j < pre.verdicts@.len() ==> #[trigger] post.verdicts@[j] == pre.verdicts@[j])
        &&& post.verdicts@.last().id@ == pre.questions@[i].id@
        &&& post.verdicts@.last().value == accepted
        &&& post.phase == (if post.best_score >= post.max_score || i + 1 == n {
            Phase::Done
        } else {
            Phase::AwaitProbe
        })
    }
}

/// Set one question's hypothesis, leaving everything else in place.
fn set_answer(questions: &mut Vec<Question>, i: usize, value: bool)
    requires
        i < old(questions)@.len(),
    ensures
        final(questions)@.len() == old(questions)@.len(),
        final(questions)@[i as int].answer == value,
        final(questions)@[i as int].id@ == old(questions)@[i as int].id@,
        forall|j: int|
            0 <= j < old(questions)@.len() && j != i ==> #[trigger] final(questions)@[j] == old(
                questions,
            )@[j],
{
    let mut q = questions.remove(i);
    q.answer = value;
    questions.insert(i, q);
}

/// Clone a question label for its verdict entry.
fn clone_string(s: &String) -> (r: String)
    ensures
        r@ == s@,
{
    s.clone()
}

} // verus!
