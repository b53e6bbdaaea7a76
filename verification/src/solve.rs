//! A whole search, run against a script of oracle replies.
//!
//! `run_model` is the mathematical description of the probing algorithm: what
//! a search over `n` questions returns when the k-th oracle round trip gets
//! the k-th scripted reply. `solve` executes the search through the engine
//! and is proved to return exactly what `run_model` says; the proof functions
//! state the algorithm's laws (call bound, monotonicity, completeness, and
//! the short-circuit) over the same model.

use vstd::prelude::*;

use crate::engine::{Engine, Phase};
use crate::model::{OracleReply, Question, Solution, SolveError, Verdict};

verus! {

/// What a search comes to: aborted with an error, or complete with one
/// boolean verdict per processed question (in processing order) and the best
/// score observed.
pub enum RunOutcome {
    Aborted { err: SolveError },
    Complete { verdicts: Seq<bool>, best_score: u32 },
}

/// Prefix an outcome's verdicts with verdicts already given; an abort is
/// left as it is.
pub open spec fn prepend_verdicts(vs: Seq<bool>, rest: RunOutcome) -> RunOutcome {
    match rest {
        RunOutcome::Aborted { err } => RunOutcome::Aborted { err },
        RunOutcome::Complete { verdicts, best_score } => RunOutcome::Complete {
            verdicts: vs + verdicts,
            best_score,
        },
    }
}

/// The boolean verdict values of a verdict list, in order.
pub open spec fn verdict_values(s: Seq<Verdict>) -> Seq<bool> {
    s.map_values(|v: Verdict| v.value)
}

/// The rest of a run: questions `i..n` probed one at a time, the probe of
/// question `k` answered by reply `k + 1`. Stops at once when `best` has
/// reached the ceiling; otherwise judges the probe by the decision rule:
/// drift of the ceiling or a score above it aborts, a score below `best`
/// gives a `false` verdict and keeps `best`, and any other score (ties
/// included) gives a `true` verdict and becomes the new `best`. A missing
/// reply is an `observe` timeout.
pub open spec fn probe_run(
    i: nat,
    n: nat,
    best: u32,
    max: u32,
    replies: Seq<OracleReply>,
) -> RunOutcome
    decreases n - i,
{
    if best >= max || i >= n {
        RunOutcome::Complete { verdicts: Seq::empty(), best_score: best }
    } else if i + 1 >= replies.len() {
        RunOutcome::Aborted { err: SolveError::OracleTimeoutError { step: (i + 1) as usize } }
    } else {
        match replies[i as int + 1] {
            OracleReply::Timeout => RunOutcome::Aborted {
                err: SolveError::OracleTimeoutError { step: (i + 1) as usize },
            },
            OracleReply::Observed(obs) => {
                if obs.max_score != max {
                    RunOutcome::Aborted {
                        err: SolveError::MaxScoreDriftError {
                            step: (i + 1) as usize,
                            baseline: max,
                            observed: obs.max_score,
                        },
                    }
                } else if obs.score > obs.max_score {
                    RunOutcome::Aborted { err: SolveError::OracleParseError { step: (i + 1) as usize } }
                } else if obs.score < best {
                    prepend_verdicts(seq![false], probe_run((i + 1) as nat, n, best, max, replies))
                } else {
                    prepend_verdicts(
                        seq![true],
                        probe_run((i + 1) as nat, n, obs.score, max, replies),
                    )
                }
            },
        }
    }
}

/// A whole search over `n` questions: reply 0 answers the baseline
/// submission of the all-false vector; its score becomes the first `best`
/// and its maximum the fixed ceiling; then the questions are probed in
/// order.
pub open spec fn run_model(n: nat, replies: Seq<OracleReply>) -> RunOutcome {
    if replies.len() == 0 {
        RunOutcome::Aborted { err: SolveError::OracleTimeoutError { step: 0 } }
    } else {
        match replies[0] {
            OracleReply::Timeout => RunOutcome::Aborted {
                err: SolveError::OracleTimeoutError { step: 0 },
            },
            OracleReply::Observed(obs) => {
                if obs.score > obs.max_score {
                    RunOutcome::Aborted { err: SolveError::OracleParseError { step: 0 } }
                } else {
                    probe_run(0, n, obs.score, obs.max_score, replies)
                }
            },
        }
    }
}

proof fn lemma_prepend_nil(rest: RunOutcome)
    ensures
        prepend_verdicts(Seq::empty(), rest) == rest,
{
    match rest {
        RunOutcome::Aborted { err } => {},
        RunOutcome::Complete { verdicts, best_score } => {
            assert(Seq::<bool>::empty() + verdicts =~= verdicts);
        },
    }
}

proof fn lemma_prepend_push(vs: Seq<bool>, v: bool, rest: RunOutcome)
    ensures
        prepend_verdicts(vs, prepend_verdicts(seq![v], rest)) == prepend_verdicts(
            vs.push(v),
            rest,
        ),
{
    match rest {
        RunOutcome::Aborted { err } => {},
        RunOutcome::Complete { verdicts, best_score } => {
            assert(vs + (seq![v] + verdicts) =~= vs.push(v) + verdicts);
        },
    }
}

proof fn lemma_prepend_complete_empty(vs: Seq<bool>, b: u32)
    ensures
        prepend_verdicts(vs, RunOutcome::Complete { verdicts: Seq::empty(), best_score: b })
            == (RunOutcome::Complete { verdicts: vs, best_score: b }),
{
    assert(vs + Seq::<bool>::empty() =~= vs);
}

/// Short-circuit: once the best score has reached the ceiling, the rest of
/// the run consumes no reply and gives no verdict, whatever the script holds,
/// and the best score is final.
pub proof fn lemma_early_stop(i: nat, n: nat, best: u32, max: u32, replies: Seq<OracleReply>)
    requires
        best >= max,
    ensures
        probe_run(i, n, best, max, replies) == (RunOutcome::Complete {
            verdicts: Seq::<bool>::empty(),
            best_score: best,
        }),
{
}

/// Oracle-call bound: a completed run gives at most one verdict per
/// remaining question, so a whole search makes at most `n + 1` round trips
/// (the baseline plus one per verdict).
pub proof fn lemma_probe_run_verdict_bound(
    i: nat,
    n: nat,
    best: u32,
    max: u32,
    replies: Seq<OracleReply>,
)
    requires
        i <= n,
    ensures
        probe_run(i, n, best, max, replies) matches RunOutcome::Complete { verdicts, .. }
            ==> i + verdicts.len() <= n,
    decreases n - i,
{
    if !(best >= max || i >= n) && i + 1 < replies.len() {
        match replies[i as int + 1] {
            OracleReply::Timeout => {},
            OracleReply::Observed(obs) => {
                lemma_probe_run_verdict_bound((i + 1) as nat, n, best, max, replies);
                lemma_probe_run_verdict_bound((i + 1) as nat, n, obs.score, max, replies);
            },
        }
    }
}

/// Oracle-call bound for a whole search: a completed run over `n` questions
/// holds at most `n` verdicts, hence at most `n + 1` oracle round trips.
pub proof fn lemma_oracle_call_bound(n: nat, replies: Seq<OracleReply>)
    ensures
        run_model(n, replies) matches RunOutcome::Complete { verdicts, .. } ==> verdicts.len()
            <= n,
{
    if replies.len() > 0 {
        match replies[0] {
            OracleReply::Timeout => {},
            OracleReply::Observed(obs) => {
                lemma_probe_run_verdict_bound(0, n, obs.score, obs.max_score, replies);
            },
        }
    }
}

/// Monotonic best score: the best score a completed run ends with is never
/// below the best score it entered with; with the step rule (a verdict never
/// lowers `best`), the best score is non-decreasing across the whole run.
pub proof fn lemma_best_score_monotonic(
    i: nat,
    n: nat,
    best: u32,
    max: u32,
    replies: Seq<OracleReply>,
)
    ensures
        probe_run(i, n, best, max, replies) matches RunOutcome::Complete { best_score, .. }
            ==> best_score >= best,
    decreases n - i,
{
    if !(best >= max || i >= n) && i + 1 < replies.len() {
        match replies[i as int + 1] {
            OracleReply::Timeout => {},
            OracleReply::Observed(obs) => {
                lemma_best_score_monotonic((i + 1) as nat, n, best, max, replies);
                lemma_best_score_monotonic((i + 1) as nat, n, obs.score, max, replies);
            },
        }
    }
}

/// Monotonic best score for a whole search: a completed run never ends below
/// the baseline score it started from.
pub proof fn lemma_best_score_from_baseline(n: nat, replies: Seq<OracleReply>)
    ensures
        run_model(n, replies) matches RunOutcome::Complete { best_score, .. } ==> (replies.len()
            > 0 && replies[0] is Observed && best_score >= replies[0]->Observed_0.score),
{
    if replies.len() > 0 {
        match replies[0] {
            OracleReply::Timeout => {},
            OracleReply::Observed(obs) => {
                lemma_best_score_monotonic(0, n, obs.score, obs.max_score, replies);
            },
        }
    }
}

/// Completeness on a full run: a completed run that stopped short of the
/// last question did so only because the best score reached the ceiling; if
/// the ceiling is never reached, every question gets a verdict.
pub proof fn lemma_probe_run_completeness(
    i: nat,
    n: nat,
    best: u32,
    max: u32,
    replies: Seq<OracleReply>,
)
    requires
        i <= n,
    ensures
        probe_run(i, n, best, max, replies) matches RunOutcome::Complete { verdicts, best_score }
            ==> (i + verdicts.len() == n || best_score >= max),
    decreases n - i,
{
    if !(best >= max || i >= n) && i + 1 < replies.len() {
        match replies[i as int + 1] {
            OracleReply::Timeout => {},
            OracleReply::Observed(obs) => {
                lemma_probe_run_completeness((i + 1) as nat, n, best, max, replies);
                lemma_probe_run_completeness((i + 1) as nat, n, obs.score, max, replies);
            },
        }
    }
}

/// Completeness on a full run, for a whole search: either every one of the
/// `n` questions has exactly one verdict, in question order, or the run
/// short-circuited with the baseline's ceiling reached.
pub proof fn lemma_verdict_completeness(n: nat, replies: Seq<OracleReply>)
    ensures
        run_model(n, replies) matches RunOutcome::Complete { verdicts, best_score } ==> (
        replies.len() > 0 && replies[0] is Observed && (verdicts.len() == n || best_score
            >= replies[0]->Observed_0.max_score)),
{
    if replies.len() > 0 {
        match replies[0] {
            OracleReply::Timeout => {},
            OracleReply::Observed(obs) => {
                lemma_probe_run_completeness(0, n, obs.score, obs.max_score, replies);
            },
        }
    }
}

proof fn lemma_probe_run_ignores_extra_replies(
    i: nat,
    n: nat,
    best: u32,
    max: u32,
    replies: Seq<OracleReply>,
    extra: Seq<OracleReply>,
)
    requires
        probe_run(i, n, best, max, replies) is Complete,
    ensures
        probe_run(i, n, best, max, replies + extra) == probe_run(i, n, best, max, replies),
    decreases n - i,
{
    if !(best >= max || i >= n) {
        assert(i + 1 < replies.len());
        assert((replies + extra)[i as int + 1] == replies[i as int + 1]);
        match replies[i as int + 1] {
            OracleReply::Timeout => {},
            OracleReply::Observed(obs) => {
                if obs.max_score == max && obs.score <= obs.max_score {
                    if obs.score < best {
                        assert(probe_run((i + 1) as nat, n, best, max, replies) is Complete);
                        lemma_probe_run_ignores_extra_replies(
                            (i + 1) as nat,
                            n,
                            best,
                            max,
                            replies,
                            extra,
                        );
                    } else {
                        assert(probe_run((i + 1) as nat, n, obs.score, max, replies)
                            is Complete);
                        lemma_probe_run_ignores_extra_replies(
                            (i + 1) as nat,
                            n,
                            obs.score,
                            max,
                            replies,
                            extra,
                        );
                    }
                }
            },
        }
    }
}

/// A completed run is determined by the replies it consumed: extending the
/// script with further replies changes nothing, so after the short-circuit
/// (or the last question) the oracle is never consulted again.
pub proof fn lemma_completed_run_ignores_extra_replies(
    n: nat,
    replies: Seq<OracleReply>,
    extra: Seq<OracleReply>,
)
    requires
        run_model(n, replies) is Complete,
    ensures
        run_model(n, replies + extra) == run_model(n, replies),
{
    assert(replies.len() > 0);
    assert((replies + extra)[0] == replies[0]);
    match replies[0] {
        OracleReply::Timeout => {},
        OracleReply::Observed(obs) => {
            if obs.score <= obs.max_score {
                lemma_probe_run_ignores_extra_replies(0, n, obs.score, obs.max_score, replies, extra);
            }
        },
    }
}

/// Run a whole search against a script of oracle replies: reply `k` answers
/// the k-th submit/observe round trip; a missing reply is an `observe`
/// timeout. Returns exactly what `run_model` says of the script: the verdicts
/// in question order with the best score, or the first error met. On
/// success the number of round trips is exactly one more than the number of
/// verdicts (so at most `n + 1`), and the run is complete unless the ceiling
/// was reached.
#[verifier::loop_isolation(false)]
pub fn solve(questions: Vec<Question>, replies: &Vec<OracleReply>) -> (result: Result<
    Solution,
    SolveError,
>)
    requires
        questions@.len() < usize::MAX,
    ensures
        match result {
            Ok(sol) => {
                &&& run_model(questions@.len() as nat, replies@) == (RunOutcome::Complete {
                    verdicts: verdict_values(sol.verdicts@),
                    best_score: sol.best_score,
                })
                &&& sol.verdicts@.len() <= questions@.len()
                &&& (forall|j: int|
                    0 <= j < sol.verdicts@.len() ==> (#[trigger] sol.verdicts@[j]).id@
                        == questions@[j].id@)
                &&& sol.oracle_calls == sol.verdicts@.len() + 1
                &&& sol.oracle_calls <= questions@.len() + 1
                &&& sol.best_score <= sol.max_score
                &&& (sol.verdicts@.len() == questions@.len() || sol.best_score == sol.max_score)
            },
            Err(e) => run_model(questions@.len() as nat, replies@) == (RunOutcome::Aborted {
                err: e,
            }),
        },
{
    let ghost qs0 = questions@;
    let ghost n = questions@.len() as nat;
    let mut engine = Engine::new(questions);
    let mut k: usize = 0;
    while engine.needs_submission()
        invariant
            engine.wf(),
            engine.questions@.len() == n,
            n < usize::MAX,
            qs0.len() == n,
            forall|j: int|
                0 <= j < n ==> (#[trigger] engine.questions@[j]).id@ == qs0[j].id@,
            engine.phase != Phase::Failed,
            engine.phase == Phase::AwaitBaseline ==> k == 0 && engine.idx == 0
                && engine.verdicts@.len() == 0,
            (engine.phase == Phase::AwaitProbe || engine.phase == Phase::Done) ==> k
                == engine.idx + 1,
            engine.phase == Phase::AwaitProbe ==> run_model(n, replies@) == prepend_verdicts(
                verdict_values(engine.verdicts@),
                probe_run(
                    engine.idx as nat,
                    n,
                    engine.best_score,
                    engine.max_score,
                    replies@,
                ),
            ),
            engine.phase == Phase::Done ==> run_model(n, replies@) == (RunOutcome::Complete {
                verdicts: verdict_values(engine.verdicts@),
                best_score: engine.best_score,
            }),
        decreases n + 1 - k,
    {
        if k >= replies.len() {
            proof {
                if engine.phase == Phase::AwaitBaseline {
                    assert(replies@.len() == 0);
                    assert(run_model(n, replies@) == (RunOutcome::Aborted {
                        err: SolveError::OracleTimeoutError { step: 0 },
                    }));
                } else {
                    let i = engine.idx as nat;
                    assert(probe_run(i, n, engine.best_score, engine.max_score, replies@)
                        == (RunOutcome::Aborted {
                        err: SolveError::OracleTimeoutError { step: (i + 1) as usize },
                    }));
                    assert((i + 1) as usize == engine.spec_step_index());
                    assert(run_model(n, replies@) == (RunOutcome::Aborted {
                        err: SolveError::OracleTimeoutError { step: engine.spec_step_index() },
                    }));
                }
            }
            return Err(engine.timeout_error());
        }
        let reply = replies[k];
        match reply {
            OracleReply::Timeout => {
                proof {
                    if engine.phase == Phase::AwaitBaseline {
                        assert(replies@[0] == OracleReply::Timeout);
                        assert(run_model(n, replies@) == (RunOutcome::Aborted {
                            err: SolveError::OracleTimeoutError { step: 0 },
                        }));
                    } else {
                        let i = engine.idx as nat;
                        assert(replies@[i as int + 1] == OracleReply::Timeout);
                        assert(probe_run(i, n, engine.best_score, engine.max_score, replies@)
                            == (RunOutcome::Aborted {
                            err: SolveError::OracleTimeoutError { step: (i + 1) as usize },
                        }));
                        assert((i + 1) as usize == engine.spec_step_index());
                        assert(run_model(n, replies@) == (RunOutcome::Aborted {
                            err: SolveError::OracleTimeoutError {
                                step: engine.spec_step_index(),
                            },
                        }));
                    }
                }
                return Err(engine.timeout_error());
            },
            OracleReply::Observed(obs) => {
                let ghost pre = engine;
                let res = engine.on_observation(obs);
                match res {
                    Err(e) => {
                        proof {
                            if pre.phase == Phase::AwaitBaseline {
                                assert(replies@[0] == OracleReply::Observed(obs));
                                assert(run_model(n, replies@) == (RunOutcome::Aborted {
                                    err: e,
                                }));
                            } else {
                                let i = pre.idx as nat;
                                assert(replies@[i as int + 1] == OracleReply::Observed(obs));
                                assert(probe_run(i, n, pre.best_score, pre.max_score, replies@)
                                    == (RunOutcome::Aborted { err: e }));
                                assert(run_model(n, replies@) == (RunOutcome::Aborted {
                                    err: e,
                                }));
                            }
                        }
                        return Err(e);
                    },
                    Ok(()) => {
                        proof {
                            if pre.phase == Phase::AwaitBaseline {
                                assert(replies@[0] == OracleReply::Observed(obs));
                                assert(run_model(n, replies@) == probe_run(
                                    0,
                                    n,
                                    obs.score,
                                    obs.max_score,
                                    replies@,
                                ));
                                assert(verdict_values(engine.verdicts@)
                                    =~= Seq::<bool>::empty());
                                if engine.phase == Phase::AwaitProbe {
                                    lemma_prepend_nil(
                                        probe_run(0, n, obs.score, obs.max_score, replies@),
                                    );
                                }
                            } else {
                                let i = pre.idx as nat;
                                let vals_pre = verdict_values(pre.verdicts@);
                                let accepted = obs.score >= pre.best_score;
                                let p_next = probe_run(
                                    (i + 1) as nat,
                                    n,
                                    engine.best_score,
                                    engine.max_score,
                                    replies@,
                                );
                                assert(replies@[i as int + 1] == OracleReply::Observed(obs));
                                assert(probe_run(i, n, pre.best_score, pre.max_score, replies@)
                                    == prepend_verdicts(seq![accepted], p_next));
                                lemma_prepend_push(vals_pre, accepted, p_next);
                                assert(verdict_values(engine.verdicts@) =~= vals_pre.push(
                                    accepted,
                                ));
                                if engine.phase == Phase::Done {
                                    lemma_prepend_complete_empty(
                                        verdict_values(engine.verdicts@),
                                        engine.best_score,
                                    );
                                }
                            }
                        }
                        k = k + 1;
                    },
                }
            },
        }
    }
    proof {
        assert(engine.phase == Phase::Done);
        assert(verdict_values(engine.verdicts@).len() == engine.verdicts@.len());
    }
    let sol = engine.into_solution();
    Ok(sol)
}

} // verus!
