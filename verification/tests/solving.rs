//! Whole-search behaviour: the engine driven by a deterministic additive
//! oracle, and `solve` run against reply scripts.

use quiz_solver::engine::Engine;
use quiz_solver::model::{OracleReply, Question, ScoreObservation, Solution, SolveError};
use quiz_solver::solve::solve;

fn questions(ids: &[&str]) -> Vec<Question> {
    ids.iter()
        .map(|id| Question { id: id.to_string(), answer: false })
        .collect()
}

fn observed(score: u32, max_score: u32) -> OracleReply {
    OracleReply::Observed(ScoreObservation { score, max_score })
}

/// Additive scoring: each answer that equals the ground truth earns that
/// question's point value.
fn additive_score(truth: &[bool], points: &[u32], answers: &[bool]) -> u32 {
    let mut score = 0;
    for i in 0..truth.len() {
        if answers[i] == truth[i] {
            score += points[i];
        }
    }
    score
}

/// Drive the engine to completion against a deterministic additive oracle,
/// recording each submitted vector; returns the solution and the trace of
/// best scores after each accepted observation.
fn run_additive(
    ids: &[&str],
    truth: &[bool],
    points: &[u32],
) -> (Solution, Vec<Vec<bool>>, Vec<u32>) {
    let max_score: u32 = points.iter().sum();
    let mut engine = Engine::new(questions(ids));
    let mut submissions = Vec::new();
    let mut best_trace = Vec::new();
    while engine.needs_submission() {
        let vector = engine.answer_vector();
        let score = additive_score(truth, points, &vector);
        submissions.push(vector);
        engine
            .on_observation(ScoreObservation { score, max_score })
            .expect("the additive oracle is well-formed");
        best_trace.push(engine.best_score);
    }
    (engine.into_solution(), submissions, best_trace)
}

#[test]
fn scenario_three_questions_additive() {
    // Ground truth [true, false, true], one point each: the baseline
    // all-false vector scores 1; q1 is accepted (2), q2 reverted (1 < 2),
    // q3 accepted (3) and the ceiling is reached.
    let (sol, submissions, _) = run_additive(&["q1", "q2", "q3"], &[true, false, true], &[1, 1, 1]);
    assert_eq!(sol.best_score, 3);
    assert_eq!(sol.max_score, 3);
    assert_eq!(sol.oracle_calls, 4);
    assert_eq!(sol.verdicts.len(), 3);
    assert_eq!(sol.verdicts[0].id, "q1");
    assert!(sol.verdicts[0].value);
    assert_eq!(sol.verdicts[1].id, "q2");
    assert!(!sol.verdicts[1].value);
    assert_eq!(sol.verdicts[2].id, "q3");
    assert!(sol.verdicts[2].value);
    // The baseline submission is all-false, and each probe flips exactly the
    // probed question on top of the accepted prefix.
    assert_eq!(submissions[0], vec![false, false, false]);
    assert_eq!(submissions[1], vec![true, false, false]);
    assert_eq!(submissions[2], vec![true, true, false]);
    assert_eq!(submissions[3], vec![true, false, true]);
}

#[test]
fn scenario_tie_is_accepted() {
    // One question whose flip leaves the score unchanged: the tie-acceptance
    // policy records `true` for it even though it earned nothing.
    let replies = vec![observed(1, 10), observed(1, 10)];
    let sol = solve(questions(&["q1"]), &replies).expect("the run completes");
    assert_eq!(sol.verdicts.len(), 1);
    assert_eq!(sol.verdicts[0].id, "q1");
    assert!(sol.verdicts[0].value);
    assert_eq!(sol.best_score, 1);
    assert_eq!(sol.oracle_calls, 2);
}

#[test]
fn scenario_timeout_aborts_without_partial_verdicts() {
    // The observation of question 2's probe never arrives: the search aborts
    // with a timeout at round trip 2 and no partial verdict map survives.
    let replies = vec![observed(0, 3), observed(1, 3), OracleReply::Timeout];
    let result = solve(questions(&["q1", "q2", "q3"]), &replies);
    assert_eq!(result.unwrap_err(), SolveError::OracleTimeoutError { step: 2 });
}

#[test]
fn scenario_missing_reply_is_a_timeout() {
    let replies = vec![observed(0, 3), observed(1, 3)];
    let result = solve(questions(&["q1", "q2", "q3"]), &replies);
    assert_eq!(result.unwrap_err(), SolveError::OracleTimeoutError { step: 2 });
}

#[test]
fn scenario_max_score_drift_aborts() {
    // The ceiling reported for question 2's probe differs from the baseline's:
    // the search aborts before judging that flip.
    let replies = vec![observed(0, 3), observed(1, 3), observed(1, 4)];
    let result = solve(questions(&["q1", "q2", "q3"]), &replies);
    assert_eq!(
        result.unwrap_err(),
        SolveError::MaxScoreDriftError { step: 2, baseline: 3, observed: 4 },
    );
}

#[test]
fn scenario_malformed_baseline_aborts() {
    // A baseline score above its own maximum is untrustworthy.
    let replies = vec![observed(6, 5)];
    let result = solve(questions(&["q1"]), &replies);
    assert_eq!(result.unwrap_err(), SolveError::OracleParseError { step: 0 });
}

#[test]
fn scenario_malformed_probe_aborts() {
    let replies = vec![observed(0, 5), observed(6, 5)];
    let result = solve(questions(&["q1"]), &replies);
    assert_eq!(result.unwrap_err(), SolveError::OracleParseError { step: 1 });
}

#[test]
fn oracle_call_bound_holds() {
    // A full run over n questions makes exactly n + 1 round trips.
    let (sol, submissions, _) =
        run_additive(&["a", "b", "c", "d"], &[true, true, true, true], &[1, 1, 1, 1]);
    assert_eq!(sol.oracle_calls, 5);
    assert_eq!(submissions.len(), 5);
    assert_eq!(sol.oracle_calls, sol.verdicts.len() + 1);
}

#[test]
fn best_score_is_monotonic() {
    let (_, _, best_trace) = run_additive(
        &["a", "b", "c", "d", "e"],
        &[false, true, false, true, false],
        &[2, 1, 3, 1, 2],
    );
    for pair in best_trace.windows(2) {
        assert!(pair[0] <= pair[1]);
    }
}

#[test]
fn full_run_verdicts_every_question() {
    // The ceiling stays out of reach, so every question gets exactly one
    // verdict and the keys are the input ids in processing order.
    let replies = vec![observed(0, 5), observed(1, 5), observed(1, 5), observed(2, 5)];
    let sol = solve(questions(&["q1", "q2", "q3"]), &replies).expect("the run completes");
    assert_eq!(sol.verdicts.len(), 3);
    let ids: Vec<&str> = sol.verdicts.iter().map(|v| v.id.as_str()).collect();
    assert_eq!(ids, vec!["q1", "q2", "q3"]);
    assert!(sol.best_score < sol.max_score);
}

#[test]
fn baseline_is_idempotent() {
    // Submitting the all-false vector twice against a deterministic oracle
    // fixes the same best score both times.
    let ids = ["a", "b", "c"];
    let truth = [true, false, true];
    let points = [1, 2, 3];
    let mut first = Engine::new(questions(&ids));
    let mut second = Engine::new(questions(&ids));
    for engine in [&mut first, &mut second] {
        let vector = engine.answer_vector();
        assert_eq!(vector, vec![false, false, false]);
        let score = additive_score(&truth, &points, &vector);
        engine
            .on_observation(ScoreObservation { score, max_score: 6 })
            .expect("the baseline observation is well-formed");
    }
    assert_eq!(first.best_score, second.best_score);
    assert_eq!(first.best_score, 2);
}

#[test]
fn early_stop_leaves_later_questions_unverdicted() {
    // Question 1's probe reaches the ceiling: the two remaining questions are
    // never probed (no further round trips) and get no verdict; their
    // hypotheses stay false.
    let replies = vec![observed(0, 2), observed(2, 2), observed(9, 9), observed(9, 9)];
    let sol = solve(questions(&["q1", "q2", "q3"]), &replies).expect("the run completes");
    assert_eq!(sol.oracle_calls, 2);
    assert_eq!(sol.verdicts.len(), 1);
    assert_eq!(sol.verdicts[0].id, "q1");
    assert!(sol.verdicts[0].value);
    assert_eq!(sol.best_score, 2);
    assert_eq!(sol.max_score, 2);
}

#[test]
fn baseline_at_ceiling_short_circuits_everything() {
    // The all-false vector already scores the maximum: one round trip, no
    // verdicts at all.
    let (sol, submissions, _) = run_additive(&["a", "b"], &[false, false], &[1, 1]);
    assert_eq!(sol.oracle_calls, 1);
    assert_eq!(submissions.len(), 1);
    assert!(sol.verdicts.is_empty());
    assert_eq!(sol.best_score, 2);
}

#[test]
fn empty_question_list_needs_one_round_trip() {
    let replies = vec![observed(0, 7)];
    let sol = solve(questions(&[]), &replies).expect("the run completes");
    assert_eq!(sol.oracle_calls, 1);
    assert!(sol.verdicts.is_empty());
    assert_eq!(sol.best_score, 0);
    assert_eq!(sol.max_score, 7);
}

#[test]
fn engine_reverts_rejected_flip() {
    // After a rejected probe the submitted vector shows the question back at
    // false while the next question is tentatively true.
    let mut engine = Engine::new(questions(&["a", "b"]));
    engine
        .on_observation(ScoreObservation { score: 1, max_score: 4 })
        .expect("baseline");
    assert_eq!(engine.answer_vector(), vec![true, false]);
    engine
        .on_observation(ScoreObservation { score: 0, max_score: 4 })
        .expect("probe of the first question");
    assert_eq!(engine.answer_vector(), vec![false, true]);
    assert_eq!(engine.best_score, 1);
}

#[test]
fn timeout_error_names_the_pending_round_trip() {
    let engine = Engine::new(questions(&["a"]));
    assert_eq!(engine.timeout_error(), SolveError::OracleTimeoutError { step: 0 });
    assert_eq!(engine.step_index(), 0);
}
