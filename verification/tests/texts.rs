//! Reading the oracle's on-screen texts: score parsing, the slash-prefixed
//! total, assembling observations, and the login marker.

use quiz_solver::model::{ScoreObservation, SolveError};
use quiz_solver::text::{observation_from_texts, parse_score_text, parse_total_text,
    query_indicates_login};

#[test]
fn score_text_parses_plain_decimals() {
    assert_eq!(parse_score_text(b"42"), Some(42));
    assert_eq!(parse_score_text(b"0"), Some(0));
    assert_eq!(parse_score_text(b"0042"), Some(42));
    assert_eq!(parse_score_text(b"4294967295"), Some(u32::MAX));
}

#[test]
fn score_text_rejects_malformed_input() {
    assert_eq!(parse_score_text(b""), None);
    assert_eq!(parse_score_text(b"4a"), None);
    assert_eq!(parse_score_text(b"-1"), None);
    assert_eq!(parse_score_text(b"+5"), None);
    assert_eq!(parse_score_text(b"4 2"), None);
    assert_eq!(parse_score_text(b"4294967296"), None);
    assert_eq!(parse_score_text(b"99999999999999999999"), None);
}

#[test]
fn total_text_strips_leading_slashes() {
    assert_eq!(parse_total_text(b"/50"), Some(50));
    assert_eq!(parse_total_text(b"50"), Some(50));
    assert_eq!(parse_total_text(b"//7"), Some(7));
    assert_eq!(parse_total_text(b"/"), None);
    assert_eq!(parse_total_text(b""), None);
    assert_eq!(parse_total_text(b"/5/0"), None);
}

#[test]
fn observation_is_assembled_from_the_two_texts() {
    assert_eq!(
        observation_from_texts(b"3", b"/10", 0),
        Ok(ScoreObservation { score: 3, max_score: 10 }),
    );
    assert_eq!(
        observation_from_texts(b"10", b"/10", 4),
        Ok(ScoreObservation { score: 10, max_score: 10 }),
    );
}

#[test]
fn observation_rejects_bad_texts_and_excess_scores() {
    assert_eq!(
        observation_from_texts(b"three", b"/10", 1),
        Err(SolveError::OracleParseError { step: 1 }),
    );
    assert_eq!(
        observation_from_texts(b"3", b"ten", 2),
        Err(SolveError::OracleParseError { step: 2 }),
    );
    assert_eq!(
        observation_from_texts(b"11", b"/10", 3),
        Err(SolveError::OracleParseError { step: 3 }),
    );
}

#[test]
fn login_is_recognized_by_the_code_query() {
    assert!(query_indicates_login(b"code=abc123"));
    assert!(query_indicates_login(b"code="));
    assert!(!query_indicates_login(b"xcode=1"));
    assert!(!query_indicates_login(b"code"));
    assert!(!query_indicates_login(b""));
    assert!(!query_indicates_login(b"session=code"));
}
