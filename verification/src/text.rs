//! Reading the oracle's on-screen texts. The score modal shows the obtained
//! score as a bare decimal (such as `42`) and the maximum as a slash-prefixed
//! decimal (such as `/50`); the login page is recognized by a URL query that
//! starts with `code=`. These functions work on the bytes of those texts and
//! decide; fetching the texts from the page is the unverified front end's job.

use vstd::prelude::*;

use crate::model::{ScoreObservation, SolveError};

verus! {

pub const ASCII_ZERO: u8 = 48;

pub const ASCII_NINE: u8 = 57;

pub const ASCII_SLASH: u8 = 47;

pub const ASCII_C: u8 = 99;

pub const ASCII_O: u8 = 111;

pub const ASCII_D: u8 = 100;

pub const ASCII_E: u8 = 101;

pub const ASCII_EQ: u8 = 61;

/// A byte is an ASCII decimal digit.
pub open spec fn is_digit(b: u8) -> bool {
    ASCII_ZERO <= b <= ASCII_NINE
}

/// Every byte of the sequence is an ASCII decimal digit.
pub open spec fn all_digits(s: Seq<u8>) -> bool {
    forall|i: int| 0 <= i < s.len() ==> is_digit(#[trigger] s[i])
}

/// The numeric value of one ASCII digit.
pub open spec fn digit_value(b: u8) -> int {
    b - ASCII_ZERO
}

/// The number that a sequence of ASCII decimal digits denotes.
pub open spec fn decimal_value(s: Seq<u8>) -> int
    decreases s.len(),
{
    if s.len() == 0 {
        0
    } else {
        decimal_value(s.drop_last()) * 10 + digit_value(s.last())
    }
}

/// Well-formed score text: a nonempty, all-digit decimal whose value fits
/// the score type.
pub open spec fn is_score_text(s: Seq<u8>) -> bool {
    s.len() > 0 && all_digits(s) && decimal_value(s) <= u32::MAX
}

proof fn lemma_decimal_value_nonneg(s: Seq<u8>)
    requires
        all_digits(s),
    ensures
        decimal_value(s) >= 0,
    decreases s.len(),
{
    if s.len() > 0 {
        assert(all_digits(s.drop_last()));
        lemma_decimal_value_nonneg(s.drop_last());
    }
}

proof fn lemma_decimal_value_take_le(s: Seq<u8>, i: int)
    requires
        all_digits(s),
        0 <= i <= s.len(),
    ensures
        decimal_value(s.take(i)) <= decimal_value(s),
    decreases s.len() - i,
{
    if i == s.len() {
        assert(s.take(i) =~= s);
    } else {
        assert(s.take(i + 1).drop_last() =~= s.take(i));
        assert(all_digits(s.take(i)));
        lemma_decimal_value_nonneg(s.take(i));
        assert(decimal_value(s.take(i + 1)) == decimal_value(s.take(i)) * 10 + digit_value(
            s.take(i + 1).last(),
        ));
        lemma_decimal_value_take_le(s, i + 1);
    }
}

/// Parse a bare decimal score text. Returns the denoted number exactly when
/// the text is a nonempty digit string whose value fits in a `u32`.
pub fn parse_score_text(s: &[u8]) -> (r: Option<u32>)
    ensures
        r is Some <==> is_score_text(s@),
        r matches Some(v) ==> v == decimal_value(s@),
{
    if s.len() == 0 {
        return None;
    }
    let mut acc: u64 = 0;
    let mut i: usize = 0;
    while i < s.len()
        invariant
            0 <= i <= s@.len(),
            s@.len() > 0,
            all_digits(s@.take(i as int)),
            acc == decimal_value(s@.take(i as int)),
            acc <= u32::MAX,
        decreases s@.len() - i,
    {
        let b = s[i];
        if b < ASCII_ZERO || b > ASCII_NINE {
            assert(!is_digit(s@[i as int]));
            return None;
        }
        let d: u64 = (b - ASCII_ZERO) as u64;
        let next: u64 = acc * 10 + d;
        proof {
            assert(s@.take(i + 1).drop_last() =~= s@.take(i as int));
            assert(s@.take(i + 1).last() == s@[i as int]);
            assert(all_digits(s@.take(i + 1)));
        }
        if next > u32::MAX as u64 {
            proof {
                if all_digits(s@) {
                    lemma_decimal_value_take_le(s@, i + 1);
                }
            }
            return None;
        }
        acc = next;
        i = i + 1;
    }
    proof {
        assert(s@.take(i as int) =~= s@);
    }
    Some(acc as u32)
}

/// The text with every leading `/` removed, as `str::trim_start_matches('/')`
/// leaves it.
pub open spec fn strip_leading_slashes(s: Seq<u8>) -> Seq<u8>
    decreases s.len(),
{
    if s.len() > 0 && s[0] == ASCII_SLASH {
        strip_leading_slashes(s.drop_first())
    } else {
        s
    }
}

proof fn lemma_strip_skip(s: Seq<u8>, j: int)
    requires
        0 <= j <= s.len(),
        forall|k: int| 0 <= k < j ==> s[k] == ASCII_SLASH,
    ensures
        strip_leading_slashes(s) == strip_leading_slashes(s.skip(j)),
    decreases j,
{
    if j > 0 {
        assert(s.len() > 0 && s[0] == ASCII_SLASH);
        assert(s.drop_first() =~= s.skip(1));
        lemma_strip_skip(s.skip(1), j - 1);
        assert(s.skip(1).skip(j - 1) =~= s.skip(j));
    } else {
        assert(s.skip(0) =~= s);
    }
}

/// Parse the maximum-score text, which the score modal renders with a leading
/// slash (`/50`): leading slashes are stripped and the remainder must be a
/// well-formed decimal.
pub fn parse_total_text(s: &[u8]) -> (r: Option<u32>)
    ensures
        r is Some <==> is_score_text(strip_leading_slashes(s@)),
        r matches Some(v) ==> v == decimal_value(strip_leading_slashes(s@)),
{
    let mut j: usize = 0;
    while j < s.len() && s[j] == ASCII_SLASH
        invariant
            0 <= j <= s@.len(),
            forall|k: int| 0 <= k < j ==> s@[k] == ASCII_SLASH,
        decreases s@.len() - j,
    {
        j = j + 1;
    }
    proof {
        lemma_strip_skip(s@, j as int);
        if j < s@.len() {
            assert(s@.skip(j as int)[0] == s@[j as int]);
            assert(strip_leading_slashes(s@.skip(j as int)) == s@.skip(j as int));
        } else {
            assert(s@.skip(j as int) =~= Seq::<u8>::empty());
            assert(strip_leading_slashes(s@.skip(j as int)) == s@.skip(j as int));
        }
    }
    let rest = vstd::slice::slice_subrange(s, j, s.len());
    parse_score_text(rest)
}

/// The compute half of reading the score modal: turn the two on-screen texts
/// (the obtained score and the slash-prefixed total) into a
/// `ScoreObservation`, rejecting unreadable text and a score above the
/// maximum. `step` is the index of the oracle round trip being read and is
/// carried into the error.
pub fn observation_from_texts(score_text: &[u8], total_text: &[u8], step: usize) -> (r: Result<
    ScoreObservation,
    SolveError,
>)
    ensures
        match r {
            Ok(obs) => {
                &&& is_score_text(score_text@)
                &&& is_score_text(strip_leading_slashes(total_text@))
                &&& obs.score == decimal_value(score_text@)
                &&& obs.max_score == decimal_value(strip_leading_slashes(total_text@))
                &&& obs.score <= obs.max_score
            },
            Err(e) => {
                &&& e == (SolveError::OracleParseError { step })
                &&& !(is_score_text(score_text@) && is_score_text(strip_leading_slashes(total_text@))
                    && decimal_value(score_text@) <= decimal_value(
                    strip_leading_slashes(total_text@),
                ))
            },
        },
{
    let score = match parse_score_text(score_text) {
        Some(v) => v,
        None => {
            return Err(SolveError::OracleParseError { step });
        },
    };
    let max_score = match parse_total_text(total_text) {
        Some(v) => v,
        None => {
            return Err(SolveError::OracleParseError { step });
        },
    };
    if score > max_score {
        return Err(SolveError::OracleParseError { step });
    }
    Ok(ScoreObservation { score, max_score })
}

/// A URL query string marks a completed login exactly when it starts with
/// `code=`.
pub open spec fn has_login_code(q: Seq<u8>) -> bool {
    q.len() >= 5 && q[0] == ASCII_C && q[1] == ASCII_O && q[2] == ASCII_D && q[3] == ASCII_E && q[4] == ASCII_EQ
}

/// The decision inside the login-wait poll: whether the current URL's query
/// string shows that login has completed.
pub fn query_indicates_login(q: &[u8]) -> (r: bool)
    ensures
        r == has_login_code(q@),
{
    q.len() >= 5 && q[0] == ASCII_C && q[1] == ASCII_O && q[2] == ASCII_D && q[3] == ASCII_E && q[4] == ASCII_EQ
}

} // verus!
