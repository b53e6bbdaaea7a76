//! A score-driven search for the boolean answers to a fixed list of
//! questions, probing an opaque oracle that only reports an aggregate score
//! for a full answer vector.
//!
//! The library holds the decision logic: the data model of a search
//! (`model`), the inference engine that chooses which answer to try next,
//! how to read a score delta, and when to stop (`engine`), and the parsing
//! of the oracle's on-screen score texts and of the login marker (`text`).
//! Driving a real browser-backed oracle is left to an unverified front end
//! that performs the submissions the engine asks for and feeds the resulting
//! observations back into it.

pub mod engine;
pub mod model;
pub mod solve;
pub mod text;
