//! Verified support for a marksmanship quiz: which inputs of the angle, drop
//! and distance conversions are in their domain, where a shot lands on a 9×9
//! target grid and how that grid is drawn, and how a quiz picks its questions
//! and keeps its score.
//!
//! Numbers that callers hold as binary64 floating point come in by their
//! encoding, see [`binary64::Binary64`]; the library itself works on integers
//! only.

pub mod binary64;
pub mod domain;
pub mod quizz;
pub mod random;
pub mod target;
