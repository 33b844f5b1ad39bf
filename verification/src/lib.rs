//! Monte Carlo move evaluation: random playouts from each candidate move,
//! tallied into a score, and the best-scoring move picked with a
//! first-wins tie-break.

pub mod config;
pub mod engine;
pub mod error;
pub mod fen;
pub mod outcome;
pub mod rank;
pub mod rollout;
pub mod score;
