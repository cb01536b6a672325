//! Milestone-based project finance: validation rules and quadratic voting.

pub mod text;
pub mod utils;
pub mod voting;
