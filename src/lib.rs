//! Core logic of a read-mostly leaderboard API: session identity rules,
//! run-query selection and post-processing, and full-text search sanitization.

pub mod auth;
pub mod model;
pub mod search;
pub mod runs;
