//! Analysis and validation engine for orthogonal-array experiment design.
//!
//! The engine validates raw rectangular level matrices, computes balance and
//! correlation statistics, drives an external strength verifier and
//! construction catalogue, and prepares inputs for an external
//! factor-effect/ANOVA engine.

pub mod advisor;
pub mod balance;
pub mod catalogue;
pub mod correlation;
pub mod doe;
pub mod export;
pub mod external;
pub mod import;
pub mod ingest;
pub mod model;
pub mod numfmt;
pub mod parse;
pub mod types;
pub mod verification;
