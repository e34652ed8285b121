//! Data transfer types of the engine.
//!
//! All entities are request-scoped value objects: constructed fresh per call,
//! returned to the caller, never persisted or mutated by the engine.

use vstd::prelude::*;
use crate::model::{inferred_level, is_rectangular};

verus! {

/// An orthogonal array together with its derived attributes and metadata.
#[derive(Debug, Clone, PartialEq)]
pub struct OAData {
    /// Unique identifier for this array.
    pub id: String,
    /// Number of runs (rows).
    pub runs: usize,
    /// Number of factors (columns).
    pub factors: usize,
    /// Number of levels per factor.
    pub levels: Vec<u32>,
    /// Strength (orthogonality degree).
    pub strength: u32,
    /// The array data as a 2D vector (row-major).
    pub data: Vec<Vec<u32>>,
    /// Metadata about the array.
    pub metadata: OAMetadata,
}

/// Metadata for an orthogonal array.
#[derive(Debug, Clone, PartialEq)]
pub struct OAMetadata {
    /// Optional user-provided name.
    pub name: Option<String>,
    /// The construction algorithm used.
    pub algorithm: String,
    /// Creation timestamp (ISO 8601).
    pub created_at: String,
    /// Optional user notes.
    pub notes: Option<String>,
}

/// Request to build an orthogonal array.
#[derive(Debug, Clone, PartialEq)]
pub struct BuildRequest {
    /// Number of levels - either a single value (symmetric) or array (mixed).
    pub levels: LevelSpec,
    /// Number of factors.
    pub factors: usize,
    /// Desired strength.
    pub strength: u32,
    /// Optional minimum runs constraint.
    pub min_runs: Option<usize>,
}

/// Level specification - symmetric or mixed.
#[derive(Debug, Clone, PartialEq)]
pub enum LevelSpec {
    /// Same number of levels for all factors.
    Symmetric(u32),
    /// Different levels per factor.
    Mixed(Vec<u32>),
}

/// An available construction option.
#[derive(Debug, Clone, PartialEq)]
pub struct ConstructionOption {
    /// Name of the construction algorithm.
    pub name: String,
    /// Number of runs this construction produces.
    pub runs: usize,
    /// Maximum number of factors supported.
    pub max_factors: usize,
    /// Human-readable description.
    pub description: String,
    /// Any constraints or requirements.
    pub constraints: Vec<String>,
}

/// Validation result for build parameters.
#[derive(Debug, Clone, PartialEq)]
pub struct ValidationResult {
    /// Whether the parameters are valid.
    pub valid: bool,
    /// Error messages if invalid.
    pub errors: Vec<String>,
    /// Warning messages.
    pub warnings: Vec<String>,
    /// Suggested constructions.
    pub suggestions: Vec<ConstructionOption>,
}

/// Verification result from checking array strength.
#[derive(Debug, Clone, PartialEq)]
pub struct VerificationData {
    /// Whether the array is valid.
    pub is_valid: bool,
    /// The strength that was claimed.
    pub claimed_strength: u32,
    /// The actual verified strength.
    pub actual_strength: u32,
    /// Any issues found.
    pub issues: Vec<VerificationIssue>,
}

/// A verification issue.
#[derive(Debug, Clone, PartialEq)]
pub struct VerificationIssue {
    /// Type of issue.
    pub issue_type: String,
    /// Human-readable description.
    pub description: String,
    /// Location in the array, if applicable.
    pub location: Option<IssueLocation>,
}

/// Location of an issue in the array.
#[derive(Debug, Clone, PartialEq)]
pub struct IssueLocation {
    /// Row index, if applicable.
    pub row: Option<usize>,
    /// Column index, if applicable.
    pub col: Option<usize>,
    /// Columns involved, if multiple.
    pub columns: Option<Vec<usize>>,
}

/// Balance report for an orthogonal array.
///
/// `level_counts[c][v]` is the occurrence count of level value `v` in
/// factor `c`; level encodings are dense, so the vector is indexed by the
/// level value itself.
#[derive(Debug, Clone, PartialEq)]
pub struct BalanceData {
    /// Whether each factor is balanced.
    pub factor_balance: Vec<bool>,
    /// Level counts for each factor, indexed by level value.
    pub level_counts: Vec<Vec<usize>>,
    /// Expected count per level, from factor 0's level count.
    pub expected_count: usize,
}

/// Information about a standard (catalogue) array.
#[derive(Debug, Clone, PartialEq)]
pub struct StandardArrayInfo {
    /// Name (e.g., "L9", "L18").
    pub name: String,
    /// Number of runs.
    pub runs: usize,
    /// Number of factors.
    pub factors: usize,
    /// Number of levels (symmetric).
    pub levels: u32,
    /// Strength.
    pub strength: u32,
    /// Human-readable description.
    pub description: String,
}

/// Validation result for imported array data.
#[derive(Debug, Clone, PartialEq)]
pub struct ImportValidation {
    /// Number of runs detected.
    pub runs: usize,
    /// Number of factors detected.
    pub factors: usize,
    /// Levels per factor.
    pub levels: Vec<u32>,
    /// Whether this is a mixed-level array.
    pub is_mixed: bool,
    /// Estimated strength.
    pub estimated_strength: u32,
    /// Any warnings about the data.
    pub warnings: Vec<String>,
}

/// Optimization goal for the response variable.
#[derive(Debug, Clone, Copy, PartialEq, Eq, Structural)]
pub enum OptimizationType {
    /// Higher response values are better.
    LargerIsBetter,
    /// Lower response values are better.
    SmallerIsBetter,
    /// Response should be close to a target value.
    NominalIsBest,
}

/// A rectangular level matrix with its inferred per-factor level counts.
#[derive(Debug, Clone, PartialEq)]
pub struct ValidatedArray {
    /// The array data as a 2D vector (row-major).
    pub data: Vec<Vec<u32>>,
    /// Inferred number of levels per factor.
    pub levels: Vec<u32>,
}

impl ValidatedArray {
    /// The matrix is non-empty, rectangular, and each factor's level count is
    /// one more than the largest value observed in that column.
    pub open spec fn wf(self) -> bool {
        let m = self.data.deep_view();
        &&& m.len() > 0
        &&& m[0].len() > 0
        &&& is_rectangular(m)
        &&& self.levels@.len() == m[0].len()
        &&& forall|c: int|
            0 <= c < self.levels@.len() ==> #[trigger] self.levels@[c] == inferred_level(m, c)
    }

    /// Number of runs (rows).
    pub fn runs(&self) -> (r: usize)
        ensures
            r == self.data.deep_view().len(),
    {
        self.data.len()
    }

    /// Number of factors (columns).
    pub fn factors(&self) -> (r: usize)
        requires
            self.wf(),
        ensures
            r == self.data.deep_view()[0].len(),
    {
        let r = self.levels.len();
        proof {
            assert(self.data.deep_view()[0].len() == self.data@[0]@.len());
        }
        r
    }
}

/// A freshly built array handed back by the external construction service,
/// reduced to plain values.
#[derive(Debug, Clone, PartialEq)]
pub struct BuiltArray {
    /// The array data as a 2D vector (row-major).
    pub data: Vec<Vec<u32>>,
    /// Number of levels per factor.
    pub levels: Vec<u32>,
    /// Number of runs (rows).
    pub runs: usize,
    /// Number of factors (columns).
    pub factors: usize,
    /// Strength of the built array.
    pub strength: u32,
}

} // verus!
