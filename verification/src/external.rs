//! Trusted boundary to the outside collaborators: the `taguchi` construction,
//! verification and catalogue primitives (arrays are carried across the
//! boundary as plain nested vectors, assembled into `taguchi::oa::OA` values
//! inside each wrapper via `ndarray::Array2`), plus identifier and timestamp
//! sources.
//!
//! Every contract below is believed, not proved; each states only what the
//! collaborator's own source or documentation shows. The engine calls are
//! deterministic functions of their arguments, so each call's verdict is
//! given a name (`verify_outcome_of`, `computed_strength_of`,
//! `built_outcome_of`, `standard_outcome_of`) that the wrappers' `ensures`
//! apply; callers' own contracts speak of those names exactly.

use vstd::prelude::*;
use vstd::arithmetic::power::pow;
use crate::model::{spec_contains, spec_is_prime, spec_is_prime_power, unflatten};
use crate::types::{BuiltArray, LevelSpec};

verus! {

/// What `taguchi::available_constructions` returns for a level count and
/// strength: a fixed list of `(name, runs, max_factors)` candidates. The
/// catalogue is a pure function of its two arguments.
pub uninterp spec fn catalogue_entries(levels: u32, strength: u32) -> Seq<(Seq<char>, usize, usize)>;

/// What `taguchi::verify_strength` decides for a matrix, its declared
/// per-factor level counts, and a claimed strength: the validity flag, the
/// verified strength, and, for each reported issue in order, whether it is
/// a value-out-of-range issue (`true`) or an imbalanced-subarray issue
/// (`false`). All three are deterministic functions of the arguments; only
/// the issues' rendered texts are not (they print a hash map).
pub uninterp spec fn verify_outcome_of(m: Seq<Seq<u32>>, levels: Seq<u32>, claimed: u32) -> (
    bool,
    u32,
    Seq<bool>,
);

/// What `taguchi::compute_strength` finds for a matrix, its declared
/// per-factor level counts, and a search ceiling.
pub uninterp spec fn computed_strength_of(m: Seq<Seq<u32>>, levels: Seq<u32>, max_check: u32) -> u32;

/// A level specification reduced to plain values: the level list and
/// whether it was given as an explicit per-factor list.
pub open spec fn level_encoding(levels: LevelSpec) -> (Seq<u32>, bool) {
    match levels {
        LevelSpec::Symmetric(s) => (seq![s], false),
        LevelSpec::Mixed(l) => (l@, true),
    }
}

/// What `taguchi::OABuilder::build` produces for a level list (`mixed`
/// distinguishes an explicit per-factor list from a single symmetric value),
/// factor count, strength and minimum run count: `None` when the builder
/// refuses, otherwise the built matrix, its per-factor level counts, and its
/// strength.
pub uninterp spec fn built_outcome_of(
    levels: Seq<u32>,
    mixed: bool,
    factors: usize,
    strength: u32,
    min_runs: Option<usize>,
) -> Option<(Seq<Seq<u32>>, Seq<u32>, u32)>;

/// What `taguchi::get_standard_oa` returns for a name: `None` when the name
/// is unknown, otherwise the predefined matrix, its per-factor level counts,
/// and its strength. The lookup is case-insensitive in the name.
pub uninterp spec fn standard_outcome_of(name: Seq<char>) -> Option<(Seq<Seq<u32>>, Seq<u32>, u32)>;

/// The field orders whose arithmetic tables `taguchi::gf` can build: every
/// prime, and the tabulated extension orders (powers of 2 up to 256, of 3 up
/// to 81, of 5 up to 125, plus 49, 121 and 169). `Bose::new` panics on any
/// other prime power, so the builder wrappers keep those out.
pub open spec fn spec_gf_ready(q: u32) -> bool {
    ||| spec_is_prime(q)
    ||| q == 4
    ||| q == 8
    ||| q == 16
    ||| q == 32
    ||| q == 64
    ||| q == 128
    ||| q == 256
    ||| q == 9
    ||| q == 27
    ||| q == 81
    ||| q == 25
    ||| q == 125
    ||| q == 49
    ||| q == 121
    ||| q == 169
}

/// A symmetric level value the automatic builder can try without panicking:
/// if it is a prime power, its field tables exist and `q^strength` fits the
/// catalogue's 32-bit arithmetic.
pub open spec fn spec_builder_level_ok(q: u32, strength: u32) -> bool {
    spec_is_prime_power(q) ==> (spec_gf_ready(q) && pow(q as int, strength as nat) <= u32::MAX)
}

/// The whole build request stays inside the builder's panic-free domain:
/// level values at most 4096 (the collaborator's 32-bit table arithmetic),
/// no zero level in a mixed list (the mixed-level search divides by each
/// value), every symmetric base the builder may try is
/// `spec_builder_level_ok`, and the minimum run count is bounded so the
/// run-count search cannot overflow. The mixed search itself only tries
/// bases up to 256.
pub open spec fn spec_build_request_ok(
    levels: LevelSpec,
    strength: u32,
    min_runs: Option<usize>,
) -> bool {
    &&& (match levels {
        LevelSpec::Symmetric(s) => s <= 4096 && spec_builder_level_ok(s, strength),
        LevelSpec::Mixed(l) => {
            &&& forall|i: int| 0 <= i < l@.len() ==> 1 <= #[trigger] l@[i] <= 4096
            &&& ((l@.len() > 0 && forall|i: int| 0 <= i < l@.len() ==> #[trigger] l@[i] == l@[0])
                ==> spec_builder_level_ok(l@[0], strength))
            &&& forall|q: u32|
                2 <= q <= 256 && (forall|i: int| 0 <= i < l@.len() ==> q % #[trigger] l@[i] == 0)
                    ==> #[trigger] spec_builder_level_ok(q, strength)
        },
    })
    &&& (min_runs matches Some(mr) ==> mr <= 0x1_0000_0000)
}

/// Relies on `taguchi::available_constructions`: deterministic catalogue of
/// construction candidates for the given level count and strength. The
/// `requires` keeps out inputs whose catalogue arithmetic (`q*q`, `q^m` for
/// `m <= 5`, `q^strength` in 32 bits) overflows and panics in debug builds.
#[verifier::external_body]
pub(crate) fn call_available_constructions(levels: u32, strength: u32) -> (r: Vec<
    (String, usize, usize),
>)
    requires
        spec_is_prime_power(levels) ==> levels <= 4096 && pow(levels as int, strength as nat)
            <= u32::MAX,
    ensures
        r@.len() == catalogue_entries(levels, strength).len(),
        forall|i: int|
            0 <= i < r@.len() ==> {
                &&& (#[trigger] r@[i]).0@ == catalogue_entries(levels, strength)[i].0
                &&& r@[i].1 == catalogue_entries(levels, strength)[i].1
                &&& r@[i].2 == catalogue_entries(levels, strength)[i].2
            },
{
    taguchi::available_constructions(levels, strength)
        .into_iter()
        .map(|(name, runs, max_factors)| (name.to_string(), runs, max_factors))
        .collect()
}

/// Relies on `taguchi::is_prime`: deterministic Miller-Rabin, exact for all
/// `u32` inputs by its documentation.
#[verifier::external_body]
pub(crate) fn call_is_prime(n: u32) -> (r: bool)
    ensures
        r == spec_is_prime(n),
{
    taguchi::is_prime(n)
}

/// Relies on `taguchi::is_prime_power`: true exactly when `n = p^k` for a
/// prime `p` and `k >= 1`.
#[verifier::external_body]
pub(crate) fn call_is_prime_power(n: u32) -> (r: bool)
    ensures
        r == spec_is_prime_power(n),
{
    taguchi::is_prime_power(n)
}

/// Relies on `taguchi::verify_strength` (via `OAParams::new_mixed` and
/// `OA::new`): returns the validity flag, the verified strength, and each
/// issue rendered to its debug text. Parameter assembly fails exactly when
/// there are fewer than two factors or some level count is below two; the
/// verifier itself never fails. Its verdict is the named deterministic
/// outcome: validity holds exactly when no issue was found and the verified
/// strength reaches the claimed one, and an issue's text holds the
/// out-of-range marker exactly when the issue is of that kind.
#[verifier::external_body]
pub(crate) fn call_verify_strength(
    flat: Vec<u32>,
    runs: usize,
    levels: Vec<u32>,
    claimed: u32,
) -> (r: Result<(bool, u32, Vec<String>), String>)
    requires
        flat@.len() == runs * levels@.len(),
    ensures
        r is Ok <==> (levels@.len() >= 2 && forall|i: int|
            0 <= i < levels@.len() ==> #[trigger] levels@[i] >= 2),
        r matches Ok(v) ==> {
            let out = verify_outcome_of(unflatten(flat@, levels@.len()), levels@, claimed);
            &&& v.0 == out.0
            &&& v.1 == out.1
            &&& v.2@.len() == out.2.len()
            &&& forall|i: int|
                0 <= i < v.2@.len() ==> (spec_contains(
                    (#[trigger] v.2@[i])@,
                    "ValueOutOfRange"@,
                ) <==> out.2[i])
            &&& (v.0 <==> (v.2.len() == 0 && v.1 >= claimed))
            &&& v.1 <= claimed
        },
{
    let arr = ndarray::Array2::from_shape_vec((runs, levels.len()), flat).map_err(|e| e.to_string())?;
    let params = taguchi::oa::OAParams::new_mixed(runs, levels, 2).map_err(|e| e.to_string())?;
    let oa = taguchi::oa::OA::new(arr, params);
    let res = taguchi::verify_strength(&oa, claimed).map_err(|e| e.to_string())?;
    Ok((res.is_valid, res.actual_strength, res.issues.iter().map(|i| format!("{:?}", i)).collect()))
}

/// Relies on `taguchi::compute_strength` (via `OAParams::new_mixed` and
/// `OA::new`): the named highest strength found, bounded by the search
/// ceiling and the factor count. Parameter assembly fails exactly as for
/// verification; the search itself never fails.
#[verifier::external_body]
pub(crate) fn call_compute_strength(
    flat: Vec<u32>,
    runs: usize,
    levels: Vec<u32>,
    max_check: u32,
) -> (r: Result<u32, String>)
    requires
        flat@.len() == runs * levels@.len(),
    ensures
        r is Ok <==> (levels@.len() >= 2 && forall|i: int|
            0 <= i < levels@.len() ==> #[trigger] levels@[i] >= 2),
        r matches Ok(v) ==> {
            &&& v == computed_strength_of(unflatten(flat@, levels@.len()), levels@, max_check)
            &&& v <= max_check
            &&& v <= levels@.len()
        },
{
    let arr = ndarray::Array2::from_shape_vec((runs, levels.len()), flat).map_err(|e| e.to_string())?;
    let params = taguchi::oa::OAParams::new_mixed(runs, levels, 2).map_err(|e| e.to_string())?;
    let oa = taguchi::oa::OA::new(arr, params);
    taguchi::compute_strength(&oa, max_check).map_err(|e| e.to_string())
}

/// Relies on `taguchi::OABuilder`: automatic construction of an orthogonal
/// array for the requested levels, factors, strength and minimum run count,
/// a deterministic function of those arguments, here named. On success the
/// returned matrix is rectangular with `runs` rows, `factors` columns, and
/// one level count per factor; the builder rejects a zero factor count. The
/// `requires` keeps out inputs on which the builder panics: symmetric bases
/// whose Galois field is not tabulated (`Bose::new` aborts there), a zero
/// level in a mixed list (divided by during the mixed search), and
/// arithmetic beyond 32 bits.
#[verifier::external_body]
pub(crate) fn call_build_oa(
    levels: &LevelSpec,
    factors: usize,
    strength: u32,
    min_runs: Option<usize>,
) -> (r: Result<BuiltArray, String>)
    requires
        spec_build_request_ok(*levels, strength, min_runs),
    ensures
        r is Ok <==> built_outcome_of(
            level_encoding(*levels).0,
            level_encoding(*levels).1,
            factors,
            strength,
            min_runs,
        ) is Some,
        r matches Ok(b) ==> {
            let out = built_outcome_of(
                level_encoding(*levels).0,
                level_encoding(*levels).1,
                factors,
                strength,
                min_runs,
            );
            &&& out matches Some(o)
            &&& b.data.deep_view() == o.0
            &&& b.levels@ == o.1
            &&& b.strength == o.2
            &&& b.data@.len() == b.runs
            &&& b.data.deep_view().len() == b.runs
            &&& forall|i: int| 0 <= i < b.runs ==> #[trigger] b.data.deep_view()[i].len()
                == b.factors
            &&& b.levels@.len() == b.factors
            &&& b.factors >= 1
        },
{
    let with_levels = match levels {
        LevelSpec::Symmetric(s) => taguchi::OABuilder::new().levels(*s),
        LevelSpec::Mixed(v) => taguchi::OABuilder::new().mixed_levels(v.clone()),
    };
    let sized = with_levels.factors(factors).strength(strength);
    let builder = if let Some(mr) = min_runs { sized.min_runs(mr) } else { sized };
    let oa = builder.build().map_err(|e| e.to_string())?;
    Ok(BuiltArray {
        data: (0..oa.runs()).map(|r| oa.row(r).iter().copied().collect()).collect(),
        levels: oa.levels_vec().to_vec(),
        runs: oa.runs(),
        factors: oa.factors(),
        strength: oa.strength(),
    })
}

/// The official standard-array names, in their exact upper-case spelling,
/// with the run, factor and symmetric level counts their constructions are
/// documented to produce. `taguchi::get_standard_oa` succeeds on each.
pub open spec fn taguchi_standard_dims(name: Seq<char>) -> Option<(usize, usize, u32)> {
    if name == "L4"@ {
        Some((4usize, 3usize, 2u32))
    } else if name == "L8"@ {
        Some((8usize, 7usize, 2u32))
    } else if name == "L9"@ {
        Some((9usize, 4usize, 3u32))
    } else if name == "L12"@ {
        Some((12usize, 11usize, 2u32))
    } else if name == "L16"@ {
        Some((16usize, 15usize, 2u32))
    } else if name == "L18"@ {
        Some((18usize, 7usize, 3u32))
    } else if name == "L25"@ {
        Some((25usize, 6usize, 5u32))
    } else if name == "L27"@ {
        Some((27usize, 13usize, 3u32))
    } else if name == "L32"@ {
        Some((32usize, 31usize, 2u32))
    } else if name == "L49"@ {
        Some((49usize, 8usize, 7u32))
    } else if name == "L50"@ {
        Some((50usize, 11usize, 5u32))
    } else if name == "L64"@ {
        Some((64usize, 63usize, 2u32))
    } else if name == "L81"@ {
        Some((81usize, 40usize, 3u32))
    } else if name == "L128"@ {
        Some((128usize, 127usize, 2u32))
    } else {
        None
    }
}

/// Relies on `taguchi::get_standard_oa`: looks a predefined array up by
/// name, case-insensitively, a deterministic function of the name, here
/// named. Unknown names fail with the catalogue's own error; each official
/// name succeeds with its documented run, factor and level counts. On
/// success the returned matrix is rectangular with `runs` rows, `factors`
/// columns, and one level count per factor.
#[verifier::external_body]
pub(crate) fn call_get_standard_oa(name: &str) -> (r: Result<BuiltArray, String>)
    ensures
        r is Ok <==> standard_outcome_of(name@) is Some,
        r matches Ok(b) ==> {
            &&& standard_outcome_of(name@) matches Some(o)
            &&& b.data.deep_view() == o.0
            &&& b.levels@ == o.1
            &&& b.strength == o.2
            &&& b.data@.len() == b.runs
            &&& b.data.deep_view().len() == b.runs
            &&& forall|i: int| 0 <= i < b.runs ==> #[trigger] b.data.deep_view()[i].len()
                == b.factors
            &&& b.levels@.len() == b.factors
            &&& b.factors >= 1
        },
        taguchi_standard_dims(name@) matches Some(d) ==> (r matches Ok(b) && b.runs == d.0
            && b.factors == d.1 && forall|i: int|
            0 <= i < b.levels@.len() ==> #[trigger] b.levels@[i] == d.2),
{
    let oa = taguchi::get_standard_oa(name).map_err(|e| e.to_string())?;
    Ok(BuiltArray {
        data: (0..oa.runs()).map(|r| oa.row(r).iter().copied().collect()).collect(),
        levels: oa.levels_vec().to_vec(),
        runs: oa.runs(),
        factors: oa.factors(),
        strength: oa.strength(),
    })
}

/// Relies on `uuid::Uuid::new_v4` and its `Display` impl: a fresh random
/// identifier in the 36-character hyphenated form.
#[verifier::external_body]
pub(crate) fn fresh_uuid() -> (r: String)
    ensures
        r@.len() == 36,
{
    uuid::Uuid::new_v4().to_string()
}

/// Relies on `chrono::Utc::now` and `to_rfc3339`: the current time as an
/// ISO 8601 string. Nothing is promised of a clock reading.
#[verifier::external_body]
pub(crate) fn now_rfc3339() -> String {
    chrono::Utc::now().to_rfc3339()
}

/// Relies on `str`'s `PartialEq`: equality of the two character sequences.
#[verifier::external_body]
pub(crate) fn str_eq(a: &str, b: &str) -> (r: bool)
    ensures
        r == (a@ == b@),
{
    a == b
}

} // verus!
