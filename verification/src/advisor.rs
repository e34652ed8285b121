//! Construction advisor: validates build parameters against the external
//! construction catalogue, enumerates candidate constructions with their
//! descriptions and constraints, classifies built arrays by structural
//! fingerprint, and drives the external builder.

use vstd::prelude::*;
use vstd::arithmetic::power::pow;
use crate::external::{
    built_outcome_of, call_available_constructions, call_build_oa, call_is_prime,
    call_is_prime_power, catalogue_entries, fresh_uuid, level_encoding, now_rfc3339,
    spec_build_request_ok, str_eq,
};
use crate::model::{spec_is_pow2, spec_is_prime, spec_is_prime_power};
use crate::numfmt::{dec_rep, dec_u32, dec_u64, dec_usize};
use crate::types::{
    BuildRequest, ConstructionOption, LevelSpec, OAData, OAMetadata, ValidationResult,
};

verus! {

/// The construction-method label for an array with the given fingerprint,
/// evaluated in fixed priority order, first match wins.
///
/// The prime test reads `runs - 1` as a 32-bit value; callers keep `runs`
/// within that range.
pub open spec fn spec_classify(runs: nat, factors: nat, levels: u32) -> Seq<char> {
    if levels == 2 && spec_is_pow2(runs) {
        "Hadamard-Sylvester"@
    } else if levels == 2 && runs > 1 && spec_is_prime((runs - 1) as u32) {
        "Hadamard-Paley"@
    } else if runs == (levels as nat) * (levels as nat) && factors <= levels as nat + 1 {
        "Bose"@
    } else if runs == 2 * (levels as nat) * (levels as nat) && factors <= 2 * (levels as nat)
        + 1 {
        if levels == 2 {
            "Bose-Bush"@
        } else {
            "Addelman-Kempthorne"@
        }
    } else {
        "Unknown"@
    }
}

/// Whether `n` is an exact power of two.
pub fn is_power_of_two(n: usize) -> (r: bool)
    ensures
        r == spec_is_pow2(n as nat),
    decreases n,
{
    if n == 0 {
        false
    } else if n == 1 {
        true
    } else if n % 2 == 1 {
        false
    } else {
        is_power_of_two(n / 2)
    }
}

/// Classify an already-built array into a likely construction method from
/// its `(runs, factors, levels)` fingerprint. Advisory only: the label never
/// affects validity of the array.
pub fn detect_algorithm(runs: usize, factors: usize, levels: u32) -> (r: String)
    requires
        runs <= u32::MAX as usize,
    ensures
        r@ == spec_classify(runs as nat, factors as nat, levels),
{
    if levels == 2 {
        if is_power_of_two(runs) {
            return String::from_str("Hadamard-Sylvester");
        }
        if runs > 1 && call_is_prime((runs - 1) as u32) {
            return String::from_str("Hadamard-Paley");
        }
    }
    proof {
        assert((levels as int) * (levels as int) <= 0xffff_ffff * 0xffff_ffff)
            by (nonlinear_arith)
            requires
                0 <= levels as int <= 0xffff_ffff,
        ;
    }
    let q2: u128 = (levels as u128) * (levels as u128);
    if (runs as u128) == q2 && (factors as u128) <= (levels as u128) + 1 {
        return String::from_str("Bose");
    }
    if (runs as u128) == 2 * q2 && (factors as u128) <= 2 * (levels as u128) + 1 {
        proof {
            assert(2 * (levels as nat) * (levels as nat) == 2 * ((levels as nat) * (
            levels as nat))) by (nonlinear_arith);
        }
        if levels == 2 {
            return String::from_str("Bose-Bush");
        }
        return String::from_str("Addelman-Kempthorne");
    }
    proof {
        assert(2 * (levels as nat) * (levels as nat) == 2 * ((levels as nat) * (
        levels as nat))) by (nonlinear_arith);
    }
    String::from_str("Unknown")
}

/// A freshly built Bose array (`runs = levels^2`, `factors <= levels + 1`,
/// three or more levels) is classified back to the method that built it.
pub proof fn lemma_classify_round_trip_bose(runs: nat, factors: nat, levels: u32)
    requires
        levels >= 3,
        runs == (levels as nat) * (levels as nat),
        factors <= levels as nat + 1,
    ensures
        spec_classify(runs, factors, levels) == "Bose"@,
{
}

/// A freshly built Hadamard-Sylvester array (two levels, a power-of-two run
/// count) is classified back to the method that built it.
pub proof fn lemma_classify_round_trip_sylvester(runs: nat, factors: nat)
    requires
        spec_is_pow2(runs),
    ensures
        spec_classify(runs, factors, 2) == "Hadamard-Sylvester"@,
{
}

/// The fixed description for a construction-method name; unknown names get
/// a generic description.
pub open spec fn description_text(name: Seq<char>) -> Seq<char> {
    if name == "Bose"@ {
        "Primary construction for strength 2 arrays"@
    } else if name == "Bush"@ {
        "Higher strength arrays (t >= 2)"@
    } else if name == "Bose-Bush"@ {
        "Extended Bose for binary (2 level) arrays"@
    } else if name == "Hadamard-Sylvester"@ {
        "Binary arrays from Hadamard matrices"@
    } else if name == "Hadamard-Paley"@ {
        "Binary arrays using Paley construction"@
    } else if name == "Addelman-Kempthorne"@ {
        "Extended construction for odd prime powers"@
    } else if name == "Rao-Hamming"@ {
        "Arrays from linear codes"@
    } else {
        "Construction method"@
    }
}

/// Fixed textual description of a construction method.
pub fn get_construction_description(name: &str) -> (r: String)
    ensures
        r@ == description_text(name@),
{
    if str_eq(name, "Bose") {
        String::from_str("Primary construction for strength 2 arrays")
    } else if str_eq(name, "Bush") {
        String::from_str("Higher strength arrays (t >= 2)")
    } else if str_eq(name, "Bose-Bush") {
        String::from_str("Extended Bose for binary (2 level) arrays")
    } else if str_eq(name, "Hadamard-Sylvester") {
        String::from_str("Binary arrays from Hadamard matrices")
    } else if str_eq(name, "Hadamard-Paley") {
        String::from_str("Binary arrays using Paley construction")
    } else if str_eq(name, "Addelman-Kempthorne") {
        String::from_str("Extended construction for odd prime powers")
    } else if str_eq(name, "Rao-Hamming") {
        String::from_str("Arrays from linear codes")
    } else {
        String::from_str("Construction method")
    }
}

/// The fixed constraint strings for a construction-method name at a level
/// count; unknown names get none.
pub open spec fn constraints_text(name: Seq<char>, levels: u32) -> Seq<Seq<char>> {
    if name == "Bose"@ {
        seq![
            "Requires "@ + dec_rep(levels as nat) + " to be a prime power"@,
            "Max "@ + dec_rep(levels as nat + 1) + " factors"@,
        ]
    } else if name == "Bush"@ {
        seq!["Requires "@ + dec_rep(levels as nat) + " to be a prime power"@]
    } else if name == "Bose-Bush"@ {
        seq!["Only for 2 levels"@]
    } else if name == "Hadamard-Sylvester"@ {
        seq!["Only for 2 levels"@, "Runs must be power of 2"@]
    } else if name == "Hadamard-Paley"@ {
        seq!["Only for 2 levels"@, "Requires (runs-1) to be prime = 3 (mod 4)"@]
    } else if name == "Addelman-Kempthorne"@ {
        seq!["Requires odd prime power levels"@]
    } else {
        Seq::empty()
    }
}

/// Fixed constraint strings of a construction method at a level count.
pub fn get_construction_constraints(name: &str, levels: u32) -> (r: Vec<String>)
    ensures
        r.deep_view() == constraints_text(name@, levels),
{
    let mut out: Vec<String> = Vec::new();
    if str_eq(name, "Bose") {
        let mut s1 = String::from_str("Requires ");
        s1.append(dec_u32(levels).as_str());
        s1.append(" to be a prime power");
        let mut s2 = String::from_str("Max ");
        s2.append(dec_u64(levels as u64 + 1).as_str());
        s2.append(" factors");
        out.push(s1);
        out.push(s2);
    } else if str_eq(name, "Bush") {
        let mut s1 = String::from_str("Requires ");
        s1.append(dec_u32(levels).as_str());
        s1.append(" to be a prime power");
        out.push(s1);
    } else if str_eq(name, "Bose-Bush") {
        out.push(String::from_str("Only for 2 levels"));
    } else if str_eq(name, "Hadamard-Sylvester") {
        out.push(String::from_str("Only for 2 levels"));
        out.push(String::from_str("Runs must be power of 2"));
    } else if str_eq(name, "Hadamard-Paley") {
        out.push(String::from_str("Only for 2 levels"));
        out.push(String::from_str("Requires (runs-1) to be prime = 3 (mod 4)"));
    } else if str_eq(name, "Addelman-Kempthorne") {
        out.push(String::from_str("Requires odd prime power levels"));
    }
    proof {
        assert(out.deep_view() =~= constraints_text(name@, levels));
    }
    out
}

/// A suggestion carries the catalogue entry's name, runs and factor bound,
/// dressed with its description and constraints.
pub open spec fn option_matches(
    o: ConstructionOption,
    e: (Seq<char>, usize, usize),
    levels: u32,
) -> bool {
    &&& o.name@ == e.0
    &&& o.runs == e.1
    &&& o.max_factors == e.2
    &&& o.description@ == description_text(e.0)
    &&& o.constraints.deep_view() == constraints_text(e.0, levels)
}

/// Dress one catalogue entry as a `ConstructionOption`.
fn dress_entry(entry: &(String, usize, usize), levels: u32) -> (o: ConstructionOption)
    ensures
        option_matches(o, (entry.0@, entry.1, entry.2), levels),
{
    ConstructionOption {
        name: entry.0.clone(),
        runs: entry.1,
        max_factors: entry.2,
        description: get_construction_description(entry.0.as_str()),
        constraints: get_construction_constraints(entry.0.as_str(), levels),
    }
}

/// All catalogue candidates for the given level count and strength, each
/// dressed with its description and constraints. Never fails; the bound on
/// prime-power level values keeps the external catalogue's 32-bit
/// arithmetic, on which it aborts, in range.
pub fn get_available_constructions(levels: u32, strength: u32) -> (r: Vec<ConstructionOption>)
    requires
        spec_is_prime_power(levels) ==> levels <= 4096 && pow(levels as int, strength as nat)
            <= u32::MAX,
    ensures
        r@.len() == catalogue_entries(levels, strength).len(),
        forall|i: int|
            0 <= i < r@.len() ==> option_matches(
                #[trigger] r@[i],
                catalogue_entries(levels, strength)[i],
                levels,
            ),
{
    let cats = call_available_constructions(levels, strength);
    let mut out: Vec<ConstructionOption> = Vec::new();
    let mut i: usize = 0;
    while i < cats.len()
        invariant
            i <= cats@.len(),
            cats@.len() == catalogue_entries(levels, strength).len(),
            forall|k: int|
                0 <= k < cats@.len() ==> {
                    &&& (#[trigger] cats@[k]).0@ == catalogue_entries(levels, strength)[k].0
                    &&& cats@[k].1 == catalogue_entries(levels, strength)[k].1
                    &&& cats@[k].2 == catalogue_entries(levels, strength)[k].2
                },
            out@.len() == i,
            forall|k: int|
                0 <= k < i ==> option_matches(
                    #[trigger] out@[k],
                    catalogue_entries(levels, strength)[k],
                    levels,
                ),
        decreases cats@.len() - i,
    {
        let o = dress_entry(&cats[i], levels);
        out.push(o);
        i += 1;
    }
    out
}

/// The catalogue entries whose factor bound admits the requested factor
/// count, in catalogue order.
pub open spec fn filtered_entries(cat: Seq<(Seq<char>, usize, usize)>, factors: nat) -> Seq<
    (Seq<char>, usize, usize),
>
    decreases cat.len(),
{
    if cat.len() == 0 {
        cat
    } else {
        filtered_entries(cat.drop_last(), factors) + if cat.last().2 >= factors {
            seq![cat.last()]
        } else {
            Seq::empty()
        }
    }
}

/// The level value used for catalogue lookups: the symmetric value itself,
/// or the largest of a mixed list.
pub open spec fn vec_max(s: Seq<u32>) -> u32
    decreases s.len(),
{
    if s.len() == 0 {
        0u32
    } else {
        let rest = vec_max(s.drop_last());
        if s.last() > rest {
            s.last()
        } else {
            rest
        }
    }
}

/// Largest entry of a non-empty vector.
pub(crate) fn max_of(v: &Vec<u32>) -> (mx: u32)
    requires
        v@.len() > 0,
    ensures
        mx == vec_max(v@),
{
    let mut mx = v[0];
    proof {
        assert(v@.take(1).drop_last() =~= v@.take(0));
        assert(v@.take(1).last() == v@[0]);
        assert(vec_max(v@.take(0)) == 0);
        assert(mx == vec_max(v@.take(1)));
    }
    let mut i: usize = 1;
    while i < v.len()
        invariant
            1 <= i <= v@.len(),
            mx == vec_max(v@.take(i as int)),
        decreases v@.len() - i,
    {
        proof {
            crate::model::lemma_take_succ(v@, i as int);
            assert(v@.take(i as int + 1).drop_last() == v@.take(i as int));
        }
        if v[i] > mx {
            mx = v[i];
        }
        i += 1;
    }
    proof {
        assert(v@.take(v@.len() as int) =~= v@);
    }
    mx
}

/// "Strength S cannot exceed factors F".
pub open spec fn strength_exceeds_text(strength: u32, factors: nat) -> Seq<char> {
    "Strength "@ + dec_rep(strength as nat) + " cannot exceed factors "@ + dec_rep(factors)
}

/// "Levels L is not a prime power - limited constructions available".
pub open spec fn not_prime_power_text(levels: u32) -> Seq<char> {
    "Levels "@ + dec_rep(levels as nat) + " is not a prime power - limited constructions available"@
}

/// "No construction available for L levels, F factors, strength S".
pub open spec fn no_construction_text(levels: u32, factors: nat, strength: u32) -> Seq<char> {
    "No construction available for "@ + dec_rep(levels as nat) + " levels, "@ + dec_rep(factors)
        + " factors, strength "@ + dec_rep(strength as nat)
}

/// The hard errors accumulated for a level value, factor count and strength.
pub open spec fn base_errors(levels: u32, factors: nat, strength: u32) -> Seq<Seq<char>> {
    (if levels < 2 {
        seq!["Levels must be at least 2"@]
    } else {
        Seq::<Seq<char>>::empty()
    }) + (if factors < 1 {
        seq!["Factors must be at least 1"@]
    } else {
        Seq::<Seq<char>>::empty()
    }) + (if strength as nat > factors {
        seq![strength_exceeds_text(strength, factors)]
    } else {
        Seq::<Seq<char>>::empty()
    })
}

/// Validate build parameters before construction.
///
/// Checks are accumulated, not short-circuited, except an empty mixed-level
/// list, which returns at once; a non-prime-power level value is only a
/// warning; when no hard error remains but the catalogue offers no
/// construction admitting the requested factor count, that is one more
/// error naming the exact combination.
pub fn validate_build_params(request: BuildRequest) -> (r: ValidationResult)
    requires
        ({
            let levels = match request.levels {
                LevelSpec::Symmetric(s) => s,
                LevelSpec::Mixed(l) => vec_max(l@),
            };
            spec_is_prime_power(levels) ==> levels <= 4096 && pow(
                levels as int,
                request.strength as nat,
            ) <= u32::MAX
        }),
    ensures
        (request.levels matches LevelSpec::Mixed(l) && l@.len() == 0) ==> {
            &&& r.valid == false
            &&& r.errors.deep_view() =~= seq!["At least one level must be specified"@]
            &&& r.warnings@.len() == 0
            &&& r.suggestions@.len() == 0
        },
        !(request.levels matches LevelSpec::Mixed(l) && l@.len() == 0) ==> {
            let levels = match request.levels {
                LevelSpec::Symmetric(s) => s,
                LevelSpec::Mixed(l) => vec_max(l@),
            };
            let factors = request.factors as nat;
            let strength = request.strength;
            let base = base_errors(levels, factors, strength);
            let filt = filtered_entries(catalogue_entries(levels, strength), factors);
            &&& r.warnings.deep_view() =~= (if spec_is_prime_power(levels) {
                Seq::<Seq<char>>::empty()
            } else {
                seq![not_prime_power_text(levels)]
            })
            &&& (base.len() == 0 ==> {
                &&& r.suggestions@.len() == filt.len()
                &&& forall|i: int|
                    0 <= i < r.suggestions@.len() ==> option_matches(
                        #[trigger] r.suggestions@[i],
                        filt[i],
                        levels,
                    )
            })
            &&& (base.len() != 0 ==> r.suggestions@.len() == 0)
            &&& r.errors.deep_view() =~= (if base.len() == 0 && filt.len() == 0 {
                base + seq![no_construction_text(levels, factors, strength)]
            } else {
                base
            })
            &&& r.valid == (r.errors@.len() == 0)
        },
{
    let mut errors: Vec<String> = Vec::new();
    let mut warnings: Vec<String> = Vec::new();
    let levels: u32 = match &request.levels {
        LevelSpec::Symmetric(s) => *s,
        LevelSpec::Mixed(lvls) => {
            if lvls.len() == 0 {
                errors.push(String::from_str("At least one level must be specified"));
                proof {
                    assert(errors.deep_view() =~= seq!["At least one level must be specified"@]);
                }
                return ValidationResult {
                    valid: false,
                    errors,
                    warnings,
                    suggestions: Vec::new(),
                };
            }
            max_of(lvls)
        },
    };
    let factors = request.factors;
    let strength = request.strength;
    if levels < 2 {
        errors.push(String::from_str("Levels must be at least 2"));
    }
    if factors < 1 {
        errors.push(String::from_str("Factors must be at least 1"));
    }
    if strength as usize > factors {
        let mut msg = String::from_str("Strength ");
        msg.append(dec_u32(strength).as_str());
        msg.append(" cannot exceed factors ");
        msg.append(dec_usize(factors).as_str());
        proof {
            assert(msg@ =~= strength_exceeds_text(strength, factors as nat));
        }
        errors.push(msg);
    }
    proof {
        assert(errors.deep_view() =~= base_errors(levels, factors as nat, strength));
    }
    if !call_is_prime_power(levels) {
        let mut warn = String::from_str("Levels ");
        warn.append(dec_u32(levels).as_str());
        warn.append(" is not a prime power - limited constructions available");
        proof {
            assert(warn@ =~= not_prime_power_text(levels));
        }
        warnings.push(warn);
    }
    proof {
        assert(warnings.deep_view() =~= (if spec_is_prime_power(levels) {
            Seq::<Seq<char>>::empty()
        } else {
            seq![not_prime_power_text(levels)]
        }));
    }
    let ghost cat = catalogue_entries(levels, strength);
    let mut suggestions: Vec<ConstructionOption> = Vec::new();
    if errors.len() == 0 {
        let cats = call_available_constructions(levels, strength);
        let mut i: usize = 0;
        while i < cats.len()
            invariant
                i <= cats@.len(),
                cat == catalogue_entries(levels, strength),
                cats@.len() == cat.len(),
                forall|k: int|
                    0 <= k < cats@.len() ==> {
                        &&& (#[trigger] cats@[k]).0@ == cat[k].0
                        &&& cats@[k].1 == cat[k].1
                        &&& cats@[k].2 == cat[k].2
                    },
                suggestions@.len() == filtered_entries(cat.take(i as int), factors as nat).len(),
                forall|k: int|
                    0 <= k < suggestions@.len() ==> option_matches(
                        #[trigger] suggestions@[k],
                        filtered_entries(cat.take(i as int), factors as nat)[k],
                        levels,
                    ),
            decreases cats@.len() - i,
        {
            proof {
                crate::model::lemma_take_succ(cat, i as int);
                assert(cat.take(i as int + 1).drop_last() == cat.take(i as int));
            }
            if cats[i].2 >= factors {
                let o = dress_entry(&cats[i], levels);
                suggestions.push(o);
            }
            i += 1;
        }
        proof {
            assert(cat.take(cat.len() as int) =~= cat);
        }
    }
    let filt_empty = suggestions.len() == 0;
    if filt_empty && errors.len() == 0 {
        let mut msg = String::from_str("No construction available for ");
        msg.append(dec_u32(levels).as_str());
        msg.append(" levels, ");
        msg.append(dec_usize(factors).as_str());
        msg.append(" factors, strength ");
        msg.append(dec_u32(strength).as_str());
        proof {
            assert(msg@ =~= no_construction_text(levels, factors as nat, strength));
        }
        errors.push(msg);
    }
    let valid = errors.len() == 0;
    ValidationResult { valid, errors, warnings, suggestions }
}

/// Build an orthogonal array through the external construction service and
/// annotate it: a fresh identifier, the classified construction label, and a
/// creation timestamp. Succeeds exactly when the builder does; the returned
/// array is the builder's named outcome. The `requires` keeps the request
/// inside the builder's panic-free domain (tabulated field orders, 32-bit
/// catalogue arithmetic, bounded minimum run count).
pub fn build_oa(request: &BuildRequest) -> (r: Result<OAData, String>)
    requires
        spec_build_request_ok(request.levels, request.strength, request.min_runs),
    ensures
        r is Ok <==> built_outcome_of(
            level_encoding(request.levels).0,
            level_encoding(request.levels).1,
            request.factors,
            request.strength,
            request.min_runs,
        ) is Some,
        r matches Ok(o) ==> {
            let out = built_outcome_of(
                level_encoding(request.levels).0,
                level_encoding(request.levels).1,
                request.factors,
                request.strength,
                request.min_runs,
            );
            &&& out matches Some(b)
            &&& o.data.deep_view() == b.0
            &&& o.levels@ == b.1
            &&& o.strength == b.2
            &&& o.runs == b.0.len()
            &&& o.id@.len() == 36
            &&& o.data.deep_view().len() == o.runs
            &&& forall|i: int|
                0 <= i < o.runs ==> #[trigger] o.data.deep_view()[i].len() == o.factors
            &&& o.levels@.len() == o.factors
            &&& o.factors >= 1
            &&& o.metadata.name is None
            &&& o.metadata.notes is None
            &&& o.runs <= u32::MAX ==> o.metadata.algorithm@ == spec_classify(
                o.runs as nat,
                o.factors as nat,
                o.levels@[0],
            )
            &&& o.runs > u32::MAX ==> o.metadata.algorithm@ == "Unknown"@
        },
{
    let built = match call_build_oa(&request.levels, request.factors, request.strength,
        request.min_runs) {
        Ok(b) => b,
        Err(e) => {
            return Err(e);
        },
    };
    let algorithm = if built.runs <= u32::MAX as usize {
        detect_algorithm(built.runs, built.factors, built.levels[0])
    } else {
        String::from_str("Unknown")
    };
    Ok(
        OAData {
            id: fresh_uuid(),
            runs: built.runs,
            factors: built.factors,
            levels: built.levels,
            strength: built.strength,
            data: built.data,
            metadata: OAMetadata {
                name: None,
                algorithm,
                created_at: now_rfc3339(),
                notes: None,
            },
        },
    )
}

} // verus!
