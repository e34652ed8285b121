//! The standard Taguchi array catalogue: a fixed table of well-known arrays,
//! listing, filtered search, and retrieval of a predefined array through the
//! external catalogue service.

use vstd::prelude::*;
use crate::external::{
    call_get_standard_oa, fresh_uuid, now_rfc3339, standard_outcome_of, str_eq,
    taguchi_standard_dims,
};
use crate::types::{OAData, OAMetadata, StandardArrayInfo};

verus! {

/// One catalogue row: name, runs, factors, levels, strength, description.
pub open spec fn standard_catalogue() -> Seq<(Seq<char>, usize, usize, u32, u32, Seq<char>)> {
    seq![
        ("L4"@, 4usize, 3usize, 2u32, 2u32, "Smallest 2-level array"@),
        ("L8"@, 8usize, 7usize, 2u32, 2u32, "Common 2-level array"@),
        ("L9"@, 9usize, 4usize, 3u32, 2u32, "Smallest 3-level array"@),
        ("L12"@, 12usize, 11usize, 2u32, 2u32, "Plackett-Burman 12-run"@),
        ("L16"@, 16usize, 15usize, 2u32, 2u32, "16-run 2-level array"@),
        ("L18"@, 18usize, 7usize, 3u32, 2u32, "Mixed 2/3-level array (modified)"@),
        ("L25"@, 25usize, 6usize, 5u32, 2u32, "5-level Bose array"@),
        ("L27"@, 27usize, 13usize, 3u32, 2u32, "Full 3-level array"@),
        ("L32"@, 32usize, 31usize, 2u32, 2u32, "32-run Hadamard array"@),
        ("L36"@, 36usize, 11usize, 6u32, 2u32, "6-level array"@),
        ("L49"@, 49usize, 8usize, 7u32, 2u32, "7-level Bose array"@),
        ("L50"@, 50usize, 11usize, 5u32, 2u32, "Extended 5-level array"@),
        ("L64"@, 64usize, 63usize, 2u32, 2u32, "64-run Hadamard array"@),
        ("L81"@, 81usize, 40usize, 3u32, 2u32, "Large 3-level array"@),
    ]
}

/// A listed entry carries exactly the catalogue row's fields.
pub open spec fn info_matches(
    s: StandardArrayInfo,
    e: (Seq<char>, usize, usize, u32, u32, Seq<char>),
) -> bool {
    &&& s.name@ == e.0
    &&& s.runs == e.1
    &&& s.factors == e.2
    &&& s.levels == e.3
    &&& s.strength == e.4
    &&& s.description@ == e.5
}

/// Build one catalogue row.
fn info(
    name: &str,
    runs: usize,
    factors: usize,
    levels: u32,
    strength: u32,
    desc: &str,
) -> (s: StandardArrayInfo)
    ensures
        info_matches(s, (name@, runs, factors, levels, strength, desc@)),
{
    StandardArrayInfo {
        name: String::from_str(name),
        runs,
        factors,
        levels,
        strength,
        description: String::from_str(desc),
    }
}

/// List all standard arrays, in catalogue order.
pub fn list_standard_arrays() -> (r: Vec<StandardArrayInfo>)
    ensures
        r@.len() == standard_catalogue().len(),
        forall|i: int|
            0 <= i < r@.len() ==> info_matches(#[trigger] r@[i], standard_catalogue()[i]),
{
    let mut out: Vec<StandardArrayInfo> = Vec::new();
    out.push(info("L4", 4, 3, 2, 2, "Smallest 2-level array"));
    out.push(info("L8", 8, 7, 2, 2, "Common 2-level array"));
    out.push(info("L9", 9, 4, 3, 2, "Smallest 3-level array"));
    out.push(info("L12", 12, 11, 2, 2, "Plackett-Burman 12-run"));
    out.push(info("L16", 16, 15, 2, 2, "16-run 2-level array"));
    out.push(info("L18", 18, 7, 3, 2, "Mixed 2/3-level array (modified)"));
    out.push(info("L25", 25, 6, 5, 2, "5-level Bose array"));
    out.push(info("L27", 27, 13, 3, 2, "Full 3-level array"));
    out.push(info("L32", 32, 31, 2, 2, "32-run Hadamard array"));
    out.push(info("L36", 36, 11, 6, 2, "6-level array"));
    out.push(info("L49", 49, 8, 7, 2, "7-level Bose array"));
    out.push(info("L50", 50, 11, 5, 2, "Extended 5-level array"));
    out.push(info("L64", 64, 63, 2, 2, "64-run Hadamard array"));
    out.push(info("L81", 81, 40, 3, 2, "Large 3-level array"));
    out
}

/// Whether a catalogue row passes the search criteria: run-count bounds, an
/// exact level count, and a minimum factor count, each optional.
pub open spec fn keeps(
    e: (Seq<char>, usize, usize, u32, u32, Seq<char>),
    min_runs: Option<usize>,
    max_runs: Option<usize>,
    levels: Option<u32>,
    min_factors: Option<usize>,
) -> bool {
    &&& (min_runs matches Some(mn) ==> e.1 >= mn)
    &&& (max_runs matches Some(mx) ==> e.1 <= mx)
    &&& (levels matches Some(l) ==> e.3 == l)
    &&& (min_factors matches Some(mf) ==> e.2 >= mf)
}

/// The catalogue rows passing the search criteria, in catalogue order.
pub open spec fn filtered_standard(
    cat: Seq<(Seq<char>, usize, usize, u32, u32, Seq<char>)>,
    min_runs: Option<usize>,
    max_runs: Option<usize>,
    levels: Option<u32>,
    min_factors: Option<usize>,
) -> Seq<(Seq<char>, usize, usize, u32, u32, Seq<char>)>
    decreases cat.len(),
{
    if cat.len() == 0 {
        cat
    } else {
        filtered_standard(cat.drop_last(), min_runs, max_runs, levels, min_factors) + if keeps(
            cat.last(),
            min_runs,
            max_runs,
            levels,
            min_factors,
        ) {
            seq![cat.last()]
        } else {
            Seq::empty()
        }
    }
}

/// Search the standard catalogue with optional criteria.
pub fn search_catalogue(
    min_runs: Option<usize>,
    max_runs: Option<usize>,
    levels: Option<u32>,
    min_factors: Option<usize>,
) -> (r: Vec<StandardArrayInfo>)
    ensures
        ({
            let filt = filtered_standard(standard_catalogue(), min_runs, max_runs, levels,
            min_factors);
            &&& r@.len() == filt.len()
            &&& forall|i: int| 0 <= i < r@.len() ==> info_matches(#[trigger] r@[i], filt[i])
        }),
{
    let ghost cat = standard_catalogue();
    let table = list_standard_arrays();
    let mut out: Vec<StandardArrayInfo> = Vec::new();
    let mut i: usize = 0;
    while i < table.len()
        invariant
            i <= table@.len(),
            cat == standard_catalogue(),
            table@.len() == cat.len(),
            forall|k: int|
                0 <= k < table@.len() ==> info_matches(#[trigger] table@[k], cat[k]),
            out@.len() == filtered_standard(cat.take(i as int), min_runs, max_runs, levels,
            min_factors).len(),
            forall|k: int|
                0 <= k < out@.len() ==> info_matches(
                    #[trigger] out@[k],
                    filtered_standard(cat.take(i as int), min_runs, max_runs, levels,
                    min_factors)[k],
                ),
        decreases table@.len() - i,
    {
        proof {
            crate::model::lemma_take_succ(cat, i as int);
            assert(cat.take(i as int + 1).drop_last() == cat.take(i as int));
        }
        let e = &table[i];
        let mut keep = true;
        if let Some(mn) = min_runs {
            if e.runs < mn {
                keep = false;
            }
        }
        if let Some(mx) = max_runs {
            if e.runs > mx {
                keep = false;
            }
        }
        if let Some(l) = levels {
            if e.levels != l {
                keep = false;
            }
        }
        if let Some(mf) = min_factors {
            if e.factors < mf {
                keep = false;
            }
        }
        proof {
            assert(keep == keeps(cat[i as int], min_runs, max_runs, levels, min_factors));
        }
        if keep {
            let copy = StandardArrayInfo {
                name: e.name.clone(),
                runs: e.runs,
                factors: e.factors,
                levels: e.levels,
                strength: e.strength,
                description: e.description.clone(),
            };
            out.push(copy);
        }
        i += 1;
    }
    proof {
        assert(cat.take(cat.len() as int) =~= cat);
    }
    out
}

/// The description of the first catalogue row with the given name, or the
/// empty text when no row has it.
pub open spec fn lookup_desc(
    cat: Seq<(Seq<char>, usize, usize, u32, u32, Seq<char>)>,
    name: Seq<char>,
) -> Seq<char>
    decreases cat.len(),
{
    if cat.len() == 0 {
        ""@
    } else if cat[0].0 == name {
        cat[0].5
    } else {
        lookup_desc(cat.skip(1), name)
    }
}

/// Skipping past rows that do not match keeps the lookup result.
proof fn lemma_lookup_skip(
    cat: Seq<(Seq<char>, usize, usize, u32, u32, Seq<char>)>,
    name: Seq<char>,
    i: int,
)
    requires
        0 <= i <= cat.len(),
        forall|k: int| 0 <= k < i ==> (#[trigger] cat[k]).0 != name,
    ensures
        lookup_desc(cat, name) == lookup_desc(cat.skip(i), name),
    decreases i,
{
    if i == 0 {
        assert(cat.skip(0) =~= cat);
    } else {
        lemma_lookup_skip(cat, name, i - 1);
        assert(cat.skip(i - 1).len() > 0);
        assert(cat.skip(i - 1)[0] == cat[i - 1]);
        assert(cat[i - 1].0 != name);
        assert(lookup_desc(cat.skip(i - 1), name) == lookup_desc(cat.skip(i - 1).skip(1), name));
        assert(cat.skip(i - 1).skip(1) =~= cat.skip(i));
    }
}

/// Find the catalogue description for a standard array name.
fn description_for(name: &str) -> (r: String)
    ensures
        r@ == lookup_desc(standard_catalogue(), name@),
{
    let ghost cat = standard_catalogue();
    let table = list_standard_arrays();
    let mut i: usize = 0;
    while i < table.len()
        invariant
            i <= table@.len(),
            cat == standard_catalogue(),
            table@.len() == cat.len(),
            forall|k: int|
                0 <= k < table@.len() ==> info_matches(#[trigger] table@[k], cat[k]),
            forall|k: int| 0 <= k < i ==> (#[trigger] cat[k]).0 != name@,
        decreases table@.len() - i,
    {
        if str_eq(table[i].name.as_str(), name) {
            proof {
                lemma_lookup_skip(cat, name@, i as int);
                assert(cat.skip(i as int)[0] == cat[i as int]);
            }
            return table[i].description.clone();
        }
        i += 1;
    }
    proof {
        lemma_lookup_skip(cat, name@, cat.len() as int);
        assert(cat.skip(cat.len() as int).len() == 0);
        assert(lookup_desc(cat.skip(cat.len() as int), name@) == ""@);
        reveal_strlit("");
        assert(""@ =~= Seq::<char>::empty());
    }
    String::new()
}

/// Retrieve a standard array by name through the external catalogue service,
/// annotated with its catalogue description, a fresh identifier and a
/// creation timestamp. Succeeds exactly when the external catalogue knows
/// the name (case-insensitively); each official name yields its documented
/// run, factor and level counts, and the array is the catalogue's named
/// outcome.
pub fn get_standard_array(name: &str) -> (r: Result<OAData, String>)
    ensures
        r is Ok <==> standard_outcome_of(name@) is Some,
        taguchi_standard_dims(name@) matches Some(d) ==> (r matches Ok(o) && o.runs == d.0
            && o.factors == d.1 && forall|i: int|
            0 <= i < o.levels@.len() ==> #[trigger] o.levels@[i] == d.2),
        r matches Ok(o) ==> {
            &&& standard_outcome_of(name@) matches Some(b)
            &&& o.data.deep_view() == b.0
            &&& o.levels@ == b.1
            &&& o.strength == b.2
            &&& o.runs == b.0.len()
            &&& o.id@.len() == 36
            &&& o.data.deep_view().len() == o.runs
            &&& forall|i: int|
                0 <= i < o.runs ==> #[trigger] o.data.deep_view()[i].len() == o.factors
            &&& o.levels@.len() == o.factors
            &&& o.factors >= 1
            &&& o.metadata.algorithm@ == "Catalogue"@
            &&& o.metadata.notes is None
            &&& (o.metadata.name matches Some(s) && s@ == name@ + " - "@ + lookup_desc(
                standard_catalogue(),
                name@,
            ))
        },
{
    let built = match call_get_standard_oa(name) {
        Ok(b) => b,
        Err(e) => {
            return Err(e);
        },
    };
    let description = description_for(name);
    let mut title = String::from_str(name);
    title.append(" - ");
    title.append(description.as_str());
    proof {
        assert(title@ =~= name@ + " - "@ + lookup_desc(standard_catalogue(), name@));
    }
    Ok(
        OAData {
            id: fresh_uuid(),
            runs: built.runs,
            factors: built.factors,
            levels: built.levels,
            strength: built.strength,
            data: built.data,
            metadata: OAMetadata {
                name: Some(title),
                algorithm: String::from_str("Catalogue"),
                created_at: now_rfc3339(),
                notes: None,
            },
        },
    )
}

} // verus!
