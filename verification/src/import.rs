//! Import validation: sizes up a raw imported matrix (shape, inferred level
//! counts, mixed-level detection), estimates its strength from the run
//! count, and collects advisory warnings.

use vstd::prelude::*;
use crate::advisor::{max_of, vec_max};
use crate::ingest::column_max;
use crate::model::{
    count_val, factor_balanced, inferred_level, is_rectangular, lemma_col_max_observed,
    lemma_count_le_rows, lemma_count_nonzero_observed, lemma_mat_index, lemma_take_succ,
};
use crate::numfmt::{dec_rep, dec_usize};
use crate::types::ImportValidation;

verus! {

/// "Row I has N columns, expected F" (rows reported one-based).
pub open spec fn row_length_text(row: nat, len: nat, factors: nat) -> Seq<char> {
    "Row "@ + dec_rep(row + 1) + " has "@ + dec_rep(len) + " columns, expected "@ + dec_rep(
        factors,
    )
}

/// "Factor C may not be balanced" (factors reported one-based).
pub open spec fn factor_warn_text(c: nat) -> Seq<char> {
    "Factor "@ + dec_rep(c + 1) + " may not be balanced"@
}

/// The index of the first row whose length differs from row 0's, searching
/// from `i`; the row count when all rows agree.
pub open spec fn least_bad_row(m: Seq<Seq<u32>>, i: nat) -> nat
    decreases m.len() - i,
{
    if i >= m.len() {
        m.len() as nat
    } else if m[i as int].len() != m[0].len() {
        i
    } else {
        least_bad_row(m, i + 1)
    }
}

/// Searching from the start or from past a clean prefix finds the same row.
pub(crate) proof fn lemma_least_bad_row(m: Seq<Seq<u32>>, i: nat)
    requires
        i <= m.len(),
        forall|k: int| 0 <= k < i ==> #[trigger] m[k].len() == m[0].len(),
    ensures
        least_bad_row(m, 0) == least_bad_row(m, i),
    decreases i,
{
    if i > 0 {
        lemma_least_bad_row(m, (i - 1) as nat);
        assert(m[i - 1].len() == m[0].len());
    }
}

/// The simple strength estimate from the run count and the largest level:
/// three when `runs >= maxl^3`, two when `runs >= maxl^2`, else one.
pub open spec fn spec_estimate(runs: nat, maxl: nat) -> u32 {
    if runs >= maxl * maxl * maxl {
        3u32
    } else if runs >= maxl * maxl {
        2u32
    } else {
        1u32
    }
}

/// Estimate the strength of an imported matrix from its run count and its
/// largest level count (two when no level is given).
pub fn estimate_strength(data: &Vec<Vec<u32>>, levels: &Vec<u32>) -> (r: u32)
    ensures
        r == spec_estimate(
            data@.len() as nat,
            (if levels@.len() == 0 {
                2u32
            } else {
                vec_max(levels@)
            }) as nat,
        ),
{
    let maxl: u32 = if levels.len() == 0 {
        2
    } else {
        max_of(levels)
    };
    proof {
        assert((maxl as int) * (maxl as int) <= 0xffff_ffff * 0xffff_ffff) by (nonlinear_arith)
            requires
                0 <= maxl as int <= 0xffff_ffff,
        ;
        assert((maxl as int) * (maxl as int) * (maxl as int) <= 0xffff_ffff * 0xffff_ffff
            * 0xffff_ffff) by (nonlinear_arith)
            requires
                0 <= maxl as int <= 0xffff_ffff,
        ;
    }
    let m2: u128 = (maxl as u128) * (maxl as u128);
    let m3: u128 = m2 * (maxl as u128);
    let runs = data.len();
    if (runs as u128) >= m3 {
        3
    } else if (runs as u128) >= m2 {
        2
    } else {
        1
    }
}

/// Occurrences of `val` in column `c`.
fn count_of_value(data: &Vec<Vec<u32>>, c: usize, val: u32) -> (cnt: usize)
    requires
        is_rectangular(data.deep_view()),
        data.deep_view().len() > 0,
        c < data.deep_view()[0].len(),
    ensures
        cnt == count_val(data.deep_view(), c as int, val),
{
    let ghost m = data.deep_view();
    let runs = data.len();
    let mut cnt: usize = 0;
    let mut r: usize = 0;
    while r < runs
        invariant
            r <= runs,
            runs == m.len(),
            m == data.deep_view(),
            is_rectangular(m),
            c < m[0].len(),
            cnt == count_val(m.take(r as int), c as int, val),
            cnt <= r,
        decreases runs - r,
    {
        proof {
            lemma_mat_index(*data, r as int);
            lemma_take_succ(m, r as int);
            assert(m.take(r as int + 1).drop_last() == m.take(r as int));
            lemma_count_le_rows(m.take(r as int), c as int, val);
        }
        if data[r][c] == val {
            cnt += 1;
        }
        r += 1;
    }
    proof {
        assert(m.take(runs as int) =~= m);
    }
    cnt
}

/// Whether every observed value of column `c` occurs exactly
/// `runs / levels_c` times.
fn column_balanced(data: &Vec<Vec<u32>>, c: usize, levels_c: u32) -> (r: bool)
    requires
        is_rectangular(data.deep_view()),
        data.deep_view().len() > 0,
        c < data.deep_view()[0].len(),
        levels_c >= 1,
    ensures
        r == factor_balanced(
            data.deep_view(),
            c as int,
            ((data.deep_view().len() as int) / (levels_c as int)) as nat,
        ),
{
    let ghost m = data.deep_view();
    let runs = data.len();
    let expected = runs / (levels_c as usize);
    let ghost exp = ((m.len() as int) / (levels_c as int)) as nat;
    let mut r: usize = 0;
    let mut balanced = true;
    while r < runs
        invariant
            r <= runs,
            runs == m.len(),
            m == data.deep_view(),
            is_rectangular(m),
            c < m[0].len(),
            expected == exp,
            balanced <==> forall|k: int|
                0 <= k < r ==> count_val(m, c as int, #[trigger] m[k][c as int]) == exp,
        decreases runs - r,
    {
        proof {
            lemma_mat_index(*data, r as int);
        }
        let val = data[r][c];
        let cnt = count_of_value(data, c, val);
        if cnt != expected {
            balanced = false;
        }
        r += 1;
    }
    proof {
        if balanced {
            assert forall|v: u32| count_val(m, c as int, v) != 0 implies #[trigger] count_val(
                m,
                c as int,
                v,
            ) == exp by {
                lemma_count_nonzero_observed(m, c as int, v);
                let k = choose|k: int| 0 <= k < m.len() && m[k][c as int] == v;
                assert(count_val(m, c as int, m[k][c as int]) == exp);
            }
        } else {
            let k = choose|k: int|
                !(0 <= k < runs ==> count_val(m, c as int, #[trigger] m[k][c as int]) == exp);
            crate::model::lemma_observed_count_nonzero(m, c as int, k);
        }
    }
    balanced
}

/// The per-factor imbalance warnings for the first `c` columns.
pub open spec fn unbalanced_warnings(m: Seq<Seq<u32>>, levels: Seq<u32>, c: nat) -> Seq<Seq<char>>
    decreases c,
{
    if c == 0 {
        Seq::empty()
    } else {
        unbalanced_warnings(m, levels, (c - 1) as nat) + if !factor_balanced(
            m,
            c - 1,
            ((m.len() as int) / (levels[c - 1] as int)) as nat,
        ) {
            seq![factor_warn_text((c - 1) as nat)]
        } else {
            Seq::empty()
        }
    }
}

/// All warnings for an imported matrix: one per possibly-unbalanced factor,
/// one for very few runs, one for very many factors.
pub open spec fn spec_warnings(m: Seq<Seq<u32>>, levels: Seq<u32>) -> Seq<Seq<char>> {
    unbalanced_warnings(m, levels, levels.len() as nat) + (if m.len() < 4 {
        seq!["Array has very few runs"@]
    } else {
        Seq::<Seq<char>>::empty()
    }) + (if m[0].len() > 50 {
        seq!["Array has many factors - analysis may be slow"@]
    } else {
        Seq::<Seq<char>>::empty()
    })
}

/// Collect advisory warnings for an imported matrix: per-factor balance
/// checks against `runs / levels[c]`, and size notes.
pub fn generate_warnings(data: &Vec<Vec<u32>>, levels: &Vec<u32>) -> (r: Vec<String>)
    requires
        is_rectangular(data.deep_view()),
        data.deep_view().len() > 0,
        levels@.len() <= data.deep_view()[0].len(),
        forall|c: int| 0 <= c < levels@.len() ==> #[trigger] levels@[c] >= 1,
    ensures
        r.deep_view() == spec_warnings(data.deep_view(), levels@),
{
    let ghost m = data.deep_view();
    let mut warnings: Vec<String> = Vec::new();
    let mut c: usize = 0;
    while c < levels.len()
        invariant
            c <= levels@.len(),
            m == data.deep_view(),
            m.len() > 0,
            is_rectangular(m),
            levels@.len() <= m[0].len(),
            forall|k: int| 0 <= k < levels@.len() ==> #[trigger] levels@[k] >= 1,
            warnings.deep_view() =~= unbalanced_warnings(m, levels@, c as nat),
        decreases levels@.len() - c,
    {
        let balanced = column_balanced(data, c, levels[c]);
        if !balanced {
            let mut w = String::from_str("Factor ");
            w.append(dec_usize(c + 1).as_str());
            w.append(" may not be balanced");
            proof {
                assert(w@ =~= factor_warn_text(c as nat));
            }
            warnings.push(w);
        }
        proof {
            assert(warnings.deep_view() =~= unbalanced_warnings(m, levels@, (c + 1) as nat));
        }
        c += 1;
    }
    if data.len() < 4 {
        warnings.push(String::from_str("Array has very few runs"));
    }
    proof {
        lemma_mat_index(*data, 0);
    }
    if data[0].len() > 50 {
        warnings.push(String::from_str("Array has many factors - analysis may be slow"));
    }
    proof {
        assert(warnings.deep_view() =~= spec_warnings(m, levels@));
    }
    warnings
}

/// Validate imported array data: detect shape, infer per-factor level
/// counts, flag mixed-level arrays, estimate strength and collect warnings.
///
/// Rejects an empty matrix, and a ragged matrix naming the first offending
/// row (one-based) with its length and the expected length.
pub fn validate_import(data: Vec<Vec<u32>>) -> (r: Result<ImportValidation, String>)
    requires
        forall|i: int, j: int|
            0 <= i < data.deep_view().len() && 0 <= j < data.deep_view()[i].len()
                ==> #[trigger] data.deep_view()[i][j] < u32::MAX,
    ensures
        ({
            let m = data.deep_view();
            &&& (m.len() == 0 ==> (r matches Err(s) && s@ == "Array data is empty"@))
            &&& (m.len() > 0 && !is_rectangular(m) ==> (r matches Err(s) && s@ == row_length_text(
                least_bad_row(m, 0),
                m[least_bad_row(m, 0) as int].len() as nat,
                m[0].len() as nat,
            )))
            &&& (r is Ok <==> (m.len() > 0 && is_rectangular(m)))
            &&& (r matches Ok(v) ==> {
                &&& v.runs == m.len()
                &&& v.factors == m[0].len()
                &&& v.levels@.len() == m[0].len()
                &&& forall|c: int|
                    0 <= c < m[0].len() ==> #[trigger] v.levels@[c] == inferred_level(m, c)
                &&& (v.is_mixed <==> exists|c: int|
                    0 <= c < m[0].len() && #[trigger] inferred_level(m, c) != inferred_level(m, 0))
                &&& v.estimated_strength == spec_estimate(
                    m.len() as nat,
                    (if m[0].len() == 0 {
                        2u32
                    } else {
                        vec_max(v.levels@)
                    }) as nat,
                )
                &&& v.warnings.deep_view() == spec_warnings(m, v.levels@)
            })
        }),
{
    let ghost m = data.deep_view();
    if data.len() == 0 {
        return Err(String::from_str("Array data is empty"));
    }
    let runs = data.len();
    proof {
        lemma_mat_index(data, 0);
    }
    let factors = data[0].len();
    let mut i: usize = 0;
    while i < runs
        invariant
            i <= runs,
            runs == m.len(),
            m == data.deep_view(),
            factors == m[0].len(),
            forall|k: int| 0 <= k < i ==> #[trigger] m[k].len() == m[0].len(),
        decreases runs - i,
    {
        proof {
            lemma_mat_index(data, i as int);
        }
        if data[i].len() != factors {
            let mut msg = String::from_str("Row ");
            msg.append(dec_usize(i + 1).as_str());
            msg.append(" has ");
            msg.append(dec_usize(data[i].len()).as_str());
            msg.append(" columns, expected ");
            msg.append(dec_usize(factors).as_str());
            proof {
                lemma_least_bad_row(m, i as nat);
                assert(least_bad_row(m, i as nat) == i as nat);
                assert(msg@ =~= row_length_text(
                    i as nat,
                    m[i as int].len() as nat,
                    m[0].len() as nat,
                ));
            }
            return Err(msg);
        }
        i += 1;
    }
    assert(is_rectangular(m));
    let mut levels: Vec<u32> = Vec::new();
    let mut c: usize = 0;
    while c < factors
        invariant
            c <= factors,
            runs == m.len(),
            m == data.deep_view(),
            m.len() > 0,
            factors == m[0].len(),
            is_rectangular(m),
            forall|i: int, j: int|
                0 <= i < m.len() && 0 <= j < m[i].len() ==> #[trigger] m[i][j] < u32::MAX,
            levels@.len() == c,
            forall|k: int| 0 <= k < c ==> #[trigger] levels@[k] == inferred_level(m, k),
        decreases factors - c,
    {
        let mx = column_max(&data, c);
        proof {
            lemma_col_max_observed(m, c as int);
            let r = choose|r: int|
                0 <= r < m.len() && m[r][c as int] == crate::model::col_max(m, c as int);
            assert(m[r][c as int] < u32::MAX);
        }
        levels.push(mx + 1);
        c += 1;
    }
    let mut is_mixed = false;
    let mut c2: usize = 0;
    while c2 < factors
        invariant
            c2 <= factors,
            factors == m[0].len(),
            levels@.len() == factors,
            forall|k: int| 0 <= k < factors ==> #[trigger] levels@[k] == inferred_level(m, k),
            is_mixed <==> exists|k: int|
                0 <= k < c2 && #[trigger] inferred_level(m, k) != inferred_level(m, 0),
        decreases factors - c2,
    {
        if levels[c2] != levels[0] {
            is_mixed = true;
        }
        c2 += 1;
    }
    let estimated_strength = estimate_strength(&data, &levels);
    let warnings = generate_warnings(&data, &levels);
    Ok(
        ImportValidation {
            runs,
            factors,
            levels,
            is_mixed,
            estimated_strength,
            warnings,
        },
    )
}

} // verus!
