//! Input validation and level derivation for the factor-effect/ANOVA bridge.
//!
//! The external engine's numeric work stays outside; this module checks the
//! matched (array, response) pair and derives per-factor level counts from
//! the distinct values of each column.

use vstd::prelude::*;
use crate::import::{least_bad_row, lemma_least_bad_row};
use crate::model::{is_rectangular, lemma_mat_index, lemma_take_succ};
use crate::numfmt::{dec_rep, dec_usize};

verus! {

/// Why a factor-effect analysis request was rejected.
#[derive(Debug, Clone, Copy, PartialEq, Eq, Structural)]
pub enum DoeError {
    /// The array matrix has zero rows.
    EmptyArray,
    /// The response matrix has zero rows.
    EmptyResponse,
    /// Array and response row counts differ.
    RowCountMismatch,
    /// The number of factor identifiers differs from the column count.
    FactorIdCount,
    /// The number of factor names differs from the column count.
    FactorNameCount,
    /// Some row's length differs from the first row's: the row's index
    /// (zero-based), its length, and the expected length.
    RaggedRow(usize, usize, usize),
}

/// "Row I has N columns, expected F" (rows reported zero-based, as the
/// conversion step words it).
pub open spec fn doe_row_text(row: nat, len: nat, expected: nat) -> Seq<char> {
    "Row "@ + dec_rep(row) + " has "@ + dec_rep(len) + " columns, expected "@ + dec_rep(expected)
}

impl DoeError {
    /// The diagnostic text for this rejection.
    pub fn message(&self) -> (r: String)
        ensures
            self is EmptyArray ==> r@ == "Array data is empty"@,
            self is EmptyResponse ==> r@ == "Response data is empty"@,
            self is RowCountMismatch ==> r@
                == "Array data and response data must have same number of runs"@,
            self is FactorIdCount ==> r@ == "Number of factor IDs must match number of columns"@,
            self is FactorNameCount ==> r@
                == "Number of factor names must match number of columns"@,
            self matches DoeError::RaggedRow(i, l, f) ==> r@ == doe_row_text(
                i as nat,
                l as nat,
                f as nat,
            ),
    {
        match self {
            DoeError::EmptyArray => String::from_str("Array data is empty"),
            DoeError::EmptyResponse => String::from_str("Response data is empty"),
            DoeError::RowCountMismatch => String::from_str(
                "Array data and response data must have same number of runs",
            ),
            DoeError::FactorIdCount => String::from_str(
                "Number of factor IDs must match number of columns",
            ),
            DoeError::FactorNameCount => String::from_str(
                "Number of factor names must match number of columns",
            ),
            DoeError::RaggedRow(i, l, f) => {
                let mut msg = String::from_str("Row ");
                msg.append(dec_usize(*i).as_str());
                msg.append(" has ");
                msg.append(dec_usize(*l).as_str());
                msg.append(" columns, expected ");
                msg.append(dec_usize(*f).as_str());
                proof {
                    assert(msg@ =~= doe_row_text(*i as nat, *l as nat, *f as nat));
                }
                msg
            },
        }
    }
}

/// How many distinct values column `c` holds.
pub open spec fn distinct_count(m: Seq<Seq<u32>>, c: int) -> nat
    decreases m.len(),
{
    if m.len() == 0 {
        0
    } else {
        distinct_count(m.drop_last(), c) + if exists|r: int|
            0 <= r < m.len() - 1 && #[trigger] m[r][c] == m[m.len() - 1][c] {
            0nat
        } else {
            1nat
        }
    }
}

/// Count the distinct values of column `c`.
fn count_distinct(data: &Vec<Vec<u32>>, c: usize) -> (cnt: usize)
    requires
        is_rectangular(data.deep_view()),
        data.deep_view().len() > 0,
        c < data.deep_view()[0].len(),
    ensures
        cnt == distinct_count(data.deep_view(), c as int),
{
    let ghost m = data.deep_view();
    let runs = data.len();
    let mut cnt: usize = 0;
    let mut r: usize = 0;
    while r < runs
        invariant
            r <= runs,
            runs == m.len(),
            m == data.deep_view(),
            is_rectangular(m),
            c < m[0].len(),
            cnt == distinct_count(m.take(r as int), c as int),
            cnt <= r,
        decreases runs - r,
    {
        proof {
            lemma_mat_index(*data, r as int);
        }
        let val = data[r][c];
        let mut seen = false;
        let mut k: usize = 0;
        while k < r
            invariant
                k <= r,
                r < runs,
                runs == m.len(),
                m == data.deep_view(),
                is_rectangular(m),
                c < m[0].len(),
                val == m[r as int][c as int],
                seen <==> exists|p: int| 0 <= p < k && m[p][c as int] == val,
            decreases r - k,
        {
            proof {
                lemma_mat_index(*data, k as int);
            }
            if data[k][c] == val {
                seen = true;
            }
            k += 1;
        }
        proof {
            lemma_take_succ(m, r as int);
            assert(m.take(r as int + 1).drop_last() == m.take(r as int));
            assert(m.take(r as int + 1)[m.take(r as int + 1).len() - 1][c as int] == val);
            if seen {
                let p = choose|p: int| 0 <= p < r && m[p][c as int] == val;
                assert(m.take(r as int + 1)[p][c as int] == val);
            } else {
                assert forall|p: int|
                    0 <= p < m.take(r as int + 1).len() - 1 implies #[trigger] m.take(
                    r as int + 1,
                )[p][c as int] != val by {
                    assert(m.take(r as int + 1)[p] == m[p]);
                }
            }
        }
        if !seen {
            cnt += 1;
        }
        r += 1;
    }
    proof {
        assert(m.take(runs as int) =~= m);
    }
    cnt
}

/// Validate a factor-effect analysis request and derive per-factor level
/// counts.
///
/// The checks run in order, each a distinct fatal error: non-empty array,
/// non-empty response, matching row counts, identifier and name counts
/// equal to the column count, and a rectangular matrix (naming the first
/// offending row, zero-based). On success the returned vector holds, for
/// each column, the number of distinct values it takes.
pub fn prepare_doe_analysis(
    array_data: &Vec<Vec<u32>>,
    response_runs: usize,
    factor_ids: usize,
    factor_names: usize,
) -> (r: Result<Vec<u32>, DoeError>)
    requires
        array_data.deep_view().len() <= u32::MAX,
    ensures
        ({
            let m = array_data.deep_view();
            let cols = if m.len() == 0 {
                0int
            } else {
                m[0].len() as int
            };
            &&& ((r matches Err(e) && e is EmptyArray) <==> m.len() == 0)
            &&& ((r matches Err(e) && e is EmptyResponse) <==> m.len() > 0 && response_runs == 0)
            &&& ((r matches Err(e) && e is RowCountMismatch) <==> m.len() > 0 && response_runs
                > 0 && m.len() != response_runs)
            &&& ((r matches Err(e) && e is FactorIdCount) <==> m.len() > 0 && m.len()
                == response_runs && factor_ids != cols)
            &&& ((r matches Err(e) && e is FactorNameCount) <==> m.len() > 0 && m.len()
                == response_runs && factor_ids == cols && factor_names != cols)
            &&& ((r matches Err(e) && e is RaggedRow) <==> m.len() > 0 && m.len()
                == response_runs && factor_ids == cols && factor_names == cols
                && !is_rectangular(m))
            &&& (r matches Err(e) ==> (e matches DoeError::RaggedRow(i, l, f) ==> i
                == least_bad_row(m, 0) && l == m[least_bad_row(m, 0) as int].len() && f
                == m[0].len()))
            &&& (r is Ok <==> m.len() > 0 && m.len() == response_runs && factor_ids == cols
                && factor_names == cols && is_rectangular(m))
            &&& (r matches Ok(levels) ==> {
                &&& is_rectangular(m)
                &&& levels@.len() == cols
                &&& forall|c: int|
                    0 <= c < cols ==> #[trigger] levels@[c] == distinct_count(m, c)
            })
        }),
{
    let ghost m = array_data.deep_view();
    if array_data.len() == 0 {
        return Err(DoeError::EmptyArray);
    }
    if response_runs == 0 {
        return Err(DoeError::EmptyResponse);
    }
    if array_data.len() != response_runs {
        return Err(DoeError::RowCountMismatch);
    }
    proof {
        lemma_mat_index(*array_data, 0);
    }
    let num_factors = array_data[0].len();
    if factor_ids != num_factors {
        return Err(DoeError::FactorIdCount);
    }
    if factor_names != num_factors {
        return Err(DoeError::FactorNameCount);
    }
    let runs = array_data.len();
    let mut i: usize = 0;
    while i < runs
        invariant
            i <= runs,
            runs == m.len(),
            m == array_data.deep_view(),
            m.len() > 0,
            response_runs == m.len(),
            factor_ids == num_factors,
            factor_names == num_factors,
            num_factors == m[0].len(),
            forall|k: int| 0 <= k < i ==> #[trigger] m[k].len() == m[0].len(),
        decreases runs - i,
    {
        proof {
            lemma_mat_index(*array_data, i as int);
        }
        if array_data[i].len() != num_factors {
            proof {
                lemma_least_bad_row(m, i as nat);
                assert(least_bad_row(m, i as nat) == i as nat);
            }
            return Err(DoeError::RaggedRow(i, array_data[i].len(), num_factors));
        }
        i += 1;
    }
    assert(is_rectangular(m));
    let mut levels: Vec<u32> = Vec::new();
    let mut c: usize = 0;
    while c < num_factors
        invariant
            c <= num_factors,
            m == array_data.deep_view(),
            m.len() > 0,
            m.len() <= u32::MAX,
            response_runs == m.len(),
            factor_ids == num_factors,
            factor_names == num_factors,
            is_rectangular(m),
            num_factors == m[0].len(),
            levels@.len() == c,
            forall|k: int| 0 <= k < c ==> #[trigger] levels@[k] == distinct_count(m, k),
        decreases num_factors - c,
    {
        let cnt = count_distinct(array_data, c);
        proof {
            lemma_distinct_le_rows(m, c as int);
        }
        levels.push(cnt as u32);
        c += 1;
    }
    Ok(levels)
}

/// A column holds at most as many distinct values as the matrix has rows.
proof fn lemma_distinct_le_rows(m: Seq<Seq<u32>>, c: int)
    ensures
        distinct_count(m, c) <= m.len(),
    decreases m.len(),
{
    if m.len() > 0 {
        lemma_distinct_le_rows(m.drop_last(), c);
    }
}

} // verus!
