//! Array ingestion: turns raw rectangular integer matrices into validated,
//! level-annotated arrays, rejecting malformed input.

use vstd::prelude::*;
use crate::model::{
    col_max, inferred_level, is_rectangular, lemma_col_max_observed, lemma_mat_index,
    lemma_take_succ,
};
use crate::types::ValidatedArray;

verus! {

/// Why a raw matrix was rejected by ingestion.
#[derive(Debug, Clone, Copy, PartialEq, Eq, Structural)]
pub enum ArrayError {
    /// The matrix has zero rows.
    EmptyInput,
    /// The first row has zero columns.
    EmptyFactors,
    /// Some row's length differs from the first row's length.
    RaggedRows,
}

impl ArrayError {
    /// The diagnostic text for this rejection.
    pub fn message(&self) -> (r: String)
        ensures
            self is EmptyInput ==> r@ == "Array data cannot be empty"@,
            self is EmptyFactors ==> r@ == "Array must have at least one factor"@,
            self is RaggedRows ==> r@ == "All rows must have the same number of columns"@,
    {
        match self {
            ArrayError::EmptyInput => String::from_str("Array data cannot be empty"),
            ArrayError::EmptyFactors => String::from_str("Array must have at least one factor"),
            ArrayError::RaggedRows => String::from_str(
                "All rows must have the same number of columns",
            ),
        }
    }
}

/// Largest value of column `c` of a non-empty rectangular matrix.
pub fn column_max(matrix: &Vec<Vec<u32>>, c: usize) -> (mx: u32)
    requires
        matrix.deep_view().len() > 0,
        is_rectangular(matrix.deep_view()),
        c < matrix.deep_view()[0].len(),
    ensures
        mx == col_max(matrix.deep_view(), c as int),
{
    let ghost m = matrix.deep_view();
    let runs = matrix.len();
    proof {
        lemma_mat_index(*matrix, 0);
    }
    let mut mx: u32 = matrix[0][c];
    proof {
        assert(m.take(1).drop_last() =~= m.take(0));
        assert(m.take(1).last() == m[0]);
        assert(col_max(m.take(0), c as int) == -1);
        assert(mx == col_max(m.take(1), c as int));
    }
    let mut r: usize = 1;
    while r < runs
        invariant
            1 <= r <= runs,
            runs == m.len(),
            m == matrix.deep_view(),
            is_rectangular(m),
            c < m[0].len(),
            mx == col_max(m.take(r as int), c as int),
        decreases runs - r,
    {
        proof {
            lemma_mat_index(*matrix, r as int);
        }
        let v = matrix[r][c];
        proof {
            lemma_take_succ(m, r as int);
            assert(m.take(r as int + 1).drop_last() == m.take(r as int));
        }
        if v > mx {
            mx = v;
        }
        r += 1;
    }
    proof {
        assert(m.take(runs as int) =~= m);
    }
    mx
}

/// Turn a raw matrix into a validated, level-annotated array.
///
/// Rejects an empty matrix, an empty first row, and ragged rows, each with
/// its own error; on success the per-factor level count is inferred as one
/// more than the largest observed value in that column.
pub fn to_validated_array(matrix: Vec<Vec<u32>>) -> (r: Result<ValidatedArray, ArrayError>)
    requires
        forall|i: int, j: int|
            0 <= i < matrix.deep_view().len() && 0 <= j < matrix.deep_view()[i].len()
                ==> #[trigger] matrix.deep_view()[i][j] < u32::MAX,
    ensures
        match r {
            Err(e) => {
                &&& (e is EmptyInput <==> matrix.deep_view().len() == 0)
                &&& (e is EmptyFactors <==> matrix.deep_view().len() > 0
                    && matrix.deep_view()[0].len() == 0)
                &&& (e is RaggedRows <==> matrix.deep_view().len() > 0
                    && matrix.deep_view()[0].len() > 0 && !is_rectangular(matrix.deep_view()))
            },
            Ok(a) => {
                &&& a.wf()
                &&& a.data.deep_view() == matrix.deep_view()
                &&& matrix.deep_view().len() > 0
                &&& matrix.deep_view()[0].len() > 0
                &&& is_rectangular(matrix.deep_view())
            },
        },
{
    let ghost m = matrix.deep_view();
    if matrix.len() == 0 {
        return Err(ArrayError::EmptyInput);
    }
    let runs = matrix.len();
    proof {
        lemma_mat_index(matrix, 0);
    }
    let factors = matrix[0].len();
    if factors == 0 {
        return Err(ArrayError::EmptyFactors);
    }
    let mut i: usize = 1;
    while i < runs
        invariant
            1 <= i <= runs,
            runs == m.len(),
            m == matrix.deep_view(),
            factors == m[0].len(),
            factors > 0,
            forall|k: int| 0 <= k < i ==> #[trigger] m[k].len() == factors,
        decreases runs - i,
    {
        proof {
            lemma_mat_index(matrix, i as int);
        }
        if matrix[i].len() != factors {
            proof {
                assert(m[i as int].len() != m[0].len());
            }
            return Err(ArrayError::RaggedRows);
        }
        i += 1;
    }
    assert(is_rectangular(m));
    let mut levels: Vec<u32> = Vec::new();
    let mut c: usize = 0;
    while c < factors
        invariant
            c <= factors,
            runs == m.len(),
            m == matrix.deep_view(),
            m.len() > 0,
            factors == m[0].len(),
            is_rectangular(m),
            forall|i: int, j: int|
                0 <= i < m.len() && 0 <= j < m[i].len() ==> #[trigger] m[i][j] < u32::MAX,
            levels@.len() == c,
            forall|k: int| 0 <= k < c ==> #[trigger] levels@[k] == inferred_level(m, k),
        decreases factors - c,
    {
        let mx = column_max(&matrix, c);
        proof {
            lemma_col_max_observed(m, c as int);
            let r = choose|r: int| 0 <= r < m.len() && m[r][c as int] == col_max(m, c as int);
            assert(m[r][c as int] < u32::MAX);
        }
        levels.push(mx + 1);
        c += 1;
    }
    Ok(ValidatedArray { data: matrix, levels })
}

} // verus!
