//! Mathematical model of a level matrix: rectangularity, inferred level
//! counts, occurrence counts and column moments, stated over `Seq<Seq<u32>>`.

use vstd::prelude::*;
use vstd::arithmetic::power::pow;

verus! {

/// `n` has no divisor strictly between 1 and itself, and is at least 2.
pub open spec fn spec_is_prime(n: u32) -> bool {
    n >= 2 && forall|d: u32| 2 <= d < n ==> #[trigger] (n as int % d as int) != 0
}

/// `n` is `p^k` for some prime `p` and exponent `k >= 1`.
pub open spec fn spec_is_prime_power(n: u32) -> bool {
    exists|p: u32, k: nat| spec_is_prime(p) && k >= 1 && #[trigger] pow(p as int, k) == n as int
}

/// `n` is an exact power of two (so `n >= 1`).
pub open spec fn spec_is_pow2(n: nat) -> bool
    decreases n,
{
    if n == 0 {
        false
    } else if n == 1 {
        true
    } else if n % 2 == 1 {
        false
    } else {
        spec_is_pow2(n / 2)
    }
}

/// Every row has the same length as the first row.
pub open spec fn is_rectangular(m: Seq<Seq<u32>>) -> bool {
    forall|r: int| 0 <= r < m.len() ==> #[trigger] m[r].len() == m[0].len()
}

/// Largest value observed in column `c`, or -1 for an empty matrix.
pub open spec fn col_max(m: Seq<Seq<u32>>, c: int) -> int
    decreases m.len(),
{
    if m.len() == 0 {
        -1
    } else {
        let rest = col_max(m.drop_last(), c);
        let last = m.last()[c] as int;
        if last > rest {
            last
        } else {
            rest
        }
    }
}

/// The level count inferred for column `c`: one more than the largest
/// observed value.
pub open spec fn inferred_level(m: Seq<Seq<u32>>, c: int) -> int {
    col_max(m, c) + 1
}

/// How many rows hold value `v` in column `c`.
pub open spec fn count_val(m: Seq<Seq<u32>>, c: int, v: u32) -> nat
    decreases m.len(),
{
    if m.len() == 0 {
        0
    } else {
        count_val(m.drop_last(), c, v) + if m.last()[c] == v {
            1nat
        } else {
            0nat
        }
    }
}

/// Sum of column `c`, as a mathematical integer.
pub open spec fn col_sum(m: Seq<Seq<u32>>, c: int) -> int
    decreases m.len(),
{
    if m.len() == 0 {
        0
    } else {
        col_sum(m.drop_last(), c) + m.last()[c]
    }
}

/// Sum over all rows of the product of the entries in columns `i` and `j`.
pub open spec fn col_prod_sum(m: Seq<Seq<u32>>, i: int, j: int) -> int
    decreases m.len(),
{
    if m.len() == 0 {
        0
    } else {
        col_prod_sum(m.drop_last(), i, j) + m.last()[i] * m.last()[j]
    }
}

/// Scaled Pearson covariance of columns `i` and `j`:
/// `runs * sum(x*y) - sum(x) * sum(y)`.
pub open spec fn corr_num(m: Seq<Seq<u32>>, i: int, j: int) -> int {
    m.len() * col_prod_sum(m, i, j) - col_sum(m, i) * col_sum(m, j)
}

/// Scaled variance of column `c`: `runs * sum(x*x) - sum(x)^2`.
pub open spec fn corr_var(m: Seq<Seq<u32>>, c: int) -> int {
    corr_num(m, c, c)
}

/// `needle` occurs contiguously somewhere in `hay`.
pub open spec fn spec_contains(hay: Seq<char>, needle: Seq<char>) -> bool {
    exists|i: int|
        0 <= i <= hay.len() - needle.len() && #[trigger] hay.subrange(i, i + needle.len())
            == needle
}

/// The row-major matrix packed into `flat`, with `cols` entries per row.
pub open spec fn unflatten(flat: Seq<u32>, cols: nat) -> Seq<Seq<u32>> {
    if cols == 0 {
        Seq::empty()
    } else {
        Seq::new(flat.len() / cols, |r: int| Seq::new(cols, |c: int| flat[r * cols + c]))
    }
}

/// The per-factor level counts inferred from the matrix itself.
pub open spec fn inferred_levels_of(m: Seq<Seq<u32>>) -> Seq<u32> {
    Seq::new(m[0].len(), |c: int| inferred_level(m, c) as u32)
}

/// A factor is balanced when every observed level value occurs exactly
/// `expected` times.
pub open spec fn factor_balanced(m: Seq<Seq<u32>>, c: int, expected: nat) -> bool {
    forall|v: u32| count_val(m, c, v) != 0 ==> #[trigger] count_val(m, c, v) == expected
}

/// The deep view of a nested vector indexes to the row's own view.
pub proof fn lemma_mat_index(v: Vec<Vec<u32>>, i: int)
    requires
        0 <= i < v@.len(),
    ensures
        v.deep_view().len() == v@.len(),
        v.deep_view()[i] =~= v@[i]@,
{
    assert(v.deep_view()[i] == v@[i].deep_view());
    assert(v@[i].deep_view() =~= v@[i]@);
}

/// Taking one more row extends the prefix by that row.
pub proof fn lemma_take_succ<A>(s: Seq<A>, r: int)
    requires
        0 <= r < s.len(),
    ensures
        s.take(r + 1).drop_last() =~= s.take(r),
        s.take(r + 1).last() == s[r],
{
}

/// Counts never exceed the number of rows.
pub proof fn lemma_count_le_rows(m: Seq<Seq<u32>>, c: int, v: u32)
    ensures
        count_val(m, c, v) <= m.len(),
    decreases m.len(),
{
    if m.len() > 0 {
        lemma_count_le_rows(m.drop_last(), c, v);
    }
}

/// A value with a nonzero count is observed in some row.
pub proof fn lemma_count_nonzero_observed(m: Seq<Seq<u32>>, c: int, v: u32)
    requires
        count_val(m, c, v) != 0,
    ensures
        exists|r: int| 0 <= r < m.len() && m[r][c] == v,
    decreases m.len(),
{
    if m.len() > 0 {
        if m.last()[c] == v {
            assert(m[m.len() - 1][c] == v);
        } else {
            lemma_count_nonzero_observed(m.drop_last(), c, v);
            let r = choose|r: int| 0 <= r < m.drop_last().len() && m.drop_last()[r][c] == v;
            assert(m[r][c] == v);
        }
    }
}

/// A value observed in some row has a nonzero count.
pub proof fn lemma_observed_count_nonzero(m: Seq<Seq<u32>>, c: int, r: int)
    requires
        0 <= r < m.len(),
    ensures
        count_val(m, c, m[r][c]) > 0,
    decreases m.len(),
{
    if r == m.len() - 1 {
        assert(m.last()[c] == m[r][c]);
    } else {
        lemma_observed_count_nonzero(m.drop_last(), c, r);
    }
}

/// In a rectangular matrix every entry of column `c` is at most `col_max`.
pub proof fn lemma_col_max_ge(m: Seq<Seq<u32>>, c: int, r: int)
    requires
        0 <= r < m.len(),
    ensures
        m[r][c] <= col_max(m, c),
    decreases m.len(),
{
    if r < m.len() - 1 {
        lemma_col_max_ge(m.drop_last(), c, r);
    }
}

/// `col_max` is the value of some row, so it is an observed value.
pub proof fn lemma_col_max_observed(m: Seq<Seq<u32>>, c: int)
    requires
        m.len() > 0,
    ensures
        exists|r: int| 0 <= r < m.len() && m[r][c] == col_max(m, c),
    decreases m.len(),
{
    if m.len() == 1 {
        assert(m.drop_last().len() == 0);
        assert(col_max(m.drop_last(), c) == -1);
        assert(m.last() == m[0]);
        assert(m[0][c] == col_max(m, c));
    } else {
        let rest = col_max(m.drop_last(), c);
        let last = m.last()[c] as int;
        if last > rest {
            assert(m[m.len() - 1][c] == col_max(m, c));
        } else {
            lemma_col_max_observed(m.drop_last(), c);
            let r = choose|r: int|
                0 <= r < m.drop_last().len() && m.drop_last()[r][c] == col_max(m.drop_last(), c);
            assert(m[r][c] == col_max(m, c));
        }
    }
}

} // verus!
