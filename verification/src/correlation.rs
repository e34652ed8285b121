//! Pairwise Pearson correlation over a validated array, carried in exact
//! integer form: for a pair of columns the scaled covariance
//! `n*sum(xy) - sum(x)*sum(y)` and the two scaled variances. The floating
//! quotient `cov / sqrt(var_i * var_j)` is left to the caller; the
//! Cauchy-Schwarz law proved here bounds it within [-1, 1].

use vstd::prelude::*;
use crate::ingest::{to_validated_array, ArrayError};
use crate::model::{col_prod_sum, col_sum, corr_num, corr_var, is_rectangular, lemma_mat_index,
    lemma_take_succ};

verus! {

/// One entry of the correlation matrix, in exact integer form.
#[derive(Debug, Clone, Copy, PartialEq, Eq, Structural)]
pub enum CorrelationCell {
    /// A diagonal entry: the coefficient is exactly 1.
    Diagonal,
    /// A degenerate pair (some column is constant): the coefficient is
    /// defined as exactly 0.
    Degenerate,
    /// An off-diagonal pair: the coefficient is
    /// `numerator / sqrt(variance_i * variance_j)`.
    Ratio {
        /// `runs * sum(x*y) - sum(x) * sum(y)`.
        numerator: i128,
        /// `runs * sum(x*x) - sum(x)^2`.
        variance_i: i128,
        /// `runs * sum(y*y) - sum(y)^2`.
        variance_j: i128,
    },
}

/// The factors-by-factors matrix of correlation entries.
#[derive(Debug, Clone, PartialEq)]
pub struct CorrelationGrid {
    /// Number of factors (the matrix is square).
    pub factors: usize,
    /// The entries, row-major.
    pub cells: Vec<Vec<CorrelationCell>>,
}

/// Sum of an integer sequence.
pub open spec fn isum(s: Seq<int>) -> int
    decreases s.len(),
{
    if s.len() == 0 {
        0
    } else {
        isum(s.drop_last()) + s.last()
    }
}

/// Pointwise product of two equal-length sequences.
pub open spec fn pmul(a: Seq<int>, b: Seq<int>) -> Seq<int> {
    Seq::new(a.len(), |k: int| a[k] * b[k])
}

/// Column `c` mean-centered and scaled by the run count:
/// entry `r` is `n * m[r][c] - col_sum(m, c)`.
pub open spec fn centered(m: Seq<Seq<u32>>, c: int) -> Seq<int> {
    Seq::new(m.len(), |r: int| m.len() * m[r][c] - col_sum(m, c))
}

/// Sum of squares is nonnegative, and the Cauchy-Schwarz inequality:
/// the square of the inner product is at most the product of the two
/// sums of squares.
pub proof fn lemma_cauchy_schwarz(a: Seq<int>, b: Seq<int>)
    requires
        a.len() == b.len(),
    ensures
        isum(pmul(a, a)) >= 0,
        isum(pmul(a, b)) * isum(pmul(a, b)) <= isum(pmul(a, a)) * isum(pmul(b, b)),
    decreases a.len(),
{
    if a.len() == 0 {
        assert(pmul(a, a).len() == 0);
        assert(pmul(a, b).len() == 0);
        assert(pmul(b, b).len() == 0);
    } else {
        let a0 = a.drop_last();
        let b0 = b.drop_last();
        lemma_cauchy_schwarz(a0, b0);
        lemma_cauchy_schwarz(b0, a0);
        let x = a.last();
        let y = b.last();
        let sab = isum(pmul(a0, b0));
        let sa = isum(pmul(a0, a0));
        let sb = isum(pmul(b0, b0));
        assert(pmul(a, b).drop_last() =~= pmul(a0, b0));
        assert(pmul(a, a).drop_last() =~= pmul(a0, a0));
        assert(pmul(b, b).drop_last() =~= pmul(b0, b0));
        assert(pmul(a, b).last() == x * y);
        assert(pmul(a, a).last() == x * x);
        assert(pmul(b, b).last() == y * y);
        assert(isum(pmul(a, b)) == sab + x * y);
        assert(isum(pmul(a, a)) == sa + x * x);
        assert(isum(pmul(b, b)) == sb + y * y);
        assert(sa + x * x >= 0) by (nonlinear_arith)
            requires
                sa >= 0,
        ;
        // 2*x*y*sab <= x*x*sb + y*y*sa, from (x*x*sb - y*y*sa)^2 >= 0 and
        // sab^2 <= sa*sb.
        let p = x * y;
        assert((x * x * sb + y * y * sa) * (x * x * sb + y * y * sa) >= (2 * p * sab) * (2 * p
            * sab)) by (nonlinear_arith)
            requires
                sab * sab <= sa * sb,
                sa >= 0,
                sb >= 0,
                p == x * y,
        ;
        assert(x * x * sb + y * y * sa >= 2 * p * sab) by (nonlinear_arith)
            requires
                sa >= 0,
                sb >= 0,
                (x * x * sb + y * y * sa) * (x * x * sb + y * y * sa) >= (2 * p * sab) * (2 * p
                    * sab),
        ;
        assert((sab + p) * (sab + p) == sab * sab + 2 * p * sab + p * p) by (nonlinear_arith);
        assert((sa + x * x) * (sb + y * y) == sa * sb + sa * (y * y) + (x * x) * sb + (x * x) * (y
            * y)) by (nonlinear_arith);
        assert(p * p == (x * x) * (y * y)) by (nonlinear_arith)
            requires
                p == x * y,
        ;
        assert(sa * (y * y) + (x * x) * sb == x * x * sb + y * y * sa) by (nonlinear_arith);
        assert((sab + p) * (sab + p) <= (sa + x * x) * (sb + y * y));
    }
}

/// Inner product of centered prefixes, expanded over the raw prefix sums.
proof fn lemma_centered_prefix(m: Seq<Seq<u32>>, i: int, j: int, r: int)
    requires
        is_rectangular(m),
        m.len() > 0,
        0 <= i < m[0].len(),
        0 <= j < m[0].len(),
        0 <= r <= m.len(),
    ensures
        isum(pmul(centered(m, i).take(r), centered(m, j).take(r))) == (m.len() * m.len())
            * col_prod_sum(m.take(r), i, j) - m.len() * (col_sum(m, i) * col_sum(m.take(r), j))
            - m.len() * (col_sum(m, j) * col_sum(m.take(r), i)) + r * (col_sum(m, i) * col_sum(
            m,
            j,
        )),
    decreases r,
{
    let n = m.len() as int;
    let si = col_sum(m, i);
    let sj = col_sum(m, j);
    if r == 0 {
        assert(centered(m, i).take(0) =~= Seq::<int>::empty());
        assert(pmul(centered(m, i).take(0), centered(m, j).take(0)).len() == 0);
        assert(isum(pmul(centered(m, i).take(0), centered(m, j).take(0))) == 0);
        assert(m.take(0) =~= Seq::<Seq<u32>>::empty());
        assert(col_prod_sum(m.take(0), i, j) == 0);
        assert(col_sum(m.take(0), i) == 0);
        assert(col_sum(m.take(0), j) == 0);
    } else {
        lemma_centered_prefix(m, i, j, r - 1);
        let ai = centered(m, i).take(r);
        let aj = centered(m, j).take(r);
        assert(pmul(ai, aj).drop_last() =~= pmul(centered(m, i).take(r - 1), centered(m, j).take(r
            - 1)));
        let x = m[r - 1][i] as int;
        let y = m[r - 1][j] as int;
        assert(ai.last() == n * x - si);
        assert(aj.last() == n * y - sj);
        assert(isum(pmul(ai, aj)) == isum(pmul(ai, aj).drop_last()) + (n * x - si) * (n * y - sj));
        lemma_take_succ(m, r - 1);
        assert(m.take(r).drop_last() == m.take(r - 1));
        assert(m.take(r).last() == m[r - 1]);
        let pr = col_prod_sum(m.take(r - 1), i, j);
        let ci = col_sum(m.take(r - 1), i);
        let cj = col_sum(m.take(r - 1), j);
        assert(col_prod_sum(m.take(r), i, j) == pr + x * y);
        assert(col_sum(m.take(r), i) == ci + x);
        assert(col_sum(m.take(r), j) == cj + y);
        assert((n * x - si) * (n * y - sj) == (n * x) * (n * y) - (n * x) * sj - si * (n * y) + si
            * sj) by (nonlinear_arith);
        assert((n * x) * (n * y) == (n * n) * (x * y)) by (nonlinear_arith);
        assert((n * x) * sj == n * (sj * x)) by (nonlinear_arith);
        assert(si * (n * y) == n * (si * y)) by (nonlinear_arith);
        assert((n * n) * (pr + x * y) == (n * n) * pr + (n * n) * (x * y)) by (nonlinear_arith);
        assert(n * (si * (cj + y)) == n * (si * cj) + n * (si * y)) by (nonlinear_arith);
        assert(n * (sj * (ci + x)) == n * (sj * ci) + n * (sj * x)) by (nonlinear_arith);
        assert(r * (si * sj) == (r - 1) * (si * sj) + si * sj) by (nonlinear_arith);
    }
}

/// The centered inner product equals `runs` times the scaled covariance.
proof fn lemma_centered_total(m: Seq<Seq<u32>>, i: int, j: int)
    requires
        is_rectangular(m),
        m.len() > 0,
        0 <= i < m[0].len(),
        0 <= j < m[0].len(),
    ensures
        isum(pmul(centered(m, i), centered(m, j))) == m.len() * corr_num(m, i, j),
{
    let n = m.len() as int;
    lemma_centered_prefix(m, i, j, n);
    assert(m.take(n) =~= m);
    assert(centered(m, i).take(n) =~= centered(m, i));
    assert(centered(m, j).take(n) =~= centered(m, j));
    let si = col_sum(m, i);
    let sj = col_sum(m, j);
    let ps = col_prod_sum(m, i, j);
    assert((n * n) * ps == n * (n * ps)) by (nonlinear_arith);
    assert(n * (sj * si) == n * (si * sj)) by (nonlinear_arith);
    assert(n * (n * ps) - n * (si * sj) - n * (si * sj) + n * (si * sj) == n * (n * ps - si * sj))
        by (nonlinear_arith);
}

/// The scaled variance of every column is nonnegative, and the scaled
/// covariance of any pair is bounded by Cauchy-Schwarz: its square is at
/// most the product of the two scaled variances. Hence the Pearson
/// coefficient `corr_num / sqrt(corr_var_i * corr_var_j)` lies in [-1, 1]
/// whenever it is defined.
pub proof fn lemma_correlation_in_range(m: Seq<Seq<u32>>, i: int, j: int)
    requires
        is_rectangular(m),
        m.len() > 0,
        0 <= i < m[0].len(),
        0 <= j < m[0].len(),
    ensures
        corr_var(m, i) >= 0,
        corr_num(m, i, j) * corr_num(m, i, j) <= corr_var(m, i) * corr_var(m, j),
{
    let n = m.len() as int;
    let ai = centered(m, i);
    let aj = centered(m, j);
    lemma_cauchy_schwarz(ai, aj);
    lemma_cauchy_schwarz(aj, ai);
    lemma_centered_total(m, i, j);
    lemma_centered_total(m, i, i);
    lemma_centered_total(m, j, j);
    let num = corr_num(m, i, j);
    let vi = corr_var(m, i);
    let vj = corr_var(m, j);
    assert(isum(pmul(ai, ai)) == n * vi);
    assert(vi >= 0) by (nonlinear_arith)
        requires
            n > 0,
            n * vi >= 0,
    ;
    assert((n * num) * (n * num) <= (n * vi) * (n * vj));
    assert(num * num <= vi * vj) by (nonlinear_arith)
        requires
            n > 0,
            (n * num) * (n * num) <= (n * vi) * (n * vj),
    ;
}

/// Sum of column `c`, bounded by the entry bound times the run count.
fn col_sum_exec(data: &Vec<Vec<u32>>, c: usize) -> (s: i128)
    requires
        is_rectangular(data.deep_view()),
        data.deep_view().len() > 0,
        data.deep_view().len() <= 0x1_0000_0000,
        c < data.deep_view()[0].len(),
        forall|r: int, k: int|
            0 <= r < data.deep_view().len() && 0 <= k < data.deep_view()[r].len()
                ==> #[trigger] data.deep_view()[r][k] <= 0xFFFF,
    ensures
        s == col_sum(data.deep_view(), c as int),
        0 <= s <= data.deep_view().len() * 0xFFFF,
{
    let ghost m = data.deep_view();
    let runs = data.len();
    let mut s: i128 = 0;
    let mut r: usize = 0;
    while r < runs
        invariant
            r <= runs,
            runs == m.len(),
            m == data.deep_view(),
            is_rectangular(m),
            m.len() <= 0x1_0000_0000,
            c < m[0].len(),
            forall|rr: int, k: int|
                0 <= rr < m.len() && 0 <= k < m[rr].len() ==> #[trigger] m[rr][k] <= 0xFFFF,
            s == col_sum(m.take(r as int), c as int),
            0 <= s <= r * 0xFFFF,
        decreases runs - r,
    {
        proof {
            lemma_mat_index(*data, r as int);
            lemma_take_succ(m, r as int);
            assert(m.take(r as int + 1).drop_last() == m.take(r as int));
            assert(r * 0xFFFF + 0xFFFF == (r + 1) * 0xFFFF) by (nonlinear_arith);
            assert(r * 0xFFFF <= 0x1_0000_0000 * 0xFFFF) by (nonlinear_arith)
                requires
                    0 <= r <= 0x1_0000_0000,
            ;
        }
        s = s + (data[r][c] as i128);
        r += 1;
    }
    proof {
        assert(m.take(runs as int) =~= m);
    }
    s
}

/// Sum of the entry products of columns `i` and `j`, bounded by the squared
/// entry bound times the run count.
fn col_prod_sum_exec(data: &Vec<Vec<u32>>, i: usize, j: usize) -> (s: i128)
    requires
        is_rectangular(data.deep_view()),
        data.deep_view().len() > 0,
        data.deep_view().len() <= 0x1_0000_0000,
        i < data.deep_view()[0].len(),
        j < data.deep_view()[0].len(),
        forall|r: int, k: int|
            0 <= r < data.deep_view().len() && 0 <= k < data.deep_view()[r].len()
                ==> #[trigger] data.deep_view()[r][k] <= 0xFFFF,
    ensures
        s == col_prod_sum(data.deep_view(), i as int, j as int),
        0 <= s <= data.deep_view().len() * 0x1_0000_0000,
{
    let ghost m = data.deep_view();
    let runs = data.len();
    let mut s: i128 = 0;
    let mut r: usize = 0;
    while r < runs
        invariant
            r <= runs,
            runs == m.len(),
            m == data.deep_view(),
            is_rectangular(m),
            m.len() <= 0x1_0000_0000,
            i < m[0].len(),
            j < m[0].len(),
            forall|rr: int, k: int|
                0 <= rr < m.len() && 0 <= k < m[rr].len() ==> #[trigger] m[rr][k] <= 0xFFFF,
            s == col_prod_sum(m.take(r as int), i as int, j as int),
            0 <= s <= r * 0x1_0000_0000,
        decreases runs - r,
    {
        proof {
            lemma_mat_index(*data, r as int);
            lemma_take_succ(m, r as int);
            assert(m.take(r as int + 1).drop_last() == m.take(r as int));
            assert((m[r as int][i as int] as int) * (m[r as int][j as int] as int)
                <= 0x1_0000_0000) by (nonlinear_arith)
                requires
                    0 <= m[r as int][i as int] <= 0xFFFF,
                    0 <= m[r as int][j as int] <= 0xFFFF,
            ;
            assert(r * 0x1_0000_0000 + 0x1_0000_0000 == (r + 1) * 0x1_0000_0000)
                by (nonlinear_arith);
            assert(r * 0x1_0000_0000 <= 0x1_0000_0000 * 0x1_0000_0000) by (nonlinear_arith)
                requires
                    0 <= r <= 0x1_0000_0000,
            ;
        }
        let x = data[r][i] as i128;
        let y = data[r][j] as i128;
        s = s + x * y;
        r += 1;
    }
    proof {
        assert(m.take(runs as int) =~= m);
    }
    s
}

/// The scaled variance of column `c`: `runs * sum(x*x) - sum(x)^2`.
fn variance_exec(data: &Vec<Vec<u32>>, c: usize) -> (v: i128)
    requires
        is_rectangular(data.deep_view()),
        data.deep_view().len() > 0,
        data.deep_view().len() <= 0x1_0000_0000,
        c < data.deep_view()[0].len(),
        forall|r: int, k: int|
            0 <= r < data.deep_view().len() && 0 <= k < data.deep_view()[r].len()
                ==> #[trigger] data.deep_view()[r][k] <= 0xFFFF,
    ensures
        v == corr_var(data.deep_view(), c as int),
{
    let ghost m = data.deep_view();
    let n = data.len();
    let s = col_sum_exec(data, c);
    let ps = col_prod_sum_exec(data, c, c);
    proof {
        assert((n as int) * ps <= 0x1_0000_0000 * (0x1_0000_0000 * 0x1_0000_0000))
            by (nonlinear_arith)
            requires
                0 <= n as int <= 0x1_0000_0000,
                0 <= ps <= 0x1_0000_0000 * 0x1_0000_0000,
        ;
        assert(s * s <= (0x1_0000_0000 * 0xFFFF) * (0x1_0000_0000 * 0xFFFF)) by (nonlinear_arith)
            requires
                0 <= s <= 0x1_0000_0000 * 0xFFFF,
        ;
    }
    (n as i128) * ps - s * s
}

/// The scaled covariance of columns `i` and `j`:
/// `runs * sum(x*y) - sum(x) * sum(y)`.
fn covariance_exec(data: &Vec<Vec<u32>>, i: usize, j: usize) -> (v: i128)
    requires
        is_rectangular(data.deep_view()),
        data.deep_view().len() > 0,
        data.deep_view().len() <= 0x1_0000_0000,
        i < data.deep_view()[0].len(),
        j < data.deep_view()[0].len(),
        forall|r: int, k: int|
            0 <= r < data.deep_view().len() && 0 <= k < data.deep_view()[r].len()
                ==> #[trigger] data.deep_view()[r][k] <= 0xFFFF,
    ensures
        v == corr_num(data.deep_view(), i as int, j as int),
{
    let ghost m = data.deep_view();
    let n = data.len();
    let si = col_sum_exec(data, i);
    let sj = col_sum_exec(data, j);
    let ps = col_prod_sum_exec(data, i, j);
    proof {
        assert((n as int) * ps <= 0x1_0000_0000 * (0x1_0000_0000 * 0x1_0000_0000))
            by (nonlinear_arith)
            requires
                0 <= n as int <= 0x1_0000_0000,
                0 <= ps <= 0x1_0000_0000 * 0x1_0000_0000,
        ;
        assert(si * sj <= (0x1_0000_0000 * 0xFFFF) * (0x1_0000_0000 * 0xFFFF))
            by (nonlinear_arith)
            requires
                0 <= si <= 0x1_0000_0000 * 0xFFFF,
                0 <= sj <= 0x1_0000_0000 * 0xFFFF,
        ;
        assert(si * sj >= 0) by (nonlinear_arith)
            requires
                si >= 0,
                sj >= 0,
        ;
    }
    (n as i128) * ps - si * sj
}

/// Compute the correlation matrix of a raw matrix, in exact integer form.
///
/// The diagonal is fixed to 1 without computation; a pair with a constant
/// column is defined as exactly 0; every other pair carries its scaled
/// covariance and variances, whose float quotient is the Pearson
/// coefficient. Entries are bounded so the integer moments are exact.
pub fn get_correlation_matrix(data: Vec<Vec<u32>>) -> (r: Result<CorrelationGrid, ArrayError>)
    requires
        data.deep_view().len() <= 0x1_0000_0000,
        forall|i: int, j: int|
            0 <= i < data.deep_view().len() && 0 <= j < data.deep_view()[i].len()
                ==> #[trigger] data.deep_view()[i][j] <= 0xFFFF,
    ensures
        match r {
            Err(e) => {
                &&& (e is EmptyInput <==> data.deep_view().len() == 0)
                &&& (e is EmptyFactors <==> data.deep_view().len() > 0
                    && data.deep_view()[0].len() == 0)
                &&& (e is RaggedRows <==> data.deep_view().len() > 0
                    && data.deep_view()[0].len() > 0 && !is_rectangular(data.deep_view()))
            },
            Ok(g) => {
                let m = data.deep_view();
                let cols = m[0].len() as int;
                &&& m.len() > 0
                &&& m[0].len() > 0
                &&& is_rectangular(m)
                &&& g.factors == cols
                &&& g.cells@.len() == cols
                &&& forall|i: int| 0 <= i < cols ==> (#[trigger] g.cells@[i])@.len() == cols
                &&& forall|i: int| 0 <= i < cols ==> #[trigger] g.cells@[i]@[i] is Diagonal
                &&& forall|i: int, j: int|
                    0 <= i < cols && 0 <= j < cols && i != j ==> ((corr_var(m, i) == 0 || corr_var(
                        m,
                        j,
                    ) == 0) ==> #[trigger] g.cells@[i]@[j] is Degenerate)
                &&& forall|i: int, j: int|
                    0 <= i < cols && 0 <= j < cols && i != j ==> ((corr_var(m, i) != 0 && corr_var(
                        m,
                        j,
                    ) != 0) ==> (#[trigger] g.cells@[i]@[j] matches CorrelationCell::Ratio {
                        numerator,
                        variance_i,
                        variance_j,
                    } && numerator == corr_num(m, i, j) && variance_i == corr_var(m, i)
                        && variance_j == corr_var(m, j)))
            },
        },
{
    let a = match to_validated_array(data) {
        Ok(a) => a,
        Err(e) => {
            return Err(e);
        },
    };
    let ghost m = a.data.deep_view();
    let factors = a.levels.len();
    let mut vars: Vec<i128> = Vec::new();
    let mut c: usize = 0;
    while c < factors
        invariant
            c <= factors,
            a.wf(),
            m == a.data.deep_view(),
            m.len() <= 0x1_0000_0000,
            factors == m[0].len(),
            factors == a.levels@.len(),
            forall|r: int, k: int|
                0 <= r < m.len() && 0 <= k < m[r].len() ==> #[trigger] m[r][k] <= 0xFFFF,
            vars@.len() == c,
            forall|k: int| 0 <= k < c ==> #[trigger] vars@[k] == corr_var(m, k),
        decreases factors - c,
    {
        let v = variance_exec(&a.data, c);
        vars.push(v);
        c += 1;
    }
    let mut cells: Vec<Vec<CorrelationCell>> = Vec::new();
    let mut i: usize = 0;
    while i < factors
        invariant
            i <= factors,
            a.wf(),
            m == a.data.deep_view(),
            m.len() <= 0x1_0000_0000,
            factors == m[0].len(),
            factors == a.levels@.len(),
            forall|r: int, k: int|
                0 <= r < m.len() && 0 <= k < m[r].len() ==> #[trigger] m[r][k] <= 0xFFFF,
            vars@.len() == factors,
            forall|k: int| 0 <= k < factors ==> #[trigger] vars@[k] == corr_var(m, k),
            cells@.len() == i,
            forall|k: int| 0 <= k < i ==> (#[trigger] cells@[k])@.len() == factors,
            forall|k: int| 0 <= k < i ==> #[trigger] cells@[k]@[k] is Diagonal,
            forall|k: int, l: int|
                0 <= k < i && 0 <= l < factors && k != l ==> ((corr_var(m, k) == 0 || corr_var(
                    m,
                    l,
                ) == 0) ==> #[trigger] cells@[k]@[l] is Degenerate),
            forall|k: int, l: int|
                0 <= k < i && 0 <= l < factors && k != l ==> ((corr_var(m, k) != 0 && corr_var(
                    m,
                    l,
                ) != 0) ==> (#[trigger] cells@[k]@[l] matches CorrelationCell::Ratio {
                    numerator,
                    variance_i,
                    variance_j,
                } && numerator == corr_num(m, k, l) && variance_i == corr_var(m, k) && variance_j
                    == corr_var(m, l))),
        decreases factors - i,
    {
        let mut row: Vec<CorrelationCell> = Vec::new();
        let mut j: usize = 0;
        while j < factors
            invariant
                j <= factors,
                i < factors,
                a.wf(),
                m == a.data.deep_view(),
                m.len() <= 0x1_0000_0000,
                factors == m[0].len(),
                factors == a.levels@.len(),
                forall|r: int, k: int|
                    0 <= r < m.len() && 0 <= k < m[r].len() ==> #[trigger] m[r][k] <= 0xFFFF,
                vars@.len() == factors,
                forall|k: int| 0 <= k < factors ==> #[trigger] vars@[k] == corr_var(m, k),
                row@.len() == j,
                forall|l: int| 0 <= l < j && l == i ==> #[trigger] row@[l] is Diagonal,
                forall|l: int|
                    0 <= l < j && l != i ==> ((corr_var(m, i as int) == 0 || corr_var(m, l) == 0)
                        ==> #[trigger] row@[l] is Degenerate),
                forall|l: int|
                    0 <= l < j && l != i ==> ((corr_var(m, i as int) != 0 && corr_var(m, l) != 0)
                        ==> (#[trigger] row@[l] matches CorrelationCell::Ratio {
                        numerator,
                        variance_i,
                        variance_j,
                    } && numerator == corr_num(m, i as int, l) && variance_i == corr_var(
                        m,
                        i as int,
                    ) && variance_j == corr_var(m, l))),
            decreases factors - j,
        {
            if i == j {
                row.push(CorrelationCell::Diagonal);
            } else {
                let vi = vars[i];
                let vj = vars[j];
                if vi == 0 || vj == 0 {
                    row.push(CorrelationCell::Degenerate);
                } else {
                    let num = covariance_exec(&a.data, i, j);
                    row.push(
                        CorrelationCell::Ratio {
                            numerator: num,
                            variance_i: vi,
                            variance_j: vj,
                        },
                    );
                }
            }
            j += 1;
        }
        cells.push(row);
        i += 1;
    }
    Ok(CorrelationGrid { factors, cells })
}

} // verus!
