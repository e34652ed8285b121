//! Per-factor level-balance analysis over a validated array.

use vstd::prelude::*;
use crate::ingest::{to_validated_array, ArrayError};
use crate::model::{
    col_max, count_val, factor_balanced, inferred_level, is_rectangular, lemma_col_max_ge,
    lemma_col_max_observed, lemma_count_le_rows, lemma_count_nonzero_observed, lemma_mat_index,
    lemma_take_succ,
};
use crate::types::{BalanceData, ValidatedArray};

verus! {

/// Occurrence count of every level value of factor `c`, indexed by value.
fn count_column(a: &ValidatedArray, c: usize) -> (counts: Vec<usize>)
    requires
        a.wf(),
        c < a.levels@.len(),
    ensures
        counts@.len() == a.levels@[c as int],
        forall|v: int|
            0 <= v < counts@.len() ==> #[trigger] counts@[v] == count_val(
                a.data.deep_view(),
                c as int,
                v as u32,
            ),
{
    let ghost m = a.data.deep_view();
    let runs = a.data.len();
    let lc = a.levels[c];
    let mut counts: Vec<usize> = Vec::new();
    let mut v: usize = 0;
    while v < lc as usize
        invariant
            v <= lc as usize,
            counts@.len() == v,
            forall|k: int| 0 <= k < v ==> #[trigger] counts@[k] == 0,
        decreases lc as usize - v,
    {
        counts.push(0);
        v += 1;
    }
    let mut r: usize = 0;
    while r < runs
        invariant
            r <= runs,
            runs == m.len(),
            m == a.data.deep_view(),
            a.wf(),
            c < a.levels@.len(),
            lc == a.levels@[c as int],
            counts@.len() == lc,
            forall|k: int|
                0 <= k < counts@.len() ==> #[trigger] counts@[k] == count_val(
                    m.take(r as int),
                    c as int,
                    k as u32,
                ),
        decreases runs - r,
    {
        proof {
            lemma_mat_index(a.data, r as int);
        }
        let val = a.data[r][c];
        proof {
            lemma_take_succ(m, r as int);
            assert(m.take(r as int + 1).drop_last() == m.take(r as int));
            lemma_col_max_ge(m, c as int, r as int);
            assert(m[r as int][c as int] < inferred_level(m, c as int));
            lemma_count_le_rows(m.take(r as int), c as int, val);
            assert(m.take(r as int).len() == r as int);
        }
        let cur = counts[val as usize];
        counts.set(val as usize, cur + 1);
        proof {
            assert forall|k: int| 0 <= k < counts@.len() implies #[trigger] counts@[k]
                == count_val(m.take(r as int + 1), c as int, k as u32) by {
                if k != val as int {
                    assert(m.take(r as int + 1).last()[c as int] != k as u32);
                }
            }
        }
        r += 1;
    }
    proof {
        assert(m.take(runs as int) =~= m);
    }
    counts
}

/// Compute the balance report for a raw matrix.
///
/// Each factor's occurrence counts are tallied per level value; a factor is
/// balanced when every observed count equals `runs / levels[factor]`. The
/// single reported expected count is taken from factor 0's level count.
pub fn get_balance_report(data: Vec<Vec<u32>>) -> (r: Result<BalanceData, ArrayError>)
    requires
        forall|i: int, j: int|
            0 <= i < data.deep_view().len() && 0 <= j < data.deep_view()[i].len()
                ==> #[trigger] data.deep_view()[i][j] < u32::MAX,
    ensures
        match r {
            Err(e) => {
                &&& (e is EmptyInput <==> data.deep_view().len() == 0)
                &&& (e is EmptyFactors <==> data.deep_view().len() > 0
                    && data.deep_view()[0].len() == 0)
                &&& (e is RaggedRows <==> data.deep_view().len() > 0
                    && data.deep_view()[0].len() > 0 && !is_rectangular(data.deep_view()))
            },
            Ok(b) => {
                let m = data.deep_view();
                &&& m.len() > 0
                &&& m[0].len() > 0
                &&& is_rectangular(m)
                &&& b.factor_balance@.len() == m[0].len()
                &&& forall|c: int|
                    0 <= c < m[0].len() ==> (#[trigger] b.factor_balance@[c] <==> factor_balanced(
                        m,
                        c,
                        ((m.len() as int) / inferred_level(m, c)) as nat,
                    ))
                &&& b.level_counts.deep_view().len() == m[0].len()
                &&& forall|c: int|
                    0 <= c < m[0].len() ==> #[trigger] b.level_counts.deep_view()[c].len()
                        == inferred_level(m, c)
                &&& forall|c: int, v: int|
                    0 <= c < m[0].len() && 0 <= v < inferred_level(m, c)
                        ==> #[trigger] b.level_counts.deep_view()[c][v] == count_val(
                        m,
                        c,
                        v as u32,
                    )
                &&& b.expected_count == (m.len() as int) / inferred_level(m, 0)
            },
        },
{
    let a = match to_validated_array(data) {
        Ok(a) => a,
        Err(e) => {
            return Err(e);
        },
    };
    let ghost m = a.data.deep_view();
    let runs = a.data.len();
    let factors = a.levels.len();
    let mut factor_balance: Vec<bool> = Vec::new();
    let mut level_counts: Vec<Vec<usize>> = Vec::new();
    let mut c: usize = 0;
    while c < factors
        invariant
            c <= factors,
            a.wf(),
            m == a.data.deep_view(),
            runs == m.len(),
            factors == a.levels@.len(),
            factors == m[0].len(),
            factor_balance@.len() == c,
            forall|k: int|
                0 <= k < c ==> (#[trigger] factor_balance@[k] <==> factor_balanced(
                    m,
                    k,
                    ((m.len() as int) / inferred_level(m, k)) as nat,
                )),
            level_counts@.len() == c,
            forall|k: int|
                0 <= k < c ==> #[trigger] level_counts@[k]@.len() == inferred_level(m, k),
            forall|k: int, v: int|
                0 <= k < c && 0 <= v < inferred_level(m, k)
                    ==> #[trigger] level_counts@[k]@[v] == count_val(m, k, v as u32),
        decreases factors - c,
    {
        let counts = count_column(&a, c);
        let lc = a.levels[c];
        let expected = runs / (lc as usize);
        let mut balanced = true;
        let mut v: usize = 0;
        while v < counts.len()
            invariant
                v <= counts@.len(),
                counts@.len() == a.levels@[c as int],
                c < factors,
                factors == a.levels@.len(),
                m == a.data.deep_view(),
                a.wf(),
                lc == a.levels@[c as int],
                expected == (m.len() as int) / inferred_level(m, c as int),
                forall|k: int|
                    0 <= k < counts@.len() ==> #[trigger] counts@[k] == count_val(
                        m,
                        c as int,
                        k as u32,
                    ),
                balanced <==> forall|k: int|
                    0 <= k < v ==> (#[trigger] counts@[k] == 0 || counts@[k] == expected),
            decreases counts@.len() - v,
        {
            let cv = counts[v];
            if cv != 0 && cv != expected {
                balanced = false;
            }
            v += 1;
        }
        proof {
            let lcn = inferred_level(m, c as int);
            let exp = ((m.len() as int) / lcn) as nat;
            if balanced {
                assert forall|w: u32| count_val(m, c as int, w) != 0 implies #[trigger] count_val(
                    m,
                    c as int,
                    w,
                ) == exp by {
                    lemma_count_nonzero_observed(m, c as int, w);
                    let rr = choose|rr: int| 0 <= rr < m.len() && m[rr][c as int] == w;
                    lemma_col_max_ge(m, c as int, rr);
                    assert(counts@[w as int] == count_val(m, c as int, w));
                }
                assert(factor_balanced(m, c as int, exp));
            } else {
                let k = choose|k: int|
                    !(0 <= k < counts@.len() ==> (#[trigger] counts@[k] == 0 || counts@[k]
                        == expected));
                assert(count_val(m, c as int, k as u32) != 0);
                assert(!factor_balanced(m, c as int, exp));
            }
        }
        factor_balance.push(balanced);
        level_counts.push(counts);
        c += 1;
    }
    proof {
        assert forall|k: int|
            0 <= k < level_counts@.len() implies #[trigger] level_counts.deep_view()[k]
            == level_counts@[k]@ by {
            assert(level_counts.deep_view()[k] == level_counts@[k].deep_view());
            assert(level_counts@[k].deep_view() =~= level_counts@[k]@);
        }
    }
    let expected_count = runs / (a.levels[0] as usize);
    Ok(BalanceData { factor_balance, level_counts, expected_count })
}

/// A truly balanced array with uniform level count is reported balanced for
/// every factor, with expected count `runs / levels`.
pub proof fn lemma_balanced_uniform_array(m: Seq<Seq<u32>>, levels: u32)
    requires
        m.len() > 0,
        is_rectangular(m),
        levels >= 1,
        forall|r: int, c: int|
            0 <= r < m.len() && 0 <= c < m[0].len() ==> #[trigger] m[r][c] < levels,
        (m.len() as int) / (levels as int) >= 1,
        forall|c: int, v: u32|
            0 <= c < m[0].len() && v < levels ==> #[trigger] count_val(m, c, v) == (m.len() as int)
                / (levels as int),
    ensures
        forall|c: int| 0 <= c < m[0].len() ==> #[trigger] inferred_level(m, c) == levels,
        forall|c: int|
            0 <= c < m[0].len() ==> #[trigger] factor_balanced(
                m,
                c,
                ((m.len() as int) / (levels as int)) as nat,
            ),
{
    let exp = ((m.len() as int) / (levels as int)) as nat;
    assert forall|c: int| 0 <= c < m[0].len() implies #[trigger] inferred_level(m, c)
        == levels by {
        lemma_col_max_observed(m, c);
        let r = choose|r: int| 0 <= r < m.len() && m[r][c] == col_max(m, c);
        assert(col_max(m, c) < levels);
        let top: u32 = (levels - 1) as u32;
        assert(count_val(m, c, top) == exp);
        lemma_count_nonzero_observed(m, c, top);
        let rt = choose|rt: int| 0 <= rt < m.len() && m[rt][c] == top;
        lemma_col_max_ge(m, c, rt);
    }
    assert forall|c: int| 0 <= c < m[0].len() implies factor_balanced(m, c, exp) by {
        assert forall|v: u32| count_val(m, c, v) != 0 implies #[trigger] count_val(m, c, v)
            == exp by {
            lemma_count_nonzero_observed(m, c, v);
            let r = choose|r: int| 0 <= r < m.len() && m[r][c] == v;
            assert(v < levels);
        }
    }
}

} // verus!
