//! Strength verification orchestration: drives the external verifier and
//! classifies its opaque issue reports into a stable two-kind taxonomy by
//! textual pattern match over each issue's rendered form.

use vstd::prelude::*;
use crate::external::{
    call_compute_strength, call_verify_strength, computed_strength_of, verify_outcome_of,
};
use crate::ingest::to_validated_array;
use crate::model::{
    inferred_level, inferred_levels_of, is_rectangular, lemma_mat_index, lemma_take_succ,
    spec_contains, unflatten,
};
use crate::types::{ValidatedArray, VerificationData, VerificationIssue};

verus! {

/// Substring search by direct comparison at each position.
pub fn contains_str(hay: &str, needle: &str) -> (r: bool)
    ensures
        r == spec_contains(hay@, needle@),
{
    let hl = hay.unicode_len();
    let nl = needle.unicode_len();
    if nl == 0 {
        proof {
            assert(hay@.subrange(0, 0 + needle@.len() as int) =~= needle@);
        }
        return true;
    }
    if nl > hl {
        return false;
    }
    let mut i: usize = 0;
    while i <= hl - nl
        invariant
            hl == hay@.len(),
            nl == needle@.len(),
            1 <= nl <= hl,
            i <= hl - nl + 1,
            forall|k: int|
                0 <= k < i ==> #[trigger] hay@.subrange(k, k + nl as int) != needle@,
        decreases hl - nl + 1 - i,
    {
        let mut j: usize = 0;
        let mut matches = true;
        while matches && j < nl
            invariant
                hl == hay@.len(),
                nl == needle@.len(),
                1 <= nl,
                i + nl <= hl,
                j <= nl,
                matches ==> forall|k: int|
                    0 <= k < j ==> hay@[i + k] == #[trigger] needle@[k],
                !matches ==> hay@.subrange(i as int, i as int + nl as int) != needle@,
            decreases nl - j + (if matches {
                1int
            } else {
                0int
            }),
        {
            if hay.get_char(i + j) != needle.get_char(j) {
                proof {
                    assert(hay@.subrange(i as int, i as int + nl as int)[j as int] == hay@[i as int
                        + j as int]);
                }
                matches = false;
            } else {
                j += 1;
            }
        }
        if matches {
            proof {
                assert(hay@.subrange(i as int, i as int + nl as int) =~= needle@);
            }
            return true;
        }
        i += 1;
    }
    false
}

/// Classify one rendered issue: a text holding the out-of-range marker is a
/// value-range issue, anything else a balance violation. The rendered text
/// is preserved verbatim as the description.
pub fn classify_issue(text: String) -> (issue: VerificationIssue)
    ensures
        issue.description@ == text@,
        issue.location is None,
        spec_contains(text@, "ValueOutOfRange"@) ==> issue.issue_type@ == "Value Out of Range"@,
        !spec_contains(text@, "ValueOutOfRange"@) ==> issue.issue_type@ == "Balance Violation"@,
{
    if contains_str(text.as_str(), "ValueOutOfRange") {
        VerificationIssue {
            issue_type: String::from_str("Value Out of Range"),
            description: text,
            location: None,
        }
    } else {
        VerificationIssue {
            issue_type: String::from_str("Balance Violation"),
            description: text,
            location: None,
        }
    }
}

/// Row-major flattening of a validated array.
fn flatten(a: &ValidatedArray) -> (flat: Vec<u32>)
    requires
        a.wf(),
    ensures
        flat@.len() == a.data.deep_view().len() * a.data.deep_view()[0].len(),
        forall|r: int, c: int|
            0 <= r < a.data.deep_view().len() && 0 <= c < a.data.deep_view()[0].len()
                ==> #[trigger] flat@[r * a.data.deep_view()[0].len() + c]
                == a.data.deep_view()[r][c],
{
    let ghost m = a.data.deep_view();
    let ghost cols = m[0].len() as int;
    let runs = a.data.len();
    let factors = a.levels.len();
    let mut flat: Vec<u32> = Vec::new();
    let mut r: usize = 0;
    while r < runs
        invariant
            r <= runs,
            runs == m.len(),
            m == a.data.deep_view(),
            a.wf(),
            factors == cols,
            cols == m[0].len(),
            factors == a.levels@.len(),
            flat@.len() == r * cols,
            forall|rr: int, cc: int|
                0 <= rr < r && 0 <= cc < cols ==> #[trigger] flat@[rr * cols + cc] == m[rr][cc],
        decreases runs - r,
    {
        let mut c: usize = 0;
        while c < factors
            invariant
                c <= factors,
                r < runs,
                runs == m.len(),
                m == a.data.deep_view(),
                a.wf(),
                factors == cols,
                cols == m[0].len(),
                factors == a.levels@.len(),
                flat@.len() == r * cols + c,
                forall|rr: int, cc: int|
                    0 <= rr < r && 0 <= cc < cols ==> #[trigger] flat@[rr * cols + cc] == m[rr][cc],
                forall|cc: int| 0 <= cc < c ==> #[trigger] flat@[r * cols + cc] == m[r as int][cc],
            decreases factors - c,
        {
            proof {
                lemma_mat_index(a.data, r as int);
            }
            let v = a.data[r][c];
            flat.push(v);
            proof {
                assert forall|rr: int, cc: int|
                    0 <= rr < r && 0 <= cc < cols implies #[trigger] flat@[rr * cols + cc]
                    == m[rr][cc] by {
                    assert(rr * cols + cc < r * cols) by (nonlinear_arith)
                        requires
                            0 <= rr < r,
                            0 <= cc < cols,
                            cols > 0,
                    ;
                }
            }
            c += 1;
        }
        proof {
            assert(r * cols + cols == (r + 1) * cols) by (nonlinear_arith);
        }
        r += 1;
    }
    flat
}

/// Verify an array's strength through the external verifier, classifying
/// each reported issue.
///
/// Succeeds exactly when the matrix is well-shaped and every inferred level
/// count (including the factor count itself) supports verification: at least
/// two factors, each with at least two observed levels.
pub fn verify_array(data: Vec<Vec<u32>>, claimed_strength: u32) -> (r: Result<
    VerificationData,
    String,
>)
    requires
        forall|i: int, j: int|
            0 <= i < data.deep_view().len() && 0 <= j < data.deep_view()[i].len()
                ==> #[trigger] data.deep_view()[i][j] < u32::MAX,
    ensures
        ({
            let m = data.deep_view();
            let shape_ok = m.len() > 0 && m[0].len() > 0 && is_rectangular(m);
            &&& (m.len() == 0 ==> (r matches Err(s) && s@ == "Array data cannot be empty"@))
            &&& (m.len() > 0 && m[0].len() == 0 ==> (r matches Err(s) && s@
                == "Array must have at least one factor"@))
            &&& (m.len() > 0 && m[0].len() > 0 && !is_rectangular(m) ==> (r matches Err(s)
                && s@ == "All rows must have the same number of columns"@))
            &&& (r is Ok <==> (shape_ok && m[0].len() >= 2 && forall|c: int|
                0 <= c < m[0].len() ==> #[trigger] inferred_level(m, c) >= 2))
            &&& (r matches Ok(v) ==> {
                let out = verify_outcome_of(m, inferred_levels_of(m), claimed_strength);
                &&& v.claimed_strength == claimed_strength
                &&& v.is_valid == out.0
                &&& v.actual_strength == out.1
                &&& v.issues@.len() == out.2.len()
                &&& (v.is_valid <==> (v.issues@.len() == 0 && v.actual_strength
                    >= claimed_strength))
                &&& v.actual_strength <= claimed_strength
                &&& forall|i: int|
                    0 <= i < v.issues@.len() ==> {
                        let out2 = verify_outcome_of(m, inferred_levels_of(m), claimed_strength);
                        &&& (#[trigger] v.issues@[i]).location is None
                        &&& (spec_contains(v.issues@[i].description@, "ValueOutOfRange"@)
                            <==> out2.2[i])
                        &&& (out2.2[i] ==> v.issues@[i].issue_type@ == "Value Out of Range"@)
                        &&& (!out2.2[i] ==> v.issues@[i].issue_type@ == "Balance Violation"@)
                    }
            })
        }),
{
    let a = match to_validated_array(data) {
        Ok(a) => a,
        Err(e) => {
            return Err(e.message());
        },
    };
    let ghost m = a.data.deep_view();
    let flat = flatten(&a);
    let runs = a.data.len();
    let levels = a.levels.clone();
    proof {
        assert(levels@ =~= a.levels@);
    }
    let ghost lv = levels@;
    let ghost flat_view = flat@;
    let raw = match call_verify_strength(flat, runs, levels, claimed_strength) {
        Ok(t) => t,
        Err(e) => {
            proof {
                if lv.len() >= 2 {
                    assert(exists|i: int| 0 <= i < lv.len() && #[trigger] lv[i] < 2);
                    let i = choose|i: int| 0 <= i < lv.len() && #[trigger] lv[i] < 2;
                    assert(inferred_level(m, i) < 2);
                }
            }
            return Err(e);
        },
    };
    proof {
        assert forall|c: int| 0 <= c < m[0].len() implies #[trigger] inferred_level(m, c) >= 2 by {
            assert(a.levels@[c] == inferred_level(m, c));
            assert(lv[c] >= 2);
        }
        lemma_unflatten_of_flatten(flat_view, m);
        assert(inferred_levels_of(m) =~= lv);
    }
    let ghost out = verify_outcome_of(m, inferred_levels_of(m), claimed_strength);
    let (is_valid, actual_strength, texts) = raw;
    let mut issues: Vec<VerificationIssue> = Vec::new();
    let mut i: usize = 0;
    let n = texts.len();
    let mut texts = texts;
    proof {
        assert(is_valid <==> (texts@.len() == 0 && actual_strength >= claimed_strength));
    }
    let ghost all_texts = texts@;
    while i < n
        invariant
            i <= n,
            n == all_texts.len(),
            texts@.len() == n - i,
            forall|k: int| 0 <= k < texts@.len() ==> texts@[k] == all_texts[i + k],
            issues@.len() == i,
            forall|k: int|
                0 <= k < i ==> {
                    &&& (#[trigger] issues@[k]).location is None
                    &&& issues@[k].description@ == all_texts[k]@
                    &&& (spec_contains(issues@[k].description@, "ValueOutOfRange"@)
                        ==> issues@[k].issue_type@ == "Value Out of Range"@)
                    &&& (!spec_contains(issues@[k].description@, "ValueOutOfRange"@)
                        ==> issues@[k].issue_type@ == "Balance Violation"@)
                },
        decreases n - i,
    {
        let text = texts.remove(0);
        let issue = classify_issue(text);
        issues.push(issue);
        i += 1;
    }
    proof {
        assert forall|k: int|
            0 <= k < issues@.len() implies (spec_contains(
            (#[trigger] issues@[k]).description@,
            "ValueOutOfRange"@,
        ) <==> out.2[k]) by {
            assert(issues@[k].description@ == all_texts[k]@);
        }
    }
    Ok(
        VerificationData {
            is_valid,
            claimed_strength,
            actual_strength,
            issues,
        },
    )
}

/// The matrix a validated array was flattened from is recovered by
/// unpacking the flat vector at the array's column count.
proof fn lemma_unflatten_of_flatten(flat: Seq<u32>, m: Seq<Seq<u32>>)
    requires
        m.len() > 0,
        m[0].len() > 0,
        is_rectangular(m),
        flat.len() == m.len() * m[0].len(),
        forall|r: int, c: int|
            0 <= r < m.len() && 0 <= c < m[0].len() ==> #[trigger] flat[r * m[0].len() + c]
                == m[r][c],
    ensures
        unflatten(flat, m[0].len()) == m,
{
    let cols = m[0].len();
    assert(flat.len() / cols == m.len()) by (nonlinear_arith)
        requires
            cols >= 1,
            flat.len() == m.len() * cols,
    ;
    assert forall|r: int| 0 <= r < m.len() implies unflatten(flat, cols)[r] == m[r] by {
        assert forall|c: int| 0 <= c < cols implies unflatten(flat, cols)[r][c] == #[trigger] m[r][c] by {
            assert(unflatten(flat, cols)[r][c] == flat[r * cols + c]);
        }
        assert(unflatten(flat, cols)[r] =~= m[r]);
    }
    assert(unflatten(flat, cols) =~= m);
}

/// Compute the actual strength of an array through the external engine,
/// bounded by a caller-supplied search ceiling.
///
/// Succeeds exactly when verification would: a well-shaped matrix with at
/// least two factors, each with at least two observed levels.
pub fn compute_array_strength(data: Vec<Vec<u32>>, max_check: u32) -> (r: Result<u32, String>)
    requires
        forall|i: int, j: int|
            0 <= i < data.deep_view().len() && 0 <= j < data.deep_view()[i].len()
                ==> #[trigger] data.deep_view()[i][j] < u32::MAX,
    ensures
        ({
            let m = data.deep_view();
            let shape_ok = m.len() > 0 && m[0].len() > 0 && is_rectangular(m);
            &&& (m.len() == 0 ==> (r matches Err(s) && s@ == "Array data cannot be empty"@))
            &&& (m.len() > 0 && m[0].len() == 0 ==> (r matches Err(s) && s@
                == "Array must have at least one factor"@))
            &&& (m.len() > 0 && m[0].len() > 0 && !is_rectangular(m) ==> (r matches Err(s)
                && s@ == "All rows must have the same number of columns"@))
            &&& (r is Ok <==> (shape_ok && m[0].len() >= 2 && forall|c: int|
                0 <= c < m[0].len() ==> #[trigger] inferred_level(m, c) >= 2))
            &&& (r matches Ok(v) ==> {
                &&& v == computed_strength_of(m, inferred_levels_of(m), max_check)
                &&& v <= max_check
                &&& v <= m[0].len()
            })
        }),
{
    let a = match to_validated_array(data) {
        Ok(a) => a,
        Err(e) => {
            return Err(e.message());
        },
    };
    let ghost m = a.data.deep_view();
    let flat = flatten(&a);
    let runs = a.data.len();
    let levels = a.levels.clone();
    proof {
        assert(levels@ =~= a.levels@);
    }
    let ghost lv = levels@;
    let ghost flat_view = flat@;
    match call_compute_strength(flat, runs, levels, max_check) {
        Ok(v) => {
            proof {
                assert forall|c: int|
                    0 <= c < m[0].len() implies #[trigger] inferred_level(m, c) >= 2 by {
                    assert(a.levels@[c] == inferred_level(m, c));
                    assert(lv[c] >= 2);
                }
                lemma_unflatten_of_flatten(flat_view, m);
                assert(inferred_levels_of(m) =~= lv);
            }
            Ok(v)
        },
        Err(e) => {
            proof {
                if lv.len() >= 2 {
                    assert(exists|i: int| 0 <= i < lv.len() && #[trigger] lv[i] < 2);
                    let i = choose|i: int| 0 <= i < lv.len() && #[trigger] lv[i] < 2;
                    assert(inferred_level(m, i) < 2);
                }
            }
            Err(e)
        },
    }
}

} // verus!
