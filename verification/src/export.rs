//! Textual export of an array: the CSV and LaTeX renderings, specified
//! character by character. File writing stays outside; these functions only
//! produce the text.

use vstd::prelude::*;
use crate::model::lemma_mat_index;
use crate::numfmt::{dec_rep, dec_u32, dec_usize};
use crate::types::OAData;

verus! {

/// `parts` joined with `sep` between consecutive parts.
pub open spec fn joined(parts: Seq<Seq<char>>, sep: Seq<char>) -> Seq<char>
    decreases parts.len(),
{
    if parts.len() == 0 {
        Seq::empty()
    } else if parts.len() == 1 {
        parts[0]
    } else {
        joined(parts.drop_last(), sep) + sep + parts.last()
    }
}

/// `s` repeated `n` times.
pub open spec fn repeated(s: Seq<char>, n: nat) -> Seq<char>
    decreases n,
{
    if n == 0 {
        Seq::empty()
    } else {
        repeated(s, (n - 1) as nat) + s
    }
}

/// The CSV column headers: "Factor1" through "FactorN".
pub open spec fn csv_headers(factors: nat) -> Seq<Seq<char>> {
    Seq::new(factors, |i: int| "Factor"@ + dec_rep((i + 1) as nat))
}

/// A row's values rendered in decimal.
pub open spec fn row_cells(row: Seq<u32>) -> Seq<Seq<char>> {
    Seq::new(row.len(), |i: int| dec_rep(row[i] as nat))
}

/// The CSV body: each row's cells joined by commas, one line per run.
pub open spec fn csv_body(m: Seq<Seq<u32>>) -> Seq<char>
    decreases m.len(),
{
    if m.len() == 0 {
        Seq::empty()
    } else {
        csv_body(m.drop_last()) + joined(row_cells(m.last()), ","@) + "\n"@
    }
}

/// The whole CSV text: a header line, then one line per run.
pub open spec fn csv_text(m: Seq<Seq<u32>>, factors: nat) -> Seq<char> {
    joined(csv_headers(factors), ","@) + "\n"@ + csv_body(m)
}

/// Append a row's decimal cells to `out`, separated by `sep`.
fn append_joined_cells(out: &mut String, row: &Vec<u32>, sep: &str)
    ensures
        final(out)@ == old(out)@ + joined(row_cells(row@), sep@),
{
    let ghost start = out@;
    let ghost cells = row_cells(row@);
    let mut c: usize = 0;
    while c < row.len()
        invariant
            c <= row@.len(),
            cells == row_cells(row@),
            cells.len() == row@.len(),
            out@ == start + joined(cells.take(c as int), sep@),
        decreases row@.len() - c,
    {
        if c > 0 {
            out.append(sep);
        }
        out.append(dec_u32(row[c]).as_str());
        proof {
            assert(cells[c as int] == dec_rep(row@[c as int] as nat));
            crate::model::lemma_take_succ(cells, c as int);
            assert(cells.take(c as int + 1).drop_last() == cells.take(c as int));
            if c == 0 {
                assert(joined(cells.take(0), sep@) =~= Seq::<char>::empty());
            }
            assert(out@ =~= start + joined(cells.take(c as int + 1), sep@));
        }
        c += 1;
    }
    proof {
        assert(cells.take(row@.len() as int) =~= cells);
    }
}

/// Render an array to CSV: a "Factor1,...,FactorN" header line, then each
/// run's levels joined by commas, one line per run.
pub fn render_csv(data: &OAData) -> (r: String)
    ensures
        r@ == csv_text(data.data.deep_view(), data.factors as nat),
{
    let ghost headers = csv_headers(data.factors as nat);
    let mut out = String::new();
    let mut i: usize = 0;
    while i < data.factors
        invariant
            i <= data.factors,
            headers == csv_headers(data.factors as nat),
            headers.len() == data.factors,
            out@ == joined(headers.take(i as int), ","@),
        decreases data.factors - i,
    {
        if i > 0 {
            out.append(",");
        }
        out.append("Factor");
        out.append(dec_usize(i + 1).as_str());
        proof {
            assert(headers[i as int] == "Factor"@ + dec_rep((i + 1) as nat));
            crate::model::lemma_take_succ(headers, i as int);
            assert(headers.take(i as int + 1).drop_last() == headers.take(i as int));
            if i == 0 {
                assert(joined(headers.take(0), ","@) =~= Seq::<char>::empty());
            }
            assert(out@ =~= joined(headers.take(i as int + 1), ","@));
        }
        i += 1;
    }
    proof {
        assert(headers.take(data.factors as int) =~= headers);
    }
    out.append("\n");
    let ghost m = data.data.deep_view();
    let ghost head = joined(headers, ","@) + "\n"@;
    proof {
        assert(out@ =~= head);
    }
    let mut r: usize = 0;
    let runs = data.data.len();
    while r < runs
        invariant
            r <= runs,
            runs == m.len(),
            m == data.data.deep_view(),
            out@ == head + csv_body(m.take(r as int)),
        decreases runs - r,
    {
        proof {
            lemma_mat_index(data.data, r as int);
        }
        append_joined_cells(&mut out, &data.data[r], ",");
        out.append("\n");
        proof {
            crate::model::lemma_take_succ(m, r as int);
            assert(m.take(r as int + 1).drop_last() == m.take(r as int));
            assert(row_cells(m[r as int]) =~= row_cells(data.data@[r as int]@));
            assert(out@ =~= head + csv_body(m.take(r as int + 1)));
        }
        r += 1;
    }
    proof {
        assert(m.take(runs as int) =~= m);
        assert(out@ =~= csv_text(m, data.factors as nat));
    }
    out
}

/// The LaTeX column headers: "$F_{1}$" through "$F_{N}$".
pub open spec fn latex_headers(factors: nat) -> Seq<Seq<char>> {
    Seq::new(factors, |i: int| "$F_{"@ + dec_rep((i + 1) as nat) + "}$"@)
}

/// The LaTeX table body: each run's cells joined by " & ", each line closed
/// by a row terminator.
pub open spec fn latex_body(m: Seq<Seq<u32>>) -> Seq<char>
    decreases m.len(),
{
    if m.len() == 0 {
        Seq::empty()
    } else {
        latex_body(m.drop_last()) + joined(row_cells(m.last()), " & "@) + " \\\\\n"@
    }
}

/// The level annotation of the trailing comment: a single value as itself, a
/// list parenthesized and comma-joined.
pub open spec fn levels_note(levels: Seq<u32>) -> Seq<char> {
    if levels.len() == 1 {
        dec_rep(levels[0] as nat)
    } else {
        "("@ + joined(row_cells(levels), ","@) + ")"@
    }
}

/// The whole LaTeX rendering: the tabular environment with its column
/// specification, header line, body and closing, followed by comment lines
/// carrying the array notation, the optional name, and the algorithm.
pub open spec fn latex_text(
    m: Seq<Seq<u32>>,
    runs: nat,
    factors: nat,
    levels: Seq<u32>,
    strength: u32,
    name: Option<Seq<char>>,
    algorithm: Seq<char>,
) -> Seq<char> {
    "\\begin{tabular}{"@ + "|"@ + repeated("c|"@, factors) + "|"@ + "}\n"@ + "\\hline\n"@ + joined(
        latex_headers(factors),
        " & "@,
    ) + " \\\\\n"@ + "\\hline\n"@ + latex_body(m) + "\\hline\n"@ + "\\end{tabular}\n"@ + "\n% OA("@
        + dec_rep(runs) + ", "@ + dec_rep(factors) + ", "@ + levels_note(levels) + ", "@ + dec_rep(
        strength as nat,
    ) + ")\n"@ + (match name {
        Some(n) => "% Name: "@ + n + "\n"@,
        None => Seq::<char>::empty(),
    }) + "% Algorithm: "@ + algorithm + "\n"@
}

/// Render an array to LaTeX tabular form, with the array notation, optional
/// name, and algorithm as trailing comments.
pub fn export_latex(data: &OAData) -> (r: Result<String, String>)
    ensures
        r matches Ok(s) && s@ == latex_text(
            data.data.deep_view(),
            data.runs as nat,
            data.factors as nat,
            data.levels@,
            data.strength,
            match data.metadata.name {
                Some(n) => Some(n@),
                None => None,
            },
            data.metadata.algorithm@,
        ),
{
    let mut out = String::from_str("\\begin{tabular}{");
    out.append("|");
    let mut i: usize = 0;
    let ghost colspec_start = out@;
    while i < data.factors
        invariant
            i <= data.factors,
            out@ == colspec_start + repeated("c|"@, i as nat),
        decreases data.factors - i,
    {
        out.append("c|");
        i += 1;
    }
    out.append("|");
    out.append("}\n");
    out.append("\\hline\n");
    let ghost headers = latex_headers(data.factors as nat);
    let ghost head_start = out@;
    let mut h: usize = 0;
    while h < data.factors
        invariant
            h <= data.factors,
            headers == latex_headers(data.factors as nat),
            headers.len() == data.factors,
            out@ == head_start + joined(headers.take(h as int), " & "@),
        decreases data.factors - h,
    {
        if h > 0 {
            out.append(" & ");
        }
        out.append("$F_{");
        out.append(dec_usize(h + 1).as_str());
        out.append("}$");
        proof {
            assert(headers[h as int] == "$F_{"@ + dec_rep((h + 1) as nat) + "}$"@);
            crate::model::lemma_take_succ(headers, h as int);
            assert(headers.take(h as int + 1).drop_last() == headers.take(h as int));
            if h == 0 {
                assert(joined(headers.take(0), " & "@) =~= Seq::<char>::empty());
            }
            assert(out@ =~= head_start + joined(headers.take(h as int + 1), " & "@));
        }
        h += 1;
    }
    proof {
        assert(headers.take(data.factors as int) =~= headers);
    }
    out.append(" \\\\\n");
    out.append("\\hline\n");
    let ghost m = data.data.deep_view();
    let ghost body_start = out@;
    let mut r: usize = 0;
    let runs = data.data.len();
    while r < runs
        invariant
            r <= runs,
            runs == m.len(),
            m == data.data.deep_view(),
            out@ == body_start + latex_body(m.take(r as int)),
        decreases runs - r,
    {
        proof {
            lemma_mat_index(data.data, r as int);
        }
        append_joined_cells(&mut out, &data.data[r], " & ");
        out.append(" \\\\\n");
        proof {
            crate::model::lemma_take_succ(m, r as int);
            assert(m.take(r as int + 1).drop_last() == m.take(r as int));
            assert(row_cells(m[r as int]) =~= row_cells(data.data@[r as int]@));
            assert(out@ =~= body_start + latex_body(m.take(r as int + 1)));
        }
        r += 1;
    }
    proof {
        assert(m.take(runs as int) =~= m);
    }
    out.append("\\hline\n");
    out.append("\\end{tabular}\n");
    out.append("\n% OA(");
    out.append(dec_usize(data.runs).as_str());
    out.append(", ");
    out.append(dec_usize(data.factors).as_str());
    out.append(", ");
    if data.levels.len() == 1 {
        out.append(dec_u32(data.levels[0]).as_str());
    } else {
        out.append("(");
        append_joined_cells(&mut out, &data.levels, ",");
        out.append(")");
    }
    out.append(", ");
    out.append(dec_u32(data.strength).as_str());
    out.append(")\n");
    match &data.metadata.name {
        Some(n) => {
            out.append("% Name: ");
            out.append(n.as_str());
            out.append("\n");
        },
        None => {},
    }
    out.append("% Algorithm: ");
    out.append(data.metadata.algorithm.as_str());
    out.append("\n");
    proof {
        assert(out@ =~= latex_text(
            m,
            data.runs as nat,
            data.factors as nat,
            data.levels@,
            data.strength,
            match data.metadata.name {
                Some(n) => Some(n@),
                None => None,
            },
            data.metadata.algorithm@,
        ));
    }
    Ok(out)
}

} // verus!
