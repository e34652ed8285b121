//! CSV import parsing: already-split text lines become a level matrix, with
//! the numeric field grammar (optional plus sign, decimal digits, 32-bit
//! range), header skipping, blank-line skipping, and every rejection message
//! specified exactly. Splitting the file into lines, and the file read
//! itself, stay outside.

use vstd::prelude::*;
use crate::numfmt::{dec_rep, dec_usize};

verus! {

/// The whitespace trimmed from a field before parsing.
pub open spec fn is_ws(c: char) -> bool {
    c == ' ' || c == '\t' || c == '\r' || c == '\n' || c == '\u{b}' || c == '\u{c}'
}

/// `s` without leading whitespace.
pub open spec fn trim_start(s: Seq<char>) -> Seq<char>
    decreases s.len(),
{
    if s.len() > 0 && is_ws(s[0]) {
        trim_start(s.skip(1))
    } else {
        s
    }
}

/// `s` without trailing whitespace.
pub open spec fn trim_end(s: Seq<char>) -> Seq<char>
    decreases s.len(),
{
    if s.len() > 0 && is_ws(s.last()) {
        trim_end(s.drop_last())
    } else {
        s
    }
}

/// `s` without leading or trailing whitespace.
pub open spec fn spec_trim(s: Seq<char>) -> Seq<char> {
    trim_end(trim_start(s))
}

/// A decimal digit.
pub open spec fn is_digit(c: char) -> bool {
    '0' <= c && c <= '9'
}

/// The value of a decimal digit.
pub open spec fn digit_of(c: char) -> nat {
    (c as int - '0' as int) as nat
}

/// How a numeric field parses: a value, or one of the three failures the
/// standard integer grammar distinguishes.
#[derive(Debug, Clone, Copy, PartialEq, Eq, Structural)]
pub enum NumParse {
    /// The parsed value.
    Value(u32),
    /// The field was empty after trimming.
    EmptyText,
    /// A character that is not a decimal digit, or a bare sign.
    BadDigit,
    /// The digits name a value beyond 32 bits.
    TooLarge,
}

/// Scan decimal digits left to right, accumulating; overflow is detected as
/// soon as the accumulator leaves 32-bit range, before any later character
/// is looked at.
pub open spec fn scan_digits(t: Seq<char>, acc: nat) -> NumParse
    decreases t.len(),
{
    if acc > u32::MAX {
        NumParse::TooLarge
    } else if t.len() == 0 {
        NumParse::Value(acc as u32)
    } else if !is_digit(t[0]) {
        NumParse::BadDigit
    } else {
        scan_digits(t.skip(1), acc * 10 + digit_of(t[0]))
    }
}

/// Parse one field: trim, allow one leading plus sign, then decimal digits.
pub open spec fn spec_parse_field(s: Seq<char>) -> NumParse {
    let t = spec_trim(s);
    if t.len() == 0 {
        NumParse::EmptyText
    } else {
        let u = if t[0] == '+' {
            t.skip(1)
        } else {
            t
        };
        if u.len() == 0 {
            NumParse::BadDigit
        } else {
            scan_digits(u, 0)
        }
    }
}

/// The failure text of each parse failure, as the standard integer parser
/// words it.
pub open spec fn parse_fail_text(kind: NumParse) -> Seq<char> {
    match kind {
        NumParse::EmptyText => "cannot parse integer from empty string"@,
        NumParse::TooLarge => "number too large to fit in target type"@,
        _ => "invalid digit found in string"@,
    }
}

/// "Invalid value 'RAW': FAILURE", quoting the raw untrimmed field.
pub open spec fn invalid_value_text(raw: Seq<char>, kind: NumParse) -> Seq<char> {
    "Invalid value '"@ + raw + "': "@ + parse_fail_text(kind)
}

/// "Inconsistent row length: expected E, got G".
pub open spec fn row_mismatch_text(expected: nat, got: nat) -> Seq<char> {
    "Inconsistent row length: expected "@ + dec_rep(expected) + ", got "@ + dec_rep(got)
}

/// `s` split on `sep`: one more piece than separators, empty pieces kept.
pub open spec fn split_on(s: Seq<char>, sep: char) -> Seq<Seq<char>>
    decreases s.len(),
{
    if s.len() == 0 {
        seq![s]
    } else if s[0] == sep {
        seq![Seq::<char>::empty()] + split_on(s.skip(1), sep)
    } else {
        let rest = split_on(s.skip(1), sep);
        seq![seq![s[0]] + rest[0]] + rest.skip(1)
    }
}

/// A split is never empty.
pub proof fn lemma_split_nonempty(s: Seq<char>, sep: char)
    ensures
        split_on(s, sep).len() >= 1,
    decreases s.len(),
{
    if s.len() > 0 {
        lemma_split_nonempty(s.skip(1), sep);
    }
}

/// The first piece of a split runs to the first separator (or the end).
pub proof fn lemma_split_prefix(u: Seq<char>, j: int, sep: char)
    requires
        0 <= j <= u.len(),
        forall|k: int| 0 <= k < j ==> u[k] != sep,
    ensures
        j == u.len() ==> split_on(u, sep) =~~= seq![u],
        j < u.len() && u[j] == sep ==> split_on(u, sep) =~~= seq![u.take(j)] + split_on(
            u.skip(j + 1),
            sep,
        ),
    decreases j,
{
    lemma_split_nonempty(u, sep);
    if j == 0 {
        if 0 < u.len() && u[0] == sep {
            assert(u.take(0) =~= Seq::<char>::empty());
        }
    } else {
        let v = u.skip(1);
        lemma_split_nonempty(v, sep);
        lemma_split_prefix(v, j - 1, sep);
        let rest = split_on(v, sep);
        if j == u.len() {
            assert(rest =~~= seq![v]);
            assert(seq![u[0]] + rest[0] =~= u);
            assert(rest.skip(1) =~= Seq::<Seq<char>>::empty());
            assert(split_on(u, sep) =~~= seq![u]);
        } else if u[j] == sep {
            assert(v[j - 1] == sep);
            assert(rest =~~= seq![v.take(j - 1)] + split_on(v.skip(j), sep));
            assert(seq![u[0]] + rest[0] =~= u.take(j));
            assert(v.skip(j) =~= u.skip(j + 1));
            assert(rest.skip(1) =~~= split_on(u.skip(j + 1), sep));
            assert(split_on(u, sep) =~~= seq![u.take(j)] + split_on(u.skip(j + 1), sep));
        }
    }
}

/// The value of a field that parses.
pub open spec fn field_value(f: Seq<char>) -> u32 {
    match spec_parse_field(f) {
        NumParse::Value(v) => v,
        _ => 0u32,
    }
}

/// Every field of the line parses.
pub open spec fn all_fields_ok(fields: Seq<Seq<char>>) -> bool {
    forall|i: int| 0 <= i < fields.len() ==> spec_parse_field(#[trigger] fields[i]) is Value
}

/// The parsed values of a line's fields.
pub open spec fn row_of_fields(fields: Seq<Seq<char>>) -> Seq<u32> {
    Seq::new(fields.len(), |i: int| field_value(fields[i]))
}

/// The first field that fails to parse, searching from `i`; the field count
/// when all parse.
pub open spec fn first_bad_field(fields: Seq<Seq<char>>, i: nat) -> nat
    decreases fields.len() - i,
{
    if i >= fields.len() {
        fields.len() as nat
    } else if !(spec_parse_field(fields[i as int]) is Value) {
        i
    } else {
        first_bad_field(fields, i + 1)
    }
}

/// Searching from the start or from past a clean prefix finds the same field.
proof fn lemma_first_bad_field(fields: Seq<Seq<char>>, i: nat)
    requires
        i <= fields.len(),
        forall|k: int| 0 <= k < i ==> spec_parse_field(#[trigger] fields[k]) is Value,
    ensures
        first_bad_field(fields, 0) == first_bad_field(fields, i),
    decreases i,
{
    if i > 0 {
        lemma_first_bad_field(fields, (i - 1) as nat);
        assert(spec_parse_field(fields[i - 1]) is Value);
    }
}

/// Find where the whitespace prefix of `s` ends, from position `i`.
proof fn lemma_trim_start_skip(s: Seq<char>, i: int)
    requires
        0 <= i <= s.len(),
        forall|k: int| 0 <= k < i ==> is_ws(s[k]),
    ensures
        trim_start(s) == trim_start(s.skip(i)),
    decreases i,
{
    if i == 0 {
        assert(s.skip(0) =~= s);
    } else {
        lemma_trim_start_skip(s, i - 1);
        assert(is_ws(s[i - 1]));
        let v = s.skip(i - 1);
        assert(v.len() > 0 && is_ws(v[0]));
        assert(trim_start(v) == trim_start(v.skip(1)));
        assert(v.skip(1) =~= s.skip(i));
    }
}

/// Dropping a whitespace suffix keeps the trimmed tail.
proof fn lemma_trim_end_take(s: Seq<char>, j: int)
    requires
        0 <= j <= s.len(),
        forall|k: int| j <= k < s.len() ==> is_ws(s[k]),
    ensures
        trim_end(s) == trim_end(s.take(j)),
    decreases s.len() - j,
{
    if j == s.len() {
        assert(s.take(j) =~= s);
    } else {
        assert(is_ws(s.last()));
        assert(trim_end(s) == trim_end(s.drop_last()));
        assert(s.drop_last() =~= s.take(s.len() - 1));
        lemma_trim_end_take(s.take(s.len() - 1), j);
        assert(s.take(s.len() - 1).take(j) =~= s.take(j));
    }
}

/// Parse one raw field.
fn parse_field(field: &str) -> (r: NumParse)
    ensures
        r == spec_parse_field(field@),
{
    let n = field.unicode_len();
    let ghost s = field@;
    let mut start: usize = 0;
    let mut scanning = true;
    while scanning && start < n
        invariant
            s == field@,
            n == s.len(),
            start <= n,
            forall|k: int| 0 <= k < start ==> is_ws(s[k]),
            !scanning ==> start < n && !is_ws(s[start as int]),
        decreases n - start + (if scanning {
            1int
        } else {
            0int
        }),
    {
        if is_ws_exec(field.get_char(start)) {
            start += 1;
        } else {
            scanning = false;
        }
    }
    let mut end: usize = n;
    let mut scanning_back = true;
    while scanning_back && end > start
        invariant
            s == field@,
            n == s.len(),
            start <= end <= n,
            forall|k: int| end <= k < n ==> is_ws(s[k]),
            !scanning_back ==> end > start && !is_ws(s[end - 1]),
        decreases end + (if scanning_back {
            1int
        } else {
            0int
        }),
    {
        if is_ws_exec(field.get_char(end - 1)) {
            end -= 1;
        } else {
            scanning_back = false;
        }
    }
    proof {
        lemma_trim_start_skip(s, start as int);
        if start == n {
            assert(s.skip(start as int).len() == 0);
        } else {
            assert(!is_ws(s.skip(start as int)[0]));
        }
        assert(trim_start(s) =~= s.skip(start as int));
        let w = s.skip(start as int);
        lemma_trim_end_take(w, end - start);
        if end > start {
            assert(!is_ws(w.take(end - start).last()));
        }
        assert(trim_end(w.take(end - start)) =~= w.take(end - start));
        assert(spec_trim(s) =~= s.subrange(start as int, end as int));
    }
    if start == end {
        return NumParse::EmptyText;
    }
    let mut p = start;
    if field.get_char(p) == '+' {
        p += 1;
        if p == end {
            proof {
                assert(spec_trim(s)[0] == '+');
                assert(spec_trim(s).skip(1).len() == 0);
            }
            return NumParse::BadDigit;
        }
    }
    let ghost u = s.subrange(p as int, end as int);
    proof {
        if s[start as int] == '+' {
            assert(u =~= spec_trim(s).skip(1));
        } else {
            assert(u =~= spec_trim(s));
        }
        assert(u.skip(0) =~= u);
        assert(spec_parse_field(s) == scan_digits(u, 0));
    }
    let mut acc: u64 = 0;
    let mut j = p;
    while j < end
        invariant
            s == field@,
            n == s.len(),
            p <= j <= end <= n,
            u == s.subrange(p as int, end as int),
            spec_parse_field(s) == scan_digits(u, 0),
            acc <= u32::MAX,
            scan_digits(u, 0) == scan_digits(u.skip(j - p), acc as nat),
        decreases end - j,
    {
        let c = field.get_char(j);
        proof {
            assert(u.skip(j - p)[0] == s[j as int]);
        }
        if c < '0' || c > '9' {
            proof {
                assert(scan_digits(u.skip(j - p), acc as nat) == NumParse::BadDigit);
            }
            return NumParse::BadDigit;
        }
        let d = (c as u32) - 48;
        let next: u64 = acc * 10 + (d as u64);
        proof {
            assert(d == digit_of(s[j as int]));
            assert(u.skip(j - p).skip(1) =~= u.skip(j - p + 1));
        }
        if next > 0xFFFF_FFFFu64 {
            proof {
                assert(scan_digits(u.skip(j - p + 1), next as nat) == NumParse::TooLarge);
            }
            return NumParse::TooLarge;
        }
        acc = next;
        j += 1;
    }
    proof {
        assert(u.skip(end - p).len() == 0);
        assert(scan_digits(u.skip(end - p), acc as nat) == NumParse::Value(acc as u32));
    }
    NumParse::Value(acc as u32)
}

/// Whitespace test matching `is_ws`.
fn is_ws_exec(c: char) -> (r: bool)
    ensures
        r == is_ws(c),
{
    c == ' ' || c == '\t' || c == '\r' || c == '\n' || c == '\u{b}' || c == '\u{c}'
}

/// Parse one comma-separated line into its level values.
///
/// Fails on the first field that is not a decimal number, quoting the raw
/// field and the grammar failure.
pub fn parse_csv_line(line: &str) -> (r: Result<Vec<u32>, String>)
    ensures
        ({
            let fields = split_on(line@, ',');
            &&& (all_fields_ok(fields) <==> r is Ok)
            &&& (r matches Ok(row) ==> row@ == row_of_fields(fields))
            &&& (r matches Err(msg) ==> msg@ == invalid_value_text(
                fields[first_bad_field(fields, 0) as int],
                spec_parse_field(fields[first_bad_field(fields, 0) as int]),
            ))
        }),
{
    let ghost s = line@;
    let ghost fields = split_on(s, ',');
    let n = line.unicode_len();
    let mut row: Vec<u32> = Vec::new();
    let mut pos: usize = 0;
    proof {
        assert(s.skip(0) =~= s);
        assert(fields =~~= fields.take(0) + split_on(s.skip(0), ','));
    }
    let mut done = false;
    while !done
        invariant
            s == line@,
            n == s.len(),
            fields == split_on(s, ','),
            pos <= n,
            row@.len() <= fields.len(),
            forall|i: int|
                0 <= i < row@.len() ==> spec_parse_field(#[trigger] fields[i]) is Value && row@[i]
                    == field_value(fields[i]),
            !done ==> fields =~~= fields.take(row@.len() as int) + split_on(
                s.skip(pos as int),
                ',',
            ),
            done ==> row@.len() == fields.len(),
        decreases n - pos + (if done {
            0int
        } else {
            1int
        }),
    {
        let ghost k = row@.len() as int;
        let mut j = pos;
        let mut seeking = true;
        while seeking && j < n
            invariant
                s == line@,
                n == s.len(),
                pos <= j <= n,
                forall|t: int| pos <= t < j ==> s[t] != ',',
                !seeking ==> j < n && s[j as int] == ',',
            decreases n - j + (if seeking {
                1int
            } else {
                0int
            }),
        {
            if line.get_char(j) == ',' {
                seeking = false;
            } else {
                j += 1;
            }
        }
        let ghost suffix = s.skip(pos as int);
        proof {
            lemma_split_nonempty(suffix, ',');
            assert forall|t: int| 0 <= t < j - pos implies suffix[t] != ',' by {
                assert(suffix[t] == s[pos + t]);
            }
            if j < n {
                assert(suffix[j - pos] == s[j as int]);
            }
            lemma_split_prefix(suffix, j - pos, ',');
            if j == n {
                assert(suffix.take(j - pos) =~= suffix);
                assert(split_on(suffix, ',') =~~= seq![suffix]);
            }
            assert(split_on(suffix, ',')[0] =~= suffix.take(j - pos));
            assert(fields[k] =~= suffix.take(j - pos));
        }
        let piece = line.substring_char(pos, j);
        proof {
            assert(piece@ =~= suffix.take(j - pos));
        }
        let np = parse_field(piece);
        match np {
            NumParse::Value(v) => {
                row.push(v);
            },
            bad => {
                let mut msg = String::from_str("Invalid value '");
                msg.append(piece);
                msg.append("': ");
                match bad {
                    NumParse::EmptyText => msg.append("cannot parse integer from empty string"),
                    NumParse::TooLarge => msg.append("number too large to fit in target type"),
                    _ => msg.append("invalid digit found in string"),
                }
                proof {
                    lemma_first_bad_field(fields, k as nat);
                    assert(first_bad_field(fields, k as nat) == k as nat);
                    assert(msg@ =~= invalid_value_text(fields[k], spec_parse_field(fields[k])));
                }
                return Err(msg);
            },
        }
        proof {
            assert(fields.take(k + 1) =~~= fields.take(k).push(fields[k]));
            if j < n {
                assert(split_on(suffix, ',') =~~= seq![suffix.take(j - pos)] + split_on(
                    suffix.skip(j - pos + 1),
                    ',',
                ));
                assert(suffix.skip(j - pos + 1) =~= s.skip(j + 1));
                assert(fields =~~= fields.take(k + 1) + split_on(s.skip(j + 1), ','));
            } else {
                assert(split_on(suffix, ',') =~~= seq![suffix.take(j - pos)]);
                assert(fields =~~= fields.take(k + 1));
                assert(fields.len() == k + 1);
            }
        }
        if j == n {
            done = true;
        } else {
            pos = j + 1;
        }
    }
    proof {
        assert(all_fields_ok(fields));
        assert(row@ =~= row_of_fields(fields));
    }
    Ok(row)
}

/// Whether a line is blank after trimming.
fn is_blank(line: &str) -> (r: bool)
    ensures
        r == (spec_trim(line@).len() == 0),
{
    let n = line.unicode_len();
    let ghost s = line@;
    let mut i: usize = 0;
    let mut blank = true;
    while blank && i < n
        invariant
            s == line@,
            n == s.len(),
            i <= n,
            blank ==> forall|k: int| 0 <= k < i ==> is_ws(s[k]),
            !blank ==> i < n && !is_ws(s[i as int]) && forall|k: int| 0 <= k < i ==> is_ws(s[k]),
        decreases n - i + (if blank {
            1int
        } else {
            0int
        }),
    {
        if is_ws_exec(line.get_char(i)) {
            i += 1;
        } else {
            blank = false;
        }
    }
    proof {
        lemma_trim_start_skip(s, i as int);
        if blank {
            assert(s.skip(i as int).len() == 0);
            assert(trim_start(s) =~= s.skip(i as int));
            assert(spec_trim(s).len() == 0);
        } else {
            let u = s.skip(i as int);
            assert(!is_ws(u[0]));
            assert(trim_start(s) == u);
            lemma_trim_end_keeps_head(u);
        }
    }
    blank
}

/// Trimming from the right keeps a non-whitespace head.
proof fn lemma_trim_end_keeps_head(u: Seq<char>)
    requires
        u.len() > 0,
        !is_ws(u[0]),
    ensures
        trim_end(u).len() > 0,
    decreases u.len(),
{
    if is_ws(u.last()) {
        assert(u.len() >= 2);
        assert(u.drop_last()[0] == u[0]);
        lemma_trim_end_keeps_head(u.drop_last());
    }
}

/// Process the lines from index `i` with the rows gathered so far: the
/// first line is silently skipped as a header unless every field parses;
/// later blank lines are skipped; a later bad field or a row shorter or
/// longer than the first gathered row is fatal; gathering nothing at all is
/// fatal.
pub open spec fn spec_parse_csv(ls: Seq<Seq<char>>, i: int, acc: Seq<Seq<u32>>) -> Result<
    Seq<Seq<u32>>,
    Seq<char>,
>
    decreases ls.len() - i,
{
    if i < 0 || i >= ls.len() {
        if acc.len() == 0 {
            Err("No data found in file"@)
        } else {
            Ok(acc)
        }
    } else if i == 0 {
        if all_fields_ok(split_on(ls[0], ',')) {
            spec_parse_csv(ls, 1, acc.push(row_of_fields(split_on(ls[0], ','))))
        } else {
            spec_parse_csv(ls, 1, acc)
        }
    } else if spec_trim(ls[i]).len() == 0 {
        spec_parse_csv(ls, i + 1, acc)
    } else {
        let fields = split_on(ls[i], ',');
        if !all_fields_ok(fields) {
            Err(invalid_value_text(
                fields[first_bad_field(fields, 0) as int],
                spec_parse_field(fields[first_bad_field(fields, 0) as int]),
            ))
        } else {
            let row = row_of_fields(fields);
            if acc.len() > 0 && row.len() != acc[0].len() {
                Err(row_mismatch_text(acc[0].len() as nat, row.len() as nat))
            } else {
                spec_parse_csv(ls, i + 1, acc.push(row))
            }
        }
    }
}

/// Parse already-split CSV lines into a level matrix: a non-numeric first
/// line is skipped as a header, blank lines are skipped, every other line
/// must parse with the first gathered row's length, and at least one row
/// must remain.
pub fn parse_csv_lines(lines: &Vec<String>) -> (r: Result<Vec<Vec<u32>>, String>)
    ensures
        ({
            let out = spec_parse_csv(lines.deep_view(), 0, Seq::empty());
            &&& (r is Ok <==> out is Ok)
            &&& (r matches Ok(d) ==> (out matches Ok(o) && d.deep_view() == o))
            &&& (r matches Err(m) ==> (out matches Err(t) && m@ == t))
        }),
{
    let ghost ls = lines.deep_view();
    let mut data: Vec<Vec<u32>> = Vec::new();
    let mut i: usize = 0;
    proof {
        assert(data.deep_view() =~= Seq::<Seq<u32>>::empty());
    }
    while i < lines.len()
        invariant
            ls == lines.deep_view(),
            i <= ls.len(),
            spec_parse_csv(ls, 0, Seq::empty()) == spec_parse_csv(ls, i as int, data.deep_view()),
        decreases ls.len() - i,
    {
        proof {
            assert(ls[i as int] == lines@[i as int].deep_view());
            assert(lines@[i as int].deep_view() =~= lines@[i as int]@);
        }
        let ghost before = data.deep_view();
        let line = &lines[i];
        if i == 0 {
            match parse_csv_line(line.as_str()) {
                Ok(row) => {
                    let ghost rv = row@;
                    data.push(row);
                    proof {
                        assert forall|k: int|
                            0 <= k < data@.len() implies #[trigger] data.deep_view()[k]
                            == data@[k]@ by {
                            assert(data.deep_view()[k] == data@[k].deep_view());
                            assert(data@[k].deep_view() =~= data@[k]@);
                        }
                        assert(data.deep_view() =~= before.push(rv));
                        assert(rv == row_of_fields(split_on(ls[0], ',')));
                    }
                },
                Err(_) => {},
            }
        } else {
            if !is_blank(line.as_str()) {
                match parse_csv_line(line.as_str()) {
                    Ok(row) => {
                        if data.len() > 0 {
                            proof {
                                assert(data.deep_view()[0] =~= data@[0]@);
                            }
                            if row.len() != data[0].len() {
                                let expected = data[0].len();
                                let got = row.len();
                                let mut msg = String::from_str(
                                    "Inconsistent row length: expected ",
                                );
                                msg.append(dec_usize(expected).as_str());
                                msg.append(", got ");
                                msg.append(dec_usize(got).as_str());
                                proof {
                                    assert(msg@ =~= row_mismatch_text(
                                        expected as nat,
                                        got as nat,
                                    ));
                                }
                                return Err(msg);
                            }
                        }
                        let ghost rv = row@;
                        data.push(row);
                        proof {
                            assert forall|k: int|
                                0 <= k < data@.len() implies #[trigger] data.deep_view()[k]
                                == data@[k]@ by {
                                assert(data.deep_view()[k] == data@[k].deep_view());
                                assert(data@[k].deep_view() =~= data@[k]@);
                            }
                            assert(data.deep_view() =~= before.push(rv));
                            assert(rv == row_of_fields(split_on(ls[i as int], ',')));
                        }
                    },
                    Err(m) => {
                        return Err(m);
                    },
                }
            }
        }
        i += 1;
    }
    if data.len() == 0 {
        return Err(String::from_str("No data found in file"));
    }
    Ok(data)
}

} // verus!
