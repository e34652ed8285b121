use oa_engine::parse::{parse_csv_line, parse_csv_lines};

fn lines(v: &[&str]) -> Vec<String> {
    v.iter().map(|s| s.to_string()).collect()
}

#[test]
fn parses_a_plain_line() {
    assert_eq!(parse_csv_line("0,1,2").unwrap(), vec![0, 1, 2]);
}

#[test]
fn trims_and_accepts_a_plus_sign() {
    assert_eq!(parse_csv_line(" 12 ,\t+3").unwrap(), vec![12, 3]);
}

#[test]
fn quotes_the_raw_field_on_a_bad_digit() {
    assert_eq!(
        parse_csv_line("1, x2").unwrap_err(),
        "Invalid value ' x2': invalid digit found in string"
    );
    assert_eq!(
        parse_csv_line("+").unwrap_err(),
        "Invalid value '+': invalid digit found in string"
    );
}

#[test]
fn reports_empty_and_oversized_fields() {
    assert_eq!(
        parse_csv_line("1,,2").unwrap_err(),
        "Invalid value '': cannot parse integer from empty string"
    );
    assert_eq!(
        parse_csv_line("4294967295").unwrap(),
        vec![u32::MAX]
    );
    assert_eq!(
        parse_csv_line("4294967296").unwrap_err(),
        "Invalid value '4294967296': number too large to fit in target type"
    );
}

#[test]
fn skips_a_header_line() {
    let d = parse_csv_lines(&lines(&["Factor1,Factor2", "0,1", "1,0"])).unwrap();
    assert_eq!(d, vec![vec![0, 1], vec![1, 0]]);
}

#[test]
fn keeps_a_numeric_first_line() {
    let d = parse_csv_lines(&lines(&["0,1", "1,0"])).unwrap();
    assert_eq!(d, vec![vec![0, 1], vec![1, 0]]);
}

#[test]
fn skips_blank_lines() {
    let d = parse_csv_lines(&lines(&["0,1", "   ", "1,0"])).unwrap();
    assert_eq!(d, vec![vec![0, 1], vec![1, 0]]);
}

#[test]
fn rejects_inconsistent_row_lengths() {
    assert_eq!(
        parse_csv_lines(&lines(&["0,1", "1,0,1"])).unwrap_err(),
        "Inconsistent row length: expected 2, got 3"
    );
}

#[test]
fn propagates_a_bad_value_after_the_header() {
    assert_eq!(
        parse_csv_lines(&lines(&["Factor1", "0", "oops"])).unwrap_err(),
        "Invalid value 'oops': invalid digit found in string"
    );
}

#[test]
fn rejects_when_nothing_remains() {
    assert_eq!(
        parse_csv_lines(&lines(&["Factor1,Factor2"])).unwrap_err(),
        "No data found in file"
    );
    assert_eq!(parse_csv_lines(&lines(&[])).unwrap_err(), "No data found in file");
}
