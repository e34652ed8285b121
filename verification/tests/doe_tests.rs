use oa_engine::doe::{prepare_doe_analysis, DoeError};

fn array() -> Vec<Vec<u32>> {
    vec![vec![0, 0], vec![0, 1], vec![1, 0], vec![1, 1]]
}

#[test]
fn mismatched_row_counts_fail() {
    let r = prepare_doe_analysis(&array(), 3, 2, 2);
    assert_eq!(r.unwrap_err(), DoeError::RowCountMismatch);
    assert_eq!(
        DoeError::RowCountMismatch.message(),
        "Array data and response data must have same number of runs"
    );
}

#[test]
fn empty_array_fails_first() {
    let r = prepare_doe_analysis(&vec![], 0, 0, 0);
    assert_eq!(r.unwrap_err(), DoeError::EmptyArray);
    assert_eq!(DoeError::EmptyArray.message(), "Array data is empty");
}

#[test]
fn empty_response_fails() {
    let r = prepare_doe_analysis(&array(), 0, 2, 2);
    assert_eq!(r.unwrap_err(), DoeError::EmptyResponse);
    assert_eq!(DoeError::EmptyResponse.message(), "Response data is empty");
}

#[test]
fn factor_id_count_must_match_columns() {
    let r = prepare_doe_analysis(&array(), 4, 3, 2);
    assert_eq!(r.unwrap_err(), DoeError::FactorIdCount);
    assert_eq!(
        DoeError::FactorIdCount.message(),
        "Number of factor IDs must match number of columns"
    );
}

#[test]
fn factor_name_count_must_match_columns() {
    let r = prepare_doe_analysis(&array(), 4, 2, 1);
    assert_eq!(r.unwrap_err(), DoeError::FactorNameCount);
    assert_eq!(
        DoeError::FactorNameCount.message(),
        "Number of factor names must match number of columns"
    );
}

#[test]
fn ragged_rows_fail_with_the_row_error() {
    let data = vec![vec![0, 1], vec![0]];
    let r = prepare_doe_analysis(&data, 2, 2, 2);
    assert_eq!(r.unwrap_err(), DoeError::RaggedRow(1, 1, 2));
    assert_eq!(
        DoeError::RaggedRow(1, 1, 2).message(),
        "Row 1 has 1 columns, expected 2"
    );
}

#[test]
fn levels_are_distinct_value_counts() {
    let data = vec![vec![0, 1], vec![1, 0], vec![2, 1], vec![0, 0]];
    let levels = prepare_doe_analysis(&data, 4, 2, 2).unwrap();
    assert_eq!(levels, vec![3, 2]);
}
