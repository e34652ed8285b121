use oa_engine::ingest::{to_validated_array, ArrayError};

#[test]
fn rejects_empty_matrix() {
    let r = to_validated_array(vec![]);
    assert_eq!(r.unwrap_err(), ArrayError::EmptyInput);
}

#[test]
fn rejects_empty_row() {
    let r = to_validated_array(vec![vec![]]);
    assert_eq!(r.unwrap_err(), ArrayError::EmptyFactors);
}

#[test]
fn rejects_ragged_rows() {
    let r = to_validated_array(vec![vec![0, 1], vec![1, 0, 1]]);
    assert_eq!(r.unwrap_err(), ArrayError::RaggedRows);
}

#[test]
fn distinct_error_messages() {
    assert_eq!(ArrayError::EmptyInput.message(), "Array data cannot be empty");
    assert_eq!(
        ArrayError::EmptyFactors.message(),
        "Array must have at least one factor"
    );
    assert_eq!(
        ArrayError::RaggedRows.message(),
        "All rows must have the same number of columns"
    );
}

#[test]
fn infers_levels_from_max_value() {
    let a = to_validated_array(vec![vec![0, 1], vec![1, 0], vec![2, 1]]).unwrap();
    assert_eq!(a.levels, vec![3, 2]);
    assert_eq!(a.data.len(), 3);
}

#[test]
fn gap_in_values_shrinks_inferred_levels() {
    let a = to_validated_array(vec![vec![0, 2]]).unwrap();
    assert_eq!(a.levels, vec![1, 3]);
}
