use oa_engine::verification::{classify_issue, compute_array_strength, contains_str, verify_array};

fn l4() -> Vec<Vec<u32>> {
    vec![vec![0, 0, 0], vec![0, 1, 1], vec![1, 0, 1], vec![1, 1, 0]]
}

#[test]
fn valid_array_verifies() {
    let r = verify_array(l4(), 2).unwrap();
    assert!(r.is_valid);
    assert_eq!(r.claimed_strength, 2);
    assert_eq!(r.actual_strength, 2);
    assert!(r.issues.is_empty());
}

#[test]
fn imbalanced_array_reports_balance_violations() {
    let data = vec![vec![0, 0, 0], vec![0, 0, 0], vec![1, 0, 1], vec![1, 1, 0]];
    let r = verify_array(data, 2).unwrap();
    assert!(!r.is_valid);
    assert!(!r.issues.is_empty());
    for issue in &r.issues {
        assert_eq!(issue.issue_type, "Balance Violation");
        assert!(issue.location.is_none());
    }
}

#[test]
fn verify_rejects_malformed_input() {
    assert_eq!(
        verify_array(vec![], 2).unwrap_err(),
        "Array data cannot be empty"
    );
    assert_eq!(
        verify_array(vec![vec![]], 2).unwrap_err(),
        "Array must have at least one factor"
    );
    assert_eq!(
        verify_array(vec![vec![0], vec![0, 1]], 2).unwrap_err(),
        "All rows must have the same number of columns"
    );
}

#[test]
fn single_factor_array_is_refused_by_the_verifier() {
    assert!(verify_array(vec![vec![0], vec![1]], 1).is_err());
}

#[test]
fn issue_texts_classify_by_marker() {
    let a = classify_issue("ValueOutOfRange { row: 0, col: 1, value: 9, max: 1 }".to_string());
    assert_eq!(a.issue_type, "Value Out of Range");
    assert_eq!(
        a.description,
        "ValueOutOfRange { row: 0, col: 1, value: 9, max: 1 }"
    );
    let b = classify_issue("ImbalancedSubarray { columns: [0, 1] }".to_string());
    assert_eq!(b.issue_type, "Balance Violation");
}

#[test]
fn substring_search_matches_exactly() {
    assert!(contains_str("abcValueOutOfRangexyz", "ValueOutOfRange"));
    assert!(!contains_str("ValueOutOf", "ValueOutOfRange"));
    assert!(contains_str("anything", ""));
    assert!(!contains_str("", "a"));
}

#[test]
fn strength_is_computed_up_to_the_ceiling() {
    assert_eq!(compute_array_strength(l4(), 10).unwrap(), 2);
    assert_eq!(compute_array_strength(l4(), 1).unwrap(), 1);
}

#[test]
fn strength_computation_rejects_malformed_input() {
    assert_eq!(
        compute_array_strength(vec![], 2).unwrap_err(),
        "Array data cannot be empty"
    );
}
