use oa_engine::balance::get_balance_report;
use oa_engine::ingest::ArrayError;

#[test]
fn balanced_uniform_array_reports_balanced() {
    // L4: 4 runs, 3 two-level factors, truly balanced: expected count 4/2.
    let data = vec![vec![0, 0, 0], vec![0, 1, 1], vec![1, 0, 1], vec![1, 1, 0]];
    let b = get_balance_report(data).unwrap();
    assert_eq!(b.factor_balance, vec![true, true, true]);
    assert_eq!(b.expected_count, 2);
    for counts in &b.level_counts {
        assert_eq!(counts, &vec![2, 2]);
    }
}

#[test]
fn unbalanced_factor_is_flagged() {
    let data = vec![vec![0, 0], vec![0, 1], vec![0, 1], vec![1, 0]];
    let b = get_balance_report(data).unwrap();
    assert_eq!(b.factor_balance, vec![false, true]);
    assert_eq!(b.level_counts[0], vec![3, 1]);
    assert_eq!(b.level_counts[1], vec![2, 2]);
}

#[test]
fn expected_count_comes_from_factor_zero() {
    // Mixed levels: factor 0 has 4 levels, factor 1 has 2.
    let data = vec![vec![0, 0], vec![1, 1], vec![2, 0], vec![3, 1]];
    let b = get_balance_report(data).unwrap();
    assert_eq!(b.expected_count, 1);
    assert_eq!(b.factor_balance, vec![true, true]);
}

#[test]
fn balance_report_rejects_malformed_input() {
    assert_eq!(
        get_balance_report(vec![]).unwrap_err(),
        ArrayError::EmptyInput
    );
    assert_eq!(
        get_balance_report(vec![vec![]]).unwrap_err(),
        ArrayError::EmptyFactors
    );
    assert_eq!(
        get_balance_report(vec![vec![0], vec![0, 1]]).unwrap_err(),
        ArrayError::RaggedRows
    );
}
