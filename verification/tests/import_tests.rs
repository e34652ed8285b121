use oa_engine::import::{estimate_strength, generate_warnings, validate_import};

#[test]
fn validates_a_balanced_import() {
    let data = vec![vec![0, 0, 0], vec![0, 1, 1], vec![1, 0, 1], vec![1, 1, 0]];
    let v = validate_import(data).unwrap();
    assert_eq!(v.runs, 4);
    assert_eq!(v.factors, 3);
    assert_eq!(v.levels, vec![2, 2, 2]);
    assert!(!v.is_mixed);
    assert_eq!(v.estimated_strength, 2);
    assert!(v.warnings.is_empty());
}

#[test]
fn rejects_empty_import() {
    assert_eq!(validate_import(vec![]).unwrap_err(), "Array data is empty");
}

#[test]
fn names_the_first_ragged_row() {
    let data = vec![vec![0, 1], vec![0, 1, 1]];
    assert_eq!(
        validate_import(data).unwrap_err(),
        "Row 2 has 3 columns, expected 2"
    );
}

#[test]
fn detects_mixed_levels() {
    let data = vec![
        vec![0, 0],
        vec![1, 1],
        vec![2, 0],
        vec![0, 1],
        vec![1, 0],
        vec![2, 1],
    ];
    let v = validate_import(data).unwrap();
    assert_eq!(v.levels, vec![3, 2]);
    assert!(v.is_mixed);
}

#[test]
fn estimates_strength_from_run_count() {
    let two = vec![2u32, 2];
    assert_eq!(estimate_strength(&vec![vec![0, 0]; 8], &two), 3);
    assert_eq!(estimate_strength(&vec![vec![0, 0]; 4], &two), 2);
    assert_eq!(estimate_strength(&vec![vec![0, 0]; 2], &two), 1);
    assert_eq!(estimate_strength(&vec![vec![0, 0]; 7], &vec![]), 2);
}

#[test]
fn warns_about_imbalance_and_tiny_arrays() {
    let data = vec![vec![0, 0], vec![0, 1], vec![1, 0]];
    let w = generate_warnings(&data, &vec![2, 2]);
    assert!(w.contains(&"Factor 1 may not be balanced".to_string()));
    assert!(w.contains(&"Factor 2 may not be balanced".to_string()));
    assert!(w.contains(&"Array has very few runs".to_string()));
}
