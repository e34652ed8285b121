use oa_engine::correlation::{get_correlation_matrix, CorrelationCell};
use oa_engine::ingest::ArrayError;

fn coefficient(cell: &CorrelationCell) -> f64 {
    match cell {
        CorrelationCell::Diagonal => 1.0,
        CorrelationCell::Degenerate => 0.0,
        CorrelationCell::Ratio {
            numerator,
            variance_i,
            variance_j,
        } => (*numerator as f64) / (((*variance_i as f64) * (*variance_j as f64)).sqrt()),
    }
}

#[test]
fn diagonal_is_exactly_one() {
    let data = vec![vec![0, 1, 0], vec![1, 0, 1], vec![0, 1, 1], vec![1, 0, 0]];
    let g = get_correlation_matrix(data).unwrap();
    assert_eq!(g.factors, 3);
    for i in 0..3 {
        assert_eq!(g.cells[i][i], CorrelationCell::Diagonal);
        assert_eq!(coefficient(&g.cells[i][i]), 1.0);
    }
}

#[test]
fn anti_correlated_pair_is_minus_one() {
    let data = vec![vec![0, 1], vec![1, 0], vec![0, 1], vec![1, 0]];
    let g = get_correlation_matrix(data).unwrap();
    match g.cells[0][1] {
        CorrelationCell::Ratio {
            numerator,
            variance_i,
            variance_j,
        } => {
            assert_eq!(numerator, -4);
            assert_eq!(variance_i, 4);
            assert_eq!(variance_j, 4);
        }
        _ => panic!("expected a ratio cell"),
    }
    assert_eq!(coefficient(&g.cells[0][1]), -1.0);
    assert_eq!(coefficient(&g.cells[1][0]), -1.0);
}

#[test]
fn constant_column_gives_exactly_zero() {
    let data = vec![vec![0, 0], vec![0, 1], vec![0, 0], vec![0, 1]];
    let g = get_correlation_matrix(data).unwrap();
    assert_eq!(g.cells[0][1], CorrelationCell::Degenerate);
    assert_eq!(coefficient(&g.cells[0][1]), 0.0);
}

#[test]
fn coefficients_stay_within_unit_interval() {
    let data = vec![
        vec![0, 2, 1],
        vec![1, 1, 2],
        vec![2, 0, 0],
        vec![0, 1, 1],
        vec![1, 2, 0],
        vec![2, 0, 2],
    ];
    let g = get_correlation_matrix(data).unwrap();
    for i in 0..3 {
        for j in 0..3 {
            let c = coefficient(&g.cells[i][j]);
            assert!(c.is_finite());
            assert!((-1.0..=1.0).contains(&c), "coefficient {} out of range", c);
        }
    }
}

#[test]
fn orthogonal_columns_have_zero_covariance() {
    // L4's first two factors are orthogonal: covariance is exactly 0.
    let data = vec![vec![0, 0, 0], vec![0, 1, 1], vec![1, 0, 1], vec![1, 1, 0]];
    let g = get_correlation_matrix(data).unwrap();
    match g.cells[0][1] {
        CorrelationCell::Ratio { numerator, .. } => assert_eq!(numerator, 0),
        _ => panic!("expected a ratio cell"),
    }
    assert_eq!(coefficient(&g.cells[0][1]), 0.0);
}

#[test]
fn correlation_rejects_malformed_input() {
    assert_eq!(
        get_correlation_matrix(vec![]).unwrap_err(),
        ArrayError::EmptyInput
    );
    assert_eq!(
        get_correlation_matrix(vec![vec![0], vec![0, 1]]).unwrap_err(),
        ArrayError::RaggedRows
    );
}
