use oa_engine::advisor::{
    build_oa, detect_algorithm, get_available_constructions, get_construction_constraints,
    get_construction_description, validate_build_params,
};
use oa_engine::types::{BuildRequest, LevelSpec};

#[test]
fn classifies_hadamard_sylvester() {
    assert_eq!(detect_algorithm(8, 4, 2), "Hadamard-Sylvester");
    assert_eq!(detect_algorithm(16, 15, 2), "Hadamard-Sylvester");
}

#[test]
fn classifies_hadamard_paley() {
    // 12 runs: not a power of two, 11 is prime.
    assert_eq!(detect_algorithm(12, 11, 2), "Hadamard-Paley");
}

#[test]
fn classifies_bose() {
    assert_eq!(detect_algorithm(9, 4, 3), "Bose");
    assert_eq!(detect_algorithm(25, 6, 5), "Bose");
}

#[test]
fn classifies_addelman_kempthorne() {
    assert_eq!(detect_algorithm(18, 7, 3), "Addelman-Kempthorne");
}

#[test]
fn classifies_unknown() {
    assert_eq!(detect_algorithm(10, 3, 3), "Unknown");
}

#[test]
fn descriptions_for_known_methods() {
    assert_eq!(
        get_construction_description("Bose"),
        "Primary construction for strength 2 arrays"
    );
    assert_eq!(
        get_construction_description("Hadamard-Paley"),
        "Binary arrays using Paley construction"
    );
    assert_eq!(get_construction_description("anything else"), "Construction method");
}

#[test]
fn constraints_for_known_methods() {
    assert_eq!(
        get_construction_constraints("Bose", 4),
        vec![
            "Requires 4 to be a prime power".to_string(),
            "Max 5 factors".to_string()
        ]
    );
    assert_eq!(
        get_construction_constraints("Hadamard-Sylvester", 2),
        vec![
            "Only for 2 levels".to_string(),
            "Runs must be power of 2".to_string()
        ]
    );
    assert!(get_construction_constraints("anything else", 3).is_empty());
}

#[test]
fn prime_power_parameters_validate_with_suggestions() {
    let r = validate_build_params(BuildRequest {
        levels: LevelSpec::Symmetric(4),
        factors: 5,
        strength: 2,
        min_runs: None,
    });
    assert!(r.valid, "errors: {:?}", r.errors);
    assert!(r.errors.is_empty());
    assert!(r.warnings.is_empty());
    assert!(r.suggestions.iter().any(|s| s.max_factors >= 5));
}

#[test]
fn strength_exceeding_factors_is_an_error() {
    let r = validate_build_params(BuildRequest {
        levels: LevelSpec::Symmetric(4),
        factors: 5,
        strength: 6,
        min_runs: None,
    });
    assert!(!r.valid);
    assert!(r
        .errors
        .iter()
        .any(|e| e == "Strength 6 cannot exceed factors 5"));
    assert!(r.suggestions.is_empty());
}

#[test]
fn empty_mixed_levels_fail_immediately() {
    let r = validate_build_params(BuildRequest {
        levels: LevelSpec::Mixed(vec![]),
        factors: 3,
        strength: 2,
        min_runs: None,
    });
    assert!(!r.valid);
    assert_eq!(r.errors, vec!["At least one level must be specified".to_string()]);
    assert!(r.warnings.is_empty());
    assert!(r.suggestions.is_empty());
}

#[test]
fn low_levels_and_factors_accumulate_errors() {
    let r = validate_build_params(BuildRequest {
        levels: LevelSpec::Symmetric(1),
        factors: 0,
        strength: 1,
        min_runs: None,
    });
    assert!(!r.valid);
    assert!(r.errors.contains(&"Levels must be at least 2".to_string()));
    assert!(r.errors.contains(&"Factors must be at least 1".to_string()));
    assert!(r
        .errors
        .contains(&"Strength 1 cannot exceed factors 0".to_string()));
}

#[test]
fn non_prime_power_levels_warn_and_may_lack_constructions() {
    let r = validate_build_params(BuildRequest {
        levels: LevelSpec::Symmetric(6),
        factors: 3,
        strength: 2,
        min_runs: None,
    });
    assert!(r
        .warnings
        .contains(&"Levels 6 is not a prime power - limited constructions available".to_string()));
    assert!(!r.valid);
    assert!(r
        .errors
        .contains(&"No construction available for 6 levels, 3 factors, strength 2".to_string()));
}

#[test]
fn mixed_levels_use_their_maximum_for_lookup() {
    let r = validate_build_params(BuildRequest {
        levels: LevelSpec::Mixed(vec![2, 3]),
        factors: 2,
        strength: 2,
        min_runs: None,
    });
    // Lookup key is 3, a prime power: no warning.
    assert!(r.warnings.is_empty());
}

#[test]
fn catalogue_entries_are_dressed() {
    let opts = get_available_constructions(3, 2);
    assert!(!opts.is_empty());
    let bose = opts.iter().find(|o| o.name == "Bose").unwrap();
    assert_eq!(bose.runs, 9);
    assert_eq!(bose.max_factors, 4);
    assert_eq!(bose.description, "Primary construction for strength 2 arrays");
    assert_eq!(
        bose.constraints,
        vec![
            "Requires 3 to be a prime power".to_string(),
            "Max 4 factors".to_string()
        ]
    );
}

#[test]
fn built_bose_array_classifies_back_to_bose() {
    let oa = build_oa(&BuildRequest {
        levels: LevelSpec::Symmetric(3),
        factors: 4,
        strength: 2,
        min_runs: None,
    })
    .unwrap();
    assert_eq!(oa.runs, 9);
    assert_eq!(oa.factors, 4);
    assert_eq!(oa.metadata.algorithm, "Bose");
    assert_eq!(oa.id.len(), 36);
}

#[test]
fn built_binary_array_classifies_back_to_hadamard_sylvester() {
    let oa = build_oa(&BuildRequest {
        levels: LevelSpec::Symmetric(2),
        factors: 7,
        strength: 2,
        min_runs: None,
    })
    .unwrap();
    assert_eq!(oa.runs, 8);
    assert_eq!(oa.metadata.algorithm, "Hadamard-Sylvester");
}

#[test]
fn infeasible_build_fails() {
    let r = build_oa(&BuildRequest {
        levels: LevelSpec::Symmetric(3),
        factors: 0,
        strength: 2,
        min_runs: None,
    });
    assert!(r.is_err());
}
