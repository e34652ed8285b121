use oa_engine::catalogue::{get_standard_array, list_standard_arrays, search_catalogue};

#[test]
fn lists_all_standard_arrays() {
    let all = list_standard_arrays();
    assert_eq!(all.len(), 14);
    assert_eq!(all[0].name, "L4");
    assert_eq!(all[0].runs, 4);
    assert_eq!(all[0].factors, 3);
    assert_eq!(all[0].levels, 2);
    assert_eq!(all[0].description, "Smallest 2-level array");
    assert_eq!(all[13].name, "L81");
}

#[test]
fn search_filters_by_levels() {
    let three_level = search_catalogue(None, None, Some(3), None);
    let names: Vec<&str> = three_level.iter().map(|s| s.name.as_str()).collect();
    assert_eq!(names, vec!["L9", "L18", "L27", "L81"]);
}

#[test]
fn search_filters_by_run_bounds_and_factors() {
    let r = search_catalogue(Some(10), Some(30), None, Some(10));
    let names: Vec<&str> = r.iter().map(|s| s.name.as_str()).collect();
    assert_eq!(names, vec!["L12", "L16", "L27"]);
}

#[test]
fn search_without_criteria_returns_everything() {
    assert_eq!(search_catalogue(None, None, None, None).len(), 14);
}

#[test]
fn retrieves_a_standard_array_with_metadata() {
    let oa = get_standard_array("L9").unwrap();
    assert_eq!(oa.runs, 9);
    assert_eq!(oa.factors, 4);
    assert_eq!(oa.levels, vec![3, 3, 3, 3]);
    assert_eq!(oa.metadata.algorithm, "Catalogue");
    assert_eq!(
        oa.metadata.name,
        Some("L9 - Smallest 3-level array".to_string())
    );
    assert_eq!(oa.id.len(), 36);
    assert_eq!(oa.data.len(), 9);
    for row in &oa.data {
        assert_eq!(row.len(), 4);
    }
}

#[test]
fn standard_array_lookup_is_case_insensitive() {
    let oa = get_standard_array("l9").unwrap();
    assert_eq!(oa.runs, 9);
    // Not the exact catalogue spelling: the description lookup finds nothing.
    assert_eq!(oa.metadata.name, Some("l9 - ".to_string()));
}

#[test]
fn unknown_standard_array_fails() {
    assert!(get_standard_array("L7").is_err());
}
