use oa_engine::export::{export_latex, render_csv};
use oa_engine::types::{OAData, OAMetadata};

fn sample() -> OAData {
    OAData {
        id: "test".to_string(),
        runs: 2,
        factors: 3,
        levels: vec![2, 2, 2],
        strength: 2,
        data: vec![vec![0, 1, 0], vec![1, 0, 1]],
        metadata: OAMetadata {
            name: Some("Demo".to_string()),
            algorithm: "Bose".to_string(),
            created_at: String::new(),
            notes: None,
        },
    }
}

#[test]
fn csv_has_header_and_rows() {
    assert_eq!(render_csv(&sample()), "Factor1,Factor2,Factor3\n0,1,0\n1,0,1\n");
}

#[test]
fn csv_of_single_factor() {
    let data = OAData {
        id: String::new(),
        runs: 2,
        factors: 1,
        levels: vec![3],
        strength: 1,
        data: vec![vec![0], vec![2]],
        metadata: OAMetadata {
            name: None,
            algorithm: "Unknown".to_string(),
            created_at: String::new(),
            notes: None,
        },
    };
    assert_eq!(render_csv(&data), "Factor1\n0\n2\n");
}

#[test]
fn latex_renders_the_full_table() {
    let latex = export_latex(&sample()).unwrap();
    let expected = "\\begin{tabular}{|c|c|c||}\n\\hline\n$F_{1}$ & $F_{2}$ & $F_{3}$ \\\\\n\\hline\n0 & 1 & 0 \\\\\n1 & 0 & 1 \\\\\n\\hline\n\\end{tabular}\n\n% OA(2, 3, (2,2,2), 2)\n% Name: Demo\n% Algorithm: Bose\n";
    assert_eq!(latex, expected);
}

#[test]
fn latex_single_level_value_is_bare() {
    let mut d = sample();
    d.levels = vec![2];
    d.metadata.name = None;
    let latex = export_latex(&d).unwrap();
    assert!(latex.contains("% OA(2, 3, 2, 2)\n"));
    assert!(!latex.contains("% Name:"));
}
