use sonda_core::model::Matrix;
use sonda_core::parsing::header::{extract_after_label, parse_header};

#[test]
fn test_parse_header_basic() {
    let lines = [
        "Rapport: ABC123",
        "Provnummer: P001",
        "Matris: Jord",
        "Projekt: Test",
    ];
    let h = parse_header(&lines);
    assert_eq!(h.lab_report_id.as_deref(), Some("ABC123"));
    assert_eq!(h.sample_id.as_deref(), Some("P001"));
    assert_eq!(h.matrix, Some(Matrix::Jord));
    assert_eq!(h.project.as_deref(), Some("Test"));
}

#[test]
fn test_matrix_asfalt() {
    let lines = ["Matris: Asfalt"];
    let h = parse_header(&lines);
    assert_eq!(h.matrix, Some(Matrix::Asfalt));
}

#[test]
fn label_value_ends_at_a_gap_of_three_spaces() {
    assert_eq!(
        extract_after_label("Provnummer: P001   Datum: 2024-01-01", "provnummer").as_deref(),
        Some("P001")
    );
    assert_eq!(
        extract_after_label("PROVNUMMER   :  P 7  x", "provnummer").as_deref(),
        Some("P 7  x")
    );
    assert_eq!(extract_after_label("Provnummer:   ", "provnummer"), None);
    assert_eq!(extract_after_label("Matris: Jord", "provnummer"), None);
}

#[test]
fn client_label_wins_over_laboratory_number() {
    let lines = [
        "Eurofins Environment Testing Sweden AB",
        "Provnummer: 177-2024",
        "Provmärkning: Väg 115 P1",
        "Provnummer: 178-2024",
        "Uppdrag: Nya vägen",
    ];
    let h = parse_header(&lines);
    assert_eq!(h.sample_id.as_deref(), Some("Väg 115 P1"));
    assert_eq!(h.lab.as_deref(), Some("Eurofins"));
    assert_eq!(h.project.as_deref(), Some("Nya vägen"));
    assert_eq!(h.matrix, None);
}

#[test]
fn matrix_from_loose_names() {
    assert_eq!(Matrix::from_str_loose("  Soil sample "), Some(Matrix::Jord));
    assert_eq!(Matrix::from_str_loose("ASPHALT"), Some(Matrix::Asfalt));
    assert_eq!(Matrix::from_str_loose("vatten"), None);
    assert_eq!(Matrix::Jord.to_string(), "Jord");
    assert_eq!(Matrix::Asfalt.to_string(), "Asfalt");
}
