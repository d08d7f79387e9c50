use sonda_core::decimal::Decimal;
use sonda_core::error::SondaError;
use sonda_core::extraction::PageContent;
use sonda_core::model::{AnalysisValue, Matrix, Unit};
use sonda_core::parsing::values::parse_value;
use sonda_core::parsing::{
    parse_reports, split_by_whitespace_gaps, split_into_sections, try_parse_row,
};

fn dec(text: &str) -> Decimal {
    Decimal::parse(text).unwrap()
}

#[test]
fn test_split_by_whitespace_gaps() {
    let segments = split_by_whitespace_gaps("Arsenik (As)     68     mg/kg TS");
    assert_eq!(segments.len(), 3);
    assert_eq!(segments[0], "Arsenik (As)");
}

#[test]
fn test_try_parse_measured_row() {
    let row = try_parse_row("Arsenik (As)     68     mg/kg TS")
        .unwrap()
        .unwrap();
    assert_eq!(row.normalized_name, "arsenik");
    assert_eq!(row.value, AnalysisValue::Measured(dec("68")));
}

#[test]
fn test_try_parse_below_detection_row() {
    let row = try_parse_row("Kvicksilver (Hg)     < 0.030     mg/kg TS")
        .unwrap()
        .unwrap();
    assert_eq!(row.normalized_name, "kvicksilver");
    assert_eq!(row.value, AnalysisValue::BelowDetection(dec("0.030")));
}

#[test]
fn test_header_line_skipped() {
    assert!(try_parse_row("Analys     Resultat     Enhet")
        .unwrap()
        .is_none());
}

#[test]
fn test_unparseable_value_returns_skipped() {
    let result = try_parse_row("Bly (Pb)     n.d.     mg/kg TS");
    assert!(result.is_err());
    let skip = result.unwrap_err();
    assert!(skip.reason.contains("invalid number"));
}

#[test]
fn test_split_into_sections_single() {
    let lines = vec!["Header", "Analysrapport", "Data line 1", "Data line 2"];
    let sections = split_into_sections(&lines);
    assert_eq!(sections.len(), 1);
}

#[test]
fn test_split_into_sections_multi() {
    let lines = vec![
        "Header",
        "Analysrapport",
        "Provnummer: 001",
        "Data 1",
        "Analysrapport",
        "Provnummer: 002",
        "Data 2",
    ];
    let sections = split_into_sections(&lines);
    assert_eq!(sections.len(), 2);
    assert!(sections[0].contains(&"Provnummer: 001"));
    assert!(sections[1].contains(&"Provnummer: 002"));
}

#[test]
fn test_split_into_sections_no_header() {
    let lines = vec!["Line 1", "Line 2", "Line 3"];
    let sections = split_into_sections(&lines);
    assert_eq!(sections.len(), 1);
}

#[test]
fn test_measured_integer() {
    let v = parse_value("68").unwrap().unwrap();
    assert_eq!(v, AnalysisValue::Measured(dec("68")));
}

#[test]
fn test_measured_decimal() {
    let v = parse_value("0.030").unwrap().unwrap();
    assert_eq!(v, AnalysisValue::Measured(dec("0.030")));
}

#[test]
fn test_below_detection_with_space() {
    let v = parse_value("< 0.030").unwrap().unwrap();
    assert_eq!(v, AnalysisValue::BelowDetection(dec("0.030")));
}

#[test]
fn test_below_detection_no_space() {
    let v = parse_value("<0.030").unwrap().unwrap();
    assert_eq!(v, AnalysisValue::BelowDetection(dec("0.030")));
}

#[test]
fn test_swedish_comma() {
    let v = parse_value("0,030").unwrap().unwrap();
    assert_eq!(v, AnalysisValue::Measured(dec("0.030")));
}

#[test]
fn test_below_detection_swedish_comma() {
    let v = parse_value("< 0,030").unwrap().unwrap();
    assert_eq!(v, AnalysisValue::BelowDetection(dec("0.030")));
}

#[test]
fn test_whitespace_trimming() {
    let v = parse_value("  68  ").unwrap().unwrap();
    assert_eq!(v, AnalysisValue::Measured(dec("68")));
}

#[test]
fn test_empty_returns_none() {
    assert!(parse_value("").unwrap().is_none());
}

#[test]
fn test_star_returns_none() {
    assert!(parse_value("*").unwrap().is_none());
}

#[test]
fn test_dash_returns_none() {
    assert!(parse_value("-").unwrap().is_none());
}

#[test]
fn test_invalid_returns_error() {
    assert!(parse_value("abc").is_err());
}

#[test]
fn parsed_value_keeps_its_digits() {
    match parse_value("0,030").unwrap().unwrap() {
        AnalysisValue::Measured(v) => {
            assert_eq!(v.mantissa(), 30);
            assert_eq!(v.scale(), 3);
            assert_eq!(v.to_text(), "0.030");
        }
        AnalysisValue::BelowDetection(_) => panic!("a measurement was expected"),
    }
    assert_eq!(
        parse_value("< 0,5").unwrap().unwrap().to_string(),
        "< 0.5"
    );
}

#[test]
fn invalid_number_is_named_in_the_error() {
    match parse_value(" 1x ") {
        Err(SondaError::ParseError(message)) => {
            assert!(message.starts_with("invalid number '1x': "));
        }
        other => panic!("unexpected outcome {:?}", other),
    }
    assert!(parse_value("n.a.").unwrap().is_none());
    assert!(parse_value("N/A").unwrap().is_none());
}

#[test]
fn segments_keep_single_spaces() {
    assert_eq!(
        split_by_whitespace_gaps("  a b   c  d e "),
        vec!["a b", "c", "d e "]
    );
    assert!(split_by_whitespace_gaps("   ").is_empty());
    assert_eq!(split_by_whitespace_gaps("x"), vec!["x"]);
}

#[test]
fn row_takes_unit_and_skips_blank_marks() {
    let row = try_parse_row("Bly (Pb)     *     12,5     mg/kg")
        .unwrap()
        .unwrap();
    assert_eq!(row.raw_name, "Bly (Pb)");
    assert_eq!(row.normalized_name, "bly");
    assert_eq!(row.value, AnalysisValue::Measured(dec("12.5")));
    assert_eq!(row.unit, Unit::MgPerKg);
    assert_eq!(Unit::from_str_loose("MG/KG ts"), Unit::MgPerKgTs);
    assert_eq!(Unit::from_str_loose("50 %"), Unit::Percent);
    assert_eq!(Unit::from_str_loose("l"), Unit::MgPerKgTs);
    assert_eq!(Unit::Percent.to_string(), "%");
}

#[test]
fn line_without_value_is_reported() {
    let skip = try_parse_row("Bly (Pb)     *     -").unwrap_err();
    assert_eq!(skip.line_text, "Bly (Pb)     *     -");
    assert_eq!(skip.reason, "no parseable numeric value found");
    assert!(try_parse_row("12   34").unwrap().is_none());
    assert!(try_parse_row("Bly 12").unwrap().is_none());
}

fn page(number: usize, lines: &[&str]) -> PageContent {
    PageContent {
        page_number: number,
        lines: lines.iter().map(|s| s.to_string()).collect(),
        line_spans: vec![],
    }
}

#[test]
fn sections_without_values_give_warnings() {
    let pages = vec![page(
        1,
        &[
            "Eurofins",
            "Analysrapport",
            "Provnummer: S001",
            "Matris: Jord",
            "  Arsenik (As)          8           mg/kg TS",
            "  Bly (Pb)              n.d.        mg/kg TS",
            "Analysrapport",
            "Provnummer: S002",
            "nothing here",
        ],
    )];
    let parsed = parse_reports(&pages).unwrap();
    assert_eq!(parsed.reports.len(), 1);
    assert_eq!(parsed.reports[0].header.sample_id.as_deref(), Some("S001"));
    assert_eq!(parsed.reports[0].header.matrix, Some(Matrix::Jord));
    assert_eq!(parsed.reports[0].rows.len(), 1);
    assert_eq!(parsed.skipped_lines.len(), 1);
    assert_eq!(parsed.warnings.len(), 1);
    assert_eq!(parsed.warnings[0].section_index, 2);
    assert_eq!(parsed.warnings[0].sample_id.as_deref(), Some("S002"));
    assert_eq!(
        parsed.warnings[0].reason,
        "no analysis values found in section"
    );
}

#[test]
fn empty_document_is_an_error() {
    match parse_reports(&[]) {
        Err(SondaError::ParseError(message)) => {
            assert_eq!(message, "no text content found in PDF")
        }
        other => panic!("unexpected outcome {:?}", other.map(|p| p.reports.len())),
    }
    match parse_reports(&[page(1, &["just text"])]) {
        Err(SondaError::ParseError(message)) => {
            assert_eq!(message, "no analysis values found in report")
        }
        other => panic!("unexpected outcome {:?}", other.map(|p| p.reports.len())),
    }
}
