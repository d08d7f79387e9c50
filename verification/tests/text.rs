use sonda_core::clp::schema::{ClpSubstance, HazardClass, MFactors};
use sonda_core::error::SondaError;
use sonda_core::model::{matrix_filter_applies, Matrix};
use sonda_core::text::{
    chars_of, comes_before, contains, find_first, insert_sorted, join, number_text, same_text,
    signed_number_text, starts_with, string_of, trimmed_chars,
};

#[test]
fn strings_are_ordered_by_code_point() {
    assert!(comes_before("", "a"));
    assert!(!comes_before("a", ""));
    assert!(!comes_before("bly", "bly"));
    assert!(comes_before("bly", "blyx"));
    assert!(comes_before("Zink", "arsenik"));
    assert!(comes_before("z", "å"));
    assert!(comes_before("a\u{ff}", "a\u{100}"));
    assert!(comes_before("\u{ffff}", "\u{10000}"));
    let mut words = vec!["ö", "Zink", "bly", "", "a\u{10000}", "a\u{ffff}", "arsenik", "bly"];
    let mut sorted: Vec<String> = Vec::new();
    for w in &words {
        insert_sorted(&mut sorted, w.to_string());
    }
    words.sort();
    words.dedup();
    assert_eq!(sorted, words);
}

#[test]
fn texts_are_searched_and_joined() {
    assert!(contains("mg/kg TS", "kg"));
    assert!(contains("abc", ""));
    assert!(!contains("abc", "abcd"));
    assert!(starts_with("> MKM", "> "));
    assert!(!starts_with(">MKM", "> "));
    assert!(same_text("åäö", "åäö"));
    assert!(!same_text("a", "A"));
    let hay = chars_of("ab ab ab");
    let needle = chars_of("ab");
    assert_eq!(find_first(&hay, &needle, 0), Some(0));
    assert_eq!(find_first(&hay, &needle, 1), Some(3));
    assert_eq!(find_first(&hay, &needle, 7), None);
    assert_eq!(find_first(&hay, &chars_of(""), 8), Some(8));
    assert_eq!(find_first(&hay, &chars_of(""), 9), None);
    assert_eq!(join(&vec!["a".to_string(), "b".to_string(), "".to_string()], ", "), "a, b, ");
    assert_eq!(join(&vec![], ", "), "");
    assert_eq!(string_of(&trimmed_chars("\u{a0}\t x y \n")), "x y");
    assert_eq!(string_of(&trimmed_chars("   ")), "");
}

#[test]
fn numbers_are_written_in_decimal() {
    assert_eq!(number_text(0), "0");
    assert_eq!(number_text(7), "7");
    assert_eq!(number_text(10), "10");
    assert_eq!(number_text(1234567890), "1234567890");
    assert_eq!(number_text(usize::MAX), usize::MAX.to_string());
    assert_eq!(signed_number_text(0), "0");
    assert_eq!(signed_number_text(-1), "-1");
    assert_eq!(signed_number_text(i32::MIN), "-2147483648");
    assert_eq!(signed_number_text(i32::MAX), "2147483647");
}

#[test]
fn matrix_filter_ignores_case() {
    assert!(matrix_filter_applies(&None, &None));
    assert!(matrix_filter_applies(&None, &Some(Matrix::Jord)));
    assert!(matrix_filter_applies(&Some("JoRd".into()), &Some(Matrix::Jord)));
    assert!(!matrix_filter_applies(&Some("jord".into()), &Some(Matrix::Asfalt)));
    assert!(!matrix_filter_applies(&Some("jord".into()), &None));
    assert!(!matrix_filter_applies(&Some("soil".into()), &Some(Matrix::Jord)));
}

#[test]
fn hazard_classes_are_found_by_code_and_prefix() {
    let class = |code: &str, category: &str| HazardClass {
        class: "Repr.".into(),
        category: category.into(),
        h_code: code.into(),
        route: None,
    };
    let substance = ClpSubstance {
        name: "X".into(),
        hazard_classes: vec![
            class("H360FD", "1A"),
            class("H350i", "1B"),
            class("H360", "1B"),
            class("H360", "2"),
        ],
        m_factors: MFactors {
            acute: None,
            chronic: None,
        },
        scls: vec![],
    };
    assert!(substance.has_h_code("H360"));
    assert!(!substance.has_h_code("H350"));
    assert!(substance.has_h_code_prefix("H350"));
    assert!(!substance.has_h_code_prefix("H351"));
    assert_eq!(substance.get_hazard_class("H360").unwrap().category, "1B");
    assert!(substance.get_hazard_class("H36").is_none());
    let with_prefix: Vec<&str> = substance
        .get_hazard_classes_prefix("H360")
        .iter()
        .map(|c| c.category.as_str())
        .collect();
    assert_eq!(with_prefix, vec!["1A", "1B", "2"]);
    assert_eq!(substance.find_class("H360", true), Some(0));
    assert_eq!(substance.find_class("H360", false), Some(2));
}

#[test]
fn every_error_has_its_message() {
    let cases = vec![
        (SondaError::Extraction("x".into()), "PDF extraction failed: x"),
        (
            SondaError::PdftotextNotFound,
            "pdftotext not found. Install poppler: brew install poppler (macOS) or apt install poppler-utils (Linux)",
        ),
        (
            SondaError::PdftotextFailed {
                code: 3,
                stderr: "bad".into(),
            },
            "pdftotext failed with exit code 3: bad",
        ),
        (SondaError::ParseError("x".into()), "failed to parse report: x"),
        (
            SondaError::RulesetLoad {
                path: "a.json".into(),
                reason: "gone".into(),
            },
            "failed to load ruleset from a.json: gone",
        ),
        (SondaError::RulesetInvalid("x".into()), "invalid ruleset: x"),
        (
            SondaError::UnsupportedReport("x".into()),
            "unsupported report format: x. Currently only Eurofins reports are supported.",
        ),
        (
            SondaError::MatrixMismatch {
                matrix: "Jord".into(),
            },
            "report matrix 'Jord' does not match any of the provided rulesets",
        ),
        (
            SondaError::NoMatches,
            "no substances matched between report and ruleset",
        ),
        (
            SondaError::NotRepresentable,
            "a concentration is too large to be represented",
        ),
        (SondaError::Io("x".into()), "IO error: x"),
        (SondaError::Json("x".into()), "JSON error: x"),
    ];
    for (error, message) in cases {
        assert_eq!(error.to_string(), message);
    }
}
