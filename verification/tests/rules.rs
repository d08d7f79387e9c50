use sonda_core::decimal::Decimal;
use sonda_core::error::SondaError;
use sonda_core::rules::schema::{RuleSetDef, SubstanceRuleDef, Threshold};
use sonda_core::rules::validate_ruleset;

fn rule(substance: &str, entries: &[(&str, &str)]) -> SubstanceRuleDef {
    SubstanceRuleDef {
        substance: substance.into(),
        thresholds: entries
            .iter()
            .map(|(category, limit)| Threshold {
                category: category.to_string(),
                limit: Decimal::parse(limit).unwrap(),
            })
            .collect(),
        matrix: None,
        unit: None,
        note: None,
    }
}

fn ruleset(categories: &[&str], rules: Vec<SubstanceRuleDef>) -> RuleSetDef {
    RuleSetDef {
        name: "Test".into(),
        description: None,
        version: "1.0".into(),
        matrix: None,
        categories: categories.iter().map(|c| c.to_string()).collect(),
        category_descriptions: vec![],
        rules,
    }
}

fn fault(rs: &RuleSetDef) -> String {
    match validate_ruleset(rs) {
        Err(SondaError::RulesetInvalid(message)) => message,
        other => panic!("unexpected outcome {:?}", other),
    }
}

#[test]
fn test_parse_valid_ruleset() {
    let rs = ruleset(&["A", "B"], vec![rule("bly", &[("A", "50"), ("B", "180")])]);
    assert!(validate_ruleset(&rs).is_ok());
    assert_eq!(rs.name, "Test");
    assert_eq!(rs.categories, vec!["A", "B"]);
    assert_eq!(rs.rules.len(), 1);
    assert_eq!(rs.rules[0].threshold("B"), Some(Decimal::new(180, 0)));
    assert_eq!(rs.rules[0].threshold("C"), None);
}

#[test]
fn test_empty_categories_rejected() {
    let rs = ruleset(&[], vec![rule("bly", &[("A", "50")])]);
    assert!(validate_ruleset(&rs).is_err());
    assert_eq!(fault(&rs), "categories must not be empty");
}

#[test]
fn test_unknown_category_in_threshold_rejected() {
    let rs = ruleset(&["A"], vec![rule("bly", &[("X", "50")])]);
    assert!(validate_ruleset(&rs).is_err());
    assert_eq!(fault(&rs), "substance 'bly' references unknown category 'X'");
}

#[test]
fn test_invalid_matrix_rejected() {
    let mut rs = ruleset(&["A"], vec![rule("bly", &[("A", "50")])]);
    rs.rules[0].matrix = Some("vatten".into());
    assert!(validate_ruleset(&rs).is_err());
    assert_eq!(
        fault(&rs),
        "substance 'bly' has invalid matrix 'vatten' (expected 'jord' or 'asfalt')"
    );
    rs.rules[0].matrix = Some("Asfalt".into());
    assert!(validate_ruleset(&rs).is_ok());
}

#[test]
fn faults_are_told_in_order() {
    let mut rs = ruleset(&[], vec![]);
    rs.matrix = Some("luft".into());
    assert_eq!(
        fault(&rs),
        "invalid top-level matrix 'luft' (expected 'jord' or 'asfalt')"
    );
    rs.matrix = Some("JORD".into());
    assert_eq!(fault(&rs), "categories must not be empty");
    rs.categories = vec!["A".into()];
    assert_eq!(fault(&rs), "rules must not be empty");
    rs.rules = vec![rule("bly", &[("A", "1")]), rule("", &[("A", "1")]), rule("zink", &[])];
    assert_eq!(fault(&rs), "substance name must not be empty");
    rs.rules.remove(1);
    assert_eq!(fault(&rs), "substance 'zink' has no thresholds");
    assert_eq!(
        SondaError::RulesetInvalid("x".into()).to_string(),
        "invalid ruleset: x"
    );
    assert_eq!(
        SondaError::PdftotextFailed {
            code: -1,
            stderr: "boom".into()
        }
        .to_string(),
        "pdftotext failed with exit code -1: boom"
    );
}
