use sonda_core::classify::engine::{classify, classify_one, determine_overall};
use sonda_core::classify::outcome::SubstanceResult;
use sonda_core::decimal::Decimal;
use sonda_core::model::{AnalysisReport, AnalysisRow, AnalysisValue, Matrix, ReportHeader, Unit};
use sonda_core::rules::schema::{RuleSetDef, SubstanceRuleDef, Threshold};

fn dec(text: &str) -> Decimal {
    Decimal::parse(text).unwrap()
}

fn thresholds(entries: &[(&str, &str)]) -> Vec<Threshold> {
    entries
        .iter()
        .map(|(category, limit)| Threshold {
            category: category.to_string(),
            limit: dec(limit),
        })
        .collect()
}

fn rule(substance: &str, entries: &[(&str, &str)]) -> SubstanceRuleDef {
    SubstanceRuleDef {
        substance: substance.into(),
        thresholds: thresholds(entries),
        matrix: None,
        unit: None,
        note: None,
    }
}

fn make_ruleset() -> RuleSetDef {
    RuleSetDef {
        name: "Test NV".into(),
        description: None,
        version: "1.0".into(),
        matrix: None,
        categories: vec!["KM".into(), "MKM".into()],
        category_descriptions: vec![],
        rules: vec![
            rule("bly", &[("KM", "50"), ("MKM", "180")]),
            rule("arsenik", &[("KM", "10"), ("MKM", "25")]),
            rule("kvicksilver", &[("KM", "0.25"), ("MKM", "2.5")]),
        ],
    }
}

fn make_report(rows: Vec<AnalysisRow>) -> AnalysisReport {
    AnalysisReport {
        header: ReportHeader::default(),
        rows,
    }
}

fn row(name: &str, norm: &str, val: AnalysisValue) -> AnalysisRow {
    AnalysisRow {
        raw_name: name.into(),
        normalized_name: norm.into(),
        value: val,
        unit: Unit::MgPerKgTs,
    }
}

#[test]
fn test_classify_all_below_km() {
    let report = make_report(vec![
        row("Bly (Pb)", "bly", AnalysisValue::Measured(dec("30"))),
        row("Arsenik (As)", "arsenik", AnalysisValue::Measured(dec("5"))),
    ]);
    let result = classify(&report, &vec![make_ruleset()]);
    let rs = &result[0];
    assert_eq!(rs.overall_category, "KM");
    assert!(rs.substance_results.iter().all(|r| r.category == "KM"));
}

#[test]
fn test_classify_one_exceeds_km() {
    let report = make_report(vec![
        row("Bly (Pb)", "bly", AnalysisValue::Measured(dec("120"))),
        row("Arsenik (As)", "arsenik", AnalysisValue::Measured(dec("5"))),
    ]);
    let result = classify(&report, &vec![make_ruleset()]);
    let rs = &result[0];
    assert_eq!(rs.overall_category, "MKM");

    let bly = rs
        .substance_results
        .iter()
        .find(|r| r.substance == "bly")
        .unwrap();
    assert_eq!(bly.category, "MKM");
    assert!(bly.reason.contains("120"));
    assert!(bly.reason.contains("MKM"));
}

#[test]
fn test_classify_exceeds_all() {
    let report = make_report(vec![row(
        "Bly (Pb)",
        "bly",
        AnalysisValue::Measured(dec("200")),
    )]);
    let result = classify(&report, &vec![make_ruleset()]);
    let rs = &result[0];
    assert_eq!(rs.overall_category, "> MKM");
}

#[test]
fn test_below_detection_confident() {
    let report = make_report(vec![row(
        "Arsenik (As)",
        "arsenik",
        AnalysisValue::BelowDetection(dec("5")),
    )]);
    let result = classify(&report, &vec![make_ruleset()]);
    let rs = &result[0];
    assert_eq!(rs.substance_results[0].category, "KM");
    assert!(!rs.substance_results[0].uncertain);
}

#[test]
fn test_below_detection_uncertain_escalation() {
    let report = make_report(vec![row(
        "Kvicksilver (Hg)",
        "kvicksilver",
        AnalysisValue::BelowDetection(dec("0.30")),
    )]);
    let result = classify(&report, &vec![make_ruleset()]);
    let rs = &result[0];
    let hg = &rs.substance_results[0];
    assert_eq!(hg.category, "MKM");
    assert!(!hg.uncertain);
}

#[test]
fn test_unmatched_tracking() {
    let report = make_report(vec![
        row("Bly (Pb)", "bly", AnalysisValue::Measured(dec("30"))),
        row("Unknown", "unknown", AnalysisValue::Measured(dec("100"))),
    ]);
    let result = classify(&report, &vec![make_ruleset()]);
    let rs = &result[0];
    assert!(rs.unmatched_substances.contains(&"unknown".to_string()));
    assert!(rs.unmatched_rules.contains(&"arsenik".to_string()));
}

#[test]
fn test_reason_strings_populated() {
    let report = make_report(vec![row(
        "Bly (Pb)",
        "bly",
        AnalysisValue::Measured(dec("120")),
    )]);
    let result = classify(&report, &vec![make_ruleset()]);
    let rs = &result[0];
    let bly = &rs.substance_results[0];
    assert!(!bly.reason.is_empty());
    assert!(!rs.overall_reason.is_empty());
}

fn two_tier() -> RuleSetDef {
    RuleSetDef {
        name: "Two tiers".into(),
        description: None,
        version: "1".into(),
        matrix: None,
        categories: vec!["clean".into(), "moderate".into()],
        category_descriptions: vec![],
        rules: vec![
            rule("arsenik", &[("clean", "10"), ("moderate", "25")]),
            rule("bly", &[("clean", "50"), ("moderate", "400")]),
            rule("kvicksilver", &[("clean", "0.25"), ("moderate", "2.5")]),
            rule("koppar", &[("clean", "80"), ("moderate", "200")]),
        ],
    }
}

#[test]
fn soil_sample_within_clean_tier() {
    let mut report = make_report(vec![
        row("Arsenik (As)", "arsenik", AnalysisValue::Measured(dec("8"))),
        row("Bly (Pb)", "bly", AnalysisValue::Measured(dec("45"))),
        row(
            "Kvicksilver (Hg)",
            "kvicksilver",
            AnalysisValue::BelowDetection(dec("0.03")),
        ),
        row("Koppar (Cu)", "koppar", AnalysisValue::Measured(dec("60"))),
    ]);
    report.header.matrix = Some(Matrix::Jord);
    let rs = classify_one(&report, &two_tier());
    assert_eq!(rs.overall_category, "clean");
    assert_eq!(rs.overall_reason, "Determined by 4 substances at clean level");
    assert_eq!(rs.lowest_category.as_deref(), Some("clean"));
    assert_eq!(
        rs.determining_substances,
        vec!["Arsenik (As)", "Bly (Pb)", "Kvicksilver (Hg)", "Koppar (Cu)"]
    );
    assert!(rs.unmatched_substances.is_empty());
    assert!(rs.unmatched_rules.is_empty());
    assert!(rs.hp_details.is_none());
}

#[test]
fn detection_limit_between_thresholds_is_not_flagged() {
    let report = make_report(vec![row(
        "Kvicksilver (Hg)",
        "kvicksilver",
        AnalysisValue::BelowDetection(dec("0.30")),
    )]);
    let rs = classify_one(&report, &two_tier());
    let hg = &rs.substance_results[0];
    assert_eq!(hg.category, "moderate");
    assert!(!hg.uncertain);
    assert_eq!(hg.exceeded_threshold, None);
    assert_eq!(
        hg.reason,
        "Kvicksilver (Hg): < 0.30 mg/kg TS, detection limit below moderate threshold (2.5) -> classified as moderate"
    );
}

#[test]
fn measured_value_at_threshold_stays_and_limit_at_threshold_moves() {
    let at = make_report(vec![
        row("As", "arsenik", AnalysisValue::Measured(dec("10.0"))),
        row("As", "arsenik", AnalysisValue::BelowDetection(dec("10.0"))),
        row("As", "arsenik", AnalysisValue::BelowDetection(dec("25"))),
        row("As", "arsenik", AnalysisValue::Measured(dec("25.001"))),
    ]);
    let rs = classify_one(&at, &two_tier());
    let r = &rs.substance_results;
    assert_eq!(r[0].category, "clean");
    assert_eq!(r[0].exceeded_threshold, None);
    assert_eq!(
        r[0].reason,
        "As: 10.0 mg/kg TS <= 10 (clean) -> classified as clean"
    );
    assert_eq!(r[1].category, "moderate");
    assert!(!r[1].uncertain);
    assert_eq!(r[2].category, "moderate");
    assert!(r[2].uncertain);
    assert_eq!(r[2].exceeded_threshold, Some(dec("25")));
    assert_eq!(
        r[2].reason,
        "As: < 25 mg/kg TS, detection limit exceeds all thresholds (clean:10, moderate:25) -> uncertain"
    );
    assert_eq!(r[3].category, "> moderate");
    assert_eq!(r[3].exceeded_threshold, Some(dec("25")));
    assert_eq!(
        r[3].reason,
        "As: 25.001 mg/kg TS > clean:10, moderate:25 -> exceeds all thresholds"
    );
    assert_eq!(rs.overall_category, "> moderate");
    assert_eq!(rs.overall_reason, "Determined by As");
    assert_eq!(rs.determining_substances, vec!["As"]);
}

#[test]
fn reason_names_the_thresholds_that_were_passed() {
    let report = make_report(vec![row(
        "Bly (Pb)",
        "bly",
        AnalysisValue::Measured(dec("120")),
    )]);
    let rs = classify_one(&report, &make_ruleset());
    let bly = &rs.substance_results[0];
    assert_eq!(
        bly.reason,
        "Bly (Pb): 120 mg/kg TS 120 > KM:50 but <= MKM:180 -> classified as MKM"
    );
    assert_eq!(bly.exceeded_threshold, Some(dec("50")));
    assert_eq!(bly.unit, "mg/kg TS");
    assert_eq!(rs.overall_reason, "Determined by Bly (Pb) (MKM)");
}

#[test]
fn rank_grows_with_the_value() {
    let values = ["0", "9.99", "10", "10.01", "25", "25.01", "1000"];
    let mut last = 0;
    for text in values {
        let report = make_report(vec![row("As", "arsenik", AnalysisValue::Measured(dec(text)))]);
        let rs = classify_one(&report, &two_tier());
        let rank = match rs.substance_results[0].category.as_str() {
            "clean" => 0,
            "moderate" => 1,
            "> moderate" => 2,
            other => panic!("unexpected category {other}"),
        };
        assert!(rank >= last, "{} ranks below a smaller value", text);
        last = rank;
    }
    assert_eq!(last, 2);
}

#[test]
fn matrix_filter_decides_which_rules_apply() {
    let mut ruleset = two_tier();
    ruleset.rules = vec![
        SubstanceRuleDef {
            matrix: Some("JORD".into()),
            ..rule("bly", &[("clean", "50"), ("moderate", "400")])
        },
        SubstanceRuleDef {
            matrix: Some("asfalt".into()),
            unit: Some("mg/kg".into()),
            ..rule("bly", &[("clean", "5")])
        },
        rule("zink", &[("clean", "1")]),
    ];
    let mut report = make_report(vec![
        row("Bly (Pb)", "bly", AnalysisValue::Measured(dec("60"))),
        row("Zeta", "zeta", AnalysisValue::Measured(dec("1"))),
        row("Alfa", "alfa", AnalysisValue::Measured(dec("1"))),
        row("Alfa", "alfa", AnalysisValue::Measured(dec("2"))),
    ]);

    let unknown = classify_one(&report, &ruleset);
    assert!(unknown.substance_results.is_empty());
    assert_eq!(unknown.overall_category, "N/A");
    assert_eq!(unknown.overall_reason, "No substances matched any rules");
    assert_eq!(unknown.unmatched_substances, vec!["alfa", "bly", "zeta"]);
    assert_eq!(unknown.unmatched_rules, vec!["bly", "zink"]);

    report.header.matrix = Some(Matrix::Jord);
    let soil = classify_one(&report, &ruleset);
    assert_eq!(soil.substance_results.len(), 1);
    assert_eq!(soil.substance_results[0].category, "moderate");
    assert_eq!(soil.unmatched_substances, vec!["alfa", "zeta"]);
    assert_eq!(soil.unmatched_rules, vec!["zink"]);

    report.header.matrix = Some(Matrix::Asfalt);
    let asphalt = classify_one(&report, &ruleset);
    assert_eq!(asphalt.substance_results.len(), 1);
    assert_eq!(asphalt.substance_results[0].category, "> moderate");
    assert_eq!(asphalt.substance_results[0].unit, "mg/kg");
    assert_eq!(
        asphalt.substance_results[0].exceeded_threshold,
        Some(dec("5"))
    );
}

#[test]
fn category_without_threshold_is_passed_over() {
    let mut ruleset = two_tier();
    ruleset.rules = vec![rule("bly", &[("moderate", "400")])];
    let report = make_report(vec![
        row("Pb", "bly", AnalysisValue::Measured(dec("1"))),
        row("Pb", "bly", AnalysisValue::BelowDetection(dec("1"))),
    ]);
    let rs = classify_one(&report, &ruleset);
    assert_eq!(rs.substance_results[0].category, "moderate");
    assert_eq!(rs.substance_results[0].exceeded_threshold, None);
    assert_eq!(
        rs.substance_results[0].reason,
        "Pb: 1 mg/kg TS  but <= moderate:400 -> classified as moderate"
    );
    assert_eq!(rs.substance_results[1].category, "moderate");
}

#[test]
fn overall_of_given_results() {
    let result = |raw: &str, category: &str| SubstanceResult {
        substance: raw.to_lowercase(),
        raw_name: raw.into(),
        value: AnalysisValue::Measured(dec("1")),
        unit: "mg/kg TS".into(),
        category: category.into(),
        reason: String::new(),
        exceeded_threshold: None,
        uncertain: false,
    };
    let categories = vec!["A".to_string(), "B".to_string(), "C".to_string()];
    let (category, reason, names) = determine_overall(
        &vec![result("X", "B"), result("Y", "A"), result("Z", "B")],
        &categories,
    );
    assert_eq!(category, "B");
    assert_eq!(reason, "Determined by 2 substances at B level");
    assert_eq!(names, vec!["X", "Z"]);

    let (category, reason, names) = determine_overall(
        &vec![result("X", "C"), result("Y", "> C"), result("Z", "> C")],
        &categories,
    );
    assert_eq!(category, "> C");
    assert_eq!(reason, "Determined by Y, Z");
    assert_eq!(names, vec!["Y", "Z"]);

    let (category, _, names) = determine_overall(&vec![result("X", "other")], &categories);
    assert_eq!(category, "A");
    assert!(names.is_empty());
}
