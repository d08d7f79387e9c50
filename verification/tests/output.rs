use sonda_core::classify::engine::classify_one;
use sonda_core::classify::outcome::{
    ClassificationResult, HpCriterionDetail, HpDetails, HpSubstanceContribution, ParseWarning,
    RuleSetResult, SampleResult,
};
use sonda_core::decimal::Decimal;
use sonda_core::model::{AnalysisReport, AnalysisRow, AnalysisValue, Matrix, ReportHeader, Unit};
use sonda_core::output::result::{format_hp_result, format_result};
use sonda_core::output::table::format_parsed;
use sonda_core::parsing::{ParsedReports, SkippedLine};
use sonda_core::rules::explain::{explain_ruleset, list_entry, validation_report};
use sonda_core::rules::schema::{CategoryDescription, RuleSetDef, SubstanceRuleDef, Threshold};
use sonda_core::trace::TraceBundle;

fn dec(text: &str) -> Decimal {
    Decimal::parse(text).unwrap()
}

fn row(name: &str, norm: &str, val: AnalysisValue) -> AnalysisRow {
    AnalysisRow {
        raw_name: name.into(),
        normalized_name: norm.into(),
        value: val,
        unit: Unit::MgPerKgTs,
    }
}

fn rule(substance: &str, entries: &[(&str, &str)]) -> SubstanceRuleDef {
    SubstanceRuleDef {
        substance: substance.into(),
        thresholds: entries
            .iter()
            .map(|(category, limit)| Threshold {
                category: category.to_string(),
                limit: dec(limit),
            })
            .collect(),
        matrix: None,
        unit: None,
        note: None,
    }
}

fn ruleset() -> RuleSetDef {
    RuleSetDef {
        name: "Riktvärden".into(),
        description: Some("Generella riktvärden".into()),
        version: "2025.1".into(),
        matrix: Some("jord".into()),
        categories: vec!["KM".into(), "MKM".into()],
        category_descriptions: vec![CategoryDescription {
            category: "KM".into(),
            text: "Känslig markanvändning".into(),
        }],
        rules: vec![
            rule("bly", &[("KM", "50"), ("MKM", "180")]),
            SubstanceRuleDef {
                unit: Some("mg/kg".into()),
                ..rule("kvicksilver", &[("MKM", "2.5")])
            },
        ],
    }
}

fn report() -> AnalysisReport {
    AnalysisReport {
        header: ReportHeader {
            lab: Some("Eurofins".into()),
            sample_id: Some("P1".into()),
            matrix: Some(Matrix::Jord),
            ..ReportHeader::default()
        },
        rows: vec![
            row("Bly (Pb)", "bly", AnalysisValue::Measured(dec("120"))),
            row(
                "Kvicksilver (Hg)",
                "kvicksilver",
                AnalysisValue::BelowDetection(dec("0.030")),
            ),
        ],
    }
}

#[test]
fn parsed_reports_are_laid_out_in_columns() {
    let parsed = ParsedReports {
        reports: vec![report()],
        warnings: vec![],
        skipped_lines: vec![SkippedLine {
            line_text: "Zink  x".into(),
            reason: "no parseable numeric value found".into(),
        }],
    };
    let expected = [
        "  Lab:       Eurofins",
        "  Sample ID: P1",
        "  Matrix:    Jord",
        "",
        "  Raw name          Normalized     Value  Unit",
        "  ------------------------------------------------",
        "  Bly (Pb)          bly              120  mg/kg TS",
        "  Kvicksilver (Hg)  kvicksilver  < 0.030  mg/kg TS",
        "",
        "Skipped lines (1):",
        "  - [no parseable numeric value found] Zink  x",
        "",
    ]
    .join("\n");
    assert_eq!(format_parsed(&parsed), expected);
}

#[test]
fn several_reports_get_titles() {
    let mut second = report();
    second.header.sample_id = None;
    second.header.lab = None;
    second.header.matrix = None;
    second.rows.clear();
    let parsed = ParsedReports {
        reports: vec![report(), second],
        warnings: vec![sonda_core::parsing::ParseWarning {
            section_index: 3,
            sample_id: None,
            reason: "no analysis values found in section".into(),
        }],
        skipped_lines: vec![],
    };
    let text = format_parsed(&parsed);
    assert!(text.starts_with("--- Sample: P1 ---\n\n  Lab:       Eurofins\n"));
    assert!(text.contains("\n\n--- Sample: unknown ---\n\n\n  (no substances parsed)\n"));
    assert!(text.ends_with("\nWarnings:\n  - section 3: no analysis values found in section\n"));
}

#[test]
fn names_are_filled_up_by_characters_to_a_width_in_bytes() {
    let parsed = ParsedReports {
        reports: vec![AnalysisReport {
            header: ReportHeader::default(),
            rows: vec![
                row("Ämne åäö", "a", AnalysisValue::Measured(dec("1"))),
                row("Zink (Zn) x", "b", AnalysisValue::Measured(dec("22"))),
            ],
        }],
        warnings: vec![],
        skipped_lines: vec![],
    };
    let expected = [
        "",
        "  Raw name      Normalized  Value  Unit",
        "  -----------------------------------------",
        "  Ämne åäö      a               1  mg/kg TS",
        "  Zink (Zn) x   b              22  mg/kg TS",
        "",
    ]
    .join("\n");
    assert_eq!(format_parsed(&parsed), expected);
}

fn classification(show_hp: bool) -> ClassificationResult {
    let mut results = vec![classify_one(&report(), &ruleset())];
    if show_hp {
        let contribution = |substance: &str, triggers: bool| HpSubstanceContribution {
            substance: substance.into(),
            compound: "As2O3".into(),
            h_code: "H350".into(),
            concentration_pct: dec("0.1584"),
            threshold_pct: Some(dec("0.1")),
            triggers,
        };
        results.push(RuleSetResult {
            ruleset_name: "Farligt avfall (HP-bedömning)".into(),
            overall_category: "FA".into(),
            overall_reason: "Farligt avfall: triggered by HP7".into(),
            lowest_category: None,
            determining_substances: vec!["arsenik".into()],
            substance_results: vec![],
            unmatched_substances: vec![],
            unmatched_rules: vec![],
            hp_details: Some(HpDetails {
                is_hazardous: true,
                criteria_results: vec![
                    HpCriterionDetail {
                        hp_id: "HP7".into(),
                        hp_name: "Carcinogenic".into(),
                        triggered: true,
                        reason: "One or more substances exceed limits".into(),
                        contributions: vec![
                            contribution("arsenik", true),
                            contribution("kadmium", false),
                        ],
                    },
                    HpCriterionDetail {
                        hp_id: "HP14".into(),
                        hp_name: "Ecotoxic".into(),
                        triggered: false,
                        reason: "Ecotoxic not triggered".into(),
                        contributions: vec![],
                    },
                ],
            }),
        });
    }
    ClassificationResult {
        samples: vec![SampleResult {
            sample_id: "P1".into(),
            ruleset_results: results,
        }],
        warnings: vec![],
        trace: TraceBundle::default(),
    }
}

#[test]
fn result_shows_what_decides_the_category() {
    let expected = [
        "=== Riktvärden ===",
        "",
        "  Overall: MKM (Determined by 2 substances at MKM level)",
        "",
        "  Determining substances:",
        "    Bly (Pb) -> MKM  (120 > 50 mg/kg TS)",
        "    Kvicksilver (Hg) -> MKM  (< 0.030 mg/kg)",
        "",
        "",
    ]
    .join("\n");
    assert_eq!(format_result(&classification(false), false, false), Some(expected));
}

#[test]
fn result_shows_all_substances_when_asked() {
    let mut result = classification(false);
    result.warnings.push(ParseWarning {
        sample_id: None,
        message: "Skipped section 2: no analysis values found in section".into(),
    });
    let expected = [
        "Warnings:",
        "",
        "  - Skipped section 2: no analysis values found in section",
        "",
        "=== Riktvärden ===",
        "",
        "  Overall: MKM (Determined by 2 substances at MKM level)",
        "",
        "  Bly (Pb)          120 mg/kg TS  -> MKM",
        "  Kvicksilver (Hg)  < 0.030 mg/kg  -> MKM",
        "",
        "",
    ]
    .join("\n");
    assert_eq!(format_result(&result, true, false), Some(expected));

    let verbose = format_result(&classification(false), false, true).unwrap();
    assert!(verbose.contains(
        "  Bly (Pb)          120 mg/kg TS  -> MKM\n    Bly (Pb): 120 mg/kg TS 120 > KM:50 but <= MKM:180 -> classified as MKM\n"
    ));
    assert!(verbose.ends_with("-> classified as MKM\n\n\n"));
}

#[test]
fn hazard_result_names_what_triggered() {
    let result = classification(true);
    let rs = &result.samples[0].ruleset_results[1];
    let hp = rs.hp_details.as_ref().unwrap();
    let brief = [
        "  Overall: FA (triggered by HP7)",
        "",
        "  Triggered HP criteria:",
        "    HP7   Carcinogenic              As2O3 (H350): 0.1584% >= 0.1%",
        "",
        "",
    ]
    .join("\n");
    assert_eq!(format_hp_result(rs, hp, false), Some(brief));
    let full = [
        "  Overall: FA (triggered by HP7)",
        "",
        "  HP7 (Carcinogenic): TRIGGERED",
        "    arsenik -> As2O3 (H350): 0.1584% >= 0.1% ***",
        "    kadmium -> As2O3 (H350): 0.1584% < 0.1%",
        "",
        "  HP14 (Ecotoxic): not triggered",
        "",
        "",
    ]
    .join("\n");
    assert_eq!(format_hp_result(rs, hp, true), Some(full));
    let text = format_result(&result, false, false).unwrap();
    assert!(text.contains("=== Farligt avfall (HP-bedömning) ===\n\n  Overall: FA (triggered by HP7)\n"));
}

#[test]
fn ruleset_is_explained_with_its_thresholds() {
    let expected = [
        "Riktvärden (version 2025.1)",
        "",
        "Generella riktvärden",
        "",
        "This ruleset classifies soil into 2 categories:",
        "",
        "  KM -- Känslig markanvändning",
        "",
        "  MKM",
        "",
        "If any substance exceeds all thresholds, the soil does not meet",
        "either standard and requires further assessment.",
        "",
        "Thresholds:",
        "",
        "  Substance      KM          MKM         Unit",
        "  -----------------------------------------------",
        "  bly            50          180         mg/kg TS",
        "  kvicksilver    -           2.5         mg/kg",
        "",
        "",
    ]
    .join("\n");
    assert_eq!(explain_ruleset(&ruleset()), expected);
}

#[test]
fn valid_ruleset_is_reported_with_missing_thresholds() {
    let expected = [
        "Ruleset 'Riktvärden' (v2025.1) is valid.",
        "  Categories: KM, MKM",
        "  Rules: 2 substances",
        "",
        "Warnings:",
        "  - substance 'kvicksilver' has no threshold for category 'KM'",
        "",
    ]
    .join("\n");
    assert_eq!(validation_report(&ruleset()), expected);
    let mut complete = ruleset();
    complete.rules.pop();
    assert_eq!(
        validation_report(&complete),
        "Ruleset 'Riktvärden' (v2025.1) is valid.\n  Categories: KM, MKM\n  Rules: 1 substances\n"
    );
}

#[test]
fn preset_is_listed_with_its_matrix() {
    assert_eq!(
        list_entry("nv", &ruleset()),
        "  nv       Riktvärden (v2025.1) [jord]\n           Generella riktvärden\n\n"
    );
    let mut plain = ruleset();
    plain.matrix = None;
    plain.description = None;
    assert_eq!(list_entry("asfalt", &plain), "  asfalt   Riktvärden (v2025.1)\n\n");
}

#[test]
fn result_with_a_number_too_long_to_write_has_no_text() {
    let mut result = classification(true);
    let huge = Decimal::try_new(10i128.pow(27), 0).unwrap();
    let hp = result.samples[0].ruleset_results[1].hp_details.as_mut().unwrap();
    hp.criteria_results[0].contributions[1].concentration_pct = huge;
    // The contribution does not trigger, so it is shown only in full.
    assert!(format_result(&result, false, false).is_some());
    assert!(format_result(&result, true, false).is_some());
    assert_eq!(format_result(&result, false, true), None);
    let rs = &result.samples[0].ruleset_results[1];
    assert_eq!(format_hp_result(rs, rs.hp_details.as_ref().unwrap(), true), None);

    let mut result = classification(true);
    let hp = result.samples[0].ruleset_results[1].hp_details.as_mut().unwrap();
    hp.criteria_results[0].contributions[0].concentration_pct = huge;
    assert_eq!(format_result(&result, false, false), None);
    let largest = Decimal::try_new(10i128.pow(27) - 1, 0).unwrap();
    let hp = result.samples[0].ruleset_results[1].hp_details.as_mut().unwrap();
    hp.criteria_results[0].contributions[0].concentration_pct = largest;
    let text = format_result(&result, false, false).unwrap();
    assert!(text.contains("As2O3 (H350): 999999999999999999999999999.0000% >= 0.1%"));
}
