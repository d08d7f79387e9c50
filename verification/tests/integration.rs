use sonda_core::classify::outcome::ClassificationResult;
use sonda_core::classify_pages;
use sonda_core::classify_reports;
use sonda_core::classify_sample;
use sonda_core::clp::schema::{
    ClpDatabase, ClpEntry, ClpSubstance, ConcentrationLimit, HazardClass, MFactors, MetalSpeciation,
    SpeciationTable,
};
use sonda_core::decimal::Decimal;
use sonda_core::error::SondaError;
use sonda_core::extraction::{BBox, LineSpan, PageContent};
use sonda_core::model::{AnalysisReport, AnalysisRow, AnalysisValue, Matrix, ReportHeader, Unit};
use sonda_core::rules::schema::{RuleSetDef, SubstanceRuleDef, Threshold};
use sonda_core::trace::{TraceDecisionTarget, TraceSeverity, TraceStepType, TraceValueKind, TraceVisibility};
use sonda_core::ClassifyOptions;

fn dec(text: &str) -> Decimal {
    Decimal::parse(text).unwrap()
}

fn page(number: usize, lines: &[&str]) -> PageContent {
    PageContent {
        page_number: number,
        lines: lines.iter().map(|s| s.to_string()).collect(),
        line_spans: vec![],
    }
}

fn rule(substance: &str, entries: &[(&str, &str)]) -> SubstanceRuleDef {
    SubstanceRuleDef {
        substance: substance.into(),
        thresholds: entries
            .iter()
            .map(|(category, limit)| Threshold {
                category: category.to_string(),
                limit: dec(limit),
            })
            .collect(),
        matrix: None,
        unit: None,
        note: None,
    }
}

fn nv() -> RuleSetDef {
    RuleSetDef {
        name: "Naturvårdsverkets generella riktvärden".into(),
        description: None,
        version: "test".into(),
        matrix: Some("jord".into()),
        categories: vec!["KM".into(), "MKM".into()],
        category_descriptions: vec![],
        rules: vec![
            rule("arsenik", &[("KM", "10"), ("MKM", "25")]),
            rule("bly", &[("KM", "50"), ("MKM", "180")]),
            rule("kadmium", &[("KM", "0.8"), ("MKM", "12")]),
            rule("koppar", &[("KM", "80"), ("MKM", "200")]),
            rule("kvicksilver", &[("KM", "0.25"), ("MKM", "2.5")]),
        ],
    }
}

fn asfalt() -> RuleSetDef {
    RuleSetDef {
        name: "Asfalt PAH-16".into(),
        description: None,
        version: "test".into(),
        matrix: Some("asfalt".into()),
        categories: vec!["Ren".into(), "Förorenad".into()],
        category_descriptions: vec![],
        rules: vec![rule("pah_16", &[("Ren", "70"), ("Förorenad", "300")])],
    }
}

fn reference() -> (SpeciationTable, ClpDatabase) {
    let class = |class: &str, category: &str, code: &str| HazardClass {
        class: class.into(),
        category: category.into(),
        h_code: code.into(),
        route: None,
    };
    let db = ClpDatabase {
        version: "test".into(),
        description: String::new(),
        substances: vec![
            ClpEntry {
                cas: "1327-53-3".into(),
                substance: ClpSubstance {
                    name: "Diarseniktrioxid (As2O3)".into(),
                    hazard_classes: vec![
                        class("Carc.", "1A", "H350"),
                        class("Acute Tox.", "3", "H301"),
                        class("Aquatic Chronic", "1", "H410"),
                    ],
                    m_factors: MFactors {
                        acute: None,
                        chronic: None,
                    },
                    scls: vec![],
                },
            },
            ClpEntry {
                cas: "7439-92-1".into(),
                substance: ClpSubstance {
                    name: "Bly (Pb)".into(),
                    hazard_classes: vec![class("Repr.", "1A", "H360FD")],
                    m_factors: MFactors {
                        acute: None,
                        chronic: None,
                    },
                    scls: vec![ConcentrationLimit {
                        key: "Repr.1A".into(),
                        limit: dec("0.03"),
                    }],
                },
            },
        ],
    };
    let metal = |substance: &str, compound: &str, cas: &str, factor: &str| MetalSpeciation {
        substance: substance.into(),
        compound: compound.into(),
        cas: cas.into(),
        conversion_factor: dec(factor),
        conversion_note: None,
    };
    let table = SpeciationTable {
        version: "test".into(),
        description: String::new(),
        metals: vec![
            metal("arsenik", "As2O3", "1327-53-3", "1.32"),
            metal("bly", "Pb", "7439-92-1", "1.00"),
        ],
        pah_direct: vec![],
    };
    (table, db)
}

fn run(
    pages: &[PageContent],
    rulesets: Vec<RuleSetDef>,
    options: ClassifyOptions,
) -> Result<ClassificationResult, SondaError> {
    let (table, db) = reference();
    classify_pages(pages, &rulesets, &options, &table, &db)
}

#[test]
fn single_sample_soil_below_km() {
    let pages = vec![page(
        1,
        &[
            "Eurofins Environment Testing Sweden AB",
            "Analysrapport",
            "Rapport: AR-2024-001",
            "Provnummer: P001",
            "Matris: Jord",
            "",
            "  Analys                Resultat    Enhet",
            "  Arsenik (As)          8           mg/kg TS",
            "  Bly (Pb)              45          mg/kg TS",
            "  Kvicksilver (Hg)      < 0.030     mg/kg TS",
            "  Koppar (Cu)           60          mg/kg TS",
        ],
    )];

    let result = run(&pages, vec![nv()], ClassifyOptions::default()).unwrap();

    assert_eq!(result.samples.len(), 1);
    let rs = &result.samples[0].ruleset_results[0];
    assert_eq!(rs.overall_category, "KM");
}

#[test]
fn single_sample_asfalt_pah16() {
    let pages = vec![page(
        1,
        &[
            "Eurofins Environment Testing Sweden AB",
            "Analysrapport",
            "Rapport: AR-2024-002",
            "Provnummer: A001",
            "Matris: Asfalt",
            "",
            "  Analys                Resultat    Enhet",
            "  PAH 16               250         mg/kg TS",
        ],
    )];

    let result = run(&pages, vec![asfalt()], ClassifyOptions::default()).unwrap();

    assert_eq!(result.samples.len(), 1);
    let rs = &result.samples[0].ruleset_results[0];
    assert_eq!(rs.overall_category, "Förorenad");
}

#[test]
fn multi_sample_classified_independently() {
    let pages = vec![
        page(
            1,
            &[
                "Eurofins Environment Testing Sweden AB",
                "Analysrapport",
                "Provnummer: S001",
                "Matris: Jord",
                "",
                "  Arsenik (As)          8           mg/kg TS",
                "  Bly (Pb)              30          mg/kg TS",
            ],
        ),
        page(
            2,
            &[
                "Analysrapport",
                "Provnummer: S002",
                "Matris: Jord",
                "",
                "  Arsenik (As)          15          mg/kg TS",
                "  Bly (Pb)              60          mg/kg TS",
            ],
        ),
    ];

    let result = run(&pages, vec![nv()], ClassifyOptions::default()).unwrap();

    assert_eq!(result.samples.len(), 2);
    assert_eq!(result.samples[0].ruleset_results[0].overall_category, "KM");
    assert_eq!(result.samples[1].ruleset_results[0].overall_category, "MKM");
}

#[test]
fn below_detection_uncertain_escalation() {
    let pages = vec![page(
        1,
        &[
            "Eurofins Environment Testing Sweden AB",
            "Analysrapport",
            "Provnummer: BD001",
            "Matris: Jord",
            "",
            "  Arsenik (As)          < 5         mg/kg TS",
            "  Kvicksilver (Hg)      < 0.30      mg/kg TS",
        ],
    )];

    let result = run(&pages, vec![nv()], ClassifyOptions::default()).unwrap();

    let rs = &result.samples[0].ruleset_results[0];
    let as_result = rs
        .substance_results
        .iter()
        .find(|r| r.substance == "arsenik")
        .unwrap();
    assert_eq!(as_result.category, "KM");

    let hg_result = rs
        .substance_results
        .iter()
        .find(|r| r.substance == "kvicksilver")
        .unwrap();
    assert_eq!(hg_result.category, "MKM");
}

#[test]
fn hp_classification_arsenic_triggers_fa() {
    let pages = vec![page(
        1,
        &[
            "Eurofins Environment Testing Sweden AB",
            "Analysrapport",
            "Provnummer: HP001",
            "Matris: Jord",
            "",
            "  Arsenik (As)          1200        mg/kg TS",
            "  Bly (Pb)              50          mg/kg TS",
        ],
    )];

    let opts = ClassifyOptions { include_hp: true };
    let result = run(&pages, vec![], opts).unwrap();

    assert_eq!(result.samples.len(), 1);
    let hp_rs = result.samples[0]
        .ruleset_results
        .iter()
        .find(|rs| rs.hp_details.is_some())
        .expect("should have HP result");
    assert_eq!(hp_rs.overall_category, "FA");
    assert!(hp_rs.hp_details.as_ref().unwrap().is_hazardous);
}

#[test]
fn unparseable_rows_generate_trace_warnings() {
    let pages = vec![page(
        1,
        &[
            "Eurofins Environment Testing Sweden AB",
            "Analysrapport",
            "Provnummer: WARN001",
            "Matris: Jord",
            "",
            "  Arsenik (As)          8           mg/kg TS",
            "  Bly (Pb)              n.d.        mg/kg TS",
            "  Kadmium (Cd)          0.5         mg/kg TS",
        ],
    )];

    let result = run(&pages, vec![nv()], ClassifyOptions::default()).unwrap();

    assert_eq!(result.samples.len(), 1);
    let skipped_warnings: Vec<_> = result
        .trace
        .warnings
        .iter()
        .filter(|w| w.message.contains("Skipped line"))
        .collect();
    assert!(!skipped_warnings.is_empty());
    assert!(skipped_warnings[0].message.contains("Bly"));
}

#[test]
fn non_eurofins_report_returns_unsupported_error() {
    let pages = vec![page(
        1,
        &[
            "ALS Scandinavia AB",
            "Analysrapport",
            "Provnummer: P001",
            "Matris: Jord",
            "",
            "  Arsenik (As)          8           mg/kg TS",
        ],
    )];

    let result = run(&pages, vec![nv()], ClassifyOptions::default());

    assert!(matches!(result, Err(SondaError::UnsupportedReport(_))));
}

fn soil_report(matrix: Option<Matrix>) -> AnalysisReport {
    AnalysisReport {
        header: ReportHeader {
            lab_report_id: Some("AR-1".into()),
            matrix,
            ..ReportHeader::default()
        },
        rows: vec![AnalysisRow {
            raw_name: "Arsenik (As)".into(),
            normalized_name: "arsenik".into(),
            value: AnalysisValue::Measured(dec("1200")),
            unit: Unit::MgPerKgTs,
        }],
    }
}

#[test]
fn matrix_mismatch_is_the_hard_error() {
    let (table, db) = reference();
    let plain = ClassifyOptions::default();
    let with_hp = ClassifyOptions { include_hp: true };

    match classify_sample(&soil_report(Some(Matrix::Jord)), &vec![asfalt()], &plain, &table, &db) {
        Err(SondaError::MatrixMismatch { matrix }) => assert_eq!(matrix, "Jord"),
        other => panic!("unexpected outcome {:?}", other),
    }
    match classify_sample(&soil_report(None), &vec![nv()], &plain, &table, &db) {
        Err(e) => assert_eq!(
            e.to_string(),
            "report matrix 'unknown' does not match any of the provided rulesets"
        ),
        other => panic!("unexpected outcome {:?}", other),
    }
    assert!(matches!(
        classify_sample(&soil_report(None), &vec![], &plain, &table, &db),
        Err(SondaError::MatrixMismatch { .. })
    ));

    let sample =
        classify_sample(&soil_report(Some(Matrix::Jord)), &vec![asfalt()], &with_hp, &table, &db)
            .unwrap();
    assert_eq!(sample.sample_id, "AR-1");
    assert_eq!(sample.ruleset_results.len(), 1);
    assert!(sample.ruleset_results[0].hp_details.is_some());

    let both = classify_sample(
        &soil_report(Some(Matrix::Jord)),
        &vec![asfalt(), nv()],
        &with_hp,
        &table,
        &db,
    )
    .unwrap();
    assert_eq!(both.ruleset_results.len(), 2);
    assert_eq!(both.ruleset_results[0].overall_category, "> MKM");
    assert_eq!(both.ruleset_results[1].overall_category, "FA");
}

#[test]
fn value_beyond_the_range_is_reported() {
    let (table, db) = reference();
    let mut report = soil_report(Some(Matrix::Jord));
    report.rows[0].value = AnalysisValue::Measured(
        Decimal::try_new(79_228_162_514_264_337_593_543_950_335, 0).unwrap(),
    );
    let with_hp = ClassifyOptions { include_hp: true };
    match classify_reports(&vec![soil_report(None), report], &vec![], &with_hp, &table, &db) {
        Err(e) => assert_eq!(e.to_string(), "a concentration is too large to be represented"),
        Ok(result) => panic!("{} samples were classified", result.samples.len()),
    }
    let result =
        classify_reports(&vec![soil_report(None)], &vec![], &with_hp, &table, &db).unwrap();
    assert_eq!(result.samples[0].sample_id, "AR-1");
    assert!(result.warnings.is_empty());
    assert!(result.trace.warnings.is_empty());
    assert_eq!(result.trace.entries.len(), 1);
    assert_eq!(result.trace.entries[0].entry_id, "ent_AR-1_0");
    assert!(result.trace.entries[0].evidence_spans.is_empty());
    assert_eq!(result.trace.decisions.len(), 2);
    assert_eq!(
        result.trace.decisions[1].steps[0].step_type,
        TraceStepType::HpCriterion
    );
}

#[test]
fn trace_records_rows_and_decisions() {
    let mut first = page(
        1,
        &[
            "Eurofins Environment Testing Sweden AB",
            "Analysrapport",
            "Provnummer: T1",
            "Matris: Jord",
            "  Arsenik (As)          < 30        mg/kg TS",
            "  Bly (Pb)              n.d.        mg/kg TS",
            "Analysrapport",
            "Provnummer: T2",
        ],
    );
    let span = |line_index: usize, text: &str| LineSpan {
        page_number: 1,
        line_index,
        text: text.into(),
        bbox: BBox {
            x_min: "1.5".into(),
            y_min: "2".into(),
            x_max: "3".into(),
            y_max: "4".into(),
        },
    };
    first.line_spans = vec![
        span(4, "ARSENIK (AS) < 30 mg/kg TS"),
        span(5, "Bly (Pb) n.d. mg/kg TS"),
        span(9, "limit < 30"),
    ];
    let result = run(&[first], vec![nv()], ClassifyOptions::default()).unwrap();

    assert_eq!(result.warnings.len(), 1);
    assert_eq!(
        result.warnings[0].message,
        "Skipped sample 'T2' (section 2): no analysis values found in section"
    );
    assert_eq!(result.warnings[0].sample_id.as_deref(), Some("T2"));

    let trace = &result.trace;
    assert_eq!(trace.trace_schema_version, "1.0");
    assert_eq!(trace.warnings.len(), 2);
    assert!(trace.warnings[0].message.starts_with(
        "Skipped line (failed to parse report: invalid number 'mg/kg TS': "
    ));
    assert!(trace.warnings[0]
        .message
        .ends_with("): 'Bly (Pb)              n.d.        mg/kg TS'"));
    assert_eq!(trace.warnings[0].severity, TraceSeverity::Info);
    assert_eq!(trace.warnings[0].visibility, TraceVisibility::Auto);
    assert_eq!(trace.warnings[1].message, result.warnings[0].message);
    assert_eq!(trace.warnings[1].severity, TraceSeverity::Important);
    assert_eq!(trace.warnings[1].visibility, TraceVisibility::Always);

    assert_eq!(trace.entries.len(), 1);
    let entry = &trace.entries[0];
    assert_eq!(entry.entry_id, "ent_T1_0");
    assert_eq!(entry.raw_value, "< 30");
    assert_eq!(entry.value_kind, TraceValueKind::BelowDetection);
    assert_eq!(entry.numeric_value, dec("30"));
    assert_eq!(entry.unit, "mg/kg TS");
    assert_eq!(entry.steps[0].step_type, TraceStepType::NormalizeSubstance);
    assert_eq!(entry.steps[0].message, "Normalized 'Arsenik (As)' -> 'arsenik'");
    assert_eq!(entry.steps[1].message, "Parsed value '< 30' as 30");
    let lines: Vec<usize> = entry.evidence_spans.iter().map(|s| s.line_index).collect();
    assert_eq!(lines, vec![4, 9]);
    assert_eq!(entry.evidence_spans[0].matched_text, "ARSENIK (AS) < 30 mg/kg TS");
    assert_eq!(entry.evidence_spans[0].x_min, "1.5");
    assert_eq!(entry.evidence_spans[1].y_max, "4");

    assert_eq!(trace.decisions.len(), 2);
    assert_eq!(trace.decisions[0].decision_id, "dec_T1_0_overall");
    assert_eq!(trace.decisions[0].target, TraceDecisionTarget::RulesetOverall);
    assert_eq!(trace.decisions[0].category, "MKM");
    assert_eq!(
        trace.decisions[0].steps[0].message,
        "Overall category 'MKM' determined by: Arsenik (As)"
    );
    assert_eq!(trace.decisions[1].decision_id, "dec_T1_0_sub_0");
    assert_eq!(trace.decisions[1].substance.as_deref(), Some("arsenik"));
    assert_eq!(trace.decisions[1].severity, TraceSeverity::Important);
    assert_eq!(
        trace.decisions[1].steps[0].step_type,
        TraceStepType::ThresholdCompare
    );
}
