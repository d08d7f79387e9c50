use sonda_core::classify::hp_engine::{
    classify_hp, classify_resolved, evaluate, evaluate_hp14, evaluate_hp4, evaluate_hp5,
    evaluate_hp6, evaluate_hp8, sum_for_code,
};
use sonda_core::classify::outcome::{HpCriterionDetail, RuleSetResult};
use sonda_core::clp::database::{check_consistency, lookup_by_cas};
use sonda_core::clp::schema::{
    ClpDatabase, ClpEntry, ClpSubstance, ConcentrationLimit, HazardClass, MFactors, MetalSpeciation,
    PahDirect, SpeciationTable,
};
use sonda_core::clp::speciation::{resolve_substances, ResolvedSubstance};
use sonda_core::decimal::Decimal;
use sonda_core::model::{AnalysisReport, AnalysisRow, AnalysisValue, ReportHeader, Unit};

fn dec(text: &str) -> Decimal {
    Decimal::parse(text).unwrap()
}

fn class(class: &str, category: &str, h_code: &str) -> HazardClass {
    HazardClass {
        class: class.into(),
        category: category.into(),
        h_code: h_code.into(),
        route: None,
    }
}

fn compound(
    cas: &str,
    name: &str,
    classes: Vec<HazardClass>,
    acute: Option<&str>,
    chronic: Option<&str>,
    scls: &[(&str, &str)],
) -> ClpEntry {
    ClpEntry {
        cas: cas.into(),
        substance: ClpSubstance {
            name: name.into(),
            hazard_classes: classes,
            m_factors: MFactors {
                acute: acute.map(dec),
                chronic: chronic.map(dec),
            },
            scls: scls
                .iter()
                .map(|(key, limit)| ConcentrationLimit {
                    key: key.to_string(),
                    limit: dec(limit),
                })
                .collect(),
        },
    }
}

fn database() -> ClpDatabase {
    ClpDatabase {
        version: "test".into(),
        description: "compounds for the tests".into(),
        substances: vec![
            compound(
                "1327-53-3",
                "Diarseniktrioxid (As2O3)",
                vec![
                    class("Carc.", "1A", "H350"),
                    class("Acute Tox.", "3", "H301"),
                    class("Skin Corr.", "1B", "H314"),
                    class("Aquatic Acute", "1", "H400"),
                    class("Aquatic Chronic", "1", "H410"),
                ],
                None,
                None,
                &[],
            ),
            compound(
                "7439-92-1",
                "Bly (Pb)",
                vec![class("Repr.", "1A", "H360FD"), class("Lact.", "", "H362")],
                None,
                None,
                &[("Repr.1A", "0.03")],
            ),
            compound(
                "1306-19-0",
                "Kadmiumoxid (CdO)",
                vec![
                    class("Carc.", "1B", "H350"),
                    class("Muta.", "2", "H341"),
                    class("Repr.", "2", "H361fd"),
                    class("Acute Tox.", "2", "H330"),
                    class("STOT RE", "1", "H372"),
                    class("Aquatic Acute", "1", "H400"),
                    class("Aquatic Chronic", "1", "H410"),
                ],
                None,
                None,
                &[],
            ),
            compound(
                "1333-82-0",
                "Kromtrioxid (CrO3)",
                vec![
                    class("Carc.", "1A", "H350"),
                    class("Muta.", "1B", "H340"),
                    class("Repr.", "2", "H361f"),
                    class("Acute Tox.", "2", "H330"),
                    class("Acute Tox.", "3", "H311"),
                    class("Acute Tox.", "3", "H301"),
                    class("STOT RE", "1", "H372"),
                    class("Skin Corr.", "1A", "H314"),
                    class("Resp. Sens.", "1", "H334"),
                    class("Skin Sens.", "1", "H317"),
                    class("Aquatic Acute", "1", "H400"),
                    class("Aquatic Chronic", "1", "H410"),
                ],
                None,
                None,
                &[],
            ),
            compound(
                "1317-39-1",
                "Koppar(I)oxid (Cu2O)",
                vec![
                    class("Acute Tox.", "4", "H302"),
                    class("Acute Tox.", "4", "H332"),
                    class("Eye Dam.", "1", "H318"),
                    class("Aquatic Acute", "1", "H400"),
                    class("Aquatic Chronic", "1", "H410"),
                ],
                Some("100"),
                Some("1"),
                &[],
            ),
            compound(
                "7487-94-7",
                "Kvicksilver(II)klorid (HgCl2)",
                vec![
                    class("Acute Tox.", "2", "H300"),
                    class("Skin Corr.", "1B", "H314"),
                    class("Muta.", "2", "H341"),
                    class("Repr.", "2", "H361f"),
                    class("STOT RE", "1", "H372"),
                    class("Aquatic Acute", "1", "H400"),
                    class("Aquatic Chronic", "1", "H410"),
                ],
                None,
                None,
                &[],
            ),
            compound(
                "7786-81-4",
                "Nickelsulfat (NiSO4)",
                vec![
                    class("Carc.", "1A", "H350i"),
                    class("Muta.", "2", "H341"),
                    class("Repr.", "1B", "H360D"),
                    class("STOT RE", "1", "H372"),
                    class("Skin Irrit.", "2", "H315"),
                    class("Resp. Sens.", "1", "H334"),
                    class("Skin Sens.", "1", "H317"),
                ],
                None,
                None,
                &[],
            ),
            compound(
                "1314-13-2",
                "Zinkoxid (ZnO)",
                vec![
                    class("Aquatic Acute", "1", "H400"),
                    class("Aquatic Chronic", "1", "H410"),
                ],
                None,
                None,
                &[],
            ),
            compound(
                "1314-62-1",
                "Divanadinpentaoxid (V2O5)",
                vec![
                    class("Muta.", "2", "H341"),
                    class("Repr.", "2", "H361d"),
                    class("STOT RE", "1", "H372"),
                    class("Acute Tox.", "4", "H302"),
                ],
                None,
                None,
                &[],
            ),
            compound(
                "50-32-8",
                "Benso(a)pyren",
                vec![
                    class("Carc.", "1B", "H350"),
                    class("Muta.", "1B", "H340"),
                    class("Repr.", "1B", "H360FD"),
                    class("Skin Sens.", "1", "H317"),
                    class("Aquatic Acute", "1", "H400"),
                    class("Aquatic Chronic", "1", "H410"),
                ],
                None,
                None,
                &[],
            ),
            compound(
                "91-20-3",
                "Naftalen",
                vec![
                    class("Carc.", "2", "H351"),
                    class("Acute Tox.", "4", "H302"),
                    class("Aquatic Acute", "1", "H400"),
                    class("Aquatic Chronic", "1", "H410"),
                ],
                None,
                None,
                &[],
            ),
        ],
    }
}

fn metal(substance: &str, compound: &str, cas: &str, factor: &str) -> MetalSpeciation {
    MetalSpeciation {
        substance: substance.into(),
        compound: compound.into(),
        cas: cas.into(),
        conversion_factor: dec(factor),
        conversion_note: None,
    }
}

fn table() -> SpeciationTable {
    SpeciationTable {
        version: "test".into(),
        description: "speciation for the tests".into(),
        metals: vec![
            metal("arsenik", "As2O3", "1327-53-3", "1.32"),
            metal("bly", "Pb", "7439-92-1", "1.00"),
            metal("kadmium", "CdO", "1306-19-0", "1.14"),
            metal("krom_total", "CrO3", "1333-82-0", "1.92"),
            metal("koppar", "Cu2O", "1317-39-1", "1.13"),
            metal("kvicksilver", "HgCl2", "7487-94-7", "1.35"),
            metal("nickel", "NiSO4", "7786-81-4", "2.64"),
            metal("zink", "ZnO", "1314-13-2", "1.24"),
            metal("vanadin", "V2O5", "1314-62-1", "1.78"),
        ],
        pah_direct: vec![
            PahDirect {
                substance: "benso_a_pyren".into(),
                cas: "50-32-8".into(),
            },
            PahDirect {
                substance: "naftalen".into(),
                cas: "91-20-3".into(),
            },
        ],
    }
}

fn row(name: &str, norm: &str, val: AnalysisValue) -> AnalysisRow {
    AnalysisRow {
        raw_name: name.into(),
        normalized_name: norm.into(),
        value: val,
        unit: Unit::MgPerKgTs,
    }
}

fn report(rows: Vec<AnalysisRow>) -> AnalysisReport {
    AnalysisReport {
        header: ReportHeader::default(),
        rows,
    }
}

fn hp(r: &AnalysisReport) -> RuleSetResult {
    classify_hp(r, &table(), &database()).unwrap()
}

fn criterion<'a>(result: &'a RuleSetResult, id: &str) -> &'a HpCriterionDetail {
    result
        .hp_details
        .as_ref()
        .unwrap()
        .criteria_results
        .iter()
        .find(|c| c.hp_id == id)
        .unwrap()
}

#[test]
fn test_hp7_arsenic_triggers() {
    let r = report(vec![row(
        "Arsenik (As)",
        "arsenik",
        AnalysisValue::Measured(dec("1200")),
    )]);
    let result = hp(&r);
    assert_eq!(result.overall_category, "FA");
    assert!(criterion(&result, "HP7").triggered);
}

#[test]
fn test_hp7_arsenic_below_threshold() {
    let r = report(vec![row(
        "Arsenik (As)",
        "arsenik",
        AnalysisValue::Measured(dec("10")),
    )]);
    let result = hp(&r);
    assert!(!criterion(&result, "HP7").triggered);
}

#[test]
fn test_hp10_lead_scl() {
    let r = report(vec![row(
        "Bly (Pb)",
        "bly",
        AnalysisValue::Measured(dec("300")),
    )]);
    let result = hp(&r);
    assert!(criterion(&result, "HP10").triggered);
}

#[test]
fn test_hp10_lead_below_scl() {
    let r = report(vec![row(
        "Bly (Pb)",
        "bly",
        AnalysisValue::Measured(dec("200")),
    )]);
    let result = hp(&r);
    assert!(!criterion(&result, "HP10").triggered);
}

#[test]
fn test_hp14_copper_m_factor() {
    let r = report(vec![row(
        "Koppar (Cu)",
        "koppar",
        AnalysisValue::Measured(dec("500")),
    )]);
    let result = hp(&r);
    assert!(!criterion(&result, "HP14").triggered);
}

#[test]
fn test_hp14_high_copper_triggers() {
    let r = report(vec![row(
        "Koppar (Cu)",
        "koppar",
        AnalysisValue::Measured(dec("5000")),
    )]);
    let result = hp(&r);
    assert!(criterion(&result, "HP14").triggered);
}

#[test]
fn test_clean_soil_icke_fa() {
    let r = report(vec![
        row("Arsenik (As)", "arsenik", AnalysisValue::Measured(dec("5"))),
        row("Bly (Pb)", "bly", AnalysisValue::Measured(dec("20"))),
        row("Kadmium (Cd)", "kadmium", AnalysisValue::Measured(dec("0.5"))),
        row("Koppar (Cu)", "koppar", AnalysisValue::Measured(dec("30"))),
        row("Zink (Zn)", "zink", AnalysisValue::Measured(dec("80"))),
    ]);
    let result = hp(&r);
    assert_eq!(result.overall_category, "Icke FA");
    assert!(result
        .hp_details
        .as_ref()
        .unwrap()
        .criteria_results
        .iter()
        .all(|c| !c.triggered));
}

#[test]
fn test_below_detection_does_not_trigger() {
    let r = report(vec![row(
        "Arsenik (As)",
        "arsenik",
        AnalysisValue::BelowDetection(dec("2000")),
    )]);
    let result = hp(&r);
    assert_eq!(result.overall_category, "Icke FA");
}

#[test]
fn test_hp11_chromium_mutagenic() {
    let r = report(vec![row(
        "Krom total",
        "krom_total",
        AnalysisValue::Measured(dec("1000")),
    )]);
    let result = hp(&r);
    assert!(criterion(&result, "HP11").triggered);
}

#[test]
fn test_hp5_stot_mercury_chromium() {
    let r = report(vec![
        row(
            "Kvicksilver (Hg)",
            "kvicksilver",
            AnalysisValue::Measured(dec("200")),
        ),
        row(
            "Krom total",
            "krom_total",
            AnalysisValue::Measured(dec("3000")),
        ),
    ]);
    let result = hp(&r);
    assert!(!criterion(&result, "HP5").triggered);
}

#[test]
fn test_hp5_stot_triggers() {
    let r = report(vec![
        row(
            "Kvicksilver (Hg)",
            "kvicksilver",
            AnalysisValue::Measured(dec("1000")),
        ),
        row(
            "Krom total",
            "krom_total",
            AnalysisValue::Measured(dec("6000")),
        ),
        row(
            "Kadmium (Cd)",
            "kadmium",
            AnalysisValue::Measured(dec("500")),
        ),
        row(
            "Vanadin (V)",
            "vanadin",
            AnalysisValue::Measured(dec("2000")),
        ),
    ]);
    let result = hp(&r);
    assert!(criterion(&result, "HP5").triggered);
}

#[test]
fn test_overall_fa_with_multiple_triggers() {
    let r = report(vec![
        row(
            "Arsenik (As)",
            "arsenik",
            AnalysisValue::Measured(dec("1500")),
        ),
        row("Koppar (Cu)", "koppar", AnalysisValue::Measured(dec("5000"))),
    ]);
    let result = hp(&r);
    assert_eq!(result.overall_category, "FA");
    assert!(result.overall_reason.contains("HP7"));
    assert!(result.overall_reason.contains("HP14"));
}

#[test]
fn test_naftalen_hp7_carc2() {
    let r = report(vec![row(
        "Naftalen",
        "naftalen",
        AnalysisValue::Measured(dec("10000")),
    )]);
    let result = hp(&r);
    assert!(criterion(&result, "HP7").triggered);
}

#[test]
fn test_bap_hp11_mutagenic() {
    let r = report(vec![row(
        "Benso(a)pyren",
        "benso_a_pyren",
        AnalysisValue::Measured(dec("1000")),
    )]);
    let result = hp(&r);
    assert!(criterion(&result, "HP11").triggered);
}

#[test]
fn test_lookup_arsenic() {
    let db = database();
    let sub = lookup_by_cas(&db, "1327-53-3").unwrap();
    assert!(sub.name.contains("As2O3"));
    assert!(sub.has_h_code("H350"));
    assert!(sub.has_h_code("H301"));
    assert!(sub.has_h_code("H410"));
}

#[test]
fn test_lookup_bap() {
    let db = database();
    let sub = lookup_by_cas(&db, "50-32-8").unwrap();
    assert!(sub.name.contains("Benso(a)pyren"));
    assert!(sub.has_h_code("H350"));
    assert!(sub.has_h_code("H340"));
    assert!(sub.has_h_code("H360FD"));
}

#[test]
fn test_copper_m_factors() {
    let db = database();
    let sub = lookup_by_cas(&db, "1317-39-1").unwrap();
    assert_eq!(sub.m_factors.acute, Some(dec("100")));
    assert_eq!(sub.m_factors.chronic, Some(dec("1")));
}

#[test]
fn test_lead_scl() {
    let db = database();
    let sub = lookup_by_cas(&db, "7439-92-1").unwrap();
    assert_eq!(sub.specific_limit("Repr.1A"), Some(dec("0.03")));
    assert_eq!(sub.specific_limit("Repr.1B"), None);
}

#[test]
fn test_all_speciation_cas_exist_in_clp() {
    assert!(check_consistency(&table(), &database()));
    let mut broken = table();
    broken.pah_direct.push(PahDirect {
        substance: "antracen".into(),
        cas: "120-12-7".into(),
    });
    assert!(!check_consistency(&broken, &database()));
}

#[test]
fn test_resolve_arsenic() {
    let report = report(vec![row(
        "Arsenik (As)",
        "arsenik",
        AnalysisValue::Measured(dec("100")),
    )]);
    let (table, db) = (table(), database());
    let (resolved, unresolved) = resolve_substances(&report, &table, &db).unwrap();
    assert_eq!(resolved.len(), 1);
    assert!(unresolved.is_empty());

    let r = &resolved[0];
    assert_eq!(r.cas, "1327-53-3");
    assert_eq!(r.compound_name, "As2O3");
    assert_eq!(r.concentration_pct, dec("0.0132"));
    assert!(!r.below_detection);
}

#[test]
fn test_resolve_bap() {
    let report = report(vec![row(
        "Benso(a)pyren",
        "benso_a_pyren",
        AnalysisValue::Measured(dec("15")),
    )]);
    let (table, db) = (table(), database());
    let (resolved, _) = resolve_substances(&report, &table, &db).unwrap();
    assert_eq!(resolved.len(), 1);

    let r = &resolved[0];
    assert_eq!(r.cas, "50-32-8");
    assert_eq!(r.concentration_pct, dec("0.0015"));
}

#[test]
fn test_below_detection_is_zero() {
    let report = report(vec![row(
        "Arsenik (As)",
        "arsenik",
        AnalysisValue::BelowDetection(dec("5")),
    )]);
    let (table, db) = (table(), database());
    let (resolved, _) = resolve_substances(&report, &table, &db).unwrap();
    assert_eq!(resolved.len(), 1);
    assert_eq!(resolved[0].concentration_pct, dec("0"));
    assert!(resolved[0].below_detection);
}

#[test]
fn test_pah_group_sums_skipped() {
    let report = report(vec![
        row("PAH L summa", "pah_l", AnalysisValue::Measured(dec("50"))),
        row("PAH-16", "pah_16", AnalysisValue::Measured(dec("200"))),
    ]);
    let (table, db) = (table(), database());
    let (resolved, _) = resolve_substances(&report, &table, &db).unwrap();
    assert!(resolved.is_empty());
}

#[test]
fn test_unknown_substance_unresolved() {
    let report = report(vec![row(
        "Bensen",
        "bensen",
        AnalysisValue::Measured(dec("0.5")),
    )]);
    let (table, db) = (table(), database());
    let (resolved, unresolved) = resolve_substances(&report, &table, &db).unwrap();
    assert!(resolved.is_empty());
    assert_eq!(unresolved, vec!["bensen"]);
}

#[test]
fn test_nickel_conversion() {
    let report = report(vec![row(
        "Nickel (Ni)",
        "nickel",
        AnalysisValue::Measured(dec("1000")),
    )]);
    let (table, db) = (table(), database());
    let (resolved, _) = resolve_substances(&report, &table, &db).unwrap();
    assert_eq!(resolved.len(), 1);
    let r = &resolved[0];
    assert_eq!(r.concentration_pct, dec("0.2640"));
}

#[test]
fn test_mixed_report() {
    let report = report(vec![
        row("Arsenik (As)", "arsenik", AnalysisValue::Measured(dec("25"))),
        row("Bly (Pb)", "bly", AnalysisValue::Measured(dec("500"))),
        row(
            "Benso(a)pyren",
            "benso_a_pyren",
            AnalysisValue::Measured(dec("2")),
        ),
        row("PAH-16", "pah_16", AnalysisValue::Measured(dec("100"))),
        row("Bensen", "bensen", AnalysisValue::Measured(dec("0.1"))),
    ]);
    let (table, db) = (table(), database());
    let (resolved, unresolved) = resolve_substances(&report, &table, &db).unwrap();
    assert_eq!(resolved.len(), 3);
    assert_eq!(unresolved, vec!["bensen"]);
}

#[test]
fn arsenic_resolves_to_its_oxide() {
    let high = report(vec![row(
        "Arsenik (As)",
        "arsenik",
        AnalysisValue::Measured(dec("1200")),
    )]);
    let (table, db) = (table(), database());
    let (resolved, _) = resolve_substances(&high, &table, &db).unwrap();
    let c = resolved[0].concentration_pct;
    assert_eq!((c.mantissa(), c.scale()), (158400, 6));
    assert_eq!(c, dec("0.1584"));

    let low = report(vec![row(
        "Arsenik (As)",
        "arsenik",
        AnalysisValue::Measured(dec("10")),
    )]);
    let (resolved, _) = resolve_substances(&low, &table, &db).unwrap();
    assert_eq!(resolved[0].concentration_pct, dec("0.00132"));
    let result = hp(&low);
    assert_eq!(result.overall_category, "Icke FA");
    assert_eq!(
        result.overall_reason,
        "Icke farligt avfall: no HP criteria triggered"
    );
}

#[test]
fn criteria_come_in_their_order_with_their_names() {
    let result = hp(&report(vec![]));
    let details = result.hp_details.as_ref().unwrap();
    let ids: Vec<&str> = details
        .criteria_results
        .iter()
        .map(|c| c.hp_id.as_str())
        .collect();
    assert_eq!(
        ids,
        vec!["HP7", "HP11", "HP10", "HP5", "HP6", "HP4", "HP8", "HP13", "HP14"]
    );
    let names: Vec<&str> = details
        .criteria_results
        .iter()
        .map(|c| c.hp_name.as_str())
        .collect();
    assert_eq!(
        names,
        vec![
            "Carcinogenic",
            "Mutagenic",
            "Toxic for reproduction",
            "STOT SE/RE",
            "Acute Toxicity",
            "Irritant",
            "Corrosive",
            "Sensitising",
            "Ecotoxic"
        ]
    );
    assert!(!details.is_hazardous);
    assert_eq!(result.ruleset_name, "Farligt avfall (HP-bedömning)");
    assert!(result.lowest_category.is_none());
    assert!(result.unmatched_rules.is_empty());
}

#[test]
fn evaluation_is_repeatable() {
    let r = report(vec![
        row("Arsenik (As)", "arsenik", AnalysisValue::Measured(dec("1500"))),
        row("Koppar (Cu)", "koppar", AnalysisValue::Measured(dec("5000"))),
        row("Bly (Pb)", "bly", AnalysisValue::BelowDetection(dec("9000"))),
    ]);
    let (table, db) = (table(), database());
    let (resolved, _) = resolve_substances(&r, &table, &db).unwrap();
    let first = format!("{:?}", evaluate(&resolved).unwrap());
    let second = format!("{:?}", evaluate(&resolved).unwrap());
    assert_eq!(first, second);
}

fn single(entry: ClpEntry, concentration: &str) -> (AnalysisRow, ClpEntry, Decimal) {
    (
        row("X", "x", AnalysisValue::Measured(dec("1"))),
        entry,
        dec(concentration),
    )
}

fn resolved_of<'a>(parts: &'a (AnalysisRow, ClpEntry, Decimal)) -> ResolvedSubstance<'a> {
    ResolvedSubstance {
        row: &parts.0,
        clp: &parts.1.substance,
        cas: parts.1.cas.clone(),
        concentration_pct: parts.2,
        below_detection: false,
        compound_name: "X".into(),
    }
}

#[test]
fn ecotoxic_boundary_is_inclusive() {
    let acute_only = || {
        compound(
            "x",
            "X",
            vec![class("Aquatic Acute", "1", "H400")],
            Some("100"),
            None,
            &[],
        )
    };
    for (concentration, expected) in [("0.25", true), ("0.2499", false), ("0.250", true), ("0.2501", true), ("0", false)] {
        let parts = single(acute_only(), concentration);
        let detail = evaluate_hp14(&vec![resolved_of(&parts)]).unwrap();
        assert_eq!(detail.triggered, expected, "at {}", concentration);
        assert_eq!(detail.contributions.len(), 1);
        assert_eq!(detail.contributions[0].h_code, "H400");
        assert_eq!(detail.contributions[0].triggers, expected);
        assert_eq!(detail.contributions[0].threshold_pct, Some(dec("25")));
    }
    let parts = single(acute_only(), "0.25");
    let detail = evaluate_hp14(&vec![resolved_of(&parts)]).unwrap();
    assert_eq!(detail.contributions[0].concentration_pct, dec("25"));
    assert_eq!(
        detail.reason,
        "Ecotoxic triggered: H400×M(ac) sum: 25.0000% >= 25.0%"
    );
    let parts = single(acute_only(), "0.1");
    let detail = evaluate_hp14(&vec![resolved_of(&parts)]).unwrap();
    assert_eq!(
        detail.reason,
        "Ecotoxic not triggered (H400×M sum: 10.0000%, 100×H410×M sum: 0.0000%)"
    );
}

#[test]
fn chronic_check_weighs_by_a_hundred() {
    let chronic = compound(
        "x",
        "X",
        vec![class("Aquatic Chronic", "1", "H410")],
        None,
        Some("10"),
        &[],
    );
    let parts = single(chronic, "0.025");
    let detail = evaluate_hp14(&vec![resolved_of(&parts)]).unwrap();
    assert!(detail.triggered);
    assert_eq!(detail.contributions[0].h_code, "H410");
    assert_eq!(detail.contributions[0].concentration_pct, dec("25"));
    assert_eq!(
        detail.reason,
        "Ecotoxic triggered: 100×H410×M(ch) sum: 25.0000% >= 25.0%"
    );
}

#[test]
fn sums_count_only_the_exact_code() {
    let irritant = single(
        compound("a", "A", vec![class("Skin Irrit.", "2", "H315")], None, None, &[]),
        "12",
    );
    let other = single(
        compound("b", "B", vec![class("Eye Irrit.", "2", "H319")], None, None, &[]),
        "15",
    );
    let longer = single(
        compound("c", "C", vec![class("Skin Irrit.", "2", "H315A")], None, None, &[]),
        "90",
    );
    let mut hidden = resolved_of(&irritant);
    hidden.below_detection = true;
    hidden.concentration_pct = dec("50");
    let resolved = vec![
        resolved_of(&irritant),
        resolved_of(&other),
        resolved_of(&longer),
        hidden,
    ];
    assert_eq!(sum_for_code(&resolved, "H315"), Some(dec("12")));
    assert_eq!(sum_for_code(&resolved, "H319"), Some(dec("15")));
    assert_eq!(sum_for_code(&resolved, "H314"), Some(dec("0")));
    let detail = evaluate_hp4(&resolved).unwrap();
    assert!(!detail.triggered);
    assert_eq!(detail.reason, "Irritant summation thresholds not exceeded");
    assert_eq!(detail.contributions.len(), 2);

    let more = single(
        compound("d", "D", vec![class("Skin Irrit.", "2", "H315")], None, None, &[]),
        "8",
    );
    let resolved = vec![resolved_of(&irritant), resolved_of(&other), resolved_of(&more)];
    let detail = evaluate_hp4(&resolved).unwrap();
    assert!(detail.triggered);
    assert_eq!(detail.reason, "Irritant summation threshold exceeded");
    let triggers: Vec<(&str, bool)> = detail
        .contributions
        .iter()
        .map(|c| (c.compound.as_str(), c.triggers))
        .collect();
    assert_eq!(triggers, vec![("X", true), ("X", true), ("X", false)]);
    let codes: Vec<&str> = detail.contributions.iter().map(|c| c.h_code.as_str()).collect();
    assert_eq!(codes, vec!["H315", "H315", "H319"]);
}

#[test]
fn corrosive_and_acute_toxicity_tell_their_sums() {
    let corrosive = single(
        compound(
            "a",
            "A",
            vec![class("Skin Corr.", "1B", "H314"), class("Acute Tox.", "2", "H300")],
            None,
            None,
            &[],
        ),
        "5.0",
    );
    let resolved = vec![resolved_of(&corrosive)];
    let hp8 = evaluate_hp8(&resolved).unwrap();
    assert!(hp8.triggered);
    assert_eq!(hp8.reason, "Corrosive: H314 sum 5.0000% >= 5.0%");
    let hp6 = evaluate_hp6(&resolved).unwrap();
    assert!(hp6.triggered);
    assert_eq!(
        hp6.reason,
        "Acute toxicity triggered: H300 sum 5.0000% >= 0.1%"
    );
    let mild = single(
        compound("a", "A", vec![class("Skin Corr.", "1B", "H314")], None, None, &[]),
        "4.99",
    );
    let resolved = vec![resolved_of(&mild)];
    let hp8 = evaluate_hp8(&resolved).unwrap();
    assert!(!hp8.triggered);
    assert_eq!(hp8.reason, "Corrosive not triggered: H314 sum 4.9900% < 5.0%");
    assert_eq!(
        evaluate_hp6(&resolved).unwrap().reason,
        "No acute toxicity summation thresholds exceeded"
    );
}

#[test]
fn organ_toxicity_tells_both_sums() {
    let r = report(vec![
        row("Kvicksilver (Hg)", "kvicksilver", AnalysisValue::Measured(dec("200"))),
        row("Krom total", "krom_total", AnalysisValue::Measured(dec("3000"))),
    ]);
    let (table, db) = (table(), database());
    let (resolved, _) = resolve_substances(&r, &table, &db).unwrap();
    let detail = evaluate_hp5(&resolved).unwrap();
    assert_eq!(
        detail.reason,
        "STOT not triggered (H372 sum: 0.6030%, H373 sum: 0.0000%)"
    );
    assert_eq!(sum_for_code(&resolved, "H372"), Some(dec("0.603")));
    let single_exposure = single(
        compound("a", "A", vec![class("STOT SE", "1", "H370")], None, None, &[]),
        "1.0",
    );
    let detail = evaluate_hp5(&vec![resolved_of(&single_exposure)]).unwrap();
    assert!(detail.triggered);
    assert_eq!(
        detail.reason,
        "STOT triggered (H372 sum: 0.0000% >= 1.0%, H373 sum: 0.0000% >= 10.0%)"
    );
}

#[test]
fn deciding_substances_are_sorted_and_unique() {
    let r = report(vec![
        row("Koppar (Cu)", "koppar", AnalysisValue::Measured(dec("5000"))),
        row("Arsenik (As)", "arsenik", AnalysisValue::Measured(dec("1500"))),
        row("Zink (Zn)", "zink", AnalysisValue::Measured(dec("1"))),
        row("Bensen", "bensen", AnalysisValue::Measured(dec("1"))),
        row("Bly (Pb)", "bly", AnalysisValue::Measured(dec("1"))),
    ]);
    let result = hp(&r);
    assert_eq!(
        result.overall_reason,
        "Farligt avfall: triggered by HP7, HP14"
    );
    assert_eq!(
        result.determining_substances,
        vec!["arsenik", "koppar", "zink"]
    );
    assert_eq!(result.unmatched_substances, vec!["bensen"]);
    let categories: Vec<(&str, &str)> = result
        .substance_results
        .iter()
        .map(|s| (s.substance.as_str(), s.category.as_str()))
        .collect();
    assert_eq!(
        categories,
        vec![
            ("koppar", "FA"),
            ("arsenik", "FA"),
            ("zink", "FA"),
            ("bly", "Icke FA")
        ]
    );
    assert_eq!(
        result.substance_results[1].reason,
        "Arsenik (As) -> As2O3 (1327-53-3): 0.1980% w/w"
    );
}

#[test]
fn concentration_beyond_the_range_gives_none() {
    let huge = Decimal::try_new(79_228_162_514_264_337_593_543_950_335, 0).unwrap();
    let r = report(vec![row(
        "Arsenik (As)",
        "arsenik",
        AnalysisValue::Measured(huge),
    )]);
    assert!(resolve_substances(&r, &table(), &database()).is_none());
    assert!(classify_hp(&r, &table(), &database()).is_none());

    let acute = single(
        compound(
            "x",
            "X",
            vec![class("Aquatic Acute", "1", "H400")],
            Some("100"),
            None,
            &[],
        ),
        "1",
    );
    let mut big = resolved_of(&acute);
    big.concentration_pct = huge;
    assert!(evaluate_hp14(&vec![big.clone()]).is_none());
    assert!(evaluate(&vec![big.clone()]).is_none());
    assert!(classify_resolved(&vec![big], vec![]).is_none());
}

#[test]
fn total_too_long_to_write_gives_none() {
    let acute = single(
        compound("x", "X", vec![class("Aquatic Acute", "1", "H400")], None, None, &[]),
        "1",
    );
    let mut wide = resolved_of(&acute);
    wide.concentration_pct = Decimal::try_new(10i128.pow(27), 0).unwrap();
    assert!(evaluate_hp14(&vec![wide.clone()]).is_none());
    assert!(evaluate(&vec![wide.clone()]).is_none());
    let mut edge = resolved_of(&acute);
    edge.concentration_pct = Decimal::try_new(10i128.pow(27) - 1, 0).unwrap();
    let detail = evaluate_hp14(&vec![edge.clone()]).unwrap();
    assert_eq!(
        detail.reason,
        "Ecotoxic triggered: H400×M(ac) sum: 999999999999999999999999999.0000% >= 25.0%"
    );

    let corrosive = single(
        compound(
            "y",
            "Y",
            vec![
                class("Skin Corr.", "1B", "H314"),
                class("STOT RE", "1", "H372"),
                class("Acute Tox.", "2", "H300"),
                class("Skin Irrit.", "2", "H315"),
            ],
            None,
            None,
            &[],
        ),
        "1",
    );
    let mut wide = resolved_of(&corrosive);
    wide.concentration_pct = Decimal::try_new(10i128.pow(27), 0).unwrap();
    let list = vec![wide];
    assert!(evaluate_hp8(&list).is_none());
    assert!(evaluate_hp5(&list).is_none());
    assert!(evaluate_hp6(&list).is_none());
    assert!(evaluate_hp4(&list).unwrap().triggered);
    assert!(classify_resolved(&list, vec![]).is_none());

    let harmless = single(compound("z", "Z", vec![], None, None, &[]), "1");
    let mut wide = resolved_of(&harmless);
    wide.concentration_pct = Decimal::try_new(10i128.pow(27), 0).unwrap();
    assert!(evaluate(&vec![wide.clone()]).is_some());
    assert!(classify_resolved(&vec![wide], vec![]).is_none());
    let mut edge = resolved_of(&harmless);
    edge.concentration_pct = Decimal::try_new(10i128.pow(27) - 1, 0).unwrap();
    let result = classify_resolved(&vec![edge], vec![]).unwrap();
    assert_eq!(
        result.substance_results[0].reason,
        "X -> X (z): 999999999999999999999999999.0000% w/w"
    );
}
