use sonda_core::parsing::normalize::normalize_substance;

#[test]
fn test_simple_name() {
    assert_eq!(normalize_substance("Bly"), "bly");
}

#[test]
fn test_with_chemical_symbol_parens() {
    assert_eq!(normalize_substance("Arsenik (As)"), "arsenik");
}

#[test]
fn test_with_chemical_symbol_no_parens() {
    assert_eq!(normalize_substance("Arsenik As"), "arsenik");
}

#[test]
fn test_krom_total() {
    assert_eq!(normalize_substance("Krom total"), "krom_total");
    assert_eq!(normalize_substance("Krom totalt"), "krom_total");
}

#[test]
fn test_aliphatic_ranges() {
    assert_eq!(normalize_substance("Alifater >C5-C8"), "alifater_c5_c8");
    assert_eq!(normalize_substance("Alifater C10-C12"), "alifater_c10_c12");
    assert_eq!(normalize_substance("Alifater >C16-C35"), "alifater_c16_c35");
}

#[test]
fn test_pah_groups() {
    assert_eq!(normalize_substance("PAH L summa"), "pah_l");
    assert_eq!(normalize_substance("PAH M summa"), "pah_m");
    assert_eq!(normalize_substance("PAH H summa"), "pah_h");
    assert_eq!(normalize_substance("Summa PAH L"), "pah_l");
}

#[test]
fn test_pah_16() {
    assert_eq!(normalize_substance("Summa 16 PAH"), "pah_16");
    assert_eq!(normalize_substance("PAH 16 summa"), "pah_16");
}

#[test]
fn test_individual_pah() {
    assert_eq!(normalize_substance("Benso(a)pyren"), "benso_a_pyren");
    assert_eq!(
        normalize_substance("Indeno(1,2,3-cd)pyren"),
        "indeno_1_2_3_cd_pyren"
    );
}

#[test]
fn test_whitespace_handling() {
    assert_eq!(normalize_substance("  Bly  "), "bly");
}

#[test]
fn test_unknown_substance_passthrough() {
    assert_eq!(
        normalize_substance("Unknown Substance"),
        "unknown_substance"
    );
}

#[test]
fn symbol_group_is_measured_in_bytes() {
    // "(Äää)" takes eight bytes, so it is no symbol and stays.
    assert_eq!(normalize_substance("Bly (Äää)"), "bly_äää");
    assert_eq!(normalize_substance("Bly (Pb)"), "bly");
}

#[test]
fn last_word_goes_only_if_it_is_a_symbol() {
    assert_eq!(normalize_substance("Zink Zn"), "zink");
    assert_eq!(normalize_substance("Zink Xx"), "zink_xx");
    assert_eq!(normalize_substance("Zn"), "zink");
}

#[test]
fn separators_collapse_to_one_underscore() {
    assert_eq!(normalize_substance("a -- b"), "a_b");
    assert_eq!(normalize_substance("--a--"), "a");
    assert_eq!(normalize_substance("Torrsubstans"), "ts");
}

#[test]
fn canonical_names_stay_as_they_are() {
    let raw = [
        "Bly",
        "Arsenik (As)",
        "Arsenik As",
        "Krom totalt",
        "Alifater >C5-C8",
        "PAH L summa",
        "Summa 16 PAH",
        "Benso(a)pyren",
        "Indeno(1,2,3-cd)pyren",
        "  Bly  ",
        "Unknown Substance",
        "Torrsubstans",
        "Kvicksilver (Hg)",
    ];
    for name in raw {
        let once = normalize_substance(name);
        assert_eq!(normalize_substance(&once), once, "for {name}");
    }
}
