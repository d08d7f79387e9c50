use sonda_core::extraction::table::{find_table_regions, is_table_header};
use sonda_core::extraction::PageContent;

#[test]
fn test_is_table_header() {
    assert!(is_table_header(
        "  Analys           Resultat    Enhet     Metod"
    ));
    assert!(!is_table_header("  Arsenik (As)     68     mg/kg TS"));
}

#[test]
fn test_find_table_regions() {
    let pages = vec![PageContent {
        page_number: 1,
        lines: vec![
            "Header stuff".into(),
            "  Analys           Resultat    Enhet     Metod".into(),
            "  Arsenik (As)     68          mg/kg TS  SS-EN".into(),
            "  Bly (Pb)         120         mg/kg TS  SS-EN".into(),
            "".into(),
            "Footer".into(),
        ],
        line_spans: vec![],
    }];

    let regions = find_table_regions(&pages);
    assert_eq!(regions.len(), 1);
    assert_eq!(regions[0].start_line, 2);
    assert_eq!(regions[0].end_line, 4);
}

#[test]
fn one_title_is_no_header() {
    assert!(!is_table_header("Analys"));
    assert!(is_table_header("PARAMETER och MÄTOSÄKERHET"));
}

#[test]
fn table_open_at_end_of_page_counts() {
    let pages = vec![
        PageContent {
            page_number: 3,
            lines: vec![
                "Analys  Resultat".into(),
                "Sida 1".into(),
                "Parameter Enhet".into(),
                "Bly  5".into(),
            ],
            line_spans: vec![],
        },
        PageContent {
            page_number: 4,
            lines: vec!["Analys Metod".into()],
            line_spans: vec![],
        },
    ];
    let regions = find_table_regions(&pages);
    assert_eq!(regions.len(), 1);
    assert_eq!(regions[0].page_number, 3);
    assert_eq!(regions[0].start_line, 3);
    assert_eq!(regions[0].end_line, 4);
}
