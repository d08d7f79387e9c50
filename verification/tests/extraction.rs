use sonda_core::decimal::Decimal;
use sonda_core::error::SondaError;
use sonda_core::extraction::looks_like_json;
use sonda_core::extraction::pdftotext::{
    decode_xml_entities, pages_from_text, parse_attr, parse_attr_usize, parse_bbox_xml, BoxedLine,
};
use sonda_core::extraction::BBox;
use sonda_core::extraction::sweco_xlsx::{sweco_reports, SwecoRow};
use sonda_core::model::{AnalysisValue, Matrix, Unit};

#[test]
fn test_parse_bbox_xml_lines() {
    let xml = r#"
<doc>
  <page number="1">
    <line xMin="10.0" yMin="20.0" xMax="60.0" yMax="30.0">
      <word xMin="10.0" yMin="20.0" xMax="30.0" yMax="30.0">Arsenik</word>
      <word xMin="32.0" yMin="20.0" xMax="40.0" yMax="30.0">(As)</word>
    </line>
  </page>
</doc>
"#;
    let lines = parse_bbox_xml(xml);
    assert_eq!(lines.len(), 1);
    assert_eq!(lines[0].page_number, 1);
    assert_eq!(lines[0].text, "Arsenik (As)");
    assert_eq!(lines[0].bbox.x_min, "10.0");
    assert_eq!(lines[0].bbox.y_min, "20.0");
    assert_eq!(lines[0].bbox.x_max, "60.0");
    assert_eq!(lines[0].bbox.y_max, "30.0");
}

#[test]
fn pages_are_numbered_by_attribute_or_place() {
    let xml = [
        "<page width=\"1\"><line xMin=\"1\" yMin=\"2\" xMax=\"3\" yMax=\"4\">",
        "<word a=\"b\">A &amp;amp; B</word><word x=\"\">  </word><word x=\"\"> &lt;5 </word></line>",
        "<line xMin=\"1\" yMin=\"2\" xMax=\"3\"><word x=\"\">no corner</word></line>",
        "<line xMin=\"1\" yMin=\"2\" xMax=\"3\" yMax=\"4\"></line></page>",
        "<page number=\"7\"><line xMin=\"a\" yMin=\"b\" xMax=\"c\" yMax=\"d\"><word q=\"\">x</word></line>",
        "<line xMin=\"1\" yMin=\"2\" xMax=\"3\" yMax=\"4\"><word q=\"\">open",
        "</page>",
        "<page number=\"x\"><line xMin=\"1\" yMin=\"2\" xMax=\"3\" yMax=\"4\"><word q=\"\">y</word></line></page>",
        "<page number=\"9\"><line xMin=\"1\" yMin=\"2\" xMax=\"3\" yMax=\"4\"><word q=\"\">lost</word></line>",
    ]
    .join("");
    let lines = parse_bbox_xml(&xml);
    let seen: Vec<(usize, &str, &str)> = lines
        .iter()
        .map(|l| (l.page_number, l.text.as_str(), l.bbox.x_min.as_str()))
        .collect();
    assert_eq!(seen, vec![(1, "A &amp; B <5", "1"), (7, "x", "a"), (3, "y", "1")]);
}

#[test]
fn entities_are_decoded_one_after_the_other() {
    assert_eq!(decode_xml_entities("a &lt;b&gt; &quot;c&quot; &apos;d&apos;"), "a <b> \"c\" 'd'");
    assert_eq!(decode_xml_entities("&amp;lt;"), "<");
    assert_eq!(decode_xml_entities("&amp;&amp;amp;"), "&&amp;");
    assert_eq!(decode_xml_entities("no entity & here"), "no entity & here");
    assert_eq!(decode_xml_entities(""), "");
}

#[test]
fn attributes_are_read_between_quotes() {
    let tag = "<page number=\"12\" width=\"595.0\" note=\"\">";
    assert_eq!(parse_attr(tag, "number").as_deref(), Some("12"));
    assert_eq!(parse_attr(tag, "width").as_deref(), Some("595.0"));
    assert_eq!(parse_attr(tag, "note").as_deref(), Some(""));
    assert_eq!(parse_attr(tag, "height"), None);
    assert_eq!(parse_attr("<page number=\"12", "number"), None);
    assert_eq!(parse_attr_usize(tag, "number"), Some(12));
    assert_eq!(parse_attr_usize(tag, "width"), None);
    assert_eq!(parse_attr_usize(tag, "note"), None);
    assert_eq!(parse_attr_usize("<p n=\"+7\">", "n"), Some(7));
    assert_eq!(parse_attr_usize("<p n=\"-7\">", "n"), None);
    assert_eq!(parse_attr_usize("<p n=\"+\">", "n"), None);
    assert_eq!(parse_attr_usize("<p n=\"007\">", "n"), Some(7));
    assert_eq!(
        parse_attr_usize("<p n=\"99999999999999999999999999\">", "n"),
        None
    );
    assert_eq!(
        parse_attr_usize(&format!("<p n=\"{}\">", usize::MAX), "n"),
        Some(usize::MAX)
    );
}

#[test]
fn json_is_told_by_its_first_visible_byte() {
    assert!(looks_like_json(b"  \n\t[1]"));
    assert!(looks_like_json(b"{"));
    assert!(!looks_like_json(b"%PDF-1.4"));
    assert!(!looks_like_json(b" \r\n "));
    assert!(!looks_like_json(b""));
    assert!(!looks_like_json(b"\x0b{"));
    assert!(looks_like_json(b"\x0c{"));
}

fn sheet_row(name: Option<&str>, value: Option<&str>, cell_text: &str) -> SwecoRow {
    SwecoRow {
        name: name.map(|n| n.to_string()),
        value: value.map(|v| Decimal::parse(v).unwrap()),
        cell_text: cell_text.into(),
    }
}

#[test]
fn sheet_gives_one_soil_report() {
    let rows = vec![
        sheet_row(Some("Arsenik (As)"), Some("8.5"), "8.5"),
        sheet_row(Some("Bly Pb"), None, "<5"),
        sheet_row(Some("Zink"), None, ""),
        sheet_row(None, Some("1"), "1"),
        sheet_row(Some("Koppar"), Some("60"), "60"),
    ];
    let parsed = sweco_reports(
        Some("AVFALLSKLASSNING@SWECO v2".into()),
        Some("Prov 1".into()),
        None,
        &rows,
    )
    .unwrap();
    assert_eq!(parsed.reports.len(), 1);
    let report = &parsed.reports[0];
    assert_eq!(report.header.lab.as_deref(), Some("Sweco"));
    assert_eq!(report.header.sample_id.as_deref(), Some("Prov 1"));
    assert_eq!(report.header.matrix, Some(Matrix::Jord));
    assert_eq!(report.header.date, None);
    assert_eq!(report.rows.len(), 1);
    assert_eq!(report.rows[0].raw_name, "Arsenik (As)");
    assert_eq!(report.rows[0].normalized_name, "arsenik");
    assert_eq!(
        report.rows[0].value,
        AnalysisValue::Measured(Decimal::new(85, 1))
    );
    assert_eq!(report.rows[0].unit, Unit::MgPerKgTs);
    assert!(parsed.warnings.is_empty());
    assert_eq!(parsed.skipped_lines.len(), 1);
    assert_eq!(parsed.skipped_lines[0].line_text, "Bly Pb: <5");
    assert_eq!(parsed.skipped_lines[0].reason, "non-numeric value in xlsx");
}

#[test]
fn sheet_without_mark_or_data_is_refused() {
    let rows = vec![sheet_row(Some("Arsenik"), Some("8"), "8")];
    for marker in [None, Some("Sammanställning".to_string())] {
        match sweco_reports(marker, None, None, &rows) {
            Err(SondaError::ParseError(message)) => assert_eq!(
                message,
                "not a Sweco AVFALLSKLASSNING file (missing marker in row 1)"
            ),
            other => panic!("unexpected outcome {:?}", other.map(|p| p.reports.len())),
        }
    }
    let marker = Some("AVFALLSKLASSNING@SWECO".to_string());
    let empty = vec![sheet_row(Some(""), Some("8"), "8"), sheet_row(Some("Bly"), Some("8"), "8")];
    match sweco_reports(marker, None, None, &empty) {
        Err(SondaError::ParseError(message)) => {
            assert_eq!(message, "no substance data found in xlsx")
        }
        other => panic!("unexpected outcome {:?}", other.map(|p| p.reports.len())),
    }
}

fn boxed(page_number: usize, text: &str, x_min: &str) -> BoxedLine {
    BoxedLine {
        page_number,
        text: text.into(),
        bbox: BBox {
            x_min: x_min.into(),
            y_min: "20.0".into(),
            x_max: "120.0".into(),
            y_max: "30.0".into(),
        },
    }
}

#[test]
fn test_bbox_lines_mapped_to_page_spans() {
    let bbox_lines = [boxed(1, "Arsenik (As) 68 mg/kg TS", "10.0")];
    let pages = pages_from_text("Arsenik (As)   68   mg/kg TS\n", &bbox_lines);
    assert_eq!(pages.len(), 1);
    let spans = &pages[0].line_spans;
    assert_eq!(spans.len(), 1);
    assert_eq!(spans[0].line_index, 0);
    assert_eq!(spans[0].page_number, 1);
}

#[test]
fn pages_are_split_at_form_feeds() {
    let lines = [
        boxed(2, "b1", "1"),
        boxed(1, "a1", "2"),
        boxed(2, "b2", "3"),
        boxed(4, "d1", "4"),
    ];
    let pages = pages_from_text("a\r\nb\n\u{c}\u{c}c\n\nd\u{c}", &lines);
    let seen: Vec<(usize, Vec<&str>, usize)> = pages
        .iter()
        .map(|p| {
            (
                p.page_number,
                p.lines.iter().map(|l| l.as_str()).collect(),
                p.line_spans.len(),
            )
        })
        .collect();
    assert_eq!(
        seen,
        vec![(1, vec!["a", "b"], 1), (3, vec!["c", "", "d"], 0)]
    );
    let empty = pages_from_text("", &lines);
    assert_eq!(empty.len(), 1);
    assert_eq!(empty[0].page_number, 1);
    assert!(empty[0].lines.is_empty());
    let second = pages_from_text("\u{c}x", &lines);
    assert_eq!(second.len(), 2);
    let spans: Vec<(usize, &str, &str)> = second[1]
        .line_spans
        .iter()
        .map(|s| (s.line_index, s.text.as_str(), s.bbox.x_min.as_str()))
        .collect();
    assert_eq!(spans, vec![(0, "b1", "1"), (1, "b2", "3")]);
}
