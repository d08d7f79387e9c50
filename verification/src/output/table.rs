//! Tables of parsed reports.

use crate::model::{AnalysisReport, AnalysisRow};
use crate::parsing::{ParseWarning, ParsedReports, SkippedLine};
use crate::text::{byte_length, decimal_digits, padded_left, padded_right, repeated};
use crate::sample_name;
use vstd::prelude::*;
use vstd::string::StringExecFns;

verus! {

/// A line of the header of a report: the label and the value, where
/// there is one.
pub open spec fn field_line(label: Seq<char>, value: Option<Seq<char>>) -> Seq<char> {
    match value {
        Some(v) => label + v + "\n"@,
        None => Seq::empty(),
    }
}

/// What is said of the header of a report.
pub open spec fn header_block(report: AnalysisReport) -> Seq<char> {
    field_line("  Lab:       "@, report.header@.lab) + field_line(
        "  Report ID: "@,
        report.header@.lab_report_id,
    ) + field_line("  Sample ID: "@, report.header@.sample_id) + field_line(
        "  Matrix:    "@,
        match report.header.matrix {
            Some(m) => Some(m.label()),
            None => None,
        },
    ) + field_line("  Date:      "@, report.header@.date) + "\n"@
}

/// The larger of two numbers.
pub open spec fn larger(a: usize, b: usize) -> usize {
    if a >= b {
        a
    } else {
        b
    }
}

/// The widths of the three columns of a table.
pub struct Widths {
    pub raw: usize,
    pub normalized: usize,
    pub value: usize,
}

/// The column widths that the first `upto` rows ask for: those of the
/// titles, or the number of bytes of the longest entry if that is more.
pub open spec fn widths_upto(rows: Seq<AnalysisRow>, upto: int) -> Widths
    decreases upto,
{
    if upto <= 0 || upto > rows.len() {
        Widths { raw: 8, normalized: 10, value: 5 }
    } else {
        let before = widths_upto(rows, upto - 1);
        let row = rows[upto - 1];
        Widths {
            raw: larger(before.raw, byte_length(row.raw_name@)),
            normalized: larger(before.normalized, byte_length(row.normalized_name@)),
            value: larger(before.value, byte_length(row.value.text())),
        }
    }
}

/// The length of the rule under the titles: the widths and fourteen more,
/// as far as a `usize` can hold it.
pub open spec fn rule_length(w: Widths) -> usize {
    if w.raw + w.normalized + w.value + 14 <= usize::MAX {
        (w.raw + w.normalized + w.value + 14) as usize
    } else {
        usize::MAX
    }
}

/// A line of a table: the raw name and the normalized name filled up at
/// their end, the value filled up at its start, and the unit.
pub open spec fn table_line(
    raw: Seq<char>,
    normalized: Seq<char>,
    value: Seq<char>,
    unit: Seq<char>,
    w: Widths,
) -> Seq<char> {
    "  "@ + padded_right(raw, w.raw as nat) + "  "@ + padded_right(
        normalized,
        w.normalized as nat,
    ) + "  "@ + padded_left(value, w.value as nat) + "  "@ + unit + "\n"@
}

/// The lines of the first `upto` rows.
pub open spec fn row_lines(rows: Seq<AnalysisRow>, w: Widths, upto: int) -> Seq<char>
    decreases upto,
{
    if upto <= 0 || upto > rows.len() {
        Seq::empty()
    } else {
        row_lines(rows, w, upto - 1) + table_line(
            rows[upto - 1].raw_name@,
            rows[upto - 1].normalized_name@,
            rows[upto - 1].value.text(),
            rows[upto - 1].unit.label(),
            w,
        )
    }
}

/// The table of the rows of a report, or the remark that there are none.
pub open spec fn rows_block(rows: Seq<AnalysisRow>) -> Seq<char> {
    if rows.len() == 0 {
        "  (no substances parsed)\n"@
    } else {
        let w = widths_upto(rows, rows.len() as int);
        table_line("Raw name"@, "Normalized"@, "Value"@, "Unit"@, w) + "  "@ + repeated(
            '-',
            rule_length(w) as nat,
        ) + "\n"@ + row_lines(rows, w, rows.len() as int)
    }
}

/// What is said of one report: where there are several, a title with the
/// name of the sample, after an empty line but for the first; then the
/// header and the rows.
pub open spec fn report_block(report: AnalysisReport, index: int, several: bool) -> Seq<char> {
    (if several {
        (if index > 0 {
            "\n"@
        } else {
            Seq::empty()
        }) + "--- Sample: "@ + sample_name(report.header) + " ---\n\n"@
    } else {
        Seq::empty()
    }) + header_block(report) + rows_block(report.rows@)
}

/// What is said of the first `upto` reports.
pub open spec fn report_blocks(reports: Seq<AnalysisReport>, upto: int) -> Seq<char>
    decreases upto,
{
    if upto <= 0 || upto > reports.len() {
        Seq::empty()
    } else {
        report_blocks(reports, upto - 1) + report_block(
            reports[upto - 1],
            upto - 1,
            reports.len() > 1,
        )
    }
}

/// The lines for the first `upto` warnings.
pub open spec fn warning_lines(warnings: Seq<ParseWarning>, upto: int) -> Seq<char>
    decreases upto,
{
    if upto <= 0 || upto > warnings.len() {
        Seq::empty()
    } else {
        warning_lines(warnings, upto - 1) + "  - section "@ + decimal_digits(
            warnings[upto - 1].section_index as nat,
        ) + ": "@ + warnings[upto - 1].reason@ + "\n"@
    }
}

/// The lines for the first `upto` skipped lines.
pub open spec fn skipped_lines_text(skipped: Seq<SkippedLine>, upto: int) -> Seq<char>
    decreases upto,
{
    if upto <= 0 || upto > skipped.len() {
        Seq::empty()
    } else {
        skipped_lines_text(skipped, upto - 1) + "  - ["@ + skipped[upto - 1].reason@ + "] "@
            + skipped[upto - 1].line_text@ + "\n"@
    }
}

/// Parsed reports as a table: the reports one after the other, then the
/// warnings and the skipped lines, where there are any.
pub open spec fn parsed_table(parsed: ParsedReports) -> Seq<char> {
    report_blocks(parsed.reports@, parsed.reports@.len() as int) + (if parsed.warnings@.len()
        > 0 {
        "\nWarnings:\n"@ + warning_lines(parsed.warnings@, parsed.warnings@.len() as int)
    } else {
        Seq::empty()
    }) + (if parsed.skipped_lines@.len() > 0 {
        "\nSkipped lines ("@ + decimal_digits(parsed.skipped_lines@.len()) + "):\n"@
            + skipped_lines_text(parsed.skipped_lines@, parsed.skipped_lines@.len() as int)
    } else {
        Seq::empty()
    })
}

/// Appends a line of the header, where there is a value.
fn append_field(out: &mut String, label: &str, value: &Option<String>)
    ensures
        final(out)@ == old(out)@ + field_line(label@, crate::model::option_text(*value)),
{
    match value {
        Some(v) => {
            out.append(label);
            out.append(v.as_str());
            out.append("\n");
            assert(out@ =~= old(out)@ + (label@ + v@ + "\n"@));
        },
        None => {
            assert(out@ =~= old(out)@ + Seq::<char>::empty());
        },
    }
}

/// What is said of the header of a report.
fn format_header(report: &AnalysisReport) -> (r: String)
    ensures
        r@ == header_block(*report),
{
    let mut out = String::new();
    append_field(&mut out, "  Lab:       ", &report.header.lab);
    append_field(&mut out, "  Report ID: ", &report.header.lab_report_id);
    append_field(&mut out, "  Sample ID: ", &report.header.sample_id);
    let matrix = match &report.header.matrix {
        Some(m) => Some(m.to_string()),
        None => None,
    };
    append_field(&mut out, "  Matrix:    ", &matrix);
    append_field(&mut out, "  Date:      ", &report.header.date);
    out.append("\n");
    assert(out@ =~= header_block(*report));
    out
}

/// A line of a table.
fn format_line(
    raw: &str,
    normalized: &str,
    value: &str,
    unit: &str,
    raw_width: usize,
    normalized_width: usize,
    value_width: usize,
) -> (r: String)
    ensures
        r@ == table_line(
            raw@,
            normalized@,
            value@,
            unit@,
            Widths { raw: raw_width, normalized: normalized_width, value: value_width },
        ),
{
    let mut out = String::from_str("  ");
    crate::text::append_padded_right(&mut out, raw, raw_width);
    out.append("  ");
    crate::text::append_padded_right(&mut out, normalized, normalized_width);
    out.append("  ");
    crate::text::append_padded_left(&mut out, value, value_width);
    out.append("  ");
    out.append(unit);
    out.append("\n");
    out
}

/// The table of the rows of a report.
fn format_rows(rows: &Vec<AnalysisRow>) -> (r: String)
    ensures
        r@ == rows_block(rows@),
{
    if rows.len() == 0 {
        return String::from_str("  (no substances parsed)\n");
    }
    let mut raw_width: usize = 8;
    let mut normalized_width: usize = 10;
    let mut value_width: usize = 5;
    let mut i: usize = 0;
    while i < rows.len()
        invariant
            i <= rows.len(),
            widths_upto(rows@, i as int) == (Widths {
                raw: raw_width,
                normalized: normalized_width,
                value: value_width,
            }),
        decreases rows.len() - i,
    {
        let raw = rows[i].raw_name.as_str().len();
        if raw > raw_width {
            raw_width = raw;
        }
        let normalized = rows[i].normalized_name.as_str().len();
        if normalized > normalized_width {
            normalized_width = normalized;
        }
        let value = rows[i].value.to_string().as_str().len();
        if value > value_width {
            value_width = value;
        }
        i += 1;
    }
    let ghost w = Widths { raw: raw_width, normalized: normalized_width, value: value_width };
    let mut out = format_line(
        "Raw name",
        "Normalized",
        "Value",
        "Unit",
        raw_width,
        normalized_width,
        value_width,
    );
    out.append("  ");
    let rule = raw_width.saturating_add(normalized_width).saturating_add(
        value_width,
    ).saturating_add(14);
    out.append(crate::text::repeat_char('-', rule).as_str());
    out.append("\n");
    let ghost head = out@;
    let mut k: usize = 0;
    assert(out@ =~= head + row_lines(rows@, w, 0));
    while k < rows.len()
        invariant
            k <= rows.len(),
            w == (Widths { raw: raw_width, normalized: normalized_width, value: value_width }),
            out@ == head + row_lines(rows@, w, k as int),
        decreases rows.len() - k,
    {
        let line = format_line(
            rows[k].raw_name.as_str(),
            rows[k].normalized_name.as_str(),
            rows[k].value.to_string().as_str(),
            rows[k].unit.to_string().as_str(),
            raw_width,
            normalized_width,
            value_width,
        );
        out.append(line.as_str());
        assert(out@ =~= head + (row_lines(rows@, w, k as int) + line@));
        k += 1;
    }
    out
}

/// What is said of one report.
fn format_report(report: &AnalysisReport, index: usize, several: bool) -> (r: String)
    ensures
        r@ == report_block(*report, index as int, several),
{
    let mut out = String::new();
    if several {
        if index > 0 {
            out.append("\n");
        }
        out.append("--- Sample: ");
        match &report.header.sample_id {
            Some(id) => {
                out.append(id.as_str());
            },
            None => match &report.header.lab_report_id {
                Some(id) => {
                    out.append(id.as_str());
                },
                None => {
                    out.append("unknown");
                },
            },
        }
        out.append(" ---\n\n");
    }
    out.append(format_header(report).as_str());
    out.append(format_rows(&report.rows).as_str());
    assert(out@ =~= report_block(*report, index as int, several));
    out
}

/// Lays parsed reports out as a table for people to read.
pub fn format_parsed(parsed: &ParsedReports) -> (r: String)
    ensures
        r@ == parsed_table(*parsed),
{
    let mut out = String::new();
    let several = parsed.reports.len() > 1;
    let mut i: usize = 0;
    assert(out@ =~= report_blocks(parsed.reports@, 0));
    while i < parsed.reports.len()
        invariant
            i <= parsed.reports.len(),
            several == (parsed.reports@.len() > 1),
            out@ == report_blocks(parsed.reports@, i as int),
        decreases parsed.reports.len() - i,
    {
        out.append(format_report(&parsed.reports[i], i, several).as_str());
        i += 1;
    }
    let ghost reports_text = out@;
    if parsed.warnings.len() > 0 {
        out.append("\nWarnings:\n");
        let ghost head = out@;
        let mut k: usize = 0;
        assert(out@ =~= head + warning_lines(parsed.warnings@, 0));
        while k < parsed.warnings.len()
            invariant
                k <= parsed.warnings.len(),
                out@ == head + warning_lines(parsed.warnings@, k as int),
            decreases parsed.warnings.len() - k,
        {
            let w = &parsed.warnings[k];
            let ghost before = warning_lines(parsed.warnings@, k as int);
            out.append("  - section ");
            out.append(crate::text::number_text(w.section_index).as_str());
            out.append(": ");
            out.append(w.reason.as_str());
            out.append("\n");
            assert(out@ =~= head + (before + "  - section "@ + decimal_digits(
                w.section_index as nat,
            ) + ": "@ + w.reason@ + "\n"@));
            k += 1;
        }
        assert(out@ =~= reports_text + ("\nWarnings:\n"@ + warning_lines(
            parsed.warnings@,
            parsed.warnings@.len() as int,
        )));
    } else {
        assert(out@ =~= reports_text + Seq::<char>::empty());
    }
    let ghost with_warnings = out@;
    if parsed.skipped_lines.len() > 0 {
        out.append("\nSkipped lines (");
        out.append(crate::text::number_text(parsed.skipped_lines.len()).as_str());
        out.append("):\n");
        let ghost head = out@;
        let mut k: usize = 0;
        assert(out@ =~= head + skipped_lines_text(parsed.skipped_lines@, 0));
        while k < parsed.skipped_lines.len()
            invariant
                k <= parsed.skipped_lines.len(),
                out@ == head + skipped_lines_text(parsed.skipped_lines@, k as int),
            decreases parsed.skipped_lines.len() - k,
        {
            let s = &parsed.skipped_lines[k];
            let ghost before = skipped_lines_text(parsed.skipped_lines@, k as int);
            out.append("  - [");
            out.append(s.reason.as_str());
            out.append("] ");
            out.append(s.line_text.as_str());
            out.append("\n");
            assert(out@ =~= head + (before + "  - ["@ + s.reason@ + "] "@ + s.line_text@
                + "\n"@));
            k += 1;
        }
        assert(out@ =~= with_warnings + ("\nSkipped lines ("@ + decimal_digits(
            parsed.skipped_lines@.len(),
        ) + "):\n"@ + skipped_lines_text(
            parsed.skipped_lines@,
            parsed.skipped_lines@.len() as int,
        )));
    } else {
        assert(out@ =~= with_warnings + Seq::<char>::empty());
    }
    out
}

} // verus!
