//! Reports in the sheet layout that Sweco uses for waste classification.

use crate::decimal::Decimal;
use crate::error::SondaError;
use crate::model::{
    option_text, row_views, AnalysisReport, AnalysisRow, AnalysisValue, HeaderView, Matrix,
    ReportHeader, ReportView, RowView, Unit, ValueView,
};
use crate::parsing::normalize::{normalize_substance, normalized};
use crate::parsing::{skip_views, ParsedReports, ParsedView, SkipView, SkippedLine};
use crate::text::contains_text;
use vstd::prelude::*;
use vstd::string::StringExecFns;

verus! {

/// One row of the sheet: the name of the substance, the number in the
/// value cell if it holds one, and the value cell as it is written.
#[derive(Debug, Clone)]
pub struct SwecoRow {
    pub name: Option<String>,
    pub value: Option<Decimal>,
    pub cell_text: String,
}

/// The text that marks a sheet as one of this layout.
pub open spec fn sweco_marker() -> Seq<char> {
    "AVFALLSKLASSNING@SWECO"@
}

/// The number of rows before the first row at or after `from` that has no
/// name: the rows of data.
pub open spec fn end_of_data(rows: Seq<SwecoRow>, from: int) -> int
    decreases rows.len() - from,
{
    if from < 0 || from >= rows.len() {
        rows.len() as int
    } else if rows[from].name is None || rows[from].name->0@.len() == 0 {
        from
    } else {
        end_of_data(rows, from + 1)
    }
}

/// The rows of results among the first `upto` rows: those with a number.
pub open spec fn sweco_rows(rows: Seq<SwecoRow>, upto: int) -> Seq<RowView>
    decreases upto,
{
    if upto <= 0 || upto > rows.len() {
        Seq::empty()
    } else {
        let before = sweco_rows(rows, upto - 1);
        let row = rows[upto - 1];
        match row.value {
            Some(v) => before.push(
                RowView {
                    raw_name: row.name->0@,
                    normalized_name: normalized(row.name->0@),
                    value: ValueView::Measured(v@),
                    unit: Unit::MgPerKgTs,
                },
            ),
            None => before,
        }
    }
}

/// Those of the first `upto` rows that have a value cell with something
/// other than a number in it.
pub open spec fn sweco_skipped(rows: Seq<SwecoRow>, upto: int) -> Seq<SkipView>
    decreases upto,
{
    if upto <= 0 || upto > rows.len() {
        Seq::empty()
    } else {
        let before = sweco_skipped(rows, upto - 1);
        let row = rows[upto - 1];
        if row.value is None && row.cell_text@.len() > 0 {
            before.push(
                SkipView {
                    line_text: row.name->0@ + ": "@ + row.cell_text@,
                    reason: "non-numeric value in xlsx"@,
                },
            )
        } else {
            before
        }
    }
}

/// What a sheet is read as: one report of a soil sample, or the complaint
/// that the sheet lacks its mark, or data.
pub open spec fn sweco_outcome(
    marker: Option<String>,
    sample_id: Option<String>,
    date: Option<String>,
    rows: Seq<SwecoRow>,
) -> Result<ParsedView, Seq<char>> {
    let end = end_of_data(rows, 0);
    if marker is None || !contains_text(marker->0@, sweco_marker()) {
        Err("not a Sweco AVFALLSKLASSNING file (missing marker in row 1)"@)
    } else if sweco_rows(rows, end).len() == 0 {
        Err("no substance data found in xlsx"@)
    } else {
        Ok(
            ParsedView {
                reports: seq![
                    ReportView {
                        header: HeaderView {
                            lab_report_id: None,
                            sample_id: option_text(sample_id),
                            matrix: Some(Matrix::Jord),
                            date: option_text(date),
                            project: None,
                            lab: Some("Sweco"@),
                        },
                        rows: sweco_rows(rows, end),
                    },
                ],
                warnings: Seq::empty(),
                skipped_lines: sweco_skipped(rows, end),
            },
        )
    }
}

/// Reads the report of a sheet from its cells: the mark of the layout,
/// the name of the sample, the date, and the rows from the first row of
/// data on. The data end with the first row that has no name.
pub fn sweco_reports(
    marker: Option<String>,
    sample_id: Option<String>,
    date: Option<String>,
    rows: &Vec<SwecoRow>,
) -> (r: Result<ParsedReports, SondaError>)
    ensures
        match sweco_outcome(marker, sample_id, date, rows@) {
            Ok(parsed) => r matches Ok(x) && x@ == parsed,
            Err(complaint) => r matches Err(SondaError::ParseError(m)) && m@ == complaint,
        },
{
    let marked = match &marker {
        Some(text) => crate::text::contains(text.as_str(), "AVFALLSKLASSNING@SWECO"),
        None => false,
    };
    if !marked {
        return Err(
            SondaError::ParseError(
                String::from_str("not a Sweco AVFALLSKLASSNING file (missing marker in row 1)"),
            ),
        );
    }
    let mut found: Vec<AnalysisRow> = Vec::new();
    let mut skipped: Vec<SkippedLine> = Vec::new();
    let mut i: usize = 0;
    assert(row_views(found@) =~= Seq::empty());
    assert(skip_views(skipped@) =~= Seq::empty());
    let mut ended = false;
    while i < rows.len() && !ended
        invariant
            i <= rows.len(),
            end_of_data(rows@, 0) == if ended {
                i as int
            } else {
                end_of_data(rows@, i as int)
            },
            row_views(found@) == sweco_rows(rows@, i as int),
            skip_views(skipped@) == sweco_skipped(rows@, i as int),
        decreases rows.len() - i + if ended { 0int } else { 1int },
    {
        let row = &rows[i];
        let name = match &row.name {
            Some(name) => {
                if name.as_str().unicode_len() == 0 {
                    None
                } else {
                    Some(name)
                }
            },
            None => None,
        };
        match name {
            None => {
                ended = true;
            },
            Some(raw_name) => {
                match row.value {
                    Some(value) => {
                        let entry = AnalysisRow {
                            raw_name: raw_name.clone(),
                            normalized_name: normalize_substance(raw_name.as_str()),
                            value: AnalysisValue::Measured(value),
                            unit: Unit::MgPerKgTs,
                        };
                        let ghost before = row_views(found@);
                        found.push(entry);
                        assert(row_views(found@) =~= before.push(entry@));
                    },
                    None => {
                        if row.cell_text.as_str().unicode_len() > 0 {
                            let mut line_text = raw_name.clone();
                            line_text.append(": ");
                            line_text.append(row.cell_text.as_str());
                            let skip = SkippedLine {
                                line_text,
                                reason: String::from_str("non-numeric value in xlsx"),
                            };
                            let ghost before = skip_views(skipped@);
                            skipped.push(skip);
                            assert(skip_views(skipped@) =~= before.push(skip@));
                        }
                    },
                }
                i += 1;
            },
        }
    }
    if found.len() == 0 {
        return Err(SondaError::ParseError(String::from_str("no substance data found in xlsx")));
    }
    let header = ReportHeader {
        lab_report_id: None,
        sample_id,
        matrix: Some(Matrix::Jord),
        date,
        project: None,
        lab: Some(String::from_str("Sweco")),
    };
    let report = AnalysisReport { header, rows: found };
    let mut reports: Vec<AnalysisReport> = Vec::new();
    reports.push(report);
    let parsed = ParsedReports { reports, warnings: Vec::new(), skipped_lines: skipped };
    assert(parsed@.reports =~= seq![report@]);
    assert(parsed@.warnings =~= Seq::empty());
    Ok(parsed)
}

} // verus!
