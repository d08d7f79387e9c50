//! Reading reports from extracted text.

pub mod header;
pub mod normalize;
pub mod values;

use crate::error::SondaError;
use crate::extraction::PageContent;
use crate::model::{option_text, row_views, AnalysisReport, AnalysisRow, HeaderView, ReportView, RowView, Unit, ValueView};
use crate::parsing::header::{header_of, parse_header};
use crate::parsing::normalize::{normalize_substance, normalized};
use crate::parsing::values::{parse_value, value_of};
use crate::text::{
    contains_text, is_letter, is_space, line_texts, lowercased, texts, trimmed, utf8_size,
};
use vstd::prelude::*;
use vstd::string::StringExecFns;

verus! {

/// A section that gave no report, and why.
#[derive(Debug, Clone)]
pub struct ParseWarning {
    /// The number of the section, counted from one.
    pub section_index: usize,
    pub sample_id: Option<String>,
    pub reason: String,
}

/// A warning by its contents.
pub struct WarningView {
    pub section_index: usize,
    pub sample_id: Option<Seq<char>>,
    pub reason: Seq<char>,
}

impl View for ParseWarning {
    type V = WarningView;

    open spec fn view(&self) -> WarningView {
        WarningView {
            section_index: self.section_index,
            sample_id: option_text(self.sample_id),
            reason: self.reason@,
        }
    }
}

/// A line that looks like a row of results and holds no value that can be
/// read.
#[derive(Debug, Clone)]
pub struct SkippedLine {
    pub line_text: String,
    pub reason: String,
}

/// A skipped line by its contents.
pub struct SkipView {
    pub line_text: Seq<char>,
    pub reason: Seq<char>,
}

impl View for SkippedLine {
    type V = SkipView;

    open spec fn view(&self) -> SkipView {
        SkipView { line_text: self.line_text@, reason: self.reason@ }
    }
}

/// The contents of each skipped line.
pub open spec fn skip_views(v: Seq<SkippedLine>) -> Seq<SkipView> {
    v.map_values(|s: SkippedLine| s@)
}

/// The contents of each warning.
pub open spec fn warning_views(v: Seq<ParseWarning>) -> Seq<WarningView> {
    v.map_values(|w: ParseWarning| w@)
}

/// The contents of each report.
pub open spec fn report_views(v: Seq<AnalysisReport>) -> Seq<ReportView> {
    v.map_values(|r: AnalysisReport| r@)
}

/// What was read from a document.
#[derive(Debug, Clone)]
pub struct ParsedReports {
    pub reports: Vec<AnalysisReport>,
    pub warnings: Vec<ParseWarning>,
    pub skipped_lines: Vec<SkippedLine>,
}

/// The state of a scan for the segments of a line: the segments that have
/// ended, the start of the open segment, and the number of whitespace
/// characters just passed.
pub struct GapScan {
    pub done: Seq<Seq<char>>,
    pub open: Option<int>,
    pub spaces: int,
}

/// The scan of the first `upto` characters of a line. A segment starts
/// with a character that is no whitespace and ends before the first of
/// two whitespace characters in a row.
pub open spec fn scan_gaps(s: Seq<char>, upto: int) -> GapScan
    decreases upto,
{
    if upto <= 0 || upto > s.len() {
        GapScan { done: Seq::empty(), open: None, spaces: 0 }
    } else {
        let before = scan_gaps(s, upto - 1);
        if is_space(s[upto - 1]) {
            if before.spaces == 1 && before.open is Some {
                GapScan {
                    done: before.done.push(s.subrange(before.open->0, upto - 2)),
                    open: None,
                    spaces: 2,
                }
            } else {
                GapScan { done: before.done, open: before.open, spaces: before.spaces + 1 }
            }
        } else {
            GapScan {
                done: before.done,
                open: if before.open is Some {
                    before.open
                } else {
                    Some(upto - 1)
                },
                spaces: 0,
            }
        }
    }
}

/// The segments of a line: what stands between gaps of two or more
/// whitespace characters. Single whitespace stays inside a segment.
pub open spec fn gap_segments(s: Seq<char>) -> Seq<Seq<char>> {
    let last = scan_gaps(s, s.len() as int);
    match last.open {
        Some(start) => last.done.push(s.subrange(start, s.len() as int)),
        None => last.done,
    }
}

/// While a segment is open, at most one whitespace character has just
/// been passed, and the segment started before it.
pub proof fn lemma_scan_gaps(s: Seq<char>, upto: int)
    requires
        0 <= upto <= s.len(),
    ensures
        0 <= scan_gaps(s, upto).spaces <= upto,
        scan_gaps(s, upto).open is Some ==> 0 <= scan_gaps(s, upto).open->0 < upto - scan_gaps(
            s,
            upto,
        ).spaces && scan_gaps(s, upto).spaces <= 1,
    decreases upto,
{
    if upto > 0 {
        lemma_scan_gaps(s, upto - 1);
    }
}

/// Splits a line at gaps of two or more whitespace characters.
pub fn split_by_whitespace_gaps(line: &str) -> (segments: Vec<String>)
    ensures
        texts(segments@) == gap_segments(line@),
{
    let v = crate::text::chars_of(line);
    let mut segments: Vec<String> = Vec::new();
    let mut start: Option<usize> = None;
    let mut spaces: usize = 0;
    let mut i: usize = 0;
    assert(texts(segments@) =~= Seq::empty());
    while i < v.len()
        invariant
            i <= v.len(),
            v@ == line@,
            texts(segments@) == scan_gaps(v@, i as int).done,
            spaces == scan_gaps(v@, i as int).spaces,
            match start {
                Some(at) => scan_gaps(v@, i as int).open == Some(at as int),
                None => scan_gaps(v@, i as int).open is None,
            },
        decreases v.len() - i,
    {
        proof {
            lemma_scan_gaps(v@, i as int);
        }
        if crate::text::is_whitespace(v[i]) {
            spaces += 1;
            if spaces == 2 {
                match start {
                    Some(at) => {
                        let segment = crate::text::text_of(&v, at, i - 1);
                        let ghost before = texts(segments@);
                        segments.push(segment);
                        assert(texts(segments@) =~= before.push(segment@));
                        start = None;
                    },
                    None => {},
                }
            }
        } else {
            if start.is_none() {
                start = Some(i);
            }
            spaces = 0;
        }
        i += 1;
    }
    match start {
        Some(at) => {
            proof {
                lemma_scan_gaps(v@, v.len() as int);
            }
            let segment = crate::text::text_of(&v, at, v.len());
            let ghost before = texts(segments@);
            segments.push(segment);
            assert(texts(segments@) =~= before.push(segment@));
        },
        None => {},
    }
    segments
}

/// Whether a lowercase word is a title of a column or a field of the
/// header, and no substance.
pub open spec fn is_header(s: Seq<char>) -> bool {
    s == "analys"@ || s == "parameter"@ || s == "resultat"@ || s == "result"@ || s == "enhet"@ || s == "unit"@ || s == "metod"@ || s == "method"@ || s == "mätosäkerhet"@ || s == "uncertainty"@ || s == "rapport"@ || s == "provnummer"@ || s == "matris"@ || s == "provmärkning"@ || s == "sida"@ || s == "page"@ || s == "laboratorium"@
}

/// Whether a lowercase word is a title of a column or a field of the
/// header.
pub fn is_header_word(s: &str) -> (r: bool)
    ensures
        r == is_header(s@),
{
    crate::text::same_text(s, "analys")
        || crate::text::same_text(s, "parameter")
        || crate::text::same_text(s, "resultat")
        || crate::text::same_text(s, "result")
        || crate::text::same_text(s, "enhet")
        || crate::text::same_text(s, "unit")
        || crate::text::same_text(s, "metod")
        || crate::text::same_text(s, "method")
        || crate::text::same_text(s, "mätosäkerhet")
        || crate::text::same_text(s, "uncertainty")
        || crate::text::same_text(s, "rapport")
        || crate::text::same_text(s, "provnummer")
        || crate::text::same_text(s, "matris")
        || crate::text::same_text(s, "provmärkning")
        || crate::text::same_text(s, "sida")
        || crate::text::same_text(s, "page")
        || crate::text::same_text(s, "laboratorium")
}

/// The state of a scan for sections: the sections that have ended, the
/// lines of the open section, and whether a report title was seen.
pub struct SectionScan {
    pub done: Seq<Seq<Seq<char>>>,
    pub current: Seq<Seq<char>>,
    pub titled: bool,
}

/// The title that starts the report of a sample.
pub open spec fn report_title() -> Seq<char> {
    "Analysrapport"@
}

/// The scan of the first `upto` lines. A line that is the report title,
/// but for surrounding whitespace, ends the open section where a title was
/// seen before and the section has lines; it belongs to the next section.
pub open spec fn scan_sections(lines: Seq<Seq<char>>, upto: int) -> SectionScan
    decreases upto,
{
    if upto <= 0 || upto > lines.len() {
        SectionScan { done: Seq::empty(), current: Seq::empty(), titled: false }
    } else {
        let before = scan_sections(lines, upto - 1);
        let line = lines[upto - 1];
        if trimmed(line) == report_title() {
            if before.titled && before.current.len() > 0 {
                SectionScan {
                    done: before.done.push(before.current),
                    current: seq![line],
                    titled: true,
                }
            } else {
                SectionScan { done: before.done, current: before.current.push(line), titled: true }
            }
        } else {
            SectionScan {
                done: before.done,
                current: before.current.push(line),
                titled: before.titled,
            }
        }
    }
}

/// The sections of a document: one for each report title, the lines
/// before the first title going with the first section; the whole document
/// where it has no title.
pub open spec fn sections_of(lines: Seq<Seq<char>>) -> Seq<Seq<Seq<char>>> {
    let last = scan_sections(lines, lines.len() as int);
    if last.current.len() > 0 {
        last.done.push(last.current)
    } else {
        last.done
    }
}

/// The lines of each section.
pub open spec fn section_texts(v: Seq<Vec<&str>>) -> Seq<Seq<Seq<char>>> {
    v.map_values(|s: Vec<&str>| line_texts(s@))
}

/// Splits the lines of a document into the sections of its samples.
pub fn split_into_sections<'a>(lines: &[&'a str]) -> (sections: Vec<Vec<&'a str>>)
    ensures
        section_texts(sections@) == sections_of(line_texts(lines@)),
{
    let mut sections: Vec<Vec<&'a str>> = Vec::new();
    let mut current: Vec<&'a str> = Vec::new();
    let mut found_header = false;
    let mut i: usize = 0;
    assert(section_texts(sections@) =~= Seq::empty());
    assert(line_texts(current@) =~= Seq::empty());
    while i < lines.len()
        invariant
            i <= lines.len(),
            section_texts(sections@) == scan_sections(line_texts(lines@), i as int).done,
            line_texts(current@) == scan_sections(line_texts(lines@), i as int).current,
            found_header == scan_sections(line_texts(lines@), i as int).titled,
        decreases lines.len() - i,
    {
        let line = lines[i];
        assert(line_texts(lines@)[i as int] == line@);
        let t = crate::text::trimmed_chars(line);
        if crate::text::chars_equal(&t, "Analysrapport") {
            if found_header && current.len() > 0 {
                let ghost before = section_texts(sections@);
                let ghost ended = line_texts(current@);
                sections.push(current);
                assert(section_texts(sections@) =~= before.push(ended));
                current = Vec::new();
                assert(line_texts(current@) =~= Seq::empty());
            }
            found_header = true;
        }
        let ghost before = line_texts(current@);
        current.push(line);
        assert(line_texts(current@) =~= before.push(line@));
        i += 1;
    }
    if current.len() > 0 {
        let ghost before = section_texts(sections@);
        let ghost ended = line_texts(current@);
        sections.push(current);
        assert(section_texts(sections@) =~= before.push(ended));
    }
    sections
}

/// What scanning segments for a value finds: the value of the first
/// segment that holds one, and the complaint about the last segment before
/// it that could not be read.
pub struct ValueScan {
    pub value: Option<ValueView>,
    pub complaint: Option<Seq<char>>,
}

/// The scan of the segments from `at` on, after a complaint.
pub open spec fn scan_values(segments: Seq<Seq<char>>, at: int, complaint: Option<Seq<char>>) -> ValueScan
    decreases segments.len() - at,
{
    if at < 0 || at >= segments.len() {
        ValueScan { value: None, complaint }
    } else {
        match value_of(trimmed(segments[at])) {
            Ok(Some(v)) => ValueScan { value: Some(v), complaint },
            Ok(None) => scan_values(segments, at + 1, complaint),
            Err(e) => scan_values(segments, at + 1, Some("failed to parse report: "@ + e)),
        }
    }
}

/// The unit that the segments from `at` on name: that of the first
/// segment that holds `mg/kg`; mg/kg of dry matter where none does.
pub open spec fn unit_in(segments: Seq<Seq<char>>, at: int) -> Unit
    decreases segments.len() - at,
{
    if at < 0 || at >= segments.len() {
        Unit::MgPerKgTs
    } else if contains_text(lowercased(trimmed(segments[at])), "mg/kg"@) {
        Unit::named_by(lowercased(trimmed(segments[at])))
    } else {
        unit_in(segments, at + 1)
    }
}

/// What a line is read as.
pub enum RowOutcome {
    /// No row of results.
    NoRow,
    /// A row of results.
    Row(RowView),
    /// A row of results without a value that can be read.
    Skipped(SkipView),
}

/// What a line is read as. A row has at least two segments; the first is
/// the name of the substance, which begins with a letter and is no title;
/// the first later segment that holds a value gives the value.
pub open spec fn row_outcome(line: Seq<char>) -> RowOutcome {
    let segments = gap_segments(line);
    let name = trimmed(segments[0]);
    if segments.len() < 2 || name.len() == 0 || !is_letter(name[0]) || is_header(lowercased(name)) {
        RowOutcome::NoRow
    } else {
        let found = scan_values(segments, 1, None);
        match found.value {
            Some(value) => RowOutcome::Row(
                RowView {
                    raw_name: name,
                    normalized_name: normalized(name),
                    value,
                    unit: unit_in(segments, 0),
                },
            ),
            None => RowOutcome::Skipped(
                SkipView {
                    line_text: line,
                    reason: match found.complaint {
                        Some(c) => c,
                        None => "no parseable numeric value found"@,
                    },
                },
            ),
        }
    }
}

/// What reading a line yields.
pub open spec fn is_row_outcome(r: Result<Option<AnalysisRow>, SkippedLine>, line: Seq<char>) -> bool {
    match row_outcome(line) {
        RowOutcome::NoRow => r matches Ok(None),
        RowOutcome::Row(row) => r matches Ok(Some(x)) && x@ == row,
        RowOutcome::Skipped(skip) => r matches Err(x) && x@ == skip,
    }
}

/// The unit that the segments name.
fn find_unit(segments: &Vec<String>) -> (r: Unit)
    ensures
        r == unit_in(texts(segments@), 0),
{
    let mut k: usize = 0;
    while k < segments.len()
        invariant
            k <= segments.len(),
            unit_in(texts(segments@), 0) == unit_in(texts(segments@), k as int),
        decreases segments.len() - k,
    {
        assert(texts(segments@)[k as int] == segments@[k as int]@);
        let lower = crate::text::lowercase(
            crate::text::string_of(&crate::text::trimmed_chars(segments[k].as_str())).as_str(),
        );
        if crate::text::contains(lower.as_str(), "mg/kg") {
            return Unit::from_str_loose(lower.as_str());
        }
        k += 1;
    }
    Unit::MgPerKgTs
}

/// The value of the first segment after the name that holds one, and the
/// complaint about the last segment before it that could not be read.
fn find_value(segments: &Vec<String>) -> (r: (Option<crate::model::AnalysisValue>, Option<String>))
    requires
        segments.len() >= 1,
    ensures
        match r.0 {
            Some(v) => Some(v@) == scan_values(texts(segments@), 1, None).value,
            None => scan_values(texts(segments@), 1, None).value is None,
        },
        option_text(r.1) == scan_values(texts(segments@), 1, None).complaint,
{
    let mut complaint: Option<String> = None;
    let mut k: usize = 1;
    while k < segments.len()
        invariant
            1 <= k <= segments.len(),
            scan_values(texts(segments@), 1, None) == scan_values(
                texts(segments@),
                k as int,
                option_text(complaint),
            ),
        decreases segments.len() - k,
    {
        assert(texts(segments@)[k as int] == segments@[k as int]@);
        let segment = crate::text::string_of(&crate::text::trimmed_chars(segments[k].as_str()));
        match parse_value(segment.as_str()) {
            Ok(Some(value)) => {
                return (Some(value), complaint);
            },
            Ok(None) => {},
            Err(e) => {
                complaint = Some(e.to_string());
            },
        }
        k += 1;
    }
    (None, complaint)
}

/// Reads a line as a row of results.
pub fn try_parse_row(line: &str) -> (r: Result<Option<AnalysisRow>, SkippedLine>)
    ensures
        is_row_outcome(r, line@),
{
    let segments = split_by_whitespace_gaps(line);
    if segments.len() < 2 {
        return Ok(None);
    }
    assert(texts(segments@)[0] == segments@[0]@);
    let name_chars = crate::text::trimmed_chars(segments[0].as_str());
    if name_chars.len() == 0 || !crate::text::is_alphabetic(name_chars[0]) {
        return Ok(None);
    }
    let name = crate::text::string_of(&name_chars);
    if is_header_word(crate::text::lowercase(name.as_str()).as_str()) {
        return Ok(None);
    }
    let (value, complaint) = find_value(&segments);
    match value {
        Some(value) => Ok(
            Some(
                AnalysisRow {
                    raw_name: name.clone(),
                    normalized_name: normalize_substance(name.as_str()),
                    value,
                    unit: find_unit(&segments),
                },
            ),
        ),
        None => {
            let reason = match complaint {
                Some(c) => c,
                None => String::from_str("no parseable numeric value found"),
            };
            Err(SkippedLine { line_text: String::from_str(line), reason })
        },
    }
}

/// Whether a line can hold a row: without surrounding whitespace it takes
/// at least three bytes.
pub open spec fn can_hold_row(line: Seq<char>) -> bool {
    utf8_size(trimmed(line)) >= 3
}

/// The rows that the first `upto` lines hold.
pub open spec fn table_rows(lines: Seq<Seq<char>>, upto: int) -> Seq<RowView>
    decreases upto,
{
    if upto <= 0 || upto > lines.len() {
        Seq::empty()
    } else {
        let before = table_rows(lines, upto - 1);
        if can_hold_row(lines[upto - 1]) {
            match row_outcome(trimmed(lines[upto - 1])) {
                RowOutcome::Row(row) => before.push(row),
                _ => before,
            }
        } else {
            before
        }
    }
}

/// Those of the first `upto` lines that look like rows and hold no value
/// that can be read.
pub open spec fn skipped_rows(lines: Seq<Seq<char>>, upto: int) -> Seq<SkipView>
    decreases upto,
{
    if upto <= 0 || upto > lines.len() {
        Seq::empty()
    } else {
        let before = skipped_rows(lines, upto - 1);
        if can_hold_row(lines[upto - 1]) {
            match row_outcome(trimmed(lines[upto - 1])) {
                RowOutcome::Skipped(skip) => before.push(skip),
                _ => before,
            }
        } else {
            before
        }
    }
}

/// Reads the rows of results among the lines, and tells which lines
/// looked like rows and could not be read.
pub fn parse_table_rows(lines: &[&str]) -> (r: (Vec<AnalysisRow>, Vec<SkippedLine>))
    ensures
        row_views(r.0@) == table_rows(line_texts(lines@), lines.len() as int),
        skip_views(r.1@) == skipped_rows(line_texts(lines@), lines.len() as int),
{
    let mut rows: Vec<AnalysisRow> = Vec::new();
    let mut skipped: Vec<SkippedLine> = Vec::new();
    let mut i: usize = 0;
    assert(row_views(rows@) =~= Seq::empty());
    assert(skip_views(skipped@) =~= Seq::empty());
    while i < lines.len()
        invariant
            i <= lines.len(),
            row_views(rows@) == table_rows(line_texts(lines@), i as int),
            skip_views(skipped@) == skipped_rows(line_texts(lines@), i as int),
        decreases lines.len() - i,
    {
        assert(line_texts(lines@)[i as int] == lines@[i as int]@);
        let t = crate::text::trimmed_chars(lines[i]);
        assert(t@.take(t.len() as int) == t@);
        if crate::text::size_of_prefix(&t, t.len()) >= 3 {
            match try_parse_row(crate::text::string_of(&t).as_str()) {
                Ok(Some(row)) => {
                    let ghost before = row_views(rows@);
                    rows.push(row);
                    assert(row_views(rows@) =~= before.push(row@));
                },
                Ok(None) => {},
                Err(skip) => {
                    let ghost before = skip_views(skipped@);
                    skipped.push(skip);
                    assert(skip_views(skipped@) =~= before.push(skip@));
                },
            }
        }
        i += 1;
    }
    (rows, skipped)
}

/// The first thirty lines of a section: where its header is looked for.
pub open spec fn header_lines(lines: Seq<Seq<char>>) -> Seq<Seq<char>> {
    if lines.len() > 30 {
        lines.take(30)
    } else {
        lines
    }
}

/// The header of a section.
pub open spec fn section_header(lines: Seq<Seq<char>>) -> HeaderView {
    header_of(header_lines(lines), header_lines(lines).len() as int)
}

/// What a section is read as: a report with the lines that were skipped,
/// or the complaint that it holds no values.
pub open spec fn section_outcome(lines: Seq<Seq<char>>) -> Result<(ReportView, Seq<SkipView>), Seq<
    char,
>> {
    let rows = table_rows(lines, lines.len() as int);
    if rows.len() == 0 {
        Err("no analysis values found in section"@)
    } else {
        Ok(
            (
                ReportView { header: section_header(lines), rows },
                skipped_rows(lines, lines.len() as int),
            ),
        )
    }
}

/// The header that the first thirty lines give.
fn parse_section_header(lines: &[&str]) -> (h: crate::model::ReportHeader)
    ensures
        h@ == section_header(line_texts(lines@)),
{
    let n: usize = if lines.len() > 30 {
        30
    } else {
        lines.len()
    };
    let head = vstd::slice::slice_subrange(lines, 0, n);
    proof {
        assert(line_texts(head@) =~= header_lines(line_texts(lines@)));
    }
    parse_header(head)
}

/// Reads the section of one sample as a report.
pub fn parse_section(lines: &[&str]) -> (r: Result<(AnalysisReport, Vec<SkippedLine>), SondaError>)
    ensures
        match section_outcome(line_texts(lines@)) {
            Ok((report, skipped)) => r matches Ok(x) && x.0@ == report && skip_views(x.1@)
                == skipped,
            Err(complaint) => r matches Err(SondaError::ParseError(m)) && m@ == complaint,
        },
{
    let header = parse_section_header(lines);
    let (rows, skipped) = parse_table_rows(lines);
    if rows.len() == 0 {
        return Err(SondaError::ParseError(String::from_str("no analysis values found in section")));
    }
    Ok((AnalysisReport { header, rows }, skipped))
}

/// What was read from a document, by its contents.
pub struct ParsedView {
    pub reports: Seq<ReportView>,
    pub warnings: Seq<WarningView>,
    pub skipped_lines: Seq<SkipView>,
}

/// The identifier that a warning names a section by: that of its sample,
/// else that of its report.
pub open spec fn warned_sample(h: HeaderView) -> Option<Seq<char>> {
    if h.sample_id is Some {
        h.sample_id
    } else {
        h.lab_report_id
    }
}

/// What the first `upto` sections are read as: the reports of those that
/// hold values, with their skipped lines, and a warning for each of the
/// others.
pub open spec fn read_sections(sections: Seq<Seq<Seq<char>>>, upto: int) -> ParsedView
    decreases upto,
{
    if upto <= 0 || upto > sections.len() {
        ParsedView { reports: Seq::empty(), warnings: Seq::empty(), skipped_lines: Seq::empty() }
    } else {
        let before = read_sections(sections, upto - 1);
        match section_outcome(sections[upto - 1]) {
            Ok((report, skipped)) => ParsedView {
                reports: before.reports.push(report),
                warnings: before.warnings,
                skipped_lines: before.skipped_lines + skipped,
            },
            Err(complaint) => ParsedView {
                reports: before.reports,
                warnings: before.warnings.push(
                    WarningView {
                        section_index: upto as usize,
                        sample_id: warned_sample(section_header(sections[upto - 1])),
                        reason: complaint,
                    },
                ),
                skipped_lines: before.skipped_lines,
            },
        }
    }
}

/// The lines of the first `upto` pages, in order.
pub open spec fn document_lines(pages: Seq<PageContent>, upto: int) -> Seq<Seq<char>>
    decreases upto,
{
    if upto <= 0 || upto > pages.len() {
        Seq::empty()
    } else {
        document_lines(pages, upto - 1) + texts(pages[upto - 1].lines@)
    }
}

/// What a document is read as: its reports with the warnings and skipped
/// lines; or the complaint that it holds no text, or no values.
pub open spec fn document_outcome(pages: Seq<PageContent>) -> Result<ParsedView, Seq<char>> {
    let lines = document_lines(pages, pages.len() as int);
    let sections = sections_of(lines);
    let read = read_sections(sections, sections.len() as int);
    if lines.len() == 0 {
        Err("no text content found in PDF"@)
    } else if read.reports.len() == 0 {
        Err("no analysis values found in report"@)
    } else {
        Ok(read)
    }
}

impl View for ParsedReports {
    type V = ParsedView;

    open spec fn view(&self) -> ParsedView {
        ParsedView {
            reports: report_views(self.reports@),
            warnings: warning_views(self.warnings@),
            skipped_lines: skip_views(self.skipped_lines@),
        }
    }
}

/// All lines of the pages, in order.
fn collect_lines<'a>(pages: &'a [PageContent]) -> (lines: Vec<&'a str>)
    ensures
        line_texts(lines@) == document_lines(pages@, pages.len() as int),
{
    let mut lines: Vec<&'a str> = Vec::new();
    let mut p: usize = 0;
    assert(line_texts(lines@) =~= Seq::empty());
    while p < pages.len()
        invariant
            p <= pages.len(),
            line_texts(lines@) == document_lines(pages@, p as int),
        decreases pages.len() - p,
    {
        let page = &pages[p];
        let ghost start = line_texts(lines@);
        let mut i: usize = 0;
        assert(texts(page.lines@).take(0) =~= Seq::empty());
        assert(line_texts(lines@) =~= start + texts(page.lines@).take(0));
        while i < page.lines.len()
            invariant
                i <= page.lines.len(),
                line_texts(lines@) == start + texts(page.lines@).take(i as int),
            decreases page.lines.len() - i,
        {
            let ghost before = line_texts(lines@);
            let line = page.lines[i].as_str();
            lines.push(line);
            assert(line_texts(lines@) =~= before.push(line@));
            assert(texts(page.lines@).take(i + 1) =~= texts(page.lines@).take(i as int).push(
                page.lines@[i as int]@,
            ));
            i += 1;
        }
        assert(texts(page.lines@).take(page.lines.len() as int) =~= texts(page.lines@));
        p += 1;
    }
    lines
}

/// Reads the reports of all samples from the text of a document. The
/// document is split into the sections of its samples; a section without
/// values gives a warning, and the others are still read.
pub fn parse_reports(pages: &[PageContent]) -> (r: Result<ParsedReports, SondaError>)
    ensures
        match document_outcome(pages@) {
            Ok(parsed) => r matches Ok(x) && x@ == parsed,
            Err(complaint) => r matches Err(SondaError::ParseError(m)) && m@ == complaint,
        },
{
    let all_lines = collect_lines(pages);
    if all_lines.len() == 0 {
        return Err(SondaError::ParseError(String::from_str("no text content found in PDF")));
    }
    let sections = split_into_sections(all_lines.as_slice());
    let ghost all = section_texts(sections@);
    let mut reports: Vec<AnalysisReport> = Vec::new();
    let mut warnings: Vec<ParseWarning> = Vec::new();
    let mut skipped_lines: Vec<SkippedLine> = Vec::new();
    let mut k: usize = 0;
    assert(report_views(reports@) =~= Seq::empty());
    assert(warning_views(warnings@) =~= Seq::empty());
    assert(skip_views(skipped_lines@) =~= Seq::empty());
    while k < sections.len()
        invariant
            k <= sections.len(),
            all == section_texts(sections@),
            report_views(reports@) == read_sections(all, k as int).reports,
            warning_views(warnings@) == read_sections(all, k as int).warnings,
            skip_views(skipped_lines@) == read_sections(all, k as int).skipped_lines,
        decreases sections.len() - k,
    {
        let section = sections[k].as_slice();
        assert(all[k as int] == line_texts(section@));
        match parse_section(section) {
            Ok((report, mut skipped)) => {
                let ghost before = report_views(reports@);
                let ghost skipped_before = skip_views(skipped_lines@);
                let ghost added = skip_views(skipped@);
                reports.push(report);
                skipped_lines.append(&mut skipped);
                assert(report_views(reports@) =~= before.push(report@));
                assert(skip_views(skipped_lines@) =~= skipped_before + added);
            },
            Err(e) => {
                let header = parse_section_header(section);
                let sample_id = match header.sample_id {
                    Some(id) => Some(id),
                    None => header.lab_report_id,
                };
                let reason = match e {
                    SondaError::ParseError(message) => message,
                    other => other.to_string(),
                };
                let warning = ParseWarning { section_index: k + 1, sample_id, reason };
                let ghost before = warning_views(warnings@);
                warnings.push(warning);
                assert(warning_views(warnings@) =~= before.push(warning@));
            },
        }
        k += 1;
    }
    if reports.len() == 0 {
        return Err(SondaError::ParseError(String::from_str("no analysis values found in report")));
    }
    Ok(ParsedReports { reports, warnings, skipped_lines })
}

} // verus!
