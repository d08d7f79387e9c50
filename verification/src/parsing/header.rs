//! The header of a report: identifiers, matrix, project and laboratory.

use crate::model::{option_text, HeaderView, Matrix, ReportHeader};
use crate::text::{
    char_index_at, chars_of, contains_text, first_at, is_space, line_texts, lowercased, trimmed,
    utf8_size,
};
use vstd::prelude::*;
use vstd::string::StringExecFns;

verus! {

/// The position at or after `from` of the first character that is neither
/// a colon nor whitespace.
pub open spec fn after_separators(s: Seq<char>, from: int) -> int
    decreases s.len() - from,
{
    if 0 <= from < s.len() && (s[from] == ':' || is_space(s[from])) {
        after_separators(s, from + 1)
    } else {
        from
    }
}

/// Three spaces: the gap that parts the columns of a line.
pub open spec fn column_gap() -> Seq<char> {
    seq![' ', ' ', ' ']
}

/// The value that follows a label in a line. The label is looked for in
/// the lowercase form of the line; the value starts as many bytes into the
/// line as the label ends in the lowercase form. Colons and whitespace
/// before the value are passed over; the value ends before the next gap of
/// three spaces and has no whitespace at either end. There is none where
/// the label does not occur, where its end does not fall between two
/// characters of the line, or where nothing is left.
pub open spec fn value_after(line: Seq<char>, label: Seq<char>) -> Option<Seq<char>> {
    let lower = lowercased(line);
    match first_at(lower, label, 0) {
        Some(at) => match char_index_at(line, utf8_size(lower.take(at)) + utf8_size(label), 0) {
            Some(k) => {
                let start = after_separators(line, k);
                let end = match first_at(line, column_gap(), start) {
                    Some(gap) => gap,
                    None => line.len() as int,
                };
                if start >= line.len() || trimmed(line.subrange(start, end)).len() == 0 {
                    None
                } else {
                    Some(trimmed(line.subrange(start, end)))
                }
            },
            None => None,
        },
        None => None,
    }
}

/// The value that follows a label in a line.
pub fn extract_after_label(line: &str, label: &str) -> (r: Option<String>)
    ensures
        option_text(r) == value_after(line@, label@),
{
    let plain = chars_of(line);
    let lower = chars_of(crate::text::lowercase(line).as_str());
    let wanted = chars_of(label);
    let at = match crate::text::find_first(&lower, &wanted, 0) {
        Some(at) => at,
        None => {
            return None;
        },
    };
    assert(wanted@.take(wanted.len() as int) == wanted@);
    let offset = crate::text::size_of_prefix(&lower, at) + crate::text::size_of_prefix(
        &wanted,
        wanted.len(),
    );
    let k = match crate::text::char_index(&plain, offset) {
        Some(k) => k,
        None => {
            return None;
        },
    };
    let mut start: usize = k;
    while start < plain.len() && (plain[start] == ':' || crate::text::is_whitespace(
        plain[start],
    ))
        invariant
            k <= start <= plain.len(),
            after_separators(plain@, k as int) == after_separators(plain@, start as int),
        decreases plain.len() - start,
    {
        start += 1;
    }
    if start >= plain.len() {
        return None;
    }
    let mut gap: Vec<char> = Vec::new();
    gap.push(' ');
    gap.push(' ');
    gap.push(' ');
    assert(gap@ =~= column_gap());
    let end = match crate::text::find_first(&plain, &gap, start) {
        Some(g) => g,
        None => plain.len(),
    };
    let (a, b) = crate::text::trim_bounds(&plain, start, end);
    if a == b {
        None
    } else {
        Some(crate::text::text_of(&plain, a, b))
    }
}

/// The header after one more line. The laboratory, the identifier of the
/// report, the matrix and the project are taken from the first line that
/// gives them. The identifier of the sample is the label that the client
/// gave, from the last line that gives one, or else the number that the
/// laboratory gave, from the first line that gives one.
pub open spec fn header_step(h: HeaderView, raw: Seq<char>) -> HeaderView {
    let line = trimmed(raw);
    let lower = lowercased(line);
    let matrix_given = if h.matrix is Some {
        h.matrix
    } else if value_after(line, "matris"@) is Some {
        Matrix::named_by(value_after(line, "matris"@)->0)
    } else if value_after(line, "provtyp"@) is Some {
        Matrix::named_by(value_after(line, "provtyp"@)->0)
    } else {
        None
    };
    HeaderView {
        lab_report_id: if h.lab_report_id is Some {
            h.lab_report_id
        } else if value_after(line, "rapport"@) is Some {
            value_after(line, "rapport"@)
        } else {
            value_after(line, "laboratorienummer"@)
        },
        sample_id: if value_after(line, "provmärkning"@) is Some {
            value_after(line, "provmärkning"@)
        } else if h.sample_id is Some {
            h.sample_id
        } else {
            value_after(line, "provnummer"@)
        },
        matrix: if matrix_given is Some {
            matrix_given
        } else if contains_text(lower, "matris"@) && contains_text(lower, "jord"@) {
            Some(Matrix::Jord)
        } else if contains_text(lower, "matris"@) && contains_text(lower, "asfalt"@) {
            Some(Matrix::Asfalt)
        } else {
            None
        },
        date: h.date,
        project: if h.project is Some {
            h.project
        } else if value_after(line, "projekt"@) is Some {
            value_after(line, "projekt"@)
        } else {
            value_after(line, "uppdrag"@)
        },
        lab: if h.lab is Some {
            h.lab
        } else if contains_text(lower, "eurofins"@) {
            Some("Eurofins"@)
        } else {
            None
        },
    }
}

/// The header that the first `upto` lines give.
pub open spec fn header_of(lines: Seq<Seq<char>>, upto: int) -> HeaderView
    decreases upto,
{
    if upto <= 0 || upto > lines.len() {
        HeaderView {
            lab_report_id: None,
            sample_id: None,
            matrix: None,
            date: None,
            project: None,
            lab: None,
        }
    } else {
        header_step(header_of(lines, upto - 1), lines[upto - 1])
    }
}

/// Reads the header of a report from its lines.
pub fn parse_header(lines: &[&str]) -> (h: ReportHeader)
    ensures
        h@ == header_of(line_texts(lines@), lines.len() as int),
{
    let mut header = ReportHeader::default();
    let mut i: usize = 0;
    while i < lines.len()
        invariant
            i <= lines.len(),
            header@ == header_of(line_texts(lines@), i as int),
        decreases lines.len() - i,
    {
        let ghost before = header@;
        let line_chars = crate::text::trimmed_chars(lines[i]);
        let line_text = crate::text::string_of(&line_chars);
        let line = line_text.as_str();
        let lower = crate::text::lowercase_chars(&line_chars);
        if header.lab.is_none() && crate::text::has(&lower, "eurofins") {
            header.lab = Some(String::from_str("Eurofins"));
        }
        if header.lab_report_id.is_none() {
            match extract_after_label(line, "rapport") {
                Some(id) => {
                    header.lab_report_id = Some(id);
                },
                None => {
                    header.lab_report_id = extract_after_label(line, "laboratorienummer");
                },
            }
        }
        match extract_after_label(line, "provmärkning") {
            Some(id) => {
                header.sample_id = Some(id);
            },
            None => {
                if header.sample_id.is_none() {
                    header.sample_id = extract_after_label(line, "provnummer");
                }
            },
        }
        if header.matrix.is_none() {
            match extract_after_label(line, "matris") {
                Some(value) => {
                    header.matrix = Matrix::from_str_loose(value.as_str());
                },
                None => match extract_after_label(line, "provtyp") {
                    Some(value) => {
                        header.matrix = Matrix::from_str_loose(value.as_str());
                    },
                    None => {},
                },
            }
            if header.matrix.is_none() {
                if crate::text::has(&lower, "matris") && crate::text::has(&lower, "jord") {
                    header.matrix = Some(Matrix::Jord);
                } else if crate::text::has(&lower, "matris") && crate::text::has(&lower, "asfalt") {
                    header.matrix = Some(Matrix::Asfalt);
                }
            }
        }
        if header.project.is_none() {
            match extract_after_label(line, "projekt") {
                Some(value) => {
                    header.project = Some(value);
                },
                None => {
                    header.project = extract_after_label(line, "uppdrag");
                },
            }
        }
        assert(line_texts(lines@)[i as int] == lines@[i as int]@);
        assert(header@ == header_step(before, lines@[i as int]@));
        i += 1;
    }
    header
}

} // verus!
