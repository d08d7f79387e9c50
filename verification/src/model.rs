//! Reports as they come from the laboratory: a header and the analysed rows.

use crate::decimal::{Decimal, Parts};
use crate::text::{contains_text, lowercased, trimmed};
use vstd::prelude::*;
use vstd::string::StringExecFns;

verus! {

/// A laboratory result: a measurement, or only the detection limit that
/// the true value lies below.
#[derive(Debug, Clone, Copy, PartialEq)]
pub enum AnalysisValue {
    Measured(Decimal),
    BelowDetection(Decimal),
}

/// A value by its contents.
pub enum ValueView {
    Measured(Parts),
    BelowDetection(Parts),
}

impl View for AnalysisValue {
    type V = ValueView;

    open spec fn view(&self) -> ValueView {
        match *self {
            AnalysisValue::Measured(v) => ValueView::Measured(v@),
            AnalysisValue::BelowDetection(v) => ValueView::BelowDetection(v@),
        }
    }
}

impl AnalysisValue {
    /// The measurement, or the detection limit.
    pub fn numeric(&self) -> (r: Decimal)
        ensures
            r == match *self {
                AnalysisValue::Measured(v) => v,
                AnalysisValue::BelowDetection(v) => v,
            },
    {
        match self {
            AnalysisValue::Measured(v) => *v,
            AnalysisValue::BelowDetection(v) => *v,
        }
    }

    pub fn is_below_detection(&self) -> (r: bool)
        ensures
            r == (*self is BelowDetection),
    {
        match self {
            AnalysisValue::Measured(_) => false,
            AnalysisValue::BelowDetection(_) => true,
        }
    }

    /// The value as reports write it: the number, after `< ` where it is a
    /// detection limit.
    pub open spec fn text(self) -> Seq<char> {
        match self {
            AnalysisValue::Measured(v) => v@.text(),
            AnalysisValue::BelowDetection(v) => "< "@ + v@.text(),
        }
    }

    /// The value as reports write it.
    pub fn to_string(&self) -> (r: String)
        ensures
            r@ == self.text(),
    {
        match self {
            AnalysisValue::Measured(v) => v.to_text(),
            AnalysisValue::BelowDetection(v) => {
                let mut out = String::from_str("< ");
                out.append(v.to_text().as_str());
                out
            },
        }
    }
}

/// The physical medium of a sample.
#[derive(Debug, Clone, Copy, PartialEq, Eq)]
pub enum Matrix {
    Jord,
    Asfalt,
}

impl Matrix {
    /// The name of the matrix as reports give it.
    pub open spec fn label(self) -> Seq<char> {
        match self {
            Matrix::Jord => "Jord"@,
            Matrix::Asfalt => "Asfalt"@,
        }
    }

    /// The name of the matrix as reports give it.
    pub fn to_string(&self) -> (r: String)
        ensures
            r@ == self.label(),
    {
        match self {
            Matrix::Jord => String::from_str("Jord"),
            Matrix::Asfalt => String::from_str("Asfalt"),
        }
    }

    /// The matrix that a text names: soil where it holds `jord` or `soil`,
    /// else asphalt where it holds `asfalt` or `asphalt`, in any case of
    /// letters.
    pub open spec fn named_by(s: Seq<char>) -> Option<Matrix> {
        let lower = lowercased(trimmed(s));
        if contains_text(lower, "jord"@) || contains_text(lower, "soil"@) {
            Some(Matrix::Jord)
        } else if contains_text(lower, "asfalt"@) || contains_text(lower, "asphalt"@) {
            Some(Matrix::Asfalt)
        } else {
            None
        }
    }

    /// The matrix that a text names, if it names one.
    pub fn from_str_loose(s: &str) -> (r: Option<Matrix>)
        ensures
            r == Matrix::named_by(s@),
    {
        let lower = crate::text::lowercase_chars(&crate::text::trimmed_chars(s));
        if crate::text::has(&lower, "jord") || crate::text::has(&lower, "soil") {
            Some(Matrix::Jord)
        } else if crate::text::has(&lower, "asfalt") || crate::text::has(&lower, "asphalt") {
            Some(Matrix::Asfalt)
        } else {
            None
        }
    }

    /// The name that ruleset files use for the matrix.
    pub open spec fn key(self) -> Seq<char> {
        match self {
            Matrix::Jord => "jord"@,
            Matrix::Asfalt => "asfalt"@,
        }
    }
}

/// Whether a matrix filter lets a rule or ruleset apply to a sample: no
/// filter always does; a filter does where the matrix of the sample is
/// known and the filter names it, in any case of letters.
pub open spec fn matrix_applies(filter: Option<String>, matrix: Option<Matrix>) -> bool {
    match filter {
        None => true,
        Some(f) => match matrix {
            Some(m) => lowercased(f@) == m.key(),
            None => false,
        },
    }
}

/// Whether a matrix filter lets a rule or ruleset apply to a sample.
pub fn matrix_filter_applies(filter: &Option<String>, matrix: &Option<Matrix>) -> (r: bool)
    ensures
        r == matrix_applies(*filter, *matrix),
{
    match filter {
        None => true,
        Some(f) => match matrix {
            Some(m) => {
                let lower = crate::text::lowercase(f.as_str());
                match m {
                    Matrix::Jord => crate::text::same_text(lower.as_str(), "jord"),
                    Matrix::Asfalt => crate::text::same_text(lower.as_str(), "asfalt"),
                }
            },
            None => false,
        },
    }
}

/// The unit a row is reported in.
#[derive(Debug, Clone, Copy, PartialEq, Eq)]
pub enum Unit {
    MgPerKgTs,
    MgPerKg,
    Percent,
}

impl Unit {
    /// The unit that a text names: mg/kg of dry matter where it holds
    /// `mg/kg` and `ts`, plain mg/kg where it holds only `mg/kg`, percent
    /// where it holds `%`, and mg/kg of dry matter otherwise.
    pub open spec fn named_by(s: Seq<char>) -> Unit {
        let lower = lowercased(trimmed(s));
        if contains_text(lower, "mg/kg"@) && contains_text(lower, "ts"@) {
            Unit::MgPerKgTs
        } else if contains_text(lower, "mg/kg"@) {
            Unit::MgPerKg
        } else if contains_text(lower, "%"@) {
            Unit::Percent
        } else {
            Unit::MgPerKgTs
        }
    }

    /// The unit that a text names.
    pub fn from_str_loose(s: &str) -> (r: Unit)
        ensures
            r == Unit::named_by(s@),
    {
        let lower = crate::text::lowercase_chars(&crate::text::trimmed_chars(s));
        Unit::in_lowercase(&lower)
    }

    /// The unit that a lowercase text names.
    fn in_lowercase(lower: &Vec<char>) -> (r: Unit)
        ensures
            r == if contains_text(lower@, "mg/kg"@) && contains_text(lower@, "ts"@) {
                Unit::MgPerKgTs
            } else if contains_text(lower@, "mg/kg"@) {
                Unit::MgPerKg
            } else if contains_text(lower@, "%"@) {
                Unit::Percent
            } else {
                Unit::MgPerKgTs
            },
    {
        if crate::text::has(lower, "mg/kg") && crate::text::has(lower, "ts") {
            Unit::MgPerKgTs
        } else if crate::text::has(lower, "mg/kg") {
            Unit::MgPerKg
        } else if crate::text::has(lower, "%") {
            Unit::Percent
        } else {
            Unit::MgPerKgTs
        }
    }

    /// The unit as it is written.
    pub open spec fn label(self) -> Seq<char> {
        match self {
            Unit::MgPerKgTs => "mg/kg TS"@,
            Unit::MgPerKg => "mg/kg"@,
            Unit::Percent => "%"@,
        }
    }

    /// The unit as it is written.
    pub fn to_string(&self) -> (r: String)
        ensures
            r@ == self.label(),
    {
        match self {
            Unit::MgPerKgTs => String::from_str("mg/kg TS"),
            Unit::MgPerKg => String::from_str("mg/kg"),
            Unit::Percent => String::from_str("%"),
        }
    }
}

impl Default for Unit {
    fn default() -> (r: Unit)
        ensures
            r == Unit::MgPerKgTs,
    {
        Unit::MgPerKgTs
    }
}

/// One analysed substance.
#[derive(Debug, Clone)]
pub struct AnalysisRow {
    pub raw_name: String,
    pub normalized_name: String,
    pub value: AnalysisValue,
    pub unit: Unit,
}

/// A row by its contents.
pub struct RowView {
    pub raw_name: Seq<char>,
    pub normalized_name: Seq<char>,
    pub value: ValueView,
    pub unit: Unit,
}

impl View for AnalysisRow {
    type V = RowView;

    open spec fn view(&self) -> RowView {
        RowView {
            raw_name: self.raw_name@,
            normalized_name: self.normalized_name@,
            value: self.value@,
            unit: self.unit,
        }
    }
}

/// The contents of each row.
pub open spec fn row_views(rows: Seq<AnalysisRow>) -> Seq<RowView> {
    rows.map_values(|r: AnalysisRow| r@)
}

/// What the report says about itself.
#[derive(Debug, Clone)]
pub struct ReportHeader {
    pub lab_report_id: Option<String>,
    pub sample_id: Option<String>,
    pub matrix: Option<Matrix>,
    pub date: Option<String>,
    pub project: Option<String>,
    /// The laboratory, where it was recognised.
    pub lab: Option<String>,
}

/// The characters of an optional string.
pub open spec fn option_text(o: Option<String>) -> Option<Seq<char>> {
    match o {
        Some(s) => Some(s@),
        None => None,
    }
}

/// A header by its contents.
pub struct HeaderView {
    pub lab_report_id: Option<Seq<char>>,
    pub sample_id: Option<Seq<char>>,
    pub matrix: Option<Matrix>,
    pub date: Option<Seq<char>>,
    pub project: Option<Seq<char>>,
    pub lab: Option<Seq<char>>,
}

impl View for ReportHeader {
    type V = HeaderView;

    open spec fn view(&self) -> HeaderView {
        HeaderView {
            lab_report_id: option_text(self.lab_report_id),
            sample_id: option_text(self.sample_id),
            matrix: self.matrix,
            date: option_text(self.date),
            project: option_text(self.project),
            lab: option_text(self.lab),
        }
    }
}

impl Default for ReportHeader {
    fn default() -> (r: ReportHeader)
        ensures
            r.lab_report_id is None,
            r.sample_id is None,
            r.matrix is None,
            r.date is None,
            r.project is None,
            r.lab is None,
    {
        ReportHeader {
            lab_report_id: None,
            sample_id: None,
            matrix: None,
            date: None,
            project: None,
            lab: None,
        }
    }
}

/// The report of one sample.
#[derive(Debug, Clone)]
pub struct AnalysisReport {
    pub header: ReportHeader,
    pub rows: Vec<AnalysisRow>,
}

/// A report by its contents.
pub struct ReportView {
    pub header: HeaderView,
    pub rows: Seq<RowView>,
}

impl View for AnalysisReport {
    type V = ReportView;

    open spec fn view(&self) -> ReportView {
        ReportView { header: self.header@, rows: row_views(self.rows@) }
    }
}

} // verus!
