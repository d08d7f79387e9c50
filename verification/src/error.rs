//! What can go wrong.

use vstd::prelude::*;
use vstd::string::StringExecFns;

verus! {

/// The errors of this library.
#[derive(Debug, Clone)]
pub enum SondaError {
    /// Text could not be extracted from the document.
    Extraction(String),
    /// The `pdftotext` program is not installed.
    PdftotextNotFound,
    /// The `pdftotext` program failed.
    PdftotextFailed { code: i32, stderr: String },
    /// The text holds no report that can be read.
    ParseError(String),
    /// A ruleset file could not be loaded.
    RulesetLoad { path: String, reason: String },
    /// A ruleset breaks a rule of well-formedness.
    RulesetInvalid(String),
    /// The report is from a laboratory that is not supported.
    UnsupportedReport(String),
    /// No ruleset applies to the matrix of the sample.
    MatrixMismatch { matrix: String },
    /// No substance of the report is in the ruleset.
    NoMatches,
    /// A concentration, or a sum or product of concentrations, is too
    /// large to be represented or to be written out.
    NotRepresentable,
    /// Reading or writing failed.
    Io(String),
    /// A JSON text is malformed.
    Json(String),
}

impl SondaError {
    /// The message of the error.
    pub open spec fn message(self) -> Seq<char> {
        match self {
            SondaError::Extraction(m) => "PDF extraction failed: "@ + m@,
            SondaError::PdftotextNotFound => "pdftotext not found. Install poppler: brew install poppler (macOS) or apt install poppler-utils (Linux)"@,
            SondaError::PdftotextFailed { code, stderr } => "pdftotext failed with exit code "@
                + crate::text::signed_digits(code as int) + ": "@ + stderr@,
            SondaError::ParseError(m) => "failed to parse report: "@ + m@,
            SondaError::RulesetLoad { path, reason } => "failed to load ruleset from "@ + path@
                + ": "@ + reason@,
            SondaError::RulesetInvalid(m) => "invalid ruleset: "@ + m@,
            SondaError::UnsupportedReport(m) => "unsupported report format: "@ + m@
                + ". Currently only Eurofins reports are supported."@,
            SondaError::MatrixMismatch { matrix } => "report matrix '"@ + matrix@
                + "' does not match any of the provided rulesets"@,
            SondaError::NoMatches => "no substances matched between report and ruleset"@,
            SondaError::NotRepresentable => "a concentration is too large to be represented"@,
            SondaError::Io(m) => "IO error: "@ + m@,
            SondaError::Json(m) => "JSON error: "@ + m@,
        }
    }

    /// The message of the error.
    pub fn to_string(&self) -> (r: String)
        ensures
            r@ == self.message(),
    {
        match self {
            SondaError::Extraction(m) => {
                let mut out = String::from_str("PDF extraction failed: ");
                out.append(m.as_str());
                out
            },
            SondaError::PdftotextNotFound => String::from_str(
                "pdftotext not found. Install poppler: brew install poppler (macOS) or apt install poppler-utils (Linux)",
            ),
            SondaError::PdftotextFailed { code, stderr } => {
                let mut out = String::from_str("pdftotext failed with exit code ");
                out.append(crate::text::signed_number_text(*code).as_str());
                out.append(": ");
                out.append(stderr.as_str());
                out
            },
            SondaError::ParseError(m) => {
                let mut out = String::from_str("failed to parse report: ");
                out.append(m.as_str());
                out
            },
            SondaError::RulesetLoad { path, reason } => {
                let mut out = String::from_str("failed to load ruleset from ");
                out.append(path.as_str());
                out.append(": ");
                out.append(reason.as_str());
                out
            },
            SondaError::RulesetInvalid(m) => {
                let mut out = String::from_str("invalid ruleset: ");
                out.append(m.as_str());
                out
            },
            SondaError::UnsupportedReport(m) => {
                let mut out = String::from_str("unsupported report format: ");
                out.append(m.as_str());
                out.append(". Currently only Eurofins reports are supported.");
                out
            },
            SondaError::MatrixMismatch { matrix } => {
                let mut out = String::from_str("report matrix '");
                out.append(matrix.as_str());
                out.append("' does not match any of the provided rulesets");
                out
            },
            SondaError::NoMatches => String::from_str(
                "no substances matched between report and ruleset",
            ),
            SondaError::NotRepresentable => String::from_str(
                "a concentration is too large to be represented",
            ),
            SondaError::Io(m) => {
                let mut out = String::from_str("IO error: ");
                out.append(m.as_str());
                out
            },
            SondaError::Json(m) => {
                let mut out = String::from_str("JSON error: ");
                out.append(m.as_str());
                out
            },
        }
    }
}

} // verus!
