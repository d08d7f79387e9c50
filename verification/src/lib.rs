//! Classification of chemical-analysis reports from soil and asphalt samples.
//!
//! Two independent engines work on already-typed reports: a threshold
//! classifier that assigns each measured substance to a category of a
//! ruleset, and a hazard evaluator that decides whether the sample is
//! hazardous waste under the CLP hazard criteria. All quantities are exact
//! decimals; every function carries a contract that Verus proves.

pub mod classify;
pub mod clp;
pub mod decimal;
pub mod error;
pub mod extraction;
pub mod model;
pub mod output;
pub mod parsing;
pub mod rules;
pub mod text;
pub mod trace;

use classify::engine::is_ruleset_result;
use classify::hp_engine::{hp_is_not_representable, is_hp_classification};
use classify::outcome::{
    section_warning_views, ClassificationResult, ParseWarning, RuleSetResult, SampleResult,
    SkippedSectionView,
};
use clp::schema::{ClpDatabase, SpeciationTable};
use error::SondaError;
use extraction::PageContent;
use model::{matrix_applies, AnalysisReport, ReportHeader};
use parsing::{document_outcome, report_views, ParsedView, SkipView, WarningView};
use rules::schema::RuleSetDef;
use text::decimal_digits;
use trace::{
    decision_views, entry_for, entry_views, ruleset_decisions, trace_warning_views, DecisionView,
    EntryView, TraceBundle, TraceSeverity, TraceVisibility, TraceWarning, TraceWarningView,
};
use vstd::prelude::*;
use vstd::string::StringExecFns;

verus! {

/// Which classifiers to run.
#[derive(Debug, Clone, Copy)]
pub struct ClassifyOptions {
    /// Run the hazard evaluation.
    pub include_hp: bool,
}

impl Default for ClassifyOptions {
    fn default() -> (r: ClassifyOptions)
        ensures
            !r.include_hp,
    {
        ClassifyOptions { include_hp: false }
    }
}

/// The name that a sample goes by: its sample identifier, else the
/// identifier of its report, else `unknown`.
pub open spec fn sample_name(header: ReportHeader) -> Seq<char> {
    match header.sample_id {
        Some(id) => id@,
        None => match header.lab_report_id {
            Some(id) => id@,
            None => "unknown"@,
        },
    }
}

/// The matrix of a sample as a text; `unknown` where it is not known.
pub open spec fn matrix_text(header: ReportHeader) -> Seq<char> {
    match header.matrix {
        Some(m) => m.label(),
        None => "unknown"@,
    }
}

/// The indices of those of the first `upto` rulesets that apply to the
/// matrix of a report.
pub open spec fn applicable(rulesets: Seq<RuleSetDef>, report: AnalysisReport, upto: int) -> Seq<int>
    decreases upto,
{
    if upto <= 0 || upto > rulesets.len() {
        Seq::empty()
    } else if matrix_applies(rulesets[upto - 1].matrix, report.header.matrix) {
        applicable(rulesets, report, upto - 1).push(upto - 1)
    } else {
        applicable(rulesets, report, upto - 1)
    }
}

/// The results are those of the given rulesets, in order.
pub open spec fn threshold_results(
    results: Seq<RuleSetResult>,
    chosen: Seq<int>,
    report: AnalysisReport,
    rulesets: Seq<RuleSetDef>,
) -> bool {
    forall|k: int|
        0 <= k < chosen.len() && k < results.len() ==> is_ruleset_result(
            #[trigger] results[k],
            report,
            rulesets[chosen[k]],
        )
}

/// What classifying a sample yields: no ruleset applies and the hazard
/// evaluation was not asked for, which is the error of a matrix mismatch;
/// or the results of the applicable rulesets, in their order, followed by
/// that of the hazard evaluation where it was asked for.
pub open spec fn is_sample_outcome(
    r: Result<SampleResult, SondaError>,
    report: AnalysisReport,
    rulesets: Seq<RuleSetDef>,
    options: ClassifyOptions,
    table: SpeciationTable,
    db: ClpDatabase,
) -> bool {
    let chosen = applicable(rulesets, report, rulesets.len() as int);
    match r {
        Ok(sample) => {
            &&& chosen.len() > 0 || options.include_hp
            &&& sample.sample_id@ == sample_name(report.header)
            &&& sample.ruleset_results@.len() == chosen.len() + if options.include_hp {
                1int
            } else {
                0int
            }
            &&& threshold_results(sample.ruleset_results@, chosen, report, rulesets)
            &&& options.include_hp ==> is_hp_classification(
                sample.ruleset_results@[chosen.len() as int],
                report,
                table,
                db,
            )
        },
        Err(SondaError::MatrixMismatch { matrix }) => {
            &&& chosen.len() == 0
            &&& !options.include_hp
            &&& matrix@ == matrix_text(report.header)
        },
        Err(SondaError::NotRepresentable) => {
            &&& options.include_hp
            &&& hp_is_not_representable(report, table, db)
        },
        Err(_) => false,
    }
}

/// The matrix of a sample as a text.
fn matrix_name(header: &ReportHeader) -> (r: String)
    ensures
        r@ == matrix_text(*header),
{
    match &header.matrix {
        Some(m) => m.to_string(),
        None => String::from_str("unknown"),
    }
}

/// Classifies one sample: under each ruleset that applies to its matrix,
/// and by the hazard evaluation where the options ask for it. Every
/// ruleset must have a category, and the reference data must be
/// consistent where the hazard evaluation is asked for.
pub fn classify_sample(
    report: &AnalysisReport,
    rulesets: &[RuleSetDef],
    options: &ClassifyOptions,
    table: &SpeciationTable,
    db: &ClpDatabase,
) -> (r: Result<SampleResult, SondaError>)
    requires
        forall|k: int| 0 <= k < rulesets.len() ==> (#[trigger] rulesets[k]).categories.len() > 0,
        options.include_hp ==> clp::database::is_consistent(*table, *db),
    ensures
        is_sample_outcome(r, *report, rulesets@, *options, *table, *db),
{
    let sample_id = match &report.header.sample_id {
        Some(id) => id.clone(),
        None => match &report.header.lab_report_id {
            Some(id) => id.clone(),
            None => String::from_str("unknown"),
        },
    };
    let mut ruleset_results: Vec<RuleSetResult> = Vec::new();
    let mut k: usize = 0;
    while k < rulesets.len()
        invariant
            k <= rulesets.len(),
            forall|n: int| 0 <= n < rulesets.len() ==> (#[trigger] rulesets[n]).categories.len() > 0,
            ruleset_results@.len() == applicable(rulesets@, *report, k as int).len(),
            threshold_results(
                ruleset_results@,
                applicable(rulesets@, *report, k as int),
                *report,
                rulesets@,
            ),
        decreases rulesets.len() - k,
    {
        if crate::model::matrix_filter_applies(&rulesets[k].matrix, &report.header.matrix) {
            ruleset_results.push(crate::classify::engine::classify_one(report, &rulesets[k]));
        }
        k += 1;
    }
    if ruleset_results.len() == 0 && !options.include_hp {
        return Err(SondaError::MatrixMismatch { matrix: matrix_name(&report.header) });
    }
    if options.include_hp {
        match crate::classify::hp_engine::classify_hp(report, table, db) {
            Some(result) => {
                ruleset_results.push(result);
            },
            None => {
                return Err(SondaError::NotRepresentable);
            },
        }
    }
    Ok(SampleResult { sample_id, ruleset_results })
}

/// The entries for the first `upto` rows of a report.
pub open spec fn report_entries(
    sample_id: Seq<char>,
    report: AnalysisReport,
    pages: Seq<PageContent>,
    upto: int,
) -> Seq<EntryView>
    decreases upto,
{
    if upto <= 0 || upto > report.rows.len() {
        Seq::empty()
    } else {
        report_entries(sample_id, report, pages, upto - 1).push(
            entry_for(
                sample_id,
                (upto - 1) as nat,
                report.rows[upto - 1],
                report.rows[upto - 1].unit.label(),
                pages,
            ),
        )
    }
}

/// The entries for the rows of the first `upto` samples.
pub open spec fn entries_upto(
    samples: Seq<SampleResult>,
    all: Seq<AnalysisReport>,
    pages: Seq<PageContent>,
    upto: int,
) -> Seq<EntryView>
    decreases upto,
{
    if upto <= 0 || upto > all.len() || upto > samples.len() {
        Seq::empty()
    } else {
        entries_upto(samples, all, pages, upto - 1) + report_entries(
            samples[upto - 1].sample_id@,
            all[upto - 1],
            pages,
            all[upto - 1].rows.len() as int,
        )
    }
}

/// The decisions of the first `upto` rulesets of a sample.
pub open spec fn sample_decisions(sample: SampleResult, upto: int) -> Seq<DecisionView>
    decreases upto,
{
    if upto <= 0 || upto > sample.ruleset_results.len() {
        Seq::empty()
    } else {
        sample_decisions(sample, upto - 1) + ruleset_decisions(
            sample.sample_id@,
            (upto - 1) as nat,
            sample.ruleset_results[upto - 1],
            sample.ruleset_results[upto - 1].substance_results.len() as int,
        )
    }
}

/// The decisions of the first `upto` samples.
pub open spec fn decisions_upto(samples: Seq<SampleResult>, upto: int) -> Seq<DecisionView>
    decreases upto,
{
    if upto <= 0 || upto > samples.len() {
        Seq::empty()
    } else {
        decisions_upto(samples, upto - 1) + sample_decisions(
            samples[upto - 1],
            samples[upto - 1].ruleset_results.len() as int,
        )
    }
}

/// What the record says of a line that was skipped.
pub open spec fn skipped_line_warning(skip: SkipView) -> TraceWarningView {
    TraceWarningView {
        sample_id: None,
        message: "Skipped line ("@ + skip.reason + "): '"@ + skip.line_text + "'"@,
        severity: TraceSeverity::Info,
        visibility: TraceVisibility::Auto,
    }
}

/// What is said of a section that gave no report.
pub open spec fn section_message(w: WarningView) -> Seq<char> {
    match w.sample_id {
        Some(id) => "Skipped sample '"@ + id + "' (section "@ + decimal_digits(
            w.section_index as nat,
        ) + "): "@ + w.reason,
        None => "Skipped section "@ + decimal_digits(w.section_index as nat) + ": "@ + w.reason,
    }
}

/// The warnings of the record: one for each skipped line, then one for
/// each section that gave no report.
pub open spec fn trace_warnings(parsed: ParsedView) -> Seq<TraceWarningView> {
    parsed.skipped_lines.map_values(|s: SkipView| skipped_line_warning(s))
        + parsed.warnings.map_values(
        |w: WarningView|
            TraceWarningView {
                sample_id: w.sample_id,
                message: section_message(w),
                severity: TraceSeverity::Important,
                visibility: TraceVisibility::Always,
            },
    )
}

/// The warnings of the result: one for each section that gave no report.
pub open spec fn section_warnings(parsed: ParsedView) -> Seq<SkippedSectionView> {
    parsed.warnings.map_values(
        |w: WarningView| SkippedSectionView { sample_id: w.sample_id, message: section_message(w) },
    )
}

/// What classifying the reports of a document yields: each report
/// classified as one sample, the warnings, and the record of all rows and
/// decisions.
pub open spec fn is_classification(
    res: ClassificationResult,
    reports: Seq<AnalysisReport>,
    parsed: ParsedView,
    pages: Seq<PageContent>,
    rulesets: Seq<RuleSetDef>,
    options: ClassifyOptions,
    table: SpeciationTable,
    db: ClpDatabase,
) -> bool {
    &&& res.samples.len() == reports.len()
    &&& forall|i: int|
        0 <= i < reports.len() ==> is_sample_outcome(
            Ok(#[trigger] res.samples[i]),
            reports[i],
            rulesets,
            options,
            table,
            db,
        )
    &&& section_warning_views(res.warnings@) == section_warnings(parsed)
    &&& res.trace.trace_schema_version@ == trace::schema_version()
    &&& entry_views(res.trace.entries@) == entries_upto(
        res.samples@,
        reports,
        pages,
        reports.len() as int,
    )
    &&& decision_views(res.trace.decisions@) == decisions_upto(
        res.samples@,
        res.samples.len() as int,
    )
    &&& trace_warning_views(res.trace.warnings@) == trace_warnings(parsed)
}

/// What classifying a document yields. A document without text or values
/// is a parse error; one whose first report names no known laboratory is
/// not supported; the error of the first sample that cannot be classified
/// ends the work.
pub open spec fn is_document_outcome(
    r: Result<ClassificationResult, SondaError>,
    pages: Seq<PageContent>,
    rulesets: Seq<RuleSetDef>,
    options: ClassifyOptions,
    table: SpeciationTable,
    db: ClpDatabase,
) -> bool {
    match document_outcome(pages) {
        Err(complaint) => r matches Err(SondaError::ParseError(m)) && m@ == complaint,
        Ok(parsed) => if parsed.reports[0].header.lab is None {
            r matches Err(SondaError::UnsupportedReport(m)) && m@
                == "could not detect laboratory. Look for 'Eurofins' in the report header"@
        } else {
            exists|reports: Seq<AnalysisReport>|
                #[trigger] report_views(reports) == parsed.reports && match r {
                    Ok(res) => is_classification(
                        res,
                        reports,
                        parsed,
                        pages,
                        rulesets,
                        options,
                        table,
                        db,
                    ),
                    Err(e) => exists|i: int|
                        0 <= i < reports.len() && is_sample_outcome(
                            Err(e),
                            #[trigger] reports[i],
                            rulesets,
                            options,
                            table,
                            db,
                        ),
                }
        },
    }
}

/// The warnings for the lines that were skipped and the sections that gave
/// no report.
fn collect_warnings(parsed: &parsing::ParsedReports) -> (r: (Vec<ParseWarning>, Vec<TraceWarning>))
    ensures
        section_warning_views(r.0@) == section_warnings(parsed@),
        trace_warning_views(r.1@) == trace_warnings(parsed@),
{
    let mut warnings: Vec<ParseWarning> = Vec::new();
    let mut recorded: Vec<TraceWarning> = Vec::new();
    let ghost skipped = parsed@.skipped_lines.map_values(|s: SkipView| skipped_line_warning(s));
    let ghost sections = parsed@.warnings.map_values(
        |w: WarningView|
            TraceWarningView {
                sample_id: w.sample_id,
                message: section_message(w),
                severity: TraceSeverity::Important,
                visibility: TraceVisibility::Always,
            },
    );
    let mut i: usize = 0;
    assert(trace_warning_views(recorded@) =~= skipped.take(0));
    while i < parsed.skipped_lines.len()
        invariant
            i <= parsed.skipped_lines.len(),
            skipped == parsed@.skipped_lines.map_values(|s: SkipView| skipped_line_warning(s)),
            trace_warning_views(recorded@) == skipped.take(i as int),
        decreases parsed.skipped_lines.len() - i,
    {
        let skip = &parsed.skipped_lines[i];
        assert(parsed@.skipped_lines[i as int] == skip@);
        let mut message = String::from_str("Skipped line (");
        message.append(skip.reason.as_str());
        message.append("): '");
        message.append(skip.line_text.as_str());
        message.append("'");
        let warning = TraceWarning {
            sample_id: None,
            message,
            severity: TraceSeverity::Info,
            visibility: TraceVisibility::Auto,
        };
        let ghost before = trace_warning_views(recorded@);
        recorded.push(warning);
        assert(trace_warning_views(recorded@) =~= before.push(warning@));
        assert(skipped.take(i + 1) =~= skipped.take(i as int).push(skipped[i as int]));
        i += 1;
    }
    assert(skipped.take(parsed.skipped_lines.len() as int) =~= skipped);
    let mut k: usize = 0;
    assert(section_warning_views(warnings@) =~= section_warnings(parsed@).take(0));
    assert(trace_warning_views(recorded@) =~= skipped + sections.take(0));
    while k < parsed.warnings.len()
        invariant
            k <= parsed.warnings.len(),
            sections == parsed@.warnings.map_values(
                |w: WarningView|
                    TraceWarningView {
                        sample_id: w.sample_id,
                        message: section_message(w),
                        severity: TraceSeverity::Important,
                        visibility: TraceVisibility::Always,
                    },
            ),
            section_warning_views(warnings@) == section_warnings(parsed@).take(k as int),
            trace_warning_views(recorded@) == skipped + sections.take(k as int),
        decreases parsed.warnings.len() - k,
    {
        let w = &parsed.warnings[k];
        assert(parsed@.warnings[k as int] == w@);
        let mut message = match &w.sample_id {
            Some(id) => {
                let mut text = String::from_str("Skipped sample '");
                text.append(id.as_str());
                text.append("' (section ");
                text
            },
            None => String::from_str("Skipped section "),
        };
        message.append(crate::text::number_text(w.section_index).as_str());
        match &w.sample_id {
            Some(_) => {
                message.append("): ");
            },
            None => {
                message.append(": ");
            },
        }
        message.append(w.reason.as_str());
        let recorded_warning = TraceWarning {
            sample_id: w.sample_id.clone(),
            message: message.clone(),
            severity: TraceSeverity::Important,
            visibility: TraceVisibility::Always,
        };
        let warning = ParseWarning { sample_id: w.sample_id.clone(), message };
        let ghost before = trace_warning_views(recorded@);
        let ghost warnings_before = section_warning_views(warnings@);
        recorded.push(recorded_warning);
        warnings.push(warning);
        assert(trace_warning_views(recorded@) =~= before.push(recorded_warning@));
        assert(section_warning_views(warnings@) =~= warnings_before.push(warning@));
        assert(sections.take(k + 1) =~= sections.take(k as int).push(sections[k as int]));
        assert(section_warnings(parsed@).take(k + 1) =~= section_warnings(parsed@).take(
            k as int,
        ).push(section_warnings(parsed@)[k as int]));
        assert(trace_warning_views(recorded@) =~= skipped + sections.take(k + 1));
        k += 1;
    }
    assert(sections.take(parsed.warnings.len() as int) =~= sections);
    assert(section_warnings(parsed@).take(parsed.warnings.len() as int) =~= section_warnings(
        parsed@,
    ));
    (warnings, recorded)
}

/// Appends the entries for the rows of a report.
fn record_entries(
    entries: &mut Vec<trace::TraceEntry>,
    sample_id: &str,
    report: &AnalysisReport,
    pages: &[PageContent],
)
    ensures
        entry_views(final(entries)@) == entry_views(old(entries)@) + report_entries(
            sample_id@,
            *report,
            pages@,
            report.rows.len() as int,
        ),
{
    let ghost start = entry_views(entries@);
    let mut j: usize = 0;
    assert(entry_views(entries@) =~= start + Seq::empty());
    while j < report.rows.len()
        invariant
            j <= report.rows.len(),
            entry_views(entries@) == start + report_entries(sample_id@, *report, pages@, j as int),
        decreases report.rows.len() - j,
    {
        let row = &report.rows[j];
        let entry = trace::build_entry_trace(
            sample_id,
            j,
            row,
            row.unit.to_string().as_str(),
            pages,
        );
        let ghost before = entry_views(entries@);
        entries.push(entry);
        assert(entry_views(entries@) =~= before.push(entry@));
        j += 1;
        assert(entry_views(entries@) =~= start + report_entries(
            sample_id@,
            *report,
            pages@,
            j as int,
        ));
    }
}

/// Appends the decisions of the rulesets of a sample.
fn record_decisions(decisions: &mut Vec<trace::TraceDecision>, sample: &SampleResult)
    ensures
        decision_views(final(decisions)@) == decision_views(old(decisions)@) + sample_decisions(
            *sample,
            sample.ruleset_results.len() as int,
        ),
{
    let ghost start = decision_views(decisions@);
    let mut k: usize = 0;
    assert(decision_views(decisions@) =~= start + sample_decisions(*sample, 0));
    while k < sample.ruleset_results.len()
        invariant
            k <= sample.ruleset_results.len(),
            decision_views(decisions@) == start + sample_decisions(*sample, k as int),
        decreases sample.ruleset_results.len() - k,
    {
        let mut added = trace::build_ruleset_decisions(
            sample.sample_id.as_str(),
            k,
            &sample.ruleset_results[k],
        );
        let ghost before = decision_views(decisions@);
        let ghost added_views = decision_views(added@);
        decisions.append(&mut added);
        assert(decision_views(decisions@) =~= before + added_views);
        assert(decision_views(decisions@) =~= start + sample_decisions(*sample, k + 1));
        k += 1;
    }
}

/// Classifies each report as one sample and records its rows and
/// decisions; the first error ends the work.
fn classify_each(
    reports: &[AnalysisReport],
    pages: &[PageContent],
    rulesets: &[RuleSetDef],
    options: &ClassifyOptions,
    table: &SpeciationTable,
    db: &ClpDatabase,
) -> (r: Result<(Vec<SampleResult>, Vec<trace::TraceEntry>, Vec<trace::TraceDecision>), SondaError>)
    requires
        forall|k: int| 0 <= k < rulesets.len() ==> (#[trigger] rulesets[k]).categories.len() > 0,
        options.include_hp ==> clp::database::is_consistent(*table, *db),
    ensures
        match r {
            Ok((samples, entries, decisions)) => {
                &&& samples.len() == reports.len()
                &&& forall|n: int|
                    0 <= n < reports.len() ==> is_sample_outcome(
                        Ok(#[trigger] samples[n]),
                        reports[n],
                        rulesets@,
                        *options,
                        *table,
                        *db,
                    )
                &&& entry_views(entries@) == entries_upto(
                    samples@,
                    reports@,
                    pages@,
                    reports.len() as int,
                )
                &&& decision_views(decisions@) == decisions_upto(samples@, samples.len() as int)
            },
            Err(e) => exists|i: int|
                0 <= i < reports.len() && is_sample_outcome(
                    Err(e),
                    #[trigger] reports[i],
                    rulesets@,
                    *options,
                    *table,
                    *db,
                ),
        },
{
    let mut samples: Vec<SampleResult> = Vec::new();
    let mut entries: Vec<trace::TraceEntry> = Vec::new();
    let mut decisions: Vec<trace::TraceDecision> = Vec::new();
    let mut i: usize = 0;
    assert(entry_views(entries@) =~= Seq::empty());
    assert(decision_views(decisions@) =~= Seq::empty());
    while i < reports.len()
        invariant
            i <= reports.len(),
            samples.len() == i,
            forall|k: int| 0 <= k < rulesets.len() ==> (#[trigger] rulesets[k]).categories.len() > 0,
            options.include_hp ==> clp::database::is_consistent(*table, *db),
            forall|n: int|
                0 <= n < i ==> is_sample_outcome(
                    Ok(#[trigger] samples[n]),
                    reports[n],
                    rulesets@,
                    *options,
                    *table,
                    *db,
                ),
            entry_views(entries@) == entries_upto(samples@, reports@, pages@, i as int),
            decision_views(decisions@) == decisions_upto(samples@, i as int),
        decreases reports.len() - i,
    {
        let sample = match classify_sample(&reports[i], rulesets, options, table, db) {
            Ok(sample) => sample,
            Err(e) => {
                return Err(e);
            },
        };
        record_entries(&mut entries, sample.sample_id.as_str(), &reports[i], pages);
        record_decisions(&mut decisions, &sample);
        proof {
            let next = samples@.push(sample);
            lemma_entries_of_prefix(samples@, next, reports@, pages@, i as int);
            lemma_decisions_of_prefix(samples@, next, i as int);
        }
        samples.push(sample);
        i += 1;
    }
    Ok((samples, entries, decisions))
}

/// What classifying reports that were read before yields: each report
/// classified as one sample, and the record of all rows and decisions,
/// without evidence from a document and without warnings.
pub open spec fn is_reports_outcome(
    r: Result<ClassificationResult, SondaError>,
    reports: Seq<AnalysisReport>,
    rulesets: Seq<RuleSetDef>,
    options: ClassifyOptions,
    table: SpeciationTable,
    db: ClpDatabase,
) -> bool {
    match r {
        Ok(res) => {
            &&& res.samples.len() == reports.len()
            &&& forall|i: int|
                0 <= i < reports.len() ==> is_sample_outcome(
                    Ok(#[trigger] res.samples[i]),
                    reports[i],
                    rulesets,
                    options,
                    table,
                    db,
                )
            &&& res.warnings@.len() == 0
            &&& res.trace.trace_schema_version@ == trace::schema_version()
            &&& entry_views(res.trace.entries@) == entries_upto(
                res.samples@,
                reports,
                Seq::empty(),
                reports.len() as int,
            )
            &&& decision_views(res.trace.decisions@) == decisions_upto(
                res.samples@,
                res.samples.len() as int,
            )
            &&& res.trace.warnings@.len() == 0
        },
        Err(e) => exists|i: int|
            0 <= i < reports.len() && is_sample_outcome(
                Err(e),
                #[trigger] reports[i],
                rulesets,
                options,
                table,
                db,
            ),
    }
}

/// Classifies reports that were read before, each as one sample and in
/// order, keeping a record of all rows and decisions; the first error ends
/// the work.
pub fn classify_reports(
    reports: &[AnalysisReport],
    rulesets: &[RuleSetDef],
    options: &ClassifyOptions,
    table: &SpeciationTable,
    db: &ClpDatabase,
) -> (r: Result<ClassificationResult, SondaError>)
    requires
        forall|k: int| 0 <= k < rulesets.len() ==> (#[trigger] rulesets[k]).categories.len() > 0,
        options.include_hp ==> clp::database::is_consistent(*table, *db),
    ensures
        is_reports_outcome(r, reports@, rulesets@, *options, *table, *db),
{
    let no_pages: Vec<PageContent> = Vec::new();
    assert(no_pages@ =~= Seq::empty());
    match classify_each(reports, no_pages.as_slice(), rulesets, options, table, db) {
        Ok((samples, entries, decisions)) => Ok(
            ClassificationResult {
                samples,
                warnings: Vec::new(),
                trace: TraceBundle {
                    trace_schema_version: String::from_str("1.0"),
                    entries,
                    decisions,
                    warnings: Vec::new(),
                },
            },
        ),
        Err(e) => Err(e),
    }
}

/// Reads the reports of all samples from the text of a document and
/// classifies each sample, keeping a record of all rows and decisions.
pub fn classify_pages(
    pages: &[PageContent],
    rulesets: &[RuleSetDef],
    options: &ClassifyOptions,
    table: &SpeciationTable,
    db: &ClpDatabase,
) -> (r: Result<ClassificationResult, SondaError>)
    requires
        forall|k: int| 0 <= k < rulesets.len() ==> (#[trigger] rulesets[k]).categories.len() > 0,
        options.include_hp ==> clp::database::is_consistent(*table, *db),
    ensures
        is_document_outcome(r, pages@, rulesets@, *options, *table, *db),
{
    let parsed = match parsing::parse_reports(pages) {
        Ok(parsed) => parsed,
        Err(e) => {
            return Err(e);
        },
    };
    assert(parsed@.reports[0] == parsed.reports@[0]@);
    if parsed.reports[0].header.lab.is_none() {
        return Err(
            SondaError::UnsupportedReport(
                String::from_str(
                    "could not detect laboratory. Look for 'Eurofins' in the report header",
                ),
            ),
        );
    }
    assert(report_views(parsed.reports@) == parsed@.reports);
    let (samples, entries, decisions) = match classify_each(
        &parsed.reports,
        pages,
        rulesets,
        options,
        table,
        db,
    ) {
        Ok(done) => done,
        Err(e) => {
            return Err(e);
        },
    };
    let (warnings, recorded) = collect_warnings(&parsed);
    let result = ClassificationResult {
        samples,
        warnings,
        trace: TraceBundle {
            trace_schema_version: String::from_str("1.0"),
            entries,
            decisions,
            warnings: recorded,
        },
    };
    assert(is_classification(
        result,
        parsed.reports@,
        parsed@,
        pages@,
        rulesets@,
        *options,
        *table,
        *db,
    ));
    Ok(result)
}

/// The entries of the first samples do not depend on the samples that
/// follow.
proof fn lemma_entries_of_prefix(
    a: Seq<SampleResult>,
    b: Seq<SampleResult>,
    all: Seq<AnalysisReport>,
    pages: Seq<PageContent>,
    upto: int,
)
    requires
        0 <= upto <= a.len() <= b.len(),
        forall|n: int| 0 <= n < a.len() ==> a[n] == b[n],
    ensures
        entries_upto(a, all, pages, upto) == entries_upto(b, all, pages, upto),
    decreases upto,
{
    if upto > 0 {
        lemma_entries_of_prefix(a, b, all, pages, upto - 1);
    }
}

/// The decisions of the first samples do not depend on the samples that
/// follow.
proof fn lemma_decisions_of_prefix(a: Seq<SampleResult>, b: Seq<SampleResult>, upto: int)
    requires
        0 <= upto <= a.len() <= b.len(),
        forall|n: int| 0 <= n < a.len() ==> a[n] == b[n],
    ensures
        decisions_upto(a, upto) == decisions_upto(b, upto),
    decreases upto,
{
    if upto > 0 {
        lemma_decisions_of_prefix(a, b, upto - 1);
    }
}

} // verus!
