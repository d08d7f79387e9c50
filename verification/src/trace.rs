//! A record of how each value was read and each decision was taken.

use crate::classify::outcome::{RuleSetResult, SubstanceResult};
use crate::decimal::{Decimal, Parts};
use crate::extraction::PageContent;
use crate::model::{option_text, AnalysisRow, AnalysisValue};
use crate::text::{contains_text, decimal_digits, joined, lowercased, texts};
use vstd::prelude::*;
use vstd::string::StringExecFns;

verus! {

/// How much a record matters.
#[derive(Debug, Clone, Copy, PartialEq, Eq)]
pub enum TraceSeverity {
    Critical,
    Important,
    Info,
}

/// When a record is shown.
#[derive(Debug, Clone, Copy, PartialEq, Eq)]
pub enum TraceVisibility {
    Always,
    Auto,
    OnDemand,
}

/// What a step did.
#[derive(Debug, Clone, Copy, PartialEq, Eq)]
pub enum TraceStepType {
    ParseValue,
    NormalizeSubstance,
    ThresholdCompare,
    OverallDecision,
    HpCriterion,
}

/// One step on the way to a value or a decision.
#[derive(Debug, Clone)]
pub struct TraceStep {
    pub step_type: TraceStepType,
    pub message: String,
}

/// A step by its contents.
pub struct StepView {
    pub step_type: TraceStepType,
    pub message: Seq<char>,
}

impl View for TraceStep {
    type V = StepView;

    open spec fn view(&self) -> StepView {
        StepView { step_type: self.step_type, message: self.message@ }
    }
}

/// The contents of each step.
pub open spec fn step_views(v: Seq<TraceStep>) -> Seq<StepView> {
    v.map_values(|s: TraceStep| s@)
}

/// Whether a value is a measurement or a detection limit.
#[derive(Debug, Clone, Copy, PartialEq, Eq)]
pub enum TraceValueKind {
    Measured,
    BelowDetection,
}

/// A line of the document that shows a row, with the corners of its box
/// as they are written.
#[derive(Debug, Clone)]
pub struct EvidenceSpan {
    pub page_number: usize,
    pub line_index: usize,
    pub matched_text: String,
    pub x_min: String,
    pub y_min: String,
    pub x_max: String,
    pub y_max: String,
}

/// A line of evidence by its contents.
pub struct EvidenceView {
    pub page_number: usize,
    pub line_index: usize,
    pub matched_text: Seq<char>,
    pub x_min: Seq<char>,
    pub y_min: Seq<char>,
    pub x_max: Seq<char>,
    pub y_max: Seq<char>,
}

impl View for EvidenceSpan {
    type V = EvidenceView;

    open spec fn view(&self) -> EvidenceView {
        EvidenceView {
            page_number: self.page_number,
            line_index: self.line_index,
            matched_text: self.matched_text@,
            x_min: self.x_min@,
            y_min: self.y_min@,
            x_max: self.x_max@,
            y_max: self.y_max@,
        }
    }
}

/// The contents of each line of evidence.
pub open spec fn evidence_views(v: Seq<EvidenceSpan>) -> Seq<EvidenceView> {
    v.map_values(|s: EvidenceSpan| s@)
}

/// How one row was read.
#[derive(Debug, Clone)]
pub struct TraceEntry {
    pub entry_id: String,
    pub sample_id: String,
    pub raw_name: String,
    pub normalized_name: String,
    pub raw_value: String,
    pub value_kind: TraceValueKind,
    pub numeric_value: Decimal,
    pub unit: String,
    pub evidence_spans: Vec<EvidenceSpan>,
    pub steps: Vec<TraceStep>,
}

/// An entry by its contents.
pub struct EntryView {
    pub entry_id: Seq<char>,
    pub sample_id: Seq<char>,
    pub raw_name: Seq<char>,
    pub normalized_name: Seq<char>,
    pub raw_value: Seq<char>,
    pub value_kind: TraceValueKind,
    pub numeric_value: Parts,
    pub unit: Seq<char>,
    pub evidence_spans: Seq<EvidenceView>,
    pub steps: Seq<StepView>,
}

impl View for TraceEntry {
    type V = EntryView;

    open spec fn view(&self) -> EntryView {
        EntryView {
            entry_id: self.entry_id@,
            sample_id: self.sample_id@,
            raw_name: self.raw_name@,
            normalized_name: self.normalized_name@,
            raw_value: self.raw_value@,
            value_kind: self.value_kind,
            numeric_value: self.numeric_value@,
            unit: self.unit@,
            evidence_spans: evidence_views(self.evidence_spans@),
            steps: step_views(self.steps@),
        }
    }
}

/// What a decision is about.
#[derive(Debug, Clone, Copy, PartialEq, Eq)]
pub enum TraceDecisionTarget {
    Substance,
    RulesetOverall,
    HpCriterion,
}

/// One decision of a classifier.
#[derive(Debug, Clone)]
pub struct TraceDecision {
    pub decision_id: String,
    pub sample_id: String,
    pub ruleset_name: String,
    pub target: TraceDecisionTarget,
    pub substance: Option<String>,
    pub category: String,
    pub reason: String,
    pub severity: TraceSeverity,
    pub visibility: TraceVisibility,
    pub steps: Vec<TraceStep>,
}

/// A decision by its contents.
pub struct DecisionView {
    pub decision_id: Seq<char>,
    pub sample_id: Seq<char>,
    pub ruleset_name: Seq<char>,
    pub target: TraceDecisionTarget,
    pub substance: Option<Seq<char>>,
    pub category: Seq<char>,
    pub reason: Seq<char>,
    pub severity: TraceSeverity,
    pub visibility: TraceVisibility,
    pub steps: Seq<StepView>,
}

impl View for TraceDecision {
    type V = DecisionView;

    open spec fn view(&self) -> DecisionView {
        DecisionView {
            decision_id: self.decision_id@,
            sample_id: self.sample_id@,
            ruleset_name: self.ruleset_name@,
            target: self.target,
            substance: option_text(self.substance),
            category: self.category@,
            reason: self.reason@,
            severity: self.severity,
            visibility: self.visibility,
            steps: step_views(self.steps@),
        }
    }
}

/// The contents of each decision.
pub open spec fn decision_views(v: Seq<TraceDecision>) -> Seq<DecisionView> {
    v.map_values(|d: TraceDecision| d@)
}

/// Something that was left out.
#[derive(Debug, Clone)]
pub struct TraceWarning {
    pub sample_id: Option<String>,
    pub message: String,
    pub severity: TraceSeverity,
    pub visibility: TraceVisibility,
}

/// A warning by its contents.
pub struct TraceWarningView {
    pub sample_id: Option<Seq<char>>,
    pub message: Seq<char>,
    pub severity: TraceSeverity,
    pub visibility: TraceVisibility,
}

impl View for TraceWarning {
    type V = TraceWarningView;

    open spec fn view(&self) -> TraceWarningView {
        TraceWarningView {
            sample_id: option_text(self.sample_id),
            message: self.message@,
            severity: self.severity,
            visibility: self.visibility,
        }
    }
}

/// The contents of each warning.
pub open spec fn trace_warning_views(v: Seq<TraceWarning>) -> Seq<TraceWarningView> {
    v.map_values(|w: TraceWarning| w@)
}

/// The contents of each entry.
pub open spec fn entry_views(v: Seq<TraceEntry>) -> Seq<EntryView> {
    v.map_values(|e: TraceEntry| e@)
}

/// The whole record of one run.
#[derive(Debug, Clone)]
pub struct TraceBundle {
    pub trace_schema_version: String,
    pub entries: Vec<TraceEntry>,
    pub decisions: Vec<TraceDecision>,
    pub warnings: Vec<TraceWarning>,
}

/// The version of the layout of the record.
pub open spec fn schema_version() -> Seq<char> {
    "1.0"@
}

impl Default for TraceBundle {
    fn default() -> (r: TraceBundle)
        ensures
            r.trace_schema_version@ == schema_version(),
            r.entries@.len() == 0,
            r.decisions@.len() == 0,
            r.warnings@.len() == 0,
    {
        TraceBundle {
            trace_schema_version: String::from_str("1.0"),
            entries: Vec::new(),
            decisions: Vec::new(),
            warnings: Vec::new(),
        }
    }
}

/// Whether a line shows a row: it holds the raw name, in any case of
/// letters, or the value as it is written.
pub open spec fn shows_row(line: Seq<char>, row: AnalysisRow) -> bool {
    contains_text(lowercased(line), lowercased(row.raw_name@)) || contains_text(
        line,
        row.value.text(),
    )
}

/// The lines that show a row among those of the first `pages` pages and
/// the first `spans` lines of the next page.
pub open spec fn row_spans(all: Seq<PageContent>, row: AnalysisRow, pages: int, spans: int) -> Seq<
    EvidenceView,
>
    decreases pages, spans,
{
    if pages < 0 || spans < 0 || pages > all.len() {
        Seq::empty()
    } else if spans > 0 {
        let before = row_spans(all, row, pages, spans - 1);
        if pages >= all.len() || spans > all[pages].line_spans.len() {
            before
        } else {
            let span = all[pages].line_spans[spans - 1];
            if shows_row(span.text@, row) {
                before.push(
                    EvidenceView {
                        page_number: span.page_number,
                        line_index: span.line_index,
                        matched_text: span.text@,
                        x_min: span.bbox.x_min@,
                        y_min: span.bbox.y_min@,
                        x_max: span.bbox.x_max@,
                        y_max: span.bbox.y_max@,
                    },
                )
            } else {
                before
            }
        }
    } else if pages > 0 {
        row_spans(all, row, pages - 1, all[pages - 1].line_spans.len() as int)
    } else {
        Seq::empty()
    }
}

/// The lines of the document that show a row.
pub fn find_row_spans(pages: &[PageContent], row: &AnalysisRow) -> (r: Vec<EvidenceSpan>)
    ensures
        evidence_views(r@) == row_spans(pages@, *row, pages.len() as int, 0),
{
    let mut spans: Vec<EvidenceSpan> = Vec::new();
    let value_text = row.value.to_string();
    let name_lower = crate::text::lowercase(row.raw_name.as_str());
    let mut p: usize = 0;
    assert(evidence_views(spans@) =~= Seq::empty());
    while p < pages.len()
        invariant
            p <= pages.len(),
            value_text@ == row.value.text(),
            name_lower@ == lowercased(row.raw_name@),
            evidence_views(spans@) == row_spans(pages@, *row, p as int, 0),
        decreases pages.len() - p,
    {
        let page = &pages[p];
        let mut i: usize = 0;
        while i < page.line_spans.len()
            invariant
                p < pages.len(),
                *page == pages@[p as int],
                i <= page.line_spans.len(),
                value_text@ == row.value.text(),
                name_lower@ == lowercased(row.raw_name@),
                evidence_views(spans@) == row_spans(pages@, *row, p as int, i as int),
            decreases page.line_spans.len() - i,
        {
            let span = &page.line_spans[i];
            let line_lower = crate::text::lowercase(span.text.as_str());
            if crate::text::contains(line_lower.as_str(), name_lower.as_str())
                || crate::text::contains(span.text.as_str(), value_text.as_str()) {
                let found = EvidenceSpan {
                    page_number: span.page_number,
                    line_index: span.line_index,
                    matched_text: span.text.clone(),
                    x_min: span.bbox.x_min.clone(),
                    y_min: span.bbox.y_min.clone(),
                    x_max: span.bbox.x_max.clone(),
                    y_max: span.bbox.y_max.clone(),
                };
                let ghost before = evidence_views(spans@);
                spans.push(found);
                assert(evidence_views(spans@) =~= before.push(found@));
            }
            i += 1;
        }
        p += 1;
    }
    spans
}

/// The number that a value holds.
pub open spec fn number_in(value: AnalysisValue) -> Parts {
    match value {
        AnalysisValue::Measured(v) => v@,
        AnalysisValue::BelowDetection(v) => v@,
    }
}

/// How a row was read.
pub open spec fn entry_for(
    sample_id: Seq<char>,
    index: nat,
    row: AnalysisRow,
    unit: Seq<char>,
    pages: Seq<PageContent>,
) -> EntryView {
    EntryView {
        entry_id: "ent_"@ + sample_id + "_"@ + decimal_digits(index),
        sample_id,
        raw_name: row.raw_name@,
        normalized_name: row.normalized_name@,
        raw_value: row.value.text(),
        value_kind: if row.value is Measured {
            TraceValueKind::Measured
        } else {
            TraceValueKind::BelowDetection
        },
        numeric_value: number_in(row.value),
        unit,
        evidence_spans: row_spans(pages, row, pages.len() as int, 0),
        steps: seq![
            StepView {
                step_type: TraceStepType::NormalizeSubstance,
                message: "Normalized '"@ + row.raw_name@ + "' -> '"@ + row.normalized_name@
                    + "'"@,
            },
            StepView {
                step_type: TraceStepType::ParseValue,
                message: "Parsed value '"@ + row.value.text() + "' as "@ + number_in(
                    row.value,
                ).text(),
            },
        ],
    }
}

/// Records how a row was read.
pub fn build_entry_trace(
    sample_id: &str,
    entry_idx: usize,
    row: &AnalysisRow,
    unit: &str,
    pages: &[PageContent],
) -> (r: TraceEntry)
    ensures
        r@ == entry_for(sample_id@, entry_idx as nat, *row, unit@, pages@),
{
    let (value_kind, numeric_value) = match row.value {
        AnalysisValue::Measured(v) => (TraceValueKind::Measured, v),
        AnalysisValue::BelowDetection(v) => (TraceValueKind::BelowDetection, v),
    };
    let mut entry_id = String::from_str("ent_");
    entry_id.append(sample_id);
    entry_id.append("_");
    entry_id.append(crate::text::number_text(entry_idx).as_str());
    let mut normalized = String::from_str("Normalized '");
    normalized.append(row.raw_name.as_str());
    normalized.append("' -> '");
    normalized.append(row.normalized_name.as_str());
    normalized.append("'");
    let mut parsed = String::from_str("Parsed value '");
    parsed.append(row.value.to_string().as_str());
    parsed.append("' as ");
    parsed.append(numeric_value.to_text().as_str());
    let mut steps: Vec<TraceStep> = Vec::new();
    steps.push(TraceStep { step_type: TraceStepType::NormalizeSubstance, message: normalized });
    steps.push(TraceStep { step_type: TraceStepType::ParseValue, message: parsed });
    assert(step_views(steps@) =~= seq![steps@[0]@, steps@[1]@]);
    TraceEntry {
        entry_id,
        sample_id: String::from_str(sample_id),
        raw_name: row.raw_name.clone(),
        normalized_name: row.normalized_name.clone(),
        raw_value: row.value.to_string(),
        value_kind,
        numeric_value,
        unit: String::from_str(unit),
        evidence_spans: find_row_spans(pages, row),
        steps,
    }
}

/// The decision on the overall category of a ruleset.
pub open spec fn overall_decision(sample_id: Seq<char>, index: nat, rs: RuleSetResult) -> DecisionView {
    DecisionView {
        decision_id: "dec_"@ + sample_id + "_"@ + decimal_digits(index) + "_overall"@,
        sample_id,
        ruleset_name: rs.ruleset_name@,
        target: TraceDecisionTarget::RulesetOverall,
        substance: None,
        category: rs.overall_category@,
        reason: rs.overall_reason@,
        severity: TraceSeverity::Important,
        visibility: TraceVisibility::Always,
        steps: seq![
            StepView {
                step_type: TraceStepType::OverallDecision,
                message: "Overall category '"@ + rs.overall_category@ + "' determined by: "@ + (
                if rs.determining_substances@.len() == 0 {
                    "none"@
                } else {
                    joined(texts(rs.determining_substances@), ", "@)
                }),
            },
        ],
    }
}

/// The decision on one substance under a ruleset.
pub open spec fn substance_decision(
    sample_id: Seq<char>,
    index: nat,
    rs: RuleSetResult,
    position: nat,
    sr: SubstanceResult,
) -> DecisionView {
    DecisionView {
        decision_id: "dec_"@ + sample_id + "_"@ + decimal_digits(index) + "_sub_"@
            + decimal_digits(position),
        sample_id,
        ruleset_name: rs.ruleset_name@,
        target: TraceDecisionTarget::Substance,
        substance: Some(sr.substance@),
        category: sr.category@,
        reason: sr.reason@,
        severity: if sr.uncertain {
            TraceSeverity::Important
        } else {
            TraceSeverity::Info
        },
        visibility: TraceVisibility::Auto,
        steps: seq![
            StepView {
                step_type: if rs.hp_details is Some {
                    TraceStepType::HpCriterion
                } else {
                    TraceStepType::ThresholdCompare
                },
                message: sr.reason@,
            },
        ],
    }
}

/// The decisions of a ruleset: the overall one, then one for each of the
/// first `upto` substances.
pub open spec fn ruleset_decisions(sample_id: Seq<char>, index: nat, rs: RuleSetResult, upto: int) -> Seq<
    DecisionView,
>
    decreases upto,
{
    if upto <= 0 || upto > rs.substance_results@.len() {
        seq![overall_decision(sample_id, index, rs)]
    } else {
        ruleset_decisions(sample_id, index, rs, upto - 1).push(
            substance_decision(
                sample_id,
                index,
                rs,
                (upto - 1) as nat,
                rs.substance_results@[upto - 1],
            ),
        )
    }
}

fn one_step(step_type: TraceStepType, message: String) -> (steps: Vec<TraceStep>)
    ensures
        step_views(steps@) == seq![StepView { step_type, message: message@ }],
{
    let mut steps: Vec<TraceStep> = Vec::new();
    steps.push(TraceStep { step_type, message });
    assert(step_views(steps@) =~= seq![steps@[0]@]);
    steps
}

/// Records the decisions that a ruleset led to: the overall category, and
/// the category of each substance.
pub fn build_ruleset_decisions(sample_id: &str, ruleset_idx: usize, rs: &RuleSetResult) -> (r: Vec<
    TraceDecision,
>)
    ensures
        decision_views(r@) == ruleset_decisions(
            sample_id@,
            ruleset_idx as nat,
            *rs,
            rs.substance_results.len() as int,
        ),
{
    let mut decisions: Vec<TraceDecision> = Vec::new();
    let mut prefix = String::from_str("dec_");
    prefix.append(sample_id);
    prefix.append("_");
    prefix.append(crate::text::number_text(ruleset_idx).as_str());
    let mut overall_id = prefix.clone();
    overall_id.append("_overall");
    let mut message = String::from_str("Overall category '");
    message.append(rs.overall_category.as_str());
    message.append("' determined by: ");
    if rs.determining_substances.len() == 0 {
        message.append("none");
    } else {
        message.append(crate::text::join(&rs.determining_substances, ", ").as_str());
    }
    let overall = TraceDecision {
        decision_id: overall_id,
        sample_id: String::from_str(sample_id),
        ruleset_name: rs.ruleset_name.clone(),
        target: TraceDecisionTarget::RulesetOverall,
        substance: None,
        category: rs.overall_category.clone(),
        reason: rs.overall_reason.clone(),
        severity: TraceSeverity::Important,
        visibility: TraceVisibility::Always,
        steps: one_step(TraceStepType::OverallDecision, message),
    };
    decisions.push(overall);
    assert(decision_views(decisions@) =~= seq![overall@]);
    let mut k: usize = 0;
    while k < rs.substance_results.len()
        invariant
            k <= rs.substance_results.len(),
            prefix@ == "dec_"@ + sample_id@ + "_"@ + decimal_digits(ruleset_idx as nat),
            decision_views(decisions@) == ruleset_decisions(
                sample_id@,
                ruleset_idx as nat,
                *rs,
                k as int,
            ),
        decreases rs.substance_results.len() - k,
    {
        let sr = &rs.substance_results[k];
        let mut decision_id = prefix.clone();
        decision_id.append("_sub_");
        decision_id.append(crate::text::number_text(k).as_str());
        let decision = TraceDecision {
            decision_id,
            sample_id: String::from_str(sample_id),
            ruleset_name: rs.ruleset_name.clone(),
            target: TraceDecisionTarget::Substance,
            substance: Some(sr.substance.clone()),
            category: sr.category.clone(),
            reason: sr.reason.clone(),
            severity: if sr.uncertain {
                TraceSeverity::Important
            } else {
                TraceSeverity::Info
            },
            visibility: TraceVisibility::Auto,
            steps: one_step(
                if rs.hp_details.is_some() {
                    TraceStepType::HpCriterion
                } else {
                    TraceStepType::ThresholdCompare
                },
                sr.reason.clone(),
            ),
        };
        let ghost before = decision_views(decisions@);
        decisions.push(decision);
        assert(decision_views(decisions@) =~= before.push(decision@));
        k += 1;
    }
    decisions
}

} // verus!
