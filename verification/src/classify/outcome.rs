//! What the classifiers report.

use crate::decimal::{Decimal, Parts};
use crate::model::AnalysisValue;
use vstd::prelude::*;

verus! {

/// What one substance contributes to a hazard criterion.
#[derive(Debug, Clone)]
pub struct HpSubstanceContribution {
    /// Normalized substance name from the report.
    pub substance: String,
    /// Name of the compound that stands for the substance.
    pub compound: String,
    /// The hazard code that the contribution is counted under.
    pub h_code: String,
    /// Concentration in percent by weight, weighted where the criterion weights it.
    pub concentration_pct: Decimal,
    /// The limit in percent by weight that the criterion compares with.
    pub threshold_pct: Option<Decimal>,
    /// Whether this contribution triggered the criterion.
    pub triggers: bool,
}

/// A contribution by its contents.
pub struct ContributionView {
    pub substance: Seq<char>,
    pub compound: Seq<char>,
    pub h_code: Seq<char>,
    pub concentration_pct: Parts,
    pub threshold_pct: Option<Parts>,
    pub triggers: bool,
}

impl View for HpSubstanceContribution {
    type V = ContributionView;

    open spec fn view(&self) -> ContributionView {
        ContributionView {
            substance: self.substance@,
            compound: self.compound@,
            h_code: self.h_code@,
            concentration_pct: self.concentration_pct@,
            threshold_pct: crate::decimal::view_of(self.threshold_pct),
            triggers: self.triggers,
        }
    }
}

/// The contents of each contribution.
pub open spec fn contribution_views(v: Seq<HpSubstanceContribution>) -> Seq<ContributionView> {
    v.map_values(|c: HpSubstanceContribution| c@)
}

/// The evaluation of a criterion by its contents.
pub struct CriterionView {
    pub hp_id: Seq<char>,
    pub hp_name: Seq<char>,
    pub triggered: bool,
    pub reason: Seq<char>,
    pub contributions: Seq<ContributionView>,
}

impl View for HpCriterionDetail {
    type V = CriterionView;

    open spec fn view(&self) -> CriterionView {
        CriterionView {
            hp_id: self.hp_id@,
            hp_name: self.hp_name@,
            triggered: self.triggered,
            reason: self.reason@,
            contributions: contribution_views(self.contributions@),
        }
    }
}

/// The contents of each evaluation.
pub open spec fn criterion_views(v: Seq<HpCriterionDetail>) -> Seq<CriterionView> {
    v.map_values(|c: HpCriterionDetail| c@)
}

/// The evaluation of one hazard criterion.
#[derive(Debug, Clone)]
pub struct HpCriterionDetail {
    pub hp_id: String,
    pub hp_name: String,
    pub triggered: bool,
    pub reason: String,
    pub contributions: Vec<HpSubstanceContribution>,
}

/// The evaluation of all hazard criteria.
#[derive(Debug, Clone)]
pub struct HpDetails {
    pub is_hazardous: bool,
    pub criteria_results: Vec<HpCriterionDetail>,
}

/// The evaluation of all criteria by its contents.
pub struct HpDetailsView {
    pub is_hazardous: bool,
    pub criteria_results: Seq<CriterionView>,
}

impl View for HpDetails {
    type V = HpDetailsView;

    open spec fn view(&self) -> HpDetailsView {
        HpDetailsView {
            is_hazardous: self.is_hazardous,
            criteria_results: criterion_views(self.criteria_results@),
        }
    }
}

/// How one substance was classified under one ruleset.
#[derive(Debug, Clone)]
pub struct SubstanceResult {
    /// Normalized substance name.
    pub substance: String,
    /// Name as it stood in the report.
    pub raw_name: String,
    pub value: AnalysisValue,
    pub unit: String,
    /// The assigned category, or `> ` and the last category where every
    /// threshold is exceeded.
    pub category: String,
    pub reason: String,
    /// The last threshold that the value went beyond, if any.
    pub exceeded_threshold: Option<Decimal>,
    /// Whether a detection limit left the category open.
    pub uncertain: bool,
}

/// How one sample was classified under one ruleset.
#[derive(Debug, Clone)]
pub struct RuleSetResult {
    pub ruleset_name: String,
    /// The worst category over all substances.
    pub overall_category: String,
    pub overall_reason: String,
    /// The cleanest category of the ruleset, where it has categories.
    pub lowest_category: Option<String>,
    /// Raw names of the substances at the worst category.
    pub determining_substances: Vec<String>,
    pub substance_results: Vec<SubstanceResult>,
    /// Substances of the report that no rule matched, sorted.
    pub unmatched_substances: Vec<String>,
    /// Substances of the ruleset that no row matched, sorted.
    pub unmatched_rules: Vec<String>,
    /// Present only for the hazard evaluation.
    pub hp_details: Option<HpDetails>,
}

/// A section of the input that was left out, and why.
#[derive(Debug, Clone)]
pub struct ParseWarning {
    pub sample_id: Option<String>,
    pub message: String,
}

/// A warning by its contents.
pub struct SkippedSectionView {
    pub sample_id: Option<Seq<char>>,
    pub message: Seq<char>,
}

impl View for ParseWarning {
    type V = SkippedSectionView;

    open spec fn view(&self) -> SkippedSectionView {
        SkippedSectionView {
            sample_id: crate::model::option_text(self.sample_id),
            message: self.message@,
        }
    }
}

/// The contents of each warning.
pub open spec fn section_warning_views(v: Seq<ParseWarning>) -> Seq<SkippedSectionView> {
    v.map_values(|w: ParseWarning| w@)
}

/// All results for one sample.
#[derive(Debug, Clone)]
pub struct SampleResult {
    pub sample_id: String,
    pub ruleset_results: Vec<RuleSetResult>,
}

/// The results for all samples of a document, with the record of how they
/// came about.
#[derive(Debug, Clone)]
pub struct ClassificationResult {
    pub samples: Vec<SampleResult>,
    pub warnings: Vec<ParseWarning>,
    pub trace: crate::trace::TraceBundle,
}

} // verus!
