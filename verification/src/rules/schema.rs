//! Rulesets: ordered categories and, per substance, a threshold for each.

use crate::decimal::Decimal;
use vstd::prelude::*;

verus! {

/// The threshold of one category.
#[derive(Debug, Clone)]
pub struct Threshold {
    pub category: String,
    pub limit: Decimal,
}

/// The description of one category.
#[derive(Debug, Clone)]
pub struct CategoryDescription {
    pub category: String,
    pub text: String,
}

/// The thresholds of one substance.
#[derive(Debug, Clone)]
pub struct SubstanceRuleDef {
    pub substance: String,
    /// Category name and threshold. Where a category occurs more than
    /// once, its first entry counts.
    pub thresholds: Vec<Threshold>,
    /// Where set, the rule applies only to samples of this matrix.
    pub matrix: Option<String>,
    pub unit: Option<String>,
    pub note: Option<String>,
}

/// A ruleset.
#[derive(Debug, Clone)]
pub struct RuleSetDef {
    pub name: String,
    pub description: Option<String>,
    pub version: String,
    /// Where set, the ruleset applies only to samples of this matrix.
    pub matrix: Option<String>,
    /// The categories, from the cleanest to the most contaminated.
    pub categories: Vec<String>,
    pub category_descriptions: Vec<CategoryDescription>,
    pub rules: Vec<SubstanceRuleDef>,
}

/// The threshold that the entries give for a category: that of the first
/// entry with this name.
pub open spec fn threshold_in(entries: Seq<Threshold>, category: Seq<char>) -> Option<Decimal>
    decreases entries.len(),
{
    if entries.len() == 0 {
        None
    } else if entries[0].category@ == category {
        Some(entries[0].limit)
    } else {
        threshold_in(entries.drop_first(), category)
    }
}

impl SubstanceRuleDef {
    /// The threshold of a category, where the rule has one.
    pub open spec fn threshold_of(&self, category: Seq<char>) -> Option<Decimal> {
        threshold_in(self.thresholds@, category)
    }

    /// The threshold of a category, where the rule has one.
    pub fn threshold(&self, category: &str) -> (r: Option<Decimal>)
        ensures
            r == self.threshold_of(category@),
    {
        let mut i: usize = 0;
        assert(self.thresholds@.skip(0) == self.thresholds@);
        while i < self.thresholds.len()
            invariant
                i <= self.thresholds.len(),
                threshold_in(self.thresholds@, category@) == threshold_in(
                    self.thresholds@.skip(i as int),
                    category@,
                ),
            decreases self.thresholds.len() - i,
        {
            proof {
                assert(self.thresholds@.skip(i as int).drop_first() == self.thresholds@.skip(
                    i + 1,
                ));
            }
            if crate::text::same_text(self.thresholds[i].category.as_str(), category) {
                return Some(self.thresholds[i].limit);
            }
            i += 1;
        }
        None
    }
}

} // verus!
