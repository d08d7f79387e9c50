//! Rulesets and their validation.

pub mod builtin;
pub mod explain;
pub mod schema;

use crate::classify::engine::position_of;
use crate::error::SondaError;
use crate::rules::schema::{RuleSetDef, SubstanceRuleDef, Threshold};
use crate::text::lowercased;
use vstd::prelude::*;
use vstd::string::StringExecFns;

verus! {

/// Whether a text names a matrix, in any case of letters.
pub open spec fn names_matrix(s: Seq<char>) -> bool {
    lowercased(s) == "jord"@ || lowercased(s) == "asfalt"@
}

/// The index of the first threshold at or after `from` whose category the
/// ruleset does not have.
pub open spec fn unknown_category(
    thresholds: Seq<Threshold>,
    categories: Seq<String>,
    from: int,
) -> Option<int>
    decreases thresholds.len() - from,
{
    if from < 0 || from >= thresholds.len() {
        None
    } else if position_of(categories, thresholds[from].category@, 0) is None {
        Some(from)
    } else {
        unknown_category(thresholds, categories, from + 1)
    }
}

/// What is wrong with a rule, if anything: in this order, an empty
/// substance name, no thresholds, a threshold for a category that the
/// ruleset does not have, a matrix that is neither soil nor asphalt.
pub open spec fn rule_fault(rule: SubstanceRuleDef, categories: Seq<String>) -> Option<Seq<char>> {
    if rule.substance@.len() == 0 {
        Some("substance name must not be empty"@)
    } else if rule.thresholds@.len() == 0 {
        Some("substance '"@ + rule.substance@ + "' has no thresholds"@)
    } else if unknown_category(rule.thresholds@, categories, 0) is Some {
        Some(
            "substance '"@ + rule.substance@ + "' references unknown category '"@
                + rule.thresholds@[unknown_category(rule.thresholds@, categories, 0)->0].category@
                + "'"@,
        )
    } else if rule.matrix is Some && !names_matrix(rule.matrix->0@) {
        Some(
            "substance '"@ + rule.substance@ + "' has invalid matrix '"@ + rule.matrix->0@
                + "' (expected 'jord' or 'asfalt')"@,
        )
    } else {
        None
    }
}

/// What is wrong with the first faulty rule at or after `from`.
pub open spec fn rules_fault(rules: Seq<SubstanceRuleDef>, categories: Seq<String>, from: int) -> Option<
    Seq<char>,
>
    decreases rules.len() - from,
{
    if from < 0 || from >= rules.len() {
        None
    } else if rule_fault(rules[from], categories) is Some {
        rule_fault(rules[from], categories)
    } else {
        rules_fault(rules, categories, from + 1)
    }
}

/// What is wrong with a ruleset, if anything: in this order, a matrix
/// that is neither soil nor asphalt, no categories, no rules, the fault of
/// the first faulty rule.
pub open spec fn ruleset_fault(ruleset: RuleSetDef) -> Option<Seq<char>> {
    if ruleset.matrix is Some && !names_matrix(ruleset.matrix->0@) {
        Some(
            "invalid top-level matrix '"@ + ruleset.matrix->0@
                + "' (expected 'jord' or 'asfalt')"@,
        )
    } else if ruleset.categories@.len() == 0 {
        Some("categories must not be empty"@)
    } else if ruleset.rules@.len() == 0 {
        Some("rules must not be empty"@)
    } else {
        rules_fault(ruleset.rules@, ruleset.categories@, 0)
    }
}

/// Whether a text names a matrix.
fn is_matrix_name(s: &str) -> (r: bool)
    ensures
        r == names_matrix(s@),
{
    let lower = crate::text::lowercase(s);
    crate::text::same_text(lower.as_str(), "jord") || crate::text::same_text(
        lower.as_str(),
        "asfalt",
    )
}

/// Whether the ruleset has a category.
fn has_category(categories: &[String], name: &str) -> (r: bool)
    ensures
        r == (position_of(categories@, name@, 0) is Some),
{
    let mut i: usize = 0;
    while i < categories.len()
        invariant
            i <= categories.len(),
            position_of(categories@, name@, 0) == position_of(categories@, name@, i as int),
        decreases categories.len() - i,
    {
        if crate::text::same_text(categories[i].as_str(), name) {
            return true;
        }
        i += 1;
    }
    false
}

/// What is wrong with a rule, if anything.
fn check_rule(rule: &SubstanceRuleDef, categories: &[String]) -> (r: Option<String>)
    ensures
        crate::model::option_text(r) == rule_fault(*rule, categories@),
{
    if rule.substance.as_str().unicode_len() == 0 {
        return Some(String::from_str("substance name must not be empty"));
    }
    if rule.thresholds.len() == 0 {
        let mut message = String::from_str("substance '");
        message.append(rule.substance.as_str());
        message.append("' has no thresholds");
        return Some(message);
    }
    let mut k: usize = 0;
    while k < rule.thresholds.len()
        invariant
            k <= rule.thresholds.len(),
            rule.substance@.len() > 0,
            unknown_category(rule.thresholds@, categories@, 0) == unknown_category(
                rule.thresholds@,
                categories@,
                k as int,
            ),
        decreases rule.thresholds.len() - k,
    {
        if !has_category(categories, rule.thresholds[k].category.as_str()) {
            let mut message = String::from_str("substance '");
            message.append(rule.substance.as_str());
            message.append("' references unknown category '");
            message.append(rule.thresholds[k].category.as_str());
            message.append("'");
            return Some(message);
        }
        k += 1;
    }
    match &rule.matrix {
        Some(matrix) => {
            if !is_matrix_name(matrix.as_str()) {
                let mut message = String::from_str("substance '");
                message.append(rule.substance.as_str());
                message.append("' has invalid matrix '");
                message.append(matrix.as_str());
                message.append("' (expected 'jord' or 'asfalt')");
                return Some(message);
            }
        },
        None => {},
    }
    None
}

/// Checks that a ruleset is well-formed: its matrix, if it has one, is
/// soil or asphalt; it has categories and rules; and each rule has a
/// substance, thresholds only for categories of the ruleset, and a matrix
/// that is soil or asphalt, if it has one. The error tells the first
/// fault.
pub fn validate_ruleset(ruleset: &RuleSetDef) -> (r: Result<(), SondaError>)
    ensures
        match ruleset_fault(*ruleset) {
            Some(fault) => r matches Err(SondaError::RulesetInvalid(m)) && m@ == fault,
            None => r is Ok,
        },
{
    match &ruleset.matrix {
        Some(matrix) => {
            if !is_matrix_name(matrix.as_str()) {
                let mut message = String::from_str("invalid top-level matrix '");
                message.append(matrix.as_str());
                message.append("' (expected 'jord' or 'asfalt')");
                return Err(SondaError::RulesetInvalid(message));
            }
        },
        None => {},
    }
    if ruleset.categories.len() == 0 {
        return Err(SondaError::RulesetInvalid(String::from_str("categories must not be empty")));
    }
    if ruleset.rules.len() == 0 {
        return Err(SondaError::RulesetInvalid(String::from_str("rules must not be empty")));
    }
    let mut i: usize = 0;
    while i < ruleset.rules.len()
        invariant
            i <= ruleset.rules.len(),
            ruleset.matrix is Some ==> names_matrix(ruleset.matrix->0@),
            ruleset.categories@.len() > 0,
            rules_fault(ruleset.rules@, ruleset.categories@, 0) == rules_fault(
                ruleset.rules@,
                ruleset.categories@,
                i as int,
            ),
        decreases ruleset.rules.len() - i,
    {
        match check_rule(&ruleset.rules[i], &ruleset.categories) {
            Some(message) => {
                return Err(SondaError::RulesetInvalid(message));
            },
            None => {},
        }
        i += 1;
    }
    Ok(())
}

/// A ruleset without a fault has categories, as classifying under it asks.
pub proof fn lemma_valid_ruleset_has_categories(ruleset: RuleSetDef)
    requires
        ruleset_fault(ruleset) is None,
    ensures
        ruleset.categories@.len() > 0,
{
}

} // verus!
