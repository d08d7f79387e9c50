//! The threshold classifier: each row of a report is compared with the
//! thresholds that a ruleset gives for its substance.

use crate::classify::outcome::{RuleSetResult, SubstanceResult};
use crate::decimal::{Decimal, Parts};
use crate::model::{matrix_applies, matrix_filter_applies, AnalysisReport, AnalysisRow, AnalysisValue, Matrix};
use crate::rules::schema::{RuleSetDef, SubstanceRuleDef};
use crate::text::{decimal_digits, has_prefix, joined, lists, strictly_sorted, texts};
use vstd::prelude::*;
use vstd::string::StringExecFns;

verus! {

/// Whether the category at index `i` admits a value: the rule has a
/// threshold for it, and the value is at most the threshold, or, where
/// `strict` is set, below it.
pub open spec fn admits(
    rule: SubstanceRuleDef,
    categories: Seq<String>,
    value: Parts,
    strict: bool,
    i: int,
) -> bool {
    match rule.threshold_of(categories[i]@) {
        Some(t) => if strict {
            value.lt(t@)
        } else {
            value.le(t@)
        },
        None => false,
    }
}

/// The index of the first category at or after `from` that admits the
/// value, or the number of categories where none does.
pub open spec fn first_admitting(
    rule: SubstanceRuleDef,
    categories: Seq<String>,
    value: Parts,
    strict: bool,
    from: int,
) -> int
    decreases categories.len() - from,
{
    if from >= categories.len() {
        categories.len() as int
    } else if admits(rule, categories, value, strict, from) {
        from
    } else {
        first_admitting(rule, categories, value, strict, from + 1)
    }
}

/// The rank that a measured value gets: the index of the first category
/// whose threshold it does not exceed, or the number of categories, which
/// stands for the synthetic category beyond them all.
pub open spec fn measured_rank(rule: SubstanceRuleDef, categories: Seq<String>, value: Parts) -> int {
    first_admitting(rule, categories, value, false, 0)
}

/// Whether a detection limit lies below some threshold.
pub open spec fn limit_is_confirmed(
    rule: SubstanceRuleDef,
    categories: Seq<String>,
    limit: Parts,
) -> bool {
    first_admitting(rule, categories, limit, true, 0) < categories.len()
}

/// The rank that a detection limit gets: the index of the first category
/// whose threshold lies above it, or the last category where none does.
pub open spec fn below_detection_rank(
    rule: SubstanceRuleDef,
    categories: Seq<String>,
    limit: Parts,
) -> int {
    if limit_is_confirmed(rule, categories, limit) {
        first_admitting(rule, categories, limit, true, 0)
    } else {
        categories.len() - 1
    }
}

/// The name of the last category; empty where there is none.
pub open spec fn last_name(categories: Seq<String>) -> Seq<char> {
    if categories.len() == 0 {
        Seq::empty()
    } else {
        categories.last()@
    }
}

/// The name of the synthetic category that lies beyond every category.
pub open spec fn exceeds_name(categories: Seq<String>) -> Seq<char> {
    "> "@ + last_name(categories)
}

/// The name of the category at a rank.
pub open spec fn category_at(categories: Seq<String>, rank: int) -> Seq<char> {
    if 0 <= rank < categories.len() {
        categories[rank]@
    } else if rank >= categories.len() {
        exceeds_name(categories)
    } else {
        Seq::empty()
    }
}

/// The threshold of the last category before index `upto` that has one.
pub open spec fn last_threshold_before(
    rule: SubstanceRuleDef,
    categories: Seq<String>,
    upto: int,
) -> Option<Decimal>
    decreases upto,
{
    if upto <= 0 || upto > categories.len() {
        None
    } else {
        match rule.threshold_of(categories[upto - 1]@) {
            Some(t) => Some(t),
            None => last_threshold_before(rule, categories, upto - 1),
        }
    }
}

/// For each category before `upto` that has a threshold, in order: the
/// text `prefix`, the category, a colon and the threshold.
pub open spec fn threshold_parts(
    rule: SubstanceRuleDef,
    categories: Seq<String>,
    prefix: Seq<char>,
    upto: int,
) -> Seq<Seq<char>>
    decreases upto,
{
    if upto <= 0 || upto > categories.len() {
        Seq::empty()
    } else {
        let before = threshold_parts(rule, categories, prefix, upto - 1);
        match rule.threshold_of(categories[upto - 1]@) {
            Some(t) => before.push(prefix + categories[upto - 1]@ + ":"@ + t@.text()),
            None => before,
        }
    }
}

/// The explanation given for a measured value of rank `rank`.
pub open spec fn measured_reason(
    value: Parts,
    raw_name: Seq<char>,
    rule: SubstanceRuleDef,
    categories: Seq<String>,
    unit: Seq<char>,
    rank: int,
) -> Seq<char> {
    let head = raw_name + ": "@ + value.text() + " "@ + unit;
    if rank >= categories.len() || rank < 0 {
        head + " > "@ + crate::text::joined(
            threshold_parts(rule, categories, Seq::empty(), categories.len() as int),
            ", "@,
        ) + " -> exceeds all thresholds"@
    } else {
        let cat = categories[rank]@;
        let limit = rule.threshold_of(cat)->0@.text();
        if rank == 0 {
            head + " <= "@ + limit + " ("@ + cat + ") -> classified as "@ + cat
        } else {
            head + " "@ + crate::text::joined(
                threshold_parts(rule, categories, value.text() + " > "@, rank),
                ", "@,
            ) + " but <= "@ + cat + ":"@ + limit + " -> classified as "@ + cat
        }
    }
}

/// The explanation given for a detection limit.
pub open spec fn below_detection_reason(
    limit: Parts,
    raw_name: Seq<char>,
    rule: SubstanceRuleDef,
    categories: Seq<String>,
    unit: Seq<char>,
) -> Seq<char> {
    let head = raw_name + ": < "@ + limit.text() + " "@ + unit;
    if limit_is_confirmed(rule, categories, limit) {
        let cat = categories[below_detection_rank(rule, categories, limit)]@;
        head + ", detection limit below "@ + cat + " threshold ("@ + rule.threshold_of(
            cat,
        )->0@.text() + ") -> classified as "@ + cat
    } else {
        head + ", detection limit exceeds all thresholds ("@ + crate::text::joined(
            threshold_parts(rule, categories, Seq::empty(), categories.len() as int),
            ", "@,
        ) + ") -> uncertain"@
    }
}

/// What classifying a measured value yields.
pub open spec fn is_measured_result(
    r: SubstanceResult,
    value: Decimal,
    row: AnalysisRow,
    rule: SubstanceRuleDef,
    categories: Seq<String>,
    unit: Seq<char>,
) -> bool {
    let rank = measured_rank(rule, categories, value@);
    &&& r.substance@ == row.normalized_name@
    &&& r.raw_name@ == row.raw_name@
    &&& r.value == row.value
    &&& r.unit@ == unit
    &&& r.category@ == category_at(categories, rank)
    &&& r.reason@ == measured_reason(value@, row.raw_name@, rule, categories, unit, rank)
    &&& r.exceeded_threshold == last_threshold_before(rule, categories, rank)
    &&& !r.uncertain
}

/// What classifying a detection limit yields.
pub open spec fn is_below_detection_result(
    r: SubstanceResult,
    limit: Decimal,
    row: AnalysisRow,
    rule: SubstanceRuleDef,
    categories: Seq<String>,
    unit: Seq<char>,
) -> bool {
    let confirmed = limit_is_confirmed(rule, categories, limit@);
    &&& r.substance@ == row.normalized_name@
    &&& r.raw_name@ == row.raw_name@
    &&& r.value == row.value
    &&& r.unit@ == unit
    &&& r.category@ == if confirmed {
        categories[below_detection_rank(rule, categories, limit@)]@
    } else {
        last_name(categories)
    }
    &&& r.reason@ == below_detection_reason(limit@, row.raw_name@, rule, categories, unit)
    &&& r.exceeded_threshold == if confirmed {
        None
    } else {
        rule.threshold_of(last_name(categories))
    }
    &&& r.uncertain == !confirmed
}

/// The index found by `first_admitting` lies between `from` and the number
/// of categories; it admits the value unless it is that number, and no
/// category between `from` and it does.
pub proof fn lemma_first_admitting(
    rule: SubstanceRuleDef,
    categories: Seq<String>,
    value: Parts,
    strict: bool,
    from: int,
)
    requires
        0 <= from <= categories.len(),
    ensures
        from <= first_admitting(rule, categories, value, strict, from) <= categories.len(),
        first_admitting(rule, categories, value, strict, from) < categories.len() ==> admits(
            rule,
            categories,
            value,
            strict,
            first_admitting(rule, categories, value, strict, from),
        ),
        forall|j: int|
            from <= j < first_admitting(rule, categories, value, strict, from) ==> !admits(
                rule,
                categories,
                value,
                strict,
                j,
            ),
    decreases categories.len() - from,
{
    if from < categories.len() && !admits(rule, categories, value, strict, from) {
        lemma_first_admitting(rule, categories, value, strict, from + 1);
    }
}

/// The texts `prefix`, category, colon, threshold for the categories
/// before `upto` that have a threshold.
fn collect_threshold_parts(
    rule: &SubstanceRuleDef,
    categories: &[String],
    prefix: &str,
    upto: usize,
) -> (parts: Vec<String>)
    requires
        upto <= categories.len(),
    ensures
        crate::text::texts(parts@) == threshold_parts(*rule, categories@, prefix@, upto as int),
{
    let mut parts: Vec<String> = Vec::new();
    let mut j: usize = 0;
    assert(crate::text::texts(parts@) =~= Seq::empty());
    while j < upto
        invariant
            j <= upto <= categories.len(),
            crate::text::texts(parts@) == threshold_parts(*rule, categories@, prefix@, j as int),
        decreases upto - j,
    {
        let ghost before = crate::text::texts(parts@);
        match rule.threshold(categories[j].as_str()) {
            Some(t) => {
                let mut part = String::from_str(prefix);
                part.append(categories[j].as_str());
                part.append(":");
                part.append(t.to_text().as_str());
                parts.push(part);
                assert(crate::text::texts(parts@) =~= before.push(part@));
            },
            None => {},
        }
        j += 1;
    }
    parts
}

/// The last threshold among the categories before `upto`.
fn find_last_threshold(rule: &SubstanceRuleDef, categories: &[String], upto: usize) -> (r:
    Option<Decimal>)
    requires
        upto <= categories.len(),
    ensures
        r == last_threshold_before(*rule, categories@, upto as int),
{
    let mut j: usize = upto;
    while j > 0
        invariant
            j <= upto <= categories.len(),
            last_threshold_before(*rule, categories@, upto as int) == last_threshold_before(
                *rule,
                categories@,
                j as int,
            ),
        decreases j,
    {
        match rule.threshold(categories[j - 1].as_str()) {
            Some(t) => {
                return Some(t);
            },
            None => {},
        }
        j -= 1;
    }
    None
}

/// The name of the last category; empty where there is none.
fn last_category(categories: &[String]) -> (r: String)
    ensures
        r@ == last_name(categories@),
{
    if categories.len() == 0 {
        String::new()
    } else {
        categories[categories.len() - 1].clone()
    }
}

/// Classifies a measured value: it gets the first category, in the order
/// of `categories`, whose threshold it does not exceed; where it exceeds
/// them all, the synthetic category beyond the last one, together with the
/// last threshold.
pub fn classify_measured(
    value: Decimal,
    row: &AnalysisRow,
    rule: &SubstanceRuleDef,
    categories: &[String],
    unit: &str,
) -> (r: SubstanceResult)
    ensures
        is_measured_result(r, value, *row, *rule, categories@, unit@),
{
    let value_text = value.to_text();
    let mut head = row.raw_name.clone();
    head.append(": ");
    head.append(value_text.as_str());
    head.append(" ");
    head.append(unit);

    let mut i: usize = 0;
    while i < categories.len()
        invariant
            i <= categories.len(),
            measured_rank(*rule, categories@, value@) == first_admitting(
                *rule,
                categories@,
                value@,
                false,
                i as int,
            ),
            value_text@ == value@.text(),
            head@ == row.raw_name@ + ": "@ + value@.text() + " "@ + unit@,
        decreases categories.len() - i,
    {
        let cat = categories[i].as_str();
        match rule.threshold(cat) {
            Some(threshold) => {
                if value.le(&threshold) {
                    let mut reason = head;
                    if i == 0 {
                        reason.append(" <= ");
                        reason.append(threshold.to_text().as_str());
                        reason.append(" (");
                        reason.append(cat);
                        reason.append(") -> classified as ");
                        reason.append(cat);
                    } else {
                        let mut prefix = value_text.clone();
                        prefix.append(" > ");
                        let parts = collect_threshold_parts(rule, categories, prefix.as_str(), i);
                        reason.append(" ");
                        reason.append(crate::text::join(&parts, ", ").as_str());
                        reason.append(" but <= ");
                        reason.append(cat);
                        reason.append(":");
                        reason.append(threshold.to_text().as_str());
                        reason.append(" -> classified as ");
                        reason.append(cat);
                    }
                    return SubstanceResult {
                        substance: row.normalized_name.clone(),
                        raw_name: row.raw_name.clone(),
                        value: row.value,
                        unit: String::from_str(unit),
                        category: categories[i].clone(),
                        reason,
                        exceeded_threshold: find_last_threshold(rule, categories, i),
                        uncertain: false,
                    };
                }
            },
            None => {},
        }
        i += 1;
    }

    let mut category = String::from_str("> ");
    category.append(last_category(categories).as_str());
    let parts = collect_threshold_parts(rule, categories, "", categories.len());
    let mut reason = head;
    reason.append(" > ");
    reason.append(crate::text::join(&parts, ", ").as_str());
    reason.append(" -> exceeds all thresholds");
    proof {
        reveal_strlit("");
        assert(""@ =~= Seq::<char>::empty());
    }
    SubstanceResult {
        substance: row.normalized_name.clone(),
        raw_name: row.raw_name.clone(),
        value: row.value,
        unit: String::from_str(unit),
        category,
        reason,
        exceeded_threshold: find_last_threshold(rule, categories, categories.len()),
        uncertain: false,
    }
}

/// Classifies a value that is only known to lie below a detection limit:
/// it gets the first category, in the order of `categories`, whose
/// threshold lies strictly above the limit. Where no threshold does, the
/// limit cannot rule out any contamination: the row gets the last category
/// and is marked uncertain. A limit at or above an earlier threshold and
/// below a later one gets the later category without that mark.
pub fn classify_below_detection(
    detection_limit: Decimal,
    row: &AnalysisRow,
    rule: &SubstanceRuleDef,
    categories: &[String],
    unit: &str,
) -> (r: SubstanceResult)
    ensures
        is_below_detection_result(r, detection_limit, *row, *rule, categories@, unit@),
{
    let mut head = row.raw_name.clone();
    head.append(": < ");
    head.append(detection_limit.to_text().as_str());
    head.append(" ");
    head.append(unit);

    let mut i: usize = 0;
    while i < categories.len()
        invariant
            i <= categories.len(),
            first_admitting(*rule, categories@, detection_limit@, true, 0) == first_admitting(
                *rule,
                categories@,
                detection_limit@,
                true,
                i as int,
            ),
            head@ == row.raw_name@ + ": < "@ + detection_limit@.text() + " "@ + unit@,
        decreases categories.len() - i,
    {
        let cat = categories[i].as_str();
        match rule.threshold(cat) {
            Some(threshold) => {
                if detection_limit.lt(&threshold) {
                    let mut reason = head;
                    reason.append(", detection limit below ");
                    reason.append(cat);
                    reason.append(" threshold (");
                    reason.append(threshold.to_text().as_str());
                    reason.append(") -> classified as ");
                    reason.append(cat);
                    return SubstanceResult {
                        substance: row.normalized_name.clone(),
                        raw_name: row.raw_name.clone(),
                        value: row.value,
                        unit: String::from_str(unit),
                        category: categories[i].clone(),
                        reason,
                        exceeded_threshold: None,
                        uncertain: false,
                    };
                }
            },
            None => {},
        }
        i += 1;
    }

    let category = last_category(categories);
    let last_threshold = rule.threshold(category.as_str());
    let parts = collect_threshold_parts(rule, categories, "", categories.len());
    let mut reason = head;
    reason.append(", detection limit exceeds all thresholds (");
    reason.append(crate::text::join(&parts, ", ").as_str());
    reason.append(") -> uncertain");
    proof {
        reveal_strlit("");
        assert(""@ =~= Seq::<char>::empty());
    }
    SubstanceResult {
        substance: row.normalized_name.clone(),
        raw_name: row.raw_name.clone(),
        value: row.value,
        unit: String::from_str(unit),
        category,
        reason,
        exceeded_threshold: last_threshold,
        uncertain: true,
    }
}

/// The unit that results of a rule are given in.
pub open spec fn unit_of(rule: SubstanceRuleDef) -> Seq<char> {
    match rule.unit {
        Some(u) => u@,
        None => "mg/kg TS"@,
    }
}

/// What classifying a row under a rule yields.
pub open spec fn is_result_of(
    r: SubstanceResult,
    row: AnalysisRow,
    rule: SubstanceRuleDef,
    categories: Seq<String>,
) -> bool {
    match row.value {
        AnalysisValue::Measured(v) => is_measured_result(
            r,
            v,
            row,
            rule,
            categories,
            unit_of(rule),
        ),
        AnalysisValue::BelowDetection(d) => is_below_detection_result(
            r,
            d,
            row,
            rule,
            categories,
            unit_of(rule),
        ),
    }
}

/// Classifies the value of a row under a rule.
pub fn classify_substance(row: &AnalysisRow, rule: &SubstanceRuleDef, categories: &[String]) -> (r:
    SubstanceResult)
    ensures
        is_result_of(r, *row, *rule, categories@),
{
    let unit = match &rule.unit {
        Some(u) => u.clone(),
        None => String::from_str("mg/kg TS"),
    };
    match row.value {
        AnalysisValue::Measured(value) => classify_measured(
            value,
            row,
            rule,
            categories,
            unit.as_str(),
        ),
        AnalysisValue::BelowDetection(limit) => classify_below_detection(
            limit,
            row,
            rule,
            categories,
            unit.as_str(),
        ),
    }
}

/// A measured value gets the first category whose threshold it does not
/// exceed: its rank is a category that admits it, with none before that
/// does, or it is the number of categories and no category admits it.
pub proof fn lemma_measured_rank_is_first(
    rule: SubstanceRuleDef,
    categories: Seq<String>,
    value: Parts,
)
    ensures
        0 <= measured_rank(rule, categories, value) <= categories.len(),
        measured_rank(rule, categories, value) < categories.len() ==> admits(
            rule,
            categories,
            value,
            false,
            measured_rank(rule, categories, value),
        ),
        forall|j: int|
            0 <= j < measured_rank(rule, categories, value) ==> !admits(
                rule,
                categories,
                value,
                false,
                j,
            ),
{
    lemma_first_admitting(rule, categories, value, false, 0);
}

proof fn lemma_first_admitting_monotone(
    rule: SubstanceRuleDef,
    categories: Seq<String>,
    low: Parts,
    low_strict: bool,
    high: Parts,
    high_strict: bool,
    from: int,
)
    requires
        0 <= from <= categories.len(),
        low.units() <= high.units(),
        high_strict || !low_strict,
    ensures
        first_admitting(rule, categories, low, low_strict, from) <= first_admitting(
            rule,
            categories,
            high,
            high_strict,
            from,
        ),
    decreases categories.len() - from,
{
    if from < categories.len() {
        lemma_first_admitting(rule, categories, high, high_strict, from + 1);
        lemma_first_admitting_monotone(
            rule,
            categories,
            low,
            low_strict,
            high,
            high_strict,
            from + 1,
        );
    }
}

/// With the thresholds fixed, a larger measured value never gets a lower
/// rank.
pub proof fn lemma_measured_rank_monotone(
    rule: SubstanceRuleDef,
    categories: Seq<String>,
    low: Parts,
    high: Parts,
)
    requires
        low.le(high),
    ensures
        measured_rank(rule, categories, low) <= measured_rank(rule, categories, high),
{
    lemma_first_admitting_monotone(rule, categories, low, false, high, false, 0);
}

/// A detection limit never gets a lower rank than the same number gets as
/// a measurement, as long as the measurement stays within some threshold.
/// (Beyond every threshold the measurement gets the synthetic category,
/// the detection limit the last defined one.)
pub proof fn lemma_below_detection_escalates(
    rule: SubstanceRuleDef,
    categories: Seq<String>,
    d: Parts,
)
    requires
        measured_rank(rule, categories, d) < categories.len(),
    ensures
        below_detection_rank(rule, categories, d) >= measured_rank(rule, categories, d),
{
    lemma_first_admitting_monotone(rule, categories, d, false, d, true, 0);
}

/// Whether a result carries the synthetic category beyond all thresholds.
pub open spec fn is_exceeding(r: SubstanceResult) -> bool {
    has_prefix(r.category@, "> "@)
}

/// Whether one of the results exceeds all thresholds.
pub open spec fn any_exceeding(results: Seq<SubstanceResult>) -> bool {
    exists|k: int| 0 <= k < results.len() && is_exceeding(#[trigger] results[k])
}

/// The index of the first category at or after `from` with the given name.
pub open spec fn position_of(categories: Seq<String>, name: Seq<char>, from: int) -> Option<int>
    decreases categories.len() - from,
{
    if from >= categories.len() {
        None
    } else if categories[from]@ == name {
        Some(from)
    } else {
        position_of(categories, name, from + 1)
    }
}

/// The largest index that the category of one of the first `upto` results
/// has among the categories.
pub open spec fn worst_position(
    results: Seq<SubstanceResult>,
    categories: Seq<String>,
    upto: int,
) -> Option<int>
    decreases upto,
{
    if upto <= 0 || upto > results.len() {
        None
    } else {
        let before = worst_position(results, categories, upto - 1);
        match position_of(categories, results[upto - 1].category@, 0) {
            Some(p) => match before {
                Some(w) => if p > w {
                    Some(p)
                } else {
                    Some(w)
                },
                None => Some(p),
            },
            None => before,
        }
    }
}

/// The index of the worst category that any result has; that of the
/// cleanest category where no result has a defined one.
pub open spec fn worst_index(results: Seq<SubstanceResult>, categories: Seq<String>) -> int {
    match worst_position(results, categories, results.len() as int) {
        Some(w) => w,
        None => 0,
    }
}

/// The raw names of those of the first `upto` results that exceed all
/// thresholds, where `exceeding` is set, or else that have the category
/// `category`.
pub open spec fn selected_names(
    results: Seq<SubstanceResult>,
    exceeding: bool,
    category: Seq<char>,
    upto: int,
) -> Seq<Seq<char>>
    decreases upto,
{
    if upto <= 0 || upto > results.len() {
        Seq::empty()
    } else {
        let before = selected_names(results, exceeding, category, upto - 1);
        let r = results[upto - 1];
        if (exceeding && is_exceeding(r)) || (!exceeding && r.category@ == category) {
            before.push(r.raw_name@)
        } else {
            before
        }
    }
}

/// The overall category of a ruleset: the worst that any substance has,
/// the synthetic category beyond all thresholds ranking above every defined
/// one.
pub open spec fn overall_category(results: Seq<SubstanceResult>, categories: Seq<String>) -> Seq<
    char,
> {
    if results.len() == 0 {
        "N/A"@
    } else if any_exceeding(results) {
        exceeds_name(categories)
    } else {
        categories[worst_index(results, categories)]@
    }
}

/// The raw names of the substances that have the overall category.
pub open spec fn overall_determining(
    results: Seq<SubstanceResult>,
    categories: Seq<String>,
) -> Seq<Seq<char>> {
    selected_names(
        results,
        any_exceeding(results),
        categories[worst_index(results, categories)]@,
        results.len() as int,
    )
}

/// The explanation of the overall category.
pub open spec fn overall_reason(results: Seq<SubstanceResult>, categories: Seq<String>) -> Seq<
    char,
> {
    let names = overall_determining(results, categories);
    let worst = categories[worst_index(results, categories)]@;
    if results.len() == 0 {
        "No substances matched any rules"@
    } else if any_exceeding(results) {
        "Determined by "@ + joined(names, ", "@)
    } else if names.len() == 1 {
        "Determined by "@ + names[0] + " ("@ + worst + ")"@
    } else {
        "Determined by "@ + decimal_digits(names.len()) + " substances at "@ + worst + " level"@
    }
}

/// The index of the first category with the given name.
fn find_position(categories: &[String], name: &str) -> (r: Option<usize>)
    ensures
        match r {
            Some(p) => p < categories.len() && position_of(categories@, name@, 0) == Some(
                p as int,
            ),
            None => position_of(categories@, name@, 0) is None,
        },
{
    let mut i: usize = 0;
    while i < categories.len()
        invariant
            i <= categories.len(),
            position_of(categories@, name@, 0) == position_of(categories@, name@, i as int),
        decreases categories.len() - i,
    {
        if crate::text::same_text(categories[i].as_str(), name) {
            return Some(i);
        }
        i += 1;
    }
    None
}

/// The raw names of the results that exceed all thresholds, or of those
/// that have the given category.
fn select_names(results: &[SubstanceResult], exceeding: bool, category: &str) -> (names: Vec<
    String,
>)
    ensures
        texts(names@) == selected_names(results@, exceeding, category@, results.len() as int),
{
    let mut names: Vec<String> = Vec::new();
    let mut k: usize = 0;
    assert(texts(names@) =~= Seq::empty());
    while k < results.len()
        invariant
            k <= results.len(),
            texts(names@) == selected_names(results@, exceeding, category@, k as int),
        decreases results.len() - k,
    {
        let ghost before = texts(names@);
        let selected = if exceeding {
            crate::text::starts_with(results[k].category.as_str(), "> ")
        } else {
            crate::text::same_text(results[k].category.as_str(), category)
        };
        if selected {
            let name = results[k].raw_name.clone();
            names.push(name);
            assert(texts(names@) =~= before.push(name@));
        }
        k += 1;
    }
    names
}

/// The overall category of a ruleset from the results of its substances,
/// with its explanation and the raw names of the substances that decide
/// it: all that exceed every threshold, where any does; else all at the
/// worst category that occurs.
pub fn determine_overall(results: &[SubstanceResult], categories: &[String]) -> (r: (
    String,
    String,
    Vec<String>,
))
    requires
        categories.len() > 0,
    ensures
        r.0@ == overall_category(results@, categories@),
        r.1@ == overall_reason(results@, categories@),
        texts(r.2@) == overall_determining(results@, categories@),
{
    if results.len() == 0 {
        let none: Vec<String> = Vec::new();
        assert(texts(none@) =~= Seq::empty());
        return (
            String::from_str("N/A"),
            String::from_str("No substances matched any rules"),
            none,
        );
    }
    let mut worst: Option<usize> = None;
    let mut has_exceeds = false;
    let mut k: usize = 0;
    while k < results.len() && !has_exceeds
        invariant
            k <= results.len(),
            has_exceeds ==> any_exceeding(results@),
            !has_exceeds ==> forall|j: int| 0 <= j < k ==> !is_exceeding(#[trigger] results@[j]),
            !has_exceeds ==> match worst {
                Some(w) => w < categories.len() && worst_position(results@, categories@, k as int)
                    == Some(w as int),
                None => worst_position(results@, categories@, k as int) is None,
            },
        decreases results.len() - k + if has_exceeds { 0int } else { 1int },
    {
        if crate::text::starts_with(results[k].category.as_str(), "> ") {
            has_exceeds = true;
        } else {
            match find_position(categories, results[k].category.as_str()) {
                Some(p) => {
                    worst = match worst {
                        None => Some(p),
                        Some(w) => if p > w {
                            Some(p)
                        } else {
                            Some(w)
                        },
                    };
                },
                None => {},
            }
            k += 1;
        }
    }

    if has_exceeds {
        let mut category = String::from_str("> ");
        category.append(last_category(categories).as_str());
        let determining = select_names(results, true, "");
        let mut reason = String::from_str("Determined by ");
        reason.append(crate::text::join(&determining, ", ").as_str());
        proof {
            lemma_selection_ignores_category(
                results@,
                ""@,
                categories@[worst_index(results@, categories@)]@,
                results.len() as int,
            );
        }
        return (category, reason, determining);
    }
    let worst_index: usize = match worst {
        Some(w) => w,
        None => 0,
    };
    let worst_category = categories[worst_index].clone();
    let determining = select_names(results, false, worst_category.as_str());
    let mut reason = String::from_str("Determined by ");
    if determining.len() == 1 {
        reason.append(determining[0].as_str());
        reason.append(" (");
        reason.append(worst_category.as_str());
        reason.append(")");
    } else {
        reason.append(crate::text::number_text(determining.len()).as_str());
        reason.append(" substances at ");
        reason.append(worst_category.as_str());
        reason.append(" level");
    }
    (worst_category, reason, determining)
}

proof fn lemma_selection_ignores_category(
    results: Seq<SubstanceResult>,
    a: Seq<char>,
    b: Seq<char>,
    upto: int,
)
    ensures
        selected_names(results, true, a, upto) == selected_names(results, true, b, upto),
    decreases upto,
{
    if 0 < upto <= results.len() {
        lemma_selection_ignores_category(results, a, b, upto - 1);
    }
}

/// Whether a rule applies to rows of the given substance in a sample of
/// the given matrix.
pub open spec fn rule_applies(rule: SubstanceRuleDef, name: Seq<char>, matrix: Option<Matrix>) -> bool {
    rule.substance@ == name && matrix_applies(rule.matrix, matrix)
}

/// The pairs of row index and rule index in which the rule applies to the
/// row, by row and then by rule: all pairs whose row comes before `rows`,
/// and those of row `rows` whose rule comes before `rules`.
pub open spec fn matches_upto(
    report: AnalysisReport,
    ruleset: RuleSetDef,
    rows: int,
    rules: int,
) -> Seq<(int, int)>
    decreases rows, rules,
{
    if rows < 0 || rules < 0 {
        Seq::empty()
    } else if rules > 0 {
        let before = matches_upto(report, ruleset, rows, rules - 1);
        if rule_applies(
            ruleset.rules[rules - 1],
            report.rows[rows].normalized_name@,
            report.header.matrix,
        ) {
            before.push((rows, rules - 1))
        } else {
            before
        }
    } else if rows > 0 {
        matches_upto(report, ruleset, rows - 1, ruleset.rules.len() as int)
    } else {
        Seq::empty()
    }
}

/// All pairs of a row and a rule that applies to it, by row and then by
/// rule.
pub open spec fn all_matches(report: AnalysisReport, ruleset: RuleSetDef) -> Seq<(int, int)> {
    matches_upto(report, ruleset, report.rows.len() as int, 0)
}

/// The results are those of the given pairs of row and rule, in order.
pub open spec fn results_of(
    results: Seq<SubstanceResult>,
    pairs: Seq<(int, int)>,
    report: AnalysisReport,
    ruleset: RuleSetDef,
) -> bool {
    &&& results.len() == pairs.len()
    &&& forall|k: int|
        0 <= k < results.len() ==> is_result_of(
            #[trigger] results[k],
            report.rows[pairs[k].0],
            ruleset.rules[pairs[k].1],
            ruleset.categories@,
        )
}

/// Whether one of the first `upto` rows is of the given substance.
pub open spec fn names_row(report: AnalysisReport, name: Seq<char>, upto: int) -> bool {
    exists|i: int| 0 <= i < upto && i < report.rows.len() && (#[trigger] report.rows[i]).normalized_name@ == name
}

/// Whether one of the first `upto` rules is for the given substance.
pub open spec fn names_rule(ruleset: RuleSetDef, name: Seq<char>, upto: int) -> bool {
    exists|j: int| 0 <= j < upto && j < ruleset.rules.len() && (#[trigger] ruleset.rules[j]).substance@ == name
}

/// Whether one of the first `upto` rules applies to rows of the given
/// substance.
pub open spec fn has_applicable_rule(
    ruleset: RuleSetDef,
    name: Seq<char>,
    matrix: Option<Matrix>,
    upto: int,
) -> bool {
    exists|j: int|
        0 <= j < upto && j < ruleset.rules.len() && rule_applies(
            #[trigger] ruleset.rules[j],
            name,
            matrix,
        )
}

/// A substance of the report that no rule applies to.
pub open spec fn is_unmatched_substance(
    report: AnalysisReport,
    ruleset: RuleSetDef,
    name: Seq<char>,
) -> bool {
    names_row(report, name, report.rows.len() as int) && !has_applicable_rule(
        ruleset,
        name,
        report.header.matrix,
        ruleset.rules.len() as int,
    )
}

/// A substance of the ruleset none of whose rules applies to any row.
pub open spec fn is_unmatched_rule(
    report: AnalysisReport,
    ruleset: RuleSetDef,
    name: Seq<char>,
) -> bool {
    names_rule(ruleset, name, ruleset.rules.len() as int) && !(names_row(
        report,
        name,
        report.rows.len() as int,
    ) && has_applicable_rule(ruleset, name, report.header.matrix, ruleset.rules.len() as int))
}

/// What classifying a report under a ruleset yields.
pub open spec fn is_ruleset_result(
    r: RuleSetResult,
    report: AnalysisReport,
    ruleset: RuleSetDef,
) -> bool {
    &&& r.ruleset_name@ == ruleset.name@
    &&& results_of(r.substance_results@, all_matches(report, ruleset), report, ruleset)
    &&& r.overall_category@ == overall_category(r.substance_results@, ruleset.categories@)
    &&& r.overall_reason@ == overall_reason(r.substance_results@, ruleset.categories@)
    &&& texts(r.determining_substances@) == overall_determining(
        r.substance_results@,
        ruleset.categories@,
    )
    &&& r.lowest_category is Some
    &&& r.lowest_category->0@ == ruleset.categories[0]@
    &&& strictly_sorted(r.unmatched_substances@)
    &&& forall|name: Seq<char>|
        lists(r.unmatched_substances@, name) <==> is_unmatched_substance(report, ruleset, name)
    &&& strictly_sorted(r.unmatched_rules@)
    &&& forall|name: Seq<char>|
        lists(r.unmatched_rules@, name) <==> is_unmatched_rule(report, ruleset, name)
    &&& r.hp_details is None
}

/// Whether a rule applies to rows of the given substance.
fn applies(rule: &SubstanceRuleDef, name: &str, matrix: &Option<Matrix>) -> (r: bool)
    ensures
        r == rule_applies(*rule, name@, *matrix),
{
    crate::text::same_text(rule.substance.as_str(), name) && matrix_filter_applies(
        &rule.matrix,
        matrix,
    )
}

/// Whether some rule applies to rows of the given substance.
fn applicable_rule_exists(ruleset: &RuleSetDef, name: &str, matrix: &Option<Matrix>) -> (r: bool)
    ensures
        r == has_applicable_rule(*ruleset, name@, *matrix, ruleset.rules.len() as int),
{
    let mut j: usize = 0;
    while j < ruleset.rules.len()
        invariant
            j <= ruleset.rules.len(),
            !has_applicable_rule(*ruleset, name@, *matrix, j as int),
        decreases ruleset.rules.len() - j,
    {
        if applies(&ruleset.rules[j], name, matrix) {
            return true;
        }
        j += 1;
    }
    false
}

/// Whether some row is of the given substance.
fn row_exists(report: &AnalysisReport, name: &str) -> (r: bool)
    ensures
        r == names_row(*report, name@, report.rows.len() as int),
{
    let mut i: usize = 0;
    while i < report.rows.len()
        invariant
            i <= report.rows.len(),
            !names_row(*report, name@, i as int),
        decreases report.rows.len() - i,
    {
        if crate::text::same_text(report.rows[i].normalized_name.as_str(), name) {
            return true;
        }
        i += 1;
    }
    false
}

/// The substances of the report that no rule applies to, sorted.
fn unmatched_substances(report: &AnalysisReport, ruleset: &RuleSetDef) -> (names: Vec<String>)
    ensures
        strictly_sorted(names@),
        forall|name: Seq<char>|
            lists(names@, name) <==> is_unmatched_substance(*report, *ruleset, name),
{
    let mut names: Vec<String> = Vec::new();
    let mut i: usize = 0;
    while i < report.rows.len()
        invariant
            i <= report.rows.len(),
            strictly_sorted(names@),
            forall|name: Seq<char>|
                lists(names@, name) <==> (names_row(*report, name, i as int)
                    && !has_applicable_rule(
                    *ruleset,
                    name,
                    report.header.matrix,
                    ruleset.rules.len() as int,
                )),
        decreases report.rows.len() - i,
    {
        let name = &report.rows[i].normalized_name;
        let matched = applicable_rule_exists(ruleset, name.as_str(), &report.header.matrix);
        if !matched {
            crate::text::insert_sorted(&mut names, name.clone());
        }
        proof {
            assert forall|n: Seq<char>|
                lists(names@, n) <==> (names_row(*report, n, i + 1) && !has_applicable_rule(
                    *ruleset,
                    n,
                    report.header.matrix,
                    ruleset.rules.len() as int,
                )) by {
                if names_row(*report, n, i + 1) && !names_row(*report, n, i as int) {
                    assert(report.rows[i as int].normalized_name@ == n);
                }
                if n == name@ {
                    assert(report.rows[i as int].normalized_name@ == n);
                }
            }
        }
        i += 1;
    }
    names
}

/// The substances of the ruleset none of whose rules applies to a row,
/// sorted.
fn unmatched_rules(report: &AnalysisReport, ruleset: &RuleSetDef) -> (names: Vec<String>)
    ensures
        strictly_sorted(names@),
        forall|name: Seq<char>| lists(names@, name) <==> is_unmatched_rule(*report, *ruleset, name),
{
    let mut names: Vec<String> = Vec::new();
    let mut j: usize = 0;
    while j < ruleset.rules.len()
        invariant
            j <= ruleset.rules.len(),
            strictly_sorted(names@),
            forall|name: Seq<char>|
                lists(names@, name) <==> (names_rule(*ruleset, name, j as int) && !(names_row(
                    *report,
                    name,
                    report.rows.len() as int,
                ) && has_applicable_rule(
                    *ruleset,
                    name,
                    report.header.matrix,
                    ruleset.rules.len() as int,
                ))),
        decreases ruleset.rules.len() - j,
    {
        let name = &ruleset.rules[j].substance;
        let matched = row_exists(report, name.as_str()) && applicable_rule_exists(
            ruleset,
            name.as_str(),
            &report.header.matrix,
        );
        if !matched {
            crate::text::insert_sorted(&mut names, name.clone());
        }
        proof {
            assert forall|n: Seq<char>|
                lists(names@, n) <==> (names_rule(*ruleset, n, j + 1) && !(names_row(
                    *report,
                    n,
                    report.rows.len() as int,
                ) && has_applicable_rule(
                    *ruleset,
                    n,
                    report.header.matrix,
                    ruleset.rules.len() as int,
                ))) by {
                if names_rule(*ruleset, n, j + 1) && !names_rule(*ruleset, n, j as int) {
                    assert(ruleset.rules[j as int].substance@ == n);
                }
                if n == name@ {
                    assert(ruleset.rules[j as int].substance@ == n);
                }
            }
        }
        j += 1;
    }
    names
}

/// Classifies a report under one ruleset. Every row is classified under
/// every rule that applies to it: a rule for its substance whose matrix
/// filter, if it has one, names the matrix of the report.
pub fn classify_one(report: &AnalysisReport, ruleset: &RuleSetDef) -> (r: RuleSetResult)
    requires
        ruleset.categories.len() > 0,
    ensures
        is_ruleset_result(r, *report, *ruleset),
{
    let mut substance_results: Vec<SubstanceResult> = Vec::new();
    let mut i: usize = 0;
    while i < report.rows.len()
        invariant
            i <= report.rows.len(),
            results_of(
                substance_results@,
                matches_upto(*report, *ruleset, i as int, 0),
                *report,
                *ruleset,
            ),
        decreases report.rows.len() - i,
    {
        let row = &report.rows[i];
        let mut j: usize = 0;
        while j < ruleset.rules.len()
            invariant
                i < report.rows.len(),
                j <= ruleset.rules.len(),
                *row == report.rows[i as int],
                results_of(
                    substance_results@,
                    matches_upto(*report, *ruleset, i as int, j as int),
                    *report,
                    *ruleset,
                ),
            decreases ruleset.rules.len() - j,
        {
            let rule = &ruleset.rules[j];
            if applies(rule, row.normalized_name.as_str(), &report.header.matrix) {
                let result = classify_substance(row, rule, &ruleset.categories);
                substance_results.push(result);
            }
            j += 1;
        }
        i += 1;
    }
    let overall = determine_overall(&substance_results, &ruleset.categories);
    RuleSetResult {
        ruleset_name: ruleset.name.clone(),
        overall_category: overall.0,
        overall_reason: overall.1,
        lowest_category: Some(ruleset.categories[0].clone()),
        determining_substances: overall.2,
        substance_results,
        unmatched_substances: unmatched_substances(report, ruleset),
        unmatched_rules: unmatched_rules(report, ruleset),
        hp_details: None,
    }
}

/// Classifies a report under each of the rulesets, in their order.
pub fn classify(report: &AnalysisReport, rulesets: &[RuleSetDef]) -> (r: Vec<RuleSetResult>)
    requires
        forall|k: int| 0 <= k < rulesets.len() ==> (#[trigger] rulesets[k]).categories.len() > 0,
    ensures
        r.len() == rulesets.len(),
        forall|k: int|
            0 <= k < r.len() ==> is_ruleset_result(#[trigger] r[k], *report, rulesets[k]),
{
    let mut out: Vec<RuleSetResult> = Vec::new();
    let mut k: usize = 0;
    while k < rulesets.len()
        invariant
            k <= rulesets.len(),
            out.len() == k,
            forall|n: int| 0 <= n < rulesets.len() ==> (#[trigger] rulesets[n]).categories.len() > 0,
            forall|n: int| 0 <= n < k ==> is_ruleset_result(#[trigger] out[n], *report, rulesets[n]),
        decreases rulesets.len() - k,
    {
        out.push(classify_one(report, &rulesets[k]));
        k += 1;
    }
    out
}

} // verus!
