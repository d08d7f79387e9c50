//! The hazard evaluator: nine criteria decide, from the resolved
//! concentrations, whether a sample is hazardous waste.
//!
//! A substance that was only reported as below its detection limit takes
//! part in no criterion, however high that limit is.

use crate::classify::outcome::{
    contribution_views, criterion_views, ContributionView, CriterionView, HpCriterionDetail,
    HpDetails, HpDetailsView, HpSubstanceContribution, RuleSetResult, SubstanceResult,
};
use crate::clp::schema::{first_class, ClpDatabase, SpeciationTable};
use crate::clp::speciation::{all_convert, is_resolution, resolve_substances, ResolvedSubstance};
use crate::decimal::{product, sum, Decimal, Parts};
use crate::model::AnalysisReport;
use crate::text::{joined, lists, strictly_sorted, texts};
use vstd::prelude::*;
use vstd::string::StringExecFns;

verus! {

/// Whether a substance counts under a hazard code: it was measured, and
/// its compound carries exactly this code.
pub open spec fn counts(r: ResolvedSubstance, code: Seq<char>) -> bool {
    !r.below_detection && r.clp.carries(code)
}

/// The contribution of a substance under a code.
pub open spec fn contribution(
    r: ResolvedSubstance,
    h_code: Seq<char>,
    concentration: Parts,
    threshold: Parts,
    triggers: bool,
) -> ContributionView {
    ContributionView {
        substance: r.row.normalized_name@,
        compound: r.compound_name@,
        h_code,
        concentration_pct: concentration,
        threshold_pct: Some(threshold),
        triggers,
    }
}

/// Whether one of the contributions triggers.
pub open spec fn any_triggers(contributions: Seq<ContributionView>) -> bool {
    exists|k: int| 0 <= k < contributions.len() && (#[trigger] contributions[k]).triggers
}

/// The sum of the concentrations of the first `upto` substances that count
/// under a code, added up from zero in their order; `None` where a partial
/// sum is too large to represent.
pub open spec fn code_sum(resolved: Seq<ResolvedSubstance>, code: Seq<char>, upto: int) -> Option<
    Parts,
>
    decreases upto,
{
    if upto <= 0 || upto > resolved.len() {
        Some(Parts { mantissa: 0, scale: 0 })
    } else {
        match code_sum(resolved, code, upto - 1) {
            Some(before) => if counts(resolved[upto - 1], code) {
                sum(before, resolved[upto - 1].concentration_pct@)
            } else {
                Some(before)
            },
            None => None,
        }
    }
}

/// The contributions under a code of the first `upto` substances: one for
/// each substance that counts under it. With `aggregate` given, all share
/// that outcome; without, each triggers where its own concentration
/// reaches the threshold.
pub open spec fn code_contributions(
    resolved: Seq<ResolvedSubstance>,
    code: Seq<char>,
    threshold: Parts,
    aggregate: Option<bool>,
    upto: int,
) -> Seq<ContributionView>
    decreases upto,
{
    if upto <= 0 || upto > resolved.len() {
        Seq::empty()
    } else {
        let before = code_contributions(resolved, code, threshold, aggregate, upto - 1);
        let r = resolved[upto - 1];
        if counts(r, code) {
            before.push(
                contribution(
                    r,
                    code,
                    r.concentration_pct@,
                    threshold,
                    match aggregate {
                        Some(t) => t,
                        None => r.concentration_pct@.ge(threshold),
                    },
                ),
            )
        } else {
            before
        }
    }
}

/// A limit that each substance is held to on its own.
pub struct LimitCheck {
    /// The hazard code, or the beginning of it where `prefix` is set.
    pub code: String,
    pub prefix: bool,
    /// The generic limit in percent by weight.
    pub threshold: Decimal,
    /// Whether a specific concentration limit for reproductive toxicity of
    /// category 1A, or else 1B, replaces the generic limit.
    pub specific: bool,
}

/// A limit check by its contents.
pub struct LimitSpec {
    pub code: Seq<char>,
    pub prefix: bool,
    pub threshold: Parts,
    pub specific: bool,
}

impl View for LimitCheck {
    type V = LimitSpec;

    open spec fn view(&self) -> LimitSpec {
        LimitSpec {
            code: self.code@,
            prefix: self.prefix,
            threshold: self.threshold@,
            specific: self.specific,
        }
    }
}

/// The contents of each check.
pub open spec fn limit_views(v: Seq<LimitCheck>) -> Seq<LimitSpec> {
    v.map_values(|c: LimitCheck| c@)
}

/// The limit that a check holds a substance to.
pub open spec fn limit_for(check: LimitSpec, r: ResolvedSubstance) -> Parts {
    if check.specific {
        match r.clp.limit_of("Repr.1A"@) {
            Some(l) => l@,
            None => match r.clp.limit_of("Repr.1B"@) {
                Some(l) => l@,
                None => check.threshold,
            },
        }
    } else {
        check.threshold
    }
}

/// The contributions of the first `substances` substances under all
/// checks, and of the next substance under the first `checks` checks, by
/// substance and then by check. A substance contributes under a check
/// where it was measured and its compound has a classification that the
/// check's code matches; the contribution names the code of the first such
/// classification.
pub open spec fn limit_contributions(
    resolved: Seq<ResolvedSubstance>,
    list: Seq<LimitSpec>,
    substances: int,
    checks: int,
) -> Seq<ContributionView>
    decreases substances, checks,
{
    if substances < 0 || checks < 0 || substances > resolved.len() || checks > list.len() {
        Seq::empty()
    } else if checks > 0 {
        let before = limit_contributions(resolved, list, substances, checks - 1);
        if substances >= resolved.len() {
            before
        } else {
            let r = resolved[substances];
            let check = list[checks - 1];
            match first_class(r.clp.hazard_classes@, check.code, check.prefix, 0) {
                Some(k) => if r.below_detection {
                    before
                } else {
                    before.push(
                        contribution(
                            r,
                            r.clp.hazard_classes[k].h_code@,
                            r.concentration_pct@,
                            limit_for(check, r),
                            r.concentration_pct@.ge(limit_for(check, r)),
                        ),
                    )
                },
                None => before,
            }
        }
    } else if substances > 0 {
        limit_contributions(resolved, list, substances - 1, list.len() as int)
    } else {
        Seq::empty()
    }
}

/// The contribution of a substance under a code.
fn contribution_for(
    r: &ResolvedSubstance,
    h_code: &str,
    concentration: Decimal,
    threshold: Decimal,
    triggers: bool,
) -> (c: HpSubstanceContribution)
    ensures
        c@ == contribution(*r, h_code@, concentration@, threshold@, triggers),
{
    HpSubstanceContribution {
        substance: r.row.normalized_name.clone(),
        compound: r.compound_name.clone(),
        h_code: String::from_str(h_code),
        concentration_pct: concentration,
        threshold_pct: Some(threshold),
        triggers,
    }
}

/// The sum of the concentrations of the substances that count under a
/// code.
pub fn sum_for_code(resolved: &[ResolvedSubstance], code: &str) -> (r: Option<Decimal>)
    ensures
        crate::decimal::view_of(r) == code_sum(resolved@, code@, resolved.len() as int),
{
    let mut total = Decimal::zero();
    let mut k: usize = 0;
    while k < resolved.len()
        invariant
            k <= resolved.len(),
            Some(total@) == code_sum(resolved@, code@, k as int),
        decreases resolved.len() - k,
    {
        if !resolved[k].below_detection && resolved[k].clp.has_h_code(code) {
            match total.checked_add(&resolved[k].concentration_pct) {
                Some(next) => {
                    total = next;
                },
                None => {
                    proof {
                        lemma_code_sum_stays_none(resolved@, code@, k + 1, resolved.len() as int);
                    }
                    return None;
                },
            }
        }
        k += 1;
    }
    Some(total)
}

/// Once a partial sum cannot be represented, no later one can.
pub proof fn lemma_code_sum_stays_none(
    resolved: Seq<ResolvedSubstance>,
    code: Seq<char>,
    at: int,
    upto: int,
)
    requires
        0 <= at <= upto <= resolved.len(),
        code_sum(resolved, code, at) is None,
    ensures
        code_sum(resolved, code, upto) is None,
    decreases upto - at,
{
    if at < upto {
        lemma_code_sum_stays_none(resolved, code, at, upto - 1);
    }
}

/// Appends the contributions under a code; tells whether one of them
/// triggers.
fn push_code_contributions(
    out: &mut Vec<HpSubstanceContribution>,
    resolved: &[ResolvedSubstance],
    code: &str,
    threshold: Decimal,
    aggregate: Option<bool>,
) -> (any: bool)
    ensures
        contribution_views(final(out)@) == contribution_views(old(out)@) + code_contributions(
            resolved@,
            code@,
            threshold@,
            aggregate,
            resolved.len() as int,
        ),
        any == any_triggers(
            code_contributions(resolved@, code@, threshold@, aggregate, resolved.len() as int),
        ),
{
    let mut any = false;
    let mut k: usize = 0;
    let ghost start = contribution_views(out@);
    assert(contribution_views(out@) =~= start + Seq::empty());
    while k < resolved.len()
        invariant
            k <= resolved.len(),
            contribution_views(out@) == start + code_contributions(
                resolved@,
                code@,
                threshold@,
                aggregate,
                k as int,
            ),
            any == any_triggers(
                code_contributions(resolved@, code@, threshold@, aggregate, k as int),
            ),
        decreases resolved.len() - k,
    {
        let ghost before = code_contributions(resolved@, code@, threshold@, aggregate, k as int);
        let ghost views_before = contribution_views(out@);
        if !resolved[k].below_detection && resolved[k].clp.has_h_code(code) {
            let triggers = match aggregate {
                Some(t) => t,
                None => resolved[k].concentration_pct.ge(&threshold),
            };
            let c = contribution_for(
                &resolved[k],
                code,
                resolved[k].concentration_pct,
                threshold,
                triggers,
            );
            out.push(c);
            proof {
                let after = code_contributions(resolved@, code@, threshold@, aggregate, k + 1);
                assert(after == before.push(c@));
                assert(contribution_views(out@) =~= views_before.push(c@));
                assert(contribution_views(out@) =~= start + after);
                if triggers {
                    assert(after[before.len() as int].triggers);
                }
                if any {
                    let w = choose|w: int| 0 <= w < before.len() && (#[trigger] before[w]).triggers;
                    assert(after[w].triggers);
                }
                if any_triggers(after) && !triggers {
                    let w = choose|w: int| 0 <= w < after.len() && (#[trigger] after[w]).triggers;
                    assert(before[w].triggers);
                }
            }
            any = any || triggers;
        }
        k += 1;
    }
    any
}

/// The limit that a check holds a substance to.
fn limit_of_check(check: &LimitCheck, r: &ResolvedSubstance) -> (limit: Decimal)
    ensures
        limit@ == limit_for(check@, *r),
{
    proof {
        reveal_strlit("Repr.");
        reveal_strlit("1A");
        reveal_strlit("1B");
        reveal_strlit("Repr.1A");
        reveal_strlit("Repr.1B");
        assert("Repr."@ + "1A"@ =~= "Repr.1A"@);
        assert("Repr."@ + "1B"@ =~= "Repr.1B"@);
    }
    if check.specific {
        match get_scl_for_repr(r, "1A") {
            Some(l) => l,
            None => match get_scl_for_repr(r, "1B") {
                Some(l) => l,
                None => check.threshold,
            },
        }
    } else {
        check.threshold
    }
}

/// The specific concentration limit of a compound for reproductive
/// toxicity of the given category.
fn get_scl_for_repr(r: &ResolvedSubstance, category: &str) -> (limit: Option<Decimal>)
    ensures
        limit == r.clp.limit_of("Repr."@ + category@),
{
    let mut key = String::from_str("Repr.");
    key.append(category);
    r.clp.specific_limit(key.as_str())
}

/// A criterion made of limits that each substance is held to on its own:
/// it triggers where some substance reaches one of its limits.
pub open spec fn limit_criterion(
    resolved: Seq<ResolvedSubstance>,
    limits: Seq<LimitSpec>,
    hp_id: Seq<char>,
    hp_name: Seq<char>,
    triggered_reason: Seq<char>,
    clear_reason: Seq<char>,
) -> CriterionView {
    let contributions = limit_contributions(resolved, limits, resolved.len() as int, 0);
    CriterionView {
        hp_id,
        hp_name,
        triggered: any_triggers(contributions),
        reason: if any_triggers(contributions) {
            triggered_reason
        } else {
            clear_reason
        },
        contributions,
    }
}

/// Evaluates a criterion made of limits that each substance is held to on
/// its own.
pub fn evaluate_limits(
    resolved: &[ResolvedSubstance],
    checks: &Vec<LimitCheck>,
    hp_id: &str,
    hp_name: &str,
    triggered_reason: &str,
    clear_reason: &str,
) -> (r: HpCriterionDetail)
    ensures
        r@ == limit_criterion(
            resolved@,
            limit_views(checks@),
            hp_id@,
            hp_name@,
            triggered_reason@,
            clear_reason@,
        ),
{
    let mut contributions: Vec<HpSubstanceContribution> = Vec::new();
    let mut triggered = false;
    let ghost list = limit_views(checks@);
    let mut i: usize = 0;
    assert(contribution_views(contributions@) =~= Seq::empty());
    while i < resolved.len()
        invariant
            i <= resolved.len(),
            list == limit_views(checks@),
            contribution_views(contributions@) == limit_contributions(
                resolved@,
                list,
                i as int,
                0,
            ),
            triggered == any_triggers(contribution_views(contributions@)),
        decreases resolved.len() - i,
    {
        let r = &resolved[i];
        let mut j: usize = 0;
        while j < checks.len()
            invariant
                i < resolved.len(),
                j <= checks.len(),
                *r == resolved@[i as int],
                list == limit_views(checks@),
                contribution_views(contributions@) == limit_contributions(
                    resolved@,
                    list,
                    i as int,
                    j as int,
                ),
                triggered == any_triggers(contribution_views(contributions@)),
            decreases checks.len() - j,
        {
            let check = &checks[j];
            assert(list[j as int] == check@);
            if !r.below_detection {
                match r.clp.find_class(check.code.as_str(), check.prefix) {
                    Some(k) => {
                        let limit = limit_of_check(check, r);
                        let triggers = r.concentration_pct.ge(&limit);
                        let c = contribution_for(
                            r,
                            r.clp.hazard_classes[k].h_code.as_str(),
                            r.concentration_pct,
                            limit,
                            triggers,
                        );
                        let ghost before = contribution_views(contributions@);
                        contributions.push(c);
                        proof {
                            let after = contribution_views(contributions@);
                            assert(after =~= before.push(c@));
                            if triggers {
                                assert(after[before.len() as int].triggers);
                            }
                            if triggered {
                                let w = choose|w: int|
                                    0 <= w < before.len() && (#[trigger] before[w]).triggers;
                                assert(after[w].triggers);
                            }
                            if any_triggers(after) && !triggers {
                                let w = choose|w: int|
                                    0 <= w < after.len() && (#[trigger] after[w]).triggers;
                                assert(before[w].triggers);
                            }
                        }
                        triggered = triggered || triggers;
                    },
                    None => {},
                }
            }
            j += 1;
        }
        i += 1;
    }
    let reason = if triggered {
        String::from_str(triggered_reason)
    } else {
        String::from_str(clear_reason)
    };
    HpCriterionDetail {
        hp_id: String::from_str(hp_id),
        hp_name: String::from_str(hp_name),
        triggered,
        reason,
        contributions,
    }
}

/// A limit check.
fn limit(code: &str, prefix: bool, mantissa: i64, specific: bool) -> (c: LimitCheck)
    ensures
        c@ == (LimitSpec {
            code: code@,
            prefix,
            threshold: Parts { mantissa: mantissa as int, scale: 1 },
            specific,
        }),
{
    LimitCheck { code: String::from_str(code), prefix, threshold: Decimal::new(mantissa, 1), specific }
}

/// Two limit checks, in order.
fn limits(first: LimitCheck, second: LimitCheck) -> (v: Vec<LimitCheck>)
    ensures
        limit_views(v@) == seq![first@, second@],
{
    let mut v: Vec<LimitCheck> = Vec::new();
    v.push(first);
    v.push(second);
    assert(limit_views(v@) =~= seq![first@, second@]);
    v
}

/// The limits of the carcinogenic criterion: 0.1 % for a code that begins
/// with H350, 1.0 % for H351.
pub open spec fn hp7_limits() -> Seq<LimitSpec> {
    seq![
        LimitSpec {
            code: "H350"@,
            prefix: true,
            threshold: Parts { mantissa: 1, scale: 1 },
            specific: false,
        },
        LimitSpec {
            code: "H351"@,
            prefix: false,
            threshold: Parts { mantissa: 10, scale: 1 },
            specific: false,
        },
    ]
}

/// HP7, carcinogenic.
pub open spec fn hp7(resolved: Seq<ResolvedSubstance>) -> CriterionView {
    limit_criterion(
        resolved,
        hp7_limits(),
        "HP7"@,
        "Carcinogenic"@,
        "One or more substances exceed individual carcinogenic concentration limits"@,
        "No substances exceed carcinogenic concentration limits"@,
    )
}

/// HP7, carcinogenic: a substance triggers it at 0.1 % where its compound
/// carries a code that begins with H350, and at 1.0 % where it carries
/// H351.
pub fn evaluate_hp7(resolved: &[ResolvedSubstance]) -> (r: HpCriterionDetail)
    ensures
        r@ == hp7(resolved@),
{
    let checks = limits(limit("H350", true, 1, false), limit("H351", false, 10, false));
    evaluate_limits(
        resolved,
        &checks,
        "HP7",
        "Carcinogenic",
        "One or more substances exceed individual carcinogenic concentration limits",
        "No substances exceed carcinogenic concentration limits",
    )
}

/// The limits of the mutagenic criterion: 0.1 % for H340, 1.0 % for H341.
pub open spec fn hp11_limits() -> Seq<LimitSpec> {
    seq![
        LimitSpec {
            code: "H340"@,
            prefix: false,
            threshold: Parts { mantissa: 1, scale: 1 },
            specific: false,
        },
        LimitSpec {
            code: "H341"@,
            prefix: false,
            threshold: Parts { mantissa: 10, scale: 1 },
            specific: false,
        },
    ]
}

/// HP11, mutagenic.
pub open spec fn hp11(resolved: Seq<ResolvedSubstance>) -> CriterionView {
    limit_criterion(
        resolved,
        hp11_limits(),
        "HP11"@,
        "Mutagenic"@,
        "One or more substances exceed individual mutagenic concentration limits"@,
        "No substances exceed mutagenic concentration limits"@,
    )
}

/// HP11, mutagenic: a substance triggers it at 0.1 % where its compound
/// carries H340, and at 1.0 % where it carries H341.
pub fn evaluate_hp11(resolved: &[ResolvedSubstance]) -> (r: HpCriterionDetail)
    ensures
        r@ == hp11(resolved@),
{
    let checks = limits(limit("H340", false, 1, false), limit("H341", false, 10, false));
    evaluate_limits(
        resolved,
        &checks,
        "HP11",
        "Mutagenic",
        "One or more substances exceed individual mutagenic concentration limits",
        "No substances exceed mutagenic concentration limits",
    )
}

/// The limits of the criterion for reproductive toxicity: 0.3 % for a
/// code that begins with H360, unless the compound has a specific limit,
/// and 0.3 % for a code that begins with H361.
pub open spec fn hp10_limits() -> Seq<LimitSpec> {
    seq![
        LimitSpec {
            code: "H360"@,
            prefix: true,
            threshold: Parts { mantissa: 3, scale: 1 },
            specific: true,
        },
        LimitSpec {
            code: "H361"@,
            prefix: true,
            threshold: Parts { mantissa: 3, scale: 1 },
            specific: false,
        },
    ]
}

/// HP10, toxic for reproduction.
pub open spec fn hp10(resolved: Seq<ResolvedSubstance>) -> CriterionView {
    limit_criterion(
        resolved,
        hp10_limits(),
        "HP10"@,
        "Toxic for reproduction"@,
        "One or more substances exceed reproductive toxicity concentration limits"@,
        "No substances exceed reproductive toxicity concentration limits"@,
    )
}

/// HP10, toxic for reproduction: a substance triggers it at 0.3 % where
/// its compound carries a code that begins with H360 or H361. For H360 a
/// specific concentration limit of the compound, for category 1A or else
/// 1B, replaces the 0.3 %.
pub fn evaluate_hp10(resolved: &[ResolvedSubstance]) -> (r: HpCriterionDetail)
    ensures
        r@ == hp10(resolved@),
{
    let checks = limits(limit("H360", true, 3, true), limit("H361", true, 3, false));
    evaluate_limits(
        resolved,
        &checks,
        "HP10",
        "Toxic for reproduction",
        "One or more substances exceed reproductive toxicity concentration limits",
        "No substances exceed reproductive toxicity concentration limits",
    )
}

/// Among the contributions of two lists, one triggers as soon as one of
/// either list does.
pub proof fn lemma_any_triggers_concat(a: Seq<ContributionView>, b: Seq<ContributionView>)
    ensures
        any_triggers(a + b) == (any_triggers(a) || any_triggers(b)),
{
    if any_triggers(a) {
        let w = choose|w: int| 0 <= w < a.len() && (#[trigger] a[w]).triggers;
        assert((a + b)[w].triggers);
    }
    if any_triggers(b) {
        let w = choose|w: int| 0 <= w < b.len() && (#[trigger] b[w]).triggers;
        assert((a + b)[a.len() + w].triggers);
    }
    if any_triggers(a + b) {
        let w = choose|w: int| 0 <= w < (a + b).len() && (#[trigger] (a + b)[w]).triggers;
        if w < a.len() {
            assert(a[w].triggers);
        } else {
            assert(b[w - a.len()].triggers);
        }
    }
}

/// The limit of the sensitising criterion: 10 %.
pub open spec fn hp13_limit() -> Parts {
    Parts { mantissa: 100, scale: 1 }
}

/// HP13, sensitising.
pub open spec fn hp13(resolved: Seq<ResolvedSubstance>) -> CriterionView {
    let contributions = code_contributions(
        resolved,
        "H317"@,
        hp13_limit(),
        None,
        resolved.len() as int,
    ) + code_contributions(resolved, "H334"@, hp13_limit(), None, resolved.len() as int);
    CriterionView {
        hp_id: "HP13"@,
        hp_name: "Sensitising"@,
        triggered: any_triggers(contributions),
        reason: if any_triggers(contributions) {
            "Sensitising threshold exceeded"@
        } else {
            "Sensitising thresholds not exceeded"@
        },
        contributions,
    }
}

/// HP13, sensitising: a substance triggers it at 10 % where its compound
/// carries H317 or H334. The contributions under H317 come first.
pub fn evaluate_hp13(resolved: &[ResolvedSubstance]) -> (r: HpCriterionDetail)
    ensures
        r@ == hp13(resolved@),
{
    let threshold = Decimal::new(100, 1);
    let mut contributions: Vec<HpSubstanceContribution> = Vec::new();
    assert(contribution_views(contributions@) =~= Seq::empty());
    let skin = push_code_contributions(&mut contributions, resolved, "H317", threshold, None);
    let airways = push_code_contributions(&mut contributions, resolved, "H334", threshold, None);
    let triggered = skin || airways;
    proof {
        let a = code_contributions(resolved@, "H317"@, hp13_limit(), None, resolved.len() as int);
        let b = code_contributions(resolved@, "H334"@, hp13_limit(), None, resolved.len() as int);
        lemma_any_triggers_concat(a, b);
        assert(contribution_views(contributions@) =~= a + b);
    }
    let reason = if triggered {
        String::from_str("Sensitising threshold exceeded")
    } else {
        String::from_str("Sensitising thresholds not exceeded")
    };
    HpCriterionDetail {
        hp_id: String::from_str("HP13"),
        hp_name: String::from_str("Sensitising"),
        triggered,
        reason,
        contributions,
    }
}

/// A limit that the summed concentrations under a code are held to.
pub struct SumCheck {
    pub code: String,
    /// The limit in percent by weight.
    pub threshold: Decimal,
}

/// A summation check by its contents.
pub struct SumSpec {
    pub code: Seq<char>,
    pub threshold: Parts,
}

impl View for SumCheck {
    type V = SumSpec;

    open spec fn view(&self) -> SumSpec {
        SumSpec { code: self.code@, threshold: self.threshold@ }
    }
}

/// The contents of each check.
pub open spec fn sum_views(v: Seq<SumCheck>) -> Seq<SumSpec> {
    v.map_values(|c: SumCheck| c@)
}

/// The sums of the first `upto` checks can all be represented.
pub open spec fn sums_defined(resolved: Seq<ResolvedSubstance>, list: Seq<SumSpec>, upto: int) -> bool {
    forall|k: int|
        0 <= k < upto && k < list.len() ==> code_sum(
            resolved,
            (#[trigger] list[k]).code,
            resolved.len() as int,
        ) is Some
}

/// Whether the summed concentrations under the code of a check reach its
/// limit.
pub open spec fn sum_reaches(resolved: Seq<ResolvedSubstance>, check: SumSpec) -> bool {
    match code_sum(resolved, check.code, resolved.len() as int) {
        Some(total) => total.ge(check.threshold),
        None => false,
    }
}

/// Whether the sum of one of the first `upto` checks reaches its limit.
pub open spec fn any_sum_reaches(
    resolved: Seq<ResolvedSubstance>,
    list: Seq<SumSpec>,
    upto: int,
) -> bool {
    exists|k: int| 0 <= k < upto && k < list.len() && sum_reaches(resolved, #[trigger] list[k])
}

/// The contributions under the first `upto` checks, check by check: all
/// substances that count under the code of a check share the outcome of
/// its sum.
pub open spec fn sum_contributions(
    resolved: Seq<ResolvedSubstance>,
    list: Seq<SumSpec>,
    upto: int,
) -> Seq<ContributionView>
    decreases upto,
{
    if upto <= 0 || upto > list.len() {
        Seq::empty()
    } else {
        sum_contributions(resolved, list, upto - 1) + code_contributions(
            resolved,
            list[upto - 1].code,
            list[upto - 1].threshold,
            Some(sum_reaches(resolved, list[upto - 1])),
            resolved.len() as int,
        )
    }
}

/// The sum under a code, written with four fractional digits.
pub open spec fn sum_text(resolved: Seq<ResolvedSubstance>, code: Seq<char>) -> Seq<char> {
    code_sum(resolved, code, resolved.len() as int)->0.text_fixed(4)
}

/// What is said of a check whose sum reaches its limit.
pub open spec fn sum_detail(resolved: Seq<ResolvedSubstance>, check: SumSpec) -> Seq<char> {
    check.code + " sum "@ + sum_text(resolved, check.code) + "% >= "@ + check.threshold.text()
        + "%"@
}

/// What is said of those of the first `upto` checks whose sum reaches its
/// limit.
pub open spec fn sum_details(
    resolved: Seq<ResolvedSubstance>,
    list: Seq<SumSpec>,
    upto: int,
) -> Seq<Seq<char>>
    decreases upto,
{
    if upto <= 0 || upto > list.len() {
        Seq::empty()
    } else if sum_reaches(resolved, list[upto - 1]) {
        sum_details(resolved, list, upto - 1).push(sum_detail(resolved, list[upto - 1]))
    } else {
        sum_details(resolved, list, upto - 1)
    }
}

/// Whether a number can be written with the four fractional digits that
/// explanations give sums and concentrations with: it has at most 27
/// digits before the point.
pub open spec fn writable(p: Parts) -> bool {
    p.fits_fixed(4)
}

/// The sum of each of the first `upto` checks that reaches its limit can
/// be written out.
pub open spec fn details_writable(
    resolved: Seq<ResolvedSubstance>,
    list: Seq<SumSpec>,
    upto: int,
) -> bool {
    forall|k: int|
        0 <= k < upto && k < list.len() && sum_reaches(resolved, #[trigger] list[k]) ==> writable(
            code_sum(resolved, list[k].code, resolved.len() as int)->0,
        )
}

/// Evaluates summation checks: the contributions, whether a sum reaches
/// its limit, and, where `with_details` is set, what is said of each that
/// does. `None` where a sum is too large to represent, or to be written
/// out where that is asked for.
pub fn evaluate_sums(resolved: &[ResolvedSubstance], checks: &Vec<SumCheck>, with_details: bool) -> (r:
    Option<(Vec<HpSubstanceContribution>, bool, Vec<String>)>)
    ensures
        match r {
            Some((contributions, any, details)) => {
                &&& sums_defined(resolved@, sum_views(checks@), checks.len() as int)
                &&& with_details ==> details_writable(
                    resolved@,
                    sum_views(checks@),
                    checks.len() as int,
                )
                &&& contribution_views(contributions@) == sum_contributions(
                    resolved@,
                    sum_views(checks@),
                    checks.len() as int,
                )
                &&& any == any_sum_reaches(resolved@, sum_views(checks@), checks.len() as int)
                &&& texts(details@) == if with_details {
                    sum_details(resolved@, sum_views(checks@), checks.len() as int)
                } else {
                    Seq::empty()
                }
            },
            None => !sums_defined(resolved@, sum_views(checks@), checks.len() as int) || (
            with_details && !details_writable(
                resolved@,
                sum_views(checks@),
                checks.len() as int,
            )),
        },
{
    let mut contributions: Vec<HpSubstanceContribution> = Vec::new();
    let mut details: Vec<String> = Vec::new();
    let mut any = false;
    let ghost list = sum_views(checks@);
    let mut j: usize = 0;
    assert(contribution_views(contributions@) =~= Seq::empty());
    assert(texts(details@) =~= Seq::empty());
    while j < checks.len()
        invariant
            j <= checks.len(),
            list == sum_views(checks@),
            sums_defined(resolved@, list, j as int),
            contribution_views(contributions@) == sum_contributions(resolved@, list, j as int),
            any == any_sum_reaches(resolved@, list, j as int),
            with_details ==> details_writable(resolved@, list, j as int),
            texts(details@) == if with_details {
                sum_details(resolved@, list, j as int)
            } else {
                Seq::empty()
            },
        decreases checks.len() - j,
    {
        let check = &checks[j];
        assert(list[j as int] == check@);
        match sum_for_code(resolved, check.code.as_str()) {
            Some(total) => {
                let reaches = total.ge(&check.threshold);
                if reaches && with_details {
                    let written = match total.try_text_fixed(4) {
                        Some(text) => text,
                        None => {
                            return None;
                        },
                    };
                    let mut detail = check.code.clone();
                    detail.append(" sum ");
                    detail.append(written.as_str());
                    detail.append("% >= ");
                    detail.append(check.threshold.to_text().as_str());
                    detail.append("%");
                    let ghost before = texts(details@);
                    details.push(detail);
                    assert(texts(details@) =~= before.push(detail@));
                }
                push_code_contributions(
                    &mut contributions,
                    resolved,
                    check.code.as_str(),
                    check.threshold,
                    Some(reaches),
                );
                any = any || reaches;
            },
            None => {
                return None;
            },
        }
        j += 1;
    }
    Some((contributions, any, details))
}

/// A summation check with a limit of `tenths` tenths of a percent.
fn sum_check(code: &str, tenths: i64) -> (c: SumCheck)
    ensures
        c@ == (SumSpec { code: code@, threshold: Parts { mantissa: tenths as int, scale: 1 } }),
{
    SumCheck { code: String::from_str(code), threshold: Decimal::new(tenths, 1) }
}

/// The sums of the irritant criterion: 20 % under H315 and under H319.
pub open spec fn hp4_sums() -> Seq<SumSpec> {
    seq![
        SumSpec { code: "H315"@, threshold: Parts { mantissa: 200, scale: 1 } },
        SumSpec { code: "H319"@, threshold: Parts { mantissa: 200, scale: 1 } },
    ]
}

/// HP4, irritant.
pub open spec fn hp4(resolved: Seq<ResolvedSubstance>) -> Option<CriterionView> {
    if sums_defined(resolved, hp4_sums(), 2) {
        Some(
            CriterionView {
                hp_id: "HP4"@,
                hp_name: "Irritant"@,
                triggered: any_sum_reaches(resolved, hp4_sums(), 2),
                reason: if any_sum_reaches(resolved, hp4_sums(), 2) {
                    "Irritant summation threshold exceeded"@
                } else {
                    "Irritant summation thresholds not exceeded"@
                },
                contributions: sum_contributions(resolved, hp4_sums(), 2),
            },
        )
    } else {
        None
    }
}

/// HP4, irritant: triggered where the concentrations under H315, or those
/// under H319, add up to 20 %. `None` where a sum is too large to
/// represent.
pub fn evaluate_hp4(resolved: &[ResolvedSubstance]) -> (r: Option<HpCriterionDetail>)
    ensures
        criterion_of(r) == hp4(resolved@),
{
    let mut checks: Vec<SumCheck> = Vec::new();
    checks.push(sum_check("H315", 200));
    checks.push(sum_check("H319", 200));
    assert(sum_views(checks@) =~= hp4_sums());
    match evaluate_sums(resolved, &checks, false) {
        Some((contributions, triggered, _)) => {
            let reason = if triggered {
                String::from_str("Irritant summation threshold exceeded")
            } else {
                String::from_str("Irritant summation thresholds not exceeded")
            };
            Some(
                HpCriterionDetail {
                    hp_id: String::from_str("HP4"),
                    hp_name: String::from_str("Irritant"),
                    triggered,
                    reason,
                    contributions,
                },
            )
        },
        None => None,
    }
}

/// The contents of an optional evaluation.
pub open spec fn criterion_of(r: Option<HpCriterionDetail>) -> Option<CriterionView> {
    match r {
        Some(c) => Some(c@),
        None => None,
    }
}

/// The sums of the criterion for acute toxicity: for each of the routes
/// oral, dermal and inhalation, 0.1 %, 5 % and 25 % by severity.
pub open spec fn hp6_sums() -> Seq<SumSpec> {
    seq![
        SumSpec { code: "H300"@, threshold: Parts { mantissa: 1, scale: 1 } },
        SumSpec { code: "H301"@, threshold: Parts { mantissa: 50, scale: 1 } },
        SumSpec { code: "H302"@, threshold: Parts { mantissa: 250, scale: 1 } },
        SumSpec { code: "H310"@, threshold: Parts { mantissa: 1, scale: 1 } },
        SumSpec { code: "H311"@, threshold: Parts { mantissa: 50, scale: 1 } },
        SumSpec { code: "H312"@, threshold: Parts { mantissa: 250, scale: 1 } },
        SumSpec { code: "H330"@, threshold: Parts { mantissa: 1, scale: 1 } },
        SumSpec { code: "H331"@, threshold: Parts { mantissa: 50, scale: 1 } },
        SumSpec { code: "H332"@, threshold: Parts { mantissa: 250, scale: 1 } },
    ]
}

/// HP6, acute toxicity.
pub open spec fn hp6(resolved: Seq<ResolvedSubstance>) -> Option<CriterionView> {
    if sums_defined(resolved, hp6_sums(), 9) && details_writable(resolved, hp6_sums(), 9) {
        Some(
            CriterionView {
                hp_id: "HP6"@,
                hp_name: "Acute Toxicity"@,
                triggered: any_sum_reaches(resolved, hp6_sums(), 9),
                reason: if any_sum_reaches(resolved, hp6_sums(), 9) {
                    "Acute toxicity triggered: "@ + joined(
                        sum_details(resolved, hp6_sums(), 9),
                        "; "@,
                    )
                } else {
                    "No acute toxicity summation thresholds exceeded"@
                },
                contributions: sum_contributions(resolved, hp6_sums(), 9),
            },
        )
    } else {
        None
    }
}

/// HP6, acute toxicity: nine sums, one for each pair of severity and
/// route; any of them triggers the criterion. `None` where a sum is too
/// large to represent, or a sum that reaches its limit is too large to be
/// written out.
pub fn evaluate_hp6(resolved: &[ResolvedSubstance]) -> (r: Option<HpCriterionDetail>)
    ensures
        criterion_of(r) == hp6(resolved@),
{
    let mut checks: Vec<SumCheck> = Vec::new();
    checks.push(sum_check("H300", 1));
    checks.push(sum_check("H301", 50));
    checks.push(sum_check("H302", 250));
    checks.push(sum_check("H310", 1));
    checks.push(sum_check("H311", 50));
    checks.push(sum_check("H312", 250));
    checks.push(sum_check("H330", 1));
    checks.push(sum_check("H331", 50));
    checks.push(sum_check("H332", 250));
    assert(sum_views(checks@) =~= hp6_sums());
    match evaluate_sums(resolved, &checks, true) {
        Some((contributions, triggered, details)) => {
            let reason = if triggered {
                let mut text = String::from_str("Acute toxicity triggered: ");
                text.append(crate::text::join(&details, "; ").as_str());
                text
            } else {
                String::from_str("No acute toxicity summation thresholds exceeded")
            };
            Some(
                HpCriterionDetail {
                    hp_id: String::from_str("HP6"),
                    hp_name: String::from_str("Acute Toxicity"),
                    triggered,
                    reason,
                    contributions,
                },
            )
        },
        None => None,
    }
}

/// The sum of the corrosive criterion: 5 % under H314.
pub open spec fn hp8_sums() -> Seq<SumSpec> {
    seq![SumSpec { code: "H314"@, threshold: Parts { mantissa: 50, scale: 1 } }]
}

/// HP8, corrosive.
pub open spec fn hp8(resolved: Seq<ResolvedSubstance>) -> Option<CriterionView> {
    if sums_defined(resolved, hp8_sums(), 1) && writable(
        code_sum(resolved, "H314"@, resolved.len() as int)->0,
    ) {
        Some(
            CriterionView {
                hp_id: "HP8"@,
                hp_name: "Corrosive"@,
                triggered: any_sum_reaches(resolved, hp8_sums(), 1),
                reason: if any_sum_reaches(resolved, hp8_sums(), 1) {
                    "Corrosive: H314 sum "@ + sum_text(resolved, "H314"@) + "% >= "@
                        + hp8_sums()[0].threshold.text() + "%"@
                } else {
                    "Corrosive not triggered: H314 sum "@ + sum_text(resolved, "H314"@)
                        + "% < "@ + hp8_sums()[0].threshold.text() + "%"@
                },
                contributions: sum_contributions(resolved, hp8_sums(), 1),
            },
        )
    } else {
        None
    }
}

/// HP8, corrosive: triggered where the concentrations under H314 add up
/// to 5 %. `None` where the sum is too large to represent or to be
/// written out.
pub fn evaluate_hp8(resolved: &[ResolvedSubstance]) -> (r: Option<HpCriterionDetail>)
    ensures
        criterion_of(r) == hp8(resolved@),
{
    let mut checks: Vec<SumCheck> = Vec::new();
    checks.push(sum_check("H314", 50));
    assert(sum_views(checks@) =~= hp8_sums());
    match evaluate_sums(resolved, &checks, false) {
        Some((contributions, triggered, _)) => {
            assert(hp8_sums()[0] == checks@[0]@);
            let total = sum_for_code(resolved, "H314");
            let threshold = Decimal::new(50, 1);
            let written = match total {
                Some(total) => total.try_text_fixed(4),
                None => None,
            };
            match written {
                Some(written) => {
                    let mut reason = if triggered {
                        String::from_str("Corrosive: H314 sum ")
                    } else {
                        String::from_str("Corrosive not triggered: H314 sum ")
                    };
                    reason.append(written.as_str());
                    if triggered {
                        reason.append("% >= ");
                    } else {
                        reason.append("% < ");
                    }
                    reason.append(threshold.to_text().as_str());
                    reason.append("%");
                    Some(
                        HpCriterionDetail {
                            hp_id: String::from_str("HP8"),
                            hp_name: String::from_str("Corrosive"),
                            triggered,
                            reason,
                            contributions,
                        },
                    )
                },
                None => None,
            }
        },
        None => None,
    }
}

/// The sums of the criterion for specific target organ toxicity: 1 %
/// under H372, 10 % under H373.
pub open spec fn hp5_sums() -> Seq<SumSpec> {
    seq![
        SumSpec { code: "H372"@, threshold: Parts { mantissa: 10, scale: 1 } },
        SumSpec { code: "H373"@, threshold: Parts { mantissa: 100, scale: 1 } },
    ]
}

/// The contributions of the substances that are held on their own to 1 %
/// under H370 and to 10 % under H371.
pub open spec fn hp5_individual(resolved: Seq<ResolvedSubstance>) -> Seq<ContributionView> {
    code_contributions(
        resolved,
        "H370"@,
        Parts { mantissa: 10, scale: 1 },
        None,
        resolved.len() as int,
    ) + code_contributions(
        resolved,
        "H371"@,
        Parts { mantissa: 100, scale: 1 },
        None,
        resolved.len() as int,
    )
}

/// Whether HP5 is triggered, given that its sums can be represented.
pub open spec fn hp5_triggered(resolved: Seq<ResolvedSubstance>) -> bool {
    any_triggers(hp5_individual(resolved)) || any_sum_reaches(resolved, hp5_sums(), 2)
}

/// HP5, specific target organ toxicity.
pub open spec fn hp5(resolved: Seq<ResolvedSubstance>) -> Option<CriterionView> {
    if sums_defined(resolved, hp5_sums(), 2) && writable(
        code_sum(resolved, "H372"@, resolved.len() as int)->0,
    ) && writable(code_sum(resolved, "H373"@, resolved.len() as int)->0) {
        Some(
            CriterionView {
                hp_id: "HP5"@,
                hp_name: "STOT SE/RE"@,
                triggered: hp5_triggered(resolved),
                reason: if hp5_triggered(resolved) {
                    "STOT triggered (H372 sum: "@ + sum_text(resolved, "H372"@) + "% >= "@
                        + hp5_sums()[0].threshold.text() + "%, H373 sum: "@ + sum_text(
                        resolved,
                        "H373"@,
                    ) + "% >= "@ + hp5_sums()[1].threshold.text() + "%)"@
                } else {
                    "STOT not triggered (H372 sum: "@ + sum_text(resolved, "H372"@)
                        + "%, H373 sum: "@ + sum_text(resolved, "H373"@) + "%)"@
                },
                contributions: hp5_individual(resolved) + sum_contributions(
                    resolved,
                    hp5_sums(),
                    2,
                ),
            },
        )
    } else {
        None
    }
}

/// HP5, specific target organ toxicity: a substance triggers it on its
/// own at 1 % under H370 and at 10 % under H371; so do the concentrations
/// under H372 where they add up to 1 %, and those under H373 at 10 %.
/// `None` where a sum is too large to represent or to be written out.
pub fn evaluate_hp5(resolved: &[ResolvedSubstance]) -> (r: Option<HpCriterionDetail>)
    ensures
        criterion_of(r) == hp5(resolved@),
{
    let mut checks: Vec<SumCheck> = Vec::new();
    checks.push(sum_check("H372", 10));
    checks.push(sum_check("H373", 100));
    assert(sum_views(checks@) =~= hp5_sums());
    let mut contributions: Vec<HpSubstanceContribution> = Vec::new();
    assert(contribution_views(contributions@) =~= Seq::empty());
    let single = push_code_contributions(
        &mut contributions,
        resolved,
        "H370",
        Decimal::new(10, 1),
        None,
    );
    let repeated = push_code_contributions(
        &mut contributions,
        resolved,
        "H371",
        Decimal::new(100, 1),
        None,
    );
    proof {
        let a = code_contributions(
            resolved@,
            "H370"@,
            Parts { mantissa: 10, scale: 1 },
            None,
            resolved.len() as int,
        );
        let b = code_contributions(
            resolved@,
            "H371"@,
            Parts { mantissa: 100, scale: 1 },
            None,
            resolved.len() as int,
        );
        lemma_any_triggers_concat(a, b);
        assert(contribution_views(contributions@) =~= hp5_individual(resolved@));
    }
    match evaluate_sums(resolved, &checks, false) {
        Some((mut summed, reached, _)) => {
            let triggered = single || repeated || reached;
            let ghost individual = contribution_views(contributions@);
            let ghost summed_views = contribution_views(summed@);
            contributions.append(&mut summed);
            assert(contribution_views(contributions@) =~= individual + summed_views);
            assert(hp5_sums()[0] == checks@[0]@ && hp5_sums()[1] == checks@[1]@);
            let first = match sum_for_code(resolved, "H372") {
                Some(total) => total.try_text_fixed(4),
                None => None,
            };
            let second = match sum_for_code(resolved, "H373") {
                Some(total) => total.try_text_fixed(4),
                None => None,
            };
            match (first, second) {
                (Some(first), Some(second)) => {
                    let mut reason = if triggered {
                        String::from_str("STOT triggered (H372 sum: ")
                    } else {
                        String::from_str("STOT not triggered (H372 sum: ")
                    };
                    reason.append(first.as_str());
                    if triggered {
                        reason.append("% >= ");
                        reason.append(Decimal::new(10, 1).to_text().as_str());
                    }
                    reason.append("%, H373 sum: ");
                    reason.append(second.as_str());
                    if triggered {
                        reason.append("% >= ");
                        reason.append(Decimal::new(100, 1).to_text().as_str());
                    }
                    reason.append("%)");
                    Some(
                        HpCriterionDetail {
                            hp_id: String::from_str("HP5"),
                            hp_name: String::from_str("STOT SE/RE"),
                            triggered,
                            reason,
                            contributions,
                        },
                    )
                },
                _ => None,
            }
        },
        None => None,
    }
}

/// The multiplier of a substance for acute or for chronic aquatic
/// toxicity; one where its compound has none.
pub open spec fn m_factor(r: ResolvedSubstance, acute: bool) -> Parts {
    let factor = if acute {
        r.clp.m_factors.acute
    } else {
        r.clp.m_factors.chronic
    };
    match factor {
        Some(m) => m@,
        None => Parts { mantissa: 1, scale: 0 },
    }
}

/// The sum over the first `upto` substances that count under a code of
/// concentration times multiplier, added up from zero in their order;
/// `None` where a product or a partial sum is too large to represent.
pub open spec fn weighted_sum(
    resolved: Seq<ResolvedSubstance>,
    code: Seq<char>,
    acute: bool,
    upto: int,
) -> Option<Parts>
    decreases upto,
{
    if upto <= 0 || upto > resolved.len() {
        Some(Parts { mantissa: 0, scale: 0 })
    } else {
        match weighted_sum(resolved, code, acute, upto - 1) {
            Some(before) => if counts(resolved[upto - 1], code) {
                match product(
                    resolved[upto - 1].concentration_pct@,
                    m_factor(resolved[upto - 1], acute),
                ) {
                    Some(weighted) => sum(before, weighted),
                    None => None,
                }
            } else {
                Some(before)
            },
            None => None,
        }
    }
}

/// The limit of both ecotoxic checks: 25 %.
pub open spec fn hp14_limit() -> Parts {
    Parts { mantissa: 250, scale: 1 }
}

/// One hundred.
pub open spec fn hundred() -> Parts {
    Parts { mantissa: 100, scale: 0 }
}

/// The total of the first ecotoxic check: over the substances under H400,
/// concentration times acute multiplier.
pub open spec fn acute_total(resolved: Seq<ResolvedSubstance>) -> Option<Parts> {
    weighted_sum(resolved, "H400"@, true, resolved.len() as int)
}

/// The total of the second ecotoxic check: a hundred times the sum, over
/// the substances under H410, of concentration times chronic multiplier.
pub open spec fn chronic_total(resolved: Seq<ResolvedSubstance>) -> Option<Parts> {
    match weighted_sum(resolved, "H410"@, false, resolved.len() as int) {
        Some(raw) => product(hundred(), raw),
        None => None,
    }
}

/// The weighted concentration that a substance contributes under H410: a
/// hundred times the concentration, times the chronic multiplier.
pub open spec fn chronic_weighted(r: ResolvedSubstance) -> Option<Parts> {
    match product(hundred(), r.concentration_pct@) {
        Some(scaled) => product(scaled, m_factor(r, false)),
        None => None,
    }
}

/// The ecotoxic contributions of the first `upto` substances, substance
/// by substance: under H400 and then under H410, each with its weighted
/// concentration and the outcome of its check.
pub open spec fn hp14_contributions(
    resolved: Seq<ResolvedSubstance>,
    acute_reached: bool,
    chronic_reached: bool,
    upto: int,
) -> Option<Seq<ContributionView>>
    decreases upto,
{
    if upto <= 0 || upto > resolved.len() {
        Some(Seq::empty())
    } else {
        let r = resolved[upto - 1];
        match hp14_contributions(resolved, acute_reached, chronic_reached, upto - 1) {
            Some(before) => {
                let acute: Option<Seq<ContributionView>> = if counts(r, "H400"@) {
                    match product(r.concentration_pct@, m_factor(r, true)) {
                        Some(w) => Some(
                            before.push(contribution(r, "H400"@, w, hp14_limit(), acute_reached)),
                        ),
                        None => None,
                    }
                } else {
                    Some(before)
                };
                match acute {
                    Some(middle) => if counts(r, "H410"@) {
                        match chronic_weighted(r) {
                            Some(w) => Some(
                                middle.push(
                                    contribution(r, "H410"@, w, hp14_limit(), chronic_reached),
                                ),
                            ),
                            None => None,
                        }
                    } else {
                        Some(middle)
                    },
                    None => None,
                }
            },
            None => None,
        }
    }
}

/// What is said of the ecotoxic checks that reach their limit.
pub open spec fn hp14_details(acute: Parts, chronic: Parts) -> Seq<Seq<char>> {
    let first = if acute.ge(hp14_limit()) {
        seq![
            "H400×M(ac) sum: "@ + acute.text_fixed(4) + "% >= "@ + hp14_limit().text() + "%"@,
        ]
    } else {
        Seq::empty()
    };
    if chronic.ge(hp14_limit()) {
        first.push(
            "100×H410×M(ch) sum: "@ + chronic.text_fixed(4) + "% >= "@ + hp14_limit().text()
                + "%"@,
        )
    } else {
        first
    }
}

/// Whether the totals that the explanation of the ecotoxic criterion
/// gives can be written out: where the criterion is triggered, each total
/// that reaches the limit; else both.
pub open spec fn totals_writable(acute: Parts, chronic: Parts) -> bool {
    if acute.ge(hp14_limit()) || chronic.ge(hp14_limit()) {
        (acute.ge(hp14_limit()) ==> writable(acute)) && (chronic.ge(hp14_limit()) ==> writable(
            chronic,
        ))
    } else {
        writable(acute) && writable(chronic)
    }
}

/// HP14, ecotoxic.
pub open spec fn hp14(resolved: Seq<ResolvedSubstance>) -> Option<CriterionView> {
    if acute_total(resolved) is Some && chronic_total(resolved) is Some && totals_writable(
        acute_total(resolved)->0,
        chronic_total(resolved)->0,
    ) {
        let acute = acute_total(resolved)->0;
        let chronic = chronic_total(resolved)->0;
        let triggered = acute.ge(hp14_limit()) || chronic.ge(hp14_limit());
        match hp14_contributions(
            resolved,
            acute.ge(hp14_limit()),
            chronic.ge(hp14_limit()),
            resolved.len() as int,
        ) {
            Some(contributions) => Some(
                CriterionView {
                    hp_id: "HP14"@,
                    hp_name: "Ecotoxic"@,
                    triggered,
                    reason: if triggered {
                        "Ecotoxic triggered: "@ + joined(hp14_details(acute, chronic), "; "@)
                    } else {
                        "Ecotoxic not triggered (H400×M sum: "@ + acute.text_fixed(4)
                            + "%, 100×H410×M sum: "@ + chronic.text_fixed(4) + "%)"@
                    },
                    contributions,
                },
            ),
            None => None,
        }
    } else {
        None
    }
}

/// The multiplier of a substance.
fn multiplier(r: &ResolvedSubstance, acute: bool) -> (m: Decimal)
    ensures
        m@ == m_factor(*r, acute),
{
    let factor = if acute {
        r.clp.m_factors.acute
    } else {
        r.clp.m_factors.chronic
    };
    match factor {
        Some(m) => m,
        None => Decimal::one(),
    }
}

/// Once a partial weighted sum cannot be represented, no later one can.
pub proof fn lemma_weighted_sum_stays_none(
    resolved: Seq<ResolvedSubstance>,
    code: Seq<char>,
    acute: bool,
    at: int,
    upto: int,
)
    requires
        0 <= at <= upto <= resolved.len(),
        weighted_sum(resolved, code, acute, at) is None,
    ensures
        weighted_sum(resolved, code, acute, upto) is None,
    decreases upto - at,
{
    if at < upto {
        lemma_weighted_sum_stays_none(resolved, code, acute, at, upto - 1);
    }
}

/// The sum, over the substances that count under a code, of concentration
/// times multiplier.
pub fn weighted_sum_for_code(resolved: &[ResolvedSubstance], code: &str, acute: bool) -> (r:
    Option<Decimal>)
    ensures
        crate::decimal::view_of(r) == weighted_sum(resolved@, code@, acute, resolved.len() as int),
{
    let mut total = Decimal::zero();
    let mut k: usize = 0;
    while k < resolved.len()
        invariant
            k <= resolved.len(),
            Some(total@) == weighted_sum(resolved@, code@, acute, k as int),
        decreases resolved.len() - k,
    {
        if !resolved[k].below_detection && resolved[k].clp.has_h_code(code) {
            let next = match resolved[k].concentration_pct.checked_mul(
                &multiplier(&resolved[k], acute),
            ) {
                Some(weighted) => total.checked_add(&weighted),
                None => None,
            };
            match next {
                Some(next) => {
                    total = next;
                },
                None => {
                    proof {
                        lemma_weighted_sum_stays_none(
                            resolved@,
                            code@,
                            acute,
                            k + 1,
                            resolved.len() as int,
                        );
                    }
                    return None;
                },
            }
        }
        k += 1;
    }
    Some(total)
}

/// Once the contributions of some substances cannot be represented, those
/// of more substances cannot either.
pub proof fn lemma_hp14_contributions_stay_none(
    resolved: Seq<ResolvedSubstance>,
    acute_reached: bool,
    chronic_reached: bool,
    at: int,
    upto: int,
)
    requires
        0 <= at <= upto <= resolved.len(),
        hp14_contributions(resolved, acute_reached, chronic_reached, at) is None,
    ensures
        hp14_contributions(resolved, acute_reached, chronic_reached, upto) is None,
    decreases upto - at,
{
    if at < upto {
        lemma_hp14_contributions_stay_none(resolved, acute_reached, chronic_reached, at, upto - 1);
    }
}

/// The ecotoxic contributions, given the outcome of both checks.
fn collect_hp14_contributions(
    resolved: &[ResolvedSubstance],
    acute_reached: bool,
    chronic_reached: bool,
) -> (r: Option<Vec<HpSubstanceContribution>>)
    ensures
        match r {
            Some(c) => Some(contribution_views(c@)) == hp14_contributions(
                resolved@,
                acute_reached,
                chronic_reached,
                resolved.len() as int,
            ),
            None => hp14_contributions(
                resolved@,
                acute_reached,
                chronic_reached,
                resolved.len() as int,
            ) is None,
        },
{
    let limit = Decimal::new(250, 1);
    let scale_up = Decimal::new(100, 0);
    let mut out: Vec<HpSubstanceContribution> = Vec::new();
    let mut k: usize = 0;
    assert(contribution_views(out@) =~= Seq::empty());
    while k < resolved.len()
        invariant
            k <= resolved.len(),
            limit@ == hp14_limit(),
            scale_up@ == hundred(),
            Some(contribution_views(out@)) == hp14_contributions(
                resolved@,
                acute_reached,
                chronic_reached,
                k as int,
            ),
        decreases resolved.len() - k,
    {
        let r = &resolved[k];
        let mut failed = false;
        if !r.below_detection {
            if r.clp.has_h_code("H400") {
                match r.concentration_pct.checked_mul(&multiplier(r, true)) {
                    Some(w) => {
                        let c = contribution_for(r, "H400", w, limit, acute_reached);
                        let ghost before = contribution_views(out@);
                        out.push(c);
                        assert(contribution_views(out@) =~= before.push(c@));
                    },
                    None => {
                        failed = true;
                    },
                }
            }
            if !failed && r.clp.has_h_code("H410") {
                let weighted = match scale_up.checked_mul(&r.concentration_pct) {
                    Some(scaled) => scaled.checked_mul(&multiplier(r, false)),
                    None => None,
                };
                match weighted {
                    Some(w) => {
                        let c = contribution_for(r, "H410", w, limit, chronic_reached);
                        let ghost before = contribution_views(out@);
                        out.push(c);
                        assert(contribution_views(out@) =~= before.push(c@));
                    },
                    None => {
                        failed = true;
                    },
                }
            }
        }
        if failed {
            proof {
                lemma_hp14_contributions_stay_none(
                    resolved@,
                    acute_reached,
                    chronic_reached,
                    k + 1,
                    resolved.len() as int,
                );
            }
            return None;
        }
        k += 1;
    }
    Some(out)
}

/// HP14, ecotoxic: triggered where concentration times acute multiplier,
/// summed over the substances under H400, reaches 25 %; or where a hundred
/// times the sum of concentration times chronic multiplier over the
/// substances under H410 does. A compound without a multiplier has the
/// multiplier one. `None` where a product or a sum is too large to
/// represent, or a total that the explanation gives is too large to be
/// written out.
pub fn evaluate_hp14(resolved: &[ResolvedSubstance]) -> (r: Option<HpCriterionDetail>)
    ensures
        criterion_of(r) == hp14(resolved@),
{
    let limit = Decimal::new(250, 1);
    let acute = match weighted_sum_for_code(resolved, "H400", true) {
        Some(total) => total,
        None => {
            return None;
        },
    };
    let chronic_raw = match weighted_sum_for_code(resolved, "H410", false) {
        Some(total) => total,
        None => {
            return None;
        },
    };
    let chronic = match Decimal::new(100, 0).checked_mul(&chronic_raw) {
        Some(total) => total,
        None => {
            return None;
        },
    };
    let acute_reached = acute.ge(&limit);
    let chronic_reached = chronic.ge(&limit);
    let triggered = acute_reached || chronic_reached;
    let contributions = match collect_hp14_contributions(resolved, acute_reached, chronic_reached) {
        Some(c) => c,
        None => {
            return None;
        },
    };
    let acute_text = if !triggered || acute_reached {
        match acute.try_text_fixed(4) {
            Some(text) => text,
            None => {
                return None;
            },
        }
    } else {
        String::new()
    };
    let chronic_text = if !triggered || chronic_reached {
        match chronic.try_text_fixed(4) {
            Some(text) => text,
            None => {
                return None;
            },
        }
    } else {
        String::new()
    };
    let reason = if triggered {
        let mut parts: Vec<String> = Vec::new();
        assert(texts(parts@) =~= Seq::empty());
        if acute_reached {
            let mut part = String::from_str("H400×M(ac) sum: ");
            part.append(acute_text.as_str());
            part.append("% >= ");
            part.append(limit.to_text().as_str());
            part.append("%");
            parts.push(part);
            assert(texts(parts@) =~= seq![part@]);
        }
        if chronic_reached {
            let mut part = String::from_str("100×H410×M(ch) sum: ");
            part.append(chronic_text.as_str());
            part.append("% >= ");
            part.append(limit.to_text().as_str());
            part.append("%");
            let ghost before = texts(parts@);
            parts.push(part);
            assert(texts(parts@) =~= before.push(part@));
        }
        let mut text = String::from_str("Ecotoxic triggered: ");
        text.append(crate::text::join(&parts, "; ").as_str());
        text
    } else {
        let mut text = String::from_str("Ecotoxic not triggered (H400×M sum: ");
        text.append(acute_text.as_str());
        text.append("%, 100×H410×M sum: ");
        text.append(chronic_text.as_str());
        text.append("%)");
        text
    };
    Some(
        HpCriterionDetail {
            hp_id: String::from_str("HP14"),
            hp_name: String::from_str("Ecotoxic"),
            triggered,
            reason,
            contributions,
        },
    )
}

/// Zero can be written out.
pub proof fn lemma_zero_is_writable()
    ensures
        writable(Parts { mantissa: 0, scale: 0 }),
{
    let zero = Parts { mantissa: 0, scale: 0 };
    assert(crate::decimal::digits_of(0) =~= Seq::<char>::empty());
    assert(zero.digits() =~= Seq::<char>::empty());
}

/// A substance that does not count under a code adds nothing to the sum
/// under that code: with it taken out, the sum is the same.
pub proof fn lemma_sum_ignores_other_substances(
    resolved: Seq<ResolvedSubstance>,
    code: Seq<char>,
    at: int,
    upto: int,
)
    requires
        0 <= at < upto <= resolved.len(),
        !counts(resolved[at], code),
    ensures
        code_sum(resolved, code, upto) == code_sum(resolved.remove(at), code, upto - 1),
    decreases upto,
{
    let rest = resolved.remove(at);
    if upto - 1 > at {
        lemma_sum_ignores_other_substances(resolved, code, at, upto - 1);
        assert(rest[upto - 2] == resolved[upto - 1]);
    } else {
        lemma_sum_of_equal_prefix(resolved, rest, code, at);
    }
}

/// The sum under a code depends on the summed substances alone.
pub proof fn lemma_sum_of_equal_prefix(
    a: Seq<ResolvedSubstance>,
    b: Seq<ResolvedSubstance>,
    code: Seq<char>,
    upto: int,
)
    requires
        0 <= upto <= a.len(),
        upto <= b.len(),
        forall|k: int| 0 <= k < upto ==> a[k] == b[k],
    ensures
        code_sum(a, code, upto) == code_sum(b, code, upto),
    decreases upto,
{
    if upto > 0 {
        lemma_sum_of_equal_prefix(a, b, code, upto - 1);
    }
}

/// For a single measured substance that counts under H400 and not under
/// H410, and whose concentration times its acute multiplier is exact and
/// has at most 27 digits before the point: the
/// ecotoxic criterion triggers exactly where that product is at least 25.
/// With the multiplier 100 this is `concentration * 100 >= 25`. (In units
/// of `10^-28` the product of two numbers has `10^56` for one.)
pub proof fn lemma_hp14_single_substance(r: ResolvedSubstance)
    requires
        r.concentration_pct@.wf(),
        m_factor(r, true).wf(),
        counts(r, "H400"@),
        !counts(r, "H410"@),
        r.concentration_pct@.mantissa == 0 || m_factor(r, true).mantissa == 0
            || crate::decimal::product_is_exact(r.concentration_pct@, m_factor(r, true)),
        product(r.concentration_pct@, m_factor(r, true)) is Some ==> writable(
            product(r.concentration_pct@, m_factor(r, true))->0,
        ),
    ensures
        hp14(seq![r]) is Some,
        hp14(seq![r])->0.triggered <==> r.concentration_pct@.units() * m_factor(r, true).units()
            >= 25 * crate::decimal::pow10(56),
{
    let resolved = seq![r];
    let c = r.concentration_pct@;
    let m = m_factor(r, true);
    crate::decimal::lemma_product_units(c, m);
    let w = product(c, m)->0;
    assert(resolved[0] == r);
    assert(weighted_sum(resolved, "H400"@, true, 0) == Some(Parts { mantissa: 0, scale: 0 }));
    assert(weighted_sum(resolved, "H400"@, true, 1) == Some(w));
    assert(weighted_sum(resolved, "H410"@, false, 0) == Some(Parts { mantissa: 0, scale: 0 }));
    assert(weighted_sum(resolved, "H410"@, false, 1) == Some(Parts { mantissa: 0, scale: 0 }));
    assert(chronic_total(resolved) == Some(Parts { mantissa: 0, scale: 0 }));
    let zero = Parts { mantissa: 0, scale: 0 };
    lemma_zero_is_writable();
    assert(hp14_contributions(resolved, w.ge(hp14_limit()), zero.ge(hp14_limit()), 0) is Some);
    assert(hp14_contributions(resolved, w.ge(hp14_limit()), zero.ge(hp14_limit()), 1) is Some);
    crate::decimal::lemma_pow10_add(28, 28);
    crate::decimal::lemma_pow10_add(27, 1);
    crate::decimal::lemma_pow10_add(1, 0);
    assert(crate::decimal::pow10(1) == 10);
    assert(hp14_limit().units() == 250 * crate::decimal::pow10(27));
    assert(250 * crate::decimal::pow10(27) == 25 * crate::decimal::pow10(28));
    assert(zero.units() == 0);
    assert(!zero.ge(hp14_limit()));
    assert((w.units() >= 25 * crate::decimal::pow10(28)) <==> (w.units() * crate::decimal::pow10(28)
        >= 25 * crate::decimal::pow10(56))) by (nonlinear_arith)
        requires
            crate::decimal::pow10(56) == crate::decimal::pow10(28) * crate::decimal::pow10(28),
            crate::decimal::pow10(28) > 0,
    ;
}

/// The evaluations of the nine criteria, in the order in which they are
/// reported; `None` where one of them is.
pub open spec fn all_criteria(resolved: Seq<ResolvedSubstance>) -> Option<Seq<CriterionView>> {
    if hp5(resolved) is Some && hp6(resolved) is Some && hp4(resolved) is Some && hp8(
        resolved,
    ) is Some && hp14(resolved) is Some {
        Some(
            seq![
                hp7(resolved),
                hp11(resolved),
                hp10(resolved),
                hp5(resolved)->0,
                hp6(resolved)->0,
                hp4(resolved)->0,
                hp8(resolved)->0,
                hp13(resolved),
                hp14(resolved)->0,
            ],
        )
    } else {
        None
    }
}

/// Whether one of the first `upto` criteria is triggered.
pub open spec fn any_triggered(criteria: Seq<CriterionView>, upto: int) -> bool {
    exists|k: int| 0 <= k < upto && k < criteria.len() && (#[trigger] criteria[k]).triggered
}

/// The evaluation of all criteria: hazardous as soon as one criterion is
/// triggered.
pub open spec fn hazard_details(resolved: Seq<ResolvedSubstance>) -> Option<HpDetailsView> {
    match all_criteria(resolved) {
        Some(criteria) => Some(
            HpDetailsView {
                is_hazardous: any_triggered(criteria, criteria.len() as int),
                criteria_results: criteria,
            },
        ),
        None => None,
    }
}

/// The contents of an optional evaluation of all criteria.
pub open spec fn details_of(r: Option<HpDetails>) -> Option<HpDetailsView> {
    match r {
        Some(d) => Some(d@),
        None => None,
    }
}

/// Evaluates the nine hazard criteria on resolved substances. The result
/// is a function of the substances alone. `None` where a product or a sum
/// of concentrations is too large to represent.
pub fn evaluate(resolved: &[ResolvedSubstance]) -> (r: Option<HpDetails>)
    ensures
        details_of(r) == hazard_details(resolved@),
{
    let hp7 = evaluate_hp7(resolved);
    let hp11 = evaluate_hp11(resolved);
    let hp10 = evaluate_hp10(resolved);
    let hp5 = match evaluate_hp5(resolved) {
        Some(c) => c,
        None => {
            return None;
        },
    };
    let hp6 = match evaluate_hp6(resolved) {
        Some(c) => c,
        None => {
            return None;
        },
    };
    let hp4 = match evaluate_hp4(resolved) {
        Some(c) => c,
        None => {
            return None;
        },
    };
    let hp8 = match evaluate_hp8(resolved) {
        Some(c) => c,
        None => {
            return None;
        },
    };
    let hp13 = evaluate_hp13(resolved);
    let hp14 = match evaluate_hp14(resolved) {
        Some(c) => c,
        None => {
            return None;
        },
    };
    let is_hazardous = hp7.triggered || hp11.triggered || hp10.triggered || hp5.triggered
        || hp6.triggered || hp4.triggered || hp8.triggered || hp13.triggered || hp14.triggered;
    let mut criteria_results: Vec<HpCriterionDetail> = Vec::new();
    criteria_results.push(hp7);
    criteria_results.push(hp11);
    criteria_results.push(hp10);
    criteria_results.push(hp5);
    criteria_results.push(hp6);
    criteria_results.push(hp4);
    criteria_results.push(hp8);
    criteria_results.push(hp13);
    criteria_results.push(hp14);
    proof {
        let views = criterion_views(criteria_results@);
        let expected = all_criteria(resolved@)->0;
        assert(views =~= expected);
        if is_hazardous {
            let k: int = if expected[0].triggered {
                0
            } else if expected[1].triggered {
                1
            } else if expected[2].triggered {
                2
            } else if expected[3].triggered {
                3
            } else if expected[4].triggered {
                4
            } else if expected[5].triggered {
                5
            } else if expected[6].triggered {
                6
            } else if expected[7].triggered {
                7
            } else {
                8
            };
            assert(expected[k].triggered);
        }
    }
    Some(HpDetails { is_hazardous, criteria_results })
}

/// Evaluating the same substances twice gives the same result: whatever
/// two evaluations return, they agree in every criterion, contribution
/// and character.
pub proof fn lemma_evaluation_is_repeatable(
    resolved: Seq<ResolvedSubstance>,
    first: Option<HpDetails>,
    second: Option<HpDetails>,
)
    requires
        details_of(first) == hazard_details(resolved),
        details_of(second) == hazard_details(resolved),
    ensures
        details_of(first) == details_of(second),
{
}

/// The identifiers of those of the first `upto` criteria that are
/// triggered.
pub open spec fn triggered_ids(criteria: Seq<CriterionView>, upto: int) -> Seq<Seq<char>>
    decreases upto,
{
    if upto <= 0 || upto > criteria.len() {
        Seq::empty()
    } else if criteria[upto - 1].triggered {
        triggered_ids(criteria, upto - 1).push(criteria[upto - 1].hp_id)
    } else {
        triggered_ids(criteria, upto - 1)
    }
}

/// Whether a criterion is triggered and one of its first `upto`
/// contributions, of the named substance, triggers.
pub open spec fn triggering_in(criterion: CriterionView, name: Seq<char>, upto: int) -> bool {
    criterion.triggered && exists|n: int|
        0 <= n < upto && n < criterion.contributions.len() && (
        #[trigger] criterion.contributions[n]).triggers && criterion.contributions[n].substance
            == name
}

/// Whether a substance decides the outcome: in one of the first `upto`
/// criteria, which is triggered, a contribution of the substance triggers.
pub open spec fn is_determining(criteria: Seq<CriterionView>, name: Seq<char>, upto: int) -> bool {
    exists|k: int|
        0 <= k < upto && k < criteria.len() && triggering_in(
            #[trigger] criteria[k],
            name,
            criteria[k].contributions.len() as int,
        )
}

/// What the hazard evaluation reports of one resolved substance.
pub open spec fn is_hp_substance_result(
    sr: SubstanceResult,
    r: ResolvedSubstance,
    criteria: Seq<CriterionView>,
) -> bool {
    &&& sr.substance@ == r.row.normalized_name@
    &&& sr.raw_name@ == r.row.raw_name@
    &&& sr.value == r.row.value
    &&& sr.unit@ == "mg/kg TS"@
    &&& sr.category@ == if is_determining(criteria, r.row.normalized_name@, criteria.len() as int) {
        "FA"@
    } else {
        "Icke FA"@
    }
    &&& sr.reason@ == r.row.raw_name@ + " -> "@ + r.compound_name@ + " ("@ + r.cas@ + "): "@
        + r.concentration_pct@.text_fixed(4) + "% w/w"@
    &&& sr.exceeded_threshold is None
    &&& !sr.uncertain
}

/// What the hazard evaluation of resolved substances reports.
pub open spec fn is_hp_result(
    res: RuleSetResult,
    resolved: Seq<ResolvedSubstance>,
    unresolved: Seq<String>,
) -> bool {
    let details = hazard_details(resolved)->0;
    let criteria = details.criteria_results;
    &&& res.ruleset_name@ == "Farligt avfall (HP-bedömning)"@
    &&& res.overall_category@ == if details.is_hazardous {
        "FA"@
    } else {
        "Icke FA"@
    }
    &&& res.overall_reason@ == if details.is_hazardous {
        "Farligt avfall: triggered by "@ + joined(
            triggered_ids(criteria, criteria.len() as int),
            ", "@,
        )
    } else {
        "Icke farligt avfall: no HP criteria triggered"@
    }
    &&& res.lowest_category is None
    &&& strictly_sorted(res.determining_substances@)
    &&& forall|name: Seq<char>|
        lists(res.determining_substances@, name) <==> is_determining(
            criteria,
            name,
            criteria.len() as int,
        )
    &&& res.substance_results@.len() == resolved.len()
    &&& forall|k: int|
        0 <= k < resolved.len() ==> is_hp_substance_result(
            #[trigger] res.substance_results@[k],
            resolved[k],
            criteria,
        )
    &&& res.unmatched_substances@ == unresolved
    &&& res.unmatched_rules@.len() == 0
    &&& res.hp_details is Some
    &&& res.hp_details->0@ == details
}

/// Whether in a triggered criterion a contribution of the named substance
/// triggers.
fn triggers_in(criterion: &HpCriterionDetail, name: &str) -> (r: bool)
    ensures
        r == triggering_in(criterion@, name@, criterion.contributions.len() as int),
{
    if !criterion.triggered {
        return false;
    }
    let mut n: usize = 0;
    while n < criterion.contributions.len()
        invariant
            n <= criterion.contributions.len(),
            criterion.triggered,
            !triggering_in(criterion@, name@, n as int),
        decreases criterion.contributions.len() - n,
    {
        let c = &criterion.contributions[n];
        assert(criterion@.contributions[n as int] == c@);
        if c.triggers && crate::text::same_text(c.substance.as_str(), name) {
            return true;
        }
        n += 1;
    }
    false
}

/// Whether a substance decides the outcome.
fn decides(criteria: &[HpCriterionDetail], name: &str) -> (r: bool)
    ensures
        r == is_determining(criterion_views(criteria@), name@, criteria.len() as int),
{
    let mut k: usize = 0;
    while k < criteria.len()
        invariant
            k <= criteria.len(),
            !is_determining(criterion_views(criteria@), name@, k as int),
        decreases criteria.len() - k,
    {
        assert(criterion_views(criteria@)[k as int] == criteria@[k as int]@);
        if triggers_in(&criteria[k], name) {
            return true;
        }
        k += 1;
    }
    false
}

proof fn lemma_triggering_step(criterion: CriterionView, name: Seq<char>, n: int)
    requires
        0 <= n < criterion.contributions.len(),
    ensures
        triggering_in(criterion, name, n + 1) <==> (triggering_in(criterion, name, n) || (
        criterion.triggered && criterion.contributions[n].triggers
            && criterion.contributions[n].substance == name)),
{
    if triggering_in(criterion, name, n + 1) {
        let w = choose|w: int|
            0 <= w < n + 1 && w < criterion.contributions.len() && (
            #[trigger] criterion.contributions[w]).triggers && criterion.contributions[w].substance
                == name;
        if w < n {
            assert(triggering_in(criterion, name, n));
        }
    }
    if triggering_in(criterion, name, n) {
        let w = choose|w: int|
            0 <= w < n && w < criterion.contributions.len() && (
            #[trigger] criterion.contributions[w]).triggers && criterion.contributions[w].substance
                == name;
        assert(criterion.contributions[w].triggers);
    }
    if criterion.triggered && criterion.contributions[n].triggers
        && criterion.contributions[n].substance == name {
        assert(triggering_in(criterion, name, n + 1));
    }
}

proof fn lemma_determining_step(criteria: Seq<CriterionView>, name: Seq<char>, k: int)
    requires
        0 <= k < criteria.len(),
    ensures
        is_determining(criteria, name, k + 1) <==> (is_determining(criteria, name, k)
            || triggering_in(criteria[k], name, criteria[k].contributions.len() as int)),
{
    if is_determining(criteria, name, k + 1) {
        let w = choose|w: int|
            0 <= w < k + 1 && w < criteria.len() && triggering_in(
                #[trigger] criteria[w],
                name,
                criteria[w].contributions.len() as int,
            );
        if w < k {
            assert(is_determining(criteria, name, k));
        }
    }
    if is_determining(criteria, name, k) {
        let w = choose|w: int|
            0 <= w < k && w < criteria.len() && triggering_in(
                #[trigger] criteria[w],
                name,
                criteria[w].contributions.len() as int,
            );
        assert(triggering_in(criteria[w], name, criteria[w].contributions.len() as int));
    }
    if triggering_in(criteria[k], name, criteria[k].contributions.len() as int) {
        assert(is_determining(criteria, name, k + 1));
    }
}

/// The substances that decide the outcome, sorted.
fn deciding_substances(criteria: &[HpCriterionDetail]) -> (names: Vec<String>)
    ensures
        strictly_sorted(names@),
        forall|name: Seq<char>|
            lists(names@, name) <==> is_determining(
                criterion_views(criteria@),
                name,
                criteria.len() as int,
            ),
{
    let mut names: Vec<String> = Vec::new();
    let ghost views = criterion_views(criteria@);
    let mut k: usize = 0;
    while k < criteria.len()
        invariant
            k <= criteria.len(),
            views == criterion_views(criteria@),
            strictly_sorted(names@),
            forall|name: Seq<char>| lists(names@, name) <==> is_determining(views, name, k as int),
        decreases criteria.len() - k,
    {
        let criterion = &criteria[k];
        assert(views[k as int] == criterion@);
        let ghost start = names@;
        if criterion.triggered {
            let mut n: usize = 0;
            while n < criterion.contributions.len()
                invariant
                    n <= criterion.contributions.len(),
                    criterion.triggered,
                    strictly_sorted(names@),
                    forall|name: Seq<char>|
                        #[trigger] lists(names@, name) <==> (lists(start, name) || triggering_in(
                            criterion@,
                            name,
                            n as int,
                        )),
                decreases criterion.contributions.len() - n,
            {
                let c = &criterion.contributions[n];
                assert(criterion@.contributions[n as int] == c@);
                let ghost before = names@;
                if c.triggers {
                    crate::text::insert_sorted(&mut names, c.substance.clone());
                }
                proof {
                    assert forall|name: Seq<char>|
                        #[trigger] lists(names@, name) <==> (lists(start, name) || triggering_in(
                            criterion@,
                            name,
                            n + 1,
                        )) by {
                        lemma_triggering_step(criterion@, name, n as int);
                        assert(lists(before, name) <==> (lists(start, name) || triggering_in(
                            criterion@,
                            name,
                            n as int,
                        )));
                        if c.triggers {
                            assert(lists(names@, name) <==> (lists(before, name) || name
                                == c.substance@));
                        } else {
                            assert(names@ == before);
                        }
                    }
                }
                n += 1;
            }
        }
        proof {
            assert forall|name: Seq<char>| lists(names@, name) <==> is_determining(
                views,
                name,
                k + 1,
            ) by {
                lemma_determining_step(views, name, k as int);
                assert(lists(start, name) <==> is_determining(views, name, k as int));
                if criterion.triggered {
                    assert(lists(names@, name) <==> (lists(start, name) || triggering_in(
                        criterion@,
                        name,
                        criterion.contributions.len() as int,
                    )));
                } else {
                    assert(names@ == start);
                    assert(!triggering_in(
                        criterion@,
                        name,
                        criterion@.contributions.len() as int,
                    ));
                }
                assert(criterion@.contributions.len() == criterion.contributions.len());
            }
        }
        k += 1;
    }
    names
}

/// The identifiers of the triggered criteria.
fn collect_triggered_ids(criteria: &[HpCriterionDetail]) -> (ids: Vec<String>)
    ensures
        texts(ids@) == triggered_ids(criterion_views(criteria@), criteria.len() as int),
{
    let mut ids: Vec<String> = Vec::new();
    let mut k: usize = 0;
    assert(texts(ids@) =~= Seq::empty());
    while k < criteria.len()
        invariant
            k <= criteria.len(),
            texts(ids@) == triggered_ids(criterion_views(criteria@), k as int),
        decreases criteria.len() - k,
    {
        assert(criterion_views(criteria@)[k as int] == criteria@[k as int]@);
        if criteria[k].triggered {
            let id = criteria[k].hp_id.clone();
            let ghost before = texts(ids@);
            ids.push(id);
            assert(texts(ids@) =~= before.push(id@));
        }
        k += 1;
    }
    ids
}

/// Every concentration can be written out.
pub open spec fn concentrations_writable(resolved: Seq<ResolvedSubstance>) -> bool {
    forall|k: int| 0 <= k < resolved.len() ==> writable((#[trigger] resolved[k]).concentration_pct@)
}

/// The substances can be classified: all criteria can be evaluated, and
/// every concentration can be written out.
pub open spec fn hp_result_defined(resolved: Seq<ResolvedSubstance>) -> bool {
    hazard_details(resolved) is Some && concentrations_writable(resolved)
}

/// The classification of resolved substances: hazardous waste as soon as one
/// criterion is triggered. The substances that decide it are those of
/// which, in a triggered criterion, a contribution triggers. `None` where
/// a product or a sum of concentrations is too large to represent, or a
/// number of an explanation is too large to be written out.
pub fn classify_resolved(resolved: &[ResolvedSubstance], unresolved: Vec<String>) -> (r: Option<
    RuleSetResult,
>)
    ensures
        match r {
            Some(res) => hp_result_defined(resolved@) && is_hp_result(res, resolved@, unresolved@),
            None => !hp_result_defined(resolved@),
        },
{
    let details = match evaluate(resolved) {
        Some(d) => d,
        None => {
            return None;
        },
    };
    let ghost criteria = details@.criteria_results;
    let overall_category = if details.is_hazardous {
        String::from_str("FA")
    } else {
        String::from_str("Icke FA")
    };
    let overall_reason = if details.is_hazardous {
        let mut text = String::from_str("Farligt avfall: triggered by ");
        text.append(
            crate::text::join(&collect_triggered_ids(&details.criteria_results), ", ").as_str(),
        );
        text
    } else {
        String::from_str("Icke farligt avfall: no HP criteria triggered")
    };
    let determining_substances = deciding_substances(&details.criteria_results);
    let mut substance_results: Vec<SubstanceResult> = Vec::new();
    let mut k: usize = 0;
    while k < resolved.len()
        invariant
            k <= resolved.len(),
            criteria == criterion_views(details.criteria_results@),
            substance_results.len() == k,
            forall|n: int| 0 <= n < k ==> writable((#[trigger] resolved@[n]).concentration_pct@),
            forall|n: int|
                0 <= n < k ==> is_hp_substance_result(
                    #[trigger] substance_results@[n],
                    resolved@[n],
                    criteria,
                ),
        decreases resolved.len() - k,
    {
        let r = &resolved[k];
        let category = if decides(&details.criteria_results, r.row.normalized_name.as_str()) {
            String::from_str("FA")
        } else {
            String::from_str("Icke FA")
        };
        let mut reason = r.row.raw_name.clone();
        reason.append(" -> ");
        reason.append(r.compound_name.as_str());
        reason.append(" (");
        reason.append(r.cas.as_str());
        reason.append("): ");
        match r.concentration_pct.try_text_fixed(4) {
            Some(text) => {
                reason.append(text.as_str());
            },
            None => {
                return None;
            },
        }
        reason.append("% w/w");
        substance_results.push(
            SubstanceResult {
                substance: r.row.normalized_name.clone(),
                raw_name: r.row.raw_name.clone(),
                value: r.row.value,
                unit: String::from_str("mg/kg TS"),
                category,
                reason,
                exceeded_threshold: None,
                uncertain: false,
            },
        );
        k += 1;
    }
    Some(
        RuleSetResult {
            ruleset_name: String::from_str("Farligt avfall (HP-bedömning)"),
            overall_category,
            overall_reason,
            lowest_category: None,
            determining_substances,
            substance_results,
            unmatched_substances: unresolved,
            unmatched_rules: Vec::new(),
            hp_details: Some(details),
        },
    )
}

/// What the hazard evaluation of a report yields: the classification of what the
/// rows of the report resolve to.
pub open spec fn is_hp_classification(
    res: RuleSetResult,
    report: AnalysisReport,
    table: SpeciationTable,
    db: ClpDatabase,
) -> bool {
    all_convert(report, table, db, report.rows.len() as int) && exists|
        resolved: Seq<ResolvedSubstance>,
        unresolved: Seq<String>,
    |
        is_resolution(resolved, unresolved, report, table, db, report.rows.len() as int)
            && hp_result_defined(resolved) && #[trigger] is_hp_result(
            res,
            resolved,
            unresolved,
        )
}

/// A concentration of the report, or a product or sum of concentrations
/// in the evaluation, is too large to represent, or a number of an
/// explanation is too large to be written out.
pub open spec fn hp_is_not_representable(
    report: AnalysisReport,
    table: SpeciationTable,
    db: ClpDatabase,
) -> bool {
    !all_convert(report, table, db, report.rows.len() as int) || exists|
        resolved: Seq<ResolvedSubstance>,
        unresolved: Seq<String>,
    |
        #[trigger] is_resolution(
            resolved,
            unresolved,
            report,
            table,
            db,
            report.rows.len() as int,
        ) && !hp_result_defined(resolved)
}

/// Resolves the rows of a report against the reference data and gives
/// the classification of what they resolve to; the names that did not resolve
/// are reported as unmatched substances. The reference data must be
/// consistent. `None` where a concentration, or
/// a product or sum of concentrations, is too large to represent, or a
/// number of an explanation is too large to be written out.
pub fn classify_hp(report: &AnalysisReport, table: &SpeciationTable, db: &ClpDatabase) -> (r: Option<
    RuleSetResult,
>)
    requires
        crate::clp::database::is_consistent(*table, *db),
    ensures
        match r {
            Some(res) => is_hp_classification(res, *report, *table, *db),
            None => hp_is_not_representable(*report, *table, *db),
        },
{
    match resolve_substances(report, table, db) {
        Some((resolved, unresolved)) => {
            let ghost names = unresolved@;
            let r = classify_resolved(&resolved, unresolved);
            proof {
                if r is Some {
                    assert(is_hp_result(r->0, resolved@, names));
                } else {
                    assert(is_resolution(
                        resolved@,
                        names,
                        *report,
                        *table,
                        *db,
                        report.rows.len() as int,
                    ));
                }
            }
            r
        },
        None => None,
    }
}

/// All of the first `upto` substances were reported as below their
/// detection limit.
pub open spec fn all_below_detection(resolved: Seq<ResolvedSubstance>, upto: int) -> bool {
    forall|k: int| 0 <= k < upto && k < resolved.len() ==> (#[trigger] resolved[k]).below_detection
}

proof fn lemma_hidden_code_contributions(
    resolved: Seq<ResolvedSubstance>,
    code: Seq<char>,
    threshold: Parts,
    aggregate: Option<bool>,
    upto: int,
)
    requires
        all_below_detection(resolved, upto),
    ensures
        code_contributions(resolved, code, threshold, aggregate, upto) == Seq::<
            ContributionView,
        >::empty(),
        code_sum(resolved, code, upto) == Some(Parts { mantissa: 0, scale: 0 }),
        weighted_sum(resolved, code, true, upto) == Some(Parts { mantissa: 0, scale: 0 }),
        weighted_sum(resolved, code, false, upto) == Some(Parts { mantissa: 0, scale: 0 }),
    decreases upto,
{
    if 0 < upto <= resolved.len() {
        lemma_hidden_code_contributions(resolved, code, threshold, aggregate, upto - 1);
        assert(resolved[upto - 1].below_detection);
    }
}

proof fn lemma_hidden_limit_contributions(
    resolved: Seq<ResolvedSubstance>,
    list: Seq<LimitSpec>,
    substances: int,
    checks: int,
)
    requires
        all_below_detection(resolved, resolved.len() as int),
    ensures
        limit_contributions(resolved, list, substances, checks) == Seq::<ContributionView>::empty(),
    decreases substances, checks,
{
    if substances < 0 || checks < 0 || substances > resolved.len() || checks > list.len() {
    } else if checks > 0 {
        lemma_hidden_limit_contributions(resolved, list, substances, checks - 1);
        if substances < resolved.len() {
            assert(resolved[substances].below_detection);
        }
    } else if substances > 0 {
        lemma_hidden_limit_contributions(resolved, list, substances - 1, list.len() as int);
    }
}

proof fn lemma_hidden_hp14_contributions(
    resolved: Seq<ResolvedSubstance>,
    acute_reached: bool,
    chronic_reached: bool,
    upto: int,
)
    requires
        all_below_detection(resolved, upto),
    ensures
        hp14_contributions(resolved, acute_reached, chronic_reached, upto) == Some(
            Seq::<ContributionView>::empty(),
        ),
    decreases upto,
{
    if 0 < upto <= resolved.len() {
        lemma_hidden_hp14_contributions(resolved, acute_reached, chronic_reached, upto - 1);
        assert(resolved[upto - 1].below_detection);
    }
}

proof fn lemma_hidden_sums(resolved: Seq<ResolvedSubstance>, list: Seq<SumSpec>, upto: int)
    requires
        all_below_detection(resolved, resolved.len() as int),
        forall|k: int| 0 <= k < list.len() ==> (#[trigger] list[k]).threshold.units() > 0,
    ensures
        sums_defined(resolved, list, upto),
        !any_sum_reaches(resolved, list, upto),
        sum_contributions(resolved, list, upto) == Seq::<ContributionView>::empty(),
    decreases upto,
{
    assert forall|k: int| 0 <= k < list.len() implies code_sum(
        resolved,
        (#[trigger] list[k]).code,
        resolved.len() as int,
    ) == Some(Parts { mantissa: 0, scale: 0 }) && !sum_reaches(resolved, list[k]) by {
        lemma_hidden_code_contributions(
            resolved,
            list[k].code,
            list[k].threshold,
            None,
            resolved.len() as int,
        );
    }
    if 0 < upto <= list.len() {
        lemma_hidden_sums(resolved, list, upto - 1);
        lemma_hidden_code_contributions(
            resolved,
            list[upto - 1].code,
            list[upto - 1].threshold,
            Some(sum_reaches(resolved, list[upto - 1])),
            resolved.len() as int,
        );
    }
}

/// A limit of so many tenths of a percent is above zero.
proof fn lemma_limit_is_positive(tenths: int)
    requires
        tenths > 0,
    ensures
        (Parts { mantissa: tenths, scale: 1 }).units() > 0,
{
    crate::decimal::lemma_pow10_add(27, 0);
    assert(tenths * crate::decimal::pow10(27) > 0) by (nonlinear_arith)
        requires
            tenths > 0,
            crate::decimal::pow10(27) > 0,
    ;
}

/// Substances that were reported as below their detection limit take part
/// in no criterion: where all substances are such, no criterion has a
/// contribution, none is triggered, and the sample is not hazardous,
/// however high the detection limits are.
#[verifier::rlimit(40)]
pub proof fn lemma_below_detection_never_triggers(resolved: Seq<ResolvedSubstance>)
    requires
        all_below_detection(resolved, resolved.len() as int),
    ensures
        hazard_details(resolved) is Some,
        !hazard_details(resolved)->0.is_hazardous,
        forall|k: int|
            0 <= k < 9 ==> (#[trigger] hazard_details(resolved)->0.criteria_results[k]).contributions.len()
                == 0 && !hazard_details(resolved)->0.criteria_results[k].triggered,
{
    let n = resolved.len() as int;
    lemma_limit_is_positive(1);
    lemma_limit_is_positive(10);
    lemma_limit_is_positive(50);
    lemma_limit_is_positive(100);
    lemma_limit_is_positive(200);
    lemma_limit_is_positive(250);
    lemma_hidden_limit_contributions(resolved, hp7_limits(), n, 0);
    lemma_hidden_limit_contributions(resolved, hp11_limits(), n, 0);
    lemma_hidden_limit_contributions(resolved, hp10_limits(), n, 0);
    lemma_hidden_code_contributions(resolved, "H317"@, hp13_limit(), None, n);
    lemma_hidden_code_contributions(resolved, "H334"@, hp13_limit(), None, n);
    lemma_hidden_code_contributions(resolved, "H370"@, Parts { mantissa: 10, scale: 1 }, None, n);
    lemma_hidden_code_contributions(resolved, "H371"@, Parts { mantissa: 100, scale: 1 }, None, n);
    lemma_hidden_sums(resolved, hp5_sums(), 2);
    lemma_hidden_sums(resolved, hp6_sums(), 9);
    lemma_hidden_sums(resolved, hp4_sums(), 2);
    lemma_hidden_sums(resolved, hp8_sums(), 1);
    lemma_hidden_code_contributions(resolved, "H400"@, hp14_limit(), None, n);
    lemma_hidden_code_contributions(resolved, "H410"@, hp14_limit(), None, n);
    let zero = Parts { mantissa: 0, scale: 0 };
    lemma_zero_is_writable();
    assert(zero.units() == 0) by {
        assert(0 * crate::decimal::pow10(28) == 0) by (nonlinear_arith);
    }
    assert(chronic_total(resolved) == Some(zero));
    assert(!zero.ge(hp14_limit()));
    lemma_hidden_hp14_contributions(resolved, false, false, n);
    lemma_hidden_code_contributions(resolved, "H372"@, hp14_limit(), None, n);
    lemma_hidden_code_contributions(resolved, "H373"@, hp14_limit(), None, n);
    lemma_hidden_code_contributions(resolved, "H314"@, hp14_limit(), None, n);
    assert(details_writable(resolved, hp6_sums(), 9));
    assert(totals_writable(zero, zero));
    assert(hp5(resolved) is Some);
    assert(hp6(resolved) is Some);
    assert(hp8(resolved) is Some);
    assert(hp14(resolved) is Some);
    assert(hp5_individual(resolved) =~= Seq::<ContributionView>::empty());
    assert(hp13(resolved).contributions =~= Seq::<ContributionView>::empty());
    assert(hp5(resolved)->0.contributions =~= Seq::<ContributionView>::empty());
    let criteria = all_criteria(resolved)->0;
    assert(criteria.len() == 9);
    assert(forall|k: int|
        0 <= k < 9 ==> (#[trigger] criteria[k]).contributions.len() == 0 && !criteria[k].triggered);
}

/// Two resolved substances hold the same: the same row and compound, and
/// the same identifier, concentration, flag and name.
pub open spec fn same_contents(x: ResolvedSubstance, y: ResolvedSubstance) -> bool {
    &&& *x.row == *y.row
    &&& *x.clp == *y.clp
    &&& x.cas@ == y.cas@
    &&& x.concentration_pct@ == y.concentration_pct@
    &&& x.below_detection == y.below_detection
    &&& x.compound_name@ == y.compound_name@
}

/// Two lists of resolved substances hold the same, one by one.
pub open spec fn alike(a: Seq<ResolvedSubstance>, b: Seq<ResolvedSubstance>) -> bool {
    a.len() == b.len() && forall|k: int|
        0 <= k < a.len() ==> same_contents(#[trigger] a[k], b[k])
}

proof fn lemma_alike_codes(
    a: Seq<ResolvedSubstance>,
    b: Seq<ResolvedSubstance>,
    code: Seq<char>,
    threshold: Parts,
    aggregate: Option<bool>,
    upto: int,
)
    requires
        alike(a, b),
    ensures
        code_sum(a, code, upto) == code_sum(b, code, upto),
        code_contributions(a, code, threshold, aggregate, upto) == code_contributions(
            b,
            code,
            threshold,
            aggregate,
            upto,
        ),
        weighted_sum(a, code, true, upto) == weighted_sum(b, code, true, upto),
        weighted_sum(a, code, false, upto) == weighted_sum(b, code, false, upto),
    decreases upto,
{
    if 0 < upto <= a.len() {
        lemma_alike_codes(a, b, code, threshold, aggregate, upto - 1);
        assert(same_contents(a[upto - 1], b[upto - 1]));
    }
}

proof fn lemma_alike_limits(
    a: Seq<ResolvedSubstance>,
    b: Seq<ResolvedSubstance>,
    list: Seq<LimitSpec>,
    substances: int,
    checks: int,
)
    requires
        alike(a, b),
    ensures
        limit_contributions(a, list, substances, checks) == limit_contributions(
            b,
            list,
            substances,
            checks,
        ),
    decreases substances, checks,
{
    if substances < 0 || checks < 0 || substances > a.len() || checks > list.len() {
    } else if checks > 0 {
        lemma_alike_limits(a, b, list, substances, checks - 1);
        if substances < a.len() {
            assert(same_contents(a[substances], b[substances]));
        }
    } else if substances > 0 {
        lemma_alike_limits(a, b, list, substances - 1, list.len() as int);
    }
}

proof fn lemma_alike_weighted(
    a: Seq<ResolvedSubstance>,
    b: Seq<ResolvedSubstance>,
    acute_reached: bool,
    chronic_reached: bool,
    upto: int,
)
    requires
        alike(a, b),
    ensures
        hp14_contributions(a, acute_reached, chronic_reached, upto) == hp14_contributions(
            b,
            acute_reached,
            chronic_reached,
            upto,
        ),
    decreases upto,
{
    if 0 < upto <= a.len() {
        lemma_alike_weighted(a, b, acute_reached, chronic_reached, upto - 1);
        assert(same_contents(a[upto - 1], b[upto - 1]));
    }
}

proof fn lemma_alike_sums(
    a: Seq<ResolvedSubstance>,
    b: Seq<ResolvedSubstance>,
    list: Seq<SumSpec>,
    upto: int,
)
    requires
        alike(a, b),
    ensures
        forall|check: SumSpec| #[trigger] sum_reaches(a, check) == sum_reaches(b, check),
        forall|code: Seq<char>|
            #[trigger] code_sum(a, code, a.len() as int) == code_sum(b, code, b.len() as int),
        sums_defined(a, list, upto) == sums_defined(b, list, upto),
        any_sum_reaches(a, list, upto) == any_sum_reaches(b, list, upto),
        details_writable(a, list, upto) == details_writable(b, list, upto),
        sum_contributions(a, list, upto) == sum_contributions(b, list, upto),
        sum_details(a, list, upto) == sum_details(b, list, upto),
    decreases upto,
{
    let n = a.len() as int;
    assert forall|code: Seq<char>| #[trigger] code_sum(a, code, n) == code_sum(b, code, n) by {
        lemma_alike_codes(a, b, code, Parts { mantissa: 0, scale: 0 }, None, n);
    }
    assert forall|check: SumSpec| #[trigger] sum_reaches(a, check) == sum_reaches(b, check) by {
        assert(code_sum(a, check.code, n) == code_sum(b, check.code, n));
    }
    if sums_defined(a, list, upto) {
        assert forall|k: int| 0 <= k < upto && k < list.len() implies code_sum(
            b,
            (#[trigger] list[k]).code,
            n,
        ) is Some by {
            assert(code_sum(a, list[k].code, n) == code_sum(b, list[k].code, n));
        }
    }
    if sums_defined(b, list, upto) {
        assert forall|k: int| 0 <= k < upto && k < list.len() implies code_sum(
            a,
            (#[trigger] list[k]).code,
            n,
        ) is Some by {
            assert(code_sum(a, list[k].code, n) == code_sum(b, list[k].code, n));
        }
    }
    if any_sum_reaches(a, list, upto) {
        let k = choose|k: int|
            0 <= k < upto && k < list.len() && sum_reaches(a, #[trigger] list[k]);
        assert(sum_reaches(b, list[k]));
    }
    if any_sum_reaches(b, list, upto) {
        let k = choose|k: int|
            0 <= k < upto && k < list.len() && sum_reaches(b, #[trigger] list[k]);
        assert(sum_reaches(a, list[k]));
    }
    if details_writable(a, list, upto) {
        assert forall|k: int|
            0 <= k < upto && k < list.len() && sum_reaches(b, #[trigger] list[k]) implies writable(
            code_sum(b, list[k].code, n)->0,
        ) by {
            assert(sum_reaches(a, list[k]));
            assert(code_sum(a, list[k].code, n) == code_sum(b, list[k].code, n));
        }
    }
    if details_writable(b, list, upto) {
        assert forall|k: int|
            0 <= k < upto && k < list.len() && sum_reaches(a, #[trigger] list[k]) implies writable(
            code_sum(a, list[k].code, n)->0,
        ) by {
            assert(sum_reaches(b, list[k]));
            assert(code_sum(a, list[k].code, n) == code_sum(b, list[k].code, n));
        }
    }
    if 0 < upto <= list.len() {
        lemma_alike_sums(a, b, list, upto - 1);
        lemma_alike_codes(
            a,
            b,
            list[upto - 1].code,
            list[upto - 1].threshold,
            Some(sum_reaches(a, list[upto - 1])),
            n,
        );
        assert(code_sum(a, list[upto - 1].code, n) == code_sum(b, list[upto - 1].code, n));
    }
}

/// The evaluation depends on what the resolved substances hold, and on
/// nothing else: lists that hold the same give the same evaluation.
#[verifier::rlimit(60)]
pub proof fn lemma_alike_substances_evaluate_alike(
    a: Seq<ResolvedSubstance>,
    b: Seq<ResolvedSubstance>,
)
    requires
        alike(a, b),
    ensures
        hazard_details(a) == hazard_details(b),
        hp_result_defined(a) == hp_result_defined(b),
{
    let n = a.len() as int;
    lemma_alike_limits(a, b, hp7_limits(), n, 0);
    lemma_alike_limits(a, b, hp11_limits(), n, 0);
    lemma_alike_limits(a, b, hp10_limits(), n, 0);
    assert(hp7(a) == hp7(b));
    assert(hp11(a) == hp11(b));
    assert(hp10(a) == hp10(b));
    lemma_alike_codes(a, b, "H317"@, hp13_limit(), None, n);
    lemma_alike_codes(a, b, "H334"@, hp13_limit(), None, n);
    assert(hp13(a) == hp13(b));
    lemma_alike_codes(a, b, "H370"@, Parts { mantissa: 10, scale: 1 }, None, n);
    lemma_alike_codes(a, b, "H371"@, Parts { mantissa: 100, scale: 1 }, None, n);
    lemma_alike_sums(a, b, hp5_sums(), 2);
    assert(hp5_individual(a) == hp5_individual(b));
    assert(code_sum(a, "H372"@, n) == code_sum(b, "H372"@, n));
    assert(code_sum(a, "H373"@, n) == code_sum(b, "H373"@, n));
    assert(hp5(a) == hp5(b));
    lemma_alike_sums(a, b, hp6_sums(), 9);
    assert(hp6(a) == hp6(b));
    lemma_alike_sums(a, b, hp4_sums(), 2);
    assert(hp4(a) == hp4(b));
    lemma_alike_sums(a, b, hp8_sums(), 1);
    assert(code_sum(a, "H314"@, n) == code_sum(b, "H314"@, n));
    assert(hp8(a) == hp8(b));
    lemma_alike_codes(a, b, "H400"@, hp14_limit(), None, n);
    lemma_alike_codes(a, b, "H410"@, hp14_limit(), None, n);
    assert(acute_total(a) == acute_total(b));
    assert(chronic_total(a) == chronic_total(b));
    if acute_total(a) is Some && chronic_total(a) is Some {
        lemma_alike_weighted(
            a,
            b,
            acute_total(a)->0.ge(hp14_limit()),
            chronic_total(a)->0.ge(hp14_limit()),
            n,
        );
    }
    assert(hp14(a) == hp14(b));
    assert(all_criteria(a) == all_criteria(b));
    if concentrations_writable(a) {
        assert forall|k: int| 0 <= k < b.len() implies writable(
            (#[trigger] b[k]).concentration_pct@,
        ) by {
            assert(same_contents(a[k], b[k]));
        }
    }
    if concentrations_writable(b) {
        assert forall|k: int| 0 <= k < a.len() implies writable(
            (#[trigger] a[k]).concentration_pct@,
        ) by {
            assert(same_contents(a[k], b[k]));
        }
    }
}

/// Two results for one substance agree in every field.
pub open spec fn same_substance_result(s: SubstanceResult, t: SubstanceResult) -> bool {
    &&& s.substance@ == t.substance@
    &&& s.raw_name@ == t.raw_name@
    &&& s.value == t.value
    &&& s.unit@ == t.unit@
    &&& s.category@ == t.category@
    &&& s.reason@ == t.reason@
    &&& crate::decimal::view_of(s.exceeded_threshold) == crate::decimal::view_of(
        t.exceeded_threshold,
    )
    &&& s.uncertain == t.uncertain
}

/// Two classifications agree in every field: the same name, overall
/// category and explanation, the same deciding and unmatched names in
/// the same order, the same result for each substance, and the same
/// criteria in the same order, each with the same outcome, explanation
/// and contributions.
pub open spec fn same_classification(x: RuleSetResult, y: RuleSetResult) -> bool {
    &&& x.ruleset_name@ == y.ruleset_name@
    &&& x.overall_category@ == y.overall_category@
    &&& x.overall_reason@ == y.overall_reason@
    &&& crate::model::option_text(x.lowest_category) == crate::model::option_text(
        y.lowest_category,
    )
    &&& texts(x.determining_substances@) == texts(y.determining_substances@)
    &&& x.substance_results@.len() == y.substance_results@.len()
    &&& forall|k: int|
        0 <= k < x.substance_results@.len() ==> same_substance_result(
            #[trigger] x.substance_results@[k],
            y.substance_results@[k],
        )
    &&& texts(x.unmatched_substances@) == texts(y.unmatched_substances@)
    &&& texts(x.unmatched_rules@) == texts(y.unmatched_rules@)
    &&& details_of(x.hp_details) == details_of(y.hp_details)
}

/// Classifying the same report against the same reference data twice
/// gives the same result: whatever two classifications return, they agree
/// in every field.
#[verifier::rlimit(60)]
pub proof fn lemma_classification_is_repeatable(
    report: AnalysisReport,
    table: SpeciationTable,
    db: ClpDatabase,
    first: RuleSetResult,
    second: RuleSetResult,
)
    requires
        is_hp_classification(first, report, table, db),
        is_hp_classification(second, report, table, db),
    ensures
        same_classification(first, second),
{
    let n = report.rows.len() as int;
    let (a, ua) = choose|resolved: Seq<ResolvedSubstance>, unresolved: Seq<String>|
        is_resolution(resolved, unresolved, report, table, db, n) && hp_result_defined(resolved)
            && #[trigger] is_hp_result(first, resolved, unresolved);
    let (b, ub) = choose|resolved: Seq<ResolvedSubstance>, unresolved: Seq<String>|
        is_resolution(resolved, unresolved, report, table, db, n) && hp_result_defined(resolved)
            && #[trigger] is_hp_result(second, resolved, unresolved);
    let rows = crate::clp::speciation::resolved_rows(report, table, db, n);
    assert forall|k: int| 0 <= k < a.len() implies same_contents(#[trigger] a[k], b[k]) by {
        assert(crate::clp::speciation::is_resolution_of(a[k], report.rows[rows[k]], table, db));
        assert(crate::clp::speciation::is_resolution_of(b[k], report.rows[rows[k]], table, db));
    }
    lemma_alike_substances_evaluate_alike(a, b);
    let criteria = hazard_details(a)->0.criteria_results;
    crate::text::lemma_sorted_lists_agree(
        first.determining_substances@,
        second.determining_substances@,
    );
    assert forall|k: int| 0 <= k < first.substance_results@.len() implies same_substance_result(
        #[trigger] first.substance_results@[k],
        second.substance_results@[k],
    ) by {
        assert(is_hp_substance_result(first.substance_results@[k], a[k], criteria));
        assert(is_hp_substance_result(second.substance_results@[k], b[k], criteria));
        assert(same_contents(a[k], b[k]));
    }
    assert(texts(first.unmatched_rules@) =~= texts(second.unmatched_rules@));
}

} // verus!
