//! Classification results laid out as text.

use crate::classify::hp_engine::{triggered_ids, writable};
use crate::model::option_text;
use crate::classify::outcome::{
    criterion_views, ClassificationResult, HpCriterionDetail, HpDetails, HpSubstanceContribution,
    ParseWarning, RuleSetResult, SampleResult, SubstanceResult,
};
use crate::text::{byte_length, joined, lists, padded_right, texts};
use vstd::prelude::*;
use vstd::string::StringExecFns;

verus! {

/// The mark of a result that a detection limit left open.
pub open spec fn uncertain_mark(sr: SubstanceResult) -> Seq<char> {
    if sr.uncertain {
        " (?)"@
    } else {
        Seq::empty()
    }
}

/// The line of one substance: its raw name filled up to `width`, its
/// value and unit, and its category; with the explanation on a line of
/// its own where `verbose` is set.
pub open spec fn substance_line(sr: SubstanceResult, width: usize, verbose: bool) -> Seq<char> {
    "  "@ + padded_right(sr.raw_name@, width as nat) + "  "@ + sr.value.text() + " "@ + sr.unit@
        + "  -> "@ + sr.category@ + uncertain_mark(sr) + "\n"@ + (if verbose {
        "    "@ + sr.reason@ + "\n"@
    } else {
        Seq::empty()
    })
}

/// The number of bytes of the longest raw name among the first `upto`
/// results.
pub open spec fn name_width(results: Seq<SubstanceResult>, upto: int) -> usize
    decreases upto,
{
    if upto <= 0 || upto > results.len() {
        0
    } else {
        let before = name_width(results, upto - 1);
        if byte_length(results[upto - 1].raw_name@) > before {
            byte_length(results[upto - 1].raw_name@)
        } else {
            before
        }
    }
}

/// The lines of the first `upto` substances.
pub open spec fn substance_lines(
    results: Seq<SubstanceResult>,
    width: usize,
    verbose: bool,
    upto: int,
) -> Seq<char>
    decreases upto,
{
    if upto <= 0 || upto > results.len() {
        Seq::empty()
    } else {
        substance_lines(results, width, verbose, upto - 1) + substance_line(
            results[upto - 1],
            width,
            verbose,
        )
    }
}

/// All substances of a ruleset, followed by an empty line; nothing where
/// there are none.
pub open spec fn all_substances(rs: RuleSetResult, verbose: bool) -> Seq<char> {
    if rs.substance_results@.len() == 0 {
        Seq::empty()
    } else {
        substance_lines(
            rs.substance_results@,
            name_width(rs.substance_results@, rs.substance_results@.len() as int),
            verbose,
            rs.substance_results@.len() as int,
        ) + "\n"@
    }
}

/// The line of a substance that decides the overall category: its name,
/// category and value, with the threshold that it went beyond.
pub open spec fn determining_line(sr: SubstanceResult) -> Seq<char> {
    "    "@ + sr.raw_name@ + " -> "@ + sr.category@ + uncertain_mark(sr) + "  ("@ + (
    match sr.exceeded_threshold {
        Some(t) => sr.value.text() + " > "@ + t@.text() + " "@ + sr.unit@,
        None => sr.value.text() + " "@ + sr.unit@,
    }) + ")\n"@
}

/// Whether a substance is among those that decide the overall category.
pub open spec fn is_listed(rs: RuleSetResult, sr: SubstanceResult) -> bool {
    lists(rs.determining_substances@, sr.raw_name@)
}

/// The lines of those of the first `upto` substances that decide the
/// overall category.
pub open spec fn determining_lines(rs: RuleSetResult, upto: int) -> Seq<char>
    decreases upto,
{
    if upto <= 0 || upto > rs.substance_results@.len() {
        Seq::empty()
    } else if is_listed(rs, rs.substance_results@[upto - 1]) {
        determining_lines(rs, upto - 1) + determining_line(rs.substance_results@[upto - 1])
    } else {
        determining_lines(rs, upto - 1)
    }
}

/// The substances that decide the overall category, shown where that is
/// not the cleanest category and there are such substances.
pub open spec fn exceedances(rs: RuleSetResult) -> Seq<char> {
    let lines = determining_lines(rs, rs.substance_results@.len() as int);
    if rs.lowest_category is Some && rs.overall_category@ != rs.lowest_category->0@ && lines.len()
        > 0 {
        "  Determining substances:\n"@ + lines + "\n"@
    } else {
        Seq::empty()
    }
}

/// The rules and substances that found no match, followed by an empty
/// line.
pub open spec fn unmatched_block(rs: RuleSetResult) -> Seq<char> {
    (if rs.unmatched_rules@.len() > 0 {
        "  Rules without matching report data: "@ + joined(texts(rs.unmatched_rules@), ", "@)
            + "\n"@
    } else {
        Seq::empty()
    }) + (if rs.unmatched_substances@.len() > 0 {
        "  Report substances without rules: "@ + joined(texts(rs.unmatched_substances@), ", "@)
            + "\n"@
    } else {
        Seq::empty()
    }) + "\n"@
}

/// What is said of the result of a ruleset of thresholds.
pub open spec fn threshold_block(rs: RuleSetResult, show_all: bool, verbose: bool) -> Seq<char> {
    "  Overall: "@ + rs.overall_category@ + " ("@ + rs.overall_reason@ + ")\n\n"@ + (if verbose
        || show_all {
        all_substances(rs, verbose)
    } else {
        exceedances(rs)
    }) + (if verbose {
        unmatched_block(rs)
    } else {
        Seq::empty()
    })
}

/// Two texts one after the other, where there are both.
pub open spec fn after(a: Option<Seq<char>>, b: Option<Seq<char>>) -> Option<Seq<char>> {
    match (a, b) {
        (Some(x), Some(y)) => Some(x + y),
        _ => None,
    }
}

/// The line of one contribution to a criterion; none where its
/// concentration is too large to be written out.
pub open spec fn contribution_line(c: HpSubstanceContribution) -> Option<Seq<char>> {
    if writable(c.concentration_pct@) {
        Some(
            "    "@ + c.substance@ + " -> "@ + c.compound@ + " ("@ + c.h_code@ + "): "@
                + c.concentration_pct@.text_fixed(4) + "%"@ + (match c.threshold_pct {
                Some(t) => (if c.triggers {
                    " >= "@
                } else {
                    " < "@
                }) + t@.text() + "%"@,
                None => Seq::empty(),
            }) + (if c.triggers {
                " ***"@
            } else {
                Seq::empty()
            }) + "\n"@,
        )
    } else {
        None
    }
}

/// The lines of the first `upto` contributions.
pub open spec fn contribution_lines(contributions: Seq<HpSubstanceContribution>, upto: int) -> Option<
    Seq<char>,
>
    decreases upto,
{
    if upto <= 0 || upto > contributions.len() {
        Some(Seq::empty())
    } else {
        after(
            contribution_lines(contributions, upto - 1),
            contribution_line(contributions[upto - 1]),
        )
    }
}

/// What is said of one criterion in full: whether it is triggered, and
/// all its contributions.
pub open spec fn criterion_block(cr: HpCriterionDetail) -> Option<Seq<char>> {
    after(
        after(
            Some(
                "  "@ + cr.hp_id@ + " ("@ + cr.hp_name@ + "): "@ + (if cr.triggered {
                    "TRIGGERED"@
                } else {
                    "not triggered"@
                }) + "\n"@,
            ),
            contribution_lines(cr.contributions@, cr.contributions@.len() as int),
        ),
        Some("\n"@),
    )
}

/// What is said in full of the first `upto` criteria.
pub open spec fn criterion_blocks(criteria: Seq<HpCriterionDetail>, upto: int) -> Option<Seq<char>>
    decreases upto,
{
    if upto <= 0 || upto > criteria.len() {
        Some(Seq::empty())
    } else {
        after(criterion_blocks(criteria, upto - 1), criterion_block(criteria[upto - 1]))
    }
}

/// What a contribution that triggers is told as: compound, code and
/// concentration, with the limit that it reaches; nothing where the
/// concentration is too large to be written out.
pub open spec fn trigger_text(c: HpSubstanceContribution) -> Option<Seq<char>> {
    if writable(c.concentration_pct@) {
        Some(
            c.compound@ + " ("@ + c.h_code@ + "): "@ + c.concentration_pct@.text_fixed(4) + "%"@
                + (match c.threshold_pct {
                Some(t) => " >= "@ + t@.text() + "%"@,
                None => Seq::empty(),
            }),
        )
    } else {
        None
    }
}

/// What those of the first `upto` contributions that trigger are told as.
pub open spec fn trigger_texts(contributions: Seq<HpSubstanceContribution>, upto: int) -> Option<
    Seq<Seq<char>>,
>
    decreases upto,
{
    if upto <= 0 || upto > contributions.len() {
        Some(Seq::empty())
    } else if contributions[upto - 1].triggers {
        match (trigger_texts(contributions, upto - 1), trigger_text(contributions[upto - 1])) {
            (Some(before), Some(text)) => Some(before.push(text)),
            _ => None,
        }
    } else {
        trigger_texts(contributions, upto - 1)
    }
}

/// The line of a triggered criterion: its identifier and name in
/// columns, and the contributions that trigger, or its explanation where
/// none does.
pub open spec fn triggered_line(cr: HpCriterionDetail) -> Option<Seq<char>> {
    match trigger_texts(cr.contributions@, cr.contributions@.len() as int) {
        Some(told) => Some(
            "    "@ + padded_right(cr.hp_id@, 5) + " "@ + padded_right(cr.hp_name@, 25) + " "@ + (
            if told.len() == 0 {
                cr.reason@
            } else {
                joined(told, ", "@)
            }) + "\n"@,
        ),
        None => None,
    }
}

/// The lines of those of the first `upto` criteria that are triggered.
pub open spec fn triggered_lines(criteria: Seq<HpCriterionDetail>, upto: int) -> Option<Seq<char>>
    decreases upto,
{
    if upto <= 0 || upto > criteria.len() {
        Some(Seq::empty())
    } else if criteria[upto - 1].triggered {
        after(triggered_lines(criteria, upto - 1), triggered_line(criteria[upto - 1]))
    } else {
        triggered_lines(criteria, upto - 1)
    }
}

/// What is said of the result of the hazard evaluation: the overall
/// category with the triggered criteria; then all criteria in full where
/// `verbose` is set, or else the triggered ones where the sample is
/// hazardous. Nothing where a concentration that would be shown is too
/// large to be written out.
pub open spec fn hazard_block(rs: RuleSetResult, hp: HpDetails, verbose: bool) -> Option<Seq<char>> {
    let n = hp.criteria_results@.len() as int;
    after(
        Some(
            "  Overall: "@ + rs.overall_category@ + (if hp.is_hazardous {
                " (triggered by "@ + joined(
                    triggered_ids(criterion_views(hp.criteria_results@), n),
                    ", "@,
                ) + ")"@
            } else {
                Seq::empty()
            }) + "\n\n"@,
        ),
        if verbose {
            criterion_blocks(hp.criteria_results@, n)
        } else if hp.is_hazardous {
            after(
                after(Some("  Triggered HP criteria:\n"@), triggered_lines(hp.criteria_results@, n)),
                Some("\n"@),
            )
        } else {
            Some(Seq::empty())
        },
    )
}

/// What is said of the result of one ruleset.
pub open spec fn ruleset_block(rs: RuleSetResult, show_all: bool, verbose: bool) -> Option<
    Seq<char>,
> {
    after(
        Some("=== "@ + rs.ruleset_name@ + " ===\n\n"@),
        match rs.hp_details {
            Some(hp) => hazard_block(rs, hp, verbose),
            None => Some(threshold_block(rs, show_all, verbose)),
        },
    )
}

/// What is said of the first `upto` rulesets of a sample.
pub open spec fn ruleset_blocks(sample: SampleResult, show_all: bool, verbose: bool, upto: int) -> Option<
    Seq<char>,
>
    decreases upto,
{
    if upto <= 0 || upto > sample.ruleset_results@.len() {
        Some(Seq::empty())
    } else {
        after(
            ruleset_blocks(sample, show_all, verbose, upto - 1),
            ruleset_block(sample.ruleset_results@[upto - 1], show_all, verbose),
        )
    }
}

/// What is said of one sample: where there are several, a title with its
/// name, after an empty line but for the first; then its rulesets.
pub open spec fn sample_block(
    sample: SampleResult,
    index: int,
    several: bool,
    show_all: bool,
    verbose: bool,
) -> Option<Seq<char>> {
    after(
        Some(
            if several {
                (if index > 0 {
                    "\n"@
                } else {
                    Seq::empty()
                }) + "--- Sample: "@ + sample.sample_id@ + " ---\n\n"@
            } else {
                Seq::empty()
            },
        ),
        ruleset_blocks(sample, show_all, verbose, sample.ruleset_results@.len() as int),
    )
}

/// What is said of the first `upto` samples.
pub open spec fn sample_blocks(
    samples: Seq<SampleResult>,
    show_all: bool,
    verbose: bool,
    upto: int,
) -> Option<Seq<char>>
    decreases upto,
{
    if upto <= 0 || upto > samples.len() {
        Some(Seq::empty())
    } else {
        after(
            sample_blocks(samples, show_all, verbose, upto - 1),
            sample_block(samples[upto - 1], upto - 1, samples.len() > 1, show_all, verbose),
        )
    }
}

/// The lines of the first `upto` warnings.
pub open spec fn result_warning_lines(warnings: Seq<ParseWarning>, upto: int) -> Seq<char>
    decreases upto,
{
    if upto <= 0 || upto > warnings.len() {
        Seq::empty()
    } else {
        result_warning_lines(warnings, upto - 1) + "  - "@ + warnings[upto - 1].message@ + "\n"@
    }
}

/// A classification as text: the warnings, where there are any, and the
/// samples one after the other. Nothing where a concentration that would
/// be shown is too large to be written out.
pub open spec fn result_text(result: ClassificationResult, show_all: bool, verbose: bool) -> Option<
    Seq<char>,
> {
    after(
        Some(
            if result.warnings@.len() > 0 {
                "Warnings:\n\n"@ + result_warning_lines(
                    result.warnings@,
                    result.warnings@.len() as int,
                ) + "\n"@
            } else {
                Seq::empty()
            },
        ),
        sample_blocks(result.samples@, show_all, verbose, result.samples@.len() as int),
    )
}

/// Appends a part to a text, where there are both.
fn append_part(out: &mut Option<String>, part: Option<String>)
    ensures
        option_text(*final(out)) == after(option_text(*old(out)), option_text(part)),
{
    let so_far = out.take();
    *out = match (so_far, part) {
        (Some(mut text), Some(p)) => {
            text.append(p.as_str());
            Some(text)
        },
        _ => None,
    };
}

/// The mark of a result that a detection limit left open.
fn mark(sr: &SubstanceResult) -> (r: &'static str)
    ensures
        r@ == uncertain_mark(*sr),
{
    if sr.uncertain {
        " (?)"
    } else {
        proof {
            reveal_strlit("");
            assert(""@ =~= Seq::<char>::empty());
        }
        ""
    }
}

/// The line of one substance.
fn format_substance(sr: &SubstanceResult, width: usize, verbose: bool) -> (r: String)
    ensures
        r@ == substance_line(*sr, width, verbose),
{
    let mut out = String::from_str("  ");
    crate::text::append_padded_right(&mut out, sr.raw_name.as_str(), width);
    out.append("  ");
    out.append(sr.value.to_string().as_str());
    out.append(" ");
    out.append(sr.unit.as_str());
    out.append("  -> ");
    out.append(sr.category.as_str());
    out.append(mark(sr));
    out.append("\n");
    let ghost first = out@;
    if verbose {
        out.append("    ");
        out.append(sr.reason.as_str());
        out.append("\n");
        assert(out@ =~= first + ("    "@ + sr.reason@ + "\n"@));
    } else {
        assert(out@ =~= first + Seq::<char>::empty());
    }
    out
}

/// All substances of a ruleset.
fn format_all_substances(rs: &RuleSetResult, verbose: bool) -> (r: String)
    ensures
        r@ == all_substances(*rs, verbose),
{
    let mut out = String::new();
    if rs.substance_results.len() == 0 {
        return out;
    }
    let mut width: usize = 0;
    let mut i: usize = 0;
    while i < rs.substance_results.len()
        invariant
            i <= rs.substance_results.len(),
            width == name_width(rs.substance_results@, i as int),
        decreases rs.substance_results.len() - i,
    {
        let length = rs.substance_results[i].raw_name.as_str().len();
        if length > width {
            width = length;
        }
        i += 1;
    }
    let mut k: usize = 0;
    assert(out@ =~= substance_lines(rs.substance_results@, width, verbose, 0));
    while k < rs.substance_results.len()
        invariant
            k <= rs.substance_results.len(),
            out@ == substance_lines(rs.substance_results@, width, verbose, k as int),
        decreases rs.substance_results.len() - k,
    {
        out.append(format_substance(&rs.substance_results[k], width, verbose).as_str());
        k += 1;
    }
    out.append("\n");
    out
}

/// Whether one of the strings is the text.
fn is_among(names: &Vec<String>, name: &str) -> (r: bool)
    ensures
        r == lists(names@, name@),
{
    let mut k: usize = 0;
    while k < names.len()
        invariant
            k <= names.len(),
            forall|j: int| 0 <= j < k ==> (#[trigger] names@[j])@ != name@,
        decreases names.len() - k,
    {
        if crate::text::same_text(names[k].as_str(), name) {
            return true;
        }
        k += 1;
    }
    false
}

/// The line of a substance that decides the overall category.
fn format_determining(sr: &SubstanceResult) -> (r: String)
    ensures
        r@ == determining_line(*sr),
{
    let mut info = sr.value.to_string();
    match sr.exceeded_threshold {
        Some(t) => {
            info.append(" > ");
            info.append(t.to_text().as_str());
        },
        None => {},
    }
    info.append(" ");
    info.append(sr.unit.as_str());
    let mut out = String::from_str("    ");
    out.append(sr.raw_name.as_str());
    out.append(" -> ");
    out.append(sr.category.as_str());
    out.append(mark(sr));
    out.append("  (");
    out.append(info.as_str());
    out.append(")\n");
    out
}

/// The substances that decide the overall category.
fn format_exceedances(rs: &RuleSetResult) -> (r: String)
    ensures
        r@ == exceedances(*rs),
{
    let cleanest = match &rs.lowest_category {
        Some(c) => c,
        None => {
            return String::new();
        },
    };
    if crate::text::same_text(rs.overall_category.as_str(), cleanest.as_str()) {
        return String::new();
    }
    let mut lines = String::new();
    let mut k: usize = 0;
    assert(lines@ =~= determining_lines(*rs, 0));
    while k < rs.substance_results.len()
        invariant
            k <= rs.substance_results.len(),
            lines@ == determining_lines(*rs, k as int),
        decreases rs.substance_results.len() - k,
    {
        let sr = &rs.substance_results[k];
        if is_among(&rs.determining_substances, sr.raw_name.as_str()) {
            lines.append(format_determining(sr).as_str());
        }
        k += 1;
    }
    if lines.as_str().unicode_len() == 0 {
        return String::new();
    }
    let mut out = String::from_str("  Determining substances:\n");
    out.append(lines.as_str());
    out.append("\n");
    out
}

/// The rules and substances that found no match.
fn format_unmatched(rs: &RuleSetResult) -> (r: String)
    ensures
        r@ == unmatched_block(*rs),
{
    let mut out = String::new();
    if rs.unmatched_rules.len() > 0 {
        out.append("  Rules without matching report data: ");
        out.append(crate::text::join(&rs.unmatched_rules, ", ").as_str());
        out.append("\n");
    }
    let ghost first = out@;
    if rs.unmatched_substances.len() > 0 {
        out.append("  Report substances without rules: ");
        out.append(crate::text::join(&rs.unmatched_substances, ", ").as_str());
        out.append("\n");
        assert(out@ =~= first + ("  Report substances without rules: "@ + joined(
            texts(rs.unmatched_substances@),
            ", "@,
        ) + "\n"@));
    } else {
        assert(out@ =~= first + Seq::<char>::empty());
    }
    out.append("\n");
    assert(out@ =~= unmatched_block(*rs));
    out
}

/// What is said of the result of a ruleset of thresholds.
fn format_thresholds(rs: &RuleSetResult, show_all: bool, verbose: bool) -> (r: String)
    ensures
        r@ == threshold_block(*rs, show_all, verbose),
{
    let mut out = String::from_str("  Overall: ");
    out.append(rs.overall_category.as_str());
    out.append(" (");
    out.append(rs.overall_reason.as_str());
    out.append(")\n\n");
    if verbose || show_all {
        out.append(format_all_substances(rs, verbose).as_str());
    } else {
        out.append(format_exceedances(rs).as_str());
    }
    let ghost first = out@;
    if verbose {
        out.append(format_unmatched(rs).as_str());
    } else {
        assert(out@ =~= first + Seq::<char>::empty());
    }
    out
}

/// The line of one contribution to a criterion.
fn format_contribution(c: &HpSubstanceContribution) -> (r: Option<String>)
    ensures
        option_text(r) == contribution_line(*c),
{
    let written = match c.concentration_pct.try_text_fixed(4) {
        Some(text) => text,
        None => {
            return None;
        },
    };
    let mut out = String::from_str("    ");
    out.append(c.substance.as_str());
    out.append(" -> ");
    out.append(c.compound.as_str());
    out.append(" (");
    out.append(c.h_code.as_str());
    out.append("): ");
    out.append(written.as_str());
    out.append("%");
    let ghost first = out@;
    match c.threshold_pct {
        Some(t) => {
            let ghost sign = if c.triggers {
                " >= "@
            } else {
                " < "@
            };
            if c.triggers {
                out.append(" >= ");
            } else {
                out.append(" < ");
            }
            out.append(t.to_text().as_str());
            out.append("%");
            assert(out@ =~= first + (sign + t@.text() + "%"@));
        },
        None => {
            assert(out@ =~= first + Seq::<char>::empty());
        },
    }
    let ghost second = out@;
    if c.triggers {
        out.append(" ***");
    } else {
        assert(out@ =~= second + Seq::<char>::empty());
    }
    out.append("\n");
    Some(out)
}

/// What is said of one criterion in full.
fn format_criterion(cr: &HpCriterionDetail) -> (r: Option<String>)
    ensures
        option_text(r) == criterion_block(*cr),
{
    let mut head = String::from_str("  ");
    head.append(cr.hp_id.as_str());
    head.append(" (");
    head.append(cr.hp_name.as_str());
    head.append("): ");
    if cr.triggered {
        head.append("TRIGGERED");
    } else {
        head.append("not triggered");
    }
    head.append("\n");
    let mut lines: Option<String> = Some(String::new());
    let mut k: usize = 0;
    while k < cr.contributions.len()
        invariant
            k <= cr.contributions.len(),
            option_text(lines) == contribution_lines(cr.contributions@, k as int),
        decreases cr.contributions.len() - k,
    {
        append_part(&mut lines, format_contribution(&cr.contributions[k]));
        k += 1;
    }
    let mut out: Option<String> = Some(head);
    append_part(&mut out, lines);
    append_part(&mut out, Some(String::from_str("\n")));
    out
}

/// What a contribution that triggers is told as.
fn format_trigger(c: &HpSubstanceContribution) -> (r: Option<String>)
    ensures
        option_text(r) == trigger_text(*c),
{
    let written = match c.concentration_pct.try_text_fixed(4) {
        Some(text) => text,
        None => {
            return None;
        },
    };
    let mut text = c.compound.clone();
    text.append(" (");
    text.append(c.h_code.as_str());
    text.append("): ");
    text.append(written.as_str());
    text.append("%");
    let ghost first = text@;
    match c.threshold_pct {
        Some(t) => {
            text.append(" >= ");
            text.append(t.to_text().as_str());
            text.append("%");
            assert(text@ =~= first + (" >= "@ + t@.text() + "%"@));
        },
        None => {
            assert(text@ =~= first + Seq::<char>::empty());
        },
    }
    Some(text)
}

/// The texts by their characters, where there are any.
pub open spec fn option_texts(v: Option<Vec<String>>) -> Option<Seq<Seq<char>>> {
    match v {
        Some(list) => Some(texts(list@)),
        None => None,
    }
}

/// The line of a triggered criterion.
fn format_triggered(cr: &HpCriterionDetail) -> (r: Option<String>)
    ensures
        option_text(r) == triggered_line(*cr),
{
    let mut told: Option<Vec<String>> = Some(Vec::new());
    let mut k: usize = 0;
    assert(texts(told->0@) =~= Seq::empty());
    while k < cr.contributions.len()
        invariant
            k <= cr.contributions.len(),
            option_texts(told) == trigger_texts(cr.contributions@, k as int),
        decreases cr.contributions.len() - k,
    {
        let c = &cr.contributions[k];
        if c.triggers {
            told = match (told, format_trigger(c)) {
                (Some(mut list), Some(text)) => {
                    let ghost before = texts(list@);
                    let ghost added = text@;
                    list.push(text);
                    assert(texts(list@) =~= before.push(added));
                    Some(list)
                },
                _ => None,
            };
        }
        k += 1;
    }
    let told = match told {
        Some(list) => list,
        None => {
            return None;
        },
    };
    let mut out = String::from_str("    ");
    crate::text::append_padded_right(&mut out, cr.hp_id.as_str(), 5);
    out.append(" ");
    crate::text::append_padded_right(&mut out, cr.hp_name.as_str(), 25);
    out.append(" ");
    if told.len() == 0 {
        out.append(cr.reason.as_str());
    } else {
        out.append(crate::text::join(&told, ", ").as_str());
    }
    out.append("\n");
    Some(out)
}

/// The identifiers of the triggered criteria.
fn triggered_names(criteria: &Vec<HpCriterionDetail>) -> (ids: Vec<String>)
    ensures
        texts(ids@) == triggered_ids(criterion_views(criteria@), criteria.len() as int),
{
    let mut ids: Vec<String> = Vec::new();
    let mut k: usize = 0;
    assert(texts(ids@) =~= Seq::empty());
    while k < criteria.len()
        invariant
            k <= criteria.len(),
            texts(ids@) == triggered_ids(criterion_views(criteria@), k as int),
        decreases criteria.len() - k,
    {
        assert(criterion_views(criteria@)[k as int] == criteria@[k as int]@);
        if criteria[k].triggered {
            let id = criteria[k].hp_id.clone();
            let ghost before = texts(ids@);
            ids.push(id);
            assert(texts(ids@) =~= before.push(id@));
        }
        k += 1;
    }
    ids
}

/// What is said of the result of the hazard evaluation; nothing where a
/// concentration that would be shown is too large to be written out.
pub fn format_hp_result(rs: &RuleSetResult, hp: &HpDetails, verbose: bool) -> (r: Option<String>)
    ensures
        option_text(r) == hazard_block(*rs, *hp, verbose),
{
    let mut head = String::from_str("  Overall: ");
    head.append(rs.overall_category.as_str());
    let ghost first = head@;
    if hp.is_hazardous {
        head.append(" (triggered by ");
        head.append(crate::text::join(&triggered_names(&hp.criteria_results), ", ").as_str());
        head.append(")");
        assert(head@ =~= first + (" (triggered by "@ + joined(
            triggered_ids(
                criterion_views(hp.criteria_results@),
                hp.criteria_results@.len() as int,
            ),
            ", "@,
        ) + ")"@));
    } else {
        assert(head@ =~= first + Seq::<char>::empty());
    }
    head.append("\n\n");
    let mut out: Option<String> = Some(head);
    if verbose {
        let mut blocks: Option<String> = Some(String::new());
        let mut k: usize = 0;
        while k < hp.criteria_results.len()
            invariant
                k <= hp.criteria_results.len(),
                option_text(blocks) == criterion_blocks(hp.criteria_results@, k as int),
            decreases hp.criteria_results.len() - k,
        {
            append_part(&mut blocks, format_criterion(&hp.criteria_results[k]));
            k += 1;
        }
        append_part(&mut out, blocks);
    } else if hp.is_hazardous {
        let mut lines: Option<String> = Some(String::new());
        let mut k: usize = 0;
        while k < hp.criteria_results.len()
            invariant
                k <= hp.criteria_results.len(),
                option_text(lines) == triggered_lines(hp.criteria_results@, k as int),
            decreases hp.criteria_results.len() - k,
        {
            if hp.criteria_results[k].triggered {
                append_part(&mut lines, format_triggered(&hp.criteria_results[k]));
            }
            k += 1;
        }
        let mut shown: Option<String> = Some(String::from_str("  Triggered HP criteria:\n"));
        append_part(&mut shown, lines);
        append_part(&mut shown, Some(String::from_str("\n")));
        append_part(&mut out, shown);
    } else {
        append_part(&mut out, Some(String::new()));
    }
    out
}

/// What is said of the result of one ruleset.
fn format_ruleset(rs: &RuleSetResult, show_all: bool, verbose: bool) -> (r: Option<String>)
    ensures
        option_text(r) == ruleset_block(*rs, show_all, verbose),
{
    let mut head = String::from_str("=== ");
    head.append(rs.ruleset_name.as_str());
    head.append(" ===\n\n");
    let mut out: Option<String> = Some(head);
    match &rs.hp_details {
        Some(hp) => {
            append_part(&mut out, format_hp_result(rs, hp, verbose));
        },
        None => {
            append_part(&mut out, Some(format_thresholds(rs, show_all, verbose)));
        },
    }
    out
}

/// What is said of one sample.
fn format_sample(sample: &SampleResult, index: usize, several: bool, show_all: bool, verbose: bool) -> (r:
    Option<String>)
    ensures
        option_text(r) == sample_block(*sample, index as int, several, show_all, verbose),
{
    let mut head = String::new();
    if several {
        if index > 0 {
            head.append("\n");
        }
        head.append("--- Sample: ");
        head.append(sample.sample_id.as_str());
        head.append(" ---\n\n");
    }
    assert(head@ =~= if several {
        (if index > 0 {
            "\n"@
        } else {
            Seq::empty()
        }) + "--- Sample: "@ + sample.sample_id@ + " ---\n\n"@
    } else {
        Seq::empty()
    });
    let mut blocks: Option<String> = Some(String::new());
    let mut k: usize = 0;
    while k < sample.ruleset_results.len()
        invariant
            k <= sample.ruleset_results.len(),
            option_text(blocks) == ruleset_blocks(*sample, show_all, verbose, k as int),
        decreases sample.ruleset_results.len() - k,
    {
        append_part(&mut blocks, format_ruleset(&sample.ruleset_results[k], show_all, verbose));
        k += 1;
    }
    let mut out: Option<String> = Some(head);
    append_part(&mut out, blocks);
    out
}

/// Lays a classification out as text for people to read. Without
/// `show_all` and `verbose` only the substances that decide a category
/// other than the cleanest are shown; with `show_all` all substances; with
/// `verbose` the explanations and the unmatched names too. `None` where a
/// concentration that would be shown is too large to be written out.
pub fn format_result(result: &ClassificationResult, show_all: bool, verbose: bool) -> (r: Option<
    String,
>)
    ensures
        option_text(r) == result_text(*result, show_all, verbose),
{
    let mut head = String::new();
    if result.warnings.len() > 0 {
        head.append("Warnings:\n\n");
        let ghost start = head@;
        let mut k: usize = 0;
        assert(head@ =~= start + result_warning_lines(result.warnings@, 0));
        while k < result.warnings.len()
            invariant
                k <= result.warnings.len(),
                head@ == start + result_warning_lines(result.warnings@, k as int),
            decreases result.warnings.len() - k,
        {
            let ghost before = result_warning_lines(result.warnings@, k as int);
            head.append("  - ");
            head.append(result.warnings[k].message.as_str());
            head.append("\n");
            assert(head@ =~= start + (before + "  - "@ + result.warnings@[k as int].message@
                + "\n"@));
            k += 1;
        }
        head.append("\n");
    }
    let several = result.samples.len() > 1;
    let mut blocks: Option<String> = Some(String::new());
    let mut i: usize = 0;
    while i < result.samples.len()
        invariant
            i <= result.samples.len(),
            several == (result.samples@.len() > 1),
            option_text(blocks) == sample_blocks(result.samples@, show_all, verbose, i as int),
        decreases result.samples.len() - i,
    {
        append_part(&mut blocks, format_sample(&result.samples[i], i, several, show_all, verbose));
        i += 1;
    }
    let mut out: Option<String> = Some(head);
    append_part(&mut out, blocks);
    out
}

} // verus!
