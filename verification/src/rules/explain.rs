//! Rulesets told in plain words.

use crate::rules::schema::{CategoryDescription, RuleSetDef, SubstanceRuleDef};
use crate::text::{byte_length, decimal_digits, joined, padded_right, repeated, texts};
use vstd::prelude::*;
use vstd::string::StringExecFns;

verus! {

/// The description that the entries give for a category: that of the
/// first entry from `from` on with this name.
pub open spec fn description_in(
    entries: Seq<CategoryDescription>,
    category: Seq<char>,
    from: int,
) -> Option<Seq<char>>
    decreases entries.len() - from,
{
    if from < 0 || from >= entries.len() {
        None
    } else if entries[from].category@ == category {
        Some(entries[from].text@)
    } else {
        description_in(entries, category, from + 1)
    }
}

/// What a ruleset classifies, told by its matrix.
pub open spec fn material(rs: RuleSetDef) -> Seq<char> {
    match rs.matrix {
        Some(m) => if m@ == "jord"@ {
            "soil"@
        } else if m@ == "asfalt"@ {
            "asphalt"@
        } else {
            "samples"@
        },
        None => "samples"@,
    }
}

/// The first `upto` categories, each with its description where it has
/// one, and an empty line after each.
pub open spec fn category_lines(rs: RuleSetDef, upto: int) -> Seq<char>
    decreases upto,
{
    if upto <= 0 || upto > rs.categories@.len() {
        Seq::empty()
    } else {
        category_lines(rs, upto - 1) + "  "@ + rs.categories@[upto - 1]@ + (match description_in(
            rs.category_descriptions@,
            rs.categories@[upto - 1]@,
            0,
        ) {
            Some(text) => " -- "@ + text,
            None => Seq::empty(),
        }) + "\n\n"@
    }
}

/// The number of bytes of the longest substance name among the first
/// `upto` rules; twenty where there is no rule.
pub open spec fn substance_width(rules: Seq<SubstanceRuleDef>, upto: int) -> usize
    decreases upto,
{
    if rules.len() == 0 {
        20
    } else if upto <= 0 || upto > rules.len() {
        0
    } else {
        let before = substance_width(rules, upto - 1);
        if byte_length(rules[upto - 1].substance@) > before {
            byte_length(rules[upto - 1].substance@)
        } else {
            before
        }
    }
}

/// A sum as far as a `usize` can hold it.
pub open spec fn capped(n: int) -> usize {
    if n <= usize::MAX {
        n as usize
    } else {
        usize::MAX
    }
}

/// The width of the first column: two more than the longest name.
pub open spec fn first_column(rs: RuleSetDef) -> usize {
    capped(substance_width(rs.rules@, rs.rules@.len() as int) + 2)
}

/// The first `upto` categories as titles of columns.
pub open spec fn category_titles(rs: RuleSetDef, upto: int) -> Seq<char>
    decreases upto,
{
    if upto <= 0 || upto > rs.categories@.len() {
        Seq::empty()
    } else {
        category_titles(rs, upto - 1) + "  "@ + padded_right(rs.categories@[upto - 1]@, 10)
    }
}

/// The thresholds of a rule for the first `upto` categories, in columns;
/// a dash where the rule has none.
pub open spec fn threshold_cells(rs: RuleSetDef, rule: SubstanceRuleDef, upto: int) -> Seq<char>
    decreases upto,
{
    if upto <= 0 || upto > rs.categories@.len() {
        Seq::empty()
    } else {
        threshold_cells(rs, rule, upto - 1) + "  "@ + padded_right(
            match rule.threshold_of(rs.categories@[upto - 1]@) {
                Some(t) => t@.text(),
                None => "-"@,
            },
            10,
        )
    }
}

/// The line of a rule in the table of thresholds.
pub open spec fn rule_line(rs: RuleSetDef, rule: SubstanceRuleDef) -> Seq<char> {
    "  "@ + padded_right(rule.substance@, first_column(rs) as nat) + threshold_cells(
        rs,
        rule,
        rs.categories@.len() as int,
    ) + "  "@ + crate::classify::engine::unit_of(rule) + "\n"@
}

/// The lines of the first `upto` rules.
pub open spec fn rule_lines(rs: RuleSetDef, upto: int) -> Seq<char>
    decreases upto,
{
    if upto <= 0 || upto > rs.rules@.len() {
        Seq::empty()
    } else {
        rule_lines(rs, upto - 1) + rule_line(rs, rs.rules@[upto - 1])
    }
}

/// The length of the rule under the titles.
pub open spec fn table_rule_length(rs: RuleSetDef) -> usize {
    capped(capped(first_column(rs) + capped(rs.categories@.len() as int * 12)) + 10)
}

/// A ruleset told in plain words: its name and version, what it
/// classifies into which categories, and the table of its thresholds.
pub open spec fn explanation(rs: RuleSetDef) -> Seq<char> {
    rs.name@ + " (version "@ + rs.version@ + ")\n\n"@ + (match rs.description {
        Some(d) => d@ + "\n\n"@,
        None => Seq::empty(),
    }) + "This ruleset classifies "@ + material(rs) + " into "@ + decimal_digits(
        rs.categories@.len(),
    ) + " categories:\n\n"@ + category_lines(rs, rs.categories@.len() as int)
        + "If any substance exceeds all thresholds, the soil does not meet\neither standard and requires further assessment.\n\nThresholds:\n\n"@
        + "  "@ + padded_right("Substance"@, first_column(rs) as nat) + category_titles(
        rs,
        rs.categories@.len() as int,
    ) + "  Unit\n  "@ + repeated('-', table_rule_length(rs) as nat) + "\n"@ + rule_lines(
        rs,
        rs.rules@.len() as int,
    ) + "\n"@
}

/// The description of a category.
fn find_description<'a>(entries: &'a Vec<CategoryDescription>, category: &str) -> (r: Option<
    &'a String,
>)
    ensures
        match r {
            Some(text) => description_in(entries@, category@, 0) == Some(text@),
            None => description_in(entries@, category@, 0) is None,
        },
{
    let mut k: usize = 0;
    while k < entries.len()
        invariant
            k <= entries.len(),
            description_in(entries@, category@, 0) == description_in(entries@, category@, k as int),
        decreases entries.len() - k,
    {
        if crate::text::same_text(entries[k].category.as_str(), category) {
            return Some(&entries[k].text);
        }
        k += 1;
    }
    None
}

/// The line of a rule in the table of thresholds.
fn format_rule(rs: &RuleSetDef, rule: &SubstanceRuleDef, width: usize) -> (r: String)
    requires
        width == first_column(*rs),
    ensures
        r@ == rule_line(*rs, *rule),
{
    let mut out = String::from_str("  ");
    crate::text::append_padded_right(&mut out, rule.substance.as_str(), width);
    let ghost head = out@;
    let mut k: usize = 0;
    assert(out@ =~= head + threshold_cells(*rs, *rule, 0));
    while k < rs.categories.len()
        invariant
            k <= rs.categories.len(),
            out@ == head + threshold_cells(*rs, *rule, k as int),
        decreases rs.categories.len() - k,
    {
        let ghost before = threshold_cells(*rs, *rule, k as int);
        let cell = match rule.threshold(rs.categories[k].as_str()) {
            Some(t) => t.to_text(),
            None => String::from_str("-"),
        };
        out.append("  ");
        crate::text::append_padded_right(&mut out, cell.as_str(), 10);
        assert(out@ =~= head + (before + "  "@ + padded_right(cell@, 10)));
        k += 1;
    }
    out.append("  ");
    match &rule.unit {
        Some(u) => {
            out.append(u.as_str());
        },
        None => {
            out.append("mg/kg TS");
        },
    }
    out.append("\n");
    out
}

/// Tells a ruleset in plain words.
pub fn explain_ruleset(rs: &RuleSetDef) -> (r: String)
    ensures
        r@ == explanation(*rs),
{
    let mut out = rs.name.clone();
    out.append(" (version ");
    out.append(rs.version.as_str());
    out.append(")\n\n");
    let ghost first = out@;
    match &rs.description {
        Some(d) => {
            out.append(d.as_str());
            out.append("\n\n");
            assert(out@ =~= first + (d@ + "\n\n"@));
        },
        None => {
            assert(out@ =~= first + Seq::<char>::empty());
        },
    }
    out.append("This ruleset classifies ");
    let what = match &rs.matrix {
        Some(m) => if crate::text::same_text(m.as_str(), "jord") {
            "soil"
        } else if crate::text::same_text(m.as_str(), "asfalt") {
            "asphalt"
        } else {
            "samples"
        },
        None => "samples",
    };
    out.append(what);
    out.append(" into ");
    out.append(crate::text::number_text(rs.categories.len()).as_str());
    out.append(" categories:\n\n");
    let ghost head = out@;
    let mut i: usize = 0;
    assert(out@ =~= head + category_lines(*rs, 0));
    while i < rs.categories.len()
        invariant
            i <= rs.categories.len(),
            out@ == head + category_lines(*rs, i as int),
        decreases rs.categories.len() - i,
    {
        let ghost before = category_lines(*rs, i as int);
        out.append("  ");
        out.append(rs.categories[i].as_str());
        let ghost mid = out@;
        match find_description(&rs.category_descriptions, rs.categories[i].as_str()) {
            Some(text) => {
                out.append(" -- ");
                out.append(text.as_str());
                assert(out@ =~= mid + (" -- "@ + text@));
            },
            None => {
                assert(out@ =~= mid + Seq::<char>::empty());
            },
        }
        out.append("\n\n");
        i += 1;
        assert(out@ =~= head + category_lines(*rs, i as int));
    }
    out.append(
        "If any substance exceeds all thresholds, the soil does not meet\neither standard and requires further assessment.\n\nThresholds:\n\n",
    );
    let mut longest: usize = if rs.rules.len() == 0 {
        20
    } else {
        0
    };
    let mut k: usize = 0;
    while k < rs.rules.len()
        invariant
            k <= rs.rules.len(),
            longest == substance_width(rs.rules@, k as int),
        decreases rs.rules.len() - k,
    {
        let length = rs.rules[k].substance.as_str().len();
        if length > longest {
            longest = length;
        }
        k += 1;
    }
    let width = longest.saturating_add(2);
    out.append("  ");
    crate::text::append_padded_right(&mut out, "Substance", width);
    let ghost titles_head = out@;
    let mut c: usize = 0;
    assert(out@ =~= titles_head + category_titles(*rs, 0));
    while c < rs.categories.len()
        invariant
            c <= rs.categories.len(),
            out@ == titles_head + category_titles(*rs, c as int),
        decreases rs.categories.len() - c,
    {
        let ghost before = category_titles(*rs, c as int);
        out.append("  ");
        crate::text::append_padded_right(&mut out, rs.categories[c].as_str(), 10);
        assert(out@ =~= titles_head + (before + "  "@ + padded_right(
            rs.categories@[c as int]@,
            10,
        )));
        c += 1;
    }
    out.append("  Unit\n  ");
    let columns: usize = match rs.categories.len().checked_mul(12) {
        Some(n) => n,
        None => usize::MAX,
    };
    let rule = width.saturating_add(columns).saturating_add(10);
    out.append(crate::text::repeat_char('-', rule).as_str());
    out.append("\n");
    let ghost rules_head = out@;
    let mut n: usize = 0;
    assert(out@ =~= rules_head + rule_lines(*rs, 0));
    while n < rs.rules.len()
        invariant
            n <= rs.rules.len(),
            width == first_column(*rs),
            out@ == rules_head + rule_lines(*rs, n as int),
        decreases rs.rules.len() - n,
    {
        let line = format_rule(rs, &rs.rules[n], width);
        let ghost before = rule_lines(*rs, n as int);
        out.append(line.as_str());
        assert(out@ =~= rules_head + (before + line@));
        n += 1;
    }
    out.append("\n");
    out
}

/// The remarks on the first `categories` categories of rule `rule - 1`
/// and on all categories of the rules before it: one for each category
/// that a rule has no threshold for.
pub open spec fn missing_thresholds(rs: RuleSetDef, rule: int, categories: int) -> Seq<Seq<char>>
    decreases rule, categories,
{
    if rule <= 0 || rule > rs.rules@.len() || categories < 0 || categories > rs.categories@.len() {
        Seq::empty()
    } else if categories > 0 {
        let before = missing_thresholds(rs, rule, categories - 1);
        if rs.rules@[rule - 1].threshold_of(rs.categories@[categories - 1]@) is None {
            before.push(
                "substance '"@ + rs.rules@[rule - 1].substance@ + "' has no threshold for category '"@
                    + rs.categories@[categories - 1]@ + "'"@,
            )
        } else {
            before
        }
    } else {
        missing_thresholds(rs, rule - 1, rs.categories@.len() as int)
    }
}

/// The lines of the first `upto` remarks.
pub open spec fn remark_lines(remarks: Seq<Seq<char>>, upto: int) -> Seq<char>
    decreases upto,
{
    if upto <= 0 || upto > remarks.len() {
        Seq::empty()
    } else {
        remark_lines(remarks, upto - 1) + "  - "@ + remarks[upto - 1] + "\n"@
    }
}

/// What is said of a ruleset that was found valid: its name, categories
/// and number of rules, and a remark for each threshold that is missing.
pub open spec fn validation_text(rs: RuleSetDef) -> Seq<char> {
    let remarks = missing_thresholds(rs, rs.rules@.len() as int, rs.categories@.len() as int);
    "Ruleset '"@ + rs.name@ + "' (v"@ + rs.version@ + ") is valid.\n  Categories: "@ + joined(
        texts(rs.categories@),
        ", "@,
    ) + "\n  Rules: "@ + decimal_digits(rs.rules@.len()) + " substances\n"@ + (if remarks.len()
        > 0 {
        "\nWarnings:\n"@ + remark_lines(remarks, remarks.len() as int)
    } else {
        Seq::empty()
    })
}

/// Tells of a valid ruleset what it holds and which thresholds are
/// missing.
pub fn validation_report(rs: &RuleSetDef) -> (r: String)
    ensures
        r@ == validation_text(*rs),
{
    let mut remarks: Vec<String> = Vec::new();
    let mut i: usize = 0;
    assert(texts(remarks@) =~= Seq::empty());
    while i < rs.rules.len()
        invariant
            i <= rs.rules.len(),
            texts(remarks@) == missing_thresholds(*rs, i as int, rs.categories@.len() as int),
        decreases rs.rules.len() - i,
    {
        let mut c: usize = 0;
        while c < rs.categories.len()
            invariant
                i < rs.rules.len(),
                c <= rs.categories.len(),
                texts(remarks@) == missing_thresholds(*rs, i + 1, c as int),
            decreases rs.categories.len() - c,
        {
            if rs.rules[i].threshold(rs.categories[c].as_str()).is_none() {
                let mut remark = String::from_str("substance '");
                remark.append(rs.rules[i].substance.as_str());
                remark.append("' has no threshold for category '");
                remark.append(rs.categories[c].as_str());
                remark.append("'");
                let ghost before = texts(remarks@);
                remarks.push(remark);
                assert(texts(remarks@) =~= before.push(remark@));
            }
            c += 1;
        }
        i += 1;
    }
    let mut out = String::from_str("Ruleset '");
    out.append(rs.name.as_str());
    out.append("' (v");
    out.append(rs.version.as_str());
    out.append(") is valid.\n  Categories: ");
    out.append(crate::text::join(&rs.categories, ", ").as_str());
    out.append("\n  Rules: ");
    out.append(crate::text::number_text(rs.rules.len()).as_str());
    out.append(" substances\n");
    let ghost first = out@;
    if remarks.len() > 0 {
        out.append("\nWarnings:\n");
        let ghost head = out@;
        let mut k: usize = 0;
        assert(out@ =~= head + remark_lines(texts(remarks@), 0));
        while k < remarks.len()
            invariant
                k <= remarks.len(),
                out@ == head + remark_lines(texts(remarks@), k as int),
            decreases remarks.len() - k,
        {
            let ghost before = remark_lines(texts(remarks@), k as int);
            assert(texts(remarks@)[k as int] == remarks@[k as int]@);
            out.append("  - ");
            out.append(remarks[k].as_str());
            out.append("\n");
            assert(out@ =~= head + (before + "  - "@ + remarks@[k as int]@ + "\n"@));
            k += 1;
        }
        assert(out@ =~= first + ("\nWarnings:\n"@ + remark_lines(
            texts(remarks@),
            remarks@.len() as int,
        )));
    } else {
        assert(out@ =~= first + Seq::<char>::empty());
    }
    out
}

/// The entry of a ruleset in the list of presets: its name in a column,
/// then the name and version of the ruleset with its matrix in brackets,
/// its description on a line of its own, and an empty line.
pub open spec fn list_text(preset: Seq<char>, rs: RuleSetDef) -> Seq<char> {
    "  "@ + padded_right(preset, 8) + " "@ + rs.name@ + " (v"@ + rs.version@ + ")"@ + (
    match rs.matrix {
        Some(m) => " ["@ + m@ + "]"@,
        None => Seq::empty(),
    }) + "\n"@ + (match rs.description {
        Some(d) => "           "@ + d@ + "\n"@,
        None => Seq::empty(),
    }) + "\n"@
}

/// The entry of a ruleset in the list of presets.
pub fn list_entry(preset: &str, rs: &RuleSetDef) -> (r: String)
    ensures
        r@ == list_text(preset@, *rs),
{
    let mut out = String::from_str("  ");
    crate::text::append_padded_right(&mut out, preset, 8);
    out.append(" ");
    out.append(rs.name.as_str());
    out.append(" (v");
    out.append(rs.version.as_str());
    out.append(")");
    let ghost first = out@;
    match &rs.matrix {
        Some(m) => {
            out.append(" [");
            out.append(m.as_str());
            out.append("]");
            assert(out@ =~= first + (" ["@ + m@ + "]"@));
        },
        None => {
            assert(out@ =~= first + Seq::<char>::empty());
        },
    }
    out.append("\n");
    let ghost second = out@;
    match &rs.description {
        Some(d) => {
            out.append("           ");
            out.append(d.as_str());
            out.append("\n");
            assert(out@ =~= second + ("           "@ + d@ + "\n"@));
        },
        None => {
            assert(out@ =~= second + Seq::<char>::empty());
        },
    }
    out.append("\n");
    out
}

} // verus!
