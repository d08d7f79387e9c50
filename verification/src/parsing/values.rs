//! Values as laboratories write them.

use crate::decimal::{parsed_decimal, Decimal, Parts};
use crate::error::SondaError;
use crate::model::{AnalysisValue, ValueView};
use crate::text::trimmed;
use vstd::prelude::*;
use vstd::string::StringExecFns;

verus! {

/// A text with each comma replaced by a point.
pub open spec fn dotted(s: Seq<char>) -> Seq<char> {
    s.map_values(|c: char| if c == ',' {
        '.'
    } else {
        c
    })
}

/// The number that a text denotes, with a comma or a point before its
/// fraction; or why it denotes none.
pub open spec fn number_of(s: Seq<char>) -> Result<Parts, Seq<char>> {
    match parsed_decimal(dotted(trimmed(s))) {
        Ok((mantissa, scale)) => Ok(Parts { mantissa, scale }),
        Err(e) => Err("invalid number '"@ + trimmed(s) + "': "@ + e),
    }
}

/// Whether a text stands for a missing value.
pub open spec fn is_blank(t: Seq<char>) -> bool {
    t.len() == 0 || t == "*"@ || t == "-"@ || t == "\u{e2}\u{20ac}\u{201d}"@ || t == "n.a."@ || t
        == "N/A"@
}

/// The value that a text denotes: none where it stands for a missing
/// value; a detection limit where it begins with `<`; else a measurement.
pub open spec fn value_of(s: Seq<char>) -> Result<Option<ValueView>, Seq<char>> {
    let t = trimmed(s);
    if is_blank(t) {
        Ok(None)
    } else if t[0] == '<' {
        match number_of(t.subrange(1, t.len() as int)) {
            Ok(limit) => Ok(Some(ValueView::BelowDetection(limit))),
            Err(e) => Err(e),
        }
    } else {
        match number_of(t) {
            Ok(value) => Ok(Some(ValueView::Measured(value))),
            Err(e) => Err(e),
        }
    }
}

/// What reading a value yields.
pub open spec fn is_value_outcome(r: Result<Option<AnalysisValue>, SondaError>, s: Seq<char>) -> bool {
    match value_of(s) {
        Ok(Some(v)) => r matches Ok(Some(x)) && x@ == v,
        Ok(None) => r matches Ok(None),
        Err(message) => r matches Err(SondaError::ParseError(m)) && m@ == message,
    }
}

/// The number that the characters `v[from..to]` denote.
fn parse_decimal(v: &Vec<char>, from: usize, to: usize) -> (r: Result<Decimal, String>)
    requires
        from <= to <= v.len(),
    ensures
        match number_of(v@.subrange(from as int, to as int)) {
            Ok(parts) => r matches Ok(d) && d@ == parts,
            Err(message) => r matches Err(m) && m@ == message,
        },
{
    let (a, b) = crate::text::trim_bounds(v, from, to);
    let ghost t = v@.subrange(a as int, b as int);
    let mut normalized = String::new();
    let mut i: usize = a;
    assert(dotted(t).take(0) =~= Seq::empty());
    while i < b
        invariant
            a <= i <= b <= v.len(),
            t == v@.subrange(a as int, b as int),
            normalized@ == dotted(t).take(i - a),
        decreases b - i,
    {
        let c = if v[i] == ',' {
            '.'
        } else {
            v[i]
        };
        crate::text::push_char(&mut normalized, c);
        i += 1;
        assert(dotted(t).take(i - a) =~= dotted(t).take(i - a - 1).push(dotted(t)[i - a - 1]));
    }
    assert(dotted(t).take(b - a) =~= dotted(t));
    match Decimal::parse(normalized.as_str()) {
        Ok(d) => Ok(d),
        Err(e) => {
            let mut message = String::from_str("invalid number '");
            message.append(crate::text::text_of(v, a, b).as_str());
            message.append("': ");
            message.append(e.as_str());
            Err(message)
        },
    }
}

/// Reads a value: a number as `68`, `0.030` or `0,030`; a detection limit
/// as `< 0.030` or `<0,030`; nothing where the text is empty or a mark for
/// a missing value.
pub fn parse_value(s: &str) -> (r: Result<Option<AnalysisValue>, SondaError>)
    ensures
        is_value_outcome(r, s@),
{
    let t = crate::text::trimmed_chars(s);
    if t.len() == 0 || crate::text::chars_equal(&t, "*") || crate::text::chars_equal(&t, "-")
        || crate::text::chars_equal(&t, "\u{e2}\u{20ac}\u{201d}") || crate::text::chars_equal(
        &t,
        "n.a.",
    ) || crate::text::chars_equal(&t, "N/A") {
        return Ok(None);
    }
    if t[0] == '<' {
        match parse_decimal(&t, 1, t.len()) {
            Ok(limit) => Ok(Some(AnalysisValue::BelowDetection(limit))),
            Err(message) => Err(SondaError::ParseError(message)),
        }
    } else {
        assert(t@.subrange(0, t.len() as int) == t@);
        match parse_decimal(&t, 0, t.len()) {
            Ok(value) => Ok(Some(AnalysisValue::Measured(value))),
            Err(message) => Err(SondaError::ParseError(message)),
        }
    }
}

} // verus!
