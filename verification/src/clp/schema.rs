//! The reference data: hazard classifications of compounds, and the
//! compounds that stand for the substances of a report.

use crate::decimal::Decimal;
use crate::text::has_prefix;
use vstd::prelude::*;

verus! {

/// One hazard classification of a compound.
#[derive(Debug, Clone)]
pub struct HazardClass {
    /// The hazard class, such as `Carc.` or `Aquatic Acute`.
    pub class: String,
    /// The category within the class, such as `1A`.
    pub category: String,
    /// The hazard statement code, such as `H350`.
    pub h_code: String,
    /// The exposure route, where the classification has one.
    pub route: Option<String>,
}

/// Multipliers for aquatic toxicity.
#[derive(Debug, Clone, Copy)]
pub struct MFactors {
    pub acute: Option<Decimal>,
    pub chronic: Option<Decimal>,
}

/// A specific concentration limit: the key is the hazard class and the
/// category, joined by a dot.
#[derive(Debug, Clone)]
pub struct ConcentrationLimit {
    pub key: String,
    pub limit: Decimal,
}

/// A compound with its hazard classifications.
#[derive(Debug, Clone)]
pub struct ClpSubstance {
    pub name: String,
    pub hazard_classes: Vec<HazardClass>,
    pub m_factors: MFactors,
    /// Limits that replace the generic ones. Where a key occurs more than
    /// once, its first entry counts.
    pub scls: Vec<ConcentrationLimit>,
}

/// The index of the first classification at or after `from` whose code is
/// `code`, or, where `prefix` is set, begins with it.
pub open spec fn first_class(
    classes: Seq<HazardClass>,
    code: Seq<char>,
    prefix: bool,
    from: int,
) -> Option<int>
    decreases classes.len() - from,
{
    if from < 0 || from >= classes.len() {
        None
    } else if (prefix && has_prefix(classes[from].h_code@, code)) || (!prefix
        && classes[from].h_code@ == code) {
        Some(from)
    } else {
        first_class(classes, code, prefix, from + 1)
    }
}

/// The indices before `upto` of the classifications whose code begins
/// with `prefix`.
pub open spec fn classes_with_prefix(classes: Seq<HazardClass>, prefix: Seq<char>, upto: int) -> Seq<
    int,
>
    decreases upto,
{
    if upto <= 0 || upto > classes.len() {
        Seq::empty()
    } else if has_prefix(classes[upto - 1].h_code@, prefix) {
        classes_with_prefix(classes, prefix, upto - 1).push(upto - 1)
    } else {
        classes_with_prefix(classes, prefix, upto - 1)
    }
}

/// The limit that the entries give for a key: that of the first entry
/// with this key.
pub open spec fn limit_in(entries: Seq<ConcentrationLimit>, key: Seq<char>) -> Option<Decimal>
    decreases entries.len(),
{
    if entries.len() == 0 {
        None
    } else if entries[0].key@ == key {
        Some(entries[0].limit)
    } else {
        limit_in(entries.drop_first(), key)
    }
}

impl ClpSubstance {
    /// Whether the compound carries exactly this hazard code.
    pub open spec fn carries(&self, code: Seq<char>) -> bool {
        first_class(self.hazard_classes@, code, false, 0) is Some
    }

    /// Whether the compound carries a hazard code that begins with `prefix`.
    pub open spec fn carries_prefix(&self, prefix: Seq<char>) -> bool {
        first_class(self.hazard_classes@, prefix, true, 0) is Some
    }

    /// The specific concentration limit under a key, if there is one.
    pub open spec fn limit_of(&self, key: Seq<char>) -> Option<Decimal> {
        limit_in(self.scls@, key)
    }

    /// The index of the first classification whose code is `code`, or
    /// begins with it where `prefix` is set.
    pub fn find_class(&self, code: &str, prefix: bool) -> (r: Option<usize>)
        ensures
            match r {
                Some(k) => k < self.hazard_classes.len() && first_class(
                    self.hazard_classes@,
                    code@,
                    prefix,
                    0,
                ) == Some(k as int),
                None => first_class(self.hazard_classes@, code@, prefix, 0) is None,
            },
    {
        let mut k: usize = 0;
        while k < self.hazard_classes.len()
            invariant
                k <= self.hazard_classes.len(),
                first_class(self.hazard_classes@, code@, prefix, 0) == first_class(
                    self.hazard_classes@,
                    code@,
                    prefix,
                    k as int,
                ),
            decreases self.hazard_classes.len() - k,
        {
            let found = if prefix {
                crate::text::starts_with(self.hazard_classes[k].h_code.as_str(), code)
            } else {
                crate::text::same_text(self.hazard_classes[k].h_code.as_str(), code)
            };
            if found {
                return Some(k);
            }
            k += 1;
        }
        None
    }

    /// Whether the compound carries exactly this hazard code.
    pub fn has_h_code(&self, code: &str) -> (r: bool)
        ensures
            r == self.carries(code@),
    {
        self.find_class(code, false).is_some()
    }

    /// Whether the compound carries a hazard code that begins with
    /// `prefix`, as `H350i` begins with `H350`.
    pub fn has_h_code_prefix(&self, prefix: &str) -> (r: bool)
        ensures
            r == self.carries_prefix(prefix@),
    {
        self.find_class(prefix, true).is_some()
    }

    /// The first classification with exactly this hazard code.
    pub fn get_hazard_class(&self, code: &str) -> (r: Option<&HazardClass>)
        ensures
            match first_class(self.hazard_classes@, code@, false, 0) {
                Some(k) => r == Some(&self.hazard_classes[k]),
                None => r is None,
            },
    {
        match self.find_class(code, false) {
            Some(k) => Some(&self.hazard_classes[k]),
            None => None,
        }
    }

    /// All classifications whose code begins with `prefix`, in their order.
    pub fn get_hazard_classes_prefix(&self, prefix: &str) -> (r: Vec<&HazardClass>)
        ensures
            r.len() == classes_with_prefix(
                self.hazard_classes@,
                prefix@,
                self.hazard_classes.len() as int,
            ).len(),
            forall|n: int|
                0 <= n < r.len() ==> *#[trigger] r[n] == self.hazard_classes[classes_with_prefix(
                    self.hazard_classes@,
                    prefix@,
                    self.hazard_classes.len() as int,
                )[n]],
    {
        let mut out: Vec<&HazardClass> = Vec::new();
        let mut k: usize = 0;
        while k < self.hazard_classes.len()
            invariant
                k <= self.hazard_classes.len(),
                out.len() == classes_with_prefix(self.hazard_classes@, prefix@, k as int).len(),
                forall|n: int|
                    0 <= n < out.len() ==> *#[trigger] out[n]
                        == self.hazard_classes[classes_with_prefix(
                        self.hazard_classes@,
                        prefix@,
                        k as int,
                    )[n]],
            decreases self.hazard_classes.len() - k,
        {
            if crate::text::starts_with(self.hazard_classes[k].h_code.as_str(), prefix) {
                out.push(&self.hazard_classes[k]);
            }
            k += 1;
        }
        out
    }

    /// The specific concentration limit under a key, if there is one.
    pub fn specific_limit(&self, key: &str) -> (r: Option<Decimal>)
        ensures
            r == self.limit_of(key@),
    {
        let mut i: usize = 0;
        assert(self.scls@.skip(0) == self.scls@);
        while i < self.scls.len()
            invariant
                i <= self.scls.len(),
                limit_in(self.scls@, key@) == limit_in(self.scls@.skip(i as int), key@),
            decreases self.scls.len() - i,
        {
            proof {
                assert(self.scls@.skip(i as int).drop_first() == self.scls@.skip(i + 1));
            }
            if crate::text::same_text(self.scls[i].key.as_str(), key) {
                return Some(self.scls[i].limit);
            }
            i += 1;
        }
        None
    }
}

/// A compound under its chemical identifier.
#[derive(Debug, Clone)]
pub struct ClpEntry {
    pub cas: String,
    pub substance: ClpSubstance,
}

/// The hazard classifications of all known compounds. Where an identifier
/// occurs more than once, its first entry counts.
#[derive(Debug, Clone)]
pub struct ClpDatabase {
    pub version: String,
    pub description: String,
    pub substances: Vec<ClpEntry>,
}

/// The compound that stands for a metal, and the factor that turns the
/// mass of the element into the mass of the compound.
#[derive(Debug, Clone)]
pub struct MetalSpeciation {
    /// Normalized substance name.
    pub substance: String,
    pub compound: String,
    pub cas: String,
    pub conversion_factor: Decimal,
    pub conversion_note: Option<String>,
}

/// A substance that is itself a known compound.
#[derive(Debug, Clone)]
pub struct PahDirect {
    /// Normalized substance name.
    pub substance: String,
    pub cas: String,
}

/// Which compound stands for which substance.
#[derive(Debug, Clone)]
pub struct SpeciationTable {
    pub version: String,
    pub description: String,
    pub metals: Vec<MetalSpeciation>,
    pub pah_direct: Vec<PahDirect>,
}

} // verus!
