//! Resolution of report rows to the compounds that stand for them, with
//! the concentration in percent by weight.

use crate::clp::database::{
    direct_of, entry_of, find_direct, find_entry, find_metal, is_consistent, metal_of,
};
use crate::clp::schema::{ClpDatabase, ClpSubstance, SpeciationTable};
use crate::decimal::{product, Decimal, Parts};
use crate::model::{AnalysisReport, AnalysisRow, AnalysisValue};
use crate::text::texts;
use vstd::prelude::*;

verus! {

/// A row of a report resolved to a compound.
#[derive(Debug, Clone)]
pub struct ResolvedSubstance<'a> {
    pub row: &'a AnalysisRow,
    pub clp: &'a ClpSubstance,
    /// Chemical identifier of the compound.
    pub cas: String,
    /// Concentration of the compound in percent by weight.
    pub concentration_pct: Decimal,
    /// Whether the row gave only a detection limit.
    pub below_detection: bool,
    pub compound_name: String,
}

/// How a substance name resolves against the reference data.
pub enum Resolution {
    /// A group sum or the dry-matter content: no substance.
    Skipped,
    /// A metal: the index of its mapping and of the entry of its compound.
    Metal(int, int),
    /// A known compound: the index of its mapping and of its entry.
    Direct(int, int),
    /// Not in the reference data.
    Unresolved,
}

/// Names of rows that are no substances: the sums over PAH groups and the
/// dry-matter content.
pub open spec fn is_marker(name: Seq<char>) -> bool {
    name == "pah_l"@ || name == "pah_m"@ || name == "pah_h"@ || name == "pah_16"@ || name
        == "ts"@
}

/// How a name resolves: markers are skipped; then the metals are
/// consulted, then the direct mappings; a mapping counts where the
/// database knows its compound.
pub open spec fn resolution_of(name: Seq<char>, table: SpeciationTable, db: ClpDatabase) -> Resolution {
    if is_marker(name) {
        Resolution::Skipped
    } else {
        let metal = metal_of(table.metals@, name, 0);
        let metal_entry = if metal is Some {
            entry_of(db.substances@, table.metals[metal->0].cas@, 0)
        } else {
            None
        };
        let direct = direct_of(table.pah_direct@, name, 0);
        let direct_entry = if direct is Some {
            entry_of(db.substances@, table.pah_direct[direct->0].cas@, 0)
        } else {
            None
        };
        if metal_entry is Some {
            Resolution::Metal(metal->0, metal_entry->0)
        } else if direct_entry is Some {
            Resolution::Direct(direct->0, direct_entry->0)
        } else {
            Resolution::Unresolved
        }
    }
}

/// The first mapping at or after `from` with a name is one of the
/// mappings.
proof fn lemma_metal_of_is_listed(table: SpeciationTable, name: Seq<char>, from: int)
    requires
        0 <= from,
    ensures
        metal_of(table.metals@, name, from) is Some ==> 0 <= metal_of(table.metals@, name, from)->0
            < table.metals@.len(),
        direct_of(table.pah_direct@, name, from) is Some ==> 0 <= direct_of(
            table.pah_direct@,
            name,
            from,
        )->0 < table.pah_direct@.len(),
    decreases table.metals@.len() + table.pah_direct@.len() - from,
{
    if from < table.metals@.len() || from < table.pah_direct@.len() {
        lemma_metal_of_is_listed(table, name, from + 1);
    }
}

/// With reference data that is consistent, every name that the table
/// lists resolves: no substance is unresolved because its compound is
/// missing from the database.
pub proof fn lemma_listed_names_resolve(name: Seq<char>, table: SpeciationTable, db: ClpDatabase)
    requires
        is_consistent(table, db),
        !is_marker(name),
        metal_of(table.metals@, name, 0) is Some || direct_of(table.pah_direct@, name, 0) is Some,
    ensures
        !(resolution_of(name, table, db) is Unresolved),
        metal_of(table.metals@, name, 0) is Some ==> resolution_of(name, table, db) is Metal,
{
    lemma_metal_of_is_listed(table, name, 0);
}

/// One ten-thousandth: what turns mg/kg into percent by weight.
pub open spec fn mgkg_to_pct() -> Parts {
    Parts { mantissa: 1, scale: 4 }
}

/// The concentration in percent by weight that a value of the report
/// stands for: the value times the conversion factor, divided by 10000. A
/// value below the detection limit counts as zero.
pub open spec fn concentration_of(value: AnalysisValue, factor: Parts) -> Option<Parts> {
    match value {
        AnalysisValue::Measured(v) => match product(v@, factor) {
            Some(compound) => product(compound, mgkg_to_pct()),
            None => None,
        },
        AnalysisValue::BelowDetection(_) => Some(Parts { mantissa: 0, scale: 0 }),
    }
}

/// A measured value resolves to the value times the conversion factor,
/// divided by 10000, wherever both products are exact. (In units of
/// `10^-28`: the concentration times `10^56` is the value times the factor
/// times the units of one ten-thousandth, `10^24`.)
pub proof fn lemma_concentration_is_exact(value: Decimal, factor: Parts)
    requires
        value@.wf(),
        factor.wf(),
        value@.mantissa == 0 || factor.mantissa == 0 || crate::decimal::product_is_exact(
            value@,
            factor,
        ),
        product(value@, factor) is Some ==> product(value@, factor)->0.mantissa == 0
            || crate::decimal::product_is_exact(product(value@, factor)->0, mgkg_to_pct()),
    ensures
        concentration_of(AnalysisValue::Measured(value), factor) is Some,
        concentration_of(AnalysisValue::Measured(value), factor)->0.units() * crate::decimal::pow10(
            56,
        ) == value@.units() * factor.units() * crate::decimal::pow10(24),
{
    crate::decimal::lemma_product_units(value@, factor);
    let compound = product(value@, factor)->0;
    assert(compound.wf());
    crate::decimal::lemma_product_units(compound, mgkg_to_pct());
    let c = product(compound, mgkg_to_pct())->0;
    crate::decimal::lemma_pow10_add(28, 28);
    assert(mgkg_to_pct().units() == crate::decimal::pow10(24));
    let p28 = crate::decimal::pow10(28);
    let p24 = crate::decimal::pow10(24);
    assert(c.units() * (p28 * p28) == value@.units() * factor.units() * p24) by (nonlinear_arith)
        requires
            c.units() * p28 == compound.units() * p24,
            compound.units() * p28 == value@.units() * factor.units(),
    ;
}

/// The conversion factor of a resolution: that of the metal, or one.
pub open spec fn factor_of(resolution: Resolution, table: SpeciationTable) -> Parts {
    match resolution {
        Resolution::Metal(m, _) => table.metals[m].conversion_factor@,
        _ => Parts { mantissa: 1, scale: 0 },
    }
}

/// The concentration that a row resolves to, where it resolves and the
/// result can be represented.
pub open spec fn row_concentration(row: AnalysisRow, table: SpeciationTable, db: ClpDatabase) -> Option<
    Parts,
> {
    concentration_of(row.value, factor_of(resolution_of(row.normalized_name@, table, db), table))
}

/// Whether a row resolves to a compound.
pub open spec fn resolves(row: AnalysisRow, table: SpeciationTable, db: ClpDatabase) -> bool {
    resolution_of(row.normalized_name@, table, db) is Metal || resolution_of(
        row.normalized_name@,
        table,
        db,
    ) is Direct
}

/// The indices of the rows before `upto` that resolve, in order.
pub open spec fn resolved_rows(
    report: AnalysisReport,
    table: SpeciationTable,
    db: ClpDatabase,
    upto: int,
) -> Seq<int>
    decreases upto,
{
    if upto <= 0 || upto > report.rows.len() {
        Seq::empty()
    } else if resolves(report.rows[upto - 1], table, db) {
        resolved_rows(report, table, db, upto - 1).push(upto - 1)
    } else {
        resolved_rows(report, table, db, upto - 1)
    }
}

/// The names of the rows before `upto` that are not in the reference
/// data, in order.
pub open spec fn unresolved_names(
    report: AnalysisReport,
    table: SpeciationTable,
    db: ClpDatabase,
    upto: int,
) -> Seq<Seq<char>>
    decreases upto,
{
    if upto <= 0 || upto > report.rows.len() {
        Seq::empty()
    } else if resolution_of(report.rows[upto - 1].normalized_name@, table, db) is Unresolved {
        unresolved_names(report, table, db, upto - 1).push(report.rows[upto - 1].normalized_name@)
    } else {
        unresolved_names(report, table, db, upto - 1)
    }
}

/// Every row before `upto` that resolves has a concentration that can be
/// represented.
pub open spec fn all_convert(
    report: AnalysisReport,
    table: SpeciationTable,
    db: ClpDatabase,
    upto: int,
) -> bool {
    forall|i: int|
        0 <= i < upto && i < report.rows.len() && resolves(#[trigger] report.rows[i], table, db)
            ==> row_concentration(report.rows[i], table, db) is Some
}

/// What resolving a row yields.
pub open spec fn is_resolution_of(
    r: ResolvedSubstance,
    row: AnalysisRow,
    table: SpeciationTable,
    db: ClpDatabase,
) -> bool {
    let resolution = resolution_of(row.normalized_name@, table, db);
    &&& *r.row == row
    &&& Some(r.concentration_pct@) == row_concentration(row, table, db)
    &&& r.below_detection == (row.value is BelowDetection)
    &&& match resolution {
        Resolution::Metal(m, e) => {
            &&& *r.clp == db.substances[e].substance
            &&& r.cas@ == table.metals[m].cas@
            &&& r.compound_name@ == table.metals[m].compound@
        },
        Resolution::Direct(p, e) => {
            &&& *r.clp == db.substances[e].substance
            &&& r.cas@ == table.pah_direct[p].cas@
            &&& r.compound_name@ == row.raw_name@
        },
        _ => false,
    }
}

/// What resolving a report yields.
pub open spec fn is_resolution(
    resolved: Seq<ResolvedSubstance>,
    unresolved: Seq<String>,
    report: AnalysisReport,
    table: SpeciationTable,
    db: ClpDatabase,
    upto: int,
) -> bool {
    &&& resolved.len() == resolved_rows(report, table, db, upto).len()
    &&& forall|k: int|
        0 <= k < resolved.len() ==> is_resolution_of(
            #[trigger] resolved[k],
            report.rows[resolved_rows(report, table, db, upto)[k]],
            table,
            db,
        )
    &&& texts(unresolved) == unresolved_names(report, table, db, upto)
}

/// The concentration in percent by weight that a row stands for under a
/// conversion factor, and whether the row gave only a detection limit.
/// `None` where the concentration is too large to represent.
pub fn convert_to_pct(row: &AnalysisRow, conversion_factor: Decimal) -> (r: Option<(Decimal, bool)>)
    ensures
        match r {
            Some((concentration, below)) => Some(concentration@) == concentration_of(
                row.value,
                conversion_factor@,
            ) && below == (row.value is BelowDetection),
            None => concentration_of(row.value, conversion_factor@) is None,
        },
{
    match row.value {
        AnalysisValue::Measured(value) => {
            match value.checked_mul(&conversion_factor) {
                Some(compound) => match compound.checked_mul(&Decimal::new(1, 4)) {
                    Some(pct) => Some((pct, false)),
                    None => None,
                },
                None => None,
            }
        },
        AnalysisValue::BelowDetection(_) => Some((Decimal::zero(), true)),
    }
}

/// Whether a name marks a row that is no substance.
pub fn is_non_substance(name: &str) -> (r: bool)
    ensures
        r == is_marker(name@),
{
    crate::text::same_text(name, "pah_l") || crate::text::same_text(name, "pah_m")
        || crate::text::same_text(name, "pah_h") || crate::text::same_text(name, "pah_16")
        || crate::text::same_text(name, "ts")
}

/// Resolves the rows of a report to compounds. Rows that are no
/// substances are skipped; a row whose substance is a known metal stands
/// for the worst-case compound of that metal, at the metal's conversion
/// factor; a row whose substance is itself a known compound stands for
/// that, at factor one; the names of all other rows are handed back, in
/// the order of the rows. The table must name no compound that the
/// database lacks: that is a fault of the configuration, to be found when
/// the data is loaded, and no row is ever unresolved because of it. `None`
/// where a concentration is too large to represent.
pub fn resolve_substances<'a>(
    report: &'a AnalysisReport,
    table: &'a SpeciationTable,
    db: &'a ClpDatabase,
) -> (r: Option<(Vec<ResolvedSubstance<'a>>, Vec<String>)>)
    requires
        is_consistent(*table, *db),
    ensures
        match r {
            Some((resolved, unresolved)) => all_convert(
                *report,
                *table,
                *db,
                report.rows.len() as int,
            ) && is_resolution(
                resolved@,
                unresolved@,
                *report,
                *table,
                *db,
                report.rows.len() as int,
            ),
            None => !all_convert(*report, *table, *db, report.rows.len() as int),
        },
{
    let mut resolved: Vec<ResolvedSubstance<'a>> = Vec::new();
    let mut unresolved: Vec<String> = Vec::new();
    let mut i: usize = 0;
    assert(texts(unresolved@) =~= Seq::empty());
    while i < report.rows.len()
        invariant
            i <= report.rows.len(),
            all_convert(*report, *table, *db, i as int),
            is_resolution(resolved@, unresolved@, *report, *table, *db, i as int),
        decreases report.rows.len() - i,
    {
        let row = &report.rows[i];
        let name = row.normalized_name.as_str();
        let ghost names_before = texts(unresolved@);
        let ghost rows_before = resolved_rows(*report, *table, *db, i as int);
        let ghost resolved_before = resolved@;
        if !is_non_substance(name) {
            let mut found: Option<ResolvedSubstance<'a>> = None;
            let mut failed = false;
            match find_metal(table, name) {
                Some(m) => {
                    let metal = &table.metals[m];
                    match find_entry(db, metal.cas.as_str()) {
                        Some(e) => {
                            match convert_to_pct(row, metal.conversion_factor) {
                                Some((concentration_pct, below_detection)) => {
                                    found = Some(
                                        ResolvedSubstance {
                                            row,
                                            clp: &db.substances[e].substance,
                                            cas: metal.cas.clone(),
                                            concentration_pct,
                                            below_detection,
                                            compound_name: metal.compound.clone(),
                                        },
                                    );
                                },
                                None => {
                                    failed = true;
                                },
                            }
                        },
                        None => {},
                    }
                },
                None => {},
            }
            if found.is_none() && !failed {
                match find_direct(table, name) {
                    Some(p) => {
                        let direct = &table.pah_direct[p];
                        match find_entry(db, direct.cas.as_str()) {
                            Some(e) => {
                                match convert_to_pct(row, Decimal::one()) {
                                    Some((concentration_pct, below_detection)) => {
                                        found = Some(
                                            ResolvedSubstance {
                                                row,
                                                clp: &db.substances[e].substance,
                                                cas: direct.cas.clone(),
                                                concentration_pct,
                                                below_detection,
                                                compound_name: row.raw_name.clone(),
                                            },
                                        );
                                    },
                                    None => {
                                        failed = true;
                                    },
                                }
                            },
                            None => {},
                        }
                    },
                    None => {},
                }
            }
            if failed {
                assert(resolves(report.rows[i as int], *table, *db));
                assert(row_concentration(report.rows[i as int], *table, *db) is None);
                return None;
            }
            match found {
                Some(substance) => {
                    assert(is_resolution_of(substance, report.rows[i as int], *table, *db));
                    resolved.push(substance);
                },
                None => {
                    let unknown = row.normalized_name.clone();
                    unresolved.push(unknown);
                    assert(texts(unresolved@) =~= names_before.push(unknown@));
                },
            }
        }
        proof {
            let rows_after = resolved_rows(*report, *table, *db, i + 1);
            assert forall|k: int| 0 <= k < resolved@.len() implies is_resolution_of(
                #[trigger] resolved@[k],
                report.rows[rows_after[k]],
                *table,
                *db,
            ) by {
                if k < resolved_before.len() {
                    assert(resolved@[k] == resolved_before[k]);
                    assert(rows_after[k] == rows_before[k]);
                }
            }
        }
        i += 1;
    }
    Some((resolved, unresolved))
}

} // verus!
