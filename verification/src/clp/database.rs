//! Lookups in the reference data.

use crate::clp::schema::{ClpDatabase, ClpEntry, ClpSubstance, MetalSpeciation, PahDirect, SpeciationTable};
use vstd::prelude::*;

verus! {

/// The index of the first entry at or after `from` with the given
/// identifier.
pub open spec fn entry_of(entries: Seq<ClpEntry>, cas: Seq<char>, from: int) -> Option<int>
    decreases entries.len() - from,
{
    if from < 0 || from >= entries.len() {
        None
    } else if entries[from].cas@ == cas {
        Some(from)
    } else {
        entry_of(entries, cas, from + 1)
    }
}

/// The index of the first metal at or after `from` with the given
/// substance name.
pub open spec fn metal_of(metals: Seq<MetalSpeciation>, name: Seq<char>, from: int) -> Option<int>
    decreases metals.len() - from,
{
    if from < 0 || from >= metals.len() {
        None
    } else if metals[from].substance@ == name {
        Some(from)
    } else {
        metal_of(metals, name, from + 1)
    }
}

/// The index of the first direct mapping at or after `from` with the given
/// substance name.
pub open spec fn direct_of(direct: Seq<PahDirect>, name: Seq<char>, from: int) -> Option<int>
    decreases direct.len() - from,
{
    if from < 0 || from >= direct.len() {
        None
    } else if direct[from].substance@ == name {
        Some(from)
    } else {
        direct_of(direct, name, from + 1)
    }
}

/// The index of the entry of a compound.
pub fn find_entry(db: &ClpDatabase, cas: &str) -> (r: Option<usize>)
    ensures
        match r {
            Some(k) => k < db.substances.len() && entry_of(db.substances@, cas@, 0) == Some(
                k as int,
            ),
            None => entry_of(db.substances@, cas@, 0) is None,
        },
{
    let mut k: usize = 0;
    while k < db.substances.len()
        invariant
            k <= db.substances.len(),
            entry_of(db.substances@, cas@, 0) == entry_of(db.substances@, cas@, k as int),
        decreases db.substances.len() - k,
    {
        if crate::text::same_text(db.substances[k].cas.as_str(), cas) {
            return Some(k);
        }
        k += 1;
    }
    None
}

/// The compound with the given chemical identifier.
pub fn lookup_by_cas<'a>(db: &'a ClpDatabase, cas: &str) -> (r: Option<&'a ClpSubstance>)
    ensures
        match entry_of(db.substances@, cas@, 0) {
            Some(k) => r == Some(&db.substances[k].substance),
            None => r is None,
        },
{
    match find_entry(db, cas) {
        Some(k) => Some(&db.substances[k].substance),
        None => None,
    }
}

/// The index of the metal mapping of a substance.
pub fn find_metal(table: &SpeciationTable, name: &str) -> (r: Option<usize>)
    ensures
        match r {
            Some(k) => k < table.metals.len() && metal_of(table.metals@, name@, 0) == Some(
                k as int,
            ),
            None => metal_of(table.metals@, name@, 0) is None,
        },
{
    let mut k: usize = 0;
    while k < table.metals.len()
        invariant
            k <= table.metals.len(),
            metal_of(table.metals@, name@, 0) == metal_of(table.metals@, name@, k as int),
        decreases table.metals.len() - k,
    {
        if crate::text::same_text(table.metals[k].substance.as_str(), name) {
            return Some(k);
        }
        k += 1;
    }
    None
}

/// The index of the direct mapping of a substance.
pub fn find_direct(table: &SpeciationTable, name: &str) -> (r: Option<usize>)
    ensures
        match r {
            Some(k) => k < table.pah_direct.len() && direct_of(table.pah_direct@, name@, 0)
                == Some(k as int),
            None => direct_of(table.pah_direct@, name@, 0) is None,
        },
{
    let mut k: usize = 0;
    while k < table.pah_direct.len()
        invariant
            k <= table.pah_direct.len(),
            direct_of(table.pah_direct@, name@, 0) == direct_of(
                table.pah_direct@,
                name@,
                k as int,
            ),
        decreases table.pah_direct.len() - k,
    {
        if crate::text::same_text(table.pah_direct[k].substance.as_str(), name) {
            return Some(k);
        }
        k += 1;
    }
    None
}

/// Every compound that the table names has an entry in the database.
pub open spec fn is_consistent(table: SpeciationTable, db: ClpDatabase) -> bool {
    &&& forall|k: int|
        0 <= k < table.metals.len() ==> entry_of(
            db.substances@,
            (#[trigger] table.metals[k]).cas@,
            0,
        ) is Some
    &&& forall|k: int|
        0 <= k < table.pah_direct.len() ==> entry_of(
            db.substances@,
            (#[trigger] table.pah_direct[k]).cas@,
            0,
        ) is Some
}

/// Whether every compound that the table names has an entry in the
/// database. A table that names an unknown compound is a fault of the
/// configuration, to be found when the data is loaded.
pub fn check_consistency(table: &SpeciationTable, db: &ClpDatabase) -> (r: bool)
    ensures
        r == is_consistent(*table, *db),
{
    let mut k: usize = 0;
    while k < table.metals.len()
        invariant
            k <= table.metals.len(),
            forall|n: int|
                0 <= n < k ==> entry_of(db.substances@, (#[trigger] table.metals[n]).cas@, 0) is Some,
        decreases table.metals.len() - k,
    {
        if find_entry(db, table.metals[k].cas.as_str()).is_none() {
            return false;
        }
        k += 1;
    }
    let mut j: usize = 0;
    while j < table.pah_direct.len()
        invariant
            j <= table.pah_direct.len(),
            forall|n: int|
                0 <= n < table.metals.len() ==> entry_of(
                    db.substances@,
                    (#[trigger] table.metals[n]).cas@,
                    0,
                ) is Some,
            forall|n: int|
                0 <= n < j ==> entry_of(
                    db.substances@,
                    (#[trigger] table.pah_direct[n]).cas@,
                    0,
                ) is Some,
        decreases table.pah_direct.len() - j,
    {
        if find_entry(db, table.pah_direct[j].cas.as_str()).is_none() {
            return false;
        }
        j += 1;
    }
    true
}

} // verus!
