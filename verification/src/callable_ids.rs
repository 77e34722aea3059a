//! The table from callable names to callable identifiers, held in a `FxHashMap`.

use rustc_hash::FxHashMap;
use vstd::prelude::*;

verus! {

/// `rustc_hash::FxHasher`, the hash algorithm of the table. Nothing is claimed of it.
#[verifier::external_type_specification]
#[verifier::external_body]
pub struct ExFxHasher(rustc_hash::FxHasher);

/// `std::hash::BuildHasherDefault`, which builds the hashers of the table. Nothing is claimed
/// of it.
#[verifier::external_type_specification]
#[verifier::external_body]
#[verifier::reject_recursive_types(H)]
pub struct ExBuildHasherDefault<H>(std::hash::BuildHasherDefault<H>);

/// The entries of a table, by the text of their names.
pub uninterp spec fn callable_ids(table: FxHashMap<String, u32>) -> Map<Seq<char>, u32>;

/// Calls `FxHashMap::default`: the new table has no entries.
#[verifier::external_body]
pub(crate) fn new_callable_ids() -> (table: FxHashMap<String, u32>)
    ensures
        callable_ids(table) =~= Map::empty(),
{
    FxHashMap::default()
}

/// Calls `FxHashMap::get`: the identifier entered under a name with the same text, or `None`
/// when there is no such entry.
#[verifier::external_body]
pub(crate) fn get_callable_id(table: &FxHashMap<String, u32>, name: &String) -> (id: Option<u32>)
    ensures
        id == (if callable_ids(*table).contains_key(name@) {
            Some(callable_ids(*table)[name@])
        } else {
            None::<u32>
        }),
{
    table.get(name).copied()
}

/// Calls `FxHashMap::insert`: afterwards the name's text is entered with the given identifier,
/// and every other entry is as before.
#[verifier::external_body]
pub(crate) fn insert_callable_id(table: &mut FxHashMap<String, u32>, name: String, id: u32)
    ensures
        callable_ids(*final(table)) == callable_ids(*old(table)).insert(name@, id),
{
    table.insert(name, id);
}

} // verus!
