//! The resolved gas-cost table: an insertion-ordered map from name to value, held in an
//! `indexmap::IndexMap`.

use vstd::prelude::*;

use indexmap::IndexMap;

verus! {

/// `indexmap::IndexMap`, held as an opaque value; its contents are `gas_table_entries`.
#[verifier::external_type_specification]
#[verifier::external_body]
#[verifier::reject_recursive_types(K)]
#[verifier::reject_recursive_types(V)]
#[verifier::reject_recursive_types(S)]
pub struct ExIndexMap<K, V, S>(IndexMap<K, V, S>);

/// The entries of a gas-cost table, as name and value, in insertion order.
pub uninterp spec fn gas_table_entries(m: IndexMap<String, u64>) -> Seq<(Seq<char>, u64)>;

/// First value given to `name` in a table's entries.
pub open spec fn value_named(s: Seq<(Seq<char>, u64)>, name: Seq<char>) -> Option<u64>
    decreases s.len(),
{
    if s.len() == 0 {
        None
    } else if s[0].0 == name {
        Some(s[0].1)
    } else {
        value_named(s.subrange(1, s.len() as int), name)
    }
}

/// Relies on `IndexMap::new`: a new map holds no entry.
#[verifier::external_body]
pub(crate) fn new_gas_table() -> (r: IndexMap<String, u64>)
    ensures
        gas_table_entries(r) == Seq::<(Seq<char>, u64)>::empty(),
{
    IndexMap::new()
}

/// Relies on `IndexMap::insert`: a key that no entry holds is inserted last, with its value.
#[verifier::external_body]
pub(crate) fn gas_table_insert(m: &mut IndexMap<String, u64>, key: String, value: u64)
    ensures
        (forall|i: int| 0 <= i < gas_table_entries(*old(m)).len() ==> (#[trigger] gas_table_entries(*old(m))[i]).0 != key@)
            ==> gas_table_entries(*final(m)) == gas_table_entries(*old(m)).push((key@, value)),
{
    m.insert(key, value);
}

/// Relies on `IndexMap::get`: the value of the entry whose key equals `key`.
#[verifier::external_body]
pub(crate) fn gas_table_get(m: &IndexMap<String, u64>, key: &String) -> (r: Option<u64>)
    ensures
        r == value_named(gas_table_entries(*m), key@),
{
    m.get(key).copied()
}

} // verus!
