//! Table rows: ordered maps from column name to value, kept in an `IndexMap`.
//!
//! What a row holds is the sequence `row_cells`: its (name, value) pairs in the
//! row's order. The functions of `IndexMap` that the library calls are stated
//! here over that sequence.

use crate::keyed::{has_key, key_index};
use indexmap::IndexMap;
use vstd::prelude::*;

verus! {

#[verifier::external_type_specification]
#[verifier::external_body]
#[verifier::reject_recursive_types(K)]
#[verifier::reject_recursive_types(V)]
#[verifier::reject_recursive_types(S)]
pub struct ExIndexMap<K, V, S>(IndexMap<K, V, S>);

/// A borrowed cell: its column name and its value.
pub type CellRef<'a> = (&'a String, &'a String);

/// A cell taken out of a row: the position it had, its column name and its value.
pub type RemovedCell = (usize, String, String);

/// The cells of a row, as (column name, value) pairs in the row's order.
pub uninterp spec fn row_cells(row: IndexMap<String, String>) -> Seq<(Seq<char>, Seq<char>)>;

/// The cells of each row of a table.
pub open spec fn table_cells(rows: Seq<IndexMap<String, String>>) -> Seq<
    Seq<(Seq<char>, Seq<char>)>,
> {
    rows.map_values(|row: IndexMap<String, String>| row_cells(row))
}

/// The cells after `key` was set to `value`: an existing cell keeps its place
/// and takes the value, a new one goes last.
pub open spec fn with_cell(
    cells: Seq<(Seq<char>, Seq<char>)>,
    key: Seq<char>,
    value: Seq<char>,
) -> Seq<(Seq<char>, Seq<char>)> {
    let i = key_index(cells, key);
    if i >= 0 {
        cells.update(i, (key, value))
    } else {
        cells.push((key, value))
    }
}

/// `IndexMap::new`: a map without entries.
#[verifier::external_body]
pub(crate) fn row_new() -> (row: IndexMap<String, String>)
    ensures
        row_cells(row) == Seq::<(Seq<char>, Seq<char>)>::empty(),
{
    IndexMap::new()
}

/// `IndexMap::len`: the number of entries.
#[verifier::external_body]
pub(crate) fn row_len(row: &IndexMap<String, String>) -> (n: usize)
    ensures
        n == row_cells(*row).len(),
{
    row.len()
}

/// `IndexMap::clone`: a map with the same entries in the same order.
#[verifier::external_body]
pub(crate) fn row_clone(row: &IndexMap<String, String>) -> (copy: IndexMap<String, String>)
    ensures
        row_cells(copy) == row_cells(*row),
{
    row.clone()
}

/// `IndexMap::insert`: where the key exists it keeps its place, takes the new
/// value and the old value is returned; a new key is put last and `None` is
/// returned.
#[verifier::external_body]
pub(crate) fn row_insert(row: &mut IndexMap<String, String>, key: String, value: String) -> (previous: Option<String>)
    ensures
        row_cells(*final(row)) == with_cell(row_cells(*old(row)), key@, value@),
        has_key(row_cells(*old(row)), key@) ==> previous is Some && previous->0@ == row_cells(
            *old(row),
        )[key_index(row_cells(*old(row)), key@)].1,
        !has_key(row_cells(*old(row)), key@) ==> previous is None,
{
    row.insert(key, value)
}

/// `IndexMap::get`: the value stored for `key`, if there is one.
#[verifier::external_body]
pub(crate) fn row_get<'a>(row: &'a IndexMap<String, String>, key: &str) -> (value: Option<&'a String>)
    ensures
        has_key(row_cells(*row), key@) ==> value is Some && value->0@ == row_cells(
            *row,
        )[key_index(row_cells(*row), key@)].1,
        !has_key(row_cells(*row), key@) ==> value is None,
{
    row.get(key)
}

/// `IndexMap::get_index`: the entry at position `index`, if there is one. No
/// earlier entry has its key: the keys of an `IndexMap` are distinct.
#[verifier::external_body]
pub(crate) fn row_get_index<'a>(row: &'a IndexMap<String, String>, index: usize) -> (entry: Option<CellRef<'a>>)
    ensures
        match entry {
            Some(e) => index < row_cells(*row).len() && e.0@ == row_cells(*row)[index as int].0
                && e.1@ == row_cells(*row)[index as int].1 && key_index(row_cells(*row), e.0@)
                == index,
            None => index >= row_cells(*row).len(),
        },
{
    row.get_index(index)
}

/// `IndexMap::shift_remove_full`: removes the entry of `key` and returns its
/// position, key and value; the entries after it move up by one. Without such
/// an entry the map is unchanged and `None` is returned.
#[verifier::external_body]
pub(crate) fn row_shift_remove_full(row: &mut IndexMap<String, String>, key: &str) -> (removed: Option<RemovedCell>)
    ensures
        has_key(row_cells(*old(row)), key@) ==> (removed matches Some(e) && e.0 == key_index(
            row_cells(*old(row)),
            key@,
        ) && e.1@ == key@ && e.2@ == row_cells(*old(row))[key_index(
            row_cells(*old(row)),
            key@,
        )].1) && row_cells(*final(row)) == row_cells(*old(row)).remove(
            key_index(row_cells(*old(row)), key@),
        ),
        !has_key(row_cells(*old(row)), key@) ==> removed is None && row_cells(*final(row))
            == row_cells(*old(row)),
{
    row.shift_remove_full(key)
}

/// `IndexMap::shift_insert` for a key that the map does not hold: the entry is
/// put at position `index` and the entries from there on move down by one.
#[verifier::external_body]
pub(crate) fn row_shift_insert(row: &mut IndexMap<String, String>, index: usize, key: String, value: String)
    requires
        !has_key(row_cells(*old(row)), key@),
        index <= row_cells(*old(row)).len(),
    ensures
        row_cells(*final(row)) == row_cells(*old(row)).insert(index as int, (key@, value@)),
{
    row.shift_insert(index, key, value);
}

/// Pushing a row onto a table pushes its cells onto the table's cells.
pub proof fn lemma_table_push(rows: Seq<IndexMap<String, String>>, row: IndexMap<String, String>)
    ensures
        table_cells(rows.push(row)) == table_cells(rows).push(row_cells(row)),
{
    assert(table_cells(rows.push(row)) =~= table_cells(rows).push(row_cells(row)));
}

/// A copy of a table: the same rows with the same cells.
pub fn clone_table(rows: &Vec<IndexMap<String, String>>) -> (copy: Vec<IndexMap<String, String>>)
    ensures
        table_cells(copy@) == table_cells(rows@),
{
    let mut copy: Vec<IndexMap<String, String>> = Vec::new();
    let mut i: usize = 0;
    assert(table_cells(copy@) =~= table_cells(rows@.take(0)));
    while i < rows.len()
        invariant
            i <= rows.len(),
            table_cells(copy@) == table_cells(rows@.take(i as int)),
        decreases rows.len() - i,
    {
        let row = row_clone(&rows[i]);
        proof {
            lemma_table_push(copy@, row);
            lemma_table_push(rows@.take(i as int), rows@[i as int]);
            assert(rows@.take(i + 1) =~= rows@.take(i as int).push(rows@[i as int]));
        }
        copy.push(row);
        i += 1;
    }
    assert(rows@.take(rows.len() as int) =~= rows@);
    copy
}

} // verus!
