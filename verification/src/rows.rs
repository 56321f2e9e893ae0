//! Concurrent tables of plain rows, kept in a `DashMap`.
//!
//! Every change goes through an exclusive reference here, so the contents of a
//! table are exactly what the calls made of it.
use vstd::prelude::*;
use dashmap::DashMap;

verus! {

/// One row: six plain numbers.
pub type Row = (u64, u64, u64, u64, u64, u64);

/// `dashmap::DashMap`, carried as an opaque value.
#[verifier::external_type_specification]
#[verifier::external_body]
#[verifier::reject_recursive_types(K)]
#[verifier::reject_recursive_types(V)]
#[verifier::reject_recursive_types(S)]
pub struct ExDashMap<K, V, S>(dashmap::DashMap<K, V, S>);

/// What a table holds: its keys with their rows.
pub uninterp spec fn rows(m: DashMap<u64, Row>) -> Map<u64, Row>;

/// No row at all.
pub open spec fn no_rows() -> Map<u64, Row> {
    Map::empty()
}

/// `DashMap::new`: a table that holds nothing.
#[verifier::external_body]
pub(crate) fn rows_new() -> (r: DashMap<u64, Row>)
    ensures
        rows(r) == no_rows(),
{
    DashMap::new()
}

/// `DashMap::insert`: binds `key` to `row`, replacing what was bound, and
/// changes nothing else.
#[verifier::external_body]
pub(crate) fn rows_insert(m: &mut DashMap<u64, Row>, key: u64, row: Row)
    ensures
        rows(*final(m)) == rows(*old(m)).insert(key, row),
{
    m.insert(key, row);
}

/// `DashMap::remove`: forgets `key` and changes nothing else.
#[verifier::external_body]
pub(crate) fn rows_remove(m: &mut DashMap<u64, Row>, key: u64)
    ensures
        rows(*final(m)) == rows(*old(m)).remove(key),
{
    m.remove(&key);
}

/// `DashMap::get`: the row bound to `key`, copied out of the guard.
#[verifier::external_body]
pub(crate) fn rows_get(m: &DashMap<u64, Row>, key: u64) -> (r: Option<Row>)
    ensures
        r == (if rows(*m).dom().contains(key) {
            Some(rows(*m)[key])
        } else {
            None
        }),
{
    m.get(&key).map(|guard| *guard.value())
}

/// `DashMap::contains_key`: whether `key` is bound.
#[verifier::external_body]
pub(crate) fn rows_contains(m: &DashMap<u64, Row>, key: u64) -> (r: bool)
    ensures
        r == rows(*m).dom().contains(key),
{
    m.contains_key(&key)
}

/// `DashMap::iter`: every key with its row, each key once, in no stated order.
#[verifier::external_body]
pub(crate) fn rows_all(m: &DashMap<u64, Row>) -> (r: Vec<(u64, Row)>)
    ensures
        forall|i: int|
            0 <= i < r@.len() ==> rows(*m).dom().contains((#[trigger] r@[i]).0) && rows(*m)[r@[i].0]
                == r@[i].1,
        forall|k: u64| #[trigger]
            rows(*m).dom().contains(k) ==> exists|i: int| 0 <= i < r@.len() && (#[trigger] r@[i]).0 == k,
        forall|i: int, j: int|
            0 <= i < j < r@.len() ==> (#[trigger] r@[i]).0 != (#[trigger] r@[j]).0,
{
    m.iter().map(|entry| (*entry.key(), *entry.value())).collect()
}

/// Whether a row's first number differs from `owner`.
pub(crate) fn not_owned(row: &Row, owner: u64) -> (r: bool)
    ensures
        r == (row.0 != owner),
{
    row.0 != owner
}

/// `DashMap::retain` with [`not_owned`]: drops exactly the rows whose first
/// number is `owner`.
#[verifier::external_body]
pub(crate) fn rows_retain_not_owned(m: &mut DashMap<u64, Row>, owner: u64)
    ensures
        rows(*final(m)) == rows(*old(m)).remove_keys(
            Set::new(|k: u64| rows(*old(m)).dom().contains(k) && rows(*old(m))[k].0 == owner),
        ),
{
    m.retain(|_, row| not_owned(row, owner));
}

} // verus!
