//! A handle table: values keyed by 64-bit handles, each handle at most once.
use std::collections::HashMap;
use vstd::prelude::*;

verus! {

broadcast use vstd::std_specs::hash::group_hash_axioms;

/// Handles mapped to values. The view is that map.
pub struct Table<V> {
    entries: HashMap<u64, V>,
}

impl<V> View for Table<V> {
    type V = Map<u64, V>;

    closed spec fn view(&self) -> Map<u64, V> {
        self.entries@
    }
}

impl<V> Table<V> {
    /// An empty table.
    pub fn new() -> (r: Table<V>)
        ensures
            r@ == Map::<u64, V>::empty(),
    {
        Table { entries: HashMap::new() }
    }

    /// How many handles the table holds.
    pub fn len(&self) -> (r: usize)
        ensures
            self@.dom().finite(),
            r == self@.dom().len(),
    {
        self.entries.len()
    }

    /// Whether `k` is in the table.
    pub fn contains(&self, k: u64) -> (r: bool)
        ensures
            r == self@.dom().contains(k),
    {
        self.entries.contains_key(&k)
    }

    /// The value of `k`.
    pub fn get(&self, k: u64) -> (r: Option<&V>)
        ensures
            r is Some <==> self@.dom().contains(k),
            r is Some ==> *r->0 == self@[k],
    {
        self.entries.get(&k)
    }

    /// Every handle, once.
    pub fn handles(&self) -> (r: Vec<u64>)
        ensures
            r@.no_duplicates(),
            forall|k: u64| #[trigger] r@.contains(k) <==> self@.dom().contains(k),
    {
        let mut out: Vec<u64> = Vec::new();
        for k in it: self.entries.keys()
            invariant
                out@ =~= it.seq().take(it.index()).unref(),
                it.index() == it.seq().len() ==> out@ =~= it.seq().unref(),
                it.seq().unref().to_set() == self@.dom(),
                it.seq().no_duplicates(),
        {
            out.push(*k);
        }
        proof {
            assert(out@.to_set() == self@.dom());
            assert forall|k: u64| #[trigger] out@.contains(k) <==> self@.dom().contains(k) by {
                assert(out@.to_set().contains(k) == out@.contains(k));
            }
        }
        out
    }

    /// Forget `k`; tells whether it was there.
    pub fn remove(&mut self, k: u64) -> (r: bool)
        ensures
            final(self)@ == old(self)@.remove(k),
            r == old(self)@.dom().contains(k),
    {
        let gone: Option<V> = self.entries.remove(&k);
        assert(self@ =~= old(self)@.remove(k));
        gone.is_some()
    }

    /// Bind `k` to `v`, replacing what it was bound to.
    pub fn insert(&mut self, k: u64, v: V)
        ensures
            final(self)@ == old(self)@.insert(k, v),
    {
        let _before: Option<V> = self.entries.insert(k, v);
    }
}

impl Table<u64> {
    /// Forget every handle bound to `v`.
    pub fn remove_value(&mut self, v: u64)
        ensures
            final(self)@ == old(self)@.remove_keys(
                Set::new(|k: u64| old(self)@.dom().contains(k) && old(self)@[k] == v),
            ),
    {
        let handles: Vec<u64> = self.handles();
        let ghost before = self@;
        let mut i: usize = 0;
        while i < handles.len()
            invariant
                i <= handles@.len(),
                handles@.no_duplicates(),
                forall|k: u64|
                    #![trigger self@.dom().contains(k)]
                    self@.dom().contains(k) <==> before.dom().contains(k) && !(before[k] == v
                        && handles@.take(i as int).contains(k)),
                forall|k: u64| self@.dom().contains(k) ==> #[trigger] self@[k] == before[k],
            decreases handles@.len() - i,
        {
            let k: u64 = handles[i];
            let bound: Option<&u64> = self.get(k);
            let gone: bool = match bound {
                Some(x) => *x == v,
                None => false,
            };
            if gone {
                let _was: bool = self.remove(k);
            }
            proof {
                let t = handles@.take(i + 1);
                assert(t =~= handles@.take(i as int).push(k));
                assert forall|x: u64| t.contains(x) == (handles@.take(i as int).contains(x) || x == k) by {
                    if handles@.take(i as int).contains(x) {
                        let j = handles@.take(i as int).index_of(x);
                        assert(t[j] == x);
                    }
                    assert(t[i as int] == k);
                }
            }
            i += 1;
        }
        assert(handles@.take(i as int) =~= handles@);
        assert(self@ =~= before.remove_keys(
            Set::new(|k: u64| before.dom().contains(k) && before[k] == v),
        ));
    }
}

} // verus!
