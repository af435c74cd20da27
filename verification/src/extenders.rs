//! A handle on one list of a store, for appending to it in a chain.

use vstd::prelude::*;
use crate::keyvaluedb::KeyValueDb;
use crate::serialization::rows;

verus! {

/// A list of a store, held for appending. The handle keeps the store to
/// itself for as long as it lives and carries nothing else: each append is
/// the store's own, with its own conditional dump.
pub struct KeyValueDbListExtender<'a> {
    /// The store.
    pub db: &'a mut KeyValueDb,
    /// The name of the list.
    pub list_name: String,
}

impl<'a> KeyValueDbListExtender<'a> {
    /// The store is sound and holds the list.
    pub open spec fn wf(&self) -> bool {
        self.db.wf() && self.db@.lists.contains_key(self.list_name@)
    }

    /// Appends the encoded `value` at `now` and hands the list out again.
    pub fn ladd(&mut self, value: Vec<u8>, now: u64) -> (r: KeyValueDbListExtender<'_>)
        requires
            old(self).wf(),
        ensures
            r.wf(),
            r.db@ == old(self).db@.lextend(old(self).list_name@, seq![value@], now),
            r.list_name@ == old(self).list_name@,
            final(self).list_name == old(self).list_name,
            *final(self).db == *final(r.db),
            *final(final(self).db) == *final(old(self).db),
    {
        self.db.ladd(self.list_name.as_str(), value, now).unwrap()
    }

    /// Appends the encoded `values` at `now`, in their order, and hands the
    /// list out again.
    pub fn lextend(&mut self, values: Vec<Vec<u8>>, now: u64) -> (r: KeyValueDbListExtender<'_>)
        requires
            old(self).wf(),
        ensures
            r.wf(),
            r.db@ == old(self).db@.lextend(old(self).list_name@, rows(values@), now),
            r.list_name@ == old(self).list_name@,
            final(self).list_name == old(self).list_name,
            *final(self).db == *final(r.db),
            *final(final(self).db) == *final(old(self).db),
    {
        self.db.lextend(self.list_name.as_str(), values, now).unwrap()
    }
}

} // verus!
