//! Read views over the scalars of a store and over one of its lists. Each
//! walks the entries as they stood when it was made and hands them out one
//! at a time, still encoded.

use vstd::prelude::*;
use crate::serialization::{rows, scalar_entries};

verus! {

/// One scalar of a store: its key and its encoded value.
pub struct KeyValueDbIteratorItem<'a> {
    key: &'a String,
    value: &'a Vec<u8>,
}

impl<'a> KeyValueDbIteratorItem<'a> {
    /// The key.
    pub closed spec fn key(&self) -> Seq<char> {
        self.key@
    }

    /// The encoded value.
    pub closed spec fn value(&self) -> Seq<u8> {
        self.value@
    }

    /// The key.
    pub fn get_key(&self) -> (k: &'a str)
        ensures
            k@ == self.key(),
    {
        self.key.as_str()
    }

    /// The encoded value, for the caller to decode.
    pub fn get_value(&self) -> (v: &'a Vec<u8>)
        ensures
            v@ == self.value(),
    {
        self.value
    }
}

/// A walk over the scalars of a store.
pub struct KeyValueDbIterator<'a> {
    entries: &'a Vec<(String, Vec<u8>)>,
    pos: usize,
}

impl<'a> KeyValueDbIterator<'a> {
    /// The walk has not run past its end.
    pub closed spec fn wf(&self) -> bool {
        self.pos <= self.entries@.len()
    }

    /// What is still to come: each key with its encoded value, in order.
    pub closed spec fn remaining(&self) -> Seq<(Seq<char>, Seq<u8>)> {
        scalar_entries(self.entries@).skip(self.pos as int)
    }

    /// A walk over `entries` from their start.
    pub(crate) fn new(entries: &'a Vec<(String, Vec<u8>)>) -> (it: Self)
        ensures
            it.wf(),
            it.remaining() == scalar_entries(entries@),
    {
        let it = KeyValueDbIterator { entries, pos: 0 };
        it
    }

    /// The next scalar; `None` when all have been handed out.
    pub fn next(&mut self) -> (r: Option<KeyValueDbIteratorItem<'a>>)
        requires
            old(self).wf(),
        ensures
            final(self).wf(),
            match r {
                Some(item) => {
                    &&& old(self).remaining().len() > 0
                    &&& (item.key(), item.value()) == old(self).remaining()[0]
                    &&& final(self).remaining() == old(self).remaining().skip(1)
                },
                None => old(self).remaining().len() == 0 && final(self).remaining() == old(
                    self,
                ).remaining(),
            },
    {
        if self.pos < self.entries.len() {
            let entry = &self.entries[self.pos];
            self.pos += 1;
            Some(KeyValueDbIteratorItem { key: &entry.0, value: &entry.1 })
        } else {
            None
        }
    }
}

/// One element of a list: its encoded value.
pub struct KeyValueDbListIteratorItem<'a> {
    value: &'a Vec<u8>,
}

impl<'a> KeyValueDbListIteratorItem<'a> {
    /// The encoded value.
    pub closed spec fn value(&self) -> Seq<u8> {
        self.value@
    }

    /// The encoded value, for the caller to decode.
    pub fn get_item(&self) -> (v: &'a Vec<u8>)
        ensures
            v@ == self.value(),
    {
        self.value
    }
}

/// A walk over one list of a store.
pub struct KeyValueDbListIterator<'a> {
    items: &'a Vec<Vec<u8>>,
    pos: usize,
}

impl<'a> KeyValueDbListIterator<'a> {
    /// The walk has not run past its end.
    pub closed spec fn wf(&self) -> bool {
        self.pos <= self.items@.len()
    }

    /// What is still to come: the encoded elements, in order.
    pub closed spec fn remaining(&self) -> Seq<Seq<u8>> {
        rows(self.items@).skip(self.pos as int)
    }

    /// A walk over `items` from their start.
    pub(crate) fn new(items: &'a Vec<Vec<u8>>) -> (it: Self)
        ensures
            it.wf(),
            it.remaining() == rows(items@),
    {
        let it = KeyValueDbListIterator { items, pos: 0 };
        it
    }

    /// The next element; `None` when all have been handed out.
    pub fn next(&mut self) -> (r: Option<KeyValueDbListIteratorItem<'a>>)
        requires
            old(self).wf(),
        ensures
            final(self).wf(),
            match r {
                Some(item) => {
                    &&& old(self).remaining().len() > 0
                    &&& item.value() == old(self).remaining()[0]
                    &&& final(self).remaining() == old(self).remaining().skip(1)
                },
                None => old(self).remaining().len() == 0 && final(self).remaining() == old(
                    self,
                ).remaining(),
            },
    {
        if self.pos < self.items.len() {
            let value = &self.items[self.pos];
            self.pos += 1;
            Some(KeyValueDbListIteratorItem { value })
        } else {
            None
        }
    }
}

} // verus!
