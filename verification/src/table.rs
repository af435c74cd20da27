//! A small map from text keys to values, kept as a vector of entries in
//! which no key occurs twice. Its view is the mathematical map.

use vstd::prelude::*;
use vstd::string::StringSliceAdditionalSpecFns;
use vstd::utf8::encode_utf8_decode_utf8;

verus! {

/// Whether two texts hold the same characters. The texts are compared byte
/// by byte: UTF-8 gives different texts different bytes.
pub fn same_text(a: &str, b: &str) -> (r: bool)
    ensures
        r == (a@ == b@),
{
    let x = a.as_bytes();
    let y = b.as_bytes();
    proof {
        encode_utf8_decode_utf8(a@);
        encode_utf8_decode_utf8(b@);
    }
    if x.len() != y.len() {
        return false;
    }
    let n = x.len();
    let mut i: usize = 0;
    while i < n
        invariant
            n == x@.len(),
            n == y@.len(),
            x@ == a.spec_bytes(),
            y@ == b.spec_bytes(),
            i <= n,
            forall|j: int| 0 <= j < i ==> x@[j] == y@[j],
        decreases n - i,
    {
        if x[i] != y[i] {
            return false;
        }
        i += 1;
    }
    proof {
        assert(x@ =~= y@);
    }
    true
}

/// Some entry of `s` is filed under `k`.
pub open spec fn has_key<V>(s: Seq<(String, V)>, k: Seq<char>) -> bool {
    exists|i: int| 0 <= i < s.len() && (#[trigger] s[i]).0@ == k
}

/// No key is used by two entries of `s`.
pub open spec fn distinct_keys<V>(s: Seq<(String, V)>) -> bool {
    forall|i: int, j: int|
        0 <= i < s.len() && 0 <= j < s.len() && i != j ==> (#[trigger] s[i]).0@ != (
        #[trigger] s[j]).0@
}

/// An index at which `k` is filed in `s`, where there is one.
pub open spec fn index_of<V>(s: Seq<(String, V)>, k: Seq<char>) -> int {
    choose|i: int| 0 <= i < s.len() && (#[trigger] s[i]).0@ == k
}

/// The map that the entries of `s` spell out: each key with the value filed
/// under it.
pub open spec fn as_map<V>(s: Seq<(String, V)>) -> Map<Seq<char>, V> {
    Map::new(|k: Seq<char>| has_key(s, k), |k: Seq<char>| s[index_of(s, k)].1)
}

/// The keys of `s`, in the order of its entries.
pub open spec fn key_seq<V>(s: Seq<(String, V)>) -> Seq<Seq<char>> {
    Seq::new(s.len(), |i: int| s[i].0@)
}

/// With distinct keys, the entry at `i` is what the map holds under its key.
pub proof fn lemma_entry_in_map<V>(s: Seq<(String, V)>, i: int)
    requires
        distinct_keys(s),
        0 <= i < s.len(),
    ensures
        has_key(s, s[i].0@),
        index_of(s, s[i].0@) == i,
        as_map(s).contains_key(s[i].0@),
        as_map(s)[s[i].0@] == s[i].1,
{
}

/// Appending an entry under a fresh key inserts it into the map.
pub proof fn lemma_push_fresh<V>(s: Seq<(String, V)>, e: (String, V))
    requires
        distinct_keys(s),
        !has_key(s, e.0@),
    ensures
        distinct_keys(s.push(e)),
        as_map(s.push(e)) =~= as_map(s).insert(e.0@, e.1),
{
    let t = s.push(e);
    assert forall|k: Seq<char>| has_key(t, k) <==> (has_key(s, k) || k == e.0@) by {
        if has_key(s, k) {
            let i = index_of(s, k);
            assert(t[i] == s[i]);
        }
        if k == e.0@ {
            assert(t[s.len() as int] == e);
        }
    }
}

/// Replacing the value of the entry at `i` updates the map under its key.
pub proof fn lemma_update_value<V>(s: Seq<(String, V)>, i: int, e: (String, V))
    requires
        distinct_keys(s),
        0 <= i < s.len(),
        e.0@ == s[i].0@,
    ensures
        distinct_keys(s.update(i, e)),
        as_map(s.update(i, e)) =~= as_map(s).insert(e.0@, e.1),
        key_seq(s.update(i, e)) =~= key_seq(s),
{
    let t = s.update(i, e);
    assert forall|k: Seq<char>| has_key(t, k) <==> has_key(s, k) by {
        if has_key(s, k) {
            let j = index_of(s, k);
            assert(t[j].0@ == s[j].0@);
        }
    }
    lemma_entry_in_map(s, i);
}

/// Taking the entry at `i` out removes its key from the map.
pub proof fn lemma_remove_entry<V>(s: Seq<(String, V)>, i: int)
    requires
        distinct_keys(s),
        0 <= i < s.len(),
    ensures
        distinct_keys(s.remove(i)),
        !has_key(s.remove(i), s[i].0@),
        as_map(s.remove(i)) =~= as_map(s).remove(s[i].0@),
{
    let t = s.remove(i);
    assert forall|k: Seq<char>| has_key(t, k) <==> (has_key(s, k) && k != s[i].0@) by {
        if has_key(s, k) && k != s[i].0@ {
            let j = index_of(s, k);
            let a = if j < i { j } else { j - 1 };
            assert(t[a] == s[j]);
        }
    }
}

/// With distinct keys the map has one key for each entry, so it is finite
/// and as large as the sequence is long.
pub proof fn lemma_map_size<V>(s: Seq<(String, V)>)
    requires
        distinct_keys(s),
    ensures
        as_map(s).dom().finite(),
        as_map(s).dom().len() == s.len(),
    decreases s.len(),
{
    if s.len() == 0 {
        assert(as_map(s).dom() =~= Set::<Seq<char>>::empty());
    } else {
        let head = s.drop_last();
        let e = s.last();
        assert(s =~= head.push(e));
        lemma_map_size(head);
        lemma_push_fresh(head, e);
    }
}

/// With distinct keys, the key sequence lists every key of the map once.
pub proof fn lemma_key_seq<V>(s: Seq<(String, V)>)
    requires
        distinct_keys(s),
    ensures
        key_seq(s).no_duplicates(),
        forall|k: Seq<char>| key_seq(s).contains(k) <==> #[trigger] as_map(s).contains_key(k),
{
    let ks = key_seq(s);
    assert forall|k: Seq<char>| ks.contains(k) <==> #[trigger] as_map(s).contains_key(k) by {
        if as_map(s).contains_key(k) {
            let i = index_of(s, k);
            assert(ks[i] == k);
        }
    }
}

/// A map from text keys to values. The entries keep the order in which
/// their keys were first inserted.
#[derive(Debug)]
pub struct Table<V> {
    entries: Vec<(String, V)>,
}

impl<V> View for Table<V> {
    type V = Map<Seq<char>, V>;

    open spec fn view(&self) -> Map<Seq<char>, V> {
        as_map(self.entries())
    }
}

impl<V> Table<V> {
    /// The entries, in their order.
    pub closed spec fn entries(&self) -> Seq<(String, V)> {
        self.entries@
    }

    /// No key occurs twice.
    pub open spec fn wf(&self) -> bool {
        distinct_keys(self.entries())
    }

    /// The keys, in the order of the entries.
    pub open spec fn keys_view(&self) -> Seq<Seq<char>> {
        key_seq(self.entries())
    }

    /// An empty table.
    pub fn new() -> (t: Self)
        ensures
            t.wf(),
            t.entries() == Seq::<(String, V)>::empty(),
            t@ == Map::<Seq<char>, V>::empty(),
    {
        Table { entries: Vec::new() }
    }

    /// A table with the given entries, or the entries back where a key
    /// occurs twice among them.
    pub fn from_entries(entries: Vec<(String, V)>) -> (r: std::result::Result<Self, Vec<(String, V)>>)
        ensures
            match r {
                Ok(t) => distinct_keys(entries@) && t.wf() && t.entries() == entries@,
                Err(back) => !distinct_keys(entries@) && back == entries,
            },
    {
        let n = entries.len();
        let mut i: usize = 0;
        while i < n
            invariant
                n == entries@.len(),
                i <= n,
                forall|a: int, b: int|
                    0 <= a < i && 0 <= b < i && a != b ==> (#[trigger] entries@[a]).0@ != (
                    #[trigger] entries@[b]).0@,
            decreases n - i,
        {
            let mut j: usize = 0;
            while j < i
                invariant
                    n == entries@.len(),
                    i < n,
                    j <= i,
                    forall|b: int| 0 <= b < j ==> (#[trigger] entries@[b]).0@ != entries@[i as int].0@,
                decreases i - j,
            {
                if same_text(entries[j].0.as_str(), entries[i].0.as_str()) {
                    return Err(entries);
                }
                j += 1;
            }
            i += 1;
        }
        Ok(Table { entries })
    }

    /// The number of keys.
    pub fn len(&self) -> (n: usize)
        requires
            self.wf(),
        ensures
            n == self.entries().len(),
            n == self@.dom().len(),
            self@.dom().finite(),
    {
        proof {
            lemma_map_size(self.entries());
        }
        self.entries.len()
    }

    /// The entries themselves, for a reader that walks them in order.
    pub fn as_entries(&self) -> (v: &Vec<(String, V)>)
        ensures
            v@ == self.entries(),
    {
        &self.entries
    }

    /// Where `key` is filed, if it is.
    pub fn position(&self, key: &str) -> (r: Option<usize>)
        ensures
            match r {
                Some(i) => i < self.entries().len() && self.entries()[i as int].0@ == key@,
                None => !has_key(self.entries(), key@),
            },
    {
        let n = self.entries.len();
        let mut i: usize = 0;
        while i < n
            invariant
                n == self.entries@.len(),
                i <= n,
                forall|j: int| 0 <= j < i ==> (#[trigger] self.entries@[j]).0@ != key@,
            decreases n - i,
        {
            if same_text(self.entries[i].0.as_str(), key) {
                return Some(i);
            }
            i += 1;
        }
        None
    }

    /// Whether `key` has a value.
    pub fn contains_key(&self, key: &str) -> (b: bool)
        ensures
            b == self@.contains_key(key@),
    {
        self.position(key).is_some()
    }

    /// The value filed under `key`.
    pub fn get(&self, key: &str) -> (r: Option<&V>)
        requires
            self.wf(),
        ensures
            match r {
                Some(v) => self@.contains_key(key@) && *v == self@[key@],
                None => !self@.contains_key(key@),
            },
    {
        match self.position(key) {
            Some(i) => {
                proof {
                    lemma_entry_in_map(self.entries(), i as int);
                }
                Some(&self.entries[i].1)
            },
            None => None,
        }
    }

    /// The value filed under `key`, to be changed in place: the table then
    /// holds under `key` whatever the caller leaves there.
    pub fn get_mut(&mut self, key: &str) -> (r: Option<&mut V>)
        requires
            old(self).wf(),
        ensures
            match r {
                Some(v) => {
                    &&& old(self)@.contains_key(key@)
                    &&& *v == old(self)@[key@]
                    &&& final(self)@ == old(self)@.insert(key@, *final(v))
                    &&& final(self).wf()
                    &&& final(self).keys_view() == old(self).keys_view()
                },
                None => !old(self)@.contains_key(key@) && *final(self) == *old(self),
            },
    {
        match self.position(key) {
            Some(i) => {
                proof {
                    lemma_entry_in_map(self.entries(), i as int);
                    assert forall|w: V|
                        {
                            let t = (#[trigger] self.entries().update(
                                i as int,
                                (self.entries()[i as int].0, w),
                            ));
                            distinct_keys(t) && as_map(t) == self@.insert(key@, w) && key_seq(t)
                                == self.keys_view()
                        } by {
                        lemma_update_value(
                            self.entries(),
                            i as int,
                            (self.entries()[i as int].0, w),
                        );
                    }
                }
                Some(&mut self.entries[i].1)
            },
            None => None,
        }
    }

    /// Files `value` under `key` and gives back the value that was there.
    pub fn insert(&mut self, key: String, value: V) -> (r: Option<V>)
        requires
            old(self).wf(),
        ensures
            final(self).wf(),
            final(self)@ == old(self)@.insert(key@, value),
            r == (if old(self)@.contains_key(key@) {
                Some(old(self)@[key@])
            } else {
                None
            }),
    {
        match self.position(key.as_str()) {
            Some(i) => {
                proof {
                    lemma_entry_in_map(self.entries(), i as int);
                    lemma_update_value(
                        self.entries(),
                        i as int,
                        (self.entries()[i as int].0, value),
                    );
                }
                let mut held = value;
                std::mem::swap(&mut self.entries[i].1, &mut held);
                Some(held)
            },
            None => {
                proof {
                    lemma_push_fresh(self.entries(), (key, value));
                }
                self.entries.push((key, value));
                None
            },
        }
    }

    /// Takes `key` out and gives back the value that was filed under it.
    pub fn remove(&mut self, key: &str) -> (r: Option<V>)
        requires
            old(self).wf(),
        ensures
            final(self).wf(),
            final(self)@ == old(self)@.remove(key@),
            r == (if old(self)@.contains_key(key@) {
                Some(old(self)@[key@])
            } else {
                None
            }),
    {
        match self.position(key) {
            Some(i) => {
                proof {
                    lemma_entry_in_map(self.entries(), i as int);
                    lemma_remove_entry(self.entries(), i as int);
                }
                let gone = self.entries.remove(i);
                Some(gone.1)
            },
            None => {
                None
            },
        }
    }

    /// The keys, in the order of the entries.
    pub fn keys(&self) -> (ks: Vec<String>)
        ensures
            ks@.len() == self.entries().len(),
            forall|i: int| 0 <= i < ks@.len() ==> (#[trigger] ks@[i])@ == self.keys_view()[i],
    {
        let n = self.entries.len();
        let mut ks: Vec<String> = Vec::new();
        let mut i: usize = 0;
        while i < n
            invariant
                n == self.entries@.len(),
                i <= n,
                ks@.len() == i,
                forall|j: int| 0 <= j < i ==> (#[trigger] ks@[j])@ == self.entries@[j].0@,
            decreases n - i,
        {
            ks.push(self.entries[i].0.clone());
            i += 1;
        }
        ks
    }
}

} // verus!
