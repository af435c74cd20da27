//! The store as mathematics: two maps, a dump policy, the time of the last
//! dump, and what is owed to the backing file. Every operation of the store
//! is a function from one such state to the next.

use vstd::prelude::*;
use crate::serialization::{snapshot_decoding, SerializationMethod};

verus! {

/// When the in-memory state is flushed to the backing file. Times and
/// intervals are nanoseconds on a monotonic clock of the caller's choosing.
#[derive(Debug, Clone, Copy, PartialEq, Eq, Structural)]
pub enum KeyValueDbDumpPolicy {
    /// Never: the file stays as it is.
    NeverDump,
    /// After every change.
    AutoDump,
    /// Only when the caller asks for it.
    DumpUponRequest,
    /// After a change, if more than the interval has passed since the last
    /// dump.
    PeriodicDump(u64),
}

/// What a name holds: nothing, a scalar, or a list.
pub enum Held {
    /// The name is free.
    Nothing,
    /// The name holds this scalar.
    Scalar(Seq<u8>),
    /// The name holds this list.
    List(Seq<Seq<u8>>),
}

/// How the latest change is taken back if the dump it asked for fails.
pub enum Undo {
    /// Nothing is taken back.
    Nothing,
    /// `key` holds again what it held before the change, and nothing else.
    Reinstate { key: Seq<char>, was: Held },
    /// The list under `key` is cut back to its first `len` elements.
    Truncate { key: Seq<char>, len: nat },
    /// `item` goes back into the list under `key`, at `pos`.
    InsertItem { key: Seq<char>, pos: nat, item: Seq<u8> },
}

/// `i` is the first place at which `value` stands in `items`.
pub open spec fn is_first_match(items: Seq<Seq<u8>>, value: Seq<u8>, i: int) -> bool {
    &&& 0 <= i < items.len()
    &&& items[i] == value
    &&& forall|j: int| 0 <= j < i ==> items[j] != value
}

/// The first place at which `value` stands in `items`, where it stands in
/// it at all.
pub open spec fn first_match(items: Seq<Seq<u8>>, value: Seq<u8>) -> int {
    choose|i: int| is_first_match(items, value, i)
}

/// A value has at most one first place.
pub proof fn lemma_first_match_unique(items: Seq<Seq<u8>>, value: Seq<u8>, i: int)
    requires
        is_first_match(items, value, i),
    ensures
        first_match(items, value) == i,
        items.contains(value),
{
}

/// A value that stands in a sequence has a first place in it.
pub proof fn lemma_first_match_exists(items: Seq<Seq<u8>>, value: Seq<u8>)
    requires
        items.contains(value),
    ensures
        is_first_match(items, value, first_match(items, value)),
    decreases items.len(),
{
    let w = choose|i: int| 0 <= i < items.len() && items[i] == value;
    if forall|j: int| 0 <= j < w ==> items[j] != value {
        assert(is_first_match(items, value, w));
    } else {
        let j = choose|j: int| 0 <= j < w && items[j] == value;
        let head = items.take(w);
        assert(head[j] == value);
        lemma_first_match_exists(head, value);
        let f = first_match(head, value);
        assert forall|a: int| 0 <= a < f implies items[a] != value by {
            assert(head[a] == items[a]);
        }
        assert(is_first_match(items, value, f));
    }
}

/// Some pair of `s` is filed under `k`.
pub open spec fn pair_has_key<V>(s: Seq<(Seq<char>, V)>, k: Seq<char>) -> bool {
    exists|i: int| 0 <= i < s.len() && (#[trigger] s[i]).0 == k
}

/// No key is used by two pairs of `s`.
pub open spec fn pair_keys_distinct<V>(s: Seq<(Seq<char>, V)>) -> bool {
    forall|i: int, j: int|
        0 <= i < s.len() && 0 <= j < s.len() && i != j ==> (#[trigger] s[i]).0 != (
        #[trigger] s[j]).0
}

/// The map that the pairs of `s` spell out.
pub open spec fn pairs_map<V>(s: Seq<(Seq<char>, V)>) -> Map<Seq<char>, V> {
    Map::new(
        |k: Seq<char>| pair_has_key(s, k),
        |k: Seq<char>| s[choose|i: int| 0 <= i < s.len() && (#[trigger] s[i]).0 == k].1,
    )
}

/// The decoded entries of a snapshot make a store: no key twice among the
/// scalars, none twice among the lists, and none in both.
pub open spec fn snapshot_valid(
    scalars: Seq<(Seq<char>, Seq<u8>)>,
    lists: Seq<(Seq<char>, Seq<Seq<u8>>)>,
) -> bool {
    &&& pair_keys_distinct(scalars)
    &&& pair_keys_distinct(lists)
    &&& forall|k: Seq<char>| !(pair_has_key(scalars, k) && pair_has_key(lists, k))
}

/// What is said of decoded entries that make no store.
pub open spec fn snapshot_refusal(
    scalars: Seq<(Seq<char>, Seq<u8>)>,
    lists: Seq<(Seq<char>, Seq<Seq<u8>>)>,
) -> Seq<char> {
    if !pair_keys_distinct(scalars) {
        "a scalar key occurs twice"@
    } else if !pair_keys_distinct(lists) {
        "a list name occurs twice"@
    } else {
        "a key names a scalar and a list"@
    }
}

/// The map of the pairs is finite.
pub proof fn lemma_pairs_map_finite<V>(s: Seq<(Seq<char>, V)>)
    ensures
        pairs_map(s).dom().finite(),
    decreases s.len(),
{
    if s.len() == 0 {
        assert(pairs_map(s).dom() =~= Set::<Seq<char>>::empty());
    } else {
        let head = s.drop_last();
        lemma_pairs_map_finite(head);
        assert forall|k: Seq<char>|
            pairs_map(s).dom().contains(k) <==> pairs_map(head).dom().insert(s.last().0).contains(
                k,
            ) by {
            if pair_has_key(s, k) {
                let i = choose|i: int| 0 <= i < s.len() && (#[trigger] s[i]).0 == k;
                if i < head.len() {
                    assert(head[i] == s[i]);
                }
            }
        }
        assert(pairs_map(s).dom() =~= pairs_map(head).dom().insert(s.last().0));
    }
}

/// The state of a store.
pub struct DbView {
    /// The scalar values, by key.
    pub scalars: Map<Seq<char>, Seq<u8>>,
    /// The lists, by name.
    pub lists: Map<Seq<char>, Seq<Seq<u8>>>,
    /// The wire format of the backing file.
    pub method: SerializationMethod,
    /// The path of the backing file.
    pub path: Seq<char>,
    /// When changes are flushed.
    pub policy: KeyValueDbDumpPolicy,
    /// The time of the last dump: its attempt, then its completion.
    pub last_dump: u64,
    /// `Some` while a dump is owed to the backing file; it holds the way
    /// back should that dump fail.
    pub owed: Option<Undo>,
}

impl DbView {
    /// `undo` can be carried out on this state.
    pub open spec fn fits(self, undo: Undo) -> bool {
        match undo {
            Undo::Nothing => true,
            Undo::Reinstate { key, was } => true,
            Undo::Truncate { key, len } => self.lists.contains_key(key) && len
                <= self.lists[key].len(),
            Undo::InsertItem { key, pos, item } => self.lists.contains_key(key) && pos
                <= self.lists[key].len(),
        }
    }

    /// No key names both a scalar and a list.
    pub open spec fn exclusive(self) -> bool {
        forall|k: Seq<char>|
            !(#[trigger] self.scalars.contains_key(k) && #[trigger] self.lists.contains_key(k))
    }

    /// The state is one that a store can be in: finitely many keys, no key
    /// in both maps, nothing owed under `NeverDump`, and a way back that
    /// can be taken.
    pub open spec fn wf(self) -> bool {
        &&& self.scalars.dom().finite()
        &&& self.lists.dom().finite()
        &&& self.exclusive()
        &&& self.policy is NeverDump ==> self.owed is None
        &&& match self.owed {
            Some(undo) => self.fits(undo),
            None => true,
        }
    }

    /// The state with nothing owed.
    pub open spec fn settled(self) -> DbView {
        DbView { owed: None, ..self }
    }

    /// A freshly made, empty store.
    pub open spec fn empty(
        path: Seq<char>,
        policy: KeyValueDbDumpPolicy,
        method: SerializationMethod,
        now: u64,
    ) -> DbView {
        DbView {
            scalars: Map::empty(),
            lists: Map::empty(),
            method,
            path,
            policy,
            last_dump: now,
            owed: None,
        }
    }

    /// The store that a snapshot's decoded entries make at `now`, or the
    /// message with which they are refused.
    pub open spec fn restored(
        path: Seq<char>,
        policy: KeyValueDbDumpPolicy,
        method: SerializationMethod,
        now: u64,
        scalars: Seq<(Seq<char>, Seq<u8>)>,
        lists: Seq<(Seq<char>, Seq<Seq<u8>>)>,
    ) -> Result<DbView, Seq<char>> {
        if snapshot_valid(scalars, lists) {
            Ok(
                DbView {
                    scalars: pairs_map(scalars),
                    lists: pairs_map(lists),
                    method,
                    path,
                    policy,
                    last_dump: now,
                    owed: None,
                },
            )
        } else {
            Err(snapshot_refusal(scalars, lists))
        }
    }

    /// The store that the bytes of a backing file make at `now`, or the
    /// message with which they are refused: the decoder's, or that of
    /// entries that make no store.
    pub open spec fn loaded(
        path: Seq<char>,
        policy: KeyValueDbDumpPolicy,
        method: SerializationMethod,
        now: u64,
        bytes: Seq<u8>,
    ) -> Result<DbView, Seq<char>> {
        match snapshot_decoding(method, bytes) {
            Ok(maps) => DbView::restored(path, policy, method, now, maps.0, maps.1),
            Err(msg) => Err(msg),
        }
    }

    /// What `key` holds.
    pub open spec fn held(self, key: Seq<char>) -> Held {
        if self.scalars.contains_key(key) {
            Held::Scalar(self.scalars[key])
        } else if self.lists.contains_key(key) {
            Held::List(self.lists[key])
        } else {
            Held::Nothing
        }
    }

    /// The state in which `key` holds `was`, and all other keys what they
    /// hold now.
    pub open spec fn reinstate(self, key: Seq<char>, was: Held) -> DbView {
        DbView {
            scalars: match was {
                Held::Scalar(value) => self.scalars.insert(key, value),
                _ => self.scalars.remove(key),
            },
            lists: match was {
                Held::List(items) => self.lists.insert(key, items),
                _ => self.lists.remove(key),
            },
            ..self
        }
    }

    /// `key` names a scalar or a list.
    pub open spec fn key_exists(self, key: Seq<char>) -> bool {
        self.scalars.contains_key(key) || self.lists.contains_key(key)
    }

    /// The number of keys, scalars and lists together.
    pub open spec fn total_keys(self) -> nat {
        self.scalars.dom().len() + self.lists.dom().len()
    }

    /// The bytes stored under `key`.
    pub open spec fn get(self, key: Seq<char>) -> Option<Seq<u8>> {
        if self.scalars.contains_key(key) {
            Some(self.scalars[key])
        } else {
            None
        }
    }

    /// The length of the list `name`; 0 where there is no such list.
    pub open spec fn llen(self, name: Seq<char>) -> nat {
        if self.lists.contains_key(name) {
            self.lists[name].len()
        } else {
            0
        }
    }

    /// The element at `pos` of the list `name`.
    pub open spec fn lget(self, name: Seq<char>, pos: int) -> Option<Seq<u8>> {
        if self.lists.contains_key(name) && 0 <= pos < self.lists[name].len() {
            Some(self.lists[name][pos])
        } else {
            None
        }
    }

    /// A change made at `now` is flushed at once.
    pub open spec fn due(self, now: u64) -> bool {
        match self.policy {
            KeyValueDbDumpPolicy::AutoDump => true,
            KeyValueDbDumpPolicy::PeriodicDump(interval) => now - self.last_dump > interval,
            _ => false,
        }
    }

    /// The conditional dump that follows a change made at `now`: where the
    /// policy asks for a flush, one is owed, with `undo` as the way back;
    /// under `PeriodicDump` the attempt's time is noted.
    pub open spec fn dumpdb(self, now: u64, undo: Undo) -> DbView {
        if self.due(now) {
            DbView {
                owed: Some(undo),
                last_dump: if self.policy is PeriodicDump {
                    now
                } else {
                    self.last_dump
                },
                ..self
            }
        } else {
            DbView { owed: None, ..self }
        }
    }

    /// The explicit dump: owed at once, except under `NeverDump`, and with
    /// nothing to take back.
    pub open spec fn dump(self) -> DbView {
        if self.policy is NeverDump {
            self
        } else {
            DbView { owed: Some(Undo::Nothing), ..self }
        }
    }

    /// The state with `undo` carried out.
    pub open spec fn apply(self, undo: Undo) -> DbView {
        match undo {
            Undo::Nothing => self,
            Undo::Reinstate { key, was } => self.reinstate(key, was),
            Undo::Truncate { key, len } => DbView {
                lists: self.lists.insert(key, self.lists[key].take(len as int)),
                ..self
            },
            Undo::InsertItem { key, pos, item } => DbView {
                lists: self.lists.insert(key, self.lists[key].insert(pos as int, item)),
                ..self
            },
        }
    }

    /// The end of an owed dump, reported at `now`. A success settles the
    /// debt and, under `PeriodicDump`, notes the time. A failure takes the
    /// change back. Where nothing was owed, nothing happens.
    pub open spec fn dump_finished(self, ok: bool, now: u64) -> DbView {
        match self.owed {
            None => self,
            Some(undo) => if ok {
                DbView {
                    owed: None,
                    last_dump: if self.policy is PeriodicDump {
                        now
                    } else {
                        self.last_dump
                    },
                    ..self
                }
            } else {
                DbView { owed: None, ..self.apply(undo) }
            },
        }
    }

    /// `key` is given the scalar `value` at `now`; a list of that name is
    /// gone. The way back gives the key what it held: the earlier scalar,
    /// the list, or nothing.
    pub open spec fn set(self, key: Seq<char>, value: Seq<u8>, now: u64) -> DbView {
        DbView {
            scalars: self.scalars.insert(key, value),
            lists: self.lists.remove(key),
            ..self
        }.dumpdb(now, Undo::Reinstate { key, was: self.held(key) })
    }

    /// `key` is removed at `now` from the map that holds it. Where neither
    /// holds it, the maps stay as they are and nothing is owed.
    pub open spec fn rem(self, key: Seq<char>, now: u64) -> DbView {
        if self.scalars.contains_key(key) {
            DbView { scalars: self.scalars.remove(key), ..self }.dumpdb(
                now,
                Undo::Reinstate { key, was: self.held(key) },
            )
        } else if self.lists.contains_key(key) {
            DbView { lists: self.lists.remove(key), ..self }.dumpdb(
                now,
                Undo::Reinstate { key, was: self.held(key) },
            )
        } else {
            self.settled()
        }
    }

    /// An empty list is installed under `name` at `now`; a scalar of that
    /// name is gone. The way back gives the name what it held: the scalar,
    /// the earlier list, or nothing.
    pub open spec fn lcreate(self, name: Seq<char>, now: u64) -> DbView {
        DbView {
            scalars: self.scalars.remove(name),
            lists: self.lists.insert(name, Seq::empty()),
            ..self
        }.dumpdb(now, Undo::Reinstate { key: name, was: self.held(name) })
    }

    /// `values` are appended at `now` to the list `name`. Where there is no
    /// such list, the maps stay as they are and nothing is owed.
    pub open spec fn lextend(self, name: Seq<char>, values: Seq<Seq<u8>>, now: u64) -> DbView {
        if self.lists.contains_key(name) {
            DbView { lists: self.lists.insert(name, self.lists[name] + values), ..self }.dumpdb(
                now,
                Undo::Truncate { key: name, len: self.lists[name].len() },
            )
        } else {
            self.settled()
        }
    }

    /// The list `name` is removed at `now`. Where there is no such list,
    /// the maps stay as they are and nothing is owed.
    pub open spec fn lrem_list(self, name: Seq<char>, now: u64) -> DbView {
        if self.lists.contains_key(name) {
            DbView { lists: self.lists.remove(name), ..self }.dumpdb(
                now,
                Undo::Reinstate { key: name, was: self.held(name) },
            )
        } else {
            self.settled()
        }
    }

    /// The element at `pos` is taken out of the list `name` at `now`. Where
    /// there is no such element, the maps stay as they are and nothing is
    /// owed.
    pub open spec fn lpop(self, name: Seq<char>, pos: int, now: u64) -> DbView {
        if self.lists.contains_key(name) && 0 <= pos < self.lists[name].len() {
            DbView {
                lists: self.lists.insert(name, self.lists[name].remove(pos)),
                ..self
            }.dumpdb(
                now,
                Undo::InsertItem { key: name, pos: pos as nat, item: self.lists[name][pos] },
            )
        } else {
            self.settled()
        }
    }

    /// `value` stands in the list `name`.
    pub open spec fn lhas_value(self, name: Seq<char>, value: Seq<u8>) -> bool {
        self.lists.contains_key(name) && self.lists[name].contains(value)
    }

    /// The first element equal to `value` is taken out of the list `name`
    /// at `now`. Where there is none, the maps stay as they are and nothing
    /// is owed.
    pub open spec fn lrem_value(self, name: Seq<char>, value: Seq<u8>, now: u64) -> DbView {
        if self.lhas_value(name, value) {
            self.lpop(name, first_match(self.lists[name], value), now)
        } else {
            self.settled()
        }
    }
}

} // verus!
