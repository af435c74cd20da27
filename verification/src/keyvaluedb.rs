//! The store: two in-memory maps behind one set of operations, each of which
//! keeps a key out of one map when it enters the other, and each of which
//! says what it owes to the backing file.
//!
//! The store never touches the file system. A change that the policy wants
//! flushed leaves a dump owed; the caller fetches the job with
//! [`KeyValueDb::dump_job`], writes it, and reports the outcome to
//! [`KeyValueDb::dump_finished`], which takes the change back if the write
//! failed.

use vstd::prelude::*;
use crate::error::{Error, ErrorCode, ErrorType, Result};
use crate::extenders::KeyValueDbListExtender;
use crate::iterators::{KeyValueDbIterator, KeyValueDbListIterator};
use crate::model::{
    is_first_match, lemma_first_match_unique, lemma_pairs_map_finite, pair_has_key,
    pair_keys_distinct, pairs_map, DbView, Held, KeyValueDbDumpPolicy, Undo,
};
use crate::persist::{temp_path_of, DumpJob};
use crate::serialization::{
    list_entries, lists_of, rows, scalar_entries, scalars_of, snapshot_encoding,
    SerializationMethod, Serializer,
};
use crate::table::{as_map, distinct_keys, has_key, index_of, Table};

verus! {

/// What a name held before a change, as the store keeps it.
#[derive(Debug)]
pub(crate) enum HeldRecord {
    Nothing,
    Scalar(Vec<u8>),
    List(Vec<Vec<u8>>),
}

impl HeldRecord {
    pub(crate) open spec fn view(&self) -> Held {
        match self {
            HeldRecord::Nothing => Held::Nothing,
            HeldRecord::Scalar(value) => Held::Scalar(value@),
            HeldRecord::List(items) => Held::List(rows(items@)),
        }
    }

    /// What a name held, from what was taken out of the two maps.
    fn of(scalar: Option<Vec<u8>>, list: Option<Vec<Vec<u8>>>) -> (held: HeldRecord)
        ensures
            held@ == match (scalar, list) {
                (Some(value), _) => Held::Scalar(value@),
                (None, Some(items)) => Held::List(rows(items@)),
                (None, None) => Held::Nothing,
            },
    {
        match scalar {
            Some(value) => HeldRecord::Scalar(value),
            None => match list {
                Some(items) => HeldRecord::List(items),
                None => HeldRecord::Nothing,
            },
        }
    }
}

/// The way back from the latest change, as the store holds it.
#[derive(Debug)]
pub(crate) enum UndoRecord {
    Nothing,
    Reinstate(String, HeldRecord),
    Truncate(String, usize),
    InsertItem(String, usize, Vec<u8>),
}

impl UndoRecord {
    pub(crate) open spec fn view(&self) -> Undo {
        match self {
            UndoRecord::Nothing => Undo::Nothing,
            UndoRecord::Reinstate(key, was) => Undo::Reinstate { key: key@, was: was@ },
            UndoRecord::Truncate(key, len) => Undo::Truncate { key: key@, len: *len as nat },
            UndoRecord::InsertItem(key, pos, item) => Undo::InsertItem {
                key: key@,
                pos: *pos as nat,
                item: item@,
            },
        }
    }
}

/// The texts of a vector of strings, in order.
pub open spec fn texts(v: Seq<String>) -> Seq<Seq<char>> {
    Seq::new(v.len(), |i: int| v[i]@)
}

/// Whether two byte strings are equal.
fn same_bytes(a: &Vec<u8>, b: &Vec<u8>) -> (r: bool)
    ensures
        r == (a@ == b@),
{
    let r = a == b;
    proof {
        if r {
            assert(a@ =~= b@);
        }
    }
    r
}

/// The first place in `list` at which `value` stands.
fn position_of(list: &Vec<Vec<u8>>, value: &Vec<u8>) -> (r: Option<usize>)
    ensures
        match r {
            Some(i) => is_first_match(rows(list@), value@, i as int),
            None => !rows(list@).contains(value@),
        },
{
    let n = list.len();
    let mut i: usize = 0;
    while i < n
        invariant
            n == list@.len(),
            i <= n,
            forall|j: int| 0 <= j < i ==> rows(list@)[j] != value@,
        decreases n - i,
    {
        if same_bytes(&list[i], value) {
            return Some(i);
        }
        i += 1;
    }
    None
}

/// The entries of a table, seen as plain pairs through `f`, spell out the
/// table's map seen through `f`.
pub proof fn lemma_entries_as_pairs<V, W>(
    s: Seq<(String, V)>,
    f: spec_fn(V) -> W,
    t: Seq<(Seq<char>, W)>,
)
    requires
        t.len() == s.len(),
        forall|i: int| 0 <= i < s.len() ==> #[trigger] t[i] == (s[i].0@, f(s[i].1)),
    ensures
        distinct_keys(s) <==> pair_keys_distinct(t),
        forall|k: Seq<char>| has_key(s, k) <==> pair_has_key(t, k),
        distinct_keys(s) ==> pairs_map(t) =~= as_map(s).map_values(f),
{
    assert forall|k: Seq<char>| has_key(s, k) <==> pair_has_key(t, k) by {
        if has_key(s, k) {
            let i = index_of(s, k);
            assert(t[i].0 == k);
        }
    }
    if pair_keys_distinct(t) {
        assert forall|i: int, j: int| 0 <= i < s.len() && 0 <= j < s.len() && i != j implies (
        #[trigger] s[i]).0@ != (#[trigger] s[j]).0@ by {
            assert(t[i].0 != t[j].0);
        }
    }
}

/// A key-value store: scalars and lists of encoded values under text keys.
#[derive(Debug)]
pub struct KeyValueDb {
    map: Table<Vec<u8>>,
    list_map: Table<Vec<Vec<u8>>>,
    serializer: Serializer,
    db_file_path: String,
    dump_policy: KeyValueDbDumpPolicy,
    last_dump: u64,
    owed: Option<UndoRecord>,
}

impl View for KeyValueDb {
    type V = DbView;

    closed spec fn view(&self) -> DbView {
        DbView {
            scalars: scalars_of(self.map@),
            lists: lists_of(self.list_map@),
            method: self.serializer.method(),
            path: self.db_file_path@,
            policy: self.dump_policy,
            last_dump: self.last_dump,
            owed: match self.owed {
                Some(undo) => Some(undo@),
                None => None,
            },
        }
    }
}

impl KeyValueDb {
    /// Neither map files a key twice.
    pub closed spec fn tables_wf(&self) -> bool {
        self.map.wf() && self.list_map.wf()
    }

    /// The store is sound: its maps are, and its state is one that a store
    /// can be in.
    pub open spec fn wf(&self) -> bool {
        self.tables_wf() && self@.wf()
    }

    /// An empty store for the file at `db_path`, made at `now`. The file is
    /// neither read nor written.
    pub fn new(
        db_path: &str,
        dump_policy: KeyValueDbDumpPolicy,
        serialization_method: SerializationMethod,
        now: u64,
    ) -> (db: KeyValueDb)
        ensures
            db.wf(),
            db@ == DbView::empty(db_path@, dump_policy, serialization_method, now),
    {
        let db = KeyValueDb {
            map: Table::new(),
            list_map: Table::new(),
            serializer: Serializer::new(serialization_method),
            db_file_path: db_path.to_owned(),
            dump_policy,
            last_dump: now,
            owed: None,
        };
        proof {
            assert(db@.scalars =~= Map::<Seq<char>, Seq<u8>>::empty());
            assert(db@.lists =~= Map::<Seq<char>, Seq<Seq<u8>>>::empty());
        }
        db
    }

    /// An empty store that keeps its file as JSON.
    pub fn new_json(db_path: &str, dump_policy: KeyValueDbDumpPolicy, now: u64) -> (db: KeyValueDb)
        ensures
            db.wf(),
            db@ == DbView::empty(db_path@, dump_policy, SerializationMethod::Json, now),
    {
        KeyValueDb::new(db_path, dump_policy, SerializationMethod::Json, now)
    }

    /// An empty store that keeps its file as Bincode.
    pub fn new_bin(db_path: &str, dump_policy: KeyValueDbDumpPolicy, now: u64) -> (db: KeyValueDb)
        ensures
            db.wf(),
            db@ == DbView::empty(db_path@, dump_policy, SerializationMethod::Bin, now),
    {
        KeyValueDb::new(db_path, dump_policy, SerializationMethod::Bin, now)
    }

    /// An empty store that keeps its file as CBOR.
    pub fn new_cbor(db_path: &str, dump_policy: KeyValueDbDumpPolicy, now: u64) -> (db: KeyValueDb)
        ensures
            db.wf(),
            db@ == DbView::empty(db_path@, dump_policy, SerializationMethod::Cbor, now),
    {
        KeyValueDb::new(db_path, dump_policy, SerializationMethod::Cbor, now)
    }

    /// The store kept in the file at `db_path`, loaded at `now`. `content`
    /// is what reading the file returned: a read error is an I/O failure
    /// that carries it; bytes that the format's decoder refuses, or that
    /// file a key twice, are a serialization failure.
    pub fn load(
        db_path: &str,
        dump_policy: KeyValueDbDumpPolicy,
        serialization_method: SerializationMethod,
        content: std::result::Result<Vec<u8>, std::io::Error>,
        now: u64,
    ) -> (r: Result<KeyValueDb>)
        ensures
            match content {
                Err(cause) => r is Err && r->Err_0.code() == ErrorCode::Io(cause),
                Ok(bytes) => match DbView::loaded(
                    db_path@,
                    dump_policy,
                    serialization_method,
                    now,
                    bytes@,
                ) {
                    Ok(state) => r is Ok && r->Ok_0.wf() && r->Ok_0@ == state,
                    Err(msg) => {
                        &&& r is Err
                        &&& r->Err_0.kind() == ErrorType::Serialization
                        &&& r->Err_0.detail() == msg
                    },
                },
            },
    {
        match content {
            Err(cause) => Err(Error::io(cause)),
            Ok(bytes) => {
                let serializer = Serializer::new(serialization_method);
                let decoded = serializer.deserialize_db(bytes.as_slice());
                KeyValueDb::from_snapshot(
                    db_path,
                    dump_policy,
                    serialization_method,
                    decoded,
                    now,
                )
            },
        }
    }

    /// The store that the decoded entries of a snapshot make, for the file
    /// at `db_path`, at `now`. `decoded` is what the snapshot decoder
    /// returned: its refusal is a serialization failure that carries its
    /// message, and so are entries that file a key twice, in one map or
    /// across the two.
    pub fn from_snapshot(
        db_path: &str,
        dump_policy: KeyValueDbDumpPolicy,
        serialization_method: SerializationMethod,
        decoded: std::result::Result<
            (Vec<(String, Vec<u8>)>, Vec<(String, Vec<Vec<u8>>)>),
            String,
        >,
        now: u64,
    ) -> (r: Result<KeyValueDb>)
        ensures
            match decoded {
                Err(msg) => r is Err && r->Err_0.code() == ErrorCode::Serialization(msg),
                Ok(maps) => match DbView::restored(
                    db_path@,
                    dump_policy,
                    serialization_method,
                    now,
                    scalar_entries(maps.0@),
                    list_entries(maps.1@),
                ) {
                    Ok(state) => r is Ok && r->Ok_0.wf() && r->Ok_0@ == state,
                    Err(msg) => {
                        &&& r is Err
                        &&& r->Err_0.kind() == ErrorType::Serialization
                        &&& r->Err_0.detail() == msg
                    },
                },
            },
    {
        match decoded {
            Err(msg) => Err(Error::serialization(msg)),
            Ok(maps) => {
                let (scalars, lists) = maps;
                proof {
                    lemma_entries_as_pairs(scalars@, |v: Vec<u8>| v@, scalar_entries(scalars@));
                    lemma_entries_as_pairs(
                        lists@,
                        |l: Vec<Vec<u8>>| rows(l@),
                        list_entries(lists@),
                    );
                    lemma_pairs_map_finite(scalar_entries(scalars@));
                    lemma_pairs_map_finite(list_entries(lists@));
                }
                let map = match Table::from_entries(scalars) {
                    Ok(table) => table,
                    Err(_) => {
                        return Err(Error::serialization("a scalar key occurs twice".to_owned()));
                    },
                };
                let list_map = match Table::from_entries(lists) {
                    Ok(table) => table,
                    Err(_) => {
                        return Err(Error::serialization("a list name occurs twice".to_owned()));
                    },
                };
                let names = list_map.as_entries();
                let n = names.len();
                let mut i: usize = 0;
                while i < n
                    invariant
                        n == names@.len(),
                        i <= n,
                        names@ == lists@,
                        map.entries() == scalars@,
                        distinct_keys(scalars@),
                        distinct_keys(lists@),
                        decoded is Ok,
                        decoded->Ok_0 == (scalars, lists),
                        forall|j: int| 0 <= j < i ==> !map@.contains_key((#[trigger] names@[j]).0@),
                    decreases n - i,
                {
                    if map.contains_key(names[i].0.as_str()) {
                        proof {
                            lemma_entries_as_pairs(
                                scalars@,
                                |v: Vec<u8>| v@,
                                scalar_entries(scalars@),
                            );
                            lemma_entries_as_pairs(
                                lists@,
                                |l: Vec<Vec<u8>>| rows(l@),
                                list_entries(lists@),
                            );
                        }
                        return Err(
                            Error::serialization("a key names a scalar and a list".to_owned()),
                        );
                    }
                    i += 1;
                }
                Ok(
                    KeyValueDb {
                        map,
                        list_map,
                        serializer: Serializer::new(serialization_method),
                        db_file_path: db_path.to_owned(),
                        dump_policy,
                        last_dump: now,
                        owed: None,
                    },
                )
            },
        }
    }

    /// Loads a store whose file is JSON.
    pub fn load_json(
        db_path: &str,
        dump_policy: KeyValueDbDumpPolicy,
        content: std::result::Result<Vec<u8>, std::io::Error>,
        now: u64,
    ) -> (r: Result<KeyValueDb>)
        ensures
            match content {
                Err(cause) => r is Err && r->Err_0.code() == ErrorCode::Io(cause),
                Ok(bytes) => match DbView::loaded(
                    db_path@,
                    dump_policy,
                    SerializationMethod::Json,
                    now,
                    bytes@,
                ) {
                    Ok(state) => r is Ok && r->Ok_0.wf() && r->Ok_0@ == state,
                    Err(msg) => {
                        &&& r is Err
                        &&& r->Err_0.kind() == ErrorType::Serialization
                        &&& r->Err_0.detail() == msg
                    },
                },
            },
    {
        KeyValueDb::load(db_path, dump_policy, SerializationMethod::Json, content, now)
    }

    /// Loads a store whose file is Bincode.
    pub fn load_bin(
        db_path: &str,
        dump_policy: KeyValueDbDumpPolicy,
        content: std::result::Result<Vec<u8>, std::io::Error>,
        now: u64,
    ) -> (r: Result<KeyValueDb>)
        ensures
            match content {
                Err(cause) => r is Err && r->Err_0.code() == ErrorCode::Io(cause),
                Ok(bytes) => match DbView::loaded(
                    db_path@,
                    dump_policy,
                    SerializationMethod::Bin,
                    now,
                    bytes@,
                ) {
                    Ok(state) => r is Ok && r->Ok_0.wf() && r->Ok_0@ == state,
                    Err(msg) => {
                        &&& r is Err
                        &&& r->Err_0.kind() == ErrorType::Serialization
                        &&& r->Err_0.detail() == msg
                    },
                },
            },
    {
        KeyValueDb::load(db_path, dump_policy, SerializationMethod::Bin, content, now)
    }

    /// Loads a store whose file is YAML.
    pub fn load_yaml(
        db_path: &str,
        dump_policy: KeyValueDbDumpPolicy,
        content: std::result::Result<Vec<u8>, std::io::Error>,
        now: u64,
    ) -> (r: Result<KeyValueDb>)
        ensures
            match content {
                Err(cause) => r is Err && r->Err_0.code() == ErrorCode::Io(cause),
                Ok(bytes) => match DbView::loaded(
                    db_path@,
                    dump_policy,
                    SerializationMethod::Yaml,
                    now,
                    bytes@,
                ) {
                    Ok(state) => r is Ok && r->Ok_0.wf() && r->Ok_0@ == state,
                    Err(msg) => {
                        &&& r is Err
                        &&& r->Err_0.kind() == ErrorType::Serialization
                        &&& r->Err_0.detail() == msg
                    },
                },
            },
    {
        KeyValueDb::load(db_path, dump_policy, SerializationMethod::Yaml, content, now)
    }

    /// Loads a store whose file is CBOR.
    pub fn load_cbor(
        db_path: &str,
        dump_policy: KeyValueDbDumpPolicy,
        content: std::result::Result<Vec<u8>, std::io::Error>,
        now: u64,
    ) -> (r: Result<KeyValueDb>)
        ensures
            match content {
                Err(cause) => r is Err && r->Err_0.code() == ErrorCode::Io(cause),
                Ok(bytes) => match DbView::loaded(
                    db_path@,
                    dump_policy,
                    SerializationMethod::Cbor,
                    now,
                    bytes@,
                ) {
                    Ok(state) => r is Ok && r->Ok_0.wf() && r->Ok_0@ == state,
                    Err(msg) => {
                        &&& r is Err
                        &&& r->Err_0.kind() == ErrorType::Serialization
                        &&& r->Err_0.detail() == msg
                    },
                },
            },
    {
        KeyValueDb::load(db_path, dump_policy, SerializationMethod::Cbor, content, now)
    }

    /// Loads a store that never writes its file: the policy is `NeverDump`.
    pub fn load_read_only(
        db_path: &str,
        serialization_method: SerializationMethod,
        content: std::result::Result<Vec<u8>, std::io::Error>,
        now: u64,
    ) -> (r: Result<KeyValueDb>)
        ensures
            match content {
                Err(cause) => r is Err && r->Err_0.code() == ErrorCode::Io(cause),
                Ok(bytes) => match DbView::loaded(
                    db_path@,
                    KeyValueDbDumpPolicy::NeverDump,
                    serialization_method,
                    now,
                    bytes@,
                ) {
                    Ok(state) => r is Ok && r->Ok_0.wf() && r->Ok_0@ == state,
                    Err(msg) => {
                        &&& r is Err
                        &&& r->Err_0.kind() == ErrorType::Serialization
                        &&& r->Err_0.detail() == msg
                    },
                },
            },
    {
        KeyValueDb::load(
            db_path,
            KeyValueDbDumpPolicy::NeverDump,
            serialization_method,
            content,
            now,
        )
    }

    /// The explicit dump: a flush is owed whatever the policy, except under
    /// `NeverDump`, where nothing happens. Returns whether one is owed.
    pub fn dump(&mut self) -> (owed: bool)
        requires
            old(self).wf(),
        ensures
            final(self).wf(),
            final(self)@ == old(self)@.dump(),
            owed == !(old(self)@.policy is NeverDump),
    {
        if let KeyValueDbDumpPolicy::NeverDump = self.dump_policy {
            false
        } else {
            self.owed = Some(UndoRecord::Nothing);
            true
        }
    }

    /// Whether a dump is owed to the backing file.
    pub fn dump_owed(&self) -> (owed: bool)
        ensures
            owed == (self@.owed is Some),
    {
        self.owed.is_some()
    }

    /// The dump of the store as it stands, begun at `unix_secs` (seconds
    /// since the Unix epoch): the snapshot in the store's format, the
    /// backing path, and the temporary path to write first. Where the
    /// encoder refuses the maps, a serialization failure.
    pub fn dump_job(&self, unix_secs: u64) -> (r: Result<DumpJob>)
        requires
            self.wf(),
        ensures
            match snapshot_encoding(self@.method, self@.scalars, self@.lists) {
                Ok(bytes) => {
                    &&& r is Ok
                    &&& r->Ok_0.bytes@ == bytes
                    &&& r->Ok_0.db_path@ == self@.path
                    &&& r->Ok_0.temp_path@ == temp_path_of(self@.path, unix_secs)
                },
                Err(msg) => {
                    &&& r is Err
                    &&& r->Err_0.kind() == ErrorType::Serialization
                    &&& r->Err_0.detail() == msg
                },
            },
    {
        let encoded = self.serializer.serialize_db(&self.map, &self.list_map);
        DumpJob::new(self.db_file_path.as_str(), unix_secs, encoded)
    }

    /// Takes the report on the dump that was owed, made at `now`, and hands
    /// the same report back. A success settles the debt and, under
    /// `PeriodicDump`, notes the time. A failure takes the change that asked
    /// for the dump back. Where no dump was owed, nothing happens.
    pub fn dump_finished(&mut self, outcome: Result<()>, now: u64) -> (r: Result<()>)
        requires
            old(self).wf(),
        ensures
            final(self).wf(),
            final(self)@ == old(self)@.dump_finished(outcome is Ok, now),
            r == outcome,
    {
        let mut owed: Option<UndoRecord> = None;
        std::mem::swap(&mut self.owed, &mut owed);
        match owed {
            None => {},
            Some(undo) => {
                if outcome.is_ok() {
                    if let KeyValueDbDumpPolicy::PeriodicDump(_) = self.dump_policy {
                        self.last_dump = now;
                    }
                } else {
                    self.roll_back(undo);
                }
            },
        }
        outcome
    }

    /// Whether a last dump should be tried when the store is closed: under
    /// `AutoDump` and `PeriodicDump`.
    pub fn dump_on_close(&self) -> (wanted: bool)
        ensures
            wanted == (self@.policy is AutoDump || self@.policy is PeriodicDump),
    {
        match self.dump_policy {
            KeyValueDbDumpPolicy::AutoDump => true,
            KeyValueDbDumpPolicy::PeriodicDump(_) => true,
            _ => false,
        }
    }

    /// The conditional dump on its own, asked for at `now`: where the policy
    /// wants a flush, one is owed, and a failure of it takes nothing back.
    pub fn dumpdb(&mut self, now: u64)
        requires
            old(self).wf(),
        ensures
            final(self).wf(),
            final(self)@ == old(self)@.dumpdb(now, Undo::Nothing),
    {
        self.note_change(now, UndoRecord::Nothing);
    }

    /// Notes a change made at `now`: where the policy wants it flushed, a
    /// dump is owed and `undo` is the way back.
    fn note_change(&mut self, now: u64, undo: UndoRecord)
        requires
            old(self).tables_wf(),
            old(self)@.settled().wf(),
            old(self)@.fits(undo@),
        ensures
            final(self).wf(),
            final(self)@ == old(self)@.dumpdb(now, undo@),
            final(self).map == old(self).map,
            final(self).list_map == old(self).list_map,
    {
        let due = match self.dump_policy {
            KeyValueDbDumpPolicy::AutoDump => true,
            KeyValueDbDumpPolicy::PeriodicDump(interval) => now > self.last_dump && now
                - self.last_dump > interval,
            _ => false,
        };
        if due {
            if let KeyValueDbDumpPolicy::PeriodicDump(_) = self.dump_policy {
                self.last_dump = now;
            }
            self.owed = Some(undo);
        } else {
            self.owed = None;
        }
    }

    /// Carries out `undo`.
    fn roll_back(&mut self, undo: UndoRecord)
        requires
            old(self).tables_wf(),
            old(self)@.settled().wf(),
            old(self)@.fits(undo@),
            old(self).owed is None,
        ensures
            final(self).wf(),
            final(self)@ == old(self)@.apply(undo@),
    {
        match undo {
            UndoRecord::Nothing => {},
            UndoRecord::Reinstate(key, was) => {
                self.map.remove(key.as_str());
                self.list_map.remove(key.as_str());
                match was {
                    HeldRecord::Nothing => {},
                    HeldRecord::Scalar(value) => {
                        self.map.insert(key, value);
                    },
                    HeldRecord::List(items) => {
                        self.list_map.insert(key, items);
                    },
                }
                proof {
                    assert(self@.scalars =~= old(self)@.reinstate(key@, was@).scalars);
                    assert(self@.lists =~= old(self)@.reinstate(key@, was@).lists);
                }
            },
            UndoRecord::Truncate(key, len) => {
                match self.list_map.get_mut(key.as_str()) {
                    Some(list) => {
                        let ghost before = list@;
                        list.truncate(len);
                        proof {
                            assert(rows(list@) =~= rows(before).take(len as int));
                        }
                    },
                    None => {},
                }
                proof {
                    assert(self@.lists =~= old(self)@.lists.insert(
                        key@,
                        old(self)@.lists[key@].take(len as int),
                    ));
                }
            },
            UndoRecord::InsertItem(key, pos, item) => {
                match self.list_map.get_mut(key.as_str()) {
                    Some(list) => {
                        let ghost before = list@;
                        list.insert(pos, item);
                        proof {
                            assert(rows(list@) =~= rows(before).insert(pos as int, item@));
                        }
                    },
                    None => {},
                }
                proof {
                    assert(self@.lists =~= old(self)@.lists.insert(
                        key@,
                        old(self)@.lists[key@].insert(pos as int, item@),
                    ));
                }
            },
        }
    }

    /// Stores the encoded `value` under `key` at `now`; a list of that name
    /// is removed. `encoded` is what the value's encoder returned: its
    /// refusal is reported as a serialization failure and changes nothing.
    pub fn set(&mut self, key: &str, encoded: std::result::Result<Vec<u8>, String>, now: u64) -> (r:
        Result<()>)
        requires
            old(self).wf(),
        ensures
            final(self).wf(),
            match encoded {
                Ok(value) => r is Ok && final(self)@ == old(self)@.set(key@, value@, now),
                Err(msg) => r is Err && r->Err_0.code() == ErrorCode::Serialization(msg)
                    && final(self)@ == old(self)@,
            },
    {
        match encoded {
            Err(msg) => Err(Error::serialization(msg)),
            Ok(value) => {
                let list = self.list_map.remove(key);
                let scalar = self.map.insert(key.to_owned(), value);
                proof {
                    assert(self@.scalars =~= old(self)@.scalars.insert(key@, value@));
                    assert(self@.lists =~= old(self)@.lists.remove(key@));
                }
                let was = HeldRecord::of(scalar, list);
                self.note_change(now, UndoRecord::Reinstate(key.to_owned(), was));
                Ok(())
            },
        }
    }

    /// The encoded value stored under `key`.
    pub fn get(&self, key: &str) -> (r: Option<&Vec<u8>>)
        requires
            self.wf(),
        ensures
            match r {
                Some(value) => self@.get(key@) == Some(value@),
                None => self@.get(key@) is None,
            },
    {
        self.map.get(key)
    }

    /// Whether `key` names a scalar or a list.
    pub fn key_exists(&self, key: &str) -> (b: bool)
        requires
            self.wf(),
        ensures
            b == self@.key_exists(key@),
    {
        self.map.contains_key(key) || self.list_map.contains_key(key)
    }

    /// Every key, each once: the scalars' keys, then the lists' names.
    pub fn get_all(&self) -> (keys: Vec<String>)
        requires
            self.wf(),
        ensures
            keys@.len() == self@.total_keys(),
            texts(keys@).no_duplicates(),
            forall|k: Seq<char>| texts(keys@).contains(k) <==> #[trigger] self@.key_exists(k),
            forall|i: int|
                0 <= i < self@.scalars.dom().len() ==> self@.scalars.contains_key(
                    #[trigger] texts(keys@)[i],
                ),
            forall|i: int|
                self@.scalars.dom().len() <= i < keys@.len() ==> self@.lists.contains_key(
                    #[trigger] texts(keys@)[i],
                ),
    {
        let mut keys = self.map.keys();
        let mut more = self.list_map.keys();
        proof {
            assert(self@.scalars.dom() =~= self.map@.dom());
            assert(self@.lists.dom() =~= self.list_map@.dom());
            crate::table::lemma_map_size(self.map.entries());
            crate::table::lemma_map_size(self.list_map.entries());
            crate::table::lemma_key_seq(self.map.entries());
            crate::table::lemma_key_seq(self.list_map.entries());
        }
        let ghost a = texts(keys@);
        let ghost b = texts(more@);
        keys.append(&mut more);
        proof {
            let all = texts(keys@);
            assert(a =~= self.map.keys_view());
            assert(b =~= self.list_map.keys_view());
            assert forall|i: int, j: int| 0 <= i < all.len() && 0 <= j < all.len() && i != j implies all[i]
                != all[j] by {
                if i < a.len() && j >= a.len() {
                    assert(self@.scalars.contains_key(all[i]));
                    assert(self@.lists.contains_key(all[j]));
                } else if j < a.len() && i >= a.len() {
                    assert(self@.scalars.contains_key(all[j]));
                    assert(self@.lists.contains_key(all[i]));
                }
            }
            assert forall|k: Seq<char>| all.contains(k) <==> #[trigger] self@.key_exists(k) by {
                if self@.scalars.contains_key(k) {
                    let i = choose|i: int| 0 <= i < a.len() && a[i] == k;
                    assert(all[i] == k);
                }
                if self@.lists.contains_key(k) {
                    let i = choose|i: int| 0 <= i < b.len() && b[i] == k;
                    assert(all[i + a.len()] == k);
                }
            }
        }
        keys
    }

    /// The number of keys, scalars and lists together. The sum must fit
    /// the machine's word.
    pub fn total_keys(&self) -> (n: usize)
        requires
            self.wf(),
            self@.total_keys() <= usize::MAX,
        ensures
            n == self@.total_keys(),
    {
        proof {
            assert(self@.scalars.dom() =~= self.map@.dom());
            assert(self@.lists.dom() =~= self.list_map@.dom());
        }
        self.map.len() + self.list_map.len()
    }

    /// The number of scalar keys and the number of lists.
    pub fn key_counts(&self) -> (counts: (usize, usize))
        requires
            self.wf(),
        ensures
            counts.0 == self@.scalars.dom().len(),
            counts.1 == self@.lists.dom().len(),
            counts.0 + counts.1 == self@.total_keys(),
    {
        proof {
            assert(self@.scalars.dom() =~= self.map@.dom());
            assert(self@.lists.dom() =~= self.list_map@.dom());
        }
        (self.map.len(), self.list_map.len())
    }

    /// Removes `key` at `now` from the map that holds it, and says whether
    /// anything was removed.
    pub fn rem(&mut self, key: &str, now: u64) -> (removed: bool)
        requires
            old(self).wf(),
        ensures
            final(self).wf(),
            final(self)@ == old(self)@.rem(key@, now),
            removed == old(self)@.key_exists(key@),
    {
        match self.map.remove(key) {
            Some(value) => {
                proof {
                    assert(self@.scalars =~= old(self)@.scalars.remove(key@));
                }
                let was = HeldRecord::Scalar(value);
                self.note_change(now, UndoRecord::Reinstate(key.to_owned(), was));
                true
            },
            None => {
                proof {
                    assert(self@.scalars =~= old(self)@.scalars);
                }
                match self.list_map.remove(key) {
                    Some(list) => {
                        proof {
                            assert(self@.lists =~= old(self)@.lists.remove(key@));
                        }
                        let was = HeldRecord::List(list);
                        self.note_change(now, UndoRecord::Reinstate(key.to_owned(), was));
                        true
                    },
                    None => {
                        self.owed = None;
                        proof {
                            assert(self@.lists =~= old(self)@.lists);
                        }
                        false
                    },
                }
            },
        }
    }

    /// Installs an empty list under `name` at `now`, in place of whatever
    /// the name held, and hands out the list for appending. Should the dump
    /// that this asks for fail, the name holds again what it held.
    pub fn lcreate(&mut self, name: &str, now: u64) -> (ext: KeyValueDbListExtender<'_>)
        requires
            old(self).wf(),
        ensures
            ext.db.wf(),
            ext.db@ == old(self)@.lcreate(name@, now),
            ext.list_name@ == name@,
            *final(self) == *final(ext.db),
    {
        let scalar = self.map.remove(name);
        let fresh: Vec<Vec<u8>> = Vec::new();
        proof {
            assert(rows(fresh@) =~= Seq::<Seq<u8>>::empty());
        }
        let list = self.list_map.insert(name.to_owned(), fresh);
        proof {
            assert(self@.scalars =~= old(self)@.scalars.remove(name@));
            assert(self@.lists =~= old(self)@.lists.insert(name@, Seq::empty()));
        }
        let was = HeldRecord::of(scalar, list);
        self.note_change(now, UndoRecord::Reinstate(name.to_owned(), was));
        KeyValueDbListExtender { db: self, list_name: name.to_owned() }
    }

    /// Whether `name` names a list.
    pub fn lexists(&self, name: &str) -> (b: bool)
        requires
            self.wf(),
        ensures
            b == self@.lists.contains_key(name@),
    {
        self.list_map.contains_key(name)
    }

    /// Appends the encoded `value` at `now` to the list `name`.
    pub fn ladd(&mut self, name: &str, value: Vec<u8>, now: u64) -> (r: Option<
        KeyValueDbListExtender<'_>,
    >)
        requires
            old(self).wf(),
        ensures
            match r {
                Some(ext) => {
                    &&& old(self)@.lists.contains_key(name@)
                    &&& ext.db.wf()
                    &&& ext.db@ == old(self)@.lextend(name@, seq![value@], now)
                    &&& ext.list_name@ == name@
                    &&& *final(self) == *final(ext.db)
                },
                None => {
                    &&& !old(self)@.lists.contains_key(name@)
                    &&& final(self).wf()
                    &&& final(self)@ == old(self)@.settled()
                },
            },
    {
        let mut values: Vec<Vec<u8>> = Vec::new();
        values.push(value);
        proof {
            assert(rows(values@) =~= seq![value@]);
        }
        self.lextend(name, values, now)
    }

    /// Appends the encoded `values` at `now` to the list `name` and hands
    /// out the list for more; `None`, and nothing changed, where there is no
    /// such list.
    pub fn lextend(&mut self, name: &str, values: Vec<Vec<u8>>, now: u64) -> (r: Option<
        KeyValueDbListExtender<'_>,
    >)
        requires
            old(self).wf(),
        ensures
            match r {
                Some(ext) => {
                    &&& old(self)@.lists.contains_key(name@)
                    &&& ext.db.wf()
                    &&& ext.db@ == old(self)@.lextend(name@, rows(values@), now)
                    &&& ext.list_name@ == name@
                    &&& *final(self) == *final(ext.db)
                },
                None => {
                    &&& !old(self)@.lists.contains_key(name@)
                    &&& final(self).wf()
                    &&& final(self)@ == old(self)@.settled()
                },
            },
    {
        let ghost added = rows(values@);
        let mut values = values;
        match self.list_map.get_mut(name) {
            Some(list) => {
                let len = list.len();
                let ghost before = list@;
                list.append(&mut values);
                proof {
                    assert(rows(list@) =~= rows(before) + added);
                    assert(self@.lists =~= old(self)@.lists.insert(
                        name@,
                        old(self)@.lists[name@] + added,
                    ));
                }
                self.note_change(now, UndoRecord::Truncate(name.to_owned(), len));
                Some(KeyValueDbListExtender { db: self, list_name: name.to_owned() })
            },
            None => {
                self.owed = None;
                None
            },
        }
    }

    /// The encoded element at `pos` of the list `name`.
    pub fn lget(&self, name: &str, pos: usize) -> (r: Option<&Vec<u8>>)
        requires
            self.wf(),
        ensures
            match r {
                Some(value) => self@.lget(name@, pos as int) == Some(value@),
                None => self@.lget(name@, pos as int) is None,
            },
    {
        match self.list_map.get(name) {
            Some(list) => if pos < list.len() {
                Some(&list[pos])
            } else {
                None
            },
            None => None,
        }
    }

    /// The length of the list `name`; 0 where there is no such list.
    pub fn llen(&self, name: &str) -> (n: usize)
        requires
            self.wf(),
        ensures
            n == self@.llen(name@),
    {
        match self.list_map.get(name) {
            Some(list) => list.len(),
            None => 0,
        }
    }

    /// Removes the list `name` at `now` and gives its length before; 0, and
    /// nothing changed, where there is no such list.
    pub fn lrem_list(&mut self, name: &str, now: u64) -> (n: usize)
        requires
            old(self).wf(),
        ensures
            final(self).wf(),
            final(self)@ == old(self)@.lrem_list(name@, now),
            n == old(self)@.llen(name@),
    {
        match self.list_map.remove(name) {
            Some(list) => {
                proof {
                    assert(self@.lists =~= old(self)@.lists.remove(name@));
                }
                let n = list.len();
                let was = HeldRecord::List(list);
                self.note_change(now, UndoRecord::Reinstate(name.to_owned(), was));
                n
            },
            None => {
                self.owed = None;
                proof {
                    assert(self@.lists =~= old(self)@.lists);
                }
                0
            },
        }
    }

    /// Takes the element at `pos` out of the list `name` at `now` and gives
    /// it back, still encoded; `None`, and nothing changed, where there is
    /// no such element.
    pub fn lpop(&mut self, name: &str, pos: usize, now: u64) -> (r: Option<Vec<u8>>)
        requires
            old(self).wf(),
        ensures
            final(self).wf(),
            final(self)@ == old(self)@.lpop(name@, pos as int, now),
            match r {
                Some(item) => old(self)@.lget(name@, pos as int) == Some(item@),
                None => old(self)@.lget(name@, pos as int) is None,
            },
    {
        match self.list_map.get_mut(name) {
            Some(list) => {
                if pos < list.len() {
                    let ghost before = list@;
                    let item = list.remove(pos);
                    proof {
                        assert(rows(list@) =~= rows(before).remove(pos as int));
                        assert(self@.lists =~= old(self)@.lists.insert(
                            name@,
                            old(self)@.lists[name@].remove(pos as int),
                        ));
                    }
                    let kept = item.clone();
                    self.note_change(now, UndoRecord::InsertItem(name.to_owned(), pos, kept));
                    Some(item)
                } else {
                    self.owed = None;
                    proof {
                        assert(self@.lists =~= old(self)@.lists);
                    }
                    None
                }
            },
            None => {
                self.owed = None;
                None
            },
        }
    }

    /// Takes the first element equal to the encoded `value` out of the list
    /// `name` at `now`, and says whether there was one. `encoded` is what the
    /// value's encoder returned: where the list is there, its refusal is
    /// reported as a serialization failure. Where the list is not there, the
    /// answer is `false` whatever was encoded.
    pub fn lrem_value(
        &mut self,
        name: &str,
        encoded: std::result::Result<Vec<u8>, String>,
        now: u64,
    ) -> (r: Result<bool>)
        requires
            old(self).wf(),
        ensures
            final(self).wf(),
            if !old(self)@.lists.contains_key(name@) {
                r is Ok && r->Ok_0 == false && final(self)@ == old(self)@.settled()
            } else {
                match encoded {
                    Ok(value) => {
                        &&& r is Ok
                        &&& r->Ok_0 == old(self)@.lhas_value(name@, value@)
                        &&& final(self)@ == old(self)@.lrem_value(name@, value@, now)
                    },
                    Err(msg) => {
                        &&& r is Err
                        &&& r->Err_0.code() == ErrorCode::Serialization(msg)
                        &&& final(self)@ == old(self)@
                    },
                }
            },
    {
        let found = match self.list_map.get(name) {
            None => {
                self.owed = None;
                return Ok(false);
            },
            Some(list) => match &encoded {
                Err(_) => None,
                Ok(value) => position_of(list, value),
            },
        };
        match encoded {
            Err(msg) => Err(Error::serialization(msg)),
            Ok(value) => match found {
                None => {
                    self.owed = None;
                    Ok(false)
                },
                Some(pos) => {
                    proof {
                        lemma_first_match_unique(old(self)@.lists[name@], value@, pos as int);
                    }
                    self.lpop(name, pos, now);
                    Ok(true)
                },
            },
        }
    }

    /// A walk over the scalars: every key once, with its encoded value.
    pub fn iter(&self) -> (it: KeyValueDbIterator<'_>)
        requires
            self.wf(),
        ensures
            it.wf(),
            pair_keys_distinct(it.remaining()),
            pairs_map(it.remaining()) == self@.scalars,
    {
        proof {
            lemma_entries_as_pairs(
                self.map.entries(),
                |v: Vec<u8>| v@,
                scalar_entries(self.map.entries()),
            );
        }
        KeyValueDbIterator::new(self.map.as_entries())
    }

    /// A walk over the elements of the list `name`, in order. The list must
    /// be there.
    pub fn liter(&self, name: &str) -> (it: KeyValueDbListIterator<'_>)
        requires
            self.wf(),
            self@.lists.contains_key(name@),
        ensures
            it.wf(),
            it.remaining() == self@.lists[name@],
    {
        let list = self.list_map.get(name).unwrap();
        KeyValueDbListIterator::new(list)
    }
}

} // verus!
