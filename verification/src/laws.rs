//! What holds of the store whatever its state: the laws that relate one
//! operation to another, each proved from the operations' own definitions.

use vstd::prelude::*;
use crate::model::{
    first_match, lemma_first_match_exists, lemma_pairs_map_finite, pair_has_key,
    pair_keys_distinct, pairs_map, DbView, Held, KeyValueDbDumpPolicy, Undo,
};
use crate::serialization::{
    snapshot_decoding, snapshot_encoding, yaml_refusal, yaml_within_bounds, SerializationMethod,
};

verus! {

/// Two states hold the same scalars and the same lists.
pub open spec fn same_maps(a: DbView, b: DbView) -> bool {
    a.scalars == b.scalars && a.lists == b.lists
}

/// A store starts out sound: the empty store is, and so is every store
/// that decoded entries make.
pub proof fn law_fresh_states_sound(
    path: Seq<char>,
    policy: KeyValueDbDumpPolicy,
    method: SerializationMethod,
    now: u64,
    scalars: Seq<(Seq<char>, Seq<u8>)>,
    lists: Seq<(Seq<char>, Seq<Seq<u8>>)>,
)
    ensures
        DbView::empty(path, policy, method, now).wf(),
        DbView::restored(path, policy, method, now, scalars, lists) is Ok ==> DbView::restored(
            path,
            policy,
            method,
            now,
            scalars,
            lists,
        )->Ok_0.wf(),
{
    lemma_pairs_map_finite(scalars);
    lemma_pairs_map_finite(lists);
}

/// Every operation leaves a sound state sound. In particular no key ever
/// names both a scalar and a list.
pub proof fn law_soundness_kept(
    s: DbView,
    key: Seq<char>,
    value: Seq<u8>,
    values: Seq<Seq<u8>>,
    pos: int,
    ok: bool,
    now: u64,
)
    requires
        s.wf(),
    ensures
        s.set(key, value, now).wf(),
        s.rem(key, now).wf(),
        s.lcreate(key, now).wf(),
        s.lextend(key, values, now).wf(),
        s.lrem_list(key, now).wf(),
        s.lpop(key, pos, now).wf(),
        s.lrem_value(key, value, now).wf(),
        s.dumpdb(now, Undo::Nothing).wf(),
        s.dump().wf(),
        s.dump_finished(ok, now).wf(),
{
    if s.lhas_value(key, value) {
        lemma_first_match_exists(s.lists[key], value);
    }
}

/// A value that was set is the value that is read: straight after the set,
/// and still after the dump that the set asked for has succeeded.
pub proof fn law_set_then_get(s: DbView, key: Seq<char>, value: Seq<u8>, now: u64, later: u64)
    ensures
        s.set(key, value, now).get(key) == Some(value),
        s.set(key, value, now).dump_finished(true, later).get(key) == Some(value),
{
}

/// A set touches no other key: what is read under another key, and what a
/// list of another name holds, is what was there before.
pub proof fn law_set_leaves_others(
    s: DbView,
    key: Seq<char>,
    value: Seq<u8>,
    other: Seq<char>,
    pos: int,
    now: u64,
)
    requires
        other != key,
    ensures
        s.set(key, value, now).get(other) == s.get(other),
        s.set(key, value, now).llen(other) == s.llen(other),
        s.set(key, value, now).lget(other, pos) == s.lget(other, pos),
{
}

/// A name holds a scalar or a list, never both. After a list is created
/// under a name, the name is there, it names an empty list, and the scalar
/// it may have named is gone. After a scalar is set under a name, the list
/// it may have named is gone.
pub proof fn law_mutual_exclusion(s: DbView, name: Seq<char>, value: Seq<u8>, now: u64)
    ensures
        s.lcreate(name, now).key_exists(name),
        s.lcreate(name, now).lists.contains_key(name),
        s.lcreate(name, now).llen(name) == 0,
        s.lcreate(name, now).get(name) is None,
        s.set(name, value, now).key_exists(name),
        s.set(name, value, now).get(name) == Some(value),
        !s.set(name, value, now).lists.contains_key(name),
{
}

/// Under `NeverDump` nothing is ever owed to the file: not after any
/// change, and not after an explicit dump, which leaves the state as it is.
pub proof fn law_never_dump(
    s: DbView,
    key: Seq<char>,
    value: Seq<u8>,
    values: Seq<Seq<u8>>,
    pos: int,
    now: u64,
)
    requires
        s.wf(),
        s.policy is NeverDump,
    ensures
        s.owed is None,
        s.set(key, value, now).owed is None,
        s.rem(key, now).owed is None,
        s.lcreate(key, now).owed is None,
        s.lextend(key, values, now).owed is None,
        s.lrem_list(key, now).owed is None,
        s.lpop(key, pos, now).owed is None,
        s.lrem_value(key, value, now).owed is None,
        s.dumpdb(now, Undo::Nothing).owed is None,
        s.dump() == s,
{
}

/// The policy never changes, and neither do the path and the format.
pub proof fn law_configuration_kept(
    s: DbView,
    key: Seq<char>,
    value: Seq<u8>,
    values: Seq<Seq<u8>>,
    pos: int,
    ok: bool,
    now: u64,
)
    ensures
        same_configuration(s.set(key, value, now), s),
        same_configuration(s.rem(key, now), s),
        same_configuration(s.lcreate(key, now), s),
        same_configuration(s.lextend(key, values, now), s),
        same_configuration(s.lrem_list(key, now), s),
        same_configuration(s.lpop(key, pos, now), s),
        same_configuration(s.lrem_value(key, value, now), s),
        same_configuration(s.dump(), s),
        same_configuration(s.dump_finished(ok, now), s),
{
}

/// Two states have the same policy, path and format.
pub open spec fn same_configuration(a: DbView, b: DbView) -> bool {
    a.policy == b.policy && a.path == b.path && a.method == b.method
}

/// Under `PeriodicDump` a change is flushed exactly when more than the
/// interval has passed since the last dump; the attempt's time is then the
/// time of the last dump, whatever becomes of the attempt.
pub proof fn law_periodic_due(s: DbView, interval: u64, undo: Undo, ok: bool, now: u64)
    requires
        s.policy == KeyValueDbDumpPolicy::PeriodicDump(interval),
    ensures
        s.dumpdb(now, undo).owed is Some <==> now - s.last_dump > interval,
        now - s.last_dump > interval ==> s.dumpdb(now, undo).last_dump == now,
        now - s.last_dump > interval ==> s.dumpdb(now, undo).dump_finished(false, now).last_dump
            == now,
        now - s.last_dump <= interval ==> s.dumpdb(now, undo).last_dump == s.last_dump,
{
}

/// Under `PeriodicDump`, of two changes made within the interval of each
/// other at most one is flushed, whether the first one's dump succeeded,
/// failed, or was never reported. A change made more than the interval
/// after the last dump is flushed.
pub proof fn law_periodic_timing(
    s: DbView,
    interval: u64,
    k1: Seq<char>,
    v1: Seq<u8>,
    t1: u64,
    reported: bool,
    ok: bool,
    done: u64,
    k2: Seq<char>,
    v2: Seq<u8>,
    t2: u64,
    k3: Seq<char>,
    v3: Seq<u8>,
    t3: u64,
)
    requires
        s.policy == KeyValueDbDumpPolicy::PeriodicDump(interval),
        t1 <= done <= t2,
        t2 - t1 <= interval,
    ensures
        ({
            let first = s.set(k1, v1, t1);
            let between = if reported {
                first.dump_finished(ok, done)
            } else {
                first
            };
            let second = between.set(k2, v2, t2);
            let third = second.set(k3, v3, t3);
            &&& !(first.owed is Some && second.owed is Some)
            &&& t3 - second.last_dump > interval ==> third.owed is Some
        }),
{
}

/// The same holds of removals: of two made within the interval of each
/// other at most one is flushed.
pub proof fn law_periodic_timing_rem(
    s: DbView,
    interval: u64,
    k1: Seq<char>,
    t1: u64,
    reported: bool,
    ok: bool,
    done: u64,
    k2: Seq<char>,
    t2: u64,
)
    requires
        s.policy == KeyValueDbDumpPolicy::PeriodicDump(interval),
        t1 <= done <= t2,
        t2 - t1 <= interval,
    ensures
        ({
            let first = s.rem(k1, t1);
            let between = if reported {
                first.dump_finished(ok, done)
            } else {
                first
            };
            let second = between.rem(k2, t2);
            !(first.owed is Some && second.owed is Some)
        }),
{
}

/// Under `AutoDump` every change that changes anything is flushed.
pub proof fn law_auto_dump(
    s: DbView,
    key: Seq<char>,
    value: Seq<u8>,
    values: Seq<Seq<u8>>,
    now: u64,
)
    requires
        s.policy is AutoDump,
    ensures
        s.set(key, value, now).owed is Some,
        s.lcreate(key, now).owed is Some,
        s.key_exists(key) ==> s.rem(key, now).owed is Some,
        s.lists.contains_key(key) ==> s.lextend(key, values, now).owed is Some,
        s.lists.contains_key(key) ==> s.lrem_list(key, now).owed is Some,
{
}

/// Under `DumpUponRequest` no change is flushed, and an explicit dump is.
pub proof fn law_dump_upon_request(
    s: DbView,
    key: Seq<char>,
    value: Seq<u8>,
    values: Seq<Seq<u8>>,
    pos: int,
    now: u64,
)
    requires
        s.policy is DumpUponRequest,
    ensures
        s.set(key, value, now).owed is None,
        s.rem(key, now).owed is None,
        s.lcreate(key, now).owed is None,
        s.lextend(key, values, now).owed is None,
        s.lrem_list(key, now).owed is None,
        s.lpop(key, pos, now).owed is None,
        s.lrem_value(key, value, now).owed is None,
        s.dump().owed is Some,
{
}

/// A failed dump takes the change that asked for it back: both maps are
/// again exactly what they were before the change. This holds of every
/// change: a set, a removal, the creation of a list, an append, and the
/// removal of a list, of an element or of a value.
pub proof fn law_rollback(
    s: DbView,
    key: Seq<char>,
    value: Seq<u8>,
    values: Seq<Seq<u8>>,
    pos: int,
    now: u64,
    later: u64,
)
    requires
        s.wf(),
    ensures
        s.set(key, value, now).owed is Some ==> same_maps(
            s.set(key, value, now).dump_finished(false, later),
            s,
        ),
        s.rem(key, now).owed is Some ==> same_maps(s.rem(key, now).dump_finished(false, later), s),
        s.lcreate(key, now).owed is Some ==> same_maps(
            s.lcreate(key, now).dump_finished(false, later),
            s,
        ),
        s.lextend(key, values, now).owed is Some ==> same_maps(
            s.lextend(key, values, now).dump_finished(false, later),
            s,
        ),
        s.lrem_list(key, now).owed is Some ==> same_maps(
            s.lrem_list(key, now).dump_finished(false, later),
            s,
        ),
        s.lpop(key, pos, now).owed is Some ==> same_maps(
            s.lpop(key, pos, now).dump_finished(false, later),
            s,
        ),
        s.lrem_value(key, value, now).owed is Some ==> same_maps(
            s.lrem_value(key, value, now).dump_finished(false, later),
            s,
        ),
{
    let t = s.set(key, value, now).dump_finished(false, later);
    if s.set(key, value, now).owed is Some {
        assert(t.scalars =~= s.scalars);
        assert(t.lists =~= s.lists);
    }
    let t = s.rem(key, now).dump_finished(false, later);
    if s.rem(key, now).owed is Some {
        assert(t.scalars =~= s.scalars);
        assert(t.lists =~= s.lists);
    }
    let t = s.lcreate(key, now).dump_finished(false, later);
    if s.lcreate(key, now).owed is Some {
        assert(t.scalars =~= s.scalars);
        assert(t.lists =~= s.lists);
    }
    let t = s.lextend(key, values, now).dump_finished(false, later);
    if s.lextend(key, values, now).owed is Some {
        assert((s.lists[key] + values).take(s.lists[key].len() as int) =~= s.lists[key]);
        assert(t.lists =~= s.lists);
    }
    let t = s.lrem_list(key, now).dump_finished(false, later);
    if s.lrem_list(key, now).owed is Some {
        assert(t.scalars =~= s.scalars);
        assert(t.lists =~= s.lists);
    }
    let t = s.lpop(key, pos, now).dump_finished(false, later);
    if s.lpop(key, pos, now).owed is Some {
        assert(s.lists[key].remove(pos).insert(pos, s.lists[key][pos]) =~= s.lists[key]);
        assert(t.lists =~= s.lists);
    }
    let t = s.lrem_value(key, value, now).dump_finished(false, later);
    if s.lrem_value(key, value, now).owed is Some {
        let p = first_match(s.lists[key], value);
        lemma_first_match_exists(s.lists[key], value);
        assert(s.lists[key].remove(p).insert(p, s.lists[key][p]) =~= s.lists[key]);
        assert(t.lists =~= s.lists);
    }
}

/// Giving a name back what it holds changes nothing, and what a name is
/// given back is what it then holds.
pub proof fn law_reinstate(s: DbView, key: Seq<char>, was: Held)
    requires
        s.exclusive(),
    ensures
        same_maps(s.reinstate(key, s.held(key)), s),
        s.reinstate(key, was).held(key) == was,
        s.reinstate(key, was).exclusive(),
{
    assert(s.reinstate(key, s.held(key)).scalars =~= s.scalars);
    assert(s.reinstate(key, s.held(key)).lists =~= s.lists);
}

/// A dump that succeeds lets the change stand: the maps are what the change
/// made of them, and nothing is owed any more.
pub proof fn law_success_keeps_change(s: DbView, now: u64)
    ensures
        same_maps(s.dump_finished(true, now), s),
        s.dump_finished(true, now).owed is None,
        s.dump_finished(false, now).owed is None,
{
}

/// A report that answers no owed dump changes nothing.
pub proof fn law_stray_report(s: DbView, ok: bool, now: u64)
    requires
        s.owed is None,
    ensures
        s.dump_finished(ok, now) == s,
{
}

/// Removing a key that is not there changes neither map.
pub proof fn law_remove_missing(s: DbView, key: Seq<char>, now: u64)
    requires
        !s.key_exists(key),
    ensures
        same_maps(s.rem(key, now), s),
        s.rem(key, now).owed is None,
        s.owed is None ==> s.rem(key, now) == s,
{
}

/// After a removal the key is gone from both maps.
pub proof fn law_removed_is_gone(s: DbView, key: Seq<char>, now: u64)
    requires
        s.wf(),
    ensures
        !s.rem(key, now).key_exists(key),
{
}

/// Appends come out in the order in which they went in: after `values` are
/// appended to a list of length `n`, the list is `values.len()` longer and
/// the element at `n + i` is `values[i]`.
pub proof fn law_append_order(s: DbView, name: Seq<char>, values: Seq<Seq<u8>>, i: int, now: u64)
    requires
        s.lists.contains_key(name),
        0 <= i < values.len(),
    ensures
        s.lextend(name, values, now).llen(name) == s.llen(name) + values.len(),
        s.lextend(name, values, now).lget(name, s.llen(name) + i) == Some(values[i]),
        forall|j: int|
            0 <= j < s.llen(name) ==> s.lextend(name, values, now).lget(name, j) == s.lget(name, j),
{
}

/// A store that is restored from entries that spell out the maps of a sound
/// state holds those maps: the same keys, and the same value under each.
/// This is the part of the way from a dump back to a store that lies behind
/// the decoder.
pub proof fn law_restore_keeps_maps(
    s: DbView,
    scalars: Seq<(Seq<char>, Seq<u8>)>,
    lists: Seq<(Seq<char>, Seq<Seq<u8>>)>,
    path: Seq<char>,
    policy: KeyValueDbDumpPolicy,
    method: SerializationMethod,
    now: u64,
)
    requires
        s.wf(),
        pair_keys_distinct(scalars),
        pair_keys_distinct(lists),
        pairs_map(scalars) == s.scalars,
        pairs_map(lists) == s.lists,
    ensures
        DbView::restored(path, policy, method, now, scalars, lists) is Ok,
        same_maps(DbView::restored(path, policy, method, now, scalars, lists)->Ok_0, s),
        DbView::restored(path, policy, method, now, scalars, lists)->Ok_0.wf(),
        forall|k: Seq<char>|
            DbView::restored(path, policy, method, now, scalars, lists)->Ok_0.key_exists(k)
                == #[trigger] s.key_exists(k),
{
    assert forall|k: Seq<char>| !(pair_has_key(scalars, k) && pair_has_key(lists, k)) by {
        if pair_has_key(scalars, k) && pair_has_key(lists, k) {
            assert(pairs_map(scalars).contains_key(k));
            assert(pairs_map(lists).contains_key(k));
        }
    }
}

/// Where the format's decoder reads out of a snapshot entries that spell
/// out the maps that were encoded, loading the snapshot gives a store with
/// those maps: the same keys, and the same value under each.
pub proof fn law_load_of_faithful_snapshot(
    s: DbView,
    bytes: Seq<u8>,
    path: Seq<char>,
    policy: KeyValueDbDumpPolicy,
    now: u64,
)
    requires
        s.wf(),
        snapshot_encoding(s.method, s.scalars, s.lists) == Ok::<Seq<u8>, Seq<char>>(bytes),
        snapshot_decoding(s.method, bytes) is Ok,
        pair_keys_distinct(snapshot_decoding(s.method, bytes)->Ok_0.0),
        pair_keys_distinct(snapshot_decoding(s.method, bytes)->Ok_0.1),
        pairs_map(snapshot_decoding(s.method, bytes)->Ok_0.0) == s.scalars,
        pairs_map(snapshot_decoding(s.method, bytes)->Ok_0.1) == s.lists,
    ensures
        DbView::loaded(path, policy, s.method, now, bytes) is Ok,
        same_maps(DbView::loaded(path, policy, s.method, now, bytes)->Ok_0, s),
        forall|k: Seq<char>|
            DbView::loaded(path, policy, s.method, now, bytes)->Ok_0.key_exists(k)
                == #[trigger] s.key_exists(k),
        forall|k: Seq<char>|
            DbView::loaded(path, policy, s.method, now, bytes)->Ok_0.get(k) == #[trigger] s.get(k),
{
    let maps = snapshot_decoding(s.method, bytes)->Ok_0;
    law_restore_keeps_maps(s, maps.0, maps.1, path, policy, s.method, now);
}

/// A YAML document out of bounds makes no store: it is refused before the
/// decoder sees it.
pub proof fn law_yaml_out_of_bounds_refused(
    path: Seq<char>,
    policy: KeyValueDbDumpPolicy,
    now: u64,
    bytes: Seq<u8>,
)
    requires
        !yaml_within_bounds(bytes),
    ensures
        DbView::loaded(path, policy, SerializationMethod::Yaml, now, bytes) == Err::<
            DbView,
            Seq<char>,
        >(yaml_refusal()),
{
}

/// Bytes that the format's decoder refuses make no store, and the refusal
/// is the decoder's.
pub proof fn law_corrupt_bytes_rejected(
    path: Seq<char>,
    policy: KeyValueDbDumpPolicy,
    method: SerializationMethod,
    now: u64,
    bytes: Seq<u8>,
)
    requires
        snapshot_decoding(method, bytes) is Err,
    ensures
        DbView::loaded(path, policy, method, now, bytes) is Err,
        DbView::loaded(path, policy, method, now, bytes)->Err_0 == snapshot_decoding(
            method,
            bytes,
        )->Err_0,
{
}

} // verus!
