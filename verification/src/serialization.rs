//! The snapshot codecs: one document that holds the scalar map and the list
//! map, in one of four wire formats.
//!
//! The encoders and decoders themselves belong to the format crates. What is
//! proved here rests on one claim about each of them: its result is a
//! function of its input alone. That function is given a name below, and the
//! store's contracts speak of snapshots through those names.

use vstd::prelude::*;
use std::collections::BTreeMap;
use crate::table::{as_map, distinct_keys, Table};

verus! {

/// The wire format of a store, chosen when the store is made and kept for
/// its life.
#[derive(Debug, Clone, Copy, PartialEq, Eq, Structural)]
pub enum SerializationMethod {
    /// JSON text.
    Json,
    /// Bincode, a compact binary format.
    Bin,
    /// YAML text.
    Yaml,
    /// CBOR.
    Cbor,
}

/// The byte strings of a list, element by element.
pub open spec fn rows(items: Seq<Vec<u8>>) -> Seq<Seq<u8>> {
    Seq::new(items.len(), |i: int| items[i]@)
}

/// The scalar map as mathematics: each key with the bytes stored under it.
pub open spec fn scalars_of(m: Map<Seq<char>, Vec<u8>>) -> Map<Seq<char>, Seq<u8>> {
    m.map_values(|v: Vec<u8>| v@)
}

/// The list map as mathematics: each key with its sequence of byte strings.
pub open spec fn lists_of(m: Map<Seq<char>, Vec<Vec<u8>>>) -> Map<Seq<char>, Seq<Seq<u8>>> {
    m.map_values(|l: Vec<Vec<u8>>| rows(l@))
}

/// Scalar entries as plain values, in their order.
pub open spec fn scalar_entries(s: Seq<(String, Vec<u8>)>) -> Seq<(Seq<char>, Seq<u8>)> {
    Seq::new(s.len(), |i: int| (s[i].0@, s[i].1@))
}

/// List entries as plain values, in their order.
pub open spec fn list_entries(s: Seq<(String, Vec<Vec<u8>>)>) -> Seq<(Seq<char>, Seq<Seq<u8>>)> {
    Seq::new(s.len(), |i: int| (s[i].0@, rows(s[i].1@)))
}

/// What `serde_json::to_vec` makes of the pair of maps, each written as a
/// JSON object with its keys in ascending order; its message where it
/// fails.
pub uninterp spec fn json_encoding(
    scalars: Map<Seq<char>, Seq<u8>>,
    lists: Map<Seq<char>, Seq<Seq<u8>>>,
) -> Result<Seq<u8>, Seq<char>>;

/// What `bincode::serialize` makes of the pair of maps, keys ascending.
pub uninterp spec fn bincode_encoding(
    scalars: Map<Seq<char>, Seq<u8>>,
    lists: Map<Seq<char>, Seq<Seq<u8>>>,
) -> Result<Seq<u8>, Seq<char>>;

/// What `serde_yaml::to_vec` makes of the pair of maps, keys ascending.
pub uninterp spec fn yaml_encoding(
    scalars: Map<Seq<char>, Seq<u8>>,
    lists: Map<Seq<char>, Seq<Seq<u8>>>,
) -> Result<Seq<u8>, Seq<char>>;

/// What `serde_cbor::to_vec` makes of the pair of maps, keys ascending.
pub uninterp spec fn cbor_encoding(
    scalars: Map<Seq<char>, Seq<u8>>,
    lists: Map<Seq<char>, Seq<Seq<u8>>>,
) -> Result<Seq<u8>, Seq<char>>;

/// The entries that `serde_json::from_slice` reads out of `bytes` as a pair
/// of maps, each in ascending key order; its message where it rejects the
/// bytes.
pub uninterp spec fn json_decoding(bytes: Seq<u8>) -> Result<
    (Seq<(Seq<char>, Seq<u8>)>, Seq<(Seq<char>, Seq<Seq<u8>>)>),
    Seq<char>,
>;

/// The entries that `bincode::deserialize` reads out of `bytes`.
pub uninterp spec fn bincode_decoding(bytes: Seq<u8>) -> Result<
    (Seq<(Seq<char>, Seq<u8>)>, Seq<(Seq<char>, Seq<Seq<u8>>)>),
    Seq<char>,
>;

/// The entries that `serde_yaml::from_slice` reads out of `bytes`.
pub uninterp spec fn yaml_decoding(bytes: Seq<u8>) -> Result<
    (Seq<(Seq<char>, Seq<u8>)>, Seq<(Seq<char>, Seq<Seq<u8>>)>),
    Seq<char>,
>;

/// The entries that `serde_cbor::from_slice` reads out of `bytes`.
pub uninterp spec fn cbor_decoding(bytes: Seq<u8>) -> Result<
    (Seq<(Seq<char>, Seq<u8>)>, Seq<(Seq<char>, Seq<Seq<u8>>)>),
    Seq<char>,
>;

/// The longest run of blanks and block indicators that may lead a line of a
/// YAML snapshot.
pub const YAML_MAX_LEADING_RUN: usize = 64;

/// A blank or a block indicator of YAML: a space, a tab, `-`, `?` or `:`.
pub open spec fn is_yaml_leading_byte(b: u8) -> bool {
    b == 32 || b == 9 || b == 45 || b == 63 || b == 58
}

/// The length of the run of blanks and block indicators that leads the line
/// of position `i` up to `i`; `None` once another byte has stood in that
/// line. A line begins after a line feed.
pub open spec fn yaml_leading_run(bytes: Seq<u8>, i: int) -> Option<nat>
    decreases i,
{
    if i <= 0 || bytes[i - 1] == 10 {
        Some(0)
    } else if is_yaml_leading_byte(bytes[i - 1]) {
        match yaml_leading_run(bytes, i - 1) {
            Some(n) => Some(n + 1),
            None => None,
        }
    } else {
        None
    }
}

/// The run that leads the line of position `i` is within the limit.
pub open spec fn yaml_run_within_limit(bytes: Seq<u8>, i: int) -> bool {
    match yaml_leading_run(bytes, i) {
        Some(n) => n <= YAML_MAX_LEADING_RUN,
        None => true,
    }
}

/// The document can be handed to the YAML decoder: no line is led by more
/// than [`YAML_MAX_LEADING_RUN`] blanks and block indicators, and every
/// carriage return is followed by a line feed.
///
/// The YAML parser descends once for each collection inside another. A block
/// collection opens only at a column further right than the one around it,
/// and only where nothing but blanks and block indicators stands before it
/// in its line; flow collections are counted by the parser itself. So this
/// bounds how deep the parser descends. A carriage return on its own ends a
/// line without starting the columns afresh, which would let columns grow
/// without end.
pub open spec fn yaml_within_bounds(bytes: Seq<u8>) -> bool {
    &&& forall|i: int|
        0 <= i < bytes.len() && #[trigger] bytes[i] == 13 ==> i + 1 < bytes.len() && bytes[i + 1]
            == 10
    &&& forall|i: int| 0 <= i <= bytes.len() ==> #[trigger] yaml_run_within_limit(bytes, i)
}

/// What is said of a YAML document that is not handed to the decoder.
pub open spec fn yaml_refusal() -> Seq<char> {
    "a YAML line is indented too deep, or a carriage return stands alone"@
}

/// Whether the document can be handed to the YAML decoder.
pub fn yaml_is_within_bounds(bytes: &[u8]) -> (ok: bool)
    ensures
        ok == yaml_within_bounds(bytes@),
{
    let n = bytes.len();
    let mut i: usize = 0;
    let mut run: usize = 0;
    let mut leading = true;
    while i < n
        invariant
            n == bytes@.len(),
            i <= n,
            run <= YAML_MAX_LEADING_RUN,
            yaml_leading_run(bytes@, i as int) == (if leading {
                Some(run as nat)
            } else {
                None
            }),
            forall|k: int| 0 <= k <= i ==> #[trigger] yaml_run_within_limit(bytes@, k),
            forall|k: int|
                0 <= k < i && #[trigger] bytes@[k] == 13 ==> k + 1 < n && bytes@[k + 1] == 10,
        decreases n - i,
    {
        let b = bytes[i];
        if b == 13 && (i + 1 >= n || bytes[i + 1] != 10) {
            return false;
        }
        if b == 10 {
            leading = true;
            run = 0;
        } else if leading && (b == 32 || b == 9 || b == 45 || b == 63 || b == 58) {
            run += 1;
            if run > YAML_MAX_LEADING_RUN {
                proof {
                    assert(!yaml_run_within_limit(bytes@, i + 1));
                }
                return false;
            }
        } else {
            leading = false;
        }
        i += 1;
    }
    true
}

/// The codec's answer is this snapshot.
pub open spec fn encoded_as(answer: Result<Seq<u8>, Seq<char>>, bytes: Seq<u8>) -> bool {
    answer is Ok && answer->Ok_0 == bytes
}

/// The codec's answer is these entries.
pub open spec fn decoded_as(
    answer: Result<(Seq<(Seq<char>, Seq<u8>)>, Seq<(Seq<char>, Seq<Seq<u8>>)>), Seq<char>>,
    scalars: Seq<(Seq<char>, Seq<u8>)>,
    lists: Seq<(Seq<char>, Seq<Seq<u8>>)>,
) -> bool {
    answer is Ok && answer->Ok_0 == (scalars, lists)
}

/// The codec's answer is a refusal with this message.
pub open spec fn refused_with<T>(answer: Result<T, Seq<char>>, msg: Seq<char>) -> bool {
    answer is Err && answer->Err_0 == msg
}

/// The snapshot of the two maps in the given format, or the message with
/// which the format's encoder refuses them.
pub open spec fn snapshot_encoding(
    method: SerializationMethod,
    scalars: Map<Seq<char>, Seq<u8>>,
    lists: Map<Seq<char>, Seq<Seq<u8>>>,
) -> Result<Seq<u8>, Seq<char>> {
    match method {
        SerializationMethod::Json => json_encoding(scalars, lists),
        SerializationMethod::Bin => bincode_encoding(scalars, lists),
        SerializationMethod::Yaml => yaml_encoding(scalars, lists),
        SerializationMethod::Cbor => cbor_encoding(scalars, lists),
    }
}

/// The entries that the given format's decoder reads out of `bytes`, or the
/// message with which it refuses them. A YAML document that is out of
/// bounds is refused before its decoder sees it.
pub open spec fn snapshot_decoding(method: SerializationMethod, bytes: Seq<u8>) -> Result<
    (Seq<(Seq<char>, Seq<u8>)>, Seq<(Seq<char>, Seq<Seq<u8>>)>),
    Seq<char>,
> {
    match method {
        SerializationMethod::Json => json_decoding(bytes),
        SerializationMethod::Bin => bincode_decoding(bytes),
        SerializationMethod::Yaml => if yaml_within_bounds(bytes) {
            yaml_decoding(bytes)
        } else {
            Err(yaml_refusal())
        },
        SerializationMethod::Cbor => cbor_decoding(bytes),
    }
}

/// Calls `serde_json::to_vec` on the two maps, each collected into a map
/// that is walked in key order. Trusted: the call returns (the crate
/// documents no panic), and what it returns, bytes or the message of a
/// refusal, depends on the two maps alone.
#[verifier::external_body]
fn json_encode(scalars: &Vec<(String, Vec<u8>)>, lists: &Vec<(String, Vec<Vec<u8>>)>) -> (r:
    Result<Vec<u8>, String>)
    requires
        distinct_keys(scalars@),
        distinct_keys(lists@),
    ensures
        match r {
            Ok(bytes) => encoded_as(
                json_encoding(scalars_of(as_map(scalars@)), lists_of(as_map(lists@))),
                bytes@,
            ),
            Err(msg) => refused_with(
                json_encoding(scalars_of(as_map(scalars@)), lists_of(as_map(lists@))),
                msg@,
            ),
        },
{
    let a: BTreeMap<&String, &Vec<u8>> = scalars.iter().map(|e| (&e.0, &e.1)).collect();
    let b: BTreeMap<&String, &Vec<Vec<u8>>> = lists.iter().map(|e| (&e.0, &e.1)).collect();
    serde_json::to_vec(&(a, b)).map_err(|e| e.to_string())
}

/// Calls `bincode::serialize` on the two maps, each collected into a map
/// that is walked in key order. Trusted: the call returns (the crate
/// documents no panic), and what it returns, bytes or the message of a
/// refusal, depends on the two maps alone.
#[verifier::external_body]
fn bincode_encode(scalars: &Vec<(String, Vec<u8>)>, lists: &Vec<(String, Vec<Vec<u8>>)>) -> (r:
    Result<Vec<u8>, String>)
    requires
        distinct_keys(scalars@),
        distinct_keys(lists@),
    ensures
        match r {
            Ok(bytes) => encoded_as(
                bincode_encoding(scalars_of(as_map(scalars@)), lists_of(as_map(lists@))),
                bytes@,
            ),
            Err(msg) => refused_with(
                bincode_encoding(scalars_of(as_map(scalars@)), lists_of(as_map(lists@))),
                msg@,
            ),
        },
{
    let a: BTreeMap<&String, &Vec<u8>> = scalars.iter().map(|e| (&e.0, &e.1)).collect();
    let b: BTreeMap<&String, &Vec<Vec<u8>>> = lists.iter().map(|e| (&e.0, &e.1)).collect();
    bincode::serialize(&(a, b)).map_err(|e| e.to_string())
}

/// Calls `serde_yaml::to_vec` on the two maps, each collected into a map
/// that is walked in key order. Trusted: the call returns (the crate
/// documents no panic), and what it returns, bytes or the message of a
/// refusal, depends on the two maps alone.
#[verifier::external_body]
fn yaml_encode(scalars: &Vec<(String, Vec<u8>)>, lists: &Vec<(String, Vec<Vec<u8>>)>) -> (r:
    Result<Vec<u8>, String>)
    requires
        distinct_keys(scalars@),
        distinct_keys(lists@),
    ensures
        match r {
            Ok(bytes) => encoded_as(
                yaml_encoding(scalars_of(as_map(scalars@)), lists_of(as_map(lists@))),
                bytes@,
            ),
            Err(msg) => refused_with(
                yaml_encoding(scalars_of(as_map(scalars@)), lists_of(as_map(lists@))),
                msg@,
            ),
        },
{
    let a: BTreeMap<&String, &Vec<u8>> = scalars.iter().map(|e| (&e.0, &e.1)).collect();
    let b: BTreeMap<&String, &Vec<Vec<u8>>> = lists.iter().map(|e| (&e.0, &e.1)).collect();
    serde_yaml::to_vec(&(a, b)).map_err(|e| e.to_string())
}

/// Calls `serde_cbor::to_vec` on the two maps, each collected into a map
/// that is walked in key order. Trusted: the call returns (the crate
/// documents no panic), and what it returns, bytes or the message of a
/// refusal, depends on the two maps alone.
#[verifier::external_body]
fn cbor_encode(scalars: &Vec<(String, Vec<u8>)>, lists: &Vec<(String, Vec<Vec<u8>>)>) -> (r:
    Result<Vec<u8>, String>)
    requires
        distinct_keys(scalars@),
        distinct_keys(lists@),
    ensures
        match r {
            Ok(bytes) => encoded_as(
                cbor_encoding(scalars_of(as_map(scalars@)), lists_of(as_map(lists@))),
                bytes@,
            ),
            Err(msg) => refused_with(
                cbor_encoding(scalars_of(as_map(scalars@)), lists_of(as_map(lists@))),
                msg@,
            ),
        },
{
    let a: BTreeMap<&String, &Vec<u8>> = scalars.iter().map(|e| (&e.0, &e.1)).collect();
    let b: BTreeMap<&String, &Vec<Vec<u8>>> = lists.iter().map(|e| (&e.0, &e.1)).collect();
    serde_cbor::to_vec(&(a, b)).map_err(|e| e.to_string())
}

/// Calls `serde_json::from_slice` for a pair of maps and lists each map's
/// entries in key order. Trusted: the call returns for every input (the
/// crate documents no panic), and what it returns, entries or the message of
/// a refusal, depends on the bytes alone.
#[verifier::external_body]
fn json_decode(bytes: &[u8]) -> (r: Result<
    (Vec<(String, Vec<u8>)>, Vec<(String, Vec<Vec<u8>>)>),
    String,
>)
    ensures
        match r {
            Ok(maps) => decoded_as(
                json_decoding(bytes@),
                scalar_entries(maps.0@),
                list_entries(maps.1@),
            ),
            Err(msg) => refused_with(json_decoding(bytes@), msg@),
        },
{
    serde_json::from_slice::<(BTreeMap<String, Vec<u8>>, BTreeMap<String, Vec<Vec<u8>>>)>(bytes)
        .map(|(a, b)| (a.into_iter().collect(), b.into_iter().collect()))
        .map_err(|e| e.to_string())
}

/// Calls `bincode::deserialize` for a pair of maps and lists each map's
/// entries in key order. Trusted: the call returns for every input (the
/// crate documents no panic), and what it returns, entries or the message of
/// a refusal, depends on the bytes alone.
#[verifier::external_body]
fn bincode_decode(bytes: &[u8]) -> (r: Result<
    (Vec<(String, Vec<u8>)>, Vec<(String, Vec<Vec<u8>>)>),
    String,
>)
    ensures
        match r {
            Ok(maps) => decoded_as(
                bincode_decoding(bytes@),
                scalar_entries(maps.0@),
                list_entries(maps.1@),
            ),
            Err(msg) => refused_with(bincode_decoding(bytes@), msg@),
        },
{
    bincode::deserialize::<(BTreeMap<String, Vec<u8>>, BTreeMap<String, Vec<Vec<u8>>>)>(bytes)
        .map(|(a, b)| (a.into_iter().collect(), b.into_iter().collect()))
        .map_err(|e| e.to_string())
}

/// Calls `serde_yaml::from_slice` for a pair of maps and lists each map's
/// entries in key order. The parser behind it descends without a limit of
/// its own into block collections, so only documents within bounds are
/// handed to it. Trusted: on those the call returns, and what it returns,
/// entries or the message of a refusal, depends on the bytes alone.
#[verifier::external_body]
fn yaml_decode(bytes: &[u8]) -> (r: Result<
    (Vec<(String, Vec<u8>)>, Vec<(String, Vec<Vec<u8>>)>),
    String,
>)
    requires
        yaml_within_bounds(bytes@),
    ensures
        match r {
            Ok(maps) => decoded_as(
                yaml_decoding(bytes@),
                scalar_entries(maps.0@),
                list_entries(maps.1@),
            ),
            Err(msg) => refused_with(yaml_decoding(bytes@), msg@),
        },
{
    serde_yaml::from_slice::<(BTreeMap<String, Vec<u8>>, BTreeMap<String, Vec<Vec<u8>>>)>(bytes)
        .map(|(a, b)| (a.into_iter().collect(), b.into_iter().collect()))
        .map_err(|e| e.to_string())
}

/// Calls `serde_cbor::from_slice` for a pair of maps and lists each map's
/// entries in key order. Trusted: the call returns for every input (the
/// crate documents no panic), and what it returns, entries or the message of
/// a refusal, depends on the bytes alone.
#[verifier::external_body]
fn cbor_decode(bytes: &[u8]) -> (r: Result<
    (Vec<(String, Vec<u8>)>, Vec<(String, Vec<Vec<u8>>)>),
    String,
>)
    ensures
        match r {
            Ok(maps) => decoded_as(
                cbor_decoding(bytes@),
                scalar_entries(maps.0@),
                list_entries(maps.1@),
            ),
            Err(msg) => refused_with(cbor_decoding(bytes@), msg@),
        },
{
    serde_cbor::from_slice::<(BTreeMap<String, Vec<u8>>, BTreeMap<String, Vec<Vec<u8>>>)>(bytes)
        .map(|(a, b)| (a.into_iter().collect(), b.into_iter().collect()))
        .map_err(|e| e.to_string())
}

/// The snapshot codec of one format.
#[derive(Debug, Clone, Copy)]
pub struct Serializer {
    ser_method: SerializationMethod,
}

impl Serializer {
    /// The format this codec writes and reads.
    pub closed spec fn method(&self) -> SerializationMethod {
        self.ser_method
    }

    /// The codec of the given format.
    pub fn new(ser_method: SerializationMethod) -> (s: Serializer)
        ensures
            s.method() == ser_method,
    {
        Serializer { ser_method }
    }

    /// The format this codec writes and reads.
    pub fn get_method(&self) -> (m: SerializationMethod)
        ensures
            m == self.method(),
    {
        self.ser_method
    }

    /// Encodes the two maps as one snapshot document. The bytes are those
    /// that the format gives for the two maps; an encoder's refusal comes
    /// back as its message.
    pub fn serialize_db(&self, map: &Table<Vec<u8>>, list_map: &Table<Vec<Vec<u8>>>) -> (r: Result<
        Vec<u8>,
        String,
    >)
        requires
            map.wf(),
            list_map.wf(),
        ensures
            match r {
                Ok(bytes) => encoded_as(
                    snapshot_encoding(self.method(), scalars_of(map@), lists_of(list_map@)),
                    bytes@,
                ),
                Err(msg) => refused_with(
                    snapshot_encoding(self.method(), scalars_of(map@), lists_of(list_map@)),
                    msg@,
                ),
            },
    {
        let scalars = map.as_entries();
        let lists = list_map.as_entries();
        match self.ser_method {
            SerializationMethod::Json => json_encode(scalars, lists),
            SerializationMethod::Bin => bincode_encode(scalars, lists),
            SerializationMethod::Yaml => yaml_encode(scalars, lists),
            SerializationMethod::Cbor => cbor_encode(scalars, lists),
        }
    }

    /// Decodes one snapshot document into the entries of the two maps. The
    /// entries are those that the format reads out of the bytes; a decoder's
    /// refusal comes back as its message.
    pub fn deserialize_db(&self, ser_db: &[u8]) -> (r: Result<
        (Vec<(String, Vec<u8>)>, Vec<(String, Vec<Vec<u8>>)>),
        String,
    >)
        ensures
            match r {
                Ok(maps) => decoded_as(
                    snapshot_decoding(self.method(), ser_db@),
                    scalar_entries(maps.0@),
                    list_entries(maps.1@),
                ),
                Err(msg) => refused_with(snapshot_decoding(self.method(), ser_db@), msg@),
            },
    {
        match self.ser_method {
            SerializationMethod::Json => json_decode(ser_db),
            SerializationMethod::Bin => bincode_decode(ser_db),
            SerializationMethod::Yaml => if yaml_is_within_bounds(ser_db) {
                yaml_decode(ser_db)
            } else {
                Err("a YAML line is indented too deep, or a carriage return stands alone".to_owned())
            },
            SerializationMethod::Cbor => cbor_decode(ser_db),
        }
    }
}

} // verus!
