use kvstore::persist::{decimal_text, temp_file_path};
use kvstore::serialization::{yaml_is_within_bounds, Serializer, YAML_MAX_LEADING_RUN};
use kvstore::{
    DumpJob, ErrorType, KeyValueDb, KeyValueDbDumpPolicy, SerializationMethod,
};

const METHODS: [SerializationMethod; 4] = [
    SerializationMethod::Json,
    SerializationMethod::Bin,
    SerializationMethod::Yaml,
    SerializationMethod::Cbor,
];

fn bytes(text: &str) -> Vec<u8> {
    text.as_bytes().to_vec()
}

fn sample(method: SerializationMethod) -> KeyValueDb {
    let mut db = KeyValueDb::new("p.db", KeyValueDbDumpPolicy::DumpUponRequest, method, 0);
    db.set("k", Ok(bytes("2023")), 1).unwrap();
    db.set("a", Ok(bytes("x")), 2).unwrap();
    db.lcreate("l", 3).ladd(bytes("1"), 4).ladd(bytes("2"), 5);
    db.lcreate("e", 6);
    db
}

fn list_of(db: &KeyValueDb, name: &str) -> Vec<Vec<u8>> {
    (0..db.llen(name)).map(|i| db.lget(name, i).unwrap().clone()).collect()
}

fn sorted_keys(db: &KeyValueDb) -> Vec<String> {
    let mut keys = db.get_all();
    keys.sort();
    keys
}

#[test]
fn decimal_text_writes_the_numeral() {
    assert_eq!(decimal_text(0), "0");
    assert_eq!(decimal_text(7), "7");
    assert_eq!(decimal_text(10), "10");
    assert_eq!(decimal_text(109), "109");
    assert_eq!(decimal_text(1700000000), "1700000000");
    assert_eq!(decimal_text(u64::MAX), "18446744073709551615");
}

#[test]
fn temp_file_path_appends_the_seconds() {
    assert_eq!(temp_file_path("example.db", 1700000000), "example.db.temp.1700000000");
    assert_eq!(temp_file_path("dir/data.bin", 0), "dir/data.bin.temp.0");
    assert_eq!(temp_file_path("", 42), ".temp.42");
}

#[test]
fn dump_job_names_the_paths() {
    let job = sample(SerializationMethod::Json).dump_job(1700000000).unwrap();
    assert_eq!(job.db_path, "p.db");
    assert_eq!(job.temp_path, "p.db.temp.1700000000");
    assert_ne!(job.temp_path, job.db_path);
}

#[test]
fn dump_job_leaves_the_store_as_it_was() {
    let mut db = sample(SerializationMethod::Json);
    assert!(db.dump());
    let first = db.dump_job(1).unwrap();
    let second = db.dump_job(2).unwrap();
    assert_eq!(first.bytes, second.bytes);
    assert_eq!(second.temp_path, "p.db.temp.2");
    assert!(db.dump_owed());
    assert_eq!(db.total_keys(), 4);
}

#[test]
fn dump_job_new_wraps_the_encoders_answer() {
    let job = DumpJob::new("a.db", 9, Ok(vec![1, 2, 3])).unwrap();
    assert_eq!(job.bytes, vec![1, 2, 3]);
    assert_eq!(job.db_path, "a.db");
    assert_eq!(job.temp_path, "a.db.temp.9");
    let err = DumpJob::new("a.db", 9, Err(String::from("no"))).unwrap_err();
    assert_eq!(err.get_type(), ErrorType::Serialization);
    assert_eq!(err.message(), "no");
}

#[test]
fn json_snapshot_is_a_pair_of_objects() {
    let job = sample(SerializationMethod::Json).dump_job(0).unwrap();
    assert_eq!(
        String::from_utf8(job.bytes).unwrap(),
        "[{\"a\":[120],\"k\":[50,48,50,51]},{\"e\":[],\"l\":[[49],[50]]}]"
    );
    let empty = KeyValueDb::new_json("p.db", KeyValueDbDumpPolicy::AutoDump, 0);
    assert_eq!(empty.dump_job(0).unwrap().bytes, bytes("[{},{}]"));
}

#[test]
fn bincode_snapshot_is_length_prefixed() {
    let mut db = KeyValueDb::new_bin("p.db", KeyValueDbDumpPolicy::AutoDump, 0);
    db.set("k", Ok(vec![7, 8]), 1).unwrap();
    db.lcreate("l", 2).ladd(vec![9], 3);
    let expected: Vec<u8> = vec![
        1, 0, 0, 0, 0, 0, 0, 0, // one scalar
        1, 0, 0, 0, 0, 0, 0, 0, b'k', // its key
        2, 0, 0, 0, 0, 0, 0, 0, 7, 8, // its value
        1, 0, 0, 0, 0, 0, 0, 0, // one list
        1, 0, 0, 0, 0, 0, 0, 0, b'l', // its name
        1, 0, 0, 0, 0, 0, 0, 0, // one element
        1, 0, 0, 0, 0, 0, 0, 0, 9, // the element
    ];
    assert_eq!(db.dump_job(0).unwrap().bytes, expected);
}

#[test]
fn cbor_snapshot_is_an_array_of_two_maps() {
    let job = sample(SerializationMethod::Cbor).dump_job(0).unwrap();
    let expected: Vec<u8> = vec![
        0x82, 0xa2, 0x61, b'a', 0x81, 0x18, 120, 0x61, b'k', 0x84, 0x18, 50, 0x18, 48, 0x18, 50,
        0x18, 51, 0xa2, 0x61, b'e', 0x80, 0x61, b'l', 0x82, 0x81, 0x18, 49, 0x81, 0x18, 50,
    ];
    assert_eq!(job.bytes, expected);
    let empty = KeyValueDb::new_cbor("p.db", KeyValueDbDumpPolicy::AutoDump, 0);
    assert_eq!(empty.dump_job(0).unwrap().bytes, vec![0x82, 0xa0, 0xa0]);
}

#[test]
fn yaml_snapshot_is_a_sequence_of_two_mappings() {
    let job = sample(SerializationMethod::Yaml).dump_job(0).unwrap();
    assert_eq!(
        String::from_utf8(job.bytes).unwrap(),
        "---\n- a:\n    - 120\n  k:\n    - 50\n    - 48\n    - 50\n    - 51\n- e: []\n  l:\n    - - 49\n    - - 50\n"
    );
}

#[test]
fn snapshot_does_not_depend_on_the_order_of_insertion() {
    for method in METHODS {
        let mut one = KeyValueDb::new("p.db", KeyValueDbDumpPolicy::AutoDump, method, 0);
        one.set("a", Ok(bytes("1")), 1).unwrap();
        one.set("b", Ok(bytes("2")), 2).unwrap();
        one.lcreate("x", 3);
        one.lcreate("y", 4);
        let mut other = KeyValueDb::new("p.db", KeyValueDbDumpPolicy::AutoDump, method, 0);
        other.lcreate("y", 1);
        other.set("b", Ok(bytes("0")), 2).unwrap();
        other.lcreate("x", 3);
        other.set("a", Ok(bytes("1")), 4).unwrap();
        other.set("b", Ok(bytes("2")), 5).unwrap();
        assert_eq!(one.dump_job(0).unwrap().bytes, other.dump_job(0).unwrap().bytes);
    }
}

#[test]
fn dump_then_load_gives_the_same_store() {
    for method in METHODS {
        let db = sample(method);
        let job = db.dump_job(1700000000).unwrap();
        let loaded =
            KeyValueDb::load("p.db", KeyValueDbDumpPolicy::AutoDump, method, Ok(job.bytes), 7)
                .unwrap();
        assert_eq!(sorted_keys(&loaded), sorted_keys(&db));
        assert_eq!(loaded.total_keys(), 4);
        assert_eq!(loaded.get("k"), Some(&bytes("2023")));
        assert_eq!(loaded.get("a"), Some(&bytes("x")));
        assert_eq!(list_of(&loaded, "l"), vec![bytes("1"), bytes("2")]);
        assert!(loaded.lexists("e"));
        assert_eq!(loaded.llen("e"), 0);
        assert!(!loaded.dump_owed());
    }
}

#[test]
fn dump_then_load_keeps_typed_values() {
    for method in METHODS {
        let mut db = KeyValueDb::new("p.db", KeyValueDbDumpPolicy::AutoDump, method, 0);
        db.set("int", Ok(serde_json::to_vec(&2023).unwrap()), 1).unwrap();
        db.set("text", Ok(serde_json::to_vec("hello world").unwrap()), 2).unwrap();
        db.set("raw", Ok(vec![0, 255, 128, 10]), 3).unwrap();
        let job = db.dump_job(0).unwrap();
        let loaded =
            KeyValueDb::load("p.db", KeyValueDbDumpPolicy::NeverDump, method, Ok(job.bytes), 0)
                .unwrap();
        let int: i32 = serde_json::from_slice(loaded.get("int").unwrap()).unwrap();
        let text: String = serde_json::from_slice(loaded.get("text").unwrap()).unwrap();
        assert_eq!(int, 2023);
        assert_eq!(text, "hello world");
        assert_eq!(loaded.get("raw"), Some(&vec![0, 255, 128, 10]));
    }
}

#[test]
fn load_of_an_empty_snapshot_gives_an_empty_store() {
    let db = KeyValueDb::load_json("p.db", KeyValueDbDumpPolicy::AutoDump, Ok(bytes("[{},{}]")), 0)
        .unwrap();
    assert_eq!(db.total_keys(), 0);
    assert!(!db.dump_owed());
}

#[test]
fn load_of_bytes_that_do_not_decode_is_a_serialization_failure() {
    for method in METHODS {
        for content in [bytes("\u{1}not a snapshot {"), vec![0xff, 0xfe, 0x00], Vec::new()] {
            let err =
                KeyValueDb::load("p.db", KeyValueDbDumpPolicy::AutoDump, method, Ok(content), 0)
                    .err()
                    .unwrap();
            assert_eq!(err.get_type(), ErrorType::Serialization);
        }
    }
}

#[test]
fn load_under_another_format_is_a_serialization_failure() {
    let job = sample(SerializationMethod::Cbor).dump_job(0).unwrap();
    let err = KeyValueDb::load_json("p.db", KeyValueDbDumpPolicy::AutoDump, Ok(job.bytes), 0)
        .err()
        .unwrap();
    assert_eq!(err.get_type(), ErrorType::Serialization);
}

#[test]
fn load_of_a_well_formed_document_of_another_shape_is_a_serialization_failure() {
    let err = KeyValueDb::load_json("p.db", KeyValueDbDumpPolicy::AutoDump, Ok(bytes("{\"k\":1}")), 0)
        .err()
        .unwrap();
    assert_eq!(err.get_type(), ErrorType::Serialization);
    assert_eq!(err.message(), "invalid type: map, expected a tuple of size 2 at line 1 column 0");
}

#[test]
fn load_of_a_file_that_cannot_be_read_is_an_io_failure() {
    let missing = std::io::Error::new(std::io::ErrorKind::NotFound, "no such file");
    let err = KeyValueDb::load(
        "p.db",
        KeyValueDbDumpPolicy::AutoDump,
        SerializationMethod::Json,
        Err(missing),
        0,
    )
    .err()
    .unwrap();
    assert_eq!(err.get_type(), ErrorType::Io);
    assert_eq!(err.message(), "no such file");
}

#[test]
fn load_of_a_snapshot_with_a_key_in_both_maps_is_a_serialization_failure() {
    let err = KeyValueDb::load_json(
        "p.db",
        KeyValueDbDumpPolicy::AutoDump,
        Ok(bytes("[{\"x\":[1]},{\"x\":[]}]")),
        0,
    )
    .err()
    .unwrap();
    assert_eq!(err.get_type(), ErrorType::Serialization);
    assert_eq!(err.message(), "a key names a scalar and a list");
}

#[test]
fn from_snapshot_refuses_a_key_that_occurs_twice() {
    let twice = vec![
        (String::from("a"), vec![1]),
        (String::from("b"), vec![2]),
        (String::from("a"), vec![3]),
    ];
    let err = KeyValueDb::from_snapshot(
        "p.db",
        KeyValueDbDumpPolicy::AutoDump,
        SerializationMethod::Json,
        Ok((twice, Vec::new())),
        0,
    )
    .err()
    .unwrap();
    assert_eq!(err.get_type(), ErrorType::Serialization);
    assert_eq!(err.message(), "a scalar key occurs twice");
    let lists = vec![(String::from("l"), vec![vec![1]]), (String::from("l"), Vec::new())];
    let err = KeyValueDb::from_snapshot(
        "p.db",
        KeyValueDbDumpPolicy::AutoDump,
        SerializationMethod::Json,
        Ok((Vec::new(), lists)),
        0,
    )
    .err()
    .unwrap();
    assert_eq!(err.message(), "a list name occurs twice");
}

#[test]
fn from_snapshot_passes_the_decoders_refusal_on() {
    let err = KeyValueDb::from_snapshot(
        "p.db",
        KeyValueDbDumpPolicy::AutoDump,
        SerializationMethod::Bin,
        Err(String::from("truncated")),
        0,
    )
    .err()
    .unwrap();
    assert_eq!(err.get_type(), ErrorType::Serialization);
    assert_eq!(err.message(), "truncated");
}

#[test]
fn from_snapshot_builds_the_store_from_the_entries() {
    let scalars = vec![(String::from("b"), vec![2]), (String::from("a"), vec![1])];
    let lists = vec![(String::from("l"), vec![vec![3], vec![4]])];
    let db = KeyValueDb::from_snapshot(
        "p.db",
        KeyValueDbDumpPolicy::AutoDump,
        SerializationMethod::Json,
        Ok((scalars, lists)),
        0,
    )
    .unwrap();
    assert_eq!(db.get("a"), Some(&vec![1]));
    assert_eq!(db.get("b"), Some(&vec![2]));
    assert_eq!(list_of(&db, "l"), vec![vec![3], vec![4]]);
    assert_eq!(db.total_keys(), 3);
}

#[test]
fn each_loader_reads_its_own_format() {
    let json = sample(SerializationMethod::Json).dump_job(0).unwrap().bytes;
    let bin = sample(SerializationMethod::Bin).dump_job(0).unwrap().bytes;
    let yaml = sample(SerializationMethod::Yaml).dump_job(0).unwrap().bytes;
    let cbor = sample(SerializationMethod::Cbor).dump_job(0).unwrap().bytes;
    let policy = KeyValueDbDumpPolicy::DumpUponRequest;
    let a = KeyValueDb::load_json("p.db", policy, Ok(json.clone()), 0).unwrap();
    let b = KeyValueDb::load_bin("p.db", policy, Ok(bin.clone()), 0).unwrap();
    let c = KeyValueDb::load_yaml("p.db", policy, Ok(yaml.clone()), 0).unwrap();
    let d = KeyValueDb::load_cbor("p.db", policy, Ok(cbor.clone()), 0).unwrap();
    // each store writes again what it was loaded from
    assert_eq!(a.dump_job(0).unwrap().bytes, json);
    assert_eq!(b.dump_job(0).unwrap().bytes, bin);
    assert_eq!(c.dump_job(0).unwrap().bytes, yaml);
    assert_eq!(d.dump_job(0).unwrap().bytes, cbor);
    assert!(KeyValueDb::load_bin("p.db", policy, Ok(json), 0).is_err());
}

#[test]
fn load_read_only_never_owes_a_dump() {
    let job = sample(SerializationMethod::Json).dump_job(0).unwrap();
    let mut db =
        KeyValueDb::load_read_only("p.db", SerializationMethod::Json, Ok(job.bytes), 0).unwrap();
    db.set("new", Ok(bytes("1")), u64::MAX).unwrap();
    assert!(!db.dump_owed());
    assert!(!db.dump());
    assert!(!db.dump_on_close());
    assert_eq!(db.get("new"), Some(&bytes("1")));
}

#[test]
fn a_loaded_store_counts_its_interval_from_the_load() {
    let job = sample(SerializationMethod::Json).dump_job(0).unwrap();
    let mut db = KeyValueDb::load(
        "p.db",
        KeyValueDbDumpPolicy::PeriodicDump(10),
        SerializationMethod::Json,
        Ok(job.bytes),
        100,
    )
    .unwrap();
    db.set("new", Ok(bytes("1")), 110).unwrap();
    assert!(!db.dump_owed());
    db.set("new", Ok(bytes("1")), 111).unwrap();
    assert!(db.dump_owed());
}

#[test]
fn the_codec_reads_back_what_it_wrote() {
    for method in METHODS {
        let codec = Serializer::new(method);
        assert_eq!(codec.get_method(), method);
        let bytes = sample(method).dump_job(0).unwrap().bytes;
        let (scalars, lists) = codec.deserialize_db(&bytes).unwrap();
        assert_eq!(
            scalars,
            vec![(String::from("a"), vec![b'x']), (String::from("k"), vec![b'2', b'0', b'2', b'3'])]
        );
        assert_eq!(
            lists,
            vec![
                (String::from("e"), Vec::<Vec<u8>>::new()),
                (String::from("l"), vec![vec![b'1'], vec![b'2']])
            ]
        );
    }
}

const YAML_REFUSAL: &str = "a YAML line is indented too deep, or a carriage return stands alone";

fn load_yaml(content: Vec<u8>) -> Result<KeyValueDb, kvstore::Error> {
    KeyValueDb::load_yaml("p.db", KeyValueDbDumpPolicy::AutoDump, Ok(content), 0)
}

#[test]
fn yaml_bounds_count_the_run_that_leads_a_line() {
    assert_eq!(YAML_MAX_LEADING_RUN, 64);
    assert!(yaml_is_within_bounds(b""));
    assert!(yaml_is_within_bounds(b"---\n- k:\n    - 50\n- l:\n    - - 49\n"));
    assert!(yaml_is_within_bounds(&b"- ".repeat(32)));
    assert!(!yaml_is_within_bounds(&[b"- ".repeat(32), b"-".to_vec()].concat()));
    assert!(yaml_is_within_bounds(&b" ".repeat(64)));
    assert!(!yaml_is_within_bounds(&b" ".repeat(65)));
    assert!(!yaml_is_within_bounds(&b"\t".repeat(65)));
    assert!(!yaml_is_within_bounds(&b"? ".repeat(33)));
    assert!(!yaml_is_within_bounds(&b": ".repeat(33)));
    // a run that follows another byte of its line leads nothing
    assert!(yaml_is_within_bounds(&[b"k".to_vec(), b"-".repeat(500)].concat()));
    // each line is counted for itself
    assert!(yaml_is_within_bounds(&[b" ".repeat(64), b"\n".to_vec()].concat().repeat(10)));
    assert!(!yaml_is_within_bounds(&[b"a: 1\n".to_vec(), b" ".repeat(65), b"b".to_vec()].concat()));
}

#[test]
fn yaml_bounds_refuse_a_carriage_return_that_stands_alone() {
    assert!(yaml_is_within_bounds(b"- a\r\n- b\r\n"));
    assert!(!yaml_is_within_bounds(b"- a\r- b\r"));
    assert!(!yaml_is_within_bounds(b"- a\r"));
    assert!(!yaml_is_within_bounds(b"\r\r\n"));
}

#[test]
fn load_of_deeply_nested_yaml_is_a_serialization_failure() {
    let err = load_yaml(b"- ".repeat(100_000)).err().unwrap();
    assert_eq!(err.get_type(), ErrorType::Serialization);
    assert_eq!(err.message(), YAML_REFUSAL);
    let err = load_yaml(b"-\r".repeat(100_000)).err().unwrap();
    assert_eq!(err.get_type(), ErrorType::Serialization);
    assert_eq!(err.message(), YAML_REFUSAL);
    let err = load_yaml(b"- a\r".repeat(100_000)).err().unwrap();
    assert_eq!(err.message(), YAML_REFUSAL);
}

#[test]
fn load_of_yaml_nested_up_to_the_limit_reaches_the_decoder() {
    // thirty-two sequences, one inside the other: within bounds, and not a snapshot
    let err = load_yaml([b"- ".repeat(32), b"1\n".to_vec()].concat()).err().unwrap();
    assert_eq!(err.get_type(), ErrorType::Serialization);
    assert_ne!(err.message(), YAML_REFUSAL);
    // flow collections are counted by the parser itself
    let err = load_yaml(b"[".repeat(100_000)).err().unwrap();
    assert_eq!(err.get_type(), ErrorType::Serialization);
    assert_ne!(err.message(), YAML_REFUSAL);
}

#[test]
fn load_of_yaml_with_windows_line_ends_gives_the_store() {
    let db = load_yaml(b"---\r\n- k:\r\n    - 50\r\n- l:\r\n    - - 49\r\n".to_vec()).unwrap();
    assert_eq!(db.get("k"), Some(&vec![50]));
    assert_eq!(list_of(&db, "l"), vec![vec![49]]);
}

#[test]
fn yaml_snapshots_of_keys_that_look_like_indentation_load_again() {
    let mut db = KeyValueDb::new("p.db", KeyValueDbDumpPolicy::AutoDump, SerializationMethod::Yaml, 0);
    let dashes = "-".repeat(200);
    let blanks = " ".repeat(200);
    let mixed = "- ? : ".repeat(50);
    db.set(&dashes, Ok(bytes("1")), 1).unwrap();
    db.set(&blanks, Ok(bytes("2")), 2).unwrap();
    db.lcreate(&mixed, 3).ladd(bytes("3"), 4);
    let job = db.dump_job(0).unwrap();
    assert!(yaml_is_within_bounds(&job.bytes));
    let loaded = load_yaml(job.bytes).unwrap();
    assert_eq!(loaded.get(&dashes), Some(&bytes("1")));
    assert_eq!(loaded.get(&blanks), Some(&bytes("2")));
    assert_eq!(list_of(&loaded, &mixed), vec![bytes("3")]);
}

/// A small generator of repeatable pseudo-random numbers.
fn next(state: &mut u64) -> u64 {
    *state = state.wrapping_mul(6364136223846793005).wrapping_add(1442695040888963407);
    *state >> 33
}

#[test]
fn load_of_yaml_within_bounds_always_returns() {
    // staircases of block collections, as deep as the bounds allow, over and over
    let mut stairs: Vec<u8> = Vec::new();
    for _ in 0..500 {
        for depth in 0..63 {
            stairs.extend(b" ".repeat(depth));
            stairs.extend(b"- \n");
        }
        for depth in 0..32 {
            stairs.extend(b"  ".repeat(depth));
            stairs.extend(b"k:\n");
        }
        stairs.extend(b"- - - - - - - - - - - - - - - - - - - - - - - - - - - - - - - ? a\n");
        stairs.extend(b": : : : : : : : : : : : : : : : : : : : : : : : : : : : : : : b\n");
    }
    assert!(yaml_is_within_bounds(&stairs));
    assert!(load_yaml(stairs).is_err());
    // lines made of the bytes that matter to the scanner, in any order
    let alphabet: &[u8] = b"  --??::\t\n\n#[]{},&*!|>'\"%@`ak1.\\";
    let mut state: u64 = 7;
    let mut handed_on = 0;
    for _ in 0..400 {
        let len = 200 + next(&mut state) as usize % 3000;
        let doc: Vec<u8> =
            (0..len).map(|_| alphabet[next(&mut state) as usize % alphabet.len()]).collect();
        if yaml_is_within_bounds(&doc) {
            handed_on += 1;
        }
        // whatever the document, loading it returns
        let _ = load_yaml(doc);
    }
    assert!(handed_on > 300);
}
