use kvstore::serialization::Serializer;
use kvstore::table::{same_text, Table};
use kvstore::SerializationMethod;

fn sample() -> Table<u32> {
    let mut table = Table::new();
    assert_eq!(table.insert(String::from("one"), 1), None);
    assert_eq!(table.insert(String::from("two"), 2), None);
    assert_eq!(table.insert(String::from("three"), 3), None);
    table
}

#[test]
fn same_text_compares_the_characters() {
    assert!(same_text("", ""));
    assert!(same_text("key", "key"));
    assert!(!same_text("key", "kez"));
    assert!(!same_text("key", "ke"));
    assert!(!same_text("key", "keys"));
    assert!(!same_text("", "k"));
    assert!(same_text("gr\u{fc}\u{df}e \u{4e16}\u{754c}", "gr\u{fc}\u{df}e \u{4e16}\u{754c}"));
    assert!(!same_text("gr\u{fc}\u{df}e", "gru\u{df}e"));
    assert!(!same_text("e\u{301}", "\u{e9}"));
}

#[test]
fn a_new_table_is_empty() {
    let table: Table<u32> = Table::new();
    assert_eq!(table.len(), 0);
    assert!(table.keys().is_empty());
    assert_eq!(table.get("one"), None);
    assert!(!table.contains_key("one"));
    assert_eq!(table.position("one"), None);
}

#[test]
fn insert_files_a_value_and_gives_the_earlier_one_back() {
    let mut table = sample();
    assert_eq!(table.len(), 3);
    assert_eq!(table.get("two"), Some(&2));
    assert_eq!(table.insert(String::from("two"), 22), Some(2));
    assert_eq!(table.get("two"), Some(&22));
    assert_eq!(table.len(), 3);
    assert_eq!(table.get("one"), Some(&1));
    assert_eq!(table.get("three"), Some(&3));
    assert_eq!(table.get("four"), None);
}

#[test]
fn remove_takes_a_key_out() {
    let mut table = sample();
    assert_eq!(table.remove("two"), Some(2));
    assert_eq!(table.remove("two"), None);
    assert_eq!(table.len(), 2);
    assert!(!table.contains_key("two"));
    assert_eq!(table.get("one"), Some(&1));
    assert_eq!(table.get("three"), Some(&3));
    assert_eq!(table.keys(), vec![String::from("one"), String::from("three")]);
}

#[test]
fn get_mut_changes_a_value_in_place() {
    let mut table = sample();
    match table.get_mut("three") {
        Some(value) => *value += 30,
        None => panic!("the key was inserted"),
    }
    assert_eq!(table.get("three"), Some(&33));
    assert!(table.get_mut("four").is_none());
    assert_eq!(table.len(), 3);
}

#[test]
fn keys_and_entries_keep_the_order_of_insertion() {
    let mut table = sample();
    table.insert(String::from("one"), 11);
    assert_eq!(table.keys(), vec![String::from("one"), String::from("two"), String::from("three")]);
    assert_eq!(
        table.as_entries(),
        &vec![(String::from("one"), 11), (String::from("two"), 2), (String::from("three"), 3)]
    );
    assert_eq!(table.position("one"), Some(0));
    assert_eq!(table.position("three"), Some(2));
}

#[test]
fn from_entries_refuses_a_key_that_occurs_twice() {
    let good = vec![(String::from("a"), 1), (String::from("b"), 2)];
    let table = Table::from_entries(good).unwrap();
    assert_eq!(table.get("b"), Some(&2));
    assert_eq!(table.len(), 2);
    let bad = vec![(String::from("a"), 1), (String::from("b"), 2), (String::from("a"), 3)];
    let back = Table::from_entries(bad.clone()).unwrap_err();
    assert_eq!(back, bad);
    let empty: Table<u32> = Table::from_entries(Vec::new()).unwrap();
    assert_eq!(empty.len(), 0);
}

#[test]
fn the_codec_encodes_the_tables_it_is_given() {
    let mut scalars: Table<Vec<u8>> = Table::new();
    scalars.insert(String::from("k"), vec![1, 2]);
    let mut lists: Table<Vec<Vec<u8>>> = Table::new();
    lists.insert(String::from("l"), vec![vec![3], vec![]]);
    let json = Serializer::new(SerializationMethod::Json).serialize_db(&scalars, &lists).unwrap();
    assert_eq!(String::from_utf8(json).unwrap(), "[{\"k\":[1,2]},{\"l\":[[3],[]]}]");
    let cbor = Serializer::new(SerializationMethod::Cbor).serialize_db(&scalars, &lists).unwrap();
    assert_eq!(cbor, vec![0x82, 0xa1, 0x61, b'k', 0x82, 1, 2, 0xa1, 0x61, b'l', 0x82, 0x81, 3, 0x80]);
    let back = Serializer::new(SerializationMethod::Cbor).deserialize_db(&cbor).unwrap();
    assert_eq!(back.0, vec![(String::from("k"), vec![1, 2])]);
    assert_eq!(back.1, vec![(String::from("l"), vec![vec![3], vec![]])]);
}
