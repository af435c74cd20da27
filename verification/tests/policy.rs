use kvstore::{Error, ErrorType, KeyValueDb, KeyValueDbDumpPolicy, SerializationMethod};

const SECOND: u64 = 1_000_000_000;

fn fresh(policy: KeyValueDbDumpPolicy) -> KeyValueDb {
    KeyValueDb::new("policy.db", policy, SerializationMethod::Json, 0)
}

fn bytes(text: &str) -> Vec<u8> {
    text.as_bytes().to_vec()
}

fn disk_full() -> Result<(), Error> {
    Err(Error::io(std::io::Error::new(std::io::ErrorKind::Other, "disk full")))
}

fn list_of(db: &KeyValueDb, name: &str) -> Vec<Vec<u8>> {
    (0..db.llen(name)).map(|i| db.lget(name, i).unwrap().clone()).collect()
}

/// A store under `AutoDump` with one scalar and one list, all of it flushed.
fn settled() -> KeyValueDb {
    let mut db = fresh(KeyValueDbDumpPolicy::AutoDump);
    db.set("k", Ok(bytes("1")), 1).unwrap();
    db.dump_finished(Ok(()), 1).unwrap();
    db.lcreate("l", 2);
    db.dump_finished(Ok(()), 2).unwrap();
    db.lextend("l", vec![bytes("10"), bytes("20"), bytes("30")], 3);
    db.dump_finished(Ok(()), 3).unwrap();
    assert!(!db.dump_owed());
    db
}

#[test]
fn never_dump_owes_nothing_whatever_happens() {
    let mut db = fresh(KeyValueDbDumpPolicy::NeverDump);
    for i in 0..50u64 {
        db.set("k", Ok(bytes("1")), i * SECOND).unwrap();
        assert!(!db.dump_owed());
        db.lcreate("l", i * SECOND);
        assert!(!db.dump_owed());
        db.ladd("l", bytes("2"), i * SECOND);
        assert!(!db.dump_owed());
        db.lpop("l", 0, i * SECOND);
        assert!(!db.dump_owed());
        db.rem("k", i * SECOND);
        assert!(!db.dump_owed());
        db.rem("l", i * SECOND);
        assert!(!db.dump_owed());
    }
    assert!(!db.dump());
    assert!(!db.dump_owed());
    db.dumpdb(u64::MAX);
    assert!(!db.dump_owed());
    assert!(!db.dump_on_close());
}

#[test]
fn auto_dump_owes_a_dump_after_every_change() {
    let mut db = fresh(KeyValueDbDumpPolicy::AutoDump);
    db.set("k", Ok(bytes("1")), 0).unwrap();
    assert!(db.dump_owed());
    db.dump_finished(Ok(()), 0).unwrap();
    assert!(!db.dump_owed());
    db.lcreate("l", 0);
    assert!(db.dump_owed());
    db.dump_finished(Ok(()), 0).unwrap();
    db.ladd("l", bytes("1"), 0);
    assert!(db.dump_owed());
    db.dump_finished(Ok(()), 0).unwrap();
    db.lextend("l", Vec::new(), 0);
    assert!(db.dump_owed());
    db.dump_finished(Ok(()), 0).unwrap();
    db.lrem_value("l", Ok(bytes("1")), 0).unwrap();
    assert!(db.dump_owed());
    db.dump_finished(Ok(()), 0).unwrap();
    db.lrem_list("l", 0);
    assert!(db.dump_owed());
    db.dump_finished(Ok(()), 0).unwrap();
    db.rem("k", 0);
    assert!(db.dump_owed());
    db.dump_finished(Ok(()), 0).unwrap();
    assert!(!db.dump_owed());
    assert!(db.dump_on_close());
}

#[test]
fn dump_upon_request_owes_only_the_explicit_dump() {
    let mut db = fresh(KeyValueDbDumpPolicy::DumpUponRequest);
    db.set("k", Ok(bytes("1")), 5 * SECOND).unwrap();
    db.lcreate("l", 6 * SECOND);
    db.rem("k", 7 * SECOND);
    db.dumpdb(8 * SECOND);
    assert!(!db.dump_owed());
    assert!(db.dump());
    assert!(db.dump_owed());
    db.dump_finished(Ok(()), 9 * SECOND).unwrap();
    assert!(!db.dump_owed());
    assert!(!db.dump_on_close());
}

#[test]
fn a_failed_explicit_dump_takes_nothing_back() {
    let mut db = fresh(KeyValueDbDumpPolicy::DumpUponRequest);
    db.set("k", Ok(bytes("1")), 1).unwrap();
    db.lcreate("l", 2).ladd(bytes("2"), 3);
    assert!(db.dump());
    let report = db.dump_finished(disk_full(), 4).unwrap_err();
    assert_eq!(report.get_type(), ErrorType::Io);
    assert_eq!(report.message(), "disk full");
    assert!(!db.dump_owed());
    assert_eq!(db.get("k"), Some(&bytes("1")));
    assert_eq!(list_of(&db, "l"), vec![bytes("2")]);
}

#[test]
fn periodic_dump_flushes_once_within_the_interval() {
    let mut db = fresh(KeyValueDbDumpPolicy::PeriodicDump(10 * SECOND));
    // made at 0: not more than the interval has passed at 10 s sharp
    db.set("a", Ok(bytes("1")), 10 * SECOND).unwrap();
    assert!(!db.dump_owed());
    db.set("a", Ok(bytes("1")), 10 * SECOND + 1).unwrap();
    assert!(db.dump_owed());
    db.dump_finished(Ok(()), 11 * SECOND).unwrap();
    // within the interval of the dump that finished at 11 s
    db.set("b", Ok(bytes("2")), 12 * SECOND).unwrap();
    assert!(!db.dump_owed());
    db.set("c", Ok(bytes("3")), 21 * SECOND).unwrap();
    assert!(!db.dump_owed());
    // after it
    db.set("d", Ok(bytes("4")), 21 * SECOND + 1).unwrap();
    assert!(db.dump_owed());
    assert!(db.dump_on_close());
}

#[test]
fn periodic_dump_counts_from_the_attempt_when_the_dump_fails() {
    let mut db = fresh(KeyValueDbDumpPolicy::PeriodicDump(10 * SECOND));
    db.set("a", Ok(bytes("1")), 15 * SECOND).unwrap();
    assert!(db.dump_owed());
    db.dump_finished(disk_full(), 18 * SECOND).unwrap_err();
    assert_eq!(db.get("a"), None);
    // the attempt was at 15 s: nothing is owed up to 25 s
    db.set("a", Ok(bytes("1")), 25 * SECOND).unwrap();
    assert!(!db.dump_owed());
    db.set("b", Ok(bytes("2")), 25 * SECOND + 1).unwrap();
    assert!(db.dump_owed());
}

#[test]
fn periodic_dump_is_not_due_when_the_clock_stands_behind() {
    let mut db = KeyValueDb::new(
        "policy.db",
        KeyValueDbDumpPolicy::PeriodicDump(0),
        SerializationMethod::Json,
        100,
    );
    db.set("a", Ok(bytes("1")), 50).unwrap();
    assert!(!db.dump_owed());
    db.set("a", Ok(bytes("1")), 100).unwrap();
    assert!(!db.dump_owed());
    db.set("a", Ok(bytes("1")), 101).unwrap();
    assert!(db.dump_owed());
}

#[test]
fn periodic_dump_notes_the_time_of_an_explicit_dump() {
    let mut db = fresh(KeyValueDbDumpPolicy::PeriodicDump(10 * SECOND));
    assert!(db.dump());
    db.dump_finished(Ok(()), 30 * SECOND).unwrap();
    db.set("a", Ok(bytes("1")), 40 * SECOND).unwrap();
    assert!(!db.dump_owed());
    db.set("a", Ok(bytes("1")), 41 * SECOND).unwrap();
    assert!(db.dump_owed());
}

#[test]
fn a_failed_dump_takes_a_new_scalar_back() {
    let mut db = settled();
    db.set("fresh", Ok(bytes("9")), 5).unwrap();
    assert_eq!(db.get("fresh"), Some(&bytes("9")));
    let report = db.dump_finished(disk_full(), 6).unwrap_err();
    assert_eq!(report.get_type(), ErrorType::Io);
    assert_eq!(db.get("fresh"), None);
    assert!(!db.key_exists("fresh"));
    assert_eq!(db.total_keys(), 2);
    assert!(!db.dump_owed());
}

#[test]
fn a_failed_dump_gives_a_scalar_its_earlier_value_back() {
    let mut db = settled();
    db.set("k", Ok(bytes("2")), 5).unwrap();
    assert_eq!(db.get("k"), Some(&bytes("2")));
    db.dump_finished(disk_full(), 6).unwrap_err();
    assert_eq!(db.get("k"), Some(&bytes("1")));
    assert_eq!(db.total_keys(), 2);
}

#[test]
fn a_failed_dump_after_a_set_over_a_list_puts_the_list_back() {
    let mut db = settled();
    db.set("l", Ok(bytes("2")), 5).unwrap();
    assert!(!db.lexists("l"));
    assert_eq!(db.get("l"), Some(&bytes("2")));
    db.dump_finished(disk_full(), 6).unwrap_err();
    assert_eq!(db.get("l"), None);
    assert!(db.lexists("l"));
    assert_eq!(list_of(&db, "l"), vec![bytes("10"), bytes("20"), bytes("30")]);
    assert_eq!(db.get("k"), Some(&bytes("1")));
    assert_eq!(db.total_keys(), 2);
}

#[test]
fn a_failed_dump_puts_a_removed_scalar_back() {
    let mut db = settled();
    assert!(db.rem("k", 5));
    assert_eq!(db.get("k"), None);
    db.dump_finished(disk_full(), 6).unwrap_err();
    assert_eq!(db.get("k"), Some(&bytes("1")));
    assert_eq!(list_of(&db, "l"), vec![bytes("10"), bytes("20"), bytes("30")]);
}

#[test]
fn a_failed_dump_puts_a_removed_list_back() {
    let mut db = settled();
    assert!(db.rem("l", 5));
    db.dump_finished(disk_full(), 6).unwrap_err();
    assert_eq!(list_of(&db, "l"), vec![bytes("10"), bytes("20"), bytes("30")]);
    assert_eq!(db.lrem_list("l", 7), 3);
    assert!(!db.lexists("l"));
    db.dump_finished(disk_full(), 8).unwrap_err();
    assert_eq!(list_of(&db, "l"), vec![bytes("10"), bytes("20"), bytes("30")]);
    assert_eq!(db.total_keys(), 2);
}

#[test]
fn a_failed_dump_cuts_an_appended_list_back() {
    let mut db = settled();
    assert!(db.ladd("l", bytes("40"), 5).is_some());
    assert_eq!(db.llen("l"), 4);
    db.dump_finished(disk_full(), 6).unwrap_err();
    assert_eq!(list_of(&db, "l"), vec![bytes("10"), bytes("20"), bytes("30")]);
    assert!(db.lextend("l", vec![bytes("40"), bytes("50")], 7).is_some());
    assert_eq!(db.llen("l"), 5);
    db.dump_finished(disk_full(), 8).unwrap_err();
    assert_eq!(list_of(&db, "l"), vec![bytes("10"), bytes("20"), bytes("30")]);
}

#[test]
fn a_failed_dump_puts_a_popped_element_back_in_its_place() {
    let mut db = settled();
    assert_eq!(db.lpop("l", 1, 5), Some(bytes("20")));
    assert_eq!(list_of(&db, "l"), vec![bytes("10"), bytes("30")]);
    db.dump_finished(disk_full(), 6).unwrap_err();
    assert_eq!(list_of(&db, "l"), vec![bytes("10"), bytes("20"), bytes("30")]);
    assert_eq!(db.lpop("l", 2, 7), Some(bytes("30")));
    db.dump_finished(disk_full(), 8).unwrap_err();
    assert_eq!(list_of(&db, "l"), vec![bytes("10"), bytes("20"), bytes("30")]);
}

#[test]
fn a_failed_dump_puts_a_removed_value_back_in_its_place() {
    let mut db = settled();
    assert_eq!(db.lrem_value("l", Ok(bytes("10")), 5).unwrap(), true);
    assert_eq!(list_of(&db, "l"), vec![bytes("20"), bytes("30")]);
    db.dump_finished(disk_full(), 6).unwrap_err();
    assert_eq!(list_of(&db, "l"), vec![bytes("10"), bytes("20"), bytes("30")]);
}

#[test]
fn a_failed_dump_takes_a_created_list_back() {
    let mut db = settled();
    db.lcreate("fresh", 5);
    assert!(db.lexists("fresh"));
    db.dump_finished(disk_full(), 6).unwrap_err();
    assert!(!db.key_exists("fresh"));
    assert_eq!(db.total_keys(), 2);
    assert_eq!(db.get("k"), Some(&bytes("1")));
    assert_eq!(list_of(&db, "l"), vec![bytes("10"), bytes("20"), bytes("30")]);
}

#[test]
fn a_failed_dump_after_a_list_is_created_over_a_scalar_puts_the_scalar_back() {
    let mut db = settled();
    db.lcreate("k", 5);
    assert!(db.lexists("k"));
    assert_eq!(db.get("k"), None);
    db.dump_finished(disk_full(), 6).unwrap_err();
    assert!(!db.lexists("k"));
    assert_eq!(db.get("k"), Some(&bytes("1")));
    assert_eq!(db.total_keys(), 2);
}

#[test]
fn a_failed_dump_after_a_list_is_created_over_a_list_puts_the_elements_back() {
    let mut db = settled();
    db.lcreate("l", 5);
    assert_eq!(db.llen("l"), 0);
    db.dump_finished(disk_full(), 6).unwrap_err();
    assert_eq!(list_of(&db, "l"), vec![bytes("10"), bytes("20"), bytes("30")]);
    assert_eq!(db.total_keys(), 2);
}

#[test]
fn a_successful_dump_lets_a_created_list_stand() {
    let mut db = settled();
    db.lcreate("k", 5);
    db.dump_finished(Ok(()), 6).unwrap();
    assert!(db.lexists("k"));
    assert_eq!(db.get("k"), None);
    db.set("l", Ok(bytes("2")), 7).unwrap();
    db.dump_finished(Ok(()), 8).unwrap();
    assert!(!db.lexists("l"));
    assert_eq!(db.get("l"), Some(&bytes("2")));
}

#[test]
fn a_failed_encoding_of_the_snapshot_is_reported_like_a_failed_write() {
    let mut db = settled();
    db.set("fresh", Ok(bytes("9")), 5).unwrap();
    let report = db
        .dump_finished(Err(Error::serialization(String::from("cannot encode"))), 6)
        .unwrap_err();
    assert_eq!(report.get_type(), ErrorType::Serialization);
    assert_eq!(report.message(), "cannot encode");
    assert_eq!(db.get("fresh"), None);
}

#[test]
fn a_successful_dump_lets_the_change_stand() {
    let mut db = settled();
    db.set("fresh", Ok(bytes("9")), 5).unwrap();
    db.dump_finished(Ok(()), 6).unwrap();
    assert_eq!(db.get("fresh"), Some(&bytes("9")));
    // a late failure report answers no owed dump and changes nothing
    db.dump_finished(disk_full(), 7).unwrap_err();
    assert_eq!(db.get("fresh"), Some(&bytes("9")));
    assert_eq!(db.total_keys(), 3);
}

#[test]
fn a_change_that_changes_nothing_owes_nothing() {
    let mut db = settled();
    assert!(!db.rem("missing", 5));
    assert!(!db.dump_owed());
    assert_eq!(db.lrem_list("missing", 5), 0);
    assert!(!db.dump_owed());
    assert!(db.ladd("missing", bytes("1"), 5).is_none());
    assert!(!db.dump_owed());
    db.dump_finished(disk_full(), 6).unwrap_err();
    assert_eq!(db.get("k"), Some(&bytes("1")));
    assert_eq!(db.llen("l"), 3);
}
