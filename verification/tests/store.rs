use tiny_mcu_helper::codec::{decode, encode, SerializedValue};
use tiny_mcu_helper::store::{
    says_initialized, InitOutcome, PersistentStore, StoreEntry, StoreError,
    DEFAULT_SCHEMA_RECORD, SCHEMA_FLAG, SCHEMA_KEY,
};

fn value(text: &str) -> SerializedValue {
    SerializedValue::parse(text.as_bytes().to_vec()).unwrap()
}

fn entry(key: &str, text: &str) -> StoreEntry {
    StoreEntry { key: key.to_string(), stored: encode(text.as_bytes()) }
}

fn read(store: &PersistentStore, key: &str) -> Option<String> {
    store.get(key).unwrap().map(|v| String::from_utf8(v.into_bytes()).unwrap())
}

fn opened() -> PersistentStore {
    let mut store = PersistentStore::new(Some(vec![]));
    assert_eq!(store.init(), Ok(InitOutcome::WroteDefault));
    store
}

#[test]
fn reserved_names_are_fixed() {
    assert_eq!(SCHEMA_KEY, "system");
    assert_eq!(SCHEMA_FLAG, "initialized");
    assert_eq!(
        DEFAULT_SCHEMA_RECORD,
        r#"{"version":"1.0.0","initialized":true,"darkTheme":true,"hideHeaderBar":true,"expandSideBar":false}"#
    );
}

#[test]
fn default_record_is_a_value_that_says_initialized() {
    assert!(SerializedValue::parse(DEFAULT_SCHEMA_RECORD.as_bytes().to_vec()).is_ok());
    assert!(says_initialized(DEFAULT_SCHEMA_RECORD.as_bytes()));
}

#[test]
fn says_initialized_reads_the_flag() {
    assert!(says_initialized(br#"{"initialized":true}"#));
    assert!(says_initialized(br#"{"version":"9","initialized":true,"darkTheme":false}"#));
    assert!(says_initialized(b" { \"initialized\" : true } "));
}

#[test]
fn says_initialized_is_false_without_a_true_flag() {
    assert!(!says_initialized(br#"{"initialized":false}"#));
    assert!(!says_initialized(br#"{"initialized":"true"}"#));
    assert!(!says_initialized(br#"{"initialized":1}"#));
    assert!(!says_initialized(br#"{"initialized":null}"#));
    assert!(!says_initialized(br#"{"Initialized":true}"#));
    assert!(!says_initialized(br#"{"version":"1.0.0"}"#));
    assert!(!says_initialized(br#"{}"#));
}

#[test]
fn says_initialized_is_false_for_what_is_no_object() {
    assert!(!says_initialized(b"true"));
    assert!(!says_initialized(b"[true]"));
    assert!(!says_initialized(b"\"initialized\""));
    assert!(!says_initialized(b""));
    assert!(!says_initialized(b"{\"initialized\":true"));
    assert!(!says_initialized(&[0xff, 0x00]));
}

#[test]
fn a_new_store_is_not_open() {
    let store = PersistentStore::new(Some(vec![]));
    assert!(!store.is_open());
    assert!(store.is_available());
    assert!(store.entries().is_empty());
}

#[test]
fn init_without_a_resource_is_unavailable() {
    let mut store = PersistentStore::new(None);
    assert!(!store.is_available());
    assert_eq!(store.init(), Err(StoreError::Unavailable));
    assert!(!store.is_open());
    assert!(store.entries().is_empty());
    assert_eq!(store.init(), Err(StoreError::Unavailable));
}

#[test]
fn first_init_writes_the_default_record() {
    let mut store = PersistentStore::new(Some(vec![]));
    assert_eq!(store.init(), Ok(InitOutcome::WroteDefault));
    assert!(store.is_open());
    assert_eq!(read(&store, "system"), Some(DEFAULT_SCHEMA_RECORD.to_string()));
    assert_eq!(store.entries().len(), 1);
}

#[test]
fn default_record_is_stored_obfuscated() {
    let store = opened();
    let entries = store.entries();
    assert_eq!(entries[0].key, "system");
    assert_eq!(entries[0].stored, encode(DEFAULT_SCHEMA_RECORD.as_bytes()));
    assert_ne!(entries[0].stored, DEFAULT_SCHEMA_RECORD.as_bytes().to_vec());
}

#[test]
fn init_twice_changes_nothing() {
    let mut store = opened();
    store.set("theme", &value("\"dark\""));
    store.set("count", &value("3"));
    let before = store.entries().clone();
    assert_eq!(store.init(), Ok(InitOutcome::AlreadyInitialized));
    assert_eq!(store.entries(), &before);
    assert_eq!(store.init(), Ok(InitOutcome::AlreadyInitialized));
    assert_eq!(store.entries(), &before);
    assert_eq!(read(&store, "theme"), Some("\"dark\"".to_string()));
    assert_eq!(read(&store, "count"), Some("3".to_string()));
    assert_eq!(read(&store, "system"), Some(DEFAULT_SCHEMA_RECORD.to_string()));
}

#[test]
fn init_on_the_next_start_changes_nothing() {
    let mut first = opened();
    first.set("a", &value("1"));
    let persisted = first.entries().clone();
    let mut second = PersistentStore::new(Some(persisted.clone()));
    assert_eq!(second.init(), Ok(InitOutcome::AlreadyInitialized));
    assert_eq!(second.entries(), &persisted);
}

#[test]
fn init_keeps_a_schema_record_that_the_user_changed() {
    let changed = r#"{"version":"1.0.0","initialized":true,"darkTheme":false,"hideHeaderBar":false,"expandSideBar":true}"#;
    let mut store = PersistentStore::new(Some(vec![entry("system", changed), entry("a", "1")]));
    assert_eq!(store.init(), Ok(InitOutcome::AlreadyInitialized));
    assert_eq!(read(&store, "system"), Some(changed.to_string()));
    assert_eq!(read(&store, "a"), Some("1".to_string()));
}

#[test]
fn init_writes_the_default_where_the_flag_is_not_true() {
    for record in [r#"{"initialized":false}"#, r#"{"version":"1.0.0"}"#, "true", "[]", r#"{"initialized":"yes"}"#] {
        let mut store = PersistentStore::new(Some(vec![entry("system", record), entry("a", "1")]));
        assert_eq!(store.init(), Ok(InitOutcome::WroteDefault), "for {}", record);
        assert_eq!(read(&store, "system"), Some(DEFAULT_SCHEMA_RECORD.to_string()));
        assert_eq!(read(&store, "a"), Some("1".to_string()));
        assert_eq!(store.entries().len(), 2);
    }
}

#[test]
fn init_writes_the_default_over_a_corrupt_schema_record() {
    let corrupt = StoreEntry { key: "system".to_string(), stored: vec![1, 2, 3] };
    let mut store = PersistentStore::new(Some(vec![corrupt]));
    assert_eq!(store.get("system"), Err(StoreError::Corrupt));
    assert_eq!(store.init(), Ok(InitOutcome::WroteDefault));
    assert_eq!(read(&store, "system"), Some(DEFAULT_SCHEMA_RECORD.to_string()));
}

#[test]
fn init_reads_the_schema_record_decoded() {
    let plain = StoreEntry {
        key: "system".to_string(),
        stored: br#"{"initialized":true}"#.to_vec(),
    };
    let mut store = PersistentStore::new(Some(vec![plain]));
    assert_eq!(store.init(), Ok(InitOutcome::WroteDefault));
}

#[test]
fn get_of_a_key_never_set_is_absent() {
    let store = opened();
    assert!(matches!(store.get("a"), Ok(None)));
    assert!(matches!(store.get(""), Ok(None)));
}

#[test]
fn get_before_init_reads_what_was_loaded() {
    let store = PersistentStore::new(Some(vec![entry("a", "[1]")]));
    assert_eq!(read(&store, "a"), Some("[1]".to_string()));
    let store = PersistentStore::new(None);
    assert!(matches!(store.get("a"), Ok(None)));
}

#[test]
fn set_then_get_gives_the_value() {
    let mut store = opened();
    store.set("a", &value(r#"{"x":[1,2,3],"y":"z"}"#));
    assert_eq!(read(&store, "a"), Some(r#"{"x":[1,2,3],"y":"z"}"#.to_string()));
}

#[test]
fn last_write_wins() {
    let mut store = opened();
    store.set("a", &value("\"first\""));
    store.set("a", &value("\"second\""));
    assert_eq!(read(&store, "a"), Some("\"second\"".to_string()));
    assert_eq!(store.entries().iter().filter(|e| e.key == "a").count(), 1);
}

#[test]
fn delete_removes_the_key() {
    let mut store = opened();
    store.set("a", &value("1"));
    assert!(store.delete("a"));
    assert!(matches!(store.get("a"), Ok(None)));
    assert!(store.entries().iter().all(|e| e.key != "a"));
}

#[test]
fn delete_of_an_absent_key_removes_nothing() {
    let mut store = opened();
    store.set("a", &value("1"));
    let before = store.entries().clone();
    assert!(!store.delete("b"));
    assert_eq!(store.entries(), &before);
    assert!(store.delete("a"));
    assert!(!store.delete("a"));
}

#[test]
fn set_after_delete_brings_the_key_back() {
    let mut store = opened();
    store.set("a", &value("1"));
    assert!(store.delete("a"));
    store.set("a", &value("2"));
    assert_eq!(read(&store, "a"), Some("2".to_string()));
}

#[test]
fn the_schema_record_can_be_set_and_deleted_like_any_key() {
    let mut store = opened();
    store.set("system", &value(r#"{"initialized":false}"#));
    assert_eq!(store.init(), Ok(InitOutcome::WroteDefault));
    assert!(store.delete("system"));
    assert!(matches!(store.get("system"), Ok(None)));
    assert_eq!(store.init(), Ok(InitOutcome::WroteDefault));
    assert_eq!(read(&store, "system"), Some(DEFAULT_SCHEMA_RECORD.to_string()));
}

#[test]
fn writes_to_different_keys_all_persist() {
    let mut store = opened();
    for i in 0..40 {
        store.set(&format!("key{}", i), &value(&format!("{}", i)));
    }
    for i in 0..40 {
        assert_eq!(read(&store, &format!("key{}", i)), Some(format!("{}", i)));
    }
    assert_eq!(store.entries().len(), 41);
}

#[test]
fn writes_to_different_keys_do_not_depend_on_their_order() {
    let mut left = opened();
    left.set("a", &value("1"));
    left.set("b", &value("2"));
    let mut right = opened();
    right.set("b", &value("2"));
    right.set("a", &value("1"));
    for key in ["a", "b", "system"] {
        assert_eq!(read(&left, key), read(&right, key));
    }
}

#[test]
fn set_and_delete_leave_other_keys_alone() {
    let mut store = opened();
    store.set("a", &value("1"));
    store.set("b", &value("2"));
    store.set("a", &value("3"));
    assert_eq!(read(&store, "b"), Some("2".to_string()));
    assert!(store.delete("a"));
    assert_eq!(read(&store, "b"), Some("2".to_string()));
    assert_eq!(read(&store, "system"), Some(DEFAULT_SCHEMA_RECORD.to_string()));
}

#[test]
fn values_are_stored_obfuscated() {
    let mut store = opened();
    store.set("a", &value(r#"{"secret":"s3cr3t"}"#));
    let stored = &store.entries().iter().find(|e| e.key == "a").unwrap().stored;
    assert_eq!(stored, &encode(br#"{"secret":"s3cr3t"}"#));
    assert_ne!(stored, &br#"{"secret":"s3cr3t"}"#.to_vec());
    assert_eq!(decode(stored), br#"{"secret":"s3cr3t"}"#.to_vec());
}

#[test]
fn corrupt_bytes_are_reported_for_their_key_alone() {
    let corrupt = StoreEntry { key: "bad".to_string(), stored: vec![0, 1, 2, 3] };
    let mut store = PersistentStore::new(Some(vec![entry("good", "1"), corrupt]));
    assert_eq!(store.init(), Ok(InitOutcome::WroteDefault));
    assert_eq!(store.get("bad"), Err(StoreError::Corrupt));
    assert_eq!(read(&store, "good"), Some("1".to_string()));
    store.set("bad", &value("2"));
    assert_eq!(read(&store, "bad"), Some("2".to_string()));
}

#[test]
fn bytes_stored_without_the_codec_read_as_corrupt() {
    let plain = StoreEntry { key: "a".to_string(), stored: br#"{"a":1}"#.to_vec() };
    let store = PersistentStore::new(Some(vec![plain]));
    assert_eq!(store.get("a"), Err(StoreError::Corrupt));
}

#[test]
fn a_corrupt_key_can_be_deleted() {
    let corrupt = StoreEntry { key: "bad".to_string(), stored: vec![9] };
    let mut store = PersistentStore::new(Some(vec![corrupt]));
    assert_eq!(store.init(), Ok(InitOutcome::WroteDefault));
    assert!(store.delete("bad"));
    assert!(matches!(store.get("bad"), Ok(None)));
}

#[test]
fn of_two_loaded_entries_with_one_key_the_later_counts() {
    let store = PersistentStore::new(Some(vec![
        entry("a", "1"),
        entry("b", "2"),
        entry("a", "3"),
    ]));
    assert_eq!(read(&store, "a"), Some("3".to_string()));
    assert_eq!(read(&store, "b"), Some("2".to_string()));
    assert_eq!(store.entries().len(), 2);
}

#[test]
fn entries_hold_each_key_once() {
    let mut store = opened();
    for key in ["a", "b", "a", "c", "b", "a"] {
        store.set(key, &value("0"));
    }
    let mut keys: Vec<&str> = store.entries().iter().map(|e| e.key.as_str()).collect();
    keys.sort();
    assert_eq!(keys, ["a", "b", "c", "system"]);
}

#[test]
fn keys_are_told_apart_exactly() {
    let mut store = opened();
    store.set("key", &value("1"));
    store.set("Key", &value("2"));
    store.set("key ", &value("3"));
    store.set("", &value("4"));
    assert_eq!(read(&store, "key"), Some("1".to_string()));
    assert_eq!(read(&store, "Key"), Some("2".to_string()));
    assert_eq!(read(&store, "key "), Some("3".to_string()));
    assert_eq!(read(&store, ""), Some("4".to_string()));
}

#[test]
fn a_sealed_entry_unseals_to_its_value() {
    let sealed = StoreEntry::seal("a", &value(r#"{"n":1}"#));
    assert_eq!(sealed.key, "a");
    assert_eq!(sealed.stored, encode(br#"{"n":1}"#));
    assert_eq!(sealed.unseal().unwrap().as_bytes(), br#"{"n":1}"#);
}

#[test]
fn an_entry_of_damaged_bytes_is_corrupt() {
    let mut sealed = StoreEntry::seal("a", &value(r#"{"n":1}"#));
    sealed.stored.pop();
    assert_eq!(sealed.unseal(), Err(StoreError::Corrupt));
    let empty = StoreEntry { key: "a".to_string(), stored: vec![] };
    assert_eq!(empty.unseal(), Err(StoreError::Corrupt));
}
