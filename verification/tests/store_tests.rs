use kv_persistence::domain::{FieldRecord, RowRecord};
use kv_persistence::errors::KVError;
use kv_persistence::record::KeyValue;
use kv_persistence::store::GridKVPersistence;
use kv_persistence::store::KVTransaction;

fn open() -> GridKVPersistence {
    GridKVPersistence::open_in_memory().expect("open in-memory store")
}

fn row(id: &str, payload: &[u8]) -> RowRecord {
    RowRecord::new(id.to_string(), payload.to_vec())
}

fn assert_row(got: &RowRecord, id: &str, payload: &[u8]) {
    assert_eq!(got.id().as_str(), id);
    assert_eq!(got.payload().as_slice(), payload);
}

#[test]
fn set_then_get_round_trips() {
    let mut store = open();
    store.set(&row("a", b"x")).unwrap();
    let got: Option<RowRecord> = store.get(&"a".to_string()).unwrap();
    assert_row(&got.unwrap(), "a", b"x");
}

#[test]
fn get_of_never_set_key_is_none() {
    let mut store = open();
    let got: Option<RowRecord> = store.get(&"missing".to_string()).unwrap();
    assert!(got.is_none());
}

#[test]
fn second_set_fully_overwrites() {
    let mut store = open();
    store.set(&row("a", b"first")).unwrap();
    store.set(&row("a", b"second")).unwrap();
    let got: Option<RowRecord> = store.get(&"a".to_string()).unwrap();
    assert_row(&got.unwrap(), "a", b"second");
}

#[test]
fn remove_clears_the_key() {
    let mut store = open();
    store.set(&row("a", b"x")).unwrap();
    store.remove(&"a".to_string()).unwrap();
    let got: Option<RowRecord> = store.get(&"a".to_string()).unwrap();
    assert!(got.is_none());
}

#[test]
fn remove_of_never_set_key_succeeds() {
    let mut store = open();
    store.remove(&"never".to_string()).unwrap();
}

#[test]
fn batch_set_then_batch_get_is_complete() {
    let mut store = open();
    let values = vec![row("a", b"1"), row("b", b"2"), row("c", b"3")];
    store.batch_set(&values).unwrap();
    let keys = vec!["a".to_string(), "b".to_string(), "c".to_string()];
    let got: Vec<RowRecord> = store.batch_get(&keys).unwrap();
    assert_eq!(got.len(), 3);
    assert_row(&got[0], "a", b"1");
    assert_row(&got[1], "b", b"2");
    assert_row(&got[2], "c", b"3");
}

#[test]
fn batch_get_omits_absent_keys() {
    let mut store = open();
    store.batch_set(&vec![row("a", b"1"), row("b", b"2")]).unwrap();
    let keys = vec!["a".to_string(), "ghost".to_string(), "b".to_string()];
    let got: Vec<RowRecord> = store.batch_get(&keys).unwrap();
    assert_eq!(got.len(), 2);
    assert_row(&got[0], "a", b"1");
    assert_row(&got[1], "b", b"2");
}

#[test]
fn batch_get_fetches_a_duplicated_key_once() {
    let mut store = open();
    store.batch_set(&vec![row("a", b"1"), row("b", b"2")]).unwrap();
    let keys = vec!["a".to_string(), "a".to_string(), "b".to_string(), "a".to_string()];
    let got: Vec<RowRecord> = store.batch_get(&keys).unwrap();
    assert_eq!(got.len(), 2);
    assert_row(&got[0], "a", b"1");
    assert_row(&got[1], "b", b"2");
}

#[test]
fn later_batch_entry_wins_for_equal_keys() {
    let mut store = open();
    store.batch_set(&vec![row("a", b"early"), row("a", b"late")]).unwrap();
    let got: Option<RowRecord> = store.get(&"a".to_string()).unwrap();
    assert_row(&got.unwrap(), "a", b"late");
}

#[test]
fn batch_remove_deletes_all_given_keys() {
    let mut store = open();
    store.batch_set(&vec![row("a", b"1"), row("b", b"2"), row("c", b"3")]).unwrap();
    store.batch_remove(&vec!["a".to_string(), "c".to_string(), "ghost".to_string()]).unwrap();
    let a: Option<RowRecord> = store.get(&"a".to_string()).unwrap();
    let b: Option<RowRecord> = store.get(&"b".to_string()).unwrap();
    let c: Option<RowRecord> = store.get(&"c".to_string()).unwrap();
    assert!(a.is_none());
    assert_row(&b.unwrap(), "b", b"2");
    assert!(c.is_none());
}

#[test]
fn get_with_mismatched_type_reports_deserialize() {
    let mut store = open();
    let field = FieldRecord::new("f".to_string(), b"title".to_vec(), true);
    store.set(&field).unwrap();
    let got: Result<Option<RowRecord>, KVError> = store.get(&"f".to_string());
    assert_eq!(got.unwrap_err(), KVError::Deserialize);
}

#[test]
fn get_with_mismatched_type_the_other_way_reports_deserialize() {
    let mut store = open();
    store.set(&row("r", b"payload")).unwrap();
    let got: Result<Option<FieldRecord>, KVError> = store.get(&"r".to_string());
    assert_eq!(got.unwrap_err(), KVError::Deserialize);
}

#[test]
fn field_codec_round_trips_both_flags() {
    let mut store = open();
    store.set(&FieldRecord::new("shown".to_string(), b"n1".to_vec(), true)).unwrap();
    store.set(&FieldRecord::new("hidden".to_string(), b"n2".to_vec(), false)).unwrap();
    let shown: FieldRecord = store.get(&"shown".to_string()).unwrap().unwrap();
    let hidden: FieldRecord = store.get(&"hidden".to_string()).unwrap().unwrap();
    assert_eq!(shown.id().as_str(), "shown");
    assert_eq!(shown.name().as_slice(), b"n1");
    assert!(shown.visible());
    assert_eq!(hidden.id().as_str(), "hidden");
    assert_eq!(hidden.name().as_slice(), b"n2");
    assert!(!hidden.visible());
}

#[test]
fn full_scenario_set_batch_set_batch_get_batch_remove() {
    let mut store = open();
    store.set(&row("a", b"x")).unwrap();
    let first: Option<RowRecord> = store.get(&"a".to_string()).unwrap();
    assert_row(&first.unwrap(), "a", b"x");

    store.batch_set(&vec![row("a", b"y"), row("b", b"z")]).unwrap();
    let keys = vec!["a".to_string(), "b".to_string(), "c".to_string()];
    let got: Vec<RowRecord> = store.batch_get(&keys).unwrap();
    assert_eq!(got.len(), 2);
    assert_row(&got[0], "a", b"y");
    assert_row(&got[1], "b", b"z");

    store.batch_remove(&vec!["a".to_string()]).unwrap();
    let a: Option<RowRecord> = store.get(&"a".to_string()).unwrap();
    assert!(a.is_none());
    let b: Option<RowRecord> = store.get(&"b".to_string()).unwrap();
    assert_row(&b.unwrap(), "b", b"z");
}

#[test]
fn empty_payload_round_trips() {
    let mut store = open();
    store.set(&row("empty", b"")).unwrap();
    let got: Option<RowRecord> = store.get(&"empty".to_string()).unwrap();
    assert_row(&got.unwrap(), "empty", b"");
}

#[test]
fn record_conversion_round_trips() {
    let value = row("k", b"data");
    let kv = KeyValue::from_typed(&value);
    assert_eq!(kv.key.as_str(), "k");
    let back: RowRecord = kv.try_into_typed().unwrap();
    assert_row(&back, "k", b"data");
}

#[test]
fn record_with_wrong_tag_fails_to_decode() {
    let kv = KeyValue { key: "k".to_string(), value: vec![9u8, 1, 2] };
    let r: Result<RowRecord, KVError> = kv.try_into_typed();
    assert_eq!(r.unwrap_err(), KVError::Deserialize);
}

#[test]
fn record_with_empty_value_fails_to_decode() {
    let kv = KeyValue { key: "k".to_string(), value: vec![] };
    let r: Result<RowRecord, KVError> = kv.try_into_typed();
    assert_eq!(r.unwrap_err(), KVError::Deserialize);
}

#[test]
fn record_with_empty_key_fails_to_decode() {
    let kv = KeyValue { key: String::new(), value: vec![1u8, 2, 3] };
    let r: Result<RowRecord, KVError> = kv.try_into_typed();
    assert_eq!(r.unwrap_err(), KVError::Deserialize);
}

#[test]
fn field_with_invalid_visibility_byte_fails_to_decode() {
    let kv = KeyValue { key: "f".to_string(), value: vec![2u8, 5, 7] };
    let r: Result<FieldRecord, KVError> = kv.try_into_typed();
    assert_eq!(r.unwrap_err(), KVError::Deserialize);
}

#[test]
fn field_too_short_fails_to_decode() {
    let kv = KeyValue { key: "f".to_string(), value: vec![2u8] };
    let r: Result<FieldRecord, KVError> = kv.try_into_typed();
    assert_eq!(r.unwrap_err(), KVError::Deserialize);
}

#[test]
fn stores_are_independent() {
    let mut one = open();
    let mut two = open();
    one.set(&row("a", b"one")).unwrap();
    let got: Option<RowRecord> = two.get(&"a".to_string()).unwrap();
    assert!(got.is_none());
}
