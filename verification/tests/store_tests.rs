use crud_core::binder::{FieldValue, Record};
use crud_core::error::ErrorKind;
use crud_core::store::MemStore;

fn debbie_values() -> Vec<FieldValue> {
    vec![FieldValue::Text("Debbie".to_string()), FieldValue::Int(47)]
}

fn row(key: i64, name: &str, age: i64) -> Record {
    Record {
        key,
        values: vec![FieldValue::Text(name.to_string()), FieldValue::Int(age)],
    }
}

#[test]
fn create_returns_the_stored_record_with_a_fresh_key() {
    let mut store = MemStore::new(2);
    let rec = store.create(debbie_values()).expect("the arity matches");
    assert_eq!(rec.key, 1);
    assert_eq!(rec.values, debbie_values());
    let next = store.create(debbie_values()).expect("the arity matches");
    assert_eq!(next.key, 2);
}

#[test]
fn create_rejects_wrong_arity_and_stores_nothing() {
    let mut store = MemStore::new(2);
    let err = store.create(vec![FieldValue::Int(1)]).expect_err("the arity is wrong");
    assert_eq!(err.kind, ErrorKind::InvalidInput);
    let all = store.read_all().expect("read-all succeeds");
    assert!(all.is_empty());
}

#[test]
fn read_one_by_key_reports_not_found_for_zero_matches() {
    let store = MemStore::new(2);
    let err = store.read_one_by_key(12).expect_err("nothing matches");
    assert_eq!(err.kind, ErrorKind::NotFound);
}

#[test]
fn read_one_by_key_returns_the_single_match() {
    let mut store = MemStore::new(2);
    store.seed_row(row(4, "Ada", 36));
    store.seed_row(row(9, "Grace", 45));
    let rec = store.read_one_by_key(9).expect("one row matches");
    assert_eq!(rec, row(9, "Grace", 45));
}

#[test]
fn read_one_by_key_reports_internal_error_for_two_matches() {
    let mut store = MemStore::new(2);
    store.seed_row(row(4, "Ada", 36));
    store.seed_row(row(4, "Imposter", 99));
    let err = store.read_one_by_key(4).expect_err("two rows share the key");
    assert_eq!(err.kind, ErrorKind::InternalError);
}

#[test]
fn create_then_read_one_round_trips() {
    let mut store = MemStore::new(2);
    store.seed_row(row(1, "Ada", 36));
    let created = store.create(debbie_values()).expect("the arity matches");
    let read_back = store.read_one_by_key(created.key).expect("the fresh key matches once");
    assert_eq!(read_back, created);
}

#[test]
fn read_by_key_streams_matches_in_storage_order() {
    let mut store = MemStore::new(2);
    store.seed_row(row(4, "Ada", 36));
    store.seed_row(row(7, "Grace", 45));
    store.seed_row(row(4, "Edsger", 72));
    let mut stream = store.read_by_key(4);
    assert_eq!(stream.next(), Some(row(4, "Ada", 36)));
    assert_eq!(stream.next(), Some(row(4, "Edsger", 72)));
    assert_eq!(stream.next(), None);
    assert_eq!(stream.next(), None);
}

#[test]
fn read_by_key_stream_may_be_abandoned_early() {
    let mut store = MemStore::new(2);
    store.seed_row(row(4, "Ada", 36));
    store.seed_row(row(4, "Edsger", 72));
    let mut stream = store.read_by_key(4);
    assert_eq!(stream.next(), Some(row(4, "Ada", 36)));
    drop(stream);
    let all = store.read_all().expect("read-all succeeds");
    assert_eq!(all.len(), 2);
}

#[test]
fn read_all_returns_every_row_in_storage_order() {
    let mut store = MemStore::new(2);
    store.seed_row(row(4, "Ada", 36));
    store.seed_row(row(7, "Grace", 45));
    let all = store.read_all().expect("read-all succeeds");
    assert_eq!(all, vec![row(4, "Ada", 36), row(7, "Grace", 45)]);
}

#[test]
fn update_rewrites_every_row_with_the_key() {
    let mut store = MemStore::new(2);
    store.seed_row(row(4, "Ada", 36));
    store.seed_row(row(7, "Grace", 45));
    store.seed_row(row(4, "Edsger", 72));
    store.update(&row(4, "Updated", 1)).expect("the arity matches");
    let all = store.read_all().expect("read-all succeeds");
    assert_eq!(all, vec![row(4, "Updated", 1), row(7, "Grace", 45), row(4, "Updated", 1)]);
}

#[test]
fn update_of_an_absent_key_is_a_silent_success() {
    let mut store = MemStore::new(2);
    store.seed_row(row(4, "Ada", 36));
    store.update(&row(99, "Nobody", 0)).expect("zero rows affected is still success");
    let all = store.read_all().expect("read-all succeeds");
    assert_eq!(all, vec![row(4, "Ada", 36)]);
}

#[test]
fn update_rejects_wrong_arity_before_the_store() {
    let mut store = MemStore::new(2);
    store.seed_row(row(4, "Ada", 36));
    let bad = Record { key: 4, values: vec![FieldValue::Int(1)] };
    let err = store.update(&bad).expect_err("the arity is wrong");
    assert_eq!(err.kind, ErrorKind::InvalidInput);
    let all = store.read_all().expect("read-all succeeds");
    assert_eq!(all, vec![row(4, "Ada", 36)]);
}

#[test]
fn delete_removes_every_row_with_the_key() {
    let mut store = MemStore::new(2);
    store.seed_row(row(4, "Ada", 36));
    store.seed_row(row(7, "Grace", 45));
    store.seed_row(row(4, "Edsger", 72));
    store.delete(4).expect("delete succeeds");
    let all = store.read_all().expect("read-all succeeds");
    assert_eq!(all, vec![row(7, "Grace", 45)]);
}

#[test]
fn delete_of_an_absent_key_is_a_silent_success() {
    let mut store = MemStore::new(2);
    store.seed_row(row(7, "Grace", 45));
    store.delete(4).expect("zero rows affected is still success");
    let all = store.read_all().expect("read-all succeeds");
    assert_eq!(all, vec![row(7, "Grace", 45)]);
}
