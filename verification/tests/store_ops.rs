//! The store contract, exercised directly on the in-memory backend.

use pavex_session::InMemoryStore;
use pavex_session::SessionState;
use pavex_session::SessionStore;

#[test]
fn create_writes_one_live_record() {
    let mut store = InMemoryStore::new(200);
    let record = store.create(SessionState::new(), 1_000).unwrap();
    assert_eq!(store.count(), 1);
    assert_eq!(record.created_at, 1_000);
    assert_eq!(record.last_touched_at, 1_000);
    assert_eq!(record.expires_at, 1_200);
    let loaded = store.load(&record.id, 1_199).unwrap().expect("still live");
    assert!(loaded.id.equals(&record.id));
    // at the expiry instant the record is dead
    assert!(store.load(&record.id, 1_200).unwrap().is_none());
}

#[test]
fn save_upserts() {
    let mut store = InMemoryStore::new(200);
    let mut record = store.create(SessionState::new(), 1_000).unwrap();
    record.state.insert("k".to_owned(), vec![1]);
    record.expires_at = 2_000;
    store.save(&record).unwrap();
    assert_eq!(store.count(), 1);
    let loaded = store.load(&record.id, 1_500).unwrap().expect("renewed record is live");
    assert_eq!(loaded.state.get("k"), Some(&vec![1]));
}

#[test]
fn delete_is_idempotent() {
    let mut store = InMemoryStore::new(200);
    let record = store.create(SessionState::new(), 1_000).unwrap();
    store.delete(&record.id).unwrap();
    assert_eq!(store.count(), 0);
    // deleting what is already gone is not an error
    store.delete(&record.id).unwrap();
    assert_eq!(store.count(), 0);
}

#[test]
fn distinct_sessions_coexist() {
    let mut store = InMemoryStore::new(200);
    let a = store.create(SessionState::new(), 1_000).unwrap();
    let b = store.create(SessionState::new(), 1_000).unwrap();
    assert!(!a.id.equals(&b.id));
    assert_eq!(store.count(), 2);
    store.delete(&a.id).unwrap();
    assert!(store.load(&a.id, 1_000).unwrap().is_none());
    assert!(store.load(&b.id, 1_000).unwrap().is_some());
}

#[test]
fn state_map_semantics() {
    let mut state = SessionState::new();
    assert_eq!(state.len(), 0);
    state.insert("a".to_owned(), vec![1]);
    state.insert("b".to_owned(), vec![2]);
    assert_eq!(state.len(), 2);
    // inserting under a present key replaces, never duplicates
    state.insert("a".to_owned(), vec![9]);
    assert_eq!(state.len(), 2);
    assert_eq!(state.get("a"), Some(&vec![9]));
    state.remove("a");
    assert_eq!(state.len(), 1);
    assert_eq!(state.get("a"), None);
    // removing an absent key changes nothing
    state.remove("zz");
    assert_eq!(state.len(), 1);
    let copy = state.duplicate();
    assert_eq!(copy.get("b"), Some(&vec![2]));
}
