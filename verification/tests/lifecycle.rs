//! The per-request lifecycle against the in-memory store: creation,
//! loading, mutation, rotation, invalidation, expiry, and the emitted
//! `Set-Cookie` headers.

use pavex_session::InMemoryStore;
use pavex_session::SessionCookieConfig;
use pavex_session::SessionCookieKind;
use pavex_session::SessionError;
use pavex_session::SessionStore;
use pavex_session::begin;
use pavex_session::finish;

/// The identifier a `name=value; ...` header carries.
fn cookie_value(header: &str) -> String {
    let rest = header.split_once('=').expect("a cookie has a value").1;
    rest.split(';').next().unwrap().to_owned()
}

fn session_kind_config() -> SessionCookieConfig {
    SessionCookieConfig { kind: SessionCookieKind::Session, ..Default::default() }
}

#[test]
fn no_cookie_creates_one_record_and_one_cookie() {
    let mut store = InMemoryStore::new(3600);
    let config = SessionCookieConfig::default();
    assert_eq!(store.count(), 0);
    let session = begin(&mut store, None, 1_000).unwrap();
    assert_eq!(store.count(), 1);
    let header = finish(session, &mut store, &config, 1_000).unwrap();
    let header = header.expect("a fresh session always sets its cookie");
    assert!(header.starts_with("id="));
    assert!(header.contains("; Path=/; Secure; HttpOnly; SameSite=Lax; Max-Age=3600"));
    assert_eq!(store.count(), 1);
}

#[test]
fn malformed_cookie_falls_open_to_a_fresh_session() {
    let mut store = InMemoryStore::new(3600);
    let config = SessionCookieConfig::default();
    let session = begin(&mut store, Some("not!a@valid#value"), 1_000).unwrap();
    assert_eq!(store.count(), 1);
    let header = finish(session, &mut store, &config, 1_000).unwrap();
    assert!(header.is_some());
}

#[test]
fn unknown_id_creates_a_fresh_session() {
    let mut store = InMemoryStore::new(3600);
    let session = begin(&mut store, Some("00112233445566778899aabbccddeeff"), 1_000).unwrap();
    assert_eq!(store.count(), 1);
    // the fresh session travels under its own identifier, not the stranger's
    assert_ne!(session.id().encode(), "00112233445566778899aabbccddeeff");
}

#[test]
fn valid_cookie_without_mutation_emits_no_header() {
    let mut store = InMemoryStore::new(3600);
    let config = SessionCookieConfig::default();
    let first = begin(&mut store, None, 1_000).unwrap();
    let header = finish(first, &mut store, &config, 1_000).unwrap().unwrap();
    let value = cookie_value(&header);

    let second = begin(&mut store, Some(&value), 1_100).unwrap();
    let header = finish(second, &mut store, &config, 1_100).unwrap();
    assert!(header.is_none());
    assert_eq!(store.count(), 1);
}

#[test]
fn state_written_through_the_session_is_persisted() {
    let mut store = InMemoryStore::new(3600);
    let config = SessionCookieConfig::default();
    let mut session = begin(&mut store, None, 1_000).unwrap();
    session.insert("user".to_owned(), vec![42, 7]);
    assert_eq!(session.get("user"), Some(&vec![42, 7]));
    assert_eq!(session.get("missing"), None);
    let value = cookie_value(&finish(session, &mut store, &config, 1_000).unwrap().unwrap());

    let mut session = begin(&mut store, Some(&value), 1_100).unwrap();
    assert_eq!(session.get("user"), Some(&vec![42, 7]));
    session.remove("user");
    assert_eq!(session.get("user"), None);
    assert!(finish(session, &mut store, &config, 1_100).unwrap().is_none());

    let session = begin(&mut store, Some(&value), 1_200).unwrap();
    assert_eq!(session.get("user"), None);
}

#[test]
fn expired_record_is_never_loaded() {
    let mut store = InMemoryStore::new(100);
    let config = SessionCookieConfig::default();
    let first = begin(&mut store, None, 1_000).unwrap();
    let value = cookie_value(&finish(first, &mut store, &config, 1_000).unwrap().unwrap());

    // at 1_100 the record's lifetime is over: a fresh session is created
    let session = begin(&mut store, Some(&value), 1_100).unwrap();
    assert_ne!(session.id().encode(), value);
    assert_eq!(store.count(), 2);
}

#[test]
fn rotation_rekeys_and_carries_state() {
    let mut store = InMemoryStore::new(3600);
    let config = SessionCookieConfig::default();
    let mut session = begin(&mut store, None, 1_000).unwrap();
    session.insert("cart_count".to_owned(), vec![3]);
    let old_id = session.id().duplicate();

    session.rotate(&mut store).unwrap();
    let new_id = session.id().duplicate();
    assert!(!new_id.equals(&old_id));
    assert_eq!(store.count(), 1);

    // the old identifier is unusable, the new one resolves to the state
    assert!(store.load(&old_id, 1_000).unwrap().is_none());
    let record = store.load(&new_id, 1_000).unwrap().expect("rotated record is live");
    assert_eq!(record.state.get("cart_count"), Some(&vec![3]));

    // the response carries the new identifier
    let header = finish(session, &mut store, &config, 1_000).unwrap().unwrap();
    assert_eq!(cookie_value(&header), new_id.encode());
}

#[test]
fn rotating_an_absent_id_is_a_conflict() {
    let mut store = InMemoryStore::new(3600);
    let mut session = begin(&mut store, None, 1_000).unwrap();
    let id = session.id().duplicate();
    store.delete(&id).unwrap();
    match session.rotate(&mut store) {
        Err(SessionError::RotationConflict) => {},
        _ => panic!("rotating a deleted session must conflict"),
    }
}

#[test]
fn invalidation_deletes_and_clears_the_cookie() {
    let mut store = InMemoryStore::new(3600);
    let config = SessionCookieConfig::default();
    let mut session = begin(&mut store, None, 1_000).unwrap();
    let id = session.id().duplicate();
    session.invalidate(&mut store).unwrap();
    assert_eq!(store.count(), 0);
    assert!(store.load(&id, 1_000).unwrap().is_none());

    let header = finish(session, &mut store, &config, 1_000).unwrap().unwrap();
    assert_eq!(header, "id=; Path=/; Secure; HttpOnly; SameSite=Lax; Max-Age=0");
}

#[test]
fn three_requests_scenario() {
    let mut store = InMemoryStore::new(3600);
    let config = session_kind_config();
    assert_eq!(store.count(), 0);

    // request A: no cookie
    let session = begin(&mut store, None, 1_000).unwrap();
    let header_a = finish(session, &mut store, &config, 1_000).unwrap().unwrap();
    assert_eq!(store.count(), 1);
    let x = cookie_value(&header_a);
    assert_eq!(header_a, format!("id={x}; Path=/; Secure; HttpOnly; SameSite=Lax"));

    // request B: returns with the cookie, writes state; the identifier is
    // unchanged, so no new cookie goes out
    let mut session = begin(&mut store, Some(&x), 1_010).unwrap();
    session.insert("cart_count".to_owned(), vec![3]);
    let header_b = finish(session, &mut store, &config, 1_010).unwrap();
    assert!(header_b.is_none());
    assert_eq!(store.count(), 1);

    // request C: rotation
    let mut session = begin(&mut store, Some(&x), 1_020).unwrap();
    session.rotate(&mut store).unwrap();
    let header_c = finish(session, &mut store, &config, 1_020).unwrap().unwrap();
    let y = cookie_value(&header_c);
    assert_ne!(x, y);
    assert_eq!(store.count(), 1);

    let old = pavex_session::SessionId::parse(&x).unwrap();
    let new = pavex_session::SessionId::parse(&y).unwrap();
    assert!(store.load(&old, 1_020).unwrap().is_none());
    let record = store.load(&new, 1_020).unwrap().expect("carried record is live");
    assert_eq!(record.state.get("cart_count"), Some(&vec![3]));
}
