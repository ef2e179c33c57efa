//! Session identifiers: generation, wire encoding, and validation.

use pavex_session::SessionError;
use pavex_session::SessionId;

#[test]
fn generated_id_round_trips() {
    let id = SessionId::generate().expect("random source available");
    let encoded = id.encode();
    assert_eq!(encoded.len(), 32);
    assert!(encoded.chars().all(|c| c.is_ascii_hexdigit() && !c.is_ascii_uppercase()));
    let parsed = SessionId::parse(&encoded).expect("own encoding parses");
    assert!(parsed.equals(&id));
    // re-encoding is the identity on the wire form
    assert_eq!(parsed.encode(), encoded);
}

#[test]
fn generated_ids_differ() {
    let a = SessionId::generate().unwrap();
    let b = SessionId::generate().unwrap();
    assert!(!a.equals(&b));
    assert_ne!(a.encode(), b.encode());
}

#[test]
fn parse_known_value() {
    let raw = "00112233445566778899aabbccddeeff";
    let id = SessionId::parse(raw).expect("well-formed encoding");
    assert_eq!(id.encode(), raw);
}

#[test]
fn parse_rejects_malformed_values() {
    let cases = [
        "",
        "00112233445566778899aabbccddeef",    // 31 characters
        "00112233445566778899aabbccddeeff0",  // 33 characters
        "00112233445566778899AABBCCDDEEFF",   // uppercase
        "0011223344556677 899aabbccddeeff",   // a space
        "g0112233445566778899aabbccddeeff",   // not a hex digit
        "00112233445566778899aabbccddeef\u{e9}", // not ASCII
    ];
    for raw in cases {
        match SessionId::parse(raw) {
            Err(SessionError::InvalidIdFormat) => {},
            _ => panic!("{raw:?} should be rejected"),
        }
    }
}

#[test]
fn duplicate_is_equal() {
    let id = SessionId::generate().unwrap();
    let copy = id.duplicate();
    assert!(copy.equals(&id));
    assert_eq!(copy.encode(), id.encode());
}
