//! Cookie policy defaults and `Set-Cookie` rendering.

use pavex_session::SameSite;
use pavex_session::SessionCookieConfig;
use pavex_session::SessionCookieKind;
use pavex_session::default_session_cookie_http_only;
use pavex_session::default_session_cookie_name;
use pavex_session::default_session_cookie_path;
use pavex_session::default_session_cookie_same_site;
use pavex_session::default_session_cookie_secure;
use pavex_session::render_expired_cookie;
use pavex_session::render_set_cookie;
use pavex_session::u64_to_dec;

#[test]
fn default_values() {
    assert_eq!(default_session_cookie_name(), "id");
    assert!(default_session_cookie_secure());
    assert!(default_session_cookie_http_only());
    assert_eq!(default_session_cookie_path(), Some("/".to_owned()));
    assert_eq!(default_session_cookie_same_site(), Some(SameSite::Lax));
}

#[test]
fn default_kind_is_persistent() {
    assert_eq!(SessionCookieKind::default(), SessionCookieKind::Persistent);
}

#[test]
fn default_config_is_the_safe_baseline() {
    let config = SessionCookieConfig::default();
    assert_eq!(config.name, "id");
    assert_eq!(config.domain, None);
    assert_eq!(config.path, Some("/".to_owned()));
    assert!(config.secure);
    assert!(config.http_only);
    assert_eq!(config.same_site, Some(SameSite::Lax));
    assert_eq!(config.kind, SessionCookieKind::Persistent);
}

#[test]
fn default_config_session_kind_header() {
    let config = SessionCookieConfig { kind: SessionCookieKind::Session, ..Default::default() };
    // a browser-session cookie: all the safe flags, no Max-Age
    let header = render_set_cookie(&config, "00112233445566778899aabbccddeeff", None);
    assert_eq!(
        header,
        "id=00112233445566778899aabbccddeeff; Path=/; Secure; HttpOnly; SameSite=Lax"
    );
}

#[test]
fn default_config_persistent_header_has_max_age() {
    let config = SessionCookieConfig::default();
    let header = render_set_cookie(&config, "00112233445566778899aabbccddeeff", Some(7200));
    assert_eq!(
        header,
        "id=00112233445566778899aabbccddeeff; Path=/; Secure; HttpOnly; SameSite=Lax; Max-Age=7200"
    );
}

#[test]
fn custom_config_header() {
    let config = SessionCookieConfig {
        name: "sid".to_owned(),
        domain: Some("example.com".to_owned()),
        path: Some("/app".to_owned()),
        secure: false,
        http_only: false,
        same_site: Some(SameSite::Strict),
        kind: SessionCookieKind::Persistent,
    };
    let header = render_set_cookie(&config, "abc0", Some(60));
    assert_eq!(header, "sid=abc0; Path=/app; Domain=example.com; SameSite=Strict; Max-Age=60");
}

#[test]
fn omitted_attributes_are_omitted() {
    let config = SessionCookieConfig {
        name: "sid".to_owned(),
        domain: None,
        path: None,
        secure: true,
        http_only: true,
        same_site: None,
        kind: SessionCookieKind::Session,
    };
    let header = render_set_cookie(&config, "abc0", None);
    assert_eq!(header, "sid=abc0; Secure; HttpOnly");
}

#[test]
fn same_site_none_is_spelled_none() {
    let config = SessionCookieConfig {
        same_site: Some(SameSite::Omit),
        ..Default::default()
    };
    let header = render_set_cookie(&config, "abc0", None);
    assert_eq!(header, "id=abc0; Path=/; Secure; HttpOnly; SameSite=None");
}

#[test]
fn expired_cookie_has_empty_value_and_zero_max_age() {
    let config = SessionCookieConfig::default();
    let header = render_expired_cookie(&config);
    assert_eq!(header, "id=; Path=/; Secure; HttpOnly; SameSite=Lax; Max-Age=0");
}

#[test]
fn decimal_rendering() {
    assert_eq!(u64_to_dec(0), "0");
    assert_eq!(u64_to_dec(7), "7");
    assert_eq!(u64_to_dec(10), "10");
    assert_eq!(u64_to_dec(7200), "7200");
    assert_eq!(u64_to_dec(u64::MAX), "18446744073709551615");
}
