//! Declarative policy for the cookie that carries the session identifier:
//! its name, scoping attributes, security flags and lifetime kind.

use vstd::prelude::*;

verus! {

/// The `SameSite` attribute of the session cookie, restricting when the
/// browser sends it on cross-site requests.
#[derive(Debug, Clone, Copy, PartialEq, Eq, Structural)]
pub enum SameSite {
    /// Sent only on same-site requests.
    Strict,
    /// Sent on same-site requests and top-level cross-site navigations.
    Lax,
    /// Sent on all requests; rendered as `SameSite=None`.
    Omit,
}

/// The kind of cookie used to store session information on the client-side.
#[derive(Debug, Clone, Copy, PartialEq, Eq, Structural)]
pub enum SessionCookieKind {
    /// A persistent session cookie: stored on the client's device with an
    /// expiration date set by the server via the `Max-Age` attribute.
    ///
    /// This is the default.
    Persistent,
    /// A cookie that expires when the browser session ends, so no explicit
    /// lifetime attribute is emitted.
    Session,
}

impl Default for SessionCookieKind {
    /// The default kind: a persistent cookie.
    fn default() -> (r: Self)
        ensures
            r == SessionCookieKind::Persistent,
    {
        SessionCookieKind::Persistent
    }
}

/// Configure the cookie used to store session information on the client-side.
///
/// Constructed once at startup; the per-request lifecycle only reads it.
pub struct SessionCookieConfig {
    /// The name of the cookie used to store the session ID.
    ///
    /// By default, the name is set to `id`.
    pub name: String,
    /// The `Domain` attribute on the cookie used to store the session ID.
    ///
    /// By default, the attribute is not set.
    pub domain: Option<String>,
    /// The `Path` attribute on the cookie used to store the session ID.
    ///
    /// By default, the attribute is set to `/`.
    pub path: Option<String>,
    /// The `Secure` attribute: if set, the cookie is only transmitted when
    /// the connection is secure.
    ///
    /// Default is `true`.
    pub secure: bool,
    /// The `HttpOnly` attribute: if set, the cookie is not visible to
    /// scripts running in the browser.
    ///
    /// Default is `true`.
    pub http_only: bool,
    /// The `SameSite` attribute on the cookie used to store the session ID.
    ///
    /// By default, the attribute is set to [`SameSite::Lax`].
    pub same_site: Option<SameSite>,
    /// The kind of session cookie to use.
    ///
    /// By default, it is set to [`SessionCookieKind::Persistent`].
    pub kind: SessionCookieKind,
}

/// The mathematical content of a [`SessionCookieConfig`]: the same fields
/// with each string replaced by its character sequence.
pub struct CookieConfigView {
    pub name: Seq<char>,
    pub domain: Option<Seq<char>>,
    pub path: Option<Seq<char>>,
    pub secure: bool,
    pub http_only: bool,
    pub same_site: Option<SameSite>,
    pub kind: SessionCookieKind,
}

impl View for SessionCookieConfig {
    type V = CookieConfigView;

    open spec fn view(&self) -> CookieConfigView {
        CookieConfigView {
            name: self.name@,
            domain: match self.domain {
                Option::Some(d) => Option::Some(d@),
                Option::None => Option::None,
            },
            path: match self.path {
                Option::Some(p) => Option::Some(p@),
                Option::None => Option::None,
            },
            secure: self.secure,
            http_only: self.http_only,
            same_site: self.same_site,
            kind: self.kind,
        }
    }
}

/// The view of the default configuration: the most restrictive safe
/// baseline (`id`, `Path=/`, `Secure`, `HttpOnly`, `SameSite=Lax`,
/// persistent lifetime), a deliberate security decision.
pub open spec fn default_config_view() -> CookieConfigView {
    CookieConfigView {
        name: "id"@,
        domain: Option::None,
        path: Option::Some("/"@),
        secure: true,
        http_only: true,
        same_site: Option::Some(SameSite::Lax),
        kind: SessionCookieKind::Persistent,
    }
}

/// The default name of the session cookie: `id`, chosen so that the cookie
/// does not fingerprint the server technology.
pub fn default_session_cookie_name() -> (r: String)
    ensures
        r@ == "id"@,
{
    "id".to_owned()
}

/// The default for the `Secure` attribute: enabled.
pub fn default_session_cookie_secure() -> (r: bool)
    ensures
        r == true,
{
    true
}

/// The default for the `HttpOnly` attribute: enabled.
pub fn default_session_cookie_http_only() -> (r: bool)
    ensures
        r == true,
{
    true
}

/// The default for the `Path` attribute: `/`.
pub fn default_session_cookie_path() -> (r: Option<String>)
    ensures
        r matches Option::Some(p) && p@ == "/"@,
{
    Option::Some("/".to_owned())
}

/// The default for the `SameSite` attribute: `Lax`.
pub fn default_session_cookie_same_site() -> (r: Option<SameSite>)
    ensures
        r == Option::Some(SameSite::Lax),
{
    Option::Some(SameSite::Lax)
}

impl Default for SessionCookieConfig {
    /// The default policy, exactly [`default_config_view`].
    fn default() -> (r: Self)
        ensures
            r@ == default_config_view(),
    {
        SessionCookieConfig {
            name: default_session_cookie_name(),
            domain: Option::None,
            path: default_session_cookie_path(),
            secure: default_session_cookie_secure(),
            http_only: default_session_cookie_http_only(),
            same_site: default_session_cookie_same_site(),
            kind: SessionCookieKind::default(),
        }
    }
}

} // verus!
