//! Rendering of the `Set-Cookie` header value that carries the session
//! reference, exactly as the configured policy dictates:
//! `name=<encoded id>; Path=<path>; [Domain=<domain>;] [Secure;]
//! [HttpOnly;] SameSite=<value>[; Max-Age=<ttl>]`, with `Max-Age` omitted
//! for browser-session cookies.

use vstd::prelude::*;
use vstd::string::StringExecFns;
use crate::config::CookieConfigView;
use crate::config::SameSite;
use crate::config::SessionCookieConfig;
use crate::config::default_config_view;
use crate::id::hex_char;
use crate::id::hex_digit_str;

verus! {

/// The decimal numeral for `n`, most significant digit first, no sign and
/// no leading zero.
pub open spec fn dec_of(n: nat) -> Seq<char>
    decreases n,
{
    if n < 10 {
        seq![hex_char(n as int)]
    } else {
        dec_of(n / 10) + seq![hex_char((n % 10) as int)]
    }
}

/// The decimal numeral for `n`, as a string.
pub fn u64_to_dec(n: u64) -> (r: String)
    ensures
        r@ == dec_of(n as nat),
    decreases n,
{
    if n < 10 {
        let r = hex_digit_str(n as u8).to_owned();
        proof {
            assert(r@ =~= dec_of(n as nat));
        }
        r
    } else {
        let mut s = u64_to_dec(n / 10);
        s.append(hex_digit_str((n % 10) as u8));
        proof {
            assert(s@ =~= dec_of(n as nat));
        }
        s
    }
}

/// How a `SameSite` value is spelled in the header.
pub open spec fn same_site_str(s: SameSite) -> Seq<char> {
    match s {
        SameSite::Strict => "Strict"@,
        SameSite::Lax => "Lax"@,
        SameSite::Omit => "None"@,
    }
}

/// The spelling of a `SameSite` value.
fn same_site_value(s: &SameSite) -> (r: &'static str)
    ensures
        r@ == same_site_str(*s),
{
    match s {
        SameSite::Strict => "Strict",
        SameSite::Lax => "Lax",
        SameSite::Omit => "None",
    }
}

/// The lifetime attribute: `; Max-Age=<seconds>` for a persistent cookie,
/// nothing for a browser-session cookie.
pub open spec fn max_age_part(max_age: Option<u64>) -> Seq<char> {
    match max_age {
        Option::Some(n) => "; Max-Age="@ + dec_of(n as nat),
        Option::None => Seq::<char>::empty(),
    }
}

/// The whole header value for setting the session cookie to `id_enc` under
/// policy `c`: name and value first, then the scoping attributes, the
/// security flags, and the lifetime.
pub open spec fn render_spec(c: CookieConfigView, id_enc: Seq<char>, max_age: Option<u64>) -> Seq<
    char,
> {
    c.name + "="@ + id_enc + (match c.path {
        Option::Some(p) => "; Path="@ + p,
        Option::None => Seq::<char>::empty(),
    }) + (match c.domain {
        Option::Some(d) => "; Domain="@ + d,
        Option::None => Seq::<char>::empty(),
    }) + (if c.secure {
        "; Secure"@
    } else {
        Seq::<char>::empty()
    }) + (if c.http_only {
        "; HttpOnly"@
    } else {
        Seq::<char>::empty()
    }) + (match c.same_site {
        Option::Some(ss) => "; SameSite="@ + same_site_str(ss),
        Option::None => Seq::<char>::empty(),
    }) + max_age_part(max_age)
}

/// Build the `Set-Cookie` header value that points the client at
/// `encoded_id`, exactly [`render_spec`].
#[verifier::rlimit(50)]
pub fn render_set_cookie(config: &SessionCookieConfig, encoded_id: &str, max_age: Option<u64>) -> (r:
    String)
    ensures
        r@ == render_spec(config@, encoded_id@, max_age),
{
    let c = config;
    let mut out = c.name.clone();
    out.append("=");
    out.append(encoded_id);
    proof {
        assert(out@ =~= c@.name + "="@ + encoded_id@);
    }
    let ghost g0 = out@;
    match &c.path {
        Option::Some(p) => {
            out.append("; Path=");
            out.append(p.as_str());
        },
        Option::None => {},
    }
    proof {
        assert(out@ =~= g0 + (match c@.path {
            Option::Some(p) => "; Path="@ + p,
            Option::None => Seq::<char>::empty(),
        }));
    }
    let ghost g1 = out@;
    match &c.domain {
        Option::Some(d) => {
            out.append("; Domain=");
            out.append(d.as_str());
        },
        Option::None => {},
    }
    proof {
        assert(out@ =~= g1 + (match c@.domain {
            Option::Some(d) => "; Domain="@ + d,
            Option::None => Seq::<char>::empty(),
        }));
    }
    let ghost g2 = out@;
    if c.secure {
        out.append("; Secure");
    }
    if c.http_only {
        out.append("; HttpOnly");
    }
    proof {
        assert(out@ =~= g2 + (if c@.secure {
            "; Secure"@
        } else {
            Seq::<char>::empty()
        }) + (if c@.http_only {
            "; HttpOnly"@
        } else {
            Seq::<char>::empty()
        }));
    }
    let ghost g3 = out@;
    match &c.same_site {
        Option::Some(ss) => {
            out.append("; SameSite=");
            out.append(same_site_value(ss));
        },
        Option::None => {},
    }
    proof {
        assert(out@ =~= g3 + (match c@.same_site {
            Option::Some(ss) => "; SameSite="@ + same_site_str(ss),
            Option::None => Seq::<char>::empty(),
        }));
    }
    let ghost g4 = out@;
    match max_age {
        Option::Some(n) => {
            out.append("; Max-Age=");
            let d = u64_to_dec(n);
            out.append(d.as_str());
        },
        Option::None => {},
    }
    proof {
        assert(out@ =~= g4 + max_age_part(max_age));
        assert(out@ =~= render_spec(c@, encoded_id@, max_age));
    }
    out
}

/// Build the header value that clears the session cookie on the client:
/// an empty value that expires immediately (`Max-Age=0`), under the same
/// policy attributes.
pub fn render_expired_cookie(config: &SessionCookieConfig) -> (r: String)
    ensures
        r@ == render_spec(config@, Seq::<char>::empty(), Option::Some(0u64)),
{
    proof {
        reveal_strlit("");
    }
    render_set_cookie(config, "", Option::Some(0))
}

/// The default policy renders the documented safe baseline and nothing
/// else: `id=<value>; Path=/; Secure; HttpOnly; SameSite=Lax`, with an
/// explicit `Max-Age` exactly when a lifetime is given — so a
/// browser-session cookie carries no `Max-Age`, and a persistent one does.
pub proof fn lemma_default_config_header(id_enc: Seq<char>, ttl: u64)
    ensures
        render_spec(default_config_view(), id_enc, Option::None) == "id="@ + id_enc
            + "; Path=/; Secure; HttpOnly; SameSite=Lax"@,
        render_spec(default_config_view(), id_enc, Option::Some(ttl)) == "id="@ + id_enc
            + "; Path=/; Secure; HttpOnly; SameSite=Lax; Max-Age="@ + dec_of(ttl as nat),
{
    reveal_strlit("id");
    reveal_strlit("=");
    reveal_strlit("id=");
    reveal_strlit("/");
    reveal_strlit("; Path=");
    reveal_strlit("; Secure");
    reveal_strlit("; HttpOnly");
    reveal_strlit("; SameSite=");
    reveal_strlit("Lax");
    reveal_strlit("; Max-Age=");
    reveal_strlit("; Path=/; Secure; HttpOnly; SameSite=Lax");
    reveal_strlit("; Path=/; Secure; HttpOnly; SameSite=Lax; Max-Age=");
    assert(render_spec(default_config_view(), id_enc, Option::None) =~= "id="@ + id_enc
        + "; Path=/; Secure; HttpOnly; SameSite=Lax"@);
    assert(render_spec(default_config_view(), id_enc, Option::Some(ttl)) =~= "id="@ + id_enc
        + "; Path=/; Secure; HttpOnly; SameSite=Lax; Max-Age="@ + dec_of(ttl as nat));
}

} // verus!
